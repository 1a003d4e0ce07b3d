//! Values carried by MDSFTP packets: lock kinds, error kinds, flag sets,
//! request results and chunk ranges.
use vstd::prelude::*;
use crate::error::{MDSFTPError, MDSFTPResult};

verus! {

/// A chunk identifier: the sixteen bytes of the chunk's UUID, read big-endian.
pub type ChunkId = u128;

#[derive(Debug, Clone, Copy, PartialEq, Eq, Structural)]
pub enum LockKind {
    Read,
    Write,
}

/// The lock kind that the low bit of a byte selects.
pub open spec fn lock_kind_of(value: u8) -> LockKind {
    if value % 2 == 0 {
        LockKind::Read
    } else {
        LockKind::Write
    }
}

/// The byte that stands for a lock kind.
pub open spec fn lock_kind_bits(kind: LockKind) -> u8 {
    match kind {
        LockKind::Read => 0,
        LockKind::Write => 1,
    }
}

impl From<u8> for LockKind {
    fn from(value: u8) -> (r: Self) {
        assert((value & 0x01 == 0) == (value % 2 == 0)) by (bit_vector);
        if value & 0x01 == 0 {
            LockKind::Read
        } else {
            LockKind::Write
        }
    }
}

impl vstd::std_specs::convert::FromSpecImpl<u8> for LockKind {
    open spec fn obeys_from_spec() -> bool {
        true
    }

    open spec fn from_spec(value: u8) -> Self {
        lock_kind_of(value)
    }
}

impl From<LockKind> for u8 {
    fn from(value: LockKind) -> (r: Self) {
        match value {
            LockKind::Read => 0u8,
            LockKind::Write => 1u8,
        }
    }
}

impl vstd::std_specs::convert::FromSpecImpl<LockKind> for u8 {
    open spec fn obeys_from_spec() -> bool {
        true
    }

    open spec fn from_spec(value: LockKind) -> Self {
        lock_kind_bits(value)
    }
}

#[derive(Debug, Clone, Copy, PartialEq, Eq, Structural)]
pub enum ChunkErrorKind {
    NotAvailable,
    NotFound,
}

/// The chunk error kind that the second bit of a byte selects.
pub open spec fn chunk_error_of(value: u8) -> ChunkErrorKind {
    if (value / 2) % 2 == 0 {
        ChunkErrorKind::NotAvailable
    } else {
        ChunkErrorKind::NotFound
    }
}

/// The byte that stands for a chunk error kind.
pub open spec fn chunk_error_bits(kind: ChunkErrorKind) -> u8 {
    match kind {
        ChunkErrorKind::NotAvailable => 0,
        ChunkErrorKind::NotFound => 2,
    }
}

/// The protocol error that a chunk error kind reports.
pub open spec fn chunk_error_as_error(kind: ChunkErrorKind) -> MDSFTPError {
    match kind {
        ChunkErrorKind::NotAvailable => MDSFTPError::RemoteError,
        ChunkErrorKind::NotFound => MDSFTPError::NoSuchChunkId,
    }
}

impl From<ChunkErrorKind> for MDSFTPError {
    fn from(value: ChunkErrorKind) -> (r: Self) {
        match value {
            ChunkErrorKind::NotAvailable => MDSFTPError::RemoteError,
            ChunkErrorKind::NotFound => MDSFTPError::NoSuchChunkId,
        }
    }
}

impl vstd::std_specs::convert::FromSpecImpl<ChunkErrorKind> for MDSFTPError {
    open spec fn obeys_from_spec() -> bool {
        true
    }

    open spec fn from_spec(value: ChunkErrorKind) -> Self {
        chunk_error_as_error(value)
    }
}

impl From<u8> for ChunkErrorKind {
    fn from(value: u8) -> (r: Self) {
        assert((value & 0x2 == 0) == ((value / 2) % 2 == 0)) by (bit_vector);
        if value & 0x2 == 0 {
            ChunkErrorKind::NotAvailable
        } else {
            ChunkErrorKind::NotFound
        }
    }
}

impl vstd::std_specs::convert::FromSpecImpl<u8> for ChunkErrorKind {
    open spec fn obeys_from_spec() -> bool {
        true
    }

    open spec fn from_spec(value: u8) -> Self {
        chunk_error_of(value)
    }
}

impl From<ChunkErrorKind> for u8 {
    fn from(value: ChunkErrorKind) -> (r: Self) {
        match value {
            ChunkErrorKind::NotAvailable => 0u8,
            ChunkErrorKind::NotFound => 2u8,
        }
    }
}

impl vstd::std_specs::convert::FromSpecImpl<ChunkErrorKind> for u8 {
    open spec fn obeys_from_spec() -> bool {
        true
    }

    open spec fn from_spec(value: ChunkErrorKind) -> Self {
        chunk_error_bits(value)
    }
}

/// The value of a flag in a flag byte: `weight` when set, 0 otherwise.
pub open spec fn flag_bit(set: bool, weight: u8) -> int {
    if set {
        weight as int
    } else {
        0
    }
}

/// Whether bit `k` (weight `2^k`) of a byte is set.
pub open spec fn bit_set(value: u8, k: nat) -> bool {
    (value as int / crate::bytes::pow2(k)) % 2 == 1
}

#[derive(Debug, Clone, Copy, PartialEq, Eq, Structural)]
pub struct ReserveFlags {
    /// Indicates that the connection will receive data immediately
    pub auto_start: bool,
    /// Reservation for a durable upload
    pub durable: bool,
    /// Indicates that the channel is temporary, and that the file transfer will commence later
    pub temp: bool,
    /// Prep already existing chunk for being overwritten.
    pub overwrite: bool,
}

pub open spec fn reserve_flags_bits(f: ReserveFlags) -> u8 {
    (flag_bit(f.auto_start, 1) + flag_bit(f.durable, 2) + flag_bit(f.temp, 4) + flag_bit(
        f.overwrite,
        8,
    )) as u8
}

pub open spec fn reserve_flags_of(value: u8) -> ReserveFlags {
    ReserveFlags {
        auto_start: bit_set(value, 0),
        durable: bit_set(value, 1),
        temp: bit_set(value, 2),
        overwrite: bit_set(value, 3),
    }
}

/// Proves, for one byte, that testing a mask equals testing the bit
/// arithmetically.
proof fn lemma_mask_bits(value: u8)
    ensures
        ((value & 1u8) != 0) == bit_set(value, 0),
        ((value & 2u8) != 0) == bit_set(value, 1),
        ((value & 4u8) != 0) == bit_set(value, 2),
        ((value & 8u8) != 0) == bit_set(value, 3),
{
    reveal_with_fuel(crate::bytes::pow2, 4);
    assert(((value & 1u8) != 0) == (value % 2 == 1)) by (bit_vector);
    assert(((value & 2u8) != 0) == ((value / 2) % 2 == 1)) by (bit_vector);
    assert(((value & 4u8) != 0) == ((value / 4) % 2 == 1)) by (bit_vector);
    assert(((value & 8u8) != 0) == ((value / 8) % 2 == 1)) by (bit_vector);
}

impl From<ReserveFlags> for u8 {
    fn from(value: ReserveFlags) -> (r: Self) {
        let a: u8 = if value.auto_start { 1 } else { 0 };
        let d: u8 = if value.durable { 2 } else { 0 };
        let t: u8 = if value.temp { 4 } else { 0 };
        let o: u8 = if value.overwrite { 8 } else { 0 };
        a + d + t + o
    }
}

impl vstd::std_specs::convert::FromSpecImpl<ReserveFlags> for u8 {
    open spec fn obeys_from_spec() -> bool {
        true
    }

    open spec fn from_spec(value: ReserveFlags) -> Self {
        reserve_flags_bits(value)
    }
}

impl From<u8> for ReserveFlags {
    fn from(value: u8) -> (r: Self) {
        proof {
            lemma_mask_bits(value);
        }
        ReserveFlags {
            auto_start: (value & 1u8) != 0,
            durable: (value & 2u8) != 0,
            temp: (value & 4u8) != 0,
            overwrite: (value & 8u8) != 0,
        }
    }
}

impl vstd::std_specs::convert::FromSpecImpl<u8> for ReserveFlags {
    open spec fn obeys_from_spec() -> bool {
        true
    }

    open spec fn from_spec(value: u8) -> Self {
        reserve_flags_of(value)
    }
}

#[derive(Debug, Clone, Copy, PartialEq, Eq, Structural)]
pub struct PutFlags {
    pub append: bool,
}

pub open spec fn put_flags_bits(f: PutFlags) -> u8 {
    flag_bit(f.append, 1) as u8
}

pub open spec fn put_flags_of(value: u8) -> PutFlags {
    PutFlags { append: bit_set(value, 0) }
}

impl From<PutFlags> for u8 {
    fn from(value: PutFlags) -> (r: Self) {
        if value.append {
            1
        } else {
            0
        }
    }
}

impl vstd::std_specs::convert::FromSpecImpl<PutFlags> for u8 {
    open spec fn obeys_from_spec() -> bool {
        true
    }

    open spec fn from_spec(value: PutFlags) -> Self {
        put_flags_bits(value)
    }
}

impl From<u8> for PutFlags {
    fn from(value: u8) -> (r: Self) {
        proof {
            lemma_mask_bits(value);
        }
        PutFlags { append: (value & 1u8) != 0 }
    }
}

impl vstd::std_specs::convert::FromSpecImpl<u8> for PutFlags {
    open spec fn obeys_from_spec() -> bool {
        true
    }

    open spec fn from_spec(value: u8) -> Self {
        put_flags_of(value)
    }
}

#[derive(Debug, Clone, Copy, PartialEq, Eq, Structural)]
pub struct CommitFlags {
    pub reject: bool,
    pub keep_alive: bool,
    pub is_final: bool,
}

impl CommitFlags {
    /// The flags of a rejected commit.
    pub fn reject() -> (r: Self)
        ensures
            r == (CommitFlags { reject: true, keep_alive: false, is_final: false }),
    {
        CommitFlags { reject: true, keep_alive: false, is_final: false }
    }

    /// The flags of a commit that keeps the chunk open.
    pub fn keep_alive() -> (r: Self)
        ensures
            r == (CommitFlags { reject: false, keep_alive: true, is_final: false }),
    {
        CommitFlags { reject: false, keep_alive: true, is_final: false }
    }

    /// The flags of a final commit.
    pub fn final_commit() -> (r: Self)
        ensures
            r == (CommitFlags { reject: false, keep_alive: false, is_final: true }),
    {
        CommitFlags { reject: false, keep_alive: false, is_final: true }
    }
}

pub open spec fn commit_flags_bits(f: CommitFlags) -> u8 {
    (flag_bit(f.reject, 1) + flag_bit(f.keep_alive, 2) + flag_bit(f.is_final, 4)) as u8
}

pub open spec fn commit_flags_of(value: u8) -> CommitFlags {
    CommitFlags { reject: bit_set(value, 0), keep_alive: bit_set(value, 1), is_final: bit_set(value, 2) }
}

impl From<CommitFlags> for u8 {
    fn from(value: CommitFlags) -> (r: Self) {
        let r: u8 = if value.reject { 1 } else { 0 };
        let k: u8 = if value.keep_alive { 2 } else { 0 };
        let f: u8 = if value.is_final { 4 } else { 0 };
        r + k + f
    }
}

impl vstd::std_specs::convert::FromSpecImpl<CommitFlags> for u8 {
    open spec fn obeys_from_spec() -> bool {
        true
    }

    open spec fn from_spec(value: CommitFlags) -> Self {
        commit_flags_bits(value)
    }
}

impl From<u8> for CommitFlags {
    fn from(value: u8) -> (r: Self) {
        proof {
            lemma_mask_bits(value);
        }
        CommitFlags {
            reject: (value & 1u8) != 0,
            keep_alive: (value & 2u8) != 0,
            is_final: (value & 4u8) != 0,
        }
    }
}

impl vstd::std_specs::convert::FromSpecImpl<u8> for CommitFlags {
    open spec fn obeys_from_spec() -> bool {
        true
    }

    open spec fn from_spec(value: u8) -> Self {
        commit_flags_of(value)
    }
}

#[derive(Debug, Clone, Copy, PartialEq, Eq)]
pub struct ReserveResult {
    pub chunk_id: ChunkId,
    pub chunk_buffer: u16,
}

#[derive(Debug, Clone, Copy, PartialEq, Eq)]
pub struct LockAcquireResult {
    pub kind: LockKind,
    pub chunk_id: ChunkId,
}

#[derive(Debug, Clone, Copy, PartialEq, Eq)]
pub struct PutResult {
    pub chunk_buffer: u16,
}

#[derive(Debug, Clone, Copy, PartialEq, Eq)]
pub struct QueryResult {
    pub size: u64,
}

/// A byte range of a chunk.
#[derive(Debug, Clone, Copy, PartialEq, Eq, Default)]
pub struct ChunkRange {
    /// Inclusive
    pub start: u64,
    /// Exclusive
    pub end: u64,
}

impl ChunkRange {
    /// A range from `start` to `end`; refused unless it holds at least one byte.
    pub fn new(start: u64, end: u64) -> (r: MDSFTPResult<Self>)
        ensures
            start >= end ==> r == Err::<ChunkRange, MDSFTPError>(MDSFTPError::RemoteError),
            start < end ==> r == Ok::<ChunkRange, MDSFTPError>(ChunkRange { start, end }),
    {
        if start >= end {
            Err(MDSFTPError::RemoteError)
        } else {
            Ok(Self { start, end })
        }
    }

    /// The number of bytes in the range.
    pub fn size(&self) -> (r: u64)
        requires
            self.start <= self.end,
        ensures
            r == self.end - self.start,
    {
        self.end - self.start
    }

    /// The range, or nothing when both of its bounds are zero (the encoding
    /// of "the whole chunk").
    pub fn into_option(self) -> (r: Option<Self>)
        requires
            self.start + self.end <= u64::MAX,
        ensures
            r == (if self.start + self.end != 0 {
                Some(self)
            } else {
                None
            }),
    {
        if self.start + self.end != 0 {
            Some(self)
        } else {
            None
        }
    }
}

/// A lock kind survives its byte encoding.
pub proof fn lemma_lock_kind_roundtrip(kind: LockKind)
    ensures
        lock_kind_of(lock_kind_bits(kind)) == kind,
{
}

/// Only the low bit of a byte decides the lock kind it encodes.
pub proof fn lemma_lock_kind_bits_of(value: u8)
    ensures
        lock_kind_bits(lock_kind_of(value)) == value % 2,
{
}

/// A chunk error kind survives its byte encoding, also when a lock kind
/// shares the byte.
pub proof fn lemma_chunk_error_roundtrip(kind: ChunkErrorKind, lock: LockKind)
    ensures
        chunk_error_of(chunk_error_bits(kind)) == kind,
        chunk_error_of((chunk_error_bits(kind) + lock_kind_bits(lock)) as u8) == kind,
        lock_kind_of((chunk_error_bits(kind) + lock_kind_bits(lock)) as u8) == lock,
{
}

/// Reserve flags survive their byte encoding.
#[verifier::spinoff_prover]
pub proof fn lemma_reserve_flags_roundtrip(flags: ReserveFlags)
    ensures
        reserve_flags_of(reserve_flags_bits(flags)) == flags,
{
    reveal_with_fuel(crate::bytes::pow2, 4);
    let v = reserve_flags_bits(flags) as int;
    assert(v == flag_bit(flags.auto_start, 1) + flag_bit(flags.durable, 2) + flag_bit(flags.temp, 4)
        + flag_bit(flags.overwrite, 8));
    assert(v % 2 == flag_bit(flags.auto_start, 1));
    assert((v / 2) % 2 == flag_bit(flags.durable, 2) / 2);
    assert((v / 4) % 2 == flag_bit(flags.temp, 4) / 4);
    assert(v / 8 == flag_bit(flags.overwrite, 8) / 8);
    assert(crate::bytes::pow2(0) == 1 && crate::bytes::pow2(1) == 2 && crate::bytes::pow2(2) == 4
        && crate::bytes::pow2(3) == 8);
    let b = reserve_flags_bits(flags);
    assert(bit_set(b, 0) == flags.auto_start);
    assert(bit_set(b, 1) == flags.durable);
    assert(bit_set(b, 2) == flags.temp);
    assert(bit_set(b, 3) == flags.overwrite);
}

/// Decoding reserve flags keeps exactly the four low bits of a byte.
pub proof fn lemma_reserve_flags_bits_of(value: u8)
    ensures
        reserve_flags_bits(reserve_flags_of(value)) == value % 16,
{
    reveal_with_fuel(crate::bytes::pow2, 4);
    assert(value % 16 == value % 2 + (value / 2) % 2 * 2 + (value / 4) % 2 * 4 + (value / 8) % 2
        * 8) by (bit_vector);
}

/// Put flags survive their byte encoding.
pub proof fn lemma_put_flags_roundtrip(flags: PutFlags)
    ensures
        put_flags_of(put_flags_bits(flags)) == flags,
{
    reveal_with_fuel(crate::bytes::pow2, 1);
}

/// Decoding put flags keeps exactly the low bit of a byte.
pub proof fn lemma_put_flags_bits_of(value: u8)
    ensures
        put_flags_bits(put_flags_of(value)) == value % 2,
{
    reveal_with_fuel(crate::bytes::pow2, 1);
}

/// Commit flags survive their byte encoding.
pub proof fn lemma_commit_flags_roundtrip(flags: CommitFlags)
    ensures
        commit_flags_of(commit_flags_bits(flags)) == flags,
{
    reveal_with_fuel(crate::bytes::pow2, 4);
    let x = commit_flags_bits(flags);
    assert(x == flag_bit(flags.reject, 1) + flag_bit(flags.keep_alive, 2) + flag_bit(
        flags.is_final,
        4,
    ));
    assert(x % 2 == flag_bit(flags.reject, 1));
    assert((x / 2) % 2 == flag_bit(flags.keep_alive, 2) / 2);
    assert((x / 4) % 2 == flag_bit(flags.is_final, 4) / 4);
    assert(bit_set(x, 0) == flags.reject);
    assert(bit_set(x, 1) == flags.keep_alive);
    assert(bit_set(x, 2) == flags.is_final);
}

/// Decoding commit flags keeps exactly the three low bits of a byte.
pub proof fn lemma_commit_flags_bits_of(value: u8)
    ensures
        commit_flags_bits(commit_flags_of(value)) == value % 8,
{
    reveal_with_fuel(crate::bytes::pow2, 4);
    assert(value % 8 == value % 2 + (value / 2) % 2 * 2 + (value / 4) % 2 * 4) by (bit_vector);
    assert(flag_bit(bit_set(value, 0), 1) == value % 2);
    assert(flag_bit(bit_set(value, 1), 2) == (value / 2) % 2 * 2);
    assert(flag_bit(bit_set(value, 2), 4) == (value / 4) % 2 * 4);
}

} // verus!
