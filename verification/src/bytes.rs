//! Big-endian integer encodings used by every wire format of the crate.
use vstd::prelude::*;

verus! {

/// The big-endian value of two bytes.
pub open spec fn be_u16(s: Seq<u8>) -> int {
    s[0] * 0x100 + s[1]
}

/// The big-endian value of four bytes.
pub open spec fn be_u32(s: Seq<u8>) -> int {
    s[0] * 0x1000000 + s[1] * 0x10000 + s[2] * 0x100 + s[3]
}

/// The big-endian value of eight bytes.
pub open spec fn be_u64(s: Seq<u8>) -> int {
    s[0] * 0x100000000000000 + s[1] * 0x1000000000000 + s[2] * 0x10000000000 + s[3]
        * 0x100000000 + s[4] * 0x1000000 + s[5] * 0x10000 + s[6] * 0x100 + s[7]
}

/// The byte of `v` that stands `k` places from the least significant one.
pub open spec fn byte_at(v: int, k: nat) -> u8 {
    ((v / pow256(k)) % 0x100) as u8
}

pub open spec fn pow256(k: nat) -> int
    decreases k,
{
    if k == 0 {
        1
    } else {
        0x100 * pow256((k - 1) as nat)
    }
}

/// Two to the power `k`.
pub open spec fn pow2(k: nat) -> int
    decreases k,
{
    if k == 0 {
        1
    } else {
        2 * pow2((k - 1) as nat)
    }
}

/// The two big-endian bytes of `v`.
pub open spec fn u16_bytes(v: u16) -> Seq<u8> {
    seq![byte_at(v as int, 1), byte_at(v as int, 0)]
}

/// The four big-endian bytes of `v`.
pub open spec fn u32_bytes(v: u32) -> Seq<u8> {
    seq![byte_at(v as int, 3), byte_at(v as int, 2), byte_at(v as int, 1), byte_at(v as int, 0)]
}

/// The eight big-endian bytes of `v`.
pub open spec fn u64_bytes(v: u64) -> Seq<u8> {
    seq![
        byte_at(v as int, 7),
        byte_at(v as int, 6),
        byte_at(v as int, 5),
        byte_at(v as int, 4),
        byte_at(v as int, 3),
        byte_at(v as int, 2),
        byte_at(v as int, 1),
        byte_at(v as int, 0),
    ]
}

/// Decoding the encoding of a `u16` gives it back.
pub proof fn lemma_u16_roundtrip(v: u16)
    ensures
        be_u16(u16_bytes(v)) == v,
{
    reveal_with_fuel(pow256, 2);
    let b = u16_bytes(v);
    assert(b[0] * 0x100 + b[1] == v) by (nonlinear_arith)
        requires
            b[0] == ((v / 0x100) % 0x100) as u8,
            b[1] == (v % 0x100) as u8,
    ;
}

/// Decoding the encoding of a `u32` gives it back.
pub proof fn lemma_u32_roundtrip(v: u32)
    ensures
        be_u32(u32_bytes(v)) == v,
{
    reveal_with_fuel(pow256, 4);
    let b = u32_bytes(v);
    assert(b[0] * 0x1000000 + b[1] * 0x10000 + b[2] * 0x100 + b[3] == v) by (nonlinear_arith)
        requires
            b[0] == ((v / 0x1000000) % 0x100) as u8,
            b[1] == ((v / 0x10000) % 0x100) as u8,
            b[2] == ((v / 0x100) % 0x100) as u8,
            b[3] == (v % 0x100) as u8,
    ;
}

/// Decoding the encoding of a `u64` gives it back.
pub proof fn lemma_u64_roundtrip(v: u64)
    ensures
        be_u64(u64_bytes(v)) == v,
{
    reveal_with_fuel(pow256, 8);
    assert(v == (v / 0x100000000000000) % 0x100 * 0x100000000000000 + (v / 0x1000000000000) % 0x100
        * 0x1000000000000 + (v / 0x10000000000) % 0x100 * 0x10000000000 + (v / 0x100000000) % 0x100
        * 0x100000000 + (v / 0x1000000) % 0x100 * 0x1000000 + (v / 0x10000) % 0x100 * 0x10000 + (v
        / 0x100) % 0x100 * 0x100 + v % 0x100) by (bit_vector);
}

/// Encoding the value of two bytes gives them back.
pub proof fn lemma_u16_bytes_of_value(s: Seq<u8>)
    requires
        s.len() == 2,
    ensures
        0 <= be_u16(s) <= u16::MAX,
        u16_bytes(be_u16(s) as u16) =~= s,
{
    reveal_with_fuel(pow256, 2);
    let (c0, c1) = (s[0] as u64, s[1] as u64);
    assert({
        let v = c0 * 0x100 + c1;
        &&& v <= 0xffff
        &&& (v / 0x100) % 0x100 == c0
        &&& v % 0x100 == c1
    }) by (bit_vector)
        requires
            c0 < 0x100,
            c1 < 0x100,
    ;
    let v = be_u16(s) as u16;
    assert(pow256(0) == 1 && pow256(1) == 0x100);
    assert(v as int / 1 == v as int);
    assert(byte_at(v as int, 1) == s[0]);
    assert(byte_at(v as int, 0) == s[1]);
}

/// Encoding the value of four bytes gives them back.
pub proof fn lemma_u32_bytes_of_value(s: Seq<u8>)
    requires
        s.len() == 4,
    ensures
        0 <= be_u32(s) <= u32::MAX,
        u32_bytes(be_u32(s) as u32) =~= s,
{
    reveal_with_fuel(pow256, 4);
    let (c0, c1, c2, c3) = (s[0] as u64, s[1] as u64, s[2] as u64, s[3] as u64);
    assert({
        let v = c0 * 0x1000000 + c1 * 0x10000 + c2 * 0x100 + c3;
        &&& v <= 0xffffffff
        &&& (v / 0x1000000) % 0x100 == c0
        &&& (v / 0x10000) % 0x100 == c1
        &&& (v / 0x100) % 0x100 == c2
        &&& v % 0x100 == c3
    }) by (bit_vector)
        requires
            c0 < 0x100,
            c1 < 0x100,
            c2 < 0x100,
            c3 < 0x100,
    ;
}

/// Encoding the value of eight bytes gives them back.
pub proof fn lemma_u64_bytes_of_value(s: Seq<u8>)
    requires
        s.len() == 8,
    ensures
        0 <= be_u64(s) <= u64::MAX,
        u64_bytes(be_u64(s) as u64) =~= s,
{
    reveal_with_fuel(pow256, 8);
    let (c0, c1, c2, c3) = (s[0] as u128, s[1] as u128, s[2] as u128, s[3] as u128);
    let (c4, c5, c6, c7) = (s[4] as u128, s[5] as u128, s[6] as u128, s[7] as u128);
    assert({
        let v = c0 * 0x100000000000000 + c1 * 0x1000000000000 + c2 * 0x10000000000 + c3
            * 0x100000000 + c4 * 0x1000000 + c5 * 0x10000 + c6 * 0x100 + c7;
        &&& v <= 0xffffffffffffffff
        &&& (v / 0x100000000000000) % 0x100 == c0
        &&& (v / 0x1000000000000) % 0x100 == c1
        &&& (v / 0x10000000000) % 0x100 == c2
        &&& (v / 0x100000000) % 0x100 == c3
        &&& (v / 0x1000000) % 0x100 == c4
        &&& (v / 0x10000) % 0x100 == c5
        &&& (v / 0x100) % 0x100 == c6
        &&& v % 0x100 == c7
    }) by (bit_vector)
        requires
            c0 < 0x100,
            c1 < 0x100,
            c2 < 0x100,
            c3 < 0x100,
            c4 < 0x100,
            c5 < 0x100,
            c6 < 0x100,
            c7 < 0x100,
    ;
}

/// Appends the big-endian bytes of `v`.
pub fn put_u16(buf: &mut Vec<u8>, v: u16)
    ensures
        final(buf)@ == old(buf)@ + u16_bytes(v),
{
    reveal_with_fuel(pow256, 2);
    buf.push(((v / 0x100) % 0x100) as u8);
    buf.push((v % 0x100) as u8);
}

/// Appends the big-endian bytes of `v`.
pub fn put_u32(buf: &mut Vec<u8>, v: u32)
    ensures
        final(buf)@ == old(buf)@ + u32_bytes(v),
{
    reveal_with_fuel(pow256, 4);
    buf.push(((v / 0x1000000) % 0x100) as u8);
    buf.push(((v / 0x10000) % 0x100) as u8);
    buf.push(((v / 0x100) % 0x100) as u8);
    buf.push((v % 0x100) as u8);
}

/// Appends the big-endian bytes of `v`.
pub fn put_u64(buf: &mut Vec<u8>, v: u64)
    ensures
        final(buf)@ == old(buf)@ + u64_bytes(v),
{
    reveal_with_fuel(pow256, 8);
    buf.push(((v / 0x100000000000000) % 0x100) as u8);
    buf.push(((v / 0x1000000000000) % 0x100) as u8);
    buf.push(((v / 0x10000000000) % 0x100) as u8);
    buf.push(((v / 0x100000000) % 0x100) as u8);
    buf.push(((v / 0x1000000) % 0x100) as u8);
    buf.push(((v / 0x10000) % 0x100) as u8);
    buf.push(((v / 0x100) % 0x100) as u8);
    buf.push((v % 0x100) as u8);
}

/// Appends all of `bytes`.
pub fn put_bytes(buf: &mut Vec<u8>, bytes: &[u8])
    ensures
        final(buf)@ == old(buf)@ + bytes@,
{
    let mut i: usize = 0;
    while i < bytes.len()
        invariant
            i <= bytes@.len(),
            buf@ == old(buf)@ + bytes@.subrange(0, i as int),
        decreases bytes@.len() - i,
    {
        buf.push(bytes[i]);
        i = i + 1;
        assert(buf@ =~= old(buf)@ + bytes@.subrange(0, i as int));
    }
    assert(bytes@.subrange(0, i as int) =~= bytes@);
}

/// Reads the big-endian `u16` that starts at `at`.
pub fn get_u16(s: &[u8], at: usize) -> (r: u16)
    requires
        at + 2 <= s@.len(),
    ensures
        r == be_u16(s@.subrange(at as int, at + 2)),
{
    (s[at] as u16) * 0x100 + (s[at + 1] as u16)
}

/// Reads the big-endian `u32` that starts at `at`.
pub fn get_u32(s: &[u8], at: usize) -> (r: u32)
    requires
        at + 4 <= s@.len(),
    ensures
        r == be_u32(s@.subrange(at as int, at + 4)),
{
    (s[at] as u32) * 0x1000000 + (s[at + 1] as u32) * 0x10000 + (s[at + 2] as u32) * 0x100 + (s[at
        + 3] as u32)
}

/// Reads the big-endian `u64` that starts at `at`.
pub fn get_u64(s: &[u8], at: usize) -> (r: u64)
    requires
        at + 8 <= s@.len(),
    ensures
        r == be_u64(s@.subrange(at as int, at + 8)),
{
    (s[at] as u64) * 0x100000000000000 + (s[at + 1] as u64) * 0x1000000000000 + (s[at + 2] as u64)
        * 0x10000000000 + (s[at + 3] as u64) * 0x100000000 + (s[at + 4] as u64) * 0x1000000 + (s[at
        + 5] as u64) * 0x10000 + (s[at + 6] as u64) * 0x100 + (s[at + 7] as u64)
}

/// Copies `len` bytes starting at `at`.
pub fn get_bytes(s: &[u8], at: usize, len: usize) -> (r: Vec<u8>)
    requires
        at + len <= s@.len(),
    ensures
        r@ == s@.subrange(at as int, at + len),
{
    let mut r: Vec<u8> = Vec::new();
    let mut i: usize = 0;
    while i < len
        invariant
            i <= len,
            at + len <= s.len(),
            r@ == s@.subrange(at as int, at + i),
        decreases len - i,
    {
        r.push(s[at + i]);
        i = i + 1;
        assert(r@ =~= s@.subrange(at as int, at + i));
    }
    r
}

/// The big-endian value of sixteen bytes.
pub open spec fn be_u128(s: Seq<u8>) -> int {
    be_u64(s.subrange(0, 8)) * 0x10000000000000000 + be_u64(s.subrange(8, 16))
}

/// The sixteen big-endian bytes of `v`.
pub open spec fn u128_bytes(v: u128) -> Seq<u8> {
    u64_bytes((v / 0x10000000000000000) as u64) + u64_bytes((v % 0x10000000000000000) as u64)
}

/// Decoding the encoding of a `u128` gives it back.
pub proof fn lemma_u128_roundtrip(v: u128)
    ensures
        u128_bytes(v).len() == 16,
        be_u128(u128_bytes(v)) == v,
{
    let hi = (v / 0x10000000000000000) as u64;
    let lo = (v % 0x10000000000000000) as u64;
    let b = u128_bytes(v);
    lemma_u64_roundtrip(hi);
    lemma_u64_roundtrip(lo);
    assert(b.subrange(0, 8) =~= u64_bytes(hi));
    assert(b.subrange(8, 16) =~= u64_bytes(lo));
}

/// Encoding the value of sixteen bytes gives them back.
pub proof fn lemma_u128_bytes_of_value(s: Seq<u8>)
    requires
        s.len() == 16,
    ensures
        0 <= be_u128(s) <= u128::MAX,
        u128_bytes(be_u128(s) as u128) =~= s,
{
    let hi = be_u64(s.subrange(0, 8));
    let lo = be_u64(s.subrange(8, 16));
    lemma_u64_bytes_of_value(s.subrange(0, 8));
    lemma_u64_bytes_of_value(s.subrange(8, 16));
    let v = be_u128(s);
    assert(v / 0x10000000000000000 == hi && v % 0x10000000000000000 == lo) by (nonlinear_arith)
        requires
            v == hi * 0x10000000000000000 + lo,
            0 <= lo < 0x10000000000000000,
            0 <= hi < 0x10000000000000000,
    ;
    assert(s =~= s.subrange(0, 8) + s.subrange(8, 16));
}

/// Appends the big-endian bytes of `v`.
pub fn put_u128(buf: &mut Vec<u8>, v: u128)
    ensures
        final(buf)@ == old(buf)@ + u128_bytes(v),
{
    put_u64(buf, (v / 0x10000000000000000) as u64);
    put_u64(buf, (v % 0x10000000000000000) as u64);
    assert(buf@ =~= old(buf)@ + u128_bytes(v));
}

/// Reads the big-endian `u128` that starts at `at`.
pub fn get_u128(s: &[u8], at: usize) -> (r: u128)
    requires
        at + 16 <= s@.len(),
    ensures
        r == be_u128(s@.subrange(at as int, at + 16)),
{
    let n = s.len();
    let hi = get_u64(s, at);
    let lo = get_u64(s, at + 8);
    let ghost sub = s@.subrange(at as int, at + 16);
    assert(sub.subrange(0, 8) =~= s@.subrange(at as int, at + 8));
    assert(sub.subrange(8, 16) =~= s@.subrange(at + 8, at + 16));
    (hi as u128) * 0x10000000000000000 + (lo as u128)
}

} // verus!
