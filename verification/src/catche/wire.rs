//! The invalidation packet. A writer sends the cache id (a big-endian
//! `u32`), the key's length (a big-endian `u64`) and the key; a reader takes
//! an eight-byte fixed part, the cache id and a key length each as a
//! big-endian `u32`, before the key.
use vstd::prelude::*;
use crate::bytes::{
    be_u32, be_u64, get_u32, lemma_u32_bytes_of_value, lemma_u32_roundtrip, lemma_u64_roundtrip,
    put_bytes, put_u32, put_u64, u32_bytes, u64_bytes,
};

verus! {

/// The size of the fixed part of an invalidation packet.
pub const INITIAL_SIZE: usize = 8;

/// The fixed part of an invalidation packet: which cache, and how many key
/// bytes follow.
#[derive(Debug, Clone, Copy, PartialEq, Eq, Structural)]
pub struct InvalidateHeader {
    pub cache_id: u32,
    pub key_len: u32,
}

/// The bytes of the packet that invalidates `key` in the cache `cache_id`:
/// the cache id, the key's length as eight bytes, then the key.
pub open spec fn invalidate_bytes(cache_id: u32, key: Seq<u8>) -> Seq<u8> {
    u32_bytes(cache_id) + u64_bytes(key.len() as u64) + key
}

/// The fixed part that eight bytes hold.
pub open spec fn header_of(raw: Seq<u8>) -> InvalidateHeader {
    InvalidateHeader {
        cache_id: be_u32(raw.subrange(0, 4)) as u32,
        key_len: be_u32(raw.subrange(4, 8)) as u32,
    }
}

/// The bytes of the packet that invalidates `cache_key` in the cache
/// `cache_id`: the cache id, the key's length as eight bytes, then the key.
pub fn invalidate_packet(cache_id: u32, cache_key: &[u8]) -> (r: Vec<u8>)
    ensures
        r@ == invalidate_bytes(cache_id, cache_key@),
{
    let mut res: Vec<u8> = Vec::new();
    put_u32(&mut res, cache_id);
    put_u64(&mut res, cache_key.len() as u64);
    put_bytes(&mut res, cache_key);
    res
}

/// Reads the fixed part of an invalidation packet.
pub fn read_invalidate_header(raw: &[u8; 8]) -> (h: InvalidateHeader)
    ensures
        h == header_of(raw@),
{
    let s: &[u8] = raw.as_slice();
    InvalidateHeader { cache_id: get_u32(s, 0), key_len: get_u32(s, 4) }
}

/// A written packet holds the cache id in its first four bytes, the key's
/// length in the next eight, and then the key.
pub proof fn lemma_invalidate_layout(cache_id: u32, key: Seq<u8>)
    requires
        key.len() <= u64::MAX,
    ensures
        invalidate_bytes(cache_id, key).len() == 12 + key.len(),
        be_u32(invalidate_bytes(cache_id, key).subrange(0, 4)) == cache_id,
        be_u64(invalidate_bytes(cache_id, key).subrange(4, 12)) == key.len(),
        invalidate_bytes(cache_id, key).subrange(12, 12 + key.len() as int) == key,
{
    let b = invalidate_bytes(cache_id, key);
    lemma_u32_roundtrip(cache_id);
    lemma_u64_roundtrip(key.len() as u64);
    assert(b.subrange(0, 4) =~= u32_bytes(cache_id));
    assert(b.subrange(4, 12) =~= u64_bytes(key.len() as u64));
    assert(b.subrange(12, 12 + key.len() as int) =~= key);
}

/// Writing the fields of a read fixed part gives back its eight bytes.
pub proof fn lemma_header_bytes_roundtrip(raw: Seq<u8>)
    requires
        raw.len() == 8,
    ensures
        u32_bytes(header_of(raw).cache_id) + u32_bytes(header_of(raw).key_len) == raw,
{
    lemma_u32_bytes_of_value(raw.subrange(0, 4));
    lemma_u32_bytes_of_value(raw.subrange(4, 8));
    assert(u32_bytes(header_of(raw).cache_id) + u32_bytes(header_of(raw).key_len) =~= raw);
}

} // verus!
