//! Deterministic routing of keys to shards.
//!
//! A key is hashed with FNV-1a over its UTF-8 bytes and the hash is reduced
//! modulo the shard count. The hash depends on nothing but the key's
//! characters, so a key is routed to the same shard on every call.

use vstd::prelude::*;
use vstd::utf8::encode_utf8;

verus! {

/// FNV-1a offset basis for 64-bit hashes.
pub const FNV_OFFSET: u64 = 0xcbf29ce484222325;

/// FNV-1a prime for 64-bit hashes.
pub const FNV_PRIME: u64 = 0x100000001b3;

/// The FNV-1a hash of a byte sequence.
pub open spec fn fnv1a_of(bytes: Seq<u8>) -> u64
    decreases bytes.len(),
{
    if bytes.len() == 0 {
        FNV_OFFSET
    } else {
        (fnv1a_of(bytes.drop_last()) ^ (bytes.last() as u64)).wrapping_mul(FNV_PRIME)
    }
}

/// The shard index a key is routed to, for a store of `n` shards.
pub open spec fn shard_of_spec(key: Seq<char>, n: int) -> int {
    fnv1a_of(encode_utf8(key)) as int % n
}

/// A shard index is always within bounds.
pub proof fn lemma_shard_of_bounds(key: Seq<char>, n: int)
    requires
        n >= 1,
    ensures
        0 <= shard_of_spec(key, n) < n,
{
}

/// Shard routing is a pure function of the key and the shard count:
/// hashing the same key twice always yields the same shard index.
pub proof fn lemma_shard_determinism(k1: Seq<char>, k2: Seq<char>, n: int)
    requires
        k1 == k2,
        n >= 1,
    ensures
        shard_of_spec(k1, n) == shard_of_spec(k2, n),
{
}

/// The shard a key is routed to.
pub fn shard_index(key: &str, num_shards: usize) -> (r: usize)
    requires
        num_shards >= 1,
    ensures
        r == shard_of_spec(key@, num_shards as int),
        r < num_shards,
{
    let bytes: &[u8] = key.as_bytes();
    let n: usize = bytes.len();
    let mut h: u64 = FNV_OFFSET;
    let mut i: usize = 0;
    while i < n
        invariant
            n == bytes@.len(),
            i <= n,
            bytes@ == encode_utf8(key@),
            h == fnv1a_of(bytes@.subrange(0, i as int)),
        decreases n - i,
    {
        let b: u8 = bytes[i];
        proof {
            assert(bytes@.subrange(0, i + 1).drop_last() =~= bytes@.subrange(0, i as int));
        }
        h = (h ^ (b as u64)).wrapping_mul(FNV_PRIME);
        i = i + 1;
    }
    proof {
        assert(bytes@.subrange(0, n as int) =~= bytes@);
    }
    let m: u64 = h % (num_shards as u64);
    m as usize
}

} // verus!
