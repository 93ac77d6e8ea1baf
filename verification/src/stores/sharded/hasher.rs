//! Which shard a key belongs to.
use crate::stores::error::{self, BuildError};
use crate::stores::table;
use std::hash::{BuildHasher, Hash};
use vstd::prelude::*;

verus! {

/// How many shards a cache has that is not told otherwise.
pub const DEFAULT_SHARDS: usize = 16;

/// A hash of keys by which shards are chosen. Only its upper 32 bits count.
pub trait ShardHasher<K>: Clone + Send + Sync {
    fn shard_hash(&self, key: &K) -> u64;
}

/// `BuildHasher::hash_one` of `ahash::RandomState`. Nothing is claimed of the hash.
#[verifier::external_body]
fn hash_key<K: Hash>(state: &ahash::RandomState, key: &K) -> (h: u64) {
    state.hash_one(key)
}

/// `Clone::clone` of `ahash::RandomState`: a builder with the same four keys, which are all that it
/// holds. Claimed: the copy equals its source.
pub assume_specification[ <ahash::RandomState as Clone>::clone ](
    state: &ahash::RandomState,
) -> (s: ahash::RandomState)
    ensures
        s == *state,
;

/// The hash of keys of a cache that was given none.
pub struct DefaultShardHasher {
    state: ahash::RandomState,
}

impl Default for DefaultShardHasher {
    fn default() -> Self {
        DefaultShardHasher { state: table::new_default_hash_builder() }
    }
}

impl Clone for DefaultShardHasher {
    /// A hasher that gives the same hashes.
    fn clone(&self) -> (c: Self)
        ensures
            c == *self,
    {
        DefaultShardHasher { state: self.state.clone() }
    }
}

impl DefaultShardHasher {
    /// Whether `h` is what hashing `key` with this hasher's state gives.
    pub closed spec fn gives<K: Hash>(&self, key: K, h: u64) -> bool {
        call_ensures(hash_key, (&self.state, &key), h)
    }
}

impl<K: Hash> ShardHasher<K> for DefaultShardHasher {
    fn shard_hash(&self, key: &K) -> (h: u64)
        ensures
            self.gives(*key, h),
    {
        hash_key(&self.state, key)
    }
}

/// Whether `h` is what `hasher` gives for `key`.
pub open spec fn hashes<K, H: ShardHasher<K>>(hasher: H, key: K, h: u64) -> bool {
    call_ensures(H::shard_hash, (&hasher, &key), h)
}

/// The shard of a key with the hash `hash`: its upper 32 bits, masked.
pub open spec fn index_of(hash: u64, mask: usize) -> usize {
    ((hash >> 32) as usize) & mask
}

/// A shard that a mask leaves is at most the mask.
pub proof fn lemma_index_in_range(hash: u64, mask: usize)
    ensures
        index_of(hash, mask) <= mask,
{
    let high: usize = (hash >> 32) as usize;
    assert(high & mask <= mask) by (bit_vector);
}

/// The shard of a key with the hash `hash`: its upper 32 bits, masked.
pub fn shard_index(hash: u64, mask: usize) -> (i: usize)
    ensures
        i == index_of(hash, mask),
        i <= mask,
{
    proof {
        lemma_index_in_range(hash, mask);
    }
    let high: usize = (hash >> 32) as usize;
    high & mask
}

/// Whether `n` is the least power of two that is not below `wanted`.
pub open spec fn rounds_up(n: int, wanted: int) -> bool {
    &&& vstd::arithmetic::power2::is_pow2(n)
    &&& wanted <= n
    &&& forall|p: int| #[trigger]
        vstd::arithmetic::power2::is_pow2(p) && p < n ==> p < wanted
}

/// Whether a wish for a number of shards cannot be met: it is zero, or no power of two that fits
/// reaches it.
pub open spec fn refused(shards: Option<usize>) -> bool {
    shards matches Some(wanted) && (wanted == 0 || forall|p: int| #[trigger]
        vstd::arithmetic::power2::is_pow2(p) && wanted <= p ==> p > usize::MAX)
}

/// Of two powers of two, the greater one is at least twice the other.
proof fn lemma_pow2_gap(p: int, q: int)
    requires
        vstd::arithmetic::power2::is_pow2(p),
        vstd::arithmetic::power2::is_pow2(q),
        p < q,
    ensures
        2 * p <= q,
    decreases p,
{
    reveal(vstd::arithmetic::power2::is_pow2);
    if p > 1 {
        lemma_pow2_gap(p / 2, q / 2);
    }
}

/// The number of shards that `shards` asks for: rounded up to a power of two, which must fit. Zero
/// is refused, and with no wish there are [`DEFAULT_SHARDS`].
pub fn checked_shard_count(shards: Option<usize>) -> (r: Result<usize, BuildError>)
    ensures
        match shards {
            None => r == Ok::<usize, BuildError>(DEFAULT_SHARDS),
            Some(0) => error::refuses(r, "shards"@, "must be greater than zero"@),
            Some(wanted) => match r {
                Ok(n) => rounds_up(n as int, wanted as int),
                Err(_) => {
                    &&& error::refuses(
                        r,
                        "shards"@,
                        "overflows when rounded up to a power of two"@,
                    )
                    &&& forall|p: int| #[trigger]
                        vstd::arithmetic::power2::is_pow2(p) && wanted <= p ==> p > usize::MAX
                },
            },
        },
        r matches Ok(n) ==> n > 0 && vstd::arithmetic::power2::is_pow2(n as int),
{
    let wanted = match shards {
        None => {
            proof {
                reveal(vstd::arithmetic::power2::is_pow2);
                assert(vstd::arithmetic::power2::is_pow2(1));
                assert(vstd::arithmetic::power2::is_pow2(2));
                assert(vstd::arithmetic::power2::is_pow2(4));
                assert(vstd::arithmetic::power2::is_pow2(8));
            }
            return Ok(DEFAULT_SHARDS);
        },
        Some(wanted) => wanted,
    };
    if wanted == 0 {
        return Err(
            BuildError::InvalidValue { field: "shards", reason: "must be greater than zero" },
        );
    }
    let mut n: usize = 1;
    proof {
        reveal(vstd::arithmetic::power2::is_pow2);
    }
    while n < wanted
        invariant
            shards == Some(wanted),
            0 < wanted,
            0 < n,
            vstd::arithmetic::power2::is_pow2(n as int),
            forall|p: int| #[trigger]
                vstd::arithmetic::power2::is_pow2(p) && p < n ==> p < wanted,
        decreases usize::MAX - n,
    {
        if n > usize::MAX / 2 {
            proof {
                assert forall|p: int| #[trigger]
                    vstd::arithmetic::power2::is_pow2(p) && wanted <= p implies p > usize::MAX by {
                    lemma_pow2_gap(n as int, p);
                }
            }
            return Err(
                BuildError::InvalidValue {
                    field: "shards",
                    reason: "overflows when rounded up to a power of two",
                },
            );
        }
        let ghost half = n as int;
        n = n * 2;
        proof {
            reveal(vstd::arithmetic::power2::is_pow2);
            assert forall|p: int| #[trigger]
                vstd::arithmetic::power2::is_pow2(p) && p < n implies p < wanted by {
                if half < p {
                    lemma_pow2_gap(half, p);
                }
            }
        }
    }
    Ok(n)
}

/// How many shards a cache has that is not told otherwise.
pub fn default_shard_count() -> (n: usize)
    ensures
        n == DEFAULT_SHARDS,
{
    DEFAULT_SHARDS
}

/// Zero shards are refused, and any number of them that a power of two of moderate size reaches is
/// not.
pub proof fn law_only_zero_and_too_many_are_refused(wanted: usize)
    ensures
        refused(Some(0)),
        !refused(None),
        0 < wanted <= 0x4000_0000 ==> !refused(Some(wanted)),
{
    if 0 < wanted <= 0x4000_0000 {
        vstd::arithmetic::power2::lemma2_to64();
        vstd::arithmetic::power2::lemma_pow2(30);
        assert(vstd::arithmetic::power::pow(2, 30) == 0x4000_0000);
        vstd::arithmetic::power2::is_pow2_equiv(0x4000_0000);
        assert(vstd::arithmetic::power2::is_pow2(0x4000_0000));
    }
}

} // verus!
