//! In-memory caches with expiry.
pub mod stores;
pub mod time;
pub mod traits;

pub use stores::error::{BuildError, SetMaxSizeError, SetTtlError};
pub use stores::sharded::hasher::{DefaultShardHasher, ShardHasher};
pub use stores::sharded::shard::CacheMetrics;
pub use stores::sharded::ttl::{ShardedTtlCache, ShardedTtlCacheBuilder};
pub use stores::sharded::unbound::{ShardedUnboundCache, ShardedUnboundCacheBuilder};
pub use stores::shared_reads::SharedReads;
pub use stores::ttl::{TtlCache, TtlCacheBuilder};
pub use stores::ttl_sorted::{TtlSortedCache, TtlSortedCacheBuilder, TtlSortedSetBuilder};
pub use traits::{
    CacheClearWithOnEvict, CacheEvict, CacheExpiry, ConcurrentCacheEvict, ConcurrentCacheExpiry,
};
