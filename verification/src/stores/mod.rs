//! The caches.
pub mod error;
pub mod expiry;
pub mod expiry_index;
pub mod expiry_order;
pub mod listener;
pub mod lockstep;
pub mod sharded;
pub mod shared_reads;
pub mod sorted_laws;
pub mod sorted_view;
pub mod sweep;
pub mod table;
pub mod ttl;
pub mod ttl_laws;
pub mod ttl_sorted;
pub mod ttl_view;
