//! Durable inventory store for mobile-device records: a paged region
//! manager, a crash-consistent monotonic id allocator, a bounded-size
//! record codec, an ordered id-to-record map, and predicate queries over
//! full scans.

pub mod device;
pub mod codec;
pub mod regions;
pub mod counter;
pub mod store;
pub mod query;
