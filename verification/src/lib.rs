//! A transactional key-value store core: write buffering with tombstones,
//! snapshot reads, single-writer/multi-reader isolation, and the state
//! machines that bridge an event-driven backend to transactional commits.

pub mod bridge;
pub mod buffer;
pub mod conformance;
pub mod gate;
pub mod kv;
pub mod memstore;
pub mod uuid;

pub use kv::Read;
pub use kv::Store;
pub use kv::StoreError;
pub use kv::Write;
