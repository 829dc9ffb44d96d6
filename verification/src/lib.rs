//! The core of an in-memory filesystem cache with least-frequently-used eviction.
pub mod backpressure;
pub mod cache;
pub mod channels;
pub mod contents;
pub mod disk;
pub mod error;
pub mod file;
pub mod gc;
pub mod laws;
pub mod lfu;
pub mod path;
pub mod persist;
pub mod state;

pub use backpressure::{Admission, BackpressureConfig, BackpressureManager, PressureSignal};
pub use cache::Cache;
pub use error::{deleted, invalid_data, would_block, Error, ErrorKind};
pub use file::{FileDeref, FileLock, FileLockState};
pub use path::FilePath;
