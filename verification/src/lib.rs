//! Scheduled-fetch engine for a set of public space-data feeds.
//!
//! The crate holds the verified core of the service: the retry policy of the
//! fetch client, the advisory-lock discipline of the job scheduler, the
//! normalizer that reconciles heterogeneous upstream records, the trend
//! derivation over stored position samples, and the storage-layer rules
//! (append-only logs, upsert-by-identifier catalog, per-source latest cache).
//! Network and database plumbing live outside the library and hand it plain
//! values.
pub mod clock;
pub mod config;
pub mod digits;
pub mod errors;
pub mod jobs;
pub mod jsonv;
pub mod lock;
pub mod normalize;
pub mod refresh;
pub mod repo;
pub mod retry;
pub mod source;
pub mod summary;
pub mod trend;
pub mod urls;
