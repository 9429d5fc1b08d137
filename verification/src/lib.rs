//! A small video catalog kept fresh by a periodic poll of an external
//! content source.
//!
//! The library holds the verified core: the keyed record store with its
//! invariants, the access guard that gates mutating operations, the poll
//! scheduler that owns at most one live timer, and the fetch pipeline
//! that interprets the outcome of an external fetch and merges candidate
//! records into the store.  All outside effects (the clock, the caller's
//! identity, timers, the outbound request itself) are handed in as plain
//! values by the surrounding host code.

pub mod catalog;
pub mod source;
pub mod store;
pub mod text;
pub mod types;

pub use catalog::Catalog;
pub use catalog::TimerAction;
pub use source::FetchError;
pub use source::FetchResponse;
pub use store::Store;
pub use types::FetchStatus;
pub use types::PollConfig;
pub use types::Result_;
pub use types::Stats;
pub use types::Video;
