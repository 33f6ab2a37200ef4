//! Sans-io core of a stale-while-revalidate cache.
//!
//! The cache serves what it has, even when stale, and refreshes it in the
//! background. All of its rules (sharing of concurrent fetches, races between
//! fetches and writes, staleness, optimistic updates, removal of idle entries)
//! live in one pure, synchronous state machine: see [`machine`]. The host owns
//! the clock, the tasks and the channels' readers, and carries out what the
//! machine asks for: see [`client`].

pub mod channel;
pub mod client;
pub mod error;
pub mod handle;
pub mod key;
pub mod machine;
pub mod options;
pub mod registry;
pub mod retry;
pub mod snapshot;
pub mod time;

pub use client::SwrClientBuilder;
pub use error::{Closed, FetchError};
pub use key::{IntoKeyPrefix, IntoQueryKey, IntoSegment, IntoSegments, QueryKey, Segment};
pub use options::{MutateOptions, QueryOptions, ReadPolicy, SwrEvent};
pub use retry::{Retry, RetryPolicy};
pub use snapshot::{QueryState, Snapshot};
pub use time::{Duration, Instant};
