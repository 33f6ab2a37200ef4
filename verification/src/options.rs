//! Option types: read policy, per-query options, mutation options, and host
//! environment events.

use crate::time::{Duration, NANOS_PER_SEC};
use vstd::prelude::*;

verus! {

/// How a read treats cached data.
#[derive(Clone, Copy, Debug, Default, PartialEq, Eq, Structural)]
pub enum ReadPolicy {
    /// Return stale data immediately and refresh in the background; with no
    /// data, wait for the first result. The default.
    #[default]
    StaleWhileRevalidate,
    /// Wait for a complete result, or a local write, no older than the call.
    EnsureFresh,
    /// Read the cache only; never start a request.
    CacheOnly,
}

/// Per-query options. The options of an entry's active subscribers are
/// aggregated.
#[derive(Clone, Copy, Debug, PartialEq, Eq, Structural)]
pub struct QueryOptions {
    /// Freshness window. Default: 2 seconds.
    pub stale_time: Duration,
    /// Delay before an idle entry is garbage-collected. Default: 300 seconds.
    pub gc_time: Duration,
    /// Background refresh interval while subscribed. Default: `None`.
    pub refresh_interval: Option<Duration>,
    /// Revalidate stale entries on [`SwrEvent::Focus`]. Default: `true`.
    pub revalidate_on_focus: bool,
    /// Revalidate stale entries on [`SwrEvent::Online`]. Default: `true`.
    pub revalidate_on_online: bool,
    /// Minimum spacing between focus-triggered revalidations. Online
    /// broadcasts are not throttled. Default: 5 seconds.
    pub focus_throttle: Duration,
}

impl QueryOptions {
    /// The default options.
    pub open spec fn default_spec() -> QueryOptions {
        QueryOptions {
            stale_time: Duration { nanos: (2 * NANOS_PER_SEC) as u128 },
            gc_time: Duration { nanos: (300 * NANOS_PER_SEC) as u128 },
            refresh_interval: None,
            revalidate_on_focus: true,
            revalidate_on_online: true,
            focus_throttle: Duration { nanos: (5 * NANOS_PER_SEC) as u128 },
        }
    }

    /// Never revalidate automatically. Data counts as fresh forever and
    /// focus and online broadcasts are ignored; manual revalidation and
    /// invalidation still work.
    pub fn immutable() -> (opts: Self)
        ensures
            opts == (QueryOptions {
                stale_time: Duration::longest(),
                revalidate_on_focus: false,
                revalidate_on_online: false,
                ..QueryOptions::default_spec()
            }),
    {
        let defaults = QueryOptions::default();
        QueryOptions {
            stale_time: Duration::longest(),
            revalidate_on_focus: false,
            revalidate_on_online: false,
            ..defaults
        }
    }
}

impl Default for QueryOptions {
    fn default() -> (opts: Self)
        ensures
            opts == QueryOptions::default_spec(),
    {
        QueryOptions {
            stale_time: Duration::from_secs(2),
            gc_time: Duration::from_secs(300),
            refresh_interval: None,
            revalidate_on_focus: true,
            revalidate_on_online: true,
            focus_throttle: Duration::from_secs(5),
        }
    }
}

/// Options of an async mutation.
#[derive(Debug)]
pub struct MutateOptions<T> {
    /// Optimistic value written before the mutation runs.
    pub optimistic: Option<T>,
    /// On error, roll the optimistic write back unless something else wrote in
    /// between. Default: `true`.
    pub rollback_on_error: bool,
    /// Write an `Ok(Some(v))` mutation result into the cache. Default: `true`.
    pub populate: bool,
    /// Revalidate once the last concurrent mutation finishes. Default: `true`.
    pub revalidate: bool,
}

impl<T> Default for MutateOptions<T> {
    fn default() -> (opts: Self)
        ensures
            opts == (MutateOptions::<T> {
                optimistic: None,
                rollback_on_error: true,
                populate: true,
                revalidate: true,
            }),
    {
        MutateOptions {
            optimistic: None,
            rollback_on_error: true,
            populate: true,
            revalidate: true,
        }
    }
}

/// Environment events fed by the host.
#[derive(Clone, Copy, Debug, PartialEq, Eq, Structural)]
pub enum SwrEvent {
    /// The window or application regained focus.
    Focus,
    /// Network connectivity was restored.
    Online,
}

/// The non-generic part of [`MutateOptions`], carried through mutation events.
#[derive(Clone, Copy, Debug, PartialEq, Eq, Structural)]
pub struct MutateFlags {
    /// See [`MutateOptions::rollback_on_error`].
    pub rollback_on_error: bool,
    /// See [`MutateOptions::populate`].
    pub populate: bool,
    /// See [`MutateOptions::revalidate`].
    pub revalidate: bool,
}

impl<T> From<&MutateOptions<T>> for MutateFlags {
    fn from(opts: &MutateOptions<T>) -> (flags: Self) {
        MutateFlags {
            rollback_on_error: opts.rollback_on_error,
            populate: opts.populate,
            revalidate: opts.revalidate,
        }
    }
}

impl<T> vstd::std_specs::convert::FromSpecImpl<&MutateOptions<T>> for MutateFlags {
    open spec fn obeys_from_spec() -> bool {
        true
    }

    open spec fn from_spec(opts: &MutateOptions<T>) -> Self {
        MutateFlags {
            rollback_on_error: opts.rollback_on_error,
            populate: opts.populate,
            revalidate: opts.revalidate,
        }
    }
}

} // verus!
