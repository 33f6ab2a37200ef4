//! Externally visible entry state: the [`Snapshot`] carried by an entry's
//! channel, and its reader-side summary [`QueryState`].

use crate::time::Instant;
use std::sync::Arc;
use vstd::prelude::*;

verus! {

/// Another handle to the same shared value, if there is one.
pub fn share<T: ?Sized>(value: &Option<Arc<T>>) -> (shared: Option<Arc<T>>)
    ensures
        shared == *value,
{
    match value {
        Some(value) => Some(value.clone()),
        None => None,
    }
}

/// Channel-visible state of one entry.
pub struct Snapshot<T: ?Sized, E: ?Sized> {
    /// Current data, if any.
    pub data: Option<Arc<T>>,
    /// Latest error, if any. May coexist with `data`.
    pub error: Option<Arc<E>>,
    /// Sequence number that produced `data`.
    pub data_seq: u64,
    /// Sequence number of the latest failed fetch. Mutation errors never set
    /// this.
    pub error_seq: u64,
    /// Sequence number of the request in flight, if any.
    pub inflight: Option<u64>,
    /// Whether an async mutation is in progress.
    pub is_mutating: bool,
    /// When `data` was last written with authority (commit or populate;
    /// optimistic writes do not move it).
    pub updated_at: Option<Instant>,
    /// Monotonic notification version. Keeps the channel from going back to
    /// an older snapshot when sends overtake each other.
    pub version: u64,
}

impl<T: ?Sized, E: ?Sized> Snapshot<T, E> {
    /// The state of an entry that nothing has happened to.
    pub open spec fn empty_spec() -> Snapshot<T, E> {
        Snapshot {
            data: None,
            error: None,
            data_seq: 0,
            error_seq: 0,
            inflight: None,
            is_mutating: false,
            updated_at: None,
            version: 0,
        }
    }

    /// The state of an entry that nothing has happened to.
    pub fn empty() -> (snapshot: Self)
        ensures
            snapshot == Self::empty_spec(),
    {
        Snapshot {
            data: None,
            error: None,
            data_seq: 0,
            error_seq: 0,
            inflight: None,
            is_mutating: false,
            updated_at: None,
            version: 0,
        }
    }

    /// A request is in flight (first load or background refresh).
    pub fn is_validating(&self) -> (validating: bool)
        ensures
            validating == (self.inflight is Some),
    {
        self.inflight.is_some()
    }

    /// First load: fetching with no data yet.
    pub fn is_loading(&self) -> (loading: bool)
        ensures
            loading == (self.inflight is Some && self.data is None),
    {
        self.is_validating() && self.data.is_none()
    }

    /// What the numbers announce is there: data under a number above zero, and
    /// an error under a number above the data's.
    pub open spec fn complete(self) -> bool {
        &&& self.data_seq > 0 ==> self.data is Some
        &&& self.error_seq > self.data_seq ==> self.error is Some
    }

    /// The number that has reached `target`, if one has, has its value behind
    /// it: the data's number comes first, the error's next.
    pub open spec fn backed(self, target: u64) -> bool {
        if self.data_seq >= target {
            self.data is Some
        } else {
            self.error_seq >= target ==> self.error is Some
        }
    }

    /// Whether the number that has reached `target`, if one has, has its value
    /// behind it.
    pub fn is_backed(&self, target: u64) -> (is_backed: bool)
        ensures
            is_backed == self.backed(target),
    {
        if self.data_seq >= target {
            self.data.is_some()
        } else {
            self.error_seq < target || self.error.is_some()
        }
    }

    /// The one of two snapshots that a channel keeps: `fresh` when its version
    /// is higher, the current one otherwise.
    pub open spec fn newer(current: Snapshot<T, E>, fresh: Snapshot<T, E>) -> Snapshot<T, E> {
        if fresh.version > current.version {
            fresh
        } else {
            current
        }
    }

    /// Replaces the channel's current value by `fresh` if that is newer, and
    /// says whether it did.
    pub fn advance(&mut self, fresh: Self) -> (advanced: bool)
        ensures
            *final(self) == Self::newer(*old(self), fresh),
            advanced == (fresh.version > old(self).version),
    {
        if fresh.version > self.version {
            *self = fresh;
            true
        } else {
            false
        }
    }
}

impl<T: ?Sized, E: ?Sized> Clone for Snapshot<T, E> {
    fn clone(&self) -> (snapshot: Self)
        ensures
            snapshot == *self,
    {
        Snapshot {
            data: share(&self.data),
            error: share(&self.error),
            data_seq: self.data_seq,
            error_seq: self.error_seq,
            inflight: self.inflight,
            is_mutating: self.is_mutating,
            updated_at: self.updated_at,
            version: self.version,
        }
    }
}

/// Reader-side summary of a [`Snapshot`].
pub struct QueryState<T: ?Sized, E: ?Sized> {
    /// Current data.
    pub data: Option<Arc<T>>,
    /// Latest error. May coexist with `data`.
    pub error: Option<Arc<E>>,
    /// First load: no data yet and a request in flight.
    pub is_loading: bool,
    /// Any request in flight (first load or background refresh).
    pub is_validating: bool,
    /// When `data` was last written with authority.
    pub updated_at: Option<Instant>,
}

impl<T: ?Sized, E: ?Sized> QueryState<T, E> {
    /// What a snapshot comes to for a reader.
    pub open spec fn summary(snapshot: Snapshot<T, E>) -> Self {
        QueryState {
            data: snapshot.data,
            error: snapshot.error,
            is_loading: snapshot.inflight is Some && snapshot.data is None,
            is_validating: snapshot.inflight is Some,
            updated_at: snapshot.updated_at,
        }
    }

    /// Summarizes a snapshot.
    pub fn from_snapshot(snapshot: Snapshot<T, E>) -> (state: Self)
        ensures
            state == Self::summary(snapshot),
    {
        QueryState {
            is_loading: snapshot.is_loading(),
            is_validating: snapshot.is_validating(),
            updated_at: snapshot.updated_at,
            data: snapshot.data,
            error: snapshot.error,
        }
    }
}

impl<T: ?Sized, E: ?Sized> Clone for QueryState<T, E> {
    fn clone(&self) -> (state: Self)
        ensures
            state == *self,
    {
        QueryState {
            data: share(&self.data),
            error: share(&self.error),
            is_loading: self.is_loading,
            is_validating: self.is_validating,
            updated_at: self.updated_at,
        }
    }
}

/// A channel never goes back: publishing leaves the version as it was or
/// raises it.
pub proof fn law_channel_is_monotonic<T: ?Sized, E: ?Sized>(
    current: Snapshot<T, E>,
    fresh: Snapshot<T, E>,
)
    ensures
        Snapshot::newer(current, fresh).version >= current.version,
        Snapshot::newer(current, fresh).version >= fresh.version,
{
}

/// Two snapshots with different versions may be published in either order:
/// the channel ends up at the same value.
pub proof fn law_publish_order_is_immaterial<T: ?Sized, E: ?Sized>(
    current: Snapshot<T, E>,
    a: Snapshot<T, E>,
    b: Snapshot<T, E>,
)
    requires
        a.version != b.version,
    ensures
        Snapshot::newer(Snapshot::newer(current, a), b) == Snapshot::newer(
            Snapshot::newer(current, b),
            a,
        ),
{
}

/// A channel changes its value exactly for a higher version, and then to the
/// published one. Among equal versions the first stays.
pub proof fn law_only_a_higher_version_is_taken<T: ?Sized, E: ?Sized>(
    current: Snapshot<T, E>,
    fresh: Snapshot<T, E>,
)
    ensures
        fresh.version > current.version ==> Snapshot::newer(current, fresh) == fresh,
        fresh.version <= current.version ==> Snapshot::newer(current, fresh) == current,
{
}

/// The state of an entry that nothing has happened to shows nothing.
pub proof fn law_the_first_snapshot_shows_nothing<T: ?Sized, E: ?Sized>()
    ensures
        ({
            let s = Snapshot::<T, E>::empty_spec();
            &&& s.data is None && s.error is None && s.updated_at is None
            &&& s.data_seq == 0 && s.error_seq == 0 && s.version == 0
            &&& s.inflight is None && !s.is_mutating
        }),
{
}

/// A summary shows the data, the error and the age as they are. It says validating
/// exactly while a request is in flight, and loading exactly while one is in flight
/// for lack of data; an error is no data.
pub proof fn law_a_summary_says_what_is_going_on<T: ?Sized, E: ?Sized>(snapshot: Snapshot<T, E>)
    ensures
        ({
            let state = QueryState::summary(snapshot);
            &&& state.data == snapshot.data
            &&& state.error == snapshot.error
            &&& state.updated_at == snapshot.updated_at
            &&& state.is_validating <==> snapshot.inflight is Some
            &&& state.is_loading <==> snapshot.inflight is Some && snapshot.data is None
        }),
{
}

/// A number that has reached a target needs its value, data before error; a snapshot
/// in which none has needs nothing.
pub proof fn law_what_a_reached_number_needs<T: ?Sized, E: ?Sized>(
    snapshot: Snapshot<T, E>,
    target: u64,
)
    ensures
        snapshot.data_seq >= target ==> (snapshot.backed(target) <==> snapshot.data is Some),
        snapshot.data_seq < target && snapshot.error_seq >= target ==> (snapshot.backed(target)
            <==> snapshot.error is Some),
        snapshot.data_seq < target && snapshot.error_seq < target ==> snapshot.backed(target),
{
}

} // verus!
