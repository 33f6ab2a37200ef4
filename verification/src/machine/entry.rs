//! One cache entry.

use crate::channel::SnapshotSender;
use crate::key::QueryKey;
use crate::machine::event::{effect_model, Effect, ReadOutcome, TimerKind};
use crate::machine::model::{
    any_enabled, comparator_total, gc_time, is_gc_time, is_min_focus_throttle, is_min_stale_time,
    is_refresh_interval, judged, min_focus_throttle, min_stale_time, refresh_interval, EntryModel,
    Marks, OptimisticSnapshot, Reaction,
};
use crate::options::{MutateFlags, QueryOptions, ReadPolicy, SwrEvent};
use crate::snapshot::{share, Snapshot};
use crate::time::{Duration, Instant};
use std::collections::HashMap;
use std::sync::Arc;
use vstd::prelude::*;
use vstd::std_specs::iter::IteratorSpec;

verus! {

broadcast use vstd::std_specs::hash::group_hash_axioms;

/// Option aggregation across the active subscribers plus the latest touch.
pub struct EntryOptions {
    /// Options of the active subscribers, by subscription.
    pub subs: HashMap<u64, QueryOptions>,
    /// `gc_time` of the latest read or subscription, so that a sole
    /// subscriber's still applies after it left.
    pub last_touch_gc_time: Option<Duration>,
}

/// Walking the values of a map meets the options of every subscriber, and no
/// others.
proof fn lemma_values_cover(subs: Map<u64, QueryOptions>, vals: Seq<&QueryOptions>)
    requires
        vals.unref().to_set() == subs.values(),
    ensures
        forall|id: u64| #[trigger]
            subs.contains_key(id) ==> exists|i: int|
                0 <= i < vals.len() && *#[trigger] vals[i] == subs[id],
        forall|i: int| 0 <= i < vals.len() ==> subs.values().contains(*#[trigger] vals[i]),
{
    assert forall|id: u64| #[trigger] subs.contains_key(id) implies exists|i: int|
        0 <= i < vals.len() && *#[trigger] vals[i] == subs[id] by {
        assert(subs.values().contains(subs[id]));
        let i = choose|i: int| 0 <= i < vals.unref().len() && vals.unref()[i] == subs[id];
        assert(*vals[i] == subs[id]);
    }
    assert forall|i: int| 0 <= i < vals.len() implies subs.values().contains(
        *#[trigger] vals[i],
    ) by {
        assert(vals.unref()[i] == *vals[i]);
        assert(vals.unref().to_set().contains(*vals[i]));
    }
}

/// At most one value answers to [`is_gc_time`].
proof fn lemma_gc_time_unique(
    subs: Map<u64, QueryOptions>,
    last_touch: Option<Duration>,
    default_gc: Duration,
    d: Duration,
)
    requires
        is_gc_time(subs, last_touch, default_gc, d),
    ensures
        gc_time(subs, last_touch, default_gc) == d,
{
    let c = gc_time(subs, last_touch, default_gc);
    assert(is_gc_time(subs, last_touch, default_gc, c));
}

/// At most one value answers to [`is_refresh_interval`].
proof fn lemma_refresh_interval_unique(subs: Map<u64, QueryOptions>, d: Option<Duration>)
    requires
        is_refresh_interval(subs, d),
    ensures
        refresh_interval(subs) == d,
{
    let c = refresh_interval(subs);
    assert(is_refresh_interval(subs, c));
}

/// At most one value answers to [`is_min_stale_time`].
proof fn lemma_min_stale_time_unique(
    subs: Map<u64, QueryOptions>,
    default_stale: Duration,
    d: Duration,
)
    requires
        is_min_stale_time(subs, default_stale, d),
    ensures
        min_stale_time(subs, default_stale) == d,
{
    let c = min_stale_time(subs, default_stale);
    assert(is_min_stale_time(subs, default_stale, c));
}

/// At most one value answers to [`is_min_focus_throttle`].
proof fn lemma_min_focus_throttle_unique(
    subs: Map<u64, QueryOptions>,
    default_throttle: Duration,
    d: Duration,
)
    requires
        is_min_focus_throttle(subs, default_throttle, d),
    ensures
        min_focus_throttle(subs, default_throttle) == d,
{
    let c = min_focus_throttle(subs, default_throttle);
    assert(is_min_focus_throttle(subs, default_throttle, c));
}

impl EntryOptions {
    /// No subscribers and no touch yet.
    pub fn new() -> (opts: Self)
        ensures
            opts.subs@ == Map::<u64, QueryOptions>::empty(),
            opts.last_touch_gc_time is None,
    {
        EntryOptions { subs: HashMap::new(), last_touch_gc_time: None }
    }

    /// Longest `gc_time` of the active subscribers and the latest touch.
    pub fn gc_time(&self, default_gc: Duration) -> (delay: Duration)
        ensures
            is_gc_time(self.subs@, self.last_touch_gc_time, default_gc, delay),
            delay == gc_time(self.subs@, self.last_touch_gc_time, default_gc),
    {
        let mut best: Option<Duration> = self.last_touch_gc_time;
        let ghost vals = self.subs.values().remaining();
        for opts in it: self.subs.values()
            invariant
                it.seq() == vals,
                best is None ==> self.last_touch_gc_time is None && it.index() == 0,
                best matches Some(b) ==> {
                    &&& self.last_touch_gc_time == Some(b) || exists|i: int|
                        0 <= i < it.index() && (#[trigger] vals[i]).gc_time == b
                    &&& self.last_touch_gc_time matches Some(t) ==> t.nanos <= b.nanos
                    &&& forall|i: int|
                        0 <= i < it.index() ==> (#[trigger] vals[i]).gc_time.nanos <= b.nanos
                },
        {
            best = match best {
                Some(b) if b.nanos >= opts.gc_time.nanos => Some(b),
                _ => Some(opts.gc_time),
            };
        }
        let delay = match best {
            Some(b) => b,
            None => default_gc,
        };
        proof {
            lemma_values_cover(self.subs@, vals);
            lemma_gc_time_unique(self.subs@, self.last_touch_gc_time, default_gc, delay);
        }
        delay
    }

    /// Shortest refresh interval that an active subscriber asks for.
    pub fn refresh_interval(&self) -> (interval: Option<Duration>)
        ensures
            is_refresh_interval(self.subs@, interval),
            interval == refresh_interval(self.subs@),
    {
        let mut best: Option<Duration> = None;
        let ghost vals = self.subs.values().remaining();
        for opts in it: self.subs.values()
            invariant
                it.seq() == vals,
                best is None ==> forall|i: int|
                    0 <= i < it.index() ==> (#[trigger] vals[i]).refresh_interval is None,
                best matches Some(b) ==> {
                    &&& exists|i: int|
                        0 <= i < it.index() && (#[trigger] vals[i]).refresh_interval == Some(b)
                    &&& forall|i: int|
                        0 <= i < it.index() ==> ((#[trigger] vals[i]).refresh_interval matches Some(
                            d,
                        ) ==> b.nanos <= d.nanos)
                },
        {
            best = match (best, opts.refresh_interval) {
                (Some(b), Some(d)) if b.nanos > d.nanos => Some(d),
                (None, Some(d)) => Some(d),
                _ => best,
            };
        }
        proof {
            lemma_values_cover(self.subs@, vals);
            lemma_refresh_interval_unique(self.subs@, best);
        }
        best
    }

    /// Shortest `stale_time` of the active subscribers.
    pub fn min_stale_time(&self, default_stale: Duration) -> (shortest: Duration)
        ensures
            is_min_stale_time(self.subs@, default_stale, shortest),
            shortest == min_stale_time(self.subs@, default_stale),
    {
        let mut best: Option<Duration> = None;
        let ghost vals = self.subs.values().remaining();
        for opts in it: self.subs.values()
            invariant
                it.seq() == vals,
                best is None ==> it.index() == 0,
                best matches Some(b) ==> {
                    &&& exists|i: int|
                        0 <= i < it.index() && (#[trigger] vals[i]).stale_time == b
                    &&& forall|i: int|
                        0 <= i < it.index() ==> b.nanos <= (#[trigger] vals[i]).stale_time.nanos
                },
        {
            best = match best {
                Some(b) if b.nanos <= opts.stale_time.nanos => Some(b),
                _ => Some(opts.stale_time),
            };
        }
        let shortest = match best {
            Some(b) => b,
            None => default_stale,
        };
        proof {
            lemma_values_cover(self.subs@, vals);
            lemma_min_stale_time_unique(self.subs@, default_stale, shortest);
        }
        shortest
    }

    /// Shortest focus throttle of the active subscribers.
    pub fn min_focus_throttle(&self, default_throttle: Duration) -> (shortest: Duration)
        ensures
            is_min_focus_throttle(self.subs@, default_throttle, shortest),
            shortest == min_focus_throttle(self.subs@, default_throttle),
    {
        let mut best: Option<Duration> = None;
        let ghost vals = self.subs.values().remaining();
        for opts in it: self.subs.values()
            invariant
                it.seq() == vals,
                best is None ==> it.index() == 0,
                best matches Some(b) ==> {
                    &&& exists|i: int|
                        0 <= i < it.index() && (#[trigger] vals[i]).focus_throttle == b
                    &&& forall|i: int|
                        0 <= i < it.index() ==> b.nanos <= (#[trigger] vals[i]).focus_throttle.nanos
                },
        {
            best = match best {
                Some(b) if b.nanos <= opts.focus_throttle.nanos => Some(b),
                _ => Some(opts.focus_throttle),
            };
        }
        let shortest = match best {
            Some(b) => b,
            None => default_throttle,
        };
        proof {
            lemma_values_cover(self.subs@, vals);
            lemma_min_focus_throttle_unique(self.subs@, default_throttle, shortest);
        }
        shortest
    }

    /// Whether an active subscriber revalidates on [`SwrEvent::Focus`].
    pub fn any_on_focus(&self) -> (enabled: bool)
        ensures
            enabled == any_enabled(self.subs@, SwrEvent::Focus),
    {
        let ghost vals = self.subs.values().remaining();
        proof {
            lemma_values_cover(self.subs@, vals);
        }
        for opts in it: self.subs.values()
            invariant
                it.seq() == vals,
                vals.unref().to_set() == self.subs@.values(),
                forall|i: int| 0 <= i < it.index() ==> !(#[trigger] vals[i]).revalidate_on_focus,
        {
            if opts.revalidate_on_focus {
                proof {
                    lemma_values_cover(self.subs@, vals);
                    assert(vals[it.index()] == opts);
                }
                return true;
            }
        }
        false
    }

    /// Whether an active subscriber revalidates on [`SwrEvent::Online`].
    pub fn any_on_online(&self) -> (enabled: bool)
        ensures
            enabled == any_enabled(self.subs@, SwrEvent::Online),
    {
        let ghost vals = self.subs.values().remaining();
        proof {
            lemma_values_cover(self.subs@, vals);
        }
        for opts in it: self.subs.values()
            invariant
                it.seq() == vals,
                vals.unref().to_set() == self.subs@.values(),
                forall|i: int| 0 <= i < it.index() ==> !(#[trigger] vals[i]).revalidate_on_online,
        {
            if opts.revalidate_on_online {
                proof {
                    lemma_values_cover(self.subs@, vals);
                    assert(vals[it.index()] == opts);
                }
                return true;
            }
        }
        false
    }
}

/// One cache entry.
#[verifier::reject_recursive_types(V)]
pub struct EntryCore<V: ?Sized, F: ?Sized, C> {
    /// Tells this entry from earlier ones under the same key: sequence numbers
    /// restart in a new entry, so a fetch of an old one could otherwise be
    /// taken for one of its own.
    pub incarnation: u64,
    /// Current data.
    pub data: Option<Arc<V>>,
    /// Latest error.
    pub error: Option<Arc<V>>,
    /// Sequence number of the data.
    pub data_seq: u64,
    /// Sequence number of the latest failed fetch.
    pub error_seq: u64,
    /// When the data was last written with authority.
    pub updated_at: Option<Instant>,
    /// Latest sequence number given out.
    pub seq: u64,
    /// Sequence number of the fetch in flight.
    pub inflight: Option<u64>,
    /// Number of mutations in progress.
    pub mutation_active: u64,
    /// Marked stale regardless of age.
    pub invalidated: bool,
    /// What the latest optimistic write displaced.
    pub optimistic: Option<OptimisticSnapshot<V>>,
    /// Number of subscribers.
    pub subscribers: u64,
    /// Generation of the removal countdown.
    pub gc_gen: u64,
    /// Generation of the refresh schedule.
    pub refresh_gen: u64,
    /// Focus events are ignored before this point.
    pub focus_blocked_until: Option<Instant>,
    /// Stored fetcher.
    pub fetcher: Option<Arc<F>>,
    /// Stored comparator. It only decides whether the stored value is kept
    /// when an equal one is fetched.
    pub compare: Option<Arc<C>>,
    /// Options of those who use the entry.
    pub opts: EntryOptions,
    /// Version of the latest published snapshot.
    pub snap_version: u64,
    /// Where snapshots are published.
    pub tx: SnapshotSender<V>,
}

/// The model holds all of the entry but its channel, of which it has the label.
/// What becomes of the channel, contracts say of `tx` itself.
impl<V: ?Sized, F: ?Sized, C> View for EntryCore<V, F, C> {
    type V = EntryModel<V, F, C>;

    open spec fn view(&self) -> EntryModel<V, F, C> {
        EntryModel {
            incarnation: self.incarnation,
            data: self.data,
            error: self.error,
            data_seq: self.data_seq,
            error_seq: self.error_seq,
            updated_at: self.updated_at,
            seq: self.seq,
            inflight: self.inflight,
            mutation_active: self.mutation_active,
            invalidated: self.invalidated,
            optimistic: self.optimistic,
            subscribers: self.subscribers,
            gc_gen: self.gc_gen,
            refresh_gen: self.refresh_gen,
            focus_blocked_until: self.focus_blocked_until,
            fetcher: self.fetcher,
            compare: self.compare,
            subs: self.opts.subs@,
            last_touch_gc_time: self.opts.last_touch_gc_time,
            snap_version: self.snap_version,
        }
    }
}

impl<V: ?Sized, F: ?Sized, C> EntryCore<V, F, C> {
    /// The entry publishes on the channel of its own incarnation.
    pub open spec fn wired(self) -> bool {
        self.tx.incarnation() == self.incarnation
    }

    /// An entry that nothing has happened to.
    pub fn new(incarnation: u64) -> (entry: Self)
        ensures
            entry@ == EntryModel::<V, F, C>::fresh(incarnation),
            entry.wired(),
            entry.tx.opened_with(Snapshot::empty_spec()),
    {
        EntryCore {
            incarnation,
            data: None,
            error: None,
            data_seq: 0,
            error_seq: 0,
            updated_at: None,
            seq: 0,
            inflight: None,
            mutation_active: 0,
            invalidated: false,
            optimistic: None,
            subscribers: 0,
            gc_gen: 0,
            refresh_gen: 0,
            focus_blocked_until: None,
            fetcher: None,
            compare: None,
            opts: EntryOptions::new(),
            snap_version: 0,
            tx: SnapshotSender::open(incarnation, Snapshot::empty()),
        }
    }

    /// A fetch may start.
    pub fn can_start_fetch(&self) -> (can: bool)
        ensures
            can == self@.can_start_fetch(),
    {
        self.fetcher.is_some() && self.mutation_active == 0 && self.inflight.is_none()
    }

    /// The data is stale. A deadline that the clock does not reach means that
    /// the entry never goes stale by age.
    pub fn is_stale(&self, stale_time: Duration, now: Instant) -> (stale: bool)
        ensures
            stale == self@.is_stale(stale_time, now),
    {
        self.invalidated || match self.updated_at {
            None => true,
            Some(t) => match t.checked_add(stale_time) {
                Some(deadline) => now.nanos >= deadline.nanos,
                None => false,
            },
        }
    }

    /// Somebody subscribes to the entry.
    pub fn is_active(&self) -> (active: bool)
        ensures
            active == self@.is_active(),
    {
        self.subscribers > 0
    }

    /// Nobody needs the entry.
    pub fn is_quiescent(&self) -> (quiescent: bool)
        ensures
            quiescent == self@.is_quiescent(),
    {
        self.subscribers == 0 && self.mutation_active == 0 && self.inflight.is_none()
    }

    /// The visible state, under a given version.
    pub fn build_snapshot(&self, version: u64) -> (snapshot: Snapshot<V, V>)
        ensures
            snapshot == self@.snapshot(version),
    {
        Snapshot {
            data: share(&self.data),
            error: share(&self.error),
            data_seq: self.data_seq,
            error_seq: self.error_seq,
            inflight: self.inflight,
            is_mutating: self.mutation_active > 0,
            updated_at: self.updated_at,
            version,
        }
    }

    /// The visible state, without taking a new version.
    pub fn snapshot_now(&self) -> (snapshot: Snapshot<V, V>)
        ensures
            snapshot == self@.snapshot_now(),
    {
        self.build_snapshot(self.snap_version)
    }

    /// Forgets the fetch in flight: a later commit of it no longer lands.
    pub fn discard_flight(&mut self)
        requires
            old(self).seq < u64::MAX,
        ensures
            final(self)@ == old(self)@.discarded(),
            final(self).tx == old(self).tx,
    {
        self.seq += 1;
        self.inflight = None;
    }

    /// Writes a value with authority.
    pub fn local_write(&mut self, value: Arc<V>, now: Instant)
        requires
            old(self).seq < u64::MAX,
        ensures
            final(self)@ == old(self)@.written(value, now),
            final(self).tx == old(self).tx,
    {
        self.seq += 1;
        self.data = Some(value);
        self.data_seq = self.seq;
        self.updated_at = Some(now);
        self.error = None;
        self.invalidated = false;
        self.inflight = None;
    }

    /// Starts a fetch if `wanted` and possible. It takes the next sequence
    /// number, and its own commit settles an invalidation.
    pub fn fetch_if(&mut self, wanted: bool) -> (marks: Marks)
        requires
            old(self).seq < u64::MAX,
        ensures
            (Reaction { entry: final(self)@, marks }) == old(self)@.fetch_if(wanted),
            final(self).tx == old(self).tx,
    {
        if wanted && self.can_start_fetch() {
            self.seq += 1;
            self.inflight = Some(self.seq);
            self.invalidated = false;
            Marks { fetch: true, touched: true, refresh: false, notify: true }
        } else {
            Marks { fetch: false, touched: true, refresh: false, notify: false }
        }
    }

    /// Takes over what a reader or subscriber brings.
    pub fn adopt(
        &mut self,
        fetcher: Option<Arc<F>>,
        compare: Option<Arc<C>>,
        gc_time: Duration,
    )
        ensures
            final(self)@ == old(self)@.adopted(fetcher, compare, gc_time),
            final(self).tx == old(self).tx,
    {
        if fetcher.is_some() {
            self.fetcher = fetcher;
        }
        if compare.is_some() {
            self.compare = compare;
        }
        self.opts.last_touch_gc_time = Some(gc_time);
    }

    /// Handles a read.
    pub fn read(
        &mut self,
        policy: ReadPolicy,
        fetcher: Option<Arc<F>>,
        compare: Option<Arc<C>>,
        opts: QueryOptions,
        now: Instant,
    ) -> (out: (Marks, ReadOutcome<V>))
        requires
            old(self).wired(),
            old(self).seq < u64::MAX,
        ensures
            (Reaction { entry: final(self)@, marks: out.0 }, out.1@) == old(self)@.read(
                policy,
                fetcher,
                compare,
                opts,
                now,
            ),
            out.1 matches ReadOutcome::Wait { rx, .. } ==> rx.listens_to(old(self).tx),
            final(self).tx == old(self).tx,
    {
        self.adopt(fetcher, compare, opts.gc_time);
        let has_data = self.data.is_some();
        let fresh = has_data && !self.is_stale(opts.stale_time, now);
        if policy == ReadPolicy::CacheOnly || fresh {
            return (self.fetch_if(false), ReadOutcome::Ready(self.snapshot_now()));
        }
        if policy == ReadPolicy::StaleWhileRevalidate && has_data {
            let marks = self.fetch_if(true);
            return (marks, ReadOutcome::Ready(self.snapshot_now()));
        }
        if let Some(target) = self.inflight {
            return (
                self.fetch_if(false),
                ReadOutcome::Wait { target, rx: self.tx.subscribe() },
            );
        }
        if self.can_start_fetch() || self.mutation_active > 0 {
            let marks = self.fetch_if(true);
            return (marks, ReadOutcome::Wait { target: self.seq, rx: self.tx.subscribe() });
        }
        (self.fetch_if(false), ReadOutcome::NoFetcher)
    }

    /// Handles the beginning of a subscription.
    pub fn subscribe(
        &mut self,
        sub_id: u64,
        fetcher: Option<Arc<F>>,
        compare: Option<Arc<C>>,
        opts: QueryOptions,
        now: Instant,
    ) -> (marks: Marks)
        requires
            old(self)@.bounded(u64::MAX - 1),
        ensures
            (Reaction { entry: final(self)@, marks }) == old(self)@.subscribe(
                sub_id,
                fetcher,
                compare,
                opts,
                now,
            ),
            final(self).tx == old(self).tx,
    {
        self.adopt(fetcher, compare, opts.gc_time);
        let stale = self.is_stale(opts.stale_time, now);
        self.opts.subs.insert(sub_id, opts);
        self.subscribers += 1;
        self.gc_gen += 1;
        let marks = self.fetch_if(self.data.is_none() || stale);
        Marks { refresh: true, ..marks }
    }

    /// Handles the end of a subscription.
    pub fn unsubscribe(&mut self, sub_id: u64) -> (marks: Marks)
        ensures
            (Reaction { entry: final(self)@, marks }) == old(self)@.unsubscribe(sub_id),
            final(self).tx == old(self).tx,
    {
        if self.subscribers > 0 {
            self.subscribers -= 1;
        }
        self.opts.subs.remove(&sub_id);
        Marks { fetch: false, touched: true, refresh: true, notify: false }
    }

    /// Handles a revalidation request.
    pub fn revalidate(&mut self) -> (marks: Marks)
        requires
            old(self).seq < u64::MAX,
        ensures
            (Reaction { entry: final(self)@, marks }) == old(self)@.revalidate(),
            final(self).tx == old(self).tx,
    {
        if self.fetcher.is_none() {
            Marks::idle()
        } else {
            self.fetch_if(true)
        }
    }

    /// A fetch result is accepted.
    pub fn lands(&self, incarnation: u64, seq: u64) -> (lands: bool)
        ensures
            lands == self@.lands(incarnation, seq),
    {
        self.incarnation == incarnation && self.mutation_active == 0 && match self.inflight {
            Some(s) => s == seq,
            None => false,
        }
    }

    /// Handles a failed fetch.
    pub fn commit_err(&mut self, incarnation: u64, seq: u64, error: Arc<V>) -> (marks: Marks)
        ensures
            (Reaction { entry: final(self)@, marks }) == old(self)@.commit_err(
                incarnation,
                seq,
                error,
            ),
            final(self).tx == old(self).tx,
    {
        if !self.lands(incarnation, seq) {
            return Marks::idle();
        }
        self.error = Some(error);
        self.error_seq = seq;
        self.inflight = None;
        Marks { fetch: false, touched: true, refresh: true, notify: true }
    }

    /// Handles a local write.
    pub fn set(&mut self, value: Arc<V>, now: Instant) -> (marks: Marks)
        requires
            old(self).seq < u64::MAX,
        ensures
            (Reaction { entry: final(self)@, marks }) == old(self)@.set(value, now),
            final(self).tx == old(self).tx,
    {
        self.local_write(value, now);
        self.optimistic = None;
        Marks { fetch: false, touched: true, refresh: false, notify: true }
    }

    /// Handles the beginning of a mutation. Returns the sequence number of the
    /// optimistic write, if there is one.
    pub fn mutate_begin(&mut self, optimistic: Option<Arc<V>>) -> (out: (Marks, Option<u64>))
        requires
            old(self)@.bounded(u64::MAX - 2),
        ensures
            (Reaction { entry: final(self)@, marks: out.0 }) == old(self)@.mutate_begin(optimistic),
            out.1 == old(self)@.written_seq(optimistic),
            final(self).tx == old(self).tx,
    {
        self.mutation_active += 1;
        self.discard_flight();
        let marks = Marks { fetch: false, touched: true, refresh: false, notify: true };
        match optimistic {
            None => (marks, None),
            Some(value) => {
                self.seq += 1;
                let snapshot = OptimisticSnapshot {
                    prev_data: self.data.take(),
                    prev_error: share(&self.error),
                    prev_data_seq: self.data_seq,
                    prev_updated_at: self.updated_at,
                    written_seq: self.seq,
                };
                self.optimistic = Some(snapshot);
                self.data = Some(value);
                self.data_seq = self.seq;
                (marks, Some(self.seq))
            },
        }
    }

    /// Whether the kept snapshot belongs to the mutation with this
    /// `written_seq`.
    pub fn owns_optimistic(&self, written_seq: Option<u64>) -> (owns: bool)
        ensures
            owns == self@.owns_optimistic(written_seq),
    {
        match (&self.optimistic, written_seq) {
            (Some(snapshot), Some(seq)) => snapshot.written_seq == seq,
            _ => false,
        }
    }

    /// Drops a mutation's own kept snapshot, leaving another mutation's in
    /// place.
    pub fn clear_own_optimistic(&mut self, written_seq: Option<u64>)
        ensures
            final(self)@ == old(self)@.own_dropped(written_seq),
            final(self).tx == old(self).tx,
    {
        if self.owns_optimistic(written_seq) {
            self.optimistic = None;
        }
    }

    /// Takes a mutation's optimistic write back, unless a later write came on
    /// top of it. Its kept snapshot goes either way.
    pub fn rollback_if_unclobbered(&mut self, written_seq: Option<u64>, rollback_on_error: bool)
        ensures
            final(self)@ == old(self)@.rolled_back(written_seq, rollback_on_error),
            final(self).tx == old(self).tx,
    {
        if !self.owns_optimistic(written_seq) {
            return;
        }
        if let Some(snapshot) = self.optimistic.take() {
            if rollback_on_error && self.data_seq == snapshot.written_seq {
                self.data = snapshot.prev_data;
                self.error = snapshot.prev_error;
                self.data_seq = snapshot.prev_data_seq;
                self.updated_at = snapshot.prev_updated_at;
            }
        }
    }

    /// Counts one mutation less.
    pub fn leave_mutation(&mut self)
        ensures
            final(self)@ == old(self)@.mutation_left(),
            final(self).tx == old(self).tx,
    {
        if self.mutation_active > 0 {
            self.mutation_active -= 1;
        }
    }

    /// Once the last concurrent mutation is out, revalidates if asked to or if
    /// an invalidation came in meanwhile.
    pub fn finish_mutation(&mut self, revalidate: bool) -> (marks: Marks)
        requires
            old(self).seq < u64::MAX,
        ensures
            (Reaction { entry: final(self)@, marks }) == old(self)@.mutation_finished(revalidate),
            final(self).tx == old(self).tx,
    {
        let marks = self.fetch_if(revalidate || self.invalidated);
        Marks { notify: true, ..marks }
    }

    /// Handles the end of a mutation.
    pub fn mutate_commit(
        &mut self,
        written_seq: Option<u64>,
        result: Result<Option<Arc<V>>, Arc<V>>,
        flags: MutateFlags,
        now: Instant,
    ) -> (marks: Marks)
        requires
            old(self).seq < u64::MAX - 1,
        ensures
            (Reaction { entry: final(self)@, marks }) == old(self)@.mutate_commit(
                written_seq,
                result,
                flags,
                now,
            ),
            final(self).tx == old(self).tx,
    {
        self.leave_mutation();
        match result {
            Ok(Some(value)) if flags.populate => {
                self.local_write(value, now);
                self.optimistic = None;
            },
            Ok(_) => {
                self.clear_own_optimistic(written_seq);
            },
            Err(error) => {
                self.error = Some(error);
                self.rollback_if_unclobbered(written_seq, flags.rollback_on_error);
            },
        }
        self.finish_mutation(flags.revalidate)
    }

    /// Handles a dropped mutation.
    pub fn mutate_abort(&mut self, written_seq: Option<u64>, flags: MutateFlags) -> (marks: Marks)
        requires
            old(self).seq < u64::MAX,
        ensures
            (Reaction { entry: final(self)@, marks }) == old(self)@.mutate_abort(
                written_seq,
                flags,
            ),
            final(self).tx == old(self).tx,
    {
        self.leave_mutation();
        self.rollback_if_unclobbered(written_seq, flags.rollback_on_error);
        self.finish_mutation(flags.revalidate)
    }

    /// Handles an invalidation of the entry.
    pub fn invalidate(&mut self) -> (marks: Marks)
        requires
            old(self).seq < u64::MAX - 1,
        ensures
            (Reaction { entry: final(self)@, marks }) == old(self)@.invalidate(),
            final(self).tx == old(self).tx,
    {
        self.invalidated = true;
        if self.mutation_active > 0 {
            return Marks { fetch: false, touched: true, refresh: false, notify: false };
        }
        if self.inflight.is_some() {
            self.discard_flight();
        }
        let marks = self.fetch_if(self.is_active());
        Marks { notify: true, ..marks }
    }

    /// Whether an environment event reaches the entry.
    pub fn accepts(&self, ev: SwrEvent, now: Instant, defaults: &QueryOptions) -> (accepts: bool)
        ensures
            accepts == self@.accepts(ev, now, *defaults),
    {
        if !self.is_active() {
            return false;
        }
        let enabled = match ev {
            SwrEvent::Focus => self.opts.any_on_focus(),
            SwrEvent::Online => self.opts.any_on_online(),
        };
        if !enabled {
            return false;
        }
        if ev == SwrEvent::Focus {
            if let Some(until) = self.focus_blocked_until {
                if now.nanos < until.nanos {
                    return false;
                }
            }
        }
        self.is_stale(self.opts.min_stale_time(defaults.stale_time), now) && self.can_start_fetch()
    }

    /// Handles an environment event.
    pub fn broadcast(&mut self, ev: SwrEvent, now: Instant, defaults: &QueryOptions) -> (marks:
        Marks)
        requires
            old(self).seq < u64::MAX,
        ensures
            (Reaction { entry: final(self)@, marks }) == old(self)@.broadcast(ev, now, *defaults),
            final(self).tx == old(self).tx,
    {
        if !self.accepts(ev, now, defaults) {
            return Marks::idle();
        }
        if ev == SwrEvent::Focus {
            self.focus_blocked_until =
            now.checked_add(self.opts.min_focus_throttle(defaults.focus_throttle));
        }
        self.fetch_if(true)
    }

    /// Handles a refresh timer.
    pub fn timer_refresh(&mut self, generation: u64) -> (marks: Marks)
        requires
            old(self).seq < u64::MAX,
        ensures
            (Reaction { entry: final(self)@, marks }) == old(self)@.timer_refresh(generation),
            final(self).tx == old(self).tx,
    {
        if generation != self.refresh_gen || self.subscribers == 0 {
            return Marks::idle();
        }
        if self.can_start_fetch() {
            let marks = self.fetch_if(true);
            Marks { refresh: true, ..marks }
        } else {
            Marks { fetch: false, touched: false, refresh: true, notify: false }
        }
    }
}

impl<V: ?Sized, F: ?Sized, C> EntryCore<V, F, C> {
    /// The fetch that the entry is marked for.
    pub fn fetch_order(&self, key: &QueryKey, marks: Marks) -> (order: Option<Effect<V, F>>)
        requires
            marks.fetch ==> self.fetcher is Some,
        ensures
            effect_model(order) == self@.fetch_order(key@, marks),
    {
        match &self.fetcher {
            Some(fetcher) if marks.fetch => Some(
                Effect::StartFetch {
                    key: key.clone(),
                    incarnation: self.incarnation,
                    seq: self.seq,
                    fetcher: fetcher.clone(),
                },
            ),
            _ => None,
        }
    }

    /// Restarts the removal countdown of a touched entry that is idle.
    pub fn count_down(
        &mut self,
        key: &QueryKey,
        marks: Marks,
        now: Instant,
        defaults: &QueryOptions,
    ) -> (timer: Option<Effect<V, F>>)
        requires
            old(self).gc_gen < u64::MAX,
        ensures
            (final(self)@, effect_model(timer)) == old(self)@.counted_down(
                key@,
                marks,
                now,
                *defaults,
            ),
            final(self).tx == old(self).tx,
    {
        if !(marks.touched && self.is_quiescent()) {
            return None;
        }
        self.gc_gen += 1;
        match now.checked_add(self.opts.gc_time(defaults.gc_time)) {
            Some(at) => Some(
                Effect::ScheduleTimer {
                    key: key.clone(),
                    kind: TimerKind::Gc,
                    at,
                    generation: self.gc_gen,
                },
            ),
            None => None,
        }
    }

    /// Schedules the next refresh tick after the basis changed.
    pub fn reschedule(&mut self, key: &QueryKey, marks: Marks, now: Instant) -> (timer: Option<
        Effect<V, F>,
    >)
        requires
            old(self).refresh_gen < u64::MAX,
        ensures
            (final(self)@, effect_model(timer)) == old(self)@.rescheduled(key@, marks, now),
            final(self).tx == old(self).tx,
    {
        if !marks.refresh {
            return None;
        }
        if self.subscribers == 0 {
            self.refresh_gen += 1;
            return None;
        }
        let deadline = match self.opts.refresh_interval() {
            Some(interval) => now.checked_add(interval),
            None => None,
        };
        match deadline {
            Some(at) => {
                self.refresh_gen += 1;
                Some(
                    Effect::ScheduleTimer {
                        key: key.clone(),
                        kind: TimerKind::Refresh,
                        at,
                        generation: self.refresh_gen,
                    },
                )
            },
            None => None,
        }
    }

    /// Publishes a visible change under the next version.
    pub fn publish(&mut self, marks: Marks) -> (note: Option<Effect<V, F>>)
        requires
            old(self).wired(),
            old(self).snap_version < u64::MAX,
        ensures
            (final(self)@, effect_model(note)) == old(self)@.published(marks),
            note matches Some(Effect::Notify { tx, .. }) ==> tx == old(self).tx,
            final(self).tx == old(self).tx,
    {
        if !marks.notify {
            return None;
        }
        self.snap_version += 1;
        Some(
            Effect::Notify {
                tx: self.tx.share(),
                snapshot: self.build_snapshot(self.snap_version),
            },
        )
    }
}

impl<V: ?Sized, F: ?Sized, C: Fn(&Arc<V>, &Arc<V>) -> bool> EntryCore<V, F, C> {
    /// Whether the comparator finds a fetched value equal to the current data.
    pub fn unchanged(&self, value: &Arc<V>) -> (unchanged: bool)
        requires
            comparator_total(self.compare),
        ensures
            judged(self@, *value, unchanged),
    {
        match (&self.compare, &self.data) {
            (Some(compare), Some(current)) => (**compare)(current, value),
            _ => false,
        }
    }

    /// Handles a successful fetch. When the comparator finds the value equal
    /// to the current data, the stored one is kept; all else goes on as with a
    /// new value.
    pub fn commit_ok(&mut self, incarnation: u64, seq: u64, value: Arc<V>, now: Instant) -> (out: (
        Marks,
        bool,
    ))
        requires
            comparator_total(old(self).compare),
        ensures
            old(self)@.lands(incarnation, seq) ==> judged(old(self)@, value, out.1),
            !old(self)@.lands(incarnation, seq) ==> !out.1,
            (Reaction { entry: final(self)@, marks: out.0 }) == old(self)@.commit_ok(
                incarnation,
                seq,
                value,
                out.1,
                now,
            ),
            final(self).tx == old(self).tx,
    {
        if !self.lands(incarnation, seq) {
            return (Marks::idle(), false);
        }
        let unchanged = self.unchanged(&value);
        if !unchanged {
            self.data = Some(value);
        }
        self.data_seq = seq;
        self.updated_at = Some(now);
        self.error = None;
        self.inflight = None;
        self.optimistic = None;
        (Marks { fetch: false, touched: true, refresh: true, notify: true }, unchanged)
    }
}

} // verus!
