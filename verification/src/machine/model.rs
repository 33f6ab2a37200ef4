//! The transition tables, stated over mathematical models of the entries.
//!
//! Every event acts on each entry by itself: a table says what becomes of the
//! entry and which follow-up work it is marked for. [`EntryModel::settle`] then
//! turns the marks into timers and notifications.

use crate::key::KeyModel;
use crate::machine::event::{EffectModel, ReadModel, TimerKind};
use crate::options::{MutateFlags, QueryOptions, ReadPolicy, SwrEvent};
use crate::snapshot::Snapshot;
use crate::time::{Duration, Instant};
use std::sync::Arc;
use vstd::prelude::*;

verus! {

/// The number after `n`.
pub open spec fn succ(n: u64) -> u64 {
    (n + 1) as u64
}

/// What an optimistic write displaced, kept for a rollback.
pub struct OptimisticSnapshot<V: ?Sized> {
    /// Data before the write.
    pub prev_data: Option<Arc<V>>,
    /// Error before the write.
    pub prev_error: Option<Arc<V>>,
    /// Sequence number of the data before the write.
    pub prev_data_seq: u64,
    /// When the data before the write was last written with authority.
    pub prev_updated_at: Option<Instant>,
    /// Sequence number of the optimistic write. A rollback requires that it
    /// still is the entry's `data_seq`.
    pub written_seq: u64,
}

/// Follow-up work that an event marks an entry for.
#[derive(Clone, Copy, Debug, PartialEq, Eq, Structural)]
pub struct Marks {
    /// A fetch was started.
    pub fetch: bool,
    /// The entry was touched: an idle one restarts its removal countdown.
    pub touched: bool,
    /// The basis of the refresh schedule changed.
    pub refresh: bool,
    /// The visible state changed.
    pub notify: bool,
}

impl Marks {
    /// Nothing to follow up.
    pub open spec fn none() -> Marks {
        Marks { fetch: false, touched: false, refresh: false, notify: false }
    }

    /// Nothing to follow up.
    pub fn idle() -> (marks: Marks)
        ensures
            marks == Marks::none(),
    {
        Marks { fetch: false, touched: false, refresh: false, notify: false }
    }
}

// ---- option aggregation ----

/// Whether `d` is the longest `gc_time` among the subscribers and the latest
/// touch, or the default when there is neither.
pub open spec fn is_gc_time(
    subs: Map<u64, QueryOptions>,
    last_touch: Option<Duration>,
    default_gc: Duration,
    d: Duration,
) -> bool {
    if subs.dom() =~= Set::empty() && last_touch is None {
        d == default_gc
    } else {
        &&& last_touch == Some(d) || exists|id: u64| #[trigger]
            subs.contains_key(id) && subs[id].gc_time == d
        &&& last_touch matches Some(t) ==> t.nanos <= d.nanos
        &&& forall|id: u64| #[trigger]
            subs.contains_key(id) ==> subs[id].gc_time.nanos <= d.nanos
    }
}

/// The removal delay of an entry.
pub open spec fn gc_time(
    subs: Map<u64, QueryOptions>,
    last_touch: Option<Duration>,
    default_gc: Duration,
) -> Duration {
    choose|d: Duration| is_gc_time(subs, last_touch, default_gc, d)
}

/// Whether `interval` is the shortest refresh interval that a subscriber asks
/// for, or `None` when none asks for one.
pub open spec fn is_refresh_interval(
    subs: Map<u64, QueryOptions>,
    interval: Option<Duration>,
) -> bool {
    match interval {
        None => forall|id: u64| #[trigger]
            subs.contains_key(id) ==> subs[id].refresh_interval is None,
        Some(d) => {
            &&& exists|id: u64| #[trigger]
                subs.contains_key(id) && subs[id].refresh_interval == Some(d)
            &&& forall|id: u64| #[trigger]
                subs.contains_key(id) ==> (subs[id].refresh_interval matches Some(i) ==> d.nanos
                    <= i.nanos)
        },
    }
}

/// The refresh interval of an entry.
pub open spec fn refresh_interval(subs: Map<u64, QueryOptions>) -> Option<Duration> {
    choose|interval: Option<Duration>| is_refresh_interval(subs, interval)
}

/// Whether `d` is the shortest `stale_time` among the subscribers, or the
/// default when there are none.
pub open spec fn is_min_stale_time(
    subs: Map<u64, QueryOptions>,
    default_stale: Duration,
    d: Duration,
) -> bool {
    if subs.dom() =~= Set::empty() {
        d == default_stale
    } else {
        &&& exists|id: u64| #[trigger] subs.contains_key(id) && subs[id].stale_time == d
        &&& forall|id: u64| #[trigger]
            subs.contains_key(id) ==> d.nanos <= subs[id].stale_time.nanos
    }
}

/// The freshness window that broadcasts apply to an entry.
pub open spec fn min_stale_time(
    subs: Map<u64, QueryOptions>,
    default_stale: Duration,
) -> Duration {
    choose|d: Duration| is_min_stale_time(subs, default_stale, d)
}

/// Whether `d` is the shortest focus throttle among the subscribers, or the
/// default when there are none.
pub open spec fn is_min_focus_throttle(
    subs: Map<u64, QueryOptions>,
    default_throttle: Duration,
    d: Duration,
) -> bool {
    if subs.dom() =~= Set::empty() {
        d == default_throttle
    } else {
        &&& exists|id: u64| #[trigger] subs.contains_key(id) && subs[id].focus_throttle == d
        &&& forall|id: u64| #[trigger]
            subs.contains_key(id) ==> d.nanos <= subs[id].focus_throttle.nanos
    }
}

/// The focus throttle of an entry.
pub open spec fn min_focus_throttle(
    subs: Map<u64, QueryOptions>,
    default_throttle: Duration,
) -> Duration {
    choose|d: Duration| is_min_focus_throttle(subs, default_throttle, d)
}

/// Whether a subscriber reacts to an environment event.
pub open spec fn any_enabled(subs: Map<u64, QueryOptions>, ev: SwrEvent) -> bool {
    exists|id: u64| #[trigger]
        subs.contains_key(id) && match ev {
            SwrEvent::Focus => subs[id].revalidate_on_focus,
            SwrEvent::Online => subs[id].revalidate_on_online,
        }
}

// ---- entries ----

/// One cache entry.
#[verifier::ext_equal]
pub struct EntryModel<V: ?Sized, F: ?Sized, C> {
    /// Tells this entry from earlier ones under the same key.
    pub incarnation: u64,
    /// Current data.
    pub data: Option<Arc<V>>,
    /// Latest error.
    pub error: Option<Arc<V>>,
    /// Sequence number of the data.
    pub data_seq: u64,
    /// Sequence number of the latest failed fetch.
    pub error_seq: u64,
    /// When the data was last written with authority.
    pub updated_at: Option<Instant>,
    /// Latest sequence number given out.
    pub seq: u64,
    /// Sequence number of the fetch in flight.
    pub inflight: Option<u64>,
    /// Number of mutations in progress.
    pub mutation_active: u64,
    /// Marked stale regardless of age.
    pub invalidated: bool,
    /// What the latest optimistic write displaced.
    pub optimistic: Option<OptimisticSnapshot<V>>,
    /// Number of subscribers.
    pub subscribers: u64,
    /// Generation of the removal countdown.
    pub gc_gen: u64,
    /// Generation of the refresh schedule.
    pub refresh_gen: u64,
    /// Focus events are ignored before this point.
    pub focus_blocked_until: Option<Instant>,
    /// Stored fetcher.
    pub fetcher: Option<Arc<F>>,
    /// Stored comparator.
    pub compare: Option<Arc<C>>,
    /// Options of the active subscribers.
    pub subs: Map<u64, QueryOptions>,
    /// `gc_time` of the latest read or subscription.
    pub last_touch_gc_time: Option<Duration>,
    /// Version of the latest published snapshot.
    pub snap_version: u64,
}

/// What an event does to one entry.
pub struct Reaction<V: ?Sized, F: ?Sized, C> {
    /// The entry afterwards.
    pub entry: EntryModel<V, F, C>,
    /// The work it is marked for.
    pub marks: Marks,
}

/// An entry after the follow-up rules, with the effects they ask for.
pub struct Settled<V: ?Sized, F: ?Sized, C> {
    /// The entry afterwards.
    pub entry: EntryModel<V, F, C>,
    /// Fetch to run.
    pub fetch: Option<EffectModel<V, F>>,
    /// Removal countdown to schedule.
    pub gc: Option<EffectModel<V, F>>,
    /// Refresh tick to schedule.
    pub refresh: Option<EffectModel<V, F>>,
    /// Snapshot to publish.
    pub note: Option<EffectModel<V, F>>,
}

impl<V: ?Sized, F: ?Sized, C> EntryModel<V, F, C> {
    /// An entry that nothing has happened to.
    pub open spec fn fresh(incarnation: u64) -> Self {
        EntryModel {
            incarnation,
            data: None,
            error: None,
            data_seq: 0,
            error_seq: 0,
            updated_at: None,
            seq: 0,
            inflight: None,
            mutation_active: 0,
            invalidated: false,
            optimistic: None,
            subscribers: 0,
            gc_gen: 0,
            refresh_gen: 0,
            focus_blocked_until: None,
            fetcher: None,
            compare: None,
            subs: Map::empty(),
            last_touch_gc_time: None,
            snap_version: 0,
        }
    }

    /// A fetch may start: there is a fetcher, and neither a mutation nor
    /// another fetch is under way.
    pub open spec fn can_start_fetch(self) -> bool {
        self.fetcher is Some && self.mutation_active == 0 && self.inflight is None
    }

    /// The data is stale: marked so, never written with authority, or older
    /// than `stale_time`. A deadline beyond the clock never arrives.
    pub open spec fn is_stale(self, stale_time: Duration, now: Instant) -> bool {
        self.invalidated || match self.updated_at {
            None => true,
            Some(t) => t.after(stale_time) matches Some(deadline) && now.nanos >= deadline.nanos,
        }
    }

    /// Somebody subscribes to the entry.
    pub open spec fn is_active(self) -> bool {
        self.subscribers > 0
    }

    /// Nobody needs the entry: eligible for the removal countdown.
    pub open spec fn is_quiescent(self) -> bool {
        self.subscribers == 0 && self.mutation_active == 0 && self.inflight is None
    }

    /// The visible state, under a given version.
    pub open spec fn snapshot(self, version: u64) -> Snapshot<V, V> {
        Snapshot {
            data: self.data,
            error: self.error,
            data_seq: self.data_seq,
            error_seq: self.error_seq,
            inflight: self.inflight,
            is_mutating: self.mutation_active > 0,
            updated_at: self.updated_at,
            version,
        }
    }

    /// The visible state, under the latest published version.
    pub open spec fn snapshot_now(self) -> Snapshot<V, V> {
        self.snapshot(self.snap_version)
    }

    /// The fetch in flight is forgotten: its sequence number is overtaken.
    pub open spec fn discarded(self) -> Self {
        EntryModel { seq: succ(self.seq), inflight: None, ..self }
    }

    /// A value is written with authority.
    pub open spec fn written(self, value: Arc<V>, now: Instant) -> Self {
        EntryModel {
            seq: succ(self.seq),
            data: Some(value),
            data_seq: succ(self.seq),
            updated_at: Some(now),
            error: None,
            invalidated: false,
            inflight: None,
            ..self
        }
    }

    /// A fetch is started: it takes the next sequence number, and it settles
    /// an invalidation.
    pub open spec fn started(self) -> Self {
        EntryModel {
            seq: succ(self.seq),
            inflight: Some(succ(self.seq)),
            invalidated: false,
            ..self
        }
    }

    /// A reader or subscriber brings a fetcher, a comparator and a `gc_time`.
    /// What is given replaces what was stored.
    pub open spec fn adopted(
        self,
        fetcher: Option<Arc<F>>,
        compare: Option<Arc<C>>,
        gc_time: Duration,
    ) -> Self {
        EntryModel {
            fetcher: if fetcher is Some {
                fetcher
            } else {
                self.fetcher
            },
            compare: if compare is Some {
                compare
            } else {
                self.compare
            },
            last_touch_gc_time: Some(gc_time),
            ..self
        }
    }

    /// The event passes the entry by.
    pub open spec fn idle(self) -> Reaction<V, F, C> {
        Reaction { entry: self, marks: Marks::none() }
    }

    /// The event touches the entry and no more.
    pub open spec fn touch(self) -> Reaction<V, F, C> {
        Reaction { entry: self, marks: Marks { touched: true, ..Marks::none() } }
    }

    /// The event starts a fetch if `wanted` and possible.
    pub open spec fn fetch_if(self, wanted: bool) -> Reaction<V, F, C> {
        if wanted && self.can_start_fetch() {
            Reaction {
                entry: self.started(),
                marks: Marks { fetch: true, touched: true, refresh: false, notify: true },
            }
        } else {
            self.touch()
        }
    }

    /// A read. Fresh data, and whatever a cache-only read finds, is returned
    /// as it is. Stale data is returned too where the policy allows, with a
    /// refresh in the background. Otherwise the reader waits: for the fetch in
    /// flight, for a new one, or for the mutation in progress.
    pub open spec fn read(
        self,
        policy: ReadPolicy,
        fetcher: Option<Arc<F>>,
        compare: Option<Arc<C>>,
        opts: QueryOptions,
        now: Instant,
    ) -> (Reaction<V, F, C>, ReadModel<V>) {
        let e = self.adopted(fetcher, compare, opts.gc_time);
        let fresh = e.data is Some && !e.is_stale(opts.stale_time, now);
        if policy == ReadPolicy::CacheOnly || fresh {
            (e.touch(), ReadModel::Ready(e.snapshot_now()))
        } else if policy == ReadPolicy::StaleWhileRevalidate && e.data is Some {
            let r = e.fetch_if(true);
            (r, ReadModel::Ready(r.entry.snapshot_now()))
        } else if e.inflight is Some {
            (
                e.touch(),
                ReadModel::Wait { target: e.inflight->0, incarnation: e.incarnation },
            )
        } else if e.can_start_fetch() || e.mutation_active > 0 {
            let r = e.fetch_if(true);
            (r, ReadModel::Wait { target: r.entry.seq, incarnation: e.incarnation })
        } else {
            (e.touch(), ReadModel::NoFetcher)
        }
    }

    /// A subscription. Missing or stale data starts a fetch if possible; a
    /// pending removal countdown is called off.
    pub open spec fn subscribe(
        self,
        sub_id: u64,
        fetcher: Option<Arc<F>>,
        compare: Option<Arc<C>>,
        opts: QueryOptions,
        now: Instant,
    ) -> Reaction<V, F, C> {
        let e = self.adopted(fetcher, compare, opts.gc_time);
        let joined = EntryModel {
            subs: e.subs.insert(sub_id, opts),
            subscribers: succ(e.subscribers),
            gc_gen: succ(e.gc_gen),
            ..e
        };
        let r = joined.fetch_if(e.data is None || e.is_stale(opts.stale_time, now));
        Reaction { marks: Marks { refresh: true, ..r.marks }, ..r }
    }

    /// A subscription ends.
    pub open spec fn unsubscribe(self, sub_id: u64) -> Reaction<V, F, C> {
        Reaction {
            entry: EntryModel {
                subscribers: if self.subscribers > 0 {
                    (self.subscribers - 1) as u64
                } else {
                    0
                },
                subs: self.subs.remove(sub_id),
                ..self
            },
            marks: Marks { touched: true, refresh: true, ..Marks::none() },
        }
    }

    /// A revalidation request. Without a fetcher it is inert; a fetch or
    /// mutation under way answers it already.
    pub open spec fn revalidate(self) -> Reaction<V, F, C> {
        if self.fetcher is None {
            self.idle()
        } else {
            self.fetch_if(true)
        }
    }

    /// A fetch result is accepted: it comes from the fetch in flight of this
    /// very incarnation, and no mutation is in progress.
    pub open spec fn lands(self, incarnation: u64, seq: u64) -> bool {
        self.incarnation == incarnation && self.mutation_active == 0 && self.inflight == Some(seq)
    }

    /// A fetch succeeded. `unchanged` says that the comparator found the value
    /// equal to the current data, which is then kept.
    pub open spec fn commit_ok(
        self,
        incarnation: u64,
        seq: u64,
        value: Arc<V>,
        unchanged: bool,
        now: Instant,
    ) -> Reaction<V, F, C> {
        if self.lands(incarnation, seq) {
            Reaction {
                entry: EntryModel {
                    data: if unchanged {
                        self.data
                    } else {
                        Some(value)
                    },
                    data_seq: seq,
                    updated_at: Some(now),
                    error: None,
                    inflight: None,
                    optimistic: None,
                    ..self
                },
                marks: Marks { fetch: false, touched: true, refresh: true, notify: true },
            }
        } else {
            self.idle()
        }
    }

    /// A fetch failed. The data stays.
    pub open spec fn commit_err(self, incarnation: u64, seq: u64, error: Arc<V>) -> Reaction<
        V,
        F,
        C,
    > {
        if self.lands(incarnation, seq) {
            Reaction {
                entry: EntryModel {
                    error: Some(error),
                    error_seq: seq,
                    inflight: None,
                    ..self
                },
                marks: Marks { fetch: false, touched: true, refresh: true, notify: true },
            }
        } else {
            self.idle()
        }
    }

    /// A local write.
    pub open spec fn set(self, value: Arc<V>, now: Instant) -> Reaction<V, F, C> {
        Reaction {
            entry: EntryModel { optimistic: None, ..self.written(value, now) },
            marks: Marks { touched: true, notify: true, ..Marks::none() },
        }
    }

    /// A mutation begins: the fetch in flight is forgotten, and an optimistic
    /// value takes the place of the data without counting as fresh.
    pub open spec fn mutate_begin(self, optimistic: Option<Arc<V>>) -> Reaction<V, F, C> {
        let e = EntryModel { mutation_active: succ(self.mutation_active), ..self.discarded() };
        Reaction {
            entry: match optimistic {
                None => e,
                Some(value) => EntryModel {
                    seq: succ(e.seq),
                    data: Some(value),
                    data_seq: succ(e.seq),
                    optimistic: Some(
                        OptimisticSnapshot {
                            prev_data: e.data,
                            prev_error: e.error,
                            prev_data_seq: e.data_seq,
                            prev_updated_at: e.updated_at,
                            written_seq: succ(e.seq),
                        },
                    ),
                    ..e
                },
            },
            marks: Marks { touched: true, notify: true, ..Marks::none() },
        }
    }

    /// Sequence number that a beginning mutation's optimistic write takes.
    pub open spec fn written_seq(self, optimistic: Option<Arc<V>>) -> Option<u64> {
        if optimistic is Some {
            Some(succ(succ(self.seq)))
        } else {
            None
        }
    }

    /// The kept snapshot belongs to the mutation with this `written_seq`.
    pub open spec fn owns_optimistic(self, written_seq: Option<u64>) -> bool {
        self.optimistic matches Some(s) && written_seq == Some(s.written_seq)
    }

    /// A mutation gives up its kept snapshot; another mutation's stays.
    pub open spec fn own_dropped(self, written_seq: Option<u64>) -> Self {
        if self.owns_optimistic(written_seq) {
            EntryModel { optimistic: None, ..self }
        } else {
            self
        }
    }

    /// A failed mutation takes its optimistic write back, if it is to and if
    /// that still is the latest write. Its kept snapshot goes either way.
    pub open spec fn rolled_back(self, written_seq: Option<u64>, rollback_on_error: bool) -> Self {
        if self.owns_optimistic(written_seq) && rollback_on_error && Some(self.data_seq)
            == written_seq {
            let s = self.optimistic->0;
            EntryModel {
                data: s.prev_data,
                error: s.prev_error,
                data_seq: s.prev_data_seq,
                updated_at: s.prev_updated_at,
                optimistic: None,
                ..self
            }
        } else {
            self.own_dropped(written_seq)
        }
    }

    /// One mutation less is in progress.
    pub open spec fn mutation_left(self) -> Self {
        EntryModel {
            mutation_active: if self.mutation_active > 0 {
                (self.mutation_active - 1) as u64
            } else {
                0
            },
            ..self
        }
    }

    /// A mutation is out: the last one revalidates if asked to, or if an
    /// invalidation came in meanwhile. The end is always notified.
    pub open spec fn mutation_finished(self, revalidate: bool) -> Reaction<V, F, C> {
        let r = self.fetch_if(revalidate || self.invalidated);
        Reaction { marks: Marks { notify: true, ..r.marks }, ..r }
    }

    /// A mutation finished.
    pub open spec fn mutate_commit(
        self,
        written_seq: Option<u64>,
        result: Result<Option<Arc<V>>, Arc<V>>,
        flags: MutateFlags,
        now: Instant,
    ) -> Reaction<V, F, C> {
        let e = self.mutation_left();
        let settled = match result {
            Ok(Some(value)) if flags.populate => EntryModel {
                optimistic: None,
                ..e.written(value, now)
            },
            Ok(_) => e.own_dropped(written_seq),
            Err(error) => EntryModel { error: Some(error), ..e }.rolled_back(
                written_seq,
                flags.rollback_on_error,
            ),
        };
        settled.mutation_finished(flags.revalidate)
    }

    /// A mutation was dropped.
    pub open spec fn mutate_abort(self, written_seq: Option<u64>, flags: MutateFlags) -> Reaction<
        V,
        F,
        C,
    > {
        self.mutation_left().rolled_back(written_seq, flags.rollback_on_error).mutation_finished(
            flags.revalidate,
        )
    }

    /// An invalidation. During a mutation the entry is only marked. Otherwise
    /// the fetch in flight is forgotten, and an active entry refetches.
    pub open spec fn invalidate(self) -> Reaction<V, F, C> {
        let marked = EntryModel { invalidated: true, ..self };
        if self.mutation_active > 0 {
            marked.touch()
        } else {
            let e = if marked.inflight is Some {
                marked.discarded()
            } else {
                marked
            };
            let r = e.fetch_if(e.is_active());
            Reaction { marks: Marks { notify: true, ..r.marks }, ..r }
        }
    }

    /// An environment event reaches the entry: it is active and stale, a
    /// subscriber reacts to the event, a focus event is not throttled, and a
    /// fetch can start.
    pub open spec fn accepts(
        self,
        ev: SwrEvent,
        now: Instant,
        defaults: QueryOptions,
    ) -> bool {
        &&& self.is_active()
        &&& any_enabled(self.subs, ev)
        &&& ev == SwrEvent::Focus ==> (self.focus_blocked_until matches Some(until) ==> now.nanos
            >= until.nanos)
        &&& self.is_stale(min_stale_time(self.subs, defaults.stale_time), now)
        &&& self.can_start_fetch()
    }

    /// An environment event. An accepted focus event rearms the throttle.
    pub open spec fn broadcast(
        self,
        ev: SwrEvent,
        now: Instant,
        defaults: QueryOptions,
    ) -> Reaction<V, F, C> {
        if self.accepts(ev, now, defaults) {
            EntryModel {
                focus_blocked_until: if ev == SwrEvent::Focus {
                    now.after(min_focus_throttle(self.subs, defaults.focus_throttle))
                } else {
                    self.focus_blocked_until
                },
                ..self
            }.fetch_if(true)
        } else {
            self.idle()
        }
    }

    /// A removal timer finds the entry idle since it was scheduled.
    pub open spec fn collected_by(self, generation: u64) -> bool {
        generation == self.gc_gen && self.is_quiescent()
    }

    /// A refresh timer. Outdated ones, and those of an entry without
    /// subscribers, are ignored. The next tick is scheduled even if no fetch
    /// can start.
    pub open spec fn timer_refresh(self, generation: u64) -> Reaction<V, F, C> {
        if generation != self.refresh_gen || self.subscribers == 0 {
            self.idle()
        } else if self.can_start_fetch() {
            let r = self.fetch_if(true);
            Reaction { marks: Marks { refresh: true, ..r.marks }, ..r }
        } else {
            Reaction { entry: self, marks: Marks { refresh: true, ..Marks::none() } }
        }
    }

    // ---- follow-up rules ----

    /// When the removal countdown of an idle entry ends.
    pub open spec fn gc_deadline(self, now: Instant, defaults: QueryOptions) -> Option<Instant> {
        now.after(gc_time(self.subs, self.last_touch_gc_time, defaults.gc_time))
    }

    /// When the next refresh tick of a subscribed entry is due.
    pub open spec fn refresh_deadline(self, now: Instant) -> Option<Instant> {
        match refresh_interval(self.subs) {
            Some(interval) => now.after(interval),
            None => None,
        }
    }

    /// The removal countdown (re)starts: the entry was touched and is idle.
    pub open spec fn counts_down(self, marks: Marks) -> bool {
        marks.touched && self.is_quiescent()
    }

    /// The fetch that a marked entry asks for.
    pub open spec fn fetch_order(self, key: KeyModel, marks: Marks) -> Option<EffectModel<V, F>> {
        if marks.fetch {
            Some(
                EffectModel::StartFetch {
                    key,
                    incarnation: self.incarnation,
                    seq: self.seq,
                    fetcher: self.fetcher->0,
                },
            )
        } else {
            None
        }
    }

    /// A touched entry that is idle restarts its removal countdown. A delay
    /// that the clock does not reach means that it is never removed.
    pub open spec fn counted_down(
        self,
        key: KeyModel,
        marks: Marks,
        now: Instant,
        defaults: QueryOptions,
    ) -> (Self, Option<EffectModel<V, F>>) {
        if self.counts_down(marks) {
            (
                EntryModel { gc_gen: succ(self.gc_gen), ..self },
                match self.gc_deadline(now, defaults) {
                    Some(at) => Some(
                        EffectModel::ScheduleTimer {
                            key,
                            kind: TimerKind::Gc,
                            at,
                            generation: succ(self.gc_gen),
                        },
                    ),
                    None => None,
                },
            )
        } else {
            (self, None)
        }
    }

    /// A changed refresh basis schedules the next tick of a subscribed entry,
    /// and outdates the pending one of an entry without subscribers.
    pub open spec fn rescheduled(self, key: KeyModel, marks: Marks, now: Instant) -> (
        Self,
        Option<EffectModel<V, F>>,
    ) {
        if !marks.refresh {
            (self, None)
        } else if self.subscribers == 0 {
            (EntryModel { refresh_gen: succ(self.refresh_gen), ..self }, None)
        } else {
            match self.refresh_deadline(now) {
                Some(at) => (
                    EntryModel { refresh_gen: succ(self.refresh_gen), ..self },
                    Some(
                        EffectModel::ScheduleTimer {
                            key,
                            kind: TimerKind::Refresh,
                            at,
                            generation: succ(self.refresh_gen),
                        },
                    ),
                ),
                None => (self, None),
            }
        }
    }

    /// A visible change publishes the state under the next version.
    pub open spec fn published(self, marks: Marks) -> (Self, Option<EffectModel<V, F>>) {
        if marks.notify {
            (
                EntryModel { snap_version: succ(self.snap_version), ..self },
                Some(
                    EffectModel::Notify {
                        incarnation: self.incarnation,
                        snapshot: self.snapshot(succ(self.snap_version)),
                    },
                ),
            )
        } else {
            (self, None)
        }
    }

    /// The follow-up rules, applied to a marked entry.
    pub open spec fn settle(
        self,
        key: KeyModel,
        marks: Marks,
        now: Instant,
        defaults: QueryOptions,
    ) -> Settled<V, F, C> {
        let (counted, gc) = self.counted_down(key, marks, now, defaults);
        let (rescheduled, refresh) = counted.rescheduled(key, marks, now);
        let (published, note) = rescheduled.published(marks);
        Settled { entry: published, fetch: self.fetch_order(key, marks), gc, refresh, note }
    }

    // ---- invariant ----

    /// No counter of the entry has passed `limit`.
    pub open spec fn bounded(self, limit: int) -> bool {
        &&& self.seq <= limit
        &&& self.mutation_active <= limit
        &&& self.subscribers <= limit
        &&& self.gc_gen <= limit
        &&& self.refresh_gen <= limit
        &&& self.snap_version <= limit
    }

    /// What every event keeps true of an entry.
    pub open spec fn inv(self) -> bool {
        &&& self.data_seq <= self.seq
        &&& self.error_seq <= self.seq
        &&& self.data is Some <==> self.data_seq > 0
        &&& self.data is None ==> self.updated_at is None
        &&& self.mutation_active > 0 ==> self.seq > 0
        &&& self.inflight matches Some(s) ==> {
            &&& s == self.seq
            &&& s > self.data_seq
            &&& s > self.error_seq
            &&& self.mutation_active == 0
            &&& !self.invalidated
            &&& self.fetcher is Some
        }
        &&& self.optimistic matches Some(o) ==> {
            &&& o.prev_data_seq < o.written_seq <= self.seq
            &&& o.prev_data is Some <==> o.prev_data_seq > 0
            &&& o.prev_data is None ==> o.prev_updated_at is None
        }
    }
}

/// Whether `unchanged` is what comparing a fetched value with the current data
/// may come to: the comparator's answer if there are a comparator and data, no
/// otherwise.
pub open spec fn judged<V: ?Sized, F: ?Sized, C: Fn(&Arc<V>, &Arc<V>) -> bool>(
    entry: EntryModel<V, F, C>,
    value: Arc<V>,
    unchanged: bool,
) -> bool {
    match (entry.compare, entry.data) {
        (Some(compare), Some(current)) => call_ensures(*compare, (&current, &value), unchanged),
        _ => !unchanged,
    }
}

/// A comparator takes any two values.
pub open spec fn comparator_total<V: ?Sized, C: Fn(&Arc<V>, &Arc<V>) -> bool>(
    compare: Option<Arc<C>>,
) -> bool {
    compare matches Some(c) ==> forall|a: &Arc<V>, b: &Arc<V>| #[trigger]
        call_requires(*c, (a, b))
}

} // verus!
