//! When countdowns, refresh ticks and notifications are due, and when fetches and
//! invalidations are over.

use crate::key::{segments_model, KeyModel};
use crate::machine::event::{EffectModel, Event, TimerKind};
use crate::machine::laws::loading::shows;
use crate::machine::laws::mutations::populates;
use crate::machine::laws::reach::subject;
use crate::machine::laws::steps::{
    lemma_inv_widens, lemma_one, lemma_prepared_entry, lemma_removal, lemma_result,
};
use crate::machine::laws::terms::{
    fetch_asked, lemma_asked, note_asked, timer_asked, unneeded,
};
use crate::machine::laws::values::{awaited, law_which_entries_are_there};
use crate::machine::model::{gc_time, refresh_interval, EntryModel, Marks};
use crate::machine::table::{answers, MachineModel};
use crate::machine::upkeep::law_every_event_keeps_the_invariant;
use crate::options::QueryOptions;
use crate::snapshot::Snapshot;
use crate::time::{Instant, MAX_INSTANT_NANOS};
use std::sync::Arc;
use vstd::prelude::*;

verus! {

/// The event is the result of a fetch that the entry waits for.
pub open spec fn arrives<V: ?Sized, F: ?Sized, C>(
    e: EntryModel<V, F, C>,
    ev: Event<V, F, C>,
) -> bool {
    match ev {
        Event::CommitOk { incarnation, seq, .. } => awaited(e, incarnation, seq),
        Event::CommitErr { incarnation, seq, .. } => awaited(e, incarnation, seq),
        _ => false,
    }
}

/// The event uses the entry: it is a read, the beginning or end of a subscription
/// or of a mutation, a local write, or a fetch result that is waited for, each for
/// its key; a revalidation request that finds a fetcher; or an invalidation that
/// reaches the key.
pub open spec fn uses<V: ?Sized, F: ?Sized, C>(
    e: EntryModel<V, F, C>,
    key: KeyModel,
    ev: Event<V, F, C>,
) -> bool {
    match ev {
        Event::Invalidate { prefix } => key.under(segments_model(prefix@)),
        Event::Broadcast { .. } => false,
        Event::TimerFired { .. } => false,
        Event::RevalidateRequested { .. } => subject(ev) == Some(key) && e.fetcher is Some,
        Event::CommitOk { .. } => subject(ev) == Some(key) && arrives(e, ev),
        Event::CommitErr { .. } => subject(ev) == Some(key) && arrives(e, ev),
        _ => subject(ev) == Some(key),
    }
}

/// The event changes what the next refresh tick is reckoned from: a subscription
/// begins or ends, a fetch result arrives, or the current tick of a subscribed
/// entry comes.
pub open spec fn rebases<V: ?Sized, F: ?Sized, C>(
    e: EntryModel<V, F, C>,
    key: KeyModel,
    ev: Event<V, F, C>,
) -> bool {
    subject(ev) == Some(key) && match ev {
        Event::Subscribe { .. } => true,
        Event::Unsubscribe { .. } => true,
        Event::CommitOk { .. } => arrives(e, ev),
        Event::CommitErr { .. } => arrives(e, ev),
        Event::TimerFired { kind, generation, .. } => kind == TimerKind::Refresh && generation
            == e.refresh_gen && e.subscribers > 0,
        _ => false,
    }
}

/// The event has something to tell whether or not it starts a fetch: a fetch
/// result arrives, a local write is made, a mutation begins or ends, or an
/// invalidation reaches the key outside a mutation.
pub open spec fn tells<V: ?Sized, F: ?Sized, C>(
    e: EntryModel<V, F, C>,
    key: KeyModel,
    ev: Event<V, F, C>,
) -> bool {
    match ev {
        Event::Invalidate { prefix } => key.under(segments_model(prefix@)) && e.mutation_active
            == 0,
        Event::CommitOk { .. } => subject(ev) == Some(key) && arrives(e, ev),
        Event::CommitErr { .. } => subject(ev) == Some(key) && arrives(e, ev),
        Event::MutateSet { .. } => subject(ev) == Some(key),
        Event::MutateBegin { .. } => subject(ev) == Some(key),
        Event::MutateCommit { .. } => subject(ev) == Some(key),
        Event::MutateAbort { .. } => subject(ev) == Some(key),
        _ => false,
    }
}

/// What a reaction marks an entry for, and what it leaves to the follow-up rules.
#[verifier::spinoff_prover]
proof fn lemma_marks<V: ?Sized, F: ?Sized, C>(
    m: MachineModel<V, F, C>,
    i: int,
    ev: Event<V, F, C>,
    sub_id: u64,
    unchanged: bool,
    now: Instant,
)
    requires
        m.slots[i].entry.bounded(u64::MAX - 3),
        !(ev matches Event::TimerFired { kind, .. } && kind == TimerKind::Gc),
    ensures
        ({
            let e = m.slots[i].entry;
            let key = m.slots[i].key;
            let r = m.reaction(i, ev, sub_id, unchanged, now);
            &&& uses(e, key, ev) ==> r.marks.touched
            &&& r.marks.touched && !uses(e, key, ev) ==> r.entry.inflight is Some
            &&& r.marks.refresh == rebases(e, key, ev)
            &&& r.marks.notify == (tells(e, key, ev) || r.marks.fetch)
            &&& r.entry.gc_gen == e.gc_gen + if ev is Subscribe && subject(ev) == Some(key) {
                1int
            } else {
                0
            }
            &&& r.entry.refresh_gen == e.refresh_gen
            &&& r.entry.snap_version == e.snap_version
        }),
{
}

/// A removal timer that does not remove marks nothing.
proof fn lemma_removal_timer_marks<V: ?Sized, F: ?Sized, C>(
    m: MachineModel<V, F, C>,
    i: int,
    ev: Event<V, F, C>,
    sub_id: u64,
    unchanged: bool,
    now: Instant,
)
    requires
        ev matches Event::TimerFired { kind, .. } && kind == TimerKind::Gc,
    ensures
        m.reaction(i, ev, sub_id, unchanged, now) == m.slots[i].entry.idle(),
{
}

/// What the follow-up rules make of an entry.
proof fn lemma_settling<V: ?Sized, F: ?Sized, C>(
    e: EntryModel<V, F, C>,
    key: KeyModel,
    marks: Marks,
    now: Instant,
    defaults: QueryOptions,
)
    requires
        e.bounded(u64::MAX - 1),
    ensures
        ({
            let s = e.settle(key, marks, now, defaults);
            let delay = gc_time(e.subs, e.last_touch_gc_time, defaults.gc_time).nanos;
            let counts = marks.touched && unneeded(e);
            let interval = refresh_interval(e.subs);
            &&& s.entry.gc_gen == e.gc_gen + if counts {
                1int
            } else {
                0
            }
            &&& s.gc == if counts && now.nanos + delay <= MAX_INSTANT_NANOS {
                Some(
                    EffectModel::<V, F>::ScheduleTimer {
                        key,
                        kind: TimerKind::Gc,
                        at: Instant { nanos: (now.nanos + delay) as u128 },
                        generation: s.entry.gc_gen,
                    },
                )
            } else {
                None
            }
            &&& s.refresh == if marks.refresh && e.subscribers > 0 && interval is Some && now.nanos
                + interval->0.nanos <= MAX_INSTANT_NANOS {
                Some(
                    EffectModel::<V, F>::ScheduleTimer {
                        key,
                        kind: TimerKind::Refresh,
                        at: Instant { nanos: (now.nanos + interval->0.nanos) as u128 },
                        generation: s.entry.refresh_gen,
                    },
                )
            } else {
                None
            }
            &&& s.entry.refresh_gen == e.refresh_gen + if s.refresh is Some || (marks.refresh
                && e.subscribers == 0) {
                1int
            } else {
                0
            }
            &&& s.fetch is Some == marks.fetch
            &&& s.note is Some == marks.notify
            &&& marks.notify ==> s.entry.snap_version == e.snap_version + 1
            &&& !marks.notify ==> s.entry.snap_version == e.snap_version
            &&& s.note matches Some(x) ==> x is Notify && x->Notify_incarnation == e.incarnation
                && shows(x->Notify_snapshot, s.entry, s.entry.inflight)
            &&& unneeded(s.entry) == unneeded(e)
            &&& s.entry.inflight == e.inflight
            &&& s.entry.subs == e.subs
            &&& s.entry.subscribers == e.subscribers
            &&& s.entry.last_touch_gc_time == e.last_touch_gc_time
            &&& s.entry.seq == e.seq
            &&& s.entry.invalidated == e.invalidated
            &&& s.entry.incarnation == e.incarnation
        }),
{
}

/// Using an entry that nobody needs afterwards restarts its removal countdown:
/// timers of before no longer remove it, and one is due after the removal delay,
/// if the clock reaches that far. Reads count, whatever they find; so does all else
/// that uses an entry. Nothing else restarts a countdown, and a subscription only
/// calls the pending one off.
pub proof fn law_use_restarts_the_removal_countdown<V: ?Sized, F: ?Sized, C>(
    m: MachineModel<V, F, C>,
    ev: Event<V, F, C>,
    unchanged: bool,
    now: Instant,
    key: KeyModel,
)
    requires
        m.valid(1),
        m.holds(key) || subject(ev) == Some(key),
        m.step(ev, unchanged, now).machine.entry(key) is Some,
    ensures
        ({
            let before = m.met(key);
            let step = m.step(ev, unchanged, now);
            let e = step.machine.entry(key)->0;
            let delay = gc_time(e.subs, e.last_touch_gc_time, m.defaults.gc_time).nanos;
            if uses(before, key, ev) && unneeded(e) {
                &&& e.gc_gen == before.gc_gen + 1
                &&& now.nanos + delay <= MAX_INSTANT_NANOS ==> step.effects.contains(
                    EffectModel::ScheduleTimer {
                        key,
                        kind: TimerKind::Gc,
                        at: Instant { nanos: (now.nanos + delay) as u128 },
                        generation: e.gc_gen,
                    },
                )
                &&& now.nanos + delay > MAX_INSTANT_NANOS ==> !timer_asked(
                    step.effects,
                    key,
                    TimerKind::Gc,
                )
                &&& forall|x: EffectModel<V, F>| #[trigger]
                    step.effects.contains(x) && x is ScheduleTimer && x->ScheduleTimer_key == key
                        && x->ScheduleTimer_kind == TimerKind::Gc ==> x->ScheduleTimer_generation
                        == e.gc_gen && x->ScheduleTimer_at.nanos == now.nanos + delay
            } else {
                &&& e.gc_gen == before.gc_gen + if ev is Subscribe && subject(ev) == Some(key) {
                    1int
                } else {
                    0
                }
                &&& !timer_asked(step.effects, key, TimerKind::Gc)
            }
        }),
{
    lemma_prepared_entry(m, ev, key, u64::MAX - 3);
    if m.collects(ev) {
        lemma_removal(m, ev->TimerFired_key@, key);
        lemma_no_effects::<V, F>(key);
    } else {
        lemma_follow_up(m, ev, unchanged, now, key);
        lemma_asked(m, ev, unchanged, now, key);
    }
}

/// Nothing is asked for where there are no effects.
proof fn lemma_no_effects<V: ?Sized, F: ?Sized>(key: KeyModel)
    ensures
        !timer_asked(Seq::<EffectModel<V, F>>::empty(), key, TimerKind::Gc),
        !timer_asked(Seq::<EffectModel<V, F>>::empty(), key, TimerKind::Refresh),
        !fetch_asked(Seq::<EffectModel<V, F>>::empty(), key),
        forall|incarnation: u64|
            !#[trigger] note_asked(Seq::<EffectModel<V, F>>::empty(), incarnation),
{
}

/// What marks and follow-up rules come to for one entry of a step.
proof fn lemma_follow_up<V: ?Sized, F: ?Sized, C>(
    m: MachineModel<V, F, C>,
    ev: Event<V, F, C>,
    unchanged: bool,
    now: Instant,
    key: KeyModel,
)
    requires
        m.valid(1),
        !m.collects(ev),
        m.step(ev, unchanged, now).machine.entry(key) is Some,
    ensures
        ({
            let before = m.met(key);
            let s = m.result(key, ev, unchanged, now);
            let e = s.entry;
            let delay = gc_time(e.subs, e.last_touch_gc_time, m.defaults.gc_time).nanos;
            let counts = uses(before, key, ev) && unneeded(e);
            let interval = refresh_interval(e.subs);
            let ticks = rebases(before, key, ev) && e.subscribers > 0 && interval is Some
                && now.nanos + interval->0.nanos <= MAX_INSTANT_NANOS;
            &&& m.prepared(ev).holds(key)
            &&& m.step(ev, unchanged, now).machine.entry(key) == Some(e)
            &&& e.incarnation == before.incarnation
            &&& e.gc_gen == before.gc_gen + if counts || (ev is Subscribe && subject(ev) == Some(
                key,
            )) {
                1int
            } else {
                0
            }
            &&& s.gc == if counts && now.nanos + delay <= MAX_INSTANT_NANOS {
                Some(
                    EffectModel::<V, F>::ScheduleTimer {
                        key,
                        kind: TimerKind::Gc,
                        at: Instant { nanos: (now.nanos + delay) as u128 },
                        generation: e.gc_gen,
                    },
                )
            } else {
                None
            }
            &&& s.refresh == if ticks {
                Some(
                    EffectModel::<V, F>::ScheduleTimer {
                        key,
                        kind: TimerKind::Refresh,
                        at: Instant { nanos: (now.nanos + interval->0.nanos) as u128 },
                        generation: e.refresh_gen,
                    },
                )
            } else {
                None
            }
            &&& e.refresh_gen == before.refresh_gen + if ticks || (rebases(before, key, ev)
                && e.subscribers == 0) {
                1int
            } else {
                0
            }
            &&& s.note is Some == (tells(before, key, ev) || s.fetch is Some)
            &&& e.snap_version == before.snap_version + if s.note is Some {
                1int
            } else {
                0
            }
            &&& s.note matches Some(x) ==> x is Notify && x->Notify_incarnation == e.incarnation
                && shows(x->Notify_snapshot, e, e.inflight)
        }),
{
    lemma_prepared_entry(m, ev, key, u64::MAX - 3);
    lemma_result(m, ev, unchanged, now, key, u64::MAX - 3);
    lemma_one(m, ev, unchanged, now, key);
    let p = m.prepared(ev);
    let i = p.position(key);
    let r = m.response(key, ev, unchanged, now);
    if ev is TimerFired && ev->TimerFired_kind == TimerKind::Gc {
        lemma_removal_timer_marks(p, i, ev, m.next_sub_id, unchanged, now);
    } else {
        lemma_marks(p, i, ev, m.next_sub_id, unchanged, now);
    }
    lemma_bounds(p, i, ev, m.next_sub_id, unchanged, now);
    lemma_settling(r.entry, key, r.marks, now, m.defaults);
}

/// A reaction leaves room in the counters, and the incarnation as it is.
#[verifier::spinoff_prover]
proof fn lemma_bounds<V: ?Sized, F: ?Sized, C>(
    m: MachineModel<V, F, C>,
    i: int,
    ev: Event<V, F, C>,
    sub_id: u64,
    unchanged: bool,
    now: Instant,
)
    requires
        m.slots[i].entry.bounded(u64::MAX - 3),
    ensures
        m.reaction(i, ev, sub_id, unchanged, now).entry.bounded(u64::MAX - 1),
        m.reaction(i, ev, sub_id, unchanged, now).entry.incarnation
            == m.slots[i].entry.incarnation,
{
}

/// The next refresh tick is scheduled when a subscription begins or ends, when a
/// fetch result arrives and when a tick comes, at no other time: after the shortest
/// interval that a subscriber asks for, while there are subscribers, and if the
/// clock reaches that far. It outdates the pending one. So does the end of the last
/// subscription, without scheduling another.
pub proof fn law_when_the_next_refresh_tick_is_due<V: ?Sized, F: ?Sized, C>(
    m: MachineModel<V, F, C>,
    ev: Event<V, F, C>,
    unchanged: bool,
    now: Instant,
    key: KeyModel,
)
    requires
        m.valid(1),
        m.holds(key) || subject(ev) == Some(key),
        m.step(ev, unchanged, now).machine.entry(key) is Some,
    ensures
        ({
            let before = m.met(key);
            let step = m.step(ev, unchanged, now);
            let e = step.machine.entry(key)->0;
            let interval = refresh_interval(e.subs);
            if rebases(before, key, ev) && e.subscribers > 0 && interval is Some && now.nanos
                + interval->0.nanos <= MAX_INSTANT_NANOS {
                &&& e.refresh_gen == before.refresh_gen + 1
                &&& step.effects.contains(
                    EffectModel::ScheduleTimer {
                        key,
                        kind: TimerKind::Refresh,
                        at: Instant { nanos: (now.nanos + interval->0.nanos) as u128 },
                        generation: e.refresh_gen,
                    },
                )
                &&& forall|x: EffectModel<V, F>| #[trigger]
                    step.effects.contains(x) && x is ScheduleTimer && x->ScheduleTimer_key == key
                        && x->ScheduleTimer_kind == TimerKind::Refresh
                        ==> x->ScheduleTimer_generation == e.refresh_gen
                        && x->ScheduleTimer_at.nanos == now.nanos + interval->0.nanos
            } else {
                &&& !timer_asked(step.effects, key, TimerKind::Refresh)
                &&& e.refresh_gen == before.refresh_gen + if rebases(before, key, ev)
                    && e.subscribers == 0 {
                    1int
                } else {
                    0
                }
            }
        }),
{
    lemma_prepared_entry(m, ev, key, u64::MAX - 3);
    if m.collects(ev) {
        lemma_removal(m, ev->TimerFired_key@, key);
        lemma_no_effects::<V, F>(key);
    } else {
        lemma_follow_up(m, ev, unchanged, now, key);
        lemma_asked(m, ev, unchanged, now, key);
    }
}

/// Who listens to an entry is told exactly when there is something to tell: a fetch
/// starts or its result arrives, a local write is made, a mutation begins or ends,
/// or an invalidation reaches the key outside a mutation. What is told is the state
/// of the entry after the event, under the next version.
pub proof fn law_who_listens_is_told<V: ?Sized, F: ?Sized, C>(
    m: MachineModel<V, F, C>,
    ev: Event<V, F, C>,
    unchanged: bool,
    now: Instant,
    key: KeyModel,
)
    requires
        m.valid(1),
        m.holds(key) || subject(ev) == Some(key),
        m.step(ev, unchanged, now).machine.entry(key) is Some,
    ensures
        ({
            let before = m.met(key);
            let step = m.step(ev, unchanged, now);
            let e = step.machine.entry(key)->0;
            if tells(before, key, ev) || fetch_asked(step.effects, key) {
                &&& e.snap_version == before.snap_version + 1
                &&& note_asked(step.effects, e.incarnation)
                &&& forall|snapshot: Snapshot<V, V>|
                    #[trigger] step.effects.contains(
                        EffectModel::Notify { incarnation: e.incarnation, snapshot },
                    ) ==> shows(snapshot, e, e.inflight)
            } else {
                &&& e.snap_version == before.snap_version
                &&& !note_asked(step.effects, e.incarnation)
            }
        }),
{
    lemma_prepared_entry(m, ev, key, u64::MAX - 3);
    if m.collects(ev) {
        lemma_removal(m, ev->TimerFired_key@, key);
        lemma_no_effects::<V, F>(key);
    } else {
        lemma_follow_up(m, ev, unchanged, now, key);
        lemma_asked(m, ev, unchanged, now, key);
    }
}

/// What a reaction makes of the fetch in flight and of an invalidation.
#[verifier::spinoff_prover]
proof fn lemma_flight_of_reaction<V: ?Sized, F: ?Sized, C>(
    m: MachineModel<V, F, C>,
    i: int,
    ev: Event<V, F, C>,
    sub_id: u64,
    unchanged: bool,
    now: Instant,
)
    requires
        m.slots[i].entry.bounded(u64::MAX - 3),
        m.slots[i].entry.inv(),
    ensures
        ({
            let e = m.slots[i].entry;
            let key = m.slots[i].key;
            let r = m.reaction(i, ev, sub_id, unchanged, now);
            &&& e.seq <= r.entry.seq
            &&& !r.marks.fetch && !overtakes(e, key, ev) ==> r.entry.seq == e.seq
            &&& r.marks.fetch ==> r.entry.inflight == Some(r.entry.seq) && !r.entry.invalidated
            &&& !r.marks.fetch ==> r.entry.inflight == if gives_up(e, key, ev) {
                None
            } else {
                e.inflight
            }
            &&& !r.marks.fetch ==> r.entry.invalidated == if subject(ev) == Some(key) && (
            ev is MutateSet || populates(ev)) {
                false
            } else {
                e.invalidated || (ev matches Event::Invalidate { prefix } && key.under(
                    segments_model(prefix@),
                ))
            }
        }),
{
}

/// The event ends the fetch in flight: its own result, a local write, the result of
/// a mutation, a beginning mutation, or an invalidation.
pub open spec fn gives_up<V: ?Sized, F: ?Sized, C>(
    e: EntryModel<V, F, C>,
    key: KeyModel,
    ev: Event<V, F, C>,
) -> bool {
    match ev {
        Event::Invalidate { prefix } => key.under(segments_model(prefix@)),
        Event::CommitOk { .. } => subject(ev) == Some(key) && arrives(e, ev),
        Event::CommitErr { .. } => subject(ev) == Some(key) && arrives(e, ev),
        Event::MutateSet { .. } => subject(ev) == Some(key),
        Event::MutateBegin { .. } => subject(ev) == Some(key),
        Event::MutateCommit { .. } => subject(ev) == Some(key) && populates(ev),
        _ => false,
    }
}

/// The event takes a number without starting a fetch: a local write, the result of a
/// mutation, a beginning mutation, or an invalidation that gives a fetch up.
pub open spec fn overtakes<V: ?Sized, F: ?Sized, C>(
    e: EntryModel<V, F, C>,
    key: KeyModel,
    ev: Event<V, F, C>,
) -> bool {
    match ev {
        Event::Invalidate { prefix } => key.under(segments_model(prefix@)) && e.inflight is Some,
        Event::MutateSet { .. } => subject(ev) == Some(key),
        Event::MutateBegin { .. } => subject(ev) == Some(key),
        Event::MutateCommit { .. } => subject(ev) == Some(key) && populates(ev),
        _ => false,
    }
}

/// A fetch stays in flight until its own result, a local write, the result of a
/// mutation, a beginning mutation or an invalidation ends it. An invalidation stays until a fetch starts
/// or a value is written with authority. Numbers that were given out are never
/// taken back, and new ones are given out for fetches, writes, mutations, and
/// fetches that are given up.
pub proof fn law_what_is_under_way_stays_under_way<V: ?Sized, F: ?Sized, C>(
    m: MachineModel<V, F, C>,
    ev: Event<V, F, C>,
    unchanged: bool,
    now: Instant,
    key: KeyModel,
)
    requires
        m.valid(1),
        m.holds(key) || subject(ev) == Some(key),
        m.step(ev, unchanged, now).machine.entry(key) is Some,
    ensures
        ({
            let before = m.met(key);
            let step = m.step(ev, unchanged, now);
            let e = step.machine.entry(key)->0;
            &&& before.seq <= e.seq
            &&& !fetch_asked(step.effects, key) && !overtakes(before, key, ev) ==> e.seq
                == before.seq
            &&& fetch_asked(step.effects, key) ==> e.inflight == Some(e.seq) && !e.invalidated
            &&& !fetch_asked(step.effects, key) ==> {
                &&& e.inflight == if gives_up(before, key, ev) {
                    None
                } else {
                    before.inflight
                }
                &&& e.invalidated == if subject(ev) == Some(key) && (ev is MutateSet || populates(
                    ev,
                )) {
                    false
                } else {
                    before.invalidated || (ev matches Event::Invalidate { prefix } && key.under(
                        segments_model(prefix@),
                    ))
                }
            }
        }),
{
    lemma_prepared_entry(m, ev, key, u64::MAX - 3);
    if m.collects(ev) {
        lemma_removal(m, ev->TimerFired_key@, key);
        lemma_no_effects::<V, F>(key);
    } else {
        lemma_asked(m, ev, unchanged, now, key);
        lemma_result(m, ev, unchanged, now, key, u64::MAX - 3);
        lemma_one(m, ev, unchanged, now, key);
        let p = m.prepared(ev);
        let i = p.position(key);
        let r = m.response(key, ev, unchanged, now);
        lemma_flight_of_reaction(p, i, ev, m.next_sub_id, unchanged, now);
        lemma_bounds(p, i, ev, m.next_sub_id, unchanged, now);
        lemma_settling(r.entry, key, r.marks, now, m.defaults);
    }
}

/// An entry outlives the removal timers that were scheduled before its latest use:
/// when one of them fires afterwards, the entry stays.
pub proof fn law_a_used_entry_outlives_its_old_timers<
    V: ?Sized,
    F: ?Sized,
    C: Fn(&Arc<V>, &Arc<V>) -> bool,
>(
    m: MachineModel<V, F, C>,
    ev: Event<V, F, C>,
    unchanged: bool,
    now: Instant,
    timer: Event<V, F, C>,
    fired_at: Instant,
    key: KeyModel,
)
    requires
        m.valid(2),
        answers(m, ev, unchanged),
        m.entry(key) matches Some(e) && uses(e, key, ev),
        timer matches Event::TimerFired { key: k, kind, generation } && k@ == key && kind
            == TimerKind::Gc && generation <= m.entry(key)->0.gc_gen,
    ensures
        m.step(ev, unchanged, now).machine.step(timer, false, fired_at).machine.holds(key),
{
    lemma_inv_widens(m, u64::MAX - 6, u64::MAX - 3);
    lemma_prepared_entry(m, ev, key, u64::MAX - 3);
    law_every_event_keeps_the_invariant(m, ev, unchanged, now, u64::MAX - 6);
    law_which_entries_are_there(m, ev, unchanged, now, key);
    law_use_restarts_the_removal_countdown(m, ev, unchanged, now, key);
    let after = m.step(ev, unchanged, now).machine;
    law_which_entries_are_there(after, timer, false, fired_at, key);
}

} // verus!
