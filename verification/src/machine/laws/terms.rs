//! Terms that the laws are stated in: what can be read off an entry's fields
//! and off a list of effects.

use crate::key::KeyModel;
use crate::machine::event::{EffectModel, Event, TimerKind};
use crate::machine::laws::steps::{lemma_effect_origin, lemma_one, lemma_result};
use crate::machine::model::{EntryModel, Marks};
use crate::machine::table::{MachineModel, Step};
use crate::machine::upkeep::lemma_prepared_keeps_inv;
use crate::options::QueryOptions;
use crate::time::{Duration, Instant, MAX_INSTANT_NANOS};
use vstd::prelude::*;

verus! {

// ---- entries ----

/// There is a fetcher to run, and neither a fetch nor a mutation is under way.
pub open spec fn free<V: ?Sized, F: ?Sized, C>(e: EntryModel<V, F, C>) -> bool {
    e.fetcher is Some && e.inflight is None && e.mutation_active == 0
}

/// Nobody subscribes, and neither a fetch nor a mutation is under way.
pub open spec fn unneeded<V: ?Sized, F: ?Sized, C>(e: EntryModel<V, F, C>) -> bool {
    e.subscribers == 0 && e.inflight is None && e.mutation_active == 0
}

/// The data is marked stale, was never written with authority, or was so at
/// least `stale_time` ago. What lies beyond the end of the clock never comes.
pub open spec fn aged<V: ?Sized, F: ?Sized, C>(
    e: EntryModel<V, F, C>,
    stale_time: Duration,
    now: Instant,
) -> bool {
    e.invalidated || match e.updated_at {
        None => true,
        Some(t) => t.nanos + stale_time.nanos <= now.nanos && t.nanos + stale_time.nanos
            <= MAX_INSTANT_NANOS,
    }
}

// ---- effects ----

/// A fetch of `key` is asked for.
pub open spec fn fetch_asked<V: ?Sized, F: ?Sized>(
    effects: Seq<EffectModel<V, F>>,
    key: KeyModel,
) -> bool {
    exists|x: EffectModel<V, F>| #[trigger]
        effects.contains(x) && x is StartFetch && x->StartFetch_key == key
}

/// A timer of `key` is asked for.
pub open spec fn timer_asked<V: ?Sized, F: ?Sized>(
    effects: Seq<EffectModel<V, F>>,
    key: KeyModel,
    kind: TimerKind,
) -> bool {
    exists|x: EffectModel<V, F>| #[trigger]
        effects.contains(x) && x is ScheduleTimer && x->ScheduleTimer_key == key
            && x->ScheduleTimer_kind == kind
}

/// A notification on the channel of an incarnation is asked for.
pub open spec fn note_asked<V: ?Sized, F: ?Sized>(
    effects: Seq<EffectModel<V, F>>,
    incarnation: u64,
) -> bool {
    exists|x: EffectModel<V, F>| #[trigger]
        effects.contains(x) && x is Notify && x->Notify_incarnation == incarnation
}

// ---- steps ----

/// The step starts a fetch of `key`, under the number after `last`: it is asked
/// for, with the stored fetcher, and it is the one in flight from then on.
pub open spec fn launches<V: ?Sized, F: ?Sized, C>(
    step: Step<V, F, C>,
    key: KeyModel,
    last: u64,
) -> bool {
    step.machine.entry(key) matches Some(e) && {
        &&& e.seq == last + 1
        &&& e.inflight == Some(e.seq)
        &&& !e.invalidated
        &&& e.fetcher matches Some(fetcher) && step.effects.contains(
            EffectModel::StartFetch { key, incarnation: e.incarnation, seq: e.seq, fetcher },
        )
    }
}

/// No reaction changes the incarnation of an entry.
proof fn lemma_incarnation_stays<V: ?Sized, F: ?Sized, C>(
    m: MachineModel<V, F, C>,
    i: int,
    ev: Event<V, F, C>,
    sub_id: u64,
    unchanged: bool,
    now: Instant,
)
    ensures
        m.reaction(i, ev, sub_id, unchanged, now).entry.incarnation
            == m.slots[i].entry.incarnation,
{
}

/// What an effect is about, it is asked for by.
proof fn lemma_asked_by<V: ?Sized, F: ?Sized, C>(
    m: MachineModel<V, F, C>,
    ev: Event<V, F, C>,
    unchanged: bool,
    now: Instant,
    key: KeyModel,
    x: EffectModel<V, F>,
)
    requires
        m.valid(1),
        !m.collects(ev),
        m.step(ev, unchanged, now).effects.contains(x),
    ensures
        ({
            let s = m.result(key, ev, unchanged, now);
            &&& x is StartFetch && x->StartFetch_key == key ==> m.prepared(ev).holds(key) && s.fetch
                == Some(x)
            &&& x is ScheduleTimer && x->ScheduleTimer_key == key && x->ScheduleTimer_kind
                == TimerKind::Gc ==> m.prepared(ev).holds(key) && s.gc == Some(x)
            &&& x is ScheduleTimer && x->ScheduleTimer_key == key && x->ScheduleTimer_kind
                == TimerKind::Refresh ==> m.prepared(ev).holds(key) && s.refresh == Some(x)
            &&& x is Notify && m.prepared(ev).holds(key) && x->Notify_incarnation == m.met(
                key,
            ).incarnation ==> s.note == Some(x)
        }),
{
    let p = m.prepared(ev);
    let other = lemma_effect_origin(m, ev, unchanged, now, x);
    lemma_prepared_keeps_inv(m, ev, u64::MAX - 3);
    let j = p.position(other);
    assert(p.stands_at(other, j));
    lemma_incarnation_stays(p, j, ev, m.next_sub_id, unchanged, now);
    if x is Notify && p.holds(key) && x->Notify_incarnation == m.met(key).incarnation {
        lemma_one(m, ev, unchanged, now, key);
        let i = p.position(key);
        assert(p.slots[j].entry.incarnation == x->Notify_incarnation);
        assert(i == j) by {
            if i < j {
                assert(p.slots[i].entry.incarnation != p.slots[j].entry.incarnation);
            } else if j < i {
                assert(p.slots[j].entry.incarnation != p.slots[i].entry.incarnation);
            }
        }
        assert(other == key);
    }
}

/// The effects of a step about one key are those that its entry asks for.
pub proof fn lemma_asked<V: ?Sized, F: ?Sized, C>(
    m: MachineModel<V, F, C>,
    ev: Event<V, F, C>,
    unchanged: bool,
    now: Instant,
    key: KeyModel,
)
    requires
        m.valid(1),
        !m.collects(ev),
    ensures
        ({
            let p = m.prepared(ev);
            let step = m.step(ev, unchanged, now);
            let s = m.result(key, ev, unchanged, now);
            &&& fetch_asked(step.effects, key) == (p.holds(key) && s.fetch is Some)
            &&& timer_asked(step.effects, key, TimerKind::Gc) == (p.holds(key) && s.gc is Some)
            &&& timer_asked(step.effects, key, TimerKind::Refresh) == (p.holds(key) && s.refresh
                is Some)
            &&& p.holds(key) ==> note_asked(step.effects, m.met(key).incarnation) == (s.note
                is Some)
            &&& forall|x: EffectModel<V, F>| #[trigger]
                step.effects.contains(x) ==> {
                    &&& x is StartFetch && x->StartFetch_key == key ==> s.fetch == Some(x)
                    &&& x is ScheduleTimer && x->ScheduleTimer_key == key && x->ScheduleTimer_kind
                        == TimerKind::Gc ==> s.gc == Some(x)
                    &&& x is ScheduleTimer && x->ScheduleTimer_key == key && x->ScheduleTimer_kind
                        == TimerKind::Refresh ==> s.refresh == Some(x)
                    &&& x is Notify && p.holds(key) && x->Notify_incarnation == m.met(
                        key,
                    ).incarnation ==> s.note == Some(x)
                }
            &&& p.holds(key) ==> {
                &&& s.fetch matches Some(x) ==> step.effects.contains(x)
                &&& s.gc matches Some(x) ==> step.effects.contains(x)
                &&& s.refresh matches Some(x) ==> step.effects.contains(x)
                &&& s.note matches Some(x) ==> step.effects.contains(x)
            }
        }),
{
    let p = m.prepared(ev);
    let step = m.step(ev, unchanged, now);
    let s = m.result(key, ev, unchanged, now);
    assert forall|x: EffectModel<V, F>| #[trigger] step.effects.contains(x) implies {
        &&& x is StartFetch && x->StartFetch_key == key ==> p.holds(key) && s.fetch == Some(x)
        &&& x is ScheduleTimer && x->ScheduleTimer_key == key && x->ScheduleTimer_kind
            == TimerKind::Gc ==> p.holds(key) && s.gc == Some(x)
        &&& x is ScheduleTimer && x->ScheduleTimer_key == key && x->ScheduleTimer_kind
            == TimerKind::Refresh ==> p.holds(key) && s.refresh == Some(x)
        &&& x is Notify && p.holds(key) && x->Notify_incarnation == m.met(key).incarnation
            ==> s.note == Some(x)
    } by {
        lemma_asked_by(m, ev, unchanged, now, key, x);
    }
    lemma_result(m, ev, unchanged, now, key, u64::MAX - 3);
    if p.holds(key) {
        lemma_one(m, ev, unchanged, now, key);
        let i = p.position(key);
        lemma_incarnation_stays(p, i, ev, m.next_sub_id, unchanged, now);
        lemma_asked_parts(m.response(key, ev, unchanged, now).entry, key, m.response(
            key,
            ev,
            unchanged,
            now,
        ).marks, now, m.defaults);
    }
}

/// What the follow-up rules ask for is about the entry's own key and channel.
proof fn lemma_asked_parts<V: ?Sized, F: ?Sized, C>(
    e: EntryModel<V, F, C>,
    key: KeyModel,
    marks: Marks,
    now: Instant,
    defaults: QueryOptions,
)
    ensures
        ({
            let s = e.settle(key, marks, now, defaults);
            &&& s.fetch matches Some(x) ==> x is StartFetch && x->StartFetch_key == key
            &&& s.gc matches Some(x) ==> x is ScheduleTimer && x->ScheduleTimer_key == key
                && x->ScheduleTimer_kind == TimerKind::Gc
            &&& s.refresh matches Some(x) ==> x is ScheduleTimer && x->ScheduleTimer_key == key
                && x->ScheduleTimer_kind == TimerKind::Refresh
            &&& s.note matches Some(x) ==> x is Notify && x->Notify_incarnation == e.incarnation
        }),
{
}

} // verus!
