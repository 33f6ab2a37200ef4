//! How entries come and go.

use crate::key::KeyModel;
use crate::machine::event::{EffectModel, Event, OutcomeModel, TimerKind};
use crate::machine::model::gc_time;
use crate::machine::laws::steps::{
    lemma_effect_origin, lemma_idle_step, lemma_inv_widens, lemma_one, lemma_prepared_entry,
    lemma_removal, lemma_result,
};
use crate::machine::table::{answers, MachineModel};
use crate::machine::upkeep::{
    law_every_event_keeps_the_invariant, lemma_position, lemma_prepared_keeps_inv,
};
use crate::options::QueryOptions;
use crate::time::Instant;
use std::sync::Arc;
use vstd::prelude::*;

verus! {

/// Entries leave by a removal timer only, and only while nobody needs them: no
/// subscriber, no mutation, no fetch in flight, and no touch since the timer
/// was scheduled.
pub proof fn law_only_idle_entries_are_removed<V: ?Sized, F: ?Sized, C>(
    m: MachineModel<V, F, C>,
    ev: Event<V, F, C>,
    unchanged: bool,
    now: Instant,
    key: KeyModel,
)
    requires
        m.valid(1),
        m.holds(key),
        !m.step(ev, unchanged, now).machine.holds(key),
    ensures
        m.entry(key)->0.is_quiescent(),
        ev matches Event::TimerFired { key: k, kind, generation } && k@ == key && kind
            == TimerKind::Gc && generation == m.entry(key)->0.gc_gen,
{
    if m.collects(ev) {
        lemma_removal(m, ev->TimerFired_key@, key);
    } else {
        lemma_prepared_entry(m, ev, key, u64::MAX - 3);
        lemma_result(m, ev, unchanged, now, key, u64::MAX - 3);
    }
}

/// A removal countdown that nothing interferes with removes its entry.
pub proof fn law_countdown_removes_the_entry<
    V: ?Sized,
    F: ?Sized,
    C: Fn(&Arc<V>, &Arc<V>) -> bool,
>(
    m: MachineModel<V, F, C>,
    ev: Event<V, F, C>,
    unchanged: bool,
    now: Instant,
    key: KeyModel,
    at: Instant,
    generation: u64,
    timer: Event<V, F, C>,
    fired_at: Instant,
)
    requires
        m.valid(2),
        answers(m, ev, unchanged),
        m.step(ev, unchanged, now).effects.contains(
            EffectModel::ScheduleTimer { key, kind: TimerKind::Gc, at, generation },
        ),
        timer matches Event::TimerFired { key: k, kind, generation: g } && k@ == key && kind
            == TimerKind::Gc && g == generation,
    ensures
        m.step(ev, unchanged, now).machine.holds(key),
        !m.step(ev, unchanged, now).machine.step(timer, false, fired_at).machine.holds(key),
{
    let x = EffectModel::<V, F>::ScheduleTimer { key, kind: TimerKind::Gc, at, generation };
    lemma_inv_widens(m, u64::MAX - 6, u64::MAX - 3);
    let origin = lemma_effect_origin(m, ev, unchanged, now, x);
    law_every_event_keeps_the_invariant(m, ev, unchanged, now, u64::MAX - 6);
    lemma_result(m, ev, unchanged, now, key, u64::MAX - 3);
    let after = m.step(ev, unchanged, now).machine;
    lemma_removal(after, key, key);
}

/// Timers of an outdated generation change nothing and ask for nothing.
pub proof fn law_outdated_timers_are_ignored<V: ?Sized, F: ?Sized, C>(
    m: MachineModel<V, F, C>,
    timer: Event<V, F, C>,
    now: Instant,
)
    requires
        m.valid(1),
        timer matches Event::TimerFired { key, kind, generation } && (m.entry(key@) matches Some(e)
            ==> generation != if kind == TimerKind::Gc {
            e.gc_gen
        } else {
            e.refresh_gen
        }),
    ensures
        m.step(timer, false, now).machine == m,
        m.step(timer, false, now).effects.len() == 0,
{
    let key = timer->TimerFired_key@;
    assert forall|i: int| 0 <= i < m.slots.len() implies #[trigger] m.reaction(
        i,
        timer,
        m.next_sub_id,
        false,
        now,
    ) == m.slots[i].entry.idle() by {
        if m.slots[i].key == key {
            assert(m.stands_at(key, i));
            lemma_position(m, key, i);
        }
    }
    lemma_idle_step(m, timer, false, now);
}

/// A refresh timer does nothing once the last subscriber has left.
pub proof fn law_refresh_stops_without_subscribers<V: ?Sized, F: ?Sized, C>(
    m: MachineModel<V, F, C>,
    timer: Event<V, F, C>,
    now: Instant,
)
    requires
        m.valid(1),
        timer matches Event::TimerFired { key, kind, .. } && kind == TimerKind::Refresh && (
        m.entry(key@) matches Some(e) ==> e.subscribers == 0),
    ensures
        m.step(timer, false, now).machine == m,
        m.step(timer, false, now).effects.len() == 0,
{
    let key = timer->TimerFired_key@;
    assert forall|i: int| 0 <= i < m.slots.len() implies #[trigger] m.reaction(
        i,
        timer,
        m.next_sub_id,
        false,
        now,
    ) == m.slots[i].entry.idle() by {
        if m.slots[i].key == key {
            assert(m.stands_at(key, i));
            lemma_position(m, key, i);
        }
    }
    lemma_idle_step(m, timer, false, now);
}

/// A current refresh timer of a subscribed entry schedules the next tick, even
/// when no fetch can start.
pub proof fn law_refresh_goes_on_while_subscribed<V: ?Sized, F: ?Sized, C>(
    m: MachineModel<V, F, C>,
    timer: Event<V, F, C>,
    now: Instant,
    key: KeyModel,
    at: Instant,
)
    requires
        m.valid(1),
        timer matches Event::TimerFired { key: k, kind, generation } && k@ == key && kind
            == TimerKind::Refresh && (m.entry(key) matches Some(e) && e.subscribers > 0
            && e.refresh_gen == generation && e.refresh_deadline(now) == Some(at)),
    ensures
        ({
            let step = m.step(timer, false, now);
            let e = step.machine.entry(key)->0;
            &&& step.machine.entry(key) is Some
            &&& step.effects.contains(
                EffectModel::ScheduleTimer {
                    key,
                    kind: TimerKind::Refresh,
                    at,
                    generation: e.refresh_gen,
                },
            )
        }),
{
    lemma_prepared_entry(m, timer, key, u64::MAX - 3);
    lemma_one(m, timer, false, now, key);
    lemma_result(m, timer, false, now, key, u64::MAX - 3);
}

/// Incarnations are never used twice: an entry that is created takes one that
/// no entry has or had.
pub proof fn law_incarnations_are_new<V: ?Sized, F: ?Sized, C>(
    m: MachineModel<V, F, C>,
    ev: Event<V, F, C>,
    unchanged: bool,
    now: Instant,
    key: KeyModel,
    other: KeyModel,
)
    requires
        m.valid(1),
        !m.holds(key),
        m.step(ev, unchanged, now).machine.holds(key),
    ensures
        m.step(ev, unchanged, now).machine.entry(key)->0.incarnation == m.next_incarnation,
        m.step(ev, unchanged, now).machine.next_incarnation == m.next_incarnation + 1,
        m.entry(other) matches Some(e) ==> e.incarnation < m.next_incarnation,
{
    lemma_holder(m, other);
    if m.collects(ev) {
        lemma_removal(m, ev->TimerFired_key@, key);
    } else {
        lemma_prepared_entry(m, ev, key, u64::MAX - 3);
        lemma_result(m, ev, unchanged, now, key, u64::MAX - 3);
        lemma_one(m, ev, unchanged, now, key);
    }
}

/// An entry stands somewhere in the table.
proof fn lemma_holder<V: ?Sized, F: ?Sized, C>(m: MachineModel<V, F, C>, key: KeyModel)
    ensures
        m.holds(key) ==> m.stands_at(key, m.position(key)),
{
}

/// No event lowers the counters that ids and incarnations are taken from.
pub proof fn law_counters_only_grow<V: ?Sized, F: ?Sized, C>(
    m: MachineModel<V, F, C>,
    ev: Event<V, F, C>,
    unchanged: bool,
    now: Instant,
)
    requires
        m.valid(1),
    ensures
        m.next_incarnation <= m.step(ev, unchanged, now).machine.next_incarnation,
        m.next_sub_id <= m.step(ev, unchanged, now).machine.next_sub_id,
{
}

/// Subscription ids are never used twice: a subscription takes one that no
/// entry knows, and the next one takes another.
pub proof fn law_subscription_ids_are_new<V: ?Sized, F: ?Sized, C>(
    m: MachineModel<V, F, C>,
    ev: Event<V, F, C>,
    unchanged: bool,
    now: Instant,
    sub_id: u64,
    incarnation: u64,
    other: KeyModel,
)
    requires
        m.valid(1),
        m.step(ev, unchanged, now).outcome == (OutcomeModel::<V>::Subscribed {
            sub_id,
            incarnation,
        }),
    ensures
        m.entry(other) matches Some(e) ==> !e.subs.contains_key(sub_id),
        m.step(ev, unchanged, now).machine.next_sub_id == sub_id + 1,
{
    lemma_holder(m, other);
}

/// A subscription keeps its entry: while there are subscribers no timer
/// removes it.
pub proof fn law_subscribers_keep_the_entry<V: ?Sized, F: ?Sized, C>(
    m: MachineModel<V, F, C>,
    ev: Event<V, F, C>,
    unchanged: bool,
    now: Instant,
    key: KeyModel,
)
    requires
        m.valid(1),
        m.entry(key) matches Some(e) && e.subscribers > 0,
    ensures
        m.step(ev, unchanged, now).machine.holds(key),
{
    if !m.step(ev, unchanged, now).machine.holds(key) {
        law_only_idle_entries_are_removed(m, ev, unchanged, now, key);
    }
}

/// The end of a subscription undoes its beginning: the same subscribers with
/// the same options are left.
#[verifier::rlimit(40)]
pub proof fn law_unsubscribing_undoes_subscribing<
    V: ?Sized,
    F: ?Sized,
    C: Fn(&Arc<V>, &Arc<V>) -> bool,
>(
    m: MachineModel<V, F, C>,
    subscribe: Event<V, F, C>,
    joined_at: Instant,
    unsubscribe: Event<V, F, C>,
    left_at: Instant,
    key: KeyModel,
)
    requires
        m.valid(2),
        subscribe matches Event::Subscribe { key: k, .. } && k@ == key,
        unsubscribe matches Event::Unsubscribe { key: k, sub_id } && k@ == key && sub_id
            == m.next_sub_id,
    ensures
        ({
            let joined = m.step(subscribe, false, joined_at).machine;
            let left = joined.step(unsubscribe, false, left_at).machine;
            &&& joined.entry(key) matches Some(e) && e.subscribers == m.met(key).subscribers + 1
            &&& left.entry(key) matches Some(e) && e.subscribers == m.met(key).subscribers
                && e.subs == m.met(key).subs
        }),
{
    lemma_inv_widens(m, u64::MAX - 6, u64::MAX - 3);
    lemma_prepared_entry(m, subscribe, key, u64::MAX - 3);
    lemma_one(m, subscribe, false, joined_at, key);
    lemma_holder(m, key);
    law_every_event_keeps_the_invariant(m, subscribe, false, joined_at, u64::MAX - 6);
    let joined = m.step(subscribe, false, joined_at).machine;
    lemma_prepared_entry(joined, unsubscribe, key, u64::MAX - 3);
    lemma_one(joined, unsubscribe, false, left_at, key);
    let left = joined.step(unsubscribe, false, left_at).machine;
    assert(left.entry(key)->0.subs =~= m.met(key).subs);
}

/// The last one to leave starts the removal countdown, for the longest delay
/// that was asked for.
pub proof fn law_leaving_starts_the_countdown<V: ?Sized, F: ?Sized, C>(
    m: MachineModel<V, F, C>,
    ev: Event<V, F, C>,
    now: Instant,
    key: KeyModel,
    sub_id: u64,
    at: Instant,
)
    requires
        m.valid(1),
        ev matches Event::Unsubscribe { key: k, sub_id: id } && k@ == key && id == sub_id,
        m.entry(key) matches Some(e) && e.subscribers == 1 && e.mutation_active == 0 && e.inflight
            is None && now.after(
            gc_time(e.subs.remove(sub_id), e.last_touch_gc_time, m.defaults.gc_time),
        ) == Some(at),
    ensures
        ({
            let step = m.step(ev, false, now);
            let e = step.machine.entry(key)->0;
            &&& step.machine.entry(key) is Some
            &&& e.is_quiescent()
            &&& step.effects.contains(
                EffectModel::ScheduleTimer {
                    key,
                    kind: TimerKind::Gc,
                    at,
                    generation: e.gc_gen,
                },
            )
        }),
{
    lemma_prepared_entry(m, ev, key, u64::MAX - 3);
    lemma_one(m, ev, false, now, key);
    lemma_result(m, ev, false, now, key, u64::MAX - 3);
}

/// The subscribers of every entry are counted right: the count is the number
/// of their options.
pub open spec fn counted<V: ?Sized, F: ?Sized, C>(m: MachineModel<V, F, C>) -> bool {
    forall|i: int|
        0 <= i < m.slots.len() ==> (#[trigger] m.slots[i]).entry.subs.len()
            == m.slots[i].entry.subscribers
}

/// Subscribers stay counted right, as long as only subscriptions that are there
/// end.
pub proof fn law_subscribers_are_counted<
    V: ?Sized,
    F: ?Sized,
    C: Fn(&Arc<V>, &Arc<V>) -> bool,
>(m: MachineModel<V, F, C>, ev: Event<V, F, C>, unchanged: bool, now: Instant)
    requires
        m.valid(1),
        counted(m),
        ev matches Event::Unsubscribe { key, sub_id } ==> (m.entry(key@) matches Some(e)
            ==> e.subs.contains_key(sub_id)),
    ensures
        counted(m.step(ev, unchanged, now).machine),
{
    let after = m.step(ev, unchanged, now).machine;
    if m.collects(ev) {
        let at = m.position(ev->TimerFired_key@);
        assert(m.stands_at(ev->TimerFired_key@, at));
        assert forall|i: int| 0 <= i < after.slots.len() implies #[trigger] after.slots[i]
            == m.slots[if i < at {
            i
        } else {
            i + 1
        }] by {}
    } else {
        let p = m.prepared(ev);
        lemma_prepared_keeps_inv(m, ev, u64::MAX - 3);
        assert forall|i: int| 0 <= i < after.slots.len() implies (
        #[trigger] after.slots[i]).entry.subs.len() == after.slots[i].entry.subscribers by {
            let e = p.slots[i].entry;
            assert(i < m.slots.len() ==> p.slots[i] == m.slots[i]);
            if ev is Unsubscribe && p.slots[i].key == ev->Unsubscribe_key@ {
                assert(m.stands_at(p.slots[i].key, i));
                lemma_position(m, p.slots[i].key, i);
            }
            assert(!(ev is Subscribe) || !e.subs.contains_key(m.next_sub_id));
            lemma_subs_of_reaction(p, i, ev, m.next_sub_id, unchanged, now);
        }
    }
}

/// How a reaction changes the subscribers of an entry.
proof fn lemma_subs_of_reaction<V: ?Sized, F: ?Sized, C>(
    m: MachineModel<V, F, C>,
    i: int,
    ev: Event<V, F, C>,
    sub_id: u64,
    unchanged: bool,
    now: Instant,
)
    requires
        m.slots[i].entry.bounded(u64::MAX - 3),
    ensures
        ({
            let e = m.slots[i].entry;
            let r = m.reaction(i, ev, sub_id, unchanged, now).entry;
            if ev is Subscribe && m.slots[i].key == ev->Subscribe_key@ {
                r.subscribers == e.subscribers + 1 && exists|opts: QueryOptions|
                    r.subs == e.subs.insert(sub_id, opts)
            } else if ev is Unsubscribe && m.slots[i].key == ev->Unsubscribe_key@ {
                &&& r.subs == e.subs.remove(ev->Unsubscribe_sub_id)
                &&& r.subscribers == if e.subscribers > 0 {
                    e.subscribers - 1
                } else {
                    0
                }
            } else {
                r.subs == e.subs && r.subscribers == e.subscribers
            }
        }),
{
}

} // verus!
