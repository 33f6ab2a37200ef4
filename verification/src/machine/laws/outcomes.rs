//! What events return, what they count, and how their effects are laid out.

use crate::key::KeyModel;
use crate::machine::event::{EffectModel, Event, OutcomeModel, ReadModel, TimerKind};
use crate::machine::laws::steps::{
    lemma_batch_parts, lemma_idle_step, lemma_listed_distinct, lemma_listed_has,
    lemma_prepared_entry, lemma_result,
};
use crate::machine::laws::values::awaited;
use crate::machine::table::{
    answers, countdowns, fetches, listed, notes, ticks, MachineModel,
};
use crate::machine::upkeep::lemma_prepared_keeps_inv;
use crate::options::ReadPolicy;
use crate::time::Instant;
use std::sync::Arc;
use vstd::prelude::*;

verus! {

/// Reads, subscriptions and beginning mutations return something to their caller,
/// each in its own form. Nothing else does.
pub proof fn law_who_gets_an_answer<V: ?Sized, F: ?Sized, C>(
    m: MachineModel<V, F, C>,
    ev: Event<V, F, C>,
    unchanged: bool,
    now: Instant,
)
    requires
        m.valid(1),
    ensures
        ({
            let outcome = m.step(ev, unchanged, now).outcome;
            &&& outcome is Read <==> ev is Read
            &&& outcome is Subscribed <==> ev is Subscribe
            &&& outcome is Mutation <==> ev is MutateBegin
        }),
{
}

/// A cache-only read of a key without an entry comes back empty, and leaves no
/// trace.
pub proof fn law_a_miss_leaves_no_trace<V: ?Sized, F: ?Sized, C>(
    m: MachineModel<V, F, C>,
    ev: Event<V, F, C>,
    unchanged: bool,
    now: Instant,
)
    requires
        m.valid(1),
        ev matches Event::Read { key, policy, .. } && policy == ReadPolicy::CacheOnly && !m.holds(
            key@,
        ),
    ensures
        ({
            let step = m.step(ev, unchanged, now);
            &&& step.outcome matches OutcomeModel::Read(ReadModel::Ready(s)) && {
                &&& s.data is None && s.error is None && s.updated_at is None
                &&& s.data_seq == 0 && s.error_seq == 0 && s.version == 0
                &&& s.inflight is None && !s.is_mutating
            }
            &&& step.machine == m
            &&& step.effects.len() == 0
        }),
{
    let key = ev->Read_key@;
    assert forall|i: int| 0 <= i < m.slots.len() implies #[trigger] m.reaction(
        i,
        ev,
        m.next_sub_id,
        unchanged,
        now,
    ) == m.slots[i].entry.idle() by {
        assert(m.slots[i].key == key ==> m.stands_at(key, i));
    }
    lemma_idle_step(m, ev, unchanged, now);
}

/// The machine counts subscriptions and entries: the one by one with every
/// subscription, the other by one with every entry that is created. The default
/// options never change.
pub proof fn law_what_the_machine_counts<V: ?Sized, F: ?Sized, C>(
    m: MachineModel<V, F, C>,
    ev: Event<V, F, C>,
    unchanged: bool,
    now: Instant,
)
    requires
        m.valid(1),
    ensures
        ({
            let after = m.step(ev, unchanged, now).machine;
            let created = match ev {
                Event::Read { key, policy, .. } => policy != ReadPolicy::CacheOnly && !m.holds(
                    key@,
                ),
                Event::Subscribe { key, .. } => !m.holds(key@),
                Event::MutateSet { key, .. } => !m.holds(key@),
                Event::MutateBegin { key, .. } => !m.holds(key@),
                _ => false,
            };
            &&& after.defaults == m.defaults
            &&& after.next_sub_id == m.next_sub_id + if ev is Subscribe {
                1int
            } else {
                0
            }
            &&& after.next_incarnation == m.next_incarnation + if created {
                1int
            } else {
                0
            }
        }),
{
}

/// A value that was there before is kept in place of a fetched one only if a
/// comparator is stored and says, asked for the two in this order, that they are
/// equal; and where there are a comparator and data, it is what it says that
/// counts.
pub proof fn law_only_the_comparator_keeps_a_value<
    V: ?Sized,
    F: ?Sized,
    C: Fn(&Arc<V>, &Arc<V>) -> bool,
>(m: MachineModel<V, F, C>, ev: Event<V, F, C>, unchanged: bool, key: KeyModel)
    requires
        m.valid(1),
        answers(m, ev, unchanged),
        ev matches Event::CommitOk { key: k, .. } && k@ == key,
    ensures
        match m.entry(key) {
            Some(e) => {
                let asked = awaited(e, ev->CommitOk_incarnation, ev->CommitOk_seq) && e.compare
                    is Some && e.data is Some;
                &&& asked ==> call_ensures(
                    *e.compare->0,
                    (&e.data->0, &ev->CommitOk_value),
                    unchanged,
                )
                &&& !asked ==> !unchanged
            },
            None => !unchanged,
        },
{
}

/// In every batch the removal countdowns come before the refresh ticks.
pub proof fn law_countdowns_come_before_ticks<V: ?Sized, F: ?Sized, C>(
    m: MachineModel<V, F, C>,
    ev: Event<V, F, C>,
    unchanged: bool,
    now: Instant,
    i: int,
    j: int,
)
    requires
        0 <= i < j < m.step(ev, unchanged, now).effects.len(),
        m.step(ev, unchanged, now).effects[j] matches EffectModel::ScheduleTimer { kind, .. }
            && kind == TimerKind::Gc,
    ensures
        !(m.step(ev, unchanged, now).effects[i] matches EffectModel::ScheduleTimer { kind, .. }
            && kind == TimerKind::Refresh),
{
    if !m.collects(ev) {
        let p = m.prepared(ev);
        let reacted = p.reacted(ev, m.next_sub_id, unchanged, now);
        let marks = p.marked(ev, m.next_sub_id, unchanged, now);
        let settled = reacted.settled(marks, now);
        lemma_batch_parts(reacted, marks, now);
        let a = listed(fetches(settled));
        let b = listed(countdowns(settled));
        let c = listed(ticks(settled));
        let d = listed(notes(settled));
        let all = m.step(ev, unchanged, now).effects;
        assert forall|k: int| 0 <= k < b.len() implies (
        #[trigger] b[k])->ScheduleTimer_kind == TimerKind::Gc by {
            assert(b.contains(b[k]));
            lemma_listed_has(countdowns(settled), b[k]);
        }
        assert forall|k: int| 0 <= k < c.len() implies (
        #[trigger] c[k])->ScheduleTimer_kind == TimerKind::Refresh by {
            assert(c.contains(c[k]));
            lemma_listed_has(ticks(settled), c[k]);
        }
        assert(all == a + b + c + d);
        let x = all[j];
        if j < a.len() {
            assert(x == a[j]);
        } else if j < a.len() + b.len() {
            assert(x == b[j - a.len()]);
            if i < a.len() {
                assert(all[i] == a[i]);
            } else {
                assert(all[i] == b[i - a.len()]);
            }
        } else if j < a.len() + b.len() + c.len() {
            assert(x == c[j - a.len() - b.len()]);
        } else {
            assert(x == d[j - a.len() - b.len() - c.len()]);
        }
    }
}

/// A batch schedules one timer of each kind per key at most.
pub proof fn law_one_timer_of_a_kind_per_key<V: ?Sized, F: ?Sized, C>(
    m: MachineModel<V, F, C>,
    ev: Event<V, F, C>,
    unchanged: bool,
    now: Instant,
    i: int,
    j: int,
)
    requires
        m.valid(1),
        0 <= i < j < m.step(ev, unchanged, now).effects.len(),
        m.step(ev, unchanged, now).effects[i] is ScheduleTimer,
        m.step(ev, unchanged, now).effects[j] is ScheduleTimer,
    ensures
        ({
            let x = m.step(ev, unchanged, now).effects[i];
            let y = m.step(ev, unchanged, now).effects[j];
            x->ScheduleTimer_kind != y->ScheduleTimer_kind || x->ScheduleTimer_key
                != y->ScheduleTimer_key
        }),
{
    if !m.collects(ev) {
        let p = m.prepared(ev);
        let reacted = p.reacted(ev, m.next_sub_id, unchanged, now);
        let marks = p.marked(ev, m.next_sub_id, unchanged, now);
        let settled = reacted.settled(marks, now);
        lemma_batch_parts(reacted, marks, now);
        lemma_prepared_keeps_inv(m, ev, u64::MAX - 3);
        let a = listed(fetches(settled));
        let b = listed(countdowns(settled));
        let c = listed(ticks(settled));
        let d = listed(notes(settled));
        let all = m.step(ev, unchanged, now).effects;
        let label = |x: EffectModel<V, F>| x->ScheduleTimer_key;
        let gcs = countdowns(settled);
        let refreshes = ticks(settled);
        assert forall|s: int, t: int|
            0 <= s < t < gcs.len() && (#[trigger] gcs[s]) is Some && (
            #[trigger] gcs[t]) is Some implies label(gcs[s]->0) != label(gcs[t]->0) by {
            assert(p.slots[s].key != p.slots[t].key);
        }
        assert forall|s: int, t: int|
            0 <= s < t < refreshes.len() && (#[trigger] refreshes[s]) is Some && (
            #[trigger] refreshes[t]) is Some implies label(refreshes[s]->0) != label(
            refreshes[t]->0,
        ) by {
            assert(p.slots[s].key != p.slots[t].key);
        }
        lemma_listed_distinct(gcs, label);
        lemma_listed_distinct(refreshes, label);
        assert forall|k: int| 0 <= k < b.len() implies (
        #[trigger] b[k])->ScheduleTimer_kind == TimerKind::Gc by {
            assert(b.contains(b[k]));
            lemma_listed_has(gcs, b[k]);
        }
        assert forall|k: int| 0 <= k < c.len() implies (
        #[trigger] c[k])->ScheduleTimer_kind == TimerKind::Refresh by {
            assert(c.contains(c[k]));
            lemma_listed_has(refreshes, c[k]);
        }
        assert(all == a + b + c + d);
        let n = a.len() as int;
        let o = n + b.len();
        let q = o + c.len();
        assert(i >= n) by {
            if i < n {
                assert(all[i] == a[i]);
            }
        }
        assert(j < q) by {
            if j >= q {
                assert(all[j] == d[j - q]);
            }
        }
        if j < o {
            assert(all[i] == b[i - n] && all[j] == b[j - n]);
            assert(label(b[i - n]) != label(b[j - n]));
        } else if i >= o {
            assert(all[i] == c[i - o] && all[j] == c[j - o]);
            assert(label(c[i - o]) != label(c[j - o]));
        } else {
            assert(all[i] == b[i - n] && all[j] == c[j - o]);
        }
    }
}

/// The removal of an entry asks for nothing.
pub proof fn law_a_removal_asks_for_nothing<V: ?Sized, F: ?Sized, C>(
    m: MachineModel<V, F, C>,
    ev: Event<V, F, C>,
    unchanged: bool,
    now: Instant,
    key: KeyModel,
)
    requires
        m.valid(1),
        m.holds(key),
        !m.step(ev, unchanged, now).machine.holds(key),
    ensures
        m.step(ev, unchanged, now).effects.len() == 0,
{
    if !m.collects(ev) {
        lemma_prepared_entry(m, ev, key, u64::MAX - 3);
        lemma_result(m, ev, unchanged, now, key, u64::MAX - 3);
    }
}

} // verus!
