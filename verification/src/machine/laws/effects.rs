//! What the effects of an event look like.

use crate::key::KeyModel;
use crate::machine::event::{EffectModel, Event};
use crate::machine::laws::steps::{
    lemma_batch_parts, lemma_effect_origin, lemma_listed_distinct, lemma_prepared_entry,
    lemma_removal, lemma_result,
};
use crate::machine::table::{answers, countdowns, fetches, listed, notes, ticks, MachineModel};
use crate::machine::upkeep::{lemma_prepared_keeps_inv, lemma_prepared_reaction_kept};
use crate::snapshot::Snapshot;
use crate::time::Instant;
use std::sync::Arc;
use vstd::prelude::*;

verus! {

/// In every batch the fetches come first: whatever stands before a fetch is a
/// fetch. In particular no fetch follows a notification.
pub proof fn law_fetches_come_first<V: ?Sized, F: ?Sized, C>(
    m: MachineModel<V, F, C>,
    ev: Event<V, F, C>,
    unchanged: bool,
    now: Instant,
    i: int,
    j: int,
)
    requires
        0 <= i < j < m.step(ev, unchanged, now).effects.len(),
        m.step(ev, unchanged, now).effects[j] is StartFetch,
    ensures
        m.step(ev, unchanged, now).effects[i] is StartFetch,
{
    let p = m.prepared(ev);
    lemma_batch_parts(
        p.reacted(ev, m.next_sub_id, unchanged, now),
        p.marked(ev, m.next_sub_id, unchanged, now),
        now,
    );
}

/// In every batch the notifications come last: whatever follows one is one.
pub proof fn law_notifications_come_last<V: ?Sized, F: ?Sized, C>(
    m: MachineModel<V, F, C>,
    ev: Event<V, F, C>,
    unchanged: bool,
    now: Instant,
    i: int,
    j: int,
)
    requires
        0 <= i < j < m.step(ev, unchanged, now).effects.len(),
        m.step(ev, unchanged, now).effects[i] is Notify,
    ensures
        m.step(ev, unchanged, now).effects[j] is Notify,
{
    let p = m.prepared(ev);
    lemma_batch_parts(
        p.reacted(ev, m.next_sub_id, unchanged, now),
        p.marked(ev, m.next_sub_id, unchanged, now),
        now,
    );
}

/// A batch notifies each entry once at most.
pub proof fn law_one_notification_per_entry<
    V: ?Sized,
    F: ?Sized,
    C: Fn(&Arc<V>, &Arc<V>) -> bool,
>(
    m: MachineModel<V, F, C>,
    ev: Event<V, F, C>,
    unchanged: bool,
    now: Instant,
    i: int,
    j: int,
)
    requires
        m.valid(1),
        answers(m, ev, unchanged),
        0 <= i < j < m.step(ev, unchanged, now).effects.len(),
        m.step(ev, unchanged, now).effects[i] is Notify,
        m.step(ev, unchanged, now).effects[j] is Notify,
    ensures
        m.step(ev, unchanged, now).effects[i]->Notify_incarnation != m.step(
            ev,
            unchanged,
            now,
        ).effects[j]->Notify_incarnation,
{
    if !m.collects(ev) {
        let p = m.prepared(ev);
        let reacted = p.reacted(ev, m.next_sub_id, unchanged, now);
        let marks = p.marked(ev, m.next_sub_id, unchanged, now);
        let settled = reacted.settled(marks, now);
        let items = notes(settled);
        let label = |x: EffectModel<V, F>| x->Notify_incarnation;
        lemma_batch_parts(reacted, marks, now);
        lemma_prepared_keeps_inv(m, ev, u64::MAX - 3);
        assert forall|a: int, b: int|
            0 <= a < b < items.len() && (#[trigger] items[a]) is Some && (
            #[trigger] items[b]) is Some implies label(items[a]->0) != label(items[b]->0) by {
            lemma_prepared_reaction_kept(m, a, ev, unchanged, now, u64::MAX - 3);
            lemma_prepared_reaction_kept(m, b, ev, unchanged, now, u64::MAX - 3);
            assert(p.slots[a].entry.incarnation != p.slots[b].entry.incarnation);
        }
        lemma_listed_distinct(items, label);
        let before = listed(fetches(settled)) + listed(countdowns(settled)) + listed(
            ticks(settled),
        );
        let n = before.len() as int;
        let all = m.step(ev, unchanged, now).effects;
        assert(all =~= before + listed(items));
        assert(all[i] == listed(items)[i - n]);
        assert(all[j] == listed(items)[j - n]);
    }
}

/// A batch starts one fetch per key at most.
pub proof fn law_one_fetch_per_key<V: ?Sized, F: ?Sized, C>(
    m: MachineModel<V, F, C>,
    ev: Event<V, F, C>,
    unchanged: bool,
    now: Instant,
    i: int,
    j: int,
)
    requires
        m.valid(1),
        0 <= i < j < m.step(ev, unchanged, now).effects.len(),
        m.step(ev, unchanged, now).effects[i] is StartFetch,
        m.step(ev, unchanged, now).effects[j] is StartFetch,
    ensures
        m.step(ev, unchanged, now).effects[i]->StartFetch_key != m.step(
            ev,
            unchanged,
            now,
        ).effects[j]->StartFetch_key,
{
    if !m.collects(ev) {
        let p = m.prepared(ev);
        let reacted = p.reacted(ev, m.next_sub_id, unchanged, now);
        let marks = p.marked(ev, m.next_sub_id, unchanged, now);
        let settled = reacted.settled(marks, now);
        let items = fetches(settled);
        let label = |x: EffectModel<V, F>| x->StartFetch_key;
        lemma_batch_parts(reacted, marks, now);
        lemma_prepared_keeps_inv(m, ev, u64::MAX - 3);
        assert forall|a: int, b: int|
            0 <= a < b < items.len() && (#[trigger] items[a]) is Some && (
            #[trigger] items[b]) is Some implies label(items[a]->0) != label(items[b]->0) by {
            assert(p.slots[a].key != p.slots[b].key);
        }
        lemma_listed_distinct(items, label);
        let all = m.step(ev, unchanged, now).effects;
        assert(all[i] == listed(items)[i]);
        assert(all[j] == listed(items)[j]);
    }
}

/// A notification carries the state that its entry has after the step, under
/// the version that the entry has then: the next one, the first of an entry that
/// the step creates being one.
pub proof fn law_notification_is_the_current_state<
    V: ?Sized,
    F: ?Sized,
    C: Fn(&Arc<V>, &Arc<V>) -> bool,
>(
    m: MachineModel<V, F, C>,
    ev: Event<V, F, C>,
    unchanged: bool,
    now: Instant,
    incarnation: u64,
    snapshot: Snapshot<V, V>,
) -> (key: KeyModel)
    requires
        m.valid(1),
        answers(m, ev, unchanged),
        m.step(ev, unchanged, now).effects.contains(
            EffectModel::Notify { incarnation, snapshot },
        ),
    ensures
        m.step(ev, unchanged, now).machine.entry(key) matches Some(e) && e.incarnation
            == incarnation && e.snapshot_now() == snapshot,
        m.entry(key) matches Some(e) ==> snapshot.version == e.snap_version + 1,
        m.entry(key) is None ==> snapshot.version == 1,
{
    let x = EffectModel::Notify { incarnation, snapshot };
    let key = lemma_effect_origin(m, ev, unchanged, now, x);
    let p = m.prepared(ev);
    let i = p.position(key);
    assert(p.stands_at(key, i));
    lemma_result(m, ev, unchanged, now, key, u64::MAX - 3);
    lemma_prepared_entry(m, ev, key, u64::MAX - 3);
    lemma_prepared_reaction_kept(m, i, ev, unchanged, now, u64::MAX - 3);
    key
}

/// A visible change is published: when the state of an entry differs after a
/// step, the batch carries the new one.
pub proof fn law_visible_changes_are_published<
    V: ?Sized,
    F: ?Sized,
    C: Fn(&Arc<V>, &Arc<V>) -> bool,
>(
    m: MachineModel<V, F, C>,
    ev: Event<V, F, C>,
    unchanged: bool,
    now: Instant,
    key: KeyModel,
)
    requires
        m.valid(1),
        answers(m, ev, unchanged),
        m.entry(key) is Some,
        m.step(ev, unchanged, now).machine.entry(key) is Some,
    ensures
        ({
            let before = m.entry(key)->0;
            let after = m.step(ev, unchanged, now).machine.entry(key)->0;
            before.snapshot(0) != after.snapshot(0) ==> m.step(
                ev,
                unchanged,
                now,
            ).effects.contains(
                EffectModel::Notify {
                    incarnation: after.incarnation,
                    snapshot: after.snapshot_now(),
                },
            )
        }),
{
    if m.collects(ev) {
        lemma_removal(m, ev->TimerFired_key@, key);
    } else {
        let p = m.prepared(ev);
        lemma_prepared_entry(m, ev, key, u64::MAX - 3);
        lemma_result(m, ev, unchanged, now, key, u64::MAX - 3);
        let i = p.position(key);
        assert(p.stands_at(key, i));
        lemma_prepared_reaction_kept(m, i, ev, unchanged, now, u64::MAX - 3);
    }
}

} // verus!
