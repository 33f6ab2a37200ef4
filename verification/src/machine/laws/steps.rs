//! How one entry fares in a step of the whole machine.

use crate::key::KeyModel;
use crate::machine::event::{EffectModel, Event};
use crate::machine::model::{EntryModel, Marks, Reaction, Settled};
use crate::machine::table::{batch, countdowns, fetches, listed, notes, ticks, MachineModel};
use crate::machine::upkeep::{lemma_position, lemma_prepared_keeps_inv};
use crate::options::ReadPolicy;
use crate::time::Instant;
use vstd::prelude::*;

verus! {

// ---- lists ----

/// Whatever is there is listed, and nothing else is.
pub proof fn lemma_listed_has<A>(items: Seq<Option<A>>, x: A)
    ensures
        listed(items).contains(x) <==> items.contains(Some(x)),
    decreases items.len(),
{
    if items.len() > 0 {
        let rest = items.drop_last();
        lemma_listed_has(rest, x);
        let all = listed(items);
        let before = listed(rest);
        if items.contains(Some(x)) {
            let i = choose|i: int| 0 <= i < items.len() && items[i] == Some(x);
            if i < rest.len() {
                assert(rest[i] == Some(x));
                let k = choose|k: int| 0 <= k < before.len() && before[k] == x;
                assert(all[k] == x);
            } else {
                assert(all[all.len() - 1] == x);
            }
        }
        if all.contains(x) {
            let k = choose|k: int| 0 <= k < all.len() && all[k] == x;
            if k < before.len() {
                assert(before[k] == x);
                let i = choose|i: int| 0 <= i < rest.len() && rest[i] == Some(x);
                assert(items[i] == Some(x));
            } else {
                assert(items[items.len() - 1] == Some(x));
            }
        }
    }
}

/// When the items that are there have labels of their own, so have the listed
/// ones.
pub proof fn lemma_listed_distinct<A, L>(items: Seq<Option<A>>, label: spec_fn(A) -> L)
    requires
        forall|i: int, j: int|
            0 <= i < j < items.len() && (#[trigger] items[i]) is Some && (
            #[trigger] items[j]) is Some ==> label(items[i]->0) != label(items[j]->0),
    ensures
        forall|i: int, j: int|
            0 <= i < j < listed(items).len() ==> label(#[trigger] listed(items)[i]) != label(
                #[trigger] listed(items)[j],
            ),
    decreases items.len(),
{
    if items.len() > 0 {
        let rest = items.drop_last();
        lemma_listed_distinct(rest, label);
        let all = listed(items);
        let before = listed(rest);
        assert forall|i: int, j: int| 0 <= i < j < all.len() implies label(#[trigger] all[i])
            != label(#[trigger] all[j]) by {
            assert(all[i] == before[i]);
            if j < before.len() {
                assert(all[j] == before[j]);
            } else {
                assert(before.contains(before[i]));
                lemma_listed_has(rest, before[i]);
                let k = choose|k: int| 0 <= k < rest.len() && rest[k] == Some(before[i]);
                assert(items[k] == Some(all[i]));
                assert(items[items.len() - 1] == Some(all[j]));
            }
        }
    }
}

/// Nothing is listed when nothing is there.
pub proof fn lemma_listed_none<A>(items: Seq<Option<A>>)
    requires
        forall|i: int| 0 <= i < items.len() ==> (#[trigger] items[i]) is None,
    ensures
        listed(items).len() == 0,
    decreases items.len(),
{
    if items.len() > 0 {
        lemma_listed_none(items.drop_last());
    }
}

// ---- one entry in a step ----

impl<V: ?Sized, F: ?Sized, C> MachineModel<V, F, C> {
    /// How the entry of `key` reacts to an event.
    pub open spec fn response(
        self,
        key: KeyModel,
        ev: Event<V, F, C>,
        unchanged: bool,
        now: Instant,
    ) -> Reaction<V, F, C> {
        let p = self.prepared(ev);
        p.reaction(p.position(key), ev, self.next_sub_id, unchanged, now)
    }

    /// What the entry of `key` comes to in a step.
    pub open spec fn result(
        self,
        key: KeyModel,
        ev: Event<V, F, C>,
        unchanged: bool,
        now: Instant,
    ) -> Settled<V, F, C> {
        let r = self.response(key, ev, unchanged, now);
        r.entry.settle(key, r.marks, now, self.defaults)
    }
}

/// The key that an event creates an entry for, if there is none.
pub open spec fn makes_room<V: ?Sized, F: ?Sized, C>(ev: Event<V, F, C>) -> Option<KeyModel> {
    match ev {
        Event::Read { key, policy, .. } => if policy == ReadPolicy::CacheOnly {
            None
        } else {
            Some(key@)
        },
        Event::Subscribe { key, .. } => Some(key@),
        Event::MutateSet { key, .. } => Some(key@),
        Event::MutateBegin { key, .. } => Some(key@),
        _ => None,
    }
}

/// Making room leaves the entries that are there alone, and adds at most one
/// that nothing has happened to.
pub proof fn lemma_prepared_entry<V: ?Sized, F: ?Sized, C>(
    m: MachineModel<V, F, C>,
    ev: Event<V, F, C>,
    key: KeyModel,
    limit: int,
)
    requires
        m.inv(limit),
        0 <= limit,
        limit + 3 <= u64::MAX,
    ensures
        m.prepared(ev).distinct(),
        m.prepared(ev).defaults == m.defaults,
        m.holds(key) ==> m.prepared(ev).holds(key) && m.prepared(ev).entry(key) == m.entry(key),
        makes_room(ev) == Some(key) ==> m.prepared(ev).holds(key),
        !m.holds(key) && m.prepared(ev).holds(key) ==> m.prepared(ev).entry(key) == Some(
            EntryModel::<V, F, C>::fresh(m.next_incarnation),
        ),
        m.entered(key).holds(key),
        m.entered(key).entry(key) == if m.holds(key) {
            m.entry(key)
        } else {
            Some(EntryModel::<V, F, C>::fresh(m.next_incarnation))
        },
{
    lemma_prepared_keeps_inv(m, ev, limit);
    let p = m.prepared(ev);
    if m.holds(key) {
        let i = m.position(key);
        assert(m.stands_at(key, i));
        assert(p.slots[i] == m.slots[i]);
        assert(p.stands_at(key, i));
        lemma_position(p, key, i);
        lemma_position(m, key, i);
    } else {
        let e = m.entered(key);
        let n = m.slots.len() as int;
        assert(e.stands_at(key, n));
        assert forall|i: int, j: int| 0 <= i < j < e.slots.len() implies (
        #[trigger] e.slots[i]).key != (#[trigger] e.slots[j]).key by {
            if j == n {
                assert(m.slots[i].key == key ==> m.stands_at(key, i));
            }
        }
        lemma_position(e, key, n);
        if makes_room(ev) == Some(key) {
            assert(p.stands_at(key, n));
        }
        if p.holds(key) {
            let i = p.position(key);
            assert(p.stands_at(key, i));
            if i < n {
                assert(p.slots[i] == m.slots[i]);
                assert(m.stands_at(key, i));
            }
        }
    }
}

/// What a step makes of one entry, and of the effects that it asks for.
pub proof fn lemma_result<V: ?Sized, F: ?Sized, C>(
    m: MachineModel<V, F, C>,
    ev: Event<V, F, C>,
    unchanged: bool,
    now: Instant,
    key: KeyModel,
    limit: int,
)
    requires
        m.inv(limit),
        0 <= limit,
        limit + 3 <= u64::MAX,
        !m.collects(ev),
    ensures
        ({
            let p = m.prepared(ev);
            let step = m.step(ev, unchanged, now);
            let s = m.result(key, ev, unchanged, now);
            &&& step.machine.holds(key) == p.holds(key)
            &&& p.holds(key) ==> {
                &&& step.machine.entry(key) == Some(s.entry)
                &&& s.fetch matches Some(x) ==> step.effects.contains(x)
                &&& s.gc matches Some(x) ==> step.effects.contains(x)
                &&& s.refresh matches Some(x) ==> step.effects.contains(x)
                &&& s.note matches Some(x) ==> step.effects.contains(x)
            }
        }),
{
    lemma_prepared_keeps_inv(m, ev, limit);
    let p = m.prepared(ev);
    let step = m.step(ev, unchanged, now);
    let after = step.machine;
    let reacted = p.reacted(ev, m.next_sub_id, unchanged, now);
    let marks = p.marked(ev, m.next_sub_id, unchanged, now);
    let settled = reacted.settled(marks, now);
    if after.holds(key) {
        let i = after.position(key);
        assert(after.stands_at(key, i));
        assert(p.stands_at(key, i));
    }
    if p.holds(key) {
        let i = p.position(key);
        assert(p.stands_at(key, i));
        assert(after.stands_at(key, i));
        assert(after.distinct()) by {
            assert forall|a: int, b: int| 0 <= a < b < after.slots.len() implies (
            #[trigger] after.slots[a]).key != (#[trigger] after.slots[b]).key by {
                assert(p.slots[a].key != p.slots[b].key);
            }
        }
        lemma_position(after, key, i);
        let s = settled[i];
        assert(s == m.result(key, ev, unchanged, now));
        lemma_batch_has(settled, i);
    }
}

/// The effects that a settled entry asks for are in the batch.
pub proof fn lemma_batch_has<V: ?Sized, F: ?Sized, C>(settled: Seq<Settled<V, F, C>>, i: int)
    requires
        0 <= i < settled.len(),
    ensures
        settled[i].fetch matches Some(x) ==> batch(settled).contains(x),
        settled[i].gc matches Some(x) ==> batch(settled).contains(x),
        settled[i].refresh matches Some(x) ==> batch(settled).contains(x),
        settled[i].note matches Some(x) ==> batch(settled).contains(x),
{
    let a = listed(fetches(settled));
    let b = listed(countdowns(settled));
    let c = listed(ticks(settled));
    let d = listed(notes(settled));
    let all = batch(settled);
    assert(fetches(settled)[i] == settled[i].fetch);
    assert(countdowns(settled)[i] == settled[i].gc);
    assert(ticks(settled)[i] == settled[i].refresh);
    assert(notes(settled)[i] == settled[i].note);
    if let Some(x) = settled[i].fetch {
        lemma_listed_has(fetches(settled), x);
        let k = choose|k: int| 0 <= k < a.len() && a[k] == x;
        assert(all[k] == x);
    }
    if let Some(x) = settled[i].gc {
        lemma_listed_has(countdowns(settled), x);
        let k = choose|k: int| 0 <= k < b.len() && b[k] == x;
        assert(all[a.len() + k] == x);
    }
    if let Some(x) = settled[i].refresh {
        lemma_listed_has(ticks(settled), x);
        let k = choose|k: int| 0 <= k < c.len() && c[k] == x;
        assert(all[a.len() + b.len() + k] == x);
    }
    if let Some(x) = settled[i].note {
        lemma_listed_has(notes(settled), x);
        let k = choose|k: int| 0 <= k < d.len() && d[k] == x;
        assert(all[a.len() + b.len() + c.len() + k] == x);
    }
}

/// Whatever stands in the batch, a settled entry asks for.
pub proof fn lemma_batch_from<V: ?Sized, F: ?Sized, C>(
    settled: Seq<Settled<V, F, C>>,
    x: EffectModel<V, F>,
)
    requires
        batch(settled).contains(x),
    ensures
        exists|i: int|
            0 <= i < settled.len() && {
                let s = #[trigger] settled[i];
                s.fetch == Some(x) || s.gc == Some(x) || s.refresh == Some(x) || s.note == Some(x)
            },
{
    let a = listed(fetches(settled));
    let b = listed(countdowns(settled));
    let c = listed(ticks(settled));
    let d = listed(notes(settled));
    let all = batch(settled);
    let k = choose|k: int| 0 <= k < all.len() && all[k] == x;
    if k < a.len() {
        assert(a[k] == x);
        lemma_listed_has(fetches(settled), x);
        let i = choose|i: int| 0 <= i < settled.len() && fetches(settled)[i] == Some(x);
        assert(settled[i].fetch == Some(x));
    } else if k < a.len() + b.len() {
        assert(b[k - a.len()] == x);
        lemma_listed_has(countdowns(settled), x);
        let i = choose|i: int| 0 <= i < settled.len() && countdowns(settled)[i] == Some(x);
        assert(settled[i].gc == Some(x));
    } else if k < a.len() + b.len() + c.len() {
        assert(c[k - a.len() - b.len()] == x);
        lemma_listed_has(ticks(settled), x);
        let i = choose|i: int| 0 <= i < settled.len() && ticks(settled)[i] == Some(x);
        assert(settled[i].refresh == Some(x));
    } else {
        assert(d[k - a.len() - b.len() - c.len()] == x);
        lemma_listed_has(notes(settled), x);
        let i = choose|i: int| 0 <= i < settled.len() && notes(settled)[i] == Some(x);
        assert(settled[i].note == Some(x));
    }
}

/// The parts of a batch hold what their names say.
pub proof fn lemma_batch_parts<V: ?Sized, F: ?Sized, C>(
    m: MachineModel<V, F, C>,
    marks: Seq<Marks>,
    now: Instant,
)
    ensures
        ({
            let settled = m.settled(marks, now);
            let a = listed(fetches(settled));
            let b = listed(countdowns(settled));
            let c = listed(ticks(settled));
            let d = listed(notes(settled));
            &&& forall|k: int| 0 <= k < a.len() ==> (#[trigger] a[k]) is StartFetch
            &&& forall|k: int| 0 <= k < b.len() ==> (#[trigger] b[k]) is ScheduleTimer
            &&& forall|k: int| 0 <= k < c.len() ==> (#[trigger] c[k]) is ScheduleTimer
            &&& forall|k: int| 0 <= k < d.len() ==> (#[trigger] d[k]) is Notify
        }),
{
    let settled = m.settled(marks, now);
    let a = listed(fetches(settled));
    let b = listed(countdowns(settled));
    let c = listed(ticks(settled));
    let d = listed(notes(settled));
    assert forall|k: int| 0 <= k < a.len() implies (#[trigger] a[k]) is StartFetch by {
        assert(a.contains(a[k]));
        lemma_listed_has(fetches(settled), a[k]);
    }
    assert forall|k: int| 0 <= k < b.len() implies (#[trigger] b[k]) is ScheduleTimer by {
        assert(b.contains(b[k]));
        lemma_listed_has(countdowns(settled), b[k]);
    }
    assert forall|k: int| 0 <= k < c.len() implies (#[trigger] c[k]) is ScheduleTimer by {
        assert(c.contains(c[k]));
        lemma_listed_has(ticks(settled), c[k]);
    }
    assert forall|k: int| 0 <= k < d.len() implies (#[trigger] d[k]) is Notify by {
        assert(d.contains(d[k]));
        lemma_listed_has(notes(settled), d[k]);
    }
}

/// What the effects of a step say of the entries they belong to.
pub proof fn lemma_effect_origin<V: ?Sized, F: ?Sized, C>(
    m: MachineModel<V, F, C>,
    ev: Event<V, F, C>,
    unchanged: bool,
    now: Instant,
    x: EffectModel<V, F>,
) -> (key: KeyModel)
    requires
        m.valid(1),
        m.step(ev, unchanged, now).effects.contains(x),
    ensures
        !m.collects(ev),
        m.prepared(ev).holds(key),
        ({
            let s = m.result(key, ev, unchanged, now);
            s.fetch == Some(x) || s.gc == Some(x) || s.refresh == Some(x) || s.note == Some(x)
        }),
{
    let p = m.prepared(ev);
    let reacted = p.reacted(ev, m.next_sub_id, unchanged, now);
    let marks = p.marked(ev, m.next_sub_id, unchanged, now);
    let settled = reacted.settled(marks, now);
    lemma_batch_from(settled, x);
    let i = choose|i: int|
        0 <= i < settled.len() && {
            let s = #[trigger] settled[i];
            s.fetch == Some(x) || s.gc == Some(x) || s.refresh == Some(x) || s.note == Some(x)
        };
    let key = p.slots[i].key;
    lemma_prepared_keeps_inv(m, ev, u64::MAX - 3);
    assert(p.stands_at(key, i));
    lemma_position(p, key, i);
    assert(settled[i] == m.result(key, ev, unchanged, now));
    key
}

/// Removing one entry leaves the others alone.
pub proof fn lemma_removal<V: ?Sized, F: ?Sized, C>(
    m: MachineModel<V, F, C>,
    gone: KeyModel,
    key: KeyModel,
)
    requires
        m.distinct(),
        m.holds(gone),
    ensures
        m.without(gone).distinct(),
        !m.without(gone).holds(gone),
        key != gone ==> m.without(gone).entry(key) == m.entry(key),
{
    let at = m.position(gone);
    assert(m.stands_at(gone, at));
    let w = m.without(gone);
    assert forall|i: int| 0 <= i < w.slots.len() implies #[trigger] w.slots[i] == m.slots[if i
        < at {
        i
    } else {
        i + 1
    }] by {}
    assert forall|i: int, j: int| 0 <= i < j < w.slots.len() implies (#[trigger] w.slots[i]).key
        != (#[trigger] w.slots[j]).key by {}
    if w.holds(gone) {
        let i = w.position(gone);
        assert(w.stands_at(gone, i));
    }
    if key != gone {
        if m.holds(key) {
            let i = m.position(key);
            assert(m.stands_at(key, i));
            let j = if i < at {
                i
            } else {
                i - 1
            };
            assert(w.slots[j] == m.slots[i]);
            assert(w.stands_at(key, j));
            lemma_position(w, key, j);
        } else if w.holds(key) {
            let j = w.position(key);
            assert(w.stands_at(key, j));
            let i = if j < at {
                j
            } else {
                j + 1
            };
            assert(m.stands_at(key, i));
        }
    }
}

/// When no entry reacts, a step changes nothing and asks for nothing.
pub proof fn lemma_idle_step<V: ?Sized, F: ?Sized, C>(
    m: MachineModel<V, F, C>,
    ev: Event<V, F, C>,
    unchanged: bool,
    now: Instant,
)
    requires
        !m.collects(ev),
        m.prepared(ev) == m,
        forall|i: int|
            0 <= i < m.slots.len() ==> #[trigger] m.reaction(
                i,
                ev,
                m.next_sub_id,
                unchanged,
                now,
            ) == m.slots[i].entry.idle(),
    ensures
        m.step(ev, unchanged, now).machine == m,
        m.step(ev, unchanged, now).effects.len() == 0,
{
    let reacted = m.reacted(ev, m.next_sub_id, unchanged, now);
    let marks = m.marked(ev, m.next_sub_id, unchanged, now);
    let settled = reacted.settled(marks, now);
    assert forall|i: int| 0 <= i < settled.len() implies {
        let s = #[trigger] settled[i];
        s.entry == m.slots[i].entry && s.fetch is None && s.gc is None && s.refresh is None
            && s.note is None
    } by {
        assert(m.reaction(i, ev, m.next_sub_id, unchanged, now) == m.slots[i].entry.idle());
    }
    lemma_listed_none(fetches(settled));
    lemma_listed_none(countdowns(settled));
    lemma_listed_none(ticks(settled));
    lemma_listed_none(notes(settled));
    assert(m.step(ev, unchanged, now).machine.slots =~= m.slots);
}

/// A higher limit asks less.
pub proof fn lemma_inv_widens<V: ?Sized, F: ?Sized, C>(
    m: MachineModel<V, F, C>,
    limit: int,
    wider: int,
)
    requires
        m.inv(limit),
        limit <= wider,
    ensures
        m.inv(wider),
{
}

impl<V: ?Sized, F: ?Sized, C> MachineModel<V, F, C> {
    /// The entry that an event about `key` meets: the one that is there, or a
    /// new one.
    pub open spec fn met(self, key: KeyModel) -> EntryModel<V, F, C> {
        self.entered(key).entry(key)->0
    }
}

/// What a step about one key makes of its entry, where the event finds or
/// creates one.
pub proof fn lemma_one<V: ?Sized, F: ?Sized, C>(
    m: MachineModel<V, F, C>,
    ev: Event<V, F, C>,
    unchanged: bool,
    now: Instant,
    key: KeyModel,
)
    requires
        m.valid(1),
        !m.collects(ev),
        m.prepared(ev).holds(key),
    ensures
        ({
            let p = m.prepared(ev);
            let i = p.position(key);
            &&& 0 <= i < p.slots.len()
            &&& p.slots[i].key == key
            &&& p.slots[i].entry == m.met(key)
            &&& p.slots[i].entry.inv()
            &&& p.slots[i].entry.bounded(u64::MAX - 3)
            &&& m.met(key) == if m.holds(key) {
                m.entry(key)->0
            } else {
                EntryModel::fresh(m.next_incarnation)
            }
            &&& m.step(ev, unchanged, now).machine.entry(key) == Some(
                m.result(key, ev, unchanged, now).entry,
            )
        }),
{
    let p = m.prepared(ev);
    let i = p.position(key);
    assert(p.stands_at(key, i));
    lemma_prepared_keeps_inv(m, ev, u64::MAX - 3);
    lemma_prepared_entry(m, ev, key, u64::MAX - 3);
    lemma_result(m, ev, unchanged, now, key, u64::MAX - 3);
    lemma_position(p, key, i);
}

} // verus!
