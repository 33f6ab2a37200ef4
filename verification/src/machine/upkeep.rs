//! What every event keeps true.

use crate::machine::event::Event;
use crate::machine::model::{EntryModel, Marks, Reaction};
use crate::machine::table::{answers, MachineModel};
use crate::key::KeyModel;
use crate::options::{MutateFlags, QueryOptions, ReadPolicy, SwrEvent};
use crate::time::Instant;
use std::sync::Arc;
use vstd::prelude::*;

verus! {



/// An entry stands in one place only.
pub proof fn lemma_position<V: ?Sized, F: ?Sized, C>(
    m: MachineModel<V, F, C>,
    key: KeyModel,
    i: int,
)
    requires
        m.distinct(),
        m.stands_at(key, i),
    ensures
        m.holds(key),
        m.position(key) == i,
        m.entry(key) == Some(m.slots[i].entry),
{
    let j = m.position(key);
    assert(m.stands_at(key, j));
}

/// The comparator that an event brings for a key.
pub open spec fn brought<V: ?Sized, F: ?Sized, C>(ev: Event<V, F, C>, at: KeyModel) -> Option<
    Arc<C>,
> {
    match ev {
        Event::Read { key, compare, .. } if key@ == at => compare,
        Event::Subscribe { key, compare, .. } if key@ == at => compare,
        _ => None,
    }
}

/// What every table does for an entry: it keeps the invariant, raises the
/// counters by two at most, leaves the incarnation alone, and adds no
/// subscriber but `joined`. The comparator is replaced by `brought`, if that is
/// one. Sequence numbers only grow, and a fetch that is asked for takes a new
/// one. The version stays, and without a notification so does all that is
/// visible.
pub open spec fn kept<V: ?Sized, F: ?Sized, C>(
    e: EntryModel<V, F, C>,
    r: Reaction<V, F, C>,
    limit: int,
    joined: Option<u64>,
    brought: Option<Arc<C>>,
) -> bool {
    &&& r.entry.inv()
    &&& r.entry.bounded(limit + 2)
    &&& r.entry.incarnation == e.incarnation
    &&& r.entry.subs.dom().finite()
    &&& forall|id: u64| #[trigger]
        r.entry.subs.contains_key(id) ==> e.subs.contains_key(id) || joined == Some(id)
    &&& r.entry.compare == if brought is Some {
        brought
    } else {
        e.compare
    }
    &&& e.seq <= r.entry.seq
    &&& r.entry.inflight matches Some(s) ==> e.inflight == Some(s) || s > e.seq
    &&& r.entry.snap_version == e.snap_version
    &&& r.marks.fetch ==> r.entry.inflight == Some(r.entry.seq) && e.seq < r.entry.seq
    &&& !r.marks.notify ==> r.entry.snapshot(0) == e.snapshot(0)
}

/// An entry that an event passes by is kept.
proof fn lemma_idle_kept<V: ?Sized, F: ?Sized, C>(
    e: EntryModel<V, F, C>,
    limit: int,
)
    requires
        e.inv(),
        e.bounded(limit),
        limit + 2 <= u64::MAX,
        e.subs.dom().finite(),
    ensures
        kept(e, e.idle(), limit, None, None),
{
}

/// Reads keep an entry.
proof fn lemma_read_kept<V: ?Sized, F: ?Sized, C>(
    e: EntryModel<V, F, C>,
    policy: ReadPolicy,
    fetcher: Option<Arc<F>>,
    compare: Option<Arc<C>>,
    opts: QueryOptions,
    now: Instant,
    limit: int,
)
    requires
        e.inv(),
        e.bounded(limit),
        limit + 2 <= u64::MAX,
        e.subs.dom().finite(),
    ensures
        kept(e, e.read(policy, fetcher, compare, opts, now).0, limit, None, compare),
{
}

/// Subscriptions keep an entry, and add their own id.
proof fn lemma_subscribe_kept<V: ?Sized, F: ?Sized, C>(
    e: EntryModel<V, F, C>,
    sub_id: u64,
    fetcher: Option<Arc<F>>,
    compare: Option<Arc<C>>,
    opts: QueryOptions,
    now: Instant,
    limit: int,
)
    requires
        e.inv(),
        e.bounded(limit),
        limit + 2 <= u64::MAX,
        e.subs.dom().finite(),
    ensures
        kept(e, e.subscribe(sub_id, fetcher, compare, opts, now), limit, Some(sub_id), compare),
{
}

/// Leaving subscribers keep an entry.
proof fn lemma_unsubscribe_kept<V: ?Sized, F: ?Sized, C>(
    e: EntryModel<V, F, C>,
    sub_id: u64,
    limit: int,
)
    requires
        e.inv(),
        e.bounded(limit),
        limit + 2 <= u64::MAX,
        e.subs.dom().finite(),
    ensures
        kept(e, e.unsubscribe(sub_id), limit, None, None),
{
}

/// Revalidation requests keep an entry.
proof fn lemma_revalidate_kept<V: ?Sized, F: ?Sized, C>(
    e: EntryModel<V, F, C>,
    limit: int,
)
    requires
        e.inv(),
        e.bounded(limit),
        limit + 2 <= u64::MAX,
        e.subs.dom().finite(),
    ensures
        kept(e, e.revalidate(), limit, None, None),
{
}

/// Successful fetches keep an entry, if there is data to be unchanged.
proof fn lemma_commit_ok_kept<V: ?Sized, F: ?Sized, C>(
    e: EntryModel<V, F, C>,
    incarnation: u64,
    seq: u64,
    value: Arc<V>,
    unchanged: bool,
    now: Instant,
    limit: int,
)
    requires
        e.inv(),
        e.bounded(limit),
        limit + 2 <= u64::MAX,
        e.subs.dom().finite(),
        unchanged ==> e.data is Some,
    ensures
        kept(e, e.commit_ok(incarnation, seq, value, unchanged, now), limit, None, None),
{
}

/// Failed fetches keep an entry.
proof fn lemma_commit_err_kept<V: ?Sized, F: ?Sized, C>(
    e: EntryModel<V, F, C>,
    incarnation: u64,
    seq: u64,
    error: Arc<V>,
    limit: int,
)
    requires
        e.inv(),
        e.bounded(limit),
        limit + 2 <= u64::MAX,
        e.subs.dom().finite(),
    ensures
        kept(e, e.commit_err(incarnation, seq, error), limit, None, None),
{
}

/// Local writes keep an entry.
proof fn lemma_set_kept<V: ?Sized, F: ?Sized, C>(
    e: EntryModel<V, F, C>,
    value: Arc<V>,
    now: Instant,
    limit: int,
)
    requires
        e.inv(),
        e.bounded(limit),
        limit + 2 <= u64::MAX,
        e.subs.dom().finite(),
    ensures
        kept(e, e.set(value, now), limit, None, None),
{
}

/// Beginning mutations keep an entry.
proof fn lemma_mutate_begin_kept<V: ?Sized, F: ?Sized, C>(
    e: EntryModel<V, F, C>,
    optimistic: Option<Arc<V>>,
    limit: int,
)
    requires
        e.inv(),
        e.bounded(limit),
        limit + 2 <= u64::MAX,
        e.subs.dom().finite(),
    ensures
        kept(e, e.mutate_begin(optimistic), limit, None, None),
{
}

/// Finished mutations keep an entry.
proof fn lemma_mutate_commit_kept<V: ?Sized, F: ?Sized, C>(
    e: EntryModel<V, F, C>,
    written_seq: Option<u64>,
    result: Result<Option<Arc<V>>, Arc<V>>,
    flags: MutateFlags,
    now: Instant,
    limit: int,
)
    requires
        e.inv(),
        e.bounded(limit),
        limit + 2 <= u64::MAX,
        e.subs.dom().finite(),
    ensures
        kept(e, e.mutate_commit(written_seq, result, flags, now), limit, None, None),
{
}

/// Dropped mutations keep an entry.
proof fn lemma_mutate_abort_kept<V: ?Sized, F: ?Sized, C>(
    e: EntryModel<V, F, C>,
    written_seq: Option<u64>,
    flags: MutateFlags,
    limit: int,
)
    requires
        e.inv(),
        e.bounded(limit),
        limit + 2 <= u64::MAX,
        e.subs.dom().finite(),
    ensures
        kept(e, e.mutate_abort(written_seq, flags), limit, None, None),
{
}

/// Invalidations keep an entry.
proof fn lemma_invalidate_kept<V: ?Sized, F: ?Sized, C>(
    e: EntryModel<V, F, C>,
    limit: int,
)
    requires
        e.inv(),
        e.bounded(limit),
        limit + 2 <= u64::MAX,
        e.subs.dom().finite(),
    ensures
        kept(e, e.invalidate(), limit, None, None),
{
}

/// Environment events keep an entry.
proof fn lemma_broadcast_kept<V: ?Sized, F: ?Sized, C>(
    e: EntryModel<V, F, C>,
    ev: SwrEvent,
    now: Instant,
    defaults: QueryOptions,
    limit: int,
)
    requires
        e.inv(),
        e.bounded(limit),
        limit + 2 <= u64::MAX,
        e.subs.dom().finite(),
    ensures
        kept(e, e.broadcast(ev, now, defaults), limit, None, None),
{
}

/// Refresh timers keep an entry.
proof fn lemma_timer_refresh_kept<V: ?Sized, F: ?Sized, C>(
    e: EntryModel<V, F, C>,
    generation: u64,
    limit: int,
)
    requires
        e.inv(),
        e.bounded(limit),
        limit + 2 <= u64::MAX,
        e.subs.dom().finite(),
    ensures
        kept(e, e.timer_refresh(generation), limit, None, None),
{
}

/// Every reaction keeps the invariant of its entry.
pub proof fn lemma_reaction_kept<V: ?Sized, F: ?Sized, C>(
    m: MachineModel<V, F, C>,
    i: int,
    ev: Event<V, F, C>,
    sub_id: u64,
    unchanged: bool,
    now: Instant,
    limit: int,
)
    requires
        0 <= i < m.slots.len(),
        m.slots[i].entry.inv(),
        m.slots[i].entry.bounded(limit),
        limit + 2 <= u64::MAX,
        m.slots[i].entry.subs.dom().finite(),
        unchanged ==> m.slots[i].entry.data is Some,
    ensures
        kept(
            m.slots[i].entry,
            m.reaction(i, ev, sub_id, unchanged, now),
            limit,
            if ev is Subscribe {
                Some(sub_id)
            } else {
                None
            },
            brought(ev, m.slots[i].key),
        ),
{
    let e = m.slots[i].entry;
    lemma_idle_kept(e, limit);
    match ev {
        Event::Read { key, policy, fetcher, compare, opts } => {
            lemma_read_kept(e, policy, fetcher, compare, opts, now, limit);
        },
        Event::Subscribe { key, fetcher, compare, opts } => {
            lemma_subscribe_kept(e, sub_id, fetcher, compare, opts, now, limit);
        },
        Event::Unsubscribe { key, sub_id } => {
            lemma_unsubscribe_kept(e, sub_id, limit);
        },
        Event::RevalidateRequested { key } => {
            lemma_revalidate_kept(e, limit);
        },
        Event::CommitOk { key, incarnation, seq, value } => {
            lemma_commit_ok_kept(e, incarnation, seq, value, unchanged, now, limit);
        },
        Event::CommitErr { key, incarnation, seq, error } => {
            lemma_commit_err_kept(e, incarnation, seq, error, limit);
        },
        Event::MutateSet { key, value } => {
            lemma_set_kept(e, value, now, limit);
        },
        Event::MutateBegin { key, optimistic } => {
            lemma_mutate_begin_kept(e, optimistic, limit);
        },
        Event::MutateCommit { token, result, flags } => {
            lemma_mutate_commit_kept(e, token.written_seq, result, flags, now, limit);
        },
        Event::MutateAbort { token, flags } => {
            lemma_mutate_abort_kept(e, token.written_seq, flags, limit);
        },
        Event::Invalidate { prefix } => {
            lemma_invalidate_kept(e, limit);
        },
        Event::Broadcast { ev } => {
            lemma_broadcast_kept(e, ev, now, m.defaults, limit);
        },
        Event::TimerFired { key, kind, generation } => {
            lemma_timer_refresh_kept(e, generation, limit);
        },
    }
}

/// The follow-up rules keep the invariant of an entry, raise its counters by
/// one at most, and change nothing but generations and the version.
pub proof fn lemma_settle_keeps_inv<V: ?Sized, F: ?Sized, C>(
    e: EntryModel<V, F, C>,
    key: KeyModel,
    marks: Marks,
    now: Instant,
    defaults: QueryOptions,
    limit: int,
)
    requires
        e.inv(),
        e.bounded(limit),
        limit + 1 <= u64::MAX,
    ensures
        ({
            let s = e.settle(key, marks, now, defaults);
            &&& s.entry.inv()
            &&& s.entry.bounded(limit + 1)
            &&& s.entry == EntryModel {
                gc_gen: s.entry.gc_gen,
                refresh_gen: s.entry.refresh_gen,
                snap_version: s.entry.snap_version,
                ..e
            }
        }),
{
}

/// Making room for an event keeps the invariant of the machine.
pub proof fn lemma_prepared_keeps_inv<V: ?Sized, F: ?Sized, C>(
    m: MachineModel<V, F, C>,
    ev: Event<V, F, C>,
    limit: int,
)
    requires
        m.inv(limit),
        0 <= limit,
        limit + 1 <= u64::MAX,
    ensures
        m.prepared(ev).inv(limit + 1),
        m.prepared(ev).slots.len() >= m.slots.len(),
        forall|i: int| 0 <= i < m.slots.len() ==> m.prepared(ev).slots[i] == #[trigger] m.slots[i],
        ev is Subscribe ==> m.prepared(ev).next_sub_id == m.next_sub_id + 1,
        !(ev is Subscribe) ==> m.prepared(ev).next_sub_id == m.next_sub_id,
        forall|i: int|
            0 <= i < m.prepared(ev).slots.len() ==> (#[trigger] m.prepared(
                ev,
            ).slots[i]).entry.bounded(limit),
        forall|i: int, id: u64|
            0 <= i < m.prepared(ev).slots.len() && #[trigger] m.prepared(
                ev,
            ).slots[i].entry.subs.contains_key(id) ==> id < m.next_sub_id,
{
    let p = m.prepared(ev);
    assert forall|i: int, j: int| 0 <= i < j < p.slots.len() implies (#[trigger] p.slots[i]).key
        != (#[trigger] p.slots[j]).key && p.slots[i].entry.incarnation
        != p.slots[j].entry.incarnation by {
        if j == m.slots.len() {
            assert(m.stands_at(m.slots[i].key, i));
        }
    }
}

/// Every reaction of a prepared machine keeps the invariant of its entry.
pub proof fn lemma_prepared_reaction_kept<
    V: ?Sized,
    F: ?Sized,
    C: Fn(&Arc<V>, &Arc<V>) -> bool,
>(
    m: MachineModel<V, F, C>,
    i: int,
    ev: Event<V, F, C>,
    unchanged: bool,
    now: Instant,
    limit: int,
)
    requires
        m.inv(limit),
        0 <= limit,
        limit + 2 <= u64::MAX,
        answers(m, ev, unchanged),
        0 <= i < m.prepared(ev).slots.len(),
    ensures
        ({
            let p = m.prepared(ev);
            kept(
                p.slots[i].entry,
                p.reaction(i, ev, m.next_sub_id, unchanged, now),
                limit,
                if ev is Subscribe {
                    Some(m.next_sub_id)
                } else {
                    None
                },
                brought(ev, p.slots[i].key),
            )
        }),
{
    lemma_prepared_keeps_inv(m, ev, limit);
    let p = m.prepared(ev);
    let concerned = ev is CommitOk && p.slots[i].key == ev->CommitOk_key@;
    if unchanged && concerned {
        assert(m.stands_at(ev->CommitOk_key@, i));
        let j = m.position(ev->CommitOk_key@);
        assert(m.stands_at(ev->CommitOk_key@, j));
    }
    lemma_reaction_kept(p, i, ev, m.next_sub_id, unchanged && concerned, now, limit);
    assert(p.reaction(i, ev, m.next_sub_id, unchanged, now) == p.reaction(
        i,
        ev,
        m.next_sub_id,
        unchanged && concerned,
        now,
    ));
}

/// Every event keeps the invariant of the machine. It raises the counters by
/// three at most.
pub proof fn law_every_event_keeps_the_invariant<
    V: ?Sized,
    F: ?Sized,
    C: Fn(&Arc<V>, &Arc<V>) -> bool,
>(m: MachineModel<V, F, C>, ev: Event<V, F, C>, unchanged: bool, now: Instant, limit: int)
    requires
        m.inv(limit),
        0 <= limit,
        limit + 3 <= u64::MAX,
        answers(m, ev, unchanged),
    ensures
        m.step(ev, unchanged, now).machine.inv(limit + 3),
{
    if !m.collects(ev) {
        lemma_prepared_keeps_inv(m, ev, limit);
        let p = m.prepared(ev);
        let after = m.step(ev, unchanged, now).machine;
        assert forall|i: int| 0 <= i < after.slots.len() implies {
            let e = (#[trigger] after.slots[i]).entry;
            &&& e.inv()
            &&& e.bounded(limit + 3)
            &&& e.incarnation == p.slots[i].entry.incarnation
            &&& after.slots[i].key == p.slots[i].key
            &&& e.subs.dom().finite()
            &&& forall|id: u64| #[trigger] e.subs.contains_key(id) ==> id < p.next_sub_id
        } by {
            lemma_prepared_reaction_kept(m, i, ev, unchanged, now, limit);
            let r = p.reaction(i, ev, m.next_sub_id, unchanged, now);
            lemma_settle_keeps_inv(r.entry, p.slots[i].key, r.marks, now, p.defaults, limit + 2);
        }
    }
}

} // verus!
