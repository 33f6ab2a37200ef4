//! Why a waiting reader finds what it waits for.

use crate::key::KeyModel;
use crate::machine::event::{EffectModel, Event, OutcomeModel};
use crate::machine::model::{EntryModel, Marks};
use crate::machine::laws::races::{law_every_run_keeps_the_invariant, Input};
use crate::machine::laws::reach::subject;
use crate::machine::laws::steps::{
    lemma_inv_widens, lemma_one, lemma_prepared_entry, lemma_removal, lemma_result,
};
use crate::machine::table::{answers, MachineModel};
use crate::machine::upkeep::law_every_event_keeps_the_invariant;
use crate::options::{MutateFlags, QueryOptions};
use crate::snapshot::Snapshot;
use crate::time::Instant;
use std::sync::Arc;
use crate::machine::laws::effects::law_notification_is_the_current_state;
use vstd::multiset::Multiset;
use vstd::prelude::*;

verus! {

/// The mutations in progress, by key: the tickets that were handed out and not
/// yet handed back.
pub struct Tickets {
    /// Sequence numbers of the optimistic writes, one item per mutation.
    pub live: Map<KeyModel, Multiset<Option<u64>>>,
}

impl Tickets {
    /// No mutation is in progress.
    pub open spec fn none() -> Self {
        Tickets { live: Map::empty() }
    }

    /// The tickets of one key.
    pub open spec fn of(self, key: KeyModel) -> Multiset<Option<u64>> {
        if self.live.contains_key(key) {
            self.live[key]
        } else {
            Multiset::empty()
        }
    }

    /// The event hands back a ticket that was handed out, if it hands one back.
    pub open spec fn honest<V: ?Sized, F: ?Sized, C>(self, ev: Event<V, F, C>) -> bool {
        match ev {
            Event::MutateCommit { token, .. } => self.of(token.key@).count(token.written_seq) > 0,
            Event::MutateAbort { token, .. } => self.of(token.key@).count(token.written_seq) > 0,
            _ => true,
        }
    }

    /// The tickets after an event with its outcome.
    pub open spec fn after<V: ?Sized, F: ?Sized, C>(
        self,
        ev: Event<V, F, C>,
        outcome: OutcomeModel<V>,
    ) -> Self {
        match ev {
            Event::MutateBegin { key, .. } => Tickets {
                live: self.live.insert(
                    key@,
                    self.of(key@).insert(outcome->Mutation_written_seq),
                ),
            },
            Event::MutateCommit { token, .. } => Tickets {
                live: self.live.insert(
                    token.key@,
                    self.of(token.key@).remove(token.written_seq),
                ),
            },
            Event::MutateAbort { token, .. } => Tickets {
                live: self.live.insert(
                    token.key@,
                    self.of(token.key@).remove(token.written_seq),
                ),
            },
            _ => self,
        }
    }

    /// The tickets after a run of events.
    pub open spec fn through<V: ?Sized, F: ?Sized, C: Fn(&Arc<V>, &Arc<V>) -> bool>(
        self,
        m: MachineModel<V, F, C>,
        inputs: Seq<Input<V, F, C>>,
    ) -> Self
        decreases inputs.len(),
    {
        if inputs.len() == 0 {
            self
        } else {
            let x = inputs.last();
            let rest = inputs.drop_last();
            self.through(m, rest).after(
                x.ev,
                m.run(rest).step(x.ev, x.unchanged, x.now).outcome,
            )
        }
    }

    /// Every event of the run hands back only what was handed out, and each
    /// ticket once.
    pub open spec fn honest_throughout<V: ?Sized, F: ?Sized, C: Fn(&Arc<V>, &Arc<V>) -> bool>(
        self,
        m: MachineModel<V, F, C>,
        inputs: Seq<Input<V, F, C>>,
    ) -> bool
        decreases inputs.len(),
    {
        inputs.len() > 0 ==> {
            &&& self.honest_throughout(m, inputs.drop_last())
            &&& self.through(m, inputs.drop_last()).honest(inputs.last().ev)
        }
    }
}

/// An entry agrees with the tickets handed out for it: it counts them, and the
/// kept snapshot belongs to one of them. What its numbers announce is there,
/// now and after a rollback.
pub open spec fn agrees<V: ?Sized, F: ?Sized, C>(
    e: EntryModel<V, F, C>,
    live: Multiset<Option<u64>>,
) -> bool {
    &&& live.len() == e.mutation_active
    &&& e.error_seq > e.data_seq ==> e.error is Some
    &&& e.optimistic matches Some(o) ==> {
        &&& live.count(Some(o.written_seq)) > 0
        &&& e.error_seq > o.prev_data_seq ==> o.prev_error is Some
    }
}

/// The tickets of a key agree with its entry. Without an entry there are none.
pub open spec fn settles<V: ?Sized, F: ?Sized, C>(
    m: MachineModel<V, F, C>,
    key: KeyModel,
    live: Multiset<Option<u64>>,
) -> bool {
    match m.entry(key) {
        Some(e) => agrees(e, live),
        None => live.len() == 0,
    }
}

/// Every entry agrees with its tickets, and there are none without an entry.
pub open spec fn balanced<V: ?Sized, F: ?Sized, C>(
    m: MachineModel<V, F, C>,
    tickets: Tickets,
) -> bool {
    forall|key: KeyModel| settles(m, key, #[trigger] tickets.of(key))
}

/// A machine without entries is balanced.
pub proof fn law_a_new_machine_is_balanced<V: ?Sized, F: ?Sized, C>(defaults: QueryOptions)
    ensures
        balanced(MachineModel::<V, F, C>::fresh(defaults), Tickets::none()),
{
    let m = MachineModel::<V, F, C>::fresh(defaults);
    assert forall|key: KeyModel| m.entry(key) is None by {
        if m.holds(key) {
            assert(m.stands_at(key, m.position(key)));
        }
    }
}

/// How the tickets of one entry change with an event about it.
proof fn lemma_reaction_agrees<V: ?Sized, F: ?Sized, C>(
    e: EntryModel<V, F, C>,
    m: MachineModel<V, F, C>,
    i: int,
    ev: Event<V, F, C>,
    sub_id: u64,
    unchanged: bool,
    now: Instant,
    live: Multiset<Option<u64>>,
)
    requires
        0 <= i < m.slots.len(),
        m.slots[i].entry == e,
        e.inv(),
        e.bounded(u64::MAX - 3),
        agrees(e, live),
        subject(ev) != Some(m.slots[i].key) || !(ev is MutateBegin || ev is MutateCommit
            || ev is MutateAbort),
    ensures
        agrees(m.reaction(i, ev, sub_id, unchanged, now).entry, live),
{
}

/// A beginning mutation agrees with one ticket more.
proof fn lemma_begin_agrees<V: ?Sized, F: ?Sized, C>(
    e: EntryModel<V, F, C>,
    optimistic: Option<Arc<V>>,
    live: Multiset<Option<u64>>,
)
    requires
        e.inv(),
        e.bounded(u64::MAX - 3),
        agrees(e, live),
    ensures
        agrees(e.mutate_begin(optimistic).entry, live.insert(e.written_seq(optimistic))),
{
    broadcast use vstd::multiset::group_multiset_axioms;

}

/// A finished mutation agrees with one ticket less.
proof fn lemma_commit_agrees<V: ?Sized, F: ?Sized, C>(
    e: EntryModel<V, F, C>,
    written_seq: Option<u64>,
    result: Result<Option<Arc<V>>, Arc<V>>,
    flags: MutateFlags,
    now: Instant,
    live: Multiset<Option<u64>>,
)
    requires
        e.inv(),
        e.bounded(u64::MAX - 3),
        agrees(e, live),
        live.count(written_seq) > 0,
    ensures
        agrees(
            e.mutate_commit(written_seq, result, flags, now).entry,
            live.remove(written_seq),
        ),
{
    broadcast use vstd::multiset::group_multiset_axioms;

}

/// A dropped mutation agrees with one ticket less.
proof fn lemma_abort_agrees<V: ?Sized, F: ?Sized, C>(
    e: EntryModel<V, F, C>,
    written_seq: Option<u64>,
    flags: MutateFlags,
    live: Multiset<Option<u64>>,
)
    requires
        e.inv(),
        e.bounded(u64::MAX - 3),
        agrees(e, live),
        live.count(written_seq) > 0,
    ensures
        agrees(e.mutate_abort(written_seq, flags).entry, live.remove(written_seq)),
{
    broadcast use vstd::multiset::group_multiset_axioms;

}


/// Mutations stay accounted for: as long as only tickets that were handed out
/// come back, and each once, every entry agrees with its tickets.
pub proof fn law_tickets_stay_balanced<V: ?Sized, F: ?Sized, C>(
    m: MachineModel<V, F, C>,
    tickets: Tickets,
    ev: Event<V, F, C>,
    unchanged: bool,
    now: Instant,
)
    requires
        m.valid(1),
        balanced(m, tickets),
        tickets.honest(ev),
    ensures
        balanced(
            m.step(ev, unchanged, now).machine,
            tickets.after(ev, m.step(ev, unchanged, now).outcome),
        ),
{
    let step = m.step(ev, unchanged, now);
    let after = tickets.after(ev, step.outcome);
    assert forall|key: KeyModel| settles(step.machine, key, #[trigger] after.of(key)) by {
        lemma_key_stays_balanced(m, tickets, ev, unchanged, now, key);
    }
}

/// Mutations stay accounted for through a run of events: as long as only tickets
/// that were handed out come back, and each once, every entry agrees with its
/// tickets.
pub proof fn law_tickets_stay_balanced_throughout<
    V: ?Sized,
    F: ?Sized,
    C: Fn(&Arc<V>, &Arc<V>) -> bool,
>(m: MachineModel<V, F, C>, tickets: Tickets, inputs: Seq<Input<V, F, C>>, limit: int)
    requires
        m.inv(limit),
        0 <= limit,
        limit + 3 * inputs.len() <= u64::MAX,
        m.answered(inputs),
        balanced(m, tickets),
        tickets.honest_throughout(m, inputs),
    ensures
        balanced(m.run(inputs), tickets.through(m, inputs)),
    decreases inputs.len(),
{
    if inputs.len() > 0 {
        let x = inputs.last();
        let rest = inputs.drop_last();
        law_tickets_stay_balanced_throughout(m, tickets, rest, limit);
        law_every_run_keeps_the_invariant(m, rest, limit);
        let r = m.run(rest);
        lemma_inv_widens(r, limit + 3 * rest.len(), u64::MAX - 3);
        law_tickets_stay_balanced(r, tickets.through(m, rest), x.ev, x.unchanged, x.now);
    }
}

/// What the numbers of an entry announce is there, in every state that a machine
/// comes to while each mutation ends once: data under a number above zero and
/// under no other, an error under a number above the data's. So whoever waits for
/// a number above zero and sees it reached finds what it waits for.
pub proof fn law_what_is_announced_is_there<
    V: ?Sized,
    F: ?Sized,
    C: Fn(&Arc<V>, &Arc<V>) -> bool,
>(defaults: QueryOptions, inputs: Seq<Input<V, F, C>>, key: KeyModel)
    requires
        3 * inputs.len() <= u64::MAX,
        MachineModel::<V, F, C>::fresh(defaults).answered(inputs),
        Tickets::none().honest_throughout(MachineModel::<V, F, C>::fresh(defaults), inputs),
    ensures
        MachineModel::<V, F, C>::fresh(defaults).run(inputs).entry(key) matches Some(e) ==> {
            &&& e.data is Some <==> e.data_seq > 0
            &&& e.error_seq > e.data_seq ==> e.error is Some
            &&& e.snapshot_now().complete()
            &&& forall|target: u64| target > 0 ==> #[trigger] e.snapshot_now().backed(target)
        },
{
    let m = MachineModel::<V, F, C>::fresh(defaults);
    let r = m.run(inputs);
    let after = Tickets::none().through(m, inputs);
    law_a_new_machine_is_balanced::<V, F, C>(defaults);
    law_tickets_stay_balanced_throughout(m, Tickets::none(), inputs, 0);
    law_every_run_keeps_the_invariant(m, inputs, 0);
    assert(settles(r, key, after.of(key)));
    if r.holds(key) {
        assert(r.stands_at(key, r.position(key)));
    }
}

/// The mutations of one key stay accounted for.
proof fn lemma_key_stays_balanced<V: ?Sized, F: ?Sized, C>(
    m: MachineModel<V, F, C>,
    tickets: Tickets,
    ev: Event<V, F, C>,
    unchanged: bool,
    now: Instant,
    key: KeyModel,
)
    requires
        m.valid(1),
        balanced(m, tickets),
        tickets.honest(ev),
    ensures
        settles(
            m.step(ev, unchanged, now).machine,
            key,
            tickets.after(ev, m.step(ev, unchanged, now).outcome).of(key),
        ),
{
    let live = tickets.of(key);
    assert(settles(m, key, live));
    if m.collects(ev) {
        let gone = ev->TimerFired_key@;
        lemma_removal(m, gone, key);
    } else {
        let p = m.prepared(ev);
        lemma_prepared_entry(m, ev, key, u64::MAX - 3);
        lemma_result(m, ev, unchanged, now, key, u64::MAX - 3);
        if p.holds(key) {
            lemma_one(m, ev, unchanged, now, key);
            lemma_met_settles(m, ev, unchanged, now, key, tickets);
        } else if subject(ev) == Some(key) {
            assert(live.count(ev->MutateCommit_token.written_seq) <= live.len());
            assert(live.count(ev->MutateAbort_token.written_seq) <= live.len());
        }
    }
}

/// The entry that an event meets agrees with its tickets afterwards.
proof fn lemma_met_settles<V: ?Sized, F: ?Sized, C>(
    m: MachineModel<V, F, C>,
    ev: Event<V, F, C>,
    unchanged: bool,
    now: Instant,
    key: KeyModel,
    tickets: Tickets,
)
    requires
        m.valid(1),
        !m.collects(ev),
        m.prepared(ev).holds(key),
        agrees(m.met(key), tickets.of(key)),
        tickets.honest(ev),
    ensures
        agrees(
            m.result(key, ev, unchanged, now).entry,
            tickets.after(ev, m.outcome(ev, now)).of(key),
        ),
{
    lemma_one(m, ev, unchanged, now, key);
    let live = tickets.of(key);
    let e = m.met(key);
    let p = m.prepared(ev);
    let i = p.position(key);
    let r = m.response(key, ev, unchanged, now);
    if subject(ev) == Some(key) && ev is MutateBegin {
        lemma_begin_agrees(e, ev->MutateBegin_optimistic, live);
    } else if subject(ev) == Some(key) && ev is MutateCommit {
        lemma_commit_agrees(
            e,
            ev->MutateCommit_token.written_seq,
            ev->MutateCommit_result,
            ev->MutateCommit_flags,
            now,
            live,
        );
    } else if subject(ev) == Some(key) && ev is MutateAbort {
        lemma_abort_agrees(e, ev->MutateAbort_token.written_seq, ev->MutateAbort_flags, live);
    } else {
        lemma_reaction_agrees(e, p, i, ev, m.next_sub_id, unchanged, now, live);
    }
    lemma_settling_agrees(r.entry, key, r.marks, now, m.defaults, tickets.after(
        ev,
        m.outcome(ev, now),
    ).of(key));
}

/// The follow-up rules do not touch what tickets are about.
proof fn lemma_settling_agrees<V: ?Sized, F: ?Sized, C>(
    e: EntryModel<V, F, C>,
    key: KeyModel,
    marks: Marks,
    now: Instant,
    defaults: QueryOptions,
    live: Multiset<Option<u64>>,
)
    requires
        agrees(e, live),
    ensures
        agrees(e.settle(key, marks, now, defaults).entry, live),
{
}

/// Every snapshot that a balanced machine publishes is complete: what its
/// numbers announce is there.
pub proof fn law_published_snapshots_are_complete<
    V: ?Sized,
    F: ?Sized,
    C: Fn(&Arc<V>, &Arc<V>) -> bool,
>(
    m: MachineModel<V, F, C>,
    tickets: Tickets,
    ev: Event<V, F, C>,
    unchanged: bool,
    now: Instant,
    incarnation: u64,
    snapshot: Snapshot<V, V>,
)
    requires
        m.valid(1),
        answers(m, ev, unchanged),
        balanced(m, tickets),
        tickets.honest(ev),
        m.step(ev, unchanged, now).effects.contains(
            EffectModel::Notify { incarnation, snapshot },
        ),
    ensures
        snapshot.complete(),
{
    let step = m.step(ev, unchanged, now);
    let after = tickets.after(ev, step.outcome);
    let key = law_notification_is_the_current_state(m, ev, unchanged, now, incarnation, snapshot);
    law_tickets_stay_balanced(m, tickets, ev, unchanged, now);
    assert(settles(step.machine, key, after.of(key)));
    law_every_event_keeps_the_invariant(m, ev, unchanged, now, u64::MAX - 3);
    assert(step.machine.stands_at(key, step.machine.position(key)));
}

/// A reader that waits for a number above zero finds data or an error behind
/// it in every complete snapshot that has reached the number.
pub proof fn law_waiting_readers_find_what_they_wait_for<T: ?Sized, E: ?Sized>(
    snapshot: Snapshot<T, E>,
    target: u64,
)
    requires
        snapshot.complete(),
        target > 0,
    ensures
        snapshot.backed(target),
{
}

/// The state of an entry that nothing has happened to is complete.
pub proof fn law_the_first_snapshot_is_complete<T: ?Sized, E: ?Sized>()
    ensures
        Snapshot::<T, E>::empty_spec().complete(),
{
}

/// A stored fetcher stays with its entry: whatever happens, one is stored
/// until the entry is removed.
pub proof fn law_a_stored_fetcher_stays<V: ?Sized, F: ?Sized, C>(
    m: MachineModel<V, F, C>,
    ev: Event<V, F, C>,
    unchanged: bool,
    now: Instant,
    key: KeyModel,
)
    requires
        m.valid(1),
        m.entry(key) matches Some(e) && e.fetcher is Some,
    ensures
        m.step(ev, unchanged, now).machine.entry(key) matches Some(e) ==> e.fetcher is Some,
{
    if m.collects(ev) {
        lemma_removal(m, ev->TimerFired_key@, key);
    } else {
        lemma_prepared_entry(m, ev, key, u64::MAX - 3);
        lemma_one(m, ev, unchanged, now, key);
        let p = m.prepared(ev);
        lemma_reaction_keeps_fetcher(p, p.position(key), ev, m.next_sub_id, unchanged, now);
    }
}

/// No reaction takes the stored fetcher away.
proof fn lemma_reaction_keeps_fetcher<V: ?Sized, F: ?Sized, C>(
    m: MachineModel<V, F, C>,
    i: int,
    ev: Event<V, F, C>,
    sub_id: u64,
    unchanged: bool,
    now: Instant,
)
    requires
        m.slots[i].entry.fetcher is Some,
    ensures
        m.reaction(i, ev, sub_id, unchanged, now).entry.fetcher is Some,
{
}

/// A waiting reader that finds nothing under way gets served by asking for a
/// revalidation: the fetch that this starts is newer than what the reader waits
/// for, and when its result lands, data or error has reached the target.
pub proof fn law_a_poke_serves_the_waiting_reader<
    V: ?Sized,
    F: ?Sized,
    C: Fn(&Arc<V>, &Arc<V>) -> bool,
>(
    m: MachineModel<V, F, C>,
    poke: Event<V, F, C>,
    poked_at: Instant,
    end: Event<V, F, C>,
    unchanged: bool,
    ended_at: Instant,
    key: KeyModel,
    target: u64,
)
    requires
        m.valid(2),
        m.entry(key) matches Some(e) && e.fetcher is Some && e.inflight is None
            && e.mutation_active == 0 && target <= e.seq,
        poke matches Event::RevalidateRequested { key: k } && k@ == key,
        match end {
            Event::CommitOk { key: k, incarnation, seq, .. } => k@ == key && incarnation == m.entry(
                key,
            )->0.incarnation && seq == m.entry(key)->0.seq + 1,
            Event::CommitErr { key: k, incarnation, seq, .. } => k@ == key && incarnation
                == m.entry(key)->0.incarnation && seq == m.entry(key)->0.seq + 1,
            _ => false,
        },
    ensures
        ({
            let poked = m.step(poke, false, poked_at).machine;
            let ended = poked.step(end, unchanged, ended_at).machine;
            &&& poked.entry(key) matches Some(e) && e.inflight == Some(
                (m.entry(key)->0.seq + 1) as u64,
            )
            &&& ended.entry(key) matches Some(e) && if end is CommitOk {
                e.data_seq >= target
            } else {
                e.error_seq >= target && e.error is Some
            }
        }),
{
    lemma_inv_widens(m, u64::MAX - 6, u64::MAX - 3);
    lemma_prepared_entry(m, poke, key, u64::MAX - 3);
    lemma_one(m, poke, false, poked_at, key);
    law_every_event_keeps_the_invariant(m, poke, false, poked_at, u64::MAX - 6);
    let poked = m.step(poke, false, poked_at).machine;
    lemma_prepared_entry(poked, end, key, u64::MAX - 3);
    lemma_one(poked, end, unchanged, ended_at, key);
}

} // verus!
