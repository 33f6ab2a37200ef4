//! How fetches, writes and mutations interfere.

use crate::key::{segments_model, KeyModel};
use crate::machine::event::{EffectModel, Event};
use crate::machine::model::EntryModel;
use crate::machine::laws::reach::subject;
use crate::machine::laws::steps::{
    lemma_effect_origin, lemma_idle_step, lemma_inv_widens, lemma_prepared_entry, lemma_removal,
    lemma_result,
};
use crate::machine::table::{answers, MachineModel};
use crate::machine::upkeep::{
    law_every_event_keeps_the_invariant, lemma_position, lemma_prepared_keeps_inv,
    lemma_prepared_reaction_kept,
};
use crate::time::Instant;
use std::sync::Arc;
use vstd::prelude::*;

verus! {

/// A fetch result that does not land changes nothing and asks for nothing:
/// the entry is gone or was created anew, a mutation is in progress, or
/// another fetch or none is in flight.
pub proof fn law_rejected_fetch_changes_nothing<V: ?Sized, F: ?Sized, C>(
    m: MachineModel<V, F, C>,
    ev: Event<V, F, C>,
    unchanged: bool,
    now: Instant,
)
    requires
        m.valid(1),
        match ev {
            Event::CommitOk { key, incarnation, seq, .. } => m.entry(key@) matches Some(e)
                ==> !e.lands(incarnation, seq),
            Event::CommitErr { key, incarnation, seq, .. } => m.entry(key@) matches Some(e)
                ==> !e.lands(incarnation, seq),
            _ => false,
        },
    ensures
        m.step(ev, unchanged, now).machine == m,
        m.step(ev, unchanged, now).effects.len() == 0,
{
    assert forall|i: int| 0 <= i < m.slots.len() implies #[trigger] m.reaction(
        i,
        ev,
        m.next_sub_id,
        unchanged,
        now,
    ) == m.slots[i].entry.idle() by {
        let key = subject(ev)->0;
        if m.slots[i].key == key {
            assert(m.stands_at(key, i));
            lemma_position(m, key, i);
        }
    }
    lemma_idle_step(m, ev, unchanged, now);
}

/// No fetch result lands while a mutation is in progress.
pub proof fn law_mutation_vetoes_fetches<V: ?Sized, F: ?Sized, C>(
    e: EntryModel<V, F, C>,
    incarnation: u64,
    seq: u64,
)
    requires
        e.mutation_active > 0,
    ensures
        !e.lands(incarnation, seq),
{
}

impl<V: ?Sized, F: ?Sized, C> MachineModel<V, F, C> {
    /// The fetch with this sequence number, started by this incarnation of the
    /// entry of `key`, is over: the entry is gone or another one, or it has
    /// given out the number and no longer waits for it.
    pub open spec fn over(self, key: KeyModel, incarnation: u64, seq: u64) -> bool {
        &&& incarnation < self.next_incarnation
        &&& self.entry(key) matches Some(e) ==> e.incarnation != incarnation || (seq <= e.seq
            && e.inflight != Some(seq))
    }
}

/// A fetch that is over stays over, whatever happens.
pub proof fn law_over_is_over<
    V: ?Sized,
    F: ?Sized,
    C: Fn(&Arc<V>, &Arc<V>) -> bool,
>(
    m: MachineModel<V, F, C>,
    ev: Event<V, F, C>,
    unchanged: bool,
    now: Instant,
    key: KeyModel,
    incarnation: u64,
    seq: u64,
)
    requires
        m.valid(1),
        answers(m, ev, unchanged),
        m.over(key, incarnation, seq),
    ensures
        m.step(ev, unchanged, now).machine.over(key, incarnation, seq),
{
    let p = m.prepared(ev);
    if m.collects(ev) {
        let gone = ev->TimerFired_key@;
        lemma_removal(m, gone, key);
    } else {
        lemma_prepared_entry(m, ev, key, u64::MAX - 3);
        lemma_result(m, ev, unchanged, now, key, u64::MAX - 3);
        if p.holds(key) {
            let i = p.position(key);
            assert(p.stands_at(key, i));
            lemma_prepared_keeps_inv(m, ev, u64::MAX - 3);
            lemma_prepared_reaction_kept(m, i, ev, unchanged, now, u64::MAX - 3);
        }
    }
}

/// A result of a fetch that is over changes nothing and asks for nothing.
pub proof fn law_result_of_a_fetch_that_is_over_is_dropped<V: ?Sized, F: ?Sized, C>(
    m: MachineModel<V, F, C>,
    ev: Event<V, F, C>,
    unchanged: bool,
    now: Instant,
)
    requires
        m.valid(1),
        match ev {
            Event::CommitOk { key, incarnation, seq, .. } => m.over(key@, incarnation, seq),
            Event::CommitErr { key, incarnation, seq, .. } => m.over(key@, incarnation, seq),
            _ => false,
        },
    ensures
        m.step(ev, unchanged, now).machine == m,
        m.step(ev, unchanged, now).effects.len() == 0,
{
    law_rejected_fetch_changes_nothing(m, ev, unchanged, now);
}

/// A local write, a beginning mutation, an invalidation outside a mutation,
/// and the arrival of its own result each end the fetch in flight.
pub proof fn law_what_ends_a_fetch<V: ?Sized, F: ?Sized, C>(
    m: MachineModel<V, F, C>,
    ev: Event<V, F, C>,
    unchanged: bool,
    now: Instant,
    key: KeyModel,
)
    requires
        m.valid(1),
        m.entry(key) matches Some(e) && e.inflight is Some,
        match ev {
            Event::MutateSet { key: k, .. } => k@ == key,
            Event::MutateBegin { key: k, .. } => k@ == key,
            Event::Invalidate { prefix } => key.under(segments_model(prefix@)),
            Event::CommitOk { key: k, incarnation, seq, .. } => k@ == key && m.entry(key)->0.lands(
                incarnation,
                seq,
            ),
            Event::CommitErr { key: k, incarnation, seq, .. } => k@ == key && m.entry(
                key,
            )->0.lands(incarnation, seq),
            _ => false,
        },
    ensures
        m.step(ev, unchanged, now).machine.over(
            key,
            m.entry(key)->0.incarnation,
            m.entry(key)->0.inflight->0,
        ),
{
    let p = m.prepared(ev);
    lemma_prepared_entry(m, ev, key, u64::MAX - 3);
    lemma_result(m, ev, unchanged, now, key, u64::MAX - 3);
    let i = m.position(key);
    assert(m.stands_at(key, i));
    let j = p.position(key);
    assert(p.stands_at(key, j));
    assert(m.slots[i].entry.inv());
}

/// The removal of an entry ends every fetch it started.
pub proof fn law_removal_ends_fetches<V: ?Sized, F: ?Sized, C>(
    m: MachineModel<V, F, C>,
    ev: Event<V, F, C>,
    unchanged: bool,
    now: Instant,
    seq: u64,
)
    requires
        m.valid(1),
        m.collects(ev),
    ensures
        m.step(ev, unchanged, now).machine.over(
            ev->TimerFired_key@,
            m.entry(ev->TimerFired_key@)->0.incarnation,
            seq,
        ),
{
    let key = ev->TimerFired_key@;
    lemma_removal(m, key, key);
    assert(m.stands_at(key, m.position(key)));
}

/// One event of a longer run, with the comparator's answer to it.
pub struct Input<V: ?Sized, F: ?Sized, C> {
    /// The event.
    pub ev: Event<V, F, C>,
    /// The comparator's answer, should the event be a successful fetch.
    pub unchanged: bool,
    /// When it is handled.
    pub now: Instant,
}

impl<V: ?Sized, F: ?Sized, C: Fn(&Arc<V>, &Arc<V>) -> bool> MachineModel<V, F, C> {
    /// The machine after a run of events.
    pub open spec fn run(self, inputs: Seq<Input<V, F, C>>) -> Self
        decreases inputs.len(),
    {
        if inputs.len() == 0 {
            self
        } else {
            let x = inputs.last();
            self.run(inputs.drop_last()).step(x.ev, x.unchanged, x.now).machine
        }
    }

    /// The comparators may answer the way the run says.
    pub open spec fn answered(self, inputs: Seq<Input<V, F, C>>) -> bool
        decreases inputs.len(),
    {
        inputs.len() > 0 ==> {
            &&& self.answered(inputs.drop_last())
            &&& answers(
                self.run(inputs.drop_last()),
                inputs.last().ev,
                inputs.last().unchanged,
            )
        }
    }
}

/// A run of events keeps the invariant of the machine.
pub proof fn law_every_run_keeps_the_invariant<
    V: ?Sized,
    F: ?Sized,
    C: Fn(&Arc<V>, &Arc<V>) -> bool,
>(m: MachineModel<V, F, C>, inputs: Seq<Input<V, F, C>>, limit: int)
    requires
        m.inv(limit),
        0 <= limit,
        limit + 3 * inputs.len() <= u64::MAX,
        m.answered(inputs),
    ensures
        m.run(inputs).inv(limit + 3 * inputs.len()),
    decreases inputs.len(),
{
    if inputs.len() > 0 {
        let x = inputs.last();
        let rest = inputs.drop_last();
        law_every_run_keeps_the_invariant(m, rest, limit);
        law_every_event_keeps_the_invariant(
            m.run(rest),
            x.ev,
            x.unchanged,
            x.now,
            limit + 3 * rest.len(),
        );
    }
}

/// A fetch that is over stays over for good: no run of events brings it back.
pub proof fn law_over_is_over_for_good<
    V: ?Sized,
    F: ?Sized,
    C: Fn(&Arc<V>, &Arc<V>) -> bool,
>(
    m: MachineModel<V, F, C>,
    inputs: Seq<Input<V, F, C>>,
    limit: int,
    key: KeyModel,
    incarnation: u64,
    seq: u64,
)
    requires
        m.inv(limit),
        0 <= limit,
        limit + 3 * inputs.len() <= u64::MAX,
        m.answered(inputs),
        m.over(key, incarnation, seq),
    ensures
        m.run(inputs).over(key, incarnation, seq),
    decreases inputs.len(),
{
    if inputs.len() > 0 {
        let x = inputs.last();
        let rest = inputs.drop_last();
        law_over_is_over_for_good(m, rest, limit, key, incarnation, seq);
        law_every_run_keeps_the_invariant(m, rest, limit);
        let r = m.run(rest);
        lemma_inv_widens(r, limit + 3 * rest.len(), u64::MAX - 3);
        law_over_is_over(r, x.ev, x.unchanged, x.now, key, incarnation, seq);
    }
}

/// A fetch in flight is shared: whoever reads, subscribes or asks for a
/// revalidation meanwhile starts no second one, nor does an environment event
/// or a timer.
#[verifier::rlimit(40)]
pub proof fn law_fetch_in_flight_is_shared<V: ?Sized, F: ?Sized, C>(
    m: MachineModel<V, F, C>,
    ev: Event<V, F, C>,
    unchanged: bool,
    now: Instant,
    key: KeyModel,
    x: EffectModel<V, F>,
)
    requires
        m.valid(1),
        m.entry(key) matches Some(e) && e.inflight is Some,
        ev is Read || ev is Subscribe || ev is Unsubscribe || ev is RevalidateRequested
            || ev is Broadcast || ev is TimerFired,
    ensures
        m.step(ev, unchanged, now).machine.entry(key) matches Some(e) && e.inflight == m.entry(
            key,
        )->0.inflight,
        m.step(ev, unchanged, now).effects.contains(x) ==> !(x is StartFetch && x->StartFetch_key
            == key),
{
    let p = m.prepared(ev);
    if m.collects(ev) {
        let gone = ev->TimerFired_key@;
        lemma_removal(m, gone, key);
    } else {
        lemma_prepared_entry(m, ev, key, u64::MAX - 3);
        lemma_result(m, ev, unchanged, now, key, u64::MAX - 3);
        assert(p.stands_at(key, p.position(key)));
        if m.step(ev, unchanged, now).effects.contains(x) {
            let origin = lemma_effect_origin(m, ev, unchanged, now, x);
        }
    }
}

/// A fetch that the machine asks for is the one in flight from then on, under
/// a number that was not given out before, with the stored fetcher, and
/// outside of mutations.
pub proof fn law_started_fetch_is_in_flight<
    V: ?Sized,
    F: ?Sized,
    C: Fn(&Arc<V>, &Arc<V>) -> bool,
>(
    m: MachineModel<V, F, C>,
    ev: Event<V, F, C>,
    unchanged: bool,
    now: Instant,
    key: KeyModel,
    incarnation: u64,
    seq: u64,
    fetcher: Arc<F>,
)
    requires
        m.valid(1),
        answers(m, ev, unchanged),
        m.step(ev, unchanged, now).effects.contains(
            EffectModel::StartFetch { key, incarnation, seq, fetcher },
        ),
    ensures
        m.step(ev, unchanged, now).machine.entry(key) matches Some(e) && {
            &&& e.lands(incarnation, seq)
            &&& e.fetcher == Some(fetcher)
            &&& !e.invalidated
        },
        m.entry(key) matches Some(e) ==> e.seq < seq,
{
    let x = EffectModel::StartFetch { key, incarnation, seq, fetcher };
    let origin = lemma_effect_origin(m, ev, unchanged, now, x);
    let p = m.prepared(ev);
    let i = p.position(key);
    assert(p.stands_at(key, i));
    lemma_prepared_entry(m, ev, key, u64::MAX - 3);
    lemma_result(m, ev, unchanged, now, key, u64::MAX - 3);
    lemma_prepared_reaction_kept(m, i, ev, unchanged, now, u64::MAX - 3);
}

} // verus!
