//! How mutations begin, end and roll back.

use crate::key::KeyModel;
use crate::machine::event::{EffectModel, Event, OutcomeModel};
use crate::machine::laws::reach::subject;
use crate::machine::laws::races::Input;
use crate::machine::laws::steps::{
    lemma_effect_origin, lemma_inv_widens, lemma_one, lemma_prepared_entry, lemma_result,
};
use crate::machine::table::MachineModel;
use crate::machine::upkeep::law_every_event_keeps_the_invariant;
use crate::options::MutateFlags;
use crate::time::{Duration, Instant};
use std::sync::Arc;
use crate::machine::laws::races::law_every_run_keeps_the_invariant;
use crate::machine::laws::writes::{fails, law_mutation_shields_the_data, shielded, writes_to};
use vstd::prelude::*;

verus! {

/// While a mutation is in progress, no run of events other than writes and
/// mutations of the same key reaches its data.
pub proof fn law_mutation_shields_the_data_throughout<
    V: ?Sized,
    F: ?Sized,
    C: Fn(&Arc<V>, &Arc<V>) -> bool,
>(
    m: MachineModel<V, F, C>,
    inputs: Seq<Input<V, F, C>>,
    limit: int,
    key: KeyModel,
)
    requires
        m.inv(limit),
        0 <= limit,
        limit + 3 * inputs.len() <= u64::MAX,
        m.answered(inputs),
        m.entry(key) matches Some(e) && e.mutation_active > 0,
        forall|i: int| 0 <= i < inputs.len() ==> !writes_to((#[trigger] inputs[i]).ev, key),
    ensures
        m.run(inputs).entry(key) matches Some(e) && shielded(m.entry(key)->0, e),
    decreases inputs.len(),
{
    if inputs.len() > 0 {
        let x = inputs.last();
        let rest = inputs.drop_last();
        assert forall|i: int| 0 <= i < rest.len() implies !writes_to(
            (#[trigger] rest[i]).ev,
            key,
        ) by {
            assert(rest[i] == inputs[i]);
        }
        assert(!writes_to(inputs[inputs.len() - 1].ev, key));
        law_mutation_shields_the_data_throughout(m, rest, limit, key);
        law_every_run_keeps_the_invariant(m, rest, limit);
        let r = m.run(rest);
        lemma_inv_widens(r, limit + 3 * rest.len(), u64::MAX - 3);
        law_mutation_shields_the_data(r, x.ev, x.unchanged, x.now, key);
    }
}

/// A failing mutation restores what its optimistic write displaced: data,
/// error, their numbers and age are as before it began, whatever happened
/// meanwhile short of another write or mutation of the key. As many mutations
/// are in progress as before it.
pub proof fn law_failed_mutation_rolls_back<
    V: ?Sized,
    F: ?Sized,
    C: Fn(&Arc<V>, &Arc<V>) -> bool,
>(
    m: MachineModel<V, F, C>,
    begin: Event<V, F, C>,
    begun_at: Instant,
    value: Arc<V>,
    inputs: Seq<Input<V, F, C>>,
    end: Event<V, F, C>,
    ended_at: Instant,
    limit: int,
    key: KeyModel,
)
    requires
        m.inv(limit),
        0 <= limit,
        limit + 3 * (inputs.len() + 2) <= u64::MAX,
        begin matches Event::MutateBegin { key: k, optimistic } && k@ == key && optimistic == Some(
            value,
        ),
        m.step(begin, false, begun_at).machine.answered(inputs),
        forall|i: int| 0 <= i < inputs.len() ==> !writes_to((#[trigger] inputs[i]).ev, key),
        m.step(begin, false, begun_at).outcome matches OutcomeModel::Mutation { written_seq, .. }
            && fails(end, key, written_seq),
    ensures
        ({
            let begun = m.step(begin, false, begun_at).machine;
            let ended = begun.run(inputs).step(end, false, ended_at).machine;
            ended.entry(key) matches Some(e) && {
                &&& e.data == m.met(key).data
                &&& e.error == m.met(key).error
                &&& e.data_seq == m.met(key).data_seq
                &&& e.error_seq == m.met(key).error_seq
                &&& e.updated_at == m.met(key).updated_at
                &&& e.mutation_active == m.met(key).mutation_active
            }
        }),
{
    lemma_inv_widens(m, limit, u64::MAX - 3);
    lemma_prepared_entry(m, begin, key, u64::MAX - 3);
    lemma_one(m, begin, false, begun_at, key);
    law_every_event_keeps_the_invariant(m, begin, false, begun_at, limit);
    let begun = m.step(begin, false, begun_at).machine;
    law_mutation_shields_the_data_throughout(begun, inputs, limit + 3, key);
    law_every_run_keeps_the_invariant(begun, inputs, limit + 3);
    let late = begun.run(inputs);
    lemma_inv_widens(late, limit + 3 + 3 * inputs.len(), u64::MAX - 3);
    lemma_prepared_entry(late, end, key, u64::MAX - 3);
    lemma_one(late, end, false, ended_at, key);
}

/// A later write wins over a rollback: when the data is no longer the failing
/// mutation's optimistic value, it stays as it is.
pub proof fn law_later_write_wins_over_rollback<V: ?Sized, F: ?Sized, C>(
    m: MachineModel<V, F, C>,
    end: Event<V, F, C>,
    now: Instant,
    key: KeyModel,
    written_seq: Option<u64>,
)
    requires
        m.valid(1),
        fails(end, key, written_seq),
        m.entry(key) matches Some(e) && written_seq != Some(e.data_seq),
    ensures
        m.step(end, false, now).machine.entry(key) matches Some(e) && {
            &&& e.data == m.entry(key)->0.data
            &&& e.data_seq == m.entry(key)->0.data_seq
            &&& e.updated_at == m.entry(key)->0.updated_at
        },
{
    lemma_prepared_entry(m, end, key, u64::MAX - 3);
    lemma_one(m, end, false, now, key);
}

/// Without a rollback, too, a failing mutation leaves the data as it is: the
/// optimistic value stays.
pub proof fn law_no_rollback_keeps_the_optimistic_value<V: ?Sized, F: ?Sized, C>(
    m: MachineModel<V, F, C>,
    end: Event<V, F, C>,
    now: Instant,
    key: KeyModel,
)
    requires
        m.valid(1),
        m.entry(key) is Some,
        match end {
            Event::MutateCommit { token, result, flags } => token.key@ == key && result is Err
                && !flags.rollback_on_error,
            Event::MutateAbort { token, flags } => token.key@ == key && !flags.rollback_on_error,
            _ => false,
        },
    ensures
        m.step(end, false, now).machine.entry(key) matches Some(e) && {
            &&& e.data == m.entry(key)->0.data
            &&& e.data_seq == m.entry(key)->0.data_seq
            &&& e.updated_at == m.entry(key)->0.updated_at
            &&& e.optimistic is None || e.optimistic == m.entry(key)->0.optimistic
        },
{
    lemma_prepared_entry(m, end, key, u64::MAX - 3);
    lemma_one(m, end, false, now, key);
}

/// Of two overlapping mutations with optimistic values, the failure of the
/// first does not take back the value of the second.
#[verifier::rlimit(40)]
pub proof fn law_first_failure_spares_the_second_mutation<
    V: ?Sized,
    F: ?Sized,
    C: Fn(&Arc<V>, &Arc<V>) -> bool,
>(
    m: MachineModel<V, F, C>,
    first: Event<V, F, C>,
    second: Event<V, F, C>,
    end: Event<V, F, C>,
    value: Arc<V>,
    now: Instant,
    key: KeyModel,
)
    requires
        m.valid(3),
        first matches Event::MutateBegin { key: k, optimistic } && k@ == key && optimistic is Some,
        second matches Event::MutateBegin { key: k, optimistic } && k@ == key && optimistic
            == Some(value),
        m.step(first, false, now).outcome matches OutcomeModel::Mutation { written_seq, .. }
            && fails(end, key, written_seq),
    ensures
        ({
            let both = m.step(first, false, now).machine.step(second, false, now).machine;
            both.step(end, false, now).machine.entry(key) matches Some(e) && e.data == Some(value)
        }),
{
    lemma_inv_widens(m, u64::MAX - 9, u64::MAX - 3);
    lemma_prepared_entry(m, first, key, u64::MAX - 3);
    lemma_one(m, first, false, now, key);
    law_every_event_keeps_the_invariant(m, first, false, now, u64::MAX - 9);
    let one = m.step(first, false, now).machine;
    lemma_inv_widens(one, u64::MAX - 6, u64::MAX - 3);
    lemma_prepared_entry(one, second, key, u64::MAX - 3);
    lemma_one(one, second, false, now, key);
    law_every_event_keeps_the_invariant(one, second, false, now, u64::MAX - 6);
    let both = one.step(second, false, now).machine;
    lemma_prepared_entry(both, end, key, u64::MAX - 3);
    lemma_one(both, end, false, now, key);
}

/// A successful mutation that populates the cache leaves its result as fresh
/// data.
pub proof fn law_successful_mutation_populates<V: ?Sized, F: ?Sized, C>(
    m: MachineModel<V, F, C>,
    end: Event<V, F, C>,
    now: Instant,
    key: KeyModel,
    value: Arc<V>,
    stale_time: Duration,
)
    requires
        m.valid(1),
        m.entry(key) is Some,
        end matches Event::MutateCommit { token, result, flags } && token.key@ == key && result
            == Ok::<Option<Arc<V>>, Arc<V>>(Some(value)) && flags.populate,
        stale_time.nanos > 0,
    ensures
        m.step(end, false, now).machine.entry(key) matches Some(e) && {
            &&& e.data == Some(value)
            &&& e.error is None
            &&& e.optimistic is None
            &&& !e.is_stale(stale_time, now)
        },
{
    lemma_prepared_entry(m, end, key, u64::MAX - 3);
    lemma_one(m, end, false, now, key);
}

/// The end of a mutation is always published, and counts one mutation less.
pub proof fn law_end_of_a_mutation_is_published<V: ?Sized, F: ?Sized, C>(
    m: MachineModel<V, F, C>,
    end: Event<V, F, C>,
    now: Instant,
    key: KeyModel,
)
    requires
        m.valid(1),
        m.entry(key) matches Some(e) && e.mutation_active > 0,
        end is MutateCommit || end is MutateAbort,
        subject(end) == Some(key),
    ensures
        ({
            let step = m.step(end, false, now);
            let e = step.machine.entry(key)->0;
            &&& step.machine.entry(key) is Some
            &&& e.mutation_active == m.entry(key)->0.mutation_active - 1
            &&& step.effects.contains(
                EffectModel::Notify { incarnation: e.incarnation, snapshot: e.snapshot_now() },
            )
        }),
{
    lemma_prepared_entry(m, end, key, u64::MAX - 3);
    lemma_one(m, end, false, now, key);
    lemma_result(m, end, false, now, key, u64::MAX - 3);
}

/// Mutations never count as failed fetches: they leave the number of the
/// latest failure alone, so that no waiting reader takes a mutation's error
/// for its own.
pub proof fn law_mutation_errors_spare_waiting_readers<V: ?Sized, F: ?Sized, C>(
    m: MachineModel<V, F, C>,
    ev: Event<V, F, C>,
    now: Instant,
    key: KeyModel,
)
    requires
        m.valid(1),
        m.entry(key) is Some,
        writes_to(ev, key),
    ensures
        m.step(ev, false, now).machine.entry(key) matches Some(e) && e.error_seq == m.entry(
            key,
        )->0.error_seq,
{
    lemma_prepared_entry(m, ev, key, u64::MAX - 3);
    lemma_one(m, ev, false, now, key);
}

/// The flags that a mutation ends with.
pub open spec fn end_flags<V: ?Sized, F: ?Sized, C>(end: Event<V, F, C>) -> Option<MutateFlags> {
    match end {
        Event::MutateCommit { flags, .. } => Some(flags),
        Event::MutateAbort { flags, .. } => Some(flags),
        _ => None,
    }
}

/// A mutation that ends this way has just written a result of its own.
pub open spec fn populates<V: ?Sized, F: ?Sized, C>(end: Event<V, F, C>) -> bool {
    end matches Event::MutateCommit { result, flags, .. } && flags.populate && result matches Ok(
        Some(value),
    )
}

/// The last of the mutations in progress revalidates if asked to. So it does
/// when an invalidation came in meanwhile, unless it has just written a result
/// of its own. Otherwise no fetch starts, for its key or another.
pub proof fn law_last_mutation_revalidates<V: ?Sized, F: ?Sized, C>(
    m: MachineModel<V, F, C>,
    end: Event<V, F, C>,
    now: Instant,
    key: KeyModel,
)
    requires
        m.valid(1),
        subject(end) == Some(key),
        m.entry(key) matches Some(e) && e.mutation_active == 1 && e.inflight is None && e.fetcher
            is Some,
        end_flags(end) is Some,
    ensures
        ({
            let step = m.step(end, false, now);
            let e = step.machine.entry(key)->0;
            let wanted = end_flags(end)->0.revalidate || (m.entry(key)->0.invalidated && !populates(
                end,
            ));
            &&& step.machine.entry(key) is Some
            &&& wanted ==> {
                &&& e.inflight == Some(e.seq)
                &&& !e.invalidated
                &&& step.effects.contains(
                    EffectModel::StartFetch {
                        key,
                        incarnation: e.incarnation,
                        seq: e.seq,
                        fetcher: e.fetcher->0,
                    },
                )
            }
            &&& !wanted ==> {
                &&& e.inflight is None
                &&& forall|k: int|
                    0 <= k < step.effects.len() ==> !(#[trigger] step.effects[k] is StartFetch)
            }
        }),
{
    lemma_prepared_entry(m, end, key, u64::MAX - 3);
    lemma_one(m, end, false, now, key);
    lemma_result(m, end, false, now, key, u64::MAX - 3);
    let step = m.step(end, false, now);
    let p = m.prepared(end);
    assert forall|k: int| 0 <= k < step.effects.len() && (
    #[trigger] step.effects[k] is StartFetch) implies m.result(key, end, false, now).fetch
        == Some(step.effects[k]) by {
        let x = step.effects[k];
        assert(step.effects.contains(x));
        let other = lemma_effect_origin(m, end, false, now, x);
        assert(p.stands_at(other, p.position(other)));
    }
}

} // verus!
