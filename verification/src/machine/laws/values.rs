//! What each event makes of an entry's values, field by field.

use crate::key::KeyModel;
use crate::machine::event::{Event, OutcomeModel, TimerKind};
use crate::machine::laws::loading::at_hand;
use crate::machine::laws::mutations::law_mutation_shields_the_data_throughout;
use crate::machine::laws::races::{law_every_run_keeps_the_invariant, Input};
use crate::machine::laws::reach::subject;
use crate::machine::laws::steps::{
    lemma_inv_widens, lemma_one, lemma_prepared_entry, lemma_removal, lemma_result,
};
use crate::machine::laws::terms::unneeded;
use crate::machine::laws::writes::writes_to;
use crate::machine::model::{EntryModel, Marks};
use crate::machine::table::MachineModel;
use crate::machine::upkeep::law_every_event_keeps_the_invariant;
use crate::options::{QueryOptions, ReadPolicy, SwrEvent};
use crate::time::Instant;
use std::sync::Arc;
use vstd::prelude::*;

verus! {

/// The values of two entries, their numbers and their age are the same.
pub open spec fn same_values<V: ?Sized, F: ?Sized, C>(
    a: EntryModel<V, F, C>,
    b: EntryModel<V, F, C>,
) -> bool {
    &&& a.data == b.data
    &&& a.data_seq == b.data_seq
    &&& a.error == b.error
    &&& a.error_seq == b.error_seq
    &&& a.updated_at == b.updated_at
}

/// A fetch result of this incarnation and number is the one that is waited for.
pub open spec fn awaited<V: ?Sized, F: ?Sized, C>(
    e: EntryModel<V, F, C>,
    incarnation: u64,
    seq: u64,
) -> bool {
    e.incarnation == incarnation && e.inflight == Some(seq) && e.mutation_active == 0
}

/// The event may change the values of the entry of `key`: a fetch result that is
/// waited for, a local write, or the beginning or end of a mutation.
pub open spec fn delivers<V: ?Sized, F: ?Sized, C>(
    m: MachineModel<V, F, C>,
    ev: Event<V, F, C>,
    key: KeyModel,
) -> bool {
    subject(ev) == Some(key) && match ev {
        Event::CommitOk { incarnation, seq, .. } => m.entry(key) matches Some(e) && awaited(
            e,
            incarnation,
            seq,
        ),
        Event::CommitErr { incarnation, seq, .. } => m.entry(key) matches Some(e) && awaited(
            e,
            incarnation,
            seq,
        ),
        Event::MutateSet { .. } => true,
        Event::MutateBegin { .. } => true,
        Event::MutateCommit { .. } => true,
        Event::MutateAbort { .. } => true,
        _ => false,
    }
}

/// A reaction to what is not delivered leaves the values alone.
#[verifier::spinoff_prover]
proof fn lemma_values_of_reaction<V: ?Sized, F: ?Sized, C>(
    m: MachineModel<V, F, C>,
    i: int,
    ev: Event<V, F, C>,
    sub_id: u64,
    unchanged: bool,
    now: Instant,
)
    requires
        match ev {
            Event::CommitOk { incarnation, seq, .. } => subject(ev) == Some(m.slots[i].key)
                ==> !awaited(m.slots[i].entry, incarnation, seq),
            Event::CommitErr { incarnation, seq, .. } => subject(ev) == Some(m.slots[i].key)
                ==> !awaited(m.slots[i].entry, incarnation, seq),
            Event::MutateSet { .. } => subject(ev) != Some(m.slots[i].key),
            Event::MutateBegin { .. } => subject(ev) != Some(m.slots[i].key),
            Event::MutateCommit { .. } => subject(ev) != Some(m.slots[i].key),
            Event::MutateAbort { .. } => subject(ev) != Some(m.slots[i].key),
            _ => true,
        },
    ensures
        ({
            let before = m.slots[i].entry;
            let after = m.reaction(i, ev, sub_id, unchanged, now).entry;
            &&& same_values(after, before)
            &&& after.optimistic == before.optimistic
            &&& after.mutation_active == before.mutation_active
        }),
{
}

/// The follow-up rules leave the values alone.
proof fn lemma_values_of_settling<V: ?Sized, F: ?Sized, C>(
    e: EntryModel<V, F, C>,
    key: KeyModel,
    marks: Marks,
    now: Instant,
    defaults: QueryOptions,
)
    ensures
        ({
            let after = e.settle(key, marks, now, defaults).entry;
            &&& same_values(after, e)
            &&& after.optimistic == e.optimistic
            &&& after.mutation_active == e.mutation_active
        }),
{
}

/// Only what is delivered changes values: reads, subscriptions, requests,
/// invalidations, environment events, timers, and fetch results that nobody waits
/// for leave data, errors, numbers, age and the mutations in progress as they
/// are.
pub proof fn law_only_deliveries_change_values<V: ?Sized, F: ?Sized, C>(
    m: MachineModel<V, F, C>,
    ev: Event<V, F, C>,
    unchanged: bool,
    now: Instant,
    key: KeyModel,
)
    requires
        m.valid(1),
        m.entry(key) is Some,
        m.step(ev, unchanged, now).machine.entry(key) is Some,
        !delivers(m, ev, key),
    ensures
        ({
            let before = m.entry(key)->0;
            let after = m.step(ev, unchanged, now).machine.entry(key)->0;
            &&& same_values(after, before)
            &&& after.optimistic == before.optimistic
            &&& after.mutation_active == before.mutation_active
        }),
{
    if m.collects(ev) {
        lemma_removal(m, ev->TimerFired_key@, key);
    } else {
        lemma_prepared_entry(m, ev, key, u64::MAX - 3);
        lemma_one(m, ev, unchanged, now, key);
        let p = m.prepared(ev);
        lemma_values_of_reaction(p, p.position(key), ev, m.next_sub_id, unchanged, now);
        let r = m.response(key, ev, unchanged, now);
        lemma_values_of_settling(r.entry, key, r.marks, now, m.defaults);
    }
}

/// A fetch result that is waited for becomes the data, or leaves an equal value in
/// place if the comparator says so. It bears the number of the fetch and the
/// present as its age, and ends the error and the fetch.
pub proof fn law_an_awaited_result_becomes_the_data<V: ?Sized, F: ?Sized, C>(
    m: MachineModel<V, F, C>,
    ev: Event<V, F, C>,
    unchanged: bool,
    now: Instant,
    key: KeyModel,
)
    requires
        m.valid(1),
        ev matches Event::CommitOk { key: k, incarnation, seq, .. } && k@ == key && (m.entry(
            key,
        ) matches Some(e) && awaited(e, incarnation, seq)),
    ensures
        m.step(ev, unchanged, now).machine.entry(key) matches Some(e) && {
            let before = m.entry(key)->0;
            &&& e.data == if unchanged {
                before.data
            } else {
                Some(ev->CommitOk_value)
            }
            &&& e.data_seq == ev->CommitOk_seq
            &&& e.updated_at == Some(now)
            &&& e.error is None
            &&& e.error_seq == before.error_seq
            &&& e.inflight is None
            &&& e.seq == before.seq
            &&& e.optimistic is None
            &&& e.mutation_active == 0
        },
{
    lemma_prepared_entry(m, ev, key, u64::MAX - 3);
    lemma_one(m, ev, unchanged, now, key);
}

/// A failure that is waited for is recorded beside the data, under the number of
/// the fetch, and ends the fetch. The data and its age stay.
pub proof fn law_an_awaited_failure_is_recorded<V: ?Sized, F: ?Sized, C>(
    m: MachineModel<V, F, C>,
    ev: Event<V, F, C>,
    unchanged: bool,
    now: Instant,
    key: KeyModel,
)
    requires
        m.valid(1),
        ev matches Event::CommitErr { key: k, incarnation, seq, .. } && k@ == key && (m.entry(
            key,
        ) matches Some(e) && awaited(e, incarnation, seq)),
    ensures
        m.step(ev, unchanged, now).machine.entry(key) matches Some(e) && {
            let before = m.entry(key)->0;
            &&& e.data == before.data
            &&& e.data_seq == before.data_seq
            &&& e.updated_at == before.updated_at
            &&& e.error == Some(ev->CommitErr_error)
            &&& e.error_seq == ev->CommitErr_seq
            &&& e.inflight is None
            &&& e.seq == before.seq
            &&& e.optimistic == before.optimistic
            &&& e.mutation_active == 0
        },
{
    lemma_prepared_entry(m, ev, key, u64::MAX - 3);
    lemma_one(m, ev, unchanged, now, key);
}

/// A local write becomes the data, under the next number and with the present as
/// its age. It ends the error, the fetch in flight, an invalidation, and whatever
/// a rollback would restore. Mutations in progress go on.
pub proof fn law_a_local_write_becomes_the_data<V: ?Sized, F: ?Sized, C>(
    m: MachineModel<V, F, C>,
    ev: Event<V, F, C>,
    unchanged: bool,
    now: Instant,
    key: KeyModel,
)
    requires
        m.valid(1),
        ev matches Event::MutateSet { key: k, .. } && k@ == key,
    ensures
        m.step(ev, unchanged, now).machine.entry(key) matches Some(e) && {
            let before = m.met(key);
            &&& e.data == Some(ev->MutateSet_value)
            &&& e.seq == before.seq + 1
            &&& e.data_seq == e.seq
            &&& e.updated_at == Some(now)
            &&& e.error is None
            &&& e.error_seq == before.error_seq
            &&& e.inflight is None
            &&& !e.invalidated
            &&& e.optimistic is None
            &&& e.mutation_active == before.mutation_active
        },
{
    lemma_prepared_entry(m, ev, key, u64::MAX - 3);
    lemma_one(m, ev, unchanged, now, key);
}

/// The beginning of a mutation counts it and gives the fetch in flight up. An
/// optimistic value becomes the data under a number of its own, which the ticket
/// names; what it displaces is kept under that number. Without one the values stay
/// as they are. Age, error and invalidation stay in any case.
pub proof fn law_a_beginning_mutation_shows_its_optimistic_value<V: ?Sized, F: ?Sized, C>(
    m: MachineModel<V, F, C>,
    ev: Event<V, F, C>,
    unchanged: bool,
    now: Instant,
    key: KeyModel,
)
    requires
        m.valid(1),
        ev matches Event::MutateBegin { key: k, .. } && k@ == key,
    ensures
        ({
            let before = m.met(key);
            let step = m.step(ev, unchanged, now);
            let e = step.machine.entry(key)->0;
            &&& step.machine.entry(key) is Some
            &&& e.mutation_active == before.mutation_active + 1
            &&& e.inflight is None
            &&& e.seq == before.seq + if ev->MutateBegin_optimistic is Some {
                2int
            } else {
                1
            }
            &&& e.updated_at == before.updated_at
            &&& e.error == before.error
            &&& e.error_seq == before.error_seq
            &&& e.invalidated == before.invalidated
            &&& match ev->MutateBegin_optimistic {
                Some(value) => {
                    &&& e.data == Some(value)
                    &&& e.data_seq == e.seq
                    &&& e.optimistic matches Some(o) && {
                        &&& o.prev_data == before.data
                        &&& o.prev_error == before.error
                        &&& o.prev_data_seq == before.data_seq
                        &&& o.prev_updated_at == before.updated_at
                        &&& o.written_seq == e.seq
                    }
                    &&& step.outcome == (OutcomeModel::<V>::Mutation {
                        key,
                        written_seq: Some(e.data_seq),
                    })
                },
                None => {
                    &&& e.data == before.data
                    &&& e.data_seq == before.data_seq
                    &&& e.optimistic == before.optimistic
                    &&& step.outcome == (OutcomeModel::<V>::Mutation { key, written_seq: None })
                },
            }
        }),
{
    lemma_prepared_entry(m, ev, key, u64::MAX - 3);
    lemma_one(m, ev, unchanged, now, key);
}

/// The event ends a mutation well, without a result to write: it has none, or is
/// told not to write it.
pub open spec fn succeeds_quietly<V: ?Sized, F: ?Sized, C>(ev: Event<V, F, C>) -> bool {
    ev matches Event::MutateCommit { result, flags, .. } && (result matches Ok(written) && (written
        is None || !flags.populate))
}

/// A mutation that ends well without a result to write leaves the values as they
/// were just before, its own optimistic value included. What it displaced is no
/// longer kept; what another mutation displaced still is.
pub proof fn law_a_quiet_success_keeps_the_data<V: ?Sized, F: ?Sized, C>(
    m: MachineModel<V, F, C>,
    end: Event<V, F, C>,
    unchanged: bool,
    now: Instant,
    key: KeyModel,
)
    requires
        m.valid(1),
        succeeds_quietly(end),
        subject(end) == Some(key),
        m.entry(key) is Some,
    ensures
        m.step(end, unchanged, now).machine.entry(key) matches Some(e) && {
            let before = m.entry(key)->0;
            &&& same_values(e, before)
            &&& e.optimistic == if before.optimistic matches Some(o) && Some(o.written_seq)
                == end->MutateCommit_token.written_seq {
                None
            } else {
                before.optimistic
            }
        },
{
    lemma_prepared_entry(m, end, key, u64::MAX - 3);
    lemma_one(m, end, unchanged, now, key);
}

/// The optimistic value of a mutation that ends well without a result to write is
/// still the data, whatever happened meanwhile short of another write or mutation
/// of the key.
pub proof fn law_the_optimistic_value_outlives_a_quiet_success<
    V: ?Sized,
    F: ?Sized,
    C: Fn(&Arc<V>, &Arc<V>) -> bool,
>(
    m: MachineModel<V, F, C>,
    begin: Event<V, F, C>,
    begun_at: Instant,
    value: Arc<V>,
    inputs: Seq<Input<V, F, C>>,
    end: Event<V, F, C>,
    ended_at: Instant,
    limit: int,
    key: KeyModel,
)
    requires
        m.inv(limit),
        0 <= limit,
        limit + 3 * (inputs.len() + 2) <= u64::MAX,
        begin matches Event::MutateBegin { key: k, optimistic } && k@ == key && optimistic == Some(
            value,
        ),
        m.step(begin, false, begun_at).machine.answered(inputs),
        forall|i: int| 0 <= i < inputs.len() ==> !writes_to((#[trigger] inputs[i]).ev, key),
        succeeds_quietly(end),
        subject(end) == Some(key),
    ensures
        ({
            let begun = m.step(begin, false, begun_at).machine;
            let ended = begun.run(inputs).step(end, false, ended_at).machine;
            ended.entry(key) matches Some(e) && {
                &&& e.data == Some(value)
                &&& e.data_seq == begun.entry(key)->0.data_seq
                &&& e.error == m.met(key).error
                &&& e.error_seq == m.met(key).error_seq
                &&& e.updated_at == m.met(key).updated_at
                &&& e.mutation_active == m.met(key).mutation_active
            }
        }),
{
    lemma_inv_widens(m, limit, u64::MAX - 3);
    lemma_prepared_entry(m, begin, key, u64::MAX - 3);
    lemma_one(m, begin, false, begun_at, key);
    law_every_event_keeps_the_invariant(m, begin, false, begun_at, limit);
    let begun = m.step(begin, false, begun_at).machine;
    law_mutation_shields_the_data_throughout(begun, inputs, limit + 3, key);
    law_every_run_keeps_the_invariant(begun, inputs, limit + 3);
    let late = begun.run(inputs);
    lemma_inv_widens(late, limit + 3 + 3 * inputs.len(), u64::MAX - 3);
    lemma_prepared_entry(late, end, key, u64::MAX - 3);
    lemma_one(late, end, false, ended_at, key);
}

/// A mutation that ends well with a result to write leaves that result as the
/// data, under the next number and with the present as its age. It ends the error
/// and whatever a rollback would restore.
pub proof fn law_a_written_result_becomes_the_data<V: ?Sized, F: ?Sized, C>(
    m: MachineModel<V, F, C>,
    end: Event<V, F, C>,
    unchanged: bool,
    now: Instant,
    key: KeyModel,
    value: Arc<V>,
)
    requires
        m.valid(1),
        m.entry(key) is Some,
        subject(end) == Some(key),
        end matches Event::MutateCommit { result, flags, .. } && result == Ok::<
            Option<Arc<V>>,
            Arc<V>,
        >(Some(value)) && flags.populate,
    ensures
        m.step(end, unchanged, now).machine.entry(key) matches Some(e) && {
            let before = m.entry(key)->0;
            &&& e.data == Some(value)
            &&& e.data_seq == before.seq + 1
            &&& e.updated_at == Some(now)
            &&& e.error is None
            &&& e.error_seq == before.error_seq
            &&& e.optimistic is None
            &&& !e.invalidated
        },
{
    lemma_prepared_entry(m, end, key, u64::MAX - 3);
    lemma_one(m, end, unchanged, now, key);
}

/// A failing end restores what the mutation displaced exactly when it is to, the
/// kept values are its own, and its optimistic value still is the data. Otherwise
/// the data and its age stay, and an error that came with the end is recorded. Its
/// own kept values go either way, another mutation's stay. No failing end counts
/// as a failed fetch.
pub proof fn law_a_failing_mutation_restores_only_its_own<V: ?Sized, F: ?Sized, C>(
    m: MachineModel<V, F, C>,
    end: Event<V, F, C>,
    unchanged: bool,
    now: Instant,
    key: KeyModel,
)
    requires
        m.valid(1),
        m.entry(key) is Some,
        subject(end) == Some(key),
        end is MutateAbort || (end matches Event::MutateCommit { result, .. } && result is Err),
    ensures
        m.step(end, unchanged, now).machine.entry(key) matches Some(e) && {
            let before = m.entry(key)->0;
            let token = if end is MutateAbort {
                end->MutateAbort_token
            } else {
                end->MutateCommit_token
            };
            let rollback = if end is MutateAbort {
                end->MutateAbort_flags.rollback_on_error
            } else {
                end->MutateCommit_flags.rollback_on_error
            };
            let own = before.optimistic matches Some(o) && token.written_seq == Some(o.written_seq);
            let kept = before.optimistic->0;
            &&& own && rollback && before.data_seq == kept.written_seq ==> {
                &&& e.data == kept.prev_data
                &&& e.error == kept.prev_error
                &&& e.data_seq == kept.prev_data_seq
                &&& e.updated_at == kept.prev_updated_at
            }
            &&& !(own && rollback && before.data_seq == kept.written_seq) ==> {
                &&& e.data == before.data
                &&& e.data_seq == before.data_seq
                &&& e.updated_at == before.updated_at
                &&& e.error == if end is MutateAbort {
                    before.error
                } else {
                    Some(end->MutateCommit_result->Err_0)
                }
            }
            &&& e.error_seq == before.error_seq
            &&& e.optimistic == if own {
                None
            } else {
                before.optimistic
            }
        },
{
    lemma_prepared_entry(m, end, key, u64::MAX - 3);
    lemma_one(m, end, unchanged, now, key);
}

/// Every end of a mutation counts one less.
pub proof fn law_every_end_counts_one_mutation_less<V: ?Sized, F: ?Sized, C>(
    m: MachineModel<V, F, C>,
    end: Event<V, F, C>,
    unchanged: bool,
    now: Instant,
    key: KeyModel,
)
    requires
        m.valid(1),
        end is MutateCommit || end is MutateAbort,
        subject(end) == Some(key),
        m.entry(key) is Some,
    ensures
        m.step(end, unchanged, now).machine.entry(key) matches Some(e) && e.mutation_active == if (
        m.entry(key)->0.mutation_active > 0) {
            m.entry(key)->0.mutation_active - 1
        } else {
            0
        },
{
    lemma_prepared_entry(m, end, key, u64::MAX - 3);
    lemma_one(m, end, unchanged, now, key);
}

/// Who uses an entry, before and after an event: the subscribers with their options
/// and their number, and what readers and subscribers left.
pub open spec fn users_follow<V: ?Sized, F: ?Sized, C>(
    before: EntryModel<V, F, C>,
    after: EntryModel<V, F, C>,
    ev: Event<V, F, C>,
    mine: bool,
    sub_id: u64,
) -> bool {
    &&& after.incarnation == before.incarnation
    &&& if ev is Subscribe && mine {
        &&& after.subs == before.subs.insert(sub_id, ev->Subscribe_opts)
        &&& after.subscribers == before.subscribers + 1
        &&& after.fetcher == at_hand(ev->Subscribe_fetcher, before.fetcher)
        &&& after.compare == if ev->Subscribe_compare is Some {
            ev->Subscribe_compare
        } else {
            before.compare
        }
        &&& after.last_touch_gc_time == Some(ev->Subscribe_opts.gc_time)
    } else if ev is Read && mine {
        &&& after.subs == before.subs
        &&& after.subscribers == before.subscribers
        &&& after.fetcher == at_hand(ev->Read_fetcher, before.fetcher)
        &&& after.compare == if ev->Read_compare is Some {
            ev->Read_compare
        } else {
            before.compare
        }
        &&& after.last_touch_gc_time == Some(ev->Read_opts.gc_time)
    } else {
        &&& after.fetcher == before.fetcher
        &&& after.compare == before.compare
        &&& after.last_touch_gc_time == before.last_touch_gc_time
        &&& if ev is Unsubscribe && mine {
            &&& after.subs == before.subs.remove(ev->Unsubscribe_sub_id)
            &&& after.subscribers == if before.subscribers > 0 {
                before.subscribers - 1
            } else {
                0
            }
        } else {
            &&& after.subs == before.subs
            &&& after.subscribers == before.subscribers
        }
    }
}

/// A reaction changes who uses an entry as the event says.
#[verifier::spinoff_prover]
proof fn lemma_users_of_reaction<V: ?Sized, F: ?Sized, C>(
    m: MachineModel<V, F, C>,
    i: int,
    ev: Event<V, F, C>,
    sub_id: u64,
    unchanged: bool,
    now: Instant,
)
    requires
        m.slots[i].entry.bounded(u64::MAX - 3),
    ensures
        users_follow(
            m.slots[i].entry,
            m.reaction(i, ev, sub_id, unchanged, now).entry,
            ev,
            subject(ev) == Some(m.slots[i].key),
            sub_id,
        ),
{
}

/// The follow-up rules leave alone who uses an entry.
proof fn lemma_users_of_settling<V: ?Sized, F: ?Sized, C>(
    before: EntryModel<V, F, C>,
    e: EntryModel<V, F, C>,
    ev: Event<V, F, C>,
    mine: bool,
    sub_id: u64,
    key: KeyModel,
    marks: Marks,
    now: Instant,
    defaults: QueryOptions,
)
    requires
        users_follow(before, e, ev, mine, sub_id),
    ensures
        users_follow(before, e.settle(key, marks, now, defaults).entry, ev, mine, sub_id),
{
}

/// Who uses an entry changes with reads and subscriptions only. A subscription
/// adds its options under a new id, its end takes them away; both are counted. A
/// read or a subscription leaves its fetcher and comparator, if it brings any, and
/// its removal delay.
pub proof fn law_only_users_change_who_uses_an_entry<V: ?Sized, F: ?Sized, C>(
    m: MachineModel<V, F, C>,
    ev: Event<V, F, C>,
    unchanged: bool,
    now: Instant,
    key: KeyModel,
)
    requires
        m.valid(1),
        m.holds(key) || subject(ev) == Some(key),
        m.step(ev, unchanged, now).machine.entry(key) is Some,
    ensures
        users_follow(
            m.met(key),
            m.step(ev, unchanged, now).machine.entry(key)->0,
            ev,
            subject(ev) == Some(key),
            m.next_sub_id,
        ),
{
    lemma_prepared_entry(m, ev, key, u64::MAX - 3);
    if m.collects(ev) {
        lemma_removal(m, ev->TimerFired_key@, key);
    } else {
        let p = m.prepared(ev);
        let i = p.position(key);
        lemma_result(m, ev, unchanged, now, key, u64::MAX - 3);
        lemma_one(m, ev, unchanged, now, key);
        lemma_users_of_reaction(p, i, ev, m.next_sub_id, unchanged, now);
        let r = m.response(key, ev, unchanged, now);
        lemma_users_of_settling(
            m.met(key),
            r.entry,
            ev,
            subject(ev) == Some(key),
            m.next_sub_id,
            key,
            r.marks,
            now,
            m.defaults,
        );
    }
}

/// An entry is there after an event exactly when it was there before and was not
/// removed, or when the event makes room for it: a read that is not cache-only, a
/// subscription, a local write or a beginning mutation. Removed is the entry whose
/// current removal timer fires while nobody needs it.
pub proof fn law_which_entries_are_there<V: ?Sized, F: ?Sized, C>(
    m: MachineModel<V, F, C>,
    ev: Event<V, F, C>,
    unchanged: bool,
    now: Instant,
    key: KeyModel,
)
    requires
        m.valid(1),
    ensures
        ({
            let mine = subject(ev) == Some(key);
            let room = mine && match ev {
                Event::Read { policy, .. } => policy != ReadPolicy::CacheOnly,
                Event::Subscribe { .. } => true,
                Event::MutateSet { .. } => true,
                Event::MutateBegin { .. } => true,
                _ => false,
            };
            let removed = mine && (ev matches Event::TimerFired { kind, generation, .. } && kind
                == TimerKind::Gc && (m.entry(key) matches Some(e) && e.gc_gen == generation
                && unneeded(e)));
            m.step(ev, unchanged, now).machine.holds(key) == (room || (m.holds(key) && !removed))
        }),
{
    if m.collects(ev) {
        lemma_removal(m, ev->TimerFired_key@, key);
    } else {
        lemma_prepared_entry(m, ev, key, u64::MAX - 3);
        lemma_result(m, ev, unchanged, now, key, u64::MAX - 3);
        let p = m.prepared(ev);
        if p.holds(key) && !m.holds(key) {
            let i = p.position(key);
            assert(p.stands_at(key, i));
            assert(i < m.slots.len() ==> m.stands_at(key, i));
        }
    }
}

/// A key without an entry counts as one that nothing has happened to: no values,
/// nothing under way, nobody there, and all numbers at zero.
pub proof fn law_a_new_entry_is_empty<V: ?Sized, F: ?Sized, C>(
    m: MachineModel<V, F, C>,
    key: KeyModel,
)
    requires
        m.valid(1),
    ensures
        m.holds(key) ==> m.entry(key) == Some(m.met(key)),
        !m.holds(key) ==> ({
            let e = m.met(key);
            &&& e.incarnation == m.next_incarnation
            &&& e.data is None && e.error is None && e.updated_at is None
            &&& e.data_seq == 0 && e.error_seq == 0 && e.seq == 0
            &&& e.inflight is None && e.mutation_active == 0 && e.optimistic is None
            &&& !e.invalidated && e.focus_blocked_until is None
            &&& e.subscribers == 0 && e.last_touch_gc_time is None
            &&& forall|id: u64| !#[trigger] e.subs.contains_key(id)
            &&& e.fetcher is None && e.compare is None
            &&& e.gc_gen == 0 && e.refresh_gen == 0 && e.snap_version == 0
        }),
{
    lemma_prepared_entry(
        m,
        Event::<V, F, C>::Broadcast { ev: SwrEvent::Focus },
        key,
        u64::MAX - 3,
    );
}

} // verus!
