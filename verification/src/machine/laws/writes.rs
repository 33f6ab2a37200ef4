//! What writes and mutations leave behind.

use crate::key::KeyModel;
use crate::machine::event::{EffectModel, Event};
use crate::machine::model::EntryModel;
use crate::machine::laws::reach::subject;
use crate::machine::laws::steps::{lemma_one, lemma_prepared_entry, lemma_removal, lemma_result};
use crate::machine::table::MachineModel;
use crate::time::{Duration, Instant};
use std::sync::Arc;
use crate::machine::laws::reach::law_other_keys_stay;
use vstd::prelude::*;

verus! {

/// A fetch result that lands is published, whatever the comparator says: the
/// data counts as written by that fetch, now, and without an error. Only
/// whether the stored value is kept depends on the comparator.
pub proof fn law_landed_fetch_is_published<V: ?Sized, F: ?Sized, C>(
    m: MachineModel<V, F, C>,
    ev: Event<V, F, C>,
    unchanged: bool,
    now: Instant,
    key: KeyModel,
    seq: u64,
    value: Arc<V>,
)
    requires
        m.valid(1),
        ev matches Event::CommitOk { key: k, incarnation, seq: s, value: v } && k@ == key && s
            == seq && v == value && (m.entry(key) matches Some(e) && e.lands(incarnation, seq)),
    ensures
        ({
            let step = m.step(ev, unchanged, now);
            let e = step.machine.entry(key)->0;
            &&& step.machine.entry(key) is Some
            &&& e.data == if unchanged {
                m.entry(key)->0.data
            } else {
                Some(value)
            }
            &&& e.data_seq == seq
            &&& e.updated_at == Some(now)
            &&& e.error is None
            &&& e.inflight is None
            &&& step.effects.contains(
                EffectModel::Notify { incarnation: e.incarnation, snapshot: e.snapshot_now() },
            )
        }),
{
    lemma_one(m, ev, unchanged, now, key);
    lemma_result(m, ev, unchanged, now, key, u64::MAX - 3);
}

/// A failed fetch keeps the data as it was and leaves its age alone. The error
/// is recorded beside it, and published.
pub proof fn law_failed_fetch_keeps_the_data<V: ?Sized, F: ?Sized, C>(
    m: MachineModel<V, F, C>,
    ev: Event<V, F, C>,
    unchanged: bool,
    now: Instant,
    key: KeyModel,
    seq: u64,
    error: Arc<V>,
)
    requires
        m.valid(1),
        ev matches Event::CommitErr { key: k, incarnation, seq: s, error: x } && k@ == key && s
            == seq && x == error && (m.entry(key) matches Some(e) && e.lands(incarnation, seq)),
    ensures
        ({
            let step = m.step(ev, unchanged, now);
            let before = m.entry(key)->0;
            let e = step.machine.entry(key)->0;
            &&& step.machine.entry(key) is Some
            &&& e.data == before.data
            &&& e.data_seq == before.data_seq
            &&& e.updated_at == before.updated_at
            &&& e.error == Some(error)
            &&& e.error_seq == seq
            &&& e.inflight is None
            &&& step.effects.contains(
                EffectModel::Notify { incarnation: e.incarnation, snapshot: e.snapshot_now() },
            )
        }),
{
    lemma_one(m, ev, unchanged, now, key);
    lemma_result(m, ev, unchanged, now, key, u64::MAX - 3);
}

/// A local write counts as fresh, authoritative data: it settles errors and
/// invalidations, and is published.
pub proof fn law_local_write_has_authority<V: ?Sized, F: ?Sized, C>(
    m: MachineModel<V, F, C>,
    ev: Event<V, F, C>,
    unchanged: bool,
    now: Instant,
    key: KeyModel,
    value: Arc<V>,
    stale_time: Duration,
)
    requires
        m.valid(1),
        ev matches Event::MutateSet { key: k, value: v } && k@ == key && v == value,
        stale_time.nanos > 0,
    ensures
        ({
            let step = m.step(ev, unchanged, now);
            let e = step.machine.entry(key)->0;
            &&& step.machine.entry(key) is Some
            &&& e.data == Some(value)
            &&& e.error is None
            &&& e.inflight is None
            &&& !e.is_stale(stale_time, now)
            &&& step.effects.contains(
                EffectModel::Notify { incarnation: e.incarnation, snapshot: e.snapshot_now() },
            )
        }),
{
    lemma_prepared_entry(m, ev, key, u64::MAX - 3);
    lemma_one(m, ev, unchanged, now, key);
    lemma_result(m, ev, unchanged, now, key, u64::MAX - 3);
}

/// A local write answers every reader that waits on the entry: it reaches all
/// numbers that were given out before it.
pub proof fn law_local_write_answers_waiting_readers<V: ?Sized, F: ?Sized, C>(
    m: MachineModel<V, F, C>,
    ev: Event<V, F, C>,
    unchanged: bool,
    now: Instant,
    key: KeyModel,
    target: u64,
)
    requires
        m.valid(1),
        ev matches Event::MutateSet { key: k, .. } && k@ == key,
        target <= m.met(key).seq,
    ensures
        m.step(ev, unchanged, now).machine.entry(key) matches Some(e) && e.data_seq >= target,
{
    lemma_prepared_entry(m, ev, key, u64::MAX - 3);
    lemma_one(m, ev, unchanged, now, key);
}

/// An optimistic value is shown at once but never counts as fresh: it leaves
/// the age of the data alone.
pub proof fn law_optimistic_value_is_not_fresh<V: ?Sized, F: ?Sized, C>(
    m: MachineModel<V, F, C>,
    ev: Event<V, F, C>,
    unchanged: bool,
    now: Instant,
    key: KeyModel,
    value: Arc<V>,
    stale_time: Duration,
    later: Instant,
)
    requires
        m.valid(1),
        ev matches Event::MutateBegin { key: k, optimistic } && k@ == key && optimistic == Some(
            value,
        ),
    ensures
        ({
            let step = m.step(ev, unchanged, now);
            let e = step.machine.entry(key)->0;
            &&& step.machine.entry(key) is Some
            &&& e.data == Some(value)
            &&& e.updated_at == m.met(key).updated_at
            &&& e.is_stale(stale_time, later) == m.met(key).is_stale(stale_time, later)
            &&& step.effects.contains(
                EffectModel::Notify { incarnation: e.incarnation, snapshot: e.snapshot_now() },
            )
        }),
{
    lemma_prepared_entry(m, ev, key, u64::MAX - 3);
    lemma_one(m, ev, unchanged, now, key);
    lemma_result(m, ev, unchanged, now, key, u64::MAX - 3);
}

/// The event is a failing end of the mutation with this ticket, to be rolled
/// back: an error, or an abort.
pub open spec fn fails<V: ?Sized, F: ?Sized, C>(
    ev: Event<V, F, C>,
    key: KeyModel,
    written_seq: Option<u64>,
) -> bool {
    match ev {
        Event::MutateCommit { token, result, flags } => {
            &&& token.key@ == key
            &&& token.written_seq == written_seq
            &&& result is Err
            &&& flags.rollback_on_error
        },
        Event::MutateAbort { token, flags } => {
            &&& token.key@ == key
            &&& token.written_seq == written_seq
            &&& flags.rollback_on_error
        },
        _ => false,
    }
}

/// The event writes to the entry of `key`.
pub open spec fn writes_to<V: ?Sized, F: ?Sized, C>(ev: Event<V, F, C>, key: KeyModel) -> bool {
    (ev is MutateSet || ev is MutateBegin || ev is MutateCommit || ev is MutateAbort) && subject(ev)
        == Some(key)
}

/// While a mutation is in progress, only writes and other mutations reach the
/// data: all else leaves the values, their numbers and age, and what a rollback
/// would restore as they are.
#[verifier::rlimit(40)]
pub proof fn law_mutation_shields_the_data<V: ?Sized, F: ?Sized, C>(
    m: MachineModel<V, F, C>,
    ev: Event<V, F, C>,
    unchanged: bool,
    now: Instant,
    key: KeyModel,
)
    requires
        m.valid(1),
        m.entry(key) matches Some(e) && e.mutation_active > 0,
        !writes_to(ev, key),
    ensures
        m.step(ev, unchanged, now).machine.entry(key) matches Some(e) && shielded(
            m.entry(key)->0,
            e,
        ),
{
    if subject(ev) is Some && subject(ev) != Some(key) {
        law_other_keys_stay(m, ev, unchanged, now, key);
    } else if m.collects(ev) {
        lemma_removal(m, ev->TimerFired_key@, key);
    } else {
        lemma_prepared_entry(m, ev, key, u64::MAX - 3);
        lemma_one(m, ev, unchanged, now, key);
    }
}

/// What a mutation in progress protects is the same in both entries.
pub open spec fn shielded<V: ?Sized, F: ?Sized, C>(
    before: EntryModel<V, F, C>,
    after: EntryModel<V, F, C>,
) -> bool {
    &&& after.incarnation == before.incarnation
    &&& after.data == before.data
    &&& after.error == before.error
    &&& after.data_seq == before.data_seq
    &&& after.error_seq == before.error_seq
    &&& after.updated_at == before.updated_at
    &&& after.optimistic == before.optimistic
    &&& after.mutation_active == before.mutation_active
}

} // verus!
