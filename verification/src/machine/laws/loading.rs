//! When a fetch starts, and what the event that may start it answers.

use crate::key::{segments_model, KeyModel};
use crate::machine::event::{Event, OutcomeModel, ReadModel, TimerKind};
use crate::machine::laws::mutations::{end_flags, populates};
use crate::machine::laws::reach::subject;
use crate::machine::laws::steps::{lemma_one, lemma_prepared_entry};
use crate::machine::laws::terms::{aged, fetch_asked, free, launches, lemma_asked};
use crate::machine::model::EntryModel;
use crate::machine::table::MachineModel;
use crate::options::ReadPolicy;
use crate::snapshot::Snapshot;
use crate::time::Instant;
use std::sync::Arc;
use vstd::prelude::*;

verus! {

/// A snapshot shows what is in an entry, under the version that the entry had
/// published last.
pub open spec fn shows<V: ?Sized, F: ?Sized, C>(
    s: Snapshot<V, V>,
    e: EntryModel<V, F, C>,
    inflight: Option<u64>,
) -> bool {
    &&& s.data == e.data
    &&& s.error == e.error
    &&& s.data_seq == e.data_seq
    &&& s.error_seq == e.error_seq
    &&& s.inflight == inflight
    &&& s.is_mutating == (e.mutation_active > 0)
    &&& s.updated_at == e.updated_at
    &&& s.version == e.snap_version
}

/// The fetcher that is stored once somebody has come with or without one.
pub open spec fn at_hand<F: ?Sized>(brought: Option<Arc<F>>, stored: Option<Arc<F>>) -> Option<
    Arc<F>,
> {
    if brought is Some {
        brought
    } else {
        stored
    }
}

/// A read that finds fresh data, and a cache-only read that finds an entry,
/// answers at once with what is there, and starts no fetch.
pub proof fn law_a_hit_is_answered_from_the_entry<V: ?Sized, F: ?Sized, C>(
    m: MachineModel<V, F, C>,
    ev: Event<V, F, C>,
    unchanged: bool,
    now: Instant,
    key: KeyModel,
)
    requires
        m.valid(1),
        ev matches Event::Read { key: k, policy, opts, .. } && k@ == key && (m.entry(
            key,
        ) matches Some(e) && (policy == ReadPolicy::CacheOnly || (e.data is Some && !aged(
            e,
            opts.stale_time,
            now,
        )))),
    ensures
        ({
            let before = m.entry(key)->0;
            let step = m.step(ev, unchanged, now);
            &&& step.outcome matches OutcomeModel::Read(ReadModel::Ready(s)) && shows(
                s,
                before,
                before.inflight,
            )
            &&& step.machine.entry(key) matches Some(e) && {
                &&& e.inflight == before.inflight
                &&& e.seq == before.seq
                &&& e.invalidated == before.invalidated
            }
            &&& !fetch_asked(step.effects, key)
        }),
{
    lemma_prepared_entry(m, ev, key, u64::MAX - 3);
    lemma_one(m, ev, unchanged, now, key);
    lemma_asked(m, ev, unchanged, now, key);
}

/// A read that takes stale data answers at once with the data that is there,
/// and starts a fetch in the background if one can start. Its answer already
/// says so.
pub proof fn law_stale_data_is_answered_and_refreshed<V: ?Sized, F: ?Sized, C>(
    m: MachineModel<V, F, C>,
    ev: Event<V, F, C>,
    unchanged: bool,
    now: Instant,
    key: KeyModel,
)
    requires
        m.valid(1),
        ev matches Event::Read { key: k, policy, opts, .. } && k@ == key && policy
            == ReadPolicy::StaleWhileRevalidate && (m.entry(key) matches Some(e) && e.data is Some
            && aged(e, opts.stale_time, now)),
    ensures
        ({
            let before = m.entry(key)->0;
            let step = m.step(ev, unchanged, now);
            let starts = at_hand(ev->Read_fetcher, before.fetcher) is Some && before.inflight
                is None && before.mutation_active == 0;
            &&& step.outcome matches OutcomeModel::Read(ReadModel::Ready(s)) && shows(
                s,
                before,
                step.machine.entry(key)->0.inflight,
            )
            &&& starts ==> launches(step, key, before.seq)
            &&& !starts ==> !fetch_asked(step.effects, key) && (step.machine.entry(key) matches Some(
                e,
            ) && e.inflight == before.inflight && e.seq == before.seq && e.invalidated
                == before.invalidated)
        }),
{
    lemma_prepared_entry(m, ev, key, u64::MAX - 3);
    lemma_one(m, ev, unchanged, now, key);
    lemma_asked(m, ev, unchanged, now, key);
}

/// A read that needs data which is not there never answers with a snapshot,
/// whatever else is stored: a failure of the past is no answer. Data is not there
/// for a read that takes stale data when there is none, and for one that wants
/// fresh data when what is there is stale. Such a read waits for the fetch in
/// flight, or starts one and waits for it, or waits for the mutation in progress;
/// with none of these and no fetcher it says so.
pub proof fn law_a_read_without_usable_data_waits<V: ?Sized, F: ?Sized, C>(
    m: MachineModel<V, F, C>,
    ev: Event<V, F, C>,
    unchanged: bool,
    now: Instant,
    key: KeyModel,
)
    requires
        m.valid(1),
        ev matches Event::Read { key: k, policy, opts, .. } && k@ == key && policy
            != ReadPolicy::CacheOnly && (m.entry(key) matches Some(e) ==> e.data is None || (policy
            == ReadPolicy::EnsureFresh && aged(e, opts.stale_time, now))),
    ensures
        ({
            let before = m.entry(key);
            let step = m.step(ev, unchanged, now);
            let incarnation = step.machine.entry(key)->0.incarnation;
            let last: u64 = match before {
                Some(e) => e.seq,
                None => 0,
            };
            let fetcher = at_hand(
                ev->Read_fetcher,
                match before {
                    Some(e) => e.fetcher,
                    None => None,
                },
            );
            let flight: Option<u64> = match before {
                Some(e) => e.inflight,
                None => None,
            };
            let mutating = before matches Some(e) && e.mutation_active > 0;
            &&& step.machine.holds(key)
            &&& flight matches Some(target) ==> {
                &&& step.outcome == OutcomeModel::<V>::Read(ReadModel::Wait { target, incarnation })
                &&& !fetch_asked(step.effects, key)
                &&& step.machine.entry(key)->0.inflight == flight
                &&& step.machine.entry(key)->0.seq == last
            }
            &&& flight is None && mutating ==> {
                &&& step.outcome == OutcomeModel::<V>::Read(
                    ReadModel::Wait { target: last, incarnation },
                )
                &&& !fetch_asked(step.effects, key)
                &&& step.machine.entry(key)->0.inflight is None
                &&& step.machine.entry(key)->0.seq == last
            }
            &&& flight is None && !mutating && fetcher is Some ==> {
                &&& step.outcome == OutcomeModel::<V>::Read(
                    ReadModel::Wait { target: (last + 1) as u64, incarnation },
                )
                &&& launches(step, key, last)
            }
            &&& flight is None && !mutating && fetcher is None ==> {
                &&& step.outcome == OutcomeModel::<V>::Read(ReadModel::NoFetcher)
                &&& !fetch_asked(step.effects, key)
                &&& step.machine.entry(key)->0.inflight is None
                &&& step.machine.entry(key)->0.seq == last
            }
        }),
{
    lemma_prepared_entry(m, ev, key, u64::MAX - 3);
    lemma_one(m, ev, unchanged, now, key);
    lemma_asked(m, ev, unchanged, now, key);
}

/// A subscription loads what is missing or stale by the subscriber's own measure:
/// it starts a fetch if there is a fetcher, brought or stored, and neither a fetch
/// nor a mutation is under way. Otherwise it starts none.
pub proof fn law_a_subscription_loads_missing_or_stale_data<V: ?Sized, F: ?Sized, C>(
    m: MachineModel<V, F, C>,
    ev: Event<V, F, C>,
    unchanged: bool,
    now: Instant,
    key: KeyModel,
)
    requires
        m.valid(1),
        ev matches Event::Subscribe { key: k, .. } && k@ == key,
    ensures
        ({
            let step = m.step(ev, unchanged, now);
            let wanted = m.entry(key) matches Some(e) ==> e.data is None || aged(
                e,
                ev->Subscribe_opts.stale_time,
                now,
            );
            let stored = match m.entry(key) {
                Some(e) => e.fetcher,
                None => None,
            };
            let idle = m.entry(key) matches Some(e) ==> e.inflight is None && e.mutation_active
                == 0;
            let last: u64 = match m.entry(key) {
                Some(e) => e.seq,
                None => 0,
            };
            let starts = wanted && idle && at_hand(ev->Subscribe_fetcher, stored) is Some;
            &&& starts ==> launches(step, key, last)
            &&& !starts ==> {
                &&& !fetch_asked(step.effects, key)
                &&& step.machine.entry(key) matches Some(e) && e.seq == last && e.inflight
                    == match m.entry(key) {
                    Some(b) => b.inflight,
                    None => None,
                }
            }
            &&& step.outcome == (OutcomeModel::<V>::Subscribed {
                sub_id: m.next_sub_id,
                incarnation: step.machine.entry(key)->0.incarnation,
            })
        }),
{
    lemma_prepared_entry(m, ev, key, u64::MAX - 3);
    lemma_one(m, ev, unchanged, now, key);
    lemma_asked(m, ev, unchanged, now, key);
}

/// A revalidation request starts a fetch exactly when there is a fetcher and
/// neither a fetch nor a mutation is under way. Stale or not, and whatever error
/// is stored, plays no part.
pub proof fn law_a_request_revalidates_whatever_is_there<V: ?Sized, F: ?Sized, C>(
    m: MachineModel<V, F, C>,
    ev: Event<V, F, C>,
    unchanged: bool,
    now: Instant,
    key: KeyModel,
)
    requires
        m.valid(1),
        ev matches Event::RevalidateRequested { key: k } && k@ == key,
        m.entry(key) is Some,
    ensures
        ({
            let before = m.entry(key)->0;
            let step = m.step(ev, unchanged, now);
            &&& free(before) ==> launches(step, key, before.seq)
            &&& !free(before) ==> !fetch_asked(step.effects, key) && (step.machine.entry(
                key,
            ) matches Some(e) && e.inflight == before.inflight && e.seq == before.seq)
        }),
{
    lemma_prepared_entry(m, ev, key, u64::MAX - 3);
    lemma_one(m, ev, unchanged, now, key);
    lemma_asked(m, ev, unchanged, now, key);
}

/// A refresh tick fetches exactly when it is the current one, somebody
/// subscribes, there is a fetcher, and neither a fetch nor a mutation is under
/// way. The age of the data plays no part.
pub proof fn law_a_refresh_tick_fetches<V: ?Sized, F: ?Sized, C>(
    m: MachineModel<V, F, C>,
    ev: Event<V, F, C>,
    unchanged: bool,
    now: Instant,
    key: KeyModel,
)
    requires
        m.valid(1),
        ev matches Event::TimerFired { key: k, kind, .. } && k@ == key && kind
            == TimerKind::Refresh,
        m.entry(key) is Some,
    ensures
        ({
            let before = m.entry(key)->0;
            let step = m.step(ev, unchanged, now);
            let starts = ev->TimerFired_generation == before.refresh_gen && before.subscribers > 0
                && free(before);
            &&& starts ==> launches(step, key, before.seq)
            &&& !starts ==> !fetch_asked(step.effects, key) && (step.machine.entry(
                key,
            ) matches Some(e) && e.inflight == before.inflight && e.seq == before.seq
                && e.invalidated == before.invalidated)
        }),
{
    lemma_prepared_entry(m, ev, key, u64::MAX - 3);
    lemma_one(m, ev, unchanged, now, key);
    lemma_asked(m, ev, unchanged, now, key);
}

/// An invalidation outside a mutation gives the fetch in flight up, and refetches
/// exactly when somebody subscribes and there is a fetcher. Where it does not
/// refetch, the entry stays marked stale. During a mutation it only marks.
pub proof fn law_an_invalidation_refetches_for_subscribers<V: ?Sized, F: ?Sized, C>(
    m: MachineModel<V, F, C>,
    ev: Event<V, F, C>,
    unchanged: bool,
    now: Instant,
    key: KeyModel,
)
    requires
        m.valid(1),
        ev matches Event::Invalidate { prefix } && key.under(segments_model(prefix@)),
        m.entry(key) is Some,
    ensures
        ({
            let before = m.entry(key)->0;
            let step = m.step(ev, unchanged, now);
            let overtaken: u64 = if before.inflight is Some {
                (before.seq + 1) as u64
            } else {
                before.seq
            };
            let starts = before.mutation_active == 0 && before.subscribers > 0 && before.fetcher
                is Some;
            &&& starts ==> launches(step, key, overtaken)
            &&& !starts ==> !fetch_asked(step.effects, key) && (step.machine.entry(
                key,
            ) matches Some(e) && e.invalidated && e.inflight is None && e.seq == overtaken)
        }),
{
    lemma_prepared_entry(m, ev, key, u64::MAX - 3);
    lemma_one(m, ev, unchanged, now, key);
    lemma_asked(m, ev, unchanged, now, key);
}

/// The end of a mutation starts a fetch exactly when it is the last one in
/// progress, there is a fetcher, and a revalidation is asked for or an
/// invalidation is left to make up for. A result that was just written makes up
/// for the latter.
pub proof fn law_the_end_of_mutations_refetches<V: ?Sized, F: ?Sized, C>(
    m: MachineModel<V, F, C>,
    end: Event<V, F, C>,
    unchanged: bool,
    now: Instant,
    key: KeyModel,
)
    requires
        m.valid(1),
        subject(end) == Some(key),
        end_flags(end) is Some,
        m.entry(key) is Some,
    ensures
        ({
            let before = m.entry(key)->0;
            let step = m.step(end, unchanged, now);
            let last: u64 = if populates(end) {
                (before.seq + 1) as u64
            } else {
                before.seq
            };
            let flight: Option<u64> = if populates(end) {
                None
            } else {
                before.inflight
            };
            let starts = before.mutation_active <= 1 && before.fetcher is Some && flight is None
                && (end_flags(end)->0.revalidate || (before.invalidated && !populates(end)));
            &&& starts ==> launches(step, key, last)
            &&& !starts ==> !fetch_asked(step.effects, key) && (step.machine.entry(
                key,
            ) matches Some(e) && e.inflight == flight && e.seq == last && e.invalidated == (
            before.invalidated && !populates(end)))
        }),
{
    lemma_prepared_entry(m, end, key, u64::MAX - 3);
    lemma_one(m, end, unchanged, now, key);
    lemma_asked(m, end, unchanged, now, key);
}

/// No other event starts a fetch: neither the end of a subscription, nor the
/// result of a fetch, nor a local write, nor the beginning of a mutation, nor a
/// removal timer. And none starts one of a key that it is not about.
pub proof fn law_nothing_else_starts_a_fetch<V: ?Sized, F: ?Sized, C>(
    m: MachineModel<V, F, C>,
    ev: Event<V, F, C>,
    unchanged: bool,
    now: Instant,
    key: KeyModel,
)
    requires
        m.valid(1),
        match ev {
            Event::Unsubscribe { .. } => true,
            Event::CommitOk { .. } => true,
            Event::CommitErr { .. } => true,
            Event::MutateSet { .. } => true,
            Event::MutateBegin { .. } => true,
            Event::TimerFired { kind, .. } => kind == TimerKind::Gc || subject(ev) != Some(key),
            Event::Invalidate { prefix } => !key.under(segments_model(prefix@)),
            Event::Broadcast { .. } => false,
            _ => subject(ev) != Some(key),
        },
    ensures
        !fetch_asked(m.step(ev, unchanged, now).effects, key),
{
    if !m.collects(ev) {
        lemma_prepared_entry(m, ev, key, u64::MAX - 3);
        lemma_asked(m, ev, unchanged, now, key);
        if m.prepared(ev).holds(key) {
            lemma_one(m, ev, unchanged, now, key);
        }
    }
}

} // verus!
