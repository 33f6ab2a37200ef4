//! What readers get.

use crate::key::KeyModel;
use crate::machine::event::{EffectModel, Event, OutcomeModel, ReadModel};
use crate::machine::laws::steps::{
    lemma_effect_origin, lemma_idle_step, lemma_inv_widens, lemma_one, lemma_prepared_entry,
    lemma_result,
};
use crate::machine::table::MachineModel;
use crate::machine::upkeep::{law_every_event_keeps_the_invariant, lemma_position};
use crate::options::{QueryOptions, ReadPolicy};
use crate::snapshot::Snapshot;
use crate::time::Instant;
use std::sync::Arc;
use vstd::prelude::*;

verus! {

/// A read event, by its parts.
pub open spec fn reads<V: ?Sized, F: ?Sized, C>(
    ev: Event<V, F, C>,
    key: KeyModel,
    policy: ReadPolicy,
    opts: QueryOptions,
) -> bool {
    ev matches Event::Read { key: k, policy: p, opts: o, .. } && k@ == key && p == policy && o
        == opts
}

/// A read that waits for fresh data never returns stale data: what it returns
/// at once is there and not stale.
pub proof fn law_ensure_fresh_returns_fresh_data<V: ?Sized, F: ?Sized, C>(
    m: MachineModel<V, F, C>,
    ev: Event<V, F, C>,
    unchanged: bool,
    now: Instant,
    key: KeyModel,
    opts: QueryOptions,
    snapshot: Snapshot<V, V>,
)
    requires
        m.valid(1),
        reads(ev, key, ReadPolicy::EnsureFresh, opts),
        m.step(ev, unchanged, now).outcome == OutcomeModel::Read(ReadModel::Ready(snapshot)),
    ensures
        m.entry(key) matches Some(e) && {
            &&& !e.is_stale(opts.stale_time, now)
            &&& snapshot.data is Some
            &&& snapshot.data == e.data
        },
{
    lemma_entered(m, ev, key);
    lemma_one(m, ev, unchanged, now, key);
}

/// A read makes room for its key, unless it reads the cache only.
proof fn lemma_entered<V: ?Sized, F: ?Sized, C>(
    m: MachineModel<V, F, C>,
    ev: Event<V, F, C>,
    key: KeyModel,
)
    requires
        m.valid(1),
        m.prepared(ev) == m.entered(key),
    ensures
        m.prepared(ev).holds(key),
{
    lemma_prepared_entry(m, ev, key, u64::MAX - 3);
}

/// Stale data is served at once: a read that allows it returns the current
/// data whenever there is any, and refreshes it in the background if it is
/// stale and a fetch can start.
pub proof fn law_stale_data_is_served_at_once<V: ?Sized, F: ?Sized, C>(
    m: MachineModel<V, F, C>,
    ev: Event<V, F, C>,
    unchanged: bool,
    now: Instant,
    key: KeyModel,
    opts: QueryOptions,
)
    requires
        m.valid(1),
        reads(ev, key, ReadPolicy::StaleWhileRevalidate, opts),
        m.entry(key) matches Some(e) && e.data is Some,
    ensures
        m.step(ev, unchanged, now).outcome matches OutcomeModel::Read(ReadModel::Ready(s))
            && s.data == m.entry(key)->0.data,
        ({
            let e = m.entry(key)->0;
            let after = m.step(ev, unchanged, now).machine.entry(key)->0;
            e.is_stale(opts.stale_time, now) && after.fetcher is Some && e.mutation_active == 0
                ==> after.inflight is Some
        }),
{
    lemma_entered(m, ev, key);
    lemma_one(m, ev, unchanged, now, key);
}

/// Fresh data is served at once under every policy, without a fetch.
pub proof fn law_fresh_data_is_served_without_a_fetch<V: ?Sized, F: ?Sized, C>(
    m: MachineModel<V, F, C>,
    ev: Event<V, F, C>,
    unchanged: bool,
    now: Instant,
    key: KeyModel,
    policy: ReadPolicy,
    opts: QueryOptions,
    x: EffectModel<V, F>,
)
    requires
        m.valid(1),
        reads(ev, key, policy, opts),
        m.entry(key) matches Some(e) && e.data is Some && !e.is_stale(opts.stale_time, now),
    ensures
        m.step(ev, unchanged, now).outcome matches OutcomeModel::Read(ReadModel::Ready(s))
            && s.data == m.entry(key)->0.data,
        m.step(ev, unchanged, now).effects.contains(x) ==> !(x is StartFetch),
{
    lemma_prepared_entry(m, ev, key, u64::MAX - 3);
    lemma_one(m, ev, unchanged, now, key);
    if m.step(ev, unchanged, now).effects.contains(x) {
        let origin = lemma_effect_origin(m, ev, unchanged, now, x);
        let p = m.prepared(ev);
        assert(p.stands_at(origin, p.position(origin)));
    }
}

/// A cache-only read never fetches, publishes nothing and creates no entry. It
/// returns what the cache holds.
pub proof fn law_cache_only_reads_the_cache_only<V: ?Sized, F: ?Sized, C>(
    m: MachineModel<V, F, C>,
    ev: Event<V, F, C>,
    unchanged: bool,
    now: Instant,
    key: KeyModel,
    opts: QueryOptions,
    other: KeyModel,
    x: EffectModel<V, F>,
)
    requires
        m.valid(1),
        reads(ev, key, ReadPolicy::CacheOnly, opts),
    ensures
        m.step(ev, unchanged, now).outcome == OutcomeModel::Read(
            ReadModel::Ready(
                match m.entry(key) {
                    Some(e) => e.snapshot_now(),
                    None => Snapshot::empty_spec(),
                },
            ),
        ),
        m.step(ev, unchanged, now).machine.holds(other) == m.holds(other),
        m.step(ev, unchanged, now).effects.contains(x) ==> x is ScheduleTimer,
{
    lemma_prepared_entry(m, ev, key, u64::MAX - 3);
    lemma_result(m, ev, unchanged, now, other, u64::MAX - 3);
    if m.step(ev, unchanged, now).effects.contains(x) {
        let origin = lemma_effect_origin(m, ev, unchanged, now, x);
        assert(m.stands_at(origin, m.position(origin)));
    }
}

/// A reader that is told to wait waits for something that is coming: for the
/// fetch in flight, which is newer than the data and the error that are there,
/// or for the mutation in progress to settle. It waits on the channel of the
/// entry, for a number that was given out and is above zero.
pub proof fn law_readers_wait_for_what_is_coming<V: ?Sized, F: ?Sized, C>(
    m: MachineModel<V, F, C>,
    ev: Event<V, F, C>,
    unchanged: bool,
    now: Instant,
    key: KeyModel,
    policy: ReadPolicy,
    opts: QueryOptions,
    target: u64,
    incarnation: u64,
)
    requires
        m.valid(1),
        reads(ev, key, policy, opts),
        m.step(ev, unchanged, now).outcome == OutcomeModel::<V>::Read(
            ReadModel::Wait { target, incarnation },
        ),
    ensures
        m.step(ev, unchanged, now).machine.entry(key) matches Some(e) && {
            &&& e.incarnation == incarnation
            &&& 0 < target <= e.seq
            &&& target > e.data_seq || e.data is Some
            &&& (e.inflight == Some(target) && target > e.data_seq && target > e.error_seq) || (
            e.mutation_active > 0 && target == e.seq)
        },
{
    lemma_prepared_entry(m, ev, key, u64::MAX - 3);
    if policy == ReadPolicy::CacheOnly {
        assert(m.stands_at(key, m.position(key)));
    } else {
        lemma_entered(m, ev, key);
        lemma_one(m, ev, unchanged, now, key);
    }
}

/// A read that brings a fetcher is never told that there is none.
pub proof fn law_a_read_with_a_fetcher_has_one<V: ?Sized, F: ?Sized, C>(
    m: MachineModel<V, F, C>,
    ev: Event<V, F, C>,
    unchanged: bool,
    now: Instant,
)
    requires
        m.valid(1),
        ev matches Event::Read { fetcher, .. } && fetcher is Some,
    ensures
        m.step(ev, unchanged, now).outcome != OutcomeModel::<V>::Read(ReadModel::NoFetcher),
{
}

/// A read after a local write returns the written value at once: under every
/// policy while the value is fresh, and whatever its age under the policies
/// that serve stale data.
pub proof fn law_read_returns_what_was_written<
    V: ?Sized,
    F: ?Sized,
    C: Fn(&Arc<V>, &Arc<V>) -> bool,
>(
    m: MachineModel<V, F, C>,
    write: Event<V, F, C>,
    written_at: Instant,
    value: Arc<V>,
    read: Event<V, F, C>,
    read_at: Instant,
    key: KeyModel,
    policy: ReadPolicy,
    opts: QueryOptions,
)
    requires
        m.valid(2),
        write matches Event::MutateSet { key: k, value: v } && k@ == key && v == value,
        reads(read, key, policy, opts),
        policy == ReadPolicy::EnsureFresh ==> (written_at.after(opts.stale_time) matches Some(
            deadline,
        ) ==> read_at.nanos < deadline.nanos),
    ensures
        ({
            let after = m.step(write, false, written_at).machine;
            after.step(read, false, read_at).outcome matches OutcomeModel::Read(
                ReadModel::Ready(s),
            ) && s.data == Some(value)
        }),
{
    lemma_inv_widens(m, u64::MAX - 6, u64::MAX - 3);
    lemma_entered(m, write, key);
    lemma_one(m, write, false, written_at, key);
    let after = m.step(write, false, written_at).machine;
    law_every_event_keeps_the_invariant(m, write, false, written_at, u64::MAX - 6);
    assert(after.holds(key));
    lemma_prepared_entry(after, read, key, u64::MAX - 3);
}

/// A revalidation request starts a fetch, under a number above all that were
/// given out, unless a fetch or a mutation is under way or there is no fetcher.
/// Then it starts none.
pub proof fn law_revalidation_starts_a_fetch<V: ?Sized, F: ?Sized, C>(
    m: MachineModel<V, F, C>,
    ev: Event<V, F, C>,
    unchanged: bool,
    now: Instant,
    key: KeyModel,
)
    requires
        m.valid(1),
        ev matches Event::RevalidateRequested { key: k } && k@ == key,
        m.entry(key) is Some,
    ensures
        ({
            let before = m.entry(key)->0;
            let step = m.step(ev, unchanged, now);
            let e = step.machine.entry(key)->0;
            &&& step.machine.entry(key) is Some
            &&& before.can_start_fetch() ==> e.inflight == Some((before.seq + 1) as u64)
                && step.effects.contains(
                EffectModel::StartFetch {
                    key,
                    incarnation: e.incarnation,
                    seq: e.seq,
                    fetcher: e.fetcher->0,
                },
            )
            &&& !before.can_start_fetch() ==> e.inflight == before.inflight && e.seq == before.seq
        }),
{
    lemma_prepared_entry(m, ev, key, u64::MAX - 3);
    lemma_one(m, ev, unchanged, now, key);
    lemma_result(m, ev, unchanged, now, key, u64::MAX - 3);
}

/// Without a fetcher a revalidation request is inert: it changes nothing and
/// asks for nothing. So it is for a key without an entry.
pub proof fn law_revalidation_without_a_fetcher_is_inert<V: ?Sized, F: ?Sized, C>(
    m: MachineModel<V, F, C>,
    ev: Event<V, F, C>,
    unchanged: bool,
    now: Instant,
)
    requires
        m.valid(1),
        ev matches Event::RevalidateRequested { key } && (m.entry(key@) matches Some(e)
            ==> e.fetcher is None),
    ensures
        m.step(ev, unchanged, now).machine == m,
        m.step(ev, unchanged, now).effects.len() == 0,
{
    let key = ev->RevalidateRequested_key@;
    assert forall|i: int| 0 <= i < m.slots.len() implies #[trigger] m.reaction(
        i,
        ev,
        m.next_sub_id,
        unchanged,
        now,
    ) == m.slots[i].entry.idle() by {
        if m.slots[i].key == key {
            assert(m.stands_at(key, i));
            lemma_position(m, key, i);
        }
    }
    lemma_idle_step(m, ev, unchanged, now);
}

/// The latest fetcher wins: one that a read or a subscription brings replaces
/// the stored one, and without one the stored one stays.
pub proof fn law_the_latest_fetcher_wins<V: ?Sized, F: ?Sized, C>(
    m: MachineModel<V, F, C>,
    ev: Event<V, F, C>,
    unchanged: bool,
    now: Instant,
    key: KeyModel,
    fetcher: Option<Arc<F>>,
)
    requires
        m.valid(1),
        match ev {
            Event::Read { key: k, fetcher: f, .. } => k@ == key && f == fetcher && m.holds(key),
            Event::Subscribe { key: k, fetcher: f, .. } => k@ == key && f == fetcher,
            _ => false,
        },
    ensures
        m.step(ev, unchanged, now).machine.entry(key) matches Some(e) && e.fetcher == if fetcher
            is Some {
            fetcher
        } else {
            m.met(key).fetcher
        },
{
    lemma_prepared_entry(m, ev, key, u64::MAX - 3);
    lemma_one(m, ev, unchanged, now, key);
}

} // verus!
