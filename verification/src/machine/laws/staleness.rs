//! How data goes stale, and what makes it so.

use crate::key::{segments_model, KeyModel};
use crate::machine::event::{EffectModel, Event};
use crate::machine::model::{any_enabled, min_focus_throttle, min_stale_time, EntryModel};
use crate::machine::laws::steps::{lemma_inv_widens, lemma_one, lemma_prepared_entry, lemma_result};
use crate::machine::table::MachineModel;
use crate::machine::upkeep::law_every_event_keeps_the_invariant;
use crate::options::{QueryOptions, SwrEvent};
use crate::time::{Duration, Instant};
use std::sync::Arc;
use vstd::prelude::*;

verus! {

/// An invalidated entry is stale for every reader and at any age, unless the
/// refetch that settles it is under way. That starts at once where somebody
/// subscribes and there is a fetcher; during a mutation it has to wait.
pub proof fn law_invalidated_data_is_stale<V: ?Sized, F: ?Sized, C>(
    m: MachineModel<V, F, C>,
    ev: Event<V, F, C>,
    unchanged: bool,
    now: Instant,
    key: KeyModel,
    stale_time: Duration,
    later: Instant,
)
    requires
        m.valid(1),
        ev matches Event::Invalidate { prefix } && key.under(segments_model(prefix@)),
        m.entry(key) is Some,
    ensures
        ({
            let before = m.entry(key)->0;
            let step = m.step(ev, unchanged, now);
            let e = step.machine.entry(key)->0;
            let refetches = before.is_active() && before.fetcher is Some && before.mutation_active
                == 0;
            &&& step.machine.entry(key) is Some
            &&& !refetches ==> e.is_stale(stale_time, later) && e.inflight is None
            &&& refetches ==> step.effects.contains(
                EffectModel::StartFetch {
                    key,
                    incarnation: e.incarnation,
                    seq: e.seq,
                    fetcher: e.fetcher->0,
                },
            )
        }),
{
    lemma_prepared_entry(m, ev, key, u64::MAX - 3);
    lemma_one(m, ev, unchanged, now, key);
    lemma_result(m, ev, unchanged, now, key, u64::MAX - 3);
}

/// An invalidation keeps the data: it is served as stale until the refetch
/// lands.
pub proof fn law_invalidation_keeps_the_data<V: ?Sized, F: ?Sized, C>(
    m: MachineModel<V, F, C>,
    ev: Event<V, F, C>,
    unchanged: bool,
    now: Instant,
    key: KeyModel,
)
    requires
        m.valid(1),
        ev is Invalidate,
        m.entry(key) is Some,
    ensures
        m.step(ev, unchanged, now).machine.entry(key) matches Some(e) && {
            &&& e.data == m.entry(key)->0.data
            &&& e.error == m.entry(key)->0.error
            &&& e.data_seq == m.entry(key)->0.data_seq
            &&& e.updated_at == m.entry(key)->0.updated_at
        },
{
    lemma_prepared_entry(m, ev, key, u64::MAX - 3);
    lemma_one(m, ev, unchanged, now, key);
}

/// With the longest freshness window, data never goes stale by age: only an
/// invalidation makes it so.
pub proof fn law_immutable_data_never_ages<V: ?Sized, F: ?Sized, C>(
    e: EntryModel<V, F, C>,
    now: Instant,
)
    ensures
        e.is_stale(Duration::longest(), now) == (e.invalidated || e.updated_at is None),
{
}

/// An environment event leaves an entry alone when no subscriber reacts to it.
pub proof fn law_disabled_broadcasts_are_ignored<V: ?Sized, F: ?Sized, C>(
    m: MachineModel<V, F, C>,
    ev: SwrEvent,
    now: Instant,
    key: KeyModel,
)
    requires
        m.valid(1),
        m.entry(key) matches Some(e) && !any_enabled(e.subs, ev),
    ensures
        m.step(Event::Broadcast { ev }, false, now).machine.entry(key) == m.entry(key),
{
    let event = Event::<V, F, C>::Broadcast { ev };
    lemma_prepared_entry(m, event, key, u64::MAX - 3);
    lemma_one(m, event, false, now, key);
}

/// An environment event leaves fresh data alone.
pub proof fn law_broadcasts_leave_fresh_data_alone<V: ?Sized, F: ?Sized, C>(
    m: MachineModel<V, F, C>,
    ev: SwrEvent,
    now: Instant,
    key: KeyModel,
)
    requires
        m.valid(1),
        m.entry(key) matches Some(e) && !e.is_stale(
            min_stale_time(e.subs, m.defaults.stale_time),
            now,
        ),
    ensures
        m.step(Event::Broadcast { ev }, false, now).machine.entry(key) == m.entry(key),
{
    let event = Event::<V, F, C>::Broadcast { ev };
    lemma_prepared_entry(m, event, key, u64::MAX - 3);
    lemma_one(m, event, false, now, key);
}

/// Focus events are throttled: once one has made an entry refetch, the next
/// are ignored until the throttle has passed.
pub proof fn law_focus_is_throttled<
    V: ?Sized,
    F: ?Sized,
    C: Fn(&Arc<V>, &Arc<V>) -> bool,
>(
    m: MachineModel<V, F, C>,
    now: Instant,
    later: Instant,
    key: KeyModel,
    until: Instant,
)
    requires
        m.valid(2),
        m.entry(key) matches Some(e) && e.accepts(SwrEvent::Focus, now, m.defaults) && now.after(
            min_focus_throttle(e.subs, m.defaults.focus_throttle),
        ) == Some(until),
        later.nanos < until.nanos,
    ensures
        ({
            let focus = Event::<V, F, C>::Broadcast { ev: SwrEvent::Focus };
            let once = m.step(focus, false, now).machine;
            &&& once.entry(key) matches Some(e) && e.inflight is Some
            &&& once.step(focus, false, later).machine.entry(key) == once.entry(key)
        }),
{
    let focus = Event::<V, F, C>::Broadcast { ev: SwrEvent::Focus };
    lemma_inv_widens(m, u64::MAX - 6, u64::MAX - 3);
    lemma_prepared_entry(m, focus, key, u64::MAX - 3);
    lemma_one(m, focus, false, now, key);
    law_every_event_keeps_the_invariant(m, focus, false, now, u64::MAX - 6);
    let once = m.step(focus, false, now).machine;
    lemma_prepared_entry(once, focus, key, u64::MAX - 3);
    lemma_one(once, focus, false, later, key);
}

/// Until the throttle has passed no focus event is accepted, even when the
/// refetch is done.
pub proof fn law_blocked_focus_is_not_accepted<V: ?Sized, F: ?Sized, C>(
    e: EntryModel<V, F, C>,
    now: Instant,
    defaults: QueryOptions,
)
    requires
        e.focus_blocked_until matches Some(until) && now.nanos < until.nanos,
    ensures
        !e.accepts(SwrEvent::Focus, now, defaults),
{
}

} // verus!
