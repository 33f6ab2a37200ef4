//! What the options of several subscribers come to.

use crate::key::KeyModel;
use crate::machine::event::Event;
use crate::machine::laws::steps::{lemma_one, lemma_prepared_entry, lemma_removal};
use crate::machine::laws::terms::{aged, fetch_asked, free, launches, lemma_asked};
use crate::machine::model::{
    any_enabled, gc_time, is_gc_time, is_min_focus_throttle, is_min_stale_time,
    is_refresh_interval, min_focus_throttle, min_stale_time, refresh_interval, EntryModel,
    Marks,
};
use crate::machine::table::MachineModel;
use crate::options::{QueryOptions, SwrEvent};
use crate::time::{Duration, Instant, MAX_INSTANT_NANOS};
use vstd::prelude::*;

verus! {

/// Of finitely many, one has the least measure.
proof fn lemma_least(ids: Set<u64>, measure: spec_fn(u64) -> int) -> (least: u64)
    requires
        ids.finite(),
        ids.len() > 0,
    ensures
        ids.contains(least),
        forall|id: u64| #[trigger] ids.contains(id) ==> measure(least) <= measure(id),
    decreases ids.len(),
{
    let one = ids.choose();
    let rest = ids.remove(one);
    if rest.len() == 0 {
        assert forall|id: u64| #[trigger] ids.contains(id) implies id == one by {
            assert(id != one ==> rest.contains(id));
        }
        one
    } else {
        let other = lemma_least(rest, measure);
        assert forall|id: u64| #[trigger] ids.contains(id) implies id == one || rest.contains(
            id,
        ) by {}
        if measure(one) <= measure(other) {
            one
        } else {
            other
        }
    }
}

/// Subscribers are there when the set of their ids is not the empty one.
proof fn lemma_some(subs: Map<u64, QueryOptions>)
    requires
        subs.dom().finite(),
    ensures
        subs.dom() =~= Set::<u64>::empty() <==> subs.dom().len() == 0,
{
    if subs.dom().len() == 0 {
        assert forall|id: u64| !subs.dom().contains(id) by {
            if subs.dom().contains(id) {
                assert(subs.dom().remove(id).len() + 1 == subs.dom().len());
            }
        }
    }
}

/// The removal delay of an entry is the longest that its subscribers and the
/// latest touch ask for: one of them asks for it, and none for more. With nobody
/// to ask it is the default.
pub proof fn law_the_longest_removal_delay_counts(
    subs: Map<u64, QueryOptions>,
    last_touch: Option<Duration>,
    default_gc: Duration,
)
    requires
        subs.dom().finite(),
    ensures
        ({
            let delay = gc_time(subs, last_touch, default_gc);
            &&& last_touch matches Some(d) ==> d.nanos <= delay.nanos
            &&& forall|id: u64| #[trigger]
                subs.contains_key(id) ==> subs[id].gc_time.nanos <= delay.nanos
            &&& last_touch == Some(delay) || (exists|id: u64| #[trigger]
                subs.contains_key(id) && subs[id].gc_time == delay) || (last_touch is None && (
            forall|id: u64| !#[trigger] subs.contains_key(id)) && delay == default_gc)
        }),
{
    lemma_some(subs);
    if subs.dom().len() == 0 {
        let d = match last_touch {
            Some(d) => d,
            None => default_gc,
        };
        assert forall|id: u64| !#[trigger] subs.contains_key(id) by {
            assert(!subs.dom().contains(id));
        }
        assert(is_gc_time(subs, last_touch, default_gc, d));
    } else {
        let most = lemma_least(subs.dom(), |id: u64| -(subs[id].gc_time.nanos as int));
        let longest = subs[most].gc_time;
        assert forall|id: u64| #[trigger] subs.contains_key(id) implies subs[id].gc_time.nanos
            <= longest.nanos by {
            assert(subs.dom().contains(id));
        }
        let d = match last_touch {
            Some(t) => if t.nanos >= longest.nanos {
                t
            } else {
                longest
            },
            None => longest,
        };
        assert(subs.contains_key(most));
        assert(is_gc_time(subs, last_touch, default_gc, d));
    }
}

/// The refresh interval of an entry is the shortest that a subscriber asks for,
/// and there is none exactly when nobody asks for one.
pub proof fn law_the_shortest_refresh_interval_counts(subs: Map<u64, QueryOptions>)
    requires
        subs.dom().finite(),
    ensures
        refresh_interval(subs) is None <==> (forall|id: u64| #[trigger]
            subs.contains_key(id) ==> subs[id].refresh_interval is None),
        refresh_interval(subs) matches Some(interval) ==> {
            &&& exists|id: u64| #[trigger]
                subs.contains_key(id) && subs[id].refresh_interval == Some(interval)
            &&& forall|id: u64| #[trigger]
                subs.contains_key(id) ==> (subs[id].refresh_interval matches Some(i)
                    ==> interval.nanos <= i.nanos)
        },
{
    let asking = subs.dom().filter(|id: u64| subs[id].refresh_interval is Some);
    assert(asking.finite());
    if asking.len() == 0 {
        assert forall|id: u64| #[trigger] subs.contains_key(id) implies subs[id].refresh_interval
            is None by {
            if subs[id].refresh_interval is Some {
                assert(asking.contains(id));
                assert(asking.remove(id).len() + 1 == asking.len());
            }
        }
        assert(is_refresh_interval(subs, None));
    } else {
        let least = lemma_least(asking, |id: u64| subs[id].refresh_interval->0.nanos as int);
        let interval = subs[least].refresh_interval->0;
        assert(subs.contains_key(least));
        assert forall|id: u64| #[trigger] subs.contains_key(
            id,
        ) implies (subs[id].refresh_interval matches Some(i) ==> interval.nanos <= i.nanos) by {
            if subs[id].refresh_interval is Some {
                assert(asking.contains(id));
            }
        }
        assert(is_refresh_interval(subs, Some(interval)));
    }
}

/// The freshness window that environment events apply is the shortest of the
/// subscribers'.
pub proof fn law_the_shortest_stale_time_counts(
    subs: Map<u64, QueryOptions>,
    default_stale: Duration,
)
    requires
        subs.dom().finite(),
    ensures
        ({
            let window = min_stale_time(subs, default_stale);
            &&& forall|id: u64| #[trigger]
                subs.contains_key(id) ==> window.nanos <= subs[id].stale_time.nanos
            &&& (exists|id: u64| #[trigger]
                subs.contains_key(id) && subs[id].stale_time == window) || ((forall|id: u64|
                !#[trigger] subs.contains_key(id)) && window == default_stale)
        }),
{
    lemma_some(subs);
    if subs.dom().len() == 0 {
        assert forall|id: u64| !#[trigger] subs.contains_key(id) by {
            assert(!subs.dom().contains(id));
        }
        assert(is_min_stale_time(subs, default_stale, default_stale));
    } else {
        let least = lemma_least(subs.dom(), |id: u64| subs[id].stale_time.nanos as int);
        assert(subs.contains_key(least));
        assert forall|id: u64| #[trigger] subs.contains_key(id) implies subs[least].stale_time.nanos
            <= subs[id].stale_time.nanos by {
            assert(subs.dom().contains(id));
        }
        assert(is_min_stale_time(subs, default_stale, subs[least].stale_time));
    }
}

/// The focus throttle of an entry is the shortest of the subscribers'.
pub proof fn law_the_shortest_focus_throttle_counts(
    subs: Map<u64, QueryOptions>,
    default_throttle: Duration,
)
    requires
        subs.dom().finite(),
    ensures
        ({
            let throttle = min_focus_throttle(subs, default_throttle);
            &&& forall|id: u64| #[trigger]
                subs.contains_key(id) ==> throttle.nanos <= subs[id].focus_throttle.nanos
            &&& (exists|id: u64| #[trigger]
                subs.contains_key(id) && subs[id].focus_throttle == throttle) || ((forall|id: u64|
                !#[trigger] subs.contains_key(id)) && throttle == default_throttle)
        }),
{
    lemma_some(subs);
    if subs.dom().len() == 0 {
        assert forall|id: u64| !#[trigger] subs.contains_key(id) by {
            assert(!subs.dom().contains(id));
        }
        assert(is_min_focus_throttle(subs, default_throttle, default_throttle));
    } else {
        let least = lemma_least(subs.dom(), |id: u64| subs[id].focus_throttle.nanos as int);
        assert(subs.contains_key(least));
        assert forall|id: u64| #[trigger] subs.contains_key(
            id,
        ) implies subs[least].focus_throttle.nanos <= subs[id].focus_throttle.nanos by {
            assert(subs.dom().contains(id));
        }
        assert(is_min_focus_throttle(subs, default_throttle, subs[least].focus_throttle));
    }
}

/// A subscriber wants environment events of this kind.
pub open spec fn wants(opts: QueryOptions, ev: SwrEvent) -> bool {
    (ev == SwrEvent::Focus && opts.revalidate_on_focus) || (ev == SwrEvent::Online
        && opts.revalidate_on_online)
}

/// An environment event refetches exactly the entries that somebody subscribes
/// to, where a subscriber wants such events, where the data is stale by some
/// subscriber's measure, which have a fetcher and neither a fetch nor a mutation
/// under way, and which, for focus events, are past their throttle. Nothing else
/// about an entry plays a part, a stored error least of all. Entries that it does
/// not refetch stay as they are.
#[verifier::rlimit(40)]
pub proof fn law_an_environment_event_refetches_stale_entries<V: ?Sized, F: ?Sized, C>(
    m: MachineModel<V, F, C>,
    ev: SwrEvent,
    unchanged: bool,
    now: Instant,
    key: KeyModel,
)
    requires
        m.valid(1),
        m.entry(key) is Some,
    ensures
        ({
            let before = m.entry(key)->0;
            let step = m.step(Event::<V, F, C>::Broadcast { ev }, unchanged, now);
            let wanted = exists|id: u64| #[trigger]
                before.subs.contains_key(id) && wants(before.subs[id], ev);
            let stale = exists|id: u64| #[trigger]
                before.subs.contains_key(id) && aged(before, before.subs[id].stale_time, now);
            let throttled = ev == SwrEvent::Focus && (before.focus_blocked_until matches Some(until)
                && now.nanos < until.nanos);
            let starts = before.subscribers > 0 && wanted && stale && free(before) && !throttled;
            &&& starts ==> launches(step, key, before.seq)
            &&& !starts ==> !fetch_asked(step.effects, key) && step.machine.entry(key) == m.entry(
                key,
            )
        }),
{
    let event = Event::<V, F, C>::Broadcast { ev };
    let before = m.entry(key)->0;
    lemma_prepared_entry(m, event, key, u64::MAX - 3);
    lemma_one(m, event, unchanged, now, key);
    lemma_asked(m, event, unchanged, now, key);
    assert(m.stands_at(key, m.position(key)));
    assert(before.subs.dom().finite());
    law_the_shortest_stale_time_counts(before.subs, m.defaults.stale_time);
    lemma_enabled(before.subs, ev);
    let window = min_stale_time(before.subs, m.defaults.stale_time);
    assert(before.is_stale(window, now) == aged(before, window, now));
}

/// Whether a subscriber reacts to an event is whether one wants it.
proof fn lemma_enabled(subs: Map<u64, QueryOptions>, ev: SwrEvent)
    ensures
        any_enabled(subs, ev) == exists|id: u64| #[trigger]
            subs.contains_key(id) && wants(subs[id], ev),
{
    if any_enabled(subs, ev) {
        let id = choose|id: u64| #[trigger]
            subs.contains_key(id) && match ev {
                SwrEvent::Focus => subs[id].revalidate_on_focus,
                SwrEvent::Online => subs[id].revalidate_on_online,
            };
        assert(subs.contains_key(id) && wants(subs[id], ev));
    }
    if exists|id: u64| #[trigger] subs.contains_key(id) && wants(subs[id], ev) {
        let id = choose|id: u64| #[trigger] subs.contains_key(id) && wants(subs[id], ev);
        assert(subs.contains_key(id));
    }
}

/// What an environment event makes of the block on focus events.
proof fn lemma_block_of_broadcast<V: ?Sized, F: ?Sized, C>(
    e: EntryModel<V, F, C>,
    ev: SwrEvent,
    now: Instant,
    defaults: QueryOptions,
)
    ensures
        ({
            let r = e.broadcast(ev, now, defaults);
            let accepted = ev == SwrEvent::Focus && r.marks.fetch;
            &&& r.entry.focus_blocked_until == if accepted {
                now.after(min_focus_throttle(e.subs, defaults.focus_throttle))
            } else {
                e.focus_blocked_until
            }
            &&& accepted ==> any_enabled(e.subs, SwrEvent::Focus)
        }),
{
    let accepted = e.accepts(ev, now, defaults);
    if !accepted {
        assert(e.broadcast(ev, now, defaults) == e.idle());
    }
}

/// No other event touches the block on focus events.
#[verifier::spinoff_prover]
proof fn lemma_block_of_others<V: ?Sized, F: ?Sized, C>(
    m: MachineModel<V, F, C>,
    i: int,
    ev: Event<V, F, C>,
    sub_id: u64,
    unchanged: bool,
    now: Instant,
)
    requires
        !(ev is Broadcast),
    ensures
        m.reaction(i, ev, sub_id, unchanged, now).entry.focus_blocked_until
            == m.slots[i].entry.focus_blocked_until,
{
}

/// The follow-up rules leave the block alone, and start what was marked.
proof fn lemma_block_of_settling<V: ?Sized, F: ?Sized, C>(
    e: EntryModel<V, F, C>,
    key: KeyModel,
    marks: Marks,
    now: Instant,
    defaults: QueryOptions,
)
    ensures
        e.settle(key, marks, now, defaults).entry.focus_blocked_until == e.focus_blocked_until,
        e.settle(key, marks, now, defaults).fetch is Some == marks.fetch,
{
}

/// A focus event that makes an entry refetch blocks the next ones for the
/// shortest throttle of its subscribers, or not at all if the clock does not
/// reach that far. No other event touches the block.
pub proof fn law_only_accepted_focus_events_block_the_next<V: ?Sized, F: ?Sized, C>(
    m: MachineModel<V, F, C>,
    ev: Event<V, F, C>,
    unchanged: bool,
    now: Instant,
    key: KeyModel,
)
    requires
        m.valid(1),
        m.entry(key) is Some,
        m.step(ev, unchanged, now).machine.entry(key) is Some,
    ensures
        ({
            let before = m.entry(key)->0;
            let step = m.step(ev, unchanged, now);
            let until = step.machine.entry(key)->0.focus_blocked_until;
            if (ev matches Event::Broadcast { ev: e } && e == SwrEvent::Focus) && fetch_asked(
                step.effects,
                key,
            ) {
                exists|id: u64|
                    {
                        let throttle = before.subs[id].focus_throttle.nanos;
                        &&& #[trigger] before.subs.contains_key(id)
                        &&& forall|other: u64| #[trigger]
                            before.subs.contains_key(other) ==> throttle
                                <= before.subs[other].focus_throttle.nanos
                        &&& until == if now.nanos + throttle <= MAX_INSTANT_NANOS {
                            Some(Instant { nanos: (now.nanos + throttle) as u128 })
                        } else {
                            None
                        }
                    }
            } else {
                until == before.focus_blocked_until
            }
        }),
{
    let before = m.entry(key)->0;
    assert(m.stands_at(key, m.position(key)));
    assert(before.subs.dom().finite());
    law_the_shortest_focus_throttle_counts(before.subs, m.defaults.focus_throttle);
    if m.collects(ev) {
        lemma_removal(m, ev->TimerFired_key@, key);
    } else {
        lemma_prepared_entry(m, ev, key, u64::MAX - 3);
        lemma_one(m, ev, unchanged, now, key);
        lemma_asked(m, ev, unchanged, now, key);
        let p = m.prepared(ev);
        let r = m.response(key, ev, unchanged, now);
        if let Event::Broadcast { ev: e } = ev {
            lemma_block_of_broadcast(before, e, now, m.defaults);
            assert(r == before.broadcast(e, now, m.defaults));
        } else {
            lemma_block_of_others(p, p.position(key), ev, m.next_sub_id, unchanged, now);
        }
        lemma_block_of_settling(r.entry, key, r.marks, now, m.defaults);
        lemma_enabled(before.subs, SwrEvent::Focus);
    }
}

/// With the options for data that never changes, no environment event is wanted, and
/// no data ages: only an invalidation makes it stale, or that it was never written.
pub proof fn law_immutable_options_ask_for_no_refetch<V: ?Sized, F: ?Sized, C>(
    opts: QueryOptions,
    e: EntryModel<V, F, C>,
    ev: SwrEvent,
    now: Instant,
)
    requires
        call_ensures(QueryOptions::immutable, (), opts),
    ensures
        !wants(opts, ev),
        aged(e, opts.stale_time, now) <==> e.invalidated || e.updated_at is None,
        opts.refresh_interval is None,
{
}

} // verus!
