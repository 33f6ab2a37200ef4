//! The machine as a whole, stated over mathematical models.
//!
//! A step makes room for the event's key where the event creates entries, lets
//! every entry react, applies the follow-up rules, and lists the effects:
//! fetches first, then removal countdowns, then refresh ticks, then
//! notifications.

use crate::key::{segments_model, KeyModel, SegmentModel};
use crate::machine::event::{EffectModel, Event, OutcomeModel, ReadModel, TimerKind};
use crate::machine::model::{
    comparator_total, judged, succ, EntryModel, Marks, Reaction, Settled,
};
use crate::options::{QueryOptions, ReadPolicy, SwrEvent};
use crate::snapshot::Snapshot;
use crate::time::Instant;
use std::sync::Arc;
use vstd::prelude::*;

verus! {

/// An entry in its place in the table.
#[verifier::ext_equal]
pub struct SlotModel<V: ?Sized, F: ?Sized, C> {
    /// Key of the entry.
    pub key: KeyModel,
    /// The entry.
    pub entry: EntryModel<V, F, C>,
}

/// The machine: its entries in order of creation, and its counters.
#[verifier::ext_equal]
pub struct MachineModel<V: ?Sized, F: ?Sized, C> {
    /// The table.
    pub slots: Seq<SlotModel<V, F, C>>,
    /// Default options.
    pub defaults: QueryOptions,
    /// Id of the next subscription.
    pub next_sub_id: u64,
    /// Incarnation of the next entry.
    pub next_incarnation: u64,
}

/// What one event comes to.
pub struct Step<V: ?Sized, F: ?Sized, C> {
    /// The machine afterwards.
    pub machine: MachineModel<V, F, C>,
    /// What the event returns to its caller.
    pub outcome: OutcomeModel<V>,
    /// What the host has to do, in order.
    pub effects: Seq<EffectModel<V, F>>,
}

/// The items that are there, in order.
pub open spec fn listed<A>(items: Seq<Option<A>>) -> Seq<A>
    decreases items.len(),
{
    if items.len() == 0 {
        Seq::empty()
    } else {
        match items.last() {
            Some(item) => listed(items.drop_last()).push(item),
            None => listed(items.drop_last()),
        }
    }
}

/// The fetches that the entries ask for.
pub open spec fn fetches<V: ?Sized, F: ?Sized, C>(settled: Seq<Settled<V, F, C>>) -> Seq<
    Option<EffectModel<V, F>>,
> {
    settled.map_values(|s: Settled<V, F, C>| s.fetch)
}

/// The removal countdowns that the entries ask for.
pub open spec fn countdowns<V: ?Sized, F: ?Sized, C>(settled: Seq<Settled<V, F, C>>) -> Seq<
    Option<EffectModel<V, F>>,
> {
    settled.map_values(|s: Settled<V, F, C>| s.gc)
}

/// The refresh ticks that the entries ask for.
pub open spec fn ticks<V: ?Sized, F: ?Sized, C>(settled: Seq<Settled<V, F, C>>) -> Seq<
    Option<EffectModel<V, F>>,
> {
    settled.map_values(|s: Settled<V, F, C>| s.refresh)
}

/// The notifications that the entries ask for.
pub open spec fn notes<V: ?Sized, F: ?Sized, C>(settled: Seq<Settled<V, F, C>>) -> Seq<
    Option<EffectModel<V, F>>,
> {
    settled.map_values(|s: Settled<V, F, C>| s.note)
}

/// The effects of a batch, in order.
pub open spec fn batch<V: ?Sized, F: ?Sized, C>(settled: Seq<Settled<V, F, C>>) -> Seq<
    EffectModel<V, F>,
> {
    listed(fetches(settled)) + listed(countdowns(settled)) + listed(ticks(settled)) + listed(
        notes(settled),
    )
}

impl<V: ?Sized, F: ?Sized, C> MachineModel<V, F, C> {
    /// A machine without entries.
    pub open spec fn fresh(defaults: QueryOptions) -> Self {
        MachineModel { slots: Seq::empty(), defaults, next_sub_id: 0, next_incarnation: 0 }
    }

    /// The entry of `key` stands at position `i`.
    pub open spec fn stands_at(self, key: KeyModel, i: int) -> bool {
        0 <= i < self.slots.len() && self.slots[i].key == key
    }

    /// There is an entry for `key`.
    pub open spec fn holds(self, key: KeyModel) -> bool {
        exists|i: int| self.stands_at(key, i)
    }

    /// Where the entry of `key` stands.
    pub open spec fn position(self, key: KeyModel) -> int {
        choose|i: int| self.stands_at(key, i)
    }

    /// No key stands twice in the table.
    pub open spec fn distinct(self) -> bool {
        forall|i: int, j: int|
            0 <= i < j < self.slots.len() ==> (#[trigger] self.slots[i]).key != (
            #[trigger] self.slots[j]).key
    }

    /// The entry of `key`, if there is one.
    pub open spec fn entry(self, key: KeyModel) -> Option<EntryModel<V, F, C>> {
        if self.holds(key) {
            Some(self.slots[self.position(key)].entry)
        } else {
            None
        }
    }

    /// The machine with an entry for `key`, created if there was none.
    pub open spec fn entered(self, key: KeyModel) -> Self {
        if self.holds(key) {
            self
        } else {
            MachineModel {
                slots: self.slots.push(
                    SlotModel { key, entry: EntryModel::fresh(self.next_incarnation) },
                ),
                next_incarnation: succ(self.next_incarnation),
                ..self
            }
        }
    }

    /// The machine with room for the event: reads other than cache-only ones,
    /// subscriptions, writes and mutations create the entry they need. A
    /// subscription takes an id.
    pub open spec fn prepared(self, ev: Event<V, F, C>) -> Self {
        match ev {
            Event::Read { key, policy, .. } => if policy == ReadPolicy::CacheOnly {
                self
            } else {
                self.entered(key@)
            },
            Event::Subscribe { key, .. } => MachineModel {
                next_sub_id: succ(self.next_sub_id),
                ..self.entered(key@)
            },
            Event::MutateSet { key, .. } => self.entered(key@),
            Event::MutateBegin { key, .. } => self.entered(key@),
            _ => self,
        }
    }

    /// How the entry at position `i` reacts to an invalidation.
    pub open spec fn invalidate_at(self, i: int, prefix: Seq<SegmentModel>) -> Reaction<V, F, C> {
        if self.slots[i].key.under(prefix) {
            self.slots[i].entry.invalidate()
        } else {
            self.slots[i].entry.idle()
        }
    }

    /// How the entry at position `i` reacts to an environment event.
    pub open spec fn broadcast_at(self, i: int, ev: SwrEvent, now: Instant) -> Reaction<V, F, C> {
        self.slots[i].entry.broadcast(ev, now, self.defaults)
    }

    /// How the entry at position `i` reacts to an event. Those that the event
    /// does not concern stay idle. `unchanged` is the comparator's answer to a
    /// successful fetch.
    pub open spec fn reaction(
        self,
        i: int,
        ev: Event<V, F, C>,
        sub_id: u64,
        unchanged: bool,
        now: Instant,
    ) -> Reaction<V, F, C> {
        let at = self.slots[i].key;
        let e = self.slots[i].entry;
        match ev {
            Event::Read { key, policy, fetcher, compare, opts } => if at == key@ {
                e.read(policy, fetcher, compare, opts, now).0
            } else {
                e.idle()
            },
            Event::Subscribe { key, fetcher, compare, opts } => if at == key@ {
                e.subscribe(sub_id, fetcher, compare, opts, now)
            } else {
                e.idle()
            },
            Event::Unsubscribe { key, sub_id } => if at == key@ {
                e.unsubscribe(sub_id)
            } else {
                e.idle()
            },
            Event::RevalidateRequested { key } => if at == key@ {
                e.revalidate()
            } else {
                e.idle()
            },
            Event::CommitOk { key, incarnation, seq, value } => if at == key@ {
                e.commit_ok(incarnation, seq, value, unchanged, now)
            } else {
                e.idle()
            },
            Event::CommitErr { key, incarnation, seq, error } => if at == key@ {
                e.commit_err(incarnation, seq, error)
            } else {
                e.idle()
            },
            Event::MutateSet { key, value } => if at == key@ {
                e.set(value, now)
            } else {
                e.idle()
            },
            Event::MutateBegin { key, optimistic } => if at == key@ {
                e.mutate_begin(optimistic)
            } else {
                e.idle()
            },
            Event::MutateCommit { token, result, flags } => if at == token.key@ {
                e.mutate_commit(token.written_seq, result, flags, now)
            } else {
                e.idle()
            },
            Event::MutateAbort { token, flags } => if at == token.key@ {
                e.mutate_abort(token.written_seq, flags)
            } else {
                e.idle()
            },
            Event::Invalidate { prefix } => self.invalidate_at(i, segments_model(prefix@)),
            Event::Broadcast { ev } => self.broadcast_at(i, ev, now),
            Event::TimerFired { key, kind, generation } => if at == key@ && kind
                == TimerKind::Refresh {
                e.timer_refresh(generation)
            } else {
                e.idle()
            },
        }
    }

    /// The event is a removal timer that finds its entry idle.
    pub open spec fn collects(self, ev: Event<V, F, C>) -> bool {
        &&& ev matches Event::TimerFired { key, kind, generation }
        &&& kind == TimerKind::Gc
        &&& self.holds(key@)
        &&& self.slots[self.position(key@)].entry.collected_by(generation)
    }

    /// The machine without the entry of `key`.
    pub open spec fn without(self, key: KeyModel) -> Self {
        MachineModel { slots: self.slots.remove(self.position(key)), ..self }
    }

    /// The machine after every entry has reacted.
    pub open spec fn reacted(
        self,
        ev: Event<V, F, C>,
        sub_id: u64,
        unchanged: bool,
        now: Instant,
    ) -> Self {
        MachineModel {
            slots: Seq::new(
                self.slots.len(),
                |i: int|
                    SlotModel {
                        key: self.slots[i].key,
                        entry: self.reaction(i, ev, sub_id, unchanged, now).entry,
                    },
            ),
            ..self
        }
    }

    /// The work that the entries are marked for.
    pub open spec fn marked(
        self,
        ev: Event<V, F, C>,
        sub_id: u64,
        unchanged: bool,
        now: Instant,
    ) -> Seq<Marks> {
        Seq::new(
            self.slots.len(),
            |i: int| self.reaction(i, ev, sub_id, unchanged, now).marks,
        )
    }

    /// Every entry after the follow-up rules.
    pub open spec fn settled(self, marks: Seq<Marks>, now: Instant) -> Seq<Settled<V, F, C>> {
        Seq::new(
            self.slots.len(),
            |i: int|
                self.slots[i].entry.settle(self.slots[i].key, marks[i], now, self.defaults),
        )
    }

    /// The machine with other entries in place.
    pub open spec fn replaced(self, entries: spec_fn(int) -> EntryModel<V, F, C>) -> Self {
        MachineModel {
            slots: Seq::new(
                self.slots.len(),
                |i: int| SlotModel { key: self.slots[i].key, entry: entries(i) },
            ),
            ..self
        }
    }

    /// The removal countdown of the entry at position `i`.
    pub open spec fn countdown(self, i: int, marks: Seq<Marks>, now: Instant) -> (
        EntryModel<V, F, C>,
        Option<EffectModel<V, F>>,
    ) {
        self.slots[i].entry.counted_down(self.slots[i].key, marks[i], now, self.defaults)
    }

    /// The refresh tick of the entry at position `i`.
    pub open spec fn tick(self, i: int, marks: Seq<Marks>, now: Instant) -> (
        EntryModel<V, F, C>,
        Option<EffectModel<V, F>>,
    ) {
        self.slots[i].entry.rescheduled(self.slots[i].key, marks[i], now)
    }

    /// The notification of the entry at position `i`.
    pub open spec fn note(self, i: int, marks: Seq<Marks>) -> (
        EntryModel<V, F, C>,
        Option<EffectModel<V, F>>,
    ) {
        self.slots[i].entry.published(marks[i])
    }

    /// One entry reacts by a table of its own, the others stay idle. Nothing
    /// happens when there is no entry for `key`.
    pub open spec fn at(
        self,
        key: KeyModel,
        table: spec_fn(EntryModel<V, F, C>) -> Reaction<V, F, C>,
    ) -> (Self, Seq<Marks>) {
        let i = self.position(key);
        let r = table(self.slots[i].entry);
        if self.holds(key) {
            (
                MachineModel {
                    slots: self.slots.update(i, SlotModel { key, entry: r.entry }),
                    ..self
                },
                Seq::new(
                    self.slots.len(),
                    |j: int|
                        if j == i {
                            r.marks
                        } else {
                            Marks::none()
                        },
                ),
            )
        } else {
            (self, Seq::new(self.slots.len(), |j: int| Marks::none()))
        }
    }

    /// What an event returns to its caller.
    pub open spec fn outcome(self, ev: Event<V, F, C>, now: Instant) -> OutcomeModel<V> {
        match ev {
            Event::Read { key, policy, fetcher, compare, opts } => OutcomeModel::Read(
                if policy == ReadPolicy::CacheOnly && !self.holds(key@) {
                    ReadModel::Ready(Snapshot::empty_spec())
                } else {
                    self.entered(key@).entry(key@)->0.read(policy, fetcher, compare, opts, now).1
                },
            ),
            Event::Subscribe { key, .. } => OutcomeModel::Subscribed {
                sub_id: self.next_sub_id,
                incarnation: self.entered(key@).entry(key@)->0.incarnation,
            },
            Event::MutateBegin { key, optimistic } => OutcomeModel::Mutation {
                key: key@,
                written_seq: self.entered(key@).entry(key@)->0.written_seq(optimistic),
            },
            _ => OutcomeModel::Done,
        }
    }

    /// One event. `unchanged` is the comparator's answer, should the event be
    /// a successful fetch.
    pub open spec fn step(self, ev: Event<V, F, C>, unchanged: bool, now: Instant) -> Step<
        V,
        F,
        C,
    > {
        if self.collects(ev) {
            Step {
                machine: self.without(ev->TimerFired_key@),
                outcome: OutcomeModel::Done,
                effects: Seq::empty(),
            }
        } else {
            let prepared = self.prepared(ev);
            let reacted = prepared.reacted(ev, self.next_sub_id, unchanged, now);
            let marks = prepared.marked(ev, self.next_sub_id, unchanged, now);
            let settled = reacted.settled(marks, now);
            Step {
                machine: reacted.replaced(|i: int| settled[i].entry),
                outcome: self.outcome(ev, now),
                effects: batch(settled),
            }
        }
    }

    /// What every event keeps true of the machine: keys and incarnations are
    /// distinct, ids and incarnations stay below the counters, every entry
    /// keeps its invariant, and no counter has passed `limit`.
    pub open spec fn inv(self, limit: int) -> bool {
        &&& self.next_sub_id <= limit
        &&& self.next_incarnation <= limit
        &&& self.distinct()
        &&& forall|i: int, j: int|
            0 <= i < j < self.slots.len() ==> (#[trigger] self.slots[i]).entry.incarnation != (
            #[trigger] self.slots[j]).entry.incarnation
        &&& forall|i: int|
            0 <= i < self.slots.len() ==> {
                let e = (#[trigger] self.slots[i]).entry;
                &&& e.inv()
                &&& e.bounded(limit)
                &&& e.incarnation < self.next_incarnation
                &&& e.subs.dom().finite()
                &&& forall|id: u64| #[trigger] e.subs.contains_key(id) ==> id < self.next_sub_id
            }
    }

    /// The invariant, with room in the counters for a number of events.
    pub open spec fn valid(self, events: int) -> bool {
        self.inv(u64::MAX - 3 * events)
    }
}

/// Whether `unchanged` may be the comparator's answer to an event: only a
/// fetch result that lands on an entry is compared.
pub open spec fn answers<V: ?Sized, F: ?Sized, C: Fn(&Arc<V>, &Arc<V>) -> bool>(
    machine: MachineModel<V, F, C>,
    ev: Event<V, F, C>,
    unchanged: bool,
) -> bool {
    match ev {
        Event::CommitOk { key, incarnation, seq, value } => match machine.entry(key@) {
            Some(entry) if entry.lands(incarnation, seq) => judged(entry, value, unchanged),
            _ => !unchanged,
        },
        _ => !unchanged,
    }
}

/// Every stored comparator takes any two values.
pub open spec fn comparators_total<V: ?Sized, F: ?Sized, C: Fn(&Arc<V>, &Arc<V>) -> bool>(
    machine: MachineModel<V, F, C>,
) -> bool {
    forall|i: int|
        0 <= i < machine.slots.len() ==> comparator_total(
            (#[trigger] machine.slots[i]).entry.compare,
        )
}

/// A comparator that comes with the event takes any two values.
pub open spec fn brings_total<V: ?Sized, F: ?Sized, C: Fn(&Arc<V>, &Arc<V>) -> bool>(
    ev: Event<V, F, C>,
) -> bool {
    match ev {
        Event::Read { compare, .. } => comparator_total(compare),
        Event::Subscribe { compare, .. } => comparator_total(compare),
        _ => true,
    }
}

} // verus!
