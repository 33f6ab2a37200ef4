//! The machine itself: a table of entries and a single entry point.

use crate::channel::{SnapshotReceiver, SnapshotSender};
use crate::key::{segments_model, KeyModel, QueryKey, Segment};
use crate::machine::entry::EntryCore;
use crate::machine::event::{
    effects_model, Effect, Event, HandleOutput, MutationToken, Outcome, OutcomeModel, ReadOutcome,
    TimerKind,
};
use crate::machine::upkeep::{
    law_every_event_keeps_the_invariant, lemma_position, lemma_prepared_keeps_inv,
    lemma_prepared_reaction_kept,
};
use crate::machine::model::{comparator_total, EntryModel, Marks, Reaction};
use crate::machine::table::{
    answers, batch, brings_total, comparators_total, countdowns, fetches, listed, notes, ticks,
    MachineModel, SlotModel, Step,
};
use crate::options::{MutateFlags, QueryOptions, ReadPolicy, SwrEvent};
use crate::snapshot::Snapshot;
use crate::time::Instant;
use std::sync::Arc;
use vstd::prelude::*;

verus! {

/// Number of events that a machine takes. Its counters stay within their
/// range up to there.
pub const MAX_EVENTS: u64 = 0x4000_0000_0000_0000;

/// An entry in its place in the table.
#[verifier::reject_recursive_types(V)]
pub struct Slot<V: ?Sized, F: ?Sized, C> {
    /// Key of the entry.
    pub key: QueryKey,
    /// The entry.
    pub entry: EntryCore<V, F, C>,
}

impl<V: ?Sized, F: ?Sized, C> View for Slot<V, F, C> {
    type V = SlotModel<V, F, C>;

    open spec fn view(&self) -> SlotModel<V, F, C> {
        SlotModel { key: self.key@, entry: self.entry@ }
    }
}

/// The state machine, over values `V`, fetchers `F` and comparators `C`. One
/// instance stands behind the client's single lock.
#[verifier::reject_recursive_types(V)]
pub struct Inner<V: ?Sized, F: ?Sized, C> {
    /// The table, in order of creation.
    slots: Vec<Slot<V, F, C>>,
    /// Default options.
    defaults: QueryOptions,
    /// Id of the next subscription.
    next_sub_id: u64,
    /// Incarnation of the next entry.
    next_incarnation: u64,
    /// Number of events handled.
    handled: u64,
}

impl<V: ?Sized, F: ?Sized, C> View for Inner<V, F, C> {
    type V = MachineModel<V, F, C>;

    closed spec fn view(&self) -> MachineModel<V, F, C> {
        MachineModel {
            slots: self.slots@.map_values(|s: Slot<V, F, C>| s@),
            defaults: self.defaults,
            next_sub_id: self.next_sub_id,
            next_incarnation: self.next_incarnation,
        }
    }
}

impl<V: ?Sized, F: ?Sized, C> Inner<V, F, C> {
    /// Number of events handled so far.
    pub closed spec fn handled_spec(self) -> u64 {
        self.handled
    }

    /// The channels of the entries, in the order of the table.
    pub closed spec fn channels(self) -> Seq<SnapshotSender<V>> {
        self.slots@.map_values(|s: Slot<V, F, C>| s.entry.tx)
    }

    /// The channel of the entry of `key`, if there is one.
    pub open spec fn channel(self, key: KeyModel) -> Option<SnapshotSender<V>> {
        if self@.holds(key) {
            Some(self.channels()[self@.position(key)])
        } else {
            None
        }
    }

    /// `tx` is the channel of an entry, and labelled with its incarnation.
    pub open spec fn carries(self, tx: SnapshotSender<V>) -> bool {
        exists|key: KeyModel| #[trigger]
            self.channel(key) == Some(tx) && self@.entry(key)->0.incarnation == tx.incarnation()
    }

    /// `rx` is a receiver of the channel of the entry of `key`.
    pub open spec fn reaches(self, key: KeyModel, rx: SnapshotReceiver<V>) -> bool {
        self.channel(key) matches Some(tx) && rx.listens_to(tx)
    }

    /// Every notification goes to the channel of the entry that it speaks of.
    pub open spec fn addresses(self, effects: Seq<Effect<V, F>>) -> bool {
        forall|k: int|
            0 <= k < effects.len() ==> (#[trigger] effects[k] matches Effect::Notify { tx, .. }
                ==> self.carries(tx))
    }

    /// What becomes of the channels of `before`: an entry keeps its channel for
    /// as long as it stands, and a new entry has one of its own, opened empty.
    pub open spec fn follows(self, before: Self) -> bool {
        forall|key: KeyModel|
            self@.holds(key) ==> if before@.holds(key) {
                #[trigger] self.channel(key) == before.channel(key)
            } else {
                self.channel(key)->0.opened_with(Snapshot::empty_spec())
            }
    }

    /// Number of events handled so far.
    pub fn handled(&self) -> (handled: u64)
        ensures
            handled == self.handled_spec(),
    {
        self.handled
    }

    /// The default options.
    pub fn default_options(&self) -> (defaults: &QueryOptions)
        ensures
            *defaults == self@.defaults,
    {
        &self.defaults
    }

    /// The entry of `key`, if there is one.
    pub fn entry(&self, key: &QueryKey) -> (entry: Option<&EntryCore<V, F, C>>)
        requires
            self@.distinct(),
        ensures
            match entry {
                Some(entry) => self@.entry(key@) == Some(entry@) && self.channel(key@) == Some(
                    entry.tx,
                ),
                None => self@.entry(key@) is None,
            },
    {
        match self.find(key) {
            Some(at) => {
                proof {
                    lemma_position(self@, key@, at as int);
                }
                Some(&self.slots[at].entry)
            },
            None => None,
        }
    }

    /// Where the entry of `key` stands.
    fn find(&self, key: &QueryKey) -> (found: Option<usize>)
        ensures
            match found {
                Some(i) => self@.stands_at(key@, i as int),
                None => !self@.holds(key@),
            },
    {
        let mut i: usize = 0;
        while i < self.slots.len()
            invariant
                i <= self.slots.len(),
                forall|j: int| 0 <= j < i ==> (#[trigger] self.slots[j]).key@ != key@,
            decreases self.slots.len() - i,
        {
            if self.slots[i].key.same(key) {
                return Some(i);
            }
            i += 1;
        }
        None
    }
}

/// Adds an effect, if there is one.
fn append<V: ?Sized, F: ?Sized>(effects: &mut Vec<Effect<V, F>>, effect: Option<Effect<V, F>>)
    ensures
        final(effects)@ == match effect {
            Some(effect) => old(effects)@.push(effect),
            None => old(effects)@,
        },
        effects_model(final(effects)@) == match effect {
            Some(effect) => effects_model(old(effects)@).push(effect@),
            None => effects_model(old(effects)@),
        },
{
    if let Some(effect) = effect {
        effects.push(effect);
    }
}

/// One item more is considered.
proof fn lemma_listed_next<A>(items: Seq<Option<A>>, i: int)
    requires
        0 <= i < items.len(),
    ensures
        listed(items.take(i + 1)) == match items[i] {
            Some(item) => listed(items.take(i)).push(item),
            None => listed(items.take(i)),
        },
{
    assert(items.take(i + 1).drop_last() =~= items.take(i));
}

impl<V: ?Sized, F: ?Sized, C> Inner<V, F, C> {
    /// Every entry publishes on a channel of its own.
    closed spec fn wired(self) -> bool {
        forall|i: int| 0 <= i < self.slots.len() ==> (#[trigger] self.slots[i]).entry.wired()
    }

    /// Every entry of before stands in its place, with its channel, and a later
    /// one has a channel of its own, opened empty.
    closed spec fn keeps_channels(self, before: Self) -> bool {
        &&& before.slots.len() <= self.slots.len()
        &&& forall|i: int|
            0 <= i < before.slots.len() ==> {
                &&& (#[trigger] self.slots[i]).key@ == before.slots[i].key@
                &&& self.slots[i].entry.tx == before.slots[i].entry.tx
            }
        &&& forall|i: int|
            before.slots.len() <= i < self.slots.len() ==> (
            #[trigger] self.slots[i]).entry.tx.opened_with(Snapshot::empty_spec())
    }

    /// `rx` is a receiver of the channel of the entry of `key`.
    closed spec fn hears(self, key: KeyModel, rx: SnapshotReceiver<V>) -> bool {
        exists|i: int|
            0 <= i < self.slots.len() && (#[trigger] self.slots[i]).key@ == key && rx.listens_to(
                self.slots[i].entry.tx,
            )
    }

    /// Every notification goes to the channel of an entry.
    closed spec fn routed(self, effects: Seq<Effect<V, F>>) -> bool {
        forall|k: int|
            0 <= k < effects.len() ==> (#[trigger] effects[k] matches Effect::Notify { tx, .. }
                ==> self.publishes(tx))
    }

    /// Some entry publishes on the channel of `tx`.
    closed spec fn publishes(self, tx: SnapshotSender<V>) -> bool {
        exists|i: int| 0 <= i < self.slots.len() && (#[trigger] self.slots[i]).entry.tx == tx
    }

    /// What goes to an entry's channel still does once the channels were kept.
    proof fn lemma_routed_kept(self, before: Self, effects: Seq<Effect<V, F>>)
        requires
            self.keeps_channels(before),
            before.routed(effects),
        ensures
            self.routed(effects),
    {
        assert forall|k: int| 0 <= k < effects.len() implies (
        #[trigger] effects[k] matches Effect::Notify { tx, .. } ==> self.publishes(tx)) by {
            if let Effect::Notify { tx, .. } = effects[k] {
                let i = choose|i: int|
                    0 <= i < before.slots.len() && (#[trigger] before.slots[i]).entry.tx == tx;
                assert(self.slots[i].entry.tx == tx);
            }
        }
    }

    /// Keys find the channels of before, once these were kept.
    proof fn lemma_follows(self, before: Self)
        requires
            self.keeps_channels(before),
            self@.distinct(),
            before@.distinct(),
        ensures
            self.follows(before),
    {
        assert forall|key: KeyModel| self@.holds(key) implies if before@.holds(key) {
            #[trigger] self.channel(key) == before.channel(key)
        } else {
            self.channel(key)->0.opened_with(Snapshot::empty_spec())
        } by {
            let i = self@.position(key);
            assert(self@.stands_at(key, i));
            assert(self.slots[i].key@ == key);
            if i < before.slots.len() {
                assert(before@.stands_at(key, i));
                lemma_position(before@, key, i);
            } else if before@.holds(key) {
                let j = before@.position(key);
                assert(before@.stands_at(key, j));
                assert(self.slots[j].key@ == key);
                assert(self@.slots[j].key == self@.slots[i].key);
            }
        }
    }

    /// Keys find the channels of before, once these were kept twice.
    proof fn lemma_follows_through(self, between: Self, before: Self)
        requires
            self.keeps_channels(between),
            between.keeps_channels(before),
            self@.distinct(),
            before@.distinct(),
        ensures
            self.follows(before),
    {
        assert(self.keeps_channels(before)) by {
            assert forall|i: int| before.slots.len() <= i < self.slots.len() implies (
            #[trigger] self.slots[i]).entry.tx.opened_with(Snapshot::empty_spec()) by {
                if i < between.slots.len() {
                    assert(between.slots[i].entry.tx.opened_with(Snapshot::empty_spec()));
                }
            }
            assert forall|i: int| 0 <= i < before.slots.len() implies {
                &&& (#[trigger] self.slots[i]).key@ == before.slots[i].key@
                &&& self.slots[i].entry.tx == before.slots[i].entry.tx
            } by {
                assert(between.slots[i].key@ == before.slots[i].key@);
            }
        }
        self.lemma_follows(before);
    }

    /// The keys of the entries that stay find their channels after one entry was
    /// removed.
    proof fn lemma_follows_removal(self, before: Self, at: int)
        requires
            0 <= at < before.slots.len(),
            self.slots@ == before.slots@.remove(at),
            before@.distinct(),
        ensures
            self.follows(before),
    {
        assert forall|key: KeyModel| self@.holds(key) implies if before@.holds(key) {
            #[trigger] self.channel(key) == before.channel(key)
        } else {
            self.channel(key)->0.opened_with(Snapshot::empty_spec())
        } by {
            let i = self@.position(key);
            assert(self@.stands_at(key, i));
            let j = if i < at {
                i
            } else {
                i + 1
            };
            assert(self.slots[i] == before.slots[j]);
            assert(before@.stands_at(key, j));
            lemma_position(before@, key, j);
        }
    }

    /// Keys find the channels that are listened to and published on.
    proof fn lemma_reaches(self, before: Self, effects: Seq<Effect<V, F>>)
        requires
            self.keeps_channels(before),
            self@.distinct(),
            self.wired(),
            self.routed(effects),
        ensures
            forall|key: KeyModel, rx: SnapshotReceiver<V>| #[trigger]
                before.hears(key, rx) ==> self.reaches(key, rx),
            self.addresses(effects),
    {
        assert forall|key: KeyModel, rx: SnapshotReceiver<V>| #[trigger]
            before.hears(key, rx) implies self.reaches(key, rx) by {
            let i = choose|i: int|
                0 <= i < before.slots.len() && (#[trigger] before.slots[i]).key@ == key
                    && rx.listens_to(before.slots[i].entry.tx);
            assert(self.slots[i].key@ == key);
            assert(self@.stands_at(key, i));
            lemma_position(self@, key, i);
        }
        assert forall|k: int| 0 <= k < effects.len() implies (
        #[trigger] effects[k] matches Effect::Notify { tx, .. } ==> self.carries(tx)) by {
            if let Effect::Notify { tx, .. } = effects[k] {
                let i = choose|i: int|
                    0 <= i < self.slots.len() && (#[trigger] self.slots[i]).entry.tx == tx;
                let key = self.slots[i].key@;
                assert(self@.stands_at(key, i));
                lemma_position(self@, key, i);
                assert(self.channel(key) == Some(tx));
            }
        }
    }

    /// Every counter of an entry may be raised by `n`.
    closed spec fn roomy(self, n: int) -> bool {
        forall|i: int|
            0 <= i < self.slots.len() ==> (#[trigger] self.slots[i]).entry@.bounded(u64::MAX - n)
    }

    /// What is left of the counters' range.
    proof fn lemma_roomy(self, limit: int, n: int)
        requires
            self@.inv(limit),
            limit + n <= u64::MAX,
        ensures
            self.roomy(n),
    {
        assert forall|i: int| 0 <= i < self.slots.len() implies (
        #[trigger] self.slots[i]).entry@.bounded(u64::MAX - n) by {
            assert(self@.slots[i].entry.bounded(limit));
        }
    }

    /// Lists the fetches that the entries are marked for.
    fn start_fetches(&self, marks: &Vec<Marks>, effects: &mut Vec<Effect<V, F>>)
        requires
            self.routed(old(effects)@),
            marks.len() == self.slots.len(),
            forall|i: int|
                0 <= i < self.slots.len() && (#[trigger] marks[i]).fetch
                    ==> self.slots[i].entry.fetcher is Some,
        ensures
            self.routed(final(effects)@),
            effects_model(final(effects)@) == effects_model(old(effects)@) + listed(
                Seq::new(
                    self@.slots.len(),
                    |i: int| self@.slots[i].entry.fetch_order(self@.slots[i].key, marks@[i]),
                ),
            ),
    {
        let ghost orders = Seq::new(
            self@.slots.len(),
            |i: int| self@.slots[i].entry.fetch_order(self@.slots[i].key, marks@[i]),
        );
        let mut i: usize = 0;
        while i < self.slots.len()
            invariant
                self.routed(effects@),
                i <= self.slots.len(),
                marks.len() == self.slots.len(),
                forall|j: int|
                    0 <= j < self.slots.len() && (#[trigger] marks[j]).fetch
                        ==> self.slots[j].entry.fetcher is Some,
                orders == Seq::new(
                    self@.slots.len(),
                    |i: int| self@.slots[i].entry.fetch_order(self@.slots[i].key, marks@[i]),
                ),
                effects_model(effects@) == effects_model(old(effects)@) + listed(
                    orders.take(i as int),
                ),
            decreases self.slots.len() - i,
        {
            let order = self.slots[i].entry.fetch_order(&self.slots[i].key, marks[i]);
            append(effects, order);
            proof {
                lemma_listed_next(orders, i as int);
            }
            i += 1;
        }
        assert(orders.take(i as int) =~= orders);
    }

    /// Restarts the removal countdown of every touched entry that is idle.
    fn restart_countdowns(
        &mut self,
        marks: &Vec<Marks>,
        now: Instant,
        effects: &mut Vec<Effect<V, F>>,
    )
        requires
            old(self).routed(old(effects)@),
            old(self).wired(),
            old(self).roomy(1),
            marks.len() == old(self).slots.len(),
        ensures
            final(self).routed(final(effects)@),
            final(self)@ == old(self)@.replaced(|i: int| old(self)@.countdown(i, marks@, now).0),
            effects_model(final(effects)@) == effects_model(old(effects)@) + listed(
                Seq::new(old(self)@.slots.len(), |i: int| old(self)@.countdown(i, marks@, now).1),
            ),
            final(self).wired(),
            final(self).keeps_channels(*old(self)),
            final(self).handled == old(self).handled,
    {
        let ghost before = self@;
        let ghost orders = Seq::new(
            before.slots.len(),
            |i: int| before.countdown(i, marks@, now).1,
        );
        let mut i: usize = 0;
        while i < self.slots.len()
            invariant
                old(self).routed(effects@),
                i <= self.slots.len(),
                marks.len() == self.slots.len(),
                before == old(self)@,
                before.slots.len() == self.slots.len(),
                orders == Seq::new(before.slots.len(), |i: int| before.countdown(i, marks@, now).1),
                forall|j: int|
                    0 <= j < i ==> (#[trigger] self.slots[j])@ == (SlotModel {
                        key: before.slots[j].key,
                        entry: before.countdown(j, marks@, now).0,
                    }),
                forall|j: int|
                    i <= j < self.slots.len() ==> (#[trigger] self.slots[j])@ == before.slots[j],
                forall|j: int|
                    0 <= j < before.slots.len() ==> (#[trigger] before.slots[j]).entry.bounded(
                        u64::MAX - 1,
                    ),
                self@.defaults == before.defaults,
                self@.next_sub_id == before.next_sub_id,
                self@.next_incarnation == before.next_incarnation,
                self.wired(),
                self.keeps_channels(*old(self)),
                self.handled == old(self).handled,
                effects_model(effects@) == effects_model(old(effects)@) + listed(
                    orders.take(i as int),
                ),
            decreases self.slots.len() - i,
        {
            let defaults = self.defaults;
            let slot = &mut self.slots[i];
            let order = slot.entry.count_down(&slot.key, marks[i], now, &defaults);
            append(effects, order);
            proof {
                lemma_listed_next(orders, i as int);
            }
            i += 1;
        }
        proof {
            self.lemma_routed_kept(*old(self), effects@);
        }
        assert(orders.take(i as int) =~= orders);
    }

    /// Reschedules the refresh tick of every entry whose basis changed.
    fn reschedule_ticks(
        &mut self,
        marks: &Vec<Marks>,
        now: Instant,
        effects: &mut Vec<Effect<V, F>>,
    )
        requires
            old(self).routed(old(effects)@),
            old(self).wired(),
            old(self).roomy(1),
            marks.len() == old(self).slots.len(),
        ensures
            final(self).routed(final(effects)@),
            final(self)@ == old(self)@.replaced(|i: int| old(self)@.tick(i, marks@, now).0),
            effects_model(final(effects)@) == effects_model(old(effects)@) + listed(
                Seq::new(old(self)@.slots.len(), |i: int| old(self)@.tick(i, marks@, now).1),
            ),
            final(self).wired(),
            final(self).keeps_channels(*old(self)),
            final(self).handled == old(self).handled,
    {
        let ghost before = self@;
        let ghost orders = Seq::new(before.slots.len(), |i: int| before.tick(i, marks@, now).1);
        let mut i: usize = 0;
        while i < self.slots.len()
            invariant
                old(self).routed(effects@),
                i <= self.slots.len(),
                marks.len() == self.slots.len(),
                before == old(self)@,
                before.slots.len() == self.slots.len(),
                orders == Seq::new(before.slots.len(), |i: int| before.tick(i, marks@, now).1),
                forall|j: int|
                    0 <= j < i ==> (#[trigger] self.slots[j])@ == (SlotModel {
                        key: before.slots[j].key,
                        entry: before.tick(j, marks@, now).0,
                    }),
                forall|j: int|
                    i <= j < self.slots.len() ==> (#[trigger] self.slots[j])@ == before.slots[j],
                forall|j: int|
                    0 <= j < before.slots.len() ==> (#[trigger] before.slots[j]).entry.bounded(
                        u64::MAX - 1,
                    ),
                self@.defaults == before.defaults,
                self@.next_sub_id == before.next_sub_id,
                self@.next_incarnation == before.next_incarnation,
                self.wired(),
                self.keeps_channels(*old(self)),
                self.handled == old(self).handled,
                effects_model(effects@) == effects_model(old(effects)@) + listed(
                    orders.take(i as int),
                ),
            decreases self.slots.len() - i,
        {
            let slot = &mut self.slots[i];
            let order = slot.entry.reschedule(&slot.key, marks[i], now);
            append(effects, order);
            proof {
                lemma_listed_next(orders, i as int);
            }
            i += 1;
        }
        proof {
            self.lemma_routed_kept(*old(self), effects@);
        }
        assert(orders.take(i as int) =~= orders);
    }

    /// Publishes every marked entry once, after everything else in the batch.
    fn flush_notifies(&mut self, marks: &Vec<Marks>, effects: &mut Vec<Effect<V, F>>)
        requires
            old(self).routed(old(effects)@),
            old(self).wired(),
            old(self).roomy(1),
            marks.len() == old(self).slots.len(),
        ensures
            final(self).routed(final(effects)@),
            final(self)@ == old(self)@.replaced(|i: int| old(self)@.note(i, marks@).0),
            effects_model(final(effects)@) == effects_model(old(effects)@) + listed(
                Seq::new(old(self)@.slots.len(), |i: int| old(self)@.note(i, marks@).1),
            ),
            final(self).wired(),
            final(self).keeps_channels(*old(self)),
            final(self).handled == old(self).handled,
    {
        let ghost before = self@;
        let ghost orders = Seq::new(before.slots.len(), |i: int| before.note(i, marks@).1);
        let mut i: usize = 0;
        while i < self.slots.len()
            invariant
                old(self).routed(effects@),
                i <= self.slots.len(),
                marks.len() == self.slots.len(),
                before == old(self)@,
                before.slots.len() == self.slots.len(),
                orders == Seq::new(before.slots.len(), |i: int| before.note(i, marks@).1),
                forall|j: int|
                    0 <= j < i ==> (#[trigger] self.slots[j])@ == (SlotModel {
                        key: before.slots[j].key,
                        entry: before.note(j, marks@).0,
                    }),
                forall|j: int|
                    i <= j < self.slots.len() ==> (#[trigger] self.slots[j])@ == before.slots[j],
                forall|j: int|
                    0 <= j < before.slots.len() ==> (#[trigger] before.slots[j]).entry.bounded(
                        u64::MAX - 1,
                    ),
                self@.defaults == before.defaults,
                self@.next_sub_id == before.next_sub_id,
                self@.next_incarnation == before.next_incarnation,
                self.wired(),
                self.keeps_channels(*old(self)),
                self.handled == old(self).handled,
                effects_model(effects@) == effects_model(old(effects)@) + listed(
                    orders.take(i as int),
                ),
            decreases self.slots.len() - i,
        {
            let slot = &mut self.slots[i];
            let order = slot.entry.publish(marks[i]);
            append(effects, order);
            proof {
                lemma_listed_next(orders, i as int);
            }
            i += 1;
        }
        proof {
            self.lemma_routed_kept(*old(self), effects@);
        }
        assert(orders.take(i as int) =~= orders);
    }

    /// The follow-up rules on timers, run after every event over the marked
    /// entries.
    fn post_rules(&mut self, marks: &Vec<Marks>, now: Instant, effects: &mut Vec<Effect<V, F>>)
        requires
            old(self).routed(old(effects)@),
            old(self).wired(),
            old(self).roomy(3),
            marks.len() == old(self).slots.len(),
        ensures
            final(self).routed(final(effects)@),
            ({
                let counted = old(self)@.replaced(
                    |i: int| old(self)@.countdown(i, marks@, now).0,
                );
                &&& final(self)@ == counted.replaced(|i: int| counted.tick(i, marks@, now).0)
                &&& effects_model(final(effects)@) == effects_model(old(effects)@) + listed(
                    Seq::new(
                        old(self)@.slots.len(),
                        |i: int| old(self)@.countdown(i, marks@, now).1,
                    ),
                ) + listed(
                    Seq::new(old(self)@.slots.len(), |i: int| counted.tick(i, marks@, now).1),
                )
            }),
            final(self).wired(),
            final(self).keeps_channels(*old(self)),
            final(self).roomy(1),
            final(self).slots.len() == old(self).slots.len(),
            final(self).handled == old(self).handled,
    {
        self.restart_countdowns(marks, now, effects);
        proof {
            assert(self@.slots.len() == self.slots.len());
            assert forall|i: int| 0 <= i < self.slots.len() implies (
            #[trigger] self.slots[i]).entry@.bounded(u64::MAX - 2) by {
                assert(self@.slots[i].entry == old(self)@.countdown(i, marks@, now).0);
            }
        }
        let ghost counted = self@;
        self.reschedule_ticks(marks, now, effects);
        proof {
            assert(self@.slots.len() == self.slots.len());
            assert forall|i: int| 0 <= i < self.slots.len() implies (
            #[trigger] self.slots[i]).entry@.bounded(u64::MAX - 1) by {
                assert(self@.slots[i].entry == counted.tick(i, marks@, now).0);
            }
        }
    }

    /// Turns the marks of an event into effects: fetches first, then timers, then
    /// notifications.
    fn settle(&mut self, marks: &Vec<Marks>, now: Instant) -> (effects: Vec<Effect<V, F>>)
        requires
            old(self).wired(),
            old(self).roomy(3),
            marks.len() == old(self).slots.len(),
            forall|i: int|
                0 <= i < old(self).slots.len() && (#[trigger] marks[i]).fetch
                    ==> old(self).slots[i].entry.fetcher is Some,
        ensures
            final(self)@ == old(self)@.replaced(
                |i: int| old(self)@.settled(marks@, now)[i].entry,
            ),
            effects_model(effects@) == batch(old(self)@.settled(marks@, now)),
            final(self).wired(),
            final(self).keeps_channels(*old(self)),
            final(self).routed(effects@),
            final(self).handled == old(self).handled,
    {
        let mut effects: Vec<Effect<V, F>> = Vec::new();
        self.start_fetches(marks, &mut effects);
        self.post_rules(marks, now, &mut effects);
        self.flush_notifies(marks, &mut effects);
        proof {
            lemma_passes_settle(old(self)@, marks@, now);
            assert(effects_model(effects@) =~= batch(old(self)@.settled(marks@, now)));
        }
        effects
    }

    /// No marks for any entry.
    fn unmarked(&self) -> (marks: Vec<Marks>)
        ensures
            marks@ == Seq::new(self@.slots.len(), |i: int| Marks::none()),
    {
        let mut marks: Vec<Marks> = Vec::new();
        let mut i: usize = 0;
        while i < self.slots.len()
            invariant
                i <= self.slots.len(),
                marks@ == Seq::new(i as nat, |j: int| Marks::none()),
            decreases self.slots.len() - i,
        {
            marks.push(Marks::idle());
            i += 1;
        }
        marks
    }

    /// Marks for the entry at position `at`, and none for the others.
    fn mark(&self, at: usize, mark: Marks) -> (marks: Vec<Marks>)
        requires
            at < self@.slots.len(),
        ensures
            marks@ == Seq::new(
                self@.slots.len(),
                |i: int|
                    if i == at {
                        mark
                    } else {
                        Marks::none()
                    },
            ),
    {
        let mut marks = self.unmarked();
        marks.set(at, mark);
        marks
    }

    /// Finds the entry of `key`, or creates it with an incarnation of its own.
    fn entry_or_create(&mut self, key: &QueryKey) -> (at: usize)
        requires
            old(self).wired(),
            old(self).next_incarnation < u64::MAX,
        ensures
            final(self)@ == old(self)@.entered(key@),
            final(self)@.stands_at(key@, at as int),
            final(self).wired(),
            final(self).keeps_channels(*old(self)),
            final(self).handled == old(self).handled,
    {
        if let Some(at) = self.find(key) {
            return at;
        }
        let incarnation = self.next_incarnation;
        self.next_incarnation += 1;
        let at = self.slots.len();
        self.slots.push(Slot { key: key.clone(), entry: EntryCore::new(incarnation) });
        assert(self@.slots =~= old(self)@.entered(key@).slots);
        at
    }
}

/// Making room keeps the keys distinct.
proof fn lemma_entered_distinct<V: ?Sized, F: ?Sized, C>(m: MachineModel<V, F, C>, key: KeyModel)
    requires
        m.distinct(),
    ensures
        m.entered(key).distinct(),
{
    let p = m.entered(key);
    assert forall|i: int, j: int| 0 <= i < j < p.slots.len() implies (#[trigger] p.slots[i]).key
        != (#[trigger] p.slots[j]).key by {
        if j == m.slots.len() {
            assert(m.slots[i] == p.slots[i]);
            assert(m.slots[i].key == key ==> m.stands_at(key, i));
        }
    }
}

impl<V: ?Sized, F: ?Sized, C> Inner<V, F, C> {
    /// Handles a read. A cache-only read creates no entry.
    fn on_read(
        &mut self,
        key: &QueryKey,
        policy: ReadPolicy,
        fetcher: Option<Arc<F>>,
        compare: Option<Arc<C>>,
        opts: QueryOptions,
        now: Instant,
    ) -> (out: (Outcome<V>, Vec<Marks>))
        requires
            old(self).wired(),
            old(self).roomy(2),
            old(self)@.distinct(),
            old(self).next_incarnation < u64::MAX,
        ensures
            ({
                let ev = Event::Read { key: *key, policy, fetcher, compare, opts };
                &&& (final(self)@, out.1@) == old(self)@.prepared(ev).at(
                    key@,
                    |e: EntryModel<V, F, C>| e.read(policy, fetcher, compare, opts, now).0,
                )
                &&& out.0@ == old(self)@.outcome(ev, now)
            }),
            out.0 matches Outcome::Read(ReadOutcome::Wait { rx, .. }) ==> final(self).hears(
                key@,
                rx,
            ),
            final(self).wired(),
            final(self).keeps_channels(*old(self)),
            final(self).handled == old(self).handled,
    {
        let at: usize = if policy == ReadPolicy::CacheOnly {
            match self.find(key) {
                Some(at) => at,
                None => {
                    return (
                        Outcome::Read(ReadOutcome::Ready(Snapshot::empty())),
                        self.unmarked(),
                    );
                },
            }
        } else {
            self.entry_or_create(key)
        };
        let ghost before = self@;
        proof {
            lemma_entered_distinct(old(self)@, key@);
            lemma_position(before, key@, at as int);
        }
        let (mark, read) = self.slots[at].entry.read(policy, fetcher, compare, opts, now);
        let marks = self.mark(at, mark);
        assert(self@.slots =~= before.slots.update(
            at as int,
            SlotModel { key: key@, entry: self.slots[at as int].entry@ },
        ));
        (Outcome::Read(read), marks)
    }

    /// Handles the beginning of a subscription.
    fn on_subscribe(
        &mut self,
        key: &QueryKey,
        fetcher: Option<Arc<F>>,
        compare: Option<Arc<C>>,
        opts: QueryOptions,
        now: Instant,
    ) -> (out: (Outcome<V>, Vec<Marks>))
        requires
            old(self).wired(),
            old(self).roomy(2),
            old(self)@.distinct(),
            old(self).next_incarnation < u64::MAX,
            old(self).next_sub_id < u64::MAX,
        ensures
            ({
                let ev = Event::Subscribe { key: *key, fetcher, compare, opts };
                let sub_id = old(self)@.next_sub_id;
                &&& (final(self)@, out.1@) == old(self)@.prepared(ev).at(
                    key@,
                    |e: EntryModel<V, F, C>| e.subscribe(sub_id, fetcher, compare, opts, now),
                )
                &&& out.0@ == old(self)@.outcome(ev, now)
            }),
            out.0 matches Outcome::Subscribed { rx, .. } ==> final(self).hears(key@, rx),
            final(self).wired(),
            final(self).keeps_channels(*old(self)),
            final(self).handled == old(self).handled,
    {
        let at = self.entry_or_create(key);
        let sub_id = self.next_sub_id;
        self.next_sub_id += 1;
        let ghost before = self@;
        proof {
            lemma_entered_distinct(old(self)@, key@);
            assert(before.slots =~= old(self)@.entered(key@).slots);
            assert(before.stands_at(key@, at as int));
            lemma_position(before, key@, at as int);
            lemma_position(old(self)@.entered(key@), key@, at as int);
        }
        let mark = self.slots[at].entry.subscribe(sub_id, fetcher, compare, opts, now);
        let rx = self.slots[at].entry.tx.subscribe();
        let marks = self.mark(at, mark);
        assert(self@.slots =~= before.slots.update(
            at as int,
            SlotModel { key: key@, entry: self.slots[at as int].entry@ },
        ));
        (Outcome::Subscribed { sub_id, rx }, marks)
    }

    /// Handles the end of a subscription.
    fn on_unsubscribe(&mut self, key: &QueryKey, sub_id: u64) -> (marks: Vec<Marks>)
        requires
            old(self).wired(),
            old(self).roomy(2),
            old(self)@.distinct(),
        ensures
            (final(self)@, marks@) == old(self)@.at(
                key@,
                |e: EntryModel<V, F, C>| e.unsubscribe(sub_id),
            ),
            final(self).wired(),
            final(self).keeps_channels(*old(self)),
            final(self).handled == old(self).handled,
    {
        match self.find(key) {
            None => self.unmarked(),
            Some(at) => {
                proof {
                    lemma_position(self@, key@, at as int);
                }
                let mark = self.slots[at].entry.unsubscribe(sub_id);
                let marks = self.mark(at, mark);
                assert(self@.slots =~= old(self)@.slots.update(
                    at as int,
                    SlotModel { key: key@, entry: self.slots[at as int].entry@ },
                ));
                marks
            },
        }
    }

    /// Handles a revalidation request.
    fn on_revalidate_requested(&mut self, key: &QueryKey) -> (marks: Vec<Marks>)
        requires
            old(self).wired(),
            old(self).roomy(2),
            old(self)@.distinct(),
        ensures
            (final(self)@, marks@) == old(self)@.at(
                key@,
                |e: EntryModel<V, F, C>| e.revalidate(),
            ),
            final(self).wired(),
            final(self).keeps_channels(*old(self)),
            final(self).handled == old(self).handled,
    {
        match self.find(key) {
            None => self.unmarked(),
            Some(at) => {
                proof {
                    lemma_position(self@, key@, at as int);
                }
                let mark = self.slots[at].entry.revalidate();
                let marks = self.mark(at, mark);
                assert(self@.slots =~= old(self)@.slots.update(
                    at as int,
                    SlotModel { key: key@, entry: self.slots[at as int].entry@ },
                ));
                marks
            },
        }
    }

    /// Handles a failed fetch.
    fn on_commit_err(
        &mut self,
        key: &QueryKey,
        incarnation: u64,
        seq: u64,
        error: Arc<V>,
    ) -> (marks: Vec<Marks>)
        requires
            old(self).wired(),
            old(self).roomy(2),
            old(self)@.distinct(),
        ensures
            (final(self)@, marks@) == old(self)@.at(
                key@,
                |e: EntryModel<V, F, C>| e.commit_err(incarnation, seq, error),
            ),
            final(self).wired(),
            final(self).keeps_channels(*old(self)),
            final(self).handled == old(self).handled,
    {
        match self.find(key) {
            None => self.unmarked(),
            Some(at) => {
                proof {
                    lemma_position(self@, key@, at as int);
                }
                let mark = self.slots[at].entry.commit_err(incarnation, seq, error);
                let marks = self.mark(at, mark);
                assert(self@.slots =~= old(self)@.slots.update(
                    at as int,
                    SlotModel { key: key@, entry: self.slots[at as int].entry@ },
                ));
                marks
            },
        }
    }

    /// Handles a local write.
    fn on_mutate_set(&mut self, key: &QueryKey, value: Arc<V>, now: Instant) -> (marks: Vec<Marks>)
        requires
            old(self).wired(),
            old(self).roomy(2),
            old(self)@.distinct(),
            old(self).next_incarnation < u64::MAX,
        ensures
            (final(self)@, marks@) == old(self)@.entered(key@).at(
                key@,
                |e: EntryModel<V, F, C>| e.set(value, now),
            ),
            final(self).wired(),
            final(self).keeps_channels(*old(self)),
            final(self).handled == old(self).handled,
    {
        let at = self.entry_or_create(key);
        let ghost before = self@;
        proof {
            lemma_entered_distinct(old(self)@, key@);
            lemma_position(before, key@, at as int);
        }
        let mark = self.slots[at].entry.set(value, now);
        let marks = self.mark(at, mark);
        assert(self@.slots =~= before.slots.update(
            at as int,
            SlotModel { key: key@, entry: self.slots[at as int].entry@ },
        ));
        marks
    }

    /// Handles the beginning of a mutation.
    fn on_mutate_begin(&mut self, key: QueryKey, optimistic: Option<Arc<V>>) -> (out: (
        Outcome<V>,
        Vec<Marks>,
    ))
        requires
            old(self).wired(),
            old(self).roomy(2),
            old(self)@.distinct(),
            old(self).next_incarnation < u64::MAX,
        ensures
            (final(self)@, out.1@) == old(self)@.entered(key@).at(
                key@,
                |e: EntryModel<V, F, C>| e.mutate_begin(optimistic),
            ),
            out.0@ == (OutcomeModel::<V>::Mutation {
                key: key@,
                written_seq: old(self)@.entered(key@).entry(key@)->0.written_seq(optimistic),
            }),
            final(self).wired(),
            final(self).keeps_channels(*old(self)),
            final(self).handled == old(self).handled,
    {
        let at = self.entry_or_create(&key);
        let ghost before = self@;
        proof {
            lemma_entered_distinct(old(self)@, key@);
            lemma_position(before, key@, at as int);
        }
        let (mark, written_seq) = self.slots[at].entry.mutate_begin(optimistic);
        let marks = self.mark(at, mark);
        assert(self@.slots =~= before.slots.update(
            at as int,
            SlotModel { key: key@, entry: self.slots[at as int].entry@ },
        ));
        (Outcome::Mutation(MutationToken { key, written_seq }), marks)
    }

    /// Handles the end of a mutation.
    fn on_mutate_commit(
        &mut self,
        key: &QueryKey,
        written_seq: Option<u64>,
        result: Result<Option<Arc<V>>, Arc<V>>,
        flags: MutateFlags,
        now: Instant,
    ) -> (marks: Vec<Marks>)
        requires
            old(self).wired(),
            old(self).roomy(2),
            old(self)@.distinct(),
        ensures
            (final(self)@, marks@) == old(self)@.at(
                key@,
                |e: EntryModel<V, F, C>| e.mutate_commit(written_seq, result, flags, now),
            ),
            final(self).wired(),
            final(self).keeps_channels(*old(self)),
            final(self).handled == old(self).handled,
    {
        match self.find(key) {
            None => self.unmarked(),
            Some(at) => {
                proof {
                    lemma_position(self@, key@, at as int);
                }
                let mark = self.slots[at].entry.mutate_commit(written_seq, result, flags, now);
                let marks = self.mark(at, mark);
                assert(self@.slots =~= old(self)@.slots.update(
                    at as int,
                    SlotModel { key: key@, entry: self.slots[at as int].entry@ },
                ));
                marks
            },
        }
    }

    /// Handles a dropped mutation.
    fn on_mutate_abort(
        &mut self,
        key: &QueryKey,
        written_seq: Option<u64>,
        flags: MutateFlags,
    ) -> (marks: Vec<Marks>)
        requires
            old(self).wired(),
            old(self).roomy(2),
            old(self)@.distinct(),
        ensures
            (final(self)@, marks@) == old(self)@.at(
                key@,
                |e: EntryModel<V, F, C>| e.mutate_abort(written_seq, flags),
            ),
            final(self).wired(),
            final(self).keeps_channels(*old(self)),
            final(self).handled == old(self).handled,
    {
        match self.find(key) {
            None => self.unmarked(),
            Some(at) => {
                proof {
                    lemma_position(self@, key@, at as int);
                }
                let mark = self.slots[at].entry.mutate_abort(written_seq, flags);
                let marks = self.mark(at, mark);
                assert(self@.slots =~= old(self)@.slots.update(
                    at as int,
                    SlotModel { key: key@, entry: self.slots[at as int].entry@ },
                ));
                marks
            },
        }
    }

    /// Handles an invalidation of every key under a prefix.
    fn on_invalidate(&mut self, prefix: &[Segment]) -> (marks: Vec<Marks>)
        requires
            old(self).wired(),
            old(self).roomy(2),
        ensures
            final(self)@ == old(self)@.replaced(
                |i: int| old(self)@.invalidate_at(i, segments_model(prefix@)).entry,
            ),
            marks@ == Seq::new(
                old(self)@.slots.len(),
                |i: int| old(self)@.invalidate_at(i, segments_model(prefix@)).marks,
            ),
            final(self).wired(),
            final(self).keeps_channels(*old(self)),
            final(self).handled == old(self).handled,
    {
        let ghost before = self@;
        let mut marks: Vec<Marks> = Vec::new();
        let mut i: usize = 0;
        while i < self.slots.len()
            invariant
                i <= self.slots.len(),
                before == old(self)@,
                before.slots.len() == self.slots.len(),
                marks@ == Seq::new(
                    i as nat,
                    |j: int| before.invalidate_at(j, segments_model(prefix@)).marks,
                ),
                forall|j: int|
                    0 <= j < i ==> (#[trigger] self.slots[j])@ == (SlotModel {
                        key: before.slots[j].key,
                        entry: before.invalidate_at(j, segments_model(prefix@)).entry,
                    }),
                forall|j: int|
                    i <= j < self.slots.len() ==> (#[trigger] self.slots[j])@ == before.slots[j],
                forall|j: int|
                    0 <= j < before.slots.len() ==> (#[trigger] before.slots[j]).entry.bounded(
                        u64::MAX - 2,
                    ),
                self@.defaults == before.defaults,
                self@.next_sub_id == before.next_sub_id,
                self@.next_incarnation == before.next_incarnation,
                self.wired(),
                self.keeps_channels(*old(self)),
                self.handled == old(self).handled,
            decreases self.slots.len() - i,
        {
            assert(self.slots[i as int]@ == before.slots[i as int]);
            let mark = if self.slots[i].key.matches_prefix(prefix) {
                self.slots[i].entry.invalidate()
            } else {
                Marks::idle()
            };
            marks.push(mark);
            i += 1;
        }
        marks
    }

    /// Handles an environment event.
    fn on_broadcast(&mut self, ev: SwrEvent, now: Instant) -> (marks: Vec<Marks>)
        requires
            old(self).wired(),
            old(self).roomy(2),
        ensures
            final(self)@ == old(self)@.replaced(|i: int| old(self)@.broadcast_at(i, ev, now).entry),
            marks@ == Seq::new(
                old(self)@.slots.len(),
                |i: int| old(self)@.broadcast_at(i, ev, now).marks,
            ),
            final(self).wired(),
            final(self).keeps_channels(*old(self)),
            final(self).handled == old(self).handled,
    {
        let ghost before = self@;
        let mut marks: Vec<Marks> = Vec::new();
        let mut i: usize = 0;
        while i < self.slots.len()
            invariant
                i <= self.slots.len(),
                before == old(self)@,
                before.slots.len() == self.slots.len(),
                marks@ == Seq::new(i as nat, |j: int| before.broadcast_at(j, ev, now).marks),
                forall|j: int|
                    0 <= j < i ==> (#[trigger] self.slots[j])@ == (SlotModel {
                        key: before.slots[j].key,
                        entry: before.broadcast_at(j, ev, now).entry,
                    }),
                forall|j: int|
                    i <= j < self.slots.len() ==> (#[trigger] self.slots[j])@ == before.slots[j],
                forall|j: int|
                    0 <= j < before.slots.len() ==> (#[trigger] before.slots[j]).entry.bounded(
                        u64::MAX - 2,
                    ),
                self@.defaults == before.defaults,
                self@.next_sub_id == before.next_sub_id,
                self@.next_incarnation == before.next_incarnation,
                self.wired(),
                self.keeps_channels(*old(self)),
                self.handled == old(self).handled,
            decreases self.slots.len() - i,
        {
            assert(self.slots[i as int]@ == before.slots[i as int]);
            let defaults = self.defaults;
            let mark = self.slots[i].entry.broadcast(ev, now, &defaults);
            marks.push(mark);
            i += 1;
        }
        marks
    }

    /// Handles a removal timer: an entry that has been idle since the timer
    /// was scheduled leaves the table, and its channel closes.
    fn on_timer_gc(&mut self, key: &QueryKey, generation: u64) -> (removed: bool)
        requires
            old(self).wired(),
            old(self)@.distinct(),
        ensures
            removed == (old(self)@.holds(key@) && old(self)@.entry(key@)->0.collected_by(
                generation,
            )),
            removed ==> final(self)@ == old(self)@.without(key@),
            removed ==> final(self).slots@ == old(self).slots@.remove(
                old(self)@.position(key@),
            ),
            !removed ==> final(self)@ == old(self)@,
            !removed ==> final(self).keeps_channels(*old(self)),
            final(self).wired(),
            final(self).handled == old(self).handled,
    {
        match self.find(key) {
            None => false,
            Some(at) => {
                proof {
                    lemma_position(self@, key@, at as int);
                }
                let entry = &self.slots[at].entry;
                if generation == entry.gc_gen && entry.is_quiescent() {
                    self.slots.remove(at);
                    assert(self@.slots =~= old(self)@.without(key@).slots);
                    true
                } else {
                    false
                }
            },
        }
    }

    /// Handles a refresh timer.
    fn on_timer_refresh(&mut self, key: &QueryKey, generation: u64) -> (marks: Vec<Marks>)
        requires
            old(self).wired(),
            old(self).roomy(2),
            old(self)@.distinct(),
        ensures
            (final(self)@, marks@) == old(self)@.at(
                key@,
                |e: EntryModel<V, F, C>| e.timer_refresh(generation),
            ),
            final(self).wired(),
            final(self).keeps_channels(*old(self)),
            final(self).handled == old(self).handled,
    {
        match self.find(key) {
            None => self.unmarked(),
            Some(at) => {
                proof {
                    lemma_position(self@, key@, at as int);
                }
                let mark = self.slots[at].entry.timer_refresh(generation);
                let marks = self.mark(at, mark);
                assert(self@.slots =~= old(self)@.slots.update(
                    at as int,
                    SlotModel { key: key@, entry: self.slots[at as int].entry@ },
                ));
                marks
            },
        }
    }
}

/// A table for one key is the reaction of the whole machine when every other
/// entry stays idle.
proof fn lemma_at_is_reaction<V: ?Sized, F: ?Sized, C>(
    p: MachineModel<V, F, C>,
    key: KeyModel,
    table: spec_fn(EntryModel<V, F, C>) -> Reaction<V, F, C>,
    ev: Event<V, F, C>,
    sub_id: u64,
    unchanged: bool,
    now: Instant,
)
    requires
        p.distinct(),
        forall|i: int|
            0 <= i < p.slots.len() ==> #[trigger] p.reaction(i, ev, sub_id, unchanged, now) == if (
            p.slots[i].key == key) {
                table(p.slots[i].entry)
            } else {
                p.slots[i].entry.idle()
            },
    ensures
        p.at(key, table) == (
            p.reacted(ev, sub_id, unchanged, now),
            p.marked(ev, sub_id, unchanged, now),
        ),
{
    let (m, marks) = p.at(key, table);
    let r = p.reacted(ev, sub_id, unchanged, now);
    if p.holds(key) {
        let at = p.position(key);
        assert(p.stands_at(key, at));
    }
    assert forall|i: int| 0 <= i < p.slots.len() implies #[trigger] m.slots[i] == r.slots[i]
        && marks[i] == p.reaction(i, ev, sub_id, unchanged, now).marks by {
        if p.slots[i].key == key {
            assert(p.stands_at(key, i));
            lemma_position(p, key, i);
        }
    }
    assert(m.slots =~= r.slots);
    assert(marks =~= p.marked(ev, sub_id, unchanged, now));
}

/// The passes over the table, one after the other, are the follow-up rules of
/// each entry.
proof fn lemma_passes_settle<V: ?Sized, F: ?Sized, C>(
    m: MachineModel<V, F, C>,
    marks: Seq<Marks>,
    now: Instant,
)
    ensures
        ({
            let settled = m.settled(marks, now);
            let counted = m.replaced(|i: int| m.countdown(i, marks, now).0);
            let ticked = counted.replaced(|i: int| counted.tick(i, marks, now).0);
            let n = m.slots.len();
            &&& ticked.replaced(|i: int| ticked.note(i, marks).0) == m.replaced(
                |i: int| settled[i].entry,
            )
            &&& fetches(settled) == Seq::new(
                n,
                |i: int| m.slots[i].entry.fetch_order(m.slots[i].key, marks[i]),
            )
            &&& countdowns(settled) == Seq::new(n, |i: int| m.countdown(i, marks, now).1)
            &&& ticks(settled) == Seq::new(n, |i: int| counted.tick(i, marks, now).1)
            &&& notes(settled) == Seq::new(n, |i: int| ticked.note(i, marks).1)
        }),
{
    let settled = m.settled(marks, now);
    let counted = m.replaced(|i: int| m.countdown(i, marks, now).0);
    let ticked = counted.replaced(|i: int| counted.tick(i, marks, now).0);
    assert(ticked.replaced(|i: int| ticked.note(i, marks).0).slots =~= m.replaced(
        |i: int| settled[i].entry,
    ).slots);
    assert(fetches(settled) =~= Seq::new(
        m.slots.len(),
        |i: int| m.slots[i].entry.fetch_order(m.slots[i].key, marks[i]),
    ));
    assert(countdowns(settled) =~= Seq::new(
        m.slots.len(),
        |i: int| m.countdown(i, marks, now).1,
    ));
    assert(ticks(settled) =~= Seq::new(m.slots.len(), |i: int| counted.tick(i, marks, now).1));
    assert(notes(settled) =~= Seq::new(m.slots.len(), |i: int| ticked.note(i, marks).1));
}

/// Comparators stay total when those that come with events are.
proof fn lemma_comparators_stay_total<V: ?Sized, F: ?Sized, C: Fn(&Arc<V>, &Arc<V>) -> bool>(
    m: MachineModel<V, F, C>,
    ev: Event<V, F, C>,
    unchanged: bool,
    now: Instant,
    limit: int,
)
    requires
        m.inv(limit),
        0 <= limit,
        limit + 3 <= u64::MAX,
        answers(m, ev, unchanged),
        comparators_total(m),
        brings_total(ev),
    ensures
        comparators_total(m.step(ev, unchanged, now).machine),
{
    if !m.collects(ev) {
        let after = m.step(ev, unchanged, now).machine;
        let p = m.prepared(ev);
        lemma_prepared_keeps_inv(m, ev, limit);
        assert forall|i: int| 0 <= i < after.slots.len() implies comparator_total(
            (#[trigger] after.slots[i]).entry.compare,
        ) by {
            lemma_prepared_reaction_kept(m, i, ev, unchanged, now, limit);
            let r = p.reaction(i, ev, m.next_sub_id, unchanged, now);
            assert(after.slots[i].entry.compare == r.entry.compare);
            assert(i < m.slots.len() ==> p.slots[i] == m.slots[i]);
        }
    }
}

impl<V: ?Sized, F: ?Sized, C: Fn(&Arc<V>, &Arc<V>) -> bool> Inner<V, F, C> {
    /// What the machine keeps true of itself.
    pub closed spec fn inv(self) -> bool {
        &&& self.handled <= MAX_EVENTS
        &&& self@.inv(3 * self.handled)
        &&& comparators_total(self@)
        &&& self.wired()
    }

    /// The invariant over the model: what the laws of the machine ask for.
    pub proof fn lemma_inv(self)
        requires
            self.inv(),
        ensures
            self@.inv(3 * self.handled_spec()),
            self@.distinct(),
            self.handled_spec() <= MAX_EVENTS,
            self.handled_spec() < MAX_EVENTS ==> self@.valid(1),
            forall|key: KeyModel| #[trigger]
                self.channel(key) matches Some(tx) ==> tx.incarnation() == self@.entry(
                    key,
                )->0.incarnation,
    {
        assert forall|key: KeyModel| #[trigger]
            self.channel(key) matches Some(tx) implies self.channel(key)->0.incarnation()
            == self@.entry(key)->0.incarnation by {
            assert(self@.stands_at(key, self@.position(key)));
        }
    }

    /// A machine without entries.
    pub fn new(defaults: QueryOptions) -> (machine: Self)
        ensures
            machine@ == MachineModel::<V, F, C>::fresh(defaults),
            machine.handled_spec() == 0,
            machine.inv(),
    {
        let machine = Inner {
            slots: Vec::new(),
            defaults,
            next_sub_id: 0,
            next_incarnation: 0,
            handled: 0,
        };
        assert(machine@.slots =~= Seq::empty());
        machine
    }

    /// Handles a successful fetch. Returns whether the comparator found the
    /// value equal to the current data.
    fn on_commit_ok(
        &mut self,
        key: &QueryKey,
        incarnation: u64,
        seq: u64,
        value: Arc<V>,
        now: Instant,
    ) -> (out: (Vec<Marks>, bool))
        requires
            old(self).wired(),
            old(self)@.distinct(),
            comparators_total(old(self)@),
        ensures
            answers(
                old(self)@,
                Event::CommitOk { key: *key, incarnation, seq, value },
                out.1,
            ),
            (final(self)@, out.0@) == old(self)@.at(
                key@,
                |e: EntryModel<V, F, C>| e.commit_ok(incarnation, seq, value, out.1, now),
            ),
            final(self).wired(),
            final(self).keeps_channels(*old(self)),
            final(self).handled == old(self).handled,
    {
        match self.find(key) {
            None => (self.unmarked(), false),
            Some(at) => {
                proof {
                    lemma_position(self@, key@, at as int);
                    assert(comparator_total(self@.slots[at as int].entry.compare));
                }
                let (mark, unchanged) = self.slots[at].entry.commit_ok(
                    incarnation,
                    seq,
                    value,
                    now,
                );
                let marks = self.mark(at, mark);
                assert(self@.slots =~= old(self)@.slots.update(
                    at as int,
                    SlotModel { key: key@, entry: self.slots[at as int].entry@ },
                ));
                (marks, unchanged)
            },
        }
    }

    /// After the reactions, the counters have room for the follow-up rules,
    /// and every fetch that is asked for has a fetcher.
    proof fn lemma_reacted(
        self,
        m: MachineModel<V, F, C>,
        ev: Event<V, F, C>,
        unchanged: bool,
        now: Instant,
        limit: int,
    )
        requires
            m.inv(limit),
            0 <= limit,
            limit + 5 <= u64::MAX,
            answers(m, ev, unchanged),
            self@ == m.prepared(ev).reacted(ev, m.next_sub_id, unchanged, now),
        ensures
            self.roomy(3),
            forall|i: int|
                0 <= i < self.slots.len() && (#[trigger] m.prepared(ev).marked(
                    ev,
                    m.next_sub_id,
                    unchanged,
                    now,
                )[i]).fetch ==> self.slots[i].entry.fetcher is Some,
    {
        let p = m.prepared(ev);
        let marks = p.marked(ev, m.next_sub_id, unchanged, now);
        assert(self@.slots.len() == self.slots.len());
        assert forall|i: int| 0 <= i < self.slots.len() implies (
        #[trigger] self.slots[i]).entry@.bounded(u64::MAX - 3) by {
            lemma_prepared_reaction_kept(m, i, ev, unchanged, now, limit);
            assert(self@.slots[i] == self.slots[i]@);
        }
        assert forall|i: int| 0 <= i < self.slots.len() && (
        #[trigger] marks[i]).fetch implies self.slots[i].entry.fetcher is Some by {
            lemma_prepared_reaction_kept(m, i, ev, unchanged, now, limit);
            assert(self@.slots[i] == self.slots[i]@);
        }
    }

    /// Lets every entry react to an event. Returns the outcome, the marks, and
    /// the comparator's answer.
    fn react(&mut self, ev: Event<V, F, C>, now: Instant) -> (out: (Outcome<V>, Vec<Marks>, bool))
        requires
            old(self).wired(),
            old(self).roomy(2),
            old(self)@.distinct(),
            old(self)@.prepared(ev).distinct(),
            old(self).next_incarnation < u64::MAX,
            old(self).next_sub_id < u64::MAX,
            comparators_total(old(self)@),
        ensures
            ({
                let p = old(self)@.prepared(ev);
                let sub_id = old(self)@.next_sub_id;
                &&& final(self)@ == p.reacted(ev, sub_id, out.2, now)
                &&& out.1@ == p.marked(ev, sub_id, out.2, now)
            }),
            out.0@ == old(self)@.outcome(ev, now),
            match (ev, out.0) {
                (
                    Event::Read { key, .. },
                    Outcome::Read(ReadOutcome::Wait { rx, .. }),
                ) => final(self).hears(key@, rx),
                (
                    Event::Subscribe { key, .. },
                    Outcome::Subscribed { rx, .. },
                ) => final(self).hears(key@, rx),
                _ => true,
            },
            answers(old(self)@, ev, out.2),
            final(self).wired(),
            final(self).keeps_channels(*old(self)),
            final(self).handled == old(self).handled,
    {
        let ghost event = ev;
        let ghost p = self@.prepared(ev);
        let ghost sub_id = self@.next_sub_id;
        match ev {
            Event::Read { key, policy, fetcher, compare, opts } => {
                let (outcome, marks) = self.on_read(&key, policy, fetcher, compare, opts, now);
                proof {
                    lemma_at_is_reaction(
                        p,
                        key@,
                        |e: EntryModel<V, F, C>| e.read(policy, fetcher, compare, opts, now).0,
                        event,
                        sub_id,
                        false,
                        now,
                    );
                }
                (outcome, marks, false)
            },
            Event::Subscribe { key, fetcher, compare, opts } => {
                let (outcome, marks) = self.on_subscribe(&key, fetcher, compare, opts, now);
                proof {
                    lemma_at_is_reaction(
                        p,
                        key@,
                        |e: EntryModel<V, F, C>| e.subscribe(sub_id, fetcher, compare, opts, now),
                        event,
                        sub_id,
                        false,
                        now,
                    );
                }
                (outcome, marks, false)
            },
            Event::Unsubscribe { key, sub_id: leaving } => {
                let marks = self.on_unsubscribe(&key, leaving);
                proof {
                    lemma_at_is_reaction(
                        p,
                        key@,
                        |e: EntryModel<V, F, C>| e.unsubscribe(leaving),
                        event,
                        sub_id,
                        false,
                        now,
                    );
                }
                (Outcome::Done, marks, false)
            },
            Event::RevalidateRequested { key } => {
                let marks = self.on_revalidate_requested(&key);
                proof {
                    lemma_at_is_reaction(
                        p,
                        key@,
                        |e: EntryModel<V, F, C>| e.revalidate(),
                        event,
                        sub_id,
                        false,
                        now,
                    );
                }
                (Outcome::Done, marks, false)
            },
            Event::CommitOk { key, incarnation, seq, value } => {
                let (marks, answer) = self.on_commit_ok(&key, incarnation, seq, value, now);
                proof {
                    lemma_at_is_reaction(
                        p,
                        key@,
                        |e: EntryModel<V, F, C>| e.commit_ok(incarnation, seq, value, answer, now),
                        event,
                        sub_id,
                        answer,
                        now,
                    );
                }
                (Outcome::Done, marks, answer)
            },
            Event::CommitErr { key, incarnation, seq, error } => {
                let marks = self.on_commit_err(&key, incarnation, seq, error);
                proof {
                    lemma_at_is_reaction(
                        p,
                        key@,
                        |e: EntryModel<V, F, C>| e.commit_err(incarnation, seq, error),
                        event,
                        sub_id,
                        false,
                        now,
                    );
                }
                (Outcome::Done, marks, false)
            },
            Event::MutateSet { key, value } => {
                let marks = self.on_mutate_set(&key, value, now);
                proof {
                    lemma_at_is_reaction(
                        p,
                        key@,
                        |e: EntryModel<V, F, C>| e.set(value, now),
                        event,
                        sub_id,
                        false,
                        now,
                    );
                }
                (Outcome::Done, marks, false)
            },
            Event::MutateBegin { key, optimistic } => {
                let (outcome, marks) = self.on_mutate_begin(key, optimistic);
                proof {
                    lemma_at_is_reaction(
                        p,
                        key@,
                        |e: EntryModel<V, F, C>| e.mutate_begin(optimistic),
                        event,
                        sub_id,
                        false,
                        now,
                    );
                }
                (outcome, marks, false)
            },
            Event::MutateCommit { token, result, flags } => {
                let written_seq = token.written_seq;
                let marks = self.on_mutate_commit(&token.key, written_seq, result, flags, now);
                proof {
                    lemma_at_is_reaction(
                        p,
                        token.key@,
                        |e: EntryModel<V, F, C>| e.mutate_commit(written_seq, result, flags, now),
                        event,
                        sub_id,
                        false,
                        now,
                    );
                }
                (Outcome::Done, marks, false)
            },
            Event::MutateAbort { token, flags } => {
                let written_seq = token.written_seq;
                let marks = self.on_mutate_abort(&token.key, written_seq, flags);
                proof {
                    lemma_at_is_reaction(
                        p,
                        token.key@,
                        |e: EntryModel<V, F, C>| e.mutate_abort(written_seq, flags),
                        event,
                        sub_id,
                        false,
                        now,
                    );
                }
                (Outcome::Done, marks, false)
            },
            Event::Invalidate { prefix } => {
                let marks = self.on_invalidate(prefix.as_slice());
                proof {
                    assert(self@.slots =~= p.reacted(event, sub_id, false, now).slots);
                    assert(marks@ =~= p.marked(event, sub_id, false, now));
                }
                (Outcome::Done, marks, false)
            },
            Event::Broadcast { ev } => {
                let marks = self.on_broadcast(ev, now);
                proof {
                    assert(self@.slots =~= p.reacted(event, sub_id, false, now).slots);
                    assert(marks@ =~= p.marked(event, sub_id, false, now));
                }
                (Outcome::Done, marks, false)
            },
            Event::TimerFired { key, kind, generation } => match kind {
                TimerKind::Gc => {
                    let marks = self.unmarked();
                    proof {
                        assert(self@.slots =~= p.reacted(event, sub_id, false, now).slots);
                        assert(marks@ =~= p.marked(event, sub_id, false, now));
                    }
                    (Outcome::Done, marks, false)
                },
                TimerKind::Refresh => {
                    let marks = self.on_timer_refresh(&key, generation);
                    proof {
                        lemma_at_is_reaction(
                            p,
                            key@,
                            |e: EntryModel<V, F, C>| e.timer_refresh(generation),
                            event,
                            sub_id,
                            false,
                            now,
                        );
                    }
                    (Outcome::Done, marks, false)
                },
            },
        }
    }

    /// The sole entry point: takes one event, changes the state, and returns
    /// the outcome with the effects to carry out, in order and outside the
    /// lock.
    pub fn handle(&mut self, ev: Event<V, F, C>, now: Instant) -> (out: HandleOutput<V, F>)
        requires
            old(self).inv(),
            old(self).handled_spec() < MAX_EVENTS,
            brings_total(ev),
        ensures
            final(self).inv(),
            final(self).handled_spec() == old(self).handled_spec() + 1,
            exists|unchanged: bool| #[trigger]
                answers(old(self)@, ev, unchanged) && (Step {
                    machine: final(self)@,
                    outcome: out.outcome@,
                    effects: effects_model(out.effects@),
                }) == old(self)@.step(ev, unchanged, now),
            final(self).follows(*old(self)),
            final(self).addresses(out.effects@),
            match (ev, out.outcome) {
                (
                    Event::Read { key, .. },
                    Outcome::Read(ReadOutcome::Wait { rx, .. }),
                ) => final(self).reaches(key@, rx),
                (
                    Event::Subscribe { key, .. },
                    Outcome::Subscribed { rx, .. },
                ) => final(self).reaches(key@, rx),
                _ => true,
            },
    {
        let ghost m = self@;
        let ghost limit = 3 * self.handled;
        self.handled += 1;
        if let Event::TimerFired { key, kind: TimerKind::Gc, generation } = &ev {
            if self.on_timer_gc(key, *generation) {
                proof {
                    self.lemma_follows_removal(*old(self), m.position(key@));
                    law_every_event_keeps_the_invariant(m, ev, false, now, limit);
                    lemma_comparators_stay_total(m, ev, false, now, limit);
                }
                let effects: Vec<Effect<V, F>> = Vec::new();
                assert(effects_model(effects@) =~= Seq::empty());
                return HandleOutput { outcome: Outcome::Done, effects };
            }
        }
        proof {
            lemma_prepared_keeps_inv(m, ev, limit);
            self.lemma_roomy(limit, 2);
        }
        let ghost event = ev;
        let (outcome, marks, answer) = self.react(ev, now);
        proof {
            self.lemma_reacted(m, event, answer, now, limit);
        }
        let ghost reacted = *self;
        let effects = self.settle(&marks, now);
        proof {
            law_every_event_keeps_the_invariant(m, event, answer, now, limit);
            lemma_comparators_stay_total(m, event, answer, now, limit);
            self.lemma_reaches(reacted, effects@);
            self.lemma_follows_through(reacted, *old(self));
        }
        HandleOutput { outcome, effects }
    }
}

} // verus!
