//! What goes into the machine and what comes out of it.

use crate::channel::{SnapshotReceiver, SnapshotSender};
use crate::key::{KeyModel, QueryKey, Segment};
use crate::options::{MutateFlags, QueryOptions, ReadPolicy, SwrEvent};
use crate::snapshot::Snapshot;
use crate::time::Instant;
use std::sync::Arc;
use vstd::prelude::*;

verus! {

/// Timer classes scheduled by the machine.
#[derive(Clone, Copy, Debug, PartialEq, Eq, Structural)]
pub enum TimerKind {
    /// Countdown to the removal of an idle entry.
    Gc,
    /// Background refresh tick.
    Refresh,
}

/// Ticket handed out when a mutation begins and handed back when it ends.
pub struct MutationToken {
    /// Key under mutation.
    pub key: QueryKey,
    /// Sequence number taken by this mutation's optimistic write, if it made
    /// one. A rollback compares it with the entry's `data_seq`.
    pub written_seq: Option<u64>,
}

impl Clone for MutationToken {
    fn clone(&self) -> (token: Self)
        ensures
            token.key@ == self.key@,
            token.written_seq == self.written_seq,
    {
        MutationToken { key: self.key.clone(), written_seq: self.written_seq }
    }
}

/// Input events, over values `V`, fetchers `F` and comparators `C`.
pub enum Event<V: ?Sized, F: ?Sized, C> {
    /// A one-shot read. A given fetcher replaces the stored one, and so does a
    /// given comparator.
    Read {
        /// Key to read.
        key: QueryKey,
        /// How to treat cached data.
        policy: ReadPolicy,
        /// Fetcher to store, if any.
        fetcher: Option<Arc<F>>,
        /// Comparator to store, if any.
        compare: Option<Arc<C>>,
        /// Options of the read.
        opts: QueryOptions,
    },
    /// A subscription begins. Without a fetcher the subscriber only observes.
    Subscribe {
        /// Key to watch.
        key: QueryKey,
        /// Fetcher to store, if any.
        fetcher: Option<Arc<F>>,
        /// Comparator to store, if any.
        compare: Option<Arc<C>>,
        /// Options of the subscriber.
        opts: QueryOptions,
    },
    /// A subscription ends; its options leave the aggregate.
    Unsubscribe {
        /// Watched key.
        key: QueryKey,
        /// Which subscriber leaves.
        sub_id: u64,
    },
    /// Manual revalidation.
    RevalidateRequested {
        /// Key to revalidate.
        key: QueryKey,
    },
    /// A fetch finished successfully.
    CommitOk {
        /// Fetched key.
        key: QueryKey,
        /// Incarnation of the entry that started the fetch.
        incarnation: u64,
        /// Sequence number of the fetch.
        seq: u64,
        /// What it returned.
        value: Arc<V>,
    },
    /// A fetch failed.
    CommitErr {
        /// Fetched key.
        key: QueryKey,
        /// Incarnation of the entry that started the fetch.
        incarnation: u64,
        /// Sequence number of the fetch.
        seq: u64,
        /// How it failed.
        error: Arc<V>,
    },
    /// Synchronous local write.
    MutateSet {
        /// Key to write.
        key: QueryKey,
        /// Value to store.
        value: Arc<V>,
    },
    /// An async mutation begins; yields a [`MutationToken`].
    MutateBegin {
        /// Key to mutate.
        key: QueryKey,
        /// Value to show while the mutation runs, if any.
        optimistic: Option<Arc<V>>,
    },
    /// An async mutation finished.
    MutateCommit {
        /// Ticket of the mutation.
        token: MutationToken,
        /// What it returned.
        result: Result<Option<Arc<V>>, Arc<V>>,
        /// How to settle it.
        flags: MutateFlags,
    },
    /// An async mutation was dropped before it finished: settled like a
    /// failure, without an error to record.
    MutateAbort {
        /// Ticket of the mutation.
        token: MutationToken,
        /// How to settle it.
        flags: MutateFlags,
    },
    /// Invalidation of every key under a prefix.
    Invalidate {
        /// The prefix.
        prefix: Vec<Segment>,
    },
    /// Environment event.
    Broadcast {
        /// What happened.
        ev: SwrEvent,
    },
    /// A scheduled timer fired. Outdated generations are ignored.
    TimerFired {
        /// Key the timer belongs to.
        key: QueryKey,
        /// Timer class.
        kind: TimerKind,
        /// Generation it was scheduled with.
        generation: u64,
    },
}

/// Output effects, to be carried out strictly in order.
#[verifier::reject_recursive_types(V)]
pub enum Effect<V: ?Sized, F: ?Sized> {
    /// Run the fetcher as a detached task; its result comes back as
    /// [`Event::CommitOk`] or [`Event::CommitErr`].
    StartFetch {
        /// Key to fetch.
        key: QueryKey,
        /// Incarnation of the entry, to be handed back on commit.
        incarnation: u64,
        /// Sequence number of the fetch, to be handed back on commit.
        seq: u64,
        /// What to run.
        fetcher: Arc<F>,
    },
    /// Publish a snapshot on the entry's channel.
    Notify {
        /// The entry's channel.
        tx: SnapshotSender<V>,
        /// What to publish.
        snapshot: Snapshot<V, V>,
    },
    /// Sleep until `at`, then feed [`Event::TimerFired`] back.
    ScheduleTimer {
        /// Key the timer belongs to.
        key: QueryKey,
        /// Timer class.
        kind: TimerKind,
        /// When to fire.
        at: Instant,
        /// Generation to hand back.
        generation: u64,
    },
}

/// What an [`Effect`] asks for. Channels are named by incarnation; that a
/// notification carries the very channel of its entry, the machine says beside
/// this (`Inner::addresses`).
pub enum EffectModel<V: ?Sized, F: ?Sized> {
    /// See [`Effect::StartFetch`].
    StartFetch {
        /// Key to fetch.
        key: KeyModel,
        /// Incarnation of the entry.
        incarnation: u64,
        /// Sequence number of the fetch.
        seq: u64,
        /// What to run.
        fetcher: Arc<F>,
    },
    /// See [`Effect::Notify`].
    Notify {
        /// Whose channel to publish on.
        incarnation: u64,
        /// What to publish.
        snapshot: Snapshot<V, V>,
    },
    /// See [`Effect::ScheduleTimer`].
    ScheduleTimer {
        /// Key the timer belongs to.
        key: KeyModel,
        /// Timer class.
        kind: TimerKind,
        /// When to fire.
        at: Instant,
        /// Generation to hand back.
        generation: u64,
    },
}

impl<V: ?Sized, F: ?Sized> View for Effect<V, F> {
    type V = EffectModel<V, F>;

    open spec fn view(&self) -> EffectModel<V, F> {
        match self {
            Effect::StartFetch { key, incarnation, seq, fetcher } => EffectModel::StartFetch {
                key: key@,
                incarnation: *incarnation,
                seq: *seq,
                fetcher: *fetcher,
            },
            Effect::Notify { tx, snapshot } => EffectModel::Notify {
                incarnation: tx.incarnation(),
                snapshot: *snapshot,
            },
            Effect::ScheduleTimer { key, kind, at, generation } => EffectModel::ScheduleTimer {
                key: key@,
                kind: *kind,
                at: *at,
                generation: *generation,
            },
        }
    }
}

/// What an effect asks for, if there is one.
pub open spec fn effect_model<V: ?Sized, F: ?Sized>(effect: Option<Effect<V, F>>) -> Option<
    EffectModel<V, F>,
> {
    match effect {
        Some(effect) => Some(effect@),
        None => None,
    }
}

/// What a list of effects asks for, in order.
pub open spec fn effects_model<V: ?Sized, F: ?Sized>(effects: Seq<Effect<V, F>>) -> Seq<
    EffectModel<V, F>,
> {
    effects.map_values(|e: Effect<V, F>| e@)
}

/// What a read returns to its caller.
#[verifier::reject_recursive_types(V)]
pub enum ReadOutcome<V: ?Sized> {
    /// A snapshot to use immediately.
    Ready(Snapshot<V, V>),
    /// Wait until `data_seq` or `error_seq` has reached `target`.
    Wait {
        /// Sequence number to wait for.
        target: u64,
        /// Where to wait.
        rx: SnapshotReceiver<V>,
    },
    /// Nothing cached and no fetcher to run.
    NoFetcher,
}

/// What a [`ReadOutcome`] says. Channels are named by incarnation; that a reader
/// gets a receiver of the very channel of its entry, the machine says beside this
/// (`Inner::reaches`).
pub enum ReadModel<V: ?Sized> {
    /// See [`ReadOutcome::Ready`].
    Ready(Snapshot<V, V>),
    /// See [`ReadOutcome::Wait`].
    Wait {
        /// Sequence number to wait for.
        target: u64,
        /// Whose channel to wait on.
        incarnation: u64,
    },
    /// See [`ReadOutcome::NoFetcher`].
    NoFetcher,
}

impl<V: ?Sized> View for ReadOutcome<V> {
    type V = ReadModel<V>;

    open spec fn view(&self) -> ReadModel<V> {
        match self {
            ReadOutcome::Ready(snapshot) => ReadModel::Ready(*snapshot),
            ReadOutcome::Wait { target, rx } => ReadModel::Wait {
                target: *target,
                incarnation: rx.incarnation,
            },
            ReadOutcome::NoFetcher => ReadModel::NoFetcher,
        }
    }
}

/// What an event returns to its caller.
#[verifier::reject_recursive_types(V)]
pub enum Outcome<V: ?Sized> {
    /// Nothing to return.
    Done,
    /// Result of a read.
    Read(ReadOutcome<V>),
    /// Result of a subscription.
    Subscribed {
        /// Id to unsubscribe with.
        sub_id: u64,
        /// Where to watch.
        rx: SnapshotReceiver<V>,
    },
    /// Result of beginning a mutation.
    Mutation(MutationToken),
}

/// What an [`Outcome`] says. Channels are named by incarnation, as in
/// [`ReadModel`].
pub enum OutcomeModel<V: ?Sized> {
    /// See [`Outcome::Done`].
    Done,
    /// See [`Outcome::Read`].
    Read(ReadModel<V>),
    /// See [`Outcome::Subscribed`].
    Subscribed {
        /// Id to unsubscribe with.
        sub_id: u64,
        /// Whose channel to watch.
        incarnation: u64,
    },
    /// See [`Outcome::Mutation`].
    Mutation {
        /// Key under mutation.
        key: KeyModel,
        /// Sequence number of the optimistic write.
        written_seq: Option<u64>,
    },
}

impl<V: ?Sized> View for Outcome<V> {
    type V = OutcomeModel<V>;

    open spec fn view(&self) -> OutcomeModel<V> {
        match self {
            Outcome::Done => OutcomeModel::Done,
            Outcome::Read(read) => OutcomeModel::Read(read@),
            Outcome::Subscribed { sub_id, rx } => OutcomeModel::Subscribed {
                sub_id: *sub_id,
                incarnation: rx.incarnation,
            },
            Outcome::Mutation(token) => OutcomeModel::Mutation {
                key: token.key@,
                written_seq: token.written_seq,
            },
        }
    }
}

/// Result of feeding one event to the machine.
#[verifier::reject_recursive_types(V)]
pub struct HandleOutput<V: ?Sized, F: ?Sized> {
    /// What the event returns to its caller.
    pub outcome: Outcome<V>,
    /// What the host has to do, in order.
    pub effects: Vec<Effect<V, F>>,
}

} // verus!
