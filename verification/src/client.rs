//! What the client decides between two waits.
//!
//! The host runs the client: it locks the machine, feeds it events, carries
//! out the effects, awaits fetchers, timers and channels. The steps in between
//! are here: what an effect asks the host to run, what comes of a read, how a
//! reader goes on waiting, and how a mutation ends exactly once.

use crate::channel::{taken, SnapshotReceiver, SnapshotSender};
use crate::error::FetchError;
use crate::key::QueryKey;
use crate::machine::event::{
    Effect, Event, MutationToken, Outcome, ReadOutcome, TimerKind,
};
use crate::machine::inner::Inner;
use crate::machine::table::MachineModel;
use crate::options::{MutateFlags, MutateOptions, QueryOptions, ReadPolicy};
use crate::snapshot::{share, Snapshot};
use crate::time::Instant;
use std::sync::Arc;
use tokio::sync::watch;
use vstd::prelude::*;

verus! {

// ---- building ----

/// Builder of a client, overriding the default options.
#[derive(Clone, Copy, Debug)]
pub struct SwrClientBuilder {
    defaults: QueryOptions,
}

impl SwrClientBuilder {
    /// The options that reads use and that aggregation falls back on.
    pub closed spec fn defaults(self) -> QueryOptions {
        self.defaults
    }

    /// Overrides the default options.
    pub fn default_options(self, defaults: QueryOptions) -> (builder: Self)
        ensures
            builder.defaults() == defaults,
    {
        SwrClientBuilder { defaults }
    }

    /// Builds the machine that stands behind the client's lock.
    pub fn build<V: ?Sized, F: ?Sized, C: Fn(&Arc<V>, &Arc<V>) -> bool>(self) -> (machine: Inner<
        V,
        F,
        C,
    >)
        ensures
            machine@ == MachineModel::<V, F, C>::fresh(self.defaults()),
            machine.handled_spec() == 0,
            machine.inv(),
    {
        Inner::new(self.defaults)
    }
}

impl Default for SwrClientBuilder {
    fn default() -> (builder: Self)
        ensures
            builder.defaults() == QueryOptions::default_spec(),
    {
        SwrClientBuilder { defaults: QueryOptions::default() }
    }
}

// ---- effects ----

/// A fetch to run as a detached task: it outlives its callers, and its result
/// goes to the cache even if every waiting reader is gone.
pub struct FetchTask<F: ?Sized> {
    /// Key to fetch.
    pub key: QueryKey,
    /// Incarnation of the entry.
    pub incarnation: u64,
    /// Sequence number of the fetch.
    pub seq: u64,
    /// What to run.
    pub fetcher: Arc<F>,
}

/// A timer to run as a detached task.
pub struct TimerTask {
    /// Key the timer belongs to.
    pub key: QueryKey,
    /// Timer class.
    pub kind: TimerKind,
    /// When to fire.
    pub at: Instant,
    /// Generation to hand back.
    pub generation: u64,
}

/// What the host has to spawn for an effect.
pub enum Task<F: ?Sized> {
    /// Run a fetcher.
    Fetch(FetchTask<F>),
    /// Sleep, then fire.
    Timer(TimerTask),
}

impl<F: ?Sized> FetchTask<F> {
    /// The event that brings the result of the fetch to the machine.
    pub fn finish<V: ?Sized, C>(self, result: Result<Arc<V>, Arc<V>>) -> (ev: Event<V, F, C>)
        ensures
            ev == (match result {
                Ok(value) => Event::<V, F, C>::CommitOk {
                    key: self.key,
                    incarnation: self.incarnation,
                    seq: self.seq,
                    value,
                },
                Err(error) => Event::<V, F, C>::CommitErr {
                    key: self.key,
                    incarnation: self.incarnation,
                    seq: self.seq,
                    error,
                },
            }),
    {
        match result {
            Ok(value) => Event::CommitOk {
                key: self.key,
                incarnation: self.incarnation,
                seq: self.seq,
                value,
            },
            Err(error) => Event::CommitErr {
                key: self.key,
                incarnation: self.incarnation,
                seq: self.seq,
                error,
            },
        }
    }
}

impl TimerTask {
    /// The event that brings the timer to the machine.
    pub fn fire<V: ?Sized, F: ?Sized, C>(self) -> (ev: Event<V, F, C>)
        ensures
            ev == (Event::<V, F, C>::TimerFired {
                key: self.key,
                kind: self.kind,
                generation: self.generation,
            }),
    {
        Event::TimerFired { key: self.key, kind: self.kind, generation: self.generation }
    }
}

/// Carries out one effect, outside the machine's lock. A notification is
/// published here and now; a fetch or a timer is handed to the host to spawn.
/// What publishing leaves in the channel is the newer of what it held before
/// and the notified snapshot.
pub fn perform<V: ?Sized, F: ?Sized>(effect: Effect<V, F>) -> (task: Option<Task<F>>)
    ensures
        task == (match effect {
            Effect::StartFetch { key, incarnation, seq, fetcher } => Some(
                Task::Fetch(FetchTask { key, incarnation, seq, fetcher }),
            ),
            Effect::Notify { .. } => None,
            Effect::ScheduleTimer { key, kind, at, generation } => Some(
                Task::Timer(TimerTask { key, kind, at, generation }),
            ),
        }),
        effect matches Effect::Notify { tx, snapshot } ==> tx.published(snapshot),
{
    match effect {
        Effect::StartFetch { key, incarnation, seq, fetcher } => Some(
            Task::Fetch(FetchTask { key, incarnation, seq, fetcher }),
        ),
        Effect::Notify { tx, snapshot } => {
            tx.publish(snapshot);
            None
        },
        Effect::ScheduleTimer { key, kind, at, generation } => Some(
            Task::Timer(TimerTask { key, kind, at, generation }),
        ),
    }
}

// ---- reading ----

/// What a read call holds on to from one pass to the next.
pub struct FetchCall<F: ?Sized, C> {
    /// Key to read.
    pub key: QueryKey,
    /// How to treat cached data.
    pub policy: ReadPolicy,
    /// What to run if the data is missing or stale.
    pub fetcher: Arc<F>,
    /// Comparator, if the call shares structure.
    pub compare: Option<Arc<C>>,
    /// Options of the read.
    pub opts: QueryOptions,
}

/// How a read call goes on.
#[verifier::reject_recursive_types(V)]
pub enum FetchStep<V: ?Sized> {
    /// The call is over.
    Return(Result<Arc<V>, FetchError<V>>),
    /// Wait on the channel for the target.
    Wait {
        /// Sequence number to wait for.
        target: u64,
        /// Where to wait.
        rx: SnapshotReceiver<V>,
    },
}

/// How a wait on a channel ended.
pub enum WaitOutcome<V: ?Sized> {
    /// Data no older than the target is there.
    Data(Arc<V>),
    /// A fetch no older than the target failed.
    Error(Arc<V>),
    /// The entry was removed.
    Closed,
}

/// How a waiting reader goes on after looking at a snapshot.
pub enum WaitStep<V: ?Sized> {
    /// The wait is over.
    Done(WaitOutcome<V>),
    /// Wait for the next change. With `poke`, ask for a revalidation first:
    /// nothing is on its way that would end the wait.
    Park {
        /// Whether to ask for a revalidation.
        poke: bool,
    },
}

impl<F: ?Sized, C> FetchCall<F, C> {
    /// The read event of one pass. A pass that finds the entry removed meanwhile
    /// is followed by another one: the new entry counts from zero, so the old
    /// target means nothing there.
    pub fn read<V: ?Sized>(&self) -> (ev: Event<V, F, C>)
        ensures
            ev matches Event::Read { key, policy, fetcher, compare, opts } && {
                &&& key@ == self.key@
                &&& policy == self.policy
                &&& fetcher == Some(self.fetcher)
                &&& compare == self.compare
                &&& opts == self.opts
            },
    {
        Event::Read {
            key: self.key.clone(),
            policy: self.policy,
            fetcher: Some(self.fetcher.clone()),
            compare: share(&self.compare),
            opts: self.opts,
        }
    }
}

/// What an immediate snapshot means to a reader: data wins over a stored
/// error, and an empty one is a miss.
pub fn ready_result<T: ?Sized, E: ?Sized>(snapshot: Snapshot<T, E>) -> (result: Result<
    Arc<T>,
    FetchError<E>,
>)
    ensures
        result == (match (snapshot.data, snapshot.error) {
            (Some(value), _) => Ok::<Arc<T>, FetchError<E>>(value),
            (None, Some(error)) => Err(FetchError::Fetch(error)),
            (None, None) => Err(FetchError::Miss),
        }),
{
    match (snapshot.data, snapshot.error) {
        (Some(value), _) => Ok(value),
        (None, Some(error)) => Err(FetchError::Fetch(error)),
        (None, None) => Err(FetchError::Miss),
    }
}

/// How a read call goes on after its read event.
pub fn after_read<V: ?Sized>(outcome: Outcome<V>) -> (step: FetchStep<V>)
    requires
        outcome is Read,
    ensures
        match outcome->Read_0 {
            ReadOutcome::Ready(snapshot) => step matches FetchStep::Return(result) && result
                == match (snapshot.data, snapshot.error) {
                (Some(value), _) => Ok::<Arc<V>, FetchError<V>>(value),
                (None, Some(error)) => Err(FetchError::Fetch(error)),
                (None, None) => Err(FetchError::Miss),
            },
            ReadOutcome::NoFetcher => step matches FetchStep::Return(result) && result
                == Err::<Arc<V>, FetchError<V>>(FetchError::NoFetcher),
            ReadOutcome::Wait { target, rx } => step == (FetchStep::Wait { target, rx }),
        },
{
    match outcome {
        Outcome::Read(ReadOutcome::Ready(snapshot)) => FetchStep::Return(ready_result(snapshot)),
        Outcome::Read(ReadOutcome::Wait { target, rx }) => FetchStep::Wait { target, rx },
        _ => FetchStep::Return(Err(FetchError::NoFetcher)),
    }
}

/// What a snapshot means to a reader that waits for `target`.
pub open spec fn wait_spec<V: ?Sized>(snapshot: Snapshot<V, V>, target: u64) -> WaitStep<V> {
    if snapshot.data_seq >= target {
        WaitStep::Done(WaitOutcome::Data(snapshot.data->0))
    } else if snapshot.error_seq >= target {
        WaitStep::Done(WaitOutcome::Error(snapshot.error->0))
    } else {
        WaitStep::Park { poke: snapshot.inflight is None && !snapshot.is_mutating }
    }
}

/// What a waiting reader makes of a snapshot. Data that has reached the target
/// ends the wait, by whatever write; so does the failure of a fetch that has
/// reached it. Otherwise the reader waits on, and asks for a revalidation if
/// neither a fetch nor a mutation is under way.
pub fn wait_step<V: ?Sized>(snapshot: &Snapshot<V, V>, target: u64) -> (step: WaitStep<V>)
    requires
        snapshot.backed(target),
    ensures
        step == wait_spec(*snapshot, target),
{
    if snapshot.data_seq >= target {
        if let Some(value) = &snapshot.data {
            return WaitStep::Done(WaitOutcome::Data(value.clone()));
        }
    }
    if snapshot.error_seq >= target {
        if let Some(error) = &snapshot.error {
            return WaitStep::Done(WaitOutcome::Error(error.clone()));
        }
    }
    WaitStep::Park { poke: snapshot.inflight.is_none() && !snapshot.is_mutating }
}

/// One pass of a waiting reader: it looks at the latest snapshot of the channel,
/// which is then seen, and decides by it. The receiver stays on the channel that
/// it listens to. Returns `None` if a number has reached the target without its
/// value being there; a reader that waits for a number above zero never finds
/// that where each mutation ends once. Which snapshot is found depends on what
/// was published when.
pub fn wait_pass<V: ?Sized>(channel: &mut SnapshotReceiver<V>, target: u64) -> (step: Option<
    WaitStep<V>,
>)
    ensures
        final(channel).incarnation == old(channel).incarnation,
        exists|rx: &mut watch::Receiver<Snapshot<V, V>>, snapshot: Snapshot<V, V>|
            *rx == old(channel).rx && *final(rx) == final(channel).rx && #[trigger] taken(
                rx,
                snapshot,
            ) && (step == if snapshot.backed(target) {
                Some(wait_spec(snapshot, target))
            } else {
                None
            }) && (forall|sender: SnapshotSender<V>| #[trigger]
                old(channel).listens_to(sender) ==> sender.shows(snapshot)),
        forall|sender: SnapshotSender<V>| #[trigger]
            old(channel).listens_to(sender) ==> final(channel).listens_to(sender),
{
    let snapshot = channel.look();
    if snapshot.is_backed(target) {
        Some(wait_step(&snapshot, target))
    } else {
        None
    }
}

/// The revalidation request of a waiting reader.
pub fn poke<V: ?Sized, F: ?Sized, C>(key: &QueryKey) -> (ev: Event<V, F, C>)
    ensures
        ev matches Event::RevalidateRequested { key: k } && k@ == key@,
{
    Event::RevalidateRequested { key: key.clone() }
}

/// How a read call goes on after a wait: it returns, or reads again from the
/// start when the entry was removed.
pub fn after_wait<V: ?Sized>(outcome: WaitOutcome<V>) -> (result: Option<
    Result<Arc<V>, FetchError<V>>,
>)
    ensures
        result == (match outcome {
            WaitOutcome::Data(value) => Some(Ok::<Arc<V>, FetchError<V>>(value)),
            WaitOutcome::Error(error) => Some(Err(FetchError::Fetch(error))),
            WaitOutcome::Closed => None,
        }),
{
    match outcome {
        WaitOutcome::Data(value) => Some(Ok(value)),
        WaitOutcome::Error(error) => Some(Err(FetchError::Fetch(error))),
        WaitOutcome::Closed => None,
    }
}

// ---- mutating ----

/// Takes mutation options apart: how to settle the mutation, and the
/// optimistic value in its shared form.
pub fn plan_mutation<T>(opts: MutateOptions<T>) -> (plan: (MutateFlags, Option<Arc<T>>))
    ensures
        plan.0 == (MutateFlags {
            rollback_on_error: opts.rollback_on_error,
            populate: opts.populate,
            revalidate: opts.revalidate,
        }),
        plan.1 == (match opts.optimistic {
            Some(value) => Some(Arc::new(value)),
            None => None,
        }),
{
    let flags = MutateFlags::from(&opts);
    let optimistic = match opts.optimistic {
        Some(value) => Some(Arc::new(value)),
        None => None,
    };
    (flags, optimistic)
}

/// The result of a mutation in its shared form, for the machine and for the
/// caller.
pub fn share_result<T, E>(result: Result<Option<T>, E>) -> (shared: Result<
    Option<Arc<T>>,
    Arc<E>,
>)
    ensures
        shared == (match result {
            Ok(Some(value)) => Ok::<Option<Arc<T>>, Arc<E>>(Some(Arc::new(value))),
            Ok(None) => Ok(None),
            Err(error) => Err(Arc::new(error)),
        }),
{
    match result {
        Ok(Some(value)) => Ok(Some(Arc::new(value))),
        Ok(None) => Ok(None),
        Err(error) => Err(Arc::new(error)),
    }
}

/// Keeps the ticket of a mutation in progress, so that the mutation ends
/// exactly once: by its result, or by an abort if it is dropped before.
pub struct MutationGuard {
    token: Option<MutationToken>,
    flags: MutateFlags,
}

impl MutationGuard {
    /// The ticket that has not been handed back yet.
    pub closed spec fn token(self) -> Option<MutationToken> {
        self.token
    }

    /// How the mutation is to be settled.
    pub closed spec fn flags(self) -> MutateFlags {
        self.flags
    }

    /// Guards a mutation that has begun.
    pub fn new(token: MutationToken, flags: MutateFlags) -> (guard: Self)
        ensures
            guard.token() == Some(token),
            guard.flags() == flags,
    {
        MutationGuard { token: Some(token), flags }
    }

    /// The event that ends the mutation with its result. Nothing is left to
    /// abort.
    pub fn commit<V: ?Sized, F: ?Sized, C>(
        &mut self,
        result: Result<Option<Arc<V>>, Arc<V>>,
    ) -> (ev: Option<Event<V, F, C>>)
        ensures
            ev == (match old(self).token() {
                Some(token) => Some(
                    Event::<V, F, C>::MutateCommit { token, result, flags: old(self).flags() },
                ),
                None => None,
            }),
            final(self).token() is None,
            final(self).flags() == old(self).flags(),
    {
        match self.token.take() {
            Some(token) => Some(Event::MutateCommit { token, result, flags: self.flags }),
            None => None,
        }
    }

    /// The event that ends a mutation that was dropped before its result came,
    /// if it was.
    pub fn abort<V: ?Sized, F: ?Sized, C>(&mut self) -> (ev: Option<Event<V, F, C>>)
        ensures
            ev == (match old(self).token() {
                Some(token) => Some(
                    Event::<V, F, C>::MutateAbort { token, flags: old(self).flags() },
                ),
                None => None,
            }),
            final(self).token() is None,
            final(self).flags() == old(self).flags(),
    {
        match self.token.take() {
            Some(token) => Some(Event::MutateAbort { token, flags: self.flags }),
            None => None,
        }
    }
}

// ---- laws ----

/// A wait is over exactly when data or a failure has reached the target, and then it
/// hands out that very value, data before failure. Otherwise the reader waits on,
/// and asks for a revalidation exactly when neither a fetch nor a mutation is under
/// way.
pub proof fn law_a_wait_ends_when_its_target_is_reached<V: ?Sized>(
    snapshot: Snapshot<V, V>,
    target: u64,
)
    ensures
        ({
            let step = wait_spec(snapshot, target);
            &&& step is Done <==> snapshot.data_seq >= target || snapshot.error_seq >= target
            &&& snapshot.data_seq >= target ==> (snapshot.data matches Some(value) ==> step
                == WaitStep::Done(WaitOutcome::Data(value)))
            &&& snapshot.data_seq < target && snapshot.error_seq >= target ==> (
            snapshot.error matches Some(error) ==> step == WaitStep::Done(
                WaitOutcome::Error(error),
            ))
            &&& snapshot.data_seq < target && snapshot.error_seq < target ==> (
            step matches WaitStep::Park { poke } && (poke <==> snapshot.inflight is None
                && !snapshot.is_mutating))
        }),
{
}

/// A reader that gets a snapshot at once takes its data if there is any, whatever
/// error stands beside it; the error only if there is no data; and a miss if there is
/// neither.
pub proof fn law_data_wins_over_a_stored_error<T: ?Sized, E: ?Sized>(
    snapshot: Snapshot<T, E>,
    result: Result<Arc<T>, FetchError<E>>,
)
    requires
        call_ensures(ready_result::<T, E>, (snapshot,), result),
    ensures
        snapshot.data matches Some(value) ==> result == Ok::<Arc<T>, FetchError<E>>(value),
        snapshot.data is None ==> (snapshot.error matches Some(error) ==> result == Err::<
            Arc<T>,
            FetchError<E>,
        >(FetchError::Fetch(error))),
        snapshot.data is None && snapshot.error is None ==> result == Err::<
            Arc<T>,
            FetchError<E>,
        >(FetchError::Miss),
{
}

/// A read call returns what the read answers at once, and otherwise waits where and
/// for what the read tells it to.
pub proof fn law_a_read_call_follows_the_read<V: ?Sized>(
    outcome: Outcome<V>,
    step: FetchStep<V>,
)
    requires
        outcome is Read,
        call_ensures(after_read::<V>, (outcome,), step),
    ensures
        outcome->Read_0 is Wait <==> step is Wait,
        outcome->Read_0 matches ReadOutcome::Wait { target, rx } ==> step == (FetchStep::Wait {
            target,
            rx,
        }),
        outcome->Read_0 matches ReadOutcome::Ready(snapshot) ==> (snapshot.data matches Some(
            value,
        ) ==> step == FetchStep::Return(Ok::<Arc<V>, FetchError<V>>(value))),
        outcome->Read_0 is NoFetcher ==> step == FetchStep::<V>::Return(Err(FetchError::NoFetcher)),
{
}

/// A read call ends with what the wait ended with, and starts over exactly when the
/// entry was removed.
pub proof fn law_a_removed_entry_is_read_again<V: ?Sized>(
    outcome: WaitOutcome<V>,
    result: Option<Result<Arc<V>, FetchError<V>>>,
)
    requires
        call_ensures(after_wait::<V>, (outcome,), result),
    ensures
        result is None <==> outcome is Closed,
        outcome matches WaitOutcome::Data(value) ==> result == Some(
            Ok::<Arc<V>, FetchError<V>>(value),
        ),
        outcome matches WaitOutcome::Error(error) ==> result == Some(
            Err::<Arc<V>, FetchError<V>>(FetchError::Fetch(error)),
        ),
{
}

/// The result of a fetch comes back to the entry that asked for it: carried out and
/// run, the effect yields a commit of the result under the key, the incarnation and
/// the number that it was asked for with.
pub proof fn law_a_result_comes_back_to_who_asked<V: ?Sized, F: ?Sized, C>(
    effect: Effect<V, F>,
    task: Option<Task<F>>,
    result: Result<Arc<V>, Arc<V>>,
    ev: Event<V, F, C>,
)
    requires
        effect is StartFetch,
        call_ensures(perform::<V, F>, (effect,), task),
        task matches Some(Task::Fetch(fetch)) ==> call_ensures(
            FetchTask::<F>::finish::<V, C>,
            (fetch, result),
            ev,
        ),
    ensures
        task matches Some(Task::Fetch(fetch)) && fetch.fetcher == effect->StartFetch_fetcher
            && fetch.key == effect->StartFetch_key,
        result matches Ok(value) ==> ev == (Event::<V, F, C>::CommitOk {
            key: effect->StartFetch_key,
            incarnation: effect->StartFetch_incarnation,
            seq: effect->StartFetch_seq,
            value,
        }),
        result matches Err(error) ==> ev == (Event::<V, F, C>::CommitErr {
            key: effect->StartFetch_key,
            incarnation: effect->StartFetch_incarnation,
            seq: effect->StartFetch_seq,
            error,
        }),
{
}

/// A timer fires for the entry that asked for it: carried out, the effect yields a
/// timer for its point in time, and that one an event of its key, kind and
/// generation.
pub proof fn law_a_timer_fires_for_who_asked<V: ?Sized, F: ?Sized, C>(
    effect: Effect<V, F>,
    task: Option<Task<F>>,
    ev: Event<V, F, C>,
)
    requires
        effect is ScheduleTimer,
        call_ensures(perform::<V, F>, (effect,), task),
        task matches Some(Task::Timer(timer)) ==> call_ensures(
            TimerTask::fire::<V, F, C>,
            (timer,),
            ev,
        ),
    ensures
        task matches Some(Task::Timer(timer)) && timer.at == effect->ScheduleTimer_at,
        ev == (Event::<V, F, C>::TimerFired {
            key: effect->ScheduleTimer_key,
            kind: effect->ScheduleTimer_kind,
            generation: effect->ScheduleTimer_generation,
        }),
{
}

/// Mutation options are carried through unchanged: the flags one by one, and the
/// optimistic value if there is one.
pub proof fn law_mutation_options_are_carried_through<T>(
    opts: MutateOptions<T>,
    plan: (MutateFlags, Option<Arc<T>>),
)
    requires
        call_ensures(plan_mutation::<T>, (opts,), plan),
    ensures
        plan.0.rollback_on_error == opts.rollback_on_error,
        plan.0.populate == opts.populate,
        plan.0.revalidate == opts.revalidate,
        plan.1 is Some <==> opts.optimistic is Some,
        opts.optimistic matches Some(value) ==> *plan.1->0 == value,
{
}

/// A mutation's caller and the machine get the same result: success stays success,
/// with its value if it has one, and failure stays failure.
pub proof fn law_a_mutation_result_is_shared_as_it_is<T, E>(
    result: Result<Option<T>, E>,
    shared: Result<Option<Arc<T>>, Arc<E>>,
)
    requires
        call_ensures(share_result::<T, E>, (result,), shared),
    ensures
        shared is Ok <==> result is Ok,
        result matches Ok(value) ==> (shared->Ok_0 is Some <==> value is Some) && (
        value matches Some(v) ==> *shared->Ok_0->0 == v),
        result matches Err(error) ==> *shared->Err_0 == error,
{
}

/// Every pass of a read call asks for the same: its key, its policy, its fetcher, its
/// comparator and its options.
pub proof fn law_every_pass_reads_the_same<V: ?Sized, F: ?Sized, C>(
    call: FetchCall<F, C>,
    ev: Event<V, F, C>,
)
    requires
        call_ensures(FetchCall::<F, C>::read::<V>, (&call,), ev),
    ensures
        ev is Read,
        ev->Read_key@ == call.key@,
        ev->Read_policy == call.policy,
        ev->Read_fetcher == Some(call.fetcher),
        ev->Read_compare == call.compare,
        ev->Read_opts == call.opts,
{
}

} // verus!
