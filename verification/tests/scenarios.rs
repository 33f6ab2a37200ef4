//! Whole stories, on a host that runs fetches and timers by hand.

use std::any::Any;
use std::cell::Cell;
use std::rc::Rc;
use std::sync::Arc;
use swr::channel::SnapshotReceiver;
use swr::client::{
    after_read, after_wait, perform, plan_mutation, poke, share_result, wait_pass, FetchCall,
    FetchStep, FetchTask, MutationGuard, SwrClientBuilder, Task, TimerTask, WaitOutcome, WaitStep,
};
use swr::error::FetchError;
use swr::handle::Subscription;
use swr::key::{IntoKeyPrefix, IntoQueryKey, QueryKey};
use swr::machine::event::{Effect, Event, Outcome};
use swr::machine::inner::Inner;
use swr::options::{MutateOptions, QueryOptions, ReadPolicy};
use swr::retry::{Retry, RetryPolicy, RetryStep};
use swr::snapshot::Snapshot;
use swr::time::{Duration, Instant};

type Value = dyn Any + Send + Sync;
type Reply = Result<Arc<Value>, Arc<Value>>;
type Fetch = dyn Fn() -> Reply;
type Compare = Box<dyn Fn(&Arc<Value>, &Arc<Value>) -> bool>;
type Ev = Event<Value, Fetch, Compare>;

/// A host with a manual clock: fetches run when told to, timers fire when the
/// clock passes them.
struct Host {
    machine: Inner<Value, Fetch, Compare>,
    defaults: QueryOptions,
    now: Instant,
    fetches: Vec<FetchTask<Fetch>>,
    timers: Vec<TimerTask>,
}

impl Host {
    fn new() -> Self {
        Self::with(QueryOptions::default())
    }

    fn with(defaults: QueryOptions) -> Self {
        Host {
            machine: SwrClientBuilder::default().default_options(defaults).build(),
            defaults,
            now: Instant { nanos: 0 },
            fetches: Vec::new(),
            timers: Vec::new(),
        }
    }

    fn dispatch(&mut self, ev: Ev) -> Outcome<Value> {
        let out = self.machine.handle(ev, self.now);
        for effect in out.effects {
            match perform(effect) {
                Some(Task::Fetch(task)) => self.fetches.push(task),
                Some(Task::Timer(task)) => self.timers.push(task),
                None => {}
            }
        }
        out.outcome
    }

    /// Runs the oldest pending fetch, if there is one.
    fn run_fetch(&mut self) -> bool {
        if self.fetches.is_empty() {
            return false;
        }
        let task = self.fetches.remove(0);
        let reply = (task.fetcher)();
        self.dispatch(task.finish(reply));
        true
    }

    fn run_fetches(&mut self) {
        while self.run_fetch() {}
    }

    /// Moves the clock, firing the timers on the way in order.
    fn sleep(&mut self, span: Duration) {
        let end = self.now.checked_add(span).expect("within the clock");
        loop {
            let mut next: Option<usize> = None;
            for (i, timer) in self.timers.iter().enumerate() {
                if timer.at.nanos <= end.nanos
                    && next.map_or(true, |n| timer.at.nanos < self.timers[n].at.nanos)
                {
                    next = Some(i);
                }
            }
            let Some(i) = next else { break };
            let timer = self.timers.remove(i);
            if timer.at.nanos > self.now.nanos {
                self.now = timer.at;
            }
            self.dispatch(timer.fire());
            self.run_fetches();
        }
        self.now = end;
    }

    fn call<K: IntoQueryKey<T, E>, T: 'static, E: 'static>(
        &self,
        key: K,
        fetcher: Arc<Fetch>,
        policy: ReadPolicy,
        compare: Option<Arc<Compare>>,
    ) -> FetchCall<Fetch, Compare> {
        FetchCall { key: key.into_query_key(), policy, fetcher, compare, opts: self.defaults }
    }

    /// Reads until there is a result, running fetches whenever it has to wait.
    fn fetch(&mut self, call: &FetchCall<Fetch, Compare>) -> Reply2 {
        loop {
            match after_read(self.dispatch(call.read())) {
                FetchStep::Return(result) => return result,
                FetchStep::Wait { target, rx } => {
                    let outcome = self.wait(rx, target, &call.key);
                    if let Some(result) = after_wait(outcome) {
                        return result;
                    }
                }
            }
        }
    }

    fn wait(
        &mut self,
        mut rx: SnapshotReceiver<Value>,
        target: u64,
        key: &QueryKey,
    ) -> WaitOutcome<Value> {
        loop {
            match wait_pass(&mut rx, target).expect("what is announced is there") {
                WaitStep::Done(outcome) => return outcome,
                WaitStep::Park { poke: again } => {
                    if again {
                        self.dispatch(poke(key));
                    }
                }
            }
            loop {
                match rx.rx.has_changed() {
                    Ok(true) => break,
                    Ok(false) => assert!(self.run_fetch(), "nothing left to wait for"),
                    Err(_) => return WaitOutcome::Closed,
                }
            }
        }
    }

    fn get(&mut self, key: &'static str, fetcher: &Arc<Fetch>, policy: ReadPolicy) -> Reply2 {
        let call = self.call::<_, u32, String>(key, fetcher.clone(), policy, None);
        self.fetch(&call)
    }

    fn get_eq(&mut self, key: &'static str, fetcher: &Arc<Fetch>, policy: ReadPolicy) -> Reply2 {
        let call = self.call::<_, u32, String>(key, fetcher.clone(), policy, Some(equal_u32()));
        self.fetch(&call)
    }

    fn subscribe(
        &mut self,
        key: &'static str,
        fetcher: Option<Arc<Fetch>>,
        compare: Option<Arc<Compare>>,
        opts: QueryOptions,
    ) -> (Subscription, SnapshotReceiver<Value>) {
        let key = QueryKey::new::<u32, String>(key);
        let outcome = self.dispatch(Event::Subscribe { key: key.clone(), fetcher, compare, opts });
        let Outcome::Subscribed { sub_id, rx } = outcome else { panic!("Subscribed expected") };
        (Subscription::new(key, sub_id), rx)
    }

    fn set(&mut self, key: QueryKey, value: Arc<Value>) {
        self.dispatch(Event::MutateSet { key, value });
    }

    fn begin(&mut self, key: &'static str, opts: MutateOptions<u32>) -> MutationGuard {
        let (flags, optimistic) = plan_mutation(opts);
        let optimistic = optimistic.map(|v| v as Arc<Value>);
        let key = QueryKey::new::<u32, String>(key);
        let outcome = self.dispatch(Event::MutateBegin { key, optimistic });
        let Outcome::Mutation(token) = outcome else { panic!("Mutation expected") };
        MutationGuard::new(token, flags)
    }

    fn finish(
        &mut self,
        mut guard: MutationGuard,
        result: Result<Option<u32>, String>,
    ) -> Result<Option<Arc<u32>>, Arc<String>> {
        let ret = share_result(result);
        let event_result = match &ret {
            Ok(Some(value)) => Ok(Some(value.clone() as Arc<Value>)),
            Ok(None) => Ok(None),
            Err(error) => Err(error.clone() as Arc<Value>),
        };
        let ev: Ev = guard.commit(event_result).expect("ended once");
        self.dispatch(ev);
        let again: Option<Ev> = guard.abort();
        assert!(again.is_none(), "nothing left to abort");
        ret
    }
}

type Reply2 = Result<Arc<Value>, FetchError<Value>>;

fn number(reply: &Reply2) -> u32 {
    match reply {
        Ok(value) => *value.downcast_ref::<u32>().expect("a number"),
        Err(_) => panic!("data expected"),
    }
}

fn shown(rx: &SnapshotReceiver<Value>) -> Option<u32> {
    rx.state().data.map(|v| *v.downcast_ref::<u32>().expect("a number"))
}

fn constant(n: u32) -> Arc<Fetch> {
    Arc::new(move || Ok(Arc::new(n) as Arc<Value>))
}

/// Returns 1, 2, 3, and so on.
fn counting(calls: &Rc<Cell<u32>>) -> Arc<Fetch> {
    let calls = calls.clone();
    Arc::new(move || {
        calls.set(calls.get() + 1);
        Ok(Arc::new(calls.get()) as Arc<Value>)
    })
}

fn equal_u32() -> Arc<Compare> {
    Arc::new(Box::new(|a: &Arc<Value>, b: &Arc<Value>| {
        a.downcast_ref::<u32>() == b.downcast_ref::<u32>()
    }))
}

fn secs(n: u64) -> Duration {
    Duration::from_secs(n)
}

/// A reader survives a mutation that discards its flight: it pokes a fresh one
/// and returns.
#[test]
fn it1_wait_loop_survives_mutation_interrupt() {
    let mut host = Host::new();
    let calls = Rc::new(Cell::new(0));
    let call = host.call::<_, u32, String>("k", counting(&calls), ReadPolicy::EnsureFresh, None);
    let FetchStep::Wait { target, rx } = after_read(host.dispatch(call.read())) else {
        panic!("first load waits")
    };
    let lost = host.fetches.remove(0);
    let late = (lost.fetcher)(); // runs, and takes its time to come back

    let guard = host.begin(
        "k",
        MutateOptions {
            optimistic: None,
            rollback_on_error: true,
            populate: false,
            revalidate: false,
        },
    );
    assert!(host.finish(guard, Ok(None)).is_ok());

    // The late result of the discarded flight is dropped.
    host.dispatch(lost.finish(late));

    let outcome = host.wait(rx, target, &call.key);
    let result = after_wait(outcome).expect("still open");
    assert_eq!(number(&result), 2, "waiter converges on the poked flight");
}

/// An entry removed mid-wait closes the channel; the reader reads again against
/// the new entry with a fresh target.
#[test]
fn it2_closed_channel_self_heals() {
    let mut host = Host::new();
    let calls = Rc::new(Cell::new(0));
    let fetcher: Arc<Fetch> = {
        let calls = calls.clone();
        Arc::new(move || {
            calls.set(calls.get() + 1);
            Ok(Arc::new(42u32) as Arc<Value>)
        })
    };
    let call = host.call::<_, u32, String>("k", fetcher, ReadPolicy::EnsureFresh, None);
    let FetchStep::Wait { target, rx } = after_read(host.dispatch(call.read())) else {
        panic!("first load waits")
    };
    let lost = host.fetches.remove(0);
    drop((lost.fetcher)()); // the first flight starts and never completes
    host.dispatch(Event::Invalidate { prefix: "k".into_prefix() });
    host.sleep(secs(301)); // the idle entry is collected while the reader is parked
    assert!(host.machine.entry(&call.key).is_none());

    let outcome = host.wait(rx, target, &call.key);
    assert!(matches!(outcome, WaitOutcome::Closed));
    assert!(after_wait(outcome).is_none(), "read again");
    assert_eq!(number(&host.fetch(&call)), 42);
    assert_eq!(calls.get(), 2, "one flight per entry incarnation");
    assert_eq!(host.machine.entry(&call.key).expect("rebuilt").incarnation, 1);
}

/// A stale read returns the old value at once, the background refresh lands,
/// and a subscriber sees the new value.
#[test]
fn it3_swr_end_to_end() {
    let mut host = Host::new();
    let calls = Rc::new(Cell::new(0));
    let fetcher = counting(&calls);
    assert_eq!(number(&host.get("k", &fetcher, ReadPolicy::StaleWhileRevalidate)), 1);

    host.sleep(secs(3));
    let stale = host.get("k", &fetcher, ReadPolicy::StaleWhileRevalidate);
    assert_eq!(number(&stale), 1, "old value served while revalidating");

    let (_sub, rx) = host.subscribe("k", Some(fetcher), None, QueryOptions::default());
    host.run_fetches();
    assert_eq!(shown(&rx), Some(2));
    let state = rx.state();
    assert!(!state.is_validating, "refresh settled");
    assert!(state.error.is_none());
}

/// A fetch is detached from its caller: it commits to the cache even if the
/// caller gave up.
#[test]
fn it4_detached_fetch_commits_after_caller_timeout() {
    let mut host = Host::new();
    let call = host.call::<_, u32, String>("k", constant(7), ReadPolicy::EnsureFresh, None);
    let step = after_read(host.dispatch(call.read()));
    drop(step); // the caller gives up

    host.run_fetches();
    assert_eq!(number(&host.get("k", &constant(7), ReadPolicy::CacheOnly)), 7);
}

/// Dropping the last handle starts the removal countdown; reads keep the entry
/// alive; expiry removes it.
#[test]
fn gc_collects_after_unsubscribe() {
    let opts = QueryOptions { gc_time: secs(5), ..QueryOptions::default() };
    let mut host = Host::with(opts);
    let calls = Rc::new(Cell::new(0));
    let fetcher = counting(&calls);
    let (sub, rx) = host.subscribe("k", Some(fetcher.clone()), None, opts);
    host.run_fetches();
    assert_eq!(shown(&rx), Some(1));
    host.dispatch(sub.unsubscribe());

    host.sleep(secs(1));
    let cached = host.get("k", &fetcher, ReadPolicy::CacheOnly);
    assert_eq!(number(&cached), 1, "still cached before gc_time");

    host.sleep(secs(6));
    let miss = host.get("k", &fetcher, ReadPolicy::CacheOnly);
    assert!(matches!(miss, Err(FetchError::Miss)), "entry collected after gc_time");
}

/// Refresh ticks at the interval and stops once the last subscriber leaves.
#[test]
fn refresh_ticks_while_subscribed() {
    let mut host = Host::new();
    let calls = Rc::new(Cell::new(0));
    let opts = QueryOptions { refresh_interval: Some(secs(5)), ..QueryOptions::default() };
    let (sub, rx) = host.subscribe("k", Some(counting(&calls)), None, opts);
    host.run_fetches();
    assert_eq!(shown(&rx), Some(1));

    host.sleep(secs(12));
    assert_eq!(calls.get(), 3, "initial load plus refreshes at t+5 and t+10");

    host.dispatch(sub.unsubscribe());
    host.sleep(secs(20));
    assert_eq!(calls.get(), 3, "refresh stops with no subscribers");
}

/// The optimistic value shows while the mutation runs and rolls back on error.
#[test]
fn mutate_optimistic_rollback_end_to_end() {
    let mut host = Host::new();
    host.set(QueryKey::new::<u32, String>("k"), Arc::new(1u32));
    let guard = host.begin(
        "k",
        MutateOptions {
            optimistic: Some(5),
            rollback_on_error: true,
            populate: true,
            revalidate: false,
        },
    );
    let optimistic = host.get("k", &constant(99), ReadPolicy::CacheOnly);
    assert_eq!(number(&optimistic), 5, "optimistic value visible during the mutation");

    let result = host.finish(guard, Err("boom".to_string()));
    assert_eq!(result.expect_err("mutation failed").as_str(), "boom");

    let rolled_back = host.get("k", &constant(99), ReadPolicy::CacheOnly);
    assert_eq!(number(&rolled_back), 1);
}

/// A populating mutation writes its result; the caller gets the same value.
#[test]
fn mutate_populate_writes_result() {
    let mut host = Host::new();
    let guard = host.begin("k", MutateOptions { revalidate: false, ..MutateOptions::default() });
    let result = host
        .finish(guard, Ok(Some(10)))
        .expect("mutation succeeds")
        .expect("mutation produced a value");
    assert_eq!(*result, 10);

    let cached = host.get("k", &constant(99), ReadPolicy::CacheOnly).ok().expect("populated");
    let cached = cached.downcast::<u32>().ok().expect("a number");
    assert_eq!(*cached, 10);
    assert!(Arc::ptr_eq(&cached, &result), "one shared value");
}

/// A dropped mutation is aborted instead of wedging the entry.
#[test]
fn cancelled_mutation_releases_the_entry() {
    let mut host = Host::new();
    let calls = Rc::new(Cell::new(0));
    host.set(QueryKey::new::<u32, String>("k"), Arc::new(1u32));
    let mut guard = host.begin(
        "k",
        MutateOptions {
            optimistic: Some(5),
            rollback_on_error: true,
            populate: true,
            revalidate: false,
        },
    );
    let ev: Ev = guard.abort().expect("not ended yet");
    host.dispatch(ev);
    let again: Option<Ev> = guard.abort();
    assert!(again.is_none(), "aborted once");

    let value = host.get("k", &counting(&calls), ReadPolicy::EnsureFresh);
    assert_eq!(number(&value), 1);
    assert_eq!(calls.get(), 0, "the rolled-back value is still fresh");
}

/// The same segments under different value types are distinct entries.
#[test]
fn same_segments_different_types_are_distinct_entries() {
    let mut host = Host::new();
    host.set(QueryKey::new::<u32, String>("k"), Arc::new(7u32));
    host.set(QueryKey::new::<String, String>("k"), Arc::new("seven".to_string()));

    let number_call =
        host.call::<_, u32, String>("k", constant(0), ReadPolicy::CacheOnly, None);
    assert_eq!(number(&host.fetch(&number_call)), 7);
    let text_call =
        host.call::<_, String, String>("k", constant(0), ReadPolicy::CacheOnly, None);
    let text = host.fetch(&text_call).ok().expect("string entry");
    assert_eq!(text.downcast_ref::<String>().expect("text"), "seven");
}

/// A cache-only read of an unknown key misses without creating an entry.
#[test]
fn cache_only_miss() {
    let mut host = Host::new();
    let miss = host.get("unknown", &constant(0), ReadPolicy::CacheOnly);
    assert!(matches!(miss, Err(FetchError::Miss)));
    assert!(host.machine.entry(&QueryKey::new::<u32, String>("unknown")).is_none());
}

/// Stale data is refetched before it is returned to a reader that wants it
/// fresh.
#[test]
fn ensure_fresh_refetches_stale_data() {
    let mut host = Host::new();
    let calls = Rc::new(Cell::new(0));
    let fetcher = counting(&calls);
    assert_eq!(number(&host.get("k", &fetcher, ReadPolicy::EnsureFresh)), 1);

    host.sleep(secs(3));
    let fresh = host.get("k", &fetcher, ReadPolicy::EnsureFresh);
    assert_eq!(number(&fresh), 2, "never returns stale data");
}

/// A failed first load surfaces its error.
#[test]
fn failed_first_load_returns_the_error() {
    let mut host = Host::new();
    let failing: Arc<Fetch> = Arc::new(|| Err(Arc::new("boom".to_string()) as Arc<Value>));
    match host.get("k", &failing, ReadPolicy::StaleWhileRevalidate) {
        Err(FetchError::Fetch(error)) => {
            assert_eq!(error.downcast_ref::<String>().expect("text"), "boom")
        }
        _ => panic!("error expected"),
    }
    // The stored error is what a cache-only read finds.
    let cached = host.get("k", &failing, ReadPolicy::CacheOnly);
    assert!(matches!(cached, Err(FetchError::Fetch(_))));
}

/// An equal value still wakes readers; the stored one is kept.
#[test]
fn equal_commit_still_wakes_ensure_fresh_waiters() {
    let mut host = Host::new();
    let fetcher = constant(42);
    let first = host.get_eq("k", &fetcher, ReadPolicy::EnsureFresh).ok().expect("first load");
    host.sleep(secs(3));
    let second = host.get_eq("k", &fetcher, ReadPolicy::EnsureFresh).ok().expect("refreshed");
    assert!(Arc::ptr_eq(&first, &second), "the stored value was kept across the refresh");
}

/// A subscriber with a comparator keeps seeing the stored value.
#[test]
fn subscribe_eq_stabilizes_snapshot_arcs() {
    let mut host = Host::new();
    let opts = QueryOptions { stale_time: Duration::zero(), ..QueryOptions::default() };
    let (sub, rx) = host.subscribe("k", Some(constant(7)), Some(equal_u32()), opts);
    host.run_fetches();
    let first = rx.rx.borrow().data.clone().expect("loaded");

    host.dispatch(sub.revalidate());
    assert!(rx.rx.borrow().is_validating());
    host.run_fetches();
    let second = rx.rx.borrow().data.clone().expect("still loaded");
    assert!(Arc::ptr_eq(&first, &second), "equal refresh kept the value");
    assert!(!rx.rx.borrow().is_validating());
}

/// Without a comparator an equal value replaces the stored one.
#[test]
fn without_a_comparator_the_value_is_replaced() {
    let mut host = Host::new();
    let fetcher = constant(42);
    let first = host.get("k", &fetcher, ReadPolicy::EnsureFresh).ok().expect("first load");
    host.sleep(secs(3));
    let second = host.get("k", &fetcher, ReadPolicy::EnsureFresh).ok().expect("refreshed");
    assert!(!Arc::ptr_eq(&first, &second));
}

/// An observer without a fetcher watches local writes.
#[test]
fn observe_watches_local_writes() {
    let mut host = Host::new();
    let key = QueryKey::new::<u32, String>("k");
    host.set(key.clone(), Arc::new(1u32));
    let (sub, rx) = host.subscribe("k", None, None, QueryOptions::default());
    assert_eq!(shown(&rx), Some(1));

    // Revalidation is inert without a fetcher.
    host.dispatch(sub.revalidate());
    assert!(host.fetches.is_empty());

    host.set(key, Arc::new(2u32));
    assert_eq!(shown(&rx), Some(2));
    assert!(!rx.rx.borrow().is_validating());
}

/// An observer alone has nothing to fetch with: a read without a fetcher says
/// so.
#[test]
fn reads_without_any_fetcher_say_so() {
    let mut host = Host::new();
    let (_sub, _rx) = host.subscribe("k", None, None, QueryOptions::default());
    let outcome = host.dispatch(Event::Read {
        key: QueryKey::new::<u32, String>("k"),
        policy: ReadPolicy::EnsureFresh,
        fetcher: None,
        compare: None,
        opts: QueryOptions::default(),
    });
    assert!(matches!(
        after_read(outcome),
        FetchStep::Return(Err(FetchError::NoFetcher))
    ));
}

/// Runs a retrying fetch, adding up its delays.
fn run_retry<P: Fn(&String) -> bool>(
    retry: &Retry<str, Box<dyn Fn() -> Result<u32, String>>, P>,
) -> (Result<u32, String>, u128) {
    let mut attempt: u32 = 0;
    let mut waited: u128 = 0;
    loop {
        let result = (retry.inner())();
        match retry.after_attempt(attempt, result) {
            RetryStep::Return(result) => return (result, waited),
            RetryStep::Backoff { attempt: next } => {
                attempt = next;
                let now = Instant { nanos: waited };
                waited = retry.policy().deadline(attempt, now).expect("representable").nanos;
            }
        }
    }
}

type Anything = fn(&String) -> bool;

/// Retries recover from transient errors with exponential backoff.
#[test]
fn retry_recovers_from_transient_errors() {
    let calls = Rc::new(Cell::new(0u32));
    let counter = calls.clone();
    let flaky: Box<dyn Fn() -> Result<u32, String>> = Box::new(move || {
        counter.set(counter.get() + 1);
        if counter.get() <= 2 {
            Err("transient".to_string())
        } else {
            Ok(7)
        }
    });
    let retry: Retry<str, _, Anything> = Retry::new(
        Arc::from("clock"),
        flaky,
        RetryPolicy { interval: secs(1), max_retries: Some(3) },
    );
    let (result, waited) = run_retry(&retry);
    assert_eq!(result, Ok(7));
    assert_eq!(calls.get(), 3, "initial try plus two retries");
    assert_eq!(waited, secs(6).nanos, "two seconds, then four");
}

/// Exhausted retries surface the last error.
#[test]
fn retry_exhausts_and_surfaces_the_error() {
    let calls = Rc::new(Cell::new(0u32));
    let counter = calls.clone();
    let failing: Box<dyn Fn() -> Result<u32, String>> = Box::new(move || {
        counter.set(counter.get() + 1);
        Err("boom".to_string())
    });
    let retry: Retry<str, _, Anything> = Retry::new(
        Arc::from("clock"),
        failing,
        RetryPolicy { interval: Duration::from_millis(10), max_retries: Some(2) },
    );
    let (result, _) = run_retry(&retry);
    assert_eq!(result, Err("boom".to_string()));
    assert_eq!(calls.get(), 3, "initial try plus two retries");
}

/// Errors that the predicate turns down are not retried.
#[test]
fn retry_if_skips_non_retryable_errors() {
    let calls = Rc::new(Cell::new(0u32));
    let counter = calls.clone();
    let failing: Box<dyn Fn() -> Result<u32, String>> = Box::new(move || {
        counter.set(counter.get() + 1);
        Err("fatal".to_string())
    });
    let retry = Retry::new(Arc::<str>::from("clock"), failing, RetryPolicy::default())
        .retry_if((|error: &String| error != "fatal") as Anything);
    let (result, waited) = run_retry(&retry);
    assert!(result.is_err());
    assert_eq!(calls.get(), 1, "no retry for fatal errors");
    assert_eq!(waited, 0);
    assert_eq!(&**retry.runtime(), "clock");
}

/// The snapshots of an entry go to its own readers, from the first to the last,
/// and to nobody else.
#[test]
fn notifications_reach_the_listeners() {
    let mut host = Host::new();
    let (_one, first) = host.subscribe("k", None, None, QueryOptions::default());
    let (_two, other) = host.subscribe("j", None, None, QueryOptions::default());
    assert_eq!(shown(&first), None, "a new channel shows nothing");
    let k = QueryKey::new::<u32, String>("k");
    host.set(k.clone(), Arc::new(5u32));
    let (_three, second) = host.subscribe("k", None, None, QueryOptions::default());
    assert_eq!(shown(&first), Some(5));
    assert_eq!(shown(&second), Some(5), "a late subscriber finds the latest");
    host.set(k.clone(), Arc::new(6u32));
    assert_eq!(shown(&first), Some(6));
    assert_eq!(shown(&second), Some(6));
    assert_eq!(shown(&other), None);
}

/// A reader goes on listening to its channel after each look.
#[test]
fn a_reader_looks_again_and_again() {
    let mut host = Host::new();
    let (_sub, mut rx) = host.subscribe("k", None, None, QueryOptions::default());
    let k = QueryKey::new::<u32, String>("k");
    assert!(matches!(wait_pass(&mut rx, 1), Some(WaitStep::Park { poke: true })));
    host.set(k.clone(), Arc::new(5u32));
    assert!(matches!(rx.rx.has_changed(), Ok(true)));
    assert!(matches!(wait_pass(&mut rx, 2), Some(WaitStep::Park { poke: true })));
    assert!(matches!(rx.rx.has_changed(), Ok(false)), "seen");
    host.set(k.clone(), Arc::new(6u32));
    let Some(WaitStep::Done(WaitOutcome::Data(value))) = wait_pass(&mut rx, 2) else {
        panic!("the target is reached")
    };
    assert_eq!(value.downcast_ref::<u32>(), Some(&6));
}

/// Notifications carried out late or twice leave the newer snapshot in place,
/// and wake nobody.
#[test]
fn carrying_out_keeps_the_newer_snapshot() {
    let mut host = Host::new();
    let (_sub, mut rx) = host.subscribe("k", None, None, QueryOptions::default());
    let k = QueryKey::new::<u32, String>("k");
    let mut notes: Vec<Effect<Value, Fetch>> = Vec::new();
    for n in [1u32, 2] {
        let ev = Event::MutateSet { key: k.clone(), value: Arc::new(n) as Arc<Value> };
        for effect in host.machine.handle(ev, host.now).effects {
            if let Effect::Notify { .. } = effect {
                notes.push(effect);
            }
        }
    }
    let newer = notes.pop().expect("two notes");
    let older = notes.pop().expect("two notes");
    let again: Effect<Value, Fetch> = match &newer {
        Effect::Notify { tx, snapshot } => {
            Effect::Notify { tx: tx.share(), snapshot: snapshot.clone() }
        }
        _ => unreachable!(),
    };
    assert_eq!(shown(&rx), None, "nothing is published before it is carried out");
    assert!(perform(newer).is_none());
    assert_eq!(shown(&rx), Some(2));
    assert!(wait_pass(&mut rx, 9).is_some());
    assert!(perform(older).is_none());
    assert!(perform(again).is_none());
    assert_eq!(shown(&rx), Some(2));
    assert!(matches!(rx.rx.has_changed(), Ok(false)));
}

/// Only the value behind a number that has reached the target matters to a
/// reader.
#[test]
fn a_pass_asks_only_for_what_it_waits_for() {
    let mut host = Host::new();
    let (_sub, mut rx) = host.subscribe("k", None, None, QueryOptions::default());
    let k = QueryKey::new::<u32, String>("k");
    let ev = Event::MutateSet { key: k, value: Arc::new(1u32) as Arc<Value> };
    for effect in host.machine.handle(ev, host.now).effects {
        if let Effect::Notify { tx, snapshot } = effect {
            let hollow = Snapshot { data: None, data_seq: 5, error_seq: 7, ..snapshot };
            let note: Effect<Value, Fetch> = Effect::Notify { tx, snapshot: hollow };
            assert!(perform(note).is_none());
        }
    }
    assert!(matches!(wait_pass(&mut rx, 8), Some(WaitStep::Park { poke: true })));
    assert!(wait_pass(&mut rx, 7).is_none(), "no error behind its number");
    assert!(wait_pass(&mut rx, 5).is_none(), "no data behind its number");
}
