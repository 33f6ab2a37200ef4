//! What the machine promises, on concrete values.

use std::sync::Arc;
use swr::key::{IntoKeyPrefix, QueryKey};
use swr::machine::entry::EntryCore;
use swr::machine::event::{Effect, Event, MutationToken, Outcome, ReadOutcome, TimerKind};
use swr::machine::inner::{Inner, MAX_EVENTS};
use swr::options::{MutateFlags, QueryOptions, ReadPolicy, SwrEvent};
use swr::snapshot::Snapshot;
use swr::time::{Duration, Instant};

type Compare = fn(&Arc<u32>, &Arc<u32>) -> bool;
type Fx = Vec<Effect<u32, str>>;

const ROLLBACK: MutateFlags =
    MutateFlags { rollback_on_error: true, populate: true, revalidate: false };

struct Machine {
    inner: Inner<u32, str, Compare>,
    now: Instant,
}

impl Machine {
    fn new() -> Self {
        Machine {
            inner: Inner::new(QueryOptions::default()),
            now: Instant { nanos: 0 },
        }
    }

    fn send(&mut self, ev: Event<u32, str, Compare>) -> (Outcome<u32>, Fx) {
        let out = self.inner.handle(ev, self.now);
        (out.outcome, out.effects)
    }

    fn sleep(&mut self, secs: u64) {
        self.now = self.now.checked_add(Duration::from_secs(secs)).expect("within the clock");
    }

    fn at(&self, name: &str) -> &EntryCore<u32, str, Compare> {
        self.inner.entry(&key(name)).expect("entry exists")
    }

    fn read(&mut self, name: &str, policy: ReadPolicy) -> (ReadOutcome<u32>, Fx) {
        let (outcome, fx) = self.send(Event::Read {
            key: key(name),
            policy,
            fetcher: Some(Arc::from("fetcher")),
            compare: None,
            opts: QueryOptions::default(),
        });
        match outcome {
            Outcome::Read(read) => (read, fx),
            _ => panic!("Read expected"),
        }
    }

    fn subscribe(&mut self, name: &str, opts: QueryOptions) -> (u64, Fx) {
        let (outcome, fx) = self.send(Event::Subscribe {
            key: key(name),
            fetcher: Some(Arc::from("fetcher")),
            compare: None,
            opts,
        });
        match outcome {
            Outcome::Subscribed { sub_id, .. } => (sub_id, fx),
            _ => panic!("Subscribed expected"),
        }
    }

    fn land(&mut self, name: &str, value: u32) -> Fx {
        let e = self.at(name);
        let ev = Event::CommitOk {
            key: key(name),
            incarnation: e.incarnation,
            seq: e.inflight.expect("in flight"),
            value: Arc::new(value),
        };
        self.send(ev).1
    }

    fn set(&mut self, name: &str, value: u32) -> Fx {
        self.send(Event::MutateSet { key: key(name), value: Arc::new(value) }).1
    }

    fn begin(&mut self, name: &str, optimistic: Option<u32>) -> MutationToken {
        let ev = Event::MutateBegin { key: key(name), optimistic: optimistic.map(Arc::new) };
        match self.send(ev).0 {
            Outcome::Mutation(token) => token,
            _ => panic!("Mutation expected"),
        }
    }

    fn fail(&mut self, token: MutationToken, flags: MutateFlags) -> Fx {
        self.send(Event::MutateCommit { token, result: Err(Arc::new(13)), flags }).1
    }

    fn invalidate(&mut self, name: &str) -> Fx {
        self.send(Event::Invalidate { prefix: name.into_prefix() }).1
    }
}

fn key(name: &str) -> QueryKey {
    QueryKey::new::<u32, String>(name)
}

/// What the numbers of a snapshot announce is there.
fn complete(snapshot: &Snapshot<u32, u32>) -> bool {
    let highest = snapshot.data_seq.max(snapshot.error_seq);
    (1..=highest).all(|target| snapshot.is_backed(target))
}

fn fetches(fx: &Fx) -> usize {
    fx.iter().filter(|e| matches!(e, Effect::StartFetch { .. })).count()
}

fn notes(fx: &Fx) -> usize {
    fx.iter().filter(|e| matches!(e, Effect::Notify { .. })).count()
}

fn countdown(fx: &Fx) -> Option<(Instant, u64)> {
    fx.iter().find_map(|e| match e {
        Effect::ScheduleTimer { kind: TimerKind::Gc, at, generation, .. } => {
            Some((*at, *generation))
        }
        _ => None,
    })
}

fn data(e: &EntryCore<u32, str, Compare>) -> Option<u32> {
    e.data.as_deref().copied()
}

#[test]
fn events_count_and_other_keys_stay() {
    let mut m = Machine::new();
    assert_eq!(m.inner.handled(), 0);
    assert!(m.inner.handled() < MAX_EVENTS);
    m.set("a", 1);
    m.set("b", 2);
    m.send(Event::MutateBegin { key: key("a"), optimistic: Some(Arc::new(9)) });
    assert_eq!(m.inner.handled(), 3);
    assert_eq!(data(m.at("b")), Some(2));
    assert_eq!(m.at("b").seq, 1);
    assert_eq!(*m.inner.default_options(), QueryOptions::default());
}

#[test]
fn an_invalidation_stays_under_its_prefix() {
    let mut m = Machine::new();
    m.set("a", 1);
    m.set("b", 2);
    m.invalidate("a");
    assert!(m.at("a").invalidated);
    assert!(!m.at("b").invalidated);
}

#[test]
fn batches_list_fetches_timers_notifications() {
    let mut m = Machine::new();
    let opts = QueryOptions {
        refresh_interval: Some(Duration::from_secs(5)),
        ..QueryOptions::default()
    };
    for name in ["a", "b"] {
        m.subscribe(name, opts);
        m.land(name, 1);
    }
    m.set("c", 3);
    let fx = m.send(Event::Invalidate { prefix: Vec::new() }).1;
    let order: String = fx
        .iter()
        .map(|e| match e {
            Effect::StartFetch { .. } => 'f',
            Effect::ScheduleTimer { .. } => 't',
            Effect::Notify { .. } => 'n',
        })
        .collect();
    assert_eq!(order, "fftnnn");
}

#[test]
fn notifications_carry_the_current_state() {
    let mut m = Machine::new();
    let fx = m.set("a", 1);
    let snapshot = fx
        .iter()
        .find_map(|e| match e {
            Effect::Notify { snapshot, .. } => Some(snapshot.clone()),
            _ => None,
        })
        .expect("notified");
    assert_eq!(snapshot.version, 1);
    assert_eq!(snapshot.version, m.at("a").snap_version);
    assert_eq!(snapshot.data.as_deref(), Some(&1));
    assert!(complete(&snapshot));
    let fx = m.set("a", 2);
    assert_eq!(notes(&fx), 1);
    assert_eq!(m.at("a").snap_version, 2);
}

#[test]
fn a_fetch_that_is_over_never_lands() {
    let mut m = Machine::new();
    m.read("a", ReadPolicy::EnsureFresh);
    let late = |m: &Machine| Event::CommitOk {
        key: key("a"),
        incarnation: m.at("a").incarnation,
        seq: 1,
        value: Arc::new(99),
    };
    m.invalidate("a");
    let ev = late(&m);
    assert!(m.send(ev).1.is_empty());
    m.read("a", ReadPolicy::EnsureFresh);
    let ev = late(&m);
    assert!(m.send(ev).1.is_empty(), "another fetch is in flight");
    m.land("a", 5);
    let ev = late(&m);
    assert!(m.send(ev).1.is_empty());
    assert_eq!(data(m.at("a")), Some(5));
}

#[test]
fn an_old_incarnation_never_lands() {
    let mut m = Machine::new();
    m.read("a", ReadPolicy::EnsureFresh);
    assert_eq!(m.at("a").incarnation, 0);
    let fx = m.invalidate("a");
    let (_, generation) = countdown(&fx).expect("idle");
    m.send(Event::TimerFired { key: key("a"), kind: TimerKind::Gc, generation });
    assert!(m.inner.entry(&key("a")).is_none(), "collected");

    m.read("a", ReadPolicy::EnsureFresh);
    assert_eq!(m.at("a").incarnation, 1, "incarnations are never used twice");
    assert_eq!(m.at("a").inflight, Some(1), "numbers start over");
    let (_, fx) = m.send(Event::CommitOk {
        key: key("a"),
        incarnation: 0,
        seq: 1,
        value: Arc::new(99),
    });
    assert!(fx.is_empty());
    assert_eq!(data(m.at("a")), None);
}

#[test]
fn a_mutation_shields_the_data() {
    let mut m = Machine::new();
    m.set("a", 1);
    let token = m.begin("a", Some(2));
    m.read("a", ReadPolicy::StaleWhileRevalidate);
    m.send(Event::RevalidateRequested { key: key("a") });
    m.invalidate("a");
    m.sleep(10);
    m.send(Event::Broadcast { ev: SwrEvent::Online });
    assert_eq!(data(m.at("a")), Some(2));
    assert!(m.at("a").inflight.is_none());
    m.fail(token, ROLLBACK);
    assert_eq!(data(m.at("a")), Some(1), "rolled back after all that");
    assert_eq!(m.at("a").data_seq, 1);
    assert_eq!(m.at("a").error_seq, 0);
    assert_eq!(m.at("a").mutation_active, 0);
}

#[test]
fn no_rollback_unless_asked() {
    let mut m = Machine::new();
    m.set("a", 1);
    let token = m.begin("a", Some(2));
    m.fail(token, MutateFlags { rollback_on_error: false, ..ROLLBACK });
    assert_eq!(data(m.at("a")), Some(2));
    assert_eq!(m.at("a").error.as_deref(), Some(&13));
    assert_eq!(m.at("a").error_seq, 0, "no fetch failed");
}

#[test]
fn the_first_failure_spares_the_second_mutation() {
    let mut m = Machine::new();
    m.set("a", 1);
    let first = m.begin("a", Some(2));
    let second = m.begin("a", Some(3));
    m.fail(first, ROLLBACK);
    assert_eq!(data(m.at("a")), Some(3));
    assert_eq!(m.at("a").mutation_active, 1);
    m.fail(second, ROLLBACK);
    assert_eq!(data(m.at("a")), Some(2), "back to what the second one displaced");
}

#[test]
fn an_invalidation_during_a_mutation_is_made_up_for() {
    let mut m = Machine::new();
    m.subscribe("a", QueryOptions::default());
    m.land("a", 1);
    let token = m.begin("a", None);
    let fx = m.invalidate("a");
    assert_eq!(fetches(&fx), 0, "only marked");
    let (_, fx) = m.send(Event::MutateCommit { token, result: Ok(None), flags: ROLLBACK });
    assert_eq!(fetches(&fx), 1);
    assert!(!m.at("a").invalidated);
}

#[test]
fn a_populating_mutation_is_fresh() {
    let mut m = Machine::new();
    let token = m.begin("a", None);
    let result = Ok(Some(Arc::new(4)));
    m.send(Event::MutateCommit { token, result, flags: ROLLBACK });
    let (read, fx) = m.read("a", ReadPolicy::EnsureFresh);
    assert!(matches!(read, ReadOutcome::Ready(s) if s.data.as_deref() == Some(&4)));
    assert_eq!(fetches(&fx), 0);
}

#[test]
fn without_populate_the_result_is_not_written() {
    let mut m = Machine::new();
    m.set("a", 1);
    let token = m.begin("a", None);
    let result = Ok(Some(Arc::new(4)));
    m.send(Event::MutateCommit {
        token,
        result,
        flags: MutateFlags { populate: false, ..ROLLBACK },
    });
    assert_eq!(data(m.at("a")), Some(1));
}

#[test]
fn a_read_returns_what_was_written() {
    let mut m = Machine::new();
    m.set("a", 7);
    m.sleep(1);
    for policy in [
        ReadPolicy::StaleWhileRevalidate,
        ReadPolicy::EnsureFresh,
        ReadPolicy::CacheOnly,
    ] {
        let (read, fx) = m.read("a", policy);
        assert!(matches!(read, ReadOutcome::Ready(s) if s.data.as_deref() == Some(&7)));
        assert_eq!(fetches(&fx), 0, "fresh");
    }
    m.sleep(1);
    let (read, fx) = m.read("a", ReadPolicy::EnsureFresh);
    assert!(matches!(read, ReadOutcome::Wait { target: 2, .. }), "stale at two seconds sharp");
    assert_eq!(fetches(&fx), 1);
}

#[test]
fn a_reader_waits_for_the_mutation_in_progress() {
    let mut m = Machine::new();
    m.begin("a", None);
    let (read, fx) = m.read("a", ReadPolicy::StaleWhileRevalidate);
    assert!(matches!(read, ReadOutcome::Wait { target: 1, .. }));
    assert_eq!(fetches(&fx), 0);
    m.set("a", 3);
    assert!(m.at("a").data_seq >= 1, "a local write answers the reader");
}

#[test]
fn invalidated_data_stays_and_is_stale() {
    let mut m = Machine::new();
    m.set("a", 1);
    m.invalidate("a");
    assert_eq!(data(m.at("a")), Some(1));
    assert!(m.at("a").is_stale(Duration::longest(), m.now));
    let (read, fx) = m.read("a", ReadPolicy::StaleWhileRevalidate);
    assert!(matches!(read, ReadOutcome::Ready(s) if s.data.as_deref() == Some(&1)));
    assert_eq!(fetches(&fx), 1);
}

#[test]
fn immutable_data_never_ages_and_ignores_broadcasts() {
    let mut m = Machine::new();
    m.subscribe("a", QueryOptions::immutable());
    m.land("a", 1);
    m.sleep(1_000_000_000);
    assert!(!m.at("a").is_stale(QueryOptions::immutable().stale_time, m.now));
    m.invalidate("a");
    m.land("a", 2);
    m.invalidate("b");
    let fx = m.send(Event::Broadcast { ev: SwrEvent::Focus }).1;
    assert!(fx.is_empty());
    let fx = m.send(Event::Broadcast { ev: SwrEvent::Online }).1;
    assert!(fx.is_empty());
}

#[test]
fn focus_is_throttled_but_online_is_not() {
    let mut m = Machine::new();
    m.subscribe("a", QueryOptions::default());
    m.land("a", 1);
    m.sleep(3);
    let focus = |m: &mut Machine| fetches(&m.send(Event::Broadcast { ev: SwrEvent::Focus }).1);
    assert_eq!(focus(&mut m), 1);
    m.land("a", 2);
    m.sleep(3);
    assert!(m.at("a").is_stale(Duration::from_secs(2), m.now));
    assert_eq!(focus(&mut m), 0, "within five seconds");
    let online = m.send(Event::Broadcast { ev: SwrEvent::Online }).1;
    assert_eq!(fetches(&online), 1);
    m.land("a", 3);
    m.sleep(2);
    assert_eq!(focus(&mut m), 1, "the throttle has passed");
}

#[test]
fn the_most_eager_subscriber_counts() {
    let mut m = Machine::new();
    let lazy = QueryOptions {
        stale_time: Duration::from_secs(100),
        revalidate_on_focus: false,
        ..QueryOptions::default()
    };
    m.subscribe("a", lazy);
    m.land("a", 1);
    m.sleep(3);
    let focus = |m: &mut Machine| fetches(&m.send(Event::Broadcast { ev: SwrEvent::Focus }).1);
    assert_eq!(focus(&mut m), 0, "disabled");
    m.subscribe("a", QueryOptions { stale_time: Duration::from_secs(4), ..lazy });
    m.sleep(1);
    m.subscribe("a", QueryOptions { revalidate_on_focus: true, ..lazy });
    assert_eq!(focus(&mut m), 1, "one enables it, another's four seconds have passed");
}

#[test]
fn only_current_timers_of_idle_entries_remove() {
    let mut m = Machine::new();
    let fx = m.set("a", 1);
    let (_, first) = countdown(&fx).expect("idle");
    let fx = m.set("a", 2);
    let (_, second) = countdown(&fx).expect("idle");
    let fire = |m: &mut Machine, generation| {
        m.send(Event::TimerFired { key: key("a"), kind: TimerKind::Gc, generation }).1
    };
    assert!(fire(&mut m, first).is_empty());
    assert!(m.inner.entry(&key("a")).is_some(), "outdated");
    let token = m.begin("a", None);
    assert!(fire(&mut m, second).is_empty());
    assert!(m.inner.entry(&key("a")).is_some(), "a mutation is in progress");
    let (_, fx) = m.send(Event::MutateAbort { token, flags: ROLLBACK });
    let (_, third) = countdown(&fx).expect("idle again");
    assert!(fire(&mut m, third).is_empty());
    assert!(m.inner.entry(&key("a")).is_none());
}

#[test]
fn the_longest_gc_time_counts() {
    let mut m = Machine::new();
    let short = QueryOptions { gc_time: Duration::from_secs(10), ..QueryOptions::default() };
    let long = QueryOptions { gc_time: Duration::from_secs(50), ..QueryOptions::default() };
    let (a, _) = m.subscribe("a", long);
    let (b, _) = m.subscribe("a", short);
    m.land("a", 1);
    m.send(Event::Unsubscribe { key: key("a"), sub_id: b });
    let (_, fx) = m.send(Event::Unsubscribe { key: key("a"), sub_id: a });
    let (at, _) = countdown(&fx).expect("idle");
    assert_eq!(at.nanos, m.now.nanos + Duration::from_secs(10).nanos, "the latest touch");
    let never = QueryOptions { gc_time: Duration::longest(), ..QueryOptions::default() };
    let (c, _) = m.subscribe("a", never);
    let (_, fx) = m.send(Event::Unsubscribe { key: key("a"), sub_id: c });
    assert!(countdown(&fx).is_none(), "never removed");
}

#[test]
fn subscriptions_have_ids_of_their_own() {
    let mut m = Machine::new();
    let (a, _) = m.subscribe("a", QueryOptions::default());
    let (b, _) = m.subscribe("b", QueryOptions::default());
    assert_ne!(a, b);
    assert_eq!(m.at("a").subscribers, 1);
    m.send(Event::Unsubscribe { key: key("a"), sub_id: a });
    assert_eq!(m.at("a").subscribers, 0);
    assert!(m.at("a").opts.subs.is_empty());
    assert_eq!(m.at("b").subscribers, 1);
}

#[test]
fn refresh_goes_on_while_busy() {
    let mut m = Machine::new();
    let opts = QueryOptions {
        refresh_interval: Some(Duration::from_secs(5)),
        ..QueryOptions::default()
    };
    m.subscribe("a", opts);
    let generation = m.at("a").refresh_gen;
    let (_, fx) =
        m.send(Event::TimerFired { key: key("a"), kind: TimerKind::Refresh, generation });
    assert_eq!(fetches(&fx), 0, "a fetch is in flight");
    assert!(matches!(
        fx[0],
        Effect::ScheduleTimer { kind: TimerKind::Refresh, generation: g, .. } if g == generation + 1
    ));
}

#[test]
fn a_comparator_only_decides_which_value_is_kept() {
    let mut m = Machine::new();
    let same_parity: Compare = |a, b| **a % 2 == **b % 2;
    m.send(Event::Read {
        key: key("a"),
        policy: ReadPolicy::EnsureFresh,
        fetcher: Some(Arc::from("fetcher")),
        compare: Some(Arc::new(same_parity)),
        opts: QueryOptions::default(),
    });
    let fx = m.land("a", 1);
    assert_eq!(notes(&fx), 1);
    assert_eq!(data(m.at("a")), Some(1), "nothing to compare with");
    m.sleep(3);
    m.read("a", ReadPolicy::EnsureFresh);
    let fx = m.land("a", 3);
    assert_eq!(notes(&fx), 1, "published all the same");
    assert_eq!(data(m.at("a")), Some(1), "kept");
    assert_eq!(m.at("a").data_seq, 2);
    assert_eq!(m.at("a").updated_at, Some(m.now));
    m.sleep(3);
    m.read("a", ReadPolicy::EnsureFresh);
    m.land("a", 4);
    assert_eq!(data(m.at("a")), Some(4), "replaced");
}

#[test]
fn a_given_fetcher_replaces_the_stored_one() {
    let mut m = Machine::new();
    m.subscribe("a", QueryOptions::default());
    m.land("a", 1);
    m.send(Event::Read {
        key: key("a"),
        policy: ReadPolicy::CacheOnly,
        fetcher: Some(Arc::from("newer")),
        compare: None,
        opts: QueryOptions::default(),
    });
    let (_, fx) = m.send(Event::RevalidateRequested { key: key("a") });
    assert!(matches!(&fx[0], Effect::StartFetch { fetcher, .. } if &**fetcher == "newer"));
    m.send(Event::Subscribe {
        key: key("a"),
        fetcher: None,
        compare: None,
        opts: QueryOptions::default(),
    });
    assert_eq!(m.at("a").fetcher.as_deref(), Some("newer"), "an observer leaves it alone");
}

#[test]
fn events_about_unknown_keys_do_nothing() {
    let mut m = Machine::new();
    let token = MutationToken { key: key("a"), written_seq: None };
    let events: Vec<Event<u32, str, Compare>> = vec![
        Event::Unsubscribe { key: key("a"), sub_id: 0 },
        Event::RevalidateRequested { key: key("a") },
        Event::CommitOk { key: key("a"), incarnation: 0, seq: 1, value: Arc::new(1) },
        Event::CommitErr { key: key("a"), incarnation: 0, seq: 1, error: Arc::new(1) },
        Event::MutateCommit { token: token.clone(), result: Ok(None), flags: ROLLBACK },
        Event::MutateAbort { token, flags: ROLLBACK },
        Event::Invalidate { prefix: "a".into_prefix() },
        Event::Broadcast { ev: SwrEvent::Focus },
        Event::TimerFired { key: key("a"), kind: TimerKind::Gc, generation: 0 },
        Event::TimerFired { key: key("a"), kind: TimerKind::Refresh, generation: 0 },
    ];
    for ev in events {
        let (outcome, fx) = m.send(ev);
        assert!(matches!(outcome, Outcome::Done));
        assert!(fx.is_empty());
        assert!(m.inner.entry(&key("a")).is_none());
    }
}

/// A cheap source of repeatable events.
struct Dice(u64);

impl Dice {
    fn roll(&mut self, sides: u64) -> u64 {
        self.0 = self.0.wrapping_mul(6364136223846793005).wrapping_add(1442695040888963407);
        (self.0 >> 33) % sides
    }
}

#[test]
fn random_event_sequences_preserve_invariants() {
    for seed in 0..40u64 {
        let mut dice = Dice(seed);
        let mut m = Machine::new();
        let mut pending: Vec<(u64, u64)> = Vec::new();
        let mut subs: Vec<u64> = Vec::new();
        let mut tokens: Vec<MutationToken> = Vec::new();
        for _ in 0..150 {
            let flags = MutateFlags {
                rollback_on_error: dice.roll(2) == 0,
                populate: dice.roll(2) == 0,
                revalidate: dice.roll(2) == 0,
            };
            let mut junk = false;
            let ev: Event<u32, str, Compare> = match dice.roll(15) {
                0 => Event::Read {
                    key: key("k"),
                    policy: match dice.roll(3) {
                        0 => ReadPolicy::StaleWhileRevalidate,
                        1 => ReadPolicy::EnsureFresh,
                        _ => ReadPolicy::CacheOnly,
                    },
                    fetcher: Some(Arc::from("fetcher")),
                    compare: None,
                    opts: QueryOptions::default(),
                },
                1 => Event::Subscribe {
                    key: key("k"),
                    fetcher: Some(Arc::from("fetcher")),
                    compare: None,
                    opts: QueryOptions::default(),
                },
                2 if !subs.is_empty() => {
                    let pick = dice.roll(subs.len() as u64) as usize;
                    Event::Unsubscribe { key: key("k"), sub_id: subs.remove(pick) }
                }
                3 => Event::RevalidateRequested { key: key("k") },
                4 | 5 if !pending.is_empty() => {
                    let pick = dice.roll(pending.len() as u64) as usize;
                    let (incarnation, seq) = pending.remove(pick);
                    if dice.roll(2) == 0 {
                        Event::CommitOk { key: key("k"), incarnation, seq, value: Arc::new(0) }
                    } else {
                        Event::CommitErr { key: key("k"), incarnation, seq, error: Arc::new(1) }
                    }
                }
                6 => Event::MutateSet { key: key("k"), value: Arc::new(dice.roll(9) as u32) },
                7 => Event::MutateBegin {
                    key: key("k"),
                    optimistic: if dice.roll(2) == 0 { Some(Arc::new(8)) } else { None },
                },
                8 if !tokens.is_empty() => {
                    let pick = dice.roll(tokens.len() as u64) as usize;
                    let result = match dice.roll(3) {
                        0 => Ok(Some(Arc::new(1))),
                        1 => Ok(None),
                        _ => Err(Arc::new(1)),
                    };
                    Event::MutateCommit { token: tokens.remove(pick), result, flags }
                }
                9 if !tokens.is_empty() => {
                    let pick = dice.roll(tokens.len() as u64) as usize;
                    Event::MutateAbort { token: tokens.remove(pick), flags }
                }
                10 => Event::Invalidate { prefix: "k".into_prefix() },
                11 => Event::Broadcast {
                    ev: if dice.roll(2) == 0 { SwrEvent::Focus } else { SwrEvent::Online },
                },
                12 => Event::TimerFired {
                    key: key("k"),
                    kind: if dice.roll(2) == 0 { TimerKind::Gc } else { TimerKind::Refresh },
                    generation: dice.roll(6),
                },
                13 => {
                    let seq = dice.roll(6);
                    // A number that nobody was given; those of pending fetches are theirs.
                    if pending.iter().any(|(_, s)| *s == seq) {
                        continue;
                    }
                    junk = true;
                    let incarnation = seq % 3;
                    if dice.roll(2) == 0 {
                        Event::CommitOk { key: key("k"), incarnation, seq, value: Arc::new(0) }
                    } else {
                        Event::CommitErr { key: key("k"), incarnation, seq, error: Arc::new(1) }
                    }
                }
                _ => {
                    m.now = m
                        .now
                        .checked_add(Duration::from_millis(dice.roll(5000)))
                        .expect("within the clock");
                    continue;
                }
            };
            let (outcome, fx) = m.send(ev);
            assert!(!junk || fx.is_empty(), "such a commit never lands");
            match outcome {
                Outcome::Subscribed { sub_id, .. } => subs.push(sub_id),
                Outcome::Mutation(token) => tokens.push(token),
                _ => {}
            }
            for effect in &fx {
                match effect {
                    Effect::StartFetch { incarnation, seq, .. } => {
                        pending.push((*incarnation, *seq))
                    }
                    Effect::Notify { snapshot, .. } => assert!(complete(snapshot)),
                    Effect::ScheduleTimer { .. } => {}
                }
            }
            if let Some(e) = m.inner.entry(&key("k")) {
                assert!(e.data_seq <= e.seq);
                assert!(e.error_seq <= e.seq);
                if let Some(s) = e.inflight {
                    assert_eq!(s, e.seq);
                    assert_eq!(e.mutation_active, 0);
                }
                if let Some(o) = &e.optimistic {
                    assert!(o.written_seq <= e.seq);
                }
                assert_eq!(e.data.is_some(), e.data_seq > 0);
                assert!(e.error_seq <= e.data_seq || e.error.is_some());
                assert_eq!(e.mutation_active, tokens.len() as u64);
                assert_eq!(e.subscribers, subs.len() as u64);
                assert_eq!(e.opts.subs.len(), subs.len());
            }
        }
    }
}

#[test]
fn commits_with_numbers_nobody_was_given_are_dropped() {
    let mut m = Machine::new();
    m.read("k", ReadPolicy::EnsureFresh);
    let (incarnation, flight) = (m.at("k").incarnation, m.at("k").inflight.expect("in flight"));
    assert_eq!((incarnation, flight), (0, 1));
    for (incarnation, seq) in [(0, 0), (0, 2), (0, u64::MAX), (1, 1), (u64::MAX, 1)] {
        let ok = Event::CommitOk { key: key("k"), incarnation, seq, value: Arc::new(7) };
        let err = Event::CommitErr { key: key("k"), incarnation, seq, error: Arc::new(7) };
        for ev in [ok, err] {
            let (outcome, fx) = m.send(ev);
            assert!(matches!(outcome, Outcome::Done));
            assert!(fx.is_empty());
        }
        let e = m.at("k");
        assert_eq!(e.inflight, Some(flight));
        assert_eq!((e.seq, e.data_seq, e.error_seq), (1, 0, 0));
        assert!(e.data.is_none() && e.error.is_none());
    }
    m.land("k", 3);
    assert_eq!(m.at("k").data.as_deref(), Some(&3));
}

#[test]
fn the_last_mutation_revalidates_only_if_there_is_reason() {
    let quiet = MutateFlags { rollback_on_error: true, populate: true, revalidate: false };
    let eager = MutateFlags { revalidate: true, ..quiet };
    // Asked to, the end starts a fetch; otherwise it starts none.
    for (flags, invalidate, result, count) in [
        (eager, false, Ok(None), 1),
        (quiet, false, Ok(None), 0),
        (quiet, true, Ok(None), 1),
        (quiet, true, Ok(Some(Arc::new(4))), 0),
        (quiet, false, Err(Arc::new(4)), 0),
    ] {
        let mut m = Machine::new();
        m.read("k", ReadPolicy::EnsureFresh);
        m.land("k", 1);
        let token = m.begin("k", None);
        if invalidate {
            m.invalidate("k");
        }
        let (_, fx) = m.send(Event::MutateCommit { token, result, flags });
        assert_eq!(fetches(&fx), count);
        assert_eq!(m.at("k").inflight.is_some(), count == 1);
    }
}
