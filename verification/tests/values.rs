//! Keys, options, time, snapshots, errors and the small decisions around them.

use std::sync::Arc;
use swr::client::{
    after_wait, plan_mutation, ready_result, share_result, wait_step, WaitOutcome, WaitStep,
};
use swr::error::{Closed, FetchError};
use swr::key::{
    IntoKeyPrefix, IntoQueryKey, IntoSegment, IntoSegments, QueryKey, Segment,
};
use swr::options::{MutateFlags, MutateOptions, QueryOptions, ReadPolicy};
use swr::registry::Registry;
use swr::retry::{RetryPolicy, MAX_DOUBLINGS};
use swr::snapshot::{share, QueryState, Snapshot};
use swr::time::{Duration, Instant, MAX_INSTANT_NANOS, MAX_SPAN_NANOS};

fn snapshot(
    data: Option<u32>,
    error: Option<&str>,
    data_seq: u64,
    error_seq: u64,
) -> Snapshot<u32, String> {
    Snapshot {
        data: data.map(Arc::new),
        error: error.map(|e| Arc::new(e.to_string())),
        data_seq,
        error_seq,
        ..Snapshot::empty()
    }
}

// ---- keys ----

#[test]
fn segments_keep_kind_and_value() {
    assert_eq!("a".into_segment(), Segment::Str(Arc::from("a")));
    assert_eq!("a".to_string().into_segment(), Segment::Str(Arc::from("a")));
    assert_eq!(Arc::<str>::from("a").into_segment(), Segment::Str(Arc::from("a")));
    assert_eq!(7u64.into_segment(), Segment::U64(7));
    assert_eq!(7u32.into_segment(), Segment::U64(7));
    assert_eq!((-7i64).into_segment(), Segment::I64(-7));
    assert_eq!((-7i32).into_segment(), Segment::I64(-7));
    assert_eq!(true.into_segment(), Segment::Bool(true));
    assert_eq!(vec![1u8, 2].into_segment(), Segment::Bytes(Arc::from(vec![1u8, 2])));
    assert!(!Segment::U64(1).same(&Segment::I64(1)), "kinds differ");
    assert!(!Segment::Str(Arc::from("ab")).same(&Segment::Str(Arc::from("ac"))));
    assert!(Segment::Bytes(Arc::from(vec![1u8])).same(&Segment::Bytes(Arc::from(vec![1u8]))));
    assert!(!Segment::Bytes(Arc::from(vec![1u8])).same(&Segment::Bytes(Arc::from(vec![1u8, 2]))));
}

#[test]
fn tuples_become_ordered_segments() {
    let key = QueryKey::new::<u32, String>(("user", 1u64, true));
    assert_eq!(
        key.segments(),
        [Segment::Str(Arc::from("user")), Segment::U64(1), Segment::Bool(true)]
    );
    assert_eq!(
        (1u64, 2u64, 3u64, 4u64, 5u64, 6u64, 7u64, 8u64).into_segments().len(),
        8
    );
    assert_eq!("user".into_segments(), vec![Segment::Str(Arc::from("user"))]);
    assert_eq!(vec![Segment::U64(3)].into_segments(), vec![Segment::U64(3)]);
}

#[test]
fn keys_tell_types_and_segments_apart() {
    let number = QueryKey::new::<u32, String>("k");
    let text = QueryKey::new::<String, String>("k");
    let other = QueryKey::new::<u32, String>("l");
    assert!(number.same(&QueryKey::new::<u32, String>("k")));
    assert!(number.same(&number.clone()));
    assert!(!number.same(&text), "value type is part of the identity");
    assert!(!number.same(&QueryKey::new::<u32, u8>("k")), "and so is the error type");
    assert!(!number.same(&other));
    let into: QueryKey = IntoQueryKey::<u32, String>::into_query_key("k");
    assert!(into.same(&number));
}

#[test]
fn prefixes_ignore_the_value_type() {
    let key = QueryKey::new::<u32, String>(("user", 1u64));
    assert!(key.matches_prefix(&"user".into_prefix()));
    assert!(key.matches_prefix(&("user", 1u64).into_prefix()));
    assert!(key.matches_prefix(&[]), "the empty prefix reaches everything");
    assert!(!key.matches_prefix(&("user", 2u64).into_prefix()));
    assert!(!key.matches_prefix(&("user", 1u64, 0u64).into_prefix()), "longer than the key");
    assert!(QueryKey::new::<String, String>(("user", 2u64)).matches_prefix(&"user".into_prefix()));
    assert!(!QueryKey::new::<u32, String>("users").matches_prefix(&"user".into_prefix()));
}

// ---- options and time ----

#[test]
fn options_default_as_documented() {
    let opts = QueryOptions::default();
    assert_eq!(opts.stale_time, Duration::from_secs(2));
    assert_eq!(opts.gc_time, Duration::from_secs(300));
    assert_eq!(opts.refresh_interval, None);
    assert!(opts.revalidate_on_focus);
    assert!(opts.revalidate_on_online);
    assert_eq!(opts.focus_throttle, Duration::from_secs(5));
    assert_eq!(ReadPolicy::default(), ReadPolicy::StaleWhileRevalidate);

    let fixed = QueryOptions::immutable();
    assert_eq!(fixed.stale_time, Duration::longest());
    assert!(!fixed.revalidate_on_focus);
    assert!(!fixed.revalidate_on_online);
    assert_eq!(fixed.gc_time, opts.gc_time);
}

#[test]
fn mutate_options_become_flags() {
    let opts = MutateOptions::<u32>::default();
    assert!(opts.optimistic.is_none());
    assert_eq!(
        MutateFlags::from(&opts),
        MutateFlags { rollback_on_error: true, populate: true, revalidate: true }
    );
    let (flags, optimistic) = plan_mutation(MutateOptions {
        optimistic: Some(5u32),
        rollback_on_error: false,
        populate: true,
        revalidate: false,
    });
    assert_eq!(
        flags,
        MutateFlags { rollback_on_error: false, populate: true, revalidate: false }
    );
    assert_eq!(optimistic.as_deref(), Some(&5));
    assert_eq!(share_result::<u32, String>(Ok(Some(3))), Ok(Some(Arc::new(3))));
    assert_eq!(share_result::<u32, String>(Ok(None)), Ok(None));
    assert_eq!(
        share_result::<u32, String>(Err("e".to_string())),
        Err(Arc::new("e".to_string()))
    );
}

#[test]
fn deadlines_end_with_the_clock() {
    let start = Instant { nanos: 5 };
    assert_eq!(start.checked_add(Duration::from_millis(2)), Some(Instant { nanos: 2_000_005 }));
    assert_eq!(start.checked_add(Duration::longest()), None);
    let last = Instant { nanos: MAX_INSTANT_NANOS };
    assert_eq!(last.checked_add(Duration::zero()), Some(last));
    assert_eq!(last.checked_add(Duration { nanos: 1 }), None);
    assert_eq!(Duration::new(1, 500_000_000).nanos, 1_500_000_000);
    assert_eq!(Duration::from_secs(2).saturating_mul(3), Duration::from_secs(6));
    assert_eq!(Duration::longest().saturating_mul(2), Duration::longest());
    assert_eq!(Duration::longest().nanos, MAX_SPAN_NANOS);
}

// ---- snapshots ----

#[test]
fn snapshots_say_what_is_going_on() {
    let mut s: Snapshot<u32, String> = Snapshot::empty();
    assert!(!s.is_validating());
    assert!(!s.is_loading());
    assert!(s.is_backed(1), "nothing is announced");
    assert!(!s.is_backed(0), "number zero stands for no data");
    s.inflight = Some(1);
    assert!(s.is_validating());
    assert!(s.is_loading(), "first load");
    s.data = Some(Arc::new(1));
    assert!(!s.is_loading(), "background refresh");

    let state = QueryState::from_snapshot(s.clone());
    assert_eq!(state.data.as_deref(), Some(&1));
    assert!(state.is_validating);
    assert!(!state.is_loading);
    assert!(state.clone().error.is_none());
    assert!(Arc::ptr_eq(&share(&s.data).expect("shared"), s.data.as_ref().expect("there")));
}

#[test]
fn a_channel_never_goes_back() {
    let mut current: Snapshot<u32, String> = Snapshot { version: 3, ..Snapshot::empty() };
    let older = Snapshot { version: 3, ..snapshot(Some(1), None, 1, 0) };
    assert!(!current.advance(older));
    assert!(current.data.is_none());
    let newer = Snapshot { version: 4, ..snapshot(Some(2), None, 1, 0) };
    assert!(current.advance(newer));
    assert_eq!(current.data.as_deref(), Some(&2));
    assert_eq!(current.version, 4);
}

#[test]
fn publishing_order_does_not_matter() {
    let a = Snapshot { version: 1, ..snapshot(Some(1), None, 1, 0) };
    let b = Snapshot { version: 2, ..snapshot(Some(2), None, 2, 0) };
    let mut ab: Snapshot<u32, String> = Snapshot::empty();
    ab.advance(a.clone());
    ab.advance(b.clone());
    let mut ba: Snapshot<u32, String> = Snapshot::empty();
    ba.advance(b);
    ba.advance(a);
    assert_eq!(ab.version, ba.version);
    assert_eq!(ab.data, ba.data);
}

#[test]
fn missing_values_are_told() {
    assert!(snapshot(Some(1), None, 1, 0).is_backed(1));
    assert!(!snapshot(None, None, 1, 0).is_backed(1), "data announced but missing");
    assert!(snapshot(None, None, 1, 0).is_backed(2), "the target is not reached");
    assert!(!snapshot(Some(1), None, 1, 2).is_backed(2), "error announced but missing");
    assert!(snapshot(Some(1), None, 1, 2).is_backed(1), "the data is there");
    assert!(snapshot(Some(1), None, 1, 2).is_backed(3), "the target is not reached");
    assert!(snapshot(Some(1), Some("e"), 1, 2).is_backed(2));
    assert!(snapshot(Some(1), None, 2, 1).is_backed(1), "the error was overtaken");
    assert!(!snapshot(None, Some("e"), 1, 2).is_backed(1), "data comes first");
    assert!(snapshot(None, Some("e"), 1, 2).is_backed(2));
}

// ---- reading ----

#[test]
fn data_wins_over_a_stored_error() {
    assert_eq!(*ready_result(snapshot(Some(1), Some("e"), 1, 2)).ok().expect("data"), 1);
    match ready_result(snapshot(None, Some("e"), 0, 1)) {
        Err(FetchError::Fetch(error)) => assert_eq!(error.as_str(), "e"),
        _ => panic!("error expected"),
    }
    assert!(matches!(ready_result(snapshot(None, None, 0, 0)), Err(FetchError::Miss)));
}

#[test]
fn a_wait_ends_at_its_target() {
    let same = |d, e, ds, es| -> Snapshot<u32, u32> {
        Snapshot {
            data: d,
            error: e,
            data_seq: ds,
            error_seq: es,
            ..Snapshot::empty()
        }
    };
    let s = same(Some(Arc::new(1)), None, 3, 0);
    assert!(matches!(wait_step(&s, 3), WaitStep::Done(WaitOutcome::Data(v)) if *v == 1));
    assert!(matches!(wait_step(&s, 2), WaitStep::Done(WaitOutcome::Data(_))), "newer is fine");
    assert!(matches!(wait_step(&s, 4), WaitStep::Park { poke: true }), "nothing on its way");

    let failed = same(Some(Arc::new(1)), Some(Arc::new(9)), 1, 2);
    assert!(matches!(wait_step(&failed, 2), WaitStep::Done(WaitOutcome::Error(e)) if *e == 9));
    assert!(matches!(wait_step(&failed, 1), WaitStep::Done(WaitOutcome::Data(_))), "data first");

    // What lies behind numbers below the target does not matter.
    let hollow = same(None, None, 2, 0);
    assert!(matches!(wait_step(&hollow, 3), WaitStep::Park { poke: true }));
    let lost = same(Some(Arc::new(1)), None, 1, 2);
    assert!(matches!(wait_step(&lost, 3), WaitStep::Park { poke: true }));
    assert!(matches!(wait_step(&lost, 1), WaitStep::Done(WaitOutcome::Data(v)) if *v == 1));
    let bare = same(None, Some(Arc::new(9)), 1, 2);
    assert!(matches!(wait_step(&bare, 2), WaitStep::Done(WaitOutcome::Error(e)) if *e == 9));
    assert!(matches!(wait_step(&s, 0), WaitStep::Done(WaitOutcome::Data(_))), "zero is reached");

    let mut flying = same(None, None, 0, 0);
    flying.inflight = Some(1);
    assert!(matches!(wait_step(&flying, 1), WaitStep::Park { poke: false }));
    let mut mutating = same(None, None, 0, 0);
    mutating.is_mutating = true;
    assert!(matches!(wait_step(&mutating, 1), WaitStep::Park { poke: false }));

    assert!(matches!(after_wait(WaitOutcome::Data(Arc::new(1u32))), Some(Ok(_))));
    assert!(matches!(
        after_wait(WaitOutcome::Error(Arc::new(1u32))),
        Some(Err(FetchError::Fetch(_)))
    ));
    assert!(after_wait::<u32>(WaitOutcome::Closed).is_none());
}

// ---- errors ----

#[test]
fn errors_speak() {
    let failed = FetchError::Fetch(Arc::new("boom".to_string()));
    assert_eq!(failed.message("boom"), "fetcher failed: boom");
    assert_eq!(failed.source().expect("source").as_str(), "boom");
    let none: FetchError<String> = FetchError::NoFetcher;
    assert_eq!(none.message(""), "no fetcher available for this key");
    assert!(none.source().is_none());
    let miss: FetchError<String> = FetchError::Miss;
    assert_eq!(miss.message("ignored"), "cache-only read found no data");
    assert_eq!(Closed.message(), "entry was garbage-collected; re-subscribe to continue");
}

// ---- retries ----

#[test]
fn backoff_doubles_and_levels_off() {
    let policy = RetryPolicy::default();
    assert_eq!(policy.interval, Duration::from_secs(5));
    assert_eq!(policy.max_retries, Some(3));
    assert_eq!(policy.delay(0), Duration::from_secs(5));
    assert_eq!(policy.delay(1), Duration::from_secs(10));
    assert_eq!(policy.delay(2), Duration::from_secs(20));
    assert_eq!(policy.delay(8), Duration::from_secs(1280));
    assert_eq!(policy.delay(9), policy.delay(MAX_DOUBLINGS));
    assert_eq!(policy.delay(u32::MAX), Duration::from_secs(1280));
    assert!(!policy.exhausted(3));
    assert!(policy.exhausted(4));
    let endless = RetryPolicy { max_retries: None, ..policy };
    assert!(!endless.exhausted(u32::MAX));
    let huge = RetryPolicy { interval: Duration::longest(), ..policy };
    assert_eq!(huge.delay(1), Duration::longest());
    assert_eq!(huge.deadline(1, Instant { nanos: 0 }), None, "the clock does not reach it");
    assert_eq!(
        policy.deadline(1, Instant { nanos: 7 }),
        Some(Instant { nanos: 10_000_000_007 })
    );
}

// ---- environment events ----

#[test]
fn listeners_are_shared_and_counted() {
    let mut registry: Registry<str, &'static str> = Registry::new();
    assert!(!registry.wants_listeners());
    assert!(!registry.is_full());
    let first = registry.attach(Arc::from("a"));
    assert!(registry.wants_listeners(), "the first attachment asks for listeners");
    registry.listen("dom");
    let second = registry.attach(Arc::from("b"));
    assert!(!registry.wants_listeners(), "one set serves all");
    assert_ne!(first, second);
    let names: Vec<String> = registry.targets().iter().map(|t| t.to_string()).collect();
    assert_eq!(names, ["a", "b"]);

    registry.detach(first);
    let names: Vec<String> = registry.targets().iter().map(|t| t.to_string()).collect();
    assert_eq!(names, ["b"]);
    registry.detach(first);
    assert!(!registry.wants_listeners(), "listeners stay for the second");
    registry.detach(second);
    assert!(registry.targets().is_empty());
    let third = registry.attach(Arc::from("c"));
    assert!(registry.wants_listeners(), "the last one took the listeners down");
    assert_eq!(third, 2, "ids are not used twice");
}
