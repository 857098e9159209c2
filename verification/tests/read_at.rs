//! Reading ranges of objects.

use vortex::error::VortexError;
use vortex::io::hedge::{advance, record_action, ReadAction, ReadEvent, ReadPhase};
use vortex::io::read_at::{
    record_answer, CoalesceConfig, ObjectStoreReadAt, ObjectStoreReadHedgeConfig,
    ObjectStoreReadStats, ObjectStoreReadStatsSnapshot, DEFAULT_CONCURRENCY,
};
use vortex::io::stream::RangeBuffer;

const HEDGE: ObjectStoreReadHedgeConfig =
    ObjectStoreReadHedgeConfig { delay_nanos: 1_000, min_bytes: 4, max_bytes: 8 };

#[test]
fn hedging_applies_between_its_bounds() {
    assert!(!HEDGE.applies_to(3));
    assert!(HEDGE.applies_to(4));
    assert!(HEDGE.applies_to(8));
    assert!(!HEDGE.applies_to(9));
    let immediate = ObjectStoreReadHedgeConfig { delay_nanos: 0, ..HEDGE };
    assert!(!immediate.applies_to(5));
}

#[test]
fn counters_start_at_zero() {
    assert_eq!(
        ObjectStoreReadStats::default().snapshot(),
        ObjectStoreReadStatsSnapshot::default()
    );
}

#[test]
fn single_read_counts_one_request() {
    let mut stats = ObjectStoreReadStats::default();
    let (phase, action) = advance(ReadPhase::Idle, ReadEvent::Begin, false);
    record_action(&mut stats, action, 5);
    let (phase, action) = advance(phase, ReadEvent::PrimaryAnswered, false);
    record_action(&mut stats, action, 5);
    record_answer(&mut stats, &Ok::<(), VortexError>(()), 17);

    assert_eq!((phase, action), (ReadPhase::Finished, ReadAction::ReturnPrimary));
    assert_eq!(
        stats.snapshot(),
        ObjectStoreReadStatsSnapshot {
            requests_started: 1,
            requests_completed: 1,
            bytes_started: 5,
            max_bytes_started: 5,
            hedge_requests_started: 0,
            hedge_wins: 0,
            total_completed_nanos: 17,
            max_completed_nanos: 17,
        }
    );
}

#[test]
fn hedged_read_counts_two_requests_and_a_win() {
    let mut stats = ObjectStoreReadStats::default();
    let mut phase = ReadPhase::Idle;
    let mut actions = Vec::new();
    for event in [
        ReadEvent::Begin,
        ReadEvent::DelayElapsed,
        ReadEvent::HedgeAllocated,
        ReadEvent::HedgeAnswered,
        ReadEvent::PrimaryAnswered,
    ] {
        let (next, action) = advance(phase, event, true);
        record_action(&mut stats, action, 6);
        phase = next;
        actions.push(action);
    }

    assert_eq!(
        actions,
        vec![
            ReadAction::RequestPrimary,
            ReadAction::AllocateHedge,
            ReadAction::RequestHedge,
            ReadAction::ReturnHedge,
            ReadAction::Wait,
        ]
    );
    let snapshot = stats.snapshot();
    assert_eq!(snapshot.requests_started, 2);
    assert_eq!(snapshot.bytes_started, 12);
    assert_eq!(snapshot.max_bytes_started, 6);
    assert_eq!(snapshot.hedge_requests_started, 1);
    assert_eq!(snapshot.hedge_wins, 1);
}

#[test]
fn first_request_can_win_the_race() {
    let (phase, action) = advance(ReadPhase::Racing, ReadEvent::PrimaryAnswered, true);
    assert_eq!((phase, action), (ReadPhase::Finished, ReadAction::ReturnPrimary));
}

#[test]
fn failed_allocation_ends_the_read() {
    let (phase, action) = advance(ReadPhase::Preparing, ReadEvent::AllocationFailed, true);
    assert_eq!((phase, action), (ReadPhase::Finished, ReadAction::ReturnAllocationError));
}

#[test]
fn delay_without_hedging_changes_nothing() {
    let (phase, action) = advance(ReadPhase::Primary, ReadEvent::DelayElapsed, false);
    assert_eq!((phase, action), (ReadPhase::Primary, ReadAction::Wait));
}

#[test]
fn failed_requests_are_not_completed() {
    let mut stats = ObjectStoreReadStats::default();
    stats.record_start(3, false);
    let failed: Result<(), VortexError> = Err(VortexError::StreamLength { returned: 1, expected: 3 });
    record_answer(&mut stats, &failed, 9);
    assert_eq!(stats.snapshot().requests_started, 1);
    assert_eq!(stats.snapshot().requests_completed, 0);
    assert_eq!(stats.snapshot().total_completed_nanos, 0);
}

#[test]
fn elapsed_time_is_cut_off_and_maxima_are_kept() {
    let mut stats = ObjectStoreReadStats::default();
    stats.record_complete(u128::MAX);
    assert_eq!(stats.snapshot().max_completed_nanos, u64::MAX);
    assert_eq!(stats.snapshot().total_completed_nanos, u64::MAX);
    stats.record_complete(2);
    assert_eq!(stats.snapshot().max_completed_nanos, u64::MAX);
    assert_eq!(stats.snapshot().total_completed_nanos, 1);
    assert_eq!(stats.snapshot().requests_completed, 2);

    stats.record_start(7, false);
    stats.record_start(5, true);
    assert_eq!(stats.snapshot().max_bytes_started, 7);
    stats.record_hedge_win();
    assert_eq!(stats.snapshot().hedge_wins, 1);
}

#[test]
fn configured_source_plans_reads() {
    let coalesce = CoalesceConfig { distance: 10, max_size: 100 };
    let source: ObjectStoreReadAt<(), ()> =
        ObjectStoreReadAt::new((), "test.bin".to_string(), coalesce);
    assert_eq!(source.uri(), Some(&"test.bin".to_string()));
    assert_eq!(source.concurrency, DEFAULT_CONCURRENCY);
    assert_eq!(source.concurrency, 192);
    assert_eq!(source.coalesce_config, Some(coalesce));
    assert!(source.hedge_config.is_none() && source.stats.is_none());
    let plan = source.plan(7, 5, true);
    assert_eq!(plan.range, 7..12);
    assert_eq!(plan.hedge_delay_nanos, None);

    let wider = CoalesceConfig { distance: 20, max_size: 200 };
    let source = source
        .with_concurrency(3)
        .with_coalesce_config(wider)
        .with_hedge_config(HEDGE)
        .with_stats(());
    assert_eq!(source.concurrency(), 3);
    assert_eq!(source.coalesce_config(), Some(wider));
    assert_eq!(source.stats, Some(()));
    assert_eq!(source.plan(7, 5, true).hedge_delay_nanos, Some(1_000));
    assert_eq!(source.plan(7, 5, false).hedge_delay_nanos, None);
    assert_eq!(source.plan(7, 9, true).hedge_delay_nanos, None);
}

#[test]
fn stream_gives_the_range() {
    let mut buffer = RangeBuffer::with_length(5);
    buffer.push(b"st").unwrap();
    buffer.push(b"").unwrap();
    buffer.push(b"ore").unwrap();
    assert_eq!(buffer.finish().unwrap(), b"store");
}

#[test]
fn stream_with_too_many_bytes_is_refused() {
    let mut buffer = RangeBuffer::with_length(5);
    buffer.push(b"sto").unwrap();
    assert_eq!(
        buffer.push(b"re!").err(),
        Some(VortexError::StreamTooLong { returned: 6, expected: 5 })
    );
}

#[test]
fn stream_with_too_few_bytes_is_refused() {
    let mut buffer = RangeBuffer::with_length(5);
    buffer.push(b"sto").unwrap();
    assert_eq!(
        buffer.finish().err(),
        Some(VortexError::StreamLength { returned: 3, expected: 5 })
    );
}

#[test]
fn maxima_do_not_depend_on_the_order() {
    let lengths = [3usize, 9, 1, 9, 4];
    let mut forwards = ObjectStoreReadStats::default();
    let mut backwards = ObjectStoreReadStats::default();
    let mut highest = 0;
    for i in 0..lengths.len() {
        forwards.record_start(lengths[i], false);
        backwards.record_start(lengths[lengths.len() - 1 - i], false);
        assert!(forwards.snapshot().max_bytes_started >= highest);
        highest = forwards.snapshot().max_bytes_started;
    }
    assert_eq!(forwards.snapshot().max_bytes_started, 9);
    assert_eq!(backwards.snapshot(), forwards.snapshot());
}
