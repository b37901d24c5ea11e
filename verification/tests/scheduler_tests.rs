use cloudwatch_output_redirector::buffer::LogBuffer;
use cloudwatch_output_redirector::event::LogEvent;
use cloudwatch_output_redirector::scheduler::{
    FlushScheduler, Phase, PublishOutcome, SchedulerAction, SchedulerEvent, Severity,
    ShutdownSignal, FLUSH_INTERVAL_MILLIS, LARGE_BATCH_EVENTS,
};

fn draining(skip_wait: bool) -> FlushScheduler {
    FlushScheduler { phase: Phase::Draining, skip_wait }
}

#[test]
fn flush_interval_is_a_quarter_of_a_second() {
    assert_eq!(FLUSH_INTERVAL_MILLIS, 250);
}

#[test]
fn new_scheduler_waits_for_the_tick() {
    let scheduler = FlushScheduler::new();
    assert_eq!(scheduler.phase, Phase::Waiting);
    assert!(!scheduler.skip_wait);
    assert_eq!(scheduler.pending_action(), SchedulerAction::AwaitTick);
}

#[test]
fn tick_starts_the_extraction() {
    let mut scheduler = FlushScheduler::new();
    assert_eq!(scheduler.step(SchedulerEvent::Tick), SchedulerAction::Extract);
    assert_eq!(scheduler.phase, Phase::Draining);
    assert_eq!(scheduler.pending_action(), SchedulerAction::Extract);
}

#[test]
fn batch_of_101_events_skips_the_next_wait() {
    let mut buffer = LogBuffer::new();
    for i in 0..101 {
        buffer.add_event(LogEvent { message: b"line".to_vec(), timestamp: i });
    }
    let mut scheduler = FlushScheduler::new();
    assert_eq!(scheduler.step(SchedulerEvent::Tick), SchedulerAction::Extract);
    let batch = buffer.get_subset_to_publish();
    assert_eq!(batch.len(), 101);
    let action = scheduler.step(SchedulerEvent::Extracted { len: batch.len(), shutdown: false });
    assert_eq!(action, SchedulerAction::Publish);
    assert!(scheduler.skip_wait);
    let next = scheduler.step(SchedulerEvent::Published(PublishOutcome::Accepted));
    assert_eq!(next, SchedulerAction::Extract);
    assert_eq!(scheduler.phase, Phase::Draining);
}

#[test]
fn batch_of_exactly_100_events_is_not_large() {
    assert_eq!(LARGE_BATCH_EVENTS, 100);
    let mut scheduler = draining(false);
    let action = scheduler.step(SchedulerEvent::Extracted { len: 100, shutdown: false });
    assert_eq!(action, SchedulerAction::Publish);
    assert!(!scheduler.skip_wait);
    let next = scheduler.step(SchedulerEvent::Published(PublishOutcome::Accepted));
    assert_eq!(next, SchedulerAction::AwaitTick);
    assert_eq!(scheduler.phase, Phase::Waiting);
}

#[test]
fn empty_batch_with_shutdown_raised_terminates() {
    let mut buffer = LogBuffer::new();
    let mut signal = ShutdownSignal::new();
    assert!(!signal.is_raised());
    signal.raise();
    assert!(signal.is_raised());
    let mut scheduler = FlushScheduler::new();
    assert_eq!(scheduler.step(SchedulerEvent::Tick), SchedulerAction::Extract);
    let batch = buffer.get_subset_to_publish();
    let action =
        scheduler.step(SchedulerEvent::Extracted { len: batch.len(), shutdown: signal.is_raised() });
    assert_eq!(action, SchedulerAction::Stop);
    assert_eq!(scheduler.phase, Phase::Terminated);
}

#[test]
fn shutdown_signal_stays_raised() {
    let mut signal = ShutdownSignal::new();
    signal.raise();
    signal.raise();
    assert!(signal.is_raised());
}

#[test]
fn empty_batch_without_shutdown_clears_the_flag_and_waits() {
    let mut scheduler = draining(true);
    let action = scheduler.step(SchedulerEvent::Extracted { len: 0, shutdown: false });
    assert_eq!(action, SchedulerAction::AwaitTick);
    assert_eq!(scheduler, FlushScheduler { phase: Phase::Waiting, skip_wait: false });
}

#[test]
fn shutdown_does_not_stop_the_loop_while_batches_have_events() {
    let mut scheduler = draining(false);
    let action = scheduler.step(SchedulerEvent::Extracted { len: 3, shutdown: true });
    assert_eq!(action, SchedulerAction::Publish);
    assert_eq!(scheduler.phase, Phase::Draining);
    scheduler.step(SchedulerEvent::Published(PublishOutcome::Accepted));
    scheduler.step(SchedulerEvent::Tick);
    let last = scheduler.step(SchedulerEvent::Extracted { len: 0, shutdown: true });
    assert_eq!(last, SchedulerAction::Stop);
}

#[test]
fn flag_stays_set_over_a_small_batch_until_an_empty_one() {
    let mut scheduler = draining(false);
    scheduler.step(SchedulerEvent::Extracted { len: 500, shutdown: false });
    assert_eq!(
        scheduler.step(SchedulerEvent::Published(PublishOutcome::Accepted)),
        SchedulerAction::Extract
    );
    assert_eq!(
        scheduler.step(SchedulerEvent::Extracted { len: 20, shutdown: false }),
        SchedulerAction::Publish
    );
    assert!(scheduler.skip_wait);
    assert_eq!(
        scheduler.step(SchedulerEvent::Published(PublishOutcome::Accepted)),
        SchedulerAction::Extract
    );
    assert_eq!(
        scheduler.step(SchedulerEvent::Extracted { len: 0, shutdown: false }),
        SchedulerAction::AwaitTick
    );
    assert!(!scheduler.skip_wait);
}

#[test]
fn failed_publish_is_not_retried() {
    for outcome in [PublishOutcome::Accepted, PublishOutcome::PartiallyRejected, PublishOutcome::Failed] {
        let mut scheduler = draining(false);
        scheduler.step(SchedulerEvent::Extracted { len: 5, shutdown: false });
        let action = scheduler.step(SchedulerEvent::Published(outcome));
        assert_eq!(action, SchedulerAction::AwaitTick);
        assert_eq!(scheduler, FlushScheduler { phase: Phase::Waiting, skip_wait: false });
    }
}

#[test]
fn terminated_is_absorbing() {
    let events = [
        SchedulerEvent::Tick,
        SchedulerEvent::Extracted { len: 0, shutdown: false },
        SchedulerEvent::Extracted { len: 500, shutdown: true },
        SchedulerEvent::Published(PublishOutcome::Failed),
    ];
    for event in events {
        let mut scheduler = FlushScheduler { phase: Phase::Terminated, skip_wait: true };
        assert_eq!(scheduler.step(event), SchedulerAction::Stop);
        assert_eq!(scheduler, FlushScheduler { phase: Phase::Terminated, skip_wait: true });
        assert_eq!(scheduler.pending_action(), SchedulerAction::Stop);
    }
}

#[test]
fn empty_batch_with_shutdown_terminates_a_waiting_scheduler_too() {
    let mut scheduler = FlushScheduler::new();
    let action = scheduler.step(SchedulerEvent::Extracted { len: 0, shutdown: true });
    assert_eq!(action, SchedulerAction::Stop);
    assert_eq!(scheduler.phase, Phase::Terminated);
}

#[test]
fn unexpected_events_change_nothing() {
    let mut waiting = FlushScheduler::new();
    assert_eq!(
        waiting.step(SchedulerEvent::Published(PublishOutcome::Accepted)),
        SchedulerAction::AwaitTick
    );
    assert_eq!(waiting, FlushScheduler::new());
    let mut busy = draining(true);
    assert_eq!(busy.step(SchedulerEvent::Tick), SchedulerAction::Extract);
    assert_eq!(busy, draining(true));
}

#[test]
fn severity_of_each_publish_outcome() {
    assert_eq!(PublishOutcome::Accepted.severity(), None);
    assert_eq!(PublishOutcome::PartiallyRejected.severity(), Some(Severity::Warning));
    assert_eq!(PublishOutcome::Failed.severity(), Some(Severity::Error));
}
