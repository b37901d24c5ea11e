//! The flush cycle as a state machine: the loop around it performs each action and
//! hands back the event that followed.

use vstd::prelude::*;

verus! {

/// The time between two ticks of the flush interval, in milliseconds.
pub const FLUSH_INTERVAL_MILLIS: u64 = 250;

/// A batch with more events than this marks the next cycle to skip its wait.
pub const LARGE_BATCH_EVENTS: usize = 100;

/// The signal that no producer remains. It starts out lowered and, once raised,
/// stays raised.
#[derive(Debug)]
pub struct ShutdownSignal {
    raised: bool,
}

impl ShutdownSignal {
    /// Whether the signal has been raised.
    pub closed spec fn raised(&self) -> bool {
        self.raised
    }

    /// A lowered signal.
    pub fn new() -> (signal: Self)
        ensures
            !signal.raised(),
    {
        ShutdownSignal { raised: false }
    }

    /// Raises the signal.
    pub fn raise(&mut self)
        ensures
            final(self).raised(),
    {
        self.raised = true;
    }

    /// Whether the signal has been raised.
    pub fn is_raised(&self) -> (raised: bool)
        ensures
            raised == self.raised(),
    {
        self.raised
    }
}

/// Where the flush cycle stands.
#[derive(Clone, Copy, Debug, PartialEq, Eq, Structural)]
pub enum Phase {
    /// Before the extraction of a cycle: waiting for the tick.
    Waiting,
    /// Between the start of an extraction and the end of its publish.
    Draining,
    /// The loop has ended.
    Terminated,
}

/// How a publish request ended.
#[derive(Clone, Copy, Debug, PartialEq, Eq, Structural)]
pub enum PublishOutcome {
    /// The sink took every event.
    Accepted,
    /// The sink took the request and reported rejected events.
    PartiallyRejected,
    /// The request failed.
    Failed,
}

/// What a publish outcome leaves in the log.
#[derive(Clone, Copy, Debug, PartialEq, Eq, Structural)]
pub enum Severity {
    Warning,
    Error,
}

/// What happened since the last action.
#[derive(Clone, Copy, Debug, PartialEq, Eq, Structural)]
pub enum SchedulerEvent {
    /// The interval ticked.
    Tick,
    /// A batch of `len` events was extracted; `shutdown` is the shutdown signal as
    /// read after the extraction.
    Extracted { len: usize, shutdown: bool },
    /// The publish of the extracted batch ended.
    Published(PublishOutcome),
}

/// What the loop does next.
#[derive(Clone, Copy, Debug, PartialEq, Eq, Structural)]
pub enum SchedulerAction {
    /// Wait for the next tick of the interval.
    AwaitTick,
    /// Extract a batch from the buffer, then read the shutdown signal.
    Extract,
    /// Send the extracted batch to the sink as one request.
    Publish,
    /// Leave the loop.
    Stop,
}

/// The state of the flush cycle.
#[derive(Clone, Copy, Debug, PartialEq, Eq, Structural)]
pub struct FlushScheduler {
    /// Where the cycle stands.
    pub phase: Phase,
    /// Whether the cycle that follows the current one skips its wait.
    pub skip_wait: bool,
}

/// What the loop does in a phase when nothing that the phase reacts to has happened.
pub open spec fn resting_action(phase: Phase) -> SchedulerAction {
    match phase {
        Phase::Waiting => SchedulerAction::AwaitTick,
        Phase::Draining => SchedulerAction::Extract,
        Phase::Terminated => SchedulerAction::Stop,
    }
}

/// The state and the action that follow an event.
///
/// - Once terminated, the scheduler stays terminated and the action is to stop.
/// - A tick moves a waiting scheduler to draining: extract.
/// - An empty batch with the shutdown signal raised terminates the loop; with the
///   signal lowered it clears the skip flag and the scheduler waits for the tick.
/// - A batch with events is published; one with more than `LARGE_BATCH_EVENTS` events
///   sets the skip flag, a smaller one leaves the flag as it is.
/// - When the publish has ended, whatever its outcome, the batch is done with: the
///   next extraction follows at once where the skip flag is set, and after the
///   next tick where it is not.
/// - Any other event changes nothing.
pub open spec fn transition(state: FlushScheduler, event: SchedulerEvent) -> (
    FlushScheduler,
    SchedulerAction,
) {
    match (state.phase, event) {
        (Phase::Terminated, _) => (state, SchedulerAction::Stop),
        (Phase::Waiting, SchedulerEvent::Tick) => (
            FlushScheduler { phase: Phase::Draining, skip_wait: state.skip_wait },
            SchedulerAction::Extract,
        ),
        (_, SchedulerEvent::Extracted { len, shutdown }) => {
            if len == 0 && shutdown {
                (
                    FlushScheduler { phase: Phase::Terminated, skip_wait: state.skip_wait },
                    SchedulerAction::Stop,
                )
            } else if len == 0 {
                (
                    FlushScheduler { phase: Phase::Waiting, skip_wait: false },
                    SchedulerAction::AwaitTick,
                )
            } else {
                (
                    FlushScheduler {
                        phase: Phase::Draining,
                        skip_wait: state.skip_wait || len > LARGE_BATCH_EVENTS,
                    },
                    SchedulerAction::Publish,
                )
            }
        },
        (Phase::Draining, SchedulerEvent::Published(_)) => {
            if state.skip_wait {
                (state, SchedulerAction::Extract)
            } else {
                (
                    FlushScheduler { phase: Phase::Waiting, skip_wait: false },
                    SchedulerAction::AwaitTick,
                )
            }
        },
        _ => (state, resting_action(state.phase)),
    }
}

impl FlushScheduler {
    /// A scheduler at the start of its loop: waiting, with the skip flag cleared.
    pub fn new() -> (scheduler: Self)
        ensures
            scheduler.phase == Phase::Waiting,
            !scheduler.skip_wait,
    {
        FlushScheduler { phase: Phase::Waiting, skip_wait: false }
    }

    /// The action with which the loop starts or resumes in the current phase.
    pub fn pending_action(&self) -> (action: SchedulerAction)
        ensures
            action == resting_action(self.phase),
    {
        match self.phase {
            Phase::Waiting => SchedulerAction::AwaitTick,
            Phase::Draining => SchedulerAction::Extract,
            Phase::Terminated => SchedulerAction::Stop,
        }
    }

    /// Takes in an event and says what the loop does next.
    pub fn step(&mut self, event: SchedulerEvent) -> (action: SchedulerAction)
        ensures
            (*final(self), action) == transition(*old(self), event),
    {
        match self.phase {
            Phase::Terminated => SchedulerAction::Stop,
            Phase::Waiting | Phase::Draining => {
                match event {
                    SchedulerEvent::Extracted { len, shutdown } => {
                        if len == 0 && shutdown {
                            self.phase = Phase::Terminated;
                            SchedulerAction::Stop
                        } else if len == 0 {
                            self.phase = Phase::Waiting;
                            self.skip_wait = false;
                            SchedulerAction::AwaitTick
                        } else {
                            self.phase = Phase::Draining;
                            if len > LARGE_BATCH_EVENTS {
                                self.skip_wait = true;
                            }
                            SchedulerAction::Publish
                        }
                    },
                    SchedulerEvent::Tick => {
                        self.phase = Phase::Draining;
                        SchedulerAction::Extract
                    },
                    SchedulerEvent::Published(_) => {
                        match self.phase {
                            Phase::Draining => {
                                if self.skip_wait {
                                    SchedulerAction::Extract
                                } else {
                                    self.phase = Phase::Waiting;
                                    SchedulerAction::AwaitTick
                                }
                            },
                            _ => SchedulerAction::AwaitTick,
                        }
                    },
                }
            },
        }
    }
}

impl PublishOutcome {
    /// What the outcome leaves in the log: nothing where every event was taken, a
    /// warning where the sink rejected events, an error where the request failed.
    pub fn severity(&self) -> (severity: Option<Severity>)
        ensures
            severity == match *self {
                PublishOutcome::Accepted => None::<Severity>,
                PublishOutcome::PartiallyRejected => Some(Severity::Warning),
                PublishOutcome::Failed => Some(Severity::Error),
            },
    {
        match self {
            PublishOutcome::Accepted => None,
            PublishOutcome::PartiallyRejected => Some(Severity::Warning),
            PublishOutcome::Failed => Some(Severity::Error),
        }
    }
}

/// The loop ends in one way only: a scheduler that has not terminated terminates
/// exactly on an empty batch with the shutdown signal raised.
pub proof fn lemma_termination(state: FlushScheduler, event: SchedulerEvent)
    requires
        state.phase != Phase::Terminated,
    ensures
        transition(state, event).0.phase == Phase::Terminated <==> event
            == (SchedulerEvent::Extracted { len: 0, shutdown: true }),
        transition(state, event).1 == SchedulerAction::Stop <==> transition(state, event).0.phase
            == Phase::Terminated,
{
}

/// A batch is published once: whatever the outcome of its publish, the action that
/// follows is never to publish, and the state that follows does not depend on the
/// outcome.
pub proof fn lemma_no_retry(state: FlushScheduler, first: PublishOutcome, second: PublishOutcome)
    ensures
        transition(state, SchedulerEvent::Published(first)).1 != SchedulerAction::Publish,
        transition(state, SchedulerEvent::Published(first)) == transition(
            state,
            SchedulerEvent::Published(second),
        ),
{
}

} // verus!
