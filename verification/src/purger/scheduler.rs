//! The poll loop of the purger as a state machine.
//!
//! The scheduler starts one pass per tick of a fixed-interval timer. A tick
//! that fires while a pass is running is dropped, not queued, so passes never
//! pile up and never overlap. A shutdown request ends the loop: at once when
//! no pass is running, else as soon as the running pass has returned. A pass
//! that fails is fatal and ends the loop with an error.
//!
//! Like a pass, the scheduler performs no input or output: the caller owns
//! the timer and the shutdown signal and reports them as
//! [`SchedulerEvent`]s.

use super::config::PurgerConfig;
use vstd::prelude::*;

verus! {

/// Where the poll loop stands.
#[derive(Clone, Copy, Debug, PartialEq, Eq, Structural)]
pub enum SchedulerState {
    /// Waiting for the next tick.
    Idle,
    /// A pass is running.
    Running,
    /// A pass is running and shutdown was requested: the loop ends when the
    /// pass returns.
    ShuttingDown,
    /// The loop has ended on a shutdown request.
    Stopped,
    /// The loop has ended on a failed pass.
    Failed,
}

/// What the caller reports to the scheduler.
#[derive(Clone, Copy, Debug, PartialEq, Eq, Structural)]
pub enum SchedulerEvent {
    /// The poll timer fired.
    Tick,
    /// Shutdown was requested.
    Shutdown,
    /// The running pass has run to its end.
    PassCompleted,
    /// The running pass was abandoned: it could not list the stale records.
    PassFailed,
}

/// What the scheduler asks its caller to do.
#[derive(Clone, Copy, Debug, PartialEq, Eq, Structural)]
pub enum SchedulerAction {
    /// Nothing: the event is dropped.
    Skip,
    /// Start a pass.
    StartPass,
    /// Tell the running pass that shutdown was requested, and let it return.
    SignalPass,
    /// Wait for the next tick or for shutdown.
    Wait,
    /// Leave the loop: the purger stopped as asked.
    Exit,
    /// Leave the loop with the error of the failed pass.
    Abort,
}

impl SchedulerState {
    /// The loop has ended.
    pub open spec fn is_terminal(self) -> bool {
        self == SchedulerState::Stopped || self == SchedulerState::Failed
    }

    /// A pass is running.
    pub open spec fn is_running(self) -> bool {
        self == SchedulerState::Running || self == SchedulerState::ShuttingDown
    }

    /// Shutdown was requested or the loop has ended: no pass will start.
    pub open spec fn is_closing(self) -> bool {
        self == SchedulerState::ShuttingDown || self.is_terminal()
    }
}

/// The transition function of the scheduler: the state after `event` and the
/// action taken in answer to it.
pub open spec fn scheduler_step(state: SchedulerState, event: SchedulerEvent) -> (
    SchedulerState,
    SchedulerAction,
) {
    match (state, event) {
        (SchedulerState::Idle, SchedulerEvent::Tick) => (
            SchedulerState::Running,
            SchedulerAction::StartPass,
        ),
        (SchedulerState::Idle, SchedulerEvent::Shutdown) => (
            SchedulerState::Stopped,
            SchedulerAction::Exit,
        ),
        (SchedulerState::Running, SchedulerEvent::Shutdown) => (
            SchedulerState::ShuttingDown,
            SchedulerAction::SignalPass,
        ),
        (SchedulerState::Running, SchedulerEvent::PassCompleted) => (
            SchedulerState::Idle,
            SchedulerAction::Wait,
        ),
        (SchedulerState::Running, SchedulerEvent::PassFailed) => (
            SchedulerState::Failed,
            SchedulerAction::Abort,
        ),
        (SchedulerState::ShuttingDown, SchedulerEvent::PassCompleted) => (
            SchedulerState::Stopped,
            SchedulerAction::Exit,
        ),
        (SchedulerState::ShuttingDown, SchedulerEvent::PassFailed) => (
            SchedulerState::Failed,
            SchedulerAction::Abort,
        ),
        (state, _) => (state, SchedulerAction::Skip),
    }
}

/// The poll loop of one purger.
#[derive(Clone, Copy, Debug)]
pub struct Scheduler {
    state: SchedulerState,
    poll_interval: u64,
}

impl View for Scheduler {
    type V = SchedulerState;

    closed spec fn view(&self) -> SchedulerState {
        self.state
    }
}

impl Scheduler {
    /// The seconds between two ticks.
    pub closed spec fn spec_poll_interval(&self) -> u64 {
        self.poll_interval
    }

    /// A loop that waits for its first tick.
    pub fn new(config: &PurgerConfig) -> (scheduler: Scheduler)
        ensures
            scheduler@ == SchedulerState::Idle,
            scheduler.spec_poll_interval() == config.spec_poll_interval(),
    {
        Scheduler { state: SchedulerState::Idle, poll_interval: config.poll_interval() }
    }

    /// The seconds between two ticks.
    #[verifier::when_used_as_spec(spec_poll_interval)]
    pub fn poll_interval(&self) -> (seconds: u64)
        ensures
            seconds == self.spec_poll_interval(),
    {
        self.poll_interval
    }

    /// Where the loop stands.
    pub fn state(&self) -> (state: SchedulerState)
        ensures
            state == self@,
    {
        self.state
    }

    /// Whether the loop has ended.
    pub fn is_terminal(&self) -> (ended: bool)
        ensures
            ended == self@.is_terminal(),
    {
        self.state == SchedulerState::Stopped || self.state == SchedulerState::Failed
    }

    /// Takes in what happened and answers with what to do next: the
    /// transition [`scheduler_step`].
    pub fn handle(&mut self, event: SchedulerEvent) -> (action: SchedulerAction)
        ensures
            final(self)@ == scheduler_step(old(self)@, event).0,
            action == scheduler_step(old(self)@, event).1,
            final(self).spec_poll_interval() == old(self).spec_poll_interval(),
    {
        let (state, action) = match (self.state, event) {
            (SchedulerState::Idle, SchedulerEvent::Tick) => (
                SchedulerState::Running,
                SchedulerAction::StartPass,
            ),
            (SchedulerState::Idle, SchedulerEvent::Shutdown) => (
                SchedulerState::Stopped,
                SchedulerAction::Exit,
            ),
            (SchedulerState::Running, SchedulerEvent::Shutdown) => (
                SchedulerState::ShuttingDown,
                SchedulerAction::SignalPass,
            ),
            (SchedulerState::Running, SchedulerEvent::PassCompleted) => (
                SchedulerState::Idle,
                SchedulerAction::Wait,
            ),
            (SchedulerState::Running, SchedulerEvent::PassFailed) => (
                SchedulerState::Failed,
                SchedulerAction::Abort,
            ),
            (SchedulerState::ShuttingDown, SchedulerEvent::PassCompleted) => (
                SchedulerState::Stopped,
                SchedulerAction::Exit,
            ),
            (SchedulerState::ShuttingDown, SchedulerEvent::PassFailed) => (
                SchedulerState::Failed,
                SchedulerAction::Abort,
            ),
            (state, _) => (state, SchedulerAction::Skip),
        };
        self.state = state;
        action
    }
}

/// The state after `events`, taken in order from `state`.
pub open spec fn scheduler_run(state: SchedulerState, events: Seq<SchedulerEvent>) -> SchedulerState
    decreases events.len(),
{
    if events.len() == 0 {
        state
    } else {
        scheduler_step(scheduler_run(state, events.drop_last()), events.last()).0
    }
}

/// The action taken in answer to `events[i]` in the run of `events` from
/// `state`.
pub open spec fn scheduler_answer(
    state: SchedulerState,
    events: Seq<SchedulerEvent>,
    i: int,
) -> SchedulerAction {
    scheduler_step(scheduler_run(state, events.take(i)), events[i]).1
}

/// One tick, one pass: a pass starts only on a tick, only when none is
/// running and no shutdown was requested. A tick during a pass is dropped.
pub proof fn lemma_pass_starts_on_idle_tick(state: SchedulerState, event: SchedulerEvent)
    ensures
        scheduler_step(state, event).1 == SchedulerAction::StartPass <==> state
            == SchedulerState::Idle && event == SchedulerEvent::Tick,
        state.is_running() && event == SchedulerEvent::Tick ==> scheduler_step(state, event) == (
            state,
            SchedulerAction::Skip,
        ),
{
}

/// A failed pass is fatal: it ends the loop with an error, whether or not
/// shutdown was requested, and an ended loop stays ended.
pub proof fn lemma_failed_pass_is_fatal(state: SchedulerState, event: SchedulerEvent)
    ensures
        state.is_running() && event == SchedulerEvent::PassFailed ==> scheduler_step(state, event)
            == (SchedulerState::Failed, SchedulerAction::Abort),
        state.is_terminal() ==> scheduler_step(state, event) == (state, SchedulerAction::Skip),
        scheduler_step(state, event).1 == SchedulerAction::Abort ==> event
            == SchedulerEvent::PassFailed,
{
}

/// Shutdown does not abort a running pass: the loop waits for the pass to
/// return and ends then. With no pass running it ends at once.
pub proof fn lemma_shutdown_waits_for_pass(state: SchedulerState)
    ensures
        state == SchedulerState::Idle ==> scheduler_step(state, SchedulerEvent::Shutdown) == (
            SchedulerState::Stopped,
            SchedulerAction::Exit,
        ),
        state == SchedulerState::Running ==> scheduler_step(state, SchedulerEvent::Shutdown) == (
            SchedulerState::ShuttingDown,
            SchedulerAction::SignalPass,
        ),
        scheduler_step(SchedulerState::ShuttingDown, SchedulerEvent::PassCompleted) == (
            SchedulerState::Stopped,
            SchedulerAction::Exit,
        ),
{
}

/// Running one event more is one transition more.
pub proof fn lemma_scheduler_run_take(state: SchedulerState, events: Seq<SchedulerEvent>, i: int)
    requires
        0 <= i < events.len(),
    ensures
        scheduler_run(state, events.take(i + 1)) == scheduler_step(
            scheduler_run(state, events.take(i)),
            events[i],
        ).0,
{
    assert(events.take(i + 1).drop_last() =~= events.take(i));
}

/// Once shutdown was requested the loop is closing for good.
proof fn lemma_closing_persists(state: SchedulerState, events: Seq<SchedulerEvent>, i: int, j: int)
    requires
        0 <= i <= j <= events.len(),
        scheduler_run(state, events.take(i)).is_closing(),
    ensures
        scheduler_run(state, events.take(j)).is_closing(),
    decreases j - i,
{
    if i < j {
        lemma_closing_persists(state, events, i, j - 1);
        lemma_scheduler_run_take(state, events, j - 1);
    }
}

/// No new pass starts after shutdown: in no run does a pass start after a
/// shutdown request, however many ticks follow.
pub proof fn lemma_no_pass_after_shutdown(
    state: SchedulerState,
    events: Seq<SchedulerEvent>,
    i: int,
    j: int,
)
    requires
        0 <= i < j < events.len(),
        events[i] == SchedulerEvent::Shutdown,
    ensures
        scheduler_answer(state, events, j) != SchedulerAction::StartPass,
{
    lemma_scheduler_run_take(state, events, i);
    lemma_closing_persists(state, events, i + 1, j);
}

/// While no pass returns, a running pass keeps the loop from starting
/// another.
proof fn lemma_busy_persists(state: SchedulerState, events: Seq<SchedulerEvent>, i: int, j: int)
    requires
        0 <= i <= j <= events.len(),
        scheduler_run(state, events.take(i)) != SchedulerState::Idle,
        forall|h: int| i <= h < j ==> events[h] != SchedulerEvent::PassCompleted,
    ensures
        scheduler_run(state, events.take(j)) != SchedulerState::Idle,
    decreases j - i,
{
    if i < j {
        lemma_busy_persists(state, events, i, j - 1);
        lemma_scheduler_run_take(state, events, j - 1);
    }
}

/// Passes never overlap: between the starts of two passes of a run the
/// first pass has returned.
pub proof fn lemma_passes_never_overlap(
    state: SchedulerState,
    events: Seq<SchedulerEvent>,
    i: int,
    j: int,
)
    requires
        0 <= i < j < events.len(),
        scheduler_answer(state, events, i) == SchedulerAction::StartPass,
        scheduler_answer(state, events, j) == SchedulerAction::StartPass,
    ensures
        exists|h: int| i < h < j && events[h] == SchedulerEvent::PassCompleted,
{
    if forall|h: int| i < h < j ==> events[h] != SchedulerEvent::PassCompleted {
        lemma_scheduler_run_take(state, events, i);
        lemma_busy_persists(state, events, i + 1, j);
    }
}

} // verus!
