use oracles::purger::config::PurgerConfig;
use oracles::purger::scheduler::{Scheduler, SchedulerAction, SchedulerEvent, SchedulerState};

fn scheduler() -> Scheduler {
    Scheduler::new(&PurgerConfig::new(0).unwrap())
}

#[test]
fn starts_idle_with_the_reference_cadence() {
    let scheduler = scheduler();
    assert_eq!(scheduler.state(), SchedulerState::Idle);
    assert_eq!(scheduler.poll_interval(), 2100);
    assert!(!scheduler.is_terminal());
    let fast = Scheduler::new(&PurgerConfig::with_limits(0, 5, 1).unwrap());
    assert_eq!(fast.poll_interval(), 5);
}

#[test]
fn each_tick_starts_one_pass() {
    let mut scheduler = scheduler();
    for _ in 0..3 {
        assert_eq!(scheduler.handle(SchedulerEvent::Tick), SchedulerAction::StartPass);
        assert_eq!(scheduler.state(), SchedulerState::Running);
        assert_eq!(scheduler.handle(SchedulerEvent::PassCompleted), SchedulerAction::Wait);
        assert_eq!(scheduler.state(), SchedulerState::Idle);
    }
}

#[test]
fn ticks_during_a_pass_are_dropped_not_queued() {
    let mut scheduler = scheduler();
    assert_eq!(scheduler.handle(SchedulerEvent::Tick), SchedulerAction::StartPass);
    assert_eq!(scheduler.handle(SchedulerEvent::Tick), SchedulerAction::Skip);
    assert_eq!(scheduler.handle(SchedulerEvent::Tick), SchedulerAction::Skip);
    assert_eq!(scheduler.state(), SchedulerState::Running);
    // The missed ticks start nothing once the pass has returned.
    assert_eq!(scheduler.handle(SchedulerEvent::PassCompleted), SchedulerAction::Wait);
    assert_eq!(scheduler.state(), SchedulerState::Idle);
    assert_eq!(scheduler.handle(SchedulerEvent::Tick), SchedulerAction::StartPass);
}

#[test]
fn shutdown_while_idle_exits_at_once() {
    let mut scheduler = scheduler();
    assert_eq!(scheduler.handle(SchedulerEvent::Shutdown), SchedulerAction::Exit);
    assert_eq!(scheduler.state(), SchedulerState::Stopped);
    assert!(scheduler.is_terminal());
    assert_eq!(scheduler.handle(SchedulerEvent::Tick), SchedulerAction::Skip);
    assert_eq!(scheduler.handle(SchedulerEvent::Shutdown), SchedulerAction::Skip);
    assert_eq!(scheduler.state(), SchedulerState::Stopped);
}

#[test]
fn shutdown_during_a_pass_waits_for_the_pass() {
    let mut scheduler = scheduler();
    scheduler.handle(SchedulerEvent::Tick);
    assert_eq!(scheduler.handle(SchedulerEvent::Shutdown), SchedulerAction::SignalPass);
    assert_eq!(scheduler.state(), SchedulerState::ShuttingDown);
    assert!(!scheduler.is_terminal());
    assert_eq!(scheduler.handle(SchedulerEvent::Shutdown), SchedulerAction::Skip);
    assert_eq!(scheduler.handle(SchedulerEvent::Tick), SchedulerAction::Skip);
    assert_eq!(scheduler.handle(SchedulerEvent::PassCompleted), SchedulerAction::Exit);
    assert_eq!(scheduler.state(), SchedulerState::Stopped);
}

#[test]
fn failed_pass_is_fatal() {
    let mut scheduler = scheduler();
    scheduler.handle(SchedulerEvent::Tick);
    assert_eq!(scheduler.handle(SchedulerEvent::PassFailed), SchedulerAction::Abort);
    assert_eq!(scheduler.state(), SchedulerState::Failed);
    assert!(scheduler.is_terminal());
    assert_eq!(scheduler.handle(SchedulerEvent::Tick), SchedulerAction::Skip);

    let mut scheduler = self::scheduler();
    scheduler.handle(SchedulerEvent::Tick);
    scheduler.handle(SchedulerEvent::Shutdown);
    assert_eq!(scheduler.handle(SchedulerEvent::PassFailed), SchedulerAction::Abort);
    assert_eq!(scheduler.state(), SchedulerState::Failed);
}

#[test]
fn pass_results_without_a_pass_are_dropped() {
    let mut scheduler = scheduler();
    assert_eq!(scheduler.handle(SchedulerEvent::PassCompleted), SchedulerAction::Skip);
    assert_eq!(scheduler.handle(SchedulerEvent::PassFailed), SchedulerAction::Skip);
    assert_eq!(scheduler.state(), SchedulerState::Idle);
}
