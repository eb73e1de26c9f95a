use food_aggregator::clock::{instant_after, run_gate, run_gate_now, RunGate, COOLDOWN_MILLIS};
use food_aggregator::scheduler::{Scheduler, SchedulerAction};
use food_aggregator::{AggregateStatus, AggregatorError};

const DAY: i64 = 24 * 60 * 60 * 1000;

#[test]
fn cooldown_is_thirty_days() {
    assert_eq!(COOLDOWN_MILLIS, 2_592_000_000);
}

#[test]
fn gate_runs_without_watermark() {
    assert_eq!(run_gate(None, 0), RunGate::Run);
    assert_eq!(run_gate_now(None), RunGate::Run);
}

#[test]
fn gate_defers_within_cooldown() {
    let now = 1_700_000_000_000;
    let last = now - 10 * DAY;
    assert_eq!(run_gate(Some(last), now), RunGate::DeferUntil(now + 20 * DAY));
}

#[test]
fn gate_runs_after_cooldown() {
    let last = 1_700_000_000_000;
    assert_eq!(run_gate(Some(last), last + 30 * DAY), RunGate::Run);
    assert_eq!(run_gate(Some(last), last + 30 * DAY - 1), RunGate::DeferUntil(last + 30 * DAY));
}

#[test]
fn gate_deferral_saturates() {
    assert_eq!(run_gate(Some(i64::MAX - 1), i64::MAX), RunGate::DeferUntil(i64::MAX));
}

#[test]
fn gate_now_defers_a_future_watermark() {
    let far = i64::MAX / 2;
    assert_eq!(run_gate_now(Some(far)), RunGate::DeferUntil(far + COOLDOWN_MILLIS));
}

#[test]
fn instant_after_adds_and_clamps() {
    assert_eq!(instant_after(1_000, 500), 1_500);
    assert_eq!(instant_after(-1_000, 500), -500);
    assert_eq!(instant_after(i64::MAX - 1, 10), i64::MAX);
    assert_eq!(instant_after(i64::MIN, u64::MAX as u128), i64::MAX);
}

#[test]
fn scheduler_exits_when_idle() {
    let mut s = Scheduler::new();
    assert_eq!(s.next_action(0), SchedulerAction::Exit);
}

#[test]
fn scheduler_starts_earliest_first() {
    let mut s = Scheduler::new();
    s.push(0, 300);
    s.push(1, 100);
    s.push(2, 200);
    assert_eq!(s.next_action(50), SchedulerAction::SleepUntil(100));
    assert_eq!(s.next_action(1_000), SchedulerAction::Start(1));
    assert_eq!(s.next_action(1_000), SchedulerAction::Start(2));
    assert_eq!(s.next_action(1_000), SchedulerAction::Start(0));
    assert_eq!(s.next_action(1_000), SchedulerAction::AwaitCompletion);
}

#[test]
fn scheduler_ties_go_in_insertion_order() {
    let mut s = Scheduler::new();
    s.push(4, 100);
    s.push(5, 100);
    assert_eq!(s.next_action(100), SchedulerAction::Start(4));
    assert_eq!(s.next_action(100), SchedulerAction::Start(5));
}

#[test]
fn deferred_aggregator_is_requeued() {
    let mut s = Scheduler::new();
    s.push(0, 0);
    assert_eq!(s.next_action(0), SchedulerAction::Start(0));
    s.complete(0, &Ok(AggregateStatus::PendingUntil(1_800_000)));
    assert_eq!(s.next_action(10), SchedulerAction::SleepUntil(1_800_000));
    assert_eq!(s.next_action(1_800_000), SchedulerAction::Start(0));
    s.complete(0, &Ok(AggregateStatus::Finished));
    assert_eq!(s.next_action(1_800_001), SchedulerAction::Exit);
    assert!(s.all_succeeded());
}

#[test]
fn failed_run_is_dropped_and_remembered() {
    let mut s = Scheduler::new();
    s.push(0, 0);
    assert_eq!(s.next_action(0), SchedulerAction::Start(0));
    s.complete(0, &Err(AggregatorError::Database("connection lost".to_string())));
    assert_eq!(s.next_action(0), SchedulerAction::Exit);
    assert!(!s.all_succeeded());
}
