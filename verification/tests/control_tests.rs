use droplet_dns::control::{Controller, Directive, Phase};

const HOUR: u64 = 3600;

#[test]
fn the_first_cycle_runs_at_once() {
    let c = Controller::new(HOUR);
    assert!(matches!(c.directive(0), Directive::RunCycle));
}

#[test]
fn a_failed_first_cycle_exits_before_any_schedule() {
    let mut c = Controller::new(HOUR);
    assert!(matches!(c.directive(0), Directive::RunCycle));
    c.cycle_finished(3, false);
    assert!(matches!(c.phase, Phase::Halted));
    assert!(matches!(c.directive(3), Directive::Exit));
    assert!(matches!(c.directive(3 + HOUR), Directive::Exit));
}

#[test]
fn a_successful_first_cycle_enters_the_schedule() {
    let mut c = Controller::new(HOUR);
    c.cycle_finished(10, true);
    assert!(matches!(c.phase, Phase::Scheduled));
    assert_eq!(c.next_due, 10 + HOUR);
    assert!(matches!(c.directive(10), Directive::Sleep));
    assert!(matches!(c.directive(10 + HOUR - 1), Directive::Sleep));
    assert!(matches!(c.directive(10 + HOUR), Directive::RunCycle));
}

#[test]
fn a_failed_scheduled_cycle_keeps_the_loop_running() {
    let mut c = Controller::new(HOUR);
    c.cycle_finished(0, true);
    c.cycle_finished(HOUR, false);
    assert!(matches!(c.phase, Phase::Scheduled));
    assert_eq!(c.next_due, 2 * HOUR);
    assert!(matches!(c.directive(2 * HOUR - 1), Directive::Sleep));
    assert!(matches!(c.directive(2 * HOUR), Directive::RunCycle));
}

#[test]
fn every_cycle_is_scheduled_one_period_out() {
    let mut c = Controller::new(HOUR);
    c.cycle_finished(0, true);
    for n in 1..5u64 {
        assert!(matches!(c.directive(n * HOUR), Directive::RunCycle));
        c.cycle_finished(n * HOUR, n % 2 == 0);
        assert_eq!(c.next_due, (n + 1) * HOUR);
    }
}

#[test]
fn the_next_due_time_does_not_wrap_the_clock() {
    let mut c = Controller::new(HOUR);
    c.cycle_finished(u64::MAX - 5, true);
    assert_eq!(c.next_due, u64::MAX);
}
