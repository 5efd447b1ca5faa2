use telemetry::acquisition::after_read_failure;
use telemetry::breaker::Check;

#[test]
fn over_budget_after_exactly_ceiling_errors() {
    let mut c = Check::new(20, 1000);
    for i in 0..19 {
        c.error();
        assert_eq!(c.errors(), i + 1);
        assert!(!c.is_limit());
    }
    c.error();
    assert!(c.is_limit());
    assert_eq!(c.errors(), 20);
}

#[test]
fn window_reset_restores_budget() {
    let mut c = Check::new(3, 1000);
    c.error();
    c.error();
    c.error();
    assert!(c.is_limit());
    assert!(!c.tick(1059));
    assert!(c.is_limit());
    assert!(c.tick(1060));
    assert_eq!(c.errors(), 0);
    assert!(!c.is_limit());
    c.error();
    assert!(!c.tick(1100));
    assert!(c.tick(1120));
    assert_eq!(c.errors(), 0);
}

#[test]
fn clock_going_back_starts_new_window() {
    let mut c = Check::new(2, 1000);
    c.error();
    c.error();
    assert!(c.is_limit());
    assert!(c.tick(10));
    assert_eq!(c.errors(), 0);
    assert!(!c.tick(69));
    assert!(c.tick(70));
}

#[test]
fn breaker_on_device_clock() {
    let mut c = Check::starting_now(1);
    assert_eq!(c.errors(), 0);
    c.error();
    assert!(c.is_limit());
    assert!(!c.tick_now());
    assert!(c.is_limit());
}

#[test]
fn zero_ceiling_is_always_over_budget() {
    let c = Check::new(0, 0);
    assert!(c.is_limit());
}

#[test]
fn read_failure_asks_for_reinit_at_ceiling() {
    let mut c = Check::new(2, 0);
    assert!(!after_read_failure(&mut c));
    assert!(after_read_failure(&mut c));
    assert!(after_read_failure(&mut c));
    assert!(c.tick(60));
    assert!(!after_read_failure(&mut c));
}
