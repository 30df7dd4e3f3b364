//! The cadence of the poller and the poller itself.
use tetron_systray::environment::Environment;
use tetron_systray::ipc_client::{poll_result, PollResult, StatusReply};
use tetron_systray::poll::{
    desired_interval, interval_at, Clock, Moment, PollCmd, PollConfig, Poller, Step, Wake,
    NANOS_PER_SEC,
};

fn cfg() -> PollConfig {
    PollConfig { active: 3, idle: 300, unreachable: 30, active_window: 20 }
}

fn env(vars: &[(&str, &str)]) -> Environment {
    Environment { vars: vars.iter().map(|(n, v)| (n.to_string(), v.to_string())).collect() }
}

#[test]
fn active_window_in_future_wins_over_everything() {
    let c = cfg();
    let clock = Clock::start();
    let soon = Some(clock.now().after_secs(10));
    assert_eq!(desired_interval(&clock, soon, true, &c), c.active);
    assert_eq!(desired_interval(&clock, soon, false, &c), c.active);
}

#[test]
fn expired_or_absent_active_window_falls_back_to_reachability() {
    let c = cfg();
    let clock = Clock::start();
    let past = Some(Moment { nanos: clock.now().nanos - NANOS_PER_SEC });
    assert_eq!(desired_interval(&clock, past, true, &c), c.idle);
    assert_eq!(desired_interval(&clock, None, true, &c), c.idle);
    assert_eq!(desired_interval(&clock, past, false, &c), c.unreachable);
    assert_eq!(desired_interval(&clock, None, false, &c), c.unreachable);
}

#[test]
fn from_env_rejects_zero_and_garbage_keeps_default() {
    let e = env(&[
        ("TETRON_SYSTRAY_POLL_ACTIVE_SECS", "0"),
        ("TETRON_SYSTRAY_POLL_IDLE_SECS", "not-a-number"),
        ("TETRON_SYSTRAY_POLL_UNREACHABLE_SECS", "45"),
    ]);
    let c = PollConfig::from_env(&e);
    assert_eq!(c.active, 3, "zero -> default");
    assert_eq!(c.idle, 300, "garbage -> default");
    assert_eq!(c.unreachable, 45, "valid override honored");
}

#[test]
fn an_empty_environment_gives_the_defaults() {
    assert_eq!(PollConfig::from_env(&env(&[])), cfg());
}

#[test]
fn every_variable_sets_its_interval() {
    let e = env(&[
        ("TETRON_SYSTRAY_POLL_ACTIVE_SECS", "1"),
        ("TETRON_SYSTRAY_POLL_IDLE_SECS", "+2"),
        ("TETRON_SYSTRAY_POLL_UNREACHABLE_SECS", "003"),
        ("TETRON_SYSTRAY_MENU_ACTIVE_WINDOW_SECS", "18446744073709551615"),
    ]);
    assert_eq!(
        PollConfig::from_env(&e),
        PollConfig { active: 1, idle: 2, unreachable: 3, active_window: u64::MAX }
    );
}

#[test]
fn numbers_that_are_none_keep_the_default() {
    for bad in ["", " 5", "5 ", "-1", "1.5", "18446744073709551616", "+", "0x10", "٣"] {
        let e = env(&[("TETRON_SYSTRAY_POLL_IDLE_SECS", bad)]);
        assert_eq!(PollConfig::from_env(&e).idle, 300, "{bad:?}");
    }
}

#[test]
fn no_interval_from_the_environment_is_zero() {
    for v in ["0", "00", "+0", "7"] {
        let e = env(&[
            ("TETRON_SYSTRAY_POLL_ACTIVE_SECS", v),
            ("TETRON_SYSTRAY_POLL_IDLE_SECS", v),
            ("TETRON_SYSTRAY_POLL_UNREACHABLE_SECS", v),
            ("TETRON_SYSTRAY_MENU_ACTIVE_WINDOW_SECS", v),
        ]);
        let c = PollConfig::from_env(&e);
        assert!(c.active > 0 && c.idle > 0 && c.unreachable > 0 && c.active_window > 0);
    }
}

#[test]
fn the_window_is_open_until_its_end_and_not_at_it() {
    let c = cfg();
    let used = Moment { nanos: 7 };
    let until = Some(used.after_secs(c.active_window));
    let last = Moment { nanos: 7 + 20 * NANOS_PER_SEC - 1 };
    let end = Moment { nanos: 7 + 20 * NANOS_PER_SEC };
    assert_eq!(interval_at(used, until, true, &c), 3);
    assert_eq!(interval_at(last, until, true, &c), 3);
    assert_eq!(interval_at(end, until, true, &c), 300);
    assert_eq!(interval_at(end, until, false, &c), 30);
}

#[test]
fn a_clock_never_goes_back() {
    let clock = Clock::start();
    let a = clock.now();
    let mut b = clock.now();
    while b.nanos == a.nanos {
        b = clock.now();
    }
    assert!(0 <= a.nanos && a.nanos < b.nanos);
}

#[test]
fn a_clock_counts_from_its_own_start() {
    let first = Clock::start();
    while first.now().nanos < 1_000_000 {}
    let second = Clock::start();
    let young = second.now();
    let old = first.now();
    assert!(young.nanos < old.nanos);
    assert!(old.nanos >= 1_000_000);
}

#[test]
fn a_moment_counts_whole_seconds() {
    assert_eq!(Moment { nanos: -5 }.after_secs(2).nanos, 1_999_999_995);
    assert_eq!(Moment { nanos: 0 }.after_secs(u64::MAX).nanos, 18446744073709551615000000000);
}

#[test]
fn the_poller_waits_after_a_report_and_stops_without_a_receiver() {
    let p = Poller { interval: 300 };
    assert_eq!(p.after_report(true), Step::Wait { secs: 300 });
    assert_eq!(p.after_report(false), Step::Stop);
}

#[test]
fn the_poller_reacts_to_each_wake() {
    let mut p = Poller { interval: 300 };
    assert_eq!(p.on_wake(Wake::Elapsed), Step::Poll);
    assert_eq!(p.on_wake(Wake::Command { cmd: PollCmd::Now }), Step::Poll);
    assert_eq!(p.interval, 300);
    let set = Wake::Command { cmd: PollCmd::SetInterval { secs: 3 } };
    assert_eq!(p.on_wake(set), Step::Wait { secs: 3 });
    assert_eq!(p.interval, 3);
    assert_eq!(p.after_report(true), Step::Wait { secs: 3 });
    assert_eq!(p.on_wake(Wake::Disconnected), Step::Stop);
}

#[test]
fn the_poller_polls_before_any_wait() {
    assert_eq!(Poller::start(300), (Poller { interval: 300 }, Step::Poll));
}

#[test]
fn each_poll_is_reported_once() {
    let replies = [Ok(StatusReply::Other), Err("gone".to_string())];
    let (mut p, mut step) = Poller::start(5);
    let mut reports = Vec::new();
    for reply in replies {
        assert_eq!(step, Step::Poll);
        reports.push(poll_result(reply));
        assert_eq!(p.after_report(true), Step::Wait { secs: 5 });
        step = p.on_wake(Wake::Elapsed);
    }
    assert_eq!(reports, [PollResult::Unreachable, PollResult::Unreachable]);
}
