use ilovetv::clock::TimeOfDay;
use ilovetv::schedule::cutoff_time;
use ilovetv::schedule::target_time;
use ilovetv::schedule::wait_until_target;
use ilovetv::schedule::Daemon;
use ilovetv::schedule::DaemonStep;
use ilovetv::schedule::Wait;
use ilovetv::schedule::NIGHTLY_RETRIES;
use ilovetv::schedule::STARTUP_RETRIES;

fn at(hour: u32, min: u32, sec: u32) -> TimeOfDay {
    TimeOfDay::from_hms(hour, min, sec).unwrap()
}

fn wait_of(step: DaemonStep) -> Wait {
    match step {
        DaemonStep::Sleep { wait } => wait,
        DaemonStep::RunCycle { .. } => panic!("a cycle where a sleep was due"),
    }
}

fn retries_of(step: DaemonStep) -> usize {
    match step {
        DaemonStep::RunCycle { retries } => retries,
        DaemonStep::Sleep { .. } => panic!("a sleep where a cycle was due"),
    }
}

#[test]
fn target_is_half_past_five_and_cutoff_is_seven_in_the_evening() {
    assert_eq!(target_time().seconds_from_midnight(), 5 * 3600 + 30 * 60);
    assert_eq!(target_time().nanosecond(), 0);
    assert_eq!(cutoff_time().seconds_from_midnight(), 19 * 3600);
    assert_eq!(cutoff_time().nanosecond(), 0);
}

#[test]
fn budgets_are_none_at_start_and_ten_at_night() {
    assert_eq!(STARTUP_RETRIES, 0);
    assert_eq!(NIGHTLY_RETRIES, 10);
}

#[test]
fn wait_at_four_is_an_hour_and_a_half() {
    let w = wait_until_target(&at(4, 0, 0));
    assert_eq!((w.secs, w.nanos), (5_400, 0));
    assert_eq!((w.hours(), w.minutes()), (1, 30));
}

#[test]
fn wait_at_six_reaches_into_the_next_day() {
    let w = wait_until_target(&at(6, 0, 0));
    assert_eq!((w.secs, w.nanos), (23 * 3600 + 30 * 60, 0));
    assert_eq!((w.hours(), w.minutes()), (23, 30));
}

#[test]
fn wait_at_the_target_is_a_whole_day() {
    let w = wait_until_target(&at(5, 30, 0));
    assert_eq!((w.secs, w.nanos), (86_400, 0));
    assert_eq!((w.hours(), w.minutes()), (24, 0));
}

#[test]
fn wait_just_before_and_just_after_the_target() {
    let before = TimeOfDay::new(19_799, 999_999_999).unwrap();
    let w = wait_until_target(&before);
    assert_eq!((w.secs, w.nanos), (0, 1));
    let after = TimeOfDay::new(19_800, 1).unwrap();
    let w = wait_until_target(&after);
    assert_eq!((w.secs, w.nanos), (86_399, 999_999_999));
}

#[test]
fn wait_at_midnight_and_at_the_end_of_the_day() {
    let w = wait_until_target(&at(0, 0, 0));
    assert_eq!((w.secs, w.nanos), (19_800, 0));
    let w = wait_until_target(&at(23, 59, 59));
    assert_eq!((w.secs, w.nanos), (19_801, 0));
    let w = wait_until_target(&TimeOfDay::new(86_399, 999_999_999).unwrap());
    assert_eq!((w.secs, w.nanos), (19_800, 1));
}

#[test]
fn wait_inside_a_leap_second() {
    let early = TimeOfDay::new(59, 1_250_000_000).unwrap();
    let w = wait_until_target(&early);
    assert_eq!((w.secs, w.nanos), (19_800 - 60, 750_000_000));
    let late = TimeOfDay::new(86_399, 1_999_999_999).unwrap();
    let w = wait_until_target(&late);
    assert_eq!((w.secs, w.nanos), (19_799, 1));
}

#[test]
fn wait_is_never_empty_and_never_longer_than_a_day() {
    let mut secs: u32 = 0;
    while secs < 86_400 {
        for frac in [0u32, 1, 999_999_999] {
            let w = wait_until_target(&TimeOfDay::new(secs, frac).unwrap());
            assert!(w.nanos < 1_000_000_000);
            assert!(w.secs > 0 || w.nanos > 0);
            assert!(w.secs < 86_400 || (w.secs == 86_400 && w.nanos == 0));
            let now = secs as u64 * 1_000_000_000 + frac as u64;
            let then = now + w.secs * 1_000_000_000 + w.nanos as u64;
            assert_eq!(then % 86_400_000_000_000, 19_800_000_000_000);
        }
        secs += 977;
    }
}

#[test]
fn hours_and_minutes_split_the_wait() {
    let w = Wait { secs: 3_599, nanos: 999_999_999 };
    assert_eq!((w.hours(), w.minutes()), (0, 59));
    let w = Wait { secs: 3_600, nanos: 0 };
    assert_eq!((w.hours(), w.minutes()), (1, 0));
    let w = Wait { secs: 0, nanos: 5 };
    assert_eq!((w.hours(), w.minutes()), (0, 0));
}

#[test]
fn start_at_ten_runs_a_cycle_without_retries_before_the_first_sleep() {
    let mut daemon = Daemon::new();
    assert_eq!(retries_of(daemon.advance(&at(10, 0, 0))), 0);
    let w = wait_of(daemon.advance(&at(10, 0, 7)));
    assert_eq!((w.secs, w.nanos), (19 * 3600 + 30 * 60 - 7, 0));
    assert_eq!(retries_of(daemon.advance(&at(5, 30, 0))), 10);
}

#[test]
fn start_at_twenty_goes_straight_to_sleep() {
    let mut daemon = Daemon::new();
    let w = wait_of(daemon.advance(&at(20, 0, 0)));
    assert_eq!((w.secs, w.nanos), (9 * 3600 + 30 * 60, 0));
    assert_eq!(retries_of(daemon.advance(&at(5, 30, 0))), 10);
}

#[test]
fn start_at_the_cutoff_skips_the_catch_up_run() {
    let mut daemon = Daemon::new();
    let last = TimeOfDay::new(19 * 3600 - 1, 999_999_999).unwrap();
    assert_eq!(retries_of(daemon.advance(&last)), 0);
    let mut daemon = Daemon::new();
    let w = wait_of(daemon.advance(&at(19, 0, 0)));
    assert_eq!((w.secs, w.nanos), (10 * 3600 + 30 * 60, 0));
}

#[test]
fn sleep_and_nightly_cycle_take_turns() {
    let mut daemon = Daemon::new();
    let _ = daemon.advance(&at(23, 0, 0));
    for _ in 0..5 {
        assert_eq!(retries_of(daemon.advance(&at(5, 30, 0))), 10);
        let w = wait_of(daemon.advance(&at(5, 35, 0)));
        assert_eq!((w.secs, w.nanos), (86_400 - 300, 0));
    }
}
