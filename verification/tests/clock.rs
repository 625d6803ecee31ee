use chrono::NaiveTime;
use chrono::Timelike;
use ilovetv::clock::TimeOfDay;
use ilovetv::clock::NANOS_PER_DAY;
use ilovetv::clock::NANOS_PER_SEC;

fn hms(hour: u32, min: u32, sec: u32) -> TimeOfDay {
    TimeOfDay::from_hms(hour, min, sec).unwrap()
}

#[test]
fn from_hms_counts_seconds_from_midnight() {
    let t = hms(5, 30, 0);
    assert_eq!(t.seconds_from_midnight(), 19_800);
    assert_eq!(t.nanosecond(), 0);
    let t = hms(23, 59, 59);
    assert_eq!(t.seconds_from_midnight(), 86_399);
    let t = hms(0, 0, 0);
    assert_eq!(t.seconds_from_midnight(), 0);
    let t = hms(1, 2, 3);
    assert_eq!(t.seconds_from_midnight(), 3_723);
}

#[test]
fn from_hms_refuses_what_is_out_of_range() {
    assert!(TimeOfDay::from_hms(24, 0, 0).is_none());
    assert!(TimeOfDay::from_hms(0, 60, 0).is_none());
    assert!(TimeOfDay::from_hms(0, 0, 60).is_none());
    assert!(TimeOfDay::from_hms(u32::MAX, 0, 0).is_none());
    assert!(TimeOfDay::from_hms(23, 59, 59).is_some());
}

#[test]
fn new_accepts_exactly_the_times_of_day() {
    assert!(TimeOfDay::new(0, 0).is_some());
    assert!(TimeOfDay::new(86_399, 999_999_999).is_some());
    assert!(TimeOfDay::new(86_400, 0).is_none());
    assert!(TimeOfDay::new(0, 1_000_000_000).is_none());
    assert!(TimeOfDay::new(59, 1_000_000_000).is_some());
    assert!(TimeOfDay::new(59, 1_999_999_999).is_some());
    assert!(TimeOfDay::new(59, 2_000_000_000).is_none());
    assert!(TimeOfDay::new(60, 1_000_000_000).is_none());
    let t = TimeOfDay::new(3_723, 45).unwrap();
    assert_eq!(t.seconds_from_midnight(), 3_723);
    assert_eq!(t.nanosecond(), 45);
}

#[test]
fn new_agrees_with_chrono_on_what_a_time_is() {
    let cases: [(u32, u32); 8] = [
        (0, 0),
        (86_399, 0),
        (86_400, 0),
        (119, 1_500_000_000),
        (120, 1_500_000_000),
        (86_399, 1_999_999_999),
        (86_399, 2_000_000_000),
        (u32::MAX, u32::MAX),
    ];
    for (secs, frac) in cases {
        let ours = TimeOfDay::new(secs, frac);
        let theirs = NaiveTime::from_num_seconds_from_midnight_opt(secs, frac);
        assert_eq!(ours.is_some(), theirs.is_some());
        if let (Some(ours), Some(theirs)) = (ours, theirs) {
            assert_eq!(ours.seconds_from_midnight(), theirs.num_seconds_from_midnight());
            assert_eq!(ours.nanosecond(), theirs.nanosecond());
        }
    }
}

#[test]
fn is_before_orders_by_seconds_then_nanoseconds() {
    assert!(hms(4, 0, 0).is_before(&hms(5, 30, 0)));
    assert!(!hms(5, 30, 0).is_before(&hms(5, 30, 0)));
    assert!(!hms(6, 0, 0).is_before(&hms(5, 30, 0)));
    let early = TimeOfDay::new(100, 5).unwrap();
    let late = TimeOfDay::new(100, 6).unwrap();
    assert!(early.is_before(&late));
    assert!(!late.is_before(&early));
}

#[test]
fn signed_nanos_since_is_the_difference() {
    assert_eq!(hms(5, 30, 0).signed_nanos_since(&hms(4, 0, 0)), 5_400 * NANOS_PER_SEC);
    assert_eq!(hms(4, 0, 0).signed_nanos_since(&hms(5, 30, 0)), -5_400 * NANOS_PER_SEC);
    assert_eq!(hms(7, 7, 7).signed_nanos_since(&hms(7, 7, 7)), 0);
    assert_eq!(hms(0, 0, 0).signed_nanos_since(&hms(23, 59, 59)), -86_399 * NANOS_PER_SEC);
    let a = TimeOfDay::new(10, 250).unwrap();
    let b = TimeOfDay::new(9, 750).unwrap();
    assert_eq!(a.signed_nanos_since(&b), NANOS_PER_SEC - 500);
    assert_eq!(b.signed_nanos_since(&a), 500 - NANOS_PER_SEC);
    assert!(hms(23, 59, 59).signed_nanos_since(&hms(0, 0, 0)) < NANOS_PER_DAY);
}

#[test]
fn signed_nanos_since_counts_a_leap_second_of_the_earlier_time() {
    let leap = TimeOfDay::new(3 * 3600 + 59, 1_000_000_000).unwrap();
    let start = hms(3, 0, 59);
    let later = hms(3, 1, 0);
    assert_eq!(leap.signed_nanos_since(&start), NANOS_PER_SEC);
    assert_eq!(later.signed_nanos_since(&leap), NANOS_PER_SEC);
    assert_eq!(leap.signed_nanos_since(&later), -NANOS_PER_SEC);
    assert_eq!(leap.signed_nanos_since(&leap), 0);
    let other = TimeOfDay::new(2 * 3600 + 59 * 60 + 59, 1_000_000_000).unwrap();
    assert_eq!(leap.signed_nanos_since(&other), 61 * NANOS_PER_SEC);
}

#[test]
fn signed_nanos_since_agrees_with_chrono() {
    let points: [(u32, u32); 7] = [
        (0, 0),
        (19_800, 0),
        (19_799, 999_999_999),
        (68_400, 1),
        (86_399, 999_999_999),
        (86_399, 1_999_999_999),
        (59, 1_000_000_000),
    ];
    for (a_secs, a_frac) in points {
        for (b_secs, b_frac) in points {
            let ours = TimeOfDay::new(a_secs, a_frac)
                .unwrap()
                .signed_nanos_since(&TimeOfDay::new(b_secs, b_frac).unwrap());
            let a = NaiveTime::from_num_seconds_from_midnight_opt(a_secs, a_frac).unwrap();
            let b = NaiveTime::from_num_seconds_from_midnight_opt(b_secs, b_frac).unwrap();
            assert_eq!(Some(ours), (a - b).num_nanoseconds());
        }
    }
}
