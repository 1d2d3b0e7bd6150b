use prodash::color;
use prodash::input::{continue_on_interrupt, Action};
use prodash::time::{self, Duration, Time};

#[test]
fn durations_add_and_subtract() {
    let a = Duration::from_millis(1500);
    let b = Duration::from_secs(2);
    assert_eq!(a.as_secs(), 1);
    assert_eq!(a.subsec_nanos(), 500_000_000);
    assert_eq!(a.as_millis(), 1500);
    assert_eq!(a.as_nanos(), 1_500_000_000);
    assert_eq!(a.checked_add(&b), Duration::new(3, 500_000_000));
    assert_eq!(b.checked_sub(&a), Some(Duration::from_millis(500)));
    assert_eq!(a.checked_sub(&b), None);
    assert_eq!(a.saturating_sub(&b), Duration::default());
    assert!(a.shorter_than(&b));
    assert!(!b.shorter_than(&b));
    assert!(Duration::default().is_zero());
    assert_eq!(Duration::new(1, 2_000_000_001), Some(Duration::from_millis(3000).checked_add(&Duration::new(0, 1).unwrap()).unwrap()));
    assert_eq!(Duration::new(u64::MAX, 1_000_000_000), None);
    let max = Duration::new(u64::MAX, 999_999_999).unwrap();
    assert_eq!(max.checked_add(&Duration::new(0, 1).unwrap()), None);
    assert_eq!(max.saturating_add(&b), max);
    assert_eq!(a < b, a.shorter_than(&b));
}

#[test]
fn times_compare_and_measure() {
    let early = Time::from_epoch(Duration::from_secs(10));
    let late = Time::from_epoch(Duration::from_secs(25));
    assert!(late.later_than(&early));
    assert!(!early.later_than(&late));
    assert_eq!(late.duration_since(&early), Some(Duration::from_secs(15)));
    assert_eq!(early.duration_since(&late), None);
    assert_eq!(late.since_epoch(), Duration::from_secs(25));
    let now = Time::now();
    assert!(now.later_than(&Time::from_epoch(Duration::from_secs(1_600_000_000))));
}

#[test]
fn clock_text_is_cut_from_the_timestamp() {
    let moment = Time::from_epoch(Duration::from_millis(1_581_555_105_250));
    assert_eq!(time::format_time_for_messages(moment).as_deref(), Some("00:51:45"));
    assert_eq!(time::format_datetime_seconds(moment).as_deref(), Some("2020-02-13T00:51:45"));
    assert_eq!(time::time_column(moment), "00:51:45");
    assert_eq!(time::date_time_column(moment), "2020-02-13T00:51:45");
    let epoch = Time::from_epoch(Duration::default());
    assert_eq!(time::format_datetime_seconds(epoch).as_deref(), Some("1970-01-01T00:00:00"));
    let last = Time::from_epoch(Duration::from_secs(253_402_300_799));
    assert_eq!(time::format_datetime_seconds(last).as_deref(), Some("9999-12-31T23:59:59"));
    let too_late = Time::from_epoch(Duration::from_secs(253_402_300_800));
    assert_eq!(time::format_time_for_messages(too_late), None);
    assert_eq!(time::time_column(too_late), "");
    assert_eq!(time::format_now_datetime_seconds().map(|s| s.len()), Some(19));
    assert_eq!(time::time_of_day_of("2020-02-13T00:51:45Z"), "00:51:45");
    assert_eq!(time::date_time_of("2020-02-13T00:51:45Z"), "2020-02-13T00:51:45");
    assert_eq!(time::section("héllo", 1, 3), "él");
}

#[test]
fn colors_follow_the_environment() {
    assert!(color::allowed(false, None, None));
    assert!(!color::allowed(true, None, None));
    assert!(!color::allowed(true, Some("1"), Some("1")));
    assert!(!color::allowed(false, Some("0"), None));
    assert!(!color::allowed(false, Some("0"), Some("0")));
    assert!(color::allowed(false, Some("0"), Some("1")));
    assert!(color::allowed(false, Some("1"), Some("0")));
    assert!(color::allow_clicolors_spec(None, None));
    assert!(!color::allow_clicolors_spec(Some("yes"), None));
    assert!(color::same_text("é1", "é1"));
    assert!(!color::same_text("a", "ab"));
    assert!(!color::same_text("ab", "ac"));
}

#[test]
fn interrupted_reads_go_on() {
    assert!(matches!(continue_on_interrupt::<u8, &str>(Ok(1), false), Action::Result(Ok(1))));
    assert!(matches!(continue_on_interrupt::<u8, &str>(Ok(1), true), Action::Result(Ok(1))));
    assert!(matches!(continue_on_interrupt::<u8, &str>(Err("e"), true), Action::Continue));
    assert!(matches!(continue_on_interrupt::<u8, &str>(Err("e"), false), Action::Result(Err("e"))));
}
