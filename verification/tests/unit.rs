use prodash::time;
use prodash::unit::{self, display, human, Bytes, Duration, Human, Range};

#[test]
fn tests_value_and_upper_bound_use_own_unit() {
    assert_eq!(unit::dynamic(Duration).display(40, Some(300), None).to_text(), "40s of 5m");
    assert_eq!(
        unit::dynamic_and_mode(Bytes, display::Mode::with_percentage())
            .display(1002, Some(10_000_000_000), None)
            .to_text(),
        "1.0KB/10.0GB [0%]"
    );
}

#[test]
fn value_and_upper_bound_with_percentage() {
    let unit = unit::dynamic_and_mode(Range::new("steps"), display::Mode::with_percentage());
    assert_eq!(unit.display(0, Some(3), None).to_text(), "1 of 3 steps [0%]");
    assert_eq!(unit.display(1, Some(3), None).to_text(), "2 of 3 steps [33%]");
    assert_eq!(unit.display(2, Some(3), None).to_text(), "3 of 3 steps [66%]");
}

#[test]
fn just_value() {
    assert_eq!(unit::dynamic(Bytes).display(5540, None, None).to_text(), "5.5KB");
}

#[test]
fn human_numbers() {
    let unit = unit::dynamic_and_mode(
        Human::new(human::decimal_options(), "objects"),
        display::Mode::with_percentage(),
    );
    assert_eq!(unit.display(100_002, Some(7_500_000), None).to_text(), "100.00kB/7.50MB objects [1%]");
    assert_eq!(unit.display(100_002, None, None).to_text(), "100.00kB objects");
    let binary = unit::dynamic(Human::new(human::binary_options(), "objects"));
    assert_eq!(binary.display(2048, None, None).to_text(), "2KiB objects");
}

#[test]
fn display_current_value_with_upper_bound_percentage_before_value() {
    assert_eq!(
        unit::label_and_mode("items", display::Mode::with_percentage().show_before_value())
            .display(123, Some(400), None)
            .values()
            .to_text(),
        "[30%] 123/400"
    );
}

#[test]
fn display_current_value_with_upper_bound_percentage_after_unit() {
    assert_eq!(
        unit::label_and_mode("items", display::Mode::with_percentage())
            .display(123, Some(400), None)
            .unit()
            .to_text(),
        "items [30%]"
    );
}

#[test]
fn display_current_over_time_shows_throughput() {
    let unit = unit::label_and_mode("items", display::Mode::with_percentage().and_throughput());
    assert_eq!(
        unit.display(123, None, None).to_text(),
        "123 items",
        "from one measurement, there can be no throughput"
    );
    assert_eq!(
        unit.display(500, None, Some(display::Throughput::new(250, time::Duration::from_millis(500))))
            .to_text(),
        "500 items |250/500ms|",
        "sub-second intervals are displayed with millisecond precision"
    );
    assert_eq!(
        unit.display(700, None, Some(display::Throughput::new(500, time::Duration::from_secs(1))))
            .to_text(),
        "700 items |500/s|",
        "a '1' in the timespan is not displayed"
    );
    assert_eq!(
        unit.display(500, None, Some(display::Throughput::new(250, time::Duration::from_secs(30))))
            .to_text(),
        "500 items |250/30s|",
        "sub-minute intervals are displayed with second precision"
    );
    assert_eq!(
        unit.display(700, None, Some(display::Throughput::new(500, time::Duration::from_secs(60))))
            .to_text(),
        "700 items |500/m|",
        "it also knows minutes"
    );
    let unit = unit::label_and_mode(
        "items",
        display::Mode::with_percentage().and_throughput().show_before_value(),
    );
    assert_eq!(
        unit.display(700, None, Some(display::Throughput::new(500, time::Duration::from_secs(90))))
            .to_text(),
        "|500/1.5m| 700 items",
        "it uses fractions on the biggest possible unit"
    );
    assert_eq!(
        unit.display(500, None, Some(display::Throughput::new(250, time::Duration::from_secs(30 * 60))))
            .to_text(),
        "|250/30m| 500 items",
        "sub-hour intervals are displayed with minute precision"
    );
    assert_eq!(
        unit.display(700, None, Some(display::Throughput::new(500, time::Duration::from_secs(60 * 60))))
            .to_text(),
        "|500/h| 700 items",
        "it also knows hours"
    );
}

#[test]
fn display_current_value_no_upper_bound_shows_no_percentage() {
    assert_eq!(
        unit::label_and_mode("items", display::Mode::with_percentage()).display(123, None, None).to_text(),
        "123 items"
    );
}

#[test]
fn display_current_value_with_upper_bound_shows_percentage() {
    assert_eq!(
        unit::label_and_mode("items", display::Mode::with_percentage())
            .display(123, Some(500), None)
            .to_text(),
        "123/500 items [24%]"
    );
    assert_eq!(
        unit::label_and_mode("items", display::Mode::with_percentage().show_before_value())
            .display(123, Some(500), None)
            .to_text(),
        "[24%] 123/500 items"
    );
}

#[test]
fn display_current_value_no_upper_bound() {
    assert_eq!(unit::label("items").display(123, None, None).to_text(), "123 items");
}

#[test]
fn display_current_value_with_upper_bound() {
    assert_eq!(unit::label("items").display(123, Some(500), None).to_text(), "123/500 items");
}

#[test]
fn of_unit() {
    assert_eq!(std::mem::size_of::<unit::Unit>(), 32);
}

#[test]
fn of_mode() {
    assert_eq!(std::mem::size_of::<display::Mode>(), 3);
}

#[test]
fn throughput_in_its_largest_unit() {
    let unit = unit::label_and_mode("items", display::Mode::with_throughput());
    let shown = |secs: u64| {
        unit.display(1, None, Some(display::Throughput::new(7, time::Duration::from_secs(secs)))).to_text()
    };
    assert_eq!(shown(2), "1 items |7/2s|");
    assert_eq!(shown(75), "1 items |7/1.25m|");
    assert_eq!(shown(100), "1 items |7/1.6666m|");
    assert_eq!(shown(3609), "1 items |7/1.0025h|");
    assert_eq!(shown(7200), "1 items |7/2h|");
    assert_eq!(
        unit.display(1, None, Some(display::Throughput::new(7, time::Duration::from_millis(0)))).to_text(),
        "1 items |7/0ms|"
    );
    assert_eq!(
        unit.display(1, None, Some(display::Throughput::new(7, time::Duration::from_millis(1)))).to_text(),
        "1 items |7/ms|"
    );
}

#[test]
fn percentage_of_an_empty_bound() {
    assert_eq!(display::percentage(0, 0), 0);
    assert_eq!(display::percentage(1, 0), usize::MAX);
    assert_eq!(display::percentage(2, 3), 66);
    assert_eq!(display::percentage(usize::MAX, 1), usize::MAX);
    assert_eq!(display::percentage(usize::MAX, usize::MAX), 100);
}

#[test]
fn a_unit_of_one_byte_alone_is_left_out() {
    assert_eq!(unit::label("B").display(1, None, None).unit().to_text(), "");
    assert_eq!(unit::label("B").display(1, None, None).to_text(), "1 B");
    assert_eq!(unit::label("é").display(1, None, None).unit().to_text(), "é");
    assert_eq!(unit::label("").display(1, None, None).to_text(), "1");
    assert_eq!(unit::label("items").display(1, Some(2), None).all().to_text(), "1/2 items");
}

#[test]
fn durations_are_written_part_by_part() {
    let text = |secs: usize| unit::dynamic(Duration).display(secs, None, None).to_text();
    assert_eq!(text(0), "0s");
    assert_eq!(text(59), "59s");
    assert_eq!(text(60), "1m");
    assert_eq!(text(3_600), "1h");
    assert_eq!(text(86_400), "1d");
    assert_eq!(text(6_000_000), "69d10h40m");
    assert_eq!(text(90_061), "1d1h1m1s");
}

#[test]
fn human_numbers_follow_every_setting() {
    let text = |options: human::FormatSizeOptions, value: usize| {
        unit::dynamic(Human::new(options, "x")).display(value, None, None).to_text()
    };
    let plain = human::decimal_options();
    assert_eq!(text(plain, 1_500_000), "1.50MB x");
    assert_eq!(
        text(human::FormatSizeOptions { fixed_at: Some(human::Multiple::First), ..plain }, 1_500_000),
        "1500kB x"
    );
    assert_eq!(
        text(human::FormatSizeOptions { fixed_at: Some(human::Multiple::One), ..plain }, 1_500),
        "1500B x"
    );
    assert_eq!(
        text(human::FormatSizeOptions { base_unit: human::Counted::Bit, ..plain }, 1_500_000),
        "1.50Mbit x"
    );
    assert_eq!(text(human::FormatSizeOptions { decimal_places: 1, ..plain }, 1_500_000), "1.5MB x");
    assert_eq!(text(human::FormatSizeOptions { decimal_zeroes: 2, ..plain }, 2_000_000), "2.00MB x");
    assert_eq!(text(human::FormatSizeOptions { long_units: true, ..plain }, 2_000_000), "2Megabytes x");
    assert_eq!(
        text(human::FormatSizeOptions { kilo: human::Scale::Binary, ..plain }, 2_097_152),
        "2MB x"
    );
}
