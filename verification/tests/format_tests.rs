use teelog::color::{colorize, ColorMode, TextColor};
use teelog::timefmt::{format_absolute, format_relative};

#[test]
fn relative_units_count_whole_durations_not_wall_clock() {
    // 3661.5 seconds: one whole hour, 61 whole minutes, 61 seconds past the
    // whole hour, half a second in microseconds.
    assert_eq!(format_relative(3_661_500_000_000), "01:61:61.500000");
}

#[test]
fn relative_zero_duration() {
    assert_eq!(format_relative(0), "00:00:00.000000");
}

#[test]
fn relative_subsecond_microseconds_are_zero_padded() {
    assert_eq!(format_relative(1_500), "00:00:00.000001");
    assert_eq!(format_relative(999), "00:00:00.000000");
    assert_eq!(format_relative(250_000_000), "00:00:00.250000");
}

#[test]
fn relative_fields_widen_past_two_digits() {
    // 100 hours: hour and minute counts are total units, not wrapped.
    assert_eq!(format_relative(360_000_000_000_000), "100:6000:00.000000");
}

#[test]
fn relative_truncates_rather_than_rounds() {
    // 59.9999999 seconds stays below the minute and the last microsecond.
    assert_eq!(format_relative(59_999_999_900), "00:00:59.999999");
}

#[test]
fn absolute_rendering_matches_the_calendar_form() {
    let expected = time::UtcDateTime::from_unix_timestamp_nanos(1_700_000_000_123_456_789)
        .unwrap()
        .to_string();
    assert_eq!(format_absolute(1_700_000_000_123_456_789), expected);
    // And it is a calendar rendering, not the raw number handed back.
    assert!(format_absolute(0).contains("1970"));
}

#[test]
fn never_mode_returns_the_text_unchanged() {
    assert_eq!(colorize("hello", TextColor::Red, ColorMode::Never), "hello");
    assert_eq!(colorize("", TextColor::White, ColorMode::Never), "");
}

#[test]
fn always_mode_wraps_in_the_color_escape_sequence() {
    assert_eq!(colorize("hello", TextColor::Red, ColorMode::Always), "\x1b[31mhello\x1b[0m");
    assert_eq!(colorize("x", TextColor::White, ColorMode::Always), "\x1b[37mx\x1b[0m");
    assert_eq!(colorize("t", TextColor::BrightBlack, ColorMode::Always), "\x1b[90mt\x1b[0m");
}

#[test]
fn auto_mode_yields_plain_or_wrapped_text() {
    let r = colorize("abc", TextColor::Red, ColorMode::Auto);
    assert!(r == "abc" || r == "\x1b[31mabc\x1b[0m");
}
