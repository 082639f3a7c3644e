use ppoker::display::{format_duration, trim_name};
use ppoker::text::decimal_u64;

#[test]
fn durations_in_words() {
    assert_eq!(format_duration(0), "0 seconds");
    assert_eq!(format_duration(59_999), "59 seconds");
    assert_eq!(format_duration(75_000), "75 seconds");
    assert_eq!(format_duration(100_000), "1 minute 40 seconds");
    assert_eq!(format_duration(120_000), "2 minutes 0 seconds");
    assert_eq!(format_duration(3_599_000), "59 minutes 59 seconds");
    assert_eq!(format_duration(7_260_000), "2 hours 1 minutes");
}

#[test]
fn names_are_trimmed_and_cut() {
    assert_eq!(trim_name("  Alice  "), "Alice");
    assert_eq!(trim_name("abcdefghijklmnopqrstuvwxyz0123"), "abcdefghijklmnopqrstuvwxy");
    assert_eq!(trim_name("ääääääääääääääääääääääääää"), "ääääääääääääääääääääääääää".chars().take(25).collect::<String>());
    assert_eq!(trim_name(""), "");
}

#[test]
fn decimal_numbers() {
    assert_eq!(decimal_u64(0), "0");
    assert_eq!(decimal_u64(1234567890), "1234567890");
    assert_eq!(decimal_u64(u64::MAX), u64::MAX.to_string());
}
