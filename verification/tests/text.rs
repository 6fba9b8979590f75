//! Units, durations, escaping and column widths.
use hypomnesis::json::json_escape;
use hypomnesis::table::column_width;
use hypomnesis::time::{duration_ms, format_secs, parse_duration};
use hypomnesis::units::{bytes_to_mib, format_delta, format_vram, signed_delta};
use hypomnesis::Duration;

#[test]
fn format_vram_sub_gib() {
    assert_eq!(format_vram(0), "0 MiB");
    assert_eq!(format_vram(1024 * 1024), "1 MiB");
    assert_eq!(format_vram(512 * 1024 * 1024), "512 MiB");
}

#[test]
fn format_vram_gib_one_decimal() {
    let one_gib = 1024_u64 * 1024 * 1024;
    assert_eq!(format_vram(one_gib), "1.0 GiB");
    assert_eq!(format_vram(one_gib + one_gib / 2), "1.5 GiB");
    let bytes_8_2_gib = 8 * one_gib + 200 * 1024 * 1024;
    assert_eq!(format_vram(bytes_8_2_gib), "8.2 GiB");
}

#[test]
fn bytes_to_mib_basic() {
    assert_eq!(bytes_to_mib(0), 0);
    assert_eq!(bytes_to_mib(1_048_576), 1);
    assert_eq!(bytes_to_mib(16_384 * 1_048_576), 16_384);
}

#[test]
fn column_width_picks_max() {
    assert_eq!(column_width("PID", &["1", "12345"]), 5);
    assert_eq!(column_width("HEADER", &["a", "bc"]), 6);
    assert_eq!(column_width("PID", &[]), 3);
}

#[test]
fn json_escape_passthrough() {
    assert_eq!(json_escape("python.exe"), "python.exe");
}

#[test]
fn json_escape_quotes_and_backslash() {
    assert_eq!(json_escape("a\"b\\c"), "a\\\"b\\\\c");
}

#[test]
fn json_escape_control_chars() {
    assert_eq!(json_escape("a\nb"), "a\\nb");
    assert_eq!(json_escape("a\tb"), "a\\tb");
    assert_eq!(json_escape("\u{0001}"), "\\u0001");
}

#[test]
fn duration_ms_and_format_secs() {
    assert_eq!(duration_ms(Duration::from_millis(3_800)), 3_800);
    assert_eq!(duration_ms(Duration::zero()), 0);
    assert_eq!(format_secs(Duration::from_millis(3_800)), "3.8s");
    assert_eq!(format_secs(Duration::zero()), "0.0s");
}

#[test]
fn parse_duration_bare_number_is_seconds() {
    assert_eq!(parse_duration("30").unwrap(), Duration::from_secs(30));
}

#[test]
fn parse_duration_seconds_suffix() {
    assert_eq!(parse_duration("30s").unwrap(), Duration::from_secs(30));
}

#[test]
fn parse_duration_ms_suffix() {
    assert_eq!(parse_duration("500ms").unwrap(), Duration::from_millis(500));
}

#[test]
fn parse_duration_minutes_suffix() {
    assert_eq!(parse_duration("5m").unwrap(), Duration::from_secs(300));
}

#[test]
fn parse_duration_hours_suffix() {
    assert_eq!(parse_duration("1h").unwrap(), Duration::from_secs(3_600));
}

#[test]
fn parse_duration_rejects_empty() {
    assert!(parse_duration("").is_err());
    assert!(parse_duration("s").is_err());
}

#[test]
fn parse_duration_rejects_unknown_unit() {
    assert!(parse_duration("30x").is_err());
}

#[test]
fn parse_duration_rejects_zero() {
    assert!(parse_duration("0").is_err());
    assert!(parse_duration("0s").is_err());
    assert!(parse_duration("0ms").is_err());
}

#[test]
fn parse_duration_trims_whitespace() {
    assert_eq!(parse_duration(" 30s ").unwrap(), Duration::from_secs(30));
}

#[test]
fn format_delta_zero_is_plus_zero_bytes() {
    assert_eq!(format_delta(0), "+0 B");
}

#[test]
fn format_delta_positive_mib() {
    assert_eq!(format_delta(700 * 1024 * 1024), "+700 MiB");
}

#[test]
fn format_delta_negative_gib() {
    let one_point_two_gib = -(1024_i64 * 1024 * 1024 + 1024 * 1024 * 1024 / 5);
    assert_eq!(format_delta(one_point_two_gib), "-1.2 GiB");
}

#[test]
fn signed_delta_basic() {
    assert_eq!(signed_delta(100, 40), 60);
    assert_eq!(signed_delta(40, 100), -60);
    assert_eq!(signed_delta(0, 0), 0);
}
