//! Lines of `nvidia-smi`.
use hypomnesis::gpu::nvidia_smi::parse_compute_app_line;

#[test]
fn parse_compute_app_basic() {
    let row = parse_compute_app_line("12345, python.exe, 1024").unwrap();
    assert_eq!(row.pid, 12345);
    assert_eq!(row.name.as_deref(), Some("python.exe"));
    assert_eq!(row.used_bytes, 1024 * 1_048_576);
}

#[test]
fn parse_compute_app_protected_name() {
    let row = parse_compute_app_line("999, ?, 256").unwrap();
    assert_eq!(row.pid, 999);
    assert_eq!(row.name.as_deref(), Some("?"));
    assert_eq!(row.used_bytes, 256 * 1_048_576);
}

#[test]
fn parse_compute_app_name_with_comma() {
    let row = parse_compute_app_line("42, weird,name.exe, 8").unwrap();
    assert_eq!(row.pid, 42);
    assert_eq!(row.name.as_deref(), Some("weird,name.exe"));
    assert_eq!(row.used_bytes, 8 * 1_048_576);
}

#[test]
fn parse_compute_app_empty_line() {
    assert!(parse_compute_app_line("").is_none());
    assert!(parse_compute_app_line("   ").is_none());
}

#[test]
fn parse_compute_app_unparseable_pid() {
    assert!(parse_compute_app_line("notanumber, python.exe, 1024").is_none());
}

#[test]
fn parse_compute_app_unparseable_memory() {
    assert!(parse_compute_app_line("123, python.exe, notanumber").is_none());
}

#[test]
fn parse_compute_app_too_few_fields() {
    assert!(parse_compute_app_line("123, python.exe").is_none());
    assert!(parse_compute_app_line("12345").is_none());
}
