//! The report of the spill command.
use hypomnesis::cli::spill::{
    exit_code_byte, format_spill_json, format_spill_report, format_spill_report_with_prefix,
    write_episodes_json, SPILL_JSON_UNMEASURABLE,
};
use hypomnesis::{
    Duration, GpuDeviceInfoBuilder, GpuProcessEntryBuilder, SpillReport, SpillReportBuilder,
};

#[test]
fn exit_code_byte_zero_passes_through() {
    assert_eq!(exit_code_byte(Some(0)), 0);
}

#[test]
fn exit_code_byte_passthrough_255() {
    assert_eq!(exit_code_byte(Some(7)), 7);
    assert_eq!(exit_code_byte(Some(255)), 255);
}

#[test]
fn exit_code_byte_negative_is_one() {
    assert_eq!(exit_code_byte(Some(-1_073_741_819)), 1);
    assert_eq!(exit_code_byte(Some(-1)), 1);
}

#[test]
fn exit_code_byte_overflow_is_one() {
    assert_eq!(exit_code_byte(Some(256)), 1);
    assert_eq!(exit_code_byte(Some(i32::MAX)), 1);
}

#[test]
fn exit_code_byte_none_is_one() {
    assert_eq!(exit_code_byte(None), 1);
}

fn spilling_report() -> SpillReport {
    const GIB: u64 = 1024 * 1024 * 1024;
    SpillReport::builder()
        .measurable(true)
        .observations(200)
        .peak_dedicated_bytes(16 * GIB)
        .dedicated_limit_bytes(16 * GIB)
        .peak_shared_bytes(4 * GIB + 200 * 1024 * 1024)
        .baseline_shared_bytes(300 * 1024 * 1024)
        .episode(
            "+12.4s",
            Some("+15.5s"),
            3 * GIB,
            31,
            Duration::from_millis(3_100),
        )
        .episode("+20.0s", None, 4 * GIB, 67, Duration::from_millis(6_700))
        .build()
}

#[test]
fn format_spill_report_episodes_line() {
    let s = format_spill_report(&spilling_report());
    let expected = "hmn spill: peak dedicated 16.0 GiB / 16.0 GiB\n           peak shared    4.2 GiB (baseline 300 MiB)\n           episodes       2 — total 9.8s, longest 6.7s, first +12.4s into run\n";
    assert_eq!(s, expected);
}

#[test]
fn format_spill_report_no_episodes() {
    const GIB: u64 = 1024 * 1024 * 1024;
    let report = SpillReport::builder()
        .measurable(true)
        .observations(50)
        .peak_dedicated_bytes(14 * GIB)
        .dedicated_limit_bytes(16 * GIB)
        .peak_shared_bytes(140 * 1024 * 1024)
        .baseline_shared_bytes(134 * 1024 * 1024)
        .build();
    let s = format_spill_report(&report);
    assert!(s.contains("episodes       0 — no spill observed"));
    assert!(s.contains("peak dedicated 14.0 GiB / 16.0 GiB"));
}

#[test]
fn format_spill_report_unknown_limit_elides_suffix() {
    let report = SpillReport::builder()
        .measurable(true)
        .peak_dedicated_bytes(1024 * 1024 * 1024)
        .build();
    let s = format_spill_report(&report);
    assert!(s.contains("peak dedicated 1.0 GiB\n"));
    assert!(!s.contains(" / "));
}

#[test]
fn format_spill_json_shape() {
    let s = format_spill_json(&spilling_report());
    assert!(s.starts_with("{\"measurable\":true,\"spilled\":true,\"observations\":200,"));
    assert!(s.contains("\"total_spill_duration_ms\":9800,"));
    assert!(s.contains("\"episodes\":[{\"start_label\":\"+12.4s\",\"end_label\":\"+15.5s\","));
    assert!(s.ends_with("]}\n"));
}

#[test]
fn format_spill_json_null_end_label() {
    let s = format_spill_json(&spilling_report());
    assert!(s.contains("\"start_label\":\"+20.0s\",\"end_label\":null,"));
}

#[test]
fn format_spill_json_escapes_labels() {
    let report = SpillReport::builder()
        .measurable(true)
        .episode("weird\"label", None, 0, 1, Duration::zero())
        .build();
    let s = format_spill_json(&report);
    assert!(s.contains(r#""start_label":"weird\"label""#));
}

#[test]
fn spill_json_unmeasurable_constant_is_valid_shape() {
    assert!(SPILL_JSON_UNMEASURABLE.starts_with("{\"measurable\":false,\"spilled\":false,"));
    assert!(SPILL_JSON_UNMEASURABLE.ends_with("\"episodes\":[]}\n"));
}

#[test]
fn format_spill_report_with_prefix_watch_matches_spill_shape() {
    let report = spilling_report();
    let s = format_spill_report_with_prefix("hmn watch", &report);
    let expected = "hmn watch: peak dedicated 16.0 GiB / 16.0 GiB\n           peak shared    4.2 GiB (baseline 300 MiB)\n           episodes       2 — total 9.8s, longest 6.7s, first +12.4s into run\n";
    assert_eq!(s, expected);
}

#[test]
fn write_episodes_json_matches_format_spill_json_episodes() {
    let report = spilling_report();
    let mut direct = String::new();
    write_episodes_json(&mut direct, &report.episodes);
    let whole = format_spill_json(&report);
    assert!(whole.contains(&direct));
}

#[test]
fn clones_and_defaults_of_builders() {
    let b = SpillReportBuilder::default().observations(3).measurable(true).episode(
        "a",
        Some("b"),
        9,
        2,
        Duration::from_secs(1),
    );
    let (r, c) = (b.clone().build(), b.build().clone());
    assert_eq!(r.episodes, c.episodes);
    assert_eq!((r.observations, r.measurable), (3, true));
    assert_eq!((c.observations, c.measurable, c.peak_shared_bytes), (3, true, 0));
    let d = GpuDeviceInfoBuilder::default().index(4).name(Some("n".to_owned()));
    assert_eq!(d.clone().build().name.as_deref(), Some("n"));
    assert_eq!(d.build().index, 4);
    let e = GpuProcessEntryBuilder::default().pid(8);
    assert_eq!((e.clone().build().pid, e.build().used_bytes), (8, 0));
}
