//! The watch command.
use hypomnesis::cli::watch::{
    process_sample, resolved_name, WatchSampleRow, WatchState, UNRESOLVED_GROWTH_HINT_BYTES,
};
use hypomnesis::cli::watch_run::{
    format_followed_set_change, resolve_watched_pids, watch_exit_code,
};
use hypomnesis::cli::watch_text::{
    format_watch_header_text, format_watch_per_pid_block, format_watch_rows_json,
    format_watch_rows_text, format_watch_summary_json, format_watch_summary_text, WatchPidSummary,
};
use hypomnesis::{Duration, GpuProcessEntry, SpillReport};

/// Fold a sample without a tracker.
fn sample(
    rows: &[GpuProcessEntry],
    state: &mut WatchState,
    watched: &[u32],
    elapsed: Duration,
) -> Vec<WatchSampleRow> {
    process_sample(rows, state, watched, elapsed, &mut None, None, Duration::zero()).rows
}

fn spilling_report() -> SpillReport {
    const GIB: u64 = 1024 * 1024 * 1024;
    SpillReport::builder()
        .measurable(true)
        .observations(200)
        .peak_dedicated_bytes(16 * GIB)
        .dedicated_limit_bytes(16 * GIB)
        .peak_shared_bytes(4 * GIB + 200 * 1024 * 1024)
        .baseline_shared_bytes(300 * 1024 * 1024)
        .episode(
            "+12.4s",
            Some("+15.5s"),
            3 * GIB,
            31,
            Duration::from_millis(3_100),
        )
        .episode("+20.0s", None, 4 * GIB, 67, Duration::from_millis(6_700))
        .build()
}

#[test]
fn watch_exit_code_clean_and_spilled() {
    assert_eq!(watch_exit_code(false), 0);
    assert_eq!(watch_exit_code(true), 1);
}

fn watch_row(
    pid: u32,
    name: Option<&str>,
    used: u64,
    used_delta: i64,
    shared: u64,
    shared_delta: i64,
    spilling: bool,
) -> WatchSampleRow {
    WatchSampleRow {
        pid,
        name: name.map(str::to_owned),
        used_bytes: used,
        used_delta,
        shared_bytes: shared,
        shared_delta,
        spilling,
    }
}

#[test]
fn format_watch_header_text_has_expected_columns() {
    let h = format_watch_header_text();
    assert!(h.contains("TIME"));
    assert!(h.contains("PID"));
    assert!(h.contains("NAME"));
    assert!(h.contains("COMMITTED"));
    assert!(h.contains("SHARED"));
    assert!(h.contains("SPILL"));
}

#[test]
fn format_watch_rows_text_single_row() {
    let r = watch_row(
        12345,
        Some("python.exe"),
        8 * 1024 * 1024 * 1024,
        0,
        142 * 1024 * 1024,
        0,
        false,
    );
    let s = format_watch_rows_text(Duration::from_secs(5), &[r]);
    assert!(s.starts_with("+5.0s"));
    assert!(s.contains("12345"));
    assert!(s.contains("python.exe"));
    assert!(s.contains("8.0 GiB"));
    assert!(s.contains("142 MiB"));
    assert!(s.contains("+0 B"));
    assert!(s.contains("no"));
}

#[test]
fn format_watch_rows_text_spilling_row() {
    let r = watch_row(
        12345,
        Some("python.exe"),
        16 * 1024 * 1024 * 1024,
        700 * 1024 * 1024,
        2 * 1024 * 1024 * 1024,
        576 * 1024 * 1024,
        true,
    );
    let s = format_watch_rows_text(Duration::from_secs(10), &[r]);
    assert!(s.contains("+700 MiB"));
    assert!(s.contains("+576 MiB"));
    assert!(s.contains("SPILL"));
}

#[test]
fn format_watch_rows_text_missing_name_renders_question_mark() {
    let r = watch_row(99, None, 0, 0, 0, 0, false);
    let s = format_watch_rows_text(Duration::zero(), &[r]);
    assert!(s.contains("99"));
    assert!(s.contains('?'));
}

#[test]
fn format_watch_rows_json_shape() {
    let r = watch_row(
        7,
        Some("py.exe"),
        1_048_576,
        1_048_576,
        424_242,
        -1_000,
        true,
    );
    let s = format_watch_rows_json(Duration::from_millis(3_500), &[r]);
    assert!(s.starts_with(
        r#"{"kind":"sample","t_ms":3500,"pid":7,"name":"py.exe","used_bytes":1048576,"used_delta_bytes":1048576,"shared_used_bytes":424242,"shared_delta_bytes":-1000,"spilling":true}"#
    ));
    assert!(s.ends_with('\n'));
}

#[test]
fn format_watch_rows_json_null_name() {
    let r = watch_row(7, None, 0, 0, 0, 0, false);
    let s = format_watch_rows_json(Duration::zero(), &[r]);
    assert!(s.contains(r#""name":null,"#));
}

#[test]
fn format_watch_rows_json_multiple_rows_multiple_lines() {
    let rows = vec![
        watch_row(1, Some("a.exe"), 0, 0, 0, 0, false),
        watch_row(2, Some("b.exe"), 0, 0, 0, 0, false),
    ];
    let s = format_watch_rows_json(Duration::zero(), &rows);
    assert_eq!(s.lines().count(), 2);
}

fn entry(
    pid: u32,
    name: Option<&str>,
    used_bytes: u64,
    shared_used_bytes: u64,
) -> GpuProcessEntry {
    GpuProcessEntry::builder()
        .pid(pid)
        .name(name.map(str::to_owned))
        .used_bytes(used_bytes)
        .shared_used_bytes(shared_used_bytes)
        .build()
}

#[test]
fn process_sample_first_interval_zero_delta() {
    let mut state = WatchState::new();
    let rows = vec![entry(100, Some("python.exe"), 8_000, 100)];
    let out = sample(&rows, &mut state, &[100], Duration::zero());
    assert_eq!(out.len(), 1);
    let row = out.first().unwrap();
    assert_eq!(row.used_bytes, 8_000);
    assert_eq!(row.used_delta, 0);
    assert_eq!(row.shared_delta, 0);
    assert!(!row.spilling);
}

#[test]
fn process_sample_second_interval_computes_delta() {
    let mut state = WatchState::new();
    let rows0 = vec![entry(100, Some("python.exe"), 8_000, 100)];
    let _ = sample(&rows0, &mut state, &[100], Duration::zero());
    let rows1 = vec![entry(100, Some("python.exe"), 9_500, 300)];
    let out = sample(&rows1, &mut state, &[100], Duration::from_secs(5));
    let row = out.first().unwrap();
    assert_eq!(row.used_delta, 1_500);
    assert_eq!(row.shared_delta, 200);
}

#[test]
fn process_sample_missing_pid_renders_zero() {
    let mut state = WatchState::new();
    let rows: Vec<GpuProcessEntry> = vec![];
    let out = sample(&rows, &mut state, &[42], Duration::zero());
    assert_eq!(out.len(), 1);
    let row = out.first().unwrap();
    assert_eq!(row.pid, 42);
    assert_eq!(row.used_bytes, 0);
    assert_eq!(row.name, None);
}

#[test]
fn process_sample_peak_tracked_across_samples() {
    let mut state = WatchState::new();
    let rows0 = vec![entry(100, Some("python.exe"), 8_000, 100)];
    let _ = sample(&rows0, &mut state, &[100], Duration::zero());
    let rows1 = vec![entry(100, Some("python.exe"), 5_000, 50)];
    let _ = sample(&rows1, &mut state, &[100], Duration::from_secs(5));
    let s = state.by_pid.get(&100).unwrap();
    assert_eq!(s.peak_used_bytes, 8_000);
    assert_eq!(s.peak_shared_bytes, 100);
    assert_eq!(s.baseline_used_bytes, 8_000);
}

#[test]
fn process_sample_name_change_resets_baseline_and_peak() {
    let mut state = WatchState::new();
    let rows0 = vec![entry(100, Some("python.exe"), 8_000, 100)];
    let _ = sample(&rows0, &mut state, &[100], Duration::zero());
    let rows1 = vec![entry(100, Some("python.exe"), 9_000, 500)];
    let _ = sample(&rows1, &mut state, &[100], Duration::from_secs(5));

    let rows2 = vec![entry(100, Some("notepad.exe"), 200, 10)];
    let out = sample(&rows2, &mut state, &[100], Duration::from_secs(10));
    let row = out.first().unwrap();
    assert_eq!(row.name.as_deref(), Some("notepad.exe"));
    assert_eq!(row.used_delta, 0);
    assert_eq!(row.shared_delta, 0);

    let s = state.by_pid.get(&100).unwrap();
    assert_eq!(s.baseline_used_bytes, 200);
    assert_eq!(s.baseline_shared_bytes, 10);
    assert_eq!(s.peak_used_bytes, 200);
    assert_eq!(s.peak_shared_bytes, 10);
}

#[test]
fn process_sample_unresolved_name_does_not_trigger_reset() {
    let mut state = WatchState::new();
    let rows0 = vec![entry(100, Some("python.exe"), 8_000, 100)];
    let _ = sample(&rows0, &mut state, &[100], Duration::zero());
    let rows1 = vec![entry(100, None, 8_500, 150)];
    let _ = sample(&rows1, &mut state, &[100], Duration::from_secs(5));
    let rows2 = vec![entry(100, Some("python.exe"), 9_000, 200)];
    let out = sample(&rows2, &mut state, &[100], Duration::from_secs(10));
    let row = out.first().unwrap();
    assert_eq!(row.used_delta, 500);
    assert_eq!(row.shared_delta, 50);
    assert_eq!(state.by_pid.get(&100).unwrap().baseline_used_bytes, 8_000);
}

#[test]
fn process_sample_protected_bracket_flicker_does_not_trigger_reset() {
    let mut state = WatchState::new();
    let rows0 = vec![entry(100, Some("python.exe"), 8_000, 100)];
    let _ = sample(&rows0, &mut state, &[100], Duration::zero());
    let rows1 = vec![entry(100, Some("[protected]"), 8_500, 150)];
    let _ = sample(&rows1, &mut state, &[100], Duration::from_secs(5));
    let rows2 = vec![entry(100, Some("python.exe"), 9_000, 200)];
    let out = sample(&rows2, &mut state, &[100], Duration::from_secs(10));
    let row = out.first().unwrap();
    assert_eq!(row.used_delta, 500);
    assert_eq!(row.shared_delta, 50);
    assert_eq!(state.by_pid.get(&100).unwrap().baseline_used_bytes, 8_000);
}

#[test]
fn process_sample_reset_survives_a_protected_flicker_in_between() {
    let mut state = WatchState::new();
    let rows0 = vec![entry(100, Some("python.exe"), 8_000, 100)];
    let _ = sample(&rows0, &mut state, &[100], Duration::zero());
    let rows1 = vec![entry(100, Some("[protected]"), 8_500, 150)];
    let _ = sample(&rows1, &mut state, &[100], Duration::from_secs(5));
    let rows2 = vec![entry(100, Some("notepad.exe"), 200, 10)];
    let out = sample(&rows2, &mut state, &[100], Duration::from_secs(10));
    let row = out.first().unwrap();
    assert_eq!(row.used_delta, 0);
    assert_eq!(row.shared_delta, 0);
    let s = state.by_pid.get(&100).unwrap();
    assert_eq!(s.baseline_used_bytes, 200);
    assert_eq!(s.baseline_shared_bytes, 10);
}

#[test]
fn process_sample_growth_hint_fires_for_protected_bracket() {
    let mut state = WatchState::new();
    let rows0 = vec![entry(100, Some("[protected]"), 0, 0)];
    let _ = sample(&rows0, &mut state, &[100], Duration::zero());
    let grown = UNRESOLVED_GROWTH_HINT_BYTES;
    let rows1 = vec![entry(100, Some("[protected]"), grown, 0)];
    let _ = sample(&rows1, &mut state, &[100], Duration::from_secs(5));
    assert!(state.by_pid.get(&100).unwrap().growth_hint_fired);
}

#[test]
fn process_sample_growth_hint_does_not_fire_for_exited_bracket() {
    let mut state = WatchState::new();
    let rows0 = vec![entry(100, Some("[exited]"), 0, 0)];
    let _ = sample(&rows0, &mut state, &[100], Duration::zero());
    let grown = UNRESOLVED_GROWTH_HINT_BYTES;
    let rows1 = vec![entry(100, Some("[exited]"), grown, 0)];
    let _ = sample(&rows1, &mut state, &[100], Duration::from_secs(5));
    assert!(!state.by_pid.get(&100).unwrap().growth_hint_fired);
}

#[test]
fn resolved_name_passes_through_real_names() {
    assert_eq!(resolved_name(Some("python.exe")), Some("python.exe"));
}

#[test]
fn resolved_name_passes_through_kernel_bracket() {
    assert_eq!(resolved_name(Some("[kernel]")), Some("[kernel]"));
}

#[test]
fn resolved_name_filters_protected_and_exited_brackets() {
    assert_eq!(resolved_name(Some("[protected]")), None);
    assert_eq!(resolved_name(Some("[exited]")), None);
}

#[test]
fn resolved_name_filters_none() {
    assert_eq!(resolved_name(None), None);
}

#[test]
fn watch_state_track_records_first_seen_order_once() {
    let mut state = WatchState::new();
    state.track(100, 1_000, 0);
    state.track(200, 2_000, 0);
    state.track(100, 9_000, 0);
    assert_eq!(state.seen_order, vec![100, 200]);
    assert_eq!(state.by_pid.get(&100).unwrap().baseline_used_bytes, 1_000);
}

#[test]
fn watch_state_track_returns_mutable_existing_entry() {
    let mut state = WatchState::new();
    state.track(100, 1_000, 0).peak_used_bytes = 5_000;
    assert_eq!(state.track(100, 1_000, 0).peak_used_bytes, 5_000);
}

#[test]
fn watch_state_seen_order_survives_pid_dropping_out_of_watched() {
    let mut state = WatchState::new();
    let rows0 = vec![
        entry(100, Some("a.exe"), 1_000, 0),
        entry(200, Some("b.exe"), 500, 0),
    ];
    let _ = sample(&rows0, &mut state, &[100, 200], Duration::zero());

    let rows1 = vec![
        entry(100, Some("a.exe"), 9_000, 0),
        entry(200, Some("b.exe"), 600, 0),
    ];
    let _ = sample(&rows1, &mut state, &[200], Duration::from_secs(5));
    assert_eq!(
        state.by_pid.get(&100).unwrap().peak_used_bytes,
        1_000,
        "excluded PID's state must be untouched while absent from `watched`"
    );

    let rows2 = vec![
        entry(100, Some("a.exe"), 1_200, 0),
        entry(200, Some("b.exe"), 600, 0),
    ];
    let out = sample(&rows2, &mut state, &[100, 200], Duration::from_secs(10));
    let row100 = out.iter().find(|r| r.pid == 100).unwrap();
    assert_eq!(row100.used_delta, 200);
    assert_eq!(state.by_pid.get(&100).unwrap().peak_used_bytes, 1_200);
    assert_eq!(state.seen_order, vec![100, 200]);
}

#[test]
fn resolve_watched_pids_explicit_passthrough_ignores_rows_and_top() {
    let rows = vec![entry(1, Some("a.exe"), 9_000, 0)];
    assert_eq!(resolve_watched_pids(&rows, &[42, 43], 1), vec![42, 43]);
}

#[test]
fn resolve_watched_pids_auto_selects_top_n_from_rows() {
    let rows = vec![
        entry(1, Some("a.exe"), 1_000, 0),
        entry(2, Some("b.exe"), 5_000, 0),
        entry(3, Some("c.exe"), 3_000, 0),
    ];
    assert_eq!(resolve_watched_pids(&rows, &[], 2), vec![2, 3]);
}

#[test]
fn resolve_watched_pids_empty_rows_and_explicit_is_empty() {
    assert!(resolve_watched_pids(&[], &[], 5).is_empty());
}

#[test]
fn format_followed_set_change_none_when_unchanged() {
    let rows = vec![entry(1, Some("a.exe"), 1_000, 0)];
    let state = WatchState::new();
    assert!(format_followed_set_change(&[1], &[1], &rows, &state, Duration::zero()).is_none());
}

#[test]
fn format_followed_set_change_reports_entered_with_name_from_rows() {
    let rows = vec![entry(2, Some("new.exe"), 1_000, 0)];
    let state = WatchState::new();
    let msg = format_followed_set_change(&[1], &[1, 2], &rows, &state, Duration::from_secs(10))
        .unwrap();
    assert!(msg.contains("entered pid=2 (new.exe)"), "{msg}");
    assert!(!msg.contains("left"), "{msg}");
}

#[test]
fn format_followed_set_change_reports_left_with_name_from_state() {
    let rows: Vec<GpuProcessEntry> = vec![];
    let mut state = WatchState::new();
    state.track(1, 1_000, 0).last_name = Some("gone.exe".to_owned());
    let msg =
        format_followed_set_change(&[1], &[], &rows, &state, Duration::from_secs(10)).unwrap();
    assert!(msg.contains("left pid=1 (gone.exe)"), "{msg}");
    assert!(!msg.contains("entered"), "{msg}");
}

#[test]
fn format_followed_set_change_unresolved_name_renders_bare_pid() {
    let rows = vec![entry(2, None, 1_000, 0)];
    let state = WatchState::new();
    let msg = format_followed_set_change(&[1], &[1, 2], &rows, &state, Duration::zero()).unwrap();
    assert!(msg.contains("entered pid=2"), "{msg}");
    assert!(!msg.contains("pid=2 ("), "{msg}");
}

#[test]
fn format_followed_set_change_reports_both_entered_and_left() {
    let rows = vec![entry(2, Some("new.exe"), 1_000, 0)];
    let state = WatchState::new();
    let msg = format_followed_set_change(&[1], &[2], &rows, &state, Duration::zero()).unwrap();
    assert!(msg.contains("entered pid=2 (new.exe)"), "{msg}");
    assert!(msg.contains("left pid=1"), "{msg}");
}

fn pid_summary(
    pid: u32,
    name: Option<&str>,
    baseline_used: u64,
    peak_used: u64,
    baseline_shared: u64,
    peak_shared: u64,
) -> WatchPidSummary {
    WatchPidSummary {
        pid,
        name: name.map(str::to_owned),
        baseline_used_bytes: baseline_used,
        peak_used_bytes: peak_used,
        baseline_shared_bytes: baseline_shared,
        peak_shared_bytes: peak_shared,
    }
}

#[test]
fn format_watch_per_pid_block_empty_is_empty_string() {
    assert_eq!(format_watch_per_pid_block(&[]), "");
}

#[test]
fn format_watch_per_pid_block_single_pid() {
    let s = format_watch_per_pid_block(&[pid_summary(
        12345,
        Some("python.exe"),
        8 * 1024 * 1024 * 1024,
        9 * 1024 * 1024 * 1024,
        100 * 1024 * 1024,
        700 * 1024 * 1024,
    )]);
    assert!(s.contains("12345"));
    assert!(s.contains("python.exe"));
    assert!(s.contains("8.0 GiB"));
    assert!(s.contains("9.0 GiB"));
    assert!(s.contains("100 MiB"));
    assert!(s.contains("700 MiB"));
}

#[test]
fn format_watch_summary_text_unmeasurable_notes_and_still_shows_per_pid() {
    let s = format_watch_summary_text(None, &[pid_summary(1, Some("a.exe"), 0, 0, 0, 0)]);
    assert!(s.contains("spill tracking unavailable"));
    assert!(s.contains("per-PID"));
    assert!(s.contains('1'));
}

#[test]
fn format_watch_summary_text_measurable_uses_watch_prefix() {
    let s = format_watch_summary_text(Some(&spilling_report()), &[]);
    assert!(s.starts_with("hmn watch: peak dedicated"));
}

#[test]
fn format_watch_summary_json_unmeasurable_shape() {
    let s = format_watch_summary_json(None, &[pid_summary(1, Some("a.exe"), 10, 20, 0, 0)]);
    assert!(s.starts_with(
        r#"{"kind":"summary","measurable":false,"spilled":false,"observations":0,"#
    ));
    assert!(s.contains(r#""per_pid":[{"pid":1,"name":"a.exe","baseline_used_bytes":10,"peak_used_bytes":20,"baseline_shared_bytes":0,"peak_shared_bytes":0}]"#));
    assert!(s.ends_with("]}\n"));
}

#[test]
fn format_watch_summary_json_measurable_shape() {
    let s = format_watch_summary_json(Some(&spilling_report()), &[]);
    assert!(s.starts_with(r#"{"kind":"summary","measurable":true,"spilled":true,"#));
    assert!(s.contains(r#""per_pid":[]"#));
}
