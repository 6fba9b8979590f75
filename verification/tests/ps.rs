//! The process listing and the device summary.
use hypomnesis::cli::ps::{ps_row_comparator, select_top_n_pids, PsRow, SortKey};
use hypomnesis::cli::ps_text::{format_ps_json, format_ps_summary, format_ps_table};
use hypomnesis::cli::summary::{format_summary, format_summary_json};

fn row(
    pid: u32,
    name: Option<&str>,
    used_bytes: u64,
    device_index: u32,
    device_name: Option<&str>,
) -> PsRow {
    PsRow {
        pid,
        name: name.map(str::to_owned),
        used_bytes,
        shared_used_bytes: 0,
        device_index,
        device_name: device_name.map(str::to_owned),
    }
}

fn row_shared(pid: u32, name: Option<&str>, used_bytes: u64, shared_used_bytes: u64) -> PsRow {
    PsRow {
        pid,
        name: name.map(str::to_owned),
        used_bytes,
        shared_used_bytes,
        device_index: 0,
        device_name: None,
    }
}

#[test]
fn format_ps_table_empty_prints_header_only() {
    let s = format_ps_table(&[]);
    assert_eq!(s, "PID  NAME  VRAM  SHARED  DEVICE\n");
}

#[test]
fn format_ps_table_single_row() {
    let r = row(
        12345,
        Some("python.exe"),
        8_589_934_592,
        0,
        Some("RTX 5060 Ti"),
    );
    let s = format_ps_table(&[r]);
    let expected = "PID    NAME        VRAM     SHARED  DEVICE     \n\
                    12345  python.exe  8.0 GiB  0 MiB   RTX 5060 Ti\n";
    assert_eq!(s, expected);
}

#[test]
fn format_ps_table_protected_name_renders_question_mark() {
    let r = row(99, Some("?"), 268_435_456, 0, Some("RTX 5060 Ti"));
    let s = format_ps_table(&[r]);
    let expected = "PID  NAME  VRAM     SHARED  DEVICE     \n\
                    99   ?     256 MiB  0 MiB   RTX 5060 Ti\n";
    assert_eq!(s, expected);
}

#[test]
fn format_ps_table_missing_name_renders_question_mark() {
    let r = row(99, None, 268_435_456, 0, Some("RTX 5060 Ti"));
    let s = format_ps_table(&[r]);
    let expected = "PID  NAME  VRAM     SHARED  DEVICE     \n\
                    99   ?     256 MiB  0 MiB   RTX 5060 Ti\n";
    assert_eq!(s, expected);
}

#[test]
fn format_ps_table_falls_back_to_gpu_n_when_no_device_name() {
    let r = row(99, Some("python.exe"), 268_435_456, 3, None);
    let s = format_ps_table(&[r]);
    assert!(s.contains("python.exe  256 MiB  0 MiB   GPU 3"));
}

#[test]
fn format_ps_table_shared_column_renders_nonzero_bytes() {
    let r = row_shared(
        77,
        Some("py.exe"),
        16 * 1024 * 1024 * 1024,
        2 * 1024 * 1024 * 1024,
    );
    let s = format_ps_table(&[r]);
    assert!(s.contains("16.0 GiB  2.0 GiB"));
}

#[test]
fn format_ps_json_empty() {
    assert_eq!(format_ps_json(&[]), "[]\n");
}

#[test]
fn format_ps_json_single_row() {
    let r = row(
        12345,
        Some("python.exe"),
        8 * 1_048_576,
        0,
        Some("RTX 5060 Ti"),
    );
    let s = format_ps_json(&[r]);
    assert_eq!(
        s,
        "[{\"pid\":12345,\"name\":\"python.exe\",\"used_bytes\":8388608,\"shared_used_bytes\":0,\"device_index\":0,\"device_name\":\"RTX 5060 Ti\"}]\n"
    );
}

#[test]
fn format_ps_json_null_name() {
    let r = row(42, None, 0, 0, None);
    let s = format_ps_json(&[r]);
    assert_eq!(
        s,
        "[{\"pid\":42,\"name\":null,\"used_bytes\":0,\"shared_used_bytes\":0,\"device_index\":0,\"device_name\":null}]\n"
    );
}

#[test]
fn format_ps_json_two_rows_comma_separated() {
    let a = row(1, Some("a.exe"), 1_048_576, 0, Some("GPU"));
    let b = row(2, Some("b.exe"), 2_097_152, 0, Some("GPU"));
    let s = format_ps_json(&[a, b]);
    assert_eq!(
        s,
        "[{\"pid\":1,\"name\":\"a.exe\",\"used_bytes\":1048576,\"shared_used_bytes\":0,\"device_index\":0,\"device_name\":\"GPU\"},\
         {\"pid\":2,\"name\":\"b.exe\",\"used_bytes\":2097152,\"shared_used_bytes\":0,\"device_index\":0,\"device_name\":\"GPU\"}]\n"
    );
}

#[test]
fn format_ps_json_nonzero_shared_bytes() {
    let r = row_shared(7, Some("py.exe"), 1_048_576, 424_242);
    let s = format_ps_json(&[r]);
    assert!(s.contains("\"used_bytes\":1048576,\"shared_used_bytes\":424242,"));
}

#[test]
fn format_ps_json_escapes_quotes_in_name() {
    let r = row(1, Some(r#"weird"name"#), 0, 0, None);
    let s = format_ps_json(&[r]);
    assert!(s.contains(r#""name":"weird\"name""#));
}

#[test]
fn format_summary_empty_input() {
    assert_eq!(format_summary(&[]), "");
}

#[test]
fn format_summary_json_empty_input() {
    assert_eq!(format_summary_json(&[]), "[]\n");
}

fn unprotected_rows(n: u32) -> Vec<PsRow> {
    (0..n)
        .map(|i| row(1000 + i, Some("test.exe"), 0, 0, None))
        .collect()
}

fn protected_rows(n: u32) -> Vec<PsRow> {
    (0..n).map(|i| row(2000 + i, None, 0, 0, None)).collect()
}

#[test]
fn format_ps_summary_zero_no_filters() {
    assert_eq!(
        format_ps_summary(&unprotected_rows(0), None, None),
        "0 GPU processes found."
    );
}

#[test]
fn format_ps_summary_one_no_filters() {
    assert_eq!(
        format_ps_summary(&unprotected_rows(1), None, None),
        "1 GPU process found (0 MiB committed total)."
    );
}

#[test]
fn format_ps_summary_many_no_filters() {
    assert_eq!(
        format_ps_summary(&unprotected_rows(7), None, None),
        "7 GPU processes found (0 MiB committed total)."
    );
}

#[test]
fn format_ps_summary_with_pid_filter() {
    assert_eq!(
        format_ps_summary(&unprotected_rows(0), Some(12345), None),
        "0 GPU processes found matching pid=12345."
    );
}

#[test]
fn format_ps_summary_with_device_filter() {
    assert_eq!(
        format_ps_summary(&unprotected_rows(2), None, Some(0)),
        "2 GPU processes found matching device=0 (0 MiB committed total)."
    );
}

#[test]
fn format_ps_summary_with_both_filters() {
    assert_eq!(
        format_ps_summary(&unprotected_rows(1), Some(99), Some(1)),
        "1 GPU process found matching pid=99 device=1 (0 MiB committed total)."
    );
}

#[test]
fn format_ps_summary_with_committed_total_gib() {
    const FOUR_GIB: u64 = 4 * 1024 * 1024 * 1024;
    let rows = vec![
        row(1001, Some("a.exe"), FOUR_GIB, 0, None),
        row(1002, Some("b.exe"), FOUR_GIB, 0, None),
        row(1003, Some("c.exe"), FOUR_GIB, 0, None),
    ];
    assert_eq!(
        format_ps_summary(&rows, None, None),
        "3 GPU processes found (12.0 GiB committed total)."
    );
}

#[test]
fn format_ps_summary_with_committed_total_mib() {
    const QUARTER_GIB: u64 = 256 * 1024 * 1024;
    let rows = vec![
        row(1001, Some("a.exe"), QUARTER_GIB, 0, None),
        row(1002, Some("b.exe"), QUARTER_GIB, 0, None),
    ];
    assert_eq!(
        format_ps_summary(&rows, None, None),
        "2 GPU processes found (512 MiB committed total)."
    );
}

#[test]
fn format_ps_summary_one_protected_appends_parenthetical() {
    let mut rows = unprotected_rows(3);
    rows.extend(protected_rows(1));
    assert_eq!(
        format_ps_summary(&rows, None, None),
        "4 GPU processes found (0 MiB committed total; 1 protected — re-run elevated for names)."
    );
}

#[test]
fn format_ps_summary_many_protected_appends_parenthetical() {
    let mut rows = unprotected_rows(28);
    rows.extend(protected_rows(4));
    assert_eq!(
        format_ps_summary(&rows, None, None),
        "32 GPU processes found (0 MiB committed total; 4 protected — re-run elevated for names)."
    );
}

#[test]
fn format_ps_summary_all_protected() {
    let rows = protected_rows(3);
    assert_eq!(
        format_ps_summary(&rows, None, None),
        "3 GPU processes found (0 MiB committed total; 3 protected — re-run elevated for names)."
    );
}

#[test]
fn format_ps_summary_zero_protected_elides_protected_part_keeps_total() {
    assert_eq!(
        format_ps_summary(&unprotected_rows(5), None, None),
        "5 GPU processes found (0 MiB committed total)."
    );
}

#[test]
fn format_ps_summary_protected_with_filters_both_appear() {
    let mut rows = unprotected_rows(2);
    rows.extend(protected_rows(1));
    assert_eq!(
        format_ps_summary(&rows, Some(42), Some(0)),
        "3 GPU processes found matching pid=42 device=0 (0 MiB committed total; 1 protected — re-run elevated for names)."
    );
}

#[test]
fn format_ps_summary_bracket_protected_string_counts_as_protected() {
    let mut rows = unprotected_rows(2);
    rows.push(row(3000, Some("[protected]"), 0, 0, None));
    assert_eq!(
        format_ps_summary(&rows, None, None),
        "3 GPU processes found (0 MiB committed total; 1 protected — re-run elevated for names)."
    );
}

#[test]
fn format_ps_summary_nvidia_smi_question_mark_counts_as_protected() {
    let mut rows = unprotected_rows(2);
    rows.push(row(3002, Some("?"), 0, 0, None));
    assert_eq!(
        format_ps_summary(&rows, None, None),
        "3 GPU processes found (0 MiB committed total; 1 protected — re-run elevated for names)."
    );
}

#[test]
fn format_ps_summary_bracket_exited_string_does_not_count_as_protected() {
    let mut rows = unprotected_rows(2);
    rows.push(row(3001, Some("[exited]"), 0, 0, None));
    assert_eq!(
        format_ps_summary(&rows, None, None),
        "3 GPU processes found (0 MiB committed total)."
    );
}

#[test]
fn format_ps_summary_kernel_bracket_does_not_count_as_protected() {
    let mut rows = unprotected_rows(2);
    rows.push(row(4, Some("[kernel]"), 0, 0, None));
    assert_eq!(
        format_ps_summary(&rows, None, None),
        "3 GPU processes found (0 MiB committed total)."
    );
}

fn row_full(pid: u32, name: &str, used_bytes: u64, shared_used_bytes: u64) -> PsRow {
    PsRow {
        pid,
        name: Some(name.to_owned()),
        used_bytes,
        shared_used_bytes,
        device_index: 0,
        device_name: None,
    }
}

fn sorted_pids(rows: &mut [PsRow], key: SortKey) -> Vec<u32> {
    rows.sort_by(|a, b| ps_row_comparator(key, a, b));
    rows.iter().map(|r| r.pid).collect()
}

#[test]
fn ps_row_comparator_dedicated_descending() {
    let mut rows = vec![
        row_full(1, "a.exe", 1_000, 9_000),
        row_full(2, "b.exe", 5_000, 0),
        row_full(3, "c.exe", 3_000, 0),
    ];
    assert_eq!(sorted_pids(&mut rows, SortKey::Dedicated), vec![2, 3, 1]);
}

#[test]
fn ps_row_comparator_shared_descending() {
    let mut rows = vec![
        row_full(1, "a.exe", 1_000, 9_000),
        row_full(2, "b.exe", 5_000, 0),
        row_full(3, "c.exe", 3_000, 2_000),
    ];
    assert_eq!(sorted_pids(&mut rows, SortKey::Shared), vec![1, 3, 2]);
}

#[test]
fn ps_row_comparator_total_descending_differs_from_dedicated_and_shared() {
    let mut rows = vec![
        row_full(1, "a.exe", 4_000, 6_000),
        row_full(2, "b.exe", 8_000, 0),
        row_full(3, "c.exe", 0, 7_000),
    ];
    assert_eq!(sorted_pids(&mut rows, SortKey::Total), vec![1, 2, 3]);
    assert_eq!(sorted_pids(&mut rows, SortKey::Dedicated), vec![2, 1, 3]);
    assert_eq!(sorted_pids(&mut rows, SortKey::Shared), vec![3, 1, 2]);
}

#[test]
fn ps_row_comparator_tie_break_identical_across_keys() {
    let mut rows = vec![
        row_full(20, "b.exe", 1_000, 1_000),
        row_full(10, "a.exe", 1_000, 1_000),
    ];
    for key in [SortKey::Dedicated, SortKey::Shared, SortKey::Total] {
        assert_eq!(sorted_pids(&mut rows, key), vec![10, 20], "key {key:?}");
    }
}

#[test]
fn ps_row_comparator_total_saturates_instead_of_overflowing() {
    let mut rows = vec![
        row_full(1, "a.exe", u64::MAX, u64::MAX),
        row_full(2, "b.exe", 1_000, 0),
    ];
    assert_eq!(sorted_pids(&mut rows, SortKey::Total), vec![1, 2]);
}

#[test]
fn select_top_n_pids_orders_by_committed_descending() {
    let rows = vec![
        row(1, Some("a.exe"), 1_000, 0, None),
        row(2, Some("b.exe"), 5_000, 0, None),
        row(3, Some("c.exe"), 3_000, 0, None),
    ];
    assert_eq!(select_top_n_pids(&rows, 2), vec![2, 3]);
}

#[test]
fn select_top_n_pids_n_larger_than_rows_returns_all() {
    let rows = vec![row(1, Some("a.exe"), 1_000, 0, None)];
    assert_eq!(select_top_n_pids(&rows, 5), vec![1]);
}

#[test]
fn select_top_n_pids_empty_rows() {
    assert!(select_top_n_pids(&[], 5).is_empty());
}

#[test]
fn select_top_n_pids_ties_break_by_pid_ascending() {
    let rows = vec![
        row(20, Some("b.exe"), 1_000, 0, None),
        row(10, Some("a.exe"), 1_000, 0, None),
    ];
    assert_eq!(select_top_n_pids(&rows, 2), vec![10, 20]);
}

#[test]
fn select_top_n_pids_ties_break_by_name_before_pid() {
    let rows = vec![
        row(1, Some("z.exe"), 1_000, 0, None),
        row(99, Some("a.exe"), 1_000, 0, None),
    ];
    assert_eq!(select_top_n_pids(&rows, 2), vec![99, 1]);
}
