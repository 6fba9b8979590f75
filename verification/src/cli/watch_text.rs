//! The watch command: its samples and its closing summary as text and JSON.
use crate::cli::ps_text::{name_cell, name_or_mark};
use crate::cli::spill::{
    format_spill_report_with_prefix, report_members, report_members_string, report_text,
    UNMEASURABLE_MEMBERS,
};
use crate::cli::watch::{WatchSampleRow, WatchState, WatchedPidState};
use crate::json::{json_bool, json_optional, push_json_bool, push_json_optional};
use crate::number::{decimal, decimal_string, push_decimal, push_signed, signed_decimal};
use crate::spill::{total_nanos, SpillReport};
use crate::table::{
    column_widths, grid, lines_text, nat_widths, padded, push_padded, push_row, push_rows,
    row_line, widths_of,
};
use crate::text::{clone_opt, join, joined, opt_text, texts};
use crate::time::{
    duration_ms, elapsed_label, elapsed_label_text, millis_clamped, Duration, MAX_NANOS,
};
use crate::units::{delta_text, format_delta, format_vram, vram_text};
use vstd::prelude::*;

verus! {

broadcast use vstd::std_specs::hash::group_hash_axioms;

// ---------------------------------------------------------------------------
// Samples
// ---------------------------------------------------------------------------

/// The headings of the columns whose width follows the cells.
pub open spec fn watch_header() -> Seq<Seq<char>> {
    seq!["PID"@, "NAME"@, "COMMITTED"@, "ΔCOMMIT"@, "SHARED"@, "ΔSHARED"@, "SPILL"@]
}

fn watch_header_strings() -> (v: Vec<String>)
    ensures
        texts(v@) == watch_header(),
        v@.len() == 7,
{
    let mut v: Vec<String> = Vec::new();
    v.push(String::from_str("PID"));
    v.push(String::from_str("NAME"));
    v.push(String::from_str("COMMITTED"));
    v.push(String::from_str("ΔCOMMIT"));
    v.push(String::from_str("SHARED"));
    v.push(String::from_str("ΔSHARED"));
    v.push(String::from_str("SPILL"));
    assert(texts(v@) =~= watch_header());
    v
}

/// The line of headings that a watch starts with: columns of fixed width.
pub open spec fn watch_header_line() -> Seq<char> {
    row_line(
        padded("TIME"@, 8) + "  "@,
        watch_header(),
        seq![6nat, 12nat, 9nat, 9nat, 9nat, 9nat, 5nat],
    )
}

/// The line of headings that a watch starts with.
pub fn format_watch_header_text() -> (s: String)
    ensures
        s@ == watch_header_line(),
{
    let mut prefix = String::new();
    push_padded(&mut prefix, "TIME", 8);
    prefix.append("  ");
    assert(prefix@ =~= padded("TIME"@, 8) + "  "@);
    let header = watch_header_strings();
    let widths: Vec<usize> = vec![6, 12, 9, 9, 9, 9, 5];
    assert(nat_widths(widths@) =~= seq![6nat, 12nat, 9nat, 9nat, 9nat, 9nat, 5nat]);
    let mut s = String::new();
    push_row(&mut s, prefix.as_str(), &header, &widths);
    assert(s@ =~= watch_header_line());
    s
}

/// The cells of a sample row.
pub open spec fn watch_cells(r: WatchSampleRow) -> Seq<Seq<char>> {
    seq![
        decimal(r.pid as nat),
        name_or_mark(opt_text(r.name)),
        vram_text(r.used_bytes as nat),
        delta_text(r.used_delta as int),
        vram_text(r.shared_bytes as nat),
        delta_text(r.shared_delta as int),
        if r.spilling {
            "SPILL"@
        } else {
            "no"@
        },
    ]
}

/// The cells of all rows.
pub open spec fn watch_grid(rows: Seq<WatchSampleRow>) -> Seq<Seq<Seq<char>>> {
    rows.map_values(|r: WatchSampleRow| watch_cells(r))
}

/// What stands before the cells of a sample taken after `nanos`.
pub open spec fn time_column(nanos: nat) -> Seq<char> {
    padded(elapsed_label_text(nanos), 8) + "  "@
}

/// A sample as text: one line per row, under the time.
pub open spec fn watch_rows_text(nanos: nat, rows: Seq<WatchSampleRow>) -> Seq<char> {
    lines_text(
        time_column(nanos),
        watch_grid(rows),
        widths_of(watch_header(), watch_grid(rows)),
        rows.len(),
    )
}

fn watch_cell_strings(r: &WatchSampleRow) -> (v: Vec<String>)
    ensures
        texts(v@) == watch_cells(*r),
        v@.len() == 7,
{
    let mut v: Vec<String> = Vec::new();
    v.push(decimal_string(r.pid as u64));
    v.push(name_cell(&r.name));
    v.push(format_vram(r.used_bytes));
    v.push(format_delta(r.used_delta));
    v.push(format_vram(r.shared_bytes));
    v.push(format_delta(r.shared_delta));
    v.push(
        if r.spilling {
            String::from_str("SPILL")
        } else {
            String::from_str("no")
        },
    );
    assert(texts(v@) =~= watch_cells(*r));
    v
}

/// A sample as text. The columns are as wide as the cells of this sample need.
pub fn format_watch_rows_text(elapsed: Duration, rows: &[WatchSampleRow]) -> (s: String)
    ensures
        s@ == watch_rows_text(elapsed@, rows@),
{
    let label = elapsed_label(elapsed);
    let mut prefix = String::new();
    push_padded(&mut prefix, label.as_str(), 8);
    prefix.append("  ");
    assert(prefix@ =~= time_column(elapsed@));
    let header = watch_header_strings();
    let mut cells: Vec<Vec<String>> = Vec::new();
    let mut i: usize = 0;
    while i < rows.len()
        invariant
            i <= rows@.len(),
            cells@.len() == i,
            forall|k: int|
                0 <= k < i ==> texts((#[trigger] cells@[k])@) == watch_cells(rows@[k])
                    && cells@[k]@.len() == 7,
        decreases rows@.len() - i,
    {
        cells.push(watch_cell_strings(&rows[i]));
        i += 1;
    }
    assert(grid(cells@) =~= watch_grid(rows@));
    let widths = column_widths(&header, &cells);
    let mut s = String::new();
    push_rows(&mut s, prefix.as_str(), &cells, &widths);
    assert(s@ =~= watch_rows_text(elapsed@, rows@));
    s
}

/// The JSON line of a sample row taken after `nanos`.
pub open spec fn sample_object(nanos: nat, r: WatchSampleRow) -> Seq<char> {
    "{\"kind\":\"sample\",\"t_ms\":"@ + decimal(millis_clamped(nanos)) + ",\"pid\":"@ + decimal(
        r.pid as nat,
    ) + ",\"name\":"@ + json_optional(opt_text(r.name)) + ",\"used_bytes\":"@ + decimal(
        r.used_bytes as nat,
    ) + ",\"used_delta_bytes\":"@ + signed_decimal(r.used_delta as int)
        + ",\"shared_used_bytes\":"@ + decimal(r.shared_bytes as nat)
        + ",\"shared_delta_bytes\":"@ + signed_decimal(r.shared_delta as int)
        + ",\"spilling\":"@ + json_bool(r.spilling) + "}\n"@
}

/// A sample as JSON lines: one object per row.
pub open spec fn watch_rows_json(nanos: nat, rows: Seq<WatchSampleRow>) -> Seq<char>
    decreases rows.len(),
{
    if rows.len() == 0 {
        seq![]
    } else {
        watch_rows_json(nanos, rows.drop_last()) + sample_object(nanos, rows.last())
    }
}

fn sample_object_string(elapsed: Duration, r: &WatchSampleRow) -> (s: String)
    ensures
        s@ == sample_object(elapsed@, *r),
{
    let mut s = String::from_str("{\"kind\":\"sample\",\"t_ms\":");
    push_decimal(&mut s, duration_ms(elapsed));
    s.append(",\"pid\":");
    push_decimal(&mut s, r.pid as u64);
    s.append(",\"name\":");
    push_json_optional(&mut s, &r.name);
    s.append(",\"used_bytes\":");
    push_decimal(&mut s, r.used_bytes);
    s.append(",\"used_delta_bytes\":");
    push_signed(&mut s, r.used_delta);
    s.append(",\"shared_used_bytes\":");
    push_decimal(&mut s, r.shared_bytes);
    s.append(",\"shared_delta_bytes\":");
    push_signed(&mut s, r.shared_delta);
    s.append(",\"spilling\":");
    push_json_bool(&mut s, r.spilling);
    s.append("}\n");
    s
}

/// A sample as JSON lines.
pub fn format_watch_rows_json(elapsed: Duration, rows: &[WatchSampleRow]) -> (s: String)
    ensures
        s@ == watch_rows_json(elapsed@, rows@),
{
    let mut s = String::new();
    let mut i: usize = 0;
    assert(rows@.take(0) =~= seq![]);
    while i < rows.len()
        invariant
            i <= rows@.len(),
            s@ == watch_rows_json(elapsed@, rows@.take(i as int)),
        decreases rows@.len() - i,
    {
        assert(rows@.take(i + 1).drop_last() =~= rows@.take(i as int));
        assert(rows@.take(i + 1).last() == rows@[i as int]);
        let line = sample_object_string(elapsed, &rows[i]);
        s.append(line.as_str());
        i += 1;
    }
    assert(rows@.take(i as int) =~= rows@);
    s
}

// ---------------------------------------------------------------------------
// Summary
// ---------------------------------------------------------------------------

/// What the closing summary says of one process.
#[derive(Debug)]
pub struct WatchPidSummary {
    /// Process ID.
    pub pid: u32,
    /// The latest name that identified it.
    pub name: Option<String>,
    /// GPU memory at the first sample.
    pub baseline_used_bytes: u64,
    /// Most GPU memory at any sample.
    pub peak_used_bytes: u64,
    /// Shared memory at the first sample.
    pub baseline_shared_bytes: u64,
    /// Most shared memory at any sample.
    pub peak_shared_bytes: u64,
}

/// The summary of a process.
pub open spec fn summary_of(pid: u32, s: WatchedPidState) -> WatchPidSummary {
    WatchPidSummary {
        pid,
        name: s.last_name,
        baseline_used_bytes: s.baseline_used_bytes,
        peak_used_bytes: s.peak_used_bytes,
        baseline_shared_bytes: s.baseline_shared_bytes,
        peak_shared_bytes: s.peak_shared_bytes,
    }
}

/// The summaries of all processes ever watched, in the order in which they were first seen.
pub open spec fn summaries(state: WatchState) -> Seq<WatchPidSummary> {
    state.seen_order@.map_values(|p: u32| summary_of(p, state.by_pid@[p]))
}

/// The summaries of all processes ever watched, in the order in which they were first seen.
pub fn summarize(state: &WatchState) -> (v: Vec<WatchPidSummary>)
    requires
        state.well_formed(),
    ensures
        v@ == summaries(*state),
{
    let mut v: Vec<WatchPidSummary> = Vec::new();
    let mut i: usize = 0;
    while i < state.seen_order.len()
        invariant
            i <= state.seen_order@.len(),
            state.well_formed(),
            v@.len() == i,
            forall|k: int| 0 <= k < i ==> #[trigger] v@[k] == summaries(*state)[k],
        decreases state.seen_order@.len() - i,
    {
        let pid = state.seen_order[i];
        assert(state.seen_order@.contains(pid));
        assert(state.by_pid@.contains_key(pid));
        match state.by_pid.get(&pid) {
            Some(s) => {
                v.push(
                    WatchPidSummary {
                        pid,
                        name: clone_opt(&s.last_name),
                        baseline_used_bytes: s.baseline_used_bytes,
                        peak_used_bytes: s.peak_used_bytes,
                        baseline_shared_bytes: s.baseline_shared_bytes,
                        peak_shared_bytes: s.peak_shared_bytes,
                    },
                );
            },
            None => {},
        }
        i += 1;
    }
    assert(v@ =~= summaries(*state));
    v
}

/// The headings of the summary of processes.
pub open spec fn per_pid_header() -> Seq<Seq<char>> {
    seq![
        "PID"@,
        "NAME"@,
        "BASELINE COMMIT"@,
        "PEAK COMMIT"@,
        "BASELINE SHARED"@,
        "PEAK SHARED"@,
    ]
}

/// The cells of the summary of a process.
pub open spec fn per_pid_cells(p: WatchPidSummary) -> Seq<Seq<char>> {
    seq![
        decimal(p.pid as nat),
        name_or_mark(opt_text(p.name)),
        vram_text(p.baseline_used_bytes as nat),
        vram_text(p.peak_used_bytes as nat),
        vram_text(p.baseline_shared_bytes as nat),
        vram_text(p.peak_shared_bytes as nat),
    ]
}

/// The cells of the summaries of all processes.
pub open spec fn per_pid_grid(per_pid: Seq<WatchPidSummary>) -> Seq<Seq<Seq<char>>> {
    per_pid.map_values(|p: WatchPidSummary| per_pid_cells(p))
}

/// The summary of processes as a table; nothing where there is none.
pub open spec fn per_pid_block(per_pid: Seq<WatchPidSummary>) -> Seq<char> {
    if per_pid.len() == 0 {
        seq![]
    } else {
        let widths = widths_of(per_pid_header(), per_pid_grid(per_pid));
        row_line("hmn watch: per-PID  "@, per_pid_header(), widths) + lines_text(
            "                    "@,
            per_pid_grid(per_pid),
            widths,
            per_pid.len(),
        )
    }
}

fn per_pid_cell_strings(p: &WatchPidSummary) -> (v: Vec<String>)
    ensures
        texts(v@) == per_pid_cells(*p),
        v@.len() == 6,
{
    let mut v: Vec<String> = Vec::new();
    v.push(decimal_string(p.pid as u64));
    v.push(name_cell(&p.name));
    v.push(format_vram(p.baseline_used_bytes));
    v.push(format_vram(p.peak_used_bytes));
    v.push(format_vram(p.baseline_shared_bytes));
    v.push(format_vram(p.peak_shared_bytes));
    assert(texts(v@) =~= per_pid_cells(*p));
    v
}

/// The summary of processes as a table; nothing where there is none.
pub fn format_watch_per_pid_block(per_pid: &[WatchPidSummary]) -> (s: String)
    ensures
        s@ == per_pid_block(per_pid@),
{
    if per_pid.len() == 0 {
        return String::new();
    }
    let mut header: Vec<String> = Vec::new();
    header.push(String::from_str("PID"));
    header.push(String::from_str("NAME"));
    header.push(String::from_str("BASELINE COMMIT"));
    header.push(String::from_str("PEAK COMMIT"));
    header.push(String::from_str("BASELINE SHARED"));
    header.push(String::from_str("PEAK SHARED"));
    assert(texts(header@) =~= per_pid_header());
    let mut cells: Vec<Vec<String>> = Vec::new();
    let mut i: usize = 0;
    while i < per_pid.len()
        invariant
            i <= per_pid@.len(),
            cells@.len() == i,
            forall|k: int|
                0 <= k < i ==> texts((#[trigger] cells@[k])@) == per_pid_cells(per_pid@[k])
                    && cells@[k]@.len() == 6,
        decreases per_pid@.len() - i,
    {
        cells.push(per_pid_cell_strings(&per_pid[i]));
        i += 1;
    }
    assert(grid(cells@) =~= per_pid_grid(per_pid@));
    let widths = column_widths(&header, &cells);
    let mut s = String::new();
    push_row(&mut s, "hmn watch: per-PID  ", &header, &widths);
    assert(s@ =~= row_line("hmn watch: per-PID  "@, per_pid_header(), nat_widths(widths@)));
    push_rows(&mut s, "                    ", &cells, &widths);
    s
}

/// The closing summary as text: the report of the adapter, or that there is none, then
/// the processes.
pub open spec fn watch_summary_text(
    report: Option<SpillReport>,
    per_pid: Seq<WatchPidSummary>,
) -> Seq<char> {
    (match report {
        Some(r) => report_text("hmn watch"@, r),
        None => "hmn watch: spill tracking unavailable for this run; per-PID VRAM below\n"@,
    }) + per_pid_block(per_pid)
}

/// The closing summary as text.
pub fn format_watch_summary_text(
    report: Option<&SpillReport>,
    per_pid: &[WatchPidSummary],
) -> (s: String)
    requires
        report matches Some(r) ==> total_nanos(r.episodes@) <= MAX_NANOS,
    ensures
        s@ == watch_summary_text(
            match report {
                Some(r) => Some(*r),
                None => None,
            },
            per_pid@,
        ),
{
    let mut s = match report {
        Some(r) => format_spill_report_with_prefix("hmn watch", r),
        None => String::from_str(
            "hmn watch: spill tracking unavailable for this run; per-PID VRAM below\n",
        ),
    };
    let block = format_watch_per_pid_block(per_pid);
    s.append(block.as_str());
    s
}

/// The JSON object of the summary of a process.
pub open spec fn per_pid_object(p: WatchPidSummary) -> Seq<char> {
    "{\"pid\":"@ + decimal(p.pid as nat) + ",\"name\":"@ + json_optional(opt_text(p.name))
        + ",\"baseline_used_bytes\":"@ + decimal(p.baseline_used_bytes as nat)
        + ",\"peak_used_bytes\":"@ + decimal(p.peak_used_bytes as nat)
        + ",\"baseline_shared_bytes\":"@ + decimal(p.baseline_shared_bytes as nat)
        + ",\"peak_shared_bytes\":"@ + decimal(p.peak_shared_bytes as nat) + "}"@
}

/// The closing summary as a JSON object.
pub open spec fn watch_summary_json(
    report: Option<SpillReport>,
    per_pid: Seq<WatchPidSummary>,
) -> Seq<char> {
    "{\"kind\":\"summary\","@ + (match report {
        Some(r) => report_members(r),
        None => UNMEASURABLE_MEMBERS@,
    }) + ",\"per_pid\":["@ + joined(
        per_pid.map_values(|p: WatchPidSummary| per_pid_object(p)),
        ","@,
    ) + "]}\n"@
}

fn per_pid_object_string(p: &WatchPidSummary) -> (s: String)
    ensures
        s@ == per_pid_object(*p),
{
    let mut s = String::from_str("{\"pid\":");
    push_decimal(&mut s, p.pid as u64);
    s.append(",\"name\":");
    push_json_optional(&mut s, &p.name);
    s.append(",\"baseline_used_bytes\":");
    push_decimal(&mut s, p.baseline_used_bytes);
    s.append(",\"peak_used_bytes\":");
    push_decimal(&mut s, p.peak_used_bytes);
    s.append(",\"baseline_shared_bytes\":");
    push_decimal(&mut s, p.baseline_shared_bytes);
    s.append(",\"peak_shared_bytes\":");
    push_decimal(&mut s, p.peak_shared_bytes);
    s.append("}");
    s
}

/// The closing summary as a JSON object; one shape whether there is a report or not.
pub fn format_watch_summary_json(
    report: Option<&SpillReport>,
    per_pid: &[WatchPidSummary],
) -> (s: String)
    requires
        report matches Some(r) ==> total_nanos(r.episodes@) <= MAX_NANOS,
    ensures
        s@ == watch_summary_json(
            match report {
                Some(r) => Some(*r),
                None => None,
            },
            per_pid@,
        ),
{
    let mut s = String::from_str("{\"kind\":\"summary\",");
    match report {
        Some(r) => {
            let members = report_members_string(r);
            s.append(members.as_str());
        },
        None => {
            s.append(UNMEASURABLE_MEMBERS);
        },
    }
    s.append(",\"per_pid\":[");
    let mut objects: Vec<String> = Vec::new();
    let mut i: usize = 0;
    while i < per_pid.len()
        invariant
            i <= per_pid@.len(),
            objects@.len() == i,
            forall|k: int| 0 <= k < i ==> (#[trigger] objects@[k])@ == per_pid_object(per_pid@[k]),
        decreases per_pid@.len() - i,
    {
        objects.push(per_pid_object_string(&per_pid[i]));
        i += 1;
    }
    assert(texts(objects@) =~= per_pid@.map_values(|p: WatchPidSummary| per_pid_object(p)));
    let body = join(&objects, ",");
    s.append(body.as_str());
    s.append("]}\n");
    s
}

} // verus!
