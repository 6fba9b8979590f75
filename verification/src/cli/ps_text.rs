//! The process listing: collecting the rows, and rendering them as table, JSON and summary.
use crate::cli::ps::{
    in_display_order, plain, ranked, sort_rows, PsRow, RankedRow, SortKey,
};
use crate::cli::Printed;
use crate::json::{json_optional, push_json_optional};
use crate::number::{decimal, decimal_string, push_decimal};
use crate::snapshot::GpuProcessEntry;
use crate::sort::{inserted, sorted, Ranked};
use crate::table::{
    column_widths, grid, lines_text, nat_widths, push_row, push_rows, row_line, widths_of,
};
use crate::text::{clone_opt, join, joined, opt_text, same_str, texts};
use crate::units::{format_vram, vram_text};
use vstd::prelude::*;

verus! {

// ---------------------------------------------------------------------------
// Collecting
// ---------------------------------------------------------------------------

/// The devices to list: the one asked for, else all that were counted.
pub open spec fn indices_to_list(device_filter: Option<u32>, count: Option<u32>) -> Seq<u32> {
    match device_filter {
        Some(d) => seq![d],
        None => Seq::new(
            match count {
                Some(n) => n as nat,
                None => 0,
            },
            |i: int| i as u32,
        ),
    }
}

/// The devices to list: the one asked for, else all that were counted; none where they
/// could not be counted.
pub fn device_indices(device_filter: Option<u32>, count: Option<u32>) -> (v: Vec<u32>)
    ensures
        v@ == indices_to_list(device_filter, count),
{
    let mut v: Vec<u32> = Vec::new();
    match device_filter {
        Some(d) => {
            v.push(d);
        },
        None => {
            let n: u32 = match count {
                Some(n) => n,
                None => 0,
            };
            let mut i: u32 = 0;
            while i < n
                invariant
                    i <= n,
                    v@.len() == i,
                    forall|k: int| 0 <= k < i ==> #[trigger] v@[k] == k,
                decreases n - i,
            {
                v.push(i);
                i += 1;
            }
        },
    }
    assert(v@ =~= indices_to_list(device_filter, count));
    v
}

/// What is known of one device: its name, and its processes, `None` where they could not
/// be listed.
#[derive(Debug)]
pub struct PsDevice {
    /// Zero-based device index.
    pub index: u32,
    /// Device name.
    pub name: Option<String>,
    /// Its processes.
    pub entries: Option<Vec<GpuProcessEntry>>,
}

/// Whether the process passes the filter.
pub open spec fn passes(pid_filter: Option<u32>, pid: u32) -> bool {
    match pid_filter {
        Some(p) => p == pid,
        None => true,
    }
}

/// The row of an entry.
pub open spec fn row_of(e: GpuProcessEntry, index: u32, device_name: Option<String>) -> PsRow {
    PsRow {
        pid: e.pid,
        name: e.name,
        used_bytes: e.used_bytes,
        shared_used_bytes: e.shared_used_bytes,
        device_index: index,
        device_name,
    }
}

/// The rows of the entries that pass the filter, in order.
pub open spec fn rows_of_entries(
    entries: Seq<GpuProcessEntry>,
    index: u32,
    device_name: Option<String>,
    pid_filter: Option<u32>,
) -> Seq<PsRow>
    decreases entries.len(),
{
    if entries.len() == 0 {
        seq![]
    } else {
        let init = rows_of_entries(entries.drop_last(), index, device_name, pid_filter);
        if passes(pid_filter, entries.last().pid) {
            init.push(row_of(entries.last(), index, device_name))
        } else {
            init
        }
    }
}

/// The rows of all devices, in order; a device that could not be listed has none.
pub open spec fn rows_of_devices(
    devices: Seq<PsDevice>,
    pid_filter: Option<u32>,
) -> Seq<PsRow>
    decreases devices.len(),
{
    if devices.len() == 0 {
        seq![]
    } else {
        let d = devices.last();
        rows_of_devices(devices.drop_last(), pid_filter) + match d.entries {
            Some(v) => rows_of_entries(v@, d.index, d.name, pid_filter),
            None => seq![],
        }
    }
}

/// Collect the rows of all devices.
pub fn collect_rows(devices: Vec<PsDevice>, pid_filter: Option<u32>) -> (rows: Vec<PsRow>)
    ensures
        rows@ == rows_of_devices(devices@, pid_filter),
{
    let mut rows: Vec<PsRow> = Vec::new();
    let mut i: usize = 0;
    assert(devices@.take(0) =~= seq![]);
    while i < devices.len()
        invariant
            i <= devices@.len(),
            rows@ == rows_of_devices(devices@.take(i as int), pid_filter),
        decreases devices@.len() - i,
    {
        let d = &devices[i];
        assert(devices@.take(i + 1).drop_last() =~= devices@.take(i as int));
        assert(devices@.take(i + 1).last() == *d);
        let ghost before = rows@;
        match &d.entries {
            Some(v) => {
                let mut k: usize = 0;
                assert(v@.take(0) =~= seq![]);
                assert(rows@ =~= before + rows_of_entries(v@.take(0), d.index, d.name, pid_filter));
                while k < v.len()
                    invariant
                        k <= v@.len(),
                        rows@ == before + rows_of_entries(
                            v@.take(k as int),
                            d.index,
                            d.name,
                            pid_filter,
                        ),
                    decreases v@.len() - k,
                {
                    assert(v@.take(k + 1).drop_last() =~= v@.take(k as int));
                    assert(v@.take(k + 1).last() == v@[k as int]);
                    let wanted = match pid_filter {
                        Some(p) => p == v[k].pid,
                        None => true,
                    };
                    if wanted {
                        rows.push(
                            PsRow {
                                pid: v[k].pid,
                                name: clone_opt(&v[k].name),
                                used_bytes: v[k].used_bytes,
                                shared_used_bytes: v[k].shared_used_bytes,
                                device_index: d.index,
                                device_name: clone_opt(&d.name),
                            },
                        );
                    }
                    k += 1;
                    assert(rows@ =~= before + rows_of_entries(
                        v@.take(k as int),
                        d.index,
                        d.name,
                        pid_filter,
                    ));
                }
                assert(v@.take(k as int) =~= v@);
            },
            None => {
                assert(rows@ =~= before + seq![]);
            },
        }
        i += 1;
    }
    assert(devices@.take(i as int) =~= devices@);
    rows
}

// ---------------------------------------------------------------------------
// Summary line
// ---------------------------------------------------------------------------

/// Whether the name stands for a process that could not be named and might be under more
/// privileges.
pub open spec fn is_protected(name: Option<Seq<char>>) -> bool {
    match name {
        None => true,
        Some(n) => n == "[protected]"@ || n == "?"@,
    }
}

/// The number of rows that could not be named.
pub open spec fn protected_count(rows: Seq<PsRow>) -> nat
    decreases rows.len(),
{
    if rows.len() == 0 {
        0
    } else {
        protected_count(rows.drop_last()) + if is_protected(opt_text(rows.last().name)) {
            1nat
        } else {
            0nat
        }
    }
}

/// The GPU memory of all rows together.
pub open spec fn total_used(rows: Seq<PsRow>) -> nat
    decreases rows.len(),
{
    if rows.len() == 0 {
        0
    } else {
        total_used(rows.drop_last()) + rows.last().used_bytes as nat
    }
}

proof fn lemma_total_used_monotone(rows: Seq<PsRow>, n: int)
    requires
        0 <= n <= rows.len(),
    ensures
        total_used(rows.take(n)) <= total_used(rows),
    decreases rows.len() - n,
{
    if n < rows.len() {
        lemma_total_used_monotone(rows, n + 1);
        assert(rows.take(n + 1).drop_last() =~= rows.take(n));
    } else {
        assert(rows.take(n) =~= rows);
    }
}

/// The GPU memory of all rows together, or `None` where it exceeds 64 bits.
pub fn committed_total(rows: &[PsRow]) -> (r: Option<u64>)
    ensures
        r is Some <==> total_used(rows@) <= u64::MAX,
        r matches Some(t) ==> t == total_used(rows@),
{
    let mut sum: u64 = 0;
    let mut i: usize = 0;
    assert(rows@.take(0) =~= seq![]);
    while i < rows.len()
        invariant
            i <= rows@.len(),
            sum == total_used(rows@.take(i as int)),
        decreases rows@.len() - i,
    {
        proof {
            assert(rows@.take(i + 1).drop_last() =~= rows@.take(i as int));
            assert(rows@.take(i + 1).last() == rows@[i as int]);
            lemma_total_used_monotone(rows@, i + 1);
        }
        match sum.checked_add(rows[i].used_bytes) {
            Some(s) => {
                sum = s;
            },
            None => {
                return None;
            },
        }
        i += 1;
    }
    assert(rows@.take(i as int) =~= rows@);
    Some(sum)
}

fn name_is_protected(name: &Option<String>) -> (r: bool)
    ensures
        r == is_protected(opt_text(*name)),
{
    match name {
        None => true,
        Some(n) => same_str(n.as_str(), "[protected]") || same_str(n.as_str(), "?"),
    }
}

fn count_protected(rows: &[PsRow]) -> (n: usize)
    ensures
        n == protected_count(rows@),
{
    let mut n: usize = 0;
    let mut i: usize = 0;
    assert(rows@.take(0) =~= seq![]);
    while i < rows.len()
        invariant
            i <= rows@.len(),
            n <= i,
            n == protected_count(rows@.take(i as int)),
        decreases rows@.len() - i,
    {
        assert(rows@.take(i + 1).drop_last() =~= rows@.take(i as int));
        assert(rows@.take(i + 1).last() == rows@[i as int]);
        if name_is_protected(&rows[i].name) {
            n += 1;
        }
        i += 1;
    }
    assert(rows@.take(i as int) =~= rows@);
    n
}

/// What the rows were filtered by.
pub open spec fn filter_note(pid_filter: Option<u32>, device_filter: Option<u32>) -> Seq<char> {
    match (pid_filter, device_filter) {
        (Some(p), Some(d)) => " matching pid="@ + decimal(p as nat) + " device="@ + decimal(
            d as nat,
        ),
        (Some(p), None) => " matching pid="@ + decimal(p as nat),
        (None, Some(d)) => " matching device="@ + decimal(d as nat),
        (None, None) => seq![],
    }
}

/// The total, and how many rows could not be named; nothing where there is no row.
pub open spec fn total_note(rows: Seq<PsRow>) -> Seq<char> {
    if rows.len() == 0 {
        seq![]
    } else if protected_count(rows) == 0 {
        " ("@ + vram_text(total_used(rows)) + " committed total)"@
    } else {
        " ("@ + vram_text(total_used(rows)) + " committed total; "@ + decimal(
            protected_count(rows),
        ) + " protected — re-run elevated for names)"@
    }
}

/// The summary of the listing.
pub open spec fn ps_summary(
    rows: Seq<PsRow>,
    pid_filter: Option<u32>,
    device_filter: Option<u32>,
) -> Seq<char> {
    decimal(rows.len()) + (if rows.len() == 1 {
        " GPU process found"@
    } else {
        " GPU processes found"@
    }) + filter_note(pid_filter, device_filter) + total_note(rows) + "."@
}

/// The summary of the listing: the number of rows, the filters, the memory of all rows and
/// how many could not be named.
pub fn format_ps_summary(
    rows: &[PsRow],
    pid_filter: Option<u32>,
    device_filter: Option<u32>,
) -> (s: String)
    requires
        total_used(rows@) <= u64::MAX,
    ensures
        s@ == ps_summary(rows@, pid_filter, device_filter),
{
    let count = rows.len();
    let protected = count_protected(rows);
    let total: u64 = match committed_total(rows) {
        Some(t) => t,
        None => 0,
    };
    let mut s = decimal_string(count as u64);
    if count == 1 {
        s.append(" GPU process found");
    } else {
        s.append(" GPU processes found");
    }
    let ghost head = s@;
    match (pid_filter, device_filter) {
        (Some(p), Some(d)) => {
            s.append(" matching pid=");
            push_decimal(&mut s, p as u64);
            s.append(" device=");
            push_decimal(&mut s, d as u64);
        },
        (Some(p), None) => {
            s.append(" matching pid=");
            push_decimal(&mut s, p as u64);
        },
        (None, Some(d)) => {
            s.append(" matching device=");
            push_decimal(&mut s, d as u64);
        },
        (None, None) => {},
    }
    assert(s@ =~= head + filter_note(pid_filter, device_filter));
    let ghost head = s@;
    if count > 0 {
        let v = format_vram(total);
        s.append(" (");
        s.append(v.as_str());
        if protected == 0 {
            s.append(" committed total)");
        } else {
            s.append(" committed total; ");
            push_decimal(&mut s, protected as u64);
            s.append(" protected — re-run elevated for names)");
        }
    }
    assert(s@ =~= head + total_note(rows@));
    s.append(".");
    s
}

// ---------------------------------------------------------------------------
// Table
// ---------------------------------------------------------------------------

/// A name, or a question mark.
pub open spec fn name_or_mark(name: Option<Seq<char>>) -> Seq<char> {
    match name {
        Some(n) => n,
        None => "?"@,
    }
}

/// A name, or a question mark.
pub fn name_cell(name: &Option<String>) -> (s: String)
    ensures
        s@ == name_or_mark(opt_text(*name)),
{
    match name {
        Some(n) => n.clone(),
        None => String::from_str("?"),
    }
}

/// The device name, or its index.
pub open spec fn device_text(r: PsRow) -> Seq<char> {
    match r.device_name {
        Some(n) => n@,
        None => "GPU "@ + decimal(r.device_index as nat),
    }
}

/// The headings of the table.
pub open spec fn ps_header() -> Seq<Seq<char>> {
    seq!["PID"@, "NAME"@, "VRAM"@, "SHARED"@, "DEVICE"@]
}

/// The cells of a row.
pub open spec fn ps_cells(r: PsRow) -> Seq<Seq<char>> {
    seq![
        decimal(r.pid as nat),
        name_or_mark(opt_text(r.name)),
        vram_text(r.used_bytes as nat),
        vram_text(r.shared_used_bytes as nat),
        device_text(r),
    ]
}

/// The cells of all rows.
pub open spec fn ps_grid(rows: Seq<PsRow>) -> Seq<Seq<Seq<char>>> {
    rows.map_values(|r: PsRow| ps_cells(r))
}

/// The table: the headings and one line per row, two spaces between the columns.
pub open spec fn ps_table(rows: Seq<PsRow>) -> Seq<char> {
    let widths = widths_of(ps_header(), ps_grid(rows));
    row_line(""@, ps_header(), widths) + lines_text(""@, ps_grid(rows), widths, rows.len())
}

fn ps_cell_strings(r: &PsRow) -> (v: Vec<String>)
    ensures
        texts(v@) == ps_cells(*r),
        v@.len() == 5,
{
    let mut v: Vec<String> = Vec::new();
    v.push(decimal_string(r.pid as u64));
    v.push(name_cell(&r.name));
    v.push(format_vram(r.used_bytes));
    v.push(format_vram(r.shared_used_bytes));
    let device = match &r.device_name {
        Some(n) => n.clone(),
        None => {
            let mut s = String::from_str("GPU ");
            push_decimal(&mut s, r.device_index as u64);
            s
        },
    };
    v.push(device);
    assert(texts(v@) =~= ps_cells(*r));
    v
}

/// The rows as a table; the headings stand there even without a row.
pub fn format_ps_table(rows: &[PsRow]) -> (out: String)
    ensures
        out@ == ps_table(rows@),
{
    let mut header: Vec<String> = Vec::new();
    header.push(String::from_str("PID"));
    header.push(String::from_str("NAME"));
    header.push(String::from_str("VRAM"));
    header.push(String::from_str("SHARED"));
    header.push(String::from_str("DEVICE"));
    assert(texts(header@) =~= ps_header());
    let mut cells: Vec<Vec<String>> = Vec::new();
    let mut i: usize = 0;
    while i < rows.len()
        invariant
            i <= rows@.len(),
            cells@.len() == i,
            forall|k: int|
                0 <= k < i ==> texts((#[trigger] cells@[k])@) == ps_cells(rows@[k])
                    && cells@[k]@.len() == 5,
        decreases rows@.len() - i,
    {
        cells.push(ps_cell_strings(&rows[i]));
        i += 1;
    }
    assert(grid(cells@) =~= ps_grid(rows@));
    let widths = column_widths(&header, &cells);
    let mut out = String::new();
    push_row(&mut out, "", &header, &widths);
    assert(out@ =~= row_line(""@, ps_header(), nat_widths(widths@)));
    push_rows(&mut out, "", &cells, &widths);
    out
}

// ---------------------------------------------------------------------------
// JSON
// ---------------------------------------------------------------------------

/// The JSON object of a row.
pub open spec fn ps_object(r: PsRow) -> Seq<char> {
    "{\"pid\":"@ + decimal(r.pid as nat) + ",\"name\":"@ + json_optional(opt_text(r.name))
        + ",\"used_bytes\":"@ + decimal(r.used_bytes as nat) + ",\"shared_used_bytes\":"@ + decimal(
        r.shared_used_bytes as nat,
    ) + ",\"device_index\":"@ + decimal(r.device_index as nat) + ",\"device_name\":"@
        + json_optional(opt_text(r.device_name)) + "}"@
}

/// The JSON array of the rows.
pub open spec fn ps_json(rows: Seq<PsRow>) -> Seq<char> {
    "["@ + joined(rows.map_values(|r: PsRow| ps_object(r)), ","@) + "]\n"@
}

fn ps_object_string(r: &PsRow) -> (s: String)
    ensures
        s@ == ps_object(*r),
{
    let mut s = String::from_str("{\"pid\":");
    push_decimal(&mut s, r.pid as u64);
    s.append(",\"name\":");
    push_json_optional(&mut s, &r.name);
    s.append(",\"used_bytes\":");
    push_decimal(&mut s, r.used_bytes);
    s.append(",\"shared_used_bytes\":");
    push_decimal(&mut s, r.shared_used_bytes);
    s.append(",\"device_index\":");
    push_decimal(&mut s, r.device_index as u64);
    s.append(",\"device_name\":");
    push_json_optional(&mut s, &r.device_name);
    s.append("}");
    s
}

/// The rows as a JSON array.
pub fn format_ps_json(rows: &[PsRow]) -> (out: String)
    ensures
        out@ == ps_json(rows@),
{
    let mut objects: Vec<String> = Vec::new();
    let mut i: usize = 0;
    while i < rows.len()
        invariant
            i <= rows@.len(),
            objects@.len() == i,
            forall|k: int| 0 <= k < i ==> (#[trigger] objects@[k])@ == ps_object(rows@[k]),
        decreases rows@.len() - i,
    {
        objects.push(ps_object_string(&rows[i]));
        i += 1;
    }
    assert(texts(objects@) =~= rows@.map_values(|r: PsRow| ps_object(r)));
    let mut out = String::from_str("[");
    let body = join(&objects, ",");
    out.append(body.as_str());
    out.append("]\n");
    out
}

// ---------------------------------------------------------------------------
// The command
// ---------------------------------------------------------------------------

proof fn lemma_total_inserted(s: Seq<RankedRow>, x: RankedRow)
    ensures
        total_used(plain(inserted(s, x))) == total_used(plain(s)) + x.row.used_bytes,
    decreases s.len(),
{
    if s.len() == 0 || s.last().le(&x) {
        assert(plain(s.push(x)).drop_last() =~= plain(s));
    } else {
        let init = s.drop_last();
        lemma_total_inserted(init, x);
        let u = inserted(init, x);
        assert(plain(u.push(s.last())).drop_last() =~= plain(u));
        assert(plain(s).drop_last() =~= plain(init));
    }
}

/// Sorting leaves the memory of all rows together as it is.
pub proof fn law_sorting_keeps_total(rows: Seq<PsRow>, key: SortKey)
    ensures
        total_used(in_display_order(rows, key)) == total_used(rows),
    decreases rows.len(),
{
    if rows.len() > 0 {
        let init = rows.drop_last();
        law_sorting_keeps_total(init, key);
        assert(ranked(rows, key).drop_last() =~= ranked(init, key));
        lemma_total_inserted(sorted(ranked(init, key)), ranked(rows, key).last());
        assert(in_display_order(init, key) =~= plain(sorted(ranked(init, key))));
        assert(in_display_order(rows, key) =~= plain(sorted(ranked(rows, key))));
    } else {
        assert(in_display_order(rows, key) =~= rows);
    }
}

/// What the listing prints: the sorted rows as table or JSON, and on standard error the
/// summary.
pub fn run_ps(
    rows: Vec<PsRow>,
    pid_filter: Option<u32>,
    device_filter: Option<u32>,
    sort: SortKey,
    json: bool,
) -> (p: Printed)
    requires
        total_used(rows@) <= u64::MAX,
    ensures
        p.stdout@ == (if json {
            ps_json(in_display_order(rows@, sort))
        } else {
            ps_table(in_display_order(rows@, sort))
        }),
        p.stderr@ == "hmn: "@ + ps_summary(
            in_display_order(rows@, sort),
            pid_filter,
            device_filter,
        ) + "\n"@,
{
    proof {
        law_sorting_keeps_total(rows@, sort);
    }
    let rows = sort_rows(rows, sort);
    let stdout = if json {
        format_ps_json(rows.as_slice())
    } else {
        format_ps_table(rows.as_slice())
    };
    let mut stderr = String::from_str("hmn: ");
    let summary = format_ps_summary(rows.as_slice(), pid_filter, device_filter);
    stderr.append(summary.as_str());
    stderr.append("\n");
    Printed { stdout, stderr }
}

} // verus!
