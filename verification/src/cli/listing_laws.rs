//! What the listing, the device summary and the spill command come to, said of the results
//! of the calls.
use crate::cli::ps::{
    in_display_order, law_display_keeps_rows, law_display_order, ps_row_comparator, row_order,
    select_top_n_pids, sort_rows, PsRow, SortKey,
};
use crate::cli::ps_text::{
    collect_rows, committed_total, device_indices, law_sorting_keeps_total, protected_count,
    ps_json, ps_summary, ps_table, row_of, rows_of_devices, rows_of_entries, run_ps, total_used,
    PsDevice,
};
use crate::cli::spill::{
    exit_code_byte, shown, spill_action, spill_tracks, SpillAction, SpillEvent, SpillRun,
};
use crate::cli::summary::{
    all_gpu_devices_unreadable, run_summary, summary_json, summary_text,
};
use crate::cli::watch_run::{watch_tracks, WatchEvent};
use crate::cli::Printed;
use crate::error::{HypomnesisError, Result};
use crate::gpu::adapter::AdapterMemSample;
use crate::gpu::counter_laws::sum_over;
use crate::number::decimal;
use crate::snapshot::{GpuProcessEntry, Snapshot};
use crate::spill_laws::{law_spill_condition, reached};
use crate::text::{opt_text, opt_text_order};
use crate::time::{elapsed_label_text, Duration};
use crate::tracker::{observation_of, SpillTracker};
use core::cmp::Ordering;
use vstd::prelude::*;

verus! {

// ---------------------------------------------------------------------------
// Collecting
// ---------------------------------------------------------------------------

/// The devices listed are the one asked for, or else all that were counted, from 0 on.
pub proof fn law_devices_listed(filter: Option<u32>, count: Option<u32>, v: Vec<u32>, i: int)
    requires
        call_ensures(device_indices, (filter, count), v),
    ensures
        filter is Some ==> v@ == seq![filter->0],
        filter is None && count is Some ==> v@.len() == count->0 && (0 <= i < v@.len() ==> v@[i]
            == i),
        filter is None && count is None ==> v@.len() == 0,
{
    let x = v@[i];
}

/// Whether a row is that of an entry on a device.
pub open spec fn is_row_of(row: PsRow, e: GpuProcessEntry, d: PsDevice) -> bool {
    &&& row.pid == e.pid
    &&& row.name == e.name
    &&& row.used_bytes == e.used_bytes
    &&& row.shared_used_bytes == e.shared_used_bytes
    &&& row.device_index == d.index
    &&& row.device_name == d.name
}

proof fn lemma_entry_rows(
    entries: Seq<GpuProcessEntry>,
    index: u32,
    name: Option<String>,
    filter: Option<u32>,
)
    ensures
        rows_of_entries(entries, index, name, filter) == entries.filter(
            |e: GpuProcessEntry| filter is None || filter->0 == e.pid,
        ).map_values(|e: GpuProcessEntry| row_of(e, index, name)),
    decreases entries.len(),
{
    reveal(Seq::filter);
    let f = |e: GpuProcessEntry| filter is None || filter->0 == e.pid;
    let g = |e: GpuProcessEntry| row_of(e, index, name);
    if entries.len() > 0 {
        lemma_entry_rows(entries.drop_last(), index, name, filter);
        let init = entries.drop_last().filter(f);
        assert(init.push(entries.last()).map_values(g) =~= init.map_values(g).push(
            g(entries.last()),
        ));
    } else {
        assert(entries.filter(f).map_values(g) =~= seq![]);
    }
}

proof fn lemma_entry_collected(
    devices: Seq<PsDevice>,
    filter: Option<u32>,
    d: int,
    e: int,
) -> (k: int)
    requires
        0 <= d < devices.len(),
        devices[d].entries is Some,
        0 <= e < (devices[d].entries->0)@.len(),
        filter is None || filter->0 == (devices[d].entries->0)@[e].pid,
    ensures
        0 <= k < rows_of_devices(devices, filter).len(),
        is_row_of(rows_of_devices(devices, filter)[k], (devices[d].entries->0)@[e], devices[d]),
    decreases devices.len(),
{
    let init = devices.drop_last();
    if d < init.len() {
        lemma_entry_collected(init, filter, d, e)
    } else {
        let entries = (devices[d].entries->0)@;
        let f = |x: GpuProcessEntry| filter is None || filter->0 == x.pid;
        lemma_entry_rows(entries, devices[d].index, devices[d].name, filter);
        broadcast use vstd::seq_lib::group_filter_ensures;

        assert(f(entries[e]));
        assert(entries.filter(f).contains(entries[e]));
        let j = choose|j: int| 0 <= j < entries.filter(f).len() && entries.filter(f)[j] == entries[e];
        rows_of_devices(init, filter).len() + j
    }
}

proof fn lemma_row_collected(devices: Seq<PsDevice>, filter: Option<u32>, k: int) -> (r: (int, int))
    requires
        0 <= k < rows_of_devices(devices, filter).len(),
    ensures
        0 <= r.0 < devices.len(),
        devices[r.0].entries is Some,
        0 <= r.1 < (devices[r.0].entries->0)@.len(),
        filter is None || filter->0 == (devices[r.0].entries->0)@[r.1].pid,
        is_row_of(
            rows_of_devices(devices, filter)[k],
            (devices[r.0].entries->0)@[r.1],
            devices[r.0],
        ),
    decreases devices.len(),
{
    let init = devices.drop_last();
    let before = rows_of_devices(init, filter);
    if k < before.len() {
        lemma_row_collected(init, filter, k)
    } else {
        let d = devices.last();
        let entries = (d.entries->0)@;
        let f = |x: GpuProcessEntry| filter is None || filter->0 == x.pid;
        lemma_entry_rows(entries, d.index, d.name, filter);
        broadcast use vstd::seq_lib::group_filter_ensures;

        let j = k - before.len();
        let x = entries.filter(f)[j];
        assert(f(x));
        lemma_filter_from(entries, f, j);
        let e = choose|e: int| 0 <= e < entries.len() && entries[e] == x;
        (devices.len() - 1, e)
    }
}

proof fn lemma_filter_from<T>(s: Seq<T>, f: spec_fn(T) -> bool, j: int)
    requires
        0 <= j < s.filter(f).len(),
    ensures
        exists|e: int| 0 <= e < s.len() && s[e] == s.filter(f)[j],
    decreases s.len(),
{
    reveal(Seq::filter);
    if s.len() > 0 {
        let init = s.drop_last();
        if j < init.filter(f).len() {
            lemma_filter_from(init, f, j);
            let e = choose|e: int| 0 <= e < init.len() && init[e] == init.filter(f)[j];
            assert(s[e] == s.filter(f)[j]);
        } else {
            assert(s[s.len() - 1] == s.filter(f)[j]);
        }
    }
}

/// Every entry that passes the filter has its row, with its own figures and its device.
pub proof fn law_entries_are_collected(
    devices: Vec<PsDevice>,
    filter: Option<u32>,
    rows: Vec<PsRow>,
    d: int,
    e: int,
)
    requires
        call_ensures(collect_rows, (devices, filter), rows),
        0 <= d < devices@.len(),
        devices@[d].entries is Some,
        0 <= e < (devices@[d].entries->0)@.len(),
        filter is None || filter->0 == (devices@[d].entries->0)@[e].pid,
    ensures
        exists|k: int|
            0 <= k < rows@.len() && is_row_of(
                #[trigger] rows@[k],
                (devices@[d].entries->0)@[e],
                devices@[d],
            ),
{
    let k = lemma_entry_collected(devices@, filter, d, e);
    let x = rows@[k];
}

/// Every row is that of an entry that passes the filter.
pub proof fn law_rows_come_from_entries(
    devices: Vec<PsDevice>,
    filter: Option<u32>,
    rows: Vec<PsRow>,
    k: int,
) -> (r: (int, int))
    requires
        call_ensures(collect_rows, (devices, filter), rows),
        0 <= k < rows@.len(),
    ensures
        0 <= r.0 < devices@.len(),
        devices@[r.0].entries is Some,
        0 <= r.1 < (devices@[r.0].entries->0)@.len(),
        filter is None || filter->0 == (devices@[r.0].entries->0)@[r.1].pid,
        is_row_of(rows@[k], (devices@[r.0].entries->0)@[r.1], devices@[r.0]),
{
    lemma_row_collected(devices@, filter, k)
}

// ---------------------------------------------------------------------------
// Order
// ---------------------------------------------------------------------------

/// Sorted by GPU memory, by shared memory or by both together, the row with more comes
/// first; rows with as much are in order of their names, and those with the same name in
/// order of their process IDs.
pub proof fn law_sorted_by_figure(rows: Vec<PsRow>, key: SortKey, out: Vec<PsRow>, i: int, j: int)
    requires
        call_ensures(sort_rows, (rows, key), out),
        0 <= i <= j < out@.len(),
    ensures
        out@.len() == rows@.len(),
        out@.to_multiset() == rows@.to_multiset(),
        key == SortKey::Dedicated ==> out@[i].used_bytes >= out@[j].used_bytes,
        key == SortKey::Shared ==> out@[i].shared_used_bytes >= out@[j].shared_used_bytes,
        key == SortKey::Total && out@[j].used_bytes + out@[j].shared_used_bytes <= u64::MAX
            ==> out@[i].used_bytes + out@[i].shared_used_bytes >= out@[j].used_bytes
            + out@[j].shared_used_bytes,
        out@[i].used_bytes == out@[j].used_bytes && out@[i].shared_used_bytes
            == out@[j].shared_used_bytes ==> opt_text_order(
            opt_text(out@[i].name),
            opt_text(out@[j].name),
        ) <= 0,
        out@[i].used_bytes == out@[j].used_bytes && out@[i].shared_used_bytes
            == out@[j].shared_used_bytes && opt_text_order(
            opt_text(out@[i].name),
            opt_text(out@[j].name),
        ) == 0 ==> out@[i].pid <= out@[j].pid,
{
    law_display_order(rows@, key);
    law_display_keeps_rows(rows@, key);
    let a = in_display_order(rows@, key)[i];
    let b = in_display_order(rows@, key)[j];
    assert(row_order(key, a, b) <= 0);
}

/// A row precedes another that has less of the figure sorted by.
pub proof fn law_comparator(key: SortKey, a: PsRow, b: PsRow, o: Ordering)
    requires
        call_ensures(ps_row_comparator, (key, &a, &b), o),
    ensures
        key == SortKey::Dedicated && a.used_bytes > b.used_bytes ==> o == Ordering::Less,
        key == SortKey::Dedicated && a.used_bytes < b.used_bytes ==> o == Ordering::Greater,
        key == SortKey::Shared && a.shared_used_bytes > b.shared_used_bytes ==> o
            == Ordering::Less,
        key == SortKey::Shared && a.shared_used_bytes < b.shared_used_bytes ==> o
            == Ordering::Greater,
        key == SortKey::Total && a.used_bytes + a.shared_used_bytes <= u64::MAX && a.used_bytes
            + a.shared_used_bytes > b.used_bytes + b.shared_used_bytes ==> o == Ordering::Less,
        key == SortKey::Total && b.used_bytes + b.shared_used_bytes <= u64::MAX && a.used_bytes
            + a.shared_used_bytes < b.used_bytes + b.shared_used_bytes ==> o == Ordering::Greater,
        a.used_bytes == b.used_bytes && a.shared_used_bytes == b.shared_used_bytes && opt_text(
            a.name,
        ) == opt_text(b.name) && a.pid < b.pid ==> o == Ordering::Less,
        a.used_bytes == b.used_bytes && a.shared_used_bytes == b.shared_used_bytes && opt_text(
            a.name,
        ) == opt_text(b.name) && a.pid == b.pid ==> o == Ordering::Equal,
{
    if opt_text(a.name) == opt_text(b.name) && a.name is Some {
        crate::text::lemma_text_order_equal(a.name->0@, b.name->0@);
    }
}

/// As many processes are selected as asked for, or as there are rows: those at the head of
/// the listing sorted by GPU memory.
pub proof fn law_selected_head(rows: &[PsRow], n: usize, v: Vec<u32>, k: int)
    requires
        call_ensures(select_top_n_pids, (rows, n), v),
    ensures
        n <= rows@.len() ==> v@.len() == n,
        n > rows@.len() ==> v@.len() == rows@.len(),
        0 <= k < v@.len() ==> v@[k] == in_display_order(rows@, SortKey::Dedicated)[k].pid,
{
    law_display_order(rows@, SortKey::Dedicated);
}

// ---------------------------------------------------------------------------
// Totals
// ---------------------------------------------------------------------------

proof fn lemma_total_used(rows: Seq<PsRow>)
    ensures
        total_used(rows) == sum_over(rows, |r: PsRow| r.used_bytes as nat),
    decreases rows.len(),
{
    if rows.len() > 0 {
        lemma_total_used(rows.drop_last());
    }
}

/// The committed total is the sum of the rows' GPU memory.
pub proof fn law_committed_total(rows: &[PsRow], r: Option<u64>)
    requires
        call_ensures(committed_total, (rows,), r),
    ensures
        r is Some <==> sum_over(rows@, |x: PsRow| x.used_bytes as nat) <= u64::MAX,
        r is Some ==> r->0 == sum_over(rows@, |x: PsRow| x.used_bytes as nat),
{
    lemma_total_used(rows@);
}

/// The rows that might be named with more privileges are those without a name, with a
/// withheld name, or with a question mark.
pub proof fn law_protected_rows(rows: Seq<PsRow>)
    ensures
        protected_count(rows) == rows.filter(
            |r: PsRow| r.name is None || r.name->0@ == "[protected]"@ || r.name->0@ == "?"@,
        ).len(),
    decreases rows.len(),
{
    reveal(Seq::filter);
    if rows.len() > 0 {
        law_protected_rows(rows.drop_last());
    }
}

/// The listing prints its sorted rows, as JSON where that was asked for, else as a table,
/// and its summary, with the total of the rows' GPU memory, on standard error.
pub proof fn law_listing_output(
    rows: Vec<PsRow>,
    pid: Option<u32>,
    device: Option<u32>,
    key: SortKey,
    json: bool,
    p: Printed,
    sorted: Vec<PsRow>,
)
    requires
        call_ensures(run_ps, (rows, pid, device, key, json), p),
        call_ensures(sort_rows, (rows, key), sorted),
    ensures
        json ==> p.stdout@ == ps_json(sorted@),
        !json ==> p.stdout@ == ps_table(sorted@),
        p.stderr@ == "hmn: "@ + ps_summary(sorted@, pid, device) + "\n"@,
        total_used(sorted@) == sum_over(rows@, |x: PsRow| x.used_bytes as nat),
{
    law_sorting_keeps_total(rows@, key);
    lemma_total_used(rows@);
}

// ---------------------------------------------------------------------------
// The device summary
// ---------------------------------------------------------------------------

/// Devices count as unreadable where there is one, and none of them was read.
pub proof fn law_unreadable_devices(snaps: &[Snapshot], r: bool)
    requires
        call_ensures(all_gpu_devices_unreadable, (snaps,), r),
    ensures
        snaps@.len() == 0 ==> !r,
        r <==> snaps@.len() > 0 && !(exists|i: int|
            0 <= i < snaps@.len() && (#[trigger] snaps@[i]).gpu_device is Some),
{
}

/// The device summary passes on the error of the snapshots. As JSON it is one array whatever
/// could be read; as text it says so where there is no device, and where none could be read.
pub proof fn law_summary_output(snaps: Result<Vec<Snapshot>>, json: bool, r: Result<Printed>)
    requires
        call_ensures(run_summary, (snaps, json), r),
    ensures
        snaps is Err ==> r is Err && r->Err_0 == snaps->Err_0,
        snaps is Ok ==> r is Ok,
        snaps is Ok && json ==> r->Ok_0.stdout@ == summary_json(snaps->Ok_0@),
        snaps is Ok && !json && snaps->Ok_0@.len() == 0 ==> r->Ok_0.stdout@
            == "hmn: no visible GPUs.\n"@,
        snaps is Ok && !json && snaps->Ok_0@.len() > 0 && (exists|i: int|
            0 <= i < snaps->Ok_0@.len() && (#[trigger] snaps->Ok_0@[i]).gpu_device is Some)
            ==> r->Ok_0.stdout@ == summary_text(snaps->Ok_0@),
        snaps is Ok && !json && snaps->Ok_0@.len() > 0 && (forall|i: int|
            0 <= i < snaps->Ok_0@.len() ==> (#[trigger] snaps->Ok_0@[i]).gpu_device is None)
            ==> r->Ok_0.stdout@ == "hmn: "@ + decimal(snaps->Ok_0@.len())
            + " GPU(s) enumerated but none readable."@ + "\n"@,
        snaps is Ok && json && snaps->Ok_0@.len() > 0 && (forall|i: int|
            0 <= i < snaps->Ok_0@.len() ==> (#[trigger] snaps->Ok_0@[i]).gpu_device is None)
            ==> r->Ok_0.stderr@ == "hmn: "@ + decimal(snaps->Ok_0@.len())
            + " GPU(s) enumerated but none readable."@ + "\n"@,
{
}

// ---------------------------------------------------------------------------
// The spill command
// ---------------------------------------------------------------------------

/// The spill command opens the tracker before it starts the wrapped command, polls it while
/// it runs and sleeps in between, and reports when it ended. Its own failures exit with 1.
pub proof fn law_spill_goes_through_its_steps(
    run: SpillRun,
    opened: Result<bool>,
    text: String,
    elapsed: Duration,
    sample: Option<AdapterMemSample>,
    at: Duration,
)
    ensures
        run.command@.len() > 0 ==> spill_action(run, SpillEvent::Started)
            == SpillAction::OpenTracker,
        run.command@.len() == 0 ==> spill_action(run, SpillEvent::Started) == SpillAction::Exit(1),
        spill_action(run, SpillEvent::Opened(opened)) == SpillAction::Spawn,
        spill_action(run, SpillEvent::Spawned) == SpillAction::Poll,
        spill_action(run, SpillEvent::Running { elapsed, sample, at }) == SpillAction::Sleep,
        spill_action(run, SpillEvent::SpawnFailed(text)) == SpillAction::Exit(1),
        spill_action(run, SpillEvent::WaitFailed(text)) == SpillAction::Exit(1),
{
}

/// The exit code of the wrapped command is passed through where it fits a byte; any other,
/// and none at all, becomes 1.
pub proof fn law_exit_code_passes_through(
    run: SpillRun,
    code: Option<i32>,
    elapsed: Duration,
    sample: Option<AdapterMemSample>,
    at: Duration,
    b: u8,
)
    requires
        call_ensures(exit_code_byte, (code,), b),
    ensures
        spill_action(run, SpillEvent::Exited { code, elapsed, sample, at })
            == SpillAction::Report(b),
        code is Some && 0 <= code->0 <= 255 ==> b == code->0,
        code is Some && !(0 <= code->0 <= 255) ==> b == 1,
        code is None ==> b == 1,
{
}

/// A sample shown to a tracker that measures is observed with its own figures, under the
/// label of the time elapsed. Without a sample, a tracker or a source nothing changes.
pub proof fn law_sample_is_observed(
    t: SpillTracker,
    elapsed: Duration,
    sample: Option<AdapterMemSample>,
    at: Duration,
    next: Option<SpillTracker>,
)
    requires
        shown(Some(t), elapsed, sample, at, next),
    ensures
        next is Some,
        next->0.live() == t.live(),
        sample is None || !t.live() ==> next == Some(t),
        sample is Some && t.live() ==> {
            let n = next->0.state();
            let s = sample->0;
            let base = if t.state().baseline_shared is Some {
                t.state().baseline_shared->0
            } else {
                s.shared_bytes
            };
            &&& n.limit_seen == s.limit_bytes
            &&& n.baseline_shared == Some(base)
            &&& n.peak_dedicated >= s.dedicated_bytes && n.peak_dedicated
                >= t.state().peak_dedicated
            &&& n.peak_dedicated == s.dedicated_bytes || n.peak_dedicated
                == t.state().peak_dedicated
            &&& n.peak_shared >= s.shared_bytes && n.peak_shared >= t.state().peak_shared
            &&& n.peak_shared == s.shared_bytes || n.peak_shared == t.state().peak_shared
            &&& t.state().observations < usize::MAX ==> n.observations == t.state().observations
                + 1
            &&& t.state().dedicated_threshold_override is None && s.limit_bytes >= 100 ==> (
            n.currently <==> s.dedicated_bytes >= (s.limit_bytes / 100) * 85 && reached(
                s.shared_bytes,
                base,
                t.state().shared_growth_bytes,
            ))
            &&& n.currently && t.state().open is None ==> n.open is Some
                && n.open->0.start_label@ == elapsed_label_text(elapsed@) && n.open->0.start_at
                == at
            &&& n.currently && t.state().open is Some ==> n.open is Some && n.open->0.start_label
                == t.state().open->0.start_label && n.open->0.last_at == at
        },
{
    if sample is Some && t.live() {
        let s = sample->0;
        let label = choose|label: String|
            #![trigger observation_of(s, label, at)]
            label@ == elapsed_label_text(elapsed@) && t.state().advances_to(
                observation_of(s, label, at),
                next->0.state(),
            );
        law_spill_condition(t.state(), observation_of(s, label, at), next->0.state());
    }
}

/// Each poll and the end of the wrapped command, and each sample of a watch, are shown to
/// the tracker; no other event is.
pub proof fn law_events_are_shown(
    tracker: Option<SpillTracker>,
    next: Option<SpillTracker>,
    elapsed: Duration,
    sample: Option<AdapterMemSample>,
    at: Duration,
    code: Option<i32>,
    rows: Vec<GpuProcessEntry>,
    e: HypomnesisError,
    interrupted: bool,
    slept: bool,
)
    ensures
        spill_tracks(tracker, SpillEvent::Running { elapsed, sample, at }, next) <==> shown(
            tracker,
            elapsed,
            sample,
            at,
            next,
        ),
        spill_tracks(tracker, SpillEvent::Exited { code, elapsed, sample, at }, next) <==> shown(
            tracker,
            elapsed,
            sample,
            at,
            next,
        ),
        spill_tracks(tracker, SpillEvent::Spawned, next) ==> next == tracker,
        watch_tracks(
            tracker,
            WatchEvent::Sampled { elapsed, rows: Ok(rows), sample, at },
            next,
        ) <==> shown(tracker, elapsed, sample, at, next),
        watch_tracks(tracker, WatchEvent::Sampled { elapsed, rows: Err(e), sample, at }, next)
            ==> next == tracker,
        watch_tracks(tracker, WatchEvent::Checked { elapsed, interrupted, slept }, next) ==> next
            == tracker,
        watch_tracks(tracker, WatchEvent::FirstSample { sample, at }, next) ==> exists|
            zero: Duration,
        |
            zero@ == 0 && #[trigger] shown(tracker, zero, sample, at, next),
{
}

/// Opening the source makes a tracker with nothing observed and the default thresholds, or
/// none where it failed, in both commands.
pub proof fn law_opened_tracker(tracker: Option<SpillTracker>, opened: Result<bool>, next: Option<SpillTracker>)
    requires
        spill_tracks(tracker, SpillEvent::Opened(opened), next) || watch_tracks(
            tracker,
            WatchEvent::Opened(opened),
            next,
        ),
    ensures
        opened is Err ==> next is None,
        opened is Ok ==> next is Some && next->0.live() == opened->Ok_0
            && next->0.state().unobserved() && next->0.state().dedicated_threshold_override is None
            && next->0.state().shared_growth_bytes == 256 * 1024 * 1024,
{
}

} // verus!
