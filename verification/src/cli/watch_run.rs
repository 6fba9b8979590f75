//! The watch command: which processes are watched, and what happens from start to end.
use crate::cli::ps::{at_most, in_display_order, pids_of, select_top_n_pids, PsRow, SortKey};
use crate::cli::ps_text::row_of;
use crate::cli::spill::{in_span, report_of, reported, shown, sound};
use crate::cli::watch::{
    find_entry, found, law_seen_order, notices_after, process_sample, rows_after, seen_after,
    spilling_now, states_after, WatchSampleRow, WatchState, WatchedPidState,
};
use crate::cli::watch_text::{
    format_watch_header_text, format_watch_rows_json, format_watch_rows_text,
    format_watch_summary_json, format_watch_summary_text, summaries, summarize, watch_header_line,
    watch_rows_json, watch_rows_text, watch_summary_json, watch_summary_text,
};
use crate::cli::Printed;
use crate::error::{error_text, HypomnesisError, Result};
use crate::gpu::adapter::AdapterMemSample;
use crate::gpu::names::contains_pid;
use crate::number::{decimal, push_decimal};
use crate::snapshot::{bracketed, push_bracketed, GpuDeviceInfo, GpuProcessEntry};
use crate::spill::{total_nanos, SpillReport};
use crate::text::{clone_opt, join, joined, opt_text, texts};
use crate::time::{
    elapsed_label, elapsed_label_text, format_secs, secs_text, Duration, MAX_NANOS,
};
use crate::tracker::SpillTracker;
use vstd::prelude::*;

verus! {

broadcast use vstd::std_specs::hash::group_hash_axioms;

/// The exit code of a watch: 0 where nothing spilled, 1 where something did.
pub fn watch_exit_code(spilled: bool) -> (c: u8)
    ensures
        c == (if spilled {
            1u8
        } else {
            0u8
        }),
{
    if spilled {
        1
    } else {
        0
    }
}

// ---------------------------------------------------------------------------
// Which processes
// ---------------------------------------------------------------------------

/// The entries as rows of the listing, of no device in particular.
pub open spec fn as_rows(entries: Seq<GpuProcessEntry>) -> Seq<PsRow> {
    entries.map_values(|e: GpuProcessEntry| row_of(e, 0, None))
}

/// The processes to watch: those asked for, else those with the most GPU memory.
pub open spec fn pids_to_watch(
    entries: Seq<GpuProcessEntry>,
    explicit: Seq<u32>,
    top: nat,
) -> Seq<u32> {
    if explicit.len() > 0 {
        explicit
    } else {
        at_most(pids_of(in_display_order(as_rows(entries), SortKey::Dedicated)), top)
    }
}

/// The processes to watch: those asked for, just as given, else the first `top` of the
/// listing sorted by GPU memory.
pub fn resolve_watched_pids(
    rows: &[GpuProcessEntry],
    explicit: &[u32],
    top: usize,
) -> (v: Vec<u32>)
    ensures
        v@ == pids_to_watch(rows@, explicit@, top as nat),
{
    if explicit.len() > 0 {
        return copy_pids(explicit);
    }
    let mut listing: Vec<PsRow> = Vec::new();
    let mut i: usize = 0;
    while i < rows.len()
        invariant
            i <= rows@.len(),
            listing@.len() == i,
            forall|k: int| 0 <= k < i ==> #[trigger] listing@[k] == as_rows(rows@)[k],
        decreases rows@.len() - i,
    {
        listing.push(
            PsRow {
                pid: rows[i].pid,
                name: clone_opt(&rows[i].name),
                used_bytes: rows[i].used_bytes,
                shared_used_bytes: rows[i].shared_used_bytes,
                device_index: 0,
                device_name: None,
            },
        );
        i += 1;
    }
    assert(listing@ =~= as_rows(rows@));
    select_top_n_pids(listing.as_slice(), top)
}

fn copy_pids(pids: &[u32]) -> (v: Vec<u32>)
    ensures
        v@ == pids@,
{
    let mut v: Vec<u32> = Vec::new();
    let mut i: usize = 0;
    while i < pids.len()
        invariant
            i <= pids@.len(),
            v@ == pids@.take(i as int),
        decreases pids@.len() - i,
    {
        v.push(pids[i]);
        i += 1;
        assert(v@ =~= pids@.take(i as int));
    }
    assert(v@ =~= pids@);
    v
}

/// The processes, each where it first occurs.
pub fn distinct_pids(pids: &[u32]) -> (v: Vec<u32>)
    ensures
        v@ == seen_after(seq![], pids@),
        v@.no_duplicates(),
        forall|p: u32| #[trigger] v@.contains(p) <==> pids@.contains(p),
{
    let mut v: Vec<u32> = Vec::new();
    let mut i: usize = 0;
    assert(pids@.take(0) =~= seq![]);
    while i < pids.len()
        invariant
            i <= pids@.len(),
            v@ == seen_after(seq![], pids@.take(i as int)),
        decreases pids@.len() - i,
    {
        assert(pids@.take(i + 1).drop_last() =~= pids@.take(i as int));
        assert(pids@.take(i + 1).last() == pids@[i as int]);
        if !contains_pid(v.as_slice(), pids[i]) {
            v.push(pids[i]);
        }
        i += 1;
    }
    assert(pids@.take(i as int) =~= pids@);
    proof {
        law_seen_order(seq![], pids@);
        assert(forall|p: u32| !Seq::<u32>::empty().contains(p));
    }
    v
}

/// Processes that were asked for are watched whatever the device lists.
pub proof fn law_explicit_pids_stay(
    a: Seq<GpuProcessEntry>,
    b: Seq<GpuProcessEntry>,
    explicit: Seq<u32>,
    top: nat,
)
    requires
        explicit.len() > 0,
    ensures
        pids_to_watch(a, explicit, top) == pids_to_watch(b, explicit, top),
        pids_to_watch(a, explicit, top) == explicit,
{
}

/// No more than `top` processes are selected.
pub proof fn law_selection_is_bounded(entries: Seq<GpuProcessEntry>, top: nat)
    ensures
        pids_to_watch(entries, seq![], top).len() <= top,
        pids_to_watch(entries, seq![], top).len() <= entries.len(),
        entries.len() > 0 && top > 0 ==> pids_to_watch(entries, seq![], top).len() > 0,
{
    crate::cli::ps::law_display_order(as_rows(entries), SortKey::Dedicated);
}

// ---------------------------------------------------------------------------
// Changes of the followed set
// ---------------------------------------------------------------------------

/// The processes of `a` that are not in `b`, in order.
pub open spec fn missing_from(a: Seq<u32>, b: Seq<u32>) -> Seq<u32>
    decreases a.len(),
{
    if a.len() == 0 {
        seq![]
    } else if b.contains(a.last()) {
        missing_from(a.drop_last(), b)
    } else {
        missing_from(a.drop_last(), b).push(a.last())
    }
}

fn pids_missing(a: &[u32], b: &[u32]) -> (v: Vec<u32>)
    ensures
        v@ == missing_from(a@, b@),
{
    let mut v: Vec<u32> = Vec::new();
    let mut i: usize = 0;
    assert(a@.take(0) =~= seq![]);
    while i < a.len()
        invariant
            i <= a@.len(),
            v@ == missing_from(a@.take(i as int), b@),
        decreases a@.len() - i,
    {
        assert(a@.take(i + 1).drop_last() =~= a@.take(i as int));
        assert(a@.take(i + 1).last() == a@[i as int]);
        if !contains_pid(b, a[i]) {
            v.push(a[i]);
        }
        i += 1;
    }
    assert(a@.take(i as int) =~= a@);
    v
}

/// The name of a process in the sample: that of its first row.
pub open spec fn name_in_sample(rows: Seq<GpuProcessEntry>, pid: u32) -> Option<String> {
    match found(rows, pid) {
        Some(e) => e.name,
        None => None,
    }
}

/// The latest name kept of a process.
pub open spec fn name_kept(m: Map<u32, WatchedPidState>, pid: u32) -> Option<String> {
    if m.contains_key(pid) {
        m[pid].last_name
    } else {
        None
    }
}

/// A process with its name, where there is one.
pub open spec fn pid_with_name(pid: u32, name: Option<Seq<char>>) -> Seq<char> {
    match name {
        Some(n) => "pid="@ + decimal(pid as nat) + " ("@ + n + ")"@,
        None => "pid="@ + decimal(pid as nat),
    }
}

/// The processes with their names.
pub open spec fn pids_with_names(
    pids: Seq<u32>,
    name: spec_fn(u32) -> Option<String>,
) -> Seq<char> {
    joined(pids.map_values(|p: u32| pid_with_name(p, opt_text(name(p)))), ", "@)
}

/// What changed: who entered, with the names in the sample, and who left, with the names
/// last known.
pub open spec fn change_clauses(
    prev: Seq<u32>,
    next: Seq<u32>,
    rows: Seq<GpuProcessEntry>,
    m: Map<u32, WatchedPidState>,
) -> Seq<Seq<char>> {
    let entered = missing_from(next, prev);
    let left = missing_from(prev, next);
    (if entered.len() > 0 {
        seq!["entered "@ + pids_with_names(entered, |p: u32| name_in_sample(rows, p))]
    } else {
        seq![]
    }) + (if left.len() > 0 {
        seq!["left "@ + pids_with_names(left, |p: u32| name_kept(m, p))]
    } else {
        seq![]
    })
}

/// The message on a changed set; `None` where nothing changed.
pub open spec fn followed_set_change(
    prev: Seq<u32>,
    next: Seq<u32>,
    rows: Seq<GpuProcessEntry>,
    m: Map<u32, WatchedPidState>,
    nanos: nat,
) -> Option<Seq<char>> {
    if change_clauses(prev, next, rows, m).len() == 0 {
        None
    } else {
        Some(
            "hmn watch: "@ + elapsed_label_text(nanos) + " followed set changed: "@ + joined(
                change_clauses(prev, next, rows, m),
                "; "@,
            ),
        )
    }
}

fn sampled_name(rows: &[GpuProcessEntry], pid: u32) -> (r: Option<String>)
    ensures
        r == name_in_sample(rows@, pid),
{
    match find_entry(rows, pid) {
        Some(i) => clone_opt(&rows[i].name),
        None => None,
    }
}

fn kept_name(state: &WatchState, pid: u32) -> (r: Option<String>)
    ensures
        r == name_kept(state.by_pid@, pid),
{
    match state.by_pid.get(&pid) {
        Some(s) => clone_opt(&s.last_name),
        None => None,
    }
}

fn label_of(pid: u32, name: Option<String>) -> (s: String)
    ensures
        s@ == pid_with_name(pid, opt_text(name)),
{
    let mut s = String::from_str("pid=");
    push_decimal(&mut s, pid as u64);
    match name {
        Some(name) => {
            s.append(" (");
            s.append(name.as_str());
            s.append(")");
        },
        None => {},
    }
    s
}

fn entered_list(pids: &[u32], rows: &[GpuProcessEntry]) -> (s: String)
    ensures
        s@ == "entered "@ + pids_with_names(pids@, |p: u32| name_in_sample(rows@, p)),
{
    let ghost name = |p: u32| name_in_sample(rows@, p);
    let mut names: Vec<String> = Vec::new();
    let mut i: usize = 0;
    while i < pids.len()
        invariant
            i <= pids@.len(),
            names@.len() == i,
            name == (|p: u32| name_in_sample(rows@, p)),
            forall|k: int|
                0 <= k < i ==> (#[trigger] names@[k])@ == pid_with_name(
                    pids@[k],
                    opt_text(name(pids@[k])),
                ),
        decreases pids@.len() - i,
    {
        names.push(label_of(pids[i], sampled_name(rows, pids[i])));
        i += 1;
    }
    assert(texts(names@) =~= pids@.map_values(|p: u32| pid_with_name(p, opt_text(name(p)))));
    let mut s = String::from_str("entered ");
    let list = join(&names, ", ");
    s.append(list.as_str());
    s
}

fn left_list(pids: &[u32], state: &WatchState) -> (s: String)
    ensures
        s@ == "left "@ + pids_with_names(pids@, |p: u32| name_kept(state.by_pid@, p)),
{
    let ghost name = |p: u32| name_kept(state.by_pid@, p);
    let mut names: Vec<String> = Vec::new();
    let mut i: usize = 0;
    while i < pids.len()
        invariant
            i <= pids@.len(),
            names@.len() == i,
            name == (|p: u32| name_kept(state.by_pid@, p)),
            forall|k: int|
                0 <= k < i ==> (#[trigger] names@[k])@ == pid_with_name(
                    pids@[k],
                    opt_text(name(pids@[k])),
                ),
        decreases pids@.len() - i,
    {
        names.push(label_of(pids[i], kept_name(state, pids[i])));
        i += 1;
    }
    assert(texts(names@) =~= pids@.map_values(|p: u32| pid_with_name(p, opt_text(name(p)))));
    let mut s = String::from_str("left ");
    let list = join(&names, ", ");
    s.append(list.as_str());
    s
}

/// The message that names the processes that entered or left the followed set; `None`
/// where the set did not change. Who entered is named by the sample, who left by the state,
/// whether or not the sample still lists it.
pub fn format_followed_set_change(
    prev_watched: &[u32],
    new_watched: &[u32],
    rows: &[GpuProcessEntry],
    state: &WatchState,
    elapsed: Duration,
) -> (r: Option<String>)
    ensures
        opt_text(r) == followed_set_change(
            prev_watched@,
            new_watched@,
            rows@,
            state.by_pid@,
            elapsed@,
        ),
{
    let entered = pids_missing(new_watched, prev_watched);
    let left = pids_missing(prev_watched, new_watched);
    let mut clauses: Vec<String> = Vec::new();
    if entered.len() > 0 {
        clauses.push(entered_list(entered.as_slice(), rows));
    }
    if left.len() > 0 {
        clauses.push(left_list(left.as_slice(), state));
    }
    assert(texts(clauses@) =~= change_clauses(prev_watched@, new_watched@, rows@, state.by_pid@));
    if clauses.len() == 0 {
        return None;
    }
    let mut s = String::from_str("hmn watch: ");
    let label = elapsed_label(elapsed);
    s.append(label.as_str());
    s.append(" followed set changed: ");
    let body = join(&clauses, "; ");
    s.append(body.as_str());
    Some(s)
}

proof fn lemma_missing_from(a: Seq<u32>, b: Seq<u32>)
    ensures
        missing_from(a, b).len() == 0 <==> forall|p: u32| #[trigger] a.contains(p) ==> b.contains(p),
    decreases a.len(),
{
    if a.len() > 0 {
        let init = a.drop_last();
        lemma_missing_from(init, b);
        assert(a[a.len() - 1] == a.last());
        assert(a.contains(a.last()));
        if missing_from(a, b).len() == 0 {
            assert forall|p: u32| #[trigger] a.contains(p) implies b.contains(p) by {
                let i = choose|i: int| 0 <= i < a.len() && a[i] == p;
                if i < init.len() {
                    assert(init[i] == p);
                    assert(init.contains(p));
                }
            }
        } else if forall|p: u32| #[trigger] a.contains(p) ==> b.contains(p) {
            assert forall|p: u32| #[trigger] init.contains(p) implies b.contains(p) by {
                let i = choose|i: int| 0 <= i < init.len() && init[i] == p;
                assert(a[i] == p);
                assert(a.contains(p));
            }
        }
    }
}

/// There is a message exactly when the two sets differ as sets.
pub proof fn law_message_iff_sets_differ(
    prev: Seq<u32>,
    next: Seq<u32>,
    rows: Seq<GpuProcessEntry>,
    m: Map<u32, WatchedPidState>,
    nanos: nat,
)
    ensures
        followed_set_change(prev, next, rows, m, nanos) is None <==> forall|p: u32|
            #![trigger prev.contains(p)]
            #![trigger next.contains(p)]
            prev.contains(p) <==> next.contains(p),
{
    lemma_missing_from(prev, next);
    lemma_missing_from(next, prev);
}

// ---------------------------------------------------------------------------
// The command
// ---------------------------------------------------------------------------

/// A run of the watch command.
pub struct WatchRun {
    /// The processes asked for, each once; none where they are selected.
    pub explicit: Vec<u32>,
    /// Time between samples.
    pub interval: Duration,
    /// When the watch ends by itself.
    pub duration: Option<Duration>,
    /// How many processes are selected.
    pub top: usize,
    /// Whether they are selected anew for every sample.
    pub follow_new: bool,
    /// The device.
    pub device: u32,
    /// Whether samples and summary are printed as JSON.
    pub json: bool,
    /// The name of the device, once it was asked for.
    pub device_name: Option<String>,
    /// The first listing.
    pub first_rows: Vec<GpuProcessEntry>,
    /// The processes watched now.
    pub watched: Vec<u32>,
    /// The tracker, where one could be made.
    pub tracker: Option<SpillTracker>,
    /// What is kept of the processes.
    pub state: WatchState,
}

/// What the world reports to the command.
pub enum WatchEvent {
    /// The command line was read.
    Started,
    /// The device and its processes were asked for.
    Listed { device: Result<GpuDeviceInfo>, rows: Result<Vec<GpuProcessEntry>> },
    /// The source of measurements was opened, as `SpillTracker::new` takes it.
    Opened(Result<bool>),
    /// The interrupt handler was installed, or this is why not.
    HandlerInstalled(Option<String>),
    /// The adapter was sampled for the first time.
    FirstSample { sample: Option<AdapterMemSample>, at: Duration },
    /// The time and the interrupt flag, before or after a sleep.
    Checked { elapsed: Duration, interrupted: bool, slept: bool },
    /// The processes were listed again and, where that worked, the adapter sampled.
    Sampled {
        elapsed: Duration,
        rows: Result<Vec<GpuProcessEntry>>,
        sample: Option<AdapterMemSample>,
        at: Duration,
    },
}

/// What the command does next.
#[derive(Debug, Clone, Copy, PartialEq, Eq, Structural)]
pub enum WatchAction {
    /// Ask for the device and its processes.
    List,
    /// Open the source of measurements.
    OpenTracker,
    /// Install the interrupt handler.
    InstallHandler,
    /// Sample the adapter for the first time; the clock starts here.
    FirstSample,
    /// Look at the clock and the interrupt flag.
    Check,
    /// Sleep for the interval, then look at the clock and the interrupt flag.
    Sleep,
    /// List the processes and sample the adapter.
    Sample,
    /// Print the closing summary and exit.
    Finish,
    /// Exit with the code.
    Exit(u8),
}

/// What the command does next, and what it prints.
#[derive(Debug)]
pub struct WatchStep {
    /// The next action.
    pub action: WatchAction,
    /// The text printed.
    pub printed: Printed,
}

/// Whether the watch is over: its time is up, or the user interrupted it.
pub open spec fn is_over(duration: Option<Duration>, elapsed: Duration, interrupted: bool) -> bool {
    interrupted || (duration matches Some(d) && elapsed@ >= d@)
}

/// The processes watched after an event.
pub open spec fn watched_after(run: WatchRun, event: WatchEvent) -> Seq<u32> {
    match event {
        WatchEvent::Listed { rows: Ok(rows), .. } => pids_to_watch(
            rows@,
            run.explicit@,
            run.top as nat,
        ),
        WatchEvent::Sampled { rows: Ok(rows), .. } if run.follow_new => pids_to_watch(
            rows@,
            run.explicit@,
            run.top as nat,
        ),
        _ => run.watched@,
    }
}

/// The action that follows an event.
pub open spec fn watch_action(run: WatchRun, event: WatchEvent) -> WatchAction {
    match event {
        WatchEvent::Started => if run.follow_new && run.explicit@.len() > 0 {
            WatchAction::Exit(2)
        } else {
            WatchAction::List
        },
        WatchEvent::Listed { rows: Err(_), .. } => WatchAction::Exit(2),
        WatchEvent::Listed { rows: Ok(_), .. } => if watched_after(run, event).len() == 0
            && !run.follow_new {
            WatchAction::Exit(2)
        } else {
            WatchAction::OpenTracker
        },
        WatchEvent::Opened(_) => WatchAction::InstallHandler,
        WatchEvent::HandlerInstalled(_) => WatchAction::FirstSample,
        WatchEvent::FirstSample { .. } => WatchAction::Check,
        WatchEvent::Checked { elapsed, interrupted, slept } => if is_over(
            run.duration,
            elapsed,
            interrupted,
        ) {
            WatchAction::Finish
        } else if slept {
            WatchAction::Sample
        } else {
            WatchAction::Sleep
        },
        WatchEvent::Sampled { .. } => WatchAction::Check,
    }
}

/// How the processes were chosen.
pub open spec fn mode_clause(run: WatchRun) -> Seq<char> {
    if run.follow_new {
        "following top "@ + decimal(run.top as nat)
            + " by committed (re-selected every interval), "@ + decimal(run.watched@.len())
            + " initially"@
    } else if run.explicit@.len() == 0 {
        "watching "@ + decimal(run.watched@.len()) + " PID(s) (top "@ + decimal(run.top as nat)
            + " by committed)"@
    } else {
        "watching "@ + decimal(run.watched@.len()) + " PID(s)"@
    }
}

/// What is watched, and how.
pub open spec fn watch_banner(run: WatchRun) -> Seq<char> {
    "hmn watch: device "@ + decimal(run.device as nat) + bracketed(opt_text(run.device_name))
        + ", interval "@ + secs_text(run.interval@) + ", "@ + mode_clause(run) + "\n"@
}

/// The notices, each a line.
pub open spec fn notice_lines(notices: Seq<Seq<char>>) -> Seq<char>
    decreases notices.len(),
{
    if notices.len() == 0 {
        seq![]
    } else {
        notice_lines(notices.drop_last()) + notices.last() + "\n"@
    }
}

/// The line on a changed set, or nothing.
pub open spec fn change_line(change: Option<Seq<char>>) -> Seq<char> {
    match change {
        Some(c) => c + "\n"@,
        None => seq![],
    }
}

/// What the user is told after an event.
pub open spec fn watch_stderr(run: WatchRun, event: WatchEvent) -> Seq<char> {
    match event {
        WatchEvent::Started => if run.follow_new && run.explicit@.len() > 0 {
            "hmn: watch --follow-new only applies to auto-selection; drop --follow-new or the explicit PID list\n"@
        } else {
            seq![]
        },
        WatchEvent::Listed { rows: Err(e), .. } => "hmn: watch failed to query device "@ + decimal(
            run.device as nat,
        ) + ": "@ + error_text(e) + "\n"@,
        WatchEvent::Listed { rows: Ok(_), .. } => if watched_after(run, event).len() > 0 {
            seq![]
        } else if run.follow_new {
            "hmn: watch found no GPU processes on device "@ + decimal(run.device as nat)
                + " yet (top "@ + decimal(run.top as nat)
                + " by committed); waiting for work to appear\n"@
        } else {
            "hmn: watch found no GPU processes on device "@ + decimal(run.device as nat)
                + " to auto-select (top "@ + decimal(run.top as nat)
                + "); re-run with an explicit PID once a workload is running\n"@
        },
        WatchEvent::Opened(Err(e)) => "hmn: watch spill tracking unavailable ("@ + error_text(e)
            + "); showing per-PID VRAM only\n"@,
        WatchEvent::HandlerInstalled(None) => watch_banner(run),
        WatchEvent::HandlerInstalled(Some(e)) =>
            "hmn: watch failed to install Ctrl+C handler ("@ + e@
            + "); interrupting will skip the closing summary\n"@ + watch_banner(run),
        WatchEvent::FirstSample { .. } => notice_lines(
            notices_after(run.state.by_pid@, run.first_rows@, run.watched@),
        ),
        WatchEvent::Sampled { elapsed, rows: Err(e), .. } => "hmn watch: sample failed at "@
            + elapsed_label_text(elapsed@) + " ("@ + error_text(e) + "); skipping interval\n"@,
        WatchEvent::Sampled { elapsed, rows: Ok(rows), .. } => (if run.follow_new {
            change_line(
                followed_set_change(
                    run.watched@,
                    watched_after(run, event),
                    rows@,
                    run.state.by_pid@,
                    elapsed@,
                ),
            )
        } else {
            seq![]
        }) + notice_lines(
            notices_after(run.state.by_pid@, rows@, watched_after(run, event)),
        ),
        _ => seq![],
    }
}

/// A sample as it is printed.
pub open spec fn sample_text(json: bool, nanos: nat, rows: Seq<WatchSampleRow>) -> Seq<char> {
    if json {
        watch_rows_json(nanos, rows)
    } else {
        watch_rows_text(nanos, rows)
    }
}

/// What is printed after an event, where `spilling` is the flag of the tracker then.
pub open spec fn watch_stdout(run: WatchRun, event: WatchEvent, spilling: bool) -> Seq<char> {
    match event {
        WatchEvent::HandlerInstalled(_) => if run.json {
            seq![]
        } else {
            watch_header_line()
        },
        WatchEvent::FirstSample { .. } => sample_text(
            run.json,
            0,
            rows_after(run.state.by_pid@, run.first_rows@, run.watched@, spilling),
        ),
        WatchEvent::Sampled { elapsed, rows: Ok(rows), .. } => sample_text(
            run.json,
            elapsed@,
            rows_after(run.state.by_pid@, rows@, watched_after(run, event), spilling),
        ),
        _ => seq![],
    }
}

/// The states of the processes after an event.
pub open spec fn states_next(run: WatchRun, event: WatchEvent) -> Map<u32, WatchedPidState> {
    match event {
        WatchEvent::FirstSample { .. } => states_after(
            run.state.by_pid@,
            run.first_rows@,
            run.watched@,
        ),
        WatchEvent::Sampled { rows: Ok(rows), .. } => states_after(
            run.state.by_pid@,
            rows@,
            watched_after(run, event),
        ),
        _ => run.state.by_pid@,
    }
}

/// The order in which the processes were first seen, after an event.
pub open spec fn seen_next(run: WatchRun, event: WatchEvent) -> Seq<u32> {
    match event {
        WatchEvent::FirstSample { .. } => seen_after(run.state.seen_order@, run.watched@),
        WatchEvent::Sampled { rows: Ok(_), .. } => seen_after(
            run.state.seen_order@,
            watched_after(run, event),
        ),
        _ => run.state.seen_order@,
    }
}

/// Whether `next` is the tracker after an event.
pub open spec fn watch_tracks(
    tracker: Option<SpillTracker>,
    event: WatchEvent,
    next: Option<SpillTracker>,
) -> bool {
    match event {
        WatchEvent::Opened(Ok(live)) => next matches Some(t) && t.live() == live
            && t.state().is_fresh(),
        WatchEvent::Opened(Err(_)) => next is None,
        WatchEvent::FirstSample { sample, at } => exists|zero: Duration|
            zero@ == 0 && #[trigger] shown(tracker, zero, sample, at, next),
        WatchEvent::Sampled { elapsed, rows: Ok(_), sample, at } => shown(
            tracker,
            elapsed,
            sample,
            at,
            next,
        ),
        _ => next == tracker,
    }
}

impl WatchRun {
    /// What holds throughout a run.
    pub open spec fn well_formed(self) -> bool {
        &&& self.state.well_formed()
        &&& sound(self.tracker)
    }

    /// Whether `next` was asked the same as this run.
    pub open spec fn same_request(self, next: WatchRun) -> bool {
        &&& next.explicit@ == self.explicit@
        &&& next.interval == self.interval
        &&& next.duration == self.duration
        &&& next.top == self.top
        &&& next.follow_new == self.follow_new
        &&& next.device == self.device
        &&& next.json == self.json
    }

    /// A run at its start. A process given twice is watched once.
    pub fn new(
        pids: &[u32],
        interval: Duration,
        duration: Option<Duration>,
        top: usize,
        follow_new: bool,
        device: u32,
        json: bool,
    ) -> (run: WatchRun)
        ensures
            run.explicit@ == seen_after(seq![], pids@),
            run.interval == interval,
            run.duration == duration,
            run.top == top,
            run.follow_new == follow_new,
            run.device == device,
            run.json == json,
            run.device_name is None,
            run.first_rows@.len() == 0,
            run.watched@.len() == 0,
            run.tracker is None,
            run.state.by_pid@ == Map::<u32, WatchedPidState>::empty(),
            run.state.seen_order@.len() == 0,
            run.well_formed(),
    {
        WatchRun {
            explicit: distinct_pids(pids),
            interval,
            duration,
            top,
            follow_new,
            device,
            json,
            device_name: None,
            first_rows: Vec::new(),
            watched: Vec::new(),
            tracker: None,
            state: WatchState::new(),
        }
    }

    fn banner(&self) -> (s: String)
        ensures
            s@ == watch_banner(*self),
    {
        let mut s = String::from_str("hmn watch: device ");
        push_decimal(&mut s, self.device as u64);
        push_bracketed(&mut s, &self.device_name);
        s.append(", interval ");
        let secs = format_secs(self.interval);
        s.append(secs.as_str());
        s.append(", ");
        let ghost head = s@;
        if self.follow_new {
            s.append("following top ");
            push_decimal(&mut s, self.top as u64);
            s.append(" by committed (re-selected every interval), ");
            push_decimal(&mut s, self.watched.len() as u64);
            s.append(" initially");
        } else if self.explicit.len() == 0 {
            s.append("watching ");
            push_decimal(&mut s, self.watched.len() as u64);
            s.append(" PID(s) (top ");
            push_decimal(&mut s, self.top as u64);
            s.append(" by committed)");
        } else {
            s.append("watching ");
            push_decimal(&mut s, self.watched.len() as u64);
            s.append(" PID(s)");
        }
        assert(s@ =~= head + mode_clause(*self));
        s.append("\n");
        s
    }

    fn nothing_found(&self) -> (s: String)
        ensures
            s@ == (if self.follow_new {
                "hmn: watch found no GPU processes on device "@ + decimal(self.device as nat)
                    + " yet (top "@ + decimal(self.top as nat)
                    + " by committed); waiting for work to appear\n"@
            } else {
                "hmn: watch found no GPU processes on device "@ + decimal(self.device as nat)
                    + " to auto-select (top "@ + decimal(self.top as nat)
                    + "); re-run with an explicit PID once a workload is running\n"@
            }),
    {
        let mut s = String::from_str("hmn: watch found no GPU processes on device ");
        push_decimal(&mut s, self.device as u64);
        if self.follow_new {
            s.append(" yet (top ");
            push_decimal(&mut s, self.top as u64);
            s.append(" by committed); waiting for work to appear\n");
        } else {
            s.append(" to auto-select (top ");
            push_decimal(&mut s, self.top as u64);
            s.append("); re-run with an explicit PID once a workload is running\n");
        }
        s
    }
}

fn push_notices(out: &mut String, notices: &Vec<String>)
    ensures
        final(out)@ == old(out)@ + notice_lines(texts(notices@)),
{
    let ghost all = texts(notices@);
    let mut i: usize = 0;
    assert(all.take(0) =~= seq![]);
    assert(out@ =~= old(out)@ + notice_lines(all.take(0)));
    while i < notices.len()
        invariant
            i <= notices@.len(),
            all == texts(notices@),
            out@ == old(out)@ + notice_lines(all.take(i as int)),
        decreases notices@.len() - i,
    {
        assert(all.take(i + 1).drop_last() =~= all.take(i as int));
        assert(all.take(i + 1).last() == notices@[i as int]@);
        out.append(notices[i].as_str());
        out.append("\n");
        i += 1;
        assert(out@ =~= old(out)@ + notice_lines(all.take(i as int)));
    }
    assert(all.take(i as int) =~= all);
}

fn print_sample(json: bool, elapsed: Duration, rows: &Vec<WatchSampleRow>) -> (s: String)
    ensures
        s@ == sample_text(json, elapsed@, rows@),
{
    if json {
        format_watch_rows_json(elapsed, rows.as_slice())
    } else {
        format_watch_rows_text(elapsed, rows.as_slice())
    }
}

fn watch_over(duration: Option<Duration>, elapsed: Duration, interrupted: bool) -> (r: bool)
    ensures
        r == is_over(duration, elapsed, interrupted),
{
    if interrupted {
        return true;
    }
    match duration {
        Some(d) => elapsed.at_least(&d),
        None => false,
    }
}

/// Advance the command by one event: what is asked is checked before any device is, the
/// processes are chosen, each sample is folded in and printed, and the watch ends when
/// its time is up or the user interrupts it.
pub fn run_watch(run: &mut WatchRun, event: WatchEvent) -> (step: WatchStep)
    requires
        old(run).well_formed(),
    ensures
        final(run).well_formed(),
        step.action == watch_action(*old(run), event),
        step.printed.stderr@ == watch_stderr(*old(run), event),
        step.printed.stdout@ == watch_stdout(
            *old(run),
            event,
            spilling_now(final(run).tracker),
        ),
        old(run).same_request(*final(run)),
        final(run).watched@ == watched_after(*old(run), event),
        final(run).state.by_pid@ == states_next(*old(run), event),
        final(run).state.seen_order@ == seen_next(*old(run), event),
        watch_tracks(old(run).tracker, event, final(run).tracker),
        match event {
            WatchEvent::Listed { device, rows } => final(run).device_name == (match device {
                Ok(d) => d.name,
                Err(_) => None,
            }) && final(run).first_rows@ == (match rows {
                Ok(v) => v@,
                Err(_) => old(run).first_rows@,
            }),
            _ => final(run).device_name == old(run).device_name && final(run).first_rows@ == old(
                run,
            ).first_rows@,
        },
{
    let mut stdout = String::new();
    let mut stderr = String::new();
    let action = match event {
        WatchEvent::Started => if run.follow_new && run.explicit.len() > 0 {
            stderr =
            String::from_str(
                "hmn: watch --follow-new only applies to auto-selection; drop --follow-new or the explicit PID list\n",
            );
            WatchAction::Exit(2)
        } else {
            WatchAction::List
        },
        WatchEvent::Listed { device, rows } => {
            run.device_name =
            match device {
                Ok(d) => d.name,
                Err(_) => None,
            };
            match rows {
                Err(e) => {
                    stderr = String::from_str("hmn: watch failed to query device ");
                    push_decimal(&mut stderr, run.device as u64);
                    stderr.append(": ");
                    let m = e.message();
                    stderr.append(m.as_str());
                    stderr.append("\n");
                    WatchAction::Exit(2)
                },
                Ok(rows) => {
                    run.watched =
                    resolve_watched_pids(rows.as_slice(), run.explicit.as_slice(), run.top);
                    run.first_rows = rows;
                    if run.watched.len() > 0 {
                        WatchAction::OpenTracker
                    } else {
                        stderr = run.nothing_found();
                        if run.follow_new {
                            WatchAction::OpenTracker
                        } else {
                            WatchAction::Exit(2)
                        }
                    }
                },
            }
        },
        WatchEvent::Opened(source) => {
            match SpillTracker::new(source) {
                Ok(t) => {
                    run.tracker = Some(t);
                },
                Err(e) => {
                    stderr = String::from_str("hmn: watch spill tracking unavailable (");
                    let m = e.message();
                    stderr.append(m.as_str());
                    stderr.append("); showing per-PID VRAM only\n");
                    run.tracker = None;
                },
            }
            WatchAction::InstallHandler
        },
        WatchEvent::HandlerInstalled(failure) => {
            let banner = run.banner();
            match failure {
                Some(e) => {
                    stderr = String::from_str("hmn: watch failed to install Ctrl+C handler (");
                    stderr.append(e.as_str());
                    stderr.append("); interrupting will skip the closing summary\n");
                    stderr.append(banner.as_str());
                },
                None => {
                    stderr = banner;
                },
            }
            if !run.json {
                stdout = format_watch_header_text();
            }
            WatchAction::FirstSample
        },
        WatchEvent::FirstSample { sample, at } => {
            let zero = Duration::zero();
            let out = process_sample(
                run.first_rows.as_slice(),
                &mut run.state,
                run.watched.as_slice(),
                zero,
                &mut run.tracker,
                sample,
                at,
            );
            stdout = print_sample(run.json, zero, &out.rows);
            push_notices(&mut stderr, &out.notices);
            assert(shown(old(run).tracker, zero, sample, at, run.tracker));
            assert(stderr@ =~= notice_lines(texts(out.notices@)));
            WatchAction::Check
        },
        WatchEvent::Checked { elapsed, interrupted, slept } => if watch_over(
            run.duration,
            elapsed,
            interrupted,
        ) {
            WatchAction::Finish
        } else if slept {
            WatchAction::Sample
        } else {
            WatchAction::Sleep
        },
        WatchEvent::Sampled { elapsed, rows, sample, at } => {
            match rows {
                Err(e) => {
                    stderr = String::from_str("hmn watch: sample failed at ");
                    let label = elapsed_label(elapsed);
                    stderr.append(label.as_str());
                    stderr.append(" (");
                    let m = e.message();
                    stderr.append(m.as_str());
                    stderr.append("); skipping interval\n");
                },
                Ok(rows) => {
                    if run.follow_new {
                        let next = resolve_watched_pids(
                            rows.as_slice(),
                            run.explicit.as_slice(),
                            run.top,
                        );
                        match format_followed_set_change(
                            run.watched.as_slice(),
                            next.as_slice(),
                            rows.as_slice(),
                            &run.state,
                            elapsed,
                        ) {
                            Some(m) => {
                                stderr = m;
                                stderr.append("\n");
                            },
                            None => {},
                        }
                        run.watched = next;
                    }
                    let out = process_sample(
                        rows.as_slice(),
                        &mut run.state,
                        run.watched.as_slice(),
                        elapsed,
                        &mut run.tracker,
                        sample,
                        at,
                    );
                    stdout = print_sample(run.json, elapsed, &out.rows);
                    push_notices(&mut stderr, &out.notices);
                },
            }
            WatchAction::Check
        },
    };
    WatchStep { action, printed: Printed { stdout, stderr } }
}

/// End a watch: print the summary of the adapter, where it was tracked, and of every
/// process ever watched. The exit code says whether anything spilled.
pub fn finish_watch(run: &WatchRun, report: &Option<SpillReport>) -> (r: (String, u8))
    requires
        run.well_formed(),
        report matches Some(r) ==> total_nanos(r.episodes@) <= MAX_NANOS,
    ensures
        r.0@ == (if run.json {
            watch_summary_json(*report, summaries(run.state))
        } else {
            watch_summary_text(*report, summaries(run.state))
        }),
        r.1 == (if report matches Some(r) && r.episodes@.len() > 0 {
            1u8
        } else {
            0u8
        }),
{
    let per_pid = summarize(&run.state);
    let (known, spilled) = match report {
        Some(r) => (Some(r), r.spilled()),
        None => (None, false),
    };
    let stdout = if run.json {
        format_watch_summary_json(known, per_pid.as_slice())
    } else {
        format_watch_summary_text(known, per_pid.as_slice())
    };
    (stdout, watch_exit_code(spilled))
}

/// End a watch: make the report of its tracker, and print it with the summary of every
/// process ever watched. `None` where the sum of the durations exceeds the longest span.
/// The exit code says whether the tracker saw anything spill.
pub fn end_watch(run: WatchRun) -> (r: Option<(String, u8)>)
    requires
        run.well_formed(),
    ensures
        r is Some <==> in_span(run.tracker),
        r matches Some((text, exit)) ==> exit == (match run.tracker {
            Some(t) if t.state().latched => 1u8,
            _ => 0u8,
        }) && exists|report: Option<SpillReport>| #[trigger]
            reported(run.tracker, report) && text@ == (if run.json {
                watch_summary_json(report, summaries(run.state))
            } else {
                watch_summary_text(report, summaries(run.state))
            }),
{
    let mut run = run;
    match report_of(run.tracker.take()) {
        Some(report) => Some(finish_watch(&run, &report)),
        None => None,
    }
}

/// Asking for given processes and for a followed selection at once is refused before any
/// device is asked, and nothing else at the start is.
pub proof fn law_conflict_fails_fast(run: WatchRun)
    ensures
        watch_action(run, WatchEvent::Started) == WatchAction::Exit(2) <==> (run.follow_new
            && run.explicit@.len() > 0),
        watch_action(run, WatchEvent::Started) == WatchAction::List <==> !(run.follow_new
            && run.explicit@.len() > 0),
{
}

/// A sample that fails costs its interval and nothing else: nothing is printed as a
/// sample, and what is kept and watched stays.
pub proof fn law_failed_sample_changes_nothing(
    run: WatchRun,
    elapsed: Duration,
    e: HypomnesisError,
    sample: Option<AdapterMemSample>,
    at: Duration,
    spilling: bool,
)
    ensures
        ({
            let event = WatchEvent::Sampled { elapsed, rows: Err(e), sample, at };
            &&& watch_action(run, event) == WatchAction::Check
            &&& states_next(run, event) == run.state.by_pid@
            &&& seen_next(run, event) == run.state.seen_order@
            &&& watched_after(run, event) == run.watched@
            &&& watch_stdout(run, event, spilling) == Seq::<char>::empty()
        }),
{
}

/// Without a followed selection the watched processes are those of the first listing to
/// the end.
pub proof fn law_fixed_set_stays(run: WatchRun, event: WatchEvent)
    requires
        !run.follow_new,
        !(event is Listed),
    ensures
        watched_after(run, event) == run.watched@,
{
}

} // verus!
