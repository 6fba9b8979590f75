//! The watch command: what it keeps of each process from sample to sample.
use crate::cli::spill::{show_sample, shown, sound};
use crate::gpu::adapter::AdapterMemSample;
use crate::number::{decimal, push_decimal};
use crate::snapshot::GpuProcessEntry;
use crate::spill::larger;
use crate::text::{clone_opt, same_str, texts};
use crate::time::Duration;
use crate::tracker::SpillTracker;
use crate::units::{format_vram, signed_delta, signed_difference, vram_text};
use std::collections::HashMap;
use vstd::prelude::*;

verus! {

broadcast use vstd::std_specs::hash::group_hash_axioms;

/// Growth of an unnamed process from which the user is told about it.
pub const UNRESOLVED_GROWTH_HINT_BYTES: u64 = 268_435_456;

/// What is kept of one watched process.
#[derive(Debug)]
pub struct WatchedPidState {
    /// GPU memory at the first sample.
    pub baseline_used_bytes: u64,
    /// Shared memory at the first sample.
    pub baseline_shared_bytes: u64,
    /// GPU memory at the previous sample.
    pub prev_used_bytes: u64,
    /// Shared memory at the previous sample.
    pub prev_shared_bytes: u64,
    /// Most GPU memory at any sample.
    pub peak_used_bytes: u64,
    /// Most shared memory at any sample.
    pub peak_shared_bytes: u64,
    /// The latest name that identifies a process.
    pub last_name: Option<String>,
    /// Whether the user was told of its growth.
    pub growth_hint_fired: bool,
}

/// One process in one sample. A watched process that the sample does not list holds
/// nothing and has no name.
pub struct WatchReading {
    /// Its name in the sample.
    pub name: Option<String>,
    /// GPU memory in bytes.
    pub used_bytes: u64,
    /// Shared memory in bytes.
    pub shared_bytes: u64,
}

impl WatchedPidState {
    /// The state after the first sample, before it is folded in.
    pub open spec fn fresh(used: u64, shared: u64) -> WatchedPidState {
        WatchedPidState {
            baseline_used_bytes: used,
            baseline_shared_bytes: shared,
            prev_used_bytes: used,
            prev_shared_bytes: shared,
            peak_used_bytes: used,
            peak_shared_bytes: shared,
            last_name: None,
            growth_hint_fired: false,
        }
    }

    /// What holds of every state: no peak lies below the baseline or the latest reading.
    pub open spec fn well_formed(self) -> bool {
        &&& self.baseline_used_bytes <= self.peak_used_bytes
        &&& self.prev_used_bytes <= self.peak_used_bytes
        &&& self.baseline_shared_bytes <= self.peak_shared_bytes
        &&& self.prev_shared_bytes <= self.peak_shared_bytes
    }

    /// The state of a process first seen with these figures.
    pub fn new(used_bytes: u64, shared_bytes: u64) -> (s: WatchedPidState)
        ensures
            s == WatchedPidState::fresh(used_bytes, shared_bytes),
    {
        WatchedPidState {
            baseline_used_bytes: used_bytes,
            baseline_shared_bytes: shared_bytes,
            prev_used_bytes: used_bytes,
            prev_shared_bytes: shared_bytes,
            peak_used_bytes: used_bytes,
            peak_shared_bytes: shared_bytes,
            last_name: None,
            growth_hint_fired: false,
        }
    }
}

// ---------------------------------------------------------------------------
// Names
// ---------------------------------------------------------------------------

/// Whether the text names a process rather than saying why there is no name.
pub open spec fn identifies(name: Seq<char>) -> bool {
    name != "[protected]"@ && name != "[exited]"@
}

/// Whether there is a name and it identifies a process.
pub open spec fn resolved(name: Option<String>) -> bool {
    name matches Some(n) && identifies(n@)
}

/// The name, where it identifies a process.
pub fn resolved_name(name: Option<&str>) -> (r: Option<&str>)
    ensures
        r == (match name {
            Some(n) if identifies(n@) => name,
            _ => None,
        }),
{
    match name {
        Some(n) => if same_str(n, "[protected]") || same_str(n, "[exited]") {
            None
        } else {
            Some(n)
        },
        None => None,
    }
}

/// Whether a process without such a name may still run: it has no name at all, or one
/// that is withheld.
pub open spec fn unidentified(name: Option<String>) -> bool {
    match name {
        None => true,
        Some(n) => n@ == "[protected]"@,
    }
}

fn opt_str(s: &Option<String>) -> (r: Option<&str>)
    ensures
        match s {
            Some(t) => r matches Some(u) && u@ == t@,
            None => r is None,
        },
{
    match s {
        Some(t) => Some(t.as_str()),
        None => None,
    }
}

// ---------------------------------------------------------------------------
// One process, one sample
// ---------------------------------------------------------------------------

/// Whether the process ID now belongs to another process: a name that identifies one
/// changed to another such name.
pub open spec fn reused(s: WatchedPidState, r: WatchReading) -> bool {
    resolved(s.last_name) && resolved(r.name) && s.last_name->0@ != r.name->0@
}

/// What the reading is compared with: the state, or a new start where the process ID was
/// reused.
pub open spec fn base(s: WatchedPidState, r: WatchReading) -> WatchedPidState {
    if reused(s, r) {
        WatchedPidState {
            last_name: s.last_name,
            ..WatchedPidState::fresh(r.used_bytes, r.shared_bytes)
        }
    } else {
        s
    }
}

/// `a - b`, at least 0.
pub open spec fn growth_over(a: u64, b: u64) -> u64 {
    if a >= b {
        (a - b) as u64
    } else {
        0
    }
}

/// Growth since the baseline, of GPU or shared memory, whichever is more.
pub open spec fn growth(b: WatchedPidState, r: WatchReading) -> u64 {
    larger(
        growth_over(r.used_bytes, b.baseline_used_bytes),
        growth_over(r.shared_bytes, b.baseline_shared_bytes),
    )
}

/// Whether the user is told of the growth of a process without a name.
pub open spec fn hints(b: WatchedPidState, r: WatchReading) -> bool {
    !b.growth_hint_fired && unidentified(r.name) && growth(b, r) >= UNRESOLVED_GROWTH_HINT_BYTES
}

/// The state after a reading.
pub open spec fn sampled(s: WatchedPidState, r: WatchReading) -> WatchedPidState {
    let b = base(s, r);
    WatchedPidState {
        prev_used_bytes: r.used_bytes,
        prev_shared_bytes: r.shared_bytes,
        peak_used_bytes: larger(b.peak_used_bytes, r.used_bytes),
        peak_shared_bytes: larger(b.peak_shared_bytes, r.shared_bytes),
        last_name: if resolved(r.name) {
            r.name
        } else {
            b.last_name
        },
        growth_hint_fired: b.growth_hint_fired || hints(b, r),
        ..b
    }
}

/// What the user is told of a reused process ID.
pub open spec fn reuse_notice(pid: u32, old_name: Seq<char>, new_name: Seq<char>) -> Seq<char> {
    "hmn watch: pid="@ + decimal(pid as nat) + " name changed ("@ + old_name + " → "@ + new_name
        + ") — likely PID reuse by the OS; baseline reset"@
}

/// What the user is told of growth.
pub open spec fn growth_notice(pid: u32, grown: u64) -> Seq<char> {
    "hmn watch: unresolved pid="@ + decimal(pid as nat) + " grew +"@ + vram_text(grown as nat)
        + " since attach — re-run elevated to identify"@
}

/// What the user is told after a reading.
pub open spec fn notices_of(pid: u32, s: WatchedPidState, r: WatchReading) -> Seq<Seq<char>> {
    let reuse = if reused(s, r) {
        seq![reuse_notice(pid, s.last_name->0@, r.name->0@)]
    } else {
        seq![]
    };
    let b = base(s, r);
    if hints(b, r) {
        reuse.push(growth_notice(pid, growth(b, r)))
    } else {
        reuse
    }
}

/// One process in one sample, as it is shown.
#[derive(Debug)]
pub struct WatchSampleRow {
    /// Process ID.
    pub pid: u32,
    /// Its name in the sample.
    pub name: Option<String>,
    /// GPU memory in bytes.
    pub used_bytes: u64,
    /// Change since the previous sample.
    pub used_delta: i64,
    /// Shared memory in bytes.
    pub shared_bytes: u64,
    /// Change since the previous sample.
    pub shared_delta: i64,
    /// Whether the adapter spills; the same for every process of a sample.
    pub spilling: bool,
}

/// The row of a reading.
pub open spec fn row_for(
    pid: u32,
    s: WatchedPidState,
    r: WatchReading,
    spilling: bool,
) -> WatchSampleRow {
    let b = base(s, r);
    WatchSampleRow {
        pid,
        name: r.name,
        used_bytes: r.used_bytes,
        used_delta: signed_difference(r.used_bytes as nat, b.prev_used_bytes as nat) as i64,
        shared_bytes: r.shared_bytes,
        shared_delta: signed_difference(r.shared_bytes as nat, b.prev_shared_bytes as nat) as i64,
        spilling,
    }
}

fn max_bytes(a: u64, b: u64) -> (m: u64)
    ensures
        m == larger(a, b),
{
    if a >= b {
        a
    } else {
        b
    }
}

/// Start anew where the process ID was reused, and say so.
fn rebase(
    entry: &mut WatchedPidState,
    pid: u32,
    r: &WatchReading,
    notices: &mut Vec<String>,
)
    ensures
        *final(entry) == base(*old(entry), *r),
        texts(final(notices)@) == texts(old(notices)@) + (if reused(*old(entry), *r) {
            seq![reuse_notice(pid, old(entry).last_name->0@, r.name->0@)]
        } else {
            seq![]
        }),
{
    let mut notice: Option<String> = None;
    match (resolved_name(opt_str(&entry.last_name)), resolved_name(opt_str(&r.name))) {
        (Some(old_name), Some(new_name)) => {
            if !same_str(old_name, new_name) {
                let mut s = String::from_str("hmn watch: pid=");
                push_decimal(&mut s, pid as u64);
                s.append(" name changed (");
                s.append(old_name);
                s.append(" → ");
                s.append(new_name);
                s.append(") — likely PID reuse by the OS; baseline reset");
                notice = Some(s);
            }
        },
        _ => {},
    }
    match notice {
        Some(s) => {
            entry.baseline_used_bytes = r.used_bytes;
            entry.baseline_shared_bytes = r.shared_bytes;
            entry.prev_used_bytes = r.used_bytes;
            entry.prev_shared_bytes = r.shared_bytes;
            entry.peak_used_bytes = r.used_bytes;
            entry.peak_shared_bytes = r.shared_bytes;
            entry.growth_hint_fired = false;
            notices.push(s);
            assert(texts(notices@) =~= texts(old(notices)@) + seq![s@]);
        },
        None => {
            assert(texts(notices@) =~= texts(old(notices)@) + seq![]);
        },
    }
}

/// Tell the user, once, of the growth of a process without a name.
fn hint(entry: &mut WatchedPidState, pid: u32, r: &WatchReading, notices: &mut Vec<String>)
    ensures
        *final(entry) == (WatchedPidState {
            growth_hint_fired: old(entry).growth_hint_fired || hints(*old(entry), *r),
            ..*old(entry)
        }),
        texts(final(notices)@) == texts(old(notices)@) + (if hints(*old(entry), *r) {
            seq![growth_notice(pid, growth(*old(entry), *r))]
        } else {
            seq![]
        }),
{
    let unnamed = match &r.name {
        None => true,
        Some(n) => same_str(n.as_str(), "[protected]"),
    };
    let grown = max_bytes(
        r.used_bytes.saturating_sub(entry.baseline_used_bytes),
        r.shared_bytes.saturating_sub(entry.baseline_shared_bytes),
    );
    if !entry.growth_hint_fired && unnamed && grown >= UNRESOLVED_GROWTH_HINT_BYTES {
        entry.growth_hint_fired = true;
        let mut s = String::from_str("hmn watch: unresolved pid=");
        push_decimal(&mut s, pid as u64);
        s.append(" grew +");
        let v = format_vram(grown);
        s.append(v.as_str());
        s.append(" since attach — re-run elevated to identify");
        notices.push(s);
        assert(texts(notices@) =~= texts(old(notices)@) + seq![s@]);
    } else {
        assert(texts(notices@) =~= texts(old(notices)@) + seq![]);
    }
}

/// Fold a reading into the state of its process.
fn sample_pid(
    entry: &mut WatchedPidState,
    pid: u32,
    r: WatchReading,
    spilling: bool,
    notices: &mut Vec<String>,
) -> (row: WatchSampleRow)
    ensures
        row == row_for(pid, *old(entry), r, spilling),
        *final(entry) == sampled(*old(entry), r),
        texts(final(notices)@) == texts(old(notices)@) + notices_of(pid, *old(entry), r),
        old(entry).well_formed() ==> final(entry).well_formed(),
{
    rebase(entry, pid, &r, notices);
    let ghost mid = texts(notices@);
    let ghost b = *entry;
    let used_delta = signed_delta(r.used_bytes, entry.prev_used_bytes);
    let shared_delta = signed_delta(r.shared_bytes, entry.prev_shared_bytes);
    hint(entry, pid, &r, notices);
    entry.prev_used_bytes = r.used_bytes;
    entry.prev_shared_bytes = r.shared_bytes;
    entry.peak_used_bytes = max_bytes(entry.peak_used_bytes, r.used_bytes);
    entry.peak_shared_bytes = max_bytes(entry.peak_shared_bytes, r.shared_bytes);
    if resolved_name(opt_str(&r.name)).is_some() {
        entry.last_name = clone_opt(&r.name);
    }
    assert(texts(notices@) =~= texts(old(notices)@) + notices_of(pid, *old(entry), r));
    WatchSampleRow {
        pid,
        name: r.name,
        used_bytes: r.used_bytes,
        used_delta,
        shared_bytes: r.shared_bytes,
        shared_delta,
        spilling,
    }
}

// ---------------------------------------------------------------------------
// All watched processes
// ---------------------------------------------------------------------------

/// What is kept of all watched processes, and the order in which they were first seen.
#[derive(Debug)]
pub struct WatchState {
    /// The state of each process.
    pub by_pid: HashMap<u32, WatchedPidState>,
    /// The processes, each once, in the order in which they were first seen.
    pub seen_order: Vec<u32>,
}

/// The state that a reading of the process meets: the one it has, or that of a process
/// first seen.
pub open spec fn state_before(
    m: Map<u32, WatchedPidState>,
    pid: u32,
    used: u64,
    shared: u64,
) -> WatchedPidState {
    if m.contains_key(pid) {
        m[pid]
    } else {
        WatchedPidState::fresh(used, shared)
    }
}

/// The sequence with the value at its end, where it was not in it.
pub open spec fn with_new(seen: Seq<u32>, pid: u32) -> Seq<u32> {
    if seen.contains(pid) {
        seen
    } else {
        seen.push(pid)
    }
}

impl WatchState {
    /// What holds of every state: the order lists exactly the processes with a state, each
    /// once, and each state is well formed.
    pub open spec fn well_formed(self) -> bool {
        &&& self.seen_order@.no_duplicates()
        &&& forall|p: u32| #[trigger]
            self.by_pid@.contains_key(p) <==> self.seen_order@.contains(p)
        &&& forall|p: u32| #[trigger]
            self.by_pid@.contains_key(p) ==> self.by_pid@[p].well_formed()
    }

    /// No process yet.
    pub fn new() -> (s: WatchState)
        ensures
            s.by_pid@ == Map::<u32, WatchedPidState>::empty(),
            s.seen_order@ == Seq::<u32>::empty(),
            s.well_formed(),
    {
        WatchState { by_pid: HashMap::new(), seen_order: Vec::new() }
    }

    /// The state of a process. One that was never seen gets a first state from the
    /// figures, and is put at the end of the order; one that was keeps what it has.
    pub fn track(&mut self, pid: u32, used_bytes: u64, shared_bytes: u64) -> (entry:
        &mut WatchedPidState)
        requires
            old(self).well_formed(),
        ensures
            *entry == state_before(old(self).by_pid@, pid, used_bytes, shared_bytes),
            entry.well_formed(),
            final(self).by_pid@ == old(self).by_pid@.insert(pid, *final(entry)),
            final(self).seen_order@ == with_new(old(self).seen_order@, pid),
            final(entry).well_formed() ==> final(self).well_formed(),
    {
        if !self.by_pid.contains_key(&pid) {
            self.seen_order.push(pid);
        }
        proof {
            let s0 = old(self).seen_order@;
            let s1 = self.seen_order@;
            assert(s1 == with_new(s0, pid));
            assert forall|p: u32| #[trigger] s1.contains(p) <==> s0.contains(p) || p == pid by {
                lemma_with_new(s0, pid, p);
            }
        }
        self.by_pid.entry(pid).or_insert(WatchedPidState::new(used_bytes, shared_bytes))
    }
}

proof fn lemma_with_new(seen: Seq<u32>, pid: u32, p: u32)
    ensures
        with_new(seen, pid).contains(p) <==> seen.contains(p) || p == pid,
        seen.no_duplicates() ==> with_new(seen, pid).no_duplicates(),
{
    let s1 = with_new(seen, pid);
    if seen.contains(p) {
        let i = choose|i: int| 0 <= i < seen.len() && seen[i] == p;
        assert(s1[i] == p);
    }
    if p == pid && !seen.contains(pid) {
        assert(s1[seen.len() as int] == p);
    }
}

/// The entry of the process, the first where there are several.
pub open spec fn found(rows: Seq<GpuProcessEntry>, pid: u32) -> Option<GpuProcessEntry>
    decreases rows.len(),
{
    if rows.len() == 0 {
        None
    } else if rows[0].pid == pid {
        Some(rows[0])
    } else {
        found(rows.drop_first(), pid)
    }
}

/// What the sample says of the process.
pub open spec fn reading_of(rows: Seq<GpuProcessEntry>, pid: u32) -> WatchReading {
    match found(rows, pid) {
        Some(e) => WatchReading {
            name: e.name,
            used_bytes: e.used_bytes,
            shared_bytes: e.shared_used_bytes,
        },
        None => WatchReading { name: None, used_bytes: 0, shared_bytes: 0 },
    }
}

/// The entry of the process, the first where there are several.
pub fn find_entry(rows: &[GpuProcessEntry], pid: u32) -> (r: Option<usize>)
    ensures
        match r {
            Some(i) => i < rows@.len() && found(rows@, pid) == Some(rows@[i as int]),
            None => found(rows@, pid) is None,
        },
{
    let mut i: usize = 0;
    assert(rows@.skip(0) =~= rows@);
    while i < rows.len()
        invariant
            i <= rows@.len(),
            found(rows@, pid) == found(rows@.skip(i as int), pid),
        decreases rows@.len() - i,
    {
        assert(rows@.skip(i as int).drop_first() =~= rows@.skip(i + 1));
        if rows[i].pid == pid {
            return Some(i);
        }
        i += 1;
    }
    None
}

fn read_pid(rows: &[GpuProcessEntry], pid: u32) -> (r: WatchReading)
    ensures
        r == reading_of(rows@, pid),
{
    match find_entry(rows, pid) {
        Some(i) => WatchReading {
            name: clone_opt(&rows[i].name),
            used_bytes: rows[i].used_bytes,
            shared_bytes: rows[i].shared_used_bytes,
        },
        None => WatchReading { name: None, used_bytes: 0, shared_bytes: 0 },
    }
}

/// The state that the reading of the process in the sample meets.
pub open spec fn met(
    m: Map<u32, WatchedPidState>,
    rows: Seq<GpuProcessEntry>,
    pid: u32,
) -> WatchedPidState {
    let r = reading_of(rows, pid);
    state_before(m, pid, r.used_bytes, r.shared_bytes)
}

/// The states after a sample.
pub open spec fn states_after(
    m: Map<u32, WatchedPidState>,
    rows: Seq<GpuProcessEntry>,
    watched: Seq<u32>,
) -> Map<u32, WatchedPidState>
    decreases watched.len(),
{
    if watched.len() == 0 {
        m
    } else {
        let before = states_after(m, rows, watched.drop_last());
        let pid = watched.last();
        before.insert(pid, sampled(met(before, rows, pid), reading_of(rows, pid)))
    }
}

/// The order after the processes were seen.
pub open spec fn seen_after(seen: Seq<u32>, watched: Seq<u32>) -> Seq<u32>
    decreases watched.len(),
{
    if watched.len() == 0 {
        seen
    } else {
        with_new(seen_after(seen, watched.drop_last()), watched.last())
    }
}

/// The rows of a sample.
pub open spec fn rows_after(
    m: Map<u32, WatchedPidState>,
    rows: Seq<GpuProcessEntry>,
    watched: Seq<u32>,
    spilling: bool,
) -> Seq<WatchSampleRow>
    decreases watched.len(),
{
    if watched.len() == 0 {
        seq![]
    } else {
        let before = states_after(m, rows, watched.drop_last());
        let pid = watched.last();
        rows_after(m, rows, watched.drop_last(), spilling).push(
            row_for(pid, met(before, rows, pid), reading_of(rows, pid), spilling),
        )
    }
}

/// What the user is told after a sample.
pub open spec fn notices_after(
    m: Map<u32, WatchedPidState>,
    rows: Seq<GpuProcessEntry>,
    watched: Seq<u32>,
) -> Seq<Seq<char>>
    decreases watched.len(),
{
    if watched.len() == 0 {
        seq![]
    } else {
        let before = states_after(m, rows, watched.drop_last());
        let pid = watched.last();
        notices_after(m, rows, watched.drop_last()) + notices_of(
            pid,
            met(before, rows, pid),
            reading_of(rows, pid),
        )
    }
}

/// Whether the adapter spills at the latest observation of the tracker, if any.
pub open spec fn spilling_now(tracker: Option<SpillTracker>) -> bool {
    tracker matches Some(t) && t.state().currently
}

/// What a sample comes to: a row for each watched process, and what the user is told.
#[derive(Debug)]
pub struct WatchSample {
    /// The rows, in the order of the watched processes.
    pub rows: Vec<WatchSampleRow>,
    /// The lines for standard error.
    pub notices: Vec<String>,
}

/// Fold one sample into the state: the tracker observes the adapter, and each watched
/// process gets a row with the change since its previous sample. A process that the
/// sample does not list holds nothing. One that was watched before resumes its state.
pub fn process_sample(
    rows: &[GpuProcessEntry],
    state: &mut WatchState,
    watched: &[u32],
    elapsed: Duration,
    tracker: &mut Option<SpillTracker>,
    sample: Option<AdapterMemSample>,
    at: Duration,
) -> (out: WatchSample)
    requires
        old(state).well_formed(),
    ensures
        shown(*old(tracker), elapsed, sample, at, *final(tracker)),
        sound(*old(tracker)) ==> sound(*final(tracker)),
        final(state).well_formed(),
        final(state).by_pid@ == states_after(old(state).by_pid@, rows@, watched@),
        final(state).seen_order@ == seen_after(old(state).seen_order@, watched@),
        out.rows@ == rows_after(
            old(state).by_pid@,
            rows@,
            watched@,
            spilling_now(*final(tracker)),
        ),
        texts(out.notices@) == notices_after(old(state).by_pid@, rows@, watched@),
{
    show_sample(tracker, elapsed, sample, at);
    let spilling = match tracker {
        Some(t) => t.is_spilling(),
        None => false,
    };
    let mut out: Vec<WatchSampleRow> = Vec::new();
    let mut notices: Vec<String> = Vec::new();
    let mut i: usize = 0;
    let ghost m = state.by_pid@;
    let ghost seen = state.seen_order@;
    assert(watched@.take(0) =~= seq![]);
    assert(texts(notices@) =~= seq![]);
    while i < watched.len()
        invariant
            i <= watched@.len(),
            state.well_formed(),
            state.by_pid@ == states_after(m, rows@, watched@.take(i as int)),
            state.seen_order@ == seen_after(seen, watched@.take(i as int)),
            out@ == rows_after(m, rows@, watched@.take(i as int), spilling),
            texts(notices@) == notices_after(m, rows@, watched@.take(i as int)),
        decreases watched@.len() - i,
    {
        let pid = watched[i];
        assert(watched@.take(i + 1).drop_last() =~= watched@.take(i as int));
        assert(watched@.take(i + 1).last() == pid);
        let r = read_pid(rows, pid);
        let entry = state.track(pid, r.used_bytes, r.shared_bytes);
        out.push(sample_pid(entry, pid, r, spilling, &mut notices));
        i += 1;
    }
    assert(watched@.take(i as int) =~= watched@);
    WatchSample { rows: out, notices }
}

// ---------------------------------------------------------------------------
// Laws
// ---------------------------------------------------------------------------

/// A sample leaves alone the state of every process that is not watched in it, so one
/// that comes back resumes what it had.
pub proof fn law_unwatched_is_untouched(
    m: Map<u32, WatchedPidState>,
    rows: Seq<GpuProcessEntry>,
    watched: Seq<u32>,
    pid: u32,
)
    requires
        !watched.contains(pid),
    ensures
        states_after(m, rows, watched).contains_key(pid) <==> m.contains_key(pid),
        states_after(m, rows, watched)[pid] == m[pid],
    decreases watched.len(),
{
    if watched.len() > 0 {
        let init = watched.drop_last();
        assert(watched[watched.len() - 1] == watched.last());
        assert forall|i: int| 0 <= i < init.len() implies init[i] != pid by {
            assert(watched[i] == init[i]);
        }
        law_unwatched_is_untouched(m, rows, init, pid);
    }
}

/// The order only grows at its end, never lists a process twice, and lists exactly those
/// that were ever seen.
pub proof fn law_seen_order(seen: Seq<u32>, watched: Seq<u32>)
    requires
        seen.no_duplicates(),
    ensures
        seen.len() <= seen_after(seen, watched).len(),
        seen_after(seen, watched).take(seen.len() as int) == seen,
        seen_after(seen, watched).no_duplicates(),
        forall|p: u32| #[trigger]
            seen_after(seen, watched).contains(p) <==> seen.contains(p) || watched.contains(p),
    decreases watched.len(),
{
    if watched.len() > 0 {
        let init = watched.drop_last();
        law_seen_order(seen, init);
        let before = seen_after(seen, init);
        lemma_with_new(before, watched.last(), watched.last());
        assert(seen_after(seen, watched).take(seen.len() as int) =~= seen);
        assert forall|p: u32| #[trigger] seen_after(seen, watched).contains(p) <==> seen.contains(p)
            || watched.contains(p) by {
            lemma_with_new(before, watched.last(), p);
            assert(watched.contains(p) <==> init.contains(p) || p == watched.last()) by {
                assert(watched =~= init.push(watched.last()));
                if init.contains(p) {
                    let i = choose|i: int| 0 <= i < init.len() && init[i] == p;
                    assert(watched[i] == p);
                }
                if p == watched.last() {
                    assert(watched[watched.len() - 1] == p);
                }
                if watched.contains(p) && p != watched.last() {
                    let i = choose|i: int| 0 <= i < watched.len() && watched[i] == p;
                    assert(init[i] == p);
                }
            }
        }
    } else {
        assert(seen.take(seen.len() as int) =~= seen);
    }
}

/// A sample has one row for each watched process, in their order.
pub proof fn law_one_row_per_watched(
    m: Map<u32, WatchedPidState>,
    rows: Seq<GpuProcessEntry>,
    watched: Seq<u32>,
    spilling: bool,
)
    ensures
        rows_after(m, rows, watched, spilling).len() == watched.len(),
        forall|i: int|
            0 <= i < watched.len() ==> (#[trigger] rows_after(m, rows, watched, spilling)[i]).pid
                == watched[i],
        forall|i: int|
            0 <= i < watched.len() ==> (#[trigger] rows_after(m, rows, watched, spilling)[i]).spilling
                == spilling,
    decreases watched.len(),
{
    if watched.len() > 0 {
        law_one_row_per_watched(m, rows, watched.drop_last(), spilling);
    }
}

/// The first row of a process, and its first row after its ID was reused, shows no change,
/// and the baseline is then that reading.
pub proof fn law_first_row_shows_no_change(pid: u32, s: WatchedPidState, r: WatchReading, spilling: bool)
    requires
        s == WatchedPidState::fresh(r.used_bytes, r.shared_bytes) || reused(s, r),
    ensures
        row_for(pid, s, r, spilling).used_delta == 0,
        row_for(pid, s, r, spilling).shared_delta == 0,
        sampled(s, r).baseline_used_bytes == r.used_bytes,
        sampled(s, r).baseline_shared_bytes == r.shared_bytes,
        sampled(s, r).peak_used_bytes == r.used_bytes,
        sampled(s, r).peak_shared_bytes == r.shared_bytes,
{
}

/// A sample without a name that identifies a process never counts as a reused ID: the
/// baseline and the name stay.
pub proof fn law_unresolved_name_keeps_baseline(s: WatchedPidState, r: WatchReading)
    requires
        !resolved(r.name),
    ensures
        !reused(s, r),
        sampled(s, r).last_name == s.last_name,
        sampled(s, r).baseline_used_bytes == s.baseline_used_bytes,
        sampled(s, r).baseline_shared_bytes == s.baseline_shared_bytes,
{
}

/// The user is told of the growth of a process at most once while its ID is not reused.
pub proof fn law_hint_fires_once(s: WatchedPidState, r: WatchReading)
    requires
        s.growth_hint_fired,
        !reused(s, r),
    ensures
        !hints(base(s, r), r),
        sampled(s, r).growth_hint_fired,
{
}

/// The states of a process over several readings.
pub open spec fn state_over(s: WatchedPidState, readings: Seq<WatchReading>) -> WatchedPidState
    decreases readings.len(),
{
    if readings.len() == 0 {
        s
    } else {
        sampled(state_over(s, readings.drop_last()), readings.last())
    }
}

/// The sums of the changes shown over several readings, of GPU and of shared memory.
pub open spec fn shown_changes(s: WatchedPidState, readings: Seq<WatchReading>) -> (int, int)
    decreases readings.len(),
{
    if readings.len() == 0 {
        (0, 0)
    } else {
        let init = shown_changes(s, readings.drop_last());
        let row = row_for(0, state_over(s, readings.drop_last()), readings.last(), false);
        (init.0 + row.used_delta, init.1 + row.shared_delta)
    }
}

/// Whether none of the readings shows a reused ID.
pub open spec fn never_reused(s: WatchedPidState, readings: Seq<WatchReading>) -> bool
    decreases readings.len(),
{
    readings.len() > 0 ==> never_reused(s, readings.drop_last()) && !reused(
        state_over(s, readings.drop_last()),
        readings.last(),
    )
}

/// While the ID is not reused, the changes shown add up to the change since the start, the
/// baseline stays, and the peak is the largest reading.
pub proof fn law_changes_add_up(s: WatchedPidState, readings: Seq<WatchReading>)
    requires
        never_reused(s, readings),
        s.prev_used_bytes <= i64::MAX,
        s.prev_shared_bytes <= i64::MAX,
        forall|i: int|
            0 <= i < readings.len() ==> (#[trigger] readings[i]).used_bytes <= i64::MAX
                && readings[i].shared_bytes <= i64::MAX,
    ensures
        ({
            let end = state_over(s, readings);
            &&& shown_changes(s, readings) == (
                end.prev_used_bytes - s.prev_used_bytes,
                end.prev_shared_bytes - s.prev_shared_bytes,
            )
            &&& readings.len() > 0 ==> end.prev_used_bytes == readings.last().used_bytes
                && end.prev_shared_bytes == readings.last().shared_bytes
            &&& end.baseline_used_bytes == s.baseline_used_bytes
            &&& end.baseline_shared_bytes == s.baseline_shared_bytes
            &&& end.peak_used_bytes >= s.peak_used_bytes
            &&& end.peak_shared_bytes >= s.peak_shared_bytes
            &&& forall|i: int|
                0 <= i < readings.len() ==> (#[trigger] readings[i]).used_bytes
                    <= end.peak_used_bytes && readings[i].shared_bytes <= end.peak_shared_bytes
            &&& end.peak_used_bytes == s.peak_used_bytes || exists|i: int|
                0 <= i < readings.len() && (#[trigger] readings[i]).used_bytes
                    == end.peak_used_bytes
            &&& end.peak_shared_bytes == s.peak_shared_bytes || exists|i: int|
                0 <= i < readings.len() && (#[trigger] readings[i]).shared_bytes
                    == end.peak_shared_bytes
        }),
    decreases readings.len(),
{
    if readings.len() > 0 {
        let init = readings.drop_last();
        assert forall|i: int| 0 <= i < init.len() implies (#[trigger] init[i]).used_bytes
            <= i64::MAX && init[i].shared_bytes <= i64::MAX by {
            assert(readings[i] == init[i]);
        }
        law_changes_add_up(s, init);
        assert(readings[readings.len() - 1] == readings.last());
        let before = state_over(s, init);
        let after = state_over(s, readings);
        if init.len() > 0 {
            assert(init[init.len() - 1] == init.last());
        }
        assert forall|i: int| 0 <= i < readings.len() implies (#[trigger] readings[i]).used_bytes
            <= after.peak_used_bytes && readings[i].shared_bytes <= after.peak_shared_bytes by {
            if i < init.len() {
                assert(init[i] == readings[i]);
            }
        }
        if after.peak_used_bytes == before.peak_used_bytes && before.peak_used_bytes
            != s.peak_used_bytes {
            let i = choose|i: int|
                0 <= i < init.len() && (#[trigger] init[i]).used_bytes == before.peak_used_bytes;
            assert(readings[i].used_bytes == after.peak_used_bytes);
        }
        if after.peak_shared_bytes == before.peak_shared_bytes && before.peak_shared_bytes
            != s.peak_shared_bytes {
            let i = choose|i: int|
                0 <= i < init.len() && (#[trigger] init[i]).shared_bytes
                    == before.peak_shared_bytes;
            assert(readings[i].shared_bytes == after.peak_shared_bytes);
        }
    }
}

} // verus!
