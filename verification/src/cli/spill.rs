//! The spill command: its report as text and JSON, and what it does around the wrapped
//! command.
use crate::cli::Printed;
use crate::error::{error_text, Result};
use crate::gpu::adapter::AdapterMemSample;
use crate::json::{
    json_bool, json_optional, json_string, push_json_bool, push_json_optional, push_json_string,
};
use crate::number::{decimal, push_decimal};
use crate::spill::{is_longest, reports, spill_nanos, total_nanos, SpillEpisode, SpillReport};
use crate::table::{byte_len, len_in_bytes, push_spaces, spaces};
use crate::text::{join, joined, opt_text, texts};
use crate::time::{
    debug_quote, debug_quoted, duration_ms, elapsed_label, elapsed_label_text, format_secs,
    millis_clamped, secs_text, Duration, MAX_NANOS,
};
use crate::tracker::{observation_of, SpillTracker};
use crate::units::{format_vram, vram_text};
use vstd::prelude::*;

verus! {

/// The exit code for a child's: passed through where it fits a byte, else 1.
pub open spec fn exit_byte(code: Option<i32>) -> u8 {
    match code {
        Some(c) => if 0 <= c <= 255 {
            c as u8
        } else {
            1
        },
        None => 1,
    }
}

/// The exit code for a child's: passed through where it fits a byte. Any other code, and
/// no code at all, becomes 1, so that a failure never looks like success.
pub fn exit_code_byte(code: Option<i32>) -> (b: u8)
    ensures
        b == exit_byte(code),
{
    match code {
        Some(c) => if 0 <= c && c <= 255 {
            c as u8
        } else {
            1
        },
        None => 1,
    }
}

/// Success is reported exactly for a child that succeeded.
pub proof fn law_success_only_for_success(code: Option<i32>)
    ensures
        exit_byte(code) == 0 <==> code == Some(0i32),
{
}

// ---------------------------------------------------------------------------
// Text
// ---------------------------------------------------------------------------

/// The longest duration of the episodes, in nanoseconds.
pub open spec fn longest_nanos(episodes: Seq<SpillEpisode>) -> nat
    decreases episodes.len(),
{
    if episodes.len() == 0 {
        0
    } else {
        let m = longest_nanos(episodes.drop_last());
        if episodes.last().duration@ > m {
            episodes.last().duration@
        } else {
            m
        }
    }
}

proof fn lemma_longest_nanos(episodes: Seq<SpillEpisode>)
    ensures
        forall|i: int|
            0 <= i < episodes.len() ==> (#[trigger] episodes[i]).duration@ <= longest_nanos(
                episodes,
            ),
        episodes.len() > 0 ==> exists|i: int|
            0 <= i < episodes.len() && (#[trigger] episodes[i]).duration@ == longest_nanos(
                episodes,
            ),
    decreases episodes.len(),
{
    if episodes.len() > 0 {
        let init = episodes.drop_last();
        lemma_longest_nanos(init);
        assert forall|i: int| 0 <= i < episodes.len() implies (#[trigger] episodes[i]).duration@
            <= longest_nanos(episodes) by {
            if i < init.len() {
                assert(init[i] == episodes[i]);
            }
        }
        if longest_nanos(episodes) == episodes.last().duration@ {
            assert(episodes[episodes.len() - 1].duration@ == longest_nanos(episodes));
        } else if init.len() > 0 {
            let i = choose|i: int|
                0 <= i < init.len() && (#[trigger] init[i]).duration@ == longest_nanos(init);
            assert(episodes[i].duration@ == longest_nanos(episodes));
        }
    }
}

/// The capacity note.
pub open spec fn limit_note(limit: u64) -> Seq<char> {
    if limit > 0 {
        " / "@ + vram_text(limit as nat)
    } else {
        seq![]
    }
}

/// The line on dedicated memory.
pub open spec fn dedicated_line(prefix: Seq<char>, r: SpillReport) -> Seq<char> {
    prefix + ": peak dedicated "@ + vram_text(r.peak_dedicated_bytes as nat) + limit_note(
        r.dedicated_limit_bytes,
    ) + "\n"@
}

/// The line on shared memory.
pub open spec fn shared_line(indent: Seq<char>, r: SpillReport) -> Seq<char> {
    indent + "peak shared    "@ + vram_text(r.peak_shared_bytes as nat) + " (baseline "@
        + vram_text(r.baseline_shared_bytes as nat) + ")\n"@
}

/// The line on episodes.
pub open spec fn episodes_line(indent: Seq<char>, r: SpillReport) -> Seq<char> {
    if r.episodes@.len() > 0 {
        indent + "episodes       "@ + decimal(r.episodes@.len()) + " — total "@ + secs_text(
            total_nanos(r.episodes@),
        ) + ", longest "@ + secs_text(longest_nanos(r.episodes@)) + ", first "@
            + r.episodes@[0].start_label@ + " into run\n"@
    } else {
        indent + "episodes       0 — no spill observed\n"@
    }
}

/// The report as three lines, the later ones indented to the end of the prefix.
pub open spec fn report_text(prefix: Seq<char>, r: SpillReport) -> Seq<char> {
    let indent = spaces(byte_len(prefix) + 2);
    dedicated_line(prefix, r) + shared_line(indent, r) + episodes_line(indent, r)
}

fn indent_string(prefix: &str) -> (s: String)
    ensures
        s@ == spaces(byte_len(prefix@) + 2),
{
    let mut s = String::new();
    push_spaces(&mut s, len_in_bytes(prefix));
    push_spaces(&mut s, 2);
    assert(s@ =~= spaces(byte_len(prefix@) + 2));
    s
}

fn dedicated_line_string(prefix: &str, r: &SpillReport) -> (s: String)
    ensures
        s@ == dedicated_line(prefix@, *r),
{
    let mut s = String::from_str(prefix);
    s.append(": peak dedicated ");
    let v = format_vram(r.peak_dedicated_bytes);
    s.append(v.as_str());
    let ghost head = s@;
    if r.dedicated_limit_bytes > 0 {
        s.append(" / ");
        let v = format_vram(r.dedicated_limit_bytes);
        s.append(v.as_str());
    }
    assert(s@ =~= head + limit_note(r.dedicated_limit_bytes));
    s.append("\n");
    s
}

fn shared_line_string(indent: &str, r: &SpillReport) -> (s: String)
    ensures
        s@ == shared_line(indent@, *r),
{
    let mut s = String::from_str(indent);
    s.append("peak shared    ");
    let v = format_vram(r.peak_shared_bytes);
    s.append(v.as_str());
    s.append(" (baseline ");
    let v = format_vram(r.baseline_shared_bytes);
    s.append(v.as_str());
    s.append(")\n");
    s
}

fn episodes_line_string(indent: &str, r: &SpillReport) -> (s: String)
    requires
        total_nanos(r.episodes@) <= MAX_NANOS,
    ensures
        s@ == episodes_line(indent@, *r),
{
    let mut s = String::from_str(indent);
    if r.spilled() {
        s.append("episodes       ");
        push_decimal(&mut s, r.episodes.len() as u64);
        s.append(" — total ");
        let total = format_secs(r.total_spill_duration());
        s.append(total.as_str());
        s.append(", longest ");
        match r.longest_episode() {
            Some(e) => {
                proof {
                    lemma_longest_nanos(r.episodes@);
                    let k = choose|k: int| is_longest(r.episodes@, k) && *e == r.episodes@[k];
                    let i = choose|i: int|
                        0 <= i < r.episodes@.len() && (#[trigger] r.episodes@[i]).duration@
                            == longest_nanos(r.episodes@);
                    assert(r.episodes@[i].duration@ <= r.episodes@[k].duration@);
                    assert(r.episodes@[k].duration@ <= longest_nanos(r.episodes@));
                }
                let longest = format_secs(e.duration);
                s.append(longest.as_str());
            },
            None => {},
        }
        s.append(", first ");
        match r.first_spill_label() {
            Some(l) => s.append(l),
            None => s.append("?"),
        }
        s.append(" into run\n");
    } else {
        s.append("episodes       0 — no spill observed\n");
    }
    s
}

/// The report as text under a prefix.
pub fn format_spill_report_with_prefix(prefix: &str, report: &SpillReport) -> (s: String)
    requires
        total_nanos(report.episodes@) <= MAX_NANOS,
    ensures
        s@ == report_text(prefix@, *report),
{
    let indent = indent_string(prefix);
    let mut s = dedicated_line_string(prefix, report);
    let line = shared_line_string(indent.as_str(), report);
    s.append(line.as_str());
    let line = episodes_line_string(indent.as_str(), report);
    s.append(line.as_str());
    s
}

/// The report as text, as the spill command prints it.
pub fn format_spill_report(report: &SpillReport) -> (s: String)
    requires
        total_nanos(report.episodes@) <= MAX_NANOS,
    ensures
        s@ == report_text("hmn spill"@, *report),
{
    format_spill_report_with_prefix("hmn spill", report)
}

// ---------------------------------------------------------------------------
// JSON
// ---------------------------------------------------------------------------

/// The JSON object of an episode.
pub open spec fn episode_object(e: SpillEpisode) -> Seq<char> {
    "{\"start_label\":"@ + json_string(e.start_label@) + ",\"end_label\":"@ + json_optional(
        opt_text(e.end_label),
    ) + ",\"peak_shared_bytes\":"@ + decimal(e.peak_shared_bytes as nat) + ",\"observations\":"@
        + decimal(e.observations as nat) + ",\"duration_ms\":"@ + decimal(
        millis_clamped(e.duration@),
    ) + "}"@
}

/// The JSON array of episodes.
pub open spec fn episodes_json(episodes: Seq<SpillEpisode>) -> Seq<char> {
    "["@ + joined(episodes.map_values(|e: SpillEpisode| episode_object(e)), ","@) + "]"@
}

fn episode_object_string(e: &SpillEpisode) -> (s: String)
    ensures
        s@ == episode_object(*e),
{
    let mut s = String::from_str("{\"start_label\":");
    push_json_string(&mut s, e.start_label.as_str());
    s.append(",\"end_label\":");
    push_json_optional(&mut s, &e.end_label);
    s.append(",\"peak_shared_bytes\":");
    push_decimal(&mut s, e.peak_shared_bytes);
    s.append(",\"observations\":");
    push_decimal(&mut s, e.observations as u64);
    s.append(",\"duration_ms\":");
    push_decimal(&mut s, duration_ms(e.duration));
    s.append("}");
    s
}

/// Append the JSON array of episodes.
pub fn write_episodes_json(out: &mut String, episodes: &[SpillEpisode])
    ensures
        final(out)@ == old(out)@ + episodes_json(episodes@),
{
    let mut objects: Vec<String> = Vec::new();
    let mut i: usize = 0;
    while i < episodes.len()
        invariant
            i <= episodes@.len(),
            objects@.len() == i,
            forall|k: int|
                0 <= k < i ==> (#[trigger] objects@[k])@ == episode_object(episodes@[k]),
        decreases episodes@.len() - i,
    {
        objects.push(episode_object_string(&episodes[i]));
        i += 1;
    }
    assert(texts(objects@) =~= episodes@.map_values(|e: SpillEpisode| episode_object(e)));
    let body = join(&objects, ",");
    out.append("[");
    out.append(body.as_str());
    out.append("]");
    assert(out@ =~= old(out)@ + episodes_json(episodes@));
}

/// The JSON members of a report, without the braces.
pub open spec fn report_members(r: SpillReport) -> Seq<char> {
    "\"measurable\":"@ + json_bool(r.measurable) + ",\"spilled\":"@ + json_bool(
        r.episodes@.len() > 0,
    ) + ",\"observations\":"@ + decimal(r.observations as nat) + ",\"baseline_shared_bytes\":"@
        + decimal(r.baseline_shared_bytes as nat) + ",\"peak_shared_bytes\":"@ + decimal(
        r.peak_shared_bytes as nat,
    ) + ",\"peak_dedicated_bytes\":"@ + decimal(r.peak_dedicated_bytes as nat)
        + ",\"dedicated_limit_bytes\":"@ + decimal(r.dedicated_limit_bytes as nat)
        + ",\"total_spill_duration_ms\":"@ + decimal(millis_clamped(total_nanos(r.episodes@)))
        + ",\"episodes\":"@ + episodes_json(r.episodes@)
}

/// The JSON members of a report, without the braces.
pub fn report_members_string(r: &SpillReport) -> (s: String)
    requires
        total_nanos(r.episodes@) <= MAX_NANOS,
    ensures
        s@ == report_members(*r),
{
    let mut s = String::from_str("\"measurable\":");
    push_json_bool(&mut s, r.measurable);
    s.append(",\"spilled\":");
    push_json_bool(&mut s, r.spilled());
    s.append(",\"observations\":");
    push_decimal(&mut s, r.observations as u64);
    s.append(",\"baseline_shared_bytes\":");
    push_decimal(&mut s, r.baseline_shared_bytes);
    s.append(",\"peak_shared_bytes\":");
    push_decimal(&mut s, r.peak_shared_bytes);
    s.append(",\"peak_dedicated_bytes\":");
    push_decimal(&mut s, r.peak_dedicated_bytes);
    s.append(",\"dedicated_limit_bytes\":");
    push_decimal(&mut s, r.dedicated_limit_bytes);
    s.append(",\"total_spill_duration_ms\":");
    push_decimal(&mut s, duration_ms(r.total_spill_duration()));
    s.append(",\"episodes\":");
    write_episodes_json(&mut s, r.episodes.as_slice());
    s
}

/// The report as a JSON object.
pub open spec fn report_json(r: SpillReport) -> Seq<char> {
    "{"@ + report_members(r) + "}\n"@
}

/// The report as a JSON object.
pub fn format_spill_json(report: &SpillReport) -> (s: String)
    requires
        total_nanos(report.episodes@) <= MAX_NANOS,
    ensures
        s@ == report_json(*report),
{
    let mut s = String::from_str("{");
    let members = report_members_string(report);
    s.append(members.as_str());
    s.append("}\n");
    s
}

/// The JSON members of a report where nothing could be measured.
pub const UNMEASURABLE_MEMBERS: &'static str =
    "\"measurable\":false,\"spilled\":false,\"observations\":0,\"baseline_shared_bytes\":0,\"peak_shared_bytes\":0,\"peak_dedicated_bytes\":0,\"dedicated_limit_bytes\":0,\"total_spill_duration_ms\":0,\"episodes\":[]";

/// The JSON object printed when there is no tracker at all.
pub const SPILL_JSON_UNMEASURABLE: &'static str =
    "{\"measurable\":false,\"spilled\":false,\"observations\":0,\"baseline_shared_bytes\":0,\"peak_shared_bytes\":0,\"peak_dedicated_bytes\":0,\"dedicated_limit_bytes\":0,\"total_spill_duration_ms\":0,\"episodes\":[]}\n";

// ---------------------------------------------------------------------------
// The command
// ---------------------------------------------------------------------------

/// A run of the spill command.
pub struct SpillRun {
    /// The wrapped command: the program and its arguments.
    pub command: Vec<String>,
    /// Whether the report is printed as JSON too.
    pub json: bool,
    /// The tracker, where one could be made.
    pub tracker: Option<SpillTracker>,
}

/// What the world reports to the command.
pub enum SpillEvent {
    /// The command line was read.
    Started,
    /// The source of measurements was opened, as `SpillTracker::new` takes it.
    Opened(Result<bool>),
    /// The wrapped command runs.
    Spawned,
    /// The wrapped command could not be started.
    SpawnFailed(String),
    /// The wrapped command was polled and still runs; the adapter was sampled.
    Running { elapsed: Duration, sample: Option<AdapterMemSample>, at: Duration },
    /// The wrapped command could not be polled.
    WaitFailed(String),
    /// The wrapped command ended; the adapter was sampled once more.
    Exited {
        code: Option<i32>,
        elapsed: Duration,
        sample: Option<AdapterMemSample>,
        at: Duration,
    },
}

/// What the command does next.
#[derive(Debug, Clone, Copy, PartialEq, Eq, Structural)]
pub enum SpillAction {
    /// Open the source of measurements.
    OpenTracker,
    /// Start the wrapped command.
    Spawn,
    /// Ask whether the wrapped command still runs.
    Poll,
    /// Sleep for the interval, then poll.
    Sleep,
    /// Print the report and exit with the code.
    Report(u8),
    /// Exit with the code.
    Exit(u8),
}

/// What the command does next, and what it tells the user.
#[derive(Debug)]
pub struct SpillStep {
    /// The next action.
    pub action: SpillAction,
    /// Text for standard error.
    pub stderr: String,
}

/// The action that follows an event.
pub open spec fn spill_action(run: SpillRun, event: SpillEvent) -> SpillAction {
    match event {
        SpillEvent::Started => if run.command@.len() == 0 {
            SpillAction::Exit(1)
        } else {
            SpillAction::OpenTracker
        },
        // A tracker that cannot be made does not stop the wrapped command.
        SpillEvent::Opened(_) => SpillAction::Spawn,
        SpillEvent::Spawned => SpillAction::Poll,
        SpillEvent::SpawnFailed(_) => SpillAction::Exit(1),
        SpillEvent::Running { .. } => SpillAction::Sleep,
        SpillEvent::WaitFailed(_) => SpillAction::Exit(1),
        SpillEvent::Exited { code, .. } => SpillAction::Report(exit_byte(code)),
    }
}

/// What the user is told when the wrapped command could not be started.
pub open spec fn spawn_failure(quoted: Seq<char>, error: Seq<char>) -> Seq<char> {
    "hmn: failed to spawn "@ + quoted + ": "@ + error + "\n"@
}

/// What the user is told when the wrapped command could not be started; the program comes
/// quoted.
pub fn format_spawn_failure(quoted: &str, error: &str) -> (s: String)
    ensures
        s@ == spawn_failure(quoted@, error@),
{
    let mut s = String::from_str("hmn: failed to spawn ");
    s.append(quoted);
    s.append(": ");
    s.append(error);
    s.append("\n");
    s
}

/// What the user is told after an event.
pub open spec fn spill_notice(run: SpillRun, event: SpillEvent) -> Seq<char> {
    match event {
        SpillEvent::Started => if run.command@.len() == 0 {
            "hmn: spill requires a command to run (after `--`)\n"@
        } else {
            seq![]
        },
        SpillEvent::Opened(Err(e)) => "hmn: spill tracking unavailable ("@ + error_text(e)
            + "); running command unmeasured\n"@,
        SpillEvent::SpawnFailed(e) => spawn_failure(
            debug_quoted(
                if run.command@.len() > 0 {
                    run.command@[0]@
                } else {
                    seq![]
                },
            ),
            e@,
        ),
        SpillEvent::WaitFailed(e) => "hmn: failed to wait on wrapped command: "@ + e@ + "\n"@,
        _ => seq![],
    }
}

/// Whether `next` is the tracker after it was shown a sample under the label of the
/// elapsed time.
pub open spec fn shown(
    tracker: Option<SpillTracker>,
    elapsed: Duration,
    sample: Option<AdapterMemSample>,
    at: Duration,
    next: Option<SpillTracker>,
) -> bool {
    match (tracker, next) {
        (Some(t), Some(n)) => n.live() == t.live() && match sample {
            Some(s) if t.live() => exists|label: String|
                #![trigger observation_of(s, label, at)]
                label@ == elapsed_label_text(elapsed@) && t.state().advances_to(
                    observation_of(s, label, at),
                    n.state(),
                ),
            _ => n == t,
        },
        (None, None) => true,
        _ => false,
    }
}

/// Whether `next` is the tracker after an event.
pub open spec fn spill_tracks(
    tracker: Option<SpillTracker>,
    event: SpillEvent,
    next: Option<SpillTracker>,
) -> bool {
    match event {
        SpillEvent::Opened(Ok(live)) => next matches Some(t) && t.live() == live
            && t.state().is_fresh(),
        SpillEvent::Opened(Err(_)) => next is None,
        SpillEvent::Running { elapsed, sample, at } => shown(tracker, elapsed, sample, at, next),
        SpillEvent::Exited { elapsed, sample, at, .. } => shown(
            tracker,
            elapsed,
            sample,
            at,
            next,
        ),
        _ => next == tracker,
    }
}

/// Whether the tracker, if any, is well formed.
pub open spec fn sound(tracker: Option<SpillTracker>) -> bool {
    tracker matches Some(t) ==> t.well_formed()
}

/// Show the tracker, if any, a sample under the label of the elapsed time.
pub fn show_sample(
    tracker: &mut Option<SpillTracker>,
    elapsed: Duration,
    sample: Option<AdapterMemSample>,
    at: Duration,
)
    ensures
        shown(*old(tracker), elapsed, sample, at, *final(tracker)),
        sound(*old(tracker)) ==> sound(*final(tracker)),
{
    match tracker.take() {
        Some(mut t) => {
            let label = elapsed_label(elapsed);
            let ghost before = t;
            t.observe(label, sample, at);
            assert(sample matches Some(s) && before.live() ==> before.state().advances_to(
                observation_of(sample->0, label, at),
                t.state(),
            ));
            *tracker = Some(t);
        },
        None => {},
    }
}

/// Advance the command by one event: a tracker is made before the wrapped command starts,
/// every poll and the end take an observation, and the exit code is that of the wrapped
/// command.
pub fn run_spill(run: &mut SpillRun, event: SpillEvent) -> (step: SpillStep)
    ensures
        step.action == spill_action(*old(run), event),
        step.stderr@ == spill_notice(*old(run), event),
        final(run).command@ == old(run).command@,
        final(run).json == old(run).json,
        spill_tracks(old(run).tracker, event, final(run).tracker),
        sound(old(run).tracker) ==> sound(final(run).tracker),
{
    let mut stderr = String::new();
    let action = match event {
        SpillEvent::Started => if run.command.len() == 0 {
            stderr = String::from_str("hmn: spill requires a command to run (after `--`)\n");
            SpillAction::Exit(1)
        } else {
            SpillAction::OpenTracker
        },
        SpillEvent::Opened(source) => {
            match SpillTracker::new(source) {
                Ok(t) => {
                    run.tracker = Some(t);
                },
                Err(e) => {
                    stderr = String::from_str("hmn: spill tracking unavailable (");
                    let m = e.message();
                    stderr.append(m.as_str());
                    stderr.append("); running command unmeasured\n");
                    run.tracker = None;
                },
            }
            SpillAction::Spawn
        },
        SpillEvent::Spawned => SpillAction::Poll,
        SpillEvent::SpawnFailed(e) => {
            let program = if run.command.len() > 0 {
                debug_quote(run.command[0].as_str())
            } else {
                let none = String::new();
                debug_quote(none.as_str())
            };
            stderr = format_spawn_failure(program.as_str(), e.as_str());
            SpillAction::Exit(1)
        },
        SpillEvent::Running { elapsed, sample, at } => {
            show_sample(&mut run.tracker, elapsed, sample, at);
            SpillAction::Sleep
        },
        SpillEvent::WaitFailed(e) => {
            stderr = String::from_str("hmn: failed to wait on wrapped command: ");
            stderr.append(e.as_str());
            stderr.append("\n");
            SpillAction::Exit(1)
        },
        SpillEvent::Exited { code, elapsed, sample, at } => {
            show_sample(&mut run.tracker, elapsed, sample, at);
            SpillAction::Report(exit_code_byte(code))
        },
    };
    SpillStep { action, stderr }
}

/// The text of the report for standard output.
pub open spec fn spill_stdout(report: Option<SpillReport>, json: bool) -> Seq<char> {
    if json {
        match report {
            Some(r) => report_json(r),
            None => SPILL_JSON_UNMEASURABLE@,
        }
    } else {
        seq![]
    }
}

/// The text of the report for standard error.
pub open spec fn spill_stderr(report: Option<SpillReport>) -> Seq<char> {
    match report {
        Some(r) => if r.measurable {
            report_text("hmn spill"@, r)
        } else {
            "hmn spill: spill not measurable on this platform\n"@
        },
        None => "hmn spill: spill not measurable (no tracker)\n"@,
    }
}

/// Print the report; `None` where no tracker could be made.
pub fn print_spill(report: &Option<SpillReport>, json: bool) -> (p: Printed)
    requires
        report matches Some(r) ==> total_nanos(r.episodes@) <= MAX_NANOS,
    ensures
        p.stdout@ == spill_stdout(*report, json),
        p.stderr@ == spill_stderr(*report),
{
    let stdout = if json {
        match report {
            Some(r) => format_spill_json(r),
            None => String::from_str(SPILL_JSON_UNMEASURABLE),
        }
    } else {
        String::new()
    };
    let stderr = match report {
        Some(r) => if r.measurable {
            format_spill_report(r)
        } else {
            String::from_str("hmn spill: spill not measurable on this platform\n")
        },
        None => String::from_str("hmn spill: spill not measurable (no tracker)\n"),
    };
    Printed { stdout, stderr }
}

/// Whether `report` is that of the tracker; there is none exactly where there is no tracker.
pub open spec fn reported(tracker: Option<SpillTracker>, report: Option<SpillReport>) -> bool {
    match (tracker, report) {
        (Some(t), Some(r)) => reports(t.state(), t.live(), r),
        (None, None) => true,
        _ => false,
    }
}

/// Whether the spill time of the tracker, if any, is a span.
pub open spec fn in_span(tracker: Option<SpillTracker>) -> bool {
    tracker matches Some(t) ==> spill_nanos(t.state()) <= MAX_NANOS
}

/// The report of the tracker; `None` where the sum of its durations exceeds the longest
/// span.
pub fn report_of(tracker: Option<SpillTracker>) -> (r: Option<Option<SpillReport>>)
    ensures
        r is Some <==> in_span(tracker),
        r matches Some(report) ==> reported(tracker, report),
        r matches Some(Some(report)) ==> total_nanos(report.episodes@) <= MAX_NANOS,
{
    match tracker {
        None => Some(None),
        Some(t) => {
            let report = t.into_report();
            match report.checked_total_spill_duration() {
                Some(_) => Some(Some(report)),
                None => None,
            }
        },
    }
}

/// End a run: make the report of its tracker and print it. `None` where the sum of the
/// durations exceeds the longest span. The exit code is that of the wrapped command.
pub fn end_spill(run: SpillRun, code: u8) -> (r: Option<(Printed, u8)>)
    ensures
        r is Some <==> in_span(run.tracker),
        r matches Some((p, exit)) ==> exit == code && exists|report: Option<SpillReport>| #[trigger]
            reported(run.tracker, report) && p.stdout@ == spill_stdout(report, run.json)
                && p.stderr@ == spill_stderr(report),
{
    let json = run.json;
    match report_of(run.tracker) {
        Some(report) => Some((print_spill(&report, json), code)),
        None => None,
    }
}

/// A failure to make a tracker never ends the run: the wrapped command is started either
/// way.
pub proof fn law_unmeasured_run_goes_on(run: SpillRun, source: Result<bool>)
    ensures
        spill_action(run, SpillEvent::Opened(source)) == SpillAction::Spawn,
{
}

/// The text printed without a tracker is the report of a run in which nothing was
/// observed, so both have one shape.
pub proof fn law_unmeasurable_shape(r: SpillReport)
    requires
        !r.measurable,
        r.episodes@.len() == 0,
        r.observations == 0,
        r.baseline_shared_bytes == 0,
        r.peak_shared_bytes == 0,
        r.peak_dedicated_bytes == 0,
        r.dedicated_limit_bytes == 0,
    ensures
        report_members(r) == UNMEASURABLE_MEMBERS@,
        report_json(r) == SPILL_JSON_UNMEASURABLE@,
{
    reveal_strlit("\"measurable\":");
    reveal_strlit("false");
    reveal_strlit(",\"spilled\":");
    reveal_strlit(",\"observations\":");
    reveal_strlit(",\"baseline_shared_bytes\":");
    reveal_strlit(",\"peak_shared_bytes\":");
    reveal_strlit(",\"peak_dedicated_bytes\":");
    reveal_strlit(",\"dedicated_limit_bytes\":");
    reveal_strlit(",\"total_spill_duration_ms\":");
    reveal_strlit(",\"episodes\":");
    reveal_strlit("[");
    reveal_strlit("]");
    reveal_strlit("{");
    reveal_strlit("}\n");
    reveal_strlit(
        "\"measurable\":false,\"spilled\":false,\"observations\":0,\"baseline_shared_bytes\":0,\"peak_shared_bytes\":0,\"peak_dedicated_bytes\":0,\"dedicated_limit_bytes\":0,\"total_spill_duration_ms\":0,\"episodes\":[]",
    );
    reveal_strlit(
        "{\"measurable\":false,\"spilled\":false,\"observations\":0,\"baseline_shared_bytes\":0,\"peak_shared_bytes\":0,\"peak_dedicated_bytes\":0,\"dedicated_limit_bytes\":0,\"total_spill_duration_ms\":0,\"episodes\":[]}\n",
    );
    assert(decimal(0) =~= seq!['0']);
    assert(r.episodes@.map_values(|e: SpillEpisode| episode_object(e)) =~= seq![]);
    assert(report_members(r) =~= UNMEASURABLE_MEMBERS@);
    assert(report_json(r) =~= SPILL_JSON_UNMEASURABLE@);
}

} // verus!
