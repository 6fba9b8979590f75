//! What the user is told beside the figures, and what is kept from event to event.
use crate::cli::output_laws::{holds, lemma_holds, lemma_holds_more, lemma_joined_holds};
use crate::cli::spill::{spill_notice, SpillEvent, SpillRun};
use crate::cli::watch::{
    base, growth, hints, law_seen_order, law_unwatched_is_untouched, met, notices_after,
    notices_of, reading_of, reused, WatchedPidState,
};
use crate::cli::watch_laws::{lemma_found, lemma_sample_of_one, renamed};
use crate::cli::watch_run::{
    change_clauses, followed_set_change, missing_from, mode_clause, name_in_sample, name_kept,
    notice_lines, pid_with_name, seen_next, states_next, watch_banner, watch_stderr,
    watched_after, WatchEvent, WatchRun,
};
use crate::error::{error_text, HypomnesisError, Result};
use crate::gpu::adapter::AdapterMemSample;
use crate::number::decimal;
use crate::snapshot::{GpuDeviceInfo, GpuProcessEntry};
use crate::text::opt_text;
use crate::time::{debug_quoted, elapsed_label_text, secs_text, Duration};
use crate::units::vram_text;
use vstd::prelude::*;

verus! {

// ---------------------------------------------------------------------------
// Notices of a sample
// ---------------------------------------------------------------------------

proof fn lemma_notice_line(notices: Seq<Seq<char>>, k: int)
    requires
        0 <= k < notices.len(),
    ensures
        holds(notice_lines(notices), notices[k] + "\n"@),
    decreases notices.len(),
{
    let t = notice_lines(notices);
    let init = notice_lines(notices.drop_last());
    let last = notices.last() + "\n"@;
    if k == notices.len() - 1 {
        assert(t =~= init + last + seq![]);
        lemma_holds(t, init, last, seq![]);
    } else {
        lemma_notice_line(notices.drop_last(), k);
        assert(t =~= seq![] + init + last);
        lemma_holds(t, seq![], init, last);
        lemma_holds_more(t, init, notices[k] + "\n"@);
    }
}

proof fn lemma_notice_given(
    m: Map<u32, WatchedPidState>,
    rows: Seq<GpuProcessEntry>,
    watched: Seq<u32>,
    i: int,
    j: int,
) -> (k: int)
    requires
        watched.no_duplicates(),
        0 <= i < watched.len(),
        0 <= j < notices_of(watched[i], met(m, rows, watched[i]), reading_of(rows, watched[i])).len(),
    ensures
        0 <= k < notices_after(m, rows, watched).len(),
        notices_after(m, rows, watched)[k] == notices_of(
            watched[i],
            met(m, rows, watched[i]),
            reading_of(rows, watched[i]),
        )[j],
    decreases watched.len(),
{
    let init = watched.drop_last();
    let earlier = notices_after(m, rows, init);
    assert(init.no_duplicates()) by {
        assert forall|a: int, b: int| 0 <= a < init.len() && 0 <= b < init.len() && a
            != b implies init[a] != init[b] by {
            assert(watched[a] != watched[b]);
        }
    }
    if i == watched.len() - 1 {
        assert(!init.contains(watched[i])) by {
            if init.contains(watched[i]) {
                let a = choose|a: int| 0 <= a < init.len() && init[a] == watched[i];
                assert(watched[a] == watched[i]);
            }
        }
        law_unwatched_is_untouched(m, rows, init, watched[i]);
        earlier.len() + j
    } else {
        assert(init[i] == watched[i]);
        let k = lemma_notice_given(m, rows, init, i, j);
        assert(notices_after(m, rows, watched)[k] == earlier[k]);
        k
    }
}

proof fn lemma_notices_are_printed(
    run: WatchRun,
    elapsed: Duration,
    rows: Vec<GpuProcessEntry>,
    sample: Option<AdapterMemSample>,
    at: Duration,
)
    ensures
        ({
            let event = WatchEvent::Sampled { elapsed, rows: Ok(rows), sample, at };
            holds(
                watch_stderr(run, event),
                notice_lines(notices_after(run.state.by_pid@, rows@, watched_after(run, event))),
            )
        }),
        holds(
            watch_stderr(run, WatchEvent::FirstSample { sample, at }),
            notice_lines(notices_after(run.state.by_pid@, run.first_rows@, run.watched@)),
        ),
{
    let event = WatchEvent::Sampled { elapsed, rows: Ok(rows), sample, at };
    let told = watch_stderr(run, event);
    let lines = notice_lines(notices_after(run.state.by_pid@, rows@, watched_after(run, event)));
    let front = told.take(told.len() - lines.len());
    assert(told =~= front + lines + seq![]);
    lemma_holds(told, front, lines, seq![]);
    let first = notice_lines(notices_after(run.state.by_pid@, run.first_rows@, run.watched@));
    assert(first =~= seq![] + first + seq![]);
    lemma_holds(first, seq![], first, seq![]);
}

/// The user is told of the growth of a process without a name, or with one that is
/// withheld: which process, and by how much the figure that grew most stands above the
/// baseline.
#[verifier::rlimit(60)]
#[verifier::spinoff_prover]
pub proof fn law_growth_is_told(
    run: WatchRun,
    elapsed: Duration,
    rows: Vec<GpuProcessEntry>,
    sample: Option<AdapterMemSample>,
    at: Duration,
    i: int,
    k: int,
    grown: int,
)
    requires
        ({
            let event = WatchEvent::Sampled { elapsed, rows: Ok(rows), sample, at };
            let watched = watched_after(run, event);
            let m = run.state.by_pid@;
            &&& watched.no_duplicates()
            &&& 0 <= i < watched.len()
            &&& 0 <= k < rows@.len()
            &&& rows@[k].pid == watched[i]
            &&& forall|j: int| 0 <= j < k ==> (#[trigger] rows@[j]).pid != watched[i]
            &&& m.contains_key(watched[i])
            &&& !m[watched[i]].growth_hint_fired
            &&& rows@[k].name is None || rows@[k].name->0@ == "[protected]"@
            &&& grown >= 256 * 1024 * 1024
            &&& grown >= rows@[k].used_bytes - m[watched[i]].baseline_used_bytes
            &&& grown >= rows@[k].shared_used_bytes - m[watched[i]].baseline_shared_bytes
            &&& grown == rows@[k].used_bytes - m[watched[i]].baseline_used_bytes || grown
                == rows@[k].shared_used_bytes - m[watched[i]].baseline_shared_bytes
        }),
    ensures
        holds(
            watch_stderr(run, WatchEvent::Sampled { elapsed, rows: Ok(rows), sample, at }),
            "hmn watch: unresolved pid="@ + decimal(rows@[k].pid as nat) + " grew +"@ + vram_text(
                grown as nat,
            ) + " since attach"@,
        ),
{
    let event = WatchEvent::Sampled { elapsed, rows: Ok(rows), sample, at };
    let watched = watched_after(run, event);
    let m = run.state.by_pid@;
    let pid = watched[i];
    let told = watch_stderr(run, event);
    lemma_found(rows@, pid, k);
    let s = met(m, rows@, pid);
    let r = reading_of(rows@, pid);
    assert(!reused(s, r));
    assert(growth(base(s, r), r) == grown);
    assert(hints(base(s, r), r));
    let given = notices_of(pid, s, r);
    assert(given.len() == 1);
    let n = lemma_notice_given(m, rows@, watched, i, 0);
    let all = notices_after(m, rows@, watched);
    lemma_notice_line(all, n);
    lemma_notices_are_printed(run, elapsed, rows, sample, at);
    lemma_holds_more(told, notice_lines(all), all[n] + "\n"@);
    let part = "hmn watch: unresolved pid="@ + decimal(pid as nat) + " grew +"@ + vram_text(
        grown as nat,
    ) + " since attach"@;
    reveal_strlit(" since attach — re-run elevated to identify");
    reveal_strlit(" since attach");
    reveal_strlit(" — re-run elevated to identify");
    assert(" since attach — re-run elevated to identify"@ =~= " since attach"@
        + " — re-run elevated to identify"@);
    let line = all[n] + "\n"@;
    let rest = " — re-run elevated to identify"@ + "\n"@;
    assert(line =~= seq![] + part + rest);
    lemma_holds(line, seq![], part, rest);
    lemma_holds_more(told, line, part);
}

/// The user is told when the ID of a process goes over to another: the name before, and the
/// name now.
#[verifier::rlimit(60)]
#[verifier::spinoff_prover]
pub proof fn law_new_owner_is_told(
    run: WatchRun,
    elapsed: Duration,
    rows: Vec<GpuProcessEntry>,
    sample: Option<AdapterMemSample>,
    at: Duration,
    i: int,
    k: int,
)
    requires
        ({
            let event = WatchEvent::Sampled { elapsed, rows: Ok(rows), sample, at };
            let watched = watched_after(run, event);
            let m = run.state.by_pid@;
            &&& watched.no_duplicates()
            &&& 0 <= i < watched.len()
            &&& 0 <= k < rows@.len()
            &&& rows@[k].pid == watched[i]
            &&& forall|j: int| 0 <= j < k ==> (#[trigger] rows@[j]).pid != watched[i]
            &&& m.contains_key(watched[i])
            &&& renamed(m[watched[i]].last_name, rows@[k].name)
        }),
    ensures
        holds(
            watch_stderr(run, WatchEvent::Sampled { elapsed, rows: Ok(rows), sample, at }),
            "hmn watch: pid="@ + decimal(rows@[k].pid as nat) + " name changed ("@
                + run.state.by_pid@[rows@[k].pid].last_name->0@ + " → "@ + rows@[k].name->0@ + ")"@,
        ),
{
    let event = WatchEvent::Sampled { elapsed, rows: Ok(rows), sample, at };
    let watched = watched_after(run, event);
    let m = run.state.by_pid@;
    let pid = watched[i];
    let told = watch_stderr(run, event);
    lemma_found(rows@, pid, k);
    let s = met(m, rows@, pid);
    let r = reading_of(rows@, pid);
    assert(reused(s, r));
    let given = notices_of(pid, s, r);
    assert(given.len() >= 1);
    let n = lemma_notice_given(m, rows@, watched, i, 0);
    let all = notices_after(m, rows@, watched);
    lemma_notice_line(all, n);
    lemma_notices_are_printed(run, elapsed, rows, sample, at);
    lemma_holds_more(told, notice_lines(all), all[n] + "\n"@);
    let part = "hmn watch: pid="@ + decimal(pid as nat) + " name changed ("@ + s.last_name->0@
        + " → "@ + r.name->0@ + ")"@;
    reveal_strlit(") — likely PID reuse by the OS; baseline reset");
    reveal_strlit(")");
    reveal_strlit(" — likely PID reuse by the OS; baseline reset");
    assert(") — likely PID reuse by the OS; baseline reset"@ =~= ")"@
        + " — likely PID reuse by the OS; baseline reset"@);
    let line = all[n] + "\n"@;
    let rest = " — likely PID reuse by the OS; baseline reset"@ + "\n"@;
    assert(line =~= seq![] + part + rest);
    lemma_holds(line, seq![], part, rest);
    lemma_holds_more(told, line, part);
}

proof fn lemma_quiet(m: Map<u32, WatchedPidState>, rows: Seq<GpuProcessEntry>, watched: Seq<u32>)
    requires
        watched.no_duplicates(),
        forall|i: int|
            0 <= i < watched.len() ==> notices_of(
                #[trigger] watched[i],
                met(m, rows, watched[i]),
                reading_of(rows, watched[i]),
            ).len() == 0,
    ensures
        notices_after(m, rows, watched) == Seq::<Seq<char>>::empty(),
    decreases watched.len(),
{
    if watched.len() > 0 {
        let init = watched.drop_last();
        assert forall|a: int, b: int| 0 <= a < init.len() && 0 <= b < init.len() && a
            != b implies init[a] != init[b] by {
            assert(watched[a] != watched[b]);
        }
        assert forall|i: int| 0 <= i < init.len() implies notices_of(
            #[trigger] init[i],
            met(m, rows, init[i]),
            reading_of(rows, init[i]),
        ).len() == 0 by {
            assert(init[i] == watched[i]);
        }
        lemma_quiet(m, rows, init);
        let pid = watched[watched.len() - 1];
        assert(!init.contains(pid)) by {
            if init.contains(pid) {
                let a = choose|a: int| 0 <= a < init.len() && init[a] == pid;
                assert(watched[a] == watched[watched.len() - 1]);
            }
        }
        law_unwatched_is_untouched(m, rows, init, pid);
        assert(notices_after(m, rows, watched) =~= Seq::<Seq<char>>::empty());
    }
}

/// A sample of processes seen for the first time tells nothing.
pub proof fn law_first_sample_is_quiet(
    run: WatchRun,
    sample: Option<AdapterMemSample>,
    at: Duration,
)
    requires
        run.watched@.no_duplicates(),
        forall|i: int|
            0 <= i < run.watched@.len() ==> !run.state.by_pid@.contains_key(
                #[trigger] run.watched@[i],
            ),
    ensures
        watch_stderr(run, WatchEvent::FirstSample { sample, at }) == Seq::<char>::empty(),
{
    let m = run.state.by_pid@;
    let rows = run.first_rows@;
    assert forall|i: int| 0 <= i < run.watched@.len() implies notices_of(
        #[trigger] run.watched@[i],
        met(m, rows, run.watched@[i]),
        reading_of(rows, run.watched@[i]),
    ).len() == 0 by {
        assert(!m.contains_key(run.watched@[i]));
    }
    lemma_quiet(m, rows, run.watched@);
}

/// A sample that failed is told with its time and its error.
pub proof fn law_failed_sample_is_told(
    run: WatchRun,
    elapsed: Duration,
    e: HypomnesisError,
    sample: Option<AdapterMemSample>,
    at: Duration,
)
    ensures
        holds(
            watch_stderr(run, WatchEvent::Sampled { elapsed, rows: Err(e), sample, at }),
            "sample failed at "@ + elapsed_label_text(elapsed@) + " ("@ + error_text(e) + ")"@,
        ),
{
    let told = watch_stderr(run, WatchEvent::Sampled { elapsed, rows: Err(e), sample, at });
    let part = "sample failed at "@ + elapsed_label_text(elapsed@) + " ("@ + error_text(e) + ")"@;
    reveal_strlit("hmn watch: sample failed at ");
    reveal_strlit("sample failed at ");
    reveal_strlit("hmn watch: ");
    assert("hmn watch: sample failed at "@ =~= "hmn watch: "@ + "sample failed at "@);
    reveal_strlit("); skipping interval\n");
    reveal_strlit(")");
    reveal_strlit("; skipping interval\n");
    assert("); skipping interval\n"@ =~= ")"@ + "; skipping interval\n"@);
    assert(told =~= "hmn watch: "@ + part + "; skipping interval\n"@);
    lemma_holds(told, "hmn watch: "@, part, "; skipping interval\n"@);
}

// ---------------------------------------------------------------------------
// The start of a watch
// ---------------------------------------------------------------------------

/// A listing that failed is told with its device and its error; a missing tracker with its
/// error; a missing handler with its error, before the banner.
pub proof fn law_start_failures_are_told(
    run: WatchRun,
    device: Result<GpuDeviceInfo>,
    e: HypomnesisError,
    text: String,
)
    ensures
        watch_stderr(run, WatchEvent::Listed { device, rows: Err(e) })
            == "hmn: watch failed to query device "@ + decimal(run.device as nat) + ": "@
            + error_text(e) + "\n"@,
        watch_stderr(run, WatchEvent::Opened(Err(e))) == "hmn: watch spill tracking unavailable ("@
            + error_text(e) + "); showing per-PID VRAM only\n"@,
        watch_stderr(run, WatchEvent::HandlerInstalled(None)) == watch_banner(run),
        watch_stderr(run, WatchEvent::HandlerInstalled(Some(text)))
            == "hmn: watch failed to install Ctrl+C handler ("@ + text@
            + "); interrupting will skip the closing summary\n"@ + watch_banner(run),
        watch_stderr(run, WatchEvent::Opened(Ok(true))) == Seq::<char>::empty(),
        run.follow_new && run.explicit@.len() > 0 ==> watch_stderr(run, WatchEvent::Started).len()
            > 0,
        !(run.follow_new && run.explicit@.len() > 0) ==> watch_stderr(run, WatchEvent::Started)
            == Seq::<char>::empty(),
{
    reveal_strlit(
        "hmn: watch --follow-new only applies to auto-selection; drop --follow-new or the explicit PID list\n",
    );
}

/// A listing without a process to watch is told with its device and how many were to be
/// selected; one with processes is not.
#[verifier::rlimit(60)]
#[verifier::spinoff_prover]
pub proof fn law_empty_listing_is_told(
    run: WatchRun,
    device: Result<GpuDeviceInfo>,
    rows: Vec<GpuProcessEntry>,
)
    ensures
        ({
            let event = WatchEvent::Listed { device, rows: Ok(rows) };
            let told = watch_stderr(run, event);
            &&& watched_after(run, event).len() > 0 ==> told == Seq::<char>::empty()
            &&& watched_after(run, event).len() == 0 ==> holds(
                told,
                "hmn: watch found no GPU processes on device "@ + decimal(run.device as nat),
            ) && holds(told, " (top "@ + decimal(run.top as nat))
        }),
{
    let event = WatchEvent::Listed { device, rows: Ok(rows) };
    let told = watch_stderr(run, event);
    if watched_after(run, event).len() == 0 {
        let head = "hmn: watch found no GPU processes on device "@ + decimal(run.device as nat);
        let top = " (top "@ + decimal(run.top as nat);
        reveal_strlit(" (top ");
        if run.follow_new {
            reveal_strlit(" yet (top ");
            reveal_strlit(" yet");
            assert(" yet (top "@ =~= " yet"@ + " (top "@);
            let tail = " by committed); waiting for work to appear\n"@;
            assert(told =~= seq![] + head + (" yet"@ + top + tail));
            lemma_holds(told, seq![], head, " yet"@ + top + tail);
            assert(told =~= (head + " yet"@) + top + tail);
            lemma_holds(told, head + " yet"@, top, tail);
        } else {
            reveal_strlit(" to auto-select (top ");
            reveal_strlit(" to auto-select");
            assert(" to auto-select (top "@ =~= " to auto-select"@ + " (top "@);
            let tail = "); re-run with an explicit PID once a workload is running\n"@;
            assert(told =~= seq![] + head + (" to auto-select"@ + top + tail));
            lemma_holds(told, seq![], head, " to auto-select"@ + top + tail);
            assert(told =~= (head + " to auto-select"@) + top + tail);
            lemma_holds(told, head + " to auto-select"@, top, tail);
        }
    }
}

/// The banner says the device, the interval, and how many processes are watched; of a
/// selection also how many were to be selected.
#[verifier::rlimit(60)]
#[verifier::spinoff_prover]
pub proof fn law_banner(run: WatchRun)
    ensures
        holds(watch_banner(run), "hmn watch: device "@ + decimal(run.device as nat)),
        holds(watch_banner(run), ", interval "@ + secs_text(run.interval@) + ", "@),
        run.device_name is Some ==> holds(watch_banner(run), " ["@ + run.device_name->0@ + "]"@),
        holds(watch_banner(run), decimal(run.watched@.len())),
        run.follow_new ==> holds(
            watch_banner(run),
            "following top "@ + decimal(run.top as nat),
        ),
        !run.follow_new ==> holds(
            watch_banner(run),
            "watching "@ + decimal(run.watched@.len()) + " PID(s)"@,
        ),
        !run.follow_new && run.explicit@.len() == 0 ==> holds(
            watch_banner(run),
            " (top "@ + decimal(run.top as nat),
        ),
{
    let t = watch_banner(run);
    let device = "hmn watch: device "@ + decimal(run.device as nat);
    let name = crate::snapshot::bracketed(opt_text(run.device_name));
    let interval = ", interval "@ + secs_text(run.interval@) + ", "@;
    let mode = mode_clause(run);
    let front = device + name + interval;
    assert(t =~= front + mode + "\n"@);
    assert(holds(t, device)) by {
        assert(t =~= seq![] + device + (name + interval + mode + "\n"@));
        lemma_holds(t, seq![], device, name + interval + mode + "\n"@);
    }
    assert(holds(t, interval)) by {
        assert(t =~= (device + name) + interval + (mode + "\n"@));
        lemma_holds(t, device + name, interval, mode + "\n"@);
    }
    assert(holds(t, name)) by {
        assert(t =~= device + name + (interval + mode + "\n"@));
        lemma_holds(t, device, name, interval + mode + "\n"@);
    }
    lemma_holds(t, front, mode, "\n"@);
    let count = decimal(run.watched@.len());
    let top = decimal(run.top as nat);
    if run.follow_new {
        let middle = " by committed (re-selected every interval), "@;
        let part = "following top "@ + top;
        assert(mode =~= seq![] + part + (middle + count + " initially"@));
        lemma_holds(mode, seq![], part, middle + count + " initially"@);
        lemma_holds_more(t, mode, part);
        assert(mode =~= (part + middle) + count + " initially"@);
        lemma_holds(mode, part + middle, count, " initially"@);
        lemma_holds_more(t, mode, count);
    } else {
        let part = "watching "@ + count + " PID(s)"@;
        if run.explicit@.len() == 0 {
            reveal_strlit(" PID(s) (top ");
            reveal_strlit(" PID(s)");
            reveal_strlit(" (top ");
            assert(" PID(s) (top "@ =~= " PID(s)"@ + " (top "@);
            let tail = " by committed)"@;
            assert(mode =~= seq![] + part + (" (top "@ + top + tail));
            lemma_holds(mode, seq![], part, " (top "@ + top + tail);
            assert(mode =~= part + (" (top "@ + top) + tail);
            lemma_holds(mode, part, " (top "@ + top, tail);
            lemma_holds_more(t, mode, " (top "@ + top);
        } else {
            assert(mode =~= seq![] + part + seq![]);
            lemma_holds(mode, seq![], part, seq![]);
        }
        lemma_holds_more(t, mode, part);
        assert(part =~= "watching "@ + count + " PID(s)"@);
        lemma_holds(part, "watching "@, count, " PID(s)"@);
        lemma_holds_more(t, part, count);
    }
}

// ---------------------------------------------------------------------------
// Changes of the followed set
// ---------------------------------------------------------------------------

proof fn lemma_missing_at(a: Seq<u32>, b: Seq<u32>, p: u32) -> (k: int)
    requires
        a.contains(p),
        !b.contains(p),
    ensures
        0 <= k < missing_from(a, b).len(),
        missing_from(a, b)[k] == p,
    decreases a.len(),
{
    let i = choose|i: int| 0 <= i < a.len() && a[i] == p;
    if i == a.len() - 1 {
        missing_from(a, b).len() - 1
    } else {
        assert(a.drop_last()[i] == p);
        assert(a.drop_last().contains(p));
        lemma_missing_at(a.drop_last(), b, p)
    }
}

/// A process that entered the followed set is told behind `entered`, with the name that the
/// sample has for it.
pub proof fn law_entered_is_told(
    prev: Seq<u32>,
    next: Seq<u32>,
    rows: Seq<GpuProcessEntry>,
    m: Map<u32, WatchedPidState>,
    nanos: nat,
    k: int,
) -> (clause: Seq<char>)
    requires
        0 <= k < rows.len(),
        next.contains(rows[k].pid),
        !prev.contains(rows[k].pid),
        forall|j: int| 0 <= j < k ==> (#[trigger] rows[j]).pid != rows[k].pid,
    ensures
        followed_set_change(prev, next, rows, m, nanos) is Some,
        holds(followed_set_change(prev, next, rows, m, nanos)->0, clause),
        holds(
            followed_set_change(prev, next, rows, m, nanos)->0,
            "hmn watch: "@ + elapsed_label_text(nanos),
        ),
        clause.take("entered "@.len() as int) == "entered "@,
        rows[k].name is Some ==> holds(
            clause,
            "pid="@ + decimal(rows[k].pid as nat) + " ("@ + rows[k].name->0@ + ")"@,
        ),
        rows[k].name is None ==> holds(clause, "pid="@ + decimal(rows[k].pid as nat)),
{
    let pid = rows[k].pid;
    lemma_found(rows, pid, k);
    let n = lemma_missing_at(next, prev, pid);
    let entered = missing_from(next, prev);
    let name = |p: u32| name_in_sample(rows, p);
    let labels = entered.map_values(|p: u32| pid_with_name(p, opt_text(name(p))));
    let list = crate::text::joined(labels, ", "@);
    let clause = "entered "@ + list;
    assert(clause == "entered "@ + crate::cli::watch_run::pids_with_names(entered, name));
    lemma_joined_holds(labels, ", "@, n);
    assert(labels[n] == pid_with_name(pid, opt_text(rows[k].name)));
    assert(clause =~= "entered "@ + list + seq![]);
    lemma_holds(clause, "entered "@, list, seq![]);
    lemma_holds_more(clause, list, labels[n]);
    assert(clause.take("entered "@.len() as int) =~= "entered "@);
    let clauses = change_clauses(prev, next, rows, m);
    assert(clauses[0] == clause);
    lemma_change_holds(prev, next, rows, m, nanos, 0);
    clause
}

/// A process that left the followed set is told behind `left`, with the name kept of it.
pub proof fn law_left_is_told(
    prev: Seq<u32>,
    next: Seq<u32>,
    rows: Seq<GpuProcessEntry>,
    m: Map<u32, WatchedPidState>,
    nanos: nat,
    pid: u32,
) -> (clause: Seq<char>)
    requires
        prev.contains(pid),
        !next.contains(pid),
    ensures
        followed_set_change(prev, next, rows, m, nanos) is Some,
        holds(followed_set_change(prev, next, rows, m, nanos)->0, clause),
        clause.take("left "@.len() as int) == "left "@,
        m.contains_key(pid) && m[pid].last_name is Some ==> holds(
            clause,
            "pid="@ + decimal(pid as nat) + " ("@ + m[pid].last_name->0@ + ")"@,
        ),
        holds(clause, "pid="@ + decimal(pid as nat)),
{
    let n = lemma_missing_at(prev, next, pid);
    let left = missing_from(prev, next);
    let name = |p: u32| name_kept(m, p);
    let labels = left.map_values(|p: u32| pid_with_name(p, opt_text(name(p))));
    let list = crate::text::joined(labels, ", "@);
    let clause = "left "@ + list;
    assert(clause == "left "@ + crate::cli::watch_run::pids_with_names(left, name));
    lemma_joined_holds(labels, ", "@, n);
    let label = labels[n];
    assert(label == pid_with_name(pid, opt_text(name_kept(m, pid))));
    assert(clause =~= "left "@ + list + seq![]);
    lemma_holds(clause, "left "@, list, seq![]);
    lemma_holds_more(clause, list, label);
    let number = "pid="@ + decimal(pid as nat);
    let rest = label.skip(number.len() as int);
    assert(label =~= seq![] + number + rest);
    lemma_holds(label, seq![], number, rest);
    lemma_holds_more(clause, label, number);
    assert(clause.take("left "@.len() as int) =~= "left "@);
    let clauses = change_clauses(prev, next, rows, m);
    let at = clauses.len() - 1;
    assert(clauses[at] == clause);
    lemma_change_holds(prev, next, rows, m, nanos, at);
    clause
}

proof fn lemma_change_holds(
    prev: Seq<u32>,
    next: Seq<u32>,
    rows: Seq<GpuProcessEntry>,
    m: Map<u32, WatchedPidState>,
    nanos: nat,
    i: int,
)
    requires
        0 <= i < change_clauses(prev, next, rows, m).len(),
    ensures
        followed_set_change(prev, next, rows, m, nanos) is Some,
        holds(
            followed_set_change(prev, next, rows, m, nanos)->0,
            change_clauses(prev, next, rows, m)[i],
        ),
        holds(
            followed_set_change(prev, next, rows, m, nanos)->0,
            "hmn watch: "@ + elapsed_label_text(nanos),
        ),
{
    let clauses = change_clauses(prev, next, rows, m);
    let text = followed_set_change(prev, next, rows, m, nanos)->0;
    let time = "hmn watch: "@ + elapsed_label_text(nanos);
    let head = time + " followed set changed: "@;
    let body = crate::text::joined(clauses, "; "@);
    lemma_joined_holds(clauses, "; "@, i);
    assert(text =~= head + body + seq![]);
    lemma_holds(text, head, body, seq![]);
    lemma_holds_more(text, body, clauses[i]);
    assert(text =~= seq![] + time + (" followed set changed: "@ + body));
    lemma_holds(text, seq![], time, " followed set changed: "@ + body);
}

/// The change is told where the set is followed, and only there.
pub proof fn law_change_is_told_where_followed(
    run: WatchRun,
    elapsed: Duration,
    rows: Vec<GpuProcessEntry>,
    sample: Option<AdapterMemSample>,
    at: Duration,
)
    ensures
        ({
            let event = WatchEvent::Sampled { elapsed, rows: Ok(rows), sample, at };
            let told = watch_stderr(run, event);
            let next = watched_after(run, event);
            let change = followed_set_change(
                run.watched@,
                next,
                rows@,
                run.state.by_pid@,
                elapsed@,
            );
            let notices = notice_lines(notices_after(run.state.by_pid@, rows@, next));
            &&& run.follow_new && change is Some ==> told == change->0 + "\n"@ + notices
            &&& !run.follow_new || change is None ==> told == notices
        }),
{
    let event = WatchEvent::Sampled { elapsed, rows: Ok(rows), sample, at };
    let next = watched_after(run, event);
    let notices = notice_lines(notices_after(run.state.by_pid@, rows@, next));
    assert(Seq::<char>::empty() + notices =~= notices);
}

// ---------------------------------------------------------------------------
// What is kept
// ---------------------------------------------------------------------------

/// A sample is kept of the processes watched then: its figures are the latest ones of each,
/// and each has been seen. The first sample is that of the first listing.
pub proof fn law_sample_is_kept(
    run: WatchRun,
    elapsed: Duration,
    rows: Vec<GpuProcessEntry>,
    sample: Option<AdapterMemSample>,
    at: Duration,
    i: int,
    k: int,
)
    requires
        ({
            let watched = watched_after(
                run,
                WatchEvent::Sampled { elapsed, rows: Ok(rows), sample, at },
            );
            &&& watched.no_duplicates()
            &&& 0 <= i < watched.len()
            &&& 0 <= k < rows@.len()
            &&& rows@[k].pid == watched[i]
            &&& forall|j: int| 0 <= j < k ==> (#[trigger] rows@[j]).pid != watched[i]
            &&& run.state.seen_order@.no_duplicates()
        }),
    ensures
        ({
            let event = WatchEvent::Sampled { elapsed, rows: Ok(rows), sample, at };
            let pid = rows@[k].pid;
            &&& states_next(run, event).contains_key(pid)
            &&& states_next(run, event)[pid].prev_used_bytes == rows@[k].used_bytes
            &&& states_next(run, event)[pid].prev_shared_bytes == rows@[k].shared_used_bytes
            &&& seen_next(run, event).contains(pid)
        }),
{
    let event = WatchEvent::Sampled { elapsed, rows: Ok(rows), sample, at };
    let watched = watched_after(run, event);
    lemma_found(rows@, watched[i], k);
    lemma_sample_of_one(run.state.by_pid@, rows@, watched, false, i);
    law_seen_order(run.state.seen_order@, watched);
    assert(watched.contains(watched[i]));
}

/// The first sample is that of the first listing.
pub proof fn law_first_sample_is_kept(
    run: WatchRun,
    sample: Option<AdapterMemSample>,
    at: Duration,
    i: int,
    k: int,
)
    requires
        run.watched@.no_duplicates(),
        0 <= i < run.watched@.len(),
        0 <= k < run.first_rows@.len(),
        run.first_rows@[k].pid == run.watched@[i],
        forall|j: int| 0 <= j < k ==> (#[trigger] run.first_rows@[j]).pid != run.watched@[i],
        run.state.seen_order@.no_duplicates(),
    ensures
        ({
            let event = WatchEvent::FirstSample { sample, at };
            let pid = run.first_rows@[k].pid;
            &&& states_next(run, event).contains_key(pid)
            &&& states_next(run, event)[pid].prev_used_bytes == run.first_rows@[k].used_bytes
            &&& states_next(run, event)[pid].prev_shared_bytes
                == run.first_rows@[k].shared_used_bytes
            &&& seen_next(run, event).contains(pid)
        }),
{
    lemma_found(run.first_rows@, run.watched@[i], k);
    lemma_sample_of_one(run.state.by_pid@, run.first_rows@, run.watched@, false, i);
    law_seen_order(run.state.seen_order@, run.watched@);
    assert(run.watched@.contains(run.watched@[i]));
}

// ---------------------------------------------------------------------------
// The spill command
// ---------------------------------------------------------------------------

/// What the spill command tells on the way: a missing command, a missing tracker with its
/// error, a command that could not be started with its name and the error, a failed wait
/// with its error; and nothing while all goes well.
pub proof fn law_spill_failures_are_told(run: SpillRun, e: HypomnesisError, text: String)
    ensures
        run.command@.len() == 0 ==> spill_notice(run, SpillEvent::Started)
            == "hmn: spill requires a command to run (after `--`)\n"@,
        run.command@.len() > 0 ==> spill_notice(run, SpillEvent::Started)
            == Seq::<char>::empty(),
        spill_notice(run, SpillEvent::Opened(Err(e))) == "hmn: spill tracking unavailable ("@
            + error_text(e) + "); running command unmeasured\n"@,
        run.command@.len() > 0 ==> spill_notice(run, SpillEvent::SpawnFailed(text))
            == "hmn: failed to spawn "@ + debug_quoted(run.command@[0]@) + ": "@ + text@ + "\n"@,
        spill_notice(run, SpillEvent::WaitFailed(text))
            == "hmn: failed to wait on wrapped command: "@ + text@ + "\n"@,
        spill_notice(run, SpillEvent::Opened(Ok(true))) == Seq::<char>::empty(),
        spill_notice(run, SpillEvent::Spawned) == Seq::<char>::empty(),
{
}

} // verus!
