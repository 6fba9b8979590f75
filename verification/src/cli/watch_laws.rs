//! What watching comes to, said in the figures of the samples.
use crate::cli::ps::{in_display_order, law_display_keeps_rows, law_display_order, PsRow, SortKey};
use crate::cli::ps_text::row_of;
use crate::cli::watch::{
    found, law_one_row_per_watched, law_unwatched_is_untouched, met, notices_of, reading_of,
    row_for, rows_after, sampled, states_after, WatchReading, WatchState, WatchedPidState,
};
use crate::cli::watch_run::{
    as_rows, end_watch, pids_to_watch, resolve_watched_pids, watch_action, watch_exit_code,
    watch_stdout, watched_after, WatchAction, WatchEvent, WatchRun,
};
use crate::cli::watch_text::{summarize, watch_rows_json, watch_rows_text, WatchPidSummary};
use crate::error::Result;
use crate::gpu::adapter::AdapterMemSample;
use crate::snapshot::{GpuDeviceInfo, GpuProcessEntry};
use crate::time::Duration;
use vstd::prelude::*;

verus! {

// ---------------------------------------------------------------------------
// When it ends
// ---------------------------------------------------------------------------

/// A watch ends at a check that finds it interrupted, or finds the time given used up. One
/// without a time given never ends by itself. A check that does not end it leads to a sleep,
/// and one after a sleep to a sample.
pub proof fn law_watch_ends_when_asked(
    run: WatchRun,
    elapsed: Duration,
    interrupted: bool,
    slept: bool,
)
    ensures
        ({
            let next = watch_action(run, WatchEvent::Checked { elapsed, interrupted, slept });
            &&& interrupted ==> next == WatchAction::Finish
            &&& !interrupted && run.duration is None ==> next != WatchAction::Finish
            &&& !interrupted && run.duration is Some ==> (next == WatchAction::Finish <==> elapsed@
                >= (run.duration->0)@)
            &&& next != WatchAction::Finish && slept ==> next == WatchAction::Sample
            &&& next != WatchAction::Finish && !slept ==> next == WatchAction::Sleep
        }),
{
}

/// Before its first sample a watch lists the device, opens the tracker and installs the
/// handler, in this order, whether or not the latter two succeed; every sample, even a
/// failed one, leads to a check. Only a contradictory request, a device that cannot be
/// listed, and a selection of nothing that is not followed end it with code 2.
pub proof fn law_watch_goes_through_its_steps(
    run: WatchRun,
    device: Result<GpuDeviceInfo>,
    rows: Result<Vec<GpuProcessEntry>>,
    opened: Result<bool>,
    handler: Option<String>,
    elapsed: Duration,
    sample: Option<AdapterMemSample>,
    at: Duration,
)
    ensures
        watch_action(run, WatchEvent::Started) == (if run.follow_new && run.explicit@.len() > 0 {
            WatchAction::Exit(2)
        } else {
            WatchAction::List
        }),
        rows is Err ==> watch_action(run, WatchEvent::Listed { device, rows })
            == WatchAction::Exit(2),
        rows is Ok && (run.follow_new || run.explicit@.len() > 0) ==> watch_action(
            run,
            WatchEvent::Listed { device, rows },
        ) == WatchAction::OpenTracker,
        rows is Ok && !run.follow_new && run.explicit@.len() == 0 && (run.top == 0 || rows->Ok_0@.len()
            == 0) ==> watch_action(run, WatchEvent::Listed { device, rows })
            == WatchAction::Exit(2),
        rows is Ok && !run.follow_new && run.explicit@.len() == 0 && run.top > 0
            && rows->Ok_0@.len() > 0 ==> watch_action(run, WatchEvent::Listed { device, rows })
            == WatchAction::OpenTracker,
        watch_action(run, WatchEvent::Opened(opened)) == WatchAction::InstallHandler,
        watch_action(run, WatchEvent::HandlerInstalled(handler)) == WatchAction::FirstSample,
        watch_action(run, WatchEvent::FirstSample { sample, at }) == WatchAction::Check,
        watch_action(run, WatchEvent::Sampled { elapsed, rows, sample, at })
            == WatchAction::Check,
{
    if rows is Ok {
        law_display_order(as_rows(rows->Ok_0@), SortKey::Dedicated);
    }
}

/// The exit code is 1 exactly where something spilled, else 0.
pub proof fn law_watch_exit_code(spilled: bool, code: u8)
    requires
        call_ensures(watch_exit_code, (spilled,), code),
    ensures
        spilled ==> code == 1,
        !spilled ==> code == 0,
{
}

/// A watch that ends by itself or is interrupted exits with 1 exactly where its tracker saw
/// a spill, else with 0.
pub proof fn law_watch_exits_by_its_tracker(run: WatchRun, r: Option<(String, u8)>)
    requires
        run.well_formed(),
        call_ensures(end_watch, (run,), r),
        r is Some,
    ensures
        run.tracker is None ==> (r->0).1 == 0,
        run.tracker is Some && run.tracker->0.state().latched ==> (r->0).1 == 1,
        run.tracker is Some && !run.tracker->0.state().latched ==> (r->0).1 == 0,
{
}

// ---------------------------------------------------------------------------
// What it watches
// ---------------------------------------------------------------------------

proof fn lemma_row_shown(rows: Seq<PsRow>, key: SortKey, i: int) -> (k: int)
    requires
        0 <= i < rows.len(),
    ensures
        0 <= k < rows.len(),
        in_display_order(rows, key)[k] == rows[i],
{
    broadcast use vstd::seq_lib::group_to_multiset_ensures;

    law_display_keeps_rows(rows, key);
    law_display_order(rows, key);
    let d = in_display_order(rows, key);
    assert(rows.contains(rows[i]));
    assert(d.to_multiset().count(rows[i]) > 0);
    assert(d.contains(rows[i]));
    choose|k: int| 0 <= k < d.len() && d[k] == rows[i]
}

proof fn lemma_row_given(rows: Seq<PsRow>, key: SortKey, k: int) -> (i: int)
    requires
        0 <= k < rows.len(),
    ensures
        0 <= i < rows.len(),
        in_display_order(rows, key)[k] == rows[i],
{
    broadcast use vstd::seq_lib::group_to_multiset_ensures;

    law_display_keeps_rows(rows, key);
    law_display_order(rows, key);
    let d = in_display_order(rows, key);
    assert(d.contains(d[k]));
    assert(rows.to_multiset().count(d[k]) > 0);
    assert(rows.contains(d[k]));
    choose|i: int| 0 <= i < rows.len() && rows[i] == d[k]
}

/// The processes asked for are watched as given. Otherwise as many are selected as asked
/// for, or as there are; each is listed, and no process left out has an entry with more GPU
/// memory than one of each process selected.
pub proof fn law_selection(entries: &[GpuProcessEntry], explicit: &[u32], top: usize, v: Vec<u32>)
    requires
        call_ensures(resolve_watched_pids, (entries, explicit, top), v),
    ensures
        explicit@.len() > 0 ==> v@ == explicit@,
        explicit@.len() == 0 && top <= entries@.len() ==> v@.len() == top,
        explicit@.len() == 0 && top > entries@.len() ==> v@.len() == entries@.len(),
        explicit@.len() == 0 ==> forall|k: int, i: int|
            #![trigger v@[k], entries@[i]]
            0 <= k < v@.len() && 0 <= i < entries@.len() && !v@.contains(entries@[i].pid)
                ==> exists|j: int|
                0 <= j < entries@.len() && (#[trigger] entries@[j]).pid == v@[k]
                    && entries@[j].used_bytes >= entries@[i].used_bytes,
{
    let rows = as_rows(entries@);
    law_display_order(rows, SortKey::Dedicated);
    let d = in_display_order(rows, SortKey::Dedicated);
    if explicit@.len() == 0 {
        assert forall|k: int, i: int|
            #![trigger v@[k], entries@[i]]
            0 <= k < v@.len() && 0 <= i < entries@.len() && !v@.contains(
                entries@[i].pid,
            ) implies exists|j: int|
            0 <= j < entries@.len() && (#[trigger] entries@[j]).pid == v@[k]
                && entries@[j].used_bytes >= entries@[i].used_bytes by {
            assert(v@[k] == d[k].pid);
            let j = lemma_row_given(rows, SortKey::Dedicated, k);
            let p = lemma_row_shown(rows, SortKey::Dedicated, i);
            assert(rows[i] == row_of(entries@[i], 0, None));
            assert(rows[j] == row_of(entries@[j], 0, None));
            if p < v@.len() {
                assert(v@[p] == d[p].pid);
                assert(v@.contains(entries@[i].pid));
            }
            assert(crate::cli::ps::row_order(SortKey::Dedicated, d[k], d[p]) <= 0);
            assert(entries@[j].pid == v@[k]);
        }
    }
}

/// A followed selection is made anew from every sample; any other stays. What a listing
/// leads to is the selection from it.
pub proof fn law_watched_set(
    run: WatchRun,
    device: Result<GpuDeviceInfo>,
    rows: Vec<GpuProcessEntry>,
    elapsed: Duration,
    sample: Option<AdapterMemSample>,
    at: Duration,
)
    ensures
        watched_after(run, WatchEvent::Listed { device, rows: Ok(rows) }) == pids_to_watch(
            rows@,
            run.explicit@,
            run.top as nat,
        ),
        run.follow_new ==> watched_after(
            run,
            WatchEvent::Sampled { elapsed, rows: Ok(rows), sample, at },
        ) == pids_to_watch(rows@, run.explicit@, run.top as nat),
        !run.follow_new ==> watched_after(
            run,
            WatchEvent::Sampled { elapsed, rows: Ok(rows), sample, at },
        ) == run.watched@,
{
}

// ---------------------------------------------------------------------------
// What a sample shows and keeps
// ---------------------------------------------------------------------------

pub proof fn lemma_found(rows: Seq<GpuProcessEntry>, pid: u32, k: int)
    requires
        0 <= k <= rows.len(),
        forall|j: int| 0 <= j < k ==> (#[trigger] rows[j]).pid != pid,
        k < rows.len() ==> rows[k].pid == pid,
    ensures
        k < rows.len() ==> found(rows, pid) == Some(rows[k]),
        k == rows.len() ==> found(rows, pid) is None,
    decreases k,
{
    if k > 0 {
        let t = rows.drop_first();
        assert(rows[0].pid != pid);
        assert forall|j: int| 0 <= j < k - 1 implies (#[trigger] t[j]).pid != pid by {
            assert(t[j] == rows[j + 1]);
        }
        assert(k < rows.len() ==> t[k - 1] == rows[k]);
        lemma_found(t, pid, k - 1);
    }
}

pub proof fn lemma_sample_of_one(
    m: Map<u32, WatchedPidState>,
    rows: Seq<GpuProcessEntry>,
    watched: Seq<u32>,
    spilling: bool,
    i: int,
)
    requires
        watched.no_duplicates(),
        0 <= i < watched.len(),
    ensures
        rows_after(m, rows, watched, spilling).len() == watched.len(),
        rows_after(m, rows, watched, spilling)[i] == row_for(
            watched[i],
            met(m, rows, watched[i]),
            reading_of(rows, watched[i]),
            spilling,
        ),
        states_after(m, rows, watched).contains_key(watched[i]),
        states_after(m, rows, watched)[watched[i]] == sampled(
            met(m, rows, watched[i]),
            reading_of(rows, watched[i]),
        ),
    decreases watched.len(),
{
    let init = watched.drop_last();
    law_one_row_per_watched(m, rows, watched, spilling);
    law_one_row_per_watched(m, rows, init, spilling);
    assert(init.no_duplicates()) by {
        assert forall|a: int, b: int| 0 <= a < init.len() && 0 <= b < init.len() && a
            != b implies init[a] != init[b] by {
            assert(watched[a] != watched[b]);
        }
    }
    if i == watched.len() - 1 {
        assert(!init.contains(watched[i])) by {
            if init.contains(watched[i]) {
                let j = choose|j: int| 0 <= j < init.len() && init[j] == watched[i];
                assert(watched[j] == watched[i]);
            }
        }
        law_unwatched_is_untouched(m, rows, init, watched[i]);
    } else {
        lemma_sample_of_one(m, rows, init, spilling, i);
        assert(init[i] == watched[i]);
        assert(watched[i] != watched.last());
    }
}

/// What a sample lists for a watched process is what its row shows and what is kept as its
/// latest figures: the GPU memory, the shared memory and the name of its first entry.
pub proof fn law_row_shows_the_sample(
    m: Map<u32, WatchedPidState>,
    rows: Seq<GpuProcessEntry>,
    watched: Seq<u32>,
    spilling: bool,
    i: int,
    k: int,
)
    requires
        watched.no_duplicates(),
        0 <= i < watched.len(),
        0 <= k < rows.len(),
        rows[k].pid == watched[i],
        forall|j: int| 0 <= j < k ==> (#[trigger] rows[j]).pid != watched[i],
    ensures
        ({
            let row = rows_after(m, rows, watched, spilling)[i];
            let kept = states_after(m, rows, watched)[watched[i]];
            &&& row.pid == watched[i]
            &&& row.name == rows[k].name
            &&& row.used_bytes == rows[k].used_bytes
            &&& row.shared_bytes == rows[k].shared_used_bytes
            &&& row.spilling == spilling
            &&& kept.prev_used_bytes == rows[k].used_bytes
            &&& kept.prev_shared_bytes == rows[k].shared_used_bytes
            &&& kept.peak_used_bytes >= rows[k].used_bytes
            &&& kept.peak_shared_bytes >= rows[k].shared_used_bytes
        }),
{
    lemma_sample_of_one(m, rows, watched, spilling, i);
    lemma_found(rows, watched[i], k);
}

/// A watched process that a sample does not list holds nothing in it and has no name.
pub proof fn law_absent_process_holds_nothing(
    m: Map<u32, WatchedPidState>,
    rows: Seq<GpuProcessEntry>,
    watched: Seq<u32>,
    spilling: bool,
    i: int,
)
    requires
        watched.no_duplicates(),
        0 <= i < watched.len(),
        forall|j: int| 0 <= j < rows.len() ==> (#[trigger] rows[j]).pid != watched[i],
    ensures
        ({
            let row = rows_after(m, rows, watched, spilling)[i];
            row.pid == watched[i] && row.name is None && row.used_bytes == 0 && row.shared_bytes
                == 0
        }),
{
    lemma_sample_of_one(m, rows, watched, spilling, i);
    lemma_found(rows, watched[i], rows.len() as int);
}

/// Whether a name tells who a process is.
pub open spec fn tells(name: Option<String>) -> bool {
    name is Some && name->0@ != "[protected]"@ && name->0@ != "[exited]"@
}

/// Whether a process ID went over to another process: both names tell who it is, and they
/// differ.
pub open spec fn renamed(before: Option<String>, now: Option<String>) -> bool {
    tells(before) && tells(now) && before->0@ != now->0@
}

/// The change shown for a process is that since the figures kept of its latest sample. It is
/// none for a process seen for the first time, and for one that took over the ID of another.
pub proof fn law_row_shows_the_change(
    m: Map<u32, WatchedPidState>,
    rows: Seq<GpuProcessEntry>,
    watched: Seq<u32>,
    spilling: bool,
    i: int,
)
    requires
        watched.no_duplicates(),
        0 <= i < watched.len(),
    ensures
        ({
            let row = rows_after(m, rows, watched, spilling)[i];
            let before = m[watched[i]];
            let anew = !m.contains_key(watched[i]) || renamed(before.last_name, row.name);
            &&& anew ==> row.used_delta == 0 && row.shared_delta == 0
            &&& !anew && row.used_bytes <= i64::MAX && before.prev_used_bytes <= i64::MAX
                ==> row.used_delta == row.used_bytes - before.prev_used_bytes
            &&& !anew && row.shared_bytes <= i64::MAX && before.prev_shared_bytes <= i64::MAX
                ==> row.shared_delta == row.shared_bytes - before.prev_shared_bytes
        }),
{
    lemma_sample_of_one(m, rows, watched, spilling, i);
}

/// The baseline of a process is its first reading, or its first under a new owner of the ID;
/// otherwise it stays. Its peaks are the largest readings since then. Its name is the latest
/// that tells who it is.
pub proof fn law_kept_of_a_process(
    m: Map<u32, WatchedPidState>,
    rows: Seq<GpuProcessEntry>,
    watched: Seq<u32>,
    i: int,
)
    requires
        watched.no_duplicates(),
        0 <= i < watched.len(),
    ensures
        ({
            let row = rows_after(m, rows, watched, false)[i];
            let before = m[watched[i]];
            let after = states_after(m, rows, watched)[watched[i]];
            let anew = !m.contains_key(watched[i]) || renamed(before.last_name, row.name);
            &&& anew ==> after.baseline_used_bytes == row.used_bytes && after.baseline_shared_bytes
                == row.shared_bytes && after.peak_used_bytes == row.used_bytes
                && after.peak_shared_bytes == row.shared_bytes
            &&& !anew ==> after.baseline_used_bytes == before.baseline_used_bytes
                && after.baseline_shared_bytes == before.baseline_shared_bytes
            &&& !anew && row.used_bytes > before.peak_used_bytes ==> after.peak_used_bytes
                == row.used_bytes
            &&& !anew && row.used_bytes <= before.peak_used_bytes ==> after.peak_used_bytes
                == before.peak_used_bytes
            &&& !anew && row.shared_bytes > before.peak_shared_bytes ==> after.peak_shared_bytes
                == row.shared_bytes
            &&& !anew && row.shared_bytes <= before.peak_shared_bytes ==> after.peak_shared_bytes
                == before.peak_shared_bytes
            &&& tells(row.name) ==> after.last_name == row.name
            &&& !tells(row.name) && m.contains_key(watched[i]) ==> after.last_name
                == before.last_name
            &&& !tells(row.name) && !m.contains_key(watched[i]) ==> after.last_name is None
        }),
{
    lemma_sample_of_one(m, rows, watched, false, i);
}

/// The user is told of the growth of a process, where it has no name or one that is
/// withheld, once either of its figures is 256 MiB above the baseline; and not again.
pub proof fn law_growth_hint(pid: u32, s: WatchedPidState, r: WatchReading)
    requires
        !renamed(s.last_name, r.name),
    ensures
        ({
            let nameless = r.name is None || r.name->0@ == "[protected]"@;
            let grown = r.used_bytes >= s.baseline_used_bytes + 256 * 1024 * 1024 || r.shared_bytes
                >= s.baseline_shared_bytes + 256 * 1024 * 1024;
            &&& sampled(s, r).growth_hint_fired <==> s.growth_hint_fired || (nameless && grown)
            &&& notices_of(pid, s, r).len() == (if !s.growth_hint_fired && nameless && grown {
                1nat
            } else {
                0nat
            })
        }),
{
}

/// The user is told, once, when the ID of a process goes over to another, and then the
/// hint on growth may come again.
pub proof fn law_reuse_is_told(pid: u32, s: WatchedPidState, r: WatchReading)
    requires
        renamed(s.last_name, r.name),
    ensures
        notices_of(pid, s, r).len() == 1,
        !sampled(s, r).growth_hint_fired,
        sampled(s, r).last_name == r.name,
{
}

// ---------------------------------------------------------------------------
// What it prints
// ---------------------------------------------------------------------------

/// A sample is printed as text, or as JSON where that was asked for: the rows of the sample
/// under its time. A failed sample prints nothing there.
pub proof fn law_sample_is_printed(
    run: WatchRun,
    elapsed: Duration,
    rows: Vec<GpuProcessEntry>,
    sample: Option<AdapterMemSample>,
    at: Duration,
    spilling: bool,
)
    ensures
        ({
            let event = WatchEvent::Sampled { elapsed, rows: Ok(rows), sample, at };
            let shown = rows_after(run.state.by_pid@, rows@, watched_after(run, event), spilling);
            &&& run.json ==> watch_stdout(run, event, spilling) == watch_rows_json(elapsed@, shown)
            &&& !run.json ==> watch_stdout(run, event, spilling) == watch_rows_text(
                elapsed@,
                shown,
            )
        }),
        ({
            let shown = rows_after(run.state.by_pid@, run.first_rows@, run.watched@, spilling);
            let event = WatchEvent::FirstSample { sample, at };
            &&& run.json ==> watch_stdout(run, event, spilling) == watch_rows_json(0, shown)
            &&& !run.json ==> watch_stdout(run, event, spilling) == watch_rows_text(0, shown)
        }),
{
}

/// The closing summary has every process ever watched, in the order first seen, each with
/// its own baselines, peaks and name.
pub proof fn law_summary_has_every_process(state: WatchState, v: Vec<WatchPidSummary>, i: int)
    requires
        state.well_formed(),
        call_ensures(summarize, (&state,), v),
        0 <= i < state.seen_order@.len(),
    ensures
        v@.len() == state.seen_order@.len(),
        v@[i].pid == state.seen_order@[i],
        v@[i].name == state.by_pid@[state.seen_order@[i]].last_name,
        v@[i].baseline_used_bytes == state.by_pid@[state.seen_order@[i]].baseline_used_bytes,
        v@[i].peak_used_bytes == state.by_pid@[state.seen_order@[i]].peak_used_bytes,
        v@[i].baseline_shared_bytes == state.by_pid@[state.seen_order@[i]].baseline_shared_bytes,
        v@[i].peak_shared_bytes == state.by_pid@[state.seen_order@[i]].peak_shared_bytes,
{
    let x = v@[i];
}

} // verus!
