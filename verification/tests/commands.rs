//! The commands from start to end.
use hypomnesis::cli::ps::{ps_row_comparator, select_top_n_pids, sort_rows, PsRow, SortKey};
use hypomnesis::cli::ps_text::{collect_rows, committed_total, device_indices, run_ps, PsDevice};
use hypomnesis::cli::spill::{
    end_spill, format_spill_json, print_spill, run_spill, SpillAction, SpillEvent, SpillRun,
    SPILL_JSON_UNMEASURABLE,
};
use hypomnesis::cli::summary::{
    all_gpu_devices_unreadable, format_none_readable_message, format_summary, format_summary_json,
    run_summary,
};
use hypomnesis::cli::watch::{process_sample, WatchState, UNRESOLVED_GROWTH_HINT_BYTES};
use hypomnesis::cli::watch_run::{
    distinct_pids, end_watch, finish_watch, format_followed_set_change, run_watch, WatchAction,
    WatchEvent, WatchRun, WatchStep,
};
use hypomnesis::cli::watch_text::{format_watch_header_text, format_watch_rows_text, summarize};
use hypomnesis::gpu::adapter::AdapterMemSample;
use hypomnesis::spill::{fold, state_into_report, RawObservation, TrackerState};
use hypomnesis::{
    Duration, GpuDeviceInfo, GpuProcessEntry, HypomnesisError, Snapshot, SpillReport,
};

const GIB: u64 = 1024 * 1024 * 1024;
const MIB: u64 = 1024 * 1024;

fn secs(n: u64) -> Duration {
    Duration::from_secs(n)
}

/// A sample that spills once the baseline is small.
fn spilling() -> Option<AdapterMemSample> {
    Some(AdapterMemSample { dedicated_bytes: 16 * GIB, limit_bytes: 16 * GIB, shared_bytes: 2 * GIB })
}

/// A sample at rest.
fn resting() -> Option<AdapterMemSample> {
    Some(AdapterMemSample { dedicated_bytes: GIB, limit_bytes: 16 * GIB, shared_bytes: 100 * MIB })
}

fn entry(pid: u32, name: Option<&str>, used: u64, shared: u64) -> GpuProcessEntry {
    GpuProcessEntry::builder()
        .pid(pid)
        .name(name.map(str::to_owned))
        .used_bytes(used)
        .shared_used_bytes(shared)
        .build()
}

// --- listing ---

#[test]
fn the_listing_collects_filters_and_sorts() {
    assert_eq!(device_indices(None, Some(3)), vec![0, 1, 2]);
    assert_eq!(device_indices(Some(7), Some(3)), vec![7]);
    assert!(device_indices(None, None).is_empty());
    let devices = || {
        vec![
            PsDevice {
                index: 0,
                name: Some("A".to_owned()),
                entries: Some(vec![entry(1, Some("x"), 10, 0), entry(2, None, 30, 5)]),
            },
            PsDevice { index: 1, name: None, entries: None },
            PsDevice { index: 2, name: None, entries: Some(vec![entry(1, Some("x"), 20, 0)]) },
        ]
    };
    let rows = collect_rows(devices(), None);
    assert_eq!(rows.len(), 3);
    assert_eq!(committed_total(&rows), Some(60));
    let only = collect_rows(devices(), Some(1));
    assert_eq!(only.iter().map(|r| r.device_index).collect::<Vec<u32>>(), vec![0, 2]);
    let printed = run_ps(rows, None, Some(0), SortKey::Dedicated, false);
    assert_eq!(
        printed.stdout,
        "PID  NAME  VRAM   SHARED  DEVICE\n\
         2    ?     0 MiB  0 MiB   A     \n\
         1    x     0 MiB  0 MiB   GPU 2 \n\
         1    x     0 MiB  0 MiB   A     \n"
    );
    assert_eq!(
        printed.stderr,
        "hmn: 3 GPU processes found matching device=0 (0 MiB committed total; 1 protected — re-run elevated for names).\n"
    );
    let json = run_ps(vec![], None, None, SortKey::Total, true);
    assert_eq!(json.stdout, "[]\n");
    assert_eq!(json.stderr, "hmn: 0 GPU processes found.\n");
}

fn ps_row(pid: u32, name: Option<&str>, used: u64) -> PsRow {
    PsRow {
        pid,
        name: name.map(str::to_owned),
        used_bytes: used,
        shared_used_bytes: 0,
        device_index: 0,
        device_name: None,
    }
}

#[test]
fn sorting_agrees_with_the_comparator() {
    let rows = || {
        vec![
            ps_row(5, Some("b"), 7),
            ps_row(4, Some("b"), 7),
            ps_row(3, None, 7),
            ps_row(2, Some("a"), 9),
            ps_row(1, Some("bb"), 7),
            ps_row(4, Some("b"), 7),
        ]
    };
    for key in [SortKey::Dedicated, SortKey::Shared, SortKey::Total] {
        let mut expected = rows();
        expected.sort_by(|a, b| ps_row_comparator(key, a, b));
        let pids: Vec<u32> = expected.iter().map(|r| r.pid).collect();
        assert_eq!(sort_rows(rows(), key).iter().map(|r| r.pid).collect::<Vec<u32>>(), pids);
    }
    let dedicated: Vec<u32> =
        sort_rows(rows(), SortKey::Dedicated).iter().map(|r| r.pid).collect();
    assert_eq!(dedicated, vec![2, 3, 4, 4, 5, 1]);
    assert_eq!(select_top_n_pids(&rows(), 3), dedicated[..3].to_vec());
    let huge = vec![ps_row(1, None, u64::MAX), ps_row(2, None, 1)];
    assert_eq!(committed_total(&huge), None);
}

// --- summary ---

fn snapshot(device: Option<GpuDeviceInfo>) -> Snapshot {
    Snapshot { ram_bytes: 3 * MIB, gpu: None, gpu_device: device }
}

#[test]
fn the_summary_prints_what_can_be_read() {
    let device = GpuDeviceInfo::builder()
        .index(1)
        .name(Some("RTX \"X\"".to_owned()))
        .total_bytes(16_384 * MIB)
        .free_bytes(10_000 * MIB)
        .used_bytes(6_384 * MIB)
        .reserved_bytes(Some(MIB))
        .driver_version(Some("580.95".to_owned()))
        .build();
    let readable = vec![snapshot(Some(device))];
    assert!(!all_gpu_devices_unreadable(&readable));
    assert_eq!(
        format_summary(&readable),
        "GPU 1 [RTX \"X\"]: free 10000 MiB / 16384 MiB (1 MiB reserved), driver 580.95\n"
    );
    let json = format_summary_json(&readable);
    assert!(json.contains("\"name\":\"RTX \\\"X\\\"\""), "{json}");
    let printed = run_summary(Ok(readable), true).unwrap();
    assert_eq!((printed.stdout, printed.stderr), (json, String::new()));
    let unreadable = || vec![snapshot(None), snapshot(None)];
    assert!(all_gpu_devices_unreadable(&unreadable()));
    let notice = format!("{}\n", format_none_readable_message(2));
    let printed = run_summary(Ok(unreadable()), false).unwrap();
    assert_eq!((printed.stdout, printed.stderr), (notice.clone(), String::new()));
    let printed = run_summary(Ok(unreadable()), true).unwrap();
    assert_eq!((printed.stdout, printed.stderr), ("[]\n".to_owned(), notice));
    let printed = run_summary(Ok(vec![]), false).unwrap();
    assert_eq!(printed.stdout, "hmn: no visible GPUs.\n");
    assert!(run_summary(Err(HypomnesisError::NoGpuSource), false).is_err());
}

// --- spill ---

fn spill_run(command: &[&str]) -> SpillRun {
    SpillRun {
        command: command.iter().map(|s| (*s).to_owned()).collect(),
        json: true,
        tracker: None,
    }
}

#[test]
fn a_spilling_command_is_reported_with_its_exit_code() {
    let mut run = spill_run(&["train", "--fast"]);
    assert_eq!(run_spill(&mut run, SpillEvent::Started).action, SpillAction::OpenTracker);
    let step = run_spill(&mut run, SpillEvent::Opened(Ok(true)));
    assert_eq!((step.action, step.stderr.as_str()), (SpillAction::Spawn, ""));
    assert_eq!(run_spill(&mut run, SpillEvent::Spawned).action, SpillAction::Poll);
    let events = [(0, resting()), (1, spilling()), (2, spilling()), (3, None), (4, resting())];
    for (n, sample) in events {
        let step = run_spill(
            &mut run,
            SpillEvent::Running { elapsed: secs(n), sample, at: secs(n) },
        );
        assert_eq!(step.action, SpillAction::Sleep);
    }
    let step = run_spill(
        &mut run,
        SpillEvent::Exited { code: Some(3), elapsed: secs(5), sample: spilling(), at: secs(5) },
    );
    assert_eq!(step.action, SpillAction::Report(3));
    let report = run.tracker.take().map(|t| t.into_report());
    let r = report.as_ref().unwrap();
    assert_eq!(r.observations, 5);
    assert_eq!(r.episodes.len(), 2);
    assert_eq!(r.episodes[0].start_label, "+1.0s");
    assert_eq!(r.episodes[0].end_label.as_deref(), Some("+4.0s"));
    assert_eq!(r.episodes[0].duration, secs(1));
    assert_eq!(r.episodes[1].end_label, None);
    // The episodes lie within the time observed.
    assert!(secs(5).at_least(&r.total_spill_duration()));
    let printed = print_spill(&report, true);
    assert_eq!(printed.stdout, format_spill_json(r));
    assert_eq!(
        printed.stderr,
        "hmn spill: peak dedicated 16.0 GiB / 16.0 GiB\n           \
         peak shared    2.0 GiB (baseline 100 MiB)\n           \
         episodes       2 — total 1.0s, longest 1.0s, first +1.0s into run\n"
    );
    assert_eq!(print_spill(&report, false).stdout, "");
}

#[test]
fn a_run_without_a_tracker_still_runs_the_command() {
    let mut run = spill_run(&["a \"b\""]);
    let step = run_spill(
        &mut run,
        SpillEvent::Opened(Err(HypomnesisError::Pdh("x".to_owned()))),
    );
    assert_eq!(step.action, SpillAction::Spawn);
    assert_eq!(
        step.stderr,
        "hmn: spill tracking unavailable (PDH error: x); running command unmeasured\n"
    );
    let step = run_spill(&mut run, SpillEvent::SpawnFailed("not found".to_owned()));
    assert_eq!(step.action, SpillAction::Exit(1));
    assert_eq!(step.stderr, format!("hmn: failed to spawn {:?}: not found\n", "a \"b\""));
    let step = run_spill(&mut run, SpillEvent::WaitFailed("gone".to_owned()));
    assert_eq!(step.action, SpillAction::Exit(1));
    assert_eq!(step.stderr, "hmn: failed to wait on wrapped command: gone\n");
    let step = run_spill(
        &mut run,
        SpillEvent::Exited { code: None, elapsed: secs(1), sample: None, at: secs(1) },
    );
    assert_eq!(step.action, SpillAction::Report(1));
    let printed = print_spill(&None, true);
    assert_eq!(printed.stdout, SPILL_JSON_UNMEASURABLE);
    assert_eq!(printed.stderr, "hmn spill: spill not measurable (no tracker)\n");
    let mut empty = spill_run(&[]);
    let step = run_spill(&mut empty, SpillEvent::Started);
    assert_eq!(step.action, SpillAction::Exit(1));
    assert_eq!(step.stderr, "hmn: spill requires a command to run (after `--`)\n");
}

fn spilled_run(ends: &[u64]) -> SpillRun {
    let mut run = spill_run(&["a"]);
    run_spill(&mut run, SpillEvent::Opened(Ok(true)));
    let event = |sample, t| SpillEvent::Running { elapsed: secs(t), sample, at: secs(t) };
    run_spill(&mut run, event(resting(), 0));
    for end in ends {
        run_spill(&mut run, event(spilling(), 0));
        run_spill(&mut run, event(spilling(), *end));
        run_spill(&mut run, event(resting(), *end));
    }
    run
}

#[test]
fn the_end_of_a_run_prints_the_report_of_its_tracker() {
    let report = spilled_run(&[2]).tracker.map(|t| t.into_report());
    let expected = print_spill(&report, true);
    let mut run = spilled_run(&[2]);
    run.json = true;
    let (printed, code) = end_spill(run, 7).unwrap();
    assert_eq!((printed.stdout, printed.stderr, code), (expected.stdout, expected.stderr, 7));
    let (printed, code) = end_spill(spill_run(&["a"]), 0).unwrap();
    assert_eq!(printed.stderr, "hmn spill: spill not measurable (no tracker)\n");
    assert_eq!(code, 0);
    assert!(end_spill(spilled_run(&[u64::MAX, u64::MAX]), 0).is_none());
}

#[test]
fn episodes_count_no_observation_twice() {
    for ends in [&[][..], &[1], &[1, 2, 3]] {
        let t = spilled_run(ends).tracker.unwrap();
        let (spilled, now) = (t.has_spilled(), t.is_spilling());
        let r = t.into_report();
        assert_eq!(r.spilled(), spilled);
        assert_eq!(r.episodes.last().map_or(false, |e| e.end_label.is_none()), now);
        let counted: usize = r.episodes.iter().map(|e| e.observations).sum();
        assert_eq!((counted, r.observations), (2 * ends.len(), 3 * ends.len() + 1));
        assert!(r.episodes.iter().all(|e| e.peak_shared_bytes <= r.peak_shared_bytes));
    }
}

#[test]
fn the_end_of_a_watch_prints_the_report_of_its_tracker() {
    for (samples, code) in [(vec![resting(), spilling()], 1), (vec![resting()], 0), (vec![], 0)] {
        let start = || {
            let mut run = watch(&[1], false);
            run_watch(&mut run, WatchEvent::Opened(Ok(true)));
            for sample in &samples {
                run_watch(
                    &mut run,
                    WatchEvent::Sampled {
                        elapsed: secs(1),
                        rows: Ok(vec![entry(1, Some("a"), MIB, 0)]),
                        sample: *sample,
                        at: secs(1),
                    },
                );
            }
            run
        };
        let mut other = start();
        let report = other.tracker.take().map(|t| t.into_report());
        let expected = finish_watch(&other, &report);
        assert_eq!(end_watch(start()), Some(expected));
        assert_eq!(end_watch(start()).unwrap().1, code);
    }
}

#[test]
fn who_left_is_named_by_the_state_and_who_entered_by_the_sample() {
    let rows = vec![entry(1, Some("x.exe"), 500, 0), entry(2, Some("new.exe"), 1_000, 0)];
    let mut state = WatchState::new();
    state.track(1, 1_000, 0).last_name = Some("old.exe".to_owned());
    assert_eq!(
        format_followed_set_change(&[1], &[2], &rows, &state, secs(10)).unwrap(),
        "hmn watch: +10.0s followed set changed: entered pid=2 (new.exe); left pid=1 (old.exe)"
    );
    // A kept name does not stand in for one that the sample lacks, nor the other way round.
    state.track(3, 1, 0).last_name = Some("kept.exe".to_owned());
    let rows = vec![entry(3, None, 1, 0), entry(4, Some("y.exe"), 1, 0)];
    assert_eq!(
        format_followed_set_change(&[4], &[3], &rows, &state, secs(0)).unwrap(),
        "hmn watch: +0.0s followed set changed: entered pid=3; left pid=4"
    );
}

#[test]
fn an_unmeasurable_report_has_the_shape_of_the_constant() {
    let empty = SpillReport::builder().build();
    assert!(!empty.measurable);
    assert_eq!(format_spill_json(&empty), SPILL_JSON_UNMEASURABLE);
    assert_eq!(
        print_spill(&Some(empty), false).stderr,
        "hmn spill: spill not measurable on this platform\n"
    );
}

#[test]
fn episodes_are_the_maximal_runs_of_spilling_observations() {
    let pattern = [false, true, true, false, false, true, false, true];
    let mut state = TrackerState::new();
    for (i, spills) in pattern.iter().enumerate() {
        let s = if *spills { spilling().unwrap() } else { resting().unwrap() };
        fold(
            &mut state,
            RawObservation {
                dedicated_bytes: s.dedicated_bytes,
                shared_bytes: s.shared_bytes,
                limit_bytes: s.limit_bytes,
                label: format!("{i}"),
                at: secs(i as u64),
            },
        );
        assert_eq!(state.currently, *spills);
        assert_eq!(state.latched, i >= 1);
    }
    let report = state_into_report(state, true);
    let runs: Vec<(String, Option<String>, usize)> = report
        .episodes
        .iter()
        .map(|e| (e.start_label.clone(), e.end_label.clone(), e.observations))
        .collect();
    assert_eq!(
        runs,
        vec![
            ("1".to_owned(), Some("3".to_owned()), 2),
            ("5".to_owned(), Some("6".to_owned()), 1),
            ("7".to_owned(), None, 1)
        ]
    );
    assert_eq!(report.longest_episode().unwrap().start_label, "1");
    assert_eq!(report.checked_total_spill_duration(), Some(secs(1)));
}

#[test]
fn a_total_beyond_the_longest_span_is_refused() {
    let d = secs(u64::MAX);
    let r = SpillReport::builder().episode("a", None, 0, 1, d).episode("b", None, 0, 1, d).build();
    assert_eq!(r.checked_total_spill_duration(), None);
    // Among equals the earliest is the longest.
    assert_eq!(r.longest_episode().unwrap().start_label, "a");
}

// --- watch ---

fn watch(pids: &[u32], follow_new: bool) -> WatchRun {
    WatchRun::new(pids, secs(5), Some(secs(60)), 2, follow_new, 1, false)
}

fn listed(run: &mut WatchRun, rows: Vec<GpuProcessEntry>) -> WatchStep {
    let device = Ok(GpuDeviceInfo::builder().name(Some("RTX".to_owned())).build());
    run_watch(run, WatchEvent::Listed { device, rows: Ok(rows) })
}

#[test]
fn given_processes_and_a_followed_selection_conflict() {
    assert_eq!(distinct_pids(&[3, 1, 3, 2, 1]), vec![3, 1, 2]);
    let mut run = watch(&[5, 5], true);
    assert_eq!(run.explicit, vec![5]);
    let step = run_watch(&mut run, WatchEvent::Started);
    assert_eq!(step.action, WatchAction::Exit(2));
    assert_eq!(
        step.printed.stderr,
        "hmn: watch --follow-new only applies to auto-selection; drop --follow-new or the explicit PID list\n"
    );
    assert_eq!(run_watch(&mut watch(&[5], false), WatchEvent::Started).action, WatchAction::List);
    assert_eq!(run_watch(&mut watch(&[], true), WatchEvent::Started).action, WatchAction::List);
}

#[test]
fn a_watch_needs_something_to_watch() {
    let mut run = watch(&[], false);
    let step = listed(&mut run, vec![]);
    assert_eq!(step.action, WatchAction::Exit(2));
    assert_eq!(
        step.printed.stderr,
        "hmn: watch found no GPU processes on device 1 to auto-select (top 2); re-run with an explicit PID once a workload is running\n"
    );
    let mut run = watch(&[], true);
    let step = listed(&mut run, vec![]);
    assert_eq!(step.action, WatchAction::OpenTracker);
    assert_eq!(
        step.printed.stderr,
        "hmn: watch found no GPU processes on device 1 yet (top 2 by committed); waiting for work to appear\n"
    );
    let mut run = watch(&[9], false);
    let step = run_watch(
        &mut run,
        WatchEvent::Listed {
            device: Err(HypomnesisError::NoGpuSource),
            rows: Err(HypomnesisError::DeviceIndexOutOfRange { index: 1, count: 1 }),
        },
    );
    assert_eq!(step.action, WatchAction::Exit(2));
    assert_eq!(
        step.printed.stderr,
        "hmn: watch failed to query device 1: device index 1 out of range (have 1 devices)\n"
    );
}

#[test]
fn the_banner_says_how_processes_were_chosen() {
    let rows = || vec![entry(1, Some("a"), 10, 0), entry(2, Some("b"), 30, 0), entry(3, None, 20, 0)];
    let mut run = watch(&[], false);
    listed(&mut run, rows());
    assert_eq!(run.watched, vec![2, 3]);
    let step = run_watch(&mut run, WatchEvent::HandlerInstalled(None));
    assert_eq!(step.action, WatchAction::FirstSample);
    assert_eq!(
        step.printed.stderr,
        "hmn watch: device 1 [RTX], interval 5.0s, watching 2 PID(s) (top 2 by committed)\n"
    );
    assert_eq!(step.printed.stdout, format_watch_header_text());
    let mut run = watch(&[7], false);
    listed(&mut run, rows());
    run.device_name = None;
    let step = run_watch(&mut run, WatchEvent::HandlerInstalled(Some("busy".to_owned())));
    assert_eq!(
        step.printed.stderr,
        "hmn: watch failed to install Ctrl+C handler (busy); interrupting will skip the closing summary\n\
         hmn watch: device 1, interval 5.0s, watching 1 PID(s)\n"
    );
    let mut run = watch(&[], true);
    listed(&mut run, rows());
    let step = run_watch(&mut run, WatchEvent::HandlerInstalled(None));
    assert_eq!(
        step.printed.stderr,
        "hmn watch: device 1 [RTX], interval 5.0s, following top 2 by committed (re-selected every interval), 2 initially\n"
    );
}

#[test]
fn a_followed_watch_runs_to_its_end() {
    let mut run = watch(&[], true);
    listed(&mut run, vec![entry(1, Some("a"), 10 * MIB, 0), entry(2, Some("b"), 30 * MIB, 0)]);
    assert_eq!(
        run_watch(&mut run, WatchEvent::Opened(Ok(true))).action,
        WatchAction::InstallHandler
    );
    run_watch(&mut run, WatchEvent::HandlerInstalled(None));
    let step = run_watch(&mut run, WatchEvent::FirstSample { sample: resting(), at: secs(0) });
    assert_eq!(step.action, WatchAction::Check);
    assert!(step.printed.stdout.starts_with("+0.0s     2    b"), "{}", step.printed.stdout);
    assert_eq!(step.printed.stdout.lines().count(), 2);
    let check = |run: &mut WatchRun, elapsed, interrupted, slept| {
        run_watch(run, WatchEvent::Checked { elapsed, interrupted, slept }).action
    };
    assert_eq!(check(&mut run, secs(0), false, false), WatchAction::Sleep);
    assert_eq!(check(&mut run, secs(5), false, true), WatchAction::Sample);
    // Process 1 leaves, process 3 enters.
    let step = run_watch(
        &mut run,
        WatchEvent::Sampled {
            elapsed: secs(5),
            rows: Ok(vec![entry(2, Some("b"), 40 * MIB, 0), entry(3, Some("c"), 50 * MIB, 0)]),
            sample: spilling(),
            at: secs(5),
        },
    );
    assert_eq!(
        step.printed.stderr,
        "hmn watch: +5.0s followed set changed: entered pid=3 (c); left pid=1 (a)\n"
    );
    assert!(step.printed.stdout.contains("+10 MiB"), "{}", step.printed.stdout);
    assert!(step.printed.stdout.contains("SPILL"), "{}", step.printed.stdout);
    assert_eq!(run.watched, vec![3, 2]);
    assert_eq!(run.state.seen_order, vec![2, 1, 3]);
    let step = run_watch(
        &mut run,
        WatchEvent::Sampled {
            elapsed: secs(10),
            rows: Err(HypomnesisError::NoGpuSource),
            sample: None,
            at: secs(10),
        },
    );
    assert_eq!(step.action, WatchAction::Check);
    assert_eq!(step.printed.stdout, "");
    assert!(
        step.printed.stderr.starts_with("hmn watch: sample failed at +10.0s (no GPU measurement"),
        "{}",
        step.printed.stderr
    );
    assert_eq!(run.watched, vec![3, 2]);
    assert_eq!(check(&mut run, secs(60), false, true), WatchAction::Finish);
    assert_eq!(check(&mut run, secs(10), true, false), WatchAction::Finish);
    let report = run.tracker.take().map(|t| t.into_report());
    let (text, code) = finish_watch(&run, &report);
    assert_eq!(code, 1);
    assert!(text.contains("hmn watch: per-PID  PID  NAME  BASELINE COMMIT"), "{text}");
    let order: Vec<u32> = summarize(&run.state).iter().map(|p| p.pid).collect();
    assert_eq!(order, vec![2, 1, 3]);
    let (_, clean) = finish_watch(&run, &None);
    assert_eq!(clean, 0);
}

#[test]
fn a_watch_goes_on_without_a_tracker() {
    let mut run = watch(&[1], false);
    let step = run_watch(&mut run, WatchEvent::Opened(Err(HypomnesisError::Pdh("x".to_owned()))));
    assert_eq!(step.action, WatchAction::InstallHandler);
    assert_eq!(
        step.printed.stderr,
        "hmn: watch spill tracking unavailable (PDH error: x); showing per-PID VRAM only\n"
    );
    assert!(run.tracker.is_none());
}

#[test]
fn notices_tell_of_reuse_and_of_growth_once() {
    let mut state = WatchState::new();
    let mut step = |rows: Vec<GpuProcessEntry>| {
        process_sample(&rows, &mut state, &[7], secs(0), &mut None, None, secs(0)).notices
    };
    assert!(step(vec![entry(7, None, 0, 0)]).is_empty());
    assert_eq!(
        step(vec![entry(7, None, UNRESOLVED_GROWTH_HINT_BYTES, 0)]),
        vec!["hmn watch: unresolved pid=7 grew +256 MiB since attach — re-run elevated to identify"
            .to_owned()]
    );
    assert!(step(vec![entry(7, None, 3 * GIB, 0)]).is_empty());
    assert!(step(vec![entry(7, Some("a.exe"), 3 * GIB, 0)]).is_empty());
    assert_eq!(
        step(vec![entry(7, Some("b.exe"), 5, 0)]),
        vec!["hmn watch: pid=7 name changed (a.exe → b.exe) — likely PID reuse by the OS; baseline reset"
            .to_owned()]
    );
    // Shared memory counts as growth too, and the reset allows another hint.
    assert_eq!(step(vec![entry(7, Some("[protected]"), 5, GIB)]).len(), 1);
}

#[test]
fn changes_add_up_to_the_difference_from_the_start() {
    let mut state = WatchState::new();
    let figures = [50u64, 80, 20, 20, 95, 10];
    let mut sum = 0;
    for f in figures {
        let rows = vec![entry(7, Some("a"), f, 2 * f)];
        let out = process_sample(&rows, &mut state, &[7], secs(0), &mut None, None, secs(0)).rows;
        sum += out[0].used_delta;
    }
    assert_eq!(sum, 10 - 50);
    let s = &state.by_pid[&7];
    assert_eq!((s.baseline_used_bytes, s.peak_used_bytes, s.peak_shared_bytes), (50, 95, 190));
}

#[test]
fn the_message_comes_exactly_when_the_sets_differ() {
    let state = WatchState::new();
    let change = |a: &[u32], b: &[u32]| format_followed_set_change(a, b, &[], &state, secs(1));
    assert_eq!(change(&[1, 2], &[2, 1]), None);
    assert_eq!(change(&[], &[]), None);
    assert_eq!(
        change(&[1, 2], &[3, 4]).unwrap(),
        "hmn watch: +1.0s followed set changed: entered pid=3, pid=4; left pid=1, pid=2"
    );
}

#[test]
fn headings_and_rows_line_up_like_std() {
    assert_eq!(
        format_watch_header_text(),
        format!(
            "{:<8}  {:<6}  {:<12}  {:<9}  {:<9}  {:<9}  {:<9}  {:<5}\n",
            "TIME", "PID", "NAME", "COMMITTED", "ΔCOMMIT", "SHARED", "ΔSHARED", "SPILL"
        )
    );
    let mut state = WatchState::new();
    let rows = vec![entry(7, Some("naïve.exe"), 2 * GIB, 0)];
    let out = process_sample(&rows, &mut state, &[7], secs(0), &mut None, None, secs(0)).rows;
    assert_eq!(
        format_watch_rows_text(secs(12), &out),
        format!(
            "{:<8}  {:<3}  {:<10}  {:<9}  {:<8}  {:<6}  {:<8}  {:<5}\n",
            "+12.0s", "7", "naïve.exe", "2.0 GiB", "+0 B", "0 MiB", "+0 B", "no"
        )
    );
}
