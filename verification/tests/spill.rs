//! The spill fold and its report.
use hypomnesis::spill::{
    fold, state_into_report, RawObservation, TrackerState, DEFAULT_DEDICATED_THRESHOLD_PCT,
    DEFAULT_SHARED_GROWTH_BYTES,
};
use hypomnesis::{Duration, SpillTracker};

const LIMIT: u64 = 16 * 1024 * 1024 * 1024;
const SATURATED: u64 = LIMIT - 1024;
const RELAXED: u64 = LIMIT / 2;
const BASELINE: u64 = 140_533_760;
const SPILLED_SHARED: u64 = BASELINE + DEFAULT_SHARED_GROWTH_BYTES + 512 * 1024 * 1024;

fn obs(label: &str, at: Duration, dedicated: u64, shared: u64) -> RawObservation {
    RawObservation {
        dedicated_bytes: dedicated,
        shared_bytes: shared,
        limit_bytes: LIMIT,
        label: label.to_owned(),
        at,
    }
}

fn drive(seq: &[(&str, u64, u64)]) -> TrackerState {
    let mut state = TrackerState::new();
    for (i, (label, dedicated, shared)) in seq.iter().enumerate() {
        let at = Duration::from_secs(i as u64);
        fold(&mut state, obs(label, at, *dedicated, *shared));
    }
    state
}

#[test]
fn fold_flicker_three_episodes() {
    let state = drive(&[
        ("t0", RELAXED, BASELINE),
        ("t1", SATURATED, SPILLED_SHARED),
        ("t2", RELAXED, BASELINE),
        ("t3", SATURATED, SPILLED_SHARED),
        ("t4", RELAXED, BASELINE),
        ("t5", SATURATED, SPILLED_SHARED),
        ("t6", RELAXED, BASELINE),
    ]);
    assert!(state.latched);
    assert!(!state.currently);
    let report = state_into_report(state, true);
    assert_eq!(report.episodes.len(), 3);
    assert!(report.spilled());
    assert_eq!(report.first_spill_label(), Some("t1"));
    assert_eq!(report.episodes[0].end_label.as_deref(), Some("t2"));
    assert_eq!(report.episodes[2].end_label.as_deref(), Some("t6"));
}

#[test]
fn fold_benign_baseline_zero_episodes() {
    let state = drive(&[
        ("t0", SATURATED, BASELINE),
        ("t1", SATURATED, BASELINE + 1024),
        ("t2", SATURATED, BASELINE),
    ]);
    assert!(!state.latched);
    assert!(!state.currently);
    let report = state_into_report(state, true);
    assert!(report.episodes.is_empty());
    assert!(!report.spilled());
}

#[test]
fn fold_commit_gap_zero_episodes() {
    let state = drive(&[("t0", RELAXED, BASELINE), ("t1", RELAXED, BASELINE)]);
    assert!(!state.latched);
    let report = state_into_report(state, true);
    assert!(report.episodes.is_empty());
}

#[test]
fn fold_still_spilling_end_label_none() {
    let state = drive(&[
        ("t0", RELAXED, BASELINE),
        ("t1", SATURATED, SPILLED_SHARED),
        ("t2", SATURATED, SPILLED_SHARED),
    ]);
    assert!(state.currently);
    let report = state_into_report(state, true);
    assert_eq!(report.episodes.len(), 1);
    assert_eq!(report.episodes[0].end_label, None);
    assert_eq!(report.episodes[0].observations, 2);
}

#[test]
fn fold_latched_survives_recovery() {
    let state = drive(&[
        ("t0", RELAXED, BASELINE),
        ("t1", SATURATED, SPILLED_SHARED),
        ("t2", RELAXED, BASELINE),
    ]);
    assert!(state.latched);
    assert!(!state.currently);
}

#[test]
fn fold_baseline_from_first_observation() {
    let elevated = BASELINE + 512 * 1024 * 1024;
    let state = drive(&[
        ("t0", RELAXED, elevated),
        ("t1", SATURATED, elevated + DEFAULT_SHARED_GROWTH_BYTES),
    ]);
    assert!(state.latched);
    let report = state_into_report(state, true);
    assert_eq!(report.baseline_shared_bytes, elevated);
}

#[test]
fn fold_growth_boundary_fires_at_baseline_plus_margin() {
    let below = drive(&[
        ("t0", SATURATED, BASELINE),
        ("t1", SATURATED, BASELINE + DEFAULT_SHARED_GROWTH_BYTES - 1),
    ]);
    assert!(!below.latched);

    let at_margin = drive(&[
        ("t0", SATURATED, BASELINE),
        ("t1", SATURATED, BASELINE + DEFAULT_SHARED_GROWTH_BYTES),
    ]);
    assert!(at_margin.latched);
}

#[test]
fn fold_zero_limit_never_spills() {
    let mut state = TrackerState::new();
    let t0 = Duration::zero();
    fold(
        &mut state,
        RawObservation {
            dedicated_bytes: u64::MAX,
            shared_bytes: u64::MAX,
            limit_bytes: 0,
            label: "t0".to_owned(),
            at: t0,
        },
    );
    assert!(!state.latched);
    assert_eq!(state.peak_dedicated, u64::MAX);
    assert_eq!(state.observations, 1);
}

#[test]
fn fold_sub_100_byte_limit_never_spills() {
    let mut state = TrackerState::new();
    fold(
        &mut state,
        RawObservation {
            dedicated_bytes: u64::MAX,
            shared_bytes: u64::MAX,
            limit_bytes: 99,
            label: "t0".to_owned(),
            at: Duration::zero(),
        },
    );
    assert!(!state.latched);
}

#[test]
fn fold_custom_dedicated_threshold_override() {
    let twelve_gib = 12 * 1024 * 1024 * 1024;
    assert!(twelve_gib < LIMIT / 100 * DEFAULT_DEDICATED_THRESHOLD_PCT);

    let without_override = drive(&[
        ("t0", RELAXED, BASELINE),
        ("t1", twelve_gib, SPILLED_SHARED),
    ]);
    assert!(!without_override.latched);

    let mut state = TrackerState::new();
    state.dedicated_threshold_override = Some(twelve_gib);
    let t0 = Duration::zero();
    fold(&mut state, obs("t0", t0, RELAXED, BASELINE));
    fold(
        &mut state,
        obs(
            "t1",
            Duration::from_secs(1),
            twelve_gib,
            SPILLED_SHARED,
        ),
    );
    assert!(state.latched);
}

#[test]
fn fold_single_observation_episode_zero_duration() {
    let state = drive(&[
        ("t0", RELAXED, BASELINE),
        ("t1", SATURATED, SPILLED_SHARED),
        ("t2", RELAXED, BASELINE),
    ]);
    let report = state_into_report(state, true);
    assert_eq!(report.episodes.len(), 1);
    assert_eq!(report.episodes[0].duration, Duration::zero());
    assert_eq!(report.episodes[0].observations, 1);
}

#[test]
fn fold_peaks_and_observation_counts() {
    let state = drive(&[
        ("t0", RELAXED, BASELINE),
        ("t1", SATURATED, SPILLED_SHARED),
        ("t2", RELAXED, BASELINE),
    ]);
    assert_eq!(state.observations, 3);
    assert_eq!(state.peak_dedicated, SATURATED);
    assert_eq!(state.peak_shared, SPILLED_SHARED);
    let report = state_into_report(state, true);
    assert_eq!(report.observations, 3);
    assert_eq!(report.peak_dedicated_bytes, SATURATED);
    assert_eq!(report.peak_shared_bytes, SPILLED_SHARED);
    assert_eq!(report.baseline_shared_bytes, BASELINE);
    assert_eq!(report.dedicated_limit_bytes, LIMIT);
    assert!(report.measurable);
}

#[test]
fn report_total_spill_duration_sums_episodes() {
    let state = drive(&[
        ("t0", RELAXED, BASELINE),
        ("t1", SATURATED, SPILLED_SHARED),
        ("t2", SATURATED, SPILLED_SHARED),
        ("t3", SATURATED, SPILLED_SHARED),
        ("t4", RELAXED, BASELINE),
        ("t5", SATURATED, SPILLED_SHARED),
        ("t6", SATURATED, SPILLED_SHARED),
        ("t7", SATURATED, SPILLED_SHARED),
        ("t8", RELAXED, BASELINE),
    ]);
    let report = state_into_report(state, true);
    assert_eq!(report.episodes.len(), 2);
    assert_eq!(report.total_spill_duration(), Duration::from_secs(4));
}

#[test]
fn report_longest_episode() {
    let state = drive(&[
        ("t0", RELAXED, BASELINE),
        ("t1", SATURATED, SPILLED_SHARED),
        ("t2", RELAXED, BASELINE),
        ("t3", SATURATED, SPILLED_SHARED),
        ("t4", SATURATED, SPILLED_SHARED),
        ("t5", RELAXED, BASELINE),
    ]);
    let report = state_into_report(state, true);
    let longest = report.longest_episode().unwrap();
    assert_eq!(longest.start_label, "t3");
    assert_eq!(longest.duration, Duration::from_secs(1));
}

#[test]
fn report_first_spill_label_none_when_no_spill() {
    let state = drive(&[("t0", RELAXED, BASELINE)]);
    let report = state_into_report(state, true);
    assert_eq!(report.first_spill_label(), None);
    assert_eq!(report.total_spill_duration(), Duration::zero());
    assert!(report.longest_episode().is_none());
}

#[test]
fn tracker_unmeasurable_observe_is_noop() {
    let mut tracker = SpillTracker::new(Ok(false)).unwrap();
    assert!(!tracker.is_measurable());
    tracker.observe("t0".to_owned(), None, Duration::zero());
    assert!(!tracker.is_spilling());
    assert!(!tracker.has_spilled());
    let report = tracker.into_report();
    assert_eq!(report.observations, 0);
    assert!(!report.measurable);
    assert!(!report.spilled());
}
