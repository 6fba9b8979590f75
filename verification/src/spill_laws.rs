//! What the fold over observations amounts to, said of whole observation histories.
use crate::spill::{
    elapsed_nanos, is_longest, larger, lemma_counts_step, reports, saturation_threshold, spills,
    total_nanos, total_observations, OpenEpisode, RawObservation, SpillEpisode, SpillReport,
    TrackerState,
};
use crate::time::Duration;
use vstd::prelude::*;

verus! {

/// Whether `states` are the states before, between and after the observations `h`,
/// starting with none observed.
pub open spec fn is_trace(states: Seq<TrackerState>, h: Seq<RawObservation>) -> bool {
    &&& states.len() == h.len() + 1
    &&& states[0].unobserved()
    &&& forall|i: int|
        0 <= i < h.len() ==> states[i].advances_to(#[trigger] h[i], states[i + 1])
}

/// Whether observation `i` of the history spills under the thresholds of the first state.
pub open spec fn spills_at(s0: TrackerState, h: Seq<RawObservation>, i: int) -> bool {
    spills(s0.dedicated_threshold_override, s0.shared_growth_bytes, h[0].shared_bytes, h[i])
}

/// Thresholds stay, and the baseline is the first shared reading.
proof fn lemma_thresholds_and_baseline(states: Seq<TrackerState>, h: Seq<RawObservation>, n: int)
    requires
        is_trace(states, h),
        0 <= n <= h.len(),
    ensures
        states[n].dedicated_threshold_override == states[0].dedicated_threshold_override,
        states[n].shared_growth_bytes == states[0].shared_growth_bytes,
        n == 0 ==> states[n].baseline_shared is None,
        n > 0 ==> states[n].baseline_shared == Some(h[0].shared_bytes),
        n < h.len() ==> (states[n].flags(h[n]) <==> spills_at(states[0], h, n)),
    decreases n,
{
    if n > 0 {
        lemma_thresholds_and_baseline(states, h, n - 1);
        assert(states[n - 1].advances_to(h[n - 1], states[n - 1 + 1]));
    }
}

/// The baseline that growth is measured from is the shared reading of the first
/// observation, whatever comes later.
pub proof fn law_baseline_is_first_reading(states: Seq<TrackerState>, h: Seq<RawObservation>)
    requires
        is_trace(states, h),
        h.len() > 0,
    ensures
        states.last().baseline_shared == Some(h[0].shared_bytes),
{
    lemma_thresholds_and_baseline(states, h, h.len() as int);
}

/// After any number of observations the latch is set exactly when one of them spilled,
/// and the instantaneous flag is set exactly when the latest one did.
pub proof fn law_flags(states: Seq<TrackerState>, h: Seq<RawObservation>, n: int)
    requires
        is_trace(states, h),
        0 <= n <= h.len(),
    ensures
        states[n].latched <==> exists|i: int| 0 <= i < n && #[trigger] spills_at(states[0], h, i),
        states[n].currently <==> (n > 0 && spills_at(states[0], h, n - 1)),
    decreases n,
{
    if n > 0 {
        law_flags(states, h, n - 1);
        lemma_thresholds_and_baseline(states, h, n - 1);
        assert(states[n - 1].advances_to(h[n - 1], states[n - 1 + 1]));
        if states[n - 1].latched {
            let i = choose|i: int| 0 <= i < n - 1 && #[trigger] spills_at(states[0], h, i);
            assert(spills_at(states[0], h, i));
        }
        if spills_at(states[0], h, n - 1) {
            assert(states[n].latched);
        }
    }
}

/// The latch never reverts: once set, it stays set through every later observation.
pub proof fn law_latch_is_sticky(
    states: Seq<TrackerState>,
    h: Seq<RawObservation>,
    m: int,
    n: int,
)
    requires
        is_trace(states, h),
        0 <= m <= n <= h.len(),
        states[m].latched,
    ensures
        states[n].latched,
{
    law_flags(states, h, m);
    law_flags(states, h, n);
    let i = choose|i: int| 0 <= i < m && #[trigger] spills_at(states[0], h, i);
    assert(spills_at(states[0], h, i));
}

/// The peaks are the largest readings, the capacity is the latest, and the counter
/// counts the observations.
pub proof fn law_peaks_and_counters(states: Seq<TrackerState>, h: Seq<RawObservation>, n: int)
    requires
        is_trace(states, h),
        0 <= n <= h.len(),
    ensures
        forall|i: int| 0 <= i < n ==> (#[trigger] h[i]).dedicated_bytes <= states[n].peak_dedicated,
        forall|i: int| 0 <= i < n ==> (#[trigger] h[i]).shared_bytes <= states[n].peak_shared,
        n > 0 ==> exists|i: int|
            0 <= i < n && (#[trigger] h[i]).dedicated_bytes == states[n].peak_dedicated,
        n > 0 ==> exists|i: int|
            0 <= i < n && (#[trigger] h[i]).shared_bytes == states[n].peak_shared,
        n == 0 ==> states[n].peak_dedicated == 0 && states[n].peak_shared == 0,
        n > 0 ==> states[n].limit_seen == h[n - 1].limit_bytes,
        states[n].observations == (if n <= usize::MAX {
            n
        } else {
            usize::MAX as int
        }),
    decreases n,
{
    if n > 0 {
        law_peaks_and_counters(states, h, n - 1);
        let s = states[n - 1];
        let o = h[n - 1];
        assert(s.advances_to(o, states[n - 1 + 1]));
        assert(h[n - 1] == o);
        if n > 1 {
            let i = choose|i: int| 0 <= i < n - 1 && (#[trigger] h[i]).dedicated_bytes == s.peak_dedicated;
            let j = choose|j: int| 0 <= j < n - 1 && (#[trigger] h[j]).shared_bytes == s.peak_shared;
            assert(h[i].dedicated_bytes == states[n].peak_dedicated || o.dedicated_bytes
                == states[n].peak_dedicated);
            assert(h[j].shared_bytes == states[n].peak_shared || o.shared_bytes
                == states[n].peak_shared);
        }
    }
}

/// With an unknown capacity (or one below 100 bytes) and no override, no observation
/// ever spills.
pub proof fn law_unknown_capacity_never_spills(states: Seq<TrackerState>, h: Seq<RawObservation>)
    requires
        is_trace(states, h),
        states[0].dedicated_threshold_override is None,
        forall|i: int| 0 <= i < h.len() ==> (#[trigger] h[i]).limit_bytes < 100,
    ensures
        !states.last().latched,
        !states.last().currently,
{
    law_flags(states, h, h.len() as int);
    assert forall|i: int| 0 <= i < h.len() implies !#[trigger] spills_at(states[0], h, i) by {
        assert(h[i].limit_bytes < 100);
    }
}

/// Both conditions are needed: below the saturation threshold, or with shared memory
/// below the baseline plus the margin, an observation does not spill, however far the
/// other side goes.
pub proof fn law_spill_needs_both(over: Option<u64>, growth: u64, baseline: u64, o: RawObservation)
    requires
        saturation_threshold(over, o.limit_bytes) matches Some(t) && o.dedicated_bytes < t
            || o.shared_bytes < baseline + growth && baseline + growth <= u64::MAX,
    ensures
        !spills(over, growth, baseline, o),
{
}

// ---------------------------------------------------------------------------
// Episodes
// ---------------------------------------------------------------------------

/// The maximal runs of spilling observations among the first `n`, as first and last index.
pub open spec fn runs(s0: TrackerState, h: Seq<RawObservation>, n: nat) -> Seq<(int, int)>
    decreases n,
{
    if n == 0 {
        seq![]
    } else {
        let r = runs(s0, h, (n - 1) as nat);
        let k = n - 1;
        if !spills_at(s0, h, k) {
            r
        } else if k > 0 && spills_at(s0, h, k - 1) {
            r.update(r.len() - 1, (r.last().0, k))
        } else {
            r.push((k, k))
        }
    }
}

/// The runs are in order, apart from each other, maximal, and hold every spilling
/// observation.
pub proof fn law_runs_are_maximal(s0: TrackerState, h: Seq<RawObservation>, n: nat)
    ensures
        forall|k: int|
            0 <= k < runs(s0, h, n).len() ==> {
                let (a, b) = #[trigger] runs(s0, h, n)[k];
                &&& 0 <= a <= b < n
                &&& forall|i: int| a <= i <= b ==> #[trigger] spills_at(s0, h, i)
                &&& a == 0 || !spills_at(s0, h, a - 1)
                &&& b + 1 == n || !spills_at(s0, h, b + 1)
            },
        forall|k: int, l: int|
            0 <= k < l < runs(s0, h, n).len() ==> (#[trigger] runs(s0, h, n)[k]).1 + 1 < (
            #[trigger] runs(s0, h, n)[l]).0,
        forall|i: int|
            0 <= i < n && #[trigger] spills_at(s0, h, i) ==> exists|k: int|
                0 <= k < runs(s0, h, n).len() && (#[trigger] runs(s0, h, n)[k]).0 <= i <= runs(
                    s0,
                    h,
                    n,
                )[k].1,
        n > 0 && spills_at(s0, h, n - 1) ==> runs(s0, h, n).len() > 0 && runs(s0, h, n).last().1
            == n - 1,
        n > 0 && !spills_at(s0, h, n - 1) ==> forall|k: int|
            0 <= k < runs(s0, h, n).len() ==> (#[trigger] runs(s0, h, n)[k]).1 < n - 1,
    decreases n,
{
    if n > 0 {
        let m = (n - 1) as nat;
        law_runs_are_maximal(s0, h, m);
        let r = runs(s0, h, m);
        let q = runs(s0, h, n);
        let k = n - 1;
        assert forall|i: int| 0 <= i < n && #[trigger] spills_at(s0, h, i) implies exists|j: int|
            0 <= j < q.len() && (#[trigger] q[j]).0 <= i <= q[j].1 by {
            if i == k {
                assert(q[q.len() - 1].1 == k);
                assert(q[q.len() - 1].0 <= i <= q[q.len() - 1].1);
            } else {
                let j = choose|j: int| 0 <= j < r.len() && (#[trigger] r[j]).0 <= i <= r[j].1;
                assert(q[j].0 <= i <= q[j].1);
            }
        }
        assert forall|j: int| 0 <= j < q.len() implies {
            let (a, b) = #[trigger] q[j];
            &&& 0 <= a <= b < n
            &&& forall|i: int| a <= i <= b ==> #[trigger] spills_at(s0, h, i)
            &&& a == 0 || !spills_at(s0, h, a - 1)
            &&& b + 1 == n || !spills_at(s0, h, b + 1)
        } by {
            if j < r.len() {
                let _ = r[j];
            }
        }
        assert forall|j: int, l: int| 0 <= j < l < q.len() implies (#[trigger] q[j]).1 + 1 < (
        #[trigger] q[l]).0 by {
            if l < r.len() {
                assert(r[j].1 + 1 < r[l].0);
            } else {
                assert(r[j].1 < m);
                assert(m == 0 || !spills_at(s0, h, m - 1));
            }
        }
    }
}

/// The largest shared reading from observation `a` to `b`.
pub open spec fn run_peak(h: Seq<RawObservation>, a: int, b: int) -> u64
    decreases b - a,
{
    if b <= a {
        h[a].shared_bytes
    } else {
        larger(run_peak(h, a, b - 1), h[b].shared_bytes)
    }
}

/// The number of observations from `a` to `b`, at most `usize::MAX`.
pub open spec fn run_count(a: int, b: int) -> int {
    if b - a + 1 > usize::MAX {
        usize::MAX as int
    } else {
        b - a + 1
    }
}

/// Whether an episode describes the run `r` among the first `n` observations.
pub open spec fn describes(
    e: SpillEpisode,
    h: Seq<RawObservation>,
    n: nat,
    r: (int, int),
) -> bool {
    &&& e.start_label == h[r.0].label
    &&& e.end_label == (if r.1 + 1 < n {
        Some(h[r.1 + 1].label)
    } else {
        None
    })
    &&& e.peak_shared_bytes == run_peak(h, r.0, r.1)
    &&& e.observations == run_count(r.0, r.1)
    &&& e.duration@ == elapsed_nanos(h[r.0].at@, h[r.1].at@)
}

spec fn open_describes(e: OpenEpisode, h: Seq<RawObservation>, r: (int, int)) -> bool {
    &&& e.start_label == h[r.0].label
    &&& e.start_at@ == h[r.0].at@
    &&& e.last_at@ == h[r.1].at@
    &&& e.peak_shared == run_peak(h, r.0, r.1)
    &&& e.observations == run_count(r.0, r.1)
}

proof fn lemma_episodes(states: Seq<TrackerState>, h: Seq<RawObservation>, n: nat)
    requires
        is_trace(states, h),
        n <= h.len(),
    ensures
        ({
            let s = states[n as int];
            let r = runs(states[0], h, n);
            let sealed = s.episodes@.len();
            &&& r.len() == sealed + (if s.open is Some {
                1nat
            } else {
                0nat
            })
            &&& s.open is Some <==> (n > 0 && spills_at(states[0], h, n - 1))
            &&& s.open matches Some(e) ==> open_describes(e, h, r.last()) && r.last().1 == n - 1
            &&& forall|k: int|
                0 <= k < sealed ==> describes(#[trigger] s.episodes@[k], h, n, r[k]) && r[k].1 + 1
                    < n
        }),
    decreases n,
{
    reveal_with_fuel(run_peak, 2);
    if n > 0 {
        let m = (n - 1) as nat;
        lemma_episodes(states, h, m);
        lemma_thresholds_and_baseline(states, h, m as int);
        law_runs_are_maximal(states[0], h, m);
        law_runs_are_maximal(states[0], h, n);
        let p = states[m as int];
        let s = states[n as int];
        let o = h[m as int];
        assert(p.advances_to(o, states[m as int + 1]));
        let r = runs(states[0], h, m);
        let q = runs(states[0], h, n);
        assert forall|k: int| 0 <= k < p.episodes@.len() implies describes(
            #[trigger] s.episodes@[k],
            h,
            n,
            q[k],
        ) && q[k].1 + 1 < n by {
            assert(describes(p.episodes@[k], h, m, r[k]));
            if !p.flags(o) && p.open is Some {
                assert(s.episodes@.drop_last()[k] == p.episodes@[k]);
            }
        }
        if !p.flags(o) {
            assert(q == r);
            if p.open is Some {
                let k = p.episodes@.len() as int;
                assert(s.episodes@[k] == s.episodes@.last());
                assert(describes(s.episodes@[k], h, n, q[k]));
            }
        } else if m > 0 && spills_at(states[0], h, m - 1) {
            assert(q.last() == (r.last().0, m as int));
        }
    }
}

/// The episodes of a report are the maximal runs of spilling observations, in order:
/// labelled by the first observation of the run and the first one after it, with the
/// peak, count and duration of the run.
pub proof fn law_episodes_are_runs(
    states: Seq<TrackerState>,
    h: Seq<RawObservation>,
    measurable: bool,
    report: SpillReport,
)
    requires
        is_trace(states, h),
        reports(states.last(), measurable, report),
    ensures
        report.episodes@.len() == runs(states[0], h, h.len()).len(),
        forall|k: int|
            0 <= k < report.episodes@.len() ==> describes(
                #[trigger] report.episodes@[k],
                h,
                h.len(),
                runs(states[0], h, h.len())[k],
            ),
{
    lemma_episodes(states, h, h.len());
    let s = states.last();
    if s.open is Some {
        assert forall|k: int| 0 <= k < report.episodes@.len() implies describes(
            #[trigger] report.episodes@[k],
            h,
            h.len(),
            runs(states[0], h, h.len())[k],
        ) by {
            if k < s.episodes@.len() {
                assert(report.episodes@.drop_last()[k] == s.episodes@[k]);
            }
        }
    }
}

/// A report has an episode exactly when some observation spilled.
pub proof fn law_spilled_iff_some_observation_spills(
    states: Seq<TrackerState>,
    h: Seq<RawObservation>,
    measurable: bool,
    report: SpillReport,
)
    requires
        is_trace(states, h),
        reports(states.last(), measurable, report),
    ensures
        report.episodes@.len() > 0 <==> exists|i: int|
            0 <= i < h.len() && #[trigger] spills_at(states[0], h, i),
{
    law_episodes_are_runs(states, h, measurable, report);
    law_runs_are_maximal(states[0], h, h.len());
    let r = runs(states[0], h, h.len());
    if r.len() > 0 {
        assert(spills_at(states[0], h, r[0].0));
    }
}

/// Whether the clock never went back.
pub open spec fn times_ascend(h: Seq<RawObservation>) -> bool {
    forall|i: int, j: int|
        0 <= i <= j < h.len() ==> (#[trigger] h[i]).at@ <= (#[trigger] h[j]).at@
}

proof fn lemma_time_spent(states: Seq<TrackerState>, h: Seq<RawObservation>, n: int)
    requires
        is_trace(states, h),
        times_ascend(h),
        0 < n <= h.len(),
    ensures
        match states[n].open {
            None => total_nanos(states[n].episodes@) <= h[n - 1].at@ - h[0].at@,
            Some(e) => e.last_at@ == h[n - 1].at@ && e.start_at@ <= e.last_at@ && total_nanos(
                states[n].episodes@,
            ) <= e.start_at@ - h[0].at@,
        },
    decreases n,
{
    assert(states[n - 1].advances_to(h[n - 1], states[n - 1 + 1]));
    assert(h[0].at@ <= h[n - 1].at@);
    if n > 1 {
        lemma_time_spent(states, h, n - 1);
        assert(h[n - 2].at@ <= h[n - 1].at@);
    } else {
        assert(total_nanos(states[0].episodes@) == 0);
    }
}

/// On a clock that never goes back, the episodes together last no longer than the time
/// from the first observation to the last.
pub proof fn law_total_within_span(
    states: Seq<TrackerState>,
    h: Seq<RawObservation>,
    measurable: bool,
    r: SpillReport,
)
    requires
        is_trace(states, h),
        times_ascend(h),
        reports(states.last(), measurable, r),
    ensures
        h.len() == 0 ==> total_nanos(r.episodes@) == 0,
        h.len() > 0 ==> total_nanos(r.episodes@) <= h.last().at@ - h[0].at@,
{
    if h.len() > 0 {
        lemma_time_spent(states, h, h.len() as int);
    }
}

proof fn lemma_counted_once(states: Seq<TrackerState>, h: Seq<RawObservation>, n: int)
    requires
        is_trace(states, h),
        0 <= n <= h.len(),
        n <= usize::MAX,
    ensures
        states[n].in_episodes() <= states[n].observations,
    decreases n,
{
    if n > 0 {
        lemma_counted_once(states, h, n - 1);
        law_peaks_and_counters(states, h, n - 1);
        assert(states[n - 1].advances_to(h[n - 1], states[n - 1 + 1]));
        lemma_counts_step(states[n - 1], h[n - 1], states[n]);
    }
}

/// The episodes of a report together count at most the observations of the report, which
/// are those of the history, as long as the counter can hold them.
pub proof fn law_episodes_count_observations_once(
    states: Seq<TrackerState>,
    h: Seq<RawObservation>,
    measurable: bool,
    r: SpillReport,
)
    requires
        is_trace(states, h),
        h.len() <= usize::MAX,
        reports(states.last(), measurable, r),
    ensures
        r.observations == h.len(),
        total_observations(r.episodes@) <= r.observations,
{
    lemma_counted_once(states, h, h.len() as int);
    law_peaks_and_counters(states, h, h.len() as int);
}

// ---------------------------------------------------------------------------
// In figures
// ---------------------------------------------------------------------------

/// Whether the first figure reached the second plus a margin, as far as 64 bits go.
pub open spec fn reached(figure: u64, base: u64, margin: u64) -> bool {
    figure >= base + margin || (base + margin > u64::MAX && figure == u64::MAX)
}

/// A tracker starts without an observation, with saturation told by the capacity, and with a
/// margin of 256 MiB.
pub proof fn law_default_thresholds(s: TrackerState)
    requires
        call_ensures(TrackerState::new, (), s),
    ensures
        s.dedicated_threshold_override is None,
        s.shared_growth_bytes == 256 * 1024 * 1024,
        s.observations == 0,
        s.episodes@.len() == 0,
        s.open is None,
        s.baseline_shared is None,
        !s.latched,
        !s.currently,
{
}

/// When an observation spills, in both directions. Dedicated memory must have reached the
/// threshold set or, without one, 85 hundredths of the capacity; and shared memory must have
/// risen over the first reading by the margin. Without a known capacity and without a
/// threshold nothing spills.
pub proof fn law_spill_condition(s: TrackerState, o: RawObservation, next: TrackerState)
    requires
        s.advances_to(o, next),
    ensures
        ({
            let base = if s.baseline_shared is Some {
                s.baseline_shared->0
            } else {
                o.shared_bytes
            };
            let risen = reached(o.shared_bytes, base, s.shared_growth_bytes);
            &&& s.dedicated_threshold_override is Some ==> (next.currently <==> o.dedicated_bytes
                >= s.dedicated_threshold_override->0 && risen)
            &&& s.dedicated_threshold_override is None && o.limit_bytes >= 100 ==> (next.currently
                <==> o.dedicated_bytes >= (o.limit_bytes / 100) * 85 && risen)
            &&& s.dedicated_threshold_override is None && o.limit_bytes < 100 ==> !next.currently
            &&& s.dedicated_threshold_override is None && o.limit_bytes >= 100 && 100
                * o.dedicated_bytes >= 85 * o.limit_bytes && risen ==> next.currently
            &&& s.dedicated_threshold_override is None && next.currently ==> 100
                * o.dedicated_bytes > 85 * o.limit_bytes - 85 * 100
            &&& next.latched <==> s.latched || next.currently
        }),
{
    let q = o.limit_bytes / 100;
    assert(100 * q <= o.limit_bytes < 100 * q + 100);
}

/// With the default thresholds, an observation of a history spills exactly when dedicated
/// memory is at 85 percent of a known capacity and shared memory is 256 MiB above its first
/// reading; so does the tracker then say, and so it says for good that it has spilled.
pub proof fn law_default_detection(states: Seq<TrackerState>, h: Seq<RawObservation>, i: int)
    requires
        is_trace(states, h),
        states[0].dedicated_threshold_override is None,
        states[0].shared_growth_bytes == 256 * 1024 * 1024,
        0 <= i < h.len(),
    ensures
        states[i + 1].currently <==> h[i].limit_bytes >= 100 && h[i].dedicated_bytes >= (
        h[i].limit_bytes / 100) * 85 && reached(
            h[i].shared_bytes,
            h[0].shared_bytes,
            (256 * 1024 * 1024) as u64,
        ),
        states[i + 1].currently ==> states.last().latched,
{
    lemma_thresholds_and_baseline(states, h, i);
    assert(states[i].advances_to(h[i], states[i + 1]));
    law_spill_condition(states[i], h[i], states[i + 1]);
    if states[i + 1].currently {
        law_latch_is_sticky(states, h, i + 1, h.len() as int);
    }
}

/// With the default thresholds, a report has an episode exactly when some observation had
/// dedicated memory at 85 percent of a known capacity and shared memory 256 MiB above its
/// first reading.
pub proof fn law_default_report(
    states: Seq<TrackerState>,
    h: Seq<RawObservation>,
    measurable: bool,
    r: SpillReport,
)
    requires
        is_trace(states, h),
        states[0].dedicated_threshold_override is None,
        states[0].shared_growth_bytes == 256 * 1024 * 1024,
        reports(states.last(), measurable, r),
    ensures
        r.episodes@.len() > 0 <==> exists|i: int|
            #![trigger h[i]]
            0 <= i < h.len() && h[i].limit_bytes >= 100 && h[i].dedicated_bytes >= (
            h[i].limit_bytes / 100) * 85 && reached(
                h[i].shared_bytes,
                h[0].shared_bytes,
                (256 * 1024 * 1024) as u64,
            ),
{
    law_spilled_iff_some_observation_spills(states, h, measurable, r);
    if r.episodes@.len() > 0 {
        let i = choose|i: int| 0 <= i < h.len() && #[trigger] spills_at(states[0], h, i);
        law_flags(states, h, i + 1);
        law_default_detection(states, h, i);
        let o = h[i];
    }
    if exists|i: int|
        #![trigger h[i]]
        0 <= i < h.len() && h[i].limit_bytes >= 100 && h[i].dedicated_bytes >= (h[i].limit_bytes
            / 100) * 85 && reached(
            h[i].shared_bytes,
            h[0].shared_bytes,
            (256 * 1024 * 1024) as u64,
        ) {
        let i = choose|i: int|
            #![trigger h[i]]
            0 <= i < h.len() && h[i].limit_bytes >= 100 && h[i].dedicated_bytes >= (
            h[i].limit_bytes / 100) * 85 && reached(
                h[i].shared_bytes,
                h[0].shared_bytes,
                (256 * 1024 * 1024) as u64,
            );
        law_default_detection(states, h, i);
        law_flags(states, h, i + 1);
        assert(spills_at(states[0], h, i));
    }
}

/// The figures of a report are those of the history: the first shared reading, the largest
/// dedicated and the largest shared reading, the latest capacity and the number of
/// observations. Without an observation all are 0, and there is no episode.
pub proof fn law_report_figures(
    states: Seq<TrackerState>,
    h: Seq<RawObservation>,
    measurable: bool,
    r: SpillReport,
)
    requires
        is_trace(states, h),
        h.len() <= usize::MAX,
        reports(states.last(), measurable, r),
    ensures
        r.measurable == measurable,
        r.observations == h.len(),
        h.len() == 0 ==> r.baseline_shared_bytes == 0 && r.peak_dedicated_bytes == 0
            && r.peak_shared_bytes == 0 && r.dedicated_limit_bytes == 0 && r.episodes@.len() == 0,
        h.len() > 0 ==> r.baseline_shared_bytes == h[0].shared_bytes && r.dedicated_limit_bytes
            == h.last().limit_bytes,
        forall|i: int|
            0 <= i < h.len() ==> (#[trigger] h[i]).dedicated_bytes <= r.peak_dedicated_bytes
                && h[i].shared_bytes <= r.peak_shared_bytes,
        h.len() > 0 ==> exists|i: int|
            0 <= i < h.len() && (#[trigger] h[i]).dedicated_bytes == r.peak_dedicated_bytes,
        h.len() > 0 ==> exists|i: int|
            0 <= i < h.len() && (#[trigger] h[i]).shared_bytes == r.peak_shared_bytes,
{
    law_peaks_and_counters(states, h, h.len() as int);
    if h.len() > 0 {
        law_baseline_is_first_reading(states, h);
    }
}

proof fn lemma_run_peak(h: Seq<RawObservation>, a: int, b: int)
    requires
        0 <= a <= b < h.len(),
    ensures
        forall|i: int| a <= i <= b ==> (#[trigger] h[i]).shared_bytes <= run_peak(h, a, b),
        exists|i: int| a <= i <= b && (#[trigger] h[i]).shared_bytes == run_peak(h, a, b),
    decreases b - a,
{
    if a < b {
        lemma_run_peak(h, a, b - 1);
        let i = choose|i: int| a <= i <= b - 1 && (#[trigger] h[i]).shared_bytes == run_peak(h, a, b - 1);
        assert(h[i].shared_bytes == run_peak(h, a, b) || h[b].shared_bytes == run_peak(h, a, b));
    } else {
        assert(h[a].shared_bytes == run_peak(h, a, b));
    }
}

/// Each episode tells of its run of observations, the first `a` to the last `b`: labelled by
/// the first, ended by the observation behind the last, with the largest shared reading and
/// the number of observations of the run, and lasting from the first to the last.
pub proof fn law_episode_figures(
    states: Seq<TrackerState>,
    h: Seq<RawObservation>,
    measurable: bool,
    r: SpillReport,
    k: int,
)
    requires
        is_trace(states, h),
        h.len() <= usize::MAX,
        reports(states.last(), measurable, r),
        0 <= k < r.episodes@.len(),
    ensures
        ({
            let e = r.episodes@[k];
            let a = runs(states[0], h, h.len())[k].0;
            let b = runs(states[0], h, h.len())[k].1;
            &&& 0 <= a <= b < h.len()
            &&& forall|i: int| a <= i <= b ==> (#[trigger] states[i + 1]).currently
            &&& a > 0 ==> !states[a].currently
            &&& b + 1 < h.len() ==> !states[b + 2].currently
            &&& e.start_label == h[a].label
            &&& b + 1 < h.len() ==> e.end_label == Some(h[b + 1].label)
            &&& b + 1 == h.len() ==> e.end_label is None
            &&& forall|i: int| a <= i <= b ==> (#[trigger] h[i]).shared_bytes <= e.peak_shared_bytes
            &&& exists|i: int| a <= i <= b && (#[trigger] h[i]).shared_bytes == e.peak_shared_bytes
            &&& e.observations == b - a + 1
            &&& h[b].at@ >= h[a].at@ ==> e.duration@ == h[b].at@ - h[a].at@
            &&& h[b].at@ < h[a].at@ ==> e.duration@ == 0
        }),
{
    law_episodes_are_runs(states, h, measurable, r);
    law_runs_are_maximal(states[0], h, h.len());
    let run = runs(states[0], h, h.len())[k];
    let a = run.0;
    let b = run.1;
    assert(describes(r.episodes@[k], h, h.len(), run));
    lemma_run_peak(h, a, b);
    assert forall|i: int| a <= i <= b implies (#[trigger] states[i + 1]).currently by {
        assert(spills_at(states[0], h, i));
        law_flags(states, h, i + 1);
    }
    law_flags(states, h, a);
    if b + 1 < h.len() {
        law_flags(states, h, b + 2);
    }
}

/// The durations of episodes, in nanoseconds.
pub open spec fn durations(episodes: Seq<SpillEpisode>) -> Seq<nat> {
    episodes.map_values(|e: SpillEpisode| e.duration@)
}

/// The sum of spans.
pub open spec fn span_sum(s: Seq<nat>) -> nat {
    s.fold_left(0nat, |acc: nat, d: nat| acc + d)
}

proof fn lemma_span_sum(episodes: Seq<SpillEpisode>)
    ensures
        total_nanos(episodes) == span_sum(durations(episodes)),
    decreases episodes.len(),
{
    if episodes.len() > 0 {
        lemma_span_sum(episodes.drop_last());
        assert(durations(episodes).drop_last() =~= durations(episodes.drop_last()));
    }
}

/// The total time of a report is the sum of the durations of its episodes.
pub proof fn law_total_duration(r: SpillReport, d: Duration)
    requires
        call_ensures(SpillReport::total_spill_duration, (&r,), d),
    ensures
        d@ == span_sum(durations(r.episodes@)),
{
    lemma_span_sum(r.episodes@);
}

/// The longest episode lasts at least as long as every other, and longer than those before
/// it; there is one exactly where something spilled.
pub proof fn law_longest_episode(r: SpillReport, e: Option<&SpillEpisode>, spilled: bool)
    requires
        call_ensures(SpillReport::longest_episode, (&r,), e),
        call_ensures(SpillReport::spilled, (&r,), spilled),
    ensures
        spilled <==> r.episodes@.len() > 0,
        e is Some <==> spilled,
        e is Some ==> exists|k: int|
            0 <= k < r.episodes@.len() && *e->0 == #[trigger] r.episodes@[k] && (forall|j: int|
                0 <= j < r.episodes@.len() ==> (#[trigger] r.episodes@[j]).duration@
                    <= r.episodes@[k].duration@) && (forall|j: int|
                0 <= j < k ==> (#[trigger] r.episodes@[j]).duration@ < r.episodes@[k].duration@),
{
    if e is Some {
        let k = choose|k: int| is_longest(r.episodes@, k) && *e->0 == r.episodes@[k];
        let x = r.episodes@[k];
    }
}

/// The first label of a report is that under which its first episode starts.
pub proof fn law_first_label(r: SpillReport, l: Option<&str>)
    requires
        call_ensures(SpillReport::first_spill_label, (&r,), l),
    ensures
        r.episodes@.len() == 0 ==> l is None,
        r.episodes@.len() > 0 ==> l is Some && l->0@ == r.episodes@[0].start_label@,
{
}

} // verus!
