//! GPU spill detection: residency in shared system memory, folded into episodes.
//!
//! An observation spills when dedicated memory is near its capacity and shared memory
//! has grown past its first reading. A maximal run of spilling observations is an
//! episode.
use crate::text::clone_opt;
use crate::time::{lemma_same_span, Duration, MAX_NANOS};
use vstd::prelude::*;

verus! {

/// Share of the dedicated capacity, in percent, from which memory counts as saturated.
pub const DEFAULT_DEDICATED_THRESHOLD_PCT: u64 = 85;

/// Growth of shared memory over its first reading from which it counts as risen.
pub const DEFAULT_SHARED_GROWTH_BYTES: u64 = 268_435_456;

/// One maximal run of spilling observations.
#[derive(Debug, PartialEq, Eq)]
pub struct SpillEpisode {
    /// Label of the first observation of the run.
    pub start_label: String,
    /// Label of the first observation after the run; `None` when the run was still going
    /// on at the end.
    pub end_label: Option<String>,
    /// Highest shared reading in the run.
    pub peak_shared_bytes: u64,
    /// Number of observations in the run.
    pub observations: usize,
    /// Time from the first observation of the run to its last.
    pub duration: Duration,
}

impl Clone for SpillEpisode {
    fn clone(&self) -> (r: Self)
        ensures
            r == *self,
    {
        SpillEpisode {
            start_label: self.start_label.clone(),
            end_label: clone_opt(&self.end_label),
            peak_shared_bytes: self.peak_shared_bytes,
            observations: self.observations,
            duration: self.duration,
        }
    }
}

/// The summary of a run.
#[derive(Debug)]
pub struct SpillReport {
    /// Every episode, in order of observation.
    pub episodes: Vec<SpillEpisode>,
    /// Highest dedicated reading; 0 when nothing was observed.
    pub peak_dedicated_bytes: u64,
    /// Dedicated capacity of the adapter; 0 when unknown.
    pub dedicated_limit_bytes: u64,
    /// Highest shared reading; 0 when nothing was observed.
    pub peak_shared_bytes: u64,
    /// First shared reading; 0 when nothing was observed.
    pub baseline_shared_bytes: u64,
    /// Number of observations.
    pub observations: usize,
    /// Whether there was a source of measurements at all.
    pub measurable: bool,
}

impl Clone for SpillReport {
    fn clone(&self) -> (r: Self)
        ensures
            r.episodes@ == self.episodes@,
            r == (SpillReport { episodes: r.episodes, ..*self }),
    {
        let mut episodes: Vec<SpillEpisode> = Vec::new();
        let mut i: usize = 0;
        while i < self.episodes.len()
            invariant
                i <= self.episodes.len(),
                episodes@ == self.episodes@.take(i as int),
            decreases self.episodes.len() - i,
        {
            episodes.push(self.episodes[i].clone());
            assert(self.episodes@.take(i + 1) =~= self.episodes@.take(i as int).push(
                self.episodes@[i as int],
            ));
            i += 1;
        }
        assert(self.episodes@.take(i as int) =~= self.episodes@);
        SpillReport {
            episodes,
            peak_dedicated_bytes: self.peak_dedicated_bytes,
            dedicated_limit_bytes: self.dedicated_limit_bytes,
            peak_shared_bytes: self.peak_shared_bytes,
            baseline_shared_bytes: self.baseline_shared_bytes,
            observations: self.observations,
            measurable: self.measurable,
        }
    }
}

/// The sum of the durations of episodes, in nanoseconds.
pub open spec fn total_nanos(episodes: Seq<SpillEpisode>) -> nat
    decreases episodes.len(),
{
    if episodes.len() == 0 {
        0
    } else {
        total_nanos(episodes.drop_last()) + episodes.last().duration@
    }
}

proof fn lemma_total_nanos_monotone(episodes: Seq<SpillEpisode>, n: int)
    requires
        0 <= n <= episodes.len(),
    ensures
        total_nanos(episodes.take(n)) <= total_nanos(episodes),
    decreases episodes.len() - n,
{
    if n < episodes.len() {
        lemma_total_nanos_monotone(episodes, n + 1);
        assert(episodes.take(n + 1).drop_last() =~= episodes.take(n));
    } else {
        assert(episodes.take(n) =~= episodes);
    }
}

/// The sum of the observation counts of episodes.
pub open spec fn total_observations(episodes: Seq<SpillEpisode>) -> nat
    decreases episodes.len(),
{
    if episodes.len() == 0 {
        0
    } else {
        total_observations(episodes.drop_last()) + episodes.last().observations as nat
    }
}

/// Whether episode `k` is the longest, the earliest among equals.
pub open spec fn is_longest(episodes: Seq<SpillEpisode>, k: int) -> bool {
    &&& 0 <= k < episodes.len()
    &&& forall|j: int| 0 <= j < episodes.len() ==> (#[trigger] episodes[j]).duration@ <= episodes[k].duration@
    &&& forall|j: int| 0 <= j < k ==> (#[trigger] episodes[j]).duration@ < episodes[k].duration@
}

/// Two episodes cannot both be the longest.
pub proof fn law_longest_is_unique(episodes: Seq<SpillEpisode>, k: int, l: int)
    requires
        is_longest(episodes, k),
        is_longest(episodes, l),
    ensures
        k == l,
{
    if k < l {
        assert(episodes[k].duration@ < episodes[l].duration@);
        assert(episodes[l].duration@ <= episodes[k].duration@);
    } else if l < k {
        assert(episodes[l].duration@ < episodes[k].duration@);
        assert(episodes[k].duration@ <= episodes[l].duration@);
    }
}

impl SpillReport {
    /// Whether any episode was observed.
    pub fn spilled(&self) -> (r: bool)
        ensures
            r == (self.episodes@.len() > 0),
    {
        self.episodes.len() > 0
    }

    /// Label of the first spilling observation.
    pub fn first_spill_label(&self) -> (r: Option<&str>)
        ensures
            r is Some <==> self.episodes@.len() > 0,
            r matches Some(l) ==> l@ == self.episodes@[0].start_label@,
    {
        if self.episodes.len() == 0 {
            None
        } else {
            Some(self.episodes[0].start_label.as_str())
        }
    }

    /// The sum of all episode durations, or `None` where it exceeds the longest span.
    pub fn checked_total_spill_duration(&self) -> (d: Option<Duration>)
        ensures
            d is Some <==> total_nanos(self.episodes@) <= MAX_NANOS,
            d matches Some(d) ==> d@ == total_nanos(self.episodes@),
    {
        let mut sum: u128 = 0;
        let mut i: usize = 0;
        assert(self.episodes@.take(0) =~= seq![]);
        while i < self.episodes.len()
            invariant
                i <= self.episodes.len(),
                sum <= MAX_NANOS,
                sum == total_nanos(self.episodes@.take(i as int)),
            decreases self.episodes.len() - i,
        {
            sum = sum + self.episodes[i].duration.as_nanos();
            i += 1;
            proof {
                assert(self.episodes@.take(i as int).drop_last() =~= self.episodes@.take(i - 1));
                lemma_total_nanos_monotone(self.episodes@, i as int);
            }
            if sum > MAX_NANOS {
                return None;
            }
        }
        assert(self.episodes@.take(i as int) =~= self.episodes@);
        Duration::from_nanos(sum)
    }

    /// The sum of all episode durations.
    pub fn total_spill_duration(&self) -> (d: Duration)
        requires
            total_nanos(self.episodes@) <= MAX_NANOS,
        ensures
            d@ == total_nanos(self.episodes@),
    {
        match self.checked_total_spill_duration() {
            Some(d) => d,
            None => Duration::zero(),
        }
    }

    /// The longest episode; among equals the earliest.
    pub fn longest_episode(&self) -> (r: Option<&SpillEpisode>)
        ensures
            r is Some <==> self.episodes@.len() > 0,
            r matches Some(e) ==> exists|k: int|
                is_longest(self.episodes@, k) && *e == self.episodes@[k],
    {
        if self.episodes.len() == 0 {
            return None;
        }
        let mut best: usize = 0;
        let mut i: usize = 1;
        while i < self.episodes.len()
            invariant
                1 <= i <= self.episodes.len(),
                best < i,
                forall|j: int|
                    0 <= j < i ==> (#[trigger] self.episodes@[j]).duration@
                        <= self.episodes@[best as int].duration@,
                forall|j: int|
                    0 <= j < best ==> (#[trigger] self.episodes@[j]).duration@
                        < self.episodes@[best as int].duration@,
            decreases self.episodes.len() - i,
        {
            if !self.episodes[best].duration.at_least(&self.episodes[i].duration) {
                best = i;
            }
            i += 1;
        }
        assert(is_longest(self.episodes@, best as int));
        Some(&self.episodes[best])
    }
}

// ---------------------------------------------------------------------------
// The fold
// ---------------------------------------------------------------------------

/// One reading of the adapter.
pub struct RawObservation {
    /// Resident dedicated memory in bytes.
    pub dedicated_bytes: u64,
    /// Resident shared memory in bytes.
    pub shared_bytes: u64,
    /// Dedicated capacity in bytes; 0 when unknown.
    pub limit_bytes: u64,
    /// The caller's label.
    pub label: String,
    /// Monotonic time of the reading.
    pub at: Duration,
}

/// An episode that has started and not ended.
pub struct OpenEpisode {
    /// Label of the first observation.
    pub start_label: String,
    /// Time of the first observation.
    pub start_at: Duration,
    /// Time of the latest observation.
    pub last_at: Duration,
    /// Highest shared reading so far.
    pub peak_shared: u64,
    /// Observations so far.
    pub observations: usize,
}

/// The time from `start` to `end`, none where the clock went back.
pub open spec fn elapsed_nanos(start: nat, end: nat) -> nat {
    if end >= start {
        (end - start) as nat
    } else {
        0
    }
}

/// Whether `e` is what the open episode `o` becomes when it ends with `end_label`.
pub open spec fn seals(e: SpillEpisode, o: OpenEpisode, end_label: Option<String>) -> bool {
    &&& e.start_label == o.start_label
    &&& e.end_label == end_label
    &&& e.peak_shared_bytes == o.peak_shared
    &&& e.observations == o.observations
    &&& e.duration@ == elapsed_nanos(o.start_at@, o.last_at@)
}

impl OpenEpisode {
    /// End the episode.
    pub fn into_episode(self, end_label: Option<String>) -> (e: SpillEpisode)
        ensures
            seals(e, self, end_label),
    {
        SpillEpisode {
            start_label: self.start_label,
            end_label,
            peak_shared_bytes: self.peak_shared,
            observations: self.observations,
            duration: self.last_at.saturating_sub(self.start_at),
        }
    }
}

/// What a tracker knows after some observations.
pub struct TrackerState {
    /// Absolute saturation threshold in bytes, in place of the percentage.
    pub dedicated_threshold_override: Option<u64>,
    /// Shared growth margin in bytes.
    pub shared_growth_bytes: u64,
    /// First shared reading.
    pub baseline_shared: Option<u64>,
    /// The episode in progress.
    pub open: Option<OpenEpisode>,
    /// Ended episodes, in order of observation.
    pub episodes: Vec<SpillEpisode>,
    /// Whether any observation spilled.
    pub latched: bool,
    /// Whether the latest observation spilled.
    pub currently: bool,
    /// Highest dedicated reading.
    pub peak_dedicated: u64,
    /// Highest shared reading.
    pub peak_shared: u64,
    /// Latest capacity.
    pub limit_seen: u64,
    /// Number of observations.
    pub observations: usize,
}

/// The saturation threshold: the override, or the percentage of a capacity of at least
/// 100 bytes; with neither, nothing counts as saturated.
pub open spec fn saturation_threshold(over: Option<u64>, limit: u64) -> Option<int> {
    match over {
        Some(t) => Some(t as int),
        None => if limit >= 100 {
            Some((limit / 100) * DEFAULT_DEDICATED_THRESHOLD_PCT)
        } else {
            None
        },
    }
}

/// `a + b`, at most `u64::MAX`.
pub open spec fn sum_clamped(a: u64, b: u64) -> int {
    if a + b > u64::MAX {
        u64::MAX as int
    } else {
        a + b
    }
}

/// Whether an observation spills: dedicated memory saturated, and shared memory risen by
/// the margin over the baseline.
pub open spec fn spills(over: Option<u64>, growth: u64, baseline: u64, o: RawObservation) -> bool {
    match saturation_threshold(over, o.limit_bytes) {
        Some(t) => o.dedicated_bytes >= t && o.shared_bytes >= sum_clamped(baseline, growth),
        None => false,
    }
}

/// `n + 1`, at most `usize::MAX`.
pub open spec fn count_next(n: usize) -> usize {
    if n == usize::MAX {
        n
    } else {
        (n + 1) as usize
    }
}

/// The larger of two byte counts.
pub open spec fn larger(a: u64, b: u64) -> u64 {
    if a >= b {
        a
    } else {
        b
    }
}

impl TrackerState {
    /// No observation yet, default thresholds.
    pub open spec fn is_fresh(self) -> bool {
        &&& self.dedicated_threshold_override is None
        &&& self.shared_growth_bytes == DEFAULT_SHARED_GROWTH_BYTES
        &&& self.unobserved()
    }

    /// No observation yet.
    pub open spec fn unobserved(self) -> bool {
        &&& self.baseline_shared is None
        &&& self.open is None
        &&& self.episodes@.len() == 0
        &&& !self.latched
        &&& !self.currently
        &&& self.peak_dedicated == 0
        &&& self.peak_shared == 0
        &&& self.limit_seen == 0
        &&& self.observations == 0
    }

    /// What holds of every state that observations lead to: the latch is set exactly when
    /// there is an episode, an episode is open exactly while spilling, and the baseline
    /// is there from the first observation on. Ended episodes have an end, no episode
    /// exceeds the shared peak, and the episodes count no observation twice.
    pub open spec fn well_formed(self) -> bool {
        &&& self.latched <==> (self.open is Some || self.episodes@.len() > 0)
        &&& self.currently <==> self.open is Some
        &&& self.baseline_shared is None <==> self.observations == 0
        &&& forall|i: int|
            0 <= i < self.episodes@.len() ==> (#[trigger] self.episodes@[i]).end_label is Some
                && self.episodes@[i].peak_shared_bytes <= self.peak_shared
        &&& self.open matches Some(e) ==> e.peak_shared <= self.peak_shared
        &&& self.observations < usize::MAX ==> self.in_episodes() <= self.observations
    }

    /// The observations counted in episodes, ended or open.
    pub open spec fn in_episodes(self) -> nat {
        total_observations(self.episodes@) + match self.open {
            Some(e) => e.observations as nat,
            None => 0,
        }
    }

    /// The baseline an observation is compared with.
    pub open spec fn baseline_for(self, o: RawObservation) -> u64 {
        match self.baseline_shared {
            Some(b) => b,
            None => o.shared_bytes,
        }
    }

    /// Whether the observation spills in this state.
    pub open spec fn flags(self, o: RawObservation) -> bool {
        spills(
            self.dedicated_threshold_override,
            self.shared_growth_bytes,
            self.baseline_for(o),
            o,
        )
    }

    /// Whether `next` is this state after the observation `o`.
    pub open spec fn advances_to(self, o: RawObservation, next: TrackerState) -> bool {
        &&& next.dedicated_threshold_override == self.dedicated_threshold_override
        &&& next.shared_growth_bytes == self.shared_growth_bytes
        &&& next.baseline_shared == Some(self.baseline_for(o))
        &&& next.peak_dedicated == larger(self.peak_dedicated, o.dedicated_bytes)
        &&& next.peak_shared == larger(self.peak_shared, o.shared_bytes)
        &&& next.limit_seen == o.limit_bytes
        &&& next.observations == count_next(self.observations)
        &&& next.currently == self.flags(o)
        &&& next.latched == (self.latched || self.flags(o))
        &&& if self.flags(o) {
            // The open episode goes on, or a new one starts here.
            &&& next.episodes@ == self.episodes@
            &&& next.open matches Some(e) && e == (match self.open {
                Some(e) => OpenEpisode {
                    last_at: o.at,
                    peak_shared: larger(e.peak_shared, o.shared_bytes),
                    observations: count_next(e.observations),
                    ..e
                },
                None => OpenEpisode {
                    start_label: o.label,
                    start_at: o.at,
                    last_at: o.at,
                    peak_shared: o.shared_bytes,
                    observations: 1,
                },
            })
        } else {
            // The open episode, if any, ends here.
            &&& next.open is None
            &&& match self.open {
                Some(e) => next.episodes@.len() == self.episodes@.len() + 1
                    && next.episodes@.drop_last() == self.episodes@ && seals(
                    next.episodes@.last(),
                    e,
                    Some(o.label),
                ),
                None => next.episodes@ == self.episodes@,
            }
        }
    }

    /// The state before any observation, with the default thresholds.
    pub fn new() -> (s: TrackerState)
        ensures
            s.is_fresh(),
            s.well_formed(),
    {
        TrackerState {
            dedicated_threshold_override: None,
            shared_growth_bytes: DEFAULT_SHARED_GROWTH_BYTES,
            baseline_shared: None,
            open: None,
            episodes: Vec::new(),
            latched: false,
            currently: false,
            peak_dedicated: 0,
            peak_shared: 0,
            limit_seen: 0,
            observations: 0,
        }
    }
}

/// An observation adds to the counts of the episodes at most what it adds to the counter.
pub proof fn lemma_counts_step(s: TrackerState, o: RawObservation, next: TrackerState)
    requires
        s.advances_to(o, next),
        s.observations < usize::MAX,
        s.in_episodes() <= s.observations,
    ensures
        next.in_episodes() <= next.observations,
{
}

fn max_u64(a: u64, b: u64) -> (m: u64)
    ensures
        m == larger(a, b),
{
    if a >= b {
        a
    } else {
        b
    }
}

fn next_count(n: usize) -> (m: usize)
    ensures
        m == count_next(n),
{
    if n == usize::MAX {
        n
    } else {
        n + 1
    }
}

/// Fold one observation into the state: peaks and counters, the spill condition, and the
/// episode that opens on a rising edge and ends on a falling one.
pub fn fold(state: &mut TrackerState, obs: RawObservation)
    ensures
        old(state).advances_to(obs, *final(state)),
        old(state).well_formed() ==> final(state).well_formed(),
{
    state.observations = next_count(state.observations);
    state.peak_dedicated = max_u64(state.peak_dedicated, obs.dedicated_bytes);
    state.peak_shared = max_u64(state.peak_shared, obs.shared_bytes);
    state.limit_seen = obs.limit_bytes;
    let baseline: u64 = match state.baseline_shared {
        Some(b) => b,
        None => obs.shared_bytes,
    };
    state.baseline_shared = Some(baseline);
    let threshold: Option<u64> = match state.dedicated_threshold_override {
        Some(t) => Some(t),
        None => if obs.limit_bytes >= 100 {
            Some(obs.limit_bytes / 100 * DEFAULT_DEDICATED_THRESHOLD_PCT)
        } else {
            None
        },
    };
    let spilling = match threshold {
        Some(t) => obs.dedicated_bytes >= t && obs.shared_bytes >= baseline.saturating_add(
            state.shared_growth_bytes,
        ),
        None => false,
    };
    assert(spilling == old(state).flags(obs));
    state.currently = spilling;
    if spilling {
        state.latched = true;
        match state.open.take() {
            Some(mut ep) => {
                ep.last_at = obs.at;
                ep.peak_shared = max_u64(ep.peak_shared, obs.shared_bytes);
                ep.observations = next_count(ep.observations);
                state.open = Some(ep);
            },
            None => {
                state.open = Some(
                    OpenEpisode {
                        start_label: obs.label,
                        start_at: obs.at,
                        last_at: obs.at,
                        peak_shared: obs.shared_bytes,
                        observations: 1,
                    },
                );
            },
        }
    } else {
        match state.open.take() {
            Some(ep) => {
                state.episodes.push(ep.into_episode(Some(obs.label)));
                assert(state.episodes@.drop_last() =~= old(state).episodes@);
            },
            None => {},
        }
    }
    proof {
        if old(state).well_formed() && old(state).observations < usize::MAX {
            lemma_counts_step(*old(state), obs, *state);
        }
    }
}

/// Whether `r` is the report of the state `s`.
pub open spec fn reports(s: TrackerState, measurable: bool, r: SpillReport) -> bool {
    &&& r.peak_dedicated_bytes == s.peak_dedicated
    &&& r.dedicated_limit_bytes == s.limit_seen
    &&& r.peak_shared_bytes == s.peak_shared
    &&& r.baseline_shared_bytes == (match s.baseline_shared {
        Some(b) => b,
        None => 0,
    })
    &&& r.observations == s.observations
    &&& r.measurable == measurable
    &&& match s.open {
        // An episode still open is the last one, without an end.
        Some(e) => r.episodes@.len() == s.episodes@.len() + 1 && r.episodes@.drop_last()
            == s.episodes@ && seals(r.episodes@.last(), e, None),
        None => r.episodes@ == s.episodes@,
    }
}

/// A state has one report: two reports of it agree in every figure and every episode.
pub proof fn law_report_is_determined(
    s: TrackerState,
    measurable: bool,
    a: SpillReport,
    b: SpillReport,
)
    requires
        reports(s, measurable, a),
        reports(s, measurable, b),
    ensures
        a.episodes@ == b.episodes@,
        a == (SpillReport { episodes: a.episodes, ..b }),
{
    if s.open is Some {
        lemma_same_span(a.episodes@.last().duration, b.episodes@.last().duration);
        assert(a.episodes@ =~= a.episodes@.drop_last().push(a.episodes@.last()));
        assert(b.episodes@ =~= b.episodes@.drop_last().push(b.episodes@.last()));
    }
}

/// The time spent in episodes, ended or open, in nanoseconds.
pub open spec fn spill_nanos(s: TrackerState) -> nat {
    total_nanos(s.episodes@) + match s.open {
        Some(e) => elapsed_nanos(e.start_at@, e.last_at@),
        None => 0,
    }
}

/// End any open episode and summarise the state.
pub fn state_into_report(state: TrackerState, measurable: bool) -> (r: SpillReport)
    ensures
        reports(state, measurable, r),
        state.well_formed() ==> (r.episodes@.len() > 0 <==> state.latched),
{
    let mut episodes = state.episodes;
    match state.open {
        Some(ep) => {
            episodes.push(ep.into_episode(None));
            assert(episodes@.drop_last() =~= state.episodes@);
        },
        None => {},
    }
    SpillReport {
        episodes,
        peak_dedicated_bytes: state.peak_dedicated,
        dedicated_limit_bytes: state.limit_seen,
        peak_shared_bytes: state.peak_shared,
        baseline_shared_bytes: match state.baseline_shared {
            Some(b) => b,
            None => 0,
        },
        observations: state.observations,
        measurable,
    }
}

} // verus!
