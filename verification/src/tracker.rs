//! The spill tracker: observations of one adapter over time.
use crate::error::{HypomnesisError, Result};
use crate::gpu::adapter::{adapter_counter_set_available, AdapterMemSample};
use crate::spill::{
    fold, reports, state_into_report, total_observations, RawObservation, SpillReport,
    TrackerState,
};
use crate::time::Duration;
use vstd::prelude::*;

verus! {

/// A tracker of spill on one adapter. The caller takes the samples and their times; a
/// tracker without a source of measurements ignores them.
pub struct SpillTracker {
    state: TrackerState,
    live: bool,
}

/// The observation that a sample makes, with its label and time.
pub open spec fn observation_of(s: AdapterMemSample, label: String, at: Duration) -> RawObservation {
    RawObservation {
        dedicated_bytes: s.dedicated_bytes,
        shared_bytes: s.shared_bytes,
        limit_bytes: s.limit_bytes,
        label,
        at,
    }
}

impl SpillTracker {
    /// What the tracker knows.
    pub closed spec fn state(&self) -> TrackerState {
        self.state
    }

    /// Whether there is a source of measurements.
    pub closed spec fn live(&self) -> bool {
        self.live
    }

    /// What holds of every tracker: its state is one that observations lead to, and
    /// without a source of measurements nothing was observed.
    pub open spec fn well_formed(&self) -> bool {
        &&& self.state().well_formed()
        &&& !self.live() ==> self.state().unobserved()
    }

    /// A tracker, from the outcome of opening the source of measurements: an error, or
    /// whether there is a source. Without one the tracker still works and observes
    /// nothing.
    pub fn new(source: Result<bool>) -> (r: Result<SpillTracker>)
        ensures
            match source {
                Err(e) => r == Err::<SpillTracker, HypomnesisError>(e),
                Ok(live) => r matches Ok(t) && t.live() == live && t.state().is_fresh()
                    && t.well_formed(),
            },
    {
        match source {
            Err(e) => Err(e),
            Ok(live) => Ok(SpillTracker { state: TrackerState::new(), live }),
        }
    }

    /// Set the saturation threshold to a number of bytes, in place of the percentage.
    pub fn with_dedicated_threshold(self, bytes: u64) -> (t: SpillTracker)
        ensures
            t.live() == self.live(),
            t.state() == (TrackerState {
                dedicated_threshold_override: Some(bytes),
                ..self.state()
            }),
            self.well_formed() ==> t.well_formed(),
    {
        let mut t = self;
        t.state.dedicated_threshold_override = Some(bytes);
        t
    }

    /// Set the margin by which shared memory must grow.
    pub fn with_shared_growth_threshold(self, bytes: u64) -> (t: SpillTracker)
        ensures
            t.live() == self.live(),
            t.state() == (TrackerState { shared_growth_bytes: bytes, ..self.state() }),
            self.well_formed() ==> t.well_formed(),
    {
        let mut t = self;
        t.state.shared_growth_bytes = bytes;
        t
    }

    /// Take one observation: the sample under its label and time. Without a source, or
    /// when the sample failed, nothing changes.
    pub fn observe(&mut self, label: String, sample: Option<AdapterMemSample>, at: Duration)
        ensures
            final(self).live() == old(self).live(),
            match sample {
                Some(s) => if old(self).live() {
                    old(self).state().advances_to(
                        observation_of(s, label, at),
                        final(self).state(),
                    )
                } else {
                    *final(self) == *old(self)
                },
                None => *final(self) == *old(self),
            },
            old(self).well_formed() ==> final(self).well_formed(),
    {
        if !self.live {
            return;
        }
        match sample {
            Some(s) => {
                fold(
                    &mut self.state,
                    RawObservation {
                        dedicated_bytes: s.dedicated_bytes,
                        shared_bytes: s.shared_bytes,
                        limit_bytes: s.limit_bytes,
                        label,
                        at,
                    },
                );
            },
            None => {},
        }
    }

    /// Whether the latest observation spilled.
    pub fn is_spilling(&self) -> (r: bool)
        ensures
            r == self.state().currently,
    {
        self.state.currently
    }

    /// Whether any observation spilled.
    pub fn has_spilled(&self) -> (r: bool)
        ensures
            r == self.state().latched,
    {
        self.state.latched
    }

    /// Whether there is a source of measurements.
    pub fn is_measurable(&self) -> (r: bool)
        ensures
            r == self.live(),
    {
        self.live
    }

    /// End the history and summarise it.
    pub fn into_report(self) -> (r: SpillReport)
        ensures
            reports(self.state(), self.live(), r),
            self.well_formed() ==> (r.episodes@.len() > 0 <==> self.state().latched),
    {
        state_into_report(self.state, self.live)
    }
}

/// Whether spill can be measured on this system, from the enumeration of the adapter
/// counters; `None` on a platform without them.
pub fn is_spill_measurable(enumerated: &Option<Result<Option<Vec<String>>>>) -> (r: bool)
    ensures
        r == (enumerated matches Some(e) && (e matches Ok(Some(v)) && v@.len() > 0)),
{
    match enumerated {
        Some(e) => adapter_counter_set_available(e),
        None => false,
    }
}

/// What a tracker knows and whether it has a source are all there is to it.
pub proof fn law_tracker_is_state_and_source(a: SpillTracker, b: SpillTracker)
    requires
        a.state() == b.state(),
        a.live() == b.live(),
    ensures
        a == b,
{
}

/// A tracker without a source of measurements reports nothing: no observation, no
/// episode, and that it could not measure.
pub proof fn law_unmeasurable_reports_nothing(t: SpillTracker, r: SpillReport)
    requires
        t.well_formed(),
        !t.live(),
        reports(t.state(), t.live(), r),
    ensures
        !r.measurable,
        r.observations == 0,
        r.episodes@.len() == 0,
        !t.state().latched,
        !t.state().currently,
{
}

/// A report agrees with the tracker it comes from. It has an episode exactly when the
/// tracker has spilled; its last episode is without an end exactly when the tracker is
/// spilling, and every other has one; no episode exceeds the shared peak; and, while the
/// counter has not reached its limit, the episodes together count at most the observations
/// of the report.
pub proof fn law_report_agrees_with_tracker(t: SpillTracker, r: SpillReport)
    requires
        t.well_formed(),
        reports(t.state(), t.live(), r),
    ensures
        r.episodes@.len() > 0 <==> t.state().latched,
        t.state().currently <==> r.episodes@.len() > 0 && r.episodes@.last().end_label is None,
        forall|i: int|
            0 <= i < r.episodes@.len() - 1 ==> (#[trigger] r.episodes@[i]).end_label is Some,
        forall|i: int|
            0 <= i < r.episodes@.len() ==> (#[trigger] r.episodes@[i]).peak_shared_bytes
                <= r.peak_shared_bytes,
        r.observations < usize::MAX ==> total_observations(r.episodes@) <= r.observations,
{
    let s = t.state();
    if s.open is Some {
        assert forall|i: int| 0 <= i < r.episodes@.len() - 1 implies (
        #[trigger] r.episodes@[i]).end_label is Some && r.episodes@[i].peak_shared_bytes
            <= r.peak_shared_bytes by {
            assert(r.episodes@.drop_last()[i] == s.episodes@[i]);
        }
    }
}

/// An observation carries the figures of its sample, each under its own name, with the label
/// and time given.
pub proof fn law_observation_is_the_sample(s: AdapterMemSample, label: String, at: Duration)
    ensures
        observation_of(s, label, at).dedicated_bytes == s.dedicated_bytes,
        observation_of(s, label, at).shared_bytes == s.shared_bytes,
        observation_of(s, label, at).limit_bytes == s.limit_bytes,
        observation_of(s, label, at).label == label,
        observation_of(s, label, at).at == at,
{
}

/// A tracker is made exactly where the source was opened, or found not to be there. It
/// measures where there is a source, and starts with nothing observed, saturation told by
/// the capacity and a margin of 256 MiB.
pub proof fn law_new_tracker(source: Result<bool>, r: Result<SpillTracker>)
    requires
        call_ensures(SpillTracker::new, (source,), r),
    ensures
        r is Ok <==> source is Ok,
        r is Err ==> r->Err_0 == source->Err_0,
        r is Ok ==> r->Ok_0.live() == source->Ok_0,
        r is Ok ==> r->Ok_0.state().unobserved(),
        r is Ok ==> r->Ok_0.state().dedicated_threshold_override is None,
        r is Ok ==> r->Ok_0.state().shared_growth_bytes == 256 * 1024 * 1024,
{
}

/// A threshold that is set is the one in force, and setting it changes nothing else.
pub proof fn law_thresholds_are_set(t: SpillTracker, bytes: u64, a: SpillTracker, b: SpillTracker)
    requires
        call_ensures(SpillTracker::with_dedicated_threshold, (t, bytes), a),
        call_ensures(SpillTracker::with_shared_growth_threshold, (t, bytes), b),
    ensures
        a.state().dedicated_threshold_override == Some(bytes),
        a.state().shared_growth_bytes == t.state().shared_growth_bytes,
        b.state().shared_growth_bytes == bytes,
        b.state().dedicated_threshold_override == t.state().dedicated_threshold_override,
        a.live() == t.live() && b.live() == t.live(),
        a.state().observations == t.state().observations && b.state().observations
            == t.state().observations,
        a.state().baseline_shared == t.state().baseline_shared && b.state().baseline_shared
            == t.state().baseline_shared,
{
}

/// What a tracker answers and what it reports agree: it is spilling exactly while an
/// episode of its report is without an end, it has spilled exactly when its report has an
/// episode, and the report is measurable exactly where the tracker measures.
pub proof fn law_answers_agree_with_report(
    t: SpillTracker,
    spilling: bool,
    spilled: bool,
    measurable: bool,
    r: SpillReport,
)
    requires
        t.well_formed(),
        call_ensures(SpillTracker::is_spilling, (&t,), spilling),
        call_ensures(SpillTracker::has_spilled, (&t,), spilled),
        call_ensures(SpillTracker::is_measurable, (&t,), measurable),
        call_ensures(SpillTracker::into_report, (t,), r),
    ensures
        spilling == t.state().currently,
        spilled == t.state().latched,
        spilling <==> r.episodes@.len() > 0 && r.episodes@.last().end_label is None,
        spilled <==> r.episodes@.len() > 0,
        spilling ==> spilled,
        r.measurable == measurable,
        measurable == t.live(),
{
    law_report_agrees_with_tracker(t, r);
}

/// Spill can be measured exactly where the counters could be enumerated and there is one.
pub proof fn law_measurable(enumerated: Option<Result<Option<Vec<String>>>>, r: bool)
    requires
        call_ensures(is_spill_measurable, (&enumerated,), r),
    ensures
        enumerated is None ==> !r,
        enumerated is Some && enumerated->0 is Err ==> !r,
        enumerated is Some && enumerated->0 is Ok && (enumerated->0)->Ok_0 is None ==> !r,
        enumerated is Some && enumerated->0 is Ok && (enumerated->0)->Ok_0 is Some ==> (r <==> ((
        enumerated->0)->Ok_0->0)@.len() > 0),
{
}

} // verus!
