//! Adapter-wide memory from Windows performance counters: the source of spill detection.
use crate::error::{HypomnesisError, Result};
use crate::gpu::pdh::{
    check_status, clamp64, fails_with, failure_text, no_adapter_text, read_counter_bytes,
    reading_bytes, target_luid, CounterReading, PDH_SUCCESS,
};
use vstd::prelude::*;

verus! {

/// One adapter-wide reading, summed over the segments.
#[derive(Debug, Clone, Copy, PartialEq, Eq, Structural)]
pub struct AdapterMemSample {
    /// Resident dedicated memory in bytes.
    pub dedicated_bytes: u64,
    /// Dedicated capacity in bytes; 0 when unknown.
    pub limit_bytes: u64,
    /// Resident shared memory in bytes.
    pub shared_bytes: u64,
}

/// An open query over the segments of one adapter.
#[derive(Debug)]
pub struct AdapterMemQuery {
    /// The planned instances, by position, of which both counters could be added.
    pub segments: Vec<usize>,
    /// Dedicated capacity in bytes; 0 when unknown.
    pub limit_bytes: u64,
}

/// The readings of one segment.
#[derive(Debug, Clone, Copy, PartialEq, Eq, Structural)]
pub struct SegmentReading {
    /// The dedicated-usage counter.
    pub dedicated: CounterReading,
    /// The shared-usage counter.
    pub shared: CounterReading,
}

/// The positions at which both counters could be added.
pub open spec fn both_added(added: Seq<(bool, bool)>) -> Seq<int>
    decreases added.len(),
{
    if added.len() == 0 {
        seq![]
    } else {
        let init = both_added(added.drop_last());
        if added.last().0 && added.last().1 {
            init.push(added.len() - 1)
        } else {
            init
        }
    }
}

/// Positions as mathematical integers.
pub open spec fn positions(v: Seq<usize>) -> Seq<int> {
    v.map_values(|i: usize| i as int)
}

fn both_added_positions(added: &Vec<(bool, bool)>) -> (v: Vec<usize>)
    ensures
        positions(v@) == both_added(added@),
{
    let mut v: Vec<usize> = Vec::new();
    let mut i: usize = 0;
    assert(added@.take(0) =~= seq![]);
    assert(positions(v@) =~= seq![]);
    while i < added.len()
        invariant
            i <= added@.len(),
            positions(v@) == both_added(added@.take(i as int)),
        decreases added@.len() - i,
    {
        assert(added@.take(i + 1).drop_last() =~= added@.take(i as int));
        assert(added@.take(i + 1).last() == added@[i as int]);
        let ghost before = positions(v@);
        if added[i].0 && added[i].1 {
            v.push(i);
            assert(positions(v@) =~= before.push(i as int));
        }
        i += 1;
    }
    assert(added@.take(i as int) =~= added@);
    v
}

/// Whether every counter of every segment could be read.
pub open spec fn all_readable(readings: Seq<SegmentReading>) -> bool {
    forall|i: int|
        0 <= i < readings.len() ==> reading_bytes((#[trigger] readings[i]).dedicated) is Some
            && reading_bytes(readings[i].shared) is Some
}

/// The dedicated bytes of all segments.
pub open spec fn dedicated_sum(readings: Seq<SegmentReading>) -> nat
    decreases readings.len(),
{
    if readings.len() == 0 {
        0
    } else {
        dedicated_sum(readings.drop_last()) + reading_bytes(readings.last().dedicated)->0 as nat
    }
}

/// The shared bytes of all segments.
pub open spec fn shared_sum(readings: Seq<SegmentReading>) -> nat
    decreases readings.len(),
{
    if readings.len() == 0 {
        0
    } else {
        shared_sum(readings.drop_last()) + reading_bytes(readings.last().shared)->0 as nat
    }
}

impl AdapterMemQuery {
    /// Open the query of a device, from the outcomes of its steps in order: the adapter's
    /// identifier, the enumeration of the counter set, the opening of the query, and the
    /// adding of the two counters per planned instance. A step that was not reached may
    /// hold any outcome. `None` means that spill cannot be measured here: the counter set
    /// is not there, or no instance of the adapter took both counters.
    pub fn open(
        device_index: u32,
        luid: Option<(i32, u32)>,
        limit: Option<u64>,
        enumerated: Result<Option<Vec<String>>>,
        open_status: u32,
        added: &Vec<(bool, bool)>,
    ) -> (r: Result<Option<AdapterMemQuery>>)
        ensures
            luid is None ==> fails_with(r, no_adapter_text(device_index)),
            luid is Some ==> match enumerated {
                Err(e) => r == Err::<Option<AdapterMemQuery>, HypomnesisError>(e),
                Ok(None) => r matches Ok(None),
                Ok(Some(_)) => if open_status != PDH_SUCCESS {
                    fails_with(r, failure_text("PdhOpenQueryW"@, open_status))
                } else if both_added(added@).len() == 0 {
                    r matches Ok(None)
                } else {
                    r matches Ok(Some(q)) && positions(q.segments@) == both_added(added@)
                        && q.limit_bytes == (match limit {
                        Some(l) => l,
                        None => 0,
                    })
                },
            },
    {
        match target_luid(device_index, luid) {
            Ok(_) => {},
            Err(e) => {
                return Err(e);
            },
        }
        match enumerated {
            Err(e) => {
                return Err(e);
            },
            Ok(None) => {
                return Ok(None);
            },
            Ok(Some(_)) => {},
        }
        match check_status(open_status, "PdhOpenQueryW") {
            Ok(_) => {},
            Err(e) => {
                return Err(e);
            },
        }
        let segments = both_added_positions(added);
        assert(positions(segments@).len() == segments@.len());
        if segments.len() == 0 {
            return Ok(None);
        }
        let limit_bytes = match limit {
            Some(l) => l,
            None => 0,
        };
        Ok(Some(AdapterMemQuery { segments, limit_bytes }))
    }

    /// One sample, from the status of the sampling call and the readings of all segments.
    /// A single counter that cannot be read fails the whole sample: a figure of 0 in its
    /// place would look like the end of a spill, or set a false baseline.
    pub fn sample(
        &self,
        collect_status: u32,
        readings: &Vec<SegmentReading>,
    ) -> (r: Result<AdapterMemSample>)
        ensures
            if collect_status != PDH_SUCCESS {
                fails_with(r, failure_text("PdhCollectQueryData (adapter query)"@, collect_status))
            } else if !all_readable(readings@) {
                fails_with(
                    r,
                    "PdhGetFormattedCounterValue failed for an adapter counter (sample skipped)"@,
                )
            } else {
                r == Ok::<AdapterMemSample, HypomnesisError>(
                    AdapterMemSample {
                        dedicated_bytes: clamp64(dedicated_sum(readings@)),
                        limit_bytes: self.limit_bytes,
                        shared_bytes: clamp64(shared_sum(readings@)),
                    },
                )
            },
    {
        match check_status(collect_status, "PdhCollectQueryData (adapter query)") {
            Ok(_) => {},
            Err(e) => {
                return Err(e);
            },
        }
        let mut dedicated_bytes: u64 = 0;
        let mut shared_bytes: u64 = 0;
        let mut i: usize = 0;
        assert(readings@.take(0) =~= seq![]);
        while i < readings.len()
            invariant
                i <= readings@.len(),
                collect_status == PDH_SUCCESS,
                forall|k: int|
                    0 <= k < i ==> reading_bytes((#[trigger] readings@[k]).dedicated) is Some
                        && reading_bytes(readings@[k].shared) is Some,
                dedicated_bytes == clamp64(dedicated_sum(readings@.take(i as int))),
                shared_bytes == clamp64(shared_sum(readings@.take(i as int))),
            decreases readings@.len() - i,
        {
            assert(readings@.take(i + 1).drop_last() =~= readings@.take(i as int));
            assert(readings@.take(i + 1).last() == readings@[i as int]);
            match (
                read_counter_bytes(readings[i].dedicated),
                read_counter_bytes(readings[i].shared),
            ) {
                (Some(d), Some(s)) => {
                    dedicated_bytes = dedicated_bytes.saturating_add(d);
                    shared_bytes = shared_bytes.saturating_add(s);
                },
                _ => {
                    return Err(
                        HypomnesisError::Pdh(
                            String::from_str(
                                "PdhGetFormattedCounterValue failed for an adapter counter (sample skipped)",
                            ),
                        ),
                    );
                },
            }
            i += 1;
        }
        assert(readings@.take(i as int) =~= readings@);
        Ok(AdapterMemSample { dedicated_bytes, limit_bytes: self.limit_bytes, shared_bytes })
    }
}

/// Whether spill can be measured on this system: the counter set is there and has an
/// instance.
pub fn adapter_counter_set_available(enumerated: &Result<Option<Vec<String>>>) -> (r: bool)
    ensures
        r == (enumerated matches Ok(Some(v)) && v@.len() > 0),
{
    match enumerated {
        Ok(Some(v)) => v.len() > 0,
        _ => false,
    }
}

} // verus!
