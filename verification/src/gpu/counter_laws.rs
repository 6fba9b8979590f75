//! What the readings of the performance counters come to, said of the results of the calls.
use crate::error::{HypomnesisError, Result};
use crate::gpu::adapter::{
    adapter_counter_set_available, all_readable, both_added, dedicated_sum, positions, shared_sum,
    AdapterMemQuery, AdapterMemSample, SegmentReading,
};
use crate::gpu::pdh::{
    adapter_counters, adapter_instances_of, aggregate, any_added, check_status,
    collect_segmented_rows, dedicated_total, distinct_pids, enum_object_instances,
    law_one_row_per_process, luid_tail, multi_string, process_counters, process_instance,
    process_instances, process_instances_of, process_row, process_rows, query_per_process_vram,
    read_counter_bytes, segment_rows, shared_total, target_luid, CounterReading, InstanceCounters,
    InstanceReading, ProcessMemoryRow, SegmentRow,
};
use crate::number::{decimal, hex8_upper};
use crate::text::texts;
use vstd::prelude::*;

verus! {

/// The sum of a figure over a sequence.
pub open spec fn sum_over<T>(s: Seq<T>, f: spec_fn(T) -> nat) -> nat
    decreases s.len(),
{
    if s.len() == 0 {
        0
    } else {
        sum_over(s.drop_last(), f) + f(s.last())
    }
}

/// Whether a counter was read, with a value that can be a number of bytes.
pub open spec fn was_read(c: Option<CounterReading>) -> bool {
    c is Some && c->0.status == 0 && c->0.value >= 0
}

/// A counter is worth its value where it was read and that is not negative.
pub proof fn law_counter_bytes(c: CounterReading, r: Option<u64>)
    requires
        call_ensures(read_counter_bytes, (c,), r),
    ensures
        c.status == 0 && c.value >= 0 ==> r is Some && r->0 == c.value,
        c.status != 0 || c.value < 0 ==> r is None,
{
}

// ---------------------------------------------------------------------------
// Rows
// ---------------------------------------------------------------------------

proof fn lemma_segment_rows(readings: Seq<InstanceReading>)
    ensures
        ({
            let kept = readings.filter(|x: InstanceReading| was_read(x.dedicated));
            let rows = segment_rows(readings);
            &&& rows.len() == kept.len()
            &&& forall|i: int|
                #![trigger rows[i]]
                0 <= i < rows.len() ==> {
                    let x = kept[i];
                    &&& rows[i].pid == x.pid
                    &&& rows[i].segment_idx == x.segment_idx
                    &&& rows[i].used_bytes == x.dedicated->0.value
                    &&& was_read(x.shared) ==> rows[i].shared_used_bytes == x.shared->0.value
                    &&& !was_read(x.shared) ==> rows[i].shared_used_bytes == 0
                }
        }),
    decreases readings.len(),
{
    reveal(Seq::filter);
    if readings.len() > 0 {
        lemma_segment_rows(readings.drop_last());
        let f = |x: InstanceReading| was_read(x.dedicated);
        let kept = readings.filter(f);
        let init = readings.drop_last().filter(f);
        assert(was_read(readings.last().dedicated) ==> kept == init.push(readings.last()));
        assert forall|i: int|
            #![trigger segment_rows(readings)[i]]
            0 <= i < segment_rows(readings.drop_last()).len() implies segment_rows(readings)[i]
            == segment_rows(readings.drop_last())[i] && kept[i] == init[i] by {}
    }
}

/// After a successful sample there is a row for exactly the instances whose dedicated
/// counter was read, in order: the value of that counter as the GPU memory, and that of the
/// shared counter as the shared memory, 0 where it was not read.
pub proof fn law_rows_are_the_counters(
    readings: Vec<InstanceReading>,
    r: Result<Vec<SegmentRow>>,
)
    requires
        call_ensures(collect_segmented_rows, (&readings, 0u32), r),
    ensures
        r is Ok,
        ({
            let kept = readings@.filter(|x: InstanceReading| was_read(x.dedicated));
            let rows = r->Ok_0@;
            &&& rows.len() == kept.len()
            &&& forall|i: int|
                #![trigger rows[i]]
                0 <= i < rows.len() ==> {
                    let x = kept[i];
                    &&& rows[i].pid == x.pid
                    &&& rows[i].segment_idx == x.segment_idx
                    &&& rows[i].used_bytes == x.dedicated->0.value
                    &&& was_read(x.shared) ==> rows[i].shared_used_bytes == x.shared->0.value
                    &&& !was_read(x.shared) ==> rows[i].shared_used_bytes == 0
                }
        }),
{
    lemma_segment_rows(readings@);
    if !any_added(readings@) {
        let f = |x: InstanceReading| was_read(x.dedicated);
        lemma_nothing_kept(readings@);
    }
}

proof fn lemma_nothing_kept(readings: Seq<InstanceReading>)
    requires
        !any_added(readings),
    ensures
        readings.filter(|x: InstanceReading| was_read(x.dedicated)).len() == 0,
    decreases readings.len(),
{
    reveal(Seq::filter);
    if readings.len() > 0 {
        let init = readings.drop_last();
        assert forall|i: int| 0 <= i < init.len() implies (#[trigger] init[i]).dedicated is None by {
            assert(readings[i].dedicated is None);
        }
        lemma_nothing_kept(init);
        assert(readings[readings.len() - 1].dedicated is None);
    }
}

/// A sampling call that failed fails the collection, where there was a counter to sample.
pub proof fn law_failed_sample_fails(
    readings: Vec<InstanceReading>,
    status: u32,
    r: Result<Vec<SegmentRow>>,
    i: int,
)
    requires
        call_ensures(collect_segmented_rows, (&readings, status), r),
        status != 0,
        0 <= i < readings@.len(),
        readings@[i].dedicated is Some,
    ensures
        r matches Err(HypomnesisError::Pdh(_)),
{
    assert(any_added(readings@));
}

/// A number as it fits 64 bits.
pub open spec fn at_most_64_bits(n: nat) -> nat {
    if n <= 0xFFFF_FFFF_FFFF_FFFF {
        n
    } else {
        0xFFFF_FFFF_FFFF_FFFF
    }
}

proof fn lemma_totals(rows: Seq<SegmentRow>, pid: u32)
    ensures
        dedicated_total(rows, pid) == sum_over(
            rows,
            |x: SegmentRow|
                if x.pid == pid {
                    x.used_bytes as nat
                } else {
                    0
                },
        ),
        shared_total(rows, pid) == sum_over(
            rows,
            |x: SegmentRow|
                if x.pid == pid {
                    x.shared_used_bytes as nat
                } else {
                    0
                },
        ),
    decreases rows.len(),
{
    if rows.len() > 0 {
        lemma_totals(rows.drop_last(), pid);
    }
}

/// Each process of the rows comes out once, with the sum of its rows' GPU memory and the
/// sum of its rows' shared memory, and no other process does.
pub proof fn law_processes_are_summed(rows: Vec<SegmentRow>, out: Vec<ProcessMemoryRow>)
    requires
        call_ensures(aggregate, (&rows,), out),
    ensures
        forall|i: int|
            #![trigger out@[i]]
            0 <= i < out@.len() ==> {
                let p = out@[i].pid;
                &&& out@[i].dedicated_committed_bytes == at_most_64_bits(
                    sum_over(
                        rows@,
                        |x: SegmentRow|
                            if x.pid == p {
                                x.used_bytes as nat
                            } else {
                                0
                            },
                    ),
                )
                &&& out@[i].shared_used_bytes == at_most_64_bits(
                    sum_over(
                        rows@,
                        |x: SegmentRow|
                            if x.pid == p {
                                x.shared_used_bytes as nat
                            } else {
                                0
                            },
                    ),
                )
            },
        forall|i: int, j: int|
            0 <= i < j < out@.len() ==> (#[trigger] out@[i]).pid != (#[trigger] out@[j]).pid,
        forall|k: int|
            #![trigger rows@[k]]
            0 <= k < rows@.len() ==> exists|i: int|
                0 <= i < out@.len() && (#[trigger] out@[i]).pid == rows@[k].pid,
        forall|i: int|
            #![trigger out@[i]]
            0 <= i < out@.len() ==> exists|k: int|
                0 <= k < rows@.len() && out@[i].pid == (#[trigger] rows@[k]).pid,
{
    law_one_row_per_process(rows@);
    let pids = distinct_pids(rows@);
    assert(out@ == process_rows(rows@));
    assert forall|i: int| #![trigger out@[i]] 0 <= i < out@.len() implies out@[i] == process_row(
        rows@,
        pids[i],
    ) && out@[i].pid == pids[i] by {}
    assert forall|i: int| #![trigger out@[i]] 0 <= i < out@.len() implies {
        let p = out@[i].pid;
        &&& out@[i].dedicated_committed_bytes == at_most_64_bits(
            sum_over(
                rows@,
                |x: SegmentRow|
                    if x.pid == p {
                        x.used_bytes as nat
                    } else {
                        0
                    },
            ),
        )
        &&& out@[i].shared_used_bytes == at_most_64_bits(
            sum_over(
                rows@,
                |x: SegmentRow|
                    if x.pid == p {
                        x.shared_used_bytes as nat
                    } else {
                        0
                    },
            ),
        )
    } by {
        lemma_totals(rows@, out@[i].pid);
    }
    assert forall|k: int| #![trigger rows@[k]] 0 <= k < rows@.len() implies exists|i: int|
        0 <= i < out@.len() && (#[trigger] out@[i]).pid == rows@[k].pid by {
        assert(pids.contains(rows@[k].pid));
        let i = choose|i: int| 0 <= i < pids.len() && pids[i] == rows@[k].pid;
        assert(out@[i].pid == rows@[k].pid);
    }
    assert forall|i: int| #![trigger out@[i]] 0 <= i < out@.len() implies exists|k: int|
        0 <= k < rows@.len() && out@[i].pid == (#[trigger] rows@[k]).pid by {
        assert(pids.contains(pids[i]));
    }
}

/// The memory per process is that of its summed rows; a failed collection stays failed.
pub proof fn law_per_process_memory(
    segments: Result<Vec<SegmentRow>>,
    r: Result<Vec<ProcessMemoryRow>>,
    out: Vec<ProcessMemoryRow>,
)
    requires
        call_ensures(query_per_process_vram, (segments,), r),
        segments is Ok ==> call_ensures(aggregate, (&segments->Ok_0,), out),
    ensures
        segments is Ok ==> r is Ok && r->Ok_0@ == out@,
        segments is Err ==> r is Err && r->Err_0 == segments->Err_0,
{
}

// ---------------------------------------------------------------------------
// Counters to add
// ---------------------------------------------------------------------------

proof fn lemma_process_instances(names: Seq<Seq<char>>, luid: (i32, u32))
    ensures
        process_instances_of(names, luid) == names.filter(
            |n: Seq<char>| process_instance(n) is Some && (process_instance(n)->0).1 == luid,
        ),
    decreases names.len(),
{
    reveal(Seq::filter);
    let f = |n: Seq<char>| process_instance(n) is Some && (process_instance(n)->0).1 == luid;
    if names.len() > 0 {
        lemma_process_instances(names.drop_last(), luid);
    } else {
        assert(names.filter(f) =~= seq![]);
    }
}

proof fn lemma_adapter_instances(names: Seq<Seq<char>>, luid: (i32, u32))
    ensures
        adapter_instances_of(names, luid) == names.filter(
            |n: Seq<char>| luid_tail(n) is Some && (luid_tail(n)->0).0 == luid,
        ),
    decreases names.len(),
{
    reveal(Seq::filter);
    let f = |n: Seq<char>| luid_tail(n) is Some && (luid_tail(n)->0).0 == luid;
    if names.len() > 0 {
        lemma_adapter_instances(names.drop_last(), luid);
    } else {
        assert(names.filter(f) =~= seq![]);
    }
}

/// For the processes on an adapter, the two counters of every instance of that adapter are
/// added, and of no other: the dedicated usage and the shared usage, under the instance's
/// own name.
pub proof fn law_process_counters(
    instances: Vec<String>,
    luid: (i32, u32),
    v: Vec<InstanceCounters>,
)
    requires
        call_ensures(process_counters, (&instances, luid), v),
    ensures
        ({
            let mine = texts(instances@).filter(
                |n: Seq<char>| process_instance(n) is Some && (process_instance(n)->0).1 == luid,
            );
            &&& v@.len() == mine.len()
            &&& forall|i: int|
                #![trigger v@[i]]
                0 <= i < v@.len() ==> {
                    &&& v@[i].pid == (process_instance(mine[i])->0).0
                    &&& v@[i].segment_idx == (process_instance(mine[i])->0).2
                    &&& v@[i].dedicated_path@ == "\\"@ + "GPU Process Memory"@ + "("@ + mine[i]
                        + ")\\"@ + "Dedicated Usage"@
                    &&& v@[i].shared_path@ == "\\"@ + "GPU Process Memory"@ + "("@ + mine[i]
                        + ")\\"@ + "Shared Usage"@
                }
        }),
{
    lemma_process_instances(texts(instances@), luid);
}

/// For an adapter, the two counters of every instance of that adapter are added, and of no
/// other: the dedicated usage and the shared usage, under the instance's own name.
pub proof fn law_adapter_counters(
    instances: Vec<String>,
    luid: (i32, u32),
    v: Vec<InstanceCounters>,
)
    requires
        call_ensures(adapter_counters, (&instances, luid), v),
    ensures
        ({
            let mine = texts(instances@).filter(
                |n: Seq<char>| luid_tail(n) is Some && (luid_tail(n)->0).0 == luid,
            );
            &&& v@.len() == mine.len()
            &&& forall|i: int|
                #![trigger v@[i]]
                0 <= i < v@.len() ==> {
                    &&& v@[i].segment_idx == (luid_tail(mine[i])->0).1
                    &&& v@[i].dedicated_path@ == "\\"@ + "GPU Adapter Memory"@ + "("@ + mine[i]
                        + ")\\"@ + "Dedicated Usage"@
                    &&& v@[i].shared_path@ == "\\"@ + "GPU Adapter Memory"@ + "("@ + mine[i]
                        + ")\\"@ + "Shared Usage"@
                }
        }),
{
    lemma_adapter_instances(texts(instances@), luid);
}

/// An enumeration gives the names of the fetch where the size query asks for one and it
/// succeeds, no name where the set is empty, and nothing where the set is not there; every
/// other status is an error.
pub proof fn law_enumeration(
    size_status: u32,
    instance_size: u32,
    fetch_status: u32,
    buffer: &[u16],
    set: &str,
    r: Result<Option<Vec<String>>>,
)
    requires
        call_ensures(
            enum_object_instances,
            (size_status, instance_size, (fetch_status, buffer), set),
            r,
        ),
    ensures
        r matches Ok(None) <==> size_status == 0xC000_0BB8,
        size_status == 0 && instance_size <= 1 ==> r is Ok && r->Ok_0 is Some && (
        r->Ok_0->0)@.len() == 0,
        size_status == 0x8000_07D2 && fetch_status == 0 ==> r is Ok && r->Ok_0 is Some && texts(
            (r->Ok_0->0)@,
        ) == multi_string(buffer@),
        r is Err <==> (size_status == 0x8000_07D2 && fetch_status != 0) || (size_status
            != 0xC000_0BB8 && size_status != 0x8000_07D2 && !(size_status == 0 && instance_size
            <= 1)),
{
}

/// A call succeeded where its status is 0; any other is an error that says what failed and
/// the status in hexadecimal.
pub proof fn law_failed_call_is_told(status: u32, what: &str, r: Result<()>)
    requires
        call_ensures(check_status, (status, what), r),
    ensures
        r is Ok <==> status == 0,
        r is Err ==> (r->Err_0 matches HypomnesisError::Pdh(m) && m@ == what@ + " failed: 0x"@
            + hex8_upper(status as nat)),
{
}

/// The processes of a device need its adapter and its counter set; both are passed on where
/// they are there.
pub proof fn law_processes_need_their_counters(
    device_index: u32,
    luid: Option<(i32, u32)>,
    l: Result<(i32, u32)>,
    enumerated: Result<Option<Vec<String>>>,
    names: Result<Vec<String>>,
    available: bool,
)
    requires
        call_ensures(target_luid, (device_index, luid), l),
        call_ensures(process_instances, (enumerated,), names),
        call_ensures(adapter_counter_set_available, (&enumerated,), available),
    ensures
        l is Ok <==> luid is Some,
        l is Ok ==> l->Ok_0 == luid->0,
        l is Err ==> (l->Err_0 matches HypomnesisError::Pdh(m) && m@
            == "no NVIDIA adapter at device_index "@ + decimal(device_index as nat)
            + " via DXGI walk"@),
        names is Ok <==> enumerated is Ok && enumerated->Ok_0 is Some,
        names is Ok ==> names->Ok_0 == enumerated->Ok_0->0,
        enumerated is Err ==> names->Err_0 == enumerated->Err_0,
        available <==> names is Ok && names->Ok_0@.len() > 0,
{
}

// ---------------------------------------------------------------------------
// The adapter
// ---------------------------------------------------------------------------

proof fn lemma_adapter_sums(readings: Seq<SegmentReading>)
    requires
        all_readable(readings),
    ensures
        dedicated_sum(readings) == sum_over(
            readings,
            |x: SegmentReading| x.dedicated.value as nat,
        ),
        shared_sum(readings) == sum_over(readings, |x: SegmentReading| x.shared.value as nat),
    decreases readings.len(),
{
    if readings.len() > 0 {
        let init = readings.drop_last();
        assert forall|i: int| 0 <= i < init.len() implies crate::gpu::pdh::reading_bytes(
            (#[trigger] init[i]).dedicated,
        ) is Some && crate::gpu::pdh::reading_bytes(init[i].shared) is Some by {
            assert(init[i] == readings[i]);
        }
        lemma_adapter_sums(init);
        assert(readings[readings.len() - 1] == readings.last());
        assert(crate::gpu::pdh::reading_bytes(readings[readings.len() - 1].dedicated) is Some);
    }
}

/// A sample is the sum of the segments' dedicated counters as dedicated memory and of their
/// shared counters as shared memory, with the capacity that the query was opened with. One
/// counter that was not read, or a failed call, fails it.
pub proof fn law_adapter_sample(
    q: AdapterMemQuery,
    status: u32,
    readings: Vec<SegmentReading>,
    r: Result<AdapterMemSample>,
)
    requires
        call_ensures(AdapterMemQuery::sample, (&q, status, &readings), r),
    ensures
        r is Ok <==> status == 0 && forall|i: int|
            0 <= i < readings@.len() ==> (#[trigger] readings@[i]).dedicated.status == 0
                && readings@[i].dedicated.value >= 0 && readings@[i].shared.status == 0
                && readings@[i].shared.value >= 0,
        r is Ok ==> r->Ok_0.limit_bytes == q.limit_bytes && r->Ok_0.dedicated_bytes
            == at_most_64_bits(
            sum_over(readings@, |x: SegmentReading| x.dedicated.value as nat),
        ) && r->Ok_0.shared_bytes == at_most_64_bits(
            sum_over(readings@, |x: SegmentReading| x.shared.value as nat),
        ),
{
    let s = readings@;
    if all_readable(s) {
        lemma_adapter_sums(s);
        assert forall|i: int| 0 <= i < s.len() implies (#[trigger] s[i]).dedicated.status == 0
            && s[i].dedicated.value >= 0 && s[i].shared.status == 0 && s[i].shared.value >= 0 by {
            assert(crate::gpu::pdh::reading_bytes(s[i].dedicated) is Some);
        }
    } else {
        let i = choose|i: int|
            0 <= i < s.len() && !(crate::gpu::pdh::reading_bytes((#[trigger] s[i]).dedicated)
                is Some && crate::gpu::pdh::reading_bytes(s[i].shared) is Some);
        assert(s[i].dedicated.status != 0 || s[i].dedicated.value < 0 || s[i].shared.status != 0
            || s[i].shared.value < 0);
    }
}

proof fn lemma_both_added(added: Seq<(bool, bool)>, k: int)
    ensures
        both_added(added).contains(k) <==> 0 <= k < added.len() && added[k].0 && added[k].1,
    decreases added.len(),
{
    if added.len() > 0 {
        let init = added.drop_last();
        lemma_both_added(init, k);
        let b = both_added(init);
        let t = both_added(added);
        if b.contains(k) {
            let j = choose|j: int| 0 <= j < b.len() && b[j] == k;
            assert(t[j] == k);
        }
        if k == added.len() - 1 && added[k].0 && added[k].1 {
            assert(t[t.len() - 1] == k);
        }
        if t.contains(k) {
            let j = choose|j: int| 0 <= j < t.len() && t[j] == k;
            if j < b.len() {
                assert(b[j] == k);
            }
        }
    }
}

/// A query opens over exactly the instances of which both counters were added, with the
/// adapter's capacity, 0 where that is unknown. It cannot be measured where the counter set
/// is not there or there is no such instance.
pub proof fn law_adapter_query_opens(
    index: u32,
    luid: Option<(i32, u32)>,
    limit: Option<u64>,
    enumerated: Result<Option<Vec<String>>>,
    open_status: u32,
    added: Vec<(bool, bool)>,
    r: Result<Option<AdapterMemQuery>>,
    k: usize,
)
    requires
        call_ensures(
            AdapterMemQuery::open,
            (index, luid, limit, enumerated, open_status, &added),
            r,
        ),
    ensures
        luid is None ==> r is Err,
        luid is Some && enumerated is Err ==> r is Err && r->Err_0 == enumerated->Err_0,
        luid is Some && enumerated is Ok && enumerated->Ok_0 is None ==> (r matches Ok(None)),
        luid is Some && enumerated is Ok && enumerated->Ok_0 is Some && open_status != 0
            ==> r is Err,
        r is Ok && r->Ok_0 is Some ==> {
            let q = r->Ok_0->0;
            &&& q.segments@.contains(k) <==> k < added@.len() && added@[k as int].0
                && added@[k as int].1
            &&& limit is Some ==> q.limit_bytes == limit->0
            &&& limit is None ==> q.limit_bytes == 0
        },
        luid is Some && enumerated is Ok && enumerated->Ok_0 is Some && open_status == 0 && k
            < added@.len() && added@[k as int].0 && added@[k as int].1 ==> r is Ok
            && r->Ok_0 is Some,
{
    lemma_both_added(added@, k as int);
    if r is Ok && r->Ok_0 is Some {
        let q = r->Ok_0->0;
        let p = positions(q.segments@);
        if q.segments@.contains(k) {
            let j = choose|j: int| 0 <= j < q.segments@.len() && q.segments@[j] == k;
            assert(p[j] == k as int);
        }
        if p.contains(k as int) {
            let j = choose|j: int| 0 <= j < p.len() && p[j] == k as int;
            assert(q.segments@[j] == k);
        }
    }
}

} // verus!
