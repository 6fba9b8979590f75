//! Windows performance counters: instance names, counter paths, and what the readings
//! mean.
//!
//! The counter calls are made by the program around this library; this module says which
//! counters to add, how to read the outcome of each call, and how the readings add up.
use crate::error::{HypomnesisError, Result};
use crate::number::{
    decimal, hex8_upper, parse_unsigned, parsed_unsigned, push_decimal, push_hex8_upper,
};
use crate::text::{
    chars_of, split_at_text, split_once, strip_prefix, stripped_prefix, texts,
};
use crate::utf::{decode_utf16, nul_index, units_before_nul, utf16_text};
use vstd::prelude::*;
use vstd::slice::slice_subrange;

verus! {

/// Status: success.
pub const PDH_SUCCESS: u32 = 0;

/// Status: the buffers are too small, and the sizes now say how large they must be.
pub const PDH_MORE_DATA: u32 = 0x8000_07D2;

/// Status: the counter set is not registered on this system.
pub const PDH_CSTATUS_NO_OBJECT: u32 = 0xC000_0BB8;

// ---------------------------------------------------------------------------
// Instance names
// ---------------------------------------------------------------------------

/// The signed reading of 32 bits.
pub open spec fn signed32(bits: nat) -> i32 {
    if bits < 0x8000_0000 {
        bits as i32
    } else {
        (bits - 0x1_0000_0000) as i32
    }
}

/// The tail `luid_0xH_0xL_phys_N` of an instance name: high and low part of the
/// identifier in hexadecimal, the segment in decimal.
pub open spec fn luid_tail(s: Seq<char>) -> Option<((i32, u32), u32)> {
    match stripped_prefix(s, "luid_0x"@) {
        None => None,
        Some(r) => match split_at_text(r, "_0x"@) {
            None => None,
            Some((high, r)) => match split_at_text(r, "_phys_"@) {
                None => None,
                Some((low, seg)) => match (
                    parsed_unsigned(high, 16, u32::MAX as nat),
                    parsed_unsigned(low, 16, u32::MAX as nat),
                    parsed_unsigned(seg, 10, u32::MAX as nat),
                ) {
                    (Ok(h), Ok(l), Ok(n)) => Some(((signed32(h), l as u32), n as u32)),
                    _ => None,
                },
            },
        },
    }
}

/// The instance name `pid_P_` followed by the tail: process, identifier, segment.
pub open spec fn process_instance(s: Seq<char>) -> Option<(u32, (i32, u32), u32)> {
    match stripped_prefix(s, "pid_"@) {
        None => None,
        Some(r) => match split_at_text(r, "_"@) {
            None => None,
            Some((pid, tail)) => match (
                parsed_unsigned(pid, 10, u32::MAX as nat),
                luid_tail(tail),
            ) {
                (Ok(p), Some((luid, seg))) => Some((p as u32, luid, seg)),
                _ => None,
            },
        },
    }
}

fn to_signed32(bits: u64) -> (r: i32)
    requires
        bits <= u32::MAX,
    ensures
        r == signed32(bits as nat),
{
    if bits < 0x8000_0000 {
        bits as i32
    } else {
        (bits as i64 - 0x1_0000_0000) as i32
    }
}

/// Read the tail `luid_0xH_0xL_phys_N`.
pub fn parse_luid_tail(rest: &[char]) -> (r: Option<((i32, u32), u32)>)
    ensures
        r == luid_tail(rest@),
{
    let rest = match strip_prefix(rest, "luid_0x") {
        Some(r) => r,
        None => {
            return None;
        },
    };
    let (high, rest) = match split_once(rest, "_0x") {
        Some(p) => p,
        None => {
            return None;
        },
    };
    let (low, seg) = match split_once(rest, "_phys_") {
        Some(p) => p,
        None => {
            return None;
        },
    };
    match (
        parse_unsigned(high, 16, u32::MAX as u64),
        parse_unsigned(low, 16, u32::MAX as u64),
        parse_unsigned(seg, 10, u32::MAX as u64),
    ) {
        (Ok(h), Ok(l), Ok(n)) => Some(((to_signed32(h), l as u32), n as u32)),
        _ => None,
    }
}

/// Read a process instance name: process, adapter identifier, segment.
pub fn parse_instance_name(name: &str) -> (r: Option<(u32, (i32, u32), u32)>)
    ensures
        r == process_instance(name@),
{
    let chars = chars_of(name);
    let rest = match strip_prefix(chars.as_slice(), "pid_") {
        Some(r) => r,
        None => {
            return None;
        },
    };
    let (pid, tail) = match split_once(rest, "_") {
        Some(p) => p,
        None => {
            return None;
        },
    };
    match (parse_unsigned(pid, 10, u32::MAX as u64), parse_luid_tail(tail)) {
        (Ok(p), Some((luid, seg))) => Some((p as u32, luid, seg)),
        _ => None,
    }
}

/// Read an adapter instance name: adapter identifier and segment.
pub fn parse_adapter_instance_name(name: &str) -> (r: Option<((i32, u32), u32)>)
    ensures
        r == luid_tail(name@),
{
    parse_luid_tail(chars_of(name).as_slice())
}

/// No name is both a process instance and an adapter instance.
pub proof fn law_instance_kinds_are_disjoint(s: Seq<char>)
    ensures
        !(process_instance(s) is Some && luid_tail(s) is Some),
{
    if process_instance(s) is Some && luid_tail(s) is Some {
        reveal_strlit("pid_");
        reveal_strlit("luid_0x");
        assert(s.take(4)[0] == 'p');
        assert(s.take(7)[0] == 'l');
    }
}

/// The names in a buffer of NUL-separated names, empty ones dropped.
pub open spec fn unit_words(u: Seq<u16>) -> Seq<Seq<u16>>
    decreases u.len(),
{
    let n = nul_index(u);
    if u.len() == 0 {
        seq![]
    } else if n == 0 {
        unit_words(u.skip(1))
    } else if 0 < n < u.len() {
        seq![u.take(n)] + unit_words(u.skip(n + 1))
    } else {
        seq![u]
    }
}

/// The texts of the names in a buffer.
pub open spec fn multi_string(u: Seq<u16>) -> Seq<Seq<char>> {
    unit_words(u).map_values(|w: Seq<u16>| utf16_text(w))
}

/// Read a buffer of NUL-separated names.
pub fn parse_multi_string(buf: &[u16]) -> (v: Vec<String>)
    ensures
        texts(v@) == multi_string(buf@),
{
    let mut v: Vec<String> = Vec::new();
    let mut rest: &[u16] = buf;
    assert(texts(v@) + multi_string(rest@) =~= multi_string(buf@));
    while rest.len() > 0
        invariant
            texts(v@) + multi_string(rest@) == multi_string(buf@),
        decreases rest.len(),
    {
        let n = units_before_nul(rest);
        let ghost now = rest@;
        let ghost before = texts(v@);
        if n == 0 {
            let tail = slice_subrange(rest, 1, rest.len());
            assert(tail@ =~= now.skip(1));
            rest = tail;
        } else {
            let word = slice_subrange(rest, 0, n);
            assert(word@ =~= now.take(n as int));
            v.push(decode_utf16(word));
            assert(texts(v@) =~= before.push(utf16_text(word@)));
            if n < rest.len() {
                let tail = slice_subrange(rest, n + 1, rest.len());
                assert(tail@ =~= now.skip(n + 1));
                rest = tail;
                assert(multi_string(now) =~= seq![utf16_text(word@)] + multi_string(rest@));
            } else {
                assert(now.take(n as int) =~= now);
                let tail = slice_subrange(rest, n, rest.len());
                rest = tail;
                assert(multi_string(rest@) =~= seq![]);
                assert(multi_string(now) =~= seq![utf16_text(word@)]);
            }
            assert(texts(v@) + multi_string(rest@) =~= before + multi_string(now));
        }
    }
    assert(multi_string(rest@) =~= seq![]);
    assert(texts(v@) + multi_string(rest@) =~= texts(v@));
    v
}

// ---------------------------------------------------------------------------
// Outcomes of calls
// ---------------------------------------------------------------------------

/// The message of a failed call: what failed, and the status in hexadecimal.
pub open spec fn failure_text(what: Seq<char>, status: u32) -> Seq<char> {
    what + " failed: 0x"@ + hex8_upper(status as nat)
}

fn failure(what: &str, status: u32) -> (e: HypomnesisError)
    ensures
        e matches HypomnesisError::Pdh(m) && m@ == failure_text(what@, status),
{
    let mut s = String::from_str(what);
    s.append(" failed: 0x");
    push_hex8_upper(&mut s, status);
    HypomnesisError::Pdh(s)
}

/// Whether a result is the PDH error with the given message.
pub open spec fn fails_with<T>(r: Result<T>, message: Seq<char>) -> bool {
    r matches Err(HypomnesisError::Pdh(m)) && m@ == message
}

/// Whether a call succeeded, by its status.
pub fn check_status(status: u32, what: &str) -> (r: Result<()>)
    ensures
        status == PDH_SUCCESS ==> r is Ok,
        status != PDH_SUCCESS ==> fails_with(r, failure_text(what@, status)),
{
    if status == PDH_SUCCESS {
        Ok(())
    } else {
        Err(failure(what, status))
    }
}

/// What the size query of an enumeration leads to.
#[derive(Debug)]
pub enum SizeQuery {
    /// The counter set is not there.
    Absent,
    /// The counter set has no instance.
    NoInstance,
    /// Ask again with buffers of the reported sizes.
    Fetch,
    /// The enumeration failed.
    Failed(HypomnesisError),
}

/// What is being done, with the name of the counter set, for messages.
pub open spec fn enumeration_step(step: Seq<char>, set: Seq<char>) -> Seq<char> {
    "PdhEnumObjectItemsW ("@ + step + ", "@ + set + ")"@
}

fn enumeration_failure(step: &str, set: &str, status: u32) -> (e: HypomnesisError)
    ensures
        e matches HypomnesisError::Pdh(m) && m@ == failure_text(
            enumeration_step(step@, set@),
            status,
        ),
{
    let mut s = String::from_str("PdhEnumObjectItemsW (");
    s.append(step);
    s.append(", ");
    s.append(set);
    s.append(")");
    failure(s.as_str(), status)
}

/// What the size query of an enumeration leads to, by its status and the size it reports
/// for the instance names.
pub fn after_size_query(status: u32, instance_size: u32, set: &str) -> (r: SizeQuery)
    ensures
        r is Absent <==> status == PDH_CSTATUS_NO_OBJECT,
        r is NoInstance <==> status == PDH_SUCCESS && instance_size <= 1,
        r is Fetch <==> status == PDH_MORE_DATA,
        r matches SizeQuery::Failed(e) ==> e matches HypomnesisError::Pdh(m) && m@ == failure_text(
            enumeration_step("size query"@, set@),
            status,
        ),
{
    if status == PDH_CSTATUS_NO_OBJECT {
        SizeQuery::Absent
    } else if status == PDH_SUCCESS && instance_size <= 1 {
        SizeQuery::NoInstance
    } else if status != PDH_MORE_DATA {
        SizeQuery::Failed(enumeration_failure("size query", set, status))
    } else {
        SizeQuery::Fetch
    }
}

/// The instance names of a counter set, from the size query and, where it asks for it,
/// the fetch with its status and buffer. `None` when the set is not there.
pub fn enum_object_instances(
    size_status: u32,
    instance_size: u32,
    fetch: (u32, &[u16]),
    set: &str,
) -> (r: Result<Option<Vec<String>>>)
    ensures
        size_status == PDH_CSTATUS_NO_OBJECT ==> r matches Ok(None),
        size_status == PDH_SUCCESS && instance_size <= 1 ==> (r matches Ok(Some(v)) && v@.len() == 0),
        size_status == PDH_MORE_DATA && fetch.0 == PDH_SUCCESS ==> (r matches Ok(Some(v)) && texts(
            v@,
        ) == multi_string(fetch.1@)),
        size_status == PDH_MORE_DATA && fetch.0 != PDH_SUCCESS ==> fails_with(
            r,
            failure_text(enumeration_step("data fetch"@, set@), fetch.0),
        ),
        size_status != PDH_CSTATUS_NO_OBJECT && size_status != PDH_MORE_DATA && !(size_status
            == PDH_SUCCESS && instance_size <= 1) ==> fails_with(
            r,
            failure_text(enumeration_step("size query"@, set@), size_status),
        ),
{
    match after_size_query(size_status, instance_size, set) {
        SizeQuery::Absent => Ok(None),
        SizeQuery::NoInstance => Ok(Some(Vec::new())),
        SizeQuery::Failed(e) => Err(e),
        SizeQuery::Fetch => {
            if fetch.0 != PDH_SUCCESS {
                Err(enumeration_failure("data fetch", set, fetch.0))
            } else {
                Ok(Some(parse_multi_string(fetch.1)))
            }
        },
    }
}

/// What reading one counter returned.
#[derive(Debug, Clone, Copy, PartialEq, Eq, Structural)]
pub struct CounterReading {
    /// The status.
    pub status: u32,
    /// The value.
    pub value: i64,
}

/// A reading as a byte count: `None` when the read failed or the value is negative.
pub open spec fn reading_bytes(c: CounterReading) -> Option<u64> {
    if c.status == PDH_SUCCESS && c.value >= 0 {
        Some(c.value as u64)
    } else {
        None
    }
}

/// A reading as a byte count.
pub fn read_counter_bytes(c: CounterReading) -> (r: Option<u64>)
    ensures
        r == reading_bytes(c),
{
    if c.status != PDH_SUCCESS || c.value < 0 {
        None
    } else {
        Some(c.value as u64)
    }
}

// ---------------------------------------------------------------------------
// Counters to add
// ---------------------------------------------------------------------------

/// The path of a counter of one instance.
pub open spec fn counter_path(
    set: Seq<char>,
    instance: Seq<char>,
    counter: Seq<char>,
) -> Seq<char> {
    "\\"@ + set + "("@ + instance + ")\\"@ + counter
}

fn counter_path_string(set: &str, instance: &str, counter: &str) -> (s: String)
    ensures
        s@ == counter_path(set@, instance@, counter@),
{
    let mut s = String::from_str("\\");
    s.append(set);
    s.append("(");
    s.append(instance);
    s.append(")\\");
    s.append(counter);
    s
}

/// The counters to add for one instance.
#[derive(Debug)]
pub struct InstanceCounters {
    /// Process ID; 0 for an adapter instance.
    pub pid: u32,
    /// Memory segment.
    pub segment_idx: u32,
    /// Path of the dedicated-usage counter.
    pub dedicated_path: String,
    /// Path of the shared-usage counter.
    pub shared_path: String,
}

/// Whether `c` are the counters of the instance `name` of the counter set.
pub open spec fn counters_for(
    c: InstanceCounters,
    set: Seq<char>,
    name: Seq<char>,
    pid: u32,
    segment_idx: u32,
) -> bool {
    &&& c.pid == pid
    &&& c.segment_idx == segment_idx
    &&& c.dedicated_path@ == counter_path(set, name, "Dedicated Usage"@)
    &&& c.shared_path@ == counter_path(set, name, "Shared Usage"@)
}

/// Whether `c` are the counters of the process instance `name`.
pub open spec fn plans_process(c: InstanceCounters, name: Seq<char>) -> bool {
    process_instance(name) matches Some((pid, _, seg)) && counters_for(
        c,
        "GPU Process Memory"@,
        name,
        pid,
        seg,
    )
}

/// Whether `c` are the counters of the adapter instance `name`.
pub open spec fn plans_adapter(c: InstanceCounters, name: Seq<char>) -> bool {
    luid_tail(name) matches Some((_, seg)) && counters_for(c, "GPU Adapter Memory"@, name, 0, seg)
}

/// The process instances of an adapter among the names, in order.
pub open spec fn process_instances_of(
    names: Seq<Seq<char>>,
    luid: (i32, u32),
) -> Seq<Seq<char>>
    decreases names.len(),
{
    if names.len() == 0 {
        seq![]
    } else {
        let init = process_instances_of(names.drop_last(), luid);
        match process_instance(names.last()) {
            Some((_, l, _)) => if l == luid {
                init.push(names.last())
            } else {
                init
            },
            None => init,
        }
    }
}

/// The adapter instances of an adapter among the names, in order.
pub open spec fn adapter_instances_of(
    names: Seq<Seq<char>>,
    luid: (i32, u32),
) -> Seq<Seq<char>>
    decreases names.len(),
{
    if names.len() == 0 {
        seq![]
    } else {
        let init = adapter_instances_of(names.drop_last(), luid);
        match luid_tail(names.last()) {
            Some((l, _)) => if l == luid {
                init.push(names.last())
            } else {
                init
            },
            None => init,
        }
    }
}

/// The counters to add for the processes on an adapter: two per instance of the adapter.
pub fn process_counters(instances: &Vec<String>, luid: (i32, u32)) -> (v: Vec<InstanceCounters>)
    ensures
        v@.len() == process_instances_of(texts(instances@), luid).len(),
        forall|i: int|
            0 <= i < v@.len() ==> plans_process(#[trigger] v@[i], process_instances_of(texts(instances@), luid)[i]),
{
    let mut v: Vec<InstanceCounters> = Vec::new();
    let ghost names = texts(instances@);
    let mut i: usize = 0;
    assert(names.take(0) =~= seq![]);
    while i < instances.len()
        invariant
            i <= instances@.len(),
            names == texts(instances@),
            v@.len() == process_instances_of(names.take(i as int), luid).len(),
            forall|k: int|
                0 <= k < v@.len() ==> plans_process(#[trigger] v@[k], process_instances_of(names.take(i as int), luid)[k]),
        decreases instances@.len() - i,
    {
        let name = instances[i].as_str();
        assert(names.take(i + 1).drop_last() =~= names.take(i as int));
        assert(names.take(i + 1).last() == name@);
        match parse_instance_name(name) {
            Some((pid, l, segment_idx)) => {
                if l.0 == luid.0 && l.1 == luid.1 {
                    v.push(
                        InstanceCounters {
                            pid,
                            segment_idx,
                            dedicated_path: counter_path_string(
                                "GPU Process Memory",
                                name,
                                "Dedicated Usage",
                            ),
                            shared_path: counter_path_string(
                                "GPU Process Memory",
                                name,
                                "Shared Usage",
                            ),
                        },
                    );
                }
            },
            None => {},
        }
        i += 1;
    }
    assert(names.take(i as int) =~= names);
    v
}

/// The counters to add for an adapter: two per segment.
pub fn adapter_counters(instances: &Vec<String>, luid: (i32, u32)) -> (v: Vec<InstanceCounters>)
    ensures
        v@.len() == adapter_instances_of(texts(instances@), luid).len(),
        forall|i: int|
            0 <= i < v@.len() ==> plans_adapter(#[trigger] v@[i], adapter_instances_of(texts(instances@), luid)[i]),
{
    let mut v: Vec<InstanceCounters> = Vec::new();
    let ghost names = texts(instances@);
    let mut i: usize = 0;
    assert(names.take(0) =~= seq![]);
    while i < instances.len()
        invariant
            i <= instances@.len(),
            names == texts(instances@),
            v@.len() == adapter_instances_of(names.take(i as int), luid).len(),
            forall|k: int|
                0 <= k < v@.len() ==> plans_adapter(#[trigger] v@[k], adapter_instances_of(names.take(i as int), luid)[k]),
        decreases instances@.len() - i,
    {
        let name = instances[i].as_str();
        assert(names.take(i + 1).drop_last() =~= names.take(i as int));
        assert(names.take(i + 1).last() == name@);
        match parse_adapter_instance_name(name) {
            Some((l, segment_idx)) => {
                if l.0 == luid.0 && l.1 == luid.1 {
                    v.push(
                        InstanceCounters {
                            pid: 0,
                            segment_idx,
                            dedicated_path: counter_path_string(
                                "GPU Adapter Memory",
                                name,
                                "Dedicated Usage",
                            ),
                            shared_path: counter_path_string(
                                "GPU Adapter Memory",
                                name,
                                "Shared Usage",
                            ),
                        },
                    );
                }
            },
            None => {},
        }
        i += 1;
    }
    assert(names.take(i as int) =~= names);
    v
}


// ---------------------------------------------------------------------------
// Per-process rows
// ---------------------------------------------------------------------------

/// The readings of one process instance; `None` for a counter that could not be added.
#[derive(Debug, Clone, Copy, PartialEq, Eq, Structural)]
pub struct InstanceReading {
    /// Process ID.
    pub pid: u32,
    /// Memory segment.
    pub segment_idx: u32,
    /// The dedicated-usage counter.
    pub dedicated: Option<CounterReading>,
    /// The shared-usage counter.
    pub shared: Option<CounterReading>,
}

/// Memory of one process in one segment.
#[derive(Debug, Clone, Copy, PartialEq, Eq, Structural)]
pub struct SegmentRow {
    /// Process ID.
    pub pid: u32,
    /// Memory segment.
    pub segment_idx: u32,
    /// Dedicated commit in bytes.
    pub used_bytes: u64,
    /// Resident shared bytes; 0 where they could not be read.
    pub shared_used_bytes: u64,
}

/// The row of an instance: none without a dedicated figure, and no shared bytes without a
/// shared figure.
pub open spec fn segment_row(r: InstanceReading) -> Option<SegmentRow> {
    match r.dedicated {
        Some(d) => match reading_bytes(d) {
            Some(used_bytes) => Some(
                SegmentRow {
                    pid: r.pid,
                    segment_idx: r.segment_idx,
                    used_bytes,
                    shared_used_bytes: match r.shared {
                        Some(c) => match reading_bytes(c) {
                            Some(b) => b,
                            None => 0,
                        },
                        None => 0,
                    },
                },
            ),
            None => None,
        },
        None => None,
    }
}

/// The rows of all instances, in order.
pub open spec fn segment_rows(readings: Seq<InstanceReading>) -> Seq<SegmentRow>
    decreases readings.len(),
{
    if readings.len() == 0 {
        seq![]
    } else {
        let init = segment_rows(readings.drop_last());
        match segment_row(readings.last()) {
            Some(r) => init.push(r),
            None => init,
        }
    }
}

/// Whether any instance has a dedicated counter, so that there is something to sample.
pub open spec fn any_added(readings: Seq<InstanceReading>) -> bool {
    exists|i: int| 0 <= i < readings.len() && (#[trigger] readings[i]).dedicated is Some
}

/// The rows of the processes on an adapter, from the readings of their counters and the
/// status of the sampling call. Without any counter nothing is sampled and there is no
/// row; a counter that cannot be read costs its row, or its shared figure.
pub fn collect_segmented_rows(
    readings: &Vec<InstanceReading>,
    collect_status: u32,
) -> (r: Result<Vec<SegmentRow>>)
    ensures
        !any_added(readings@) ==> (r matches Ok(v) && v@.len() == 0),
        any_added(readings@) && collect_status != PDH_SUCCESS ==> fails_with(
            r,
            failure_text("PdhCollectQueryData"@, collect_status),
        ),
        any_added(readings@) && collect_status == PDH_SUCCESS ==> (r matches Ok(v) && v@
            == segment_rows(readings@)),
{
    let mut rows: Vec<SegmentRow> = Vec::new();
    let mut added = false;
    let mut i: usize = 0;
    assert(readings@.take(0) =~= seq![]);
    while i < readings.len()
        invariant
            i <= readings@.len(),
            added <==> exists|k: int| 0 <= k < i && (#[trigger] readings@[k]).dedicated is Some,
            rows@ == segment_rows(readings@.take(i as int)),
        decreases readings@.len() - i,
    {
        let r = readings[i];
        assert(readings@.take(i + 1).drop_last() =~= readings@.take(i as int));
        assert(readings@.take(i + 1).last() == r);
        match r.dedicated {
            Some(d) => {
                added = true;
                assert(readings@[i as int].dedicated is Some);
                match read_counter_bytes(d) {
                    Some(used_bytes) => {
                        let shared_used_bytes: u64 = match r.shared {
                            Some(c) => match read_counter_bytes(c) {
                                Some(b) => b,
                                None => 0,
                            },
                            None => 0,
                        };
                        rows.push(
                            SegmentRow {
                                pid: r.pid,
                                segment_idx: r.segment_idx,
                                used_bytes,
                                shared_used_bytes,
                            },
                        );
                    },
                    None => {},
                }
            },
            None => {},
        }
        i += 1;
    }
    assert(readings@.take(i as int) =~= readings@);
    if !added {
        return Ok(Vec::new());
    }
    if collect_status != PDH_SUCCESS {
        return Err(failure("PdhCollectQueryData", collect_status));
    }
    Ok(rows)
}

/// Memory of one process on an adapter, over all segments.
#[derive(Debug, Clone, Copy, PartialEq, Eq, Structural)]
pub struct ProcessMemoryRow {
    /// Process ID.
    pub pid: u32,
    /// Dedicated commit in bytes.
    pub dedicated_committed_bytes: u64,
    /// Resident shared bytes.
    pub shared_used_bytes: u64,
}

/// The processes of the rows, each once, in the order of their first row.
pub open spec fn distinct_pids(rows: Seq<SegmentRow>) -> Seq<u32>
    decreases rows.len(),
{
    if rows.len() == 0 {
        seq![]
    } else {
        let init = distinct_pids(rows.drop_last());
        if init.contains(rows.last().pid) {
            init
        } else {
            init.push(rows.last().pid)
        }
    }
}

/// The dedicated bytes of a process over all its rows.
pub open spec fn dedicated_total(rows: Seq<SegmentRow>, pid: u32) -> nat
    decreases rows.len(),
{
    if rows.len() == 0 {
        0
    } else {
        dedicated_total(rows.drop_last(), pid) + if rows.last().pid == pid {
            rows.last().used_bytes as nat
        } else {
            0
        }
    }
}

/// The shared bytes of a process over all its rows.
pub open spec fn shared_total(rows: Seq<SegmentRow>, pid: u32) -> nat
    decreases rows.len(),
{
    if rows.len() == 0 {
        0
    } else {
        shared_total(rows.drop_last(), pid) + if rows.last().pid == pid {
            rows.last().shared_used_bytes as nat
        } else {
            0
        }
    }
}

/// A number, at most `u64::MAX`.
pub open spec fn clamp64(n: nat) -> u64 {
    if n <= u64::MAX {
        n as u64
    } else {
        u64::MAX
    }
}

/// The row of a process: the sums over its segments, at most `u64::MAX` each.
pub open spec fn process_row(rows: Seq<SegmentRow>, pid: u32) -> ProcessMemoryRow {
    ProcessMemoryRow {
        pid,
        dedicated_committed_bytes: clamp64(dedicated_total(rows, pid)),
        shared_used_bytes: clamp64(shared_total(rows, pid)),
    }
}

/// One row per process, in the order of first appearance.
pub open spec fn process_rows(rows: Seq<SegmentRow>) -> Seq<ProcessMemoryRow> {
    distinct_pids(rows).map_values(|pid: u32| process_row(rows, pid))
}

proof fn lemma_absent_pid(rows: Seq<SegmentRow>, pid: u32)
    requires
        !distinct_pids(rows).contains(pid),
    ensures
        dedicated_total(rows, pid) == 0,
        shared_total(rows, pid) == 0,
    decreases rows.len(),
{
    if rows.len() > 0 {
        let init = rows.drop_last();
        let d = distinct_pids(init);
        if d.contains(pid) {
            let k = choose|k: int| 0 <= k < d.len() && d[k] == pid;
            assert(distinct_pids(rows)[k] == pid);
        }
        if rows.last().pid == pid && !d.contains(pid) {
            assert(distinct_pids(rows).last() == pid);
        }
        lemma_absent_pid(init, pid);
    }
}

/// Per process there is at most one row.
pub proof fn law_one_row_per_process(rows: Seq<SegmentRow>)
    ensures
        distinct_pids(rows).no_duplicates(),
        forall|p: u32| #[trigger]
            distinct_pids(rows).contains(p) <==> exists|i: int|
                0 <= i < rows.len() && (#[trigger] rows[i]).pid == p,
    decreases rows.len(),
{
    if rows.len() > 0 {
        let init = rows.drop_last();
        law_one_row_per_process(init);
        let d = distinct_pids(init);
        let all = distinct_pids(rows);
        assert forall|p: u32| #[trigger] all.contains(p) <==> exists|i: int|
            0 <= i < rows.len() && (#[trigger] rows[i]).pid == p by {
            if all.contains(p) {
                if d.contains(p) {
                    let i = choose|i: int| 0 <= i < init.len() && (#[trigger] init[i]).pid == p;
                    assert(rows[i].pid == p);
                } else {
                    let k = choose|k: int| 0 <= k < all.len() && all[k] == p;
                    assert(k == d.len());
                    assert(rows[rows.len() - 1].pid == p);
                }
            }
            if exists|i: int| 0 <= i < rows.len() && (#[trigger] rows[i]).pid == p {
                let i = choose|i: int| 0 <= i < rows.len() && (#[trigger] rows[i]).pid == p;
                if i < init.len() {
                    assert(init[i].pid == p);
                    assert(d.contains(p));
                    let k = choose|k: int| 0 <= k < d.len() && d[k] == p;
                    assert(all[k] == p);
                } else if !d.contains(p) {
                    assert(all[d.len() as int] == p);
                } else {
                    let k = choose|k: int| 0 <= k < d.len() && d[k] == p;
                    assert(all[k] == p);
                }
            }
        }
    }
}

/// Sum the rows per process.
pub fn aggregate(rows: &Vec<SegmentRow>) -> (out: Vec<ProcessMemoryRow>)
    ensures
        out@ == process_rows(rows@),
{
    let mut out: Vec<ProcessMemoryRow> = Vec::new();
    let mut i: usize = 0;
    assert(rows@.take(0) =~= seq![]);
    assert(out@ =~= process_rows(rows@.take(0)));
    while i < rows.len()
        invariant
            i <= rows@.len(),
            out@ == process_rows(rows@.take(i as int)),
        decreases rows@.len() - i,
    {
        let r = rows[i];
        let ghost done = rows@.take(i as int);
        let ghost next = rows@.take(i + 1);
        let ghost pids = distinct_pids(done);
        proof {
            assert(next.drop_last() =~= done);
            assert(next.last() == r);
            law_one_row_per_process(done);
        }
        let mut k: usize = 0;
        while k < out.len() && out[k].pid != r.pid
            invariant
                k <= out@.len(),
                out@ == process_rows(done),
                pids == distinct_pids(done),
                forall|j: int| 0 <= j < k ==> pids[j] != r.pid,
            decreases out@.len() - k,
        {
            assert(out@[k as int].pid == pids[k as int]);
            k += 1;
        }
        let ghost before = out@;
        if k < out.len() {
            assert(out@[k as int].pid == pids[k as int]);
            assert(pids.contains(r.pid));
            let old_row = out[k];
            let new_row = ProcessMemoryRow {
                pid: r.pid,
                dedicated_committed_bytes: old_row.dedicated_committed_bytes.saturating_add(
                    r.used_bytes,
                ),
                shared_used_bytes: old_row.shared_used_bytes.saturating_add(r.shared_used_bytes),
            };
            out.set(k, new_row);
            assert forall|j: int| 0 <= j < pids.len() implies #[trigger] out@[j] == process_row(
                next,
                pids[j],
            ) by {
                assert(before[j] == process_row(done, pids[j]));
                if j != k {
                    assert(pids[j] != pids[k as int]);
                }
            }
            assert(out@ =~= process_rows(next));
        } else {
            assert(!pids.contains(r.pid));
            proof {
                lemma_absent_pid(done, r.pid);
            }
            out.push(
                ProcessMemoryRow {
                    pid: r.pid,
                    dedicated_committed_bytes: r.used_bytes,
                    shared_used_bytes: r.shared_used_bytes,
                },
            );
            assert forall|j: int| 0 <= j < pids.len() implies #[trigger] out@[j] == process_row(
                next,
                pids[j],
            ) by {
                assert(before[j] == process_row(done, pids[j]));
                assert(pids.contains(pids[j]));
            }
            assert(out@ =~= process_rows(next));
        }
        i += 1;
    }
    assert(rows@.take(i as int) =~= rows@);
    out
}

/// The message for a device that DXGI does not list.
pub open spec fn no_adapter_text(device_index: u32) -> Seq<char> {
    "no NVIDIA adapter at device_index "@ + decimal(device_index as nat) + " via DXGI walk"@
}

/// The identifier of the device's adapter, or the error when DXGI does not list it.
pub fn target_luid(device_index: u32, luid: Option<(i32, u32)>) -> (r: Result<(i32, u32)>)
    ensures
        luid matches Some(l) ==> r == Ok::<(i32, u32), HypomnesisError>(l),
        luid is None ==> fails_with(r, no_adapter_text(device_index)),
{
    match luid {
        Some(l) => Ok(l),
        None => {
            let mut s = String::from_str("no NVIDIA adapter at device_index ");
            push_decimal(&mut s, device_index as u64);
            s.append(" via DXGI walk");
            Err(HypomnesisError::Pdh(s))
        },
    }
}

/// The process instances, or the error when their counter set is not there.
pub fn process_instances(enumerated: Result<Option<Vec<String>>>) -> (r: Result<Vec<String>>)
    ensures
        match enumerated {
            Ok(Some(v)) => r == Ok::<Vec<String>, HypomnesisError>(v),
            Ok(None) => fails_with(
                r,
                "GPU Process Memory counter set not registered (pre-WDDM 2.0?)"@,
            ),
            Err(e) => r == Err::<Vec<String>, HypomnesisError>(e),
        },
{
    match enumerated {
        Ok(Some(v)) => Ok(v),
        Ok(None) => Err(
            HypomnesisError::Pdh(
                String::from_str("GPU Process Memory counter set not registered (pre-WDDM 2.0?)"),
            ),
        ),
        Err(e) => Err(e),
    }
}

/// Per-process memory on an adapter, at most one row per process, from the rows per
/// segment.
pub fn query_per_process_vram(segments: Result<Vec<SegmentRow>>) -> (r: Result<
    Vec<ProcessMemoryRow>,
>)
    ensures
        match segments {
            Ok(rows) => r matches Ok(v) && v@ == process_rows(rows@),
            Err(e) => r == Err::<Vec<ProcessMemoryRow>, HypomnesisError>(e),
        },
{
    match segments {
        Ok(rows) => Ok(aggregate(&rows)),
        Err(e) => Err(e),
    }
}

} // verus!
