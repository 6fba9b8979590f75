//! What the readings of NVML and DXGI come to, said of the results of the calls.
use crate::gpu::dxgi::{
    adapter_dedicated_video_memory, adapter_luid, device_count as dxgi_device_count,
    enumerate_non_nvidia, is_nvidia, is_other_gpu, nvidia_count, nvidia_position, other_gpus,
    query as dxgi_query, AdapterDesc, DxgiAdapterEntry, DxgiQueryResult,
};
use crate::gpu::nvml::{
    calls_from, device_count as nvml_device_count, entry_of, list_compute_processes, listed,
    plausible_rows, query as nvml_query, read_process_used, read_text, zero_index, NvmlAction,
    NvmlGoal, NvmlMemoryInfo, NvmlProcessInfo, NvmlProcessList, NvmlQueryResult, NvmlReadings,
    NvmlText,
};
use crate::text::opt_text;
use crate::utf::utf8_text;
use vstd::prelude::*;

verus! {

// ---------------------------------------------------------------------------
// NVML
// ---------------------------------------------------------------------------

/// Whether a session that may read on: it was initialised, and has its device and the
/// device's memory.
pub open spec fn reads_on(rets: spec_fn(NvmlAction) -> u32) -> bool {
    rets(NvmlAction::Init) == 0 && rets(NvmlAction::GetHandle) == 0 && rets(NvmlAction::GetMemory)
        == 0
}

/// The calls of a session, whatever the best-effort readings return: a query reads memory,
/// name, reserved memory, driver version and processes, a listing memory and processes, a
/// count the count alone; each only as far as the calls it needs succeeded.
pub proof fn law_session_calls(goal: NvmlGoal, rets: spec_fn(NvmlAction) -> u32)
    ensures
        goal == NvmlGoal::Query && reads_on(rets) ==> calls_from(goal, NvmlAction::Init, rets)
            == seq![
            NvmlAction::Init,
            NvmlAction::GetHandle,
            NvmlAction::GetMemory,
            NvmlAction::GetName,
            NvmlAction::GetReserved,
            NvmlAction::GetDriverVersion,
            NvmlAction::GetProcesses,
            NvmlAction::Shutdown,
        ],
        goal == NvmlGoal::ListProcesses && reads_on(rets) ==> calls_from(
            goal,
            NvmlAction::Init,
            rets,
        ) == seq![
            NvmlAction::Init,
            NvmlAction::GetHandle,
            NvmlAction::GetMemory,
            NvmlAction::GetProcesses,
            NvmlAction::Shutdown,
        ],
        goal == NvmlGoal::Count && rets(NvmlAction::Init) == 0 ==> calls_from(
            goal,
            NvmlAction::Init,
            rets,
        ) == seq![NvmlAction::Init, NvmlAction::GetCount, NvmlAction::Shutdown],
        goal != NvmlGoal::Count && rets(NvmlAction::Init) == 0 && rets(NvmlAction::GetHandle) != 0
            ==> calls_from(goal, NvmlAction::Init, rets) == seq![
            NvmlAction::Init,
            NvmlAction::GetHandle,
            NvmlAction::Shutdown,
        ],
        goal != NvmlGoal::Count && rets(NvmlAction::Init) == 0 && rets(NvmlAction::GetHandle) == 0
            && rets(NvmlAction::GetMemory) != 0 ==> calls_from(goal, NvmlAction::Init, rets)
            == seq![
            NvmlAction::Init,
            NvmlAction::GetHandle,
            NvmlAction::GetMemory,
            NvmlAction::Shutdown,
        ],
{
    reveal_with_fuel(calls_from, 10);
}

/// A query gives each device-wide figure under the name under which NVML read it, the
/// reserved memory where reading it succeeded, and the figure of the process that the
/// process list has.
pub proof fn law_query_takes_the_figures(
    readings: NvmlReadings,
    pid: u32,
    r: Option<NvmlQueryResult>,
    used: Option<u64>,
)
    requires
        call_ensures(nvml_query, (&readings, pid), r),
        readings.memory is Some ==> call_ensures(
            read_process_used,
            (&readings.processes, pid, readings.memory->0.total),
            used,
        ),
    ensures
        r is Some <==> readings.memory is Some,
        r is Some ==> {
            let q = r->0;
            let m = readings.memory->0;
            &&& q.device_total == m.total
            &&& q.device_free == m.free
            &&& q.device_used == m.used
            &&& q.process_used_bytes == used
            &&& readings.reserved is None ==> q.reserved_bytes is None
            &&& readings.reserved is Some && (readings.reserved->0).0 == 0 ==> q.reserved_bytes
                == Some((readings.reserved->0).1)
            &&& readings.reserved is Some && (readings.reserved->0).0 != 0 ==> q.reserved_bytes
                is None
        },
{
}

/// The names that a query gives are those read: the adapter's is the text of the name
/// buffer, the driver's that of the version buffer.
pub proof fn law_query_takes_the_names(
    readings: NvmlReadings,
    pid: u32,
    r: Option<NvmlQueryResult>,
    name: Option<String>,
    version: Option<String>,
)
    requires
        call_ensures(nvml_query, (&readings, pid), r),
        call_ensures(read_text, (&readings.name,), name),
        call_ensures(read_text, (&readings.driver_version,), version),
    ensures
        r is Some ==> opt_text(r->0.device_name) == opt_text(name) && opt_text(
            r->0.driver_version,
        ) == opt_text(version),
{
}

/// The text in a buffer is what precedes its first zero byte; no text where that is empty
/// or the call failed.
pub proof fn law_text_ends_at_the_zero(t: NvmlText, n: int, r: Option<String>)
    requires
        call_ensures(read_text, (&Some(t),), r),
        0 <= n <= t.buffer@.len(),
        forall|k: int| 0 <= k < n ==> t.buffer@[k] != 0,
        n < t.buffer@.len() ==> t.buffer@[n] == 0,
    ensures
        t.ret != 0 ==> r is None,
        t.ret == 0 && utf8_text(t.buffer@.take(n)).len() > 0 ==> r is Some && r->0@ == utf8_text(
            t.buffer@.take(n),
        ),
        t.ret == 0 && utf8_text(t.buffer@.take(n)).len() == 0 ==> r is None,
{
    lemma_zero_index(t.buffer@, n);
}

proof fn lemma_zero_index(b: Seq<u8>, n: int)
    requires
        0 <= n <= b.len(),
        forall|k: int| 0 <= k < n ==> b[k] != 0,
        n < b.len() ==> b[n] == 0,
    ensures
        zero_index(b) == n,
    decreases n,
{
    if n > 0 {
        let t = b.skip(1);
        assert forall|k: int| 0 <= k < n - 1 implies t[k] != 0 by {
            assert(t[k] == b[k + 1]);
        }
        assert(n < b.len() ==> t[n - 1] == b[n]);
        lemma_zero_index(t, n - 1);
    }
}

/// The entries of a process list that count: as many as NVML reports, as there is room for,
/// and at most 64.
pub open spec fn counts(l: NvmlProcessList, k: int) -> bool {
    0 <= k < 64 && k < l.count && k < l.infos@.len()
}

proof fn lemma_listed(l: NvmlProcessList)
    ensures
        forall|k: int| #![trigger listed(l)[k]] counts(l, k) <==> 0 <= k < listed(l).len(),
        forall|k: int| 0 <= k < listed(l).len() ==> #[trigger] listed(l)[k] == l.infos@[k],
{
}

proof fn lemma_entry_of(rows: Seq<NvmlProcessInfo>, pid: u32, k: int)
    requires
        0 <= k <= rows.len(),
        forall|j: int| 0 <= j < k ==> (#[trigger] rows[j]).pid != pid,
        k < rows.len() ==> rows[k].pid == pid,
    ensures
        k < rows.len() ==> entry_of(rows, pid) == Some(rows[k]),
        k == rows.len() ==> entry_of(rows, pid) is None,
    decreases k,
{
    if k > 0 {
        let t = rows.skip(1);
        assert(rows[0].pid != pid);
        assert forall|j: int| 0 <= j < k - 1 implies (#[trigger] t[j]).pid != pid by {
            assert(t[j] == rows[j + 1]);
        }
        assert(k < rows.len() ==> t[k - 1] == rows[k]);
        lemma_entry_of(t, pid, k - 1);
    }
}

/// The figure of a process is that of its first entry in the list, unless that is the mark
/// for "not available" or exceeds the memory of the device.
pub proof fn law_process_figure_is_listed(
    l: NvmlProcessList,
    pid: u32,
    total: u64,
    r: Option<u64>,
    k: int,
)
    requires
        call_ensures(read_process_used, (&Some(l), pid, total), r),
        l.ret == 0 || l.ret == 7,
        counts(l, k),
        l.infos@[k].pid == pid,
        forall|j: int| 0 <= j < k ==> (#[trigger] l.infos@[j]).pid != pid,
    ensures
        l.infos@[k].used_gpu_memory != u64::MAX && l.infos@[k].used_gpu_memory <= total ==> r
            == Some(l.infos@[k].used_gpu_memory),
        l.infos@[k].used_gpu_memory == u64::MAX || l.infos@[k].used_gpu_memory > total
            ==> r is None,
{
    lemma_listed(l);
    assert(listed(l)[k] == l.infos@[k]);
    assert forall|j: int| 0 <= j < k implies (#[trigger] listed(l)[j]).pid != pid by {
        assert(listed(l)[j] == l.infos@[j]);
    }
    lemma_entry_of(listed(l), pid, k);
}

/// A process that the list does not hold, or of which there is no usable list, has no
/// figure.
pub proof fn law_unlisted_process_has_no_figure(
    l: Option<NvmlProcessList>,
    pid: u32,
    total: u64,
    r: Option<u64>,
)
    requires
        call_ensures(read_process_used, (&l, pid, total), r),
        l is None || (l->0.ret != 0 && l->0.ret != 7) || (forall|k: int|
            counts(l->0, k) ==> (#[trigger] l->0.infos@[k]).pid != pid),
    ensures
        r is None,
{
    if l is Some {
        lemma_listed(l->0);
        if forall|k: int| counts(l->0, k) ==> (#[trigger] l->0.infos@[k]).pid != pid {
            assert forall|j: int| 0 <= j < listed(l->0).len() implies (#[trigger] listed(
                l->0,
            )[j]).pid != pid by {
                assert(listed(l->0)[j] == l->0.infos@[j]);
            }
            lemma_entry_of(listed(l->0), pid, listed(l->0).len() as int);
        }
    }
}

proof fn lemma_plausible_rows(rows: Seq<NvmlProcessInfo>, total: u64)
    ensures
        plausible_rows(rows, total) == rows.filter(
            |p: NvmlProcessInfo| p.used_gpu_memory != u64::MAX && p.used_gpu_memory <= total,
        ).map_values(|p: NvmlProcessInfo| (p.pid, p.used_gpu_memory)),
    decreases rows.len(),
{
    reveal(Seq::filter);
    let f = |p: NvmlProcessInfo| p.used_gpu_memory != u64::MAX && p.used_gpu_memory <= total;
    let g = |p: NvmlProcessInfo| (p.pid, p.used_gpu_memory);
    if rows.len() > 0 {
        lemma_plausible_rows(rows.drop_last(), total);
        let init = rows.drop_last().filter(f);
        assert(init.push(rows.last()).map_values(g) =~= init.map_values(g).push(g(rows.last())));
    } else {
        assert(rows.filter(f).map_values(g) =~= seq![]);
    }
}

/// The processes listed are those of the entries that count, in their order, each with its
/// own figure; left out are exactly the entries with the mark for "not available" and those
/// beyond the memory of the device.
pub proof fn law_listed_processes(
    memory: NvmlMemoryInfo,
    l: NvmlProcessList,
    n: int,
    r: Option<Vec<(u32, u64)>>,
)
    requires
        call_ensures(list_compute_processes, (&Some(memory), &Some(l)), r),
        n == if l.count <= 64 {
            l.count as int
        } else {
            64
        },
        n <= l.infos@.len(),
    ensures
        r is Some <==> l.ret == 0 || l.ret == 7,
        r is Some ==> r->0@ == l.infos@.take(n).filter(
            |p: NvmlProcessInfo|
                p.used_gpu_memory != u64::MAX && p.used_gpu_memory <= memory.total,
        ).map_values(|p: NvmlProcessInfo| (p.pid, p.used_gpu_memory)),
{
    assert(listed(l) == l.infos@.take(n));
    lemma_plausible_rows(listed(l), memory.total);
}

/// The count is the one read, where reading it succeeded.
pub proof fn law_nvml_count(ret: u32, count: u32, r: Option<u32>)
    requires
        call_ensures(nvml_device_count, (ret, count), r),
    ensures
        ret == 0 ==> r == Some(count),
        ret != 0 ==> r is None,
{
}

// ---------------------------------------------------------------------------
// DXGI
// ---------------------------------------------------------------------------

/// Whether an adapter is NVIDIA's and has memory of its own.
pub open spec fn counted() -> spec_fn(AdapterDesc) -> bool {
    |a: AdapterDesc| a.vendor_id == 0x10DE && a.dedicated_video_memory > 0
}

/// Whether an adapter is neither NVIDIA's nor the basic render driver, and has memory.
pub open spec fn further() -> spec_fn(AdapterDesc) -> bool {
    |a: AdapterDesc|
        a.vendor_id != 0x10DE && a.vendor_id != 0x1414 && (a.dedicated_video_memory > 0
            || a.shared_system_memory > 0)
}

proof fn lemma_filter_front<T>(s: Seq<T>, f: spec_fn(T) -> bool)
    requires
        s.len() > 0,
    ensures
        s.filter(f).len() == s.skip(1).filter(f).len() + (if f(s[0]) {
            1nat
        } else {
            0nat
        }),
    decreases s.len(),
{
    reveal(Seq::filter);
    if s.len() > 1 {
        lemma_filter_front(s.drop_last(), f);
        assert(s.drop_last().skip(1) =~= s.skip(1).drop_last());
        assert(s.skip(1).last() == s.last());
    } else {
        assert(s.skip(1) =~= seq![]);
        assert(s.drop_last() =~= seq![]);
        assert(s.last() == s[0]);
    }
}

proof fn lemma_position(adapters: Seq<AdapterDesc>, idx: nat)
    ensures
        match nvidia_position(adapters, idx) {
            Some(i) => 0 <= i < adapters.len() && counted()(adapters[i]) && adapters.take(i).filter(
                counted(),
            ).len() == idx,
            None => adapters.filter(counted()).len() <= idx,
        },
    decreases adapters.len(),
{
    reveal(Seq::filter);
    if adapters.len() > 0 {
        let rest = adapters.skip(1);
        lemma_filter_front(adapters, counted());
        if is_nvidia(adapters[0]) && idx == 0 {
            assert(adapters.take(0) =~= seq![]);
        } else {
            let next = if is_nvidia(adapters[0]) {
                (idx - 1) as nat
            } else {
                idx
            };
            lemma_position(rest, next);
            if nvidia_position(rest, next) is Some {
                let i = nvidia_position(rest, next)->0;
                let t = adapters.take(i + 1);
                lemma_filter_front(t, counted());
                assert(t.skip(1) =~= rest.take(i));
                assert(t[0] == adapters[0]);
            }
        }
    }
}

/// DXGI's answer for device `idx` is that of the adapter before which `idx` adapters count:
/// its own memory, what the process uses, its identifier. There is none beyond the last.
pub proof fn law_adapter_by_index(
    adapters: Vec<AdapterDesc>,
    idx: u32,
    q: Option<DxgiQueryResult>,
    luid: Option<(i32, u32)>,
    memory: Option<u64>,
    i: int,
)
    requires
        call_ensures(dxgi_query, (&adapters, idx), q),
        call_ensures(adapter_luid, (&adapters, idx), luid),
        call_ensures(adapter_dedicated_video_memory, (&adapters, idx), memory),
    ensures
        0 <= i < adapters@.len() && adapters@[i].vendor_id == 0x10DE
            && adapters@[i].dedicated_video_memory > 0 && adapters@.take(i).filter(counted()).len()
            == idx ==> {
            &&& luid == Some(adapters@[i].luid)
            &&& memory == Some(adapters@[i].dedicated_video_memory)
            &&& q is Some <==> adapters@[i].current_usage is Some
            &&& q is Some ==> q->0.current_usage == adapters@[i].current_usage->0
                && q->0.dedicated_video_memory == adapters@[i].dedicated_video_memory
        },
        adapters@.filter(counted()).len() <= idx ==> luid is None && memory is None && q is None,
{
    lemma_position(adapters@, idx as nat);
    let s = adapters@;
    let found = nvidia_position(s, idx as nat);
    if found is Some {
        let k = found->0;
        lemma_filter_grows(s, k, s.len() as int);
        if 0 <= i < s.len() && counted()(s[i]) && s.take(i).filter(counted()).len() == idx {
            if k < i {
                lemma_filter_grows(s, k, i);
            } else if i < k {
                lemma_filter_grows(s, i, k);
            }
        }
        assert(s.take(s.len() as int) =~= s);
    } else if 0 <= i < s.len() && counted()(s[i]) && s.take(i).filter(counted()).len() == idx {
        lemma_filter_grows(s, i, s.len() as int);
        assert(s.take(s.len() as int) =~= s);
    }
}

/// Behind an adapter that counts, more adapters count than before it.
proof fn lemma_filter_grows(s: Seq<AdapterDesc>, i: int, j: int)
    requires
        0 <= i < j <= s.len(),
        counted()(s[i]),
    ensures
        s.take(i).filter(counted()).len() < s.take(j).filter(counted()).len(),
    decreases j - i,
{
    reveal(Seq::filter);
    let t = s.take(j);
    assert(t.drop_last() =~= s.take(j - 1));
    assert(t.last() == s[j - 1]);
    if j - 1 > i {
        lemma_filter_grows(s, i, j - 1);
    }
}

/// The number of devices that DXGI has is that of the adapters that are NVIDIA's and have
/// memory of their own.
pub proof fn law_dxgi_count(adapters: Vec<AdapterDesc>, r: Option<u32>)
    requires
        call_ensures(dxgi_device_count, (&Some(adapters),), r),
        adapters@.len() <= u32::MAX,
    ensures
        r is Some && r->0 == adapters@.filter(counted()).len(),
{
    lemma_count(adapters@);
}

proof fn lemma_count(adapters: Seq<AdapterDesc>)
    ensures
        nvidia_count(adapters) == adapters.filter(counted()).len(),
        nvidia_count(adapters) <= adapters.len(),
    decreases adapters.len(),
{
    reveal(Seq::filter);
    if adapters.len() > 0 {
        lemma_count(adapters.drop_last());
    }
}

/// The further adapters are those that are neither NVIDIA's nor the basic render driver and
/// have memory, in order, each with its own figures; a usage that cannot be queried is 0.
pub proof fn law_further_adapters_listed(
    adapters: Vec<AdapterDesc>,
    v: Vec<DxgiAdapterEntry>,
    i: int,
)
    requires
        call_ensures(enumerate_non_nvidia, (&adapters,), v),
    ensures
        v@.len() == adapters@.filter(further()).len(),
        0 <= i < v@.len() ==> {
            let a = adapters@.filter(further())[i];
            &&& v@[i].dedicated_video_memory == a.dedicated_video_memory
            &&& v@[i].shared_system_memory == a.shared_system_memory
            &&& a.current_usage is Some ==> v@[i].current_usage == a.current_usage->0
            &&& a.current_usage is None ==> v@[i].current_usage == 0
        },
{
    lemma_others(adapters@);
    let x = v@[i];
}

proof fn lemma_others(adapters: Seq<AdapterDesc>)
    ensures
        other_gpus(adapters) == adapters.filter(further()),
    decreases adapters.len(),
{
    reveal(Seq::filter);
    if adapters.len() > 0 {
        lemma_others(adapters.drop_last());
        assert(is_other_gpu(adapters.last()) == further()(adapters.last()));
    } else {
        assert(adapters.filter(further()) =~= seq![]);
    }
}

} // verus!
