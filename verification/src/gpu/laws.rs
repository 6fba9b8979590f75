//! What the choice among the backends comes to, said of the results of the calls.
use crate::error::{HypomnesisError, Result};
use crate::gpu::dxgi::{DxgiAdapterEntry, DxgiQueryResult};
use crate::gpu::names::{fallback_name, opt_named};
use crate::gpu::nvidia_smi::NvidiaSmiResult;
use crate::gpu::nvml::NvmlQueryResult;
use crate::gpu::{
    bounds_check, by_pid, device_count, device_info, dxgi_non_nvidia_devices, gpu_processes,
    inserted_by_pid, law_listing_is_in_pid_order, listing, process_gpu_info, unresolved_pids,
    DeviceSources, ListingSources, PdhProcessRow,
};
use crate::snapshot::{
    entry_models, EntryModel, GpuDeviceInfo, GpuProcessEntry, GpuQuerySource, ProcessGpuInfo,
};
use crate::text::{opt_text, trimmed};
use vstd::prelude::*;

verus! {

// ---------------------------------------------------------------------------
// Counting
// ---------------------------------------------------------------------------

/// The number of devices is NVML's count where NVML has one, whatever the others say; else
/// DXGI's; else Metal's; and without any count there is no source.
pub proof fn law_count_priority(
    nvml: Option<u32>,
    dxgi: Option<u32>,
    metal: Option<u32>,
    r: Result<u32>,
)
    requires
        call_ensures(device_count, (nvml, dxgi, metal), r),
    ensures
        nvml is Some ==> (r matches Ok(n) && n == nvml->0),
        nvml is None && dxgi is Some ==> (r matches Ok(n) && n == dxgi->0),
        nvml is None && dxgi is None && metal is Some ==> (r matches Ok(n) && n == metal->0),
        nvml is None && dxgi is None && metal is None ==> (r matches Err(
            HypomnesisError::NoGpuSource,
        )),
{
}

/// An index passes exactly when it is below the number of devices, or that is unknown.
pub proof fn law_bounds(index: u32, nvml: Option<u32>, dxgi: Option<u32>, r: Result<()>)
    requires
        call_ensures(bounds_check, (index, nvml, dxgi), r),
    ensures
        nvml is Some ==> (r is Ok <==> index < nvml->0),
        nvml is None && dxgi is Some ==> (r is Ok <==> index < dxgi->0),
        nvml is None && dxgi is None ==> r is Ok,
        r is Err ==> (r matches Err(HypomnesisError::DeviceIndexOutOfRange { index: i, count })
            && i == index && count <= index),
{
}

// ---------------------------------------------------------------------------
// One device
// ---------------------------------------------------------------------------

/// Where NVML answers, the device is what NVML read, each figure under its own name. Only
/// its name is rather the one that DXGI has.
pub proof fn law_device_from_nvml(
    index: u32,
    s: DeviceSources,
    nvml_count: Option<u32>,
    dxgi_count: Option<u32>,
    r: Result<GpuDeviceInfo>,
)
    requires
        call_ensures(device_info, (index, s, nvml_count, dxgi_count), r),
        s.nvml is Some,
    ensures
        r is Ok,
        r->Ok_0.index == index,
        r->Ok_0.total_bytes == s.nvml->0.device_total,
        r->Ok_0.free_bytes == s.nvml->0.device_free,
        r->Ok_0.used_bytes == s.nvml->0.device_used,
        r->Ok_0.reserved_bytes == s.nvml->0.reserved_bytes,
        r->Ok_0.driver_version == s.nvml->0.driver_version,
        s.dxgi_name is Some ==> r->Ok_0.name == s.dxgi_name,
        s.dxgi_name is None ==> r->Ok_0.name == s.nvml->0.device_name,
{
}

/// Where DXGI decides, the total is the adapter's memory, and what the process uses of it
/// is used; the two figures never exceed the total but where more is used than there is.
pub proof fn law_device_from_dxgi(
    index: u32,
    s: DeviceSources,
    nvml_count: Option<u32>,
    dxgi_count: Option<u32>,
    r: Result<GpuDeviceInfo>,
)
    requires
        call_ensures(device_info, (index, s, nvml_count, dxgi_count), r),
        s.nvml is None,
        s.dxgi is Some,
    ensures
        r is Ok,
        r->Ok_0.index == index,
        r->Ok_0.name == s.dxgi->0.adapter_name,
        r->Ok_0.total_bytes == s.dxgi->0.dedicated_video_memory,
        r->Ok_0.used_bytes == s.dxgi->0.current_usage,
        r->Ok_0.used_bytes <= r->Ok_0.total_bytes ==> r->Ok_0.free_bytes + r->Ok_0.used_bytes
            == r->Ok_0.total_bytes,
        r->Ok_0.used_bytes > r->Ok_0.total_bytes ==> r->Ok_0.free_bytes == 0,
        r->Ok_0.reserved_bytes is None,
        r->Ok_0.driver_version is None,
{
}

/// Where Metal decides, the total is all memory, the working set is free, and the rest is
/// used.
pub proof fn law_device_from_metal(
    index: u32,
    s: DeviceSources,
    nvml_count: Option<u32>,
    dxgi_count: Option<u32>,
    r: Result<GpuDeviceInfo>,
)
    requires
        call_ensures(device_info, (index, s, nvml_count, dxgi_count), r),
        s.nvml is None,
        s.dxgi is None,
        s.metal is Some,
    ensures
        r is Ok,
        r->Ok_0.index == index,
        r->Ok_0.name == Some(s.metal->0.adapter_name),
        r->Ok_0.total_bytes == s.metal->0.dedicated_video_memory,
        r->Ok_0.free_bytes == s.metal->0.recommended_max_working_set,
        r->Ok_0.free_bytes <= r->Ok_0.total_bytes ==> r->Ok_0.free_bytes + r->Ok_0.used_bytes
            == r->Ok_0.total_bytes,
        r->Ok_0.free_bytes > r->Ok_0.total_bytes ==> r->Ok_0.used_bytes == 0,
        r->Ok_0.reserved_bytes is None,
        r->Ok_0.driver_version is None,
{
}

/// Where `nvidia-smi` decides, its figures are taken over, and what is not used is free.
pub proof fn law_device_from_nvidia_smi(
    index: u32,
    s: DeviceSources,
    nvml_count: Option<u32>,
    dxgi_count: Option<u32>,
    r: Result<GpuDeviceInfo>,
)
    requires
        call_ensures(device_info, (index, s, nvml_count, dxgi_count), r),
        s.nvml is None,
        s.dxgi is None,
        s.metal is None,
        s.nvidia_smi is Some,
    ensures
        r is Ok,
        r->Ok_0.index == index,
        r->Ok_0.name is None,
        r->Ok_0.total_bytes == s.nvidia_smi->0.total_bytes,
        r->Ok_0.used_bytes == s.nvidia_smi->0.used_bytes,
        r->Ok_0.used_bytes <= r->Ok_0.total_bytes ==> r->Ok_0.free_bytes + r->Ok_0.used_bytes
            == r->Ok_0.total_bytes,
        r->Ok_0.used_bytes > r->Ok_0.total_bytes ==> r->Ok_0.free_bytes == 0,
        r->Ok_0.reserved_bytes is None,
        r->Ok_0.driver_version == s.nvidia_smi->0.driver_version,
{
}

/// A device is described exactly when some backend answered. Otherwise the error tells an
/// index that no device has from a system without a source.
pub proof fn law_device_needs_an_answer(
    index: u32,
    s: DeviceSources,
    nvml_count: Option<u32>,
    dxgi_count: Option<u32>,
    r: Result<GpuDeviceInfo>,
)
    requires
        call_ensures(device_info, (index, s, nvml_count, dxgi_count), r),
    ensures
        r is Ok <==> s.nvml is Some || s.dxgi is Some || s.metal is Some || s.nvidia_smi is Some,
        r is Err && nvml_count is Some && index >= nvml_count->0 ==> (r matches Err(
            HypomnesisError::DeviceIndexOutOfRange { index: i, count },
        ) && i == index && count == nvml_count->0),
        r is Err && nvml_count is None && dxgi_count is Some && index >= dxgi_count->0
            ==> (r matches Err(HypomnesisError::DeviceIndexOutOfRange { index: i, count }) && i
            == index && count == dxgi_count->0),
        r is Err && nvml_count is Some && index < nvml_count->0 ==> (r matches Err(
            HypomnesisError::NoGpuSource,
        )),
        r is Err && nvml_count is None && dxgi_count is None ==> (r matches Err(
            HypomnesisError::NoGpuSource,
        )),
{
}

// ---------------------------------------------------------------------------
// The calling process
// ---------------------------------------------------------------------------

/// A figure that is marked as that of the process is the one that DXGI, or else NVML, or
/// else Metal, has for the process. The one that is not is the device's, and given only
/// where none of them has a figure for the process.
pub proof fn law_process_figure(
    index: u32,
    dxgi: Option<DxgiQueryResult>,
    nvml: Option<NvmlQueryResult>,
    metal: Option<ProcessGpuInfo>,
    smi: Option<NvidiaSmiResult>,
    nvml_count: Option<u32>,
    dxgi_count: Option<u32>,
    r: Result<ProcessGpuInfo>,
)
    requires
        call_ensures(
            process_gpu_info,
            (index, &dxgi, &nvml, metal, smi, nvml_count, dxgi_count),
            r,
        ),
    ensures
        dxgi is Some ==> (r matches Ok(p) && p.used_bytes == dxgi->0.current_usage
            && p.is_per_process && p.source == GpuQuerySource::Dxgi),
        dxgi is None && nvml is Some && nvml->0.process_used_bytes is Some ==> (r matches Ok(p)
            && p.used_bytes == nvml->0.process_used_bytes->0 && p.is_per_process && p.source
            == GpuQuerySource::Nvml),
        dxgi is None && (nvml is Some ==> nvml->0.process_used_bytes is None) && metal is Some
            ==> (r matches Ok(p) && p.used_bytes == metal->0.used_bytes && p.is_per_process
            == metal->0.is_per_process && p.source == metal->0.source),
        dxgi is None && (nvml is Some ==> nvml->0.process_used_bytes is None) && metal is None
            && smi is Some ==> (r matches Ok(p) && p.used_bytes == smi->0.used_bytes
            && !p.is_per_process && p.source == GpuQuerySource::NvidiaSmi),
        dxgi is None && (nvml is Some ==> nvml->0.process_used_bytes is None) && metal is None
            && smi is None ==> r is Err,
{
}

// ---------------------------------------------------------------------------
// Further adapters
// ---------------------------------------------------------------------------

/// Every further adapter is described once, in order, under the next free index: what the
/// process uses is used, and the total is its own memory or, where it has none, the memory
/// it shares.
pub proof fn law_further_adapters(
    starting_index: u32,
    entries: Vec<DxgiAdapterEntry>,
    v: Vec<(GpuDeviceInfo, ProcessGpuInfo)>,
    i: int,
)
    requires
        call_ensures(dxgi_non_nvidia_devices, (starting_index, entries), v),
        0 <= i < entries@.len(),
    ensures
        v@.len() == entries@.len(),
        starting_index + i <= u32::MAX ==> v@[i].0.index == starting_index + i,
        v@[i].0.name == entries@[i].adapter_name,
        entries@[i].dedicated_video_memory > 0 ==> v@[i].0.total_bytes
            == entries@[i].dedicated_video_memory,
        entries@[i].dedicated_video_memory == 0 ==> v@[i].0.total_bytes
            == entries@[i].shared_system_memory,
        v@[i].0.used_bytes == entries@[i].current_usage,
        v@[i].0.used_bytes <= v@[i].0.total_bytes ==> v@[i].0.free_bytes + v@[i].0.used_bytes
            == v@[i].0.total_bytes,
        v@[i].0.used_bytes > v@[i].0.total_bytes ==> v@[i].0.free_bytes == 0,
        v@[i].0.reserved_bytes is None,
        v@[i].0.driver_version is None,
        v@[i].1.used_bytes == entries@[i].current_usage,
        v@[i].1.is_per_process,
        v@[i].1.source == GpuQuerySource::Dxgi,
{
    let x = v@[i];
}

// ---------------------------------------------------------------------------
// The listing
// ---------------------------------------------------------------------------

/// Each model given is listed.
proof fn lemma_model_listed(v: Seq<GpuProcessEntry>, m: Seq<EntryModel>, i: int) -> (k: int)
    requires
        entry_models(v) == by_pid(m),
        0 <= i < m.len(),
    ensures
        0 <= k < v.len(),
        v[k]@ == m[i],
{
    broadcast use vstd::seq_lib::group_to_multiset_ensures;

    law_listing_is_in_pid_order(m);
    let b = by_pid(m);
    assert(m.contains(m[i]));
    assert(m.to_multiset().count(m[i]) > 0);
    assert(b.contains(m[i]));
    let k = choose|k: int| 0 <= k < b.len() && b[k] == m[i];
    assert(entry_models(v)[k] == v[k]@);
    k
}

/// Each entry listed is one of the models given.
proof fn lemma_entry_given(v: Seq<GpuProcessEntry>, m: Seq<EntryModel>, k: int) -> (i: int)
    requires
        entry_models(v) == by_pid(m),
        0 <= k < v.len(),
    ensures
        0 <= i < m.len(),
        v[k]@ == m[i],
{
    broadcast use vstd::seq_lib::group_to_multiset_ensures;

    law_listing_is_in_pid_order(m);
    let b = by_pid(m);
    assert(entry_models(v)[k] == v[k]@);
    assert(b.contains(b[k]));
    assert(b.to_multiset().count(b[k]) > 0);
    assert(m.contains(b[k]));
    choose|i: int| 0 <= i < m.len() && m[i] == b[k]
}

/// There are as many entries as models, in the order of their processes.
proof fn lemma_listed(v: Seq<GpuProcessEntry>, m: Seq<EntryModel>)
    requires
        entry_models(v) == by_pid(m),
    ensures
        v.len() == m.len(),
        forall|j: int, k: int|
            0 <= j <= k < v.len() ==> (#[trigger] v[j]).pid <= (#[trigger] v[k]).pid,
{
    broadcast use vstd::seq_lib::group_to_multiset_ensures;

    law_listing_is_in_pid_order(m);
    let b = by_pid(m);
    assert(b.len() == b.to_multiset().len());
    assert(m.len() == m.to_multiset().len());
    assert(v.len() == entry_models(v).len());
    assert forall|j: int, k: int| 0 <= j <= k < v.len() implies (#[trigger] v[j]).pid <= (
    #[trigger] v[k]).pid by {
        assert(b[j].pid <= b[k].pid);
        assert(entry_models(v)[j] == v[j]@ && entry_models(v)[k] == v[k]@);
    }
}

/// Where the performance counters are the source, the listing has for each of their rows
/// an entry of that process with the dedicated commit of the row as its GPU memory and the
/// shared figure of the row, under the image name or else the name for a process without
/// one; and no other entry.
pub proof fn law_listing_from_counters(
    index: u32,
    s: ListingSources,
    nvml_count: Option<u32>,
    dxgi_count: Option<u32>,
    r: Result<Vec<GpuProcessEntry>>,
)
    requires
        call_ensures(gpu_processes, (index, s, nvml_count, dxgi_count), r),
        s.nvml is None,
        s.pdh is Some,
    ensures
        r is Ok,
        r->Ok_0@.len() == s.pdh->0@.len(),
        forall|i: int|
            #![trigger s.pdh->0@[i]]
            0 <= i < s.pdh->0@.len() ==> exists|k: int|
                0 <= k < r->Ok_0@.len() && {
                    let e = #[trigger] r->Ok_0@[k];
                    let row = s.pdh->0@[i];
                    &&& e.pid == row.row.pid
                    &&& e.used_bytes == row.row.dedicated_committed_bytes
                    &&& e.shared_used_bytes == row.row.shared_used_bytes
                    &&& e.source == GpuQuerySource::Pdh
                    &&& e.name is Some
                    &&& row.image_name is Some ==> e.name->0@ == row.image_name->0@
                    &&& row.image_name is None ==> e.name->0@ == fallback_name(
                        opt_named(s.snapshot),
                        row.row.pid,
                    )
                },
        forall|k: int|
            #![trigger r->Ok_0@[k]]
            0 <= k < r->Ok_0@.len() ==> exists|i: int|
                0 <= i < s.pdh->0@.len() && {
                    let e = r->Ok_0@[k];
                    let row = #[trigger] s.pdh->0@[i];
                    &&& e.pid == row.row.pid
                    &&& e.used_bytes == row.row.dedicated_committed_bytes
                    &&& e.shared_used_bytes == row.row.shared_used_bytes
                },
        forall|j: int, k: int|
            0 <= j <= k < r->Ok_0@.len() ==> (#[trigger] r->Ok_0@[j]).pid <= (
            #[trigger] r->Ok_0@[k]).pid,
{
    let m = listing(s)->0;
    let v = r->Ok_0@;
    let rows = s.pdh->0@;
    lemma_listed(v, m);
    assert forall|i: int| #![trigger rows[i]] 0 <= i < rows.len() implies exists|k: int|
        0 <= k < v.len() && {
            let e = #[trigger] v[k];
            let row = rows[i];
            &&& e.pid == row.row.pid
            &&& e.used_bytes == row.row.dedicated_committed_bytes
            &&& e.shared_used_bytes == row.row.shared_used_bytes
            &&& e.source == GpuQuerySource::Pdh
            &&& e.name is Some
            &&& row.image_name is Some ==> e.name->0@ == row.image_name->0@
            &&& row.image_name is None ==> e.name->0@ == fallback_name(
                opt_named(s.snapshot),
                row.row.pid,
            )
        } by {
        let x = m[i];
        let k = lemma_model_listed(v, m, i);
        assert(v[k]@ == x);
    }
    assert forall|k: int| #![trigger v[k]] 0 <= k < v.len() implies exists|i: int|
        0 <= i < rows.len() && {
            let e = v[k];
            let row = #[trigger] rows[i];
            &&& e.pid == row.row.pid
            &&& e.used_bytes == row.row.dedicated_committed_bytes
            &&& e.shared_used_bytes == row.row.shared_used_bytes
        } by {
        let i = lemma_entry_given(v, m, k);
        let x = m[i];
        let row = rows[i];
    }
}

/// Where NVML is the source, the listing has for each of its rows an entry of that process
/// with the figure of the row, nothing shared, and the command name without the whitespace
/// around it; and no other entry.
pub proof fn law_listing_from_nvml(
    index: u32,
    s: ListingSources,
    nvml_count: Option<u32>,
    dxgi_count: Option<u32>,
    r: Result<Vec<GpuProcessEntry>>,
)
    requires
        call_ensures(gpu_processes, (index, s, nvml_count, dxgi_count), r),
        s.nvml is Some,
    ensures
        r is Ok,
        r->Ok_0@.len() == s.nvml->0@.len(),
        forall|i: int|
            #![trigger s.nvml->0@[i]]
            0 <= i < s.nvml->0@.len() ==> exists|k: int|
                0 <= k < r->Ok_0@.len() && {
                    let e = #[trigger] r->Ok_0@[k];
                    let row = s.nvml->0@[i];
                    &&& e.pid == row.pid
                    &&& e.used_bytes == row.used_bytes
                    &&& e.shared_used_bytes == 0
                    &&& e.source == GpuQuerySource::Nvml
                    &&& row.comm is None ==> e.name is None
                    &&& row.comm is Some && trimmed(row.comm->0@).len() > 0 ==> e.name is Some
                        && e.name->0@ == trimmed(row.comm->0@)
                    &&& row.comm is Some && trimmed(row.comm->0@).len() == 0 ==> e.name is None
                },
        forall|k: int|
            #![trigger r->Ok_0@[k]]
            0 <= k < r->Ok_0@.len() ==> exists|i: int|
                0 <= i < s.nvml->0@.len() && {
                    let row = #[trigger] s.nvml->0@[i];
                    r->Ok_0@[k].pid == row.pid && r->Ok_0@[k].used_bytes == row.used_bytes
                },
{
    let m = listing(s)->0;
    let v = r->Ok_0@;
    let rows = s.nvml->0@;
    lemma_listed(v, m);
    assert forall|i: int| #![trigger rows[i]] 0 <= i < rows.len() implies exists|k: int|
        0 <= k < v.len() && {
            let e = #[trigger] v[k];
            let row = rows[i];
            &&& e.pid == row.pid
            &&& e.used_bytes == row.used_bytes
            &&& e.shared_used_bytes == 0
            &&& e.source == GpuQuerySource::Nvml
            &&& row.comm is None ==> e.name is None
            &&& row.comm is Some && trimmed(row.comm->0@).len() > 0 ==> e.name is Some
                && e.name->0@ == trimmed(row.comm->0@)
            &&& row.comm is Some && trimmed(row.comm->0@).len() == 0 ==> e.name is None
        } by {
        let x = m[i];
        let k = lemma_model_listed(v, m, i);
        assert(v[k]@ == x);
        assert(opt_text(v[k].name) == x.name);
    }
    assert forall|k: int| #![trigger v[k]] 0 <= k < v.len() implies exists|i: int|
        0 <= i < rows.len() && {
            let row = #[trigger] rows[i];
            v[k].pid == row.pid && v[k].used_bytes == row.used_bytes
        } by {
        let i = lemma_entry_given(v, m, k);
        let x = m[i];
        let row = rows[i];
    }
}

/// Where Metal is the source, the listing has its entries, and no other.
pub proof fn law_listing_from_metal(
    index: u32,
    s: ListingSources,
    nvml_count: Option<u32>,
    dxgi_count: Option<u32>,
    r: Result<Vec<GpuProcessEntry>>,
)
    requires
        call_ensures(gpu_processes, (index, s, nvml_count, dxgi_count), r),
        s.nvml is None,
        s.pdh is None,
        s.metal is Some,
    ensures
        r is Ok,
        r->Ok_0@.len() == s.metal->0@.len(),
        forall|i: int|
            #![trigger s.metal->0@[i]]
            0 <= i < s.metal->0@.len() ==> exists|k: int|
                0 <= k < r->Ok_0@.len() && {
                    let e = #[trigger] r->Ok_0@[k];
                    let row = s.metal->0@[i];
                    &&& e.pid == row.pid
                    &&& e.used_bytes == row.used_bytes
                    &&& e.shared_used_bytes == row.shared_used_bytes
                    &&& e.source == row.source
                    &&& opt_text(e.name) == opt_text(row.name)
                },
{
    let m = listing(s)->0;
    let v = r->Ok_0@;
    let rows = s.metal->0@;
    lemma_listed(v, m);
    assert forall|i: int| #![trigger rows[i]] 0 <= i < rows.len() implies exists|k: int|
        0 <= k < v.len() && {
            let e = #[trigger] v[k];
            let row = rows[i];
            &&& e.pid == row.pid
            &&& e.used_bytes == row.used_bytes
            &&& e.shared_used_bytes == row.shared_used_bytes
            &&& e.source == row.source
            &&& opt_text(e.name) == opt_text(row.name)
        } by {
        assert(m[i] == rows[i]@);
        let k = lemma_model_listed(v, m, i);
        assert(v[k]@ == m[i]);
    }
}

/// Where `nvidia-smi` is the source, the listing has for each of its rows an entry of that
/// process with the figure and name of the row, and nothing shared; and no other entry.
pub proof fn law_listing_from_nvidia_smi(
    index: u32,
    s: ListingSources,
    nvml_count: Option<u32>,
    dxgi_count: Option<u32>,
    r: Result<Vec<GpuProcessEntry>>,
)
    requires
        call_ensures(gpu_processes, (index, s, nvml_count, dxgi_count), r),
        s.nvml is None,
        s.pdh is None,
        s.metal is None,
        s.nvidia_smi is Some,
    ensures
        r is Ok,
        r->Ok_0@.len() == s.nvidia_smi->0@.len(),
        forall|i: int|
            #![trigger s.nvidia_smi->0@[i]]
            0 <= i < s.nvidia_smi->0@.len() ==> exists|k: int|
                0 <= k < r->Ok_0@.len() && {
                    let e = #[trigger] r->Ok_0@[k];
                    let row = s.nvidia_smi->0@[i];
                    &&& e.pid == row.pid
                    &&& e.used_bytes == row.used_bytes
                    &&& e.shared_used_bytes == 0
                    &&& e.source == GpuQuerySource::NvidiaSmi
                    &&& opt_text(e.name) == opt_text(row.name)
                },
{
    let m = listing(s)->0;
    let v = r->Ok_0@;
    let rows = s.nvidia_smi->0@;
    lemma_listed(v, m);
    assert forall|i: int| #![trigger rows[i]] 0 <= i < rows.len() implies exists|k: int|
        0 <= k < v.len() && {
            let e = #[trigger] v[k];
            let row = rows[i];
            &&& e.pid == row.pid
            &&& e.used_bytes == row.used_bytes
            &&& e.shared_used_bytes == 0
            &&& e.source == GpuQuerySource::NvidiaSmi
            &&& opt_text(e.name) == opt_text(row.name)
        } by {
        let x = m[i];
        let k = lemma_model_listed(v, m, i);
        assert(v[k]@ == x);
    }
}

/// A listing needs a backend that answered; without one the error is that of the device.
pub proof fn law_listing_needs_an_answer(
    index: u32,
    s: ListingSources,
    nvml_count: Option<u32>,
    dxgi_count: Option<u32>,
    r: Result<Vec<GpuProcessEntry>>,
)
    requires
        call_ensures(gpu_processes, (index, s, nvml_count, dxgi_count), r),
    ensures
        r is Ok <==> s.nvml is Some || s.pdh is Some || s.metal is Some || s.nvidia_smi is Some,
        r is Err && nvml_count is Some && index >= nvml_count->0 ==> (r matches Err(
            HypomnesisError::DeviceIndexOutOfRange { index: i, count },
        ) && i == index && count == nvml_count->0),
        r is Err && nvml_count is None && dxgi_count is None ==> (r matches Err(
            HypomnesisError::NoGpuSource,
        )),
{
}

/// The processes to look up are exactly those of the rows without an image name.
pub proof fn law_unresolved_pids(rows: Vec<PdhProcessRow>, v: Vec<u32>, p: u32)
    requires
        call_ensures(unresolved_pids, (&rows,), v),
    ensures
        v@.contains(p) <==> exists|i: int|
            0 <= i < rows@.len() && (#[trigger] rows@[i]).image_name is None && rows@[i].row.pid
                == p,
{
    lemma_unresolved(rows@, p);
}

proof fn lemma_unresolved(rows: Seq<PdhProcessRow>, p: u32)
    ensures
        crate::gpu::unresolved(rows).contains(p) <==> exists|i: int|
            0 <= i < rows.len() && (#[trigger] rows[i]).image_name is None && rows[i].row.pid == p,
    decreases rows.len(),
{
    if rows.len() > 0 {
        let init = rows.drop_last();
        lemma_unresolved(init, p);
        let u = crate::gpu::unresolved(init);
        let t = crate::gpu::unresolved(rows);
        if exists|i: int|
            0 <= i < init.len() && (#[trigger] init[i]).image_name is None && init[i].row.pid == p {
            let i = choose|i: int|
                0 <= i < init.len() && (#[trigger] init[i]).image_name is None && init[i].row.pid
                    == p;
            assert(rows[i].row.pid == p && rows[i].image_name is None);
        }
        if u.contains(p) {
            let k = choose|k: int| 0 <= k < u.len() && u[k] == p;
            assert(t[k] == p);
        }
        if rows.last().image_name is None && rows.last().row.pid == p {
            assert(t[t.len() - 1] == p);
            assert(rows[rows.len() - 1].row.pid == p);
        }
        if t.contains(p) {
            let k = choose|k: int| 0 <= k < t.len() && t[k] == p;
            if k < u.len() {
                assert(u[k] == p);
            }
        }
        if exists|i: int|
            0 <= i < rows.len() && (#[trigger] rows[i]).image_name is None && rows[i].row.pid == p {
            let i = choose|i: int|
                0 <= i < rows.len() && (#[trigger] rows[i]).image_name is None && rows[i].row.pid
                    == p;
            if i < init.len() {
                assert(init[i].row.pid == p && init[i].image_name is None);
            }
        }
    }
}

proof fn lemma_pushed_filter(s: Seq<EntryModel>, e: EntryModel, pid: u32)
    ensures
        s.push(e).filter(|x: EntryModel| x.pid == pid) == (if e.pid == pid {
            s.filter(|x: EntryModel| x.pid == pid).push(e)
        } else {
            s.filter(|x: EntryModel| x.pid == pid)
        }),
{
    reveal(Seq::filter);
    assert(s.push(e).drop_last() =~= s);
}

proof fn lemma_inserted_filter(s: Seq<EntryModel>, e: EntryModel, pid: u32)
    ensures
        inserted_by_pid(s, e).filter(|x: EntryModel| x.pid == pid) == s.push(e).filter(
            |x: EntryModel| x.pid == pid,
        ),
    decreases s.len(),
{
    if s.len() > 0 && s.last().pid > e.pid {
        let init = s.drop_last();
        lemma_inserted_filter(init, e, pid);
        lemma_pushed_filter(inserted_by_pid(init, e), s.last(), pid);
        lemma_pushed_filter(init, e, pid);
        lemma_pushed_filter(s, e, pid);
        lemma_pushed_filter(init, s.last(), pid);
        assert(init.push(s.last()) =~= s);
    }
}

/// Sorting by process leaves the entries of one process as they stood.
pub proof fn law_entries_of_a_process_keep_their_order(s: Seq<EntryModel>, pid: u32)
    ensures
        by_pid(s).filter(|x: EntryModel| x.pid == pid) == s.filter(|x: EntryModel| x.pid == pid),
    decreases s.len(),
{
    if s.len() == 0 {
        assert(by_pid(s) =~= s);
    } else {
        let init = s.drop_last();
        law_entries_of_a_process_keep_their_order(init, pid);
        lemma_inserted_filter(by_pid(init), s.last(), pid);
        lemma_pushed_filter(by_pid(init), s.last(), pid);
        lemma_pushed_filter(init, s.last(), pid);
        assert(init.push(s.last()) =~= s);
    }
}

} // verus!
