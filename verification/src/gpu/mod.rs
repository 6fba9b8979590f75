//! GPU backends and the dispatch between them: of the backends in priority order, the
//! first that answers decides.
pub mod adapter;
pub mod counter_laws;
pub mod dxgi;
pub mod instance_laws;
pub mod laws;
pub mod metal;
pub mod name_laws;
pub mod names;
pub mod nvidia_smi;
pub mod nvml;
pub mod pdh;
pub mod reading_laws;
pub mod smi_laws;

use crate::error::{HypomnesisError, Result};
use crate::gpu::dxgi::{DxgiAdapterEntry, DxgiQueryResult};
use crate::gpu::metal::{lemma_metal_entries, metal_entries, MetalQueryResult, PidReading};
use crate::gpu::names::{fallback_name, opt_named, resolved_or_fallback};
use crate::gpu::nvidia_smi::{ComputeApp, NvidiaSmiResult};
use crate::gpu::nvml::{nonempty, nonempty_text, NvmlQueryResult};
use crate::gpu::pdh::ProcessMemoryRow;
use crate::snapshot::{
    entry_models, EntryModel, GpuDeviceInfo, GpuProcessEntry, GpuQuerySource, ProcessGpuInfo,
};
use crate::sort::{inserted, sorted, stable_sort, Ranked};
use crate::text::{chars_of, opt_text, string_of, trim, trimmed};
use vstd::prelude::*;

verus! {

// ---------------------------------------------------------------------------
// Counting
// ---------------------------------------------------------------------------

/// The first of two answers.
pub open spec fn first_of<T>(a: Option<T>, b: Option<T>) -> Option<T> {
    match a {
        Some(_) => a,
        None => b,
    }
}

/// The number of GPUs: NVML's count, else DXGI's, else Metal's.
pub fn device_count(nvml: Option<u32>, dxgi: Option<u32>, metal: Option<u32>) -> (r: Result<u32>)
    ensures
        match first_of(nvml, first_of(dxgi, metal)) {
            Some(n) => r == Ok::<u32, HypomnesisError>(n),
            None => r == Err::<u32, HypomnesisError>(HypomnesisError::NoGpuSource),
        },
{
    match nvml {
        Some(n) => Ok(n),
        None => match dxgi {
            Some(n) => Ok(n),
            None => match metal {
                Some(n) => Ok(n),
                None => Err(HypomnesisError::NoGpuSource),
            },
        },
    }
}

/// Check an index against NVML's count, else DXGI's; without a count every index passes.
pub fn bounds_check(index: u32, nvml: Option<u32>, dxgi: Option<u32>) -> (r: Result<()>)
    ensures
        match first_of(nvml, dxgi) {
            Some(count) => if index >= count {
                r == Err::<(), HypomnesisError>(
                    HypomnesisError::DeviceIndexOutOfRange { index, count },
                )
            } else {
                r is Ok
            },
            None => r is Ok,
        },
{
    let count = match nvml {
        Some(n) => Some(n),
        None => dxgi,
    };
    match count {
        Some(count) => if index >= count {
            Err(HypomnesisError::DeviceIndexOutOfRange { index, count })
        } else {
            Ok(())
        },
        None => Ok(()),
    }
}

/// The error when no backend answered: the index is out of range, or there is no source.
pub open spec fn no_answer(index: u32, nvml: Option<u32>, dxgi: Option<u32>) -> HypomnesisError {
    match first_of(nvml, dxgi) {
        Some(count) => if index >= count {
            HypomnesisError::DeviceIndexOutOfRange { index, count }
        } else {
            HypomnesisError::NoGpuSource
        },
        None => HypomnesisError::NoGpuSource,
    }
}

fn no_answer_error(index: u32, nvml: Option<u32>, dxgi: Option<u32>) -> (e: HypomnesisError)
    ensures
        e == no_answer(index, nvml, dxgi),
{
    match bounds_check(index, nvml, dxgi) {
        Ok(_) => HypomnesisError::NoGpuSource,
        Err(e) => e,
    }
}

// ---------------------------------------------------------------------------
// One device
// ---------------------------------------------------------------------------

/// `a - b`, at least 0.
pub open spec fn remaining(a: u64, b: u64) -> u64 {
    if a >= b {
        (a - b) as u64
    } else {
        0
    }
}

/// What the backends say about one device.
pub struct DeviceSources {
    /// NVML.
    pub nvml: Option<NvmlQueryResult>,
    /// The name that DXGI has for the device; preferred to NVML's.
    pub dxgi_name: Option<String>,
    /// DXGI, where NVML did not answer.
    pub dxgi: Option<DxgiQueryResult>,
    /// Metal.
    pub metal: Option<MetalQueryResult>,
    /// `nvidia-smi`, where nothing before it answered.
    pub nvidia_smi: Option<NvidiaSmiResult>,
}

/// What is known of a device: from NVML, else DXGI, else Metal, else `nvidia-smi`. Only
/// NVML gives the reserved memory, and only NVML and `nvidia-smi` the driver version.
pub open spec fn device_info_of(index: u32, s: DeviceSources) -> Option<GpuDeviceInfo> {
    match (s.nvml, s.dxgi, s.metal, s.nvidia_smi) {
        (Some(q), _, _, _) => Some(
            GpuDeviceInfo {
                index,
                name: first_of(s.dxgi_name, q.device_name),
                total_bytes: q.device_total,
                free_bytes: q.device_free,
                used_bytes: q.device_used,
                reserved_bytes: q.reserved_bytes,
                driver_version: q.driver_version,
            },
        ),
        (None, Some(d), _, _) => Some(
            GpuDeviceInfo {
                index,
                name: d.adapter_name,
                total_bytes: d.dedicated_video_memory,
                free_bytes: remaining(d.dedicated_video_memory, d.current_usage),
                used_bytes: d.current_usage,
                reserved_bytes: None,
                driver_version: None,
            },
        ),
        (None, None, Some(m), _) => Some(
            GpuDeviceInfo {
                index,
                name: Some(m.adapter_name),
                total_bytes: m.dedicated_video_memory,
                free_bytes: m.recommended_max_working_set,
                used_bytes: remaining(m.dedicated_video_memory, m.recommended_max_working_set),
                reserved_bytes: None,
                driver_version: None,
            },
        ),
        (None, None, None, Some(n)) => Some(
            GpuDeviceInfo {
                index,
                name: None,
                total_bytes: n.total_bytes,
                free_bytes: remaining(n.total_bytes, n.used_bytes),
                used_bytes: n.used_bytes,
                reserved_bytes: None,
                driver_version: n.driver_version,
            },
        ),
        (None, None, None, None) => None,
    }
}

/// Device-wide memory of GPU `index`. On the DXGI path the used figure is that of the
/// process, a lower bound.
pub fn device_info(
    index: u32,
    sources: DeviceSources,
    nvml_count: Option<u32>,
    dxgi_count: Option<u32>,
) -> (r: Result<GpuDeviceInfo>)
    ensures
        match device_info_of(index, sources) {
            Some(d) => r == Ok::<GpuDeviceInfo, HypomnesisError>(d),
            None => r == Err::<GpuDeviceInfo, HypomnesisError>(
                no_answer(index, nvml_count, dxgi_count),
            ),
        },
{
    match sources.nvml {
        Some(q) => {
            let name = match sources.dxgi_name {
                Some(n) => Some(n),
                None => q.device_name,
            };
            return Ok(
                GpuDeviceInfo {
                    index,
                    name,
                    total_bytes: q.device_total,
                    free_bytes: q.device_free,
                    used_bytes: q.device_used,
                    reserved_bytes: q.reserved_bytes,
                    driver_version: q.driver_version,
                },
            );
        },
        None => {},
    }
    match sources.dxgi {
        Some(d) => {
            return Ok(
                GpuDeviceInfo {
                    index,
                    name: d.adapter_name,
                    total_bytes: d.dedicated_video_memory,
                    free_bytes: d.dedicated_video_memory.saturating_sub(d.current_usage),
                    used_bytes: d.current_usage,
                    reserved_bytes: None,
                    driver_version: None,
                },
            );
        },
        None => {},
    }
    match sources.metal {
        Some(m) => {
            return Ok(
                GpuDeviceInfo {
                    index,
                    name: Some(m.adapter_name),
                    total_bytes: m.dedicated_video_memory,
                    free_bytes: m.recommended_max_working_set,
                    used_bytes: m.dedicated_video_memory.saturating_sub(
                        m.recommended_max_working_set,
                    ),
                    reserved_bytes: None,
                    driver_version: None,
                },
            );
        },
        None => {},
    }
    match sources.nvidia_smi {
        Some(n) => Ok(
            GpuDeviceInfo {
                index,
                name: None,
                total_bytes: n.total_bytes,
                free_bytes: n.total_bytes.saturating_sub(n.used_bytes),
                used_bytes: n.used_bytes,
                reserved_bytes: None,
                driver_version: n.driver_version,
            },
        ),
        None => Err(no_answer_error(index, nvml_count, dxgi_count)),
    }
}

/// The figure that NVML has for the process.
pub open spec fn nvml_process_figure(q: Option<NvmlQueryResult>) -> Option<u64> {
    match q {
        Some(q) => q.process_used_bytes,
        None => None,
    }
}

/// GPU memory of the process: from DXGI, else NVML, else Metal, else the device-wide
/// figure of `nvidia-smi`.
pub open spec fn process_info_of(
    dxgi: Option<DxgiQueryResult>,
    nvml: Option<NvmlQueryResult>,
    metal: Option<ProcessGpuInfo>,
    nvidia_smi: Option<NvidiaSmiResult>,
) -> Option<ProcessGpuInfo> {
    match dxgi {
        Some(d) => Some(
            ProcessGpuInfo {
                used_bytes: d.current_usage,
                is_per_process: true,
                source: GpuQuerySource::Dxgi,
            },
        ),
        None => match nvml_process_figure(nvml) {
            Some(used_bytes) => Some(
                ProcessGpuInfo { used_bytes, is_per_process: true, source: GpuQuerySource::Nvml },
            ),
            None => match metal {
                Some(m) => Some(m),
                None => match nvidia_smi {
                    Some(n) => Some(
                        ProcessGpuInfo {
                            used_bytes: n.used_bytes,
                            is_per_process: false,
                            source: GpuQuerySource::NvidiaSmi,
                        },
                    ),
                    None => None,
                },
            },
        },
    }
}

/// GPU memory of the process on GPU `device_index`.
pub fn process_gpu_info(
    device_index: u32,
    dxgi: &Option<DxgiQueryResult>,
    nvml: &Option<NvmlQueryResult>,
    metal: Option<ProcessGpuInfo>,
    nvidia_smi: Option<NvidiaSmiResult>,
    nvml_count: Option<u32>,
    dxgi_count: Option<u32>,
) -> (r: Result<ProcessGpuInfo>)
    ensures
        match process_info_of(*dxgi, *nvml, metal, nvidia_smi) {
            Some(p) => r == Ok::<ProcessGpuInfo, HypomnesisError>(p),
            None => r == Err::<ProcessGpuInfo, HypomnesisError>(
                no_answer(device_index, nvml_count, dxgi_count),
            ),
        },
{
    match dxgi {
        Some(d) => {
            return Ok(
                ProcessGpuInfo {
                    used_bytes: d.current_usage,
                    is_per_process: true,
                    source: GpuQuerySource::Dxgi,
                },
            );
        },
        None => {},
    }
    match nvml {
        Some(q) => match q.process_used_bytes {
            Some(used_bytes) => {
                return Ok(
                    ProcessGpuInfo {
                        used_bytes,
                        is_per_process: true,
                        source: GpuQuerySource::Nvml,
                    },
                );
            },
            None => {},
        },
        None => {},
    }
    match metal {
        Some(m) => {
            return Ok(m);
        },
        None => {},
    }
    match nvidia_smi {
        Some(n) => Ok(
            ProcessGpuInfo {
                used_bytes: n.used_bytes,
                is_per_process: false,
                source: GpuQuerySource::NvidiaSmi,
            },
        ),
        None => Err(no_answer_error(device_index, nvml_count, dxgi_count)),
    }
}

// ---------------------------------------------------------------------------
// Other adapters
// ---------------------------------------------------------------------------

/// The index of the adapter at `offset` behind `starting_index`, at most `u32::MAX`.
pub open spec fn offset_index(starting_index: u32, offset: int) -> u32 {
    if starting_index + offset <= u32::MAX {
        (starting_index + offset) as u32
    } else {
        u32::MAX
    }
}

/// What is known of an adapter that is not NVIDIA's: the total is the dedicated memory,
/// or the shared memory where there is none.
pub open spec fn adapter_info(
    e: DxgiAdapterEntry,
    index: u32,
) -> (GpuDeviceInfo, ProcessGpuInfo) {
    let total = if e.dedicated_video_memory > 0 {
        e.dedicated_video_memory
    } else {
        e.shared_system_memory
    };
    (
        GpuDeviceInfo {
            index,
            name: e.adapter_name,
            total_bytes: total,
            free_bytes: remaining(total, e.current_usage),
            used_bytes: e.current_usage,
            reserved_bytes: None,
            driver_version: None,
        },
        ProcessGpuInfo {
            used_bytes: e.current_usage,
            is_per_process: true,
            source: GpuQuerySource::Dxgi,
        },
    )
}

/// The adapters that are not NVIDIA's, with indices that follow on `starting_index`.
pub fn dxgi_non_nvidia_devices(starting_index: u32, entries: Vec<DxgiAdapterEntry>) -> (v: Vec<
    (GpuDeviceInfo, ProcessGpuInfo),
>)
    requires
        entries@.len() <= u32::MAX,
    ensures
        v@.len() == entries@.len(),
        forall|i: int|
            0 <= i < v@.len() ==> #[trigger] v@[i] == adapter_info(
                entries@[i],
                offset_index(starting_index, i),
            ),
{
    let ghost all = entries@;
    let mut v: Vec<(GpuDeviceInfo, ProcessGpuInfo)> = Vec::new();
    let mut offset: u32 = 0;
    for e in it: entries
        invariant
            it.seq() == all,
            all.len() <= u32::MAX,
            offset == it.index(),
            v@.len() == offset,
            forall|i: int|
                0 <= i < v@.len() ==> #[trigger] v@[i] == adapter_info(
                    all[i],
                    offset_index(starting_index, i),
                ),
    {
        let index = starting_index.saturating_add(offset);
        let total_bytes: u64 = if e.dedicated_video_memory > 0 {
            e.dedicated_video_memory
        } else {
            e.shared_system_memory
        };
        let used_bytes = e.current_usage;
        v.push(
            (
                GpuDeviceInfo {
                    index,
                    name: e.adapter_name,
                    total_bytes,
                    free_bytes: total_bytes.saturating_sub(used_bytes),
                    used_bytes,
                    reserved_bytes: None,
                    driver_version: None,
                },
                ProcessGpuInfo {
                    used_bytes,
                    is_per_process: true,
                    source: GpuQuerySource::Dxgi,
                },
            ),
        );
        offset += 1;
    }
    v
}

/// The further adapters continue the indices of the addressable devices without a gap,
/// as far as 32 bits go.
pub proof fn law_indices_are_contiguous(starting_index: u32, i: int)
    requires
        0 <= i,
        starting_index + i + 1 <= u32::MAX,
    ensures
        offset_index(starting_index, 0) == starting_index,
        offset_index(starting_index, i + 1) == offset_index(starting_index, i) + 1,
{
}

// ---------------------------------------------------------------------------
// Process listing
// ---------------------------------------------------------------------------

/// A process that NVML lists, with what the system has as its command name.
pub struct NvmlProcessRow {
    /// Process ID.
    pub pid: u32,
    /// GPU memory in bytes.
    pub used_bytes: u64,
    /// The command name, as read; `None` where it could not be read.
    pub comm: Option<String>,
}

/// A process that the performance counters list, with the name of its image.
pub struct PdhProcessRow {
    /// The row.
    pub row: ProcessMemoryRow,
    /// The image name; `None` where the process could not be opened.
    pub image_name: Option<String>,
}

/// What the backends list; `None` for a backend that did not answer or was not asked.
pub struct ListingSources {
    /// NVML.
    pub nvml: Option<Vec<NvmlProcessRow>>,
    /// Performance counters.
    pub pdh: Option<Vec<PdhProcessRow>>,
    /// Names from the process table, for the processes that could not be opened.
    pub snapshot: Option<Vec<(u32, String)>>,
    /// Metal.
    pub metal: Option<Vec<GpuProcessEntry>>,
    /// `nvidia-smi`.
    pub nvidia_smi: Option<Vec<ComputeApp>>,
}

/// The command name without the whitespace around it; `None` where nothing is left.
pub open spec fn comm_name(comm: Option<Seq<char>>) -> Option<Seq<char>> {
    match comm {
        Some(c) => nonempty_text(trimmed(c)),
        None => None,
    }
}

/// The entry of a process that NVML lists.
pub open spec fn nvml_entry(r: NvmlProcessRow) -> EntryModel {
    EntryModel {
        pid: r.pid,
        name: comm_name(opt_text(r.comm)),
        used_bytes: r.used_bytes,
        shared_used_bytes: 0,
        source: GpuQuerySource::Nvml,
    }
}

/// The entry of a process that the performance counters list: always named.
pub open spec fn pdh_entry(
    r: PdhProcessRow,
    snapshot: Option<Seq<(u32, Seq<char>)>>,
) -> EntryModel {
    EntryModel {
        pid: r.row.pid,
        name: Some(
            match r.image_name {
                Some(n) => n@,
                None => fallback_name(snapshot, r.row.pid),
            },
        ),
        used_bytes: r.row.dedicated_committed_bytes,
        shared_used_bytes: r.row.shared_used_bytes,
        source: GpuQuerySource::Pdh,
    }
}

/// The entry of a process that `nvidia-smi` lists.
pub open spec fn smi_entry(a: ComputeApp) -> EntryModel {
    EntryModel {
        pid: a.pid,
        name: opt_text(a.name),
        used_bytes: a.used_bytes,
        shared_used_bytes: 0,
        source: GpuQuerySource::NvidiaSmi,
    }
}

/// The listing of the first backend that answered: NVML, the performance counters, Metal,
/// `nvidia-smi`.
pub open spec fn listing(s: ListingSources) -> Option<Seq<EntryModel>> {
    match s.nvml {
        Some(v) => Some(v@.map_values(|r: NvmlProcessRow| nvml_entry(r))),
        None => match s.pdh {
            Some(v) => Some(
                v@.map_values(|r: PdhProcessRow| pdh_entry(r, opt_named(s.snapshot))),
            ),
            None => match s.metal {
                Some(v) => Some(entry_models(v@)),
                None => match s.nvidia_smi {
                    Some(v) => Some(v@.map_values(|a: ComputeApp| smi_entry(a))),
                    None => None,
                },
            },
        },
    }
}

impl Ranked for GpuProcessEntry {
    open spec fn le(&self, other: &Self) -> bool {
        self.pid <= other.pid
    }

    proof fn le_total(a: &Self, b: &Self) {
    }

    proof fn le_transitive(a: &Self, b: &Self, c: &Self) {
    }

    fn not_after(&self, other: &Self) -> (r: bool) {
        self.pid <= other.pid
    }
}

/// `s` with `e` inserted behind the last entry whose process ID is not greater.
pub open spec fn inserted_by_pid(s: Seq<EntryModel>, e: EntryModel) -> Seq<EntryModel>
    decreases s.len(),
{
    if s.len() == 0 || s.last().pid <= e.pid {
        s.push(e)
    } else {
        inserted_by_pid(s.drop_last(), e).push(s.last())
    }
}

/// The entries by process ID, entries of one process as they stood.
pub open spec fn by_pid(s: Seq<EntryModel>) -> Seq<EntryModel>
    decreases s.len(),
{
    if s.len() == 0 {
        seq![]
    } else {
        inserted_by_pid(by_pid(s.drop_last()), s.last())
    }
}

proof fn lemma_inserted_models(s: Seq<GpuProcessEntry>, x: GpuProcessEntry)
    ensures
        entry_models(inserted(s, x)) == inserted_by_pid(entry_models(s), x@),
    decreases s.len(),
{
    if s.len() == 0 || s.last().le(&x) {
        assert(entry_models(s.push(x)) =~= entry_models(s).push(x@));
    } else {
        lemma_inserted_models(s.drop_last(), x);
        assert(entry_models(s).drop_last() =~= entry_models(s.drop_last()));
        assert(entry_models(inserted(s, x)) =~= entry_models(inserted(s.drop_last(), x)).push(
            s.last()@,
        ));
    }
}

proof fn lemma_sorted_models(s: Seq<GpuProcessEntry>)
    ensures
        entry_models(sorted(s)) == by_pid(entry_models(s)),
    decreases s.len(),
{
    if s.len() > 0 {
        lemma_sorted_models(s.drop_last());
        lemma_inserted_models(sorted(s.drop_last()), s.last());
        assert(entry_models(s).drop_last() =~= entry_models(s.drop_last()));
    } else {
        assert(entry_models(sorted(s)) =~= seq![]);
        assert(entry_models(s) =~= seq![]);
    }
}

fn comm_string(comm: &Option<String>) -> (r: Option<String>)
    ensures
        opt_text(r) == comm_name(opt_text(*comm)),
{
    match comm {
        None => None,
        Some(c) => {
            let chars = chars_of(c.as_str());
            nonempty(string_of(trim(chars.as_slice())))
        },
    }
}

fn nvml_entries(rows: Vec<NvmlProcessRow>) -> (v: Vec<GpuProcessEntry>)
    ensures
        entry_models(v@) == rows@.map_values(|r: NvmlProcessRow| nvml_entry(r)),
{
    let mut v: Vec<GpuProcessEntry> = Vec::new();
    let mut i: usize = 0;
    while i < rows.len()
        invariant
            i <= rows@.len(),
            v@.len() == i,
            forall|k: int| 0 <= k < i ==> (#[trigger] v@[k])@ == nvml_entry(rows@[k]),
        decreases rows@.len() - i,
    {
        v.push(
            GpuProcessEntry {
                pid: rows[i].pid,
                name: comm_string(&rows[i].comm),
                used_bytes: rows[i].used_bytes,
                shared_used_bytes: 0,
                source: GpuQuerySource::Nvml,
            },
        );
        i += 1;
    }
    assert(entry_models(v@) =~= rows@.map_values(|r: NvmlProcessRow| nvml_entry(r)));
    v
}

fn pdh_entries(
    rows: Vec<PdhProcessRow>,
    snapshot: &Option<Vec<(u32, String)>>,
) -> (v: Vec<GpuProcessEntry>)
    ensures
        entry_models(v@) == rows@.map_values(
            |r: PdhProcessRow| pdh_entry(r, opt_named(*snapshot)),
        ),
{
    let ghost all = rows@;
    let mut v: Vec<GpuProcessEntry> = Vec::new();
    for r in it: rows
        invariant
            it.seq() == all,
            v@.len() == it.index(),
            forall|k: int|
                0 <= k < v@.len() ==> (#[trigger] v@[k])@ == pdh_entry(
                    all[k],
                    opt_named(*snapshot),
                ),
    {
        let name = resolved_or_fallback(r.image_name, r.row.pid, snapshot);
        v.push(
            GpuProcessEntry {
                pid: r.row.pid,
                name: Some(name),
                used_bytes: r.row.dedicated_committed_bytes,
                shared_used_bytes: r.row.shared_used_bytes,
                source: GpuQuerySource::Pdh,
            },
        );
    }
    assert(entry_models(v@) =~= all.map_values(
        |r: PdhProcessRow| pdh_entry(r, opt_named(*snapshot)),
    ));
    v
}

fn smi_entries(apps: Vec<ComputeApp>) -> (v: Vec<GpuProcessEntry>)
    ensures
        entry_models(v@) == apps@.map_values(|a: ComputeApp| smi_entry(a)),
{
    let ghost all = apps@;
    let mut v: Vec<GpuProcessEntry> = Vec::new();
    for a in it: apps
        invariant
            it.seq() == all,
            v@.len() == it.index(),
            forall|k: int| 0 <= k < v@.len() ==> (#[trigger] v@[k])@ == smi_entry(all[k]),
    {
        v.push(
            GpuProcessEntry {
                pid: a.pid,
                name: a.name,
                used_bytes: a.used_bytes,
                shared_used_bytes: 0,
                source: GpuQuerySource::NvidiaSmi,
            },
        );
    }
    assert(entry_models(v@) =~= all.map_values(|a: ComputeApp| smi_entry(a)));
    v
}

/// The processes that hold memory on GPU `index`, by process ID.
pub fn gpu_processes(
    index: u32,
    sources: ListingSources,
    nvml_count: Option<u32>,
    dxgi_count: Option<u32>,
) -> (r: Result<Vec<GpuProcessEntry>>)
    ensures
        match listing(sources) {
            Some(m) => r matches Ok(v) && entry_models(v@) == by_pid(m),
            None => r == Err::<Vec<GpuProcessEntry>, HypomnesisError>(
                no_answer(index, nvml_count, dxgi_count),
            ),
        },
{
    let rows = match sources.nvml {
        Some(v) => nvml_entries(v),
        None => match sources.pdh {
            Some(v) => pdh_entries(v, &sources.snapshot),
            None => match sources.metal {
                Some(v) => v,
                None => match sources.nvidia_smi {
                    Some(v) => smi_entries(v),
                    None => {
                        return Err(no_answer_error(index, nvml_count, dxgi_count));
                    },
                },
            },
        },
    };
    proof {
        lemma_sorted_models(rows@);
    }
    Ok(stable_sort(rows))
}

/// The processes of a counter listing that could not be opened, in order: those to look
/// up in the process table.
pub fn unresolved_pids(rows: &Vec<PdhProcessRow>) -> (v: Vec<u32>)
    ensures
        v@ == unresolved(rows@),
{
    let mut v: Vec<u32> = Vec::new();
    let mut i: usize = 0;
    assert(rows@.take(0) =~= seq![]);
    while i < rows.len()
        invariant
            i <= rows@.len(),
            v@ == unresolved(rows@.take(i as int)),
        decreases rows@.len() - i,
    {
        assert(rows@.take(i + 1).drop_last() =~= rows@.take(i as int));
        assert(rows@.take(i + 1).last() == rows@[i as int]);
        if rows[i].image_name.is_none() {
            v.push(rows[i].row.pid);
        }
        i += 1;
    }
    assert(rows@.take(i as int) =~= rows@);
    v
}

/// The processes without an image name, in order.
pub open spec fn unresolved(rows: Seq<PdhProcessRow>) -> Seq<u32>
    decreases rows.len(),
{
    if rows.len() == 0 {
        seq![]
    } else if rows.last().image_name is None {
        unresolved(rows.drop_last()).push(rows.last().row.pid)
    } else {
        unresolved(rows.drop_last())
    }
}

proof fn lemma_by_pid_elements(s: Seq<EntryModel>, e: EntryModel)
    ensures
        inserted_by_pid(s, e).len() == s.len() + 1,
        forall|i: int|
            0 <= i < inserted_by_pid(s, e).len() ==> (#[trigger] inserted_by_pid(s, e)[i]) == e
                || s.contains(inserted_by_pid(s, e)[i]),
    decreases s.len(),
{
    if s.len() == 0 || s.last().pid <= e.pid {
        assert forall|i: int| 0 <= i < s.push(e).len() implies (#[trigger] s.push(e)[i]) == e
            || s.contains(s.push(e)[i]) by {
            if i < s.len() {
                assert(s[i] == s.push(e)[i]);
            }
        }
    } else {
        let init = s.drop_last();
        lemma_by_pid_elements(init, e);
        let u = inserted_by_pid(init, e);
        let t = u.push(s.last());
        assert forall|i: int| 0 <= i < t.len() implies (#[trigger] t[i]) == e || s.contains(t[i]) by {
            if i < u.len() {
                assert(t[i] == u[i]);
                if u[i] != e {
                    let k = choose|k: int| 0 <= k < init.len() && init[k] == u[i];
                    assert(s[k] == u[i]);
                }
            } else {
                assert(s[s.len() - 1] == t[i]);
            }
        }
    }
}

/// Sorting by process ID adds no entry.
proof fn lemma_by_pid_subset(s: Seq<EntryModel>)
    ensures
        by_pid(s).len() == s.len(),
        forall|i: int| 0 <= i < by_pid(s).len() ==> s.contains(#[trigger] by_pid(s)[i]),
    decreases s.len(),
{
    if s.len() > 0 {
        let init = s.drop_last();
        lemma_by_pid_subset(init);
        lemma_by_pid_elements(by_pid(init), s.last());
        let t = by_pid(s);
        assert forall|i: int| 0 <= i < t.len() implies s.contains(#[trigger] t[i]) by {
            if t[i] == s.last() {
                assert(s[s.len() - 1] == t[i]);
            } else {
                let j = choose|j: int| 0 <= j < by_pid(init).len() && by_pid(init)[j] == t[i];
                assert(init.contains(by_pid(init)[j]));
                let k = choose|k: int| 0 <= k < init.len() && init[k] == t[i];
                assert(s[k] == t[i]);
            }
        }
    }
}

/// No row of a listing comes from DXGI, only rows of the performance counters carry shared
/// bytes, and each of those has a name. The rows of the Metal backend are those that it
/// makes of what the system said about each process.
pub proof fn law_listing_sources(s: ListingSources, m: Seq<EntryModel>)
    requires
        listing(s) == Some(m),
        s.metal matches Some(v) ==> exists|pids: Seq<PidReading>|
            entry_models(v@) == #[trigger] metal_entries(pids),
    ensures
        by_pid(m).len() == m.len(),
        forall|i: int|
            0 <= i < by_pid(m).len() ==> {
                let e = #[trigger] by_pid(m)[i];
                &&& e.source != GpuQuerySource::Dxgi
                &&& e.source != GpuQuerySource::Pdh ==> e.shared_used_bytes == 0
                &&& e.source == GpuQuerySource::Pdh ==> e.name is Some
            },
{
    lemma_by_pid_subset(m);
    assert forall|i: int| 0 <= i < by_pid(m).len() implies {
        let e = #[trigger] by_pid(m)[i];
        &&& e.source != GpuQuerySource::Dxgi
        &&& e.source != GpuQuerySource::Pdh ==> e.shared_used_bytes == 0
        &&& e.source == GpuQuerySource::Pdh ==> e.name is Some
    } by {
        assert(m.contains(by_pid(m)[i]));
        let k = choose|k: int| 0 <= k < m.len() && m[k] == by_pid(m)[i];
        if s.nvml is None && s.pdh is None && s.metal is Some {
            let v = s.metal->0;
            let pids = choose|pids: Seq<PidReading>|
                entry_models(v@) == #[trigger] metal_entries(pids);
            lemma_metal_entries(pids);
            assert(m[k] == metal_entries(pids)[k]);
        }
    }
}

proof fn lemma_inserted_keeps_pid_order(s: Seq<EntryModel>, e: EntryModel)
    requires
        forall|i: int, j: int|
            0 <= i <= j < s.len() ==> (#[trigger] s[i]).pid <= (#[trigger] s[j]).pid,
    ensures
        forall|i: int, j: int|
            0 <= i <= j < inserted_by_pid(s, e).len() ==> (#[trigger] inserted_by_pid(s, e)[i]).pid
                <= (#[trigger] inserted_by_pid(s, e)[j]).pid,
        inserted_by_pid(s, e).to_multiset() == s.to_multiset().insert(e),
    decreases s.len(),
{
    broadcast use vstd::seq_lib::group_to_multiset_ensures;

    if s.len() > 0 && s.last().pid > e.pid {
        let init = s.drop_last();
        assert forall|i: int, j: int| 0 <= i <= j < init.len() implies (#[trigger] init[i]).pid
            <= (#[trigger] init[j]).pid by {
            assert(s[i].pid <= s[j].pid);
        }
        lemma_inserted_keeps_pid_order(init, e);
        lemma_by_pid_elements(init, e);
        let u = inserted_by_pid(init, e);
        let t = u.push(s.last());
        assert forall|i: int, j: int| 0 <= i <= j < t.len() implies (#[trigger] t[i]).pid <= (
        #[trigger] t[j]).pid by {
            if j == u.len() && i < u.len() {
                assert(t[i] == u[i]);
                if u[i] != e {
                    let k = choose|k: int| 0 <= k < init.len() && init[k] == u[i];
                    assert(s[k].pid <= s[s.len() - 1].pid);
                }
            } else if j < u.len() {
                assert(u[i].pid <= u[j].pid);
            }
        }
        assert(s =~= init.push(s.last()));
        assert(t.to_multiset() =~= s.to_multiset().insert(e));
    } else {
        let t = s.push(e);
        assert forall|i: int, j: int| 0 <= i <= j < t.len() implies (#[trigger] t[i]).pid <= (
        #[trigger] t[j]).pid by {
            if j == s.len() && i < s.len() {
                assert(s[i].pid <= s[s.len() - 1].pid);
            } else if j < s.len() {
                assert(s[i].pid <= s[j].pid);
            }
        }
    }
}

/// A listing is in ascending order of process ID, with the entries of its source and no
/// other.
pub proof fn law_listing_is_in_pid_order(s: Seq<EntryModel>)
    ensures
        forall|i: int, j: int|
            0 <= i <= j < by_pid(s).len() ==> (#[trigger] by_pid(s)[i]).pid <= (#[trigger] by_pid(
                s,
            )[j]).pid,
        by_pid(s).to_multiset() == s.to_multiset(),
    decreases s.len(),
{
    broadcast use vstd::seq_lib::group_to_multiset_ensures;

    if s.len() > 0 {
        law_listing_is_in_pid_order(s.drop_last());
        lemma_inserted_keeps_pid_order(by_pid(s.drop_last()), s.last());
        assert(s =~= s.drop_last().push(s.last()));
    } else {
        assert(s =~= seq![]);
    }
}

} // verus!
