//! What a measurement returns: device-wide and per-process GPU memory, and RAM.
use crate::error::{HypomnesisError, Result};
use crate::number::{decimal, push_decimal};
use crate::text::{clone_opt, opt_text};
use crate::units::{mib_nearest, push_mib_nearest};
use vstd::prelude::*;

verus! {

/// Device-wide memory of one GPU, across all processes.
#[derive(Debug)]
pub struct GpuDeviceInfo {
    /// Zero-based GPU index. For non-NVIDIA adapters it is assigned after the NVIDIA
    /// devices.
    pub index: u32,
    /// Adapter name, where the backend gives one.
    pub name: Option<String>,
    /// Total memory in bytes.
    pub total_bytes: u64,
    /// Free memory in bytes.
    pub free_bytes: u64,
    /// Used memory in bytes.
    pub used_bytes: u64,
    /// Memory reserved for the driver and firmware, in bytes: a part of `total_bytes`.
    /// Only NVML on recent drivers gives it.
    pub reserved_bytes: Option<u64>,
    /// NVIDIA driver version, where the backend gives one.
    pub driver_version: Option<String>,
}

impl Clone for GpuDeviceInfo {
    fn clone(&self) -> (r: Self)
        ensures
            r == *self,
    {
        GpuDeviceInfo {
            index: self.index,
            name: clone_opt(&self.name),
            total_bytes: self.total_bytes,
            free_bytes: self.free_bytes,
            used_bytes: self.used_bytes,
            reserved_bytes: self.reserved_bytes,
            driver_version: clone_opt(&self.driver_version),
        }
    }
}

/// GPU memory of the calling process.
#[derive(Debug, Clone, Copy, PartialEq, Eq, Structural)]
pub struct ProcessGpuInfo {
    /// Memory in bytes; the device-wide figure when `is_per_process` is false.
    pub used_bytes: u64,
    /// Whether the figure is that of the process alone.
    pub is_per_process: bool,
    /// The backend that gave the figure.
    pub source: GpuQuerySource,
}

/// The backend that produced a GPU memory figure.
#[non_exhaustive]
#[derive(Debug, Clone, Copy, PartialEq, Eq, Structural)]
pub enum GpuQuerySource {
    /// Windows DXGI, for the calling process.
    Dxgi,
    /// NVML.
    Nvml,
    /// Windows performance counters, for every process that holds GPU memory.
    Pdh,
    /// The `nvidia-smi` program.
    NvidiaSmi,
    /// Apple Metal.
    Metal,
}

/// One process that holds memory on a GPU.
#[derive(Debug)]
pub struct GpuProcessEntry {
    /// Process ID.
    pub pid: u32,
    /// Process name, where one could be found.
    pub name: Option<String>,
    /// GPU memory in bytes; on the PDH path the dedicated commit.
    pub used_bytes: u64,
    /// Resident shared system memory in bytes: the spill signal. Zero except on the PDH
    /// path.
    pub shared_used_bytes: u64,
    /// The backend that produced the row; never DXGI.
    pub source: GpuQuerySource,
}

impl Clone for GpuProcessEntry {
    fn clone(&self) -> (r: Self)
        ensures
            r == *self,
    {
        GpuProcessEntry {
            pid: self.pid,
            name: clone_opt(&self.name),
            used_bytes: self.used_bytes,
            shared_used_bytes: self.shared_used_bytes,
            source: self.source,
        }
    }
}

/// A process entry, its name as characters.
pub struct EntryModel {
    /// Process ID.
    pub pid: u32,
    /// Process name.
    pub name: Option<Seq<char>>,
    /// GPU memory in bytes.
    pub used_bytes: u64,
    /// Resident shared memory in bytes.
    pub shared_used_bytes: u64,
    /// The backend.
    pub source: GpuQuerySource,
}

impl View for GpuProcessEntry {
    type V = EntryModel;

    open spec fn view(&self) -> EntryModel {
        EntryModel {
            pid: self.pid,
            name: opt_text(self.name),
            used_bytes: self.used_bytes,
            shared_used_bytes: self.shared_used_bytes,
            source: self.source,
        }
    }
}

/// The models of process entries.
pub open spec fn entry_models(v: Seq<GpuProcessEntry>) -> Seq<EntryModel> {
    v.map_values(|e: GpuProcessEntry| e@)
}

/// RAM and GPU memory at one point in time.
#[derive(Debug)]
pub struct Snapshot {
    /// Resident set size of the process in bytes.
    pub ram_bytes: u64,
    /// GPU memory of the process on the device, where a backend gave it.
    pub gpu: Option<ProcessGpuInfo>,
    /// Device-wide GPU memory, where a backend gave it.
    pub gpu_device: Option<GpuDeviceInfo>,
}

impl Clone for Snapshot {
    fn clone(&self) -> (r: Self)
        ensures
            r == *self,
    {
        Snapshot {
            ram_bytes: self.ram_bytes,
            gpu: self.gpu,
            gpu_device: match &self.gpu_device {
                Some(d) => Some(d.clone()),
                None => None,
            },
        }
    }
}

/// The readings of one device: the process's figure and the device's.
pub struct DeviceReading {
    /// GPU memory of the process on the device.
    pub gpu: Result<ProcessGpuInfo>,
    /// Device-wide memory.
    pub gpu_device: Result<GpuDeviceInfo>,
}

/// The value of a result, its error dropped.
pub open spec fn value_of<T>(r: Result<T>) -> Option<T> {
    match r {
        Ok(v) => Some(v),
        Err(_) => None,
    }
}

fn ok_value<T>(r: Result<T>) -> (o: Option<T>)
    ensures
        o == value_of(r),
{
    match r {
        Ok(v) => Some(v),
        Err(_) => None,
    }
}

/// The snapshots of all devices: the addressable ones first, then the others.
pub open spec fn all_snapshots(
    ram: u64,
    devices: Seq<DeviceReading>,
    extras: Seq<(GpuDeviceInfo, ProcessGpuInfo)>,
) -> Seq<Snapshot> {
    devices.map_values(
        |d: DeviceReading|
            Snapshot { ram_bytes: ram, gpu: value_of(d.gpu), gpu_device: value_of(d.gpu_device) },
    ) + extras.map_values(
        |e: (GpuDeviceInfo, ProcessGpuInfo)|
            Snapshot { ram_bytes: ram, gpu: Some(e.1), gpu_device: Some(e.0) },
    )
}

impl Snapshot {
    /// The snapshot of one device from its readings. RAM is mandatory: its error is
    /// returned. A GPU reading that failed becomes `None`.
    pub fn now(
        ram: Result<u64>,
        gpu: Result<ProcessGpuInfo>,
        gpu_device: Result<GpuDeviceInfo>,
    ) -> (r: Result<Snapshot>)
        ensures
            match ram {
                Err(e) => r == Err::<Snapshot, HypomnesisError>(e),
                Ok(bytes) => r == Ok::<Snapshot, HypomnesisError>(
                    Snapshot {
                        ram_bytes: bytes,
                        gpu: value_of(gpu),
                        gpu_device: value_of(gpu_device),
                    },
                ),
            },
    {
        match ram {
            Err(e) => Err(e),
            Ok(ram_bytes) => Ok(
                Snapshot { ram_bytes, gpu: ok_value(gpu), gpu_device: ok_value(gpu_device) },
            ),
        }
    }

    /// The snapshots of all devices: one per addressable device, in index order, then
    /// one per further adapter. One RAM reading serves all of them; its error is
    /// returned.
    pub fn all(
        ram: Result<u64>,
        devices: Vec<DeviceReading>,
        extras: Vec<(GpuDeviceInfo, ProcessGpuInfo)>,
    ) -> (r: Result<Vec<Snapshot>>)
        ensures
            match ram {
                Err(e) => r == Err::<Vec<Snapshot>, HypomnesisError>(e),
                Ok(bytes) => r matches Ok(v) && v@ == all_snapshots(bytes, devices@, extras@),
            },
    {
        let ram_bytes = match ram {
            Err(e) => {
                return Err(e);
            },
            Ok(b) => b,
        };
        let ghost ds = devices@;
        let ghost es = extras@;
        let mut out: Vec<Snapshot> = Vec::new();
        for d in it: devices
            invariant
                it.seq() == ds,
                out@ == all_snapshots(ram_bytes, ds.take(it.index()), seq![]),
        {
            let ghost k = it.index();
            out.push(Snapshot { ram_bytes, gpu: ok_value(d.gpu), gpu_device: ok_value(d.gpu_device) });
            assert(out@ =~= all_snapshots(ram_bytes, ds.take(k + 1), seq![]));
        }
        assert(ds.take(ds.len() as int) =~= ds);
        assert(es.take(0) =~= seq![]);
        for e in it: extras
            invariant
                it.seq() == es,
                out@ == all_snapshots(ram_bytes, ds, es.take(it.index())),
        {
            let ghost k = it.index();
            out.push(Snapshot { ram_bytes, gpu: Some(e.1), gpu_device: Some(e.0) });
            assert(out@ =~= all_snapshots(ram_bytes, ds, es.take(k + 1)));
        }
        assert(es.take(es.len() as int) =~= es);
        Ok(out)
    }
}

// ---------------------------------------------------------------------------
// Device text
// ---------------------------------------------------------------------------

/// A name in brackets after a space, or nothing.
pub open spec fn bracketed(name: Option<Seq<char>>) -> Seq<char> {
    match name {
        Some(n) => " ["@ + n + "]"@,
        None => seq![],
    }
}

/// Append a name in brackets after a space, or nothing.
pub fn push_bracketed(out: &mut String, name: &Option<String>)
    ensures
        final(out)@ == old(out)@ + bracketed(opt_text(*name)),
{
    match name {
        Some(n) => {
            out.append(" [");
            out.append(n.as_str());
            out.append("]");
        },
        None => {},
    }
    assert(out@ =~= old(out)@ + bracketed(opt_text(*name)));
}

/// The adapter name, or the phrase for an unknown one.
pub open spec fn name_text(name: Option<String>) -> Seq<char> {
    match name {
        Some(n) => n@,
        None => "unknown GPU"@,
    }
}

impl GpuDeviceInfo {
    /// The adapter name, or `unknown GPU`.
    pub fn name_or_unknown(&self) -> (s: &str)
        ensures
            s@ == name_text(self.name),
    {
        match &self.name {
            Some(n) => n.as_str(),
            None => "unknown GPU",
        }
    }

    /// The free-memory line.
    pub open spec fn free_line(self) -> Seq<char> {
        "  GPU "@ + decimal(self.index as nat) + ": free "@ + decimal(
            mib_nearest(self.free_bytes as nat),
        ) + " MB / "@ + decimal(mib_nearest(self.total_bytes as nat)) + " MB"@ + bracketed(
            opt_text(self.name),
        ) + "\n"@
    }

    /// The free memory of the device as one line: `  GPU 0: free 14000 MB / 16380 MB [name]`.
    pub fn format_free(&self) -> (s: String)
        ensures
            s@ == self.free_line(),
    {
        let mut s = String::from_str("  GPU ");
        push_decimal(&mut s, self.index as u64);
        s.append(": free ");
        push_mib_nearest(&mut s, self.free_bytes);
        s.append(" MB / ");
        push_mib_nearest(&mut s, self.total_bytes);
        s.append(" MB");
        push_bracketed(&mut s, &self.name);
        s.append("\n");
        s
    }

    /// The total-memory line.
    pub open spec fn total_line(self) -> Seq<char> {
        "  GPU "@ + decimal(self.index as nat) + ": total "@ + decimal(
            mib_nearest(self.total_bytes as nat),
        ) + " MB"@ + bracketed(opt_text(self.name)) + "\n"@
    }

    /// The total memory of the device as one line.
    pub fn format_total(&self) -> (s: String)
        ensures
            s@ == self.total_line(),
    {
        let mut s = String::from_str("  GPU ");
        push_decimal(&mut s, self.index as u64);
        s.append(": total ");
        push_mib_nearest(&mut s, self.total_bytes);
        s.append(" MB");
        push_bracketed(&mut s, &self.name);
        s.append("\n");
        s
    }

    /// The used-memory line.
    pub open spec fn used_line(self) -> Seq<char> {
        "  GPU "@ + decimal(self.index as nat) + ": used "@ + decimal(
            mib_nearest(self.used_bytes as nat),
        ) + " MB"@ + bracketed(opt_text(self.name)) + "\n"@
    }

    /// The used memory of the device as one line.
    pub fn format_used(&self) -> (s: String)
        ensures
            s@ == self.used_line(),
    {
        let mut s = String::from_str("  GPU ");
        push_decimal(&mut s, self.index as u64);
        s.append(": used ");
        push_mib_nearest(&mut s, self.used_bytes);
        s.append(" MB");
        push_bracketed(&mut s, &self.name);
        s.append("\n");
        s
    }
}

/// Every snapshot of one sweep carries the same RAM figure, and there is one per device
/// and per further adapter.
pub proof fn law_all_snapshots_share_ram(
    ram: u64,
    devices: Seq<DeviceReading>,
    extras: Seq<(GpuDeviceInfo, ProcessGpuInfo)>,
)
    ensures
        all_snapshots(ram, devices, extras).len() == devices.len() + extras.len(),
        forall|i: int|
            0 <= i < all_snapshots(ram, devices, extras).len() ==> (#[trigger] all_snapshots(
                ram,
                devices,
                extras,
            )[i]).ram_bytes == ram,
{
}

} // verus!
