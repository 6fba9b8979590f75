//! Reports on two snapshots.
use hypomnesis::{GpuDeviceInfo, GpuQuerySource, MemoryReport, ProcessGpuInfo, Snapshot};

fn snapshot_with(
    ram: u64,
    vram_used: Option<u64>,
    is_per_process: bool,
    total: u64,
    name: Option<&str>,
) -> Snapshot {
    Snapshot {
        ram_bytes: ram,
        gpu: vram_used.map(|used| ProcessGpuInfo {
            used_bytes: used,
            is_per_process,
            source: if is_per_process {
                GpuQuerySource::Nvml
            } else {
                GpuQuerySource::NvidiaSmi
            },
        }),
        gpu_device: Some(GpuDeviceInfo {
            index: 0,
            name: name.map(str::to_owned),
            total_bytes: total,
            free_bytes: total.saturating_sub(vram_used.unwrap_or(0)),
            used_bytes: vram_used.unwrap_or(0),
            reserved_bytes: None,
            driver_version: None,
        }),
    }
}

fn snapshot_no_gpu(ram: u64) -> Snapshot {
    Snapshot {
        ram_bytes: ram,
        gpu: None,
        gpu_device: None,
    }
}

#[test]
fn vram_qualifier_per_process() {
    let snap = snapshot_with(100, Some(500), true, 1000, None);
    let report = MemoryReport::new(snap.clone(), snap);
    assert_eq!(report.vram_qualifier(), " [per-process]");
}

#[test]
fn vram_qualifier_device_wide() {
    let snap = snapshot_with(100, Some(500), false, 1000, None);
    let report = MemoryReport::new(snap.clone(), snap);
    assert_eq!(report.vram_qualifier(), " [device-wide]");
}

#[test]
fn vram_qualifier_empty_when_no_gpu() {
    let snap = snapshot_no_gpu(100);
    let report = MemoryReport::new(snap.clone(), snap);
    assert_eq!(report.vram_qualifier(), "");
}

#[test]
fn format_delta_with_vram_per_process() {
    let before = snapshot_with(
        100 * 1_048_576,
        Some(500 * 1_048_576),
        true,
        16_384 * 1_048_576,
        None,
    );
    let after = snapshot_with(
        200 * 1_048_576,
        Some(1_000 * 1_048_576),
        true,
        16_384 * 1_048_576,
        None,
    );
    let report = MemoryReport::new(before, after);
    let s = report.format_delta("alloc");
    assert_eq!(s, "  alloc: RAM +100 MB  |  VRAM +500 MB [per-process]\n");
}

#[test]
fn format_delta_with_vram_device_wide() {
    let before = snapshot_with(
        100 * 1_048_576,
        Some(500 * 1_048_576),
        false,
        16_384 * 1_048_576,
        None,
    );
    let after = snapshot_with(
        150 * 1_048_576,
        Some(750 * 1_048_576),
        false,
        16_384 * 1_048_576,
        None,
    );
    let report = MemoryReport::new(before, after);
    let s = report.format_delta("step");
    assert_eq!(s, "  step: RAM +50 MB  |  VRAM +250 MB [device-wide]\n");
}

#[test]
fn format_delta_without_vram() {
    let report = MemoryReport::new(
        snapshot_no_gpu(50 * 1_048_576),
        snapshot_no_gpu(80 * 1_048_576),
    );
    let s = report.format_delta("cpu");
    assert_eq!(s, "  cpu: RAM +30 MB\n");
}

#[test]
fn format_delta_negative_ram() {
    let report = MemoryReport::new(
        snapshot_no_gpu(80 * 1_048_576),
        snapshot_no_gpu(50 * 1_048_576),
    );
    let s = report.format_delta("free");
    assert_eq!(s, "  free: RAM -30 MB\n");
}

#[test]
fn format_before_after_with_vram_and_name() {
    let before = snapshot_with(
        100 * 1_048_576,
        Some(500 * 1_048_576),
        true,
        16_384 * 1_048_576,
        Some("NVIDIA Test GPU"),
    );
    let after = snapshot_with(
        200 * 1_048_576,
        Some(1_000 * 1_048_576),
        true,
        16_384 * 1_048_576,
        Some("NVIDIA Test GPU"),
    );
    let report = MemoryReport::new(before, after);
    let s = report.format_before_after("model_load");
    assert_eq!(
        s,
        "  model_load: RAM 100 MB → 200 MB (+100 MB)\n  \
         model_load: VRAM 500 MB → 1000 MB (+500 MB / 16384 MB) [per-process] [NVIDIA Test GPU]\n"
    );
}

#[test]
fn format_before_after_without_vram() {
    let before = snapshot_no_gpu(100 * 1_048_576);
    let after = snapshot_no_gpu(150 * 1_048_576);
    let report = MemoryReport::new(before, after);
    let s = report.format_before_after("cpu_only");
    assert_eq!(s, "  cpu_only: RAM 100 MB → 150 MB (+50 MB)\n");
}
