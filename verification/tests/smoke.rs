//! The public surface, and the entry points on plain answers of the platform.
use hypomnesis::gpu::{DeviceSources, ListingSources, NvmlProcessRow};
use hypomnesis::ram::RamReading;
use hypomnesis::snapshot::DeviceReading;
use hypomnesis::{
    device_count, device_info, gpu_processes, is_spill_measurable, process_gpu_info, process_rss,
    Duration, GpuDeviceInfo, GpuProcessEntry, GpuQuerySource, HypomnesisError, MemoryReport,
    ProcessGpuInfo, Snapshot, SpillEpisode, SpillReport, SpillTracker,
};

/// The status file of a small Linux process.
fn linux_status() -> RamReading {
    RamReading::Linux("Name:\tsmoke\nVmPeak:\t   12000 kB\nVmRSS:\t    4096 kB\n".to_owned())
}

/// No source of listings answers.
fn no_listing() -> ListingSources {
    ListingSources { nvml: None, pdh: None, snapshot: None, metal: None, nvidia_smi: None }
}

#[test]
fn public_types_are_reachable_via_crate_root() {
    let _: Option<GpuDeviceInfo> = None;
    let _: Option<ProcessGpuInfo> = None;
    let _: Option<GpuProcessEntry> = None;
    let _: Option<Snapshot> = None;
    let _: Option<SpillEpisode> = None;
    let _: Option<SpillReport> = None;
    let _: Option<SpillTracker> = None;
    let _: GpuQuerySource = GpuQuerySource::Dxgi;
    let _: GpuQuerySource = GpuQuerySource::Nvml;
    let _: GpuQuerySource = GpuQuerySource::NvidiaSmi;
    let _: GpuQuerySource = GpuQuerySource::Metal;
    let _: HypomnesisError = HypomnesisError::NoGpuSource;
}

#[test]
fn report_feature_types_are_reachable() {
    let _: Option<MemoryReport> = None;
}

#[test]
fn process_rss_returns_positive() {
    let rss = process_rss(&linux_status()).unwrap();
    assert!(rss > 0, "process_rss should be positive, got {rss}");
    assert_eq!(rss, 4096 * 1024);
}

#[test]
fn snapshot_now_returns_ram_without_gpu() {
    let ram = process_rss(&linux_status());
    let gpu = process_gpu_info(0, &None, &None, None, None, None, None);
    let none = DeviceSources {
        nvml: None,
        dxgi_name: None,
        dxgi: None,
        metal: None,
        nvidia_smi: None,
    };
    let gpu_device = device_info(0, none, None, None);
    let snap = Snapshot::now(ram, gpu, gpu_device).unwrap();
    assert!(
        snap.ram_bytes > 0,
        "Snapshot::now should return positive RAM, got {}",
        snap.ram_bytes
    );
    assert!(snap.gpu.is_none());
    assert!(snap.gpu_device.is_none());
}

#[test]
fn snapshot_all_returns_ok_and_carries_ram() {
    let none = Snapshot::all(process_rss(&linux_status()), vec![], vec![]).unwrap();
    assert!(none.is_empty());
    let reading = DeviceReading {
        gpu: Err(HypomnesisError::NoGpuSource),
        gpu_device: Ok(GpuDeviceInfo::builder().index(0).total_bytes(1024).build()),
    };
    let snaps = Snapshot::all(process_rss(&linux_status()), vec![reading], vec![]).unwrap();
    assert_eq!(snaps.len(), 1);
    for snap in &snaps {
        assert!(
            snap.ram_bytes > 0,
            "every Snapshot::all entry should carry positive RAM, got {}",
            snap.ram_bytes
        );
    }
}

#[test]
fn is_spill_measurable_is_callable_everywhere() {
    assert!(!is_spill_measurable(&None), "is_spill_measurable() must be false off-Windows");
}

#[test]
fn spill_tracker_constructs_or_errs_cleanly() {
    let outcomes = vec![
        Ok(false),
        Ok(true),
        Err(HypomnesisError::Pdh("no adapter".to_owned())),
    ];
    for outcome in outcomes {
        match SpillTracker::new(outcome) {
            Ok(mut tracker) => {
                tracker.observe("smoke".to_owned(), None, Duration::zero());
                let _ = tracker.is_spilling();
                let _ = tracker.has_spilled();
                let measurable = tracker.is_measurable();
                let report = tracker.into_report();
                assert_eq!(report.measurable, measurable);
                assert!(
                    report.observations <= 1,
                    "one observe() call cannot yield more than one observation, got {}",
                    report.observations
                );
                if !measurable {
                    assert_eq!(
                        report.observations, 0,
                        "a non-measurable tracker must record no observations"
                    );
                    assert!(!report.spilled());
                }
            }
            Err(e) => {
                assert!(
                    matches!(e, HypomnesisError::Pdh(_)),
                    "unexpected error from SpillTracker::new(0): {e:?}"
                );
            }
        }
    }
}

/// A listing as NVML gives it on Linux.
fn nvml_listing() -> ListingSources {
    let mut s = no_listing();
    s.nvml = Some(vec![
        NvmlProcessRow { pid: 30, used_bytes: 3_000, comm: Some("trainer\n".to_owned()) },
        NvmlProcessRow { pid: 10, used_bytes: 1_000, comm: None },
    ]);
    s
}

#[test]
fn gpu_process_entry_shared_bytes_zero_off_windows() {
    if let Ok(rows) = gpu_processes(0, nvml_listing(), None, None) {
        assert_eq!(rows.len(), 2);
        for row in &rows {
            assert_eq!(
                row.shared_used_bytes, 0,
                "shared_used_bytes must be 0 off-Windows, got {} for pid {}",
                row.shared_used_bytes, row.pid
            );
        }
    }
}

#[test]
fn gpu_processes_returns_result_or_no_gpu_source() {
    for sources in vec![nvml_listing(), no_listing()] {
        match gpu_processes(0, sources, None, None) {
            Ok(rows) => {
                for row in &rows {
                    assert!(row.pid > 0, "expected positive PID, got {}", row.pid);
                    assert!(
                        matches!(
                            row.source,
                            GpuQuerySource::Nvml
                                | GpuQuerySource::Pdh
                                | GpuQuerySource::NvidiaSmi
                                | GpuQuerySource::Metal
                        ),
                        "unexpected source {:?} on a gpu_processes row",
                        row.source
                    );
                }
            }
            Err(e) => {
                assert!(
                    matches!(
                        e,
                        HypomnesisError::NoGpuSource
                            | HypomnesisError::DeviceIndexOutOfRange { .. }
                    ),
                    "unexpected error from gpu_processes(0): {e:?}"
                );
            }
        }
    }
}

#[test]
fn process_rss_returns_positive_on_macos() {
    let rss = process_rss(&RamReading::Macos { kr: 0, phys_footprint: 5_000_000 }).unwrap();
    assert!(rss > 1_000_000, "expected process_rss > 1 MB on macOS, got {rss}");
}

#[test]
fn device_count_is_one_on_apple_silicon() {
    let brand = Some("Apple M2".to_owned());
    match device_count(None, None, hypomnesis::gpu::metal::device_count(&brand)) {
        Ok(count) => assert_eq!(count, 1, "expected device_count == 1 on Apple Silicon, got {count}"),
        Err(e) => assert!(
            matches!(e, HypomnesisError::NoGpuSource),
            "unexpected error from device_count(): {e:?}"
        ),
    }
}

#[test]
fn gpu_processes_returns_metal_rows_for_self() {
    let own = GpuProcessEntry::builder()
        .pid(77)
        .name(Some("smoke".to_owned()))
        .used_bytes(1)
        .source(GpuQuerySource::Metal)
        .build();
    let mut sources = no_listing();
    sources.metal = Some(vec![own]);
    let rows = gpu_processes(0, sources, None, None).unwrap();
    assert!(rows.iter().any(|r| r.pid == 77));
    for row in &rows {
        assert!(row.pid > 0, "expected positive PID, got {}", row.pid);
        assert_eq!(
            row.source,
            GpuQuerySource::Metal,
            "expected GpuQuerySource::Metal for a macOS row, got {:?}",
            row.source
        );
    }
}

#[test]
fn snapshot_now_includes_gpu_on_macos() {
    let gpu = process_gpu_info(
        0,
        &None,
        &None,
        hypomnesis::gpu::metal::process_gpu_info(0, Some(4_096)),
        None,
        None,
        None,
    );
    let device = Err(HypomnesisError::NoGpuSource);
    let snap = Snapshot::now(Ok(5_000_000), gpu, device).unwrap();
    assert!(snap.gpu.is_some());
    assert_eq!(snap.gpu.unwrap().source, GpuQuerySource::Metal);
}
