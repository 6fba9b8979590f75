//! Snapshots and device lines.
use hypomnesis::{GpuDeviceInfo, GpuQuerySource, ProcessGpuInfo, Snapshot};

fn make_snapshot(
    ram: u64,
    vram_used: Option<u64>,
    is_per_process: bool,
    total: u64,
) -> Snapshot {
    Snapshot {
        ram_bytes: ram,
        gpu: vram_used.map(|used| ProcessGpuInfo {
            used_bytes: used,
            is_per_process,
            source: if is_per_process {
                GpuQuerySource::Nvml
            } else {
                GpuQuerySource::NvidiaSmi
            },
        }),
        gpu_device: if total > 0 {
            Some(GpuDeviceInfo {
                index: 0,
                name: None,
                total_bytes: total,
                free_bytes: total.saturating_sub(vram_used.unwrap_or(0)),
                used_bytes: vram_used.unwrap_or(0),
                reserved_bytes: None,
                driver_version: None,
            })
        } else {
            None
        },
    }
}

#[test]
fn snapshot_constructs_with_no_gpu() {
    let snap = make_snapshot(0, None, false, 0);
    assert_eq!(snap.ram_bytes, 0);
    assert!(snap.gpu.is_none());
    assert!(snap.gpu_device.is_none());
}

#[test]
fn snapshot_constructs_with_full_gpu() {
    let snap = make_snapshot(1_048_576, Some(500 * 1_048_576), true, 16_384 * 1_048_576);
    assert_eq!(snap.ram_bytes, 1_048_576);
    assert_eq!(snap.gpu.as_ref().unwrap().used_bytes, 500 * 1_048_576);
    assert!(snap.gpu.as_ref().unwrap().is_per_process);
    assert_eq!(
        snap.gpu_device.as_ref().unwrap().total_bytes,
        16_384 * 1_048_576
    );
}

#[test]
fn format_free_with_name() {
    let dev = GpuDeviceInfo {
        index: 0,
        name: Some("NVIDIA Test GPU".to_owned()),
        total_bytes: 16_384 * 1_048_576,
        free_bytes: 13_284 * 1_048_576,
        used_bytes: 3_100 * 1_048_576,
        reserved_bytes: None,
        driver_version: None,
    };
    assert_eq!(
        dev.format_free(),
        "  GPU 0: free 13284 MB / 16384 MB [NVIDIA Test GPU]\n"
    );
}

#[test]
fn format_free_without_name() {
    let dev = GpuDeviceInfo {
        index: 1,
        name: None,
        total_bytes: 8_192 * 1_048_576,
        free_bytes: 4_096 * 1_048_576,
        used_bytes: 4_096 * 1_048_576,
        reserved_bytes: None,
        driver_version: None,
    };
    assert_eq!(dev.format_free(), "  GPU 1: free 4096 MB / 8192 MB\n");
}

#[test]
fn format_free_full_device() {
    let dev = GpuDeviceInfo {
        index: 2,
        name: Some("Saturated GPU".to_owned()),
        total_bytes: 4_096 * 1_048_576,
        free_bytes: 0,
        used_bytes: 4_096 * 1_048_576,
        reserved_bytes: None,
        driver_version: None,
    };
    assert_eq!(
        dev.format_free(),
        "  GPU 2: free 0 MB / 4096 MB [Saturated GPU]\n"
    );
}

#[test]
fn format_total_with_name() {
    let dev = GpuDeviceInfo {
        index: 0,
        name: Some("NVIDIA Test GPU".to_owned()),
        total_bytes: 16_384 * 1_048_576,
        free_bytes: 13_284 * 1_048_576,
        used_bytes: 3_100 * 1_048_576,
        reserved_bytes: None,
        driver_version: None,
    };
    assert_eq!(
        dev.format_total(),
        "  GPU 0: total 16384 MB [NVIDIA Test GPU]\n"
    );
}

#[test]
fn format_total_without_name() {
    let dev = GpuDeviceInfo {
        index: 1,
        name: None,
        total_bytes: 8_192 * 1_048_576,
        free_bytes: 4_096 * 1_048_576,
        used_bytes: 4_096 * 1_048_576,
        reserved_bytes: None,
        driver_version: None,
    };
    assert_eq!(dev.format_total(), "  GPU 1: total 8192 MB\n");
}

#[test]
fn format_total_full_device() {
    let dev = GpuDeviceInfo {
        index: 2,
        name: Some("Saturated GPU".to_owned()),
        total_bytes: 4_096 * 1_048_576,
        free_bytes: 0,
        used_bytes: 4_096 * 1_048_576,
        reserved_bytes: None,
        driver_version: None,
    };
    assert_eq!(
        dev.format_total(),
        "  GPU 2: total 4096 MB [Saturated GPU]\n"
    );
}

#[test]
fn format_used_with_name() {
    let dev = GpuDeviceInfo {
        index: 0,
        name: Some("NVIDIA Test GPU".to_owned()),
        total_bytes: 16_384 * 1_048_576,
        free_bytes: 13_284 * 1_048_576,
        used_bytes: 3_100 * 1_048_576,
        reserved_bytes: None,
        driver_version: None,
    };
    assert_eq!(
        dev.format_used(),
        "  GPU 0: used 3100 MB [NVIDIA Test GPU]\n"
    );
}

#[test]
fn format_used_without_name() {
    let dev = GpuDeviceInfo {
        index: 1,
        name: None,
        total_bytes: 8_192 * 1_048_576,
        free_bytes: 4_096 * 1_048_576,
        used_bytes: 4_096 * 1_048_576,
        reserved_bytes: None,
        driver_version: None,
    };
    assert_eq!(dev.format_used(), "  GPU 1: used 4096 MB\n");
}

#[test]
fn format_used_idle_device() {
    let dev = GpuDeviceInfo {
        index: 2,
        name: Some("Idle GPU".to_owned()),
        total_bytes: 4_096 * 1_048_576,
        free_bytes: 4_096 * 1_048_576,
        used_bytes: 0,
        reserved_bytes: None,
        driver_version: None,
    };
    assert_eq!(dev.format_used(), "  GPU 2: used 0 MB [Idle GPU]\n");
}

#[test]
fn name_or_unknown_returns_inner_when_some() {
    let dev = GpuDeviceInfo {
        index: 0,
        name: Some("NVIDIA Test GPU".to_owned()),
        total_bytes: 0,
        free_bytes: 0,
        used_bytes: 0,
        reserved_bytes: None,
        driver_version: None,
    };
    assert_eq!(dev.name_or_unknown(), "NVIDIA Test GPU");
}

#[test]
fn name_or_unknown_returns_fallback_when_none() {
    let dev = GpuDeviceInfo {
        index: 0,
        name: None,
        total_bytes: 0,
        free_bytes: 0,
        used_bytes: 0,
        reserved_bytes: None,
        driver_version: None,
    };
    assert_eq!(dev.name_or_unknown(), "unknown GPU");
}

#[test]
fn builder_defaults_produce_zeroed_device() {
    let dev = GpuDeviceInfo::builder().build();
    assert_eq!(dev.index, 0);
    assert!(dev.name.is_none());
    assert_eq!(dev.total_bytes, 0);
    assert_eq!(dev.free_bytes, 0);
    assert_eq!(dev.used_bytes, 0);
    assert!(dev.reserved_bytes.is_none());
}

#[test]
fn builder_index_setter() {
    let dev = GpuDeviceInfo::builder().index(7).build();
    assert_eq!(dev.index, 7);
}

#[test]
fn builder_name_setter_some() {
    let dev = GpuDeviceInfo::builder()
        .name(Some("Synthetic GPU".to_owned()))
        .build();
    assert_eq!(dev.name.as_deref(), Some("Synthetic GPU"));
}

#[test]
fn builder_name_setter_none_is_default() {
    let dev = GpuDeviceInfo::builder().name(None).build();
    assert!(dev.name.is_none());
}

#[test]
fn builder_byte_setters() {
    let dev = GpuDeviceInfo::builder()
        .total_bytes(16 * 1_024 * 1_024 * 1_024)
        .free_bytes(14 * 1_024 * 1_024 * 1_024)
        .used_bytes(2 * 1_024 * 1_024 * 1_024)
        .build();
    assert_eq!(dev.total_bytes, 16 * 1_024 * 1_024 * 1_024);
    assert_eq!(dev.free_bytes, 14 * 1_024 * 1_024 * 1_024);
    assert_eq!(dev.used_bytes, 2 * 1_024 * 1_024 * 1_024);
}

#[test]
fn builder_full_round_trip() {
    let dev = GpuDeviceInfo::builder()
        .index(1)
        .name(Some("Round-Trip GPU".to_owned()))
        .total_bytes(17_179_869_184)
        .free_bytes(15_246_684_160)
        .used_bytes(1_933_185_024)
        .reserved_bytes(Some(76_546_048))
        .build();
    assert_eq!(dev.index, 1);
    assert_eq!(dev.name.as_deref(), Some("Round-Trip GPU"));
    assert_eq!(dev.total_bytes, 17_179_869_184);
    assert_eq!(dev.free_bytes, 15_246_684_160);
    assert_eq!(dev.used_bytes, 1_933_185_024);
    assert_eq!(dev.reserved_bytes, Some(76_546_048));
    assert!(dev.reserved_bytes.unwrap() < dev.total_bytes);
    assert_eq!(
        dev.total_bytes - dev.reserved_bytes.unwrap(),
        17_179_869_184 - 76_546_048
    );
}
