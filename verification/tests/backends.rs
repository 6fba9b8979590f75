//! What the backends' answers come to.
use hypomnesis::gpu::adapter::{
    adapter_counter_set_available, AdapterMemQuery, AdapterMemSample, SegmentReading,
};
use hypomnesis::gpu::dxgi::{
    adapter_dedicated_video_memory, adapter_luid, adapter_name, enumerate_non_nvidia, AdapterDesc,
    DxgiQueryResult,
};
use hypomnesis::gpu::metal::{
    list_compute_processes as list_metal, read_graphics_footprint, read_proc_pidpath_basename,
    read_sysctl_string, read_sysctl_u64, resolve_graphics_footprint_index, MetalQueryResult,
    PidReading, SysctlText,
};
use hypomnesis::gpu::names::{
    name_from_pid_windows, resolve_names_via_snapshot, resolved_or_fallback, ProcessTableEntry,
};
use hypomnesis::gpu::nvidia_smi::{query as query_smi, query_compute_apps, NvidiaSmiResult};
use hypomnesis::gpu::nvml::{
    list_compute_processes as list_nvml, next_action, query as query_nvml, NvmlAction, NvmlGoal,
    NvmlMemoryInfo, NvmlProcessInfo, NvmlProcessList, NvmlReadings, NvmlText,
};
use hypomnesis::gpu::nvml::NvmlAction::{
    GetCount, GetDriverVersion, GetHandle, GetMemory, GetName, GetProcesses, GetReserved, Init,
    Shutdown,
};
use hypomnesis::gpu::pdh::{
    adapter_counters, collect_segmented_rows, enum_object_instances, process_counters,
    process_instances, query_per_process_vram, read_counter_bytes, target_luid, CounterReading,
    InstanceReading, ProcessMemoryRow, SegmentRow, PDH_CSTATUS_NO_OBJECT, PDH_MORE_DATA,
    PDH_SUCCESS,
};
use hypomnesis::gpu::{
    bounds_check, device_count, device_info, dxgi_non_nvidia_devices, gpu_processes,
    process_gpu_info, unresolved_pids, DeviceSources, ListingSources, NvmlProcessRow,
    PdhProcessRow,
};
use hypomnesis::ram::{process_rss, RamReading};
use hypomnesis::snapshot::DeviceReading;
use hypomnesis::{
    is_spill_measurable, GpuDeviceInfo, GpuQuerySource, HypomnesisError,
    ProcessGpuInfo, Snapshot,
};

fn message<T>(r: Result<T, HypomnesisError>) -> String {
    match r {
        Ok(_) => panic!("expected an error"),
        Err(e) => e.message(),
    }
}

fn wide(s: &str, len: usize) -> Vec<u16> {
    let mut v: Vec<u16> = s.encode_utf16().collect();
    v.resize(len, 0);
    v
}

fn adapter(vendor_id: u32, name: &str, dedicated: u64, shared: u64) -> AdapterDesc {
    AdapterDesc {
        vendor_id,
        description: wide(name, 128),
        dedicated_video_memory: dedicated,
        shared_system_memory: shared,
        luid: (1, dedicated as u32),
        current_usage: Some(dedicated / 2),
    }
}

const NVIDIA: u32 = 0x10DE;
const AMD: u32 = 0x1002;
const BASIC: u32 = 0x1414;

// --- RAM ---

#[test]
fn each_platform_reads_its_own_answer() {
    assert_eq!(
        process_rss(&RamReading::Windows { ok: 1, working_set: 42, last_error: 5 }).unwrap(),
        42
    );
    assert_eq!(
        message(process_rss(&RamReading::Windows { ok: 0, working_set: 42, last_error: 5 })),
        "RAM query failed: K32GetProcessMemoryInfo failed (GetLastError = 5)"
    );
    assert_eq!(
        message(process_rss(&RamReading::LinuxUnreadable("no such file".to_owned()))),
        "RAM query failed: failed to read /proc/self/status: no such file"
    );
    assert_eq!(
        message(process_rss(&RamReading::Macos { kr: -5, phys_footprint: 1 })),
        "RAM query failed: task_info(TASK_VM_INFO_PURGEABLE) failed (kern_return = -5)"
    );
    assert_eq!(
        message(process_rss(&RamReading::Unsupported)),
        "RAM query failed: RAM measurement not supported on this platform"
    );
}

// --- NVML ---

fn session(goal: NvmlGoal, failing: Option<NvmlAction>) -> Vec<NvmlAction> {
    let mut calls = vec![];
    let mut action = NvmlAction::Init;
    while action != NvmlAction::Done {
        calls.push(action);
        let ret = if Some(action) == failing { 9 } else { 0 };
        action = next_action(goal, action, ret);
    }
    calls
}

#[test]
fn a_session_shuts_down_exactly_when_it_initialised() {
    assert_eq!(
        session(NvmlGoal::Query, None),
        vec![
            Init, GetHandle, GetMemory, GetName, GetReserved, GetDriverVersion, GetProcesses,
            Shutdown
        ]
    );
    assert_eq!(session(NvmlGoal::Count, None), vec![Init, GetCount, Shutdown]);
    assert_eq!(session(NvmlGoal::Query, Some(Init)), vec![Init]);
    assert_eq!(
        session(NvmlGoal::ListProcesses, Some(GetHandle)),
        vec![Init, GetHandle, Shutdown]
    );
    for failing in [GetHandle, GetMemory, GetName, GetReserved, GetDriverVersion, GetProcesses] {
        let calls = session(NvmlGoal::Query, Some(failing));
        assert_eq!(calls.iter().filter(|c| **c == Shutdown).count(), 1);
    }
}

fn info(pid: u32, used_gpu_memory: u64) -> NvmlProcessInfo {
    NvmlProcessInfo { pid, used_gpu_memory }
}

fn text(ret: u32, s: &[u8]) -> Option<NvmlText> {
    Some(NvmlText { ret, buffer: s.to_vec() })
}

#[test]
fn nvml_readings_come_together() {
    let readings = NvmlReadings {
        memory: Some(NvmlMemoryInfo { total: 1_000, free: 700, used: 300 }),
        name: text(0, b"RTX \xFF\0rest"),
        reserved: Some((0, 25)),
        driver_version: text(0, b"580.95\0"),
        processes: Some(NvmlProcessList {
            ret: 0,
            count: 2,
            infos: vec![info(7, 120), info(8, 90), info(9, 10)],
        }),
    };
    let q = query_nvml(&readings, 8).unwrap();
    assert_eq!(q.process_used_bytes, Some(90));
    assert_eq!(q.reserved_bytes, Some(25));
    assert_eq!(q.device_name.as_deref(), Some("RTX \u{FFFD}"));
    assert_eq!(q.driver_version.as_deref(), Some("580.95"));
    // The third row lies beyond the count.
    assert_eq!(query_nvml(&readings, 9).unwrap().process_used_bytes, None);
    let none = NvmlReadings {
        memory: None,
        name: None,
        reserved: None,
        driver_version: None,
        processes: None,
    };
    assert!(query_nvml(&none, 8).is_none());
}

#[test]
fn failed_nvml_readings_are_left_out() {
    let readings = NvmlReadings {
        memory: Some(NvmlMemoryInfo { total: 1_000, free: 700, used: 300 }),
        name: text(1, b"RTX\0"),
        reserved: Some((3, 25)),
        driver_version: text(0, b"\0"),
        processes: Some(NvmlProcessList { ret: 2, count: 1, infos: vec![info(7, 1)] }),
    };
    let q = query_nvml(&readings, 7).unwrap();
    assert_eq!(q.device_name, None);
    assert_eq!(q.reserved_bytes, None);
    assert_eq!(q.driver_version, None);
    assert_eq!(q.process_used_bytes, None);
}

#[test]
fn implausible_nvml_rows_are_dropped() {
    let memory = Some(NvmlMemoryInfo { total: 1_000, free: 0, used: 0 });
    let list = |ret| {
        Some(NvmlProcessList {
            ret,
            count: 4,
            infos: vec![info(1, 1_000), info(2, 1_001), info(3, u64::MAX), info(4, 0)],
        })
    };
    assert_eq!(list_nvml(&memory, &list(0)).unwrap(), vec![(1, 1_000), (4, 0)]);
    assert_eq!(list_nvml(&memory, &list(7)).unwrap(), vec![(1, 1_000), (4, 0)]);
    assert!(list_nvml(&memory, &list(6)).is_none());
    assert!(list_nvml(&None, &list(0)).is_none());
    assert!(list_nvml(&memory, &None).is_none());
}

// --- DXGI ---

#[test]
fn nvidia_adapters_are_numbered_among_themselves() {
    let adapters = vec![
        adapter(AMD, "Radeon", 500, 0),
        adapter(NVIDIA, "RTX A", 100, 0),
        adapter(NVIDIA, "no memory", 0, 900),
        adapter(BASIC, "Basic", 0, 900),
        adapter(NVIDIA, "  RTX B ", 200, 0),
    ];
    assert_eq!(adapter_name(&adapters, 0).as_deref(), Some("RTX A"));
    assert_eq!(adapter_luid(&adapters, 1), Some((1, 200)));
    assert_eq!(adapter_dedicated_video_memory(&adapters, 1), Some(200));
    assert_eq!(adapter_dedicated_video_memory(&adapters, 2), None);
    let q = hypomnesis::gpu::dxgi::query(&adapters, 0).unwrap();
    assert_eq!((q.current_usage, q.dedicated_video_memory), (50, 100));
    assert!(hypomnesis::gpu::dxgi::query(&adapters, 2).is_none());
    assert_eq!(hypomnesis::gpu::dxgi::device_count(&Some(adapters)), Some(2));
    assert_eq!(hypomnesis::gpu::dxgi::device_count(&None), None);
}

#[test]
fn other_adapters_follow_the_nvidia_ones() {
    let adapters = vec![
        adapter(AMD, "Radeon", 500, 0),
        adapter(BASIC, "Basic", 0, 900),
        adapter(NVIDIA, "RTX A", 100, 0),
        adapter(0x8086, "UHD", 0, 300),
        adapter(0x8086, "nothing", 0, 0),
    ];
    let entries = enumerate_non_nvidia(&adapters);
    assert_eq!(entries.len(), 2);
    let devices = dxgi_non_nvidia_devices(3, entries);
    assert_eq!(devices.len(), 2);
    assert_eq!(devices[0].0.index, 3);
    assert_eq!(devices[1].0.index, 4);
    assert_eq!(devices[0].0.name.as_deref(), Some("Radeon"));
    assert_eq!(devices[0].0.total_bytes, 500);
    assert_eq!(devices[1].0.name.as_deref(), Some("UHD"));
    assert_eq!(devices[1].0.total_bytes, 300);
    assert_eq!(devices[0].1.source, GpuQuerySource::Dxgi);
    assert!(devices[0].1.is_per_process);
}

// --- performance counters ---

#[test]
fn enumerations_end_as_their_statuses_say() {
    let names: Vec<u16> = "a\0b\0\0".encode_utf16().collect();
    let set = "GPU Adapter Memory";
    let r = enum_object_instances(PDH_MORE_DATA, 5, (PDH_SUCCESS, &names), set);
    assert_eq!(r.unwrap().unwrap(), vec!["a".to_owned(), "b".to_owned()]);
    let r = enum_object_instances(PDH_CSTATUS_NO_OBJECT, 0, (0, &[]), set);
    assert!(r.unwrap().is_none());
    let r = enum_object_instances(PDH_SUCCESS, 1, (0, &[]), set);
    assert!(r.unwrap().unwrap().is_empty());
    assert_eq!(
        message(enum_object_instances(0xC000_0BBF, 0, (0, &[]), set)),
        "PDH error: PdhEnumObjectItemsW (size query, GPU Adapter Memory) failed: 0xC0000BBF"
    );
    assert_eq!(
        message(enum_object_instances(PDH_MORE_DATA, 5, (0x1F, &[]), set)),
        "PDH error: PdhEnumObjectItemsW (data fetch, GPU Adapter Memory) failed: 0x0000001F"
    );
}

#[test]
fn counters_are_planned_for_one_adapter() {
    let names = vec![
        "pid_7_luid_0x00000000_0x0000F391_phys_0".to_owned(),
        "pid_8_luid_0x00000000_0x0000AAAA_phys_0".to_owned(),
        "_Total".to_owned(),
        "luid_0x00000000_0x0000F391_phys_1".to_owned(),
    ];
    let p = process_counters(&names, (0, 0xF391));
    assert_eq!(p.len(), 1);
    assert_eq!((p[0].pid, p[0].segment_idx), (7, 0));
    assert_eq!(
        p[0].dedicated_path,
        "\\GPU Process Memory(pid_7_luid_0x00000000_0x0000F391_phys_0)\\Dedicated Usage"
    );
    let a = adapter_counters(&names, (0, 0xF391));
    assert_eq!(a.len(), 1);
    assert_eq!(a[0].segment_idx, 1);
    assert_eq!(
        a[0].shared_path,
        "\\GPU Adapter Memory(luid_0x00000000_0x0000F391_phys_1)\\Shared Usage"
    );
}

fn ok(value: i64) -> Option<CounterReading> {
    Some(CounterReading { status: PDH_SUCCESS, value })
}

#[test]
fn segments_of_a_process_are_added_up() {
    let readings = vec![
        InstanceReading { pid: 1, segment_idx: 0, dedicated: ok(10), shared: ok(1) },
        InstanceReading { pid: 2, segment_idx: 0, dedicated: ok(5), shared: None },
        InstanceReading { pid: 1, segment_idx: 1, dedicated: ok(20), shared: ok(-1) },
        InstanceReading { pid: 3, segment_idx: 0, dedicated: None, shared: ok(9) },
        InstanceReading { pid: 4, segment_idx: 0, dedicated: ok(-2), shared: ok(9) },
    ];
    let rows = collect_segmented_rows(&readings, PDH_SUCCESS).unwrap();
    assert_eq!(rows.len(), 3);
    let processes = query_per_process_vram(Ok(rows)).unwrap();
    let figures: Vec<(u32, u64, u64)> = processes
        .iter()
        .map(|p| (p.pid, p.dedicated_committed_bytes, p.shared_used_bytes))
        .collect();
    assert_eq!(figures, vec![(1, 30, 1), (2, 5, 0)]);
    assert_eq!(
        message(collect_segmented_rows(&readings, 0x800)),
        "PDH error: PdhCollectQueryData failed: 0x00000800"
    );
    // Without a counter nothing is sampled, so its status does not matter.
    assert!(collect_segmented_rows(&vec![], 0x800).unwrap().is_empty());
}

#[test]
fn segment_sums_stay_within_64_bits() {
    let row = SegmentRow { pid: 1, segment_idx: 0, used_bytes: u64::MAX, shared_used_bytes: 3 };
    let rows = query_per_process_vram(Ok(vec![row, row])).unwrap();
    assert_eq!(rows.len(), 1);
    assert_eq!(rows[0].dedicated_committed_bytes, u64::MAX);
    assert_eq!(rows[0].shared_used_bytes, 6);
}

#[test]
fn counter_failures_are_reported() {
    assert_eq!(read_counter_bytes(CounterReading { status: 1, value: 5 }), None);
    assert_eq!(
        message(target_luid(4, None)),
        "PDH error: no NVIDIA adapter at device_index 4 via DXGI walk"
    );
    assert_eq!(
        message(process_instances(Ok(None))),
        "PDH error: GPU Process Memory counter set not registered (pre-WDDM 2.0?)"
    );
    assert!(query_per_process_vram(Err(HypomnesisError::NoGpuSource)).is_err());
}

#[test]
fn the_adapter_query_opens_or_says_why_not() {
    let names = || Ok(Some(vec!["luid_0x0_0x1_phys_0".to_owned()]));
    let added = vec![(true, false), (true, true)];
    let q = AdapterMemQuery::open(0, Some((0, 1)), Some(99), names(), 0, &added).unwrap().unwrap();
    assert_eq!(q.segments, vec![1]);
    assert_eq!(q.limit_bytes, 99);
    assert!(AdapterMemQuery::open(0, Some((0, 1)), None, Ok(None), 0, &added).unwrap().is_none());
    let open = AdapterMemQuery::open(0, Some((0, 1)), None, names(), 0, &vec![(true, false)]);
    assert!(open.unwrap().is_none());
    assert_eq!(
        message(AdapterMemQuery::open(2, None, None, names(), 0, &added)),
        "PDH error: no NVIDIA adapter at device_index 2 via DXGI walk"
    );
    assert_eq!(
        message(AdapterMemQuery::open(0, Some((0, 1)), None, names(), 0xBAD, &added)),
        "PDH error: PdhOpenQueryW failed: 0x00000BAD"
    );
    let reading = |d, s| SegmentReading {
        dedicated: CounterReading { status: 0, value: d },
        shared: CounterReading { status: 0, value: s },
    };
    assert_eq!(
        q.sample(0, &vec![reading(10, 1), reading(20, 2)]).unwrap(),
        AdapterMemSample { dedicated_bytes: 30, limit_bytes: 99, shared_bytes: 3 }
    );
    assert_eq!(
        message(q.sample(0, &vec![reading(10, 1), reading(20, -2)])),
        "PDH error: PdhGetFormattedCounterValue failed for an adapter counter (sample skipped)"
    );
    assert_eq!(
        message(q.sample(1, &vec![])),
        "PDH error: PdhCollectQueryData (adapter query) failed: 0x00000001"
    );
    assert!(adapter_counter_set_available(&names()));
    assert!(!adapter_counter_set_available(&Ok(Some(vec![]))));
    assert!(is_spill_measurable(&Some(names())));
    assert!(!is_spill_measurable(&Some(Ok(None))));
}

// --- process names ---

#[test]
fn names_fall_back_to_the_process_table() {
    let image: Vec<u16> = "C:\\bin\\tool.exe".encode_utf16().collect();
    let n = image.len() as u32;
    assert_eq!(name_from_pid_windows(9, Some((&image, n))).as_deref(), Some("tool.exe"));
    assert_eq!(name_from_pid_windows(4, None).as_deref(), Some("[kernel]"));
    assert_eq!(name_from_pid_windows(9, None), None);
    let table = Some(vec![
        ProcessTableEntry { pid: 1, exe_file: wide("one.exe", 260) },
        ProcessTableEntry { pid: 2, exe_file: wide("", 260) },
        ProcessTableEntry { pid: 3, exe_file: wide("three.exe", 260) },
    ]);
    let found = resolve_names_via_snapshot(&[3, 2], &table);
    assert_eq!(found, Some(vec![(3, "three.exe".to_owned())]));
    assert_eq!(resolve_names_via_snapshot(&[3], &None), None);
    assert_eq!(resolve_names_via_snapshot(&[], &None), Some(vec![]));
    assert_eq!(resolved_or_fallback(None, 3, &found), "three.exe");
    assert_eq!(resolved_or_fallback(None, 2, &found), "[exited]");
    assert_eq!(resolved_or_fallback(None, 3, &None), "[protected]");
    assert_eq!(resolved_or_fallback(Some("x".to_owned()), 3, &found), "x");
}

// --- Metal ---

#[test]
fn system_variables_are_checked() {
    assert_eq!(read_sysctl_u64(0, 8, 5), Some(5));
    assert_eq!(read_sysctl_u64(0, 4, 5), None);
    assert_eq!(read_sysctl_u64(-1, 8, 5), None);
    let text = |probe_rc, buffer: &[u8]| SysctlText {
        probe_rc,
        probe_len: buffer.len(),
        fetch_rc: 0,
        buffer: buffer.to_vec(),
    };
    assert_eq!(read_sysctl_string(&text(0, b"Apple M2\0\0")).as_deref(), Some("Apple M2"));
    assert_eq!(read_sysctl_string(&text(1, b"Apple M2\0")), None);
    assert_eq!(read_sysctl_string(&text(0, b"\xFF\0")), None);
    assert_eq!(read_sysctl_string(&text(0, b"")), None);
}

#[test]
fn the_ledger_row_is_found_by_name() {
    let names = vec![b"cpu\0".to_vec(), b"graphics_footprint\0xx".to_vec()];
    assert_eq!(resolve_graphics_footprint_index(0, 2, &names), Some(1));
    assert_eq!(resolve_graphics_footprint_index(0, 1, &names), None);
    assert_eq!(resolve_graphics_footprint_index(1, 2, &names), None);
    assert_eq!(read_graphics_footprint(Some(1), 0, 2, &vec![5, 70]), Some(70));
    assert_eq!(read_graphics_footprint(Some(1), 0, 2, &vec![5, -70]), None);
    assert_eq!(read_graphics_footprint(None, 0, 2, &vec![5, 70]), None);
}

#[test]
fn metal_lists_processes_that_hold_memory() {
    let reading = |pid, footprint, path: &[u8]| PidReading {
        pid,
        footprint,
        path_len: path.len() as i32,
        path: path.to_vec(),
    };
    let pids = vec![
        reading(5, Some(100), b"/usr/bin/tool"),
        reading(6, Some(0), b"/usr/bin/idle"),
        reading(-1, Some(9), b"/x"),
        reading(7, Some(3), b"/trailing/"),
        reading(8, Some(3), b"/late"),
    ];
    let rows = list_metal(0, 20, 16, &pids).unwrap();
    let seen: Vec<(u32, Option<String>)> = rows.into_iter().map(|r| (r.pid, r.name)).collect();
    assert_eq!(seen, vec![(5, Some("tool".to_owned())), (7, None)]);
    assert!(list_metal(1, 20, 16, &pids).is_none());
    assert!(list_metal(0, 20, 0, &pids).is_none());
    assert_eq!(read_proc_pidpath_basename(0, b"/x"), None);
    assert_eq!(read_proc_pidpath_basename(2, b"\xFF\xFF"), None);
}

// --- nvidia-smi ---

fn smi(used_bytes: u64, total_bytes: u64, driver: Option<&str>) -> NvidiaSmiResult {
    NvidiaSmiResult { used_bytes, total_bytes, driver_version: driver.map(str::to_owned) }
}

#[test]
fn nvidia_smi_output_is_read() {
    assert_eq!(
        query_smi(Some(b" 512, 16384\n")),
        Some(smi(512 << 20, 16_384 << 20, None))
    );
    assert_eq!(
        query_smi(Some(b"512, 16384, 591.86\n1, 2, 3\n")),
        Some(smi(512 << 20, 16_384 << 20, Some("591.86")))
    );
    assert_eq!(query_smi(Some(b"512, 16384, \n")), Some(smi(512 << 20, 16_384 << 20, None)));
    assert_eq!(query_smi(Some(b"512, 16384, [N/A]\n")), Some(smi(512 << 20, 16_384 << 20, None)));
    assert_eq!(query_smi(Some(b"[N/A], 16384, 591.86\n")), None);
    assert_eq!(query_smi(Some(b"512\n")), None);
    assert_eq!(query_smi(Some(b"")), None);
    assert_eq!(query_smi(None), None);
    let apps = query_compute_apps(Some(b"7, a.exe, 3\r\nbad line\n8, \xFF, 4\n")).unwrap();
    let seen: Vec<(u32, Option<String>, u64)> =
        apps.into_iter().map(|a| (a.pid, a.name, a.used_bytes >> 20)).collect();
    assert_eq!(
        seen,
        vec![(7, Some("a.exe".to_owned()), 3), (8, Some("\u{FFFD}".to_owned()), 4)]
    );
    assert!(query_compute_apps(None).is_none());
    assert!(query_compute_apps(Some(b"")).unwrap().is_empty());
    assert!(query_compute_apps(Some(b" \n\r\n\n")).unwrap().is_empty());
    assert!(query_compute_apps(Some(b"garbage\n")).is_none());
    assert!(query_compute_apps(Some(b"\nNo devices were found\n, ,\n")).is_none());
    assert_eq!(query_compute_apps(Some(b"garbage\n7, a.exe, 3\n")).unwrap().len(), 1);
}

// --- dispatch ---

#[test]
fn counts_come_from_the_first_backend() {
    assert_eq!(device_count(Some(2), Some(5), None).unwrap(), 2);
    assert_eq!(device_count(None, Some(5), Some(1)).unwrap(), 5);
    assert_eq!(device_count(None, None, Some(1)).unwrap(), 1);
    assert!(matches!(device_count(None, None, None), Err(HypomnesisError::NoGpuSource)));
    assert!(bounds_check(1, Some(2), None).is_ok());
    assert!(matches!(
        bounds_check(2, Some(2), Some(9)),
        Err(HypomnesisError::DeviceIndexOutOfRange { index: 2, count: 2 })
    ));
    assert!(bounds_check(7, None, None).is_ok());
}

fn sources() -> DeviceSources {
    DeviceSources { nvml: None, dxgi_name: None, dxgi: None, metal: None, nvidia_smi: None }
}

#[test]
fn devices_come_from_the_first_backend() {
    let mut s = sources();
    s.dxgi = Some(DxgiQueryResult {
        current_usage: 30,
        dedicated_video_memory: 100,
        adapter_name: Some("D".to_owned()),
    });
    s.metal = Some(MetalQueryResult {
        dedicated_video_memory: 64,
        recommended_max_working_set: 48,
        adapter_name: "M".to_owned(),
    });
    let d = device_info(1, s, None, None).unwrap();
    assert_eq!((d.index, d.total_bytes, d.free_bytes, d.used_bytes), (1, 100, 70, 30));
    let mut s = sources();
    s.metal = Some(MetalQueryResult {
        dedicated_video_memory: 64,
        recommended_max_working_set: 48,
        adapter_name: "M".to_owned(),
    });
    let d = device_info(0, s, None, None).unwrap();
    assert_eq!((d.total_bytes, d.free_bytes, d.used_bytes), (64, 48, 16));
    let mut s = sources();
    s.nvidia_smi = Some(smi(9, 5, Some("591.86")));
    let d = device_info(0, s, None, None).unwrap();
    assert_eq!((d.name, d.total_bytes, d.free_bytes, d.used_bytes), (None, 5, 0, 9));
    assert_eq!(d.driver_version.as_deref(), Some("591.86"));
    assert!(matches!(
        device_info(3, sources(), Some(2), None),
        Err(HypomnesisError::DeviceIndexOutOfRange { index: 3, count: 2 })
    ));
    assert!(matches!(
        device_info(1, sources(), Some(2), None),
        Err(HypomnesisError::NoGpuSource)
    ));
}

#[test]
fn process_memory_prefers_per_process_figures() {
    let device_wide = || Some(smi(9, 50, None));
    let metal = Some(ProcessGpuInfo {
        used_bytes: 4,
        is_per_process: true,
        source: GpuQuerySource::Metal,
    });
    let dxgi = Some(DxgiQueryResult {
        current_usage: 30,
        dedicated_video_memory: 100,
        adapter_name: None,
    });
    let p = process_gpu_info(0, &dxgi, &None, metal, device_wide(), None, None).unwrap();
    assert_eq!((p.used_bytes, p.source), (30, GpuQuerySource::Dxgi));
    let p = process_gpu_info(0, &None, &None, metal, device_wide(), None, None).unwrap();
    assert_eq!((p.used_bytes, p.is_per_process), (4, true));
    let p = process_gpu_info(0, &None, &None, None, device_wide(), None, None).unwrap();
    assert_eq!((p.used_bytes, p.is_per_process), (9, false));
    assert!(process_gpu_info(0, &None, &None, None, None, None, None).is_err());
}

#[test]
fn listings_are_sorted_and_named() {
    let row = |pid, image: Option<&str>| PdhProcessRow {
        row: ProcessMemoryRow { pid, dedicated_committed_bytes: 10, shared_used_bytes: 2 },
        image_name: image.map(str::to_owned),
    };
    let pdh = vec![row(9, None), row(3, Some("c.exe")), row(5, None)];
    assert_eq!(unresolved_pids(&pdh), vec![9, 5]);
    let s = ListingSources {
        nvml: None,
        pdh: Some(pdh),
        snapshot: Some(vec![(5, "e.exe".to_owned())]),
        metal: None,
        nvidia_smi: None,
    };
    let rows = gpu_processes(0, s, None, None).unwrap();
    let seen: Vec<(u32, String)> =
        rows.iter().map(|r| (r.pid, r.name.clone().unwrap())).collect();
    assert_eq!(
        seen,
        vec![
            (3, "c.exe".to_owned()),
            (5, "e.exe".to_owned()),
            (9, "[exited]".to_owned())
        ]
    );
    assert!(rows.iter().all(|r| r.source == GpuQuerySource::Pdh && r.shared_used_bytes == 2));
    let s = ListingSources {
        nvml: Some(vec![
            NvmlProcessRow { pid: 2, used_bytes: 1, comm: Some(" sh \n".to_owned()) },
            NvmlProcessRow { pid: 1, used_bytes: 1, comm: Some("\n".to_owned()) },
        ]),
        pdh: None,
        snapshot: None,
        metal: None,
        nvidia_smi: None,
    };
    let rows = gpu_processes(0, s, None, None).unwrap();
    assert_eq!((rows[0].pid, rows[0].name.as_deref()), (1, None));
    assert_eq!((rows[1].pid, rows[1].name.as_deref()), (2, Some("sh")));
}

#[test]
fn every_snapshot_carries_the_same_ram() {
    let device = |index| GpuDeviceInfo::builder().index(index).build();
    let extra = (
        device(2),
        ProcessGpuInfo { used_bytes: 1, is_per_process: true, source: GpuQuerySource::Dxgi },
    );
    let readings = vec![
        DeviceReading { gpu: Err(HypomnesisError::NoGpuSource), gpu_device: Ok(device(0)) },
        DeviceReading {
            gpu: Err(HypomnesisError::NoGpuSource),
            gpu_device: Err(HypomnesisError::NoGpuSource),
        },
    ];
    let snaps = Snapshot::all(Ok(77), readings, vec![extra]).unwrap();
    assert_eq!(snaps.len(), 3);
    assert!(snaps.iter().all(|s| s.ram_bytes == 77));
    assert_eq!(snaps[2].gpu_device.as_ref().unwrap().index, 2);
    assert!(snaps[1].gpu_device.is_none());
    assert!(Snapshot::all(Err(HypomnesisError::NoGpuSource), vec![], vec![]).is_err());
}
