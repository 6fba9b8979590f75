//! NVML: the order of calls in a session, and what the calls' results mean.
//!
//! The calls themselves are made by the program around this library. A session asks
//! `next_action` what to do after each call, which guarantees that a successful
//! initialisation is always followed by exactly one shutdown.
use crate::utf::{decode_utf8_lossy, utf8_text};
use vstd::prelude::*;
use vstd::slice::slice_subrange;

verus! {

/// NVML return code: success.
pub const NVML_SUCCESS: u32 = 0;

/// NVML return code: the buffer holds the first entries only.
pub const NVML_ERROR_INSUFFICIENT_SIZE: u32 = 7;

/// The number of processes asked for in one call.
pub const NVML_MAX_PROCESSES: usize = 64;

// ---------------------------------------------------------------------------
// The session
// ---------------------------------------------------------------------------

/// What a session is for.
#[derive(Debug, Clone, Copy, PartialEq, Eq, Structural)]
pub enum NvmlGoal {
    /// Everything about one device.
    Query,
    /// The compute processes on one device.
    ListProcesses,
    /// The number of devices.
    Count,
}

/// A step of a session.
#[derive(Debug, Clone, Copy, PartialEq, Eq, Structural)]
pub enum NvmlAction {
    /// Initialise NVML.
    Init,
    /// Get the handle of the device.
    GetHandle,
    /// Read the device-wide memory figures.
    GetMemory,
    /// Read the adapter name.
    GetName,
    /// Read the reserved memory.
    GetReserved,
    /// Read the driver version.
    GetDriverVersion,
    /// List the compute processes.
    GetProcesses,
    /// Read the number of devices.
    GetCount,
    /// Shut NVML down.
    Shutdown,
    /// The session is over.
    Done,
}

/// The step that follows `action` when it returned `ret`. A failed initialisation ends the
/// session; a failed handle or memory query leads to the shutdown; the other readings are
/// best effort, so the session goes on whatever they return.
pub open spec fn action_after(goal: NvmlGoal, action: NvmlAction, ret: u32) -> NvmlAction {
    let ok = ret == NVML_SUCCESS;
    match action {
        NvmlAction::Init => if !ok {
            NvmlAction::Done
        } else if goal == NvmlGoal::Count {
            NvmlAction::GetCount
        } else {
            NvmlAction::GetHandle
        },
        NvmlAction::GetHandle => if ok {
            NvmlAction::GetMemory
        } else {
            NvmlAction::Shutdown
        },
        NvmlAction::GetMemory => if !ok {
            NvmlAction::Shutdown
        } else if goal == NvmlGoal::Query {
            NvmlAction::GetName
        } else {
            NvmlAction::GetProcesses
        },
        NvmlAction::GetName => NvmlAction::GetReserved,
        NvmlAction::GetReserved => NvmlAction::GetDriverVersion,
        NvmlAction::GetDriverVersion => NvmlAction::GetProcesses,
        NvmlAction::GetProcesses => NvmlAction::Shutdown,
        NvmlAction::GetCount => NvmlAction::Shutdown,
        NvmlAction::Shutdown => NvmlAction::Done,
        NvmlAction::Done => NvmlAction::Done,
    }
}

/// The step that follows `action` when it returned `ret`.
pub fn next_action(goal: NvmlGoal, action: NvmlAction, ret: u32) -> (next: NvmlAction)
    ensures
        next == action_after(goal, action, ret),
{
    let ok = ret == NVML_SUCCESS;
    match action {
        NvmlAction::Init => if !ok {
            NvmlAction::Done
        } else if goal == NvmlGoal::Count {
            NvmlAction::GetCount
        } else {
            NvmlAction::GetHandle
        },
        NvmlAction::GetHandle => if ok {
            NvmlAction::GetMemory
        } else {
            NvmlAction::Shutdown
        },
        NvmlAction::GetMemory => if !ok {
            NvmlAction::Shutdown
        } else if goal == NvmlGoal::Query {
            NvmlAction::GetName
        } else {
            NvmlAction::GetProcesses
        },
        NvmlAction::GetName => NvmlAction::GetReserved,
        NvmlAction::GetReserved => NvmlAction::GetDriverVersion,
        NvmlAction::GetDriverVersion => NvmlAction::GetProcesses,
        NvmlAction::GetProcesses => NvmlAction::Shutdown,
        NvmlAction::GetCount => NvmlAction::Shutdown,
        NvmlAction::Shutdown => NvmlAction::Done,
        NvmlAction::Done => NvmlAction::Done,
    }
}

/// How many steps are left at most.
pub open spec fn steps_left(action: NvmlAction) -> nat {
    match action {
        NvmlAction::Init => 8,
        NvmlAction::GetHandle => 7,
        NvmlAction::GetMemory => 6,
        NvmlAction::GetName => 5,
        NvmlAction::GetReserved => 4,
        NvmlAction::GetDriverVersion => 3,
        NvmlAction::GetProcesses => 2,
        NvmlAction::GetCount => 2,
        NvmlAction::Shutdown => 1,
        NvmlAction::Done => 0,
    }
}

/// The calls that a session makes from `action` on, when the call `a` returns `rets(a)`.
pub open spec fn calls_from(
    goal: NvmlGoal,
    action: NvmlAction,
    rets: spec_fn(NvmlAction) -> u32,
) -> Seq<NvmlAction>
    decreases steps_left(action),
{
    if action == NvmlAction::Done {
        seq![]
    } else {
        seq![action] + calls_from(goal, action_after(goal, action, rets(action)), rets)
    }
}

/// How often the shutdown occurs among calls.
pub open spec fn shutdowns(calls: Seq<NvmlAction>) -> nat
    decreases calls.len(),
{
    if calls.len() == 0 {
        0
    } else {
        shutdowns(calls.drop_first()) + if calls[0] == NvmlAction::Shutdown {
            1nat
        } else {
            0nat
        }
    }
}

proof fn lemma_shutdown_last(goal: NvmlGoal, action: NvmlAction, rets: spec_fn(NvmlAction) -> u32)
    requires
        action != NvmlAction::Done,
        action != NvmlAction::Init,
    ensures
        calls_from(goal, action, rets).len() > 0,
        calls_from(goal, action, rets).last() == NvmlAction::Shutdown,
        shutdowns(calls_from(goal, action, rets)) == 1,
    decreases steps_left(action),
{
    let next = action_after(goal, action, rets(action));
    let rest = calls_from(goal, next, rets);
    let all = calls_from(goal, action, rets);
    assert(all.drop_first() =~= rest);
    if next == NvmlAction::Done {
        assert(rest =~= seq![]);
        assert(shutdowns(rest) == 0);
    } else {
        lemma_shutdown_last(goal, next, rets);
        assert(all.last() == rest.last());
    }
}

/// Whatever the calls return: a session whose initialisation succeeded shuts NVML down
/// exactly once, as its last call, and one whose initialisation failed makes no other
/// call.
pub proof fn law_shutdown_balances_init(goal: NvmlGoal, rets: spec_fn(NvmlAction) -> u32)
    ensures
        rets(NvmlAction::Init) == NVML_SUCCESS ==> {
            let calls = calls_from(goal, NvmlAction::Init, rets);
            &&& shutdowns(calls) == 1
            &&& calls.last() == NvmlAction::Shutdown
        },
        rets(NvmlAction::Init) != NVML_SUCCESS ==> calls_from(goal, NvmlAction::Init, rets)
            == seq![NvmlAction::Init],
{
    let next = action_after(goal, NvmlAction::Init, rets(NvmlAction::Init));
    let rest = calls_from(goal, next, rets);
    let all = calls_from(goal, NvmlAction::Init, rets);
    assert(all.drop_first() =~= rest);
    if next == NvmlAction::Done {
        assert(rest =~= seq![]);
        assert(all =~= seq![NvmlAction::Init]);
    } else {
        lemma_shutdown_last(goal, next, rets);
        assert(all.last() == rest.last());
    }
}

// ---------------------------------------------------------------------------
// The readings
// ---------------------------------------------------------------------------

/// One process as NVML lists it.
#[derive(Debug, Clone, Copy, PartialEq, Eq, Structural)]
pub struct NvmlProcessInfo {
    /// Process ID.
    pub pid: u32,
    /// GPU memory in bytes; `u64::MAX` where it is not available.
    pub used_gpu_memory: u64,
}

/// The device-wide memory figures.
#[derive(Debug, Clone, Copy, PartialEq, Eq, Structural)]
pub struct NvmlMemoryInfo {
    /// Total memory in bytes.
    pub total: u64,
    /// Free memory in bytes.
    pub free: u64,
    /// Used memory in bytes.
    pub used: u64,
}

/// What listing the processes returned.
pub struct NvmlProcessList {
    /// The return code.
    pub ret: u32,
    /// The number of processes that NVML reports.
    pub count: u32,
    /// The buffer that NVML filled.
    pub infos: Vec<NvmlProcessInfo>,
}

/// What reading a text returned.
pub struct NvmlText {
    /// The return code.
    pub ret: u32,
    /// The buffer that NVML filled.
    pub buffer: Vec<u8>,
}

/// What the calls of a query session returned; `None` for a call that was not made or
/// whose symbol the library lacks.
pub struct NvmlReadings {
    /// The device-wide figures, where their query succeeded.
    pub memory: Option<NvmlMemoryInfo>,
    /// The adapter name.
    pub name: Option<NvmlText>,
    /// The return code and figure of the reserved-memory query.
    pub reserved: Option<(u32, u64)>,
    /// The driver version.
    pub driver_version: Option<NvmlText>,
    /// The process list.
    pub processes: Option<NvmlProcessList>,
}

/// What NVML says about one device.
#[derive(Debug)]
pub struct NvmlQueryResult {
    /// GPU memory of the calling process.
    pub process_used_bytes: Option<u64>,
    /// Total memory.
    pub device_total: u64,
    /// Free memory.
    pub device_free: u64,
    /// Used memory.
    pub device_used: u64,
    /// Memory reserved for the driver and firmware.
    pub reserved_bytes: Option<u64>,
    /// Adapter name.
    pub device_name: Option<String>,
    /// Driver version.
    pub driver_version: Option<String>,
}

/// The index of the first zero byte, or the length where there is none.
pub open spec fn zero_index(b: Seq<u8>) -> int
    decreases b.len(),
{
    if b.len() == 0 || b[0] == 0 {
        0
    } else {
        1 + zero_index(b.skip(1))
    }
}

/// A text, unless it is empty.
pub open spec fn nonempty_text(s: Seq<char>) -> Option<Seq<char>> {
    if s.len() > 0 {
        Some(s)
    } else {
        None
    }
}

/// A string, unless it is empty.
pub fn nonempty(s: String) -> (r: Option<String>)
    ensures
        crate::text::opt_text(r) == nonempty_text(s@),
{
    if s.as_str().is_empty() {
        None
    } else {
        Some(s)
    }
}

/// The bytes before the first zero byte; all where there is none.
pub fn bytes_before_zero(b: &[u8]) -> (r: &[u8])
    ensures
        r@ == b@.take(zero_index(b@)),
{
    let mut i: usize = 0;
    assert(b@.skip(0) =~= b@);
    while i < b.len() && b[i] != 0
        invariant
            i <= b.len(),
            zero_index(b@) == i + zero_index(b@.skip(i as int)),
        decreases b.len() - i,
    {
        assert(b@.skip(i as int)[0] == b@[i as int]);
        assert(b@.skip(i as int).skip(1) =~= b@.skip(i + 1));
        i += 1;
    }
    assert(i < b.len() ==> b@.skip(i as int)[0] == b@[i as int]);
    let r = slice_subrange(b, 0, i);
    assert(r@ =~= b@.take(i as int));
    r
}

/// What a text reading means: the text before the first zero byte, unless the call failed
/// or the text is empty.
pub open spec fn reading_text(t: Option<NvmlText>) -> Option<Seq<char>> {
    match t {
        Some(t) => if t.ret == NVML_SUCCESS {
            nonempty_text(utf8_text(t.buffer@.take(zero_index(t.buffer@))))
        } else {
            None
        },
        None => None,
    }
}

/// The adapter name or driver version that a call wrote into its buffer.
pub fn read_text(t: &Option<NvmlText>) -> (r: Option<String>)
    ensures
        crate::text::opt_text(r) == reading_text(*t),
{
    match t {
        Some(t) => {
            if t.ret != NVML_SUCCESS {
                return None;
            }
            nonempty(decode_utf8_lossy(bytes_before_zero(t.buffer.as_slice())))
        },
        None => None,
    }
}

/// The entries of the buffer that NVML filled: as many as it reports, at most the size of
/// the buffer asked for.
pub open spec fn listed(l: NvmlProcessList) -> Seq<NvmlProcessInfo> {
    let n = if l.count <= NVML_MAX_PROCESSES {
        l.count as int
    } else {
        NVML_MAX_PROCESSES as int
    };
    if n <= l.infos@.len() {
        l.infos@.take(n)
    } else {
        l.infos@
    }
}

/// Whether the list is usable: a buffer too small still holds the first entries.
pub open spec fn list_ok(l: NvmlProcessList) -> bool {
    l.ret == NVML_SUCCESS || l.ret == NVML_ERROR_INSUFFICIENT_SIZE
}

/// Whether a per-process figure makes sense: not the mark for "not available", and not
/// beyond the device's memory.
pub open spec fn plausible(used: u64, device_total: u64) -> bool {
    used != u64::MAX && used <= device_total
}

/// The first entry of a process.
pub open spec fn entry_of(rows: Seq<NvmlProcessInfo>, pid: u32) -> Option<NvmlProcessInfo>
    decreases rows.len(),
{
    if rows.len() == 0 {
        None
    } else if rows[0].pid == pid {
        Some(rows[0])
    } else {
        entry_of(rows.skip(1), pid)
    }
}

/// GPU memory of the process `pid`: its first entry's figure, where that is plausible.
pub open spec fn process_used(
    l: Option<NvmlProcessList>,
    pid: u32,
    device_total: u64,
) -> Option<u64> {
    match l {
        Some(l) => if list_ok(l) {
            match entry_of(listed(l), pid) {
                Some(e) => if plausible(e.used_gpu_memory, device_total) {
                    Some(e.used_gpu_memory)
                } else {
                    None
                },
                None => None,
            }
        } else {
            None
        },
        None => None,
    }
}

fn listed_len(l: &NvmlProcessList) -> (n: usize)
    ensures
        n == listed(*l).len(),
        n <= l.infos@.len(),
        listed(*l) == l.infos@.take(n as int),
{
    let n: usize = if l.count <= NVML_MAX_PROCESSES as u32 {
        l.count as usize
    } else {
        NVML_MAX_PROCESSES
    };
    if n <= l.infos.len() {
        n
    } else {
        assert(l.infos@.take(l.infos@.len() as int) =~= l.infos@);
        l.infos.len()
    }
}

/// GPU memory of the process `pid`, from the process list.
pub fn read_process_used(
    processes: &Option<NvmlProcessList>,
    pid: u32,
    device_total: u64,
) -> (r: Option<u64>)
    ensures
        r == process_used(*processes, pid, device_total),
{
    let l = match processes {
        Some(l) => l,
        None => {
            return None;
        },
    };
    if l.ret != NVML_SUCCESS && l.ret != NVML_ERROR_INSUFFICIENT_SIZE {
        return None;
    }
    let n = listed_len(l);
    let ghost rows = listed(*l);
    let mut i: usize = 0;
    assert(rows.skip(0) =~= rows);
    while i < n
        invariant
            i <= n,
            n == rows.len(),
            n <= l.infos@.len(),
            rows == l.infos@.take(n as int),
            list_ok(*l),
            rows == listed(*l),
            *processes == Some(*l),
            entry_of(rows, pid) == entry_of(rows.skip(i as int), pid),
        decreases n - i,
    {
        let e = l.infos[i];
        assert(rows.skip(i as int)[0] == e);
        if e.pid == pid {
            return if e.used_gpu_memory == u64::MAX || e.used_gpu_memory > device_total {
                None
            } else {
                Some(e.used_gpu_memory)
            };
        }
        assert(rows.skip(i as int).skip(1) =~= rows.skip(i + 1));
        i += 1;
    }
    None
}

/// The plausible rows of a list, as process and bytes, in order.
pub open spec fn plausible_rows(rows: Seq<NvmlProcessInfo>, device_total: u64) -> Seq<(u32, u64)>
    decreases rows.len(),
{
    if rows.len() == 0 {
        seq![]
    } else {
        let init = plausible_rows(rows.drop_last(), device_total);
        if plausible(rows.last().used_gpu_memory, device_total) {
            init.push((rows.last().pid, rows.last().used_gpu_memory))
        } else {
            init
        }
    }
}

/// The compute processes on a device: the plausible rows of the list. `None` when the
/// device's memory could not be read or the list is not usable.
pub fn list_compute_processes(
    memory: &Option<NvmlMemoryInfo>,
    processes: &Option<NvmlProcessList>,
) -> (r: Option<Vec<(u32, u64)>>)
    ensures
        r is Some <==> (memory is Some && (processes matches Some(l) && list_ok(*l))),
        r matches Some(v) ==> v@ == plausible_rows(listed(processes->0), memory->0.total),
{
    let device_total: u64 = match memory {
        Some(m) => m.total,
        None => {
            return None;
        },
    };
    let l = match processes {
        Some(l) => l,
        None => {
            return None;
        },
    };
    if l.ret != NVML_SUCCESS && l.ret != NVML_ERROR_INSUFFICIENT_SIZE {
        return None;
    }
    let n = listed_len(l);
    let ghost rows = listed(*l);
    let mut out: Vec<(u32, u64)> = Vec::new();
    let mut i: usize = 0;
    assert(rows.take(0) =~= seq![]);
    while i < n
        invariant
            i <= n,
            n == rows.len(),
            n <= l.infos@.len(),
            rows == l.infos@.take(n as int),
            out@ == plausible_rows(rows.take(i as int), device_total),
        decreases n - i,
    {
        let e = l.infos[i];
        assert(rows.take(i + 1).drop_last() =~= rows.take(i as int));
        assert(rows.take(i + 1).last() == e);
        if e.used_gpu_memory != u64::MAX && e.used_gpu_memory <= device_total {
            out.push((e.pid, e.used_gpu_memory));
        }
        i += 1;
    }
    assert(rows.take(i as int) =~= rows);
    Some(out)
}

/// The reserved memory, where its query succeeded.
pub open spec fn reserved_of(r: Option<(u32, u64)>) -> Option<u64> {
    match r {
        Some((ret, bytes)) => if ret == NVML_SUCCESS {
            Some(bytes)
        } else {
            None
        },
        None => None,
    }
}

/// What NVML says about a device, from the readings of a session, for the process
/// `pid`. `None` when the device-wide figures could not be read; every other reading is
/// best effort.
pub fn query(readings: &NvmlReadings, pid: u32) -> (r: Option<NvmlQueryResult>)
    ensures
        r is Some <==> readings.memory is Some,
        r matches Some(q) ==> {
            let m = readings.memory->0;
            &&& q.device_total == m.total
            &&& q.device_free == m.free
            &&& q.device_used == m.used
            &&& q.process_used_bytes == process_used(readings.processes, pid, m.total)
            &&& q.reserved_bytes == reserved_of(readings.reserved)
            &&& crate::text::opt_text(q.device_name) == reading_text(readings.name)
            &&& crate::text::opt_text(q.driver_version) == reading_text(readings.driver_version)
        },
{
    match &readings.memory {
        None => None,
        Some(m) => {
            let reserved_bytes = match &readings.reserved {
                Some(p) => if p.0 == NVML_SUCCESS {
                    Some(p.1)
                } else {
                    None
                },
                None => None,
            };
            Some(
                NvmlQueryResult {
                    process_used_bytes: read_process_used(&readings.processes, pid, m.total),
                    device_total: m.total,
                    device_free: m.free,
                    device_used: m.used,
                    reserved_bytes,
                    device_name: read_text(&readings.name),
                    driver_version: read_text(&readings.driver_version),
                },
            )
        },
    }
}

/// The number of devices, where the call succeeded.
pub fn device_count(ret: u32, count: u32) -> (r: Option<u32>)
    ensures
        r == (if ret == NVML_SUCCESS {
            Some(count)
        } else {
            None
        }),
{
    if ret == NVML_SUCCESS {
        Some(count)
    } else {
        None
    }
}

/// No row of a process list that is kept exceeds the device's memory or carries the mark
/// for "not available", and every process kept was listed with that figure.
pub proof fn law_kept_rows_are_plausible(rows: Seq<NvmlProcessInfo>, device_total: u64)
    ensures
        forall|i: int|
            0 <= i < plausible_rows(rows, device_total).len() ==> plausible(
                (#[trigger] plausible_rows(rows, device_total)[i]).1,
                device_total,
            ),
        forall|i: int|
            0 <= i < plausible_rows(rows, device_total).len() ==> rows.contains(
                NvmlProcessInfo {
                    pid: (#[trigger] plausible_rows(rows, device_total)[i]).0,
                    used_gpu_memory: plausible_rows(rows, device_total)[i].1,
                },
            ),
    decreases rows.len(),
{
    if rows.len() > 0 {
        let init = rows.drop_last();
        law_kept_rows_are_plausible(init, device_total);
        let all = plausible_rows(rows, device_total);
        let kept = plausible_rows(init, device_total);
        assert forall|i: int| 0 <= i < all.len() implies rows.contains(
            NvmlProcessInfo { pid: (#[trigger] all[i]).0, used_gpu_memory: all[i].1 },
        ) by {
            let e = NvmlProcessInfo { pid: all[i].0, used_gpu_memory: all[i].1 };
            if i < kept.len() {
                assert(all[i] == kept[i]);
                assert(init.contains(e));
                let k = choose|k: int| 0 <= k < init.len() && init[k] == e;
                assert(rows[k] == e);
            } else {
                assert(rows[rows.len() - 1] == e);
            }
        }
        assert forall|i: int| 0 <= i < all.len() implies plausible(
            (#[trigger] all[i]).1,
            device_total,
        ) by {
            if i < kept.len() {
                assert(all[i] == kept[i]);
            }
        }
    }
}

} // verus!
