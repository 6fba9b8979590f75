//! What snapshots, reports and the RAM reading hold, said of the readings they come from.
use crate::cli::output_laws::{holds, lemma_holds, lemma_holds_more};
use crate::error::{HypomnesisError, Result};
use crate::number::{decimal, law_decimal_round_trip};
use crate::ram::{
    process_rss, value_text, vmrss, vmrss_error, vmrss_in, without_suffixes, RamReading, VmRss,
};
use crate::report::MemoryReport;
use crate::snapshot::{all_snapshots, DeviceReading, GpuDeviceInfo, ProcessGpuInfo, Snapshot};
use crate::text::{has_prefix, has_suffix, lines_of, opt_text, stripped_prefix};
use crate::text_laws::{all_space, law_decimal_digits, law_trimmed};
use crate::units::{mib_delta_text, mib_nearest};
use vstd::prelude::*;

verus! {

// ---------------------------------------------------------------------------
// Snapshots
// ---------------------------------------------------------------------------

/// A snapshot holds the RAM figure, and of the GPU what answered.
pub proof fn law_snapshot_holds_readings(
    ram: Result<u64>,
    gpu: Result<ProcessGpuInfo>,
    gpu_device: Result<GpuDeviceInfo>,
    r: Result<Snapshot>,
)
    requires
        call_ensures(Snapshot::now, (ram, gpu, gpu_device), r),
    ensures
        ram is Ok <==> r is Ok,
        ram is Ok ==> r->Ok_0.ram_bytes == ram->Ok_0,
        ram is Ok && gpu is Ok ==> r->Ok_0.gpu == Some(gpu->Ok_0),
        ram is Ok && gpu is Err ==> r->Ok_0.gpu is None,
        ram is Ok && gpu_device is Ok ==> r->Ok_0.gpu_device == Some(gpu_device->Ok_0),
        ram is Ok && gpu_device is Err ==> r->Ok_0.gpu_device is None,
        ram is Err ==> r->Err_0 == ram->Err_0,
{
}

/// The snapshots of all devices: snapshot `i` is that of device `i` while there is one, and
/// that of the further adapters after these.
pub proof fn law_snapshots_hold_readings(
    ram: Result<u64>,
    devices: Vec<DeviceReading>,
    extras: Vec<(GpuDeviceInfo, ProcessGpuInfo)>,
    r: Result<Vec<Snapshot>>,
    i: int,
)
    requires
        call_ensures(Snapshot::all, (ram, devices, extras), r),
        ram is Ok,
    ensures
        r is Ok,
        r->Ok_0@.len() == devices@.len() + extras@.len(),
        0 <= i < r->Ok_0@.len() ==> r->Ok_0@[i].ram_bytes == ram->Ok_0,
        0 <= i < devices@.len() && devices@[i].gpu is Ok ==> r->Ok_0@[i].gpu == Some(
            devices@[i].gpu->Ok_0,
        ),
        0 <= i < devices@.len() && devices@[i].gpu is Err ==> r->Ok_0@[i].gpu is None,
        0 <= i < devices@.len() && devices@[i].gpu_device is Ok ==> r->Ok_0@[i].gpu_device == Some(
            devices@[i].gpu_device->Ok_0,
        ),
        0 <= i < devices@.len() && devices@[i].gpu_device is Err ==> r->Ok_0@[i].gpu_device is None,
        0 <= i < extras@.len() ==> r->Ok_0@[devices@.len() + i].gpu_device == Some(
            (extras@[i]).0,
        ) && r->Ok_0@[devices@.len() + i].gpu == Some((extras@[i]).1),
{
    assert(r->Ok_0@ == all_snapshots(ram->Ok_0, devices@, extras@));
}

/// Without a RAM figure there is no sweep.
pub proof fn law_sweep_needs_ram(
    ram: Result<u64>,
    devices: Vec<DeviceReading>,
    extras: Vec<(GpuDeviceInfo, ProcessGpuInfo)>,
    r: Result<Vec<Snapshot>>,
)
    requires
        call_ensures(Snapshot::all, (ram, devices, extras), r),
        ram is Err,
    ensures
        r is Err,
        r->Err_0 == ram->Err_0,
{
}

/// A device without a name is an unknown one.
pub proof fn law_device_name(d: GpuDeviceInfo, s: &str)
    requires
        call_ensures(GpuDeviceInfo::name_or_unknown, (&d,), s),
    ensures
        d.name is Some ==> s@ == d.name->0@,
        d.name is None ==> s@ == "unknown GPU"@,
{
}

/// The lines about one device hold its own figures: free and total, total, used.
#[verifier::rlimit(60)]
#[verifier::spinoff_prover]
pub proof fn law_device_lines(d: GpuDeviceInfo, free: String, total: String, used: String)
    requires
        call_ensures(GpuDeviceInfo::format_free, (&d,), free),
        call_ensures(GpuDeviceInfo::format_total, (&d,), total),
        call_ensures(GpuDeviceInfo::format_used, (&d,), used),
    ensures
        holds(free@, "  GPU "@ + decimal(d.index as nat) + ": free "@),
        holds(free@, ": free "@ + decimal(mib_nearest(d.free_bytes as nat)) + " MB / "@),
        holds(free@, " MB / "@ + decimal(mib_nearest(d.total_bytes as nat)) + " MB"@),
        holds(total@, "  GPU "@ + decimal(d.index as nat) + ": total "@),
        holds(total@, ": total "@ + decimal(mib_nearest(d.total_bytes as nat)) + " MB"@),
        holds(used@, "  GPU "@ + decimal(d.index as nat) + ": used "@),
        holds(used@, ": used "@ + decimal(mib_nearest(d.used_bytes as nat)) + " MB"@),
        d.name matches Some(n) ==> holds(free@, " ["@ + n@ + "]"@) && holds(
            total@,
            " ["@ + n@ + "]"@,
        ) && holds(used@, " ["@ + n@ + "]"@),
{
    let i = "  GPU "@ + decimal(d.index as nat);
    let f = decimal(mib_nearest(d.free_bytes as nat));
    let t = decimal(mib_nearest(d.total_bytes as nat));
    let u = decimal(mib_nearest(d.used_bytes as nat));
    let n = crate::snapshot::bracketed(opt_text(d.name));
    let nl = "\n"@;
    assert(holds(free@, i + ": free "@)) by {
        assert(free@ =~= seq![] + (i + ": free "@) + (f + " MB / "@ + t + " MB"@ + n + nl));
        lemma_holds(free@, seq![], i + ": free "@, f + " MB / "@ + t + " MB"@ + n + nl);
    }
    assert(holds(free@, ": free "@ + f + " MB / "@)) by {
        assert(free@ =~= i + (": free "@ + f + " MB / "@) + (t + " MB"@ + n + nl));
        lemma_holds(free@, i, ": free "@ + f + " MB / "@, t + " MB"@ + n + nl);
    }
    assert(holds(free@, " MB / "@ + t + " MB"@)) by {
        assert(free@ =~= (i + ": free "@ + f) + (" MB / "@ + t + " MB"@) + (n + nl));
        lemma_holds(free@, i + ": free "@ + f, " MB / "@ + t + " MB"@, n + nl);
    }
    assert(holds(total@, i + ": total "@)) by {
        assert(total@ =~= seq![] + (i + ": total "@) + (t + " MB"@ + n + nl));
        lemma_holds(total@, seq![], i + ": total "@, t + " MB"@ + n + nl);
    }
    assert(holds(total@, ": total "@ + t + " MB"@)) by {
        assert(total@ =~= i + (": total "@ + t + " MB"@) + (n + nl));
        lemma_holds(total@, i, ": total "@ + t + " MB"@, n + nl);
    }
    assert(holds(used@, i + ": used "@)) by {
        assert(used@ =~= seq![] + (i + ": used "@) + (u + " MB"@ + n + nl));
        lemma_holds(used@, seq![], i + ": used "@, u + " MB"@ + n + nl);
    }
    assert(holds(used@, ": used "@ + u + " MB"@)) by {
        assert(used@ =~= i + (": used "@ + u + " MB"@) + (n + nl));
        lemma_holds(used@, i, ": used "@ + u + " MB"@, n + nl);
    }
    assert(holds(free@, n)) by {
        lemma_holds(free@, i + ": free "@ + f + " MB / "@ + t + " MB"@, n, nl);
    }
    assert(holds(total@, n)) by {
        lemma_holds(total@, i + ": total "@ + t + " MB"@, n, nl);
    }
    assert(holds(used@, n)) by {
        lemma_holds(used@, i + ": used "@ + u + " MB"@, n, nl);
    }
}

// ---------------------------------------------------------------------------
// Reports
// ---------------------------------------------------------------------------

/// The note on what a GPU figure covers is that of the later snapshot.
pub proof fn law_scope_is_told(m: MemoryReport, s: &'static str)
    requires
        call_ensures(MemoryReport::vram_qualifier, (&m,), s),
    ensures
        m.after.gpu is None ==> s@ == ""@,
        m.after.gpu is Some && m.after.gpu->0.is_per_process ==> s@ == " [per-process]"@,
        m.after.gpu is Some && !m.after.gpu->0.is_per_process ==> s@ == " [device-wide]"@,
{
}

/// A report from two snapshots keeps them apart.
pub proof fn law_report_keeps_snapshots(before: Snapshot, after: Snapshot, m: MemoryReport)
    requires
        call_ensures(MemoryReport::new, (before, after), m),
    ensures
        m.before == before,
        m.after == after,
{
}

/// The line of differences tells the change of RAM from the first snapshot to the second,
/// and that of GPU memory where both have a figure, with what the figure covers.
#[verifier::rlimit(60)]
#[verifier::spinoff_prover]
pub proof fn law_differences_are_told(m: MemoryReport, label: &str, s: String, note: &'static str)
    requires
        call_ensures(MemoryReport::format_delta, (&m, label), s),
        call_ensures(MemoryReport::vram_qualifier, (&m,), note),
    ensures
        holds(
            s@,
            "  "@ + label@ + ": RAM "@ + mib_delta_text(
                m.before.ram_bytes as nat,
                m.after.ram_bytes as nat,
            ) + " MB"@,
        ),
        m.before.gpu is Some && m.after.gpu is Some ==> holds(
            s@,
            "  |  VRAM "@ + mib_delta_text(
                m.before.gpu->0.used_bytes as nat,
                m.after.gpu->0.used_bytes as nat,
            ) + " MB"@ + note@ + "\n"@,
        ),
        m.before.gpu is None || m.after.gpu is None ==> s@ == "  "@ + label@ + ": RAM "@
            + mib_delta_text(m.before.ram_bytes as nat, m.after.ram_bytes as nat) + " MB\n"@,
{
    reveal_strlit(" MB\n");
    reveal_strlit(" MB");
    reveal_strlit("\n");
    reveal_strlit(" MB  |  VRAM ");
    reveal_strlit("  |  VRAM ");
    assert(" MB\n"@ =~= " MB"@ + "\n"@);
    assert(" MB  |  VRAM "@ =~= " MB"@ + "  |  VRAM "@);
    let front = "  "@ + label@ + ": RAM "@ + mib_delta_text(
        m.before.ram_bytes as nat,
        m.after.ram_bytes as nat,
    );
    match (m.before.gpu, m.after.gpu) {
        (Some(b), Some(a)) => {
            let v = mib_delta_text(b.used_bytes as nat, a.used_bytes as nat) + " MB"@ + note@
                + "\n"@;
            assert(s@ =~= front + " MB"@ + "  |  VRAM "@ + v);
            assert(holds(s@, front + " MB"@)) by {
                assert(s@ =~= seq![] + (front + " MB"@) + ("  |  VRAM "@ + v));
                lemma_holds(s@, seq![], front + " MB"@, "  |  VRAM "@ + v);
            }
            let part = "  |  VRAM "@ + mib_delta_text(b.used_bytes as nat, a.used_bytes as nat)
                + " MB"@ + note@ + "\n"@;
            assert(holds(s@, part)) by {
                assert(part =~= "  |  VRAM "@ + v);
                assert(s@ =~= (front + " MB"@) + part + seq![]);
                lemma_holds(s@, front + " MB"@, part, seq![]);
            }
        },
        _ => {
            assert(s@ =~= seq![] + (front + " MB"@) + "\n"@);
            lemma_holds(s@, seq![], front + " MB"@, "\n"@);
        },
    }
}

/// The before-and-after text shows the figure of the first snapshot, then that of the
/// second, then the change.
#[verifier::rlimit(80)]
#[verifier::spinoff_prover]
pub proof fn law_before_and_after_are_told(m: MemoryReport, label: &str, s: String)
    requires
        call_ensures(MemoryReport::format_before_after, (&m, label), s),
    ensures
        holds(
            s@,
            ": RAM "@ + decimal(mib_nearest(m.before.ram_bytes as nat)) + " MB → "@ + decimal(
                mib_nearest(m.after.ram_bytes as nat),
            ) + " MB ("@ + mib_delta_text(m.before.ram_bytes as nat, m.after.ram_bytes as nat)
                + " MB)\n"@,
        ),
        m.before.gpu is Some && m.after.gpu is Some ==> holds(
            s@,
            ": VRAM "@ + decimal(mib_nearest(m.before.gpu->0.used_bytes as nat)) + " MB → "@
                + decimal(mib_nearest(m.after.gpu->0.used_bytes as nat)) + " MB ("@
                + mib_delta_text(
                m.before.gpu->0.used_bytes as nat,
                m.after.gpu->0.used_bytes as nat,
            ) + " MB"@,
        ),
        m.before.gpu is Some && m.after.gpu is Some && m.after.gpu_device is Some ==> holds(
            s@,
            " MB / "@ + decimal(mib_nearest(m.after.gpu_device->0.total_bytes as nat)) + " MB)"@,
        ),
        m.before.gpu is Some && m.after.gpu is Some && m.after.gpu_device is Some
            && m.after.gpu_device->0.name is Some ==> holds(
            s@,
            " ["@ + m.after.gpu_device->0.name->0@ + "]"@,
        ),
        m.before.gpu is None || m.after.gpu is None ==> s@ == m.ram_line(label@),
{
    reveal_strlit(" MB / ");
    reveal_strlit(" MB");
    reveal_strlit(" / ");
    reveal_strlit(")");
    reveal_strlit(" MB)");
    assert(" MB / "@ =~= " MB"@ + " / "@);
    assert(" MB)"@ =~= " MB"@ + ")"@);
    let ram = ": RAM "@ + decimal(mib_nearest(m.before.ram_bytes as nat)) + " MB → "@ + decimal(
        mib_nearest(m.after.ram_bytes as nat),
    ) + " MB ("@ + mib_delta_text(m.before.ram_bytes as nat, m.after.ram_bytes as nat)
        + " MB)\n"@;
    let line = m.ram_line(label@);
    assert(line =~= ("  "@ + label@) + ram + seq![]);
    lemma_holds(line, "  "@ + label@, ram, seq![]);
    match (m.before.gpu, m.after.gpu) {
        (Some(b), Some(a)) => {
            let before = b.used_bytes as nat;
            let after = a.used_bytes as nat;
            let second = m.vram_line(label@, before, after);
            assert(holds(s@, ram)) by {
                assert(s@ =~= seq![] + line + second);
                lemma_holds(s@, seq![], line, second);
                lemma_holds_more(s@, line, ram);
            }
            let vram = ": VRAM "@ + decimal(mib_nearest(before)) + " MB → "@ + decimal(
                mib_nearest(after),
            ) + " MB ("@ + mib_delta_text(before, after) + " MB"@;
            let tail = ")"@ + crate::report::scope_note(m.after.gpu) + crate::snapshot::bracketed(
                m.adapter_name(),
            ) + "\n"@;
            assert(second =~= ("  "@ + label@) + vram + (m.capacity_part() + tail));
            assert(holds(s@, vram)) by {
                assert(s@ =~= (line + ("  "@ + label@)) + vram + (m.capacity_part() + tail));
                lemma_holds(s@, line + ("  "@ + label@), vram, m.capacity_part() + tail);
            }
            if let Some(d) = m.after.gpu_device {
                let total = decimal(mib_nearest(d.total_bytes as nat));
                let front = line + ("  "@ + label@) + ": VRAM "@ + decimal(mib_nearest(before))
                    + " MB → "@ + decimal(mib_nearest(after)) + " MB ("@ + mib_delta_text(
                    before,
                    after,
                );
                let rest = crate::report::scope_note(m.after.gpu) + crate::snapshot::bracketed(
                    m.adapter_name(),
                ) + "\n"@;
                assert(m.capacity_part() == " / "@ + total + " MB"@);
                assert(s@ =~= front + (" MB / "@ + total + " MB)"@) + rest);
                lemma_holds(s@, front, " MB / "@ + total + " MB)"@, rest);
            }
            let name = crate::snapshot::bracketed(m.adapter_name());
            let head = s@.take(s@.len() - name.len() - "\n"@.len());
            assert(holds(s@, name)) by {
                assert(s@ =~= head + name + "\n"@);
                lemma_holds(s@, head, name, "\n"@);
            }
        },
        _ => {},
    }
}

// ---------------------------------------------------------------------------
// RAM
// ---------------------------------------------------------------------------

/// Windows gives the working set where the call succeeded, macOS the footprint where its
/// call returned 0.
pub proof fn law_ram_is_passed_on(reading: RamReading, r: Result<u64>)
    requires
        call_ensures(process_rss, (&reading,), r),
    ensures
        reading matches RamReading::Windows { ok, working_set, last_error } ==> (r is Ok <==> ok
            != 0) && (r is Ok ==> r->Ok_0 == working_set),
        reading matches RamReading::Macos { kr, phys_footprint } ==> (r is Ok <==> kr == 0) && (
        r is Ok ==> r->Ok_0 == phys_footprint),
        reading is LinuxUnreadable || reading is Unsupported ==> r is Err,
        r is Err ==> r->Err_0 is Ram,
{
}

proof fn lemma_first_status_line(all: Seq<Seq<char>>, i: int, rest: Seq<char>)
    requires
        0 <= i < all.len(),
        all[i] == "VmRSS:"@ + rest,
        forall|k: int| 0 <= k < i ==> !has_prefix(#[trigger] all[k], "VmRSS:"@),
    ensures
        vmrss_in(all) == vmrss_in(seq!["VmRSS:"@ + rest]),
    decreases all.len(),
{
    let p = "VmRSS:"@;
    assert((p + rest).take(p.len() as int) =~= p);
    assert((p + rest).skip(p.len() as int) =~= rest);
    if i > 0 {
        assert(!has_prefix(all[0], p));
        assert forall|k: int| 0 <= k < i - 1 implies !has_prefix(#[trigger] all.skip(1)[k], p) by {
            assert(all.skip(1)[k] == all[k + 1]);
        }
        lemma_first_status_line(all.skip(1), i - 1, rest);
    }
}

/// On Linux the first line that starts with `VmRSS:` says the kilobytes, whatever
/// whitespace stands before the number; the other lines do not matter.
pub proof fn law_ram_from_status(
    status: String,
    i: int,
    gap: Seq<char>,
    kb: nat,
    r: Result<u64>,
)
    requires
        call_ensures(process_rss, (&RamReading::Linux(status),), r),
        kb * 1024 <= u64::MAX,
        all_space(gap),
        0 <= i < lines_of(status@).len(),
        lines_of(status@)[i] == "VmRSS:"@ + (gap + decimal(kb) + " kB"@),
        forall|k: int| 0 <= k < i ==> !has_prefix(#[trigger] lines_of(status@)[k], "VmRSS:"@),
    ensures
        r is Ok,
        r->Ok_0 == kb * 1024,
{
    let d = decimal(kb);
    let unit = " kB"@;
    let rest = gap + d + unit;
    reveal_strlit(" kB");
    law_decimal_digits(kb);
    assert('0' as u32 <= d[0] as u32 <= '9' as u32);
    assert('0' as u32 <= d[d.len() - 1] as u32 <= '9' as u32);
    lemma_first_status_line(lines_of(status@), i, rest);
    let value = d + unit;
    assert(value[0] == d[0]);
    assert(value.last() == 'B');
    law_trimmed(gap, value, seq![]);
    assert(gap + value + seq![] =~= rest);
    assert(value.skip(value.len() - unit.len()) =~= unit);
    assert(value.take(value.len() - unit.len()) =~= d);
    assert(!has_suffix(d, unit)) by {
        if has_suffix(d, unit) {
            assert(d.skip(d.len() - unit.len())[unit.len() - 1] == d[d.len() - 1]);
        }
    }
    assert(without_suffixes(d, unit) == d);
    assert(without_suffixes(value, unit) == d);
    law_trimmed(seq![], d, seq![]);
    assert(seq![] + d + seq![] =~= d);
    assert(value_text(rest) == d);
    law_decimal_round_trip(kb, u64::MAX as nat);
    let p = "VmRSS:"@;
    assert((p + rest).take(p.len() as int) =~= p);
    assert((p + rest).skip(p.len() as int) =~= rest);
    assert(stripped_prefix(p + rest, p) == Some(rest));
    assert(vmrss(status@) == VmRss::Kilobytes(kb));
}

/// A status file without such a line gives no figure.
pub proof fn law_ram_needs_its_line(status: String, r: Result<u64>)
    requires
        call_ensures(process_rss, (&RamReading::Linux(status),), r),
        forall|k: int|
            0 <= k < lines_of(status@).len() ==> !has_prefix(
                #[trigger] lines_of(status@)[k],
                "VmRSS:"@,
            ),
    ensures
        r is Err,
        r->Err_0 matches HypomnesisError::Ram(m) && m@ == "VmRSS not found in /proc/self/status"@,
{
    lemma_no_status_line(lines_of(status@));
    assert(vmrss_error(VmRss::Missing) == "VmRSS not found in /proc/self/status"@);
}

proof fn lemma_no_status_line(all: Seq<Seq<char>>)
    requires
        forall|k: int| 0 <= k < all.len() ==> !has_prefix(#[trigger] all[k], "VmRSS:"@),
    ensures
        vmrss_in(all) == VmRss::Missing,
    decreases all.len(),
{
    if all.len() > 0 {
        assert(!has_prefix(all[0], "VmRSS:"@));
        assert forall|k: int| 0 <= k < all.skip(1).len() implies !has_prefix(
            #[trigger] all.skip(1)[k],
            "VmRSS:"@,
        ) by {
            assert(all.skip(1)[k] == all[k + 1]);
        }
        lemma_no_status_line(all.skip(1));
    }
}

// ---------------------------------------------------------------------------
// Errors
// ---------------------------------------------------------------------------

/// An error says what failed, and holds the message of the backend.
pub proof fn law_error_says_what_failed(e: HypomnesisError, s: String)
    requires
        call_ensures(HypomnesisError::message, (&e,), s),
    ensures
        e matches HypomnesisError::Ram(m) ==> s@ == "RAM query failed: "@ + m@,
        e matches HypomnesisError::Nvml(m) ==> s@ == "NVML error: "@ + m@,
        e matches HypomnesisError::Dxgi(m) ==> s@ == "DXGI error: "@ + m@,
        e matches HypomnesisError::Pdh(m) ==> s@ == "PDH error: "@ + m@,
        e matches HypomnesisError::NvidiaSmi(m) ==> s@ == "nvidia-smi error: "@ + m@,
        e matches HypomnesisError::DeviceIndexOutOfRange { index, count } ==> s@
            == "device index "@ + decimal(index as nat) + " out of range (have "@ + decimal(
            count as nat,
        ) + " devices)"@,
        e matches HypomnesisError::Io(m) ==> s@ == m@,
{
}

} // verus!
