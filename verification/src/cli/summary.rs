//! The device summary.
use crate::cli::Printed;
use crate::error::{HypomnesisError, Result};
use crate::json::{json_optional, push_json_optional};
use crate::number::{decimal, push_decimal};
use crate::snapshot::{bracketed, push_bracketed, GpuDeviceInfo, Snapshot};
use crate::text::{join, joined, opt_text, texts};
use crate::units::{bytes_to_mib, MIB};
use vstd::prelude::*;

verus! {

/// Whether there are snapshots and none of them has device data.
pub open spec fn none_readable(snaps: Seq<Snapshot>) -> bool {
    snaps.len() > 0 && forall|i: int|
        0 <= i < snaps.len() ==> (#[trigger] snaps[i]).gpu_device is None
}

/// Whether devices were enumerated and none of them could be read.
pub fn all_gpu_devices_unreadable(snaps: &[Snapshot]) -> (r: bool)
    ensures
        r == none_readable(snaps@),
{
    let mut i: usize = 0;
    while i < snaps.len()
        invariant
            i <= snaps@.len(),
            forall|k: int| 0 <= k < i ==> (#[trigger] snaps@[k]).gpu_device is None,
        decreases snaps@.len() - i,
    {
        if snaps[i].gpu_device.is_some() {
            return false;
        }
        i += 1;
    }
    snaps.len() > 0
}

/// The line for devices of which none could be read.
pub open spec fn none_readable_text(count: nat) -> Seq<char> {
    "hmn: "@ + decimal(count) + " GPU(s) enumerated but none readable."@
}

/// The line for devices of which none could be read.
pub fn format_none_readable_message(count: usize) -> (s: String)
    ensures
        s@ == none_readable_text(count as nat),
{
    let mut s = String::from_str("hmn: ");
    push_decimal(&mut s, count as u64);
    s.append(" GPU(s) enumerated but none readable.");
    s
}

/// The note on reserved memory, in whole MiB.
pub open spec fn reserved_note(reserved: Option<u64>) -> Seq<char> {
    match reserved {
        Some(r) => " ("@ + decimal((r / MIB) as nat) + " MiB reserved)"@,
        None => seq![],
    }
}

/// The note on the driver version.
pub open spec fn driver_note(version: Option<Seq<char>>) -> Seq<char> {
    match version {
        Some(v) => ", driver "@ + v,
        None => seq![],
    }
}

/// The line of one device, in whole MiB.
pub open spec fn summary_line(d: GpuDeviceInfo) -> Seq<char> {
    "GPU "@ + decimal(d.index as nat) + bracketed(opt_text(d.name)) + ": free "@ + decimal(
        (d.free_bytes / MIB) as nat,
    ) + " MiB / "@ + decimal((d.total_bytes / MIB) as nat) + " MiB"@ + reserved_note(
        d.reserved_bytes,
    ) + driver_note(opt_text(d.driver_version)) + "\n"@
}

/// The lines of the snapshots with device data, in order.
pub open spec fn summary_text(snaps: Seq<Snapshot>) -> Seq<char>
    decreases snaps.len(),
{
    if snaps.len() == 0 {
        seq![]
    } else {
        summary_text(snaps.drop_last()) + match snaps.last().gpu_device {
            Some(d) => summary_line(d),
            None => seq![],
        }
    }
}

fn summary_line_string(d: &GpuDeviceInfo) -> (s: String)
    ensures
        s@ == summary_line(*d),
{
    let mut s = String::from_str("GPU ");
    push_decimal(&mut s, d.index as u64);
    push_bracketed(&mut s, &d.name);
    s.append(": free ");
    push_decimal(&mut s, bytes_to_mib(d.free_bytes));
    s.append(" MiB / ");
    push_decimal(&mut s, bytes_to_mib(d.total_bytes));
    s.append(" MiB");
    let ghost head = s@;
    match d.reserved_bytes {
        Some(r) => {
            s.append(" (");
            push_decimal(&mut s, bytes_to_mib(r));
            s.append(" MiB reserved)");
        },
        None => {},
    }
    assert(s@ =~= head + reserved_note(d.reserved_bytes));
    let ghost head = s@;
    match &d.driver_version {
        Some(v) => {
            s.append(", driver ");
            s.append(v.as_str());
        },
        None => {},
    }
    assert(s@ =~= head + driver_note(opt_text(d.driver_version)));
    s.append("\n");
    s
}

/// One line per device that could be read.
pub fn format_summary(snaps: &[Snapshot]) -> (out: String)
    ensures
        out@ == summary_text(snaps@),
{
    let mut out = String::new();
    let mut i: usize = 0;
    assert(snaps@.take(0) =~= seq![]);
    while i < snaps.len()
        invariant
            i <= snaps@.len(),
            out@ == summary_text(snaps@.take(i as int)),
        decreases snaps@.len() - i,
    {
        assert(snaps@.take(i + 1).drop_last() =~= snaps@.take(i as int));
        assert(snaps@.take(i + 1).last() == snaps@[i as int]);
        let ghost before = out@;
        match &snaps[i].gpu_device {
            Some(d) => {
                let line = summary_line_string(d);
                out.append(line.as_str());
            },
            None => {
                assert(before =~= before + seq![]);
            },
        }
        i += 1;
    }
    assert(snaps@.take(i as int) =~= snaps@);
    out
}

/// A number, or `null`.
pub open spec fn json_number(n: Option<u64>) -> Seq<char> {
    match n {
        Some(n) => decimal(n as nat),
        None => "null"@,
    }
}

/// The JSON object of one device.
pub open spec fn device_object(d: GpuDeviceInfo) -> Seq<char> {
    "{\"index\":"@ + decimal(d.index as nat) + ",\"name\":"@ + json_optional(opt_text(d.name))
        + ",\"total_bytes\":"@ + decimal(d.total_bytes as nat) + ",\"free_bytes\":"@ + decimal(
        d.free_bytes as nat,
    ) + ",\"used_bytes\":"@ + decimal(d.used_bytes as nat) + ",\"reserved_bytes\":"@ + json_number(
        d.reserved_bytes,
    ) + ",\"driver_version\":"@ + json_optional(opt_text(d.driver_version)) + "}"@
}

/// The JSON objects of the snapshots with device data, in order.
pub open spec fn device_objects(snaps: Seq<Snapshot>) -> Seq<Seq<char>>
    decreases snaps.len(),
{
    if snaps.len() == 0 {
        seq![]
    } else {
        let init = device_objects(snaps.drop_last());
        match snaps.last().gpu_device {
            Some(d) => init.push(device_object(d)),
            None => init,
        }
    }
}

/// The JSON array of the devices that could be read.
pub open spec fn summary_json(snaps: Seq<Snapshot>) -> Seq<char> {
    "["@ + joined(device_objects(snaps), ","@) + "]\n"@
}

fn device_object_string(d: &GpuDeviceInfo) -> (s: String)
    ensures
        s@ == device_object(*d),
{
    let mut s = String::from_str("{\"index\":");
    push_decimal(&mut s, d.index as u64);
    s.append(",\"name\":");
    push_json_optional(&mut s, &d.name);
    s.append(",\"total_bytes\":");
    push_decimal(&mut s, d.total_bytes);
    s.append(",\"free_bytes\":");
    push_decimal(&mut s, d.free_bytes);
    s.append(",\"used_bytes\":");
    push_decimal(&mut s, d.used_bytes);
    s.append(",\"reserved_bytes\":");
    match d.reserved_bytes {
        Some(r) => push_decimal(&mut s, r),
        None => s.append("null"),
    }
    s.append(",\"driver_version\":");
    push_json_optional(&mut s, &d.driver_version);
    s.append("}");
    s
}

/// The devices that could be read, as a JSON array.
pub fn format_summary_json(snaps: &[Snapshot]) -> (out: String)
    ensures
        out@ == summary_json(snaps@),
{
    let mut objects: Vec<String> = Vec::new();
    let mut i: usize = 0;
    assert(snaps@.take(0) =~= seq![]);
    assert(texts(objects@) =~= seq![]);
    while i < snaps.len()
        invariant
            i <= snaps@.len(),
            texts(objects@) == device_objects(snaps@.take(i as int)),
        decreases snaps@.len() - i,
    {
        assert(snaps@.take(i + 1).drop_last() =~= snaps@.take(i as int));
        assert(snaps@.take(i + 1).last() == snaps@[i as int]);
        let ghost before = texts(objects@);
        match &snaps[i].gpu_device {
            Some(d) => {
                let o = device_object_string(d);
                let ghost text = o@;
                objects.push(o);
                assert(texts(objects@) =~= before.push(text));
            },
            None => {},
        }
        i += 1;
    }
    assert(snaps@.take(i as int) =~= snaps@);
    let mut out = String::from_str("[");
    let body = join(&objects, ",");
    out.append(body.as_str());
    out.append("]\n");
    out
}

/// What the summary prints. The JSON array is the same whether no device was visible or
/// none could be read; a line on standard error tells the latter.
pub fn run_summary(snaps: Result<Vec<Snapshot>>, json: bool) -> (r: Result<Printed>)
    ensures
        match snaps {
            Err(e) => r == Err::<Printed, HypomnesisError>(e),
            Ok(v) => r matches Ok(p) && if json {
                &&& p.stdout@ == summary_json(v@)
                &&& p.stderr@ == (if none_readable(v@) {
                    none_readable_text(v@.len()) + "\n"@
                } else {
                    seq![]
                })
            } else {
                &&& p.stderr@ == Seq::<char>::empty()
                &&& p.stdout@ == (if v@.len() == 0 {
                    "hmn: no visible GPUs.\n"@
                } else if none_readable(v@) {
                    none_readable_text(v@.len()) + "\n"@
                } else {
                    summary_text(v@)
                })
            },
        },
{
    let v = match snaps {
        Err(e) => {
            return Err(e);
        },
        Ok(v) => v,
    };
    let unreadable = all_gpu_devices_unreadable(v.as_slice());
    let mut notice = format_none_readable_message(v.len());
    notice.append("\n");
    if json {
        let stderr = if unreadable {
            notice
        } else {
            String::new()
        };
        return Ok(Printed { stdout: format_summary_json(v.as_slice()), stderr });
    }
    let stdout = if v.len() == 0 {
        String::from_str("hmn: no visible GPUs.\n")
    } else if unreadable {
        notice
    } else {
        format_summary(v.as_slice())
    };
    Ok(Printed { stdout, stderr: String::new() })
}

} // verus!
