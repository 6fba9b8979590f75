//! What the commands print, said of the figures that must stand there.
use crate::cli::ps::PsRow;
use crate::cli::ps_text::{
    ps_cells, ps_grid, ps_header, ps_json, ps_object, ps_summary, ps_table, total_used,
};
use crate::cli::spill::{
    episode_object, episodes_json, longest_nanos, print_spill, report_json, report_members,
    report_text,
};
use crate::cli::summary::{
    device_object, device_objects, summary_json, summary_line, summary_text,
};
use crate::cli::watch::WatchSampleRow;
use crate::cli::watch_text::{
    per_pid_block, per_pid_cells, per_pid_grid, per_pid_header, per_pid_object, sample_object,
    watch_cells, watch_grid, watch_header, watch_rows_json, watch_rows_text, watch_summary_json,
    watch_summary_text, WatchPidSummary,
};
use crate::cli::Printed;
use crate::json::{json_bool, json_optional, json_string};
use crate::number::{decimal, signed_decimal};
use crate::snapshot::{GpuDeviceInfo, Snapshot};
use crate::spill::{total_nanos, SpillEpisode, SpillReport};
use crate::table::{lines_text, padded, row_line, widths_of};
use crate::text::{joined, opt_text};
use crate::time::{elapsed_label_text, millis_clamped, secs_text};
use crate::units::{delta_text, vram_text};
use vstd::prelude::*;

verus! {

/// Whether a text holds another.
#[verifier::opaque]
pub open spec fn holds(text: Seq<char>, part: Seq<char>) -> bool {
    exists|before: Seq<char>, after: Seq<char>| text == #[trigger] (before + part + after)
}

pub proof fn lemma_holds(text: Seq<char>, before: Seq<char>, part: Seq<char>, after: Seq<char>)
    requires
        text == before + part + after,
    ensures
        holds(text, part),
{
    reveal(holds);
}

pub proof fn lemma_holds_more(text: Seq<char>, middle: Seq<char>, part: Seq<char>)
    requires
        holds(text, middle),
        holds(middle, part),
    ensures
        holds(text, part),
{
    reveal(holds);
    let (a, b) = choose|before: Seq<char>, after: Seq<char>|
        text == #[trigger] (before + middle + after);
    let (c, d) = choose|before: Seq<char>, after: Seq<char>|
        middle == #[trigger] (before + part + after);
    assert(text =~= (a + c) + part + (d + b));
}

// ---------------------------------------------------------------------------
// The device summary
// ---------------------------------------------------------------------------

/// The line of a device starts with its index and states its free and its total memory, in
/// whole MiB, in this order; then the reserved memory and the driver, where they are known.
#[verifier::rlimit(80)]
#[verifier::spinoff_prover]
pub proof fn law_summary_line(d: GpuDeviceInfo)
    ensures
        holds(summary_line(d), "GPU "@ + decimal(d.index as nat)),
        holds(
            summary_line(d),
            ": free "@ + decimal((d.free_bytes / 1_048_576) as nat) + " MiB / "@ + decimal(
                (d.total_bytes / 1_048_576) as nat,
            ) + " MiB"@,
        ),
        d.name is Some ==> holds(summary_line(d), " ["@ + d.name->0@ + "]"@),
        d.reserved_bytes is Some ==> holds(
            summary_line(d),
            " ("@ + decimal((d.reserved_bytes->0 / 1_048_576) as nat) + " MiB reserved)"@,
        ),
        d.driver_version is Some ==> holds(
            summary_line(d),
            ", driver "@ + d.driver_version->0@ + "\n"@,
        ),
{
    let line = summary_line(d);
    let head = "GPU "@ + decimal(d.index as nat);
    let name = crate::snapshot::bracketed(opt_text(d.name));
    let figures = ": free "@ + decimal((d.free_bytes / 1_048_576) as nat) + " MiB / "@ + decimal(
        (d.total_bytes / 1_048_576) as nat,
    ) + " MiB"@;
    let reserved = crate::cli::summary::reserved_note(d.reserved_bytes);
    let driver = crate::cli::summary::driver_note(opt_text(d.driver_version));
    assert(holds(line, head)) by {
        assert(line =~= seq![] + head + (name + figures + reserved + driver + "\n"@));
        lemma_holds(line, seq![], head, name + figures + reserved + driver + "\n"@);
    }
    assert(holds(line, figures)) by {
        assert(line =~= (head + name) + figures + (reserved + driver + "\n"@));
        lemma_holds(line, head + name, figures, reserved + driver + "\n"@);
    }
    assert(holds(line, name)) by {
        assert(line =~= head + name + (figures + reserved + driver + "\n"@));
        lemma_holds(line, head, name, figures + reserved + driver + "\n"@);
    }
    assert(holds(line, reserved)) by {
        assert(line =~= (head + name + figures) + reserved + (driver + "\n"@));
        lemma_holds(line, head + name + figures, reserved, driver + "\n"@);
    }
    if d.driver_version is Some {
        let part = ", driver "@ + d.driver_version->0@ + "\n"@;
        assert(holds(line, part)) by {
            assert(line =~= (head + name + figures + reserved) + part + seq![]);
            lemma_holds(line, head + name + figures + reserved, part, seq![]);
        }
    }
}

/// Every device that was read has its line in the summary.
pub proof fn law_summary_has_every_device(snaps: Seq<Snapshot>, i: int)
    requires
        0 <= i < snaps.len(),
        snaps[i].gpu_device is Some,
    ensures
        holds(summary_text(snaps), summary_line(snaps[i].gpu_device->0)),
    decreases snaps.len(),
{
    let init = snaps.drop_last();
    let last = match snaps.last().gpu_device {
        Some(d) => summary_line(d),
        None => seq![],
    };
    if i < init.len() {
        law_summary_has_every_device(init, i);
        assert(holds(summary_text(snaps), summary_text(init))) by {
            assert(summary_text(snaps) =~= seq![] + summary_text(init) + last);
            lemma_holds(summary_text(snaps), seq![], summary_text(init), last);
        }
        lemma_holds_more(
            summary_text(snaps),
            summary_text(init),
            summary_line(snaps[i].gpu_device->0),
        );
    } else {
        assert(holds(summary_text(snaps), last)) by {
            assert(summary_text(snaps) =~= summary_text(init) + last + seq![]);
            lemma_holds(summary_text(snaps), summary_text(init), last, seq![]);
        }
    }
}

/// The JSON object of a device has each figure under its own key.
#[verifier::rlimit(60)]
#[verifier::spinoff_prover]
pub proof fn law_device_object(d: GpuDeviceInfo)
    ensures
        holds(device_object(d), "{\"index\":"@ + decimal(d.index as nat) + ",\"name\":"@),
        holds(
            device_object(d),
            ",\"total_bytes\":"@ + decimal(d.total_bytes as nat) + ",\"free_bytes\":"@ + decimal(
                d.free_bytes as nat,
            ) + ",\"used_bytes\":"@ + decimal(d.used_bytes as nat) + ",\"reserved_bytes\":"@,
        ),
{
    let t = device_object(d);
    let a = "{\"index\":"@ + decimal(d.index as nat) + ",\"name\":"@;
    let n = json_optional(opt_text(d.name));
    let f = ",\"total_bytes\":"@ + decimal(d.total_bytes as nat) + ",\"free_bytes\":"@ + decimal(
        d.free_bytes as nat,
    ) + ",\"used_bytes\":"@ + decimal(d.used_bytes as nat) + ",\"reserved_bytes\":"@;
    let tail = crate::cli::summary::json_number(d.reserved_bytes) + ",\"driver_version\":"@
        + json_optional(opt_text(d.driver_version)) + "}"@;
    assert(t =~= a + n + f + tail);
    assert(holds(t, a)) by {
        assert(a + n + f + tail =~= seq![] + a + (n + f + tail));
        lemma_holds(t, seq![], a, n + f + tail);
    }
    assert(holds(t, f)) by {
        lemma_holds(t, a + n, f, tail);
    }
}

/// The JSON object of a device has its name, or `null` for none.
#[verifier::rlimit(60)]
#[verifier::spinoff_prover]
pub proof fn law_device_object_name(d: GpuDeviceInfo)
    ensures
        d.name is Some ==> holds(
            device_object(d),
            ",\"name\":"@ + json_string(d.name->0@) + ",\"total_bytes\":"@,
        ),
        d.name is None ==> holds(
            device_object(d),
            ",\"name\":"@ + "null"@ + ",\"total_bytes\":"@,
        ),
{
    let t = device_object(d);
    let a = "{\"index\":"@ + decimal(d.index as nat);
    let m = ",\"name\":"@ + json_optional(opt_text(d.name)) + ",\"total_bytes\":"@;
    let rest = decimal(d.total_bytes as nat) + ",\"free_bytes\":"@ + decimal(
        d.free_bytes as nat,
    ) + ",\"used_bytes\":"@ + decimal(d.used_bytes as nat) + ",\"reserved_bytes\":"@
        + crate::cli::summary::json_number(d.reserved_bytes) + ",\"driver_version\":"@
        + json_optional(opt_text(d.driver_version)) + "}"@;
    assert(t =~= a + m + rest);
    lemma_holds(t, a, m, rest);
}

/// The JSON object of a device has its reserved memory and its driver version, or `null`
/// for none.
#[verifier::rlimit(60)]
#[verifier::spinoff_prover]
pub proof fn law_device_object_extras(d: GpuDeviceInfo)
    ensures
        d.reserved_bytes is Some ==> holds(
            device_object(d),
            ",\"reserved_bytes\":"@ + decimal(d.reserved_bytes->0 as nat)
                + ",\"driver_version\":"@,
        ),
        d.reserved_bytes is None ==> holds(
            device_object(d),
            ",\"reserved_bytes\":"@ + "null"@ + ",\"driver_version\":"@,
        ),
        d.driver_version is Some ==> holds(
            device_object(d),
            ",\"driver_version\":"@ + json_string(d.driver_version->0@) + "}"@,
        ),
        d.driver_version is None ==> holds(
            device_object(d),
            ",\"driver_version\":"@ + "null"@ + "}"@,
        ),
{
    let t = device_object(d);
    let head = "{\"index\":"@ + decimal(d.index as nat) + ",\"name\":"@ + json_optional(
        opt_text(d.name),
    ) + ",\"total_bytes\":"@ + decimal(d.total_bytes as nat) + ",\"free_bytes\":"@ + decimal(
        d.free_bytes as nat,
    ) + ",\"used_bytes\":"@ + decimal(d.used_bytes as nat);
    let r = crate::cli::summary::json_number(d.reserved_bytes);
    let v = json_optional(opt_text(d.driver_version));
    assert(t == head + ",\"reserved_bytes\":"@ + r + ",\"driver_version\":"@ + v + "}"@);
    let m = ",\"reserved_bytes\":"@ + r + ",\"driver_version\":"@;
    assert(holds(t, m)) by {
        assert(t =~= head + m + (v + "}"@));
        lemma_holds(t, head, m, v + "}"@);
    }
    let w = ",\"driver_version\":"@ + v + "}"@;
    assert(holds(t, w)) by {
        assert(t =~= (head + ",\"reserved_bytes\":"@ + r) + w + seq![]);
        lemma_holds(t, head + ",\"reserved_bytes\":"@ + r, w, seq![]);
    }
}

// ---------------------------------------------------------------------------
// The listing
// ---------------------------------------------------------------------------

/// Under each heading of the listing stands the figure that the heading names.
pub proof fn law_listing_columns(r: PsRow)
    ensures
        ps_header().len() == 5 && ps_cells(r).len() == 5,
        ps_header()[0] == "PID"@ && ps_cells(r)[0] == decimal(r.pid as nat),
        ps_header()[1] == "NAME"@,
        r.name is Some ==> ps_cells(r)[1] == r.name->0@,
        r.name is None ==> ps_cells(r)[1] == "?"@,
        ps_header()[2] == "VRAM"@ && ps_cells(r)[2] == vram_text(r.used_bytes as nat),
        ps_header()[3] == "SHARED"@ && ps_cells(r)[3] == vram_text(r.shared_used_bytes as nat),
        ps_header()[4] == "DEVICE"@,
        r.device_name is Some ==> ps_cells(r)[4] == r.device_name->0@,
        r.device_name is None ==> ps_cells(r)[4] == "GPU "@ + decimal(r.device_index as nat),
{
}

/// The JSON object of a row has each figure under its own key.
#[verifier::rlimit(80)]
#[verifier::spinoff_prover]
pub proof fn law_listing_object(r: PsRow)
    ensures
        holds(ps_object(r), "{\"pid\":"@ + decimal(r.pid as nat) + ",\"name\":"@),
        holds(
            ps_object(r),
            ",\"used_bytes\":"@ + decimal(r.used_bytes as nat) + ",\"shared_used_bytes\":"@
                + decimal(r.shared_used_bytes as nat) + ",\"device_index\":"@ + decimal(
                r.device_index as nat,
            ) + ",\"device_name\":"@,
        ),
        r.name is Some ==> holds(
            ps_object(r),
            ",\"name\":"@ + json_string(r.name->0@) + ",\"used_bytes\":"@,
        ),
        r.name is None ==> holds(ps_object(r), ",\"name\":"@ + "null"@ + ",\"used_bytes\":"@),
        r.device_name is Some ==> holds(
            ps_object(r),
            ",\"device_name\":"@ + json_string(r.device_name->0@) + "}"@,
        ),
        r.device_name is None ==> holds(ps_object(r), ",\"device_name\":"@ + "null"@ + "}"@),
{
    let t = ps_object(r);
    let a = "{\"pid\":"@ + decimal(r.pid as nat) + ",\"name\":"@;
    let n = json_optional(opt_text(r.name));
    let fd = decimal(r.used_bytes as nat) + ",\"shared_used_bytes\":"@ + decimal(
        r.shared_used_bytes as nat,
    ) + ",\"device_index\":"@ + decimal(r.device_index as nat);
    let f = ",\"used_bytes\":"@ + decimal(r.used_bytes as nat) + ",\"shared_used_bytes\":"@
        + decimal(r.shared_used_bytes as nat) + ",\"device_index\":"@ + decimal(
        r.device_index as nat,
    ) + ",\"device_name\":"@;
    let d = json_optional(opt_text(r.device_name));
    assert(holds(t, a)) by {
        assert(t =~= seq![] + a + (n + f + d + "}"@));
        lemma_holds(t, seq![], a, n + f + d + "}"@);
    }
    assert(holds(t, f)) by {
        assert(t =~= (a + n) + f + (d + "}"@));
        lemma_holds(t, a + n, f, d + "}"@);
    }
    let name = ",\"name\":"@ + n + ",\"used_bytes\":"@;
    assert(holds(t, name)) by {
        assert(t =~= ("{\"pid\":"@ + decimal(r.pid as nat)) + name + (fd + ",\"device_name\":"@ + d
            + "}"@));
        lemma_holds(
            t,
            "{\"pid\":"@ + decimal(r.pid as nat),
            name,
            fd + ",\"device_name\":"@ + d + "}"@,
        );
    }
    let device = ",\"device_name\":"@ + d + "}"@;
    assert(holds(t, device)) by {
        assert(t =~= (a + n + ",\"used_bytes\":"@ + fd) + device + seq![]);
        lemma_holds(t, a + n + ",\"used_bytes\":"@ + fd, device, seq![]);
    }
}

/// The summary of a listing starts with the number of rows and, where there is one, states
/// the GPU memory of all rows together.
#[verifier::rlimit(80)]
#[verifier::spinoff_prover]
pub proof fn law_listing_summary(rows: Seq<PsRow>, pid: Option<u32>, device: Option<u32>)
    ensures
        rows.len() == 1 ==> holds(ps_summary(rows, pid, device), decimal(1) + " GPU process found"@),
        rows.len() != 1 ==> holds(
            ps_summary(rows, pid, device),
            decimal(rows.len()) + " GPU processes found"@,
        ),
        rows.len() > 0 ==> holds(
            ps_summary(rows, pid, device),
            " ("@ + vram_text(total_used(rows)) + " committed total"@,
        ),
        pid is Some ==> holds(
            ps_summary(rows, pid, device),
            " matching pid="@ + decimal(pid->0 as nat),
        ),
        device is Some && pid is Some ==> holds(
            ps_summary(rows, pid, device),
            " device="@ + decimal(device->0 as nat),
        ),
        device is Some && pid is None ==> holds(
            ps_summary(rows, pid, device),
            " matching device="@ + decimal(device->0 as nat),
        ),
{
    let t = ps_summary(rows, pid, device);
    let head = decimal(rows.len()) + (if rows.len() == 1 {
        " GPU process found"@
    } else {
        " GPU processes found"@
    });
    let filter = crate::cli::ps_text::filter_note(pid, device);
    let total = crate::cli::ps_text::total_note(rows);
    assert(holds(t, head)) by {
        assert(t =~= seq![] + head + (filter + total + "."@));
        lemma_holds(t, seq![], head, filter + total + "."@);
    }
    assert(holds(t, filter)) by {
        assert(t =~= head + filter + (total + "."@));
        lemma_holds(t, head, filter, total + "."@);
    }
    assert(holds(t, total)) by {
        assert(t =~= (head + filter) + total + "."@);
        lemma_holds(t, head + filter, total, "."@);
    }
    if rows.len() > 0 {
        let part = " ("@ + vram_text(total_used(rows)) + " committed total"@;
        let n = crate::cli::ps_text::protected_count(rows);
        if n == 0 {
            reveal_strlit(" committed total)");
            reveal_strlit(" committed total");
            assert(holds(total, part)) by {
                assert(total =~= seq![] + part + seq![')']);
                lemma_holds(total, seq![], part, seq![')']);
            }
        } else {
            reveal_strlit(" committed total; ");
            reveal_strlit(" committed total");
            let rest = seq![';', ' '] + decimal(n) + " protected — re-run elevated for names)"@;
            assert(holds(total, part)) by {
                assert(total =~= seq![] + part + rest);
                lemma_holds(total, seq![], part, rest);
            }
        }
        lemma_holds_more(t, total, part);
    }
    if pid is Some {
        let part = " matching pid="@ + decimal(pid->0 as nat);
        let rest = if device is Some {
            " device="@ + decimal(device->0 as nat)
        } else {
            seq![]
        };
        assert(holds(filter, part)) by {
            assert(filter =~= seq![] + part + rest);
            lemma_holds(filter, seq![], part, rest);
        }
        lemma_holds_more(t, filter, part);
        if device is Some {
            assert(holds(filter, rest)) by {
                assert(filter =~= part + rest + seq![]);
                lemma_holds(filter, part, rest, seq![]);
            }
            lemma_holds_more(t, filter, rest);
        }
    }
}

// ---------------------------------------------------------------------------
// The spill report
// ---------------------------------------------------------------------------

/// The report as text states the dedicated peak with the capacity where that is known, the
/// shared peak with the baseline, and either that nothing spilled or the number of episodes,
/// their total and longest time and the label of the first.
#[verifier::rlimit(80)]
#[verifier::spinoff_prover]
pub proof fn law_report_text(prefix: Seq<char>, r: SpillReport)
    ensures
        r.dedicated_limit_bytes > 0 ==> holds(
            report_text(prefix, r),
            ": peak dedicated "@ + vram_text(r.peak_dedicated_bytes as nat) + " / "@ + vram_text(
                r.dedicated_limit_bytes as nat,
            ) + "\n"@,
        ),
        r.dedicated_limit_bytes == 0 ==> holds(
            report_text(prefix, r),
            ": peak dedicated "@ + vram_text(r.peak_dedicated_bytes as nat) + "\n"@,
        ),
        holds(
            report_text(prefix, r),
            "peak shared    "@ + vram_text(r.peak_shared_bytes as nat) + " (baseline "@ + vram_text(
                r.baseline_shared_bytes as nat,
            ) + ")\n"@,
        ),
        r.episodes@.len() > 0 ==> holds(
            report_text(prefix, r),
            "episodes       "@ + decimal(r.episodes@.len()) + " — total "@ + secs_text(
                total_nanos(r.episodes@),
            ) + ", longest "@ + secs_text(longest_nanos(r.episodes@)) + ", first "@
                + r.episodes@[0].start_label@ + " into run\n"@,
        ),
        r.episodes@.len() == 0 ==> holds(
            report_text(prefix, r),
            "episodes       0 — no spill observed\n"@,
        ),
{
    let t = report_text(prefix, r);
    let indent = crate::table::spaces(crate::table::byte_len(prefix) + 2);
    let one = crate::cli::spill::dedicated_line(prefix, r);
    let two = crate::cli::spill::shared_line(indent, r);
    let three = crate::cli::spill::episodes_line(indent, r);
    assert(holds(t, one)) by {
        assert(t =~= seq![] + one + (two + three));
        lemma_holds(t, seq![], one, two + three);
    }
    assert(holds(t, two)) by {
        assert(t =~= one + two + three);
        lemma_holds(t, one, two, three);
    }
    assert(holds(t, three)) by {
        assert(t =~= (one + two) + three + seq![]);
        lemma_holds(t, one + two, three, seq![]);
    }
    let shared = "peak shared    "@ + vram_text(r.peak_shared_bytes as nat) + " (baseline "@
        + vram_text(r.baseline_shared_bytes as nat) + ")\n"@;
    assert(holds(two, shared)) by {
        assert(two =~= indent + shared + seq![]);
        lemma_holds(two, indent, shared, seq![]);
    }
    lemma_holds_more(t, two, shared);
    if r.dedicated_limit_bytes > 0 {
        let part = ": peak dedicated "@ + vram_text(r.peak_dedicated_bytes as nat) + " / "@
            + vram_text(r.dedicated_limit_bytes as nat) + "\n"@;
        assert(holds(one, part)) by {
            assert(one =~= prefix + part + seq![]);
            lemma_holds(one, prefix, part, seq![]);
        }
        lemma_holds_more(t, one, part);
    } else {
        let part = ": peak dedicated "@ + vram_text(r.peak_dedicated_bytes as nat) + "\n"@;
        assert(holds(one, part)) by {
            assert(one =~= prefix + part + seq![]);
            lemma_holds(one, prefix, part, seq![]);
        }
        lemma_holds_more(t, one, part);
    }
    if r.episodes@.len() > 0 {
        let part = "episodes       "@ + decimal(r.episodes@.len()) + " — total "@ + secs_text(
            total_nanos(r.episodes@),
        ) + ", longest "@ + secs_text(longest_nanos(r.episodes@)) + ", first "@
            + r.episodes@[0].start_label@ + " into run\n"@;
        assert(holds(three, part)) by {
            assert(three =~= indent + part + seq![]);
            lemma_holds(three, indent, part, seq![]);
        }
        lemma_holds_more(t, three, part);
    } else {
        let part = "episodes       0 — no spill observed\n"@;
        assert(holds(three, part)) by {
            assert(three =~= indent + part + seq![]);
            lemma_holds(three, indent, part, seq![]);
        }
        lemma_holds_more(t, three, part);
    }
}

/// The longest time in a report is that of its longest episode.
pub proof fn law_longest_nanos(episodes: Seq<SpillEpisode>)
    ensures
        forall|i: int|
            0 <= i < episodes.len() ==> (#[trigger] episodes[i]).duration@ <= longest_nanos(
                episodes,
            ),
        episodes.len() > 0 ==> exists|i: int|
            0 <= i < episodes.len() && (#[trigger] episodes[i]).duration@ == longest_nanos(
                episodes,
            ),
    decreases episodes.len(),
{
    if episodes.len() > 0 {
        let init = episodes.drop_last();
        law_longest_nanos(init);
        assert forall|i: int| 0 <= i < episodes.len() implies (#[trigger] episodes[i]).duration@
            <= longest_nanos(episodes) by {
            if i < init.len() {
                assert(init[i] == episodes[i]);
            }
        }
        if longest_nanos(episodes) == episodes.last().duration@ {
            assert(episodes[episodes.len() - 1].duration@ == longest_nanos(episodes));
        } else if init.len() > 0 {
            let i = choose|i: int|
                0 <= i < init.len() && (#[trigger] init[i]).duration@ == longest_nanos(init);
            assert(episodes[i].duration@ == longest_nanos(episodes));
        }
    }
}

/// The report as JSON has each figure under its own key.
#[verifier::rlimit(80)]
#[verifier::spinoff_prover]
pub proof fn law_report_members(r: SpillReport)
    ensures
        holds(
            report_members(r),
            "\"measurable\":"@ + json_bool(r.measurable) + ",\"spilled\":"@ + json_bool(
                r.episodes@.len() > 0,
            ) + ",\"observations\":"@ + decimal(r.observations as nat)
                + ",\"baseline_shared_bytes\":"@ + decimal(r.baseline_shared_bytes as nat)
                + ",\"peak_shared_bytes\":"@ + decimal(r.peak_shared_bytes as nat)
                + ",\"peak_dedicated_bytes\":"@ + decimal(r.peak_dedicated_bytes as nat)
                + ",\"dedicated_limit_bytes\":"@ + decimal(r.dedicated_limit_bytes as nat)
                + ",\"total_spill_duration_ms\":"@ + decimal(
                millis_clamped(total_nanos(r.episodes@)),
            ) + ",\"episodes\":"@,
        ),
{
    let part = "\"measurable\":"@ + json_bool(r.measurable) + ",\"spilled\":"@ + json_bool(
        r.episodes@.len() > 0,
    ) + ",\"observations\":"@ + decimal(r.observations as nat) + ",\"baseline_shared_bytes\":"@
        + decimal(r.baseline_shared_bytes as nat) + ",\"peak_shared_bytes\":"@ + decimal(
        r.peak_shared_bytes as nat,
    ) + ",\"peak_dedicated_bytes\":"@ + decimal(r.peak_dedicated_bytes as nat)
        + ",\"dedicated_limit_bytes\":"@ + decimal(r.dedicated_limit_bytes as nat)
        + ",\"total_spill_duration_ms\":"@ + decimal(millis_clamped(total_nanos(r.episodes@)))
        + ",\"episodes\":"@;
    let rest = crate::cli::spill::episodes_json(r.episodes@);
    assert(holds(report_members(r), part)) by {
        assert(report_members(r) =~= seq![] + part + rest);
        lemma_holds(report_members(r), seq![], part, rest);
    }
}

/// The JSON object of an episode has each figure under its own key.
#[verifier::rlimit(80)]
#[verifier::spinoff_prover]
pub proof fn law_episode_object(e: SpillEpisode)
    ensures
        holds(
            episode_object(e),
            "{\"start_label\":"@ + json_string(e.start_label@) + ",\"end_label\":"@,
        ),
        e.end_label is None ==> holds(
            episode_object(e),
            ",\"end_label\":"@ + "null"@ + ",\"peak_shared_bytes\":"@,
        ),
        e.end_label is Some ==> holds(
            episode_object(e),
            ",\"end_label\":"@ + json_string(e.end_label->0@) + ",\"peak_shared_bytes\":"@,
        ),
        holds(
            episode_object(e),
            ",\"peak_shared_bytes\":"@ + decimal(e.peak_shared_bytes as nat)
                + ",\"observations\":"@ + decimal(e.observations as nat) + ",\"duration_ms\":"@
                + decimal(millis_clamped(e.duration@)) + "}"@,
        ),
{
    let t = episode_object(e);
    let a = "{\"start_label\":"@ + json_string(e.start_label@) + ",\"end_label\":"@;
    let n = json_optional(opt_text(e.end_label));
    let f = decimal(e.peak_shared_bytes as nat) + ",\"observations\":"@ + decimal(
        e.observations as nat,
    ) + ",\"duration_ms\":"@ + decimal(millis_clamped(e.duration@)) + "}"@;
    let g = ",\"peak_shared_bytes\":"@ + decimal(e.peak_shared_bytes as nat)
        + ",\"observations\":"@ + decimal(e.observations as nat) + ",\"duration_ms\":"@ + decimal(
        millis_clamped(e.duration@),
    ) + "}"@;
    assert(holds(t, a)) by {
        assert(t =~= seq![] + a + (n + g));
        lemma_holds(t, seq![], a, n + g);
    }
    assert(holds(t, g)) by {
        assert(t =~= (a + n) + g + seq![]);
        lemma_holds(t, a + n, g, seq![]);
    }
    let m = ",\"end_label\":"@ + n + ",\"peak_shared_bytes\":"@;
    let h = "{\"start_label\":"@ + json_string(e.start_label@);
    assert(holds(t, m)) by {
        assert(t =~= h + m + f);
        lemma_holds(t, h, m, f);
    }
}

/// The spill command prints JSON only where it was asked for, and then the report's, or
/// the one for a run without a tracker; and the report as text only where it was measured.
pub proof fn law_spill_output(report: Option<SpillReport>, json: bool, p: Printed)
    requires
        call_ensures(print_spill, (&report, json), p),
    ensures
        !json ==> p.stdout@ == Seq::<char>::empty(),
        json && report is Some ==> p.stdout@ == "{"@ + report_members(report->0) + "}\n"@,
        json && report is None ==> p.stdout@ == crate::cli::spill::SPILL_JSON_UNMEASURABLE@,
        report is Some && report->0.measurable ==> p.stderr@ == report_text(
            "hmn spill"@,
            report->0,
        ),
        report is Some && !report->0.measurable ==> p.stderr@
            == "hmn spill: spill not measurable on this platform\n"@,
        report is None ==> p.stderr@ == "hmn spill: spill not measurable (no tracker)\n"@,
{
}

// ---------------------------------------------------------------------------
// The watch
// ---------------------------------------------------------------------------

/// Under each heading of a sample stands the figure that the heading names.
pub proof fn law_sample_columns(r: WatchSampleRow)
    ensures
        watch_header().len() == 7 && watch_cells(r).len() == 7,
        watch_header()[0] == "PID"@ && watch_cells(r)[0] == decimal(r.pid as nat),
        watch_header()[1] == "NAME"@,
        r.name is Some ==> watch_cells(r)[1] == r.name->0@,
        r.name is None ==> watch_cells(r)[1] == "?"@,
        watch_header()[2] == "COMMITTED"@ && watch_cells(r)[2] == vram_text(r.used_bytes as nat),
        watch_header()[3] == "ΔCOMMIT"@ && watch_cells(r)[3] == delta_text(r.used_delta as int),
        watch_header()[4] == "SHARED"@ && watch_cells(r)[4] == vram_text(r.shared_bytes as nat),
        watch_header()[5] == "ΔSHARED"@ && watch_cells(r)[5] == delta_text(r.shared_delta as int),
        watch_header()[6] == "SPILL"@,
        r.spilling ==> watch_cells(r)[6] == "SPILL"@,
        !r.spilling ==> watch_cells(r)[6] == "no"@,
{
}

/// Under each heading of the closing summary stands the figure that the heading names.
pub proof fn law_summary_columns(p: WatchPidSummary)
    ensures
        per_pid_header().len() == 6 && per_pid_cells(p).len() == 6,
        per_pid_header()[0] == "PID"@ && per_pid_cells(p)[0] == decimal(p.pid as nat),
        per_pid_header()[1] == "NAME"@,
        p.name is Some ==> per_pid_cells(p)[1] == p.name->0@,
        p.name is None ==> per_pid_cells(p)[1] == "?"@,
        per_pid_header()[2] == "BASELINE COMMIT"@ && per_pid_cells(p)[2] == vram_text(
            p.baseline_used_bytes as nat,
        ),
        per_pid_header()[3] == "PEAK COMMIT"@ && per_pid_cells(p)[3] == vram_text(
            p.peak_used_bytes as nat,
        ),
        per_pid_header()[4] == "BASELINE SHARED"@ && per_pid_cells(p)[4] == vram_text(
            p.baseline_shared_bytes as nat,
        ),
        per_pid_header()[5] == "PEAK SHARED"@ && per_pid_cells(p)[5] == vram_text(
            p.peak_shared_bytes as nat,
        ),
{
}

/// The JSON object of a sample row has each figure under its own key.
#[verifier::rlimit(80)]
#[verifier::spinoff_prover]
pub proof fn law_sample_object(nanos: nat, r: WatchSampleRow)
    ensures
        holds(
            sample_object(nanos, r),
            "{\"kind\":\"sample\",\"t_ms\":"@ + decimal(millis_clamped(nanos)) + ",\"pid\":"@
                + decimal(r.pid as nat) + ",\"name\":"@,
        ),
        r.name is Some ==> holds(
            sample_object(nanos, r),
            ",\"name\":"@ + json_string(r.name->0@) + ",\"used_bytes\":"@,
        ),
        r.name is None ==> holds(
            sample_object(nanos, r),
            ",\"name\":"@ + "null"@ + ",\"used_bytes\":"@,
        ),
        holds(
            sample_object(nanos, r),
            ",\"used_bytes\":"@ + decimal(r.used_bytes as nat) + ",\"used_delta_bytes\":"@
                + signed_decimal(r.used_delta as int) + ",\"shared_used_bytes\":"@ + decimal(
                r.shared_bytes as nat,
            ) + ",\"shared_delta_bytes\":"@ + signed_decimal(r.shared_delta as int)
                + ",\"spilling\":"@ + json_bool(r.spilling) + "}\n"@,
        ),
{
    let t = sample_object(nanos, r);
    let k = "{\"kind\":\"sample\",\"t_ms\":"@ + decimal(millis_clamped(nanos)) + ",\"pid\":"@
        + decimal(r.pid as nat);
    let a = "{\"kind\":\"sample\",\"t_ms\":"@ + decimal(millis_clamped(nanos)) + ",\"pid\":"@
        + decimal(r.pid as nat) + ",\"name\":"@;
    let n = json_optional(opt_text(r.name));
    let rest = ",\"used_delta_bytes\":"@ + signed_decimal(r.used_delta as int)
        + ",\"shared_used_bytes\":"@ + decimal(r.shared_bytes as nat)
        + ",\"shared_delta_bytes\":"@ + signed_decimal(r.shared_delta as int)
        + ",\"spilling\":"@ + json_bool(r.spilling) + "}\n"@;
    let f = ",\"used_bytes\":"@ + decimal(r.used_bytes as nat) + ",\"used_delta_bytes\":"@
        + signed_decimal(r.used_delta as int) + ",\"shared_used_bytes\":"@ + decimal(
        r.shared_bytes as nat,
    ) + ",\"shared_delta_bytes\":"@ + signed_decimal(r.shared_delta as int)
        + ",\"spilling\":"@ + json_bool(r.spilling) + "}\n"@;
    assert(holds(t, a)) by {
        assert(t =~= seq![] + a + (n + f));
        lemma_holds(t, seq![], a, n + f);
    }
    assert(holds(t, f)) by {
        assert(t =~= (a + n) + f + seq![]);
        lemma_holds(t, a + n, f, seq![]);
    }
    let m = ",\"name\":"@ + n + ",\"used_bytes\":"@;
    assert(holds(t, m)) by {
        assert(t =~= k + m + (decimal(r.used_bytes as nat) + rest));
        lemma_holds(t, k, m, decimal(r.used_bytes as nat) + rest);
    }
}

/// The JSON object of the summary of a process has each figure under its own key.
#[verifier::rlimit(80)]
#[verifier::spinoff_prover]
pub proof fn law_summary_object(p: WatchPidSummary)
    ensures
        holds(per_pid_object(p), "{\"pid\":"@ + decimal(p.pid as nat) + ",\"name\":"@),
        p.name is Some ==> holds(
            per_pid_object(p),
            ",\"name\":"@ + json_string(p.name->0@) + ",\"baseline_used_bytes\":"@,
        ),
        p.name is None ==> holds(
            per_pid_object(p),
            ",\"name\":"@ + "null"@ + ",\"baseline_used_bytes\":"@,
        ),
        holds(
            per_pid_object(p),
            ",\"baseline_used_bytes\":"@ + decimal(p.baseline_used_bytes as nat)
                + ",\"peak_used_bytes\":"@ + decimal(p.peak_used_bytes as nat)
                + ",\"baseline_shared_bytes\":"@ + decimal(p.baseline_shared_bytes as nat)
                + ",\"peak_shared_bytes\":"@ + decimal(p.peak_shared_bytes as nat) + "}"@,
        ),
{
    let t = per_pid_object(p);
    let k = "{\"pid\":"@ + decimal(p.pid as nat);
    let a = "{\"pid\":"@ + decimal(p.pid as nat) + ",\"name\":"@;
    let n = json_optional(opt_text(p.name));
    let rest = ",\"peak_used_bytes\":"@ + decimal(p.peak_used_bytes as nat)
        + ",\"baseline_shared_bytes\":"@ + decimal(p.baseline_shared_bytes as nat)
        + ",\"peak_shared_bytes\":"@ + decimal(p.peak_shared_bytes as nat) + "}"@;
    let f = ",\"baseline_used_bytes\":"@ + decimal(p.baseline_used_bytes as nat)
        + ",\"peak_used_bytes\":"@ + decimal(p.peak_used_bytes as nat)
        + ",\"baseline_shared_bytes\":"@ + decimal(p.baseline_shared_bytes as nat)
        + ",\"peak_shared_bytes\":"@ + decimal(p.peak_shared_bytes as nat) + "}"@;
    assert(holds(t, a)) by {
        assert(t =~= seq![] + a + (n + f));
        lemma_holds(t, seq![], a, n + f);
    }
    assert(holds(t, f)) by {
        assert(t =~= (a + n) + f + seq![]);
        lemma_holds(t, a + n, f, seq![]);
    }
    let m = ",\"name\":"@ + n + ",\"baseline_used_bytes\":"@;
    assert(holds(t, m)) by {
        assert(t =~= k + m + (decimal(p.baseline_used_bytes as nat) + rest));
        lemma_holds(t, k, m, decimal(p.baseline_used_bytes as nat) + rest);
    }
}

// ---------------------------------------------------------------------------
// Lists
// ---------------------------------------------------------------------------

pub proof fn lemma_joined_holds(parts: Seq<Seq<char>>, sep: Seq<char>, i: int)
    requires
        0 <= i < parts.len(),
    ensures
        holds(joined(parts, sep), parts[i]),
    decreases parts.len(),
{
    let t = joined(parts, sep);
    if parts.len() == 1 {
        assert(t =~= seq![] + parts[i] + seq![]);
        lemma_holds(t, seq![], parts[i], seq![]);
    } else if i == parts.len() - 1 {
        assert(t =~= (joined(parts.drop_last(), sep) + sep) + parts[i] + seq![]);
        lemma_holds(t, joined(parts.drop_last(), sep) + sep, parts[i], seq![]);
    } else {
        let init = joined(parts.drop_last(), sep);
        lemma_joined_holds(parts.drop_last(), sep, i);
        assert(t =~= seq![] + init + (sep + parts.last()));
        lemma_holds(t, seq![], init, sep + parts.last());
        lemma_holds_more(t, init, parts[i]);
    }
}

proof fn lemma_lines_hold(
    prefix: Seq<char>,
    rows: Seq<Seq<Seq<char>>>,
    widths: Seq<nat>,
    n: nat,
    i: int,
)
    requires
        0 <= i < n,
    ensures
        holds(lines_text(prefix, rows, widths, n), row_line(prefix, rows[i], widths)),
    decreases n,
{
    let t = lines_text(prefix, rows, widths, n);
    let before = lines_text(prefix, rows, widths, (n - 1) as nat);
    let last = row_line(prefix, rows[n - 1], widths);
    if i == n - 1 {
        assert(t =~= before + last + seq![]);
        lemma_holds(t, before, last, seq![]);
    } else {
        lemma_lines_hold(prefix, rows, widths, (n - 1) as nat, i);
        assert(t =~= seq![] + before + last);
        lemma_holds(t, seq![], before, last);
        lemma_holds_more(t, before, row_line(prefix, rows[i], widths));
    }
}

/// Every row of a listing has its line in the table and its object in the JSON array.
#[verifier::rlimit(80)]
#[verifier::spinoff_prover]
pub proof fn law_listing_has_every_row(rows: Seq<PsRow>, i: int)
    requires
        0 <= i < rows.len(),
    ensures
        holds(
            ps_table(rows),
            row_line(""@, ps_cells(rows[i]), widths_of(ps_header(), ps_grid(rows))),
        ),
        holds(ps_json(rows), ps_object(rows[i])),
{
    let widths = widths_of(ps_header(), ps_grid(rows));
    let head = row_line(""@, ps_header(), widths);
    let body = lines_text(""@, ps_grid(rows), widths, rows.len());
    lemma_lines_hold(""@, ps_grid(rows), widths, rows.len(), i);
    assert(ps_table(rows) =~= head + body + seq![]);
    lemma_holds(ps_table(rows), head, body, seq![]);
    assert(ps_grid(rows)[i] == ps_cells(rows[i]));
    lemma_holds_more(ps_table(rows), body, row_line(""@, ps_cells(rows[i]), widths));
    let objects = rows.map_values(|r: PsRow| ps_object(r));
    lemma_joined_holds(objects, ","@, i);
    lemma_holds(ps_json(rows), "["@, joined(objects, ","@), "]\n"@);
    assert(objects[i] == ps_object(rows[i]));
    lemma_holds_more(ps_json(rows), joined(objects, ","@), ps_object(rows[i]));
}

proof fn lemma_device_object_at(snaps: Seq<Snapshot>, i: int) -> (k: int)
    requires
        0 <= i < snaps.len(),
        snaps[i].gpu_device is Some,
    ensures
        0 <= k < device_objects(snaps).len(),
        device_objects(snaps)[k] == device_object(snaps[i].gpu_device->0),
    decreases snaps.len(),
{
    if i == snaps.len() - 1 {
        device_objects(snaps).len() - 1
    } else {
        lemma_device_object_at(snaps.drop_last(), i)
    }
}

/// Every device that was read has its object in the JSON array of the summary.
pub proof fn law_summary_json_has_every_device(snaps: Seq<Snapshot>, i: int)
    requires
        0 <= i < snaps.len(),
        snaps[i].gpu_device is Some,
    ensures
        holds(summary_json(snaps), device_object(snaps[i].gpu_device->0)),
{
    let k = lemma_device_object_at(snaps, i);
    let all = device_objects(snaps);
    lemma_joined_holds(all, ","@, k);
    lemma_holds(summary_json(snaps), "["@, joined(all, ","@), "]\n"@);
    lemma_holds_more(summary_json(snaps), joined(all, ","@), all[k]);
}

/// Every row of a sample has its line in the text, behind the time of the sample, and its
/// object among the JSON lines.
pub proof fn law_sample_has_every_row(nanos: nat, rows: Seq<WatchSampleRow>, i: int)
    requires
        0 <= i < rows.len(),
    ensures
        holds(
            watch_rows_text(nanos, rows),
            row_line(
                padded(elapsed_label_text(nanos), 8) + "  "@,
                watch_cells(rows[i]),
                widths_of(watch_header(), watch_grid(rows)),
            ),
        ),
        holds(watch_rows_json(nanos, rows), sample_object(nanos, rows[i])),
{
    let widths = widths_of(watch_header(), watch_grid(rows));
    let prefix = padded(elapsed_label_text(nanos), 8) + "  "@;
    lemma_lines_hold(prefix, watch_grid(rows), widths, rows.len(), i);
    assert(watch_grid(rows)[i] == watch_cells(rows[i]));
    lemma_sample_lines(nanos, rows, i);
}

proof fn lemma_sample_lines(nanos: nat, rows: Seq<WatchSampleRow>, i: int)
    requires
        0 <= i < rows.len(),
    ensures
        holds(watch_rows_json(nanos, rows), sample_object(nanos, rows[i])),
    decreases rows.len(),
{
    let t = watch_rows_json(nanos, rows);
    let before = watch_rows_json(nanos, rows.drop_last());
    let last = sample_object(nanos, rows.last());
    if i == rows.len() - 1 {
        assert(t =~= before + last + seq![]);
        lemma_holds(t, before, last, seq![]);
    } else {
        lemma_sample_lines(nanos, rows.drop_last(), i);
        assert(t =~= seq![] + before + last);
        lemma_holds(t, seq![], before, last);
        lemma_holds_more(t, before, sample_object(nanos, rows[i]));
    }
}

/// The closing summary holds the report, where there is one, and a line or an object for
/// every process.
#[verifier::rlimit(80)]
#[verifier::spinoff_prover]
pub proof fn law_closing_summary(report: Option<SpillReport>, per_pid: Seq<WatchPidSummary>, i: int)
    requires
        0 <= i < per_pid.len(),
    ensures
        report is Some ==> holds(
            watch_summary_text(report, per_pid),
            report_text("hmn watch"@, report->0),
        ),
        report is Some ==> holds(watch_summary_json(report, per_pid), report_members(report->0)),
        holds(
            watch_summary_text(report, per_pid),
            row_line(
                "                    "@,
                per_pid_cells(per_pid[i]),
                widths_of(per_pid_header(), per_pid_grid(per_pid)),
            ),
        ),
        holds(watch_summary_json(report, per_pid), per_pid_object(per_pid[i])),
{
    let t = watch_summary_text(report, per_pid);
    let block = per_pid_block(per_pid);
    let head = match report {
        Some(r) => report_text("hmn watch"@, r),
        None => "hmn watch: spill tracking unavailable for this run; per-PID VRAM below\n"@,
    };
    assert(t == head + block);
    assert(holds(t, head)) by {
        assert(t =~= seq![] + head + block);
        lemma_holds(t, seq![], head, block);
    }
    let widths = widths_of(per_pid_header(), per_pid_grid(per_pid));
    let blanks = "                    "@;
    let top = row_line("hmn watch: per-PID  "@, per_pid_header(), widths);
    let body = lines_text(blanks, per_pid_grid(per_pid), widths, per_pid.len());
    let line = row_line(blanks, per_pid_cells(per_pid[i]), widths);
    assert(holds(t, line)) by {
        lemma_lines_hold(blanks, per_pid_grid(per_pid), widths, per_pid.len(), i);
        assert(per_pid_grid(per_pid)[i] == per_pid_cells(per_pid[i]));
        assert(t =~= (head + top) + body + seq![]);
        lemma_holds(t, head + top, body, seq![]);
        lemma_holds_more(t, body, line);
    }
    let j = watch_summary_json(report, per_pid);
    let members = match report {
        Some(r) => report_members(r),
        None => crate::cli::spill::UNMEASURABLE_MEMBERS@,
    };
    let objects = per_pid.map_values(|p: WatchPidSummary| per_pid_object(p));
    let all = joined(objects, ","@);
    assert(holds(j, members)) by {
        assert(j =~= "{\"kind\":\"summary\","@ + members + (",\"per_pid\":["@ + all + "]}\n"@));
        lemma_holds(
            j,
            "{\"kind\":\"summary\","@,
            members,
            ",\"per_pid\":["@ + all + "]}\n"@,
        );
    }
    assert(holds(j, per_pid_object(per_pid[i]))) by {
        lemma_holds(
            j,
            "{\"kind\":\"summary\","@ + members + ",\"per_pid\":["@,
            all,
            "]}\n"@,
        );
        lemma_joined_holds(objects, ","@, i);
        assert(objects[i] == per_pid_object(per_pid[i]));
        lemma_holds_more(j, all, objects[i]);
    }
}

/// The report as JSON holds the object of every episode.
#[verifier::rlimit(80)]
#[verifier::spinoff_prover]
pub proof fn law_report_has_every_episode(r: SpillReport, i: int)
    requires
        0 <= i < r.episodes@.len(),
    ensures
        holds(report_members(r), episode_object(r.episodes@[i])),
        holds(report_json(r), episode_object(r.episodes@[i])),
{
    let objects = r.episodes@.map_values(|e: SpillEpisode| episode_object(e));
    let all = joined(objects, ","@);
    let list = episodes_json(r.episodes@);
    let m = report_members(r);
    lemma_joined_holds(objects, ","@, i);
    assert(objects[i] == episode_object(r.episodes@[i]));
    lemma_holds(list, "["@, all, "]"@);
    lemma_holds_more(list, all, objects[i]);
    let head = "\"measurable\":"@ + json_bool(r.measurable) + ",\"spilled\":"@ + json_bool(
        r.episodes@.len() > 0,
    ) + ",\"observations\":"@ + decimal(r.observations as nat) + ",\"baseline_shared_bytes\":"@
        + decimal(r.baseline_shared_bytes as nat) + ",\"peak_shared_bytes\":"@ + decimal(
        r.peak_shared_bytes as nat,
    ) + ",\"peak_dedicated_bytes\":"@ + decimal(r.peak_dedicated_bytes as nat)
        + ",\"dedicated_limit_bytes\":"@ + decimal(r.dedicated_limit_bytes as nat)
        + ",\"total_spill_duration_ms\":"@ + decimal(millis_clamped(total_nanos(r.episodes@)))
        + ",\"episodes\":"@;
    assert(m == head + list);
    assert(m =~= head + list + seq![]);
    lemma_holds(m, head, list, seq![]);
    lemma_holds_more(m, list, objects[i]);
    lemma_holds(report_json(r), "{"@, m, "}\n"@);
    lemma_holds_more(report_json(r), m, objects[i]);
}

} // verus!
