//! The difference between two snapshots, and its rendering.
use crate::number::decimal;
use crate::snapshot::{bracketed, push_bracketed, ProcessGpuInfo, Snapshot};
use crate::text::opt_text;
use crate::units::{mib_delta_text, mib_nearest, push_mib_delta, push_mib_nearest};
use vstd::prelude::*;

verus! {

/// Two snapshots, before and after an operation.
#[derive(Debug)]
pub struct MemoryReport {
    /// The snapshot before the operation.
    pub before: Snapshot,
    /// The snapshot after the operation.
    pub after: Snapshot,
}

impl Clone for MemoryReport {
    fn clone(&self) -> (r: Self)
        ensures
            r == *self,
    {
        MemoryReport { before: self.before.clone(), after: self.after.clone() }
    }
}

/// The note on what a GPU figure covers.
pub open spec fn scope_note(gpu: Option<ProcessGpuInfo>) -> Seq<char> {
    match gpu {
        Some(g) => if g.is_per_process {
            " [per-process]"@
        } else {
            " [device-wide]"@
        },
        None => ""@,
    }
}

impl MemoryReport {
    /// A report from two snapshots.
    pub fn new(before: Snapshot, after: Snapshot) -> (r: MemoryReport)
        ensures
            r == (MemoryReport { before, after }),
    {
        MemoryReport { before, after }
    }

    /// The note on what the GPU figure of the later snapshot covers.
    pub fn vram_qualifier(&self) -> (s: &'static str)
        ensures
            s@ == scope_note(self.after.gpu),
    {
        match &self.after.gpu {
            Some(g) => if g.is_per_process {
                " [per-process]"
            } else {
                " [device-wide]"
            },
            None => "",
        }
    }

    /// The one-line text of the differences; the VRAM part only where both snapshots
    /// have a figure.
    pub open spec fn delta_line(self, label: Seq<char>) -> Seq<char> {
        let ram = "  "@ + label + ": RAM "@ + mib_delta_text(
            self.before.ram_bytes as nat,
            self.after.ram_bytes as nat,
        );
        match (self.before.gpu, self.after.gpu) {
            (Some(b), Some(a)) => ram + " MB  |  VRAM "@ + mib_delta_text(
                b.used_bytes as nat,
                a.used_bytes as nat,
            ) + " MB"@ + scope_note(self.after.gpu) + "\n"@,
            _ => ram + " MB\n"@,
        }
    }

    /// The differences as one line: `  label: RAM +12 MB  |  VRAM +300 MB [per-process]`.
    pub fn format_delta(&self, label: &str) -> (s: String)
        ensures
            s@ == self.delta_line(label@),
    {
        let mut s = String::from_str("  ");
        s.append(label);
        s.append(": RAM ");
        push_mib_delta(&mut s, self.before.ram_bytes, self.after.ram_bytes);
        match (&self.before.gpu, &self.after.gpu) {
            (Some(b), Some(a)) => {
                s.append(" MB  |  VRAM ");
                push_mib_delta(&mut s, b.used_bytes, a.used_bytes);
                s.append(" MB");
                s.append(self.vram_qualifier());
                s.append("\n");
            },
            _ => {
                s.append(" MB\n");
            },
        }
        s
    }

    /// The RAM line of the before-and-after text.
    pub open spec fn ram_line(self, label: Seq<char>) -> Seq<char> {
        "  "@ + label + ": RAM "@ + decimal(mib_nearest(self.before.ram_bytes as nat)) + " MB → "@
            + decimal(mib_nearest(self.after.ram_bytes as nat)) + " MB ("@ + mib_delta_text(
            self.before.ram_bytes as nat,
            self.after.ram_bytes as nat,
        ) + " MB)\n"@
    }

    /// The capacity part of the VRAM line.
    pub open spec fn capacity_part(self) -> Seq<char> {
        match self.after.gpu_device {
            Some(d) => " / "@ + decimal(mib_nearest(d.total_bytes as nat)) + " MB"@,
            None => seq![],
        }
    }

    /// The adapter name of the later snapshot.
    pub open spec fn adapter_name(self) -> Option<Seq<char>> {
        match self.after.gpu_device {
            Some(d) => opt_text(d.name),
            None => None,
        }
    }

    /// The VRAM line of the before-and-after text.
    pub open spec fn vram_line(self, label: Seq<char>, before: nat, after: nat) -> Seq<char> {
        "  "@ + label + ": VRAM "@ + decimal(mib_nearest(before)) + " MB → "@ + decimal(
            mib_nearest(after),
        ) + " MB ("@ + mib_delta_text(before, after) + " MB"@ + self.capacity_part() + ")"@
            + scope_note(self.after.gpu) + bracketed(self.adapter_name()) + "\n"@
    }

    /// The before-and-after text: the RAM line, and the VRAM line where both snapshots
    /// have a figure.
    pub open spec fn before_after_text(self, label: Seq<char>) -> Seq<char> {
        match (self.before.gpu, self.after.gpu) {
            (Some(b), Some(a)) => self.ram_line(label) + self.vram_line(
                label,
                b.used_bytes as nat,
                a.used_bytes as nat,
            ),
            _ => self.ram_line(label),
        }
    }

    fn ram_line_string(&self, label: &str) -> (s: String)
        ensures
            s@ == self.ram_line(label@),
    {
        let mut s = String::from_str("  ");
        s.append(label);
        s.append(": RAM ");
        push_mib_nearest(&mut s, self.before.ram_bytes);
        s.append(" MB → ");
        push_mib_nearest(&mut s, self.after.ram_bytes);
        s.append(" MB (");
        push_mib_delta(&mut s, self.before.ram_bytes, self.after.ram_bytes);
        s.append(" MB)\n");
        s
    }

    fn vram_line_string(&self, label: &str, before: u64, after: u64) -> (s: String)
        ensures
            s@ == self.vram_line(label@, before as nat, after as nat),
    {
        let mut s = String::from_str("  ");
        s.append(label);
        s.append(": VRAM ");
        push_mib_nearest(&mut s, before);
        s.append(" MB → ");
        push_mib_nearest(&mut s, after);
        s.append(" MB (");
        push_mib_delta(&mut s, before, after);
        s.append(" MB");
        let ghost head = s@;
        match &self.after.gpu_device {
            Some(d) => {
                s.append(" / ");
                push_mib_nearest(&mut s, d.total_bytes);
                s.append(" MB");
            },
            None => {},
        }
        assert(s@ =~= head + self.capacity_part());
        s.append(")");
        s.append(self.vram_qualifier());
        let ghost head = s@;
        match &self.after.gpu_device {
            Some(d) => {
                push_bracketed(&mut s, &d.name);
            },
            None => {},
        }
        assert(s@ =~= head + bracketed(self.adapter_name()));
        s.append("\n");
        s
    }

    /// The figures before and after: one line for RAM and, where both snapshots have a
    /// figure, one for VRAM.
    pub fn format_before_after(&self, label: &str) -> (s: String)
        ensures
            s@ == self.before_after_text(label@),
    {
        let mut s = self.ram_line_string(label);
        match (&self.before.gpu, &self.after.gpu) {
            (Some(b), Some(a)) => {
                let line = self.vram_line_string(label, b.used_bytes, a.used_bytes);
                s.append(line.as_str());
            },
            _ => {},
        }
        s
    }
}

} // verus!
