//! Builders for synthetic values, for tests of code that consumes them.
use crate::snapshot::{GpuDeviceInfo, GpuProcessEntry, GpuQuerySource};
use crate::spill::{SpillEpisode, SpillReport};
use crate::time::Duration;
use vstd::prelude::*;

verus! {

/// Builder of a device. Everything starts as zero or absent.
#[derive(Debug)]
pub struct GpuDeviceInfoBuilder {
    /// The device so far.
    pub value: GpuDeviceInfo,
}

impl Clone for GpuDeviceInfoBuilder {
    fn clone(&self) -> (r: Self)
        ensures
            r == *self,
    {
        GpuDeviceInfoBuilder { value: self.value.clone() }
    }
}

impl Default for GpuDeviceInfoBuilder {
    fn default() -> (b: Self)
        ensures
            b.value == (GpuDeviceInfo {
                index: 0,
                name: None,
                total_bytes: 0,
                free_bytes: 0,
                used_bytes: 0,
                reserved_bytes: None,
                driver_version: None,
            }),
    {
        GpuDeviceInfoBuilder {
            value: GpuDeviceInfo {
                index: 0,
                name: None,
                total_bytes: 0,
                free_bytes: 0,
                used_bytes: 0,
                reserved_bytes: None,
                driver_version: None,
            },
        }
    }
}

impl GpuDeviceInfo {
    /// A builder with every field zero or absent.
    pub fn builder() -> (b: GpuDeviceInfoBuilder)
        ensures
            b.value == (GpuDeviceInfo {
                index: 0,
                name: None,
                total_bytes: 0,
                free_bytes: 0,
                used_bytes: 0,
                reserved_bytes: None,
                driver_version: None,
            }),
    {
        GpuDeviceInfoBuilder::default()
    }
}

impl GpuDeviceInfoBuilder {
    /// Set the index.
    pub fn index(self, index: u32) -> (b: GpuDeviceInfoBuilder)
        ensures
            b.value == (GpuDeviceInfo { index, ..self.value }),
    {
        GpuDeviceInfoBuilder { value: GpuDeviceInfo { index, ..self.value } }
    }

    /// Set the name.
    pub fn name(self, name: Option<String>) -> (b: GpuDeviceInfoBuilder)
        ensures
            b.value == (GpuDeviceInfo { name, ..self.value }),
    {
        GpuDeviceInfoBuilder { value: GpuDeviceInfo { name, ..self.value } }
    }

    /// Set the total memory.
    pub fn total_bytes(self, total: u64) -> (b: GpuDeviceInfoBuilder)
        ensures
            b.value == (GpuDeviceInfo { total_bytes: total, ..self.value }),
    {
        GpuDeviceInfoBuilder { value: GpuDeviceInfo { total_bytes: total, ..self.value } }
    }

    /// Set the free memory.
    pub fn free_bytes(self, free: u64) -> (b: GpuDeviceInfoBuilder)
        ensures
            b.value == (GpuDeviceInfo { free_bytes: free, ..self.value }),
    {
        GpuDeviceInfoBuilder { value: GpuDeviceInfo { free_bytes: free, ..self.value } }
    }

    /// Set the used memory.
    pub fn used_bytes(self, used: u64) -> (b: GpuDeviceInfoBuilder)
        ensures
            b.value == (GpuDeviceInfo { used_bytes: used, ..self.value }),
    {
        GpuDeviceInfoBuilder { value: GpuDeviceInfo { used_bytes: used, ..self.value } }
    }

    /// Set the reserved memory.
    pub fn reserved_bytes(self, reserved: Option<u64>) -> (b: GpuDeviceInfoBuilder)
        ensures
            b.value == (GpuDeviceInfo { reserved_bytes: reserved, ..self.value }),
    {
        GpuDeviceInfoBuilder { value: GpuDeviceInfo { reserved_bytes: reserved, ..self.value } }
    }

    /// Set the driver version.
    pub fn driver_version(self, version: Option<String>) -> (b: GpuDeviceInfoBuilder)
        ensures
            b.value == (GpuDeviceInfo { driver_version: version, ..self.value }),
    {
        GpuDeviceInfoBuilder { value: GpuDeviceInfo { driver_version: version, ..self.value } }
    }

    /// The device.
    pub fn build(self) -> (d: GpuDeviceInfo)
        ensures
            d == self.value,
    {
        self.value
    }
}

/// Builder of a process entry. Everything starts as zero or absent, with the performance
/// counters as source.
#[derive(Debug)]
pub struct GpuProcessEntryBuilder {
    /// The entry so far.
    pub value: GpuProcessEntry,
}

impl Clone for GpuProcessEntryBuilder {
    fn clone(&self) -> (r: Self)
        ensures
            r == *self,
    {
        GpuProcessEntryBuilder { value: self.value.clone() }
    }
}

impl Default for GpuProcessEntryBuilder {
    fn default() -> (b: Self)
        ensures
            b.value == (GpuProcessEntry {
                pid: 0,
                name: None,
                used_bytes: 0,
                shared_used_bytes: 0,
                source: GpuQuerySource::Pdh,
            }),
    {
        GpuProcessEntryBuilder {
            value: GpuProcessEntry {
                pid: 0,
                name: None,
                used_bytes: 0,
                shared_used_bytes: 0,
                source: GpuQuerySource::Pdh,
            },
        }
    }
}

impl GpuProcessEntry {
    /// A builder with every field zero or absent, and the performance counters as source.
    pub fn builder() -> (b: GpuProcessEntryBuilder)
        ensures
            b.value == (GpuProcessEntry {
                pid: 0,
                name: None,
                used_bytes: 0,
                shared_used_bytes: 0,
                source: GpuQuerySource::Pdh,
            }),
    {
        GpuProcessEntryBuilder::default()
    }
}

impl GpuProcessEntryBuilder {
    /// Set the process ID.
    pub fn pid(self, pid: u32) -> (b: GpuProcessEntryBuilder)
        ensures
            b.value == (GpuProcessEntry { pid, ..self.value }),
    {
        GpuProcessEntryBuilder { value: GpuProcessEntry { pid, ..self.value } }
    }

    /// Set the name.
    pub fn name(self, name: Option<String>) -> (b: GpuProcessEntryBuilder)
        ensures
            b.value == (GpuProcessEntry { name, ..self.value }),
    {
        GpuProcessEntryBuilder { value: GpuProcessEntry { name, ..self.value } }
    }

    /// Set the GPU memory.
    pub fn used_bytes(self, used_bytes: u64) -> (b: GpuProcessEntryBuilder)
        ensures
            b.value == (GpuProcessEntry { used_bytes, ..self.value }),
    {
        GpuProcessEntryBuilder { value: GpuProcessEntry { used_bytes, ..self.value } }
    }

    /// Set the shared memory.
    pub fn shared_used_bytes(self, shared_used_bytes: u64) -> (b: GpuProcessEntryBuilder)
        ensures
            b.value == (GpuProcessEntry { shared_used_bytes, ..self.value }),
    {
        GpuProcessEntryBuilder { value: GpuProcessEntry { shared_used_bytes, ..self.value } }
    }

    /// Set the source.
    pub fn source(self, source: GpuQuerySource) -> (b: GpuProcessEntryBuilder)
        ensures
            b.value == (GpuProcessEntry { source, ..self.value }),
    {
        GpuProcessEntryBuilder { value: GpuProcessEntry { source, ..self.value } }
    }

    /// The entry.
    pub fn build(self) -> (e: GpuProcessEntry)
        ensures
            e == self.value,
    {
        self.value
    }
}

/// Builder of a spill report. Everything starts as zero, empty or false.
#[derive(Debug)]
pub struct SpillReportBuilder {
    /// The report so far.
    pub value: SpillReport,
}

impl Clone for SpillReportBuilder {
    fn clone(&self) -> (r: Self)
        ensures
            r.value.episodes@ == self.value.episodes@,
            r.value == (SpillReport { episodes: r.value.episodes, ..self.value }),
    {
        SpillReportBuilder { value: self.value.clone() }
    }
}

impl Default for SpillReportBuilder {
    fn default() -> (b: Self)
        ensures
            b.value.episodes@.len() == 0,
            b.value.peak_dedicated_bytes == 0,
            b.value.dedicated_limit_bytes == 0,
            b.value.peak_shared_bytes == 0,
            b.value.baseline_shared_bytes == 0,
            b.value.observations == 0,
            !b.value.measurable,
    {
        SpillReportBuilder {
            value: SpillReport {
                episodes: Vec::new(),
                peak_dedicated_bytes: 0,
                dedicated_limit_bytes: 0,
                peak_shared_bytes: 0,
                baseline_shared_bytes: 0,
                observations: 0,
                measurable: false,
            },
        }
    }
}

impl SpillReport {
    /// A builder with every field zero, empty or false.
    pub fn builder() -> (b: SpillReportBuilder)
        ensures
            b.value.episodes@.len() == 0,
            b.value.peak_dedicated_bytes == 0,
            b.value.dedicated_limit_bytes == 0,
            b.value.peak_shared_bytes == 0,
            b.value.baseline_shared_bytes == 0,
            b.value.observations == 0,
            !b.value.measurable,
    {
        SpillReportBuilder::default()
    }
}

impl SpillReportBuilder {
    /// Set the highest dedicated reading.
    pub fn peak_dedicated_bytes(self, bytes: u64) -> (b: SpillReportBuilder)
        ensures
            b.value == (SpillReport { peak_dedicated_bytes: bytes, ..self.value }),
    {
        SpillReportBuilder { value: SpillReport { peak_dedicated_bytes: bytes, ..self.value } }
    }

    /// Set the dedicated capacity.
    pub fn dedicated_limit_bytes(self, bytes: u64) -> (b: SpillReportBuilder)
        ensures
            b.value == (SpillReport { dedicated_limit_bytes: bytes, ..self.value }),
    {
        SpillReportBuilder { value: SpillReport { dedicated_limit_bytes: bytes, ..self.value } }
    }

    /// Set the highest shared reading.
    pub fn peak_shared_bytes(self, bytes: u64) -> (b: SpillReportBuilder)
        ensures
            b.value == (SpillReport { peak_shared_bytes: bytes, ..self.value }),
    {
        SpillReportBuilder { value: SpillReport { peak_shared_bytes: bytes, ..self.value } }
    }

    /// Set the first shared reading.
    pub fn baseline_shared_bytes(self, bytes: u64) -> (b: SpillReportBuilder)
        ensures
            b.value == (SpillReport { baseline_shared_bytes: bytes, ..self.value }),
    {
        SpillReportBuilder { value: SpillReport { baseline_shared_bytes: bytes, ..self.value } }
    }

    /// Set the number of observations.
    pub fn observations(self, n: usize) -> (b: SpillReportBuilder)
        ensures
            b.value == (SpillReport { observations: n, ..self.value }),
    {
        SpillReportBuilder { value: SpillReport { observations: n, ..self.value } }
    }

    /// Set whether there was a source of measurements.
    pub fn measurable(self, measurable: bool) -> (b: SpillReportBuilder)
        ensures
            b.value == (SpillReport { measurable, ..self.value }),
    {
        SpillReportBuilder { value: SpillReport { measurable, ..self.value } }
    }

    /// Append an episode; without an end label it was still going on at the end.
    pub fn episode(
        self,
        start_label: &str,
        end_label: Option<&str>,
        peak_shared_bytes: u64,
        observations: usize,
        duration: Duration,
    ) -> (b: SpillReportBuilder)
        ensures
            b.value == (SpillReport { episodes: b.value.episodes, ..self.value }),
            b.value.episodes@.len() == self.value.episodes@.len() + 1,
            b.value.episodes@.drop_last() == self.value.episodes@,
            ({
                let e = b.value.episodes@.last();
                &&& e.start_label@ == start_label@
                &&& match end_label {
                    Some(l) => e.end_label matches Some(m) && m@ == l@,
                    None => e.end_label is None,
                }
                &&& e.peak_shared_bytes == peak_shared_bytes
                &&& e.observations == observations
                &&& e.duration == duration
            }),
    {
        let mut value = self.value;
        let end_label = match end_label {
            Some(l) => Some(String::from_str(l)),
            None => None,
        };
        value.episodes.push(
            SpillEpisode {
                start_label: String::from_str(start_label),
                end_label,
                peak_shared_bytes,
                observations,
                duration,
            },
        );
        assert(value.episodes@.drop_last() =~= self.value.episodes@);
        SpillReportBuilder { value }
    }

    /// The report.
    pub fn build(self) -> (r: SpillReport)
        ensures
            r == self.value,
    {
        self.value
    }
}

} // verus!
