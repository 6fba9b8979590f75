//! Process RAM and GPU memory measurement: models, decisions and rendering.
//!
//! The library holds everything between the raw answers of the operating system and the
//! text on the screen. It makes no call into a driver or a system library itself: each
//! backend function takes what those calls returned.
pub mod builders;
pub mod cli;
pub mod error;
pub mod forge;
pub mod gpu;
pub mod json;
pub mod number;
pub mod ram;
pub mod report;
pub mod rounding;
pub mod snapshot;
pub mod snapshot_laws;
pub mod sort;
pub mod spill;
pub mod spill_laws;
pub mod table;
pub mod text;
pub mod text_laws;
pub mod time;
pub mod tracker;
pub mod units;
pub mod units_laws;
pub mod utf;

pub use builders::{GpuDeviceInfoBuilder, GpuProcessEntryBuilder, SpillReportBuilder};
pub use error::{HypomnesisError, Result};
pub use gpu::{device_count, device_info, gpu_processes, process_gpu_info};
pub use ram::process_rss;
pub use report::MemoryReport;
pub use snapshot::{GpuDeviceInfo, GpuProcessEntry, GpuQuerySource, ProcessGpuInfo, Snapshot};
pub use spill::{SpillEpisode, SpillReport};
pub use time::Duration;
pub use tracker::{is_spill_measurable, SpillTracker};
