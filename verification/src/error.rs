//! Errors of the measurement functions.
use crate::number::{decimal, push_decimal};
use vstd::prelude::*;

verus! {

/// Why a measurement failed.
#[non_exhaustive]
#[derive(Debug)]
pub enum HypomnesisError {
    /// The RAM query of the platform failed.
    Ram(String),
    /// An NVML call failed.
    Nvml(String),
    /// A DXGI call failed.
    Dxgi(String),
    /// A PDH call failed.
    Pdh(String),
    /// `nvidia-smi` could not be run, or its output could not be read.
    NvidiaSmi(String),
    /// The device index is not below the number of devices.
    DeviceIndexOutOfRange {
        /// The index that was asked for.
        index: u32,
        /// The number of devices.
        count: u32,
    },
    /// No backend gave a GPU measurement.
    NoGpuSource,
    /// An I/O operation failed; the text is that of the system's error.
    Io(String),
}

/// The result of a measurement.
pub type Result<T> = std::result::Result<T, HypomnesisError>;

/// What an error says.
pub open spec fn error_text(e: HypomnesisError) -> Seq<char> {
    match e {
        HypomnesisError::Ram(m) => "RAM query failed: "@ + m@,
        HypomnesisError::Nvml(m) => "NVML error: "@ + m@,
        HypomnesisError::Dxgi(m) => "DXGI error: "@ + m@,
        HypomnesisError::Pdh(m) => "PDH error: "@ + m@,
        HypomnesisError::NvidiaSmi(m) => "nvidia-smi error: "@ + m@,
        HypomnesisError::DeviceIndexOutOfRange { index, count } => "device index "@ + decimal(
            index as nat,
        ) + " out of range (have "@ + decimal(count as nat) + " devices)"@,
        HypomnesisError::NoGpuSource =>
            "no GPU measurement source available (NVML, DXGI, PDH, and nvidia-smi all failed or are disabled)"@,
        HypomnesisError::Io(m) => m@,
    }
}

impl HypomnesisError {
    /// What the error says.
    pub fn message(&self) -> (s: String)
        ensures
            s@ == error_text(*self),
    {
        match self {
            HypomnesisError::Ram(m) => String::from_str("RAM query failed: ").concat(m.as_str()),
            HypomnesisError::Nvml(m) => String::from_str("NVML error: ").concat(m.as_str()),
            HypomnesisError::Dxgi(m) => String::from_str("DXGI error: ").concat(m.as_str()),
            HypomnesisError::Pdh(m) => String::from_str("PDH error: ").concat(m.as_str()),
            HypomnesisError::NvidiaSmi(m) => String::from_str("nvidia-smi error: ").concat(
                m.as_str(),
            ),
            HypomnesisError::DeviceIndexOutOfRange { index, count } => {
                let mut s = String::from_str("device index ");
                push_decimal(&mut s, *index as u64);
                s.append(" out of range (have ");
                push_decimal(&mut s, *count as u64);
                s.append(" devices)");
                s
            },
            HypomnesisError::NoGpuSource => String::from_str(
                "no GPU measurement source available (NVML, DXGI, PDH, and nvidia-smi all failed or are disabled)",
            ),
            HypomnesisError::Io(m) => m.clone(),
        }
    }
}

} // verus!
