//! Startup configuration choices: the GPU backend API and the power
//! preference. The host's argument parser produces these; the host maps them
//! onto its graphics library when it builds the device.

use vstd::prelude::*;

verus! {

/// GPU rendering backend API.
#[derive(Clone, Copy, PartialEq, Eq, PartialOrd, Ord, Structural, Debug)]
pub enum Backend {
    /// Pick whatever the platform offers.
    Auto,
    Vulkan,
    Metal,
    Dx12,
    Dx11,
    Gl,
}

/// Adapter power preference.
#[derive(Clone, Copy, PartialEq, Eq, PartialOrd, Ord, Structural, Debug)]
pub enum PowerPreference {
    /// Low power, often an integrated GPU.
    Low,
    /// Highest performance, often a discrete GPU.
    High,
}

} // verus!
