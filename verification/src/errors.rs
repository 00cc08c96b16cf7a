//! Typed failures of the rendering-context construction steps.

use vstd::prelude::*;

verus! {

/// Failure to find or prepare a suitable physical GPU.
#[derive(Debug, PartialEq, Eq)]
pub enum DeviceError {
    /// Every enumerated candidate scored zero.
    NoSuitableDevice,
    /// A requested validation layer is not available; carries the layer name.
    LayerUnsupported { layer: String },
}

/// Failure to plan or create the presentable image chain.
#[derive(Debug, PartialEq, Eq)]
pub enum SwapchainError {
    /// The surface reports no formats or no present modes.
    InadequateSupport,
    /// The underlying swapchain creation call failed.
    CreationFailed,
}

/// Failure to build the render pass or graphics pipeline.
#[derive(Debug, PartialEq, Eq)]
pub enum PipelineError {
    /// A shader blob is missing or not a well-formed SPIR-V module.
    ShaderCompilationFailed,
    /// The underlying pipeline object creation call failed.
    PipelineCreationFailed,
}

/// Failure to allocate or record command buffers.
#[derive(Debug, PartialEq, Eq)]
pub enum CommandError {
    /// Command-buffer allocation failed.
    AllocationFailed,
    /// Beginning a command buffer or render pass failed.
    BeginFailed,
    /// Ending a command buffer failed.
    EndFailed,
}

/// Non-fatal failure reported while destroying a tracked GPU resource;
/// the owning entry is removed regardless, so shutdown never stalls.
#[derive(Debug, PartialEq, Eq)]
pub enum ResourceError {
    /// The driver reported an error from a destruction call.
    DestructionFailed,
}

} // verus!
