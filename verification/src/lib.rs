//! Verified core of a Vulkan-style rendering bootstrap.
//!
//! The library covers the decision logic of a minimal presentation pipeline:
//! scoring and selecting a physical GPU, resolving queue families, planning a
//! swapchain configuration, validating shaders and planning the fixed-function
//! pipeline, pre-recording the per-image draw sequence, reference-counted
//! deferred destruction of GPU resources, and the state machine that orders
//! context construction and reverse-order teardown.
//!
//! Driver and window-system calls are unverified glue around this crate; the
//! library takes the values they report (queue-family capabilities, surface
//! capabilities, shader bytes) as plain data and returns decisions with proved
//! contracts.

pub mod commands;
pub mod context;
pub mod device;
pub mod errors;
pub mod extensions;
pub mod pipeline;
pub mod resources;
pub mod swapchain;
