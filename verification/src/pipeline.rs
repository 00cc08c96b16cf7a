//! Pipeline planning: shader-blob validation, the single-attachment render
//! pass description, and the fixed-function graphics pipeline description
//! bound to the swapchain's format and extent.

use vstd::prelude::*;
use crate::errors::PipelineError;
use crate::swapchain::Extent2D;

verus! {

/// How a render-pass attachment is loaded at the start of the pass.
#[derive(Debug, Clone, Copy, PartialEq, Eq, Structural)]
pub enum LoadOp {
    Clear,
    Load,
    DontCare,
}

/// How a render-pass attachment is stored at the end of the pass.
#[derive(Debug, Clone, Copy, PartialEq, Eq, Structural)]
pub enum StoreOp {
    Store,
    DontCare,
}

/// The layouts an attachment transitions between across the pass.
#[derive(Debug, Clone, Copy, PartialEq, Eq, Structural)]
pub enum ImageLayout {
    Undefined,
    ColorAttachment,
    PresentSrc,
}

/// A render pass with a single color attachment: cleared on load, stored on
/// end, and left in a presentable layout.
#[derive(Debug, Clone, Copy, PartialEq, Eq, Structural)]
pub struct RenderPassDesc {
    pub color_format: u32,
    pub load_op: LoadOp,
    pub store_op: StoreOp,
    pub initial_layout: ImageLayout,
    pub final_layout: ImageLayout,
}

/// The shader blobs the pipeline is built from. An empty geometry blob means
/// no geometry stage.
#[derive(Debug, Clone)]
pub struct ShaderSet {
    pub vertex: Vec<u8>,
    pub fragment: Vec<u8>,
    pub geometry: Vec<u8>,
}

/// The fixed-function state of the graphics pipeline.
#[derive(Debug, Clone, Copy, PartialEq, Eq, Structural)]
pub struct PipelineDesc {
    pub viewport: Extent2D,
    pub scissor: Extent2D,
    pub has_geometry_stage: bool,
    pub cull_back_faces: bool,
    pub depth_test: bool,
    pub blend_enabled: bool,
}

/// A blob is a plausible SPIR-V module: at least a five-word header, a whole
/// number of 32-bit words, and the little-endian SPIR-V magic number first.
pub open spec fn spec_valid_shader(bytes: Seq<u8>) -> bool {
    &&& bytes.len() >= 20
    &&& bytes.len() % 4 == 0
    &&& bytes[0] == 0x03u8
    &&& bytes[1] == 0x02u8
    &&& bytes[2] == 0x23u8
    &&& bytes[3] == 0x07u8
}

/// The vertex and fragment blobs are valid, and the geometry blob is either
/// absent (empty) or valid.
pub open spec fn spec_shaders_ok(s: ShaderSet) -> bool {
    &&& spec_valid_shader(s.vertex@)
    &&& spec_valid_shader(s.fragment@)
    &&& (s.geometry@.len() == 0 || spec_valid_shader(s.geometry@))
}

/// Checks that a blob is a plausible SPIR-V module.
pub fn validate_shader(bytes: &Vec<u8>) -> (ok: bool)
    ensures
        ok == spec_valid_shader(bytes@),
{
    bytes.len() >= 20 && bytes.len() % 4 == 0 && bytes[0] == 0x03 && bytes[1] == 0x02 && bytes[2]
        == 0x23 && bytes[3] == 0x07
}

/// Describes the render pass for the swapchain's color format: one
/// attachment, cleared on load, stored on end, presented at the end.
pub fn build_render_pass(swapchain_format: u32) -> (r: RenderPassDesc)
    ensures
        r == (RenderPassDesc {
            color_format: swapchain_format,
            load_op: LoadOp::Clear,
            store_op: StoreOp::Store,
            initial_layout: ImageLayout::Undefined,
            final_layout: ImageLayout::PresentSrc,
        }),
{
    RenderPassDesc {
        color_format: swapchain_format,
        load_op: LoadOp::Clear,
        store_op: StoreOp::Store,
        initial_layout: ImageLayout::Undefined,
        final_layout: ImageLayout::PresentSrc,
    }
}

/// Validates the shader set and describes the fixed-function pipeline for
/// the given extent: viewport and scissor covering the whole extent, no
/// culling, no depth test, blending disabled. Fails exactly when a shader
/// blob is invalid.
pub fn build_pipeline(shaders: &ShaderSet, extent: Extent2D) -> (r: Result<
    PipelineDesc,
    PipelineError,
>)
    ensures
        r is Ok <==> spec_shaders_ok(*shaders),
        r matches Ok(p) ==> p == (PipelineDesc {
            viewport: extent,
            scissor: extent,
            has_geometry_stage: shaders.geometry@.len() > 0,
            cull_back_faces: false,
            depth_test: false,
            blend_enabled: false,
        }),
        r matches Err(e) ==> e == PipelineError::ShaderCompilationFailed,
{
    if !validate_shader(&shaders.vertex) {
        return Err(PipelineError::ShaderCompilationFailed);
    }
    if !validate_shader(&shaders.fragment) {
        return Err(PipelineError::ShaderCompilationFailed);
    }
    let has_geometry_stage = shaders.geometry.len() > 0;
    if has_geometry_stage && !validate_shader(&shaders.geometry) {
        return Err(PipelineError::ShaderCompilationFailed);
    }
    Ok(
        PipelineDesc {
            viewport: extent,
            scissor: extent,
            has_geometry_stage,
            cull_back_faces: false,
            depth_test: false,
            blend_enabled: false,
        },
    )
}

} // verus!
