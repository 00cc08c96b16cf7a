use sprocket::errors::PipelineError;
use sprocket::pipeline::{
    build_pipeline, build_render_pass, validate_shader, ImageLayout, LoadOp, ShaderSet, StoreOp,
};
use sprocket::swapchain::Extent2D;

fn spirv_blob(words: usize) -> Vec<u8> {
    // Little-endian SPIR-V magic, then zero words up to the requested size.
    let mut blob = vec![0x03, 0x02, 0x23, 0x07];
    blob.resize(words * 4, 0);
    blob
}

#[test]
fn shader_validation_accepts_a_minimal_module() {
    assert!(validate_shader(&spirv_blob(5)));
    assert!(validate_shader(&spirv_blob(64)));
}

#[test]
fn shader_validation_rejects_malformed_blobs() {
    // Too short, truncated word, wrong magic, empty.
    assert!(!validate_shader(&spirv_blob(4)));
    let mut truncated = spirv_blob(5);
    truncated.pop();
    assert!(!validate_shader(&truncated));
    let mut wrong_magic = spirv_blob(5);
    wrong_magic[0] = 0x04;
    assert!(!validate_shader(&wrong_magic));
    assert!(!validate_shader(&Vec::new()));
}

#[test]
fn render_pass_matches_the_swapchain_format() {
    let rp = build_render_pass(50);
    assert_eq!(rp.color_format, 50);
    assert_eq!(rp.load_op, LoadOp::Clear);
    assert_eq!(rp.store_op, StoreOp::Store);
    assert_eq!(rp.initial_layout, ImageLayout::Undefined);
    assert_eq!(rp.final_layout, ImageLayout::PresentSrc);
}

#[test]
fn pipeline_covers_the_extent_with_fixed_state() {
    let shaders = ShaderSet { vertex: spirv_blob(5), fragment: spirv_blob(6), geometry: Vec::new() };
    let extent = Extent2D { width: 800, height: 600 };
    let p = build_pipeline(&shaders, extent).unwrap();
    assert_eq!(p.viewport, extent);
    assert_eq!(p.scissor, extent);
    assert!(!p.has_geometry_stage);
    assert!(!p.cull_back_faces);
    assert!(!p.depth_test);
    assert!(!p.blend_enabled);
}

#[test]
fn optional_geometry_stage_is_recognized() {
    let shaders = ShaderSet { vertex: spirv_blob(5), fragment: spirv_blob(5), geometry: spirv_blob(5) };
    let p = build_pipeline(&shaders, Extent2D { width: 1, height: 1 }).unwrap();
    assert!(p.has_geometry_stage);
}

#[test]
fn missing_or_invalid_shader_fails_the_pipeline() {
    // A missing shader file reaches the builder as an empty blob.
    let extent = Extent2D { width: 800, height: 600 };
    let missing = ShaderSet { vertex: Vec::new(), fragment: spirv_blob(5), geometry: Vec::new() };
    assert_eq!(build_pipeline(&missing, extent), Err(PipelineError::ShaderCompilationFailed));
    let bad_fragment = ShaderSet { vertex: spirv_blob(5), fragment: vec![1, 2, 3, 4], geometry: Vec::new() };
    assert_eq!(build_pipeline(&bad_fragment, extent), Err(PipelineError::ShaderCompilationFailed));
    let bad_geometry = ShaderSet { vertex: spirv_blob(5), fragment: spirv_blob(5), geometry: vec![0] };
    assert_eq!(build_pipeline(&bad_geometry, extent), Err(PipelineError::ShaderCompilationFailed));
}
