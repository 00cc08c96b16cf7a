use sprocket::errors::SwapchainError;
use sprocket::swapchain::{
    choose_extent, choose_image_count, choose_present_mode, choose_surface_format, plan_swapchain,
    Extent2D, SurfaceCapabilities, SurfaceFormat, Swapchain, SwapchainSupport,
    COLOR_SPACE_SRGB_NONLINEAR, FORMAT_B8G8R8A8_SRGB, PRESENT_MODE_FIFO, PRESENT_MODE_MAILBOX,
    SWAPCHAIN_IMAGE_COUNT,
};

fn caps(min_count: u32, max_count: u32) -> SurfaceCapabilities {
    SurfaceCapabilities {
        min_image_count: min_count,
        max_image_count: max_count,
        min_image_extent: Extent2D { width: 16, height: 16 },
        max_image_extent: Extent2D { width: 4096, height: 2160 },
    }
}

#[test]
fn image_count_request_of_three_against_unbounded_maximum() {
    // Capabilities {min: 2, max: 0 (unbounded)} accept the request of 3.
    assert_eq!(SWAPCHAIN_IMAGE_COUNT, 3);
    assert_eq!(choose_image_count(&caps(2, 0)), 3);
}

#[test]
fn image_count_is_clamped_to_bounds() {
    assert_eq!(choose_image_count(&caps(4, 8)), 4);
    assert_eq!(choose_image_count(&caps(1, 2)), 2);
    assert_eq!(choose_image_count(&caps(3, 3)), 3);
}

#[test]
fn surface_format_prefers_bgra_srgb() {
    let formats = vec![
        SurfaceFormat { format: 44, color_space: 0 },
        SurfaceFormat { format: FORMAT_B8G8R8A8_SRGB, color_space: COLOR_SPACE_SRGB_NONLINEAR },
    ];
    assert_eq!(
        choose_surface_format(&formats),
        Some(SurfaceFormat { format: FORMAT_B8G8R8A8_SRGB, color_space: COLOR_SPACE_SRGB_NONLINEAR })
    );
}

#[test]
fn surface_format_falls_back_to_first() {
    let formats = vec![
        SurfaceFormat { format: 44, color_space: 0 },
        SurfaceFormat { format: 37, color_space: 0 },
    ];
    assert_eq!(choose_surface_format(&formats), Some(SurfaceFormat { format: 44, color_space: 0 }));
}

#[test]
fn surface_format_empty_list() {
    let formats: Vec<SurfaceFormat> = Vec::new();
    assert_eq!(choose_surface_format(&formats), None);
}

#[test]
fn present_mode_prefers_mailbox() {
    assert_eq!(choose_present_mode(&vec![2, 0, PRESENT_MODE_MAILBOX]), PRESENT_MODE_MAILBOX);
    assert_eq!(choose_present_mode(&vec![2, 0]), PRESENT_MODE_FIFO);
}

#[test]
fn extent_is_clamped_to_surface_bounds() {
    let c = caps(2, 0);
    assert_eq!(
        choose_extent(Extent2D { width: 800, height: 600 }, &c),
        Extent2D { width: 800, height: 600 }
    );
    assert_eq!(
        choose_extent(Extent2D { width: 8, height: 9000 }, &c),
        Extent2D { width: 16, height: 2160 }
    );
}

#[test]
fn plan_accepts_adequate_support() {
    let support = SwapchainSupport {
        capabilities: caps(2, 0),
        formats: vec![SurfaceFormat { format: 44, color_space: 0 }],
        present_modes: vec![PRESENT_MODE_FIFO],
    };
    let cfg = plan_swapchain(&support, Extent2D { width: 800, height: 600 }).unwrap();
    assert_eq!(cfg.image_count, 3);
    assert_eq!(cfg.format, SurfaceFormat { format: 44, color_space: 0 });
    assert_eq!(cfg.present_mode, PRESENT_MODE_FIFO);
    assert_eq!(cfg.extent, Extent2D { width: 800, height: 600 });
}

#[test]
fn plan_rejects_inadequate_support() {
    let no_formats = SwapchainSupport {
        capabilities: caps(2, 0),
        formats: Vec::new(),
        present_modes: vec![PRESENT_MODE_FIFO],
    };
    assert_eq!(
        plan_swapchain(&no_formats, Extent2D { width: 800, height: 600 }),
        Err(SwapchainError::InadequateSupport)
    );
    let no_modes = SwapchainSupport {
        capabilities: caps(2, 0),
        formats: vec![SurfaceFormat { format: 44, color_space: 0 }],
        present_modes: Vec::new(),
    };
    assert_eq!(
        plan_swapchain(&no_modes, Extent2D { width: 800, height: 600 }),
        Err(SwapchainError::InadequateSupport)
    );
}

#[test]
fn swapchain_exposes_images_format_and_extent() {
    let format = SurfaceFormat { format: FORMAT_B8G8R8A8_SRGB, color_space: 0 };
    let extent = Extent2D { width: 640, height: 480 };
    let chain = Swapchain::assemble(vec![11, 22, 33], format, extent);
    assert_eq!(chain.image_count(), 3);
    assert_eq!(chain.image(0), 11);
    assert_eq!(chain.image(2), 33);
    assert_eq!(chain.format(), format);
    assert_eq!(chain.extent(), extent);
}
