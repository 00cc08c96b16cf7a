use sprocket::device::{
    find_physical_device, queue_create_indices, rate_device, DeviceKind, DeviceLimits,
    DeviceProperties, PhysicalDeviceCandidate, QueueFamilies, QueueFamilyInfo,
};
use sprocket::errors::DeviceError;
use sprocket::extensions::check_validation_layer_support;
use sprocket::swapchain::{Extent2D, SurfaceCapabilities, SurfaceFormat, SwapchainSupport};

fn names(list: &[&str]) -> Vec<String> {
    list.iter().map(|s| s.to_string()).collect()
}

fn adequate_support() -> SwapchainSupport {
    SwapchainSupport {
        capabilities: SurfaceCapabilities {
            min_image_count: 2,
            max_image_count: 0,
            min_image_extent: Extent2D { width: 1, height: 1 },
            max_image_extent: Extent2D { width: 4096, height: 4096 },
        },
        formats: vec![SurfaceFormat { format: 50, color_space: 0 }],
        present_modes: vec![2],
    }
}

fn full_families() -> QueueFamilies {
    QueueFamilies {
        graphics: Some(0),
        present: Some(0),
        compute: Some(0),
        present_support: true,
    }
}

fn candidate(kind: DeviceKind, extensions: &[&str]) -> PhysicalDeviceCandidate {
    PhysicalDeviceCandidate {
        device: 1,
        properties: DeviceProperties {
            kind,
            limits: DeviceLimits {
                max_framebuffer_width: 4000,
                max_framebuffer_height: 2000,
                max_image_dimension_2d: 8000,
                max_color_attachments: 8,
            },
        },
        available_extensions: names(extensions),
        queue_families: full_families(),
        swapchain_support: adequate_support(),
    }
}

#[test]
fn score_formula_discrete() {
    let c = candidate(DeviceKind::DiscreteGpu, &["VK_KHR_swapchain"]);
    let required = names(&["VK_KHR_swapchain"]);
    // 1 + 500 + 2000/10 + 4000/10 + 8000/10 + 8
    assert_eq!(rate_device(&c, &required), 1 + 500 + 200 + 400 + 800 + 8);
}

#[test]
fn score_formula_integrated() {
    let c = candidate(DeviceKind::IntegratedGpu, &["VK_KHR_swapchain"]);
    let required = names(&["VK_KHR_swapchain"]);
    assert_eq!(rate_device(&c, &required), 1 + 200 + 400 + 800 + 8);
}

#[test]
fn missing_extension_disqualifies() {
    let c = candidate(DeviceKind::DiscreteGpu, &["VK_KHR_other"]);
    let required = names(&["VK_KHR_swapchain"]);
    assert_eq!(rate_device(&c, &required), 0);
}

#[test]
fn missing_graphics_family_disqualifies() {
    let mut c = candidate(DeviceKind::DiscreteGpu, &["VK_KHR_swapchain"]);
    c.queue_families.graphics = None;
    assert_eq!(rate_device(&c, &names(&["VK_KHR_swapchain"])), 0);
}

#[test]
fn missing_present_family_disqualifies() {
    let mut c = candidate(DeviceKind::DiscreteGpu, &["VK_KHR_swapchain"]);
    c.queue_families.present = None;
    c.queue_families.present_support = false;
    assert_eq!(rate_device(&c, &names(&["VK_KHR_swapchain"])), 0);
}

#[test]
fn absent_present_support_disqualifies() {
    let mut c = candidate(DeviceKind::DiscreteGpu, &["VK_KHR_swapchain"]);
    c.queue_families.present_support = false;
    assert_eq!(rate_device(&c, &names(&["VK_KHR_swapchain"])), 0);
}

#[test]
fn image_count_bounds_disqualify() {
    let required = names(&["VK_KHR_swapchain"]);
    let mut c = candidate(DeviceKind::DiscreteGpu, &["VK_KHR_swapchain"]);
    c.swapchain_support.capabilities.min_image_count = 4;
    assert_eq!(rate_device(&c, &required), 0);
    let mut c = candidate(DeviceKind::DiscreteGpu, &["VK_KHR_swapchain"]);
    c.swapchain_support.capabilities.max_image_count = 2;
    assert_eq!(rate_device(&c, &required), 0);
}

#[test]
fn empty_formats_or_modes_disqualify() {
    let required = names(&["VK_KHR_swapchain"]);
    let mut c = candidate(DeviceKind::DiscreteGpu, &["VK_KHR_swapchain"]);
    c.swapchain_support.formats = Vec::new();
    assert_eq!(rate_device(&c, &required), 0);
    let mut c = candidate(DeviceKind::DiscreteGpu, &["VK_KHR_swapchain"]);
    c.swapchain_support.present_modes = Vec::new();
    assert_eq!(rate_device(&c, &required), 0);
}

#[test]
fn selection_returns_discrete_gpu() {
    // Three candidates: a discrete GPU with everything, an integrated GPU
    // with everything, and one missing the required extension.
    let required = names(&["VK_KHR_swapchain"]);
    let candidates = vec![
        candidate(DeviceKind::IntegratedGpu, &["VK_KHR_swapchain"]),
        candidate(DeviceKind::DiscreteGpu, &["VK_KHR_swapchain"]),
        candidate(DeviceKind::DiscreteGpu, &[]),
    ];
    assert_eq!(find_physical_device(&candidates, &required), Ok(1));
}

#[test]
fn selection_tie_first_wins() {
    let required = names(&["VK_KHR_swapchain"]);
    let candidates = vec![
        candidate(DeviceKind::DiscreteGpu, &["VK_KHR_swapchain"]),
        candidate(DeviceKind::DiscreteGpu, &["VK_KHR_swapchain"]),
    ];
    assert_eq!(find_physical_device(&candidates, &required), Ok(0));
}

#[test]
fn selection_fails_when_every_candidate_scores_zero() {
    let required = names(&["VK_KHR_swapchain"]);
    let candidates = vec![
        candidate(DeviceKind::DiscreteGpu, &[]),
        candidate(DeviceKind::IntegratedGpu, &[]),
    ];
    assert_eq!(
        find_physical_device(&candidates, &required),
        Err(DeviceError::NoSuitableDevice)
    );
}

#[test]
fn selection_fails_on_empty_enumeration() {
    let required = names(&["VK_KHR_swapchain"]);
    let candidates: Vec<PhysicalDeviceCandidate> = Vec::new();
    assert_eq!(
        find_physical_device(&candidates, &required),
        Err(DeviceError::NoSuitableDevice)
    );
}

#[test]
fn queue_families_record_first_matching_index() {
    let families = vec![
        QueueFamilyInfo { graphics: false, compute: true, present: false },
        QueueFamilyInfo { graphics: true, compute: false, present: true },
        QueueFamilyInfo { graphics: true, compute: true, present: true },
    ];
    let qf = QueueFamilies::find(&families);
    assert_eq!(qf.graphics, Some(1));
    assert_eq!(qf.present, Some(1));
    assert_eq!(qf.compute, Some(0));
    assert!(qf.present_support);
}

#[test]
fn queue_families_absent_capabilities() {
    let families = vec![QueueFamilyInfo { graphics: true, compute: false, present: false }];
    let qf = QueueFamilies::find(&families);
    assert_eq!(qf.graphics, Some(0));
    assert_eq!(qf.present, None);
    assert_eq!(qf.compute, None);
    assert!(!qf.present_support);
}

#[test]
fn queue_families_empty_enumeration() {
    let families: Vec<QueueFamilyInfo> = Vec::new();
    let qf = QueueFamilies::find(&families);
    assert_eq!(qf.graphics, None);
    assert_eq!(qf.present, None);
    assert_eq!(qf.compute, None);
    assert!(!qf.present_support);
}

#[test]
fn queue_create_indices_deduplicate() {
    assert_eq!(queue_create_indices(2, 2), vec![2]);
    assert_eq!(queue_create_indices(2, 3), vec![2, 3]);
}

#[test]
fn layer_check_accepts_available_layers() {
    let available = names(&["VK_LAYER_A", "VK_LAYER_KHRONOS_validation"]);
    let requested = names(&["VK_LAYER_KHRONOS_validation"]);
    assert_eq!(check_validation_layer_support(&available, &requested), Ok(()));
}

#[test]
fn layer_check_reports_first_missing_layer() {
    let available = names(&["VK_LAYER_A"]);
    let requested = names(&["VK_LAYER_A", "VK_LAYER_KHRONOS_validation"]);
    assert_eq!(
        check_validation_layer_support(&available, &requested),
        Err(DeviceError::LayerUnsupported { layer: "VK_LAYER_KHRONOS_validation".to_string() })
    );
}
