//! Physical-device discovery: queue-family resolution, capability scoring,
//! and selection of the best candidate GPU.

use vstd::prelude::*;
use crate::errors::DeviceError;
use crate::extensions::{spec_supports_all, supports_all};
use crate::swapchain::{spec_image_count_in_bounds, SwapchainSupport, SWAPCHAIN_IMAGE_COUNT};

verus! {

/// What one queue family reports: its capability flags, plus whether it can
/// present to the target surface.
#[derive(Debug, Clone, Copy, PartialEq, Eq, Structural)]
pub struct QueueFamilyInfo {
    pub graphics: bool,
    pub compute: bool,
    pub present: bool,
}

/// The queue-family assignment resolved for a candidate GPU: the first
/// family index found for each capability, or `None` when no family has it.
#[derive(Debug, Clone, Copy, PartialEq, Eq, Structural)]
pub struct QueueFamilies {
    pub graphics: Option<u32>,
    pub present: Option<u32>,
    pub compute: Option<u32>,
    pub present_support: bool,
}

/// The broad kind the driver reports for a device.
#[derive(Debug, Clone, Copy, PartialEq, Eq, Structural)]
pub enum DeviceKind {
    DiscreteGpu,
    IntegratedGpu,
    VirtualGpu,
    Cpu,
    Other,
}

/// The driver-reported limits that enter the score.
#[derive(Debug, Clone, Copy, PartialEq, Eq, Structural)]
pub struct DeviceLimits {
    pub max_framebuffer_width: u32,
    pub max_framebuffer_height: u32,
    pub max_image_dimension_2d: u32,
    pub max_color_attachments: u32,
}

/// The driver-reported properties of a device.
#[derive(Debug, Clone, Copy, PartialEq, Eq, Structural)]
pub struct DeviceProperties {
    pub kind: DeviceKind,
    pub limits: DeviceLimits,
}

/// One enumerated GPU with everything the driver reports about it: an opaque
/// handle value, its properties, the device extensions it supports, its
/// resolved queue families, and its swapchain support for the target surface.
#[derive(Debug, Clone)]
pub struct PhysicalDeviceCandidate {
    pub device: u64,
    pub properties: DeviceProperties,
    pub available_extensions: Vec<String>,
    pub queue_families: QueueFamilies,
    pub swapchain_support: SwapchainSupport,
}

impl QueueFamilies {
    /// Records, for each capability, the first family index that has it,
    /// scanning the reported families once.
    pub fn find(families: &Vec<QueueFamilyInfo>) -> (r: QueueFamilies)
        requires
            families@.len() <= u32::MAX,
        ensures
            match r.graphics {
                Some(g) => g < families@.len() && families@[g as int].graphics && forall|j: int|
                    0 <= j < g ==> !families@[j].graphics,
                None => forall|j: int| 0 <= j < families@.len() ==> !families@[j].graphics,
            },
            match r.present {
                Some(p) => p < families@.len() && families@[p as int].present && forall|j: int|
                    0 <= j < p ==> !families@[j].present,
                None => forall|j: int| 0 <= j < families@.len() ==> !families@[j].present,
            },
            match r.compute {
                Some(c) => c < families@.len() && families@[c as int].compute && forall|j: int|
                    0 <= j < c ==> !families@[j].compute,
                None => forall|j: int| 0 <= j < families@.len() ==> !families@[j].compute,
            },
            r.present_support == (r.present is Some),
    {
        let mut graphics: Option<u32> = None;
        let mut present: Option<u32> = None;
        let mut compute: Option<u32> = None;
        let mut i: usize = 0;
        while i < families.len()
            invariant
                i <= families@.len(),
                families@.len() <= u32::MAX,
                match graphics {
                    Some(g) => g < i && families@[g as int].graphics && forall|j: int|
                        0 <= j < g ==> !families@[j].graphics,
                    None => forall|j: int| 0 <= j < i ==> !families@[j].graphics,
                },
                match present {
                    Some(p) => p < i && families@[p as int].present && forall|j: int|
                        0 <= j < p ==> !families@[j].present,
                    None => forall|j: int| 0 <= j < i ==> !families@[j].present,
                },
                match compute {
                    Some(c) => c < i && families@[c as int].compute && forall|j: int|
                        0 <= j < c ==> !families@[j].compute,
                    None => forall|j: int| 0 <= j < i ==> !families@[j].compute,
                },
            decreases families@.len() - i,
        {
            let f = families[i];
            if f.graphics && graphics.is_none() {
                graphics = Some(i as u32);
            }
            if f.present && present.is_none() {
                present = Some(i as u32);
            }
            if f.compute && compute.is_none() {
                compute = Some(i as u32);
            }
            i = i + 1;
        }
        let present_support = present.is_some();
        QueueFamilies { graphics, present, compute, present_support }
    }
}

/// A candidate clears every knockout check: required extensions present,
/// graphics and present families found, present support confirmed, and
/// adequate swapchain support.
pub open spec fn spec_viable(c: PhysicalDeviceCandidate, required: Seq<String>) -> bool {
    &&& spec_supports_all(c.available_extensions@, required)
    &&& c.queue_families.graphics is Some
    &&& c.queue_families.present is Some
    &&& c.queue_families.present_support
    &&& spec_image_count_in_bounds(c.swapchain_support.capabilities)
    &&& c.swapchain_support.formats@.len() > 0
    &&& c.swapchain_support.present_modes@.len() > 0
}

/// The score of a candidate: zero when any knockout check fails, otherwise
/// one plus a bonus for discrete GPUs plus scaled capability limits.
pub open spec fn spec_score(c: PhysicalDeviceCandidate, required: Seq<String>) -> int {
    if !spec_viable(c, required) {
        0
    } else {
        1 + (if c.properties.kind is DiscreteGpu {
            500int
        } else {
            0int
        }) + c.properties.limits.max_framebuffer_height / 10
            + c.properties.limits.max_framebuffer_width / 10
            + c.properties.limits.max_image_dimension_2d / 10
            + c.properties.limits.max_color_attachments
    }
}

/// Scores one candidate against the required device extensions.
pub fn rate_device(c: &PhysicalDeviceCandidate, required_extensions: &Vec<String>) -> (score: u64)
    ensures
        score == spec_score(*c, required_extensions@),
{
    if !supports_all(&c.available_extensions, required_extensions) {
        return 0;
    }
    if c.queue_families.graphics.is_none() {
        return 0;
    }
    if c.queue_families.present.is_none() {
        return 0;
    }
    if !c.queue_families.present_support {
        return 0;
    }
    let caps = c.swapchain_support.capabilities;
    if caps.min_image_count > SWAPCHAIN_IMAGE_COUNT || (caps.max_image_count != 0
        && caps.max_image_count < SWAPCHAIN_IMAGE_COUNT) {
        return 0;
    }
    if c.swapchain_support.formats.len() == 0 {
        return 0;
    }
    if c.swapchain_support.present_modes.len() == 0 {
        return 0;
    }
    let mut score: u64 = 1;
    if matches!(c.properties.kind, DeviceKind::DiscreteGpu) {
        score = score + 500;
    }
    score = score + (c.properties.limits.max_framebuffer_height / 10) as u64;
    score = score + (c.properties.limits.max_framebuffer_width / 10) as u64;
    score = score + (c.properties.limits.max_image_dimension_2d / 10) as u64;
    score = score + c.properties.limits.max_color_attachments as u64;
    score
}

/// Selects the candidate with the strictly highest positive score; ties are
/// broken in favor of the first candidate encountered. Fails exactly when
/// every candidate scores zero.
pub fn find_physical_device(
    candidates: &Vec<PhysicalDeviceCandidate>,
    required_extensions: &Vec<String>,
) -> (r: Result<usize, DeviceError>)
    ensures
        match r {
            Ok(i) => {
                &&& i < candidates@.len()
                &&& spec_score(candidates@[i as int], required_extensions@) > 0
                &&& forall|j: int|
                    0 <= j < candidates@.len() ==> spec_score(candidates@[j], required_extensions@)
                        <= spec_score(candidates@[i as int], required_extensions@)
                &&& forall|j: int|
                    0 <= j < i ==> spec_score(candidates@[j], required_extensions@) < spec_score(
                        candidates@[i as int],
                        required_extensions@,
                    )
            },
            Err(e) => e == DeviceError::NoSuitableDevice && forall|j: int|
                0 <= j < candidates@.len() ==> spec_score(candidates@[j], required_extensions@)
                    == 0,
        },
{
    let mut best: Option<usize> = None;
    let mut best_score: u64 = 0;
    let mut i: usize = 0;
    while i < candidates.len()
        invariant
            i <= candidates@.len(),
            match best {
                Some(b) => {
                    &&& b < i
                    &&& best_score == spec_score(candidates@[b as int], required_extensions@)
                    &&& best_score > 0
                    &&& forall|j: int|
                        0 <= j < i ==> spec_score(candidates@[j], required_extensions@)
                            <= best_score
                    &&& forall|j: int|
                        0 <= j < b ==> spec_score(candidates@[j], required_extensions@)
                            < best_score
                },
                None => best_score == 0 && forall|j: int|
                    0 <= j < i ==> spec_score(candidates@[j], required_extensions@) == 0,
            },
        decreases candidates@.len() - i,
    {
        let score = rate_device(&candidates[i], required_extensions);
        if score > best_score {
            best = Some(i);
            best_score = score;
        }
        i = i + 1;
    }
    match best {
        Some(b) => Ok(b),
        None => Err(DeviceError::NoSuitableDevice),
    }
}

/// The distinct queue-family indices a logical device must create queues
/// for: the graphics family, and the present family when it differs.
pub fn queue_create_indices(graphics: u32, present: u32) -> (r: Vec<u32>)
    ensures
        graphics == present ==> r@ == seq![graphics],
        graphics != present ==> r@ == seq![graphics, present],
{
    let mut r: Vec<u32> = Vec::new();
    r.push(graphics);
    if present != graphics {
        r.push(present);
    }
    proof {
        if graphics == present {
            assert(r@ =~= seq![graphics]);
        } else {
            assert(r@ =~= seq![graphics, present]);
        }
    }
    r
}

/// Law: a candidate with no graphics-capable family, no present-capable
/// family, or no confirmed present support is disqualified outright,
/// whatever its other capabilities.
pub proof fn lemma_queue_family_disqualification(
    c: PhysicalDeviceCandidate,
    required: Seq<String>,
)
    requires
        c.queue_families.graphics is None || c.queue_families.present is None
            || !c.queue_families.present_support,
    ensures
        spec_score(c, required) == 0,
{
}

/// Law: a candidate whose surface reports image-count bounds excluding the
/// requested count, no formats, or no present modes is disqualified
/// outright, whatever its other capabilities.
pub proof fn lemma_swapchain_support_disqualification(
    c: PhysicalDeviceCandidate,
    required: Seq<String>,
)
    requires
        c.swapchain_support.capabilities.min_image_count > SWAPCHAIN_IMAGE_COUNT || (
        c.swapchain_support.capabilities.max_image_count != 0
            && c.swapchain_support.capabilities.max_image_count < SWAPCHAIN_IMAGE_COUNT)
            || c.swapchain_support.formats@.len() == 0 || c.swapchain_support.present_modes@.len()
            == 0,
    ensures
        spec_score(c, required) == 0,
{
}

} // verus!
