//! Swapchain planning: the surface's reported capabilities, formats and
//! present modes are reduced to one concrete configuration (format, present
//! mode, extent, image count), and the created image chain is exposed through
//! per-index accessors.

use vstd::prelude::*;
use crate::errors::SwapchainError;

verus! {

/// Number of presentable images the context asks the driver for.
pub const SWAPCHAIN_IMAGE_COUNT: u32 = 3;

/// Numeric code of the preferred color format (a 32-bit BGRA sRGB format).
pub const FORMAT_B8G8R8A8_SRGB: u32 = 50;

/// Numeric code of the preferred color space (non-linear sRGB).
pub const COLOR_SPACE_SRGB_NONLINEAR: u32 = 0;

/// Numeric code of the low-latency triple-buffered present mode.
pub const PRESENT_MODE_MAILBOX: u32 = 1;

/// Numeric code of the universally supported queued present mode.
pub const PRESENT_MODE_FIFO: u32 = 2;

/// A pixel size reported by the window or the surface.
#[derive(Debug, Clone, Copy, PartialEq, Eq, Structural)]
pub struct Extent2D {
    pub width: u32,
    pub height: u32,
}

/// A color format paired with the color space it is presented in.
#[derive(Debug, Clone, Copy, PartialEq, Eq, Structural)]
pub struct SurfaceFormat {
    pub format: u32,
    pub color_space: u32,
}

/// The surface's reported image-count bounds and extent bounds.
/// A `max_image_count` of zero means the count is unbounded above.
#[derive(Debug, Clone, Copy, PartialEq, Eq, Structural)]
pub struct SurfaceCapabilities {
    pub min_image_count: u32,
    pub max_image_count: u32,
    pub min_image_extent: Extent2D,
    pub max_image_extent: Extent2D,
}

/// Everything the surface reports about swapchain support for one device.
#[derive(Debug, Clone)]
pub struct SwapchainSupport {
    pub capabilities: SurfaceCapabilities,
    pub formats: Vec<SurfaceFormat>,
    pub present_modes: Vec<u32>,
}

/// The concrete configuration the swapchain is created with.
#[derive(Debug, Clone, Copy, PartialEq, Eq, Structural)]
pub struct SwapchainConfig {
    pub format: SurfaceFormat,
    pub present_mode: u32,
    pub extent: Extent2D,
    pub image_count: u32,
}

/// The preferred format/color-space pair is among the reported ones.
pub open spec fn spec_has_preferred_format(formats: Seq<SurfaceFormat>) -> bool {
    exists|i: int|
        0 <= i < formats.len() && formats[i].format == FORMAT_B8G8R8A8_SRGB
            && formats[i].color_space == COLOR_SPACE_SRGB_NONLINEAR
}

/// The format the swapchain uses: the preferred pair when reported,
/// otherwise the first reported format.
pub open spec fn spec_chosen_format(formats: Seq<SurfaceFormat>) -> SurfaceFormat
    recommends
        formats.len() > 0,
{
    if spec_has_preferred_format(formats) {
        SurfaceFormat { format: FORMAT_B8G8R8A8_SRGB, color_space: COLOR_SPACE_SRGB_NONLINEAR }
    } else {
        formats[0]
    }
}

/// The low-latency mailbox mode is among the reported present modes.
pub open spec fn spec_has_mailbox(modes: Seq<u32>) -> bool {
    exists|i: int| 0 <= i < modes.len() && modes[i] == PRESENT_MODE_MAILBOX
}

/// The present mode the swapchain uses: mailbox when reported, otherwise
/// the always-supported queued mode.
pub open spec fn spec_chosen_present_mode(modes: Seq<u32>) -> u32 {
    if spec_has_mailbox(modes) {
        PRESENT_MODE_MAILBOX
    } else {
        PRESENT_MODE_FIFO
    }
}

/// `x` clamped into `[lo, hi]`.
pub open spec fn spec_clamp(x: u32, lo: u32, hi: u32) -> u32
    recommends
        lo <= hi,
{
    if x < lo {
        lo
    } else if x > hi {
        hi
    } else {
        x
    }
}

/// The window's pixel size clamped to the surface's extent bounds.
pub open spec fn spec_chosen_extent(window: Extent2D, caps: SurfaceCapabilities) -> Extent2D {
    Extent2D {
        width: spec_clamp(window.width, caps.min_image_extent.width, caps.max_image_extent.width),
        height: spec_clamp(
            window.height,
            caps.min_image_extent.height,
            caps.max_image_extent.height,
        ),
    }
}

/// The requested image count clamped into the surface's bounds, where a
/// reported maximum of zero leaves the request unbounded above.
pub open spec fn spec_chosen_image_count(caps: SurfaceCapabilities) -> u32 {
    let lifted = if SWAPCHAIN_IMAGE_COUNT < caps.min_image_count {
        caps.min_image_count
    } else {
        SWAPCHAIN_IMAGE_COUNT
    };
    if caps.max_image_count != 0 && lifted > caps.max_image_count {
        caps.max_image_count
    } else {
        lifted
    }
}

/// The surface's image-count bounds admit the requested image count, where
/// a reported maximum of zero means unbounded above.
pub open spec fn spec_image_count_in_bounds(caps: SurfaceCapabilities) -> bool {
    &&& caps.min_image_count <= SWAPCHAIN_IMAGE_COUNT
    &&& (caps.max_image_count == 0 || caps.max_image_count >= SWAPCHAIN_IMAGE_COUNT)
}

/// Law: a surface whose bounds admit the requested image count — which
/// device selection insists on — is granted exactly that count, with no
/// clamping.
pub proof fn lemma_admitted_count_is_granted(caps: SurfaceCapabilities)
    requires
        spec_image_count_in_bounds(caps),
    ensures
        spec_chosen_image_count(caps) == SWAPCHAIN_IMAGE_COUNT,
{
}

/// Picks the surface format, preferring the fixed BGRA sRGB pair.
pub fn choose_surface_format(formats: &Vec<SurfaceFormat>) -> (r: Option<SurfaceFormat>)
    ensures
        match r {
            Some(f) => formats@.len() > 0 && f == spec_chosen_format(formats@),
            None => formats@.len() == 0,
        },
{
    let mut i: usize = 0;
    while i < formats.len()
        invariant
            i <= formats@.len(),
            forall|j: int|
                0 <= j < i ==> !(formats@[j].format == FORMAT_B8G8R8A8_SRGB
                    && formats@[j].color_space == COLOR_SPACE_SRGB_NONLINEAR),
        decreases formats@.len() - i,
    {
        let f = formats[i];
        if f.format == FORMAT_B8G8R8A8_SRGB && f.color_space == COLOR_SPACE_SRGB_NONLINEAR {
            return Some(
                SurfaceFormat {
                    format: FORMAT_B8G8R8A8_SRGB,
                    color_space: COLOR_SPACE_SRGB_NONLINEAR,
                },
            );
        }
        i = i + 1;
    }
    if formats.len() > 0 {
        Some(formats[0])
    } else {
        None
    }
}

/// Picks the present mode, preferring mailbox and falling back to the
/// queued mode.
pub fn choose_present_mode(modes: &Vec<u32>) -> (r: u32)
    ensures
        r == spec_chosen_present_mode(modes@),
{
    let mut i: usize = 0;
    while i < modes.len()
        invariant
            i <= modes@.len(),
            forall|j: int| 0 <= j < i ==> modes@[j] != PRESENT_MODE_MAILBOX,
        decreases modes@.len() - i,
    {
        if modes[i] == PRESENT_MODE_MAILBOX {
            return PRESENT_MODE_MAILBOX;
        }
        i = i + 1;
    }
    PRESENT_MODE_FIFO
}

/// Clamps the window extent to the surface's bounds.
pub fn choose_extent(window: Extent2D, caps: &SurfaceCapabilities) -> (r: Extent2D)
    ensures
        r == spec_chosen_extent(window, *caps),
{
    let width = if window.width < caps.min_image_extent.width {
        caps.min_image_extent.width
    } else if window.width > caps.max_image_extent.width {
        caps.max_image_extent.width
    } else {
        window.width
    };
    let height = if window.height < caps.min_image_extent.height {
        caps.min_image_extent.height
    } else if window.height > caps.max_image_extent.height {
        caps.max_image_extent.height
    } else {
        window.height
    };
    Extent2D { width, height }
}

/// Clamps the requested image count into the surface's bounds.
pub fn choose_image_count(caps: &SurfaceCapabilities) -> (r: u32)
    ensures
        r == spec_chosen_image_count(*caps),
{
    let mut count = SWAPCHAIN_IMAGE_COUNT;
    if count < caps.min_image_count {
        count = caps.min_image_count;
    }
    if caps.max_image_count != 0 && count > caps.max_image_count {
        count = caps.max_image_count;
    }
    count
}

/// Reduces the surface's reported support to one concrete configuration.
/// Fails exactly when the surface reports no formats or no present modes.
pub fn plan_swapchain(support: &SwapchainSupport, window_extent: Extent2D) -> (r: Result<
    SwapchainConfig,
    SwapchainError,
>)
    ensures
        r is Ok <==> support.formats@.len() > 0 && support.present_modes@.len() > 0,
        r matches Ok(cfg) ==> cfg == (SwapchainConfig {
            format: spec_chosen_format(support.formats@),
            present_mode: spec_chosen_present_mode(support.present_modes@),
            extent: spec_chosen_extent(window_extent, support.capabilities),
            image_count: spec_chosen_image_count(support.capabilities),
        }),
        r matches Err(e) ==> e == SwapchainError::InadequateSupport,
{
    let format = match choose_surface_format(&support.formats) {
        Some(f) => f,
        None => {
            return Err(SwapchainError::InadequateSupport);
        },
    };
    if support.present_modes.len() == 0 {
        return Err(SwapchainError::InadequateSupport);
    }
    let present_mode = choose_present_mode(&support.present_modes);
    let extent = choose_extent(window_extent, &support.capabilities);
    let image_count = choose_image_count(&support.capabilities);
    Ok(SwapchainConfig { format, present_mode, extent, image_count })
}

/// The created image chain: the driver's image handles plus the format and
/// extent they were created with.
#[derive(Debug)]
pub struct Swapchain {
    images: Vec<u64>,
    format: SurfaceFormat,
    extent: Extent2D,
}

impl Swapchain {
    /// The image handles held by the chain.
    pub closed spec fn spec_images(self) -> Seq<u64> {
        self.images@
    }

    /// The format the chain was created with.
    pub closed spec fn spec_format(self) -> SurfaceFormat {
        self.format
    }

    /// The extent the chain was created with.
    pub closed spec fn spec_extent(self) -> Extent2D {
        self.extent
    }

    /// Wraps the image handles the driver returned for a configuration.
    pub fn assemble(images: Vec<u64>, format: SurfaceFormat, extent: Extent2D) -> (s: Swapchain)
        ensures
            s.spec_images() == images@,
            s.spec_format() == format,
            s.spec_extent() == extent,
    {
        Swapchain { images, format, extent }
    }

    /// Number of images in the chain.
    pub fn image_count(&self) -> (n: usize)
        ensures
            n == self.spec_images().len(),
    {
        self.images.len()
    }

    /// The handle of image `i`.
    pub fn image(&self, i: usize) -> (img: u64)
        requires
            i < self.spec_images().len(),
        ensures
            img == self.spec_images()[i as int],
    {
        self.images[i]
    }

    /// The format the chain was created with.
    pub fn format(&self) -> (f: SurfaceFormat)
        ensures
            f == self.spec_format(),
    {
        self.format
    }

    /// The extent the chain was created with.
    pub fn extent(&self) -> (e: Extent2D)
        ensures
            e == self.spec_extent(),
    {
        self.extent
    }
}

} // verus!
