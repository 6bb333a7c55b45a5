//! Target display resolutions and the strip width derived from a source
//! image's aspect ratio.

use vstd::prelude::*;

verus! {

/// The display resolution presets a frame can be generated for.
#[derive(Copy, Clone, PartialEq, Eq, PartialOrd, Debug)]
pub enum Resolution {
    HD,
    FullHD,
    QuadHD,
    UHD,
    FourK,
    EightK,
}

impl Resolution {
    /// The pixel dimensions of the preset, width before height.
    pub open spec fn spec_dimensions(&self) -> (u32, u32) {
        match *self {
            Resolution::HD => (1280u32, 720u32),
            Resolution::FullHD => (1920u32, 1080u32),
            Resolution::QuadHD => (2560u32, 1440u32),
            Resolution::UHD => (3840u32, 2160u32),
            Resolution::FourK => (4096u32, 2160u32),
            Resolution::EightK => (7680u32, 4320u32),
        }
    }

    /// Returns the preset's pixel dimensions, width before height.
    pub fn dimensions(&self) -> (r: (u32, u32))
        ensures
            r == self.spec_dimensions(),
    {
        match *self {
            Resolution::HD => (1280, 720),
            Resolution::FullHD => (1920, 1080),
            Resolution::QuadHD => (2560, 1440),
            Resolution::UHD => (3840, 2160),
            Resolution::FourK => (4096, 2160),
            Resolution::EightK => (7680, 4320),
        }
    }
}

/// Every preset is at least 1280 pixels wide and at least 720 pixels high, so
/// subtracting an excluded height of at most 255 never underflows.
pub proof fn lemma_dimensions_bounds(resolution: Resolution)
    ensures
        1280 <= resolution.spec_dimensions().0 <= 7680,
        720 <= resolution.spec_dimensions().1 <= 4320,
{
}

/// The strip width for a source image of `o_width` by `o_height` pixels,
/// rendered for the given preset. The target box is the preset's dimensions,
/// rotated for a portrait target, with `excluded_height` taken off the box
/// height. An image whose aspect ratio exceeds the box's (compared by
/// truncating integer division, as the original selection does) is given the
/// full box width; otherwise the image width is scaled by the ratio of box
/// height to image height, rounded down and saturated at the largest 32-bit
/// value.
pub open spec fn spec_frame_width(
    resolution: Resolution,
    is_portrait: bool,
    o_width: u32,
    o_height: u32,
    excluded_height: u8,
) -> int
    recommends
        o_height > 0,
{
    let dims = resolution.spec_dimensions();
    let width = if is_portrait {
        dims.1 as int
    } else {
        dims.0 as int
    };
    let height = (if is_portrait {
        dims.0 as int
    } else {
        dims.1 as int
    }) - excluded_height;
    if o_width as int / o_height as int > width / height {
        width
    } else {
        let scaled = height * o_width / o_height as int;
        if scaled > u32::MAX {
            u32::MAX as int
        } else {
            scaled
        }
    }
}

/// Computes the strip width for a source image, exactly as `spec_frame_width`
/// states it.
pub fn get_frame_width(
    resolution: Resolution,
    is_portrait: bool,
    dimensions: (u32, u32),
    excluded_height: u8,
) -> (r: u32)
    requires
        dimensions.1 > 0,
    ensures
        r == spec_frame_width(resolution, is_portrait, dimensions.0, dimensions.1, excluded_height),
{
    let (o_width, o_height) = dimensions;
    let frame_dimensions = resolution.dimensions();
    proof {
        lemma_dimensions_bounds(resolution);
    }
    let (width, height) = if is_portrait {
        (frame_dimensions.1, frame_dimensions.0 - excluded_height as u32)
    } else {
        (frame_dimensions.0, frame_dimensions.1 - excluded_height as u32)
    };
    let has_bigger_aspect_ratio = o_width / o_height > width / height;
    if has_bigger_aspect_ratio {
        width
    } else {
        proof {
            vstd::arithmetic::mul::lemma_mul_upper_bound(
                height as int,
                7680,
                o_width as int,
                u32::MAX as int,
            );
            vstd::arithmetic::mul::lemma_mul_nonnegative(height as int, o_width as int);
        }
        let scaled = (height as u64) * (o_width as u64) / (o_height as u64);
        if scaled > u32::MAX as u64 {
            u32::MAX
        } else {
            scaled as u32
        }
    }
}

} // verus!
