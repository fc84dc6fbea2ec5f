//! What a brush stroke writes to, and how much of a tile it touches.

use crate::single::{ceil_is_monotone, Single};
use vstd::prelude::*;

verus! {

/// The channel of a layer that a stroke writes to.
#[derive(Clone, Copy, Debug, PartialEq, Eq, Structural)]
pub enum PaintChannel {
    BaseColor,
    Roughness,
    Metallic,
    Mask,
    Displacement,
}

/// How the pixels of an image are stored.
#[derive(Clone, Copy, Debug, PartialEq, Eq, Structural)]
pub enum ImageFormat {
    Rgba8UnormSrgb,
    Rgba8Unorm,
    R8Unorm,
    Rg16Float,
}

/// Which parts of a pixel are written.
#[derive(Clone, Copy, Debug, PartialEq, Eq, Structural)]
pub enum ColorWrites {
    All,
    Green,
    Blue,
}

impl PaintChannel {
    /// The image behind a channel and the parts that are written. Roughness and metalness
    /// share one image.
    pub open spec fn pipeline_spec(self) -> (ImageFormat, ColorWrites) {
        match self {
            PaintChannel::BaseColor => (ImageFormat::Rgba8UnormSrgb, ColorWrites::All),
            PaintChannel::Roughness => (ImageFormat::Rgba8Unorm, ColorWrites::Green),
            PaintChannel::Metallic => (ImageFormat::Rgba8Unorm, ColorWrites::Blue),
            PaintChannel::Mask => (ImageFormat::R8Unorm, ColorWrites::All),
            PaintChannel::Displacement => (ImageFormat::Rg16Float, ColorWrites::All),
        }
    }

    /// The image behind a channel and the parts that are written.
    pub fn pipeline(self) -> (r: (ImageFormat, ColorWrites))
        ensures
            r == self.pipeline_spec(),
    {
        match self {
            PaintChannel::BaseColor => (ImageFormat::Rgba8UnormSrgb, ColorWrites::All),
            PaintChannel::Roughness => (ImageFormat::Rgba8Unorm, ColorWrites::Green),
            PaintChannel::Metallic => (ImageFormat::Rgba8Unorm, ColorWrites::Blue),
            PaintChannel::Mask => (ImageFormat::R8Unorm, ColorWrites::All),
            PaintChannel::Displacement => (ImageFormat::Rg16Float, ColorWrites::All),
        }
    }
}

/// No two channels write the same part of the same image.
pub proof fn channels_do_not_collide(a: PaintChannel, b: PaintChannel)
    ensures
        a.pipeline_spec() == b.pipeline_spec() <==> a == b,
{
}

/// What a projected stencil writes to: colour, or displacement in the first mode.
pub fn projection_format(mode: u32) -> (r: ImageFormat)
    ensures
        r == (if mode == 1 {
            ImageFormat::Rg16Float
        } else {
            ImageFormat::Rgba8UnormSrgb
        }),
{
    if mode == 1 {
        ImageFormat::Rg16Float
    } else {
        ImageFormat::Rgba8UnormSrgb
    }
}

/// A rectangle of pixels.
#[derive(Clone, Copy, Debug, PartialEq, Eq, Structural)]
pub struct Rect {
    pub x: u32,
    pub y: u32,
    pub w: u32,
    pub h: u32,
}

/// The edges of a brush, in pixels of a tile.
#[derive(Clone, Copy, Debug, PartialEq, Eq, Structural)]
pub struct Footprint {
    pub left: Single,
    pub top: Single,
    pub right: Single,
    pub bottom: Single,
}

/// The first pixel that an edge touches.
pub open spec fn first_pixel(edge: Single) -> u32 {
    edge.max_spec(Single { bits: 0 }).floor_spec()
}

/// The pixel after the last one that an edge touches, within a tile of the given size.
pub open spec fn end_pixel(edge: Single, size: Single) -> u32 {
    edge.min_spec(size).ceil_spec()
}

/// How many pixels lie between two.
pub open spec fn gap(from: u32, to: u32) -> int {
    if to > from {
        to - from
    } else {
        0
    }
}

impl Footprint {
    /// The pixels of a tile that the brush touches; nothing where it lies outside.
    pub open spec fn pixels_spec(self, size: Single) -> Option<Rect> {
        let x = first_pixel(self.left);
        let y = first_pixel(self.top);
        let w = gap(x, end_pixel(self.right, size));
        let h = gap(y, end_pixel(self.bottom, size));
        if w == 0 || h == 0 {
            None
        } else {
            Some(Rect { x, y, w: w as u32, h: h as u32 })
        }
    }

    /// The pixels of a tile that the brush touches.
    pub fn pixels(&self, size: Single) -> (r: Option<Rect>)
        ensures
            r == self.pixels_spec(size),
    {
        let zero = Single { bits: 0 };
        let x0: u32 = self.left.max(zero).floor();
        let y0: u32 = self.top.max(zero).floor();
        let x1: u32 = self.right.min(size).ceil();
        let y1: u32 = self.bottom.min(size).ceil();
        if x1 <= x0 || y1 <= y0 {
            None
        } else {
            Some(Rect { x: x0, y: y0, w: x1 - x0, h: y1 - y0 })
        }
    }
}

/// The pixels that a stamp covers: the whole tile where it is filled, else those under the
/// brush.
pub fn scissor(
    uniform_fill: u32,
    footprint: &Footprint,
    resolution: u32,
    size: Single,
) -> (r: Option<Rect>)
    ensures
        r == (if uniform_fill == 1 {
            Some(Rect { x: 0, y: 0, w: resolution, h: resolution })
        } else {
            footprint.pixels_spec(size)
        }),
{
    if uniform_fill == 1 {
        Some(Rect { x: 0, y: 0, w: resolution, h: resolution })
    } else {
        footprint.pixels(size)
    }
}

/// The pixels under a brush lie within the tile.
pub proof fn pixels_lie_within_the_tile(footprint: Footprint, size: Single, resolution: u32)
    requires
        !size.is_nan_spec(),
        size.ceil_spec() == resolution,
        footprint.pixels_spec(size) is Some,
        !footprint.right.is_nan_spec(),
        !footprint.bottom.is_nan_spec(),
    ensures
        footprint.pixels_spec(size)->0.x + footprint.pixels_spec(size)->0.w <= resolution,
        footprint.pixels_spec(size)->0.y + footprint.pixels_spec(size)->0.h <= resolution,
{
    ceil_is_monotone(footprint.right.min_spec(size), size);
    ceil_is_monotone(footprint.bottom.min_spec(size), size);
}

/// Roughness is painted into the green and metalness into the blue of an image that they
/// share; colour, masks and heights have an image of their own, of their own kind.
pub proof fn channels_are_painted_where_they_belong(channel: PaintChannel)
    ensures
        channel.pipeline_spec().1 == ColorWrites::Green <==> channel == PaintChannel::Roughness,
        channel.pipeline_spec().1 == ColorWrites::Blue <==> channel == PaintChannel::Metallic,
        channel.pipeline_spec().0 == ImageFormat::Rgba8Unorm <==> channel == PaintChannel::Roughness
            || channel == PaintChannel::Metallic,
        channel.pipeline_spec().0 == ImageFormat::Rgba8UnormSrgb <==> channel
            == PaintChannel::BaseColor,
        channel.pipeline_spec().0 == ImageFormat::R8Unorm <==> channel == PaintChannel::Mask,
        channel.pipeline_spec().0 == ImageFormat::Rg16Float <==> channel
            == PaintChannel::Displacement,
{
}

/// The pixels under a brush begin at its left and top edge and end at its right and bottom
/// edge, both taken into the tile; where nothing lies between them, nothing is touched.
pub proof fn pixels_lie_between_the_edges(footprint: Footprint, size: Single)
    ensures
        ({
            let x = footprint.left.max_spec(Single { bits: 0 }).floor_spec();
            let y = footprint.top.max_spec(Single { bits: 0 }).floor_spec();
            let right = footprint.right.min_spec(size).ceil_spec();
            let bottom = footprint.bottom.min_spec(size).ceil_spec();
            match footprint.pixels_spec(size) {
                Some(r) => r.x == x && r.y == y && r.x + r.w == right && r.y + r.h == bottom && r.w
                    > 0 && r.h > 0,
                None => right <= x || bottom <= y,
            }
        }),
{
}

} // verus!
