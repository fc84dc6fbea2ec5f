//! Masks that are generated from baked mesh maps.

use crate::bake::{MapKind, MeshMaps};
use crate::single::{Single, ONE};
use vstd::prelude::*;

verus! {

/// What drives a generated mask.
#[derive(Clone, Copy, Debug, PartialEq, Eq, Structural)]
pub enum SmartMaskSource {
    /// Bright in cavities, where grime collects.
    AoCrevice,
    /// Bright on convex edges, where paint wears off.
    CurvatureConvex,
    /// Bright in concave grooves.
    CurvatureConcave,
    /// Bright where the mesh is thin.
    Thickness,
    /// Bright where the surface faces up.
    WorldYUp,
}

impl SmartMaskSource {
    /// Every value, in the order in which they are shown.
    pub const ALL: [SmartMaskSource; 5] = [
        SmartMaskSource::AoCrevice,
        SmartMaskSource::CurvatureConvex,
        SmartMaskSource::CurvatureConcave,
        SmartMaskSource::Thickness,
        SmartMaskSource::WorldYUp,
    ];

    /// The name shown to the user.
    pub open spec fn label_text(self) -> Seq<char> {
        match self {
            SmartMaskSource::AoCrevice => "AO crevice"@,
            SmartMaskSource::CurvatureConvex => "Curvature edge (convex)"@,
            SmartMaskSource::CurvatureConcave => "Curvature cavity (concave)"@,
            SmartMaskSource::Thickness => "Thickness"@,
            SmartMaskSource::WorldYUp => "World Y up"@,
        }
    }

    /// The name shown to the user.
    pub fn label(self) -> (r: &'static str)
        ensures
            r@ == self.label_text(),
    {
        match self {
            SmartMaskSource::AoCrevice => "AO crevice",
            SmartMaskSource::CurvatureConvex => "Curvature edge (convex)",
            SmartMaskSource::CurvatureConcave => "Curvature cavity (concave)",
            SmartMaskSource::Thickness => "Thickness",
            SmartMaskSource::WorldYUp => "World Y up",
        }
    }

    /// The baked map that a mask is made from.
    pub open spec fn required_map_spec(self) -> MapKind {
        match self {
            SmartMaskSource::AoCrevice => MapKind::AmbientOcclusion,
            SmartMaskSource::CurvatureConvex => MapKind::Curvature,
            SmartMaskSource::CurvatureConcave => MapKind::Curvature,
            SmartMaskSource::Thickness => MapKind::Thickness,
            SmartMaskSource::WorldYUp => MapKind::WorldNormal,
        }
    }

    /// The baked map that a mask is made from.
    pub fn required_map(self) -> (r: MapKind)
        ensures
            r == self.required_map_spec(),
    {
        match self {
            SmartMaskSource::AoCrevice => MapKind::AmbientOcclusion,
            SmartMaskSource::CurvatureConvex | SmartMaskSource::CurvatureConcave => {
                MapKind::Curvature
            },
            SmartMaskSource::Thickness => MapKind::Thickness,
            SmartMaskSource::WorldYUp => MapKind::WorldNormal,
        }
    }

    /// The number by which the shader knows the source: its place among all sources.
    pub fn kind_index(self) -> (r: u32)
        ensures
            r < 5,
            SmartMaskSource::ALL@[r as int] == self,
    {
        match self {
            SmartMaskSource::AoCrevice => 0,
            SmartMaskSource::CurvatureConvex => 1,
            SmartMaskSource::CurvatureConcave => 2,
            SmartMaskSource::Thickness => 3,
            SmartMaskSource::WorldYUp => 4,
        }
    }

    /// Whether the map that this source needs is there. World normals always are.
    pub open spec fn is_available<T>(self, maps: MeshMaps<T>) -> bool {
        self.required_map_spec() == MapKind::WorldNormal || maps.slot_spec(
            self.required_map_spec(),
        ) is Some
    }

    /// What the user is told to do before a mask can be made from this source.
    pub open spec fn missing_text(self) -> Seq<char> {
        match self.required_map_spec() {
            MapKind::AmbientOcclusion => "bake AO first"@,
            MapKind::Curvature => "bake curvature first"@,
            _ => "bake thickness first"@,
        }
    }

    /// The map to make a mask from, or what has to be baked first.
    pub fn source_map<T>(self, maps: &MeshMaps<T>) -> (r: Result<MapKind, String>)
        ensures
            match r {
                Ok(kind) => self.is_available(*maps) && kind == self.required_map_spec(),
                Err(e) => !self.is_available(*maps) && e@ == self.missing_text(),
            },
    {
        let kind = self.required_map();
        match kind {
            MapKind::WorldNormal => Ok(kind),
            MapKind::AmbientOcclusion => {
                if maps.ao.is_some() {
                    Ok(kind)
                } else {
                    Err(String::from_str("bake AO first"))
                }
            },
            MapKind::Curvature => {
                if maps.curvature.is_some() {
                    Ok(kind)
                } else {
                    Err(String::from_str("bake curvature first"))
                }
            },
            _ => {
                if maps.thickness.is_some() {
                    Ok(kind)
                } else {
                    Err(String::from_str("bake thickness first"))
                }
            },
        }
    }
}

impl Default for SmartMaskSource {
    fn default() -> (r: Self)
        ensures
            r == SmartMaskSource::AoCrevice,
    {
        SmartMaskSource::AoCrevice
    }
}

/// How a baked map becomes a mask: numbers below `low` give nothing, numbers above `high`
/// give everything.
#[derive(Clone, Copy, Debug, PartialEq, Eq, Structural)]
pub struct SmartMaskParams {
    pub source: SmartMaskSource,
    pub low: Single,
    pub high: Single,
    pub contrast: Single,
    pub invert: bool,
}

impl SmartMaskParams {
    /// Dirt in crevices, with a band in the middle.
    pub open spec fn initial() -> SmartMaskParams {
        SmartMaskParams {
            source: SmartMaskSource::AoCrevice,
            low: Single { bits: 0x3e99_999a },
            high: Single { bits: 0x3f33_3333 },
            contrast: Single { bits: ONE },
            invert: false,
        }
    }

    /// Numeric equality of the numbers, and equality of the rest.
    pub open spec fn equals_spec(self, other: SmartMaskParams) -> bool {
        self.source == other.source && self.low.equals_spec(other.low) && self.high.equals_spec(
            other.high,
        ) && self.contrast.equals_spec(other.contrast) && self.invert == other.invert
    }

    /// Whether the two say the same.
    pub fn equals(&self, other: &SmartMaskParams) -> (r: bool)
        ensures
            r == self.equals_spec(*other),
    {
        self.source == other.source && self.low.equals(other.low) && self.high.equals(other.high)
            && self.contrast.equals(other.contrast) && self.invert == other.invert
    }

    /// With the ends of the band in order.
    pub open spec fn ordered_spec(self) -> SmartMaskParams {
        if self.high.less_spec(self.low) {
            SmartMaskParams { low: self.high, high: self.low, ..self }
        } else {
            self
        }
    }

    /// With the ends of the band in order.
    pub fn ordered(&self) -> (r: SmartMaskParams)
        ensures
            r == self.ordered_spec(),
    {
        if self.high.less(self.low) {
            SmartMaskParams {
                source: self.source,
                low: self.high,
                high: self.low,
                contrast: self.contrast,
                invert: self.invert,
            }
        } else {
            *self
        }
    }

    /// What the shader is told for one tile.
    pub fn uniforms(&self, tile_layer: u32) -> (r: SmartUniforms)
        ensures
            r.low == self.low,
            r.high == self.high,
            r.contrast == self.contrast,
            r.invert == (if self.invert { 1u32 } else { 0u32 }),
            r.source_kind < 5,
            SmartMaskSource::ALL@[r.source_kind as int] == self.source,
            r.tile_layer == tile_layer,
    {
        SmartUniforms {
            low: self.low,
            high: self.high,
            contrast: self.contrast,
            invert: if self.invert {
                1
            } else {
                0
            },
            source_kind: self.source.kind_index(),
            tile_layer,
        }
    }
}

impl Default for SmartMaskParams {
    fn default() -> (r: Self)
        ensures
            r == SmartMaskParams::initial(),
    {
        SmartMaskParams {
            source: SmartMaskSource::AoCrevice,
            low: Single { bits: 0x3e99_999a },
            high: Single { bits: 0x3f33_3333 },
            contrast: Single { bits: ONE },
            invert: false,
        }
    }
}

/// The band of a mask never stands upside down.
pub proof fn ordered_bands_are_ordered(p: SmartMaskParams)
    ensures
        !p.ordered_spec().high.less_spec(p.ordered_spec().low),
        p.ordered_spec().ordered_spec() == p.ordered_spec(),
{
}

/// What the shader that makes a mask is told.
#[derive(Clone, Copy, Debug, PartialEq, Eq, Structural)]
pub struct SmartUniforms {
    pub low: Single,
    pub high: Single,
    pub contrast: Single,
    pub invert: u32,
    pub source_kind: u32,
    pub tile_layer: u32,
}

/// Whether what drives a mask was baked.
pub fn source_is_baked<T>(maps: &MeshMaps<T>, source: SmartMaskSource) -> (r: bool)
    ensures
        r == source.is_available(*maps),
{
    match source {
        SmartMaskSource::AoCrevice => maps.ao.is_some(),
        SmartMaskSource::CurvatureConvex | SmartMaskSource::CurvatureConcave => {
            maps.curvature.is_some()
        },
        SmartMaskSource::Thickness => maps.thickness.is_some(),
        SmartMaskSource::WorldYUp => true,
    }
}

/// The name under which a source is offered.
pub fn source_label(source: SmartMaskSource, baked: bool) -> (r: String)
    ensures
        r@ == (if baked {
            source.label_text()
        } else {
            source.label_text() + " (no bake)"@
        }),
{
    if baked {
        String::from_str(source.label())
    } else {
        String::from_str(source.label()).concat(" (no bake)")
    }
}

/// A mask is made from the map that shows what drives it; the two masks of curvature share
/// one.
pub proof fn masks_are_made_from_what_drives_them(source: SmartMaskSource)
    ensures
        source.required_map_spec() == MapKind::AmbientOcclusion <==> source
            == SmartMaskSource::AoCrevice,
        source.required_map_spec() == MapKind::Curvature <==> source
            == SmartMaskSource::CurvatureConvex || source == SmartMaskSource::CurvatureConcave,
        source.required_map_spec() == MapKind::Thickness <==> source == SmartMaskSource::Thickness,
        source.required_map_spec() == MapKind::WorldNormal <==> source == SmartMaskSource::WorldYUp,
{
}

/// A mask that faces up can always be made; any other needs its own map, and the user is told
/// which one.
pub proof fn masks_need_their_maps<T>(source: SmartMaskSource, maps: MeshMaps<T>)
    ensures
        source == SmartMaskSource::WorldYUp ==> source.is_available(maps),
        source == SmartMaskSource::AoCrevice ==> (source.is_available(maps) <==> maps.ao is Some)
            && source.missing_text() == "bake AO first"@,
        source == SmartMaskSource::CurvatureConvex || source == SmartMaskSource::CurvatureConcave
            ==> (source.is_available(maps) <==> maps.curvature is Some) && source.missing_text()
            == "bake curvature first"@,
        source == SmartMaskSource::Thickness ==> (source.is_available(maps) <==> maps.thickness
            is Some) && source.missing_text() == "bake thickness first"@,
{
}

/// Putting a band in order keeps its two ends and everything else.
pub proof fn ordering_keeps_the_ends(p: SmartMaskParams)
    ensures
        ({
            let q = p.ordered_spec();
            &&& q.source == p.source && q.contrast == p.contrast && q.invert == p.invert
            &&& (q.low == p.low && q.high == p.high) || (q.low == p.high && q.high == p.low)
            &&& !p.high.less_spec(p.low) ==> q == p
        }),
{
}

/// No setting of a mask is passed over where two are compared.
pub proof fn equal_masks_are_made_the_same(a: SmartMaskParams, b: SmartMaskParams)
    ensures
        a.equals_spec(b) ==> {
            &&& a.source == b.source
            &&& a.low.place() == b.low.place()
            &&& a.high.place() == b.high.place()
            &&& a.contrast.place() == b.contrast.place()
            &&& a.invert == b.invert
        },
        a.equals_spec(b) == b.equals_spec(a),
{
}

} // verus!
