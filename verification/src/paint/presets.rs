//! Ready-made looks: a fill layer together with the mask that reveals it.

use crate::lights::{triple, triple_of};
use crate::paint::layer::FillParams;
use crate::paint::smart_mask::{SmartMaskParams, SmartMaskSource};
use crate::single::{Single, ONE};
use vstd::prelude::*;

verus! {

/// A look that can be added with one click.
#[derive(Clone, Copy, Debug, PartialEq, Eq, Structural)]
pub enum SmartMaterialPreset {
    /// Bare metal on convex edges.
    EdgeWear,
    /// Dark grime in cavities.
    CavityDirt,
    /// Pale dust on surfaces that face up.
    DustOnTop,
}

impl SmartMaterialPreset {
    /// Every value, in the order in which they are shown.
    pub const ALL: [SmartMaterialPreset; 3] = [
        SmartMaterialPreset::EdgeWear,
        SmartMaterialPreset::CavityDirt,
        SmartMaterialPreset::DustOnTop,
    ];

    /// The name shown to the user.
    pub open spec fn label_text(self) -> Seq<char> {
        match self {
            SmartMaterialPreset::EdgeWear => "Edge wear"@,
            SmartMaterialPreset::CavityDirt => "Cavity dirt"@,
            SmartMaterialPreset::DustOnTop => "Dust on top"@,
        }
    }

    /// The name shown to the user.
    pub fn label(self) -> (r: &'static str)
        ensures
            r@ == self.label_text(),
    {
        match self {
            SmartMaterialPreset::EdgeWear => "Edge wear",
            SmartMaterialPreset::CavityDirt => "Cavity dirt",
            SmartMaterialPreset::DustOnTop => "Dust on top",
        }
    }

    /// The material of the fill layer.
    pub open spec fn fill_params_spec(self) -> FillParams {
        match self {
            SmartMaterialPreset::EdgeWear => FillParams {
                base_color_srgb: triple_of(0x3f47_ae14, 0x3f4c_cccd, 0x3f51_eb85),
                roughness: Single { bits: 0x3e38_51ec },
                metallic: Single { bits: ONE },
            },
            SmartMaterialPreset::CavityDirt => FillParams {
                base_color_srgb: triple_of(0x3e4c_cccd, 0x3e05_1eb8, 0x3da3_d70a),
                roughness: Single { bits: 0x3f73_3333 },
                metallic: Single { bits: 0 },
            },
            SmartMaterialPreset::DustOnTop => FillParams {
                base_color_srgb: triple_of(0x3f59_999a, 0x3f54_7ae1, 0x3f47_ae14),
                roughness: Single { bits: 0x3f6b_851f },
                metallic: Single { bits: 0 },
            },
        }
    }

    /// The material of the fill layer.
    pub fn fill_params(self) -> (r: FillParams)
        ensures
            r == self.fill_params_spec(),
    {
        match self {
            SmartMaterialPreset::EdgeWear => FillParams {
                base_color_srgb: triple(0x3f47_ae14, 0x3f4c_cccd, 0x3f51_eb85),
                roughness: Single { bits: 0x3e38_51ec },
                metallic: Single { bits: ONE },
            },
            SmartMaterialPreset::CavityDirt => FillParams {
                base_color_srgb: triple(0x3e4c_cccd, 0x3e05_1eb8, 0x3da3_d70a),
                roughness: Single { bits: 0x3f73_3333 },
                metallic: Single { bits: 0 },
            },
            SmartMaterialPreset::DustOnTop => FillParams {
                base_color_srgb: triple(0x3f59_999a, 0x3f54_7ae1, 0x3f47_ae14),
                roughness: Single { bits: 0x3f6b_851f },
                metallic: Single { bits: 0 },
            },
        }
    }

    /// The mask that reveals the fill layer.
    pub open spec fn smart_mask_spec(self) -> SmartMaskParams {
        match self {
            SmartMaterialPreset::EdgeWear => SmartMaskParams {
                source: SmartMaskSource::CurvatureConvex,
                low: Single { bits: 0x3e80_0000 },
                high: Single { bits: 0x3f0c_cccd },
                contrast: Single { bits: 0x3f99_999a },
                invert: false,
            },
            SmartMaterialPreset::CavityDirt => SmartMaskParams {
                source: SmartMaskSource::CurvatureConcave,
                low: Single { bits: 0x3dcc_cccd },
                high: Single { bits: 0x3f0c_cccd },
                contrast: Single { bits: ONE },
                invert: false,
            },
            SmartMaterialPreset::DustOnTop => SmartMaskParams {
                source: SmartMaskSource::WorldYUp,
                low: Single { bits: 0x3ecc_cccd },
                high: Single { bits: 0x3f59_999a },
                contrast: Single { bits: 0x3f8c_cccd },
                invert: false,
            },
        }
    }

    /// The mask that reveals the fill layer.
    pub fn smart_mask(self) -> (r: SmartMaskParams)
        ensures
            r == self.smart_mask_spec(),
    {
        match self {
            SmartMaterialPreset::EdgeWear => SmartMaskParams {
                source: SmartMaskSource::CurvatureConvex,
                low: Single { bits: 0x3e80_0000 },
                high: Single { bits: 0x3f0c_cccd },
                contrast: Single { bits: 0x3f99_999a },
                invert: false,
            },
            SmartMaterialPreset::CavityDirt => SmartMaskParams {
                source: SmartMaskSource::CurvatureConcave,
                low: Single { bits: 0x3dcc_cccd },
                high: Single { bits: 0x3f0c_cccd },
                contrast: Single { bits: ONE },
                invert: false,
            },
            SmartMaterialPreset::DustOnTop => SmartMaskParams {
                source: SmartMaskSource::WorldYUp,
                low: Single { bits: 0x3ecc_cccd },
                high: Single { bits: 0x3f59_999a },
                contrast: Single { bits: 0x3f8c_cccd },
                invert: false,
            },
        }
    }
}

/// In every look the mask has a band: its lower end is below its upper end.
pub proof fn preset_bands_are_ordered(preset: SmartMaterialPreset)
    ensures
        preset.smart_mask_spec().low.less_spec(preset.smart_mask_spec().high),
{
}

/// What the looks are: worn edges are bare metal where the surface bulges, dirt is rough and
/// lies in cavities, and dust is rough and lies on what faces up. No mask is turned around.
pub proof fn looks_are_what_they_are_called(preset: SmartMaterialPreset)
    ensures
        preset.smart_mask_spec().source == SmartMaskSource::CurvatureConvex <==> preset
            == SmartMaterialPreset::EdgeWear,
        preset.smart_mask_spec().source == SmartMaskSource::CurvatureConcave <==> preset
            == SmartMaterialPreset::CavityDirt,
        preset.smart_mask_spec().source == SmartMaskSource::WorldYUp <==> preset
            == SmartMaterialPreset::DustOnTop,
        preset.fill_params_spec().metallic.bits == ONE <==> preset == SmartMaterialPreset::EdgeWear,
        preset.fill_params_spec().metallic.bits == 0 <==> preset != SmartMaterialPreset::EdgeWear,
        (Single { bits: 0x3f00_0000 }).less_spec(preset.fill_params_spec().roughness) <==> preset
            != SmartMaterialPreset::EdgeWear,
        !preset.smart_mask_spec().invert,
        forall|other: SmartMaterialPreset|
            preset == SmartMaterialPreset::CavityDirt && other != preset
                ==> preset.fill_params_spec().base_color_srgb.x.less_spec(
                #[trigger] other.fill_params_spec().base_color_srgb.x,
            ),
{
}

/// Bare metal is bluish; dirt and dust are brownish.
pub proof fn looks_have_their_hues(preset: SmartMaterialPreset)
    ensures
        ({
            let c = preset.fill_params_spec().base_color_srgb;
            if preset == SmartMaterialPreset::EdgeWear {
                c.x.less_spec(c.y) && c.y.less_spec(c.z)
            } else {
                c.z.less_spec(c.y) && c.y.less_spec(c.x)
            }
        }),
{
}

} // verus!
