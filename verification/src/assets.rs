//! The asset browser: textures, meshes and library materials.

use crate::material_graph::ShaderPin;
use crate::single::{Single, Triple, ONE};
use vstd::prelude::*;

verus! {

/// The pages of the asset browser.
#[derive(Clone, Copy, Debug, PartialEq, Eq, Structural)]
pub enum Tab {
    Textures,
    Meshes,
    Stencils,
    Swatches,
    Materials,
}

impl Tab {
    /// Every value, in the order in which they are shown.
    pub const ALL: [Tab; 5] = [
        Tab::Textures,
        Tab::Meshes,
        Tab::Stencils,
        Tab::Swatches,
        Tab::Materials,
    ];

    /// The name shown to the user.
    pub open spec fn label_text(self) -> Seq<char> {
        match self {
            Tab::Textures => "Textures"@,
            Tab::Meshes => "Meshes"@,
            Tab::Stencils => "Stencils"@,
            Tab::Swatches => "Swatches"@,
            Tab::Materials => "Materials"@,
        }
    }

    /// The name shown to the user.
    pub fn label(self) -> (r: &'static str)
        ensures
            r@ == self.label_text(),
    {
        match self {
            Tab::Textures => "Textures",
            Tab::Meshes => "Meshes",
            Tab::Stencils => "Stencils",
            Tab::Swatches => "Swatches",
            Tab::Materials => "Materials",
        }
    }
}

/// What kind of shader network a material is built on.
#[derive(Clone, Copy, Debug, PartialEq, Eq, Structural)]
pub enum MaterialKind {
    /// Understood by every renderer.
    UsdPreviewSurface,
    MaterialX,
    /// The Disney-style shaders of 3Delight.
    DlPrincipled,
    Other,
}

impl MaterialKind {
    /// Every value, in the order in which they are shown.
    pub const ALL: [MaterialKind; 4] = [
        MaterialKind::UsdPreviewSurface,
        MaterialKind::MaterialX,
        MaterialKind::DlPrincipled,
        MaterialKind::Other,
    ];

    /// The name shown to the user.
    pub open spec fn label_text(self) -> Seq<char> {
        match self {
            MaterialKind::UsdPreviewSurface => "UsdPreviewSurface"@,
            MaterialKind::MaterialX => "MaterialX"@,
            MaterialKind::DlPrincipled => "3Delight"@,
            MaterialKind::Other => "Other"@,
        }
    }

    /// The name shown to the user.
    pub fn label(self) -> (r: &'static str)
        ensures
            r@ == self.label_text(),
    {
        match self {
            MaterialKind::UsdPreviewSurface => "UsdPreviewSurface",
            MaterialKind::MaterialX => "MaterialX",
            MaterialKind::DlPrincipled => "3Delight",
            MaterialKind::Other => "Other",
        }
    }
}

/// The names under which a shader takes the inputs that the editor knows. Where there is
/// no name, the editor leaves out the row and nothing is overridden.
#[derive(Clone, Copy, Debug)]
pub struct ShaderInputNames {
    pub diffuse_color: Option<&'static str>,
    pub metallic: Option<&'static str>,
    pub roughness: Option<&'static str>,
    pub opacity: Option<&'static str>,
    pub clearcoat: Option<&'static str>,
    pub clearcoat_roughness: Option<&'static str>,
    pub emission_color: Option<&'static str>,
    pub normal: Option<&'static str>,
    pub occlusion: Option<&'static str>,
    pub emission_intensity: Option<&'static str>,
}

/// The characters of an optional name.
pub open spec fn name_view(name: Option<&str>) -> Option<Seq<char>> {
    match name {
        Some(s) => Some(s@),
        None => None,
    }
}

impl ShaderInputNames {
    /// The name for one input.
    pub open spec fn name_of(self, pin: ShaderPin) -> Option<Seq<char>> {
        match pin {
            ShaderPin::DiffuseColor => name_view(self.diffuse_color),
            ShaderPin::Metallic => name_view(self.metallic),
            ShaderPin::Roughness => name_view(self.roughness),
            ShaderPin::Opacity => name_view(self.opacity),
            ShaderPin::Clearcoat => name_view(self.clearcoat),
            ShaderPin::ClearcoatRoughness => name_view(self.clearcoat_roughness),
            ShaderPin::EmissionColor => name_view(self.emission_color),
            ShaderPin::Normal => name_view(self.normal),
            ShaderPin::Occlusion => name_view(self.occlusion),
            ShaderPin::EmissionIntensity => name_view(self.emission_intensity),
        }
    }
}

impl MaterialKind {
    /// The name under which a shader of this kind takes an input, if it takes it at all.
    pub open spec fn input_name(self, pin: ShaderPin) -> Option<Seq<char>> {
        match self {
            MaterialKind::UsdPreviewSurface | MaterialKind::Other => match pin {
                ShaderPin::DiffuseColor => Some("diffuseColor"@),
                ShaderPin::Metallic => Some("metallic"@),
                ShaderPin::Roughness => Some("roughness"@),
                ShaderPin::Opacity => Some("opacity"@),
                ShaderPin::Clearcoat => Some("clearcoat"@),
                ShaderPin::ClearcoatRoughness => Some("clearcoatRoughness"@),
                ShaderPin::EmissionColor => Some("emissiveColor"@),
                ShaderPin::Normal => Some("normal"@),
                ShaderPin::Occlusion => Some("occlusion"@),
                ShaderPin::EmissionIntensity => None,
            },
            MaterialKind::MaterialX => match pin {
                ShaderPin::DiffuseColor => Some("base_color"@),
                ShaderPin::Metallic => Some("metalness"@),
                ShaderPin::Roughness => Some("specular_roughness"@),
                ShaderPin::Opacity => Some("opacity"@),
                ShaderPin::Clearcoat => Some("coat"@),
                ShaderPin::ClearcoatRoughness => Some("coat_roughness"@),
                ShaderPin::EmissionColor => Some("emission_color"@),
                ShaderPin::Normal => Some("normal"@),
                ShaderPin::Occlusion => None,
                ShaderPin::EmissionIntensity => Some("emission"@),
            },
            MaterialKind::DlPrincipled => match pin {
                ShaderPin::DiffuseColor => Some("i_color"@),
                ShaderPin::Metallic => Some("metallic"@),
                ShaderPin::Roughness => Some("roughness"@),
                ShaderPin::Opacity => Some("opacity"@),
                ShaderPin::Clearcoat => Some("coating_thickness"@),
                ShaderPin::ClearcoatRoughness => Some("coating_roughness"@),
                ShaderPin::EmissionColor => Some("incandescence"@),
                ShaderPin::Normal => None,
                ShaderPin::Occlusion => None,
                ShaderPin::EmissionIntensity => Some("incandescence_intensity"@),
            },
        }
    }

    /// The names under which a shader of this kind takes its inputs.
    pub fn input_names(self) -> (r: ShaderInputNames)
        ensures
            forall|pin: ShaderPin| #[trigger] r.name_of(pin) == self.input_name(pin),
    {
        match self {
            MaterialKind::UsdPreviewSurface | MaterialKind::Other => ShaderInputNames {
                diffuse_color: Some("diffuseColor"),
                metallic: Some("metallic"),
                roughness: Some("roughness"),
                opacity: Some("opacity"),
                clearcoat: Some("clearcoat"),
                clearcoat_roughness: Some("clearcoatRoughness"),
                emission_color: Some("emissiveColor"),
                normal: Some("normal"),
                occlusion: Some("occlusion"),
                emission_intensity: None,
            },
            MaterialKind::MaterialX => ShaderInputNames {
                diffuse_color: Some("base_color"),
                metallic: Some("metalness"),
                roughness: Some("specular_roughness"),
                opacity: Some("opacity"),
                clearcoat: Some("coat"),
                clearcoat_roughness: Some("coat_roughness"),
                emission_color: Some("emission_color"),
                normal: Some("normal"),
                occlusion: None,
                emission_intensity: Some("emission"),
            },
            MaterialKind::DlPrincipled => ShaderInputNames {
                diffuse_color: Some("i_color"),
                metallic: Some("metallic"),
                roughness: Some("roughness"),
                opacity: Some("opacity"),
                clearcoat: Some("coating_thickness"),
                clearcoat_roughness: Some("coating_roughness"),
                emission_color: Some("incandescence"),
                normal: None,
                occlusion: None,
                emission_intensity: Some("incandescence_intensity"),
            },
        }
    }
}

/// The inputs of a surface shader that the editor drives.
#[derive(Clone, Copy, Debug, PartialEq, Eq, Structural)]
pub struct MaterialInputs {
    pub diffuse_color: Triple,
    pub metallic: Single,
    pub roughness: Single,
    pub opacity: Single,
    pub clearcoat: Single,
    pub clearcoat_roughness: Single,
    pub emission_color: Triple,
    pub emission_intensity: Single,
}

impl MaterialInputs {
    /// Whether all numbers are equal.
    pub open spec fn equals_spec(self, other: MaterialInputs) -> bool {
        &&& self.diffuse_color.equals_spec(other.diffuse_color)
        &&& self.metallic.equals_spec(other.metallic)
        &&& self.roughness.equals_spec(other.roughness)
        &&& self.opacity.equals_spec(other.opacity)
        &&& self.clearcoat.equals_spec(other.clearcoat)
        &&& self.clearcoat_roughness.equals_spec(other.clearcoat_roughness)
        &&& self.emission_color.equals_spec(other.emission_color)
        &&& self.emission_intensity.equals_spec(other.emission_intensity)
    }

    /// None of the numbers is NaN.
    pub open spec fn are_numbers(self) -> bool {
        &&& self.diffuse_color.are_numbers()
        &&& !self.metallic.is_nan_spec()
        &&& !self.roughness.is_nan_spec()
        &&& !self.opacity.is_nan_spec()
        &&& !self.clearcoat.is_nan_spec()
        &&& !self.clearcoat_roughness.is_nan_spec()
        &&& self.emission_color.are_numbers()
        &&& !self.emission_intensity.is_nan_spec()
    }

    /// Whether all numbers are equal; NaN equals nothing.
    pub fn equals(self, other: MaterialInputs) -> (r: bool)
        ensures
            r == self.equals_spec(other),
    {
        self.diffuse_color.equals(other.diffuse_color) && self.metallic.equals(other.metallic)
            && self.roughness.equals(other.roughness) && self.opacity.equals(other.opacity)
            && self.clearcoat.equals(other.clearcoat) && self.clearcoat_roughness.equals(
            other.clearcoat_roughness,
        ) && self.emission_color.equals(other.emission_color) && self.emission_intensity.equals(
            other.emission_intensity,
        )
    }

    /// What the editor starts from: 0.8 grey, half rough, opaque, neither metallic nor
    /// coated nor glowing.
    pub open spec fn default_spec() -> MaterialInputs {
        let grey = Single { bits: 0x3f4c_cccd };
        let half = Single { bits: 0x3f00_0000 };
        let zero = Single { bits: 0 };
        MaterialInputs {
            diffuse_color: Triple { x: grey, y: grey, z: grey },
            metallic: zero,
            roughness: half,
            opacity: Single { bits: ONE },
            clearcoat: zero,
            clearcoat_roughness: half,
            emission_color: Triple { x: zero, y: zero, z: zero },
            emission_intensity: zero,
        }
    }
}

impl Default for MaterialInputs {
    /// What the editor starts from: grey, opaque and half rough, no metal, without a coat and
    /// without a glow.
    fn default() -> (r: MaterialInputs)
        ensures
            r == MaterialInputs::default_spec(),
            r.are_numbers(),
            r.diffuse_color.x == r.diffuse_color.y,
            r.diffuse_color.y == r.diffuse_color.z,
            r.roughness.less_spec(r.diffuse_color.x),
            r.opacity.bits == ONE,
            r.roughness.bits == 0x3f00_0000,
            r.clearcoat_roughness == r.roughness,
            r.metallic.bits == 0,
            r.clearcoat.bits == 0,
            r.emission_intensity.bits == 0,
    {
        let grey = Single { bits: 0x3f4c_cccd };
        let half = Single { bits: 0x3f00_0000 };
        let zero = Single { bits: 0 };
        MaterialInputs {
            diffuse_color: Triple { x: grey, y: grey, z: grey },
            metallic: zero,
            roughness: half,
            opacity: Single { bits: ONE },
            clearcoat: zero,
            clearcoat_roughness: half,
            emission_color: Triple { x: zero, y: zero, z: zero },
            emission_intensity: zero,
        }
    }
}

/// A USD file in the asset browser.
#[derive(Clone, Debug)]
pub struct MeshAsset {
    pub name: String,
    pub path: String,
}

/// A material of the library.
#[derive(Clone, Debug)]
pub struct MaterialAsset {
    pub name: String,
    pub source: String,
    pub prim_path: String,
    pub kind: MaterialKind,
    pub preview_inputs: MaterialInputs,
}

/// The names under which shaders take their inputs: those of the preview surface, of the
/// standard surface of MaterialX, and of the principled shader of 3Delight. An input for which
/// a kind has no name is not told to it.
pub proof fn inputs_have_the_names_of_their_shaders(kind: MaterialKind)
    requires
        kind == MaterialKind::UsdPreviewSurface || kind == MaterialKind::Other,
    ensures
        kind.input_name(ShaderPin::DiffuseColor) == Some("diffuseColor"@),
        kind.input_name(ShaderPin::EmissionColor) == Some("emissiveColor"@),
        kind.input_name(ShaderPin::Metallic) == Some("metallic"@),
        kind.input_name(ShaderPin::Roughness) == Some("roughness"@),
        kind.input_name(ShaderPin::Opacity) == Some("opacity"@),
        kind.input_name(ShaderPin::Clearcoat) == Some("clearcoat"@),
        kind.input_name(ShaderPin::ClearcoatRoughness) == Some("clearcoatRoughness"@),
        kind.input_name(ShaderPin::Normal) == Some("normal"@),
        kind.input_name(ShaderPin::Occlusion) == Some("occlusion"@),
        kind.input_name(ShaderPin::EmissionIntensity) is None,
        MaterialKind::MaterialX.input_name(ShaderPin::DiffuseColor) == Some("base_color"@),
        MaterialKind::MaterialX.input_name(ShaderPin::EmissionColor) == Some("emission_color"@),
        MaterialKind::MaterialX.input_name(ShaderPin::EmissionIntensity) == Some("emission"@),
        MaterialKind::MaterialX.input_name(ShaderPin::Metallic) == Some("metalness"@),
        MaterialKind::MaterialX.input_name(ShaderPin::Roughness) == Some("specular_roughness"@),
        MaterialKind::MaterialX.input_name(ShaderPin::Opacity) == Some("opacity"@),
        MaterialKind::MaterialX.input_name(ShaderPin::Clearcoat) == Some("coat"@),
        MaterialKind::MaterialX.input_name(ShaderPin::ClearcoatRoughness) == Some("coat_roughness"@),
        MaterialKind::MaterialX.input_name(ShaderPin::Normal) == Some("normal"@),
        MaterialKind::MaterialX.input_name(ShaderPin::Occlusion) is None,
        MaterialKind::DlPrincipled.input_name(ShaderPin::DiffuseColor) == Some("i_color"@),
        MaterialKind::DlPrincipled.input_name(ShaderPin::EmissionColor) == Some("incandescence"@),
        MaterialKind::DlPrincipled.input_name(ShaderPin::EmissionIntensity) == Some(
            "incandescence_intensity"@,
        ),
        MaterialKind::DlPrincipled.input_name(ShaderPin::Metallic) == Some("metallic"@),
        MaterialKind::DlPrincipled.input_name(ShaderPin::Roughness) == Some("roughness"@),
        MaterialKind::DlPrincipled.input_name(ShaderPin::Opacity) == Some("opacity"@),
        MaterialKind::DlPrincipled.input_name(ShaderPin::Clearcoat) == Some("coating_thickness"@),
        MaterialKind::DlPrincipled.input_name(ShaderPin::ClearcoatRoughness) == Some(
            "coating_roughness"@,
        ),
        MaterialKind::DlPrincipled.input_name(ShaderPin::Normal) is None,
        MaterialKind::DlPrincipled.input_name(ShaderPin::Occlusion) is None,
{
}

/// No number of a material is passed over where two are compared: those that count as equal
/// have the same value for every input, and a material of numbers is equal to itself.
pub proof fn equal_materials_look_the_same(a: MaterialInputs, b: MaterialInputs)
    ensures
        a.equals_spec(b) ==> {
            &&& a.diffuse_color.x.place() == b.diffuse_color.x.place()
            &&& a.diffuse_color.y.place() == b.diffuse_color.y.place()
            &&& a.diffuse_color.z.place() == b.diffuse_color.z.place()
            &&& a.metallic.place() == b.metallic.place()
            &&& a.roughness.place() == b.roughness.place()
            &&& a.opacity.place() == b.opacity.place()
            &&& a.clearcoat.place() == b.clearcoat.place()
            &&& a.clearcoat_roughness.place() == b.clearcoat_roughness.place()
            &&& a.emission_color.x.place() == b.emission_color.x.place()
            &&& a.emission_color.y.place() == b.emission_color.y.place()
            &&& a.emission_color.z.place() == b.emission_color.z.place()
            &&& a.emission_intensity.place() == b.emission_intensity.place()
        },
        a.equals_spec(b) == b.equals_spec(a),
        a.are_numbers() ==> a.equals_spec(a),
{
}

} // verus!
