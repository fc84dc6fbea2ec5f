//! A preview material as USD text, for the textures of a material that was found in a
//! stage.

use crate::stage_materials::{DetectedMaterialTextures, TexturesModel};
use crate::text::{opt_view, replace_text, replaced};
use vstd::prelude::*;

verus! {

/// A path as it stands between the `@` signs of an asset.
pub open spec fn asset_text(path: Seq<char>) -> Seq<char> {
    replaced(replaced(path, "\\"@, "/"@), "@"@, "%40"@)
}

/// A path as it stands between the `@` signs of an asset.
pub fn usda_asset_path(path: &str) -> (r: String)
    ensures
        r@ == asset_text(path@),
{
    proof {
        reveal_strlit("\\");
        reveal_strlit("@");
    }
    let slashes = replace_text(path, "\\", "/");
    replace_text(slashes.as_str(), "@", "%40")
}

/// What a normal map needs besides: its colours run from -1 to 1.
pub open spec fn normal_map_rows(normal_map: bool) -> Seq<char> {
    if normal_map {
        "        float4 inputs:bias = (-1, -1, -1, -1)\n        float4 inputs:scale = (2, 2, 2, 2)\n"@
    } else {
        Seq::empty()
    }
}

/// The shader that reads a texture.
pub open spec fn texture_shader(
    name: Seq<char>,
    path: Seq<char>,
    color_space: Seq<char>,
    normal_map: bool,
) -> Seq<char> {
    "\n    def Shader \""@ + name
        + "\"\n    {\n        uniform token info:id = \"UsdUVTexture\"\n"@ + normal_map_rows(
        normal_map,
    ) + "        asset inputs:file = @"@ + asset_text(path)
        + "@\n        token inputs:sourceColorSpace = \""@ + color_space
        + "\"\n        float2 inputs:st.connect = </Material/stReader.outputs:result>\n        token inputs:wrapS = \"repeat\"\n        token inputs:wrapT = \"repeat\"\n        float outputs:r\n        float3 outputs:rgb\n    }\n"@
}

/// Writes the shader that reads a texture.
pub fn write_texture_shader(
    text: &mut String,
    shader_name: &str,
    path: &str,
    source_color_space: &str,
    normal_map: bool,
)
    ensures
        final(text)@ == old(text)@ + texture_shader(
            shader_name@,
            path@,
            source_color_space@,
            normal_map,
        ),
{
    let asset = usda_asset_path(path);
    let rows = if normal_map {
        String::from_str(
            "        float4 inputs:bias = (-1, -1, -1, -1)\n        float4 inputs:scale = (2, 2, 2, 2)\n",
        )
    } else {
        String::new()
    };
    let block = String::from_str("\n    def Shader \"").concat(shader_name).concat(
        "\"\n    {\n        uniform token info:id = \"UsdUVTexture\"\n",
    ).concat(rows.as_str()).concat("        asset inputs:file = @").concat(
        asset.as_str(),
    ).concat("@\n        token inputs:sourceColorSpace = \"").concat(source_color_space).concat(
        "\"\n        float2 inputs:st.connect = </Material/stReader.outputs:result>\n        token inputs:wrapS = \"repeat\"\n        token inputs:wrapT = \"repeat\"\n        float outputs:r\n        float3 outputs:rgb\n    }\n",
    );
    text.append(block.as_str());
}

/// The shader that reads a texture, if there is one.
pub open spec fn optional_shader(
    name: Seq<char>,
    path: Option<Seq<char>>,
    color_space: Seq<char>,
    normal_map: bool,
) -> Seq<char> {
    match path {
        Some(p) => texture_shader(name, p, color_space, normal_map),
        None => Seq::empty(),
    }
}

/// Writes the shader that reads a texture, if there is one.
fn write_optional_shader(
    text: &mut String,
    shader_name: &str,
    path: &Option<String>,
    source_color_space: &str,
    normal_map: bool,
)
    ensures
        final(text)@ == old(text)@ + optional_shader(
            shader_name@,
            opt_view(*path),
            source_color_space@,
            normal_map,
        ),
{
    match path {
        Some(p) => write_texture_shader(
            text,
            shader_name,
            p.as_str(),
            source_color_space,
            normal_map,
        ),
        None => {
            proof {
                assert(text@ + Seq::<char>::empty() =~= text@);
            }
        },
    }
}

/// One of two texts.
pub open spec fn either(first: bool, a: Seq<char>, b: Seq<char>) -> Seq<char> {
    if first {
        a
    } else {
        b
    }
}

/// One of two texts.
fn one_of(first: bool, a: &'static str, b: &'static str) -> (r: &'static str)
    ensures
        r@ == either(first, a@, b@),
{
    if first {
        a
    } else {
        b
    }
}

/// The inputs of the surface: connected to a texture where there is one. Colour, metalness
/// and roughness have a value without one.
pub open spec fn surface_inputs(t: TexturesModel) -> Seq<char> {
    either(
        t.base_color is Some,
        "        color3f inputs:diffuseColor.connect = </Material/BaseColorTexture.outputs:rgb>\n"@,
        "        color3f inputs:diffuseColor = (0.8, 0.8, 0.8)\n"@,
    ) + either(
        t.metallic is Some,
        "        float inputs:metallic.connect = </Material/MetallicTexture.outputs:r>\n"@,
        "        float inputs:metallic = 0.0\n"@,
    ) + either(
        t.roughness is Some,
        "        float inputs:roughness.connect = </Material/RoughnessTexture.outputs:r>\n"@,
        "        float inputs:roughness = 0.5\n"@,
    ) + either(
        t.normal is Some,
        "        normal3f inputs:normal.connect = </Material/NormalTexture.outputs:rgb>\n"@,
        ""@,
    ) + either(
        t.emission is Some,
        "        color3f inputs:emissiveColor.connect = </Material/EmissionTexture.outputs:rgb>\n"@,
        ""@,
    ) + either(
        t.occlusion is Some,
        "        float inputs:occlusion.connect = </Material/OcclusionTexture.outputs:r>\n"@,
        ""@,
    )
}

/// The shaders that read the textures.
pub open spec fn texture_shaders(t: TexturesModel) -> Seq<char> {
    optional_shader("BaseColorTexture"@, t.base_color, "sRGB"@, false) + optional_shader(
        "MetallicTexture"@,
        t.metallic,
        "raw"@,
        false,
    ) + optional_shader("RoughnessTexture"@, t.roughness, "raw"@, false) + optional_shader(
        "NormalTexture"@,
        t.normal,
        "raw"@,
        true,
    ) + optional_shader("EmissionTexture"@, t.emission, "sRGB"@, false) + optional_shader(
        "OcclusionTexture"@,
        t.occlusion,
        "raw"@,
        false,
    )
}

/// The document for a material.
pub open spec fn material_document(t: TexturesModel) -> Seq<char> {
    "#usda 1.0\n(\n    defaultPrim = \"Material\"\n    doc = \"Imported USDZ material network generated by forge-paint.\"\n)\n\ndef Material \"Material\"\n{\n    token outputs:surface.connect = </Material/Surface.outputs:surface>\n\n    def Shader \"Surface\"\n    {\n        uniform token info:id = \"UsdPreviewSurface\"\n"@
        + surface_inputs(t)
        + "        token outputs:surface\n    }\n\n    def Shader \"stReader\"\n    {\n        uniform token info:id = \"UsdPrimvarReader_float2\"\n        token inputs:varname = \""@
        + t.uv_primvar + "\"\n        float2 outputs:result\n    }\n"@ + texture_shaders(t)
        + "}\n"@
}

/// The inputs of the surface.
fn surface_text(t: &DetectedMaterialTextures) -> (r: String)
    ensures
        r@ == surface_inputs(t@),
{
    let mut text = String::from_str(
        one_of(
            t.base_color.is_some(),
            "        color3f inputs:diffuseColor.connect = </Material/BaseColorTexture.outputs:rgb>\n",
            "        color3f inputs:diffuseColor = (0.8, 0.8, 0.8)\n",
        ),
    );
    text.append(
        one_of(
            t.metallic.is_some(),
            "        float inputs:metallic.connect = </Material/MetallicTexture.outputs:r>\n",
            "        float inputs:metallic = 0.0\n",
        ),
    );
    text.append(
        one_of(
            t.roughness.is_some(),
            "        float inputs:roughness.connect = </Material/RoughnessTexture.outputs:r>\n",
            "        float inputs:roughness = 0.5\n",
        ),
    );
    text.append(
        one_of(
            t.normal.is_some(),
            "        normal3f inputs:normal.connect = </Material/NormalTexture.outputs:rgb>\n",
            "",
        ),
    );
    text.append(
        one_of(
            t.emission.is_some(),
            "        color3f inputs:emissiveColor.connect = </Material/EmissionTexture.outputs:rgb>\n",
            "",
        ),
    );
    text.append(
        one_of(
            t.occlusion.is_some(),
            "        float inputs:occlusion.connect = </Material/OcclusionTexture.outputs:r>\n",
            "",
        ),
    );
    text
}

/// The document for a material.
pub fn write_usd_preview_material(textures: &DetectedMaterialTextures) -> (r: String)
    ensures
        r@ == material_document(textures@),
{
    let inputs = surface_text(textures);
    let mut shaders = String::new();
    write_optional_shader(&mut shaders, "BaseColorTexture", &textures.base_color, "sRGB", false);
    write_optional_shader(&mut shaders, "MetallicTexture", &textures.metallic, "raw", false);
    write_optional_shader(&mut shaders, "RoughnessTexture", &textures.roughness, "raw", false);
    write_optional_shader(&mut shaders, "NormalTexture", &textures.normal, "raw", true);
    write_optional_shader(&mut shaders, "EmissionTexture", &textures.emission, "sRGB", false);
    write_optional_shader(&mut shaders, "OcclusionTexture", &textures.occlusion, "raw", false);
    proof {
        assert(shaders@ =~= texture_shaders(textures@));
    }
    String::from_str(
        "#usda 1.0\n(\n    defaultPrim = \"Material\"\n    doc = \"Imported USDZ material network generated by forge-paint.\"\n)\n\ndef Material \"Material\"\n{\n    token outputs:surface.connect = </Material/Surface.outputs:surface>\n\n    def Shader \"Surface\"\n    {\n        uniform token info:id = \"UsdPreviewSurface\"\n",
    ).concat(inputs.as_str()).concat(
        "        token outputs:surface\n    }\n\n    def Shader \"stReader\"\n    {\n        uniform token info:id = \"UsdPrimvarReader_float2\"\n        token inputs:varname = \"",
    ).concat(textures.uv_primvar.as_str()).concat(
        "\"\n        float2 outputs:result\n    }\n",
    ).concat(shaders.as_str()).concat("}\n")
}

} // verus!
