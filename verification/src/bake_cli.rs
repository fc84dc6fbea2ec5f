//! Baking from the command line: what the arguments ask of the baker.

use crate::bake::{
    config_spec, max_ray_length, ray_length, BakeConfig, BakeConfigModel, BakeRequest,
    BakeSettings, CurvatureSettings, Distribution, NormalConvention, RaySettings, DEFAULT_RAYS,
    HALF_TURN,
};
use crate::single::Single;
use crate::text::{lower, same_text, to_lower};
use vstd::prelude::*;

verus! {

/// The arguments of a bake.
#[derive(Debug)]
pub struct BakeArgs {
    pub lowpoly: String,
    pub highpoly: Option<String>,
    pub cage: Option<String>,
    pub width: u32,
    pub height: u32,
    pub output: String,
    pub prefix: String,
    pub frontal_distance: Single,
    pub rear_distance: Single,
    pub no_ignore_backface: bool,
    pub dilation: u32,
    pub no_normal: bool,
    pub world_normal: bool,
    pub no_ao: bool,
    pub no_curvature: bool,
    pub no_position: bool,
    pub thickness: bool,
    pub height_map: bool,
    pub bent_normals: bool,
    pub id: bool,
    pub ao_rays: u32,
    pub ao_max_distance: Single,
    pub ao_spread: Single,
    pub ao_distribution: String,
    pub thickness_rays: Option<u32>,
    pub thickness_max_distance: Option<Single>,
    pub thickness_spread: Single,
    pub bent_rays: Option<u32>,
    pub bent_max_distance: Option<Single>,
    pub normal_format: String,
    pub curvature_intensity: Single,
    pub curvature_detail: Single,
    pub curvature_radius: Single,
    pub aa: u32,
    pub no_gpu: bool,
    pub match_by_name: bool,
    pub low_suffix: String,
    pub high_suffix: String,
}

/// The convention that a word names, in any case; unknown words stand for the default.
pub open spec fn normal_format_named(word: Seq<char>) -> NormalConvention {
    if lower(word) == "opengl"@ || lower(word) == "gl"@ {
        NormalConvention::OpenGL
    } else {
        NormalConvention::DirectX
    }
}

/// The convention that a word names.
pub fn parse_normal_format(word: &str) -> (r: NormalConvention)
    ensures
        r == normal_format_named(word@),
{
    let w = to_lower(word);
    if same_text(w.as_str(), "opengl") || same_text(w.as_str(), "gl") {
        NormalConvention::OpenGL
    } else {
        NormalConvention::DirectX
    }
}

/// The distribution that a word names, in any case; unknown words stand for the default.
pub open spec fn distribution_named(word: Seq<char>) -> Distribution {
    if lower(word) == "uniform"@ {
        Distribution::Uniform
    } else {
        Distribution::Cosine
    }
}

/// The distribution that a word names.
pub fn parse_distribution(word: &str) -> (r: Distribution)
    ensures
        r == distribution_named(word@),
{
    let w = to_lower(word);
    if same_text(w.as_str(), "uniform") {
        Distribution::Uniform
    } else {
        Distribution::Cosine
    }
}

/// The number that was given, or else another.
pub open spec fn rays_or(given: Option<u32>, other: u32) -> u32 {
    match given {
        Some(n) => n,
        None => other,
    }
}

/// The ray length that was given, or else that of another distance.
pub open spec fn length_or(given: Option<Single>, other: Single) -> Single {
    match given {
        Some(d) => ray_length(d),
        None => ray_length(other),
    }
}

/// The ray length that was given, or else that of another distance.
fn max_length_or(given: Option<Single>, other: Single) -> (r: Single)
    ensures
        r == length_or(given, other),
{
    match given {
        Some(d) => max_ray_length(d),
        None => max_ray_length(other),
    }
}

/// What the arguments ask of the baker. Curvature is measured on the world normals, so it
/// brings them with it. Thickness and bent normals use the rays of ambient occlusion where
/// they are not given their own.
pub open spec fn config_asked(args: BakeArgs) -> BakeConfigModel {
    BakeConfigModel {
        width: args.width,
        height: args.height,
        maps: Some(
            BakeRequest {
                normal: !args.no_normal,
                world_normal: args.world_normal || !args.no_curvature,
                ao: !args.no_ao,
                curvature: !args.no_curvature,
                position: !args.no_position,
                thickness: args.thickness,
                height: args.height_map,
                bent_normals: args.bent_normals,
                id: args.id,
            },
        ),
        normal_format: normal_format_named(args.normal_format@),
        ao_settings: RaySettings {
            ray_count: args.ao_rays,
            max_distance: ray_length(args.ao_max_distance),
            spread_angle: Some(args.ao_spread),
            distribution: Some(distribution_named(args.ao_distribution@)),
        },
        thickness_settings: RaySettings {
            ray_count: rays_or(args.thickness_rays, args.ao_rays),
            max_distance: length_or(args.thickness_max_distance, args.ao_max_distance),
            spread_angle: Some(args.thickness_spread),
            distribution: None,
        },
        bent_normal_settings: RaySettings {
            ray_count: rays_or(args.bent_rays, args.ao_rays),
            max_distance: length_or(args.bent_max_distance, args.ao_max_distance),
            spread_angle: None,
            distribution: None,
        },
        max_frontal_distance: args.frontal_distance,
        max_rear_distance: args.rear_distance,
        ignore_backface: !args.no_ignore_backface,
        dilation: args.dilation,
        curvature_settings: Some(
            CurvatureSettings {
                intensity: args.curvature_intensity,
                detail: args.curvature_detail,
                radius_scale: args.curvature_radius,
            },
        ),
        curvature_intensity: args.curvature_intensity,
        output_dir: args.output@,
        output_prefix: args.prefix@,
        match_by_name: args.match_by_name,
        low_suffix: args.low_suffix@,
        high_suffix: args.high_suffix@,
        aa_factor: args.aa,
        use_gpu: !args.no_gpu,
    }
}

/// What the arguments ask of the baker.
pub fn bake_config(args: &BakeArgs) -> (r: BakeConfig)
    ensures
        r@ == config_asked(*args),
        r.width == args.width && r.height == args.height,
        r.output_dir@ == args.output@,
        r.output_prefix@ == args.prefix@,
        r.low_suffix@ == args.low_suffix@,
        r.high_suffix@ == args.high_suffix@,
        r.max_frontal_distance == args.frontal_distance,
        r.max_rear_distance == args.rear_distance,
{
    let thickness_ray_count: u32 = match args.thickness_rays {
        Some(n) => n,
        None => args.ao_rays,
    };
    let bent_ray_count: u32 = match args.bent_rays {
        Some(n) => n,
        None => args.ao_rays,
    };
    BakeConfig {
        width: args.width,
        height: args.height,
        maps: Some(
            BakeRequest {
                normal: !args.no_normal,
                world_normal: args.world_normal || !args.no_curvature,
                ao: !args.no_ao,
                curvature: !args.no_curvature,
                position: !args.no_position,
                thickness: args.thickness,
                height: args.height_map,
                bent_normals: args.bent_normals,
                id: args.id,
            },
        ),
        normal_format: parse_normal_format(args.normal_format.as_str()),
        ao_settings: RaySettings {
            ray_count: args.ao_rays,
            max_distance: max_ray_length(args.ao_max_distance),
            spread_angle: Some(args.ao_spread),
            distribution: Some(parse_distribution(args.ao_distribution.as_str())),
        },
        thickness_settings: RaySettings {
            ray_count: thickness_ray_count,
            max_distance: max_length_or(args.thickness_max_distance, args.ao_max_distance),
            spread_angle: Some(args.thickness_spread),
            distribution: None,
        },
        bent_normal_settings: RaySettings {
            ray_count: bent_ray_count,
            max_distance: max_length_or(args.bent_max_distance, args.ao_max_distance),
            spread_angle: None,
            distribution: None,
        },
        max_frontal_distance: args.frontal_distance,
        max_rear_distance: args.rear_distance,
        ignore_backface: !args.no_ignore_backface,
        dilation: args.dilation,
        curvature_settings: Some(
            CurvatureSettings {
                intensity: args.curvature_intensity,
                detail: args.curvature_detail,
                radius_scale: args.curvature_radius,
            },
        ),
        curvature_intensity: args.curvature_intensity,
        output_dir: String::from_str(args.output.as_str()),
        output_prefix: String::from_str(args.prefix.as_str()),
        match_by_name: args.match_by_name,
        low_suffix: String::from_str(args.low_suffix.as_str()),
        high_suffix: String::from_str(args.high_suffix.as_str()),
        aa_factor: args.aa,
        use_gpu: !args.no_gpu,
    }
}

/// Whether the arguments that tune rays, smoothing and normals were left as they are.
pub open spec fn is_untuned(args: BakeArgs) -> bool {
    &&& args.ao_rays == DEFAULT_RAYS
    &&& args.ao_max_distance == (Single { bits: 0 })
    &&& args.ao_spread == (Single { bits: HALF_TURN })
    &&& args.ao_distribution@ == "cosine"@
    &&& args.thickness_rays is None
    &&& args.thickness_max_distance is None
    &&& args.thickness_spread == (Single { bits: HALF_TURN })
    &&& args.bent_rays is None
    &&& args.bent_max_distance is None
    &&& args.normal_format@ == "directx"@
    &&& args.aa == 1
    &&& !args.no_gpu
}

/// Baking in the program, with the settings that it starts from, asks the same of the baker as
/// baking from the command line does where nothing is tuned.
pub proof fn defaults_agree(args: BakeArgs, resolution: u32)
    requires
        is_untuned(args),
    ensures
        ({
            let told = config_asked(args);
            let own = config_spec(resolution, BakeSettings::initial());
            &&& told.ao_settings == own.ao_settings
            &&& told.thickness_settings == own.thickness_settings
            &&& told.bent_normal_settings == own.bent_normal_settings
            &&& told.normal_format == own.normal_format
            &&& told.aa_factor == own.aa_factor
            &&& told.use_gpu == own.use_gpu
        }),
{
    reveal_strlit("cosine");
    reveal_strlit("uniform");
    reveal_strlit("directx");
    reveal_strlit("opengl");
    reveal_strlit("gl");
    assert(lower("cosine"@).len() == 6);
    assert(lower("directx"@).len() == 7);
}

/// Every number and text that the user gives goes where it is meant to go: the sizes, the
/// directory, the prefix of the file names, the two distances, the suffixes, and what tunes
/// curvature.
pub proof fn values_go_where_they_are_meant(args: BakeArgs)
    ensures
        ({
            let c = config_asked(args);
            &&& c.width == args.width
            &&& c.height == args.height
            &&& c.output_dir == args.output@
            &&& c.output_prefix == args.prefix@
            &&& c.low_suffix == args.low_suffix@
            &&& c.high_suffix == args.high_suffix@
            &&& c.max_frontal_distance == args.frontal_distance
            &&& c.max_rear_distance == args.rear_distance
            &&& c.dilation == args.dilation
            &&& c.aa_factor == args.aa
            &&& c.match_by_name == args.match_by_name
            &&& c.curvature_intensity == args.curvature_intensity
            &&& c.curvature_settings matches Some(s) && s.intensity == args.curvature_intensity
                && s.detail == args.curvature_detail && s.radius_scale == args.curvature_radius
            &&& c.ao_settings.spread_angle == Some(args.ao_spread)
            &&& c.thickness_settings.spread_angle == Some(args.thickness_spread)
        }),
{
}

/// What is said in the negative is left out, and nothing else is: back faces, the graphics
/// card, and the four maps that are baked unless they are refused.
pub proof fn refusals_are_obeyed(args: BakeArgs)
    ensures
        ({
            let c = config_asked(args);
            &&& c.ignore_backface != args.no_ignore_backface
            &&& c.use_gpu != args.no_gpu
            &&& c.maps matches Some(m) && m.normal != args.no_normal && m.ao != args.no_ao
                && m.curvature != args.no_curvature && m.position != args.no_position
        }),
{
}

/// The other maps are baked exactly where they are asked for; world normals also where
/// curvature needs them.
pub proof fn other_maps_are_baked_on_request(args: BakeArgs)
    ensures
        config_asked(args).maps matches Some(m) && {
            &&& m.thickness == args.thickness
            &&& m.height == args.height_map
            &&& m.bent_normals == args.bent_normals
            &&& m.id == args.id
            &&& m.world_normal <==> args.world_normal || m.curvature
        },
{
}

/// Rays that are given for a map are used for that map; a map without its own uses as many
/// as ambient occlusion, and as long ones.
pub proof fn rays_are_those_of_the_map(args: BakeArgs)
    ensures
        ({
            let c = config_asked(args);
            &&& c.ao_settings.ray_count == args.ao_rays
            &&& c.ao_settings.max_distance == ray_length(args.ao_max_distance)
            &&& args.thickness_rays matches Some(n) ==> c.thickness_settings.ray_count == n
            &&& args.bent_rays matches Some(n) ==> c.bent_normal_settings.ray_count == n
            &&& args.thickness_rays is None ==> c.thickness_settings.ray_count
                == c.ao_settings.ray_count
            &&& args.bent_rays is None ==> c.bent_normal_settings.ray_count
                == c.ao_settings.ray_count
            &&& args.thickness_max_distance matches Some(d) ==> c.thickness_settings.max_distance
                == ray_length(d)
            &&& args.bent_max_distance matches Some(d) ==> c.bent_normal_settings.max_distance
                == ray_length(d)
            &&& args.thickness_max_distance is None ==> c.thickness_settings.max_distance
                == c.ao_settings.max_distance
            &&& args.bent_max_distance is None ==> c.bent_normal_settings.max_distance
                == c.ao_settings.max_distance
        }),
{
}

/// The words for conventions and distributions mean what they say, in whatever case they are
/// written, and no other word means the one that is not the default.
pub proof fn words_mean_what_they_say(word: Seq<char>)
    ensures
        lower(word) == "opengl"@ ==> normal_format_named(word) == NormalConvention::OpenGL,
        lower(word) == "gl"@ ==> normal_format_named(word) == NormalConvention::OpenGL,
        lower(word) == "directx"@ ==> normal_format_named(word) == NormalConvention::DirectX,
        lower(word) == "uniform"@ ==> distribution_named(word) == Distribution::Uniform,
        lower(word) == "cosine"@ ==> distribution_named(word) == Distribution::Cosine,
        normal_format_named(word) == NormalConvention::OpenGL ==> lower(word) == "opengl"@ || lower(
            word,
        ) == "gl"@,
        distribution_named(word) == Distribution::Uniform ==> lower(word) == "uniform"@,
{
    reveal_strlit("cosine");
    reveal_strlit("uniform");
    reveal_strlit("directx");
    reveal_strlit("opengl");
    reveal_strlit("gl");
    assert("directx"@.len() == 7 && "opengl"@.len() == 6 && "gl"@.len() == 2);
    assert("cosine"@.len() == 6 && "uniform"@.len() == 7);
}

/// Whoever bakes curvature bakes world normals too.
pub proof fn curvature_brings_world_normals(args: BakeArgs)
    ensures
        config_asked(args).maps matches Some(maps) && (maps.curvature ==> maps.world_normal),
{
}

} // verus!
