//! Baked mesh maps: which ones there are, how their results are stored, and how a mesh
//! is cut into the tiles that are baked one at a time.

use crate::pixels::{flip_rows, flipped};
use crate::single::{Single, HALF, ONE};
use crate::text::{decimal, decimal_text};
use vstd::prelude::*;

verus! {

/// The maps that can be baked from a mesh.
#[derive(Clone, Copy, Debug, PartialEq, Eq, Structural)]
pub enum MapKind {
    AmbientOcclusion,
    Curvature,
    Thickness,
    Height,
    Normal,
    WorldNormal,
    BentNormal,
    Position,
    Id,
}

impl MapKind {
    /// The name shown to the user.
    pub open spec fn label_text(self) -> Seq<char> {
        match self {
            MapKind::AmbientOcclusion => "Ambient occlusion"@,
            MapKind::Curvature => "Curvature"@,
            MapKind::Thickness => "Thickness"@,
            MapKind::Height => "Height"@,
            MapKind::Normal => "Normal (tangent)"@,
            MapKind::WorldNormal => "World normal"@,
            MapKind::BentNormal => "Bent normal"@,
            MapKind::Position => "World position"@,
            MapKind::Id => "Id"@,
        }
    }

    /// The name shown to the user.
    pub fn label(self) -> (r: &'static str)
        ensures
            r@ == self.label_text(),
    {
        match self {
            MapKind::AmbientOcclusion => "Ambient occlusion",
            MapKind::Curvature => "Curvature",
            MapKind::Thickness => "Thickness",
            MapKind::Height => "Height",
            MapKind::Normal => "Normal (tangent)",
            MapKind::WorldNormal => "World normal",
            MapKind::BentNormal => "Bent normal",
            MapKind::Position => "World position",
            MapKind::Id => "Id",
        }
    }

    /// What the baker calls this map.
    pub open spec fn map_type_spec(self) -> BakerMap {
        match self {
            MapKind::AmbientOcclusion => BakerMap::Ao,
            MapKind::Curvature => BakerMap::Curvature,
            MapKind::Thickness => BakerMap::Thickness,
            MapKind::Height => BakerMap::Height,
            MapKind::Normal => BakerMap::Normal,
            MapKind::WorldNormal => BakerMap::WorldNormal,
            MapKind::BentNormal => BakerMap::BentNormals,
            MapKind::Position => BakerMap::Position,
            MapKind::Id => BakerMap::Id,
        }
    }

    /// What the baker calls this map.
    pub fn map_type(self) -> (r: BakerMap)
        ensures
            r == self.map_type_spec(),
    {
        match self {
            MapKind::AmbientOcclusion => BakerMap::Ao,
            MapKind::Curvature => BakerMap::Curvature,
            MapKind::Thickness => BakerMap::Thickness,
            MapKind::Height => BakerMap::Height,
            MapKind::Normal => BakerMap::Normal,
            MapKind::WorldNormal => BakerMap::WorldNormal,
            MapKind::BentNormal => BakerMap::BentNormals,
            MapKind::Position => BakerMap::Position,
            MapKind::Id => BakerMap::Id,
        }
    }

    /// Whether the map holds one number for each pixel.
    pub open spec fn is_scalar(self) -> bool {
        self == MapKind::AmbientOcclusion || self == MapKind::Curvature || self
            == MapKind::Thickness || self == MapKind::Height
    }

    /// How the pixels of the map are stored: one byte where it holds one number, half
    /// precision where the numbers leave the unit range, else four bytes.
    pub open spec fn texture_format_spec(self) -> MapFormat {
        if self.is_scalar() {
            MapFormat::R8Unorm
        } else if self == MapKind::Position {
            MapFormat::Rgba16Float
        } else {
            MapFormat::Rgba8Unorm
        }
    }

    /// How the pixels of the map are stored.
    pub fn texture_format(self) -> (r: MapFormat)
        ensures
            r == self.texture_format_spec(),
    {
        match self {
            MapKind::AmbientOcclusion
            | MapKind::Curvature
            | MapKind::Thickness
            | MapKind::Height => MapFormat::R8Unorm,
            MapKind::Position => MapFormat::Rgba16Float,
            MapKind::Normal | MapKind::WorldNormal | MapKind::BentNormal | MapKind::Id => {
                MapFormat::Rgba8Unorm
            },
        }
    }
}

/// The maps as the baker knows them.
#[derive(Clone, Copy, Debug, PartialEq, Eq, Structural)]
pub enum BakerMap {
    Ao,
    Curvature,
    Thickness,
    Height,
    Normal,
    WorldNormal,
    BentNormals,
    Position,
    Id,
}

/// No two maps are one and the same to the baker.
pub proof fn map_types_differ(a: MapKind, b: MapKind)
    ensures
        a.map_type_spec() == b.map_type_spec() <==> a == b,
{
}

/// The baker is asked for the map that is meant.
pub proof fn map_types_are_those_meant(kind: MapKind)
    ensures
        kind.map_type_spec() == BakerMap::Ao <==> kind == MapKind::AmbientOcclusion,
        kind.map_type_spec() == BakerMap::Curvature <==> kind == MapKind::Curvature,
        kind.map_type_spec() == BakerMap::Thickness <==> kind == MapKind::Thickness,
        kind.map_type_spec() == BakerMap::Height <==> kind == MapKind::Height,
        kind.map_type_spec() == BakerMap::Normal <==> kind == MapKind::Normal,
        kind.map_type_spec() == BakerMap::WorldNormal <==> kind == MapKind::WorldNormal,
        kind.map_type_spec() == BakerMap::BentNormals <==> kind == MapKind::BentNormal,
        kind.map_type_spec() == BakerMap::Position <==> kind == MapKind::Position,
        kind.map_type_spec() == BakerMap::Id <==> kind == MapKind::Id,
{
}

/// How the pixels of a baked map are stored.
#[derive(Clone, Copy, Debug, PartialEq, Eq, Structural)]
pub enum MapFormat {
    R8Unorm,
    Rgba8Unorm,
    Rgba16Float,
}

impl MapFormat {
    /// The bytes that a pixel takes.
    pub open spec fn bytes_per_pixel_spec(self) -> u32 {
        match self {
            MapFormat::R8Unorm => 1,
            MapFormat::Rgba8Unorm => 4,
            MapFormat::Rgba16Float => 8,
        }
    }

    /// The bytes that a pixel takes.
    pub fn bytes_per_pixel(self) -> (r: u32)
        ensures
            r == self.bytes_per_pixel_spec(),
    {
        match self {
            MapFormat::R8Unorm => 1,
            MapFormat::Rgba8Unorm => 4,
            MapFormat::Rgba16Float => 8,
        }
    }

    /// The bytes that a row of a square image takes.
    pub fn bytes_per_row(self, resolution: u32) -> (r: u32)
        requires
            resolution * self.bytes_per_pixel_spec() <= u32::MAX,
        ensures
            r == resolution * self.bytes_per_pixel_spec(),
    {
        match self {
            MapFormat::R8Unorm => resolution,
            MapFormat::Rgba8Unorm => resolution * 4,
            MapFormat::Rgba16Float => resolution * 8,
        }
    }
}

/// The sign of the green channel of a normal map.
#[derive(Clone, Copy, Debug, PartialEq, Eq, Structural)]
pub enum NormalConvention {
    /// Green points up.
    DirectX,
    /// Green points down.
    OpenGL,
}

/// How rays are spread over the hemisphere.
#[derive(Clone, Copy, Debug, PartialEq, Eq, Structural)]
pub enum Distribution {
    Cosine,
    Uniform,
}

/// What the user can tune about a bake.
#[derive(Clone, Copy, Debug, PartialEq, Eq, Structural)]
pub struct BakeSettings {
    pub ao_rays: u32,
    pub thickness_rays: u32,
    pub bent_rays: u32,
    pub spread_angle_deg: Single,
    pub max_distance: Single,
    pub aa_factor: u32,
    pub use_gpu: bool,
    pub normal_format: NormalConvention,
}

/// The bits of 180.
pub const HALF_TURN: u32 = 0x4334_0000;

/// The bits of the largest finite number, which stands for an unlimited distance.
pub const UNLIMITED: u32 = 0x7f7f_ffff;

/// How many rays are used where nothing else is asked for.
pub const DEFAULT_RAYS: u32 = 128;

impl BakeSettings {
    /// As many rays as the command line asks for where it is not told, of any length over the
    /// whole hemisphere, without smoothing.
    pub open spec fn initial() -> BakeSettings {
        BakeSettings {
            ao_rays: DEFAULT_RAYS,
            thickness_rays: DEFAULT_RAYS,
            bent_rays: DEFAULT_RAYS,
            spread_angle_deg: Single { bits: HALF_TURN },
            max_distance: Single { bits: 0 },
            aa_factor: 1,
            use_gpu: true,
            normal_format: NormalConvention::DirectX,
        }
    }
}

impl Default for BakeSettings {
    fn default() -> (r: Self)
        ensures
            r == BakeSettings::initial(),
    {
        BakeSettings {
            ao_rays: DEFAULT_RAYS,
            thickness_rays: DEFAULT_RAYS,
            bent_rays: DEFAULT_RAYS,
            spread_angle_deg: Single { bits: HALF_TURN },
            max_distance: Single { bits: 0 },
            aa_factor: 1,
            use_gpu: true,
            normal_format: NormalConvention::DirectX,
        }
    }
}

/// How far rays go: distances that are not positive stand for unlimited ones.
pub open spec fn ray_length(distance: Single) -> Single {
    if !distance.is_nan_spec() && distance.place() <= 0 {
        Single { bits: UNLIMITED }
    } else {
        distance
    }
}

/// How far rays go.
pub fn max_ray_length(distance: Single) -> (r: Single)
    ensures
        r == ray_length(distance),
{
    let zero = Single { bits: 0 };
    if distance.is_nan() || zero.less(distance) {
        distance
    } else {
        Single { bits: UNLIMITED }
    }
}

/// No ray is of a length that is not positive.
pub proof fn rays_have_a_length(distance: Single)
    requires
        !distance.is_nan_spec(),
    ensures
        !ray_length(distance).is_nan_spec(),
        ray_length(distance).place() > 0,
{
}

/// A distance that is positive is kept; any other number is taken as the largest there is.
pub proof fn positive_distances_are_kept(distance: Single, other: Single)
    requires
        !distance.is_nan_spec(),
    ensures
        distance.place() > 0 ==> ray_length(distance) == distance,
        distance.place() <= 0 && other.is_finite_spec()
            ==> ray_length(distance).place() >= other.place(),
{
}

/// The rays of one map; what is not given is left to the baker.
#[derive(Clone, Copy, Debug, PartialEq, Eq, Structural)]
pub struct RaySettings {
    pub ray_count: u32,
    pub max_distance: Single,
    pub spread_angle: Option<Single>,
    pub distribution: Option<Distribution>,
}

/// Which maps are baked together.
#[derive(Clone, Copy, Debug, PartialEq, Eq, Structural)]
pub struct BakeRequest {
    pub normal: bool,
    pub world_normal: bool,
    pub ao: bool,
    pub curvature: bool,
    pub position: bool,
    pub thickness: bool,
    pub height: bool,
    pub bent_normals: bool,
    pub id: bool,
}

/// How curvature is measured.
#[derive(Clone, Copy, Debug, PartialEq, Eq, Structural)]
pub struct CurvatureSettings {
    pub intensity: Single,
    pub detail: Single,
    pub radius_scale: Single,
}

/// What the baker is told; what is not given is left to it.
#[derive(Clone, Debug)]
pub struct BakeConfig {
    pub width: u32,
    pub height: u32,
    pub maps: Option<BakeRequest>,
    pub normal_format: NormalConvention,
    pub ao_settings: RaySettings,
    pub thickness_settings: RaySettings,
    pub bent_normal_settings: RaySettings,
    pub max_frontal_distance: Single,
    pub max_rear_distance: Single,
    pub ignore_backface: bool,
    pub dilation: u32,
    pub curvature_settings: Option<CurvatureSettings>,
    pub curvature_intensity: Single,
    pub output_dir: String,
    pub output_prefix: String,
    pub match_by_name: bool,
    pub low_suffix: String,
    pub high_suffix: String,
    pub aa_factor: u32,
    pub use_gpu: bool,
}

/// The value of a bake configuration.
pub struct BakeConfigModel {
    pub width: u32,
    pub height: u32,
    pub maps: Option<BakeRequest>,
    pub normal_format: NormalConvention,
    pub ao_settings: RaySettings,
    pub thickness_settings: RaySettings,
    pub bent_normal_settings: RaySettings,
    pub max_frontal_distance: Single,
    pub max_rear_distance: Single,
    pub ignore_backface: bool,
    pub dilation: u32,
    pub curvature_settings: Option<CurvatureSettings>,
    pub curvature_intensity: Single,
    pub output_dir: Seq<char>,
    pub output_prefix: Seq<char>,
    pub match_by_name: bool,
    pub low_suffix: Seq<char>,
    pub high_suffix: Seq<char>,
    pub aa_factor: u32,
    pub use_gpu: bool,
}

impl View for BakeConfig {
    type V = BakeConfigModel;

    open spec fn view(&self) -> BakeConfigModel {
        BakeConfigModel {
            width: self.width,
            height: self.height,
            maps: self.maps,
            normal_format: self.normal_format,
            ao_settings: self.ao_settings,
            thickness_settings: self.thickness_settings,
            bent_normal_settings: self.bent_normal_settings,
            max_frontal_distance: self.max_frontal_distance,
            max_rear_distance: self.max_rear_distance,
            ignore_backface: self.ignore_backface,
            dilation: self.dilation,
            curvature_settings: self.curvature_settings,
            curvature_intensity: self.curvature_intensity,
            output_dir: self.output_dir@,
            output_prefix: self.output_prefix@,
            match_by_name: self.match_by_name,
            low_suffix: self.low_suffix@,
            high_suffix: self.high_suffix@,
            aa_factor: self.aa_factor,
            use_gpu: self.use_gpu,
        }
    }
}

/// The configuration for a square map of the given size: one map at a time, nothing
/// written to disk, empty pixels filled without a limit.
pub open spec fn config_spec(resolution: u32, settings: BakeSettings) -> BakeConfigModel {
    let max_distance = ray_length(settings.max_distance);
    BakeConfigModel {
        width: resolution,
        height: resolution,
        maps: None,
        normal_format: settings.normal_format,
        ao_settings: RaySettings {
            ray_count: settings.ao_rays,
            max_distance,
            spread_angle: Some(settings.spread_angle_deg),
            distribution: Some(Distribution::Cosine),
        },
        thickness_settings: RaySettings {
            ray_count: settings.thickness_rays,
            max_distance,
            spread_angle: Some(settings.spread_angle_deg),
            distribution: None,
        },
        bent_normal_settings: RaySettings {
            ray_count: settings.bent_rays,
            max_distance,
            spread_angle: None,
            distribution: None,
        },
        max_frontal_distance: Single { bits: HALF },
        max_rear_distance: Single { bits: HALF },
        ignore_backface: true,
        dilation: 0,
        curvature_settings: None,
        curvature_intensity: Single { bits: ONE },
        output_dir: Seq::empty(),
        output_prefix: Seq::empty(),
        match_by_name: false,
        low_suffix: Seq::empty(),
        high_suffix: Seq::empty(),
        aa_factor: settings.aa_factor,
        use_gpu: settings.use_gpu,
    }
}

/// The configuration for a square map of the given size.
pub fn make_config(resolution: u32, settings: &BakeSettings) -> (r: BakeConfig)
    ensures
        r@ == config_spec(resolution, *settings),
{
    let max_distance = max_ray_length(settings.max_distance);
    let r = BakeConfig {
        width: resolution,
        height: resolution,
        maps: None,
        normal_format: settings.normal_format,
        ao_settings: RaySettings {
            ray_count: settings.ao_rays,
            max_distance,
            spread_angle: Some(settings.spread_angle_deg),
            distribution: Some(Distribution::Cosine),
        },
        thickness_settings: RaySettings {
            ray_count: settings.thickness_rays,
            max_distance,
            spread_angle: Some(settings.spread_angle_deg),
            distribution: None,
        },
        bent_normal_settings: RaySettings {
            ray_count: settings.bent_rays,
            max_distance,
            spread_angle: None,
            distribution: None,
        },
        max_frontal_distance: Single { bits: HALF },
        max_rear_distance: Single { bits: HALF },
        ignore_backface: true,
        dilation: 0,
        curvature_settings: None,
        curvature_intensity: Single { bits: ONE },
        output_dir: String::new(),
        output_prefix: String::new(),
        match_by_name: false,
        low_suffix: String::new(),
        high_suffix: String::new(),
        aa_factor: settings.aa_factor,
        use_gpu: settings.use_gpu,
    };
    proof {
        assert(r.output_dir@ =~= Seq::<char>::empty());
    }
    r
}

/// A bake in the program is square, goes by what the user tuned, and uses rays of one length
/// for every map that needs them.
pub proof fn settings_are_obeyed(resolution: u32, settings: BakeSettings)
    ensures
        ({
            let c = config_spec(resolution, settings);
            &&& c.width == resolution && c.height == resolution
            &&& c.normal_format == settings.normal_format
            &&& c.ao_settings.ray_count == settings.ao_rays
            &&& c.thickness_settings.ray_count == settings.thickness_rays
            &&& c.bent_normal_settings.ray_count == settings.bent_rays
            &&& c.ao_settings.spread_angle == Some(settings.spread_angle_deg)
            &&& c.thickness_settings.spread_angle == Some(settings.spread_angle_deg)
            &&& c.ao_settings.max_distance == ray_length(settings.max_distance)
            &&& c.thickness_settings.max_distance == ray_length(settings.max_distance)
            &&& c.bent_normal_settings.max_distance == ray_length(settings.max_distance)
            &&& c.aa_factor == settings.aa_factor
            &&& c.use_gpu == settings.use_gpu
        }),
{
}

/// A number as a baked map stores it: rounded to a byte, and in half precision.
#[derive(Clone, Copy, Debug, PartialEq, Eq, Structural)]
pub struct Sample {
    pub byte: u8,
    pub half: u16,
}

/// What the baker hands back: the pixels and the size of an image.
pub enum PreviewResult {
    Gray(Vec<Sample>, u32, u32),
    Rgb(Vec<[Sample; 3]>, u32, u32),
}

/// The bits of one in half precision.
pub const HALF_PRECISION_ONE: u16 = 0x3c00;

/// One byte for each pixel.
pub open spec fn gray_bytes(px: Seq<Sample>) -> Seq<u8> {
    Seq::new(px.len(), |k: int| px[k].byte)
}

/// Four bytes for each pixel, the last of them opaque.
pub open spec fn rgba_bytes(px: Seq<[Sample; 3]>) -> Seq<u8> {
    Seq::new(
        4 * px.len(),
        |k: int|
            if k % 4 == 3 {
                255u8
            } else {
                px[k / 4]@[k % 4].byte
            },
    )
}

/// Four numbers in half precision for each pixel, the last of them one; the low byte of
/// each number comes first.
pub open spec fn half_bytes(px: Seq<[Sample; 3]>) -> Seq<u8> {
    Seq::new(
        8 * px.len(),
        |k: int|
            {
                let channel = (k % 8) / 2;
                let half = if channel == 3 {
                    HALF_PRECISION_ONE
                } else {
                    px[k / 8]@[channel].half
                };
                (if k % 2 == 0 {
                    half % 256
                } else {
                    half / 256
                }) as u8
            },
    )
}

/// The bytes of a baked image, and its size. An image that does not go with the map is
/// empty.
pub open spec fn stored(kind: MapKind, preview: PreviewResult) -> (Seq<u8>, u32, u32) {
    match preview {
        PreviewResult::Gray(px, w, h) => if kind.is_scalar() {
            (gray_bytes(px@), w, h)
        } else {
            (Seq::empty(), 0, 0)
        },
        PreviewResult::Rgb(px, w, h) => if kind.is_scalar() {
            (Seq::empty(), 0, 0)
        } else if kind == MapKind::Position {
            (half_bytes(px@), w, h)
        } else {
            (rgba_bytes(px@), w, h)
        },
    }
}

/// One byte for each pixel.
fn to_gray_bytes(px: &Vec<Sample>) -> (r: Vec<u8>)
    ensures
        r@ == gray_bytes(px@),
{
    let mut out: Vec<u8> = Vec::new();
    let mut i: usize = 0;
    while i < px.len()
        invariant
            i <= px@.len(),
            out@ == gray_bytes(px@).take(i as int),
        decreases px@.len() - i,
    {
        out.push(px[i].byte);
        proof {
            assert(out@ =~= gray_bytes(px@).take(i + 1));
        }
        i = i + 1;
    }
    proof {
        assert(gray_bytes(px@).take(px@.len() as int) =~= gray_bytes(px@));
    }
    out
}

/// Four bytes for each pixel.
fn to_rgba_bytes(px: &Vec<[Sample; 3]>) -> (r: Vec<u8>)
    ensures
        r@ == rgba_bytes(px@),
{
    let mut out: Vec<u8> = Vec::new();
    let mut i: usize = 0;
    while i < px.len()
        invariant
            i <= px@.len(),
            out@ == rgba_bytes(px@).take(4 * i),
        decreases px@.len() - i,
    {
        let p = px[i];
        out.push(p[0].byte);
        out.push(p[1].byte);
        out.push(p[2].byte);
        out.push(255);
        proof {
            let k = 4 * i;
            assert(k / 4 == i && (k + 1) / 4 == i && (k + 2) / 4 == i && (k + 3) / 4 == i);
            assert(k % 4 == 0 && (k + 1) % 4 == 1 && (k + 2) % 4 == 2 && (k + 3) % 4 == 3);
            assert(out@ =~= rgba_bytes(px@).take(k + 4));
        }
        i = i + 1;
    }
    proof {
        assert(rgba_bytes(px@).take(4 * px@.len() as int) =~= rgba_bytes(px@));
    }
    out
}

/// Adds the two bytes of a number, the low one first.
fn push_half(out: &mut Vec<u8>, half: u16)
    ensures
        final(out)@ == old(out)@.push((half % 256) as u8).push((half / 256) as u8),
{
    out.push((half % 256) as u8);
    out.push((half / 256) as u8);
}

/// Four numbers in half precision for each pixel.
fn to_half_bytes(px: &Vec<[Sample; 3]>) -> (r: Vec<u8>)
    ensures
        r@ == half_bytes(px@),
{
    let mut out: Vec<u8> = Vec::new();
    let mut i: usize = 0;
    while i < px.len()
        invariant
            i <= px@.len(),
            out@ == half_bytes(px@).take(8 * i),
        decreases px@.len() - i,
    {
        let p = px[i];
        push_half(&mut out, p[0].half);
        push_half(&mut out, p[1].half);
        push_half(&mut out, p[2].half);
        push_half(&mut out, HALF_PRECISION_ONE);
        proof {
            let k = 8 * i;
            let all = half_bytes(px@);
            assert forall|d: int| 0 <= d < 8 implies #[trigger] out@[k + d] == all[k + d] by {
                assert((k + d) / 8 == i && (k + d) % 8 == d);
                assert((k + d) % 2 == d % 2);
                assert(d == 0 || d == 1 || d == 2 || d == 3 || d == 4 || d == 5 || d == 6 || d
                    == 7);
            }
            assert(out@.len() == k + 8);
            assert forall|j: int| 0 <= j < k + 8 implies out@[j] == all[j] by {
                if j >= k {
                    assert(out@[k + (j - k)] == all[k + (j - k)]);
                } else {
                    assert(out@[j] == all.take(k)[j]);
                }
            }
            assert(out@ =~= all.take(k + 8));
        }
        i = i + 1;
    }
    proof {
        assert(half_bytes(px@).take(8 * px@.len() as int) =~= half_bytes(px@));
    }
    out
}

/// The four bytes of a pixel are its three channels in order and an opaque one, at four times
/// the place of the pixel.
pub proof fn pixels_keep_their_channels(px: Seq<[Sample; 3]>, i: int)
    requires
        0 <= i < px.len(),
    ensures
        rgba_bytes(px).len() == 4 * px.len(),
        rgba_bytes(px)[4 * i] == px[i]@[0].byte,
        rgba_bytes(px)[4 * i + 1] == px[i]@[1].byte,
        rgba_bytes(px)[4 * i + 2] == px[i]@[2].byte,
        rgba_bytes(px)[4 * i + 3] == 255,
{
    assert((4 * i) / 4 == i && (4 * i + 1) / 4 == i && (4 * i + 2) / 4 == i && (4 * i + 3) / 4
        == i);
    assert((4 * i) % 4 == 0 && (4 * i + 1) % 4 == 1 && (4 * i + 2) % 4 == 2 && (4 * i + 3) % 4
        == 3);
}

/// Two bytes, the low one first, read back as the number that they were made of: the three
/// channels of the pixel in order, and a one.
pub proof fn half_numbers_read_back(px: Seq<[Sample; 3]>, i: int, c: int)
    requires
        0 <= i < px.len(),
        0 <= c < 4,
    ensures
        half_bytes(px).len() == 8 * px.len(),
        half_bytes(px)[8 * i + 2 * c] + 256 * half_bytes(px)[8 * i + 2 * c + 1] == (if c == 3 {
            0x3c00
        } else {
            px[i]@[c].half as int
        }),
{
    let k = 8 * i + 2 * c;
    assert(k / 8 == i && (k + 1) / 8 == i);
    assert(k % 8 == 2 * c && (k + 1) % 8 == 2 * c + 1);
    assert(k % 2 == 0 && (k + 1) % 2 == 1);
    assert((2 * c) / 2 == c && (2 * c + 1) / 2 == c);
}

/// What is stored goes with the map: an image with one number for each pixel for the maps that
/// hold one, else one with three; its bytes are as many as its texture takes.
pub proof fn bytes_fill_the_texture(kind: MapKind, preview: PreviewResult)
    ensures
        ({
            let (bytes, w, h) = stored(kind, preview);
            let depth = kind.texture_format_spec().bytes_per_pixel_spec() as int;
            match preview {
                PreviewResult::Gray(px, pw, ph) => if depth == 1 {
                    w == pw && h == ph && bytes.len() == px@.len() && forall|i: int|
                        0 <= i < px@.len() ==> bytes[i] == (#[trigger] px@[i]).byte
                } else {
                    bytes.len() == 0
                },
                PreviewResult::Rgb(px, pw, ph) => if depth == 1 {
                    bytes.len() == 0
                } else {
                    w == pw && h == ph && bytes.len() == depth * px@.len()
                },
            }
        }),
{
}

/// Which maps hold one number for each pixel, and which hold numbers beyond the unit range.
pub proof fn depths_of_maps(kind: MapKind)
    ensures
        kind.texture_format_spec().bytes_per_pixel_spec() == 1 <==> (kind
            == MapKind::AmbientOcclusion || kind == MapKind::Curvature || kind == MapKind::Thickness
            || kind == MapKind::Height),
        kind.texture_format_spec().bytes_per_pixel_spec() == 8 <==> kind == MapKind::Position,
        kind.texture_format_spec().bytes_per_pixel_spec() == 4 <==> (kind == MapKind::Normal || kind
            == MapKind::WorldNormal || kind == MapKind::BentNormal || kind == MapKind::Id),
{
}

/// The bytes of a baked image as its texture stores them, and its size.
pub fn pixels_to_bytes(kind: MapKind, preview: &PreviewResult) -> (r: (Vec<u8>, u32, u32))
    ensures
        (r.0@, r.1, r.2) == stored(kind, *preview),
{
    let scalar = kind.texture_format() == MapFormat::R8Unorm;
    match preview {
        PreviewResult::Gray(px, w, h) => {
            if scalar {
                (to_gray_bytes(px), *w, *h)
            } else {
                (Vec::new(), 0, 0)
            }
        },
        PreviewResult::Rgb(px, w, h) => {
            if scalar {
                (Vec::new(), 0, 0)
            } else if kind == MapKind::Position {
                (to_half_bytes(px), *w, *h)
            } else {
                (to_rgba_bytes(px), *w, *h)
            }
        },
    }
}

/// The image has as many pixels as its size says.
pub open spec fn is_full(preview: PreviewResult) -> bool {
    match preview {
        PreviewResult::Gray(px, w, h) => px@.len() == w * h,
        PreviewResult::Rgb(px, w, h) => px@.len() == w * h,
    }
}

/// What is said of a tile that came back in the wrong size.
pub open spec fn wrong_size_text(tile: u32, w: u32, h: u32, resolution: u32) -> Seq<char> {
    "bake: tile "@ + decimal(tile as nat) + " returned "@ + decimal(w as nat) + "x"@ + decimal(
        h as nat,
    ) + ", expected "@ + decimal(resolution as nat) + "x"@ + decimal(resolution as nat)
}

/// What is said of a tile that came back in the wrong size.
fn wrong_size(tile: u32, w: u32, h: u32, resolution: u32) -> (r: String)
    ensures
        r@ == wrong_size_text(tile, w, h, resolution),
{
    String::from_str("bake: tile ").concat(decimal_text(tile as u64).as_str()).concat(
        " returned ",
    ).concat(decimal_text(w as u64).as_str()).concat("x").concat(
        decimal_text(h as u64).as_str(),
    ).concat(", expected ").concat(decimal_text(resolution as u64).as_str()).concat("x").concat(
        decimal_text(resolution as u64).as_str(),
    )
}

/// The bytes that go into the layer of a tile: those of the baked image upside down.
/// Nothing is written where the image is empty, and an image of another size than the map
/// is an error.
pub fn layer_bytes(kind: MapKind, preview: &PreviewResult, tile: u32, resolution: u32) -> (r:
    Result<Option<Vec<u8>>, String>)
    requires
        is_full(*preview),
        resolution * kind.texture_format_spec().bytes_per_pixel_spec() <= u32::MAX,
    ensures
        ({
            let (bytes, w, h) = stored(kind, *preview);
            let row = resolution * kind.texture_format_spec().bytes_per_pixel_spec();
            match r {
                Ok(None) => bytes.len() == 0,
                Ok(Some(out)) => bytes.len() > 0 && w == resolution && h == resolution && out@
                    == flipped(bytes, row, resolution as int),
                Err(e) => bytes.len() > 0 && (w != resolution || h != resolution) && e@
                    == wrong_size_text(tile, w, h, resolution),
            }
        }),
{
    let (mut bytes, w, h) = pixels_to_bytes(kind, preview);
    if bytes.len() == 0 {
        return Ok(None);
    }
    if w != resolution || h != resolution {
        return Err(wrong_size(tile, w, h, resolution));
    }
    let depth: u32 = kind.texture_format().bytes_per_pixel();
    proof {
        let n = (w * h) as int;
        assert(w * depth * h == n * depth) by (nonlinear_arith)
            requires
                n == w * h,
        ;
        assert(bytes@.len() == n * depth) by {
            assert(depth == 1 || depth == 4 || depth == 8);
            assert(n * 1 == n && n * 4 == 4 * n && n * 8 == 8 * n);
        }
    }
    flip_rows(&mut bytes, w, h, depth);
    Ok(Some(bytes))
}

/// A bake covers at least one tile.
pub fn bake_layers(tiles: &Vec<u32>) -> (r: Result<u32, String>)
    requires
        tiles@.len() <= u32::MAX,
    ensures
        match r {
            Ok(n) => n == tiles@.len() && n > 0,
            Err(e) => tiles@.len() == 0 && e@ == "no tiles to bake"@,
        },
{
    if tiles.len() == 0 {
        return Err(String::from_str("no tiles to bake"));
    }
    Ok(tiles.len() as u32)
}

/// The baked maps of a mesh, each in its place.
pub struct MeshMaps<T> {
    pub ao: Option<T>,
    pub curvature: Option<T>,
    pub thickness: Option<T>,
    pub height: Option<T>,
    pub normal: Option<T>,
    pub bent_normal: Option<T>,
    pub id: Option<T>,
    /// Whether normals and positions were baked.
    pub baked: bool,
    /// The revision of the mesh from which the maps were baked.
    pub baked_at_revision: u64,
}

impl<T> MeshMaps<T> {
    /// Whether a map has a place here. Normals and positions are baked together, in
    /// another way.
    pub open spec fn has_slot(kind: MapKind) -> bool {
        kind != MapKind::WorldNormal && kind != MapKind::Position
    }

    /// The map of a kind, if it was baked.
    pub open spec fn slot_spec(self, kind: MapKind) -> Option<T> {
        match kind {
            MapKind::AmbientOcclusion => self.ao,
            MapKind::Curvature => self.curvature,
            MapKind::Thickness => self.thickness,
            MapKind::Height => self.height,
            MapKind::Normal => self.normal,
            MapKind::BentNormal => self.bent_normal,
            MapKind::Id => self.id,
            MapKind::WorldNormal | MapKind::Position => None,
        }
    }

    /// Every map lies in the field that bears its name, and maps that are baked together with
    /// the mesh in none.
    pub proof fn maps_lie_in_their_fields(self)
        ensures
            self.slot_spec(MapKind::AmbientOcclusion) == self.ao,
            self.slot_spec(MapKind::Curvature) == self.curvature,
            self.slot_spec(MapKind::Thickness) == self.thickness,
            self.slot_spec(MapKind::Height) == self.height,
            self.slot_spec(MapKind::Normal) == self.normal,
            self.slot_spec(MapKind::BentNormal) == self.bent_normal,
            self.slot_spec(MapKind::Id) == self.id,
            forall|k: MapKind| !Self::has_slot(k) ==> #[trigger] self.slot_spec(k) is None,
    {
    }

    /// Nothing but the map of one kind differs.
    pub open spec fn differs_only_at(self, other: MeshMaps<T>, kind: MapKind) -> bool {
        &&& forall|k: MapKind| k != kind ==> #[trigger] self.slot_spec(k) == other.slot_spec(k)
        &&& self.baked == other.baked
        &&& self.baked_at_revision == other.baked_at_revision
    }

    /// No map is baked.
    pub fn new_empty() -> (r: MeshMaps<T>)
        ensures
            forall|k: MapKind| #[trigger] r.slot_spec(k) is None,
            !r.baked,
            r.baked_at_revision == 0,
    {
        MeshMaps {
            ao: None,
            curvature: None,
            thickness: None,
            height: None,
            normal: None,
            bent_normal: None,
            id: None,
            baked: false,
            baked_at_revision: 0,
        }
    }

    /// Puts a baked map in its place. A map that has none is dropped.
    pub fn set(&mut self, kind: MapKind, map: T)
        ensures
            final(self).differs_only_at(*old(self), kind),
            Self::has_slot(kind) ==> final(self).slot_spec(kind) == Some(map),
            !Self::has_slot(kind) ==> *final(self) == *old(self),
    {
        match kind {
            MapKind::AmbientOcclusion => self.ao = Some(map),
            MapKind::Curvature => self.curvature = Some(map),
            MapKind::Thickness => self.thickness = Some(map),
            MapKind::Height => self.height = Some(map),
            MapKind::Normal => self.normal = Some(map),
            MapKind::BentNormal => self.bent_normal = Some(map),
            MapKind::Id => self.id = Some(map),
            MapKind::WorldNormal | MapKind::Position => {},
        }
    }

    /// Takes a baked map away.
    pub fn clear(&mut self, kind: MapKind)
        ensures
            final(self).differs_only_at(*old(self), kind),
            final(self).slot_spec(kind) is None,
    {
        match kind {
            MapKind::AmbientOcclusion => self.ao = None,
            MapKind::Curvature => self.curvature = None,
            MapKind::Thickness => self.thickness = None,
            MapKind::Height => self.height = None,
            MapKind::Normal => self.normal = None,
            MapKind::BentNormal => self.bent_normal = None,
            MapKind::Id => self.id = None,
            MapKind::WorldNormal | MapKind::Position => {},
        }
    }

    /// The map of a kind, if it was baked.
    pub fn slot(&self, kind: MapKind) -> (r: Option<&T>)
        ensures
            match r {
                Some(map) => self.slot_spec(kind) == Some(*map),
                None => self.slot_spec(kind) is None,
            },
    {
        match kind {
            MapKind::AmbientOcclusion => self.ao.as_ref(),
            MapKind::Curvature => self.curvature.as_ref(),
            MapKind::Thickness => self.thickness.as_ref(),
            MapKind::Height => self.height.as_ref(),
            MapKind::Normal => self.normal.as_ref(),
            MapKind::BentNormal => self.bent_normal.as_ref(),
            MapKind::Id => self.id.as_ref(),
            MapKind::WorldNormal | MapKind::Position => None,
        }
    }
}

/// The value of a configuration has every setting where the configuration has it.
pub proof fn values_keep_their_settings(c: BakeConfig)
    ensures
        c@.width == c.width && c@.height == c.height,
        c@.maps == c.maps,
        c@.normal_format == c.normal_format,
        c@.ao_settings == c.ao_settings,
        c@.thickness_settings == c.thickness_settings,
        c@.bent_normal_settings == c.bent_normal_settings,
        c@.max_frontal_distance == c.max_frontal_distance,
        c@.max_rear_distance == c.max_rear_distance,
        c@.ignore_backface == c.ignore_backface && c@.match_by_name == c.match_by_name,
        c@.dilation == c.dilation && c@.aa_factor == c.aa_factor && c@.use_gpu == c.use_gpu,
        c@.curvature_settings == c.curvature_settings,
        c@.curvature_intensity == c.curvature_intensity,
        c@.output_dir == c.output_dir@ && c@.output_prefix == c.output_prefix@,
        c@.low_suffix == c.low_suffix@ && c@.high_suffix == c.high_suffix@,
{
}

} // verus!
