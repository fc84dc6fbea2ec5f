//! What the preview renderer was last told, so that it is told nothing twice.
//!
//! Every setting follows the same pattern: a question whether the renderer has to be told,
//! and a note that it was. Between the two the caller talks to the renderer, and where
//! that fails nothing is noted and the next frame tries again.

use crate::assets::name_view;
use crate::bindings::{copy_list, same_list};
use crate::lights::{triple, triple_of, GpuLight};
use crate::paths::{paths_equal, same_path};
use crate::single::{Single, Triple, ONE, SIGN};
use crate::text::{chars_of, same_text, text_of, views};
use vstd::prelude::*;

verus! {

/// The three-point studio rig of the painter.
#[derive(Clone, Copy, Debug, PartialEq, Eq, Structural)]
pub struct StudioRig {
    /// The way the key light travels.
    pub key_dir: Triple,
    pub key_intensity: Single,
    pub fill_ratio: Single,
    pub rim_ratio: Single,
    /// Without fill and rim where the rig is off.
    pub enabled: bool,
}

/// The image that lights the scene from all around.
pub struct DomeEnv {
    pub path: String,
    pub intensity: Single,
    pub exposure_stops: Single,
    pub rotation_y_radians: Single,
}

/// What the renderer was last told.
pub struct HydraView {
    pub width: u32,
    pub height: u32,
    pub stage_path: String,
    pub last_rig: Option<StudioRig>,
    pub last_dome: Option<DomeEnv>,
    pub last_purposes: Option<(bool, bool, bool)>,
    pub last_user_lights: Vec<GpuLight>,
    pub last_external_material: Option<(String, String)>,
    pub last_target_prims: Vec<String>,
}

impl StudioRig {
    /// Numeric equality.
    pub open spec fn equals_spec(self, other: StudioRig) -> bool {
        &&& self.key_dir.equals_spec(other.key_dir)
        &&& self.key_intensity.equals_spec(other.key_intensity)
        &&& self.fill_ratio.equals_spec(other.fill_ratio)
        &&& self.rim_ratio.equals_spec(other.rim_ratio)
        &&& self.enabled == other.enabled
    }

    /// Whether two rigs are the same.
    pub fn equals(self, other: StudioRig) -> (r: bool)
        ensures
            r == self.equals_spec(other),
    {
        self.key_dir.equals(other.key_dir) && self.key_intensity.equals(other.key_intensity)
            && self.fill_ratio.equals(other.fill_ratio) && self.rim_ratio.equals(other.rim_ratio)
            && self.enabled == other.enabled
    }
}

impl DomeEnv {
    /// The same image at the same settings.
    pub open spec fn equals_spec(self, other: DomeEnv) -> bool {
        &&& same_path(self.path@, other.path@)
        &&& self.intensity.equals_spec(other.intensity)
        &&& self.exposure_stops.equals_spec(other.exposure_stops)
        &&& self.rotation_y_radians.equals_spec(other.rotation_y_radians)
    }

    /// Whether two domes are the same.
    pub fn equals(&self, other: &DomeEnv) -> (r: bool)
        ensures
            r == self.equals_spec(*other),
    {
        paths_equal(self.path.as_str(), other.path.as_str()) && self.intensity.equals(
            other.intensity,
        ) && self.exposure_stops.equals(other.exposure_stops) && self.rotation_y_radians.equals(
            other.rotation_y_radians,
        )
    }

    /// A copy of the dome.
    pub fn copy(&self) -> (r: DomeEnv)
        ensures
            r.path@ == self.path@,
            r.intensity == self.intensity,
            r.exposure_stops == self.exposure_stops,
            r.rotation_y_radians == self.rotation_y_radians,
    {
        DomeEnv {
            path: self.path.clone(),
            intensity: self.intensity,
            exposure_stops: self.exposure_stops,
            rotation_y_radians: self.rotation_y_radians,
        }
    }
}

/// A number with the other sign.
pub open spec fn negated(x: Single) -> Single {
    if x.bits >= SIGN {
        Single { bits: (x.bits - SIGN) as u32 }
    } else {
        Single { bits: (x.bits + SIGN) as u32 }
    }
}

/// A number with the other sign.
fn negate(x: Single) -> (r: Single)
    ensures
        r == negated(x),
{
    if x.bits >= SIGN {
        Single { bits: x.bits - SIGN }
    } else {
        Single { bits: x.bits + SIGN }
    }
}

/// A light of the rig: the direction towards it, its colour, and by what the strength of
/// the key light is multiplied for it.
#[derive(Clone, Copy, Debug, PartialEq, Eq, Structural)]
pub struct RigLight {
    pub to_light: Triple,
    pub color: Triple,
    pub ratio: Single,
}

/// The direction that leads against a direction of travel.
pub open spec fn against(x: Single, y: Single, z: Single) -> Triple {
    Triple { x: negated(x), y: negated(y), z: negated(z) }
}

/// The lights of a rig. The fill light comes from the other side, and so does the rim
/// light, from a height of at least 0.2.
pub open spec fn rig_lights(rig: StudioRig) -> Seq<RigLight> {
    let k = rig.key_dir;
    let key = RigLight {
        to_light: against(k.x, k.y, k.z),
        color: triple_of(ONE, 0x3f7a_e148, 0x3f73_3333),
        ratio: Single { bits: ONE },
    };
    if rig.enabled {
        seq![
            key,
            RigLight {
                to_light: against(negated(k.x), k.y, negated(k.z)),
                color: triple_of(0x3f47_ae14, 0x3f5c_28f6, ONE),
                ratio: rig.fill_ratio,
            },
            RigLight {
                to_light: against(
                    negated(k.x),
                    k.y.max_spec(Single { bits: 0x3e4c_cccd }),
                    negated(k.z),
                ),
                color: triple_of(ONE, 0x3f6b_851f, 0x3f4c_cccd),
                ratio: rig.rim_ratio,
            },
        ]
    } else {
        seq![key]
    }
}

/// Whether two optional domes are the same.
pub open spec fn same_dome(a: Option<DomeEnv>, b: Option<&DomeEnv>) -> bool {
    match (a, b) {
        (Some(x), Some(y)) => x.equals_spec(*y),
        (None, None) => true,
        _ => false,
    }
}

/// Whether two lists of lights are the same, bit by bit.
pub open spec fn same_lights(a: Seq<GpuLight>, b: Seq<GpuLight>) -> bool {
    a == b
}

/// Whether a library material is the one that was noted.
pub open spec fn same_material(
    noted: Option<(String, String)>,
    source: Seq<char>,
    prim_path: Seq<char>,
) -> bool {
    noted matches Some((s, p)) && same_path(s@, source) && p@ == prim_path
}

impl HydraView {
    /// A renderer that was just opened on a stage and has been told nothing.
    pub fn new(stage_path: &str) -> (r: HydraView)
        ensures
            r.width == 1280,
            r.height == 720,
            r.stage_path@ == stage_path@,
            r.last_rig is None,
            r.last_dome is None,
            r.last_purposes is None,
            r.last_user_lights@.len() == 0,
            r.last_external_material is None,
            r.last_target_prims@.len() == 0,
    {
        HydraView {
            width: 1280,
            height: 720,
            stage_path: text_of(&chars_of(stage_path)),
            last_rig: None,
            last_dome: None,
            last_purposes: None,
            last_user_lights: Vec::new(),
            last_external_material: None,
            last_target_prims: Vec::new(),
        }
    }

    /// Whether the renderer was opened on another stage, so that it has to be dropped.
    pub fn is_stale(&self, stage_path: &str) -> (r: bool)
        ensures
            r == !same_path(self.stage_path@, stage_path@),
    {
        !paths_equal(self.stage_path.as_str(), stage_path)
    }

    /// Takes a new size; tells whether it is one.
    pub fn resize(&mut self, w: u32, h: u32) -> (r: bool)
        ensures
            r == (w != old(self).width || h != old(self).height),
            *final(self) == (HydraView { width: w, height: h, ..*old(self) }),
    {
        if w == self.width && h == self.height {
            return false;
        }
        self.width = w;
        self.height = h;
        true
    }

    /// Takes the filters for render, proxy and guide geometry; tells whether they are new.
    pub fn set_purposes(&mut self, render: bool, proxy: bool, guides: bool) -> (r: bool)
        ensures
            r == (old(self).last_purposes != Some((render, proxy, guides))),
            *final(self) == (HydraView {
                last_purposes: Some((render, proxy, guides)),
                ..*old(self)
            }),
    {
        if let Some((a, b, c)) = self.last_purposes {
            if a == render && b == proxy && c == guides {
                return false;
            }
        }
        self.last_purposes = Some((render, proxy, guides));
        true
    }

    /// Takes the studio rig; gives its lights where it is a new one.
    pub fn set_rig(&mut self, rig: StudioRig) -> (r: Option<Vec<RigLight>>)
        ensures
            r is None <==> (old(self).last_rig matches Some(last) && last.equals_spec(rig)),
            r matches Some(list) ==> list@ == rig_lights(rig),
            *final(self) == if r is None {
                *old(self)
            } else {
                HydraView { last_rig: Some(rig), ..*old(self) }
            },
    {
        if let Some(last) = self.last_rig {
            if last.equals(rig) {
                return None;
            }
        }
        self.last_rig = Some(rig);
        let k = rig.key_dir;
        let mut out: Vec<RigLight> = Vec::new();
        out.push(
            RigLight {
                to_light: Triple { x: negate(k.x), y: negate(k.y), z: negate(k.z) },
                color: triple(ONE, 0x3f7a_e148, 0x3f73_3333),
                ratio: Single { bits: ONE },
            },
        );
        if rig.enabled {
            let far_x = negate(k.x);
            let far_z = negate(k.z);
            let high = k.y.max(Single { bits: 0x3e4c_cccd });
            out.push(
                RigLight {
                    to_light: Triple { x: negate(far_x), y: negate(k.y), z: negate(far_z) },
                    color: triple(0x3f47_ae14, 0x3f5c_28f6, ONE),
                    ratio: rig.fill_ratio,
                },
            );
            out.push(
                RigLight {
                    to_light: Triple { x: negate(far_x), y: negate(high), z: negate(far_z) },
                    color: triple(ONE, 0x3f6b_851f, 0x3f4c_cccd),
                    ratio: rig.rim_ratio,
                },
            );
        }
        proof {
            assert(out@ =~= rig_lights(rig));
        }
        Some(out)
    }

    /// Whether the renderer has to be told about the environment.
    pub fn wants_environment(&self, env: Option<&DomeEnv>) -> (r: bool)
        ensures
            r == !same_dome(self.last_dome, env),
    {
        match (&self.last_dome, env) {
            (Some(last), Some(now)) => !last.equals(now),
            (None, None) => false,
            _ => true,
        }
    }

    /// Notes that the renderer was told about the environment.
    pub fn note_environment(&mut self, env: Option<&DomeEnv>)
        ensures
            match (final(self).last_dome, env) {
                (Some(noted), Some(now)) => noted.path@ == now.path@ && noted.intensity
                    == now.intensity && noted.exposure_stops == now.exposure_stops
                    && noted.rotation_y_radians == now.rotation_y_radians,
                (None, None) => true,
                _ => false,
            },
            *final(self) == (HydraView { last_dome: final(self).last_dome, ..*old(self) }),
    {
        self.last_dome = match env {
            Some(now) => Some(now.copy()),
            None => None,
        };
    }

    /// Whether the renderer has to be told about the lights.
    pub fn wants_user_lights(&self, lights: &Vec<GpuLight>) -> (r: bool)
        ensures
            r == !same_lights(self.last_user_lights@, lights@),
    {
        if lights.len() != self.last_user_lights.len() {
            return true;
        }
        let mut i: usize = 0;
        while i < lights.len()
            invariant
                i <= lights@.len() == self.last_user_lights@.len(),
                forall|k: int|
                    0 <= k < i ==> (#[trigger] self.last_user_lights@[k]) == lights@[k],
            decreases lights@.len() - i,
        {
            if self.last_user_lights[i] != lights[i] {
                return true;
            }
            i = i + 1;
        }
        proof {
            assert(self.last_user_lights@ =~= lights@);
        }
        false
    }

    /// Notes that the renderer was told about the lights.
    pub fn note_user_lights(&mut self, lights: Vec<GpuLight>)
        ensures
            final(self).last_user_lights@ == lights@,
            *final(self) == (HydraView {
                last_user_lights: final(self).last_user_lights,
                ..*old(self)
            }),
    {
        self.last_user_lights = lights;
    }

    /// Whether a library material is the one that was bound last.
    fn is_noted_material(&self, source: &str, prim_path: &str) -> (r: bool)
        ensures
            r == same_material(self.last_external_material, source@, prim_path@),
    {
        match &self.last_external_material {
            Some((s, p)) => paths_equal(s.as_str(), source) && same_text(p.as_str(), prim_path),
            None => false,
        }
    }

    /// Whether the renderer was last told to bind a library material to the whole stage.
    pub open spec fn is_bound_to_stage(self, source: Seq<char>, prim_path: Seq<char>) -> bool {
        same_material(self.last_external_material, source, prim_path)
            && self.last_target_prims@.len() == 0
    }

    /// Whether the renderer was last told to bind a library material to some prims.
    pub open spec fn is_bound_to(
        self,
        source: Seq<char>,
        prim_path: Seq<char>,
        prims: Seq<Seq<char>>,
    ) -> bool {
        same_material(self.last_external_material, source, prim_path) && views(
            self.last_target_prims@,
        ) == prims
    }

    /// Whether the renderer has to be told to bind a library material to the whole stage.
    pub fn wants_external_material(&self, source: &str, prim_path: &str) -> (r: bool)
        ensures
            r == !self.is_bound_to_stage(source@, prim_path@),
    {
        !(self.is_noted_material(source, prim_path) && self.last_target_prims.len() == 0)
    }

    /// Notes that a library material was bound to the whole stage.
    pub fn note_external_material(&mut self, source: &str, prim_path: &str)
        ensures
            final(self).last_external_material matches Some((s, p)) && s@ == source@ && p@
                == prim_path@,
            final(self).last_target_prims@.len() == 0,
            *final(self) == (HydraView {
                last_external_material: final(self).last_external_material,
                last_target_prims: final(self).last_target_prims,
                ..*old(self)
            }),
    {
        self.last_external_material = Some(
            (text_of(&chars_of(source)), text_of(&chars_of(prim_path))),
        );
        self.last_target_prims = Vec::new();
    }

    /// Whether the renderer has to be told to bind a library material to some prims.
    pub fn wants_external_material_on_prims(
        &self,
        source: &str,
        prim_path: &str,
        target_prims: &Vec<String>,
    ) -> (r: bool)
        ensures
            r == !self.is_bound_to(source@, prim_path@, views(target_prims@)),
    {
        !(self.is_noted_material(source, prim_path) && same_list(
            &self.last_target_prims,
            target_prims,
        ))
    }

    /// Notes that a library material was bound to some prims.
    pub fn note_external_material_on_prims(
        &mut self,
        source: &str,
        prim_path: &str,
        target_prims: &Vec<String>,
    )
        ensures
            final(self).last_external_material matches Some((s, p)) && s@ == source@ && p@
                == prim_path@,
            views(final(self).last_target_prims@) == views(target_prims@),
            *final(self) == (HydraView {
                last_external_material: final(self).last_external_material,
                last_target_prims: final(self).last_target_prims,
                ..*old(self)
            }),
    {
        self.note_external_material(source, prim_path);
        self.last_target_prims = copy_list(target_prims);
    }

    /// Forgets the library material; tells whether there was one.
    pub fn clear_external_material(&mut self) -> (r: bool)
        ensures
            r == old(self).last_external_material is Some,
            *final(self) == (HydraView { last_external_material: None, ..*old(self) }),
    {
        if self.last_external_material.is_none() {
            return false;
        }
        self.last_external_material = None;
        true
    }
}

/// A dome that was noted is not told again, as long as its numbers are numbers.
pub proof fn noted_dome_is_not_told_again(noted: DomeEnv, dome: DomeEnv)
    requires
        noted.path@ == dome.path@,
        noted.intensity == dome.intensity,
        noted.exposure_stops == dome.exposure_stops,
        noted.rotation_y_radians == dome.rotation_y_radians,
        !dome.intensity.is_nan_spec(),
        !dome.exposure_stops.is_nan_spec(),
        !dome.rotation_y_radians.is_nan_spec(),
    ensures
        same_dome(Some(noted), Some(&dome)),
{
}

/// Lights that were noted are not told again, whatever their numbers.
pub proof fn noted_lights_are_not_told_again(lights: Seq<GpuLight>)
    ensures
        same_lights(lights, lights),
{
}

/// A material that goes from some prims to the whole stage, or from there to some prims, is
/// told again.
pub proof fn switch_of_scope_is_told(
    view: HydraView,
    source: Seq<char>,
    prim_path: Seq<char>,
    prims: Seq<Seq<char>>,
)
    requires
        prims.len() > 0,
    ensures
        view.is_bound_to(source, prim_path, prims) ==> !view.is_bound_to_stage(source, prim_path),
        view.is_bound_to_stage(source, prim_path) ==> !view.is_bound_to(source, prim_path, prims),
{
}

/// A rig that was taken is not told again, as long as its numbers are numbers.
pub proof fn noted_rig_is_not_told_again(rig: StudioRig)
    requires
        !rig.key_dir.x.is_nan_spec(),
        !rig.key_dir.y.is_nan_spec(),
        !rig.key_dir.z.is_nan_spec(),
        !rig.key_intensity.is_nan_spec(),
        !rig.fill_ratio.is_nan_spec(),
        !rig.rim_ratio.is_nan_spec(),
    ensures
        rig.equals_spec(rig),
{
}

/// The short name of a renderer; an unknown one goes by its identifier.
pub open spec fn delegate_name(id: Seq<char>) -> Seq<char> {
    if id == "HdStormRendererPlugin"@ {
        "Storm"@
    } else if id == "HdNSIRendererPlugin"@ {
        "3Delight"@
    } else if id == "HdArnoldRendererPlugin"@ {
        "Arnold"@
    } else if id == "HdPrmanLoaderRendererPlugin"@ || id == "HdPrmanRendererPlugin"@ {
        "RenderMan"@
    } else if id == "HdCyclesRendererPlugin"@ {
        "Cycles"@
    } else if id == "HdEmbreeRendererPlugin"@ {
        "Embree"@
    } else {
        id
    }
}

/// The short name of a renderer.
pub fn delegate_label<'a>(plugin_id: &'a str) -> (r: &'a str)
    ensures
        r@ == delegate_name(plugin_id@),
{
    if same_text(plugin_id, "HdStormRendererPlugin") {
        "Storm"
    } else if same_text(plugin_id, "HdNSIRendererPlugin") {
        "3Delight"
    } else if same_text(plugin_id, "HdArnoldRendererPlugin") {
        "Arnold"
    } else if same_text(plugin_id, "HdPrmanLoaderRendererPlugin") || same_text(
        plugin_id,
        "HdPrmanRendererPlugin",
    ) {
        "RenderMan"
    } else if same_text(plugin_id, "HdCyclesRendererPlugin") {
        "Cycles"
    } else if same_text(plugin_id, "HdEmbreeRendererPlugin") {
        "Embree"
    } else {
        plugin_id
    }
}

/// An identifier that says something.
pub open spec fn named(id: Option<&str>) -> Option<Seq<char>> {
    match id {
        Some(s) if s@.len() > 0 => Some(s@),
        _ => None,
    }
}

/// The renderer that a preview starts with: the one that was picked, else the first that
/// is available.
pub fn startup_delegate<'a>(picked: Option<&'a str>, available: &'a Vec<String>) -> (r: Option<
    &'a str,
>)
    ensures
        name_view(r) == match named(picked) {
            Some(id) => Some(id),
            None => if available@.len() > 0 {
                Some(available@[0]@)
            } else {
                None
            },
        },
{
    if let Some(id) = picked {
        if !id.is_empty() {
            return Some(id);
        }
    }
    if available.len() > 0 {
        Some(available[0].as_str())
    } else {
        None
    }
}

/// The renderer to switch to, where another one than the current was picked.
pub fn delegate_switch<'a>(picked: Option<&'a str>, current: &str) -> (r: Option<&'a str>)
    ensures
        name_view(r) == match named(picked) {
            Some(id) if id != current@ => Some(id),
            _ => None,
        },
{
    match picked {
        Some(id) => if !id.is_empty() && !same_text(id, current) {
            Some(id)
        } else {
            None
        },
        None => None,
    }
}

/// The renderer that counts as picked from now on: where none was, the current one.
pub fn adopted_delegate(picked: Option<String>, current: &str) -> (r: Option<String>)
    ensures
        match r {
            Some(id) => id@ == match picked {
                Some(p) => p@,
                None => current@,
            },
            None => picked is None && current@.len() == 0,
        },
        picked is Some ==> r is Some,
{
    match picked {
        Some(id) => Some(id),
        None => if current.is_empty() {
            None
        } else {
            Some(text_of(&chars_of(current)))
        },
    }
}

/// The size to render at: at least 64 in both directions.
pub fn frame_size(width: u32, height: u32) -> (r: (u32, u32))
    ensures
        r.0 == if width < 64 {
            64
        } else {
            width
        },
        r.1 == if height < 64 {
            64
        } else {
            height
        },
{
    (
        if width < 64 {
            64
        } else {
            width
        },
        if height < 64 {
            64
        } else {
            height
        },
    )
}

/// Whether the painted material is sent on entering the preview: once, and only while no
/// library material is in use. The request is used up either way.
pub fn take_paint_sync(pending: &mut bool, binding_count: usize) -> (r: bool)
    ensures
        r == (*old(pending) && binding_count == 0),
        !*final(pending),
{
    let due = *pending;
    *pending = false;
    due && binding_count == 0
}

/// A matrix of four columns in the order in which the renderer reads it: it takes the
/// columns for rows.
pub fn glam_to_hydra(m: &[[Single; 4]; 4]) -> (r: Vec<Single>)
    ensures
        r@.len() == 16,
        forall|row: int, col: int|
            0 <= row < 4 && 0 <= col < 4 ==> #[trigger] r@[row * 4 + col] == m@[row]@[col],
{
    let mut out: Vec<Single> = Vec::new();
    let mut i: usize = 0;
    while i < 4
        invariant
            i <= 4,
            out@.len() == 4 * i,
            forall|k: int| 0 <= k < out@.len() ==> #[trigger] out@[k] == m@[k / 4]@[k % 4],
        decreases 4 - i,
    {
        let column = m[i];
        out.push(column[0]);
        out.push(column[1]);
        out.push(column[2]);
        out.push(column[3]);
        i = i + 1;
    }
    proof {
        assert forall|row: int, col: int| 0 <= row < 4 && 0 <= col < 4 implies #[trigger] out@[row
            * 4 + col] == m@[row]@[col] by {
            assert((row * 4 + col) / 4 == row && (row * 4 + col) % 4 == col);
        }
    }
    out
}

/// A projection in the order in which the renderer reads it, from its four entries that
/// depend on the camera; the one beside the depth is -1.
pub fn projection_entries(x: Single, y: Single, depth: Single, shift: Single) -> (r: Vec<Single>)
    ensures
        r@.len() == 16,
        forall|k: int|
            0 <= k < 16 ==> #[trigger] r@[k] == if k == 0 {
                x
            } else if k == 5 {
                y
            } else if k == 10 {
                depth
            } else if k == 11 {
                Single { bits: 0xbf80_0000 }
            } else if k == 14 {
                shift
            } else {
                Single { bits: 0 }
            },
{
    let mut out: Vec<Single> = Vec::new();
    let mut k: usize = 0;
    while k < 16
        invariant
            k <= 16,
            out@.len() == k,
            forall|j: int|
                0 <= j < k ==> #[trigger] out@[j] == if j == 0 {
                    x
                } else if j == 5 {
                    y
                } else if j == 10 {
                    depth
                } else if j == 11 {
                    Single { bits: 0xbf80_0000 }
                } else if j == 14 {
                    shift
                } else {
                    Single { bits: 0 }
                },
        decreases 16 - k,
    {
        out.push(
            if k == 0 {
                x
            } else if k == 5 {
                y
            } else if k == 10 {
                depth
            } else if k == 11 {
                Single { bits: 0xbf80_0000 }
            } else if k == 14 {
                shift
            } else {
                Single { bits: 0 }
            },
        );
        k = k + 1;
    }
    out
}

/// The lights of a rig: the key light comes from where its direction leads away from, at full
/// strength. Where the rig is on, the fill light comes from the same height on the other side,
/// and the rim light from the other side too, from no higher; each has its own strength.
pub proof fn rigs_light_from_all_sides(rig: StudioRig)
    ensures
        ({
            let lights = rig_lights(rig);
            let k = rig.key_dir;
            &&& lights.len() == (if rig.enabled {
                3nat
            } else {
                1
            })
            &&& lights[0].to_light.x == negated(k.x) && lights[0].to_light.y == negated(k.y)
                && lights[0].to_light.z == negated(k.z)
            &&& lights[0].ratio.bits == ONE
            &&& rig.enabled ==> {
                &&& lights[1].to_light.x == k.x && lights[1].to_light.z == k.z
                &&& lights[1].to_light.y == lights[0].to_light.y
                &&& lights[1].ratio == rig.fill_ratio
                &&& lights[2].to_light.x == k.x && lights[2].to_light.z == k.z
                &&& lights[2].ratio == rig.rim_ratio
                &&& !k.y.is_nan_spec() ==> lights[2].to_light.y.place() <= lights[0].to_light.y.place()
            }
        }),
{
}

/// No part of a rig is passed over where two are compared.
pub proof fn equal_rigs_light_the_same(a: StudioRig, b: StudioRig)
    ensures
        a.equals_spec(b) ==> {
            &&& a.key_dir.x.place() == b.key_dir.x.place()
            &&& a.key_dir.y.place() == b.key_dir.y.place()
            &&& a.key_dir.z.place() == b.key_dir.z.place()
            &&& a.key_intensity.place() == b.key_intensity.place()
            &&& a.fill_ratio.place() == b.fill_ratio.place()
            &&& a.rim_ratio.place() == b.rim_ratio.place()
            &&& a.enabled == b.enabled
        },
        a.equals_spec(b) == b.equals_spec(a),
{
}

/// No setting of a dome is passed over where two are compared.
pub proof fn equal_domes_light_the_same(a: DomeEnv, b: DomeEnv)
    ensures
        a.equals_spec(b) ==> {
            &&& same_path(a.path@, b.path@)
            &&& a.intensity.place() == b.intensity.place()
            &&& a.exposure_stops.place() == b.exposure_stops.place()
            &&& a.rotation_y_radians.place() == b.rotation_y_radians.place()
        },
        a.equals_spec(b) == b.equals_spec(a),
{
}

} // verus!
