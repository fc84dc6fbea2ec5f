//! The list of analytic lights.

use crate::single::{Single, Triple, ONE, SIGN};
use crate::text::{decimal, decimal_text};
use vstd::prelude::*;

verus! {

/// How many lights the shader can take.
pub const MAX_LIGHTS: usize = 8;

/// What a light is.
#[derive(Clone, Copy, Debug, PartialEq, Eq, Structural)]
pub enum LightKind {
    /// Infinitely far away; only its direction counts.
    Directional,
    /// A cone that opens from a position along a direction.
    Spot,
}

impl LightKind {
    /// The name shown to the user.
    pub open spec fn label_text(self) -> Seq<char> {
        match self {
            LightKind::Directional => "Directional"@,
            LightKind::Spot => "Spot"@,
        }
    }

    /// The name shown to the user.
    pub fn label(self) -> (r: &'static str)
        ensures
            r@ == self.label_text(),
    {
        match self {
            LightKind::Directional => "Directional",
            LightKind::Spot => "Spot",
        }
    }
}

/// A light that the user placed. A directional light ignores its position and cone.
#[derive(Clone, Copy, Debug, PartialEq, Eq, Structural)]
pub struct Light {
    pub kind: LightKind,
    /// The way the light travels.
    pub direction: Triple,
    pub position: Triple,
    pub color: Triple,
    pub intensity: Single,
    /// The angle, in degrees, up to which a spot has its full strength.
    pub inner_cone_deg: Single,
    /// The angle, in degrees, beyond which a spot has none.
    pub outer_cone_deg: Single,
    pub enabled: bool,
}

/// Three coordinates by their bits.
pub open spec fn triple_of(x: u32, y: u32, z: u32) -> Triple {
    Triple { x: Single { bits: x }, y: Single { bits: y }, z: Single { bits: z } }
}

/// Three coordinates by their bits.
pub fn triple(x: u32, y: u32, z: u32) -> (r: Triple)
    ensures
        r == triple_of(x, y, z),
{
    Triple { x: Single { bits: x }, y: Single { bits: y }, z: Single { bits: z } }
}

/// Half of a number, with the other sign: for zero, and for positive numbers whose half has
/// as many digits.
pub open spec fn half_back(x: Single) -> Single {
    if x.bits == 0 {
        x
    } else {
        Single { bits: (SIGN + x.bits - 0x80_0000) as u32 }
    }
}

/// The way from a point to the origin, at half the length.
pub open spec fn halfway_back(p: Triple) -> Triple {
    Triple { x: half_back(p.x), y: half_back(p.y), z: half_back(p.z) }
}

impl Light {
    /// The light that is added for a kind: a white directional light of strength 3 that
    /// travels along (-0.4, -1, -0.3), or a white spot of strength 5 at (0, 2, 2) that travels
    /// along (0, -1, -1), towards the origin. Both have a cone from 15 to 30 degrees.
    pub open spec fn fresh(kind: LightKind) -> Light {
        match kind {
            LightKind::Directional => Light {
                kind,
                direction: triple_of(0xbecc_cccd, 0xbf80_0000, 0xbe99_999a),
                position: triple_of(0, 0, 0),
                color: triple_of(ONE, ONE, ONE),
                intensity: Single { bits: 0x4040_0000 },
                inner_cone_deg: Single { bits: 0x4170_0000 },
                outer_cone_deg: Single { bits: 0x41f0_0000 },
                enabled: true,
            },
            LightKind::Spot => Light {
                kind,
                direction: triple_of(0, 0xbf80_0000, 0xbf80_0000),
                position: triple_of(0, 0x4000_0000, 0x4000_0000),
                color: triple_of(ONE, ONE, ONE),
                intensity: Single { bits: 0x40a0_0000 },
                inner_cone_deg: Single { bits: 0x4170_0000 },
                outer_cone_deg: Single { bits: 0x41f0_0000 },
                enabled: true,
            },
        }
    }

    /// The directional light that is added by default.
    pub fn new_directional() -> (r: Light)
        ensures
            r == Light::fresh(LightKind::Directional),
    {
        Light {
            kind: LightKind::Directional,
            direction: triple(0xbecc_cccd, 0xbf80_0000, 0xbe99_999a),
            position: triple(0, 0, 0),
            color: triple(ONE, ONE, ONE),
            intensity: Single { bits: 0x4040_0000 },
            inner_cone_deg: Single { bits: 0x4170_0000 },
            outer_cone_deg: Single { bits: 0x41f0_0000 },
            enabled: true,
        }
    }

    /// The spot that is added by default.
    pub fn new_spot() -> (r: Light)
        ensures
            r == Light::fresh(LightKind::Spot),
            r.direction == halfway_back(r.position),
    {
        Light {
            kind: LightKind::Spot,
            direction: triple(0, 0xbf80_0000, 0xbf80_0000),
            position: triple(0, 0x4000_0000, 0x4000_0000),
            color: triple(ONE, ONE, ONE),
            intensity: Single { bits: 0x40a0_0000 },
            inner_cone_deg: Single { bits: 0x4170_0000 },
            outer_cone_deg: Single { bits: 0x41f0_0000 },
            enabled: true,
        }
    }

    /// The inner cone does not reach beyond the outer one.
    pub open spec fn cone_is_ordered(self) -> bool {
        !self.outer_cone_deg.less_spec(self.inner_cone_deg)
    }

    /// Changes the inner cone; an outer cone that would be smaller grows with it.
    pub fn set_inner_cone(&mut self, degrees: Single)
        ensures
            *final(self) == (Light {
                inner_cone_deg: degrees,
                outer_cone_deg: if old(self).outer_cone_deg.less_spec(degrees) {
                    degrees
                } else {
                    old(self).outer_cone_deg
                },
                ..*old(self)
            }),
            final(self).cone_is_ordered(),
    {
        self.inner_cone_deg = degrees;
        if self.outer_cone_deg.less(degrees) {
            self.outer_cone_deg = degrees;
        }
    }

    /// Changes the outer cone; an inner cone that would be larger shrinks with it.
    pub fn set_outer_cone(&mut self, degrees: Single)
        ensures
            *final(self) == (Light {
                outer_cone_deg: degrees,
                inner_cone_deg: if degrees.less_spec(old(self).inner_cone_deg) {
                    degrees
                } else {
                    old(self).inner_cone_deg
                },
                ..*old(self)
            }),
            final(self).cone_is_ordered(),
    {
        self.outer_cone_deg = degrees;
        if degrees.less(self.inner_cone_deg) {
            self.inner_cone_deg = degrees;
        }
    }

    /// What stands above the settings of the `index`-th light.
    pub open spec fn heading_text(self, index: nat) -> Seq<char> {
        "#"@ + decimal(index) + " "@ + self.kind.label_text() + if self.enabled {
            Seq::empty()
        } else {
            " — disabled"@
        }
    }

    /// What stands above the settings of the `index`-th light.
    pub fn heading(&self, index: usize) -> (r: String)
        ensures
            r@ == self.heading_text(index as nat),
    {
        let number = decimal_text(index as u64);
        let text = String::from_str("#").concat(number.as_str()).concat(" ").concat(
            self.kind.label(),
        );
        if self.enabled {
            proof {
                assert(text@ + Seq::<char>::empty() =~= text@);
            }
            text
        } else {
            text.concat(" — disabled")
        }
    }
}

/// The shader can take all lights, and its falloff never runs backwards.
pub open spec fn lights_wf(lights: Seq<Light>) -> bool {
    &&& lights.len() <= MAX_LIGHTS
    &&& forall|i: int| 0 <= i < lights.len() ==> (#[trigger] lights[i]).cone_is_ordered()
}

/// Adds a light, unless the list is full.
pub fn add_light(lights: &mut Vec<Light>, kind: LightKind) -> (r: bool)
    requires
        lights_wf(old(lights)@),
    ensures
        r == (old(lights)@.len() < MAX_LIGHTS),
        final(lights)@ == if r {
            old(lights)@.push(Light::fresh(kind))
        } else {
            old(lights)@
        },
        lights_wf(final(lights)@),
{
    if lights.len() >= MAX_LIGHTS {
        return false;
    }
    match kind {
        LightKind::Directional => lights.push(Light::new_directional()),
        LightKind::Spot => lights.push(Light::new_spot()),
    }
    true
}

/// Takes a light out of the list.
pub fn remove_light(lights: &mut Vec<Light>, index: usize)
    requires
        lights_wf(old(lights)@),
        index < old(lights)@.len(),
    ensures
        final(lights)@ == old(lights)@.remove(index as int),
        lights_wf(final(lights)@),
{
    lights.remove(index);
}

/// How many lights there are, and how many there can be.
pub open spec fn lights_caption_text(count: nat) -> Seq<char> {
    "Lights ("@ + decimal(count) + "/"@ + decimal(MAX_LIGHTS as nat) + ")"@
}

/// How many lights there are, and how many there can be.
pub fn lights_caption(count: usize) -> (r: String)
    ensures
        r@ == lights_caption_text(count as nat),
{
    let n = decimal_text(count as u64);
    let most = decimal_text(MAX_LIGHTS as u64);
    String::from_str("Lights (").concat(n.as_str()).concat("/").concat(most.as_str()).concat(")")
}

/// Four numbers, as the shader reads them.
#[derive(Clone, Copy, Debug, PartialEq, Eq, Structural)]
pub struct Quad {
    pub x: Single,
    pub y: Single,
    pub z: Single,
    pub w: Single,
}

/// A light as the shader reads it.
#[derive(Clone, Copy, Debug, PartialEq, Eq, Structural)]
pub struct GpuLight {
    /// The direction of travel, and 0 for a directional light or 1 for a spot.
    pub direction_type: Quad,
    /// The position, and 1 for a light that is on or 0 for one that is off.
    pub position_enabled: Quad,
    /// The colour and the strength.
    pub color_intensity: Quad,
    /// The cosines of half the inner and half the outer cone angle.
    pub cone: Quad,
}

/// A triple with a fourth number.
pub open spec fn quad_of(t: Triple, w: Single) -> Quad {
    Quad { x: t.x, y: t.y, z: t.z, w }
}

impl GpuLight {
    /// Packs a light for the shader, given its direction at length 1 and the cosines of
    /// half its cone angles.
    pub fn from_light(
        light: &Light,
        direction: Triple,
        inner_cos: Single,
        outer_cos: Single,
    ) -> (r: GpuLight)
        ensures
            r.direction_type == quad_of(
                direction,
                (Single {
                    bits: if light.kind == LightKind::Spot {
                        ONE
                    } else {
                        0
                    },
                }),
            ),
            r.position_enabled == quad_of(
                light.position,
                (Single {
                    bits: if light.enabled {
                        ONE
                    } else {
                        0
                    },
                }),
            ),
            r.color_intensity == quad_of(light.color, light.intensity),
            r.cone == (Quad {
                x: inner_cos,
                y: outer_cos,
                z: (Single { bits: 0 }),
                w: (Single { bits: 0 }),
            }),
    {
        let tag = Single {
            bits: match light.kind {
                LightKind::Directional => 0,
                LightKind::Spot => ONE,
            },
        };
        let on = Single {
            bits: if light.enabled {
                ONE
            } else {
                0
            },
        };
        let zero = Single { bits: 0 };
        GpuLight {
            direction_type: Quad { x: direction.x, y: direction.y, z: direction.z, w: tag },
            position_enabled: Quad {
                x: light.position.x,
                y: light.position.y,
                z: light.position.z,
                w: on,
            },
            color_intensity: Quad {
                x: light.color.x,
                y: light.color.y,
                z: light.color.z,
                w: light.intensity,
            },
            cone: Quad { x: inner_cos, y: outer_cos, z: zero, w: zero },
        }
    }
}

/// A light that is added is on, white, and of the kind that was asked for; its cone opens from
/// 15 to 30 degrees. A directional light has strength 3 and a spot strength 5, and both shine
/// downwards.
pub proof fn new_lights_shine_down(kind: LightKind)
    ensures
        ({
            let l = Light::fresh(kind);
            &&& l.kind == kind && l.enabled
            &&& l.color.x.bits == 0x3f80_0000 && l.color.y.bits == 0x3f80_0000 && l.color.z.bits
                == 0x3f80_0000
            &&& l.inner_cone_deg.bits == 0x4170_0000 && l.outer_cone_deg.bits == 0x41f0_0000
            &&& l.cone_is_ordered()
            &&& l.intensity.bits == 0x4040_0000 <==> kind == LightKind::Directional
            &&& l.intensity.bits == 0x40a0_0000 <==> kind == LightKind::Spot
            &&& l.direction.y.place() < 0 && l.direction.z.place() < 0
            &&& kind == LightKind::Spot ==> l.direction == halfway_back(l.position)
        }),
{
}

} // verus!
