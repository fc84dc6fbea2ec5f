//! The camera that circles around a point.

use crate::lights::{triple, triple_of};
use crate::single::{Pair, Single, Triple, SIGN};
use vstd::prelude::*;

verus! {

/// The bits of 1.5, the steepest pitch.
pub const MAX_PITCH: u32 = 0x3fc0_0000;

/// The bits of 0.05, the smallest distance.
pub const MIN_DISTANCE: u32 = 0x3d4c_cccd;

/// The bits of 10000, the largest distance.
pub const MAX_DISTANCE: u32 = 0x461c_4000;

/// A number brought between two others; NaN stays.
pub open spec fn clamped(x: Single, low: Single, high: Single) -> Single {
    if x.less_spec(low) {
        low
    } else if high.less_spec(x) {
        high
    } else {
        x
    }
}

/// A number brought between two others.
pub fn clamp(x: Single, low: Single, high: Single) -> (r: Single)
    ensures
        r == clamped(x, low, high),
{
    if x.less(low) {
        low
    } else if high.less(x) {
        high
    } else {
        x
    }
}

/// A camera that looks at a point from a distance and two angles.
#[derive(Clone, Copy, Debug, PartialEq, Eq, Structural)]
pub struct OrbitCamera {
    pub yaw: Single,
    pub pitch: Single,
    pub distance: Single,
    pub target: Triple,
    pub fov_y_deg: Single,
    pub z_near: Single,
    pub z_far: Single,
}

/// What the user does with the pointer over the view.
#[derive(Clone, Copy, Debug, PartialEq, Eq, Structural)]
pub struct PointerInput {
    pub primary_drag: bool,
    pub middle_drag: bool,
    pub ctrl: bool,
    pub mac_cmd: bool,
    pub command: bool,
    pub shift: bool,
    pub alt: bool,
    pub drag: Pair,
    pub scroll: Single,
}

/// What the camera does about it.
#[derive(Clone, Copy, Debug, PartialEq, Eq, Structural)]
pub struct CameraMoves {
    pub orbit: bool,
    pub pan: bool,
    pub zoom: bool,
}

impl PointerInput {
    /// Whether the pointer moved.
    pub open spec fn is_moving(self) -> bool {
        let zero = Single { bits: 0 };
        !self.drag.u.equals_spec(zero) || !self.drag.v.equals_spec(zero)
    }

    /// Whether one of the keys is held that stand for control.
    pub open spec fn holds_control(self) -> bool {
        self.ctrl || self.mac_cmd || self.command
    }

    /// The first button with control circles, the first button with shift or the middle
    /// button moves sideways, the wheel moves in and out. The first button alone is left to
    /// painting.
    pub open spec fn moves_spec(self) -> CameraMoves {
        CameraMoves {
            orbit: self.primary_drag && self.holds_control() && !self.shift && !self.alt
                && self.is_moving(),
            pan: ((self.primary_drag && self.shift && !self.holds_control()) || self.middle_drag)
                && self.is_moving(),
            zoom: !self.scroll.equals_spec(Single { bits: 0 }),
        }
    }

    /// What the camera does.
    pub fn moves(&self) -> (r: CameraMoves)
        ensures
            r == self.moves_spec(),
    {
        let zero = Single { bits: 0 };
        let control = self.ctrl || self.mac_cmd || self.command;
        let moving = !self.drag.u.equals(zero) || !self.drag.v.equals(zero);
        CameraMoves {
            orbit: self.primary_drag && control && !self.shift && !self.alt && moving,
            pan: ((self.primary_drag && self.shift && !control) || self.middle_drag) && moving,
            zoom: !self.scroll.equals(zero),
        }
    }
}

impl CameraMoves {
    /// Whether the camera does anything.
    pub fn any(&self) -> (r: bool)
        ensures
            r == (self.orbit || self.pan || self.zoom),
    {
        self.orbit || self.pan || self.zoom
    }
}

/// A stroke of the first button without keys never moves the camera.
pub proof fn painting_leaves_the_camera(input: PointerInput)
    requires
        !input.holds_control(),
        !input.shift,
        !input.middle_drag,
    ensures
        !input.moves_spec().orbit,
        !input.moves_spec().pan,
{
}

impl OrbitCamera {
    /// The camera looks neither straight up nor straight down, and is neither too near nor
    /// too far.
    pub open spec fn wf(self) -> bool {
        &&& !self.pitch.is_nan_spec()
        &&& -MAX_PITCH <= self.pitch.place() <= MAX_PITCH
        &&& !self.distance.is_nan_spec()
        &&& MIN_DISTANCE <= self.distance.place() <= MAX_DISTANCE
    }

    /// The camera of a new view.
    pub open spec fn initial() -> OrbitCamera {
        OrbitCamera {
            yaw: Single { bits: 0x3f19_999a },
            pitch: Single { bits: 0x3eb3_3333 },
            distance: Single { bits: 0x4060_0000 },
            target: triple_of(0, 0, 0),
            fov_y_deg: Single { bits: 0x4234_0000 },
            z_near: Single { bits: 0x3c23_d70a },
            z_far: Single { bits: 0x447a_0000 },
        }
    }

    /// Goes back to the view of a new camera, on the same point.
    pub fn reset(&mut self)
        ensures
            *final(self) == (OrbitCamera { target: old(self).target, ..OrbitCamera::initial() }),
            final(self).wf(),
    {
        let target = self.target;
        *self = OrbitCamera::default();
        self.target = target;
    }

    /// Turns the camera; the pitch stays within its limits.
    pub fn orbit_to(&mut self, yaw: Single, pitch: Single)
        ensures
            *final(self) == (OrbitCamera {
                yaw,
                pitch: clamped(
                    pitch,
                    Single { bits: (SIGN + MAX_PITCH) as u32 },
                    Single { bits: MAX_PITCH },
                ),
                ..*old(self)
            }),
            old(self).wf() && !pitch.is_nan_spec() ==> final(self).wf(),
    {
        self.yaw = yaw;
        self.pitch = clamp(
            pitch,
            Single { bits: SIGN + MAX_PITCH },
            Single { bits: MAX_PITCH },
        );
    }

    /// Looks at another point.
    pub fn pan_to(&mut self, target: Triple)
        ensures
            *final(self) == (OrbitCamera { target, ..*old(self) }),
            old(self).wf() ==> final(self).wf(),
    {
        self.target = target;
    }

    /// Goes nearer or farther; the distance stays within its limits.
    pub fn zoom_to(&mut self, distance: Single)
        ensures
            *final(self) == (OrbitCamera {
                distance: clamped(
                    distance,
                    Single { bits: MIN_DISTANCE },
                    Single { bits: MAX_DISTANCE },
                ),
                ..*old(self)
            }),
            old(self).wf() && !distance.is_nan_spec() ==> final(self).wf(),
    {
        self.distance = clamp(
            distance,
            Single { bits: MIN_DISTANCE },
            Single { bits: MAX_DISTANCE },
        );
    }
}

impl Default for OrbitCamera {
    fn default() -> (r: Self)
        ensures
            r == OrbitCamera::initial(),
            r.wf(),
    {
        OrbitCamera {
            yaw: Single { bits: 0x3f19_999a },
            pitch: Single { bits: 0x3eb3_3333 },
            distance: Single { bits: 0x4060_0000 },
            target: triple(0, 0, 0),
            fov_y_deg: Single { bits: 0x4234_0000 },
            z_near: Single { bits: 0x3c23_d70a },
            z_far: Single { bits: 0x447a_0000 },
        }
    }
}

/// The first button alone never moves the camera. With control it circles, with shift it moves
/// sideways, and with both, or with alt and control, it does neither; the middle button always
/// moves sideways.
pub proof fn buttons_move_the_camera(input: PointerInput)
    ensures
        ({
            let m = input.moves_spec();
            let control = input.ctrl || input.mac_cmd || input.command;
            &&& m.orbit ==> input.primary_drag && control && !input.shift && !input.alt
            &&& m.pan ==> input.middle_drag || (input.primary_drag && input.shift && !control)
            &&& input.is_moving() && input.middle_drag ==> m.pan
            &&& input.is_moving() && input.primary_drag && input.shift && !control ==> m.pan
            &&& input.is_moving() && input.primary_drag && control && !input.shift && !input.alt
                ==> m.orbit
            &&& !input.is_moving() ==> !m.orbit && !m.pan
            &&& m.zoom <==> !input.scroll.equals_spec(Single { bits: 0 })
        }),
{
}

/// A number is brought between two others, and one that lies between them stays.
pub proof fn clamped_numbers_lie_between(x: Single, low: Single, high: Single)
    requires
        !x.is_nan_spec(),
        !low.is_nan_spec(),
        !high.is_nan_spec(),
        low.place() <= high.place(),
    ensures
        low.place() <= clamped(x, low, high).place() <= high.place(),
        low.place() <= x.place() <= high.place() ==> clamped(x, low, high) == x,
        x.place() < low.place() ==> clamped(x, low, high) == low,
        high.place() < x.place() ==> clamped(x, low, high) == high,
{
}

} // verus!
