//! The camera: where the eye is, what it looks at, and how wide it sees.

use vstd::prelude::*;
use crate::elementary::{fx_cos, fx_sin};
use crate::fixed::{fx_add, fx_mul, fx_ratio, Fx};
use crate::math::mat::{
    look_at_rh, m4_look_at_rh, m4_mul, m4_perspective_rh, perspective_rh, Mat4, M4,
};
use crate::math::vec::{Vec3, V3};

verus! {

/// A camera. It holds no matrices: view and projection are made from its
/// fields whenever they are asked for.
#[derive(Clone, Copy, Debug, PartialEq, Eq, Structural)]
pub struct Camera {
    /// Position of the eye.
    pub eye: Vec3,
    /// The point the eye looks at.
    pub center: Vec3,
    /// The direction that is up in the picture.
    pub up: Vec3,
    /// Vertical field of view, in radians.
    pub fovy: Fx,
    /// Width of the picture over its height.
    pub aspect: Fx,
    /// Distance of the near clip plane.
    pub near: Fx,
    /// Distance of the far clip plane.
    pub far: Fx,
}

/// Raw vertical field of view of a new camera, 45 degrees.
pub const FOVY_RAW: i64 = 3373259426;

/// Where the eye of a circling camera is at `time`: on a circle of radius 3
/// about the vertical axis, three tenths of a radian further each second, at
/// a height that swings between 1 and 2.
pub open spec fn orbit_eye(time: int) -> V3 {
    let angle = fx_mul(time, fx_ratio(3, 10));
    V3 {
        x: fx_mul(12884901888, fx_cos(angle)),
        y: fx_add(6442450944, fx_mul(fx_sin(fx_mul(time, fx_ratio(2, 10))), 2147483648)),
        z: fx_mul(12884901888, fx_sin(angle)),
    }
}

impl Camera {
    /// The view matrix of the camera.
    pub open spec fn view_spec(&self) -> M4 {
        m4_look_at_rh(self.eye@, self.center@, self.up@)
    }

    /// The projection matrix of the camera.
    pub open spec fn proj_spec(&self) -> M4 {
        m4_perspective_rh(self.fovy@, self.aspect@, self.near@, self.far@)
    }

    /// A camera at `(3, 2, 3)` that looks at the origin with the y axis up,
    /// sees 45 degrees of a square picture, and clips at 0.1 and 100.
    pub fn new() -> (c: Camera)
        ensures
            c.eye@ == (V3 { x: 12884901888, y: 8589934592, z: 12884901888 }),
            c.center@ == (V3 { x: 0, y: 0, z: 0 }),
            c.up@ == (V3 { x: 0, y: 4294967296, z: 0 }),
            c.fovy@ == 3373259426,
            c.aspect@ == 4294967296,
            c.near@ == fx_ratio(1, 10),
            c.far@ == 429496729600,
    {
        Camera {
            eye: Vec3::from_ints(3, 2, 3),
            center: Vec3::zero(),
            up: Vec3::from_ints(0, 1, 0),
            fovy: Fx { raw: FOVY_RAW },
            aspect: Fx::one(),
            near: Fx::ratio(1, 10),
            far: Fx::from_int(100),
        }
    }

    /// Moves the eye to where a circling camera is at `time`, turns it to the
    /// origin with the y axis up, and sets the ratio of width to height; the
    /// field of view and the clip planes stay.
    pub fn update(&mut self, aspect: Fx, time: Fx)
        ensures
            *final(self) == (Camera {
                eye: final(self).eye,
                center: final(self).center,
                up: final(self).up,
                aspect,
                ..*old(self)
            }),
            final(self).eye@ == orbit_eye(time@),
            final(self).center@ == (V3 { x: 0, y: 0, z: 0 }),
            final(self).up@ == (V3 { x: 0, y: 4294967296, z: 0 }),
    {
        let radius = Fx::from_int(3);
        let height = Fx::ratio(3, 2).add(time.mul(Fx::ratio(2, 10)).sin().mul(Fx::ratio(1, 2)));
        let angle = time.mul(Fx::ratio(3, 10));
        self.eye = Vec3::new(radius.mul(angle.cos()), height, radius.mul(angle.sin()));
        self.center = Vec3::zero();
        self.up = Vec3::from_ints(0, 1, 0);
        self.aspect = aspect;
    }

    /// Sets the ratio of width to height of the picture.
    pub fn set_aspect(&mut self, aspect: Fx)
        ensures
            *final(self) == (Camera { aspect, ..*old(self) }),
    {
        self.aspect = aspect;
    }

    /// The view matrix: it takes the eye to the origin and what the eye looks
    /// at onto the negative z axis.
    pub fn view(&self) -> (m: Mat4)
        ensures
            m@ == self.view_spec(),
    {
        look_at_rh(self.eye, self.center, self.up)
    }

    /// The projection matrix.
    pub fn proj(&self) -> (m: Mat4)
        ensures
            m@ == self.proj_spec(),
    {
        perspective_rh(self.fovy, self.aspect, self.near, self.far)
    }

    /// Projection times view.
    pub fn view_proj(&self) -> (m: Mat4)
        ensures
            m@ == m4_mul(self.proj_spec(), self.view_spec()),
    {
        self.proj().mul(self.view())
    }
}

} // verus!
