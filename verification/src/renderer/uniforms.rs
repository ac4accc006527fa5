//! The per-frame parameters handed to the shaders.

use vstd::prelude::*;
use crate::fixed::{fx_add, fx_clamp, fx_ratio, Fx};
use crate::math::mat::{m4_identity, Mat4};
use crate::math::noise::NoiseType;
use crate::math::vec::{v3_normalize, Vec3, V3};
use crate::renderer::buffers::Color;

verus! {

/// Parameters of the planet styles.
#[derive(Clone, Copy, Debug)]
pub struct PlanetParams {
    pub base_color: Color,
    pub band_freq: Fx,
    pub noise_scale: Fx,
    pub rim_power: Fx,
    pub rotation_speed: Fx,
    pub has_rings: bool,
    pub has_moon: bool,
}

impl Default for PlanetParams {
    fn default() -> (p: PlanetParams)
        ensures
            p.base_color == (Color { r: 180, g: 180, b: 200, a: 255 }),
            p.band_freq@ == 6 * 4294967296,
            p.noise_scale@ == 2 * 4294967296,
            p.rim_power@ == 2 * 4294967296,
            p.rotation_speed@ == 2147483648,
            !p.has_rings,
            !p.has_moon,
    {
        PlanetParams {
            base_color: Color::rgb(180, 180, 200),
            band_freq: Fx::from_int(6),
            noise_scale: Fx::from_int(2),
            rim_power: Fx::from_int(2),
            rotation_speed: Fx::ratio(1, 2),
            has_rings: false,
            has_moon: false,
        }
    }
}

/// Parameters of the star style, adjustable while the star is shown.
#[derive(Clone, Copy, Debug)]
pub struct StarParams {
    /// Relative temperature, kept in `[0, 1]`.
    pub temp_norm: Fx,
    /// Strength of the flares, kept in `[0, 2]`.
    pub flare_intensity: Fx,
    /// Spatial scale of the noise, kept in `[0.1, 5]`.
    pub noise_scale: Fx,
    /// Speed of the rotation about the axis, kept in `[0, 2]`.
    pub rot_speed: Fx,
    /// The noise primitive that drives the surface.
    pub noise_type: NoiseType,
    /// Whether the flares use cellular noise whatever `noise_type` says.
    pub use_cellular_flares: bool,
}

impl StarParams {
    /// Every adjustable parameter lies in its range.
    pub open spec fn in_range(&self) -> bool {
        &&& 0 <= self.temp_norm@ <= 4294967296
        &&& 0 <= self.flare_intensity@ <= 8589934592
        &&& 429496729 <= self.noise_scale@ <= 21474836480
        &&& 0 <= self.rot_speed@ <= 8589934592
    }

    /// Moves the temperature by `delta` and limits it to `[0, 1]`.
    pub fn adjust_temp(&mut self, delta: Fx)
        ensures
            final(self).temp_norm@ == fx_clamp(fx_add(old(self).temp_norm@, delta@), 0, 4294967296),
            *final(self) == (StarParams { temp_norm: final(self).temp_norm, ..*old(self) }),
            old(self).in_range() ==> final(self).in_range(),
    {
        self.temp_norm = self.temp_norm.add(delta).clamp(Fx::zero(), Fx::one());
    }

    /// Moves the flare strength by `delta` and limits it to `[0, 2]`.
    pub fn adjust_flare(&mut self, delta: Fx)
        ensures
            final(self).flare_intensity@ == fx_clamp(
                fx_add(old(self).flare_intensity@, delta@),
                0,
                8589934592,
            ),
            *final(self) == (StarParams {
                flare_intensity: final(self).flare_intensity,
                ..*old(self)
            }),
            old(self).in_range() ==> final(self).in_range(),
    {
        self.flare_intensity = self.flare_intensity.add(delta).clamp(Fx::zero(), Fx::from_int(2));
    }

    /// Moves the noise scale by `delta` and limits it to `[0.1, 5]`.
    pub fn adjust_noise_scale(&mut self, delta: Fx)
        ensures
            final(self).noise_scale@ == fx_clamp(
                fx_add(old(self).noise_scale@, delta@),
                429496729,
                21474836480,
            ),
            *final(self) == (StarParams { noise_scale: final(self).noise_scale, ..*old(self) }),
            old(self).in_range() ==> final(self).in_range(),
    {
        self.noise_scale = self.noise_scale.add(delta).clamp(Fx::ratio(1, 10), Fx::from_int(5));
    }

    /// Moves the rotation speed by `delta` and limits it to `[0, 2]`.
    pub fn adjust_rot_speed(&mut self, delta: Fx)
        ensures
            final(self).rot_speed@ == fx_clamp(fx_add(old(self).rot_speed@, delta@), 0, 8589934592),
            *final(self) == (StarParams { rot_speed: final(self).rot_speed, ..*old(self) }),
            old(self).in_range() ==> final(self).in_range(),
    {
        self.rot_speed = self.rot_speed.add(delta).clamp(Fx::zero(), Fx::from_int(2));
    }

    /// Switches the cellular flares on or off.
    pub fn toggle_cellular_flares(&mut self)
        ensures
            *final(self) == (StarParams {
                use_cellular_flares: !old(self).use_cellular_flares,
                ..*old(self)
            }),
    {
        self.use_cellular_flares = !self.use_cellular_flares;
    }
}

impl Default for StarParams {
    fn default() -> (p: StarParams)
        ensures
            p.temp_norm@ == fx_ratio(65, 100),
            p.flare_intensity@ == fx_ratio(45, 100),
            p.noise_scale@ == fx_ratio(3, 2),
            p.rot_speed@ == fx_ratio(15, 100),
            p.noise_type == NoiseType::Perlin,
            !p.use_cellular_flares,
            p.in_range(),
    {
        StarParams {
            temp_norm: Fx::ratio(65, 100),
            flare_intensity: Fx::ratio(45, 100),
            noise_scale: Fx::ratio(3, 2),
            rot_speed: Fx::ratio(15, 100),
            noise_type: NoiseType::Perlin,
            use_cellular_flares: false,
        }
    }
}

/// What a frame is drawn with: built once per frame and only read after that.
#[derive(Clone, Copy, Debug)]
pub struct Uniforms {
    /// Seconds since the start.
    pub time: Fx,
    /// Direction towards the light.
    pub light_dir: Vec3,
    pub view: Mat4,
    pub proj: Mat4,
    pub model: Mat4,
    pub camera_pos: Vec3,
    pub planet: PlanetParams,
    pub star: StarParams,
}

/// Raw components of the default light direction before normalization.
pub open spec fn default_light() -> V3 {
    V3 { x: fx_ratio(5, 10), y: fx_ratio(7, 10), z: fx_ratio(2, 10) }
}

impl Default for Uniforms {
    fn default() -> (u: Uniforms)
        ensures
            u.time@ == 0,
            u.light_dir@ == v3_normalize(default_light()),
            u.view@ == m4_identity(),
            u.proj@ == m4_identity(),
            u.model@ == m4_identity(),
            u.camera_pos@ == (V3 { x: 0, y: 0, z: 12884901888 }),
            u.planet.base_color == (Color { r: 180, g: 180, b: 200, a: 255 }),
            u.planet.band_freq@ == 6 * 4294967296,
            u.planet.noise_scale@ == 2 * 4294967296,
            u.planet.rim_power@ == 2 * 4294967296,
            u.planet.rotation_speed@ == 2147483648,
            !u.planet.has_rings,
            !u.planet.has_moon,
            u.star.temp_norm@ == fx_ratio(65, 100),
            u.star.flare_intensity@ == fx_ratio(45, 100),
            u.star.noise_scale@ == fx_ratio(3, 2),
            u.star.rot_speed@ == fx_ratio(15, 100),
            u.star.noise_type == NoiseType::Perlin,
            !u.star.use_cellular_flares,
            u.star.in_range(),
    {
        Uniforms {
            time: Fx::zero(),
            light_dir: Vec3::new(Fx::ratio(5, 10), Fx::ratio(7, 10), Fx::ratio(2, 10)).normalize(),
            view: Mat4::identity(),
            proj: Mat4::identity(),
            model: Mat4::identity(),
            camera_pos: Vec3::from_ints(0, 0, 3),
            planet: PlanetParams::default(),
            star: StarParams::default(),
        }
    }
}

} // verus!
