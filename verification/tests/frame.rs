use star_render::fixed::Fx;
use star_render::math::noise::NoiseType;
use star_render::math::vec::{Vec2, Vec3};
use star_render::math::mat::Mat4;
use star_render::renderer::buffers::{Color, Framebuffer};
use star_render::renderer::pipeline::{assemble, project, Shader, VertexIn, VertexOut};
use star_render::renderer::raster::Varyings;
use star_render::renderer::uniforms::{PlanetParams, StarParams, Uniforms};
use star_render::math::mat::viewport;
use star_render::math::vec::Vec4;
use star_render::shaders::common::{
    fbm_3d, fbm_3d_type, lambert, latitude, lerp, lerp3, rim, saturate, specular, to_color,
};
use star_render::shaders::surface::Surface;
use star_render::shaders::{make_shader, AnyShader, ShaderKind};

fn fx(v: f64) -> Fx {
    Fx::new((v * 4294967296.0).floor() as i64)
}

#[test]
fn colours_are_quantized_by_rounding_down() {
    assert_eq!(Color::rgb(1, 2, 3), Color { r: 1, g: 2, b: 3, a: 255 });
    assert_eq!(Color::from_unit_rgb(fx(0.0), fx(0.5), fx(1.0)), Color::rgb(0, 127, 255));
    assert_eq!(Color::from_unit_rgb(fx(-1.0), fx(2.0), fx(0.999)), Color::rgb(0, 255, 254));
    assert_eq!(to_color(Vec3::new(fx(0.25), fx(0.75), fx(1.5))), Color::rgb(63, 191, 255));
    for level in 0..=255u8 {
        let i = Color::intensity(level);
        assert_eq!(Color::from_unit_rgb(i, i, i), Color::rgb(level, level, level));
        assert_ne!(
            Color::from_unit_rgb(Fx::new(i.raw - 1), i, i).r,
            if level == 0 { 1 } else { level }
        );
    }
}

#[test]
fn new_frame_is_black_and_far() {
    let fb = Framebuffer::new(5, 3);
    assert_eq!(fb.width(), 5);
    assert_eq!(fb.height(), 3);
    assert_eq!(fb.pixels().len(), 15);
    assert!(fb.pixels().iter().all(|c| *c == Color::rgb(0, 0, 0)));
    for y in 0..3 {
        for x in 0..5 {
            assert_eq!(fb.depth_at(x, y).raw, i64::MAX);
        }
    }
    let empty = Framebuffer::new(0, 7);
    assert_eq!(empty.pixels().len(), 0);
}

#[test]
fn clearing_fills_one_raster_and_leaves_the_other() {
    let mut fb = Framebuffer::new(4, 4);
    assert!(fb.plot(1, 2, Color::rgb(9, 8, 7), fx(0.5)));
    fb.clear_color(Color::rgb(2, 2, 5));
    assert!(fb.pixels().iter().all(|c| *c == Color::rgb(2, 2, 5)));
    assert_eq!(fb.depth_at(1, 2), fx(0.5));
    assert!(fb.plot(1, 2, Color::rgb(9, 8, 7), fx(0.25)));
    fb.clear_depth();
    assert_eq!(fb.depth_at(1, 2).raw, i64::MAX);
    assert_eq!(fb.color_at(1, 2), Color::rgb(9, 8, 7));
}

#[test]
fn resize_gives_a_cleared_frame_of_the_new_size() {
    let mut fb = Framebuffer::new(4, 4);
    fb.clear_color(Color::rgb(2, 2, 5));
    fb.plot(0, 0, Color::rgb(9, 8, 7), fx(0.5));
    fb.resize(3, 2);
    assert_eq!((fb.width(), fb.height()), (3, 2));
    assert_eq!(fb.pixels().len(), 6);
    assert!(fb.pixels().iter().all(|c| *c == Color::rgb(0, 0, 0)));
    assert_eq!(fb.depth_at(0, 0).raw, i64::MAX);
}

#[test]
fn depth_test_is_strict() {
    let mut fb = Framebuffer::new(2, 2);
    assert!(fb.passes(1, 1, fx(0.5)));
    assert!(fb.plot(1, 1, Color::rgb(1, 1, 1), fx(0.5)));
    assert!(!fb.passes(1, 1, fx(0.5)));
    assert!(!fb.plot(1, 1, Color::rgb(2, 2, 2), fx(0.5)));
    assert_eq!(fb.color_at(1, 1), Color::rgb(1, 1, 1));
    assert!(!fb.plot(1, 1, Color::rgb(3, 3, 3), fx(0.75)));
    assert_eq!(fb.color_at(1, 1), Color::rgb(1, 1, 1));
    assert!(fb.plot(1, 1, Color::rgb(4, 4, 4), Fx::new(fx(0.5).raw - 1)));
    assert_eq!(fb.color_at(1, 1), Color::rgb(4, 4, 4));
    assert_eq!(fb.color_at(0, 1), Color::rgb(0, 0, 0));
    assert!(!fb.plot(0, 0, Color::rgb(5, 5, 5), Fx::new(i64::MAX)));
}

#[test]
fn frame_is_handed_out_as_bytes() {
    let mut fb = Framebuffer::new(2, 1);
    fb.plot(0, 0, Color { r: 1, g: 2, b: 3, a: 4 }, fx(0.5));
    fb.plot(1, 0, Color::rgb(10, 20, 30), fx(0.5));
    assert_eq!(fb.to_rgba(), vec![1, 2, 3, 4, 10, 20, 30, 255]);
}

#[test]
fn star_parameters_stay_in_their_ranges() {
    let mut p = StarParams::default();
    assert_eq!(p.temp_norm, Fx::ratio(65, 100));
    assert_eq!(p.flare_intensity, Fx::ratio(45, 100));
    assert_eq!(p.noise_scale, fx(1.5));
    assert_eq!(p.rot_speed, Fx::ratio(15, 100));
    assert_eq!(p.noise_type, NoiseType::Perlin);
    assert!(!p.use_cellular_flares);
    p.adjust_temp(fx(0.25));
    assert_eq!(p.temp_norm, Fx::new(Fx::ratio(65, 100).raw + 1073741824));
    p.adjust_temp(fx(0.25));
    assert_eq!(p.temp_norm, Fx::one());
    p.adjust_temp(fx(-7.0));
    assert_eq!(p.temp_norm, Fx::zero());
    p.adjust_flare(fx(5.0));
    assert_eq!(p.flare_intensity, Fx::from_int(2));
    p.adjust_flare(fx(-5.0));
    assert_eq!(p.flare_intensity, Fx::zero());
    p.adjust_noise_scale(fx(10.0));
    assert_eq!(p.noise_scale, Fx::from_int(5));
    p.adjust_noise_scale(fx(-10.0));
    assert_eq!(p.noise_scale, Fx::ratio(1, 10));
    p.adjust_rot_speed(fx(3.0));
    assert_eq!(p.rot_speed, Fx::from_int(2));
    p.adjust_rot_speed(fx(-3.0));
    assert_eq!(p.rot_speed, Fx::zero());
    p.adjust_rot_speed(fx(0.5));
    assert_eq!(p.rot_speed, fx(0.5));
    p.toggle_cellular_flares();
    assert!(p.use_cellular_flares);
    p.toggle_cellular_flares();
    assert!(!p.use_cellular_flares);
}

#[test]
fn default_uniforms() {
    let u = Uniforms::default();
    assert_eq!(u.time, Fx::zero());
    assert_eq!(
        u.light_dir,
        Vec3::new(Fx::new(2431546416), Fx::new(3404164982), Fx::new(972618566))
    );
    assert_eq!(u.view, Mat4::identity());
    assert_eq!(u.proj, Mat4::identity());
    assert_eq!(u.model, Mat4::identity());
    assert_eq!(u.camera_pos, Vec3::from_ints(0, 0, 3));
    let p = PlanetParams::default();
    assert_eq!(p.base_color, Color::rgb(180, 180, 200));
    assert_eq!(p.band_freq, Fx::from_int(6));
    assert_eq!(p.noise_scale, Fx::from_int(2));
    assert_eq!(p.rim_power, Fx::from_int(2));
    assert_eq!(p.rotation_speed, fx(0.5));
    assert!(!p.has_rings && !p.has_moon);
}

#[test]
fn shading_helpers() {
    assert_eq!(saturate(fx(1.5)), Fx::one());
    assert_eq!(saturate(fx(-0.5)), Fx::zero());
    assert_eq!(saturate(fx(0.3)), fx(0.3));
    assert_eq!(lerp(fx(2.0), fx(4.0), fx(0.25)), fx(2.5));
    assert_eq!(
        lerp3(Vec3::from_ints(0, 2, 4), Vec3::from_ints(4, 2, 0), fx(0.5)),
        Vec3::from_ints(2, 2, 2)
    );
    assert_eq!(latitude(Vec3::new(fx(0.0), Fx::ratio(3, 10), fx(0.0))).raw, 2791728742);
    assert_eq!(latitude(Vec3::from_ints(0, 1, 0)), Fx::one());
    assert_eq!(latitude(Vec3::from_ints(0, -1, 0)), Fx::zero());
    let n = Vec3::from_ints(0, 0, 1);
    let l = Vec3::new(fx(0.5), Fx::ratio(7, 10), Fx::ratio(2, 10));
    let v = Vec3::from_ints(1, 0, 1);
    assert_eq!(lambert(n, l).raw, 972618566);
    assert_eq!(lambert(n, Vec3::from_ints(0, 0, -1)).raw, 0);
    assert_eq!(lambert(n, Vec3::from_ints(0, 0, 5)).raw, 4294967296);
    assert_eq!(rim(n, v, Fx::from_int(2)).raw, 368449944);
    assert_eq!(rim(n, v, Fx::ratio(25, 10)).raw, 199403672);
    assert_eq!(rim(n, n, Fx::from_int(2)).raw, 0);
    assert_eq!(rim(n, Vec3::from_ints(1, 0, 0), Fx::from_int(2)).raw, 4294967296);
    assert_eq!(specular(n, l, v, Fx::from_int(8)).raw, 60492941);
}

#[test]
fn fractal_sum_of_an_explicit_kind() {
    let p = Vec3::new(fx(0.3), fx(0.7), fx(1.9));
    let two = Fx::from_int(2);
    assert_eq!(
        fbm_3d_type(p, 4, two, Fx::ratio(55, 100), fx(1.5), NoiseType::Perlin).raw,
        2891016132
    );
    assert_eq!(fbm_3d_type(p, 2, two, fx(0.5), Fx::one(), NoiseType::Simplex).raw, 2561269941);
    assert_eq!(
        fbm_3d(p, 4, two, Fx::ratio(55, 100), fx(1.5)),
        fbm_3d_type(p, 4, two, Fx::ratio(55, 100), fx(1.5), NoiseType::Perlin)
    );
    assert_eq!(fbm_3d_type(p, 0, two, fx(0.5), Fx::one(), NoiseType::Perlin).raw, 0);
    assert_eq!(fbm_3d_type(p, -3, two, fx(0.5), Fx::one(), NoiseType::Perlin).raw, 0);
}

#[test]
fn factory_makes_the_style_of_each_kind() {
    let kinds = [
        ShaderKind::Flat,
        ShaderKind::Rocky,
        ShaderKind::Gas,
        ShaderKind::SciFi,
        ShaderKind::Lava,
        ShaderKind::Ice,
        ShaderKind::Star,
        ShaderKind::Rings,
        ShaderKind::Moon,
    ];
    for kind in kinds {
        let shader = make_shader(kind);
        assert_eq!(shader.kind(), kind);
        match shader {
            AnyShader::Star(_) => assert_eq!(kind, ShaderKind::Star),
            AnyShader::Surface(s) => {
                assert_ne!(kind, ShaderKind::Star);
                assert_eq!(s.kind, kind);
            }
        }
    }
}

#[test]
fn planet_styles_show_the_base_colour() {
    let u = Uniforms::default();
    let facing = Varyings {
        pos_ws: Vec3::zero(),
        nrm_ws: u.light_dir,
        uv: Vec2::new(Fx::zero(), Fx::zero()),
    };
    let away = Varyings { nrm_ws: u.light_dir.neg(), ..facing };
    let flat = Surface { kind: ShaderKind::Flat };
    assert_eq!(flat.fragment(&facing, &u), Color::rgb(180, 180, 200));
    assert_eq!(flat.fragment(&away, &u), Color::rgb(180, 180, 200));
    let rocky = make_shader(ShaderKind::Rocky);
    assert_eq!(rocky.fragment(&away, &u), Color::rgb(53, 53, 59));
    let lit = rocky.fragment(&facing, &u);
    assert!(lit.r >= 178 && lit.r <= 180 && lit.b >= 198 && lit.b <= 200, "{:?}", lit);
    let vin = VertexIn {
        pos: Vec3::from_ints(1, 2, 3),
        nrm: Vec3::from_ints(0, 0, 2),
        uv: Vec2::new(fx(0.5), fx(0.25)),
    };
    let out = flat.vertex(vin, &u);
    assert_eq!(out.pos_ws, vin.pos);
    assert_eq!(out.clip_pos, Vec4::from3(vin.pos, Fx::one()));
    assert_eq!(out.nrm_ws, Vec3::from_ints(0, 0, 1));
    assert_eq!(out.uv, vin.uv);
}

#[test]
fn vertices_behind_the_eye_are_not_projected() {
    let vp = viewport(Fx::zero(), Fx::zero(), Fx::from_int(64), Fx::from_int(64), Fx::one());
    let mut out = VertexOut {
        clip_pos: Vec4::new(fx(1.0), fx(-1.0), fx(0.0), fx(2.0)),
        pos_ws: Vec3::from_ints(1, 2, 3),
        nrm_ws: Vec3::from_ints(0, 0, 1),
        uv: Vec2::new(fx(0.5), fx(0.25)),
    };
    let s = project(&out, &vp).unwrap();
    assert_eq!((s.x, s.y, s.z, s.inv_w), (fx(48.0), fx(48.0), fx(0.5), fx(0.5)));
    assert_eq!(s.vary.pos_ws, out.pos_ws);
    assert_eq!(s.vary.nrm_ws, out.nrm_ws);
    assert_eq!(s.vary.uv, out.uv);
    let good = out;
    assert!(assemble(&good, &good, &good, &vp).is_some());
    out.clip_pos.w = Fx::zero();
    assert!(project(&out, &vp).is_none());
    assert!(assemble(&good, &out, &good, &vp).is_none());
    out.clip_pos.w = fx(-1.0);
    assert!(project(&out, &vp).is_none());
    assert!(assemble(&good, &good, &out, &vp).is_none());
    assert!(assemble(&out, &good, &good, &vp).is_none());
}

#[test]
fn frame_is_exported_as_a_portable_pixmap() {
    let mut fb = Framebuffer::new(2, 1);
    fb.plot(0, 0, Color { r: 1, g: 2, b: 3, a: 4 }, fx(0.5));
    fb.plot(1, 0, Color::rgb(10, 20, 30), fx(0.5));
    let mut want = b"P6\n2 1\n255\n".to_vec();
    want.extend_from_slice(&[1, 2, 3, 10, 20, 30]);
    assert_eq!(fb.to_pixmap(), want);
    let wide = Framebuffer::new(120, 7);
    let bytes = wide.to_pixmap();
    assert_eq!(&bytes[..13], b"P6\n120 7\n255\n");
    assert_eq!(bytes.len(), 13 + 120 * 7 * 3);
    assert!(bytes[13..].iter().all(|b| *b == 0));
    let empty = Framebuffer::new(0, 0);
    assert_eq!(empty.to_pixmap(), b"P6\n0 0\n255\n".to_vec());
}
