use star_render::fixed::Fx;
use star_render::math::mat::{look_at_rh, perspective_rh, scale, viewport};
use star_render::math::noise::{fbm_3d, NoiseType};
use star_render::math::vec::{Vec2, Vec3};
use star_render::mesh::Mesh;
use star_render::renderer::buffers::{Color, Framebuffer};
use star_render::renderer::pipeline::{draw_mesh, Shader, VertexIn};
use star_render::renderer::raster::Varyings;
use star_render::renderer::uniforms::{StarParams, Uniforms};
use star_render::shaders::star::{smoothstep, Star};
use star_render::shaders::{make_shader, ShaderKind};

fn fx(v: f64) -> Fx {
    Fx::new((v * 4294967296.0).floor() as i64)
}

fn as_float(x: Fx) -> f64 {
    x.raw as f64 / 4294967296.0
}

fn scene() -> Uniforms {
    let eye = Vec3::new(fx(0.0), fx(0.0), fx(3.5));
    let mut u = Uniforms::default();
    u.view = look_at_rh(eye, Vec3::zero(), Vec3::from_ints(0, 1, 0));
    u.proj = perspective_rh(fx(1.0), Fx::one(), fx(0.1), fx(100.0));
    u.model = scale(Vec3::new(fx(1.2), fx(1.2), fx(1.2)));
    u.camera_pos = eye;
    u
}

#[test]
fn smoothstep_rises_from_edge_to_edge() {
    assert_eq!(smoothstep(fx(1.0), fx(3.0), fx(0.0)).raw, 0);
    assert_eq!(smoothstep(fx(1.0), fx(3.0), fx(1.0)).raw, 0);
    assert_eq!(smoothstep(fx(1.0), fx(3.0), fx(2.0)).raw, 2147483648);
    assert_eq!(smoothstep(fx(1.0), fx(3.0), fx(3.0)).raw, 4294967296);
    assert_eq!(smoothstep(fx(1.0), fx(3.0), fx(9.0)).raw, 4294967296);
    assert_eq!(smoothstep(fx(0.0), fx(1.0), fx(0.25)).raw, 671088640);
}

#[test]
fn gradient_has_its_four_stops() {
    let star = Star;
    assert_eq!(
        star.gradient(Fx::zero()),
        Vec3::new(Fx::new(3650722201), Fx::new(1073741824), Fx::new(214748364))
    );
    assert_eq!(
        star.gradient(Fx::ratio(33, 100)),
        Vec3::new(Fx::new(4294967296), Fx::new(2147483648), Fx::new(429496729))
    );
    assert_eq!(
        star.gradient(Fx::ratio(66, 100)),
        Vec3::new(Fx::new(4294967296), Fx::new(3435973836), Fx::new(1288490188))
    );
    assert_eq!(
        star.gradient(Fx::one()),
        Vec3::new(Fx::new(4294967296), Fx::new(4080218931), Fx::new(3650722201))
    );
    assert_eq!(
        star.gradient(fx(0.5)),
        Vec3::new(Fx::new(4294967296), Fx::new(2821003646), Fx::new(878510061))
    );
}

#[test]
fn gradient_is_continuous_across_its_blend_boundaries() {
    let star = Star;
    for boundary in [Fx::ratio(33, 100), Fx::ratio(66, 100)] {
        let below = star.gradient(Fx::new(boundary.raw - 1));
        let at = star.gradient(boundary);
        let above = star.gradient(Fx::new(boundary.raw + 1));
        for (a, b) in [(below.x, at.x), (below.y, at.y), (below.z, at.z)] {
            assert!((a.raw - b.raw).abs() <= 2, "{} against {}", a.raw, b.raw);
        }
        for (a, b) in [(above.x, at.x), (above.y, at.y), (above.z, at.z)] {
            assert!((a.raw - b.raw).abs() <= 2, "{} against {}", a.raw, b.raw);
        }
    }
    for boundary in [Fx::zero(), Fx::ratio(33, 100), Fx::ratio(66, 100), Fx::one()] {
        let mut t: i64 = boundary.raw - 3000;
        let mut last = star.gradient(Fx::new(t));
        while t < boundary.raw + 3000 {
            t += 1;
            let next = star.gradient(Fx::new(t));
            for (a, b) in [(last.x, next.x), (last.y, next.y), (last.z, next.z)] {
                assert!((a.raw - b.raw).abs() <= 4, "jump at {}", t);
            }
            last = next;
        }
    }
    let mut t: i64 = -100_000;
    while t < 4_295_100_000 {
        let here = star.gradient(Fx::new(t));
        let next = star.gradient(Fx::new(t + 1));
        for (a, b) in [(here.x, next.x), (here.y, next.y), (here.z, next.z)] {
            assert!((a.raw - b.raw).abs() <= 4, "jump at {}", t);
        }
        t += 65_521;
    }
}

#[test]
fn emission_colour_moves_towards_white_with_temperature() {
    let star = Star;
    let cold = star.emission_color(fx(0.5), Fx::zero());
    assert_eq!(cold, star.gradient(fx(0.5)));
    let hot = star.emission_color(fx(0.5), Fx::one());
    assert!(hot.y.raw > cold.y.raw && hot.z.raw > cold.z.raw);
    let white = Vec3::new(Fx::one(), Fx::ratio(98, 100), Fx::ratio(92, 100));
    assert_eq!(hot, cold.lerp(white, Fx::ratio(3, 10)));
}

#[test]
fn surface_and_flare_stay_in_the_unit_interval() {
    let star = Star;
    let mut params = StarParams::default();
    for kind in [NoiseType::Perlin, NoiseType::Simplex, NoiseType::Cellular] {
        params.noise_type = kind;
        for cellular in [false, true] {
            params.use_cellular_flares = cellular;
            let mut k = 0;
            while k < 40 {
                let p = Vec3::new(fx(k as f64 * 0.11 - 2.0), fx(0.3), fx(k as f64 * -0.07));
                let t = fx(k as f64 * 0.5);
                let s = star.surface_intensity(p, t, &params).raw;
                let f = star.flare_term(p, t, &params).raw;
                assert!((0..=4294967296).contains(&s));
                assert!((0..=4294967296).contains(&f));
                k += 1;
            }
        }
    }
}

#[test]
fn flare_strength_zero_switches_the_flares_off() {
    let star = Star;
    let mut params = StarParams::default();
    params.flare_intensity = Fx::zero();
    let p = Vec3::new(fx(0.4), fx(-0.2), fx(0.9));
    assert_eq!(star.flare_term(p, fx(1.0), &params).raw, 0);
}

#[test]
fn vertex_stage_keeps_the_vertex_near_its_radius() {
    let star = Star;
    let u = scene();
    let vin = VertexIn {
        pos: Vec3::new(fx(0.0), fx(1.0), fx(0.0)),
        nrm: Vec3::new(fx(0.0), fx(1.0), fx(0.0)),
        uv: Vec2::new(fx(0.25), fx(0.5)),
    };
    let out = star.vertex(vin, &u);
    assert_eq!(out.uv, vin.uv);
    let r = as_float(out.pos_ws.length());
    assert!(r > 1.2 * 0.98 && r < 1.2 * 1.2, "radius {}", r);
    assert!((as_float(out.nrm_ws.length()) - 1.0).abs() < 1.0e-8);
    assert!(out.clip_pos.w.raw > 0);
    assert_eq!(star.vertex(vin, &u), out);
}

#[test]
fn fragment_of_the_star_is_warm() {
    let star = Star;
    let u = scene();
    let vary = Varyings {
        pos_ws: Vec3::new(fx(0.0), fx(0.0), fx(1.2)),
        nrm_ws: Vec3::new(fx(0.0), fx(0.0), fx(1.0)),
        uv: Vec2::new(fx(0.5), fx(0.5)),
    };
    let c = star.fragment(&vary, &u);
    assert_eq!(c.a, 255);
    assert!(c.r > c.b, "{:?}", c);
    assert!(c.r >= c.g, "{:?}", c);
    assert_eq!(star.fragment(&vary, &u), c);
    assert_eq!(make_shader(ShaderKind::Star).fragment(&vary, &u), c);
}

#[test]
fn every_style_has_its_name() {
    assert_eq!(Star.name(), "Star");
    let names = [
        (ShaderKind::Flat, "Flat"),
        (ShaderKind::Rocky, "Rocky"),
        (ShaderKind::Gas, "Gas"),
        (ShaderKind::SciFi, "SciFi"),
        (ShaderKind::Lava, "Lava"),
        (ShaderKind::Ice, "Ice"),
        (ShaderKind::Star, "Star"),
        (ShaderKind::Rings, "Rings"),
        (ShaderKind::Moon, "Moon"),
    ];
    for (kind, name) in names {
        assert_eq!(kind.name(), name);
        assert_eq!(make_shader(kind).name(), name);
    }
}

#[test]
fn surface_at_the_origin_is_nine_twentieths() {
    let star = Star;
    let params = StarParams::default();
    let s = star.surface_intensity(Vec3::zero(), Fx::zero(), &params);
    assert!((as_float(s) - 0.45).abs() < 1.0e-8, "{}", as_float(s));
    assert_eq!(s.raw, 1932735281);
}

#[test]
fn vertex_stage_hands_on_a_unit_normal() {
    let u = Uniforms::default();
    let mut k = 0;
    while k < 200 {
        let a = k as f64 * 0.31;
        let b = k as f64 * 0.015 - 1.5;
        let n = Vec3::new(fx(a.cos() * b.cos() * 0.9), fx(b.sin() * 0.9), fx(a.sin() * b.cos() * 0.9));
        let vin = VertexIn { pos: Vec3::from_ints(1, 0, 0), nrm: n, uv: Vec2::new(fx(0.5), fx(0.25)) };
        let out = Star.vertex(vin, &u);
        assert_eq!(out.uv, vin.uv);
        assert!((as_float(out.nrm_ws.length()) - 1.0).abs() < 1.0e-8);
        assert!(as_float(out.nrm_ws.sub(n.normalize()).length()) < 1.0e-8);
        k += 1;
    }
    let short = Vec3::new(Fx::new(2576980377), Fx::new(3435973836), Fx::zero());
    let vin = VertexIn { pos: Vec3::from_ints(1, 0, 0), nrm: short, uv: Vec2::new(fx(0.5), fx(0.25)) };
    let out = Star.vertex(vin, &u);
    assert!((as_float(out.nrm_ws.length()) - 1.0).abs() < 1.0e-8);
}

#[test]
fn sphere_is_rendered_with_the_star_style() {
    let mesh = Mesh::new(24, 12, Fx::one());
    let u = scene();
    let clear = Color::rgb(2, 2, 5);
    let mut fb = Framebuffer::new(64, 64);
    fb.clear_color(clear);
    fb.clear_depth();
    let vp = viewport(Fx::zero(), Fx::zero(), Fx::from_int(64), Fx::from_int(64), Fx::one());
    draw_mesh(&mut fb, &mesh, &Star, &u, vp);
    let lit = fb.pixels().iter().filter(|c| **c != clear).count();
    assert!(lit > 0);
    assert!(lit > 600 && lit < 3000, "{} pixels lit", lit);
    let centre = fb.color_at(32, 32);
    assert_ne!(centre, clear);
    assert!(centre.r > centre.b, "{:?}", centre);
    for c in fb.pixels().iter() {
        assert!(*c == clear || (c.r >= c.g && c.g >= c.b && (c.r > c.b || c.b == 255)));
    }
    assert_eq!(fb.color_at(0, 0), clear);
    assert_eq!(fb.color_at(63, 63), clear);
    assert_eq!(fb.depth_at(0, 0).raw, i64::MAX);
    assert!(fb.depth_at(32, 32).raw < 4294967296);
    for y in 0..64usize {
        let mut row = String::new();
        for x in 0..64usize {
            row.push(if fb.color_at(x, y) == clear { '.' } else { '#' });
        }
        println!("{}", row);
    }
    println!("centre {:?}", centre);
}

#[test]
fn rendering_a_frame_twice_gives_the_same_picture() {
    let mesh = Mesh::new(12, 6, Fx::one());
    let u = scene();
    let vp = viewport(Fx::zero(), Fx::zero(), Fx::from_int(32), Fx::from_int(32), Fx::one());
    let mut first = Framebuffer::new(32, 32);
    draw_mesh(&mut first, &mesh, &Star, &u, vp);
    let mut second = Framebuffer::new(32, 32);
    draw_mesh(&mut second, &mesh, &Star, &u, vp);
    assert_eq!(first.pixels(), second.pixels());
    let picture = first.pixels().clone();
    draw_mesh(&mut first, &mesh, &Star, &u, vp);
    assert_eq!(*first.pixels(), picture);
}

#[test]
fn star_renders_with_every_noise_and_at_later_times() {
    let mesh = Mesh::new(16, 8, Fx::one());
    let vp = viewport(Fx::zero(), Fx::zero(), Fx::from_int(32), Fx::from_int(32), Fx::one());
    let clear = Color::rgb(2, 2, 5);
    for kind in [NoiseType::Perlin, NoiseType::Simplex, NoiseType::Cellular] {
        for (time, cellular) in [(0.0, false), (7.5, true), (123.25, false)] {
            let mut u = scene();
            u.time = fx(time);
            u.star.noise_type = kind;
            u.star.use_cellular_flares = cellular;
            let mut fb = Framebuffer::new(32, 32);
            fb.clear_color(clear);
            draw_mesh(&mut fb, &mesh, &Star, &u, vp);
            let lit = fb.pixels().iter().filter(|c| **c != clear).count();
            assert!(lit > 200 && lit < 600, "{:?} at {}: {} pixels lit", kind, time, lit);
            let centre = fb.color_at(16, 16);
            assert!(centre.r > centre.b, "{:?} at {}: {:?}", kind, time, centre);
            assert_eq!(fb.color_at(0, 0), clear);
        }
    }
}

#[test]
fn factory_star_draws_what_the_star_draws() {
    let mesh = Mesh::new(8, 4, Fx::one());
    let u = scene();
    let vp = viewport(Fx::zero(), Fx::zero(), Fx::from_int(16), Fx::from_int(16), Fx::one());
    let mut direct = Framebuffer::new(16, 16);
    draw_mesh(&mut direct, &mesh, &Star, &u, vp);
    let mut made = Framebuffer::new(16, 16);
    draw_mesh(&mut made, &mesh, &make_shader(ShaderKind::Star), &u, vp);
    assert_eq!(direct.pixels(), made.pixels());
    let mut flat = Framebuffer::new(16, 16);
    draw_mesh(&mut flat, &mesh, &make_shader(ShaderKind::Flat), &u, vp);
    assert!(flat.pixels().iter().all(|c| *c == Color::rgb(0, 0, 0) || *c == Color::rgb(180, 180, 200)));
    assert!(flat.pixels().iter().any(|c| *c == Color::rgb(180, 180, 200)));
}

#[test]
fn fractal_sum_of_bounded_noise_is_bounded() {
    let mut k = 0;
    while k < 60 {
        let p = Vec3::new(fx(k as f64 * 0.37 - 5.0), fx(k as f64 * 0.11), fx(2.0 - k as f64 * 0.07));
        for kind in [NoiseType::Perlin, NoiseType::Cellular] {
            let v = fbm_3d(p, 5, fx(2.0), fx(0.5 + k as f64 * 0.05), fx(1.5), kind).raw;
            assert!((0..=4294967296).contains(&v), "{}", v);
        }
        k += 1;
    }
}

#[test]
fn every_fragment_of_the_star_is_warm() {
    let star = Star;
    for kind in [NoiseType::Perlin, NoiseType::Simplex, NoiseType::Cellular] {
        for (temp, flare) in [(0.0, 0.0), (0.65, 0.45), (1.0, 2.0)] {
            let mut u = scene();
            u.star.noise_type = kind;
            u.star.temp_norm = fx(temp);
            u.star.flare_intensity = fx(flare);
            let mut k = 0;
            while k < 60 {
                u.time = fx(k as f64 * 0.37);
                let a = k as f64 * 0.21;
                let b = k as f64 * 0.05 - 1.5;
                let n = Vec3::new(fx(a.cos() * b.cos()), fx(b.sin()), fx(a.sin() * b.cos()));
                let vary = Varyings {
                    pos_ws: n.scale(fx(1.2)),
                    nrm_ws: n,
                    uv: Vec2::new(fx(0.0), fx(0.0)),
                };
                let c = star.fragment(&vary, &u);
                assert!(c.r >= c.g && c.g >= c.b, "{:?}", c);
                assert!(c.r > c.b || c.b == 255, "{:?}", c);
                assert_ne!(c, Color::rgb(2, 2, 5));
                k += 1;
            }
        }
    }
}
