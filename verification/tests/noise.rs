use star_render::fixed::Fx;
use star_render::math::noise::{
    cellular_3d, cellular_hash3, fade, fbm_3d, hash, hash_bits, noise_3d, perlin_3d, simplex_3d,
    simplex_grad3, simplex_hash, simplex_order, NoiseType,
};
use star_render::math::vec::Vec3;

fn fx(v: f64) -> Fx {
    Fx::new((v * 4294967296.0).floor() as i64)
}

fn point(x: f64, y: f64, z: f64) -> Vec3 {
    Vec3::new(fx(x), fx(y), fx(z))
}

fn as_float(x: Fx) -> f64 {
    x.raw as f64 / 4294967296.0
}

fn float_hash(x: i32, y: i32, z: i32) -> f32 {
    let mut n = x
        .wrapping_mul(374761393)
        .wrapping_add(y.wrapping_mul(668265263))
        .wrapping_add(z.wrapping_mul(1013904223));
    n = (n ^ (n >> 13)).wrapping_mul(1274126177);
    let h = n ^ (n >> 16);
    (h as f32 / i32::MAX as f32) * 0.5 + 0.5
}

fn float_fade(t: f32) -> f32 {
    t * t * t * (t * (t * 6.0 - 15.0) + 10.0)
}

fn float_perlin(px: f32, py: f32, pz: f32) -> f32 {
    let ix = px.floor() as i32;
    let iy = py.floor() as i32;
    let iz = pz.floor() as i32;
    let u = float_fade(px - ix as f32);
    let v = float_fade(py - iy as f32);
    let w = float_fade(pz - iz as f32);
    let x00 = float_hash(ix, iy, iz) * (1.0 - u) + float_hash(ix + 1, iy, iz) * u;
    let x10 = float_hash(ix, iy + 1, iz) * (1.0 - u) + float_hash(ix + 1, iy + 1, iz) * u;
    let x01 = float_hash(ix, iy, iz + 1) * (1.0 - u) + float_hash(ix + 1, iy, iz + 1) * u;
    let x11 = float_hash(ix, iy + 1, iz + 1) * (1.0 - u) + float_hash(ix + 1, iy + 1, iz + 1) * u;
    let y0 = x00 * (1.0 - v) + x10 * v;
    let y1 = x01 * (1.0 - v) + x11 * v;
    y0 * (1.0 - w) + y1 * w
}

#[test]
fn default_noise_is_perlin() {
    assert_eq!(NoiseType::default(), NoiseType::Perlin);
}

#[test]
fn lattice_hash_has_the_agreed_bits() {
    assert_eq!(hash_bits(0, 0, 0), 0);
    assert_eq!(hash_bits(1, 2, 3), 1914873318);
    assert_eq!(hash_bits(-5, 7, 100), 333993395);
    assert_eq!(hash(0, 0, 0).raw, 2147483648);
    assert_eq!(hash(1, 2, 3).raw, 4062356966);
    assert_eq!(hash(-5, 7, 100).raw, 2481477043);
}

#[test]
fn lattice_hash_matches_the_floating_point_formula() {
    for x in -6..6 {
        for y in -6..6 {
            for z in -6..6 {
                let got = as_float(hash(x * 37, y * 101, z * 7)) as f32;
                let want = float_hash(x * 37, y * 101, z * 7);
                assert!((got - want).abs() < 2.0e-7, "{} {} {}", x, y, z);
            }
        }
    }
}

#[test]
fn fade_runs_from_zero_to_one() {
    assert_eq!(fade(Fx::zero()).raw, 0);
    assert_eq!(fade(Fx::one()).raw, 4294967296);
    assert_eq!(fade(fx(0.5)).raw, 2147483648);
    assert_eq!(fade(fx(0.25)).raw, 444596224);
    assert_eq!(fade(fx(-3.0)).raw, 0);
    assert_eq!(fade(fx(3.0)).raw, 4294967296);
}

#[test]
fn perlin_has_exact_values() {
    assert_eq!(perlin_3d(point(1.5, 2.25, -0.75)).raw, 2503755474);
}

#[test]
fn perlin_at_a_lattice_point_is_the_corner_hash() {
    assert_eq!(perlin_3d(Vec3::from_ints(3, -2, 7)), hash(3, -2, 7));
    assert_eq!(perlin_3d(Vec3::from_ints(3, -2, 7)).raw, 3102652528);
    for x in -3..3 {
        for y in -3..3 {
            for z in -3..3 {
                assert_eq!(perlin_3d(Vec3::from_ints(x, y, z)), hash(x, y, z));
            }
        }
    }
}

#[test]
fn perlin_matches_the_floating_point_formula() {
    let mut k = 0;
    while k < 400 {
        let x = (k as f32) * 0.173 - 20.0;
        let y = (k as f32) * 0.071 + 3.3;
        let z = (k as f32) * -0.237 + 11.0;
        let got = as_float(perlin_3d(point(x as f64, y as f64, z as f64))) as f32;
        let want = float_perlin(x, y, z);
        assert!((got - want).abs() < 1.0e-5, "at {} {} {}: {} against {}", x, y, z, got, want);
        assert!((0.0..=1.0).contains(&got));
        k += 1;
    }
}

#[test]
fn simplex_scramble_has_the_agreed_bits() {
    assert_eq!(simplex_hash(0), 1376312589);
    assert_eq!(simplex_hash(1), 889344745);
    assert_eq!(simplex_hash(255), -1686800031);
    assert_eq!(simplex_hash(-7), -1992694335);
}

#[test]
fn simplex_gradient_picks_two_axes_with_signs() {
    let (x, y, z) = (fx(1.0), fx(10.0), fx(100.0));
    let want = [
        11.0, 9.0, -9.0, -11.0, 101.0, 99.0, -99.0, -101.0, 110.0, 90.0, -90.0, -110.0, 11.0,
        90.0, 9.0, -110.0,
    ];
    for h in 0..16 {
        assert_eq!(simplex_grad3(h, x, y, z), fx(want[h as usize]), "selector {}", h);
        assert_eq!(simplex_grad3(h + 16 * 5, x, y, z), fx(want[h as usize]));
        assert_eq!(simplex_grad3(h - 16, x, y, z), fx(want[h as usize]));
    }
}

#[test]
fn simplex_order_walks_along_the_largest_coordinate_first() {
    let o = simplex_order(fx(0.3), fx(0.2), fx(0.1));
    assert_eq!((o.i1, o.j1, o.k1, o.i2, o.j2, o.k2), (1, 0, 0, 1, 1, 0));
    let o = simplex_order(fx(0.3), fx(0.1), fx(0.2));
    assert_eq!((o.i1, o.j1, o.k1, o.i2, o.j2, o.k2), (1, 0, 0, 1, 0, 1));
    let o = simplex_order(fx(0.2), fx(0.1), fx(0.3));
    assert_eq!((o.i1, o.j1, o.k1, o.i2, o.j2, o.k2), (0, 0, 1, 1, 0, 1));
    let o = simplex_order(fx(0.1), fx(0.2), fx(0.3));
    assert_eq!((o.i1, o.j1, o.k1, o.i2, o.j2, o.k2), (0, 0, 1, 0, 1, 1));
    let o = simplex_order(fx(0.1), fx(0.3), fx(0.2));
    assert_eq!((o.i1, o.j1, o.k1, o.i2, o.j2, o.k2), (0, 1, 0, 0, 1, 1));
    let o = simplex_order(fx(0.2), fx(0.3), fx(0.1));
    assert_eq!((o.i1, o.j1, o.k1, o.i2, o.j2, o.k2), (0, 1, 0, 1, 1, 0));
    let o = simplex_order(fx(0.2), fx(0.2), fx(0.2));
    assert_eq!((o.i1, o.j1, o.k1, o.i2, o.j2, o.k2), (1, 0, 0, 1, 1, 0));
}

#[test]
fn simplex_has_exact_values() {
    assert_eq!(simplex_3d(point(0.3, 0.7, 1.9)).raw, 2498291392);
    assert_eq!(simplex_3d(Vec3::zero()).raw, 2147483648);
}

#[test]
fn simplex_stays_near_the_unit_interval() {
    let mut k = 0;
    while k < 500 {
        let p = point(k as f64 * 0.137 - 30.0, k as f64 * 0.311, k as f64 * -0.053 + 4.0);
        let v = as_float(simplex_3d(p));
        assert!((-0.25..=1.25).contains(&v), "{}", v);
        k += 1;
    }
}

#[test]
fn cellular_feature_point_lies_inside_its_cell() {
    let mut k = -50;
    while k < 50 {
        let p = cellular_hash3(Vec3::from_ints(k, k * 3 + 1, -k * 7));
        for c in [p.x, p.y, p.z] {
            assert!(0 <= c.raw && c.raw < 4294967296);
        }
        k += 1;
    }
    let p = cellular_hash3(Vec3::from_ints(1, 2, 3));
    let q = cellular_hash3(Vec3::from_ints(1, 5, 3));
    assert_eq!(p.x, q.x);
    assert_eq!(p.z, q.z);
    assert_ne!(p.y, q.y);
}

#[test]
fn cellular_has_exact_values() {
    assert_eq!(cellular_3d(point(0.5, 0.5, 0.5)).raw, 1815266772);
    assert_eq!(cellular_3d(point(2.25, -1.5, 0.1)).raw, 3177161353);
}

#[test]
fn cellular_is_highest_at_a_feature_point() {
    let cell = Vec3::from_ints(4, -2, 9);
    let feature = cell.add(cellular_hash3(cell));
    assert_eq!(cellular_3d(feature).raw, 4294967296);
    let mut k = 0;
    while k < 300 {
        let p = point(k as f64 * 0.21 - 9.0, k as f64 * 0.13, k as f64 * 0.37 - 50.0);
        let v = cellular_3d(p).raw;
        assert!((0..=4294967296).contains(&v));
        k += 1;
    }
}

#[test]
fn noise_is_a_function_of_its_arguments() {
    let p = point(12.34, -5.67, 0.89);
    for kind in [NoiseType::Perlin, NoiseType::Simplex, NoiseType::Cellular] {
        assert_eq!(noise_3d(p, kind), noise_3d(p, kind));
    }
    assert_eq!(noise_3d(p, NoiseType::Perlin), perlin_3d(p));
    assert_eq!(noise_3d(p, NoiseType::Simplex), simplex_3d(p));
    assert_eq!(noise_3d(p, NoiseType::Cellular), cellular_3d(p));
}

#[test]
fn fbm_of_one_octave_is_the_noise_at_the_scaled_point() {
    let p = point(0.3, 0.7, 1.9);
    let scale = Fx::ratio(3, 2);
    for kind in [NoiseType::Perlin, NoiseType::Simplex, NoiseType::Cellular] {
        for (lac, gain) in [(2.0, 0.5), (3.7, 0.1), (0.0, 9.0), (-1.0, -1.0)] {
            assert_eq!(
                fbm_3d(p, 1, fx(lac), fx(gain), scale, kind),
                noise_3d(p.scale(scale), kind)
            );
        }
    }
    assert_eq!(fbm_3d(p, 1, fx(2.0), fx(0.6), scale, NoiseType::Perlin).raw, 2808941004);
}

#[test]
fn fbm_weighs_its_octaves() {
    let p = point(0.3, 0.7, 1.9);
    assert_eq!(
        fbm_3d(p, 3, Fx::from_int(2), Fx::ratio(6, 10), Fx::ratio(3, 2), NoiseType::Perlin).raw,
        2943308200
    );
    let a = noise_3d(p.scale(Fx::one()), NoiseType::Perlin);
    let b = noise_3d(p.scale(Fx::from_int(2)), NoiseType::Perlin);
    let want = a.add(b.mul(fx(0.5))).div(fx(1.5));
    assert_eq!(fbm_3d(p, 2, Fx::from_int(2), fx(0.5), Fx::one(), NoiseType::Perlin), want);
}

#[test]
fn fbm_without_octaves_is_zero() {
    let p = point(0.3, 0.7, 1.9);
    assert_eq!(fbm_3d(p, 0, fx(2.0), fx(0.5), fx(1.0), NoiseType::Simplex).raw, 0);
}
