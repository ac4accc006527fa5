use star_render::fixed::Fx;
use star_render::math::vec::{Vec2, Vec3};
use star_render::renderer::buffers::{Color, Framebuffer};
use star_render::renderer::raster::{draw_triangle, ScreenTriangle, ScreenVertex, Varyings};
use star_render::renderer::uniforms::Uniforms;
use star_render::shaders::surface::Surface;
use star_render::shaders::ShaderKind;

fn fx(v: f64) -> Fx {
    Fx::new((v * 4294967296.0).floor() as i64)
}

fn corner(x: f64, y: f64, z: f64) -> ScreenVertex {
    ScreenVertex {
        x: fx(x),
        y: fx(y),
        z: fx(z),
        inv_w: Fx::one(),
        vary: Varyings {
            pos_ws: Vec3::new(fx(x), fx(y), fx(z)),
            nrm_ws: Vec3::from_ints(0, 0, 1),
            uv: Vec2::new(fx(x), fx(y)),
        },
    }
}

fn triangle(a: (f64, f64), b: (f64, f64), c: (f64, f64), z: f64) -> ScreenTriangle {
    ScreenTriangle { a: corner(a.0, a.1, z), b: corner(b.0, b.1, z), c: corner(c.0, c.1, z) }
}

fn flat() -> Surface {
    Surface { kind: ShaderKind::Flat }
}

fn painted(fb: &Framebuffer, clear: Color) -> Vec<(usize, usize)> {
    let mut hit = Vec::new();
    for y in 0..fb.height() {
        for x in 0..fb.width() {
            if fb.color_at(x, y) != clear {
                hit.push((x, y));
            }
        }
    }
    hit
}

#[test]
fn right_triangle_covers_exactly_its_closed_pixel_set() {
    let tri = triangle((0.0, 0.0), (4.0, 0.0), (0.0, 4.0), 0.5);
    let clear = Color::rgb(2, 2, 5);
    let mut fb = Framebuffer::new(8, 8);
    fb.clear_color(clear);
    draw_triangle(&mut fb, &tri, &flat(), &Uniforms::default());
    let mut want = Vec::new();
    for y in 0..8usize {
        for x in 0..8usize {
            if x + y <= 4 {
                want.push((x, y));
            }
        }
    }
    assert_eq!(want.len(), 15);
    assert_eq!(painted(&fb, clear), want);
    for y in 0..8usize {
        for x in 0..8usize {
            assert_eq!(tri.covers(x, y), x + y <= 4, "pixel {} {}", x, y);
            if x + y <= 4 {
                assert_eq!(fb.color_at(x, y), Color::rgb(180, 180, 200));
                assert_eq!(fb.depth_at(x, y), fx(0.5));
            } else {
                assert_eq!(fb.depth_at(x, y).raw, i64::MAX);
            }
        }
    }
}

#[test]
fn back_face_and_empty_triangle_are_not_drawn() {
    let clear = Color::rgb(2, 2, 5);
    let mut fb = Framebuffer::new(8, 8);
    fb.clear_color(clear);
    let back = triangle((0.0, 0.0), (0.0, 4.0), (4.0, 0.0), 0.5);
    assert!(!back.is_drawable());
    draw_triangle(&mut fb, &back, &flat(), &Uniforms::default());
    let line = triangle((0.0, 0.0), (2.0, 2.0), (4.0, 4.0), 0.5);
    assert!(!line.is_drawable());
    draw_triangle(&mut fb, &line, &flat(), &Uniforms::default());
    assert!(painted(&fb, clear).is_empty());
    assert!(!back.covers(1, 1));
    assert!(!line.covers(2, 2));
}

#[test]
fn triangle_with_far_corners_is_drawn_where_it_meets_the_frame() {
    let clear = Color::rgb(2, 2, 5);
    let mut fb = Framebuffer::new(8, 8);
    fb.clear_color(clear);
    let long = triangle((0.0, 0.0), (40000.0, 0.0), (0.0, 4.0), 0.5);
    assert!(long.is_drawable());
    draw_triangle(&mut fb, &long, &flat(), &Uniforms::default());
    let mut want = Vec::new();
    for y in 0..8usize {
        for x in 0..8usize {
            if y * 10000 + x <= 40000 {
                want.push((x, y));
            }
        }
    }
    assert_eq!(want.len(), 33);
    assert_eq!(painted(&fb, clear), want);
    let mut wide = Framebuffer::new(64, 64);
    wide.clear_color(clear);
    let flat_one = triangle((0.0, 0.0), (40000.0, 0.0), (0.0, 10.0), 0.5);
    draw_triangle(&mut wide, &flat_one, &flat(), &Uniforms::default());
    assert_eq!(wide.color_at(1, 1), Color::rgb(180, 180, 200));
    assert_eq!(wide.color_at(63, 9), Color::rgb(180, 180, 200));
    assert_eq!(wide.color_at(1, 10), clear);
    let huge = triangle((-3.0e8, -3.0e8), (2.0e9, -3.0e8), (-3.0e8, 2.0e9), 0.5);
    assert!(huge.is_drawable());
    draw_triangle(&mut fb, &huge, &flat(), &Uniforms::default());
    assert_eq!(painted(&fb, clear).len(), 64);
}

#[test]
fn corners_are_snapped_to_a_grid_of_256_steps_per_pixel() {
    let tri = triangle((0.0, 0.0), (4.001, 0.0), (0.0, 4.001), 0.5);
    assert!(tri.covers(2, 2));
    assert!(!tri.covers(3, 2));
    let tri = triangle((0.0, 0.0), (4.004, 0.0), (0.0, 4.004), 0.5);
    assert!(tri.covers(2, 2));
    assert!(!tri.covers(2, 3));
    let tri = triangle((0.0, 0.0), (4.5, 0.0), (0.0, 4.5), 0.5);
    assert!(tri.covers(2, 2));
    assert!(!tri.covers(3, 2));
    let tri = triangle((0.0, 0.0), (5.0, 0.0), (0.0, 5.0), 0.5);
    assert!(tri.covers(3, 2));
}

#[test]
fn depth_beyond_the_limit_counts_as_the_limit() {
    let tri = ScreenTriangle {
        a: corner(0.0, 0.0, 5000.0),
        b: corner(4.0, 0.0, 5000.0),
        c: corner(0.0, 4.0, 5000.0),
    };
    assert_eq!(tri.depth(1, 1), fx(2048.0));
    let tri = ScreenTriangle {
        a: corner(0.0, 0.0, -5000.0),
        b: corner(4.0, 0.0, 2048.0),
        c: corner(0.0, 4.0, 100.0),
    };
    assert_eq!(tri.depth(0, 0), fx(-2048.0));
    assert_eq!(tri.depth(4, 0), fx(2048.0));
    assert_eq!(tri.depth(0, 4), fx(100.0));
}

#[test]
fn second_draw_at_equal_depth_changes_nothing() {
    let tri = triangle((0.5, 0.25), (6.75, 1.0), (2.0, 7.5), 0.5);
    let mut fb = Framebuffer::new(8, 8);
    fb.clear_color(Color::rgb(2, 2, 5));
    draw_triangle(&mut fb, &tri, &flat(), &Uniforms::default());
    let colors = fb.pixels().clone();
    let depths: Vec<Fx> = (0..64).map(|i| fb.depth_at(i % 8, i / 8)).collect();
    assert!(colors.iter().any(|c| *c != Color::rgb(2, 2, 5)));
    let mut other = Uniforms::default();
    other.planet.base_color = Color::rgb(9, 9, 9);
    draw_triangle(&mut fb, &tri, &flat(), &other);
    assert_eq!(*fb.pixels(), colors);
    let after: Vec<Fx> = (0..64).map(|i| fb.depth_at(i % 8, i / 8)).collect();
    assert_eq!(after, depths);
}

#[test]
fn nearer_triangle_wins_and_farther_loses() {
    let mut fb = Framebuffer::new(8, 8);
    let mut red = Uniforms::default();
    red.planet.base_color = Color::rgb(255, 0, 0);
    let mut green = Uniforms::default();
    green.planet.base_color = Color::rgb(0, 255, 0);
    let middle = triangle((0.0, 0.0), (7.0, 0.0), (0.0, 7.0), 0.5);
    draw_triangle(&mut fb, &middle, &flat(), &red);
    let behind = triangle((0.0, 0.0), (7.0, 0.0), (0.0, 7.0), 0.75);
    draw_triangle(&mut fb, &behind, &flat(), &green);
    assert_eq!(fb.color_at(1, 1), Color::rgb(255, 0, 0));
    assert_eq!(fb.depth_at(1, 1), fx(0.5));
    let front = triangle((0.0, 0.0), (7.0, 0.0), (0.0, 7.0), 0.25);
    draw_triangle(&mut fb, &front, &flat(), &green);
    assert_eq!(fb.color_at(1, 1), Color::rgb(0, 255, 0));
    assert_eq!(fb.depth_at(1, 1), fx(0.25));
}

#[test]
fn depth_is_interpolated_across_the_triangle() {
    let tri = ScreenTriangle {
        a: corner(0.0, 0.0, 0.0),
        b: corner(4.0, 0.0, 1.0),
        c: corner(0.0, 4.0, 0.5),
    };
    assert_eq!(tri.depth(0, 0), fx(0.0));
    assert_eq!(tri.depth(4, 0), fx(1.0));
    assert_eq!(tri.depth(0, 4), fx(0.5));
    assert_eq!(tri.depth(2, 0), fx(0.5));
    assert_eq!(tri.depth(1, 1), fx(0.375));
}

#[test]
fn attributes_are_weighted_by_inverse_depth() {
    let mut tri = ScreenTriangle {
        a: corner(0.0, 0.0, 0.0),
        b: corner(4.0, 0.0, 0.0),
        c: corner(0.0, 4.0, 0.0),
    };
    tri.a.vary.uv = Vec2::new(fx(0.0), fx(0.0));
    tri.b.vary.uv = Vec2::new(fx(1.0), fx(0.0));
    tri.c.vary.uv = Vec2::new(fx(0.0), fx(1.0));
    assert_eq!(tri.varyings(2, 0).uv, Vec2::new(fx(0.5), fx(0.0)));
    assert_eq!(tri.varyings(4, 0).uv, Vec2::new(fx(1.0), fx(0.0)));
    tri.b.inv_w = fx(0.25);
    let v = tri.varyings(2, 0).uv;
    assert_eq!(v, Vec2::new(fx(0.2), fx(0.0)));
    tri.a.inv_w = Fx::zero();
    tri.b.inv_w = Fx::zero();
    tri.c.inv_w = Fx::zero();
    assert_eq!(tri.varyings(2, 0).uv, Vec2::new(fx(0.5), fx(0.0)));
}

#[test]
fn triangle_is_cut_to_the_frame() {
    let clear = Color::rgb(2, 2, 5);
    let mut fb = Framebuffer::new(4, 3);
    fb.clear_color(clear);
    let tri = triangle((-10.0, -10.0), (50.0, -10.0), (-10.0, 50.0), 0.5);
    draw_triangle(&mut fb, &tri, &flat(), &Uniforms::default());
    assert_eq!(painted(&fb, clear).len(), 12);
    let mut empty = Framebuffer::new(0, 5);
    draw_triangle(&mut empty, &tri, &flat(), &Uniforms::default());
    assert_eq!(empty.pixels().len(), 0);
}
