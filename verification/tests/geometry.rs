use star_render::camera::Camera;
use star_render::fixed::Fx;
use star_render::math::mat::{look_at_rh, perspective_rh, rotation_y, scale, viewport, Mat4};
use star_render::math::vec::{Vec2, Vec3, Vec4};
use star_render::mesh::{build_uv_sphere, Mesh, Vertex};

fn fx(v: f64) -> Fx {
    Fx::new((v * 4294967296.0).floor() as i64)
}

fn as_float(x: Fx) -> f64 {
    x.raw as f64 / 4294967296.0
}

fn v3(x: i64, y: i64, z: i64) -> Vec3 {
    Vec3::new(Fx::new(x), Fx::new(y), Fx::new(z))
}

fn close(a: Fx, b: f64) -> bool {
    (as_float(a) - b).abs() < 1.0e-7
}

#[test]
fn vector_arithmetic_is_componentwise() {
    let a = Vec3::from_ints(1, 2, 3);
    let b = Vec3::from_ints(-4, 5, 6);
    assert_eq!(a.add(b), Vec3::from_ints(-3, 7, 9));
    assert_eq!(a.sub(b), Vec3::from_ints(5, -3, -3));
    assert_eq!(a.neg(), Vec3::from_ints(-1, -2, -3));
    assert_eq!(a.scale(fx(0.5)), Vec3::new(fx(0.5), fx(1.0), fx(1.5)));
    assert_eq!(a.dot(b), Fx::from_int(24));
    assert_eq!(a.cross(b), Vec3::from_ints(-3, -18, 13));
    assert_eq!(Vec3::from_ints(1, 0, 0).cross(Vec3::from_ints(0, 1, 0)), Vec3::from_ints(0, 0, 1));
    assert_eq!(a.lerp(b, fx(0.5)), Vec3::new(fx(-1.5), fx(3.5), fx(4.5)));
    assert_eq!(Vec3::new(fx(-1.0), fx(0.5), fx(7.0)).clamp01(), Vec3::new(fx(0.0), fx(0.5), fx(1.0)));
    assert_eq!(Vec3::zero(), Vec3::from_ints(0, 0, 0));
    assert_eq!(Vec2::new(fx(1.0), fx(2.0)).y, fx(2.0));
}

#[test]
fn length_is_the_floor_of_the_euclidean_length() {
    assert_eq!(Vec3::from_ints(3, 4, 0).length(), Fx::from_int(5));
    assert_eq!(v3(1, 1, 1).length().raw, 1);
    assert_eq!(v3(655, 0, 0).length().raw, 655);
    assert_eq!(Vec3::zero().length().raw, 0);
    assert_eq!(v3(i64::MAX, i64::MAX, i64::MIN).length().raw, i64::MAX);
}

#[test]
fn normalize_gives_unit_length_and_keeps_the_zero_vector() {
    assert_eq!(Vec3::from_ints(3, 4, 0).normalize(), v3(2576980377, 3435973836, 0));
    assert_eq!(Vec3::zero().normalize(), Vec3::zero());
    assert_eq!(v3(655, 0, 0).normalize(), Vec3::from_ints(1, 0, 0));
    let n = Vec3::new(fx(0.5), fx(0.7), fx(0.2)).normalize();
    assert_eq!(n, v3(2431546416, 3404164982, 972618566));
}

#[test]
fn four_component_vectors() {
    let v = Vec4::from3(Vec3::from_ints(1, 2, 3), Fx::one());
    assert_eq!(v, Vec4::new(fx(1.0), fx(2.0), fx(3.0), fx(1.0)));
    assert_eq!(v.xyz(), Vec3::from_ints(1, 2, 3));
    assert_eq!(v.dot(Vec4::new(fx(2.0), fx(0.5), fx(-1.0), fx(4.0))), Fx::from_int(4));
}

#[test]
fn identity_and_products_of_matrices() {
    let v = Vec4::new(fx(1.5), fx(-2.0), fx(3.25), fx(1.0));
    let id = Mat4::identity();
    assert_eq!(id.mul_vec(v), v);
    let s = scale(Vec3::from_ints(2, 3, 4));
    assert_eq!(s.mul_vec(v), Vec4::new(fx(3.0), fx(-6.0), fx(13.0), fx(1.0)));
    assert_eq!(s.mul(id), s);
    assert_eq!(id.mul(s), s);
    assert_eq!(s.mul(s), scale(Vec3::from_ints(4, 9, 16)));
    assert_eq!(s.transpose(), s);
    let m = Mat4 {
        r0: Vec4::new(fx(1.0), fx(2.0), fx(3.0), fx(4.0)),
        r1: Vec4::new(fx(5.0), fx(6.0), fx(7.0), fx(8.0)),
        r2: Vec4::new(fx(9.0), fx(10.0), fx(11.0), fx(12.0)),
        r3: Vec4::new(fx(13.0), fx(14.0), fx(15.0), fx(16.0)),
    };
    assert_eq!(m.transpose().r0, Vec4::new(fx(1.0), fx(5.0), fx(9.0), fx(13.0)));
    assert_eq!(m.transpose().transpose(), m);
    assert_eq!(m.mul(m).r0, Vec4::new(fx(90.0), fx(100.0), fx(110.0), fx(120.0)));
    assert_eq!(m.mul(m).r3, Vec4::new(fx(426.0), fx(484.0), fx(542.0), fx(600.0)));
    assert_eq!(m.mul(s).mul_vec(v), m.mul_vec(s.mul_vec(v)));
}

#[test]
fn rotation_about_the_vertical_axis() {
    let quarter = rotation_y(Fx::new(6746518852));
    let v = quarter.mul_vec(Vec4::new(fx(1.0), fx(5.0), fx(0.0), fx(1.0)));
    assert!(close(v.x, 0.0) && close(v.z, -1.0));
    assert_eq!(v.y, fx(5.0));
    assert_eq!(rotation_y(Fx::zero()), Mat4::identity());
}

#[test]
fn view_matrix_moves_the_eye_to_the_origin() {
    let eye = Vec3::new(fx(0.0), fx(0.0), fx(3.5));
    let view = look_at_rh(eye, Vec3::zero(), Vec3::from_ints(0, 1, 0));
    assert_eq!(view.mul_vec(Vec4::from3(eye, Fx::one())), Vec4::new(fx(0.0), fx(0.0), fx(0.0), fx(1.0)));
    let ahead = view.mul_vec(Vec4::from3(Vec3::zero(), Fx::one()));
    assert_eq!(ahead, Vec4::new(fx(0.0), fx(0.0), fx(-3.5), fx(1.0)));
    let side = look_at_rh(Vec3::from_ints(3, 2, 3), Vec3::zero(), Vec3::from_ints(0, 1, 0));
    let centre = side.mul_vec(Vec4::from3(Vec3::zero(), Fx::one()));
    assert!(close(centre.x, 0.0) && close(centre.y, 0.0));
    assert!(close(centre.z, -(22.0f64).sqrt()));
}

#[test]
fn perspective_maps_the_clip_planes_to_the_ends_of_depth() {
    let proj = perspective_rh(fx(1.0), fx(2.0), fx(0.1), fx(100.0));
    assert_eq!(proj.r1.y.raw, 7861884901);
    assert_eq!(proj.r0.x.raw, 3930942450);
    assert_eq!(proj.r2.z.raw, -4303565830);
    assert_eq!(proj.r2.w.raw, -859853312);
    assert_eq!(proj.r3.z.raw, -4294967296);
    let near = proj.mul_vec(Vec4::new(fx(0.0), fx(0.0), fx(-0.1), fx(1.0)));
    assert!(close(near.z.div(near.w), -1.0));
    let far = proj.mul_vec(Vec4::new(fx(0.0), fx(0.0), fx(-100.0), fx(1.0)));
    assert!(close(far.z.div(far.w), 1.0));
    assert!(near.w.raw > 0 && far.w.raw > 0);
}

#[test]
fn viewport_puts_up_at_the_top_row() {
    let vp = viewport(fx(10.0), fx(20.0), fx(64.0), fx(32.0), fx(1.0));
    let top_left = vp.mul_vec(Vec4::new(fx(-1.0), fx(1.0), fx(-1.0), fx(1.0)));
    assert_eq!(top_left, Vec4::new(fx(10.0), fx(20.0), fx(0.0), fx(1.0)));
    let bottom_right = vp.mul_vec(Vec4::new(fx(1.0), fx(-1.0), fx(1.0), fx(1.0)));
    assert_eq!(bottom_right, Vec4::new(fx(74.0), fx(52.0), fx(1.0), fx(1.0)));
    let centre = vp.mul_vec(Vec4::new(fx(0.0), fx(0.0), fx(0.0), fx(1.0)));
    assert_eq!(centre, Vec4::new(fx(42.0), fx(36.0), fx(0.5), fx(1.0)));
}

#[test]
fn sphere_has_a_vertex_per_grid_point_and_six_indices_per_quad() {
    let (vertices, indices) = build_uv_sphere(4, 2, Fx::from_int(2));
    assert_eq!(vertices.len(), 15);
    assert_eq!(indices.len(), 48);
    assert_eq!(&indices[0..6], &[0, 5, 1, 1, 5, 6]);
    assert_eq!(&indices[6..12], &[1, 6, 2, 2, 6, 7]);
    assert_eq!(&indices[24..30], &[5, 10, 6, 6, 10, 11]);
    assert_eq!(&indices[42..48], &[8, 13, 9, 9, 13, 14]);
    assert!(indices.iter().all(|i| (*i as usize) < vertices.len()));
    let v = vertices[6];
    assert_eq!(v.position, Vec3::from_ints(0, 0, 2));
    assert_eq!(v.normal, Vec3::from_ints(0, 0, 1));
    assert_eq!(v.uv, Vec2::new(fx(0.25), fx(0.5)));
    assert_eq!(vertices[0].normal, Vec3::from_ints(0, 1, 0));
    assert_eq!(vertices[14].normal, Vec3::from_ints(0, -1, 0));
    assert_eq!(vertices[14].uv, Vec2::new(fx(1.0), fx(1.0)));
}

#[test]
fn sphere_vertices_lie_on_the_sphere() {
    let (vertices, _) = build_uv_sphere(16, 8, Fx::from_int(3));
    for v in vertices.iter() {
        assert!((as_float(v.normal.length()) - 1.0).abs() < 1.0e-8);
        assert!((as_float(v.position.length()) - 3.0).abs() < 3.0e-8);
    }
}

#[test]
fn sphere_without_quads_is_empty_of_triangles() {
    let (vertices, indices) = build_uv_sphere(0, 0, Fx::one());
    assert_eq!(vertices.len(), 1);
    assert_eq!(indices.len(), 0);
    let (vertices, indices) = build_uv_sphere(3, 0, Fx::one());
    assert_eq!(vertices.len(), 4);
    assert_eq!(indices.len(), 0);
}

#[test]
fn mesh_accepts_only_triangles_over_its_vertices() {
    let v = Vertex {
        position: Vec3::zero(),
        normal: Vec3::from_ints(0, 1, 0),
        uv: Vec2::new(Fx::zero(), Fx::zero()),
    };
    let mesh = Mesh::from_parts(vec![v, v, v], vec![0, 1, 2, 2, 1, 0]).unwrap();
    assert_eq!(mesh.triangle_count(), 2);
    assert_eq!(mesh.vertices().len(), 3);
    assert_eq!(mesh.indices(), &vec![0, 1, 2, 2, 1, 0]);
    assert!(Mesh::from_parts(vec![v, v, v], vec![0, 1, 3]).is_none());
    assert!(Mesh::from_parts(vec![v, v, v], vec![0, 1]).is_none());
    assert!(Mesh::from_parts(vec![v, v, v], vec![0, 1, 2, 0]).is_none());
    assert!(Mesh::from_parts(vec![], vec![]).is_some());
    assert!(Mesh::from_parts(vec![], vec![0, 0, 0]).is_none());
    let sphere = Mesh::new(8, 4, Fx::one());
    assert_eq!(sphere.vertices().len(), 45);
    assert_eq!(sphere.triangle_count(), 64);
}

#[test]
fn camera_makes_its_matrices_on_demand() {
    let mut cam = Camera::new();
    assert_eq!(cam.eye, Vec3::from_ints(3, 2, 3));
    assert_eq!(cam.center, Vec3::zero());
    assert_eq!(cam.up, Vec3::from_ints(0, 1, 0));
    assert_eq!(cam.fovy.raw, 3373259426);
    assert_eq!(cam.aspect, Fx::one());
    assert_eq!(cam.near, Fx::ratio(1, 10));
    assert_eq!(cam.far, Fx::from_int(100));
    assert_eq!(cam.view(), look_at_rh(cam.eye, cam.center, cam.up));
    assert_eq!(cam.proj(), perspective_rh(cam.fovy, cam.aspect, cam.near, cam.far));
    assert_eq!(cam.proj().r1.y.raw, 10368968301);
    cam.set_aspect(fx(2.0));
    assert_eq!(cam.aspect, fx(2.0));
    assert_eq!(cam.proj().r0.x.raw, 5184484150);
    assert_eq!(cam.eye, Vec3::from_ints(3, 2, 3));
    assert_eq!(cam.view_proj(), cam.proj().mul(cam.view()));
}

#[test]
fn camera_circles_the_origin() {
    let mut cam = Camera::new();
    cam.fovy = fx(1.0);
    cam.update(fx(1.5), Fx::from_int(2));
    assert_eq!(cam.eye, v3(10634368428, 7278720466, 7275362868));
    assert_eq!(cam.center, Vec3::zero());
    assert_eq!(cam.up, Vec3::from_ints(0, 1, 0));
    assert_eq!(cam.aspect, fx(1.5));
    assert_eq!(cam.fovy, fx(1.0));
    assert_eq!(cam.near, Fx::ratio(1, 10));
    let centre = cam.view_proj().mul_vec(Vec4::new(fx(0.0), fx(0.0), fx(0.0), fx(1.0)));
    assert!(centre.w.raw > 0);
    assert!(close(centre.x.div(centre.w), 0.0) && close(centre.y.div(centre.w), 0.0));
    cam.update(fx(1.5), Fx::zero());
    assert_eq!(cam.eye, Vec3::new(fx(3.0), fx(1.5), fx(0.0)));
    let mut k = 0;
    while k < 100 {
        cam.update(fx(1.5), fx(k as f64 * 0.37));
        let flat = Vec3::new(cam.eye.x, Fx::zero(), cam.eye.z);
        assert!((as_float(flat.length()) - 3.0).abs() < 1.0e-7);
        assert!(as_float(cam.eye.y) >= 1.0 && as_float(cam.eye.y) <= 2.0);
        k += 1;
    }
}

#[test]
fn indices_are_handed_out_as_bytes_in_machine_order() {
    let mesh = Mesh::new(2, 1, Fx::one());
    let mut want = Vec::new();
    for i in mesh.indices().iter() {
        want.extend_from_slice(&i.to_ne_bytes());
    }
    assert_eq!(mesh.indices(), &vec![0, 3, 1, 1, 3, 4, 1, 4, 2, 2, 4, 5]);
    assert_eq!(mesh.index_bytes(), want);
    assert_eq!(mesh.index_bytes().len(), 48);
    let v = Vertex {
        position: Vec3::zero(),
        normal: Vec3::zero(),
        uv: Vec2::new(Fx::zero(), Fx::zero()),
    };
    let big = Mesh::from_parts(vec![v; 70000], vec![0x1_0203, 0, 0]).unwrap();
    let bytes = big.index_bytes();
    assert!(bytes[..4] == [3, 2, 1, 0] || bytes[..4] == [0, 1, 2, 3]);
}

#[test]
fn normalized_vectors_have_unit_length() {
    let mut k: i64 = 1;
    while k < 4000 {
        let v = v3(k * 7_919 * 65_537, -k * 104_729 * 4_099, (k % 17 - 8) * 1_000_003 * 9_973);
        let len = v.normalize().length().raw;
        assert!(4294967296 - 4 <= len && len <= 4294967296 + 512, "{:?}: {}", v, len);
        let tiny = v3(k % 7 - 3, k % 5 - 2, k % 3 + 1);
        let len = tiny.normalize().length().raw;
        assert!(4294967296 - 4 <= len && len <= 4294967296 + 512, "{:?}: {}", tiny, len);
        k += 13;
    }
    assert_eq!(v3(1, 1, 0).normalize(), v3(3037000500, 3037000500, 0));
    assert_eq!(v3(0, 0, -1).normalize(), Vec3::from_ints(0, 0, -1));
    let short = v3(2576980377, 3435973836, 0);
    assert_eq!(short.length().raw, 4294967295);
    let len = short.normalize().length().raw;
    assert!(4294967296 - 4 <= len && len <= 4294967296 + 512);
    let coarse = v3(39321 << 16, 52428 << 16, 0);
    let len = coarse.normalize().length().raw;
    assert!(4294967296 - 4 <= len && len <= 4294967296 + 512, "{}", len);
}
