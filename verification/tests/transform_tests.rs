use trifan::CoreError;
use trifan::rational::Rat;
use trifan::rational::rat_eq;
use trifan::transform::Mat4;
use trifan::transform::Vec3;

fn approx(r: Rat) -> f64 {
    r.num as f64 / r.den as f64
}

fn assert_value(r: Rat, num: i64, den: i64) {
    assert!(rat_eq(r, Rat::new(num, den)), "got {}/{}, want {}/{}", r.num, r.den, num, den);
}

#[test]
fn identity_elements() {
    let m = Mat4::identity();
    let e = m.raw_elements();
    assert_eq!(e.len(), 16);
    for i in 0..4 {
        for j in 0..4 {
            let v = e[i * 4 + j];
            if i == j {
                assert_value(v, 1, 1);
            } else {
                assert_value(v, 0, 1);
            }
        }
    }
}

#[test]
fn identity_applies_unchanged() {
    let m = Mat4::identity();
    let p = (Rat::new(7, 3), Rat::new(-2, 5), Rat::whole(4), Rat::one());
    let (x, y, z, w) = m.apply(p).unwrap();
    assert_value(x, 7, 3);
    assert_value(y, -2, 5);
    assert_value(z, 4, 1);
    assert_value(w, 1, 1);
}

#[test]
fn scale_then_rotate_matches_direct_arithmetic() {
    // cos = 3/5, sin = 4/5: an exact point on the unit circle.
    let c = Rat::new(3, 5);
    let s = Rat::new(4, 5);
    let k = Rat::whole(2);

    let mut m = Mat4::identity();
    m.scale(k, k, k).unwrap();
    m.rotate_z(c, s).unwrap();

    let p = (Rat::one(), Rat::one(), Rat::zero(), Rat::one());
    let (x, y, z, w) = m.apply(p).unwrap();

    // Scaling first gives (2, 2, 0); rotating that point directly:
    // x' = c*2 - s*2 = -2/5, y' = s*2 + c*2 = 14/5.
    assert_value(x, -2, 5);
    assert_value(y, 14, 5);
    assert_value(z, 0, 1);
    assert_value(w, 1, 1);
}

#[test]
fn rotate_x_quarter_turn_moves_y_to_z() {
    let mut m = Mat4::identity();
    m.rotate_x(Rat::zero(), Rat::one()).unwrap();
    let (x, y, z, w) = m.apply((Rat::zero(), Rat::one(), Rat::zero(), Rat::one())).unwrap();
    assert_value(x, 0, 1);
    assert_value(y, 0, 1);
    assert_value(z, 1, 1);
    assert_value(w, 1, 1);
}

#[test]
fn rotate_y_quarter_turn_moves_z_to_x() {
    let mut m = Mat4::identity();
    m.rotate_y(Rat::zero(), Rat::one()).unwrap();
    let (x, y, z, w) = m.apply((Rat::zero(), Rat::zero(), Rat::one(), Rat::one())).unwrap();
    assert_value(x, 1, 1);
    assert_value(y, 0, 1);
    assert_value(z, 0, 1);
    assert_value(w, 1, 1);
}

#[test]
fn translate_after_identity_fills_last_column() {
    let mut m = Mat4::identity();
    m.translate(Rat::whole(1), Rat::whole(2), Rat::whole(3)).unwrap();
    let e = m.raw_elements();
    assert_value(e[3], 1, 1);
    assert_value(e[7], 2, 1);
    assert_value(e[11], 3, 1);
    let (x, y, z, w) = m.apply((Rat::zero(), Rat::zero(), Rat::zero(), Rat::one())).unwrap();
    assert_value(x, 1, 1);
    assert_value(y, 2, 1);
    assert_value(z, 3, 1);
    assert_value(w, 1, 1);
}

#[test]
fn overflow_fails_and_leaves_matrix_unchanged() {
    let big = Rat::whole(i64::MAX);
    let mut m = Mat4::identity();
    m.scale(big, big, big).unwrap();
    let before = m.raw_elements();
    let r = m.scale(big, big, big);
    assert_eq!(r, Err(CoreError::ArithmeticOverflow));
    let after = m.raw_elements();
    for i in 0..16 {
        assert_eq!(before[i].num, after[i].num);
        assert_eq!(before[i].den, after[i].den);
    }
}

#[test]
fn lookat_maps_eye_to_origin() {
    // eye = (0,0,5): forward = (0,0,5), right = (5,0,0), true up = (0,25,0);
    // the reciprocal row lengths are exactly 1/5, 1/25, 1/5.
    let eye = Vec3::new(Rat::zero(), Rat::zero(), Rat::whole(5));
    let target = Vec3::new(Rat::zero(), Rat::zero(), Rat::zero());
    let up = Vec3::new(Rat::zero(), Rat::one(), Rat::zero());
    let m = Mat4::lookat(eye, target, up, Rat::new(1, 5), Rat::new(1, 25), Rat::new(1, 5))
        .unwrap();
    let (x, y, z, w) = m.apply((Rat::zero(), Rat::zero(), Rat::whole(5), Rat::one())).unwrap();
    assert_value(x, 0, 1);
    assert_value(y, 0, 1);
    assert_value(z, 0, 1);
    assert_value(w, 1, 1);
}

#[test]
fn lookat_with_reciprocal_lengths_is_the_normalized_view() {
    // With the exact reciprocal row lengths the rotation part is the
    // identity basis and the matrix is the translation by (0,0,-5).
    let eye = Vec3::new(Rat::zero(), Rat::zero(), Rat::whole(5));
    let target = Vec3::new(Rat::zero(), Rat::zero(), Rat::zero());
    let up = Vec3::new(Rat::zero(), Rat::one(), Rat::zero());
    let m = Mat4::lookat(eye, target, up, Rat::new(1, 5), Rat::new(1, 25), Rat::new(1, 5))
        .unwrap();
    let e = m.raw_elements();
    let expected: [(i64, i64); 16] = [
        (1, 1), (0, 1), (0, 1), (0, 1),
        (0, 1), (1, 1), (0, 1), (0, 1),
        (0, 1), (0, 1), (1, 1), (-5, 1),
        (0, 1), (0, 1), (0, 1), (1, 1),
    ];
    for i in 0..16 {
        assert_value(e[i], expected[i].0, expected[i].1);
    }
    // The fan's center vertex, at the origin, sits at view depth -5:
    // five units in front of the camera.
    let (x, y, z, w) = m.apply((Rat::zero(), Rat::zero(), Rat::zero(), Rat::one())).unwrap();
    assert_value(x, 0, 1);
    assert_value(y, 0, 1);
    assert_value(z, -5, 1);
    assert_value(w, 1, 1);
}

#[test]
fn lookat_centers_eye_for_any_row_scaling() {
    // The camera position maps to the origin whatever reciprocal lengths
    // the edge supplies.
    let eye = Vec3::new(Rat::new(1, 2), Rat::whole(2), Rat::whole(2));
    let target = Vec3::new(Rat::zero(), Rat::zero(), Rat::zero());
    let up = Vec3::new(Rat::zero(), Rat::one(), Rat::zero());
    let m = Mat4::lookat(eye, target, up, Rat::new(4, 3), Rat::new(2, 5), Rat::new(3, 7))
        .unwrap();
    let (x, y, z, w) = m.apply((eye.x, eye.y, eye.z, Rat::one())).unwrap();
    assert_value(x, 0, 1);
    assert_value(y, 0, 1);
    assert_value(z, 0, 1);
    assert_value(w, 1, 1);
}

#[test]
fn lookat_rejects_up_parallel_to_view() {
    let eye = Vec3::new(Rat::zero(), Rat::zero(), Rat::whole(5));
    let target = Vec3::new(Rat::zero(), Rat::zero(), Rat::zero());
    let up = Vec3::new(Rat::zero(), Rat::zero(), Rat::one());
    assert_eq!(
        Mat4::lookat(eye, target, up, Rat::one(), Rat::one(), Rat::one()).unwrap_err(),
        CoreError::DegenerateCameraBasis
    );
}

#[test]
fn perspective_roundtrip_recovers_bounds() {
    let l = Rat::whole(-1);
    let r = Rat::whole(1);
    let b = Rat::whole(-1);
    let t = Rat::whole(1);
    let near = Rat::whole(1);
    let far = Rat::whole(15);
    let m = Mat4::project_perspective(l, r, b, t, near, far).unwrap();
    let e = m.raw_elements();
    let a00 = approx(e[0]);
    let b02 = approx(e[2]);
    let c11 = approx(e[5]);
    let d12 = approx(e[6]);
    let e22 = approx(e[10]);
    let f23 = approx(e[11]);
    let eps = 1e-12;

    let near_back = f23 / (e22 - 1.0);
    let far_back = f23 / (e22 + 1.0);
    assert!((near_back - 1.0).abs() < eps);
    assert!((far_back - 15.0).abs() < eps);
    assert!((near_back * (b02 - 1.0) / a00 - (-1.0)).abs() < eps);
    assert!((near_back * (b02 + 1.0) / a00 - 1.0).abs() < eps);
    assert!((near_back * (d12 - 1.0) / c11 - (-1.0)).abs() < eps);
    assert!((near_back * (d12 + 1.0) / c11 - 1.0).abs() < eps);
}

#[test]
fn perspective_expected_elements() {
    let m = Mat4::project_perspective(
        Rat::whole(-1),
        Rat::whole(1),
        Rat::whole(-1),
        Rat::whole(1),
        Rat::whole(1),
        Rat::whole(15),
    )
    .unwrap();
    let e = m.raw_elements();
    assert_value(e[0], 1, 1);
    assert_value(e[2], 0, 1);
    assert_value(e[5], 1, 1);
    assert_value(e[6], 0, 1);
    assert_value(e[10], -8, 7);
    assert_value(e[11], -15, 7);
    assert_value(e[14], -1, 1);
    assert_value(e[15], 0, 1);
}

#[test]
fn perspective_rejects_degenerate_bounds() {
    let one = Rat::whole(1);
    let two = Rat::whole(2);
    assert_eq!(
        Mat4::project_perspective(one, one, Rat::whole(-1), one, one, two).unwrap_err(),
        CoreError::DegenerateFrustum
    );
    assert_eq!(
        Mat4::project_perspective(Rat::whole(-1), one, Rat::whole(-1), one, two, two).unwrap_err(),
        CoreError::DegenerateFrustum
    );
}

#[test]
fn orthographic_expected_elements() {
    let m = Mat4::project_orthographic(
        Rat::whole(-1),
        Rat::whole(1),
        Rat::whole(-1),
        Rat::whole(1),
        Rat::whole(1),
        Rat::whole(15),
    )
    .unwrap();
    let e = m.raw_elements();
    assert_value(e[0], 1, 1);
    assert_value(e[3], 0, 1);
    assert_value(e[5], 1, 1);
    assert_value(e[10], -1, 7);
    assert_value(e[11], -8, 7);
    assert_value(e[15], 1, 1);
}

#[test]
fn orthographic_rejects_degenerate_bounds() {
    let one = Rat::whole(1);
    assert_eq!(
        Mat4::project_orthographic(one, Rat::whole(2), one, one, one, Rat::whole(2)).unwrap_err(),
        CoreError::DegenerateFrustum
    );
}
