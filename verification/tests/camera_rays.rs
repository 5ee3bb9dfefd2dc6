use raycam::camera::screen_sample;
use raycam::camera::Camera;
use raycam::vec3::Vec3;

fn normalize(p: &Vec3) -> (f64, f64, f64) {
    let (x, y, z) = (p.x as f64, p.y as f64, p.z as f64);
    let len = (x * x + y * y + z * z).sqrt();
    (x / len, y / len, z / len)
}

fn cos_to_forward(p: &Vec3, f: &Vec3) -> f64 {
    let dot = p.dot(f) as f64;
    dot / ((p.norm_sq() as f64).sqrt() * (f.norm_sq() as f64).sqrt())
}

/// An exactly representable orthogonal basis of equal magnitudes, standing
/// for the unit basis the floating-point layer would produce.
fn axis_camera() -> Camera {
    Camera {
        forward: Vec3 { x: 0, y: 0, z: 1 },
        right: Vec3 { x: -1, y: 0, z: 0 },
        up: Vec3 { x: 0, y: 1, z: 0 },
    }
}

#[test]
fn orientation_vectors_are_orthogonal() {
    // forward with all components in play
    let f = Vec3::new(1, 3, 2);
    let cam = Camera::new_with_forward_dir(f);
    assert_eq!(cam.forward, f);
    assert_eq!(cam.right, Vec3::new(-2, 0, 1));
    assert_eq!(cam.up, Vec3::new(-3, 5, -6));
    assert_eq!(cam.right.dot(&cam.forward), 0);
    assert_eq!(cam.up.dot(&cam.forward), 0);
    assert_eq!(cam.up.dot(&cam.right), 0);
    assert!(!cam.right.is_zero());
    assert!(!cam.up.is_zero());
}

#[test]
fn orientation_from_forward_parallel_to_world_up_degenerates() {
    let cam = Camera::new_with_forward_dir(Vec3::new(0, 5, 0));
    assert!(cam.right.is_zero());
    assert!(cam.up.is_zero());
}

#[test]
fn centre_sample_gives_forward_direction() {
    let cam = axis_camera();
    // two very different field-of-view scalings: the direction is forward
    // either way, only the positive overall factor differs
    let p1 = cam.calc_ray_dir(0, 0, 1000, 577, 1000);
    let p2 = cam.calc_ray_dir(0, 0, 1000, 1732, 1000);
    assert_eq!((p1.x, p1.y), (0, 0));
    assert_eq!((p2.x, p2.y), (0, 0));
    assert!(p1.z > 0 && p2.z > 0);
    let d1 = normalize(&p1);
    let d2 = normalize(&p2);
    assert!((d1.2 - 1.0).abs() < 1e-9 && (d2.2 - 1.0).abs() < 1e-9);
}

#[test]
fn wider_samples_deviate_more_from_forward() {
    let cam = axis_camera();
    let f = cam.forward;
    let scale = 1000; // fov scaling 1.0 at denominator 1000
    let mut last_cos = f64::INFINITY;
    let mut last_dot = None;
    for sx in [0i64, 250, 500, 1000] {
        let p = cam.calc_ray_dir(sx, 0, 1000, scale, 1000);
        // the projection onto forward never moves ...
        match last_dot {
            None => last_dot = Some(p.dot(&f)),
            Some(d) => assert_eq!(p.dot(&f), d),
        }
        // ... while the angle opens strictly
        let c = cos_to_forward(&p, &f);
        assert!(c < last_cos);
        last_cos = c;
    }
    // the same along the vertical axis
    let near = cam.calc_ray_dir(0, 100, 1000, scale, 1000);
    let far = cam.calc_ray_dir(0, 900, 1000, scale, 1000);
    assert!(cos_to_forward(&far, &f) < cos_to_forward(&near, &f));
}

#[test]
fn ray_directions_normalize_to_unit_length() {
    let cam = axis_camera();
    for (sx, sy) in [(0i64, 0i64), (1000, 0), (-1000, 1000), (353, -777), (1000000, 999999)] {
        let p = cam.calc_ray_dir(sx, sy, 1000, 1000, 1000);
        assert!(!p.is_zero());
        let (x, y, z) = normalize(&p);
        let len = (x * x + y * y + z * z).sqrt();
        assert!((len - 1.0).abs() < 1e-5);
    }
}

#[test]
fn unit_fov_corner_sample_end_to_end() {
    // forward (0,0,1) with world-up (0,1,0): the derived basis keeps
    // up = (0,1,0) and sets right to the cross product (-1,0,0)
    let cam = Camera::new_with_forward_dir(Vec3::new(0, 0, 1));
    assert_eq!(cam.right, Vec3::new(-1, 0, 0));
    assert_eq!(cam.up, Vec3::new(0, 1, 0));
    // sample (1, 0) under fov scaling tan(45 degrees) = 1: the plane point
    // is forward plus the full right vector, at unit height along forward
    let p = cam.calc_ray_dir(1, 0, 1, 1, 1);
    assert_eq!(p, Vec3::new(-1, 0, 1));
    let d = normalize(&p);
    assert!((d.0 + 0.7071).abs() < 1e-4);
    assert!(d.1.abs() < 1e-9);
    assert!((d.2 - 0.7071).abs() < 1e-4);
    // the mirrored sample lands on the opposite diagonal
    let q = cam.calc_ray_dir(-1, 0, 1, 1, 1);
    assert_eq!(q, Vec3::new(1, 0, 1));
    let e = normalize(&q);
    assert!((e.0 - 0.7071).abs() < 1e-4);
    assert!((e.2 - 0.7071).abs() < 1e-4);
}

#[test]
fn screen_samples_fold_in_the_aspect_ratio() {
    // top-left pixel of an 800-row, 600-column buffer: -0.75 and -1 at
    // denominator 800
    assert_eq!(screen_sample(0, 0, 800, 600), (-600, -800));
    // the exact centre
    assert_eq!(screen_sample(300, 400, 800, 600), (0, 0));
    // bottom-right corner
    assert_eq!(screen_sample(600, 800, 800, 600), (600, 800));
    // a corner pixel's ray deviates more from forward than an inner one
    let cam = axis_camera();
    let (cx, cy) = screen_sample(300, 400, 800, 600);
    let (ex, ey) = screen_sample(0, 0, 800, 600);
    let centre = cam.calc_ray_dir(cx, cy, 800, 1000, 1000);
    let edge = cam.calc_ray_dir(ex, ey, 800, 1000, 1000);
    let f = cam.forward;
    assert!(cos_to_forward(&edge, &f) < cos_to_forward(&centre, &f));
    assert!((cos_to_forward(&centre, &f) - 1.0).abs() < 1e-9);
}

#[test]
fn cross_products_and_norms_are_exact() {
    let a = Vec3::new(2, -3, 5);
    let b = Vec3::new(7, 1, -4);
    let c = a.cross(&b);
    assert_eq!(c, Vec3::new(7, 43, 23));
    assert_eq!(c.dot(&a), 0);
    assert_eq!(c.dot(&b), 0);
    assert_eq!(a.norm_sq(), 38);
    assert_eq!(Vec3::zero().norm_sq(), 0);
    assert!(Vec3::zero().is_zero());
    assert_eq!(Vec3::y_axis(), Vec3::new(0, 1, 0));
}
