
use smooth_csg::arithmetic::{Arithmetic, Axis};
use smooth_csg::field::{estimate_normal, normal_from_implicit, ImplicitFunction};
use smooth_csg::geometry::{Point, Vector};
use smooth_csg::mixer::{in_band, rmax, rmin, IntersectionMixer, Mixer, SubtractionMixer, UnionMixer};
use smooth_csg::object::{Bool, Object, Sphere, SpherePrimitive};
use smooth_csg::scalar::Scalar;
use smooth_csg::transform::{Step, Transform};

const EPSILON: f64 = 1e-10;

fn s(x: f64) -> Scalar {
    Scalar::from_bits(x.to_bits())
}

fn f(x: Scalar) -> f64 {
    f64::from_bits(x.to_bits())
}

fn pt(x: f64, y: f64, z: f64) -> Point {
    Point::new(s(x), s(y), s(z))
}

fn vc(x: f64, y: f64, z: f64) -> Vector {
    Vector::new(s(x), s(y), s(z))
}

fn comps(v: Vector) -> [f64; 3] {
    [f(v.x), f(v.y), f(v.z)]
}

fn coords(p: Point) -> [f64; 3] {
    [f(p.x), f(p.y), f(p.z)]
}

fn rot_x(v: [f64; 3], a: f64) -> [f64; 3] {
    let (sn, cs) = a.sin_cos();
    [v[0], cs * v[1] - sn * v[2], sn * v[1] + cs * v[2]]
}

fn rot_y(v: [f64; 3], a: f64) -> [f64; 3] {
    let (sn, cs) = a.sin_cos();
    [cs * v[0] + sn * v[2], v[1], -sn * v[0] + cs * v[2]]
}

fn rot_z(v: [f64; 3], a: f64) -> [f64; 3] {
    let (sn, cs) = a.sin_cos();
    [cs * v[0] - sn * v[1], sn * v[0] + cs * v[1], v[2]]
}

/// Binary64 arithmetic as the machine does it.
struct Binary64;

impl Arithmetic for Binary64 {
    fn difference(&self, a: Scalar, b: Scalar) -> Scalar {
        s(f(a) - f(b))
    }

    fn fillet_min(&self, a: Scalar, b: Scalar, r: Scalar) -> Scalar {
        let (a, b, r) = (f(a), f(b), f(r));
        s(b + r * (std::f64::consts::PI / 4. + ((a - b) / r / 2_f64.sqrt()).asin()).sin() - r)
    }

    fn fillet_max(&self, a: Scalar, b: Scalar, r: Scalar) -> Scalar {
        let (a, b, r) = (f(a), f(b), f(r));
        s(b - r * (std::f64::consts::PI / 4. - ((a - b) / r / 2_f64.sqrt()).asin()).sin() + r)
    }

    fn length(&self, v: Vector) -> Scalar {
        let [x, y, z] = comps(v);
        s((x * x + y * y + z * z).sqrt())
    }

    fn normalize(&self, v: Vector) -> Vector {
        let [x, y, z] = comps(v);
        let l = (x * x + y * y + z * z).sqrt();
        vc(x / l, y / l, z / l)
    }

    fn pull_back(&self, step: Step, p: Point) -> Point {
        let c = coords(p);
        let q = match step {
            Step::Translate(t) => {
                let t = comps(t);
                [c[0] - t[0], c[1] - t[1], c[2] - t[2]]
            }
            Step::Rotate(r) => {
                let r = comps(r);
                rot_x(rot_y(rot_z(c, -r[2]), -r[1]), -r[0])
            }
            Step::Scale(k) => [c[0] / f(k), c[1] / f(k), c[2] / f(k)],
        };
        pt(q[0], q[1], q[2])
    }

    fn push_forward(&self, step: Step, n: Vector) -> Vector {
        let c = comps(n);
        let q = match step {
            Step::Translate(_) => c,
            Step::Rotate(r) => {
                let r = comps(r);
                rot_z(rot_y(rot_x(c, r[0]), r[1]), r[2])
            }
            Step::Scale(k) => [c[0] / f(k), c[1] / f(k), c[2] / f(k)],
        };
        vc(q[0], q[1], q[2])
    }

    fn offset(&self, p: Point, axis: Axis) -> Point {
        let c = coords(p);
        match axis {
            Axis::X => pt(c[0] + EPSILON, c[1], c[2]),
            Axis::Y => pt(c[0], c[1] + EPSILON, c[2]),
            Axis::Z => pt(c[0], c[1], c[2] + EPSILON),
        }
    }
}

fn sphere(r: f64) -> Object {
    Object::Sphere(Sphere::new(s(r)))
}

fn value(o: &Object, x: f64, y: f64, z: f64) -> f64 {
    f(o.value(&pt(x, y, z), &Binary64))
}

fn normal(o: &Object, x: f64, y: f64, z: f64) -> [f64; 3] {
    comps(o.normal(&pt(x, y, z), &Binary64))
}

fn close(a: f64, b: f64, tol: f64) -> bool {
    (a - b).abs() <= tol
}

#[test]
fn sphere_value_is_negative_inside_and_positive_outside() {
    let o = sphere(2.0);
    assert!(value(&o, 0.5, 0.5, 0.5) < 0.0);
    assert!(value(&o, 0.0, 0.0, 0.0) < 0.0);
    assert!(value(&o, 2.0, 2.0, 0.0) > 0.0);
    assert!(value(&o, 0.0, -3.0, 0.0) > 0.0);
    assert!(close(value(&o, 2.0, 0.0, 0.0), 0.0, 1e-12));
    assert_eq!(value(&o, 0.0, 0.0, 0.0), -2.0);
    assert_eq!(value(&o, 3.0, 4.0, 0.0), 3.0);
}

#[test]
fn sphere_normal_is_the_radial_direction() {
    let o = sphere(2.0);
    let n = normal(&o, 3.0, 4.0, 0.0);
    assert!(close(n[0], 0.6, 1e-15) && close(n[1], 0.8, 1e-15) && n[2] == 0.0);
    let n = normal(&o, 0.0, 0.0, -0.25);
    assert_eq!(n, [0.0, 0.0, -1.0]);
    for p in [[1.0, 2.0, 3.0], [-0.1, 0.2, 7.0], [5.0, -5.0, 5.0]] {
        let n = normal(&o, p[0], p[1], p[2]);
        let l = (p[0] * p[0] + p[1] * p[1] + p[2] * p[2]).sqrt();
        for i in 0..3 {
            assert!(close(n[i], p[i] / l, 1e-15));
        }
        assert!(close((n[0] * n[0] + n[1] * n[1] + n[2] * n[2]).sqrt(), 1.0, 1e-15));
    }
}

#[test]
fn primitive_alone_ignores_any_transform() {
    let p = SpherePrimitive::new(s(1.5));
    assert_eq!(f(p.value(&pt(0.0, 2.0, 0.0), &Binary64)), 0.5);
    assert_eq!(comps(p.normal(&pt(0.0, 2.0, 0.0), &Binary64)), [0.0, 1.0, 0.0]);
}

#[test]
fn rmin_outside_the_band_is_the_minimum() {
    let k = Binary64;
    assert_eq!(f(rmin(s(1.0), s(2.0), s(1.0), &k)), 1.0);
    assert_eq!(f(rmin(s(2.0), s(1.0), s(1.0), &k)), 1.0);
    assert_eq!(f(rmin(s(-3.0), s(4.0), s(0.5), &k)), -3.0);
    assert_eq!(f(rmin(s(0.25), s(0.25), s(0.0), &k)), 0.25);
}

#[test]
fn rmax_outside_the_band_is_the_maximum() {
    let k = Binary64;
    assert_eq!(f(rmax(s(1.0), s(2.0), s(1.0), &k)), 2.0);
    assert_eq!(f(rmax(s(2.0), s(1.0), s(1.0), &k)), 2.0);
    assert_eq!(f(rmax(s(-3.0), s(4.0), s(0.5), &k)), 4.0);
    assert_eq!(f(rmax(s(0.25), s(0.25), s(0.0), &k)), 0.25);
}

#[test]
fn rmin_inside_the_band_is_the_fillet() {
    let k = Binary64;
    assert!(close(f(rmin(s(0.0), s(0.0), s(1.0), &k)), -0.2928932188134524, 1e-15));
    assert!(close(f(rmin(s(-0.25), s(-0.25), s(0.3), &k)), -0.33786796564403573, 1e-15));
    let v = f(rmin(s(0.5), s(0.2), s(1.0), &k));
    let expected = 0.2 + (std::f64::consts::PI / 4. + (0.3f64 / 2_f64.sqrt()).asin()).sin() - 1.0;
    assert!(close(v, expected, 1e-15));
    assert!(v < 0.2);
}

#[test]
fn rmax_inside_the_band_is_the_fillet() {
    let k = Binary64;
    assert!(close(f(rmax(s(0.0), s(0.0), s(1.0), &k)), 0.2928932188134524, 1e-15));
    let v = f(rmax(s(0.5), s(0.2), s(1.0), &k));
    let expected = 0.2 - (std::f64::consts::PI / 4. - (0.3f64 / 2_f64.sqrt()).asin()).sin() + 1.0;
    assert!(close(v, expected, 1e-15));
    assert!(v > 0.5);
}

#[test]
fn smooth_kernels_meet_the_sharp_ones_at_the_band_edge() {
    let k = Binary64;
    for (a, b, r) in [(1.0, 0.5, 0.5), (0.5, 1.0, 0.5), (-2.0, 0.0, 2.0), (0.75, 0.5, 0.25)] {
        let inside = r * (1.0 + 1e-9);
        assert!(close(f(rmin(s(a), s(b), s(inside), &k)), a.min(b), 1e-4));
        assert!(close(f(rmax(s(a), s(b), s(inside), &k)), a.max(b), 1e-4));
        assert_eq!(f(rmin(s(a), s(b), s(r), &k)), a.min(b));
        assert_eq!(f(rmax(s(a), s(b), s(r), &k)), a.max(b));
    }
}

#[test]
fn smooth_kernels_are_symmetric() {
    let k = Binary64;
    for (a, b, r) in [(1.0, 0.5, 2.0), (0.0, 0.1, 0.3), (-2.0, 0.0, 1.0), (3.0, -3.0, 0.5)] {
        let (x, y) = (f(rmin(s(a), s(b), s(r), &k)), f(rmin(s(b), s(a), s(r), &k)));
        assert!(close(x, y, 1e-15));
        let (x, y) = (f(rmax(s(a), s(b), s(r), &k)), f(rmax(s(b), s(a), s(r), &k)));
        assert!(close(x, y, 1e-15));
    }
}

#[test]
fn in_band_compares_the_magnitude_with_the_radius() {
    assert!(in_band(s(0.2), s(0.3)));
    assert!(in_band(s(-0.2), s(0.3)));
    assert!(!in_band(s(0.3), s(0.3)));
    assert!(!in_band(s(-0.3), s(0.3)));
    assert!(!in_band(s(0.0), s(0.0)));
    assert!(!in_band(s(f64::NAN), s(1.0)));
}

#[test]
fn mixers_keep_their_radius() {
    assert_eq!(f(UnionMixer::new(s(0.3)).r()), 0.3);
    assert_eq!(f(IntersectionMixer::new(s(0.5)).r()), 0.5);
    assert_eq!(f(SubtractionMixer::new(s(0.0)).r()), 0.0);
}

#[test]
fn mixers_blend_values() {
    let k = Binary64;
    let u = UnionMixer::new(s(0.5));
    assert_eq!(f(u.mixval(s(1.0), s(2.0), &k)), 1.0);
    assert!(close(f(UnionMixer::new(s(1.0)).mixval(s(0.0), s(0.0), &k)), -0.2928932188134524, 1e-15));
    let i = IntersectionMixer::new(s(0.5));
    assert_eq!(f(i.mixval(s(1.0), s(2.0), &k)), 2.0);
    assert!(
        close(f(IntersectionMixer::new(s(1.0)).mixval(s(0.0), s(0.0), &k)), 0.2928932188134524, 1e-15)
    );
    let d = SubtractionMixer::new(s(0.5));
    assert_eq!(f(d.mixval(s(1.0), s(2.0), &k)), 1.0);
    assert_eq!(f(d.mixval(s(1.0), s(-2.0), &k)), 2.0);
    assert_eq!(f(d.mixval(s(-1.0), s(-3.0), &k)), 3.0);
    assert!(
        close(f(SubtractionMixer::new(s(1.0)).mixval(s(0.0), s(0.0), &k)), 0.2928932188134524, 1e-15)
    );
}

fn never() -> Vector {
    panic!("the normal of the other child was asked for")
}

#[test]
fn union_takes_the_normal_of_the_lower_child() {
    let m = UnionMixer::new(s(0.1));
    let n = m.mixnormal(s(1.0), s(2.0), || vc(1.0, 0.0, 0.0), never);
    assert_eq!(comps(n), [1.0, 0.0, 0.0]);
    let n = m.mixnormal(s(2.0), s(1.0), never, || vc(0.0, 1.0, 0.0));
    assert_eq!(comps(n), [0.0, 1.0, 0.0]);
    let n = m.mixnormal(s(1.0), s(1.0), never, || vc(0.0, 0.0, 1.0));
    assert_eq!(comps(n), [0.0, 0.0, 1.0]);
}

#[test]
fn intersection_takes_the_normal_of_the_higher_child() {
    let m = IntersectionMixer::new(s(0.1));
    let n = m.mixnormal(s(2.0), s(1.0), || vc(1.0, 0.0, 0.0), never);
    assert_eq!(comps(n), [1.0, 0.0, 0.0]);
    let n = m.mixnormal(s(1.0), s(2.0), never, || vc(0.0, 1.0, 0.0));
    assert_eq!(comps(n), [0.0, 1.0, 0.0]);
    let n = m.mixnormal(s(1.0), s(1.0), never, || vc(0.0, 0.0, 1.0));
    assert_eq!(comps(n), [0.0, 0.0, 1.0]);
}

#[test]
fn subtraction_turns_the_normal_of_the_subtracted_child() {
    let m = SubtractionMixer::new(s(0.1));
    let n = m.mixnormal(s(1.0), s(0.5), || vc(1.0, 0.0, 0.0), never);
    assert_eq!(comps(n), [1.0, 0.0, 0.0]);
    let n = m.mixnormal(s(1.0), s(-2.0), never, || vc(0.0, 1.0, -0.5));
    assert_eq!(comps(n), [-0.0, -1.0, 0.5]);
    let n = m.mixnormal(s(1.0), s(-1.0), never, || vc(0.0, 0.0, 1.0));
    assert_eq!(comps(n), [0.0, 0.0, -1.0]);
}

#[test]
fn translating_shifts_the_field() {
    let plain = sphere(1.0);
    let mut moved = sphere(1.0);
    moved.translate(vc(1.5, -2.0, 0.25));
    for p in [[0.0, 0.0, 0.0], [1.5, -2.0, 0.25], [3.0, 1.0, -1.0], [-0.5, 0.5, 0.5]] {
        let here = value(&moved, p[0], p[1], p[2]);
        let there = value(&plain, p[0] - 1.5, p[1] + 2.0, p[2] - 0.25);
        assert_eq!(here, there);
        let n = normal(&moved, p[0], p[1], p[2]);
        let m = normal(&plain, p[0] - 1.5, p[1] + 2.0, p[2] - 0.25);
        for i in 0..3 {
            assert!(close(n[i], m[i], 1e-15) || (n[i].is_nan() && m[i].is_nan()));
        }
    }
    assert_eq!(value(&moved, 1.5, -2.0, 0.25), -1.0);
}

#[test]
fn translating_a_composite_shifts_the_field() {
    let mut a = sphere(1.0);
    a.translate(vc(1.0, 0.0, 0.0));
    let plain = Bool::<IntersectionMixer>::new(sphere(1.0), a, s(0.2)).into_object();
    let mut moved = plain.clone();
    moved.translate(vc(0.0, 3.0, 0.0));
    for p in [[0.5, 3.0, 0.0], [0.0, 0.0, 0.0], [0.5, 3.8, 0.1], [2.0, 2.0, 2.0]] {
        assert_eq!(value(&moved, p[0], p[1], p[2]), value(&plain, p[0], p[1] - 3.0, p[2]));
    }
}

#[test]
fn scaling_a_sphere_scales_its_surface() {
    let mut scaled = sphere(1.5);
    scaled.scale(s(2.0));
    let big = sphere(3.0);
    for p in [[3.0, 0.0, 0.0], [0.0, -3.0, 0.0], [0.0, 1.8, 2.4]] {
        assert!(close(value(&scaled, p[0], p[1], p[2]), 0.0, 1e-12));
        assert!(close(value(&big, p[0], p[1], p[2]), 0.0, 1e-12));
    }
    for p in [[0.0, 0.0, 0.0], [1.0, 1.0, 1.0], [2.9, 0.0, 0.0], [3.1, 0.0, 0.0], [4.0, 4.0, 0.0]] {
        let (x, y) = (value(&scaled, p[0], p[1], p[2]), value(&big, p[0], p[1], p[2]));
        assert_eq!(x < 0.0, y < 0.0);
        assert!(close(x * 2.0, y, 1e-12));
    }
    assert_eq!(value(&scaled, 4.0, 0.0, 0.0), 0.5);
    assert_eq!(normal(&scaled, 0.0, 5.0, 0.0), [0.0, 1.0, 0.0]);
}

#[test]
fn rotating_turns_the_field() {
    let mut o = sphere(1.0);
    o.translate(vc(2.0, 0.0, 0.0));
    o.rotate(vc(0.0, 0.0, std::f64::consts::FRAC_PI_2));
    assert!(close(value(&o, 0.0, 2.0, 0.0), -1.0, 1e-12));
    assert!(close(value(&o, 0.0, 3.0, 0.0), 0.0, 1e-12));
    assert!(close(value(&o, 2.0, 0.0, 0.0), 8f64.sqrt() - 1.0, 1e-12));
    let n = normal(&o, 0.0, 4.0, 0.0);
    assert!(close(n[0], 0.0, 1e-12) && close(n[1], 1.0, 1e-12) && close(n[2], 0.0, 1e-12));
}

#[test]
fn transforms_accumulate_in_the_order_applied() {
    let mut one = sphere(1.0);
    one.translate(vc(1.0, 0.0, 0.0));
    one.scale(s(2.0));
    let mut other = sphere(1.0);
    let t = Transform::translate(&vc(1.0, 0.0, 0.0)).concat(&Transform::scale(s(2.0)));
    other.apply_transform(&t);
    assert!(one.eq(&other));
    for p in [[2.0, 0.0, 0.0], [0.0, 0.0, 0.0], [4.0, 0.0, 0.0], [1.0, 1.0, 1.0]] {
        assert_eq!(value(&one, p[0], p[1], p[2]), value(&other, p[0], p[1], p[2]));
    }
    assert_eq!(value(&one, 2.0, 0.0, 0.0), -1.0);
    assert_eq!(value(&one, 4.0, 0.0, 0.0), 0.0);
    let mut swapped = sphere(1.0);
    swapped.scale(s(2.0));
    swapped.translate(vc(1.0, 0.0, 0.0));
    assert_eq!(value(&swapped, 1.0, 0.0, 0.0), -1.0);
    assert_eq!(value(&swapped, 3.0, 0.0, 0.0), 0.0);
}

#[test]
fn applying_the_identity_changes_nothing() {
    let mut o = sphere(1.0);
    o.translate(vc(0.5, 0.0, 0.0));
    let before = o.to_string();
    o.apply_transform(&Transform::identity());
    assert_eq!(o.to_string(), before);
    assert_eq!(value(&o, 0.5, 0.0, 0.0), -1.0);
}

fn two_spheres() -> Object {
    let mut b = sphere(1.0);
    b.translate(vc(1.5, 0.0, 0.0));
    Bool::<UnionMixer>::new(sphere(1.0), b, s(0.3)).into_object()
}

#[test]
fn union_of_two_spheres_end_to_end() {
    let u = two_spheres();
    assert!(close(value(&u, 0.0, 0.0, 0.0), -1.0, 1e-15));
    let a = sphere(1.0);
    let mut b = sphere(1.0);
    b.translate(vc(1.5, 0.0, 0.0));
    let mid = value(&u, 0.75, 0.0, 0.0);
    assert!(mid < value(&a, 0.75, 0.0, 0.0));
    assert!(mid < value(&b, 0.75, 0.0, 0.0));
    assert!(close(mid, -0.33786796564403573, 1e-15));
    assert_eq!(value(&u, 5.0, 0.0, 0.0), 2.5);
}

#[test]
fn composite_normal_outside_the_band_is_the_dominant_childs() {
    let u = two_spheres();
    let n = normal(&u, -2.0, 0.0, 0.0);
    assert_eq!(n, [-1.0, 0.0, 0.0]);
    let n = normal(&u, 1.5, 3.0, 0.0);
    assert_eq!(n, [0.0, 1.0, 0.0]);
}

#[test]
fn composite_normal_inside_the_band_is_estimated() {
    let u = two_spheres();
    let n = normal(&u, 0.75, 0.5, 0.0);
    assert!(close(n[0], 0.0, 1e-4) && close(n[1], 1.0, 1e-4) && close(n[2], 0.0, 1e-4));
    assert!(close((n[0] * n[0] + n[1] * n[1] + n[2] * n[2]).sqrt(), 1.0, 1e-12));
    let a = normal(&sphere(1.0), 0.75, 0.5, 0.0);
    assert!(!close(n[0], a[0], 1e-2));
}

#[test]
fn intersection_and_subtraction_end_to_end() {
    let mut b = sphere(1.0);
    b.translate(vc(1.5, 0.0, 0.0));
    let i = Bool::<IntersectionMixer>::new(sphere(1.0), b.clone(), s(0.3)).into_object();
    assert_eq!(value(&i, 0.0, 0.0, 0.0), 0.5);
    assert!(close(value(&i, 0.75, 0.0, 0.0), -0.25 + 0.3 * (1.0 - 0.5f64.sqrt()), 1e-15));
    assert_eq!(normal(&i, 0.0, 0.0, 0.0), [-1.0, 0.0, 0.0]);
    let d = Bool::<SubtractionMixer>::new(sphere(1.0), b, s(0.3)).into_object();
    assert_eq!(value(&d, -0.5, 0.0, 0.0), -0.5);
    assert_eq!(value(&d, 1.5, 0.0, 0.0), 1.0);
    assert_eq!(normal(&d, 1.25, 0.0, 0.0), [1.0, -0.0, -0.0]);
    assert_eq!(normal(&d, -3.0, 0.0, 0.0), [-1.0, 0.0, 0.0]);
}

#[test]
fn estimate_follows_the_gradient_of_the_samples() {
    let k = Binary64;
    let plane = |q: &Point| s(2.0 * f(q.x) - f(q.z));
    let n = comps(estimate_normal(&plane, &pt(0.3, 0.7, -0.2), &k));
    let l = 5f64.sqrt();
    assert!(close(n[0], 2.0 / l, 1e-5) && close(n[1], 0.0, 1e-5) && close(n[2], -1.0 / l, 1e-5));
}

#[test]
fn normal_from_implicit_approximates_the_analytic_normal() {
    let k = Binary64;
    let mut o = sphere(2.0);
    o.translate(vc(1.0, 1.0, 1.0));
    for p in [[3.0, 1.0, 1.0], [2.0, 3.0, 0.0], [-1.0, 0.5, 4.0]] {
        let e = comps(normal_from_implicit(&o, &pt(p[0], p[1], p[2]), &k));
        let n = normal(&o, p[0], p[1], p[2]);
        for i in 0..3 {
            assert!(close(e[i], n[i], 1e-4));
        }
    }
}

#[test]
fn clone_is_independent_of_its_source() {
    let source = two_spheres();
    let points = [[0.0, 0.0, 0.0], [0.75, 0.0, 0.0], [0.75, 0.5, 0.0], [3.0, -1.0, 2.0]];
    let values: Vec<f64> = points.iter().map(|p| value(&source, p[0], p[1], p[2])).collect();
    let normals: Vec<[f64; 3]> = points.iter().map(|p| normal(&source, p[0], p[1], p[2])).collect();
    let text = source.to_string();
    let mut copy = source.clone();
    assert!(copy.eq(&source));
    copy.translate(vc(10.0, 0.0, 0.0));
    copy.scale(s(3.0));
    copy.rotate(vc(0.1, 0.2, 0.3));
    assert!(!copy.eq(&source));
    assert_eq!(source.to_string(), text);
    for (i, p) in points.iter().enumerate() {
        assert_eq!(value(&source, p[0], p[1], p[2]).to_bits(), values[i].to_bits());
        let n = normal(&source, p[0], p[1], p[2]);
        for j in 0..3 {
            assert_eq!(n[j].to_bits(), normals[i][j].to_bits());
        }
    }
    assert_ne!(value(&copy, 0.0, 0.0, 0.0), values[0]);
}

#[test]
fn subtraction_of_many_equals_the_explicit_construction_pointwise() {
    let r = s(0.2);
    let make = |x: f64, radius: f64| {
        let mut o = sphere(radius);
        o.translate(vc(x, 0.0, 0.0));
        o
    };
    let list = vec![make(0.0, 2.0), make(1.5, 1.0), make(-1.5, 0.75)];
    let (a, b, c) = (list[0].clone(), list[1].clone(), list[2].clone());
    let folded = Bool::<SubtractionMixer>::subtraction_from_vec(list, r).unwrap();
    let union = Bool::<UnionMixer>::from_vec(vec![b, c], r).unwrap();
    let explicit = Bool::<SubtractionMixer>::new(a, union, r).into_object();
    for p in [[0.0, 0.0, 0.0], [1.0, 0.0, 0.0], [0.6, 0.1, 0.0], [-0.8, 0.0, 0.2], [0.0, 1.9, 0.0]] {
        let (x, y) = (value(&folded, p[0], p[1], p[2]), value(&explicit, p[0], p[1], p[2]));
        assert_eq!(x.to_bits(), y.to_bits());
        let (n, m) = (normal(&folded, p[0], p[1], p[2]), normal(&explicit, p[0], p[1], p[2]));
        for i in 0..3 {
            assert_eq!(n[i].to_bits(), m[i].to_bits());
        }
    }
    assert_eq!(value(&folded, 0.0, 0.0, 0.0), -0.5);
    assert_eq!(value(&folded, 0.0, 1.9, 0.0), value(&sphere(2.0), 0.0, 1.9, 0.0));
}

#[test]
fn single_element_folds_evaluate_as_the_element() {
    let mut a = sphere(1.0);
    a.translate(vc(0.5, 0.0, 0.0));
    let o = Bool::<UnionMixer>::from_vec(vec![a.clone()], s(10.0)).unwrap();
    for p in [[0.0, 0.0, 0.0], [0.5, 0.0, 0.0], [3.0, 1.0, 1.0]] {
        assert_eq!(value(&o, p[0], p[1], p[2]), value(&a, p[0], p[1], p[2]));
    }
}
