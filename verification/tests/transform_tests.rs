use std::f64::consts::PI;

use svglite::transform::{HPoint, Scalar, Transform, viewbox_matrix};

#[test]
fn test_test() {
    let y: f64 = -10.;
    let x: f64 = 0.;
    assert_eq!(y.atan2(x), -PI / 2.);
}

fn s(n: i64) -> Scalar {
    Scalar::from_int(n)
}

fn sd(n: i64, d: i64) -> Scalar {
    Scalar::new(n, d)
}

fn tf(a: i64, b: i64, c: i64, d: i64, e: i64, f: i64, den: i64) -> Transform {
    Transform { a, b, c, d, e, f, den }
}

/// Two homogeneous points denote the same plane point.
fn same_point(p: HPoint, q: HPoint) -> bool {
    (p.x as i128) * (q.w as i128) == (q.x as i128) * (p.w as i128)
        && (p.y as i128) * (q.w as i128) == (q.y as i128) * (p.w as i128)
}

#[test]
fn compose_apply_matches() {
    // compose(A, B) applied to p equals A applied to (B applied to p)
    let a = tf(2, 1, -3, 4, 5, -6, 2);
    let b = tf(7, 0, 2, -5, 1, 9, 3);
    let p = HPoint { x: 11, y: -4, w: 5 };
    let ab = a.compose(&b).unwrap();
    let lhs = ab.apply(&p).unwrap();
    let inner = b.apply(&p).unwrap();
    let rhs = a.apply(&inner).unwrap();
    assert!(same_point(lhs, rhs));
}

#[test]
fn compose_overflow_reports_none() {
    let a = tf(i64::MAX, 0, 0, i64::MAX, 0, 0, 1);
    let b = tf(3, 0, 0, 3, 0, 0, 1);
    assert!(a.compose(&b).is_none());
}

#[test]
fn viewbox_concrete_mapping() {
    // viewBox origin (10,10), size 100x100, target 200x50:
    // (10,10) -> (0,0) and (110,110) -> (200,50)
    let t = viewbox_matrix(s(10), s(10), s(100), s(100), 200, 50).unwrap();
    let origin = t.apply(&HPoint::from_ints(10, 10)).unwrap();
    assert!(same_point(origin, HPoint::from_ints(0, 0)));
    let corner = t.apply(&HPoint::from_ints(110, 110)).unwrap();
    assert!(same_point(corner, HPoint { x: 200, y: 50, w: 1 }));
}

#[test]
fn viewbox_fractional_origin() {
    // a fractional viewbox origin still lands on device zero
    let t = viewbox_matrix(sd(5, 2), sd(-7, 3), s(50), s(25), 100, 100).unwrap();
    let p = HPoint::from_scalars(sd(5, 2), sd(-7, 3)).unwrap();
    let origin = t.apply(&p).unwrap();
    assert!(same_point(origin, HPoint::from_ints(0, 0)));
}

#[test]
fn scalar_division_is_exact() {
    let q = sd(3, 4).checked_div(sd(-2, 5)).unwrap();
    // 3/4 divided by -2/5 is -15/8
    assert_eq!((q.num as i128) * 8, -15i128 * (q.den as i128));
    assert!(q.den >= 1);
    assert!(sd(1, 2).checked_div(s(0)).is_none());
}
