use couture_core::fixed::Fixed;
use couture_core::math::{
    add, cubic_spline_to_beziers, dichotomic_search, dot, lerp, norm, normalize, perp, scale, sub,
    BisectionError, Point2,
};

fn fx(v: f64) -> Fixed {
    Fixed::from_raw((v * 1e9).round() as i64)
}

fn val(v: Fixed) -> f64 {
    v.raw() as f64 / 1e9
}

fn pt(x: f64, y: f64) -> Point2 {
    Point2::new(fx(x), fx(y))
}

#[test]
fn test_add_sub() {
    let a = pt(1.0, 2.0);
    let b = pt(3.0, 4.0);
    assert_eq!(add(a, b), pt(4.0, 6.0));
    assert_eq!(sub(a, b), pt(-2.0, -2.0));
}

#[test]
fn test_norm_and_normalize() {
    let v = pt(3.0, 4.0);
    assert!((val(norm(v)) - 5.0).abs() < 1e-10);
    let n = normalize(v);
    assert!((val(n.x) - 0.6).abs() < 1e-10);
    assert!((val(n.y) - 0.8).abs() < 1e-10);
}

#[test]
fn test_dichotomic_search() {
    // Find root of x^2 - 4 in [0, 5] => x = 2
    let root = dichotomic_search(
        |x: Fixed| x.mul(x).sub(Fixed::from_int(4)),
        fx(0.0),
        fx(5.0),
        fx(1e-8),
    )
    .unwrap();
    assert!((val(root) - 2.0).abs() < 1e-6);
}

#[test]
fn test_cubic_spline_two_points() {
    let pts = [pt(0.0, 0.0), pt(3.0, 6.0)];
    let beziers = cubic_spline_to_beziers(&pts);
    assert_eq!(beziers.len(), 1);
    let (p0, _p1, _p2, p3) = beziers[0];
    assert!((val(p0.x)).abs() < 1e-10);
    assert!((val(p3.x) - 3.0).abs() < 1e-10);
}

#[test]
fn test_cubic_spline_three_points() {
    let pts = [pt(0.0, 0.0), pt(1.0, 1.0), pt(2.0, 0.0)];
    let beziers = cubic_spline_to_beziers(&pts);
    assert_eq!(beziers.len(), 2);
    // First segment starts at [0,0], second ends at [2,0]
    assert!((val(beziers[0].0.x)).abs() < 1e-10);
    assert!((val(beziers[1].3.x) - 2.0).abs() < 1e-10);
    assert!((val(beziers[1].3.y)).abs() < 1e-10);
}

#[test]
fn test_perp() {
    assert_eq!(perp(pt(1.0, 0.0)), pt(0.0, 1.0));
    assert_eq!(perp(pt(0.0, 1.0)), pt(-1.0, 0.0));
}

#[test]
fn test_scale_dot_lerp() {
    assert_eq!(scale(fx(2.5), pt(2.0, -4.0)), pt(5.0, -10.0));
    assert_eq!(dot(pt(1.0, 2.0), pt(3.0, 4.0)), fx(11.0));
    assert_eq!(lerp(pt(0.0, 0.0), pt(10.0, -20.0), fx(0.25)), pt(2.5, -5.0));
}

#[test]
fn test_normalize_zero_vector_is_zero() {
    assert_eq!(normalize(pt(0.0, 0.0)), pt(0.0, 0.0));
    // the shortest vector there is still has a direction
    let tiny = Point2::new(Fixed::from_raw(1), Fixed::from_raw(0));
    assert_eq!(normalize(tiny), pt(1.0, 0.0));
}

#[test]
fn test_norm_rounds_down() {
    // sqrt(2) = 1.41421356237...
    assert_eq!(norm(pt(1.0, 1.0)), Fixed::from_raw(1_414_213_562));
}

#[test]
fn test_dichotomic_search_refuses_interval_without_sign_change() {
    let r = dichotomic_search(
        |x: Fixed| x.mul(x).add(Fixed::from_int(1)),
        fx(0.0),
        fx(5.0),
        fx(1e-8),
    );
    assert_eq!(r, Err(BisectionError::NonBracketingInterval));
}

#[test]
fn test_dichotomic_search_keeps_an_exact_root() {
    // the first midpoint of [0, 4] is the root itself
    let root = dichotomic_search(
        |x: Fixed| x.mul(x).sub(Fixed::from_int(4)),
        fx(0.0),
        fx(4.0),
        fx(1e-6),
    )
    .unwrap();
    assert!((val(root) - 2.0).abs() <= 1e-6);
}

#[test]
fn test_dichotomic_search_falling_function() {
    let root = dichotomic_search(|x: Fixed| fx(3.0).sub(x), fx(0.0), fx(10.0), fx(1e-6)).unwrap();
    assert!((val(root) - 3.0).abs() <= 1e-6);
}

#[test]
fn test_cubic_spline_two_points_trisects_chord() {
    let pts = [pt(0.0, 0.0), pt(3.0, 6.0)];
    let beziers = cubic_spline_to_beziers(&pts);
    assert_eq!(beziers[0], (pt(0.0, 0.0), pt(1.0, 2.0), pt(2.0, 4.0), pt(3.0, 6.0)));
}

#[test]
fn test_cubic_spline_joints_are_the_points() {
    let pts = [pt(0.0, 0.0), pt(1.0, 1.0), pt(2.0, 0.0), pt(2.0, 0.0), pt(5.0, -3.5)];
    let beziers = cubic_spline_to_beziers(&pts);
    assert_eq!(beziers.len(), 4);
    for i in 0..4 {
        assert_eq!(beziers[i].0, pts[i]);
        assert_eq!(beziers[i].3, pts[i + 1]);
    }
}

#[test]
fn test_cubic_spline_three_points_control_points() {
    let pts = [pt(0.0, 0.0), pt(1.0, 1.0), pt(2.0, 0.0)];
    let beziers = cubic_spline_to_beziers(&pts);
    // natural spline through a symmetric hat: S''(1) = (0, -3)
    let expected = [
        (0.0, 0.0, 1.0 / 3.0, 0.5, 2.0 / 3.0, 1.0, 1.0, 1.0),
        (1.0, 1.0, 4.0 / 3.0, 1.0, 5.0 / 3.0, 0.5, 2.0, 0.0),
    ];
    for (seg, e) in beziers.iter().zip(expected.iter()) {
        assert!((val(seg.0.x) - e.0).abs() < 1e-7 && (val(seg.0.y) - e.1).abs() < 1e-7);
        assert!((val(seg.1.x) - e.2).abs() < 1e-7 && (val(seg.1.y) - e.3).abs() < 1e-7);
        assert!((val(seg.2.x) - e.4).abs() < 1e-7 && (val(seg.2.y) - e.5).abs() < 1e-7);
        assert!((val(seg.3.x) - e.6).abs() < 1e-7 && (val(seg.3.y) - e.7).abs() < 1e-7);
    }
}

fn close(p: Point2, x: f64, y: f64) -> bool {
    (val(p.x) - x).abs() < 1e-7 && (val(p.y) - y).abs() < 1e-7
}

#[test]
fn test_cubic_spline_five_points_control_points() {
    let pts = [pt(0.0, 0.0), pt(1.0, 2.0), pt(3.0, 3.0), pt(4.0, 1.0), pt(6.0, 0.0)];
    let beziers = cubic_spline_to_beziers(&pts);
    assert_eq!(beziers.len(), 4);
    assert!(close(beziers[0].1, 0.214285714, 0.678571429));
    assert!(close(beziers[0].2, 0.428571429, 1.357142857));
    assert!(close(beziers[1].1, 1.571428571, 2.642857143));
    assert!(close(beziers[1].2, 2.5, 3.25));
    assert!(close(beziers[2].1, 3.5, 2.75));
    assert!(close(beziers[2].2, 3.571428571, 1.642857143));
    assert!(close(beziers[3].1, 4.428571429, 0.357142857));
    assert!(close(beziers[3].2, 5.214285714, 0.178571429));
}

#[test]
fn test_cubic_spline_coincident_points_count_as_one_apart() {
    let pts = [pt(0.0, 0.0), pt(0.0, 0.0), pt(2.0, 1.0), pt(3.0, 3.0)];
    let beziers = cubic_spline_to_beziers(&pts);
    assert_eq!(beziers.len(), 3);
    assert_eq!(beziers[0].0, pts[0]);
    assert_eq!(beziers[0].3, pts[1]);
    assert!(close(beziers[0].1, -0.056723059, -0.018907686));
    assert!(close(beziers[0].2, -0.113446118, -0.037815373));
    assert!(close(beziers[1].1, 0.253673232, 0.084557744));
    assert!(close(beziers[1].2, 1.358192352, 0.452730784));
    assert!(close(beziers[2].1, 2.641807648, 1.547269216));
    assert!(close(beziers[2].2, 2.820903824, 2.273634608));
}

#[test]
fn test_dichotomic_search_root_lies_in_the_interval() {
    for (a, b) in [(0.0, 5.0), (1.5, 2.5), (2.0, 9.0), (-1.0, 2.0)] {
        let r = dichotomic_search(
            |x: Fixed| x.mul(x).sub(Fixed::from_int(4)),
            fx(a),
            fx(b),
            fx(1e-6),
        );
        match r {
            Ok(x) => {
                assert!(a <= val(x) && val(x) <= b);
                assert!((val(x) - 2.0).abs() <= 1e-6);
            }
            // a root at an end of the interval is no change of sign
            Err(e) => {
                assert_eq!(e, BisectionError::NonBracketingInterval);
                assert!(a == 2.0 || b == 2.0);
            }
        }
    }
}

#[test]
fn test_dichotomic_search_tolerance_below_the_resolution() {
    let root = dichotomic_search(
        |x: Fixed| x.sub(Fixed::from_raw(1_234_567_891)),
        fx(0.0),
        fx(5.0),
        Fixed::from_raw(0),
    )
    .unwrap();
    assert!((root.raw() - 1_234_567_891).abs() <= 1);
    let same = dichotomic_search(
        |x: Fixed| x.sub(Fixed::from_raw(1_234_567_891)),
        fx(0.0),
        fx(5.0),
        Fixed::from_raw(-7),
    )
    .unwrap();
    assert_eq!(same, root);
}

#[test]
fn test_dichotomic_search_inverted_interval() {
    // nothing lies between 5 and 0 in that order: the middle is returned
    let r = dichotomic_search(
        |x: Fixed| x.mul(x).sub(Fixed::from_int(4)),
        fx(5.0),
        fx(0.0),
        fx(1e-6),
    );
    assert_eq!(r, Ok(fx(2.5)));
}

#[test]
fn test_normalize_gives_unit_length() {
    for (x, y) in [(3.0, 4.0), (1.0, 1.0), (-23.5, 20.493901531), (0.0, -1.0), (1e6, 1.0), (0.6, -0.8)]
    {
        let n = norm(normalize(pt(x, y))).raw();
        assert!((n - 1_000_000_000).abs() <= 2);
    }
}

#[test]
fn test_normalize_short_vectors() {
    let raw = |x: i64, y: i64| Point2::new(Fixed::from_raw(x), Fixed::from_raw(y));
    // one unit along each axis: the diagonal
    assert_eq!(normalize(raw(1, 1)), raw(707_106_781, 707_106_781));
    assert_eq!(normalize(raw(-3, 4)), raw(-600_000_000, 800_000_000));
    assert_eq!(normalize(raw(0, -1)), raw(0, -1_000_000_000));
    assert_eq!(normalize(raw(2_147_483_647, 0)), raw(1_000_000_000, 0));
    assert_eq!(normalize(raw(2_147_483_648, 0)), raw(1_000_000_000, 0));
    for (x, y) in [(1, 1), (1, 2), (-7, 3), (1000, -1), (2_147_483_647, 2_147_483_647)] {
        let n = norm(normalize(raw(x, y))).raw();
        assert!((n - 1_000_000_000).abs() <= 2);
    }
}

#[test]
fn test_normalize_longest_vectors() {
    let raw = |x: i64, y: i64| Point2::new(Fixed::from_raw(x), Fixed::from_raw(y));
    assert_eq!(normalize(raw(i64::MIN, i64::MIN)), raw(-707_106_781, -707_106_781));
    assert_eq!(normalize(raw(i64::MAX, 0)), raw(1_000_000_000, 0));
    assert_eq!(normalize(raw(i64::MAX, i64::MIN)), raw(707_106_781, -707_106_781));
}

#[test]
fn test_bisection_error_message() {
    assert_eq!(
        BisectionError::NonBracketingInterval.message(),
        "Non-bracketing interval: the function does not change sign between its ends."
    );
}

#[test]
fn test_cubic_spline_derivatives_meet_at_inner_points() {
    let pts = vec![pt(0.0, 0.0), pt(10.0, 5.0), pt(20.0, -3.0), pt(35.0, 8.0), pt(36.5, 30.0)];
    let beziers = cubic_spline_to_beziers(&pts);
    assert_eq!(beziers.len(), 4);
    let unit: i128 = 1_000_000_000;
    for k in 1..4 {
        let before = beziers[k - 1];
        let after = beziers[k];
        let ha = norm(sub(pts[k], pts[k - 1])).raw as i128;
        let hb = norm(sub(pts[k + 1], pts[k])).raw as i128;
        let pairs = [
            (before.1.x, before.2.x, before.3.x, after.0.x, after.1.x, after.2.x),
            (before.1.y, before.2.y, before.3.y, after.0.y, after.1.y, after.2.y),
        ];
        for (a1, a2, a3, b0, b1, b2) in pairs {
            let (a1, a2, a3) = (a1.raw as i128, a2.raw as i128, a3.raw as i128);
            let (b0, b1, b2) = (b0.raw as i128, b1.raw as i128, b2.raw as i128);
            let slope_gap = 3 * (a3 - a2) * hb - 3 * (b1 - b0) * ha;
            assert!((unit * slope_gap).abs() <= 2470 * ha * hb);
            // in this example the two slopes agree to a few units
            assert!((unit * slope_gap).abs() <= 20 * ha * hb);
            // the second derivatives, in raw units per unit of chord length squared
            let bend_before = (6 * (a1 - 2 * a2 + a3) * unit) as f64 * 1e9 / (ha * ha) as f64;
            let bend_after = (6 * (b0 - 2 * b1 + b2) * unit) as f64 * 1e9 / (hb * hb) as f64;
            assert!((bend_before - bend_after).abs() <= 10494.0);
            assert!((bend_before - bend_after).abs() <= 5.0);
        }
    }
}
