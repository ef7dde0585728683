use couture_core::fixed::Fixed;
use couture_core::math::Point2;
use couture_core::patterns::stretch::{extent, shrink, StretchBase};

fn fx(v: f64) -> Fixed {
    Fixed::from_raw((v * 1e9).round() as i64)
}

fn base() -> StretchBase {
    let mut b = StretchBase::new();
    b.points.insert("A", Point2::new(fx(-23.5), fx(-22.0)));
    b.points.insert("H", Point2::new(fx(-6.828682314), fx(43.0)));
    b.points.insert("B", Point2::new(fx(0.0), fx(0.0)));
    b.helper_points.insert("K1", Point2::new(fx(-15.21330598), fx(30.71529701)));
    b.helper_points.insert("X", Point2::new(fx(100.0), fx(-0.000000001)));
    b
}

/// A raw count divided by one and the product of capacity and usage,
/// rounded once to the nearest unit, ties away from zero.
fn shrunk(raw: i64, capacity: i64, usage: i64) -> i64 {
    let unit: i128 = 1_000_000_000_000_000_000;
    let d = unit + capacity as i128 * usage as i128;
    let n = raw as i128 * unit;
    let q = (2 * n.abs() + d) / (2 * d);
    (if n < 0 { -q } else { q }) as i64
}

#[test]
fn test_stretch_base_starts_empty() {
    let b = StretchBase::new();
    assert!(!b.stretched);
    assert_eq!(b.h_factor, Fixed::one());
    assert_eq!(b.v_factor, Fixed::one());
    assert_eq!(b.points.len(), 0);
    assert_eq!(b.helper_points.len(), 0);
}

#[test]
fn test_stretch_factors() {
    let mut b = base();
    assert_eq!(b.stretch(fx(0.3), fx(0.1), fx(0.5)), Ok(()));
    assert!(b.stretched);
    // 1 / (1 + 0.15) and 1 / (1 + 0.05)
    assert_eq!(b.h_factor, Fixed::from_raw(869_565_217));
    assert_eq!(b.v_factor, Fixed::from_raw(952_380_952));
}

#[test]
fn test_stretch_multiplies_every_point_of_both_collections() {
    let before = base();
    let mut b = base();
    b.stretch(fx(0.3), fx(0.1), fx(0.5)).unwrap();
    assert_eq!(b.points.len(), before.points.len());
    assert_eq!(b.helper_points.len(), before.helper_points.len());
    for (now, then) in [(&b.points, &before.points), (&b.helper_points, &before.helper_points)] {
        for i in 0..then.len() {
            assert_eq!(now.label_at(i), then.label_at(i));
            let p = then.value_at(i);
            let q = now.value_at(i);
            assert_eq!(q.x.raw(), shrunk(p.x.raw(), 300_000_000, 500_000_000));
            assert_eq!(q.y.raw(), shrunk(p.y.raw(), 100_000_000, 500_000_000));
            let x = p.x.raw() as f64 / 1e9 / 1.15;
            let y = p.y.raw() as f64 / 1e9 / 1.05;
            assert!((q.x.raw() as f64 / 1e9 - x).abs() < 1e-9);
            assert!((q.y.raw() as f64 / 1e9 - y).abs() < 1e-9);
        }
    }
    assert_eq!(b.points.get("A"), Some(Point2::new(fx(-20.434782609), fx(-20.952380952))));
}

#[test]
fn test_second_stretch_fails_and_changes_nothing() {
    let mut b = base();
    b.stretch(fx(0.3), fx(0.1), fx(0.5)).unwrap();
    let points: Vec<Point2> = (0..b.points.len()).map(|i| b.points.value_at(i)).collect();
    let helpers: Vec<Point2> =
        (0..b.helper_points.len()).map(|i| b.helper_points.value_at(i)).collect();
    let (h, v) = (b.h_factor, b.v_factor);
    for (hh, vv, uu) in [(0.1, 0.1, 1.0), (0.0, 0.0, 0.0), (0.3, 0.1, 0.5), (5.0, -3.0, 2.0)] {
        let r = b.stretch(fx(hh), fx(vv), fx(uu));
        assert_eq!(r, Err("Cannot stretch a pattern that is already stretched.".to_string()));
        assert!(b.stretched);
        assert_eq!((b.h_factor, b.v_factor), (h, v));
        for i in 0..points.len() {
            assert_eq!(b.points.value_at(i), points[i]);
        }
        for i in 0..helpers.len() {
            assert_eq!(b.helper_points.value_at(i), helpers[i]);
        }
    }
}

#[test]
fn test_stretch_without_capacity_changes_no_point() {
    let before = base();
    let mut b = base();
    b.stretch(fx(0.0), fx(0.0), fx(1.0)).unwrap();
    assert!(b.stretched);
    for i in 0..before.points.len() {
        assert_eq!(b.points.value_at(i), before.points.value_at(i));
    }
}

#[test]
fn test_extent() {
    let b = base();
    assert_eq!(extent(&b.points), (fx(-23.5), fx(0.0), fx(-22.0), fx(43.0)));
    assert_eq!(
        extent(&StretchBase::new().points),
        (
            Fixed::from_raw(i64::MAX),
            Fixed::from_raw(i64::MIN),
            Fixed::from_raw(i64::MAX),
            Fixed::from_raw(i64::MIN)
        )
    );
}

#[test]
fn test_stretch_gives_the_exact_quotients() {
    let mut b = StretchBase::new();
    b.points.insert("A", Point2::new(fx(2.3), fx(4.2)));
    b.helper_points.insert("G", Point2::new(fx(-1.15), fx(1.05)));
    assert_eq!(b.stretch(fx(0.3), fx(0.1), fx(0.5)), Ok(()));
    assert!(b.stretched);
    // 2.3 / 1.15 and 4.2 / 1.05, -1.15 / 1.15 and 1.05 / 1.05
    assert_eq!(b.points.get("A"), Some(Point2::new(fx(2.0), fx(4.0))));
    assert_eq!(b.helper_points.get("G"), Some(Point2::new(fx(-1.0), fx(1.0))));
}

#[test]
fn test_shrink_rounds_once() {
    assert_eq!(shrink(fx(2.3), fx(0.3), fx(0.5)), fx(2.0));
    assert_eq!(shrink(fx(1.0), fx(2.0), fx(1.0)), Fixed::from_raw(333_333_333));
    assert_eq!(shrink(fx(-2.0), fx(2.0), fx(1.0)), Fixed::from_raw(-666_666_667));
    assert_eq!(shrink(fx(7.5), fx(0.0), fx(1.0)), fx(7.5));
    // a capacity used in reverse: the divisor is 1 - 0.5
    assert_eq!(shrink(fx(1.0), fx(-1.0), fx(0.5)), fx(2.0));
    // the divisor is zero, then negative
    assert_eq!(shrink(fx(1.0), fx(-1.0), fx(1.0)), Fixed::from_raw(i64::MAX));
    assert_eq!(shrink(fx(-1.0), fx(-1.0), fx(1.0)), Fixed::from_raw(i64::MIN));
    assert_eq!(shrink(fx(0.0), fx(-1.0), fx(1.0)), fx(0.0));
    assert_eq!(shrink(fx(1.0), fx(-3.0), fx(1.0)), fx(-0.5));
}
