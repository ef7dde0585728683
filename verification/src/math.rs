//! Plane vectors, a bisection root finder and spline fitting.

use crate::fixed::{
    floor_sqrt, isqrt_wide, lemma_floor_sqrt_exists, lemma_floor_sqrt_is, lemma_product_bound,
    lemma_round_div_nearest, lemma_round_div_sign, lemma_square_bound, magnitude, round_div,
    round_div_wide, Fixed, SCALE,
};
use vstd::prelude::*;

verus! {

/// A point or vector of the plane, in centimetres.
#[derive(Clone, Copy, Debug, PartialEq, Eq, Structural)]
pub struct Point2 {
    pub x: Fixed,
    pub y: Fixed,
}

/// One cubic Bezier arc: start, two control points, end.
pub type BezierSegment = (Point2, Point2, Point2, Point2);

impl Point2 {
    /// The point with the coordinates `x` and `y`.
    pub open spec fn spec_new(x: Fixed, y: Fixed) -> Point2 {
        Point2 { x, y }
    }

    /// The point with the coordinates `x` and `y`.
    #[verifier::when_used_as_spec(spec_new)]
    pub fn new(x: Fixed, y: Fixed) -> (p: Point2)
        ensures
            p == Point2::spec_new(x, y),
    {
        Point2 { x, y }
    }

    /// The origin, which is also the zero vector.
    pub open spec fn spec_origin() -> Point2 {
        Point2 { x: Fixed::zero(), y: Fixed::zero() }
    }

    /// The origin, which is also the zero vector.
    #[verifier::when_used_as_spec(spec_origin)]
    pub fn origin() -> (p: Point2)
        ensures
            p == Point2::spec_origin(),
    {
        Point2 { x: Fixed::zero(), y: Fixed::zero() }
    }
}

/// The sum of two vectors, component by component.
pub open spec fn add_spec(a: Point2, b: Point2) -> Point2 {
    Point2 { x: a.x.add(b.x), y: a.y.add(b.y) }
}

/// The difference `a - b`, component by component.
pub open spec fn sub_spec(a: Point2, b: Point2) -> Point2 {
    Point2 { x: a.x.sub(b.x), y: a.y.sub(b.y) }
}

/// The vector `p` stretched by the factor `s`.
pub open spec fn scale_spec(s: Fixed, p: Point2) -> Point2 {
    Point2 { x: s.mul(p.x), y: s.mul(p.y) }
}

/// The Euclidean length, rounded down to the resolution: the root is taken
/// of the exact sum of squares.
pub open spec fn norm_spec(v: Point2) -> Fixed {
    Fixed::of(floor_sqrt(v.x@ * v.x@ + v.y@ * v.y@))
}

/// The scalar product `a.x * b.x + a.y * b.y`, each product rounded.
pub open spec fn dot_spec(a: Point2, b: Point2) -> Fixed {
    a.x.mul(b.x).add(a.y.mul(b.y))
}

/// Coordinates below this size, 2^31 units, make a vector short.
pub const SHORT: i64 = 0x8000_0000;

/// The factor by which a short vector is enlarged, 2^32.
pub const ZOOM: i64 = 0x1_0000_0000;

/// The factor by which a vector is enlarged before its length divides it:
/// a vector with both coordinates below 2^31 units in size by 2^32, any
/// other not at all. The length that divides has then at least as many
/// digits as the unit vector is written with, however short the vector.
pub open spec fn zoom(v: Point2) -> int {
    if -SHORT < v.x@ < SHORT && -SHORT < v.y@ < SHORT {
        ZOOM as int
    } else {
        1
    }
}

/// The length of the enlarged vector, rounded down.
pub open spec fn zoomed_length(v: Point2) -> int {
    floor_sqrt(v.x@ * zoom(v) * (v.x@ * zoom(v)) + v.y@ * zoom(v) * (v.y@ * zoom(v)))
}

/// The unit vector along `v`: each coordinate divided by the length, with
/// one rounding. Only the zero vector has no direction and stays zero.
pub open spec fn normalize_spec(v: Point2) -> Point2 {
    if v.x@ == 0 && v.y@ == 0 {
        Point2::origin()
    } else {
        Point2 {
            x: Fixed::of(round_div(v.x@ * zoom(v) * SCALE, zoomed_length(v))),
            y: Fixed::of(round_div(v.y@ * zoom(v) * SCALE, zoomed_length(v))),
        }
    }
}

/// A quarter turn counter-clockwise.
pub open spec fn perp_spec(v: Point2) -> Point2 {
    Point2 { x: v.y.neg(), y: v.x }
}

/// The point `a + t * (b - a)`: `a` for `t = 0`, `b` for `t = 1`.
pub open spec fn lerp_spec(a: Point2, b: Point2, t: Fixed) -> Point2 {
    Point2 { x: a.x.add(t.mul(b.x.sub(a.x))), y: a.y.add(t.mul(b.y.sub(a.y))) }
}

/// Component-wise sum.
#[verifier::when_used_as_spec(add_spec)]
pub fn add(a: Point2, b: Point2) -> (r: Point2)
    ensures
        r == add_spec(a, b),
{
    Point2 { x: a.x.add(b.x), y: a.y.add(b.y) }
}

/// Component-wise difference `a - b`.
#[verifier::when_used_as_spec(sub_spec)]
pub fn sub(a: Point2, b: Point2) -> (r: Point2)
    ensures
        r == sub_spec(a, b),
{
    Point2 { x: a.x.sub(b.x), y: a.y.sub(b.y) }
}

/// The vector `p` stretched by the factor `s`.
#[verifier::when_used_as_spec(scale_spec)]
pub fn scale(s: Fixed, p: Point2) -> (r: Point2)
    ensures
        r == scale_spec(s, p),
{
    Point2 { x: s.mul(p.x), y: s.mul(p.y) }
}

/// Euclidean length.
#[verifier::when_used_as_spec(norm_spec)]
pub fn norm(v: Point2) -> (r: Fixed)
    ensures
        r == norm_spec(v),
{
    let ax: u128 = magnitude(v.x);
    let ay: u128 = magnitude(v.y);
    proof {
        lemma_square_bound(ax as int);
        lemma_square_bound(ay as int);
        assert(ax * ax == v.x@ * v.x@) by (nonlinear_arith)
            requires
                ax == v.x@ || ax == -v.x@,
        ;
        assert(ay * ay == v.y@ * v.y@) by (nonlinear_arith)
            requires
                ay == v.y@ || ay == -v.y@,
        ;
    }
    let n: u128 = ax * ax + ay * ay;
    let k = isqrt_wide(n);
    proof {
        lemma_floor_sqrt_is(n as int, k as int);
    }
    if k > i64::MAX as u128 {
        Fixed { raw: i64::MAX }
    } else {
        Fixed { raw: k as i64 }
    }
}

/// Scalar product.
#[verifier::when_used_as_spec(dot_spec)]
pub fn dot(a: Point2, b: Point2) -> (r: Fixed)
    ensures
        r == dot_spec(a, b),
{
    a.x.mul(b.x).add(a.y.mul(b.y))
}

/// The unit vector along `v`, or the zero vector where `v` is the zero
/// vector. Every other vector, however short, has a length that does not
/// vanish, and its unit vector has the length one to within two units of
/// the resolution (see [`lemma_normalize_unit`]).
#[verifier::when_used_as_spec(normalize_spec)]
pub fn normalize(v: Point2) -> (r: Point2)
    ensures
        r == normalize_spec(v),
{
    let ax: u128 = magnitude(v.x);
    let ay: u128 = magnitude(v.y);
    if ax == 0 && ay == 0 {
        return Point2::origin();
    }
    let short = ax < SHORT as u128 && ay < SHORT as u128;
    let (zx, zy, wx, wy): (u128, u128, i128, i128) = if short {
        (
            ax * 0x1_0000_0000,
            ay * 0x1_0000_0000,
            v.x.raw as i128 * 0x1_0000_0000,
            v.y.raw as i128 * 0x1_0000_0000,
        )
    } else {
        (ax, ay, v.x.raw as i128, v.y.raw as i128)
    };
    proof {
        assert(zoom(v) == if short {
            0x1_0000_0000int
        } else {
            1int
        });
        assert(wx == v.x@ * zoom(v) && wy == v.y@ * zoom(v)) by (nonlinear_arith)
            requires
                zoom(v) == 1 || zoom(v) == 0x1_0000_0000,
                zoom(v) == 1 ==> wx == v.x@ && wy == v.y@,
                zoom(v) == 0x1_0000_0000 ==> wx == v.x@ * 0x1_0000_0000 && wy == v.y@
                    * 0x1_0000_0000,
        ;
        assert(zx == wx || zx == -wx);
        assert(zy == wy || zy == -wy);
        lemma_square_bound(zx as int);
        lemma_square_bound(zy as int);
        assert(zx * zx == wx * wx) by (nonlinear_arith)
            requires
                zx == wx || zx == -wx,
        ;
        assert(zy * zy == wy * wy) by (nonlinear_arith)
            requires
                zy == wy || zy == -wy,
        ;
        assert(zx * zx + zy * zy >= 1) by (nonlinear_arith)
            requires
                zx >= 1 || zy >= 1,
                zx >= 0,
                zy >= 0,
        ;
    }
    let m: u128 = zx * zx + zy * zy;
    let n = isqrt_wide(m);
    proof {
        lemma_floor_sqrt_is(m as int, n as int);
        assert(n >= 1) by (nonlinear_arith)
            requires
                m < (n + 1) * (n + 1),
                m >= 1,
                n >= 0,
        ;
        lemma_product_bound(wx as int, SCALE as int);
        lemma_product_bound(wy as int, SCALE as int);
    }
    let x = round_div_wide(wx * SCALE as i128, n);
    let y = round_div_wide(wy * SCALE as i128, n);
    Point2 { x: Fixed::from_wide(x), y: Fixed::from_wide(y) }
}

/// The vector turned a quarter turn counter-clockwise: `(x, y)` to `(-y, x)`.
#[verifier::when_used_as_spec(perp_spec)]
pub fn perp(v: Point2) -> (r: Point2)
    ensures
        r == perp_spec(v),
{
    Point2 { x: v.y.neg(), y: v.x }
}

/// The point `a + t * (b - a)`.
#[verifier::when_used_as_spec(lerp_spec)]
pub fn lerp(a: Point2, b: Point2, t: Fixed) -> (r: Point2)
    ensures
        r == lerp_spec(a, b, t),
{
    Point2 { x: a.x.add(t.mul(b.x.sub(a.x))), y: a.y.add(t.mul(b.y.sub(a.y))) }
}

/// The size of an integer.
pub open spec fn size(v: int) -> int {
    if v < 0 {
        -v
    } else {
        v
    }
}

/// A normalized vector lies along the vector: for every vector but the
/// zero vector, the cross product of its unit vector with it is no more
/// than half the sum of the sizes of its coordinates, which is what the
/// rounding of the two coordinates of the unit vector allows.
#[verifier::rlimit(50)]
pub proof fn lemma_normalize_parallel(v: Point2)
    requires
        v.x@ != 0 || v.y@ != 0,
    ensures
        -(size(v.x@) + size(v.y@)) <= 2 * (normalize_spec(v).x@ * v.y@ - normalize_spec(v).y@
            * v.x@) <= size(v.x@) + size(v.y@),
{
    let s = SCALE as int;
    lemma_normalize_unit(v);
    let k = zoom(v);
    let x = v.x@ * k;
    let y = v.y@ * k;
    let m = x * x + y * y;
    assert(m >= 1) by (nonlinear_arith)
        requires
            m == x * x + y * y,
            x == v.x@ * k,
            y == v.y@ * k,
            k >= 1,
            v.x@ != 0 || v.y@ != 0,
    ;
    lemma_floor_sqrt_exists(m);
    let n = floor_sqrt(m);
    assert(n >= 1) by (nonlinear_arith)
        requires
            0 <= n,
            m < (n + 1) * (n + 1),
            m >= 1,
    ;
    let a = round_div(x * s, n);
    let b = round_div(y * s, n);
    lemma_round_div_nearest(x * s, n);
    lemma_round_div_nearest(y * s, n);
    let u = normalize_spec(v);
    assert(u.x@ == a && u.y@ == b);
    let e1 = a * n - x * s;
    let e2 = b * n - y * s;
    let cross = a * v.y@ - b * v.x@;
    let vx = v.x@;
    let vy = v.y@;
    let ks = k * s;
    let an = a * n;
    let bn = b * n;
    assert(x * s == vx * ks && y * s == vy * ks) by (nonlinear_arith)
        requires
            x == vx * k,
            y == vy * k,
            ks == k * s,
    ;
    assert((a * vy) * n == an * vy && (b * vx) * n == bn * vx) by (nonlinear_arith)
        requires
            an == a * n,
            bn == b * n,
    ;
    assert(an * vy == (vx * ks) * vy + e1 * vy) by (nonlinear_arith)
        requires
            an == vx * ks + e1,
    ;
    assert(bn * vx == (vy * ks) * vx + e2 * vx) by (nonlinear_arith)
        requires
            bn == vy * ks + e2,
    ;
    assert((vx * ks) * vy == (vy * ks) * vx) by (nonlinear_arith);
    assert(cross * n == (a * vy) * n - (b * vx) * n) by (nonlinear_arith)
        requires
            cross == a * vy - b * vx,
    ;
    assert(cross * n == e1 * vy - e2 * vx);
    let g = size(v.x@) + size(v.y@);
    assert(-(n * g) <= 2 * (e1 * v.y@ - e2 * v.x@) <= n * g) by (nonlinear_arith)
        requires
            -n <= 2 * e1 <= n,
            -n <= 2 * e2 <= n,
            g == size(v.x@) + size(v.y@),
            -size(v.x@) <= v.x@ <= size(v.x@),
            -size(v.y@) <= v.y@ <= size(v.y@),
    ;
    assert(-g <= 2 * cross <= g) by (nonlinear_arith)
        requires
            -(n * g) <= 2 * (cross * n) <= n * g,
            n >= 1,
    ;
}

/// The square of the length of a vector that is one long to within two
/// units lies between the squares of one less two and one and three units.
pub proof fn lemma_unit_square(v: Point2)
    requires
        SCALE - 2 <= norm_spec(v)@ <= SCALE + 2,
    ensures
        999_999_998 * 999_999_998 <= v.x@ * v.x@ + v.y@ * v.y@ < 1_000_000_003 * 1_000_000_003,
{
    let n = v.x@ * v.x@ + v.y@ * v.y@;
    assert(n >= 0) by (nonlinear_arith)
        requires
            n == v.x@ * v.x@ + v.y@ * v.y@,
    ;
    lemma_floor_sqrt_exists(n);
    let k = floor_sqrt(n);
    if k > 9_223_372_036_854_775_807 {
        assert(norm_spec(v)@ == 9_223_372_036_854_775_807);
    }
    assert(999_999_998 <= k <= 1_000_000_002);
    assert(999_999_998 * 999_999_998 <= n < 1_000_000_003 * 1_000_000_003) by (nonlinear_arith)
        requires
            k * k <= n,
            n < (k + 1) * (k + 1),
            999_999_998 <= k <= 1_000_000_002,
    ;
}

/// A step of a given length along a unit vector, each coordinate rounded
/// once. For a vector `o` of the length one to within two units and a
/// length `depth` between one and two hundred: the step is as long as
/// `depth`, less two and more three parts in a thousand million and a unit
/// at most, and its scalar product with any vector `(wx, wy)` is `depth`
/// times that of `o`, to within half the sum of the sizes of `wx` and
/// `wy`.
#[verifier::rlimit(50)]
pub proof fn lemma_unit_step(o: Point2, depth: Fixed, wx: int, wy: int)
    requires
        -SCALE - 1 <= o.x@ <= SCALE + 1,
        -SCALE - 1 <= o.y@ <= SCALE + 1,
        999_999_998 * 999_999_998 <= o.x@ * o.x@ + o.y@ * o.y@ < 1_000_000_003 * 1_000_000_003,
        SCALE <= depth@ <= 200 * SCALE,
    ensures
        ({
            let s = SCALE as int;
            let v = scale_spec(depth, o);
            let g = size(wx) + size(wy);
            let low = depth@ * (s - 2) - (s + 4);
            let high = depth@ * (s + 3) + s;
            &&& -201 * s <= v.x@ <= 201 * s
            &&& -201 * s <= v.y@ <= 201 * s
            &&& -(s * g) <= 2 * (s * (v.x@ * wx + v.y@ * wy) - depth@ * (o.x@ * wx + o.y@ * wy))
                <= s * g
            &&& 0 <= low
            &&& low * low <= s * s * (v.x@ * v.x@ + v.y@ * v.y@) <= high * high
        }),
{
    let s: int = 1_000_000_000;
    assert(SCALE == s);
    let d = depth@;
    let ox = o.x@;
    let oy = o.y@;
    crate::fixed::lemma_mul_nearest(depth, o.x, 200_000_000_000, 1_000_000_001);
    crate::fixed::lemma_mul_nearest(depth, o.y, 200_000_000_000, 1_000_000_001);
    let vx = depth.mul(o.x)@;
    let vy = depth.mul(o.y)@;
    let ex = vx * s - d * ox;
    let ey = vy * s - d * oy;
    assert(-s <= 2 * ex <= s && -s <= 2 * ey <= s);
    let sx = s * vx;
    let sy = s * vy;
    assert(sx == d * ox + ex && sy == d * oy + ey);
    // the scalar product
    let vw = vx * wx + vy * wy;
    let ew = ex * wx + ey * wy;
    let ow = ox * wx + oy * wy;
    let dow = d * ow;
    assert(sx * wx == d * (ox * wx) + ex * wx && sy * wy == d * (oy * wy) + ey * wy)
        by (nonlinear_arith)
        requires
            sx == d * ox + ex,
            sy == d * oy + ey,
    ;
    assert(s * vw == sx * wx + sy * wy) by (nonlinear_arith)
        requires
            vw == vx * wx + vy * wy,
            sx == s * vx,
            sy == s * vy,
    ;
    assert(dow == d * (ox * wx) + d * (oy * wy)) by (nonlinear_arith)
        requires
            dow == d * (ox * wx + oy * wy),
    ;
    assert(s * vw == dow + ew);
    let g = size(wx) + size(wy);
    assert(-(s * g) <= 2 * ew <= s * g) by (nonlinear_arith)
        requires
            ew == ex * wx + ey * wy,
            -s <= 2 * ex <= s,
            -s <= 2 * ey <= s,
            g == size(wx) + size(wy),
            -size(wx) <= wx <= size(wx),
            -size(wy) <= wy <= size(wy),
    ;
    // the length
    let oo = ox * ox + oy * oy;
    let q = vx * vx + vy * vy;
    let dd = d * d;
    let c = ox * ex + oy * ey;
    let ee = ex * ex + ey * ey;
    assert(sx * sx == dd * (ox * ox) + 2 * (d * (ox * ex)) + ex * ex) by (nonlinear_arith)
        requires
            sx == d * ox + ex,
            dd == d * d,
    ;
    assert(sy * sy == dd * (oy * oy) + 2 * (d * (oy * ey)) + ey * ey) by (nonlinear_arith)
        requires
            sy == d * oy + ey,
            dd == d * d,
    ;
    assert(s * s * q == sx * sx + sy * sy) by (nonlinear_arith)
        requires
            q == vx * vx + vy * vy,
            sx == s * vx,
            sy == s * vy,
    ;
    let ddo = dd * oo;
    let dc = d * c;
    assert(ddo == dd * (ox * ox) + dd * (oy * oy) && dc == d * (ox * ex) + d * (oy * ey))
        by (nonlinear_arith)
        requires
            ddo == dd * (ox * ox + oy * oy),
            dc == d * (ox * ex + oy * ey),
    ;
    let ssq = s * s * q;
    assert(ssq == ddo + 2 * dc + ee);
    assert(dd >= 0 && 999_999_996_000_000_004 * dd <= ddo <= 1_000_000_006_000_000_009 * dd)
        by (nonlinear_arith)
        requires
            dd == d * d,
            ddo == dd * oo,
            999_999_998 * 999_999_998 <= oo < 1_000_000_003 * 1_000_000_003,
    ;
    assert(-(1_000_000_001_000_000_000) <= c <= 1_000_000_001_000_000_000) by (nonlinear_arith)
        requires
            c == ox * ex + oy * ey,
            -1_000_000_001 <= ox <= 1_000_000_001,
            -1_000_000_001 <= oy <= 1_000_000_001,
            -1_000_000_000 <= 2 * ex <= 1_000_000_000,
            -1_000_000_000 <= 2 * ey <= 1_000_000_000,
    ;
    crate::fixed::lemma_product_size(d, c, d, 1_000_000_001_000_000_000);
    assert(0 <= ee <= 500_000_000_000_000_000) by (nonlinear_arith)
        requires
            ee == ex * ex + ey * ey,
            -1_000_000_000 <= 2 * ex <= 1_000_000_000,
            -1_000_000_000 <= 2 * ey <= 1_000_000_000,
    ;
    let low = d * (s - 2) - (s + 4);
    let high = d * (s + 3) + s;
    assert(high * high == 1_000_000_006_000_000_009 * dd + 2_000_000_006_000_000_000 * d
        + 1_000_000_000_000_000_000) by (nonlinear_arith)
        requires
            high == d * 1_000_000_003 + 1_000_000_000,
            dd == d * d,
    ;
    assert(low * low == 999_999_996_000_000_004 * dd - 2_000_000_003_999_999_984 * d
        + 1_000_000_008_000_000_016) by (nonlinear_arith)
        requires
            low == d * 999_999_998 - 1_000_000_004,
            dd == d * d,
    ;
    assert(d * 1_000_000_001_000_000_000 == 1_000_000_001_000_000_000 * d) by (nonlinear_arith);
}

/// A normalized vector has the length one and points the way of the
/// vector: for every vector but the zero vector, the length of its unit
/// vector is one to within two units of the resolution, and no coordinate
/// has changed its sign.
#[verifier::rlimit(50)]
pub proof fn lemma_normalize_unit(v: Point2)
    requires
        v.x@ != 0 || v.y@ != 0,
    ensures
        SCALE - 2 <= norm_spec(normalize_spec(v))@ <= SCALE + 2,
        -SCALE - 1 <= normalize_spec(v).x@ <= SCALE + 1,
        -SCALE - 1 <= normalize_spec(v).y@ <= SCALE + 1,
        v.x@ >= 0 ==> normalize_spec(v).x@ >= 0,
        v.x@ <= 0 ==> normalize_spec(v).x@ <= 0,
        v.y@ >= 0 ==> normalize_spec(v).y@ >= 0,
        v.y@ <= 0 ==> normalize_spec(v).y@ <= 0,
{
    let s = SCALE as int;
    let k = zoom(v);
    let x = v.x@ * k;
    let y = v.y@ * k;
    let m = x * x + y * y;
    assert(x * x >= 0 && y * y >= 0) by (nonlinear_arith);
    // the enlarged vector is at least 2^31 long
    assert(m >= 0x4000_0000_0000_0000) by {
        assert(x == v.x@ * k && y == v.y@ * k);
        if k == 1 {
            assert(x == v.x@ && y == v.y@) by (nonlinear_arith)
                requires
                    x == v.x@ * k,
                    y == v.y@ * k,
                    k == 1,
            ;
            if v.x@ >= SHORT || v.x@ <= -SHORT {
                assert(x * x >= 0x4000_0000_0000_0000) by (nonlinear_arith)
                    requires
                        x >= 0x8000_0000 || x <= -0x8000_0000,
                ;
            } else {
                assert(y * y >= 0x4000_0000_0000_0000) by (nonlinear_arith)
                    requires
                        y >= 0x8000_0000 || y <= -0x8000_0000,
                ;
            }
        } else {
            if v.x@ != 0 {
                assert(x * x >= 0x4000_0000_0000_0000) by (nonlinear_arith)
                    requires
                        x == v.x@ * 0x1_0000_0000,
                        v.x@ >= 1 || v.x@ <= -1,
                ;
            } else {
                assert(y * y >= 0x4000_0000_0000_0000) by (nonlinear_arith)
                    requires
                        y == v.y@ * 0x1_0000_0000,
                        v.y@ >= 1 || v.y@ <= -1,
                ;
            }
        }
    }
    lemma_floor_sqrt_exists(m);
    let n = floor_sqrt(m);
    assert(n >= 0x8000_0000) by (nonlinear_arith)
        requires
            0 <= n,
            m < (n + 1) * (n + 1),
            m >= 0x4000_0000_0000_0000,
    ;
    assert(n >= s);
    assert(zoomed_length(v) == n);
    // both coordinates are at most n in size
    assert(-n <= x <= n && -n <= y <= n) by (nonlinear_arith)
        requires
            m == x * x + y * y,
            m < (n + 1) * (n + 1),
            0 <= n,
    ;
    // the coordinates of the unit vector
    let a = round_div(x * s, n);
    let b = round_div(y * s, n);
    lemma_round_div_nearest(x * s, n);
    lemma_round_div_nearest(y * s, n);
    lemma_round_div_sign(x * s, n);
    lemma_round_div_sign(y * s, n);
    assert(-s - 1 <= a <= s + 1) by (nonlinear_arith)
        requires
            -n <= 2 * (a * n - x * s) <= n,
            -n <= x <= n,
            n >= s,
            s == 1_000_000_000,
    ;
    assert(-s - 1 <= b <= s + 1) by (nonlinear_arith)
        requires
            -n <= 2 * (b * n - y * s) <= n,
            -n <= y <= n,
            n >= s,
            s == 1_000_000_000,
    ;
    let u = normalize_spec(v);
    assert(u.x@ == a && u.y@ == b);
    assert((v.x@ >= 0 ==> x * s >= 0) && (v.x@ <= 0 ==> x * s <= 0) && (v.y@ >= 0 ==> y * s >= 0)
        && (v.y@ <= 0 ==> y * s <= 0)) by (nonlinear_arith)
        requires
            x == v.x@ * k,
            y == v.y@ * k,
            k >= 1,
            s == 1_000_000_000,
    ;
    // the square of its length, times n * n
    let q = a * a + b * b;
    let e1 = a * n - x * s;
    let e2 = b * n - y * s;
    lemma_square_of_sum(a, n, x, s, e1);
    lemma_square_of_sum(b, n, y, s, e2);
    assert(n * n * q == n * n * (a * a) + n * n * (b * b)) by (nonlinear_arith)
        requires
            q == a * a + b * b,
    ;
    assert(s * s * m == s * s * (x * x) + s * s * (y * y)) by (nonlinear_arith)
        requires
            m == x * x + y * y,
    ;
    assert(2 * s * (x * e1 + y * e2) == 2 * s * (x * e1) + 2 * s * (y * e2)) by (nonlinear_arith);
    assert(n * n * q == s * s * m + 2 * s * (x * e1 + y * e2) + e1 * e1 + e2 * e2);
    assert(-(n * n) <= x * e1 + y * e2 <= n * n) by (nonlinear_arith)
        requires
            -n <= x <= n,
            -n <= y <= n,
            -n <= 2 * e1 <= n,
            -n <= 2 * e2 <= n,
            0 <= n,
    ;
    assert(0 <= e1 * e1 + e2 * e2 <= n * n) by (nonlinear_arith)
        requires
            -n <= 2 * e1 <= n,
            -n <= 2 * e2 <= n,
            0 <= n,
    ;
    assert(s * s * m <= s * s * (n * n + 2 * n) && s * s * (n * n) <= s * s * m)
        by (nonlinear_arith)
        requires
            n * n <= m,
            m < (n + 1) * (n + 1),
            s == 1_000_000_000,
    ;
    assert(n * n * (s * s - 2 * s) <= n * n * q <= n * n * (s * s + 4 * s + 1))
        by (nonlinear_arith)
        requires
            n * n * q == s * s * m + 2 * s * (x * e1 + y * e2) + e1 * e1 + e2 * e2,
            -(n * n) <= x * e1 + y * e2 <= n * n,
            0 <= e1 * e1 + e2 * e2 <= n * n,
            s * s * m <= s * s * (n * n + 2 * n),
            s * s * (n * n) <= s * s * m,
            n >= s,
            s == 1_000_000_000,
    ;
    assert(s * s - 2 * s <= q <= s * s + 4 * s + 1) by (nonlinear_arith)
        requires
            n * n * (s * s - 2 * s) <= n * n * q <= n * n * (s * s + 4 * s + 1),
            n >= 1,
    ;
    lemma_floor_sqrt_exists(q);
    let d = floor_sqrt(q);
    assert(s - 2 <= d <= s + 2) by (nonlinear_arith)
        requires
            0 <= d,
            d * d <= q,
            q < (d + 1) * (d + 1),
            s * s - 2 * s <= q <= s * s + 4 * s + 1,
            s == 1_000_000_000,
    ;
    assert(norm_spec(u)@ == d);
}

/// Where `a * n` is `x * s + e`, the square of `a * n` is the square of
/// `x * s`, twice `x * s * e` and the square of `e`.
proof fn lemma_square_of_sum(a: int, n: int, x: int, s: int, e: int)
    requires
        e == a * n - x * s,
    ensures
        n * n * (a * a) == s * s * (x * x) + 2 * s * (x * e) + e * e,
{
    let an = a * n;
    let xs = x * s;
    assert(an * an == xs * xs + 2 * xs * e + e * e) by (nonlinear_arith)
        requires
            an == xs + e,
    ;
    assert(an * an == n * n * (a * a)) by (nonlinear_arith)
        requires
            an == a * n,
    ;
    assert(xs * xs == s * s * (x * x)) by (nonlinear_arith)
        requires
            xs == x * s,
    ;
    assert(2 * xs * e == 2 * s * (x * e)) by (nonlinear_arith)
        requires
            xs == x * s,
    ;
}

/// Why a root search gave no root.
#[derive(Clone, Copy, Debug, PartialEq, Eq, Structural)]
pub enum BisectionError {
    /// The function has no strict change of sign between the two ends.
    NonBracketingInterval,
}

/// What is said of an interval without a change of sign.
pub const NON_BRACKETING: &'static str =
    "Non-bracketing interval: the function does not change sign between its ends.";

impl BisectionError {
    /// A sentence that names the failure.
    pub fn message(self) -> (r: String)
        ensures
            r@ == NON_BRACKETING@,
    {
        NON_BRACKETING.to_string()
    }
}

/// One value is strictly negative and the other strictly positive.
pub open spec fn opposite_signs(u: Fixed, v: Fixed) -> bool {
    (u@ < 0 && v@ > 0) || (u@ > 0 && v@ < 0)
}

/// `v` lies strictly across zero from the value at the left end.
pub open spec fn crosses(left_negative: bool, v: Fixed) -> bool {
    if left_negative {
        v@ > 0
    } else {
        v@ < 0
    }
}

/// The bracket is still wider than the tolerance, and than one unit, below
/// which no bracket can be halved.
pub open spec fn wider_than(lo: Fixed, hi: Fixed, tol: Fixed) -> bool {
    hi@ - lo@ > tol@ && hi@ - lo@ > 1
}

/// The bracket that repeated halving of `[lo, hi]` ends with: at each step
/// the half is kept whose right end lies across zero from the left end.
pub open spec fn final_bracket(
    f: spec_fn(Fixed) -> Fixed,
    left_negative: bool,
    lo: Fixed,
    hi: Fixed,
    tol: Fixed,
) -> (Fixed, Fixed)
    decreases hi@ - lo@,
{
    if wider_than(lo, hi, tol) {
        let mid = lo.midpoint(hi);
        if crosses(left_negative, f(mid)) {
            final_bracket(f, left_negative, lo, mid, tol)
        } else {
            final_bracket(f, left_negative, mid, hi, tol)
        }
    } else {
        (lo, hi)
    }
}

/// The root that bisection finds for the function `f` on `[a, b]`.
pub open spec fn bisect(f: spec_fn(Fixed) -> Fixed, a: Fixed, b: Fixed, tol: Fixed) -> Result<
    Fixed,
    BisectionError,
> {
    if opposite_signs(f(a), f(b)) {
        let ends = final_bracket(f, f(a).is_negative(), a, b, tol);
        Ok(ends.0.midpoint(ends.1))
    } else {
        Err(BisectionError::NonBracketingInterval)
    }
}

/// `end` is a bracket that halving `[lo, hi]` can end with, going by the
/// values that the executable function `f` may return.
pub open spec fn narrows_to<F: Fn(Fixed) -> Fixed>(
    f: F,
    left_negative: bool,
    lo: Fixed,
    hi: Fixed,
    tol: Fixed,
    end: (Fixed, Fixed),
) -> bool
    decreases hi@ - lo@,
{
    if wider_than(lo, hi, tol) {
        let mid = lo.midpoint(hi);
        exists|y: Fixed| #[trigger]
            f.ensures((mid,), y) && if crosses(left_negative, y) {
                narrows_to(f, left_negative, lo, mid, tol, end)
            } else {
                narrows_to(f, left_negative, mid, hi, tol, end)
            }
    } else {
        end == (lo, hi)
    }
}

/// `r` is a result that bisection can give once `f` has returned `fa` at
/// `a` and `fb` at `b`.
pub open spec fn outcome_from_ends<F: Fn(Fixed) -> Fixed>(
    f: F,
    a: Fixed,
    b: Fixed,
    tol: Fixed,
    fa: Fixed,
    fb: Fixed,
    r: Result<Fixed, BisectionError>,
) -> bool {
    match r {
        Ok(x) => opposite_signs(fa, fb) && exists|end: (Fixed, Fixed)| #[trigger]
            narrows_to(f, fa.is_negative(), a, b, tol, end) && x == end.0.midpoint(end.1),
        Err(e) => !opposite_signs(fa, fb) && e == BisectionError::NonBracketingInterval,
    }
}

/// `r` is a result that bisection of `f` on `[a, b]` can give.
pub open spec fn search_outcome<F: Fn(Fixed) -> Fixed>(
    f: F,
    a: Fixed,
    b: Fixed,
    tol: Fixed,
    r: Result<Fixed, BisectionError>,
) -> bool {
    exists|fa: Fixed, fb: Fixed|
        f.ensures((a,), fa) && f.ensures((b,), fb) && #[trigger] outcome_from_ends(
            f,
            a,
            b,
            tol,
            fa,
            fb,
            r,
        )
}

/// `x` lies between `a` and `b`, whichever is the larger.
pub open spec fn between(a: Fixed, b: Fixed, x: Fixed) -> bool {
    (a@ <= x@ <= b@) || (b@ <= x@ <= a@)
}

/// Finds a root of `f` in `[a, b]` by bisection.
///
/// The values of `f` at the two ends must differ strictly in sign, else the
/// interval is refused. The bracket is halved until it is no wider than
/// `tol` (or than one unit of resolution, if `tol` is smaller), keeping at
/// each step the half across which the sign still changes; the middle of
/// the last bracket is returned.
pub fn dichotomic_search<F: Fn(Fixed) -> Fixed>(f: F, a: Fixed, b: Fixed, tol: Fixed) -> (r: Result<
    Fixed,
    BisectionError,
>)
    requires
        forall|x: Fixed| between(a, b, x) ==> #[trigger] f.requires((x,)),
    ensures
        search_outcome(f, a, b, tol, r),
        r matches Ok(x) ==> between(a, b, x),
{
    let fa = f(a);
    let fb = f(b);
    if !((fa.raw < 0 && fb.raw > 0) || (fa.raw > 0 && fb.raw < 0)) {
        proof {
            assert(outcome_from_ends(
                f,
                a,
                b,
                tol,
                fa,
                fb,
                Err(BisectionError::NonBracketingInterval),
            ));
        }
        return Err(BisectionError::NonBracketingInterval);
    }
    let left_negative = fa.raw < 0;
    let mut lo = a;
    let mut hi = b;
    while hi.raw as i128 - lo.raw as i128 > tol.raw as i128 && hi.raw as i128 - lo.raw as i128 > 1
        invariant
            forall|x: Fixed| between(a, b, x) ==> #[trigger] f.requires((x,)),
            a@ <= lo@,
            hi@ <= b@,
            a@ <= b@ ==> lo@ <= hi@,
            forall|end: (Fixed, Fixed)| #[trigger]
                narrows_to(f, left_negative, lo, hi, tol, end) ==> narrows_to(
                    f,
                    left_negative,
                    a,
                    b,
                    tol,
                    end,
                ),
        decreases hi@ - lo@,
    {
        let ghost prev_lo = lo;
        let ghost prev_hi = hi;
        let mid = lo.midpoint(hi);
        let y = f(mid);
        if (left_negative && y.raw > 0) || (!left_negative && y.raw < 0) {
            hi = mid;
        } else {
            lo = mid;
        }
        proof {
            assert forall|end: (Fixed, Fixed)| #[trigger]
                narrows_to(f, left_negative, lo, hi, tol, end) implies narrows_to(
                f,
                left_negative,
                a,
                b,
                tol,
                end,
            ) by {
                assert(f.ensures((mid,), y));
                assert(narrows_to(f, left_negative, prev_lo, prev_hi, tol, end));
            }
        }
    }
    proof {
        assert(narrows_to(f, left_negative, lo, hi, tol, (lo, hi)));
        assert(narrows_to(f, fa.is_negative(), a, b, tol, (lo, hi)));
        assert(outcome_from_ends(f, a, b, tol, fa, fb, Ok(lo.midpoint(hi))));
    }
    Ok(lo.midpoint(hi))
}

/// Where `f` always returns the value of the function `g`, the search
/// returns the root that bisection of `g` defines.
pub proof fn lemma_search_of_function<F: Fn(Fixed) -> Fixed>(
    f: F,
    g: spec_fn(Fixed) -> Fixed,
    a: Fixed,
    b: Fixed,
    tol: Fixed,
    r: Result<Fixed, BisectionError>,
)
    requires
        forall|x: Fixed, y: Fixed| f.ensures((x,), y) ==> y == g(x),
        search_outcome(f, a, b, tol, r),
    ensures
        r == bisect(g, a, b, tol),
{
    let (fa, fb) = choose|fa: Fixed, fb: Fixed|
        f.ensures((a,), fa) && f.ensures((b,), fb) && #[trigger] outcome_from_ends(
            f,
            a,
            b,
            tol,
            fa,
            fb,
            r,
        );
    assert(fa == g(a) && fb == g(b));
    match r {
        Ok(x) => {
            let end = choose|end: (Fixed, Fixed)| #[trigger]
                narrows_to(f, fa.is_negative(), a, b, tol, end) && x == end.0.midpoint(end.1);
            lemma_narrows_of_function(f, g, fa.is_negative(), a, b, tol, end);
        },
        Err(_) => {},
    }
}

/// Where `f` always returns the value of `g`, halving can end with one
/// bracket only.
pub proof fn lemma_narrows_of_function<F: Fn(Fixed) -> Fixed>(
    f: F,
    g: spec_fn(Fixed) -> Fixed,
    left_negative: bool,
    lo: Fixed,
    hi: Fixed,
    tol: Fixed,
    end: (Fixed, Fixed),
)
    requires
        forall|x: Fixed, y: Fixed| f.ensures((x,), y) ==> y == g(x),
        narrows_to(f, left_negative, lo, hi, tol, end),
    ensures
        end == final_bracket(g, left_negative, lo, hi, tol),
    decreases hi@ - lo@,
{
    if wider_than(lo, hi, tol) {
        let mid = lo.midpoint(hi);
        let y = choose|y: Fixed| #[trigger]
            f.ensures((mid,), y) && if crosses(left_negative, y) {
                narrows_to(f, left_negative, lo, mid, tol, end)
            } else {
                narrows_to(f, left_negative, mid, hi, tol, end)
            };
        if crosses(left_negative, y) {
            lemma_narrows_of_function(f, g, left_negative, lo, mid, tol, end);
        } else {
            lemma_narrows_of_function(f, g, left_negative, mid, hi, tol, end);
        }
    }
}

/// The last bracket lies inside the first, is no wider than the tolerance
/// allows, and the function still changes sign across it: its right end
/// lies across zero from the first left end, its left end does not.
pub proof fn lemma_final_bracket(
    f: spec_fn(Fixed) -> Fixed,
    left_negative: bool,
    lo: Fixed,
    hi: Fixed,
    tol: Fixed,
)
    requires
        lo@ <= hi@,
        !crosses(left_negative, f(lo)),
        crosses(left_negative, f(hi)),
    ensures
        ({
            let end = final_bracket(f, left_negative, lo, hi, tol);
            &&& lo@ <= end.0@ <= end.1@ <= hi@
            &&& !wider_than(end.0, end.1, tol)
            &&& !crosses(left_negative, f(end.0))
            &&& crosses(left_negative, f(end.1))
        }),
    decreases hi@ - lo@,
{
    if wider_than(lo, hi, tol) {
        let mid = lo.midpoint(hi);
        if crosses(left_negative, f(mid)) {
            lemma_final_bracket(f, left_negative, lo, mid, tol);
        } else {
            lemma_final_bracket(f, left_negative, mid, hi, tol);
        }
    }
}

/// A root returned for a function lies within the tolerance of a change of
/// sign: between two arguments of `[a, b]` that are at most `tol` apart (or
/// one unit, if `tol` is smaller), at the right one of which `f` has the
/// sign it has at `b`, and at the left one of which it does not.
pub proof fn lemma_bisect_root(f: spec_fn(Fixed) -> Fixed, a: Fixed, b: Fixed, tol: Fixed)
    requires
        a@ <= b@,
        opposite_signs(f(a), f(b)),
    ensures
        bisect(f, a, b, tol) is Ok,
        ({
            let x = bisect(f, a, b, tol)->Ok_0;
            exists|lo: Fixed, hi: Fixed|
                {
                    &&& a@ <= lo@ <= x@ <= hi@ <= b@
                    &&& (hi@ - lo@ <= tol@ || hi@ - lo@ <= 1)
                    &&& !#[trigger] opposite_signs(f(lo), f(a))
                    &&& #[trigger] opposite_signs(f(hi), f(a))
                    &&& !opposite_signs(f(lo), f(hi)) ==> f(lo)@ == 0
                }
        }),
{
    let left_negative = f(a).is_negative();
    lemma_final_bracket(f, left_negative, a, b, tol);
    let end = final_bracket(f, left_negative, a, b, tol);
    assert(!opposite_signs(f(end.0), f(a)));
    assert(opposite_signs(f(end.1), f(a)));
}

/// The vector `p` with both components divided by `s`.
pub open spec fn divide_spec(p: Point2, s: Fixed) -> Point2 {
    Point2 { x: p.x.div(s), y: p.y.div(s) }
}

/// The vector `p` with both components divided by `s`.
#[verifier::when_used_as_spec(divide_spec)]
pub fn divide(p: Point2, s: Fixed) -> (r: Point2)
    ensures
        r == divide_spec(p, s),
{
    Point2 { x: p.x.div(s), y: p.y.div(s) }
}

/// The parameter length of the spline piece from point `i` to point
/// `i + 1`: their distance, or one where the two points coincide.
pub open spec fn chord_length(points: Seq<Point2>, i: int) -> Fixed {
    let h = norm_spec(sub_spec(points[i + 1], points[i]));
    if h@ <= 0 {
        Fixed::one()
    } else {
        h
    }
}

/// The direction of the chord from point `i` to point `i + 1`, per unit of
/// parameter.
pub open spec fn chord_slope(points: Seq<Point2>, i: int) -> Point2 {
    divide_spec(sub_spec(points[i + 1], points[i]), chord_length(points, i))
}

/// Diagonal entry of the spline's tridiagonal system in the row of the
/// inner point `k`.
pub open spec fn spline_diag(points: Seq<Point2>, k: int) -> Fixed {
    Fixed::from_int(2).mul(chord_length(points, k - 1).add(chord_length(points, k)))
}

/// Right-hand side of the system in the row of the inner point `k`: six
/// times the change of slope at that point.
pub open spec fn spline_rhs(points: Seq<Point2>, k: int) -> Point2 {
    scale_spec(Fixed::from_int(6), sub_spec(chord_slope(points, k), chord_slope(points, k - 1)))
}

/// The factor by which row `k - 1` is taken off row `k` in the forward
/// elimination.
pub open spec fn elimination_factor(points: Seq<Point2>, k: int) -> Fixed
    decreases k, 0int,
{
    if k <= 1 {
        Fixed::zero()
    } else {
        chord_length(points, k - 1).div(eliminated_diag(points, k - 1))
    }
}

/// Diagonal entry of row `k` after the forward elimination.
pub open spec fn eliminated_diag(points: Seq<Point2>, k: int) -> Fixed
    decreases k, 1int,
{
    if k <= 1 {
        spline_diag(points, k)
    } else {
        spline_diag(points, k).sub(
            elimination_factor(points, k).mul(chord_length(points, k - 1)),
        )
    }
}

/// Right-hand side of row `k` after the forward elimination.
pub open spec fn eliminated_rhs(points: Seq<Point2>, k: int) -> Point2
    decreases k,
{
    if k <= 1 {
        spline_rhs(points, k)
    } else {
        sub_spec(
            spline_rhs(points, k),
            scale_spec(elimination_factor(points, k), eliminated_rhs(points, k - 1)),
        )
    }
}

/// The spline's second derivative at point `k`: zero at both ends (the
/// natural boundary condition), and inside the solution of the system by
/// back substitution.
pub open spec fn second_derivative(points: Seq<Point2>, k: int) -> Point2
    decreases points.len() - k,
{
    if k <= 0 || k >= points.len() - 1 {
        Point2::origin()
    } else {
        divide_spec(
            sub_spec(
                eliminated_rhs(points, k),
                scale_spec(chord_length(points, k), second_derivative(points, k + 1)),
            ),
            eliminated_diag(points, k),
        )
    }
}

/// The first derivative of piece `i` at its start.
pub open spec fn start_slope(points: Seq<Point2>, i: int) -> Point2 {
    sub_spec(
        chord_slope(points, i),
        scale_spec(
            chord_length(points, i).div(Fixed::from_int(6)),
            add_spec(
                scale_spec(Fixed::from_int(2), second_derivative(points, i)),
                second_derivative(points, i + 1),
            ),
        ),
    )
}

/// Piece `i` of the spline as a Bezier arc. It starts at point `i` and
/// ends at point `i + 1`; between two points alone it divides the chord in
/// three.
pub open spec fn spline_segment(points: Seq<Point2>, i: int) -> BezierSegment {
    let start = points[i];
    let end = points[i + 1];
    if points.len() == 2 {
        let d = sub_spec(end, start);
        (
            start,
            add_spec(start, divide_spec(d, Fixed::from_int(3))),
            add_spec(start, divide_spec(scale_spec(Fixed::from_int(2), d), Fixed::from_int(3))),
            end,
        )
    } else {
        let h = chord_length(points, i);
        let b = start_slope(points, i);
        let c = scale_spec(Fixed::from_ratio(1, 2), second_derivative(points, i));
        (
            start,
            add_spec(start, scale_spec(h.div(Fixed::from_int(3)), b)),
            add_spec(
                add_spec(start, scale_spec(Fixed::from_int(2).mul(h).div(Fixed::from_int(3)), b)),
                scale_spec(h.mul(h).div(Fixed::from_int(3)), c),
            ),
            end,
        )
    }
}

/// The natural cubic spline through `points`, with chord-length
/// parameter, as one Bezier arc per pair of neighbouring points.
pub open spec fn spline_beziers(points: Seq<Point2>) -> Seq<BezierSegment> {
    Seq::new((points.len() - 1) as nat, |i: int| spline_segment(points, i))
}

/// The parameter lengths of all pieces.
fn chord_lengths(points: &[Point2]) -> (h: Vec<Fixed>)
    requires
        points.len() >= 2,
    ensures
        h.len() == points.len() - 1,
        forall|i: int| 0 <= i < h.len() ==> #[trigger] h[i] == chord_length(points@, i),
{
    let m = points.len() - 1;
    let mut h: Vec<Fixed> = Vec::new();
    let mut i: usize = 0;
    while i < m
        invariant
            m == points.len() - 1,
            i <= m,
            h.len() == i,
            forall|j: int| 0 <= j < i ==> #[trigger] h[j] == chord_length(points@, j),
        decreases m - i,
    {
        let d = norm(self::sub(points[i + 1], points[i]));
        if d.raw <= 0 {
            h.push(Fixed::one());
        } else {
            h.push(d);
        }
        i += 1;
    }
    h
}

/// Sets up the tridiagonal system and eliminates its lower diagonal. Entry
/// `i` of both results belongs to the inner point `i + 1`.
fn eliminate(points: &[Point2], h: &Vec<Fixed>) -> (rows: (Vec<Fixed>, Vec<Point2>))
    requires
        points.len() >= 3,
        h.len() == points.len() - 1,
        forall|i: int| 0 <= i < h.len() ==> #[trigger] h[i] == chord_length(points@, i),
    ensures
        rows.0.len() == points.len() - 2,
        rows.1.len() == points.len() - 2,
        forall|i: int|
            0 <= i < rows.0.len() ==> #[trigger] rows.0[i] == eliminated_diag(points@, i + 1),
        forall|i: int|
            0 <= i < rows.1.len() ==> #[trigger] rows.1[i] == eliminated_rhs(points@, i + 1),
{
    let interior = points.len() - 2;
    let mut diag: Vec<Fixed> = Vec::new();
    let mut rhs: Vec<Point2> = Vec::new();
    let mut i: usize = 0;
    while i < interior
        invariant
            interior == points.len() - 2,
            h.len() == points.len() - 1,
            forall|j: int| 0 <= j < h.len() ==> #[trigger] h[j] == chord_length(points@, j),
            i <= interior,
            diag.len() == i,
            rhs.len() == i,
            forall|j: int| 0 <= j < i ==> #[trigger] diag[j] == eliminated_diag(points@, j + 1),
            forall|j: int| 0 <= j < i ==> #[trigger] rhs[j] == eliminated_rhs(points@, j + 1),
        decreases interior - i,
    {
        let k = i + 1;
        let slope_right = divide(self::sub(points[k + 1], points[k]), h[k]);
        let slope_left = divide(self::sub(points[k], points[k - 1]), h[k - 1]);
        let b = Fixed::from_int(2).mul(h[k - 1].add(h[k]));
        let d = scale(Fixed::from_int(6), self::sub(slope_right, slope_left));
        assert(b == spline_diag(points@, k as int));
        assert(d == spline_rhs(points@, k as int));
        if i == 0 {
            diag.push(b);
            rhs.push(d);
        } else {
            let w = h[k - 1].div(diag[i - 1]);
            assert(w == elimination_factor(points@, k as int));
            diag.push(b.sub(w.mul(h[k - 1])));
            rhs.push(self::sub(d, scale(w, rhs[i - 1])));
        }
        i += 1;
    }
    (diag, rhs)
}

/// Solves the eliminated system from its last row upwards. Entry `k` of
/// the result is the second derivative at point `k`.
fn back_substitute(points: &[Point2], h: &Vec<Fixed>, diag: &Vec<Fixed>, rhs: &Vec<Point2>) -> (s:
    Vec<Point2>)
    requires
        points.len() >= 3,
        h.len() == points.len() - 1,
        forall|i: int| 0 <= i < h.len() ==> #[trigger] h[i] == chord_length(points@, i),
        diag.len() == points.len() - 2,
        rhs.len() == points.len() - 2,
        forall|i: int|
            0 <= i < diag.len() ==> #[trigger] diag[i] == eliminated_diag(points@, i + 1),
        forall|i: int| 0 <= i < rhs.len() ==> #[trigger] rhs[i] == eliminated_rhs(points@, i + 1),
    ensures
        s.len() == points.len(),
        forall|k: int| 0 <= k < s.len() ==> #[trigger] s[k] == second_derivative(points@, k),
{
    let n = points.len();
    let mut s: Vec<Point2> = Vec::new();
    let mut i: usize = 0;
    while i < n
        invariant
            n == points.len(),
            i <= n,
            s.len() == i,
            forall|j: int| 0 <= j < i ==> #[trigger] s[j] == Point2::origin(),
        decreases n - i,
    {
        s.push(Point2::origin());
        i += 1;
    }
    let mut k: usize = n - 2;
    while k >= 1
        invariant
            n == points.len(),
            n >= 3,
            k <= n - 2,
            s.len() == n,
            h.len() == n - 1,
            diag.len() == n - 2,
            rhs.len() == n - 2,
            forall|j: int| 0 <= j < h.len() ==> #[trigger] h[j] == chord_length(points@, j),
            forall|j: int|
                0 <= j < diag.len() ==> #[trigger] diag[j] == eliminated_diag(points@, j + 1),
            forall|j: int|
                0 <= j < rhs.len() ==> #[trigger] rhs[j] == eliminated_rhs(points@, j + 1),
            s[0] == Point2::origin(),
            forall|j: int| k < j < n ==> #[trigger] s[j] == second_derivative(points@, j),
        decreases k,
    {
        let value = divide(self::sub(rhs[k - 1], scale(h[k], s[k + 1])), diag[k - 1]);
        s.set(k, value);
        k -= 1;
    }
    s
}

/// Converts a sequence of points to the Bezier arcs of the natural cubic
/// spline through them, by way of the Thomas algorithm on chord-length
/// parameters. `N` points give `N - 1` arcs; arc `i` starts at point `i`
/// and ends at point `i + 1`.
pub fn cubic_spline_to_beziers(points: &[Point2]) -> (beziers: Vec<BezierSegment>)
    requires
        points.len() >= 2,
    ensures
        beziers@ == spline_beziers(points@),
        beziers.len() == points.len() - 1,
        forall|i: int|
            0 <= i < beziers.len() ==> (#[trigger] beziers[i]).0 == points[i] && beziers[i].3
                == points[i + 1],
{
    let n = points.len();
    let mut beziers: Vec<BezierSegment> = Vec::new();
    if n == 2 {
        let p0 = points[0];
        let p3 = points[1];
        let d = self::sub(p3, p0);
        let p1 = self::add(p0, divide(d, Fixed::from_int(3)));
        let p2 = self::add(p0, divide(scale(Fixed::from_int(2), d), Fixed::from_int(3)));
        beziers.push((p0, p1, p2, p3));
        assert(beziers@ =~= spline_beziers(points@));
        return beziers;
    }
    let m = n - 1;
    let h = chord_lengths(points);
    let (diag, rhs) = eliminate(points, &h);
    let s = back_substitute(points, &h, &diag, &rhs);
    let mut i: usize = 0;
    while i < m
        invariant
            n == points.len(),
            n >= 3,
            m == n - 1,
            i <= m,
            h.len() == m,
            s.len() == n,
            forall|j: int| 0 <= j < h.len() ==> #[trigger] h[j] == chord_length(points@, j),
            forall|j: int| 0 <= j < s.len() ==> #[trigger] s[j] == second_derivative(points@, j),
            beziers.len() == i,
            forall|j: int| 0 <= j < i ==> #[trigger] beziers[j] == spline_segment(points@, j),
        decreases m - i,
    {
        let hi = h[i];
        let start = points[i];
        let slope = divide(self::sub(points[i + 1], start), hi);
        let b = self::sub(
            slope,
            scale(
                hi.div(Fixed::from_int(6)),
                self::add(scale(Fixed::from_int(2), s[i]), s[i + 1]),
            ),
        );
        let c = scale(Fixed::from_ratio(1, 2), s[i]);
        let p1 = self::add(start, scale(hi.div(Fixed::from_int(3)), b));
        let p2 = self::add(
            self::add(start, scale(Fixed::from_int(2).mul(hi).div(Fixed::from_int(3)), b)),
            scale(hi.mul(hi).div(Fixed::from_int(3)), c),
        );
        assert(b == start_slope(points@, i as int));
        beziers.push((start, p1, p2, points[i + 1]));
        i += 1;
    }
    assert(beziers@ =~= spline_beziers(points@));
    beziers
}

/// The spline through `N` points has `N - 1` arcs; each starts at its
/// point and ends at the next, so that neighbouring arcs meet in the
/// points; its second derivative is zero at both ends; and between two
/// points alone the one arc divides the chord in three.
pub proof fn lemma_spline_through_points(points: Seq<Point2>)
    requires
        points.len() >= 2,
    ensures
        spline_beziers(points).len() == points.len() - 1,
        second_derivative(points, 0) == Point2::origin(),
        second_derivative(points, points.len() - 1) == Point2::origin(),
        forall|i: int|
            0 <= i < points.len() - 1 ==> (#[trigger] spline_beziers(points)[i]).0 == points[i]
                && spline_beziers(points)[i].3 == points[i + 1],
        forall|i: int|
            0 <= i < points.len() - 2 ==> (#[trigger] spline_beziers(points)[i]).3
                == spline_beziers(points)[i + 1].0,
        points.len() == 2 ==> spline_beziers(points)[0] == (
            points[0],
            add_spec(points[0], divide_spec(sub_spec(points[1], points[0]), Fixed::from_int(3))),
            add_spec(
                points[0],
                divide_spec(
                    scale_spec(Fixed::from_int(2), sub_spec(points[1], points[0])),
                    Fixed::from_int(3),
                ),
            ),
            points[1],
        ),
{
}

} // verus!
