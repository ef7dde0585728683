//! What the two control points of an armhole curve of the bodice are
//! worth: the placed one lies at its depth square to the side seam, and the
//! Bezier arc from `K` to `C1` over the solved one passes through its
//! target, each to within a stated bound.

use crate::fixed::{
    lemma_mul_nearest, lemma_mul_whole, lemma_product_size, lemma_round_div_nearest, round_div,
    Fixed, SCALE,
};
use crate::math::{
    final_bracket, lemma_final_bracket, lemma_normalize_parallel, lemma_normalize_unit,
    lemma_unit_square, opposite_signs, size, Point2,
};
use crate::patterns::corset::{
    armhole_controls, armhole_high_direction, armhole_low_control, armhole_offset,
    armhole_parameter, armhole_residual, lemma_armhole_residual_small, lemma_mul_step,
    lemma_oriented_bounded, oriented, tolerance, within_two_metres, CorsetPoints,
};
use vstd::prelude::*;

verus! {

/// A product of three factors, rounded twice, is within a stated distance
/// of the product not rounded.
#[verifier::rlimit(50)]
pub proof fn lemma_twice_rounded(a: Fixed, b: Fixed, c: Fixed)
    requires
        0 <= a@ <= 3 * SCALE,
        0 <= b@ <= SCALE,
        0 <= c@ <= 3 * SCALE,
    ensures
        ({
            let s = SCALE as int;
            let r = a.mul(b).mul(c)@;
            &&& -(s * s + c@ * s) <= 2 * (r * (s * s) - a@ * b@ * c@) <= s * s + c@ * s
            &&& -2 <= r <= 9 * s + 2
        }),
{
    let s = SCALE as int;
    lemma_mul_step(a, a, b, b, 3_000_000_000, 1_000_000_000, 0, 0, 3_000_000_000, 1);
    let m = a.mul(b);
    lemma_round_div_nearest(a@ * b@, s);
    assert(m@ == round_div(a@ * b@, s));
    lemma_mul_step(m, m, c, c, 3_000_000_000, 3_000_000_000, 0, 0, 9_000_000_000, 1);
    lemma_round_div_nearest(m@ * c@, s);
    let r = m.mul(c)@;
    assert(r == round_div(m@ * c@, s));
    let e1 = m@ * s - a@ * b@;
    let e2 = r * s - m@ * c@;
    let abc = a@ * b@ * c@;
    assert(r * (s * s) - abc == s * e2 + c@ * e1) by (nonlinear_arith)
        requires
            e1 == m@ * s - a@ * b@,
            e2 == r * s - m@ * c@,
            abc == a@ * b@ * c@,
    ;
    assert(-(s * s) <= 2 * (s * e2) <= s * s) by (nonlinear_arith)
        requires
            -s <= 2 * e2 <= s,
            s > 0,
    ;
    assert(-(c@ * s) <= 2 * (c@ * e1) <= c@ * s) by (nonlinear_arith)
        requires
            -s <= 2 * e1 <= s,
            0 <= c@,
    ;
    assert(0 <= c@ * s <= 3 * s * s) by (nonlinear_arith)
        requires
            0 <= c@ <= 3 * s,
            s > 0,
    ;
    assert(0 <= a@ * b@) by (nonlinear_arith)
        requires
            0 <= a@,
            0 <= b@,
    ;
    let ab = a@ * b@;
    assert(ab <= 3 * s * s) by (nonlinear_arith)
        requires
            ab == a@ * b@,
            0 <= a@ <= 3 * s,
            0 <= b@ <= s,
    ;
    assert(0 <= abc <= 9 * s * (s * s)) by (nonlinear_arith)
        requires
            abc == ab * c@,
            0 <= ab <= 3 * s * s,
            0 <= c@ <= 3 * s,
    ;
    let ss = s * s;
    assert(-2 <= r <= 9 * s + 2) by (nonlinear_arith)
        requires
            -(2 * ss) <= r * ss - abc <= 2 * ss,
            0 <= abc <= 9 * s * ss,
            ss > 0,
    ;
}

/// The weight of `K` in the rest of the target: `(1-t)^2 (1+2t)`.
pub open spec fn weight_k(t: Fixed) -> Fixed {
    let u = Fixed::one().sub(t);
    u.mul(u).mul(Fixed::one().add(Fixed::from_int(2).mul(t)))
}

/// The weight of the placed control point: `3 (1-t) t^2`.
pub open spec fn weight_cx(t: Fixed) -> Fixed {
    Fixed::from_int(3).mul(Fixed::one().sub(t)).mul(t).mul(t)
}

/// The weight of `C1`: `t^3`.
pub open spec fn weight_c1(t: Fixed) -> Fixed {
    t.mul(t).mul(t)
}

/// The weight of the solved control point: `3 (1-t)^2 t`.
pub open spec fn weight_kx(t: Fixed) -> Fixed {
    let u = Fixed::one().sub(t);
    Fixed::from_int(3).mul(u).mul(u).mul(t)
}

/// The four weights are those of the Bezier arc, each to within two units
/// of the resolution: times 10^18 they differ from the exact products by
/// no more than twice that (the weight of `K`) or once that (the others).
#[verifier::rlimit(50)]
pub proof fn lemma_weights(t: Fixed)
    requires
        0 <= t@ <= SCALE,
    ensures
        ({
            let s = SCALE as int;
            let u = s - t@;
            &&& -2 * (s * s) <= weight_k(t)@ * (s * s) - u * u * (s + 2 * t@) <= 2 * (s * s)
            &&& -(s * s) <= weight_cx(t)@ * (s * s) - 3 * u * t@ * t@ <= s * s
            &&& -(s * s) <= weight_c1(t)@ * (s * s) - t@ * t@ * t@ <= s * s
            &&& -(s * s) <= weight_kx(t)@ * (s * s) - 3 * u * u * t@ <= s * s
            &&& -2 <= weight_k(t)@ <= 3 * s + 2
            &&& -1 <= weight_cx(t)@ <= 3 * s + 1
            &&& -1 <= weight_c1(t)@ <= s + 1
            &&& -1 <= weight_kx(t)@ <= 3 * s + 1
        }),
{
    let s = SCALE as int;
    let ss = s * s;
    let u = Fixed::one().sub(t);
    assert(u@ == s - t@);
    lemma_mul_whole(2, t);
    lemma_mul_whole(3, u);
    let f = Fixed::one().add(Fixed::from_int(2).mul(t));
    assert(f@ == s + 2 * t@);
    let u3 = Fixed::from_int(3).mul(u);
    assert(u3@ == 3 * u@);
    lemma_twice_rounded(u, u, f);
    lemma_twice_rounded(u3, t, t);
    lemma_twice_rounded(t, t, t);
    lemma_twice_rounded(u3, u, t);
    assert(0 <= f@ * s <= 3 * ss) by (nonlinear_arith)
        requires
            0 <= f@ <= 3 * s,
            ss == s * s,
            s > 0,
    ;
    assert(0 <= t@ * s <= ss) by (nonlinear_arith)
        requires
            0 <= t@ <= s,
            ss == s * s,
            s > 0,
    ;
    lemma_bounded_product(u@, u@, f@, s, s, 3 * s);
    lemma_bounded_product(u3@, t@, t@, 3 * s, s, s);
    lemma_bounded_product(t@, t@, t@, s, s, s);
    lemma_bounded_product(u3@, u@, t@, 3 * s, s, s);
    lemma_weight_size(weight_k(t)@, u@ * u@ * f@, 2 * ss, ss, 3 * s);
    lemma_weight_size(weight_cx(t)@, u3@ * t@ * t@, ss, ss, 3 * s);
    lemma_weight_size(weight_c1(t)@, t@ * t@ * t@, ss, ss, s);
    lemma_weight_size(weight_kx(t)@, u3@ * u@ * t@, ss, ss, 3 * s);
}

/// A product of three factors that are not negative is no more than the
/// product of their bounds.
proof fn lemma_bounded_product(a: int, b: int, c: int, ba: int, bb: int, bc: int)
    requires
        0 <= a <= ba,
        0 <= b <= bb,
        0 <= c <= bc,
    ensures
        0 <= a * b * c <= ba * bb * bc,
{
    let ab = a * b;
    let bab = ba * bb;
    assert(0 <= ab <= bab) by (nonlinear_arith)
        requires
            ab == a * b,
            bab == ba * bb,
            0 <= a <= ba,
            0 <= b <= bb,
    ;
    assert(0 <= ab * c <= bab * bc) by (nonlinear_arith)
        requires
            0 <= ab <= bab,
            0 <= c <= bc,
    ;
}

/// A weight whose 10^18-fold is within `e` of a product of no more than
/// `bound * 10^18` is within `bound` and `e / 10^18`.
proof fn lemma_weight_size(w: int, exact: int, e: int, ss: int, bound: int)
    requires
        ss == 1_000_000_000_000_000_000,
        e == ss || e == 2 * ss,
        -e <= w * ss - exact <= e,
        0 <= exact <= bound * 1_000_000_000 * 1_000_000_000,
    ensures
        e == ss ==> -1 <= w <= bound + 1,
        e == 2 * ss ==> -2 <= w <= bound + 2,
{
    assert(bound * 1_000_000_000 * 1_000_000_000 == bound * ss) by (nonlinear_arith)
        requires
            ss == 1_000_000_000_000_000_000,
    ;
    assert((e == ss ==> -1 <= w <= bound + 1) && (e == 2 * ss ==> -2 <= w <= bound + 2))
        by (nonlinear_arith)
        requires
            ss == 1_000_000_000_000_000_000,
            e == ss || e == 2 * ss,
            -e <= w * ss - exact <= e,
            0 <= exact <= bound * ss,
    ;
}

/// A weighted coordinate, rounded, is within a stated distance of the exact
/// product: times 10^27 it differs from the exact weight times the
/// coordinate by no more than `units` and a half times 10^27, where the
/// weight is exact to within `units / 200` units and the coordinate lies
/// within two metres.
#[verifier::rlimit(50)]
pub proof fn lemma_weighted(w: Fixed, p: Fixed, exact: int, units: int)
    requires
        -2 <= w@ <= 3 * SCALE + 2,
        -200 * SCALE <= p@ <= 200 * SCALE,
        units == 200 || units == 400,
        -(units * 5_000_000_000_000_000) <= w@ * (SCALE * SCALE) - exact <= units
            * 5_000_000_000_000_000,
    ensures
        ({
            let s3: int = 1_000_000_000_000_000_000_000_000_000;
            let q = w.mul(p)@;
            &&& -(2 * units + 1) * s3 <= 2 * (q * s3 - exact * p@) <= (2 * units + 1) * s3
            &&& -600_000_000_401 <= q <= 600_000_000_401
        }),
{
    let s = SCALE as int;
    let ss = s * s;
    let s3: int = 1_000_000_000_000_000_000_000_000_000;
    assert(ss == 1_000_000_000_000_000_000 && ss * s == s3) by (nonlinear_arith)
        requires
            ss == s * s,
            s == 1_000_000_000,
            s3 == 1_000_000_000_000_000_000_000_000_000,
    ;
    lemma_mul_step(w, w, p, p, 3_000_000_002, 200_000_000_000, 0, 0, 600_000_000_401, 1);
    lemma_round_div_nearest(w@ * p@, s);
    let q = w.mul(p)@;
    assert(q == round_div(w@ * p@, s));
    let e1 = q * s - w@ * p@;
    let e2 = w@ * ss - exact;
    assert(q * s3 - exact * p@ == ss * e1 + p@ * e2) by (nonlinear_arith)
        requires
            e1 == q * s - w@ * p@,
            e2 == w@ * ss - exact,
            s3 == ss * s,
    ;
    assert(-s3 <= 2 * (ss * e1) <= s3) by (nonlinear_arith)
        requires
            -s <= 2 * e1 <= s,
            ss > 0,
            s3 == ss * s,
    ;
    let eb = units * 5_000_000_000_000_000;
    assert(-(eb * (200 * s)) <= p@ * e2 <= eb * (200 * s)) by (nonlinear_arith)
        requires
            -eb <= e2 <= eb,
            -200 * s <= p@ <= 200 * s,
            0 <= eb,
            s > 0,
    ;
    assert(eb * (200 * s) == units * s3) by (nonlinear_arith)
        requires
            eb == units * 5_000_000_000_000_000,
            s == 1_000_000_000,
            s3 == 1_000_000_000_000_000_000_000_000_000,
    ;
}

/// One coordinate of what is left of the target at the parameter `t`.
pub open spec fn offset_coordinate(t: Fixed, k: Fixed, cx: Fixed, c1: Fixed, target: Fixed) -> Fixed {
    target.sub(weight_k(t).mul(k).add(weight_cx(t).mul(cx).add(weight_c1(t).mul(c1))))
}

/// The exact sum of the weighted coordinates but that of the solved
/// control point, times 10^27.
pub open spec fn placed_sum(t: int, k: int, cx: int, c1: int) -> int {
    let u = SCALE - t;
    u * u * (SCALE + 2 * t) * k + 3 * u * t * t * cx + t * t * t * c1
}

/// What is left of the target is the target less the weighted points: for
/// a parameter between 0 and 1 and coordinates within two metres, the
/// coordinate of the rest, times 10^27, differs from the exact difference
/// by no more than 802 units times 10^27, and is no more than 20 metres
/// and a little in size.
#[verifier::rlimit(50)]
pub proof fn lemma_offset_coordinate(t: Fixed, k: Fixed, cx: Fixed, c1: Fixed, target: Fixed)
    requires
        0 <= t@ <= SCALE,
        -200 * SCALE <= k@ <= 200 * SCALE,
        -200 * SCALE <= cx@ <= 200 * SCALE,
        -200 * SCALE <= c1@ <= 200 * SCALE,
        -200 * SCALE <= target@ <= 200 * SCALE,
    ensures
        ({
            let s3: int = 1_000_000_000_000_000_000_000_000_000;
            let r = offset_coordinate(t, k, cx, c1, target)@;
            &&& -802 * s3 <= r * s3 - (target@ * s3 - placed_sum(t@, k@, cx@, c1@)) <= 802 * s3
            &&& -2_000_000_001_203 <= r <= 2_000_000_001_203
        }),
{
    let s = SCALE as int;
    let u = s - t@;
    let s3: int = 1_000_000_000_000_000_000_000_000_000;
    lemma_weights(t);
    assert(s * s == 1_000_000_000_000_000_000) by (nonlinear_arith)
        requires
            s == 1_000_000_000,
    ;
    let ek = u * u * (s + 2 * t@);
    let ecx = 3 * u * t@ * t@;
    let ec1 = t@ * t@ * t@;
    lemma_weighted(weight_k(t), k, ek, 400);
    lemma_weighted(weight_cx(t), cx, ecx, 200);
    lemma_weighted(weight_c1(t), c1, ec1, 200);
    let tk = weight_k(t).mul(k)@;
    let tcx = weight_cx(t).mul(cx)@;
    let tc1 = weight_c1(t).mul(c1)@;
    let r = offset_coordinate(t, k, cx, c1, target)@;
    assert(r == target@ - (tk + tcx + tc1));
    let sum = tk + tcx + tc1;
    assert(sum * s3 == tk * s3 + tcx * s3 + tc1 * s3) by (nonlinear_arith)
        requires
            sum == tk + tcx + tc1,
    ;
    assert(r * s3 == target@ * s3 - sum * s3) by (nonlinear_arith)
        requires
            r == target@ - sum,
    ;
    assert(placed_sum(t@, k@, cx@, c1@) == ek * k@ + ecx * cx@ + ec1 * c1@);
}

/// A vector whose cross product with a unit vector is small is nearly its
/// own projection on it: for `(ra, rb)` of no more than `rb_` in size and
/// a direction `(da, db)` of the length one to within two units, the
/// projection's first coordinate, times 10^27, differs from that of the
/// vector by no more than the cross product and a little.
#[verifier::rlimit(50)]
pub proof fn lemma_projection(ra: int, rb: int, da: int, db: int, cross_units: int)
    requires
        -2_000_000_001_203 <= ra <= 2_000_000_001_203,
        -2_000_000_001_203 <= rb <= 2_000_000_001_203,
        -1_000_000_001 <= da <= 1_000_000_001,
        -1_000_000_001 <= db <= 1_000_000_001,
        999_999_998 * 999_999_998 <= da * da + db * db < 1_000_000_003 * 1_000_000_003,
        0 <= cross_units <= 8_004_010,
        -(cross_units * 1_000_000_000) <= ra * db - rb * da <= cross_units * 1_000_000_000,
    ensures
        ({
            let s: int = 1_000_000_000;
            let s3: int = 1_000_000_000_000_000_000_000_000_000;
            -(cross_units + 12_200) * s3 <= s * ((ra * da + rb * db) * da) - s3 * ra <= (cross_units
                + 12_200) * s3
        }),
{
    let s: int = 1_000_000_000;
    let ss: int = 1_000_000_000_000_000_000;
    let s3: int = 1_000_000_000_000_000_000_000_000_000;
    let n2 = da * da + db * db;
    let cross = ra * db - rb * da;
    let p = ra * da + rb * db;
    assert(p * da - ss * ra == ra * (n2 - ss) - db * cross) by (nonlinear_arith)
        requires
            n2 == da * da + db * db,
            cross == ra * db - rb * da,
            p == ra * da + rb * db,
    ;
    assert(-3_999_999_996 <= n2 - ss <= 6_000_000_009) by (nonlinear_arith)
        requires
            999_999_998 * 999_999_998 <= n2 < 1_000_000_003 * 1_000_000_003,
            ss == 1_000_000_000_000_000_000,
    ;
    let d = n2 - ss;
    let x1 = ra * d;
    assert(-12_100_000_000_000_000_000_000 <= x1 <= 12_100_000_000_000_000_000_000)
        by (nonlinear_arith)
        requires
            x1 == ra * d,
            -2_000_000_001_203 <= ra <= 2_000_000_001_203,
            -3_999_999_996 <= d <= 6_000_000_009,
    ;
    let x2 = db * cross;
    let cu = cross_units * 1_000_000_000;
    assert(-(1_000_000_001 * cu) <= x2 <= 1_000_000_001 * cu) by (nonlinear_arith)
        requires
            x2 == db * cross,
            -1_000_000_001 <= db <= 1_000_000_001,
            -cu <= cross <= cu,
    ;
    let y = p * da - ss * ra;
    assert(s * (p * da) - s3 * ra == s * y) by (nonlinear_arith)
        requires
            y == p * da - ss * ra,
            s3 == s * ss,
    ;
    assert(-(cross_units + 12_200) * s3 <= s * y <= (cross_units + 12_200) * s3)
        by (nonlinear_arith)
        requires
            -(12_100_000_000_000_000_000_000 + 1_000_000_001 * cu) <= y
                <= 12_100_000_000_000_000_000_000 + 1_000_000_001 * cu,
            cu == cross_units * 1_000_000_000,
            0 <= cross_units <= 8_004_010,
            s == 1_000_000_000,
            s3 == 1_000_000_000_000_000_000_000_000_000,
    ;
}

/// The weight of the solved control point does not vanish: between the
/// parameters 0.01 and 0.99 it is at least 0.000149999.
#[verifier::rlimit(50)]
pub proof fn lemma_weight_kx_floor(t: Fixed)
    requires
        10_000_000 <= t@ <= 990_000_000,
    ensures
        149_999 <= weight_kx(t)@ <= 3 * SCALE + 1,
{
    let s = SCALE as int;
    let u = s - t@;
    lemma_weights(t);
    let ss = s * s;
    assert(ss == 1_000_000_000_000_000_000) by (nonlinear_arith)
        requires
            ss == s * s,
            s == 1_000_000_000,
    ;
    let uu = u * u;
    assert(uu >= 100_000_000_000_000 && (t@ <= 500_000_000 ==> uu >= 250_000_000_000_000_000))
        by (nonlinear_arith)
        requires
            uu == u * u,
            u >= 10_000_000,
            t@ <= 500_000_000 ==> u >= 500_000_000,
    ;
    let e = 3 * u * u * t@;
    assert(e == 3 * (uu * t@)) by (nonlinear_arith)
        requires
            e == 3 * u * u * t@,
            uu == u * u,
    ;
    assert(uu * t@ >= 50_000_000_000_000_000_000_000) by (nonlinear_arith)
        requires
            uu >= 100_000_000_000_000,
            t@ <= 500_000_000 ==> uu >= 250_000_000_000_000_000,
            10_000_000 <= t@,
    ;
    let w = weight_kx(t)@;
    assert(w >= 149_999) by (nonlinear_arith)
        requires
            -ss <= w * ss - e <= ss,
            e >= 150_000_000_000_000_000_000_000,
            ss == 1_000_000_000_000_000_000,
    ;
}

/// The coordinate of the point at the parameter `t` of the Bezier arc with
/// the control coordinates `p0` to `p3`, not rounded, times 10^27.
pub open spec fn bezier_scaled(p0: int, p1: int, p2: int, p3: int, t: int) -> int {
    let u = SCALE - t;
    u * u * u * p0 + 3 * (u * u * t) * p1 + 3 * u * t * t * p2 + t * t * t * p3
}

/// The arc with the second control point moved by `l` from the first is
/// the sum of the placed points and the weight of the second times `l`.
proof fn lemma_bezier_split(k: int, l: int, cx: int, c1: int, t: int)
    ensures
        bezier_scaled(k, k + l, cx, c1, t) == placed_sum(t, k, cx, c1) + 3 * (SCALE - t) * (SCALE
            - t) * t * l,
{
    let s = SCALE as int;
    let u = s - t;
    let uu = u * u;
    let a3 = u * u * u;
    let b3 = u * u * t;
    assert(a3 == uu * u && b3 == uu * t);
    assert(a3 + 3 * b3 == uu * (s + 2 * t)) by (nonlinear_arith)
        requires
            a3 == uu * u,
            b3 == uu * t,
            u == s - t,
    ;
    assert(a3 * k + 3 * b3 * (k + l) == (a3 + 3 * b3) * k + 3 * b3 * l) by (nonlinear_arith);
    assert(3 * u * u * t * l == 3 * b3 * l) by (nonlinear_arith)
        requires
            b3 == u * u * t,
    ;
    assert(u * u * (s + 2 * t) * k == (a3 + 3 * b3) * k) by (nonlinear_arith)
        requires
            a3 + 3 * b3 == uu * (s + 2 * t),
            uu == u * u,
    ;
}

/// One coordinate of the solved arc at the solved parameter: where the
/// cross product of the rest of the target with the direction is within
/// `cross_units`, the arc passes the target at no more than that, 13100
/// units, and a thousand-millionth of the distance from `K` to the solved
/// control point, which is no more than 266670 m.
#[verifier::rlimit(50)]
pub proof fn lemma_through_coordinate(
    t: Fixed,
    ka: Fixed,
    cxa: Fixed,
    c1a: Fixed,
    ta: Fixed,
    rb: Fixed,
    da: Fixed,
    db: Fixed,
    dotv: Fixed,
    cross_units: int,
)
    requires
        10_000_000 <= t@ <= 990_000_000,
        0 <= cross_units <= 8_004_010,
        -200 * SCALE <= ka@ <= 200 * SCALE,
        -200 * SCALE <= cxa@ <= 200 * SCALE,
        -200 * SCALE <= c1a@ <= 200 * SCALE,
        -200 * SCALE <= ta@ <= 200 * SCALE,
        -2_000_000_001_203 <= rb@ <= 2_000_000_001_203,
        -1_000_000_001 <= da@ <= 1_000_000_001,
        -1_000_000_001 <= db@ <= 1_000_000_001,
        999_999_998 * 999_999_998 <= da@ * da@ + db@ * db@ < 1_000_000_003 * 1_000_000_003,
        -4_000_000_010_000 <= dotv@ <= 4_000_000_010_000,
        ({
            let ra = offset_coordinate(t, ka, cxa, c1a, ta)@;
            &&& -1_000_000_000 <= dotv@ * 1_000_000_000 - (ra * da@ + rb@ * db@) <= 1_000_000_000
            &&& -(cross_units * 1_000_000_000) <= ra * db@ - rb@ * da@ <= cross_units
                * 1_000_000_000
        }),
    ensures
        ({
            let ss: int = 1_000_000_000_000_000_000;
            let s3: int = 1_000_000_000_000_000_000_000_000_000;
            let kxa = ka.add(dotv.div(weight_kx(t)).mul(da));
            let far = size(kxa@ - ka@);
            let most = (cross_units + 13_100) * s3 + far * ss;
            &&& far <= 26_667_000_100_000_000
            &&& -most <= bezier_scaled(ka@, kxa@, cxa@, c1a@, t@) - ta@ * s3 <= most
        }),
{
    let s: int = 1_000_000_000;
    let ss: int = 1_000_000_000_000_000_000;
    let s3: int = 1_000_000_000_000_000_000_000_000_000;
    assert(SCALE == s);
    assert(s * s == ss && s * ss == s3) by (nonlinear_arith)
        requires
            s == 1_000_000_000,
            ss == 1_000_000_000_000_000_000,
            s3 == 1_000_000_000_000_000_000_000_000_000,
    ;
    let u = s - t@;
    let ra = offset_coordinate(t, ka, cxa, c1a, ta)@;
    lemma_offset_coordinate(t, ka, cxa, c1a, ta);
    let placed = placed_sum(t@, ka@, cxa@, c1a@);
    let e1 = ra * s3 - (ta@ * s3 - placed);
    // the weight of the solved control point
    lemma_weights(t);
    lemma_weight_kx_floor(t);
    let co = weight_kx(t)@;
    let c3 = 3 * u * u * t@;
    let e_co = co * ss - c3;
    assert(-ss <= e_co <= ss);
    // how far along the direction the control point lies
    lemma_round_div_nearest(dotv@ * s, co);
    let qa = round_div(dotv@ * s, co);
    let e_a = qa * co - dotv@ * s;
    let ds = dotv@ * s;
    assert(-4_000_000_010_000 * s <= ds <= 4_000_000_010_000 * s);
    assert(-26_667_000_000_000_000 <= qa <= 26_667_000_000_000_000) by (nonlinear_arith)
        requires
            -co <= 2 * (qa * co - ds) <= co,
            149_999 <= co,
            -4_000_000_010_000_000_000_000 <= ds <= 4_000_000_010_000_000_000_000,
    ;
    let along = dotv.div(weight_kx(t));
    assert(along@ == qa);
    lemma_mul_step(
        along,
        along,
        da,
        da,
        26_667_000_000_000_000,
        1_000_000_001,
        0,
        0,
        26_667_000_100_000_000,
        1,
    );
    lemma_round_div_nearest(along@ * da@, s);
    let lx = along.mul(da)@;
    assert(lx == round_div(along@ * da@, s));
    let e_l = lx * s - qa * da@;
    let kxa = ka.add(along.mul(da));
    assert(kxa@ == ka@ + lx);
    lemma_bezier_split(ka@, lx, cxa@, c1a@, t@);
    let bez = bezier_scaled(ka@, kxa@, cxa@, c1a@, t@);
    assert(bez == placed + c3 * lx) by (nonlinear_arith)
        requires
            bez == placed + 3 * u * u * t@ * lx,
            c3 == 3 * u * u * t@,
    ;
    // the weight times the distance is the projection and small errors
    let p = ra * da@ + rb@ * db@;
    let e_d = ds - p;
    let x1 = co * lx;
    assert(c3 * lx == ss * x1 - e_co * lx) by (nonlinear_arith)
        requires
            e_co == co * ss - c3,
            x1 == co * lx,
    ;
    assert(s * x1 == qa * co * da@ + co * e_l) by (nonlinear_arith)
        requires
            x1 == co * lx,
            e_l == lx * s - qa * da@,
    ;
    assert(qa * co * da@ == p * da@ + e_d * da@ + e_a * da@) by (nonlinear_arith)
        requires
            e_a == qa * co - ds,
            e_d == ds - p,
    ;
    let pd = p * da@;
    let x2 = e_d * da@;
    let x3 = e_a * da@;
    let x4 = co * e_l;
    let x5 = e_co * lx;
    assert(ss * x1 == s * (s * x1)) by (nonlinear_arith)
        requires
            ss == s * s,
    ;
    assert(s * (s * x1) == s * pd + s * x2 + s * x3 + s * x4) by (nonlinear_arith)
        requires
            s * x1 == pd + x2 + x3 + x4,
    ;
    assert(-1_000_000_001_000_000_000 <= x2 <= 1_000_000_001_000_000_000) by (nonlinear_arith)
        requires
            x2 == e_d * da@,
            -1_000_000_000 <= e_d <= 1_000_000_000,
            -1_000_000_001 <= da@ <= 1_000_000_001,
    ;
    assert(-1_600_000_000_000_000_000 <= x3 <= 1_600_000_000_000_000_000) by (nonlinear_arith)
        requires
            x3 == e_a * da@,
            -co <= 2 * e_a <= co,
            co <= 3_000_000_001,
            -1_000_000_001 <= da@ <= 1_000_000_001,
    ;
    assert(-1_600_000_000_000_000_000 <= x4 <= 1_600_000_000_000_000_000) by (nonlinear_arith)
        requires
            x4 == co * e_l,
            -s <= 2 * e_l <= s,
            0 <= co <= 3_000_000_001,
            s == 1_000_000_000,
    ;
    let far = size(lx);
    assert(-(far * ss) <= x5 <= far * ss) by (nonlinear_arith)
        requires
            x5 == e_co * lx,
            -ss <= e_co <= ss,
            -far <= lx <= far,
    ;
    lemma_projection(ra, rb@, da@, db@, cross_units);
    assert(s * ((ra * da@ + rb@ * db@) * da@) == s * pd);
    // all together
    let proj = s * pd - s3 * ra;
    let sx2 = s * x2;
    let sx3 = s * x3;
    let sx4 = s * x4;
    assert(bez - ta@ * s3 == e1 + proj + sx2 + sx3 + sx4 - x5);
    let cs = (cross_units + 12_200) * s3;
    assert((cross_units + 13_100) * s3 == cs + 900 * s3) by (nonlinear_arith)
        requires
            cs == (cross_units + 12_200) * s3,
    ;
    assert(-2 * s3 <= sx2 <= 2 * s3 && -2 * s3 <= sx3 <= 2 * s3 && -2 * s3 <= sx4 <= 2 * s3);
}

/// Both coordinates of the solved arc at the solved parameter: where the
/// cross product of the rest of the target with the direction of the
/// solved control point is within `cross_units` less two, each coordinate
/// of the arc passes the target as [`lemma_through_coordinate`] states.
#[verifier::rlimit(50)]
proof fn lemma_through_both(pts: CorsetPoints, target: Point2, depth: Fixed, cross_units: int)
    requires
        armhole_controls(pts, target, depth) is Ok,
        armhole_parameter(pts, target, depth) is Ok,
        within_two_metres(pts.k),
        within_two_metres(pts.c1),
        within_two_metres(target),
        within_two_metres(armhole_low_control(pts, target, depth)),
        2 <= cross_units <= 8_004_010,
        ({
            let t = armhole_parameter(pts, target, depth)->Ok_0;
            let cx = armhole_low_control(pts, target, depth);
            let dir = armhole_high_direction(pts, target);
            -(cross_units - 2) <= armhole_residual(t, pts.k, cx, pts.c1, target, dir)@
                <= cross_units - 2
        }),
    ensures
        ({
            let ss: int = 1_000_000_000_000_000_000;
            let s3: int = 1_000_000_000_000_000_000_000_000_000;
            let t = armhole_parameter(pts, target, depth)->Ok_0@;
            let cx = armhole_controls(pts, target, depth)->Ok_0.0;
            let kx = armhole_controls(pts, target, depth)->Ok_0.1;
            let far_x = size(kx.x@ - pts.k.x@);
            let far_y = size(kx.y@ - pts.k.y@);
            let most_x = (cross_units + 13_100) * s3 + far_x * ss;
            let most_y = (cross_units + 13_100) * s3 + far_y * ss;
            &&& cx == armhole_low_control(pts, target, depth)
            &&& far_x <= 26_667_000_100_000_000
            &&& far_y <= 26_667_000_100_000_000
            &&& -most_x <= bezier_scaled(pts.k.x@, kx.x@, cx.x@, pts.c1.x@, t) - target.x@ * s3
                <= most_x
            &&& -most_y <= bezier_scaled(pts.k.y@, kx.y@, cx.y@, pts.c1.y@, t) - target.y@ * s3
                <= most_y
        }),
{
    reveal(armhole_controls);
    let s: int = 1_000_000_000;
    assert(SCALE == s);
    let cx = armhole_low_control(pts, target, depth);
    let dir = armhole_high_direction(pts, target);
    let k = pts.k;
    let c1 = pts.c1;
    let f = |t: Fixed| armhole_residual(t, k, cx, c1, target, dir);
    let a = Fixed::from_hundredths(1);
    let b = Fixed::from_hundredths(99);
    assert(opposite_signs(f(a), f(b)));
    lemma_final_bracket(f, f(a).is_negative(), a, b, tolerance());
    let t = armhole_parameter(pts, target, depth)->Ok_0;
    assert(10_000_000 <= t@ <= 990_000_000);
    // the direction is one long
    let across = crate::math::perp(crate::math::sub(pts.h, pts.k));
    let unit = crate::math::normalize(across);
    let toward = crate::math::sub(target, pts.k);
    assert(dir == oriented(unit, toward));
    lemma_oriented_bounded(Point2::origin(), toward);
    if across.x@ == 0 && across.y@ == 0 {
        assert(unit == Point2::origin());
        lemma_times_zero(armhole_offset(a, k, cx, c1, target).x, dir.y);
        lemma_times_zero(armhole_offset(a, k, cx, c1, target).y, dir.x);
        assert(f(a)@ == 0);
        assert(false);
    }
    crate::math::lemma_normalize_unit(across);
    lemma_oriented_bounded(unit, toward);
    lemma_unit_square(unit);
    assert(dir.x@ * dir.x@ + dir.y@ * dir.y@ == unit.x@ * unit.x@ + unit.y@ * unit.y@) by {
        if dir != unit {
            lemma_negated(unit.x);
            lemma_negated(unit.y);
            assert(dir.x@ == -unit.x@ && dir.y@ == -unit.y@);
            assert(dir.x@ * dir.x@ == unit.x@ * unit.x@ && dir.y@ * dir.y@ == unit.y@ * unit.y@)
                by (nonlinear_arith)
                requires
                    dir.x@ == -unit.x@,
                    dir.y@ == -unit.y@,
            ;
        }
    }
    // the rest of the target, its product and its cross product with it
    let r = armhole_offset(t, k, cx, c1, target);
    assert(r.x == offset_coordinate(t, k.x, cx.x, c1.x, target.x));
    assert(r.y == offset_coordinate(t, k.y, cx.y, c1.y, target.y));
    lemma_offset_coordinate(t, k.x, cx.x, c1.x, target.x);
    lemma_offset_coordinate(t, k.y, cx.y, c1.y, target.y);
    lemma_product(r.x, dir.x);
    lemma_product(r.y, dir.y);
    lemma_product(r.x, dir.y);
    lemma_product(r.y, dir.x);
    let dotv = crate::math::dot(r, dir);
    assert(dotv@ == r.x.mul(dir.x)@ + r.y.mul(dir.y)@);
    let res = armhole_residual(t, k, cx, c1, target, dir);
    assert(res@ == r.x.mul(dir.y)@ - r.y.mul(dir.x)@);
    let along = dotv.div(weight_kx(t));
    let kx = armhole_controls(pts, target, depth)->Ok_0.1;
    assert(kx.x == k.x.add(along.mul(dir.x)));
    assert(kx.y == k.y.add(along.mul(dir.y)));
    lemma_through_coordinate(t, k.x, cx.x, c1.x, target.x, r.y, dir.x, dir.y, dotv, cross_units);
    lemma_through_coordinate(t, k.y, cx.y, c1.y, target.y, r.x, dir.y, dir.x, dotv, cross_units);
}

/// The solved armhole curve passes through its target: for landmarks,
/// target and placed control point within two metres of the axes, the
/// point of the Bezier arc from `K` over the solved and the placed control
/// point to `C1`, at the parameter that was solved for, lies within 35
/// million units of the target in each coordinate, that is 0.035 cm.
#[verifier::rlimit(50)]
pub proof fn lemma_armhole_through_target(pts: CorsetPoints, target: Point2, depth: Fixed)
    requires
        armhole_controls(pts, target, depth) is Ok,
        within_two_metres(pts.k),
        within_two_metres(pts.c1),
        within_two_metres(target),
        within_two_metres(armhole_low_control(pts, target, depth)),
    ensures
        armhole_parameter(pts, target, depth) is Ok,
        ({
            let s3: int = 1_000_000_000_000_000_000_000_000_000;
            let t = armhole_parameter(pts, target, depth)->Ok_0@;
            let cx = armhole_controls(pts, target, depth)->Ok_0.0;
            let kx = armhole_controls(pts, target, depth)->Ok_0.1;
            &&& cx == armhole_low_control(pts, target, depth)
            &&& -35_000_000 * s3 <= bezier_scaled(pts.k.x@, kx.x@, cx.x@, pts.c1.x@, t) - target.x@
                * s3 <= 35_000_000 * s3
            &&& -35_000_000 * s3 <= bezier_scaled(pts.k.y@, kx.y@, cx.y@, pts.c1.y@, t) - target.y@
                * s3 <= 35_000_000 * s3
        }),
{
    reveal(armhole_controls);
    lemma_armhole_residual_small(pts, target, depth);
    lemma_through_both(pts, target, depth, 8_004_010);
    let ss: int = 1_000_000_000_000_000_000;
    let s3: int = 1_000_000_000_000_000_000_000_000_000;
    let kx = armhole_controls(pts, target, depth)->Ok_0.1;
    let fx = size(kx.x@ - pts.k.x@);
    let fy = size(kx.y@ - pts.k.y@);
    assert(fx * ss <= 26_667_001 * s3 && fy * ss <= 26_667_001 * s3) by (nonlinear_arith)
        requires
            0 <= fx <= 26_667_000_100_000_000,
            0 <= fy <= 26_667_000_100_000_000,
            ss == 1_000_000_000_000_000_000,
            s3 == 1_000_000_000_000_000_000_000_000_000,
    ;
}

/// The point `p` lies within forty centimetres of `q` along both axes.
pub open spec fn close_to(p: Point2, q: Point2) -> bool {
    &&& -40 * SCALE <= p.x@ - q.x@ <= 40 * SCALE
    &&& -40 * SCALE <= p.y@ - q.y@ <= 40 * SCALE
}

/// The exact weights of the three placed points add up to one, and over
/// five hundred units of the parameter none of them changes by more than
/// three millionths.
#[verifier::rlimit(50)]
pub proof fn lemma_exact_weights_step(t: int, t2: int)
    requires
        0 <= t <= t2 <= SCALE,
        t2 - t <= 500,
    ensures
        ({
            let s = SCALE as int;
            let ss: int = 1_000_000_000_000_000_000;
            let s3: int = 1_000_000_000_000_000_000_000_000_000;
            let u = s - t;
            let u2 = s - t2;
            let ek = u * u * (s + 2 * t);
            let ecx = 3 * u * t * t;
            let ec1 = t * t * t;
            let ek2 = u2 * u2 * (s + 2 * t2);
            let ecx2 = 3 * u2 * t2 * t2;
            let ec12 = t2 * t2 * t2;
            &&& ek + ecx + ec1 == s3
            &&& ek2 + ecx2 + ec12 == s3
            &&& -3_000 * ss <= ek2 - ek <= 3_000 * ss
            &&& -3_000 * ss <= ecx2 - ecx <= 3_000 * ss
            &&& -3_000 * ss <= ec12 - ec1 <= 3_000 * ss
        }),
{
    let s: int = 1_000_000_000;
    let ss: int = 1_000_000_000_000_000_000;
    let s3: int = 1_000_000_000_000_000_000_000_000_000;
    assert(SCALE == s);
    let u = s - t;
    let u2 = s - t2;
    let d = t2 - t;
    let a = u * u;
    let a2 = u2 * u2;
    let c = t * t;
    let c2 = t2 * t2;
    let b = s + 2 * t;
    let b2 = s + 2 * t2;
    lemma_weights_sum(t);
    lemma_weights_sum(t2);
    assert(0 <= a2 <= ss && 0 <= c <= ss && 0 <= c2 <= ss) by (nonlinear_arith)
        requires
            a2 == u2 * u2,
            c == t * t,
            c2 == t2 * t2,
            0 <= u2 <= s,
            0 <= t <= s,
            0 <= t2 <= s,
            ss == s * s,
    ;
    assert(a - a2 == d * (u + u2) && c2 - c == d * (t + t2)) by (nonlinear_arith)
        requires
            a == u * u,
            a2 == u2 * u2,
            c == t * t,
            c2 == t2 * t2,
            u == u2 + d,
            t2 == t + d,
    ;
    assert(0 <= d * (u + u2) <= 1_000 * s && 0 <= d * (t + t2) <= 1_000 * s) by (nonlinear_arith)
        requires
            0 <= d <= 500,
            0 <= u + u2 <= 2 * s,
            0 <= t + t2 <= 2 * s,
    ;
    let da = a - a2;
    let dc = c2 - c;
    // the weight of K
    let ek = u * u * b;
    let ek2 = u2 * u2 * b2;
    let x1 = a2 * d;
    let x2 = da * b;
    assert(ek2 - ek == 2 * x1 - x2) by (nonlinear_arith)
        requires
            ek == a * b,
            ek2 == a2 * b2,
            b2 == b + 2 * d,
            da == a - a2,
            x1 == a2 * d,
            x2 == da * b,
    ;
    assert(0 <= x1 <= 500 * ss && 0 <= x2 <= 3_000 * ss) by (nonlinear_arith)
        requires
            x1 == a2 * d,
            x2 == da * b,
            0 <= a2 <= ss,
            0 <= d <= 500,
            0 <= da <= 1_000 * s,
            0 <= b <= 3 * s,
            ss == s * s,
    ;
    // the weight of the placed control point
    let ecx = 3 * u * t * t;
    let ecx2 = 3 * u2 * t2 * t2;
    let y1 = u2 * dc;
    let y2 = d * c;
    assert(ecx == 3 * (u * c) && ecx2 == 3 * (u2 * c2)) by (nonlinear_arith)
        requires
            ecx == 3 * u * t * t,
            ecx2 == 3 * u2 * t2 * t2,
            c == t * t,
            c2 == t2 * t2,
    ;
    assert(u2 * c2 - u * c == y1 - y2) by (nonlinear_arith)
        requires
            y1 == u2 * dc,
            y2 == d * c,
            dc == c2 - c,
            u == u2 + d,
    ;
    assert(0 <= y1 <= 1_000 * ss && 0 <= y2 <= 500 * ss) by (nonlinear_arith)
        requires
            y1 == u2 * dc,
            y2 == d * c,
            0 <= u2 <= s,
            0 <= dc <= 1_000 * s,
            0 <= d <= 500,
            0 <= c <= ss,
            ss == s * s,
    ;
    // the weight of C1
    let ec1 = t * t * t;
    let ec12 = t2 * t2 * t2;
    let z1 = dc * t;
    let z2 = c2 * d;
    assert(ec12 - ec1 == z1 + z2) by (nonlinear_arith)
        requires
            ec1 == c * t,
            ec12 == c2 * t2,
            t2 == t + d,
            dc == c2 - c,
            z1 == dc * t,
            z2 == c2 * d,
    ;
    assert(0 <= z1 <= 1_000 * ss && 0 <= z2 <= 500 * ss) by (nonlinear_arith)
        requires
            z1 == dc * t,
            z2 == c2 * d,
            0 <= t <= s,
            0 <= dc <= 1_000 * s,
            0 <= d <= 500,
            0 <= c2 <= ss,
            ss == s * s,
    ;
}

/// The exact weights of the three placed points add up to one.
proof fn lemma_weights_sum(t: int)
    ensures
        ({
            let s = SCALE as int;
            let u = s - t;
            u * u * (s + 2 * t) + 3 * u * t * t + t * t * t
                == 1_000_000_000_000_000_000_000_000_000
        }),
{
    let s: int = 1_000_000_000;
    assert(SCALE == s);
    let u = s - t;
    let uu = u * u;
    let tt = t * t;
    let ek = u * u * (s + 2 * t);
    let ecx = 3 * u * t * t;
    let ec1 = t * t * t;
    assert(ek == uu * u + 3 * (uu * t)) by (nonlinear_arith)
        requires
            ek == uu * (s + 2 * t),
            s == u + t,
    ;
    assert(ecx == 3 * (u * tt) && ec1 == tt * t) by (nonlinear_arith)
        requires
            ecx == 3 * u * t * t,
            ec1 == t * t * t,
            tt == t * t,
    ;
    let w = u + t;
    let ww = w * w;
    assert(ww == uu + 2 * (u * t) + tt) by (nonlinear_arith)
        requires
            ww == (u + t) * (u + t),
            uu == u * u,
            tt == t * t,
    ;
    assert(ww * w == uu * u + 3 * (uu * t) + 3 * (u * tt) + tt * t) by (nonlinear_arith)
        requires
            ww == uu + 2 * (u * t) + tt,
            w == u + t,
            uu == u * u,
            tt == t * t,
    ;
    assert(ww * w == 1_000_000_000_000_000_000_000_000_000) by (nonlinear_arith)
        requires
            ww == w * w,
            w == 1_000_000_000,
    ;
}

/// The exact sum of the weighted placed points changes little with the
/// parameter where the points lie close to the target: over five hundred
/// units of the parameter, by no more than 360000 units.
#[verifier::rlimit(50)]
pub proof fn lemma_placed_sum_step(t: int, t2: int, k: int, cx: int, c1: int, target: int)
    requires
        0 <= t <= t2 <= SCALE,
        t2 - t <= 500,
        -40 * SCALE <= k - target <= 40 * SCALE,
        -40 * SCALE <= cx - target <= 40 * SCALE,
        -40 * SCALE <= c1 - target <= 40 * SCALE,
    ensures
        ({
            let s3: int = 1_000_000_000_000_000_000_000_000_000;
            -360_000 * s3 <= placed_sum(t2, k, cx, c1) - placed_sum(t, k, cx, c1) <= 360_000 * s3
        }),
{
    let s: int = 1_000_000_000;
    let ss: int = 1_000_000_000_000_000_000;
    let s3: int = 1_000_000_000_000_000_000_000_000_000;
    assert(SCALE == s);
    lemma_exact_weights_step(t, t2);
    let u = s - t;
    let u2 = s - t2;
    let ek = u * u * (s + 2 * t);
    let ecx = 3 * u * t * t;
    let ec1 = t * t * t;
    let ek2 = u2 * u2 * (s + 2 * t2);
    let ecx2 = 3 * u2 * t2 * t2;
    let ec12 = t2 * t2 * t2;
    let p = placed_sum(t, k, cx, c1);
    let p2 = placed_sum(t2, k, cx, c1);
    assert(p == ek * k + ecx * cx + ec1 * c1);
    assert(p2 == ek2 * k + ecx2 * cx + ec12 * c1);
    let qk = k - target;
    let qx = cx - target;
    let q1 = c1 - target;
    let gk = ek2 - ek;
    let gx = ecx2 - ecx;
    let g1 = ec12 - ec1;
    assert(gk + gx + g1 == 0);
    assert(p2 - p == gk * k + gx * cx + g1 * c1) by (nonlinear_arith)
        requires
            p == ek * k + ecx * cx + ec1 * c1,
            p2 == ek2 * k + ecx2 * cx + ec12 * c1,
            gk == ek2 - ek,
            gx == ecx2 - ecx,
            g1 == ec12 - ec1,
    ;
    assert(gk * k + gx * cx + g1 * c1 == gk * qk + gx * qx + g1 * q1) by (nonlinear_arith)
        requires
            gk + gx + g1 == 0,
            qk == k - target,
            qx == cx - target,
            q1 == c1 - target,
    ;
    lemma_product_size(gk, qk, 3_000 * ss, 40 * s);
    lemma_product_size(gx, qx, 3_000 * ss, 40 * s);
    lemma_product_size(g1, q1, 3_000 * ss, 40 * s);
    assert((3_000 * ss) * (40 * s) == 120_000 * s3);
}

/// One coordinate of what is left of the target changes little with the
/// parameter where the placed points lie close to the target: over five
/// hundred units of the parameter, by no more than 361604 units.
#[verifier::rlimit(50)]
pub proof fn lemma_offset_half_step(
    t: Fixed,
    t2: Fixed,
    k: Fixed,
    cx: Fixed,
    c1: Fixed,
    target: Fixed,
)
    requires
        0 <= t@ <= t2@ <= SCALE,
        t2@ - t@ <= 500,
        -200 * SCALE <= k@ <= 200 * SCALE,
        -200 * SCALE <= cx@ <= 200 * SCALE,
        -200 * SCALE <= c1@ <= 200 * SCALE,
        -200 * SCALE <= target@ <= 200 * SCALE,
        -40 * SCALE <= k@ - target@ <= 40 * SCALE,
        -40 * SCALE <= cx@ - target@ <= 40 * SCALE,
        -40 * SCALE <= c1@ - target@ <= 40 * SCALE,
    ensures
        -361_604 <= offset_coordinate(t2, k, cx, c1, target)@ - offset_coordinate(
            t,
            k,
            cx,
            c1,
            target,
        )@ <= 361_604,
{
    lemma_offset_coordinate(t, k, cx, c1, target);
    lemma_offset_coordinate(t2, k, cx, c1, target);
    lemma_placed_sum_step(t@, t2@, k@, cx@, c1@, target@);
}

/// The residual changes little with the parameter where the placed points
/// lie close to the target: for points within two metres of the axes and
/// forty centimetres of the target and a direction no longer than one, two
/// parameters that are no more than five hundred units apart give
/// residuals no more than 723210 units apart.
#[verifier::rlimit(50)]
pub proof fn lemma_residual_half_step(
    t: Fixed,
    t2: Fixed,
    k: Point2,
    cx: Point2,
    c1: Point2,
    target: Point2,
    dir: Point2,
)
    requires
        0 <= t@ <= t2@ <= SCALE,
        t2@ - t@ <= 500,
        within_two_metres(k),
        within_two_metres(cx),
        within_two_metres(c1),
        within_two_metres(target),
        close_to(k, target),
        close_to(cx, target),
        close_to(c1, target),
        -SCALE - 1 <= dir.x@ <= SCALE + 1,
        -SCALE - 1 <= dir.y@ <= SCALE + 1,
    ensures
        -723_210 <= armhole_residual(t2, k, cx, c1, target, dir)@ - armhole_residual(
            t,
            k,
            cx,
            c1,
            target,
            dir,
        )@ <= 723_210,
{
    let r = armhole_offset(t, k, cx, c1, target);
    let r2 = armhole_offset(t2, k, cx, c1, target);
    assert(r.x == offset_coordinate(t, k.x, cx.x, c1.x, target.x));
    assert(r.y == offset_coordinate(t, k.y, cx.y, c1.y, target.y));
    assert(r2.x == offset_coordinate(t2, k.x, cx.x, c1.x, target.x));
    assert(r2.y == offset_coordinate(t2, k.y, cx.y, c1.y, target.y));
    lemma_offset_coordinate(t, k.x, cx.x, c1.x, target.x);
    lemma_offset_coordinate(t, k.y, cx.y, c1.y, target.y);
    lemma_offset_coordinate(t2, k.x, cx.x, c1.x, target.x);
    lemma_offset_coordinate(t2, k.y, cx.y, c1.y, target.y);
    lemma_offset_half_step(t, t2, k.x, cx.x, c1.x, target.x);
    lemma_offset_half_step(t, t2, k.y, cx.y, c1.y, target.y);
    lemma_mul_step(
        r.x,
        r2.x,
        dir.y,
        dir.y,
        2_000_000_001_203,
        1_000_000_001,
        361_604,
        0,
        2_000_000_003_204,
        361_605,
    );
    lemma_mul_step(
        r.y,
        r2.y,
        dir.x,
        dir.x,
        2_000_000_001_203,
        1_000_000_001,
        361_604,
        0,
        2_000_000_003_204,
        361_605,
    );
}

/// At the parameter that is solved for, the rest of the target lies along
/// the direction of the solved control point: for landmarks, target and
/// placed control point within two metres of the axes, and `K`, `C1` and
/// the placed control point within forty centimetres of the target, its
/// cross product with that direction is no more than 723210 units either
/// way.
#[verifier::rlimit(50)]
pub proof fn lemma_armhole_residual_close(pts: CorsetPoints, target: Point2, depth: Fixed)
    requires
        armhole_parameter(pts, target, depth) is Ok,
        within_two_metres(pts.k),
        within_two_metres(pts.c1),
        within_two_metres(target),
        within_two_metres(armhole_low_control(pts, target, depth)),
        close_to(pts.k, target),
        close_to(pts.c1, target),
        close_to(armhole_low_control(pts, target, depth), target),
    ensures
        ({
            let t = armhole_parameter(pts, target, depth)->Ok_0;
            let cx = armhole_low_control(pts, target, depth);
            let dir = armhole_high_direction(pts, target);
            -723_210 <= armhole_residual(t, pts.k, cx, pts.c1, target, dir)@ <= 723_210
        }),
{
    let cx = armhole_low_control(pts, target, depth);
    let dir = armhole_high_direction(pts, target);
    let across = crate::math::perp(crate::math::sub(pts.h, pts.k));
    if across.x@ != 0 || across.y@ != 0 {
        lemma_normalize_unit(across);
    }
    lemma_oriented_bounded(crate::math::normalize(across), crate::math::sub(target, pts.k));
    let f = |t: Fixed| armhole_residual(t, pts.k, cx, pts.c1, target, dir);
    let a = Fixed::from_hundredths(1);
    let b = Fixed::from_hundredths(99);
    assert(opposite_signs(f(a), f(b)));
    let rising = f(a).is_negative();
    lemma_final_bracket(f, rising, a, b, tolerance());
    let end = final_bracket(f, rising, a, b, tolerance());
    let lo = end.0;
    let hi = end.1;
    let t = lo.midpoint(hi);
    assert(hi@ - lo@ <= 1_000);
    assert(lo@ <= t@ <= hi@);
    assert(t@ - lo@ <= 500 && hi@ - t@ <= 500);
    lemma_residual_half_step(lo, t, pts.k, cx, pts.c1, target, dir);
    lemma_residual_half_step(t, hi, pts.k, cx, pts.c1, target, dir);
}

/// The solved armhole curve passes through its target closely where the
/// points lie as they do in a bodice: for landmarks, target and both
/// control points within two metres of the axes, and `K`, `C1` and the
/// placed control point within forty centimetres of the target, the point
/// of the Bezier arc from `K` over the solved and the placed control point
/// to `C1`, at the parameter that was solved for, lies within 737000 units
/// of the target in each coordinate, that is 0.00074 cm.
#[verifier::rlimit(50)]
pub proof fn lemma_armhole_meets_target(pts: CorsetPoints, target: Point2, depth: Fixed)
    requires
        armhole_controls(pts, target, depth) is Ok,
        within_two_metres(pts.k),
        within_two_metres(pts.c1),
        within_two_metres(target),
        within_two_metres(armhole_low_control(pts, target, depth)),
        within_two_metres(armhole_controls(pts, target, depth)->Ok_0.1),
        close_to(pts.k, target),
        close_to(pts.c1, target),
        close_to(armhole_low_control(pts, target, depth), target),
    ensures
        armhole_parameter(pts, target, depth) is Ok,
        ({
            let s3: int = 1_000_000_000_000_000_000_000_000_000;
            let t = armhole_parameter(pts, target, depth)->Ok_0@;
            let cx = armhole_controls(pts, target, depth)->Ok_0.0;
            let kx = armhole_controls(pts, target, depth)->Ok_0.1;
            &&& cx == armhole_low_control(pts, target, depth)
            &&& -737_000 * s3 <= bezier_scaled(pts.k.x@, kx.x@, cx.x@, pts.c1.x@, t) - target.x@
                * s3 <= 737_000 * s3
            &&& -737_000 * s3 <= bezier_scaled(pts.k.y@, kx.y@, cx.y@, pts.c1.y@, t) - target.y@
                * s3 <= 737_000 * s3
        }),
{
    reveal(armhole_controls);
    lemma_armhole_residual_close(pts, target, depth);
    lemma_through_both(pts, target, depth, 723_212);
    let ss: int = 1_000_000_000_000_000_000;
    let s3: int = 1_000_000_000_000_000_000_000_000_000;
    let kx = armhole_controls(pts, target, depth)->Ok_0.1;
    let fx = size(kx.x@ - pts.k.x@);
    let fy = size(kx.y@ - pts.k.y@);
    assert(fx * ss <= 400 * s3 && fy * ss <= 400 * s3) by (nonlinear_arith)
        requires
            0 <= fx <= 400_000_000_000,
            0 <= fy <= 400_000_000_000,
            ss == 1_000_000_000_000_000_000,
            s3 == 1_000_000_000_000_000_000_000_000_000,
    ;
}

/// The placed control point of an armhole curve lies where the draft puts
/// it. For an underarm point `C1` and a side seam end `B1` within two
/// metres of the axes and apart, a target within two metres, and a depth
/// between one centimetre and two metres: the step from `C1` to the
/// control point is square to the side seam `B1 C1`, its scalar product
/// with the seam being no more than rounding allows; it is as long as the
/// depth, less two and more three parts in a thousand million and a unit
/// at most; and it does not point away from the target.
#[verifier::rlimit(50)]
pub proof fn lemma_low_control_placed(pts: CorsetPoints, target: Point2, depth: Fixed)
    requires
        within_two_metres(pts.c1),
        within_two_metres(pts.b1),
        within_two_metres(target),
        pts.c1.x@ != pts.b1.x@ || pts.c1.y@ != pts.b1.y@,
        SCALE <= depth@ <= 200 * SCALE,
    ensures
        ({
            let s = SCALE as int;
            let cx = armhole_low_control(pts, target, depth);
            let vx = cx.x@ - pts.c1.x@;
            let vy = cx.y@ - pts.c1.y@;
            let wx = pts.c1.x@ - pts.b1.x@;
            let wy = pts.c1.y@ - pts.b1.y@;
            let tx = target.x@ - pts.c1.x@;
            let ty = target.y@ - pts.c1.y@;
            let g = size(wx) + size(wy);
            let low = depth@ * (s - 2) - (s + 4);
            let high = depth@ * (s + 3) + s;
            &&& -(g * (depth@ + s)) <= 2 * s * (vx * wx + vy * wy) <= g * (depth@ + s)
            &&& 0 <= low
            &&& low * low <= s * s * (vx * vx + vy * vy) <= high * high
            &&& 2 * (vx * tx + vy * ty) >= -(2 * depth@ + size(tx) + size(ty))
        }),
{
    let s: int = 1_000_000_000;
    assert(SCALE == s);
    let d = depth@;
    let w = crate::math::sub(pts.c1, pts.b1);
    let wx = pts.c1.x@ - pts.b1.x@;
    let wy = pts.c1.y@ - pts.b1.y@;
    assert(w.x@ == wx && w.y@ == wy);
    let p = crate::math::perp(w);
    assert(p.x@ == -wy && p.y@ == wx);
    let n = crate::math::normalize(p);
    lemma_normalize_unit(p);
    lemma_normalize_parallel(p);
    lemma_unit_square(n);
    let toward = crate::math::sub(target, pts.c1);
    let tx = target.x@ - pts.c1.x@;
    let ty = target.y@ - pts.c1.y@;
    assert(toward.x@ == tx && toward.y@ == ty);
    let o = oriented(n, toward);
    let turned = crate::math::dot(n, toward)@ < 0;
    lemma_negated(n.x);
    lemma_negated(n.y);
    let sign: int = if turned {
        -1
    } else {
        1
    };
    let ox = o.x@;
    let oy = o.y@;
    assert(ox == sign * n.x@ && oy == sign * n.y@);
    // the side it points to
    lemma_mul_nearest(n.x, toward.x, 1_000_000_001, 400_000_000_000);
    lemma_mul_nearest(n.y, toward.y, 1_000_000_001, 400_000_000_000);
    let da = n.x.mul(toward.x)@;
    let db = n.y.mul(toward.y)@;
    assert(crate::math::dot(n, toward)@ == da + db);
    let nt = n.x@ * tx + n.y@ * ty;
    assert(-s <= da * s + db * s - nt <= s);
    let ot = ox * tx + oy * ty;
    assert(ot == sign * nt) by (nonlinear_arith)
        requires
            ot == ox * tx + oy * ty,
            nt == n.x@ * tx + n.y@ * ty,
            ox == sign * n.x@,
            oy == sign * n.y@,
    ;
    assert(ot >= -s) by (nonlinear_arith)
        requires
            ot == sign * nt,
            sign == 1 || sign == -1,
            sign == -1 ==> da + db <= -1,
            sign == 1 ==> da + db >= 0,
            -s <= da * s + db * s - nt <= s,
            s == 1_000_000_000,
    ;
    // the seam it is square to
    let nw = n.x@ * wx + n.y@ * wy;
    let gw = size(wx) + size(wy);
    assert(-gw <= 2 * nw <= gw) by (nonlinear_arith)
        requires
            nw == n.x@ * wx + n.y@ * wy,
            -gw <= 2 * (n.x@ * wx - n.y@ * (-wy)) <= gw,
    ;
    let ow = ox * wx + oy * wy;
    assert(ow == sign * nw) by (nonlinear_arith)
        requires
            ow == ox * wx + oy * wy,
            nw == n.x@ * wx + n.y@ * wy,
            ox == sign * n.x@,
            oy == sign * n.y@,
    ;
    assert(-gw <= 2 * ow <= gw);
    // the step, each coordinate rounded once
    let nn = n.x@ * n.x@ + n.y@ * n.y@;
    let oo = ox * ox + oy * oy;
    assert(oo == nn) by (nonlinear_arith)
        requires
            oo == ox * ox + oy * oy,
            nn == n.x@ * n.x@ + n.y@ * n.y@,
            ox == sign * n.x@,
            oy == sign * n.y@,
            sign == 1 || sign == -1,
    ;
    crate::math::lemma_unit_step(o, depth, wx, wy);
    crate::math::lemma_unit_step(o, depth, tx, ty);
    let step = crate::math::scale(depth, o);
    let vx = step.x@;
    let vy = step.y@;
    let cx = armhole_low_control(pts, target, depth);
    assert(cx.x@ == pts.c1.x@ + vx && cx.y@ == pts.c1.y@ + vy);
    // square to the seam
    lemma_product_size(d, 2 * ow, d, gw);
    assert(d * (2 * ow) == 2 * (d * ow) && d * gw == gw * d) by (nonlinear_arith);
    assert(gw * (d + s) == gw * d + s * gw) by (nonlinear_arith);
    let vw = vx * wx + vy * wy;
    assert(2 * s * vw == 2 * (s * vw));
    // towards the target
    let gt = size(tx) + size(ty);
    let vt = vx * tx + vy * ty;
    let dot = d * ot;
    assert(dot >= -(d * s)) by (nonlinear_arith)
        requires
            dot == d * ot,
            ot >= -s,
            d >= 0,
    ;
    assert(2 * vt >= -(2 * d + gt)) by (nonlinear_arith)
        requires
            -(s * gt) <= 2 * (s * vt - dot) <= s * gt,
            dot >= -(d * s),
            s == 1_000_000_000,
    ;
}

/// A value times zero is zero.
proof fn lemma_times_zero(x: Fixed, z: Fixed)
    requires
        z@ == 0,
    ensures
        x.mul(z)@ == 0,
{
    assert(x@ * z@ == 0) by (nonlinear_arith)
        requires
            z@ == 0,
    ;
    assert(round_div(0, SCALE as int) == 0);
}

/// The opposite of a coordinate of a unit vector is not rounded.
proof fn lemma_negated(x: Fixed)
    requires
        -1_000_000_001 <= x@ <= 1_000_000_001,
    ensures
        Fixed::one().neg().mul(x)@ == -x@,
{
    let s = SCALE as int;
    let minus = Fixed::one().neg();
    assert(minus@ == -s);
    lemma_round_div_nearest(minus@ * x@, s);
    let p = round_div(minus@ * x@, s);
    assert(p == -x@) by (nonlinear_arith)
        requires
            -s <= 2 * (p * s - (-s) * x@) <= s,
            s == 1_000_000_000,
    ;
}

/// A coordinate of the rest of the target times one of the direction,
/// rounded, is within half a unit of the exact product and no more than 20
/// metres and a little in size.
proof fn lemma_product(r: Fixed, d: Fixed)
    requires
        -2_000_000_001_203 <= r@ <= 2_000_000_001_203,
        -1_000_000_001 <= d@ <= 1_000_000_001,
    ensures
        -1_000_000_000 <= 2 * (r.mul(d)@ * 1_000_000_000 - r@ * d@) <= 1_000_000_000,
        -2_000_000_003_204 <= r.mul(d)@ <= 2_000_000_003_204,
{
    lemma_mul_step(r, r, d, d, 2_000_000_001_203, 1_000_000_001, 0, 0, 2_000_000_003_204, 1);
    lemma_round_div_nearest(r@ * d@, SCALE as int);
}

} // verus!
