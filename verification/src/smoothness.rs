//! How smooth the spline of `math` is where two of its pieces meet: first and
//! second derivative of the two pieces agree there up to a stated number of
//! units, for points that lie between one centimetre and one metre apart.

use crate::fixed::{
    floor_sqrt, lemma_div_whole, lemma_floor_sqrt_exists, lemma_mul_nearest, lemma_mul_whole,
    lemma_product_size, lemma_round_div_nearest, round_div, Fixed, SCALE,
};
use crate::math::{
    chord_length, chord_slope, eliminated_diag, eliminated_rhs, elimination_factor,
    second_derivative, spline_beziers, spline_diag, spline_rhs, spline_segment, start_slope,
    BezierSegment, Point2,
};
use vstd::prelude::*;

verus! {

/// One coordinate of `p`: `x` where `axis` holds, else `y`.
pub open spec fn along(p: Point2, axis: bool) -> Fixed {
    if axis {
        p.x
    } else {
        p.y
    }
}

/// Both coordinates of `p` are within two metres of the origin.
pub open spec fn near(p: Point2) -> bool {
    &&& -200 * SCALE <= p.x@ <= 200 * SCALE
    &&& -200 * SCALE <= p.y@ <= 200 * SCALE
}

/// At least three points, each within two metres of the origin, and
/// neighbours between one centimetre and one metre apart.
pub open spec fn well_spaced(points: Seq<Point2>) -> bool {
    &&& points.len() >= 3
    &&& forall|i: int| 0 <= i < points.len() ==> near(#[trigger] points[i])
    &&& forall|i: int|
        0 <= i < points.len() - 1 ==> SCALE <= (#[trigger] chord_length(points, i))@ <= 100 * SCALE
}

/// The chord between two neighbours is at least as long as either of its
/// coordinates, and its slope is the coordinate over the length, within
/// half a unit, and at most one.
#[verifier::rlimit(50)]
pub proof fn lemma_chord_slope(points: Seq<Point2>, i: int, axis: bool)
    requires
        well_spaced(points),
        0 <= i < points.len() - 1,
    ensures
        ({
            let h = chord_length(points, i)@;
            let d = along(points[i + 1], axis)@ - along(points[i], axis)@;
            let q = along(chord_slope(points, i), axis)@;
            &&& SCALE <= h <= 100 * SCALE
            &&& -h <= d <= h
            &&& -SCALE <= q <= SCALE
            &&& -h <= 2 * (q * h - d * SCALE) <= h
        }),
{
    let s = SCALE as int;
    let a = points[i];
    let b = points[i + 1];
    assert(near(a) && near(b));
    let dx = b.x@ - a.x@;
    let dy = b.y@ - a.y@;
    let m = dx * dx + dy * dy;
    let k = floor_sqrt(m);
    assert(0 <= dx * dx <= 160_000_000_000_000_000_000_000 && 0 <= dy * dy
        <= 160_000_000_000_000_000_000_000) by (nonlinear_arith)
        requires
            -400_000_000_000 <= dx <= 400_000_000_000,
            -400_000_000_000 <= dy <= 400_000_000_000,
    ;
    lemma_floor_sqrt_exists(m);
    assert(k <= 600_000_000_000) by (nonlinear_arith)
        requires
            0 <= k,
            k * k <= m,
            m <= 320_000_000_000_000_000_000_000,
    ;
    let h = chord_length(points, i)@;
    assert(SCALE <= h <= 100 * SCALE);
    let d = along(b, axis)@ - along(a, axis)@;
    assert(d == dx || d == dy);
    assert(d * d <= m);
    assert(-h <= d <= h) by (nonlinear_arith)
        requires
            d * d <= m,
            0 <= k,
            m < (k + 1) * (k + 1),
            h >= 1,
            k <= 0 || h == k,
    ;
    let q = round_div(d * s, h);
    lemma_round_div_nearest(d * s, h);
    assert(-s <= q <= s) by (nonlinear_arith)
        requires
            -h <= 2 * (q * h - d * s) <= h,
            -h <= d <= h,
            h >= 1,
            s == 1_000_000_000,
    ;
    assert(along(chord_slope(points, i), axis)@ == q);
}

/// Row `k` of the system as it is set up: the diagonal is twice the sum of
/// the two chords at the point, the right-hand side six times the change of
/// slope there, neither rounded.
#[verifier::rlimit(50)]
pub proof fn lemma_row(points: Seq<Point2>, k: int, axis: bool)
    requires
        well_spaced(points),
        1 <= k < points.len() - 1,
    ensures
        spline_diag(points, k)@ == 2 * (chord_length(points, k - 1)@ + chord_length(points, k)@),
        along(spline_rhs(points, k), axis)@ == 6 * (along(chord_slope(points, k), axis)@ - along(
            chord_slope(points, k - 1),
            axis,
        )@),
        -12 * SCALE <= along(spline_rhs(points, k), axis)@ <= 12 * SCALE,
{
    lemma_chord_slope(points, k, axis);
    lemma_chord_slope(points, k - 1, axis);
    let sum = chord_length(points, k - 1).add(chord_length(points, k));
    lemma_mul_whole(2, sum);
    let change = along(chord_slope(points, k), axis).sub(along(chord_slope(points, k - 1), axis));
    lemma_mul_whole(6, change);
}

/// The forward elimination keeps the system strongly diagonal: the
/// diagonal of row `k` stays above the chord before the point plus twice
/// the chord after it, the factor taken off is a half at most, and the
/// right-hand side stays within twenty-four. Each value is its exact
/// counterpart within half a unit of rounding.
#[verifier::rlimit(50)]
pub proof fn lemma_forward(points: Seq<Point2>, k: int, axis: bool)
    requires
        well_spaced(points),
        1 <= k < points.len() - 1,
    ensures
        ({
            let s = SCALE as int;
            let hp = chord_length(points, k - 1)@;
            let h = chord_length(points, k)@;
            let diag = spline_diag(points, k)@;
            let rhs = along(spline_rhs(points, k), axis)@;
            let fb = eliminated_diag(points, k)@;
            let fd = along(eliminated_rhs(points, k), axis)@;
            let w = elimination_factor(points, k)@;
            &&& hp + 2 * h <= fb <= diag
            &&& diag == 2 * (hp + h)
            &&& -(24 * s + 1) <= fd <= 24 * s + 1
            &&& k == 1 ==> fb == diag && fd == rhs
            &&& k >= 2 ==> {
                let fbp = eliminated_diag(points, k - 1)@;
                let fdp = along(eliminated_rhs(points, k - 1), axis)@;
                &&& 0 <= 2 * w <= s
                &&& -fbp <= 2 * (w * fbp - hp * s) <= fbp
                &&& -s <= 2 * ((diag - fb) * s - w * hp) <= s
                &&& -s <= 2 * ((rhs - fd) * s - w * fdp) <= s
            }
        }),
    decreases k,
{
    let s = SCALE as int;
    lemma_row(points, k, axis);
    lemma_chord_slope(points, k, axis);
    lemma_chord_slope(points, k - 1, axis);
    let hp = chord_length(points, k - 1)@;
    let h = chord_length(points, k)@;
    let diag = spline_diag(points, k)@;
    let rhs = along(spline_rhs(points, k), axis)@;
    if k >= 2 {
        lemma_forward(points, k - 1, axis);
        lemma_chord_slope(points, k - 2, axis);
        let fbp = eliminated_diag(points, k - 1)@;
        let fdp = along(eliminated_rhs(points, k - 1), axis)@;
        let factor = elimination_factor(points, k);
        let w = round_div(hp * s, fbp);
        lemma_round_div_nearest(hp * s, fbp);
        assert(0 <= 2 * w <= s) by (nonlinear_arith)
            requires
                -fbp <= 2 * (w * fbp - hp * s) <= fbp,
                fbp >= 2 * hp + 1,
                hp >= 1,
                s == 1_000_000_000,
        ;
        assert(factor@ == w);
        lemma_mul_nearest(factor, chord_length(points, k - 1), 500_000_000, 100_000_000_000);
        let m = factor.mul(chord_length(points, k - 1))@;
        assert(0 <= 2 * m <= hp + 1) by (nonlinear_arith)
            requires
                -s <= 2 * (m * s - w * hp) <= s,
                0 <= 2 * w <= s,
                hp >= 1,
                s == 1_000_000_000,
        ;
        assert(eliminated_diag(points, k)@ == diag - m);
        lemma_mul_nearest(factor, along(eliminated_rhs(points, k - 1), axis), 500_000_000, 24_000_000_001);
        let g = factor.mul(along(eliminated_rhs(points, k - 1), axis))@;
        assert(-(12 * s + 1) <= g <= 12 * s + 1) by (nonlinear_arith)
            requires
                -s <= 2 * (g * s - w * fdp) <= s,
                0 <= 2 * w <= s,
                -(24 * s + 1) <= fdp <= 24 * s + 1,
                s == 1_000_000_000,
        ;
        assert(along(eliminated_rhs(points, k), axis)@ == rhs - g);
    }
}

/// The second derivative at every point is within seventeen, and at an
/// inner point it is what the back substitution divides, within half a
/// unit of rounding at each step.
#[verifier::rlimit(50)]
pub proof fn lemma_backward(points: Seq<Point2>, k: int, axis: bool)
    requires
        well_spaced(points),
        0 <= k < points.len(),
    ensures
        ({
            let s = SCALE as int;
            let sd = along(second_derivative(points, k), axis)@;
            &&& -17 * s <= sd <= 17 * s
            &&& k == 0 || k == points.len() - 1 ==> sd == 0
            &&& 1 <= k < points.len() - 1 ==> {
                let h = chord_length(points, k)@;
                let fb = eliminated_diag(points, k)@;
                let fd = along(eliminated_rhs(points, k), axis)@;
                let next = along(second_derivative(points, k + 1), axis);
                let t = chord_length(points, k).mul(next)@;
                &&& -s <= 2 * (t * s - h * next@) <= s
                &&& -fb <= 2 * (sd * fb - (fd - t) * s) <= fb
            }
        }),
    decreases points.len() - k,
{
    let s = SCALE as int;
    if 1 <= k < points.len() - 1 {
        lemma_backward(points, k + 1, axis);
        lemma_forward(points, k, axis);
        lemma_chord_slope(points, k, axis);
        lemma_chord_slope(points, k - 1, axis);
        let h = chord_length(points, k)@;
        let hp = chord_length(points, k - 1)@;
        let fb = eliminated_diag(points, k)@;
        let fd = along(eliminated_rhs(points, k), axis)@;
        let next = along(second_derivative(points, k + 1), axis);
        lemma_mul_nearest(chord_length(points, k), next, 100_000_000_000, 17_000_000_000);
        let t = chord_length(points, k).mul(next)@;
        assert(-(17 * h + 1) <= t <= 17 * h + 1) by (nonlinear_arith)
            requires
                -s <= 2 * (t * s - h * next@) <= s,
                -17 * s <= next@ <= 17 * s,
                h >= 1,
                s == 1_000_000_000,
        ;
        let n = fd - t;
        let q = round_div(n * s, fb);
        lemma_round_div_nearest(n * s, fb);
        assert(q <= 17 * s) by (nonlinear_arith)
            requires
                -fb <= 2 * (q * fb - n * s) <= fb,
                n <= 24 * s + 17 * h + 2,
                fb >= 2 * h + s,
                h >= s,
                s == 1_000_000_000,
        ;
        assert(q >= -17 * s) by (nonlinear_arith)
            requires
                -fb <= 2 * (q * fb - n * s) <= fb,
                n >= -(24 * s + 17 * h + 2),
                fb >= 2 * h + s,
                h >= s,
                s == 1_000_000_000,
        ;
        assert(along(second_derivative(points, k), axis)@ == q);
    }
}

/// What row `k` of the system lacks to hold exactly of the second
/// derivatives that were computed: the chord before the point times the
/// second derivative before it, the diagonal times the one at the point,
/// the chord after it times the one after it, less the right-hand side.
pub open spec fn row_residual(points: Seq<Point2>, k: int, axis: bool) -> int {
    chord_length(points, k - 1)@ * along(second_derivative(points, k - 1), axis)@ + spline_diag(
        points,
        k,
    )@ * along(second_derivative(points, k), axis)@ + chord_length(points, k)@ * along(
        second_derivative(points, k + 1),
        axis,
    )@ - along(spline_rhs(points, k), axis)@ * SCALE
}

/// The computed second derivatives solve every row of the system up to
/// rounding: what a row lacks is within 3710 units of the right-hand side.
#[verifier::rlimit(50)]
pub proof fn lemma_row_residual(points: Seq<Point2>, k: int, axis: bool)
    requires
        well_spaced(points),
        1 <= k < points.len() - 1,
    ensures
        -7420 * SCALE <= 2 * row_residual(points, k, axis) <= 7420 * SCALE,
{
    let s = SCALE as int;
    lemma_backward(points, k, axis);
    lemma_backward(points, k - 1, axis);
    lemma_backward(points, k + 1, axis);
    lemma_forward(points, k, axis);
    lemma_chord_slope(points, k, axis);
    lemma_chord_slope(points, k - 1, axis);
    let hp = chord_length(points, k - 1)@;
    let h = chord_length(points, k)@;
    let diag = spline_diag(points, k)@;
    let rhs = along(spline_rhs(points, k), axis)@;
    let fb = eliminated_diag(points, k)@;
    let fd = along(eliminated_rhs(points, k), axis)@;
    let sp = along(second_derivative(points, k - 1), axis)@;
    let sc = along(second_derivative(points, k), axis)@;
    let sn = along(second_derivative(points, k + 1), axis)@;
    let t = chord_length(points, k).mul(along(second_derivative(points, k + 1), axis))@;
    let es = sc * fb - (fd - t) * s;
    let et = t * s - h * sn;
    let m = diag - fb;
    let g = rhs - fd;
    let x = hp * sp + m * sc - g * s;
    let rho = row_residual(points, k, axis);
    assert(rho == hp * sp + diag * sc + h * sn - rhs * s);
    assert(rho == x + es - et) by (nonlinear_arith)
        requires
            rho == hp * sp + diag * sc + h * sn - rhs * s,
            x == hp * sp + m * sc - g * s,
            es == sc * fb - (fd - t) * s,
            et == t * s - h * sn,
            m == diag - fb,
            g == rhs - fd,
    ;
    if k == 1 {
        assert(sp == 0 && m == 0 && g == 0);
        assert(x == 0) by (nonlinear_arith)
            requires
                x == hp * sp + m * sc - g * s,
                sp == 0,
                m == 0,
                g == 0,
        ;
    } else {
        lemma_forward(points, k - 1, axis);
        let w = elimination_factor(points, k)@;
        let fbp = eliminated_diag(points, k - 1)@;
        let fdp = along(eliminated_rhs(points, k - 1), axis)@;
        let tp = chord_length(points, k - 1).mul(along(second_derivative(points, k), axis))@;
        let esp = sp * fbp - (fdp - tp) * s;
        let etp = tp * s - hp * sc;
        let ew = w * fbp - hp * s;
        let em = m * s - w * hp;
        let eg = g * s - w * fdp;
        let a = fbp * sp;
        assert(a == esp + fdp * s - etp - hp * sc) by (nonlinear_arith)
            requires
                a == fbp * sp,
                esp == sp * fbp - (fdp - tp) * s,
                etp == tp * s - hp * sc,
        ;
        let wa = w * a;
        assert(wa == w * esp + w * fdp * s - w * etp - w * hp * sc) by (nonlinear_arith)
            requires
                wa == w * a,
                a == esp + fdp * s - etp - hp * sc,
        ;
        let x1 = (hp * s) * sp;
        assert(x1 == wa - ew * sp) by (nonlinear_arith)
            requires
                x1 == (hp * s) * sp,
                wa == w * a,
                a == fbp * sp,
                ew == w * fbp - hp * s,
        ;
        let x2 = (m * s) * sc;
        assert(x2 == w * hp * sc + em * sc) by (nonlinear_arith)
            requires
                x2 == (m * s) * sc,
                em == m * s - w * hp,
        ;
        let x3 = (g * s) * s;
        assert(x3 == w * fdp * s + eg * s) by (nonlinear_arith)
            requires
                x3 == (g * s) * s,
                eg == g * s - w * fdp,
        ;
        let y1 = hp * sp;
        let y2 = m * sc;
        let y3 = g * s;
        assert(x1 == s * y1) by (nonlinear_arith)
            requires
                x1 == (hp * s) * sp,
                y1 == hp * sp,
        ;
        assert(x2 == s * y2) by (nonlinear_arith)
            requires
                x2 == (m * s) * sc,
                y2 == m * sc,
        ;
        assert(x3 == s * y3) by (nonlinear_arith)
            requires
                x3 == (g * s) * s,
                y3 == g * s,
        ;
        assert(x == y1 + y2 - y3);
        assert(s * x == x1 + x2 - x3);
        let t1 = w * etp;
        let t2 = w * esp;
        let t3 = ew * sp;
        let t4 = em * sc;
        let t5 = eg * s;
        assert(s * x == t2 - t1 - t3 + t4 - t5);
        lemma_product_size(2 * w, 2 * etp, s, s);
        lemma_product_size(2 * w, 2 * esp, s, 400 * s);
        lemma_product_size(2 * ew, sp, 400 * s, 17 * s);
        lemma_product_size(2 * em, sc, s, 17 * s);
        lemma_product_size(2 * eg, s, s, s);
        assert((2 * w) * (2 * etp) == 4 * t1 && (2 * w) * (2 * esp) == 4 * t2 && (2 * ew) * sp == 2
            * t3 && (2 * em) * sc == 2 * t4 && (2 * eg) * s == 2 * t5) by (nonlinear_arith)
            requires
                t1 == w * etp,
                t2 == w * esp,
                t3 == ew * sp,
                t4 == em * sc,
                t5 == eg * s,
        ;
        assert(s * s == 1_000_000_000_000_000_000 && s * (400 * s)
            == 400_000_000_000_000_000_000 && (400 * s) * (17 * s)
            == 6_800_000_000_000_000_000_000 && s * (17 * s) == 17_000_000_000_000_000_000)
            by (nonlinear_arith)
            requires
                s == 1_000_000_000,
        ;
        assert(-14037 * s <= 4 * x <= 14037 * s) by (nonlinear_arith)
            requires
                -14_037_000_000_000_000_000_000 <= 4 * (s * x) <= 14_037_000_000_000_000_000_000,
                s == 1_000_000_000,
        ;
    }
}

/// The numbers from which one coordinate of one piece of the spline is
/// made, in raw units.
pub struct Piece {
    /// The chord's length.
    pub h: int,
    /// The chord's coordinate.
    pub d: int,
    /// The chord's slope.
    pub sl: int,
    /// The second derivative at the start.
    pub sa: int,
    /// The second derivative at the end.
    pub sb: int,
    /// A sixth of the chord's length.
    pub d6: int,
    /// What is taken off the chord's slope for the slope at the start.
    pub u: int,
    /// The slope at the start.
    pub b: int,
    /// A third of the chord's length.
    pub d3: int,
    /// From the start to the first handle.
    pub m1: int,
    /// Two thirds of the chord's length.
    pub d23: int,
    /// The second handle's part along the slope at the start.
    pub m2: int,
    /// The chord's length squared.
    pub hh: int,
    /// A third of that square.
    pub q: int,
    /// Half the second derivative at the start.
    pub c: int,
    /// The second handle's part from the second derivative.
    pub m3: int,
}

/// Each number of the piece is what its formula gives, within half a unit
/// of rounding, and the inputs are within their bounds.
pub open spec fn rounded(a: Piece) -> bool {
    let s = SCALE as int;
    &&& s <= a.h <= 100 * s
    &&& -s <= a.sl <= s
    &&& -17 * s <= a.sa <= 17 * s
    &&& -17 * s <= a.sb <= 17 * s
    &&& -a.h <= 2 * (a.sl * a.h - a.d * s) <= a.h
    &&& -6 <= 2 * (6 * a.d6 - a.h) <= 6
    &&& -s <= 2 * (a.u * s - a.d6 * (2 * a.sa + a.sb)) <= s
    &&& a.b == a.sl - a.u
    &&& -852 * s <= a.b <= 852 * s
    &&& -3 <= 2 * (3 * a.d3 - a.h) <= 3
    &&& -s <= 2 * (a.m1 * s - a.d3 * a.b) <= s
    &&& -3 <= 2 * (3 * a.d23 - 2 * a.h) <= 3
    &&& -s <= 2 * (a.m2 * s - a.d23 * a.b) <= s
    &&& -s <= 2 * (a.hh * s - a.h * a.h) <= s
    &&& -3 <= 2 * (3 * a.q - a.hh) <= 3
    &&& -1 <= 2 * a.c - a.sa <= 1
    &&& -s <= 2 * (a.m3 * s - a.q * a.c) <= s
}

/// The numbers of piece `i` along one axis.
pub open spec fn piece(points: Seq<Point2>, i: int, axis: bool) -> Piece {
    let h = chord_length(points, i);
    let b = along(start_slope(points, i), axis);
    let sa = along(second_derivative(points, i), axis);
    let c = Fixed::from_ratio(1, 2).mul(sa);
    let d23 = Fixed::from_int(2).mul(h).div(Fixed::from_int(3));
    let q = h.mul(h).div(Fixed::from_int(3));
    Piece {
        h: h@,
        d: along(points[i + 1], axis)@ - along(points[i], axis)@,
        sl: along(chord_slope(points, i), axis)@,
        sa: sa@,
        sb: along(second_derivative(points, i + 1), axis)@,
        d6: h.div(Fixed::from_int(6))@,
        u: along(chord_slope(points, i), axis)@ - b@,
        b: b@,
        d3: h.div(Fixed::from_int(3))@,
        m1: h.div(Fixed::from_int(3)).mul(b)@,
        d23: d23@,
        m2: d23.mul(b)@,
        hh: h.mul(h)@,
        q: q@,
        c: c@,
        m3: q.mul(c)@,
    }
}

/// Piece `i` of the spline is made of the numbers of `piece`, each of them
/// rounded once: the first handle lies `m1` from the start, the second
/// `m2 + m3`, the end `d`.
#[verifier::rlimit(50)]
pub proof fn lemma_piece(points: Seq<Point2>, i: int, axis: bool)
    requires
        well_spaced(points),
        0 <= i < points.len() - 1,
    ensures
        rounded(piece(points, i, axis)),
        ({
            let a = piece(points, i, axis);
            let g = spline_segment(points, i);
            &&& g == spline_beziers(points)[i]
            &&& along(g.1, axis)@ - along(g.0, axis)@ == a.m1
            &&& along(g.2, axis)@ - along(g.0, axis)@ == a.m2 + a.m3
            &&& along(g.3, axis)@ - along(g.0, axis)@ == a.d
        }),
{
    let s = SCALE as int;
    let a = piece(points, i, axis);
    lemma_chord_slope(points, i, axis);
    lemma_backward(points, i, axis);
    lemma_backward(points, i + 1, axis);
    assert(near(points[i]) && near(points[i + 1]));
    let h = chord_length(points, i);
    let sa = along(second_derivative(points, i), axis);
    let sb = along(second_derivative(points, i + 1), axis);
    lemma_mul_whole(2, sa);
    let t = Fixed::from_int(2).mul(sa).add(sb);
    assert(t@ == 2 * a.sa + a.sb);
    lemma_div_whole(h, 6);
    let d6 = h.div(Fixed::from_int(6));
    lemma_mul_nearest(d6, t, 16_666_666_668, 51_000_000_000);
    let u = d6.mul(t);
    let sl = along(chord_slope(points, i), axis);
    let b = sl.sub(u);
    assert(b == along(start_slope(points, i), axis));
    assert(b@ == sl@ - u@);
    lemma_div_whole(h, 3);
    let d3 = h.div(Fixed::from_int(3));
    lemma_mul_nearest(d3, b, 34_000_000_000, 852_000_000_000);
    lemma_mul_whole(2, h);
    let h2 = Fixed::from_int(2).mul(h);
    lemma_div_whole(h2, 3);
    let d23 = h2.div(Fixed::from_int(3));
    lemma_mul_nearest(d23, b, 67_000_000_000, 852_000_000_000);
    lemma_mul_nearest(h, h, 100_000_000_000, 100_000_000_000);
    let hh = h.mul(h);
    lemma_div_whole(hh, 3);
    let q = hh.div(Fixed::from_int(3));
    lemma_div_whole(Fixed::one(), 2);
    let half = Fixed::from_ratio(1, 2);
    assert(half@ == 500_000_000);
    lemma_mul_nearest(half, sa, 500_000_000, 17_000_000_000);
    let c = half.mul(sa);
    assert(-1 <= 2 * c@ - sa@ <= 1) by (nonlinear_arith)
        requires
            -s <= 2 * (c@ * s - half@ * sa@) <= s,
            half@ == 500_000_000,
            s == 1_000_000_000,
    ;
    lemma_mul_nearest(q, c, 4_000_000_000_000, 9_000_000_000);
    let g = spline_segment(points, i);
    assert(along(g.0, axis) == along(points[i], axis));
    assert(along(g.3, axis) == along(points[i + 1], axis));
    assert(along(g.1, axis) == along(points[i], axis).add(d3.mul(b)));
    assert(along(g.2, axis) == along(points[i], axis).add(d23.mul(b)).add(q.mul(c)));
}

/// The chord's length squared times the first derivative at the start of
/// a piece, as the second derivatives give it, in units of a sixth.
pub open spec fn start_target(a: Piece) -> int {
    6 * SCALE * (a.sl * a.h) - (2 * ((a.h * a.h) * a.sa) + (a.h * a.h) * a.sb)
}

/// The same for the first derivative at the end of a piece.
pub open spec fn end_target(a: Piece) -> int {
    6 * SCALE * (a.sl * a.h) + ((a.h * a.h) * a.sa + 2 * ((a.h * a.h) * a.sb))
}

/// The slope at the start of a piece is the chord's slope less a sixth of
/// the chord times twice the second derivative at the start plus the one
/// at the end, to rounding.
#[verifier::rlimit(50)]
pub proof fn lemma_start_slope(a: Piece)
    requires
        rounded(a),
    ensures
        -156 * (a.h * SCALE) <= 6 * SCALE * (a.h * a.b) - start_target(a) <= 156 * (a.h * SCALE),
{
    let s = SCALE as int;
    let t = 2 * a.sa + a.sb;
    let e6 = 6 * a.d6 - a.h;
    let eu = a.u * s - a.d6 * t;
    let hb = a.h * a.b;
    let slh = a.sl * a.h;
    let hu = a.h * a.u;
    let h2 = a.h * a.h;
    let h2t = h2 * t;
    assert(hb == slh - hu) by (nonlinear_arith)
        requires
            hb == a.h * a.b,
            slh == a.sl * a.h,
            hu == a.h * a.u,
            a.b == a.sl - a.u,
    ;
    assert(h2t == 2 * (h2 * a.sa) + h2 * a.sb) by (nonlinear_arith)
        requires
            h2t == h2 * t,
            t == 2 * a.sa + a.sb,
    ;
    let d6t = a.d6 * t;
    let e6t = e6 * t;
    let heu = a.h * eu;
    // six times h times (u s) is h times (h + e6) t, and six h eu
    assert(6 * (s * hu) == 6 * (a.h * d6t) + 6 * heu) by (nonlinear_arith)
        requires
            hu == a.h * a.u,
            eu == a.u * s - d6t,
            heu == a.h * eu,
    ;
    let he6t = a.h * e6t;
    assert(6 * (a.h * d6t) == h2t + he6t) by (nonlinear_arith)
        requires
            d6t == a.d6 * t,
            e6t == e6 * t,
            e6 == 6 * a.d6 - a.h,
            h2t == (a.h * a.h) * t,
            he6t == a.h * e6t,
    ;
    let z = 6 * s * hb - start_target(a);
    let target = start_target(a);
    let hd6t = a.h * d6t;
    assert(target == 6 * s * slh - h2t);
    assert(z == -he6t - 6 * heu) by (nonlinear_arith)
        requires
            z == 6 * s * hb - target,
            target == 6 * s * slh - h2t,
            hb == slh - hu,
            6 * (s * hu) == 6 * hd6t + 6 * heu,
            6 * hd6t == h2t + he6t,
            s == 1_000_000_000,
    ;
    lemma_product_size(e6, t, 3, 51 * s);
    lemma_product_size(a.h, e6t, a.h, 153 * s);
    lemma_product_size(a.h, 2 * eu, a.h, s);
    assert(a.h * (2 * eu) == 2 * heu) by (nonlinear_arith)
        requires
            heu == a.h * eu,
    ;
    assert(a.h * (153 * s) == 153 * (a.h * s) && a.h * s == a.h * SCALE) by (nonlinear_arith)
        requires
            s == SCALE,
    ;
}

/// The handles of a piece give it, to rounding, the first derivative at
/// either end that the second derivatives ask for, and the second
/// derivatives themselves. Each bound is in units of the quantity times
/// the chord's length (first derivative) or its square (second).
#[verifier::rlimit(50)]
pub proof fn lemma_handles(a: Piece)
    requires
        rounded(a),
    ensures
        -5277 * (a.h * SCALE) <= 18 * SCALE * (SCALE * a.m1) - start_target(a) <= 5277 * (a.h
            * SCALE),
        -5832 * (a.h * SCALE) <= 18 * SCALE * (SCALE * (a.d - a.m2 - a.m3)) - end_target(a) <= 5832
            * (a.h * SCALE),
        -5152 * (a.h * a.h) <= 6 * SCALE * (SCALE * (a.m2 + a.m3 - 2 * a.m1)) - (a.h * a.h) * a.sa
            <= 5152 * (a.h * a.h),
        -5342 * (a.h * a.h) <= 6 * SCALE * (SCALE * (a.m1 - 2 * a.m2 - 2 * a.m3 + a.d)) - (a.h
            * a.h) * a.sb <= 5342 * (a.h * a.h),
{
    let s = SCALE as int;
    lemma_start_slope(a);
    let hs = a.h * s;
    let h2 = a.h * a.h;
    let hb = a.h * a.b;
    let slh = a.sl * a.h;
    let h2sa = h2 * a.sa;
    let h2sb = h2 * a.sb;
    let st = start_target(a);
    let et = end_target(a);
    assert(st == 6 * s * slh - (2 * h2sa + h2sb));
    assert(et == 6 * s * slh + (h2sa + 2 * h2sb));
    let z = 6 * s * hb - st;
    assert(hs == 1_000_000_000 * a.h && s * s <= hs <= h2 && h2 <= 100 * hs) by (nonlinear_arith)
        requires
            hs == a.h * s,
            h2 == a.h * a.h,
            s <= a.h <= 100 * s,
            s == 1_000_000_000,
    ;
    assert(-156 * hs <= z <= 156 * hs);
    // the first handle
    let e3 = 3 * a.d3 - a.h;
    let d3b = a.d3 * a.b;
    let e3b = e3 * a.b;
    let em1 = a.m1 * s - d3b;
    assert(3 * d3b == hb + e3b) by (nonlinear_arith)
        requires
            d3b == a.d3 * a.b,
            hb == a.h * a.b,
            e3b == e3 * a.b,
            e3 == 3 * a.d3 - a.h,
    ;
    lemma_product_size(e3, a.b, 1, 852 * s);
    // the second handle, along the slope
    let e23 = 3 * a.d23 - 2 * a.h;
    let d23b = a.d23 * a.b;
    let e23b = e23 * a.b;
    let em2 = a.m2 * s - d23b;
    assert(3 * d23b == 2 * hb + e23b) by (nonlinear_arith)
        requires
            d23b == a.d23 * a.b,
            hb == a.h * a.b,
            e23b == e23 * a.b,
            e23 == 3 * a.d23 - 2 * a.h,
    ;
    lemma_product_size(e23, a.b, 1, 852 * s);
    // the second handle, from the second derivative
    let eq = 3 * a.q - a.hh;
    let qc = a.q * a.c;
    let hhc = a.hh * a.c;
    let eqc = eq * a.c;
    let em3 = a.m3 * s - qc;
    let ehh = a.hh * s - h2;
    let h2c = h2 * a.c;
    let ehhc = ehh * a.c;
    let dc = 2 * a.c - a.sa;
    let h2dc = h2 * dc;
    assert(3 * qc == hhc + eqc) by (nonlinear_arith)
        requires
            qc == a.q * a.c,
            hhc == a.hh * a.c,
            eqc == eq * a.c,
            eq == 3 * a.q - a.hh,
    ;
    assert(s * hhc == h2c + ehhc) by (nonlinear_arith)
        requires
            hhc == a.hh * a.c,
            h2c == h2 * a.c,
            ehhc == ehh * a.c,
            ehh == a.hh * s - h2,
    ;
    assert(2 * h2c == h2sa + h2dc) by (nonlinear_arith)
        requires
            h2c == h2 * a.c,
            h2sa == h2 * a.sa,
            h2dc == h2 * dc,
            dc == 2 * a.c - a.sa,
    ;
    lemma_product_size(eq, a.c, 1, 9 * s);
    lemma_product_size(2 * ehh, a.c, s, 9 * s);
    assert((2 * ehh) * a.c == 2 * ehhc) by (nonlinear_arith)
        requires
            ehhc == ehh * a.c,
    ;
    lemma_product_size(h2, dc, h2, 1);
    // the chord
    let esl = slh - a.d * s;
    let xb = 18 * s * (s * a.m1) - st;
    let xa = 18 * s * (s * (a.d - a.m2 - a.m3)) - et;
    let yb = 6 * s * (s * (a.m2 + a.m3 - 2 * a.m1)) - h2sa;
    let ya = 6 * s * (s * (a.m1 - 2 * a.m2 - 2 * a.m3 + a.d)) - h2sb;
    assert(xb == z + 6 * s * e3b + 18 * s * em1) by (nonlinear_arith)
        requires
            xb == 18 * s * (s * a.m1) - st,
            z == 6 * s * hb - st,
            3 * d3b == hb + e3b,
            em1 == a.m1 * s - d3b,
            s == 1_000_000_000,
    ;
    assert(xa == -2 * z - 18 * s * esl - 6 * s * e23b - 18 * s * em2 - 3 * h2dc - 6 * ehhc - 6 * s
        * eqc - 18 * s * em3) by (nonlinear_arith)
        requires
            xa == 18 * s * (s * (a.d - a.m2 - a.m3)) - et,
            et == 6 * s * slh + (h2sa + 2 * h2sb),
            st == 6 * s * slh - (2 * h2sa + h2sb),
            z == 6 * s * hb - st,
            esl == slh - a.d * s,
            3 * d23b == 2 * hb + e23b,
            em2 == a.m2 * s - d23b,
            3 * qc == hhc + eqc,
            em3 == a.m3 * s - qc,
            s * hhc == h2c + ehhc,
            2 * h2c == h2sa + h2dc,
            s == 1_000_000_000,
    ;
    assert(yb == 2 * s * (e23b - 2 * e3b) + 6 * s * em2 - 12 * s * em1 + h2dc + 2 * ehhc + 2 * s
        * eqc + 6 * s * em3) by (nonlinear_arith)
        requires
            yb == 6 * s * (s * (a.m2 + a.m3 - 2 * a.m1)) - h2sa,
            3 * d3b == hb + e3b,
            em1 == a.m1 * s - d3b,
            3 * d23b == 2 * hb + e23b,
            em2 == a.m2 * s - d23b,
            3 * qc == hhc + eqc,
            em3 == a.m3 * s - qc,
            s * hhc == h2c + ehhc,
            2 * h2c == h2sa + h2dc,
            s == 1_000_000_000,
    ;
    assert(ya == -z + 2 * s * e3b + 6 * s * em1 - 4 * s * e23b - 12 * s * em2 - 2 * h2dc - 4 * ehhc
        - 4 * s * eqc - 12 * s * em3 - 6 * s * esl) by (nonlinear_arith)
        requires
            ya == 6 * s * (s * (a.m1 - 2 * a.m2 - 2 * a.m3 + a.d)) - h2sb,
            st == 6 * s * slh - (2 * h2sa + h2sb),
            z == 6 * s * hb - st,
            esl == slh - a.d * s,
            3 * d3b == hb + e3b,
            em1 == a.m1 * s - d3b,
            3 * d23b == 2 * hb + e23b,
            em2 == a.m2 * s - d23b,
            3 * qc == hhc + eqc,
            em3 == a.m3 * s - qc,
            s * hhc == h2c + ehhc,
            2 * h2c == h2sa + h2dc,
            s == 1_000_000_000,
    ;
    assert(-852 * s <= e3b <= 852 * s);
    assert(-852 * s <= e23b <= 852 * s);
    assert(-9 * s <= eqc <= 9 * s);
    assert(-9 * (s * s) <= 2 * ehhc <= 9 * (s * s)) by (nonlinear_arith)
        requires
            -(s * (9 * s)) <= 2 * ehhc <= s * (9 * s),
    ;
    assert(-h2 <= h2dc <= h2) by (nonlinear_arith)
        requires
            -(h2 * 1) <= h2dc <= h2 * 1,
    ;
    assert(-s <= 2 * em1 <= s && -s <= 2 * em2 <= s && -s <= 2 * em3 <= s);
    assert(-a.h <= 2 * esl <= a.h);
    assert(-5277 * hs <= xb <= 5277 * hs) by (nonlinear_arith)
        requires
            xb == z + 6 * s * e3b + 18 * s * em1,
            -156 * hs <= z <= 156 * hs,
            -852 * s <= e3b <= 852 * s,
            -s <= 2 * em1 <= s,
            s * s <= hs,
            s == 1_000_000_000,
    ;
    assert(-5832 * hs <= xa <= 5832 * hs) by (nonlinear_arith)
        requires
            xa == -2 * z - 18 * s * esl - 6 * s * e23b - 18 * s * em2 - 3 * h2dc - 6 * ehhc - 6 * s
                * eqc - 18 * s * em3,
            -156 * hs <= z <= 156 * hs,
            -a.h <= 2 * esl <= a.h,
            hs == 1_000_000_000 * a.h,
            -852 * s <= e23b <= 852 * s,
            -s <= 2 * em2 <= s,
            -s <= 2 * em3 <= s,
            -h2 <= h2dc <= h2,
            h2 <= 100 * hs,
            -9 * (s * s) <= 2 * ehhc <= 9 * (s * s),
            -9 * s <= eqc <= 9 * s,
            s * s <= hs,
            s == 1_000_000_000,
    ;
    assert(-5152 * h2 <= yb <= 5152 * h2) by (nonlinear_arith)
        requires
            yb == 2 * s * (e23b - 2 * e3b) + 6 * s * em2 - 12 * s * em1 + h2dc + 2 * ehhc + 2 * s
                * eqc + 6 * s * em3,
            -852 * s <= e3b <= 852 * s,
            -852 * s <= e23b <= 852 * s,
            -s <= 2 * em1 <= s,
            -s <= 2 * em2 <= s,
            -s <= 2 * em3 <= s,
            -h2 <= h2dc <= h2,
            -9 * (s * s) <= 2 * ehhc <= 9 * (s * s),
            -9 * s <= eqc <= 9 * s,
            s * s <= h2,
            s == 1_000_000_000,
    ;
    assert(-5342 * h2 <= ya <= 5342 * h2) by (nonlinear_arith)
        requires
            ya == -z + 2 * s * e3b + 6 * s * em1 - 4 * s * e23b - 12 * s * em2 - 2 * h2dc - 4
                * ehhc - 4 * s * eqc - 12 * s * em3 - 6 * s * esl,
            -156 * hs <= z <= 156 * hs,
            -a.h <= 2 * esl <= a.h,
            hs == 1_000_000_000 * a.h,
            -852 * s <= e3b <= 852 * s,
            -852 * s <= e23b <= 852 * s,
            -s <= 2 * em1 <= s,
            -s <= 2 * em2 <= s,
            -s <= 2 * em3 <= s,
            -h2 <= h2dc <= h2,
            -9 * (s * s) <= 2 * ehhc <= 9 * (s * s),
            -9 * s <= eqc <= 9 * s,
            s * s <= hs,
            hs <= h2,
            s == 1_000_000_000,
    ;
}

/// The first derivative of a Bezier arc at its start, along one axis, per
/// unit of the arc's own parameter from nought to one.
pub open spec fn start_velocity(g: BezierSegment, axis: bool) -> int {
    3 * (along(g.1, axis)@ - along(g.0, axis)@)
}

/// The first derivative of a Bezier arc at its end.
pub open spec fn end_velocity(g: BezierSegment, axis: bool) -> int {
    3 * (along(g.3, axis)@ - along(g.2, axis)@)
}

/// The second derivative of a Bezier arc at its start.
pub open spec fn start_bend(g: BezierSegment, axis: bool) -> int {
    6 * (along(g.0, axis)@ - 2 * along(g.1, axis)@ + along(g.2, axis)@)
}

/// The second derivative of a Bezier arc at its end.
pub open spec fn end_bend(g: BezierSegment, axis: bool) -> int {
    6 * (along(g.1, axis)@ - 2 * along(g.2, axis)@ + along(g.3, axis)@)
}

/// The first derivative is continuous at every inner point, to rounding.
/// Per unit of chord length the arc that ends at point `k` leaves with the
/// derivative `end_velocity / ha`, the arc that starts there sets out with
/// `start_velocity / hb`, where `ha` and `hb` are the lengths of the two
/// chords; the two differ by no more than 2470 units, in each coordinate.
#[verifier::rlimit(50)]
pub proof fn lemma_first_derivative_continuous(points: Seq<Point2>, k: int, axis: bool)
    requires
        well_spaced(points),
        1 <= k < points.len() - 1,
    ensures
        ({
            let before = spline_beziers(points)[k - 1];
            let after = spline_beziers(points)[k];
            let ha = chord_length(points, k - 1)@;
            let hb = chord_length(points, k)@;
            let gap = end_velocity(before, axis) * hb - start_velocity(after, axis) * ha;
            -2470 * (ha * hb) <= SCALE * gap <= 2470 * (ha * hb)
        }),
{
    let s = SCALE as int;
    let a = piece(points, k - 1, axis);
    let b = piece(points, k, axis);
    lemma_piece(points, k - 1, axis);
    lemma_piece(points, k, axis);
    lemma_handles(a);
    lemma_handles(b);
    lemma_row(points, k, axis);
    lemma_row_residual(points, k, axis);
    let ha = a.h;
    let hb = b.h;
    let sc = a.sb;
    assert(b.sa == sc);
    let p = ha * hb;
    let rho = row_residual(points, k, axis);
    let r1 = ha * a.sa;
    let r2 = ha * sc;
    let r3 = hb * sc;
    let r4 = hb * b.sb;
    let diag = spline_diag(points, k)@;
    let rhs = along(spline_rhs(points, k), axis)@;
    assert(rho == r1 + diag * sc + r4 - rhs * s);
    assert(diag * sc == 2 * r2 + 2 * r3) by (nonlinear_arith)
        requires
            diag == 2 * (ha + hb),
            r2 == ha * sc,
            r3 == hb * sc,
    ;
    assert(rho == r1 + 2 * r2 + 2 * r3 + r4 - 6 * s * (b.sl - a.sl)) by (nonlinear_arith)
        requires
            rho == r1 + diag * sc + r4 - rhs * s,
            diag * sc == 2 * r2 + 2 * r3,
            rhs == 6 * (b.sl - a.sl),
            s == 1_000_000_000,
    ;
    let g1 = p * a.sl;
    let g2 = p * b.sl;
    let g3 = p * r1;
    let g4 = p * r2;
    let g5 = p * r3;
    let g6 = p * r4;
    let prho = p * rho;
    assert(prho == g3 + 2 * g4 + 2 * g5 + g6 - 6 * s * (g2 - g1)) by (nonlinear_arith)
        requires
            prho == p * rho,
            rho == r1 + 2 * r2 + 2 * r3 + r4 - 6 * s * (b.sl - a.sl),
            g1 == p * a.sl,
            g2 == p * b.sl,
            g3 == p * r1,
            g4 == p * r2,
            g5 == p * r3,
            g6 == p * r4,
    ;
    let eta = end_target(a);
    let stb = start_target(b);
    let ea1 = a.sl * ha;
    let ea2 = (ha * ha) * a.sa;
    let ea3 = (ha * ha) * sc;
    let sb1 = b.sl * hb;
    let sb2 = (hb * hb) * sc;
    let sb3 = (hb * hb) * b.sb;
    assert(eta == 6 * s * ea1 + (ea2 + 2 * ea3));
    assert(stb == 6 * s * sb1 - (2 * sb2 + sb3));
    assert(hb * ea1 == g1) by (nonlinear_arith)
        requires
            ea1 == a.sl * ha,
            g1 == (ha * hb) * a.sl,
    ;
    assert(hb * ea2 == g3) by (nonlinear_arith)
        requires
            ea2 == (ha * ha) * a.sa,
            g3 == (ha * hb) * (ha * a.sa),
    ;
    assert(hb * ea3 == g4) by (nonlinear_arith)
        requires
            ea3 == (ha * ha) * sc,
            g4 == (ha * hb) * (ha * sc),
    ;
    assert(ha * sb1 == g2) by (nonlinear_arith)
        requires
            sb1 == b.sl * hb,
            g2 == (ha * hb) * b.sl,
    ;
    assert(ha * sb2 == g5) by (nonlinear_arith)
        requires
            sb2 == (hb * hb) * sc,
            g5 == (ha * hb) * (hb * sc),
    ;
    assert(ha * sb3 == g6) by (nonlinear_arith)
        requires
            sb3 == (hb * hb) * b.sb,
            g6 == (ha * hb) * (hb * b.sb),
    ;
    let heta = hb * eta;
    let hstb = ha * stb;
    assert(heta == 6 * s * (hb * ea1) + (hb * ea2 + 2 * (hb * ea3))) by (nonlinear_arith)
        requires
            heta == hb * eta,
            eta == 6 * s * ea1 + (ea2 + 2 * ea3),
    ;
    assert(hstb == 6 * s * (ha * sb1) - (2 * (ha * sb2) + ha * sb3)) by (nonlinear_arith)
        requires
            hstb == ha * stb,
            stb == 6 * s * sb1 - (2 * sb2 + sb3),
    ;
    assert(heta - hstb == prho) by (nonlinear_arith)
        requires
            heta == 6 * s * g1 + (g3 + 2 * g4),
            hstb == 6 * s * g2 - (2 * g5 + g6),
            prho == g3 + 2 * g4 + 2 * g5 + g6 - 6 * s * (g2 - g1),
    ;
    // what the handles add
    let da = a.d - a.m2 - a.m3;
    let db = b.m1;
    let qa = 18 * s * (s * da);
    let qb = 18 * s * (s * db);
    let xa = qa - eta;
    let xb = qb - stb;
    let hsa = ha * s;
    let hsb = hb * s;
    assert(-5832 * hsa <= xa <= 5832 * hsa);
    assert(-5277 * hsb <= xb <= 5277 * hsb);
    let hxa = hb * xa;
    let hxb = ha * xb;
    lemma_product_size(hb, xa, hb, 5832 * hsa);
    lemma_product_size(ha, xb, ha, 5277 * hsb);
    let ps = p * s;
    assert(hb * (5832 * hsa) == 5832 * ps && ha * (5277 * hsb) == 5277 * ps) by (nonlinear_arith)
        requires
            hsa == ha * s,
            hsb == hb * s,
            ps == (ha * hb) * s,
    ;
    lemma_product_size(p, 2 * rho, p, 7420 * s);
    assert(p >= 0 && p * (2 * rho) == 2 * prho && p * (7420 * s) == 7420 * ps) by (nonlinear_arith)
        requires
            p == ha * hb,
            ha >= 1,
            hb >= 1,
            prho == p * rho,
            ps == p * s,
    ;
    let w = hb * qa - ha * qb;
    assert(w == hxa - hxb + (heta - hstb)) by (nonlinear_arith)
        requires
            w == hb * qa - ha * qb,
            xa == qa - eta,
            xb == qb - stb,
            hxa == hb * xa,
            hxb == ha * xb,
            heta == hb * eta,
            hstb == ha * stb,
    ;
    assert(-14819 * ps <= w <= 14819 * ps);
    let g = da * hb - db * ha;
    assert(w == 18 * s * (s * g)) by (nonlinear_arith)
        requires
            w == hb * qa - ha * qb,
            qa == 18 * s * (s * da),
            qb == 18 * s * (s * db),
            g == da * hb - db * ha,
    ;
    let before = spline_beziers(points)[k - 1];
    let after = spline_beziers(points)[k];
    assert(end_velocity(before, axis) == 3 * da);
    assert(start_velocity(after, axis) == 3 * db);
    let gap = end_velocity(before, axis) * hb - start_velocity(after, axis) * ha;
    assert(gap == 3 * g) by (nonlinear_arith)
        requires
            gap == (3 * da) * hb - (3 * db) * ha,
            g == da * hb - db * ha,
    ;
    assert(-2470 * p <= s * gap <= 2470 * p) by (nonlinear_arith)
        requires
            w == 18 * s * (s * g),
            gap == 3 * g,
            -14819 * ps <= w <= 14819 * ps,
            ps == p * s,
            p >= 0,
            s == 1_000_000_000,
    ;
}

/// The second derivative is continuous at every inner point, to
/// rounding. Per unit of chord length squared the arc that ends at point
/// `k` has the second derivative `end_bend / ha^2` there, the arc that
/// starts there `start_bend / hb^2`; the two differ by no more than 10494
/// units, in each coordinate.
#[verifier::rlimit(50)]
pub proof fn lemma_second_derivative_continuous(points: Seq<Point2>, k: int, axis: bool)
    requires
        well_spaced(points),
        1 <= k < points.len() - 1,
    ensures
        ({
            let before = spline_beziers(points)[k - 1];
            let after = spline_beziers(points)[k];
            let ha = chord_length(points, k - 1)@;
            let hb = chord_length(points, k)@;
            let gap = end_bend(before, axis) * (hb * hb) - start_bend(after, axis) * (ha * ha);
            -10494 * ((ha * ha) * (hb * hb)) <= SCALE * (SCALE * gap) <= 10494 * ((ha * ha) * (hb
                * hb))
        }),
{
    let s = SCALE as int;
    let a = piece(points, k - 1, axis);
    let b = piece(points, k, axis);
    lemma_piece(points, k - 1, axis);
    lemma_piece(points, k, axis);
    lemma_handles(a);
    lemma_handles(b);
    let ha2 = a.h * a.h;
    let hb2 = b.h * b.h;
    let sc = a.sb;
    assert(b.sa == sc);
    let ba = a.m1 - 2 * a.m2 - 2 * a.m3 + a.d;
    let bb = b.m2 + b.m3 - 2 * b.m1;
    let qa = 6 * s * (s * ba);
    let qb = 6 * s * (s * bb);
    let ta = ha2 * sc;
    let tb = hb2 * sc;
    let ya = qa - ta;
    let yb = qb - tb;
    assert(-5342 * ha2 <= ya <= 5342 * ha2);
    assert(-5152 * hb2 <= yb <= 5152 * hb2);
    let pp = ha2 * hb2;
    assert(ha2 >= 0 && hb2 >= 0 && pp >= 0) by (nonlinear_arith)
        requires
            ha2 == a.h * a.h,
            hb2 == b.h * b.h,
            pp == ha2 * hb2,
    ;
    lemma_product_size(hb2, ya, hb2, 5342 * ha2);
    lemma_product_size(ha2, yb, ha2, 5152 * hb2);
    assert(hb2 * (5342 * ha2) == 5342 * pp && ha2 * (5152 * hb2) == 5152 * pp) by (nonlinear_arith)
        requires
            pp == ha2 * hb2,
    ;
    let w = hb2 * qa - ha2 * qb;
    assert(w == hb2 * ya - ha2 * yb) by (nonlinear_arith)
        requires
            w == hb2 * qa - ha2 * qb,
            ya == qa - ha2 * sc,
            yb == qb - hb2 * sc,
    ;
    assert(-10494 * pp <= w <= 10494 * pp);
    let g = ba * hb2 - bb * ha2;
    assert(w == 6 * (s * (s * g))) by (nonlinear_arith)
        requires
            w == hb2 * qa - ha2 * qb,
            qa == 6 * s * (s * ba),
            qb == 6 * s * (s * bb),
            g == ba * hb2 - bb * ha2,
    ;
    let before = spline_beziers(points)[k - 1];
    let after = spline_beziers(points)[k];
    assert(end_bend(before, axis) == 6 * ba);
    assert(start_bend(after, axis) == 6 * bb);
    let gap = end_bend(before, axis) * hb2 - start_bend(after, axis) * ha2;
    assert(gap == 6 * g) by (nonlinear_arith)
        requires
            gap == (6 * ba) * hb2 - (6 * bb) * ha2,
            g == ba * hb2 - bb * ha2,
    ;
    assert(s * (s * gap) == w) by (nonlinear_arith)
        requires
            gap == 6 * g,
            w == 6 * (s * (s * g)),
    ;
}

} // verus!
