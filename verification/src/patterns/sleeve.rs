//! The sleeve block: a one-piece set-in sleeve for jersey, drafted from
//! the armhole. Its drawings are in [`crate::patterns::sleeve_sheet`].

use crate::fixed::{Fixed, SCALE};
use crate::math::{
    cubic_spline_to_beziers, lemma_normalize_parallel, lemma_normalize_unit, lemma_unit_square,
    lemma_unit_step, size, spline_beziers, BezierSegment, Point2,
};
use crate::measurements::FullMeasurements;
use crate::patterns::stretch::{
    extent, extent_of, highest, is_extent, lowest, within_reach, PointStore, StretchBase,
    StretchState,
};
use crate::store::LabelMap;
use vstd::prelude::*;

verus! {

/// The measurements that the sleeve block is drafted from.
#[derive(Clone, Copy, Debug, PartialEq, Eq, Structural)]
pub struct SleeveMeasurements {
    pub armhole_depth: Fixed,
    pub armhole_measurement: Fixed,
    pub sleeve_length: Fixed,
    pub upper_arm_to_elbow: Fixed,
    pub sleeve_bottom_width: Fixed,
}

impl SleeveMeasurements {
    /// The sleeve measurements that belong to a full set.
    pub open spec fn spec_from_full(fm: FullMeasurements) -> SleeveMeasurements {
        SleeveMeasurements {
            armhole_depth: fm.underarm_height,
            armhole_measurement: fm.armhole_circumference,
            sleeve_length: fm.arm_length,
            upper_arm_to_elbow: fm.elbow_height,
            sleeve_bottom_width: fm.wrist,
        }
    }

    /// Derives the sleeve measurements from a full set: the armhole depth
    /// is the underarm height, the armhole measurement the armhole
    /// circumference, the sleeve length the arm length, the distance to the
    /// elbow the elbow height and the bottom width the wrist.
    pub fn from_full(fm: &FullMeasurements) -> (r: Self)
        ensures
            r == SleeveMeasurements::spec_from_full(*fm),
    {
        SleeveMeasurements {
            armhole_depth: fm.underarm_height,
            armhole_measurement: fm.armhole_circumference,
            sleeve_length: fm.arm_length,
            upper_arm_to_elbow: fm.elbow_height,
            sleeve_bottom_width: fm.wrist,
        }
    }
}

/// The two free distances that shape the sleeve cap, in centimetres.
#[derive(Clone, Copy, Debug, PartialEq, Eq, Structural)]
pub struct SleeveControlParameters {
    /// How far `G3` lies off the chord from `I` to `G2`.
    pub g3_perpendicular: Fixed,
    /// How far `H3` lies off the chord from `H2` to `I'`.
    pub h3_perpendicular: Fixed,
}

impl SleeveControlParameters {
    /// The distances 1.0 and 1.5.
    pub open spec fn spec_default() -> SleeveControlParameters {
        SleeveControlParameters {
            g3_perpendicular: Fixed::from_hundredths(100),
            h3_perpendicular: Fixed::from_hundredths(150),
        }
    }
}

impl Default for SleeveControlParameters {
    fn default() -> (r: Self)
        ensures
            r == SleeveControlParameters::spec_default(),
    {
        SleeveControlParameters {
            g3_perpendicular: Fixed::from_hundredths(100),
            h3_perpendicular: Fixed::from_hundredths(150),
        }
    }
}

/// The landmarks of the sleeve, by their letters on the draft. The sleeve
/// hangs down from `y = 0`, its left edge on `x = 0`.
#[derive(Clone, Copy, Debug, PartialEq, Eq, Structural)]
pub struct SleevePoints {
    /// Top left corner of the box.
    pub a: Point2,
    /// Top right corner.
    pub b: Point2,
    /// Bottom left corner.
    pub c: Point2,
    /// Bottom right corner.
    pub d: Point2,
    /// Crown of the cap: middle of the top.
    pub e: Point2,
    /// Middle of the bottom.
    pub f: Point2,
    /// Cap height on the left edge.
    pub i: Point2,
    /// Cap height on the right edge.
    pub i_prime: Point2,
    /// Left end of the wrist.
    pub f1: Point2,
    /// Right end of the wrist.
    pub f2: Point2,
    /// On the first quarter line, a third of the cap height down.
    pub g2: Point2,
    /// On the third quarter line, half the cap height down.
    pub h2: Point2,
    /// Off the middle of the chord from `I` to `G2`.
    pub g3: Point2,
    /// Off the middle of the chord from `H2` to `I'`.
    pub h3: Point2,
}

/// The guide points of the sleeve that are no landmarks.
#[derive(Clone, Copy, Debug, PartialEq, Eq, Structural)]
pub struct SleeveHelpers {
    /// Top of the first quarter line.
    pub g: Point2,
    /// The first quarter line at cap height.
    pub g1: Point2,
    /// Top of the third quarter line.
    pub h: Point2,
    /// The third quarter line at cap height.
    pub h1: Point2,
    /// Elbow on the left edge.
    pub j: Point2,
    /// Elbow on the right edge.
    pub j_prime: Point2,
}

/// The width of the sleeve: three quarters of the armhole measurement and
/// one centimetre.
pub open spec fn sleeve_width(m: SleeveMeasurements) -> Fixed {
    Fixed::from_hundredths(75).mul(m.armhole_measurement).add(Fixed::one())
}

/// The height of the cap: two thirds of the armhole depth, that is twice
/// the depth divided by three, rounded once.
pub open spec fn cap_height(m: SleeveMeasurements) -> Fixed {
    Fixed::from_int(2).mul(m.armhole_depth).div(Fixed::from_int(3))
}

/// The point at the distance `off` from the middle between `from` and
/// `to`, a quarter turn to the left of the direction `along`.
pub open spec fn spec_off_chord(from: Point2, to: Point2, along: Point2, off: Fixed) -> Point2 {
    crate::math::add(
        crate::math::lerp(from, to, Fixed::from_ratio(1, 2)),
        crate::math::scale(off, crate::math::perp(crate::math::normalize(along))),
    )
}

/// The point at the distance `off` from the middle between `from` and
/// `to`, a quarter turn to the left of the direction `along`.
#[verifier::when_used_as_spec(spec_off_chord)]
pub fn off_chord(from: Point2, to: Point2, along: Point2, off: Fixed) -> (r: Point2)
    ensures
        r == spec_off_chord(from, to, along, off),
{
    crate::math::add(
        crate::math::lerp(from, to, Fixed::from_ratio(1, 2)),
        crate::math::scale(off, crate::math::perp(crate::math::normalize(along))),
    )
}

/// A point placed off a chord lies where the draft puts it. For two ends
/// within two metres of the axes, a direction that is not zero, and a
/// distance between one centimetre and two metres: the step from the
/// middle of the chord to the point is square to the direction, its scalar
/// product with the direction being no more than rounding allows; it is
/// as long as the distance, less two and more three parts in a thousand
/// million and a unit at most; and it lies to the left of the direction.
#[verifier::rlimit(50)]
pub proof fn lemma_off_chord_placed(from: Point2, to: Point2, along: Point2, off: Fixed)
    requires
        -200 * SCALE <= from.x@ <= 200 * SCALE,
        -200 * SCALE <= from.y@ <= 200 * SCALE,
        -200 * SCALE <= to.x@ <= 200 * SCALE,
        -200 * SCALE <= to.y@ <= 200 * SCALE,
        along.x@ != 0 || along.y@ != 0,
        SCALE <= off@ <= 200 * SCALE,
    ensures
        ({
            let s = SCALE as int;
            let middle = crate::math::lerp(from, to, Fixed::from_ratio(1, 2));
            let p = off_chord(from, to, along, off);
            let vx = p.x@ - middle.x@;
            let vy = p.y@ - middle.y@;
            let g = size(along.x@) + size(along.y@);
            let low = off@ * (s - 2) - (s + 4);
            let high = off@ * (s + 3) + s;
            &&& -(g * (off@ + s)) <= 2 * s * (vx * along.x@ + vy * along.y@) <= g * (off@ + s)
            &&& 0 <= low
            &&& low * low <= s * s * (vx * vx + vy * vy) <= high * high
            &&& 2 * (along.x@ * vy - along.y@ * vx) >= -g
        }),
{
    let s: int = 1_000_000_000;
    assert(SCALE == s);
    let d = off@;
    let ax = along.x@;
    let ay = along.y@;
    let g = size(ax) + size(ay);
    let n = crate::math::normalize(along);
    lemma_normalize_unit(along);
    lemma_normalize_parallel(along);
    lemma_unit_square(n);
    let o = crate::math::perp(n);
    let ox = o.x@;
    let oy = o.y@;
    assert(ox == -n.y@ && oy == n.x@);
    let oo = ox * ox + oy * oy;
    assert(oo == n.x@ * n.x@ + n.y@ * n.y@) by (nonlinear_arith)
        requires
            oo == ox * ox + oy * oy,
            ox == -n.y@,
            oy == n.x@,
    ;
    // square to the direction
    let oa = ox * ax + oy * ay;
    assert(-g <= 2 * oa <= g) by (nonlinear_arith)
        requires
            oa == ox * ax + oy * ay,
            ox == -n.y@,
            oy == n.x@,
            -g <= 2 * (n.x@ * ay - n.y@ * ax) <= g,
    ;
    // to its left
    let ol = ox * (-ay) + oy * ax;
    assert(ol >= 0) by (nonlinear_arith)
        requires
            ol == ox * (-ay) + oy * ax,
            ox == -n.y@,
            oy == n.x@,
            ax >= 0 ==> n.x@ >= 0,
            ax <= 0 ==> n.x@ <= 0,
            ay >= 0 ==> n.y@ >= 0,
            ay <= 0 ==> n.y@ <= 0,
    ;
    lemma_unit_step(o, off, ax, ay);
    lemma_unit_step(o, off, -ay, ax);
    let step = crate::math::scale(off, o);
    let vx = step.x@;
    let vy = step.y@;
    // the middle of the chord
    crate::fixed::lemma_div_whole(Fixed::one(), 2);
    let half = Fixed::from_ratio(1, 2);
    assert(half@ == 500_000_000);
    crate::fixed::lemma_mul_nearest(half, to.x.sub(from.x), 500_000_000, 400_000_000_000);
    crate::fixed::lemma_mul_nearest(half, to.y.sub(from.y), 500_000_000, 400_000_000_000);
    let middle = crate::math::lerp(from, to, half);
    assert(-401 * s <= middle.x@ <= 401 * s && -401 * s <= middle.y@ <= 401 * s);
    let p = off_chord(from, to, along, off);
    assert(p.x@ == middle.x@ + vx && p.y@ == middle.y@ + vy);
    crate::fixed::lemma_product_size(d, 2 * oa, d, g);
    assert(d * (2 * oa) == 2 * (d * oa) && d * g == g * d) by (nonlinear_arith);
    assert(g * (d + s) == g * d + s * g) by (nonlinear_arith);
    let va = vx * ax + vy * ay;
    assert(2 * s * va == 2 * (s * va));
    let vl = vx * (-ay) + vy * ax;
    assert(size(-ay) + size(ax) == g);
    let dl = d * ol;
    assert(dl >= 0) by (nonlinear_arith)
        requires
            dl == d * ol,
            d >= 0,
            ol >= 0,
    ;
    assert(2 * vl >= -g) by (nonlinear_arith)
        requires
            -(s * g) <= 2 * (s * vl - dl) <= s * g,
            dl >= 0,
            s == 1_000_000_000,
    ;
    assert(ax * vy - ay * vx == vl) by (nonlinear_arith)
        requires
            vl == vx * (-ay) + vy * ax,
    ;
}

/// The landmarks of the sleeve for the measurements `m` and the cap
/// distances `c`.
pub open spec fn construction(m: SleeveMeasurements, c: SleeveControlParameters) -> SleevePoints {
    let zero = Fixed::zero();
    let width = sleeve_width(m);
    let length = m.sleeve_length;
    let cap = cap_height(m);
    let half = width.div(Fixed::from_int(2));
    let half_wrist = m.sleeve_bottom_width.div(Fixed::from_int(2));
    let i = Point2::new(zero, cap);
    let i_prime = Point2::new(width, cap);
    let g2 = Point2::new(width.div(Fixed::from_int(4)), cap.div(Fixed::from_int(3)));
    let h2 = Point2::new(half.add(width.div(Fixed::from_int(4))), cap.div(Fixed::from_int(2)));
    SleevePoints {
        a: Point2::new(zero, zero),
        b: Point2::new(width, zero),
        c: Point2::new(zero, length),
        d: Point2::new(width, length),
        e: Point2::new(half, zero),
        f: Point2::new(half, length),
        i,
        i_prime,
        f1: Point2::new(half.sub(half_wrist), length),
        f2: Point2::new(half.add(half_wrist), length),
        g2,
        h2,
        g3: off_chord(g2, i, crate::math::sub(g2, i), c.g3_perpendicular),
        h3: off_chord(h2, i_prime, crate::math::sub(i_prime, h2), c.h3_perpendicular),
    }
}

/// The guide points of the sleeve for the measurements `m`.
pub open spec fn guides(m: SleeveMeasurements) -> SleeveHelpers {
    let zero = Fixed::zero();
    let width = sleeve_width(m);
    let cap = cap_height(m);
    let quarter = width.div(Fixed::from_int(4));
    let three_quarters = width.div(Fixed::from_int(2)).add(quarter);
    SleeveHelpers {
        g: Point2::new(quarter, zero),
        g1: Point2::new(quarter, cap),
        h: Point2::new(three_quarters, zero),
        h1: Point2::new(three_quarters, cap),
        j: Point2::new(zero, m.upper_arm_to_elbow),
        j_prime: Point2::new(width, m.upper_arm_to_elbow),
    }
}

/// Places the landmarks of the sleeve.
pub fn build_construction_points(m: &SleeveMeasurements, c: &SleeveControlParameters) -> (r:
    SleevePoints)
    ensures
        r == construction(*m, *c),
{
    let zero = Fixed::zero();
    let width = Fixed::from_hundredths(75).mul(m.armhole_measurement).add(Fixed::one());
    let length = m.sleeve_length;
    let cap = Fixed::from_int(2).mul(m.armhole_depth).div(Fixed::from_int(3));
    let half = width.div(Fixed::from_int(2));
    let half_wrist = m.sleeve_bottom_width.div(Fixed::from_int(2));
    let i = Point2::new(zero, cap);
    let i_prime = Point2::new(width, cap);
    let g2 = Point2::new(width.div(Fixed::from_int(4)), cap.div(Fixed::from_int(3)));
    let h2 = Point2::new(half.add(width.div(Fixed::from_int(4))), cap.div(Fixed::from_int(2)));
    let g3 = off_chord(g2, i, crate::math::sub(g2, i), c.g3_perpendicular);
    let h3 = off_chord(h2, i_prime, crate::math::sub(i_prime, h2), c.h3_perpendicular);
    SleevePoints {
        a: Point2::new(zero, zero),
        b: Point2::new(width, zero),
        c: Point2::new(zero, length),
        d: Point2::new(width, length),
        e: Point2::new(half, zero),
        f: Point2::new(half, length),
        i,
        i_prime,
        f1: Point2::new(half.sub(half_wrist), length),
        f2: Point2::new(half.add(half_wrist), length),
        g2,
        h2,
        g3,
        h3,
    }
}

/// Places the guide points of the sleeve.
pub fn build_bezier_helper_points(m: &SleeveMeasurements) -> (r: SleeveHelpers)
    ensures
        r == guides(*m),
{
    let zero = Fixed::zero();
    let width = Fixed::from_hundredths(75).mul(m.armhole_measurement).add(Fixed::one());
    let cap = Fixed::from_int(2).mul(m.armhole_depth).div(Fixed::from_int(3));
    let quarter = width.div(Fixed::from_int(4));
    let three_quarters = width.div(Fixed::from_int(2)).add(quarter);
    SleeveHelpers {
        g: Point2::new(quarter, zero),
        g1: Point2::new(quarter, cap),
        h: Point2::new(three_quarters, zero),
        h1: Point2::new(three_quarters, cap),
        j: Point2::new(zero, m.upper_arm_to_elbow),
        j_prime: Point2::new(width, m.upper_arm_to_elbow),
    }
}

impl SleevePoints {
    /// The landmarks under their letters.
    pub open spec fn named(self) -> Map<Seq<char>, Point2> {
        Map::<Seq<char>, Point2>::empty().insert(
            "A"@,
            self.a,
        ).insert(
            "B"@,
            self.b,
        ).insert(
            "C"@,
            self.c,
        ).insert(
            "D"@,
            self.d,
        ).insert(
            "E"@,
            self.e,
        ).insert(
            "F"@,
            self.f,
        ).insert(
            "I"@,
            self.i,
        ).insert(
            "I'"@,
            self.i_prime,
        ).insert(
            "F1"@,
            self.f1,
        ).insert(
            "F2"@,
            self.f2,
        ).insert(
            "G2"@,
            self.g2,
        ).insert(
            "H2"@,
            self.h2,
        ).insert(
            "G3"@,
            self.g3,
        ).insert(
            "H3"@,
            self.h3,
        )
    }

    /// The seven points that the cap curve runs through, from left to
    /// right.
    pub open spec fn cap(self) -> Seq<Point2> {
        seq![self.i, self.g3, self.g2, self.e, self.h2, self.h3, self.i_prime]
    }
}

/// The letters of the landmarks, in the order in which the draft places
/// them.
pub open spec fn landmark_order() -> Seq<Seq<char>> {
    seq!["A"@, "B"@, "C"@, "D"@, "E"@, "F"@, "I"@, "I'"@, "F1"@, "F2"@, "G2"@, "H2"@, "G3"@, "H3"@]
}

/// The names of the guide points, in the order in which the draft places
/// them.
pub open spec fn guide_order() -> Seq<Seq<char>> {
    seq!["G"@, "G1"@, "H"@, "H1"@, "J"@, "J'"@]
}

impl SleeveHelpers {
    /// The guide points under their names.
    pub open spec fn named(self) -> Map<Seq<char>, Point2> {
        Map::<Seq<char>, Point2>::empty().insert(
            "G"@,
            self.g,
        ).insert(
            "G1"@,
            self.g1,
        ).insert(
            "H"@,
            self.h,
        ).insert(
            "H1"@,
            self.h1,
        ).insert(
            "J"@,
            self.j,
        ).insert(
            "J'"@,
            self.j_prime,
        )
    }
}

/// The collection holds every landmark of the sleeve.
pub open spec fn has_landmarks(m: Map<Seq<char>, Point2>) -> bool {
    &&& m.contains_key("A"@)
    &&& m.contains_key("B"@)
    &&& m.contains_key("C"@)
    &&& m.contains_key("D"@)
    &&& m.contains_key("E"@)
    &&& m.contains_key("F"@)
    &&& m.contains_key("I"@)
    &&& m.contains_key("I'"@)
    &&& m.contains_key("F1"@)
    &&& m.contains_key("F2"@)
    &&& m.contains_key("G2"@)
    &&& m.contains_key("H2"@)
    &&& m.contains_key("G3"@)
    &&& m.contains_key("H3"@)
}

/// The collection holds every guide point of the sleeve.
pub open spec fn has_guides(m: Map<Seq<char>, Point2>) -> bool {
    &&& m.contains_key("G"@)
    &&& m.contains_key("G1"@)
    &&& m.contains_key("H"@)
    &&& m.contains_key("H1"@)
    &&& m.contains_key("J"@)
    &&& m.contains_key("J'"@)
}

/// The landmarks that a collection holds under their letters.
pub open spec fn landmarks_of(m: Map<Seq<char>, Point2>) -> SleevePoints {
    SleevePoints {
        a: m["A"@],
        b: m["B"@],
        c: m["C"@],
        d: m["D"@],
        e: m["E"@],
        f: m["F"@],
        i: m["I"@],
        i_prime: m["I'"@],
        f1: m["F1"@],
        f2: m["F2"@],
        g2: m["G2"@],
        h2: m["H2"@],
        g3: m["G3"@],
        h3: m["H3"@],
    }
}

fn store_landmarks(pts: &SleevePoints) -> (store: PointStore)
    ensures
        store.wf(),
        store@ == pts.named(),
        store.labels() == landmark_order(),
        has_landmarks(store@),
{
    proof {
        reveal_strlit("A");
        reveal_strlit("B");
        reveal_strlit("C");
        reveal_strlit("D");
        reveal_strlit("E");
        reveal_strlit("F");
        reveal_strlit("I");
        reveal_strlit("I'");
        reveal_strlit("F1");
        reveal_strlit("F2");
        reveal_strlit("G2");
        reveal_strlit("H2");
        reveal_strlit("G3");
        reveal_strlit("H3");
        assert("A"@.len() == 1 && "A"@[0] == 'A');
        assert("B"@.len() == 1 && "B"@[0] == 'B');
        assert("C"@.len() == 1 && "C"@[0] == 'C');
        assert("D"@.len() == 1 && "D"@[0] == 'D');
        assert("E"@.len() == 1 && "E"@[0] == 'E');
        assert("F"@.len() == 1 && "F"@[0] == 'F');
        assert("I"@.len() == 1 && "I"@[0] == 'I');
        assert("I'"@.len() == 2 && "I'"@[0] == 'I' && "I'"@[1] == '\'');
        assert("F1"@.len() == 2 && "F1"@[0] == 'F' && "F1"@[1] == '1');
        assert("F2"@.len() == 2 && "F2"@[0] == 'F' && "F2"@[1] == '2');
        assert("G2"@.len() == 2 && "G2"@[0] == 'G' && "G2"@[1] == '2');
        assert("H2"@.len() == 2 && "H2"@[0] == 'H' && "H2"@[1] == '2');
        assert("G3"@.len() == 2 && "G3"@[0] == 'G' && "G3"@[1] == '3');
        assert("H3"@.len() == 2 && "H3"@[0] == 'H' && "H3"@[1] == '3');
    }
    let mut store: PointStore = LabelMap::new();
    store.insert("A", pts.a);
    assert(store.labels().len() == 1);
    store.insert("B", pts.b);
    assert(store.labels().len() == 2);
    store.insert("C", pts.c);
    assert(store.labels().len() == 3);
    store.insert("D", pts.d);
    assert(store.labels().len() == 4);
    store.insert("E", pts.e);
    assert(store.labels().len() == 5);
    store.insert("F", pts.f);
    assert(store.labels().len() == 6);
    store.insert("I", pts.i);
    assert(store.labels().len() == 7);
    store.insert("I'", pts.i_prime);
    assert(store.labels().len() == 8);
    store.insert("F1", pts.f1);
    assert(store.labels().len() == 9);
    store.insert("F2", pts.f2);
    assert(store.labels().len() == 10);
    store.insert("G2", pts.g2);
    assert(store.labels().len() == 11);
    store.insert("H2", pts.h2);
    assert(store.labels().len() == 12);
    store.insert("G3", pts.g3);
    assert(store.labels().len() == 13);
    store.insert("H3", pts.h3);
    assert(store.labels().len() == 14);
    assert(store.labels() =~= landmark_order());
    store
}

fn store_guides(helpers: &SleeveHelpers) -> (store: PointStore)
    ensures
        store.wf(),
        store@ == helpers.named(),
        store.labels() == guide_order(),
        has_guides(store@),
{
    proof {
        reveal_strlit("G");
        reveal_strlit("G1");
        reveal_strlit("H");
        reveal_strlit("H1");
        reveal_strlit("J");
        reveal_strlit("J'");
        assert("G"@.len() == 1 && "G"@[0] == 'G');
        assert("G1"@.len() == 2 && "G1"@[0] == 'G' && "G1"@[1] == '1');
        assert("H"@.len() == 1 && "H"@[0] == 'H');
        assert("H1"@.len() == 2 && "H1"@[0] == 'H' && "H1"@[1] == '1');
        assert("J"@.len() == 1 && "J"@[0] == 'J');
        assert("J'"@.len() == 2 && "J'"@[0] == 'J' && "J'"@[1] == '\'');
    }
    let mut store: PointStore = LabelMap::new();
    store.insert("G", helpers.g);
    assert(store.labels().len() == 1);
    store.insert("G1", helpers.g1);
    assert(store.labels().len() == 2);
    store.insert("H", helpers.h);
    assert(store.labels().len() == 3);
    store.insert("H1", helpers.h1);
    assert(store.labels().len() == 4);
    store.insert("J", helpers.j);
    assert(store.labels().len() == 5);
    store.insert("J'", helpers.j_prime);
    assert(store.labels().len() == 6);
    assert(store.labels() =~= guide_order());
    store
}

/// The state of a sleeve as drafted: its landmarks and guide points under
/// their names, not stretched.
pub open spec fn sleeve_draft(m: SleeveMeasurements, c: SleeveControlParameters) -> StretchState {
    StretchState {
        stretched: false,
        h_factor: Fixed::one(),
        v_factor: Fixed::one(),
        points: construction(m, c).named(),
        helper_points: guides(m).named(),
        point_labels: landmark_order(),
        helper_labels: guide_order(),
    }
}

/// The least of each pair of lower ends and the greatest of each pair of
/// upper ends of two extents.
pub open spec fn spec_joined(
    d: (Fixed, Fixed, Fixed, Fixed),
    e: (Fixed, Fixed, Fixed, Fixed),
) -> (Fixed, Fixed, Fixed, Fixed) {
    (d.0.min(e.0), d.1.max(e.1), d.2.min(e.2), d.3.max(e.3))
}

/// The frame of the drawing of a sleeve whose points have the extent `e`:
/// 5 cm wider on the left, on the right and at the top, 10 cm at the
/// bottom.
pub open spec fn sleeve_frame(e: (Fixed, Fixed, Fixed, Fixed)) -> (Fixed, Fixed, Fixed, Fixed) {
    (
        e.0.sub(Fixed::from_int(5)),
        e.1.add(Fixed::from_int(5)),
        e.2.sub(Fixed::from_int(5)),
        e.3.add(Fixed::from_int(10)),
    )
}

/// The sleeve block.
pub struct SleevePattern {
    pub base: StretchBase,
    pub m: SleeveMeasurements,
    pub c: SleeveControlParameters,
    /// The frame of the drawing: least and greatest `x`, least and
    /// greatest `y`.
    pub bounds: (Fixed, Fixed, Fixed, Fixed),
}

/// What a [`SleevePattern`] holds, as plain mathematical data.
pub struct SleeveView {
    pub base: StretchState,
    pub m: SleeveMeasurements,
    pub c: SleeveControlParameters,
    pub bounds: (Fixed, Fixed, Fixed, Fixed),
}

impl SleeveView {
    /// The sleeve with its frame fitted to all its points, landmarks and
    /// guide points.
    pub open spec fn framed(self) -> SleeveView {
        SleeveView {
            bounds: sleeve_frame(
                spec_joined(extent_of(self.base.points), extent_of(self.base.helper_points)),
            ),
            ..self
        }
    }
}

/// The sleeve as drafted, in its frame.
pub open spec fn sleeve_pattern(m: SleeveMeasurements, c: SleeveControlParameters) -> SleeveView {
    SleeveView {
        base: sleeve_draft(m, c),
        m,
        c,
        bounds: (Fixed::zero(), Fixed::zero(), Fixed::zero(), Fixed::zero()),
    }.framed()
}

impl View for SleevePattern {
    type V = SleeveView;

    open spec fn view(&self) -> SleeveView {
        SleeveView { base: self.base@, m: self.m, c: self.c, bounds: self.bounds }
    }
}

impl SleevePattern {
    /// Well-formedness: both collections are, and hold the points that the
    /// outline is drawn from.
    pub open spec fn wf(&self) -> bool {
        &&& self.base.wf()
        &&& has_landmarks(self.base.points@)
        &&& has_guides(self.base.helper_points@)
    }

    /// Drafts the sleeve: the landmarks, the guide points, and the frame
    /// that fits them all.
    pub fn new(measurements: SleeveMeasurements, control: SleeveControlParameters) -> (p: Self)
        ensures
            p.wf(),
            p@ == sleeve_pattern(measurements, control),
    {
        let pts = build_construction_points(&measurements, &control);
        let helpers = build_bezier_helper_points(&measurements);
        let mut base = StretchBase::new();
        base.points = store_landmarks(&pts);
        base.helper_points = store_guides(&helpers);
        let zero = Fixed::zero();
        let mut p = SleevePattern {
            base,
            m: measurements,
            c: control,
            bounds: (zero, zero, zero, zero),
        };
        p.compute_bounds();
        p
    }

    /// Shrinks the sleeve for a fabric that stretches, once. The frame
    /// stays as it was.
    pub fn stretch(&mut self, horizontal: Fixed, vertical: Fixed, usage: Fixed) -> (r: Result<
        (),
        String,
    >)
        requires
            old(self).wf(),
        ensures
            final(self).wf(),
            (final(self).base@, r is Ok) == old(self).base@.request_stretch(
                horizontal,
                vertical,
                usage,
            ),
            r is Err ==> *final(self) == *old(self) && r->Err_0@ == StretchBase::refusal(),
            final(self).m == old(self).m,
            final(self).c == old(self).c,
            final(self).bounds == old(self).bounds,
    {
        let r = self.base.stretch(horizontal, vertical, usage);
        proof {
            assert(self.base.points@.dom() =~= old(self).base.points@.dom());
            assert(self.base.helper_points@.dom() =~= old(self).base.helper_points@.dom());
        }
        r
    }

    /// The landmark under `name`.
    pub fn pt(&self, name: &str) -> (p: Point2)
        requires
            self.base.wf(),
            self.base.points@.contains_key(name@),
        ensures
            p == self.base.points@[name@],
    {
        self.base.points.get(name).unwrap()
    }

    /// Fits the frame to all points, landmarks and guide points: 5 cm
    /// beyond them on the left, on the right and at the top, 10 cm at the
    /// bottom.
    pub fn compute_bounds(&mut self)
        requires
            old(self).wf(),
        ensures
            final(self).wf(),
            final(self).base == old(self).base,
            final(self)@ == old(self)@.framed(),
            is_extent(old(self).base.points@, extent_of(old(self).base.points@)),
            is_extent(old(self).base.helper_points@, extent_of(old(self).base.helper_points@)),
    {
        let d = extent(&self.base.points);
        let e = extent(&self.base.helper_points);
        let all = (d.0.min(e.0), d.1.max(e.1), d.2.min(e.2), d.3.max(e.3));
        self.bounds = (
            all.0.sub(Fixed::from_int(5)),
            all.1.add(Fixed::from_int(5)),
            all.2.sub(Fixed::from_int(5)),
            all.3.add(Fixed::from_int(10)),
        );
    }

    /// The seven points that the cap curve runs through: `I`, `G3`, `G2`,
    /// `E`, `H2`, `H3`, `I'`.
    pub fn cap_curve_points(&self) -> (r: Vec<Point2>)
        requires
            self.wf(),
        ensures
            r@ == landmarks_of(self.base.points@).cap(),
    {
        let mut r: Vec<Point2> = Vec::new();
        r.push(self.pt("I"));
        r.push(self.pt("G3"));
        r.push(self.pt("G2"));
        r.push(self.pt("E"));
        r.push(self.pt("H2"));
        r.push(self.pt("H3"));
        r.push(self.pt("I'"));
        assert(r@ =~= landmarks_of(self.base.points@).cap());
        r
    }

    /// The length of the cap measured along the straight lines between its
    /// seven points: a check figure for setting the sleeve into the
    /// armhole, not the length of the curve.
    pub fn sleeve_cap_control(&self) -> (total: Fixed)
        requires
            self.wf(),
        ensures
            total == path_length(landmarks_of(self.base.points@).cap(), 6),
    {
        let pts = self.cap_curve_points();
        let mut total = Fixed::zero();
        let mut i: usize = 0;
        while i + 1 < pts.len()
            invariant
                pts@ == landmarks_of(self.base.points@).cap(),
                i < pts.len(),
                total == path_length(pts@, i as int),
            decreases pts.len() - i,
        {
            total = total.add(crate::math::norm(crate::math::sub(pts[i + 1], pts[i])));
            i += 1;
        }
        total
    }

    /// The cap curve: the natural cubic spline through its seven points,
    /// as six Bezier arcs. The first starts at `I` and the last ends at
    /// `I'`.
    pub fn cap_curve(&self) -> (r: Vec<BezierSegment>)
        requires
            self.wf(),
        ensures
            r@ == spline_beziers(landmarks_of(self.base.points@).cap()),
            r.len() == 6,
            r[0].0 == self.base.points@["I"@],
            r[5].3 == self.base.points@["I'"@],
    {
        let pts = self.cap_curve_points();
        cubic_spline_to_beziers(pts.as_slice())
    }
}

/// The length of the path along the first `n` chords between the points
/// of `pts`.
pub open spec fn path_length(pts: Seq<Point2>, n: int) -> Fixed
    decreases n,
{
    if n <= 0 {
        Fixed::zero()
    } else {
        path_length(pts, n - 1).add(crate::math::norm(crate::math::sub(pts[n], pts[n - 1])))
    }
}

/// The frame of a sleeve holds every one of its points, landmark or
/// guide point, with its margins: 5 cm to the left and to the right of
/// it, 5 cm above (towards smaller `y`) and 10 cm below.
pub proof fn lemma_frame_holds_points(p: SleeveView, q: Point2)
    requires
        exists|k: Seq<char>|
            (#[trigger] p.base.points.contains_key(k) && p.base.points[k] == q) || (
            #[trigger] p.base.helper_points.contains_key(k) && p.base.helper_points[k] == q),
        is_extent(p.base.points, extent_of(p.base.points)),
        is_extent(p.base.helper_points, extent_of(p.base.helper_points)),
        forall|k: Seq<char>|
            p.base.points.contains_key(k) ==> within_reach(#[trigger] p.base.points[k]),
        forall|k: Seq<char>|
            p.base.helper_points.contains_key(k) ==> within_reach(
                #[trigger] p.base.helper_points[k],
            ),
    ensures
        ({
            let f = p.framed().bounds;
            &&& f.0@ + 5 * SCALE <= q.x@
            &&& q.x@ + 5 * SCALE <= f.1@
            &&& f.2@ + 5 * SCALE <= q.y@
            &&& q.y@ + 10 * SCALE <= f.3@
        }),
{
    let d = extent_of(p.base.points);
    let e = extent_of(p.base.helper_points);
    let all = spec_joined(d, e);
    assert(within_reach(q));
    assert(all.0@ <= q.x@ <= all.1@ && all.2@ <= q.y@ <= all.3@);
    lemma_extent_within_reach(p.base.points, d);
    lemma_extent_within_reach(p.base.helper_points, e);
}

/// The ends of the extent of points within reach are within reach, or
/// stand for no point.
proof fn lemma_extent_within_reach(m: Map<Seq<char>, Point2>, e: (Fixed, Fixed, Fixed, Fixed))
    requires
        is_extent(m, e),
        forall|k: Seq<char>| m.contains_key(k) ==> within_reach(#[trigger] m[k]),
    ensures
        e.0 == highest() || -9_000_000_000_000_000_000 <= e.0@ <= 9_000_000_000_000_000_000,
        e.1 == lowest() || -9_000_000_000_000_000_000 <= e.1@ <= 9_000_000_000_000_000_000,
        e.2 == highest() || -9_000_000_000_000_000_000 <= e.2@ <= 9_000_000_000_000_000_000,
        e.3 == lowest() || -9_000_000_000_000_000_000 <= e.3@ <= 9_000_000_000_000_000_000,
{
    if e.0 != highest() {
        let k = choose|k: Seq<char>| #[trigger] m.contains_key(k) && m[k].x == e.0;
        assert(within_reach(m[k]));
    }
    if e.1 != lowest() {
        let k = choose|k: Seq<char>| #[trigger] m.contains_key(k) && m[k].x == e.1;
        assert(within_reach(m[k]));
    }
    if e.2 != highest() {
        let k = choose|k: Seq<char>| #[trigger] m.contains_key(k) && m[k].y == e.2;
        assert(within_reach(m[k]));
    }
    if e.3 != lowest() {
        let k = choose|k: Seq<char>| #[trigger] m.contains_key(k) && m[k].y == e.3;
        assert(within_reach(m[k]));
    }
}

} // verus!
