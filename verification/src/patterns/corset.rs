//! The bodice block: front and back of a close-fitting bodice, drafted by
//! the French method from waist, bust, hip, neck and shoulder measurements.
//! Its drawings are in [`crate::patterns::corset_sheet`]; that the solved
//! armhole curves pass through their targets is shown in
//! [`crate::patterns::armhole`].

use crate::fixed::{
    floor_sqrt, lemma_floor_sqrt_exists, lemma_floor_sqrt_monotone, lemma_floor_sqrt_unique,
    lemma_round_div_monotone, lemma_round_div_nearest, lemma_round_div_sign, lemma_signs,
    round_div, Fixed, SCALE,
};
use crate::math::{
    bisect, dichotomic_search, lemma_final_bracket, lemma_search_of_function, opposite_signs,
    BisectionError, Point2,
};
use crate::measurements::FullMeasurements;
use crate::patterns::stretch::{
    extent, extent_of, highest, is_extent, lowest, within_reach, PointStore, StretchBase,
    StretchState,
};
use crate::store::LabelMap;
use vstd::prelude::*;

verus! {

/// Why a block could not be drafted from a set of measurements.
#[derive(Clone, Copy, Debug, PartialEq, Eq, Structural)]
pub enum DraftError {
    /// An implicit equation of the draft has no change of sign over its
    /// search interval, so no point satisfies it.
    NonBracketingInterval,
    /// The underarm height does not exceed the distance between the waist
    /// and hip quarter widths, so the underarm point cannot be placed.
    UnderarmTooShort,
    /// The shoulder length is less than the rise of the neck line, so the
    /// shoulder point cannot be placed.
    ShoulderTooShort,
}

/// What is said of an equation without a solution.
pub const NO_SOLUTION: &'static str =
    "Non-bracketing interval: the measurements allow no solution.";

/// What is said of an underarm height that is too short.
pub const UNDERARM_TOO_SHORT: &'static str =
    "Underarm height is too short for the waist and hip widths.";

/// What is said of a shoulder length that is too short.
pub const SHOULDER_TOO_SHORT: &'static str = "Shoulder length is too short for the neck line.";

impl DraftError {
    /// A sentence that names the failure.
    pub open spec fn spec_message(self) -> Seq<char> {
        match self {
            DraftError::NonBracketingInterval => NO_SOLUTION@,
            DraftError::UnderarmTooShort => UNDERARM_TOO_SHORT@,
            DraftError::ShoulderTooShort => SHOULDER_TOO_SHORT@,
        }
    }

    /// A sentence that names the failure.
    pub fn message(self) -> (r: String)
        ensures
            r@ == self.spec_message(),
    {
        match self {
            DraftError::NonBracketingInterval => NO_SOLUTION.to_string(),
            DraftError::UnderarmTooShort => UNDERARM_TOO_SHORT.to_string(),
            DraftError::ShoulderTooShort => SHOULDER_TOO_SHORT.to_string(),
        }
    }
}

/// The error of the draft that stands for a failed root search.
pub open spec fn draft_error(e: BisectionError) -> DraftError {
    match e {
        BisectionError::NonBracketingInterval => DraftError::NonBracketingInterval,
    }
}

/// The circle constant, to nine places.
pub open spec fn spec_pi() -> Fixed {
    Fixed { raw: 3_141_592_654 }
}

/// The circle constant, to nine places.
#[verifier::when_used_as_spec(spec_pi)]
pub fn pi() -> (r: Fixed)
    ensures
        r == spec_pi(),
{
    Fixed { raw: 3_141_592_654 }
}

/// The width to which the implicit equations of a draft are solved: one
/// millionth.
pub open spec fn spec_tolerance() -> Fixed {
    Fixed { raw: 1_000 }
}

/// The width to which the implicit equations of a draft are solved: one
/// millionth.
#[verifier::when_used_as_spec(spec_tolerance)]
pub fn tolerance() -> (r: Fixed)
    ensures
        r == spec_tolerance(),
{
    Fixed { raw: 1_000 }
}

/// The height of the back neck line above the shoulder line: 2 cm.
pub open spec fn spec_neck_back_height() -> Fixed {
    Fixed::from_int(2)
}

/// The height of the back neck line above the shoulder line: 2 cm.
#[verifier::when_used_as_spec(spec_neck_back_height)]
pub fn neck_back_height() -> (r: Fixed)
    ensures
        r == spec_neck_back_height(),
{
    Fixed::from_int(2)
}

/// The length of a quarter of an ellipse with half axes `w` and `h`, by the
/// approximation `sqrt((w^2 + h^2) / 2)`.
pub open spec fn spec_quarter_arc(w: Fixed, h: Fixed) -> Fixed {
    w.mul(w).add(h.mul(h)).div(Fixed::from_int(2)).sqrt()
}

/// The length of a quarter of an ellipse with half axes `w` and `h`, by the
/// approximation `sqrt((w^2 + h^2) / 2)`.
#[verifier::when_used_as_spec(spec_quarter_arc)]
pub fn quarter_arc(w: Fixed, h: Fixed) -> (r: Fixed)
    ensures
        r == spec_quarter_arc(w, h),
{
    w.mul(w).add(h.mul(h)).div(Fixed::from_int(2)).sqrt()
}

/// By how much a neck of half width `w`, with a back arc of height
/// `back_height` and a front arc of height `front_height`, is longer than
/// `target`.
pub open spec fn spec_neck_excess(
    back_height: Fixed,
    front_height: Fixed,
    target: Fixed,
    w: Fixed,
) -> Fixed {
    quarter_arc(w, back_height).add(quarter_arc(w, front_height)).sub(target)
}

/// By how much a neck of half width `w`, with a back arc of height
/// `back_height` and a front arc of height `front_height`, is longer than
/// `target`.
#[verifier::when_used_as_spec(spec_neck_excess)]
pub fn neck_excess(back_height: Fixed, front_height: Fixed, target: Fixed, w: Fixed) -> (r: Fixed)
    ensures
        r == spec_neck_excess(back_height, front_height, target, w),
{
    quarter_arc(w, back_height).add(quarter_arc(w, front_height)).sub(target)
}

/// The height of the front neck line: what the back is longer than the
/// front from neck to waist, on top of the height of the back neck line.
pub open spec fn neck_front_height(fm: FullMeasurements) -> Fixed {
    fm.back_waist_length.sub(fm.front_waist_length).add(neck_back_height())
}

/// The length that the two quarter arcs of the neck line add up to: the
/// neck circumference over pi.
pub open spec fn neck_target(fm: FullMeasurements) -> Fixed {
    fm.neck_circumference.div(pi())
}

/// The half width of the neck line: the root of [`neck_excess`] between
/// 0.01 cm and the target length, found by bisection.
pub open spec fn neck_width(fm: FullMeasurements) -> Result<Fixed, BisectionError> {
    bisect(
        |w: Fixed| neck_excess(neck_back_height(), neck_front_height(fm), neck_target(fm), w),
        Fixed::from_hundredths(1),
        neck_target(fm),
        tolerance(),
    )
}

/// The measurements that the bodice block is drafted from.
#[derive(Clone, Copy, Debug, PartialEq, Eq, Structural)]
pub struct CorsetMeasurements {
    pub back_waist_length: Fixed,
    pub front_waist_length: Fixed,
    pub full_bust: Fixed,
    pub bust_height: Fixed,
    pub full_waist: Fixed,
    pub full_hip: Fixed,
    pub half_back_width: Fixed,
    pub half_front_width: Fixed,
    pub shoulder_length: Fixed,
    pub underarm_height: Fixed,
    pub waist_to_hip: Fixed,
    /// Computed: the half width of the neck line.
    pub neck_width: Fixed,
    /// Computed: the height of the back neck line.
    pub neck_back_height: Fixed,
}

impl CorsetMeasurements {
    /// The bodice measurements that belong to a full set: eleven taken
    /// over, the height of the back neck line fixed at 2 cm, and the half
    /// width of the neck line solved from the neck circumference.
    pub open spec fn spec_from_full(fm: FullMeasurements) -> Result<
        CorsetMeasurements,
        DraftError,
    > {
        match neck_width(fm) {
            Ok(w) => Ok(
                CorsetMeasurements {
                    back_waist_length: fm.back_waist_length,
                    front_waist_length: fm.front_waist_length,
                    full_bust: fm.full_bust,
                    bust_height: fm.bust_height,
                    full_waist: fm.full_waist,
                    full_hip: fm.full_hip,
                    half_back_width: fm.half_back_width,
                    half_front_width: fm.half_front_width,
                    shoulder_length: fm.shoulder_length,
                    underarm_height: fm.underarm_height,
                    waist_to_hip: fm.waist_to_hip,
                    neck_width: w,
                    neck_back_height: neck_back_height(),
                },
            ),
            Err(e) => Err(draft_error(e)),
        }
    }

    /// Derives the bodice measurements from a full set.
    ///
    /// The half width of the neck line is the one at which two quarter
    /// ellipses, of the heights of the back and the front neck line,
    /// together measure the neck circumference over pi. It is refused
    /// where no width between 0.01 cm and that length gives a change of
    /// sign, which is where the neck circumference is too small for the
    /// difference between the back and front lengths.
    pub fn from_full(fm: &FullMeasurements) -> (r: Result<CorsetMeasurements, DraftError>)
        ensures
            r == CorsetMeasurements::spec_from_full(*fm),
    {
        let back_height = neck_back_height();
        let front_height = fm.back_waist_length.sub(fm.front_waist_length).add(back_height);
        let target = fm.neck_circumference.div(pi());
        let f = |w: Fixed| -> (y: Fixed)
            ensures
                y == neck_excess(back_height, front_height, target, w),
            { neck_excess(back_height, front_height, target, w) };
        let found = dichotomic_search(f, Fixed::from_hundredths(1), target, tolerance());
        proof {
            lemma_search_of_function(
                f,
                |w: Fixed| neck_excess(back_height, front_height, target, w),
                Fixed::from_hundredths(1),
                target,
                tolerance(),
                found,
            );
        }
        match found {
            Ok(w) => Ok(
                CorsetMeasurements {
                    back_waist_length: fm.back_waist_length,
                    front_waist_length: fm.front_waist_length,
                    full_bust: fm.full_bust,
                    bust_height: fm.bust_height,
                    full_waist: fm.full_waist,
                    full_hip: fm.full_hip,
                    half_back_width: fm.half_back_width,
                    half_front_width: fm.half_front_width,
                    shoulder_length: fm.shoulder_length,
                    underarm_height: fm.underarm_height,
                    waist_to_hip: fm.waist_to_hip,
                    neck_width: w,
                    neck_back_height: back_height,
                },
            ),
            Err(_) => Err(DraftError::NonBracketingInterval),
        }
    }
}

/// The ratios that shape the curves of the bodice. Each scales the
/// distance of a Bezier control point; none changes which points exist.
#[derive(Clone, Copy, Debug, PartialEq, Eq, Structural)]
pub struct CorsetControlParameters {
    /// Pull of the front neck curve at the centre line, per neck width.
    pub front_neck_center: Fixed,
    /// Pull of the back neck curve at the centre line, per neck width.
    pub back_neck_center: Fixed,
    /// Pull of the front neck curve at the shoulder, per neck width.
    pub front_neck_top: Fixed,
    /// Pull of the back neck curve at the shoulder, per neck width.
    pub back_neck_top: Fixed,
    /// Depth of the armhole curve at the underarm, per underarm height.
    pub armhole_curve: Fixed,
}

impl CorsetControlParameters {
    /// The ratios 0.8, 0.5, 0.34, 0.20 and 0.4.
    pub open spec fn spec_default() -> CorsetControlParameters {
        CorsetControlParameters {
            front_neck_center: Fixed::from_hundredths(80),
            back_neck_center: Fixed::from_hundredths(50),
            front_neck_top: Fixed::from_hundredths(34),
            back_neck_top: Fixed::from_hundredths(20),
            armhole_curve: Fixed::from_hundredths(40),
        }
    }
}

impl Default for CorsetControlParameters {
    fn default() -> (r: Self)
        ensures
            r == CorsetControlParameters::spec_default(),
    {
        CorsetControlParameters {
            front_neck_center: Fixed::from_hundredths(80),
            back_neck_center: Fixed::from_hundredths(50),
            front_neck_top: Fixed::from_hundredths(34),
            back_neck_top: Fixed::from_hundredths(20),
            armhole_curve: Fixed::from_hundredths(40),
        }
    }
}

/// The landmarks of the bodice, by their letters on the draft. The front
/// lies to the left of the centre line `x = 0`, the waist on `y = 0`.
#[derive(Clone, Copy, Debug, PartialEq, Eq, Structural)]
pub struct CorsetPoints {
    /// Centre line at hip level.
    pub a: Point2,
    /// Side at hip level.
    pub a1: Point2,
    /// Centre line at the waist: the origin.
    pub b: Point2,
    /// Side at the waist.
    pub b1: Point2,
    /// Centre line at bust level.
    pub c: Point2,
    /// Underarm point.
    pub c1: Point2,
    /// Centre line at shoulder-blade level.
    pub d: Point2,
    /// Where the armhole passes in front.
    pub d1: Point2,
    /// Where the armhole passes in the back.
    pub d2: Point2,
    /// Top of the front at the centre line.
    pub e: Point2,
    /// Top of the back at the centre line.
    pub f: Point2,
    /// Neck end of the shoulder seam.
    pub h: Point2,
    /// Arm end of the shoulder seam.
    pub k: Point2,
}

/// A quarter of the waist.
pub open spec fn waist_quarter(m: CorsetMeasurements) -> Fixed {
    m.full_waist.div(Fixed::from_int(4))
}

/// A quarter of the hips.
pub open spec fn hip_quarter(m: CorsetMeasurements) -> Fixed {
    m.full_hip.div(Fixed::from_int(4))
}

/// How far the underarm point lies to the side of the waist point.
pub open spec fn underarm_offset(m: CorsetMeasurements) -> Fixed {
    hip_quarter(m).neg().sub(waist_quarter(m).neg())
}

/// The neck point of the front on the level of `E`.
pub open spec fn neck_front_point(m: CorsetMeasurements) -> Point2 {
    crate::math::sub(
        Point2::new(Fixed::zero(), m.front_waist_length),
        Point2::new(m.neck_width, Fixed::zero()),
    )
}

/// The top of the back at the centre line.
pub open spec fn back_top(m: CorsetMeasurements) -> Point2 {
    Point2::new(
        Fixed::zero(),
        m.back_waist_length.add(m.neck_back_height.div(Fixed::from_int(2))),
    )
}

/// The neck end of the shoulder seam.
pub open spec fn shoulder_neck_point(m: CorsetMeasurements) -> Point2 {
    crate::math::add(
        back_top(m),
        Point2::new(m.neck_width.neg(), m.neck_back_height.div(Fixed::from_int(2))),
    )
}

/// The point a third of the way from the front neck point `G` to the neck
/// end `H` of the shoulder seam, on whose level the shoulder ends:
/// `(2 G + H) / 3`, rounded once.
pub open spec fn shoulder_level_point(m: CorsetMeasurements) -> Point2 {
    crate::math::divide(
        crate::math::add(
            crate::math::scale(Fixed::from_int(2), neck_front_point(m)),
            shoulder_neck_point(m),
        ),
        Fixed::from_int(3),
    )
}

/// The square of the shoulder length less the square of the rise of the
/// shoulder seam: the square of the seam's horizontal run.
pub open spec fn shoulder_run_squared(m: CorsetMeasurements) -> Fixed {
    let rise = shoulder_neck_point(m).y.sub(shoulder_level_point(m).y);
    m.shoulder_length.mul(m.shoulder_length).sub(rise.mul(rise))
}

/// The landmarks of the bodice for the measurements `m`, where they can be
/// placed.
///
/// The underarm point `C1` lies on the hip quarter width, at the underarm
/// height from the waist point `B1`: the underarm height has to exceed the
/// distance between the two widths. The arm end `K` of the shoulder seam
/// lies on the level of a third of the neck line, at the shoulder length
/// from its neck end `H`: the shoulder length has to reach that level.
#[verifier::opaque]
pub open spec fn construction(m: CorsetMeasurements) -> Result<CorsetPoints, DraftError> {
    let e = Point2::new(Fixed::zero(), m.front_waist_length);
    let f = back_top(m);
    let h = shoulder_neck_point(m);
    let bust_level = e.y.sub(m.bust_height);
    let b1 = Point2::new(waist_quarter(m).neg(), Fixed::zero());
    let reach = underarm_offset(m);
    let d = crate::math::scale(
        Fixed::from_ratio(1, 2),
        crate::math::add(f, Point2::new(Fixed::zero(), bust_level)),
    );
    let j = shoulder_level_point(m);
    if m.underarm_height@ <= reach.abs()@ {
        Err(DraftError::UnderarmTooShort)
    } else if shoulder_run_squared(m)@ < 0 {
        Err(DraftError::ShoulderTooShort)
    } else {
        Ok(
            CorsetPoints {
                a: Point2::new(Fixed::zero(), m.waist_to_hip.neg()),
                a1: Point2::new(hip_quarter(m).neg(), m.waist_to_hip.neg()),
                b: Point2::origin(),
                b1,
                c: Point2::new(Fixed::zero(), bust_level),
                c1: Point2::new(
                    hip_quarter(m).neg(),
                    b1.y.add(
                        m.underarm_height.mul(m.underarm_height).sub(reach.mul(reach)).sqrt(),
                    ),
                ),
                d,
                d1: crate::math::sub(d, Point2::new(m.half_front_width, Fixed::zero())),
                d2: crate::math::sub(d, Point2::new(m.half_back_width, Fixed::zero())),
                e,
                f,
                h,
                k: crate::math::sub(j, Point2::new(shoulder_run_squared(m).sqrt(), Fixed::zero())),
            },
        )
    }
}

/// Places the landmarks of the bodice, each from the measurements and from
/// landmarks placed before it.
pub fn build_construction_points(m: &CorsetMeasurements) -> (r: Result<CorsetPoints, DraftError>)
    ensures
        r == construction(*m),
{
    reveal(construction);
    let zero = Fixed::zero();
    let b = Point2::origin();
    let width = m.full_waist.div(Fixed::from_int(4));
    let b1 = Point2::new(width.neg(), zero);
    let e = Point2::new(zero, m.front_waist_length);
    let f = Point2::new(zero, m.back_waist_length.add(m.neck_back_height.div(Fixed::from_int(2))));
    let g = crate::math::sub(e, Point2::new(m.neck_width, zero));
    let h = crate::math::add(
        f,
        Point2::new(m.neck_width.neg(), m.neck_back_height.div(Fixed::from_int(2))),
    );
    let a = Point2::new(zero, m.waist_to_hip.neg());
    let hip_width = m.full_hip.div(Fixed::from_int(4));
    let a1 = Point2::new(hip_width.neg(), m.waist_to_hip.neg());
    let bust_level = e.y.sub(m.bust_height);
    let c = Point2::new(zero, bust_level);
    let x = hip_width.neg();
    let reach = x.sub(b1.x);
    if m.underarm_height.le(reach.abs()) {
        return Err(DraftError::UnderarmTooShort);
    }
    let rise_of_side = m.underarm_height.mul(m.underarm_height).sub(reach.mul(reach)).sqrt();
    let c1 = Point2::new(x, b1.y.add(rise_of_side));
    let d = crate::math::scale(
        Fixed::from_ratio(1, 2),
        crate::math::add(f, Point2::new(zero, bust_level)),
    );
    let d1 = crate::math::sub(d, Point2::new(m.half_front_width, zero));
    let d2 = crate::math::sub(d, Point2::new(m.half_back_width, zero));
    let j = crate::math::divide(
        crate::math::add(crate::math::scale(Fixed::from_int(2), g), h),
        Fixed::from_int(3),
    );
    let rise = h.y.sub(j.y);
    let run_squared = m.shoulder_length.mul(m.shoulder_length).sub(rise.mul(rise));
    if run_squared.is_negative() {
        return Err(DraftError::ShoulderTooShort);
    }
    let k = crate::math::sub(j, Point2::new(run_squared.sqrt(), zero));
    Ok(CorsetPoints { a, a1, b, b1, c, c1, d, d1, d2, e, f, h, k })
}

/// The Bezier control points of the bodice, by their names on the draft.
#[derive(Clone, Copy, Debug, PartialEq, Eq, Structural)]
pub struct CorsetHelpers {
    /// Front neck curve, at the centre line.
    pub e1: Point2,
    /// Back neck curve, at the centre line.
    pub f1: Point2,
    /// Front neck curve, at the shoulder.
    pub h1: Point2,
    /// Back neck curve, at the shoulder.
    pub h2: Point2,
    /// Front armhole, at the underarm.
    pub c11: Point2,
    /// Front armhole, at the shoulder.
    pub k1: Point2,
    /// Back armhole, at the underarm.
    pub c12: Point2,
    /// Back armhole, at the shoulder.
    pub k2: Point2,
}

/// The direction `dir` or its opposite, whichever does not point away
/// from `toward`.
pub open spec fn spec_oriented(dir: Point2, toward: Point2) -> Point2 {
    if crate::math::dot(dir, toward)@ < 0 {
        crate::math::scale(Fixed::one().neg(), dir)
    } else {
        dir
    }
}

/// The direction `dir` or its opposite, whichever does not point away
/// from `toward`.
#[verifier::when_used_as_spec(spec_oriented)]
pub fn oriented(dir: Point2, toward: Point2) -> (r: Point2)
    ensures
        r == spec_oriented(dir, toward),
{
    if crate::math::dot(dir, toward).is_negative() {
        crate::math::scale(Fixed::one().neg(), dir)
    } else {
        dir
    }
}

/// What is left of `target` when the armhole curve at the parameter `t` is
/// taken off it, but for the term of its unknown second control point:
/// `target - (1-t)^2 (1+2t) K - 3 (1-t) t^2 Cx - t^3 C1`.
pub open spec fn spec_armhole_offset(
    t: Fixed,
    k: Point2,
    cx: Point2,
    c1: Point2,
    target: Point2,
) -> Point2 {
    let u = Fixed::one().sub(t);
    let term_k = crate::math::scale(
        u.mul(u).mul(Fixed::one().add(Fixed::from_int(2).mul(t))),
        k,
    );
    let term_cx = crate::math::scale(Fixed::from_int(3).mul(u).mul(t).mul(t), cx);
    let term_c1 = crate::math::scale(t.mul(t).mul(t), c1);
    crate::math::sub(target, crate::math::add(term_k, crate::math::add(term_cx, term_c1)))
}

/// What is left of `target` when the armhole curve at the parameter `t` is
/// taken off it, but for the term of its unknown second control point.
#[verifier::when_used_as_spec(spec_armhole_offset)]
pub fn armhole_offset(t: Fixed, k: Point2, cx: Point2, c1: Point2, target: Point2) -> (r: Point2)
    ensures
        r == spec_armhole_offset(t, k, cx, c1, target),
{
    let u = Fixed::one().sub(t);
    let term_k = crate::math::scale(
        u.mul(u).mul(Fixed::one().add(Fixed::from_int(2).mul(t))),
        k,
    );
    let term_cx = crate::math::scale(Fixed::from_int(3).mul(u).mul(t).mul(t), cx);
    let term_c1 = crate::math::scale(t.mul(t).mul(t), c1);
    crate::math::sub(target, crate::math::add(term_k, crate::math::add(term_cx, term_c1)))
}

/// How far the rest of [`armhole_offset`] is from lying along `dir`: its
/// cross product with `dir`.
pub open spec fn spec_armhole_residual(
    t: Fixed,
    k: Point2,
    cx: Point2,
    c1: Point2,
    target: Point2,
    dir: Point2,
) -> Fixed {
    let r = armhole_offset(t, k, cx, c1, target);
    r.x.mul(dir.y).sub(r.y.mul(dir.x))
}

/// How far the rest of [`armhole_offset`] is from lying along `dir`: its
/// cross product with `dir`.
#[verifier::when_used_as_spec(spec_armhole_residual)]
pub fn armhole_residual(
    t: Fixed,
    k: Point2,
    cx: Point2,
    c1: Point2,
    target: Point2,
    dir: Point2,
) -> (r: Fixed)
    ensures
        r == spec_armhole_residual(t, k, cx, c1, target, dir),
{
    let r = armhole_offset(t, k, cx, c1, target);
    r.x.mul(dir.y).sub(r.y.mul(dir.x))
}

/// The first control point of an armhole curve: from the underarm point
/// `C1`, square to the side seam `B1 C1` on the side of `target`, at the
/// distance `depth`.
pub open spec fn armhole_low_control(pts: CorsetPoints, target: Point2, depth: Fixed) -> Point2 {
    let square = crate::math::normalize(crate::math::perp(crate::math::sub(pts.c1, pts.b1)));
    crate::math::add(
        pts.c1,
        crate::math::scale(depth, oriented(square, crate::math::sub(target, pts.c1))),
    )
}

/// The direction in which the second control point of an armhole curve
/// lies from `K`: square to the shoulder seam, on the side of `target`.
pub open spec fn armhole_high_direction(pts: CorsetPoints, target: Point2) -> Point2 {
    oriented(
        crate::math::normalize(crate::math::perp(crate::math::sub(pts.h, pts.k))),
        crate::math::sub(target, pts.k),
    )
}

/// The parameter at which an armhole curve passes through `target`.
pub open spec fn armhole_parameter(pts: CorsetPoints, target: Point2, depth: Fixed) -> Result<
    Fixed,
    BisectionError,
> {
    let cx = armhole_low_control(pts, target, depth);
    let dir = armhole_high_direction(pts, target);
    bisect(
        |t: Fixed| armhole_residual(t, pts.k, cx, pts.c1, target, dir),
        Fixed::from_hundredths(1),
        Fixed::from_hundredths(99),
        tolerance(),
    )
}

/// The two control points of the armhole curve from `K` to `C1` that
/// passes through `target`: the one at the underarm is placed, the one at
/// the shoulder is solved for along its direction.
#[verifier::opaque]
pub open spec fn armhole_controls(pts: CorsetPoints, target: Point2, depth: Fixed) -> Result<
    (Point2, Point2),
    DraftError,
> {
    let cx = armhole_low_control(pts, target, depth);
    let dir = armhole_high_direction(pts, target);
    match armhole_parameter(pts, target, depth) {
        Ok(t) => {
            let u = Fixed::one().sub(t);
            let r = armhole_offset(t, pts.k, cx, pts.c1, target);
            let weight = Fixed::from_int(3).mul(u).mul(u).mul(t);
            let along = crate::math::dot(r, dir).div(weight);
            Ok((cx, crate::math::add(pts.k, crate::math::scale(along, dir))))
        },
        Err(e) => Err(draft_error(e)),
    }
}

/// Solves the two control points of one armhole curve.
pub fn solve_armhole(pts: &CorsetPoints, target: Point2, depth: Fixed) -> (r: Result<
    (Point2, Point2),
    DraftError,
>)
    ensures
        r == armhole_controls(*pts, target, depth),
{
    reveal(armhole_controls);
    let k = pts.k;
    let c1 = pts.c1;
    let square = crate::math::normalize(crate::math::perp(crate::math::sub(c1, pts.b1)));
    let cx = crate::math::add(
        c1,
        crate::math::scale(depth, oriented(square, crate::math::sub(target, c1))),
    );
    let dir = oriented(
        crate::math::normalize(crate::math::perp(crate::math::sub(pts.h, k))),
        crate::math::sub(target, k),
    );
    let f = |t: Fixed| -> (y: Fixed)
        ensures
            y == armhole_residual(t, k, cx, c1, target, dir),
        { armhole_residual(t, k, cx, c1, target, dir) };
    let found = dichotomic_search(
        f,
        Fixed::from_hundredths(1),
        Fixed::from_hundredths(99),
        tolerance(),
    );
    proof {
        lemma_search_of_function(
            f,
            |t: Fixed| armhole_residual(t, k, cx, c1, target, dir),
            Fixed::from_hundredths(1),
            Fixed::from_hundredths(99),
            tolerance(),
            found,
        );
    }
    match found {
        Ok(t) => {
            let u = Fixed::one().sub(t);
            let r = armhole_offset(t, k, cx, c1, target);
            let weight = Fixed::from_int(3).mul(u).mul(u).mul(t);
            let along = crate::math::dot(r, dir).div(weight);
            Ok((cx, crate::math::add(k, crate::math::scale(along, dir))))
        },
        Err(_) => Err(DraftError::NonBracketingInterval),
    }
}

/// The control point of a neck curve at the shoulder: from `H`, square to
/// the shoulder seam on the side of `toward`, at the distance `pull`.
pub open spec fn neck_top_control(pts: CorsetPoints, toward: Point2, pull: Fixed) -> Point2 {
    let square = crate::math::normalize(crate::math::perp(crate::math::sub(pts.k, pts.h)));
    crate::math::add(
        pts.h,
        crate::math::scale(pull, oriented(square, crate::math::sub(toward, pts.h))),
    )
}

/// The control points of the bodice for its landmarks, where the armhole
/// curves can be solved: first the front one, then the back one.
#[verifier::opaque]
pub open spec fn shaping(
    pts: CorsetPoints,
    m: CorsetMeasurements,
    b: CorsetControlParameters,
) -> Result<CorsetHelpers, DraftError> {
    let depth = b.armhole_curve.mul(m.underarm_height);
    match armhole_controls(pts, pts.d1, depth) {
        Ok(front) => match armhole_controls(pts, pts.d2, depth) {
            Ok(back) => Ok(
                CorsetHelpers {
                    e1: crate::math::sub(
                        pts.e,
                        Point2::new(b.front_neck_center.mul(m.neck_width), Fixed::zero()),
                    ),
                    f1: crate::math::add(
                        pts.f,
                        Point2::new(b.back_neck_center.mul(m.neck_width).neg(), Fixed::zero()),
                    ),
                    h1: neck_top_control(pts, pts.e, b.front_neck_top.mul(m.neck_width)),
                    h2: neck_top_control(pts, pts.f, b.back_neck_top.mul(m.neck_width)),
                    c11: front.0,
                    k1: front.1,
                    c12: back.0,
                    k2: back.1,
                },
            ),
            Err(e) => Err(e),
        },
        Err(e) => Err(e),
    }
}

/// Places the Bezier control points of the bodice, which depend on its
/// landmarks.
pub fn build_bezier_helper_points(
    pts: &CorsetPoints,
    m: &CorsetMeasurements,
    b: &CorsetControlParameters,
) -> (r: Result<CorsetHelpers, DraftError>)
    ensures
        r == shaping(*pts, *m, *b),
{
    reveal(shaping);
    let zero = Fixed::zero();
    let e1 = crate::math::sub(pts.e, Point2::new(b.front_neck_center.mul(m.neck_width), zero));
    let f1 = crate::math::add(pts.f, Point2::new(b.back_neck_center.mul(m.neck_width).neg(), zero));
    let square = crate::math::normalize(crate::math::perp(crate::math::sub(pts.k, pts.h)));
    let h1 = crate::math::add(
        pts.h,
        crate::math::scale(
            b.front_neck_top.mul(m.neck_width),
            oriented(square, crate::math::sub(pts.e, pts.h)),
        ),
    );
    let h2 = crate::math::add(
        pts.h,
        crate::math::scale(
            b.back_neck_top.mul(m.neck_width),
            oriented(square, crate::math::sub(pts.f, pts.h)),
        ),
    );
    let depth = b.armhole_curve.mul(m.underarm_height);
    let front = match solve_armhole(pts, pts.d1, depth) {
        Ok(pair) => pair,
        Err(e) => {
            return Err(e);
        },
    };
    let back = match solve_armhole(pts, pts.d2, depth) {
        Ok(pair) => pair,
        Err(e) => {
            return Err(e);
        },
    };
    Ok(CorsetHelpers { e1, f1, h1, h2, c11: front.0, k1: front.1, c12: back.0, k2: back.1 })
}

impl CorsetPoints {
    /// The landmarks under their letters.
    pub open spec fn named(self) -> Map<Seq<char>, Point2> {
        Map::<Seq<char>, Point2>::empty().insert(
            "B"@,
            self.b,
        ).insert(
            "B1"@,
            self.b1,
        ).insert(
            "E"@,
            self.e,
        ).insert(
            "F"@,
            self.f,
        ).insert(
            "H"@,
            self.h,
        ).insert(
            "A"@,
            self.a,
        ).insert(
            "A1"@,
            self.a1,
        ).insert(
            "C"@,
            self.c,
        ).insert(
            "C1"@,
            self.c1,
        ).insert(
            "D"@,
            self.d,
        ).insert(
            "D1"@,
            self.d1,
        ).insert(
            "D2"@,
            self.d2,
        ).insert(
            "K"@,
            self.k,
        )
    }
}

/// The letters of the landmarks, in the order in which the draft places
/// them.
pub open spec fn landmark_labels() -> Seq<Seq<char>> {
    seq!["B"@, "B1"@, "E"@, "F"@, "H"@, "A"@, "A1"@, "C"@, "C1"@, "D"@, "D1"@, "D2"@, "K"@]
}

/// The names of the control points, in the order in which the draft
/// places them.
pub open spec fn control_labels() -> Seq<Seq<char>> {
    seq!["E1"@, "F1"@, "H1"@, "H2"@, "C11"@, "K1"@, "C12"@, "K2"@]
}

impl CorsetHelpers {
    /// The control points under their names.
    pub open spec fn named(self) -> Map<Seq<char>, Point2> {
        Map::<Seq<char>, Point2>::empty().insert(
            "E1"@,
            self.e1,
        ).insert(
            "F1"@,
            self.f1,
        ).insert(
            "H1"@,
            self.h1,
        ).insert(
            "H2"@,
            self.h2,
        ).insert(
            "C11"@,
            self.c11,
        ).insert(
            "K1"@,
            self.k1,
        ).insert(
            "C12"@,
            self.c12,
        ).insert(
            "K2"@,
            self.k2,
        )
    }
}

/// The state of a bodice as drafted: its landmarks and control points
/// under their names, not stretched.
pub open spec fn corset_draft(m: CorsetMeasurements, b: CorsetControlParameters) -> Result<
    StretchState,
    DraftError,
> {
    match construction(m) {
        Ok(pts) => match shaping(pts, m, b) {
            Ok(helpers) => Ok(
                StretchState {
                    stretched: false,
                    h_factor: Fixed::one(),
                    v_factor: Fixed::one(),
                    points: pts.named(),
                    helper_points: helpers.named(),
                    point_labels: landmark_labels(),
                    helper_labels: control_labels(),
                },
            ),
            Err(e) => Err(e),
        },
        Err(e) => Err(e),
    }
}

/// The collection holds every landmark of the bodice.
pub open spec fn has_landmarks(m: Map<Seq<char>, Point2>) -> bool {
        &&& m.contains_key("B"@)
        &&& m.contains_key("B1"@)
        &&& m.contains_key("E"@)
        &&& m.contains_key("F"@)
        &&& m.contains_key("H"@)
        &&& m.contains_key("A"@)
        &&& m.contains_key("A1"@)
        &&& m.contains_key("C"@)
        &&& m.contains_key("C1"@)
        &&& m.contains_key("D"@)
        &&& m.contains_key("D1"@)
        &&& m.contains_key("D2"@)
        &&& m.contains_key("K"@)
}

/// The collection holds every control point of the bodice.
pub open spec fn has_controls(m: Map<Seq<char>, Point2>) -> bool {
        &&& m.contains_key("E1"@)
        &&& m.contains_key("F1"@)
        &&& m.contains_key("H1"@)
        &&& m.contains_key("H2"@)
        &&& m.contains_key("C11"@)
        &&& m.contains_key("K1"@)
        &&& m.contains_key("C12"@)
        &&& m.contains_key("K2"@)
}

/// The landmarks as a collection, in the order in which the draft places
/// them.
fn store_landmarks(pts: &CorsetPoints) -> (store: PointStore)
    ensures
        store.wf(),
        store@ == pts.named(),
        store.labels() == landmark_labels(),
        has_landmarks(store@),
{
    proof {
        reveal_strlit("B");
        reveal_strlit("B1");
        reveal_strlit("E");
        reveal_strlit("F");
        reveal_strlit("H");
        reveal_strlit("A");
        reveal_strlit("A1");
        reveal_strlit("C");
        reveal_strlit("C1");
        reveal_strlit("D");
        reveal_strlit("D1");
        reveal_strlit("D2");
        reveal_strlit("K");
        assert("B"@.len() == 1 && "B"@[0] == 'B');
        assert("B1"@.len() == 2 && "B1"@[0] == 'B' && "B1"@[1] == '1');
        assert("E"@.len() == 1 && "E"@[0] == 'E');
        assert("F"@.len() == 1 && "F"@[0] == 'F');
        assert("H"@.len() == 1 && "H"@[0] == 'H');
        assert("A"@.len() == 1 && "A"@[0] == 'A');
        assert("A1"@.len() == 2 && "A1"@[0] == 'A' && "A1"@[1] == '1');
        assert("C"@.len() == 1 && "C"@[0] == 'C');
        assert("C1"@.len() == 2 && "C1"@[0] == 'C' && "C1"@[1] == '1');
        assert("D"@.len() == 1 && "D"@[0] == 'D');
        assert("D1"@.len() == 2 && "D1"@[0] == 'D' && "D1"@[1] == '1');
        assert("D2"@.len() == 2 && "D2"@[0] == 'D' && "D2"@[1] == '2');
        assert("K"@.len() == 1 && "K"@[0] == 'K');
    }
    let mut store: PointStore = LabelMap::new();
    store.insert("B", pts.b);
    assert(store.labels().len() == 1);
    store.insert("B1", pts.b1);
    assert(store.labels().len() == 2);
    store.insert("E", pts.e);
    assert(store.labels().len() == 3);
    store.insert("F", pts.f);
    assert(store.labels().len() == 4);
    store.insert("H", pts.h);
    assert(store.labels().len() == 5);
    store.insert("A", pts.a);
    assert(store.labels().len() == 6);
    store.insert("A1", pts.a1);
    assert(store.labels().len() == 7);
    store.insert("C", pts.c);
    assert(store.labels().len() == 8);
    store.insert("C1", pts.c1);
    assert(store.labels().len() == 9);
    store.insert("D", pts.d);
    assert(store.labels().len() == 10);
    store.insert("D1", pts.d1);
    assert(store.labels().len() == 11);
    store.insert("D2", pts.d2);
    assert(store.labels().len() == 12);
    store.insert("K", pts.k);
    assert(store.labels().len() == 13);
    assert(store.labels() =~= landmark_labels());
    store
}

/// The control points as a collection, in the order in which the draft
/// places them.
fn store_controls(helpers: &CorsetHelpers) -> (store: PointStore)
    ensures
        store.wf(),
        store@ == helpers.named(),
        store.labels() == control_labels(),
        has_controls(store@),
{
    proof {
        reveal_strlit("E1");
        reveal_strlit("F1");
        reveal_strlit("H1");
        reveal_strlit("H2");
        reveal_strlit("C11");
        reveal_strlit("K1");
        reveal_strlit("C12");
        reveal_strlit("K2");
        assert("E1"@.len() == 2 && "E1"@[0] == 'E' && "E1"@[1] == '1');
        assert("F1"@.len() == 2 && "F1"@[0] == 'F' && "F1"@[1] == '1');
        assert("H1"@.len() == 2 && "H1"@[0] == 'H' && "H1"@[1] == '1');
        assert("H2"@.len() == 2 && "H2"@[0] == 'H' && "H2"@[1] == '2');
        assert("C11"@.len() == 3 && "C11"@[0] == 'C' && "C11"@[1] == '1' && "C11"@[2] == '1');
        assert("K1"@.len() == 2 && "K1"@[0] == 'K' && "K1"@[1] == '1');
        assert("C12"@.len() == 3 && "C12"@[0] == 'C' && "C12"@[1] == '1' && "C12"@[2] == '2');
        assert("K2"@.len() == 2 && "K2"@[0] == 'K' && "K2"@[1] == '2');
    }
    let mut store: PointStore = LabelMap::new();
    store.insert("E1", helpers.e1);
    assert(store.labels().len() == 1);
    store.insert("F1", helpers.f1);
    assert(store.labels().len() == 2);
    store.insert("H1", helpers.h1);
    assert(store.labels().len() == 3);
    store.insert("H2", helpers.h2);
    assert(store.labels().len() == 4);
    store.insert("C11", helpers.c11);
    assert(store.labels().len() == 5);
    store.insert("K1", helpers.k1);
    assert(store.labels().len() == 6);
    store.insert("C12", helpers.c12);
    assert(store.labels().len() == 7);
    store.insert("K2", helpers.k2);
    assert(store.labels().len() == 8);
    assert(store.labels() =~= control_labels());
    store
}

/// The bodice block, front and back.
pub struct CorsetPattern {
    pub base: StretchBase,
    pub m: CorsetMeasurements,
    pub b: CorsetControlParameters,
    /// The distance between the front's centre line and the mirror axis of
    /// the back, doubled: the back is drawn mirrored at `x = gap / 2`.
    pub pattern_gap: Fixed,
    /// The frame of the drawing: least and greatest `x`, least and
    /// greatest `y`.
    pub bounds: (Fixed, Fixed, Fixed, Fixed),
}

/// What a [`CorsetPattern`] holds, as plain mathematical data.
pub struct CorsetView {
    pub base: StretchState,
    pub m: CorsetMeasurements,
    pub b: CorsetControlParameters,
    pub pattern_gap: Fixed,
    pub bounds: (Fixed, Fixed, Fixed, Fixed),
}

impl CorsetView {
    /// The bodice with its gap set to 5 cm and its frame fitted to both
    /// pieces.
    pub open spec fn framed(self) -> CorsetView {
        CorsetView {
            pattern_gap: Fixed::from_int(5),
            bounds: corset_frame(extent_of(self.base.points)),
            ..self
        }
    }
}

impl View for CorsetPattern {
    type V = CorsetView;

    open spec fn view(&self) -> CorsetView {
        CorsetView {
            base: self.base@,
            m: self.m,
            b: self.b,
            pattern_gap: self.pattern_gap,
            bounds: self.bounds,
        }
    }
}

impl CorsetPattern {
    /// Well-formedness: both collections are, and hold the points that the
    /// outline is drawn from.
    pub open spec fn wf(&self) -> bool {
        &&& self.base.wf()
        &&& has_landmarks(self.base.points@)
        &&& has_controls(self.base.helper_points@)
    }

    /// Drafts the bodice: first the landmarks, then the control points of
    /// its curves, which depend on them, then the frame that holds both
    /// pieces with their margins.
    pub fn new(measurements: CorsetMeasurements, control: CorsetControlParameters) -> (r: Result<
        CorsetPattern,
        DraftError,
    >)
        ensures
            match r {
                Ok(p) => {
                    &&& p.wf()
                    &&& corset_draft(measurements, control) == Ok::<StretchState, DraftError>(
                        p.base@,
                    )
                    &&& p.m == measurements
                    &&& p.b == control
                    &&& p.pattern_gap == Fixed::from_int(5)
                    &&& p.bounds == corset_frame(extent_of(p.base.points@))
                    &&& p@ == p@.framed()
                    &&& is_extent(p.base.points@, extent_of(p.base.points@))
                },
                Err(e) => corset_draft(measurements, control) == Err::<StretchState, DraftError>(e),
            },
    {
        let pts = match build_construction_points(&measurements) {
            Ok(pts) => pts,
            Err(e) => {
                return Err(e);
            },
        };
        let helpers = match build_bezier_helper_points(&pts, &measurements, &control) {
            Ok(helpers) => helpers,
            Err(e) => {
                return Err(e);
            },
        };
        let mut base = StretchBase::new();
        base.points = store_landmarks(&pts);
        base.helper_points = store_controls(&helpers);
        let zero = Fixed::zero();
        let mut p = CorsetPattern {
            base,
            m: measurements,
            b: control,
            pattern_gap: Fixed::from_int(5),
            bounds: (zero, zero, zero, zero),
        };
        p.prepare_bounds();
        Ok(p)
    }

    /// Shrinks the bodice for a fabric that stretches, once.
    pub fn stretch(&mut self, horizontal: Fixed, vertical: Fixed, usage: Fixed) -> (r: Result<
        (),
        String,
    >)
        requires
            old(self).wf(),
        ensures
            final(self).wf(),
            (final(self).base@, r is Ok) == old(self).base@.request_stretch(
                horizontal,
                vertical,
                usage,
            ),
            r is Err ==> *final(self) == *old(self) && r->Err_0@ == StretchBase::refusal(),
            final(self).m == old(self).m,
            final(self).b == old(self).b,
            final(self).pattern_gap == old(self).pattern_gap,
            final(self).bounds == old(self).bounds,
    {
        let r = self.base.stretch(horizontal, vertical, usage);
        proof {
            assert(self.base.points@.dom() =~= old(self).base.points@.dom());
            assert(self.base.helper_points@.dom() =~= old(self).base.helper_points@.dom());
        }
        r
    }

    /// The landmark under `name`.
    pub fn pt(&self, name: &str) -> (p: Point2)
        requires
            self.base.wf(),
            self.base.points@.contains_key(name@),
        ensures
            p == self.base.points@[name@],
    {
        self.base.points.get(name).unwrap()
    }

    /// The control point under `name`.
    pub fn hp(&self, name: &str) -> (p: Point2)
        requires
            self.base.wf(),
            self.base.helper_points@.contains_key(name@),
        ensures
            p == self.base.helper_points@[name@],
    {
        self.base.helper_points.get(name).unwrap()
    }

    /// The landmarks as they stand now.
    pub fn landmarks(&self) -> (r: CorsetPoints)
        requires
            self.wf(),
        ensures
            r == landmarks_of(self.base.points@),
    {
        CorsetPoints {
            a: self.pt("A"),
            a1: self.pt("A1"),
            b: self.pt("B"),
            b1: self.pt("B1"),
            c: self.pt("C"),
            c1: self.pt("C1"),
            d: self.pt("D"),
            d1: self.pt("D1"),
            d2: self.pt("D2"),
            e: self.pt("E"),
            f: self.pt("F"),
            h: self.pt("H"),
            k: self.pt("K"),
        }
    }

    /// The control points as they stand now.
    pub fn controls(&self) -> (r: CorsetHelpers)
        requires
            self.wf(),
        ensures
            r == controls_of(self.base.helper_points@),
    {
        CorsetHelpers {
            e1: self.hp("E1"),
            f1: self.hp("F1"),
            h1: self.hp("H1"),
            h2: self.hp("H2"),
            c11: self.hp("C11"),
            k1: self.hp("K1"),
            c12: self.hp("C12"),
            k2: self.hp("K2"),
        }
    }

    /// The point `p` of the front as it lies in the back, which is the
    /// front mirrored and moved to the right by the gap.
    pub fn mirror_point(&self, p: Point2) -> (r: Point2)
        ensures
            r == mirrored(self.pattern_gap, p),
    {
        Point2::new(p.x.neg().add(self.pattern_gap), p.y)
    }

    /// Sets the gap to 5 cm and the frame to fit both pieces: 5 cm to
    /// the left of the leftmost landmark and as much to the right of its
    /// mirror image, 10 cm below the lowest and 5 cm above the highest.
    pub fn prepare_bounds(&mut self)
        requires
            old(self).wf(),
        ensures
            final(self).wf(),
            final(self).base == old(self).base,
            final(self).m == old(self).m,
            final(self).b == old(self).b,
            final(self)@ == old(self)@.framed(),
            is_extent(old(self).base.points@, extent_of(old(self).base.points@)),
    {
        self.pattern_gap = Fixed::from_int(5);
        let e = extent(&self.base.points);
        self.bounds = (
            e.0.sub(Fixed::from_int(5)),
            e.0.neg().add(self.pattern_gap).add(Fixed::from_int(5)),
            e.2.sub(Fixed::from_int(10)),
            e.3.add(Fixed::from_int(5)),
        );
    }
}

/// The landmarks that a collection holds under their letters.
pub open spec fn landmarks_of(m: Map<Seq<char>, Point2>) -> CorsetPoints {
    CorsetPoints {
        a: m["A"@],
        a1: m["A1"@],
        b: m["B"@],
        b1: m["B1"@],
        c: m["C"@],
        c1: m["C1"@],
        d: m["D"@],
        d1: m["D1"@],
        d2: m["D2"@],
        e: m["E"@],
        f: m["F"@],
        h: m["H"@],
        k: m["K"@],
    }
}

/// The control points that a collection holds under their names.
pub open spec fn controls_of(m: Map<Seq<char>, Point2>) -> CorsetHelpers {
    CorsetHelpers {
        e1: m["E1"@],
        f1: m["F1"@],
        h1: m["H1"@],
        h2: m["H2"@],
        c11: m["C11"@],
        k1: m["K1"@],
        c12: m["C12"@],
        k2: m["K2"@],
    }
}

/// The point `p` mirrored at the vertical axis `x = gap / 2`.
pub open spec fn mirrored(gap: Fixed, p: Point2) -> Point2 {
    Point2::new(p.x.neg().add(gap), p.y)
}

/// The frame of the drawing of a bodice whose landmarks have the extent
/// `e`.
pub open spec fn corset_frame(e: (Fixed, Fixed, Fixed, Fixed)) -> (Fixed, Fixed, Fixed, Fixed) {
    (
        e.0.sub(Fixed::from_int(5)),
        e.0.neg().add(Fixed::from_int(5)).add(Fixed::from_int(5)),
        e.2.sub(Fixed::from_int(10)),
        e.3.add(Fixed::from_int(5)),
    )
}

/// The frame of a bodice holds every landmark with its margins: 5 cm to
/// the left of it, 10 cm below and 5 cm above, and 5 cm to the right of
/// its mirror image in the back. A landmark that does not lie to the
/// right of the centre line lies inside the frame on the right too.
pub proof fn lemma_frame_holds_landmarks(p: CorsetView, label: Seq<char>)
    requires
        p.base.points.contains_key(label),
        is_extent(p.base.points, extent_of(p.base.points)),
        forall|k: Seq<char>|
            p.base.points.contains_key(k) ==> within_reach(#[trigger] p.base.points[k]),
    ensures
        ({
            let f = p.framed().bounds;
            let q = p.base.points[label];
            &&& f.0@ + 5 * SCALE <= q.x@
            &&& f.2@ + 10 * SCALE <= q.y@
            &&& q.y@ + 5 * SCALE <= f.3@
            &&& mirrored(p.framed().pattern_gap, q).x@ + 5 * SCALE <= f.1@
            &&& q.x@ <= 0 ==> q.x@ + 10 * SCALE <= f.1@
        }),
{
    let e = extent_of(p.base.points);
    assert(within_reach(p.base.points[label]));
    assert(e.0@ <= p.base.points[label].x@);
    assert(e.0 != highest()) by {
        assert(e.0@ <= 9_000_000_000_000_000_000);
    }
    let kx = choose|k: Seq<char>| #[trigger]
        p.base.points.contains_key(k) && p.base.points[k].x == e.0;
    assert(within_reach(p.base.points[kx]));
    assert(e.2 != highest()) by {
        assert(e.2@ <= 9_000_000_000_000_000_000);
    }
    let ky = choose|k: Seq<char>| #[trigger]
        p.base.points.contains_key(k) && p.base.points[k].y == e.2;
    assert(within_reach(p.base.points[ky]));
    assert(e.3 != lowest()) by {
        assert(e.3@ >= -9_000_000_000_000_000_000);
    }
    let kz = choose|k: Seq<char>| #[trigger]
        p.base.points.contains_key(k) && p.base.points[k].y == e.3;
    assert(within_reach(p.base.points[kz]));
}

/// The half width of the neck line lies between 0.01 cm and the neck
/// circumference over pi, wherever that is at least 0.01 cm and the width
/// can be solved; and the height of the back neck line is 2 cm.
pub proof fn lemma_neck_width_positive(fm: FullMeasurements)
    requires
        neck_target(fm)@ >= Fixed::from_hundredths(1)@,
        CorsetMeasurements::spec_from_full(fm) is Ok,
    ensures
        ({
            let cm = CorsetMeasurements::spec_from_full(fm)->Ok_0;
            &&& 0 < Fixed::from_hundredths(1)@ <= cm.neck_width@ <= neck_target(fm)@
            &&& cm.neck_back_height@ == 2 * SCALE
        }),
{
    let f = |w: Fixed| neck_excess(neck_back_height(), neck_front_height(fm), neck_target(fm), w);
    let a = Fixed::from_hundredths(1);
    let b = neck_target(fm);
    assert(opposite_signs(f(a), f(b)));
    lemma_final_bracket(f, f(a).is_negative(), a, b, tolerance());
}

/// None of the measurements that place a landmark sideways is negative.
pub open spec fn widths_not_negative(m: CorsetMeasurements) -> bool {
    &&& m.full_waist@ >= 0
    &&& m.full_hip@ >= 0
    &&& m.half_front_width@ >= 0
    &&& m.half_back_width@ >= 0
    &&& m.neck_width@ >= 0
}

/// The front lies to the left of its centre line: with widths that are
/// not negative, no landmark has a positive `x`, and the landmarks `A` to
/// `F` of the centre line have `x = 0`.
pub proof fn lemma_front_lies_left(m: CorsetMeasurements)
    requires
        widths_not_negative(m),
        construction(m) is Ok,
    ensures
        ({
            let pts = construction(m)->Ok_0;
            &&& pts.a.x@ == 0 && pts.b.x@ == 0 && pts.c.x@ == 0
            &&& pts.d.x@ == 0 && pts.e.x@ == 0 && pts.f.x@ == 0
            &&& pts.a1.x@ <= 0 && pts.b1.x@ <= 0 && pts.c1.x@ <= 0
            &&& pts.d1.x@ <= 0 && pts.d2.x@ <= 0
            &&& pts.h.x@ <= 0 && pts.k.x@ <= 0
            &&& pts.b == Point2::origin()
        }),
{
    reveal(construction);
    let zero = Fixed::zero();
    let four = Fixed::from_int(4);
    lemma_signs(m.full_waist, four);
    lemma_signs(m.full_hip, four);
    lemma_signs(waist_quarter(m), zero);
    lemma_signs(hip_quarter(m), zero);
    lemma_signs(m.neck_width, zero);
    // D: half of a vector on the centre line
    lemma_signs(Fixed::from_ratio(1, 2), zero.add(zero));
    lemma_signs(zero.add(zero), Fixed::from_ratio(1, 2));
    assert(Fixed::from_ratio(1, 2).mul(zero.add(zero))@ == 0);
    // H, and the point on whose level K lies
    let g = neck_front_point(m);
    let h = shoulder_neck_point(m);
    assert(g.x@ <= 0);
    assert(h.x@ <= 0);
    lemma_signs(g.x, Fixed::from_int(2));
    lemma_signs(Fixed::from_int(2).mul(g.x), h.x);
    lemma_signs(Fixed::from_int(2).mul(g.x).add(h.x), Fixed::from_int(3));
    let j = shoulder_level_point(m);
    assert(j.x@ <= 0);
    lemma_signs(shoulder_run_squared(m), zero);
    lemma_signs(j.x, shoulder_run_squared(m).sqrt());
}

/// The underarm point lies at the underarm height from the waist point:
/// for an underarm height between 1 cm and 900 m, the distance from `B1`
/// to `C1` is the underarm height to within two units of the resolution.
#[verifier::rlimit(50)]
pub proof fn lemma_underarm_point_distance(m: CorsetMeasurements)
    requires
        construction(m) is Ok,
        SCALE <= m.underarm_height@ <= 90_000 * SCALE,
    ensures
        ({
            let pts = construction(m)->Ok_0;
            let d = crate::math::norm(crate::math::sub(pts.c1, pts.b1));
            m.underarm_height@ - 2 <= d@ <= m.underarm_height@
        }),
{
    reveal(construction);
    let s = SCALE as int;
    let pts = construction(m)->Ok_0;
    let u = m.underarm_height@;
    let reach = underarm_offset(m);
    let x = reach@;
    // the quarter widths and their difference fit
    let four = Fixed::from_int(4);
    lemma_quarter_fits(m.full_waist);
    lemma_quarter_fits(m.full_hip);
    assert(reach@ == hip_quarter(m).neg()@ - waist_quarter(m).neg()@);
    assert(reach.abs()@ == if x < 0 {
        -x
    } else {
        x
    });
    assert(-u < x < u);
    // the squares, rounded
    let a = m.underarm_height.mul(m.underarm_height);
    let b = reach.mul(reach);
    lemma_round_div_nearest(u * u, s);
    lemma_round_div_nearest(x * x, s);
    assert(0 <= x * x <= u * u <= 90_000 * s * (90_000 * s)) by (nonlinear_arith)
        requires
            -u < x < u,
            s <= u <= 90_000 * s,
            s == 1_000_000_000,
    ;
    assert(0 <= round_div(x * x, s) <= round_div(u * u, s) <= 8_100_000_001 * s)
        by (nonlinear_arith)
        requires
            0 <= x * x <= u * u <= 90_000 * s * (90_000 * s),
            s == 1_000_000_000,
            -s <= 2 * (round_div(u * u, s) * s - u * u) <= s,
            -s <= 2 * (round_div(x * x, s) * s - x * x) <= s,
            round_div(u * u, s) == (2 * (u * u) + s) / (2 * s),
            round_div(x * x, s) == (2 * (x * x) + s) / (2 * s),
    ;
    assert(a@ == round_div(u * u, s));
    assert(b@ == round_div(x * x, s));
    let r = a.sub(b);
    assert(r@ == a@ - b@);
    // the rise of the side seam
    let rise = r.sqrt();
    let y = rise@;
    assert(0 <= r@ * s <= 8_100_000_001 * s * s) by (nonlinear_arith)
        requires
            0 <= r@ <= 8_100_000_001 * s,
            s == 1_000_000_000,
    ;
    if r@ > 0 {
        lemma_floor_sqrt_exists(r@ * s);
        let k = floor_sqrt(r@ * s);
        assert(k <= 9_000_000_001 * 10_000) by (nonlinear_arith)
            requires
                0 <= k,
                k * k <= r@ * s,
                r@ * s <= 8_100_000_001 * s * s,
                s == 1_000_000_000,
        ;
        assert(y == k);
    }
    assert(0 <= y);
    assert(y * y <= r@ * s && r@ * s < (y + 1) * (y + 1)) by {
        if r@ == 0 {
            assert(r@ * s == 0) by (nonlinear_arith)
                requires
                    r@ == 0,
            ;
            assert(y == 0);
        }
    }
    // the vector from B1 to C1
    let v = crate::math::sub(pts.c1, pts.b1);
    assert(pts.b1.y@ == 0);
    assert(pts.c1.y == pts.b1.y.add(rise));
    assert(v.y@ == y);
    assert(v.x@ == x);
    // its length
    let n = x * x + y * y;
    assert(r@ * s == a@ * s - b@ * s) by (nonlinear_arith)
        requires
            r@ == a@ - b@,
    ;
    assert(u * u - 3 * u <= n <= u * u + s) by (nonlinear_arith)
        requires
            n == x * x + y * y,
            y * y <= r@ * s,
            r@ * s < (y + 1) * (y + 1),
            r@ * s == a@ * s - b@ * s,
            -s <= 2 * (a@ * s - u * u) <= s,
            -s <= 2 * (b@ * s - x * x) <= s,
            0 <= y,
            0 <= x * x,
            s <= u,
            s == 1_000_000_000,
    ;
    lemma_floor_sqrt_exists(n);
    let d = floor_sqrt(n);
    assert(u - 2 <= d <= u) by (nonlinear_arith)
        requires
            0 <= d,
            d * d <= n,
            n < (d + 1) * (d + 1),
            u * u - 3 * u <= n <= u * u + s,
            s <= u,
            s == 1_000_000_000,
    ;
}

/// The shoulder seam has the shoulder length: for a shoulder length
/// between 1 cm and 900 m and a neck width of no more than three thousand
/// million centimetres either way, the distance from `H` to `K` is the
/// shoulder length to within three units of the resolution.
#[verifier::rlimit(50)]
pub proof fn lemma_shoulder_seam_length(m: CorsetMeasurements)
    requires
        construction(m) is Ok,
        SCALE <= m.shoulder_length@ <= 90_000 * SCALE,
        -3_000_000_000_000_000_000 <= m.neck_width@ <= 3_000_000_000_000_000_000,
    ensures
        ({
            let pts = construction(m)->Ok_0;
            let d = crate::math::norm(crate::math::sub(pts.k, pts.h));
            m.shoulder_length@ - 3 <= d@ <= m.shoulder_length@ + 1
        }),
{
    reveal(construction);
    let s = SCALE as int;
    let pts = construction(m)->Ok_0;
    let u = m.shoulder_length@;
    let w = m.neck_width@;
    let g = neck_front_point(m);
    let h = shoulder_neck_point(m);
    let j = shoulder_level_point(m);
    // G and H have the same x, and so has J
    assert(g.x@ == -w);
    assert(h.x@ == -w);
    let two = Fixed::from_int(2);
    let three = Fixed::from_int(3);
    lemma_round_div_nearest(two@ * g.x@, s);
    let p = round_div(two@ * g.x@, s);
    assert(p == -2 * w) by (nonlinear_arith)
        requires
            -s <= 2 * (p * s - 2 * s * (-w)) <= s,
            s == 1_000_000_000,
    ;
    assert(two.mul(g.x)@ == -2 * w);
    assert(two.mul(g.x).add(h.x)@ == -3 * w);
    lemma_round_div_nearest(-3 * w * s, three@);
    let q = round_div(-3 * w * s, three@);
    assert(q == -w) by (nonlinear_arith)
        requires
            -(3 * s) <= 2 * (q * (3 * s) - (-3 * w * s)) <= 3 * s,
            s == 1_000_000_000,
    ;
    assert(j.x@ == -w);
    let delta = j.x@ - h.x@;
    assert(-1 <= delta <= 1);
    // the squares, rounded; a seam that can be placed has no saturated rise
    let rise = h.y.sub(j.y);
    let z = rise@;
    let a = m.shoulder_length.mul(m.shoulder_length);
    let b = rise.mul(rise);
    lemma_round_div_nearest(u * u, s);
    lemma_round_div_nearest(z * z, s);
    assert(0 <= u * u <= 90_000 * s * (90_000 * s)) by (nonlinear_arith)
        requires
            s <= u <= 90_000 * s,
            s == 1_000_000_000,
    ;
    assert(0 <= round_div(u * u, s) <= 8_100_000_001 * s) by (nonlinear_arith)
        requires
            0 <= u * u <= 90_000 * s * (90_000 * s),
            s == 1_000_000_000,
            -s <= 2 * (round_div(u * u, s) * s - u * u) <= s,
    ;
    assert(a@ == round_div(u * u, s));
    assert(0 <= z * z) by (nonlinear_arith);
    lemma_round_div_sign(z * z, s);
    assert(b@ <= a@) by {
        assert(shoulder_run_squared(m) == a.sub(b));
        assert(a.sub(b)@ >= 0);
    }
    assert(b@ == round_div(z * z, s));
    assert(z * z <= 8_100_000_002 * s * s) by (nonlinear_arith)
        requires
            -s <= 2 * (round_div(z * z, s) * s - z * z) <= s,
            round_div(z * z, s) <= 8_100_000_001 * s,
            s == 1_000_000_000,
    ;
    assert(-100_000 * s <= z <= 100_000 * s) by (nonlinear_arith)
        requires
            z * z <= 8_100_000_002 * s * s,
            s == 1_000_000_000,
    ;
    let r = a.sub(b);
    assert(r@ == a@ - b@);
    // the run of the seam
    let run = r.sqrt();
    let y = run@;
    assert(0 <= r@ * s <= 8_100_000_001 * s * s) by (nonlinear_arith)
        requires
            0 <= r@ <= 8_100_000_001 * s,
            s == 1_000_000_000,
    ;
    if r@ > 0 {
        lemma_floor_sqrt_exists(r@ * s);
        let k = floor_sqrt(r@ * s);
        assert(k <= 9_000_000_001 * 10_000) by (nonlinear_arith)
            requires
                0 <= k,
                k * k <= r@ * s,
                r@ * s <= 8_100_000_001 * s * s,
                s == 1_000_000_000,
        ;
        assert(y == k);
    }
    assert(0 <= y <= 9_000_000_001 * 10_000);
    assert(y * y <= r@ * s && r@ * s < (y + 1) * (y + 1)) by {
        if r@ == 0 {
            assert(r@ * s == 0) by (nonlinear_arith)
                requires
                    r@ == 0,
            ;
            assert(y == 0);
        }
    }
    // the vector from H to K
    let v = crate::math::sub(pts.k, pts.h);
    assert(pts.h == h);
    assert(pts.k == crate::math::sub(j, Point2::new(run, Fixed::zero())));
    assert(pts.k.x@ == j.x@ - y);
    assert(pts.k.y == j.y);
    assert(v.x@ == delta - y);
    assert(v.y@ == -z || v.y@ == z) by {
        // the rise is not saturated, so neither is its opposite
        assert(z == h.y@ - j.y@);
    }
    assert(v.y@ * v.y@ == z * z) by (nonlinear_arith)
        requires
            v.y@ == -z || v.y@ == z,
    ;
    // its length
    let n = v.x@ * v.x@ + v.y@ * v.y@;
    assert(r@ * s == a@ * s - b@ * s) by (nonlinear_arith)
        requires
            r@ == a@ - b@,
    ;
    assert(y * y - 2 * y <= (delta - y) * (delta - y) <= y * y + 2 * y + 1) by (nonlinear_arith)
        requires
            -1 <= delta <= 1,
            0 <= y,
    ;
    assert(y <= u) by (nonlinear_arith)
        requires
            0 <= y,
            y * y <= r@ * s,
            r@ * s == a@ * s - b@ * s,
            -s <= 2 * (a@ * s - u * u) <= s,
            -s <= 2 * (b@ * s - z * z) <= s,
            0 <= z * z,
            s <= u,
            s == 1_000_000_000,
    ;
    assert(u * u - 5 * u <= n <= u * u + 3 * u + 1) by (nonlinear_arith)
        requires
            n == v.x@ * v.x@ + z * z,
            v.x@ == delta - y,
            y * y - 2 * y <= (delta - y) * (delta - y) <= y * y + 2 * y + 1,
            y * y <= r@ * s,
            r@ * s < (y + 1) * (y + 1),
            r@ * s == a@ * s - b@ * s,
            -s <= 2 * (a@ * s - u * u) <= s,
            -s <= 2 * (b@ * s - z * z) <= s,
            0 <= y <= u,
            s <= u,
            s == 1_000_000_000,
    ;
    assert(0 <= n) by (nonlinear_arith)
        requires
            n == v.x@ * v.x@ + v.y@ * v.y@,
    ;
    lemma_floor_sqrt_exists(n);
    let d = floor_sqrt(n);
    assert(u - 3 <= d <= u + 1) by (nonlinear_arith)
        requires
            0 <= d,
            d * d <= n,
            n < (d + 1) * (d + 1),
            u * u - 5 * u <= n <= u * u + 3 * u + 1,
            s <= u,
            s == 1_000_000_000,
    ;
}

/// The shoulder ends on the level of a third of the neck line: for neck
/// points no higher or lower than three thousand million centimetres, three
/// times the level of `K` differs from twice the level of the front neck
/// point and once that of `H` by no more than one unit and a half.
pub proof fn lemma_shoulder_level(m: CorsetMeasurements)
    requires
        construction(m) is Ok,
        -3_000_000_000_000_000_000 <= neck_front_point(m).y@ <= 3_000_000_000_000_000_000,
        -3_000_000_000_000_000_000 <= shoulder_neck_point(m).y@ <= 3_000_000_000_000_000_000,
    ensures
        ({
            let k = construction(m)->Ok_0.k;
            let exact = 2 * neck_front_point(m).y@ + shoulder_neck_point(m).y@;
            -3 <= 2 * (3 * k.y@ - exact) <= 3
        }),
{
    reveal(construction);
    let s = SCALE as int;
    let g = neck_front_point(m).y@;
    let h = shoulder_neck_point(m).y@;
    let two = Fixed::from_int(2);
    let three = Fixed::from_int(3);
    lemma_round_div_nearest(two@ * g, s);
    let p = round_div(two@ * g, s);
    assert(p == 2 * g) by (nonlinear_arith)
        requires
            -s <= 2 * (p * s - 2 * s * g) <= s,
            s == 1_000_000_000,
    ;
    assert(two.mul(neck_front_point(m).y)@ == 2 * g);
    let sum = two.mul(neck_front_point(m).y).add(shoulder_neck_point(m).y);
    assert(sum@ == 2 * g + h);
    lemma_round_div_nearest(sum@ * s, three@);
    let q = round_div(sum@ * s, three@);
    assert(-3 <= 2 * (3 * q - sum@) <= 3) by (nonlinear_arith)
        requires
            -(3 * s) <= 2 * (q * (3 * s) - sum@ * s) <= 3 * s,
            s == 1_000_000_000,
    ;
    assert(-3_100_000_000_000_000_000 <= q <= 3_100_000_000_000_000_000);
    assert(shoulder_level_point(m).y@ == q);
}

/// The parameter at which an armhole curve is made to pass through its
/// target lies between 0.01 and 0.99, within a thousand units of a place
/// where the target changes sides: between two parameters that far apart
/// at most, at the upper of which the rest of the target lies across the
/// direction of the solved control point from where it lies at 0.01, and
/// at the lower of which it does not.
pub proof fn lemma_armhole_parameter(pts: CorsetPoints, target: Point2, depth: Fixed)
    requires
        armhole_parameter(pts, target, depth) is Ok,
    ensures
        ({
            let t = armhole_parameter(pts, target, depth)->Ok_0;
            let cx = armhole_low_control(pts, target, depth);
            let dir = armhole_high_direction(pts, target);
            let first = armhole_residual(Fixed::from_hundredths(1), pts.k, cx, pts.c1, target, dir);
            &&& Fixed::from_hundredths(1)@ <= t@ <= Fixed::from_hundredths(99)@
            &&& exists|lo: Fixed, hi: Fixed|
                {
                    &&& Fixed::from_hundredths(1)@ <= lo@ <= t@ <= hi@ <= Fixed::from_hundredths(
                        99,
                    )@
                    &&& hi@ - lo@ <= 1_000
                    &&& !#[trigger] opposite_signs(
                        armhole_residual(lo, pts.k, cx, pts.c1, target, dir),
                        first,
                    )
                    &&& #[trigger] opposite_signs(
                        armhole_residual(hi, pts.k, cx, pts.c1, target, dir),
                        first,
                    )
                }
        }),
{
    let cx = armhole_low_control(pts, target, depth);
    let dir = armhole_high_direction(pts, target);
    let f = |t: Fixed| armhole_residual(t, pts.k, cx, pts.c1, target, dir);
    let a = Fixed::from_hundredths(1);
    let b = Fixed::from_hundredths(99);
    assert(opposite_signs(f(a), f(b)));
    let rising = f(a).is_negative();
    lemma_final_bracket(f, rising, a, b, tolerance());
    let end = crate::math::final_bracket(f, rising, a, b, tolerance());
    assert(!opposite_signs(f(end.0), f(a)));
    assert(opposite_signs(f(end.1), f(a)));
    assert(end.1@ - end.0@ <= 1_000);
}

/// The two products `a * b` and `a2 * b2` differ by little where their
/// factors do: by no more than `d`, where `d` units of the product are
/// more than what the differences of the factors, each times the bound of
/// the other factor, come to; and each product is within `bound`.
pub proof fn lemma_mul_step(
    a: Fixed,
    a2: Fixed,
    b: Fixed,
    b2: Fixed,
    ba: int,
    bb: int,
    da: int,
    db: int,
    bound: int,
    d: int,
)
    requires
        -ba <= a@ <= ba,
        -ba <= a2@ <= ba,
        -bb <= b@ <= bb,
        -bb <= b2@ <= bb,
        -da <= a2@ - a@ <= da,
        -db <= b2@ - b@ <= db,
        0 <= ba,
        0 <= bb,
        bound <= 9_000_000_000_000_000_000,
        2 * (ba * bb) + 1_000_000_000 < 2 * 1_000_000_000 * (bound + 1),
        da * bb + ba * db < d * 1_000_000_000,
    ensures
        -bound <= a.mul(b)@ <= bound,
        -bound <= a2.mul(b2)@ <= bound,
        -d <= a2.mul(b2)@ - a.mul(b)@ <= d,
{
    let s = SCALE as int;
    let p = a@ * b@;
    let p2 = a2@ * b2@;
    assert(-(ba * bb) <= p <= ba * bb && -(ba * bb) <= p2 <= ba * bb) by (nonlinear_arith)
        requires
            -ba <= a@ <= ba,
            -ba <= a2@ <= ba,
            -bb <= b@ <= bb,
            -bb <= b2@ <= bb,
            p == a@ * b@,
            p2 == a2@ * b2@,
    ;
    assert(-(da * bb + ba * db) <= p2 - p <= da * bb + ba * db) by (nonlinear_arith)
        requires
            -ba <= a@ <= ba,
            -bb <= b2@ <= bb,
            -da <= a2@ - a@ <= da,
            -db <= b2@ - b@ <= db,
            0 <= ba,
            0 <= bb,
            p == a@ * b@,
            p2 == a2@ * b2@,
    ;
    lemma_round_div_nearest(p, s);
    lemma_round_div_nearest(p2, s);
    let q = round_div(p, s);
    let q2 = round_div(p2, s);
    assert(-bound <= q <= bound && -bound <= q2 <= bound && -d <= q2 - q <= d) by (nonlinear_arith)
        requires
            -s <= 2 * (q * s - p) <= s,
            -s <= 2 * (q2 * s - p2) <= s,
            -(ba * bb) <= p <= ba * bb,
            -(ba * bb) <= p2 <= ba * bb,
            -(da * bb + ba * db) <= p2 - p <= da * bb + ba * db,
            2 * (ba * bb) + 1_000_000_000 < 2 * 1_000_000_000 * (bound + 1),
            da * bb + ba * db < d * 1_000_000_000,
            s == 1_000_000_000,
    ;
}

/// The point lies within two metres of both axes.
pub open spec fn within_two_metres(p: Point2) -> bool {
    &&& -200 * SCALE <= p.x@ <= 200 * SCALE
    &&& -200 * SCALE <= p.y@ <= 200 * SCALE
}

/// The rest of the target changes little with the parameter: for points
/// within two metres of the axes and a direction no longer than one, two
/// parameters between 0 and 1 that are no more than a thousand units apart
/// give residuals no more than 8_004_008 units apart.
#[verifier::rlimit(50)]
pub proof fn lemma_armhole_residual_step(
    t: Fixed,
    t2: Fixed,
    k: Point2,
    cx: Point2,
    c1: Point2,
    target: Point2,
    dir: Point2,
)
    requires
        0 <= t@ <= SCALE,
        0 <= t2@ <= SCALE,
        -1_000 <= t2@ - t@ <= 1_000,
        within_two_metres(k),
        within_two_metres(cx),
        within_two_metres(c1),
        within_two_metres(target),
        -SCALE - 1 <= dir.x@ <= SCALE + 1,
        -SCALE - 1 <= dir.y@ <= SCALE + 1,
    ensures
        -8_004_008 <= armhole_residual(t2, k, cx, c1, target, dir)@ - armhole_residual(
            t,
            k,
            cx,
            c1,
            target,
            dir,
        )@ <= 8_004_008,
{
    let one = Fixed::one();
    let two = Fixed::from_int(2);
    let three = Fixed::from_int(3);
    let u_a = one.sub(t);
    let u_b = one.sub(t2);
    let uu_a = u_a.mul(u_a);
    let uu_b = u_b.mul(u_b);
    lemma_mul_step(
        u_a,
        u_b,
        u_a,
        u_b,
        1_000_000_000,
        1_000_000_000,
        1_000,
        1_000,
        1_000_000_000,
        2_001,
    );
    let tt2_a = two.mul(t);
    let tt2_b = two.mul(t2);
    lemma_mul_step(two, two, t, t2, 2_000_000_000, 1_000_000_000, 0, 1_000, 2_000_000_000, 2_001);
    let f_a = one.add(tt2_a);
    let f_b = one.add(tt2_b);
    assert(-3_000_000_000 <= f_a@ <= 3_000_000_000
        && -3_000_000_000 <= f_b@ <= 3_000_000_000
        && -2_001 <= f_b@ - f_a@ <= 2_001);
    let wk_a = uu_a.mul(f_a);
    let wk_b = uu_b.mul(f_b);
    lemma_mul_step(
        uu_a,
        uu_b,
        f_a,
        f_b,
        1_000_000_000,
        3_000_000_000,
        2_001,
        2_001,
        3_000_000_000,
        8_005,
    );
    let u3_a = three.mul(u_a);
    let u3_b = three.mul(u_b);
    lemma_mul_step(
        three,
        three,
        u_a,
        u_b,
        3_000_000_000,
        1_000_000_000,
        0,
        1_000,
        3_000_000_000,
        3_001,
    );
    let u3t_a = u3_a.mul(t);
    let u3t_b = u3_b.mul(t2);
    lemma_mul_step(
        u3_a,
        u3_b,
        t,
        t2,
        3_000_000_000,
        1_000_000_000,
        3_001,
        1_000,
        3_000_000_000,
        6_002,
    );
    let wcx_a = u3t_a.mul(t);
    let wcx_b = u3t_b.mul(t2);
    lemma_mul_step(
        u3t_a,
        u3t_b,
        t,
        t2,
        3_000_000_000,
        1_000_000_000,
        6_002,
        1_000,
        3_000_000_000,
        9_003,
    );
    let tt_a = t.mul(t);
    let tt_b = t2.mul(t2);
    lemma_mul_step(t, t2, t, t2, 1_000_000_000, 1_000_000_000, 1_000, 1_000, 1_000_000_000, 2_001);
    let wc1_a = tt_a.mul(t);
    let wc1_b = tt_b.mul(t2);
    lemma_mul_step(
        tt_a,
        tt_b,
        t,
        t2,
        1_000_000_000,
        1_000_000_000,
        2_001,
        1_000,
        1_000_000_000,
        3_002,
    );
    let tkx_a = wk_a.mul(k.x);
    let tkx_b = wk_b.mul(k.x);
    lemma_mul_step(
        wk_a,
        wk_b,
        k.x,
        k.x,
        3_000_000_000,
        200_000_000_000,
        8_005,
        0,
        600_000_000_000,
        1_601_001,
    );
    let tcxx_a = wcx_a.mul(cx.x);
    let tcxx_b = wcx_b.mul(cx.x);
    lemma_mul_step(
        wcx_a,
        wcx_b,
        cx.x,
        cx.x,
        3_000_000_000,
        200_000_000_000,
        9_003,
        0,
        600_000_000_000,
        1_800_601,
    );
    let tc1x_a = wc1_a.mul(c1.x);
    let tc1x_b = wc1_b.mul(c1.x);
    lemma_mul_step(
        wc1_a,
        wc1_b,
        c1.x,
        c1.x,
        1_000_000_000,
        200_000_000_000,
        3_002,
        0,
        200_000_000_000,
        600_401,
    );
    let inx_a = tcxx_a.add(tc1x_a);
    let inx_b = tcxx_b.add(tc1x_b);
    assert(-800_000_000_000 <= inx_a@ <= 800_000_000_000
        && -800_000_000_000 <= inx_b@ <= 800_000_000_000
        && -2_401_002 <= inx_b@ - inx_a@ <= 2_401_002);
    let allx_a = tkx_a.add(inx_a);
    let allx_b = tkx_b.add(inx_b);
    assert(-1_400_000_000_000 <= allx_a@ <= 1_400_000_000_000
        && -1_400_000_000_000 <= allx_b@ <= 1_400_000_000_000
        && -4_002_003 <= allx_b@ - allx_a@ <= 4_002_003);
    let rx_a = target.x.sub(allx_a);
    let rx_b = target.x.sub(allx_b);
    assert(-1_600_000_000_000 <= rx_a@ <= 1_600_000_000_000
        && -1_600_000_000_000 <= rx_b@ <= 1_600_000_000_000
        && -4_002_003 <= rx_b@ - rx_a@ <= 4_002_003);
    let tky_a = wk_a.mul(k.y);
    let tky_b = wk_b.mul(k.y);
    lemma_mul_step(
        wk_a,
        wk_b,
        k.y,
        k.y,
        3_000_000_000,
        200_000_000_000,
        8_005,
        0,
        600_000_000_000,
        1_601_001,
    );
    let tcxy_a = wcx_a.mul(cx.y);
    let tcxy_b = wcx_b.mul(cx.y);
    lemma_mul_step(
        wcx_a,
        wcx_b,
        cx.y,
        cx.y,
        3_000_000_000,
        200_000_000_000,
        9_003,
        0,
        600_000_000_000,
        1_800_601,
    );
    let tc1y_a = wc1_a.mul(c1.y);
    let tc1y_b = wc1_b.mul(c1.y);
    lemma_mul_step(
        wc1_a,
        wc1_b,
        c1.y,
        c1.y,
        1_000_000_000,
        200_000_000_000,
        3_002,
        0,
        200_000_000_000,
        600_401,
    );
    let iny_a = tcxy_a.add(tc1y_a);
    let iny_b = tcxy_b.add(tc1y_b);
    assert(-800_000_000_000 <= iny_a@ <= 800_000_000_000
        && -800_000_000_000 <= iny_b@ <= 800_000_000_000
        && -2_401_002 <= iny_b@ - iny_a@ <= 2_401_002);
    let ally_a = tky_a.add(iny_a);
    let ally_b = tky_b.add(iny_b);
    assert(-1_400_000_000_000 <= ally_a@ <= 1_400_000_000_000
        && -1_400_000_000_000 <= ally_b@ <= 1_400_000_000_000
        && -4_002_003 <= ally_b@ - ally_a@ <= 4_002_003);
    let ry_a = target.y.sub(ally_a);
    let ry_b = target.y.sub(ally_b);
    assert(-1_600_000_000_000 <= ry_a@ <= 1_600_000_000_000
        && -1_600_000_000_000 <= ry_b@ <= 1_600_000_000_000
        && -4_002_003 <= ry_b@ - ry_a@ <= 4_002_003);
    let m1_a = rx_a.mul(dir.y);
    let m1_b = rx_b.mul(dir.y);
    lemma_mul_step(
        rx_a,
        rx_b,
        dir.y,
        dir.y,
        1_600_000_000_000,
        1_000_000_001,
        4_002_003,
        0,
        1_600_000_001_600,
        4_002_004,
    );
    let m2_a = ry_a.mul(dir.x);
    let m2_b = ry_b.mul(dir.x);
    lemma_mul_step(
        ry_a,
        ry_b,
        dir.x,
        dir.x,
        1_600_000_000_000,
        1_000_000_001,
        4_002_003,
        0,
        1_600_000_001_600,
        4_002_004,
    );
    let res_a = m1_a.sub(m2_a);
    let res_b = m1_b.sub(m2_b);
    assert(-3_200_000_003_200 <= res_a@ <= 3_200_000_003_200
        && -3_200_000_003_200 <= res_b@ <= 3_200_000_003_200
        && -8_004_008 <= res_b@ - res_a@ <= 8_004_008);
    assert(armhole_residual(t, k, cx, c1, target, dir) == res_a);
    assert(armhole_residual(t2, k, cx, c1, target, dir) == res_b);
}

/// A direction that is turned towards a point is no longer than it was:
/// where no coordinate of `dir` is more than one unit over one in size,
/// none of the turned direction is.
pub proof fn lemma_oriented_bounded(dir: Point2, toward: Point2)
    requires
        -SCALE - 1 <= dir.x@ <= SCALE + 1,
        -SCALE - 1 <= dir.y@ <= SCALE + 1,
    ensures
        -SCALE - 1 <= oriented(dir, toward).x@ <= SCALE + 1,
        -SCALE - 1 <= oriented(dir, toward).y@ <= SCALE + 1,
{
    let s = SCALE as int;
    let minus = Fixed::one().neg();
    assert(minus@ == -s);
    lemma_round_div_nearest(minus@ * dir.x@, s);
    lemma_round_div_nearest(minus@ * dir.y@, s);
    let p = round_div(minus@ * dir.x@, s);
    let q = round_div(minus@ * dir.y@, s);
    assert(p == -dir.x@) by (nonlinear_arith)
        requires
            -s <= 2 * (p * s - (-s) * dir.x@) <= s,
            s == 1_000_000_000,
    ;
    assert(q == -dir.y@) by (nonlinear_arith)
        requires
            -s <= 2 * (q * s - (-s) * dir.y@) <= s,
            s == 1_000_000_000,
    ;
}

/// At the parameter that is solved for, the rest of the target lies along
/// the direction of the solved control point: for landmarks, target and
/// placed control point within two metres of the axes, its cross product
/// with that direction is no more than 8004008 units either way, that is
/// 0.008 cm.
#[verifier::rlimit(50)]
pub proof fn lemma_armhole_residual_small(pts: CorsetPoints, target: Point2, depth: Fixed)
    requires
        armhole_parameter(pts, target, depth) is Ok,
        within_two_metres(pts.k),
        within_two_metres(pts.c1),
        within_two_metres(target),
        within_two_metres(armhole_low_control(pts, target, depth)),
    ensures
        ({
            let t = armhole_parameter(pts, target, depth)->Ok_0;
            let cx = armhole_low_control(pts, target, depth);
            let dir = armhole_high_direction(pts, target);
            -8_004_008 <= armhole_residual(t, pts.k, cx, pts.c1, target, dir)@ <= 8_004_008
        }),
{
    let cx = armhole_low_control(pts, target, depth);
    let dir = armhole_high_direction(pts, target);
    let across = crate::math::perp(crate::math::sub(pts.h, pts.k));
    if across.x@ != 0 || across.y@ != 0 {
        crate::math::lemma_normalize_unit(across);
    }
    lemma_oriented_bounded(crate::math::normalize(across), crate::math::sub(target, pts.k));
    let f = |t: Fixed| armhole_residual(t, pts.k, cx, pts.c1, target, dir);
    let a = Fixed::from_hundredths(1);
    let b = Fixed::from_hundredths(99);
    assert(opposite_signs(f(a), f(b)));
    let rising = f(a).is_negative();
    lemma_final_bracket(f, rising, a, b, tolerance());
    let end = crate::math::final_bracket(f, rising, a, b, tolerance());
    let lo = end.0;
    let hi = end.1;
    let t = lo.midpoint(hi);
    assert(hi@ - lo@ <= 1_000);
    assert(lo@ <= t@ <= hi@);
    lemma_armhole_residual_step(lo, t, pts.k, cx, pts.c1, target, dir);
    lemma_armhole_residual_step(t, hi, pts.k, cx, pts.c1, target, dir);
}

/// The sum of the rounded squares under the root of a quarter arc.
pub open spec fn arc_sum(w: int, h: int) -> int {
    round_div(w * w, SCALE as int) + round_div(h * h, SCALE as int)
}

/// Half that sum, rounded.
pub open spec fn arc_half(w: int, h: int) -> int {
    round_div(arc_sum(w, h) * SCALE, 2 * SCALE)
}

/// What a quarter arc is made of: for a half width between 0.01 cm and
/// 600 m and a height of no more than 600 m either way, nothing saturates,
/// and the arc is the root, rounded down, of half the sum of the two
/// rounded squares.
pub proof fn lemma_quarter_arc(w: Fixed, h: Fixed)
    requires
        10_000_000 <= w@ <= 60_000 * SCALE,
        -60_000 * SCALE <= h@ <= 60_000 * SCALE,
    ensures
        ({
            let s = SCALE as int;
            let k = quarter_arc(w, h)@;
            let a = round_div(w@ * w@, s);
            &&& -s <= 2 * (a * s - w@ * w@) <= s
            &&& 0 <= round_div(h@ * h@, s) <= 3_600_000_001 * s
            &&& 0 <= a <= 3_600_000_001 * s
            &&& -1 <= 2 * arc_half(w@, h@) - arc_sum(w@, h@) <= 1
            &&& 0 < arc_half(w@, h@)
            &&& 0 <= k <= 70_000 * s
            &&& k * k <= arc_half(w@, h@) * s
            &&& arc_half(w@, h@) * s < (k + 1) * (k + 1)
        }),
{
    let s = SCALE as int;
    let a = round_div(w@ * w@, s);
    let b = round_div(h@ * h@, s);
    lemma_round_div_nearest(w@ * w@, s);
    lemma_round_div_nearest(h@ * h@, s);
    lemma_round_div_sign(h@ * h@, s);
    assert(100_000_000_000_000 <= w@ * w@ <= 60_000 * s * (60_000 * s)) by (nonlinear_arith)
        requires
            10_000_000 <= w@ <= 60_000 * s,
            s == 1_000_000_000,
    ;
    assert(0 <= h@ * h@ <= 60_000 * s * (60_000 * s)) by (nonlinear_arith)
        requires
            -60_000 * s <= h@ <= 60_000 * s,
            s == 1_000_000_000,
    ;
    assert(99_999 <= a <= 3_600_000_001 * s) by (nonlinear_arith)
        requires
            -s <= 2 * (a * s - w@ * w@) <= s,
            100_000_000_000_000 <= w@ * w@ <= 60_000 * s * (60_000 * s),
            s == 1_000_000_000,
    ;
    assert(0 <= b <= 3_600_000_001 * s) by (nonlinear_arith)
        requires
            -s <= 2 * (b * s - h@ * h@) <= s,
            0 <= h@ * h@ <= 60_000 * s * (60_000 * s),
            0 <= b,
            s == 1_000_000_000,
    ;
    assert(w.mul(w)@ == a);
    assert(h.mul(h)@ == b);
    let sum = w.mul(w).add(h.mul(h));
    assert(sum@ == a + b);
    lemma_round_div_nearest(sum@ * s, 2 * s);
    let half = round_div(sum@ * s, 2 * s);
    assert(-1 <= 2 * half - sum@ <= 1) by (nonlinear_arith)
        requires
            -(2 * s) <= 2 * (half * (2 * s) - sum@ * s) <= 2 * s,
            s == 1_000_000_000,
    ;
    assert(Fixed::from_int(2)@ == 2 * s);
    assert(sum.div(Fixed::from_int(2))@ == half);
    assert(49_999 <= half <= 3_600_000_002 * s);
    assert(0 <= half * s <= 3_600_000_002 * s * s) by (nonlinear_arith)
        requires
            0 <= half <= 3_600_000_002 * s,
            s == 1_000_000_000,
    ;
    lemma_floor_sqrt_exists(half * s);
    let k = floor_sqrt(half * s);
    assert(k <= 70_000 * s) by (nonlinear_arith)
        requires
            0 <= k,
            k * k <= half * s,
            half * s <= 3_600_000_002 * s * s,
            s == 1_000_000_000,
    ;
    assert(quarter_arc(w, h)@ == k);
}

/// Over half the tolerance of the search a quarter arc grows by less than
/// the width does: for two half widths between 0.01 cm and 600 m, no more
/// than five hundred units apart, the arc of the wider is longer by no more
/// than 480 units.
#[verifier::rlimit(50)]
pub proof fn lemma_quarter_arc_half_step(u: Fixed, v: Fixed, h: Fixed)
    requires
        10_000_000 <= u@ <= v@ <= 60_000 * SCALE,
        v@ - u@ <= 500,
        -60_000 * SCALE <= h@ <= 60_000 * SCALE,
    ensures
        0 <= quarter_arc(v, h)@ - quarter_arc(u, h)@ <= 480,
{
    let s = SCALE as int;
    lemma_quarter_arc(u, h);
    lemma_quarter_arc(v, h);
    lemma_quarter_arc_order(u, v, h);
    let ku = quarter_arc(u, h)@;
    let kv = quarter_arc(v, h)@;
    let au = round_div(u@ * u@, s);
    let av = round_div(v@ * v@, s);
    let hu = arc_half(u@, h@);
    let hv = arc_half(v@, h@);
    let delta = v@ - u@;
    let uu = u@ * u@;
    assert(v@ * v@ - uu == delta * (u@ + v@)) by (nonlinear_arith)
        requires
            delta == v@ - u@,
            uu == u@ * u@,
    ;
    assert(delta * (u@ + v@) <= 1_000 * u@ + 250_000) by (nonlinear_arith)
        requires
            0 <= delta <= 500,
            v@ == u@ + delta,
            u@ >= 0,
    ;
    // twice the difference of the squares of the roots
    let ku1 = (ku + 1) * (ku + 1);
    assert(2 * (kv * kv) - 2 * ku1 < 1_000 * u@ + 250_000 + 3 * s) by (nonlinear_arith)
        requires
            kv * kv <= hv * s,
            hu * s < ku1,
            -1 <= 2 * hv - arc_sum(v@, h@) <= 1,
            -1 <= 2 * hu - arc_sum(u@, h@) <= 1,
            arc_sum(v@, h@) - arc_sum(u@, h@) == av - au,
            -s <= 2 * (av * s - v@ * v@) <= s,
            -s <= 2 * (au * s - uu) <= s,
            v@ * v@ - uu <= 1_000 * u@ + 250_000,
            s == 1_000_000_000,
    ;
    // the root is at least the width over the root of two
    assert(4 * ku1 > 2 * uu - 3 * s) by (nonlinear_arith)
        requires
            hu * s < ku1,
            -1 <= 2 * hu - arc_sum(u@, h@) <= 1,
            arc_sum(u@, h@) >= au,
            -s <= 2 * (au * s - uu) <= s,
            s == 1_000_000_000,
    ;
    if kv - ku > 480 {
        let d = kv - (ku + 1);
        let t = kv + ku + 1;
        assert(kv * kv - ku1 == d * t) by (nonlinear_arith)
            requires
                d == kv - (ku + 1),
                t == kv + ku + 1,
                ku1 == (ku + 1) * (ku + 1),
        ;
        assert(d * t >= 480 * t) by (nonlinear_arith)
            requires
                d >= 480,
                t >= 0,
        ;
        // so 960 t is under 1000 u + 3_000_250_000, although t + 1 is at
        // least twice ku + 1
        let c = t + 1;
        assert(c * c >= 4 * ku1) by (nonlinear_arith)
            requires
                c >= 2 * (ku + 1),
                ku >= 0,
                ku1 == (ku + 1) * (ku + 1),
        ;
        assert(c * c > 2 * uu - 3 * s);
        assert(960 * c < 1_000 * u@ + 3_000_250_960);
        let e = 960 * c;
        let b = 1_000 * u@ + 3_000_250_960;
        assert(e * e < b * b) by (nonlinear_arith)
            requires
                0 <= e < b,
        ;
        assert(e * e == 921_600 * (c * c)) by (nonlinear_arith)
            requires
                e == 960 * c,
        ;
        assert(b * b == 1_000_000 * uu + 6_000_501_920_000 * u@
            + 9_001_505_822_980_921_600) by (nonlinear_arith)
            requires
                b == 1_000 * u@ + 3_000_250_960,
                uu == u@ * u@,
        ;
        assert(uu >= 10_000_000 * u@) by (nonlinear_arith)
            requires
                uu == u@ * u@,
                u@ >= 10_000_000,
        ;
        assert(false);
    }
}

/// The half width of the neck line solves its equation: for a neck
/// circumference over pi between 0.01 cm and 600 m and a front neck height
/// of no more than 600 m either way, the two quarter arcs at the width
/// found add up to the neck circumference over pi to within 960 units of
/// the resolution, which is less than the tolerance of the search.
#[verifier::rlimit(50)]
pub proof fn lemma_neck_width_solves(fm: FullMeasurements)
    requires
        CorsetMeasurements::spec_from_full(fm) is Ok,
        Fixed::from_hundredths(1)@ <= neck_target(fm)@ <= 60_000 * SCALE,
        -60_000 * SCALE <= neck_front_height(fm)@ <= 60_000 * SCALE,
    ensures
        ({
            let w = CorsetMeasurements::spec_from_full(fm)->Ok_0.neck_width;
            -960 <= neck_excess(neck_back_height(), neck_front_height(fm), neck_target(fm), w)@
                <= 960
        }),
{
    let hb = neck_back_height();
    let hf = neck_front_height(fm);
    let t = neck_target(fm);
    let f = |w: Fixed| neck_excess(hb, hf, t, w);
    let a = Fixed::from_hundredths(1);
    let b = t;
    assert(opposite_signs(f(a), f(b)));
    let rising = f(a).is_negative();
    lemma_final_bracket(f, rising, a, b, tolerance());
    let end = crate::math::final_bracket(f, rising, a, b, tolerance());
    let lo = end.0;
    let hi = end.1;
    let x = lo.midpoint(hi);
    assert(hi@ - lo@ <= 1_000);
    assert(lo@ <= x@ <= hi@);
    lemma_neck_excess_step(hb, hf, t, a, b);
    lemma_neck_excess_step(hb, hf, t, lo, x);
    lemma_neck_excess_step(hb, hf, t, x, hi);
    assert(rising);
}

/// The excess of the neck line grows with the half width, and over half
/// the tolerance of the search by less than the tolerance.
proof fn lemma_neck_excess_step(hb: Fixed, hf: Fixed, t: Fixed, u: Fixed, v: Fixed)
    requires
        hb == neck_back_height(),
        -60_000 * SCALE <= hf@ <= 60_000 * SCALE,
        0 <= t@ <= 60_000 * SCALE,
        10_000_000 <= u@ <= v@ <= 60_000 * SCALE,
    ensures
        neck_excess(hb, hf, t, u)@ <= neck_excess(hb, hf, t, v)@,
        v@ - u@ <= 500 ==> neck_excess(hb, hf, t, v)@ - neck_excess(hb, hf, t, u)@ <= 960,
{
    lemma_quarter_arc(u, hb);
    lemma_quarter_arc(u, hf);
    lemma_quarter_arc(v, hb);
    lemma_quarter_arc(v, hf);
    lemma_quarter_arc_order(u, v, hb);
    lemma_quarter_arc_order(u, v, hf);
    if v@ - u@ <= 500 {
        lemma_quarter_arc_half_step(u, v, hb);
        lemma_quarter_arc_half_step(u, v, hf);
    }
}

/// A quarter arc grows with its half width.
proof fn lemma_quarter_arc_order(u: Fixed, v: Fixed, h: Fixed)
    requires
        10_000_000 <= u@ <= v@ <= 60_000 * SCALE,
        -60_000 * SCALE <= h@ <= 60_000 * SCALE,
    ensures
        quarter_arc(u, h)@ <= quarter_arc(v, h)@,
{
    let s = SCALE as int;
    lemma_quarter_arc(u, h);
    lemma_quarter_arc(v, h);
    let ku = quarter_arc(u, h)@;
    let kv = quarter_arc(v, h)@;
    let hu = arc_half(u@, h@);
    let hv = arc_half(v@, h@);
    assert(u@ * u@ <= v@ * v@) by (nonlinear_arith)
        requires
            0 <= u@ <= v@,
    ;
    lemma_round_div_monotone(u@ * u@, v@ * v@, s);
    assert(arc_sum(u@, h@) * s <= arc_sum(v@, h@) * s) by (nonlinear_arith)
        requires
            arc_sum(u@, h@) <= arc_sum(v@, h@),
            s == 1_000_000_000,
    ;
    lemma_round_div_monotone(arc_sum(u@, h@) * s, arc_sum(v@, h@) * s, 2 * s);
    assert(0 <= hu * s <= hv * s) by (nonlinear_arith)
        requires
            0 < hu <= hv,
            s == 1_000_000_000,
    ;
    lemma_floor_sqrt_monotone(hu * s, hv * s);
    lemma_floor_sqrt_exists(hu * s);
    lemma_floor_sqrt_exists(hv * s);
    lemma_floor_sqrt_unique(hu * s, ku, floor_sqrt(hu * s));
    lemma_floor_sqrt_unique(hv * s, kv, floor_sqrt(hv * s));
}

/// A quarter of a value, and its opposite, fit without saturation.
proof fn lemma_quarter_fits(v: Fixed)
    ensures
        -0x2000_0000_0000_0001 <= v.div(Fixed::from_int(4))@ <= 0x2000_0000_0000_0001,
        v.div(Fixed::from_int(4)).neg()@ == -v.div(Fixed::from_int(4))@,
{
    let s = SCALE as int;
    let d = 4 * s;
    lemma_round_div_nearest(v@ * s, d);
    assert(-0x2000_0000_0000_0001 <= round_div(v@ * s, d) <= 0x2000_0000_0000_0001)
        by (nonlinear_arith)
        requires
            -d <= 2 * (round_div(v@ * s, d) * d - v@ * s) <= d,
            d == 4 * s,
            s == 1_000_000_000,
            -0x8000_0000_0000_0000 <= v@ <= 0x7fff_ffff_ffff_ffff,
    ;
}

} // verus!
