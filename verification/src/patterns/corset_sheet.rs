//! The drawings of the bodice block: the outlines of front and back, the
//! reference sheet and the clean pattern.

use crate::drawing::{
    dashed_line, dot, label, scale_bar, scale_legend, solid_curve, solid_line, title, Caption,
    Drawing, Ink, Mark,
};
use crate::fixed::Fixed;
use crate::math::{BezierSegment, Point2};
use crate::patterns::corset::{
    controls_of, landmarks_of, mirrored, CorsetHelpers, CorsetPattern, CorsetPoints, CorsetView,
};
use crate::renderers::svg::{render, sheet};
use crate::store::place_in;
use vstd::prelude::*;

verus! {

/// The points that the outline of one piece, front or back, runs through.
#[derive(Clone, Copy, Debug, PartialEq, Eq, Structural)]
pub struct PieceFrame {
    /// Centre line at hip level.
    pub a: Point2,
    /// Side at hip level.
    pub a1: Point2,
    /// Centre line at the waist.
    pub b: Point2,
    /// Side at the waist.
    pub b1: Point2,
    /// Underarm point.
    pub c1: Point2,
    /// Top of the front at the centre line, which gives the upward
    /// direction of the side seam at the waist.
    pub e: Point2,
    /// Top of the piece at the centre line.
    pub top: Point2,
    /// Neck end of the shoulder seam.
    pub h: Point2,
    /// Arm end of the shoulder seam.
    pub k: Point2,
    /// Control point of the neck curve at the shoulder.
    pub neck_high: Point2,
    /// Control point of the neck curve at the centre line.
    pub neck_low: Point2,
    /// Control point of the armhole at the shoulder.
    pub armhole_high: Point2,
    /// Control point of the armhole at the underarm.
    pub armhole_low: Point2,
}

/// The points of the front.
pub open spec fn spec_front_frame(pts: CorsetPoints, hp: CorsetHelpers) -> PieceFrame {
    PieceFrame {
        a: pts.a,
        a1: pts.a1,
        b: pts.b,
        b1: pts.b1,
        c1: pts.c1,
        e: pts.e,
        top: pts.e,
        h: pts.h,
        k: pts.k,
        neck_high: hp.h1,
        neck_low: hp.e1,
        armhole_high: hp.k1,
        armhole_low: hp.c11,
    }
}

/// The points of the front.
#[verifier::when_used_as_spec(spec_front_frame)]
pub fn front_frame(pts: CorsetPoints, hp: CorsetHelpers) -> (r: PieceFrame)
    ensures
        r == spec_front_frame(pts, hp),
{
    PieceFrame {
        a: pts.a,
        a1: pts.a1,
        b: pts.b,
        b1: pts.b1,
        c1: pts.c1,
        e: pts.e,
        top: pts.e,
        h: pts.h,
        k: pts.k,
        neck_high: hp.h1,
        neck_low: hp.e1,
        armhole_high: hp.k1,
        armhole_low: hp.c11,
    }
}

/// The points of the back: those of the front mirrored, with the back's
/// own top and control points.
pub open spec fn spec_back_frame(pts: CorsetPoints, hp: CorsetHelpers, gap: Fixed) -> PieceFrame {
    PieceFrame {
        a: mirrored(gap, pts.a),
        a1: mirrored(gap, pts.a1),
        b: mirrored(gap, pts.b),
        b1: mirrored(gap, pts.b1),
        c1: mirrored(gap, pts.c1),
        e: mirrored(gap, pts.e),
        top: mirrored(gap, pts.f),
        h: mirrored(gap, pts.h),
        k: mirrored(gap, pts.k),
        neck_high: mirrored(gap, hp.h2),
        neck_low: mirrored(gap, hp.f1),
        armhole_high: mirrored(gap, hp.k2),
        armhole_low: mirrored(gap, hp.c12),
    }
}

fn mirror(gap: Fixed, p: Point2) -> (r: Point2)
    ensures
        r == mirrored(gap, p),
{
    Point2::new(p.x.neg().add(gap), p.y)
}

/// The points of the back: those of the front mirrored, with the back's
/// own top and control points.
#[verifier::when_used_as_spec(spec_back_frame)]
pub fn back_frame(pts: CorsetPoints, hp: CorsetHelpers, gap: Fixed) -> (r: PieceFrame)
    ensures
        r == spec_back_frame(pts, hp, gap),
{
    PieceFrame {
        a: mirror(gap, pts.a),
        a1: mirror(gap, pts.a1),
        b: mirror(gap, pts.b),
        b1: mirror(gap, pts.b1),
        c1: mirror(gap, pts.c1),
        e: mirror(gap, pts.e),
        top: mirror(gap, pts.f),
        h: mirror(gap, pts.h),
        k: mirror(gap, pts.k),
        neck_high: mirror(gap, hp.h2),
        neck_low: mirror(gap, hp.f1),
        armhole_high: mirror(gap, hp.k2),
        armhole_low: mirror(gap, hp.c12),
    }
}

/// The side seam from the hip to the waist: it leaves the hip straight
/// up and meets the waist along the centre line's direction, each control
/// point a third of the seam's chord away.
pub open spec fn hip_seam(fr: PieceFrame) -> BezierSegment {
    let third = crate::math::norm(crate::math::sub(fr.b1, fr.a1)).div(Fixed::from_int(3));
    let up = crate::math::normalize(crate::math::sub(fr.e, fr.b));
    (
        fr.a1,
        crate::math::add(fr.a1, Point2::new(Fixed::zero(), third)),
        crate::math::sub(fr.b1, crate::math::scale(third, up)),
        fr.b1,
    )
}

/// The side seam from the waist to the underarm: it leaves the waist
/// along the centre line's direction and meets the underarm point along
/// the chord, its last control point three tenths of the chord back.
pub open spec fn side_seam(fr: PieceFrame) -> BezierSegment {
    let third = crate::math::norm(crate::math::sub(fr.b1, fr.a1)).div(Fixed::from_int(3));
    let up = crate::math::normalize(crate::math::sub(fr.e, fr.b));
    let chord = crate::math::sub(fr.c1, fr.b1);
    (
        fr.b1,
        crate::math::add(fr.b1, crate::math::scale(third, up)),
        crate::math::sub(
            fr.c1,
            crate::math::scale(
                crate::math::norm(chord).mul(Fixed::from_hundredths(30)),
                crate::math::normalize(chord),
            ),
        ),
        fr.c1,
    )
}

/// The outline of one piece: hip seam, side seam, centre line, hem, neck
/// curve, shoulder seam and armhole.
pub open spec fn piece_outline(fr: PieceFrame, ink: Ink) -> Seq<Mark> {
    seq![
        solid_curve(hip_seam(fr), ink),
        solid_curve(side_seam(fr), ink),
        solid_line(fr.a, fr.top, ink),
        solid_line(fr.a, fr.a1, ink),
        solid_curve((fr.h, fr.neck_high, fr.neck_low, fr.top), ink),
        solid_line(fr.h, fr.k, ink),
        solid_curve((fr.k, fr.armhole_high, fr.armhole_low, fr.c1), ink),
    ]
}

/// Adds the outline of one piece to `marks`.
pub fn plot_piece(fr: &PieceFrame, ink: Ink, marks: &mut Vec<Mark>)
    ensures
        final(marks)@ == old(marks)@ + piece_outline(*fr, ink),
{
    let third = crate::math::norm(crate::math::sub(fr.b1, fr.a1)).div(Fixed::from_int(3));
    let up = crate::math::normalize(crate::math::sub(fr.e, fr.b));
    let hip_out = crate::math::add(fr.a1, Point2::new(Fixed::zero(), third));
    let waist_in = crate::math::sub(fr.b1, crate::math::scale(third, up));
    marks.push(solid_curve((fr.a1, hip_out, waist_in, fr.b1), ink));
    let waist_out = crate::math::add(fr.b1, crate::math::scale(third, up));
    let chord = crate::math::sub(fr.c1, fr.b1);
    let underarm_in = crate::math::sub(
        fr.c1,
        crate::math::scale(
            crate::math::norm(chord).mul(Fixed::from_hundredths(30)),
            crate::math::normalize(chord),
        ),
    );
    marks.push(solid_curve((fr.b1, waist_out, underarm_in, fr.c1), ink));
    marks.push(solid_line(fr.a, fr.top, ink));
    marks.push(solid_line(fr.a, fr.a1, ink));
    marks.push(solid_curve((fr.h, fr.neck_high, fr.neck_low, fr.top), ink));
    marks.push(solid_line(fr.h, fr.k, ink));
    marks.push(solid_curve((fr.k, fr.armhole_high, fr.armhole_low, fr.c1), ink));
    assert(marks@ =~= old(marks)@ + piece_outline(*fr, ink));
}

/// The lines of the outline of a piece, in the order in which they are
/// drawn.
#[derive(Clone, Copy, Debug, PartialEq, Eq, Structural)]
pub enum OutlineCurve {
    /// The side seam from the hip to the waist.
    HipSeam,
    /// The side seam from the waist to the underarm.
    SideSeam,
    /// The centre line from the hip to the top.
    CentreLine,
    /// The hem, from the centre line to the side.
    Hem,
    /// The neck line from the shoulder to the centre line.
    Neck,
    /// The shoulder seam from the neck to the arm.
    Shoulder,
    /// The armhole from the shoulder to the underarm.
    Armhole,
}

impl OutlineCurve {
    /// The place of the line in the outline.
    pub open spec fn spec_place(self) -> usize {
        match self {
            OutlineCurve::HipSeam => 0,
            OutlineCurve::SideSeam => 1,
            OutlineCurve::CentreLine => 2,
            OutlineCurve::Hem => 3,
            OutlineCurve::Neck => 4,
            OutlineCurve::Shoulder => 5,
            OutlineCurve::Armhole => 6,
        }
    }

    /// The place of the line in the outline.
    #[verifier::when_used_as_spec(spec_place)]
    pub fn place(self) -> (r: usize)
        ensures
            r == self.spec_place(),
    {
        match self {
            OutlineCurve::HipSeam => 0,
            OutlineCurve::SideSeam => 1,
            OutlineCurve::CentreLine => 2,
            OutlineCurve::Hem => 3,
            OutlineCurve::Neck => 4,
            OutlineCurve::Shoulder => 5,
            OutlineCurve::Armhole => 6,
        }
    }
}

/// One line of the outline of a piece.
pub fn outline_curve(fr: &PieceFrame, curve: OutlineCurve, ink: Ink) -> (m: Mark)
    ensures
        m == piece_outline(*fr, ink)[curve.place() as int],
{
    let mut marks: Vec<Mark> = Vec::new();
    plot_piece(fr, ink, &mut marks);
    assert(marks@ =~= piece_outline(*fr, ink));
    marks[curve.place()]
}

/// The outline of the front, in blue.
pub open spec fn front_curves(p: CorsetView) -> Seq<Mark> {
    piece_outline(
        front_frame(landmarks_of(p.base.points), controls_of(p.base.helper_points)),
        Ink::Blue,
    )
}

/// The outline of the back, in green.
pub open spec fn back_curves(p: CorsetView) -> Seq<Mark> {
    piece_outline(
        back_frame(
            landmarks_of(p.base.points),
            controls_of(p.base.helper_points),
            p.pattern_gap,
        ),
        Ink::Green,
    )
}

/// The two marks of a landmark: a dot on it and beside it its label,
/// with its distance from the centre line and its height above the waist.
pub open spec fn landmark_marks(index: int, at: Point2, origin: Point2, ink: Ink) -> Seq<Mark> {
    seq![
        dot(at, Fixed::from_hundredths(10), ink),
        label(
            at,
            Caption::Landmark {
                index: index as usize,
                x: at.x.sub(origin.x).abs(),
                y: at.y.sub(origin.y),
            },
            ink,
        ),
    ]
}

/// The two marks of a control point: a small dot on it and beside it its
/// label.
pub open spec fn control_marks(index: int, at: Point2) -> Seq<Mark> {
    seq![
        dot(at, Fixed::from_hundredths(7), Ink::Gray),
        label(at, Caption::Control { index: index as usize }, Ink::Gray),
    ]
}

/// The marks of the first `n` landmarks of the front, in the order of the
/// collection: all but `D2`, which belongs to the back alone.
pub open spec fn front_landmarks(p: CorsetView, n: int) -> Seq<Mark>
    decreases n,
{
    if n <= 0 {
        Seq::empty()
    } else {
        let name = p.base.point_labels[n - 1];
        if name == "D2"@ {
            front_landmarks(p, n - 1)
        } else {
            front_landmarks(p, n - 1) + landmark_marks(
                n - 1,
                p.base.points[name],
                p.base.points["B"@],
                Ink::Blue,
            )
        }
    }
}

/// The marks of the landmark `name` in the back.
pub open spec fn back_landmark(p: CorsetView, name: Seq<char>) -> Seq<Mark> {
    if p.base.points.contains_key(name) {
        landmark_marks(
            place_in(p.base.point_labels, name),
            mirrored(p.pattern_gap, p.base.points[name]),
            mirrored(p.pattern_gap, p.base.points["B"@]),
            Ink::Green,
        )
    } else {
        Seq::empty()
    }
}

/// The marks of the landmarks of the back.
pub open spec fn back_landmarks(p: CorsetView) -> Seq<Mark> {
    back_landmark(p, "A"@)
        + back_landmark(p, "A1"@)
        + back_landmark(p, "B"@)
        + back_landmark(p, "B1"@)
        + back_landmark(p, "C1"@)
        + back_landmark(p, "D2"@)
        + back_landmark(p, "F"@)
        + back_landmark(p, "H"@)
        + back_landmark(p, "K"@)
}

/// The marks of the control point `name` in the front.
pub open spec fn front_control(p: CorsetView, name: Seq<char>) -> Seq<Mark> {
    if p.base.helper_points.contains_key(name) {
        control_marks(place_in(p.base.helper_labels, name), p.base.helper_points[name])
    } else {
        Seq::empty()
    }
}

/// The marks of the control point `name` in the back.
pub open spec fn back_control(p: CorsetView, name: Seq<char>) -> Seq<Mark> {
    if p.base.helper_points.contains_key(name) {
        control_marks(
            place_in(p.base.helper_labels, name),
            mirrored(p.pattern_gap, p.base.helper_points[name]),
        )
    } else {
        Seq::empty()
    }
}

/// The marks of the control points of the front.
pub open spec fn front_controls(p: CorsetView) -> Seq<Mark> {
    front_control(p, "H1"@)
        + front_control(p, "E1"@)
        + front_control(p, "C11"@)
        + front_control(p, "K1"@)
}

/// The marks of the control points of the back.
pub open spec fn back_controls(p: CorsetView) -> Seq<Mark> {
    back_control(p, "H2"@)
        + back_control(p, "F1"@)
        + back_control(p, "C12"@)
        + back_control(p, "K2"@)
}

/// The scale bar, 5 cm below the hem, with its legend 2 cm further down,
/// and the titles of the two pieces on the waist line, each halfway
/// between centre line and side.
pub open spec fn captions(p: CorsetView) -> Seq<Mark> {
    let a = p.base.points["A"@];
    let a1 = p.base.points["A1"@];
    let b = p.base.points["B"@];
    let below = a.y.min(a1.y).sub(Fixed::from_int(5));
    seq![
        scale_bar(below),
        scale_legend(below.sub(Fixed::from_int(2))),
        title(Point2::new(a.x.add(a1.x).div(Fixed::from_int(2)), b.y), Caption::Front, Ink::Blue),
        title(
            Point2::new(
                mirrored(p.pattern_gap, a).x.add(mirrored(p.pattern_gap, a1).x).div(
                    Fixed::from_int(2),
                ),
                b.y,
            ),
            Caption::Back,
            Ink::Green,
        ),
    ]
}

/// The two guide lines of the reference sheet: centre line and hip line
/// of the front.
pub open spec fn guide_lines(p: CorsetView) -> Seq<Mark> {
    seq![
        dashed_line(p.base.points["A"@], p.base.points["E"@], Ink::Gray),
        dashed_line(p.base.points["A"@], p.base.points["A1"@], Ink::Gray),
    ]
}

/// The reference sheet: guide lines, both outlines, the landmarks and
/// control points of both pieces with their labels, scale bar and titles.
pub open spec fn reference_marks(p: CorsetView) -> Seq<Mark> {
    guide_lines(p) + front_curves(p) + back_curves(p) + front_landmarks(
        p,
        p.base.point_labels.len() as int,
    ) + back_landmarks(p) + front_controls(p) + back_controls(p) + captions(p)
}

/// The clean pattern: both outlines, scale bar and titles.
pub open spec fn printable_marks(p: CorsetView) -> Seq<Mark> {
    front_curves(p) + back_curves(p) + captions(p)
}

/// The marks of the drawing of the given variant: the reference sheet for
/// `construction`, the clean pattern for any other.
pub open spec fn variant_marks(p: CorsetView, variant: Seq<char>) -> Seq<Mark> {
    if variant == "construction"@ {
        reference_marks(p)
    } else {
        printable_marks(p)
    }
}

impl CorsetPattern {
    fn plot_back_landmark(&self, name: &str, marks: &mut Vec<Mark>)
        requires
            self.wf(),
        ensures
            final(marks)@ == old(marks)@ + back_landmark(self@, name@),
    {
        let origin = self.mirror_point(self.pt("B"));
        match self.base.points.position(name) {
            Some(i) => {
                let at = self.mirror_point(self.base.points.value_at(i));
                marks.push(dot(at, Fixed::from_hundredths(10), Ink::Green));
                marks.push(
                    label(
                        at,
                        Caption::Landmark {
                            index: i,
                            x: at.x.sub(origin.x).abs(),
                            y: at.y.sub(origin.y),
                        },
                        Ink::Green,
                    ),
                );
                assert(marks@ =~= old(marks)@ + back_landmark(self@, name@));
            },
            None => {
                assert(marks@ =~= old(marks)@ + back_landmark(self@, name@));
            },
        }
    }

    fn plot_front_control(&self, name: &str, marks: &mut Vec<Mark>)
        requires
            self.wf(),
        ensures
            final(marks)@ == old(marks)@ + front_control(self@, name@),
    {
        match self.base.helper_points.position(name) {
            Some(i) => {
                let at = self.base.helper_points.value_at(i);
                marks.push(dot(at, Fixed::from_hundredths(7), Ink::Gray));
                marks.push(label(at, Caption::Control { index: i }, Ink::Gray));
                assert(marks@ =~= old(marks)@ + front_control(self@, name@));
            },
            None => {
                assert(marks@ =~= old(marks)@ + front_control(self@, name@));
            },
        }
    }

    fn plot_back_control(&self, name: &str, marks: &mut Vec<Mark>)
        requires
            self.wf(),
        ensures
            final(marks)@ == old(marks)@ + back_control(self@, name@),
    {
        match self.base.helper_points.position(name) {
            Some(i) => {
                let at = self.mirror_point(self.base.helper_points.value_at(i));
                marks.push(dot(at, Fixed::from_hundredths(7), Ink::Gray));
                marks.push(label(at, Caption::Control { index: i }, Ink::Gray));
                assert(marks@ =~= old(marks)@ + back_control(self@, name@));
            },
            None => {
                assert(marks@ =~= old(marks)@ + back_control(self@, name@));
            },
        }
    }

    fn plot_front_landmarks(&self, marks: &mut Vec<Mark>)
        requires
            self.wf(),
        ensures
            final(marks)@ == old(marks)@ + front_landmarks(self@,
                self.base.points.labels().len() as int,
            ),
    {
        let origin = self.pt("B");
        let skipped = "D2".to_owned();
        let n = self.base.points.len();
        let mut i: usize = 0;
        assert(marks@ =~= old(marks)@ + front_landmarks(self@, 0));
        while i < n
            invariant
                self.wf(),
                n == self.base.points.labels().len(),
                i <= n,
                skipped@ == "D2"@,
                origin == self.base.points@["B"@],
                marks@ == old(marks)@ + front_landmarks(self@, i as int),
            decreases n - i,
        {
            let ghost before = marks@;
            let name = self.base.points.label_at(i);
            if *name != skipped {
                let at = self.base.points.value_at(i);
                marks.push(dot(at, Fixed::from_hundredths(10), Ink::Blue));
                marks.push(
                    label(
                        at,
                        Caption::Landmark {
                            index: i,
                            x: at.x.sub(origin.x).abs(),
                            y: at.y.sub(origin.y),
                        },
                        Ink::Blue,
                    ),
                );
                assert(marks@ =~= before + landmark_marks(i as int, at, origin, Ink::Blue));
            }
            assert(marks@ =~= old(marks)@ + front_landmarks(self@, i + 1));
            i += 1;
        }
    }

    fn plot_captions(&self, marks: &mut Vec<Mark>)
        requires
            self.wf(),
        ensures
            final(marks)@ == old(marks)@ + captions(self@),
    {
        let a = self.pt("A");
        let a1 = self.pt("A1");
        let b = self.pt("B");
        let below = a.y.min(a1.y).sub(Fixed::from_int(5));
        marks.push(scale_bar(below));
        marks.push(scale_legend(below.sub(Fixed::from_int(2))));
        let front_centre = a.x.add(a1.x).div(Fixed::from_int(2));
        let back_centre = self.mirror_point(a).x.add(self.mirror_point(a1).x).div(
            Fixed::from_int(2),
        );
        marks.push(title(Point2::new(front_centre, b.y), Caption::Front, Ink::Blue));
        marks.push(title(Point2::new(back_centre, b.y), Caption::Back, Ink::Green));
        assert(marks@ =~= old(marks)@ + captions(self@));
    }

    /// Adds the reference sheet to `marks`.
    #[verifier::rlimit(50)]
    pub fn plot_reference(&self, marks: &mut Vec<Mark>)
        requires
            self.wf(),
        ensures
            final(marks)@ == old(marks)@ + reference_marks(self@),
    {
        let a = self.pt("A");
        marks.push(dashed_line(a, self.pt("E"), Ink::Gray));
        marks.push(dashed_line(a, self.pt("A1"), Ink::Gray));
        assert(marks@ =~= old(marks)@ + guide_lines(self@));
        self.plot_front_curves(marks);
        self.plot_back_curves(marks);
        self.plot_front_landmarks(marks);
        let ghost s4 = marks@;
        assert(s4 =~= old(marks)@ + (guide_lines(self@) + front_curves(self@) + back_curves(self@)
            + front_landmarks(self@, self.base.points.labels().len() as int)));
        self.plot_back_landmark("A", marks);
        self.plot_back_landmark("A1", marks);
        self.plot_back_landmark("B", marks);
        self.plot_back_landmark("B1", marks);
        self.plot_back_landmark("C1", marks);
        self.plot_back_landmark("D2", marks);
        self.plot_back_landmark("F", marks);
        self.plot_back_landmark("H", marks);
        self.plot_back_landmark("K", marks);
        let ghost s5 = marks@;
        assert(s5 =~= s4 + back_landmarks(self@));
        self.plot_front_control("H1", marks);
        self.plot_front_control("E1", marks);
        self.plot_front_control("C11", marks);
        self.plot_front_control("K1", marks);
        let ghost s6 = marks@;
        assert(s6 =~= s5 + front_controls(self@));
        self.plot_back_control("H2", marks);
        self.plot_back_control("F1", marks);
        self.plot_back_control("C12", marks);
        self.plot_back_control("K2", marks);
        let ghost s7 = marks@;
        assert(s7 =~= s6 + back_controls(self@));
        self.plot_captions(marks);
        assert(marks@ =~= old(marks)@ + reference_marks(self@));
    }

    /// Adds the clean pattern to `marks`.
    #[verifier::rlimit(50)]
    pub fn plot_printable(&self, marks: &mut Vec<Mark>)
        requires
            self.wf(),
        ensures
            final(marks)@ == old(marks)@ + printable_marks(self@),
    {
        self.plot_front_curves(marks);
        self.plot_back_curves(marks);
        self.plot_captions(marks);
        assert(marks@ =~= old(marks)@ + printable_marks(self@));
    }

    /// The drawing of the bodice as it stands: the reference sheet for the
    /// variant `construction`, the clean pattern for any other. The frame
    /// is fitted first.
    pub fn drawing(&mut self, variant: &str) -> (d: Drawing)
        requires
            old(self).wf(),
        ensures
            final(self).wf(),
            final(self).base == old(self).base,
            final(self).m == old(self).m,
            final(self).b == old(self).b,
            final(self)@ == old(self)@.framed(),
            d.bounds == final(self).bounds,
            d.y_flip,
            d.marks@ == variant_marks(final(self)@, variant@),
    {
        self.prepare_bounds();
        let mut marks: Vec<Mark> = Vec::new();
        if variant.to_owned() == "construction".to_owned() {
            self.plot_reference(&mut marks);
            assert(marks@ =~= reference_marks(self@));
        } else {
            self.plot_printable(&mut marks);
            assert(marks@ =~= printable_marks(self@));
        }
        Drawing { bounds: self.bounds, y_flip: true, marks }
    }

    /// Renders the bodice as an SVG document: the reference sheet for the
    /// variant `construction`, the clean pattern for any other. The frame
    /// is fitted first.
    pub fn render_svg(&mut self, variant: &str) -> (r: String)
        requires
            old(self).wf(),
        ensures
            final(self).wf(),
            final(self).base == old(self).base,
            final(self)@ == old(self)@.framed(),
            r@ == corset_sheet(final(self)@, variant@),
    {
        let d = self.drawing(variant);
        render(&d, &self.base.points, &self.base.helper_points)
    }
}

/// The SVG document of the given variant of a bodice.
pub open spec fn corset_sheet(p: CorsetView, variant: Seq<char>) -> Seq<char> {
    sheet(p.bounds, true, variant_marks(p, variant), p.base.point_labels, p.base.helper_labels)
}

impl CorsetPattern {
    /// Adds the outline of the front to `marks`.
    pub fn plot_front_curves(&self, marks: &mut Vec<Mark>)
        requires
            self.wf(),
        ensures
            final(marks)@ == old(marks)@ + front_curves(self@),
    {
        let frame = front_frame(self.landmarks(), self.controls());
        plot_piece(&frame, Ink::Blue, marks);
    }

    /// Adds the outline of the back to `marks`.
    pub fn plot_back_curves(&self, marks: &mut Vec<Mark>)
        requires
            self.wf(),
        ensures
            final(marks)@ == old(marks)@ + back_curves(self@),
    {
        let frame = back_frame(self.landmarks(), self.controls(), self.pattern_gap);
        plot_piece(&frame, Ink::Green, marks);
    }
}

} // verus!
