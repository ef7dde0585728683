//! The drawings of the sleeve block: its outline with the cap curve, the
//! reference sheet and the clean pattern.

use crate::drawing::{
    dot, label, scale_bar, scale_legend, solid_curve, Anchor, Caption, Drawing, Ink, LineStyle,
    Mark,
};
use crate::fixed::Fixed;
use crate::math::{spline_beziers, BezierSegment, Point2};
use crate::patterns::sleeve::{landmarks_of, path_length, SleevePattern, SleeveView};
use crate::renderers::svg::{render, sheet};
use vstd::prelude::*;

verus! {

/// The point that the sleeve holds under `name`: a landmark, or else a
/// guide point.
pub open spec fn found(p: SleeveView, name: Seq<char>) -> Option<Point2> {
    if p.base.points.contains_key(name) {
        Some(p.base.points[name])
    } else if p.base.helper_points.contains_key(name) {
        Some(p.base.helper_points[name])
    } else {
        None
    }
}

/// The stroke between the points under two names, where the sleeve holds
/// both.
pub open spec fn line_marks(
    p: SleeveView,
    from: Seq<char>,
    to: Seq<char>,
    style: LineStyle,
    ink: Ink,
    width: Fixed,
) -> Seq<Mark> {
    match (found(p, from), found(p, to)) {
        (Some(a), Some(b)) => seq![Mark::Line { from: a, to: b, ink, style, width }],
        _ => Seq::empty(),
    }
}

/// The guide lines of the reference sheet: the box, the centre line, the
/// cap line and the elbow line dashed, the two quarter lines dotted.
pub open spec fn guide_lines(p: SleeveView) -> Seq<Mark> {
    line_marks(p, "A"@, "B"@, LineStyle::Dashed, Ink::Gray, Fixed::one())
    + line_marks(p, "B"@, "D"@, LineStyle::Dashed, Ink::Gray, Fixed::one())
    + line_marks(p, "D"@, "C"@, LineStyle::Dashed, Ink::Gray, Fixed::one())
    + line_marks(p, "C"@, "A"@, LineStyle::Dashed, Ink::Gray, Fixed::one())
    + line_marks(p, "E"@, "F"@, LineStyle::Dashed, Ink::Gray, Fixed::one())
    + line_marks(p, "I"@, "I'"@, LineStyle::Dashed, Ink::Gray, Fixed::one())
    + line_marks(p, "J"@, "J'"@, LineStyle::Dashed, Ink::Gray, Fixed::one())
    + line_marks(p, "G"@, "G1"@, LineStyle::Dotted, Ink::Gray, Fixed::from_hundredths(50))
    + line_marks(p, "H"@, "H1"@, LineStyle::Dotted, Ink::Gray, Fixed::from_hundredths(50))
}

/// The straight part of the outline: the two underarm seams and the
/// wrist.
pub open spec fn seam_lines(p: SleeveView) -> Seq<Mark> {
    line_marks(p, "I"@, "F1"@, LineStyle::Solid, Ink::Blue, Fixed::one())
    + line_marks(p, "I'"@, "F2"@, LineStyle::Solid, Ink::Blue, Fixed::one())
    + line_marks(p, "F1"@, "F2"@, LineStyle::Solid, Ink::Blue, Fixed::one())
}

/// The arcs of the cap curve as strokes.
pub open spec fn cap_marks(p: SleeveView) -> Seq<Mark> {
    spline_beziers(landmarks_of(p.base.points).cap()).map_values(
        |arc: BezierSegment| solid_curve(arc, Ink::Blue),
    )
}

/// The marks of the first `n` landmarks, in the order of the collection:
/// on each a dot, beside it its label and coordinates.
pub open spec fn landmark_labels(p: SleeveView, n: int) -> Seq<Mark>
    decreases n,
{
    if n <= 0 {
        Seq::empty()
    } else {
        let at = p.base.points[p.base.point_labels[n - 1]];
        landmark_labels(p, n - 1) + seq![
            dot(at, Fixed::from_hundredths(10), Ink::Black),
            label(
                at,
                Caption::Landmark { index: (n - 1) as usize, x: at.x, y: at.y },
                Ink::Black,
            ),
        ]
    }
}

/// The marks of the first `n` guide points, in the order of the
/// collection: on each a small dot, beside it its label.
pub open spec fn guide_labels(p: SleeveView, n: int) -> Seq<Mark>
    decreases n,
{
    if n <= 0 {
        Seq::empty()
    } else {
        let at = p.base.helper_points[p.base.helper_labels[n - 1]];
        guide_labels(p, n - 1) + seq![
            dot(at, Fixed::from_hundredths(7), Ink::Gray),
            label(at, Caption::Control { index: (n - 1) as usize }, Ink::Gray),
        ]
    }
}

/// The height of the bottom of the sleeve.
pub open spec fn bottom(p: SleeveView) -> Fixed {
    p.base.points["C"@].y.max(p.base.points["D"@].y)
}

/// The scale bar, 3 cm beyond the bottom, and its legend, 2 cm further.
pub open spec fn scale_marks(p: SleeveView) -> Seq<Mark> {
    seq![
        scale_bar(bottom(p).add(Fixed::from_int(3))),
        scale_legend(bottom(p).add(Fixed::from_int(5))),
    ]
}

/// The caption that gives the check figure of the cap, under the crown
/// and 8 cm beyond the bottom.
pub open spec fn cap_caption(p: SleeveView) -> Mark {
    Mark::Text {
        at: Point2::new(p.base.points["E"@].x, bottom(p).add(Fixed::from_int(8))),
        caption: Caption::CapControl {
            length: path_length(landmarks_of(p.base.points).cap(), 6),
        },
        size: Fixed::from_int(9),
        ink: Ink::Blue,
        anchor: Anchor::Center,
        bold: false,
    }
}

/// The reference sheet: guide lines, outline, all points with their
/// labels, scale bar and check figure.
pub open spec fn reference_marks(p: SleeveView) -> Seq<Mark> {
    guide_lines(p) + seam_lines(p) + cap_marks(p) + landmark_labels(
        p,
        p.base.point_labels.len() as int,
    ) + guide_labels(p, p.base.helper_labels.len() as int) + scale_marks(p).push(
        cap_caption(p),
    )
}

/// The clean pattern: outline and scale bar.
pub open spec fn printable_marks(p: SleeveView) -> Seq<Mark> {
    seam_lines(p) + cap_marks(p) + scale_marks(p)
}

/// The marks of the drawing of the given variant: the reference sheet for
/// `construction`, the clean pattern for any other.
pub open spec fn variant_marks(p: SleeveView, variant: Seq<char>) -> Seq<Mark> {
    if variant == "construction"@ {
        reference_marks(p)
    } else {
        printable_marks(p)
    }
}

impl SleevePattern {
    /// The point under `name`: a landmark, or else a guide point.
    pub fn find(&self, name: &str) -> (r: Option<Point2>)
        requires
            self.base.wf(),
        ensures
            r == found(self@, name@),
    {
        match self.base.points.get(name) {
            Some(p) => Some(p),
            None => self.base.helper_points.get(name),
        }
    }

    /// Adds the stroke between the points under two names, where the
    /// sleeve holds both.
    pub fn draw_line(
        &self,
        marks: &mut Vec<Mark>,
        from: &str,
        to: &str,
        style: LineStyle,
        ink: Ink,
        width: Fixed,
    )
        requires
            self.base.wf(),
        ensures
            final(marks)@ == old(marks)@ + line_marks(self@, from@, to@, style, ink, width),
    {
        let a = self.find(from);
        let b = self.find(to);
        match (a, b) {
            (Some(a), Some(b)) => {
                marks.push(Mark::Line { from: a, to: b, ink, style, width });
            },
            _ => {},
        }
        assert(marks@ =~= old(marks)@ + line_marks(self@, from@, to@, style, ink, width));
    }

    /// Adds the arcs of the cap curve to `marks`.
    #[verifier::rlimit(50)]
    pub fn draw_spline(&self, marks: &mut Vec<Mark>)
        requires
            self.wf(),
        ensures
            final(marks)@ == old(marks)@ + cap_marks(self@),
    {
        let arcs = self.cap_curve();
        let mut i: usize = 0;
        assert(marks@ =~= old(marks)@ + cap_marks(self@).take(0));
        while i < arcs.len()
            invariant
                i <= arcs.len(),
                arcs@ == spline_beziers(landmarks_of(self.base.points@).cap()),
                marks@ == old(marks)@ + cap_marks(self@).take(i as int),
            decreases arcs.len() - i,
        {
            marks.push(solid_curve(arcs[i], Ink::Blue));
            assert(cap_marks(self@).take(i + 1) =~= cap_marks(self@).take(i as int).push(
                cap_marks(self@)[i as int],
            ));
            assert(marks@ =~= old(marks)@ + cap_marks(self@).take(i + 1));
            i += 1;
        }
        assert(cap_marks(self@).take(i as int) =~= cap_marks(self@));
    }

    fn plot_landmark_labels(&self, marks: &mut Vec<Mark>)
        requires
            self.wf(),
        ensures
            final(marks)@ == old(marks)@ + landmark_labels(self@,
                self.base.points.labels().len() as int,
            ),
    {
        let n = self.base.points.len();
        let mut i: usize = 0;
        assert(marks@ =~= old(marks)@ + landmark_labels(self@, 0));
        while i < n
            invariant
                self.wf(),
                n == self.base.points.labels().len(),
                i <= n,
                marks@ == old(marks)@ + landmark_labels(self@, i as int),
            decreases n - i,
        {
            let at = self.base.points.value_at(i);
            marks.push(dot(at, Fixed::from_hundredths(10), Ink::Black));
            marks.push(label(at, Caption::Landmark { index: i, x: at.x, y: at.y }, Ink::Black));
            assert(marks@ =~= old(marks)@ + landmark_labels(self@, i + 1));
            i += 1;
        }
    }

    fn plot_guide_labels(&self, marks: &mut Vec<Mark>)
        requires
            self.wf(),
        ensures
            final(marks)@ == old(marks)@ + guide_labels(self@,
                self.base.helper_points.labels().len() as int,
            ),
    {
        let n = self.base.helper_points.len();
        let mut i: usize = 0;
        assert(marks@ =~= old(marks)@ + guide_labels(self@, 0));
        while i < n
            invariant
                self.wf(),
                n == self.base.helper_points.labels().len(),
                i <= n,
                marks@ == old(marks)@ + guide_labels(self@, i as int),
            decreases n - i,
        {
            let at = self.base.helper_points.value_at(i);
            marks.push(dot(at, Fixed::from_hundredths(7), Ink::Gray));
            marks.push(label(at, Caption::Control { index: i }, Ink::Gray));
            assert(marks@ =~= old(marks)@ + guide_labels(self@, i + 1));
            i += 1;
        }
    }

    fn plot_guide_lines(&self, marks: &mut Vec<Mark>)
        requires
            self.wf(),
        ensures
            final(marks)@ == old(marks)@ + guide_lines(self@),
    {
        self.draw_line(marks, "A", "B", LineStyle::Dashed, Ink::Gray, Fixed::one());
        self.draw_line(marks, "B", "D", LineStyle::Dashed, Ink::Gray, Fixed::one());
        self.draw_line(marks, "D", "C", LineStyle::Dashed, Ink::Gray, Fixed::one());
        self.draw_line(marks, "C", "A", LineStyle::Dashed, Ink::Gray, Fixed::one());
        self.draw_line(marks, "E", "F", LineStyle::Dashed, Ink::Gray, Fixed::one());
        self.draw_line(marks, "I", "I'", LineStyle::Dashed, Ink::Gray, Fixed::one());
        self.draw_line(marks, "J", "J'", LineStyle::Dashed, Ink::Gray, Fixed::one());
        self.draw_line(marks, "G", "G1", LineStyle::Dotted, Ink::Gray, Fixed::from_hundredths(50));
        self.draw_line(marks, "H", "H1", LineStyle::Dotted, Ink::Gray, Fixed::from_hundredths(50));
        assert(marks@ =~= old(marks)@ + guide_lines(self@));
    }

    fn plot_seam_lines(&self, marks: &mut Vec<Mark>)
        requires
            self.wf(),
        ensures
            final(marks)@ == old(marks)@ + seam_lines(self@),
    {
        self.draw_line(marks, "I", "F1", LineStyle::Solid, Ink::Blue, Fixed::one());
        self.draw_line(marks, "I'", "F2", LineStyle::Solid, Ink::Blue, Fixed::one());
        self.draw_line(marks, "F1", "F2", LineStyle::Solid, Ink::Blue, Fixed::one());
        assert(marks@ =~= old(marks)@ + seam_lines(self@));
    }

    fn plot_scale(&self, marks: &mut Vec<Mark>)
        requires
            self.wf(),
        ensures
            final(marks)@ == old(marks)@ + scale_marks(self@),
    {
        let bottom = self.pt("C").y.max(self.pt("D").y);
        marks.push(scale_bar(bottom.add(Fixed::from_int(3))));
        marks.push(scale_legend(bottom.add(Fixed::from_int(5))));
        assert(marks@ =~= old(marks)@ + scale_marks(self@));
    }

    /// Adds the reference sheet to `marks`.
    #[verifier::rlimit(50)]
    pub fn plot_reference(&self, marks: &mut Vec<Mark>)
        requires
            self.wf(),
        ensures
            final(marks)@ == old(marks)@ + reference_marks(self@),
    {
        self.plot_guide_lines(marks);
        self.plot_seam_lines(marks);
        self.draw_spline(marks);
        self.plot_landmark_labels(marks);
        self.plot_guide_labels(marks);
        self.plot_scale(marks);
        let bottom = self.pt("C").y.max(self.pt("D").y);
        marks.push(
            Mark::Text {
                at: Point2::new(self.pt("E").x, bottom.add(Fixed::from_int(8))),
                caption: Caption::CapControl { length: self.sleeve_cap_control() },
                size: Fixed::from_int(9),
                ink: Ink::Blue,
                anchor: Anchor::Center,
                bold: false,
            },
        );
        assert(marks@ =~= old(marks)@ + reference_marks(self@));
    }

    /// Adds the clean pattern to `marks`.
    pub fn plot_printable(&self, marks: &mut Vec<Mark>)
        requires
            self.wf(),
        ensures
            final(marks)@ == old(marks)@ + printable_marks(self@),
    {
        self.plot_seam_lines(marks);
        self.draw_spline(marks);
        self.plot_scale(marks);
        assert(marks@ =~= old(marks)@ + printable_marks(self@));
    }

    /// The drawing of the sleeve as it stands, in the frame that was
    /// fitted when it was drafted: the reference sheet for the variant
    /// `construction`, the clean pattern for any other.
    pub fn drawing(&self, variant: &str) -> (d: Drawing)
        requires
            self.wf(),
        ensures
            d.bounds == self.bounds,
            !d.y_flip,
            d.marks@ == variant_marks(self@, variant@),
    {
        let mut marks: Vec<Mark> = Vec::new();
        if variant.to_owned() == "construction".to_owned() {
            self.plot_reference(&mut marks);
            assert(marks@ =~= reference_marks(self@));
        } else {
            self.plot_printable(&mut marks);
            assert(marks@ =~= printable_marks(self@));
        }
        Drawing { bounds: self.bounds, y_flip: false, marks }
    }

    /// Renders the sleeve as an SVG document: the reference sheet for the
    /// variant `construction`, the clean pattern for any other.
    pub fn render_svg(&self, variant: &str) -> (r: String)
        requires
            self.wf(),
        ensures
            r@ == sleeve_sheet(self@, variant@),
    {
        let d = self.drawing(variant);
        render(&d, &self.base.points, &self.base.helper_points)
    }
}

/// The SVG document of the given variant of a sleeve.
pub open spec fn sleeve_sheet(p: SleeveView, variant: Seq<char>) -> Seq<char> {
    sheet(p.bounds, false, variant_marks(p, variant), p.base.point_labels, p.base.helper_labels)
}

} // verus!
