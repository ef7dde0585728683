//! What a drawing of a pattern is made of, before any drawing format:
//! strokes, dots and captions, in centimetres of the pattern's own axes.

use crate::fixed::Fixed;
use crate::math::{BezierSegment, Point2};
use vstd::prelude::*;

verus! {

/// The colour of a mark.
#[derive(Clone, Copy, Debug, PartialEq, Eq, Structural)]
pub enum Ink {
    Black,
    Blue,
    Gray,
    Green,
}

impl Ink {
    /// The colour's name.
    pub fn name(self) -> (r: &'static str)
        ensures
            r@ == match self {
                Ink::Black => "black"@,
                Ink::Blue => "blue"@,
                Ink::Gray => "gray"@,
                Ink::Green => "green"@,
            },
    {
        match self {
            Ink::Black => "black",
            Ink::Blue => "blue",
            Ink::Gray => "gray",
            Ink::Green => "green",
        }
    }
}

/// How a stroke is drawn.
#[derive(Clone, Copy, Debug, PartialEq, Eq, Structural)]
pub enum LineStyle {
    Solid,
    Dashed,
    Dotted,
    DashDot,
}

impl LineStyle {
    /// The style's sign: `-`, `--`, `:` or `-.`.
    pub fn sign(self) -> (r: &'static str)
        ensures
            r@ == match self {
                LineStyle::Solid => "-"@,
                LineStyle::Dashed => "--"@,
                LineStyle::Dotted => ":"@,
                LineStyle::DashDot => "-."@,
            },
    {
        match self {
            LineStyle::Solid => "-",
            LineStyle::Dashed => "--",
            LineStyle::Dotted => ":",
            LineStyle::DashDot => "-.",
        }
    }
}

/// Which end of a caption stands at its place.
#[derive(Clone, Copy, Debug, PartialEq, Eq, Structural)]
pub enum Anchor {
    Left,
    Center,
    Right,
}

impl Anchor {
    /// The anchor's name.
    pub fn name(self) -> (r: &'static str)
        ensures
            r@ == match self {
                Anchor::Left => "left"@,
                Anchor::Center => "center"@,
                Anchor::Right => "right"@,
            },
    {
        match self {
            Anchor::Left => "left",
            Anchor::Center => "center",
            Anchor::Right => "right",
        }
    }
}

/// What a caption says. The drawing names points by their place in the
/// pattern's collections, whose labels the renderer writes out.
#[derive(Clone, Copy, Debug, PartialEq, Eq, Structural)]
pub enum Caption {
    /// The label of the landmark at place `index`, and below it the two
    /// coordinates to show.
    Landmark { index: usize, x: Fixed, y: Fixed },
    /// The label of the control point at place `index`.
    Control { index: usize },
    /// The legend of the scale bar.
    ScaleBar,
    /// The title of the front piece.
    Front,
    /// The title of the back piece.
    Back,
    /// The length of the sleeve cap, in centimetres.
    CapControl { length: Fixed },
}

/// One element of a drawing.
#[derive(Clone, Copy, Debug, PartialEq, Eq, Structural)]
pub enum Mark {
    /// A straight stroke.
    Line { from: Point2, to: Point2, ink: Ink, style: LineStyle, width: Fixed },
    /// A stroke along a cubic Bezier arc.
    Bezier {
        p0: Point2,
        p1: Point2,
        p2: Point2,
        p3: Point2,
        ink: Ink,
        style: LineStyle,
        width: Fixed,
    },
    /// A filled circle.
    Dot { at: Point2, radius: Fixed, ink: Ink },
    /// A caption.
    Text { at: Point2, caption: Caption, size: Fixed, ink: Ink, anchor: Anchor, bold: bool },
}

/// A solid stroke of width 1 from `from` to `to`.
pub open spec fn spec_solid_line(from: Point2, to: Point2, ink: Ink) -> Mark {
    Mark::Line { from, to, ink, style: LineStyle::Solid, width: Fixed::one() }
}

/// A solid stroke of width 1 from `from` to `to`.
#[verifier::when_used_as_spec(spec_solid_line)]
pub fn solid_line(from: Point2, to: Point2, ink: Ink) -> (r: Mark)
    ensures
        r == spec_solid_line(from, to, ink),
{
    Mark::Line { from, to, ink, style: LineStyle::Solid, width: Fixed::one() }
}

/// A dashed stroke of width 1 from `from` to `to`.
pub open spec fn spec_dashed_line(from: Point2, to: Point2, ink: Ink) -> Mark {
    Mark::Line { from, to, ink, style: LineStyle::Dashed, width: Fixed::one() }
}

/// A dashed stroke of width 1 from `from` to `to`.
#[verifier::when_used_as_spec(spec_dashed_line)]
pub fn dashed_line(from: Point2, to: Point2, ink: Ink) -> (r: Mark)
    ensures
        r == spec_dashed_line(from, to, ink),
{
    Mark::Line { from, to, ink, style: LineStyle::Dashed, width: Fixed::one() }
}

/// A solid stroke of width 1 along a Bezier arc.
pub open spec fn spec_solid_curve(curve: BezierSegment, ink: Ink) -> Mark {
    Mark::Bezier {
        p0: curve.0,
        p1: curve.1,
        p2: curve.2,
        p3: curve.3,
        ink,
        style: LineStyle::Solid,
        width: Fixed::one(),
    }
}

/// A solid stroke of width 1 along a Bezier arc.
#[verifier::when_used_as_spec(spec_solid_curve)]
pub fn solid_curve(curve: BezierSegment, ink: Ink) -> (r: Mark)
    ensures
        r == spec_solid_curve(curve, ink),
{
    Mark::Bezier {
        p0: curve.0,
        p1: curve.1,
        p2: curve.2,
        p3: curve.3,
        ink,
        style: LineStyle::Solid,
        width: Fixed::one(),
    }
}

/// The bar that shows ten centimetres, from `x = 0` at the height `y`.
pub open spec fn spec_scale_bar(y: Fixed) -> Mark {
    Mark::Line {
        from: Point2::new(Fixed::zero(), y),
        to: Point2::new(Fixed::from_int(10), y),
        ink: Ink::Black,
        style: LineStyle::Solid,
        width: Fixed::from_int(4),
    }
}

/// The bar that shows ten centimetres, from `x = 0` at the height `y`.
#[verifier::when_used_as_spec(spec_scale_bar)]
pub fn scale_bar(y: Fixed) -> (r: Mark)
    ensures
        r == spec_scale_bar(y),
{
    Mark::Line {
        from: Point2::new(Fixed::zero(), y),
        to: Point2::new(Fixed::from_int(10), y),
        ink: Ink::Black,
        style: LineStyle::Solid,
        width: Fixed::from_int(4),
    }
}

/// The legend of the scale bar, centred on `x = 5` at the height `y`.
pub open spec fn spec_scale_legend(y: Fixed) -> Mark {
    Mark::Text {
        at: Point2::new(Fixed::from_int(5), y),
        caption: Caption::ScaleBar,
        size: Fixed::from_int(8),
        ink: Ink::Black,
        anchor: Anchor::Center,
        bold: false,
    }
}

/// The legend of the scale bar, centred on `x = 5` at the height `y`.
#[verifier::when_used_as_spec(spec_scale_legend)]
pub fn scale_legend(y: Fixed) -> (r: Mark)
    ensures
        r == spec_scale_legend(y),
{
    Mark::Text {
        at: Point2::new(Fixed::from_int(5), y),
        caption: Caption::ScaleBar,
        size: Fixed::from_int(8),
        ink: Ink::Black,
        anchor: Anchor::Center,
        bold: false,
    }
}

/// A dot on a point.
pub open spec fn spec_dot(at: Point2, radius: Fixed, ink: Ink) -> Mark {
    Mark::Dot { at, radius, ink }
}

/// A dot on a point.
#[verifier::when_used_as_spec(spec_dot)]
pub fn dot(at: Point2, radius: Fixed, ink: Ink) -> (r: Mark)
    ensures
        r == spec_dot(at, radius, ink),
{
    Mark::Dot { at, radius, ink }
}

/// A caption of size 8 that starts half a centimetre to the right of
/// `point`.
pub open spec fn spec_label(point: Point2, caption: Caption, ink: Ink) -> Mark {
    Mark::Text {
        at: Point2::new(point.x.add(Fixed::from_hundredths(50)), point.y),
        caption,
        size: Fixed::from_int(8),
        ink,
        anchor: Anchor::Left,
        bold: false,
    }
}

/// A caption of size 8 that starts half a centimetre to the right of
/// `point`.
#[verifier::when_used_as_spec(spec_label)]
pub fn label(point: Point2, caption: Caption, ink: Ink) -> (r: Mark)
    ensures
        r == spec_label(point, caption, ink),
{
    Mark::Text {
        at: Point2::new(point.x.add(Fixed::from_hundredths(50)), point.y),
        caption,
        size: Fixed::from_int(8),
        ink,
        anchor: Anchor::Left,
        bold: false,
    }
}

/// A bold title of size 12, centred on `at`.
pub open spec fn spec_title(at: Point2, caption: Caption, ink: Ink) -> Mark {
    Mark::Text { at, caption, size: Fixed::from_int(12), ink, anchor: Anchor::Center, bold: true }
}

/// A bold title of size 12, centred on `at`.
#[verifier::when_used_as_spec(spec_title)]
pub fn title(at: Point2, caption: Caption, ink: Ink) -> (r: Mark)
    ensures
        r == spec_title(at, caption, ink),
{
    Mark::Text { at, caption, size: Fixed::from_int(12), ink, anchor: Anchor::Center, bold: true }
}

/// A drawing: its marks in the order in which they are drawn, inside a
/// frame.
pub struct Drawing {
    /// The frame: least and greatest `x`, least and greatest `y`.
    pub bounds: (Fixed, Fixed, Fixed, Fixed),
    /// Whether `y` grows upwards, so that the renderer has to flip it.
    pub y_flip: bool,
    pub marks: Vec<Mark>,
}

} // verus!
