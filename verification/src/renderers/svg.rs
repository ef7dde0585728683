//! A small SVG writer for patterns. Coordinates come in centimetres; the
//! document is written in millimetres, so that it prints at true size.

use crate::decimal::{decimal, to_decimal};
use crate::drawing::{Anchor, Caption, Drawing, Ink, LineStyle, Mark};
use crate::fixed::Fixed;
use crate::math::Point2;
use crate::patterns::stretch::PointStore;
use vstd::prelude::*;
use vstd::string::StringExecFns;

verus! {

/// The view of a text that may be missing.
pub open spec fn text_option(t: Option<&'static str>) -> Option<Seq<char>> {
    match t {
        Some(s) => Some(s@),
        None => None,
    }
}

/// The dash pattern of a line style, where it has one: a solid line has
/// none.
pub open spec fn dash_pattern(style: Seq<char>) -> Option<Seq<char>> {
    if style == "--"@ {
        Some("5,3"@)
    } else if style == ":"@ {
        Some("2,2"@)
    } else if style == "-."@ {
        Some("5,2,2,2"@)
    } else {
        None
    }
}

/// The dash pattern of the line style `style`: `5,3` for `--`, `2,2` for
/// `:`, `5,2,2,2` for `-.`, none for a solid line or any other sign.
pub fn stroke_dasharray(style: &str) -> (r: Option<&'static str>)
    ensures
        text_option(r) == dash_pattern(style@),
{
    let style = style.to_owned();
    if style == "--".to_owned() {
        Some("5,3")
    } else if style == ":".to_owned() {
        Some("2,2")
    } else if style == "-.".to_owned() {
        Some("5,2,2,2")
    } else {
        None
    }
}

/// The attribute that gives a stroke its dash pattern, or nothing.
pub open spec fn dash_attribute(style: Seq<char>) -> Seq<char> {
    match dash_pattern(style) {
        Some(d) => " stroke-dasharray=\""@ + d + "\""@,
        None => Seq::empty(),
    }
}

/// A length in millimetres for one in centimetres.
pub open spec fn spec_mm(v: Fixed) -> Fixed {
    v.mul(Fixed::from_int(10))
}

/// A length in millimetres for one in centimetres.
#[verifier::when_used_as_spec(spec_mm)]
pub fn mm(v: Fixed) -> (r: Fixed)
    ensures
        r == spec_mm(v),
{
    v.mul(Fixed::from_int(10))
}

/// A number as the document writes it: with two decimals.
pub open spec fn fmt_spec(v: Fixed) -> Seq<char> {
    decimal(v, 2)
}

/// A number as the document writes it: with two decimals.
pub fn fmt(v: Fixed) -> (r: String)
    ensures
        r@ == fmt_spec(v),
{
    to_decimal(v, 2)
}

/// The width of a stroke in millimetres: 0.3 mm for the width 1.
pub open spec fn stroke_width(width: Fixed) -> Seq<char> {
    fmt_spec(mm(width.mul(Fixed::from_hundredths(3))))
}

/// The size of a font in millimetres: 0.35 mm for the size 1.
pub open spec fn font_size(size: Fixed) -> Seq<char> {
    fmt_spec(mm(size.mul(Fixed::from_ratio(35, 1000))))
}

/// How a character stands in the document: `&`, `<` and `>` as
/// entities, any other as itself.
pub open spec fn escape_char(c: char) -> Seq<char> {
    if c == '&' {
        "&amp;"@
    } else if c == '<' {
        "&lt;"@
    } else if c == '>' {
        "&gt;"@
    } else {
        seq![c]
    }
}

/// A text with `&`, `<` and `>` written as entities.
pub open spec fn escape(s: Seq<char>) -> Seq<char>
    decreases s.len(),
{
    if s.len() == 0 {
        Seq::empty()
    } else {
        escape(s.drop_last()) + escape_char(s.last())
    }
}

/// The lines of a text, divided at its line feeds, each with `&`, `<` and
/// `>` written as entities. A text without a line feed is one line.
pub open spec fn escaped_lines(s: Seq<char>) -> Seq<Seq<char>>
    decreases s.len(),
{
    if s.len() == 0 {
        seq![Seq::empty()]
    } else {
        let before = escaped_lines(s.drop_last());
        if s.last() == '\n' {
            before.push(Seq::empty())
        } else {
            before.drop_last().push(before.last() + escape_char(s.last()))
        }
    }
}

/// The name of the text anchor for an alignment: `middle` for `center`,
/// `end` for `right`, `start` for any other.
pub open spec fn anchor_name(ha: Seq<char>) -> Seq<char> {
    if ha == "center"@ {
        "middle"@
    } else if ha == "right"@ {
        "end"@
    } else {
        "start"@
    }
}

/// The attribute that makes a text bold, or nothing.
pub open spec fn weight_attribute(fontweight: Seq<char>) -> Seq<char> {
    if fontweight == "bold"@ {
        " font-weight=\"bold\""@
    } else {
        Seq::empty()
    }
}

/// The views of a list of texts.
pub open spec fn texts(list: Seq<String>) -> Seq<Seq<char>> {
    list.map_values(|s: String| s@)
}

/// Collects drawing elements and writes them out as one SVG document.
pub struct SVGRenderer {
    pub min_x: Fixed,
    pub max_x: Fixed,
    pub min_y: Fixed,
    pub max_y: Fixed,
    /// Whether `y` grows upwards in what is drawn, so that it is flipped
    /// on the page.
    pub y_flip: bool,
    pub elements: Vec<String>,
}

/// What a renderer holds but its elements.
pub struct Page {
    pub min_x: Fixed,
    pub max_x: Fixed,
    pub min_y: Fixed,
    pub max_y: Fixed,
    pub y_flip: bool,
}

impl Page {
    /// The place of `x` on the page, in millimetres from its left edge.
    pub open spec fn tx(self, x: Fixed) -> Fixed {
        mm(x.sub(self.min_x))
    }

    /// The place of `y` on the page, in millimetres from its top edge.
    pub open spec fn ty(self, y: Fixed) -> Fixed {
        if self.y_flip {
            mm(self.max_y.sub(y))
        } else {
            mm(y.sub(self.min_y))
        }
    }

    /// A point as the document writes it: `x,y`.
    pub open spec fn pair(self, p: Point2) -> Seq<char> {
        fmt_spec(self.tx(p.x)) + ","@ + fmt_spec(self.ty(p.y))
    }

    /// The element of a straight stroke.
    pub open spec fn line_element(
        self,
        from: Point2,
        to: Point2,
        color: Seq<char>,
        style: Seq<char>,
        width: Fixed,
    ) -> Seq<char> {
        "<line x1=\""@ + fmt_spec(self.tx(from.x)) + "\" y1=\""@ + fmt_spec(self.ty(from.y))
            + "\" x2=\""@ + fmt_spec(self.tx(to.x)) + "\" y2=\""@ + fmt_spec(self.ty(to.y))
            + "\" stroke=\""@ + color + "\" stroke-width=\""@ + stroke_width(width)
            + "\" fill=\"none\""@ + dash_attribute(style) + "/>"@
    }

    /// The points of a polyline as the document writes them: pairs with
    /// blanks between.
    pub open spec fn pairs(self, points: Seq<Point2>) -> Seq<char>
        decreases points.len(),
    {
        if points.len() == 0 {
            Seq::empty()
        } else if points.len() == 1 {
            self.pair(points[0])
        } else {
            self.pairs(points.drop_last()) + " "@ + self.pair(points.last())
        }
    }

    /// The element of a stroke through a sequence of points.
    pub open spec fn polyline_element(
        self,
        points: Seq<Point2>,
        color: Seq<char>,
        style: Seq<char>,
        width: Fixed,
    ) -> Seq<char> {
        "<polyline points=\""@ + self.pairs(points) + "\" stroke=\""@ + color
            + "\" stroke-width=\""@ + stroke_width(width) + "\" fill=\"none\""@ + dash_attribute(
            style,
        ) + "/>"@
    }

    /// The element of a stroke along a cubic Bezier arc.
    pub open spec fn bezier_element(
        self,
        p0: Point2,
        p1: Point2,
        p2: Point2,
        p3: Point2,
        color: Seq<char>,
        style: Seq<char>,
        width: Fixed,
    ) -> Seq<char> {
        "<path d=\""@ + ("M "@ + self.pair(p0) + " C "@ + self.pair(p1) + " "@ + self.pair(p2)
            + " "@ + self.pair(p3)) + "\" stroke=\""@ + color + "\" stroke-width=\""@
            + stroke_width(width) + "\" fill=\"none\""@ + dash_attribute(style) + "/>"@
    }

    /// The element of a filled circle.
    pub open spec fn circle_element(self, center: Point2, radius: Fixed, color: Seq<char>) -> Seq<
        char,
    > {
        "<circle cx=\""@ + fmt_spec(self.tx(center.x)) + "\" cy=\""@ + fmt_spec(
            self.ty(center.y),
        ) + "\" r=\""@ + fmt_spec(mm(radius)) + "\" fill=\""@ + color + "\"/>"@
    }

    /// The opening tag of a text element.
    pub open spec fn text_opening(
        self,
        at: Point2,
        size: Fixed,
        color: Seq<char>,
        ha: Seq<char>,
        fontweight: Seq<char>,
    ) -> Seq<char> {
        "<text x=\""@ + fmt_spec(self.tx(at.x)) + "\" y=\""@ + fmt_spec(self.ty(at.y))
            + "\" font-family=\"Arial, sans-serif\" font-size=\""@ + font_size(size)
            + "\" fill=\""@ + color + "\" text-anchor=\""@ + anchor_name(ha) + "\""@
            + weight_attribute(fontweight) + ">"@
    }

    /// The spans of the first `n` lines of a text of several lines: the
    /// first on the text's own line, each further one a line below.
    pub open spec fn spans(self, at: Point2, lines: Seq<Seq<char>>, n: int) -> Seq<char>
        decreases n,
    {
        if n <= 0 {
            Seq::empty()
        } else {
            self.spans(at, lines, n - 1) + "<tspan x=\""@ + fmt_spec(self.tx(at.x)) + "\" dy=\""@
                + (if n == 1 {
                "0"@
            } else {
                "1.2em"@
            }) + "\">"@ + lines[n - 1] + "</tspan>"@
        }
    }

    /// The element of a text: on one line as it is, of several lines as a
    /// span for each.
    pub open spec fn text_element(
        self,
        at: Point2,
        content: Seq<char>,
        size: Fixed,
        color: Seq<char>,
        ha: Seq<char>,
        fontweight: Seq<char>,
    ) -> Seq<char> {
        let lines = escaped_lines(content);
        if lines.len() == 1 {
            self.text_opening(at, size, color, ha, fontweight) + lines[0] + "</text>"@
        } else {
            self.text_opening(at, size, color, ha, fontweight) + self.spans(
                at,
                lines,
                lines.len() as int,
            ) + "</text>"@
        }
    }

    /// The first lines of the document, which give the page its size.
    pub open spec fn header(self) -> Seq<char> {
        "<?xml version=\"1.0\" encoding=\"UTF-8\"?>\n<svg xmlns=\"http://www.w3.org/2000/svg\" viewBox=\"0 0 "@
            + fmt_spec(mm(self.max_x.sub(self.min_x))) + " "@ + fmt_spec(
            mm(self.max_y.sub(self.min_y)),
        ) + "\">\n"@
    }
}

/// The first `n` elements, each on a line of its own and indented by two
/// blanks.
pub open spec fn body(elements: Seq<Seq<char>>, n: int) -> Seq<char>
    decreases n,
{
    if n <= 0 {
        Seq::empty()
    } else if n == 1 {
        "  "@ + elements[0]
    } else {
        body(elements, n - 1) + "\n"@ + "  "@ + elements[n - 1]
    }
}

/// The document that holds the given elements.
pub open spec fn document(page: Page, elements: Seq<Seq<char>>) -> Seq<char> {
    page.header() + body(elements, elements.len() as int) + "\n</svg>\n"@
}

/// Divides a text into its lines and writes `&`, `<` and `>` as
/// entities.
pub fn escaped_text_lines(content: &str) -> (lines: Vec<String>)
    ensures
        texts(lines@) == escaped_lines(content@),
        lines.len() >= 1,
{
    let n = content.unicode_len();
    let mut lines: Vec<String> = Vec::new();
    let mut current = String::new();
    let mut i: usize = 0;
    assert(content@.take(0) =~= Seq::<char>::empty());
    assert(texts(lines@).push(current@) =~= escaped_lines(content@.take(0)));
    while i < n
        invariant
            n == content@.len(),
            i <= n,
            texts(lines@).push(current@) == escaped_lines(content@.take(i as int)),
        decreases n - i,
    {
        let c = content.get_char(i);
        let ghost done = texts(lines@);
        let ghost line = current@;
        proof {
            let next = content@.take(i + 1);
            assert(next.drop_last() =~= content@.take(i as int));
            assert(next.last() == c);
            assert(done.push(line).drop_last() =~= done);
            assert(done.push(line).last() == line);
        }
        if c == '\n' {
            lines.push(current);
            current = String::new();
            assert(texts(lines@) =~= done.push(line));
        } else if c == '&' {
            current.append("&amp;");
        } else if c == '<' {
            current.append("&lt;");
        } else if c == '>' {
            current.append("&gt;");
        } else {
            current.append(content.substring_char(i, i + 1));
            assert(content@.subrange(i as int, i + 1) =~= seq![c]);
        }
        assert(texts(lines@).push(current@) =~= escaped_lines(content@.take(i + 1)));
        i += 1;
    }
    assert(content@.take(i as int) =~= content@);
    let ghost done = texts(lines@);
    lines.push(current);
    assert(texts(lines@) =~= done.push(current@));
    lines
}

impl SVGRenderer {
    /// The page of the renderer.
    pub open spec fn page(&self) -> Page {
        Page {
            min_x: self.min_x,
            max_x: self.max_x,
            min_y: self.min_y,
            max_y: self.max_y,
            y_flip: self.y_flip,
        }
    }

    /// The elements collected so far.
    pub open spec fn view(&self) -> Seq<Seq<char>> {
        texts(self.elements@)
    }

    /// A renderer without elements for a page with the bounds
    /// `(min_x, max_x, min_y, max_y)` in centimetres. With `y_flip` the
    /// `y` axis points upwards in what is drawn.
    pub fn new(bounds: (Fixed, Fixed, Fixed, Fixed), y_flip: bool) -> (r: Self)
        ensures
            r.page() == (Page {
                min_x: bounds.0,
                max_x: bounds.1,
                min_y: bounds.2,
                max_y: bounds.3,
                y_flip,
            }),
            r@ == Seq::<Seq<char>>::empty(),
    {
        let r = SVGRenderer {
            min_x: bounds.0,
            max_x: bounds.1,
            min_y: bounds.2,
            max_y: bounds.3,
            y_flip,
            elements: Vec::new(),
        };
        assert(r@ =~= Seq::<Seq<char>>::empty());
        r
    }

    /// The place of `x` on the page, in millimetres from its left edge.
    pub fn tx(&self, x: Fixed) -> (r: Fixed)
        ensures
            r == self.page().tx(x),
    {
        mm(x.sub(self.min_x))
    }

    /// The place of `y` on the page, in millimetres from its top edge.
    pub fn ty(&self, y: Fixed) -> (r: Fixed)
        ensures
            r == self.page().ty(y),
    {
        if self.y_flip {
            mm(self.max_y.sub(y))
        } else {
            mm(y.sub(self.min_y))
        }
    }

    /// The place of a point on the page.
    pub fn pt(&self, x: Fixed, y: Fixed) -> (r: (Fixed, Fixed))
        ensures
            r == (self.page().tx(x), self.page().ty(y)),
    {
        (self.tx(x), self.ty(y))
    }

    fn push_pair(&self, out: &mut String, p: Point2)
        ensures
            final(out)@ == old(out)@ + self.page().pair(p),
    {
        out.append(fmt(self.tx(p.x)).as_str());
        out.append(",");
        out.append(fmt(self.ty(p.y)).as_str());
        assert(out@ =~= old(out)@ + self.page().pair(p));
    }

    fn push_stroke(out: &mut String, color: &str, style: &str, width: Fixed)
        ensures
            final(out)@ == old(out)@ + "\" stroke=\""@ + color@ + "\" stroke-width=\""@
                + stroke_width(width) + "\" fill=\"none\""@ + dash_attribute(style@) + "/>"@,
    {
        out.append("\" stroke=\"");
        out.append(color);
        out.append("\" stroke-width=\"");
        out.append(fmt(mm(width.mul(Fixed::from_hundredths(3)))).as_str());
        out.append("\" fill=\"none\"");
        match stroke_dasharray(style) {
            Some(d) => {
                out.append(" stroke-dasharray=\"");
                out.append(d);
                out.append("\"");
            },
            None => {},
        }
        out.append("/>");
        assert(out@ =~= old(out)@ + "\" stroke=\""@ + color@ + "\" stroke-width=\""@
            + stroke_width(width) + "\" fill=\"none\""@ + dash_attribute(style@) + "/>"@);
    }

    fn push_element(&mut self, element: String)
        ensures
            final(self).page() == old(self).page(),
            final(self)@ == old(self)@.push(element@),
    {
        self.elements.push(element);
        assert(self@ =~= old(self)@.push(element@));
    }

    /// Draws a line from `(x1, y1)` to `(x2, y2)`.
    pub fn line(
        &mut self,
        x1: Fixed,
        y1: Fixed,
        x2: Fixed,
        y2: Fixed,
        color: &str,
        style: &str,
        width: Fixed,
    )
        ensures
            final(self).page() == old(self).page(),
            final(self)@ == old(self)@.push(
                old(self).page().line_element(
                    Point2::new(x1, y1),
                    Point2::new(x2, y2),
                    color@,
                    style@,
                    width,
                ),
            ),
    {
        let mut e = String::from_str("<line x1=\"");
        e.append(fmt(self.tx(x1)).as_str());
        e.append("\" y1=\"");
        e.append(fmt(self.ty(y1)).as_str());
        e.append("\" x2=\"");
        e.append(fmt(self.tx(x2)).as_str());
        e.append("\" y2=\"");
        e.append(fmt(self.ty(y2)).as_str());
        Self::push_stroke(&mut e, color, style, width);
        assert(e@ =~= self.page().line_element(
            Point2::new(x1, y1),
            Point2::new(x2, y2),
            color@,
            style@,
            width,
        ));
        self.push_element(e);
    }

    /// Draws a polyline through a sequence of points.
    pub fn polyline(&mut self, points: &[Point2], color: &str, style: &str, width: Fixed)
        ensures
            final(self).page() == old(self).page(),
            final(self)@ == old(self)@.push(
                old(self).page().polyline_element(points@, color@, style@, width),
            ),
    {
        let mut e = String::from_str("<polyline points=\"");
        let ghost start = e@;
        let mut i: usize = 0;
        assert(points@.take(0) =~= Seq::<Point2>::empty());
        assert(e@ =~= start + self.page().pairs(points@.take(0)));
        while i < points.len()
            invariant
                i <= points.len(),
                start == "<polyline points=\""@,
                e@ == start + self.page().pairs(points@.take(i as int)),
            decreases points.len() - i,
        {
            let ghost before = e@;
            if i > 0 {
                e.append(" ");
            }
            self.push_pair(&mut e, points[i]);
            proof {
                let next = points@.take(i + 1);
                assert(next.drop_last() =~= points@.take(i as int));
                assert(next.last() == points[i as int]);
                if i == 0 {
                    assert(next.len() == 1);
                    assert(next[0] == points[0]);
                    assert(points@.take(0).len() == 0);
                }
                assert(e@ =~= start + self.page().pairs(next));
            }
            i += 1;
        }
        assert(points@.take(i as int) =~= points@);
        Self::push_stroke(&mut e, color, style, width);
        assert(e@ =~= self.page().polyline_element(points@, color@, style@, width));
        self.push_element(e);
    }

    /// Draws a cubic Bezier curve as a path.
    #[verifier::rlimit(50)]
    pub fn bezier(
        &mut self,
        p0: Point2,
        p1: Point2,
        p2: Point2,
        p3: Point2,
        color: &str,
        style: &str,
        width: Fixed,
    )
        ensures
            final(self).page() == old(self).page(),
            final(self)@ == old(self)@.push(
                old(self).page().bezier_element(p0, p1, p2, p3, color@, style@, width),
            ),
    {
        let mut e = String::from_str("<path d=\"");
        e.append("M ");
        self.push_pair(&mut e, p0);
        e.append(" C ");
        self.push_pair(&mut e, p1);
        e.append(" ");
        self.push_pair(&mut e, p2);
        e.append(" ");
        self.push_pair(&mut e, p3);
        Self::push_stroke(&mut e, color, style, width);
        assert(e@ =~= self.page().bezier_element(p0, p1, p2, p3, color@, style@, width));
        self.push_element(e);
    }

    /// Draws a filled circle at `(x, y)` with radius `r`.
    pub fn circle(&mut self, x: Fixed, y: Fixed, r: Fixed, color: &str)
        ensures
            final(self).page() == old(self).page(),
            final(self)@ == old(self)@.push(
                old(self).page().circle_element(Point2::new(x, y), r, color@),
            ),
    {
        let mut e = String::from_str("<circle cx=\"");
        e.append(fmt(self.tx(x)).as_str());
        e.append("\" cy=\"");
        e.append(fmt(self.ty(y)).as_str());
        e.append("\" r=\"");
        e.append(fmt(mm(r)).as_str());
        e.append("\" fill=\"");
        e.append(color);
        e.append("\"/>");
        assert(e@ =~= self.page().circle_element(Point2::new(x, y), r, color@));
        self.push_element(e);
    }

    /// Draws text at `(x, y)`. A line feed in `content` starts a new line
    /// below; `ha` is `left`, `center` or `right`, and the text is bold
    /// where `fontweight` is `bold`.
    pub fn text(
        &mut self,
        x: Fixed,
        y: Fixed,
        content: &str,
        size: Fixed,
        color: &str,
        ha: &str,
        fontweight: &str,
    )
        ensures
            final(self).page() == old(self).page(),
            final(self)@ == old(self)@.push(
                old(self).page().text_element(
                    Point2::new(x, y),
                    content@,
                    size,
                    color@,
                    ha@,
                    fontweight@,
                ),
            ),
    {
        let at = Point2::new(x, y);
        let sx = fmt(self.tx(x));
        let mut e = String::from_str("<text x=\"");
        e.append(sx.as_str());
        e.append("\" y=\"");
        e.append(fmt(self.ty(y)).as_str());
        e.append("\" font-family=\"Arial, sans-serif\" font-size=\"");
        e.append(fmt(mm(size.mul(Fixed::from_ratio(35, 1000)))).as_str());
        e.append("\" fill=\"");
        e.append(color);
        e.append("\" text-anchor=\"");
        let ha = ha.to_owned();
        if ha == "center".to_owned() {
            e.append("middle");
        } else if ha == "right".to_owned() {
            e.append("end");
        } else {
            e.append("start");
        }
        e.append("\"");
        if fontweight.to_owned() == "bold".to_owned() {
            e.append(" font-weight=\"bold\"");
        }
        e.append(">");
        assert(e@ =~= self.page().text_opening(at, size, color@, ha@, fontweight@));
        let ghost opening = e@;
        let lines = escaped_text_lines(content);
        if lines.len() == 1 {
            e.append(lines[0].as_str());
            assert(texts(lines@)[0] == lines[0]@);
        } else {
            let mut i: usize = 0;
            assert(e@ =~= opening + self.page().spans(at, texts(lines@), 0));
            while i < lines.len()
                invariant
                    i <= lines.len(),
                    sx@ == fmt_spec(self.page().tx(at.x)),
                    e@ == opening + self.page().spans(at, texts(lines@), i as int),
                decreases lines.len() - i,
            {
                e.append("<tspan x=\"");
                e.append(sx.as_str());
                e.append("\" dy=\"");
                if i == 0 {
                    e.append("0");
                } else {
                    e.append("1.2em");
                }
                e.append("\">");
                e.append(lines[i].as_str());
                e.append("</tspan>");
                assert(texts(lines@)[i as int] == lines[i as int]@);
                assert(e@ =~= opening + self.page().spans(at, texts(lines@), i + 1));
                i += 1;
            }
        }
        e.append("</text>");
        assert(e@ =~= self.page().text_element(at, content@, size, color@, ha@, fontweight@));
        self.push_element(e);
    }

    /// Renders and returns the complete SVG document.
    pub fn to_svg(&self) -> (r: String)
        ensures
            r@ == document(self.page(), self@),
    {
        let mut r = String::from_str(
            "<?xml version=\"1.0\" encoding=\"UTF-8\"?>\n<svg xmlns=\"http://www.w3.org/2000/svg\" viewBox=\"0 0 ",
        );
        r.append(fmt(mm(self.max_x.sub(self.min_x))).as_str());
        r.append(" ");
        r.append(fmt(mm(self.max_y.sub(self.min_y))).as_str());
        r.append("\">\n");
        assert(r@ =~= self.page().header());
        let mut i: usize = 0;
        assert(r@ =~= self.page().header() + body(self@, 0));
        while i < self.elements.len()
            invariant
                i <= self.elements.len(),
                r@ == self.page().header() + body(self@, i as int),
            decreases self.elements.len() - i,
        {
            if i > 0 {
                r.append("\n");
            }
            r.append("  ");
            r.append(self.elements[i].as_str());
            assert(self@[i as int] == self.elements[i as int]@);
            assert(r@ =~= self.page().header() + body(self@, i + 1));
            i += 1;
        }
        r.append("\n</svg>\n");
        assert(r@ =~= document(self.page(), self@));
        r
    }
}

/// The label at place `index` of `labels`, or no text where there is no
/// such place.
pub open spec fn label_text(labels: Seq<Seq<char>>, index: usize) -> Seq<char> {
    if index < labels.len() {
        labels[index as int]
    } else {
        Seq::empty()
    }
}

/// What a caption says, written out: a landmark's label with its two
/// coordinates to one decimal on a second line, a control point's label,
/// one of the fixed legends, or the check figure of the sleeve cap to two
/// decimals.
pub open spec fn caption_text(
    caption: Caption,
    landmarks: Seq<Seq<char>>,
    controls: Seq<Seq<char>>,
) -> Seq<char> {
    match caption {
        Caption::Landmark { index, x, y } => label_text(landmarks, index) + "\n("@ + decimal(x, 1)
            + ", "@ + decimal(y, 1) + ")"@,
        Caption::Control { index } => label_text(controls, index),
        Caption::ScaleBar => "10 cm Scale"@,
        Caption::Front => "FRONT"@,
        Caption::Back => "BACK"@,
        Caption::CapControl { length } => "Sleeve Cap Control: "@ + decimal(length, 2) + " cm"@,
    }
}

/// The name of a colour.
pub open spec fn ink_name(ink: Ink) -> Seq<char> {
    match ink {
        Ink::Black => "black"@,
        Ink::Blue => "blue"@,
        Ink::Gray => "gray"@,
        Ink::Green => "green"@,
    }
}

/// The sign of a line style.
pub open spec fn style_sign(style: LineStyle) -> Seq<char> {
    match style {
        LineStyle::Solid => "-"@,
        LineStyle::Dashed => "--"@,
        LineStyle::Dotted => ":"@,
        LineStyle::DashDot => "-."@,
    }
}

/// The name of an alignment.
pub open spec fn alignment_name(anchor: Anchor) -> Seq<char> {
    match anchor {
        Anchor::Left => "left"@,
        Anchor::Center => "center"@,
        Anchor::Right => "right"@,
    }
}

/// The name of a font weight.
pub open spec fn weight_name(bold: bool) -> Seq<char> {
    if bold {
        "bold"@
    } else {
        "normal"@
    }
}

/// The element that draws a mark on a page.
pub open spec fn mark_element(
    page: Page,
    mark: Mark,
    landmarks: Seq<Seq<char>>,
    controls: Seq<Seq<char>>,
) -> Seq<char> {
    match mark {
        Mark::Line { from, to, ink, style, width } => page.line_element(
            from,
            to,
            ink_name(ink),
            style_sign(style),
            width,
        ),
        Mark::Bezier { p0, p1, p2, p3, ink, style, width } => page.bezier_element(
            p0,
            p1,
            p2,
            p3,
            ink_name(ink),
            style_sign(style),
            width,
        ),
        Mark::Dot { at, radius, ink } => page.circle_element(at, radius, ink_name(ink)),
        Mark::Text { at, caption, size, ink, anchor, bold } => page.text_element(
            at,
            caption_text(caption, landmarks, controls),
            size,
            ink_name(ink),
            alignment_name(anchor),
            weight_name(bold),
        ),
    }
}

/// The elements that draw a sequence of marks, in their order.
pub open spec fn mark_elements(
    page: Page,
    marks: Seq<Mark>,
    landmarks: Seq<Seq<char>>,
    controls: Seq<Seq<char>>,
) -> Seq<Seq<char>> {
    marks.map_values(|m: Mark| mark_element(page, m, landmarks, controls))
}

/// The SVG document that draws `marks` in the frame `bounds`. Captions of
/// points take their labels from `landmarks` and `controls`, by place.
pub open spec fn sheet(
    bounds: (Fixed, Fixed, Fixed, Fixed),
    y_flip: bool,
    marks: Seq<Mark>,
    landmarks: Seq<Seq<char>>,
    controls: Seq<Seq<char>>,
) -> Seq<char> {
    let page = Page {
        min_x: bounds.0,
        max_x: bounds.1,
        min_y: bounds.2,
        max_y: bounds.3,
        y_flip,
    };
    document(page, mark_elements(page, marks, landmarks, controls))
}

/// Writes out what a caption says.
pub fn write_caption(caption: Caption, landmarks: &PointStore, controls: &PointStore) -> (r: String)
    requires
        landmarks.wf(),
        controls.wf(),
    ensures
        r@ == caption_text(caption, landmarks.labels(), controls.labels()),
{
    match caption {
        Caption::Landmark { index, x, y } => {
            let mut r = String::new();
            if index < landmarks.len() {
                r.append(landmarks.label_at(index).as_str());
            }
            r.append("\n(");
            r.append(to_decimal(x, 1).as_str());
            r.append(", ");
            r.append(to_decimal(y, 1).as_str());
            r.append(")");
            assert(r@ =~= caption_text(caption, landmarks.labels(), controls.labels()));
            r
        },
        Caption::Control { index } => {
            let mut r = String::new();
            if index < controls.len() {
                r.append(controls.label_at(index).as_str());
            }
            assert(r@ =~= caption_text(caption, landmarks.labels(), controls.labels()));
            r
        },
        Caption::ScaleBar => String::from_str("10 cm Scale"),
        Caption::Front => String::from_str("FRONT"),
        Caption::Back => String::from_str("BACK"),
        Caption::CapControl { length } => {
            let mut r = String::from_str("Sleeve Cap Control: ");
            r.append(to_decimal(length, 2).as_str());
            r.append(" cm");
            r
        },
    }
}

/// Writes a drawing out as an SVG document. The captions of points take
/// their labels from the two collections, by place.
#[verifier::rlimit(50)]
pub fn render(drawing: &Drawing, landmarks: &PointStore, controls: &PointStore) -> (r: String)
    requires
        landmarks.wf(),
        controls.wf(),
    ensures
        r@ == sheet(
            drawing.bounds,
            drawing.y_flip,
            drawing.marks@,
            landmarks.labels(),
            controls.labels(),
        ),
{
    let mut renderer = SVGRenderer::new(drawing.bounds, drawing.y_flip);
    let ghost page = renderer.page();
    let ghost all = mark_elements(page, drawing.marks@, landmarks.labels(), controls.labels());
    let mut i: usize = 0;
    assert(renderer@ =~= all.take(0));
    while i < drawing.marks.len()
        invariant
            landmarks.wf(),
            controls.wf(),
            i <= drawing.marks.len(),
            renderer.page() == page,
            all == mark_elements(page, drawing.marks@, landmarks.labels(), controls.labels()),
            renderer@ == all.take(i as int),
        decreases drawing.marks.len() - i,
    {
        match drawing.marks[i] {
            Mark::Line { from, to, ink, style, width } => {
                renderer.line(from.x, from.y, to.x, to.y, ink.name(), style.sign(), width);
            },
            Mark::Bezier { p0, p1, p2, p3, ink, style, width } => {
                renderer.bezier(p0, p1, p2, p3, ink.name(), style.sign(), width);
            },
            Mark::Dot { at, radius, ink } => {
                renderer.circle(at.x, at.y, radius, ink.name());
            },
            Mark::Text { at, caption, size, ink, anchor, bold } => {
                let content = write_caption(caption, landmarks, controls);
                let weight = if bold {
                    "bold"
                } else {
                    "normal"
                };
                renderer.text(
                    at.x,
                    at.y,
                    content.as_str(),
                    size,
                    ink.name(),
                    anchor.name(),
                    weight,
                );
            },
        }
        assert(all.take(i + 1) =~= all.take(i as int).push(all[i as int]));
        i += 1;
    }
    assert(all.take(i as int) =~= all);
    renderer.to_svg()
}

} // verus!
