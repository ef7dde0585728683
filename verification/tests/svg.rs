use couture_core::fixed::Fixed;
use couture_core::math::Point2;
use couture_core::renderers::svg::{stroke_dasharray, SVGRenderer};

fn fx(v: f64) -> Fixed {
    Fixed::from_raw((v * 1e9).round() as i64)
}

fn val(v: Fixed) -> f64 {
    v.raw() as f64 / 1e9
}

fn page() -> (Fixed, Fixed, Fixed, Fixed) {
    (fx(0.0), fx(10.0), fx(0.0), fx(10.0))
}

#[test]
fn test_basic_svg_output() {
    let mut r = SVGRenderer::new(page(), false);
    r.line(fx(0.0), fx(0.0), fx(10.0), fx(10.0), "black", "-", fx(1.0));
    let svg = r.to_svg();
    assert!(svg.contains("<svg"));
    assert!(svg.contains("</svg>"));
    assert!(svg.contains("<line"));
}

#[test]
fn test_y_flip() {
    let r = SVGRenderer::new(page(), true);
    // With y_flip, y=0 should map to max_y * 10mm = 100
    assert!((val(r.ty(fx(0.0))) - 100.0).abs() < 0.01);
    // y=10 should map to 0
    assert!((val(r.ty(fx(10.0))) - 0.0).abs() < 0.01);
}

#[test]
fn test_bezier_output() {
    let mut r = SVGRenderer::new(page(), false);
    r.bezier(
        Point2::new(fx(0.0), fx(0.0)),
        Point2::new(fx(1.0), fx(2.0)),
        Point2::new(fx(3.0), fx(4.0)),
        Point2::new(fx(5.0), fx(5.0)),
        "blue",
        "-",
        fx(1.0),
    );
    let svg = r.to_svg();
    assert!(svg.contains("<path d=\"M"));
    assert!(svg.contains("C "));
}

#[test]
fn test_stroke_dasharray() {
    assert_eq!(stroke_dasharray("--"), Some("5,3"));
    assert_eq!(stroke_dasharray(":"), Some("2,2"));
    assert_eq!(stroke_dasharray("-."), Some("5,2,2,2"));
    assert_eq!(stroke_dasharray("-"), None);
    assert_eq!(stroke_dasharray(""), None);
}

#[test]
fn test_line_element_text() {
    let mut r = SVGRenderer::new(page(), false);
    r.line(fx(0.0), fx(0.0), fx(10.0), fx(2.5), "black", "--", fx(1.0));
    assert_eq!(
        r.elements[0],
        "<line x1=\"0.00\" y1=\"0.00\" x2=\"100.00\" y2=\"25.00\" stroke=\"black\" stroke-width=\"0.30\" fill=\"none\" stroke-dasharray=\"5,3\"/>"
    );
}

#[test]
fn test_document_text() {
    let mut r = SVGRenderer::new((fx(-1.0), fx(10.0), fx(0.0), fx(12.5)), true);
    r.circle(fx(0.0), fx(2.5), fx(0.1), "blue");
    r.bezier(
        Point2::new(fx(0.0), fx(0.0)),
        Point2::new(fx(1.0), fx(2.0)),
        Point2::new(fx(3.0), fx(4.0)),
        Point2::new(fx(5.0), fx(5.0)),
        "green",
        ":",
        fx(4.0),
    );
    assert_eq!(
        r.to_svg(),
        "<?xml version=\"1.0\" encoding=\"UTF-8\"?>\n<svg xmlns=\"http://www.w3.org/2000/svg\" viewBox=\"0 0 110.00 125.00\">\n  <circle cx=\"10.00\" cy=\"100.00\" r=\"1.00\" fill=\"blue\"/>\n  <path d=\"M 10.00,125.00 C 20.00,105.00 40.00,85.00 60.00,75.00\" stroke=\"green\" stroke-width=\"1.20\" fill=\"none\" stroke-dasharray=\"2,2\"/>\n</svg>\n"
    );
}

#[test]
fn test_empty_document() {
    let r = SVGRenderer::new(page(), false);
    assert_eq!(
        r.to_svg(),
        "<?xml version=\"1.0\" encoding=\"UTF-8\"?>\n<svg xmlns=\"http://www.w3.org/2000/svg\" viewBox=\"0 0 100.00 100.00\">\n\n</svg>\n"
    );
}

#[test]
fn test_polyline_element_text() {
    let mut r = SVGRenderer::new(page(), false);
    r.polyline(
        &[Point2::new(fx(0.0), fx(0.0)), Point2::new(fx(1.0), fx(2.0)), Point2::new(fx(-0.5), fx(3.0))],
        "gray",
        "-.",
        fx(0.5),
    );
    r.polyline(&[], "gray", "-", fx(1.0));
    assert_eq!(
        r.elements[0],
        "<polyline points=\"0.00,0.00 10.00,20.00 -5.00,30.00\" stroke=\"gray\" stroke-width=\"0.15\" fill=\"none\" stroke-dasharray=\"5,2,2,2\"/>"
    );
    assert_eq!(
        r.elements[1],
        "<polyline points=\"\" stroke=\"gray\" stroke-width=\"0.30\" fill=\"none\"/>"
    );
}

#[test]
fn test_text_single_line_is_escaped() {
    let mut r = SVGRenderer::new(page(), false);
    r.text(fx(5.0), fx(1.0), "a < b & c > d", fx(8.0), "black", "center", "normal");
    assert_eq!(
        r.elements[0],
        "<text x=\"50.00\" y=\"10.00\" font-family=\"Arial, sans-serif\" font-size=\"2.80\" fill=\"black\" text-anchor=\"middle\">a &lt; b &amp; c &gt; d</text>"
    );
}

#[test]
fn test_text_lines_become_spans() {
    let mut r = SVGRenderer::new(page(), false);
    r.text(fx(1.0), fx(2.0), "K\n(18.1, 39.0)\n", fx(12.0), "blue", "right", "bold");
    assert_eq!(
        r.elements[0],
        "<text x=\"10.00\" y=\"20.00\" font-family=\"Arial, sans-serif\" font-size=\"4.20\" fill=\"blue\" text-anchor=\"end\" font-weight=\"bold\"><tspan x=\"10.00\" dy=\"0\">K</tspan><tspan x=\"10.00\" dy=\"1.2em\">(18.1, 39.0)</tspan><tspan x=\"10.00\" dy=\"1.2em\"></tspan></text>"
    );
    r.text(fx(1.0), fx(2.0), "", fx(8.0), "blue", "left", "normal");
    assert_eq!(
        r.elements[1],
        "<text x=\"10.00\" y=\"20.00\" font-family=\"Arial, sans-serif\" font-size=\"2.80\" fill=\"blue\" text-anchor=\"start\"></text>"
    );
}
