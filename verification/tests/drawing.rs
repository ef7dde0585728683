use couture_core::drawing::{Anchor, Caption, Ink, LineStyle, Mark};
use couture_core::fixed::Fixed;
use couture_core::math::Point2;
use couture_core::measurements::default_measurements;
use couture_core::patterns::corset::{
    CorsetControlParameters, CorsetMeasurements, CorsetPattern,
};
use couture_core::patterns::corset_sheet::{
    back_frame, front_frame, outline_curve, plot_piece, OutlineCurve,
};
use couture_core::patterns::sleeve::{SleeveControlParameters, SleeveMeasurements, SleevePattern};
use couture_core::renderers::svg::{render, write_caption};

fn corset() -> CorsetPattern {
    let cm = CorsetMeasurements::from_full(&default_measurements(38)).unwrap();
    CorsetPattern::new(cm, CorsetControlParameters::default()).unwrap()
}

fn sleeve() -> SleevePattern {
    let sm = SleeveMeasurements::from_full(&default_measurements(38));
    SleevePattern::new(sm, SleeveControlParameters::default())
}

#[test]
fn test_names_of_inks_styles_and_anchors() {
    assert_eq!(Ink::Black.name(), "black");
    assert_eq!(Ink::Blue.name(), "blue");
    assert_eq!(Ink::Gray.name(), "gray");
    assert_eq!(Ink::Green.name(), "green");
    assert_eq!(LineStyle::Solid.sign(), "-");
    assert_eq!(LineStyle::Dashed.sign(), "--");
    assert_eq!(LineStyle::Dotted.sign(), ":");
    assert_eq!(LineStyle::DashDot.sign(), "-.");
    assert_eq!(Anchor::Left.name(), "left");
    assert_eq!(Anchor::Center.name(), "center");
    assert_eq!(Anchor::Right.name(), "right");
}

#[test]
fn test_corset_front_outline() {
    let pat = corset();
    let mut marks = Vec::new();
    pat.plot_front_curves(&mut marks);
    assert_eq!(marks.len(), 7);
    let pts = pat.landmarks();
    let hp = pat.controls();
    // centre line from A to E, hem from A to A1, shoulder from H to K
    let line = |from, to| Mark::Line {
        from,
        to,
        ink: Ink::Blue,
        style: LineStyle::Solid,
        width: Fixed::one(),
    };
    assert_eq!(marks[2], line(pts.a, pts.e));
    assert_eq!(marks[3], line(pts.a, pts.a1));
    assert_eq!(marks[5], line(pts.h, pts.k));
    let curve = |p0, p1, p2, p3| Mark::Bezier {
        p0,
        p1,
        p2,
        p3,
        ink: Ink::Blue,
        style: LineStyle::Solid,
        width: Fixed::one(),
    };
    assert_eq!(marks[4], curve(pts.h, hp.h1, hp.e1, pts.e));
    assert_eq!(marks[6], curve(pts.k, hp.k1, hp.c11, pts.c1));
    // the hip seam leaves A1 straight up, a third of its chord away
    match marks[0] {
        Mark::Bezier { p0, p1, p3, .. } => {
            assert_eq!(p0, pts.a1);
            assert_eq!(p3, pts.b1);
            assert_eq!(p1.x, pts.a1.x);
            // chord from (-23.5, -22) to (-17, 0): sqrt(526.25) / 3
            assert_eq!(p1.y, pts.a1.y.add(Fixed::from_raw(7_646_713_164)));
        }
        _ => panic!("the hip seam is a curve"),
    }
}

#[test]
fn test_corset_back_outline_is_mirrored() {
    let pat = corset();
    let mut marks = Vec::new();
    pat.plot_back_curves(&mut marks);
    assert_eq!(marks.len(), 7);
    let pts = pat.landmarks();
    let hp = pat.controls();
    let m = |p: Point2| pat.mirror_point(p);
    assert_eq!(
        marks[2],
        Mark::Line {
            from: m(pts.a),
            to: m(pts.f),
            ink: Ink::Green,
            style: LineStyle::Solid,
            width: Fixed::one()
        }
    );
    assert_eq!(
        marks[6],
        Mark::Bezier {
            p0: m(pts.k),
            p1: m(hp.k2),
            p2: m(hp.c12),
            p3: m(pts.c1),
            ink: Ink::Green,
            style: LineStyle::Solid,
            width: Fixed::one()
        }
    );
    let mut again = Vec::new();
    plot_piece(&back_frame(pts, hp, pat.pattern_gap), Ink::Green, &mut again);
    assert_eq!(again, marks);
    let mut front = Vec::new();
    plot_piece(&front_frame(pts, hp), Ink::Blue, &mut front);
    let mut expected = Vec::new();
    pat.plot_front_curves(&mut expected);
    assert_eq!(front, expected);
}

#[test]
fn test_corset_drawings() {
    let mut pat = corset();
    let sheet = pat.drawing("construction");
    assert!(sheet.y_flip);
    assert_eq!(sheet.bounds, pat.bounds);
    // 2 guide lines, 2 * 7 outline, 12 + 9 landmarks and 4 + 4 control points
    // with a dot and a label each, scale bar, legend and two titles
    assert_eq!(sheet.marks.len(), 2 + 14 + 2 * (12 + 9 + 4 + 4) + 4);
    let clean = pat.drawing("pattern");
    assert_eq!(clean.marks.len(), 14 + 4);
    assert_eq!(clean.marks[..14], sheet.marks[2..16]);
    assert_eq!(clean.marks[14..], sheet.marks[sheet.marks.len() - 4..]);
    // D2 is labelled in the back only
    let d2 = pat.base.points.position("D2").unwrap();
    let labelled: Vec<Ink> = sheet
        .marks
        .iter()
        .filter_map(|m| match m {
            Mark::Text { caption: Caption::Landmark { index, .. }, ink, .. } if *index == d2 => {
                Some(*ink)
            }
            _ => None,
        })
        .collect();
    assert_eq!(labelled, vec![Ink::Green]);
}

#[test]
fn test_sleeve_drawings() {
    let pat = sleeve();
    let sheet = pat.drawing("construction");
    assert!(!sheet.y_flip);
    assert_eq!(sheet.bounds, pat.bounds);
    // 9 guide lines, 3 seams, 6 arcs, 14 + 6 points with a dot and a label
    // each, scale bar, legend and check figure
    assert_eq!(sheet.marks.len(), 9 + 3 + 6 + 2 * 20 + 3);
    assert_eq!(
        sheet.marks[7],
        Mark::Line {
            from: pat.find("G").unwrap(),
            to: pat.find("G1").unwrap(),
            ink: Ink::Gray,
            style: LineStyle::Dotted,
            width: Fixed::from_hundredths(50)
        }
    );
    match sheet.marks[sheet.marks.len() - 1] {
        Mark::Text { at, caption, size, ink, anchor, bold } => {
            assert_eq!(at, Point2::new(pat.pt("E").x, Fixed::from_int(68)));
            assert_eq!(caption, Caption::CapControl { length: pat.sleeve_cap_control() });
            assert_eq!(size, Fixed::from_int(9));
            assert_eq!((ink, anchor, bold), (Ink::Blue, Anchor::Center, false));
        }
        _ => panic!("the last mark is the check figure"),
    }
    let clean = pat.drawing("pattern");
    assert_eq!(clean.marks.len(), 3 + 6 + 2);
}

#[test]
fn test_sleeve_draw_line_needs_both_points() {
    let pat = sleeve();
    let mut marks = Vec::new();
    pat.draw_line(&mut marks, "A", "nowhere", LineStyle::Solid, Ink::Black, Fixed::one());
    pat.draw_line(&mut marks, "nowhere", "A", LineStyle::Solid, Ink::Black, Fixed::one());
    assert!(marks.is_empty());
    pat.draw_line(&mut marks, "J", "A", LineStyle::DashDot, Ink::Black, Fixed::from_int(2));
    assert_eq!(
        marks,
        vec![Mark::Line {
            from: Point2::new(Fixed::zero(), Fixed::from_int(35)),
            to: Point2::origin(),
            ink: Ink::Black,
            style: LineStyle::DashDot,
            width: Fixed::from_int(2)
        }]
    );
}

#[test]
fn test_captions_written_out() {
    let pat = corset();
    let (l, c) = (&pat.base.points, &pat.base.helper_points);
    let k = l.position("K").unwrap();
    assert_eq!(
        write_caption(
            Caption::Landmark { index: k, x: Fixed::from_raw(18_142_390_812), y: Fixed::from_int(39) },
            l,
            c
        ),
        "K\n(18.1, 39.0)"
    );
    assert_eq!(
        write_caption(Caption::Landmark { index: 99, x: Fixed::zero(), y: Fixed::zero() }, l, c),
        "\n(0.0, 0.0)"
    );
    assert_eq!(write_caption(Caption::Control { index: 4 }, l, c), "C11");
    assert_eq!(write_caption(Caption::Control { index: 8 }, l, c), "");
    assert_eq!(write_caption(Caption::ScaleBar, l, c), "10 cm Scale");
    assert_eq!(write_caption(Caption::Front, l, c), "FRONT");
    assert_eq!(write_caption(Caption::Back, l, c), "BACK");
    assert_eq!(
        write_caption(Caption::CapControl { length: Fixed::from_raw(42_826_293_138) }, l, c),
        "Sleeve Cap Control: 42.83 cm"
    );
}

#[test]
fn test_render_is_what_render_svg_writes() {
    let mut pat = corset();
    let d = pat.drawing("construction");
    assert_eq!(render(&d, &pat.base.points, &pat.base.helper_points), pat.render_svg("construction"));
}

#[test]
fn test_outline_by_curve() {
    let pat = corset();
    let pts = pat.landmarks();
    let hp = pat.controls();
    let front = front_frame(pts, hp);
    let mut all = Vec::new();
    pat.plot_front_curves(&mut all);
    let curves = [
        OutlineCurve::HipSeam,
        OutlineCurve::SideSeam,
        OutlineCurve::CentreLine,
        OutlineCurve::Hem,
        OutlineCurve::Neck,
        OutlineCurve::Shoulder,
        OutlineCurve::Armhole,
    ];
    for (i, c) in curves.iter().enumerate() {
        assert_eq!(c.place(), i);
        assert_eq!(outline_curve(&front, *c, Ink::Blue), all[i]);
    }
    let back = back_frame(pts, hp, pat.pattern_gap);
    assert_eq!(
        outline_curve(&back, OutlineCurve::Shoulder, Ink::Green),
        Mark::Line {
            from: pat.mirror_point(pts.h),
            to: pat.mirror_point(pts.k),
            ink: Ink::Green,
            style: LineStyle::Solid,
            width: Fixed::one()
        }
    );
}
