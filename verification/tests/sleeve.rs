use couture_core::fixed::Fixed;
use couture_core::math::Point2;
use couture_core::measurements::default_measurements;
use couture_core::patterns::sleeve::{SleeveControlParameters, SleeveMeasurements, SleevePattern};

fn val(v: Fixed) -> f64 {
    v.raw() as f64 / 1e9
}

fn near(p: Point2, x: f64, y: f64) -> bool {
    (val(p.x) - x).abs() < 1e-7 && (val(p.y) - y).abs() < 1e-7
}

fn t38() -> SleevePattern {
    let sm = SleeveMeasurements::from_full(&default_measurements(38));
    SleevePattern::new(sm, SleeveControlParameters::default())
}

#[test]
fn test_sleeve_construction_t38() {
    let fm = default_measurements(38);
    let sm = SleeveMeasurements::from_full(&fm);
    let pat = SleevePattern::new(sm, SleeveControlParameters::default());
    assert!(val(pat.sleeve_cap_control()) > 0.0);
}

#[test]
fn test_sleeve_render_svg() {
    let fm = default_measurements(38);
    let sm = SleeveMeasurements::from_full(&fm);
    let pat = SleevePattern::new(sm, SleeveControlParameters::default());
    let svg = pat.render_svg("construction");
    assert!(svg.contains("<svg"));
    assert!(svg.contains("</svg>"));
    assert!(svg.contains("Sleeve Cap Control"));
}

#[test]
fn test_sleeve_render_pattern_variant() {
    let fm = default_measurements(38);
    let sm = SleeveMeasurements::from_full(&fm);
    let pat = SleevePattern::new(sm, SleeveControlParameters::default());
    let svg = pat.render_svg("pattern");
    assert!(svg.contains("<svg"));
    assert!(svg.contains("10 cm Scale"));
}

#[test]
fn test_sleeve_stretch() {
    let fm = default_measurements(38);
    let sm = SleeveMeasurements::from_full(&fm);
    let mut pat = SleevePattern::new(sm, SleeveControlParameters::default());
    assert!(pat
        .stretch(Fixed::from_hundredths(30), Fixed::from_hundredths(10), Fixed::from_hundredths(50))
        .is_ok());
    assert!(pat
        .stretch(Fixed::from_hundredths(10), Fixed::from_hundredths(10), Fixed::from_int(1))
        .is_err());
}

#[test]
fn test_sleeve_measurements_from_full() {
    let sm = SleeveMeasurements::from_full(&default_measurements(38));
    assert_eq!(sm.armhole_depth, Fixed::from_hundredths(2150));
    assert_eq!(sm.armhole_measurement, Fixed::from_hundredths(3950));
    assert_eq!(sm.sleeve_length, Fixed::from_int(60));
    assert_eq!(sm.upper_arm_to_elbow, Fixed::from_int(35));
    assert_eq!(sm.sleeve_bottom_width, Fixed::from_int(16));
    let c = SleeveControlParameters::default();
    assert_eq!(c.g3_perpendicular, Fixed::from_int(1));
    assert_eq!(c.h3_perpendicular, Fixed::from_hundredths(150));
}

#[test]
fn test_sleeve_landmarks_t38() {
    let pat = t38();
    let p = |name: &str| pat.pt(name);
    assert_eq!(pat.base.points.len(), 14);
    // width 0.75 * 39.5 + 1 = 30.625, cap height 2/3 * 21.5
    assert!(near(p("A"), 0.0, 0.0));
    assert!(near(p("B"), 30.625, 0.0));
    assert!(near(p("C"), 0.0, 60.0));
    assert!(near(p("D"), 30.625, 60.0));
    assert!(near(p("E"), 15.3125, 0.0));
    assert!(near(p("F"), 15.3125, 60.0));
    assert!(near(p("I"), 0.0, 14.333333333));
    assert!(near(p("I'"), 30.625, 14.333333333));
    assert!(near(p("F1"), 7.3125, 60.0));
    assert!(near(p("F2"), 23.3125, 60.0));
    assert!(near(p("G2"), 7.65625, 4.777777778));
    assert!(near(p("H2"), 22.96875, 7.166666667));
    assert!(near(p("G3"), 4.608523268701582, 10.180838325354605));
    assert!(near(p("H3"), 25.77180614667569, 11.845095359292689));
}

#[test]
fn test_sleeve_guide_points_t38() {
    let pat = t38();
    let p = |name: &str| pat.base.helper_points.get(name).unwrap();
    assert_eq!(pat.base.helper_points.len(), 6);
    assert!(near(p("G"), 7.65625, 0.0));
    assert!(near(p("G1"), 7.65625, 14.333333333));
    assert!(near(p("H"), 22.96875, 0.0));
    assert!(near(p("H1"), 22.96875, 14.333333333));
    assert!(near(p("J"), 0.0, 35.0));
    assert!(near(p("J'"), 30.625, 35.0));
    assert_eq!(pat.find("J"), Some(p("J")));
    assert_eq!(pat.find("A"), Some(pat.pt("A")));
    assert_eq!(pat.find("Z"), None);
}

#[test]
fn test_sleeve_cap_control_length_t38() {
    assert!((val(t38().sleeve_cap_control()) - 42.82629313879147).abs() < 1e-7);
}

#[test]
fn test_sleeve_cap_curve_runs_from_i_to_i_prime() {
    let pat = t38();
    let pts = pat.cap_curve_points();
    assert_eq!(pts.len(), 7);
    assert_eq!(pts[0], pat.pt("I"));
    assert_eq!(pts[3], pat.pt("E"));
    assert_eq!(pts[6], pat.pt("I'"));
    let arcs = pat.cap_curve();
    assert_eq!(arcs.len(), 6);
    assert_eq!(arcs[0].0, pat.pt("I"));
    assert_eq!(arcs[5].3, pat.pt("I'"));
    for i in 0..6 {
        assert_eq!(arcs[i].0, pts[i]);
        assert_eq!(arcs[i].3, pts[i + 1]);
    }
}

#[test]
fn test_sleeve_cap_curve_control_points_t38() {
    let arcs = t38().cap_curve();
    let expected: [[(f64, f64); 2]; 6] = [
        [(1.7172199179689387, 13.066282546226399), (3.4344398359378774, 11.799231759119465)],
        [(5.782606701465285, 8.562444891589747), (6.413553649023756, 6.592708811166964)],
        [(9.464135697254036, 2.137399978173599), (12.566769982905653, -0.17533775344886982)],
        [(18.503157437354773, 0.2037500787068428), (21.211871031080445, 3.767260093493637)],
        [(23.882425713973934, 8.934548964069116), (24.538669758285998, 10.658048107223003)],
        [(27.00494253506538, 13.032142611362373), (28.814971267532687, 13.682737972347851)],
    ];
    for (arc, e) in arcs.iter().zip(expected.iter()) {
        assert!((val(arc.1.x) - e[0].0).abs() < 1e-6 && (val(arc.1.y) - e[0].1).abs() < 1e-6);
        assert!((val(arc.2.x) - e[1].0).abs() < 1e-6 && (val(arc.2.y) - e[1].1).abs() < 1e-6);
    }
}

#[test]
fn test_sleeve_frame_t38() {
    let pat = t38();
    assert_eq!(
        pat.bounds,
        (
            Fixed::from_int(-5),
            Fixed::from_hundredths(3562).add(Fixed::from_raw(5_000_000)),
            Fixed::from_int(-5),
            Fixed::from_int(70)
        )
    );
}

#[test]
fn test_sleeve_frame_is_not_refitted_by_stretch() {
    let mut pat = t38();
    let frame = pat.bounds;
    pat.stretch(Fixed::from_hundredths(30), Fixed::from_hundredths(10), Fixed::from_hundredths(50))
        .unwrap();
    assert_eq!(pat.bounds, frame);
    pat.compute_bounds();
    assert_ne!(pat.bounds, frame);
}

#[test]
fn test_sleeve_pattern_sheet_t38() {
    let expected: String = [
        "<?xml version=\"1.0\" encoding=\"UTF-8\"?>\n",
        "<svg xmlns=\"http://www.w3.org/2000/svg\" viewBox=\"0 0 406.25 750.00\">\n",
        "  <line x1=\"50.00\" y1=\"193.33\" x2=\"123.12\" y2=\"650.00\" stroke=\"blue\" stroke-width=\"0.30\" fill=\"none\"/>\n",
        "  <line x1=\"356.25\" y1=\"193.33\" x2=\"283.12\" y2=\"650.00\" stroke=\"blue\" stroke-width=\"0.30\" fill=\"none\"/>\n",
        "  <line x1=\"123.12\" y1=\"650.00\" x2=\"283.12\" y2=\"650.00\" stroke=\"blue\" stroke-width=\"0.30\" fill=\"none\"/>\n",
        "  <path d=\"M 50.00,193.33 C 67.17,180.66 84.34,167.99 96.09,151.81\" stroke=\"blue\" stroke-width=\"0.30\" fill=\"none\"/>\n",
        "  <path d=\"M 96.09,151.81 C 107.83,135.62 114.14,115.93 126.56,97.78\" stroke=\"blue\" stroke-width=\"0.30\" fill=\"none\"/>\n",
        "  <path d=\"M 126.56,97.78 C 144.64,71.37 175.67,48.25 203.12,50.00\" stroke=\"blue\" stroke-width=\"0.30\" fill=\"none\"/>\n",
        "  <path d=\"M 203.12,50.00 C 235.03,52.04 262.12,87.67 279.69,121.67\" stroke=\"blue\" stroke-width=\"0.30\" fill=\"none\"/>\n",
        "  <path d=\"M 279.69,121.67 C 288.82,139.35 295.39,156.58 307.72,168.45\" stroke=\"blue\" stroke-width=\"0.30\" fill=\"none\"/>\n",
        "  <path d=\"M 307.72,168.45 C 320.05,180.32 338.15,186.83 356.25,193.33\" stroke=\"blue\" stroke-width=\"0.30\" fill=\"none\"/>\n",
        "  <line x1=\"50.00\" y1=\"680.00\" x2=\"150.00\" y2=\"680.00\" stroke=\"black\" stroke-width=\"1.20\" fill=\"none\"/>\n",
        "  <text x=\"100.00\" y=\"700.00\" font-family=\"Arial, sans-serif\" font-size=\"2.80\" fill=\"black\" text-anchor=\"middle\">10 cm Scale</text>\n",
        "</svg>\n",
    ].concat();
    assert_eq!(t38().render_svg("pattern"), expected);
}

#[test]
fn test_sleeve_reference_sheet_t38() {
    let expected: String = [
        "<?xml version=\"1.0\" encoding=\"UTF-8\"?>\n",
        "<svg xmlns=\"http://www.w3.org/2000/svg\" viewBox=\"0 0 406.25 750.00\">\n",
        "  <line x1=\"50.00\" y1=\"50.00\" x2=\"356.25\" y2=\"50.00\" stroke=\"gray\" stroke-width=\"0.30\" fill=\"none\" stroke-dasharray=\"5,3\"/>\n",
        "  <line x1=\"356.25\" y1=\"50.00\" x2=\"356.25\" y2=\"650.00\" stroke=\"gray\" stroke-width=\"0.30\" fill=\"none\" stroke-dasharray=\"5,3\"/>\n",
        "  <line x1=\"356.25\" y1=\"650.00\" x2=\"50.00\" y2=\"650.00\" stroke=\"gray\" stroke-width=\"0.30\" fill=\"none\" stroke-dasharray=\"5,3\"/>\n",
        "  <line x1=\"50.00\" y1=\"650.00\" x2=\"50.00\" y2=\"50.00\" stroke=\"gray\" stroke-width=\"0.30\" fill=\"none\" stroke-dasharray=\"5,3\"/>\n",
        "  <line x1=\"203.12\" y1=\"50.00\" x2=\"203.12\" y2=\"650.00\" stroke=\"gray\" stroke-width=\"0.30\" fill=\"none\" stroke-dasharray=\"5,3\"/>\n",
        "  <line x1=\"50.00\" y1=\"193.33\" x2=\"356.25\" y2=\"193.33\" stroke=\"gray\" stroke-width=\"0.30\" fill=\"none\" stroke-dasharray=\"5,3\"/>\n",
        "  <line x1=\"50.00\" y1=\"400.00\" x2=\"356.25\" y2=\"400.00\" stroke=\"gray\" stroke-width=\"0.30\" fill=\"none\" stroke-dasharray=\"5,3\"/>\n",
        "  <line x1=\"126.56\" y1=\"50.00\" x2=\"126.56\" y2=\"193.33\" stroke=\"gray\" stroke-width=\"0.15\" fill=\"none\" stroke-dasharray=\"2,2\"/>\n",
        "  <line x1=\"279.69\" y1=\"50.00\" x2=\"279.69\" y2=\"193.33\" stroke=\"gray\" stroke-width=\"0.15\" fill=\"none\" stroke-dasharray=\"2,2\"/>\n",
        "  <line x1=\"50.00\" y1=\"193.33\" x2=\"123.12\" y2=\"650.00\" stroke=\"blue\" stroke-width=\"0.30\" fill=\"none\"/>\n",
        "  <line x1=\"356.25\" y1=\"193.33\" x2=\"283.12\" y2=\"650.00\" stroke=\"blue\" stroke-width=\"0.30\" fill=\"none\"/>\n",
        "  <line x1=\"123.12\" y1=\"650.00\" x2=\"283.12\" y2=\"650.00\" stroke=\"blue\" stroke-width=\"0.30\" fill=\"none\"/>\n",
        "  <path d=\"M 50.00,193.33 C 67.17,180.66 84.34,167.99 96.09,151.81\" stroke=\"blue\" stroke-width=\"0.30\" fill=\"none\"/>\n",
        "  <path d=\"M 96.09,151.81 C 107.83,135.62 114.14,115.93 126.56,97.78\" stroke=\"blue\" stroke-width=\"0.30\" fill=\"none\"/>\n",
        "  <path d=\"M 126.56,97.78 C 144.64,71.37 175.67,48.25 203.12,50.00\" stroke=\"blue\" stroke-width=\"0.30\" fill=\"none\"/>\n",
        "  <path d=\"M 203.12,50.00 C 235.03,52.04 262.12,87.67 279.69,121.67\" stroke=\"blue\" stroke-width=\"0.30\" fill=\"none\"/>\n",
        "  <path d=\"M 279.69,121.67 C 288.82,139.35 295.39,156.58 307.72,168.45\" stroke=\"blue\" stroke-width=\"0.30\" fill=\"none\"/>\n",
        "  <path d=\"M 307.72,168.45 C 320.05,180.32 338.15,186.83 356.25,193.33\" stroke=\"blue\" stroke-width=\"0.30\" fill=\"none\"/>\n",
        "  <circle cx=\"50.00\" cy=\"50.00\" r=\"1.00\" fill=\"black\"/>\n",
        "  <text x=\"55.00\" y=\"50.00\" font-family=\"Arial, sans-serif\" font-size=\"2.80\" fill=\"black\" text-anchor=\"start\"><tspan x=\"55.00\" dy=\"0\">A</tspan><tspan x=\"55.00\" dy=\"1.2em\">(0.0, 0.0)</tspan></text>\n",
        "  <circle cx=\"356.25\" cy=\"50.00\" r=\"1.00\" fill=\"black\"/>\n",
        "  <text x=\"361.25\" y=\"50.00\" font-family=\"Arial, sans-serif\" font-size=\"2.80\" fill=\"black\" text-anchor=\"start\"><tspan x=\"361.25\" dy=\"0\">B</tspan><tspan x=\"361.25\" dy=\"1.2em\">(30.6, 0.0)</tspan></text>\n",
        "  <circle cx=\"50.00\" cy=\"650.00\" r=\"1.00\" fill=\"black\"/>\n",
        "  <text x=\"55.00\" y=\"650.00\" font-family=\"Arial, sans-serif\" font-size=\"2.80\" fill=\"black\" text-anchor=\"start\"><tspan x=\"55.00\" dy=\"0\">C</tspan><tspan x=\"55.00\" dy=\"1.2em\">(0.0, 60.0)</tspan></text>\n",
        "  <circle cx=\"356.25\" cy=\"650.00\" r=\"1.00\" fill=\"black\"/>\n",
        "  <text x=\"361.25\" y=\"650.00\" font-family=\"Arial, sans-serif\" font-size=\"2.80\" fill=\"black\" text-anchor=\"start\"><tspan x=\"361.25\" dy=\"0\">D</tspan><tspan x=\"361.25\" dy=\"1.2em\">(30.6, 60.0)</tspan></text>\n",
        "  <circle cx=\"203.12\" cy=\"50.00\" r=\"1.00\" fill=\"black\"/>\n",
        "  <text x=\"208.12\" y=\"50.00\" font-family=\"Arial, sans-serif\" font-size=\"2.80\" fill=\"black\" text-anchor=\"start\"><tspan x=\"208.12\" dy=\"0\">E</tspan><tspan x=\"208.12\" dy=\"1.2em\">(15.3, 0.0)</tspan></text>\n",
        "  <circle cx=\"203.12\" cy=\"650.00\" r=\"1.00\" fill=\"black\"/>\n",
        "  <text x=\"208.12\" y=\"650.00\" font-family=\"Arial, sans-serif\" font-size=\"2.80\" fill=\"black\" text-anchor=\"start\"><tspan x=\"208.12\" dy=\"0\">F</tspan><tspan x=\"208.12\" dy=\"1.2em\">(15.3, 60.0)</tspan></text>\n",
        "  <circle cx=\"50.00\" cy=\"193.33\" r=\"1.00\" fill=\"black\"/>\n",
        "  <text x=\"55.00\" y=\"193.33\" font-family=\"Arial, sans-serif\" font-size=\"2.80\" fill=\"black\" text-anchor=\"start\"><tspan x=\"55.00\" dy=\"0\">I</tspan><tspan x=\"55.00\" dy=\"1.2em\">(0.0, 14.3)</tspan></text>\n",
        "  <circle cx=\"356.25\" cy=\"193.33\" r=\"1.00\" fill=\"black\"/>\n",
        "  <text x=\"361.25\" y=\"193.33\" font-family=\"Arial, sans-serif\" font-size=\"2.80\" fill=\"black\" text-anchor=\"start\"><tspan x=\"361.25\" dy=\"0\">I'</tspan><tspan x=\"361.25\" dy=\"1.2em\">(30.6, 14.3)</tspan></text>\n",
        "  <circle cx=\"123.12\" cy=\"650.00\" r=\"1.00\" fill=\"black\"/>\n",
        "  <text x=\"128.12\" y=\"650.00\" font-family=\"Arial, sans-serif\" font-size=\"2.80\" fill=\"black\" text-anchor=\"start\"><tspan x=\"128.12\" dy=\"0\">F1</tspan><tspan x=\"128.12\" dy=\"1.2em\">(7.3, 60.0)</tspan></text>\n",
        "  <circle cx=\"283.12\" cy=\"650.00\" r=\"1.00\" fill=\"black\"/>\n",
        "  <text x=\"288.12\" y=\"650.00\" font-family=\"Arial, sans-serif\" font-size=\"2.80\" fill=\"black\" text-anchor=\"start\"><tspan x=\"288.12\" dy=\"0\">F2</tspan><tspan x=\"288.12\" dy=\"1.2em\">(23.3, 60.0)</tspan></text>\n",
        "  <circle cx=\"126.56\" cy=\"97.78\" r=\"1.00\" fill=\"black\"/>\n",
        "  <text x=\"131.56\" y=\"97.78\" font-family=\"Arial, sans-serif\" font-size=\"2.80\" fill=\"black\" text-anchor=\"start\"><tspan x=\"131.56\" dy=\"0\">G2</tspan><tspan x=\"131.56\" dy=\"1.2em\">(7.7, 4.8)</tspan></text>\n",
        "  <circle cx=\"279.69\" cy=\"121.67\" r=\"1.00\" fill=\"black\"/>\n",
        "  <text x=\"284.69\" y=\"121.67\" font-family=\"Arial, sans-serif\" font-size=\"2.80\" fill=\"black\" text-anchor=\"start\"><tspan x=\"284.69\" dy=\"0\">H2</tspan><tspan x=\"284.69\" dy=\"1.2em\">(23.0, 7.2)</tspan></text>\n",
        "  <circle cx=\"96.09\" cy=\"151.81\" r=\"1.00\" fill=\"black\"/>\n",
        "  <text x=\"101.09\" y=\"151.81\" font-family=\"Arial, sans-serif\" font-size=\"2.80\" fill=\"black\" text-anchor=\"start\"><tspan x=\"101.09\" dy=\"0\">G3</tspan><tspan x=\"101.09\" dy=\"1.2em\">(4.6, 10.2)</tspan></text>\n",
        "  <circle cx=\"307.72\" cy=\"168.45\" r=\"1.00\" fill=\"black\"/>\n",
        "  <text x=\"312.72\" y=\"168.45\" font-family=\"Arial, sans-serif\" font-size=\"2.80\" fill=\"black\" text-anchor=\"start\"><tspan x=\"312.72\" dy=\"0\">H3</tspan><tspan x=\"312.72\" dy=\"1.2em\">(25.8, 11.8)</tspan></text>\n",
        "  <circle cx=\"126.56\" cy=\"50.00\" r=\"0.70\" fill=\"gray\"/>\n",
        "  <text x=\"131.56\" y=\"50.00\" font-family=\"Arial, sans-serif\" font-size=\"2.80\" fill=\"gray\" text-anchor=\"start\">G</text>\n",
        "  <circle cx=\"126.56\" cy=\"193.33\" r=\"0.70\" fill=\"gray\"/>\n",
        "  <text x=\"131.56\" y=\"193.33\" font-family=\"Arial, sans-serif\" font-size=\"2.80\" fill=\"gray\" text-anchor=\"start\">G1</text>\n",
        "  <circle cx=\"279.69\" cy=\"50.00\" r=\"0.70\" fill=\"gray\"/>\n",
        "  <text x=\"284.69\" y=\"50.00\" font-family=\"Arial, sans-serif\" font-size=\"2.80\" fill=\"gray\" text-anchor=\"start\">H</text>\n",
        "  <circle cx=\"279.69\" cy=\"193.33\" r=\"0.70\" fill=\"gray\"/>\n",
        "  <text x=\"284.69\" y=\"193.33\" font-family=\"Arial, sans-serif\" font-size=\"2.80\" fill=\"gray\" text-anchor=\"start\">H1</text>\n",
        "  <circle cx=\"50.00\" cy=\"400.00\" r=\"0.70\" fill=\"gray\"/>\n",
        "  <text x=\"55.00\" y=\"400.00\" font-family=\"Arial, sans-serif\" font-size=\"2.80\" fill=\"gray\" text-anchor=\"start\">J</text>\n",
        "  <circle cx=\"356.25\" cy=\"400.00\" r=\"0.70\" fill=\"gray\"/>\n",
        "  <text x=\"361.25\" y=\"400.00\" font-family=\"Arial, sans-serif\" font-size=\"2.80\" fill=\"gray\" text-anchor=\"start\">J'</text>\n",
        "  <line x1=\"50.00\" y1=\"680.00\" x2=\"150.00\" y2=\"680.00\" stroke=\"black\" stroke-width=\"1.20\" fill=\"none\"/>\n",
        "  <text x=\"100.00\" y=\"700.00\" font-family=\"Arial, sans-serif\" font-size=\"2.80\" fill=\"black\" text-anchor=\"middle\">10 cm Scale</text>\n",
        "  <text x=\"203.12\" y=\"730.00\" font-family=\"Arial, sans-serif\" font-size=\"3.15\" fill=\"blue\" text-anchor=\"middle\">Sleeve Cap Control: 42.83 cm</text>\n",
        "</svg>\n",
    ].concat();
    assert_eq!(t38().render_svg("construction"), expected);
}

#[test]
fn test_sleeve_landmarks_on_exact_places_t38() {
    let pat = t38();
    let at = |x: i64, y: i64| Point2::new(Fixed::from_raw(x), Fixed::from_raw(y));
    // width 0.75 * 39.5 + 1 = 30.625, cap height 2 * 21.5 / 3
    let cap = 14_333_333_333;
    assert_eq!(pat.pt("A"), at(0, 0));
    assert_eq!(pat.pt("B"), at(30_625_000_000, 0));
    assert_eq!(pat.pt("C"), at(0, 60_000_000_000));
    assert_eq!(pat.pt("D"), at(30_625_000_000, 60_000_000_000));
    assert_eq!(pat.pt("E"), at(15_312_500_000, 0));
    assert_eq!(pat.pt("F"), at(15_312_500_000, 60_000_000_000));
    assert_eq!(pat.pt("I"), at(0, cap));
    assert_eq!(pat.pt("I'"), at(30_625_000_000, cap));
    assert_eq!(pat.pt("F1"), at(7_312_500_000, 60_000_000_000));
    assert_eq!(pat.pt("F2"), at(23_312_500_000, 60_000_000_000));
    let order =
        ["A", "B", "C", "D", "E", "F", "I", "I'", "F1", "F2", "G2", "H2", "G3", "H3"];
    for (i, name) in order.iter().enumerate() {
        assert_eq!(pat.base.points.label_at(i), name);
    }
    let order = ["G", "G1", "H", "H1", "J", "J'"];
    for (i, name) in order.iter().enumerate() {
        assert_eq!(pat.base.helper_points.label_at(i), name);
    }
}

#[test]
fn test_sleeve_cap_points_lie_square_off_their_chords() {
    let pat = t38();
    let p = |name: &str| pat.pt(name);
    let unit: i128 = 1_000_000_000;
    let raw = |v: Fixed| v.raw() as i128;
    for (from, to, placed, off, forward) in [
        ("G2", "I", "G3", raw(pat.c.g3_perpendicular), false),
        ("H2", "I'", "H3", raw(pat.c.h3_perpendicular), true),
    ] {
        let (a, b, q) = (p(from), p(to), p(placed));
        // the direction runs from the end to G2, and from H2 to the end
        let (ax, ay) = if forward {
            (raw(b.x) - raw(a.x), raw(b.y) - raw(a.y))
        } else {
            (raw(a.x) - raw(b.x), raw(a.y) - raw(b.y))
        };
        let middle_x = raw(a.x) + (raw(b.x) - raw(a.x)) / 2;
        let middle_y = raw(a.y) + (raw(b.y) - raw(a.y)) / 2;
        let (vx, vy) = (raw(q.x) - middle_x, raw(q.y) - middle_y);
        // square to the chord, to a unit of rounding of the middle
        assert!((vx * ax + vy * ay).abs() <= (ax.abs() + ay.abs()) * 3);
        // as long as the distance
        let length = ((vx * vx + vy * vy) as f64).sqrt();
        assert!((length - off as f64).abs() <= 5.0);
        // to the left of the direction
        assert!(ax * vy - ay * vx > 0);
        assert!(off >= unit);
    }
}
