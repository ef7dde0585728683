use couture_core::fixed::Fixed;
use couture_core::math::{norm, sub, Point2};
use couture_core::measurements::default_measurements;
use couture_core::patterns::corset::{
    neck_back_height, neck_excess, pi, CorsetControlParameters, CorsetMeasurements,
    CorsetPattern, DraftError,
};

fn val(v: Fixed) -> f64 {
    v.raw() as f64 / 1e9
}

fn near(p: Point2, x: f64, y: f64) -> bool {
    (val(p.x) - x).abs() < 1e-4 && (val(p.y) - y).abs() < 1e-4
}

#[test]
fn test_corset_construction_t38() {
    let fm = default_measurements(38);
    let cm = CorsetMeasurements::from_full(&fm).unwrap();
    assert!(val(cm.neck_width) > 0.0);
    assert!((val(cm.neck_back_height) - 2.0).abs() < 1e-10);
}

#[test]
fn test_corset_stretch() {
    let fm = default_measurements(38);
    let cm = CorsetMeasurements::from_full(&fm).unwrap();
    let mut pat = CorsetPattern::new(cm, CorsetControlParameters::default()).unwrap();
    assert!(pat
        .stretch(Fixed::from_hundredths(30), Fixed::from_hundredths(10), Fixed::from_hundredths(50))
        .is_ok());
    // Stretching again should fail
    assert!(pat
        .stretch(Fixed::from_hundredths(10), Fixed::from_hundredths(10), Fixed::from_int(1))
        .is_err());
}

#[test]
fn test_corset_neck_width_t38() {
    let cm = CorsetMeasurements::from_full(&default_measurements(38)).unwrap();
    assert!((val(cm.neck_width) - 6.828682).abs() < 2e-6);
}

#[test]
fn test_corset_landmarks_t38() {
    let cm = CorsetMeasurements::from_full(&default_measurements(38)).unwrap();
    let pat = CorsetPattern::new(cm, CorsetControlParameters::default()).unwrap();
    let p = |name: &str| pat.base.points.get(name).unwrap();
    assert_eq!(pat.base.points.len(), 13);
    assert!(near(p("A"), 0.0, -22.0));
    assert!(near(p("A1"), -23.5, -22.0));
    assert!(near(p("B"), 0.0, 0.0));
    assert!(near(p("B1"), -17.0, 0.0));
    assert!(near(p("C"), 0.0, 15.0));
    assert!(near(p("C1"), -23.5, 20.4939015));
    assert!(near(p("D"), 0.0, 28.5));
    assert!(near(p("D1"), -16.5, 28.5));
    assert!(near(p("D2"), -17.5, 28.5));
    assert!(near(p("E"), 0.0, 37.0));
    assert!(near(p("F"), 0.0, 42.0));
    assert!(near(p("H"), -6.8286823, 43.0));
    assert!(near(p("K"), -18.1423908, 39.0));
}

#[test]
fn test_corset_control_points_t38() {
    let cm = CorsetMeasurements::from_full(&default_measurements(38)).unwrap();
    let pat = CorsetPattern::new(cm, CorsetControlParameters::default()).unwrap();
    let p = |name: &str| pat.base.helper_points.get(name).unwrap();
    assert_eq!(pat.base.helper_points.len(), 8);
    assert!(near(p("E1"), -5.4629459, 37.0));
    assert!(near(p("F1"), -3.4143412, 42.0));
    assert!(near(p("H1"), -6.0547650, 40.8110312));
    assert!(near(p("H2"), -6.3734368, 41.7123713));
    assert!(near(p("C11"), -15.3024394, 23.0939015));
    assert!(near(p("C12"), -15.3024394, 23.0939015));
    assert!(near(p("K1"), -15.2133060, 30.7152970));
    assert!(near(p("K2"), -17.0696185, 35.9657417));
}

#[test]
fn test_corset_underarm_too_short() {
    let mut cm = CorsetMeasurements::from_full(&default_measurements(38)).unwrap();
    // hip quarter 23.5, waist quarter 17: the underarm point is 6.5 to the side
    cm.underarm_height = Fixed::from_hundredths(650);
    assert_eq!(
        CorsetPattern::new(cm, CorsetControlParameters::default()).err(),
        Some(DraftError::UnderarmTooShort)
    );
    cm.underarm_height = Fixed::from_hundredths(651);
    assert_ne!(
        CorsetPattern::new(cm, CorsetControlParameters::default()).err(),
        Some(DraftError::UnderarmTooShort)
    );
}

#[test]
fn test_corset_shoulder_too_short() {
    let mut cm = CorsetMeasurements::from_full(&default_measurements(38)).unwrap();
    // the shoulder seam rises 4 cm at size 38
    cm.shoulder_length = Fixed::from_hundredths(390);
    assert_eq!(
        CorsetPattern::new(cm, CorsetControlParameters::default()).err(),
        Some(DraftError::ShoulderTooShort)
    );
}

#[test]
fn test_corset_neck_too_small_is_refused() {
    let mut fm = default_measurements(38);
    fm.neck_circumference = Fixed::from_int(10);
    assert_eq!(CorsetMeasurements::from_full(&fm), Err(DraftError::NonBracketingInterval));
}

#[test]
fn test_corset_render_svg() {
    let fm = default_measurements(38);
    let cm = CorsetMeasurements::from_full(&fm).unwrap();
    let mut pat = CorsetPattern::new(cm, CorsetControlParameters::default()).unwrap();
    let svg = pat.render_svg("construction");
    assert!(svg.contains("<svg"));
    assert!(svg.contains("</svg>"));
    assert!(svg.contains("FRONT"));
    assert!(svg.contains("BACK"));
}

#[test]
fn test_corset_render_pattern_variant() {
    let fm = default_measurements(40);
    let cm = CorsetMeasurements::from_full(&fm).unwrap();
    let mut pat = CorsetPattern::new(cm, CorsetControlParameters::default()).unwrap();
    let svg = pat.render_svg("pattern");
    assert!(svg.contains("<svg"));
    assert!(svg.contains("FRONT"));
}

#[test]
fn test_corset_pattern_sheet_t38() {
    let cm = CorsetMeasurements::from_full(&default_measurements(38)).unwrap();
    let mut pat = CorsetPattern::new(cm, CorsetControlParameters::default()).unwrap();
    let expected: String = [
        "<?xml version=\"1.0\" encoding=\"UTF-8\"?>\n",
        "<svg xmlns=\"http://www.w3.org/2000/svg\" viewBox=\"0 0 620.00 800.00\">\n",
        "  <path d=\"M 50.00,700.00 C 50.00,623.53 115.00,556.47 115.00,480.00\" stroke=\"blue\" stroke-width=\"0.30\" fill=\"none\"/>\n",
        "  <path d=\"M 115.00,480.00 C 115.00,403.53 69.50,336.54 50.00,275.06\" stroke=\"blue\" stroke-width=\"0.30\" fill=\"none\"/>\n",
        "  <line x1=\"285.00\" y1=\"700.00\" x2=\"285.00\" y2=\"110.00\" stroke=\"blue\" stroke-width=\"0.30\" fill=\"none\"/>\n",
        "  <line x1=\"285.00\" y1=\"700.00\" x2=\"50.00\" y2=\"700.00\" stroke=\"blue\" stroke-width=\"0.30\" fill=\"none\"/>\n",
        "  <path d=\"M 216.71,50.00 C 224.45,71.89 230.37,110.00 285.00,110.00\" stroke=\"blue\" stroke-width=\"0.30\" fill=\"none\"/>\n",
        "  <line x1=\"216.71\" y1=\"50.00\" x2=\"103.58\" y2=\"90.00\" stroke=\"blue\" stroke-width=\"0.30\" fill=\"none\"/>\n",
        "  <path d=\"M 103.58,90.00 C 132.87,172.85 131.98,249.06 50.00,275.06\" stroke=\"blue\" stroke-width=\"0.30\" fill=\"none\"/>\n",
        "  <path d=\"M 570.00,700.00 C 570.00,623.53 505.00,556.47 505.00,480.00\" stroke=\"green\" stroke-width=\"0.30\" fill=\"none\"/>\n",
        "  <path d=\"M 505.00,480.00 C 505.00,403.53 550.50,336.54 570.00,275.06\" stroke=\"green\" stroke-width=\"0.30\" fill=\"none\"/>\n",
        "  <line x1=\"335.00\" y1=\"700.00\" x2=\"335.00\" y2=\"60.00\" stroke=\"green\" stroke-width=\"0.30\" fill=\"none\"/>\n",
        "  <line x1=\"335.00\" y1=\"700.00\" x2=\"570.00\" y2=\"700.00\" stroke=\"green\" stroke-width=\"0.30\" fill=\"none\"/>\n",
        "  <path d=\"M 403.29,50.00 C 398.73,62.88 369.14,60.00 335.00,60.00\" stroke=\"green\" stroke-width=\"0.30\" fill=\"none\"/>\n",
        "  <line x1=\"403.29\" y1=\"50.00\" x2=\"516.42\" y2=\"90.00\" stroke=\"green\" stroke-width=\"0.30\" fill=\"none\"/>\n",
        "  <path d=\"M 516.42,90.00 C 505.70,120.34 488.02,249.06 570.00,275.06\" stroke=\"green\" stroke-width=\"0.30\" fill=\"none\"/>\n",
        "  <line x1=\"285.00\" y1=\"750.00\" x2=\"385.00\" y2=\"750.00\" stroke=\"black\" stroke-width=\"1.20\" fill=\"none\"/>\n",
        "  <text x=\"335.00\" y=\"770.00\" font-family=\"Arial, sans-serif\" font-size=\"2.80\" fill=\"black\" text-anchor=\"middle\">10 cm Scale</text>\n",
        "  <text x=\"167.50\" y=\"480.00\" font-family=\"Arial, sans-serif\" font-size=\"4.20\" fill=\"blue\" text-anchor=\"middle\" font-weight=\"bold\">FRONT</text>\n",
        "  <text x=\"452.50\" y=\"480.00\" font-family=\"Arial, sans-serif\" font-size=\"4.20\" fill=\"green\" text-anchor=\"middle\" font-weight=\"bold\">BACK</text>\n",
        "</svg>\n",
    ].concat();
    assert_eq!(pat.render_svg("pattern"), expected);
    // any variant but the reference sheet is the clean pattern
    assert_eq!(pat.render_svg("anything"), expected);
}

#[test]
fn test_corset_reference_sheet_t38() {
    let cm = CorsetMeasurements::from_full(&default_measurements(38)).unwrap();
    let mut pat = CorsetPattern::new(cm, CorsetControlParameters::default()).unwrap();
    let expected: String = [
        "<?xml version=\"1.0\" encoding=\"UTF-8\"?>\n",
        "<svg xmlns=\"http://www.w3.org/2000/svg\" viewBox=\"0 0 620.00 800.00\">\n",
        "  <line x1=\"285.00\" y1=\"700.00\" x2=\"285.00\" y2=\"110.00\" stroke=\"gray\" stroke-width=\"0.30\" fill=\"none\" stroke-dasharray=\"5,3\"/>\n",
        "  <line x1=\"285.00\" y1=\"700.00\" x2=\"50.00\" y2=\"700.00\" stroke=\"gray\" stroke-width=\"0.30\" fill=\"none\" stroke-dasharray=\"5,3\"/>\n",
        "  <path d=\"M 50.00,700.00 C 50.00,623.53 115.00,556.47 115.00,480.00\" stroke=\"blue\" stroke-width=\"0.30\" fill=\"none\"/>\n",
        "  <path d=\"M 115.00,480.00 C 115.00,403.53 69.50,336.54 50.00,275.06\" stroke=\"blue\" stroke-width=\"0.30\" fill=\"none\"/>\n",
        "  <line x1=\"285.00\" y1=\"700.00\" x2=\"285.00\" y2=\"110.00\" stroke=\"blue\" stroke-width=\"0.30\" fill=\"none\"/>\n",
        "  <line x1=\"285.00\" y1=\"700.00\" x2=\"50.00\" y2=\"700.00\" stroke=\"blue\" stroke-width=\"0.30\" fill=\"none\"/>\n",
        "  <path d=\"M 216.71,50.00 C 224.45,71.89 230.37,110.00 285.00,110.00\" stroke=\"blue\" stroke-width=\"0.30\" fill=\"none\"/>\n",
        "  <line x1=\"216.71\" y1=\"50.00\" x2=\"103.58\" y2=\"90.00\" stroke=\"blue\" stroke-width=\"0.30\" fill=\"none\"/>\n",
        "  <path d=\"M 103.58,90.00 C 132.87,172.85 131.98,249.06 50.00,275.06\" stroke=\"blue\" stroke-width=\"0.30\" fill=\"none\"/>\n",
        "  <path d=\"M 570.00,700.00 C 570.00,623.53 505.00,556.47 505.00,480.00\" stroke=\"green\" stroke-width=\"0.30\" fill=\"none\"/>\n",
        "  <path d=\"M 505.00,480.00 C 505.00,403.53 550.50,336.54 570.00,275.06\" stroke=\"green\" stroke-width=\"0.30\" fill=\"none\"/>\n",
        "  <line x1=\"335.00\" y1=\"700.00\" x2=\"335.00\" y2=\"60.00\" stroke=\"green\" stroke-width=\"0.30\" fill=\"none\"/>\n",
        "  <line x1=\"335.00\" y1=\"700.00\" x2=\"570.00\" y2=\"700.00\" stroke=\"green\" stroke-width=\"0.30\" fill=\"none\"/>\n",
        "  <path d=\"M 403.29,50.00 C 398.73,62.88 369.14,60.00 335.00,60.00\" stroke=\"green\" stroke-width=\"0.30\" fill=\"none\"/>\n",
        "  <line x1=\"403.29\" y1=\"50.00\" x2=\"516.42\" y2=\"90.00\" stroke=\"green\" stroke-width=\"0.30\" fill=\"none\"/>\n",
        "  <path d=\"M 516.42,90.00 C 505.70,120.34 488.02,249.06 570.00,275.06\" stroke=\"green\" stroke-width=\"0.30\" fill=\"none\"/>\n",
        "  <circle cx=\"285.00\" cy=\"480.00\" r=\"1.00\" fill=\"blue\"/>\n",
        "  <text x=\"290.00\" y=\"480.00\" font-family=\"Arial, sans-serif\" font-size=\"2.80\" fill=\"blue\" text-anchor=\"start\"><tspan x=\"290.00\" dy=\"0\">B</tspan><tspan x=\"290.00\" dy=\"1.2em\">(0.0, 0.0)</tspan></text>\n",
        "  <circle cx=\"115.00\" cy=\"480.00\" r=\"1.00\" fill=\"blue\"/>\n",
        "  <text x=\"120.00\" y=\"480.00\" font-family=\"Arial, sans-serif\" font-size=\"2.80\" fill=\"blue\" text-anchor=\"start\"><tspan x=\"120.00\" dy=\"0\">B1</tspan><tspan x=\"120.00\" dy=\"1.2em\">(17.0, 0.0)</tspan></text>\n",
        "  <circle cx=\"285.00\" cy=\"110.00\" r=\"1.00\" fill=\"blue\"/>\n",
        "  <text x=\"290.00\" y=\"110.00\" font-family=\"Arial, sans-serif\" font-size=\"2.80\" fill=\"blue\" text-anchor=\"start\"><tspan x=\"290.00\" dy=\"0\">E</tspan><tspan x=\"290.00\" dy=\"1.2em\">(0.0, 37.0)</tspan></text>\n",
        "  <circle cx=\"285.00\" cy=\"60.00\" r=\"1.00\" fill=\"blue\"/>\n",
        "  <text x=\"290.00\" y=\"60.00\" font-family=\"Arial, sans-serif\" font-size=\"2.80\" fill=\"blue\" text-anchor=\"start\"><tspan x=\"290.00\" dy=\"0\">F</tspan><tspan x=\"290.00\" dy=\"1.2em\">(0.0, 42.0)</tspan></text>\n",
        "  <circle cx=\"216.71\" cy=\"50.00\" r=\"1.00\" fill=\"blue\"/>\n",
        "  <text x=\"221.71\" y=\"50.00\" font-family=\"Arial, sans-serif\" font-size=\"2.80\" fill=\"blue\" text-anchor=\"start\"><tspan x=\"221.71\" dy=\"0\">H</tspan><tspan x=\"221.71\" dy=\"1.2em\">(6.8, 43.0)</tspan></text>\n",
        "  <circle cx=\"285.00\" cy=\"700.00\" r=\"1.00\" fill=\"blue\"/>\n",
        "  <text x=\"290.00\" y=\"700.00\" font-family=\"Arial, sans-serif\" font-size=\"2.80\" fill=\"blue\" text-anchor=\"start\"><tspan x=\"290.00\" dy=\"0\">A</tspan><tspan x=\"290.00\" dy=\"1.2em\">(0.0, -22.0)</tspan></text>\n",
        "  <circle cx=\"50.00\" cy=\"700.00\" r=\"1.00\" fill=\"blue\"/>\n",
        "  <text x=\"55.00\" y=\"700.00\" font-family=\"Arial, sans-serif\" font-size=\"2.80\" fill=\"blue\" text-anchor=\"start\"><tspan x=\"55.00\" dy=\"0\">A1</tspan><tspan x=\"55.00\" dy=\"1.2em\">(23.5, -22.0)</tspan></text>\n",
        "  <circle cx=\"285.00\" cy=\"330.00\" r=\"1.00\" fill=\"blue\"/>\n",
        "  <text x=\"290.00\" y=\"330.00\" font-family=\"Arial, sans-serif\" font-size=\"2.80\" fill=\"blue\" text-anchor=\"start\"><tspan x=\"290.00\" dy=\"0\">C</tspan><tspan x=\"290.00\" dy=\"1.2em\">(0.0, 15.0)</tspan></text>\n",
        "  <circle cx=\"50.00\" cy=\"275.06\" r=\"1.00\" fill=\"blue\"/>\n",
        "  <text x=\"55.00\" y=\"275.06\" font-family=\"Arial, sans-serif\" font-size=\"2.80\" fill=\"blue\" text-anchor=\"start\"><tspan x=\"55.00\" dy=\"0\">C1</tspan><tspan x=\"55.00\" dy=\"1.2em\">(23.5, 20.5)</tspan></text>\n",
        "  <circle cx=\"285.00\" cy=\"195.00\" r=\"1.00\" fill=\"blue\"/>\n",
        "  <text x=\"290.00\" y=\"195.00\" font-family=\"Arial, sans-serif\" font-size=\"2.80\" fill=\"blue\" text-anchor=\"start\"><tspan x=\"290.00\" dy=\"0\">D</tspan><tspan x=\"290.00\" dy=\"1.2em\">(0.0, 28.5)</tspan></text>\n",
        "  <circle cx=\"120.00\" cy=\"195.00\" r=\"1.00\" fill=\"blue\"/>\n",
        "  <text x=\"125.00\" y=\"195.00\" font-family=\"Arial, sans-serif\" font-size=\"2.80\" fill=\"blue\" text-anchor=\"start\"><tspan x=\"125.00\" dy=\"0\">D1</tspan><tspan x=\"125.00\" dy=\"1.2em\">(16.5, 28.5)</tspan></text>\n",
        "  <circle cx=\"103.58\" cy=\"90.00\" r=\"1.00\" fill=\"blue\"/>\n",
        "  <text x=\"108.58\" y=\"90.00\" font-family=\"Arial, sans-serif\" font-size=\"2.80\" fill=\"blue\" text-anchor=\"start\"><tspan x=\"108.58\" dy=\"0\">K</tspan><tspan x=\"108.58\" dy=\"1.2em\">(18.1, 39.0)</tspan></text>\n",
        "  <circle cx=\"335.00\" cy=\"700.00\" r=\"1.00\" fill=\"green\"/>\n",
        "  <text x=\"340.00\" y=\"700.00\" font-family=\"Arial, sans-serif\" font-size=\"2.80\" fill=\"green\" text-anchor=\"start\"><tspan x=\"340.00\" dy=\"0\">A</tspan><tspan x=\"340.00\" dy=\"1.2em\">(0.0, -22.0)</tspan></text>\n",
        "  <circle cx=\"570.00\" cy=\"700.00\" r=\"1.00\" fill=\"green\"/>\n",
        "  <text x=\"575.00\" y=\"700.00\" font-family=\"Arial, sans-serif\" font-size=\"2.80\" fill=\"green\" text-anchor=\"start\"><tspan x=\"575.00\" dy=\"0\">A1</tspan><tspan x=\"575.00\" dy=\"1.2em\">(23.5, -22.0)</tspan></text>\n",
        "  <circle cx=\"335.00\" cy=\"480.00\" r=\"1.00\" fill=\"green\"/>\n",
        "  <text x=\"340.00\" y=\"480.00\" font-family=\"Arial, sans-serif\" font-size=\"2.80\" fill=\"green\" text-anchor=\"start\"><tspan x=\"340.00\" dy=\"0\">B</tspan><tspan x=\"340.00\" dy=\"1.2em\">(0.0, 0.0)</tspan></text>\n",
        "  <circle cx=\"505.00\" cy=\"480.00\" r=\"1.00\" fill=\"green\"/>\n",
        "  <text x=\"510.00\" y=\"480.00\" font-family=\"Arial, sans-serif\" font-size=\"2.80\" fill=\"green\" text-anchor=\"start\"><tspan x=\"510.00\" dy=\"0\">B1</tspan><tspan x=\"510.00\" dy=\"1.2em\">(17.0, 0.0)</tspan></text>\n",
        "  <circle cx=\"570.00\" cy=\"275.06\" r=\"1.00\" fill=\"green\"/>\n",
        "  <text x=\"575.00\" y=\"275.06\" font-family=\"Arial, sans-serif\" font-size=\"2.80\" fill=\"green\" text-anchor=\"start\"><tspan x=\"575.00\" dy=\"0\">C1</tspan><tspan x=\"575.00\" dy=\"1.2em\">(23.5, 20.5)</tspan></text>\n",
        "  <circle cx=\"510.00\" cy=\"195.00\" r=\"1.00\" fill=\"green\"/>\n",
        "  <text x=\"515.00\" y=\"195.00\" font-family=\"Arial, sans-serif\" font-size=\"2.80\" fill=\"green\" text-anchor=\"start\"><tspan x=\"515.00\" dy=\"0\">D2</tspan><tspan x=\"515.00\" dy=\"1.2em\">(17.5, 28.5)</tspan></text>\n",
        "  <circle cx=\"335.00\" cy=\"60.00\" r=\"1.00\" fill=\"green\"/>\n",
        "  <text x=\"340.00\" y=\"60.00\" font-family=\"Arial, sans-serif\" font-size=\"2.80\" fill=\"green\" text-anchor=\"start\"><tspan x=\"340.00\" dy=\"0\">F</tspan><tspan x=\"340.00\" dy=\"1.2em\">(0.0, 42.0)</tspan></text>\n",
        "  <circle cx=\"403.29\" cy=\"50.00\" r=\"1.00\" fill=\"green\"/>\n",
        "  <text x=\"408.29\" y=\"50.00\" font-family=\"Arial, sans-serif\" font-size=\"2.80\" fill=\"green\" text-anchor=\"start\"><tspan x=\"408.29\" dy=\"0\">H</tspan><tspan x=\"408.29\" dy=\"1.2em\">(6.8, 43.0)</tspan></text>\n",
        "  <circle cx=\"516.42\" cy=\"90.00\" r=\"1.00\" fill=\"green\"/>\n",
        "  <text x=\"521.42\" y=\"90.00\" font-family=\"Arial, sans-serif\" font-size=\"2.80\" fill=\"green\" text-anchor=\"start\"><tspan x=\"521.42\" dy=\"0\">K</tspan><tspan x=\"521.42\" dy=\"1.2em\">(18.1, 39.0)</tspan></text>\n",
        "  <circle cx=\"224.45\" cy=\"71.89\" r=\"0.70\" fill=\"gray\"/>\n",
        "  <text x=\"229.45\" y=\"71.89\" font-family=\"Arial, sans-serif\" font-size=\"2.80\" fill=\"gray\" text-anchor=\"start\">H1</text>\n",
        "  <circle cx=\"230.37\" cy=\"110.00\" r=\"0.70\" fill=\"gray\"/>\n",
        "  <text x=\"235.37\" y=\"110.00\" font-family=\"Arial, sans-serif\" font-size=\"2.80\" fill=\"gray\" text-anchor=\"start\">E1</text>\n",
        "  <circle cx=\"131.98\" cy=\"249.06\" r=\"0.70\" fill=\"gray\"/>\n",
        "  <text x=\"136.98\" y=\"249.06\" font-family=\"Arial, sans-serif\" font-size=\"2.80\" fill=\"gray\" text-anchor=\"start\">C11</text>\n",
        "  <circle cx=\"132.87\" cy=\"172.85\" r=\"0.70\" fill=\"gray\"/>\n",
        "  <text x=\"137.87\" y=\"172.85\" font-family=\"Arial, sans-serif\" font-size=\"2.80\" fill=\"gray\" text-anchor=\"start\">K1</text>\n",
        "  <circle cx=\"398.73\" cy=\"62.88\" r=\"0.70\" fill=\"gray\"/>\n",
        "  <text x=\"403.73\" y=\"62.88\" font-family=\"Arial, sans-serif\" font-size=\"2.80\" fill=\"gray\" text-anchor=\"start\">H2</text>\n",
        "  <circle cx=\"369.14\" cy=\"60.00\" r=\"0.70\" fill=\"gray\"/>\n",
        "  <text x=\"374.14\" y=\"60.00\" font-family=\"Arial, sans-serif\" font-size=\"2.80\" fill=\"gray\" text-anchor=\"start\">F1</text>\n",
        "  <circle cx=\"488.02\" cy=\"249.06\" r=\"0.70\" fill=\"gray\"/>\n",
        "  <text x=\"493.02\" y=\"249.06\" font-family=\"Arial, sans-serif\" font-size=\"2.80\" fill=\"gray\" text-anchor=\"start\">C12</text>\n",
        "  <circle cx=\"505.70\" cy=\"120.34\" r=\"0.70\" fill=\"gray\"/>\n",
        "  <text x=\"510.70\" y=\"120.34\" font-family=\"Arial, sans-serif\" font-size=\"2.80\" fill=\"gray\" text-anchor=\"start\">K2</text>\n",
        "  <line x1=\"285.00\" y1=\"750.00\" x2=\"385.00\" y2=\"750.00\" stroke=\"black\" stroke-width=\"1.20\" fill=\"none\"/>\n",
        "  <text x=\"335.00\" y=\"770.00\" font-family=\"Arial, sans-serif\" font-size=\"2.80\" fill=\"black\" text-anchor=\"middle\">10 cm Scale</text>\n",
        "  <text x=\"167.50\" y=\"480.00\" font-family=\"Arial, sans-serif\" font-size=\"4.20\" fill=\"blue\" text-anchor=\"middle\" font-weight=\"bold\">FRONT</text>\n",
        "  <text x=\"452.50\" y=\"480.00\" font-family=\"Arial, sans-serif\" font-size=\"4.20\" fill=\"green\" text-anchor=\"middle\" font-weight=\"bold\">BACK</text>\n",
        "</svg>\n",
    ].concat();
    assert_eq!(pat.render_svg("construction"), expected);
}

#[test]
fn test_corset_frame_holds_landmarks_with_margins() {
    let cm = CorsetMeasurements::from_full(&default_measurements(38)).unwrap();
    let mut pat = CorsetPattern::new(cm, CorsetControlParameters::default()).unwrap();
    // the frame is fitted when the bodice is drafted
    let (min_x, max_x, min_y, max_y) = pat.bounds;
    pat.prepare_bounds();
    assert_eq!(pat.bounds, (min_x, max_x, min_y, max_y));
    // leftmost landmark A1 and C1 at -23.5, lowest at -22, highest H at 43
    assert_eq!(min_x, Fixed::from_hundredths(-2850));
    assert_eq!(max_x, Fixed::from_hundredths(3350));
    assert_eq!(min_y, Fixed::from_hundredths(-3200));
    assert_eq!(max_y, Fixed::from_hundredths(4800));
    let five = Fixed::from_int(5);
    for i in 0..pat.base.points.len() {
        let p = pat.base.points.value_at(i);
        assert!(min_x.add(five).le(p.x) && p.x.lt(max_x));
        assert!(min_y.add(Fixed::from_int(10)).le(p.y) && p.y.add(five).le(max_y));
        let m = pat.mirror_point(p);
        assert!(m.x.add(five).le(max_x) && min_x.lt(m.x));
    }
}

#[test]
fn test_corset_mirror_point() {
    let cm = CorsetMeasurements::from_full(&default_measurements(38)).unwrap();
    let pat = CorsetPattern::new(cm, CorsetControlParameters::default()).unwrap();
    assert_eq!(pat.pattern_gap, Fixed::from_int(5));
    let m = pat.mirror_point(Point2::new(Fixed::from_int(-17), Fixed::from_int(3)));
    assert_eq!(m, Point2::new(Fixed::from_int(22), Fixed::from_int(3)));
}

#[test]
fn test_corset_control_defaults() {
    let b = CorsetControlParameters::default();
    assert_eq!(b.front_neck_center, Fixed::from_hundredths(80));
    assert_eq!(b.back_neck_center, Fixed::from_hundredths(50));
    assert_eq!(b.front_neck_top, Fixed::from_hundredths(34));
    assert_eq!(b.back_neck_top, Fixed::from_hundredths(20));
    assert_eq!(b.armhole_curve, Fixed::from_hundredths(40));
}

#[test]
fn test_corset_armhole_passes_through_its_target() {
    // the front armhole from K over K1 and C11 to C1 passes through D1
    let cm = CorsetMeasurements::from_full(&default_measurements(38)).unwrap();
    let pat = CorsetPattern::new(cm, CorsetControlParameters::default()).unwrap();
    let pts = pat.landmarks();
    let hp = pat.controls();
    let at = |t: f64, side: (Point2, Point2), target: Point2| {
        let u = 1.0 - t;
        let w = [u * u * u, 3.0 * u * u * t, 3.0 * u * t * t, t * t * t];
        let q = [pts.k, side.0, side.1, pts.c1];
        let x: f64 = (0..4).map(|i| w[i] * val(q[i].x)).sum();
        let y: f64 = (0..4).map(|i| w[i] * val(q[i].y)).sum();
        (x - val(target.x)).abs() < 1e-4 && (y - val(target.y)).abs() < 1e-4
    };
    assert!(at(0.45568169593811036, (hp.k1, hp.c11), pts.d1));
    assert!(at(0.5462099361419677, (hp.k2, hp.c12), pts.d2));
}

#[test]
fn test_corset_error_messages() {
    assert!(DraftError::NonBracketingInterval.message().starts_with("Non-bracketing interval"));
    assert_ne!(DraftError::UnderarmTooShort.message(), DraftError::ShoulderTooShort.message());
}

#[test]
fn test_corset_stretch_refusal_leaves_points() {
    let cm = CorsetMeasurements::from_full(&default_measurements(38)).unwrap();
    let mut pat = CorsetPattern::new(cm, CorsetControlParameters::default()).unwrap();
    pat.stretch(Fixed::from_hundredths(30), Fixed::from_hundredths(10), Fixed::from_hundredths(50))
        .unwrap();
    let before = pat.landmarks();
    let controls = pat.controls();
    let r = pat.stretch(Fixed::from_int(7), Fixed::from_int(9), Fixed::from_int(1));
    assert_eq!(r, Err("Cannot stretch a pattern that is already stretched.".to_string()));
    assert_eq!(pat.landmarks(), before);
    assert_eq!(pat.controls(), controls);
}

#[test]
fn test_corset_landmarks_on_exact_places_t38() {
    let cm = CorsetMeasurements::from_full(&default_measurements(38)).unwrap();
    let pat = CorsetPattern::new(cm, CorsetControlParameters::default()).unwrap();
    let pts = pat.landmarks();
    let at = |x: i64, y: i64| Point2::new(Fixed::from_hundredths(x), Fixed::from_hundredths(y));
    assert_eq!(pts.a, at(0, -2200));
    assert_eq!(pts.a1, at(-2350, -2200));
    assert_eq!(pts.b, at(0, 0));
    assert_eq!(pts.b1, at(-1700, 0));
    assert_eq!(pts.c, at(0, 1500));
    assert_eq!(pts.d, at(0, 2850));
    assert_eq!(pts.d1, at(-1650, 2850));
    assert_eq!(pts.d2, at(-1750, 2850));
    assert_eq!(pts.e, at(0, 3700));
    assert_eq!(pts.f, at(0, 4200));
    assert_eq!(pts.h.y, Fixed::from_int(43));
    assert_eq!(pts.h.x, cm.neck_width.neg());
    // K lies on the level of (2 * 37 + 43) / 3, the shoulder length from H:
    // sqrt(12^2 - 4^2) = sqrt(128) to its left
    assert_eq!(pts.k.y, Fixed::from_int(39));
    assert_eq!(pts.k.x, pts.h.x.sub(Fixed::from_raw(11_313_708_498)));
    // the underarm point lies on the hip width, the underarm height from B1:
    // sqrt(21.5^2 - 6.5^2) = sqrt(420)
    assert_eq!(pts.c1, Point2::new(Fixed::from_hundredths(-2350), Fixed::from_raw(20_493_901_531)));
    // the labels come in the order of the draft
    let order = ["B", "B1", "E", "F", "H", "A", "A1", "C", "C1", "D", "D1", "D2", "K"];
    for (i, name) in order.iter().enumerate() {
        assert_eq!(pat.base.points.label_at(i), name);
    }
    let order = ["E1", "F1", "H1", "H2", "C11", "K1", "C12", "K2"];
    for (i, name) in order.iter().enumerate() {
        assert_eq!(pat.base.helper_points.label_at(i), name);
    }
}

#[test]
fn test_corset_size_48_has_no_front_armhole() {
    // at size 48 the armhole through D1 has no solution between the
    // parameters 0.01 and 0.99
    let cm = CorsetMeasurements::from_full(&default_measurements(48)).unwrap();
    assert_eq!(
        CorsetPattern::new(cm, CorsetControlParameters::default()).err(),
        Some(DraftError::NonBracketingInterval)
    );
}

#[test]
fn test_corset_front_lies_left_of_the_centre_line() {
    for size in [34, 36, 38, 40, 42, 44, 46] {
        let cm = CorsetMeasurements::from_full(&default_measurements(size)).unwrap();
        let pat = CorsetPattern::new(cm, CorsetControlParameters::default()).unwrap();
        for i in 0..pat.base.points.len() {
            assert!(pat.base.points.value_at(i).x.le(Fixed::zero()));
        }
    }
}

#[test]
fn test_corset_side_and_shoulder_have_their_lengths() {
    for size in [34, 36, 38, 40, 42, 44, 46] {
        let cm = CorsetMeasurements::from_full(&default_measurements(size)).unwrap();
        let pts = CorsetPattern::new(cm, CorsetControlParameters::default()).unwrap().landmarks();
        let side = norm(sub(pts.c1, pts.b1)).raw();
        assert!(cm.underarm_height.raw() - 2 <= side && side <= cm.underarm_height.raw());
        let seam = norm(sub(pts.k, pts.h)).raw();
        assert!(cm.shoulder_length.raw() - 3 <= seam && seam <= cm.shoulder_length.raw() + 1);
    }
}

#[test]
fn test_corset_neck_width_solves_its_equation() {
    for size in [34, 36, 38, 40, 42, 44, 46, 48] {
        let fm = default_measurements(size);
        let cm = CorsetMeasurements::from_full(&fm).unwrap();
        let front = fm.back_waist_length.sub(fm.front_waist_length).add(neck_back_height());
        let target = fm.neck_circumference.div(pi());
        let excess = neck_excess(neck_back_height(), front, target, cm.neck_width).raw();
        assert!(excess.abs() <= 960);
        assert!(Fixed::from_hundredths(1).le(cm.neck_width) && cm.neck_width.le(target));
    }
}

#[test]
fn test_corset_placed_armhole_controls_lie_square_to_the_side_seam() {
    for size in [34, 36, 38, 40, 42, 44, 46] {
        let cm = CorsetMeasurements::from_full(&default_measurements(size)).unwrap();
        let b = CorsetControlParameters::default();
        let pat = CorsetPattern::new(cm, b).unwrap();
        let pts = pat.landmarks();
        let hp = pat.controls();
        let depth = b.armhole_curve.mul(cm.underarm_height).raw() as i128;
        let unit: i128 = 1_000_000_000;
        for (cx, target) in [(hp.c11, pts.d1), (hp.c12, pts.d2)] {
            let (vx, vy) = ((cx.x.raw() - pts.c1.x.raw()) as i128, (cx.y.raw() - pts.c1.y.raw()) as i128);
            let (wx, wy) =
                ((pts.c1.x.raw() - pts.b1.x.raw()) as i128, (pts.c1.y.raw() - pts.b1.y.raw()) as i128);
            let (tx, ty) =
                ((target.x.raw() - pts.c1.x.raw()) as i128, (target.y.raw() - pts.c1.y.raw()) as i128);
            // square to the seam
            assert!((2 * unit * (vx * wx + vy * wy)).abs() <= (wx.abs() + wy.abs()) * (depth + unit));
            // as long as the depth
            let low = depth * (unit - 2) - (unit + 4);
            let high = depth * (unit + 3) + unit;
            let square = vx * vx + vy * vy;
            assert!(low * low / unit <= unit * square && unit * square <= high * high / unit + 1);
            let length = norm(sub(cx, pts.c1)).raw() as i128;
            assert!((length - depth).abs() <= 30);
            // on the side of the target
            assert!(vx * tx + vy * ty > 0);
        }
    }
}

#[test]
fn test_corset_armholes_pass_their_targets_closely() {
    for size in [34, 36, 38, 40, 42, 44, 46] {
        let cm = CorsetMeasurements::from_full(&default_measurements(size)).unwrap();
        let pat = CorsetPattern::new(cm, CorsetControlParameters::default()).unwrap();
        let pts = pat.landmarks();
        let hp = pat.controls();
        for (kx, cx, target) in [(hp.k1, hp.c11, pts.d1), (hp.k2, hp.c12, pts.d2)] {
            // the points lie as close to the target as the bound on the arc asks
            for p in [pts.k, pts.c1, cx] {
                assert!((val(p.x) - val(target.x)).abs() <= 40.0);
                assert!((val(p.y) - val(target.y)).abs() <= 40.0);
            }
            for p in [pts.k, pts.c1, cx, kx, target] {
                assert!(val(p.x).abs() <= 200.0 && val(p.y).abs() <= 200.0);
            }
            // somewhere the arc is within a thousandth of the target
            let q = [pts.k, kx, cx, pts.c1];
            let miss = |t: f64| {
                let u = 1.0 - t;
                let w = [u * u * u, 3.0 * u * u * t, 3.0 * u * t * t, t * t * t];
                let x: f64 = (0..4).map(|i| w[i] * val(q[i].x)).sum();
                let y: f64 = (0..4).map(|i| w[i] * val(q[i].y)).sum();
                (x - val(target.x)).abs().max((y - val(target.y)).abs())
            };
            let mut best = 0.01;
            for i in 0..=9800 {
                let t = 0.01 + i as f64 * 1e-4;
                if miss(t) < miss(best) {
                    best = t;
                }
            }
            let coarse = best;
            for i in 0..=4000 {
                let t = coarse - 2e-4 + i as f64 * 1e-7;
                if miss(t) < miss(best) {
                    best = t;
                }
            }
            assert!(miss(best) < 1e-3);
        }
    }
}
