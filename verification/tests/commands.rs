use couture_core::commands::{
    corset_control, PatternKind, default_saved_measurements, fetch_default_measurements,
    fetch_preset_measurements, fetch_presets, fetch_sizes, generate_pattern, saved_or_default,
    sleeve_control, sleeve_measurements,
};
use couture_core::fixed::Fixed;
use couture_core::measurements::{
    default_measurements, full_measurements_to_map, individual_measurements,
    map_to_full_measurements, Person, FIELD_NAMES,
};
use couture_core::patterns::corset::{CorsetControlParameters, CorsetMeasurements, CorsetPattern};
use couture_core::patterns::sleeve::{SleeveControlParameters, SleeveMeasurements, SleevePattern};
use couture_core::schemas::{
    default_output_format, default_size, default_usage, PatternRequest,
    SavedMeasurementsResponse, StretchInput,
};
use couture_core::store::LabelMap;

fn request(pattern_type: &str, measurements: LabelMap<Fixed>) -> PatternRequest {
    PatternRequest {
        pattern_type: pattern_type.to_string(),
        measurements,
        control_parameters: None,
        stretch: None,
        output_format: default_output_format(),
    }
}

#[test]
fn test_fetch_sizes() {
    assert_eq!(fetch_sizes(), vec![34, 36, 38, 40, 42, 44, 46, 48]);
}

#[test]
fn test_fetch_default_measurements() {
    assert_eq!(fetch_default_measurements(42), Ok(default_measurements(42)));
    assert_eq!(fetch_default_measurements(50), Err("Size 50 not available".to_string()));
    assert_eq!(fetch_default_measurements(37), Err("Size 37 not available".to_string()));
    assert_eq!(fetch_default_measurements(-4), Err("Size -4 not available".to_string()));
    assert_eq!(fetch_default_measurements(0), Err("Size 0 not available".to_string()));
    assert_eq!(
        fetch_default_measurements(i32::MIN),
        Err("Size -2147483648 not available".to_string())
    );
}

#[test]
fn test_fetch_presets() {
    assert_eq!(fetch_presets(), vec!["kwama".to_string(), "vivien".to_string()]);
}

#[test]
fn test_fetch_preset_measurements() {
    assert_eq!(fetch_preset_measurements("Kwama"), Ok(individual_measurements(Person::Kwama)));
    assert_eq!(fetch_preset_measurements("vivien"), Ok(individual_measurements(Person::Vivien)));
    assert_eq!(fetch_preset_measurements("Nobody"), Err("Preset 'Nobody' not found".to_string()));
}

#[test]
fn test_schema_defaults() {
    assert_eq!(default_size(), 38);
    assert_eq!(default_usage(), Fixed::one());
    assert_eq!(default_output_format(), "all");
    let s = StretchInput::default();
    assert_eq!((s.horizontal, s.vertical, s.usage), (Fixed::zero(), Fixed::zero(), Fixed::one()));
}

#[test]
fn test_saved_or_default() {
    let d = default_saved_measurements();
    assert_eq!(d.size, 38);
    assert_eq!(d.values.len(), 24);
    assert_eq!(d.values.get("full_bust"), Some(Fixed::from_int(88)));
    assert_eq!(d.idk.len(), 0);
    let mut values = LabelMap::new();
    values.insert("full_bust", Fixed::from_int(92));
    let mut idk = LabelMap::new();
    idk.insert("full_bust", false);
    let kept = saved_or_default(Some(SavedMeasurementsResponse { size: 40, values, idk }));
    assert_eq!(kept.size, 40);
    assert_eq!(kept.values.get("full_bust"), Some(Fixed::from_int(92)));
    assert_eq!(kept.idk.get("full_bust"), Some(false));
    assert_eq!(saved_or_default(None).values.get("wrist"), Some(Fixed::from_int(16)));
}

#[test]
fn test_map_to_full_measurements_round_trip() {
    let fm = individual_measurements(Person::Vivien);
    let map = full_measurements_to_map(&fm);
    assert_eq!(map.len(), 24);
    for (i, name) in FIELD_NAMES.iter().enumerate() {
        assert_eq!(map.label_at(i), name);
        assert_eq!(map.get(name), Some(fm.values()[i]));
    }
    assert_eq!(map_to_full_measurements(&map), Ok(fm));
}

#[test]
fn test_map_to_full_measurements_reports_the_first_missing_field() {
    let fm = default_measurements(38);
    let full = full_measurements_to_map(&fm);
    let mut map = LabelMap::new();
    for i in 0..full.len() {
        let name = full.label_at(i).clone();
        if name != "full_waist" && name != "wrist" {
            map.insert(&name, full.value_at(i));
        }
    }
    map.insert("unheard_of", Fixed::zero());
    assert_eq!(map_to_full_measurements(&map), Err("Missing measurement: full_waist".to_string()));
    assert_eq!(
        map_to_full_measurements(&LabelMap::new()),
        Err("Missing measurement: back_waist_length".to_string())
    );
}

#[test]
fn test_control_overrides() {
    assert_eq!(corset_control(&None), CorsetControlParameters::default());
    assert_eq!(sleeve_control(&None), SleeveControlParameters::default());
    let mut m = LabelMap::new();
    m.insert("back_neck_top", Fixed::from_hundredths(25));
    m.insert("h3_perpendicular", Fixed::from_int(2));
    m.insert("something_else", Fixed::from_int(9));
    let params = Some(m);
    let c = corset_control(&params);
    assert_eq!(c.back_neck_top, Fixed::from_hundredths(25));
    assert_eq!(c.front_neck_center, Fixed::from_hundredths(80));
    assert_eq!(c.armhole_curve, Fixed::from_hundredths(40));
    let s = sleeve_control(&params);
    assert_eq!(s.h3_perpendicular, Fixed::from_int(2));
    assert_eq!(s.g3_perpendicular, Fixed::from_int(1));
}

#[test]
fn test_sleeve_measurements_of_a_request() {
    let mut own = LabelMap::new();
    own.insert("armhole_depth", Fixed::from_int(20));
    own.insert("sleeve_length", Fixed::from_int(58));
    let sm = sleeve_measurements(&own).unwrap();
    assert_eq!(sm.armhole_depth, Fixed::from_int(20));
    assert_eq!(sm.armhole_measurement, Fixed::from_hundredths(3950));
    assert_eq!(sm.sleeve_length, Fixed::from_int(58));
    assert_eq!(sm.upper_arm_to_elbow, Fixed::from_int(35));
    assert_eq!(sm.sleeve_bottom_width, Fixed::from_int(20));
    let fm = default_measurements(40);
    assert_eq!(
        sleeve_measurements(&full_measurements_to_map(&fm)),
        Ok(SleeveMeasurements::from_full(&fm))
    );
    let mut part = LabelMap::new();
    part.insert("sleeve_length", Fixed::from_int(58));
    assert_eq!(
        sleeve_measurements(&part),
        Err("Missing measurement: back_waist_length".to_string())
    );
}

#[test]
fn test_generate_pattern_corset() {
    let fm = default_measurements(38);
    let r = generate_pattern(&request("corset", full_measurements_to_map(&fm))).unwrap();
    let cm = CorsetMeasurements::from_full(&fm).unwrap();
    let mut pat = CorsetPattern::new(cm, CorsetControlParameters::default()).unwrap();
    assert_eq!(r.construction_svg, pat.render_svg("construction"));
    assert_eq!(r.pattern_svg, pat.render_svg("pattern"));
    assert!(r.warnings.is_empty());
    assert_ne!(r.construction_svg, r.pattern_svg);
}

#[test]
fn test_generate_pattern_corset_with_overrides_and_stretch() {
    let fm = default_measurements(42);
    let mut req = request("corset", full_measurements_to_map(&fm));
    let mut params = LabelMap::new();
    params.insert("armhole_curve", Fixed::from_hundredths(35));
    req.control_parameters = Some(params);
    req.stretch = Some(StretchInput {
        horizontal: Fixed::from_hundredths(30),
        vertical: Fixed::from_hundredths(10),
        usage: Fixed::from_hundredths(50),
    });
    let r = generate_pattern(&req).unwrap();
    let cm = CorsetMeasurements::from_full(&fm).unwrap();
    let mut control = CorsetControlParameters::default();
    control.armhole_curve = Fixed::from_hundredths(35);
    let mut pat = CorsetPattern::new(cm, control).unwrap();
    pat.stretch(Fixed::from_hundredths(30), Fixed::from_hundredths(10), Fixed::from_hundredths(50))
        .unwrap();
    assert_eq!(r.construction_svg, pat.render_svg("construction"));
    assert_eq!(r.pattern_svg, pat.render_svg("pattern"));
    let plain = generate_pattern(&request("corset", full_measurements_to_map(&fm))).unwrap();
    assert_ne!(plain.pattern_svg, r.pattern_svg);
}

#[test]
fn test_generate_pattern_sleeve() {
    let fm = default_measurements(38);
    let r = generate_pattern(&request("sleeve", full_measurements_to_map(&fm))).unwrap();
    let pat = SleevePattern::new(SleeveMeasurements::from_full(&fm), SleeveControlParameters::default());
    assert_eq!(r.construction_svg, pat.render_svg("construction"));
    assert_eq!(r.pattern_svg, pat.render_svg("pattern"));
    assert!(r.warnings.is_empty());
    let mut own = LabelMap::new();
    own.insert("armhole_depth", Fixed::from_hundredths(2150));
    own.insert("sleeve_bottom_width", Fixed::from_int(16));
    let same = generate_pattern(&request("sleeve", own)).unwrap();
    assert_eq!(same.pattern_svg, r.pattern_svg);
}

#[test]
fn test_generate_pattern_errors() {
    let fm = default_measurements(38);
    assert_eq!(
        generate_pattern(&request("skirt", full_measurements_to_map(&fm))).err(),
        Some("Unknown pattern type: skirt".to_string())
    );
    assert_eq!(
        generate_pattern(&request("corset", LabelMap::new())).err(),
        Some("Missing measurement: back_waist_length".to_string())
    );
    assert_eq!(
        generate_pattern(&request("sleeve", LabelMap::new())).err(),
        Some("Missing measurement: back_waist_length".to_string())
    );
    let mut odd = full_measurements_to_map(&fm);
    odd.insert("underarm_height", Fixed::from_int(3));
    assert_eq!(
        generate_pattern(&request("corset", odd)).err(),
        Some("Underarm height is too short for the waist and hip widths.".to_string())
    );
    let mut thin = full_measurements_to_map(&fm);
    thin.insert("neck_circumference", Fixed::from_int(10));
    assert_eq!(
        generate_pattern(&request("corset", thin)).err(),
        Some("Non-bracketing interval: the measurements allow no solution.".to_string())
    );
}

#[test]
fn test_pattern_kind_from_tag() {
    assert_eq!(PatternKind::from_tag("corset"), Some(PatternKind::Corset));
    assert_eq!(PatternKind::from_tag("sleeve"), Some(PatternKind::Sleeve));
    assert_eq!(PatternKind::from_tag("Corset"), None);
    assert_eq!(PatternKind::from_tag(""), None);
    assert_eq!(PatternKind::from_tag(PatternKind::Sleeve.tag()), Some(PatternKind::Sleeve));
    assert_eq!(PatternKind::Corset.tag(), "corset");
}
