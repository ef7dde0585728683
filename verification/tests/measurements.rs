use couture_core::fixed::Fixed;
use couture_core::measurements::{
    default_measurements, field_index, individual_measurements, size_entry, FullMeasurements,
    Person, SizeEntry, FIELD_NAMES,
};

fn val(v: Fixed) -> f64 {
    v.raw() as f64 / 1e9
}

#[test]
fn test_default_t38() {
    let m = default_measurements(38);
    assert!((val(m.full_bust) - 88.0).abs() < 1e-10);
    assert!((val(m.full_waist) - 68.0).abs() < 1e-10);
    assert!((val(m.back_waist_length) - 41.0).abs() < 1e-10);
}

#[test]
fn test_default_t36() {
    let m = default_measurements(36);
    // One step down: bust = 88 - 4 = 84
    assert!((val(m.full_bust) - 84.0).abs() < 1e-10);
}

#[test]
fn test_default_t40() {
    let m = default_measurements(40);
    // One step up: bust = 88 + 4 = 92
    assert!((val(m.full_bust) - 92.0).abs() < 1e-10);
}

#[test]
fn test_individual_vivien() {
    let m = individual_measurements(Person::Vivien);
    assert!((val(m.full_bust) - 102.0).abs() < 1e-10);
    assert!((val(m.arm_length) - 66.0).abs() < 1e-10);
}

#[test]
fn test_individual_kwama() {
    let m = individual_measurements(Person::Kwama);
    assert!((val(m.full_bust) - 90.0).abs() < 1e-10);
    assert!((val(m.wrist) - 15.0).abs() < 1e-10);
}

#[test]
fn test_person_from_str() {
    assert_eq!(Person::from_str("kwama"), Some(Person::Kwama));
    assert_eq!(Person::from_str("Vivien"), Some(Person::Vivien));
    assert_eq!(Person::from_str("unknown"), None);
}

#[test]
fn test_person_from_str_ignores_case() {
    assert_eq!(Person::from_str("KWAMA"), Some(Person::Kwama));
    assert_eq!(Person::from_str("vIvIeN"), Some(Person::Vivien));
    assert_eq!(Person::from_str(""), None);
    assert_eq!(Person::from_str("kwama "), None);
}

#[test]
fn test_person_from_lowercase_is_exact() {
    assert_eq!(Person::from_lowercase("kwama"), Some(Person::Kwama));
    assert_eq!(Person::from_lowercase("Kwama"), None);
    assert_eq!(Person::from_lowercase(Person::Vivien.name()), Some(Person::Vivien));
}

#[test]
fn test_bust_grows_four_centimetres_per_size() {
    for size in [34, 36, 38, 40, 42, 44, 46, 48] {
        let m = default_measurements(size);
        let steps = ((size - 38) / 2) as i64;
        assert_eq!(m.full_bust, Fixed::from_int(88 + 4 * steps));
        assert_eq!(m.arm_length, Fixed::from_int(60));
        assert_eq!(m.elbow_height, Fixed::from_int(35));
    }
}

#[test]
fn test_default_t44_fractions() {
    let m = default_measurements(44);
    assert_eq!(m.shoulder_length, Fixed::from_hundredths(1320));
    assert_eq!(m.half_bust_point_distance, Fixed::from_hundredths(1000));
    assert_eq!(m.side_waist_to_floor, Fixed::from_hundredths(10850));
}

#[test]
fn test_odd_size_rounds_toward_38() {
    assert_eq!(default_measurements(39), default_measurements(38));
    assert_eq!(default_measurements(37), default_measurements(38));
    assert_eq!(default_measurements(35), default_measurements(36));
}

#[test]
fn test_values_round_trip() {
    let m = individual_measurements(Person::Kwama);
    let v = m.values();
    assert_eq!(v.len(), 24);
    assert_eq!(v[8], Fixed::from_int(36));
    assert_eq!(FullMeasurements::from_values(&v), Some(m));
    assert_eq!(FullMeasurements::from_values(&v[1..]), None);
}

#[test]
fn test_size_table_by_name() {
    assert_eq!(
        size_entry("full_bust"),
        Some(SizeEntry { base: Fixed::from_int(88), incr: Fixed::from_int(4) })
    );
    assert_eq!(
        size_entry("shoulder_length"),
        Some(SizeEntry { base: Fixed::from_int(12), incr: Fixed::from_hundredths(40) })
    );
    assert_eq!(
        size_entry("side_waist_to_floor"),
        Some(SizeEntry { base: Fixed::from_hundredths(10550), incr: Fixed::from_int(1) })
    );
    assert_eq!(size_entry("arm_length").unwrap().incr, Fixed::zero());
    assert_eq!(size_entry("Full_bust"), None);
    assert_eq!(size_entry(""), None);
    for (i, name) in FIELD_NAMES.iter().enumerate() {
        assert_eq!(field_index(name), Some(i));
        let e = size_entry(name).unwrap();
        assert_eq!(default_measurements(42).values()[i], e.base.add(e.incr).add(e.incr));
    }
}
