use couture_core::fixed::Fixed;
use couture_core::store::LabelMap;

#[test]
fn test_label_map_insert_and_get() {
    let mut m: LabelMap<Fixed> = LabelMap::new();
    assert_eq!(m.len(), 0);
    assert_eq!(m.get("A"), None);
    assert!(!m.contains("A"));
    m.insert("A", Fixed::from_int(1));
    m.insert("A1", Fixed::from_int(2));
    m.insert("I'", Fixed::from_int(3));
    assert_eq!(m.len(), 3);
    assert_eq!(m.get("A"), Some(Fixed::from_int(1)));
    assert_eq!(m.get("A1"), Some(Fixed::from_int(2)));
    assert_eq!(m.get("I'"), Some(Fixed::from_int(3)));
    assert_eq!(m.get("a"), None);
    assert_eq!(m.get(""), None);
    assert!(m.contains("A1"));
}

#[test]
fn test_label_map_last_write_wins_and_keeps_its_place() {
    let mut m: LabelMap<Fixed> = LabelMap::new();
    m.insert("A", Fixed::from_int(1));
    m.insert("B", Fixed::from_int(2));
    m.insert("A", Fixed::from_int(3));
    assert_eq!(m.len(), 2);
    assert_eq!(m.get("A"), Some(Fixed::from_int(3)));
    assert_eq!(m.label_at(0), "A");
    assert_eq!(m.label_at(1), "B");
    assert_eq!(m.value_at(0), Fixed::from_int(3));
    assert_eq!(m.value_at(1), Fixed::from_int(2));
    assert_eq!(m.position("B"), Some(1));
    assert_eq!(m.position("C"), None);
}

#[test]
fn test_label_map_set_value_at() {
    let mut m: LabelMap<bool> = LabelMap::new();
    m.insert("x", false);
    m.insert("y", false);
    m.set_value_at(1, true);
    assert_eq!(m.get("x"), Some(false));
    assert_eq!(m.get("y"), Some(true));
    assert_eq!(m.label_at(1), "y");
    assert_eq!(m.len(), 2);
}
