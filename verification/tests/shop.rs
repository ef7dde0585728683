use couture_core::fixed::Fixed;
use couture_core::shop::{all_pieces, collect_pieces, garment_catalog, pattern_type_catalog};

#[test]
fn test_garment_catalog() {
    let g = garment_catalog();
    assert_eq!(g.len(), 1);
    assert_eq!(g[0].name, "top");
    assert_eq!(g[0].label, "Top / Bodice Block");
    assert_eq!(g[0].pieces.len(), 2);
    assert_eq!(g[0].pieces[0].pattern_type, "corset");
    assert_eq!(g[0].pieces[0].label, "Bodice");
    assert_eq!(g[0].pieces[1].pattern_type, "sleeve");
    assert_eq!(g[0].pieces[1].label, "Sleeve");
}

#[test]
fn test_all_pieces() {
    let p = all_pieces();
    assert_eq!(p.len(), 2);
    assert_eq!((p[0].pattern_type.as_str(), p[0].label.as_str()), ("corset", "Bodice"));
    assert_eq!((p[1].pattern_type.as_str(), p[1].label.as_str()), ("sleeve", "Sleeve"));
}

#[test]
fn test_collect_pieces_keeps_the_order_of_the_garments() {
    let mut garments = garment_catalog();
    let mut more = garment_catalog();
    more[0].pieces.reverse();
    more[0].pieces.truncate(1);
    garments.append(&mut more);
    garments.push(couture_core::schemas::GarmentInfo {
        name: "none".to_string(),
        label: "Nothing".to_string(),
        pieces: vec![],
    });
    let p = collect_pieces(&garments);
    let labels: Vec<&str> = p.iter().map(|x| x.label.as_str()).collect();
    assert_eq!(labels, vec!["Bodice", "Sleeve", "Sleeve"]);
    assert_eq!(collect_pieces(&vec![]).len(), 0);
}

#[test]
fn test_pattern_type_catalog() {
    let t = pattern_type_catalog();
    assert_eq!(t.len(), 2);
    assert_eq!(t[0].name, "corset");
    assert_eq!(t[0].label, "Corset / Bodice Block");
    assert!(t[0].supports_stretch);
    assert_eq!(t[0].required_measurements.len(), 14);
    assert_eq!(t[0].required_measurements[0].name, "back_waist_length");
    assert_eq!(t[0].required_measurements[0].description, "Longueur taille dos");
    assert_eq!(t[0].required_measurements[4].description, "1/2 écart de poitrine");
    assert_eq!(t[0].required_measurements[13].name, "waist_to_hip");
    assert_eq!(t[0].control_parameters.len(), 5);
    assert_eq!(t[0].control_parameters[2].name, "front_neck_top");
    assert_eq!(t[0].control_parameters[2].default, Fixed::from_hundredths(34));
    assert_eq!(
        t[0].control_parameters[4].description,
        "Ratio for armhole curve offset"
    );
    assert_eq!(t[1].name, "sleeve");
    assert_eq!(t[1].label, "Jersey Set-In Sleeve");
    assert!(t[1].supports_stretch);
    assert_eq!(t[1].required_measurements.len(), 5);
    assert_eq!(t[1].required_measurements[3].name, "upper_arm_to_elbow");
    assert_eq!(t[1].required_measurements[3].description, "Distance épaule-coude");
    assert_eq!(t[1].control_parameters.len(), 2);
    assert_eq!(t[1].control_parameters[0].default, Fixed::from_int(1));
    assert_eq!(t[1].control_parameters[1].name, "h3_perpendicular");
    assert_eq!(t[1].control_parameters[1].default, Fixed::from_hundredths(150));
}
