//! The catalog of garments and of the pattern types they are made of.

use crate::fixed::Fixed;
use crate::schemas::{
    garments_view, pattern_types_view, pieces_view, ControlParameterDefinition,
    ControlParameterView, GarmentInfo, GarmentInfoView, MeasurementFieldDefinition,
    MeasurementFieldView, PatternTypeInfo, PatternTypeView, PieceInfo, PieceInfoView,
};
use vstd::prelude::*;

verus! {

/// The piece of the given pattern type under the given label.
pub open spec fn piece_spec(pattern_type: &str, label: &str) -> PieceInfoView {
    PieceInfoView { pattern_type: pattern_type@, label: label@ }
}

/// The garments on offer: the top, made of a bodice and a sleeve.
pub open spec fn garment_catalog_spec() -> Seq<GarmentInfoView> {
    seq![
        GarmentInfoView {
            name: "top"@,
            label: "Top / Bodice Block"@,
            pieces: seq![piece_spec("corset", "Bodice"), piece_spec("sleeve", "Sleeve")],
        },
    ]
}

/// The pieces of all the garments in `garments`, in their order.
pub open spec fn pieces_of(garments: Seq<GarmentInfoView>) -> Seq<PieceInfoView> {
    garments.map_values(|g: GarmentInfoView| g.pieces).flatten()
}

fn piece(pattern_type: &str, label: &str) -> (r: PieceInfo)
    ensures
        r@ == piece_spec(pattern_type, label),
{
    PieceInfo { pattern_type: pattern_type.to_owned(), label: label.to_owned() }
}

/// The garment catalog: the garment types with their pattern pieces.
pub fn garment_catalog() -> (r: Vec<GarmentInfo>)
    ensures
        garments_view(r@) == garment_catalog_spec(),
{
    let mut pieces: Vec<PieceInfo> = Vec::new();
    pieces.push(piece("corset", "Bodice"));
    pieces.push(piece("sleeve", "Sleeve"));
    assert(pieces_view(pieces@) =~= seq![
        piece_spec("corset", "Bodice"),
        piece_spec("sleeve", "Sleeve"),
    ]);
    let mut garments: Vec<GarmentInfo> = Vec::new();
    garments.push(
        GarmentInfo { name: "top".to_owned(), label: "Top / Bodice Block".to_owned(), pieces },
    );
    assert(garments_view(garments@) =~= garment_catalog_spec());
    garments
}

/// The pieces of all the garments in `garments`, in their order.
pub fn collect_pieces(garments: &Vec<GarmentInfo>) -> (r: Vec<PieceInfo>)
    ensures
        pieces_view(r@) == pieces_of(garments_view(garments@)),
{
    let mut all: Vec<PieceInfo> = Vec::new();
    let ghost lists = garments_view(garments@).map_values(|g: GarmentInfoView| g.pieces);
    let mut i: usize = 0;
    proof {
        assert(lists.take(0) =~= Seq::<Seq<PieceInfoView>>::empty());
        assert(pieces_view(all@) =~= lists.take(0).flatten());
    }
    while i < garments.len()
        invariant
            i <= garments.len(),
            lists == garments_view(garments@).map_values(|g: GarmentInfoView| g.pieces),
            pieces_view(all@) == lists.take(i as int).flatten(),
        decreases garments.len() - i,
    {
        let ghost before = all@;
        let mut j: usize = 0;
        while j < garments[i].pieces.len()
            invariant
                i < garments.len(),
                j <= garments[i as int].pieces.len(),
                lists == garments_view(garments@).map_values(|g: GarmentInfoView| g.pieces),
                pieces_view(all@) == pieces_view(before) + lists[i as int].take(j as int),
            decreases garments[i as int].pieces.len() - j,
        {
            let source = &garments[i].pieces[j];
            let copy = PieceInfo {
                pattern_type: source.pattern_type.clone(),
                label: source.label.clone(),
            };
            assert(copy@ == lists[i as int][j as int]);
            let ghost prev = all@;
            all.push(copy);
            assert(pieces_view(all@) =~= pieces_view(prev).push(copy@));
            assert(lists[i as int].take(j + 1) =~= lists[i as int].take(j as int).push(
                lists[i as int][j as int],
            ));
            assert(pieces_view(all@) =~= pieces_view(before) + lists[i as int].take(j + 1));
            j += 1;
        }
        proof {
            assert(lists[i as int].take(j as int) =~= lists[i as int]);
            assert(lists.take(i + 1).drop_last() =~= lists.take(i as int));
            assert(lists.take(i + 1).last() == lists[i as int]);
            lists.take(i + 1).lemma_flatten_and_flatten_alt_are_equivalent();
            lists.take(i as int).lemma_flatten_and_flatten_alt_are_equivalent();
        }
        i += 1;
    }
    assert(lists.take(i as int) =~= lists);
    all
}

/// A flat list of all individual pattern pieces.
pub fn all_pieces() -> (r: Vec<PieceInfo>)
    ensures
        pieces_view(r@) == pieces_of(garment_catalog_spec()),
{
    let garments = garment_catalog();
    collect_pieces(&garments)
}

/// The measurements that the bodice needs.
pub const CORSET_FIELDS: [&'static str; 14] = [
    "back_waist_length",
    "front_waist_length",
    "full_bust",
    "bust_height",
    "half_bust_point_distance",
    "full_waist",
    "small_hip",
    "full_hip",
    "neck_circumference",
    "half_back_width",
    "half_front_width",
    "shoulder_length",
    "underarm_height",
    "waist_to_hip",
];

/// What the measurements of the bodice are called on the draft.
pub const CORSET_FIELD_DESCRIPTIONS: [&'static str; 14] = [
    "Longueur taille dos",
    "Longueur taille devant",
    "Tour de poitrine",
    "Hauteur de poitrine",
    "1/2 écart de poitrine",
    "Tour de taille",
    "Tour des petites hanches",
    "Tour de bassin",
    "Tour d'encollure",
    "1/2 carrure dos",
    "1/2 carrure devant",
    "Longueur d'épaule",
    "Hauteur dessous de bras",
    "Hauteur taille-bassin",
];

/// The measurements that the sleeve needs.
pub const SLEEVE_FIELDS: [&'static str; 5] = [
    "armhole_depth",
    "armhole_measurement",
    "sleeve_length",
    "upper_arm_to_elbow",
    "sleeve_bottom_width",
];

/// What the measurements of the sleeve are called on the draft.
pub const SLEEVE_FIELD_DESCRIPTIONS: [&'static str; 5] = [
    "Profondeur d'emmanchure",
    "Mesure d'emmanchure totale",
    "Longueur de manche",
    "Distance épaule-coude",
    "Largeur bas de manche",
];

/// The control parameters of the bodice.
pub const CORSET_CONTROLS: [&'static str; 5] = [
    "front_neck_center",
    "back_neck_center",
    "front_neck_top",
    "back_neck_top",
    "armhole_curve",
];

/// The defaults of the control parameters of the bodice, in hundredths.
pub const CORSET_CONTROL_DEFAULTS: [i64; 5] = [
    80,
    50,
    34,
    20,
    40,
];

/// What the control parameters of the bodice do.
pub const CORSET_CONTROL_DESCRIPTIONS: [&'static str; 5] = [
    "Ratio for front neck center Bezier control",
    "Ratio for back neck center Bezier control",
    "Ratio for front neck top Bezier control",
    "Ratio for back neck top Bezier control",
    "Ratio for armhole curve offset",
];

/// The control parameters of the sleeve.
pub const SLEEVE_CONTROLS: [&'static str; 2] = [
    "g3_perpendicular",
    "h3_perpendicular",
];

/// The defaults of the control parameters of the sleeve, in hundredths.
pub const SLEEVE_CONTROL_DEFAULTS: [i64; 2] = [
    100,
    150,
];

/// What the control parameters of the sleeve do.
pub const SLEEVE_CONTROL_DESCRIPTIONS: [&'static str; 2] = [
    "Perpendicular offset for G3 (cm)",
    "Perpendicular offset for H3 (cm)",
];

/// The definitions of measurements with the given names and
/// descriptions.
pub open spec fn field_definitions_spec<const N: usize>(
    names: [&'static str; N],
    descriptions: [&'static str; N],
) -> Seq<MeasurementFieldView> {
    Seq::new(
        N as nat,
        |i: int| MeasurementFieldView { name: names[i]@, description: descriptions[i]@ },
    )
}

/// The definitions of control parameters with the given names, defaults
/// (in hundredths) and descriptions.
pub open spec fn control_definitions_spec<const N: usize>(
    names: [&'static str; N],
    defaults: [i64; N],
    descriptions: [&'static str; N],
) -> Seq<ControlParameterView> {
    Seq::new(
        N as nat,
        |i: int|
            ControlParameterView {
                name: names[i]@,
                default: Fixed::from_hundredths(defaults[i]),
                description: descriptions[i]@,
            },
    )
}

/// What is known of the pattern types: the bodice and the sleeve, each
/// with the measurements it requires and the control parameters it takes.
/// Both can be stretched.
pub open spec fn pattern_type_catalog_spec() -> Seq<PatternTypeView> {
    seq![
        PatternTypeView {
            name: "corset"@,
            label: "Corset / Bodice Block"@,
            required_measurements: field_definitions_spec(CORSET_FIELDS, CORSET_FIELD_DESCRIPTIONS),
            control_parameters: control_definitions_spec(
                CORSET_CONTROLS,
                CORSET_CONTROL_DEFAULTS,
                CORSET_CONTROL_DESCRIPTIONS,
            ),
            supports_stretch: true,
        },
        PatternTypeView {
            name: "sleeve"@,
            label: "Jersey Set-In Sleeve"@,
            required_measurements: field_definitions_spec(SLEEVE_FIELDS, SLEEVE_FIELD_DESCRIPTIONS),
            control_parameters: control_definitions_spec(
                SLEEVE_CONTROLS,
                SLEEVE_CONTROL_DEFAULTS,
                SLEEVE_CONTROL_DESCRIPTIONS,
            ),
            supports_stretch: true,
        },
    ]
}

fn field_definitions<const N: usize>(
    names: &[&'static str; N],
    descriptions: &[&'static str; N],
) -> (r: Vec<MeasurementFieldDefinition>)
    ensures
        r@.map_values(|f: MeasurementFieldDefinition| f@) == field_definitions_spec(
            *names,
            *descriptions,
        ),
{
    let mut r: Vec<MeasurementFieldDefinition> = Vec::new();
    let mut i: usize = 0;
    while i < N
        invariant
            i <= N,
            r.len() == i,
            forall|j: int|
                0 <= j < i ==> (#[trigger] r[j])@ == (MeasurementFieldView {
                    name: names[j]@,
                    description: descriptions[j]@,
                }),
        decreases N - i,
    {
        r.push(
            MeasurementFieldDefinition {
                name: names[i].to_owned(),
                description: descriptions[i].to_owned(),
            },
        );
        i += 1;
    }
    assert(r@.map_values(|f: MeasurementFieldDefinition| f@) =~= field_definitions_spec(
        *names,
        *descriptions,
    ));
    r
}

fn control_definitions<const N: usize>(
    names: &[&'static str; N],
    defaults: &[i64; N],
    descriptions: &[&'static str; N],
) -> (r: Vec<ControlParameterDefinition>)
    ensures
        r@.map_values(|c: ControlParameterDefinition| c@) == control_definitions_spec(
            *names,
            *defaults,
            *descriptions,
        ),
{
    let mut r: Vec<ControlParameterDefinition> = Vec::new();
    let mut i: usize = 0;
    while i < N
        invariant
            i <= N,
            r.len() == i,
            forall|j: int|
                0 <= j < i ==> (#[trigger] r[j])@ == (ControlParameterView {
                    name: names[j]@,
                    default: Fixed::from_hundredths(defaults[j]),
                    description: descriptions[j]@,
                }),
        decreases N - i,
    {
        r.push(
            ControlParameterDefinition {
                name: names[i].to_owned(),
                default: Fixed::from_hundredths(defaults[i]),
                description: descriptions[i].to_owned(),
            },
        );
        i += 1;
    }
    assert(r@.map_values(|c: ControlParameterDefinition| c@) =~= control_definitions_spec(
        *names,
        *defaults,
        *descriptions,
    ));
    r
}

/// Metadata for all available pattern types.
pub fn pattern_type_catalog() -> (r: Vec<PatternTypeInfo>)
    ensures
        pattern_types_view(r@) == pattern_type_catalog_spec(),
{
    let mut r: Vec<PatternTypeInfo> = Vec::new();
    r.push(
        PatternTypeInfo {
            name: "corset".to_owned(),
            label: "Corset / Bodice Block".to_owned(),
            required_measurements: field_definitions(&CORSET_FIELDS, &CORSET_FIELD_DESCRIPTIONS),
            control_parameters: control_definitions(
                &CORSET_CONTROLS,
                &CORSET_CONTROL_DEFAULTS,
                &CORSET_CONTROL_DESCRIPTIONS,
            ),
            supports_stretch: true,
        },
    );
    r.push(
        PatternTypeInfo {
            name: "sleeve".to_owned(),
            label: "Jersey Set-In Sleeve".to_owned(),
            required_measurements: field_definitions(&SLEEVE_FIELDS, &SLEEVE_FIELD_DESCRIPTIONS),
            control_parameters: control_definitions(
                &SLEEVE_CONTROLS,
                &SLEEVE_CONTROL_DEFAULTS,
                &SLEEVE_CONTROL_DESCRIPTIONS,
            ),
            supports_stretch: true,
        },
    );
    assert(pattern_types_view(r@) =~= pattern_type_catalog_spec());
    r
}

} // verus!
