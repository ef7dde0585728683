//! The records that requests and answers are made of.

use crate::fixed::Fixed;
use crate::store::LabelMap;
use vstd::prelude::*;

verus! {

/// The size that a request for saved measurements means where it names
/// none.
pub fn default_size() -> (r: i32)
    ensures
        r == 38,
{
    38
}

/// The usage of the fabric's stretch that a request means where it names
/// none: all of it.
pub fn default_usage() -> (r: Fixed)
    ensures
        r == Fixed::one(),
{
    Fixed::one()
}

/// The output format that a request means where it names none.
pub fn default_output_format() -> (r: String)
    ensures
        r@ == "all"@,
{
    "all".to_string()
}

/// A request to save the user's measurements.
pub struct SavedMeasurementsRequest {
    pub size: i32,
    pub values: LabelMap<Fixed>,
    /// The measurements that the user has marked as not known.
    pub idk: Option<LabelMap<bool>>,
}

/// The measurements that are saved.
pub struct SavedMeasurementsResponse {
    pub size: i32,
    pub values: LabelMap<Fixed>,
    pub idk: LabelMap<bool>,
}

/// How far a fabric stretches and how much of that is to be used.
#[derive(Clone, Copy, Debug, PartialEq, Eq, Structural)]
pub struct StretchInput {
    pub horizontal: Fixed,
    pub vertical: Fixed,
    pub usage: Fixed,
}

impl Default for StretchInput {
    fn default() -> (r: Self)
        ensures
            r == (StretchInput {
                horizontal: Fixed::zero(),
                vertical: Fixed::zero(),
                usage: Fixed::one(),
            }),
    {
        StretchInput { horizontal: Fixed::zero(), vertical: Fixed::zero(), usage: default_usage() }
    }
}

/// A request to draft a pattern.
pub struct PatternRequest {
    pub pattern_type: String,
    pub measurements: LabelMap<Fixed>,
    /// Control parameters to use in place of their defaults.
    pub control_parameters: Option<LabelMap<Fixed>>,
    pub stretch: Option<StretchInput>,
    pub output_format: String,
}

/// A drafted pattern as two drawings.
#[derive(Clone, Debug)]
pub struct PatternResponse {
    pub construction_svg: String,
    pub pattern_svg: String,
    pub warnings: Vec<String>,
}

/// A single pattern piece within a garment.
#[derive(Clone, Debug)]
pub struct PieceInfo {
    pub pattern_type: String,
    pub label: String,
}

/// What a [`PieceInfo`] says.
pub struct PieceInfoView {
    pub pattern_type: Seq<char>,
    pub label: Seq<char>,
}

impl View for PieceInfo {
    type V = PieceInfoView;

    open spec fn view(&self) -> PieceInfoView {
        PieceInfoView { pattern_type: self.pattern_type@, label: self.label@ }
    }
}

/// What a list of pieces says.
pub open spec fn pieces_view(pieces: Seq<PieceInfo>) -> Seq<PieceInfoView> {
    pieces.map_values(|p: PieceInfo| p@)
}

/// A garment type with its constituent pattern pieces.
#[derive(Clone, Debug)]
pub struct GarmentInfo {
    pub name: String,
    pub label: String,
    pub pieces: Vec<PieceInfo>,
}

/// What a [`GarmentInfo`] says.
pub struct GarmentInfoView {
    pub name: Seq<char>,
    pub label: Seq<char>,
    pub pieces: Seq<PieceInfoView>,
}

impl View for GarmentInfo {
    type V = GarmentInfoView;

    open spec fn view(&self) -> GarmentInfoView {
        GarmentInfoView {
            name: self.name@,
            label: self.label@,
            pieces: pieces_view(self.pieces@),
        }
    }
}

/// What a list of garments says.
pub open spec fn garments_view(garments: Seq<GarmentInfo>) -> Seq<GarmentInfoView> {
    garments.map_values(|g: GarmentInfo| g@)
}

/// A control parameter of a pattern type.
#[derive(Clone, Debug)]
pub struct ControlParameterDefinition {
    pub name: String,
    pub default: Fixed,
    pub description: String,
}

/// What a [`ControlParameterDefinition`] says.
pub struct ControlParameterView {
    pub name: Seq<char>,
    pub default: Fixed,
    pub description: Seq<char>,
}

impl View for ControlParameterDefinition {
    type V = ControlParameterView;

    open spec fn view(&self) -> ControlParameterView {
        ControlParameterView {
            name: self.name@,
            default: self.default,
            description: self.description@,
        }
    }
}

/// A measurement that a pattern type requires.
#[derive(Clone, Debug)]
pub struct MeasurementFieldDefinition {
    pub name: String,
    pub description: String,
}

/// What a [`MeasurementFieldDefinition`] says.
pub struct MeasurementFieldView {
    pub name: Seq<char>,
    pub description: Seq<char>,
}

impl View for MeasurementFieldDefinition {
    type V = MeasurementFieldView;

    open spec fn view(&self) -> MeasurementFieldView {
        MeasurementFieldView { name: self.name@, description: self.description@ }
    }
}

/// What a pattern type needs and offers.
#[derive(Clone, Debug)]
pub struct PatternTypeInfo {
    pub name: String,
    pub label: String,
    pub required_measurements: Vec<MeasurementFieldDefinition>,
    pub control_parameters: Vec<ControlParameterDefinition>,
    pub supports_stretch: bool,
}

/// What a [`PatternTypeInfo`] says.
pub struct PatternTypeView {
    pub name: Seq<char>,
    pub label: Seq<char>,
    pub required_measurements: Seq<MeasurementFieldView>,
    pub control_parameters: Seq<ControlParameterView>,
    pub supports_stretch: bool,
}

impl View for PatternTypeInfo {
    type V = PatternTypeView;

    open spec fn view(&self) -> PatternTypeView {
        PatternTypeView {
            name: self.name@,
            label: self.label@,
            required_measurements: self.required_measurements@.map_values(
                |f: MeasurementFieldDefinition| f@,
            ),
            control_parameters: self.control_parameters@.map_values(
                |c: ControlParameterDefinition| c@,
            ),
            supports_stretch: self.supports_stretch,
        }
    }
}

/// What a list of pattern types says.
pub open spec fn pattern_types_view(types: Seq<PatternTypeInfo>) -> Seq<PatternTypeView> {
    types.map_values(|t: PatternTypeInfo| t@)
}

} // verus!
