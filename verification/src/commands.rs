//! What the application asks of the library: measurements by size or by
//! person, and patterns drafted and drawn on request.

use crate::decimal::{integer, integer_text};
use crate::fixed::Fixed;
use crate::measurements::{
    default_measurements, default_measurements_spec, full_measurements_to_map,
    individual_measurements, individual_measurements_spec, is_standard_size, lowercase,
    map_to_full_measurements, map_to_full_measurements_spec, named_values, text_result,
    FullMeasurements, Person,
};
use crate::patterns::corset::{
    corset_draft, corset_frame, CorsetControlParameters, CorsetMeasurements, CorsetPattern,
    CorsetView,
};
use crate::patterns::stretch::extent_of;
use crate::patterns::corset_sheet::corset_sheet;
use crate::patterns::sleeve::{
    sleeve_pattern, SleeveControlParameters, SleeveMeasurements, SleevePattern, SleeveView,
};
use crate::patterns::sleeve_sheet::sleeve_sheet;
use crate::schemas::{
    PatternRequest, PatternResponse, SavedMeasurementsResponse, StretchInput,
};
use crate::store::LabelMap;
use vstd::prelude::*;
use vstd::string::StringExecFns;

verus! {

/// The standard sizes.
pub open spec fn sizes() -> Seq<i32> {
    seq![34i32, 36i32, 38i32, 40i32, 42i32, 44i32, 46i32, 48i32]
}

/// The standard sizes: the even sizes from 34 to 48.
pub fn fetch_sizes() -> (r: Vec<i32>)
    ensures
        r@ == sizes(),
        forall|size: i32| r@.contains(size) <==> is_standard_size(size),
{
    let mut r: Vec<i32> = Vec::new();
    r.push(34);
    r.push(36);
    r.push(38);
    r.push(40);
    r.push(42);
    r.push(44);
    r.push(46);
    r.push(48);
    assert(r@ =~= sizes());
    assert forall|size: i32| is_standard_size(size) implies r@.contains(size) by {
        let i = (size - 34) / 2;
        assert(r@[i] == size);
    }
    r
}

/// The text that refuses a size.
pub open spec fn size_refusal(size: i32) -> Seq<char> {
    "Size "@ + integer(size as int) + " not available"@
}

/// The measurements of a size, which has to be a standard one.
pub open spec fn fetch_default_measurements_spec(size: i32) -> Result<FullMeasurements, Seq<char>> {
    if is_standard_size(size) {
        Ok(default_measurements_spec(size))
    } else {
        Err(size_refusal(size))
    }
}

/// The measurements of a standard size; any other size is refused.
pub fn fetch_default_measurements(size: i32) -> (r: Result<FullMeasurements, String>)
    ensures
        text_result(r) == fetch_default_measurements_spec(size),
{
    if 34 <= size && size <= 48 && size % 2 == 0 {
        Ok(default_measurements(size))
    } else {
        let mut msg = String::from_str("Size ");
        msg.append(integer_text(size).as_str());
        msg.append(" not available");
        Err(msg)
    }
}

/// The names of the individuals whose measurements are known.
pub fn fetch_presets() -> (r: Vec<String>)
    ensures
        r@.len() == 2,
        r@[0]@ == "kwama"@,
        r@[1]@ == "vivien"@,
{
    let mut r: Vec<String> = Vec::new();
    r.push("kwama".to_string());
    r.push("vivien".to_string());
    r
}

/// The text that reports an unknown individual.
pub open spec fn preset_refusal(person: Seq<char>) -> Seq<char> {
    "Preset '"@ + person + "' not found"@
}

/// The measurements of the individual of the given name.
pub open spec fn fetch_preset_measurements_spec(person: Seq<char>) -> Result<
    FullMeasurements,
    Seq<char>,
> {
    match Person::spec_from_lowercase(lowercase(person)) {
        Some(p) => Ok(individual_measurements_spec(p)),
        None => Err(preset_refusal(person)),
    }
}

/// The measurements of the individual of the given name, whatever the
/// case of its letters; an unknown name is reported.
pub fn fetch_preset_measurements(person: &str) -> (r: Result<FullMeasurements, String>)
    ensures
        text_result(r) == fetch_preset_measurements_spec(person@),
{
    match Person::from_str(person) {
        Some(p) => Ok(individual_measurements(p)),
        None => {
            let mut msg = String::from_str("Preset '");
            msg.append(person);
            msg.append("' not found");
            Err(msg)
        },
    }
}

/// What is shown where no measurements are saved: those of size 38,
/// with none marked as not known.
pub fn default_saved_measurements() -> (r: SavedMeasurementsResponse)
    ensures
        r.size == 38,
        r.values.wf(),
        r.values@ == named_values(default_measurements_spec(38), 24),
        r.idk.wf(),
        r.idk@ == Map::<Seq<char>, bool>::empty(),
{
    let fm = default_measurements(38);
    SavedMeasurementsResponse {
        size: 38,
        values: full_measurements_to_map(&fm),
        idk: LabelMap::new(),
    }
}

/// The saved measurements, or what is shown in their place where none
/// are saved.
pub fn saved_or_default(saved: Option<SavedMeasurementsResponse>) -> (r: SavedMeasurementsResponse)
    ensures
        saved is Some ==> r == saved->Some_0,
        saved is None ==> r.size == 38 && r.values.wf() && r.values@ == named_values(
            default_measurements_spec(38),
            24,
        ) && r.idk.wf() && r.idk@ == Map::<Seq<char>, bool>::empty(),
{
    match saved {
        Some(s) => s,
        None => default_saved_measurements(),
    }
}

/// The value that a mapping holds under `name`, or `default` where it
/// holds none.
pub open spec fn value_or(m: Map<Seq<char>, Fixed>, name: Seq<char>, default: Fixed) -> Fixed {
    if m.contains_key(name) {
        m[name]
    } else {
        default
    }
}

/// The value that a mapping holds under `name`, or `default` where it
/// holds none.
pub fn get_or(m: &LabelMap<Fixed>, name: &str, default: Fixed) -> (r: Fixed)
    requires
        m.wf(),
    ensures
        r == value_or(m@, name@, default),
{
    match m.get(name) {
        Some(v) => v,
        None => default,
    }
}

/// The view of a mapping that may be missing.
pub open spec fn overrides(params: Option<LabelMap<Fixed>>) -> Map<Seq<char>, Fixed> {
    match params {
        Some(m) => m@,
        None => Map::empty(),
    }
}

/// The control parameters of the bodice: each as the request gives it,
/// or else its default.
pub open spec fn corset_control_spec(params: Map<Seq<char>, Fixed>) -> CorsetControlParameters {
    let d = CorsetControlParameters::spec_default();
    CorsetControlParameters {
        front_neck_center: value_or(params, "front_neck_center"@, d.front_neck_center),
        back_neck_center: value_or(params, "back_neck_center"@, d.back_neck_center),
        front_neck_top: value_or(params, "front_neck_top"@, d.front_neck_top),
        back_neck_top: value_or(params, "back_neck_top"@, d.back_neck_top),
        armhole_curve: value_or(params, "armhole_curve"@, d.armhole_curve),
    }
}

/// The control parameters of the bodice: each as the request gives it,
/// or else its default.
pub fn corset_control(params: &Option<LabelMap<Fixed>>) -> (r: CorsetControlParameters)
    requires
        params is Some ==> params->Some_0.wf(),
    ensures
        r == corset_control_spec(overrides(*params)),
{
    let d = CorsetControlParameters::default();
    match params {
        Some(m) => CorsetControlParameters {
            front_neck_center: get_or(m, "front_neck_center", d.front_neck_center),
            back_neck_center: get_or(m, "back_neck_center", d.back_neck_center),
            front_neck_top: get_or(m, "front_neck_top", d.front_neck_top),
            back_neck_top: get_or(m, "back_neck_top", d.back_neck_top),
            armhole_curve: get_or(m, "armhole_curve", d.armhole_curve),
        },
        None => d,
    }
}

/// The control parameters of the sleeve: each as the request gives it,
/// or else its default.
pub open spec fn sleeve_control_spec(params: Map<Seq<char>, Fixed>) -> SleeveControlParameters {
    let d = SleeveControlParameters::spec_default();
    SleeveControlParameters {
        g3_perpendicular: value_or(params, "g3_perpendicular"@, d.g3_perpendicular),
        h3_perpendicular: value_or(params, "h3_perpendicular"@, d.h3_perpendicular),
    }
}

/// The control parameters of the sleeve: each as the request gives it,
/// or else its default.
pub fn sleeve_control(params: &Option<LabelMap<Fixed>>) -> (r: SleeveControlParameters)
    requires
        params is Some ==> params->Some_0.wf(),
    ensures
        r == sleeve_control_spec(overrides(*params)),
{
    let d = SleeveControlParameters::default();
    match params {
        Some(m) => SleeveControlParameters {
            g3_perpendicular: get_or(m, "g3_perpendicular", d.g3_perpendicular),
            h3_perpendicular: get_or(m, "h3_perpendicular", d.h3_perpendicular),
        },
        None => d,
    }
}

/// The measurements of the sleeve that a request asks for. Where it names
/// the armhole depth it speaks of the sleeve itself, and what it leaves
/// out is taken from size 38 (with a bottom width of 20 cm); else it has
/// to hold the full set.
pub open spec fn sleeve_measurements_spec(m: Map<Seq<char>, Fixed>) -> Result<
    SleeveMeasurements,
    Seq<char>,
> {
    if m.contains_key("armhole_depth"@) {
        Ok(
            SleeveMeasurements {
                armhole_depth: value_or(m, "armhole_depth"@, Fixed::from_hundredths(2150)),
                armhole_measurement: value_or(
                    m,
                    "armhole_measurement"@,
                    Fixed::from_hundredths(3950),
                ),
                sleeve_length: value_or(m, "sleeve_length"@, Fixed::from_int(60)),
                upper_arm_to_elbow: value_or(m, "upper_arm_to_elbow"@, Fixed::from_int(35)),
                sleeve_bottom_width: value_or(m, "sleeve_bottom_width"@, Fixed::from_int(20)),
            },
        )
    } else {
        match map_to_full_measurements_spec(m) {
            Ok(fm) => Ok(SleeveMeasurements::spec_from_full(fm)),
            Err(msg) => Err(msg),
        }
    }
}

/// The measurements of the sleeve that a request asks for.
pub fn sleeve_measurements(m: &LabelMap<Fixed>) -> (r: Result<SleeveMeasurements, String>)
    requires
        m.wf(),
    ensures
        text_result(r) == sleeve_measurements_spec(m@),
{
    if m.contains("armhole_depth") {
        Ok(
            SleeveMeasurements {
                armhole_depth: get_or(m, "armhole_depth", Fixed::from_hundredths(2150)),
                armhole_measurement: get_or(m, "armhole_measurement", Fixed::from_hundredths(3950)),
                sleeve_length: get_or(m, "sleeve_length", Fixed::from_int(60)),
                upper_arm_to_elbow: get_or(m, "upper_arm_to_elbow", Fixed::from_int(35)),
                sleeve_bottom_width: get_or(m, "sleeve_bottom_width", Fixed::from_int(20)),
            },
        )
    } else {
        match map_to_full_measurements(m) {
            Ok(fm) => Ok(SleeveMeasurements::from_full(&fm)),
            Err(msg) => Err(msg),
        }
    }
}

/// The two drawings of a pattern: the reference sheet and the clean
/// pattern.
pub struct Sheets {
    pub construction: Seq<char>,
    pub pattern: Seq<char>,
}

/// The blocks that can be drafted.
#[derive(Clone, Copy, Debug, PartialEq, Eq, Structural)]
pub enum PatternKind {
    Corset,
    Sleeve,
}

impl PatternKind {
    /// The block that a request means by its pattern type.
    pub open spec fn spec_from_tag(tag: Seq<char>) -> Option<PatternKind> {
        if tag == "corset"@ {
            Some(PatternKind::Corset)
        } else if tag == "sleeve"@ {
            Some(PatternKind::Sleeve)
        } else {
            None
        }
    }

    /// The block that a request means by its pattern type: `corset` or
    /// `sleeve`.
    pub fn from_tag(tag: &str) -> (r: Option<PatternKind>)
        ensures
            r == PatternKind::spec_from_tag(tag@),
    {
        let tag = tag.to_owned();
        if tag == "corset".to_owned() {
            Some(PatternKind::Corset)
        } else if tag == "sleeve".to_owned() {
            Some(PatternKind::Sleeve)
        } else {
            None
        }
    }

    /// The pattern type that means this block.
    pub fn tag(self) -> (r: &'static str)
        ensures
            PatternKind::spec_from_tag(r@) == Some(self),
    {
        proof {
            reveal_strlit("corset");
            reveal_strlit("sleeve");
            assert("corset"@[0] == 'c' && "sleeve"@[0] == 's');
        }
        match self {
            PatternKind::Corset => "corset",
            PatternKind::Sleeve => "sleeve",
        }
    }
}

/// The text that reports an unknown pattern type.
pub open spec fn type_refusal(pattern_type: Seq<char>) -> Seq<char> {
    "Unknown pattern type: "@ + pattern_type
}

/// The state of a freshly drafted pattern after the stretch that a
/// request asks for, if it asks for one.
pub open spec fn after_stretch(
    state: crate::patterns::stretch::StretchState,
    stretch: Option<StretchInput>,
) -> crate::patterns::stretch::StretchState {
    match stretch {
        Some(s) => state.request_stretch(s.horizontal, s.vertical, s.usage).0,
        None => state,
    }
}

/// The drawings of the bodice for the measurements, control parameters
/// and stretch of a request.
pub open spec fn generate_corset_spec(
    measurements: Map<Seq<char>, Fixed>,
    params: Map<Seq<char>, Fixed>,
    stretch: Option<StretchInput>,
) -> Result<Sheets, Seq<char>> {
    match map_to_full_measurements_spec(measurements) {
        Err(msg) => Err(msg),
        Ok(fm) => match CorsetMeasurements::spec_from_full(fm) {
            Err(e) => Err(e.spec_message()),
            Ok(cm) => {
                let control = corset_control_spec(params);
                match corset_draft(cm, control) {
                    Err(e) => Err(e.spec_message()),
                    Ok(state) => {
                        let p = CorsetView {
                            base: after_stretch(state, stretch),
                            m: cm,
                            b: control,
                            pattern_gap: Fixed::from_int(5),
                            bounds: corset_frame(extent_of(state.points)),
                        }.framed();
                        Ok(
                            Sheets {
                                construction: corset_sheet(p, "construction"@),
                                pattern: corset_sheet(p, "pattern"@),
                            },
                        )
                    },
                }
            },
        },
    }
}

/// The drawings of the sleeve for the measurements, control parameters
/// and stretch of a request. The frame is the one of the sleeve as
/// drafted, whether it is stretched or not.
pub open spec fn generate_sleeve_spec(
    measurements: Map<Seq<char>, Fixed>,
    params: Map<Seq<char>, Fixed>,
    stretch: Option<StretchInput>,
) -> Result<Sheets, Seq<char>> {
    match sleeve_measurements_spec(measurements) {
        Err(msg) => Err(msg),
        Ok(sm) => {
            let drafted = sleeve_pattern(sm, sleeve_control_spec(params));
            let p = SleeveView { base: after_stretch(drafted.base, stretch), ..drafted };
            Ok(
                Sheets {
                    construction: sleeve_sheet(p, "construction"@),
                    pattern: sleeve_sheet(p, "pattern"@),
                },
            )
        },
    }
}

/// The drawings that a request asks for, or the report of what is wrong
/// with it.
pub open spec fn generate_pattern_spec(
    pattern_type: Seq<char>,
    measurements: Map<Seq<char>, Fixed>,
    params: Map<Seq<char>, Fixed>,
    stretch: Option<StretchInput>,
) -> Result<Sheets, Seq<char>> {
    match PatternKind::spec_from_tag(pattern_type) {
        Some(PatternKind::Corset) => generate_corset_spec(measurements, params, stretch),
        Some(PatternKind::Sleeve) => generate_sleeve_spec(measurements, params, stretch),
        None => Err(type_refusal(pattern_type)),
    }
}

/// What an answer says: its two drawings, where it is one without
/// warnings.
pub open spec fn answer(r: Result<PatternResponse, String>) -> Result<Sheets, Seq<char>> {
    match r {
        Ok(response) => Ok(
            Sheets { construction: response.construction_svg@, pattern: response.pattern_svg@ },
        ),
        Err(msg) => Err(msg@),
    }
}

fn generate_corset(
    measurements: &LabelMap<Fixed>,
    params: &Option<LabelMap<Fixed>>,
    stretch: &Option<StretchInput>,
) -> (r: Result<PatternResponse, String>)
    requires
        measurements.wf(),
        params is Some ==> params->Some_0.wf(),
    ensures
        answer(r) == generate_corset_spec(measurements@, overrides(*params), *stretch),
        r is Ok ==> r->Ok_0.warnings@.len() == 0,
{
    let fm = match map_to_full_measurements(measurements) {
        Ok(fm) => fm,
        Err(msg) => {
            return Err(msg);
        },
    };
    let cm = match CorsetMeasurements::from_full(&fm) {
        Ok(cm) => cm,
        Err(e) => {
            return Err(e.message());
        },
    };
    let control = corset_control(params);
    let mut pattern = match CorsetPattern::new(cm, control) {
        Ok(p) => p,
        Err(e) => {
            return Err(e.message());
        },
    };
    match stretch {
        Some(s) => {
            match pattern.stretch(s.horizontal, s.vertical, s.usage) {
                Ok(()) => {},
                Err(msg) => {
                    return Err(msg);
                },
            }
        },
        None => {},
    }
    let construction_svg = pattern.render_svg("construction");
    let pattern_svg = pattern.render_svg("pattern");
    Ok(PatternResponse { construction_svg, pattern_svg, warnings: Vec::new() })
}

fn generate_sleeve(
    measurements: &LabelMap<Fixed>,
    params: &Option<LabelMap<Fixed>>,
    stretch: &Option<StretchInput>,
) -> (r: Result<PatternResponse, String>)
    requires
        measurements.wf(),
        params is Some ==> params->Some_0.wf(),
    ensures
        answer(r) == generate_sleeve_spec(measurements@, overrides(*params), *stretch),
        r is Ok ==> r->Ok_0.warnings@.len() == 0,
{
    let sm = match sleeve_measurements(measurements) {
        Ok(sm) => sm,
        Err(msg) => {
            return Err(msg);
        },
    };
    let control = sleeve_control(params);
    let mut pattern = SleevePattern::new(sm, control);
    match stretch {
        Some(s) => {
            match pattern.stretch(s.horizontal, s.vertical, s.usage) {
                Ok(()) => {},
                Err(msg) => {
                    return Err(msg);
                },
            }
        },
        None => {},
    }
    let construction_svg = pattern.render_svg("construction");
    let pattern_svg = pattern.render_svg("pattern");
    Ok(PatternResponse { construction_svg, pattern_svg, warnings: Vec::new() })
}

impl PatternRequest {
    /// Well-formedness of the mappings of the request.
    pub open spec fn wf(&self) -> bool {
        &&& self.measurements.wf()
        &&& self.control_parameters is Some ==> self.control_parameters->Some_0.wf()
    }
}

/// Drafts the pattern that a request asks for and draws it twice, as a
/// reference sheet and as a clean pattern.
///
/// The pattern type is `corset` or `sleeve`. The bodice needs the full set
/// of measurements; the sleeve takes its own five, or the full set.
/// Control parameters that the request leaves out have their defaults. A
/// stretch, if asked for, is applied once before drawing. There are no
/// warnings.
pub fn generate_pattern(request: &PatternRequest) -> (r: Result<PatternResponse, String>)
    requires
        request.wf(),
    ensures
        answer(r) == generate_pattern_spec(
            request.pattern_type@,
            request.measurements@,
            overrides(request.control_parameters),
            request.stretch,
        ),
        r is Ok ==> r->Ok_0.warnings@.len() == 0,
{
    match PatternKind::from_tag(request.pattern_type.as_str()) {
        Some(PatternKind::Corset) => generate_corset(
            &request.measurements,
            &request.control_parameters,
            &request.stretch,
        ),
        Some(PatternKind::Sleeve) => generate_sleeve(
            &request.measurements,
            &request.control_parameters,
            &request.stretch,
        ),
        None => {
            let mut msg = String::from_str("Unknown pattern type: ");
            msg.append(request.pattern_type.as_str());
            Err(msg)
        },
    }
}

} // verus!
