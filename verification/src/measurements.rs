//! Body measurements: the full set, the table of standard sizes and the
//! measurements of known individuals.

use crate::fixed::{Fixed, HUNDREDTH, SCALE};
use crate::store::LabelMap;
use vstd::prelude::*;
use vstd::string::StringExecFns;

verus! {

/// The number of measurements in a full set.
pub const FIELD_COUNT: usize = 24;

/// The names of the measurements, in the order of the French drafting
/// standard.
pub const FIELD_NAMES: [&'static str; 24] = [
    "back_waist_length",
    "front_waist_length",
    "full_bust",
    "bust_height",
    "half_bust_point_distance",
    "full_waist",
    "small_hip",
    "full_hip",
    "neck_circumference",
    "half_back_width",
    "half_front_width",
    "shoulder_length",
    "armhole_circumference",
    "underarm_height",
    "arm_length",
    "upper_arm",
    "elbow_height",
    "wrist",
    "waist_to_hip",
    "crotch_depth",
    "crotch_length",
    "waist_to_knee",
    "waist_to_floor",
    "side_waist_to_floor",
];

/// The measurements of size 38, in hundredths of a centimetre.
pub const SIZE_BASE: [i64; 24] = [
    4100, 3700, 8800, 2200, 925, 6800, 8500, 9400,
    3600, 1750, 1650, 1200, 3950, 2150, 6000, 2600,
    3500, 1600, 2200, 2650, 6000, 5800, 10500, 10550,
];

/// What each measurement grows by from one size to the next (two units of
/// size), in hundredths of a centimetre.
pub const SIZE_INCREMENT: [i64; 24] = [
    50, 50, 400, 50, 25, 400, 400, 400,
    100, 25, 25, 40, 100, 25, 0, 100,
    0, 25, 0, 50, 200, 100, 50, 100,
];

/// The measurements of Vivien, in hundredths of a centimetre.
pub const VIVIEN: [i64; 24] = [
    4350, 3950, 10200, 2200, 1100, 8300, 9400, 10100,
    4000, 1950, 1850, 1300, 5000, 2250, 6600, 3300,
    4000, 1750, 2500, 3200, 8500, 6700, 12600, 12700,
];

/// The measurements of Kwama, in hundredths of a centimetre.
pub const KWAMA: [i64; 24] = [
    4050, 3650, 9000, 2200, 950, 7300, 8050, 10000,
    3600, 1750, 1650, 1200, 4000, 2200, 6000, 2800,
    3300, 1500, 2200, 2650, 6200, 5800, 10500, 10600,
];

/// The size that the table is based on.
pub const BASE_SIZE: i32 = 38;

/// Complete body measurements in centimetres.
#[derive(Clone, Copy, Debug, PartialEq, Eq, Structural)]
pub struct FullMeasurements {
    /// 1. Longueur taille dos
    pub back_waist_length: Fixed,
    /// 2. Longueur taille devant
    pub front_waist_length: Fixed,
    /// 3. Tour de poitrine
    pub full_bust: Fixed,
    /// 4. Hauteur de poitrine
    pub bust_height: Fixed,
    /// 5. 1/2 ecart de poitrine
    pub half_bust_point_distance: Fixed,
    /// 6. Tour de taille
    pub full_waist: Fixed,
    /// 7. Tour des petites hanches
    pub small_hip: Fixed,
    /// 8. Tour de bassin
    pub full_hip: Fixed,
    /// 9. Tour d'encolure
    pub neck_circumference: Fixed,
    /// 10. 1/2 carrure dos
    pub half_back_width: Fixed,
    /// 11. 1/2 carrure devant
    pub half_front_width: Fixed,
    /// 12. Longueur d'epaule
    pub shoulder_length: Fixed,
    /// 13. Tour d'emmanchure
    pub armhole_circumference: Fixed,
    /// 14. Hauteur dessous de bras
    pub underarm_height: Fixed,
    /// 15. Longueur de bras
    pub arm_length: Fixed,
    /// 16. Grosseur de bras
    pub upper_arm: Fixed,
    /// 17. Hauteur coude
    pub elbow_height: Fixed,
    /// 18. Tour de poignet
    pub wrist: Fixed,
    /// 19. Hauteur taille-bassin
    pub waist_to_hip: Fixed,
    /// 20. Hauteur de montant
    pub crotch_depth: Fixed,
    /// 21. Enfourchure
    pub crotch_length: Fixed,
    /// 22. Hauteur taille au genou
    pub waist_to_knee: Fixed,
    /// 23. Hauteur taille a terre
    pub waist_to_floor: Fixed,
    /// 24. Hauteur taille cote a terre
    pub side_waist_to_floor: Fixed,
}

impl FullMeasurements {
    /// The set whose measurements are the first 24 entries of `v`, in the
    /// order of [`FIELD_NAMES`].
    pub open spec fn spec_from_values(v: Seq<Fixed>) -> FullMeasurements {
        FullMeasurements {
            back_waist_length: v[0],
            front_waist_length: v[1],
            full_bust: v[2],
            bust_height: v[3],
            half_bust_point_distance: v[4],
            full_waist: v[5],
            small_hip: v[6],
            full_hip: v[7],
            neck_circumference: v[8],
            half_back_width: v[9],
            half_front_width: v[10],
            shoulder_length: v[11],
            armhole_circumference: v[12],
            underarm_height: v[13],
            arm_length: v[14],
            upper_arm: v[15],
            elbow_height: v[16],
            wrist: v[17],
            waist_to_hip: v[18],
            crotch_depth: v[19],
            crotch_length: v[20],
            waist_to_knee: v[21],
            waist_to_floor: v[22],
            side_waist_to_floor: v[23],
        }
    }

    /// The measurements in the order of [`FIELD_NAMES`].
    pub open spec fn spec_values(self) -> Seq<Fixed> {
        seq![
            self.back_waist_length,
            self.front_waist_length,
            self.full_bust,
            self.bust_height,
            self.half_bust_point_distance,
            self.full_waist,
            self.small_hip,
            self.full_hip,
            self.neck_circumference,
            self.half_back_width,
            self.half_front_width,
            self.shoulder_length,
            self.armhole_circumference,
            self.underarm_height,
            self.arm_length,
            self.upper_arm,
            self.elbow_height,
            self.wrist,
            self.waist_to_hip,
            self.crotch_depth,
            self.crotch_length,
            self.waist_to_knee,
            self.waist_to_floor,
            self.side_waist_to_floor,
        ]
    }

    /// The set with the given measurements, in the order of
    /// [`FIELD_NAMES`]; none unless there are exactly 24.
    pub fn from_values(values: &[Fixed]) -> (r: Option<FullMeasurements>)
        ensures
            r == if values@.len() == 24 {
                Some(FullMeasurements::spec_from_values(values@))
            } else {
                None
            },
    {
        if values.len() != 24 {
            None
        } else {
            Some(
                FullMeasurements {
                back_waist_length: values[0],
                front_waist_length: values[1],
                full_bust: values[2],
                bust_height: values[3],
                half_bust_point_distance: values[4],
                full_waist: values[5],
                small_hip: values[6],
                full_hip: values[7],
                neck_circumference: values[8],
                half_back_width: values[9],
                half_front_width: values[10],
                shoulder_length: values[11],
                armhole_circumference: values[12],
                underarm_height: values[13],
                arm_length: values[14],
                upper_arm: values[15],
                elbow_height: values[16],
                wrist: values[17],
                waist_to_hip: values[18],
                crotch_depth: values[19],
                crotch_length: values[20],
                waist_to_knee: values[21],
                waist_to_floor: values[22],
                side_waist_to_floor: values[23],
                },
            )
        }
    }

    /// The measurements in the order of [`FIELD_NAMES`].
    pub fn values(&self) -> (v: Vec<Fixed>)
        ensures
            v@ == self.spec_values(),
    {
        let mut v: Vec<Fixed> = Vec::new();
        v.push(self.back_waist_length);
        v.push(self.front_waist_length);
        v.push(self.full_bust);
        v.push(self.bust_height);
        v.push(self.half_bust_point_distance);
        v.push(self.full_waist);
        v.push(self.small_hip);
        v.push(self.full_hip);
        v.push(self.neck_circumference);
        v.push(self.half_back_width);
        v.push(self.half_front_width);
        v.push(self.shoulder_length);
        v.push(self.armhole_circumference);
        v.push(self.underarm_height);
        v.push(self.arm_length);
        v.push(self.upper_arm);
        v.push(self.elbow_height);
        v.push(self.wrist);
        v.push(self.waist_to_hip);
        v.push(self.crotch_depth);
        v.push(self.crotch_length);
        v.push(self.waist_to_knee);
        v.push(self.waist_to_floor);
        v.push(self.side_waist_to_floor);
        assert(v@ =~= self.spec_values());
        v
    }
}

/// Taking a set apart and putting it together again gives the same set.
pub proof fn lemma_values_round_trip(m: FullMeasurements)
    ensures
        m.spec_values().len() == 24,
        FullMeasurements::spec_from_values(m.spec_values()) == m,
{
}

/// One line of the table of sizes: what a measurement is at size 38 and
/// what it grows by from one size to the next.
#[derive(Clone, Copy, Debug, PartialEq, Eq, Structural)]
pub struct SizeEntry {
    pub base: Fixed,
    pub incr: Fixed,
}

/// The place of the measurement called `name`, if there is one.
pub open spec fn field_place(name: Seq<char>) -> Option<int> {
    if exists|i: int| 0 <= i < 24 && FIELD_NAMES[i]@ == name {
        Some(choose|i: int| 0 <= i < 24 && FIELD_NAMES[i]@ == name)
    } else {
        None
    }
}

/// The place of the measurement called `name` in the order of
/// [`FIELD_NAMES`], if there is one of that name.
pub fn field_index(name: &str) -> (r: Option<usize>)
    ensures
        match r {
            Some(i) => i < 24 && FIELD_NAMES[i as int]@ == name@ && field_place(name@) == Some(
                i as int,
            ),
            None => field_place(name@) is None && forall|i: int|
                0 <= i < 24 ==> FIELD_NAMES[i]@ != name@,
        },
{
    let wanted = name.to_owned();
    let mut i: usize = 0;
    while i < 24
        invariant
            i <= 24,
            wanted@ == name@,
            forall|j: int| 0 <= j < i ==> FIELD_NAMES[j]@ != name@,
        decreases 24 - i,
    {
        if FIELD_NAMES[i].to_owned() == wanted {
            proof {
                lemma_field_names_distinct();
                let j = choose|j: int| 0 <= j < 24 && FIELD_NAMES[j]@ == name@;
                assert(j == i) by {
                    if j < i {
                        assert(FIELD_NAMES[j]@ != FIELD_NAMES[i as int]@);
                    }
                    if i < j {
                        assert(FIELD_NAMES[i as int]@ != FIELD_NAMES[j]@);
                    }
                }
            }
            return Some(i);
        }
        i += 1;
    }
    None
}

/// The line of the table of sizes for the measurement called `name`.
pub open spec fn size_entry_spec(name: Seq<char>) -> Option<SizeEntry> {
    match field_place(name) {
        Some(i) => Some(
            SizeEntry {
                base: Fixed::from_hundredths(SIZE_BASE[i]),
                incr: Fixed::from_hundredths(SIZE_INCREMENT[i]),
            },
        ),
        None => None,
    }
}

/// Looks up the line of the table of sizes for a measurement by its exact
/// name.
pub fn size_entry(name: &str) -> (r: Option<SizeEntry>)
    ensures
        r == size_entry_spec(name@),
{
    match field_index(name) {
        Some(i) => Some(
            SizeEntry {
                base: Fixed::from_hundredths(SIZE_BASE[i]),
                incr: Fixed::from_hundredths(SIZE_INCREMENT[i]),
            },
        ),
        None => None,
    }
}

/// The number of size steps from size 38 to `size`: half the difference,
/// rounded toward zero.
pub open spec fn size_steps(size: i32) -> int {
    if size >= BASE_SIZE {
        (size - BASE_SIZE) / 2
    } else {
        -((BASE_SIZE - size) / 2)
    }
}

/// Measurement `i` of the table, `steps` size steps away from size 38.
pub open spec fn graded(i: int, steps: int) -> Fixed {
    Fixed::of((SIZE_BASE[i] + SIZE_INCREMENT[i] * steps) * HUNDREDTH)
}

/// The measurements of a standard French size.
pub open spec fn default_measurements_spec(size: i32) -> FullMeasurements {
    FullMeasurements::spec_from_values(Seq::new(24, |i: int| graded(i, size_steps(size))))
}

/// The sizes of the table.
pub open spec fn is_standard_size(size: i32) -> bool {
    34 <= size <= 48 && size % 2 == 0
}

/// The measurements of a standard French size (sizes 34 to 48): each is
/// its value at size 38 plus its increment for every two units of size
/// above 38, or minus that below.
#[verifier::when_used_as_spec(default_measurements_spec)]
pub fn default_measurements(size: i32) -> (r: FullMeasurements)
    ensures
        r == default_measurements_spec(size),
{
    let steps: i64 = if size >= BASE_SIZE {
        (size as i64 - BASE_SIZE as i64) / 2
    } else {
        -((BASE_SIZE as i64 - size as i64) / 2)
    };
    let mut v: Vec<Fixed> = Vec::new();
    let mut i: usize = 0;
    while i < 24
        invariant
            i <= 24,
            v.len() == i,
            steps == size_steps(size),
            -0x8000_0000 <= steps <= 0x8000_0000,
            forall|j: int| 0 <= j < i ==> #[trigger] v[j] == graded(j, steps as int),
        decreases 24 - i,
    {
        let base = SIZE_BASE[i] as i128;
        let incr = SIZE_INCREMENT[i] as i128;
        assert(-0x4000_0000_0000_0000_0000_0000 <= incr * steps
            <= 0x4000_0000_0000_0000_0000_0000) by (nonlinear_arith)
            requires
                -0x8000_0000_0000_0000 <= incr <= 0x8000_0000_0000_0000,
                -0x8000_0000 <= steps <= 0x8000_0000,
        ;
        let value: i128 = base + incr * steps as i128;
        assert(-0x4000_0000_0000_0000_0000_0000_0000_0000 <= value * HUNDREDTH
            <= 0x4000_0000_0000_0000_0000_0000_0000_0000) by (nonlinear_arith)
            requires
                -0x8000_0000_0000_0000_0000_0000 <= value <= 0x8000_0000_0000_0000_0000_0000,
                HUNDREDTH == 10_000_000,
        ;
        v.push(Fixed::from_wide(value * HUNDREDTH as i128));
        i += 1;
    }
    assert(v@ =~= Seq::new(24, |i: int| graded(i, size_steps(size))));
    assert(v@.len() == 24);
    let r = FullMeasurements::from_values(v.as_slice());
    r.unwrap()
}

/// Known individuals with saved body measurements.
#[derive(Clone, Copy, Debug, PartialEq, Eq, Structural)]
pub enum Person {
    Kwama,
    Vivien,
}

/// The lowercase form of a text as `str::to_lowercase` of the standard
/// library gives it: each character mapped by the Unicode rules for
/// lowercase, whatever the locale.
pub uninterp spec fn lowercase(s: Seq<char>) -> Seq<char>;

/// The text in lowercase, by `str::to_lowercase` of the standard library:
/// the result is [`lowercase`] of the text and depends on nothing else.
#[verifier::external_body]
fn to_lowercase(s: &str) -> (r: String)
    ensures
        r@ == lowercase(s@),
{
    s.to_lowercase()
}

impl Person {
    /// The person whose name, written in lowercase, is `name`.
    pub open spec fn spec_from_lowercase(name: Seq<char>) -> Option<Person> {
        if name == "kwama"@ {
            Some(Person::Kwama)
        } else if name == "vivien"@ {
            Some(Person::Vivien)
        } else {
            None
        }
    }

    /// The person whose name, written in lowercase, is `name`.
    pub fn from_lowercase(name: &str) -> (r: Option<Person>)
        ensures
            r == Person::spec_from_lowercase(name@),
    {
        let name = name.to_owned();
        if name == "kwama".to_owned() {
            Some(Person::Kwama)
        } else if name == "vivien".to_owned() {
            Some(Person::Vivien)
        } else {
            None
        }
    }

    /// The person of that name, whatever the case of its letters.
    pub fn from_str(s: &str) -> (r: Option<Person>)
        ensures
            r == Person::spec_from_lowercase(lowercase(s@)),
    {
        let lower = to_lowercase(s);
        Person::from_lowercase(lower.as_str())
    }

    /// The name in lowercase.
    pub fn name(self) -> (r: &'static str)
        ensures
            Person::spec_from_lowercase(r@) == Some(self),
    {
        proof {
            reveal_strlit("kwama");
            reveal_strlit("vivien");
            assert("kwama"@.len() != "vivien"@.len());
        }
        match self {
            Person::Kwama => "kwama",
            Person::Vivien => "vivien",
        }
    }
}

/// The table of a person's measurements, in hundredths of a centimetre.
pub open spec fn preset_table(person: Person) -> [i64; 24] {
    match person {
        Person::Vivien => VIVIEN,
        Person::Kwama => KWAMA,
    }
}

/// The measurements of a known individual.
pub open spec fn individual_measurements_spec(person: Person) -> FullMeasurements {
    FullMeasurements::spec_from_values(
        Seq::new(24, |i: int| Fixed::from_hundredths(preset_table(person)[i])),
    )
}

/// The measurements of a known individual.
#[verifier::when_used_as_spec(individual_measurements_spec)]
pub fn individual_measurements(person: Person) -> (r: FullMeasurements)
    ensures
        r == individual_measurements_spec(person),
{
    let table: [i64; 24] = match person {
        Person::Vivien => VIVIEN,
        Person::Kwama => KWAMA,
    };
    let mut v: Vec<Fixed> = Vec::new();
    let mut i: usize = 0;
    while i < 24
        invariant
            i <= 24,
            v.len() == i,
            table == preset_table(person),
            forall|j: int| 0 <= j < i ==> #[trigger] v[j] == Fixed::from_hundredths(table[j]),
        decreases 24 - i,
    {
        v.push(Fixed::from_hundredths(table[i]));
        i += 1;
    }
    assert(v@ =~= Seq::new(24, |i: int| Fixed::from_hundredths(preset_table(person)[i])));
    let r = FullMeasurements::from_values(v.as_slice());
    r.unwrap()
}

/// In the standard sizes the bust measures 88 cm at size 38 and exactly
/// 4 cm more with each size above it (4 cm less with each below), while arm
/// length and elbow height are the same in every size.
#[verifier::rlimit(50)]
pub proof fn lemma_size_grading(size: i32)
    requires
        is_standard_size(size),
    ensures
        default_measurements_spec(size).full_bust@ == 88 * SCALE + 4 * SCALE * ((size - 38) / 2),
        default_measurements_spec(38).full_bust@ == 88 * SCALE,
        size < 48 ==> default_measurements_spec((size + 2) as i32).full_bust@
            - default_measurements_spec(size).full_bust@ == 4 * SCALE,
        size > 34 ==> default_measurements_spec((size - 2) as i32).full_bust@
            - default_measurements_spec(size).full_bust@ == -4 * SCALE,
        default_measurements_spec(size).arm_length == default_measurements_spec(38).arm_length,
        default_measurements_spec(size).elbow_height == default_measurements_spec(38).elbow_height,
        default_measurements_spec(size).arm_length@ == 60 * SCALE,
        default_measurements_spec(size).elbow_height@ == 35 * SCALE,
{
}

/// In the standard sizes no measurement of the table saturates: each is
/// its value at size 38 plus its increment times the number of steps.
pub proof fn lemma_standard_size_exact(size: i32, i: int)
    requires
        is_standard_size(size),
        0 <= i < 24,
    ensures
        graded(i, size_steps(size))@ == (SIZE_BASE[i] + SIZE_INCREMENT[i] * ((size - 38) / 2))
            * HUNDREDTH,
        default_measurements_spec(size).spec_values()[i] == graded(i, size_steps(size)),
{
    let steps = size_steps(size);
    assert(-2 <= steps <= 5);
    assert(0 <= SIZE_BASE[i] <= 10550);
    assert(0 <= SIZE_INCREMENT[i] <= 400);
    assert(-800 <= SIZE_INCREMENT[i] * steps <= 2000) by (nonlinear_arith)
        requires
            0 <= SIZE_INCREMENT[i] <= 400,
            -2 <= steps <= 5,
    ;
}

/// The place of the first measurement from place `from` on that `m` does
/// not hold, or 24 if it holds them all.
pub open spec fn first_missing(m: Map<Seq<char>, Fixed>, from: int) -> int
    decreases 24 - from,
{
    if from >= 24 {
        24
    } else if !m.contains_key(FIELD_NAMES[from]@) {
        from
    } else {
        first_missing(m, from + 1)
    }
}

/// The text that reports a missing measurement.
pub open spec fn missing_message(name: Seq<char>) -> Seq<char> {
    "Missing measurement: "@ + name
}

/// The full set that a mapping from names to values holds, or the report
/// of the first measurement that it lacks.
pub open spec fn map_to_full_measurements_spec(m: Map<Seq<char>, Fixed>) -> Result<
    FullMeasurements,
    Seq<char>,
> {
    let missing = first_missing(m, 0);
    if missing == 24 {
        Ok(FullMeasurements::spec_from_values(Seq::new(24, |i: int| m[FIELD_NAMES[i]@])))
    } else {
        Err(missing_message(FIELD_NAMES[missing]@))
    }
}

/// The view of a result whose error is a text.
pub open spec fn text_result<T>(r: Result<T, String>) -> Result<T, Seq<char>> {
    match r {
        Ok(v) => Ok(v),
        Err(e) => Err(e@),
    }
}

/// Assembles the full set from a mapping of names to values. Every one of
/// the 24 measurements has to be there; the first that is not is reported
/// by name. What else the mapping holds is ignored.
pub fn map_to_full_measurements(m: &LabelMap<Fixed>) -> (r: Result<FullMeasurements, String>)
    requires
        m.wf(),
    ensures
        text_result(r) == map_to_full_measurements_spec(m@),
{
    let mut v: Vec<Fixed> = Vec::new();
    let mut i: usize = 0;
    while i < 24
        invariant
            m.wf(),
            i <= 24,
            v.len() == i,
            first_missing(m@, 0) == first_missing(m@, i as int),
            forall|j: int| 0 <= j < i ==> #[trigger] v[j] == m@[FIELD_NAMES[j]@],
        decreases 24 - i,
    {
        let name: &'static str = FIELD_NAMES[i];
        match m.get(name) {
            Some(value) => {
                v.push(value);
            },
            None => {
                let msg = String::from_str("Missing measurement: ").concat(name);
                return Err(msg);
            },
        }
        i += 1;
    }
    assert(v@ =~= Seq::new(24, |i: int| m@[FIELD_NAMES[i]@]));
    let r = FullMeasurements::from_values(v.as_slice());
    Ok(r.unwrap())
}

/// The mapping that holds the first `n` measurements of `fm` under their
/// names.
pub open spec fn named_values(fm: FullMeasurements, n: int) -> Map<Seq<char>, Fixed>
    decreases n,
{
    if n <= 0 {
        Map::empty()
    } else {
        named_values(fm, n - 1).insert(FIELD_NAMES[n - 1]@, fm.spec_values()[n - 1])
    }
}

/// The full set as a mapping from the names of the measurements to their
/// values.
pub fn full_measurements_to_map(fm: &FullMeasurements) -> (m: LabelMap<Fixed>)
    ensures
        m.wf(),
        m@ == named_values(*fm, 24),
{
    let values = fm.values();
    let mut m: LabelMap<Fixed> = LabelMap::new();
    let mut i: usize = 0;
    while i < 24
        invariant
            m.wf(),
            i <= 24,
            values@ == fm.spec_values(),
            values.len() == 24,
            m@ == named_values(*fm, i as int),
        decreases 24 - i,
    {
        m.insert(FIELD_NAMES[i], values[i]);
        i += 1;
    }
    m
}

/// No two measurements share a name.
pub proof fn lemma_field_names_distinct()
    ensures
        forall|i: int, j: int| 0 <= i < j < 24 ==> FIELD_NAMES[i]@ != FIELD_NAMES[j]@,
{
    reveal_strlit("back_waist_length");
    reveal_strlit("front_waist_length");
    reveal_strlit("full_bust");
    reveal_strlit("bust_height");
    reveal_strlit("half_bust_point_distance");
    reveal_strlit("full_waist");
    reveal_strlit("small_hip");
    reveal_strlit("full_hip");
    reveal_strlit("neck_circumference");
    reveal_strlit("half_back_width");
    reveal_strlit("half_front_width");
    reveal_strlit("shoulder_length");
    reveal_strlit("armhole_circumference");
    reveal_strlit("underarm_height");
    reveal_strlit("arm_length");
    reveal_strlit("upper_arm");
    reveal_strlit("elbow_height");
    reveal_strlit("wrist");
    reveal_strlit("waist_to_hip");
    reveal_strlit("crotch_depth");
    reveal_strlit("crotch_length");
    reveal_strlit("waist_to_knee");
    reveal_strlit("waist_to_floor");
    reveal_strlit("side_waist_to_floor");
    assert forall|i: int, j: int| 0 <= i < j < 24 implies FIELD_NAMES[i]@ != FIELD_NAMES[j]@ by {
        let a = FIELD_NAMES[i]@;
        let b = FIELD_NAMES[j]@;
        if a.len() == b.len() {
            assert(a[0] != b[0] || a[1] != b[1] || a[2] != b[2] || a[4] != b[4] || a[5] != b[5]
                || a[9] != b[9]);
        }
    }
}

/// The mapping of the first `n` measurements holds exactly those, each
/// under its name.
pub proof fn lemma_named_values(fm: FullMeasurements, n: int)
    requires
        0 <= n <= 24,
    ensures
        forall|i: int|
            0 <= i < 24 ==> (#[trigger] named_values(fm, n).contains_key(FIELD_NAMES[i]@) <==> i
                < n),
        forall|i: int|
            0 <= i < n ==> #[trigger] named_values(fm, n)[FIELD_NAMES[i]@] == fm.spec_values()[i],
    decreases n,
{
    lemma_field_names_distinct();
    if n > 0 {
        lemma_named_values(fm, n - 1);
        assert forall|i: int| 0 <= i < 24 implies (#[trigger] named_values(fm, n).contains_key(
            FIELD_NAMES[i]@,
        ) <==> i < n) by {
            if i != n - 1 {
                if i < n - 1 {
                    assert(FIELD_NAMES[i]@ != FIELD_NAMES[n - 1]@);
                } else {
                    assert(FIELD_NAMES[n - 1]@ != FIELD_NAMES[i]@);
                }
                assert(named_values(fm, n - 1).contains_key(FIELD_NAMES[i]@) <==> i < n - 1);
            }
        }
        assert forall|i: int| 0 <= i < n implies #[trigger] named_values(fm, n)[FIELD_NAMES[i]@]
            == fm.spec_values()[i] by {
            if i < n - 1 {
                assert(FIELD_NAMES[i]@ != FIELD_NAMES[n - 1]@);
                assert(named_values(fm, n - 1)[FIELD_NAMES[i]@] == fm.spec_values()[i]);
            }
        }
    }
}

/// A mapping that holds every measurement has none missing.
proof fn lemma_none_missing(m: Map<Seq<char>, Fixed>, from: int)
    requires
        0 <= from <= 24,
        forall|i: int| 0 <= i < 24 ==> m.contains_key(#[trigger] FIELD_NAMES[i]@),
    ensures
        first_missing(m, from) == 24,
    decreases 24 - from,
{
    if from < 24 {
        assert(m.contains_key(FIELD_NAMES[from]@));
        lemma_none_missing(m, from + 1);
    }
}

/// A full set written out as a mapping and assembled again is the same
/// set.
pub proof fn lemma_map_round_trip(fm: FullMeasurements)
    ensures
        map_to_full_measurements_spec(named_values(fm, 24)) == Ok::<FullMeasurements, Seq<char>>(
            fm,
        ),
{
    let m = named_values(fm, 24);
    lemma_named_values(fm, 24);
    assert forall|i: int| 0 <= i < 24 implies m.contains_key(#[trigger] FIELD_NAMES[i]@) by {
        assert(named_values(fm, 24).contains_key(FIELD_NAMES[i]@) <==> i < 24);
    }
    lemma_none_missing(m, 0);
    let v = Seq::new(24, |i: int| m[FIELD_NAMES[i]@]);
    assert forall|i: int| 0 <= i < 24 implies v[i] == fm.spec_values()[i] by {
        assert(named_values(fm, 24)[FIELD_NAMES[i]@] == fm.spec_values()[i]);
    }
    assert(v =~= fm.spec_values());
    lemma_values_round_trip(fm);
}

} // verus!
