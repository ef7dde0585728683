//! Named points of a pattern and the one-time allowance for fabric stretch.

use crate::fixed::{
    lemma_product_bound, lemma_round_div_nearest, lemma_round_div_sign, round_div,
    round_div_wide, Fixed, SCALE,
};
use crate::math::Point2;
use crate::store::LabelMap;
use vstd::prelude::*;

verus! {

/// A collection of named points.
pub type PointStore = LabelMap<Point2>;

/// The factor by which a length shrinks when a fabric that stretches by
/// `capacity` is to be stretched to the fraction `usage` of that.
pub open spec fn shrink_factor(capacity: Fixed, usage: Fixed) -> Fixed {
    Fixed::one().div(Fixed::one().add(capacity.mul(usage)))
}

/// What a coordinate is divided by in a stretch, in units of 10^-18: one
/// and the product of capacity and usage, not rounded.
pub open spec fn stretch_divisor(capacity: Fixed, usage: Fixed) -> int {
    SCALE * SCALE + capacity@ * usage@
}

/// A coordinate after a stretch: `x / (1 + capacity * usage)`, rounded once,
/// to the nearest unit. Where the divisor is zero the coordinate saturates
/// in the direction of its sign.
pub open spec fn spec_shrink(x: Fixed, capacity: Fixed, usage: Fixed) -> Fixed {
    let d = stretch_divisor(capacity, usage);
    let n = x@ * (SCALE * SCALE);
    if d > 0 {
        Fixed::of(round_div(n, d))
    } else if d < 0 {
        Fixed::of(round_div(-n, -d))
    } else if x@ > 0 {
        Fixed { raw: i64::MAX }
    } else if x@ < 0 {
        Fixed { raw: i64::MIN }
    } else {
        Fixed { raw: 0 }
    }
}

/// A coordinate after a stretch: `x / (1 + capacity * usage)`, rounded once,
/// to the nearest unit.
#[verifier::when_used_as_spec(spec_shrink)]
pub fn shrink(x: Fixed, capacity: Fixed, usage: Fixed) -> (r: Fixed)
    ensures
        r == spec_shrink(x, capacity, usage),
{
    proof {
        lemma_product_bound(capacity@, usage@);
        assert(SCALE * SCALE == 1_000_000_000_000_000_000) by (nonlinear_arith)
            requires
                SCALE == 1_000_000_000,
        ;
        assert(-9_223_372_036_854_775_808 * 1_000_000_000_000_000_000 <= x@
            * 1_000_000_000_000_000_000 <= 9_223_372_036_854_775_808
            * 1_000_000_000_000_000_000) by (nonlinear_arith)
            requires
                -9_223_372_036_854_775_808 <= x@ <= 9_223_372_036_854_775_808,
        ;
    }
    let unit: i128 = 1_000_000_000_000_000_000;
    let d: i128 = unit + capacity.raw as i128 * usage.raw as i128;
    let n: i128 = x.raw as i128 * unit;
    if d > 0 {
        Fixed::from_wide(round_div_wide(n, d as u128))
    } else if d < 0 {
        Fixed::from_wide(round_div_wide(-n, (-d) as u128))
    } else if x.raw > 0 {
        Fixed { raw: i64::MAX }
    } else if x.raw < 0 {
        Fixed { raw: i64::MIN }
    } else {
        Fixed { raw: 0 }
    }
}

/// The point `p` after a stretch: `x` divided by one and the horizontal
/// capacity used, `y` by one and the vertical capacity used, each rounded
/// once.
pub open spec fn stretch_point(p: Point2, horizontal: Fixed, vertical: Fixed, usage: Fixed) -> Point2 {
    Point2 { x: shrink(p.x, horizontal, usage), y: shrink(p.y, vertical, usage) }
}

/// What a [`StretchBase`] holds, as plain mathematical data.
pub struct StretchState {
    pub stretched: bool,
    pub h_factor: Fixed,
    pub v_factor: Fixed,
    pub points: Map<Seq<char>, Point2>,
    pub helper_points: Map<Seq<char>, Point2>,
    /// The labels of the points, in the order in which they were first
    /// written.
    pub point_labels: Seq<Seq<char>>,
    /// The labels of the helper points, in the order in which they were
    /// first written.
    pub helper_labels: Seq<Seq<char>>,
}

impl StretchState {
    /// No points, not stretched.
    pub open spec fn empty() -> StretchState {
        StretchState {
            stretched: false,
            h_factor: Fixed::one(),
            v_factor: Fixed::one(),
            points: Map::empty(),
            helper_points: Map::empty(),
            point_labels: Seq::empty(),
            helper_labels: Seq::empty(),
        }
    }

    /// The state after a stretch has been applied.
    pub open spec fn stretched_by(
        self,
        horizontal: Fixed,
        vertical: Fixed,
        usage: Fixed,
    ) -> StretchState {
        let h = shrink_factor(horizontal, usage);
        let v = shrink_factor(vertical, usage);
        StretchState {
            stretched: true,
            h_factor: h,
            v_factor: v,
            points: self.points.map_values(
                |p: Point2| stretch_point(p, horizontal, vertical, usage),
            ),
            helper_points: self.helper_points.map_values(
                |p: Point2| stretch_point(p, horizontal, vertical, usage),
            ),
            point_labels: self.point_labels,
            helper_labels: self.helper_labels,
        }
    }

    /// The state after a request to stretch, and whether it was granted:
    /// only a pattern that has not been stretched yet can be.
    pub open spec fn request_stretch(self, horizontal: Fixed, vertical: Fixed, usage: Fixed) -> (
        StretchState,
        bool,
    ) {
        if self.stretched {
            (self, false)
        } else {
            (self.stretched_by(horizontal, vertical, usage), true)
        }
    }
}

/// The named points of a pattern, with the record of a stretch applied to
/// them. Pattern types hold one and hand point storage and stretching on
/// to it.
pub struct StretchBase {
    pub stretched: bool,
    pub h_factor: Fixed,
    pub v_factor: Fixed,
    pub points: PointStore,
    pub helper_points: PointStore,
}

impl View for StretchBase {
    type V = StretchState;

    open spec fn view(&self) -> StretchState {
        StretchState {
            stretched: self.stretched,
            h_factor: self.h_factor,
            v_factor: self.v_factor,
            points: self.points@,
            helper_points: self.helper_points@,
            point_labels: self.points.labels(),
            helper_labels: self.helper_points.labels(),
        }
    }
}

/// Stretches every point of `store`.
fn scale_store(store: &mut PointStore, horizontal: Fixed, vertical: Fixed, usage: Fixed)
    requires
        old(store).wf(),
    ensures
        final(store).wf(),
        final(store).labels() == old(store).labels(),
        final(store)@ == old(store)@.map_values(|p: Point2| stretch_point(p, horizontal, vertical, usage)),
{
    let n = store.len();
    let ghost labels = store.labels();
    let ghost before = store@;
    let mut i: usize = 0;
    while i < n
        invariant
            store.wf(),
            store.labels() == labels,
            labels.no_duplicates(),
            n == labels.len(),
            i <= n,
            store@.dom() == before.dom(),
            forall|key: Seq<char>| labels.contains(key) <==> before.contains_key(key),
            forall|j: int|
                0 <= j < i ==> store@[#[trigger] labels[j]] == stretch_point(
                    before[labels[j]],
                    horizontal,
                    vertical,
                    usage,
                ),
            forall|j: int| i <= j < n ==> store@[#[trigger] labels[j]] == before[labels[j]],
        decreases n - i,
    {
        let p = store.value_at(i);
        let ghost prev = store@;
        store.set_value_at(
            i,
            Point2 { x: shrink(p.x, horizontal, usage), y: shrink(p.y, vertical, usage) },
        );
        proof {
            assert(store@.dom() =~= before.dom());
            assert forall|j: int| 0 <= j < i + 1 implies store@[#[trigger] labels[j]]
                == stretch_point(before[labels[j]], horizontal, vertical, usage) by {
                if j < i {
                    assert(labels[j] != labels[i as int]);
                }
            }
            assert forall|j: int| i + 1 <= j < n implies store@[#[trigger] labels[j]]
                == before[labels[j]] by {
                assert(labels[j] != labels[i as int]);
            }
        }
        i += 1;
    }
    proof {
        let target = before.map_values(|p: Point2| stretch_point(p, horizontal, vertical, usage));
        assert forall|key: Seq<char>| store@.contains_key(key) implies #[trigger] store@[key]
            == target[key] by {
            assert(before.dom().contains(key));
            assert(labels.contains(key));
            let j = choose|j: int| 0 <= j < labels.len() && labels[j] == key;
            assert(store@[labels[j]] == stretch_point(before[labels[j]], horizontal, vertical, usage));
        }
        assert(store@ =~= target);
    }
}

impl StretchBase {
    /// Well-formedness of the two collections.
    pub open spec fn wf(&self) -> bool {
        self.points.wf() && self.helper_points.wf()
    }

    /// The text of the refusal of a second stretch.
    pub open spec fn refusal() -> Seq<char> {
        "Cannot stretch a pattern that is already stretched."@
    }

    /// No points, not stretched.
    pub fn new() -> (r: Self)
        ensures
            r.wf(),
            !r.stretched,
            r.h_factor == Fixed::one(),
            r.v_factor == Fixed::one(),
            r@ == StretchState::empty(),
    {
        StretchBase {
            stretched: false,
            h_factor: Fixed::one(),
            v_factor: Fixed::one(),
            points: LabelMap::new(),
            helper_points: LabelMap::new(),
        }
    }

    /// Shrinks the pattern for a fabric that stretches, once.
    ///
    /// `horizontal` and `vertical` are the fabric's stretch capacities (0 for
    /// none, 1 for 100 %), `usage` the fraction of them to use. Every `x` of
    /// both collections becomes `x / (1 + horizontal * usage)` and every `y`
    /// becomes `y / (1 + vertical * usage)`, each rounded once to the
    /// nearest unit; the two factors `1 / (1 + ...)` are recorded, rounded.
    /// A pattern that has been stretched is left as it is and the request
    /// refused.
    pub fn stretch(&mut self, horizontal: Fixed, vertical: Fixed, usage: Fixed) -> (r: Result<
        (),
        String,
    >)
        requires
            old(self).wf(),
        ensures
            final(self).wf(),
            (final(self)@, r is Ok) == old(self)@.request_stretch(horizontal, vertical, usage),
            r is Err ==> *final(self) == *old(self) && r->Err_0@ == Self::refusal(),
    {
        if self.stretched {
            return Err("Cannot stretch a pattern that is already stretched.".to_string());
        }
        let h = Fixed::one().div(Fixed::one().add(horizontal.mul(usage)));
        let v = Fixed::one().div(Fixed::one().add(vertical.mul(usage)));
        self.h_factor = h;
        self.v_factor = v;
        scale_store(&mut self.points, horizontal, vertical, usage);
        scale_store(&mut self.helper_points, horizontal, vertical, usage);
        self.stretched = true;
        Ok(())
    }
}

/// A pattern can be stretched at most once: whatever the first request
/// did, a second one is refused and changes nothing.
pub proof fn lemma_second_stretch_refused(
    state: StretchState,
    h1: Fixed,
    v1: Fixed,
    u1: Fixed,
    h2: Fixed,
    v2: Fixed,
    u2: Fixed,
)
    ensures
        ({
            let first = state.request_stretch(h1, v1, u1);
            let second = first.0.request_stretch(h2, v2, u2);
            !second.1 && second.0 == first.0
        }),
{
}

/// A granted stretch divides the `x` of every point of both collections
/// by one and the horizontal capacity used, and its `y` by one and the
/// vertical capacity used, each with one rounding; it records the two
/// factors, and neither adds nor drops a label.
pub proof fn lemma_stretch_scales_every_point(
    state: StretchState,
    horizontal: Fixed,
    vertical: Fixed,
    usage: Fixed,
)
    requires
        !state.stretched,
    ensures
        ({
            let after = state.request_stretch(horizontal, vertical, usage).0;
            &&& after.stretched
            &&& after.h_factor == shrink_factor(horizontal, usage)
            &&& after.v_factor == shrink_factor(vertical, usage)
            &&& after.points.dom() == state.points.dom()
            &&& after.helper_points.dom() == state.helper_points.dom()
            &&& after.point_labels == state.point_labels
            &&& after.helper_labels == state.helper_labels
            &&& forall|label: Seq<char>| #[trigger]
                state.points.contains_key(label) ==> after.points[label].x == shrink(
                    state.points[label].x,
                    horizontal,
                    usage,
                ) && after.points[label].y == shrink(state.points[label].y, vertical, usage)
            &&& forall|label: Seq<char>| #[trigger]
                state.helper_points.contains_key(label) ==> after.helper_points[label].x
                    == shrink(state.helper_points[label].x, horizontal, usage)
                    && after.helper_points[label].y == shrink(
                    state.helper_points[label].y,
                    vertical,
                    usage,
                )
        }),
{
    let after = state.request_stretch(horizontal, vertical, usage).0;
    assert(after.points.dom() =~= state.points.dom());
    assert(after.helper_points.dom() =~= state.helper_points.dom());
}

/// The greatest value there is, which stands for a least coordinate where
/// there is no point.
pub open spec fn spec_highest() -> Fixed {
    Fixed { raw: i64::MAX }
}

/// The greatest value there is.
#[verifier::when_used_as_spec(spec_highest)]
pub fn highest() -> (r: Fixed)
    ensures
        r == spec_highest(),
{
    Fixed { raw: i64::MAX }
}

/// The least value there is, which stands for a greatest coordinate where
/// there is no point.
pub open spec fn spec_lowest() -> Fixed {
    Fixed { raw: i64::MIN }
}

/// The least value there is.
#[verifier::when_used_as_spec(spec_lowest)]
pub fn lowest() -> (r: Fixed)
    ensures
        r == spec_lowest(),
{
    Fixed { raw: i64::MIN }
}

/// `e` holds the least and greatest `x` and the least and greatest `y` of
/// the points of `m`. Where `m` holds none, each least is the greatest
/// value there is and each greatest the least.
pub open spec fn is_extent(m: Map<Seq<char>, Point2>, e: (Fixed, Fixed, Fixed, Fixed)) -> bool {
    &&& forall|k: Seq<char>| #[trigger]
        m.contains_key(k) ==> e.0@ <= m[k].x@ <= e.1@ && e.2@ <= m[k].y@ <= e.3@
    &&& e.0 == highest() || exists|k: Seq<char>| #[trigger] m.contains_key(k) && m[k].x == e.0
    &&& e.1 == lowest() || exists|k: Seq<char>| #[trigger] m.contains_key(k) && m[k].x == e.1
    &&& e.2 == highest() || exists|k: Seq<char>| #[trigger] m.contains_key(k) && m[k].y == e.2
    &&& e.3 == lowest() || exists|k: Seq<char>| #[trigger] m.contains_key(k) && m[k].y == e.3
}

/// A collection of points has one extent only.
pub proof fn lemma_extent_unique(
    m: Map<Seq<char>, Point2>,
    d: (Fixed, Fixed, Fixed, Fixed),
    e: (Fixed, Fixed, Fixed, Fixed),
)
    requires
        is_extent(m, d),
        is_extent(m, e),
    ensures
        d == e,
{
    assert(d.0@ == e.0@);
    assert(d.1@ == e.1@);
    assert(d.2@ == e.2@);
    assert(d.3@ == e.3@);
}

/// The extent of the points of `m`.
pub open spec fn extent_of(m: Map<Seq<char>, Point2>) -> (Fixed, Fixed, Fixed, Fixed) {
    choose|e: (Fixed, Fixed, Fixed, Fixed)| is_extent(m, e)
}

/// Whoever holds an extent of `m` holds `extent_of(m)`.
pub proof fn lemma_extent_is(m: Map<Seq<char>, Point2>, e: (Fixed, Fixed, Fixed, Fixed))
    requires
        is_extent(m, e),
    ensures
        extent_of(m) == e,
{
    lemma_extent_unique(m, extent_of(m), e);
}

/// The least and greatest `x` and the least and greatest `y` among the
/// points of `store`.
pub fn extent(store: &PointStore) -> (e: (Fixed, Fixed, Fixed, Fixed))
    requires
        store.wf(),
    ensures
        is_extent(store@, e),
        e == extent_of(store@),
{
    let n = store.len();
    let ghost labels = store.labels();
    let mut e = (highest(), lowest(), highest(), lowest());
    let mut i: usize = 0;
    while i < n
        invariant
            store.wf(),
            labels == store.labels(),
            n == labels.len(),
            i <= n,
            forall|key: Seq<char>| labels.contains(key) <==> store@.contains_key(key),
            forall|j: int|
                0 <= j < i ==> e.0@ <= store@[#[trigger] labels[j]].x@ <= e.1@ && e.2@
                    <= store@[labels[j]].y@ <= e.3@,
            e.0 == highest() || exists|k: Seq<char>| #[trigger]
                store@.contains_key(k) && store@[k].x == e.0,
            e.1 == lowest() || exists|k: Seq<char>| #[trigger]
                store@.contains_key(k) && store@[k].x == e.1,
            e.2 == highest() || exists|k: Seq<char>| #[trigger]
                store@.contains_key(k) && store@[k].y == e.2,
            e.3 == lowest() || exists|k: Seq<char>| #[trigger]
                store@.contains_key(k) && store@[k].y == e.3,
        decreases n - i,
    {
        let p = store.value_at(i);
        assert(store@.contains_key(labels[i as int]));
        e = (e.0.min(p.x), e.1.max(p.x), e.2.min(p.y), e.3.max(p.y));
        i += 1;
    }
    proof {
        assert forall|k: Seq<char>| #[trigger] store@.contains_key(k) implies e.0@ <= store@[k].x@
            <= e.1@ && e.2@ <= store@[k].y@ <= e.3@ by {
            assert(labels.contains(k));
            let j = choose|j: int| 0 <= j < labels.len() && labels[j] == k;
            assert(e.0@ <= store@[labels[j]].x@);
        }
        lemma_extent_is(store@, e);
    }
    e
}

/// The point lies within nine thousand million centimetres of both axes,
/// so that no margin of a frame around it saturates.
pub open spec fn within_reach(p: Point2) -> bool {
    &&& -9_000_000_000_000_000_000 <= p.x@ <= 9_000_000_000_000_000_000
    &&& -9_000_000_000_000_000_000 <= p.y@ <= 9_000_000_000_000_000_000
}

/// A stretched coordinate is the nearest to the exact quotient and does
/// not grow: with a capacity and a usage that are not negative, the result
/// times `1 + capacity * usage` differs from `x` by no more than half a
/// unit times that divisor, it is no larger in size than `x`, and it keeps
/// the sign of `x`.
pub proof fn lemma_shrink_nearest(x: Fixed, capacity: Fixed, usage: Fixed)
    requires
        capacity@ >= 0,
        usage@ >= 0,
    ensures
        ({
            let d = stretch_divisor(capacity, usage);
            let q = shrink(x, capacity, usage)@;
            &&& d >= SCALE * SCALE
            &&& -d <= 2 * (q * d - x@ * (SCALE * SCALE)) <= d
            &&& vstd::math::abs(q) <= vstd::math::abs(x@)
            &&& x@ >= 0 ==> q >= 0
            &&& x@ <= 0 ==> q <= 0
        }),
{
    let d = stretch_divisor(capacity, usage);
    let unit: int = SCALE * SCALE;
    let n = x@ * unit;
    assert(capacity@ * usage@ >= 0) by (nonlinear_arith)
        requires
            capacity@ >= 0,
            usage@ >= 0,
    ;
    assert(unit == 1_000_000_000_000_000_000) by (nonlinear_arith)
        requires
            unit == SCALE * SCALE,
            SCALE == 1_000_000_000,
    ;
    lemma_round_div_nearest(n, d);
    lemma_round_div_sign(n, d);
    let q = round_div(n, d);
    let a = vstd::math::abs(x@);
    assert((x@ >= 0 ==> n >= 0) && (x@ <= 0 ==> n <= 0) && vstd::math::abs(n) == a * unit)
        by (nonlinear_arith)
        requires
            n == x@ * unit,
            unit > 0,
            a == vstd::math::abs(x@),
    ;
    assert((2 * (a * unit) + d) / (2 * d) <= a) by (nonlinear_arith)
        requires
            d >= unit,
            unit > 0,
            a >= 0,
    ;
    assert(vstd::math::abs(q) <= a);
}

/// A fabric that stretches shrinks the pattern: with capacities and usage
/// that are not negative, no coordinate of a point moves away from zero or
/// across it.
pub proof fn lemma_stretch_shrinks(p: Point2, horizontal: Fixed, vertical: Fixed, usage: Fixed)
    requires
        horizontal@ >= 0,
        vertical@ >= 0,
        usage@ >= 0,
    ensures
        ({
            let q = stretch_point(p, horizontal, vertical, usage);
            &&& vstd::math::abs(q.x@) <= vstd::math::abs(p.x@)
            &&& vstd::math::abs(q.y@) <= vstd::math::abs(p.y@)
            &&& p.x@ >= 0 ==> q.x@ >= 0
            &&& p.x@ <= 0 ==> q.x@ <= 0
            &&& p.y@ >= 0 ==> q.y@ >= 0
            &&& p.y@ <= 0 ==> q.y@ <= 0
        }),
{
    lemma_shrink_nearest(p.x, horizontal, usage);
    lemma_shrink_nearest(p.y, vertical, usage);
}

/// The factor for capacities and usage that are not negative lies
/// between zero and one.
pub proof fn lemma_shrink_factor_range(capacity: Fixed, usage: Fixed)
    requires
        capacity@ >= 0,
        usage@ >= 0,
    ensures
        0 <= shrink_factor(capacity, usage)@ <= SCALE,
{
    let product = capacity.mul(usage);
    assert(capacity@ * usage@ >= 0) by (nonlinear_arith)
        requires
            capacity@ >= 0,
            usage@ >= 0,
    ;
    assert(round_div(capacity@ * usage@, SCALE as int) >= 0) by (nonlinear_arith)
        requires
            capacity@ * usage@ >= 0,
            SCALE == 1_000_000_000,
    ;
    assert(product@ >= 0);
    let d = Fixed::one().add(product);
    assert(d@ >= SCALE);
    let n: int = SCALE * SCALE;
    assert(0 <= (2 * n + d@) / (2 * d@) <= SCALE) by (nonlinear_arith)
        requires
            d@ >= SCALE,
            n == SCALE * SCALE,
            SCALE == 1_000_000_000,
    ;
}

} // verus!
