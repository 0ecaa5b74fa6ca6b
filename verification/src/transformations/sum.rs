//! Sums of bounded integers that cannot overflow.
use crate::domains::{AllDomain, BoundedDomain, SizedDomain, VectorDomain};
use crate::error::{fails_with, Error, ErrorVariant, Fallible};
use crate::metrics::{AbsoluteDistance, IntDistance, SymmetricDistance};
use crate::objects::function::Function;
use crate::error::kind;
use crate::objects::maps::{lemma_scaled_monotone, scale, scaled, DistanceMap, StabilityMap};
use crate::objects::units::Transformation;
use crate::traits::{abs_int, clamp_int, Number};
use vstd::prelude::*;

verus! {

/// The result of adding the elements of `s` from left to right, each partial
/// sum brought back into the range of `T`.
pub open spec fn saturating_fold<T: Number>(s: Seq<T>) -> int
    decreases s.len(),
{
    if s.len() == 0 {
        0
    } else {
        clamp_int(saturating_fold::<T>(s.drop_last()) + s.last().value(), T::lowest(), T::highest())
    }
}

/// The exact sum of the negative elements of `s`.
pub open spec fn negative_part<T: Number>(s: Seq<T>) -> int
    decreases s.len(),
{
    if s.len() == 0 {
        0
    } else if s.last().value() < 0 {
        negative_part::<T>(s.drop_last()) + s.last().value()
    } else {
        negative_part::<T>(s.drop_last())
    }
}

/// The exact sum of the positive elements of `s`.
pub open spec fn positive_part<T: Number>(s: Seq<T>) -> int
    decreases s.len(),
{
    if s.len() == 0 {
        0
    } else if s.last().value() > 0 {
        positive_part::<T>(s.drop_last()) + s.last().value()
    } else {
        positive_part::<T>(s.drop_last())
    }
}

/// The sum of the negative elements, stopped at the least value of `T`, plus
/// the sum of the positive elements, stopped at the greatest value of `T`.
pub open spec fn split_sum<T: Number>(s: Seq<T>) -> int {
    max_int(T::lowest(), negative_part::<T>(s)) + min_int(T::highest(), positive_part::<T>(s))
}

/// Whether two bounds do not lie strictly on different sides of zero.
pub open spec fn same_sign(lower: int, upper: int) -> bool {
    lower == 0 || upper == 0 || (lower > 0) == (upper > 0)
}

/// The greater of two integers.
pub open spec fn max_int(a: int, b: int) -> int {
    if a < b {
        b
    } else {
        a
    }
}

/// The lesser of two integers.
pub open spec fn min_int(a: int, b: int) -> int {
    if a < b {
        a
    } else {
        b
    }
}

/// Adds the elements of `arg` from left to right with saturation.
pub fn saturating_sum<T: Number>(arg: &Vec<T>) -> (r: T)
    ensures
        r.value() == saturating_fold(arg@),
{
    let mut sum = T::zero();
    let mut i: usize = 0;
    while i < arg.len()
        invariant
            i <= arg.len(),
            sum.value() == saturating_fold(arg@.subrange(0, i as int)),
        decreases arg.len() - i,
    {
        proof {
            let next = arg@.subrange(0, i + 1);
            assert(next.drop_last() =~= arg@.subrange(0, i as int));
            assert(next.last() == arg@[i as int]);
        }
        sum = sum.saturating_add(&arg[i]);
        i = i + 1;
    }
    assert(arg@.subrange(0, i as int) =~= arg@);
    sum
}

/// Adds the negative and the positive elements of `arg` apart, each with
/// saturation, and then adds the two sums.
pub fn split_saturating_sum<T: Number>(arg: &Vec<T>) -> (r: T)
    ensures
        r.value() == split_sum(arg@),
{
    let zero = T::zero();
    let mut negative = T::zero();
    let mut positive = T::zero();
    let mut i: usize = 0;
    proof {
        T::lemma_number(zero, 0);
    }
    while i < arg.len()
        invariant
            i <= arg.len(),
            zero.value() == 0,
            T::lowest() <= 0 < T::highest(),
            negative_part::<T>(arg@.subrange(0, i as int)) <= 0,
            positive_part::<T>(arg@.subrange(0, i as int)) >= 0,
            negative.value() == max_int(T::lowest(), negative_part::<T>(arg@.subrange(0, i as int))),
            positive.value() == min_int(T::highest(), positive_part::<T>(arg@.subrange(0, i as int))),
        decreases arg.len() - i,
    {
        proof {
            let next = arg@.subrange(0, i + 1);
            assert(next.drop_last() =~= arg@.subrange(0, i as int));
            assert(next.last() == arg@[i as int]);
            T::lemma_number(arg@[i as int], 0);
        }
        let v = arg[i];
        if v.total_lt(&zero) {
            negative = negative.saturating_add(&v);
        } else if zero.total_lt(&v) {
            positive = positive.saturating_add(&v);
        }
        i = i + 1;
    }
    assert(arg@.subrange(0, i as int) =~= arg@);
    negative.saturating_add(&positive)
}

/// Checks whether two bounds share a sign, so that the partial sums of data
/// between them move in one direction only.
pub trait IsMonotonic: Number {
    fn is_monotonic(bounds: (Self, Self)) -> (b: bool)
        ensures
            b == same_sign(bounds.0.value(), bounds.1.value()),
    ;
}

impl IsMonotonic for i8 {
    fn is_monotonic(bounds: (Self, Self)) -> (b: bool) {
        let (a, b) = bounds;
        a == 0 || b == 0 || (a > 0) == (b > 0)
    }
}

impl IsMonotonic for i16 {
    fn is_monotonic(bounds: (Self, Self)) -> (b: bool) {
        let (a, b) = bounds;
        a == 0 || b == 0 || (a > 0) == (b > 0)
    }
}

impl IsMonotonic for i32 {
    fn is_monotonic(bounds: (Self, Self)) -> (b: bool) {
        let (a, b) = bounds;
        a == 0 || b == 0 || (a > 0) == (b > 0)
    }
}

impl IsMonotonic for i64 {
    fn is_monotonic(bounds: (Self, Self)) -> (b: bool) {
        let (a, b) = bounds;
        a == 0 || b == 0 || (a > 0) == (b > 0)
    }
}

impl IsMonotonic for isize {
    fn is_monotonic(bounds: (Self, Self)) -> (b: bool) {
        let (a, b) = bounds;
        a == 0 || b == 0 || (a > 0) == (b > 0)
    }
}

impl IsMonotonic for u8 {
    fn is_monotonic(bounds: (Self, Self)) -> (b: bool) {
        true
    }
}

impl IsMonotonic for u16 {
    fn is_monotonic(bounds: (Self, Self)) -> (b: bool) {
        true
    }
}

impl IsMonotonic for u32 {
    fn is_monotonic(bounds: (Self, Self)) -> (b: bool) {
        true
    }
}

impl IsMonotonic for u64 {
    fn is_monotonic(bounds: (Self, Self)) -> (b: bool) {
        true
    }
}

impl IsMonotonic for usize {
    fn is_monotonic(bounds: (Self, Self)) -> (b: bool) {
        true
    }
}

/// Sums a vector by adding the saturating sum of its negative elements to the
/// saturating sum of its positive elements.
pub trait SplitSatSum: Number {
    fn split_sat_sum(v: &Vec<Self>) -> (r: Self)
        ensures
            r.value() == split_sum(v@),
    ;
}

impl SplitSatSum for i8 {
    fn split_sat_sum(v: &Vec<Self>) -> (r: Self) {
        split_saturating_sum(v)
    }
}

impl SplitSatSum for i16 {
    fn split_sat_sum(v: &Vec<Self>) -> (r: Self) {
        split_saturating_sum(v)
    }
}

impl SplitSatSum for i32 {
    fn split_sat_sum(v: &Vec<Self>) -> (r: Self) {
        split_saturating_sum(v)
    }
}

impl SplitSatSum for i64 {
    fn split_sat_sum(v: &Vec<Self>) -> (r: Self) {
        split_saturating_sum(v)
    }
}

impl SplitSatSum for isize {
    fn split_sat_sum(v: &Vec<Self>) -> (r: Self) {
        split_saturating_sum(v)
    }
}

impl SplitSatSum for u8 {
    fn split_sat_sum(v: &Vec<Self>) -> (r: Self) {
        split_saturating_sum(v)
    }
}

impl SplitSatSum for u16 {
    fn split_sat_sum(v: &Vec<Self>) -> (r: Self) {
        split_saturating_sum(v)
    }
}

impl SplitSatSum for u32 {
    fn split_sat_sum(v: &Vec<Self>) -> (r: Self) {
        split_saturating_sum(v)
    }
}

impl SplitSatSum for u64 {
    fn split_sat_sum(v: &Vec<Self>) -> (r: Self) {
        split_saturating_sum(v)
    }
}

impl SplitSatSum for usize {
    fn split_sat_sum(v: &Vec<Self>) -> (r: Self) {
        split_saturating_sum(v)
    }
}

/// The stability constant of a sum of data between `bounds`: adding or
/// removing one record moves the sum by at most the greater magnitude.
pub open spec fn sum_constant<T: Number>(bounds: (T, T)) -> int {
    max_int(abs_int(bounds.0.value()), bounds.1.value())
}

/// The integer half of a distance between datasets.
pub open spec fn half(d_in: IntDistance) -> IntDistance {
    (d_in / 2) as IntDistance
}

/// Whether `t` sums vectors of data between `bounds` with `total`, and
/// multiplies distances by the stability constant of the bounds.
pub open spec fn is_bounded_sum<T: Number>(
    t: Transformation<VectorDomain<BoundedDomain<T>>, AllDomain<T>, SymmetricDistance, AbsoluteDistance<T>>,
    bounds: (T, T),
    total: spec_fn(Seq<T>) -> int,
) -> bool {
    &&& t.input_domain().element_domain.lower() == bounds.0
    &&& t.input_domain().element_domain.upper() == bounds.1
    &&& forall|arg: Vec<T>, res: Fallible<T>| #[trigger]
        t.function().relates(arg, res) ==> (res matches Ok(v) && v.value() == total(arg@))
    &&& forall|d_in: IntDistance| #[trigger]
        t.stability_map().image(d_in) == scaled(d_in, T::from_value(sum_constant(bounds)))
}

/// Whether `t` sums vectors of `size` records between `bounds` with `total`.
/// Datasets of one size that are `d_in` apart differ in `d_in / 2` changed
/// records, each of which moves the sum by at most the width of the bounds.
pub open spec fn is_sized_bounded_sum<T: Number>(
    t: Transformation<
        SizedDomain<VectorDomain<BoundedDomain<T>>>,
        AllDomain<T>,
        SymmetricDistance,
        AbsoluteDistance<T>,
    >,
    size: usize,
    bounds: (T, T),
    total: spec_fn(Seq<T>) -> int,
) -> bool {
    &&& t.input_domain().length == size
    &&& t.input_domain().element_domain.element_domain.lower() == bounds.0
    &&& t.input_domain().element_domain.element_domain.upper() == bounds.1
    &&& forall|arg: Vec<T>, res: Fallible<T>| #[trigger]
        t.function().relates(arg, res) ==> (res matches Ok(v) && v.value() == total(arg@))
    &&& forall|d_in: IntDistance| #[trigger]
        t.stability_map().image(d_in) == scaled(
            half(d_in),
            T::from_value(bounds.1.value() - bounds.0.value()),
        )
}

/// What the constructors of sums over data between `bounds` return. They
/// refuse bounds out of order with `MakeTransformation` and fail with
/// `FailedFunction` when the magnitude of the lower bound does not fit `T`.
pub open spec fn bounded_sum_outcome<T: Number>(
    r: Fallible<
        Transformation<VectorDomain<BoundedDomain<T>>, AllDomain<T>, SymmetricDistance, AbsoluteDistance<T>>,
    >,
    bounds: (T, T),
    total: spec_fn(Seq<T>) -> int,
) -> bool {
    if bounds.0.value() > bounds.1.value() {
        fails_with(r, ErrorVariant::MakeTransformation)
    } else if abs_int(bounds.0.value()) > T::highest() {
        fails_with(r, ErrorVariant::FailedFunction)
    } else {
        r matches Ok(t) && is_bounded_sum(t, bounds, total)
    }
}

/// What the constructors of sums over `size` records between `bounds`
/// return. They fail with `FailedFunction` when the width of the bounds does
/// not fit `T` and refuse bounds out of order with `MakeTransformation`.
pub open spec fn sized_bounded_sum_outcome<T: Number>(
    r: Fallible<
        Transformation<
            SizedDomain<VectorDomain<BoundedDomain<T>>>,
            AllDomain<T>,
            SymmetricDistance,
            AbsoluteDistance<T>,
        >,
    >,
    size: usize,
    bounds: (T, T),
    total: spec_fn(Seq<T>) -> int,
) -> bool {
    if !(T::lowest() <= bounds.1.value() - bounds.0.value() <= T::highest()) {
        fails_with(r, ErrorVariant::FailedFunction)
    } else if bounds.0.value() > bounds.1.value() {
        fails_with(r, ErrorVariant::MakeTransformation)
    } else {
        r matches Ok(t) && is_sized_bounded_sum(t, size, bounds, total)
    }
}

/// The stability map of a sum over datasets of known size.
fn sized_sum_map<T: Number + 'static>(range: T) -> (r: StabilityMap<SymmetricDistance, AbsoluteDistance<T>>)
    ensures
        forall|d_in: IntDistance| #[trigger] r.image(d_in) == scaled(half(d_in), range),
{
    let ghost model = |d_in: IntDistance| scaled(half(d_in), range);
    // If d_in is odd, only the databases with (d_in - 1) / 2 substitutions
    // are considered, so floor division is acceptable.
    let closure = move |d_in: &IntDistance| -> (res: Fallible<T>)
        ensures
            kind(res) == scaled(half(*d_in), range),
        {
            let halved: IntDistance = *d_in / 2;
            scale(&halved, &range)
        };
    StabilityMap { map: DistanceMap::with_model(closure, Ghost(model)) }
}

/// The stability map of a sum over datasets of unknown size; fails with
/// `FailedFunction` exactly when the magnitude of the lower bound does not fit `T`.
fn unsized_sum_map<T: Number + 'static>(bounds: (T, T)) -> (r: Fallible<
    StabilityMap<SymmetricDistance, AbsoluteDistance<T>>,
>)
    ensures
        abs_int(bounds.0.value()) > T::highest() ==> fails_with(r, ErrorVariant::FailedFunction),
        abs_int(bounds.0.value()) <= T::highest() ==> (r matches Ok(m) && forall|d_in: IntDistance| #[trigger]
            m.image(d_in) == scaled(d_in, T::from_value(sum_constant(bounds)))),
{
    let (lower, upper) = bounds;
    proof {
        T::lemma_number(lower, 0);
    }
    let constant = lower.alerting_abs()?.total_max(upper)?;
    proof {
        T::lemma_number(constant, 0);
    }
    Ok(StabilityMap::new_from_constant(constant))
}

/// Make a Transformation that computes the sum of bounded ints,
/// where all values share the same sign.
///
/// # Arguments
/// * `bounds` - Tuple of lower and upper bounds for data in the input domain.
///
/// Fails with `MakeTransformation` when the bounds lie on different sides of
/// zero; otherwise as every sum over bounded data does.
pub fn make_bounded_int_monotonic_sum<T>(bounds: (T, T)) -> (r: Fallible<
    Transformation<VectorDomain<BoundedDomain<T>>, AllDomain<T>, SymmetricDistance, AbsoluteDistance<T>>,
>) where T: Number + IsMonotonic + 'static
    ensures
        !same_sign(bounds.0.value(), bounds.1.value()) ==> fails_with(r, ErrorVariant::MakeTransformation),
        same_sign(bounds.0.value(), bounds.1.value()) ==> bounded_sum_outcome(
            r,
            bounds,
            |s: Seq<T>| saturating_fold(s),
        ),
{
    if !T::is_monotonic(bounds) {
        return Err(
            Error::with_message(
                ErrorVariant::MakeTransformation,
                "monotonic summation requires bounds to share the same sign",
            ),
        );
    }
    let input_domain = VectorDomain::new(BoundedDomain::new_closed(bounds)?);
    let total = |arg: &Vec<T>| -> (sum: T)
        ensures
            sum.value() == saturating_fold(arg@),
        { saturating_sum(arg) };
    let function = Function::new(total);
    let stability_map = unsized_sum_map(bounds)?;
    Transformation::new(
        input_domain,
        AllDomain::new(),
        function,
        SymmetricDistance::default(),
        AbsoluteDistance::default(),
        stability_map,
    )
}

/// Make a Transformation that computes the sum of bounded ints with known
/// dataset size, where all values share the same sign.
///
/// # Arguments
/// * `size` - Number of records in input data.
/// * `bounds` - Tuple of lower and upper bounds for data in the input domain.
///
/// Fails with `MakeTransformation` when the bounds lie on different sides of
/// zero; otherwise as every sum over sized bounded data does.
pub fn make_sized_bounded_int_monotonic_sum<T>(size: usize, bounds: (T, T)) -> (r: Fallible<
    Transformation<
        SizedDomain<VectorDomain<BoundedDomain<T>>>,
        AllDomain<T>,
        SymmetricDistance,
        AbsoluteDistance<T>,
    >,
>) where T: Number + IsMonotonic + 'static
    ensures
        !same_sign(bounds.0.value(), bounds.1.value()) ==> fails_with(r, ErrorVariant::MakeTransformation),
        same_sign(bounds.0.value(), bounds.1.value()) ==> sized_bounded_sum_outcome(
            r,
            size,
            bounds,
            |s: Seq<T>| saturating_fold(s),
        ),
{
    if !T::is_monotonic(bounds) {
        return Err(
            Error::with_message(
                ErrorVariant::MakeTransformation,
                "monotonic summation requires bounds to share the same sign",
            ),
        );
    }
    let (lower, upper) = bounds;
    let range = upper.inf_sub(&lower)?;
    proof {
        T::lemma_number(range, 0);
    }
    let input_domain = SizedDomain::new(VectorDomain::new(BoundedDomain::new_closed(bounds)?), size);
    let total = |arg: &Vec<T>| -> (sum: T)
        ensures
            sum.value() == saturating_fold(arg@),
        { saturating_sum(arg) };
    let function = Function::new(total);
    Transformation::new(
        input_domain,
        AllDomain::new(),
        function,
        SymmetricDistance::default(),
        AbsoluteDistance::default(),
        sized_sum_map(range),
    )
}

/// Make a Transformation that computes the sum of bounded ints.
/// Adds the saturating sum of the positives to the saturating sum of the negatives.
///
/// # Arguments
/// * `bounds` - Tuple of lower and upper bounds for data in the input domain.
pub fn make_bounded_int_split_sum<T>(bounds: (T, T)) -> (r: Fallible<
    Transformation<VectorDomain<BoundedDomain<T>>, AllDomain<T>, SymmetricDistance, AbsoluteDistance<T>>,
>) where T: Number + SplitSatSum + 'static
    ensures
        bounded_sum_outcome(r, bounds, |s: Seq<T>| split_sum(s)),
{
    let input_domain = VectorDomain::new(BoundedDomain::new_closed(bounds)?);
    let total = |arg: &Vec<T>| -> (sum: T)
        ensures
            sum.value() == split_sum(arg@),
        { T::split_sat_sum(arg) };
    let function = Function::new(total);
    let stability_map = unsized_sum_map(bounds)?;
    Transformation::new(
        input_domain,
        AllDomain::new(),
        function,
        SymmetricDistance::default(),
        AbsoluteDistance::default(),
        stability_map,
    )
}

/// Make a Transformation that computes the sum of bounded ints with known dataset size.
///
/// This uses a restricted-sensitivity proof that takes advantage of known dataset size for better utility.
/// Adds the saturating sum of the positives to the saturating sum of the negatives.
///
/// # Arguments
/// * `size` - Number of records in input data.
/// * `bounds` - Tuple of lower and upper bounds for data in the input domain.
pub fn make_sized_bounded_int_split_sum<T>(size: usize, bounds: (T, T)) -> (r: Fallible<
    Transformation<
        SizedDomain<VectorDomain<BoundedDomain<T>>>,
        AllDomain<T>,
        SymmetricDistance,
        AbsoluteDistance<T>,
    >,
>) where T: Number + SplitSatSum + 'static
    ensures
        sized_bounded_sum_outcome(r, size, bounds, |s: Seq<T>| split_sum(s)),
{
    let (lower, upper) = bounds;
    let range = upper.inf_sub(&lower)?;
    proof {
        T::lemma_number(range, 0);
    }
    let input_domain = SizedDomain::new(VectorDomain::new(BoundedDomain::new_closed(bounds)?), size);
    let total = |arg: &Vec<T>| -> (sum: T)
        ensures
            sum.value() == split_sum(arg@),
        { T::split_sat_sum(arg) };
    let function = Function::new(total);
    Transformation::new(
        input_domain,
        AllDomain::new(),
        function,
        SymmetricDistance::default(),
        AbsoluteDistance::default(),
        sized_sum_map(range),
    )
}

/// Make a Transformation that computes the sum of bounded ints: the plain
/// saturating sum where the bounds share a sign, and else the sum of the
/// saturating sums of the negatives and of the positives.
///
/// # Arguments
/// * `bounds` - Tuple of lower and upper bounds for data in the input domain.
pub fn make_bounded_sum<T>(bounds: (T, T)) -> (r: Fallible<
    Transformation<VectorDomain<BoundedDomain<T>>, AllDomain<T>, SymmetricDistance, AbsoluteDistance<T>>,
>) where T: Number + IsMonotonic + SplitSatSum + 'static
    ensures
        same_sign(bounds.0.value(), bounds.1.value()) ==> bounded_sum_outcome(
            r,
            bounds,
            |s: Seq<T>| saturating_fold(s),
        ),
        !same_sign(bounds.0.value(), bounds.1.value()) ==> bounded_sum_outcome(
            r,
            bounds,
            |s: Seq<T>| split_sum(s),
        ),
{
    if T::is_monotonic(bounds) {
        make_bounded_int_monotonic_sum(bounds)
    } else {
        make_bounded_int_split_sum(bounds)
    }
}

/// The stability map of a sum over bounded data is monotone.
pub proof fn lemma_bounded_sum_monotone<T: Number>(
    t: Transformation<VectorDomain<BoundedDomain<T>>, AllDomain<T>, SymmetricDistance, AbsoluteDistance<T>>,
    bounds: (T, T),
    total: spec_fn(Seq<T>) -> int,
)
    requires
        is_bounded_sum(t, bounds, total),
        abs_int(bounds.0.value()) <= T::highest(),
    ensures
        t.stability_map().map.is_monotone(),
{
    let c = T::from_value(sum_constant(bounds));
    T::lemma_number(bounds.0, sum_constant(bounds));
    T::lemma_number(bounds.1, sum_constant(bounds));
    lemma_scaled_monotone::<IntDistance, T>(c);
    let map = t.stability_map().map.graph();
    let model = |d_in: IntDistance| scaled(d_in, c);
    assert forall|a: IntDistance, b: IntDistance| a.value() <= b.value() implies match (
        #[trigger] map(a),
        #[trigger] map(b),
    ) {
        (Ok(x), Ok(y)) => x.value() <= y.value(),
        _ => true,
    } by {
        assert(map(a) == t.stability_map().image(a));
        assert(map(b) == t.stability_map().image(b));
        assert(map(a) == model(a) && map(b) == model(b));
    }
}

/// The stability map of a sum over bounded data of known size is monotone.
pub proof fn lemma_sized_bounded_sum_monotone<T: Number>(
    t: Transformation<
        SizedDomain<VectorDomain<BoundedDomain<T>>>,
        AllDomain<T>,
        SymmetricDistance,
        AbsoluteDistance<T>,
    >,
    size: usize,
    bounds: (T, T),
    total: spec_fn(Seq<T>) -> int,
)
    requires
        is_sized_bounded_sum(t, size, bounds, total),
        bounds.0.value() <= bounds.1.value(),
        bounds.1.value() - bounds.0.value() <= T::highest(),
    ensures
        t.stability_map().map.is_monotone(),
{
    let range = T::from_value(bounds.1.value() - bounds.0.value());
    T::lemma_number(bounds.0, bounds.1.value() - bounds.0.value());
    lemma_scaled_monotone::<IntDistance, T>(range);
    let map = t.stability_map().map.graph();
    let model = |d_in: IntDistance| scaled(d_in, range);
    assert forall|a: IntDistance, b: IntDistance| a.value() <= b.value() implies match (
        #[trigger] map(a),
        #[trigger] map(b),
    ) {
        (Ok(x), Ok(y)) => x.value() <= y.value(),
        _ => true,
    } by {
        assert(map(a) == t.stability_map().image(a));
        assert(map(b) == t.stability_map().image(b));
        assert(map(a) == model(half(a)) && map(b) == model(half(b)));
        assert(half(a).value() <= half(b).value());
    }
}

} // verus!
