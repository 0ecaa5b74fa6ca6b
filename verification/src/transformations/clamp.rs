//! Clamping: bringing every record into given bounds.
use crate::domains::{AllDomain, BoundedDomain, VectorDomain};
use crate::error::{fails_with, ErrorVariant, Fallible};
use crate::metrics::{IntDistance, SymmetricDistance};
use crate::objects::function::Function;
use crate::objects::maps::{lemma_scaled_monotone, scaled, StabilityMap};
use crate::objects::units::Transformation;
use crate::traits::{clamp_int, Number};
use vstd::prelude::*;

verus! {

/// Whether `out` holds the records of `arg`, each brought into the range from `lower` to `upper`.
pub open spec fn is_clamped<T: Number>(out: Seq<T>, arg: Seq<T>, lower: T, upper: T) -> bool {
    &&& out.len() == arg.len()
    &&& forall|i: int|
        0 <= i < arg.len() ==> (#[trigger] out[i]).value() == clamp_int(
            arg[i].value(),
            lower.value(),
            upper.value(),
        )
}

/// Brings every record of `arg` into the range from `lower` to `upper`.
pub fn clamp_all<T: Number>(arg: &Vec<T>, lower: T, upper: T) -> (out: Vec<T>)
    ensures
        is_clamped(out@, arg@, lower, upper),
{
    let mut out: Vec<T> = Vec::new();
    let mut i: usize = 0;
    while i < arg.len()
        invariant
            i <= arg.len(),
            out.len() == i,
            forall|j: int|
                0 <= j < i ==> (#[trigger] out[j]).value() == clamp_int(
                    arg[j].value(),
                    lower.value(),
                    upper.value(),
                ),
        decreases arg.len() - i,
    {
        let v = arg[i];
        let c = if v.total_lt(&lower) {
            lower
        } else if upper.total_lt(&v) {
            upper
        } else {
            v
        };
        out.push(c);
        i = i + 1;
    }
    out
}

/// Whether `t` clamps every record to `bounds` and leaves distances between datasets unchanged.
pub open spec fn is_clamp<T: Number>(
    t: Transformation<
        VectorDomain<AllDomain<T>>,
        VectorDomain<BoundedDomain<T>>,
        SymmetricDistance,
        SymmetricDistance,
    >,
    bounds: (T, T),
) -> bool {
    &&& t.output_domain().element_domain.lower() == bounds.0
    &&& t.output_domain().element_domain.upper() == bounds.1
    &&& forall|arg: Vec<T>, res: Fallible<Vec<T>>| #[trigger]
        t.function().relates(arg, res) ==> (res matches Ok(out) && is_clamped(out@, arg@, bounds.0, bounds.1))
    &&& forall|d_in: IntDistance| #[trigger] t.stability_map().image(d_in) == scaled(d_in, 1u32)
}

/// The stability map of a clamp is monotone.
pub proof fn lemma_clamp_monotone<T: Number>(
    t: Transformation<
        VectorDomain<AllDomain<T>>,
        VectorDomain<BoundedDomain<T>>,
        SymmetricDistance,
        SymmetricDistance,
    >,
    bounds: (T, T),
)
    requires
        is_clamp(t, bounds),
    ensures
        t.stability_map().map.is_monotone(),
{
    lemma_scaled_monotone::<IntDistance, IntDistance>(1u32);
    let map = t.stability_map().map.graph();
    let model = |d_in: IntDistance| scaled(d_in, 1u32);
    assert forall|a: IntDistance, b: IntDistance| a.value() <= b.value() implies match (
        #[trigger] map(a),
        #[trigger] map(b),
    ) {
        (Ok(x), Ok(y)) => x.value() <= y.value(),
        _ => true,
    } by {
        assert(map(a) == t.stability_map().image(a));
        assert(map(b) == t.stability_map().image(b));
        assert(map(a) == model(a) && map(b) == model(b));
    }
}

/// Make a Transformation that clamps numeric data in `Vec<T>` to `bounds`.
///
/// # Arguments
/// * `bounds` - Tuple of inclusive lower and upper bounds.
///
/// Fails with `MakeTransformation` exactly when the lower bound exceeds the upper bound.
pub fn make_clamp<T: Number + 'static>(bounds: (T, T)) -> (r: Fallible<
    Transformation<
        VectorDomain<AllDomain<T>>,
        VectorDomain<BoundedDomain<T>>,
        SymmetricDistance,
        SymmetricDistance,
    >,
>)
    ensures
        bounds.0.value() > bounds.1.value() ==> fails_with(r, ErrorVariant::MakeTransformation),
        bounds.0.value() <= bounds.1.value() ==> (r matches Ok(t) && is_clamp(t, bounds)),
{
    let (lower, upper) = bounds;
    let output_domain = VectorDomain::new(BoundedDomain::new_closed(bounds)?);
    let clamp = move |arg: &Vec<T>| -> (out: Vec<T>)
        ensures
            is_clamped(out@, arg@, lower, upper),
        { clamp_all(arg, lower, upper) };
    Transformation::new(
        VectorDomain::new_all(),
        output_domain,
        Function::new(clamp),
        SymmetricDistance::default(),
        SymmetricDistance::default(),
        StabilityMap::new_from_constant(1),
    )
}

} // verus!
