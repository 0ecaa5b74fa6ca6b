//! Domains, metrics, measures, and the relation that pairs a domain with a metric.
use crate::error::{fails_with, ErrorVariant, Fallible};
use vstd::prelude::*;

verus! {

/// What domains, metrics and measures have in common: they are plain values
/// that can be compared, copied and printed.
pub trait Descriptor: Sized {
    /// The text that describes the structure, parameters included.
    spec fn description(&self) -> Seq<char>;

    /// Structural equality: all descriptive parameters match.
    fn equals(&self, other: &Self) -> (b: bool)
        ensures
            b == (*self == *other),
    ;

    fn duplicate(&self) -> (r: Self)
        ensures
            r == *self,
    ;

    fn describe(&self) -> (r: String)
        ensures
            r@ == self.description(),
    ;
}

/// The set of admissible values of a carrier type.
pub trait Domain: Descriptor {
    type Carrier;

    /// Whether `value` belongs to the domain.
    spec fn contains(&self, value: Self::Carrier) -> bool;

    fn member(&self, value: &Self::Carrier) -> (r: Fallible<bool>)
        ensures
            r matches Ok(b) && b == self.contains(*value),
    ;
}

/// A notion of distance between two values of a domain.
pub trait Metric: Descriptor {
    type Distance;
}

/// A notion of distance between two distributions of outputs: a privacy loss.
pub trait Measure: Descriptor {
    type Distance;
}

/// The pairs of a domain and a metric that may stand at the ends of a
/// transformation or at the input of a measurement. The trait is implemented
/// for the pairs of types that can form a metric space; `valid` then decides
/// for the values at hand.
pub trait MetricSpace {
    spec fn valid(&self) -> bool;

    fn check_space(&self) -> (r: Fallible<()>)
        ensures
            self.valid() ==> r is Ok,
            !self.valid() ==> fails_with(r, ErrorVariant::InvalidMetricSpace),
    ;
}

/// Whether `domain` and `metric` form a valid metric space.
pub fn is_valid_metric_space<D: Domain, M: Metric>(domain: &D, metric: &M) -> (b: bool)
    where (D, M): MetricSpace
    ensures
        b == (*domain, *metric).valid(),
{
    (domain.duplicate(), metric.duplicate()).check_space().is_ok()
}

/// Fails with `InvalidMetricSpace` exactly when `domain` and `metric` do not pair.
pub fn require_metric_space<D: Domain, M: Metric>(domain: &D, metric: &M) -> (r: Fallible<()>)
    where (D, M): MetricSpace
    ensures
        (*domain, *metric).valid() ==> r is Ok,
        !(*domain, *metric).valid() ==> fails_with(r, ErrorVariant::InvalidMetricSpace),
{
    (domain.duplicate(), metric.duplicate()).check_space()
}

} // verus!
