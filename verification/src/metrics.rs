//! The metrics that the library's constructors use.
use crate::domains::{AllDomain, BoundedDomain, SizedDomain, VectorDomain};
use crate::error::{Error, ErrorVariant, Fallible};
use crate::objects::space::{Descriptor, Domain, Metric, MetricSpace};
use crate::text::{digits, format_nat};
use crate::traits::Number;
use std::marker::PhantomData;
use vstd::prelude::*;
use vstd::string::StringExecFns;

verus! {

/// The type of distances between datasets.
pub type IntDistance = u32;

/// Metrics that count how many records two datasets differ in.
pub trait DatasetMetric: Metric<Distance = IntDistance> {
}

/// Metrics that measure how far apart two aggregates are.
pub trait SensitivityMetric: Metric {
}

/// The number of records to add or remove to turn one dataset into the other, order ignored.
#[derive(Debug)]
pub struct SymmetricDistance;

impl Clone for SymmetricDistance {
    fn clone(&self) -> (r: Self)
        ensures
            r == *self,
    {
        SymmetricDistance
    }
}

impl Default for SymmetricDistance {
    fn default() -> (r: Self)
        ensures
            r == (SymmetricDistance),
    {
        SymmetricDistance
    }
}

impl Descriptor for SymmetricDistance {
    open spec fn description(&self) -> Seq<char> {
        "SymmetricDistance()"@
    }

    fn equals(&self, other: &Self) -> (b: bool) {
        true
    }

    fn duplicate(&self) -> (r: Self) {
        SymmetricDistance
    }

    fn describe(&self) -> (r: String) {
        String::from_str("SymmetricDistance()")
    }
}

impl Metric for SymmetricDistance {
    type Distance = IntDistance;
}

impl DatasetMetric for SymmetricDistance {
}

/// The number of insertions and deletions that turn one dataset into the other, order respected.
#[derive(Debug)]
pub struct InsertDeleteDistance;

impl Clone for InsertDeleteDistance {
    fn clone(&self) -> (r: Self)
        ensures
            r == *self,
    {
        InsertDeleteDistance
    }
}

impl Default for InsertDeleteDistance {
    fn default() -> (r: Self)
        ensures
            r == (InsertDeleteDistance),
    {
        InsertDeleteDistance
    }
}

impl Descriptor for InsertDeleteDistance {
    open spec fn description(&self) -> Seq<char> {
        "InsertDeleteDistance()"@
    }

    fn equals(&self, other: &Self) -> (b: bool) {
        true
    }

    fn duplicate(&self) -> (r: Self) {
        InsertDeleteDistance
    }

    fn describe(&self) -> (r: String) {
        String::from_str("InsertDeleteDistance()")
    }
}

impl Metric for InsertDeleteDistance {
    type Distance = IntDistance;
}

impl DatasetMetric for InsertDeleteDistance {
}

/// The number of records to change to turn one dataset into another of the same size, order ignored.
#[derive(Debug)]
pub struct ChangeOneDistance;

impl Clone for ChangeOneDistance {
    fn clone(&self) -> (r: Self)
        ensures
            r == *self,
    {
        ChangeOneDistance
    }
}

impl Default for ChangeOneDistance {
    fn default() -> (r: Self)
        ensures
            r == (ChangeOneDistance),
    {
        ChangeOneDistance
    }
}

impl Descriptor for ChangeOneDistance {
    open spec fn description(&self) -> Seq<char> {
        "ChangeOneDistance()"@
    }

    fn equals(&self, other: &Self) -> (b: bool) {
        true
    }

    fn duplicate(&self) -> (r: Self) {
        ChangeOneDistance
    }

    fn describe(&self) -> (r: String) {
        String::from_str("ChangeOneDistance()")
    }
}

impl Metric for ChangeOneDistance {
    type Distance = IntDistance;
}

impl DatasetMetric for ChangeOneDistance {
}

/// The number of positions in which two datasets of the same size differ.
#[derive(Debug)]
pub struct HammingDistance;

impl Clone for HammingDistance {
    fn clone(&self) -> (r: Self)
        ensures
            r == *self,
    {
        HammingDistance
    }
}

impl Default for HammingDistance {
    fn default() -> (r: Self)
        ensures
            r == (HammingDistance),
    {
        HammingDistance
    }
}

impl Descriptor for HammingDistance {
    open spec fn description(&self) -> Seq<char> {
        "HammingDistance()"@
    }

    fn equals(&self, other: &Self) -> (b: bool) {
        true
    }

    fn duplicate(&self) -> (r: Self) {
        HammingDistance
    }

    fn describe(&self) -> (r: String) {
        String::from_str("HammingDistance()")
    }
}

impl Metric for HammingDistance {
    type Distance = IntDistance;
}

impl DatasetMetric for HammingDistance {
}

/// The distance between two vectors in the `P`-norm, measured in `Q`.
///
/// The description names the norm. `Q` is any type at all, floats among
/// them, and a type in general has no name that could be stated here: two
/// such metrics that differ in `Q` are different types and never meet in a
/// comparison. Behind the erased metric, where they can meet, the
/// description names the type too.
pub struct LpDistance<const P: usize, Q> {
    pub _marker: PhantomData<Q>,
}

impl<const P: usize, Q> Default for LpDistance<P, Q> {
    fn default() -> (r: Self)
        ensures
            r == (Self { _marker: PhantomData }),
    {
        LpDistance { _marker: PhantomData }
    }
}

impl<const P: usize, Q> Clone for LpDistance<P, Q> {
    fn clone(&self) -> (r: Self)
        ensures
            r == *self,
    {
        LpDistance { _marker: PhantomData }
    }
}

impl<const P: usize, Q> Descriptor for LpDistance<P, Q> {
    open spec fn description(&self) -> Seq<char> {
        "L"@ + digits(P as nat) + "Distance()"@
    }

    fn equals(&self, other: &Self) -> (b: bool) {
        true
    }

    fn duplicate(&self) -> (r: Self) {
        LpDistance { _marker: PhantomData }
    }

    fn describe(&self) -> (r: String) {
        let mut r = String::from_str("L");
        r.append(format_nat(P as u128).as_str());
        r.append("Distance()");
        r
    }
}

impl<const P: usize, Q> Metric for LpDistance<P, Q> {
    type Distance = Q;
}

impl<const P: usize, Q> SensitivityMetric for LpDistance<P, Q> {
}

/// The distance between two vectors in the 1-norm.
pub type L1Distance<Q> = LpDistance<1, Q>;

/// The distance between two vectors in the 2-norm.
pub type L2Distance<Q> = LpDistance<2, Q>;

/// The distance `|a - b|` between two numbers, measured in `Q`.
///
/// The description names the metric and not `Q`, as that of `LpDistance` does.
pub struct AbsoluteDistance<Q> {
    pub _marker: PhantomData<Q>,
}

impl<Q> Default for AbsoluteDistance<Q> {
    fn default() -> (r: Self)
        ensures
            r == (Self { _marker: PhantomData }),
    {
        AbsoluteDistance { _marker: PhantomData }
    }
}

impl<Q> Clone for AbsoluteDistance<Q> {
    fn clone(&self) -> (r: Self)
        ensures
            r == *self,
    {
        AbsoluteDistance { _marker: PhantomData }
    }
}

impl<Q> Descriptor for AbsoluteDistance<Q> {
    open spec fn description(&self) -> Seq<char> {
        "AbsoluteDistance()"@
    }

    fn equals(&self, other: &Self) -> (b: bool) {
        true
    }

    fn duplicate(&self) -> (r: Self) {
        AbsoluteDistance { _marker: PhantomData }
    }

    fn describe(&self) -> (r: String) {
        String::from_str("AbsoluteDistance()")
    }
}

impl<Q> Metric for AbsoluteDistance<Q> {
    type Distance = Q;
}

impl<Q> SensitivityMetric for AbsoluteDistance<Q> {
}

/// The distance that is zero between equal values and one between different values.
#[derive(Debug)]
pub struct DiscreteDistance;

impl Clone for DiscreteDistance {
    fn clone(&self) -> (r: Self)
        ensures
            r == *self,
    {
        DiscreteDistance
    }
}

impl Default for DiscreteDistance {
    fn default() -> (r: Self)
        ensures
            r == (DiscreteDistance),
    {
        DiscreteDistance
    }
}

impl Descriptor for DiscreteDistance {
    open spec fn description(&self) -> Seq<char> {
        "DiscreteDistance()"@
    }

    fn equals(&self, other: &Self) -> (b: bool) {
        true
    }

    fn duplicate(&self) -> (r: Self) {
        DiscreteDistance
    }

    fn describe(&self) -> (r: String) {
        String::from_str("DiscreteDistance()")
    }
}

impl Metric for DiscreteDistance {
    type Distance = IntDistance;
}

/// The metric of data whose distances nothing is claimed about.
#[derive(Debug)]
pub struct AgnosticMetric;

impl Clone for AgnosticMetric {
    fn clone(&self) -> (r: Self)
        ensures
            r == *self,
    {
        AgnosticMetric
    }
}

impl Default for AgnosticMetric {
    fn default() -> (r: Self)
        ensures
            r == (AgnosticMetric),
    {
        AgnosticMetric
    }
}

impl Descriptor for AgnosticMetric {
    open spec fn description(&self) -> Seq<char> {
        "AgnosticMetric()"@
    }

    fn equals(&self, other: &Self) -> (b: bool) {
        true
    }

    fn duplicate(&self) -> (r: Self) {
        AgnosticMetric
    }

    fn describe(&self) -> (r: String) {
        String::from_str("AgnosticMetric()")
    }
}

impl Metric for AgnosticMetric {
    type Distance = ();
}

/// For a metric `M` with distance `d`, the greatest change of `d` between any
/// two positions when one dataset is replaced by the other.
pub struct SupDistance<M: Metric> {
    pub inner: M,
}

impl<M: Metric + Default> Default for SupDistance<M> {
    fn default() -> (r: Self)
        ensures
            call_ensures(M::default, (), r.inner),
    {
        SupDistance { inner: M::default() }
    }
}

impl<M: Metric> Clone for SupDistance<M> {
    fn clone(&self) -> (r: Self)
        ensures
            r == *self,
    {
        SupDistance { inner: self.inner.duplicate() }
    }
}

impl<M: Metric> Descriptor for SupDistance<M> {
    open spec fn description(&self) -> Seq<char> {
        "InfDistance("@ + self.inner.description() + ")"@
    }

    fn equals(&self, other: &Self) -> (b: bool) {
        self.inner.equals(&other.inner)
    }

    fn duplicate(&self) -> (r: Self) {
        SupDistance { inner: self.inner.duplicate() }
    }

    fn describe(&self) -> (r: String) {
        let mut r = String::from_str("InfDistance(");
        r.append(self.inner.describe().as_str());
        r.append(")");
        r
    }
}

impl<M: Metric> Metric for SupDistance<M> {
    type Distance = M::Distance;
}

impl<M: Metric> SensitivityMetric for SupDistance<M> {
}

// The pairs of a domain and a metric that form a metric space.

impl<T> MetricSpace for (AllDomain<T>, SymmetricDistance) {
    open spec fn valid(&self) -> bool {
        true
    }

    fn check_space(&self) -> (r: Fallible<()>) {
        Ok(())
    }
}

impl<T> MetricSpace for (AllDomain<T>, DiscreteDistance) {
    open spec fn valid(&self) -> bool {
        true
    }

    fn check_space(&self) -> (r: Fallible<()>) {
        Ok(())
    }
}

impl<T> MetricSpace for (AllDomain<T>, AgnosticMetric) {
    open spec fn valid(&self) -> bool {
        true
    }

    fn check_space(&self) -> (r: Fallible<()>) {
        Ok(())
    }
}

impl<T, Q> MetricSpace for (AllDomain<T>, AbsoluteDistance<Q>) {
    open spec fn valid(&self) -> bool {
        true
    }

    fn check_space(&self) -> (r: Fallible<()>) {
        Ok(())
    }
}

impl<T: Number, Q> MetricSpace for (BoundedDomain<T>, AbsoluteDistance<Q>) {
    open spec fn valid(&self) -> bool {
        true
    }

    fn check_space(&self) -> (r: Fallible<()>) {
        Ok(())
    }
}

impl<D: Domain> MetricSpace for (VectorDomain<D>, SymmetricDistance) {
    open spec fn valid(&self) -> bool {
        true
    }

    fn check_space(&self) -> (r: Fallible<()>) {
        Ok(())
    }
}

impl<D: Domain> MetricSpace for (VectorDomain<D>, InsertDeleteDistance) {
    open spec fn valid(&self) -> bool {
        true
    }

    fn check_space(&self) -> (r: Fallible<()>) {
        Ok(())
    }
}

impl<D: Domain> MetricSpace for (VectorDomain<D>, AgnosticMetric) {
    open spec fn valid(&self) -> bool {
        true
    }

    fn check_space(&self) -> (r: Fallible<()>) {
        Ok(())
    }
}

impl<D: Domain, const P: usize, Q> MetricSpace for (VectorDomain<D>, LpDistance<P, Q>) {
    open spec fn valid(&self) -> bool {
        P >= 1
    }

    fn check_space(&self) -> (r: Fallible<()>) {
        if P >= 1 {
            Ok(())
        } else {
            Err(Error::with_message(ErrorVariant::InvalidMetricSpace, "the norm of an Lp distance must be at least one"))
        }
    }
}

impl<D: Domain> MetricSpace for (SizedDomain<VectorDomain<D>>, SymmetricDistance) {
    open spec fn valid(&self) -> bool {
        true
    }

    fn check_space(&self) -> (r: Fallible<()>) {
        Ok(())
    }
}

impl<D: Domain> MetricSpace for (SizedDomain<VectorDomain<D>>, InsertDeleteDistance) {
    open spec fn valid(&self) -> bool {
        true
    }

    fn check_space(&self) -> (r: Fallible<()>) {
        Ok(())
    }
}

impl<D: Domain> MetricSpace for (SizedDomain<VectorDomain<D>>, ChangeOneDistance) {
    open spec fn valid(&self) -> bool {
        true
    }

    fn check_space(&self) -> (r: Fallible<()>) {
        Ok(())
    }
}

impl<D: Domain> MetricSpace for (SizedDomain<VectorDomain<D>>, HammingDistance) {
    open spec fn valid(&self) -> bool {
        true
    }

    fn check_space(&self) -> (r: Fallible<()>) {
        Ok(())
    }
}

impl<D: Domain, M: Metric> MetricSpace for (VectorDomain<D>, SupDistance<M>) {
    open spec fn valid(&self) -> bool {
        true
    }

    fn check_space(&self) -> (r: Fallible<()>) {
        Ok(())
    }
}

} // verus!
