//! From typed objects to erased ones: each typed domain, metric, measure,
//! function and map has an erased counterpart that behaves like it on erased
//! values of the right type and fails with `FailedCast` on all others.
use crate::domains::{AllDomain, BoundedDomain, SizedDomain, VectorDomain};
use crate::error::{fails_with, kind, Error, ErrorVariant, Fallible};
use crate::ffi::any::{AnyObject, Erasable, ErasableAtom, ErasableNumber, ObjectView};
use crate::ffi::erased::{pairs, AnyDomain, AnyMeasure, AnyMetric};
use crate::ffi::util::{Atom, Family, Nullary, Type};
use crate::measures::{MaxDivergence, ZeroConcentratedDivergence};
use crate::metrics::{
    AbsoluteDistance, AgnosticMetric, ChangeOneDistance, DiscreteDistance, HammingDistance, InsertDeleteDistance,
    LpDistance, SymmetricDistance,
};
use crate::objects::function::Function;
use crate::objects::maps::{DistanceMap, PrivacyMap, StabilityMap};
use crate::objects::space::{Descriptor, Domain, Measure, Metric, MetricSpace};
use crate::objects::units::{Measurement, Transformation};
use vstd::prelude::*;

verus! {

/// A transformation between erased metric spaces.
pub type AnyTransformation = Transformation<AnyDomain, AnyDomain, AnyMetric, AnyMetric>;

/// A measurement on an erased metric space.
pub type AnyMeasurement = Measurement<AnyDomain, AnyDomain, AnyMetric, AnyMeasure>;

/// The typed domains that have an erased form.
pub trait IntoAnyDomain: Domain {
    /// The family of the erased domain.
    spec fn family(&self) -> Family;

    /// The atom of the erased domain.
    spec fn atom(&self) -> Atom;

    /// The bounds of the erased domain, or zeros where the domain has none.
    spec fn range(&self) -> (int, int);

    /// The length of the erased domain, or zero where the domain fixes none.
    spec fn size(&self) -> nat;

    fn into_any(&self) -> (r: AnyDomain)
        ensures
            r.family() == self.family(),
            r.atom() == self.atom(),
            r.lower() == self.range().0,
            r.upper() == self.range().1,
            r.length() == self.size(),
            r.description() == self.description(),
    ;
}

/// Whether `any` is the erased form of the typed domain `d`.
pub open spec fn domain_erases_to<D: IntoAnyDomain>(d: D, any: AnyDomain) -> bool {
    &&& any.family() == d.family()
    &&& any.atom() == d.atom()
    &&& any.lower() == d.range().0
    &&& any.upper() == d.range().1
    &&& any.length() == d.size()
}

impl<T: ErasableAtom> IntoAnyDomain for AllDomain<T> {
    open spec fn family(&self) -> Family {
        Family::AllDomain
    }

    open spec fn atom(&self) -> Atom {
        T::atom()
    }

    open spec fn range(&self) -> (int, int) {
        (0, 0)
    }

    open spec fn size(&self) -> nat {
        0
    }

    fn into_any(&self) -> (r: AnyDomain) {
        proof {
            T::lemma_scalar(arbitrary());
        }
        AnyDomain::assemble(Family::AllDomain, T::atom_value(), 0, 0, 0)
    }
}

impl<T: ErasableNumber> IntoAnyDomain for BoundedDomain<T> {
    open spec fn family(&self) -> Family {
        Family::BoundedDomain
    }

    open spec fn atom(&self) -> Atom {
        T::atom()
    }

    open spec fn range(&self) -> (int, int) {
        (self.lower().value(), self.upper().value())
    }

    open spec fn size(&self) -> nat {
        0
    }

    fn into_any(&self) -> (r: AnyDomain) {
        let (lower, upper) = self.bounds();
        proof {
            T::lemma_erasable_number(lower);
        }
        AnyDomain::assemble(Family::BoundedDomain, T::atom_value(), lower.to_wide(), upper.to_wide(), 0)
    }
}

impl<T: ErasableAtom> IntoAnyDomain for VectorDomain<AllDomain<T>> {
    open spec fn family(&self) -> Family {
        Family::VectorOfAll
    }

    open spec fn atom(&self) -> Atom {
        T::atom()
    }

    open spec fn range(&self) -> (int, int) {
        (0, 0)
    }

    open spec fn size(&self) -> nat {
        0
    }

    fn into_any(&self) -> (r: AnyDomain) {
        proof {
            T::lemma_scalar(arbitrary());
        }
        AnyDomain::assemble(Family::VectorOfAll, T::atom_value(), 0, 0, 0)
    }
}

impl<T: ErasableNumber> IntoAnyDomain for VectorDomain<BoundedDomain<T>> {
    open spec fn family(&self) -> Family {
        Family::VectorOfBounded
    }

    open spec fn atom(&self) -> Atom {
        T::atom()
    }

    open spec fn range(&self) -> (int, int) {
        (self.element_domain.lower().value(), self.element_domain.upper().value())
    }

    open spec fn size(&self) -> nat {
        0
    }

    fn into_any(&self) -> (r: AnyDomain) {
        let (lower, upper) = self.element_domain.bounds();
        proof {
            T::lemma_erasable_number(lower);
        }
        AnyDomain::assemble(Family::VectorOfBounded, T::atom_value(), lower.to_wide(), upper.to_wide(), 0)
    }
}

impl<T: ErasableAtom> IntoAnyDomain for SizedDomain<VectorDomain<AllDomain<T>>> {
    open spec fn family(&self) -> Family {
        Family::SizedVectorOfAll
    }

    open spec fn atom(&self) -> Atom {
        T::atom()
    }

    open spec fn range(&self) -> (int, int) {
        (0, 0)
    }

    open spec fn size(&self) -> nat {
        self.length as nat
    }

    fn into_any(&self) -> (r: AnyDomain) {
        proof {
            T::lemma_scalar(arbitrary());
        }
        AnyDomain::assemble(Family::SizedVectorOfAll, T::atom_value(), 0, 0, self.length)
    }
}

impl<T: ErasableNumber> IntoAnyDomain for SizedDomain<VectorDomain<BoundedDomain<T>>> {
    open spec fn family(&self) -> Family {
        Family::SizedVectorOfBounded
    }

    open spec fn atom(&self) -> Atom {
        T::atom()
    }

    open spec fn range(&self) -> (int, int) {
        (
            self.element_domain.element_domain.lower().value(),
            self.element_domain.element_domain.upper().value(),
        )
    }

    open spec fn size(&self) -> nat {
        self.length as nat
    }

    fn into_any(&self) -> (r: AnyDomain) {
        let (lower, upper) = self.element_domain.element_domain.bounds();
        proof {
            T::lemma_erasable_number(lower);
        }
        AnyDomain::assemble(
            Family::SizedVectorOfBounded,
            T::atom_value(),
            lower.to_wide(),
            upper.to_wide(),
            self.length,
        )
    }
}

/// The typed metrics that have an erased form. The erased metric is known
/// by its type alone, and its description names the type in which it
/// measures, which the description of a typed metric has no need to say.
pub trait IntoAnyMetric: Metric {
    /// The type of the erased metric.
    spec fn metric_type(&self) -> Type;

    fn into_any(&self) -> (r: AnyMetric)
        ensures
            r.metric_type() == self.metric_type(),
    ;
}

impl IntoAnyMetric for SymmetricDistance {
    open spec fn metric_type(&self) -> Type {
        Type::Named(Nullary::SymmetricDistance)
    }

    fn into_any(&self) -> (r: AnyMetric) {
        AnyMetric::assemble(Type::Named(Nullary::SymmetricDistance))
    }
}

impl IntoAnyMetric for InsertDeleteDistance {
    open spec fn metric_type(&self) -> Type {
        Type::Named(Nullary::InsertDeleteDistance)
    }

    fn into_any(&self) -> (r: AnyMetric) {
        AnyMetric::assemble(Type::Named(Nullary::InsertDeleteDistance))
    }
}

impl IntoAnyMetric for ChangeOneDistance {
    open spec fn metric_type(&self) -> Type {
        Type::Named(Nullary::ChangeOneDistance)
    }

    fn into_any(&self) -> (r: AnyMetric) {
        AnyMetric::assemble(Type::Named(Nullary::ChangeOneDistance))
    }
}

impl IntoAnyMetric for HammingDistance {
    open spec fn metric_type(&self) -> Type {
        Type::Named(Nullary::HammingDistance)
    }

    fn into_any(&self) -> (r: AnyMetric) {
        AnyMetric::assemble(Type::Named(Nullary::HammingDistance))
    }
}

impl IntoAnyMetric for DiscreteDistance {
    open spec fn metric_type(&self) -> Type {
        Type::Named(Nullary::DiscreteDistance)
    }

    fn into_any(&self) -> (r: AnyMetric) {
        AnyMetric::assemble(Type::Named(Nullary::DiscreteDistance))
    }
}

impl IntoAnyMetric for AgnosticMetric {
    open spec fn metric_type(&self) -> Type {
        Type::Named(Nullary::AgnosticMetric)
    }

    fn into_any(&self) -> (r: AnyMetric) {
        AnyMetric::assemble(Type::Named(Nullary::AgnosticMetric))
    }
}

impl<Q: ErasableNumber> IntoAnyMetric for AbsoluteDistance<Q> {
    open spec fn metric_type(&self) -> Type {
        Type::Of(Family::AbsoluteDistance, Q::atom())
    }

    fn into_any(&self) -> (r: AnyMetric) {
        proof {
            Q::lemma_erasable_number(arbitrary());
        }
        AnyMetric::assemble(Type::Of(Family::AbsoluteDistance, Q::atom_value()))
    }
}

impl<Q: ErasableNumber> IntoAnyMetric for LpDistance<1, Q> {
    open spec fn metric_type(&self) -> Type {
        Type::Of(Family::L1Distance, Q::atom())
    }

    fn into_any(&self) -> (r: AnyMetric) {
        proof {
            Q::lemma_erasable_number(arbitrary());
        }
        AnyMetric::assemble(Type::Of(Family::L1Distance, Q::atom_value()))
    }
}

impl<Q: ErasableNumber> IntoAnyMetric for LpDistance<2, Q> {
    open spec fn metric_type(&self) -> Type {
        Type::Of(Family::L2Distance, Q::atom())
    }

    fn into_any(&self) -> (r: AnyMetric) {
        proof {
            Q::lemma_erasable_number(arbitrary());
        }
        AnyMetric::assemble(Type::Of(Family::L2Distance, Q::atom_value()))
    }
}

/// The typed measures that have an erased form.
pub trait IntoAnyMeasure: Measure {
    /// The type of the erased measure.
    spec fn measure_type(&self) -> Type;

    fn into_any(&self) -> (r: AnyMeasure)
        ensures
            r.measure_type() == self.measure_type(),
            r.description() == self.description(),
    ;
}

impl<Q: ErasableNumber> IntoAnyMeasure for MaxDivergence<Q> {
    open spec fn measure_type(&self) -> Type {
        Type::Of(Family::MaxDivergence, Q::atom())
    }

    fn into_any(&self) -> (r: AnyMeasure) {
        proof {
            Q::lemma_erasable_number(arbitrary());
        }
        AnyMeasure::assemble(Type::Of(Family::MaxDivergence, Q::atom_value()))
    }
}

impl<Q: ErasableNumber> IntoAnyMeasure for ZeroConcentratedDivergence<Q> {
    open spec fn measure_type(&self) -> Type {
        Type::Of(Family::ZeroConcentratedDivergence, Q::atom())
    }

    fn into_any(&self) -> (r: AnyMeasure) {
        proof {
            Q::lemma_erasable_number(arbitrary());
        }
        AnyMeasure::assemble(Type::Of(Family::ZeroConcentratedDivergence, Q::atom_value()))
    }
}

/// The typed domains that form a metric space with the metric `M` in erased
/// form too: every pair that the typed layer declares and that can be erased
/// stands in the table of erased metric spaces.
pub trait ErasesWith<M: IntoAnyMetric>: IntoAnyDomain where (Self, M): MetricSpace {
    proof fn lemma_pairs(domain: Self, metric: M)
        requires
            (domain, metric).valid(),
        ensures
            pairs(domain.family(), metric.metric_type()),
    ;
}

impl<T: ErasableAtom> ErasesWith<SymmetricDistance> for AllDomain<T> {
    proof fn lemma_pairs(domain: Self, metric: SymmetricDistance) {
    }
}

impl<T: ErasableAtom> ErasesWith<DiscreteDistance> for AllDomain<T> {
    proof fn lemma_pairs(domain: Self, metric: DiscreteDistance) {
    }
}

impl<T: ErasableAtom> ErasesWith<AgnosticMetric> for AllDomain<T> {
    proof fn lemma_pairs(domain: Self, metric: AgnosticMetric) {
    }
}

impl<T: ErasableAtom, Q: ErasableNumber> ErasesWith<AbsoluteDistance<Q>> for AllDomain<T> {
    proof fn lemma_pairs(domain: Self, metric: AbsoluteDistance<Q>) {
    }
}

impl<T: ErasableNumber, Q: ErasableNumber> ErasesWith<AbsoluteDistance<Q>> for BoundedDomain<T> {
    proof fn lemma_pairs(domain: Self, metric: AbsoluteDistance<Q>) {
    }
}

impl<T: ErasableAtom> ErasesWith<SymmetricDistance> for VectorDomain<AllDomain<T>> {
    proof fn lemma_pairs(domain: Self, metric: SymmetricDistance) {
    }
}

impl<T: ErasableAtom> ErasesWith<InsertDeleteDistance> for VectorDomain<AllDomain<T>> {
    proof fn lemma_pairs(domain: Self, metric: InsertDeleteDistance) {
    }
}

impl<T: ErasableAtom> ErasesWith<AgnosticMetric> for VectorDomain<AllDomain<T>> {
    proof fn lemma_pairs(domain: Self, metric: AgnosticMetric) {
    }
}

impl<T: ErasableAtom, Q: ErasableNumber> ErasesWith<LpDistance<1, Q>> for VectorDomain<AllDomain<T>> {
    proof fn lemma_pairs(domain: Self, metric: LpDistance<1, Q>) {
    }
}

impl<T: ErasableAtom, Q: ErasableNumber> ErasesWith<LpDistance<2, Q>> for VectorDomain<AllDomain<T>> {
    proof fn lemma_pairs(domain: Self, metric: LpDistance<2, Q>) {
    }
}

impl<T: ErasableNumber> ErasesWith<SymmetricDistance> for VectorDomain<BoundedDomain<T>> {
    proof fn lemma_pairs(domain: Self, metric: SymmetricDistance) {
    }
}

impl<T: ErasableNumber> ErasesWith<InsertDeleteDistance> for VectorDomain<BoundedDomain<T>> {
    proof fn lemma_pairs(domain: Self, metric: InsertDeleteDistance) {
    }
}

impl<T: ErasableNumber> ErasesWith<AgnosticMetric> for VectorDomain<BoundedDomain<T>> {
    proof fn lemma_pairs(domain: Self, metric: AgnosticMetric) {
    }
}

impl<T: ErasableNumber, Q: ErasableNumber> ErasesWith<LpDistance<1, Q>> for VectorDomain<BoundedDomain<T>> {
    proof fn lemma_pairs(domain: Self, metric: LpDistance<1, Q>) {
    }
}

impl<T: ErasableNumber, Q: ErasableNumber> ErasesWith<LpDistance<2, Q>> for VectorDomain<BoundedDomain<T>> {
    proof fn lemma_pairs(domain: Self, metric: LpDistance<2, Q>) {
    }
}

impl<T: ErasableAtom> ErasesWith<SymmetricDistance> for SizedDomain<VectorDomain<AllDomain<T>>> {
    proof fn lemma_pairs(domain: Self, metric: SymmetricDistance) {
    }
}

impl<T: ErasableAtom> ErasesWith<InsertDeleteDistance> for SizedDomain<VectorDomain<AllDomain<T>>> {
    proof fn lemma_pairs(domain: Self, metric: InsertDeleteDistance) {
    }
}

impl<T: ErasableAtom> ErasesWith<ChangeOneDistance> for SizedDomain<VectorDomain<AllDomain<T>>> {
    proof fn lemma_pairs(domain: Self, metric: ChangeOneDistance) {
    }
}

impl<T: ErasableAtom> ErasesWith<HammingDistance> for SizedDomain<VectorDomain<AllDomain<T>>> {
    proof fn lemma_pairs(domain: Self, metric: HammingDistance) {
    }
}

impl<T: ErasableNumber> ErasesWith<SymmetricDistance> for SizedDomain<VectorDomain<BoundedDomain<T>>> {
    proof fn lemma_pairs(domain: Self, metric: SymmetricDistance) {
    }
}

impl<T: ErasableNumber> ErasesWith<InsertDeleteDistance> for SizedDomain<VectorDomain<BoundedDomain<T>>> {
    proof fn lemma_pairs(domain: Self, metric: InsertDeleteDistance) {
    }
}

impl<T: ErasableNumber> ErasesWith<ChangeOneDistance> for SizedDomain<VectorDomain<BoundedDomain<T>>> {
    proof fn lemma_pairs(domain: Self, metric: ChangeOneDistance) {
    }
}

impl<T: ErasableNumber> ErasesWith<HammingDistance> for SizedDomain<VectorDomain<BoundedDomain<T>>> {
    proof fn lemma_pairs(domain: Self, metric: HammingDistance) {
    }
}

/// Whether invoking the erased form of `f` on `arg` may end with `res`: an
/// argument of another type fails the cast; else the argument is recovered,
/// `f` is invoked, and its result is erased or its failure passed on.
pub open spec fn erased_relates<TI: Erasable, TO: Erasable>(
    f: Function<TI, TO>,
    arg: AnyObject,
    res: Fallible<AnyObject>,
) -> bool {
    if arg@.type_of() != TI::carrier() {
        fails_with(res, ErrorVariant::FailedCast)
    } else {
        exists|x: TI, y: Fallible<TO>|
            x.erased() == arg@ && #[trigger] f.relates(x, y) && match y {
                Ok(v) => res matches Ok(o) && o@ == v.erased(),
                Err(e) => res == Err::<AnyObject, Error>(e),
            }
    }
}

/// `erased_relates` over a function that is borrowed.
pub open spec fn erased_relates_of<TI: Erasable, TO: Erasable>(
    f: &Function<TI, TO>,
    arg: AnyObject,
    res: Fallible<AnyObject>,
) -> bool {
    erased_relates(*f, arg, res)
}

/// The erased form of a function.
pub fn erase_function<TI: Erasable + 'static, TO: Erasable + 'static>(f: &Function<TI, TO>) -> (r: Function<
    AnyObject,
    AnyObject,
>)
    ensures
        forall|arg: AnyObject, res: Fallible<AnyObject>| #[trigger]
            r.relates(arg, res) ==> erased_relates(*f, arg, res),
{
    let inner = f.share();
    let erased = move |arg: &AnyObject| -> (res: Fallible<AnyObject>)
        ensures
            erased_relates_of(&inner, *arg, res),
        {
            match TI::downcast(arg) {
                Ok(x) => {
                    let y = inner.eval(&x);
                    proof {
                        TI::lemma_erased(x);
                    }
                    match y {
                        Ok(v) => {
                            let o = v.erase();
                            assert(inner.relates(x, y));
                            Ok(o)
                        },
                        Err(e) => {
                            assert(inner.relates(x, y));
                            Err(e)
                        },
                    }
                },
                Err(e) => Err(e),
            }
        };
    Function::new_fallible(erased)
}

/// What the erased form of the map `m` gives for the erased distance `d`: a
/// distance of another type fails the cast; else the bound that `m` gives
/// for the distance, erased, or the kind of its failure.
pub open spec fn erased_image<QI: ErasableNumber, QO: ErasableNumber>(
    m: DistanceMap<QI, QO>,
    d: AnyObject,
) -> Result<AnyObject, ErrorVariant> {
    match d@ {
        ObjectView::One(s) => if s.atom() == QI::atom() {
            match m.image(QI::from_value(s.integer().unwrap())) {
                Ok(v) => Ok(AnyObject::number(v.scalar())),
                Err(k) => Err(k),
            }
        } else {
            Err(ErrorVariant::FailedCast)
        },
        ObjectView::Many(_, _) => Err(ErrorVariant::FailedCast),
    }
}

/// `erased_image` over a map that is borrowed.
pub open spec fn erased_image_of<QI: ErasableNumber, QO: ErasableNumber>(
    m: &DistanceMap<QI, QO>,
    d: AnyObject,
) -> Result<AnyObject, ErrorVariant> {
    erased_image(*m, d)
}

/// The erased form of a map between distances of integer types.
pub fn erase_map<QI: ErasableNumber + 'static, QO: ErasableNumber + 'static>(m: &DistanceMap<QI, QO>) -> (r:
    DistanceMap<AnyObject, AnyObject>)
    ensures
        forall|d: AnyObject| #[trigger] r.image(d) == erased_image(*m, d),
{
    let inner = m.share();
    let ghost model = |d: AnyObject| erased_image(*m, d);
    let erased = move |d: &AnyObject| -> (res: Fallible<AnyObject>)
        ensures
            kind(res) == erased_image_of(&inner, *d),
        {
            match QI::downcast(d) {
                Ok(x) => {
                    proof {
                        QI::lemma_erasable_number(x);
                        QI::lemma_number(x, 0);
                        QI::lemma_scalar(x);
                    }
                    match inner.eval(&x) {
                        Ok(v) => {
                            let o = v.erase();
                            proof {
                                QO::lemma_erasable_number(v);
                                QO::lemma_scalar(v);
                                AnyObject::lemma_number(o, v.scalar());
                            }
                            Ok(o)
                        },
                        Err(e) => Err(e),
                    }
                },
                Err(e) => {
                    proof {
                        QI::lemma_erasable_number(arbitrary());
                    }
                    Err(e)
                },
            }
        };
    DistanceMap::with_model(erased, Ghost(model))
}

/// Whether the erased transformation `any` stands for the typed
/// transformation `t`: its domains and metrics are the erased forms of those
/// of `t`, and its function and stability map are the erased forms of those of `t`.
pub open spec fn is_any_transformation<DI, DO, MI, MO>(any: AnyTransformation, t: Transformation<DI, DO, MI, MO>) -> bool where
    DI: IntoAnyDomain,
    DO: IntoAnyDomain,
    MI: IntoAnyMetric,
    MO: IntoAnyMetric,
    DI::Carrier: Erasable,
    DO::Carrier: Erasable,
    MI::Distance: ErasableNumber,
    MO::Distance: ErasableNumber,
    (DI, MI): MetricSpace,
    (DO, MO): MetricSpace,
 {
    &&& domain_erases_to(t.input_domain(), any.input_domain())
    &&& domain_erases_to(t.output_domain(), any.output_domain())
    &&& any.input_metric().metric_type() == t.input_metric().metric_type()
    &&& any.output_metric().metric_type() == t.output_metric().metric_type()
    &&& forall|arg: AnyObject, res: Fallible<AnyObject>| #[trigger]
        any.function().relates(arg, res) ==> erased_relates(t.function(), arg, res)
    &&& forall|d: AnyObject| #[trigger] any.stability_map().image(d) == erased_image(t.stability_map().map, d)
}

/// Whether the erased measurement `any` stands for the typed measurement `m`.
pub open spec fn is_any_measurement<DI, DO, MI, MO>(any: AnyMeasurement, m: Measurement<DI, DO, MI, MO>) -> bool where
    DI: IntoAnyDomain,
    DO: IntoAnyDomain,
    MI: IntoAnyMetric,
    MO: IntoAnyMeasure,
    DI::Carrier: Erasable,
    DO::Carrier: Erasable,
    MI::Distance: ErasableNumber,
    MO::Distance: ErasableNumber,
    (DI, MI): MetricSpace,
 {
    &&& domain_erases_to(m.input_domain(), any.input_domain())
    &&& domain_erases_to(m.output_domain(), any.output_domain())
    &&& any.input_metric().metric_type() == m.input_metric().metric_type()
    &&& any.output_measure().measure_type() == m.output_measure().measure_type()
    &&& forall|arg: AnyObject, res: Fallible<AnyObject>| #[trigger]
        any.function().relates(arg, res) ==> erased_relates(m.function(), arg, res)
    &&& forall|d: AnyObject| #[trigger] any.privacy_map().image(d) == erased_image(m.privacy_map().map, d)
}

/// Conversion of a typed transformation into an erased one.
pub trait IntoAnyTransformationExt: Sized {
    /// Whether `any` stands for `self`.
    spec fn erases_to(&self, any: AnyTransformation) -> bool;

    /// Erases the transformation.
    fn into_any(self) -> (r: AnyTransformation)
        ensures
            self.erases_to(r),
    ;
}

impl<DI, DO, MI, MO> IntoAnyTransformationExt for Transformation<DI, DO, MI, MO> where
    DI: ErasesWith<MI> + 'static,
    DO: ErasesWith<MO> + 'static,
    MI: IntoAnyMetric + 'static,
    MO: IntoAnyMetric + 'static,
    DI::Carrier: Erasable,
    DO::Carrier: Erasable,
    MI::Distance: ErasableNumber,
    MO::Distance: ErasableNumber,
    (DI, MI): MetricSpace,
    (DO, MO): MetricSpace,
 {
    open spec fn erases_to(&self, any: AnyTransformation) -> bool {
        is_any_transformation(any, *self)
    }

    fn into_any(self) -> (r: AnyTransformation) {
        let input_domain = self.input_domain.into_any();
        let output_domain = self.output_domain.into_any();
        let function = erase_function(&self.function);
        let input_metric = self.input_metric.into_any();
        let output_metric = self.output_metric.into_any();
        let stability_map = StabilityMap { map: erase_map(&self.stability_map.map) };
        proof {
            use_type_invariant(&self);
            DI::lemma_pairs(self.input_domain(), self.input_metric());
            DO::lemma_pairs(self.output_domain(), self.output_metric());
            assert((input_domain, input_metric).valid());
            assert((output_domain, output_metric).valid());
        }
        match AnyTransformation::new(
            input_domain,
            output_domain,
            function,
            input_metric,
            output_metric,
            stability_map,
        ) {
            Ok(any) => any,
            Err(_) => unreached(),
        }
    }
}

/// Conversion of a typed measurement into an erased one.
pub trait IntoAnyMeasurementExt: Sized {
    /// Whether `any` stands for `self`.
    spec fn erases_to(&self, any: AnyMeasurement) -> bool;

    /// Erases the measurement.
    fn into_any(self) -> (r: AnyMeasurement)
        ensures
            self.erases_to(r),
    ;
}

impl<DI, DO, MI, MO> IntoAnyMeasurementExt for Measurement<DI, DO, MI, MO> where
    DI: ErasesWith<MI> + 'static,
    DO: IntoAnyDomain + 'static,
    MI: IntoAnyMetric + 'static,
    MO: IntoAnyMeasure + 'static,
    DI::Carrier: Erasable,
    DO::Carrier: Erasable,
    MI::Distance: ErasableNumber,
    MO::Distance: ErasableNumber,
    (DI, MI): MetricSpace,
 {
    open spec fn erases_to(&self, any: AnyMeasurement) -> bool {
        is_any_measurement(any, *self)
    }

    fn into_any(self) -> (r: AnyMeasurement) {
        let input_domain = self.input_domain.into_any();
        let output_domain = self.output_domain.into_any();
        let function = erase_function(&self.function);
        let input_metric = self.input_metric.into_any();
        let output_measure = self.output_measure.into_any();
        let privacy_map = PrivacyMap { map: erase_map(&self.privacy_map.map) };
        proof {
            use_type_invariant(&self);
            DI::lemma_pairs(self.input_domain(), self.input_metric());
            assert((input_domain, input_metric).valid());
        }
        match AnyMeasurement::new(input_domain, output_domain, function, input_metric, output_measure, privacy_map) {
            Ok(any) => any,
            Err(_) => unreached(),
        }
    }
}

/// What checking the erased claim `d_out` against the bound of a map
/// returns. Both distances must be integers, else the cast fails; both must
/// be non-negative; and the bound must be of the type of the claim.
pub open spec fn any_checked(
    bound: Result<AnyObject, ErrorVariant>,
    d_in: AnyObject,
    d_out: AnyObject,
) -> Result<bool, ErrorVariant> {
    match (integer_of(d_in@), integer_of(d_out@)) {
        (Some(a), Some(b)) => if a < 0 || b < 0 {
            Err(ErrorVariant::InvalidDistance)
        } else {
            match bound {
                Ok(o) => match integer_of(o@) {
                    Some(c) => if o@.type_of() == d_out@.type_of() {
                        Ok(c <= b)
                    } else {
                        Err(ErrorVariant::FailedCast)
                    },
                    None => Err(ErrorVariant::FailedCast),
                },
                Err(k) => Err(k),
            }
        },
        _ => Err(ErrorVariant::FailedCast),
    }
}

/// The integer that an erased value stands for, if it is a scalar of an integer type.
pub open spec fn integer_of(o: ObjectView) -> Option<int> {
    match o {
        ObjectView::One(s) => s.integer(),
        ObjectView::Many(_, _) => None,
    }
}

fn integer_in(o: &AnyObject) -> (r: Option<i128>)
    ensures
        match r {
            Some(v) => integer_of(o@) == Some(v as int),
            None => integer_of(o@).is_none(),
        },
{
    match o.as_scalar() {
        Some(s) => s.integer(),
        None => None,
    }
}

/// Checks an erased claim against an erased bound.
pub fn check_any(bound: Fallible<AnyObject>, d_in: &AnyObject, d_out: &AnyObject) -> (r: Fallible<bool>)
    ensures
        kind(r) == any_checked(kind(bound), *d_in, *d_out),
{
    let (a, b) = match (integer_in(d_in), integer_in(d_out)) {
        (Some(a), Some(b)) => (a, b),
        _ => {
            return Err(Error::with_message(ErrorVariant::FailedCast, "distances must be integers to be compared"));
        },
    };
    if a < 0 || b < 0 {
        return Err(Error::with_message(ErrorVariant::InvalidDistance, "distances must be non-negative"));
    }
    let o = bound?;
    match integer_in(&o) {
        Some(c) => {
            if o.type_of() == d_out.type_of() {
                Ok(c <= b)
            } else {
                Err(Error::with_message(ErrorVariant::FailedCast, "the claim is not of the type of the bound"))
            }
        },
        None => Err(Error::with_message(ErrorVariant::FailedCast, "the bound is not an integer")),
    }
}

/// Whether outputs of the erased transformation are at most `d_out` apart on
/// inputs that are `d_in` apart.
pub fn transformation_check(t: &AnyTransformation, d_in: &AnyObject, d_out: &AnyObject) -> (r: Fallible<bool>)
    ensures
        kind(r) == any_checked(t.stability_map().image(*d_in), *d_in, *d_out),
{
    check_any(t.map(d_in), d_in, d_out)
}

/// Whether the privacy loss of the erased measurement is at most `d_out` on
/// inputs that are `d_in` apart.
pub fn measurement_check(m: &AnyMeasurement, d_in: &AnyObject, d_out: &AnyObject) -> (r: Fallible<bool>)
    ensures
        kind(r) == any_checked(m.privacy_map().image(*d_in), *d_in, *d_out),
{
    check_any(m.map(d_in), d_in, d_out)
}

} // verus!
