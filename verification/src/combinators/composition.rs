//! Sequential composition: several measurements run on the same data, their
//! losses combined by the rule of the measure.
use crate::domains::VectorDomain;
use crate::error::{fails_with, Error, ErrorVariant, Fallible};
use crate::measures::{
    lemma_checked_sum_monotone, lemma_checked_sum_of_constant, BasicCompositionMeasure, MaxDivergence,
};
use crate::objects::maps::collect_bounds;
use crate::traits::Number;
use crate::objects::function::{sequence_relates, Function};
use crate::objects::maps::{combined_relates, composed_image, DistanceMap, PrivacyMap};
use crate::objects::space::{Descriptor, Domain, Measure, Metric, MetricSpace};
use crate::objects::units::Measurement;
use vstd::prelude::*;

verus! {

/// Whether two measurements share their domains, their metric and their measure.
pub open spec fn agree<DI, DO, MI, MO>(a: Measurement<DI, DO, MI, MO>, b: Measurement<DI, DO, MI, MO>) -> bool where
    DI: Domain,
    DO: Domain,
    MI: Metric,
    MO: Measure,
    (DI, MI): MetricSpace,
 {
    &&& a.input_domain() == b.input_domain()
    &&& a.output_domain() == b.output_domain()
    &&& a.input_metric() == b.input_metric()
    &&& a.output_measure() == b.output_measure()
}

/// Whether two measurements share their domains.
pub open spec fn agree_on_domains<DI, DO, MI, MO>(
    a: Measurement<DI, DO, MI, MO>,
    b: Measurement<DI, DO, MI, MO>,
) -> bool where DI: Domain, DO: Domain, MI: Metric, MO: Measure, (DI, MI): MetricSpace {
    a.input_domain() == b.input_domain() && a.output_domain() == b.output_domain()
}

/// Whether `m` is the sequential composition of `parts`: it has their input
/// space and measure, returns the list of their results, and combines their
/// losses by the rule of the measure.
pub open spec fn is_sequential_composition<DI, DO, MI, MO>(
    m: Measurement<DI, VectorDomain<DO>, MI, MO>,
    parts: Seq<Measurement<DI, DO, MI, MO>>,
) -> bool where
    DI: Domain,
    DO: Domain,
    MI: Metric,
    MO: BasicCompositionMeasure,
    (DI, MI): MetricSpace,
 {
    &&& parts.len() > 0
    &&& m.input_domain() == parts[0].input_domain()
    &&& m.output_domain().element_domain == parts[0].output_domain()
    &&& m.input_metric() == parts[0].input_metric()
    &&& m.output_measure() == parts[0].output_measure()
    &&& forall|arg: DI::Carrier, res: Fallible<Vec<DO::Carrier>>| #[trigger]
        m.function().relates(arg, res) <==> sequence_relates(
            Seq::new(parts.len(), |i: int| parts[i].function()),
            arg,
            res,
        )
    &&& forall|d_in: MI::Distance| #[trigger]
        m.privacy_map().image(d_in) == composed_image(
            Seq::new(parts.len(), |i: int| parts[i].privacy_map().map),
            parts[0].output_measure(),
            d_in,
        )
    &&& forall|d_in: MI::Distance, res: Fallible<MO::Distance>| #[trigger]
        m.privacy_map().map.relates(d_in, res) <==> combined_relates(
            Seq::new(parts.len(), |i: int| parts[i].privacy_map().map),
            parts[0].output_measure(),
            d_in,
            res,
        )
}

/// What sequential composition returns: it refuses an empty list with
/// `MakeMeasurement`; it reports the first measurement that disagrees with
/// the first of the list, with `DomainMismatch` when a domain differs and else
/// with `MetricMismatch`; and it composes lists that agree.
pub open spec fn sequential_composition_outcome<DI, DO, MI, MO>(
    r: Fallible<Measurement<DI, VectorDomain<DO>, MI, MO>>,
    parts: Seq<Measurement<DI, DO, MI, MO>>,
) -> bool where
    DI: Domain,
    DO: Domain,
    MI: Metric,
    MO: BasicCompositionMeasure,
    (DI, MI): MetricSpace,
 {
    if parts.len() == 0 {
        fails_with(r, ErrorVariant::MakeMeasurement)
    } else if forall|i: int| 0 <= i < parts.len() ==> agree(parts[0], #[trigger] parts[i]) {
        r matches Ok(m) && is_sequential_composition(m, parts)
    } else {
        exists|k: int|
            {
                &&& 0 <= k < parts.len()
                &&& !agree(parts[0], #[trigger] parts[k])
                &&& forall|j: int| 0 <= j < k ==> agree(parts[0], #[trigger] parts[j])
                &&& fails_with(
                    r,
                    if agree_on_domains(parts[0], parts[k]) {
                        ErrorVariant::MetricMismatch
                    } else {
                        ErrorVariant::DomainMismatch
                    },
                )
            }
    }
}

/// Construct the sequential composition of `measurements`: a measurement
/// that runs each of them on the same input, with independent randomness,
/// and returns their results in order.
pub fn make_sequential_composition<DI, DO, MI, MO>(measurements: &Vec<Measurement<DI, DO, MI, MO>>) -> (r:
    Fallible<Measurement<DI, VectorDomain<DO>, MI, MO>>) where
    DI: 'static + Domain,
    DO: 'static + Domain,
    MI: 'static + Metric,
    MO: 'static + BasicCompositionMeasure,
    (DI, MI): MetricSpace,

    ensures
        sequential_composition_outcome(r, measurements@),
{
    if measurements.len() == 0 {
        return Err(Error::with_message(ErrorVariant::MakeMeasurement, "Must have at least one measurement"));
    }
    let first = &measurements[0];
    let mut functions: Vec<Function<DI::Carrier, DO::Carrier>> = Vec::new();
    let mut maps: Vec<DistanceMap<MI::Distance, MO::Distance>> = Vec::new();
    let mut i: usize = 0;
    while i < measurements.len()
        invariant
            i <= measurements.len(),
            measurements.len() > 0,
            *first == measurements@[0],
            functions.len() == i,
            maps.len() == i,
            forall|j: int| 0 <= j < i ==> agree(measurements@[0], #[trigger] measurements@[j]),
            forall|j: int| 0 <= j < i ==> #[trigger] functions@[j] == measurements@[j].function(),
            forall|j: int| 0 <= j < i ==> #[trigger] maps@[j] == measurements@[j].privacy_map().map,
        decreases measurements.len() - i,
    {
        let part = &measurements[i];
        if !first.input_domain.equals(&part.input_domain) || !first.output_domain.equals(&part.output_domain) {
            assert(!agree(measurements@[0], measurements@[i as int]));
            return Err(Error::with_message(ErrorVariant::DomainMismatch, "All domains must be the same"));
        }
        if !first.input_metric.equals(&part.input_metric) || !first.output_measure.equals(&part.output_measure) {
            assert(!agree(measurements@[0], measurements@[i as int]));
            return Err(
                Error::with_message(ErrorVariant::MetricMismatch, "All metrics and measures must be the same"),
            );
        }
        functions.push(part.function.share());
        maps.push(part.privacy_map.map.share());
        i = i + 1;
    }
    proof {
        use_type_invariant(first);
        assert(functions@ =~= Seq::new(measurements@.len(), |i: int| measurements@[i].function()));
        assert(maps@ =~= Seq::new(measurements@.len(), |i: int| measurements@[i].privacy_map().map));
    }
    let function = Function::make_sequence(functions);
    let privacy_map = PrivacyMap { map: DistanceMap::make_combined(maps, first.output_measure.duplicate()) };
    Measurement::new(
        first.input_domain.duplicate(),
        VectorDomain::new(first.output_domain.duplicate()),
        function,
        first.input_metric.duplicate(),
        first.output_measure.duplicate(),
        privacy_map,
    )
}

/// When every map gives the loss `epsilon` for `d_in`, the collected losses are `epsilon`, once for each map.
pub proof fn lemma_collect_constant<QI, QO>(maps: Seq<DistanceMap<QI, QO>>, d_in: QI, epsilon: QO)
    requires
        forall|i: int| 0 <= i < maps.len() ==> (#[trigger] maps[i]).image(d_in) == Ok::<QO, ErrorVariant>(epsilon),
    ensures
        collect_bounds(maps, d_in) == Ok::<Seq<QO>, ErrorVariant>(Seq::new(maps.len(), |i: int| epsilon)),
    decreases maps.len(),
{
    if maps.len() == 0 {
        assert(Seq::new(maps.len(), |i: int| epsilon) =~= Seq::<QO>::empty());
    } else {
        lemma_collect_constant(maps.drop_last(), d_in, epsilon);
        assert(maps.last() == maps[maps.len() - 1]);
        assert(Seq::new((maps.len() - 1) as nat, |i: int| epsilon).push(epsilon) =~= Seq::new(
            maps.len(),
            |i: int| epsilon,
        ));
    }
}

/// Budget accounting: the sequential composition of `k` measurements that
/// each lose `epsilon` at the distance `d_in` loses, at `d_in`, the `k`-fold
/// composition of `epsilon` by the rule of the measure.
pub proof fn lemma_sequential_budget<DI, DO, MI, MO>(
    m: Measurement<DI, VectorDomain<DO>, MI, MO>,
    parts: Seq<Measurement<DI, DO, MI, MO>>,
    d_in: MI::Distance,
    epsilon: MO::Distance,
) where DI: Domain, DO: Domain, MI: Metric, MO: BasicCompositionMeasure, (DI, MI): MetricSpace
    requires
        is_sequential_composition(m, parts),
        forall|i: int|
            0 <= i < parts.len() ==> (#[trigger] parts[i]).privacy_map().image(d_in) == Ok::<
                MO::Distance,
                ErrorVariant,
            >(epsilon),
    ensures
        m.privacy_map().image(d_in) == parts[0].output_measure().composition(
            Seq::new(parts.len(), |i: int| epsilon),
        ),
{
    let maps = Seq::new(parts.len(), |i: int| parts[i].privacy_map().map);
    assert forall|i: int| 0 <= i < maps.len() implies (#[trigger] maps[i]).image(d_in) == Ok::<
        MO::Distance,
        ErrorVariant,
    >(epsilon) by {
        assert(parts[i].privacy_map().image(d_in) == Ok::<MO::Distance, ErrorVariant>(epsilon));
    }
    lemma_collect_constant(maps, d_in, epsilon);
}

/// Budget accounting under pure differential privacy, where losses add up:
/// `k` measurements of loss `epsilon` each lose `k * epsilon` together, as
/// long as that fits the type of the loss.
pub proof fn lemma_sequential_budget_additive<DI, DO, MI, Q>(
    m: Measurement<DI, VectorDomain<DO>, MI, MaxDivergence<Q>>,
    parts: Seq<Measurement<DI, DO, MI, MaxDivergence<Q>>>,
    d_in: MI::Distance,
    epsilon: Q,
) where DI: Domain, DO: Domain, MI: Metric, Q: Number, (DI, MI): MetricSpace
    requires
        is_sequential_composition(m, parts),
        forall|i: int|
            0 <= i < parts.len() ==> (#[trigger] parts[i]).privacy_map().image(d_in) == Ok::<Q, ErrorVariant>(
                epsilon,
            ),
        epsilon.value() >= 0,
        parts.len() * epsilon.value() <= Q::highest(),
    ensures
        m.privacy_map().image(d_in) == Ok::<Q, ErrorVariant>(Q::from_value(parts.len() * epsilon.value())),
{
    lemma_sequential_budget(m, parts, d_in, epsilon);
    lemma_checked_sum_of_constant(Seq::new(parts.len(), |i: int| epsilon), epsilon);
}

/// The bounds that are collected are those that the maps give, one for each map.
pub proof fn lemma_collected<QI, QO>(maps: Seq<DistanceMap<QI, QO>>, d_in: QI)
    requires
        collect_bounds(maps, d_in) is Ok,
    ensures
        collect_bounds(maps, d_in).unwrap().len() == maps.len(),
        forall|i: int|
            0 <= i < maps.len() ==> (#[trigger] maps[i]).image(d_in) == Ok::<QO, ErrorVariant>(
                collect_bounds(maps, d_in).unwrap()[i],
            ),
    decreases maps.len(),
{
    if maps.len() > 0 {
        lemma_collected(maps.drop_last(), d_in);
        let earlier = collect_bounds(maps.drop_last(), d_in).unwrap();
        assert forall|i: int| 0 <= i < maps.len() implies (#[trigger] maps[i]).image(d_in) == Ok::<
            QO,
            ErrorVariant,
        >(collect_bounds(maps, d_in).unwrap()[i]) by {
            if i < maps.len() - 1 {
                assert(maps.drop_last()[i] == maps[i]);
            } else {
                assert(maps.last() == maps[i]);
            }
        }
    }
}

/// Under pure differential privacy, the sequential composition of
/// measurements with monotone privacy maps has a monotone privacy map.
pub proof fn lemma_sequential_composition_monotone<DI, DO, MI, Q>(
    m: Measurement<DI, VectorDomain<DO>, MI, MaxDivergence<Q>>,
    parts: Seq<Measurement<DI, DO, MI, MaxDivergence<Q>>>,
) where DI: Domain, DO: Domain, MI: Metric, Q: Number, (DI, MI): MetricSpace, MI::Distance: Number
    requires
        is_sequential_composition(m, parts),
        forall|i: int| 0 <= i < parts.len() ==> (#[trigger] parts[i]).privacy_map().map.is_monotone(),
    ensures
        m.privacy_map().map.is_monotone(),
{
    let maps = Seq::new(parts.len(), |i: int| parts[i].privacy_map().map);
    let map = m.privacy_map().map.graph();
    assert forall|a: MI::Distance, b: MI::Distance| a.value() <= b.value() implies match (
        #[trigger] map(a),
        #[trigger] map(b),
    ) {
        (Ok(x), Ok(y)) => x.value() <= y.value(),
        _ => true,
    } by {
        assert(map(a) == m.privacy_map().image(a));
        assert(map(b) == m.privacy_map().image(b));
        if map(a) is Ok && map(b) is Ok {
            lemma_collected(maps, a);
            lemma_collected(maps, b);
            let da = collect_bounds(maps, a).unwrap();
            let db = collect_bounds(maps, b).unwrap();
            assert forall|i: int| 0 <= i < da.len() implies (#[trigger] da[i]).value() <= db[i].value() by {
                let part = parts[i].privacy_map().map.graph();
                assert(maps[i] == parts[i].privacy_map().map);
                assert(part(a) == maps[i].image(a));
                assert(part(b) == maps[i].image(b));
                assert(parts[i].privacy_map().map.is_monotone());
            }
            lemma_checked_sum_monotone(da, db);
        }
    }
}

} // verus!
