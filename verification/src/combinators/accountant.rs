//! Budget tracking: the accountant behind concurrent composition, privacy
//! filters and privacy odometers.
//!
//! An accountant holds a dataset and a running total of the privacy loss that
//! has been committed on it. It is the one mutable object of the library: an
//! admission needs exclusive access, so two admissions can never both pass the
//! check against the same balance.
use crate::domains::AllDomain;
use crate::error::{fails_with, kind, Error, ErrorVariant, Fallible};
use crate::measures::BasicCompositionMeasure;
use crate::objects::function::Function;
use crate::objects::maps::{DistanceMap, PrivacyMap};
use crate::objects::space::{require_metric_space, Descriptor, Domain, Metric, MetricSpace};
use crate::objects::units::Measurement;
use crate::traits::Number;
use vstd::prelude::*;

verus! {

/// A dataset with the privacy loss spent on it so far and, for a filter, the
/// cap that the loss may never exceed.
#[verifier::reject_recursive_types(DI)]
#[verifier::reject_recursive_types(MI)]
#[verifier::reject_recursive_types(MO)]
pub struct Accountant<DI: Domain, MI: Metric, MO: BasicCompositionMeasure> where
    (DI, MI): MetricSpace,
    MI::Distance: Number,
    MO::Distance: Number,
 {
    input_domain: DI,
    input_metric: MI,
    output_measure: MO,
    data: DI::Carrier,
    d_in: MI::Distance,
    cap: Option<MO::Distance>,
    spent: MO::Distance,
}

/// The loss committed after admitting a child of loss `cost` on top of
/// `spent`, by the rule of `measure`: the composition of the two, refused with
/// `InvalidDistance` when the cost is negative or the total exceeds the cap.
pub open spec fn committed<MO: BasicCompositionMeasure>(
    measure: MO,
    spent: MO::Distance,
    cap: Option<MO::Distance>,
    cost: MO::Distance,
) -> Result<MO::Distance, ErrorVariant> where MO::Distance: Number {
    if cost.value() < 0 {
        Err(ErrorVariant::InvalidDistance)
    } else {
        match measure.composition(seq![spent, cost]) {
            Ok(total) => if total.value() < spent.value() || (cap matches Some(c) && total.value() > c.value()) {
                Err(ErrorVariant::InvalidDistance)
            } else {
                Ok(total)
            },
            Err(k) => Err(k),
        }
    }
}

impl<DI: Domain, MI: Metric, MO: BasicCompositionMeasure> Accountant<DI, MI, MO> where
    (DI, MI): MetricSpace,
    MI::Distance: Number,
    MO::Distance: Number,
 {
    /// The committed loss is non-negative and within the cap, if there is one.
    #[verifier::type_invariant]
    pub closed spec fn wf(&self) -> bool {
        &&& self.spent.value() >= 0
        &&& self.cap matches Some(c) ==> self.spent.value() <= c.value()
    }

    /// The domain of the dataset.
    pub closed spec fn input_domain(&self) -> DI {
        self.input_domain
    }

    /// The metric on the domain of the dataset.
    pub closed spec fn input_metric(&self) -> MI {
        self.input_metric
    }

    /// The measure of the privacy loss.
    pub closed spec fn output_measure(&self) -> MO {
        self.output_measure
    }

    /// The dataset that admitted measurements are run on.
    pub closed spec fn data(&self) -> DI::Carrier {
        self.data
    }

    /// The distance between this dataset and its neighbours that all losses refer to.
    pub closed spec fn d_in(&self) -> MI::Distance {
        self.d_in
    }

    /// The cap on the committed loss; an odometer has none.
    pub closed spec fn cap(&self) -> Option<MO::Distance> {
        self.cap
    }

    /// The loss committed so far.
    pub closed spec fn spent(&self) -> MO::Distance {
        self.spent
    }

    /// Whether `other` differs from `self` in nothing but the committed loss.
    pub open spec fn same_but_spent(&self, other: &Self) -> bool {
        &&& self.input_domain() == other.input_domain()
        &&& self.input_metric() == other.input_metric()
        &&& self.output_measure() == other.output_measure()
        &&& self.data() == other.data()
        &&& self.d_in() == other.d_in()
        &&& self.cap() == other.cap()
    }

    /// What admitting `child` does. A child that does not fit the accountant
    /// or the budget is refused and nothing changes; otherwise its loss is
    /// committed and it is run on the data.
    pub open spec fn admission<DO: Domain>(
        &self,
        after: &Self,
        child: &Measurement<DI, DO, MI, MO>,
        r: Fallible<DO::Carrier>,
    ) -> bool {
        if child.input_domain() != self.input_domain() {
            fails_with(r, ErrorVariant::DomainMismatch) && *after == *self
        } else if child.input_metric() != self.input_metric() || child.output_measure()
            != self.output_measure() {
            fails_with(r, ErrorVariant::MetricMismatch) && *after == *self
        } else {
            match child.privacy_map().image(self.d_in()) {
                Err(k) => fails_with(r, k) && *after == *self,
                Ok(cost) => match committed(self.output_measure(), self.spent(), self.cap(), cost) {
                    Err(k) => fails_with(r, k) && *after == *self,
                    Ok(total) => {
                        &&& self.same_but_spent(after)
                        &&& after.spent() == total
                        &&& child.function().relates(self.data(), r)
                    },
                },
            }
        }
    }

    /// The loss committed so far: the reading of the odometer.
    pub fn consumed(&self) -> (r: MO::Distance)
        ensures
            r == self.spent(),
            r.value() >= 0,
            self.cap() matches Some(c) ==> r.value() <= c.value(),
    {
        proof {
            use_type_invariant(self);
        }
        self.spent
    }

    /// Takes in `child`: checks that it fits the accountant, computes its loss
    /// at the accountant's input distance, commits the loss if the budget
    /// allows it, and only then runs the child on the data.
    pub fn accept<DO: Domain>(&mut self, child: &Measurement<DI, DO, MI, MO>) -> (r: Fallible<DO::Carrier>)
        ensures
            old(self).admission(final(self), child, r),
            final(self).cap() matches Some(c) ==> final(self).spent().value() <= c.value(),
            final(self).spent().value() >= old(self).spent().value(),
    {
        proof {
            use_type_invariant(&*self);
        }
        if !child.input_domain.equals(&self.input_domain) {
            return Err(
                Error::with_message(ErrorVariant::DomainMismatch, "the child's input domain is not the accountant's"),
            );
        }
        if !child.input_metric.equals(&self.input_metric) || !child.output_measure.equals(&self.output_measure) {
            return Err(
                Error::with_message(
                    ErrorVariant::MetricMismatch,
                    "the child's metric or measure is not the accountant's",
                ),
            );
        }
        let cost = child.map(&self.d_in)?;
        let zero = MO::Distance::zero();
        if cost.total_lt(&zero) {
            return Err(Error::with_message(ErrorVariant::InvalidDistance, "a privacy loss must be non-negative"));
        }
        let mut pair: Vec<MO::Distance> = Vec::new();
        pair.push(self.spent);
        pair.push(cost);
        assert(pair@ =~= seq![self.spent, cost]);
        let total = self.output_measure.compose(&pair)?;
        if total.total_lt(&self.spent) {
            return Err(Error::with_message(ErrorVariant::InvalidDistance, "a composition may not lower the loss"));
        }
        match &self.cap {
            Some(c) => {
                if c.total_lt(&total) {
                    return Err(Error::with_message(ErrorVariant::InvalidDistance, "privacy budget exceeded"));
                }
            },
            None => {},
        }
        self.spent = total;
        child.invoke(&self.data)
    }
}

/// Whether `a` is a fresh accountant over `data` with the given parts: nothing is spent yet.
pub open spec fn is_fresh<DI: Domain, MI: Metric, MO: BasicCompositionMeasure>(
    a: Accountant<DI, MI, MO>,
    input_domain: DI,
    input_metric: MI,
    output_measure: MO,
    data: DI::Carrier,
    d_in: MI::Distance,
    cap: Option<MO::Distance>,
) -> bool where (DI, MI): MetricSpace, MI::Distance: Number, MO::Distance: Number {
    &&& a.input_domain() == input_domain
    &&& a.input_metric() == input_metric
    &&& a.output_measure() == output_measure
    &&& a.data() == data
    &&& a.d_in() == d_in
    &&& a.cap() == cap
    &&& a.spent().value() == 0
}

/// What opening an accountant returns. It is refused with
/// `InvalidMetricSpace` when domain and metric do not pair, with
/// `InvalidDistance` when the input distance or the cap is negative, and with
/// `FailedFunction` when the data do not belong to the domain.
pub open spec fn opening<DI: Domain, MI: Metric, MO: BasicCompositionMeasure>(
    r: Fallible<Accountant<DI, MI, MO>>,
    input_domain: DI,
    input_metric: MI,
    output_measure: MO,
    data: DI::Carrier,
    d_in: MI::Distance,
    cap: Option<MO::Distance>,
) -> bool where (DI, MI): MetricSpace, MI::Distance: Number, MO::Distance: Number {
    if !(input_domain, input_metric).valid() {
        fails_with(r, ErrorVariant::InvalidMetricSpace)
    } else if d_in.value() < 0 || (cap matches Some(c) && c.value() < 0) {
        fails_with(r, ErrorVariant::InvalidDistance)
    } else if !input_domain.contains(data) {
        fails_with(r, ErrorVariant::FailedFunction)
    } else {
        r matches Ok(a) && is_fresh(a, input_domain, input_metric, output_measure, data, d_in, cap)
    }
}

fn open_accountant<DI: Domain, MI: Metric, MO: BasicCompositionMeasure>(
    input_domain: DI,
    input_metric: MI,
    output_measure: MO,
    data: DI::Carrier,
    d_in: MI::Distance,
    cap: Option<MO::Distance>,
) -> (r: Fallible<Accountant<DI, MI, MO>>) where (DI, MI): MetricSpace, MI::Distance: Number, MO::Distance: Number
    ensures
        opening(r, input_domain, input_metric, output_measure, data, d_in, cap),
{
    require_metric_space(&input_domain, &input_metric)?;
    let negative_cap = match &cap {
        Some(c) => c.total_lt(&MO::Distance::zero()),
        None => false,
    };
    if d_in.total_lt(&MI::Distance::zero()) || negative_cap {
        return Err(Error::with_message(ErrorVariant::InvalidDistance, "distances must be non-negative"));
    }
    if !input_domain.member(&data)? {
        return Err(Error::with_message(ErrorVariant::FailedFunction, "the data are not a member of the input domain"));
    }
    Ok(Accountant { input_domain, input_metric, output_measure, data, d_in, cap, spent: MO::Distance::zero() })
}

/// Open a privacy filter over `data`: an accountant that takes in
/// measurements, chosen freely and in any order, as long as their composed
/// loss at `d_in` stays within `d_out`.
pub fn make_privacy_filter<DI: Domain, MI: Metric, MO: BasicCompositionMeasure>(
    input_domain: DI,
    input_metric: MI,
    output_measure: MO,
    data: DI::Carrier,
    d_in: MI::Distance,
    d_out: MO::Distance,
) -> (r: Fallible<Accountant<DI, MI, MO>>) where (DI, MI): MetricSpace, MI::Distance: Number, MO::Distance: Number
    ensures
        opening(r, input_domain, input_metric, output_measure, data, d_in, Some(d_out)),
{
    open_accountant(input_domain, input_metric, output_measure, data, d_in, Some(d_out))
}

/// Open a privacy odometer over `data`: an accountant without a cap, which
/// takes in every measurement that fits it and reports the loss composed so far.
pub fn make_privacy_odometer<DI: Domain, MI: Metric, MO: BasicCompositionMeasure>(
    input_domain: DI,
    input_metric: MI,
    output_measure: MO,
    data: DI::Carrier,
    d_in: MI::Distance,
) -> (r: Fallible<Accountant<DI, MI, MO>>) where (DI, MI): MetricSpace, MI::Distance: Number, MO::Distance: Number
    ensures
        opening(r, input_domain, input_metric, output_measure, data, d_in, None),
{
    open_accountant(input_domain, input_metric, output_measure, data, d_in, None)
}

/// `opening` for a filter, over parts that are borrowed.
pub open spec fn opening_of<DI: Domain, MI: Metric, MO: BasicCompositionMeasure>(
    r: Fallible<Accountant<DI, MI, MO>>,
    input_domain: &DI,
    input_metric: &MI,
    output_measure: &MO,
    data: DI::Carrier,
    d_in: MI::Distance,
    d_out: MO::Distance,
) -> bool where (DI, MI): MetricSpace, MI::Distance: Number, MO::Distance: Number {
    opening(r, *input_domain, *input_metric, *output_measure, data, d_in, Some(d_out))
}

/// The privacy map of a concurrent composition with the budget `(d_in, d_out)`:
/// on inputs at most `d_in` apart the loss is `d_out`; for other distances
/// nothing is promised, and the map fails with `FailedRelation`.
pub open spec fn budget_image<QI: Number, QO>(d_in: QI, d_out: QO, d: QI) -> Result<QO, ErrorVariant> {
    if 0 <= d.value() <= d_in.value() {
        Ok(d_out)
    } else {
        Err(ErrorVariant::FailedRelation)
    }
}

/// Whether `m` is the concurrent composition with the budget `(d_in, d_out)`:
/// invoked on a dataset, it hands out a privacy filter over a copy of it.
pub open spec fn is_concurrent_composition<DI: Domain, MI: Metric, MO: BasicCompositionMeasure>(
    m: Measurement<DI, AllDomain<Accountant<DI, MI, MO>>, MI, MO>,
    input_domain: DI,
    input_metric: MI,
    output_measure: MO,
    d_in: MI::Distance,
    d_out: MO::Distance,
) -> bool where (DI, MI): MetricSpace, DI::Carrier: Clone, MI::Distance: Number, MO::Distance: Number {
    &&& m.input_domain() == input_domain
    &&& m.input_metric() == input_metric
    &&& m.output_measure() == output_measure
    &&& forall|arg: DI::Carrier, res: Fallible<Accountant<DI, MI, MO>>| #[trigger]
        m.function().relates(arg, res) ==> exists|data: DI::Carrier|
            cloned(arg, data) && #[trigger] opening_of(
                res,
                &input_domain,
                &input_metric,
                &output_measure,
                data,
                d_in,
                d_out,
            )
    &&& forall|d: MI::Distance| #[trigger] m.privacy_map().image(d) == budget_image(d_in, d_out, d)
}

/// Construct a concurrent composition with the budget `(d_in, d_out)`: a
/// measurement whose release is a privacy filter. The measurements run
/// through the filter may be chosen one by one, in the light of earlier
/// releases; whatever is chosen, their composed loss stays within `d_out`.
///
/// Fails with `InvalidMetricSpace` when domain and metric do not pair and
/// with `InvalidDistance` when `d_in` or `d_out` is negative.
pub fn make_concurrent_composition<DI, MI, MO>(
    input_domain: DI,
    input_metric: MI,
    output_measure: MO,
    d_in: MI::Distance,
    d_out: MO::Distance,
) -> (r: Fallible<Measurement<DI, AllDomain<Accountant<DI, MI, MO>>, MI, MO>>) where
    DI: 'static + Domain,
    MI: 'static + Metric,
    MO: 'static + BasicCompositionMeasure,
    (DI, MI): MetricSpace,
    (DI, MI): 'static,
    DI::Carrier: Clone,
    MI::Distance: Number,
    MO::Distance: Number,

    ensures
        !(input_domain, input_metric).valid() ==> fails_with(r, ErrorVariant::InvalidMetricSpace),
        (input_domain, input_metric).valid() && (d_in.value() < 0 || d_out.value() < 0) ==> fails_with(
            r,
            ErrorVariant::InvalidDistance,
        ),
        (input_domain, input_metric).valid() && d_in.value() >= 0 && d_out.value() >= 0 ==> (r matches Ok(m)
            && is_concurrent_composition(m, input_domain, input_metric, output_measure, d_in, d_out)),
{
    require_metric_space(&input_domain, &input_metric)?;
    if d_in.total_lt(&MI::Distance::zero()) || d_out.total_lt(&MO::Distance::zero()) {
        return Err(Error::with_message(ErrorVariant::InvalidDistance, "distances must be non-negative"));
    }
    let domain = input_domain.duplicate();
    let metric = input_metric.duplicate();
    let measure = output_measure.duplicate();
    let open = move |arg: &DI::Carrier| -> (res: Fallible<Accountant<DI, MI, MO>>)
        ensures
            exists|data: DI::Carrier|
                cloned(*arg, data) && #[trigger] opening_of(res, &domain, &metric, &measure, data, d_in, d_out),
        {
            let data = arg.clone();
            let ghost copy = data;
            let res = make_privacy_filter(domain.duplicate(), metric.duplicate(), measure.duplicate(), data, d_in, d_out);
            assert(cloned(*arg, copy) && opening_of(res, &domain, &metric, &measure, copy, d_in, d_out));
            res
        };
    let ghost model = |d: MI::Distance| budget_image(d_in, d_out, d);
    let budget = move |d: &MI::Distance| -> (res: Fallible<MO::Distance>)
        ensures
            kind(res) == budget_image(d_in, d_out, *d),
        {
            if d.total_lt(&MI::Distance::zero()) || d_in.total_lt(d) {
                Err(Error::with_message(ErrorVariant::FailedRelation, "input distance must not be greater than d_in"))
            } else {
                Ok(d_out)
            }
        };
    Measurement::new(
        input_domain,
        AllDomain::new(),
        Function::new_fallible(open),
        input_metric,
        output_measure,
        PrivacyMap { map: DistanceMap::with_model(budget, Ghost(model)) },
    )
}

/// With pure differential privacy, where losses add up, a filter with the
/// cap `cap` that has spent `spent` refuses exactly the children whose loss
/// would bring the total above the cap, and commits `spent + cost` for the
/// others. The refusal is `InvalidDistance`, unless the total does not even
/// fit the type of the loss.
pub proof fn lemma_additive_cap<Q: Number>(
    measure: crate::measures::MaxDivergence<Q>,
    spent: Q,
    cap: Q,
    cost: Q,
)
    requires
        0 <= spent.value() <= cap.value(),
        cost.value() >= 0,
    ensures
        spent.value() + cost.value() > Q::highest() ==> committed(measure, spent, Some(cap), cost) == Err::<
            Q,
            ErrorVariant,
        >(ErrorVariant::FailedFunction),
        cap.value() < spent.value() + cost.value() <= Q::highest() ==> committed(measure, spent, Some(cap), cost)
            == Err::<Q, ErrorVariant>(ErrorVariant::InvalidDistance),
        spent.value() + cost.value() <= cap.value() ==> committed(measure, spent, Some(cap), cost) == Ok::<
            Q,
            ErrorVariant,
        >(Q::from_value(spent.value() + cost.value())),
{
    let pair = seq![spent, cost];
    let one = seq![spent];
    assert(pair.drop_last() =~= one);
    assert(one.drop_last() =~= Seq::<Q>::empty());
    assert(pair.last() == cost);
    assert(one.last() == spent);
    Q::lemma_number(spent, 0);
    Q::lemma_number(cap, spent.value() + cost.value());
    reveal_with_fuel(crate::measures::checked_sum, 3);
    assert(crate::measures::checked_sum(one) == Ok::<Q, ErrorVariant>(spent));
}

/// The privacy map of a concurrent composition is monotone: wherever it
/// gives a loss, the loss is the budget.
pub proof fn lemma_budget_monotone<QI: Number, QO: Number>(d_in: QI, d_out: QO)
    ensures
        crate::objects::maps::monotone(|d: QI| budget_image(d_in, d_out, d)),
{
}

} // verus!
