//! Chaining: functional composition of transformations, measurements and postprocessors.
use crate::error::{Error, ErrorVariant, ErrorView, Fallible};
use crate::objects::function::{chained, Function};
use crate::objects::maps::{chain_image, lemma_chain_monotone, map_chained, PrivacyMap, StabilityMap};
use crate::traits::Number;
use crate::objects::space::{Descriptor, Domain, Measure, Metric, MetricSpace};
use crate::objects::units::{Measurement, Postprocessor, Transformation};
use std::ops::Shr;
use vstd::prelude::*;
use vstd::std_specs::ops::ShrSpecImpl;
use vstd::string::StringExecFns;

verus! {

/// The diagnostic for two intermediate structures of kind `mode` that do not
/// match. `first` and `second` are their descriptions; when both read the
/// same, the structures differ in parameters that the descriptions do not show,
/// and the text says so.
pub open spec fn mismatch_text(mode: Seq<char>, first: Seq<char>, second: Seq<char>) -> Seq<char> {
    "Intermediate "@ + mode + "s don't match. See https://github.com/opendp/opendp/discussions/297"@
        + if first == second {
        "\n    The structure of the intermediate "@ + mode
            + "s are the same, but the parameters differ.\n    shared_"@ + mode + ": "@ + first + "\n"@
    } else {
        "\n    output_"@ + mode + ": "@ + first + "\n    input_"@ + mode + ":  "@ + second + "\n"@
    }
}

/// Writes the diagnostic for two intermediate structures that do not match.
pub fn mismatch_message<T1: Descriptor, T2: Descriptor>(mode: &str, struct1: &T1, struct2: &T2) -> (r: String)
    ensures
        r@ == mismatch_text(mode@, struct1.description(), struct2.description()),
{
    let str1 = struct1.describe();
    let str2 = struct2.describe();
    let mut r = String::from_str("Intermediate ");
    r.append(mode);
    r.append("s don't match. See https://github.com/opendp/opendp/discussions/297");
    if str1 == str2 {
        r.append("\n    The structure of the intermediate ");
        r.append(mode);
        r.append("s are the same, but the parameters differ.\n    shared_");
        r.append(mode);
        r.append(": ");
        r.append(str1.as_str());
        r.append("\n");
    } else {
        r.append("\n    output_");
        r.append(mode);
        r.append(": ");
        r.append(str1.as_str());
        r.append("\n    input_");
        r.append(mode);
        r.append(":  ");
        r.append(str2.as_str());
        r.append("\n");
    }
    assert(r@ =~= mismatch_text(mode@, struct1.description(), struct2.description()));
    r
}

/// The error that reports the mismatch of two intermediate structures.
pub open spec fn mismatch_error(
    variant: ErrorVariant,
    mode: Seq<char>,
    first: Seq<char>,
    second: Seq<char>,
) -> ErrorView {
    ErrorView { variant, message: Some(mismatch_text(mode, first, second)) }
}

/// Whether `t` is the chain `outer ∘ inner`: it runs from the input space of
/// `inner` to the output space of `outer`, applies `inner` and then `outer`,
/// and bounds distances by the composition of both stability maps.
pub open spec fn is_chain_tt<DI, DX, DO, MI, MX, MO>(
    t: Transformation<DI, DO, MI, MO>,
    outer: Transformation<DX, DO, MX, MO>,
    inner: Transformation<DI, DX, MI, MX>,
) -> bool where
    DI: Domain,
    DX: Domain,
    DO: Domain,
    MI: Metric,
    MX: Metric,
    MO: Metric,
    (DI, MI): MetricSpace,
    (DX, MX): MetricSpace,
    (DO, MO): MetricSpace,
 {
    &&& t.input_domain() == inner.input_domain()
    &&& t.output_domain() == outer.output_domain()
    &&& t.input_metric() == inner.input_metric()
    &&& t.output_metric() == outer.output_metric()
    &&& forall|arg: DI::Carrier, res: Fallible<DO::Carrier>| #[trigger]
        t.function().relates(arg, res) <==> chained(outer.function(), inner.function(), arg, res)
    &&& forall|d_in: MI::Distance| #[trigger]
        t.stability_map().image(d_in) == chain_image(
            outer.stability_map().map.graph(),
            inner.stability_map().map.graph(),
            d_in,
        )
    &&& forall|d_in: MI::Distance, res: Fallible<MO::Distance>| #[trigger]
        t.stability_map().map.relates(d_in, res) <==> map_chained(
            outer.stability_map().map,
            inner.stability_map().map,
            d_in,
            res,
        )
}

/// Whether `m` is the chain `outer ∘ inner` of a measurement after a
/// transformation: its privacy map is the privacy map of `outer` at the
/// distance that the stability map of `inner` allows.
pub open spec fn is_chain_mt<DI, DX, DO, MI, MX, MO>(
    m: Measurement<DI, DO, MI, MO>,
    outer: Measurement<DX, DO, MX, MO>,
    inner: Transformation<DI, DX, MI, MX>,
) -> bool where
    DI: Domain,
    DX: Domain,
    DO: Domain,
    MI: Metric,
    MX: Metric,
    MO: Measure,
    (DI, MI): MetricSpace,
    (DX, MX): MetricSpace,
 {
    &&& m.input_domain() == inner.input_domain()
    &&& m.output_domain() == outer.output_domain()
    &&& m.input_metric() == inner.input_metric()
    &&& m.output_measure() == outer.output_measure()
    &&& forall|arg: DI::Carrier, res: Fallible<DO::Carrier>| #[trigger]
        m.function().relates(arg, res) <==> chained(outer.function(), inner.function(), arg, res)
    &&& forall|d_in: MI::Distance| #[trigger]
        m.privacy_map().image(d_in) == chain_image(
            outer.privacy_map().map.graph(),
            inner.stability_map().map.graph(),
            d_in,
        )
    &&& forall|d_in: MI::Distance, res: Fallible<MO::Distance>| #[trigger]
        m.privacy_map().map.relates(d_in, res) <==> map_chained(
            outer.privacy_map().map,
            inner.stability_map().map,
            d_in,
            res,
        )
}

/// Whether `m` is the chain `outer ∘ inner` of a postprocessor after a
/// measurement: the privacy map is that of `inner`, unchanged.
pub open spec fn is_chain_pm<DI, DX, DO, MI, MO>(
    m: Measurement<DI, DO, MI, MO>,
    outer: Postprocessor<DX, DO>,
    inner: Measurement<DI, DX, MI, MO>,
) -> bool where DI: Domain, DX: Domain, DO: Domain, MI: Metric, MO: Measure, (DI, MI): MetricSpace {
    &&& m.input_domain() == inner.input_domain()
    &&& m.output_domain() == outer.output_domain()
    &&& m.input_metric() == inner.input_metric()
    &&& m.output_measure() == inner.output_measure()
    &&& forall|arg: DI::Carrier, res: Fallible<DO::Carrier>| #[trigger]
        m.function().relates(arg, res) <==> chained(outer.function(), inner.function(), arg, res)
    &&& m.privacy_map() == inner.privacy_map()
}

/// What chaining a measurement after a transformation returns: the chain
/// exactly when both intermediate structures match, else the report of the
/// first mismatch, the domain's before the metric's.
pub open spec fn chain_mt_outcome<DI, DX, DO, MI, MX, MO>(
    r: Fallible<Measurement<DI, DO, MI, MO>>,
    measurement1: Measurement<DX, DO, MX, MO>,
    transformation0: Transformation<DI, DX, MI, MX>,
) -> bool where
    DI: Domain,
    DX: Domain,
    DO: Domain,
    MI: Metric,
    MX: Metric,
    MO: Measure,
    (DI, MI): MetricSpace,
    (DX, MX): MetricSpace,
 {
    match r {
        Ok(m) => {
            &&& transformation0.output_domain() == measurement1.input_domain()
            &&& transformation0.output_metric() == measurement1.input_metric()
            &&& is_chain_mt(m, measurement1, transformation0)
        },
        Err(e) => if transformation0.output_domain() != measurement1.input_domain() {
            e@ == mismatch_error(
                ErrorVariant::DomainMismatch,
                "domain"@,
                transformation0.output_domain().description(),
                measurement1.input_domain().description(),
            )
        } else {
            &&& transformation0.output_metric() != measurement1.input_metric()
            &&& e@ == mismatch_error(
                ErrorVariant::MetricMismatch,
                "metric"@,
                transformation0.output_metric().description(),
                measurement1.input_metric().description(),
            )
        },
    }
}

/// What chaining two transformations returns: the chain exactly when both
/// intermediate structures match, else the report of the first mismatch, the
/// domain's before the metric's.
pub open spec fn chain_tt_outcome<DI, DX, DO, MI, MX, MO>(
    r: Fallible<Transformation<DI, DO, MI, MO>>,
    transformation1: Transformation<DX, DO, MX, MO>,
    transformation0: Transformation<DI, DX, MI, MX>,
) -> bool where
    DI: Domain,
    DX: Domain,
    DO: Domain,
    MI: Metric,
    MX: Metric,
    MO: Metric,
    (DI, MI): MetricSpace,
    (DX, MX): MetricSpace,
    (DO, MO): MetricSpace,
 {
    match r {
        Ok(t) => {
            &&& transformation0.output_domain() == transformation1.input_domain()
            &&& transformation0.output_metric() == transformation1.input_metric()
            &&& is_chain_tt(t, transformation1, transformation0)
        },
        Err(e) => if transformation0.output_domain() != transformation1.input_domain() {
            e@ == mismatch_error(
                ErrorVariant::DomainMismatch,
                "domain"@,
                transformation0.output_domain().description(),
                transformation1.input_domain().description(),
            )
        } else {
            &&& transformation0.output_metric() != transformation1.input_metric()
            &&& e@ == mismatch_error(
                ErrorVariant::MetricMismatch,
                "metric"@,
                transformation0.output_metric().description(),
                transformation1.input_metric().description(),
            )
        },
    }
}

/// What chaining a postprocessor after a measurement returns: the chain
/// exactly when the intermediate domains match, else the report of the mismatch.
pub open spec fn chain_pm_outcome<DI, DX, DO, MI, MO>(
    r: Fallible<Measurement<DI, DO, MI, MO>>,
    postprocessor1: Postprocessor<DX, DO>,
    measurement0: Measurement<DI, DX, MI, MO>,
) -> bool where DI: Domain, DX: Domain, DO: Domain, MI: Metric, MO: Measure, (DI, MI): MetricSpace {
    match r {
        Ok(m) => {
            &&& measurement0.output_domain() == postprocessor1.input_domain()
            &&& is_chain_pm(m, postprocessor1, measurement0)
            &&& forall|d_in: MI::Distance| #[trigger]
                m.privacy_map().image(d_in) == measurement0.privacy_map().image(d_in)
        },
        Err(e) => {
            &&& measurement0.output_domain() != postprocessor1.input_domain()
            &&& e@ == mismatch_error(
                ErrorVariant::DomainMismatch,
                "domain"@,
                measurement0.output_domain().description(),
                postprocessor1.input_domain().description(),
            )
        },
    }
}

/// Construct the functional composition (`measurement1` ○ `transformation0`).
/// The result, when invoked, computes `measurement1(transformation0(x))`.
///
/// Succeeds exactly when the output domain and metric of `transformation0`
/// equal the input domain and metric of `measurement1`; a domain mismatch is
/// reported before a metric mismatch.
pub fn make_chain_mt<DI, DX, DO, MI, MX, MO>(
    measurement1: &Measurement<DX, DO, MX, MO>,
    transformation0: &Transformation<DI, DX, MI, MX>,
) -> (r: Fallible<Measurement<DI, DO, MI, MO>>) where
    DI: 'static + Domain,
    DX: 'static + Domain,
    DO: 'static + Domain,
    MI: 'static + Metric,
    MX: 'static + Metric,
    MO: 'static + Measure,
    (DI, MI): MetricSpace,
    (DX, MX): MetricSpace,

    ensures
        chain_mt_outcome(r, *measurement1, *transformation0),
{
    if !transformation0.output_domain.equals(&measurement1.input_domain) {
        return Err(
            Error::new(
                ErrorVariant::DomainMismatch,
                Some(mismatch_message("domain", &transformation0.output_domain, &measurement1.input_domain)),
            ),
        );
    }
    if !transformation0.output_metric.equals(&measurement1.input_metric) {
        return Err(
            Error::new(
                ErrorVariant::MetricMismatch,
                Some(mismatch_message("metric", &transformation0.output_metric, &measurement1.input_metric)),
            ),
        );
    }
    proof {
        use_type_invariant(transformation0);
    }
    let chain = Measurement::new(
        transformation0.input_domain.duplicate(),
        measurement1.output_domain.duplicate(),
        Function::make_chain(&measurement1.function, &transformation0.function),
        transformation0.input_metric.duplicate(),
        measurement1.output_measure.duplicate(),
        PrivacyMap::make_chain(&measurement1.privacy_map, &transformation0.stability_map),
    );
    chain
}

/// Construct the functional composition (`transformation1` ○ `transformation0`).
/// The result, when invoked, computes `transformation1(transformation0(x))`.
///
/// Succeeds exactly when the output domain and metric of `transformation0`
/// equal the input domain and metric of `transformation1`; a domain mismatch
/// is reported before a metric mismatch.
pub fn make_chain_tt<DI, DX, DO, MI, MX, MO>(
    transformation1: &Transformation<DX, DO, MX, MO>,
    transformation0: &Transformation<DI, DX, MI, MX>,
) -> (r: Fallible<Transformation<DI, DO, MI, MO>>) where
    DI: 'static + Domain,
    DX: 'static + Domain,
    DO: 'static + Domain,
    MI: 'static + Metric,
    MX: 'static + Metric,
    MO: 'static + Metric,
    (DI, MI): MetricSpace,
    (DX, MX): MetricSpace,
    (DO, MO): MetricSpace,

    ensures
        chain_tt_outcome(r, *transformation1, *transformation0),
{
    if !transformation0.output_domain.equals(&transformation1.input_domain) {
        return Err(
            Error::new(
                ErrorVariant::DomainMismatch,
                Some(mismatch_message("domain", &transformation0.output_domain, &transformation1.input_domain)),
            ),
        );
    }
    if !transformation0.output_metric.equals(&transformation1.input_metric) {
        return Err(
            Error::new(
                ErrorVariant::MetricMismatch,
                Some(mismatch_message("metric", &transformation0.output_metric, &transformation1.input_metric)),
            ),
        );
    }
    proof {
        use_type_invariant(transformation0);
        use_type_invariant(transformation1);
    }
    let chain = Transformation::new(
        transformation0.input_domain.duplicate(),
        transformation1.output_domain.duplicate(),
        Function::make_chain(&transformation1.function, &transformation0.function),
        transformation0.input_metric.duplicate(),
        transformation1.output_metric.duplicate(),
        StabilityMap::make_chain(&transformation1.stability_map, &transformation0.stability_map),
    );
    chain
}

/// Construct the functional composition (`postprocessor1` ○ `measurement0`).
/// The result, when invoked, computes `postprocessor1(measurement0(x))`.
/// Used to represent non-interactive postprocessing.
///
/// Succeeds exactly when the output domain of `measurement0` equals the input
/// domain of `postprocessor1`. The privacy map of the result is the privacy
/// map of `measurement0`.
pub fn make_chain_pm<DI, DX, DO, MMI, MMO>(
    postprocessor1: &Postprocessor<DX, DO>,
    measurement0: &Measurement<DI, DX, MMI, MMO>,
) -> (r: Fallible<Measurement<DI, DO, MMI, MMO>>) where
    DI: 'static + Domain,
    DX: 'static + Domain,
    DO: 'static + Domain,
    MMI: 'static + Metric,
    MMO: 'static + Measure,
    (DI, MMI): MetricSpace,

    ensures
        chain_pm_outcome(r, *postprocessor1, *measurement0),
{
    if !measurement0.output_domain.equals(&postprocessor1.input_domain) {
        return Err(
            Error::new(
                ErrorVariant::DomainMismatch,
                Some(mismatch_message("domain", &measurement0.output_domain, &postprocessor1.input_domain)),
            ),
        );
    }
    proof {
        use_type_invariant(measurement0);
    }
    let chain = Measurement::new(
        measurement0.input_domain.duplicate(),
        postprocessor1.output_domain.duplicate(),
        Function::make_chain(&postprocessor1.function, &measurement0.function),
        measurement0.input_metric.duplicate(),
        measurement0.output_measure.duplicate(),
        measurement0.privacy_map.clone(),
    );
    chain
}

// The operator `>>` chains in pipeline order: the left operand runs first.
// Each step returns a fallible result, and a failure of an earlier step is
// the result of the whole chain.

impl<DI, DX, DO, MI, MX, MO> Shr<Measurement<DX, DO, MX, MO>> for Transformation<DI, DX, MI, MX> where
    DI: 'static + Domain,
    DX: 'static + Domain,
    DO: 'static + Domain,
    MI: 'static + Metric,
    MX: 'static + Metric,
    MO: 'static + Measure,
    (DI, MI): MetricSpace,
    (DX, MX): MetricSpace,
 {
    type Output = Fallible<Measurement<DI, DO, MI, MO>>;

    fn shr(self, rhs: Measurement<DX, DO, MX, MO>) -> (r: Self::Output)
        ensures
            chain_mt_outcome(r, rhs, self),
    {
        make_chain_mt(&rhs, &self)
    }
}

impl<DI, DX, DO, MI, MX, MO> ShrSpecImpl<Measurement<DX, DO, MX, MO>> for Transformation<DI, DX, MI, MX> where
    DI: 'static + Domain,
    DX: 'static + Domain,
    DO: 'static + Domain,
    MI: 'static + Metric,
    MX: 'static + Metric,
    MO: 'static + Measure,
    (DI, MI): MetricSpace,
    (DX, MX): MetricSpace,
 {
    open spec fn obeys_shr_spec() -> bool {
        false
    }

    open spec fn shr_req(self, rhs: Measurement<DX, DO, MX, MO>) -> bool {
        true
    }

    open spec fn shr_spec(self, rhs: Measurement<DX, DO, MX, MO>) -> Self::Output {
        arbitrary()
    }
}

impl<DI, DX, DO, MI, MX, MO> Shr<Measurement<DX, DO, MX, MO>> for Fallible<Transformation<DI, DX, MI, MX>> where
    DI: 'static + Domain,
    DX: 'static + Domain,
    DO: 'static + Domain,
    MI: 'static + Metric,
    MX: 'static + Metric,
    MO: 'static + Measure,
    (DI, MI): MetricSpace,
    (DX, MX): MetricSpace,
 {
    type Output = Fallible<Measurement<DI, DO, MI, MO>>;

    fn shr(self, rhs: Measurement<DX, DO, MX, MO>) -> (r: Self::Output)
        ensures
            match self {
                Ok(lhs) => chain_mt_outcome(r, rhs, lhs),
                Err(e) => r == Err::<Measurement<DI, DO, MI, MO>, Error>(e),
            },
    {
        match self {
            Ok(lhs) => make_chain_mt(&rhs, &lhs),
            Err(e) => Err(e),
        }
    }
}

impl<DI, DX, DO, MI, MX, MO> ShrSpecImpl<Measurement<DX, DO, MX, MO>> for Fallible<Transformation<DI, DX, MI, MX>> where
    DI: 'static + Domain,
    DX: 'static + Domain,
    DO: 'static + Domain,
    MI: 'static + Metric,
    MX: 'static + Metric,
    MO: 'static + Measure,
    (DI, MI): MetricSpace,
    (DX, MX): MetricSpace,
 {
    open spec fn obeys_shr_spec() -> bool {
        false
    }

    open spec fn shr_req(self, rhs: Measurement<DX, DO, MX, MO>) -> bool {
        true
    }

    open spec fn shr_spec(self, rhs: Measurement<DX, DO, MX, MO>) -> Self::Output {
        arbitrary()
    }
}

impl<DI, DX, DO, MI, MX, MO> Shr<Transformation<DX, DO, MX, MO>> for Transformation<DI, DX, MI, MX> where
    DI: 'static + Domain,
    DX: 'static + Domain,
    DO: 'static + Domain,
    MI: 'static + Metric,
    MX: 'static + Metric,
    MO: 'static + Metric,
    (DI, MI): MetricSpace,
    (DX, MX): MetricSpace,
    (DO, MO): MetricSpace,
 {
    type Output = Fallible<Transformation<DI, DO, MI, MO>>;

    fn shr(self, rhs: Transformation<DX, DO, MX, MO>) -> (r: Self::Output)
        ensures
            chain_tt_outcome(r, rhs, self),
    {
        make_chain_tt(&rhs, &self)
    }
}

impl<DI, DX, DO, MI, MX, MO> ShrSpecImpl<Transformation<DX, DO, MX, MO>> for Transformation<DI, DX, MI, MX> where
    DI: 'static + Domain,
    DX: 'static + Domain,
    DO: 'static + Domain,
    MI: 'static + Metric,
    MX: 'static + Metric,
    MO: 'static + Metric,
    (DI, MI): MetricSpace,
    (DX, MX): MetricSpace,
    (DO, MO): MetricSpace,
 {
    open spec fn obeys_shr_spec() -> bool {
        false
    }

    open spec fn shr_req(self, rhs: Transformation<DX, DO, MX, MO>) -> bool {
        true
    }

    open spec fn shr_spec(self, rhs: Transformation<DX, DO, MX, MO>) -> Self::Output {
        arbitrary()
    }
}

impl<DI, DX, DO, MI, MX, MO> Shr<Transformation<DX, DO, MX, MO>> for Fallible<Transformation<DI, DX, MI, MX>> where
    DI: 'static + Domain,
    DX: 'static + Domain,
    DO: 'static + Domain,
    MI: 'static + Metric,
    MX: 'static + Metric,
    MO: 'static + Metric,
    (DI, MI): MetricSpace,
    (DX, MX): MetricSpace,
    (DO, MO): MetricSpace,
 {
    type Output = Fallible<Transformation<DI, DO, MI, MO>>;

    fn shr(self, rhs: Transformation<DX, DO, MX, MO>) -> (r: Self::Output)
        ensures
            match self {
                Ok(lhs) => chain_tt_outcome(r, rhs, lhs),
                Err(e) => r == Err::<Transformation<DI, DO, MI, MO>, Error>(e),
            },
    {
        match self {
            Ok(lhs) => make_chain_tt(&rhs, &lhs),
            Err(e) => Err(e),
        }
    }
}

impl<DI, DX, DO, MI, MX, MO> ShrSpecImpl<Transformation<DX, DO, MX, MO>> for Fallible<Transformation<DI, DX, MI, MX>> where
    DI: 'static + Domain,
    DX: 'static + Domain,
    DO: 'static + Domain,
    MI: 'static + Metric,
    MX: 'static + Metric,
    MO: 'static + Metric,
    (DI, MI): MetricSpace,
    (DX, MX): MetricSpace,
    (DO, MO): MetricSpace,
 {
    open spec fn obeys_shr_spec() -> bool {
        false
    }

    open spec fn shr_req(self, rhs: Transformation<DX, DO, MX, MO>) -> bool {
        true
    }

    open spec fn shr_spec(self, rhs: Transformation<DX, DO, MX, MO>) -> Self::Output {
        arbitrary()
    }
}

impl<DI, DX, DO, MMI, MMO> Shr<Postprocessor<DX, DO>> for Measurement<DI, DX, MMI, MMO> where
    DI: 'static + Domain,
    DX: 'static + Domain,
    DO: 'static + Domain,
    MMI: 'static + Metric,
    MMO: 'static + Measure,
    (DI, MMI): MetricSpace,
 {
    type Output = Fallible<Measurement<DI, DO, MMI, MMO>>;

    fn shr(self, rhs: Postprocessor<DX, DO>) -> (r: Self::Output)
        ensures
            chain_pm_outcome(r, rhs, self),
    {
        make_chain_pm(&rhs, &self)
    }
}

impl<DI, DX, DO, MMI, MMO> ShrSpecImpl<Postprocessor<DX, DO>> for Measurement<DI, DX, MMI, MMO> where
    DI: 'static + Domain,
    DX: 'static + Domain,
    DO: 'static + Domain,
    MMI: 'static + Metric,
    MMO: 'static + Measure,
    (DI, MMI): MetricSpace,
 {
    open spec fn obeys_shr_spec() -> bool {
        false
    }

    open spec fn shr_req(self, rhs: Postprocessor<DX, DO>) -> bool {
        true
    }

    open spec fn shr_spec(self, rhs: Postprocessor<DX, DO>) -> Self::Output {
        arbitrary()
    }
}

impl<DI, DX, DO, MMI, MMO> Shr<Postprocessor<DX, DO>> for Fallible<Measurement<DI, DX, MMI, MMO>> where
    DI: 'static + Domain,
    DX: 'static + Domain,
    DO: 'static + Domain,
    MMI: 'static + Metric,
    MMO: 'static + Measure,
    (DI, MMI): MetricSpace,
 {
    type Output = Fallible<Measurement<DI, DO, MMI, MMO>>;

    fn shr(self, rhs: Postprocessor<DX, DO>) -> (r: Self::Output)
        ensures
            match self {
                Ok(lhs) => chain_pm_outcome(r, rhs, lhs),
                Err(e) => r == Err::<Measurement<DI, DO, MMI, MMO>, Error>(e),
            },
    {
        match self {
            Ok(lhs) => make_chain_pm(&rhs, &lhs),
            Err(e) => Err(e),
        }
    }
}

impl<DI, DX, DO, MMI, MMO> ShrSpecImpl<Postprocessor<DX, DO>> for Fallible<Measurement<DI, DX, MMI, MMO>> where
    DI: 'static + Domain,
    DX: 'static + Domain,
    DO: 'static + Domain,
    MMI: 'static + Metric,
    MMO: 'static + Measure,
    (DI, MMI): MetricSpace,
 {
    open spec fn obeys_shr_spec() -> bool {
        false
    }

    open spec fn shr_req(self, rhs: Postprocessor<DX, DO>) -> bool {
        true
    }

    open spec fn shr_spec(self, rhs: Postprocessor<DX, DO>) -> Self::Output {
        arbitrary()
    }
}


/// Chaining is associative: whichever pair of three compatible transformations
/// is chained first, the results have the same stability map and relate the
/// same arguments to the same results.
pub proof fn lemma_chain_tt_associative<D0, D1, D2, D3, M0, M1, M2, M3>(
    t2: Transformation<D2, D3, M2, M3>,
    t1: Transformation<D1, D2, M1, M2>,
    t0: Transformation<D0, D1, M0, M1>,
    t21: Transformation<D1, D3, M1, M3>,
    t10: Transformation<D0, D2, M0, M2>,
    left: Transformation<D0, D3, M0, M3>,
    right: Transformation<D0, D3, M0, M3>,
) where
    D0: Domain,
    D1: Domain,
    D2: Domain,
    D3: Domain,
    M0: Metric,
    M1: Metric,
    M2: Metric,
    M3: Metric,
    (D0, M0): MetricSpace,
    (D1, M1): MetricSpace,
    (D2, M2): MetricSpace,
    (D3, M3): MetricSpace,

    requires
        is_chain_tt(t21, t2, t1),
        is_chain_tt(left, t21, t0),
        is_chain_tt(t10, t1, t0),
        is_chain_tt(right, t2, t10),
    ensures
        forall|d_in: M0::Distance| #[trigger]
            left.stability_map().image(d_in) == right.stability_map().image(d_in),
        forall|arg: D0::Carrier, res: Fallible<D3::Carrier>| #[trigger]
            left.function().relates(arg, res) <==> right.function().relates(arg, res),
{
    assert forall|d_in: M0::Distance| #[trigger]
        left.stability_map().image(d_in) == right.stability_map().image(d_in) by {
        let inner = t0.stability_map().image(d_in);
        assert(t10.stability_map().image(d_in) == chain_image(
            t1.stability_map().map.graph(),
            t0.stability_map().map.graph(),
            d_in,
        ));
        if let Ok(d_mid) = inner {
            assert(t21.stability_map().image(d_mid) == chain_image(
                t2.stability_map().map.graph(),
                t1.stability_map().map.graph(),
                d_mid,
            ));
        }
    }
    assert forall|arg: D0::Carrier, res: Fallible<D3::Carrier>| #[trigger]
        left.function().relates(arg, res) <==> right.function().relates(arg, res) by {
        lemma_chained_associative(t2.function(), t1.function(), t0.function(), t21.function(), t10.function(), arg, res);
    }
}

/// Relational composition with propagation of failures is associative.
pub proof fn lemma_chained_associative<T0, T1, T2, T3>(
    f2: Function<T2, T3>,
    f1: Function<T1, T2>,
    f0: Function<T0, T1>,
    f21: Function<T1, T3>,
    f10: Function<T0, T2>,
    arg: T0,
    res: Fallible<T3>,
)
    requires
        forall|a: T1, r: Fallible<T3>| #[trigger] f21.relates(a, r) <==> chained(f2, f1, a, r),
        forall|a: T0, r: Fallible<T2>| #[trigger] f10.relates(a, r) <==> chained(f1, f0, a, r),
    ensures
        chained(f21, f0, arg, res) <==> chained(f2, f10, arg, res),
{
    if chained(f21, f0, arg, res) {
        let mid0 = choose|mid: Fallible<T1>| #[trigger]
            f0.relates(arg, mid) && match mid {
                Ok(m) => f21.relates(m, res),
                Err(e) => res == Err::<T3, Error>(e),
            };
        match mid0 {
            Ok(m0) => {
                assert(chained(f2, f1, m0, res));
                let mid1 = choose|mid: Fallible<T2>| #[trigger]
                    f1.relates(m0, mid) && match mid {
                        Ok(m) => f2.relates(m, res),
                        Err(e) => res == Err::<T3, Error>(e),
                    };
                assert(f0.relates(arg, mid0));
                assert(chained(f1, f0, arg, mid1));
                assert(f10.relates(arg, mid1));
            },
            Err(e) => {
                let mid1 = Err::<T2, Error>(e);
                assert(f0.relates(arg, mid0));
                assert(chained(f1, f0, arg, mid1));
                assert(f10.relates(arg, mid1));
            },
        }
    }
    if chained(f2, f10, arg, res) {
        let mid1 = choose|mid: Fallible<T2>| #[trigger]
            f10.relates(arg, mid) && match mid {
                Ok(m) => f2.relates(m, res),
                Err(e) => res == Err::<T3, Error>(e),
            };
        assert(chained(f1, f0, arg, mid1));
        let mid0 = choose|mid: Fallible<T1>| #[trigger]
            f0.relates(arg, mid) && match mid {
                Ok(m) => f1.relates(m, mid1),
                Err(e) => mid1 == Err::<T2, Error>(e),
            };
        match mid0 {
            Ok(m0) => {
                assert(f1.relates(m0, mid1));
                assert(chained(f2, f1, m0, res));
                assert(f21.relates(m0, res));
                assert(f0.relates(arg, mid0));
            },
            Err(e) => {
                assert(f0.relates(arg, mid0));
            },
        }
    }
}

/// Chaining a measurement after two transformations gives one privacy map,
/// whichever pair is chained first.
pub proof fn lemma_chain_mt_associative<D0, D1, D2, D3, M0, M1, M2, M3>(
    m2: Measurement<D2, D3, M2, M3>,
    t1: Transformation<D1, D2, M1, M2>,
    t0: Transformation<D0, D1, M0, M1>,
    m21: Measurement<D1, D3, M1, M3>,
    t10: Transformation<D0, D2, M0, M2>,
    left: Measurement<D0, D3, M0, M3>,
    right: Measurement<D0, D3, M0, M3>,
) where
    D0: Domain,
    D1: Domain,
    D2: Domain,
    D3: Domain,
    M0: Metric,
    M1: Metric,
    M2: Metric,
    M3: Measure,
    (D0, M0): MetricSpace,
    (D1, M1): MetricSpace,
    (D2, M2): MetricSpace,

    requires
        is_chain_mt(m21, m2, t1),
        is_chain_mt(left, m21, t0),
        is_chain_tt(t10, t1, t0),
        is_chain_mt(right, m2, t10),
    ensures
        forall|d_in: M0::Distance| #[trigger] left.privacy_map().image(d_in) == right.privacy_map().image(d_in),
{
    assert forall|d_in: M0::Distance| #[trigger]
        left.privacy_map().image(d_in) == right.privacy_map().image(d_in) by {
        let inner = t0.stability_map().image(d_in);
        assert(t10.stability_map().image(d_in) == chain_image(
            t1.stability_map().map.graph(),
            t0.stability_map().map.graph(),
            d_in,
        ));
        if let Ok(d_mid) = inner {
            assert(m21.privacy_map().image(d_mid) == chain_image(
                m2.privacy_map().map.graph(),
                t1.stability_map().map.graph(),
                d_mid,
            ));
        }
    }
}

/// A chain of transformations with monotone stability maps has a monotone stability map.
pub proof fn lemma_chain_tt_monotone<DI, DX, DO, MI, MX, MO>(
    t: Transformation<DI, DO, MI, MO>,
    outer: Transformation<DX, DO, MX, MO>,
    inner: Transformation<DI, DX, MI, MX>,
) where
    DI: Domain,
    DX: Domain,
    DO: Domain,
    MI: Metric,
    MX: Metric,
    MO: Metric,
    (DI, MI): MetricSpace,
    (DX, MX): MetricSpace,
    (DO, MO): MetricSpace,
    MI::Distance: Number,
    MX::Distance: Number,
    MO::Distance: Number,

    requires
        is_chain_tt(t, outer, inner),
        outer.stability_map().map.is_monotone(),
        inner.stability_map().map.is_monotone(),
    ensures
        t.stability_map().map.is_monotone(),
{
    let o = outer.stability_map().map.graph();
    let i = inner.stability_map().map.graph();
    lemma_chain_monotone(o, i);
    let composed = |d_in: MI::Distance| chain_image(o, i, d_in);
    let map = t.stability_map().map.graph();
    assert forall|a: MI::Distance, b: MI::Distance| a.value() <= b.value() implies match (
        #[trigger] map(a),
        #[trigger] map(b),
    ) {
        (Ok(x), Ok(y)) => x.value() <= y.value(),
        _ => true,
    } by {
        assert(map(a) == t.stability_map().image(a));
        assert(map(b) == t.stability_map().image(b));
        assert(map(a) == composed(a));
        assert(map(b) == composed(b));
    }
}

/// A measurement chained after a transformation has a monotone privacy map
/// when both of its parts have monotone maps.
pub proof fn lemma_chain_mt_monotone<DI, DX, DO, MI, MX, MO>(
    m: Measurement<DI, DO, MI, MO>,
    outer: Measurement<DX, DO, MX, MO>,
    inner: Transformation<DI, DX, MI, MX>,
) where
    DI: Domain,
    DX: Domain,
    DO: Domain,
    MI: Metric,
    MX: Metric,
    MO: Measure,
    (DI, MI): MetricSpace,
    (DX, MX): MetricSpace,
    MI::Distance: Number,
    MX::Distance: Number,
    MO::Distance: Number,

    requires
        is_chain_mt(m, outer, inner),
        outer.privacy_map().map.is_monotone(),
        inner.stability_map().map.is_monotone(),
    ensures
        m.privacy_map().map.is_monotone(),
{
    let o = outer.privacy_map().map.graph();
    let i = inner.stability_map().map.graph();
    lemma_chain_monotone(o, i);
    let composed = |d_in: MI::Distance| chain_image(o, i, d_in);
    let map = m.privacy_map().map.graph();
    assert forall|a: MI::Distance, b: MI::Distance| a.value() <= b.value() implies match (
        #[trigger] map(a),
        #[trigger] map(b),
    ) {
        (Ok(x), Ok(y)) => x.value() <= y.value(),
        _ => true,
    } by {
        assert(map(a) == m.privacy_map().image(a));
        assert(map(b) == m.privacy_map().image(b));
        assert(map(a) == composed(a));
        assert(map(b) == composed(b));
    }
}

/// Whether the stability map of `t` is a guarantee: whenever two arguments
/// are `close_in` at the distance `d_in` and the stability map gives `d_out`
/// for `d_in`, any two results of `t` on them are `close_out` at the distance `d_out`.
pub open spec fn stable<DI, DO, MI, MO>(
    t: Transformation<DI, DO, MI, MO>,
    close_in: spec_fn(DI::Carrier, DI::Carrier, MI::Distance) -> bool,
    close_out: spec_fn(DO::Carrier, DO::Carrier, MO::Distance) -> bool,
) -> bool where DI: Domain, DO: Domain, MI: Metric, MO: Metric, (DI, MI): MetricSpace, (DO, MO): MetricSpace {
    forall|a: DI::Carrier, b: DI::Carrier, x: DO::Carrier, y: DO::Carrier, d_in: MI::Distance|
        close_in(a, b, d_in) && #[trigger] t.function().relates(a, Ok::<DO::Carrier, Error>(x))
            && #[trigger] t.function().relates(b, Ok::<DO::Carrier, Error>(y)) ==> match #[trigger] t.stability_map().image(
            d_in,
        ) {
            Ok(d_out) => close_out(x, y, d_out),
            Err(_) => true,
        }
}

/// Guarantees compose: a chain of two transformations whose stability maps
/// are guarantees has a stability map that is a guarantee, from the
/// closeness of the arguments of the inner one to the closeness of the
/// results of the outer one.
pub proof fn lemma_chain_tt_stable<DI, DX, DO, MI, MX, MO>(
    t: Transformation<DI, DO, MI, MO>,
    outer: Transformation<DX, DO, MX, MO>,
    inner: Transformation<DI, DX, MI, MX>,
    close_in: spec_fn(DI::Carrier, DI::Carrier, MI::Distance) -> bool,
    close_mid: spec_fn(DX::Carrier, DX::Carrier, MX::Distance) -> bool,
    close_out: spec_fn(DO::Carrier, DO::Carrier, MO::Distance) -> bool,
) where
    DI: Domain,
    DX: Domain,
    DO: Domain,
    MI: Metric,
    MX: Metric,
    MO: Metric,
    (DI, MI): MetricSpace,
    (DX, MX): MetricSpace,
    (DO, MO): MetricSpace,

    requires
        is_chain_tt(t, outer, inner),
        stable(inner, close_in, close_mid),
        stable(outer, close_mid, close_out),
    ensures
        stable(t, close_in, close_out),
{
    assert forall|a: DI::Carrier, b: DI::Carrier, x: DO::Carrier, y: DO::Carrier, d_in: MI::Distance|
        close_in(a, b, d_in) && #[trigger] t.function().relates(a, Ok::<DO::Carrier, Error>(x))
            && #[trigger] t.function().relates(
            b,
            Ok::<DO::Carrier, Error>(y),
        ) && (#[trigger] t.stability_map().image(d_in)) is Ok implies close_out(
        x,
        y,
        t.stability_map().image(d_in).unwrap(),
    ) by {
        let d_out = t.stability_map().image(d_in).unwrap();
        let ra = Ok::<DO::Carrier, Error>(x);
        let rb = Ok::<DO::Carrier, Error>(y);
        assert(chained(outer.function(), inner.function(), a, ra));
        assert(chained(outer.function(), inner.function(), b, rb));
        let mid_a = choose|mid: Fallible<DX::Carrier>| #[trigger]
            inner.function().relates(a, mid) && match mid {
                Ok(m) => outer.function().relates(m, ra),
                Err(e) => ra == Err::<DO::Carrier, Error>(e),
            };
        let mid_b = choose|mid: Fallible<DX::Carrier>| #[trigger]
            inner.function().relates(b, mid) && match mid {
                Ok(m) => outer.function().relates(m, rb),
                Err(e) => rb == Err::<DO::Carrier, Error>(e),
            };
        assert(mid_a is Ok && mid_b is Ok);
        let ma = mid_a.unwrap();
        let mb = mid_b.unwrap();
        assert(t.stability_map().image(d_in) == chain_image(
            outer.stability_map().map.graph(),
            inner.stability_map().map.graph(),
            d_in,
        ));
        let d_mid_result = inner.stability_map().image(d_in);
        assert(d_mid_result is Ok);
        let d_mid = d_mid_result.unwrap();
        assert(inner.function().relates(a, Ok::<DX::Carrier, Error>(ma)));
        assert(inner.function().relates(b, Ok::<DX::Carrier, Error>(mb)));
        assert(close_mid(ma, mb, d_mid));
        assert(outer.stability_map().image(d_mid) == Ok::<MO::Distance, ErrorVariant>(d_out));
        assert(outer.function().relates(ma, Ok::<DO::Carrier, Error>(x)));
        assert(outer.function().relates(mb, Ok::<DO::Carrier, Error>(y)));
    }
}

} // verus!
