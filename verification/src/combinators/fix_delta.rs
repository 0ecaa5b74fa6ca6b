//! Fixing delta: from a privacy curve to the one pair `(ε, δ)` at a chosen `δ`.
use crate::error::{kind, ErrorVariant, Fallible};
use crate::measures::{FixedSmoothedMaxDivergence, SMDCurve, SmoothedMaxDivergence};
use crate::objects::maps::{DistanceMap, PrivacyMap};
use crate::objects::space::{Descriptor, Domain, Metric, MetricSpace};
use crate::objects::units::Measurement;
use vstd::prelude::*;

verus! {

/// The loss at `delta` of a mechanism whose loss is the curve `loss`: the
/// pair of the `ε` that the curve gives for `delta` and `delta` itself.
pub open spec fn fixed_at<Q>(loss: Result<SMDCurve<Q>, ErrorVariant>, delta: Q) -> Result<(Q, Q), ErrorVariant> {
    match loss {
        Ok(curve) => match curve.image(delta) {
            Ok(epsilon) => Ok((epsilon, delta)),
            Err(k) => Err(k),
        },
        Err(k) => Err(k),
    }
}

/// `fixed_at` of what a borrowed map gives.
pub open spec fn fixed_of<QI, Q>(map: &DistanceMap<QI, SMDCurve<Q>>, d_in: QI, delta: Q) -> Result<
    (Q, Q),
    ErrorVariant,
> {
    fixed_at(map.image(d_in), delta)
}

/// Whether `fixed` is `measurement` with its curve read at `delta`.
pub open spec fn is_fixed<DI, DO, MI, Q>(
    fixed: Measurement<DI, DO, MI, FixedSmoothedMaxDivergence<Q>>,
    measurement: Measurement<DI, DO, MI, SmoothedMaxDivergence<Q>>,
    delta: Q,
) -> bool where DI: Domain, DO: Domain, MI: Metric, (DI, MI): MetricSpace {
    &&& fixed.input_domain() == measurement.input_domain()
    &&& fixed.output_domain() == measurement.output_domain()
    &&& fixed.function() == measurement.function()
    &&& fixed.input_metric() == measurement.input_metric()
    &&& forall|d_in: MI::Distance| #[trigger]
        fixed.privacy_map().image(d_in) == fixed_at(measurement.privacy_map().image(d_in), delta)
}

/// Fix the delta parameter in the privacy map of a `measurement` whose loss
/// is a curve. The privacy map of the result depends on the input distance
/// alone and gives the pair `(ε, δ)` at the fixed `δ`.
pub fn make_fix_delta<DI, DO, MI, Q>(measurement: &Measurement<DI, DO, MI, SmoothedMaxDivergence<Q>>, delta: Q) -> (r:
    Fallible<Measurement<DI, DO, MI, FixedSmoothedMaxDivergence<Q>>>) where
    DI: 'static + Domain,
    DO: 'static + Domain,
    MI: 'static + Metric,
    Q: 'static + Copy,
    (DI, MI): MetricSpace,

    ensures
        r matches Ok(fixed) && is_fixed(fixed, *measurement, delta),
{
    let inner = measurement.privacy_map.map.share();
    let ghost model = |d_in: MI::Distance| fixed_at(measurement.privacy_map().image(d_in), delta);
    let fix = move |d_in: &MI::Distance| -> (res: Fallible<(Q, Q)>)
        ensures
            kind(res) == fixed_of(&inner, *d_in, delta),
        {
            let curve = inner.eval(d_in)?;
            let epsilon = curve.epsilon(&delta)?;
            Ok((epsilon, delta))
        };
    proof {
        use_type_invariant(measurement);
    }
    Measurement::new(
        measurement.input_domain.duplicate(),
        measurement.output_domain.duplicate(),
        measurement.function.share(),
        measurement.input_metric.duplicate(),
        FixedSmoothedMaxDivergence::default(),
        PrivacyMap { map: DistanceMap::with_model(fix, Ghost(model)) },
    )
}

} // verus!
