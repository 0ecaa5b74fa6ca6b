//! Measure casts: the same mechanism with its loss stated in another measure.
use crate::error::{kind, Error, ErrorVariant, Fallible};
use crate::measures::{FixedSmoothedMaxDivergence, MaxDivergence, ZeroConcentratedDivergence};
use crate::objects::maps::{monotone, DistanceMap, PrivacyMap};
use crate::objects::space::{Descriptor, Domain, Metric, MetricSpace};
use crate::objects::units::Measurement;
use crate::traits::{ceil_div, Number};
use vstd::prelude::*;

verus! {

/// A pure loss `ε` as an approximate loss: `(ε, 0)`.
pub open spec fn with_zero_delta<Q: Number>(loss: Result<Q, ErrorVariant>) -> Result<(Q, Q), ErrorVariant> {
    match loss {
        Ok(epsilon) => Ok((epsilon, Q::from_value(0))),
        Err(k) => Err(k),
    }
}

/// `with_zero_delta` of what a borrowed map gives.
pub open spec fn zero_delta_of<QI, Q: Number>(map: &DistanceMap<QI, Q>, d_in: QI) -> Result<(Q, Q), ErrorVariant> {
    with_zero_delta(map.image(d_in))
}

/// A pure loss `ε` as a zero-concentrated loss: `ρ = ε² / 2`, rounded up. A
/// negative `ε` is refused with `InvalidDistance`, and a square that does not
/// fit `Q` fails with `FailedFunction`.
pub open spec fn concentrated<Q: Number>(loss: Result<Q, ErrorVariant>) -> Result<Q, ErrorVariant> {
    match loss {
        Ok(epsilon) => if epsilon.value() < 0 {
            Err(ErrorVariant::InvalidDistance)
        } else if epsilon.value() * epsilon.value() > Q::highest() {
            Err(ErrorVariant::FailedFunction)
        } else {
            Ok(Q::from_value(ceil_div(epsilon.value() * epsilon.value(), 2)))
        },
        Err(k) => Err(k),
    }
}

/// `concentrated` of what a borrowed map gives.
pub open spec fn concentrated_of<QI, Q: Number>(map: &DistanceMap<QI, Q>, d_in: QI) -> Result<Q, ErrorVariant> {
    concentrated(map.image(d_in))
}

/// Computes `ρ = ε² / 2`, rounded up.
pub fn rho_from_epsilon<Q: Number>(epsilon: Q) -> (r: Fallible<Q>)
    ensures
        kind(r) == concentrated(Ok::<Q, ErrorVariant>(epsilon)),
{
    proof {
        Q::lemma_number(epsilon, 2);
        Q::lemma_number(epsilon, epsilon.value() * epsilon.value());
    }
    if epsilon.total_lt(&Q::zero()) {
        return Err(Error::with_message(ErrorVariant::InvalidDistance, "epsilon must be non-negative"));
    }
    let two = match Q::from_wide(2) {
        Some(t) => t,
        None => {
            return Err(Error::with_message(ErrorVariant::FailedFunction, "two does not fit the type"));
        },
    };
    assert(epsilon.value() * epsilon.value() >= 0) by (nonlinear_arith)
        requires
            epsilon.value() >= 0,
    ;
    let square = epsilon.inf_mul(&epsilon)?;
    proof {
        let s = square.value();
        vstd::arithmetic::div_mod::lemma_fundamental_div_mod(s, 2);
        vstd::arithmetic::div_mod::lemma_mod_bound(s, 2);
        assert(0 <= ceil_div(s, 2) <= s);
        Q::lemma_number(epsilon, ceil_div(s, 2));
    }
    let rho = square.inf_div(&two)?;
    proof {
        Q::lemma_number(rho, 0);
    }
    Ok(rho)
}

/// Whether `cast` is `measurement` with its loss mapped by `convert`.
pub open spec fn is_cast<DI, DO, MI, MA, MB>(
    cast: Measurement<DI, DO, MI, MB>,
    measurement: Measurement<DI, DO, MI, MA>,
    convert: spec_fn(Result<MA::Distance, ErrorVariant>) -> Result<MB::Distance, ErrorVariant>,
) -> bool where
    DI: Domain,
    DO: Domain,
    MI: Metric,
    MA: crate::objects::space::Measure,
    MB: crate::objects::space::Measure,
    (DI, MI): MetricSpace,
 {
    &&& cast.input_domain() == measurement.input_domain()
    &&& cast.output_domain() == measurement.output_domain()
    &&& cast.function() == measurement.function()
    &&& cast.input_metric() == measurement.input_metric()
    &&& forall|d_in: MI::Distance| #[trigger]
        cast.privacy_map().image(d_in) == convert(measurement.privacy_map().image(d_in))
}

/// Constructs a measurement that is `measurement` with its pure loss `ε`
/// stated as the approximate loss `(ε, 0)`.
pub fn make_pureDP_to_fixed_approxDP<DI, DO, MI, Q>(measurement: &Measurement<DI, DO, MI, MaxDivergence<Q>>) -> (r:
    Fallible<Measurement<DI, DO, MI, FixedSmoothedMaxDivergence<Q>>>) where
    DI: 'static + Domain,
    DO: 'static + Domain,
    MI: 'static + Metric,
    Q: 'static + Number,
    (DI, MI): MetricSpace,

    ensures
        r matches Ok(cast) && is_cast(
            cast,
            *measurement,
            |loss: Result<Q, ErrorVariant>| with_zero_delta(loss),
        ),
{
    let inner = measurement.privacy_map.map.share();
    let ghost model = |d_in: MI::Distance| with_zero_delta(measurement.privacy_map().image(d_in));
    let approximate = move |d_in: &MI::Distance| -> (res: Fallible<(Q, Q)>)
        ensures
            kind(res) == zero_delta_of(&inner, *d_in),
        {
            let epsilon = inner.eval(d_in)?;
            let zero = Q::zero();
            proof {
                Q::lemma_number(zero, 0);
            }
            Ok((epsilon, zero))
        };
    proof {
        use_type_invariant(measurement);
    }
    Measurement::new(
        measurement.input_domain.duplicate(),
        measurement.output_domain.duplicate(),
        measurement.function.share(),
        measurement.input_metric.duplicate(),
        FixedSmoothedMaxDivergence::default(),
        PrivacyMap { map: DistanceMap::with_model(approximate, Ghost(model)) },
    )
}

/// Constructs a measurement that is `measurement` with its pure loss `ε`
/// stated as the zero-concentrated loss `ρ = ε² / 2`, rounded up.
pub fn make_pureDP_to_zCDP<DI, DO, MI, Q>(measurement: &Measurement<DI, DO, MI, MaxDivergence<Q>>) -> (r: Fallible<
    Measurement<DI, DO, MI, ZeroConcentratedDivergence<Q>>,
>) where
    DI: 'static + Domain,
    DO: 'static + Domain,
    MI: 'static + Metric,
    Q: 'static + Number,
    (DI, MI): MetricSpace,

    ensures
        r matches Ok(cast) && is_cast(cast, *measurement, |loss: Result<Q, ErrorVariant>| concentrated(loss)),
{
    let inner = measurement.privacy_map.map.share();
    let ghost model = |d_in: MI::Distance| concentrated(measurement.privacy_map().image(d_in));
    let convert = move |d_in: &MI::Distance| -> (res: Fallible<Q>)
        ensures
            kind(res) == concentrated_of(&inner, *d_in),
        {
            let epsilon = inner.eval(d_in)?;
            rho_from_epsilon(epsilon)
        };
    proof {
        use_type_invariant(measurement);
    }
    Measurement::new(
        measurement.input_domain.duplicate(),
        measurement.output_domain.duplicate(),
        measurement.function.share(),
        measurement.input_metric.duplicate(),
        ZeroConcentratedDivergence::default(),
        PrivacyMap { map: DistanceMap::with_model(convert, Ghost(model)) },
    )
}

/// The cast from pure to zero-concentrated loss keeps a privacy map monotone.
pub proof fn lemma_concentrated_monotone<QI: Number, Q: Number>(map: spec_fn(QI) -> Result<Q, ErrorVariant>)
    requires
        monotone(map),
    ensures
        monotone(|d_in: QI| concentrated(map(d_in))),
{
    let cast = |d_in: QI| concentrated(map(d_in));
    assert forall|a: QI, b: QI| a.value() <= b.value() implies match (#[trigger] cast(a), #[trigger] cast(b)) {
        (Ok(x), Ok(y)) => x.value() <= y.value(),
        _ => true,
    } by {
        if cast(a) is Ok && cast(b) is Ok {
            let ea = map(a).unwrap().value();
            let eb = map(b).unwrap().value();
            assert(0 <= ea <= eb);
            assert(ea * ea <= eb * eb) by (nonlinear_arith)
                requires
                    0 <= ea <= eb,
            ;
            assert(ea * ea >= 0) by (nonlinear_arith);
            let sa = ea * ea;
            let sb = eb * eb;
            vstd::arithmetic::div_mod::lemma_fundamental_div_mod(sa, 2);
            vstd::arithmetic::div_mod::lemma_fundamental_div_mod(sb, 2);
            vstd::arithmetic::div_mod::lemma_mod_bound(sa, 2);
            vstd::arithmetic::div_mod::lemma_mod_bound(sb, 2);
            assert(ceil_div(sa, 2) <= ceil_div(sb, 2));
            Q::lemma_number(map(a).unwrap(), ceil_div(sa, 2));
            Q::lemma_number(map(a).unwrap(), ceil_div(sb, 2));
            assert(0 <= ceil_div(sa, 2) <= sa);
            assert(0 <= ceil_div(sb, 2) <= sb);
        }
    }
}

} // verus!
