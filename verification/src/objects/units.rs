//! Transformations, measurements and postprocessors.
use crate::error::{fails_with, kind, Error, ErrorVariant, Fallible};
use crate::objects::function::Function;
use crate::objects::maps::{PrivacyMap, StabilityMap};
use crate::objects::space::{require_metric_space, Descriptor, Domain, Measure, Metric, MetricSpace};
use crate::traits::Number;
use vstd::prelude::*;

verus! {

/// What checking the claim `d_out` against a map returns: both distances must
/// be non-negative, and the claim holds when the bound that the map gives for
/// `d_in` does not exceed it.
pub open spec fn checked<QI: Number, QO: Number>(
    bound: Result<QO, ErrorVariant>,
    d_in: QI,
    d_out: QO,
) -> Result<bool, ErrorVariant> {
    if d_in.value() < 0 || d_out.value() < 0 {
        Err(ErrorVariant::InvalidDistance)
    } else {
        match bound {
            Ok(b) => Ok(b.value() <= d_out.value()),
            Err(k) => Err(k),
        }
    }
}

/// A deterministic mapping between two metric spaces with a stability guarantee.
#[verifier::reject_recursive_types(DI)]
#[verifier::reject_recursive_types(DO)]
#[verifier::reject_recursive_types(MI)]
#[verifier::reject_recursive_types(MO)]
pub struct Transformation<DI: Domain, DO: Domain, MI: Metric, MO: Metric> where
    (DI, MI): MetricSpace,
    (DO, MO): MetricSpace,
 {
    pub(crate) input_domain: DI,
    pub(crate) output_domain: DO,
    pub(crate) function: Function<DI::Carrier, DO::Carrier>,
    pub(crate) input_metric: MI,
    pub(crate) output_metric: MO,
    pub(crate) stability_map: StabilityMap<MI, MO>,
}

impl<DI: Domain, DO: Domain, MI: Metric, MO: Metric> Transformation<DI, DO, MI, MO> where
    (DI, MI): MetricSpace,
    (DO, MO): MetricSpace,
 {
    /// Both ends are valid metric spaces.
    #[verifier::type_invariant]
    pub open spec fn wf(&self) -> bool {
        &&& (self.input_domain(), self.input_metric()).valid()
        &&& (self.output_domain(), self.output_metric()).valid()
    }

    /// What `input_domain` stands for in contracts: the domain of the arguments.
    pub open(crate) spec fn spec_input_domain(&self) -> DI {
        self.input_domain
    }

    /// The domain of the arguments.
    #[verifier::when_used_as_spec(spec_input_domain)]
    pub fn input_domain(&self) -> (r: DI)
        ensures
            r == self.spec_input_domain(),
    {
        self.input_domain.duplicate()
    }

    /// What `output_domain` stands for in contracts: the domain of the results.
    pub open(crate) spec fn spec_output_domain(&self) -> DO {
        self.output_domain
    }

    /// The domain of the results.
    #[verifier::when_used_as_spec(spec_output_domain)]
    pub fn output_domain(&self) -> (r: DO)
        ensures
            r == self.spec_output_domain(),
    {
        self.output_domain.duplicate()
    }

    /// What `function` stands for in contracts: the function.
    pub open(crate) spec fn spec_function(&self) -> Function<DI::Carrier, DO::Carrier> {
        self.function
    }

    /// The function, shared with `self`.
    #[verifier::when_used_as_spec(spec_function)]
    pub fn function(&self) -> (r: Function<DI::Carrier, DO::Carrier>)
        ensures
            r == self.spec_function(),
    {
        self.function.share()
    }

    /// What `input_metric` stands for in contracts: the metric on the input domain.
    pub open(crate) spec fn spec_input_metric(&self) -> MI {
        self.input_metric
    }

    /// The metric on the input domain.
    #[verifier::when_used_as_spec(spec_input_metric)]
    pub fn input_metric(&self) -> (r: MI)
        ensures
            r == self.spec_input_metric(),
    {
        self.input_metric.duplicate()
    }

    /// What `output_metric` stands for in contracts: the metric on the output domain.
    pub open(crate) spec fn spec_output_metric(&self) -> MO {
        self.output_metric
    }

    /// The metric on the output domain.
    #[verifier::when_used_as_spec(spec_output_metric)]
    pub fn output_metric(&self) -> (r: MO)
        ensures
            r == self.spec_output_metric(),
    {
        self.output_metric.duplicate()
    }

    /// What `stability_map` stands for in contracts: the stability map.
    pub open(crate) spec fn spec_stability_map(&self) -> StabilityMap<MI, MO> {
        self.stability_map
    }

    /// The stability map, shared with `self`.
    #[verifier::when_used_as_spec(spec_stability_map)]
    pub fn stability_map(&self) -> (r: StabilityMap<MI, MO>)
        ensures
            r == self.spec_stability_map(),
    {
        self.stability_map.clone()
    }

    /// Whether the six parts of `self` are the given ones.
    pub open spec fn made_of(
        &self,
        input_domain: DI,
        output_domain: DO,
        function: Function<DI::Carrier, DO::Carrier>,
        input_metric: MI,
        output_metric: MO,
        stability_map: StabilityMap<MI, MO>,
    ) -> bool {
        &&& self.input_domain() == input_domain
        &&& self.output_domain() == output_domain
        &&& self.function() == function
        &&& self.input_metric() == input_metric
        &&& self.output_metric() == output_metric
        &&& self.stability_map() == stability_map
    }

    /// Builds a transformation; fails with `InvalidMetricSpace` exactly when
    /// one of its ends is not a valid metric space.
    pub fn new(
        input_domain: DI,
        output_domain: DO,
        function: Function<DI::Carrier, DO::Carrier>,
        input_metric: MI,
        output_metric: MO,
        stability_map: StabilityMap<MI, MO>,
    ) -> (r: Fallible<Self>)
        ensures
            (input_domain, input_metric).valid() && (output_domain, output_metric).valid() ==> (r matches Ok(t)
                && t.made_of(
                input_domain,
                output_domain,
                function,
                input_metric,
                output_metric,
                stability_map,
            )),
            !((input_domain, input_metric).valid() && (output_domain, output_metric).valid())
                ==> fails_with(r, ErrorVariant::InvalidMetricSpace),
    {
        require_metric_space(&input_domain, &input_metric)?;
        require_metric_space(&output_domain, &output_metric)?;
        Ok(
            Transformation {
                input_domain,
                output_domain,
                function,
                input_metric,
                output_metric,
                stability_map,
            },
        )
    }

    /// Applies the function to `arg`.
    pub fn invoke(&self, arg: &DI::Carrier) -> (r: Fallible<DO::Carrier>)
        ensures
            self.function().relates(*arg, r),
    {
        self.function.eval(arg)
    }

    /// Applies the function to `arg` after checking that `arg` belongs to
    /// the input domain; an argument outside the domain fails with `FailedFunction`.
    pub fn invoke_checked(&self, arg: &DI::Carrier) -> (r: Fallible<DO::Carrier>)
        ensures
            self.input_domain().contains(*arg) ==> self.function().relates(*arg, r),
            !self.input_domain().contains(*arg) ==> fails_with(r, ErrorVariant::FailedFunction),
    {
        if !self.input_domain.member(arg)? {
            return Err(
                Error::with_message(ErrorVariant::FailedFunction, "the argument is not a member of the input domain"),
            );
        }
        self.function.eval(arg)
    }

    /// The greatest distance between outputs on inputs that are `d_in` apart.
    pub fn map(&self, d_in: &MI::Distance) -> (r: Fallible<MO::Distance>)
        ensures
            kind(r) == self.stability_map().image(*d_in),
            self.stability_map().relates(*d_in, r),
    {
        self.stability_map.eval(d_in)
    }
}

impl<DI: Domain, DO: Domain, MI: Metric, MO: Metric> Transformation<DI, DO, MI, MO> where
    (DI, MI): MetricSpace,
    (DO, MO): MetricSpace,
    MI::Distance: Number,
    MO::Distance: Number,
 {
    /// Whether outputs are at most `d_out` apart on inputs that are `d_in` apart.
    pub fn check(&self, d_in: &MI::Distance, d_out: &MO::Distance) -> (r: Fallible<bool>)
        ensures
            kind(r) == checked(self.stability_map().image(*d_in), *d_in, *d_out),
    {
        let zero_in = MI::Distance::zero();
        let zero_out = MO::Distance::zero();
        if d_in.total_lt(&zero_in) || d_out.total_lt(&zero_out) {
            return Err(Error::with_message(ErrorVariant::InvalidDistance, "distances must be non-negative"));
        }
        let bound = self.map(d_in)?;
        Ok(bound.total_le(d_out))
    }
}

/// A randomized mapping from a metric space to a domain with a privacy guarantee.
#[verifier::reject_recursive_types(DI)]
#[verifier::reject_recursive_types(DO)]
#[verifier::reject_recursive_types(MI)]
#[verifier::reject_recursive_types(MO)]
pub struct Measurement<DI: Domain, DO: Domain, MI: Metric, MO: Measure> where (DI, MI): MetricSpace {
    pub(crate) input_domain: DI,
    pub(crate) output_domain: DO,
    pub(crate) function: Function<DI::Carrier, DO::Carrier>,
    pub(crate) input_metric: MI,
    pub(crate) output_measure: MO,
    pub(crate) privacy_map: PrivacyMap<MI, MO>,
}

impl<DI: Domain, DO: Domain, MI: Metric, MO: Measure> Measurement<DI, DO, MI, MO> where
    (DI, MI): MetricSpace,
 {
    /// The input end is a valid metric space.
    #[verifier::type_invariant]
    pub open spec fn wf(&self) -> bool {
        (self.input_domain(), self.input_metric()).valid()
    }

    /// What `input_domain` stands for in contracts: the domain of the arguments.
    pub open(crate) spec fn spec_input_domain(&self) -> DI {
        self.input_domain
    }

    /// The domain of the arguments.
    #[verifier::when_used_as_spec(spec_input_domain)]
    pub fn input_domain(&self) -> (r: DI)
        ensures
            r == self.spec_input_domain(),
    {
        self.input_domain.duplicate()
    }

    /// What `output_domain` stands for in contracts: the domain of the results.
    pub open(crate) spec fn spec_output_domain(&self) -> DO {
        self.output_domain
    }

    /// The domain of the results.
    #[verifier::when_used_as_spec(spec_output_domain)]
    pub fn output_domain(&self) -> (r: DO)
        ensures
            r == self.spec_output_domain(),
    {
        self.output_domain.duplicate()
    }

    /// What `function` stands for in contracts: the function.
    pub open(crate) spec fn spec_function(&self) -> Function<DI::Carrier, DO::Carrier> {
        self.function
    }

    /// The function, shared with `self`.
    #[verifier::when_used_as_spec(spec_function)]
    pub fn function(&self) -> (r: Function<DI::Carrier, DO::Carrier>)
        ensures
            r == self.spec_function(),
    {
        self.function.share()
    }

    /// What `input_metric` stands for in contracts: the metric on the input domain.
    pub open(crate) spec fn spec_input_metric(&self) -> MI {
        self.input_metric
    }

    /// The metric on the input domain.
    #[verifier::when_used_as_spec(spec_input_metric)]
    pub fn input_metric(&self) -> (r: MI)
        ensures
            r == self.spec_input_metric(),
    {
        self.input_metric.duplicate()
    }

    /// What `output_measure` stands for in contracts: the measure of the privacy loss.
    pub open(crate) spec fn spec_output_measure(&self) -> MO {
        self.output_measure
    }

    /// The measure of the privacy loss.
    #[verifier::when_used_as_spec(spec_output_measure)]
    pub fn output_measure(&self) -> (r: MO)
        ensures
            r == self.spec_output_measure(),
    {
        self.output_measure.duplicate()
    }

    /// What `privacy_map` stands for in contracts: the privacy map.
    pub open(crate) spec fn spec_privacy_map(&self) -> PrivacyMap<MI, MO> {
        self.privacy_map
    }

    /// The privacy map, shared with `self`.
    #[verifier::when_used_as_spec(spec_privacy_map)]
    pub fn privacy_map(&self) -> (r: PrivacyMap<MI, MO>)
        ensures
            r == self.spec_privacy_map(),
    {
        self.privacy_map.clone()
    }

    /// Whether the six parts of `self` are the given ones.
    pub open spec fn made_of(
        &self,
        input_domain: DI,
        output_domain: DO,
        function: Function<DI::Carrier, DO::Carrier>,
        input_metric: MI,
        output_measure: MO,
        privacy_map: PrivacyMap<MI, MO>,
    ) -> bool {
        &&& self.input_domain() == input_domain
        &&& self.output_domain() == output_domain
        &&& self.function() == function
        &&& self.input_metric() == input_metric
        &&& self.output_measure() == output_measure
        &&& self.privacy_map() == privacy_map
    }

    /// Builds a measurement; fails with `InvalidMetricSpace` exactly when its
    /// input end is not a valid metric space.
    pub fn new(
        input_domain: DI,
        output_domain: DO,
        function: Function<DI::Carrier, DO::Carrier>,
        input_metric: MI,
        output_measure: MO,
        privacy_map: PrivacyMap<MI, MO>,
    ) -> (r: Fallible<Self>)
        ensures
            (input_domain, input_metric).valid() ==> (r matches Ok(m) && m.made_of(
                input_domain,
                output_domain,
                function,
                input_metric,
                output_measure,
                privacy_map,
            )),
            !(input_domain, input_metric).valid() ==> fails_with(r, ErrorVariant::InvalidMetricSpace),
    {
        require_metric_space(&input_domain, &input_metric)?;
        Ok(
            Measurement {
                input_domain,
                output_domain,
                function,
                input_metric,
                output_measure,
                privacy_map,
            },
        )
    }

    /// Runs the mechanism on `arg`. Each call draws its own randomness, so
    /// nothing relates the results of two calls.
    pub fn invoke(&self, arg: &DI::Carrier) -> (r: Fallible<DO::Carrier>)
        ensures
            self.function().relates(*arg, r),
    {
        self.function.eval(arg)
    }

    /// Runs the mechanism on `arg` after checking that `arg` belongs to the
    /// input domain; an argument outside the domain fails with `FailedFunction`.
    pub fn invoke_checked(&self, arg: &DI::Carrier) -> (r: Fallible<DO::Carrier>)
        ensures
            self.input_domain().contains(*arg) ==> self.function().relates(*arg, r),
            !self.input_domain().contains(*arg) ==> fails_with(r, ErrorVariant::FailedFunction),
    {
        if !self.input_domain.member(arg)? {
            return Err(
                Error::with_message(ErrorVariant::FailedFunction, "the argument is not a member of the input domain"),
            );
        }
        self.function.eval(arg)
    }

    /// The greatest privacy loss on inputs that are `d_in` apart.
    pub fn map(&self, d_in: &MI::Distance) -> (r: Fallible<MO::Distance>)
        ensures
            kind(r) == self.privacy_map().image(*d_in),
            self.privacy_map().relates(*d_in, r),
    {
        self.privacy_map.eval(d_in)
    }
}

impl<DI: Domain, DO: Domain, MI: Metric, MO: Measure> Measurement<DI, DO, MI, MO> where
    (DI, MI): MetricSpace,
    MI::Distance: Number,
    MO::Distance: Number,
 {
    /// Whether the privacy loss is at most `d_out` on inputs that are `d_in` apart.
    pub fn check(&self, d_in: &MI::Distance, d_out: &MO::Distance) -> (r: Fallible<bool>)
        ensures
            kind(r) == checked(self.privacy_map().image(*d_in), *d_in, *d_out),
    {
        let zero_in = MI::Distance::zero();
        let zero_out = MO::Distance::zero();
        if d_in.total_lt(&zero_in) || d_out.total_lt(&zero_out) {
            return Err(Error::with_message(ErrorVariant::InvalidDistance, "distances must be non-negative"));
        }
        let bound = self.map(d_in)?;
        Ok(bound.total_le(d_out))
    }
}

/// A mapping applied to the output of a measurement. It carries no guarantee
/// of its own and does not change the privacy loss of what it follows.
#[verifier::reject_recursive_types(DI)]
#[verifier::reject_recursive_types(DO)]
pub struct Postprocessor<DI: Domain, DO: Domain> {
    pub(crate) input_domain: DI,
    pub(crate) output_domain: DO,
    pub(crate) function: Function<DI::Carrier, DO::Carrier>,
}

impl<DI: Domain, DO: Domain> Postprocessor<DI, DO> {
    /// What `input_domain` stands for in contracts: the domain of the arguments.
    pub open(crate) spec fn spec_input_domain(&self) -> DI {
        self.input_domain
    }

    /// The domain of the arguments.
    #[verifier::when_used_as_spec(spec_input_domain)]
    pub fn input_domain(&self) -> (r: DI)
        ensures
            r == self.spec_input_domain(),
    {
        self.input_domain.duplicate()
    }

    /// What `output_domain` stands for in contracts: the domain of the results.
    pub open(crate) spec fn spec_output_domain(&self) -> DO {
        self.output_domain
    }

    /// The domain of the results.
    #[verifier::when_used_as_spec(spec_output_domain)]
    pub fn output_domain(&self) -> (r: DO)
        ensures
            r == self.spec_output_domain(),
    {
        self.output_domain.duplicate()
    }

    /// What `function` stands for in contracts: the function.
    pub open(crate) spec fn spec_function(&self) -> Function<DI::Carrier, DO::Carrier> {
        self.function
    }

    /// The function, shared with `self`.
    #[verifier::when_used_as_spec(spec_function)]
    pub fn function(&self) -> (r: Function<DI::Carrier, DO::Carrier>)
        ensures
            r == self.spec_function(),
    {
        self.function.share()
    }

    /// Builds a postprocessor.
    pub fn new(input_domain: DI, output_domain: DO, function: Function<DI::Carrier, DO::Carrier>) -> (r: Self)
        ensures
            r.input_domain() == input_domain,
            r.output_domain() == output_domain,
            r.function() == function,
    {
        Postprocessor { input_domain, output_domain, function }
    }

    /// Applies the function to `arg`.
    pub fn invoke(&self, arg: &DI::Carrier) -> (r: Fallible<DO::Carrier>)
        ensures
            self.function().relates(*arg, r),
    {
        self.function.eval(arg)
    }
}

impl<DI: Domain, DO: Domain, MI: Metric, MO: Metric> Clone for Transformation<DI, DO, MI, MO> where
    (DI, MI): MetricSpace,
    (DO, MO): MetricSpace,
 {
    /// A copy that shares the function and the stability map.
    fn clone(&self) -> (r: Self)
        ensures
            r == *self,
    {
        proof {
            use_type_invariant(self);
        }
        Transformation {
            input_domain: self.input_domain.duplicate(),
            output_domain: self.output_domain.duplicate(),
            function: self.function.share(),
            input_metric: self.input_metric.duplicate(),
            output_metric: self.output_metric.duplicate(),
            stability_map: self.stability_map.clone(),
        }
    }
}

impl<DI: Domain, DO: Domain, MI: Metric, MO: Measure> Clone for Measurement<DI, DO, MI, MO> where
    (DI, MI): MetricSpace,
 {
    /// A copy that shares the function and the privacy map.
    fn clone(&self) -> (r: Self)
        ensures
            r == *self,
    {
        proof {
            use_type_invariant(self);
        }
        Measurement {
            input_domain: self.input_domain.duplicate(),
            output_domain: self.output_domain.duplicate(),
            function: self.function.share(),
            input_metric: self.input_metric.duplicate(),
            output_measure: self.output_measure.duplicate(),
            privacy_map: self.privacy_map.clone(),
        }
    }
}

impl<DI: Domain, DO: Domain> Clone for Postprocessor<DI, DO> {
    /// A copy that shares the function.
    fn clone(&self) -> (r: Self)
        ensures
            r == *self,
    {
        Postprocessor {
            input_domain: self.input_domain.duplicate(),
            output_domain: self.output_domain.duplicate(),
            function: self.function.share(),
        }
    }
}

} // verus!
