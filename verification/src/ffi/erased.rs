//! Erased domains, metrics and measures: plain descriptions of the typed
//! ones, compared first by their type and then by their parameters.
use crate::error::{fails_with, Error, ErrorVariant, Fallible};
use crate::ffi::any::{views, AnyObject, ObjectView, Scalar, ScalarView};
use crate::ffi::util::{Atom, Family, Nullary, Type};
use crate::objects::space::{Descriptor, Domain, Measure, Metric, MetricSpace};
use crate::text::{decimal, enclose, format_int, format_nat};
use vstd::prelude::*;
use vstd::string::StringExecFns;

verus! {

/// Whether a family of domains can be erased to a value: the domains with a
/// null element cannot.
pub open spec fn spec_erasable_domain(family: Family) -> bool {
    family == Family::AllDomain || family == Family::BoundedDomain || family == Family::VectorOfAll || family
        == Family::VectorOfBounded || family == Family::SizedVectorOfAll || family
        == Family::SizedVectorOfBounded
}

/// Whether the domains of a family have bounds.
pub open spec fn spec_is_bounded(family: Family) -> bool {
    family == Family::BoundedDomain || family == Family::VectorOfBounded || family
        == Family::SizedVectorOfBounded
}

/// Whether the domains of a family hold vectors.
pub open spec fn spec_is_vector(family: Family) -> bool {
    family == Family::VectorOfAll || family == Family::VectorOfBounded || family == Family::SizedVectorOfAll
        || family == Family::SizedVectorOfBounded
}

/// Whether the domains of a family fix the number of records.
pub open spec fn spec_is_sized(family: Family) -> bool {
    family == Family::SizedVectorOfAll || family == Family::SizedVectorOfBounded
}

/// Decides whether a family of domains can be erased to a value.
#[verifier::when_used_as_spec(spec_erasable_domain)]
pub fn erasable_domain(family: Family) -> (b: bool)
    ensures
        b == spec_erasable_domain(family),
{
    match family {
        Family::AllDomain
        | Family::BoundedDomain
        | Family::VectorOfAll
        | Family::VectorOfBounded
        | Family::SizedVectorOfAll
        | Family::SizedVectorOfBounded => true,
        _ => false,
    }
}

/// Decides whether the domains of a family have bounds.
#[verifier::when_used_as_spec(spec_is_bounded)]
pub fn is_bounded(family: Family) -> (b: bool)
    ensures
        b == spec_is_bounded(family),
{
    match family {
        Family::BoundedDomain | Family::VectorOfBounded | Family::SizedVectorOfBounded => true,
        _ => false,
    }
}

/// Decides whether the domains of a family hold vectors.
#[verifier::when_used_as_spec(spec_is_vector)]
pub fn is_vector(family: Family) -> (b: bool)
    ensures
        b == spec_is_vector(family),
{
    match family {
        Family::VectorOfAll
        | Family::VectorOfBounded
        | Family::SizedVectorOfAll
        | Family::SizedVectorOfBounded => true,
        _ => false,
    }
}

/// Decides whether the domains of a family fix the number of records.
#[verifier::when_used_as_spec(spec_is_sized)]
pub fn is_sized(family: Family) -> (b: bool)
    ensures
        b == spec_is_sized(family),
{
    match family {
        Family::SizedVectorOfAll | Family::SizedVectorOfBounded => true,
        _ => false,
    }
}

/// An erased domain: the family and the atom of the typed domain, and its
/// parameters. A parameter that the family does not have is zero, so that two
/// erased domains are equal exactly when they describe the same domain.
pub struct AnyDomain {
    family: Family,
    atom: Atom,
    lower: i128,
    upper: i128,
    length: usize,
}

impl AnyDomain {
    /// The parts fit the family: bounds are in order and stand only where the family has bounds, and a length stands only where the family fixes one.
    #[verifier::type_invariant]
    pub closed spec fn wf(&self) -> bool {
        &&& spec_erasable_domain(self.family)
        &&& Type::Of(self.family, self.atom).spec_supported()
        &&& spec_is_bounded(self.family) ==> self.atom.spec_is_integer() && self.lower <= self.upper
        &&& !spec_is_bounded(self.family) ==> self.lower == 0 && self.upper == 0
        &&& !spec_is_sized(self.family) ==> self.length == 0
    }

    /// The family of the typed domain.
    pub closed spec fn family(&self) -> Family {
        self.family
    }

    /// The primitive type of the records.
    pub closed spec fn atom(&self) -> Atom {
        self.atom
    }

    /// The lower bound, or zero where the family has no bounds.
    pub closed spec fn lower(&self) -> int {
        self.lower as int
    }

    /// The upper bound, or zero where the family has no bounds.
    pub closed spec fn upper(&self) -> int {
        self.upper as int
    }

    /// The number of records, or zero where the family fixes none.
    pub closed spec fn length(&self) -> nat {
        self.length as nat
    }

    /// The type of the typed domain.
    pub open spec fn domain_type(&self) -> Type {
        Type::Of(self.family(), self.atom())
    }

    /// Two erased domains with the same parts are one erased domain.
    pub proof fn lemma_same_parts(a: Self, b: Self)
        requires
            a.family() == b.family(),
            a.atom() == b.atom(),
            a.lower() == b.lower(),
            a.upper() == b.upper(),
            a.length() == b.length(),
        ensures
            a == b,
    {
    }

    /// What building an erased domain returns. The type must name a domain
    /// without a null element; bounds are taken for the families that have
    /// them, must be in order and need an integer atom; a length is taken for
    /// the families that fix one. Everything else fails with `TypeParse`.
    pub open spec fn building(
        r: Fallible<AnyDomain>,
        domain_type: Type,
        bounds: Option<(i128, i128)>,
        length: Option<usize>,
    ) -> bool {
        match domain_type {
            Type::Of(family, atom) => if spec_erasable_domain(family) && domain_type.spec_supported()
                && bounds.is_some() == spec_is_bounded(family) && length.is_some() == spec_is_sized(family)
                && (bounds matches Some(b) ==> atom.spec_is_integer() && b.0 <= b.1) {
                &&& r matches Ok(d)
                &&& d.family() == family
                &&& d.atom() == atom
                &&& d.lower() == (match bounds {
                    Some(b) => b.0 as int,
                    None => 0,
                })
                &&& d.upper() == (match bounds {
                    Some(b) => b.1 as int,
                    None => 0,
                })
                &&& d.length() == (match length {
                    Some(n) => n as nat,
                    None => 0,
                })
            } else {
                fails_with(r, ErrorVariant::TypeParse)
            },
            Type::Named(_) => fails_with(r, ErrorVariant::TypeParse),
        }
    }

    /// Builds an erased domain from its type and its parameters.
    pub fn new(domain_type: Type, bounds: Option<(i128, i128)>, length: Option<usize>) -> (r: Fallible<AnyDomain>)
        ensures
            Self::building(r, domain_type, bounds, length),
    {
        match domain_type {
            Type::Of(family, atom) => {
                let in_order = match &bounds {
                    Some(b) => atom.is_integer() && b.0 <= b.1,
                    None => true,
                };
                if erasable_domain(family) && domain_type.supported() && bounds.is_some() == is_bounded(family)
                    && length.is_some() == is_sized(family) && in_order {
                    let (lower, upper) = match bounds {
                        Some(b) => b,
                        None => (0, 0),
                    };
                    let length = match length {
                        Some(n) => n,
                        None => 0,
                    };
                    Ok(AnyDomain { family, atom, lower, upper, length })
                } else {
                    Err(
                        Error::with_message(
                            ErrorVariant::TypeParse,
                            "the type and the parameters do not describe a domain that can be erased",
                        ),
                    )
                }
            },
            Type::Named(_) => Err(Error::with_message(ErrorVariant::TypeParse, "the type does not name a domain")),
        }
    }

    /// Puts an erased domain together from parts that are known to fit.
    pub(crate) fn assemble(family: Family, atom: Atom, lower: i128, upper: i128, length: usize) -> (r: AnyDomain)
        requires
            spec_erasable_domain(family),
            Type::Of(family, atom).spec_supported(),
            spec_is_bounded(family) ==> atom.spec_is_integer() && lower <= upper,
            !spec_is_bounded(family) ==> lower == 0 && upper == 0,
            !spec_is_sized(family) ==> length == 0,
        ensures
            r.family() == family,
            r.atom() == atom,
            r.lower() == lower,
            r.upper() == upper,
            r.length() == length,
    {
        AnyDomain { family, atom, lower, upper, length }
    }

    /// The domain that a descriptor stands for when no parameters are given:
    /// it exists for the families without bounds and without a length.
    pub fn default_domain(domain_type: Type) -> (r: Fallible<AnyDomain>)
        ensures
            Self::building(r, domain_type, None, None),
    {
        Self::new(domain_type, None, None)
    }

    /// The type of the members of the domain.
    pub open spec fn spec_carrier_type(&self) -> Type {
        if spec_is_vector(self.family()) {
            Type::Of(Family::Vector, self.atom())
        } else {
            Type::Of(Family::Plain, self.atom())
        }
    }

    /// The type of the members of the domain.
    pub fn carrier_type(&self) -> (r: Type)
        ensures
            r == self.spec_carrier_type(),
            self.domain_type().spec_carrier_type() == Some(r),
    {
        proof {
            use_type_invariant(self);
        }
        if is_vector(self.family) {
            Type::Of(Family::Vector, self.atom)
        } else {
            Type::Of(Family::Plain, self.atom)
        }
    }

    /// Whether a scalar belongs to the element domain.
    pub open spec fn admits(&self, s: ScalarView) -> bool {
        &&& s.atom() == self.atom()
        &&& spec_is_bounded(self.family()) ==> (s.integer() matches Some(v) && self.lower() <= v <= self.upper())
    }

    fn accepts(&self, s: &Scalar) -> (b: bool)
        ensures
            b == self.admits(s@),
    {
        if s.atom() != self.atom {
            return false;
        }
        if is_bounded(self.family) {
            match s.integer() {
                Some(v) => self.lower <= v && v <= self.upper,
                None => false,
            }
        } else {
            true
        }
    }

    /// The description of the element domain.
    pub open spec fn element_description(&self) -> Seq<char> {
        if spec_is_bounded(self.family()) {
            "BoundedDomain("@ + decimal(self.lower()) + ", "@ + decimal(self.upper()) + ")"@
        } else {
            "AllDomain()"@
        }
    }

    fn describe_element(&self) -> (r: String)
        ensures
            r@ == self.element_description(),
    {
        if is_bounded(self.family) {
            let mut r = String::from_str("BoundedDomain(");
            r.append(format_int(self.lower).as_str());
            r.append(", ");
            r.append(format_int(self.upper).as_str());
            r.append(")");
            r
        } else {
            String::from_str("AllDomain()")
        }
    }
}

impl Descriptor for AnyDomain {
    open spec fn description(&self) -> Seq<char> {
        if spec_is_sized(self.family()) {
            "SizedDomain("@ + ("VectorDomain("@ + self.element_description() + ")"@) + ", "@ + decimal(
                self.length() as int,
            ) + ")"@
        } else if spec_is_vector(self.family()) {
            "VectorDomain("@ + self.element_description() + ")"@
        } else {
            self.element_description()
        }
    }

    /// Compares the types first and the parameters only when the types agree.
    fn equals(&self, other: &Self) -> (b: bool) {
        if self.family != other.family || self.atom != other.atom {
            return false;
        }
        self.lower == other.lower && self.upper == other.upper && self.length == other.length
    }

    fn duplicate(&self) -> (r: Self) {
        proof {
            use_type_invariant(self);
        }
        AnyDomain {
            family: self.family,
            atom: self.atom,
            lower: self.lower,
            upper: self.upper,
            length: self.length,
        }
    }

    fn describe(&self) -> (r: String) {
        if is_sized(self.family) {
            let mut inner = String::from_str("VectorDomain(");
            inner.append(self.describe_element().as_str());
            inner.append(")");
            let mut r = String::from_str("SizedDomain(");
            r.append(inner.as_str());
            r.append(", ");
            r.append(format_nat(self.length as u128).as_str());
            r.append(")");
            r
        } else if is_vector(self.family) {
            let mut r = String::from_str("VectorDomain(");
            r.append(self.describe_element().as_str());
            r.append(")");
            r
        } else {
            self.describe_element()
        }
    }
}

impl Domain for AnyDomain {
    type Carrier = AnyObject;

    open spec fn contains(&self, value: AnyObject) -> bool {
        match value@ {
            ObjectView::One(s) => !spec_is_vector(self.family()) && self.admits(s),
            ObjectView::Many(a, elements) => {
                &&& spec_is_vector(self.family())
                &&& a == self.atom()
                &&& spec_is_sized(self.family()) ==> elements.len() == self.length()
                &&& forall|i: int| 0 <= i < elements.len() ==> self.admits(#[trigger] elements[i])
            },
        }
    }

    fn member(&self, value: &AnyObject) -> (r: Fallible<bool>) {
        match value.as_scalar() {
            Some(s) => {
                return Ok(!is_vector(self.family) && self.accepts(s));
            },
            None => {},
        }
        let elements = match value.as_scalars() {
            Some(v) => v,
            None => {
                return Ok(false);
            },
        };
        if !is_vector(self.family) || value.type_of() != Type::Of(Family::Vector, self.atom) {
            return Ok(false);
        }
        if is_sized(self.family) && elements.len() != self.length {
            return Ok(false);
        }
        let mut i: usize = 0;
        while i < elements.len()
            invariant
                i <= elements.len(),
                value@ matches ObjectView::Many(a, s) && s == views(elements@),
                forall|j: int| 0 <= j < i ==> self.admits(#[trigger] views(elements@)[j]),
            decreases elements.len() - i,
        {
            if !self.accepts(&elements[i]) {
                assert(!self.admits(views(elements@)[i as int]));
                return Ok(false);
            }
            i = i + 1;
        }
        Ok(true)
    }
}

/// An erased metric: the type of the typed metric. Metrics have no parameters.
pub struct AnyMetric {
    metric_type: Type,
}

impl AnyMetric {
    /// The type names a metric that the registry holds.
    #[verifier::type_invariant]
    pub closed spec fn wf(&self) -> bool {
        self.metric_type.spec_is_metric() && self.metric_type.spec_supported()
    }

    /// The type of the typed metric.
    pub closed spec fn metric_type(&self) -> Type {
        self.metric_type
    }

    /// Two erased metrics of one type are one erased metric.
    pub proof fn lemma_same_type(a: Self, b: Self)
        requires
            a.metric_type() == b.metric_type(),
        ensures
            a == b,
    {
    }

    /// Builds the erased metric of the type `metric_type`; fails with
    /// `TypeParse` exactly when the type does not name a supported metric.
    pub fn new(metric_type: Type) -> (r: Fallible<AnyMetric>)
        ensures
            metric_type.spec_is_metric() && metric_type.spec_supported() ==> (r matches Ok(m)
                && m.metric_type() == metric_type),
            !(metric_type.spec_is_metric() && metric_type.spec_supported()) ==> fails_with(
                r,
                ErrorVariant::TypeParse,
            ),
    {
        let is_metric = match metric_type {
            Type::Named(_) => true,
            Type::Of(f, _) => f.is_metric(),
        };
        if is_metric && metric_type.supported() {
            Ok(AnyMetric { metric_type })
        } else {
            Err(Error::with_message(ErrorVariant::TypeParse, "the type does not name a metric"))
        }
    }

    /// Puts an erased metric together from a type that is known to name one.
    pub(crate) fn assemble(metric_type: Type) -> (r: AnyMetric)
        requires
            metric_type.spec_is_metric(),
            metric_type.spec_supported(),
        ensures
            r.metric_type() == metric_type,
    {
        AnyMetric { metric_type }
    }

    /// The type of the distances of the metric.
    pub fn distance_type(&self) -> (r: Type)
        ensures
            self.metric_type().spec_distance_type() == Some(r),
    {
        proof {
            use_type_invariant(self);
        }
        match self.metric_type {
            Type::Named(Nullary::AgnosticMetric) => Type::Of(Family::Plain, Atom::Unit),
            Type::Named(_) => Type::Of(Family::Plain, Atom::U32),
            Type::Of(_, a) => Type::Of(Family::Plain, a),
        }
    }
}

/// The description of a metric of type `t`: its name and, in brackets, the
/// type in which it measures, where the metric is generic in that type.
pub open spec fn metric_text(t: Type) -> Seq<char> {
    match t {
        Type::Of(Family::AbsoluteDistance, atom) => "AbsoluteDistance("@ + atom.spec_name() + ")"@,
        Type::Of(Family::L1Distance, atom) => "L1Distance("@ + atom.spec_name() + ")"@,
        Type::Of(Family::L2Distance, atom) => "L2Distance("@ + atom.spec_name() + ")"@,
        _ => parameterless(t),
    }
}

fn describe_metric(t: Type) -> (r: String)
    ensures
        r@ == metric_text(t),
{
    match t {
        Type::Of(Family::AbsoluteDistance, atom) => enclose("AbsoluteDistance(", atom.name(), ")"),
        Type::Of(Family::L1Distance, atom) => enclose("L1Distance(", atom.name(), ")"),
        Type::Of(Family::L2Distance, atom) => enclose("L2Distance(", atom.name(), ")"),
        _ => describe_parameterless(t),
    }
}

/// The description of a measure, or of a metric that is generic in nothing,
/// of type `t`: its name and an empty list of parameters.
pub open spec fn parameterless(t: Type) -> Seq<char> {
    match t {
        Type::Named(Nullary::SymmetricDistance) => "SymmetricDistance()"@,
        Type::Named(Nullary::InsertDeleteDistance) => "InsertDeleteDistance()"@,
        Type::Named(Nullary::ChangeOneDistance) => "ChangeOneDistance()"@,
        Type::Named(Nullary::HammingDistance) => "HammingDistance()"@,
        Type::Named(Nullary::DiscreteDistance) => "DiscreteDistance()"@,
        Type::Named(Nullary::AgnosticMetric) => "AgnosticMetric()"@,
        Type::Of(Family::MaxDivergence, _) => "MaxDivergence()"@,
        Type::Of(Family::FixedSmoothedMaxDivergence, _) => "FixedSmoothedMaxDivergence()"@,
        Type::Of(Family::ZeroConcentratedDivergence, _) => "ZeroConcentratedDivergence()"@,
        _ => ""@,
    }
}

fn describe_parameterless(t: Type) -> (r: String)
    ensures
        r@ == parameterless(t),
{
    match t {
        Type::Named(Nullary::SymmetricDistance) => String::from_str("SymmetricDistance()"),
        Type::Named(Nullary::InsertDeleteDistance) => String::from_str("InsertDeleteDistance()"),
        Type::Named(Nullary::ChangeOneDistance) => String::from_str("ChangeOneDistance()"),
        Type::Named(Nullary::HammingDistance) => String::from_str("HammingDistance()"),
        Type::Named(Nullary::DiscreteDistance) => String::from_str("DiscreteDistance()"),
        Type::Named(Nullary::AgnosticMetric) => String::from_str("AgnosticMetric()"),
        Type::Of(Family::MaxDivergence, _) => String::from_str("MaxDivergence()"),
        Type::Of(Family::FixedSmoothedMaxDivergence, _) => String::from_str("FixedSmoothedMaxDivergence()"),
        Type::Of(Family::ZeroConcentratedDivergence, _) => String::from_str("ZeroConcentratedDivergence()"),
        _ => String::from_str(""),
    }
}

impl Descriptor for AnyMetric {
    open spec fn description(&self) -> Seq<char> {
        metric_text(self.metric_type())
    }

    fn equals(&self, other: &Self) -> (b: bool) {
        self.metric_type == other.metric_type
    }

    fn duplicate(&self) -> (r: Self) {
        proof {
            use_type_invariant(self);
        }
        AnyMetric { metric_type: self.metric_type }
    }

    fn describe(&self) -> (r: String) {
        describe_metric(self.metric_type)
    }
}

impl Metric for AnyMetric {
    type Distance = AnyObject;
}

/// An erased measure: the type of the typed measure. Measures have no parameters.
pub struct AnyMeasure {
    measure_type: Type,
}

impl AnyMeasure {
    /// The type names a measure that the registry holds.
    #[verifier::type_invariant]
    pub closed spec fn wf(&self) -> bool {
        self.measure_type.spec_is_measure() && self.measure_type.spec_supported()
    }

    /// The type of the typed measure.
    pub closed spec fn measure_type(&self) -> Type {
        self.measure_type
    }

    /// Two erased measures of one type are one erased measure.
    pub proof fn lemma_same_type(a: Self, b: Self)
        requires
            a.measure_type() == b.measure_type(),
        ensures
            a == b,
    {
    }

    /// Builds the erased measure of the type `measure_type`; fails with
    /// `TypeParse` exactly when the type does not name a supported measure.
    pub fn new(measure_type: Type) -> (r: Fallible<AnyMeasure>)
        ensures
            measure_type.spec_is_measure() && measure_type.spec_supported() ==> (r matches Ok(m)
                && m.measure_type() == measure_type),
            !(measure_type.spec_is_measure() && measure_type.spec_supported()) ==> fails_with(
                r,
                ErrorVariant::TypeParse,
            ),
    {
        let is_measure = match measure_type {
            Type::Named(_) => false,
            Type::Of(f, _) => f.is_measure(),
        };
        if is_measure && measure_type.supported() {
            Ok(AnyMeasure { measure_type })
        } else {
            Err(Error::with_message(ErrorVariant::TypeParse, "the type does not name a measure"))
        }
    }

    /// Puts an erased measure together from a type that is known to name one.
    pub(crate) fn assemble(measure_type: Type) -> (r: AnyMeasure)
        requires
            measure_type.spec_is_measure(),
            measure_type.spec_supported(),
        ensures
            r.measure_type() == measure_type,
    {
        AnyMeasure { measure_type }
    }

    /// The type of the distances of the measure.
    pub fn distance_type(&self) -> (r: Type)
        ensures
            self.measure_type().spec_distance_type() == Some(r),
    {
        proof {
            use_type_invariant(self);
        }
        match self.measure_type {
            Type::Of(Family::FixedSmoothedMaxDivergence, a) => Type::Of(Family::Pair, a),
            Type::Of(_, a) => Type::Of(Family::Plain, a),
            Type::Named(_) => Type::Of(Family::Plain, Atom::Unit),
        }
    }
}

impl Descriptor for AnyMeasure {
    open spec fn description(&self) -> Seq<char> {
        parameterless(self.measure_type())
    }

    fn equals(&self, other: &Self) -> (b: bool) {
        self.measure_type == other.measure_type
    }

    fn duplicate(&self) -> (r: Self) {
        proof {
            use_type_invariant(self);
        }
        AnyMeasure { measure_type: self.measure_type }
    }

    fn describe(&self) -> (r: String) {
        describe_parameterless(self.measure_type)
    }
}

impl Measure for AnyMeasure {
    type Distance = AnyObject;
}

/// The declared pairs of an erased domain and an erased metric. Single
/// values pair with the metrics on values and, where nothing is bounded, with
/// the metrics that compare whole values; vectors pair with the metrics on
/// datasets and on vectors; the metrics that change records in place need a
/// domain that fixes the number of records.
pub open spec fn pairs(family: Family, metric: Type) -> bool {
    match metric {
        Type::Named(Nullary::SymmetricDistance) => family != Family::BoundedDomain,
        Type::Named(Nullary::InsertDeleteDistance) => spec_is_vector(family),
        Type::Named(Nullary::ChangeOneDistance) => spec_is_sized(family),
        Type::Named(Nullary::HammingDistance) => spec_is_sized(family),
        Type::Named(Nullary::DiscreteDistance) => family == Family::AllDomain,
        Type::Named(Nullary::AgnosticMetric) => family == Family::AllDomain || family == Family::VectorOfAll
            || family == Family::VectorOfBounded,
        Type::Of(Family::AbsoluteDistance, _) => family == Family::AllDomain || family
            == Family::BoundedDomain,
        Type::Of(Family::L1Distance, _) => family == Family::VectorOfAll || family == Family::VectorOfBounded,
        Type::Of(Family::L2Distance, _) => family == Family::VectorOfAll || family == Family::VectorOfBounded,
        _ => false,
    }
}

impl MetricSpace for (AnyDomain, AnyMetric) {
    open spec fn valid(&self) -> bool {
        pairs(self.0.family(), self.1.metric_type())
    }

    fn check_space(&self) -> (r: Fallible<()>) {
        let family = self.0.family;
        let valid = match self.1.metric_type {
            Type::Named(Nullary::SymmetricDistance) => family != Family::BoundedDomain,
            Type::Named(Nullary::InsertDeleteDistance) => is_vector(family),
            Type::Named(Nullary::ChangeOneDistance) => is_sized(family),
            Type::Named(Nullary::HammingDistance) => is_sized(family),
            Type::Named(Nullary::DiscreteDistance) => family == Family::AllDomain,
            Type::Named(Nullary::AgnosticMetric) => family == Family::AllDomain || family == Family::VectorOfAll
                || family == Family::VectorOfBounded,
            Type::Of(Family::AbsoluteDistance, _) => family == Family::AllDomain || family
                == Family::BoundedDomain,
            Type::Of(Family::L1Distance, _) => family == Family::VectorOfAll || family == Family::VectorOfBounded,
            Type::Of(Family::L2Distance, _) => family == Family::VectorOfAll || family == Family::VectorOfBounded,
            _ => false,
        };
        if valid {
            Ok(())
        } else {
            Err(
                Error::with_message(
                    ErrorVariant::InvalidMetricSpace,
                    "the domain and the metric do not form a metric space",
                ),
            )
        }
    }
}

} // verus!
