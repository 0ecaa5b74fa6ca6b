//! What crosses the boundary instead of a `Result`: a tagged union of an
//! owned value and an owned error record that holds nothing but text.
use crate::error::{kind, render_backtrace, Error, ErrorVariant, ErrorView, Fallible};
use crate::ffi::any::AnyObject;
use crate::ffi::erased::{AnyDomain, AnyMeasure, AnyMetric};
use crate::ffi::glue::{
    any_checked, measurement_check, transformation_check, AnyMeasurement, AnyTransformation, IntoAnyMeasurementExt,
    IntoAnyTransformationExt,
};
use crate::ffi::util::{Family, Type};
use backtrace::Backtrace;
use vstd::prelude::*;
use vstd::std_specs::cmp::PartialEqSpecImpl;
use vstd::std_specs::convert::FromSpecImpl;
use vstd::string::StringExecFns;

verus! {

/// A view of a run of values that the caller owns: where it starts, counted
/// in units of the caller's choosing, and how many values it holds.
pub struct FfiSlice {
    pub ptr: usize,
    pub len: usize,
}

impl FfiSlice {
    /// The view of `len` values that start at `ptr`.
    pub fn new(ptr: usize, len: usize) -> (r: Self)
        ensures
            r.ptr == ptr,
            r.len == len,
    {
        FfiSlice { ptr, len }
    }
}

/// The error record of the boundary: the name of the variant, the message if
/// there is one, and the text of the debug trace.
#[derive(Debug)]
pub struct FfiError {
    pub variant: String,
    pub message: Option<String>,
    pub backtrace: String,
}

/// The text of an optional string.
pub open spec fn text_of(message: Option<String>) -> Option<Seq<char>> {
    match message {
        Some(m) => Some(m@),
        None => None,
    }
}

/// What an error record decodes to: the variant that its name stands for with
/// its message, or, for a name outside the wire set, `NotImplemented` with a
/// message that quotes the name.
pub open spec fn decoded(variant: Seq<char>, message: Option<Seq<char>>) -> ErrorView {
    match ErrorVariant::spec_from_name(variant) {
        Some(v) => ErrorView { variant: v, message },
        None => ErrorView {
            variant: ErrorVariant::NotImplemented,
            message: Some("Unknown ErrorVariant "@ + variant),
        },
    }
}

impl FfiError {
    /// The name of the variant.
    pub fn variant_str(&self) -> (r: &str)
        ensures
            r@ == self.variant@,
    {
        self.variant.as_str()
    }

    /// The message, if there is one.
    pub fn message_str(&self) -> (r: Option<&str>)
        ensures
            match r {
                Some(m) => self.message matches Some(text) && m@ == text@,
                None => self.message.is_none(),
            },
    {
        match &self.message {
            Some(m) => Some(m.as_str()),
            None => None,
        }
    }

    /// The record as text: its variant and its message, without the trace.
    pub open spec fn description(&self) -> Seq<char> {
        "FfiError: { type: "@ + self.variant@ + ", message: "@ + match self.message {
            Some(m) => "Some("@ + m@ + ")"@,
            None => "None"@,
        } + " }"@
    }

    /// Writes the record as text.
    pub fn describe(&self) -> (r: String)
        ensures
            r@ == self.description(),
    {
        let mut r = String::from_str("FfiError: { type: ");
        r.append(self.variant.as_str());
        r.append(", message: ");
        match &self.message {
            Some(m) => {
                r.append("Some(");
                r.append(m.as_str());
                r.append(")");
            },
            None => {
                r.append("None");
            },
        }
        r.append(" }");
        assert(r@ =~= self.description());
        r
    }
}

impl From<Error> for FfiError {
    /// Encodes an error. The variant travels under its name and the message
    /// as it is. The trace is resolved and rendered, except for
    /// `RelationDebug`, whose record carries an empty trace.
    fn from(error: Error) -> (r: Self)
        ensures
            r.variant@ == error.variant.spec_name(),
            text_of(r.message) == error@.message,
            error.variant == ErrorVariant::RelationDebug ==> r.backtrace@ == Seq::<char>::empty(),
    {
        let Error { variant, message, backtrace } = error;
        let mut trace = backtrace;
        let text = if let ErrorVariant::RelationDebug = variant {
            String::new()
        } else {
            trace.resolve();
            render_backtrace(&trace)
        };
        FfiError { variant: variant.name(), message, backtrace: text }
    }
}

impl FromSpecImpl<Error> for FfiError {
    open spec fn obeys_from_spec() -> bool {
        false
    }

    open spec fn from_spec(error: Error) -> Self {
        arbitrary()
    }
}

impl PartialEq for FfiError {
    fn eq(&self, other: &Self) -> (r: bool) {
        let same_message = match (&self.message, &other.message) {
            (Some(a), Some(b)) => *a == *b,
            (None, None) => true,
            _ => false,
        };
        self.variant == other.variant && same_message
    }
}

impl PartialEqSpecImpl for FfiError {
    open spec fn obeys_eq_spec() -> bool {
        true
    }

    open spec fn eq_spec(&self, other: &Self) -> bool {
        self.variant@ == other.variant@ && text_of(self.message) == text_of(other.message)
    }
}

impl From<FfiError> for Error {
    /// Decodes an error record. A name outside the wire set does not fail the
    /// conversion: it becomes a `NotImplemented` error that quotes the name.
    fn from(val: FfiError) -> (r: Self)
        ensures
            r@ == decoded(val.variant@, text_of(val.message)),
    {
        let FfiError { variant, message, backtrace } = val;
        match ErrorVariant::from_name(&variant) {
            Some(v) => Error { variant: v, message, backtrace: Backtrace::new_unresolved() },
            None => {
                let mut text = String::from_str("Unknown ErrorVariant ");
                text.append(variant.as_str());
                Error {
                    variant: ErrorVariant::NotImplemented,
                    message: Some(text),
                    backtrace: Backtrace::new_unresolved(),
                }
            },
        }
    }
}

impl FromSpecImpl<FfiError> for Error {
    open spec fn obeys_from_spec() -> bool {
        false
    }

    open spec fn from_spec(val: FfiError) -> Self {
        arbitrary()
    }
}

/// Round trip: encoding an error whose variant belongs to the wire set and
/// decoding the record gives back the variant and the message. The two
/// in-process variants do not survive: their names decode to `NotImplemented`.
pub proof fn lemma_error_round_trip(error: Error, record: FfiError, back: Error)
    requires
        record.variant@ == error.variant.spec_name(),
        text_of(record.message) == error@.message,
        back@ == decoded(record.variant@, text_of(record.message)),
    ensures
        error.variant.on_wire() ==> back@ == error@,
        !error.variant.on_wire() ==> back.variant == ErrorVariant::NotImplemented,
{
    error.variant.lemma_name_round_trip();
}

/// The tagged union that every boundary call returns.
#[derive(Debug)]
pub enum FfiResult<T> {
    Success(T),
    Failure(FfiError),
}

/// The conversion of a type into itself, which std implements for every
/// type. Its documentation says that it returns the argument unchanged, and
/// that is the claim.
pub assume_specification<X>[ <X as std::convert::From<X>>::from ](x: X) -> (r: X)
    ensures
        r == x,
;

impl<TI, TO: From<TI>> From<Fallible<TI>> for FfiResult<TO> {
    /// Success carries the converted value; failure carries the encoded error.
    fn from(result: Fallible<TI>) -> (r: Self)
        ensures
            match result {
                Ok(v) => r matches FfiResult::Success(o) && call_ensures(TO::from, (v,), o),
                Err(e) => r matches FfiResult::Failure(record) && record.variant@ == e.variant.spec_name()
                    && text_of(record.message) == e@.message,
            },
    {
        match result {
            Ok(v) => FfiResult::Success(TO::from(v)),
            Err(e) => FfiResult::Failure(FfiError::from(e)),
        }
    }
}

impl<TI, TO: From<TI>> FromSpecImpl<Fallible<TI>> for FfiResult<TO> {
    open spec fn obeys_from_spec() -> bool {
        false
    }

    open spec fn from_spec(result: Fallible<TI>) -> Self {
        arbitrary()
    }
}

impl<T> From<FfiResult<T>> for Fallible<T> {
    /// Success gives the value back; failure gives the decoded error.
    fn from(result: FfiResult<T>) -> (r: Self)
        ensures
            match result {
                FfiResult::Success(v) => r == Ok::<T, Error>(v),
                FfiResult::Failure(record) => r matches Err(e) && e@ == decoded(
                    record.variant@,
                    text_of(record.message),
                ),
            },
    {
        match result {
            FfiResult::Success(ok) => Ok(ok),
            FfiResult::Failure(err) => Err(Error::from(err)),
        }
    }
}

impl<T> FromSpecImpl<FfiResult<T>> for Fallible<T> {
    open spec fn obeys_from_spec() -> bool {
        false
    }

    open spec fn from_spec(result: FfiResult<T>) -> Self {
        arbitrary()
    }
}

impl<T: PartialEq> PartialEq for FfiResult<T> {
    fn eq(&self, other: &Self) -> (r: bool) {
        match (self, other) {
            (FfiResult::Success(a), FfiResult::Success(b)) => *a == *b,
            (FfiResult::Failure(a), FfiResult::Failure(b)) => *a == *b,
            _ => false,
        }
    }
}

impl<T: PartialEq> PartialEqSpecImpl for FfiResult<T> {
    open spec fn obeys_eq_spec() -> bool {
        false
    }

    open spec fn eq_spec(&self, other: &Self) -> bool {
        arbitrary()
    }
}

/// Whether the boundary result `r` reports the outcome `outcome`: success
/// carries the value, failure the name of the kind of the error.
pub open spec fn reports<T>(r: FfiResult<T>, outcome: Result<T, ErrorVariant>) -> bool {
    match outcome {
        Ok(v) => r == FfiResult::Success(v),
        Err(k) => r matches FfiResult::Failure(record) && record.variant@ == k.spec_name(),
    }
}

/// Whether the boundary result `r` reports a missing argument.
pub open spec fn reports_null<T>(r: FfiResult<T>) -> bool {
    r matches FfiResult::Failure(record) && record.variant@ == ErrorVariant::FFI.spec_name()
}

/// Hands a result over the boundary.
pub fn deliver<T>(result: Fallible<T>) -> (r: FfiResult<T>)
    ensures
        reports(r, kind(result)),
        result matches Err(e) ==> (r matches FfiResult::Failure(record) && text_of(record.message) == e@.message),
{
    FfiResult::<T>::from(result)
}

/// The report of an argument that the caller left out.
pub fn null_pointer<T>(name: &str) -> (r: FfiResult<T>)
    ensures
        reports_null(r),
{
    let mut message = String::from_str("null pointer: ");
    message.append(name);
    FfiResult::Failure(FfiError::from(Error::new(ErrorVariant::FFI, Some(message))))
}

/// Trait to convert a fallible measurement into the boundary result of an erased measurement.
pub trait IntoAnyMeasurementFfiResultExt {
    fn into_any(self) -> FfiResult<AnyMeasurement>;
}

impl<T: IntoAnyMeasurementExt> IntoAnyMeasurementFfiResultExt for Fallible<T> {
    fn into_any(self) -> (r: FfiResult<AnyMeasurement>)
        ensures
            match self {
                Ok(m) => r matches FfiResult::Success(any) && m.erases_to(any),
                Err(e) => r matches FfiResult::Failure(record) && record.variant@ == e.variant.spec_name()
                    && text_of(record.message) == e@.message,
            },
    {
        match self {
            Ok(m) => FfiResult::Success(m.into_any()),
            Err(e) => FfiResult::Failure(FfiError::from(e)),
        }
    }
}

/// Trait to convert a fallible transformation into the boundary result of an erased transformation.
pub trait IntoAnyTransformationFfiResultExt {
    fn into_any(self) -> FfiResult<AnyTransformation>;
}

impl<T: IntoAnyTransformationExt> IntoAnyTransformationFfiResultExt for Fallible<T> {
    fn into_any(self) -> (r: FfiResult<AnyTransformation>)
        ensures
            match self {
                Ok(t) => r matches FfiResult::Success(any) && t.erases_to(any),
                Err(e) => r matches FfiResult::Failure(record) && record.variant@ == e.variant.spec_name()
                    && text_of(record.message) == e@.message,
            },
    {
        match self {
            Ok(t) => FfiResult::Success(t.into_any()),
            Err(e) => FfiResult::Failure(FfiError::from(e)),
        }
    }
}

/// Use the `transformation` to map a given `d_in` to `d_out`.
///
/// # Arguments
/// * `transformation` - Transformation to check the map distances with.
/// * `distance_in` - Distance in terms of the input metric.
pub fn opendp_core__transformation_map(
    transformation: Option<&AnyTransformation>,
    distance_in: Option<&AnyObject>,
) -> (r: FfiResult<AnyObject>)
    ensures
        match (transformation, distance_in) {
            (Some(t), Some(d)) => reports(r, t.stability_map().image(*d)),
            _ => reports_null(r),
        },
{
    let transformation = match transformation {
        Some(t) => t,
        None => {
            return null_pointer("transformation");
        },
    };
    let distance_in = match distance_in {
        Some(d) => d,
        None => {
            return null_pointer("distance_in");
        },
    };
    deliver(transformation.map(distance_in))
}

/// Check the stability relation of the `transformation` at the given `d_in`, `d_out`.
///
/// # Arguments
/// * `transformation` - Transformation to check the stability relation of.
/// * `distance_in` - Distance in terms of the input metric.
/// * `distance_out` - Distance in terms of the output metric.
///
/// # Returns
/// True indicates that the relation passed at the given distance.
pub fn opendp_core__transformation_check(
    transformation: Option<&AnyTransformation>,
    distance_in: Option<&AnyObject>,
    distance_out: Option<&AnyObject>,
) -> (r: FfiResult<bool>)
    ensures
        match (transformation, distance_in, distance_out) {
            (Some(t), Some(d_in), Some(d_out)) => reports(
                r,
                any_checked(t.stability_map().image(*d_in), *d_in, *d_out),
            ),
            _ => reports_null(r),
        },
{
    let transformation = match transformation {
        Some(t) => t,
        None => {
            return null_pointer("transformation");
        },
    };
    let distance_in = match distance_in {
        Some(d) => d,
        None => {
            return null_pointer("distance_in");
        },
    };
    let distance_out = match distance_out {
        Some(d) => d,
        None => {
            return null_pointer("distance_out");
        },
    };
    deliver(transformation_check(transformation, distance_in, distance_out))
}

/// Use the `measurement` to map a given `d_in` to `d_out`.
///
/// # Arguments
/// * `measurement` - Measurement to check the map distances with.
/// * `distance_in` - Distance in terms of the input metric.
pub fn opendp_core__measurement_map(measurement: Option<&AnyMeasurement>, distance_in: Option<&AnyObject>) -> (r:
    FfiResult<AnyObject>)
    ensures
        match (measurement, distance_in) {
            (Some(m), Some(d)) => reports(r, m.privacy_map().image(*d)),
            _ => reports_null(r),
        },
{
    let measurement = match measurement {
        Some(m) => m,
        None => {
            return null_pointer("measurement");
        },
    };
    let distance_in = match distance_in {
        Some(d) => d,
        None => {
            return null_pointer("distance_in");
        },
    };
    deliver(measurement.map(distance_in))
}

/// Check the privacy relation of the `measurement` at the given `d_in`, `d_out`.
///
/// # Arguments
/// * `measurement` - Measurement to check the privacy relation of.
/// * `distance_in` - Distance in terms of the input metric.
/// * `distance_out` - Distance in terms of the output measure.
///
/// # Returns
/// True indicates that the relation passed at the given distance.
pub fn opendp_core__measurement_check(
    measurement: Option<&AnyMeasurement>,
    distance_in: Option<&AnyObject>,
    distance_out: Option<&AnyObject>,
) -> (r: FfiResult<bool>)
    ensures
        match (measurement, distance_in, distance_out) {
            (Some(m), Some(d_in), Some(d_out)) => reports(
                r,
                any_checked(m.privacy_map().image(*d_in), *d_in, *d_out),
            ),
            _ => reports_null(r),
        },
{
    let measurement = match measurement {
        Some(m) => m,
        None => {
            return null_pointer("measurement");
        },
    };
    let distance_in = match distance_in {
        Some(d) => d,
        None => {
            return null_pointer("distance_in");
        },
    };
    let distance_out = match distance_out {
        Some(d) => d,
        None => {
            return null_pointer("distance_out");
        },
    };
    deliver(measurement_check(measurement, distance_in, distance_out))
}

/// Whether the boundary result `r` hands over `res`, the result of an invocation.
pub open spec fn hands_over(r: FfiResult<AnyObject>, res: Fallible<AnyObject>) -> bool {
    match res {
        Ok(o) => r == FfiResult::Success(o),
        Err(e) => r matches FfiResult::Failure(record) && record.variant@ == e.variant.spec_name() && text_of(
            record.message,
        ) == e@.message,
    }
}

/// Invoke the `measurement` with `arg`. Returns a differentially private release.
///
/// # Arguments
/// * `this` - Measurement to invoke.
/// * `arg` - Input data to supply to the measurement. A member of the measurement's input domain.
pub fn opendp_core__measurement_invoke(this: Option<&AnyMeasurement>, arg: Option<&AnyObject>) -> (r: FfiResult<
    AnyObject,
>)
    ensures
        match (this, arg) {
            (Some(m), Some(a)) => exists|res: Fallible<AnyObject>| #[trigger]
                m.function().relates(*a, res) && hands_over(r, res),
            _ => reports_null(r),
        },
{
    let this = match this {
        Some(m) => m,
        None => {
            return null_pointer("this");
        },
    };
    let arg = match arg {
        Some(a) => a,
        None => {
            return null_pointer("arg");
        },
    };
    let res = this.invoke(arg);
    let ghost witness = res;
    let r = deliver(res);
    assert(this.function().relates(*arg, witness) && hands_over(r, witness));
    r
}

/// Invoke the `transformation` with `arg`.
///
/// # Arguments
/// * `this` - Transformation to invoke.
/// * `arg` - Input data to supply to the transformation. A member of the transformation's input domain.
pub fn opendp_core__transformation_invoke(this: Option<&AnyTransformation>, arg: Option<&AnyObject>) -> (r:
    FfiResult<AnyObject>)
    ensures
        match (this, arg) {
            (Some(t), Some(a)) => exists|res: Fallible<AnyObject>| #[trigger]
                t.function().relates(*a, res) && hands_over(r, res),
            _ => reports_null(r),
        },
{
    let this = match this {
        Some(t) => t,
        None => {
            return null_pointer("this");
        },
    };
    let arg = match arg {
        Some(a) => a,
        None => {
            return null_pointer("arg");
        },
    };
    let res = this.invoke(arg);
    let ghost witness = res;
    let r = deliver(res);
    assert(this.function().relates(*arg, witness) && hands_over(r, witness));
    r
}

/// Whether the boundary result `r` carries the descriptor of the type `t`.
pub open spec fn names(r: FfiResult<String>, t: Type) -> bool {
    r matches FfiResult::Success(s) && s@ == t.descriptor()
}

/// Get the input (carrier) data type of `this`.
///
/// # Arguments
/// * `this` - The transformation to retrieve the type from.
pub fn opendp_core__transformation_input_carrier_type(this: Option<&AnyTransformation>) -> (r: FfiResult<String>)
    ensures
        match this {
            Some(t) => names(r, t.input_domain().spec_carrier_type()),
            None => reports_null(r),
        },
{
    match this {
        Some(t) => FfiResult::Success(t.input_domain.carrier_type().describe()),
        None => null_pointer("this"),
    }
}

/// Get the input (carrier) data type of `this`.
///
/// # Arguments
/// * `this` - The measurement to retrieve the type from.
pub fn opendp_core__measurement_input_carrier_type(this: Option<&AnyMeasurement>) -> (r: FfiResult<String>)
    ensures
        match this {
            Some(m) => names(r, m.input_domain().spec_carrier_type()),
            None => reports_null(r),
        },
{
    match this {
        Some(m) => FfiResult::Success(m.input_domain.carrier_type().describe()),
        None => null_pointer("this"),
    }
}

/// Get the input distance type of `transformation`.
///
/// # Arguments
/// * `this` - The transformation to retrieve the type from.
pub fn opendp_core__transformation_input_distance_type(this: Option<&AnyTransformation>) -> (r: FfiResult<String>)
    ensures
        match this {
            Some(t) => t.input_metric().metric_type().spec_distance_type() matches Some(q) && names(r, q),
            None => reports_null(r),
        },
{
    match this {
        Some(t) => FfiResult::Success(t.input_metric.distance_type().describe()),
        None => null_pointer("this"),
    }
}

/// Get the output distance type of `transformation`.
///
/// # Arguments
/// * `this` - The transformation to retrieve the type from.
pub fn opendp_core__transformation_output_distance_type(this: Option<&AnyTransformation>) -> (r: FfiResult<String>)
    ensures
        match this {
            Some(t) => t.output_metric().metric_type().spec_distance_type() matches Some(q) && names(r, q),
            None => reports_null(r),
        },
{
    match this {
        Some(t) => FfiResult::Success(t.output_metric.distance_type().describe()),
        None => null_pointer("this"),
    }
}

/// Get the input distance type of `measurement`.
///
/// # Arguments
/// * `this` - The measurement to retrieve the type from.
pub fn opendp_core__measurement_input_distance_type(this: Option<&AnyMeasurement>) -> (r: FfiResult<String>)
    ensures
        match this {
            Some(m) => m.input_metric().metric_type().spec_distance_type() matches Some(q) && names(r, q),
            None => reports_null(r),
        },
{
    match this {
        Some(m) => FfiResult::Success(m.input_metric.distance_type().describe()),
        None => null_pointer("this"),
    }
}

/// Get the output distance type of `measurement`.
///
/// # Arguments
/// * `this` - The measurement to retrieve the type from.
pub fn opendp_core__measurement_output_distance_type(this: Option<&AnyMeasurement>) -> (r: FfiResult<String>)
    ensures
        match this {
            Some(m) => m.output_measure().measure_type().spec_distance_type() matches Some(q) && names(r, q),
            None => reports_null(r),
        },
{
    match this {
        Some(m) => FfiResult::Success(m.output_measure.distance_type().describe()),
        None => null_pointer("this"),
    }
}

/// The type that the descriptor `descriptor` leads to: it is looked up in
/// the registry, and `derive` gives the type asked for.
pub open spec fn derived(descriptor: Seq<char>, derive: spec_fn(Type) -> Option<Type>) -> Option<Type> {
    match Type::lookup(descriptor) {
        Some(t) => derive(t),
        None => None,
    }
}

/// What the three queries for a derived type return: the descriptor of the
/// derived type, or a `TypeParse` failure where there is none.
pub open spec fn names_derived(
    r: FfiResult<String>,
    descriptor: Seq<char>,
    derive: spec_fn(Type) -> Option<Type>,
) -> bool {
    match derived(descriptor, derive) {
        Some(t) => names(r, t),
        None => r matches FfiResult::Failure(record) && record.variant@ == ErrorVariant::TypeParse.spec_name(),
    }
}

/// The carrier type of the default domain of a domain type: only the domains
/// without parameters have a default.
pub open spec fn default_carrier(t: Type) -> Option<Type> {
    match t {
        Type::Of(Family::AllDomain, a) => Some(Type::Of(Family::Plain, a)),
        Type::Of(Family::VectorOfAll, a) => Some(Type::Of(Family::Vector, a)),
        _ => None,
    }
}

/// Get the carrier type associated with a domain descriptor.
///
/// # Arguments
/// * `D` - The domain to get the carrier type from.
pub fn opendp_core__domain_carrier_type(D: &str) -> (r: FfiResult<String>)
    ensures
        names_derived(r, D@, |t: Type| default_carrier(t)),
{
    proof {
        Type::lemma_lookup_sound(D@);
    }
    let domain_type = match Type::try_from(D) {
        Ok(t) => t,
        Err(e) => {
            return deliver(Err(e));
        },
    };
    match AnyDomain::default_domain(domain_type) {
        Ok(domain) => FfiResult::Success(domain.carrier_type().describe()),
        Err(e) => deliver(Err(e)),
    }
}

/// Get the distance type associated with a metric descriptor.
///
/// # Arguments
/// * `M` - The metric to get the distance type from.
pub fn opendp_core__metric_distance_type(M: &str) -> (r: FfiResult<String>)
    ensures
        names_derived(
            r,
            M@,
            |t: Type|
                if t.spec_is_metric() {
                    t.spec_distance_type()
                } else {
                    None
                },
        ),
{
    proof {
        Type::lemma_lookup_sound(M@);
    }
    let metric_type = match Type::try_from(M) {
        Ok(t) => t,
        Err(e) => {
            return deliver(Err(e));
        },
    };
    match AnyMetric::new(metric_type) {
        Ok(metric) => FfiResult::Success(metric.distance_type().describe()),
        Err(e) => deliver(Err(e)),
    }
}

/// Get the distance type associated with a measure descriptor.
///
/// # Arguments
/// * `M` - The measure to get the distance type from.
pub fn opendp_core__measure_distance_type(M: &str) -> (r: FfiResult<String>)
    ensures
        names_derived(
            r,
            M@,
            |t: Type|
                if t.spec_is_measure() {
                    t.spec_distance_type()
                } else {
                    None
                },
        ),
{
    proof {
        Type::lemma_lookup_sound(M@);
    }
    let measure_type = match Type::try_from(M) {
        Ok(t) => t,
        Err(e) => {
            return deliver(Err(e));
        },
    };
    match AnyMeasure::new(measure_type) {
        Ok(measure) => FfiResult::Success(measure.distance_type().describe()),
        Err(e) => deliver(Err(e)),
    }
}

} // verus!
