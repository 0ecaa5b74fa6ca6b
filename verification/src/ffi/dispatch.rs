//! Dispatch: from the descriptors that a caller passes for the type
//! parameters of a constructor to the instantiation that serves the call.
//!
//! A descriptor that the registry does not hold fails with `TypeParse`; a
//! type that the registry holds but the constructor is not built for fails
//! with `FFI`.
use crate::error::{fails_with, kind, Error, ErrorVariant, Fallible};
use crate::ffi::any::AnyObject;
use crate::ffi::util::{Atom, Family, Type};
use vstd::prelude::*;
use vstd::string::StringExecFns;

verus! {

/// How values between the edges of bins are interpolated.
#[derive(Clone, Copy, Debug, PartialEq, Eq, Structural)]
pub enum Interpolation {
    Nearest,
    Linear,
}

/// The two kinds of domains with a null element.
#[derive(Clone, Copy, Debug, PartialEq, Eq, Structural)]
pub enum NullDomain {
    /// Records are optional values: `OptionNullDomain<AllDomain<T>>`.
    OptionNull,
    /// Records are floats, of which one value is null: `InherentNullDomain<AllDomain<T>>`.
    InherentNull,
}

/// The atom that a descriptor names when a constructor serves the atoms in
/// `served`: the descriptor must name a plain atom that is served.
pub open spec fn served_atom(descriptor: Seq<char>, served: spec_fn(Atom) -> bool) -> Result<Atom, ErrorVariant> {
    match Type::lookup(descriptor) {
        Some(Type::Of(Family::Plain, a)) => if served(a) {
            Ok(a)
        } else {
            Err(ErrorVariant::FFI)
        },
        Some(_) => Err(ErrorVariant::FFI),
        None => Err(ErrorVariant::TypeParse),
    }
}

fn no_match<T>(descriptor: &str) -> (r: Fallible<T>)
    ensures
        fails_with(r, ErrorVariant::FFI),
{
    let mut message = String::from_str("No match for concrete type ");
    message.append(descriptor);
    Err(Error::new(ErrorVariant::FFI, Some(message)))
}

/// Selects the instantiation of a constructor over a float type.
pub fn select_float(descriptor: &str) -> (r: Fallible<Atom>)
    ensures
        kind(r) == served_atom(descriptor@, |a: Atom| a.spec_is_float()),
{
    match Type::try_from(descriptor)? {
        Type::Of(Family::Plain, a) => {
            if a.is_float() {
                Ok(a)
            } else {
                no_match(descriptor)
            }
        },
        _ => no_match(descriptor),
    }
}

/// Selects the instantiation of a constructor over a number type.
pub fn select_number(descriptor: &str) -> (r: Fallible<Atom>)
    ensures
        kind(r) == served_atom(descriptor@, |a: Atom| a.spec_is_number()),
{
    match Type::try_from(descriptor)? {
        Type::Of(Family::Plain, a) => {
            if a.is_number() {
                Ok(a)
            } else {
                no_match(descriptor)
            }
        },
        _ => no_match(descriptor),
    }
}

/// Selects the instantiation of the constructor of cumulative distribution
/// functions: `TA` names the float type of the output.
pub fn select_make_cdf(TA: &str) -> (r: Fallible<Atom>)
    ensures
        kind(r) == served_atom(TA@, |a: Atom| a.spec_is_float()),
{
    select_float(TA)
}

/// The interpolation that a name stands for.
pub open spec fn spec_interpolation(name: Seq<char>) -> Option<Interpolation> {
    if name == "linear"@ {
        Some(Interpolation::Linear)
    } else if name == "nearest"@ {
        Some(Interpolation::Nearest)
    } else {
        None
    }
}

/// What selecting the constructor of quantiles returns: the name of the
/// interpolation is read first, then the type of the bin edges, a number,
/// then the type of the output, a float.
pub open spec fn quantiles_selection(
    interpolation: Seq<char>,
    TA: Seq<char>,
    F: Seq<char>,
) -> Result<(Interpolation, Atom, Atom), ErrorVariant> {
    match spec_interpolation(interpolation) {
        None => Err(ErrorVariant::FFI),
        Some(i) => match (Type::lookup(TA), Type::lookup(F)) {
            (None, _) => Err(ErrorVariant::TypeParse),
            (Some(_), None) => Err(ErrorVariant::TypeParse),
            (Some(_), Some(_)) => match served_atom(TA, |a: Atom| a.spec_is_number()) {
                Err(k) => Err(k),
                Ok(ta) => match served_atom(F, |a: Atom| a.spec_is_float()) {
                    Err(k) => Err(k),
                    Ok(f) => Ok((i, ta, f)),
                },
            },
        },
    }
}

/// Selects the instantiation of the constructor of quantiles from counts.
pub fn select_make_quantiles_from_counts(interpolation: &str, TA: &str, F: &str) -> (r: Fallible<
    (Interpolation, Atom, Atom),
>)
    ensures
        kind(r) == quantiles_selection(interpolation@, TA@, F@),
{
    let name = String::from_str(interpolation);
    let interpolation = if name == String::from_str("linear") {
        Interpolation::Linear
    } else if name == String::from_str("nearest") {
        Interpolation::Nearest
    } else {
        return Err(Error::with_message(ErrorVariant::FFI, "interpolation must be `linear` or `nearest`"));
    };
    let edge_type = Type::try_from(TA)?;
    let output_type = Type::try_from(F)?;
    let ta = select_number(TA)?;
    let f = select_float(F)?;
    Ok((interpolation, ta, f))
}

/// Selects the instantiation of the constructor that imputes uniform noise
/// for null floats.
pub fn select_make_impute_uniform_float(TA: &str) -> (r: Fallible<Atom>)
    ensures
        kind(r) == served_atom(TA@, |a: Atom| a.spec_is_float()),
{
    select_float(TA)
}

/// The domain with a null element that a descriptor names together with
/// the type of its records: every primitive type can be optional, and the
/// floats have a null value of their own.
pub open spec fn null_domain(descriptor: Seq<char>) -> Result<(NullDomain, Atom), ErrorVariant> {
    match Type::lookup(descriptor) {
        Some(Type::Of(Family::OptionNullDomain, a)) => Ok((NullDomain::OptionNull, a)),
        Some(Type::Of(Family::InherentNullDomain, a)) => Ok((NullDomain::InherentNull, a)),
        _ => Err(ErrorVariant::TypeParse),
    }
}

/// Selects the instantiation of the constructor that drops null records.
pub fn select_make_drop_null(DA: &str) -> (r: Fallible<(NullDomain, Atom)>)
    ensures
        kind(r) == null_domain(DA@),
{
    let domain_type = Type::try_from(DA)?;
    let atom = domain_type.get_atom()?;
    match domain_type {
        Type::Of(Family::OptionNullDomain, _) => Ok((NullDomain::OptionNull, atom)),
        Type::Of(Family::InherentNullDomain, _) => Ok((NullDomain::InherentNull, atom)),
        _ => Err(
            Error::with_message(
                ErrorVariant::TypeParse,
                "DA must be an OptionNullDomain<AllDomain<T>> or an InherentNullDomain<AllDomain<T>>",
            ),
        ),
    }
}

/// What selecting the constructor that imputes a constant returns: the
/// domain is selected as for dropping nulls, and the constant must be a
/// record of the domain, else the cast fails.
pub open spec fn impute_constant_selection(DIA: Seq<char>, constant: AnyObject) -> Result<
    (NullDomain, Atom),
    ErrorVariant,
> {
    match null_domain(DIA) {
        Ok((domain, atom)) => if constant@.type_of() == Type::Of(Family::Plain, atom) {
            Ok((domain, atom))
        } else {
            Err(ErrorVariant::FailedCast)
        },
        Err(k) => Err(k),
    }
}

/// Selects the instantiation of the constructor that replaces null records by a constant.
pub fn select_make_impute_constant(constant: &AnyObject, DIA: &str) -> (r: Fallible<(NullDomain, Atom)>)
    ensures
        kind(r) == impute_constant_selection(DIA@, *constant),
{
    let (domain, atom) = select_make_drop_null(DIA)?;
    if constant.type_of() == Type::Of(Family::Plain, atom) {
        Ok((domain, atom))
    } else {
        Err(Error::with_message(ErrorVariant::FailedCast, "the constant is not a record of the domain"))
    }
}

} // verus!
