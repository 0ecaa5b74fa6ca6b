//! The domains that the library's constructors use.
use crate::error::{fails_with, Error, ErrorVariant, Fallible};
use crate::objects::space::{Descriptor, Domain};
use crate::text::{decimal, enclose, format_int, format_nat};
use crate::traits::Number;
use std::marker::PhantomData;
use vstd::prelude::*;
use vstd::string::StringExecFns;

verus! {

/// Every value of type `T`.
pub struct AllDomain<T> {
    pub _marker: PhantomData<T>,
}

impl<T> AllDomain<T> {
    /// The domain of all values of `T`.
    pub fn new() -> (r: Self)
        ensures
            r == (AllDomain::<T> { _marker: PhantomData }),
    {
        AllDomain { _marker: PhantomData }
    }
}

impl<T> Default for AllDomain<T> {
    fn default() -> (r: Self)
        ensures
            r == (Self { _marker: PhantomData }),
    {
        AllDomain { _marker: PhantomData }
    }
}

impl<T> Clone for AllDomain<T> {
    fn clone(&self) -> (r: Self)
        ensures
            r == *self,
    {
        AllDomain { _marker: PhantomData }
    }
}

impl<T> Descriptor for AllDomain<T> {
    open spec fn description(&self) -> Seq<char> {
        "AllDomain()"@
    }

    fn equals(&self, other: &Self) -> (b: bool) {
        true
    }

    fn duplicate(&self) -> (r: Self) {
        AllDomain { _marker: PhantomData }
    }

    fn describe(&self) -> (r: String) {
        String::from_str("AllDomain()")
    }
}

impl<T> Domain for AllDomain<T> {
    type Carrier = T;

    open spec fn contains(&self, value: T) -> bool {
        true
    }

    fn member(&self, value: &T) -> (r: Fallible<bool>) {
        Ok(true)
    }
}

/// The values between a lower and an upper bound, both included.
pub struct BoundedDomain<T: Number> {
    lower: T,
    upper: T,
}

impl<T: Number> BoundedDomain<T> {
    /// The lower bound does not exceed the upper bound.
    #[verifier::type_invariant]
    pub closed spec fn wf(&self) -> bool {
        self.lower.value() <= self.upper.value()
    }

    /// The lower bound.
    pub closed spec fn lower(&self) -> T {
        self.lower
    }

    /// The upper bound.
    pub closed spec fn upper(&self) -> T {
        self.upper
    }

    /// The domain of the values from `bounds.0` to `bounds.1`; fails with
    /// `MakeTransformation` exactly when the lower bound exceeds the upper bound.
    pub fn new_closed(bounds: (T, T)) -> (r: Fallible<Self>)
        ensures
            bounds.0.value() <= bounds.1.value() ==> (r matches Ok(d) && d.lower() == bounds.0 && d.upper()
                == bounds.1),
            bounds.0.value() > bounds.1.value() ==> fails_with(r, ErrorVariant::MakeTransformation),
    {
        if bounds.1.total_lt(&bounds.0) {
            return Err(
                Error::with_message(
                    ErrorVariant::MakeTransformation,
                    "lower bound may not be greater than upper bound",
                ),
            );
        }
        Ok(BoundedDomain { lower: bounds.0, upper: bounds.1 })
    }

    /// The bounds, the lower one first.
    pub fn bounds(&self) -> (r: (T, T))
        ensures
            r.0 == self.lower(),
            r.1 == self.upper(),
            r.0.value() <= r.1.value(),
    {
        proof {
            use_type_invariant(self);
        }
        (self.lower, self.upper)
    }

    /// Two domains with the same bounds are one domain.
    pub proof fn lemma_same_bounds(a: Self, b: Self)
        requires
            a.lower() == b.lower(),
            a.upper() == b.upper(),
        ensures
            a == b,
    {
    }
}

impl<T: Number> Descriptor for BoundedDomain<T> {
    open spec fn description(&self) -> Seq<char> {
        "BoundedDomain("@ + decimal(self.lower().value()) + ", "@ + decimal(self.upper().value()) + ")"@
    }

    fn equals(&self, other: &Self) -> (b: bool) {
        proof {
            T::lemma_number(self.lower, 0);
            T::lemma_number(self.upper, 0);
            T::lemma_number(other.lower, 0);
            T::lemma_number(other.upper, 0);
        }
        self.lower.to_wide() == other.lower.to_wide() && self.upper.to_wide() == other.upper.to_wide()
    }

    fn duplicate(&self) -> (r: Self) {
        proof {
            use_type_invariant(self);
        }
        BoundedDomain { lower: self.lower, upper: self.upper }
    }

    fn describe(&self) -> (r: String) {
        let mut r = String::from_str("BoundedDomain(");
        r.append(format_int(self.lower.to_wide()).as_str());
        r.append(", ");
        r.append(format_int(self.upper.to_wide()).as_str());
        r.append(")");
        r
    }
}

impl<T: Number> Domain for BoundedDomain<T> {
    type Carrier = T;

    open spec fn contains(&self, value: T) -> bool {
        self.lower().value() <= value.value() <= self.upper().value()
    }

    fn member(&self, value: &T) -> (r: Fallible<bool>) {
        Ok(self.lower.total_le(value) && value.total_le(&self.upper))
    }
}

/// The vectors whose elements all belong to `element_domain`.
pub struct VectorDomain<D: Domain> {
    pub element_domain: D,
}

impl<D: Domain> VectorDomain<D> {
    /// The domain of the vectors over `element_domain`.
    pub fn new(element_domain: D) -> (r: Self)
        ensures
            r.element_domain == element_domain,
    {
        VectorDomain { element_domain }
    }
}

impl<T> VectorDomain<AllDomain<T>> {
    /// The domain of all vectors over `T`.
    pub fn new_all() -> (r: Self)
        ensures
            r.element_domain == (AllDomain::<T> { _marker: PhantomData }),
    {
        VectorDomain { element_domain: AllDomain::new() }
    }
}

impl<D: Domain> Descriptor for VectorDomain<D> {
    open spec fn description(&self) -> Seq<char> {
        "VectorDomain("@ + self.element_domain.description() + ")"@
    }

    fn equals(&self, other: &Self) -> (b: bool) {
        self.element_domain.equals(&other.element_domain)
    }

    fn duplicate(&self) -> (r: Self) {
        VectorDomain { element_domain: self.element_domain.duplicate() }
    }

    fn describe(&self) -> (r: String) {
        enclose("VectorDomain(", self.element_domain.describe().as_str(), ")")
    }
}

impl<D: Domain> Domain for VectorDomain<D> {
    type Carrier = Vec<D::Carrier>;

    open spec fn contains(&self, value: Vec<D::Carrier>) -> bool {
        forall|i: int| 0 <= i < value.len() ==> self.element_domain.contains(#[trigger] value[i])
    }

    fn member(&self, value: &Vec<D::Carrier>) -> (r: Fallible<bool>) {
        let mut i: usize = 0;
        while i < value.len()
            invariant
                i <= value.len(),
                forall|j: int| 0 <= j < i ==> self.element_domain.contains(#[trigger] value[j]),
            decreases value.len() - i,
        {
            let inside = self.element_domain.member(&value[i])?;
            if !inside {
                return Ok(false);
            }
            i = i + 1;
        }
        Ok(true)
    }
}

/// The members of `element_domain` that hold exactly `length` records.
pub struct SizedDomain<D: Domain> {
    pub element_domain: D,
    pub length: usize,
}

impl<D: Domain> SizedDomain<D> {
    /// The domain of the members of `element_domain` with `length` records.
    pub fn new(element_domain: D, length: usize) -> (r: Self)
        ensures
            r.element_domain == element_domain,
            r.length == length,
    {
        SizedDomain { element_domain, length }
    }
}

impl<D: Domain> Descriptor for SizedDomain<D> {
    open spec fn description(&self) -> Seq<char> {
        "SizedDomain("@ + self.element_domain.description() + ", "@ + decimal(self.length as int) + ")"@
    }

    fn equals(&self, other: &Self) -> (b: bool) {
        self.element_domain.equals(&other.element_domain) && self.length == other.length
    }

    fn duplicate(&self) -> (r: Self) {
        SizedDomain { element_domain: self.element_domain.duplicate(), length: self.length }
    }

    fn describe(&self) -> (r: String) {
        let mut r = String::from_str("SizedDomain(");
        r.append(self.element_domain.describe().as_str());
        r.append(", ");
        r.append(format_nat(self.length as u128).as_str());
        r.append(")");
        r
    }
}

impl<D: Domain> Domain for SizedDomain<VectorDomain<D>> {
    type Carrier = Vec<D::Carrier>;

    open spec fn contains(&self, value: Vec<D::Carrier>) -> bool {
        value.len() == self.length && self.element_domain.contains(value)
    }

    fn member(&self, value: &Vec<D::Carrier>) -> (r: Fallible<bool>) {
        if value.len() != self.length {
            return Ok(false);
        }
        self.element_domain.member(value)
    }
}

} // verus!
