//! The measures of privacy loss that the library's constructors use.
use crate::error::{kind, ErrorVariant, Fallible};
use crate::objects::maps::{single_kinded, DistanceMap};
use crate::objects::space::{Descriptor, Measure};
use crate::traits::Number;
use std::marker::PhantomData;
use vstd::prelude::*;
use vstd::string::StringExecFns;

verus! {

/// Pure differential privacy: the loss is a single `ε`.
pub struct MaxDivergence<Q> {
    pub _marker: PhantomData<Q>,
}

impl<Q> Default for MaxDivergence<Q> {
    fn default() -> (r: Self)
        ensures
            r == (Self { _marker: PhantomData }),
    {
        MaxDivergence { _marker: PhantomData }
    }
}

impl<Q> Clone for MaxDivergence<Q> {
    fn clone(&self) -> (r: Self)
        ensures
            r == *self,
    {
        MaxDivergence { _marker: PhantomData }
    }
}

impl<Q> Descriptor for MaxDivergence<Q> {
    open spec fn description(&self) -> Seq<char> {
        "MaxDivergence()"@
    }

    fn equals(&self, other: &Self) -> (b: bool) {
        true
    }

    fn duplicate(&self) -> (r: Self) {
        MaxDivergence { _marker: PhantomData }
    }

    fn describe(&self) -> (r: String) {
        String::from_str("MaxDivergence()")
    }
}

impl<Q> Measure for MaxDivergence<Q> {
    type Distance = Q;
}

/// Approximate differential privacy: the loss is a pair `(ε, δ)`.
pub struct FixedSmoothedMaxDivergence<Q> {
    pub _marker: PhantomData<Q>,
}

impl<Q> Default for FixedSmoothedMaxDivergence<Q> {
    fn default() -> (r: Self)
        ensures
            r == (Self { _marker: PhantomData }),
    {
        FixedSmoothedMaxDivergence { _marker: PhantomData }
    }
}

impl<Q> Clone for FixedSmoothedMaxDivergence<Q> {
    fn clone(&self) -> (r: Self)
        ensures
            r == *self,
    {
        FixedSmoothedMaxDivergence { _marker: PhantomData }
    }
}

impl<Q> Descriptor for FixedSmoothedMaxDivergence<Q> {
    open spec fn description(&self) -> Seq<char> {
        "FixedSmoothedMaxDivergence()"@
    }

    fn equals(&self, other: &Self) -> (b: bool) {
        true
    }

    fn duplicate(&self) -> (r: Self) {
        FixedSmoothedMaxDivergence { _marker: PhantomData }
    }

    fn describe(&self) -> (r: String) {
        String::from_str("FixedSmoothedMaxDivergence()")
    }
}

impl<Q> Measure for FixedSmoothedMaxDivergence<Q> {
    type Distance = (Q, Q);
}

/// Zero-concentrated differential privacy: the loss is a single `ρ`.
pub struct ZeroConcentratedDivergence<Q> {
    pub _marker: PhantomData<Q>,
}

impl<Q> Default for ZeroConcentratedDivergence<Q> {
    fn default() -> (r: Self)
        ensures
            r == (Self { _marker: PhantomData }),
    {
        ZeroConcentratedDivergence { _marker: PhantomData }
    }
}

impl<Q> Clone for ZeroConcentratedDivergence<Q> {
    fn clone(&self) -> (r: Self)
        ensures
            r == *self,
    {
        ZeroConcentratedDivergence { _marker: PhantomData }
    }
}

impl<Q> Descriptor for ZeroConcentratedDivergence<Q> {
    open spec fn description(&self) -> Seq<char> {
        "ZeroConcentratedDivergence()"@
    }

    fn equals(&self, other: &Self) -> (b: bool) {
        true
    }

    fn duplicate(&self) -> (r: Self) {
        ZeroConcentratedDivergence { _marker: PhantomData }
    }

    fn describe(&self) -> (r: String) {
        String::from_str("ZeroConcentratedDivergence()")
    }
}

impl<Q> Measure for ZeroConcentratedDivergence<Q> {
    type Distance = Q;
}

/// The sum of the distances in `s`, added from left to right; it fails with
/// `FailedFunction` as soon as a partial sum does not fit `Q`.
pub open spec fn checked_sum<Q: Number>(s: Seq<Q>) -> Result<Q, ErrorVariant>
    decreases s.len(),
{
    if s.len() == 0 {
        Ok(Q::from_value(0))
    } else {
        match checked_sum(s.drop_last()) {
            Ok(p) => if Q::lowest() <= p.value() + s.last().value() <= Q::highest() {
                Ok(Q::from_value(p.value() + s.last().value()))
            } else {
                Err(ErrorVariant::FailedFunction)
            },
            Err(k) => Err(k),
        }
    }
}

/// Once a partial sum has failed, every longer sum fails in the same way.
pub proof fn lemma_checked_sum_fails_on<Q: Number>(s: Seq<Q>, n: int)
    requires
        0 <= n <= s.len(),
        checked_sum(s.subrange(0, n)) is Err,
    ensures
        checked_sum(s) == checked_sum(s.subrange(0, n)),
    decreases s.len() - n,
{
    if n == s.len() {
        assert(s.subrange(0, n) =~= s);
    } else {
        let longer = s.subrange(0, n + 1);
        assert(longer.drop_last() =~= s.subrange(0, n));
        lemma_checked_sum_fails_on(s, n + 1);
    }
}

/// Adds the distances in `d` from left to right.
pub fn sum_distances<Q: Number>(d: &Vec<Q>) -> (r: Fallible<Q>)
    ensures
        kind(r) == checked_sum(d@),
{
    let mut total = Q::zero();
    let mut i: usize = 0;
    proof {
        Q::lemma_number(total, 0);
        assert(d@.subrange(0, 0) =~= Seq::<Q>::empty());
    }
    while i < d.len()
        invariant
            i <= d.len(),
            checked_sum(d@.subrange(0, i as int)) == Ok::<Q, ErrorVariant>(total),
        decreases d.len() - i,
    {
        proof {
            let next = d@.subrange(0, i + 1);
            assert(next.drop_last() =~= d@.subrange(0, i as int));
            assert(next.last() == d@[i as int]);
        }
        match total.inf_add(&d[i]) {
            Ok(t) => {
                proof {
                    Q::lemma_number(t, 0);
                }
                total = t;
            },
            Err(e) => {
                proof {
                    lemma_checked_sum_fails_on(d@, i + 1);
                }
                return Err(e);
            },
        }
        i = i + 1;
    }
    assert(d@.subrange(0, i as int) =~= d@);
    Ok(total)
}

/// Measures whose losses can be combined when several measurements are run
/// on the same data. The rule belongs to the measure: composition and
/// accounting ask the measure and assume no formula of their own.
pub trait BasicCompositionMeasure: Measure {
    /// The loss of running measurements with the losses `d`, or the kind of the failure.
    spec fn composition(&self, d: Seq<Self::Distance>) -> Result<Self::Distance, ErrorVariant>;

    fn compose(&self, d: &Vec<Self::Distance>) -> (r: Fallible<Self::Distance>)
        ensures
            kind(r) == self.composition(d@),
    ;
}

impl<Q: Number> BasicCompositionMeasure for MaxDivergence<Q> {
    open spec fn composition(&self, d: Seq<Q>) -> Result<Q, ErrorVariant> {
        checked_sum(d)
    }

    fn compose(&self, d: &Vec<Q>) -> (r: Fallible<Q>) {
        sum_distances(d)
    }
}

impl<Q: Number> BasicCompositionMeasure for ZeroConcentratedDivergence<Q> {
    open spec fn composition(&self, d: Seq<Q>) -> Result<Q, ErrorVariant> {
        checked_sum(d)
    }

    fn compose(&self, d: &Vec<Q>) -> (r: Fallible<Q>) {
        sum_distances(d)
    }
}

/// The sum of `k` losses of `epsilon` each is `k * epsilon`, as long as that fits `Q`.
pub proof fn lemma_checked_sum_of_constant<Q: Number>(s: Seq<Q>, epsilon: Q)
    requires
        epsilon.value() >= 0,
        s.len() * epsilon.value() <= Q::highest(),
        forall|i: int| 0 <= i < s.len() ==> s[i] == epsilon,
    ensures
        checked_sum(s) == Ok::<Q, ErrorVariant>(Q::from_value(s.len() * epsilon.value())),
    decreases s.len(),
{
    Q::lemma_number(epsilon, 0);
    if s.len() == 0 {
        assert(s.len() * epsilon.value() == 0) by (nonlinear_arith)
            requires
                s.len() == 0,
        ;
    } else {
        let shorter = s.drop_last();
        assert((s.len() - 1) * epsilon.value() + epsilon.value() == s.len() * epsilon.value())
            by (nonlinear_arith);
        assert((s.len() - 1) * epsilon.value() >= 0) by (nonlinear_arith)
            requires
                s.len() >= 1,
                epsilon.value() >= 0,
        ;
        lemma_checked_sum_of_constant(shorter, epsilon);
        Q::lemma_number(epsilon, (s.len() - 1) * epsilon.value());
    }
}

/// A sum that succeeds is no smaller than another that succeeds on distances
/// that are no greater, one by one.
pub proof fn lemma_checked_sum_monotone<Q: Number>(a: Seq<Q>, b: Seq<Q>)
    requires
        a.len() == b.len(),
        forall|i: int| 0 <= i < a.len() ==> (#[trigger] a[i]).value() <= b[i].value(),
        checked_sum(a) is Ok,
        checked_sum(b) is Ok,
    ensures
        checked_sum(a).unwrap().value() <= checked_sum(b).unwrap().value(),
    decreases a.len(),
{
    Q::lemma_number(Q::from_value(0), 0);
    if a.len() > 0 {
        let pa = checked_sum(a.drop_last());
        let pb = checked_sum(b.drop_last());
        assert(pa is Ok && pb is Ok);
        assert forall|i: int| 0 <= i < a.drop_last().len() implies (#[trigger] a.drop_last()[i]).value()
            <= b.drop_last()[i].value() by {
            assert(a.drop_last()[i] == a[i]);
            assert(b.drop_last()[i] == b[i]);
        }
        lemma_checked_sum_monotone(a.drop_last(), b.drop_last());
        assert(a.last() == a[a.len() - 1]);
        assert(b.last() == b[b.len() - 1]);
        Q::lemma_number(a.last(), pa.unwrap().value() + a.last().value());
        Q::lemma_number(b.last(), pb.unwrap().value() + b.last().value());
    }
}

/// A privacy curve: for each `δ`, the `ε` for which the loss of a mechanism
/// is within `(ε, δ)`.
#[verifier::reject_recursive_types(Q)]
pub struct SMDCurve<Q> {
    pub curve: DistanceMap<Q, Q>,
}

impl<Q> SMDCurve<Q> {
    /// The `ε` that goes with `delta`, or the kind of the failure.
    #[verifier::inline]
    pub open spec fn image(&self, delta: Q) -> Result<Q, ErrorVariant> {
        self.curve.image(delta)
    }

    /// Reads the curve at `delta`.
    pub fn epsilon(&self, delta: &Q) -> (r: Fallible<Q>)
        ensures
            kind(r) == self.image(*delta),
    {
        self.curve.eval(delta)
    }
}

impl<Q: 'static> SMDCurve<Q> {
    /// The curve that `f` computes.
    pub fn new<F: Fn(&Q) -> Fallible<Q> + 'static>(f: F) -> (r: Self)
        requires
            single_kinded(f),
        ensures
            forall|delta: Q, res: Fallible<Q>| call_ensures(f, (&delta,), res) ==> r.image(delta) == kind(res),
    {
        SMDCurve { curve: DistanceMap::new_fallible(f) }
    }
}

/// Approximate differential privacy with the whole curve of `(ε, δ)` pairs
/// as the loss.
pub struct SmoothedMaxDivergence<Q> {
    pub _marker: PhantomData<Q>,
}

impl<Q> Default for SmoothedMaxDivergence<Q> {
    fn default() -> (r: Self)
        ensures
            r == (Self { _marker: PhantomData }),
    {
        SmoothedMaxDivergence { _marker: PhantomData }
    }
}

impl<Q> Clone for SmoothedMaxDivergence<Q> {
    fn clone(&self) -> (r: Self)
        ensures
            r == *self,
    {
        SmoothedMaxDivergence { _marker: PhantomData }
    }
}

impl<Q> Descriptor for SmoothedMaxDivergence<Q> {
    open spec fn description(&self) -> Seq<char> {
        "SmoothedMaxDivergence()"@
    }

    fn equals(&self, other: &Self) -> (b: bool) {
        true
    }

    fn duplicate(&self) -> (r: Self) {
        SmoothedMaxDivergence { _marker: PhantomData }
    }

    fn describe(&self) -> (r: String) {
        String::from_str("SmoothedMaxDivergence()")
    }
}

impl<Q> Measure for SmoothedMaxDivergence<Q> {
    type Distance = SMDCurve<Q>;
}

} // verus!
