//! Stability maps and privacy maps: deterministic functions from an input
//! distance to an output distance that may fail.
use crate::error::{kind, Error, ErrorVariant, Fallible};
use crate::measures::BasicCompositionMeasure;
use crate::objects::space::{Measure, Metric};
use crate::traits::{inf_cast, Number};
use std::marker::PhantomData;
use std::rc::Rc;
use vstd::prelude::*;

verus! {

/// Behaviour shared by every map: evaluation agrees with a mathematical
/// function that gives, for each input distance, either the output distance or
/// the kind of the failure, and every result of an evaluation is one that the
/// parts of the map allow.
pub trait Bound<QI, QO> {
    /// The output distance, or the kind of the failure, for the input distance `d_in`.
    spec fn image(&self, d_in: QI) -> Result<QO, ErrorVariant>;

    /// Whether an evaluation at `d_in` may end with `res`.
    spec fn relates(&self, d_in: QI, res: Fallible<QO>) -> bool;

    fn apply(&self, d_in: &QI) -> (r: Fallible<QO>)
        ensures
            kind(r) == self.image(*d_in),
            self.relates(*d_in, r),
    ;
}

/// A closure together with the function that it computes.
#[verifier::reject_recursive_types(QI)]
#[verifier::reject_recursive_types(QO)]
#[verifier::reject_recursive_types(F)]
pub struct Modelled<QI, QO, F: Fn(&QI) -> Fallible<QO>> {
    f: F,
    model: Ghost<spec_fn(QI) -> Result<QO, ErrorVariant>>,
}

impl<QI, QO, F: Fn(&QI) -> Fallible<QO>> Modelled<QI, QO, F> {
    #[verifier::type_invariant]
    spec fn wf(&self) -> bool {
        &&& forall|d_in: &QI| call_requires(self.f, (d_in,))
        &&& forall|d_in: QI, r: Fallible<QO>| call_ensures(self.f, (&d_in,), r) ==> kind(r) == (self.model@)(d_in)
    }

    /// The function that the closure computes.
    pub closed spec fn model(&self) -> spec_fn(QI) -> Result<QO, ErrorVariant> {
        self.model@
    }

    /// The closure.
    pub closed spec fn closure(&self) -> F {
        self.f
    }
}

impl<QI, QO, F: Fn(&QI) -> Fallible<QO>> Bound<QI, QO> for Modelled<QI, QO, F> {
    open spec fn image(&self, d_in: QI) -> Result<QO, ErrorVariant> {
        (self.model())(d_in)
    }

    open spec fn relates(&self, d_in: QI, res: Fallible<QO>) -> bool {
        call_ensures(self.closure(), (&d_in,), res)
    }

    fn apply(&self, d_in: &QI) -> (r: Fallible<QO>) {
        proof {
            use_type_invariant(self);
        }
        (self.f)(d_in)
    }
}

/// A closure that cannot fail together with the function that it computes.
#[verifier::reject_recursive_types(QI)]
#[verifier::reject_recursive_types(QO)]
#[verifier::reject_recursive_types(F)]
pub struct ModelledTotal<QI, QO, F: Fn(&QI) -> QO> {
    f: F,
    model: Ghost<spec_fn(QI) -> Result<QO, ErrorVariant>>,
}

impl<QI, QO, F: Fn(&QI) -> QO> ModelledTotal<QI, QO, F> {
    #[verifier::type_invariant]
    spec fn wf(&self) -> bool {
        &&& forall|d_in: &QI| call_requires(self.f, (d_in,))
        &&& forall|d_in: QI, d_out: QO| call_ensures(self.f, (&d_in,), d_out) ==> (self.model@)(d_in) == Ok::<QO, ErrorVariant>(d_out)
    }

    /// The function that the closure computes.
    pub closed spec fn model(&self) -> spec_fn(QI) -> Result<QO, ErrorVariant> {
        self.model@
    }

    /// The closure.
    pub closed spec fn closure(&self) -> F {
        self.f
    }
}

impl<QI, QO, F: Fn(&QI) -> QO> Bound<QI, QO> for ModelledTotal<QI, QO, F> {
    open spec fn image(&self, d_in: QI) -> Result<QO, ErrorVariant> {
        (self.model())(d_in)
    }

    open spec fn relates(&self, d_in: QI, res: Fallible<QO>) -> bool {
        res matches Ok(d_out) && call_ensures(self.closure(), (&d_in,), d_out)
    }

    fn apply(&self, d_in: &QI) -> (r: Fallible<QO>) {
        proof {
            use_type_invariant(self);
        }
        Ok((self.f)(d_in))
    }
}

/// The output distance of a map that multiplies by the constant `c`: the input
/// is first brought into the output type, and each step fails when its exact
/// result does not fit.
pub open spec fn scaled<QI: Number, QO: Number>(d_in: QI, c: QO) -> Result<QO, ErrorVariant> {
    if !(QO::lowest() <= d_in.value() <= QO::highest()) {
        Err(ErrorVariant::FailedCast)
    } else if !(QO::lowest() <= d_in.value() * c.value() <= QO::highest()) {
        Err(ErrorVariant::FailedFunction)
    } else {
        Ok(QO::from_value(d_in.value() * c.value()))
    }
}

/// Multiplies the input distance by `c`.
pub fn scale<QI: Number, QO: Number>(d_in: &QI, c: &QO) -> (r: Fallible<QO>)
    ensures
        kind(r) == scaled(*d_in, *c),
{
    let cast = inf_cast::<QI, QO>(*d_in);
    match cast {
        Ok(d) => {
            let r = d.inf_mul(c);
            proof {
                if let Ok(x) = r {
                    QO::lemma_number(x, 0);
                }
            }
            r
        },
        Err(e) => Err(e),
    }
}

/// Multiplication by a constant.
pub struct Scaled<QI, QO> {
    constant: QO,
    _marker: PhantomData<QI>,
}

impl<QI, QO> Scaled<QI, QO> {
    /// The constant.
    pub closed spec fn constant(&self) -> QO {
        self.constant
    }
}

impl<QI: Number, QO: Number> Bound<QI, QO> for Scaled<QI, QO> {
    open spec fn image(&self, d_in: QI) -> Result<QO, ErrorVariant> {
        scaled(d_in, self.constant())
    }

    open spec fn relates(&self, d_in: QI, res: Fallible<QO>) -> bool {
        kind(res) == scaled(d_in, self.constant())
    }

    fn apply(&self, d_in: &QI) -> (r: Fallible<QO>) {
        scale(d_in, &self.constant)
    }
}

/// The function computed by feeding the result of `inner` to `outer`; a
/// failure of `inner` is the result.
pub open spec fn chain_image<QI, QX, QO>(
    outer: spec_fn(QX) -> Result<QO, ErrorVariant>,
    inner: spec_fn(QI) -> Result<QX, ErrorVariant>,
    d_in: QI,
) -> Result<QO, ErrorVariant> {
    match inner(d_in) {
        Ok(d_mid) => outer(d_mid),
        Err(k) => Err(k),
    }
}

/// Whether evaluating `inner` at `d_in` and `outer` at its result may end
/// with `res`: a failure of `inner` is the result, unchanged.
pub open spec fn map_chained<QI, QX, QO>(
    outer: DistanceMap<QX, QO>,
    inner: DistanceMap<QI, QX>,
    d_in: QI,
    res: Fallible<QO>,
) -> bool {
    exists|mid: Fallible<QX>| #[trigger]
        inner.relates(d_in, mid) && match mid {
            Ok(d_mid) => outer.relates(d_mid, res),
            Err(e) => res == Err::<QO, Error>(e),
        }
}

/// Whatever evaluating one map after another may end with, its kind is
/// the one that the composition of their images gives.
pub proof fn lemma_chained_kind<QI, QX, QO>(
    outer: DistanceMap<QX, QO>,
    inner: DistanceMap<QI, QX>,
    d_in: QI,
    res: Fallible<QO>,
)
    requires
        map_chained(outer, inner, d_in, res),
    ensures
        kind(res) == chain_image(outer.graph(), inner.graph(), d_in),
{
    let mid = choose|mid: Fallible<QX>| #[trigger]
        inner.relates(d_in, mid) && match mid {
            Ok(d_mid) => outer.relates(d_mid, res),
            Err(e) => res == Err::<QO, Error>(e),
        };
    inner.lemma_relates(d_in, mid);
    match mid {
        Ok(d_mid) => {
            outer.lemma_relates(d_mid, res);
        },
        Err(_) => {},
    }
}

/// Whether a map never lets a greater input distance lead to a smaller
/// output distance, wherever it succeeds on both.
pub open spec fn monotone<QI: Number, QO: Number>(map: spec_fn(QI) -> Result<QO, ErrorVariant>) -> bool {
    forall|a: QI, b: QI|
        a.value() <= b.value() ==> match (#[trigger] map(a), #[trigger] map(b)) {
            (Ok(x), Ok(y)) => x.value() <= y.value(),
            _ => true,
        }
}

/// Multiplication by a non-negative constant is monotone.
pub proof fn lemma_scaled_monotone<QI: Number, QO: Number>(c: QO)
    requires
        c.value() >= 0,
    ensures
        monotone(|d_in: QI| scaled(d_in, c)),
{
    let map = |d_in: QI| scaled(d_in, c);
    assert forall|a: QI, b: QI| a.value() <= b.value() implies match (#[trigger] map(a), #[trigger] map(b)) {
        (Ok(x), Ok(y)) => x.value() <= y.value(),
        _ => true,
    } by {
        if map(a) is Ok && map(b) is Ok {
            QO::lemma_number(c, a.value() * c.value());
            QO::lemma_number(c, b.value() * c.value());
            assert(a.value() * c.value() <= b.value() * c.value()) by (nonlinear_arith)
                requires
                    a.value() <= b.value(),
                    c.value() >= 0,
            ;
        }
    }
}

/// The composition of two monotone maps is monotone.
pub proof fn lemma_chain_monotone<QI: Number, QX: Number, QO: Number>(
    outer: spec_fn(QX) -> Result<QO, ErrorVariant>,
    inner: spec_fn(QI) -> Result<QX, ErrorVariant>,
)
    requires
        monotone(outer),
        monotone(inner),
    ensures
        monotone(|d_in: QI| chain_image(outer, inner, d_in)),
{
    let map = |d_in: QI| chain_image(outer, inner, d_in);
    assert forall|a: QI, b: QI| a.value() <= b.value() implies match (#[trigger] map(a), #[trigger] map(b)) {
        (Ok(x), Ok(y)) => x.value() <= y.value(),
        _ => true,
    } by {
        if map(a) is Ok && map(b) is Ok {
            let ma = inner(a);
            let mb = inner(b);
            assert(ma is Ok && mb is Ok);
            assert(ma.unwrap().value() <= mb.unwrap().value());
            assert(outer(ma.unwrap()) is Ok && outer(mb.unwrap()) is Ok);
        }
    }
}

/// A composition agrees with its parts, in whichever order three maps are composed.
pub proof fn lemma_chain_associative<Q0, Q1, Q2, Q3>(
    m2: spec_fn(Q2) -> Result<Q3, ErrorVariant>,
    m1: spec_fn(Q1) -> Result<Q2, ErrorVariant>,
    m0: spec_fn(Q0) -> Result<Q1, ErrorVariant>,
    d_in: Q0,
)
    ensures
        chain_image(|d: Q1| chain_image(m2, m1, d), m0, d_in) == chain_image(
            m2,
            |d: Q0| chain_image(m1, m0, d),
            d_in,
        ),
{
}

/// Two maps, the second applied to what the first returns.
#[verifier::reject_recursive_types(QI)]
#[verifier::reject_recursive_types(QX)]
#[verifier::reject_recursive_types(QO)]
pub struct Chain<QI, QX, QO> {
    outer: DistanceMap<QX, QO>,
    inner: DistanceMap<QI, QX>,
}

impl<QI, QX, QO> Chain<QI, QX, QO> {
    /// The map that is applied last.
    pub closed spec fn outer(&self) -> DistanceMap<QX, QO> {
        self.outer
    }

    /// The map that is applied first.
    pub closed spec fn inner(&self) -> DistanceMap<QI, QX> {
        self.inner
    }
}

impl<QI, QX, QO> Bound<QI, QO> for Chain<QI, QX, QO> {
    open spec fn image(&self, d_in: QI) -> Result<QO, ErrorVariant> {
        chain_image(self.outer().graph(), self.inner().graph(), d_in)
    }

    open spec fn relates(&self, d_in: QI, res: Fallible<QO>) -> bool {
        map_chained(self.outer(), self.inner(), d_in, res)
    }

    fn apply(&self, d_in: &QI) -> (r: Fallible<QO>) {
        let mid = self.inner.eval(d_in);
        match mid {
            Ok(d_mid) => {
                let r = self.outer.eval(&d_mid);
                assert(self.inner.relates(*d_in, mid));
                r
            },
            Err(e) => {
                assert(self.inner.relates(*d_in, mid));
                Err(e)
            },
        }
    }
}

/// The bounds that the maps `maps` give for `d_in`, in order, or the kind of
/// the first failure among them.
pub open spec fn collect_bounds<QI, QO>(maps: Seq<DistanceMap<QI, QO>>, d_in: QI) -> Result<
    Seq<QO>,
    ErrorVariant,
>
    decreases maps.len(),
{
    if maps.len() == 0 {
        Ok(Seq::empty())
    } else {
        match collect_bounds(maps.drop_last(), d_in) {
            Ok(bounds) => match maps.last().image(d_in) {
                Ok(b) => Ok(bounds.push(b)),
                Err(k) => Err(k),
            },
            Err(k) => Err(k),
        }
    }
}

/// Once a map has failed, collecting from more maps fails in the same way.
pub proof fn lemma_collect_bounds_fails_on<QI, QO>(maps: Seq<DistanceMap<QI, QO>>, d_in: QI, n: int)
    requires
        0 <= n <= maps.len(),
        collect_bounds(maps.subrange(0, n), d_in) is Err,
    ensures
        collect_bounds(maps, d_in) == collect_bounds(maps.subrange(0, n), d_in),
    decreases maps.len() - n,
{
    if n == maps.len() {
        assert(maps.subrange(0, n) =~= maps);
    } else {
        let longer = maps.subrange(0, n + 1);
        assert(longer.drop_last() =~= maps.subrange(0, n));
        lemma_collect_bounds_fails_on(maps, d_in, n + 1);
    }
}

/// The loss of running measurements with the privacy maps `maps` on inputs
/// `d_in` apart: the composition, by the rule of `measure`, of the losses
/// that the maps give.
pub open spec fn composed_image<QI, MO: BasicCompositionMeasure>(
    maps: Seq<DistanceMap<QI, MO::Distance>>,
    measure: MO,
    d_in: QI,
) -> Result<MO::Distance, ErrorVariant> {
    match collect_bounds(maps, d_in) {
        Ok(bounds) => measure.composition(bounds),
        Err(k) => Err(k),
    }
}

/// Whether the first of the maps `maps` may give the bounds `bounds` for
/// `d_in`, one each.
pub open spec fn collected<QI, QO>(maps: Seq<DistanceMap<QI, QO>>, d_in: QI, bounds: Seq<QO>) -> bool {
    &&& bounds.len() <= maps.len()
    &&& forall|i: int| 0 <= i < bounds.len() ==> (#[trigger] maps[i]).relates(d_in, Ok::<QO, Error>(bounds[i]))
}

/// Bounds that the first maps may give are the bounds that their images give.
pub proof fn lemma_collected_bounds<QI, QO>(maps: Seq<DistanceMap<QI, QO>>, d_in: QI, bounds: Seq<QO>)
    requires
        collected(maps, d_in, bounds),
    ensures
        collect_bounds(maps.subrange(0, bounds.len() as int), d_in) == Ok::<Seq<QO>, ErrorVariant>(bounds),
    decreases bounds.len(),
{
    let first = maps.subrange(0, bounds.len() as int);
    if bounds.len() == 0 {
        assert(bounds =~= Seq::empty());
    } else {
        let k = bounds.len() - 1;
        lemma_collected_bounds(maps, d_in, bounds.drop_last());
        assert(first.drop_last() =~= maps.subrange(0, k));
        assert(maps[k].relates(d_in, Ok::<QO, Error>(bounds[k])));
        maps[k].lemma_relates(d_in, Ok::<QO, Error>(bounds[k]));
        assert(first.last() == maps[k]);
        assert(bounds.drop_last().push(bounds[k]) =~= bounds);
    }
}

/// Whether evaluating the maps `maps` at `d_in`, in order, and combining
/// their bounds by the rule of `measure` may end with `res`: either every map
/// gives a bound and `res` is what the rule makes of the bounds, or the maps
/// before one give bounds, that one fails, and its error is the result.
pub open spec fn combined_relates<QI, MO: BasicCompositionMeasure>(
    maps: Seq<DistanceMap<QI, MO::Distance>>,
    measure: MO,
    d_in: QI,
    res: Fallible<MO::Distance>,
) -> bool {
    exists|bounds: Seq<MO::Distance>| #[trigger]
        collected(maps, d_in, bounds) && if bounds.len() == maps.len() {
            kind(res) == measure.composition(bounds)
        } else {
            res matches Err(e) && maps[bounds.len() as int].relates(d_in, Err::<MO::Distance, Error>(e))
        }
}

/// Whatever evaluating maps together may end with, its kind is the one
/// that their images give.
pub proof fn lemma_combined_kind<QI, MO: BasicCompositionMeasure>(
    maps: Seq<DistanceMap<QI, MO::Distance>>,
    measure: MO,
    d_in: QI,
    res: Fallible<MO::Distance>,
)
    requires
        combined_relates(maps, measure, d_in, res),
    ensures
        kind(res) == composed_image(maps, measure, d_in),
{
    let bounds = choose|bounds: Seq<MO::Distance>| #[trigger]
        collected(maps, d_in, bounds) && if bounds.len() == maps.len() {
            kind(res) == measure.composition(bounds)
        } else {
            res matches Err(e) && maps[bounds.len() as int].relates(d_in, Err::<MO::Distance, Error>(e))
        };
    let k = bounds.len() as int;
    lemma_collected_bounds(maps, d_in, bounds);
    if k == maps.len() {
        assert(maps.subrange(0, k) =~= maps);
    } else {
        maps[k].lemma_relates(d_in, res);
        let longer = maps.subrange(0, k + 1);
        assert(longer.drop_last() =~= maps.subrange(0, k));
        assert(longer.last() == maps[k]);
        lemma_collect_bounds_fails_on(maps, d_in, k + 1);
    }
}

/// Privacy maps evaluated together and combined by the rule of a measure.
#[verifier::reject_recursive_types(QI)]
#[verifier::reject_recursive_types(MO)]
pub struct Combined<QI, MO: BasicCompositionMeasure> {
    maps: Vec<DistanceMap<QI, MO::Distance>>,
    measure: MO,
}

impl<QI, MO: BasicCompositionMeasure> Combined<QI, MO> {
    /// The maps whose bounds are combined.
    pub closed spec fn maps(&self) -> Seq<DistanceMap<QI, MO::Distance>> {
        self.maps@
    }

    /// The measure whose rule combines the bounds.
    pub closed spec fn measure(&self) -> MO {
        self.measure
    }
}

impl<QI, MO: BasicCompositionMeasure> Bound<QI, MO::Distance> for Combined<QI, MO> {
    open spec fn image(&self, d_in: QI) -> Result<MO::Distance, ErrorVariant> {
        composed_image(self.maps(), self.measure(), d_in)
    }

    open spec fn relates(&self, d_in: QI, res: Fallible<MO::Distance>) -> bool {
        combined_relates(self.maps(), self.measure(), d_in, res)
    }

    fn apply(&self, d_in: &QI) -> (r: Fallible<MO::Distance>) {
        let mut bounds: Vec<MO::Distance> = Vec::new();
        let mut i: usize = 0;
        proof {
            assert(self.maps@.subrange(0, 0) =~= Seq::<DistanceMap<QI, MO::Distance>>::empty());
        }
        while i < self.maps.len()
            invariant
                i <= self.maps.len(),
                collect_bounds(self.maps@.subrange(0, i as int), *d_in) == Ok::<Seq<MO::Distance>, ErrorVariant>(
                    bounds@,
                ),
                bounds.len() == i,
                forall|j: int|
                    0 <= j < i ==> (#[trigger] self.maps@[j]).relates(*d_in, Ok::<MO::Distance, Error>(bounds@[j])),
            decreases self.maps.len() - i,
        {
            proof {
                let next = self.maps@.subrange(0, i + 1);
                assert(next.drop_last() =~= self.maps@.subrange(0, i as int));
                assert(next.last() == self.maps@[i as int]);
            }
            match self.maps[i].eval(d_in) {
                Ok(b) => {
                    bounds.push(b);
                },
                Err(e) => {
                    proof {
                        lemma_collect_bounds_fails_on(self.maps@, *d_in, i + 1);
                        assert(collected(self.maps@, *d_in, bounds@));
                    }
                    return Err(e);
                },
            }
            i = i + 1;
        }
        assert(self.maps@.subrange(0, i as int) =~= self.maps@);
        let r = self.measure.compose(&bounds);
        assert(collected(self.maps@, *d_in, bounds@) && kind(r) == self.measure.composition(bounds@));
        r
    }
}

/// A shared, immutable map from distances of type `QI` to distances of type `QO`.
#[verifier::reject_recursive_types(QI)]
#[verifier::reject_recursive_types(QO)]
pub struct DistanceMap<QI, QO> {
    map: Rc<Box<dyn Bound<QI, QO>>>,
}

impl<QI, QO> DistanceMap<QI, QO> {
    /// The output distance, or the kind of the failure, for the input distance `d_in`.
    pub closed spec fn image(&self, d_in: QI) -> Result<QO, ErrorVariant> {
        self.map.image(d_in)
    }

    /// Whether an evaluation at `d_in` may end with `res`: `res` is a result
    /// that the parts of the map allow (for a map built from a closure, one
    /// that the closure allows), and its kind is `image(d_in)`.
    pub closed spec fn relates(&self, d_in: QI, res: Fallible<QO>) -> bool {
        self.map.relates(d_in, res) && kind(res) == self.map.image(d_in)
    }

    /// Whatever an evaluation may end with, its kind is the one that `image` gives.
    pub proof fn lemma_relates(&self, d_in: QI, res: Fallible<QO>)
        requires
            self.relates(d_in, res),
        ensures
            kind(res) == self.image(d_in),
    {
    }

    /// The map as a mathematical function.
    pub open spec fn graph(&self) -> spec_fn(QI) -> Result<QO, ErrorVariant> {
        |d_in: QI| self.image(d_in)
    }

    /// Evaluates the map.
    pub fn eval(&self, d_in: &QI) -> (r: Fallible<QO>)
        ensures
            kind(r) == self.image(*d_in),
            self.relates(*d_in, r),
    {
        self.map.apply(d_in)
    }

    /// Another handle on the same map.
    pub fn share(&self) -> (r: Self)
        ensures
            r == *self,
    {
        DistanceMap { map: self.map.clone() }
    }
}

/// Whether the closure `f` is defined everywhere and returns one result for each input.
pub open spec fn single_valued<QI, QO, F: Fn(&QI) -> QO>(f: F) -> bool {
    &&& forall|d_in: &QI| call_requires(f, (d_in,))
    &&& forall|d_in: QI, a: QO, b: QO|
        call_ensures(f, (&d_in,), a) && call_ensures(f, (&d_in,), b) ==> a == b
}

/// Whether the closure `f` is defined everywhere and, for each input, either
/// returns one value or fails with one kind of error.
pub open spec fn single_kinded<QI, QO, F: Fn(&QI) -> Fallible<QO>>(f: F) -> bool {
    &&& forall|d_in: &QI| call_requires(f, (d_in,))
    &&& forall|d_in: QI, a: Fallible<QO>, b: Fallible<QO>|
        call_ensures(f, (&d_in,), a) && call_ensures(f, (&d_in,), b) ==> kind(a) == kind(b)
}

impl<QI: 'static, QO: 'static> DistanceMap<QI, QO> {
    /// Wraps a closure that cannot fail.
    pub fn new<F: Fn(&QI) -> QO + 'static>(f: F) -> (r: Self)
        requires
            single_valued(f),
        ensures
            forall|d_in: QI, d_out: QO| call_ensures(f, (&d_in,), d_out) ==> r.image(d_in) == Ok::<QO, ErrorVariant>(d_out),
            forall|d_in: QI, res: Fallible<QO>| #[trigger]
                r.relates(d_in, res) <==> (res matches Ok(d_out) && call_ensures(f, (&d_in,), d_out)),
    {
        let ghost model = |d_in: QI| Ok::<QO, ErrorVariant>(choose|d_out: QO| call_ensures(f, (&d_in,), d_out));
        DistanceMap { map: Rc::new(Box::new(ModelledTotal { f, model: Ghost(model) })) }
    }

    /// Wraps a closure that may fail.
    pub fn new_fallible<F: Fn(&QI) -> Fallible<QO> + 'static>(f: F) -> (r: Self)
        requires
            single_kinded(f),
        ensures
            forall|d_in: QI, res: Fallible<QO>| call_ensures(f, (&d_in,), res) ==> r.image(d_in) == kind(res),
            forall|d_in: QI, res: Fallible<QO>| #[trigger] r.relates(d_in, res) <==> call_ensures(f, (&d_in,), res),
    {
        let ghost model = |d_in: QI| kind(choose|res: Fallible<QO>| call_ensures(f, (&d_in,), res));
        DistanceMap { map: Rc::new(Box::new(Modelled { f, model: Ghost(model) })) }
    }

    /// Wraps a closure that is known to compute `model`.
    pub(crate) fn with_model<F: Fn(&QI) -> Fallible<QO> + 'static>(
        f: F,
        Ghost(model): Ghost<spec_fn(QI) -> Result<QO, ErrorVariant>>,
    ) -> (r: Self)
        requires
            forall|d_in: &QI| call_requires(f, (d_in,)),
            forall|d_in: QI, res: Fallible<QO>| call_ensures(f, (&d_in,), res) ==> kind(res) == model(d_in),
        ensures
            forall|d_in: QI| #[trigger] r.image(d_in) == model(d_in),
            forall|d_in: QI, res: Fallible<QO>| #[trigger] r.relates(d_in, res) <==> call_ensures(f, (&d_in,), res),
    {
        DistanceMap { map: Rc::new(Box::new(Modelled { f, model: Ghost(model) })) }
    }

    /// The composition `outer ∘ inner`, sharing both maps.
    pub fn make_chain<QX: 'static>(outer: &DistanceMap<QX, QO>, inner: &DistanceMap<QI, QX>) -> (r: Self)
        ensures
            forall|d_in: QI| #[trigger] r.image(d_in) == chain_image(outer.graph(), inner.graph(), d_in),
            forall|d_in: QI, res: Fallible<QO>| #[trigger]
                r.relates(d_in, res) <==> map_chained(*outer, *inner, d_in, res),
    {
        DistanceMap { map: Rc::new(Box::new(Chain { outer: outer.share(), inner: inner.share() })) }
    }
}

impl<QI: 'static, QO: 'static> DistanceMap<QI, QO> {
    /// The map that evaluates `maps` and combines their bounds by the rule of `measure`.
    pub fn make_combined<MO: BasicCompositionMeasure<Distance = QO> + 'static>(
        maps: Vec<DistanceMap<QI, QO>>,
        measure: MO,
    ) -> (r: Self)
        ensures
            forall|d_in: QI| #[trigger] r.image(d_in) == composed_image(maps@, measure, d_in),
            forall|d_in: QI, res: Fallible<QO>| #[trigger]
                r.relates(d_in, res) <==> combined_relates(maps@, measure, d_in, res),
    {
        let ghost parts = maps@;
        let r = DistanceMap { map: Rc::new(Box::new(Combined { maps, measure })) };
        assert forall|d_in: QI, res: Fallible<QO>| #[trigger]
            r.relates(d_in, res) <==> combined_relates(parts, measure, d_in, res) by {
            if combined_relates(parts, measure, d_in, res) {
                lemma_combined_kind(parts, measure, d_in, res);
            }
        }
        r
    }
}

impl<QI: Number, QO: Number> DistanceMap<QI, QO> {
    /// Whether a greater input distance never leads to a smaller output distance.
    pub open spec fn is_monotone(&self) -> bool {
        monotone(self.graph())
    }
}

impl<QI: Number + 'static, QO: Number + 'static> DistanceMap<QI, QO> {
    /// The map that multiplies the input distance by `c`.
    pub fn new_from_constant(c: QO) -> (r: Self)
        ensures
            forall|d_in: QI| #[trigger] r.image(d_in) == scaled(d_in, c),
            forall|d_in: QI, res: Fallible<QO>| #[trigger] r.relates(d_in, res) <==> kind(res) == scaled(d_in, c),
    {
        DistanceMap { map: Rc::new(Box::new(Scaled { constant: c, _marker: PhantomData })) }
    }
}

/// The stability map of a transformation: a bound on the distance between
/// outputs in terms of the distance between inputs.
#[verifier::reject_recursive_types(MI)]
#[verifier::reject_recursive_types(MO)]
pub struct StabilityMap<MI: Metric, MO: Metric> {
    pub map: DistanceMap<MI::Distance, MO::Distance>,
}

impl<MI: Metric, MO: Metric> StabilityMap<MI, MO> {
    /// The bound, or the kind of the failure, for the input distance `d_in`.
    #[verifier::inline]
    pub open spec fn image(&self, d_in: MI::Distance) -> Result<MO::Distance, ErrorVariant> {
        self.map.image(d_in)
    }

    /// Whether an evaluation at `d_in` may end with `res`.
    #[verifier::inline]
    pub open spec fn relates(&self, d_in: MI::Distance, res: Fallible<MO::Distance>) -> bool {
        self.map.relates(d_in, res)
    }

    /// Evaluates the map.
    pub fn eval(&self, d_in: &MI::Distance) -> (r: Fallible<MO::Distance>)
        ensures
            kind(r) == self.image(*d_in),
            self.relates(*d_in, r),
    {
        self.map.eval(d_in)
    }
}

impl<MI: Metric, MO: Metric> Clone for StabilityMap<MI, MO> {
    fn clone(&self) -> (r: Self)
        ensures
            r == *self,
    {
        StabilityMap { map: self.map.share() }
    }
}

impl<MI: Metric + 'static, MO: Metric + 'static> StabilityMap<MI, MO> {
    /// Wraps a closure that cannot fail.
    pub fn new<F: Fn(&MI::Distance) -> MO::Distance + 'static>(f: F) -> (r: Self)
        requires
            single_valued(f),
        ensures
            forall|d_in: MI::Distance, d_out: MO::Distance|
                call_ensures(f, (&d_in,), d_out) ==> r.image(d_in) == Ok::<MO::Distance, ErrorVariant>(d_out),
            forall|d_in: MI::Distance, res: Fallible<MO::Distance>| #[trigger]
                r.map.relates(d_in, res) <==> (res matches Ok(d_out) && call_ensures(f, (&d_in,), d_out)),
    {
        StabilityMap { map: DistanceMap::new(f) }
    }

    /// Wraps a closure that may fail.
    pub fn new_fallible<F: Fn(&MI::Distance) -> Fallible<MO::Distance> + 'static>(f: F) -> (r: Self)
        requires
            single_kinded(f),
        ensures
            forall|d_in: MI::Distance, res: Fallible<MO::Distance>|
                call_ensures(f, (&d_in,), res) ==> r.image(d_in) == kind(res),
            forall|d_in: MI::Distance, res: Fallible<MO::Distance>| #[trigger]
                r.map.relates(d_in, res) <==> call_ensures(f, (&d_in,), res),
    {
        StabilityMap { map: DistanceMap::new_fallible(f) }
    }

    /// The composition `outer ∘ inner`, sharing both maps.
    pub fn make_chain<MX: Metric + 'static>(outer: &StabilityMap<MX, MO>, inner: &StabilityMap<MI, MX>) -> (r: Self)
        ensures
            forall|d_in: MI::Distance| #[trigger] r.image(d_in) == chain_image(outer.map.graph(), inner.map.graph(), d_in),
            forall|d_in: MI::Distance, res: Fallible<MO::Distance>| #[trigger]
                r.map.relates(d_in, res) <==> map_chained(outer.map, inner.map, d_in, res),
    {
        StabilityMap { map: DistanceMap::make_chain(&outer.map, &inner.map) }
    }
}

impl<MI: Metric + 'static, MO: Metric + 'static> StabilityMap<MI, MO> where
    MI::Distance: Number,
    MO::Distance: Number,
 {
    /// The map that multiplies the input distance by `c`.
    pub fn new_from_constant(c: MO::Distance) -> (r: Self)
        ensures
            forall|d_in: MI::Distance| #[trigger] r.image(d_in) == scaled(d_in, c),
            forall|d_in: MI::Distance, res: Fallible<MO::Distance>| #[trigger]
                r.map.relates(d_in, res) <==> kind(res) == scaled(d_in, c),
    {
        StabilityMap { map: DistanceMap::new_from_constant(c) }
    }
}

/// The privacy map of a measurement: a bound on the privacy loss in terms of
/// the distance between inputs.
#[verifier::reject_recursive_types(MI)]
#[verifier::reject_recursive_types(MO)]
pub struct PrivacyMap<MI: Metric, MO: Measure> {
    pub map: DistanceMap<MI::Distance, MO::Distance>,
}

impl<MI: Metric, MO: Measure> PrivacyMap<MI, MO> {
    /// The bound, or the kind of the failure, for the input distance `d_in`.
    #[verifier::inline]
    pub open spec fn image(&self, d_in: MI::Distance) -> Result<MO::Distance, ErrorVariant> {
        self.map.image(d_in)
    }

    /// Whether an evaluation at `d_in` may end with `res`.
    #[verifier::inline]
    pub open spec fn relates(&self, d_in: MI::Distance, res: Fallible<MO::Distance>) -> bool {
        self.map.relates(d_in, res)
    }

    /// Evaluates the map.
    pub fn eval(&self, d_in: &MI::Distance) -> (r: Fallible<MO::Distance>)
        ensures
            kind(r) == self.image(*d_in),
            self.relates(*d_in, r),
    {
        self.map.eval(d_in)
    }
}

impl<MI: Metric, MO: Measure> Clone for PrivacyMap<MI, MO> {
    fn clone(&self) -> (r: Self)
        ensures
            r == *self,
    {
        PrivacyMap { map: self.map.share() }
    }
}

impl<MI: Metric + 'static, MO: Measure + 'static> PrivacyMap<MI, MO> {
    /// Wraps a closure that cannot fail.
    pub fn new<F: Fn(&MI::Distance) -> MO::Distance + 'static>(f: F) -> (r: Self)
        requires
            single_valued(f),
        ensures
            forall|d_in: MI::Distance, d_out: MO::Distance|
                call_ensures(f, (&d_in,), d_out) ==> r.image(d_in) == Ok::<MO::Distance, ErrorVariant>(d_out),
            forall|d_in: MI::Distance, res: Fallible<MO::Distance>| #[trigger]
                r.map.relates(d_in, res) <==> (res matches Ok(d_out) && call_ensures(f, (&d_in,), d_out)),
    {
        PrivacyMap { map: DistanceMap::new(f) }
    }

    /// Wraps a closure that may fail.
    pub fn new_fallible<F: Fn(&MI::Distance) -> Fallible<MO::Distance> + 'static>(f: F) -> (r: Self)
        requires
            single_kinded(f),
        ensures
            forall|d_in: MI::Distance, res: Fallible<MO::Distance>|
                call_ensures(f, (&d_in,), res) ==> r.image(d_in) == kind(res),
            forall|d_in: MI::Distance, res: Fallible<MO::Distance>| #[trigger]
                r.map.relates(d_in, res) <==> call_ensures(f, (&d_in,), res),
    {
        PrivacyMap { map: DistanceMap::new_fallible(f) }
    }

    /// The privacy map of a measurement that runs after a transformation: the
    /// loss of the measurement at the distance that the transformation allows.
    pub fn make_chain<MX: Metric + 'static>(outer: &PrivacyMap<MX, MO>, inner: &StabilityMap<MI, MX>) -> (r: Self)
        ensures
            forall|d_in: MI::Distance| #[trigger] r.image(d_in) == chain_image(outer.map.graph(), inner.map.graph(), d_in),
            forall|d_in: MI::Distance, res: Fallible<MO::Distance>| #[trigger]
                r.map.relates(d_in, res) <==> map_chained(outer.map, inner.map, d_in, res),
    {
        PrivacyMap { map: DistanceMap::make_chain(&outer.map, &inner.map) }
    }
}

impl<MI: Metric + 'static, MO: Measure + 'static> PrivacyMap<MI, MO> where
    MI::Distance: Number,
    MO::Distance: Number,
 {
    /// The map that multiplies the input distance by `c`.
    pub fn new_from_constant(c: MO::Distance) -> (r: Self)
        ensures
            forall|d_in: MI::Distance| #[trigger] r.image(d_in) == scaled(d_in, c),
            forall|d_in: MI::Distance, res: Fallible<MO::Distance>| #[trigger]
                r.map.relates(d_in, res) <==> kind(res) == scaled(d_in, c),
    {
        PrivacyMap { map: DistanceMap::new_from_constant(c) }
    }
}

} // verus!
