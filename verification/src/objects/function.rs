//! Function objects: the executable part of a transformation, measurement or postprocessor.
use crate::error::{Error, Fallible};
use std::marker::PhantomData;
use std::rc::Rc;
use vstd::prelude::*;

verus! {

/// Behaviour shared by every function object: a relation between an argument
/// and the results that an invocation on it may produce.
pub trait Mapping<TI, TO> {
    /// Whether an invocation on `arg` may end with `res`.
    spec fn relates(&self, arg: TI, res: Fallible<TO>) -> bool;

    fn call(&self, arg: &TI) -> (res: Fallible<TO>)
        ensures
            self.relates(*arg, res),
    ;
}

/// A closure that cannot fail, seen as a function object.
#[verifier::reject_recursive_types(TI)]
#[verifier::reject_recursive_types(TO)]
#[verifier::reject_recursive_types(F)]
pub struct Infallible<TI, TO, F: Fn(&TI) -> TO> {
    f: F,
    _marker: PhantomData<(TI, TO)>,
}

impl<TI, TO, F: Fn(&TI) -> TO> Infallible<TI, TO, F> {
    #[verifier::type_invariant]
    spec fn wf(&self) -> bool {
        forall|arg: &TI| call_requires(self.f, (arg,))
    }

    /// The closure.
    pub closed spec fn closure(&self) -> F {
        self.f
    }
}

impl<TI, TO, F: Fn(&TI) -> TO> Mapping<TI, TO> for Infallible<TI, TO, F> {
    open spec fn relates(&self, arg: TI, res: Fallible<TO>) -> bool {
        res matches Ok(v) && call_ensures(self.closure(), (&arg,), v)
    }

    fn call(&self, arg: &TI) -> (res: Fallible<TO>) {
        proof {
            use_type_invariant(self);
        }
        Ok((self.f)(arg))
    }
}

/// A closure that may fail, seen as a function object.
#[verifier::reject_recursive_types(TI)]
#[verifier::reject_recursive_types(TO)]
#[verifier::reject_recursive_types(F)]
pub struct MayFail<TI, TO, F: Fn(&TI) -> Fallible<TO>> {
    f: F,
    _marker: PhantomData<(TI, TO)>,
}

impl<TI, TO, F: Fn(&TI) -> Fallible<TO>> MayFail<TI, TO, F> {
    #[verifier::type_invariant]
    spec fn wf(&self) -> bool {
        forall|arg: &TI| call_requires(self.f, (arg,))
    }

    /// The closure.
    pub closed spec fn closure(&self) -> F {
        self.f
    }
}

impl<TI, TO, F: Fn(&TI) -> Fallible<TO>> Mapping<TI, TO> for MayFail<TI, TO, F> {
    open spec fn relates(&self, arg: TI, res: Fallible<TO>) -> bool {
        call_ensures(self.closure(), (&arg,), res)
    }

    fn call(&self, arg: &TI) -> (res: Fallible<TO>) {
        proof {
            use_type_invariant(self);
        }
        (self.f)(arg)
    }
}

/// Whether feeding `arg` to `inner` and its result to `outer` may end with `res`:
/// a failure of `inner` is the result, unchanged.
pub open spec fn chained<TI, TX, TO>(
    outer: Function<TX, TO>,
    inner: Function<TI, TX>,
    arg: TI,
    res: Fallible<TO>,
) -> bool {
    exists|mid: Fallible<TX>| #[trigger]
        inner.relates(arg, mid) && match mid {
            Ok(m) => outer.relates(m, res),
            Err(e) => res == Err::<TO, Error>(e),
        }
}

/// Two function objects, the second applied to what the first returns.
#[verifier::reject_recursive_types(TI)]
#[verifier::reject_recursive_types(TX)]
#[verifier::reject_recursive_types(TO)]
pub struct Composed<TI, TX, TO> {
    outer: Function<TX, TO>,
    inner: Function<TI, TX>,
}

impl<TI, TX, TO> Composed<TI, TX, TO> {
    /// The function that is applied last.
    pub closed spec fn outer(&self) -> Function<TX, TO> {
        self.outer
    }

    /// The function that is applied first.
    pub closed spec fn inner(&self) -> Function<TI, TX> {
        self.inner
    }
}

impl<TI, TX, TO> Mapping<TI, TO> for Composed<TI, TX, TO> {
    open spec fn relates(&self, arg: TI, res: Fallible<TO>) -> bool {
        chained(self.outer(), self.inner(), arg, res)
    }

    fn call(&self, arg: &TI) -> (res: Fallible<TO>) {
        let mid = self.inner.eval(arg);
        match mid {
            Ok(m) => {
                let res = self.outer.eval(&m);
                assert(self.inner.relates(*arg, mid));
                res
            },
            Err(e) => {
                assert(self.inner.relates(*arg, mid));
                Err(e)
            },
        }
    }
}

/// Whether running the functions `fs` in order on `arg` may end with `res`:
/// either every function succeeds and `res` lists their results in order, or
/// one of them fails and its error is the result.
pub open spec fn sequence_relates<TI, TO>(fs: Seq<Function<TI, TO>>, arg: TI, res: Fallible<Vec<TO>>) -> bool {
    match res {
        Ok(v) => {
            &&& v@.len() == fs.len()
            &&& forall|i: int| 0 <= i < fs.len() ==> (#[trigger] fs[i]).relates(arg, Ok::<TO, Error>(v@[i]))
        },
        Err(e) => exists|k: int| 0 <= k < fs.len() && (#[trigger] fs[k]).relates(arg, Err::<TO, Error>(e)),
    }
}

/// Function objects run one after another on the same argument.
#[verifier::reject_recursive_types(TI)]
#[verifier::reject_recursive_types(TO)]
pub struct Sequence<TI, TO> {
    functions: Vec<Function<TI, TO>>,
}

impl<TI, TO> Sequence<TI, TO> {
    /// The functions, in the order in which they run.
    pub closed spec fn functions(&self) -> Seq<Function<TI, TO>> {
        self.functions@
    }
}

impl<TI, TO> Mapping<TI, Vec<TO>> for Sequence<TI, TO> {
    open spec fn relates(&self, arg: TI, res: Fallible<Vec<TO>>) -> bool {
        sequence_relates(self.functions(), arg, res)
    }

    fn call(&self, arg: &TI) -> (res: Fallible<Vec<TO>>) {
        let mut out: Vec<TO> = Vec::new();
        let mut i: usize = 0;
        while i < self.functions.len()
            invariant
                i <= self.functions.len(),
                out.len() == i,
                forall|j: int|
                    0 <= j < i ==> (#[trigger] self.functions@[j]).relates(*arg, Ok::<TO, Error>(out@[j])),
            decreases self.functions.len() - i,
        {
            match self.functions[i].eval(arg) {
                Ok(v) => {
                    out.push(v);
                },
                Err(e) => {
                    assert(self.functions@[i as int].relates(*arg, Err::<TO, Error>(e)));
                    return Err(e);
                },
            }
            i = i + 1;
        }
        Ok(out)
    }
}

/// A shared, immutable function from `TI` to `TO` that may fail when invoked.
/// Copies made by combinators refer to the same underlying logic.
#[verifier::reject_recursive_types(TI)]
#[verifier::reject_recursive_types(TO)]
pub struct Function<TI, TO> {
    function: Rc<Box<dyn Mapping<TI, TO>>>,
}

impl<TI, TO> Function<TI, TO> {
    /// Whether an invocation on `arg` may end with `res`.
    pub closed spec fn relates(&self, arg: TI, res: Fallible<TO>) -> bool {
        self.function.relates(arg, res)
    }

    /// Applies the function.
    pub fn eval(&self, arg: &TI) -> (res: Fallible<TO>)
        ensures
            self.relates(*arg, res),
    {
        self.function.call(arg)
    }

    /// Another handle on the same function.
    pub fn share(&self) -> (r: Self)
        ensures
            r == *self,
    {
        Function { function: self.function.clone() }
    }
}

impl<TI: 'static, TO: 'static> Function<TI, TO> {
    /// Wraps a closure that cannot fail.
    pub fn new<F: Fn(&TI) -> TO + 'static>(f: F) -> (r: Self)
        requires
            forall|arg: &TI| call_requires(f, (arg,)),
        ensures
            forall|arg: TI, res: Fallible<TO>| #[trigger]
                r.relates(arg, res) <==> (res matches Ok(v) && call_ensures(f, (&arg,), v)),
    {
        Function { function: Rc::new(Box::new(Infallible { f, _marker: PhantomData })) }
    }

    /// Wraps a closure that may fail.
    pub fn new_fallible<F: Fn(&TI) -> Fallible<TO> + 'static>(f: F) -> (r: Self)
        requires
            forall|arg: &TI| call_requires(f, (arg,)),
        ensures
            forall|arg: TI, res: Fallible<TO>| #[trigger] r.relates(arg, res) <==> call_ensures(f, (&arg,), res),
    {
        Function { function: Rc::new(Box::new(MayFail { f, _marker: PhantomData })) }
    }

    /// The composition `outer ∘ inner`, sharing both functions.
    pub fn make_chain<TX: 'static>(outer: &Function<TX, TO>, inner: &Function<TI, TX>) -> (r: Self)
        ensures
            forall|arg: TI, res: Fallible<TO>| #[trigger] r.relates(arg, res) <==> chained(*outer, *inner, arg, res),
    {
        Function {
            function: Rc::new(Box::new(Composed { outer: outer.share(), inner: inner.share() })),
        }
    }
}

impl<TI: 'static, TO: 'static> Function<TI, Vec<TO>> {
    /// The function that runs `functions` in order on one argument and lists their results.
    pub fn make_sequence(functions: Vec<Function<TI, TO>>) -> (r: Self)
        ensures
            forall|arg: TI, res: Fallible<Vec<TO>>| #[trigger]
                r.relates(arg, res) <==> sequence_relates(functions@, arg, res),
    {
        Function { function: Rc::new(Box::new(Sequence { functions })) }
    }
}

impl<TI, TO> Clone for Function<TI, TO> {
    fn clone(&self) -> (r: Self)
        ensures
            r == *self,
    {
        self.share()
    }
}

} // verus!
