//! Randomized response: what is answered once the coin and the lie are drawn.
//!
//! The respondent answers with the truth when the coin says so and the truth
//! is one of the categories; otherwise with a lie, drawn uniformly among the
//! categories other than the truth. The draws come from outside; the answer
//! is decided here, for every outcome of the draws.
use crate::error::{fails_with, Error, ErrorVariant, Fallible};
use crate::ffi::any::Scalar;
use crate::measures::MaxDivergence;
use crate::metrics::{DiscreteDistance, IntDistance};
use crate::objects::maps::{monotone, DistanceMap, PrivacyMap};
use crate::traits::Number;
use vstd::prelude::*;

verus! {

/// The answer to a yes-or-no question: the truth when honest, its opposite otherwise.
pub open spec fn spec_respond_bool(truth: bool, be_honest: bool) -> bool {
    if be_honest {
        truth
    } else {
        !truth
    }
}

/// Answers a yes-or-no question, given the outcome of the coin.
pub fn respond_bool(truth: bool, be_honest: bool) -> (answer: bool)
    ensures
        answer == spec_respond_bool(truth, be_honest),
{
    truth ^ !be_honest
}

/// The first position of `truth` among `categories`, if it is one of them.
pub open spec fn spec_position(categories: Seq<Scalar>, truth: Scalar) -> Option<int>
    decreases categories.len(),
{
    if categories.len() == 0 {
        None
    } else {
        match spec_position(categories.drop_last(), truth) {
            Some(i) => Some(i),
            None => if categories.last()@ == truth@ {
                Some(categories.len() - 1)
            } else {
                None
            },
        }
    }
}

/// A position that is found holds the truth, and no category is the truth when none is found.
pub proof fn lemma_position(categories: Seq<Scalar>, truth: Scalar)
    ensures
        match spec_position(categories, truth) {
            Some(i) => 0 <= i < categories.len() && categories[i]@ == truth@ && forall|j: int|
                0 <= j < i ==> (#[trigger] categories[j])@ != truth@,
            None => forall|j: int| 0 <= j < categories.len() ==> (#[trigger] categories[j])@ != truth@,
        },
    decreases categories.len(),
{
    if categories.len() > 0 {
        lemma_position(categories.drop_last(), truth);
        assert forall|j: int| 0 <= j < categories.len() - 1 implies categories.drop_last()[j] == categories[j] by {}
    }
}

/// Finds the truth among the categories.
pub fn position(categories: &Vec<Scalar>, truth: &Scalar) -> (r: Option<usize>)
    ensures
        match r {
            Some(i) => spec_position(categories@, *truth) == Some(i as int),
            None => spec_position(categories@, *truth).is_none(),
        },
{
    let mut i: usize = 0;
    proof {
        assert(categories@.subrange(0, 0) =~= Seq::<Scalar>::empty());
    }
    while i < categories.len()
        invariant
            i <= categories.len(),
            spec_position(categories@.subrange(0, i as int), *truth).is_none(),
        decreases categories.len() - i,
    {
        proof {
            let next = categories@.subrange(0, i + 1);
            assert(next.drop_last() =~= categories@.subrange(0, i as int));
            assert(next.last() == categories@[i as int]);
        }
        if categories[i].same(truth) {
            proof {
                lemma_position_found(categories@, *truth, i + 1);
            }
            return Some(i);
        }
        i = i + 1;
    }
    assert(categories@.subrange(0, i as int) =~= categories@);
    None
}

/// A position found among the first `n` categories is the position among all.
proof fn lemma_position_found(categories: Seq<Scalar>, truth: Scalar, n: int)
    requires
        0 <= n <= categories.len(),
        spec_position(categories.subrange(0, n), truth).is_some(),
    ensures
        spec_position(categories, truth) == spec_position(categories.subrange(0, n), truth),
    decreases categories.len() - n,
{
    if n == categories.len() {
        assert(categories.subrange(0, n) =~= categories);
    } else {
        let longer = categories.subrange(0, n + 1);
        assert(longer.drop_last() =~= categories.subrange(0, n));
        lemma_position_found(categories, truth, n + 1);
    }
}

/// The position of the answer among the categories. `index` is the position
/// of the truth, if it is a category; `sample` is the draw of the lie, below
/// the number of categories other than the truth. The draw skips the truth:
/// from the position of the truth on it stands for the next category.
pub open spec fn spec_response_index(index: Option<int>, sample: int, be_honest: bool) -> int {
    match index {
        Some(i) => if be_honest {
            i
        } else if sample >= i {
            sample + 1
        } else {
            sample
        },
        None => sample,
    }
}

/// Decides the position of the answer among `count` categories.
pub fn response_index(count: usize, index: Option<usize>, sample: usize, be_honest: bool) -> (r: usize)
    requires
        match index {
            Some(i) => i < count && sample < count - 1,
            None => sample < count,
        },
    ensures
        r < count,
        r == spec_response_index(
            match index {
                Some(i) => Some(i as int),
                None => None,
            },
            sample as int,
            be_honest,
        ),
        index matches Some(i) ==> (be_honest <==> r == i),
{
    match index {
        Some(i) => {
            if be_honest {
                i
            } else if sample >= i {
                sample + 1
            } else {
                sample
            }
        },
        None => sample,
    }
}

/// The number of draws that the lie is sampled from: every category but the truth.
pub fn lies(categories: &Vec<Scalar>, truth: &Scalar) -> (r: usize)
    ensures
        r == categories.len() - (if spec_position(categories@, *truth).is_some() {
            1int
        } else {
            0int
        }),
{
    proof {
        lemma_position(categories@, *truth);
    }
    match position(categories, truth) {
        Some(_) => categories.len() - 1,
        None => categories.len(),
    }
}

/// What is answered: the truth when the coin says so and the truth is a
/// category, and else the lie that the draw stands for, which is never the truth.
pub open spec fn is_response(
    answer: Scalar,
    categories: Seq<Scalar>,
    truth: Scalar,
    sample: int,
    be_honest: bool,
) -> bool {
    let index = spec_position(categories, truth);
    let place = spec_response_index(index, sample, be_honest);
    &&& 0 <= place < categories.len()
    &&& answer@ == categories[place]@
    &&& be_honest && index.is_some() ==> answer@ == truth@
    &&& !be_honest && index.is_some() ==> place != index.unwrap()
}

/// Answers a question with the categories `categories`, given the draw of
/// the lie and the outcome of the coin. Fails with `FailedFunction` exactly
/// when the draw is not below the number of lies.
pub fn respond(categories: &Vec<Scalar>, truth: &Scalar, sample: usize, be_honest: bool) -> (r: Fallible<Scalar>)
    ensures
        match r {
            Ok(answer) => is_response(answer, categories@, *truth, sample as int, be_honest),
            Err(e) => e.variant == ErrorVariant::FailedFunction && sample >= categories.len() - (if spec_position(
                categories@,
                *truth,
            ).is_some() {
                1int
            } else {
                0int
            }),
        },
{
    proof {
        lemma_position(categories@, *truth);
    }
    let index = position(categories, truth);
    let draws = match index {
        Some(_) => categories.len() - 1,
        None => categories.len(),
    };
    if sample >= draws {
        return Err(Error::with_message(ErrorVariant::FailedFunction, "the draw is not below the number of lies"));
    }
    let place = response_index(categories.len(), index, sample, be_honest);
    Ok(categories[place].duplicate())
}

/// Randomized response needs at least two categories: building the
/// measurement fails with `MakeMeasurement` exactly when there are fewer.
pub fn check_categories(count: usize) -> (r: Fallible<()>)
    ensures
        count >= 2 ==> r is Ok,
        count < 2 ==> fails_with(r, ErrorVariant::MakeMeasurement),
{
    if count < 2 {
        return Err(Error::with_message(ErrorVariant::MakeMeasurement, "length of categories must be at least two"));
    }
    Ok(())
}

/// The loss of randomized response on inputs `d_in` apart: nothing where the
/// inputs are equal, and else the constant of the mechanism.
pub open spec fn response_loss<QO>(d_in: IntDistance, zero: QO, privacy_constant: QO) -> QO {
    if d_in == 0 {
        zero
    } else {
        privacy_constant
    }
}

/// The privacy map of randomized response with the loss `privacy_constant`
/// between different inputs; `zero` is the loss between equal inputs.
pub fn make_response_map<QO: Copy + 'static>(zero: QO, privacy_constant: QO) -> (r: PrivacyMap<
    DiscreteDistance,
    MaxDivergence<QO>,
>)
    ensures
        forall|d_in: IntDistance| #[trigger]
            r.image(d_in) == Ok::<QO, ErrorVariant>(response_loss(d_in, zero, privacy_constant)),
{
    let ghost model = |d_in: IntDistance| Ok::<QO, ErrorVariant>(response_loss(d_in, zero, privacy_constant));
    let loss = move |d_in: &IntDistance| -> (res: Fallible<QO>)
        ensures
            res == Ok::<QO, Error>(response_loss(*d_in, zero, privacy_constant)),
        {
            if *d_in == 0 {
                Ok(zero)
            } else {
                Ok(privacy_constant)
            }
        };
    PrivacyMap { map: DistanceMap::with_model(loss, Ghost(model)) }
}

/// The privacy map of randomized response is monotone when its constant is not negative.
pub proof fn lemma_response_monotone<QO: Number>(zero: QO, privacy_constant: QO)
    requires
        zero.value() <= privacy_constant.value(),
    ensures
        monotone(|d_in: IntDistance| Ok::<QO, ErrorVariant>(response_loss(d_in, zero, privacy_constant))),
{
}

} // verus!
