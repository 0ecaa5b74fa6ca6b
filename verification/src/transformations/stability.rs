//! Why the stability maps of the sums hold: datasets that are close in
//! symmetric distance have sums that are close in absolute distance.
use crate::domains::{AllDomain, BoundedDomain, SizedDomain, VectorDomain};
use crate::combinators::chain::{is_chain_tt, lemma_chain_tt_stable, stable};
use crate::error::{Error, ErrorVariant, Fallible};
use crate::metrics::{AbsoluteDistance, IntDistance, SymmetricDistance};
use crate::objects::space::Domain;
use crate::objects::units::Transformation;
use crate::traits::{abs_int, clamp_int, Number};
use crate::transformations::clamp::{is_clamp, is_clamped};
use crate::transformations::sum::{
    half, is_bounded_sum, is_sized_bounded_sum, negative_part, positive_part, same_sign, saturating_fold, split_sum,
    sum_constant,
};
use vstd::multiset::Multiset;
use vstd::prelude::*;

verus! {

/// The symmetric distance between two datasets: the number of records that
/// must be removed from one and added to it to obtain the other, whatever
/// the order of the records.
pub open spec fn symmetric_distance<T>(a: Seq<T>, b: Seq<T>) -> nat {
    a.to_multiset().sub(b.to_multiset()).len() + b.to_multiset().sub(a.to_multiset()).len()
}

/// Whether every record of `s` has a magnitude of at most `c`.
pub open spec fn all_within<T: Number>(s: Seq<T>, c: int) -> bool {
    forall|i: int| 0 <= i < s.len() ==> abs_int((#[trigger] s[i]).value()) <= c
}

/// What a record adds to the sum of the negative records.
pub open spec fn negative_share(v: int) -> int {
    if v < 0 {
        v
    } else {
        0
    }
}

/// What a record adds to the sum of the positive records.
pub open spec fn positive_share(v: int) -> int {
    if v > 0 {
        v
    } else {
        0
    }
}

/// Removing a record takes its share out of both partial sums.
pub proof fn lemma_parts_remove<T: Number>(s: Seq<T>, i: int)
    requires
        0 <= i < s.len(),
    ensures
        negative_part(s) == negative_part(s.remove(i)) + negative_share(s[i].value()),
        positive_part(s) == positive_part(s.remove(i)) + positive_share(s[i].value()),
    decreases s.len(),
{
    if i == s.len() - 1 {
        assert(s.remove(i) =~= s.drop_last());
    } else {
        lemma_parts_remove(s.drop_last(), i);
        assert(s.remove(i).drop_last() =~= s.drop_last().remove(i));
        assert(s.remove(i).last() == s.last());
        assert(s.drop_last()[i] == s[i]);
    }
}

/// The partial sums of a dataset are bounded by its size.
pub proof fn lemma_parts_bounded<T: Number>(s: Seq<T>, c: int)
    requires
        all_within(s, c),
        c >= 0,
    ensures
        negative_part(s) <= 0 <= positive_part(s),
        positive_part(s) - negative_part(s) <= s.len() * c,
    decreases s.len(),
{
    if s.len() == 0 {
        assert(s.len() * c == 0) by (nonlinear_arith)
            requires
                s.len() == 0,
        ;
    } else {
        assert forall|i: int| 0 <= i < s.drop_last().len() implies abs_int((#[trigger] s.drop_last()[i]).value())
            <= c by {
            assert(s.drop_last()[i] == s[i]);
        }
        lemma_parts_bounded(s.drop_last(), c);
        assert(abs_int(s[s.len() - 1].value()) <= c);
        assert(s.len() * c == (s.len() - 1) * c + c) by (nonlinear_arith);
    }
}

/// The distance from the empty dataset is the size of the dataset.
pub proof fn lemma_distance_from_empty<T>(b: Seq<T>)
    ensures
        symmetric_distance(Seq::<T>::empty(), b) == b.len(),
{
    broadcast use vstd::multiset::group_multiset_axioms;
    broadcast use vstd::seq_lib::group_to_multiset_ensures;

    let e = Seq::<T>::empty().to_multiset();
    let m = b.to_multiset();
    assert(e =~= Multiset::<T>::empty());
    assert(e.sub(m) =~= Multiset::<T>::empty());
    assert(m.sub(e) =~= m);
}

/// Taking a record that both datasets hold out of both leaves their distance unchanged.
pub proof fn lemma_distance_common<T>(a: Seq<T>, b: Seq<T>, j: int)
    requires
        a.len() > 0,
        0 <= j < b.len(),
        b[j] == a.last(),
    ensures
        symmetric_distance(a.drop_last(), b.remove(j)) == symmetric_distance(a, b),
{
    broadcast use vstd::multiset::group_multiset_axioms;
    broadcast use vstd::seq_lib::group_to_multiset_ensures;

    let x = a.last();
    let ma = a.to_multiset();
    let mb = b.to_multiset();
    let ma1 = a.drop_last().to_multiset();
    let mb1 = b.remove(j).to_multiset();
    assert(a =~= a.drop_last().push(x));
    vstd::seq_lib::to_multiset_build(a.drop_last(), x);
    vstd::seq_lib::to_multiset_remove(b, j);
    vstd::seq_lib::to_multiset_contains(b, x);
    assert(b.contains(x));
    assert(ma =~= ma1.insert(x));
    assert(mb1 =~= mb.remove(x));
    assert(ma1.sub(mb1) =~= ma.sub(mb));
    assert(mb1.sub(ma1) =~= mb.sub(ma));
}

/// Taking a record that only the first dataset holds out of it brings the datasets one step closer.
pub proof fn lemma_distance_extra<T>(a: Seq<T>, b: Seq<T>)
    requires
        a.len() > 0,
        !b.contains(a.last()),
    ensures
        symmetric_distance(a.drop_last(), b) + 1 == symmetric_distance(a, b),
{
    broadcast use vstd::multiset::group_multiset_axioms;
    broadcast use vstd::seq_lib::group_to_multiset_ensures;

    let x = a.last();
    let ma = a.to_multiset();
    let mb = b.to_multiset();
    let ma1 = a.drop_last().to_multiset();
    assert(a =~= a.drop_last().push(x));
    vstd::seq_lib::to_multiset_build(a.drop_last(), x);
    vstd::seq_lib::to_multiset_contains(b, x);
    assert(mb.count(x) == 0);
    assert(ma =~= ma1.insert(x));
    assert(ma.sub(mb) =~= ma1.sub(mb).insert(x));
    assert(mb.sub(ma) =~= mb.sub(ma1));
}

/// The partial sums of two datasets differ, together, by at most the
/// symmetric distance of the datasets times the greatest magnitude of a record.
pub proof fn lemma_parts_stable<T: Number>(a: Seq<T>, b: Seq<T>, c: int)
    requires
        all_within(a, c),
        all_within(b, c),
        c >= 0,
    ensures
        abs_int(negative_part(a) - negative_part(b)) + abs_int(positive_part(a) - positive_part(b))
            <= symmetric_distance(a, b) * c,
    decreases a.len(),
{
    if a.len() == 0 {
        assert(a =~= Seq::<T>::empty());
        lemma_distance_from_empty(b);
        lemma_parts_bounded(b, c);
        assert(symmetric_distance(a, b) == b.len());
    } else {
        let x = a.last();
        let shorter = a.drop_last();
        assert forall|i: int| 0 <= i < shorter.len() implies abs_int((#[trigger] shorter[i]).value()) <= c by {
            assert(shorter[i] == a[i]);
        }
        assert(abs_int(a[a.len() - 1].value()) <= c);
        if b.contains(x) {
            let j = choose|j: int| 0 <= j < b.len() && b[j] == x;
            let rest = b.remove(j);
            assert forall|i: int| 0 <= i < rest.len() implies abs_int((#[trigger] rest[i]).value()) <= c by {
                if i < j {
                    assert(rest[i] == b[i]);
                } else {
                    assert(rest[i] == b[i + 1]);
                }
            }
            lemma_parts_remove(b, j);
            lemma_distance_common(a, b, j);
            lemma_parts_stable(shorter, rest, c);
            assert(negative_part(a) == negative_part(shorter) + negative_share(x.value()));
            assert(positive_part(a) == positive_part(shorter) + positive_share(x.value()));
            assert(negative_part(a) - negative_part(b) == negative_part(shorter) - negative_part(rest));
            assert(positive_part(a) - positive_part(b) == positive_part(shorter) - positive_part(rest));
            assert(symmetric_distance(shorter, rest) == symmetric_distance(a, b));
        } else {
            lemma_distance_extra(a, b);
            lemma_parts_stable(shorter, b, c);
            let d = symmetric_distance(shorter, b);
            assert(symmetric_distance(a, b) == d + 1);
            assert((d + 1) * c == d * c + c) by (nonlinear_arith);
            assert(negative_part(a) == negative_part(shorter) + negative_share(x.value()));
            assert(positive_part(a) == positive_part(shorter) + positive_share(x.value()));
            assert(abs_int(negative_share(x.value())) + abs_int(positive_share(x.value())) <= c);
        }
    }
}

/// Where no record lies on the other side of zero than the bounds, adding
/// with saturation gives the exact sum brought into the range of `T`.
pub proof fn lemma_fold_is_clamped_sum<T: Number>(s: Seq<T>)
    requires
        (forall|i: int| 0 <= i < s.len() ==> (#[trigger] s[i]).value() >= 0) || (forall|i: int|
            0 <= i < s.len() ==> (#[trigger] s[i]).value() <= 0),
    ensures
        saturating_fold(s) == clamp_int(negative_part(s) + positive_part(s), T::lowest(), T::highest()),
        (forall|i: int| 0 <= i < s.len() ==> (#[trigger] s[i]).value() >= 0) ==> negative_part(s) == 0,
        (forall|i: int| 0 <= i < s.len() ==> (#[trigger] s[i]).value() <= 0) ==> positive_part(s) == 0,
        negative_part(s) <= 0 <= positive_part(s),
    decreases s.len(),
{
    T::lemma_number(T::from_value(0), 0);
    if s.len() > 0 {
        let shorter = s.drop_last();
        assert forall|i: int| 0 <= i < shorter.len() implies shorter[i] == s[i] by {}
        assert(s.last() == s[s.len() - 1]);
        lemma_fold_is_clamped_sum(shorter);
    }
}

/// The sum with saturation on each side of zero moves by no more than the partial sums do.
pub proof fn lemma_split_sum_follows_parts<T: Number>(a: Seq<T>, b: Seq<T>)
    ensures
        abs_int(split_sum(a) - split_sum(b)) <= abs_int(negative_part(a) - negative_part(b)) + abs_int(
            positive_part(a) - positive_part(b),
        ),
{
}

/// The sum of the negative and the positive records with saturation on
/// each side: datasets of records of magnitude at most `c` that are `d` apart
/// in symmetric distance have sums that are at most `d * c` apart.
pub proof fn lemma_split_sum_stable<T: Number>(a: Seq<T>, b: Seq<T>, c: int)
    requires
        all_within(a, c),
        all_within(b, c),
        c >= 0,
    ensures
        abs_int(split_sum(a) - split_sum(b)) <= symmetric_distance(a, b) * c,
{
    lemma_parts_stable(a, b, c);
    lemma_split_sum_follows_parts(a, b);
}

/// The sum with saturation of records that share a sign: datasets of
/// records of magnitude at most `c` that are `d` apart in symmetric distance
/// have sums that are at most `d * c` apart.
pub proof fn lemma_monotonic_sum_stable<T: Number>(a: Seq<T>, b: Seq<T>, c: int, positive: bool)
    requires
        all_within(a, c),
        all_within(b, c),
        c >= 0,
        positive ==> (forall|i: int| 0 <= i < a.len() ==> (#[trigger] a[i]).value() >= 0) && (forall|i: int|
            0 <= i < b.len() ==> (#[trigger] b[i]).value() >= 0),
        !positive ==> (forall|i: int| 0 <= i < a.len() ==> (#[trigger] a[i]).value() <= 0) && (forall|i: int|
            0 <= i < b.len() ==> (#[trigger] b[i]).value() <= 0),
    ensures
        abs_int(saturating_fold(a) - saturating_fold(b)) <= symmetric_distance(a, b) * c,
{
    lemma_fold_is_clamped_sum(a);
    lemma_fold_is_clamped_sum(b);
    lemma_parts_stable(a, b, c);
    T::lemma_number(T::from_value(0), 0);
    let sa = negative_part(a) + positive_part(a);
    let sb = negative_part(b) + positive_part(b);
    assert(abs_int(sa - sb) <= abs_int(negative_part(a) - negative_part(b)) + abs_int(
        positive_part(a) - positive_part(b),
    ));
    assert(abs_int(clamp_int(sa, T::lowest(), T::highest()) - clamp_int(sb, T::lowest(), T::highest())) <= abs_int(
        sa - sb,
    ));
}

/// The records that one dataset holds beyond another and the records that
/// the other holds beyond the one differ in number as the datasets differ in size.
pub proof fn lemma_excess<T>(a: Seq<T>, b: Seq<T>)
    ensures
        a.to_multiset().sub(b.to_multiset()).len() + b.len() == b.to_multiset().sub(a.to_multiset()).len() + a.len(),
{
    broadcast use vstd::multiset::group_multiset_axioms;
    broadcast use vstd::seq_lib::group_to_multiset_ensures;

    let ma = a.to_multiset();
    let mb = b.to_multiset();
    assert(ma.sub(mb).add(mb) =~= mb.sub(ma).add(ma));
    vstd::seq_lib::to_multiset_len(a);
    vstd::seq_lib::to_multiset_len(b);
    vstd::multiset::axiom_len_add(ma.sub(mb), mb);
    vstd::multiset::axiom_len_add(mb.sub(ma), ma);
    assert(ma.sub(mb).add(mb).len() == ma.sub(mb).len() + mb.len());
    assert(mb.sub(ma).add(ma).len() == mb.sub(ma).len() + ma.len());
    assert(ma.len() == a.len());
    assert(mb.len() == b.len());
}

/// Taking a record that only the first dataset holds out of it, and a
/// record of which the second holds more out of the second, brings the
/// datasets two steps closer.
pub proof fn lemma_distance_swap<T>(a: Seq<T>, b: Seq<T>, j: int)
    requires
        a.len() > 0,
        !b.contains(a.last()),
        0 <= j < b.len(),
        b.to_multiset().count(b[j]) > a.to_multiset().count(b[j]),
    ensures
        a.drop_last().to_multiset().sub(b.remove(j).to_multiset()).len() + 1 == a.to_multiset().sub(
            b.to_multiset(),
        ).len(),
        b.remove(j).to_multiset().sub(a.drop_last().to_multiset()).len() + 1 == b.to_multiset().sub(
            a.to_multiset(),
        ).len(),
{
    broadcast use vstd::multiset::group_multiset_axioms;
    broadcast use vstd::seq_lib::group_to_multiset_ensures;

    let x = a.last();
    let y = b[j];
    let ma = a.to_multiset();
    let mb = b.to_multiset();
    let ma1 = a.drop_last().to_multiset();
    let mb1 = b.remove(j).to_multiset();
    assert(a =~= a.drop_last().push(x));
    vstd::seq_lib::to_multiset_build(a.drop_last(), x);
    vstd::seq_lib::to_multiset_remove(b, j);
    vstd::seq_lib::to_multiset_contains(b, x);
    assert(mb.count(x) == 0);
    assert(x != y);
    assert(ma =~= ma1.insert(x));
    assert(mb1 =~= mb.remove(y));
    assert(ma.sub(mb) =~= ma1.sub(mb1).insert(x));
    assert(mb.sub(ma) =~= mb1.sub(ma1).insert(y));
}

/// The number of records that the first dataset holds beyond the second.
pub open spec fn excess<T>(a: Seq<T>, b: Seq<T>) -> nat {
    a.to_multiset().sub(b.to_multiset()).len()
}

/// Datasets of one size are an even number of steps apart: half of the
/// steps remove records and half add them. The partial sums of the datasets
/// differ, together, by at most the number of records exchanged times the
/// width of the bounds.
pub proof fn lemma_parts_stable_sized<T: Number>(a: Seq<T>, b: Seq<T>, lower: int, upper: int)
    requires
        a.len() == b.len(),
        forall|i: int| 0 <= i < a.len() ==> lower <= (#[trigger] a[i]).value() <= upper,
        forall|i: int| 0 <= i < b.len() ==> lower <= (#[trigger] b[i]).value() <= upper,
    ensures
        symmetric_distance(a, b) == 2 * excess(a, b),
        abs_int(negative_part(a) - negative_part(b)) + abs_int(positive_part(a) - positive_part(b)) <= excess(a, b)
            * (upper - lower),
    decreases a.len(),
{
    lemma_excess(a, b);
    if a.len() == 0 {
        assert(a =~= Seq::<T>::empty());
        assert(b =~= Seq::<T>::empty());
        lemma_distance_from_empty(b);
        assert(excess(a, b) * (upper - lower) == 0) by (nonlinear_arith)
            requires
                excess(a, b) == 0,
        ;
    } else {
        let x = a.last();
        let shorter = a.drop_last();
        assert forall|i: int| 0 <= i < shorter.len() implies lower <= (#[trigger] shorter[i]).value() <= upper by {
            assert(shorter[i] == a[i]);
        }
        assert(lower <= a[a.len() - 1].value() <= upper);
        assert(negative_part(a) == negative_part(shorter) + negative_share(x.value()));
        assert(positive_part(a) == positive_part(shorter) + positive_share(x.value()));
        let j = if b.contains(x) {
            choose|j: int| 0 <= j < b.len() && b[j] == x
        } else {
            let y = b.to_multiset().sub(a.to_multiset()).choose();
            assert(b.to_multiset().sub(a.to_multiset()).len() > 0) by {
                broadcast use vstd::multiset::group_multiset_axioms;
                broadcast use vstd::seq_lib::group_to_multiset_ensures;

                vstd::seq_lib::to_multiset_contains(b, x);
                vstd::seq_lib::to_multiset_contains(a, x);
                assert(a.contains(x)) by {
                    assert(a[a.len() - 1] == x);
                }
                assert(a.to_multiset().sub(b.to_multiset()).count(x) > 0);
                vstd::multiset::axiom_count_le_len(a.to_multiset().sub(b.to_multiset()), x);
            }
            assert(b.to_multiset().count(y) > a.to_multiset().count(y)) by {
                broadcast use vstd::multiset::group_multiset_axioms;

                vstd::multiset::axiom_choose_count(b.to_multiset().sub(a.to_multiset()));
            }
            vstd::seq_lib::to_multiset_contains(b, y);
            choose|j: int| 0 <= j < b.len() && b[j] == y
        };
        let rest = b.remove(j);
        assert forall|i: int| 0 <= i < rest.len() implies lower <= (#[trigger] rest[i]).value() <= upper by {
            if i < j {
                assert(rest[i] == b[i]);
            } else {
                assert(rest[i] == b[i + 1]);
            }
        }
        lemma_parts_remove(b, j);
        lemma_parts_stable_sized(shorter, rest, lower, upper);
        let k = excess(shorter, rest);
        if b.contains(x) {
            lemma_distance_common(a, b, j);
            lemma_excess(shorter, rest);
            assert(excess(a, b) == k);
        } else {
            lemma_distance_swap(a, b, j);
            assert(excess(a, b) == k + 1);
            assert((k + 1) * (upper - lower) == k * (upper - lower) + (upper - lower)) by (nonlinear_arith);
            let y = b[j].value();
            assert(lower <= y <= upper);
            assert(abs_int(negative_share(x.value()) - negative_share(y)) + abs_int(
                positive_share(x.value()) - positive_share(y),
            ) <= upper - lower);
        }
    }
}

/// The distance between two datasets grows by at most one when a record is added to one of them.
pub proof fn lemma_distance_push<T>(s: Seq<T>, t: Seq<T>, y: T)
    ensures
        symmetric_distance(s.push(y), t) <= symmetric_distance(s, t) + 1,
{
    broadcast use vstd::multiset::group_multiset_axioms;
    broadcast use vstd::seq_lib::group_to_multiset_ensures;

    let ms = s.to_multiset();
    let mt = t.to_multiset();
    let ms1 = s.push(y).to_multiset();
    vstd::seq_lib::to_multiset_build(s, y);
    assert(ms1 =~= ms.insert(y));
    if mt.count(y) > ms.count(y) {
        assert(ms1.sub(mt) =~= ms.sub(mt));
        assert(mt.sub(ms) =~= mt.sub(ms1).insert(y));
    } else {
        assert(ms1.sub(mt) =~= ms.sub(mt).insert(y));
        assert(mt.sub(ms1) =~= mt.sub(ms));
    }
}

/// Applying one function to every record of two datasets brings them no further apart.
pub proof fn lemma_map_stable<T>(a: Seq<T>, b: Seq<T>, g: spec_fn(T) -> T)
    ensures
        symmetric_distance(a.map_values(g), b.map_values(g)) <= symmetric_distance(a, b),
    decreases a.len(),
{
    let ga = a.map_values(g);
    let gb = b.map_values(g);
    if a.len() == 0 {
        assert(a =~= Seq::<T>::empty());
        assert(ga =~= Seq::<T>::empty());
        lemma_distance_from_empty(b);
        lemma_distance_from_empty(gb);
    } else {
        let x = a.last();
        let shorter = a.drop_last();
        assert(ga.drop_last() =~= shorter.map_values(g));
        assert(ga.last() == g(x));
        if b.contains(x) {
            let j = choose|j: int| 0 <= j < b.len() && b[j] == x;
            assert(gb[j] == g(x));
            assert(gb.remove(j) =~= b.remove(j).map_values(g));
            lemma_distance_common(a, b, j);
            lemma_distance_common(ga, gb, j);
            lemma_map_stable(shorter, b.remove(j), g);
        } else {
            lemma_distance_extra(a, b);
            lemma_map_stable(shorter, b, g);
            assert(ga =~= shorter.map_values(g).push(g(x)));
            lemma_distance_push(shorter.map_values(g), gb, g(x));
        }
    }
}

/// The total that a sum over bounded data computes: the plain saturating sum
/// where the data share a sign, and else the sum with saturation on each side of zero.
pub open spec fn total_of<T: Number>(monotonic: bool) -> spec_fn(Seq<T>) -> int {
    if monotonic {
        |s: Seq<T>| saturating_fold(s)
    } else {
        |s: Seq<T>| split_sum(s)
    }
}

/// The stability guarantee of the sums over bounded data: on two members
/// of the input domain that are at most `d_in` apart in symmetric distance,
/// the sums are at most as far apart as the stability map says for `d_in`.
pub proof fn lemma_bounded_sum_guarantee<T: Number>(
    t: Transformation<VectorDomain<BoundedDomain<T>>, AllDomain<T>, SymmetricDistance, AbsoluteDistance<T>>,
    bounds: (T, T),
    monotonic: bool,
    a: Vec<T>,
    b: Vec<T>,
    ra: Fallible<T>,
    rb: Fallible<T>,
    d_in: IntDistance,
    d_out: T,
)
    requires
        is_bounded_sum(t, bounds, total_of::<T>(monotonic)),
        monotonic ==> same_sign(bounds.0.value(), bounds.1.value()),
        bounds.0.value() <= bounds.1.value(),
        abs_int(bounds.0.value()) <= T::highest(),
        t.input_domain().contains(a),
        t.input_domain().contains(b),
        symmetric_distance(a@, b@) <= d_in,
        t.function().relates(a, ra),
        t.function().relates(b, rb),
        t.stability_map().image(d_in) == Ok::<T, ErrorVariant>(d_out),
    ensures
        ra matches Ok(x) && rb matches Ok(y) && abs_int(x.value() - y.value()) <= d_out.value(),
{
    let lower = bounds.0.value();
    let upper = bounds.1.value();
    let c = sum_constant(bounds);
    T::lemma_number(bounds.0, c);
    T::lemma_number(bounds.1, d_in * c);
    assert(d_out.value() == d_in * c);
    assert forall|i: int| 0 <= i < a@.len() implies lower <= (#[trigger] a@[i]).value() <= upper by {
        assert(t.input_domain().element_domain.contains(a[i]));
    }
    assert forall|i: int| 0 <= i < b@.len() implies lower <= (#[trigger] b@[i]).value() <= upper by {
        assert(t.input_domain().element_domain.contains(b[i]));
    }
    assert(all_within(a@, c));
    assert(all_within(b@, c));
    let d = symmetric_distance(a@, b@);
    assert(d * c <= d_in * c) by (nonlinear_arith)
        requires
            d <= d_in,
            c >= 0,
    ;
    if monotonic {
        lemma_monotonic_sum_stable(a@, b@, c, lower >= 0);
    } else {
        lemma_split_sum_stable(a@, b@, c);
    }
}

/// The stability guarantee of the sums over bounded data of known size: on
/// two members of the input domain that are at most `d_in` apart in symmetric
/// distance, the sums are at most as far apart as the stability map says for `d_in`.
pub proof fn lemma_sized_bounded_sum_guarantee<T: Number>(
    t: Transformation<
        SizedDomain<VectorDomain<BoundedDomain<T>>>,
        AllDomain<T>,
        SymmetricDistance,
        AbsoluteDistance<T>,
    >,
    size: usize,
    bounds: (T, T),
    monotonic: bool,
    a: Vec<T>,
    b: Vec<T>,
    ra: Fallible<T>,
    rb: Fallible<T>,
    d_in: IntDistance,
    d_out: T,
)
    requires
        is_sized_bounded_sum(t, size, bounds, total_of::<T>(monotonic)),
        monotonic ==> same_sign(bounds.0.value(), bounds.1.value()),
        bounds.0.value() <= bounds.1.value(),
        bounds.1.value() - bounds.0.value() <= T::highest(),
        t.input_domain().contains(a),
        t.input_domain().contains(b),
        symmetric_distance(a@, b@) <= d_in,
        t.function().relates(a, ra),
        t.function().relates(b, rb),
        t.stability_map().image(d_in) == Ok::<T, ErrorVariant>(d_out),
    ensures
        ra matches Ok(x) && rb matches Ok(y) && abs_int(x.value() - y.value()) <= d_out.value(),
{
    let lower = bounds.0.value();
    let upper = bounds.1.value();
    let width = upper - lower;
    T::lemma_number(bounds.0, width);
    T::lemma_number(bounds.1, half(d_in) * width);
    assert(d_out.value() == half(d_in) * width);
    assert forall|i: int| 0 <= i < a@.len() implies lower <= (#[trigger] a@[i]).value() <= upper by {
        assert(t.input_domain().element_domain.element_domain.contains(a[i]));
    }
    assert forall|i: int| 0 <= i < b@.len() implies lower <= (#[trigger] b@[i]).value() <= upper by {
        assert(t.input_domain().element_domain.element_domain.contains(b[i]));
    }
    lemma_parts_stable_sized(a@, b@, lower, upper);
    let k = excess(a@, b@);
    assert(k <= half(d_in));
    assert(k * width <= half(d_in) * width) by (nonlinear_arith)
        requires
            k <= half(d_in),
            width >= 0,
    ;
    if monotonic {
        T::lemma_number(T::from_value(0), 0);
        lemma_fold_is_clamped_sum(a@);
        lemma_fold_is_clamped_sum(b@);
        let sa = negative_part(a@) + positive_part(a@);
        let sb = negative_part(b@) + positive_part(b@);
        assert(abs_int(clamp_int(sa, T::lowest(), T::highest()) - clamp_int(sb, T::lowest(), T::highest()))
            <= abs_int(sa - sb));
    } else {
        lemma_split_sum_follows_parts(a@, b@);
    }
}

/// The stability guarantee of clamping: on two datasets that are at most
/// `d_in` apart in symmetric distance, the clamped datasets are at most as
/// far apart as the stability map says for `d_in`.
pub proof fn lemma_clamp_guarantee<T: Number>(
    t: Transformation<
        VectorDomain<AllDomain<T>>,
        VectorDomain<BoundedDomain<T>>,
        SymmetricDistance,
        SymmetricDistance,
    >,
    bounds: (T, T),
    a: Vec<T>,
    b: Vec<T>,
    ra: Fallible<Vec<T>>,
    rb: Fallible<Vec<T>>,
    d_in: IntDistance,
    d_out: IntDistance,
)
    requires
        is_clamp(t, bounds),
        bounds.0.value() <= bounds.1.value(),
        symmetric_distance(a@, b@) <= d_in,
        t.function().relates(a, ra),
        t.function().relates(b, rb),
        t.stability_map().image(d_in) == Ok::<IntDistance, ErrorVariant>(d_out),
    ensures
        ra matches Ok(x) && rb matches Ok(y) && symmetric_distance(x@, y@) <= d_out,
        ra matches Ok(x) && t.output_domain().contains(x),
{
    let g = |v: T| T::from_value(clamp_int(v.value(), bounds.0.value(), bounds.1.value()));
    let x = ra.unwrap();
    let y = rb.unwrap();
    assert(is_clamped(x@, a@, bounds.0, bounds.1));
    assert(is_clamped(y@, b@, bounds.0, bounds.1));
    assert forall|i: int| 0 <= i < x@.len() implies #[trigger] x@[i] == g(a@[i]) by {
        T::lemma_number(x@[i], 0);
    }
    assert forall|i: int| 0 <= i < y@.len() implies #[trigger] y@[i] == g(b@[i]) by {
        T::lemma_number(y@[i], 0);
    }
    assert(x@ =~= a@.map_values(g));
    assert(y@ =~= b@.map_values(g));
    lemma_map_stable(a@, b@, g);
    assert(d_out == d_in);
    assert forall|i: int| 0 <= i < x@.len() implies t.output_domain().element_domain.contains(#[trigger] x[i]) by {
        assert(x@[i].value() == clamp_int(a@[i].value(), bounds.0.value(), bounds.1.value()));
    }
}

/// Two datasets are close at the distance `d` when both belong to
/// `domain` and their symmetric distance is at most `d`.
pub open spec fn close_datasets<T, D: Domain<Carrier = Vec<T>>>(domain: D) -> spec_fn(
    Vec<T>,
    Vec<T>,
    IntDistance,
) -> bool {
    |a: Vec<T>, b: Vec<T>, d: IntDistance| domain.contains(a) && domain.contains(b) && symmetric_distance(a@, b@) <= d
}

/// Two numbers are close at the distance `d` when their absolute distance is at most `d`.
pub open spec fn close_numbers<T: Number>() -> spec_fn(T, T, T) -> bool {
    |x: T, y: T, d: T| abs_int(x.value() - y.value()) <= d.value()
}

/// The stability map of a sum over bounded data is a guarantee.
pub proof fn lemma_bounded_sum_is_stable<T: Number>(
    t: Transformation<VectorDomain<BoundedDomain<T>>, AllDomain<T>, SymmetricDistance, AbsoluteDistance<T>>,
    bounds: (T, T),
    monotonic: bool,
)
    requires
        is_bounded_sum(t, bounds, total_of::<T>(monotonic)),
        monotonic ==> same_sign(bounds.0.value(), bounds.1.value()),
        bounds.0.value() <= bounds.1.value(),
        abs_int(bounds.0.value()) <= T::highest(),
    ensures
        stable(t, close_datasets(t.input_domain()), close_numbers::<T>()),
{
    let close_in = close_datasets(t.input_domain());
    let close_out = close_numbers::<T>();
    assert forall|a: Vec<T>, b: Vec<T>, x: T, y: T, d_in: IntDistance|
        close_in(a, b, d_in) && #[trigger] t.function().relates(a, Ok::<T, Error>(x)) && #[trigger] t.function().relates(
            b,
            Ok::<T, Error>(y),
        ) && (#[trigger] t.stability_map().image(d_in)) is Ok implies close_out(
        x,
        y,
        t.stability_map().image(d_in).unwrap(),
    ) by {
        lemma_bounded_sum_guarantee(
            t,
            bounds,
            monotonic,
            a,
            b,
            Ok::<T, Error>(x),
            Ok::<T, Error>(y),
            d_in,
            t.stability_map().image(d_in).unwrap(),
        );
    }
}

/// The stability map of a sum over bounded data of known size is a guarantee.
pub proof fn lemma_sized_bounded_sum_is_stable<T: Number>(
    t: Transformation<
        SizedDomain<VectorDomain<BoundedDomain<T>>>,
        AllDomain<T>,
        SymmetricDistance,
        AbsoluteDistance<T>,
    >,
    size: usize,
    bounds: (T, T),
    monotonic: bool,
)
    requires
        is_sized_bounded_sum(t, size, bounds, total_of::<T>(monotonic)),
        monotonic ==> same_sign(bounds.0.value(), bounds.1.value()),
        bounds.0.value() <= bounds.1.value(),
        bounds.1.value() - bounds.0.value() <= T::highest(),
    ensures
        stable(t, close_datasets(t.input_domain()), close_numbers::<T>()),
{
    let close_in = close_datasets(t.input_domain());
    let close_out = close_numbers::<T>();
    assert forall|a: Vec<T>, b: Vec<T>, x: T, y: T, d_in: IntDistance|
        close_in(a, b, d_in) && #[trigger] t.function().relates(a, Ok::<T, Error>(x)) && #[trigger] t.function().relates(
            b,
            Ok::<T, Error>(y),
        ) && (#[trigger] t.stability_map().image(d_in)) is Ok implies close_out(
        x,
        y,
        t.stability_map().image(d_in).unwrap(),
    ) by {
        lemma_sized_bounded_sum_guarantee(
            t,
            size,
            bounds,
            monotonic,
            a,
            b,
            Ok::<T, Error>(x),
            Ok::<T, Error>(y),
            d_in,
            t.stability_map().image(d_in).unwrap(),
        );
    }
}

/// The stability map of a clamp is a guarantee, and what a clamp returns
/// belongs to its output domain.
pub proof fn lemma_clamp_is_stable<T: Number>(
    t: Transformation<
        VectorDomain<AllDomain<T>>,
        VectorDomain<BoundedDomain<T>>,
        SymmetricDistance,
        SymmetricDistance,
    >,
    bounds: (T, T),
)
    requires
        is_clamp(t, bounds),
        bounds.0.value() <= bounds.1.value(),
    ensures
        stable(t, close_datasets(t.input_domain()), close_datasets(t.output_domain())),
{
    let close_in = close_datasets(t.input_domain());
    let close_out = close_datasets(t.output_domain());
    assert forall|a: Vec<T>, b: Vec<T>, x: Vec<T>, y: Vec<T>, d_in: IntDistance|
        close_in(a, b, d_in) && #[trigger] t.function().relates(a, Ok::<Vec<T>, Error>(x))
            && #[trigger] t.function().relates(b, Ok::<Vec<T>, Error>(y)) && (#[trigger] t.stability_map().image(
            d_in,
        )) is Ok implies close_out(x, y, t.stability_map().image(d_in).unwrap()) by {
        let d_out = t.stability_map().image(d_in).unwrap();
        lemma_clamp_guarantee(t, bounds, a, b, Ok::<Vec<T>, Error>(x), Ok::<Vec<T>, Error>(y), d_in, d_out);
        lemma_clamp_guarantee(t, bounds, b, a, Ok::<Vec<T>, Error>(y), Ok::<Vec<T>, Error>(x), d_in, d_out);
    }
}

/// The guarantee of a pipeline, by construction: a clamp to `bounds`
/// chained into a sum over data between `bounds` takes any two datasets that
/// are `d_in` apart in symmetric distance to sums that are at most as far
/// apart as the stability map of the chain says for `d_in`.
pub proof fn lemma_clamped_sum_is_stable<T: Number>(
    chain: Transformation<VectorDomain<AllDomain<T>>, AllDomain<T>, SymmetricDistance, AbsoluteDistance<T>>,
    sum: Transformation<VectorDomain<BoundedDomain<T>>, AllDomain<T>, SymmetricDistance, AbsoluteDistance<T>>,
    clamp: Transformation<
        VectorDomain<AllDomain<T>>,
        VectorDomain<BoundedDomain<T>>,
        SymmetricDistance,
        SymmetricDistance,
    >,
    bounds: (T, T),
    monotonic: bool,
)
    requires
        is_chain_tt(chain, sum, clamp),
        is_clamp(clamp, bounds),
        is_bounded_sum(sum, bounds, total_of::<T>(monotonic)),
        monotonic ==> same_sign(bounds.0.value(), bounds.1.value()),
        bounds.0.value() <= bounds.1.value(),
        abs_int(bounds.0.value()) <= T::highest(),
    ensures
        stable(chain, close_datasets(clamp.input_domain()), close_numbers::<T>()),
{
    lemma_clamp_is_stable(clamp, bounds);
    lemma_bounded_sum_is_stable(sum, bounds, monotonic);
    BoundedDomain::lemma_same_bounds(clamp.output_domain().element_domain, sum.input_domain().element_domain);
    assert(clamp.output_domain() == sum.input_domain());
    lemma_chain_tt_stable(
        chain,
        sum,
        clamp,
        close_datasets(clamp.input_domain()),
        close_datasets(sum.input_domain()),
        close_numbers::<T>(),
    );
}

} // verus!
