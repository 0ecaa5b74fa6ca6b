use opendp::combinators::accountant::{make_concurrent_composition, make_privacy_filter, make_privacy_odometer};
use opendp::combinators::amplify::check_sampling;
use opendp::combinators::composition::make_sequential_composition;
use opendp::combinators::fix_delta::make_fix_delta;
use opendp::combinators::measure_cast::{make_pureDP_to_fixed_approxDP, make_pureDP_to_zCDP, rho_from_epsilon};
use opendp::domains::{AllDomain, VectorDomain};
use opendp::error::{ErrorVariant, Fallible};
use opendp::measures::{
    sum_distances, BasicCompositionMeasure, MaxDivergence, SMDCurve, SmoothedMaxDivergence, ZeroConcentratedDivergence,
};
use opendp::metrics::{AbsoluteDistance, SymmetricDistance};
use opendp::objects::function::Function;
use opendp::objects::maps::PrivacyMap;
use opendp::objects::units::Measurement;
use opendp::traits::Number;

type Counter = Measurement<VectorDomain<AllDomain<i32>>, AllDomain<i32>, SymmetricDistance, MaxDivergence<i64>>;

/// A measurement that counts the records, shifted by `offset`, at the loss `epsilon` per unit of distance.
fn make_counter(offset: i32, epsilon: i64) -> Counter {
    Measurement::new(
        VectorDomain::new_all(),
        AllDomain::new(),
        Function::new(move |arg: &Vec<i32>| arg.len() as i32 + offset),
        SymmetricDistance::default(),
        MaxDivergence::default(),
        PrivacyMap::new_from_constant(epsilon),
    )
    .unwrap()
}

fn make_failing(variant: ErrorVariant) -> Counter {
    Measurement::new(
        VectorDomain::new_all(),
        AllDomain::new(),
        Function::new_fallible(move |_arg: &Vec<i32>| -> Fallible<i32> {
            Err(opendp::error::Error::with_message(variant, "refused"))
        }),
        SymmetricDistance::default(),
        MaxDivergence::default(),
        PrivacyMap::new_from_constant(1),
    )
    .unwrap()
}

#[test]
fn test_sequential_composition_adds_losses() {
    let k = 5;
    let epsilon = 3i64;
    let parts: Vec<Counter> = (0..k).map(|i| make_counter(i, epsilon)).collect();
    let composition = make_sequential_composition(&parts).unwrap();
    assert_eq!(composition.map(&1).unwrap(), 15);
    assert_eq!(composition.map(&2).unwrap(), 30);
    assert_eq!(composition.invoke(&vec![7, 7]).unwrap(), vec![2, 3, 4, 5, 6]);
    assert!(composition.check(&1, &15).unwrap());
    assert!(!composition.check(&1, &14).unwrap());
}

#[test]
fn test_sequential_composition_fails_fast() {
    let empty: Vec<Counter> = vec![];
    assert_eq!(make_sequential_composition(&empty).err().unwrap().variant, ErrorVariant::MakeMeasurement);
    let overflowing = vec![make_counter(0, i64::MAX), make_counter(0, 1)];
    let composition = make_sequential_composition(&overflowing).unwrap();
    assert_eq!(composition.map(&1).err().unwrap().variant, ErrorVariant::FailedFunction);
    let failing = vec![make_counter(0, 1), make_failing(ErrorVariant::FailedFunction), make_counter(0, 1)];
    let composition = make_sequential_composition(&failing).unwrap();
    let err = composition.invoke(&vec![1]).err().unwrap();
    assert_eq!(err.variant, ErrorVariant::FailedFunction);
    assert_eq!(err.message, Some("refused".to_string()));
}

#[test]
fn test_composition_rule_of_measures() {
    assert_eq!(MaxDivergence::<i32>::default().compose(&vec![1, 2, 3]).unwrap(), 6);
    assert_eq!(MaxDivergence::<u8>::default().compose(&vec![]).unwrap(), 0);
    assert_eq!(
        MaxDivergence::<u8>::default().compose(&vec![200, 56]).err().unwrap().variant,
        ErrorVariant::FailedFunction
    );
    assert_eq!(ZeroConcentratedDivergence::<u64>::default().compose(&vec![4, 4]).unwrap(), 8);
    assert_eq!(sum_distances(&vec![127i8, -1, 1]).unwrap(), 127);
    assert_eq!(sum_distances(&vec![127i8, 1, -1]).err().unwrap().variant, ErrorVariant::FailedFunction);
}

#[test]
fn test_concurrent_composition_enforces_the_cap() {
    let epsilon0 = 10i64;
    let costs = [4i64, 3, 5, 2, 1, 1];
    // every order of the six children
    let mut order: Vec<usize> = (0..costs.len()).collect();
    let mut orders_tried = 0;
    loop {
        let composition = make_concurrent_composition(
            VectorDomain::<AllDomain<i32>>::new_all(),
            SymmetricDistance::default(),
            MaxDivergence::<i64>::default(),
            1u32,
            epsilon0,
        )
        .unwrap();
        assert_eq!(composition.map(&1).unwrap(), epsilon0);
        assert_eq!(composition.map(&0).unwrap(), epsilon0);
        assert_eq!(composition.map(&2).err().unwrap().variant, ErrorVariant::FailedRelation);
        let mut filter = composition.invoke(&vec![1, 2, 3]).unwrap();
        let mut spent = 0i64;
        for &i in &order {
            let child = make_counter(0, costs[i]);
            let before = filter.consumed();
            assert_eq!(before, spent);
            match filter.accept(&child) {
                Ok(release) => {
                    assert_eq!(release, 3);
                    spent += costs[i];
                },
                Err(e) => {
                    assert_eq!(e.variant, ErrorVariant::InvalidDistance);
                    assert!(spent + costs[i] > epsilon0);
                    assert_eq!(filter.consumed(), before);
                },
            }
            assert!(filter.consumed() <= epsilon0);
        }
        orders_tried += 1;
        // next permutation
        let mut i = order.len() - 1;
        while i > 0 && order[i - 1] >= order[i] {
            i -= 1;
        }
        if i == 0 {
            break;
        }
        let mut j = order.len() - 1;
        while order[j] <= order[i - 1] {
            j -= 1;
        }
        order.swap(i - 1, j);
        order[i..].reverse();
    }
    assert_eq!(orders_tried, 720);
}

#[test]
fn test_filter_refuses_children_that_do_not_fit() {
    let mut filter = make_privacy_filter(
        VectorDomain::<AllDomain<i32>>::new_all(),
        SymmetricDistance::default(),
        MaxDivergence::<i64>::default(),
        vec![1, 2],
        2u32,
        10i64,
    )
    .unwrap();
    assert_eq!(filter.accept(&make_counter(1, 5)).unwrap(), 3);
    assert_eq!(filter.consumed(), 10);
    assert_eq!(filter.accept(&make_counter(1, 1)).err().unwrap().variant, ErrorVariant::InvalidDistance);
    assert_eq!(filter.accept(&make_counter(1, 0)).unwrap(), 3);
    assert_eq!(filter.accept(&make_counter(1, -1)).err().unwrap().variant, ErrorVariant::InvalidDistance);
    assert_eq!(filter.consumed(), 10);

    let scalar: Measurement<AllDomain<i32>, AllDomain<i32>, AbsoluteDistance<i32>, MaxDivergence<i64>> =
        Measurement::new(
            AllDomain::new(),
            AllDomain::new(),
            Function::new(|arg: &i32| *arg),
            AbsoluteDistance::default(),
            MaxDivergence::default(),
            PrivacyMap::new_from_constant(1),
        )
        .unwrap();
    let mut other = make_privacy_filter(
        AllDomain::<i32>::new(),
        AbsoluteDistance::<i32>::default(),
        MaxDivergence::<i64>::default(),
        5,
        1,
        3i64,
    )
    .unwrap();
    assert_eq!(other.accept(&scalar).unwrap(), 5);
    assert_eq!(other.consumed(), 1);

    for (d_in, d_out) in [(-1, 3i64), (1, -3)] {
        let r = make_privacy_filter(
            AllDomain::<i32>::new(),
            AbsoluteDistance::<i32>::default(),
            MaxDivergence::<i64>::default(),
            5,
            d_in,
            d_out,
        );
        assert_eq!(r.err().unwrap().variant, ErrorVariant::InvalidDistance);
    }
    let r = make_concurrent_composition(
        AllDomain::<i32>::new(),
        AbsoluteDistance::<i32>::default(),
        MaxDivergence::<i64>::default(),
        1,
        -1i64,
    );
    assert_eq!(r.err().unwrap().variant, ErrorVariant::InvalidDistance);
}

#[test]
fn test_failed_release_still_spends() {
    let mut filter = make_privacy_filter(
        VectorDomain::<AllDomain<i32>>::new_all(),
        SymmetricDistance::default(),
        MaxDivergence::<i64>::default(),
        vec![1, 2],
        1u32,
        10i64,
    )
    .unwrap();
    let err = filter.accept(&make_failing(ErrorVariant::FailedFunction)).err().unwrap();
    assert_eq!(err.variant, ErrorVariant::FailedFunction);
    assert_eq!(filter.consumed(), 1);
}

#[test]
fn test_odometer_reports_without_a_cap() {
    let mut odometer = make_privacy_odometer(
        VectorDomain::<AllDomain<i32>>::new_all(),
        SymmetricDistance::default(),
        MaxDivergence::<i64>::default(),
        vec![1, 2, 3, 4],
        3u32,
    )
    .unwrap();
    assert_eq!(odometer.consumed(), 0);
    for round in 1..=20i64 {
        assert_eq!(odometer.accept(&make_counter(0, 1_000_000)).unwrap(), 4);
        assert_eq!(odometer.consumed(), round * 3_000_000);
    }
    assert_eq!(odometer.accept(&make_counter(0, i64::MAX / 3)).err().unwrap().variant, ErrorVariant::FailedFunction);
    assert_eq!(odometer.consumed(), 60_000_000);
}

#[test]
fn test_measure_casts() {
    let counter = make_counter(0, 3);
    let approximate = make_pureDP_to_fixed_approxDP(&counter).unwrap();
    assert_eq!(approximate.map(&2).unwrap(), (6, 0));
    assert_eq!(approximate.invoke(&vec![1, 2]).unwrap(), 2);
    let concentrated = make_pureDP_to_zCDP(&counter).unwrap();
    assert_eq!(concentrated.map(&1).unwrap(), 5);
    assert_eq!(concentrated.map(&2).unwrap(), 18);
    assert_eq!(concentrated.map(&0).unwrap(), 0);
    assert_eq!(rho_from_epsilon(1u8).unwrap(), 1);
    assert_eq!(rho_from_epsilon(15u8).unwrap(), 113);
    assert_eq!(rho_from_epsilon(16u8).err().unwrap().variant, ErrorVariant::FailedFunction);
    assert_eq!(rho_from_epsilon(-1i32).err().unwrap().variant, ErrorVariant::InvalidDistance);
    assert_eq!(rho_from_epsilon(3_037_000_499i64).unwrap(), 4_611_686_015_463_124_501);
    assert_eq!(rho_from_epsilon(3_037_000_500i64).err().unwrap().variant, ErrorVariant::FailedFunction);
}

#[test]
fn test_ceiling_division() {
    assert_eq!(7i32.inf_div(&2).unwrap(), 4);
    assert_eq!(8i32.inf_div(&2).unwrap(), 4);
    assert_eq!((-7i32).inf_div(&2).unwrap(), -3);
    assert_eq!(7i32.inf_div(&-2).unwrap(), -3);
    assert_eq!((-7i32).inf_div(&-2).unwrap(), 4);
    assert_eq!(0u8.inf_div(&9).unwrap(), 0);
    assert_eq!(255u8.inf_div(&254).unwrap(), 2);
    assert_eq!(1u64.inf_div(&u64::MAX).unwrap(), 1);
    assert_eq!(5i8.inf_div(&0).err().unwrap().variant, ErrorVariant::FailedFunction);
    assert_eq!(i8::MIN.inf_div(&-1).err().unwrap().variant, ErrorVariant::FailedFunction);
    assert_eq!(i64::MIN.inf_div(&1).unwrap(), i64::MIN);
}

#[test]
fn test_fix_delta() {
    let curved: Measurement<AllDomain<i32>, AllDomain<i32>, AbsoluteDistance<i32>, SmoothedMaxDivergence<i64>> =
        Measurement::new(
            AllDomain::new(),
            AllDomain::new(),
            Function::new(|arg: &i32| *arg),
            AbsoluteDistance::default(),
            SmoothedMaxDivergence::default(),
            PrivacyMap::new(|d_in: &i32| {
                let d_in = *d_in as i64;
                SMDCurve::new(move |delta: &i64| {
                    if *delta <= 0 {
                        Err(opendp::error::Error::with_message(ErrorVariant::InvalidDistance, "delta"))
                    } else {
                        Ok(d_in * 1000 / delta)
                    }
                })
            }),
        )
        .unwrap();
    let fixed = make_fix_delta(&curved, 10).unwrap();
    assert_eq!(fixed.map(&3).unwrap(), (300, 10));
    assert_eq!(fixed.invoke(&8).unwrap(), 8);
    let broken = make_fix_delta(&curved, 0).unwrap();
    assert_eq!(broken.map(&3).err().unwrap().variant, ErrorVariant::InvalidDistance);
}

#[test]
fn test_sampling_descriptions() {
    assert!(check_sampling(10, 100).is_ok());
    assert!(check_sampling(99, 100).is_ok());
    for (n, population) in [(0, 100), (100, 100), (101, 100), (0, 0), (1, 0)] {
        assert_eq!(check_sampling(n, population).err().unwrap().variant, ErrorVariant::MakeMeasurement);
    }
}
