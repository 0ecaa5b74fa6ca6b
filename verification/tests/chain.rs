use opendp::combinators::chain::{make_chain_mt, make_chain_pm, make_chain_tt, mismatch_message};
use opendp::domains::{AllDomain, BoundedDomain, VectorDomain};
use opendp::error::{ErrorVariant, Fallible};
use opendp::measures::MaxDivergence;
use opendp::metrics::{AbsoluteDistance, SymmetricDistance};
use opendp::objects::function::Function;
use opendp::objects::maps::{PrivacyMap, StabilityMap};
use opendp::objects::units::{Measurement, Postprocessor, Transformation};
use opendp::transformations::clamp::make_clamp;
use opendp::transformations::sum::make_bounded_sum;

#[test]
fn test_make_chain_mt() {
    let input_domain0 = AllDomain::<u8>::new();
    let output_domain0 = AllDomain::<i32>::new();
    let function0 = Function::new(|a: &u8| (a + 1) as i32);
    let input_metric0 = AbsoluteDistance::<i32>::default();
    let output_metric0 = AbsoluteDistance::<i32>::default();
    let stability_map0 = StabilityMap::new_from_constant(1);
    let transformation0 = Transformation::new(
        input_domain0,
        output_domain0,
        function0,
        input_metric0,
        output_metric0,
        stability_map0,
    )
    .unwrap();
    let input_domain1 = AllDomain::<i32>::new();
    let output_domain1 = AllDomain::<f64>::new();
    let function1 = Function::new(|a: &i32| (a + 1) as f64);
    let input_metric1 = AbsoluteDistance::<i32>::default();
    let output_measure1 = MaxDivergence::default();
    let privacy_map1 = PrivacyMap::new(|d_in: &i32| *d_in as f64 + 1.);
    let measurement1 = Measurement::new(
        input_domain1,
        output_domain1,
        function1,
        input_metric1,
        output_measure1,
        privacy_map1,
    )
    .unwrap();
    let chain = make_chain_mt(&measurement1, &transformation0).unwrap();

    let arg = 99_u8;
    let ret = chain.invoke(&arg).unwrap();
    assert_eq!(ret, 101.0);

    let d_in = 99_i32;
    let d_out = chain.map(&d_in).unwrap();
    assert_eq!(d_out, 100.);
}

#[test]
fn test_make_chain_tt() {
    let input_domain0 = AllDomain::<u8>::new();
    let output_domain0 = AllDomain::<i32>::new();
    let function0 = Function::new(|a: &u8| (a + 1) as i32);
    let input_metric0 = AbsoluteDistance::<i32>::default();
    let output_metric0 = AbsoluteDistance::<i32>::default();
    let stability_map0 = StabilityMap::new_from_constant(1);
    let transformation0 = Transformation::new(
        input_domain0,
        output_domain0,
        function0,
        input_metric0,
        output_metric0,
        stability_map0,
    )
    .unwrap();
    let input_domain1 = AllDomain::<i32>::new();
    let output_domain1 = AllDomain::<f64>::new();
    let function1 = Function::new(|a: &i32| (a + 1) as f64);
    let input_metric1 = AbsoluteDistance::<i32>::default();
    let output_metric1 = AbsoluteDistance::<i32>::default();
    let stability_map1 = StabilityMap::new_from_constant(1);
    let transformation1 = Transformation::new(
        input_domain1,
        output_domain1,
        function1,
        input_metric1,
        output_metric1,
        stability_map1,
    )
    .unwrap();
    let chain = make_chain_tt(&transformation1, &transformation0).unwrap();

    let arg = 99_u8;
    let ret = chain.invoke(&arg).unwrap();
    assert_eq!(ret, 101.0);

    let d_in = 99_i32;
    let d_out = chain.map(&d_in).unwrap();
    assert_eq!(d_out, 99);
}

#[test]
fn test_make_chain_pm() {
    let input_domain0 = AllDomain::<u8>::new();
    let output_domain0 = AllDomain::<i32>::new();
    let function0 = Function::new(|a: &u8| (a + 1) as i32);
    let input_metric0 = AbsoluteDistance::<i32>::default();
    let output_measure0 = MaxDivergence::<i32>::default();
    let privacy_map0 = PrivacyMap::new_from_constant(1);
    let measurement0 = Measurement::new(
        input_domain0,
        output_domain0,
        function0,
        input_metric0,
        output_measure0,
        privacy_map0,
    )
    .unwrap();
    let input_domain1 = AllDomain::<i32>::new();
    let output_domain1 = AllDomain::<f64>::new();
    let function1 = Function::new(|a: &i32| (a + 1) as f64);
    let postprocessor1 = Postprocessor::new(input_domain1, output_domain1, function1);
    let chain = make_chain_pm(&postprocessor1, &measurement0).unwrap();

    let arg = 99_u8;
    let ret = chain.invoke(&arg).unwrap();
    assert_eq!(ret, 101.0);

    let d_in = 99_i32;
    let d_out = chain.map(&d_in).unwrap();
    assert_eq!(d_out, 99);
}

fn make_split_lines(
) -> Fallible<Transformation<AllDomain<String>, VectorDomain<AllDomain<String>>, SymmetricDistance, SymmetricDistance>>
{
    Transformation::new(
        AllDomain::new(),
        VectorDomain::new_all(),
        Function::new(|arg: &String| arg.lines().map(|line| line.to_owned()).collect::<Vec<String>>()),
        SymmetricDistance::default(),
        SymmetricDistance::default(),
        StabilityMap::new_from_constant(1),
    )
}

fn make_cast_default() -> Fallible<
    Transformation<
        VectorDomain<AllDomain<String>>,
        VectorDomain<AllDomain<i32>>,
        SymmetricDistance,
        SymmetricDistance,
    >,
> {
    Transformation::new(
        VectorDomain::new_all(),
        VectorDomain::new_all(),
        Function::new(|arg: &Vec<String>| {
            arg.iter().map(|v| v.parse::<i32>().unwrap_or_default()).collect::<Vec<i32>>()
        }),
        SymmetricDistance::default(),
        SymmetricDistance::default(),
        StabilityMap::new_from_constant(1),
    )
}

/// A stand-in for a noise mechanism: the noise comes from a small generator
/// seeded by the argument, and the loss is `d_in / scale`.
fn make_base_discrete_laplace(
    scale: f64,
) -> Fallible<Measurement<AllDomain<i32>, AllDomain<i32>, AbsoluteDistance<i32>, MaxDivergence<f64>>> {
    Measurement::new(
        AllDomain::new(),
        AllDomain::new(),
        Function::new(move |arg: &i32| {
            let state = (*arg as u64).wrapping_mul(6364136223846793005).wrapping_add(1442695040888963407);
            let noise = ((state >> 33) % 7) as i32 - 3;
            arg.saturating_add(noise)
        }),
        AbsoluteDistance::default(),
        MaxDivergence::default(),
        PrivacyMap::new(move |d_in: &i32| *d_in as f64 / scale),
    )
}

#[test]
fn test_shr() -> Fallible<()> {
    (make_split_lines()?
        >> make_cast_default()?
        >> make_clamp((0, 1))?
        >> make_bounded_sum((0, 1))?
        >> make_base_discrete_laplace(1.)?)
    .map(|_| ())
}

#[test]
fn test_shr_runs_in_pipeline_order() {
    let chain = (make_split_lines().unwrap()
        >> make_cast_default().unwrap()
        >> make_clamp((0, 1)).unwrap()
        >> make_bounded_sum((0, 1)).unwrap())
    .unwrap();
    let total = chain.invoke(&"1\n5\nx\n-2\n1".to_string()).unwrap();
    assert_eq!(total, 3);
    assert_eq!(chain.map(&4).unwrap(), 4);
}

#[test]
fn test_chain_rejects_different_bounds() {
    let clamp = make_clamp((0i32, 1)).unwrap();
    let sum = make_bounded_sum((0i32, 2)).unwrap();
    let err = make_chain_tt(&sum, &clamp).err().unwrap();
    assert_eq!(err.variant, ErrorVariant::DomainMismatch);
    assert_eq!(
        err.message.unwrap(),
        "Intermediate domains don't match. See https://github.com/opendp/opendp/discussions/297\n    output_domain: VectorDomain(BoundedDomain(0, 1))\n    input_domain:  VectorDomain(BoundedDomain(0, 2))\n"
    );
}

#[test]
fn test_mismatch_message_same_description() {
    let a = AllDomain::<i32>::new();
    let b = AllDomain::<i32>::new();
    assert_eq!(
        mismatch_message("domain", &a, &b),
        "Intermediate domains don't match. See https://github.com/opendp/opendp/discussions/297\n    The structure of the intermediate domains are the same, but the parameters differ.\n    shared_domain: AllDomain()\n"
    );
    let c = BoundedDomain::new_closed((-3i8, 7)).unwrap();
    assert_eq!(
        mismatch_message("domain", &a, &c),
        "Intermediate domains don't match. See https://github.com/opendp/opendp/discussions/297\n    output_domain: AllDomain()\n    input_domain:  BoundedDomain(-3, 7)\n"
    );
}

#[test]
fn test_failure_of_earlier_step_is_the_result() {
    let broken: Fallible<
        Transformation<
            VectorDomain<AllDomain<i32>>,
            VectorDomain<BoundedDomain<i32>>,
            SymmetricDistance,
            SymmetricDistance,
        >,
    > = make_clamp((1, 0));
    let chain = broken >> make_bounded_sum((0, 1)).unwrap();
    assert_eq!(chain.err().unwrap().variant, ErrorVariant::MakeTransformation);
}

#[test]
fn test_scenario_clamp_sum_noise() {
    // the scenario in floats: the float transformations are built from closures
    let clamp = Transformation::new(
        VectorDomain::<AllDomain<f64>>::new_all(),
        VectorDomain::<AllDomain<f64>>::new_all(),
        Function::new(|arg: &Vec<f64>| arg.iter().map(|v| v.clamp(0., 1.)).collect::<Vec<f64>>()),
        SymmetricDistance::default(),
        SymmetricDistance::default(),
        StabilityMap::new_from_constant(1),
    )
    .unwrap();
    assert_eq!(clamp.invoke(&vec![0.2, 0.9, 1.5, -0.3]).unwrap(), vec![0.2, 0.9, 1.0, 0.0]);
    let sum = Transformation::new(
        VectorDomain::<AllDomain<f64>>::new_all(),
        AllDomain::<f64>::new(),
        Function::new(|arg: &Vec<f64>| arg.iter().sum::<f64>()),
        SymmetricDistance::default(),
        AbsoluteDistance::<f64>::default(),
        StabilityMap::new(|d_in: &u32| *d_in as f64 * 1.),
    )
    .unwrap();
    let epsilon = 1.0;
    let sensitivity = 1.0;
    let scale = sensitivity / epsilon;
    let noise = Measurement::new(
        AllDomain::<f64>::new(),
        AllDomain::<f64>::new(),
        Function::new(move |arg: &f64| {
            let state = arg.to_bits().wrapping_mul(6364136223846793005).wrapping_add(1442695040888963407);
            let unit = (state >> 11) as f64 / (1u64 << 53) as f64 - 0.5;
            arg - scale * unit.signum() * (1. - 2. * unit.abs()).ln()
        }),
        AbsoluteDistance::<f64>::default(),
        MaxDivergence::<f64>::default(),
        PrivacyMap::new(move |d_in: &f64| d_in / scale),
    )
    .unwrap();
    let exact = (clamp.clone() >> sum.clone()).unwrap();
    assert!((exact.invoke(&vec![0.2, 0.9, 1.5, -0.3]).unwrap() - 2.1).abs() < 1e-12);
    let composite = (clamp >> sum >> noise).unwrap();
    let release = composite.invoke(&vec![0.2, 0.9, 1.5, -0.3]).unwrap();
    assert!(release.is_finite());
    assert!(composite.map(&1).unwrap() <= epsilon);
}

#[test]
fn test_scenario_in_integers() {
    let noise = make_base_discrete_laplace(1.).unwrap();
    let composite = (make_clamp((0i32, 1)) >> make_bounded_sum((0, 1)).unwrap() >> noise).unwrap();
    let release = composite.invoke(&vec![0, 1, 2, -1]).unwrap();
    assert!((release - 2).abs() <= 3);
    assert!(composite.map(&1).unwrap() <= 1.);
    assert_eq!(composite.invoke_checked(&vec![5, 5]).is_ok(), true);
}

#[test]
fn test_chaining_is_associative() {
    let make = |c: i64| {
        Transformation::new(
            AllDomain::<i64>::new(),
            AllDomain::<i64>::new(),
            Function::new(move |x: &i64| x.wrapping_mul(c).wrapping_add(1)),
            AbsoluteDistance::<i64>::default(),
            AbsoluteDistance::<i64>::default(),
            StabilityMap::new_from_constant(c),
        )
        .unwrap()
    };
    let left = make_chain_tt(&make_chain_tt(&make(7), &make(5)).unwrap(), &make(3)).unwrap();
    let right = make_chain_tt(&make(7), &make_chain_tt(&make(5), &make(3)).unwrap()).unwrap();
    for d_in in [0i64, 1, 2, 17, 1 << 40, i64::MAX / 105, i64::MAX / 104, i64::MAX] {
        let (l, r) = (left.map(&d_in), right.map(&d_in));
        assert_eq!(l.as_ref().ok(), r.as_ref().ok());
        assert_eq!(l.err().map(|e| e.variant), r.err().map(|e| e.variant));
        assert_eq!(left.invoke(&d_in).unwrap(), right.invoke(&d_in).unwrap());
    }
    assert_eq!(left.map(&2).unwrap(), 210);
}

#[test]
fn test_maps_are_monotone() {
    let sum = make_bounded_sum((-3i32, 8)).unwrap();
    let clamp = make_clamp((-3i32, 8)).unwrap();
    let chain = (clamp >> sum).unwrap();
    let mut last = 0;
    for d_in in 0..1000u32 {
        let d_out = chain.map(&d_in).unwrap();
        assert!(last <= d_out);
        assert_eq!(d_out, 8 * d_in as i32);
        last = d_out;
    }
}

#[test]
fn test_postprocessing_leaves_the_loss_unchanged() {
    let measurement = Measurement::new(
        AllDomain::<i32>::new(),
        AllDomain::<i32>::new(),
        Function::new(|a: &i32| a + 1),
        AbsoluteDistance::<i32>::default(),
        MaxDivergence::<i64>::default(),
        PrivacyMap::new_from_constant(3),
    )
    .unwrap();
    let postprocessor = Postprocessor::new(
        AllDomain::<i32>::new(),
        AllDomain::<String>::new(),
        Function::new(|a: &i32| a.to_string()),
    );
    let d_ins = [0, 1, 5, 1000, i32::MAX, -4];
    let before: Vec<Option<i64>> = d_ins.iter().map(|d| measurement.map(d).ok()).collect();
    let chain = (measurement >> postprocessor).unwrap();
    let after: Vec<Option<i64>> = d_ins.iter().map(|d| chain.map(d).ok()).collect();
    assert_eq!(before, after);
    assert_eq!(chain.invoke(&41).unwrap(), "42");
}
