use opendp::domains::{AllDomain, BoundedDomain, SizedDomain, VectorDomain};
use opendp::error::{Error, ErrorVariant};
use opendp::ffi::any::Scalar;
use opendp::ffi::dispatch::{
    select_make_cdf, select_make_drop_null, select_make_impute_constant, select_make_impute_uniform_float,
    select_make_quantiles_from_counts, Interpolation, NullDomain,
};
use opendp::ffi::any::Erasable;
use opendp::ffi::util::Atom;
use opendp::measurements::randomized_response::{
    check_categories, lies, make_response_map, position, respond, respond_bool, response_index,
};
use opendp::measures::{FixedSmoothedMaxDivergence, MaxDivergence, ZeroConcentratedDivergence};
use opendp::metrics::{
    AbsoluteDistance, AgnosticMetric, ChangeOneDistance, DiscreteDistance, HammingDistance, InsertDeleteDistance,
    L1Distance, L2Distance, LpDistance, SupDistance, SymmetricDistance,
};
use opendp::objects::function::Function;
use opendp::objects::maps::{DistanceMap, StabilityMap};
use opendp::objects::space::{is_valid_metric_space, Descriptor, Domain, MetricSpace};
use opendp::objects::units::{Postprocessor, Transformation};
use opendp::proven::{index_proof_files, make_proof_link, proven_paths, written_paths, ProofPaths};
use opendp::text::{format_int, format_nat};
use opendp::traits::{inf_cast, Number};
use opendp::transformations::clamp::{clamp_all, make_clamp};
use opendp::transformations::variance::check_degrees_of_freedom;

#[test]
fn test_exact_arithmetic() {
    assert_eq!(100i8.inf_add(&27).unwrap(), 127);
    assert_eq!(100i8.inf_add(&28).err().unwrap().variant, ErrorVariant::FailedFunction);
    assert_eq!((-128i8).inf_sub(&1).err().unwrap().variant, ErrorVariant::FailedFunction);
    assert_eq!(0u8.inf_sub(&1).err().unwrap().variant, ErrorVariant::FailedFunction);
    assert_eq!(u64::MAX.inf_mul(&1).unwrap(), u64::MAX);
    assert_eq!(u64::MAX.inf_mul(&2).err().unwrap().variant, ErrorVariant::FailedFunction);
    assert_eq!(i64::MIN.inf_mul(&-1).err().unwrap().variant, ErrorVariant::FailedFunction);
    assert_eq!((-7i32).inf_mul(&6).unwrap(), -42);
    assert_eq!((-5i16).alerting_abs().unwrap(), 5);
    assert_eq!(i16::MIN.alerting_abs().err().unwrap().variant, ErrorVariant::FailedFunction);
    assert_eq!(3u32.total_max(9).unwrap(), 9);
    assert_eq!(Number::saturating_add(&-100i8, &-100), -128);
    assert_eq!(Number::saturating_add(&250u8, &10), 255);
    assert_eq!(Number::saturating_add(&5i64, &-7), -2);
    assert!(3i32.total_le(&3) && !3i32.total_lt(&3) && (-1i32).total_lt(&0));
    assert_eq!(inf_cast::<u32, i8>(127).unwrap(), 127);
    assert_eq!(inf_cast::<u32, i8>(128).err().unwrap().variant, ErrorVariant::FailedCast);
    assert_eq!(inf_cast::<i64, u64>(-1).err().unwrap().variant, ErrorVariant::FailedCast);
    assert_eq!(inf_cast::<u64, i64>(u64::MAX).err().unwrap().variant, ErrorVariant::FailedCast);
    assert_eq!(<u16 as Number>::zero(), 0);
    assert_eq!((<i8 as Number>::least(), <i8 as Number>::greatest()), (-128, 127));
}

#[test]
fn test_decimal_numerals() {
    assert_eq!(format_nat(0), "0");
    assert_eq!(format_nat(9), "9");
    assert_eq!(format_nat(10), "10");
    assert_eq!(format_nat(u128::MAX), u128::MAX.to_string());
    assert_eq!(format_int(-1), "-1");
    assert_eq!(format_int(i128::MIN), i128::MIN.to_string());
    assert_eq!(format_int(i128::MAX), i128::MAX.to_string());
    assert_eq!(format_int(1234567890), "1234567890");
}

#[test]
fn test_descriptions() {
    assert_eq!(SymmetricDistance::default().describe(), "SymmetricDistance()");
    assert_eq!(InsertDeleteDistance::default().describe(), "InsertDeleteDistance()");
    assert_eq!(ChangeOneDistance::default().describe(), "ChangeOneDistance()");
    assert_eq!(HammingDistance::default().describe(), "HammingDistance()");
    assert_eq!(DiscreteDistance::default().describe(), "DiscreteDistance()");
    assert_eq!(AgnosticMetric::default().describe(), "AgnosticMetric()");
    assert_eq!(AbsoluteDistance::<u8>::default().describe(), "AbsoluteDistance()");
    assert_eq!(L1Distance::<u8>::default().describe(), "L1Distance()");
    assert_eq!(L2Distance::<f64>::default().describe(), "L2Distance()");
    assert_eq!(LpDistance::<17, i8>::default().describe(), "L17Distance()");
    assert_eq!(SupDistance::<SymmetricDistance>::default().describe(), "InfDistance(SymmetricDistance())");
    assert_eq!(MaxDivergence::<f64>::default().describe(), "MaxDivergence()");
    assert_eq!(FixedSmoothedMaxDivergence::<f64>::default().describe(), "FixedSmoothedMaxDivergence()");
    assert_eq!(ZeroConcentratedDivergence::<f64>::default().describe(), "ZeroConcentratedDivergence()");
    let bounded = BoundedDomain::new_closed((-5i32, 5)).unwrap();
    let sized = SizedDomain::new(VectorDomain::new(bounded.duplicate()), 3);
    assert_eq!(sized.describe(), "SizedDomain(VectorDomain(BoundedDomain(-5, 5)), 3)");
    assert!(sized.equals(&sized.duplicate()));
    assert!(!sized.equals(&SizedDomain::new(VectorDomain::new(bounded.duplicate()), 4)));
    assert!(SymmetricDistance::default().equals(&SymmetricDistance::default().clone()));
    assert!(SupDistance::<HammingDistance>::default().equals(&SupDistance::default()));
    assert_eq!(bounded.bounds(), (-5, 5));
}

#[test]
fn test_membership() {
    let bounded = BoundedDomain::new_closed((-5i32, 5)).unwrap();
    assert!(bounded.member(&-5).unwrap() && bounded.member(&5).unwrap());
    assert!(!bounded.member(&6).unwrap() && !bounded.member(&-6).unwrap());
    let vector = VectorDomain::new(bounded.duplicate());
    assert!(vector.member(&vec![]).unwrap());
    assert!(vector.member(&vec![1, 2, -5]).unwrap());
    assert!(!vector.member(&vec![1, 20, -5]).unwrap());
    let sized = SizedDomain::new(vector, 2);
    assert!(sized.member(&vec![1, 2]).unwrap());
    assert!(!sized.member(&vec![1, 2, 3]).unwrap());
    assert!(!sized.member(&vec![1, 9]).unwrap());
    assert!(AllDomain::<f64>::new().member(&f64::NAN).unwrap());
    assert_eq!(BoundedDomain::new_closed((2u8, 1)).err().unwrap().variant, ErrorVariant::MakeTransformation);
}

#[test]
fn test_metric_spaces() {
    assert!(is_valid_metric_space(&AllDomain::<i32>::new(), &AbsoluteDistance::<i32>::default()));
    assert!(is_valid_metric_space(&VectorDomain::<AllDomain<i32>>::new_all(), &L1Distance::<i32>::default()));
    assert!(!is_valid_metric_space(&VectorDomain::<AllDomain<i32>>::new_all(), &LpDistance::<0, i32>::default()));
    let invalid = (VectorDomain::<AllDomain<i32>>::new_all(), LpDistance::<0, i32>::default());
    assert_eq!(invalid.check_space().err().unwrap().variant, ErrorVariant::InvalidMetricSpace);
    let t = Transformation::new(
        VectorDomain::<AllDomain<i32>>::new_all(),
        VectorDomain::<AllDomain<i32>>::new_all(),
        Function::new(|arg: &Vec<i32>| arg.clone()),
        SymmetricDistance::default(),
        LpDistance::<0, i32>::default(),
        StabilityMap::new_from_constant(1),
    );
    assert_eq!(t.err().unwrap().variant, ErrorVariant::InvalidMetricSpace);
}

#[test]
fn test_maps_and_functions() {
    let doubled: DistanceMap<u32, i64> = DistanceMap::new_from_constant(2);
    assert_eq!(doubled.eval(&21).unwrap(), 42);
    let plus_one: DistanceMap<i64, i64> = DistanceMap::new(|d: &i64| d + 1);
    let picky: DistanceMap<i64, i64> = DistanceMap::new_fallible(|d: &i64| {
        if *d > 40 {
            Err(Error::with_message(ErrorVariant::InvalidDistance, "too far"))
        } else {
            Ok(*d)
        }
    });
    let chain = DistanceMap::make_chain(&plus_one, &doubled);
    assert_eq!(chain.eval(&21).unwrap(), 43);
    let chain = DistanceMap::make_chain(&picky, &doubled.share());
    assert_eq!(chain.eval(&20).unwrap(), 40);
    assert_eq!(chain.eval(&21).err().unwrap().variant, ErrorVariant::InvalidDistance);
    let narrow: DistanceMap<u32, i8> = DistanceMap::new_from_constant(2);
    assert_eq!(narrow.eval(&63).unwrap(), 126);
    assert_eq!(narrow.eval(&64).err().unwrap().variant, ErrorVariant::FailedFunction);
    assert_eq!(narrow.eval(&128).err().unwrap().variant, ErrorVariant::FailedCast);

    let f = Function::new(|x: &i32| x + 1);
    let g = Function::new_fallible(|x: &i32| {
        if *x > 5 {
            Err(Error::with_message(ErrorVariant::FailedFunction, "big"))
        } else {
            Ok(x * 2)
        }
    });
    let gf = Function::make_chain(&g, &f);
    assert_eq!(gf.eval(&4).unwrap(), 10);
    assert_eq!(gf.eval(&5).err().unwrap().message, Some("big".to_string()));
    let fg = Function::make_chain(&f.clone(), &g);
    assert_eq!(fg.eval(&5).unwrap(), 11);
    assert!(fg.eval(&6).is_err());
    let both = Function::make_sequence(vec![f.share(), gf]);
    assert_eq!(both.eval(&1).unwrap(), vec![2, 4]);
    assert!(both.eval(&9).is_err());
    let post = Postprocessor::new(AllDomain::<i32>::new(), AllDomain::<i32>::new(), f);
    assert_eq!(post.invoke(&1).unwrap(), 2);
}

#[test]
fn test_clamp() {
    assert_eq!(clamp_all(&vec![-3i32, 0, 7, 2], 0, 2), vec![0, 0, 2, 2]);
    let clamp = make_clamp((-1i64, 1)).unwrap();
    assert_eq!(clamp.invoke(&vec![i64::MIN, i64::MAX, 0]).unwrap(), vec![-1, 1, 0]);
    assert_eq!(clamp.map(&7).unwrap(), 7);
    assert_eq!(make_clamp((1u8, 0)).err().unwrap().variant, ErrorVariant::MakeTransformation);
}

#[test]
fn test_randomized_response_decisions() {
    assert_eq!(respond_bool(true, true), true);
    assert_eq!(respond_bool(true, false), false);
    assert_eq!(respond_bool(false, true), false);
    assert_eq!(respond_bool(false, false), true);
    let categories: Vec<Scalar> = vec![Scalar::I32(2), Scalar::I32(3), Scalar::I32(5), Scalar::I32(6)];
    let truth = Scalar::I32(3);
    assert_eq!(position(&categories, &truth), Some(1));
    assert_eq!(position(&categories, &Scalar::I32(4)), None);
    assert_eq!(position(&categories, &Scalar::I64(3)), None);
    assert_eq!(lies(&categories, &truth), 3);
    assert_eq!(lies(&categories, &Scalar::I32(4)), 4);
    for sample in 0..3 {
        let honest = respond(&categories, &truth, sample, true).unwrap();
        assert!(honest.same(&truth));
        let lie = respond(&categories, &truth, sample, false).unwrap();
        assert!(!lie.same(&truth));
    }
    assert!(respond(&categories, &truth, 0, false).unwrap().same(&Scalar::I32(2)));
    assert!(respond(&categories, &truth, 1, false).unwrap().same(&Scalar::I32(5)));
    assert!(respond(&categories, &truth, 2, false).unwrap().same(&Scalar::I32(6)));
    assert_eq!(respond(&categories, &truth, 3, false).err().unwrap().variant, ErrorVariant::FailedFunction);
    let stranger = Scalar::I32(4);
    assert!(respond(&categories, &stranger, 3, true).unwrap().same(&Scalar::I32(6)));
    assert!(respond(&categories, &stranger, 4, true).is_err());
    assert_eq!(response_index(4, Some(1), 1, false), 2);
    assert_eq!(response_index(4, Some(1), 0, false), 0);
    assert_eq!(response_index(4, Some(1), 2, true), 1);
    assert_eq!(response_index(4, None, 3, true), 3);
    let map = make_response_map(0i64, 11);
    assert_eq!((map.eval(&0).unwrap(), map.eval(&1).unwrap(), map.eval(&9).unwrap()), (0, 11, 11));
    assert!(check_categories(2).is_ok());
    assert_eq!(check_categories(0).err().unwrap().variant, ErrorVariant::MakeMeasurement);
    assert_eq!(check_categories(1).err().unwrap().variant, ErrorVariant::MakeMeasurement);
}

#[test]
fn test_dispatch() {
    assert_eq!(select_make_cdf("f64").unwrap(), Atom::F64);
    assert_eq!(select_make_cdf("f32").unwrap(), Atom::F32);
    assert_eq!(select_make_cdf("i32").err().unwrap().variant, ErrorVariant::FFI);
    assert_eq!(select_make_cdf("Vec<f64>").err().unwrap().variant, ErrorVariant::FFI);
    assert_eq!(select_make_cdf("float").err().unwrap().variant, ErrorVariant::TypeParse);
    assert_eq!(select_make_impute_uniform_float("f32").unwrap(), Atom::F32);
    assert_eq!(select_make_impute_uniform_float("u8").err().unwrap().variant, ErrorVariant::FFI);
    assert_eq!(
        select_make_quantiles_from_counts("linear", "i32", "f64").unwrap(),
        (Interpolation::Linear, Atom::I32, Atom::F64)
    );
    assert_eq!(
        select_make_quantiles_from_counts("nearest", "f32", "f32").unwrap(),
        (Interpolation::Nearest, Atom::F32, Atom::F32)
    );
    assert_eq!(
        select_make_quantiles_from_counts("cubic", "i32", "f64").err().unwrap().variant,
        ErrorVariant::FFI
    );
    assert_eq!(
        select_make_quantiles_from_counts("linear", "int", "f64").err().unwrap().variant,
        ErrorVariant::TypeParse
    );
    assert_eq!(
        select_make_quantiles_from_counts("linear", "bool", "nope").err().unwrap().variant,
        ErrorVariant::TypeParse
    );
    assert_eq!(
        select_make_quantiles_from_counts("linear", "bool", "f64").err().unwrap().variant,
        ErrorVariant::FFI
    );
    assert_eq!(
        select_make_quantiles_from_counts("linear", "i32", "i32").err().unwrap().variant,
        ErrorVariant::FFI
    );
    assert_eq!(
        select_make_drop_null("OptionNullDomain<AllDomain<String>>").unwrap(),
        (NullDomain::OptionNull, Atom::Text)
    );
    assert_eq!(
        select_make_drop_null("InherentNullDomain<AllDomain<f64>>").unwrap(),
        (NullDomain::InherentNull, Atom::F64)
    );
    for bad in ["InherentNullDomain<AllDomain<i32>>", "AllDomain<f64>", "SymmetricDistance", "f64", "?"] {
        assert_eq!(select_make_drop_null(bad).err().unwrap().variant, ErrorVariant::TypeParse);
    }
    assert_eq!(
        select_make_impute_constant(&7i32.erase(), "OptionNullDomain<AllDomain<i32>>").unwrap(),
        (NullDomain::OptionNull, Atom::I32)
    );
    assert_eq!(
        select_make_impute_constant(&7i64.erase(), "OptionNullDomain<AllDomain<i32>>").err().unwrap().variant,
        ErrorVariant::FailedCast
    );
    assert_eq!(
        select_make_impute_constant(&7i64.erase(), "AllDomain<i64>").err().unwrap().variant,
        ErrorVariant::TypeParse
    );
}

fn file(name: &str, path: &str) -> (String, String) {
    (name.to_string(), path.to_string())
}

#[test]
fn test_proof_paths() {
    let files = vec![
        file("make_clamp", "transformations/clamp/make_clamp.tex"),
        file("make_sum", "transformations/sum/make_sum.tex"),
        file("make_clamp", "combinators/make_clamp.tex"),
        file("make_count", "transformations/count/make_count.tex"),
        file("make_clamp", "elsewhere/make_clamp.tex"),
    ];
    let paths = index_proof_files(&files);
    assert_eq!(paths.entries.len(), 3);
    assert_eq!(paths.get(&"make_clamp".to_string()), Some(None));
    assert_eq!(
        paths.get(&"make_sum".to_string()),
        Some(Some("transformations/sum/make_sum.tex".to_string()))
    );
    assert_eq!(paths.get(&"make_mean".to_string()), None);
    assert_eq!(index_proof_files(&vec![]).entries.len(), 0);

    let text = paths.to_json().unwrap();
    let back = ProofPaths::from_json(&text).unwrap();
    assert_eq!(back.entries.len(), 3);
    for (name, path) in &paths.entries {
        assert_eq!(back.get(name), Some(path.clone()));
    }
    let read = ProofPaths::from_json("{\"a\": \"x/a.tex\", \"b\": null}").unwrap();
    assert_eq!(read.get(&"a".to_string()), Some(Some("x/a.tex".to_string())));
    assert_eq!(read.get(&"b".to_string()), Some(None));
    assert_eq!(ProofPaths::from_json("[1, 2]").err().unwrap().variant, ErrorVariant::FailedFunction);
    assert_eq!(written_paths(Some("{}".to_string())).unwrap(), "{}");
    let unwritten = written_paths(None).err().unwrap();
    assert_eq!(unwritten, Error::with_message(ErrorVariant::FailedFunction, "the proof paths could not be written"));
    assert_eq!(proven_paths(Some(vec![("a".to_string(), None)])).unwrap().get(&"a".to_string()), Some(None));
    assert_eq!(proven_paths(None).err().unwrap().variant, ErrorVariant::FailedFunction);
    assert_eq!(ProofPaths::from_json("{\"a\": 1}").err().unwrap().variant, ErrorVariant::FailedFunction);
}

#[test]
fn test_proof_links() {
    assert_eq!(
        make_proof_link(true, "/src/a/b.tex", "a/b.pdf", None, None, "0.6.1").unwrap(),
        "[(Proof Document)](https://docs.opendp.org/en/0.6.1/proofs/rust/src/a/b.pdf) "
    );
    assert_eq!(
        make_proof_link(true, "/src/a/b.tex", "a/b.pdf", None, None, "0.0.0+development").unwrap(),
        "[(Proof Document)](https://docs.opendp.org/en/latest/proofs/rust/src/a/b.pdf) "
    );
    assert_eq!(
        make_proof_link(true, "/src/a/b.tex", "a/b.pdf", None, Some("https://mirror.example"), "1.0.0").unwrap(),
        "[(Proof Document)](https://mirror.example/en/1.0.0/proofs/rust/src/a/b.pdf) "
    );
    assert_eq!(
        make_proof_link(true, "/src/a/b.tex", "a/b.pdf", Some("8020"), Some("ignored"), "1.0.0").unwrap(),
        "[(Proof Document)](http://localhost:8020/proofs/rust/src/a/b.pdf) "
    );
    let err = make_proof_link(false, "/src/a/b.tex", "a/b.pdf", None, None, "1.0.0").err().unwrap();
    assert_eq!(err.variant, ErrorVariant::FailedFunction);
    assert_eq!(err.message, Some("/src/a/b.tex does not exist!".to_string()));
}

#[test]
fn test_degrees_of_freedom() {
    assert!(check_degrees_of_freedom(10, 0).is_ok());
    assert!(check_degrees_of_freedom(10, 9).is_ok());
    assert!(check_degrees_of_freedom(1, 0).is_ok());
    assert_eq!(check_degrees_of_freedom(10, 10).err().unwrap().variant, ErrorVariant::MakeTransformation);
    assert_eq!(check_degrees_of_freedom(10, 11).err().unwrap().variant, ErrorVariant::MakeTransformation);
    assert_eq!(check_degrees_of_freedom(0, 0).err().unwrap().variant, ErrorVariant::MakeTransformation);
}

#[test]
fn test_arithmetic_in_pointer_width() {
    assert_eq!(usize::MAX.inf_add(&0).unwrap(), usize::MAX);
    assert_eq!(usize::MAX.inf_add(&1).err().unwrap().variant, ErrorVariant::FailedFunction);
    assert_eq!(0usize.inf_sub(&1).err().unwrap().variant, ErrorVariant::FailedFunction);
    assert_eq!(isize::MIN.inf_mul(&-1).err().unwrap().variant, ErrorVariant::FailedFunction);
    assert_eq!((-7isize).inf_mul(&6).unwrap(), -42);
    assert_eq!(isize::MIN.alerting_abs().err().unwrap().variant, ErrorVariant::FailedFunction);
    assert_eq!(Number::saturating_add(&isize::MAX, &1), isize::MAX);
    assert_eq!(inf_cast::<usize, u8>(255).unwrap(), 255u8);
    assert_eq!(inf_cast::<usize, u8>(256).err().unwrap().variant, ErrorVariant::FailedCast);
    assert_eq!(inf_cast::<i8, usize>(-1).err().unwrap().variant, ErrorVariant::FailedCast);
    assert_eq!(inf_cast::<u32, isize>(7).unwrap(), 7isize);
}

#[test]
fn test_writing_an_index_succeeds() {
    let empty = ProofPaths { entries: vec![] };
    assert_eq!(empty.to_json().unwrap(), "{}");
    let one = ProofPaths { entries: vec![("a".to_string(), None)] };
    assert_eq!(one.to_json().unwrap(), "{\"a\":null}");
    let path = ProofPaths { entries: vec![("b \"c\"".to_string(), Some("x/y.tex".to_string()))] };
    assert_eq!(path.to_json().unwrap(), "{\"b \\\"c\\\"\":\"x/y.tex\"}");
}
