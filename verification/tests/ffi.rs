use opendp::domains::AllDomain;
use opendp::error::{Error, ErrorVariant, Fallible};
use opendp::ffi::any::{AnyObject, Erasable};
use opendp::ffi::boundary::{
    opendp_core__domain_carrier_type, opendp_core__measure_distance_type, opendp_core__measurement_check,
    opendp_core__measurement_input_carrier_type, opendp_core__measurement_input_distance_type,
    opendp_core__measurement_invoke, opendp_core__measurement_map, opendp_core__measurement_output_distance_type,
    opendp_core__metric_distance_type, opendp_core__transformation_check,
    opendp_core__transformation_input_carrier_type, opendp_core__transformation_invoke,
    opendp_core__transformation_map, opendp_core__transformation_output_distance_type, FfiError, FfiResult,
    FfiSlice, IntoAnyMeasurementFfiResultExt,
};
use opendp::ffi::erased::{AnyDomain, AnyMetric};
use opendp::ffi::glue::{AnyMeasurement, AnyTransformation, IntoAnyMeasurementExt, IntoAnyTransformationExt};
use opendp::ffi::util::{Atom, Family, Nullary, Type};
use opendp::measures::MaxDivergence;
use opendp::metrics::SymmetricDistance;
use opendp::objects::function::Function;
use opendp::objects::maps::{PrivacyMap, StabilityMap};
use opendp::objects::space::{Descriptor, Domain};
use opendp::objects::units::{Measurement, Transformation};
use opendp::transformations::clamp::make_clamp;
use opendp::transformations::sum::make_bounded_sum;

fn make_test_measurement() -> Measurement<AllDomain<i32>, AllDomain<i32>, SymmetricDistance, MaxDivergence<i32>> {
    Measurement::new(
        AllDomain::new(),
        AllDomain::new(),
        Function::new(|arg: &i32| arg.clone()),
        SymmetricDistance::default(),
        MaxDivergence::default(),
        PrivacyMap::new(|d_in: &u32| *d_in as i32 + 1),
    )
    .unwrap()
}

fn make_test_transformation() -> Transformation<AllDomain<i32>, AllDomain<i32>, SymmetricDistance, SymmetricDistance>
{
    Transformation::new(
        AllDomain::new(),
        AllDomain::new(),
        Function::new(|arg: &i32| arg.clone()),
        SymmetricDistance::default(),
        SymmetricDistance::default(),
        StabilityMap::new_from_constant(1),
    )
    .unwrap()
}

#[test]
fn test_ffi_error_from_error() {
    let err = Error::with_message(ErrorVariant::FailedFunction, "Eat my shorts!");
    let ffi_err: FfiError = err.into();
    assert_eq!(
        ffi_err,
        FfiError {
            variant: "FailedFunction".to_string(),
            message: Some("Eat my shorts!".to_string()),
            backtrace: "".to_string(),
        }
    )
}

#[test]
fn test_ffi_result_from_result_ok() {
    let res: Fallible<i32> = Ok(999);
    let ffi_res: FfiResult<i32> = FfiResult::from(res);
    assert_eq!(FfiResult::Success(999), ffi_res);
}

#[test]
fn test_ffi_result_from_result_err() {
    let res: Fallible<i32> = Err(Error::with_message(ErrorVariant::FailedFunction, "Eat my shorts!"));
    let ffi_res: FfiResult<i32> = FfiResult::from(res);
    assert_eq!(
        ffi_res,
        FfiResult::Failure(FfiError {
            variant: "FailedFunction".to_string(),
            message: Some("Eat my shorts!".to_string()),
            backtrace: "".to_string(),
        })
    );
}

#[test]
fn test_error_from_ffi_error() {
    let ffi_err = FfiError {
        variant: "FailedFunction".to_string(),
        message: Some("Eat my shorts!".to_string()),
        backtrace: "".to_string(),
    };
    let err: Error = ffi_err.into();
    assert_eq!(err, Error::with_message(ErrorVariant::FailedFunction, "Eat my shorts!"))
}

#[test]
fn test_result_from_ffi_result_ok() {
    let ffi_res = FfiResult::Success(123);
    let res = Fallible::from(ffi_res);
    assert_eq!(res, Ok(123));
}

#[test]
fn test_result_from_ffi_result_err() {
    let ffi_res: FfiResult<i32> = FfiResult::Failure(FfiError {
        variant: "FailedFunction".to_string(),
        message: Some("Eat my shorts!".to_string()),
        backtrace: "".to_string(),
    });
    let res = Fallible::from(ffi_res);
    assert_eq!(res, Err(Error::with_message(ErrorVariant::FailedFunction, "Eat my shorts!")));
}

#[test]
fn test_measurement_invoke() -> Fallible<()> {
    let measurement = make_test_measurement().into_any();
    let arg = 999.erase();
    let res = opendp_core__measurement_invoke(Some(&measurement), Some(&arg));
    let res: i32 = i32::downcast(&Fallible::from(res)?)?;
    assert_eq!(res, 999);
    Ok(())
}

#[test]
fn test_measurement_invoke_wrong_type() -> Fallible<()> {
    let measurement = make_test_measurement().into_any();
    let arg = AnyObject::from_f64_bits(999.0f64.to_bits());
    let res = Fallible::from(opendp_core__measurement_invoke(Some(&measurement), Some(&arg)));
    assert_eq!(res.err().unwrap().variant, ErrorVariant::FailedCast);
    Ok(())
}

#[test]
fn test_transformation_invoke() -> Fallible<()> {
    let transformation = make_test_transformation().into_any();
    let arg = 999.erase();
    let res = opendp_core__transformation_invoke(Some(&transformation), Some(&arg));
    let res: i32 = i32::downcast(&Fallible::from(res)?)?;
    assert_eq!(res, 999);
    Ok(())
}

#[test]
fn test_transformation_invoke_wrong_type() -> Fallible<()> {
    let transformation = make_test_transformation().into_any();
    let arg = AnyObject::from_f64_bits(999.0f64.to_bits());
    let res = Fallible::from(opendp_core__transformation_invoke(Some(&transformation), Some(&arg)));
    assert_eq!(res.err().unwrap().variant, ErrorVariant::FailedCast);
    Ok(())
}

#[test]
fn test_error_round_trip_for_every_variant() {
    let wire = [
        ErrorVariant::FFI,
        ErrorVariant::TypeParse,
        ErrorVariant::FailedFunction,
        ErrorVariant::FailedRelation,
        ErrorVariant::RelationDebug,
        ErrorVariant::FailedCast,
        ErrorVariant::DomainMismatch,
        ErrorVariant::MakeTransformation,
        ErrorVariant::MakeMeasurement,
        ErrorVariant::InvalidDistance,
        ErrorVariant::NotImplemented,
    ];
    for variant in wire {
        let record = FfiError::from(Error::with_message(variant, "why"));
        assert_eq!(record.variant_str(), format!("{:?}", variant));
        let back = Error::from(record);
        assert_eq!(back.variant, variant);
        assert_eq!(back.message, Some("why".to_string()));
        let bare = Error::from(FfiError::from(Error::new(variant, None)));
        assert_eq!(bare, Error::new(variant, None));
    }
    for variant in [ErrorVariant::MetricMismatch, ErrorVariant::InvalidMetricSpace] {
        let back = Error::from(FfiError::from(Error::with_message(variant, "why")));
        assert_eq!(back.variant, ErrorVariant::NotImplemented);
        assert_eq!(back.message, Some(format!("Unknown ErrorVariant {:?}", variant)));
    }
}

#[test]
fn test_unknown_variant_decodes_to_not_implemented() {
    let record = FfiError { variant: "Mystery".to_string(), message: None, backtrace: "".to_string() };
    assert_eq!(record.message_str(), None);
    assert_eq!(record.describe(), "FfiError: { type: Mystery, message: None }");
    let err = Error::from(record);
    assert_eq!(err, Error::with_message(ErrorVariant::NotImplemented, "Unknown ErrorVariant Mystery"));
}

#[test]
fn test_relation_debug_has_no_trace() {
    let record = FfiError::from(Error::with_message(ErrorVariant::RelationDebug, "dump"));
    assert_eq!(record.backtrace, "");
    assert_eq!(record.describe(), "FfiError: { type: RelationDebug, message: Some(dump) }");
    let traced = FfiError::from(Error::with_message(ErrorVariant::FailedFunction, "boom"));
    assert_eq!(traced.variant, "FailedFunction");
}

#[test]
fn test_type_registry() {
    assert_eq!(Type::try_from("i32").unwrap(), Type::Of(Family::Plain, Atom::I32));
    assert_eq!(Type::try_from("Vec<f64>").unwrap(), Type::Of(Family::Vector, Atom::F64));
    assert_eq!(Type::try_from("(u8, u8)").unwrap(), Type::Of(Family::Pair, Atom::U8));
    assert_eq!(
        Type::try_from("SizedDomain<VectorDomain<BoundedDomain<i64>>>").unwrap(),
        Type::Of(Family::SizedVectorOfBounded, Atom::I64)
    );
    assert_eq!(Type::try_from("HammingDistance").unwrap(), Type::Named(Nullary::HammingDistance));
    assert_eq!(
        Type::try_from("InherentNullDomain<AllDomain<f32>>").unwrap(),
        Type::Of(Family::InherentNullDomain, Atom::F32)
    );
    for bad in ["", "i33", "Vec<i32", "InherentNullDomain<AllDomain<i32>>", "BoundedDomain<String>", "Vec<()>"] {
        assert_eq!(Type::try_from(bad).err().unwrap().variant, ErrorVariant::TypeParse);
    }
    let registry = Type::registry();
    assert_eq!(registry.len(), 240);
    for t in registry {
        if t.supported() {
            assert_eq!(Type::try_from(&t.describe()).unwrap(), t);
        } else {
            assert!(Type::try_from(&t.describe()).is_err());
        }
    }
    assert_eq!(Type::Named(Nullary::DiscreteDistance).get_atom().err().unwrap().variant, ErrorVariant::TypeParse);
    assert_eq!(Type::Of(Family::L2Distance, Atom::F64).get_atom().unwrap(), Atom::F64);
}

fn ok_text(r: FfiResult<String>) -> String {
    Fallible::from(r).unwrap()
}

fn failure(r: FfiResult<String>) -> ErrorVariant {
    Fallible::from(r).err().unwrap().variant
}

#[test]
fn test_derived_types() {
    assert_eq!(ok_text(opendp_core__domain_carrier_type("AllDomain<i32>")), "i32");
    assert_eq!(ok_text(opendp_core__domain_carrier_type("VectorDomain<AllDomain<String>>")), "Vec<String>");
    assert_eq!(failure(opendp_core__domain_carrier_type("BoundedDomain<i32>")), ErrorVariant::TypeParse);
    assert_eq!(failure(opendp_core__domain_carrier_type("nonsense")), ErrorVariant::TypeParse);
    assert_eq!(ok_text(opendp_core__metric_distance_type("SymmetricDistance")), "u32");
    assert_eq!(ok_text(opendp_core__metric_distance_type("AgnosticMetric")), "()");
    assert_eq!(ok_text(opendp_core__metric_distance_type("L1Distance<f64>")), "f64");
    assert_eq!(failure(opendp_core__metric_distance_type("MaxDivergence<f64>")), ErrorVariant::TypeParse);
    assert_eq!(ok_text(opendp_core__measure_distance_type("MaxDivergence<f64>")), "f64");
    assert_eq!(ok_text(opendp_core__measure_distance_type("FixedSmoothedMaxDivergence<f32>")), "(f32, f32)");
    assert_eq!(failure(opendp_core__measure_distance_type("SymmetricDistance")), ErrorVariant::TypeParse);
    assert_eq!(Type::Of(Family::OptionNullDomain, Atom::I8).carrier_type().unwrap().describe(), "Option<i8>");
    assert_eq!(Type::Named(Nullary::ChangeOneDistance).metric_distance_type().unwrap().describe(), "u32");
    assert!(Type::Of(Family::Plain, Atom::I8).measure_distance_type().is_err());
}

#[test]
fn test_erased_objects() {
    let v = vec![3i64, -4, 5];
    let o = v.erase();
    assert_eq!(o.type_of().describe(), "Vec<i64>");
    assert_eq!(Vec::<i64>::downcast(&o).unwrap(), v);
    assert_eq!(Vec::<i32>::downcast(&o).err().unwrap().variant, ErrorVariant::FailedCast);
    assert_eq!(i64::downcast(&o).err().unwrap().variant, ErrorVariant::FailedCast);
    let empty: Vec<u8> = vec![];
    assert_eq!(Vec::<u8>::downcast(&empty.erase()).unwrap(), empty);
    assert!(Vec::<u16>::downcast(&empty.erase()).is_err());
    let s = "text".to_string().erase();
    assert_eq!(String::downcast(&s.clone()).unwrap(), "text");
    assert_eq!(bool::downcast(&true.erase()).unwrap(), true);
    assert_eq!(u32::downcast(&7u32.erase()).unwrap(), 7);
    assert_eq!(AnyObject::from_f32_bits(1.5f32.to_bits()).type_of().describe(), "f32");
}

#[test]
fn test_erased_domains() {
    let bounded = AnyDomain::new(Type::try_from("VectorDomain<BoundedDomain<i32>>").unwrap(), Some((0, 10)), None)
        .unwrap();
    assert_eq!(bounded.describe(), "VectorDomain(BoundedDomain(0, 10))");
    assert_eq!(bounded.carrier_type().describe(), "Vec<i32>");
    assert!(bounded.member(&vec![1i32, 10].erase()).unwrap());
    assert!(!bounded.member(&vec![1i32, 11].erase()).unwrap());
    assert!(!bounded.member(&vec![1i64, 2].erase()).unwrap());
    assert!(!bounded.member(&5i32.erase()).unwrap());
    let other = AnyDomain::new(Type::try_from("VectorDomain<BoundedDomain<i32>>").unwrap(), Some((0, 11)), None)
        .unwrap();
    assert!(!bounded.equals(&other));
    assert!(bounded.equals(&bounded.duplicate()));
    let sized = AnyDomain::new(Type::try_from("SizedDomain<VectorDomain<AllDomain<bool>>>").unwrap(), None, Some(2))
        .unwrap();
    assert_eq!(sized.describe(), "SizedDomain(VectorDomain(AllDomain()), 2)");
    assert!(sized.member(&vec![true, false].erase()).unwrap());
    assert!(!sized.member(&vec![true].erase()).unwrap());
    for (descriptor, bounds, length) in [
        ("BoundedDomain<i32>", None, None),
        ("BoundedDomain<i32>", Some((3, 1)), None),
        ("BoundedDomain<f64>", Some((0, 1)), None),
        ("AllDomain<i32>", Some((0, 1)), None),
        ("AllDomain<i32>", None, Some(3)),
        ("OptionNullDomain<AllDomain<i32>>", None, None),
        ("SymmetricDistance", None, None),
        ("i32", None, None),
    ] {
        let r = AnyDomain::new(Type::try_from(descriptor).unwrap(), bounds, length);
        assert_eq!(r.err().unwrap().variant, ErrorVariant::TypeParse);
    }
    assert_eq!(AnyMetric::new(Type::try_from("i32").unwrap()).err().unwrap().variant, ErrorVariant::TypeParse);
    assert_eq!(AnyMetric::new(Type::try_from("L1Distance<i8>").unwrap()).unwrap().describe(), "L1Distance(i8)");
    assert_eq!(AnyMetric::new(Type::try_from("L2Distance<f64>").unwrap()).unwrap().describe(), "L2Distance(f64)");
    assert_eq!(
        AnyMetric::new(Type::try_from("AbsoluteDistance<u64>").unwrap()).unwrap().describe(),
        "AbsoluteDistance(u64)"
    );
    assert_eq!(AnyMetric::new(Type::try_from("HammingDistance").unwrap()).unwrap().describe(), "HammingDistance()");
}

#[test]
fn test_erased_pipeline() {
    let clamp: AnyTransformation = make_clamp((0i32, 5)).unwrap().into_any();
    let sum: AnyTransformation = make_bounded_sum((0i32, 5)).unwrap().into_any();
    let chain = (clamp >> sum).unwrap();
    let data = vec![7i32, -2, 3].erase();
    let total = Fallible::from(opendp_core__transformation_invoke(Some(&chain), Some(&data))).unwrap();
    assert_eq!(i32::downcast(&total).unwrap(), 8);
    let d_out = Fallible::from(opendp_core__transformation_map(Some(&chain), Some(&3u32.erase()))).unwrap();
    assert_eq!(i32::downcast(&d_out).unwrap(), 15);
    let check = |d_in: u32, d_out: i32| {
        Fallible::from(opendp_core__transformation_check(Some(&chain), Some(&d_in.erase()), Some(&d_out.erase())))
    };
    assert_eq!(check(3, 15), Ok(true));
    assert_eq!(check(3, 14), Ok(false));
    assert_eq!(check(3, -1).err().unwrap().variant, ErrorVariant::InvalidDistance);
    assert_eq!(
        Fallible::from(opendp_core__transformation_check(Some(&chain), Some(&3u32.erase()), Some(&15i64.erase())))
            .err()
            .unwrap()
            .variant,
        ErrorVariant::FailedCast
    );
    assert_eq!(ok_text(opendp_core__transformation_input_carrier_type(Some(&chain))), "Vec<i32>");
    assert_eq!(ok_text(opendp_core__transformation_output_distance_type(Some(&chain))), "i32");
    assert_eq!(failure(opendp_core__transformation_input_carrier_type(None)), ErrorVariant::FFI);
    assert_eq!(
        Fallible::from(opendp_core__transformation_map(Some(&chain), None)).err().unwrap().variant,
        ErrorVariant::FFI
    );

    let other: AnyTransformation = make_bounded_sum((0i32, 6)).unwrap().into_any();
    let clamp: AnyTransformation = make_clamp((0i32, 5)).unwrap().into_any();
    assert_eq!((clamp >> other).err().unwrap().variant, ErrorVariant::DomainMismatch);
}

#[test]
fn test_erased_measurement() {
    let m: AnyMeasurement = make_test_measurement().into_any();
    let d_out = Fallible::from(opendp_core__measurement_map(Some(&m), Some(&4u32.erase()))).unwrap();
    assert_eq!(i32::downcast(&d_out).unwrap(), 5);
    assert_eq!(
        Fallible::from(opendp_core__measurement_check(Some(&m), Some(&4u32.erase()), Some(&5i32.erase()))),
        Ok(true)
    );
    assert_eq!(
        Fallible::from(opendp_core__measurement_map(Some(&m), Some(&4i32.erase()))).err().unwrap().variant,
        ErrorVariant::FailedCast
    );
    assert_eq!(ok_text(opendp_core__measurement_input_carrier_type(Some(&m))), "i32");
    assert_eq!(ok_text(opendp_core__measurement_input_distance_type(Some(&m))), "u32");
    assert_eq!(ok_text(opendp_core__measurement_output_distance_type(Some(&m))), "i32");
    let through: FfiResult<AnyMeasurement> = Ok(make_test_measurement()).into_any();
    assert!(Fallible::from(through).is_ok());
    let failed: Fallible<Measurement<AllDomain<i32>, AllDomain<i32>, SymmetricDistance, MaxDivergence<i32>>> =
        Err(Error::with_message(ErrorVariant::MakeMeasurement, "no"));
    let through: FfiResult<AnyMeasurement> = failed.into_any();
    assert_eq!(Fallible::from(through).err().unwrap().variant, ErrorVariant::MakeMeasurement);
    let slice = FfiSlice::new(16, 3);
    assert_eq!((slice.ptr, slice.len), (16, 3));
}

fn erased_identity(domain: &str, input_metric: &str, output_metric: &str) -> Fallible<AnyTransformation> {
    AnyTransformation::new(
        AnyDomain::new(Type::try_from(domain)?, None, None)?,
        AnyDomain::new(Type::try_from(domain)?, None, None)?,
        Function::new(|arg: &AnyObject| arg.clone()),
        AnyMetric::new(Type::try_from(input_metric)?)?,
        AnyMetric::new(Type::try_from(output_metric)?)?,
        StabilityMap::new(|d_in: &AnyObject| d_in.clone()),
    )
}

#[test]
fn test_erased_mismatches() {
    let first = erased_identity("AllDomain<i32>", "AbsoluteDistance<i32>", "AbsoluteDistance<i32>").unwrap();
    let second = erased_identity("AllDomain<i32>", "DiscreteDistance", "DiscreteDistance").unwrap();
    let err = (first.clone() >> second).err().unwrap();
    assert_eq!(err.variant, ErrorVariant::MetricMismatch);
    assert_eq!(
        err.message.unwrap(),
        "Intermediate metrics don't match. See https://github.com/opendp/opendp/discussions/297\n    output_metric: AbsoluteDistance(i32)\n    input_metric:  DiscreteDistance()\n"
    );
    let wider = erased_identity("AllDomain<i64>", "AbsoluteDistance<i32>", "AbsoluteDistance<i32>").unwrap();
    let err = (first.clone() >> wider).err().unwrap();
    assert_eq!(err.variant, ErrorVariant::DomainMismatch);
    assert!(err.message.unwrap().contains("The structure of the intermediate domains are the same"));
    let same = erased_identity("AllDomain<i32>", "AbsoluteDistance<i32>", "AbsoluteDistance<i32>").unwrap();
    let chain = (first >> same).unwrap();
    assert_eq!(chain.input_domain().describe(), "AllDomain()");
    assert_eq!(chain.output_metric().describe(), "AbsoluteDistance(i32)");
    assert_eq!(i32::downcast(&chain.invoke(&5i32.erase()).unwrap()).unwrap(), 5);
    assert_eq!(
        erased_identity("VectorDomain<AllDomain<i32>>", "AbsoluteDistance<i32>", "SymmetricDistance")
            .err()
            .unwrap()
            .variant,
        ErrorVariant::InvalidMetricSpace
    );
    assert_eq!(
        erased_identity("AllDomain<i32>", "SymmetricDistance", "HammingDistance").err().unwrap().variant,
        ErrorVariant::InvalidMetricSpace
    );
}
