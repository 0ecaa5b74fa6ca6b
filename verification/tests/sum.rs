use opendp::error::{ErrorVariant, Fallible};
use opendp::transformations::clamp::make_clamp;
use opendp::transformations::sum::{
    make_bounded_int_monotonic_sum, make_bounded_int_split_sum, make_sized_bounded_int_monotonic_sum,
    make_sized_bounded_int_split_sum, IsMonotonic, SplitSatSum,
};

#[test]
fn test_make_bounded_int_monotonic_sum() -> Fallible<()> {
    let trans = make_bounded_int_monotonic_sum((1i32, 10))?;
    let sum = trans.invoke(&vec![1, 2, 3, 4])?;
    assert_eq!(sum, 10);

    let trans = make_bounded_int_monotonic_sum((1i32, 10))?;
    let sum = trans.invoke(&vec![1, 2, 3, 4])?;
    assert_eq!(sum, 10);

    // should fail under these conditions
    assert!(make_bounded_int_monotonic_sum((-1i32, 1)).is_err());

    Ok(())
}

#[test]
fn test_make_sized_bounded_int_monotonic_sum() -> Fallible<()> {
    let trans = make_sized_bounded_int_monotonic_sum(4, (1i32, 10))?;
    let sum = trans.invoke(&vec![1, 2, 3, 4])?;
    assert_eq!(sum, 10);

    let trans = make_sized_bounded_int_monotonic_sum(4, (1i32, 10))?;
    let sum = trans.invoke(&vec![1, 2, 3, 4])?;
    assert_eq!(sum, 10);

    Ok(())
}

#[test]
fn test_make_bounded_int_split_sum() -> Fallible<()> {
    let trans = make_bounded_int_split_sum((1i32, 10))?;
    let sum = trans.invoke(&vec![1, 2, 3, 4])?;
    assert_eq!(sum, 10);

    let trans = make_bounded_int_split_sum((1i32, 10))?;
    let sum = trans.invoke(&vec![1, 2, 3, 4])?;
    assert_eq!(sum, 10);

    // test saturation arithmetic
    let trans = make_bounded_int_split_sum((1i8, 127))?;
    let sum = trans.invoke(&vec![-128, 127, 127])?;
    // negative sum is -128, positive sum is 127; they cancel to -1
    assert_eq!(sum, -1);

    Ok(())
}

#[test]
fn test_make_sized_bounded_int_split_sum() -> Fallible<()> {
    let trans = make_sized_bounded_int_split_sum(4, (1i32, 10))?;
    let sum = trans.invoke(&vec![1, 2, 3, 4])?;
    assert_eq!(sum, 10);

    let trans = make_sized_bounded_int_split_sum(4, (1i32, 10))?;
    let sum = trans.invoke(&vec![1, 2, 3, 4])?;
    assert_eq!(sum, 10);

    Ok(())
}

#[test]
fn test_sum_stability_maps() {
    let trans = make_bounded_int_monotonic_sum((-10i32, -1)).unwrap();
    assert_eq!(trans.map(&3).unwrap(), 30);
    assert!(trans.check(&3, &30).unwrap());
    assert!(!trans.check(&3, &29).unwrap());
    assert_eq!(trans.check(&3, &-1).err().unwrap().variant, ErrorVariant::InvalidDistance);

    let sized = make_sized_bounded_int_split_sum(4, (-2i32, 10)).unwrap();
    assert_eq!(sized.map(&5).unwrap(), 24);
    assert_eq!(sized.map(&1).unwrap(), 0);

    let narrow = make_bounded_int_split_sum((1i8, 127)).unwrap();
    assert_eq!(narrow.map(&1).unwrap(), 127);
    assert_eq!(narrow.map(&2).err().unwrap().variant, ErrorVariant::FailedFunction);
    assert_eq!(narrow.map(&200).err().unwrap().variant, ErrorVariant::FailedCast);
}

#[test]
fn test_sum_constructors_fail_fast() {
    assert_eq!(
        make_bounded_int_monotonic_sum((-1i32, 1)).err().unwrap().variant,
        ErrorVariant::MakeTransformation
    );
    assert_eq!(
        make_bounded_int_split_sum((5i32, 1)).err().unwrap().variant,
        ErrorVariant::MakeTransformation
    );
    assert_eq!(
        make_bounded_int_split_sum((i8::MIN, 1)).err().unwrap().variant,
        ErrorVariant::FailedFunction
    );
    assert_eq!(
        make_sized_bounded_int_split_sum(3, (i8::MIN, 1)).err().unwrap().variant,
        ErrorVariant::FailedFunction
    );
    assert_eq!(
        make_sized_bounded_int_monotonic_sum(3, (5i32, 1)).err().unwrap().variant,
        ErrorVariant::MakeTransformation
    );
}

#[test]
fn test_is_monotonic_and_split_sat_sum() {
    assert!(<i32 as IsMonotonic>::is_monotonic((0, 5)));
    assert!(<i32 as IsMonotonic>::is_monotonic((-5, 0)));
    assert!(<i32 as IsMonotonic>::is_monotonic((-5, -1)));
    assert!(!<i32 as IsMonotonic>::is_monotonic((-5, 1)));
    assert!(<u8 as IsMonotonic>::is_monotonic((0, 255)));
    assert_eq!(<i8 as SplitSatSum>::split_sat_sum(&vec![100, 100, -100, -100, -100]), -1);
    assert_eq!(<u8 as SplitSatSum>::split_sat_sum(&vec![200, 100]), 255);
    assert_eq!(<i8 as SplitSatSum>::split_sat_sum(&vec![]), 0);
}

fn symmetric_distance(a: &[i32], b: &[i32]) -> u32 {
    let mut rest: Vec<i32> = b.to_vec();
    let mut only_a = 0;
    for x in a {
        match rest.iter().position(|y| y == x) {
            Some(i) => {
                rest.swap_remove(i);
            },
            None => only_a += 1,
        }
    }
    only_a + rest.len() as u32
}

#[test]
fn test_sums_are_stable() {
    let datasets: Vec<Vec<i32>> = vec![
        vec![],
        vec![3],
        vec![3, -4],
        vec![-4, 3],
        vec![5, 5, 5],
        vec![5, 5, -5],
        vec![-5, -5, -5, 1],
        vec![1, 2, 3, 4, 5],
        vec![5, 4, 3, 2, 1, 0],
        vec![-1, -2, -3, 4],
    ];
    let split = make_bounded_int_split_sum((-5i32, 5)).unwrap();
    let clamp = make_clamp((-5i32, 5)).unwrap();
    for a in &datasets {
        for b in &datasets {
            let d_in = symmetric_distance(a, b);
            assert_eq!(d_in, symmetric_distance(b, a));
            let bound = split.map(&d_in).unwrap();
            let (x, y) = (split.invoke(a).unwrap(), split.invoke(b).unwrap());
            assert!((x - y).abs() <= bound);
            let (ca, cb) = (clamp.invoke(a).unwrap(), clamp.invoke(b).unwrap());
            assert!(symmetric_distance(&ca, &cb) <= clamp.map(&d_in).unwrap());
            if a.len() == b.len() {
                let sized = make_sized_bounded_int_split_sum(a.len(), (-5i32, 5)).unwrap();
                assert!((sized.invoke(a).unwrap() - sized.invoke(b).unwrap()).abs() <= sized.map(&d_in).unwrap());
            }
        }
    }
    let monotonic = make_bounded_int_monotonic_sum((0i8, 100)).unwrap();
    let (a, b) = (vec![100i8, 100, 27], vec![100i8, 27]);
    assert_eq!((monotonic.invoke(&a).unwrap(), monotonic.invoke(&b).unwrap()), (127, 127));
    assert_eq!(monotonic.map(&1).unwrap(), 100);
}

#[test]
fn test_sums_in_pointer_width() -> Fallible<()> {
    assert!(<isize as IsMonotonic>::is_monotonic((0, 5)));
    assert!(<isize as IsMonotonic>::is_monotonic((-5, -1)));
    assert!(!<isize as IsMonotonic>::is_monotonic((-5, 1)));
    assert!(<usize as IsMonotonic>::is_monotonic((0, usize::MAX)));
    assert_eq!(<isize as SplitSatSum>::split_sat_sum(&vec![isize::MAX, 1, isize::MIN, -1]), -1);
    assert_eq!(<usize as SplitSatSum>::split_sat_sum(&vec![usize::MAX, 7]), usize::MAX);
    assert_eq!(<usize as SplitSatSum>::split_sat_sum(&vec![3, 4]), 7);

    let trans = make_bounded_int_monotonic_sum((1usize, 10))?;
    assert_eq!(trans.invoke(&vec![1, 2, 3, 4])?, 10);
    assert_eq!(trans.map(&3)?, 30);
    assert!(make_bounded_int_monotonic_sum((-1isize, 1)).is_err());
    let trans = make_bounded_int_split_sum((-3isize, 2))?;
    assert_eq!(trans.invoke(&vec![-3, 2, 2])?, 1);
    assert_eq!(trans.map(&2)?, 6);
    let trans = make_sized_bounded_int_split_sum(3, (-3isize, 2))?;
    assert_eq!(trans.map(&4)?, 10);
    Ok(())
}
