//! The variance of a dataset of known size: what its constructor asks of the sizes.
use crate::error::{fails_with, Error, ErrorVariant, Fallible};
use vstd::prelude::*;

verus! {

/// A variance over `size` records with `ddof` degrees of freedom taken away
/// divides by `size - ddof`, which has to be positive: fails with
/// `MakeTransformation` exactly when `ddof` is not below `size`.
pub fn check_degrees_of_freedom(size: usize, ddof: usize) -> (r: Fallible<()>)
    ensures
        ddof < size ==> r is Ok,
        ddof >= size ==> fails_with(r, ErrorVariant::MakeTransformation),
{
    if ddof >= size {
        return Err(Error::with_message(ErrorVariant::MakeTransformation, "size - ddof must be greater than zero"));
    }
    Ok(())
}

} // verus!
