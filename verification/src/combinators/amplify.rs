//! Amplification by subsampling: what makes a description of sampling usable.
use crate::error::{fails_with, Error, ErrorVariant, Fallible};
use vstd::prelude::*;

verus! {

/// Whether a sample of `sample_size` records out of `population_size` is
/// proper: it holds some of the population and not all of it.
pub open spec fn proper_sample(sample_size: usize, population_size: usize) -> bool {
    0 < sample_size < population_size
}

/// Checks the description of a sampling procedure. Fails with
/// `MakeMeasurement` exactly when the sample is not proper: with nothing or
/// everything sampled, subsampling amplifies nothing.
pub fn check_sampling(sample_size: usize, population_size: usize) -> (r: Fallible<()>)
    ensures
        proper_sample(sample_size, population_size) ==> r is Ok,
        !proper_sample(sample_size, population_size) ==> fails_with(r, ErrorVariant::MakeMeasurement),
{
    if sample_size == 0 {
        return Err(Error::with_message(ErrorVariant::MakeMeasurement, "the sample may not be empty"));
    }
    if population_size <= sample_size {
        return Err(
            Error::with_message(ErrorVariant::MakeMeasurement, "the population must be larger than the sample"),
        );
    }
    Ok(())
}

} // verus!
