//! Constructors of transformations.
pub mod clamp;
pub mod stability;
pub mod sum;
pub mod variance;
