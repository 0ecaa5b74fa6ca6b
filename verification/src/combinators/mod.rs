//! Combinators: constructors that build new pipeline objects from existing ones.
pub mod accountant;
pub mod amplify;
pub mod chain;
pub mod composition;
pub mod fix_delta;
pub mod measure_cast;
