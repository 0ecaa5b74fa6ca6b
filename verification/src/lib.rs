//! A framework for assembling differentially private computations from
//! transformations and measurements whose stability and privacy guarantees
//! are re-derived mechanically whenever they are chained or composed.
//!
//! * `objects` holds what pipelines are made of: domains, metrics and
//!   measures as traits, functions, stability and privacy maps, and the
//!   transformations, measurements and postprocessors built from them.
//! * `domains`, `metrics` and `measures` hold the concrete ones.
//! * `combinators` chains and composes pipeline objects and keeps account
//!   of the privacy loss spent on a dataset.
//! * `transformations` and `measurements` hold constructors over integers.
//! * `ffi` erases types and marshals values and errors for callers that
//!   cannot name generic types.
//! * `traits` and `text` hold exact integer arithmetic and the text of
//!   diagnostics; `proven` indexes proof documents.
pub mod combinators;
pub mod domains;
pub mod error;
pub mod ffi;
pub mod measurements;
pub mod measures;
pub mod metrics;
pub mod objects;
pub mod proven;
pub mod text;
pub mod traits;
pub mod transformations;
