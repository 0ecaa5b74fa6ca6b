//! The objects that pipelines are assembled from.
pub mod function;
pub mod maps;
pub mod space;
pub mod units;
