//! Type erasure and the boundary to callers that cannot name generic types.
pub mod any;
pub mod boundary;
pub mod dispatch;
pub mod erased;
pub mod glue;
pub mod util;
