//! The parts of measurements that are decided once the randomness is drawn.
pub mod randomized_response;
