//! Test-data generators of the challenges, with the randomness and JSON
//! encoding they rely on.
pub mod g2331;
pub mod g2332;
pub mod g2334;
pub mod g2414;
pub mod json;
pub mod random;
