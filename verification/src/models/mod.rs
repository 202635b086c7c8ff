//! The data that a load test is described and summarised with.

pub mod dsl_model;
pub mod metrics;
