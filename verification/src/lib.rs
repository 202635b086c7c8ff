//! A remotely controlled HTTP load generator: the decisions of its engine,
//! stated over plain values and proved.

pub mod client;
pub mod executor;
pub mod models;
pub mod text;
pub mod utils;
pub mod ws;
