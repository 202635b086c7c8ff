//! The control plane of one operator: admission, the capacity rules and the
//! session that runs a test and reports on it.

pub mod admission;
pub mod capacity;
pub mod session;

pub use capacity::{validate_against, validate_config, ValidationError};
pub use session::{Action, Frame, Incoming, Phase, WsSession};
