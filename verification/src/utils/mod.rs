//! What the engine asks of the machine it runs on.

pub mod hardware;
