//! The two platform adapters: each a session bootstrap, a wire codec and a
//! keepalive/cancellation state machine.

pub mod chzzk;
pub mod soop;
