//! Verification core for a chat-platform identity bot: a record store over
//! user and guild rows, a one-time-passcode generator and validator, the
//! per-user verification state machine, and the cross-guild role
//! synchronization planner. All transport (chat platform, mail, persistence
//! backend) is left to a thin adapter around this crate.

pub mod email;
pub mod errors;
pub mod machine;
pub mod otp;
pub mod roles;
pub mod store;
