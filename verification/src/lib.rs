//! A multi-party approval engine: proposals gated by roles, an approval
//! threshold, a cooling-off delay and an emergency halt.
//!
//! Every operation takes the stored state and the current time as explicit
//! arguments, so the engine is deterministic and owns no I/O.

pub mod approval;
pub mod error;
pub mod halt;
pub mod laws;
pub mod manager;
pub mod principal;
pub mod proposal;
pub mod roles;
pub mod store;
pub mod trading;
pub mod validation;
