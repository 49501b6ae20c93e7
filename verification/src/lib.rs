//! Readiness notification and single-use privileged-operation tokens for a
//! minimal sandboxed runtime.
//!
//! The crate has three parts:
//! - [`event`]: an extensible readiness bit-set ([`event::PollEvents`]), the
//!   subject of polling ([`event::Pollee`]) with its observer registry, and the
//!   blocking-wait handle ([`event::Poller`]).
//! - [`path`]: conversions between text arguments and their null-terminated
//!   byte form, as needed when handing paths to a host system call.
//! - [`platform`]: the punchthrough protocol, a single-use capability token
//!   typed to a fixed success/failure pair, with trivial reference providers.

pub mod event;
pub mod path;
pub mod platform;
