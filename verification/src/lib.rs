//! Core library of a local agent daemon: a conversation-owning orchestrator
//! that drives a bounded tool-calling loop, a registry of built-in tool
//! capabilities, a JSON wire codec for the request/response protocol, and
//! the configuration and bookkeeping records around them.

pub mod agent;
pub mod codec;
pub mod config;
pub mod memory;
pub mod protocol;
pub mod provider;
pub mod recovery;
pub mod tools;
pub mod strutil;

use vstd::prelude::*;

verus! {

/// The fixed ceiling on provider calls within one chat request.
pub const MAX_ITERATIONS: u64 = 10;

} // verus!
