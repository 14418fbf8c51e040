//! A catalog of named services with typed positional commands, the registry
//! that dispatches them, and the client-side engine that completes and hints
//! partially typed command lines against that catalog.
use vstd::prelude::*;

pub mod catalog;
pub mod cli;
pub mod completion;
pub mod help;
pub mod registry;
pub mod remote;
pub mod server;
pub mod services;
pub mod text;

pub use catalog::{ArgInfo, CommandInfo, ServiceInfo};
pub use cli::NexusCli;
pub use registry::{DispatchError, Registry, Service};
pub use server::{CommandResponse, NexusServer};

verus! {

/// The address a shell connects to when none is given.
pub const DEFAULT_ENDPOINT: &'static str = "/tmp/nexus.sock";

} // verus!
