//! Tracing core: severity levels, hierarchical thread contexts and their
//! resolution, a template formatter, and the deferred, time-ordered
//! dispatch of trace records to sinks.
#![allow(non_snake_case)]

pub mod level;
pub mod text;
pub mod keyed;
pub mod context;
pub mod context_manager;
pub mod trace;
pub mod formater;
pub mod params;
pub mod pipeline;
pub mod bridge;
pub mod frames;
pub mod file_sink;
pub mod thread_manager;
pub mod span;
pub mod module_abstract;

use vstd::prelude::*;
use Hconfig::Errors as StoreErrors;

verus! {

/// `Hconfig::Errors`, carried as it is in a configuration error.
#[verifier::external_type_specification]
#[verifier::external_body]
pub struct ExHconfigErrors(StoreErrors);

/// Errors surfaced to the code that registers or configures sinks.
pub enum Errors {
    /// No configuration node `module/<name>`.
    CannotFoundConfigNode(String),
    /// The sink named first failed to take its configuration.
    ModuleConfigError(String, anyhow::Error),
    /// The configuration store failed on the node named first.
    HConfigError(String, StoreErrors),
}

} // verus!
