//! The capability a sink offers to the core.
use vstd::prelude::*;
use crate::context::Context;
use crate::trace::OneTrace;
use crate::Errors;

verus! {

/// `anyhow::Error`, carried as it is by sinks that report a failure.
#[verifier::external_type_specification]
#[verifier::external_body]
pub struct ExAnyhowError(anyhow::Error);

/// A sink: one callback per level, and hooks for the end of a context and
/// for shutdown. Sinks handle their own failures while dispatching.
pub trait ModuleAbstract {
    fn name_set(&mut self, moduleName: String) -> Result<(), anyhow::Error>;

    fn name_get(&self) -> Result<String, anyhow::Error>;

    fn event_onDebug(&self, trace: &OneTrace);

    fn event_onDebugErr(&self, trace: &OneTrace);

    fn event_onNormal(&self, trace: &OneTrace);

    fn event_onNotice(&self, trace: &OneTrace);

    fn event_onNoticeErr(&self, trace: &OneTrace);

    fn event_onWarning(&self, trace: &OneTrace);

    fn event_onError(&self, trace: &OneTrace);

    fn event_onFatal(&self, trace: &OneTrace);

    /// A context that holds this sink ends.
    fn event_onContextExit(&self, context: &Context);

    /// The tracer shuts down.
    fn event_onGlobalExit(&self);
}

/// Gives `module` the name it is registered under; a failure comes back
/// tagged with that name.
pub fn module_name_set<M: ModuleAbstract + ?Sized>(module: &mut M, name: &str) -> (r: Result<(), Errors>)
    ensures
        r matches Err(e) ==> e matches Errors::ModuleConfigError(n, _) && n@ == name@,
{
    match module.name_set(String::from_str(name)) {
        Ok(()) => Ok(()),
        Err(e) => Err(Errors::ModuleConfigError(String::from_str(name), e)),
    }
}

} // verus!
