//! Spans: the scope during which a context is on its thread's stack.
use vstd::prelude::*;
use crate::context::{opt_view, Context};
use crate::context_manager::{push_spec, remove_spec, thread_key, ContextManager};

verus! {

/// Holds the place of a pushed context on its thread's stack.
pub struct Span {
    _contextId: u64,
    _thread: Option<String>,
}

impl Span {
    /// Where the context sits on the stack.
    pub closed spec fn id(&self) -> nat {
        self._contextId as nat
    }

    /// The thread the span belongs to.
    pub closed spec fn thread(&self) -> Option<Seq<char>> {
        opt_view(self._thread)
    }

    /// Pushes `context` on the stack of the thread named `threadName`.
    pub fn new(manager: &mut ContextManager, threadName: &Option<String>, context: Context) -> (r: Span)
        requires
            old(manager).wf(),
            context.wf(),
        ensures
            final(manager).wf(),
            final(manager)@ == push_spec(old(manager)@, opt_view(*threadName), context@),
            r.thread() == opt_view(*threadName),
            r.id() == (if old(manager)@.contains_key(thread_key(opt_view(*threadName))) {
                old(manager)@[thread_key(opt_view(*threadName))].len()
            } else {
                0
            }),
    {
        let id = manager.add(threadName, context);
        Span { _contextId: id, _thread: threadName.clone() }
    }

    /// Ends the span: its context and everything pushed after it leave the
    /// stack (the global stack keeps its first context). Gives back the
    /// contexts removed, oldest first, for their exit hooks.
    pub fn close(self, manager: &mut ContextManager) -> (r: Vec<Context>)
        requires
            old(manager).wf(),
        ensures
            final(manager).wf(),
            final(manager)@ == remove_spec(old(manager)@, self.thread(), self.id()),
            forall|i: int| 0 <= i < r@.len() ==> (#[trigger] r@[i]).wf(),
    {
        manager.remove(&self._thread, self._contextId)
    }
}

} // verus!
