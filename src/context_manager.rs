//! Per-thread context stacks, the global context, and resolution of the
//! effective context of a thread.
use vstd::prelude::*;
use crate::context::{empty_context, opt_view, overlay, Context, ContextView, SinkId};
use crate::keyed::KeyedMap;
use crate::thread_manager::ThreadManager;

verus! {

/// The reserved name of the global stack (and of the thread that set it).
pub open spec fn main_key() -> Seq<char> {
    seq!['M', 'A', 'I', 'N']
}

/// The stack a thread uses: the one of its name, or the global one.
pub open spec fn thread_key(t: Option<Seq<char>>) -> Seq<char> {
    match t {
        Some(n) => n,
        None => main_key(),
    }
}

/// `stack` laid over `acc`, oldest first.
pub open spec fn fold_overlay(acc: ContextView, stack: Seq<ContextView>) -> ContextView
    decreases stack.len(),
{
    if stack.len() == 0 {
        acc
    } else {
        overlay(fold_overlay(acc, stack.drop_last()), stack.last())
    }
}

/// Where resolution starts: the global context, or, before one is set, an
/// empty context with the thread's name.
pub open spec fn base_context(m: Map<Seq<char>, Seq<ContextView>>, t: Option<Seq<char>>) -> ContextView {
    if m.contains_key(main_key()) && m[main_key()].len() > 0 {
        m[main_key()][0]
    } else {
        ContextView { thread_name: t, ..empty_context() }
    }
}

/// The effective context of a thread named `t`.
pub open spec fn resolve_spec(m: Map<Seq<char>, Seq<ContextView>>, t: Option<Seq<char>>) -> ContextView {
    let g = base_context(m, t);
    if m.contains_key(thread_key(t)) {
        fold_overlay(g, m[thread_key(t)])
    } else {
        ContextView { thread_name: if t is Some { t } else { g.thread_name }, ..g }
    }
}

/// The length a stack keeps when the context at `id` is removed: never below
/// one for the global stack.
pub open spec fn kept_len(len: nat, id: nat, is_main: bool) -> nat {
    let floor: nat = if is_main { 1 } else { 0 };
    let target = if id > floor { id } else { floor };
    if len < target { len } else { target }
}

/// The stacks after pushing `c` on the stack of thread `t`.
pub open spec fn push_spec(m: Map<Seq<char>, Seq<ContextView>>, t: Option<Seq<char>>, c: ContextView) -> Map<Seq<char>, Seq<ContextView>> {
    let k = thread_key(t);
    let s = if m.contains_key(k) { m[k] } else { Seq::empty() };
    m.insert(k, s.push(c))
}

/// The stacks after removing the context at `id` from the stack of thread `t`.
pub open spec fn remove_spec(m: Map<Seq<char>, Seq<ContextView>>, t: Option<Seq<char>>, id: nat) -> Map<Seq<char>, Seq<ContextView>> {
    let k = thread_key(t);
    if m.contains_key(k) {
        m.insert(k, m[k].take(kept_len(m[k].len(), id, k == main_key()) as int))
    } else {
        m
    }
}

pub open spec fn stack_view(v: Vec<Context>) -> Seq<ContextView> {
    v@.map_values(|c: Context| c@)
}

/// One stack of contexts per thread name, plus the global stack.
pub struct ContextManager {
    data: KeyedMap<Vec<Context>>,
}

pub(crate) fn main_name() -> (r: String)
    ensures
        r@ == main_key(),
{
    let r = String::from_str("MAIN");
    proof {
        reveal_strlit("MAIN");
    }
    assert(r@ =~= main_key());
    r
}

fn key_of(threadName: &Option<String>) -> (r: String)
    ensures
        r@ == thread_key(opt_view(*threadName)),
{
    match threadName {
        Some(n) => n.clone(),
        None => main_name(),
    }
}

impl ContextManager {
    /// The stacks, by thread name.
    pub closed spec fn view(&self) -> Map<Seq<char>, Seq<ContextView>> {
        self.data@.map_values(|v: Vec<Context>| stack_view(v))
    }

    pub closed spec fn wf(&self) -> bool {
        &&& self.data.wf()
        &&& forall|k: Seq<char>, i: int|
            self.data@.contains_key(k) && 0 <= i < self.data@[k]@.len() ==> (#[trigger] self.data@[k]@[i]).wf()
    }

    pub fn new() -> (r: ContextManager)
        ensures
            r.wf(),
            r@ == Map::<Seq<char>, Seq<ContextView>>::empty(),
    {
        let r = ContextManager { data: KeyedMap::new() };
        assert(r@ =~= Map::<Seq<char>, Seq<ContextView>>::empty());
        r
    }

    /// Pushes `context` on the stack of the thread named `threadName` (the
    /// global stack for an unnamed thread) and returns its index there.
    pub fn add(&mut self, threadName: &Option<String>, context: Context) -> (r: u64)
        requires
            old(self).wf(),
            context.wf(),
        ensures
            final(self).wf(),
            final(self)@ == push_spec(old(self)@, opt_view(*threadName), context@),
            r == (if old(self)@.contains_key(thread_key(opt_view(*threadName))) {
                old(self)@[thread_key(opt_view(*threadName))].len()
            } else {
                0
            }),
    {
        let key = key_of(threadName);
        let mut stack = match self.data.take(&key) {
            Some(s) => s,
            None => Vec::new(),
        };
        let id = stack.len() as u64;
        let ghost before = stack@;
        stack.push(context);
        self.data.insert(key, stack);
        proof {
            let k = thread_key(opt_view(*threadName));
            assert(stack_view(stack) =~= stack_view_of(before).push(context@));
            if old(self)@.contains_key(k) {
                assert(stack_view_of(before) == old(self)@[k]);
            } else {
                assert(stack_view_of(before) =~= Seq::<ContextView>::empty());
            }
            assert(self.data@ == old(self).data@.remove(k).insert(k, stack));
            assert forall|kk: Seq<char>| #[trigger] self@.contains_key(kk) == push_spec(old(self)@, opt_view(*threadName), context@).contains_key(kk)
                && (self@.contains_key(kk) ==> self@[kk] == push_spec(old(self)@, opt_view(*threadName), context@)[kk]) by {
            }
            assert(self@ =~= push_spec(old(self)@, opt_view(*threadName), context@));
            assert forall|kk: Seq<char>, i: int|
                self.data@.contains_key(kk) && 0 <= i < self.data@[kk]@.len() implies (#[trigger] self.data@[kk]@[i]).wf() by {
                if kk != k {
                    assert(old(self).data@.contains_key(kk));
                    assert(old(self).data@[kk]@[i].wf());
                } else if i < before.len() {
                    assert(old(self).data@[kk]@[i].wf());
                }
            }
        }
        id
    }

    /// Removes the context at `contextId` from the stack of the thread, with
    /// everything above it, and returns what was removed, oldest first. The
    /// global stack keeps at least its first context.
    pub fn remove(&mut self, threadName: &Option<String>, contextId: u64) -> (r: Vec<Context>)
        requires
            old(self).wf(),
        ensures
            final(self).wf(),
            final(self)@ == remove_spec(old(self)@, opt_view(*threadName), contextId as nat),
            ({
                let k = thread_key(opt_view(*threadName));
                if old(self)@.contains_key(k) {
                    &&& stack_view(r) == old(self)@[k].skip(
                        kept_len(old(self)@[k].len(), contextId as nat, k == main_key()) as int,
                    )
                    &&& r@.len() == old(self)@[k].len() - kept_len(old(self)@[k].len(), contextId as nat, k == main_key())
                } else {
                    r@.len() == 0
                }
            }),
            forall|i: int| 0 <= i < r@.len() ==> (#[trigger] r@[i]).wf(),
    {
        let key = key_of(threadName);
        let main = main_name();
        let is_main = key == main;
        match self.data.take(&key) {
            None => {
                assert(self@ =~= old(self)@);
                Vec::new()
            },
            Some(mut stack) => {
                let ghost before = stack@;
                let floor: u64 = if is_main { 1 } else { 0 };
                let target: u64 = if contextId > floor { contextId } else { floor };
                let keep: usize = if (stack.len() as u64) < target { stack.len() } else { target as usize };
                let removed = stack.split_off(keep);
                self.data.insert(key, stack);
                proof {
                    let k = thread_key(opt_view(*threadName));
                    assert(keep as nat == kept_len(before.len(), contextId as nat, k == main_key()));
                    assert(stack_view(stack) =~= stack_view_of(before).take(keep as int));
                    assert(stack_view(removed) =~= stack_view_of(before).skip(keep as int));
                    assert(self@ =~= remove_spec(old(self)@, opt_view(*threadName), contextId as nat));
                    assert forall|kk: Seq<char>, i: int|
                        self.data@.contains_key(kk) && 0 <= i < self.data@[kk]@.len() implies (#[trigger] self.data@[kk]@[i]).wf() by {
                        if kk != k {
                            assert(old(self).data@.contains_key(kk));
                            assert(old(self).data@[kk]@[i].wf());
                        } else {
                            assert(old(self).data@[kk]@[i].wf());
                        }
                    }
                    assert forall|i: int| 0 <= i < removed@.len() implies (#[trigger] removed@[i]).wf() by {
                        assert(removed@[i] == before[keep + i]);
                        assert(old(self).data@[k]@[keep + i].wf());
                    }
                }
                removed
            },
        }
    }

    /// Makes `context` the global context: the global stack becomes that one
    /// context.
    pub fn global_set(&mut self, context: Context)
        requires
            old(self).wf(),
            context.wf(),
        ensures
            final(self).wf(),
            final(self)@ == old(self)@.insert(main_key(), seq![context@]),
    {
        let mut stack: Vec<Context> = Vec::new();
        stack.push(context);
        self.data.insert(main_name(), stack);
        proof {
            assert(stack_view(stack) =~= seq![context@]);
            assert(self@ =~= old(self)@.insert(main_key(), seq![context@]));
            assert forall|kk: Seq<char>, i: int|
                self.data@.contains_key(kk) && 0 <= i < self.data@[kk]@.len() implies (#[trigger] self.data@[kk]@[i]).wf() by {
                if kk != main_key() {
                    assert(old(self).data@.contains_key(kk));
                    assert(old(self).data@[kk]@[i].wf());
                }
            }
        }
    }

    /// Sets (or resets) the global context from the calling thread, which
    /// takes the reserved name MAIN; a context without a thread name gets
    /// that one.
    pub fn globalContext_set(&mut self, thread: &mut ThreadManager, context: Context)
        requires
            old(self).wf(),
            old(thread).wf(),
            context.wf(),
        ensures
            final(self).wf(),
            final(self)@ == old(self)@.insert(main_key(), seq![
                if context@.thread_name is Some { context@ } else { ContextView { thread_name: Some(main_key()), ..context@ } },
            ]),
            final(thread).wf(),
            final(thread).name() == Some(main_key()),
            final(thread).extras() == old(thread).extras(),
    {
        let mut context = context;
        let main = main_name();
        if context.threadName_get().is_none() {
            context.threadName_set(main.as_str());
        }
        self.global_set(context);
        thread.local_setName(main.as_str());
    }

    /// Each sink of the global context, once: the ones told of shutdown.
    pub fn global_sinks(&self) -> (r: Vec<SinkId>)
        requires
            self.wf(),
        ensures
            r@.no_duplicates(),
            forall|s: SinkId| #[trigger] r@.contains(s) <==> (self@.contains_key(main_key()) && self@[main_key()].len() > 0
                && exists|k: Seq<char>| self@[main_key()][0].modules.contains_key(k) && self@[main_key()][0].modules[k] == Some(s)),
    {
        let main = main_name();
        match self.data.get(&main) {
            Some(g) => {
                if g.len() > 0 {
                    proof {
                        assert(self.data@[main_key()]@[0].wf());
                    }
                    g[0].distinct_sinks()
                } else {
                    Vec::new()
                }
            },
            None => Vec::new(),
        }
    }

    /// The effective context of the thread named `threadName`.
    pub fn resolve(&self, threadName: &Option<String>) -> (r: Context)
        requires
            self.wf(),
        ensures
            r.wf(),
            r@ == resolve_spec(self@, opt_view(*threadName)),
    {
        let key = key_of(threadName);
        let main = main_name();
        let ghost t = opt_view(*threadName);
        let mut acc = match self.data.get(&main) {
            Some(g) => {
                if g.len() > 0 {
                    proof {
                        assert(self.data@[main_key()]@[0].wf());
                    }
                    g[0].duplicate()
                } else {
                    Context::for_thread(threadName.clone())
                }
            },
            None => Context::for_thread(threadName.clone()),
        };
        assert(acc@ == base_context(self@, t));
        match self.data.get(&key) {
            None => {
                match threadName {
                    Some(n) => acc.threadName_set(n.as_str()),
                    None => {},
                }
                acc
            },
            Some(stack) => {
                let ghost g = acc@;
                let mut i: usize = 0;
                while i < stack.len()
                    invariant
                        self.wf(),
                        self.data@.contains_key(key@),
                        *stack == self.data@[key@],
                        i <= stack@.len(),
                        acc.wf(),
                        acc@ == fold_overlay(g, stack_view(*stack).subrange(0, i as int)),
                    decreases stack@.len() - i,
                {
                    proof {
                        assert(stack@[i as int].wf());
                        let sv = stack_view(*stack);
                        assert(sv.subrange(0, i + 1).drop_last() =~= sv.subrange(0, i as int));
                    }
                    acc.overlay_with(&stack[i]);
                    i = i + 1;
                }
                proof {
                    let sv = stack_view(*stack);
                    assert(sv.subrange(0, stack@.len() as int) =~= sv);
                }
                acc
            },
        }
    }
}

pub open spec fn stack_view_of(s: Seq<Context>) -> Seq<ContextView> {
    s.map_values(|c: Context| c@)
}

/// The stacks after removing, in turn, the contexts at each of `ids` from
/// the stack of thread `t`.
pub open spec fn remove_each(m: Map<Seq<char>, Seq<ContextView>>, t: Option<Seq<char>>, ids: Seq<nat>) -> Map<Seq<char>, Seq<ContextView>>
    decreases ids.len(),
{
    if ids.len() == 0 {
        m
    } else {
        remove_each(remove_spec(m, t, ids[0]), t, ids.drop_first())
    }
}

/// Ending spans in any order never shortens a thread's stack below the length
/// `n` it had before those spans began, keeps everything under that length as
/// it was, leaves the other threads' stacks alone, and never empties the
/// global stack.
pub proof fn law_span_resilience(m: Map<Seq<char>, Seq<ContextView>>, t: Option<Seq<char>>, ids: Seq<nat>, n: nat)
    requires
        m.contains_key(thread_key(t)),
        n <= m[thread_key(t)].len(),
        forall|j: int| 0 <= j < ids.len() ==> ids[j] >= n,
    ensures
        ({
            let k = thread_key(t);
            let r = remove_each(m, t, ids);
            &&& r.contains_key(k)
            &&& n <= r[k].len() <= m[k].len()
            &&& r[k] == m[k].take(r[k].len() as int)
            &&& (k == main_key() && m[k].len() >= 1 ==> r[k].len() >= 1)
            &&& r.remove(k) == m.remove(k)
        }),
    decreases ids.len(),
{
    let k = thread_key(t);
    if ids.len() > 0 {
        let m1 = remove_spec(m, t, ids[0]);
        let keep = kept_len(m[k].len(), ids[0], k == main_key());
        assert(m1[k] == m[k].take(keep as int));
        assert forall|j: int| 0 <= j < ids.drop_first().len() implies ids.drop_first()[j] >= n by {
            assert(ids.drop_first()[j] == ids[j + 1]);
        }
        law_span_resilience(m1, t, ids.drop_first(), n);
        let r = remove_each(m1, t, ids.drop_first());
        assert(r[k] =~= m[k].take(r[k].len() as int));
        assert(m1.remove(k) =~= m.remove(k));
    }
}

/// While a child context that discards the sink name `name` is on a thread's
/// stack, the thread resolves a tombstone under that name, so the inherited
/// sink gets nothing from it; removing the child gives back the sinks and the
/// minimum level the thread resolved before.
pub proof fn law_discard_and_restore(m: Map<Seq<char>, Seq<ContextView>>, t: Option<Seq<char>>, child: ContextView, name: Seq<char>)
    requires
        m.contains_key(main_key()),
        m[main_key()].len() > 0,
        child.modules.contains_key(name),
        child.modules[name] is None,
    ensures
        ({
            let k = thread_key(t);
            let id = if m.contains_key(k) { m[k].len() } else { 0 };
            let pushed = push_spec(m, t, child);
            let during = resolve_spec(pushed, t);
            let after = resolve_spec(remove_spec(pushed, t, id), t);
            &&& during.modules.contains_key(name)
            &&& during.modules[name] is None
            &&& after.modules == resolve_spec(m, t).modules
            &&& after.minlvl == resolve_spec(m, t).minlvl
        }),
{
    let k = thread_key(t);
    let s = if m.contains_key(k) { m[k] } else { Seq::<ContextView>::empty() };
    let pushed = push_spec(m, t, child);
    let g = base_context(pushed, t);
    assert(s.push(child).drop_last() =~= s);
    assert(fold_overlay(g, s.push(child)) == overlay(fold_overlay(g, s), child));
    let id = s.len();
    assert(s.push(child).take(id as int) =~= s);
    let removed = remove_spec(pushed, t, id);
    assert(removed[k] == s);
    if m.contains_key(k) {
        assert(removed =~= m);
    } else {
        assert(k != main_key());
        assert(removed[main_key()] == m[main_key()]);
        assert(base_context(removed, t) == base_context(m, t));
        assert(fold_overlay(base_context(removed, t), Seq::<ContextView>::empty()) == base_context(m, t));
    }
}

} // verus!
