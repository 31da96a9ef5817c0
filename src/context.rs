//! Contexts: named, thread-associated bags of overrides.
use vstd::prelude::*;
use crate::keyed::KeyedMap;
use crate::level::Level;

verus! {

/// A sink is referred to by the number it was registered under.
pub type SinkId = u64;

/// What a context states, as mathematical values.
pub struct ContextView {
    pub thread_name: Option<Seq<char>>,
    pub name: Option<Seq<char>>,
    /// Sink name to sink; `None` is a tombstone that discards an inherited sink.
    pub modules: Map<Seq<char>, Option<SinkId>>,
    pub minlvl: Option<Level>,
    pub extras: Map<Seq<char>, Seq<char>>,
}

pub open spec fn opt_view(o: Option<String>) -> Option<Seq<char>> {
    match o {
        Some(s) => Some(s@),
        None => None,
    }
}

/// A context with nothing set.
pub open spec fn empty_context() -> ContextView {
    ContextView {
        thread_name: None,
        name: None,
        modules: Map::empty(),
        minlvl: None,
        extras: Map::empty(),
    }
}

/// `child` laid over `acc`: sinks and extras are merged with the child winning,
/// a tombstone blanks the inherited sink, and the child's minimum level and
/// thread name replace the inherited ones where the child sets them.
pub open spec fn overlay(acc: ContextView, child: ContextView) -> ContextView {
    ContextView {
        thread_name: if child.thread_name is Some { child.thread_name } else { acc.thread_name },
        name: acc.name,
        modules: acc.modules.union_prefer_right(child.modules),
        minlvl: if child.minlvl is Some { child.minlvl } else { acc.minlvl },
        extras: acc.extras.union_prefer_right(child.extras),
    }
}

/// The sinks among a sequence of entries that are not tombstones, in order.
pub open spec fn live_of(vals: Seq<Option<SinkId>>) -> Seq<SinkId>
    decreases vals.len(),
{
    if vals.len() == 0 {
        Seq::empty()
    } else {
        let rest = live_of(vals.drop_last());
        match vals.last() {
            Some(s) => rest.push(s),
            None => rest,
        }
    }
}

/// The effective minimum level: DEBUG where none is set.
pub open spec fn effective_min(c: ContextView) -> Level {
    match c.minlvl {
        Some(l) => l,
        None => Level::DEBUG,
    }
}

/// A set of overrides for the traces emitted while it is active.
pub struct Context {
    _threadName: Option<String>,
    _name: Option<String>,
    _modules: KeyedMap<Option<SinkId>>,
    _minlvl: Option<Level>,
    _extras: KeyedMap<String>,
}

impl View for Context {
    type V = ContextView;

    closed spec fn view(&self) -> ContextView {
        ContextView {
            thread_name: opt_view(self._threadName),
            name: opt_view(self._name),
            modules: self._modules@,
            minlvl: self._minlvl,
            extras: self._extras@.map_values(|s: String| s@),
        }
    }
}

proof fn lemma_live_of_member(vals: Seq<Option<SinkId>>, s: SinkId)
    ensures
        live_of(vals).contains(s) <==> vals.contains(Some(s)),
    decreases vals.len(),
{
    if vals.len() > 0 {
        lemma_live_of_member(vals.drop_last(), s);
        let rest = live_of(vals.drop_last());
        assert(vals =~= vals.drop_last().push(vals.last()));
        if vals.contains(Some(s)) {
            let i = choose|i: int| 0 <= i < vals.len() && vals[i] == Some(s);
            if i < vals.len() - 1 {
                assert(vals.drop_last()[i] == Some(s));
            }
        }
        if vals.drop_last().contains(Some(s)) {
            let i = choose|i: int| 0 <= i < vals.drop_last().len() && vals.drop_last()[i] == Some(s);
            assert(vals[i] == Some(s));
        }
        match vals.last() {
            Some(t) => {
                assert(rest.push(t).last() == t);
                if rest.contains(s) {
                    let i = choose|i: int| 0 <= i < rest.len() && rest[i] == s;
                    assert(rest.push(t)[i] == s);
                }
                if rest.push(t).contains(s) && t != s {
                    let i = choose|i: int| 0 <= i < rest.push(t).len() && rest.push(t)[i] == s;
                    assert(rest[i] == s);
                }
            },
            None => {},
        }
    }
}

proof fn lemma_push_contains<A>(q: Seq<A>, x: A, y: A)
    ensures
        q.push(x).contains(y) <==> q.contains(y) || x == y,
{
    if q.contains(y) {
        let i = choose|i: int| 0 <= i < q.len() && q[i] == y;
        assert(q.push(x)[i] == y);
    }
    if x == y {
        assert(q.push(x)[q.len() as int] == y);
    }
    if q.push(x).contains(y) && x != y {
        let i = choose|i: int| 0 <= i < q.push(x).len() && q.push(x)[i] == y;
        assert(q[i] == y);
    }
}

impl Context {
    pub closed spec fn wf(&self) -> bool {
        self._modules.wf() && self._extras.wf()
    }

    /// The sinks of the module map that are not tombstones, in registration order.
    pub closed spec fn live_sinks_seq(&self) -> Seq<SinkId> {
        live_of(self._modules.value_seq())
    }

    /// A context with nothing set.
    pub fn new() -> (r: Context)
        ensures
            r.wf(),
            r@ == empty_context(),
    {
        let r = Context {
            _threadName: None,
            _name: None,
            _modules: KeyedMap::new(),
            _minlvl: None,
            _extras: KeyedMap::new(),
        };
        assert(r@.extras =~= Map::<Seq<char>, Seq<char>>::empty());
        r
    }

    /// A context that carries the given thread name and nothing else.
    pub fn for_thread(threadName: Option<String>) -> (r: Context)
        ensures
            r.wf(),
            r@ == (ContextView { thread_name: opt_view(threadName), ..empty_context() }),
    {
        let mut r = Context::new();
        r._threadName = threadName;
        r
    }

    /// A context labelled `name`, for the given thread.
    pub fn named(threadName: Option<String>, name: &str) -> (r: Context)
        ensures
            r.wf(),
            r@ == (ContextView { thread_name: opt_view(threadName), name: Some(name@), ..empty_context() }),
    {
        let mut r = Context::for_thread(threadName);
        r.name_set(name);
        r
    }

    /// Registers `module` under `name`, replacing what this context had under it.
    pub fn module_add(&mut self, name: &str, module: SinkId)
        requires
            old(self).wf(),
        ensures
            final(self).wf(),
            final(self)@ == (ContextView { modules: old(self)@.modules.insert(name@, Some(module)), ..old(self)@ }),
    {
        self._modules.insert(String::from_str(name), Some(module));
    }

    /// Discards the sink inherited under `name`, for this context and its children.
    pub fn module_discard(&mut self, name: &str)
        requires
            old(self).wf(),
        ensures
            final(self).wf(),
            final(self)@ == (ContextView { modules: old(self)@.modules.insert(name@, None), ..old(self)@ }),
    {
        self._modules.insert(String::from_str(name), None);
    }

    /// The module map.
    pub fn modules_get(&self) -> (r: &KeyedMap<Option<SinkId>>)
        ensures
            r@ == self@.modules,
    {
        &self._modules
    }

    /// The sinks this context delivers to: every entry that is not a tombstone.
    pub fn live_sinks(&self) -> (r: Vec<SinkId>)
        requires
            self.wf(),
        ensures
            r@ == self.live_sinks_seq(),
            forall|s: SinkId| #[trigger] r@.contains(s) <==> exists|k: Seq<char>|
                self@.modules.contains_key(k) && self@.modules[k] == Some(s),
    {
        let n = self._modules.len();
        let mut r: Vec<SinkId> = Vec::new();
        let mut i: usize = 0;
        proof {
            self._modules.lemma_entries();
        }
        while i < n
            invariant
                self.wf(),
                n == self._modules.value_seq().len(),
                n == self._modules.key_seq().len(),
                i <= n,
                r@ == live_of(self._modules.value_seq().subrange(0, i as int)),
            decreases n - i,
        {
            let v = *self._modules.value_at(i);
            let ghost vs = self._modules.value_seq();
            assert(vs.subrange(0, i + 1).drop_last() =~= vs.subrange(0, i as int));
            match v {
                Some(s) => r.push(s),
                None => {},
            }
            i = i + 1;
        }
        proof {
            let vs = self._modules.value_seq();
            assert(vs.subrange(0, n as int) =~= vs);
            self._modules.lemma_entries();
            assert forall|s: SinkId| #[trigger] r@.contains(s) <==> exists|k: Seq<char>|
                self@.modules.contains_key(k) && self@.modules[k] == Some(s) by {
                lemma_live_of_member(vs, s);
                let ks = self._modules.key_seq();
                if vs.contains(Some(s)) {
                    let i = choose|i: int| 0 <= i < vs.len() && vs[i] == Some(s);
                    assert(self@.modules.contains_key(ks[i]));
                }
                if exists|k: Seq<char>| self@.modules.contains_key(k) && self@.modules[k] == Some(s) {
                    let k = choose|k: Seq<char>| self@.modules.contains_key(k) && self@.modules[k] == Some(s);
                    let i = choose|i: int| 0 <= i < ks.len() && ks[i] == k;
                    assert(vs[i] == Some(s));
                }
            }
        }
        r
    }

    /// Each sink this context delivers to, once.
    pub fn distinct_sinks(&self) -> (r: Vec<SinkId>)
        requires
            self.wf(),
        ensures
            r@.no_duplicates(),
            forall|s: SinkId| #[trigger] r@.contains(s) <==> exists|k: Seq<char>|
                self@.modules.contains_key(k) && self@.modules[k] == Some(s),
    {
        let all = self.live_sinks();
        let mut r: Vec<SinkId> = Vec::new();
        let mut i: usize = 0;
        while i < all.len()
            invariant
                i <= all@.len(),
                r@.no_duplicates(),
                forall|s: SinkId| #[trigger] r@.contains(s) <==> all@.subrange(0, i as int).contains(s),
            decreases all@.len() - i,
        {
            let s = all[i];
            let mut seen = false;
            let mut j: usize = 0;
            while j < r.len()
                invariant
                    j <= r@.len(),
                    seen <==> r@.subrange(0, j as int).contains(s),
                decreases r@.len() - j,
            {
                if r[j] == s {
                    seen = true;
                }
                proof {
                    assert(r@.subrange(0, j + 1) =~= r@.subrange(0, j as int).push(r@[j as int]));
                    lemma_push_contains(r@.subrange(0, j as int), r@[j as int], s);
                }
                j = j + 1;
            }
            assert(r@.subrange(0, r@.len() as int) =~= r@);
            proof {
                assert(all@.subrange(0, i + 1) =~= all@.subrange(0, i as int).push(s));
            }
            let ghost before = r@;
            if !seen {
                r.push(s);
            }
            proof {
                assert forall|x: SinkId| #[trigger] r@.contains(x) <==> all@.subrange(0, i + 1).contains(x) by {
                    lemma_push_contains(all@.subrange(0, i as int), s, x);
                    lemma_push_contains(before, s, x);
                }
                if !seen {
                    assert forall|a: int, b: int| 0 <= a < b < r@.len() implies r@[a] != r@[b] by {
                        if b == r@.len() - 1 {
                            assert(before[a] == r@[a]);
                            assert(before.contains(r@[a]));
                        }
                    }
                }
            }
            i = i + 1;
        }
        assert(all@.subrange(0, all@.len() as int) =~= all@);
        r
    }

    /// Sets this context's minimum level; `None` inherits the parent's.
    pub fn level_setMin(&mut self, min: Option<Level>)
        ensures
            final(self).wf() == old(self).wf(),
            final(self)@ == (ContextView { minlvl: min, ..old(self)@ }),
    {
        self._minlvl = min;
    }

    /// This context's minimum level, if it sets one.
    pub fn level_getMin(&self) -> (r: Option<Level>)
        ensures
            r == self@.minlvl,
    {
        self._minlvl
    }

    /// Sets the thread name shown for the traces of this context.
    pub fn threadName_set(&mut self, threadName: &str)
        ensures
            final(self).wf() == old(self).wf(),
            final(self)@ == (ContextView { thread_name: Some(threadName@), ..old(self)@ }),
    {
        self._threadName = Some(String::from_str(threadName));
    }

    /// The thread name of this context.
    pub fn threadName_get(&self) -> (r: &Option<String>)
        ensures
            opt_view(*r) == self@.thread_name,
    {
        &self._threadName
    }

    /// Sets the label of this context.
    pub fn name_set(&mut self, name: &str)
        ensures
            final(self).wf() == old(self).wf(),
            final(self)@ == (ContextView { name: Some(name@), ..old(self)@ }),
    {
        self._name = Some(String::from_str(name));
    }

    /// The label of this context.
    pub fn name_get(&self) -> (r: &Option<String>)
        ensures
            opt_view(*r) == self@.name,
    {
        &self._name
    }

    /// Sets the extra `name` to `content`.
    pub fn extra_set(&mut self, name: &str, content: &str)
        requires
            old(self).wf(),
        ensures
            final(self).wf(),
            final(self)@ == (ContextView { extras: old(self)@.extras.insert(name@, content@), ..old(self)@ }),
    {
        let c = String::from_str(content);
        self._extras.insert(String::from_str(name), c);
        assert(self@.extras =~= old(self)@.extras.insert(name@, content@));
    }

    /// The extra under `name`.
    pub fn extra_get(&self, name: &str) -> (r: Option<&String>)
        requires
            self.wf(),
        ensures
            r matches Some(v) ==> self@.extras.contains_key(name@) && self@.extras[name@] == v@,
            r is None ==> !self@.extras.contains_key(name@),
    {
        let k = String::from_str(name);
        self._extras.get(&k)
    }

    /// Merges `other` into the extras, `other` winning on equal keys.
    pub fn extra_merge(&mut self, other: &KeyedMap<String>)
        requires
            old(self).wf(),
            other.wf(),
        ensures
            final(self).wf(),
            final(self)@ == (ContextView {
                extras: old(self)@.extras.union_prefer_right(other@.map_values(|s: String| s@)),
                ..old(self)@
            }),
    {
        self._extras.merge_strings(other);
        assert(self@.extras =~= old(self)@.extras.union_prefer_right(other@.map_values(|s: String| s@)));
    }

    /// All the extras.
    pub fn extra_getAll(&self) -> (r: &KeyedMap<String>)
        ensures
            r@.map_values(|s: String| s@) == self@.extras,
            self.wf() ==> r.wf(),
    {
        &self._extras
    }

    /// Lays `child` over this context (see `overlay`).
    pub fn overlay_with(&mut self, child: &Context)
        requires
            old(self).wf(),
            child.wf(),
        ensures
            final(self).wf(),
            final(self)@ == overlay(old(self)@, child@),
    {
        self._modules.merge_from(&child._modules);
        self._extras.merge_strings(&child._extras);
        if child._minlvl.is_some() {
            self._minlvl = child._minlvl;
        }
        match &child._threadName {
            Some(t) => {
                self._threadName = Some(t.clone());
            },
            None => {},
        }
        assert(self@.extras =~= overlay(old(self)@, child@).extras);
    }

    /// A copy of this context.
    pub fn duplicate(&self) -> (r: Context)
        requires
            self.wf(),
        ensures
            r.wf(),
            r@ == self@,
    {
        let mut modules = KeyedMap::new();
        modules.merge_from(&self._modules);
        let mut extras = KeyedMap::new();
        extras.merge_strings(&self._extras);
        let r = Context {
            _threadName: self._threadName.clone(),
            _name: self._name.clone(),
            _modules: modules,
            _minlvl: self._minlvl,
            _extras: extras,
        };
        assert(r@.modules =~= self@.modules);
        assert(r._extras@ =~= self._extras@);
        assert(r@.extras =~= self@.extras);
        r
    }
}

impl Default for Context {
    fn default() -> (r: Context)
        ensures
            r.wf(),
            r@ == empty_context(),
    {
        Context::new()
    }
}

} // verus!
