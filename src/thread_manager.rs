//! What one thread registers about itself: its display name and its extras.
use vstd::prelude::*;
use crate::context::opt_view;
use crate::keyed::KeyedMap;

verus! {

/// The name and extras of one thread.
pub struct ThreadManager {
    _name: Option<String>,
    _extras: KeyedMap<String>,
}

impl ThreadManager {
    /// The registered name.
    pub closed spec fn name(&self) -> Option<Seq<char>> {
        opt_view(self._name)
    }

    /// The registered extras.
    pub closed spec fn extras(&self) -> Map<Seq<char>, Seq<char>> {
        self._extras@.map_values(|s: String| s@)
    }

    pub closed spec fn wf(&self) -> bool {
        self._extras.wf()
    }

    /// A thread that registered nothing.
    pub fn new() -> (r: ThreadManager)
        ensures
            r.wf(),
            r.name() is None,
            r.extras() == Map::<Seq<char>, Seq<char>>::empty(),
    {
        let r = ThreadManager { _name: None, _extras: KeyedMap::new() };
        assert(r.extras() =~= Map::<Seq<char>, Seq<char>>::empty());
        r
    }

    /// The thread's name, if it registered one.
    pub fn local_getName(&self) -> (r: Option<String>)
        ensures
            opt_view(r) == self.name(),
    {
        self._name.clone()
    }

    /// Registers the thread's name.
    pub fn local_setName(&mut self, name: &str)
        ensures
            final(self).wf() == old(self).wf(),
            final(self).name() == Some(name@),
            final(self).extras() == old(self).extras(),
    {
        self._name = Some(String::from_str(name));
    }

    /// The extra registered under `extraDataName`.
    pub fn local_getExtraDatas(&self, extraDataName: &str) -> (r: Option<String>)
        requires
            self.wf(),
        ensures
            opt_view(r) == (if self.extras().contains_key(extraDataName@) {
                Some(self.extras()[extraDataName@])
            } else {
                None
            }),
    {
        let k = String::from_str(extraDataName);
        match self._extras.get(&k) {
            Some(v) => Some(v.clone()),
            None => None,
        }
    }

    /// Registers an extra; gives back the one it replaces.
    pub fn local_setExtraDatas(&mut self, extraDataName: &str, content: &str) -> (r: Option<String>)
        requires
            old(self).wf(),
        ensures
            final(self).wf(),
            final(self).name() == old(self).name(),
            final(self).extras() == old(self).extras().insert(extraDataName@, content@),
            opt_view(r) == (if old(self).extras().contains_key(extraDataName@) {
                Some(old(self).extras()[extraDataName@])
            } else {
                None
            }),
    {
        let k = String::from_str(extraDataName);
        let previous = match self._extras.get(&k) {
            Some(v) => Some(v.clone()),
            None => None,
        };
        self._extras.insert(k, String::from_str(content));
        assert(self.extras() =~= old(self).extras().insert(extraDataName@, content@));
        previous
    }
}

} // verus!
