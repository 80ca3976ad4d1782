//! Which handler answers which request of the server.

use vstd::prelude::*;

verus! {

spec fn names_differ(entries: Seq<(&'static str, u64)>) -> bool {
    forall|i: int, j: int|
        0 <= i < entries.len() && 0 <= j < entries.len() && (#[trigger] entries[i]).0@ == (
        #[trigger] entries[j]).0@ ==> i == j
}

spec fn has_name(entries: Seq<(&'static str, u64)>, method: Seq<char>) -> bool {
    exists|i: int| 0 <= i < entries.len() && (#[trigger] entries[i]).0@ == method
}

spec fn index_of(entries: Seq<(&'static str, u64)>, method: Seq<char>) -> int {
    choose|i: int| 0 <= i < entries.len() && (#[trigger] entries[i]).0@ == method
}

spec fn as_map(entries: Seq<(&'static str, u64)>) -> Map<Seq<char>, u64> {
    Map::new(
        |method: Seq<char>| has_name(entries, method),
        |method: Seq<char>| entries[index_of(entries, method)].1,
    )
}

/// The handlers of the server's requests: at most one for each method, by number.
pub struct RequestHandlers {
    entries: Vec<(&'static str, u64)>,
}

impl View for RequestHandlers {
    type V = Map<Seq<char>, u64>;

    closed spec fn view(&self) -> Map<Seq<char>, u64> {
        as_map(self.entries@)
    }
}

impl RequestHandlers {
    /// What every table keeps: no method is listed twice.
    pub closed spec fn wf(&self) -> bool {
        names_differ(self.entries@)
    }

    /// A table without handlers.
    pub fn new() -> (handlers: Self)
        ensures
            handlers.wf(),
            handlers@ == (Map::<Seq<char>, u64>::empty()),
    {
        let handlers = RequestHandlers { entries: Vec::new() };
        assert(handlers@ =~= Map::<Seq<char>, u64>::empty());
        handlers
    }

    fn find(&self, method: &str) -> (index: Option<usize>)
        ensures
            match index {
                Some(i) => i < self.entries@.len() && self.entries@[i as int].0@ == method@,
                None => !has_name(self.entries@, method@),
            },
    {
        let mut i: usize = 0;
        while i < self.entries.len()
            invariant
                i <= self.entries@.len(),
                forall|j: int| 0 <= j < i ==> (#[trigger] self.entries@[j]).0@ != method@,
            decreases self.entries@.len() - i,
        {
            if *method == *self.entries[i].0 {
                return Some(i);
            }
            i = i + 1;
        }
        None
    }

    /// The handler of a method, if one is installed.
    pub fn get(&self, method: &str) -> (handler: Option<u64>)
        requires
            self.wf(),
        ensures
            handler == (if self@.contains_key(method@) {
                Some(self@[method@])
            } else {
                None
            }),
    {
        match self.find(method) {
            Some(i) => {
                assert(has_name(self.entries@, method@));
                assert(self.entries@[index_of(self.entries@, method@)].0@ == method@);
                Some(self.entries[i].1)
            },
            None => None,
        }
    }

    /// Installs the handler of a method in place of the one before, which it
    /// gives back.
    pub fn insert(&mut self, method: &'static str, handler: u64) -> (replaced: Option<u64>)
        requires
            old(self).wf(),
        ensures
            final(self).wf(),
            final(self)@ == old(self)@.insert(method@, handler),
            replaced == (if old(self)@.contains_key(method@) {
                Some(old(self)@[method@])
            } else {
                None
            }),
    {
        let ghost before = self.entries@;
        let replaced = self.get(method);
        match self.find(method) {
            Some(i) => {
                self.entries.set(i, (method, handler));
                assert(self.entries@ =~= before.update(i as int, (method, handler)));
                assert(self.entries@[i as int].0@ == method@);
            },
            None => {
                self.entries.push((method, handler));
                assert(self.entries@ =~= before.push((method, handler)));
                assert(self.entries@[before.len() as int].0@ == method@);
            },
        }
        proof {
            let after = self.entries@;
            assert(has_name(after, method@));
            assert forall|i: int, j: int|
                0 <= i < after.len() && 0 <= j < after.len() && (#[trigger] after[i]).0@ == (
                #[trigger] after[j]).0@ implies i == j by {
                if i < before.len() {
                    assert(after[i].0@ == before[i].0@);
                }
                if j < before.len() {
                    assert(after[j].0@ == before[j].0@);
                }
            }
            assert forall|m: Seq<char>| has_name(after, m) == (m == method@ || has_name(
                before,
                m,
            )) by {
                if has_name(after, m) && m != method@ {
                    assert(before[index_of(after, m)].0@ == m);
                }
                if has_name(before, m) {
                    assert(after[index_of(before, m)].0@ == m);
                }
            }
            assert forall|m: Seq<char>| has_name(after, m) implies #[trigger] as_map(after)[m]
                == as_map(before).insert(method@, handler)[m] by {
                let i = index_of(after, m);
                assert(after[i].0@ == m);
                if m != method@ {
                    assert(before[i].0@ == m);
                    assert(before[index_of(before, m)].0@ == m);
                }
            }
            assert(as_map(after) =~= as_map(before).insert(method@, handler));
        }
        replaced
    }
}

} // verus!
