//! Process-wide registry of cancellation flags.
//!
//! Each live operation is a caller-chosen identifier mapped to one flag.
//! Registering an identifier installs a fresh, unsignaled flag (overwriting a
//! previous entry of the same identifier: last writer wins); signaling sets
//! the flag if the identifier is present and is a no-op otherwise; removal is
//! unconditional.

use vstd::prelude::*;
use crate::text::str_eq;

verus! {

/// One live operation: its identifier and its cancellation flag.
struct OperationEntry {
    id: String,
    signaled: bool,
}

/// Mapping from operation identifier to cancellation flag.
pub struct OperationRegistry {
    entries: Vec<OperationEntry>,
}

impl OperationRegistry {
    /// Identifiers are unique: a registered identifier maps to exactly one flag.
    pub closed spec fn wf(&self) -> bool {
        forall|i: int, j: int|
            0 <= i < j < self.entries@.len() ==> self.entries@[i].id@ != self.entries@[j].id@
    }

    pub closed spec fn spec_contains(&self, id: Seq<char>) -> bool {
        exists|i: int| 0 <= i < self.entries@.len() && self.entries@[i].id@ == id
    }

    spec fn spec_index_of(&self, id: Seq<char>) -> int {
        choose|i: int| 0 <= i < self.entries@.len() && self.entries@[i].id@ == id
    }

    pub closed spec fn spec_signaled(&self, id: Seq<char>) -> bool {
        self.spec_contains(id) && self.entries@[self.spec_index_of(id)].signaled
    }

    pub fn new() -> (r: Self)
        ensures
            r.wf(),
            forall|id: Seq<char>| !r.spec_contains(id),
    {
        OperationRegistry { entries: Vec::new() }
    }

    /// Index of the entry for `id`, if one exists.
    fn find(&self, id: &str) -> (r: Option<usize>)
        ensures
            match r {
                Some(i) => i < self.entries@.len() && self.entries@[i as int].id@ == id@,
                None => !self.spec_contains(id@),
            },
    {
        let mut k: usize = 0;
        let n = self.entries.len();
        while k < n
            invariant
                n == self.entries@.len(),
                k <= n,
                forall|j: int| 0 <= j < k ==> self.entries@[j].id@ != id@,
            decreases n - k,
        {
            if str_eq(self.entries[k].id.as_str(), id) {
                return Some(k);
            }
            k = k + 1;
        }
        None
    }

    /// Install a fresh, unsignaled flag for `id`; an existing entry of the
    /// same identifier is overwritten.
    pub fn register(&mut self, id: &str)
        requires
            old(self).wf(),
        ensures
            final(self).wf(),
            final(self).spec_contains(id@),
            !final(self).spec_signaled(id@),
            forall|o: Seq<char>| o != id@ ==> #[trigger] final(self).spec_contains(o) == old(self).spec_contains(o),
            forall|o: Seq<char>| o != id@ ==> #[trigger] final(self).spec_signaled(o) == old(self).spec_signaled(o),
    {
        self.unregister(id);
        let ghost mid = *self;
        self.entries.push(OperationEntry { id: id.to_owned(), signaled: false });
        proof {
            let n = mid.entries@.len() as int;
            assert forall|i: int, j: int|
                0 <= i < j < self.entries@.len() implies self.entries@[i].id@ != self.entries@[j].id@ by {
                if j < n {
                    assert(mid.wf());
                } else {
                    assert(self.entries@[j].id@ == id@);
                    assert(!mid.spec_contains(id@));
                }
            }
            assert(self.entries@[n].id@ == id@);
            assert(self.spec_contains(id@));
            assert(self.spec_index_of(id@) == n);
            assert(!self.spec_signaled(id@));
            assert forall|o: Seq<char>| o != id@ implies
                #[trigger] self.spec_contains(o) == mid.spec_contains(o) by {
                if self.spec_contains(o) {
                    let i = self.spec_index_of(o);
                    assert(0 <= i < self.entries@.len() && self.entries@[i].id@ == o);
                    assert(i < n);
                }
                if mid.spec_contains(o) {
                    let i = choose|i: int| 0 <= i < mid.entries@.len() && mid.entries@[i].id@ == o;
                    assert(self.entries@[i].id@ == o);
                }
            }
            assert forall|o: Seq<char>| o != id@ implies
                #[trigger] self.spec_signaled(o) == mid.spec_signaled(o) by {
                if self.spec_contains(o) {
                    let i = self.spec_index_of(o);
                    assert(i < n);
                    let k = mid.spec_index_of(o);
                    assert(mid.entries@[k].id@ == o);
                    assert(self.entries@[k].id@ == o);
                    assert(i == k);
                }
            }
        }
    }

    /// Set the flag for `id` if it is present; unknown identifiers are
    /// ignored, never an error.
    pub fn signal(&mut self, id: &str)
        requires
            old(self).wf(),
        ensures
            final(self).wf(),
            forall|o: Seq<char>| #[trigger] final(self).spec_contains(o) == old(self).spec_contains(o),
            old(self).spec_contains(id@) ==> final(self).spec_signaled(id@),
            forall|o: Seq<char>| o != id@ ==> #[trigger] final(self).spec_signaled(o) == old(self).spec_signaled(o),
            !old(self).spec_contains(id@) ==> *final(self) == *old(self),
    {
        let found = self.find(id);
        match found {
            None => { }
            Some(i) => {
                let entry = self.entries.remove(i);
                let ghost mid = *self;
                let ghost pre = *old(self);
                self.entries.push(OperationEntry { id: entry.id, signaled: true });
                proof {
                    let n = self.entries@.len() as int;
                    let i = i as int;
                    // the multiset of identifiers is preserved; indices shift
                    assert forall|a: int| 0 <= a < n implies
                        self.entries@[a].id@ == pre.entries@[Self::shift_src(a, i, n)].id@
                        && 0 <= Self::shift_src(a, i, n) < n by {
                    }
                    assert forall|x: int, y: int|
                        0 <= x < y < n implies self.entries@[x].id@ != self.entries@[y].id@ by {
                        let sx = Self::shift_src(x, i, n);
                        let sy = Self::shift_src(y, i, n);
                        assert(sx != sy);
                        assert(pre.wf());
                    }
                    assert forall|o: Seq<char>| #[trigger] self.spec_contains(o) == pre.spec_contains(o) by {
                        if self.spec_contains(o) {
                            let a = self.spec_index_of(o);
                            assert(pre.entries@[Self::shift_src(a, i, n)].id@ == o);
                        }
                        if pre.spec_contains(o) {
                            let b = choose|b: int| 0 <= b < n && pre.entries@[b].id@ == o;
                            let a = Self::shift_dst(b, i, n);
                            assert(self.entries@[a].id@ == o);
                        }
                    }
                    assert(self.entries@[n - 1].id@ == id@);
                    assert(self.spec_index_of(id@) == n - 1) by {
                        let a = self.spec_index_of(id@);
                        if a != n - 1 {
                            assert(self.entries@[a].id@ != self.entries@[n - 1].id@);
                        }
                    }
                    assert(self.spec_signaled(id@));
                    assert forall|o: Seq<char>| o != id@ implies
                        #[trigger] self.spec_signaled(o) == pre.spec_signaled(o) by {
                        if self.spec_contains(o) {
                            let a = self.spec_index_of(o);
                            assert(a != n - 1);
                            let s = Self::shift_src(a, i, n);
                            assert(pre.entries@[s].id@ == o);
                            let b = pre.spec_index_of(o);
                            assert(pre.entries@[b].id@ == o);
                            assert(b == s) by {
                                if b != s {
                                    assert(pre.wf());
                                }
                            }
                            assert(self.entries@[a].signaled == pre.entries@[s].signaled);
                        }
                    }
                }
            }
        }
    }

    /// Where index `a` of the registry after remove(i)-then-push came from in
    /// the registry before.
    spec fn shift_src(a: int, i: int, n: int) -> int {
        if a == n - 1 {
            i
        } else if a < i {
            a
        } else {
            a + 1
        }
    }

    /// Where index `b` of the registry before remove(i)-then-push went to.
    spec fn shift_dst(b: int, i: int, n: int) -> int {
        if b == i {
            n - 1
        } else if b < i {
            b
        } else {
            b - 1
        }
    }

    /// Remove the entry for `id` unconditionally; absent identifiers are a
    /// no-op.
    pub fn unregister(&mut self, id: &str)
        requires
            old(self).wf(),
        ensures
            final(self).wf(),
            !final(self).spec_contains(id@),
            forall|o: Seq<char>| o != id@ ==> #[trigger] final(self).spec_contains(o) == old(self).spec_contains(o),
            forall|o: Seq<char>| o != id@ ==> #[trigger] final(self).spec_signaled(o) == old(self).spec_signaled(o),
    {
        let found = self.find(id);
        match found {
            None => { }
            Some(i) => {
                let ghost pre = *old(self);
                self.entries.remove(i);
                proof {
                    let n = self.entries@.len() as int;
                    let i = i as int;
                    assert forall|a: int| 0 <= a < n implies
                        self.entries@[a] == pre.entries@[if a < i { a } else { a + 1 }] by {
                    }
                    assert forall|x: int, y: int|
                        0 <= x < y < n implies self.entries@[x].id@ != self.entries@[y].id@ by {
                        assert(pre.wf());
                    }
                    assert(!self.spec_contains(id@)) by {
                        if self.spec_contains(id@) {
                            let a = self.spec_index_of(id@);
                            let s: int = if a < i { a } else { a + 1 };
                            assert(pre.entries@[s].id@ == id@);
                            assert(pre.entries@[i].id@ == id@);
                            assert(s != i);
                            assert(pre.wf());
                        }
                    }
                    assert forall|o: Seq<char>| o != id@ implies
                        #[trigger] self.spec_contains(o) == pre.spec_contains(o) by {
                        if self.spec_contains(o) {
                            let a = self.spec_index_of(o);
                            let s: int = if a < i { a } else { a + 1 };
                            assert(pre.entries@[s].id@ == o);
                        }
                        if pre.spec_contains(o) {
                            let b = choose|b: int| 0 <= b < pre.entries@.len() && pre.entries@[b].id@ == o;
                            assert(b != i);
                            let a: int = if b < i { b } else { b - 1 };
                            assert(self.entries@[a].id@ == o);
                        }
                    }
                    assert forall|o: Seq<char>| o != id@ implies
                        #[trigger] self.spec_signaled(o) == pre.spec_signaled(o) by {
                        if self.spec_contains(o) {
                            let a = self.spec_index_of(o);
                            let s: int = if a < i { a } else { a + 1 };
                            assert(pre.entries@[s].id@ == o);
                            let b = pre.spec_index_of(o);
                            assert(pre.entries@[b].id@ == o);
                            assert(b == s) by {
                                if b != s {
                                    assert(pre.wf());
                                }
                            }
                        }
                    }
                }
            }
        }
    }

    /// Whether `id` is registered.
    pub fn has_operation(&self, id: &str) -> (r: bool)
        ensures
            r == self.spec_contains(id@),
    {
        match self.find(id) {
            Some(_) => true,
            None => false,
        }
    }

    /// Whether the flag for `id` has been signaled; false for unknown
    /// identifiers.
    pub fn is_signaled(&self, id: &str) -> (r: bool)
        requires
            self.wf(),
        ensures
            r == self.spec_signaled(id@),
    {
        match self.find(id) {
            Some(i) => {
                proof {
                    let a = self.spec_index_of(id@);
                    if a != i as int {
                        assert(self.wf());
                        assert(self.entries@[a].id@ == self.entries@[i as int].id@);
                    }
                }
                self.entries[i].signaled
            }
            None => false,
        }
    }
}

} // verus!
