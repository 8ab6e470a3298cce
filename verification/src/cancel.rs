//! The cancellation fabric: a tree of tokens, runtime over box over
//! execution. Cancelling a token cancels its whole subtree and nothing
//! outside it.
//!
//! Nodes are created children-after-parents, so a parent's index is
//! always below its child's.

use vstd::prelude::*;

verus! {

/// The token tree: one entry per token, each holding its parent (the
/// root has none) and whether it was cancelled itself.
#[derive(Debug, Clone)]
pub struct CancelTree {
    pub parent: Vec<Option<usize>>,
    pub fired: Vec<bool>,
}

impl CancelTree {
    /// Parents precede their children, and every node has a firing flag.
    pub open spec fn wf(&self) -> bool {
        &&& self.fired@.len() == self.parent@.len()
        &&& (forall|i: int|
            0 <= i < self.parent@.len() ==> ((#[trigger] self.parent@[i]) matches Some(p) ==> (
            p as int) < i))
    }

    /// A token is cancelled when it or any ancestor fired.
    pub open spec fn spec_cancelled(&self, i: int) -> bool
        decreases i,
    {
        if 0 <= i < self.parent@.len() && i < self.fired@.len() {
            self.fired@[i] || (match self.parent@[i] {
                Some(p) => if (p as int) < i {
                    self.spec_cancelled(p as int)
                } else {
                    false
                },
                None => false,
            })
        } else {
            false
        }
    }

    /// `a` is a proper ancestor of `d`.
    pub open spec fn spec_is_ancestor(&self, a: int, d: int) -> bool
        decreases d,
    {
        if 0 <= d < self.parent@.len() {
            match self.parent@[d] {
                Some(p) => (p as int) < d && ((p as int) == a || self.spec_is_ancestor(a, p as int)),
                None => false,
            }
        } else {
            false
        }
    }

    /// A fresh tree holding the runtime's root token, index zero.
    pub fn new() -> (r: CancelTree)
        ensures
            r.wf(),
            r.parent@.len() == 1,
            r.parent@[0] is None,
            !r.spec_cancelled(0),
    {
        let mut parent: Vec<Option<usize>> = Vec::new();
        parent.push(None);
        let mut fired: Vec<bool> = Vec::new();
        fired.push(false);
        CancelTree { parent, fired }
    }

    /// Derive a child token. The child starts in its parent's cancelled
    /// state; every existing token keeps its state.
    pub fn child(&mut self, parent: usize) -> (c: usize)
        requires
            old(self).wf(),
            parent < old(self).parent@.len(),
        ensures
            final(self).wf(),
            c as int == old(self).parent@.len(),
            final(self).parent@ == old(self).parent@.push(Some(parent)),
            final(self).fired@ == old(self).fired@.push(false),
            forall|j: int|
                0 <= j < old(self).parent@.len() ==> final(self).spec_cancelled(j) == old(
                    self,
                ).spec_cancelled(j),
            final(self).spec_cancelled(c as int) == old(self).spec_cancelled(parent as int),
            final(self).spec_is_ancestor(parent as int, c as int),
    {
        let c = self.parent.len();
        self.parent.push(Some(parent));
        self.fired.push(false);
        proof {
            assert forall|j: int| 0 <= j < old(self).parent@.len() implies self.spec_cancelled(j)
                == old(self).spec_cancelled(j) by {
                lemma_push_preserves_cancelled(old(self), self, j);
            }
            assert(self.spec_cancelled(c as int) == self.spec_cancelled(parent as int));
            lemma_push_preserves_cancelled(old(self), self, parent as int);
        }
        c
    }

    /// Whether a token is cancelled: itself or any ancestor fired.
    pub fn is_cancelled(&self, i: usize) -> (r: bool)
        requires
            self.wf(),
            i < self.parent@.len(),
        ensures
            r == self.spec_cancelled(i as int),
    {
        let mut cur = i;
        loop
            invariant
                self.wf(),
                cur < self.parent@.len(),
                self.spec_cancelled(i as int) == self.spec_cancelled(cur as int),
            decreases cur,
        {
            if self.fired[cur] {
                return true;
            }
            match self.parent[cur] {
                Some(p) => {
                    cur = p;
                },
                None => {
                    return false;
                },
            }
        }
    }

    /// Fire a token: it and its whole subtree become cancelled; every
    /// token outside the subtree keeps its state.
    pub fn cancel(&mut self, i: usize)
        requires
            old(self).wf(),
            i < old(self).parent@.len(),
        ensures
            final(self).wf(),
            final(self).parent@ == old(self).parent@,
            final(self).fired@ == old(self).fired@.update(i as int, true),
            forall|j: int|
                0 <= j < final(self).parent@.len() ==> final(self).spec_cancelled(j) == (old(
                    self,
                ).spec_cancelled(j) || j == i || old(self).spec_is_ancestor(i as int, j)),
    {
        let ghost prev = *old(self);
        let _ = self.fired.remove(i);
        self.fired.insert(i, true);
        proof {
            assert(self.fired@ =~= prev.fired@.update(i as int, true));
            assert forall|j: int| 0 <= j < self.parent@.len() implies self.spec_cancelled(j) == (
            prev.spec_cancelled(j) || j == i || prev.spec_is_ancestor(i as int, j)) by {
                lemma_cancel_effect(&prev, self, i as int, j);
            }
        }
    }
}

/// Pushing a node changes no existing token's cancelled state.
proof fn lemma_push_preserves_cancelled(before: &CancelTree, after: &CancelTree, j: int)
    requires
        before.wf(),
        after.parent@ == before.parent@.push(after.parent@.last()),
        after.fired@ == before.fired@.push(after.fired@.last()),
        0 <= j < before.parent@.len(),
    ensures
        after.spec_cancelled(j) == before.spec_cancelled(j),
    decreases j,
{
    assert(after.parent@[j] == before.parent@[j]);
    assert(after.fired@[j] == before.fired@[j]);
    match before.parent@[j] {
        Some(p) => {
            if (p as int) < j {
                lemma_push_preserves_cancelled(before, after, p as int);
            }
        },
        None => {},
    }
}

/// Firing node `i` cancels exactly `i` and its descendants, on top of
/// whatever was cancelled before.
proof fn lemma_cancel_effect(before: &CancelTree, after: &CancelTree, i: int, j: int)
    requires
        before.wf(),
        0 <= i < before.parent@.len(),
        after.parent@ == before.parent@,
        after.fired@ == before.fired@.update(i, true),
        0 <= j < before.parent@.len(),
    ensures
        after.spec_cancelled(j) == (before.spec_cancelled(j) || j == i || before.spec_is_ancestor(
            i,
            j,
        )),
    decreases j,
{
    match before.parent@[j] {
        Some(p) => {
            if (p as int) < j {
                lemma_cancel_effect(before, after, i, p as int);
            }
        },
        None => {},
    }
}

/// An ancestor's index lies below its descendant's.
pub proof fn lemma_ancestor_index_below(t: &CancelTree, a: int, d: int)
    requires
        t.wf(),
        t.spec_is_ancestor(a, d),
    ensures
        a < d,
    decreases d,
{
    match t.parent@[d] {
        Some(p) => {
            if (p as int) != a {
                lemma_ancestor_index_below(t, a, p as int);
            }
        },
        None => {},
    }
}

/// Cancelling a parent cancels all its descendants.
pub proof fn lemma_cancel_propagates(before: &CancelTree, after: &CancelTree, i: int, d: int)
    requires
        before.wf(),
        0 <= i < before.parent@.len(),
        after.parent@ == before.parent@,
        after.fired@ == before.fired@.update(i, true),
        0 <= d < before.parent@.len(),
        d == i || before.spec_is_ancestor(i, d),
    ensures
        after.spec_cancelled(d),
{
    lemma_cancel_effect(before, after, i, d);
}

/// Cancelling a child leaves its parent — and every token that is not in
/// the child's subtree — exactly as it was.
pub proof fn lemma_cancel_is_local(before: &CancelTree, after: &CancelTree, i: int, j: int)
    requires
        before.wf(),
        0 <= i < before.parent@.len(),
        after.parent@ == before.parent@,
        after.fired@ == before.fired@.update(i, true),
        0 <= j < before.parent@.len(),
        j != i,
        !before.spec_is_ancestor(i, j),
    ensures
        after.spec_cancelled(j) == before.spec_cancelled(j),
{
    lemma_cancel_effect(before, after, i, j);
}

} // verus!
