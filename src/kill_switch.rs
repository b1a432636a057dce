//! The kill-switch hierarchy, held as an arena of switches.
//!
//! Each switch has a liveness flag and the index of the switch it was forked
//! from. A parent is always created before its children, so a parent's index
//! is below its children's. Killing a switch kills its whole branch and never
//! reaches upward.
use vstd::prelude::*;

verus! {

/// A branch of the kill-switch hierarchy: the index of a switch in its tree.
#[derive(Debug, Clone, Copy, PartialEq, Eq, Structural)]
pub struct KillSwitch {
    pub id: usize,
}

/// `i` lies in the branch rooted at `a`: it is `a`, or its parent does.
pub open spec fn descends(parents: Seq<Option<usize>>, i: int, a: int) -> bool
    decreases i,
{
    if i == a {
        true
    } else if 0 <= i < parents.len() {
        match parents[i] {
            Some(p) => if p < i {
                descends(parents, p as int, a)
            } else {
                false
            },
            None => false,
        }
    } else {
        false
    }
}

/// The arena of every switch of one universe; switch 0 is the root.
pub struct KillSwitchTree {
    alive: Vec<bool>,
    parents: Vec<Option<usize>>,
}

impl KillSwitchTree {
    pub closed spec fn alive_view(&self) -> Seq<bool> {
        self.alive@
    }

    pub closed spec fn parents_view(&self) -> Seq<Option<usize>> {
        self.parents@
    }

    pub open spec fn len(&self) -> nat {
        self.parents_view().len()
    }

    /// Whether `s` names a switch of this tree.
    pub open spec fn holds(&self, s: KillSwitch) -> bool {
        s.id < self.len()
    }

    /// The root comes first and alone has no parent; every parent comes
    /// before its children; a dead parent has only dead children.
    pub open spec fn wf(&self) -> bool {
        let alive = self.alive_view();
        let parents = self.parents_view();
        &&& alive.len() == parents.len()
        &&& parents.len() >= 1
        &&& parents[0] is None
        &&& forall|i: int|
            #![trigger parents[i]]
            0 < i < parents.len() ==> {
                &&& parents[i] is Some
                &&& (parents[i]->0 as int) < i
                &&& !alive[parents[i]->0 as int] ==> !alive[i]
            }
    }

    /// The liveness flags after killing the branch rooted at `a`.
    pub open spec fn killed_view(&self, a: int) -> Seq<bool> {
        Seq::new(
            self.len(),
            |i: int| self.alive_view()[i] && !descends(self.parents_view(), i, a),
        )
    }

    /// A tree holding a single, live, root switch.
    pub fn new() -> (r: KillSwitchTree)
        ensures
            r.wf(),
            r.alive_view() == seq![true],
            r.parents_view() == seq![None::<usize>],
    {
        KillSwitchTree { alive: vec![true], parents: vec![None] }
    }

    /// The root switch, under which every other switch hangs.
    pub fn root(&self) -> (r: KillSwitch)
        ensures
            r.id == 0,
    {
        KillSwitch { id: 0 }
    }

    pub fn is_alive(&self, s: KillSwitch) -> (r: bool)
        requires
            self.wf(),
            self.holds(s),
        ensures
            r == self.alive_view()[s.id as int],
    {
        self.alive[s.id]
    }

    /// Forks a new switch under `parent`. It starts alive exactly when its
    /// parent is alive.
    pub fn fork_child(&mut self, parent: KillSwitch) -> (r: KillSwitch)
        requires
            old(self).wf(),
            old(self).holds(parent),
            old(self).len() < usize::MAX,
        ensures
            final(self).wf(),
            r.id == old(self).len(),
            final(self).parents_view() == old(self).parents_view().push(Some(parent.id)),
            final(self).alive_view() == old(self).alive_view().push(
                old(self).alive_view()[parent.id as int],
            ),
    {
        let id = self.parents.len();
        let parent_alive = self.alive[parent.id];
        self.alive.push(parent_alive);
        self.parents.push(Some(parent.id));
        KillSwitch { id }
    }

    /// Kills `s` and every switch of its branch. Other switches keep their
    /// state; killing a dead switch changes nothing.
    pub fn kill(&mut self, s: KillSwitch)
        requires
            old(self).wf(),
            old(self).holds(s),
        ensures
            final(self).wf(),
            final(self).parents_view() == old(self).parents_view(),
            final(self).alive_view() == old(self).killed_view(s.id as int),
    {
        let ghost parents = self.parents@;
        let ghost before = self.alive@;
        let n = self.parents.len();
        let mut hit: Vec<bool> = Vec::new();
        let mut i: usize = 0;
        while i < n
            invariant
                n == parents.len(),
                self.parents@ == parents,
                self.alive@.len() == n,
                before.len() == n,
                hit@.len() == i,
                i <= n,
                s.id < n,
                forall|j: int| #![trigger hit@[j]] 0 <= j < i ==> hit@[j] == descends(parents, j, s.id as int),
                forall|j: int|
                    #![trigger before[j]]
                    0 <= j < i ==> self.alive@[j] == (before[j] && !descends(
                        parents,
                        j,
                        s.id as int,
                    )),
                forall|j: int| i <= j < n ==> self.alive@[j] == before[j],
                parents.len() >= 1,
                parents[0] is None,
                forall|j: int|
                    #![trigger parents[j]]
                    0 < j < n ==> parents[j] is Some && (parents[j]->0 as int) < j,
            decreases n - i,
        {
            let ghost prev = self.alive@;
            assert(forall|j: int| 0 <= j < i ==> prev[j] == (before[j] && !descends(parents, j, s.id as int)));
            let in_branch = if i == s.id {
                true
            } else {
                match self.parents[i] {
                    Some(p) => hit[p],
                    None => false,
                }
            };
            proof {
                if i != s.id {
                    if i > 0 {
                        assert(parents[i as int] is Some);
                    }
                }
                assert(in_branch == descends(parents, i as int, s.id as int));
            }
            hit.push(in_branch);
            if in_branch {
                self.alive.set(i, false);
            }
            assert(self.alive@[i as int] == (before[i as int] && !descends(
                parents,
                i as int,
                s.id as int,
            )));
            i = i + 1;
        }
        proof {
            let after = self.alive@;
            assert(after =~= old(self).killed_view(s.id as int));
            assert forall|j: int|
                #![trigger parents[j]]
                0 < j < parents.len() && !after[parents[j]->0 as int] implies !after[j] by {
                let p = parents[j]->0 as int;
                if descends(parents, p, s.id as int) {
                    assert(descends(parents, j, s.id as int));
                }
            }
        }
    }
}

/// Every switch of a well-formed tree lies in the root's branch.
pub proof fn lemma_descends_from_root(t: &KillSwitchTree, i: int)
    requires
        t.wf(),
        0 <= i < t.len(),
    ensures
        descends(t.parents_view(), i, 0),
    decreases i,
{
    if i > 0 {
        let p = t.parents_view()[i]->0 as int;
        lemma_descends_from_root(t, p);
    }
}

/// Killing the root leaves no switch of the tree alive.
pub proof fn law_kill_root_kills_all(t: &KillSwitchTree)
    requires
        t.wf(),
    ensures
        forall|i: int| 0 <= i < t.len() ==> !(#[trigger] t.killed_view(0)[i]),
{
    assert forall|i: int| 0 <= i < t.len() implies !(#[trigger] t.killed_view(0)[i]) by {
        lemma_descends_from_root(t, i);
    }
}

/// Killing a switch never reaches a switch outside its branch, in particular
/// not its ancestors.
pub proof fn law_kill_stays_in_branch(t: &KillSwitchTree, a: int, i: int)
    requires
        t.wf(),
        0 <= a < t.len(),
        0 <= i < t.len(),
        !descends(t.parents_view(), i, a),
    ensures
        t.killed_view(a)[i] == t.alive_view()[i],
{
}

} // verus!
