//! The scene model: an arena of nodes with parent / first-child /
//! next-sibling links, per-node geometry, visibility and focusability, and
//! the candidate enumerator that collects every focusable, visible node of
//! a subtree in document order.
//!
//! Links always point at strictly larger arena indices than the node that
//! holds them (parents at strictly smaller ones), which both rules cycles
//! out and bounds every traversal.

use vstd::prelude::*;
use crate::geometry::Rect;

verus! {

/// One scene node: its rectangle in global coordinates, its effective
/// visibility, whether it can take focus directly, and its tree links.
#[derive(Clone, Copy, Debug)]
pub struct SceneNode {
    pub rect: Rect,
    pub visible: bool,
    pub focusable: bool,
    pub parent: Option<usize>,
    pub first_child: Option<usize>,
    pub next_sibling: Option<usize>,
}

/// The scene: an arena of nodes plus the index of the focused node, if any.
#[derive(Debug)]
pub struct SceneTree {
    pub nodes: Vec<SceneNode>,
    pub focused: Option<usize>,
}

impl SceneTree {
    /// Link conditions for one node: the parent sits at a smaller index,
    /// children and siblings at larger ones, a child points back at its
    /// parent, and siblings share their parent.
    pub open spec fn node_wf(self, i: int) -> bool {
        &&& self.nodes[i].rect.wf()
        &&& (self.nodes[i].parent matches Some(p) ==> (p as int) < i)
        &&& (self.nodes[i].first_child matches Some(c) ==> i < (c as int) < self.nodes.len()
            && self.nodes[c as int].parent == Some(i as usize))
        &&& (self.nodes[i].next_sibling matches Some(s) ==> i < (s as int) < self.nodes.len()
            && self.nodes[s as int].parent == self.nodes[i].parent)
    }

    pub open spec fn wf(self) -> bool {
        &&& (forall |i: int| #![trigger self.nodes[i]]
            0 <= i < self.nodes.len() ==> self.node_wf(i))
        &&& (self.focused matches Some(f) ==> (f as int) < self.nodes.len())
    }

    pub fn new() -> (t: SceneTree)
        ensures
            t.nodes@.len() == 0,
            t.focused is None,
            t.wf(),
    {
        SceneTree { nodes: Vec::new(), focused: None }
    }

    pub fn current_focused_node(&self) -> (f: Option<usize>)
        ensures
            f == self.focused,
    {
        self.focused
    }

    /// The single mutation the navigation algorithm performs: move focus to
    /// the given node. Nothing else of the scene changes.
    pub fn set_focus(&mut self, idx: usize)
        requires
            old(self).wf(),
            (idx as int) < old(self).nodes.len(),
        ensures
            final(self).wf(),
            final(self).nodes == old(self).nodes,
            final(self).focused == Some(idx),
    {
        self.focused = Some(idx);
    }

    /// Measure used by chain recursions: distance from the chain head to the
    /// end of the arena.
    pub open spec fn chain_measure(self, start: Option<usize>) -> int {
        match start {
            None => 0,
            Some(c) => self.nodes.len() - c,
        }
    }

    /// Index of the last sibling on the chain starting at `c`.
    pub open spec fn last_sibling(self, c: int) -> int
        decreases self.nodes.len() - c
            when self.wf() && 0 <= c < self.nodes.len()
    {
        match self.nodes[c].next_sibling {
            None => c,
            Some(s) => self.last_sibling(s as int),
        }
    }

    fn last_sibling_index(&self, c: usize) -> (t: usize)
        requires
            self.wf(),
            (c as int) < self.nodes.len(),
        ensures
            t == self.last_sibling(c as int),
            c <= t,
            (t as int) < self.nodes.len(),
            self.nodes[t as int].next_sibling is None,
            self.nodes[t as int].parent == self.nodes[c as int].parent,
        decreases self.nodes@.len() - c,
    {
        match self.nodes[c].next_sibling {
            None => c,
            Some(s) => self.last_sibling_index(s),
        }
    }

    /// Append a node to the arena, linked as the last child of `parent`
    /// (or as a root when `parent` is `None`). Returns its index.
    pub fn add_node(&mut self, parent: Option<usize>, rect: Rect, visible: bool, focusable: bool)
        -> (idx: usize)
        requires
            old(self).wf(),
            rect.wf(),
            (parent matches Some(p) ==> (p as int) < old(self).nodes.len()),
        ensures
            final(self).wf(),
            idx == old(self).nodes.len(),
            final(self).nodes@.len() == old(self).nodes@.len() + 1,
            final(self).focused == old(self).focused,
            final(self).nodes[idx as int] == (SceneNode {
                rect, visible, focusable, parent, first_child: None, next_sibling: None,
            }),
            (match parent {
                None => final(self).nodes@ == old(self).nodes@.push(
                    final(self).nodes[idx as int]),
                Some(p) => (match old(self).nodes[p as int].first_child {
                    None => final(self).nodes@ == old(self).nodes@
                        .update(p as int, with_first_child(old(self).nodes[p as int], idx))
                        .push(final(self).nodes[idx as int]),
                    Some(c) => final(self).nodes@ == old(self).nodes@
                        .update(
                            old(self).last_sibling(c as int),
                            with_next_sibling(
                                old(self).nodes[old(self).last_sibling(c as int)], idx),
                        )
                        .push(final(self).nodes[idx as int]),
                }),
            }),
    {
        let idx = self.nodes.len();
        let node = SceneNode {
            rect, visible, focusable, parent, first_child: None, next_sibling: None,
        };
        match parent {
            None => {
                self.nodes.push(node);
                proof {
                    assert(self.node_wf(idx as int));
                    lemma_wf_grow(*old(self), *self);
                }
            }
            Some(p) => {
                let fc = self.nodes[p].first_child;
                match fc {
                    None => {
                        self.nodes.push(node);
                        let ghost grown = *self;
                        proof {
                            assert(grown.node_wf(idx as int));
                            lemma_wf_grow(*old(self), grown);
                        }
                        let mut pn = self.nodes[p];
                        pn.first_child = Some(idx);
                        self.nodes[p] = pn;
                        proof {
                            assert(grown.node_wf(p as int));
                            assert(self.node_wf(p as int));
                            lemma_wf_relink(grown, *self, p as int);
                            assert(self.nodes@ =~= old(self).nodes@
                                .update(p as int, with_first_child(old(self).nodes[p as int], idx))
                                .push(self.nodes[idx as int]));
                        }
                    }
                    Some(c) => {
                        let t = self.last_sibling_index(c);
                        self.nodes.push(node);
                        let ghost grown = *self;
                        proof {
                            assert(grown.node_wf(idx as int));
                            lemma_wf_grow(*old(self), grown);
                        }
                        let mut tn = self.nodes[t];
                        tn.next_sibling = Some(idx);
                        self.nodes[t] = tn;
                        proof {
                            assert(old(self).node_wf(p as int));
                            assert(grown.node_wf(t as int));
                            assert(self.node_wf(t as int));
                            lemma_wf_relink(grown, *self, t as int);
                            assert(self.nodes@ =~= old(self).nodes@
                                .update(
                                    t as int,
                                    with_next_sibling(old(self).nodes[t as int], idx),
                                )
                                .push(self.nodes[idx as int]));
                        }
                    }
                }
            }
        }
        idx
    }
}

impl SceneTree {
    /// What makes an index an acceptable candidate: it names a visible,
    /// focusable node other than the excluded one.
    pub open spec fn candidate_ok(self, excluded: int, e: usize) -> bool {
        &&& (e as int) < self.nodes.len()
        &&& (e as int) != excluded
        &&& self.nodes[e as int].visible
        &&& self.nodes[e as int].focusable
    }

    /// Candidates contributed by the subtree rooted at node `i`: nothing
    /// when `i` is the excluded branch or invisible, the node itself when
    /// it is focusable (direct focus wins over its descendants), and
    /// otherwise whatever its children contribute.
    pub open spec fn collected_node(self, i: int, excluded: int) -> Seq<usize>
        decreases self.nodes.len() - i, 0int
            when self.wf() && 0 <= i < self.nodes.len()
    {
        if i == excluded || !self.nodes[i].visible {
            Seq::empty()
        } else if self.nodes[i].focusable {
            seq![i as usize]
        } else {
            self.collected_chain(self.nodes[i].first_child, excluded)
        }
    }

    /// Candidates contributed by the sibling chain starting at `start`, in
    /// document order.
    pub open spec fn collected_chain(self, start: Option<usize>, excluded: int) -> Seq<usize>
        decreases self.chain_measure(start), 1int
            when self.wf() && (start matches Some(c) ==> (c as int) < self.nodes.len())
    {
        match start {
            None => Seq::empty(),
            Some(c) => self.collected_node(c as int, excluded)
                + self.collected_chain(self.nodes[c as int].next_sibling, excluded),
        }
    }

    /// The candidate list for one scope: every focusable, visible node
    /// under `scope`, in document order, with the `excluded` branch and the
    /// descendants of focusable nodes pruned.
    pub open spec fn spec_candidates(self, scope: int, excluded: int) -> Seq<usize>
        recommends
            self.wf(),
            0 <= scope < self.nodes.len(),
    {
        self.collected_chain(self.nodes[scope].first_child, excluded)
    }

    fn collect_node(&self, i: usize, excluded: usize, out: &mut Vec<usize>)
        requires
            self.wf(),
            (i as int) < self.nodes.len(),
        ensures
            final(out)@ == old(out)@ + self.collected_node(i as int, excluded as int),
            forall |k: int| old(out)@.len() <= k < final(out)@.len()
                ==> self.candidate_ok(excluded as int, #[trigger] final(out)@[k]),
        decreases self.nodes@.len() - i, 0int,
    {
        if i == excluded || !self.nodes[i].visible {
            proof {
                assert(out@ =~= old(out)@ + self.collected_node(i as int, excluded as int));
            }
            return;
        }
        if self.nodes[i].focusable {
            out.push(i);
            proof {
                assert(out@ =~= old(out)@ + self.collected_node(i as int, excluded as int));
            }
            return;
        }
        self.collect_chain(self.nodes[i].first_child, excluded, out);
    }

    fn collect_chain(&self, start: Option<usize>, excluded: usize, out: &mut Vec<usize>)
        requires
            self.wf(),
            (start matches Some(c) ==> (c as int) < self.nodes.len()),
        ensures
            final(out)@ == old(out)@ + self.collected_chain(start, excluded as int),
            forall |k: int| old(out)@.len() <= k < final(out)@.len()
                ==> self.candidate_ok(excluded as int, #[trigger] final(out)@[k]),
        decreases self.chain_measure(start), 1int,
    {
        match start {
            None => {
                proof {
                    assert(out@ =~= old(out)@ + self.collected_chain(start, excluded as int));
                }
            }
            Some(c) => {
                self.collect_node(c, excluded, out);
                self.collect_chain(self.nodes[c].next_sibling, excluded, out);
                proof {
                    assert(out@ =~= old(out)@ + self.collected_chain(start, excluded as int));
                }
            }
        }
    }

    /// The candidate enumerator: collect every focusable, visible node
    /// under `scope` other than the `excluded` branch, in document order.
    /// It only reads the scene.
    pub fn enumerate_candidates(&self, scope: usize, excluded: usize) -> (out: Vec<usize>)
        requires
            self.wf(),
            (scope as int) < self.nodes.len(),
        ensures
            out@ == self.spec_candidates(scope as int, excluded as int),
            forall |k: int| 0 <= k < out@.len()
                ==> self.candidate_ok(excluded as int, #[trigger] out@[k]),
    {
        let mut out: Vec<usize> = Vec::new();
        self.collect_chain(self.nodes[scope].first_child, excluded, &mut out);
        proof {
            assert(out@ =~= self.spec_candidates(scope as int, excluded as int));
        }
        out
    }

    /// Soundness of the enumerator over one subtree: everything it
    /// collects is a visible, focusable node other than the excluded one.
    /// In particular an invisible node, however near, is never a candidate.
    pub proof fn lemma_collected_node_sound(self, i: int, excluded: int)
        requires
            self.wf(),
            0 <= i < self.nodes.len(),
        ensures
            forall |k: int| 0 <= k < self.collected_node(i, excluded).len()
                ==> self.candidate_ok(excluded, #[trigger] self.collected_node(i, excluded)[k]),
        decreases self.nodes.len() - i, 0int,
    {
        if i == excluded || !self.nodes[i].visible {
        } else if self.nodes[i].focusable {
            assert(self.collected_node(i, excluded) == seq![i as usize]);
            assert(self.collected_node(i, excluded)[0] == i as usize);
        } else {
            self.lemma_collected_chain_sound(self.nodes[i].first_child, excluded);
            assert forall |k: int| 0 <= k < self.collected_node(i, excluded).len()
                implies self.candidate_ok(excluded, self.collected_node(i, excluded)[k])
            by {
                assert(self.collected_node(i, excluded)[k]
                    == self.collected_chain(self.nodes[i].first_child, excluded)[k]);
            }
        }
    }

    /// Soundness of the enumerator over one sibling chain.
    pub proof fn lemma_collected_chain_sound(self, start: Option<usize>, excluded: int)
        requires
            self.wf(),
            (start matches Some(c) ==> (c as int) < self.nodes.len()),
        ensures
            forall |k: int| 0 <= k < self.collected_chain(start, excluded).len()
                ==> self.candidate_ok(excluded, #[trigger] self.collected_chain(start, excluded)[k]),
        decreases self.chain_measure(start), 1int,
    {
        match start {
            None => {}
            Some(c) => {
                self.lemma_collected_node_sound(c as int, excluded);
                self.lemma_collected_chain_sound(self.nodes[c as int].next_sibling, excluded);
                let head = self.collected_node(c as int, excluded);
                let tail = self.collected_chain(self.nodes[c as int].next_sibling, excluded);
                assert forall |k: int| 0 <= k < self.collected_chain(start, excluded).len()
                    implies self.candidate_ok(excluded, self.collected_chain(start, excluded)[k])
                by {
                    if k < head.len() {
                        assert(self.collected_chain(start, excluded)[k] == head[k]);
                    } else {
                        assert(self.collected_chain(start, excluded)[k] == tail[k - head.len()]);
                    }
                }
            }
        }
    }
}

/// The node with its first-child link replaced.
pub open spec fn with_first_child(n: SceneNode, c: usize) -> SceneNode {
    SceneNode { first_child: Some(c), ..n }
}

/// The node with its next-sibling link replaced.
pub open spec fn with_next_sibling(n: SceneNode, s: usize) -> SceneNode {
    SceneNode { next_sibling: Some(s), ..n }
}

/// Appending a node whose own links are well formed preserves
/// well-formedness of the whole tree.
proof fn lemma_wf_grow(t0: SceneTree, t1: SceneTree)
    requires
        t0.wf(),
        t1.focused == t0.focused,
        t1.nodes@.len() == t0.nodes@.len() + 1,
        forall |j: int| 0 <= j < t0.nodes@.len() ==> t1.nodes[j] == t0.nodes[j],
        t1.node_wf(t0.nodes@.len() as int),
    ensures
        t1.wf(),
{
    assert forall |j: int| 0 <= j < t1.nodes.len() implies t1.node_wf(j) by {
        if j < t0.nodes@.len() {
            assert(t0.node_wf(j));
        }
    }
}

/// Rewriting one node's outgoing links, without touching its parent link,
/// preserves well-formedness provided the rewritten node itself stays well
/// formed.
proof fn lemma_wf_relink(t0: SceneTree, t1: SceneTree, m: int)
    requires
        t0.wf(),
        0 <= m < t0.nodes@.len(),
        t1.focused == t0.focused,
        t1.nodes@.len() == t0.nodes@.len(),
        forall |j: int| 0 <= j < t0.nodes@.len() && j != m ==> t1.nodes[j] == t0.nodes[j],
        t1.nodes[m].parent == t0.nodes[m].parent,
        t1.node_wf(m),
    ensures
        t1.wf(),
{
    assert forall |j: int| 0 <= j < t1.nodes.len() implies t1.node_wf(j) by {
        if j != m {
            assert(t0.node_wf(j));
        }
    }
}

} // verus!
