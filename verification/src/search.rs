//! The directional scorer / selector and the expanding-scope walker: filter
//! the candidates of one scope to those lying in the requested direction,
//! pick the nearest by primary distance with an orthogonal-overlap
//! tie-break, and escalate to wider ancestor scopes until a winner is found
//! or the root is exhausted.

use vstd::prelude::*;
use vstd::math::abs;
use crate::geometry::{
    FocusMoveCtx, FocusMoveDirection, ctx_for, passes_filter, primary_distance,
    ort_distance_of, is_focus_target, distance, ort_distance, TOLERANCE, COORD_LIMIT,
};
use crate::scene::SceneTree;

verus! {

/// Primary distance of the candidate at index `e`.
pub open spec fn cand_distance(t: SceneTree, ctx: FocusMoveCtx, e: usize) -> int {
    primary_distance(t.nodes[e as int].rect, ctx)
}

/// Orthogonal distance of the candidate at index `e`.
pub open spec fn cand_ort(t: SceneTree, ctx: FocusMoveCtx, e: usize) -> int {
    ort_distance_of(t.nodes[e as int].rect, ctx)
}

/// The candidates that lie in the requested direction, in document order.
pub open spec fn filtered_candidates(t: SceneTree, cands: Seq<usize>, ctx: FocusMoveCtx)
    -> Seq<usize>
    decreases cands.len(),
{
    if cands.len() == 0 {
        Seq::empty()
    } else {
        let rest = filtered_candidates(t, cands.drop_last(), ctx);
        if passes_filter(t.nodes[cands.last() as int].rect, ctx) {
            rest.push(cands.last())
        } else {
            rest
        }
    }
}

/// The running best of the selection: the best candidate so far, the
/// primary distance it is being defended with, and its orthogonal
/// distance. When a later candidate ties on primary distance (within
/// `TOLERANCE`) and wins on orthogonal distance, the defended primary
/// distance deliberately stays the old one.
pub open spec fn sel_step(t: SceneTree, ctx: FocusMoveCtx, best: (usize, int, int), c: usize)
    -> (usize, int, int)
{
    let d = cand_distance(t, ctx, c);
    let od = cand_ort(t, ctx, c);
    if abs(d - best.1) <= TOLERANCE {
        if od < best.2 {
            (c, best.1, od)
        } else {
            best
        }
    } else if d < best.1 {
        (c, d, od)
    } else {
        best
    }
}

pub open spec fn sel_fold(t: SceneTree, ctx: FocusMoveCtx, best: (usize, int, int),
    rest: Seq<usize>) -> (usize, int, int)
    decreases rest.len(),
{
    if rest.len() == 0 {
        best
    } else {
        sel_fold(t, ctx, sel_step(t, ctx, best, rest.first()), rest.drop_first())
    }
}

/// The state the selection starts from: the first passing candidate.
pub open spec fn sel_init(t: SceneTree, ctx: FocusMoveCtx, c: usize) -> (usize, int, int) {
    (c, cand_distance(t, ctx, c), cand_ort(t, ctx, c))
}

/// The winner among a candidate list: the first passing candidate in
/// document order, then each later passing candidate replaces it only if it
/// is nearer by more than `TOLERANCE`, or ties within `TOLERANCE` and is
/// strictly better aligned. `None` when no candidate passes the filter.
pub open spec fn select_spec(t: SceneTree, cands: Seq<usize>, ctx: FocusMoveCtx)
    -> Option<usize>
{
    let f = filtered_candidates(t, cands, ctx);
    if f.len() == 0 {
        None
    } else {
        Some(sel_fold(t, ctx, sel_init(t, ctx, f.first()), f.drop_first()).0)
    }
}

/// Enumerate the candidates under `parent` (excluding the branch the
/// search ascended from), filter them to the requested direction, and pick
/// the winner. Only reads the scene.
pub fn find_next_focusable_item(tree: &SceneTree, parent: usize, focus_chain_child: usize,
    ctx: &FocusMoveCtx) -> (r: Option<usize>)
    requires
        tree.wf(),
        ctx.wf(),
        (parent as int) < tree.nodes.len(),
    ensures
        r == select_spec(*tree,
            tree.spec_candidates(parent as int, focus_chain_child as int), *ctx),
        (r matches Some(w) ==> tree.candidate_ok(focus_chain_child as int, w)
            && passes_filter(tree.nodes[w as int].rect, *ctx)),
{
    let items = tree.enumerate_candidates(parent, focus_chain_child);
    let ghost all = items@;

    let mut cands: Vec<usize> = Vec::new();
    let mut k: usize = 0;
    while k < items.len()
        invariant
            tree.wf(),
            ctx.wf(),
            k <= all.len(),
            items@ == all,
            forall |j: int| 0 <= j < all.len()
                ==> tree.candidate_ok(focus_chain_child as int, #[trigger] all[j]),
            cands@ == filtered_candidates(*tree, all.subrange(0, k as int), *ctx),
            forall |j: int| 0 <= j < cands@.len()
                ==> tree.candidate_ok(focus_chain_child as int, #[trigger] cands@[j])
                    && passes_filter(tree.nodes[cands@[j] as int].rect, *ctx),
        decreases all.len() - k,
    {
        proof {
            assert(tree.candidate_ok(focus_chain_child as int, all[k as int]));
            assert(all.subrange(0, (k + 1) as int).drop_last() =~= all.subrange(0, k as int));
            assert(all.subrange(0, (k + 1) as int).last() == all[k as int]);
        }
        let it = items[k];
        let rr = tree.nodes[it].rect;
        if is_focus_target(&rr, ctx) {
            cands.push(it);
        }
        k = k + 1;
    }
    proof {
        assert(all.subrange(0, all.len() as int) =~= all);
    }

    if cands.len() == 0 {
        return None;
    }

    let ghost f = cands@;
    let ghost target = sel_fold(*tree, *ctx, sel_init(*tree, *ctx, f.first()), f.drop_first());

    let first = cands[0];
    let mut curr_i = first;
    let rr0 = tree.nodes[first].rect;
    let mut curr_d = distance(&rr0, ctx);
    let mut curr_od = ort_distance(&rr0, ctx);
    proof {
        assert(f.drop_first() =~= f.skip(1));
    }
    let mut k2: usize = 1;
    while k2 < cands.len()
        invariant
            tree.wf(),
            ctx.wf(),
            1 <= k2 <= f.len(),
            cands@ == f,
            forall |j: int| 0 <= j < f.len()
                ==> tree.candidate_ok(focus_chain_child as int, #[trigger] f[j])
                    && passes_filter(tree.nodes[f[j] as int].rect, *ctx),
            tree.candidate_ok(focus_chain_child as int, curr_i),
            passes_filter(tree.nodes[curr_i as int].rect, *ctx),
            0 <= curr_d <= 2 * COORD_LIMIT,
            0 <= curr_od <= 4 * COORD_LIMIT,
            sel_fold(*tree, *ctx, (curr_i, curr_d as int, curr_od as int), f.skip(k2 as int))
                == target,
        decreases f.len() - k2,
    {
        proof {
            assert(tree.candidate_ok(focus_chain_child as int, f[k2 as int]));
            assert(f.skip(k2 as int).first() == f[k2 as int]);
            assert(f.skip(k2 as int).drop_first() =~= f.skip((k2 + 1) as int));
        }
        let it = cands[k2];
        let rr = tree.nodes[it].rect;
        let d = distance(&rr, ctx);
        let od = ort_distance(&rr, ctx);

        let diff = d - curr_d;
        let adiff = if diff < 0 { -diff } else { diff };
        if adiff <= TOLERANCE {
            if od < curr_od {
                curr_od = od;
                curr_i = it;
            }
        } else if d < curr_d {
            curr_d = d;
            curr_od = od;
            curr_i = it;
        }
        k2 = k2 + 1;
    }
    proof {
        assert(f.skip(f.len() as int) =~= Seq::<usize>::empty());
    }
    Some(curr_i)
}

/// The target the expanding-scope walk finds when the search has ascended
/// to `branch`: the winner among the candidates of `branch`'s parent with
/// the `branch` subtree excluded, or, when no candidate there passes the
/// filter, whatever the next wider scope yields. `None` once the root is
/// reached.
pub open spec fn search_from(t: SceneTree, branch: int, ctx: FocusMoveCtx) -> Option<usize>
    decreases branch
        when t.wf() && 0 <= branch < t.nodes.len()
{
    match t.nodes[branch].parent {
        None => None,
        Some(p) => match select_spec(t, t.spec_candidates(p as int, branch), ctx) {
            Some(w) => Some(w),
            None => search_from(t, p as int, ctx),
        },
    }
}

/// The node a navigation request focuses next: nothing when no node is
/// focused, otherwise the result of the expanding-scope walk from the
/// focused node, with the request computed once from the focused node's
/// rectangle.
pub open spec fn nav_target(t: SceneTree, dir: FocusMoveDirection) -> Option<usize> {
    match t.focused {
        None => None,
        Some(fc) => search_from(t, fc as int, ctx_for(t.nodes[fc as int].rect, dir)),
    }
}

impl SceneTree {
    /// The read-only part of a navigation call: find the node that would be
    /// focused next, without touching the scene.
    pub fn next_focus_target(&self, dir: FocusMoveDirection) -> (r: Option<usize>)
        requires
            self.wf(),
        ensures
            r == nav_target(*self, dir),
            (r matches Some(w) ==> (w as int) < self.nodes.len()),
    {
        let fc = match self.focused {
            Some(fc) => fc,
            None => {
                return None;
            }
        };
        let ctx = FocusMoveCtx::new(self.nodes[fc].rect, dir);
        let mut branch = fc;
        loop
            invariant
                self.wf(),
                (branch as int) < self.nodes.len(),
                ctx == ctx_for(self.nodes[fc as int].rect, dir),
                ctx.wf(),
                search_from(*self, branch as int, ctx) == nav_target(*self, dir),
            decreases branch,
        {
            match self.nodes[branch].parent {
                None => {
                    return None;
                }
                Some(p) => {
                    match find_next_focusable_item(self, p, branch, &ctx) {
                        Some(t) => {
                            return Some(t);
                        }
                        None => {
                            branch = p;
                        }
                    }
                }
            }
        }
    }

    /// One whole navigation call: read the focus, walk the ancestor scopes,
    /// and focus the winner. Returns whether focus moved. The scene's nodes
    /// are never changed; the focus changes exactly when a target exists.
    pub fn navigate(&mut self, dir: FocusMoveDirection) -> (moved: bool)
        requires
            old(self).wf(),
        ensures
            final(self).wf(),
            final(self).nodes == old(self).nodes,
            moved == (nav_target(*old(self), dir) is Some),
            (match nav_target(*old(self), dir) {
                Some(w) => final(self).focused == Some(w),
                None => final(self).focused == old(self).focused,
            }),
    {
        let target = self.next_focus_target(dir);
        match target {
            Some(w) => {
                self.set_focus(w);
                true
            }
            None => false,
        }
    }
}

/// The caller-facing navigation capability: one call per key press, moving
/// focus one step in a compass direction.
pub trait MoveFocus {
    /// What the implementor needs of itself before it can navigate.
    open spec fn nav_inv(&self) -> bool {
        true
    }

    /// Move focus in the given direction; `Some(())` when a new node was
    /// focused, `None` when no target exists.
    fn move_focus(&mut self, dir: FocusMoveDirection) -> (r: Option<()>)
        requires
            old(self).nav_inv(),
    ;
}

impl MoveFocus for SceneTree {
    open spec fn nav_inv(&self) -> bool {
        self.wf()
    }

    fn move_focus(&mut self, dir: FocusMoveDirection) -> (r: Option<()>)
        ensures
            final(self).wf(),
            final(self).nodes == old(self).nodes,
            (r is Some) == (nav_target(*old(self), dir) is Some),
            (match nav_target(*old(self), dir) {
                Some(w) => final(self).focused == Some(w),
                None => final(self).focused == old(self).focused,
            }),
    {
        if self.navigate(dir) {
            Some(())
        } else {
            None
        }
    }
}

} // verus!
