//! The guarantees of the navigation algorithm, stated and proved once over
//! the spec functions that the executable functions' contracts use.

use vstd::prelude::*;
use vstd::math::abs;
use crate::geometry::{
    FocusMoveCtx, FocusMoveDirection, Rect, SpatialAxis, SpatialDirection, ctx_for,
    passes_filter, TOLERANCE,
};
use crate::scene::SceneTree;
use crate::search::{
    cand_distance, cand_ort, filtered_candidates, sel_step, sel_fold, sel_init, select_spec,
    search_from, nav_target,
};

verus! {

/// Direction correctness: a candidate that passes the direction filter has
/// its facing edge on the requested side of the focused rectangle's
/// corresponding edge, within `TOLERANCE`. (The midpoint of a rectangle's
/// vertical edge shares the edge's x coordinate, and of a horizontal edge
/// the edge's y coordinate, so this is also a statement about the facing
/// edge's midpoint.)
pub proof fn lemma_direction_correctness(r: Rect, ctx: FocusMoveCtx)
    requires
        passes_filter(r, ctx),
    ensures
        ctx.axis == SpatialAxis::Horizontal && ctx.dir == SpatialDirection::Backward
            ==> r.right() <= ctx.focused_rect.left() + TOLERANCE,
        ctx.axis == SpatialAxis::Horizontal && ctx.dir == SpatialDirection::Forward
            ==> r.left() >= ctx.focused_rect.right() - TOLERANCE,
        ctx.axis == SpatialAxis::Vertical && ctx.dir == SpatialDirection::Backward
            ==> r.bottom() <= ctx.focused_rect.top() + TOLERANCE,
        ctx.axis == SpatialAxis::Vertical && ctx.dir == SpatialDirection::Forward
            ==> r.top() >= ctx.focused_rect.bottom() - TOLERANCE,
{
}

/// The direction filter keeps exactly the passing candidates of a
/// two-candidate list.
proof fn lemma_filtered_two(t: SceneTree, ctx: FocusMoveCtx, x: usize, y: usize)
    requires
        passes_filter(t.nodes[x as int].rect, ctx),
        passes_filter(t.nodes[y as int].rect, ctx),
    ensures
        filtered_candidates(t, seq![x, y], ctx) == seq![x, y],
{
    let s = seq![x, y];
    assert(s.drop_last() =~= seq![x]);
    assert(seq![x].drop_last() =~= Seq::<usize>::empty());
    assert(filtered_candidates(t, Seq::<usize>::empty(), ctx) == Seq::<usize>::empty());
    assert(filtered_candidates(t, seq![x], ctx) =~= seq![x]);
    assert(filtered_candidates(t, s, ctx) =~= seq![x, y]);
}

/// Selection over exactly two passing candidates is one step of the
/// selection rule from the first.
proof fn lemma_select_two(t: SceneTree, ctx: FocusMoveCtx, x: usize, y: usize)
    requires
        passes_filter(t.nodes[x as int].rect, ctx),
        passes_filter(t.nodes[y as int].rect, ctx),
    ensures
        select_spec(t, seq![x, y], ctx)
            == Some(sel_step(t, ctx, sel_init(t, ctx, x), y).0),
{
    lemma_filtered_two(t, ctx, x, y);
    let f = seq![x, y];
    assert(f.first() == x);
    assert(f.drop_first() =~= seq![y]);
    assert(seq![y].first() == y);
    assert(seq![y].drop_first() =~= Seq::<usize>::empty());
    let st = sel_step(t, ctx, sel_init(t, ctx, x), y);
    assert(sel_fold(t, ctx, st, Seq::<usize>::empty()) == st);
    assert(sel_fold(t, ctx, sel_init(t, ctx, x), seq![y]) == st);
}

/// Nearest wins: of two passing candidates whose primary distances differ
/// by more than `TOLERANCE`, the nearer is selected whatever the orthogonal
/// distances are, in either document order.
pub proof fn lemma_nearest_wins(t: SceneTree, ctx: FocusMoveCtx, a: usize, b: usize)
    requires
        passes_filter(t.nodes[a as int].rect, ctx),
        passes_filter(t.nodes[b as int].rect, ctx),
        cand_distance(t, ctx, a) < cand_distance(t, ctx, b) - TOLERANCE,
    ensures
        select_spec(t, seq![a, b], ctx) == Some(a),
        select_spec(t, seq![b, a], ctx) == Some(a),
{
    lemma_select_two(t, ctx, a, b);
    lemma_select_two(t, ctx, b, a);
    assert(abs(cand_distance(t, ctx, b) - cand_distance(t, ctx, a)) > TOLERANCE);
    assert(abs(cand_distance(t, ctx, a) - cand_distance(t, ctx, b)) > TOLERANCE);
}

/// Alignment tie-break: of two passing candidates whose primary distances
/// are within `TOLERANCE` of each other, the one with the smaller
/// orthogonal distance is selected, in either document order.
pub proof fn lemma_alignment_tie_break(t: SceneTree, ctx: FocusMoveCtx, a: usize, b: usize)
    requires
        passes_filter(t.nodes[a as int].rect, ctx),
        passes_filter(t.nodes[b as int].rect, ctx),
        abs(cand_distance(t, ctx, a) - cand_distance(t, ctx, b)) <= TOLERANCE,
        cand_ort(t, ctx, a) < cand_ort(t, ctx, b),
    ensures
        select_spec(t, seq![a, b], ctx) == Some(a),
        select_spec(t, seq![b, a], ctx) == Some(a),
{
    lemma_select_two(t, ctx, a, b);
    lemma_select_two(t, ctx, b, a);
    assert(abs(cand_distance(t, ctx, b) - cand_distance(t, ctx, a)) <= TOLERANCE);
}

/// Scope escalation: the narrower scope is consulted first. A winner at the
/// scope just above `branch` is the walk's result outright — no wider scope
/// is consulted, however near its candidates might be — and only a scope
/// that yields nothing hands the walk to the parent scope.
pub proof fn lemma_scope_escalation(t: SceneTree, branch: int, p: usize, ctx: FocusMoveCtx)
    requires
        t.wf(),
        0 <= branch < t.nodes.len(),
        t.nodes[branch].parent == Some(p),
    ensures
        (select_spec(t, t.spec_candidates(p as int, branch), ctx) matches Some(w)
            ==> search_from(t, branch, ctx) == Some(w)),
        (select_spec(t, t.spec_candidates(p as int, branch), ctx) is None
            ==> search_from(t, branch, ctx) == search_from(t, p as int, ctx)),
{
}

/// No-op correctness: when no node is focused, or the focused node has no
/// parent to search under, there is no navigation target — and `navigate`'s
/// contract then guarantees it returns false and leaves the scene unchanged.
pub proof fn lemma_no_op(t: SceneTree, dir: FocusMoveDirection)
    requires
        t.wf(),
        t.focused is None
            || (t.focused matches Some(fc) && t.nodes[fc as int].parent is None),
    ensures
        nav_target(t, dir) is None,
{
}

/// Every filtered candidate comes from the candidate list and passes the
/// direction filter.
proof fn lemma_filtered_sound(t: SceneTree, cands: Seq<usize>, ctx: FocusMoveCtx)
    ensures
        forall |k: int| 0 <= k < filtered_candidates(t, cands, ctx).len()
            ==> cands.contains(#[trigger] filtered_candidates(t, cands, ctx)[k])
                && passes_filter(
                    t.nodes[filtered_candidates(t, cands, ctx)[k] as int].rect, ctx),
    decreases cands.len(),
{
    if cands.len() == 0 {
    } else {
        lemma_filtered_sound(t, cands.drop_last(), ctx);
        let f = filtered_candidates(t, cands, ctx);
        let rest = filtered_candidates(t, cands.drop_last(), ctx);
        assert forall |k: int| 0 <= k < f.len()
            implies cands.contains(f[k])
                && passes_filter(t.nodes[f[k] as int].rect, ctx)
        by {
            if k < rest.len() {
                assert(f[k] == rest[k]);
                assert(cands.drop_last().contains(rest[k]));
                let j = choose |j: int| 0 <= j < cands.drop_last().len()
                    && cands.drop_last()[j] == rest[k];
                assert(cands[j] == rest[k]);
            } else {
                assert(f[k] == cands.last());
                assert(cands[cands.len() - 1] == cands.last());
            }
        }
    }
}

/// The selection fold answers with its starting candidate or with one of
/// the candidates it folded over.
proof fn lemma_sel_fold_in(t: SceneTree, ctx: FocusMoveCtx, st: (usize, int, int),
    rest: Seq<usize>)
    ensures
        sel_fold(t, ctx, st, rest).0 == st.0 || rest.contains(sel_fold(t, ctx, st, rest).0),
    decreases rest.len(),
{
    if rest.len() == 0 {
    } else {
        let st2 = sel_step(t, ctx, st, rest.first());
        lemma_sel_fold_in(t, ctx, st2, rest.drop_first());
        let w = sel_fold(t, ctx, st, rest).0;
        if w == st2.0 {
            if st2.0 != st.0 {
                assert(rest[0] == rest.first());
                assert(rest.contains(w));
            }
        } else {
            assert(rest.drop_first().contains(w));
            let j = choose |j: int| 0 <= j < rest.drop_first().len()
                && rest.drop_first()[j] == w;
            assert(rest[j + 1] == w);
        }
    }
}

/// Whatever the selector answers is one of the candidates it was shown,
/// and it passes the direction filter.
pub proof fn lemma_select_sound(t: SceneTree, cands: Seq<usize>, ctx: FocusMoveCtx)
    ensures
        (select_spec(t, cands, ctx) matches Some(w)
            ==> cands.contains(w) && passes_filter(t.nodes[w as int].rect, ctx)),
{
    let f = filtered_candidates(t, cands, ctx);
    if f.len() == 0 {
    } else {
        lemma_filtered_sound(t, cands, ctx);
        lemma_sel_fold_in(t, ctx, sel_init(t, ctx, f.first()), f.drop_first());
        match select_spec(t, cands, ctx) {
            None => {}
            Some(w) => {
                if w == f.first() {
                    assert(f[0] == f.first());
                } else {
                    assert(f.drop_first().contains(w));
                    let j = choose |j: int| 0 <= j < f.drop_first().len()
                        && f.drop_first()[j] == w;
                    assert(f[j + 1] == w);
                }
            }
        }
    }
}

/// The direction filter keeps something exactly when some candidate
/// passes it.
proof fn lemma_filtered_nonempty(t: SceneTree, cands: Seq<usize>, ctx: FocusMoveCtx)
    ensures
        (filtered_candidates(t, cands, ctx).len() > 0) <==> (exists |k: int|
            0 <= k < cands.len()
            && passes_filter(t.nodes[(#[trigger] cands[k]) as int].rect, ctx)),
    decreases cands.len(),
{
    if cands.len() == 0 {
    } else {
        lemma_filtered_nonempty(t, cands.drop_last(), ctx);
        assert(cands[cands.len() - 1] == cands.last());
        if passes_filter(t.nodes[cands.last() as int].rect, ctx) {
        } else {
            if exists |k: int| 0 <= k < cands.len()
                && passes_filter(t.nodes[(#[trigger] cands[k]) as int].rect, ctx) {
                let k = choose |k: int| 0 <= k < cands.len()
                    && passes_filter(t.nodes[(#[trigger] cands[k]) as int].rect, ctx);
                assert(k < cands.len() - 1);
                assert(cands.drop_last()[k] == cands[k]);
            }
            if exists |k: int| 0 <= k < cands.drop_last().len()
                && passes_filter(t.nodes[(#[trigger] cands.drop_last()[k]) as int].rect, ctx) {
                let k = choose |k: int| 0 <= k < cands.drop_last().len()
                    && passes_filter(t.nodes[(#[trigger] cands.drop_last()[k]) as int].rect,
                        ctx);
                assert(cands[k] == cands.drop_last()[k]);
            }
        }
    }
}

/// Success is owed: the selector answers with a winner exactly when some
/// candidate it was shown lies in the requested direction.
pub proof fn lemma_select_some_iff(t: SceneTree, cands: Seq<usize>, ctx: FocusMoveCtx)
    ensures
        (select_spec(t, cands, ctx) is Some) <==> (exists |k: int|
            0 <= k < cands.len()
            && passes_filter(t.nodes[(#[trigger] cands[k]) as int].rect, ctx)),
{
    lemma_filtered_nonempty(t, cands, ctx);
}

/// Success is owed at the whole-call level: when some candidate of the
/// focused node's immediate scope lies in the requested direction, the
/// navigation call has a target (and `navigate`'s contract then guarantees
/// focus moves).
pub proof fn lemma_target_owed(t: SceneTree, dir: FocusMoveDirection, fc: usize, p: usize)
    requires
        t.wf(),
        t.focused == Some(fc),
        (fc as int) < t.nodes.len(),
        t.nodes[fc as int].parent == Some(p),
        (exists |k: int| 0 <= k < t.spec_candidates(p as int, fc as int).len()
            && passes_filter(
                t.nodes[(#[trigger] t.spec_candidates(p as int, fc as int)[k]) as int].rect,
                ctx_for(t.nodes[fc as int].rect, dir))),
    ensures
        nav_target(t, dir) is Some,
{
    let ctx = ctx_for(t.nodes[fc as int].rect, dir);
    lemma_select_some_iff(t, t.spec_candidates(p as int, fc as int), ctx);
}

/// Whatever the expanding-scope walk answers is a visible, focusable node
/// that lies in the requested direction.
pub proof fn lemma_search_from_sound(t: SceneTree, branch: int, ctx: FocusMoveCtx)
    requires
        t.wf(),
        0 <= branch < t.nodes.len(),
    ensures
        (search_from(t, branch, ctx) matches Some(w) ==> (w as int) < t.nodes.len()
            && t.nodes[w as int].visible && t.nodes[w as int].focusable
            && passes_filter(t.nodes[w as int].rect, ctx)),
    decreases branch,
{
    match t.nodes[branch].parent {
        None => {}
        Some(p) => {
            let cands = t.spec_candidates(p as int, branch);
            lemma_select_sound(t, cands, ctx);
            t.lemma_collected_chain_sound(t.nodes[p as int].first_child, branch);
            match select_spec(t, cands, ctx) {
                Some(w) => {
                    let j = choose |j: int| 0 <= j < cands.len() && cands[j] == w;
                    assert(t.candidate_ok(branch, cands[j]));
                }
                None => {
                    lemma_search_from_sound(t, p as int, ctx);
                }
            }
        }
    }
}

/// The navigation target, when there is one, is always a visible,
/// focusable node lying in the requested direction from the focused node's
/// rectangle. In particular an invisible node, however near, is never
/// chosen.
pub proof fn lemma_nav_target_sound(t: SceneTree, dir: FocusMoveDirection)
    requires
        t.wf(),
    ensures
        (nav_target(t, dir) matches Some(w) ==> (w as int) < t.nodes.len()
            && t.nodes[w as int].visible && t.nodes[w as int].focusable
            && (t.focused matches Some(fc)
                && passes_filter(t.nodes[w as int].rect,
                    ctx_for(t.nodes[fc as int].rect, dir)))),
{
    match t.focused {
        None => {}
        Some(fc) => {
            lemma_search_from_sound(t, fc as int, ctx_for(t.nodes[fc as int].rect, dir));
        }
    }
}

} // verus!
