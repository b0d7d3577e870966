// End-to-end navigation scenarios over small scenes. Coordinates are in
// thousandths of a logical pixel.

use slint_spatial_focus::geometry::{FocusMoveCtx, FocusMoveDirection, Rect};
use slint_spatial_focus::scene::SceneTree;
use slint_spatial_focus::search::{find_next_focusable_item, MoveFocus};

fn rect(x: i64, y: i64, w: i64, h: i64) -> Rect {
    Rect::new(x, y, w, h)
}

fn leaf(tree: &mut SceneTree, parent: usize, r: Rect) -> usize {
    tree.add_node(Some(parent), r, true, true)
}

/// Three same-sized rectangles at x = 0, 10, 20 pixels (y = 0, size 8 x 8)
/// under one root, with the middle one focused.
fn three_in_a_row() -> (SceneTree, usize, usize, usize) {
    let mut tree = SceneTree::new();
    let root = tree.add_node(None, rect(0, 0, 30000, 10000), true, false);
    let a = leaf(&mut tree, root, rect(0, 0, 8000, 8000));
    let b = leaf(&mut tree, root, rect(10000, 0, 8000, 8000));
    let c = leaf(&mut tree, root, rect(20000, 0, 8000, 8000));
    tree.set_focus(b);
    (tree, a, b, c)
}

#[test]
fn row_moves_right_to_nearest() {
    let (mut tree, _a, _b, c) = three_in_a_row();
    assert!(tree.navigate(FocusMoveDirection::Right));
    assert_eq!(tree.current_focused_node(), Some(c));
}

#[test]
fn row_moves_left_to_nearest() {
    let (mut tree, a, _b, _c) = three_in_a_row();
    assert!(tree.navigate(FocusMoveDirection::Left));
    assert_eq!(tree.current_focused_node(), Some(a));
}

#[test]
fn row_has_no_vertical_target() {
    let (mut tree, _a, b, _c) = three_in_a_row();
    assert!(!tree.navigate(FocusMoveDirection::Down));
    assert_eq!(tree.current_focused_node(), Some(b));
    assert!(!tree.navigate(FocusMoveDirection::Up));
    assert_eq!(tree.current_focused_node(), Some(b));
}

#[test]
fn aligned_candidate_beats_unaligned() {
    // Focused at (0,0,10,10); A at (12,0,10,10) overlaps the focused row
    // (orthogonal distance 0); B at (12,15,10,10) does not. Moving Right
    // picks A although both facing edges are equally near.
    let mut tree = SceneTree::new();
    let root = tree.add_node(None, rect(0, 0, 40000, 40000), true, false);
    let f = leaf(&mut tree, root, rect(0, 0, 10000, 10000));
    let a = leaf(&mut tree, root, rect(12000, 0, 10000, 10000));
    let _b = leaf(&mut tree, root, rect(12000, 15000, 10000, 10000));
    tree.set_focus(f);
    assert!(tree.navigate(FocusMoveDirection::Right));
    assert_eq!(tree.current_focused_node(), Some(a));
}

#[test]
fn nearer_candidate_beats_aligned_farther_one() {
    // A's facing edge is more than the tolerance nearer than B's, so A wins
    // although B is perfectly aligned and A is not.
    let mut tree = SceneTree::new();
    let root = tree.add_node(None, rect(0, 0, 40000, 40000), true, false);
    let f = leaf(&mut tree, root, rect(0, 0, 10000, 10000));
    let a = leaf(&mut tree, root, rect(12000, 20000, 10000, 10000));
    let _b = leaf(&mut tree, root, rect(20000, 0, 10000, 10000));
    tree.set_focus(f);
    assert!(tree.navigate(FocusMoveDirection::Right));
    assert_eq!(tree.current_focused_node(), Some(a));
}

#[test]
fn equal_candidates_keep_document_order() {
    // Two candidates with identical rectangles: the first in document order
    // stays the winner.
    let mut tree = SceneTree::new();
    let root = tree.add_node(None, rect(0, 0, 40000, 40000), true, false);
    let f = leaf(&mut tree, root, rect(0, 0, 10000, 10000));
    let a = leaf(&mut tree, root, rect(15000, 0, 10000, 10000));
    let _b = leaf(&mut tree, root, rect(15000, 0, 10000, 10000));
    tree.set_focus(f);
    assert!(tree.navigate(FocusMoveDirection::Right));
    assert_eq!(tree.current_focused_node(), Some(a));
}

#[test]
fn invisible_nearest_is_skipped() {
    // The geometrically nearest candidate is invisible and must be skipped
    // in favor of the farther visible one.
    let mut tree = SceneTree::new();
    let root = tree.add_node(None, rect(0, 0, 60000, 20000), true, false);
    let f = leaf(&mut tree, root, rect(0, 0, 10000, 10000));
    let _near = tree.add_node(Some(root), rect(12000, 0, 10000, 10000), false, true);
    let far = leaf(&mut tree, root, rect(30000, 0, 10000, 10000));
    tree.set_focus(f);
    assert!(tree.navigate(FocusMoveDirection::Right));
    assert_eq!(tree.current_focused_node(), Some(far));
}

#[test]
fn only_invisible_candidates_is_a_noop() {
    let mut tree = SceneTree::new();
    let root = tree.add_node(None, rect(0, 0, 60000, 20000), true, false);
    let f = leaf(&mut tree, root, rect(0, 0, 10000, 10000));
    let _near = tree.add_node(Some(root), rect(12000, 0, 10000, 10000), false, true);
    tree.set_focus(f);
    assert!(!tree.navigate(FocusMoveDirection::Right));
    assert_eq!(tree.current_focused_node(), Some(f));
}

#[test]
fn no_focus_is_a_noop() {
    let mut tree = SceneTree::new();
    let root = tree.add_node(None, rect(0, 0, 30000, 10000), true, false);
    let _a = leaf(&mut tree, root, rect(0, 0, 8000, 8000));
    assert!(!tree.navigate(FocusMoveDirection::Right));
    assert_eq!(tree.current_focused_node(), None);
}

#[test]
fn focused_root_is_a_noop() {
    let mut tree = SceneTree::new();
    let root = tree.add_node(None, rect(0, 0, 30000, 10000), true, true);
    tree.set_focus(root);
    assert!(!tree.navigate(FocusMoveDirection::Right));
    assert_eq!(tree.current_focused_node(), Some(root));
}

#[test]
fn escalates_to_wider_scope_when_siblings_fail() {
    // The focused node's own container holds no candidate to the right; a
    // wider ancestor does. The wider one is found.
    let mut tree = SceneTree::new();
    let root = tree.add_node(None, rect(0, 0, 60000, 20000), true, false);
    let inner = tree.add_node(Some(root), rect(0, 0, 10000, 20000), true, false);
    let f = leaf(&mut tree, inner, rect(0, 0, 8000, 8000));
    let outer = tree.add_node(Some(root), rect(20000, 0, 10000, 20000), true, false);
    let g = leaf(&mut tree, outer, rect(20000, 0, 8000, 8000));
    tree.set_focus(f);
    assert!(tree.navigate(FocusMoveDirection::Right));
    assert_eq!(tree.current_focused_node(), Some(g));
}

#[test]
fn focusable_ancestor_is_not_reselected() {
    // The focused node sits inside a focusable container. Walking up, that
    // container is the branch the search ascended from, so it is excluded
    // and never re-selected; the search finds the node beyond it.
    let mut tree = SceneTree::new();
    let root = tree.add_node(None, rect(0, 0, 60000, 20000), true, false);
    let scope = tree.add_node(Some(root), rect(0, 0, 20000, 10000), true, true);
    let f = leaf(&mut tree, scope, rect(0, 0, 8000, 8000));
    let right = leaf(&mut tree, root, rect(30000, 0, 8000, 8000));
    tree.set_focus(f);
    assert!(tree.navigate(FocusMoveDirection::Right));
    assert_eq!(tree.current_focused_node(), Some(right));
}

#[test]
fn searched_branch_is_excluded_at_wider_scope() {
    // A sibling inside the immediate container fails the direction filter;
    // when the walk widens, that whole container is excluded, so its
    // contents are not offered again and the outer candidate wins.
    let mut tree = SceneTree::new();
    let root = tree.add_node(None, rect(0, 0, 80000, 20000), true, false);
    let inner = tree.add_node(Some(root), rect(0, 0, 30000, 10000), true, false);
    let f = leaf(&mut tree, inner, rect(10000, 0, 8000, 8000));
    let _left_sibling = leaf(&mut tree, inner, rect(0, 0, 8000, 8000));
    let outer = leaf(&mut tree, root, rect(40000, 0, 8000, 8000));
    tree.set_focus(f);
    assert!(tree.navigate(FocusMoveDirection::Right));
    assert_eq!(tree.current_focused_node(), Some(outer));
}

#[test]
fn narrower_scope_preempts_nearer_wider_candidate() {
    // A candidate within the immediate container wins even though a node
    // visible only from a wider scope is nearer by raw distance: the wider
    // scope is never consulted once the narrow one succeeds.
    let mut tree = SceneTree::new();
    let root = tree.add_node(None, rect(0, 0, 80000, 20000), true, false);
    let inner = tree.add_node(Some(root), rect(0, 0, 50000, 20000), true, false);
    let f = leaf(&mut tree, inner, rect(0, 0, 8000, 8000));
    let sibling = leaf(&mut tree, inner, rect(30000, 0, 8000, 8000));
    // Nearer by raw distance, but outside the immediate container.
    let _near_outside = leaf(&mut tree, root, rect(10000, 0, 8000, 8000));
    tree.set_focus(f);
    assert!(tree.navigate(FocusMoveDirection::Right));
    assert_eq!(tree.current_focused_node(), Some(sibling));
}

#[test]
fn focusable_container_hides_its_descendants() {
    // A focusable container is collected as a candidate itself; its
    // focusable children are not enumerated.
    let mut tree = SceneTree::new();
    let root = tree.add_node(None, rect(0, 0, 60000, 20000), true, false);
    let f = leaf(&mut tree, root, rect(0, 0, 8000, 8000));
    let scope = tree.add_node(Some(root), rect(20000, 0, 20000, 20000), true, true);
    let _inside = leaf(&mut tree, scope, rect(22000, 0, 8000, 8000));
    tree.set_focus(f);
    assert!(tree.navigate(FocusMoveDirection::Right));
    assert_eq!(tree.current_focused_node(), Some(scope));
}

#[test]
fn column_moves_down_to_nearest() {
    let mut tree = SceneTree::new();
    let root = tree.add_node(None, rect(0, 0, 10000, 40000), true, false);
    let f = leaf(&mut tree, root, rect(0, 0, 8000, 8000));
    let below = leaf(&mut tree, root, rect(0, 10000, 8000, 8000));
    let _far_below = leaf(&mut tree, root, rect(0, 25000, 8000, 8000));
    tree.set_focus(f);
    assert!(tree.navigate(FocusMoveDirection::Down));
    assert_eq!(tree.current_focused_node(), Some(below));
    assert!(tree.navigate(FocusMoveDirection::Up));
    assert_eq!(tree.current_focused_node(), Some(f));
}

#[test]
fn zero_size_rectangles_are_valid() {
    let mut tree = SceneTree::new();
    let root = tree.add_node(None, rect(0, 0, 30000, 10000), true, false);
    let f = leaf(&mut tree, root, rect(5000, 5000, 0, 0));
    let a = leaf(&mut tree, root, rect(10000, 5000, 0, 0));
    tree.set_focus(f);
    assert!(tree.navigate(FocusMoveDirection::Right));
    assert_eq!(tree.current_focused_node(), Some(a));
}

#[test]
fn read_only_phases_are_repeatable() {
    // Enumeration and scoring do not mutate the scene: running them twice
    // yields identical candidate lists and identical winners.
    let (tree, _a, b, _c) = three_in_a_row();
    let first = tree.enumerate_candidates(0, b);
    let second = tree.enumerate_candidates(0, b);
    assert_eq!(first, second);
    let ctx = FocusMoveCtx::new(rect(10000, 0, 8000, 8000), FocusMoveDirection::Right);
    let w1 = find_next_focusable_item(&tree, 0, b, &ctx);
    let w2 = find_next_focusable_item(&tree, 0, b, &ctx);
    assert_eq!(w1, w2);
    let t1 = tree.next_focus_target(FocusMoveDirection::Right);
    let t2 = tree.next_focus_target(FocusMoveDirection::Right);
    assert_eq!(t1, t2);
    assert_eq!(tree.current_focused_node(), Some(b));
}

#[test]
fn move_focus_reports_success_as_option() {
    let (mut tree, _a, _b, c) = three_in_a_row();
    assert_eq!(tree.move_focus(FocusMoveDirection::Right), Some(()));
    assert_eq!(tree.current_focused_node(), Some(c));
    assert_eq!(tree.move_focus(FocusMoveDirection::Down), None);
    assert_eq!(tree.current_focused_node(), Some(c));
}
