// Exact-value checks of the scoring arithmetic. Coordinates are in
// thousandths of a logical pixel, so 1000 units is one pixel and the
// tolerance of 0.001 pixels is 1 unit.

use slint_spatial_focus::geometry::{
    are_intersected, distance, is_focus_target, ort_distance, FocusMoveCtx, FocusMoveDirection,
    Rect, SpatialAxis, SpatialDirection, TOLERANCE,
};

fn rect(x: i64, y: i64, w: i64, h: i64) -> Rect {
    Rect::new(x, y, w, h)
}

#[test]
fn ctx_new_maps_directions() {
    let f = rect(0, 0, 1000, 1000);
    let up = FocusMoveCtx::new(f, FocusMoveDirection::Up);
    assert_eq!(up.axis, SpatialAxis::Vertical);
    assert_eq!(up.dir, SpatialDirection::Backward);
    let down = FocusMoveCtx::new(f, FocusMoveDirection::Down);
    assert_eq!(down.axis, SpatialAxis::Vertical);
    assert_eq!(down.dir, SpatialDirection::Forward);
    let left = FocusMoveCtx::new(f, FocusMoveDirection::Left);
    assert_eq!(left.axis, SpatialAxis::Horizontal);
    assert_eq!(left.dir, SpatialDirection::Backward);
    let right = FocusMoveCtx::new(f, FocusMoveDirection::Right);
    assert_eq!(right.axis, SpatialAxis::Horizontal);
    assert_eq!(right.dir, SpatialDirection::Forward);
    assert_eq!(right.focused_rect, f);
}

#[test]
fn distance_is_gap_between_facing_edges() {
    // Focused rectangle spans x in [0, 10000].
    let ctx = FocusMoveCtx::new(rect(0, 0, 10000, 10000), FocusMoveDirection::Right);
    // Candidate's left edge at 20000: gap of 10000 to the focused right edge.
    assert_eq!(distance(&rect(20000, 0, 8000, 8000), &ctx), 10000);
    // Candidate overlapping the focused right edge: absolute value of the gap.
    assert_eq!(distance(&rect(7000, 0, 8000, 8000), &ctx), 3000);

    let ctx_l = FocusMoveCtx::new(rect(10000, 0, 10000, 10000), FocusMoveDirection::Left);
    // Candidate's right edge at 8000, focused left edge at 10000: gap 2000.
    assert_eq!(distance(&rect(0, 0, 8000, 8000), &ctx_l), 2000);
}

#[test]
fn ort_distance_zero_on_overlap() {
    let ctx = FocusMoveCtx::new(rect(0, 0, 10000, 10000), FocusMoveDirection::Right);
    // Candidate's vertical span [5000, 15000] overlaps the focused [0, 10000].
    assert_eq!(ort_distance(&rect(12000, 5000, 10000, 10000), &ctx), 0);
}

#[test]
fn ort_distance_is_doubled_midpoint_gap() {
    let ctx = FocusMoveCtx::new(rect(0, 0, 10000, 10000), FocusMoveDirection::Right);
    // Candidate's vertical span [15000, 25000]: midpoints 5000 and 20000,
    // so the doubled midpoint separation is 30000.
    assert_eq!(ort_distance(&rect(12000, 15000, 10000, 10000), &ctx), 30000);
}

#[test]
fn ort_distance_handles_zero_size() {
    // A zero-height candidate is a point interval; midpoint arithmetic is
    // still well defined.
    let ctx = FocusMoveCtx::new(rect(0, 0, 10000, 10000), FocusMoveDirection::Right);
    // Candidate spans [20000, 20000]: midpoints 5000 and 20000, doubled 30000.
    assert_eq!(ort_distance(&rect(12000, 20000, 10000, 0), &ctx), 30000);
}

#[test]
fn intervals_open_intersection() {
    assert!(are_intersected(&(0, 10), &(5, 15)));
    // Open intervals: merely touching does not intersect.
    assert!(!are_intersected(&(0, 10), &(10, 20)));
    // A point inside an open interval intersects it.
    assert!(are_intersected(&(5, 5), &(0, 10)));
    assert!(!are_intersected(&(5, 5), &(6, 7)));
}

#[test]
fn filter_tolerates_flush_alignment() {
    // Focused spans x in [10000, 20000]; moving Left.
    let ctx = FocusMoveCtx::new(rect(10000, 0, 10000, 10000), FocusMoveDirection::Left);
    // Flush neighbor: right edge exactly at the focused left edge.
    assert!(is_focus_target(&rect(0, 0, 10000, 10000), &ctx));
    // Overlapping by exactly the tolerance still passes.
    assert!(is_focus_target(&rect(0, 0, 10000 + TOLERANCE, 10000), &ctx));
    // Overlapping by more than the tolerance does not.
    assert!(!is_focus_target(&rect(0, 0, 10000 + TOLERANCE + 1, 10000), &ctx));
    // A candidate on the wrong side does not pass.
    assert!(!is_focus_target(&rect(30000, 0, 5000, 5000), &ctx));
}
