//! Axis-aligned rectangles in one global coordinate space, the axis and
//! direction of a navigation request, and the scoring arithmetic that ranks
//! candidate rectangles against the focused one.
//!
//! Coordinates are fixed-point integers: one unit is one thousandth of a
//! logical pixel, so the comparison tolerance of 0.001 logical pixels is
//! exactly one coordinate unit.

use vstd::prelude::*;
use vstd::math::abs;

verus! {

/// Tolerance used by every comparison of primary distances and by the
/// direction filter, in coordinate units (0.001 logical pixels).
pub const TOLERANCE: i64 = 1;

/// Bound on every rectangle edge coordinate. It keeps all scoring
/// arithmetic (sums and differences of at most four edges) inside `i64`.
pub const COORD_LIMIT: i64 = 1_000_000_000_000;

/// An axis-aligned rectangle: origin `(x, y)`, size `(w, h)`, with
/// `w >= 0` and `h >= 0`.
#[derive(Clone, Copy, PartialEq, Eq, Structural, Debug)]
pub struct Rect {
    pub x: i64,
    pub y: i64,
    pub w: i64,
    pub h: i64,
}

impl Rect {
    pub open spec fn left(self) -> int {
        self.x as int
    }

    pub open spec fn right(self) -> int {
        self.x + self.w
    }

    pub open spec fn top(self) -> int {
        self.y as int
    }

    pub open spec fn bottom(self) -> int {
        self.y + self.h
    }

    /// Non-negative size, and every edge within `COORD_LIMIT`.
    pub open spec fn wf(self) -> bool {
        &&& self.w >= 0
        &&& self.h >= 0
        &&& -COORD_LIMIT <= self.x
        &&& self.x + self.w <= COORD_LIMIT
        &&& -COORD_LIMIT <= self.y
        &&& self.y + self.h <= COORD_LIMIT
    }

    pub fn new(x: i64, y: i64, w: i64, h: i64) -> (r: Rect)
        requires
            w >= 0,
            h >= 0,
            -COORD_LIMIT <= x,
            x + w <= COORD_LIMIT,
            -COORD_LIMIT <= y,
            y + h <= COORD_LIMIT,
        ensures
            r == (Rect { x, y, w, h }),
            r.wf(),
    {
        Rect { x, y, w, h }
    }
}

/// The axis along which a move is requested.
#[derive(Clone, Copy, PartialEq, Eq, Structural, Debug)]
pub enum SpatialAxis {
    Horizontal,
    Vertical,
}

/// Forward means increasing coordinates (right or down), Backward means
/// decreasing coordinates (left or up).
#[derive(Clone, Copy, PartialEq, Eq, Structural, Debug)]
pub enum SpatialDirection {
    Forward,
    Backward,
}

/// A compass direction as seen by callers; it maps to an axis and a
/// direction along that axis.
#[derive(Clone, Copy, PartialEq, Eq, Structural, Debug)]
pub enum FocusMoveDirection {
    Up,
    Right,
    Down,
    Left,
}

/// One navigation request: the axis and direction of the move, and the
/// rectangle of the originally focused node. It is computed once per call
/// and held constant across all ancestor-scope expansions.
#[derive(Clone, Copy, PartialEq, Eq, Structural, Debug)]
pub struct FocusMoveCtx {
    pub axis: SpatialAxis,
    pub dir: SpatialDirection,
    pub focused_rect: Rect,
}

/// The request that `FocusMoveCtx::new` builds for a focused rectangle and
/// a compass direction.
pub open spec fn ctx_for(focused_rect: Rect, move_dir: FocusMoveDirection) -> FocusMoveCtx {
    match move_dir {
        FocusMoveDirection::Up => FocusMoveCtx {
            axis: SpatialAxis::Vertical,
            dir: SpatialDirection::Backward,
            focused_rect,
        },
        FocusMoveDirection::Right => FocusMoveCtx {
            axis: SpatialAxis::Horizontal,
            dir: SpatialDirection::Forward,
            focused_rect,
        },
        FocusMoveDirection::Down => FocusMoveCtx {
            axis: SpatialAxis::Vertical,
            dir: SpatialDirection::Forward,
            focused_rect,
        },
        FocusMoveDirection::Left => FocusMoveCtx {
            axis: SpatialAxis::Horizontal,
            dir: SpatialDirection::Backward,
            focused_rect,
        },
    }
}

impl FocusMoveCtx {
    pub open spec fn wf(self) -> bool {
        self.focused_rect.wf()
    }

    pub fn new(focused_rect: Rect, move_dir: FocusMoveDirection) -> (ctx: FocusMoveCtx)
        ensures
            ctx == ctx_for(focused_rect, move_dir),
    {
        let (axis, dir) = match move_dir {
            FocusMoveDirection::Up => (SpatialAxis::Vertical, SpatialDirection::Backward),
            FocusMoveDirection::Right => (SpatialAxis::Horizontal, SpatialDirection::Forward),
            FocusMoveDirection::Down => (SpatialAxis::Vertical, SpatialDirection::Forward),
            FocusMoveDirection::Left => (SpatialAxis::Horizontal, SpatialDirection::Backward),
        };
        FocusMoveCtx { axis, dir, focused_rect }
    }
}

/// Whether a candidate rectangle lies on the requested side of the focused
/// rectangle, with the facing edges allowed to overlap by up to `TOLERANCE`.
pub open spec fn passes_filter(r: Rect, ctx: FocusMoveCtx) -> bool {
    let f = ctx.focused_rect;
    match (ctx.axis, ctx.dir) {
        (SpatialAxis::Horizontal, SpatialDirection::Backward) => r.right() - TOLERANCE <= f.left(),
        (SpatialAxis::Horizontal, SpatialDirection::Forward) => r.left() + TOLERANCE >= f.right(),
        (SpatialAxis::Vertical, SpatialDirection::Backward) => r.bottom() - TOLERANCE <= f.top(),
        (SpatialAxis::Vertical, SpatialDirection::Forward) => r.top() + TOLERANCE >= f.bottom(),
    }
}

/// Signed gap between the candidate's facing edge and the focused
/// rectangle's facing edge along the requested axis.
pub open spec fn signed_gap(r: Rect, ctx: FocusMoveCtx) -> int {
    let f = ctx.focused_rect;
    match (ctx.axis, ctx.dir) {
        (SpatialAxis::Horizontal, SpatialDirection::Backward) => r.right() - f.left(),
        (SpatialAxis::Horizontal, SpatialDirection::Forward) => r.left() - f.right(),
        (SpatialAxis::Vertical, SpatialDirection::Backward) => r.bottom() - f.top(),
        (SpatialAxis::Vertical, SpatialDirection::Forward) => r.top() - f.bottom(),
    }
}

/// Primary metric: absolute gap between the facing edges.
pub open spec fn primary_distance(r: Rect, ctx: FocusMoveCtx) -> int {
    abs(signed_gap(r, ctx)) as int
}

/// Projection of a rectangle onto the axis perpendicular to the move.
pub open spec fn ort_interval(r: Rect, axis: SpatialAxis) -> (int, int) {
    match axis {
        SpatialAxis::Horizontal => (r.top(), r.bottom()),
        SpatialAxis::Vertical => (r.left(), r.right()),
    }
}

/// Open-interval intersection. Equivalent to the Minkowski-difference sign
/// test: the origin lies strictly inside `a - b`.
pub open spec fn intervals_intersect(a: (int, int), b: (int, int)) -> bool {
    a.0 - b.1 < 0 && a.1 - b.0 > 0
}

/// Tie-break metric: 0 when the perpendicular projections overlap
/// (aligned candidates are preferred absolutely); otherwise the separation
/// of the projections' midpoints. To stay in integers it is kept doubled
/// (the sum of an interval's endpoints is twice its midpoint); the selector
/// only ever compares orthogonal distances with each other, so a uniform
/// factor changes nothing.
pub open spec fn ort_distance_of(r: Rect, ctx: FocusMoveCtx) -> int {
    let a = ort_interval(ctx.focused_rect, ctx.axis);
    let b = ort_interval(r, ctx.axis);
    if intervals_intersect(a, b) {
        0
    } else {
        abs((a.0 + a.1) - (b.0 + b.1)) as int
    }
}

/// Whether two 1-D open intervals, each given as `(low, high)`, intersect.
pub fn are_intersected(a: &(i64, i64), b: &(i64, i64)) -> (r: bool)
    requires
        -2 * COORD_LIMIT <= a.0 <= a.1 <= 2 * COORD_LIMIT,
        -2 * COORD_LIMIT <= b.0 <= b.1 <= 2 * COORD_LIMIT,
    ensures
        r == intervals_intersect((a.0 as int, a.1 as int), (b.0 as int, b.1 as int)),
{
    let p1 = a.0 - b.1;
    let p2 = a.1 - b.0;
    p1 < 0 && p2 > 0
}

/// Whether the rectangle lies on the requested side of the focused one.
pub fn is_focus_target(r: &Rect, ctx: &FocusMoveCtx) -> (t: bool)
    requires
        r.wf(),
        ctx.wf(),
    ensures
        t == passes_filter(*r, *ctx),
{
    let f = ctx.focused_rect;
    match (ctx.axis, ctx.dir) {
        (SpatialAxis::Horizontal, SpatialDirection::Backward) => r.x + r.w - TOLERANCE <= f.x,
        (SpatialAxis::Horizontal, SpatialDirection::Forward) => r.x + TOLERANCE >= f.x + f.w,
        (SpatialAxis::Vertical, SpatialDirection::Backward) => r.y + r.h - TOLERANCE <= f.y,
        (SpatialAxis::Vertical, SpatialDirection::Forward) => r.y + TOLERANCE >= f.y + f.h,
    }
}

/// Primary distance between the facing edges along the requested axis.
pub fn distance(r: &Rect, ctx: &FocusMoveCtx) -> (d: i64)
    requires
        r.wf(),
        ctx.wf(),
    ensures
        d == primary_distance(*r, *ctx),
        0 <= d <= 2 * COORD_LIMIT,
{
    let f = ctx.focused_rect;
    let g: i64 = match (ctx.axis, ctx.dir) {
        (SpatialAxis::Horizontal, SpatialDirection::Backward) => (r.x + r.w) - f.x,
        (SpatialAxis::Horizontal, SpatialDirection::Forward) => r.x - (f.x + f.w),
        (SpatialAxis::Vertical, SpatialDirection::Backward) => (r.y + r.h) - f.y,
        (SpatialAxis::Vertical, SpatialDirection::Forward) => r.y - (f.y + f.h),
    };
    if g < 0 {
        -g
    } else {
        g
    }
}

/// Orthogonal distance between the perpendicular projections: 0 when they
/// overlap, otherwise the (doubled) separation of their midpoints.
pub fn ort_distance(r: &Rect, ctx: &FocusMoveCtx) -> (d: i64)
    requires
        r.wf(),
        ctx.wf(),
    ensures
        d == ort_distance_of(*r, *ctx),
        0 <= d <= 4 * COORD_LIMIT,
{
    let f = ctx.focused_rect;
    let (a, b): ((i64, i64), (i64, i64)) = match ctx.axis {
        SpatialAxis::Horizontal => ((f.y, f.y + f.h), (r.y, r.y + r.h)),
        SpatialAxis::Vertical => ((f.x, f.x + f.w), (r.x, r.x + r.w)),
    };
    if are_intersected(&a, &b) {
        return 0;
    }
    let ca2: i64 = a.0 + a.1;
    let cb2: i64 = b.0 + b.1;
    let d: i64 = ca2 - cb2;
    if d < 0 {
        -d
    } else {
        d
    }
}

} // verus!
