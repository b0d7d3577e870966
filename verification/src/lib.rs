//! Directional (spatial) focus navigation over a hierarchical scene graph:
//! given a tree of positioned, possibly hidden nodes and a currently focused
//! node, find the best node to focus next when the user asks to move focus
//! up, down, left or right.
//!
//! The scene is modeled as an arena tree ([`scene::SceneTree`]) whose
//! rectangles use fixed-point coordinates (thousandths of a logical pixel),
//! so that the tolerance-aware comparisons of the scorer are exact; an
//! embedding that reads its geometry from a toolkit converts at the
//! boundary. One navigation call enumerates candidates at the focused
//! node's container ([`scene::SceneTree::enumerate_candidates`]), scores
//! them against the focused rectangle ([`search::find_next_focusable_item`]),
//! widens the scope ancestor by ancestor until a winner is found
//! ([`search::nav_target`]), and moves focus to it
//! ([`scene::SceneTree::set_focus`]). The guarantees of the whole pipeline
//! are stated and proved in [`laws`].

pub mod geometry;
pub mod scene;
pub mod search;
pub mod laws;

pub use geometry::{FocusMoveCtx, FocusMoveDirection, Rect};
pub use scene::SceneTree;
pub use search::MoveFocus;
