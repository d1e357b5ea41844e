//! The dock: panels arranged as tabs in a tree of splits.

pub mod divider;
pub mod docks;
pub mod drag;
pub mod drop;
pub mod focus;
pub mod gesture_laws;
pub mod keep;
pub mod laws;
pub mod layout;
pub mod picker;
pub mod placing;
pub mod plan;
pub mod plan_laws;
pub mod resize;
pub mod target;
pub mod target_laws;
pub mod title;
pub mod tree;
pub mod windows;
