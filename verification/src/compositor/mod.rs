//! Compositor-specific facts: which toplevel is active, and when a change of
//! focus is worth reporting.

pub mod backend;
pub mod hyprland;
pub mod settle;
pub mod wlr_generic;

pub use crate::compositor::backend::detect;
pub use crate::compositor::backend::Kind;
