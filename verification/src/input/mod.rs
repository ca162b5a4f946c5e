//! Pointer input: what a press, a motion or a release means.

pub mod drag;
pub mod router;
