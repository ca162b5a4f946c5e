//! Wayland desktop-pet renderer: the verified core.

pub mod app;
pub mod canvas;
pub mod compose;
pub mod compositor;
pub mod input;
pub mod ints;
pub mod preview;
pub mod proto;
pub mod sprite;
pub mod strings;
pub mod supervisor;
pub mod surface;
pub mod text;

pub use crate::supervisor::Control;
pub use crate::supervisor::ControlCmd;
pub use crate::supervisor::PetSelection;
