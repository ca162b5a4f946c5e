//! Pets: what a pet is, what its sheet holds, and how its animations play.

pub mod animation;
pub mod gaze;
pub mod pet_dir;
pub mod pet_json;
pub mod semantics;
pub mod sheet;
pub mod timeline;
