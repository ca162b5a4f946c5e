//! The mascot's surface: where it stands, what it says, and when it is seen.

pub mod bubble;
pub mod layout;
pub mod mascot;
pub mod outputs;
pub mod position;
pub mod surface_set;
pub mod visibility;
