//! Hyprland as a source of facts: its event lines, its query replies, and the
//! pace at which its sockets are used.

pub mod cursor;
pub mod events;
pub mod query;
pub mod reader;
