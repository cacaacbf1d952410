//! What the launcher can start.
//!
//! Read from freedesktop `.desktop` files, which is where every installed
//! application already describes itself: name, command, and whether it wants to
//! be shown in a menu at all. Nothing here is configured by hand, except the one
//! thing that cannot be read from anywhere: the launch overrides.

pub mod base64;
pub mod entry;
pub mod icons;
pub mod listing;
pub mod overrides;
pub mod paths;
pub mod words;
