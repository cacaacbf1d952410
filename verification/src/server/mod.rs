//! The server between the compositor and the browsers: pacing, sound, the tray.

pub mod audio;
pub mod pacer;
pub mod tray;
