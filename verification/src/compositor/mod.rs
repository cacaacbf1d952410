//! The compositor's own decisions: what is sent, when, and to whom.

pub mod clipboard;
pub mod clock;
pub mod config;
pub mod cursors;
pub mod damage;
pub mod encode;
pub mod input;
pub mod laws;
pub mod pass;
pub mod popups;
pub mod session;
pub mod shown;
pub mod spawn;
pub mod state;
pub mod stream;
pub mod tracking;
pub mod window;
