//! The page's own decisions: what is drawn, what is forwarded, and what the
//! shell keeps for itself.

pub mod annexb;
pub mod audio;
pub mod canvas;
pub mod capture;
pub mod clipboard;
pub mod connect;
pub mod decoder;
pub mod desktop;
pub mod dom;
pub mod event;
pub mod keyboard;
pub mod keymap;
pub mod latency;
pub mod launcher;
pub mod locked;
pub mod mirror;
pub mod panel;
pub mod pointer;
pub mod scene;
pub mod shortcuts;
pub mod systray;
pub mod tasks;
pub mod traffic;
pub mod window;
