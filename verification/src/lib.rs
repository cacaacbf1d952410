//! Webland: a Wayland compositor that uses a browser as its display.
//!
//! Every window is streamed as its own video and the browser composites them.
//! This crate holds what both halves decide and compute: the wire format, the
//! frame clock, damage tracking, input routing, the launcher's rules and the
//! shell's. Sockets, GPUs and the page itself stay outside.

pub mod apps;
pub mod browser;
pub mod compositor;
pub mod geometry;
pub mod protocol;
pub mod server;
pub mod text;
