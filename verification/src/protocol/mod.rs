//! Wire format for the Webland protocol.
//!
//! One codec, shared by the backend and the browser, so the two ends cannot
//! drift. A transport delivers whole messages, so a frame is one encoded
//! message.

pub mod codec;
pub mod deflate;
pub mod layout;
pub mod messages;
pub mod wire;
