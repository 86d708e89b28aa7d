//! A small end-to-end encrypted chat: a relay server that tracks who is in the
//! room and forwards sealed messages, and a client that seals and opens them
//! with a shared master key.

pub mod banner;
pub mod client;
pub mod constants;
pub mod encryption;
pub mod line_editor;
pub mod packet;
pub mod server;
pub mod text;
