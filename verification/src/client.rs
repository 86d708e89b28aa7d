//! The chat client's state, its handling of packets from the server, and
//! its typed commands.

pub mod commands;
pub mod data;
pub mod keys;
pub mod packet_handler;
