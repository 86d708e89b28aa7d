//! The relay server's state and its handling of client packets.

pub mod commands;
pub mod data;
pub mod packet_handler;
