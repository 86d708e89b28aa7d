//! The messages that clients and the server exchange.

use crate::server::data::UserSet;
use vstd::prelude::*;

verus! {

/// A message between a client and the server. The comments name the
/// direction: S for the server, C for a client.
#[derive(Clone, Debug)]
pub enum Packet {
    /// C to S: asks to enter the room under `username`.
    JoinRequest { username: String },
    /// S to C: the join succeeded; the client's id, the current message
    /// counter and the users in the room.
    JoinResponseSuccess { id: u64, counter: u64, users: UserSet },
    /// S to C: the join was refused, with the reason.
    JoinResponseDeny { err: String },
    /// S to C: another user entered the room.
    UserJoined { username: String },
    /// C to S: the client leaves the room.
    LeaveRequest,
    /// S to C: the user with this id left the room.
    UserLeft { id: u64 },
    /// S to C: the client was removed from the room, with the reason.
    Kick { reason: String },
    /// S to S: a client's connection closed.
    InternalClientDisconnect,
    /// Both ways: a sealed chat message, numbered by `counter`, from `sender_id`.
    Chat { counter: u64, sender_id: u64, ciphertext: Vec<u8> },
}

/// A packet as plain values: names as characters, ciphertexts as bytes, and a
/// user set as its users and next free id.
pub enum PacketView {
    JoinRequest { username: Seq<char> },
    JoinResponseSuccess { id: u64, counter: u64, users: Map<u64, Seq<char>>, next_id: u64 },
    JoinResponseDeny { err: Seq<char> },
    UserJoined { username: Seq<char> },
    LeaveRequest,
    UserLeft { id: u64 },
    Kick { reason: Seq<char> },
    InternalClientDisconnect,
    Chat { counter: u64, sender_id: u64, ciphertext: Seq<u8> },
}

impl View for Packet {
    type V = PacketView;

    open spec fn view(&self) -> PacketView {
        match self {
            Packet::JoinRequest { username } => PacketView::JoinRequest { username: username@ },
            Packet::JoinResponseSuccess { id, counter, users } => PacketView::JoinResponseSuccess {
                id: *id,
                counter: *counter,
                users: users@,
                next_id: users.next_free_id(),
            },
            Packet::JoinResponseDeny { err } => PacketView::JoinResponseDeny { err: err@ },
            Packet::UserJoined { username } => PacketView::UserJoined { username: username@ },
            Packet::LeaveRequest => PacketView::LeaveRequest,
            Packet::UserLeft { id } => PacketView::UserLeft { id: *id },
            Packet::Kick { reason } => PacketView::Kick { reason: reason@ },
            Packet::InternalClientDisconnect => PacketView::InternalClientDisconnect,
            Packet::Chat { counter, sender_id, ciphertext } => PacketView::Chat {
                counter: *counter,
                sender_id: *sender_id,
                ciphertext: ciphertext@,
            },
        }
    }
}

} // verus!
