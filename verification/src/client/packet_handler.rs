//! The client's decisions on each packet the server sends.

use crate::client::data::Data;
use crate::encryption::{decrypt_message, opened_message};
use crate::packet::{Packet, PacketView};
use crate::text::string_of;
use vstd::prelude::*;

verus! {

/// What the client shows its user about a packet it handled.
pub enum ClientNotice {
    /// A chat message opened: its number, the sender's id and name (when
    /// known) and its text.
    Message { counter: u64, sender_id: u64, sender_name: Option<String>, text: String },
    /// A chat message did not open under the master key.
    Undecryptable,
    /// A chat message arrived but no master key is set.
    NoMasterKey,
    /// The server let the client in under `id`.
    Joined { id: u64 },
    /// The server refused the client.
    JoinDenied { err: String },
    /// A known user left.
    UserLeft { username: String },
    /// A user entered the room.
    UserJoined { username: String },
    /// The server removed the client.
    Kicked { reason: String },
}

/// The outcome of handling one packet: the packets to send back (none, so
/// far) and what to show.
pub struct ClientHandled {
    pub responses: Vec<Packet>,
    pub notice: Option<ClientNotice>,
}

/// The characters that the bytes of an opened message are shown as: each
/// byte as the character with that code.
pub open spec fn bytes_as_text(bytes: Seq<u8>) -> Seq<char> {
    Seq::new(bytes.len(), |i: int| bytes[i] as char)
}

/// An opened message is shown whole: its text has one character per byte of
/// the plaintext, and the character at each position is the byte there read
/// as a character code.
pub proof fn shown_text_keeps_every_byte(bytes: Seq<u8>)
    ensures
        bytes_as_text(bytes).len() == bytes.len(),
        forall|i: int| 0 <= i < bytes.len() ==> (#[trigger] bytes_as_text(bytes)[i]) as u32 == bytes[i] as u32,
{
}

/// The text whose characters are `bytes`, one per byte.
fn text_of_bytes(bytes: &[u8]) -> (text: String)
    ensures
        text@ == bytes_as_text(bytes@),
{
    let mut chars: Vec<char> = Vec::new();
    let mut i: usize = 0;
    while i < bytes.len()
        invariant
            i <= bytes@.len(),
            chars@ == bytes_as_text(bytes@).take(i as int),
        decreases bytes@.len() - i,
    {
        chars.push(bytes[i] as char);
        i = i + 1;
        assert(chars@ =~= bytes_as_text(bytes@).take(i as int));
    }
    assert(chars@ =~= bytes_as_text(bytes@));
    string_of(chars.as_slice())
}

/// Handles `packet` from the server: a chat message is opened with the
/// master key and shown with its sender's name, and the message counter
/// moves on by one whether or not it opened; a successful join takes over
/// the id, counter and users the server sent; users who join or leave are
/// added or removed.
pub fn handle_tcp_packet(packet: Packet, data: &mut Data) -> (out: ClientHandled)
    requires
        packet is Chat ==> old(data).counter < u64::MAX,
        packet is UserJoined ==> old(data).users.next_free_id() < u64::MAX,
    ensures
        out.responses@.len() == 0,
        match packet@ {
            PacketView::Chat { counter, sender_id, ciphertext } => {
                &&& final(data).counter == old(data).counter + 1
                &&& final(data).id == old(data).id
                &&& final(data).master_key == old(data).master_key
                &&& final(data).users@ == old(data).users@
                &&& final(data).users.next_free_id() == old(data).users.next_free_id()
                &&& match old(data).master_key {
                    None => out.notice matches Some(ClientNotice::NoMasterKey),
                    Some(k) => match opened_message(k@, sender_id, counter, ciphertext) {
                        Some(p) => out.notice matches Some(
                            ClientNotice::Message { counter: c, sender_id: s, sender_name: n, text: t },
                        ) && c == counter && s == sender_id && t@ == bytes_as_text(p) && (match n {
                            Some(name) => old(data).users@.contains_key(sender_id) && name@
                                == old(data).users@[sender_id],
                            None => !old(data).users@.contains_key(sender_id),
                        }),
                        None => out.notice matches Some(ClientNotice::Undecryptable),
                    },
                }
            },
            PacketView::JoinResponseSuccess { id, counter, users, next_id } => {
                &&& final(data).id == id
                &&& final(data).counter == counter
                &&& final(data).master_key == old(data).master_key
                &&& final(data).users@ == users
                &&& final(data).users.next_free_id() == next_id
                &&& out.notice matches Some(ClientNotice::Joined { id: i }) && i == id
            },
            PacketView::UserLeft { id } => {
                &&& final(data).id == old(data).id
                &&& final(data).counter == old(data).counter
                &&& final(data).master_key == old(data).master_key
                &&& final(data).users@ == old(data).users@.remove(id)
                &&& final(data).users.next_free_id() == old(data).users.next_free_id()
                &&& if old(data).users@.contains_key(id) {
                    out.notice matches Some(ClientNotice::UserLeft { username: n }) && n@
                        == old(data).users@[id]
                } else {
                    out.notice is None
                }
            },
            PacketView::UserJoined { username } => {
                &&& final(data).id == old(data).id
                &&& final(data).counter == old(data).counter
                &&& final(data).master_key == old(data).master_key
                &&& final(data).users@ == old(data).users@.insert(
                    old(data).users.next_free_id(),
                    username,
                )
                &&& final(data).users.next_free_id() == old(data).users.next_free_id() + 1
                &&& out.notice matches Some(ClientNotice::UserJoined { username: n }) && n@
                    == username
            },
            _ => {
                &&& final(data).id == old(data).id
                &&& final(data).counter == old(data).counter
                &&& final(data).master_key == old(data).master_key
                &&& final(data).users@ == old(data).users@
                &&& final(data).users.next_free_id() == old(data).users.next_free_id()
                &&& match packet@ {
                    PacketView::JoinResponseDeny { err } => out.notice matches Some(
                        ClientNotice::JoinDenied { err: e },
                    ) && e@ == err,
                    PacketView::Kick { reason } => out.notice matches Some(
                        ClientNotice::Kicked { reason: r },
                    ) && r@ == reason,
                    _ => out.notice is None,
                }
            },
        },
{
    match packet {
        Packet::Chat { counter, sender_id, ciphertext } => {
            let notice = match &data.master_key {
                Some(key) => match decrypt_message(key, sender_id, counter, ciphertext.as_slice()) {
                    Ok(plain) => {
                        let text = text_of_bytes(plain.as_slice());
                        let sender_name = match data.users.get(&sender_id) {
                            Some(name) => Some(name.clone()),
                            None => None,
                        };
                        ClientNotice::Message { counter, sender_id, sender_name, text }
                    },
                    Err(_) => ClientNotice::Undecryptable,
                },
                None => ClientNotice::NoMasterKey,
            };
            data.counter = data.counter + 1;
            ClientHandled { responses: Vec::new(), notice: Some(notice) }
        },
        Packet::JoinResponseSuccess { id, counter, users } => {
            data.id = id;
            data.counter = counter;
            data.users = users;
            ClientHandled { responses: Vec::new(), notice: Some(ClientNotice::Joined { id }) }
        },
        Packet::JoinResponseDeny { err } => {
            ClientHandled { responses: Vec::new(), notice: Some(ClientNotice::JoinDenied { err }) }
        },
        Packet::UserLeft { id } => {
            let notice = match data.users.remove(&id) {
                Some(username) => Some(ClientNotice::UserLeft { username }),
                None => None,
            };
            data.users.remove(&id);
            ClientHandled { responses: Vec::new(), notice }
        },
        Packet::UserJoined { username } => {
            let shown = username.clone();
            data.users.insert(username);
            ClientHandled {
                responses: Vec::new(),
                notice: Some(ClientNotice::UserJoined { username: shown }),
            }
        },
        Packet::Kick { reason } => {
            ClientHandled { responses: Vec::new(), notice: Some(ClientNotice::Kicked { reason }) }
        },
        _ => ClientHandled { responses: Vec::new(), notice: None },
    }
}

} // verus!
