//! The server's decisions on each packet a client sends: how the room
//! changes and which packets go to whom.

use crate::packet::{Packet, PacketView};
use crate::server::data::{name_in_use, Data};
use std::collections::HashSet;
use vstd::prelude::*;
use vstd::std_specs::iter::IteratorSpec;

verus! {

broadcast use vstd::std_specs::hash::group_hash_axioms;

/// A packet to send: to every connected client but the sender (all of them
/// when there is no sender), or to one client.
pub enum Response {
    Broadcast { packet: Packet, sender_addr: Option<u64> },
    Reply { packet: Packet, addr: u64 },
}

/// A response as plain values.
pub enum ResponseView {
    Broadcast { packet: PacketView, sender_addr: Option<u64> },
    Reply { packet: PacketView, addr: u64 },
}

impl View for Response {
    type V = ResponseView;

    open spec fn view(&self) -> ResponseView {
        match self {
            Response::Broadcast { packet, sender_addr } => ResponseView::Broadcast {
                packet: packet@,
                sender_addr: *sender_addr,
            },
            Response::Reply { packet, addr } => ResponseView::Reply { packet: packet@, addr: *addr },
        }
    }
}

/// What the server reports on its console about a packet it handled.
pub enum Notice {
    /// A user entered the room from connection `addr` and got id `id`.
    Joined { username: String, addr: u64, id: u64 },
    /// A chat message was relayed.
    ChatRelayed { counter: u64, sender_id: u64, ciphertext: Vec<u8> },
    /// The user on connection `addr` left.
    Disconnected { addr: u64, username: String },
}

/// The outcome of handling one packet: the packets to send and the console
/// report, if any.
pub struct Handled {
    pub responses: Vec<Response>,
    pub notice: Option<Notice>,
}

/// The reason a join is refused when the name is taken.
pub open spec fn name_taken_text() -> Seq<char> {
    "A client with the same username is already in the room :/"@
}

/// The responses, as plain values.
pub open spec fn response_views(responses: Seq<Response>) -> Seq<ResponseView> {
    responses.map_values(|r: Response| r@)
}

/// Handles `packet` from the client on connection `addr` whose connection
/// id is `id`: a join is refused when the name is taken and otherwise adds
/// the user, answers with the room and tells the others; a chat message is
/// relayed to everyone and its counter kept; a leave or a lost connection
/// removes the user with id `id` and tells the others. Other packets change
/// nothing.
pub fn handle_tcp_packet(
    packet: Packet,
    id: u64,
    addr: u64,
    tcp_addresses: &mut HashSet<u64>,
    data: &mut Data,
) -> (out: Handled)
    requires
        packet is JoinRequest ==> old(data).users.next_free_id() < u64::MAX,
    ensures
        old(data).wf() ==> final(data).wf(),
        match packet@ {
            PacketView::JoinRequest { username } => if name_in_use(old(data).users@, username) {
                &&& final(data).users@ == old(data).users@
                &&& final(data).users.next_free_id() == old(data).users.next_free_id()
                &&& final(data).counter == old(data).counter
                &&& final(tcp_addresses)@ == old(tcp_addresses)@
                &&& response_views(out.responses@) == seq![
                    ResponseView::Reply {
                        packet: PacketView::JoinResponseDeny { err: name_taken_text() },
                        addr,
                    },
                ]
                &&& out.notice is None
            } else {
                let new_id: u64 = old(data).users.next_free_id();
                &&& final(data).users@ == old(data).users@.insert(new_id, username)
                &&& final(data).users.next_free_id() == new_id + 1
                &&& final(data).counter == old(data).counter
                &&& final(tcp_addresses)@ == old(tcp_addresses)@.insert(addr)
                &&& response_views(out.responses@) == seq![
                    ResponseView::Reply {
                        packet: PacketView::JoinResponseSuccess {
                            id: new_id,
                            counter: old(data).counter,
                            users: final(data).users@,
                            next_id: (new_id + 1) as u64,
                        },
                        addr,
                    },
                    ResponseView::Broadcast {
                        packet: PacketView::UserJoined { username },
                        sender_addr: Some(addr),
                    },
                ]
                &&& out.notice matches Some(Notice::Joined { username: n, addr: a, id: i })
                    && n@ == username && a == addr && i == new_id
            },
            PacketView::Chat { counter, sender_id, ciphertext } => {
                &&& final(data).users@ == old(data).users@
                &&& final(data).users.next_free_id() == old(data).users.next_free_id()
                &&& final(data).counter == counter
                &&& final(tcp_addresses)@ == old(tcp_addresses)@
                &&& response_views(out.responses@) == seq![
                    ResponseView::Broadcast {
                        packet: PacketView::Chat { counter, sender_id, ciphertext },
                        sender_addr: None,
                    },
                ]
                &&& out.notice matches Some(Notice::ChatRelayed { counter: c, sender_id: s, ciphertext: t })
                    && c == counter && s == sender_id && t@ == ciphertext
            },
            PacketView::InternalClientDisconnect | PacketView::LeaveRequest => {
                &&& final(data).counter == old(data).counter
                &&& final(data).users.next_free_id() == old(data).users.next_free_id()
                &&& final(tcp_addresses)@ == old(tcp_addresses)@
                &&& if old(data).users@.contains_key(id) {
                    &&& final(data).users@ == old(data).users@.remove(id)
                    &&& response_views(out.responses@) == seq![
                        ResponseView::Broadcast {
                            packet: PacketView::UserLeft { id },
                            sender_addr: Some(addr),
                        },
                    ]
                    &&& out.notice matches Some(Notice::Disconnected { addr: a, username: n })
                        && a == addr && n@ == old(data).users@[id]
                } else {
                    &&& final(data).users@ == old(data).users@
                    &&& out.responses@.len() == 0
                    &&& out.notice is None
                }
            },
            _ => {
                &&& final(data).users@ == old(data).users@
                &&& final(data).users.next_free_id() == old(data).users.next_free_id()
                &&& final(data).counter == old(data).counter
                &&& final(tcp_addresses)@ == old(tcp_addresses)@
                &&& out.responses@.len() == 0
                &&& out.notice is None
            },
        },
{
    match packet {
        Packet::JoinRequest { username } => {
            if data.users.contains_username(&username) {
                let err = String::from_str("A client with the same username is already in the room :/");
                let mut responses: Vec<Response> = Vec::new();
                responses.push(Response::Reply { packet: Packet::JoinResponseDeny { err }, addr });
                assert(response_views(responses@) =~= seq![
                    ResponseView::Reply {
                        packet: PacketView::JoinResponseDeny { err: name_taken_text() },
                        addr,
                    },
                ]);
                return Handled { responses, notice: None };
            }
            let ghost name = username@;
            let new_id: u64 = data.users.insert(username.clone());
            tcp_addresses.insert(addr);
            proof {
                if old(data).wf() {
                    assert forall|a: u64, b: u64|
                        #[trigger] data.users@.contains_key(a) && #[trigger] data.users@.contains_key(b)
                            && data.users@[a] == data.users@[b] implies a == b by {
                        if a != b {
                            if a == new_id {
                                assert(old(data).users@.contains_key(b));
                            } else if b == new_id {
                                assert(old(data).users@.contains_key(a));
                            }
                        }
                    }
                }
            }
            let users = data.users.clone();
            let mut responses: Vec<Response> = Vec::new();
            responses.push(
                Response::Reply {
                    packet: Packet::JoinResponseSuccess { id: new_id, counter: data.counter, users },
                    addr,
                },
            );
            let joined_name = username.clone();
            responses.push(
                Response::Broadcast {
                    packet: Packet::UserJoined { username: joined_name },
                    sender_addr: Some(addr),
                },
            );
            assert(response_views(responses@) =~= seq![
                ResponseView::Reply {
                    packet: PacketView::JoinResponseSuccess {
                        id: new_id,
                        counter: old(data).counter,
                        users: data.users@,
                        next_id: (new_id + 1) as u64,
                    },
                    addr,
                },
                ResponseView::Broadcast {
                    packet: PacketView::UserJoined { username: name },
                    sender_addr: Some(addr),
                },
            ]);
            Handled { responses, notice: Some(Notice::Joined { username, addr, id: new_id }) }
        },
        Packet::Chat { counter, sender_id, ciphertext } => {
            data.counter = counter;
            let logged = ciphertext.clone();
            let mut responses: Vec<Response> = Vec::new();
            let ghost bytes = ciphertext@;
            responses.push(
                Response::Broadcast {
                    packet: Packet::Chat { counter, sender_id, ciphertext },
                    sender_addr: None,
                },
            );
            assert(response_views(responses@) =~= seq![
                ResponseView::Broadcast {
                    packet: PacketView::Chat { counter, sender_id, ciphertext: bytes },
                    sender_addr: None,
                },
            ]);
            Handled {
                responses,
                notice: Some(Notice::ChatRelayed { counter, sender_id, ciphertext: logged }),
            }
        },
        Packet::InternalClientDisconnect | Packet::LeaveRequest => {
            let username = match data.users.get(&id) {
                Some(name) => name.clone(),
                None => {
                    return Handled { responses: Vec::new(), notice: None };
                },
            };
            data.users.remove(&id);
            let mut responses: Vec<Response> = Vec::new();
            responses.push(
                Response::Broadcast { packet: Packet::UserLeft { id }, sender_addr: Some(addr) },
            );
            assert(response_views(responses@) =~= seq![
                ResponseView::Broadcast { packet: PacketView::UserLeft { id }, sender_addr: Some(addr) },
            ]);
            Handled { responses, notice: Some(Notice::Disconnected { addr, username }) }
        },
        _ => Handled { responses: Vec::new(), notice: None },
    }
}

/// The connections that `response` is written to: for a broadcast, every
/// connected client except the sender, each once; for a reply, the one
/// addressed connection.
pub fn response_recipients(response: &Response, tcp_addresses: &HashSet<u64>) -> (targets: Vec<u64>)
    ensures
        match response@ {
            ResponseView::Broadcast { sender_addr, .. } => {
                &&& targets@.no_duplicates()
                &&& forall|a: u64|
                    #[trigger] targets@.contains(a) <==> (tcp_addresses@.contains(a) && sender_addr
                        != Some(a))
            },
            ResponseView::Reply { addr, .. } => targets@ == seq![addr],
        },
{
    match response {
        Response::Reply { addr, .. } => {
            let mut targets: Vec<u64> = Vec::new();
            targets.push(*addr);
            assert(targets@ =~= seq![*addr]);
            targets
        },
        Response::Broadcast { sender_addr, .. } => {
            let ghost all = vstd::std_specs::hash::spec_hash_keys_iter(tcp_addresses).remaining();
            let mut targets: Vec<u64> = Vec::new();
            for a in it: tcp_addresses.iter()
                invariant
                    it.seq() == all,
                    all.unref().to_set() == tcp_addresses@,
                    all.no_duplicates(),
                    targets@.no_duplicates(),
                    forall|x: u64|
                        #[trigger] targets@.contains(x) <==> (exists|i: int|
                            0 <= i < it.index() && *all[i] == x) && *sender_addr != Some(x),
            {
                let ghost before = targets@;
                let ghost k = it.index();
                assert(*all[k] == *a);
                let keep = match sender_addr {
                    Some(s) => *a != *s,
                    None => true,
                };
                if keep {
                    proof {
                        assert(!before.contains(*a)) by {
                            if before.contains(*a) {
                                let i = choose|i: int| 0 <= i < k && *all[i] == *a;
                                assert(all[i] == all[k]);
                            }
                        }
                    }
                    targets.push(*a);
                }
                proof {
                    assert forall|x: u64| #[trigger] targets@.contains(x) <==> (exists|i: int|
                        0 <= i < k + 1 && *all[i] == x) && *sender_addr != Some(x) by {
                        if targets@.contains(x) {
                            if before.contains(x) {
                                let i = choose|i: int| 0 <= i < k && *all[i] == x;
                                assert(0 <= i < k + 1 && *all[i] == x);
                            } else {
                                assert(keep && x == *a);
                                assert(*all[k] == x);
                            }
                        }
                        if (exists|i: int| 0 <= i < k + 1 && *all[i] == x) && *sender_addr != Some(x) {
                            let i = choose|i: int| 0 <= i < k + 1 && *all[i] == x;
                            if i == k {
                                assert(keep);
                                assert(targets@[before.len() as int] == x);
                                assert(targets@.contains(x));
                            } else {
                                assert(before.contains(x));
                                let j = choose|j: int| 0 <= j < before.len() && before[j] == x;
                                assert(targets@[j] == x);
                                assert(targets@.contains(x));
                            }
                        }
                    }
                }
            }
            proof {
                assert forall|x: u64|
                    #[trigger] targets@.contains(x) <==> (tcp_addresses@.contains(x) && *sender_addr
                        != Some(x)) by {
                    if tcp_addresses@.contains(x) {
                        assert(all.unref().to_set().contains(x));
                        let i = choose|i: int| 0 <= i < all.unref().len() && all.unref()[i] == x;
                        assert(*all[i] == x);
                    }
                    if exists|i: int| 0 <= i < all.len() && *all[i] == x {
                        let i = choose|i: int| 0 <= i < all.len() && *all[i] == x;
                        assert(all.unref()[i] == x);
                        assert(all.unref().to_set().contains(x));
                    }
                }
            }
            targets
        },
    }
}

} // verus!
