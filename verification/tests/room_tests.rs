use meshanger::packet::Packet;
use meshanger::server::commands::{process_command, ServerAction};
use meshanger::server::data::{Data, UserSet};
use meshanger::server::packet_handler::{handle_tcp_packet, response_recipients, Notice, Response};
use std::collections::HashSet;

fn join(name: &str) -> Packet {
    Packet::JoinRequest { username: name.to_string() }
}

#[test]
fn user_set_hands_out_increasing_ids() {
    let mut users = UserSet::new();
    assert_eq!(users.next_id(), 0);
    assert_eq!(users.insert("ann".to_string()), 0);
    assert_eq!(users.insert("bob".to_string()), 1);
    assert_eq!(users.next_id(), 2);
    assert_eq!(users.get(&0), Some(&"ann".to_string()));
    assert_eq!(users.get(&1), Some(&"bob".to_string()));
    assert_eq!(users.get(&2), None);
}

#[test]
fn user_set_never_reuses_a_removed_id() {
    let mut users = UserSet::new();
    let a = users.insert("ann".to_string());
    assert_eq!(users.remove(&a), Some("ann".to_string()));
    assert_eq!(users.remove(&a), None);
    let b = users.insert("ann".to_string());
    assert_ne!(a, b);
    assert_eq!(users.get(&a), None);
}

#[test]
fn user_set_get_mut_renames_one_user() {
    let mut users = UserSet::new();
    users.insert("ann".to_string());
    users.insert("bob".to_string());
    if let Some(name) = users.get_mut(&1) {
        name.push_str("by");
    }
    assert_eq!(users.get(&1), Some(&"bobby".to_string()));
    assert_eq!(users.get(&0), Some(&"ann".to_string()));
    assert!(users.get_mut(&5).is_none());
}

#[test]
fn user_set_iter_visits_each_user_once() {
    let mut users = UserSet::new();
    users.insert("ann".to_string());
    users.insert("bob".to_string());
    users.insert("cid".to_string());
    let mut seen: Vec<(u64, String)> = users.iter().map(|(id, n)| (*id, n.clone())).collect();
    seen.sort();
    assert_eq!(seen, vec![(0, "ann".to_string()), (1, "bob".to_string()), (2, "cid".to_string())]);
}

#[test]
fn user_set_iter_mut_keeps_ids() {
    let mut users = UserSet::new();
    users.insert("ann".to_string());
    users.insert("bob".to_string());
    for (_, name) in users.iter_mut() {
        name.make_ascii_uppercase();
    }
    assert_eq!(users.get(&0), Some(&"ANN".to_string()));
    assert_eq!(users.get(&1), Some(&"BOB".to_string()));
    assert_eq!(users.next_id(), 2);
}

#[test]
fn user_set_finds_names() {
    let mut users = UserSet::new();
    users.insert("ann".to_string());
    assert!(users.contains_username(&"ann".to_string()));
    assert!(!users.contains_username(&"Ann".to_string()));
    assert!(!UserSet::new().contains_username(&String::new()));
}

#[test]
fn user_set_clone_is_equal_and_independent() {
    let mut users = UserSet::new();
    users.insert("ann".to_string());
    let mut copy = users.clone();
    assert_eq!(copy.get(&0), Some(&"ann".to_string()));
    assert_eq!(copy.next_id(), 1);
    copy.insert("bob".to_string());
    assert_eq!(users.get(&1), None);
}

#[test]
fn join_adds_user_and_answers_with_the_room() {
    let mut data = Data::new();
    let mut peers: HashSet<u64> = HashSet::new();
    let out = handle_tcp_packet(join("ann"), 0, 10, &mut peers, &mut data);
    assert_eq!(data.users.get(&0), Some(&"ann".to_string()));
    assert!(peers.contains(&10));
    assert_eq!(out.responses.len(), 2);
    match &out.responses[0] {
        Response::Reply { packet: Packet::JoinResponseSuccess { id, counter, users }, addr } => {
            assert_eq!(*id, 0);
            assert_eq!(*counter, 0);
            assert_eq!(*addr, 10);
            assert_eq!(users.get(&0), Some(&"ann".to_string()));
            assert_eq!(users.next_id(), 1);
        }
        other => panic!("unexpected {:?}", other_kind(other)),
    }
    match &out.responses[1] {
        Response::Broadcast { packet: Packet::UserJoined { username }, sender_addr } => {
            assert_eq!(username, "ann");
            assert_eq!(*sender_addr, Some(10));
        }
        other => panic!("unexpected {:?}", other_kind(other)),
    }
    assert!(matches!(out.notice, Some(Notice::Joined { ref username, addr: 10, id: 0 }) if username == "ann"));
}

fn other_kind(r: &Response) -> String {
    match r {
        Response::Broadcast { packet, .. } => format!("broadcast {:?}", packet),
        Response::Reply { packet, .. } => format!("reply {:?}", packet),
    }
}

#[test]
fn join_with_taken_name_is_refused_and_changes_nothing() {
    let mut data = Data::new();
    let mut peers: HashSet<u64> = HashSet::new();
    handle_tcp_packet(join("ann"), 0, 10, &mut peers, &mut data);
    let out = handle_tcp_packet(join("ann"), 1, 11, &mut peers, &mut data);
    assert_eq!(out.responses.len(), 1);
    match &out.responses[0] {
        Response::Reply { packet: Packet::JoinResponseDeny { err }, addr } => {
            assert_eq!(err, "A client with the same username is already in the room :/");
            assert_eq!(*addr, 11);
        }
        other => panic!("unexpected {}", other_kind(other)),
    }
    assert!(out.notice.is_none());
    assert!(!peers.contains(&11));
    assert_eq!(data.users.next_id(), 1);
    assert_eq!(data.users.get(&1), None);
}

#[test]
fn second_user_gets_next_id_and_sees_both() {
    let mut data = Data::new();
    let mut peers: HashSet<u64> = HashSet::new();
    handle_tcp_packet(join("ann"), 0, 10, &mut peers, &mut data);
    let out = handle_tcp_packet(join("bob"), 1, 11, &mut peers, &mut data);
    match &out.responses[0] {
        Response::Reply { packet: Packet::JoinResponseSuccess { id, users, .. }, .. } => {
            assert_eq!(*id, 1);
            assert_eq!(users.get(&0), Some(&"ann".to_string()));
            assert_eq!(users.get(&1), Some(&"bob".to_string()));
        }
        other => panic!("unexpected {}", other_kind(other)),
    }
    assert_eq!(peers.len(), 2);
}

#[test]
fn chat_is_relayed_to_everyone_and_counter_kept() {
    let mut data = Data::new();
    let mut peers: HashSet<u64> = HashSet::new();
    let out = handle_tcp_packet(
        Packet::Chat { counter: 41, sender_id: 2, ciphertext: vec![1, 2, 3] },
        0,
        10,
        &mut peers,
        &mut data,
    );
    assert_eq!(data.counter, 41);
    assert_eq!(out.responses.len(), 1);
    match &out.responses[0] {
        Response::Broadcast { packet: Packet::Chat { counter, sender_id, ciphertext }, sender_addr } => {
            assert_eq!((*counter, *sender_id, ciphertext.clone(), *sender_addr), (41, 2, vec![1, 2, 3], None));
        }
        other => panic!("unexpected {}", other_kind(other)),
    }
    assert!(matches!(out.notice, Some(Notice::ChatRelayed { counter: 41, sender_id: 2, ref ciphertext }) if *ciphertext == vec![1, 2, 3]));
}

#[test]
fn leave_removes_user_and_tells_others() {
    let mut data = Data::new();
    let mut peers: HashSet<u64> = HashSet::new();
    handle_tcp_packet(join("ann"), 0, 10, &mut peers, &mut data);
    let out = handle_tcp_packet(Packet::LeaveRequest, 0, 10, &mut peers, &mut data);
    assert_eq!(data.users.get(&0), None);
    match &out.responses[0] {
        Response::Broadcast { packet: Packet::UserLeft { id }, sender_addr } => {
            assert_eq!(*id, 0);
            assert_eq!(*sender_addr, Some(10));
        }
        other => panic!("unexpected {}", other_kind(other)),
    }
    assert!(matches!(out.notice, Some(Notice::Disconnected { addr: 10, ref username }) if username == "ann"));
}

#[test]
fn lost_connection_of_unknown_user_changes_nothing() {
    let mut data = Data::new();
    let mut peers: HashSet<u64> = HashSet::new();
    let out = handle_tcp_packet(Packet::InternalClientDisconnect, 4, 14, &mut peers, &mut data);
    assert!(out.responses.is_empty());
    assert!(out.notice.is_none());
}

#[test]
fn server_ignores_packets_meant_for_clients() {
    let mut data = Data::new();
    let mut peers: HashSet<u64> = HashSet::new();
    let out = handle_tcp_packet(Packet::Kick { reason: "x".to_string() }, 0, 1, &mut peers, &mut data);
    assert!(out.responses.is_empty());
    assert!(out.notice.is_none());
    assert_eq!(data.counter, 0);
}

#[test]
fn broadcast_skips_sender() {
    let peers: HashSet<u64> = [1, 2, 3].into_iter().collect();
    let response = Response::Broadcast { packet: Packet::UserLeft { id: 0 }, sender_addr: Some(2) };
    let mut targets = response_recipients(&response, &peers);
    targets.sort();
    assert_eq!(targets, vec![1, 3]);
}

#[test]
fn broadcast_without_sender_reaches_all() {
    let peers: HashSet<u64> = [5, 6].into_iter().collect();
    let response = Response::Broadcast { packet: Packet::LeaveRequest, sender_addr: None };
    let mut targets = response_recipients(&response, &peers);
    targets.sort();
    assert_eq!(targets, vec![5, 6]);
}

#[test]
fn reply_goes_only_to_its_address() {
    let peers: HashSet<u64> = [5, 6].into_iter().collect();
    let response = Response::Reply { packet: Packet::LeaveRequest, addr: 9 };
    assert_eq!(response_recipients(&response, &peers), vec![9]);
}

#[test]
fn server_console_commands() {
    assert!(matches!(process_command("help").action, ServerAction::ShowHelp));
    assert!(!process_command("help").exit);
    let out = process_command("exit");
    assert!(matches!(out.action, ServerAction::Closing));
    assert!(out.exit);
    let out = process_command("exit now");
    assert!(matches!(out.action, ServerAction::Unknown));
    assert!(!out.exit);
}
