use meshanger::banner::fill_banner_line;
use meshanger::client::commands::{accepts_command, connect_target, process_command, ClientAction};
use meshanger::client::data::Data as ClientData;
use meshanger::client::keys::{key_from_hex, key_to_hex};
use meshanger::client::packet_handler::{handle_tcp_packet as client_handle, ClientNotice};
use meshanger::constants::SERVER_PORT;
use meshanger::line_editor::{apply_key, KeyInput, LineEffect};
use meshanger::encryption::{decrypt_message, encrypt_message};
use meshanger::packet::Packet;
use meshanger::server::data::{Data, UserSet};
use meshanger::server::packet_handler::{handle_tcp_packet as server_handle, Response};
use meshanger::text::{chars_of, parse_u32, split_on, trim, ParseIntFailure};
use std::collections::HashSet;

const KEY_HEX: &str = "000102030405060708090a0b0c0d0e0f101112131415161718191a1b1c1d1e1f";

fn key_bytes() -> [u8; 32] {
    let mut k = [0u8; 32];
    for (i, b) in k.iter_mut().enumerate() {
        *b = i as u8;
    }
    k
}

#[test]
fn key_text_is_lower_case_hex() {
    assert_eq!(key_to_hex(&key_bytes()), KEY_HEX);
    assert_eq!(key_to_hex(&[0xab; 32]).len(), 64);
    assert!(key_to_hex(&[0xab; 32]).starts_with("abab"));
}

#[test]
fn key_text_reads_back() {
    assert_eq!(key_from_hex(KEY_HEX), Some(key_bytes()));
    let k = [0xfe; 32];
    assert_eq!(key_from_hex(&key_to_hex(&k)), Some(k));
}

#[test]
fn key_text_accepts_upper_case() {
    assert_eq!(key_from_hex(&KEY_HEX.to_uppercase()), Some(key_bytes()));
}

#[test]
fn key_text_must_be_64_hex_digits() {
    assert_eq!(key_from_hex("00"), None);
    assert_eq!(key_from_hex(&"g".repeat(64)), None);
    assert_eq!(key_from_hex(&"0".repeat(66)), None);
}

#[test]
fn split_keeps_empty_pieces() {
    let pieces = split_on(&chars_of("a  b"), ' ');
    assert_eq!(pieces, vec![vec!['a'], vec![], vec!['b']]);
    assert_eq!(split_on(&chars_of(""), ' '), vec![Vec::<char>::new()]);
    assert_eq!(split_on(&chars_of("x:"), ':'), vec![vec!['x'], vec![]]);
}

#[test]
fn trim_removes_unicode_white_space() {
    assert_eq!(trim(&chars_of(" \t ann\u{3000}\n")), chars_of("ann"));
    assert_eq!(trim(&chars_of("   ")), Vec::<char>::new());
    assert_eq!(trim(&chars_of("a b")), chars_of("a b"));
}

#[test]
fn parse_u32_matches_std() {
    for text in ["0", "42", "+7", "4294967295", "4294967296", "", "+", "-", "-1", "12a", "99999999999x", "00012", "٣"] {
        let expected = text.parse::<u32>();
        let got = parse_u32(&chars_of(text));
        match (got, expected) {
            (Ok(a), Ok(b)) => assert_eq!(a, b, "{text}"),
            (Err(ParseIntFailure::Empty), Err(e)) => assert_eq!(e.to_string(), "cannot parse integer from empty string"),
            (Err(ParseIntFailure::InvalidDigit), Err(e)) => assert_eq!(e.to_string(), "invalid digit found in string", "{text}"),
            (Err(ParseIntFailure::PosOverflow), Err(e)) => assert_eq!(e.to_string(), "number too large to fit in target type", "{text}"),
            (g, e) => panic!("{text}: {:?} vs {:?}", g, e),
        }
    }
}

#[test]
fn connect_target_reads_host_and_port() {
    let t = connect_target(" 127.0.0.1:9000 ", "  ann ").unwrap();
    assert_eq!(t.host, "127.0.0.1");
    assert_eq!(t.port, 9000);
    assert!(!t.default_port);
    assert_eq!(t.username, "ann");
}

#[test]
fn connect_target_uses_default_port() {
    let t = connect_target("localhost", "bob").unwrap();
    assert_eq!(t.host, "localhost");
    assert_eq!(t.port, SERVER_PORT);
    assert!(t.default_port);
}

#[test]
fn connect_target_refuses_bad_port() {
    assert_eq!(connect_target("h:abc", "x").err().unwrap(), "invalid digit found in string");
    assert_eq!(connect_target("h:", "x").err().unwrap(), "cannot parse integer from empty string");
    assert_eq!(connect_target("h:99999999999", "x").err().unwrap(), "number too large to fit in target type");
    assert_eq!(connect_target("h:80:90", "x").unwrap().port, 80);
}

#[test]
fn help_exit_and_unknown() {
    let mut d = ClientData::new();
    assert!(matches!(process_command(&mut d, false, "help").action, ClientAction::ShowHelp));
    let out = process_command(&mut d, false, "exit");
    assert!(matches!(out.action, ClientAction::Closing));
    assert!(out.exit);
    let out = process_command(&mut d, false, "exit later");
    assert!(matches!(out.action, ClientAction::Closing));
    assert!(!out.exit);
    assert!(matches!(process_command(&mut d, false, "dance").action, ClientAction::Unknown));
    assert!(matches!(process_command(&mut d, false, "").action, ClientAction::Unknown));
}

#[test]
fn say_needs_connection_and_key() {
    let mut d = ClientData::new();
    assert!(matches!(process_command(&mut d, false, "say hi").action, ClientAction::NotConnected));
    assert!(matches!(process_command(&mut d, true, "say hi").action, ClientAction::NoMasterKey));
}

#[test]
fn say_seals_the_rest_of_the_line() {
    let mut d = ClientData::new();
    d.master_key = Some([3u8; 32]);
    d.id = 5;
    d.counter = 8;
    match process_command(&mut d, true, "say hello there").action {
        ClientAction::SendChat { packet: Packet::Chat { counter, sender_id, ciphertext } } => {
            assert_eq!((counter, sender_id), (8, 5));
            assert_eq!(decrypt_message(&[3u8; 32], 5, 8, &ciphertext), Ok(b"hello there".to_vec()));
            assert_eq!(ciphertext, encrypt_message(&[3u8; 32], 5, 8, b"hello there"));
        }
        _ => panic!("expected a chat packet"),
    }
}

#[test]
fn bare_say_is_not_accepted_when_it_would_send() {
    let mut d = ClientData::new();
    assert!(accepts_command(&d, false, "say"));
    d.master_key = Some([0u8; 32]);
    assert!(!accepts_command(&d, true, "say"));
    assert!(accepts_command(&d, true, "say "));
}

#[test]
fn join_checks_arguments_and_connection() {
    let mut d = ClientData::new();
    assert!(matches!(process_command(&mut d, false, "join 1.2.3.4").action, ClientAction::InvalidUsage));
    assert!(matches!(process_command(&mut d, true, "join 1.2.3.4 ann").action, ClientAction::AlreadyConnected));
    match process_command(&mut d, false, "join 1.2.3.4:99 ann").action {
        ClientAction::Connect { address, username } => {
            assert_eq!(address, "1.2.3.4:99");
            assert_eq!(username, "ann");
        }
        _ => panic!("expected connect"),
    }
}

#[test]
fn leave_needs_connection() {
    let mut d = ClientData::new();
    assert!(matches!(process_command(&mut d, false, "leave").action, ClientAction::NotConnected));
    assert!(matches!(process_command(&mut d, true, "leave").action, ClientAction::Leave));
}

#[test]
fn setkey_sets_master_key() {
    let mut d = ClientData::new();
    let command = format!("setkey {}", KEY_HEX);
    assert!(matches!(process_command(&mut d, false, &command).action, ClientAction::KeySet));
    assert_eq!(d.master_key, Some(key_bytes()));
}

#[test]
fn setkey_checks_length_and_arguments() {
    let mut d = ClientData::new();
    assert!(matches!(process_command(&mut d, false, "setkey abcd").action, ClientAction::InvalidKeyFormat));
    assert!(matches!(process_command(&mut d, false, "setkey").action, ClientAction::InvalidUsage));
    assert_eq!(d.master_key, None);
}

#[test]
fn setkey_with_non_hex_key_is_not_accepted() {
    let d = ClientData::new();
    let command = format!("setkey {}", "z".repeat(64));
    assert!(!accepts_command(&d, false, &command));
    assert!(accepts_command(&d, false, &format!("setkey {}", KEY_HEX)));
}

#[test]
fn genkey_shows_a_key_that_setkey_accepts() {
    let mut d = ClientData::new();
    assert!(matches!(process_command(&mut d, false, "genkey").action, ClientAction::InvalidUsage));
    let text = match process_command(&mut d, false, "genkey party").action {
        ClientAction::ShowKey { text } => text,
        _ => panic!("expected a key"),
    };
    assert_eq!(text.len(), 64);
    assert!(d.master_key.is_none());
    let command = format!("setkey {}", text);
    assert!(accepts_command(&d, false, &command));
    assert!(matches!(process_command(&mut d, false, &command).action, ClientAction::KeySet));
    assert_eq!(d.master_key.map(|k| key_to_hex(&k)), Some(text));
}

#[test]
fn client_opens_chat_and_counts_it() {
    let mut d = ClientData::new();
    d.master_key = Some([4u8; 32]);
    d.users.insert("ann".to_string());
    let ciphertext = encrypt_message(&[4u8; 32], 0, 0, b"hi");
    let out = client_handle(Packet::Chat { counter: 0, sender_id: 0, ciphertext }, &mut d);
    assert!(out.responses.is_empty());
    assert_eq!(d.counter, 1);
    match out.notice {
        Some(ClientNotice::Message { counter, sender_id, sender_name, text }) => {
            assert_eq!((counter, sender_id), (0, 0));
            assert_eq!(sender_name, Some("ann".to_string()));
            assert_eq!(text, "hi");
        }
        _ => panic!("expected a message"),
    }
}

#[test]
fn client_shows_bytes_as_latin1_characters() {
    let mut d = ClientData::new();
    d.master_key = Some([4u8; 32]);
    let ciphertext = encrypt_message(&[4u8; 32], 9, 0, &[0xe9]);
    match client_handle(Packet::Chat { counter: 0, sender_id: 9, ciphertext }, &mut d).notice {
        Some(ClientNotice::Message { sender_name, text, .. }) => {
            assert_eq!(sender_name, None);
            assert_eq!(text, "\u{e9}");
        }
        _ => panic!("expected a message"),
    }
}

#[test]
fn client_counts_chat_it_cannot_open() {
    let mut d = ClientData::new();
    let out = client_handle(Packet::Chat { counter: 0, sender_id: 0, ciphertext: vec![0; 20] }, &mut d);
    assert!(matches!(out.notice, Some(ClientNotice::NoMasterKey)));
    assert_eq!(d.counter, 1);
    d.master_key = Some([1u8; 32]);
    let out = client_handle(Packet::Chat { counter: 0, sender_id: 0, ciphertext: vec![0; 20] }, &mut d);
    assert!(matches!(out.notice, Some(ClientNotice::Undecryptable)));
    assert_eq!(d.counter, 2);
}

#[test]
fn client_takes_over_room_on_join() {
    let mut d = ClientData::new();
    let mut users = UserSet::new();
    users.insert("ann".to_string());
    users.insert("bob".to_string());
    let out = client_handle(Packet::JoinResponseSuccess { id: 1, counter: 17, users }, &mut d);
    assert!(matches!(out.notice, Some(ClientNotice::Joined { id: 1 })));
    assert_eq!((d.id, d.counter), (1, 17));
    assert_eq!(d.users.get(&0), Some(&"ann".to_string()));
    assert_eq!(d.users.next_id(), 2);
}

#[test]
fn client_tracks_users_joining_and_leaving() {
    let mut d = ClientData::new();
    let out = client_handle(Packet::UserJoined { username: "cid".to_string() }, &mut d);
    assert!(matches!(out.notice, Some(ClientNotice::UserJoined { ref username }) if username == "cid"));
    assert_eq!(d.users.get(&0), Some(&"cid".to_string()));
    let out = client_handle(Packet::UserLeft { id: 0 }, &mut d);
    assert!(matches!(out.notice, Some(ClientNotice::UserLeft { ref username }) if username == "cid"));
    assert_eq!(d.users.get(&0), None);
    let out = client_handle(Packet::UserLeft { id: 0 }, &mut d);
    assert!(out.notice.is_none());
}

#[test]
fn client_reports_denial_and_kick() {
    let mut d = ClientData::new();
    let out = client_handle(Packet::JoinResponseDeny { err: "no".to_string() }, &mut d);
    assert!(matches!(out.notice, Some(ClientNotice::JoinDenied { ref err }) if err == "no"));
    let out = client_handle(Packet::Kick { reason: "spam".to_string() }, &mut d);
    assert!(matches!(out.notice, Some(ClientNotice::Kicked { ref reason }) if reason == "spam"));
    let out = client_handle(Packet::LeaveRequest, &mut d);
    assert!(out.notice.is_none());
}

#[test]
fn message_travels_from_one_client_through_server_to_another() {
    let key_cmd = format!("setkey {}", KEY_HEX);
    let mut server = Data::new();
    let mut peers: HashSet<u64> = HashSet::new();
    let mut ann = ClientData::new();
    let mut bob = ClientData::new();
    process_command(&mut ann, false, &key_cmd);
    process_command(&mut bob, false, &key_cmd);
    for (conn, name, client) in [(0u64, "ann", &mut ann), (1u64, "bob", &mut bob)] {
        let out = server_handle(Packet::JoinRequest { username: name.to_string() }, conn, conn, &mut peers, &mut server);
        for r in out.responses {
            if let Response::Reply { packet, .. } = r {
                client_handle(packet, client);
            }
        }
    }
    assert_eq!(ann.id, 0);
    assert_eq!(bob.id, 1);
    let packet = match process_command(&mut ann, true, "say good morning").action {
        ClientAction::SendChat { packet } => packet,
        _ => panic!("expected a chat packet"),
    };
    let out = server_handle(packet, 0, 0, &mut peers, &mut server);
    let relayed = match out.responses.into_iter().next() {
        Some(Response::Broadcast { packet, sender_addr: None }) => packet,
        _ => panic!("expected a broadcast"),
    };
    match client_handle(relayed, &mut bob).notice {
        Some(ClientNotice::Message { sender_name, text, .. }) => {
            assert_eq!(sender_name, Some("ann".to_string()));
            assert_eq!(text, "good morning");
        }
        _ => panic!("expected a message"),
    }
}

#[test]
fn banner_marks_become_bits() {
    assert_eq!(fill_banner_line("a#b##", &[false, true, false, false, true]), "a1b01");
    assert_eq!(fill_banner_line("", &[]), "");
    assert_eq!(fill_banner_line("é#", &[true, true]), "é1");
}

#[test]
fn line_editor_builds_and_submits_lines() {
    let mut line: Vec<char> = Vec::new();
    assert!(matches!(apply_key(&mut line, KeyInput::Backspace), LineEffect::Erased));
    assert!(line.is_empty());
    assert!(matches!(apply_key(&mut line, KeyInput::Char('h')), LineEffect::Echo('h')));
    apply_key(&mut line, KeyInput::Char('x'));
    apply_key(&mut line, KeyInput::Backspace);
    apply_key(&mut line, KeyInput::Char('i'));
    assert!(matches!(apply_key(&mut line, KeyInput::Other), LineEffect::Ignored));
    match apply_key(&mut line, KeyInput::Enter) {
        LineEffect::Submitted(text) => assert_eq!(text, "hi"),
        _ => panic!("expected the line"),
    }
    assert!(line.is_empty());
}
