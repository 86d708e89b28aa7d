//! The commands a user types into the client.

use crate::client::data::Data;
use crate::client::keys::{
    hex_decoded, hex_encoded, hex_text_reads_back, is_hex_text, key_from_hex, key_to_hex,
};
use crate::constants::SERVER_PORT;
use crate::encryption::{
    derived_key, encrypt_message, generate_key, opened_message, sealable_len_limit, sealed_message,
    SEALABLE_LEN_LIMIT,
};
use crate::packet::{Packet, PacketView};
use crate::text::{
    chars_after, chars_of, parse_failure_message, parse_failure_text, parse_u32, parsed_u32, spells, split_on,
    split_pieces, string_of, trim, trimmed, lemma_split_pieces_nonempty, lemma_split_pieces_extend,
    lemma_split_pieces_separator,
};
use vstd::prelude::*;
use vstd::utf8::encode_utf8;

verus! {

/// What the client does for a command.
pub enum ClientAction {
    /// Show the list of commands.
    ShowHelp,
    /// Say goodbye (the client stops only on exactly `exit`).
    Closing,
    /// Send this sealed chat message to the server.
    SendChat { packet: Packet },
    /// A message cannot be sent without a master key.
    NoMasterKey,
    /// The command needs a connection and there is none.
    NotConnected,
    /// `join` while already in a room.
    AlreadyConnected,
    /// Connect to `address` and join as `username`.
    Connect { address: String, username: String },
    /// The command lacks arguments.
    InvalidUsage,
    /// Leave the room and close the connection.
    Leave,
    /// The master key was replaced.
    KeySet,
    /// A `setkey` argument that is not 64 bytes long.
    InvalidKeyFormat,
    /// Show a freshly generated key as text.
    ShowKey { text: String },
    /// The operating system gave no randomness for a new key.
    NoRandomness,
    /// A command that does not exist.
    Unknown,
}

/// The action for a command, and whether the client stops.
pub struct CommandOutcome {
    pub action: ClientAction,
    pub exit: bool,
}

/// The words of a command: its text split at every space.
pub open spec fn command_words(command: Seq<char>) -> Seq<Seq<char>> {
    split_pieces(command, ' ')
}

/// The bytes of the message that `say` sends: the UTF-8 bytes of everything
/// after `say `.
pub open spec fn said_bytes(command: Seq<char>) -> Seq<u8> {
    encode_utf8(command.skip(4))
}

/// `say` seals everything after `say `: for the command `say ` followed by any
/// text, the bytes sent are all the UTF-8 bytes of that text.
pub proof fn say_sends_the_whole_message(message: Seq<char>)
    ensures
        said_bytes("say"@.push(' ') + message) == encode_utf8(message),
        said_bytes("say"@.push(' ') + message).len() == encode_utf8(message).len(),
{
    reveal_strlit("say");
    assert(("say"@.push(' ') + message).skip(4) =~= message);
}

/// The commands the client runs without failing: `say` needs the space after
/// it (when it would send) and a message the cipher accepts, and a 64-byte
/// `setkey` argument must be hexadecimal.
pub open spec fn command_is_accepted(connected: bool, has_key: bool, command: Seq<char>) -> bool {
    let words = command_words(command);
    &&& (words[0] == "say"@ && connected && has_key) ==> command.len() >= 4
        && said_bytes(command).len() < sealable_len_limit()
    &&& (words[0] == "setkey"@ && words.len() > 1 && encode_utf8(words[1]).len() == 64)
        ==> is_hex_text(encode_utf8(words[1]))
}

/// Typing `setkey`, a space and the text that shows a key (what `genkey`
/// prints) is a command the client accepts, and it sets exactly that key.
pub proof fn shown_key_is_set_by_setkey(key: Seq<u8>)
    requires
        key.len() == 32,
    ensures
        ({
            let command = "setkey"@.push(' ') + hex_encoded(key);
            let words = command_words(command);
            &&& words[0] == "setkey"@
            &&& words.len() == 2
            &&& words[1] == hex_encoded(key)
            &&& encode_utf8(words[1]).len() == 64
            &&& command_is_accepted(false, false, command)
            &&& command_is_accepted(true, true, command)
            &&& hex_decoded(encode_utf8(words[1])) == key
        }),
{
    reveal_strlit("setkey");
    reveal_strlit("say");
    let word = "setkey"@;
    let text = hex_encoded(key);
    assert forall|i: int| 0 <= i < text.len() implies text[i] != ' ' by {
        let b: u8 = key[i / 2];
        assert(0 <= b / 16 < 16 && 0 <= b % 16 < 16);
    }
    lemma_split_pieces_extend(Seq::<char>::empty(), word, ' ');
    assert(Seq::<char>::empty() + word =~= word);
    assert(split_pieces(Seq::<char>::empty(), ' ') =~= seq![Seq::<char>::empty()]);
    assert(split_pieces(word, ' ') =~= seq![word]);
    lemma_split_pieces_separator(word, ' ');
    lemma_split_pieces_extend(word.push(' '), text, ' ');
    assert(Seq::<char>::empty() + text =~= text);
    assert(command_words(word.push(' ') + text) =~= seq![word, text]);
    hex_text_reads_back(key);
}

/// Whether `command` is one the client runs without failing.
pub fn accepts_command(data: &Data, connected: bool, command: &str) -> (ok: bool)
    ensures
        ok == command_is_accepted(connected, data.master_key is Some, command@),
{
    let cmd = chars_of(command);
    let words = split_on(cmd.as_slice(), ' ');
    proof {
        lemma_split_pieces_nonempty(command@, ' ');
        assert(words@[0]@ == command_words(command@)[0]);
        reveal_strlit("say");
        reveal_strlit("setkey");
    }
    if spells(words[0].as_slice(), "say") && connected && data.master_key.is_some() {
        if cmd.len() < 4 {
            return false;
        }
        let rest = chars_after(cmd.as_slice(), 4);
        let message = string_of(rest.as_slice());
        let bytes = message.as_str().as_bytes();
        if bytes.len() as u64 >= SEALABLE_LEN_LIMIT {
            return false;
        }
    }
    if spells(words[0].as_slice(), "setkey") && words.len() > 1 {
        proof {
            assert(words@[1]@ == command_words(command@)[1]);
        }
        let arg = string_of(words[1].as_slice());
        if arg.as_str().as_bytes().len() == 64 {
            return key_from_hex(arg.as_str()).is_some();
        }
    }
    true
}

/// Runs the command the user typed. `connected` tells whether the client is
/// in a room. Only `setkey` changes the session (its master key); the rest
/// decide what the client does next.
pub fn process_command(data: &mut Data, connected: bool, command: &str) -> (out: CommandOutcome)
    requires
        command_is_accepted(connected, old(data).master_key is Some, command@),
    ensures
        out.exit == (command@ == "exit"@),
        final(data).id == old(data).id,
        final(data).counter == old(data).counter,
        final(data).users@ == old(data).users@,
        final(data).users.next_free_id() == old(data).users.next_free_id(),
        ({
            let words = command_words(command@);
            let word = words[0];
            if word == "help"@ {
                out.action is ShowHelp && final(data).master_key == old(data).master_key
            } else if word == "exit"@ {
                out.action is Closing && final(data).master_key == old(data).master_key
            } else if word == "say"@ {
                &&& final(data).master_key == old(data).master_key
                &&& if !connected {
                    out.action is NotConnected
                } else {
                    match old(data).master_key {
                        None => out.action is NoMasterKey,
                        Some(k) => out.action matches ClientAction::SendChat { packet } && packet@
                            == PacketView::Chat {
                            counter: old(data).counter,
                            sender_id: old(data).id,
                            ciphertext: sealed_message(
                                k@,
                                old(data).id,
                                old(data).counter,
                                said_bytes(command@),
                            ),
                        } && opened_message(k@, old(data).id, old(data).counter, packet@->Chat_ciphertext)
                            == Some(said_bytes(command@)) && packet@->Chat_ciphertext.len()
                            == said_bytes(command@).len() + 16,
                    }
                }
            } else if word == "join"@ {
                &&& final(data).master_key == old(data).master_key
                &&& if words.len() > 2 {
                    if connected {
                        out.action is AlreadyConnected
                    } else {
                        out.action matches ClientAction::Connect { address, username } && address@
                            == words[1] && username@ == words[2]
                    }
                } else {
                    out.action is InvalidUsage
                }
            } else if word == "leave"@ {
                &&& final(data).master_key == old(data).master_key
                &&& if connected {
                    out.action is Leave
                } else {
                    out.action is NotConnected
                }
            } else if word == "setkey"@ {
                if words.len() > 1 {
                    if encode_utf8(words[1]).len() == 64 {
                        &&& out.action is KeySet
                        &&& final(data).master_key matches Some(k) && k@ == hex_decoded(
                            encode_utf8(words[1]),
                        )
                    } else {
                        out.action is InvalidKeyFormat && final(data).master_key == old(
                            data,
                        ).master_key
                    }
                } else {
                    out.action is InvalidUsage && final(data).master_key == old(data).master_key
                }
            } else if word == "genkey"@ {
                &&& final(data).master_key == old(data).master_key
                &&& if words.len() > 1 {
                    match out.action {
                        ClientAction::ShowKey { text } => exists|r: Seq<u8>|
                            r.len() == 32 && text@ == hex_encoded(#[trigger] derived_key(r, words[1])),
                        ClientAction::NoRandomness => true,
                        _ => false,
                    }
                } else {
                    out.action is InvalidUsage
                }
            } else {
                out.action is Unknown && final(data).master_key == old(data).master_key
            }
        }),
{
    proof {
        reveal_strlit("help");
        reveal_strlit("exit");
        reveal_strlit("say");
        reveal_strlit("join");
        reveal_strlit("leave");
        reveal_strlit("setkey");
        reveal_strlit("genkey");
        lemma_split_pieces_nonempty(command@, ' ');
    }
    let cmd = chars_of(command);
    let exit = spells(cmd.as_slice(), "exit");
    let words = split_on(cmd.as_slice(), ' ');
    let ghost ws = command_words(command@);
    assert(words@[0]@ == ws[0]);
    let word = words[0].as_slice();
    let action = if spells(word, "help") {
        ClientAction::ShowHelp
    } else if spells(word, "exit") {
        ClientAction::Closing
    } else if spells(word, "say") {
        if !connected {
            ClientAction::NotConnected
        } else {
            match &data.master_key {
                Some(key) => {
                    let rest = chars_after(cmd.as_slice(), 4);
                    let message = string_of(rest.as_slice());
                    let bytes = message.as_str().as_bytes();
                    let ciphertext = encrypt_message(key, data.id, data.counter, bytes);
                    ClientAction::SendChat {
                        packet: Packet::Chat { counter: data.counter, sender_id: data.id, ciphertext },
                    }
                },
                None => ClientAction::NoMasterKey,
            }
        }
    } else if spells(word, "join") {
        if words.len() > 2 {
            if connected {
                ClientAction::AlreadyConnected
            } else {
                assert(words@[1]@ == ws[1]);
                assert(words@[2]@ == ws[2]);
                let address = string_of(words[1].as_slice());
                let username = string_of(words[2].as_slice());
                ClientAction::Connect { address, username }
            }
        } else {
            ClientAction::InvalidUsage
        }
    } else if spells(word, "leave") {
        if connected {
            ClientAction::Leave
        } else {
            ClientAction::NotConnected
        }
    } else if spells(word, "setkey") {
        if words.len() > 1 {
            assert(words@[1]@ == ws[1]);
            let arg = string_of(words[1].as_slice());
            if arg.as_str().as_bytes().len() == 64 {
                match key_from_hex(arg.as_str()) {
                    Some(key) => {
                        data.master_key = Some(key);
                        ClientAction::KeySet
                    },
                    None => ClientAction::InvalidKeyFormat,
                }
            } else {
                ClientAction::InvalidKeyFormat
            }
        } else {
            ClientAction::InvalidUsage
        }
    } else if spells(word, "genkey") {
        if words.len() > 1 {
            assert(words@[1]@ == ws[1]);
            let arg = string_of(words[1].as_slice());
            match generate_key(arg.as_str()) {
                Some(key) => {
                    let text = key_to_hex(&key);
                    proof {
                        let r = choose|r: Seq<u8>| r.len() == 32 && key@ == #[trigger] derived_key(r, arg@);
                        assert(text@ == hex_encoded(derived_key(r, ws[1])));
                    }
                    ClientAction::ShowKey { text }
                },
                None => ClientAction::NoRandomness,
            }
        } else {
            ClientAction::InvalidUsage
        }
    } else {
        ClientAction::Unknown
    };
    CommandOutcome { action, exit }
}

/// Where `join` connects and under which name: the host, the port, whether
/// the port is the default one (the address named none), and the name
/// without surrounding white space.
pub struct ConnectTarget {
    pub host: String,
    pub port: u32,
    pub default_port: bool,
    pub username: String,
}

/// Reads the arguments of `join`: the address, trimmed, is `host:port` or a
/// bare host (then the server's default port is used); a port that is not a
/// `u32` is refused with the reason `str::parse` gives.
pub fn connect_target(address: &str, username: &str) -> (res: Result<ConnectTarget, String>)
    ensures
        ({
            let a = trimmed(address@);
            let parts = split_pieces(a, ':');
            if parts.len() > 1 {
                match parsed_u32(parts[1]) {
                    Ok(port) => res matches Ok(t) && t.host@ == parts[0] && t.port == port
                        && !t.default_port && t.username@ == trimmed(username@),
                    Err(e) => res matches Err(msg) && msg@ == parse_failure_message(e),
                }
            } else {
                res matches Ok(t) && t.host@ == a && t.port == SERVER_PORT && t.default_port
                    && t.username@ == trimmed(username@)
            }
        }),
{
    let address_chars = chars_of(address);
    let a = trim(address_chars.as_slice());
    let parts = split_on(a.as_slice(), ':');
    proof {
        lemma_split_pieces_nonempty(a@, ':');
    }
    let (host, port, default_port) = if parts.len() > 1 {
        assert(parts@[0]@ == split_pieces(a@, ':')[0]);
        assert(parts@[1]@ == split_pieces(a@, ':')[1]);
        match parse_u32(parts[1].as_slice()) {
            Ok(port) => (string_of(parts[0].as_slice()), port, false),
            Err(e) => {
                return Err(parse_failure_text(e));
            },
        }
    } else {
        (string_of(a.as_slice()), SERVER_PORT, true)
    };
    let name_chars = chars_of(username);
    let name = trim(name_chars.as_slice());
    Ok(ConnectTarget { host, port, default_port, username: string_of(name.as_slice()) })
}

} // verus!
