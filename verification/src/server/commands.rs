//! The commands an operator types into the server's console.

use crate::text::{chars_of, spells};
use vstd::prelude::*;

verus! {

/// What the server does for a console command.
pub enum ServerAction {
    /// Show the list of commands.
    ShowHelp,
    /// Announce that the server closes.
    Closing,
    /// A command that does not exist.
    Unknown,
}

/// The action for a console command, and whether the server stops.
pub struct ServerCommandOutcome {
    pub action: ServerAction,
    pub exit: bool,
}

/// Runs a console command: `help` lists the commands and `exit` stops the
/// server.
pub fn process_command(command: &str) -> (out: ServerCommandOutcome)
    ensures
        out.exit == (command@ == "exit"@),
        if command@ == "help"@ {
            out.action is ShowHelp
        } else if command@ == "exit"@ {
            out.action is Closing
        } else {
            out.action is Unknown
        },
{
    let cmd = chars_of(command);
    let action = if spells(cmd.as_slice(), "help") {
        ServerAction::ShowHelp
    } else if spells(cmd.as_slice(), "exit") {
        ServerAction::Closing
    } else {
        ServerAction::Unknown
    };
    let exit = spells(cmd.as_slice(), "exit");
    ServerCommandOutcome { action, exit }
}

} // verus!
