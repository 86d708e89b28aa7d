//! The line the user is typing at a terminal, edited key by key.

use crate::text::string_of;
use vstd::prelude::*;

verus! {

/// A key press, as far as the line cares.
pub enum KeyInput {
    Char(char),
    Enter,
    Backspace,
    Other,
}

/// What the terminal does after a key press.
pub enum LineEffect {
    /// Show the typed character.
    Echo(char),
    /// The line is finished; run it as a command.
    Submitted(String),
    /// Rub out the last character on screen.
    Erased,
    /// Nothing.
    Ignored,
}

/// Applies a key press to the line being typed: a character is appended,
/// backspace drops the last character (if any), enter hands the line over
/// and starts an empty one, and other keys do nothing.
pub fn apply_key(line: &mut Vec<char>, key: KeyInput) -> (effect: LineEffect)
    ensures
        match key {
            KeyInput::Char(c) => final(line)@ == old(line)@.push(c) && (effect matches LineEffect::Echo(e) && e == c),
            KeyInput::Enter => final(line)@.len() == 0 && (effect matches LineEffect::Submitted(s)
                && s@ == old(line)@),
            KeyInput::Backspace => final(line)@ == (if old(line)@.len() > 0 {
                old(line)@.drop_last()
            } else {
                old(line)@
            }) && effect is Erased,
            KeyInput::Other => final(line)@ == old(line)@ && effect is Ignored,
        },
{
    match key {
        KeyInput::Char(c) => {
            line.push(c);
            LineEffect::Echo(c)
        },
        KeyInput::Enter => {
            let text = string_of(line.as_slice());
            line.clear();
            LineEffect::Submitted(text)
        },
        KeyInput::Backspace => {
            line.pop();
            LineEffect::Erased
        },
        KeyInput::Other => LineEffect::Ignored,
    }
}

} // verus!
