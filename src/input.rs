use vstd::prelude::*;
use crate::cell::CodeCell;

verus! {

/// A key pressed while a guess is typed in. Keys held with a modifier count
/// as `Other`.
#[derive(Clone, Copy, Debug, PartialEq, Eq, Structural)]
pub enum KeyInput {
    Char(char),
    Backspace,
    Other,
}

/// What a key press did to the guess being typed in.
#[derive(Clone, Copy, Debug, PartialEq, Eq, Structural)]
pub enum GuessAction {
    /// A peg of this color was added at the end.
    Placed(CodeCell),
    /// The last peg, if any, was taken back.
    Erased,
    /// The player quit.
    Quit,
    /// The key means nothing here.
    Ignored,
}

/// The color that a letter key stands for.
pub open spec fn key_color(ch: char) -> Option<CodeCell> {
    if ch == 'r' {
        Some(CodeCell::R)
    } else if ch == 'g' {
        Some(CodeCell::G)
    } else if ch == 'b' {
        Some(CodeCell::B)
    } else if ch == 'y' {
        Some(CodeCell::Y)
    } else if ch == 'm' {
        Some(CodeCell::M)
    } else if ch == 'c' {
        Some(CodeCell::C)
    } else {
        None
    }
}

/// The key that quits.
pub const QUIT_KEY: char = 'x';

/// The color that the letter key `ch` stands for, if any.
pub fn color_of_key(ch: char) -> (r: Option<CodeCell>)
    ensures
        r == key_color(ch),
{
    match ch {
        'r' => Some(CodeCell::R),
        'g' => Some(CodeCell::G),
        'b' => Some(CodeCell::B),
        'y' => Some(CodeCell::Y),
        'm' => Some(CodeCell::M),
        'c' => Some(CodeCell::C),
        _ => None,
    }
}

/// Applies one key press to the pegs typed in so far: a color key adds a
/// peg, backspace takes the last one back, the quit key quits, and any
/// other key is ignored.
pub fn apply_key(pegs: &mut Vec<CodeCell>, key: KeyInput) -> (r: GuessAction)
    ensures
        match key {
            KeyInput::Char(ch) => match key_color(ch) {
                Some(c) => r == GuessAction::Placed(c) && final(pegs)@ == old(pegs)@.push(c),
                None => final(pegs)@ == old(pegs)@ && r == if ch == QUIT_KEY {
                    GuessAction::Quit
                } else {
                    GuessAction::Ignored
                },
            },
            KeyInput::Backspace => r == GuessAction::Erased && final(pegs)@ == if old(pegs)@.len() > 0 {
                old(pegs)@.drop_last()
            } else {
                old(pegs)@
            },
            KeyInput::Other => r == GuessAction::Ignored && final(pegs)@ == old(pegs)@,
        },
{
    match key {
        KeyInput::Char(ch) => match color_of_key(ch) {
            Some(c) => {
                pegs.push(c);
                GuessAction::Placed(c)
            },
            None => {
                if ch == QUIT_KEY {
                    GuessAction::Quit
                } else {
                    GuessAction::Ignored
                }
            },
        },
        KeyInput::Backspace => {
            if pegs.len() > 0 {
                pegs.pop();
            }
            GuessAction::Erased
        },
        KeyInput::Other => GuessAction::Ignored,
    }
}

} // verus!
