//! The code-breaking game Mastermind: secret codes of colored pegs, and the
//! feedback that scores a guess against the secret.

pub mod cell;
pub mod code;
pub mod score;
pub mod game;
pub mod input;
