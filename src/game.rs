use vstd::prelude::*;
use crate::cell::{ScoreCell, is_color};
use crate::code::Code;
use crate::score::{Score, score, score_of};

verus! {

/// One game: the secret code, the number of pegs in every code, and the
/// guesses taken so far.
#[derive(Debug)]
pub struct MasterMind {
    pub code: Code,
    pub peg_count: usize,
    pub guesses: u8,
}

impl MasterMind {
    /// The secret holds exactly as many pegs as the game asks for.
    pub open spec fn wf(&self) -> bool {
        self.code@.len() == self.peg_count
    }

    /// A new game of `peg_count` pegs with a secret drawn at random.
    pub fn new(peg_count: u8) -> (r: MasterMind)
        ensures
            r.wf(),
            r.peg_count == peg_count,
            r.guesses == 0,
            forall|i: int| 0 <= i < r.code@.len() ==> is_color(#[trigger] r.code@[i]),
    {
        MasterMind { code: Code::new(peg_count), peg_count: peg_count as usize, guesses: 0 }
    }

    /// Replaces the secret, which starts a new game with the same peg count.
    pub fn set_code(&mut self, code: Code)
        requires
            code@.len() == old(self).peg_count,
        ensures
            final(self).code@ == code@,
            final(self).peg_count == old(self).peg_count,
            final(self).guesses == old(self).guesses,
            final(self).wf(),
    {
        self.code = code;
    }

    /// The score of `guess` against the secret.
    pub fn guess(&self, guess: &Code) -> (r: Score)
        requires
            self.wf(),
            guess@.len() == self.peg_count,
        ensures
            r@ == score_of(self.code@, guess@),
    {
        score(&self.code, guess)
    }

    /// Whether `score` wins this game: one exact match for every peg.
    pub fn is_won(&self, score: &Score) -> (r: bool)
        ensures
            r == (score@.len() == self.peg_count && forall|i: int|
                0 <= i < score@.len() ==> #[trigger] score@[i] == Some(ScoreCell::K)),
    {
        score.is_perfect(self.peg_count)
    }
}

} // verus!
