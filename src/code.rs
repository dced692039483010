use vstd::prelude::*;
use rand::Rng;
use crate::cell::{CodeCell, PALETTE_SIZE, code_glyph, is_color};

verus! {

/// An ordered sequence of pegs: a secret, or a guess at it.
#[derive(Debug)]
pub struct Code(pub Vec<CodeCell>);

impl View for Code {
    type V = Seq<CodeCell>;

    open spec fn view(&self) -> Seq<CodeCell> {
        self.0@
    }
}

/// A code was given with a number of pegs other than the one expected.
#[derive(Clone, Copy, Debug, PartialEq, Eq, Structural)]
pub struct LengthMismatch {
    pub expected: usize,
    pub found: usize,
}

/// Relies on rand's `thread_rng().gen_range(0..bound)`: a number drawn below
/// `bound`. The range is empty, and the call panics, when `bound` is zero.
#[verifier::external_body]
fn random_below(bound: u8) -> (r: u8)
    requires
        bound > 0,
    ensures
        r < bound,
{
    rand::thread_rng().gen_range(0..bound)
}

impl Code {
    /// A code of `peg_count` pegs, each color drawn at random from the
    /// palette; colors may repeat.
    pub fn new(peg_count: u8) -> (r: Code)
        ensures
            r@.len() == peg_count,
            forall|i: int| 0 <= i < r@.len() ==> is_color(#[trigger] r@[i]),
    {
        let mut cells: Vec<CodeCell> = Vec::new();
        let mut k: u8 = 0;
        while k < peg_count
            invariant
                k <= peg_count,
                cells@.len() == k,
                forall|i: int| 0 <= i < cells@.len() ==> is_color(#[trigger] cells@[i]),
            decreases peg_count - k,
        {
            let drawn = random_below(PALETTE_SIZE);
            cells.push(CodeCell::from_index(drawn));
            k = k + 1;
        }
        Code(cells)
    }

    /// The code made of `colors`, which must hold exactly `peg_count` pegs.
    pub fn from_sequence(colors: Vec<CodeCell>, peg_count: usize) -> (r: Result<Code, LengthMismatch>)
        ensures
            colors@.len() == peg_count <==> r is Ok,
            r is Ok ==> r->Ok_0@ == colors@,
            r is Err ==> r->Err_0 == (LengthMismatch { expected: peg_count, found: colors@.len() as usize }),
    {
        let found = colors.len();
        if found == peg_count {
            Ok(Code(colors))
        } else {
            Err(LengthMismatch { expected: peg_count, found })
        }
    }

    /// Number of pegs.
    pub fn len(&self) -> (r: usize)
        ensures
            r == self@.len(),
    {
        self.0.len()
    }

    /// The terminal text of each peg, in order; drawn side by side with no
    /// separator they show the code.
    pub fn glyphs(&self) -> (r: Vec<&'static str>)
        ensures
            r@.len() == self@.len(),
            forall|i: int| 0 <= i < r@.len() ==> (#[trigger] r@[i])@ == code_glyph(self@[i]),
    {
        let mut out: Vec<&'static str> = Vec::new();
        let mut i: usize = 0;
        while i < self.0.len()
            invariant
                i <= self@.len(),
                out@.len() == i,
                forall|j: int| 0 <= j < i ==> (#[trigger] out@[j])@ == code_glyph(self@[j]),
            decreases self@.len() - i,
        {
            out.push(self.0[i].glyph());
            i = i + 1;
        }
        out
    }
}

} // verus!
