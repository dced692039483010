use vstd::prelude::*;
use crate::cell::{CodeCell, ScoreCell, score_glyph};
use crate::code::Code;

verus! {

/// Number of distinct peg values, the empty state included.
pub const CELL_KINDS: u8 = 7;

/// The peg value of index `j`, for `j` below `CELL_KINDS`.
pub open spec fn cell_kind(j: int) -> CodeCell {
    if j == 0 {
        CodeCell::R
    } else if j == 1 {
        CodeCell::G
    } else if j == 2 {
        CodeCell::B
    } else if j == 3 {
        CodeCell::Y
    } else if j == 4 {
        CodeCell::M
    } else if j == 5 {
        CodeCell::C
    } else {
        CodeCell::E
    }
}

pub open spec fn min_nat(a: nat, b: nat) -> nat {
    if a <= b { a } else { b }
}

/// Positions below `n` where `s` and `g` hold the same peg.
pub open spec fn exact_upto(s: Seq<CodeCell>, g: Seq<CodeCell>, n: int) -> nat
    decreases n,
{
    if n <= 0 {
        0
    } else {
        exact_upto(s, g, n - 1) + if s[n - 1] == g[n - 1] { 1nat } else { 0nat }
    }
}

/// Positions below `n` where `a` holds `c` and `b` holds something else:
/// the pegs of color `c` in `a` that no exact match takes.
pub open spec fn unmatched_upto(a: Seq<CodeCell>, b: Seq<CodeCell>, c: CodeCell, n: int) -> nat
    decreases n,
{
    if n <= 0 {
        0
    } else {
        unmatched_upto(a, b, c, n - 1) + if a[n - 1] == c && a[n - 1] != b[n - 1] {
            1nat
        } else {
            0nat
        }
    }
}

/// Over the first `k` peg values: for each, the fewer of its unmatched pegs
/// in the secret and in the guess, summed.
pub open spec fn color_sum(s: Seq<CodeCell>, g: Seq<CodeCell>, k: int) -> nat
    decreases k,
{
    if k <= 0 {
        0
    } else {
        color_sum(s, g, k - 1) + min_nat(
            unmatched_upto(s, g, cell_kind(k - 1), s.len() as int),
            unmatched_upto(g, s, cell_kind(k - 1), s.len() as int),
        )
    }
}

/// Pegs of the guess that match the secret in color and position.
pub open spec fn exact_count(secret: Seq<CodeCell>, guess: Seq<CodeCell>) -> nat {
    exact_upto(secret, guess, secret.len() as int)
}

/// Pegs of the guess that, once exact matches are set aside, pair off with a
/// distinct secret peg of the same color at another position.
pub open spec fn color_count(secret: Seq<CodeCell>, guess: Seq<CodeCell>) -> nat {
    color_sum(secret, guess, CELL_KINDS as int)
}

/// The marker in slot `i` of a score with `exact` exact matches and `color`
/// color matches: exact markers first, then color markers, then empty slots.
pub open spec fn marker(exact: nat, color: nat, i: int) -> Option<ScoreCell> {
    if i < exact {
        Some(ScoreCell::K)
    } else if i < exact + color {
        Some(ScoreCell::W)
    } else {
        None
    }
}

/// The score of `n` slots laid out from the two counts.
pub open spec fn feedback(exact: nat, color: nat, n: nat) -> Seq<Option<ScoreCell>> {
    Seq::new(n, |i: int| marker(exact, color, i))
}

/// The feedback owed for `guess` against `secret`.
pub open spec fn score_of(secret: Seq<CodeCell>, guess: Seq<CodeCell>) -> Seq<Option<ScoreCell>> {
    feedback(exact_count(secret, guess), color_count(secret, guess), secret.len())
}

/// The feedback to a guess: one slot per peg.
#[derive(Debug)]
pub struct Score(pub Vec<Option<ScoreCell>>);

impl View for Score {
    type V = Seq<Option<ScoreCell>>;

    open spec fn view(&self) -> Seq<Option<ScoreCell>> {
        self.0@
    }
}

/// The terminal text of one score slot; an empty slot is a blank.
pub open spec fn slot_glyph(slot: Option<ScoreCell>) -> Seq<char> {
    match slot {
        Some(c) => score_glyph(c),
        None => " "@,
    }
}

fn same_slot(a: Option<ScoreCell>, b: Option<ScoreCell>) -> (r: bool)
    ensures
        r == (a == b),
{
    match (a, b) {
        (Some(x), Some(y)) => x == y,
        (None, None) => true,
        _ => false,
    }
}

impl Score {
    /// A score of `peg_count` empty slots.
    pub fn new(peg_count: u8) -> (r: Score)
        ensures
            r@ == Seq::new(peg_count as nat, |i: int| None::<ScoreCell>),
    {
        let mut cells: Vec<Option<ScoreCell>> = Vec::new();
        let mut k: u8 = 0;
        while k < peg_count
            invariant
                k <= peg_count,
                cells@ == Seq::new(k as nat, |i: int| None::<ScoreCell>),
            decreases peg_count - k,
        {
            cells.push(None);
            k = k + 1;
            proof {
                assert(cells@ =~= Seq::new(k as nat, |i: int| None::<ScoreCell>));
            }
        }
        Score(cells)
    }

    /// Whether this is the winning score for `peg_count` pegs: that many
    /// slots, each an exact match.
    pub fn is_perfect(&self, peg_count: usize) -> (r: bool)
        ensures
            r == (self@.len() == peg_count && forall|i: int|
                0 <= i < self@.len() ==> #[trigger] self@[i] == Some(ScoreCell::K)),
    {
        if self.0.len() != peg_count {
            return false;
        }
        let mut i: usize = 0;
        while i < self.0.len()
            invariant
                i <= self@.len(),
                forall|j: int| 0 <= j < i ==> #[trigger] self@[j] == Some(ScoreCell::K),
            decreases self@.len() - i,
        {
            if !same_slot(self.0[i], Some(ScoreCell::K)) {
                return false;
            }
            i = i + 1;
        }
        true
    }

    /// The terminal text of each slot, in order.
    pub fn glyphs(&self) -> (r: Vec<&'static str>)
        ensures
            r@.len() == self@.len(),
            forall|i: int| 0 <= i < r@.len() ==> (#[trigger] r@[i])@ == slot_glyph(self@[i]),
    {
        let mut out: Vec<&'static str> = Vec::new();
        let mut i: usize = 0;
        while i < self.0.len()
            invariant
                i <= self@.len(),
                out@.len() == i,
                forall|j: int| 0 <= j < i ==> (#[trigger] out@[j])@ == slot_glyph(self@[j]),
            decreases self@.len() - i,
        {
            let g = match self.0[i] {
                Some(c) => c.glyph(),
                None => " ",
            };
            out.push(g);
            i = i + 1;
        }
        out
    }
}

impl PartialEq for Score {
    fn eq(&self, other: &Score) -> (r: bool) {
        if self.0.len() != other.0.len() {
            return false;
        }
        let mut i: usize = 0;
        while i < self.0.len()
            invariant
                self@.len() == other@.len(),
                i <= self@.len(),
                forall|j: int| 0 <= j < i ==> self@[j] == other@[j],
            decreases self@.len() - i,
        {
            if !same_slot(self.0[i], other.0[i]) {
                return false;
            }
            i = i + 1;
        }
        proof {
            assert(self@ =~= other@);
        }
        true
    }
}

impl vstd::std_specs::cmp::PartialEqSpecImpl for Score {
    open spec fn obeys_eq_spec() -> bool {
        true
    }

    open spec fn eq_spec(&self, other: &Score) -> bool {
        self@ == other@
    }
}

/// Over the first `k` peg values, the unmatched pegs of each among the first
/// `n` positions of `a`, summed.
pub open spec fn unmatched_sum(a: Seq<CodeCell>, b: Seq<CodeCell>, k: int, n: int) -> nat
    decreases k,
{
    if k <= 0 {
        0
    } else {
        unmatched_sum(a, b, k - 1, n) + unmatched_upto(a, b, cell_kind(k - 1), n)
    }
}

/// Every position is either an exact match or an unmatched peg of exactly
/// one peg value.
proof fn lemma_unmatched_total(a: Seq<CodeCell>, b: Seq<CodeCell>, n: int)
    requires
        0 <= n <= a.len(),
        a.len() == b.len(),
    ensures
        unmatched_sum(a, b, CELL_KINDS as int, n) + exact_upto(a, b, n) == n,
    decreases n,
{
    reveal_with_fuel(unmatched_sum, 8);
    if n > 0 {
        lemma_unmatched_total(a, b, n - 1);
    }
}

proof fn lemma_unmatched_sum_mono(a: Seq<CodeCell>, b: Seq<CodeCell>, k: int, n: int)
    requires
        0 <= k <= CELL_KINDS,
    ensures
        unmatched_sum(a, b, k, n) <= unmatched_sum(a, b, CELL_KINDS as int, n),
    decreases CELL_KINDS - k,
{
    if k < CELL_KINDS {
        lemma_unmatched_sum_mono(a, b, k + 1, n);
    }
}

proof fn lemma_color_sum_le(s: Seq<CodeCell>, g: Seq<CodeCell>, k: int)
    ensures
        color_sum(s, g, k) <= unmatched_sum(s, g, k, s.len() as int),
    decreases k,
{
    if k > 0 {
        lemma_color_sum_le(s, g, k - 1);
    }
}

/// Exact and color matches together never outnumber the pegs.
pub proof fn lemma_counts_within_length(secret: Seq<CodeCell>, guess: Seq<CodeCell>)
    requires
        secret.len() == guess.len(),
    ensures
        exact_count(secret, guess) + color_count(secret, guess) <= secret.len(),
{
    lemma_unmatched_total(secret, guess, secret.len() as int);
    lemma_color_sum_le(secret, guess, CELL_KINDS as int);
}

/// The peg value of index `j`.
fn cell_kind_exec(j: u8) -> (r: CodeCell)
    requires
        j < CELL_KINDS,
    ensures
        r == cell_kind(j as int),
{
    match j {
        0 => CodeCell::R,
        1 => CodeCell::G,
        2 => CodeCell::B,
        3 => CodeCell::Y,
        4 => CodeCell::M,
        5 => CodeCell::C,
        _ => CodeCell::E,
    }
}

/// Pegs of color `c` in `a` at positions where `b` differs.
fn count_unmatched(a: &Vec<CodeCell>, b: &Vec<CodeCell>, c: CodeCell) -> (r: usize)
    requires
        a@.len() == b@.len(),
    ensures
        r == unmatched_upto(a@, b@, c, a@.len() as int),
{
    let mut r: usize = 0;
    let mut i: usize = 0;
    while i < a.len()
        invariant
            a@.len() == b@.len(),
            i <= a@.len(),
            r == unmatched_upto(a@, b@, c, i as int),
            r <= i,
        decreases a@.len() - i,
    {
        if a[i] == c && a[i] != b[i] {
            r = r + 1;
        }
        i = i + 1;
    }
    r
}

/// Scores `guess` against `secret`. Exact matches are counted first; the
/// pegs they take are set aside, and of the rest each secret peg can pair
/// with at most one guess peg of its color, and each guess peg with at most
/// one secret peg. The score lists the exact markers, then the color
/// markers, then empty slots.
pub fn score(secret: &Code, guess: &Code) -> (r: Score)
    requires
        secret@.len() == guess@.len(),
    ensures
        r@ == score_of(secret@, guess@),
{
    let n = secret.0.len();
    let ghost s = secret@;
    let ghost g = guess@;

    let mut exact: usize = 0;
    let mut i: usize = 0;
    while i < n
        invariant
            n == s.len(),
            s.len() == g.len(),
            s == secret@,
            g == guess@,
            i <= n,
            exact == exact_upto(s, g, i as int),
            exact <= i,
        decreases n - i,
    {
        if secret.0[i] == guess.0[i] {
            exact = exact + 1;
        }
        i = i + 1;
    }

    let mut color: usize = 0;
    let mut j: u8 = 0;
    while j < CELL_KINDS
        invariant
            n == s.len(),
            s.len() == g.len(),
            s == secret@,
            g == guess@,
            j <= CELL_KINDS,
            color == color_sum(s, g, j as int),
            color <= n,
        decreases CELL_KINDS - j,
    {
        let c = cell_kind_exec(j);
        let in_secret = count_unmatched(&secret.0, &guess.0, c);
        let in_guess = count_unmatched(&guess.0, &secret.0, c);
        proof {
            lemma_color_sum_le(s, g, j + 1);
            lemma_unmatched_sum_mono(s, g, j + 1, n as int);
            lemma_unmatched_total(s, g, n as int);
        }
        if in_secret <= in_guess {
            color = color + in_secret;
        } else {
            color = color + in_guess;
        }
        j = j + 1;
    }

    proof {
        lemma_counts_within_length(s, g);
    }
    let mut cells: Vec<Option<ScoreCell>> = Vec::new();
    let mut k: usize = 0;
    while k < n
        invariant
            n == s.len(),
            exact + color <= n,
            exact == exact_count(s, g),
            color == color_count(s, g),
            k <= n,
            cells@ == feedback(exact as nat, color as nat, k as nat),
        decreases n - k,
    {
        if k < exact {
            cells.push(Some(ScoreCell::K));
        } else if k < exact + color {
            cells.push(Some(ScoreCell::W));
        } else {
            cells.push(None);
        }
        proof {
            assert(cells@ =~= feedback(exact as nat, color as nat, (k + 1) as nat));
        }
        k = k + 1;
    }
    proof {
        assert(cells@ =~= score_of(s, g));
    }
    Score(cells)
}

/// Positions below `n` where both `a` and `b` hold `c`.
pub open spec fn exact_of_upto(a: Seq<CodeCell>, b: Seq<CodeCell>, c: CodeCell, n: int) -> nat
    decreases n,
{
    if n <= 0 {
        0
    } else {
        exact_of_upto(a, b, c, n - 1) + if a[n - 1] == c && b[n - 1] == c {
            1nat
        } else {
            0nat
        }
    }
}

/// Over the first `k` peg values, the exact matches of each, summed.
pub open spec fn exact_of_sum(a: Seq<CodeCell>, b: Seq<CodeCell>, k: int, n: int) -> nat
    decreases k,
{
    if k <= 0 {
        0
    } else {
        exact_of_sum(a, b, k - 1, n) + exact_of_upto(a, b, cell_kind(k - 1), n)
    }
}

/// Over the first `k` peg values, the fewer of each value's occurrences in
/// `secret` and in `guess`, summed: the pegs the two codes have in common.
pub open spec fn common_sum(secret: Seq<CodeCell>, guess: Seq<CodeCell>, k: int) -> nat
    decreases k,
{
    if k <= 0 {
        0
    } else {
        common_sum(secret, guess, k - 1) + min_nat(
            secret.to_multiset().count(cell_kind(k - 1)),
            guess.to_multiset().count(cell_kind(k - 1)),
        )
    }
}

/// The multiset of colors common to two codes, each color counted as often
/// as it occurs in the code that holds fewer of it.
pub open spec fn common_count(secret: Seq<CodeCell>, guess: Seq<CodeCell>) -> nat {
    common_sum(secret, guess, CELL_KINDS as int)
}

proof fn lemma_exact_of_total(a: Seq<CodeCell>, b: Seq<CodeCell>, n: int)
    requires
        0 <= n <= a.len(),
        a.len() == b.len(),
    ensures
        exact_of_sum(a, b, CELL_KINDS as int, n) == exact_upto(a, b, n),
    decreases n,
{
    reveal_with_fuel(exact_of_sum, 8);
    if n > 0 {
        lemma_exact_of_total(a, b, n - 1);
    }
}

proof fn lemma_exact_of_swap(a: Seq<CodeCell>, b: Seq<CodeCell>, c: CodeCell, n: int)
    ensures
        exact_of_upto(a, b, c, n) == exact_of_upto(b, a, c, n),
    decreases n,
{
    if n > 0 {
        lemma_exact_of_swap(a, b, c, n - 1);
    }
}

/// The pegs of color `c` among the first `n` of `a` are those that `b`
/// matches exactly and those it does not.
proof fn lemma_occurrences_split(a: Seq<CodeCell>, b: Seq<CodeCell>, c: CodeCell, n: int)
    requires
        0 <= n <= a.len(),
        a.len() == b.len(),
    ensures
        a.take(n).to_multiset().count(c) == exact_of_upto(a, b, c, n) + unmatched_upto(a, b, c, n),
    decreases n,
{
    broadcast use vstd::seq_lib::group_to_multiset_ensures;

    if n == 0 {
        assert(!a.take(0).contains(c));
    } else {
        lemma_occurrences_split(a, b, c, n - 1);
        assert(a.take(n) =~= a.take(n - 1).push(a[n - 1]));
    }
}

proof fn lemma_common_split(s: Seq<CodeCell>, g: Seq<CodeCell>, k: int)
    requires
        s.len() == g.len(),
        0 <= k,
    ensures
        common_sum(s, g, k) == exact_of_sum(s, g, k, s.len() as int) + color_sum(s, g, k),
    decreases k,
{
    if k > 0 {
        lemma_common_split(s, g, k - 1);
        let c = cell_kind(k - 1);
        let n = s.len() as int;
        lemma_occurrences_split(s, g, c, n);
        lemma_occurrences_split(g, s, c, n);
        lemma_exact_of_swap(s, g, c, n);
        assert(s.take(n) =~= s);
        assert(g.take(n) =~= g);
    }
}

/// Exact and color matches together count the colors the two codes have in
/// common, each color as often as the code with fewer of it holds it.
pub proof fn lemma_counts_are_common_colors(secret: Seq<CodeCell>, guess: Seq<CodeCell>)
    requires
        secret.len() == guess.len(),
    ensures
        exact_count(secret, guess) + color_count(secret, guess) == common_count(secret, guess),
{
    lemma_common_split(secret, guess, CELL_KINDS as int);
    lemma_exact_of_total(secret, guess, secret.len() as int);
}

proof fn lemma_exact_self(s: Seq<CodeCell>, n: int)
    requires
        0 <= n <= s.len(),
    ensures
        exact_upto(s, s, n) == n,
    decreases n,
{
    if n > 0 {
        lemma_exact_self(s, n - 1);
    }
}

proof fn lemma_color_sum_self(s: Seq<CodeCell>, k: int)
    ensures
        color_sum(s, s, k) == 0,
    decreases k,
{
    if k > 0 {
        lemma_color_sum_self(s, k - 1);
        lemma_unmatched_self(s, cell_kind(k - 1), s.len() as int);
    }
}

proof fn lemma_unmatched_self(s: Seq<CodeCell>, c: CodeCell, n: int)
    ensures
        unmatched_upto(s, s, c, n) == 0,
    decreases n,
{
    if n > 0 {
        lemma_unmatched_self(s, c, n - 1);
    }
}

/// A code scored against itself: every peg is an exact match, and no color
/// match is left.
pub proof fn lemma_score_of_self(secret: Seq<CodeCell>)
    ensures
        exact_count(secret, secret) == secret.len(),
        color_count(secret, secret) == 0,
        score_of(secret, secret) == Seq::new(secret.len(), |i: int| Some(ScoreCell::K)),
{
    lemma_exact_self(secret, secret.len() as int);
    lemma_color_sum_self(secret, CELL_KINDS as int);
    assert(score_of(secret, secret) =~= Seq::new(secret.len(), |i: int| Some(ScoreCell::K)));
}

/// Scoring holds no hidden state: the same secret and guess always give
/// the same score.
pub proof fn lemma_score_deterministic(
    secret1: Seq<CodeCell>,
    guess1: Seq<CodeCell>,
    secret2: Seq<CodeCell>,
    guess2: Seq<CodeCell>,
)
    requires
        secret1 == secret2,
        guess1 == guess2,
    ensures
        score_of(secret1, guess1) == score_of(secret2, guess2),
{
}

} // verus!
