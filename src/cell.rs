use vstd::prelude::*;

verus! {

/// Number of real colors in the palette; `CodeCell::E` is not one of them.
pub const PALETTE_SIZE: u8 = 6;

/// One peg of a code: one of six colors, or `E`, the empty display state
/// of a slot that holds no peg yet.
#[derive(Clone, Copy, Debug, PartialEq, Eq, Structural)]
pub enum CodeCell {
    /// Red
    R,
    /// Green
    G,
    /// Blue
    B,
    /// Yellow
    Y,
    /// Magenta
    M,
    /// Cyan
    C,
    /// Empty
    E,
}

/// One feedback marker of a score.
#[derive(Clone, Copy, Debug, PartialEq, Eq, Structural)]
pub enum ScoreCell {
    /// White: the color is in the secret, at another position.
    W,
    /// Black: color and position are both right.
    K,
}

/// The color drawn for index `k` of the palette.
pub open spec fn palette_color(k: int) -> CodeCell {
    if k == 0 {
        CodeCell::R
    } else if k == 1 {
        CodeCell::G
    } else if k == 2 {
        CodeCell::B
    } else if k == 3 {
        CodeCell::Y
    } else if k == 4 {
        CodeCell::M
    } else {
        CodeCell::C
    }
}

/// A real color, as opposed to the empty display state.
pub open spec fn is_color(c: CodeCell) -> bool {
    c != CodeCell::E
}

/// The terminal text that draws a peg: a blank on that color's background.
pub open spec fn code_glyph(c: CodeCell) -> Seq<char> {
    match c {
        CodeCell::R => "\x1b[31;41m \x1b[0m"@,
        CodeCell::G => "\x1b[32;42m \x1b[0m"@,
        CodeCell::B => "\x1b[34;44m \x1b[0m"@,
        CodeCell::Y => "\x1b[33;43m \x1b[0m"@,
        CodeCell::M => "\x1b[35;45m \x1b[0m"@,
        CodeCell::C => "\x1b[36;46m \x1b[0m"@,
        CodeCell::E => "\x1b[0m "@,
    }
}

/// The terminal text that draws a feedback marker.
pub open spec fn score_glyph(c: ScoreCell) -> Seq<char> {
    match c {
        ScoreCell::W => "\x1b[37;47m \x1b[0m"@,
        ScoreCell::K => "\x1b[91;101m \x1b[0m"@,
    }
}

impl CodeCell {
    /// The palette color of index `k`; indices past the last color give cyan.
    pub fn from_index(k: u8) -> (r: CodeCell)
        ensures
            r == palette_color(k as int),
            is_color(r),
    {
        match k {
            0 => CodeCell::R,
            1 => CodeCell::G,
            2 => CodeCell::B,
            3 => CodeCell::Y,
            4 => CodeCell::M,
            _ => CodeCell::C,
        }
    }

    /// The terminal text that draws this peg.
    pub fn glyph(&self) -> (r: &'static str)
        ensures
            r@ == code_glyph(*self),
    {
        match *self {
            CodeCell::R => "\x1b[31;41m \x1b[0m",
            CodeCell::G => "\x1b[32;42m \x1b[0m",
            CodeCell::B => "\x1b[34;44m \x1b[0m",
            CodeCell::Y => "\x1b[33;43m \x1b[0m",
            CodeCell::M => "\x1b[35;45m \x1b[0m",
            CodeCell::C => "\x1b[36;46m \x1b[0m",
            CodeCell::E => "\x1b[0m ",
        }
    }
}

impl ScoreCell {
    /// The terminal text that draws this marker.
    pub fn glyph(&self) -> (r: &'static str)
        ensures
            r@ == score_glyph(*self),
    {
        match *self {
            ScoreCell::W => "\x1b[37;47m \x1b[0m",
            ScoreCell::K => "\x1b[91;101m \x1b[0m",
        }
    }
}

} // verus!
