use mastermind::cell::{CodeCell, ScoreCell};
use mastermind::code::Code;
use mastermind::game::MasterMind;
use mastermind::score::{score, Score};

use CodeCell::{B, C, E, G, M, R, Y};

fn code(cells: &[CodeCell]) -> Code {
    Code(cells.to_vec())
}

fn counts(s: &Score) -> (usize, usize, usize) {
    let k = s.0.iter().filter(|c| **c == Some(ScoreCell::K)).count();
    let w = s.0.iter().filter(|c| **c == Some(ScoreCell::W)).count();
    let e = s.0.iter().filter(|c| c.is_none()).count();
    (k, w, e)
}

#[test]
fn duplicate_colors_pair_once() {
    // Exact matches at positions 0 (R) and 2 (G); the spare guess Gs find no
    // unused secret G, and the spare secret R finds no unused guess R.
    let s = score(&code(&[R, R, G, B]), &code(&[R, G, G, G]));
    assert_eq!(s.0, vec![Some(ScoreCell::K), Some(ScoreCell::K), None, None]);
    // One G left in the secret after the exact match pairs with one guess G.
    let t = score(&code(&[R, G, G, B]), &code(&[R, B, Y, G]));
    assert_eq!(t.0, vec![Some(ScoreCell::K), Some(ScoreCell::W), Some(ScoreCell::W), None]);
    let u = score(&code(&[R, R, G, B]), &code(&[R, G, Y, Y]));
    assert_eq!(u.0, vec![Some(ScoreCell::K), Some(ScoreCell::W), None, None]);
}

#[test]
fn no_overlap_scores_nothing() {
    let s = score(&code(&[R, G, B, Y]), &code(&[M, M, M, M]));
    assert_eq!(s.0, vec![None, None, None, None]);
}

#[test]
fn full_rotation_is_all_color_matches() {
    let s = score(&code(&[R, G, B, Y]), &code(&[Y, R, G, B]));
    assert_eq!(counts(&s), (0, 4, 0));
    assert_eq!(s.0, vec![Some(ScoreCell::W); 4]);
}

#[test]
fn empty_code_scores_empty_and_perfect() {
    let s = score(&code(&[]), &code(&[]));
    assert!(s.0.is_empty());
    assert!(s.is_perfect(0));
}

#[test]
fn scoring_twice_gives_equal_scores() {
    let secret = code(&[R, R, G, B]);
    let guess = code(&[G, R, B, B]);
    let a = score(&secret, &guess);
    let b = score(&secret, &guess);
    assert!(a == b);
    assert_eq!(a.0, b.0);
}

#[test]
fn code_against_itself_is_all_exact() {
    let secret = code(&[C, M, C, Y, R]);
    let s = score(&secret, &secret);
    assert_eq!(counts(&s), (5, 0, 0));
    assert!(s.is_perfect(5));
}

#[test]
fn matches_never_exceed_peg_count() {
    let secret = code(&[R, R, R, G, G, B]);
    let guess = code(&[G, G, R, R, R, R]);
    let s = score(&secret, &guess);
    let (k, w, e) = counts(&s);
    assert_eq!(s.0.len(), 6);
    assert_eq!(k + w + e, 6);
    assert!(k + w <= 6);
    // common colors: min(3,4) reds + min(2,2) greens = 5; one exact red at index 2.
    assert_eq!((k, w), (1, 4));
}

#[test]
fn common_colors_count_both_markers() {
    let secret = code(&[B, Y, B, C]);
    let guess = code(&[B, B, B, Y]);
    let s = score(&secret, &guess);
    // blue: min(2,3) = 2, yellow: min(1,1) = 1; exact blues at 0 and 2.
    assert_eq!(s.0, vec![Some(ScoreCell::K), Some(ScoreCell::K), Some(ScoreCell::W), None]);
}

#[test]
fn empty_state_pegs_are_scored_like_any_value() {
    let s = score(&code(&[E, R]), &code(&[R, E]));
    assert_eq!(counts(&s), (0, 2, 0));
}

#[test]
fn score_new_is_all_empty() {
    let s = Score::new(3);
    assert_eq!(s.0, vec![None, None, None]);
    assert!(!s.is_perfect(3));
}

#[test]
fn perfect_needs_right_length() {
    let s = Score(vec![Some(ScoreCell::K), Some(ScoreCell::K)]);
    assert!(s.is_perfect(2));
    assert!(!s.is_perfect(3));
    let t = Score(vec![Some(ScoreCell::K), Some(ScoreCell::W)]);
    assert!(!t.is_perfect(2));
}

#[test]
fn scores_differ_when_slots_differ() {
    let a = Score(vec![Some(ScoreCell::K), None]);
    let b = Score(vec![Some(ScoreCell::W), None]);
    let c = Score(vec![Some(ScoreCell::K)]);
    assert!(!(a == b));
    assert!(!(a == c));
}

#[test]
fn score_glyphs_draw_markers_and_blanks() {
    let s = score(&code(&[R, R, G, B]), &code(&[R, G, Y, Y]));
    let text: String = s.glyphs().concat();
    assert_eq!(text, "\x1b[91;101m \x1b[0m\x1b[37;47m \x1b[0m  ");
}

#[test]
fn game_scores_guess_against_secret() {
    let mut mm = MasterMind::new(4);
    assert_eq!(mm.peg_count, 4);
    assert_eq!(mm.guesses, 0);
    assert_eq!(mm.code.0.len(), 4);
    mm.set_code(code(&[R, R, G, B]));
    let s = mm.guess(&code(&[R, G, Y, Y]));
    assert_eq!(counts(&s), (1, 1, 2));
    assert!(!mm.is_won(&s));
    let win = mm.guess(&code(&[R, R, G, B]));
    assert!(mm.is_won(&win));
}
