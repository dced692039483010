use mastermind::cell::CodeCell;
use mastermind::code::{Code, LengthMismatch};
use mastermind::input::{apply_key, color_of_key, GuessAction, KeyInput};

#[test]
fn random_code_has_requested_length_and_real_colors() {
    for n in [0u8, 1, 4, 9] {
        let c = Code::new(n);
        assert_eq!(c.len(), n as usize);
        assert!(c.0.iter().all(|p| *p != CodeCell::E));
    }
}

#[test]
fn random_codes_use_more_than_one_color() {
    let c = Code::new(200);
    assert!(c.0.iter().any(|p| *p != c.0[0]));
}

#[test]
fn from_sequence_accepts_right_length() {
    let r = Code::from_sequence(vec![CodeCell::R, CodeCell::G], 2);
    assert_eq!(r.unwrap().0, vec![CodeCell::R, CodeCell::G]);
}

#[test]
fn from_sequence_rejects_wrong_length() {
    let r = Code::from_sequence(vec![CodeCell::R, CodeCell::G, CodeCell::B], 4);
    assert_eq!(r.unwrap_err(), LengthMismatch { expected: 4, found: 3 });
}

#[test]
fn from_index_maps_palette() {
    assert_eq!(CodeCell::from_index(0), CodeCell::R);
    assert_eq!(CodeCell::from_index(3), CodeCell::Y);
    assert_eq!(CodeCell::from_index(5), CodeCell::C);
}

#[test]
fn code_glyphs_draw_each_peg() {
    let c = Code(vec![CodeCell::R, CodeCell::C, CodeCell::E]);
    assert_eq!(c.glyphs().concat(), "\x1b[31;41m \x1b[0m\x1b[36;46m \x1b[0m\x1b[0m ");
}

#[test]
fn color_keys_map_to_colors() {
    assert_eq!(color_of_key('m'), Some(CodeCell::M));
    assert_eq!(color_of_key('q'), None);
}

#[test]
fn keys_build_and_erase_a_guess() {
    let mut pegs = Vec::new();
    assert_eq!(apply_key(&mut pegs, KeyInput::Char('r')), GuessAction::Placed(CodeCell::R));
    assert_eq!(apply_key(&mut pegs, KeyInput::Char('b')), GuessAction::Placed(CodeCell::B));
    assert_eq!(apply_key(&mut pegs, KeyInput::Char('z')), GuessAction::Ignored);
    assert_eq!(apply_key(&mut pegs, KeyInput::Other), GuessAction::Ignored);
    assert_eq!(pegs, vec![CodeCell::R, CodeCell::B]);
    assert_eq!(apply_key(&mut pegs, KeyInput::Backspace), GuessAction::Erased);
    assert_eq!(pegs, vec![CodeCell::R]);
    assert_eq!(apply_key(&mut pegs, KeyInput::Backspace), GuessAction::Erased);
    assert_eq!(apply_key(&mut pegs, KeyInput::Backspace), GuessAction::Erased);
    assert!(pegs.is_empty());
}

#[test]
fn quit_key_quits_without_changing_guess() {
    let mut pegs = vec![CodeCell::G];
    assert_eq!(apply_key(&mut pegs, KeyInput::Char('x')), GuessAction::Quit);
    assert_eq!(pegs, vec![CodeCell::G]);
}
