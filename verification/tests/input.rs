use gomoku_policy::board::Move;
use gomoku_policy::error::Error;
use gomoku_policy::input::{interpret_line, Command};

fn moves_named(names: &[&str]) -> Vec<Move> {
    names
        .iter()
        .enumerate()
        .map(|(cell, name)| Move::new(cell, name.to_string()).unwrap())
        .collect()
}

const WHITE_SPACE: [u32; 25] = [
    0x09, 0x0A, 0x0B, 0x0C, 0x0D, 0x20, 0x85, 0xA0, 0x1680, 0x2000, 0x2001, 0x2002, 0x2003,
    0x2004, 0x2005, 0x2006, 0x2007, 0x2008, 0x2009, 0x200A, 0x2028, 0x2029, 0x202F, 0x205F,
    0x3000,
];

#[test]
fn quit_token_asks_to_quit() {
    let moves = moves_named(&["a1", "b1"]);
    assert_eq!(interpret_line(&moves, "q"), Ok(Command::Quit));
}

#[test]
fn quit_token_is_read_without_the_line_end() {
    let moves = moves_named(&["a1", "b1"]);
    assert_eq!(interpret_line(&moves, "q\n"), Ok(Command::Quit));
    assert_eq!(interpret_line(&moves, "q\r\n"), Ok(Command::Quit));
    assert_eq!(interpret_line(&moves, "  \tq  "), Ok(Command::Quit));
}

#[test]
fn quit_token_is_exact() {
    let moves = moves_named(&["a1", "b1"]);
    for line in ["Q", "quit", "qq", "q q", "", "\n", " "] {
        assert_eq!(interpret_line(&moves, line), Err(Error::InvalidMoveInput), "{line:?}");
    }
}

#[test]
fn quit_token_wins_over_a_move_of_that_name() {
    let moves = moves_named(&["q", "b1"]);
    assert_eq!(interpret_line(&moves, "q\n"), Ok(Command::Quit));
}

#[test]
fn notation_names_its_move() {
    let moves = moves_named(&["a1", "b1", "c1"]);
    assert_eq!(interpret_line(&moves, "a1\n"), Ok(Command::Play(0)));
    assert_eq!(interpret_line(&moves, "b1"), Ok(Command::Play(1)));
    assert_eq!(interpret_line(&moves, "   c1 \r\n"), Ok(Command::Play(2)));
}

#[test]
fn notation_is_exact() {
    let moves = moves_named(&["a1", "b1", "c1"]);
    for line in ["A1", "a", "a11", "a 1", "d1", "1a", "a1,"] {
        assert_eq!(interpret_line(&moves, line), Err(Error::InvalidMoveInput), "{line:?}");
    }
}

#[test]
fn first_of_two_moves_with_one_notation_is_named() {
    let moves = moves_named(&["a1", "b1", "b1", "a1"]);
    assert_eq!(interpret_line(&moves, "b1\n"), Ok(Command::Play(1)));
    assert_eq!(interpret_line(&moves, "a1\n"), Ok(Command::Play(0)));
}

#[test]
fn no_move_is_named_without_moves() {
    assert_eq!(interpret_line(&Vec::new(), "a1\n"), Err(Error::InvalidMoveInput));
    assert_eq!(interpret_line(&Vec::new(), "q\n"), Ok(Command::Quit));
}

#[test]
fn white_space_inside_the_text_stays() {
    let moves = moves_named(&["a 1", "b\t1"]);
    assert_eq!(interpret_line(&moves, " a 1 "), Ok(Command::Play(0)));
    assert_eq!(interpret_line(&moves, "b\t1\n"), Ok(Command::Play(1)));
    assert_eq!(interpret_line(&moves, "a1"), Err(Error::InvalidMoveInput));
}

#[test]
fn a_notation_with_white_space_at_its_end_cannot_be_typed() {
    let moves = moves_named(&["a1 "]);
    assert_eq!(interpret_line(&moves, "a1 "), Err(Error::InvalidMoveInput));
}

#[test]
fn notation_outside_ascii() {
    let moves = moves_named(&["\u{4e94}\u{4e94}", "\u{e9}1"]);
    assert_eq!(interpret_line(&moves, "\u{3000}\u{4e94}\u{4e94}\u{2003}"), Ok(Command::Play(0)));
    assert_eq!(interpret_line(&moves, "\u{e9}1\u{a0}"), Ok(Command::Play(1)));
}

#[test]
fn every_white_space_character_is_removed_at_both_ends() {
    let moves = moves_named(&["a1"]);
    for code in WHITE_SPACE {
        let c = char::from_u32(code).unwrap();
        assert_eq!(interpret_line(&moves, &format!("{c}q")), Ok(Command::Quit), "{code:#x}");
        assert_eq!(interpret_line(&moves, &format!("q{c}")), Ok(Command::Quit), "{code:#x}");
        assert_eq!(interpret_line(&moves, &format!("{c}{c}a1{c}")), Ok(Command::Play(0)));
    }
}

#[test]
fn no_other_character_is_removed() {
    let moves = moves_named(&["a1"]);
    for code in 0..=0x10FFFFu32 {
        let Some(c) = char::from_u32(code) else {
            continue;
        };
        if WHITE_SPACE.contains(&code) {
            continue;
        }
        let mut front = String::with_capacity(8);
        front.push(c);
        front.push('q');
        assert_eq!(interpret_line(&moves, &front), Err(Error::InvalidMoveInput), "{code:#x}");
        let mut back = String::with_capacity(8);
        back.push('q');
        back.push(c);
        assert_eq!(interpret_line(&moves, &back), Err(Error::InvalidMoveInput), "{code:#x}");
    }
}
