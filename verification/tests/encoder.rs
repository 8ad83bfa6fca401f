use gomoku_policy::board::{Board, Cell};
use gomoku_policy::encoder::{encode, FEATURES};

fn stones(board: &Board) -> usize {
    board.cells.iter().filter(|&&cell| cell != Cell::Empty).count()
}

fn ones(features: &[u8]) -> usize {
    features.iter().filter(|&&entry| entry == 1).count()
}

#[test]
fn empty_board_encodes_to_zeros() {
    let board = Board::new();
    let features = encode(&board);
    assert_eq!(features.len(), 162);
    assert!(features.iter().all(|&entry| entry == 0));
}

#[test]
fn feature_count_is_two_planes() {
    assert_eq!(FEATURES, 162);
    assert_eq!(FEATURES, 2 * gomoku_policy::board::CELLS);
}

#[test]
fn stones_fill_their_planes() {
    let mut board = Board::new();
    assert!(board.set(0, Cell::PlayerX));
    assert!(board.set(40, Cell::PlayerO));
    assert!(board.set(80, Cell::PlayerX));
    let features = encode(&board);
    let mut expected = vec![0u8; 162];
    expected[0] = 1;
    expected[40 + 81] = 1;
    expected[80] = 1;
    assert_eq!(features, expected);
}

#[test]
fn x_goes_to_first_plane_and_o_to_second() {
    for cell in 0..81usize {
        let mut board = Board::new();
        board.set(cell, Cell::PlayerX);
        let features = encode(&board);
        for k in 0..162usize {
            assert_eq!(features[k], if k == cell { 1 } else { 0 });
        }
        let mut board = Board::new();
        board.set(cell, Cell::PlayerO);
        let features = encode(&board);
        for k in 0..162usize {
            assert_eq!(features[k], if k == cell + 81 { 1 } else { 0 });
        }
    }
}

#[test]
fn encoding_twice_gives_the_same_vector() {
    let mut board = Board::new();
    for cell in (0..81usize).step_by(3) {
        board.set(cell, if cell % 2 == 0 { Cell::PlayerX } else { Cell::PlayerO });
    }
    let first = encode(&board);
    let second = encode(&board);
    assert_eq!(first, second);
    let copy = board;
    assert_eq!(encode(&copy), first);
}

#[test]
fn ones_match_stones() {
    let mut board = Board::new();
    assert_eq!(ones(&encode(&board)), 0);
    for cell in 0..81usize {
        let mark = match cell % 3 {
            0 => Cell::PlayerX,
            1 => Cell::PlayerO,
            _ => Cell::Empty,
        };
        board.set(cell, mark);
        let features = encode(&board);
        assert_eq!(ones(&features), stones(&board));
        assert!(features.iter().all(|&entry| entry == 0 || entry == 1));
    }
    assert_eq!(stones(&board), 54);
}

#[test]
fn full_board_has_eighty_one_ones() {
    let mut board = Board::new();
    for cell in 0..81usize {
        board.set(cell, if cell % 2 == 0 { Cell::PlayerX } else { Cell::PlayerO });
    }
    let features = encode(&board);
    assert_eq!(ones(&features), 81);
    for cell in 0..81usize {
        assert_eq!(features[cell] + features[cell + 81], 1);
    }
}

#[test]
fn removing_a_stone_clears_its_entry() {
    let mut board = Board::new();
    board.set(12, Cell::PlayerO);
    assert_eq!(encode(&board)[12 + 81], 1);
    board.set(12, Cell::Empty);
    assert!(encode(&board).iter().all(|&entry| entry == 0));
}

#[test]
fn set_off_the_board_changes_nothing() {
    let mut board = Board::new();
    assert!(!board.set(81, Cell::PlayerX));
    assert!(!board.set(usize::MAX, Cell::PlayerO));
    assert!(board.cells.iter().all(|&cell| cell == Cell::Empty));
}

#[test]
fn cell_reads_what_set_wrote() {
    let mut board = Board::new();
    assert_eq!(board.cell(5), Some(Cell::Empty));
    board.set(5, Cell::PlayerO);
    assert_eq!(board.cell(5), Some(Cell::PlayerO));
    assert_eq!(board.cell(80), Some(Cell::Empty));
    assert_eq!(board.cell(81), None);
}
