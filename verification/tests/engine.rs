//! Tests of the board engine: sub-board win/tie detection, encoding,
//! the large board's forced-next-board rule, and reversible moves.

use ultimate_ttt::{BoardState, Coord, LargeBoard, Move, PlayerState, SubBoard};
use ultimate_ttt::sub_board::{cells_code, decode_key};

fn sub_snapshot(b: &SubBoard) -> (String, bool) {
    (b.to_string(), b.is_finished())
}

fn large_snapshot(b: &LargeBoard) -> Vec<(String, bool)> {
    let mut out = Vec::new();
    for sub in b.board.iter() {
        out.push(sub_snapshot(sub));
    }
    out.push(sub_snapshot(&b.state_board));
    out
}

#[test]
fn player_state_to_string_exact() {
    assert_eq!(PlayerState::Agent.to_string(), "1");
    assert_eq!(PlayerState::Empty.to_string(), "0");
    assert_eq!(PlayerState::Opponent.to_string(), "-1");
}

#[test]
fn board_state_from_player_state_exact() {
    assert_eq!(
        BoardState::from_player_state(PlayerState::Agent),
        BoardState::Agent
    );
    assert_eq!(
        BoardState::from_player_state(PlayerState::Empty),
        BoardState::Undecided
    );
    assert_eq!(
        BoardState::from_player_state(PlayerState::Opponent),
        BoardState::Opponent
    );
}

#[test]
fn sub_board_row_win_left_to_right() {
    let mut b = SubBoard::new();
    b.make_move(PlayerState::Agent, Coord::new(0, 0));
    assert!(!b.is_finished());
    b.make_move(PlayerState::Agent, Coord::new(0, 1));
    assert!(!b.is_finished());
    b.make_move(PlayerState::Agent, Coord::new(0, 2));
    assert!(b.is_finished());
    assert_eq!(b.winner(), Some(BoardState::Agent));
}

#[test]
fn sub_board_row_win_any_fill_order() {
    let mut b = SubBoard::new();
    b.make_move(PlayerState::Agent, Coord::new(1, 2));
    b.make_move(PlayerState::Agent, Coord::new(1, 0));
    assert!(!b.is_finished());
    b.make_move(PlayerState::Agent, Coord::new(1, 1));
    assert!(b.is_finished());
    assert_eq!(b.winner(), Some(BoardState::Agent));
}

#[test]
fn sub_board_column_and_diagonal_wins() {
    let mut b = SubBoard::new();
    b.make_move(PlayerState::Opponent, Coord::new(0, 1));
    b.make_move(PlayerState::Opponent, Coord::new(2, 1));
    b.make_move(PlayerState::Opponent, Coord::new(1, 1));
    assert_eq!(b.winner(), Some(BoardState::Opponent));

    let mut d = SubBoard::new();
    d.make_move(PlayerState::Agent, Coord::new(0, 2));
    d.make_move(PlayerState::Agent, Coord::new(2, 0));
    d.make_move(PlayerState::Agent, Coord::new(1, 1));
    assert_eq!(d.winner(), Some(BoardState::Agent));
}

#[test]
fn sub_board_tie_full_no_line() {
    // A A O / O O A / A A O: no row, column or diagonal is uniform.
    let mut b = SubBoard::new();
    b.make_move(PlayerState::Agent, Coord::new(0, 0));
    b.make_move(PlayerState::Agent, Coord::new(0, 1));
    b.make_move(PlayerState::Opponent, Coord::new(0, 2));
    b.make_move(PlayerState::Opponent, Coord::new(1, 0));
    b.make_move(PlayerState::Opponent, Coord::new(1, 1));
    b.make_move(PlayerState::Agent, Coord::new(1, 2));
    b.make_move(PlayerState::Agent, Coord::new(2, 0));
    b.make_move(PlayerState::Agent, Coord::new(2, 1));
    assert!(!b.is_finished());
    b.make_move(PlayerState::Opponent, Coord::new(2, 2));
    assert!(b.is_finished());
    assert_eq!(b.winner(), Some(BoardState::Tie));
}

#[test]
fn sub_board_finished_ignores_further_moves() {
    let mut b = SubBoard::new();
    b.make_move(PlayerState::Agent, Coord::new(0, 0));
    b.make_move(PlayerState::Agent, Coord::new(0, 1));
    b.make_move(PlayerState::Agent, Coord::new(0, 2));
    let before = b.to_string();
    b.make_move(PlayerState::Opponent, Coord::new(2, 2));
    assert_eq!(b.to_string(), before);
    assert_eq!(b.winner(), Some(BoardState::Agent));
}

#[test]
fn sub_board_encoding_exact() {
    let mut b = SubBoard::new();
    assert_eq!(b.to_string(), "0,0,0,0,0,0,0,0,0");
    b.make_move(PlayerState::Agent, Coord::new(0, 0));
    b.make_move(PlayerState::Opponent, Coord::new(1, 1));
    assert_eq!(b.to_string(), "1,0,0,0,-1,0,0,0,0");
}

#[test]
fn encoding_same_layout_same_string() {
    // The same cell layout reached in two different fill orders encodes
    // to the same string.
    let mut a = SubBoard::new();
    a.make_move(PlayerState::Agent, Coord::new(0, 0));
    a.make_move(PlayerState::Opponent, Coord::new(2, 2));
    a.make_move(PlayerState::Agent, Coord::new(1, 0));
    let mut b = SubBoard::new();
    b.make_move(PlayerState::Agent, Coord::new(1, 0));
    b.make_move(PlayerState::Agent, Coord::new(0, 0));
    b.make_move(PlayerState::Opponent, Coord::new(2, 2));
    assert_eq!(a.to_string(), b.to_string());
}

#[test]
fn decode_key_roundtrip() {
    let mut b = SubBoard::new();
    b.make_move(PlayerState::Agent, Coord::new(0, 1));
    b.make_move(PlayerState::Opponent, Coord::new(2, 0));
    let key = b.to_string();
    let chars: Vec<char> = key.chars().collect();
    let cells = decode_key(&chars).expect("a produced encoding must decode");
    assert_eq!(cells.len(), 9);
    assert_eq!(cells[1], PlayerState::Agent);
    assert_eq!(cells[6], PlayerState::Opponent);
    assert_eq!(cells[0], PlayerState::Empty);
    assert_eq!(cells_code(&cells), b.code());
}

#[test]
fn decode_key_rejects_malformed() {
    for bad in [
        "",
        "1,0,0,0,0,0,0,0",
        "1,0,0,0,0,0,0,0,0,0",
        "2,0,0,0,0,0,0,0,0",
        "1,0,0,0,0,0,0,0,-",
        "1 ,0,0,0,0,0,0,0,0",
        "1,0,0,0,0,0,0,0,0,",
    ] {
        let chars: Vec<char> = bad.chars().collect();
        assert!(decode_key(&chars).is_none(), "accepted {:?}", bad);
    }
}

#[test]
fn sub_board_code_exact() {
    let mut b = SubBoard::new();
    assert_eq!(b.code(), 0);
    // The first cell is the most significant base-3 digit.
    b.make_move(PlayerState::Agent, Coord::new(0, 0));
    assert_eq!(b.code(), 6561);
    b.make_move(PlayerState::Opponent, Coord::new(2, 2));
    assert_eq!(b.code(), 6563);
}

#[test]
fn sub_board_valid_moves_row_major() {
    let mut b = SubBoard::new();
    b.make_move(PlayerState::Agent, Coord::new(0, 1));
    b.make_move(PlayerState::Opponent, Coord::new(1, 1));
    let moves = b.get_valid_moves();
    assert_eq!(moves.len(), 7);
    assert_eq!(moves[0], Coord::new(0, 0));
    assert_eq!(moves[1], Coord::new(0, 2));
    assert_eq!(moves[2], Coord::new(1, 0));
    assert_eq!(moves[6], Coord::new(2, 2));
}

#[test]
fn sub_board_undo_clears() {
    let mut b = SubBoard::new();
    b.make_move(PlayerState::Agent, Coord::new(0, 0));
    b.make_move(PlayerState::Agent, Coord::new(0, 1));
    b.make_move(PlayerState::Agent, Coord::new(0, 2));
    assert!(b.is_finished());
    b.undo_move(Coord::new(0, 2));
    assert!(!b.is_finished());
    assert_eq!(b.winner(), None);
    assert_eq!(b.to_string(), "1,1,0,0,0,0,0,0,0");
}

#[test]
fn large_board_make_undo_identity() {
    let mut b = LargeBoard::new();
    b.make_move(PlayerState::Agent, Move::new(Coord::new(1, 1), Coord::new(0, 2)));
    b.make_move(PlayerState::Opponent, Move::new(Coord::new(0, 2), Coord::new(1, 0)));
    let before = large_snapshot(&b);
    let next_before = b.get_next_board();
    b.make_move(PlayerState::Agent, Move::new(Coord::new(1, 0), Coord::new(2, 2)));
    b.undo_move();
    assert_eq!(large_snapshot(&b), before);
    assert_eq!(b.get_next_board(), next_before);
}

#[test]
fn large_board_make_undo_identity_after_finish() {
    // Undoing a move that finished its sub-board also reverts the
    // meta-board cell.
    let mut b = LargeBoard::new();
    b.make_move(PlayerState::Agent, Move::new(Coord::new(1, 2), Coord::new(0, 0)));
    b.make_move(PlayerState::Agent, Move::new(Coord::new(1, 2), Coord::new(0, 1)));
    let before = large_snapshot(&b);
    b.make_move(PlayerState::Agent, Move::new(Coord::new(1, 2), Coord::new(0, 2)));
    assert!(b.board[1 * 3 + 2].is_finished());
    assert_eq!(b.state_board.cell(Coord::new(1, 2)), PlayerState::Agent);
    b.undo_move();
    assert_eq!(large_snapshot(&b), before);
    assert_eq!(b.state_board.cell(Coord::new(1, 2)), PlayerState::Empty);
    assert!(!b.board[1 * 3 + 2].is_finished());
}

#[test]
fn valid_boards_all_when_no_history() {
    let b = LargeBoard::new();
    let boards = b.get_valid_boards();
    assert_eq!(boards.len(), 9);
    assert_eq!(boards[0], Coord::new(0, 0));
    assert_eq!(boards[8], Coord::new(2, 2));
}

#[test]
fn valid_boards_forced_by_last_cell() {
    let mut b = LargeBoard::new();
    b.make_move(PlayerState::Agent, Move::new(Coord::new(0, 0), Coord::new(1, 2)));
    let boards = b.get_valid_boards();
    assert_eq!(boards, vec![Coord::new(1, 2)]);
}

#[test]
fn valid_boards_fallback_when_forced_board_finished() {
    let mut b = LargeBoard::new();
    b.make_move(PlayerState::Agent, Move::new(Coord::new(1, 2), Coord::new(0, 0)));
    b.make_move(PlayerState::Agent, Move::new(Coord::new(1, 2), Coord::new(0, 1)));
    b.make_move(PlayerState::Agent, Move::new(Coord::new(1, 2), Coord::new(0, 2)));
    // The last move's cell was (0, 2); that sub-board is open, so play
    // is forced there first.
    assert_eq!(b.get_valid_boards(), vec![Coord::new(0, 2)]);
    // Now play a move whose cell points back at the finished (1, 2):
    // the restriction is dropped and every unfinished board is open.
    b.make_move(PlayerState::Opponent, Move::new(Coord::new(0, 2), Coord::new(1, 2)));
    let boards = b.get_valid_boards();
    assert_eq!(boards.len(), 8);
    assert!(!boards.contains(&Coord::new(1, 2)));
}

#[test]
fn valid_moves_empty_board_is_everything() {
    let b = LargeBoard::new();
    let moves = b.get_valid_moves();
    assert_eq!(moves.len(), 81);
    assert_eq!(moves[0], Move::new(Coord::new(0, 0), Coord::new(0, 0)));
    assert_eq!(moves[80], Move::new(Coord::new(2, 2), Coord::new(2, 2)));
}

#[test]
fn valid_moves_follow_forced_board() {
    let mut b = LargeBoard::new();
    b.make_move(PlayerState::Agent, Move::new(Coord::new(2, 2), Coord::new(0, 1)));
    let moves = b.get_valid_moves();
    assert_eq!(moves.len(), 9);
    for m in moves.iter() {
        assert_eq!(m.large_board, Coord::new(0, 1));
    }
}

#[test]
fn sub_board_anti_diagonal_needs_all_three() {
    let mut b = SubBoard::new();
    b.make_move(PlayerState::Agent, Coord::new(0, 2));
    assert!(!b.is_finished());
    b.make_move(PlayerState::Agent, Coord::new(1, 1));
    assert!(!b.is_finished());
    b.make_move(PlayerState::Agent, Coord::new(2, 0));
    assert!(b.is_finished());
    assert_eq!(b.winner(), Some(BoardState::Agent));
}

#[test]
fn large_board_undo_several_in_reverse() {
    let mut b = LargeBoard::new();
    let start = large_snapshot(&b);
    b.make_move(PlayerState::Agent, Move::new(Coord::new(0, 0), Coord::new(2, 1)));
    b.make_move(PlayerState::Opponent, Move::new(Coord::new(2, 1), Coord::new(0, 0)));
    b.make_move(PlayerState::Agent, Move::new(Coord::new(0, 0), Coord::new(1, 1)));
    b.undo_move();
    b.undo_move();
    b.undo_move();
    assert_eq!(large_snapshot(&b), start);
    assert_eq!(b.get_next_board(), None);
    assert_eq!(b.get_valid_moves().len(), 81);
}
