//! Tests of the evaluator, the score tables, and the alpha-beta search.

use ultimate_ttt::{Agent, Coord, MinMax, Move, PlayerState, ScoreTables};
use ultimate_ttt::score::TableError;

const TABLE_SIZE: usize = 19683;

fn zero_tables() -> ScoreTables {
    ScoreTables::new(vec![0isize; TABLE_SIZE], vec![0isize; TABLE_SIZE]).unwrap()
}

#[test]
fn score_tables_length_errors() {
    assert_eq!(
        ScoreTables::new(vec![0isize; 10], vec![0isize; TABLE_SIZE]).unwrap_err(),
        TableError::SubBoardLength
    );
    assert_eq!(
        ScoreTables::new(vec![0isize; TABLE_SIZE], vec![0isize; 10]).unwrap_err(),
        TableError::LargeBoardLength
    );
}

#[test]
fn score_tables_range_errors() {
    let mut sub = vec![0isize; TABLE_SIZE];
    sub[5] = 100_000_001;
    assert_eq!(
        ScoreTables::new(sub, vec![0isize; TABLE_SIZE]).unwrap_err(),
        TableError::SubBoardScoreRange
    );
    let mut large = vec![0isize; TABLE_SIZE];
    large[7] = -100_000_001;
    assert_eq!(
        ScoreTables::new(vec![0isize; TABLE_SIZE], large).unwrap_err(),
        TableError::LargeBoardScoreRange
    );
}

#[test]
fn score_tables_accept_bounds() {
    let sub = vec![100_000_000isize; TABLE_SIZE];
    let large = vec![-100_000_000isize; TABLE_SIZE];
    assert!(ScoreTables::new(sub, large).is_ok());
}

#[test]
fn evaluator_sums_tables() {
    // Nine empty sub-boards all key entry 0 of the sub-board table; the
    // empty meta-board keys entry 0 of the meta-board table.
    let mut sub = vec![0isize; TABLE_SIZE];
    sub[0] = 7;
    let mut large = vec![0isize; TABLE_SIZE];
    large[0] = 5;
    let tables = ScoreTables::new(sub, large).unwrap();
    let agent = MinMax::new(tables);
    assert_eq!(agent.get_score(), 9 * 7 + 5);
}

#[test]
fn evaluator_reads_played_cells() {
    // A lone opponent mark in a sub-board's centre cell keys entry
    // 2 * 3^4 = 162 of the sub-board table; the same entry seen from
    // two sub-boards counts twice.
    let mut sub = vec![0isize; TABLE_SIZE];
    sub[162] = 11;
    let tables = ScoreTables::new(sub, vec![0isize; TABLE_SIZE]).unwrap();
    let mut agent = MinMax::new(tables);
    agent.opponent_move(Move::new(Coord::new(0, 0), Coord::new(1, 1)));
    assert_eq!(agent.get_score(), 11);
    agent.opponent_move(Move::new(Coord::new(2, 1), Coord::new(1, 1)));
    assert_eq!(agent.get_score(), 22);
}

#[test]
fn evaluator_agent_mark_scores() {
    let mut sub = vec![0isize; TABLE_SIZE];
    sub[6561] = 11;
    let tables = ScoreTables::new(sub, vec![0isize; TABLE_SIZE]).unwrap();
    let mut agent = MinMax::new(tables);
    agent.make_first_move();
    // The first move goes to the centre sub-board's centre cell, which
    // keys 3^4 = 81, not 6561.
    assert_eq!(agent.get_score(), 0);
}

#[test]
fn search_shallow_explores_all_and_keeps_first_best() {
    // One ply from the horizon every top-level move is scored directly.
    // All scores equal: the first move examined is kept.
    let mut agent = MinMax::new(zero_tables());
    let (score, best) = agent.minimax(3, true, isize::MIN, isize::MAX);
    assert_eq!(score, 0);
    assert_eq!(best, Some(Move::new(Coord::new(0, 0), Coord::new(0, 0))));
}

#[test]
fn search_prefers_high_scoring_move() {
    // Entry 81 (3^4) of the sub-board table is a layout with a lone
    // agent mark in the centre cell: the search, one ply from the
    // horizon, picks the first move reaching it over all zero-scoring
    // alternatives.
    let mut sub = vec![0isize; TABLE_SIZE];
    sub[81] = 500;
    let tables = ScoreTables::new(sub, vec![0isize; TABLE_SIZE]).unwrap();
    let mut agent = MinMax::new(tables);
    let (score, best) = agent.minimax(3, true, isize::MIN, isize::MAX);
    assert_eq!(score, 500);
    assert_eq!(best, Some(Move::new(Coord::new(0, 0), Coord::new(1, 1))));
}

#[test]
fn search_minimizing_side_picks_low() {
    let mut sub = vec![0isize; TABLE_SIZE];
    // A lone opponent mark in the first cell keys 2 * 3^8 = 13122.
    sub[13122] = -300;
    let tables = ScoreTables::new(sub, vec![0isize; TABLE_SIZE]).unwrap();
    let mut agent = MinMax::new(tables);
    let (score, best) = agent.minimax(3, false, isize::MIN, isize::MAX);
    assert_eq!(score, -300);
    assert_eq!(best, Some(Move::new(Coord::new(0, 0), Coord::new(0, 0))));
}

#[test]
fn search_deterministic_same_position() {
    // Two agents in the same position with the same tables choose the
    // same move, and the board after the search equals the board before
    // it plus only the chosen move.
    let mut first = MinMax::new(zero_tables());
    let mut second = MinMax::new(zero_tables());
    first.make_first_move();
    second.make_first_move();
    first.opponent_move(Move::new(Coord::new(1, 1), Coord::new(0, 0)));
    second.opponent_move(Move::new(Coord::new(1, 1), Coord::new(0, 0)));
    let chosen_first = first.make_move();
    let chosen_second = second.make_move();
    assert_eq!(chosen_first, chosen_second);
    assert_eq!(first.get_score(), second.get_score());
}

#[test]
fn agent_first_move_centre() {
    let mut agent = MinMax::new(zero_tables());
    let m = agent.make_first_move();
    assert_eq!(m, Move::new(Coord::new(1, 1), Coord::new(1, 1)));
}

#[test]
fn agent_init_resets() {
    let mut agent = MinMax::new(zero_tables());
    agent.make_first_move();
    agent.init();
    // A fresh board scores as nine empty sub-boards again.
    assert_eq!(agent.get_score(), 0);
    let m = agent.make_first_move();
    assert_eq!(m, Move::new(Coord::new(1, 1), Coord::new(1, 1)));
}

#[test]
fn agent_full_exchange_plays_forced_board() {
    // Opening, a reply, then a searched move: the searched move must lie
    // in the sub-board forced by the opponent's cell.
    let mut agent = MinMax::new(zero_tables());
    agent.make_first_move();
    agent.opponent_move(Move::new(Coord::new(1, 1), Coord::new(0, 2)));
    let chosen = agent.make_move();
    assert_eq!(chosen.large_board, Coord::new(0, 2));
}
