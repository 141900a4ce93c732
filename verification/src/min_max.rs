//! The move-choosing agent: a fixed-depth minimax search with
//! alpha-beta pruning over the large board, scoring leaves with the
//! table-driven evaluator.

use vstd::prelude::*;
use crate::enums::PlayerState;
use crate::large_board::{
    lb_corr, lb_empty, lb_make, lb_wf, lemma_make_undo_identity, lemma_valid_moves_members,
    valid_moves, LargeBoard, LargeBoardV,
};
use crate::score::{spec_score, tables_wf, ScoreTables, TablesV, SCORE_BOUND};
use crate::sub_board::{sub_make, sub_wf, SubBoardV};
use crate::types::{flat, move_wf, Coord, Move};

verus! {

/// The fixed search horizon, in plies.
pub const SEARCH_DEPTH: usize = 4;

/// The side a turn flag stands for: the maximizing agent or the
/// minimizing opponent.
pub open spec fn player_of(is_agent: bool) -> PlayerState {
    if is_agent {
        PlayerState::Agent
    } else {
        PlayerState::Opponent
    }
}

/// Applying `m` for `player` finishes the targeted sub-board.
pub open spec fn move_finishes(v: LargeBoardV, m: Move, player: PlayerState) -> bool {
    sub_make(
        v.boards[flat(m.large_board)],
        player,
        m.sub_board.x as int,
        m.sub_board.y as int,
    ).winner is Some
}

/// No legal move, for either side, finishes its sub-board.
pub open spec fn no_finishing_moves(v: LargeBoardV) -> bool {
    forall|j: int, p: bool|
        0 <= j < valid_moves(v).len() ==> !#[trigger] move_finishes(
            v,
            valid_moves(v)[j],
            player_of(p),
        )
}

/// The board states the search may visit from `v` within the horizon
/// are all ones on which applying and reverting a legal move is the
/// identity: well-formed, the meta-board in step with the sub-boards,
/// and — once the meta-game has ended — no remaining legal move that
/// would finish a sub-board (such a finish could no longer be recorded
/// in the finished meta-board, so reverting it would not restore the
/// meta-board).
pub open spec fn search_safe(v: LargeBoardV, depth: int) -> bool
    decreases 4 - depth,
{
    &&& lb_wf(v)
    &&& lb_corr(v)
    &&& (v.state.winner is Some ==> no_finishing_moves(v))
    &&& (depth < 4 ==> forall|j: int, p: bool|
        0 <= j < valid_moves(v).len() ==> search_safe(
            #[trigger] lb_make(v, player_of(p), valid_moves(v)[j]),
            depth + 1,
        ))
}

/// The value and remembered move after examining the candidates of
/// `moves` from index `i` on: each candidate's subtree is searched one
/// ply deeper with the turn flag flipped; a score strictly improving the
/// running bound (alpha when maximizing, beta when minimizing) replaces
/// it and makes the candidate the remembered move, so the first move
/// achieving the best score is kept; once alpha exceeds beta the
/// remaining candidates are pruned.
pub open spec fn spec_minimax_loop(
    v: LargeBoardV,
    t: TablesV,
    depth: int,
    is_agent: bool,
    alpha: int,
    beta: int,
    moves: Seq<Move>,
    i: int,
    best: Option<Move>,
) -> (int, Option<Move>)
    decreases 4 - depth, moves.len() - i,
{
    if i < 0 || i >= moves.len() || alpha > beta || depth < 0 || depth >= 4 {
        (if is_agent {
            alpha
        } else {
            beta
        }, best)
    } else {
        let m = moves[i];
        let s = spec_minimax(
            lb_make(v, player_of(is_agent), m),
            t,
            depth + 1,
            !is_agent,
            alpha,
            beta,
        ).0;
        let improves = if is_agent {
            s > alpha
        } else {
            s < beta
        };
        let alpha2 = if is_agent && improves {
            s
        } else {
            alpha
        };
        let beta2 = if !is_agent && improves {
            s
        } else {
            beta
        };
        let best2 = if improves {
            Some(m)
        } else {
            best
        };
        spec_minimax_loop(v, t, depth, is_agent, alpha2, beta2, moves, i + 1, best2)
    }
}

/// The result of the alpha-beta search from position `v` at `depth`: at
/// a terminal node (no legal moves, or the horizon reached) the
/// evaluator's score of the position and no move; otherwise the value
/// and first-best move of examining all candidates in the order
/// `valid_moves` produces.
pub open spec fn spec_minimax(
    v: LargeBoardV,
    t: TablesV,
    depth: int,
    is_agent: bool,
    alpha: int,
    beta: int,
) -> (int, Option<Move>)
    decreases 4 - depth, valid_moves(v).len() + 1,
{
    if valid_moves(v).len() == 0 || depth >= 4 || depth < 0 {
        (spec_score(v, t), None)
    } else {
        spec_minimax_loop(v, t, depth, is_agent, alpha, beta, valid_moves(v), 0, None)
    }
}

/// Range and move-selection facts about `spec_minimax_loop`, proved by
/// mutual induction with `lemma_minimax_result`: the maximizing side
/// only ever raises alpha and the minimizing side only lowers beta, the
/// result stays within the representable score range, a strict
/// improvement always leaves a remembered move, and the remembered move
/// comes from the candidate list.
pub proof fn lemma_minimax_loop_result(
    v: LargeBoardV,
    t: TablesV,
    depth: int,
    is_agent: bool,
    alpha: int,
    beta: int,
    moves: Seq<Move>,
    i: int,
    best: Option<Move>,
)
    requires
        tables_wf(t),
        search_safe(v, depth),
        0 <= depth < 4,
        moves == valid_moves(v),
        0 <= i <= moves.len(),
        isize::MIN as int <= alpha <= isize::MAX as int,
        isize::MIN as int <= beta <= isize::MAX as int,
    ensures
        ({
            let r = spec_minimax_loop(v, t, depth, is_agent, alpha, beta, moves, i, best);
            &&& (is_agent ==> r.0 >= alpha)
            &&& (!is_agent ==> r.0 <= beta)
            &&& (is_agent ==> r.0 <= isize::MAX as int)
            &&& r.0 >= isize::MIN as int
            &&& (beta > isize::MIN as int ==> r.0 > isize::MIN as int || (is_agent && r.0
                == alpha))
            &&& (is_agent && alpha == isize::MIN as int && beta > isize::MIN as int && i
                < moves.len() ==> r.0 > isize::MIN as int)
            &&& (r.1 is Some ==> r.1 == best || exists|j: int|
                i <= j < moves.len() && r.1 == Some(moves[j]))
            &&& (best is Some ==> r.1 is Some)
            &&& (is_agent && r.0 > alpha ==> r.1 is Some)
            &&& (!is_agent && r.0 < beta ==> r.1 is Some)
        }),
    decreases 4 - depth, moves.len() - i,
{
    if i >= moves.len() || alpha > beta {
        // The loop returns its running bound and remembered move as is.
    } else {
        let m = moves[i];
        let child = lb_make(v, player_of(is_agent), m);
        assert(search_safe(lb_make(v, player_of(is_agent), valid_moves(v)[i]), depth + 1));
        lemma_minimax_result(child, t, depth + 1, !is_agent, alpha, beta);
        let s = spec_minimax(child, t, depth + 1, !is_agent, alpha, beta).0;
        let improves = if is_agent {
            s > alpha
        } else {
            s < beta
        };
        let alpha2 = if is_agent && improves {
            s
        } else {
            alpha
        };
        let beta2 = if !is_agent && improves {
            s
        } else {
            beta
        };
        let best2 = if improves {
            Some(m)
        } else {
            best
        };
        lemma_minimax_loop_result(v, t, depth, is_agent, alpha2, beta2, moves, i + 1, best2);
        let r = spec_minimax_loop(v, t, depth, is_agent, alpha2, beta2, moves, i + 1, best2);
        if r.1 is Some && r.1 != best {
            if r.1 == best2 && improves {
                assert(r.1 == Some(moves[i]));
            }
        }
    }
}

/// Range and move-selection facts about `spec_minimax`: under
/// well-formed tables the result stays strictly within the
/// representable score range whenever the window does, a search from a
/// non-terminal node with the full window remembers a move, and any
/// remembered move is one of the node's legal moves.
pub proof fn lemma_minimax_result(
    v: LargeBoardV,
    t: TablesV,
    depth: int,
    is_agent: bool,
    alpha: int,
    beta: int,
)
    requires
        tables_wf(t),
        search_safe(v, depth),
        0 <= depth <= 4,
        isize::MIN as int <= alpha <= isize::MAX as int,
        isize::MIN as int <= beta <= isize::MAX as int,
    ensures
        ({
            let r = spec_minimax(v, t, depth, is_agent, alpha, beta);
            &&& (beta > isize::MIN as int ==> r.0 > isize::MIN as int)
            &&& r.0 <= isize::MAX as int
            &&& r.0 >= isize::MIN as int
            &&& (is_agent && depth < 4 && valid_moves(v).len() > 0 && alpha == isize::MIN as int
                && beta > isize::MIN as int ==> r.1 is Some)
            &&& (r.1 is Some ==> exists|j: int|
                0 <= j < valid_moves(v).len() && r.1 == Some(valid_moves(v)[j]))
        }),
    decreases 4 - depth, valid_moves(v).len() + 1,
{
    if valid_moves(v).len() == 0 || depth >= 4 {
        crate::score::lemma_spec_score_bound(v, t);
        assert(-10 * SCORE_BOUND <= spec_score(v, t) <= 10 * SCORE_BOUND);
        assert(10 * SCORE_BOUND < isize::MAX as int);
    } else {
        lemma_minimax_loop_result(v, t, depth, is_agent, alpha, beta, valid_moves(v), 0, None);
    }
}

/// The top-level search — maximizing, from the full window — on a
/// position with at least one legal move always selects a move, and the
/// selected move is legal.
pub proof fn lemma_top_level_selects_move(v: LargeBoardV, t: TablesV)
    requires
        tables_wf(t),
        search_safe(v, 0),
        valid_moves(v).len() > 0,
    ensures
        ({
            let r = spec_minimax(v, t, 0, true, isize::MIN as int, isize::MAX as int);
            &&& r.1 is Some
            &&& exists|j: int| 0 <= j < valid_moves(v).len() && r.1 == Some(valid_moves(v)[j])
            &&& (isize::MIN as int) < r.0
            &&& r.0 <= isize::MAX as int
        }),
{
    lemma_minimax_result(v, t, 0, true, isize::MIN as int, isize::MAX as int);
}

/// With the full window — beta at the maximum representable score — the
/// maximizing search prunes nothing: examining any candidate always
/// continues with the next one, so every candidate of the node is
/// explored. (The result of the whole search is a function of the
/// position and the tables alone, so repeated searches of one position
/// return the same move.)
pub proof fn lemma_full_window_never_prunes(
    v: LargeBoardV,
    t: TablesV,
    depth: int,
    alpha: int,
    moves: Seq<Move>,
    i: int,
    best: Option<Move>,
)
    requires
        tables_wf(t),
        search_safe(v, depth),
        0 <= depth < 4,
        moves == valid_moves(v),
        0 <= i < moves.len(),
        isize::MIN as int <= alpha <= isize::MAX as int,
    ensures
        ({
            let beta = isize::MAX as int;
            let s = spec_minimax(
                lb_make(v, player_of(true), moves[i]),
                t,
                depth + 1,
                false,
                alpha,
                beta,
            ).0;
            let alpha2 = if s > alpha {
                s
            } else {
                alpha
            };
            let best2 = if s > alpha {
                Some(moves[i])
            } else {
                best
            };
            &&& alpha2 <= beta
            &&& spec_minimax_loop(v, t, depth, true, alpha, beta, moves, i, best)
                == spec_minimax_loop(v, t, depth, true, alpha2, beta, moves, i + 1, best2)
        }),
{
    let beta = isize::MAX as int;
    let child = lb_make(v, player_of(true), moves[i]);
    assert(search_safe(lb_make(v, player_of(true), valid_moves(v)[i]), depth + 1));
    lemma_minimax_result(child, t, depth + 1, false, alpha, beta);
}


/// The number of occupied cells among the first `k`.
pub open spec fn num_marked(c: Seq<PlayerState>, k: int) -> int
    decreases k,
{
    if k <= 0 {
        0
    } else {
        num_marked(c, k - 1) + if c[k - 1] != PlayerState::Empty {
            1int
        } else {
            0int
        }
    }
}

/// The total of the first `k` sub-boards' move counters.
pub open spec fn total_counts(boards: Seq<SubBoardV>, k: int) -> int
    decreases k,
{
    if k <= 0 {
        0
    } else {
        total_counts(boards, k - 1) + boards[k - 1].count
    }
}

/// Book-keeping that holds of every position actual play reaches: each
/// counter equals its board's number of occupied cells, and a finished
/// board — sub-board or meta-board — holds at least three marks.
pub open spec fn counts_ok(v: LargeBoardV) -> bool {
    &&& forall|k: int|
        0 <= k < 9 ==> (#[trigger] v.boards[k].count) as int == num_marked(v.boards[k].cells, 9)
    &&& forall|k: int| 0 <= k < 9 ==> ((#[trigger] v.boards[k].winner) is Some ==> v.boards[k].count >= 3)
    &&& v.state.count as int == num_marked(v.state.cells, 9)
    &&& (v.state.winner is Some ==> v.state.count >= 3)
}

/// Marking one empty cell raises the occupied-cell count of a prefix by
/// one if the cell lies in it.
proof fn lemma_num_marked_update(c: Seq<PlayerState>, i: int, p: PlayerState, k: int)
    requires
        0 <= i < c.len(),
        c[i] == PlayerState::Empty,
        p != PlayerState::Empty,
        0 <= k <= c.len(),
    ensures
        num_marked(c.update(i, p), k) == num_marked(c, k) + if i < k {
            1int
        } else {
            0int
        },
    decreases k,
{
    if k > 0 {
        lemma_num_marked_update(c, i, p, k - 1);
    }
}

/// A newly recorded winner means at least three marks on the board (a
/// completed line) or a full board (a tie).
proof fn lemma_winner_marks(c: Seq<PlayerState>, x: int, y: int, n: int)
    requires
        c.len() == 9,
        0 <= x < 3,
        0 <= y < 3,
        crate::sub_board::winner_after(c, x, y, n) is Some,
    ensures
        n == 9 || num_marked(c, 9) >= 3,
{
    reveal_with_fuel(num_marked, 10);
}

/// Each occupied meta-board cell stands for a finished sub-board of at
/// least three marks, so the counters total at least three per occupied
/// meta-board cell.
proof fn lemma_finished_sum(v: LargeBoardV, k: int)
    requires
        lb_wf(v),
        lb_corr(v),
        counts_ok(v),
        0 <= k <= 9,
    ensures
        total_counts(v.boards, k) >= 3 * num_marked(v.state.cells, k),
        total_counts(v.boards, k) >= 0,
    decreases k,
{
    if k > 0 {
        lemma_finished_sum(v, k - 1);
    }
}

/// Replacing one sub-board changes the counters' total by the change of
/// that board's counter.
proof fn lemma_total_counts_update(boards: Seq<SubBoardV>, i: int, sb: SubBoardV, k: int)
    requires
        0 <= i < boards.len(),
        0 <= k <= boards.len(),
    ensures
        total_counts(boards.update(i, sb), k) == total_counts(boards, k) + if i < k {
            sb.count - boards[i].count
        } else {
            0int
        },
    decreases k,
{
    if k > 0 {
        lemma_total_counts_update(boards, i, sb, k - 1);
    }
}

/// A position with so few marks that the meta-game cannot end within
/// the remaining horizon is search-safe: at most eight marks can ever
/// be on the board before the horizon, while a finished meta-game needs
/// at least nine (three finished sub-boards of three marks each).
pub proof fn lemma_search_safe_when_quiet(v: LargeBoardV, depth: int)
    requires
        lb_wf(v),
        lb_corr(v),
        counts_ok(v),
        0 <= depth <= 4,
        total_counts(v.boards, 9) + (4 - depth) <= 8,
    ensures
        search_safe(v, depth),
    decreases 4 - depth,
{
    lemma_finished_sum(v, 9);
    assert(v.state.winner is None) by {
        if v.state.winner is Some {
            assert(num_marked(v.state.cells, 9) >= 3);
            assert(total_counts(v.boards, 9) >= 9);
        }
    }
    if depth < 4 {
        assert forall|j: int, p: bool|
            0 <= j < valid_moves(v).len() implies search_safe(
            #[trigger] lb_make(v, player_of(p), valid_moves(v)[j]),
            depth + 1,
        ) by {
            lemma_valid_moves_members(v);
            let m = valid_moves(v)[j];
            let pl = player_of(p);
            let k = flat(m.large_board);
            let kc = flat(m.sub_board);
            let sb = v.boards[k];
            let sb2 = sub_make(sb, pl, m.sub_board.x as int, m.sub_board.y as int);
            let child = lb_make(v, pl, m);
            crate::sub_board::lemma_sub_make_wf(sb, pl, m.sub_board.x as int, m.sub_board.y as int);
            lemma_num_marked_update(sb.cells, kc, pl, 9);
            assert(sb2.count as int == num_marked(sb2.cells, 9));
            if sb2.winner is Some {
                lemma_winner_marks(sb2.cells, m.sub_board.x as int, m.sub_board.y as int, sb.count + 1 as int);
                assert(sb2.count >= 3);
            }
            lemma_total_counts_update(v.boards, k, sb2, 9);
            assert(total_counts(child.boards, 9) == total_counts(v.boards, 9) + 1);
            if sb2.winner is Some {
                // The move finished its sub-board: the meta-board gains
                // one mark and its counter steps with it.
                let st2 = sub_make(v.state, pl, m.large_board.x as int, m.large_board.y as int);
                crate::sub_board::lemma_sub_make_wf(v.state, pl, m.large_board.x as int, m.large_board.y as int);
                lemma_num_marked_update(v.state.cells, k, pl, 9);
                assert(st2.count as int == num_marked(st2.cells, 9));
                if st2.winner is Some {
                    lemma_winner_marks(st2.cells, m.large_board.x as int, m.large_board.y as int, v.state.count + 1 as int);
                }
                assert(child.state == st2);
                assert(lb_corr(child));
                assert(counts_ok(child));
            } else {
                assert(lb_corr(child));
                assert(counts_ok(child));
            }
            assert(lb_wf(child));
            lemma_search_safe_when_quiet(child, depth + 1);
        }
    }
}

/// A fresh board is search-safe over the whole horizon: the first
/// search of a game can be run and restores the board.
pub proof fn lemma_empty_board_search_safe()
    ensures
        search_safe(lb_empty(), 0),
{
    let v = lb_empty();
    assert(sub_wf(crate::sub_board::sub_empty()));
    assert forall|k: int| 0 <= k < 9 implies (#[trigger] v.boards[k].count) as int == num_marked(
        v.boards[k].cells,
        9,
    ) by {
        reveal_with_fuel(num_marked, 10);
    }
    assert(v.state.count as int == num_marked(v.state.cells, 9)) by {
        reveal_with_fuel(num_marked, 10);
    }
    assert(total_counts(v.boards, 9) == 0) by {
        reveal_with_fuel(total_counts, 10);
    }
    lemma_search_safe_when_quiet(v, 0);
}



/// A fresh board offers a legal move (in fact all eighty-one), so a
/// fresh agent satisfies everything `make_move` asks: the board is
/// search-safe and a move exists.
pub proof fn lemma_empty_board_has_moves()
    ensures
        valid_moves(lb_empty()).len() > 0,
{
    let v = lb_empty();
    reveal_with_fuel(crate::large_board::unfinished_coords_upto, 10);
    let vb = crate::large_board::valid_boards(v);
    assert(vb.len() == 9);
    reveal_with_fuel(crate::sub_board::empty_coords_upto, 10);
    let b0 = vb[0];
    assert(crate::types::flat(b0) == 0);
    let cs = crate::sub_board::empty_coords(v.boards[0].cells);
    assert(cs.len() == 9);
    crate::large_board::lemma_pair_moves_members(b0, cs, 9);
    assert(crate::large_board::board_moves(v.boards, b0).len() == 9);
    assert forall|k: int| 0 <= k <= 9 implies crate::large_board::moves_upto(v.boards, vb, k).len()
        >= if k >= 1 {
        9int
    } else {
        0int
    } by {
        lemma_moves_upto_len_at_least(v.boards, vb, k);
    }
}

/// The concatenated move list only grows with each board taken in, and
/// from the first board of a fresh large board on it holds that board's
/// nine moves.
proof fn lemma_moves_upto_len_at_least(boards: Seq<SubBoardV>, vb: Seq<Coord>, k: int)
    requires
        0 <= k <= vb.len(),
    ensures
        k >= 1 ==> crate::large_board::moves_upto(boards, vb, k).len()
            >= crate::large_board::board_moves(boards, vb[0]).len(),
    decreases k,
{
    if k > 1 {
        lemma_moves_upto_len_at_least(boards, vb, k - 1);
    }
}



/// The opening search: from a fresh board, with the full window, the
/// maximizing search runs safely, explores without a winner's pruning
/// cutting the top level, and always selects a legal move — the same
/// one on every run, the spec being a function of board and tables.
pub proof fn lemma_fresh_board_search_selects(t: TablesV)
    requires
        tables_wf(t),
    ensures
        ({
            let r = spec_minimax(lb_empty(), t, 0, true, isize::MIN as int, isize::MAX as int);
            &&& r.1 is Some
            &&& exists|j: int|
                0 <= j < valid_moves(lb_empty()).len() && r.1 == Some(valid_moves(lb_empty())[j])
        }),
{
    lemma_empty_board_search_safe();
    lemma_empty_board_has_moves();
    lemma_top_level_selects_move(lb_empty(), t);
}


/// The mathematical model of the agent: its game board and its score
/// tables.
#[verifier::ext_equal]
pub struct MinMaxV {
    pub game: LargeBoardV,
    pub tables: TablesV,
}

/// Well-formedness of the agent: a well-formed board and well-formed
/// tables.
pub open spec fn mm_wf(v: MinMaxV) -> bool {
    lb_wf(v.game) && tables_wf(v.tables)
}

/// The minimax agent: the game board it plays on and the two score
/// tables its evaluator consults.
#[derive(Debug)]
pub struct MinMax {
    game: LargeBoard,
    scores: ScoreTables,
}

impl View for MinMax {
    type V = MinMaxV;

    closed spec fn view(&self) -> MinMaxV {
        MinMaxV { game: self.game@, tables: self.scores@ }
    }
}

impl MinMax {
    /// Creates an agent with a fresh board, adopting the supplied
    /// (already validated) score tables.
    pub fn new(scores: ScoreTables) -> (r: MinMax)
        requires
            tables_wf(scores@),
        ensures
            r@.game == lb_empty(),
            r@.tables == scores@,
            mm_wf(r@),
    {
        MinMax { game: LargeBoard::new(), scores }
    }

    /// The evaluator: the sum over all nine sub-boards of their table
    /// entries, plus the meta-board's entry.
    pub fn get_score(&self) -> (r: isize)
        requires
            mm_wf(self@),
        ensures
            r as int == spec_score(self@.game, self@.tables),
            -10 * SCORE_BOUND <= r as int <= 10 * SCORE_BOUND,
    {
        proof {
            crate::score::lemma_spec_score_bound(self@.game, self@.tables);
        }
        let mut score: isize = 0;
        let mut k: usize = 0;
        while k < 9
            invariant
                mm_wf(self@),
                k <= 9,
                score as int == crate::score::sub_scores_sum(
                    self@.game.boards,
                    self@.tables,
                    k as int,
                ),
                -(k as int) * SCORE_BOUND <= score as int <= (k as int) * SCORE_BOUND,
            decreases 9 - k,
        {
            let code = self.game.sub_board_code(k);
            let entry = self.scores.sub_score(code);
            score = score + entry;
            k = k + 1;
        }
        let state_code = self.game.state_board_code();
        score + self.scores.large_score(state_code)
    }

    /// The alpha-beta search: examines the legal moves in order,
    /// applying each, searching one ply deeper with the turn flag
    /// flipped, and reverting it, tightening alpha (maximizing) or beta
    /// (minimizing) and remembering the first best move, pruning once
    /// alpha exceeds beta. Returns the final bound of the side examined
    /// and the remembered move; the board is left exactly as it was.
    pub fn minimax(&mut self, depth: usize, is_agent: bool, alpha: isize, beta: isize) -> (r: (
        isize,
        Option<Move>,
    ))
        requires
            mm_wf(old(self)@),
            search_safe(old(self)@.game, depth as int),
            depth <= SEARCH_DEPTH,
        ensures
            final(self)@ == old(self)@,
            r.0 as int == spec_minimax(
                old(self)@.game,
                old(self)@.tables,
                depth as int,
                is_agent,
                alpha as int,
                beta as int,
            ).0,
            r.1 == spec_minimax(
                old(self)@.game,
                old(self)@.tables,
                depth as int,
                is_agent,
                alpha as int,
                beta as int,
            ).1,
        decreases SEARCH_DEPTH - depth,
    {
        let ghost v0 = old(self)@.game;
        let ghost tab = old(self)@.tables;
        let moves = self.game.get_valid_moves();

        if moves.len() == 0 || depth == SEARCH_DEPTH {
            let score = self.get_score();
            return (score, None);
        }
        let mut alpha_v = alpha;
        let mut beta_v = beta;
        let mut best_move: Option<Move> = None;
        let mut i: usize = 0;
        proof {
            lemma_valid_moves_members(v0);
        }
        while i < moves.len() && alpha_v <= beta_v
            invariant
                mm_wf(self@),
                self@ == old(self)@,
                v0 == old(self)@.game,
                tab == old(self)@.tables,
                depth < SEARCH_DEPTH,
                search_safe(v0, depth as int),
                moves@ == valid_moves(v0),
                moves@.len() > 0,
                i <= moves@.len(),
                spec_minimax_loop(
                    v0,
                    tab,
                    depth as int,
                    is_agent,
                    alpha as int,
                    beta as int,
                    moves@,
                    0,
                    None,
                ) == spec_minimax_loop(
                    v0,
                    tab,
                    depth as int,
                    is_agent,
                    alpha_v as int,
                    beta_v as int,
                    moves@,
                    i as int,
                    best_move,
                ),
            decreases moves@.len() - i,
        {
            let m = moves[i];
            let player = if is_agent {
                PlayerState::Agent
            } else {
                PlayerState::Opponent
            };
            proof {
                lemma_valid_moves_members(v0);
                assert(valid_moves(v0)[i as int] == m);
                assert(move_wf(m));
                assert(v0.boards[flat(m.large_board)].winner is None);
                assert(v0.boards[flat(m.large_board)].cells[flat(m.sub_board)]
                    == PlayerState::Empty);
                assert(v0.state.cells[flat(m.large_board)] == PlayerState::Empty);
                assert(player == player_of(is_agent));
                assert(search_safe(
                    lb_make(v0, player_of(is_agent), valid_moves(v0)[i as int]),
                    depth as int + 1,
                ));
                assert(search_safe(lb_make(v0, player, m), (depth + 1) as int));
            }
            self.game.make_move(player, m);
            let result = self.minimax(depth + 1, !is_agent, alpha_v, beta_v);
            let score = result.0;
            proof {
                let k = flat(m.large_board);
                let v1 = lb_make(v0, player, m);
                assert(self@.game == v1);
                assert(v1.history.last() == m);
                assert(v1.boards[k] == sub_make(
                    v0.boards[k],
                    player,
                    m.sub_board.x as int,
                    m.sub_board.y as int,
                ));
                assert(v1.boards[k].count > 0);
                if v1.boards[k].winner is Some {
                    assert(v1.state == sub_make(
                        v0.state,
                        player,
                        m.large_board.x as int,
                        m.large_board.y as int,
                    ));
                    assert(v1.state.count > 0);
                }
            }
            self.game.undo_move();
            proof {
                if v0.state.winner is Some {
                    assert(!move_finishes(v0, valid_moves(v0)[i as int], player_of(is_agent)));
                }
                lemma_make_undo_identity(v0, player, m);
                assert(self@.game =~= v0);
                assert(self@ =~= old(self)@);
            }
            if is_agent && score > alpha_v {
                alpha_v = score;
                best_move = Some(m);
            } else if !is_agent && score < beta_v {
                beta_v = score;
                best_move = Some(m);
            }
            i = i + 1;
        }
        let best_score = if is_agent {
            alpha_v
        } else {
            beta_v
        };
        (best_score, best_move)
    }
}


/// The agent's fixed opening move: the centre cell of the centre
/// sub-board.
pub open spec fn centre_move() -> Move {
    Move {
        large_board: Coord { x: 1, y: 1 },
        sub_board: Coord { x: 1, y: 1 },
    }
}

impl crate::agent::Agent for MinMax {
    /// Sound whenever the board and the tables are well-formed.
    open spec fn inv(&self) -> bool {
        mm_wf(self@)
    }

    /// The search runs from positions it can restore: every board state
    /// within the horizon admits reversible moves, and at least one
    /// legal move exists.
    open spec fn can_search(&self) -> bool {
        search_safe(self@.game, 0) && valid_moves(self@.game).len() > 0
    }

    /// Any in-range move is taken; legality is the game loop's charge.
    open spec fn accepts(&self, location: Move) -> bool {
        move_wf(location)
    }

    /// Resets to a fresh board, keeping the tables.
    fn init(&mut self)
        ensures
            final(self)@.game == lb_empty(),
            final(self)@.tables == old(self)@.tables,
    {
        self.game = LargeBoard::new();
    }

    /// Runs the search from the current position as the maximizing side
    /// over the full score window, applies the chosen move for the
    /// agent, and returns it.
    fn make_move(&mut self) -> (r: Move)
        ensures
            Some(r) == spec_minimax(
                old(self)@.game,
                old(self)@.tables,
                0,
                true,
                isize::MIN as int,
                isize::MAX as int,
            ).1,
            final(self)@.game == lb_make(old(self)@.game, PlayerState::Agent, r),
            final(self)@.tables == old(self)@.tables,
    {
        proof {
            lemma_top_level_selects_move(old(self)@.game, old(self)@.tables);
            lemma_valid_moves_members(old(self)@.game);
        }
        let result = self.minimax(0, true, isize::MIN, isize::MAX);
        let location = result.1.unwrap();
        proof {
            let r1 = spec_minimax(
                old(self)@.game,
                old(self)@.tables,
                0,
                true,
                isize::MIN as int,
                isize::MAX as int,
            ).1;
            let j = choose|j: int|
                0 <= j < valid_moves(old(self)@.game).len() && r1 == Some(
                    valid_moves(old(self)@.game)[j],
                );
            assert(valid_moves(old(self)@.game)[j] == location);
            assert(move_wf(location));
        }
        self.game.make_move(PlayerState::Agent, location);
        location
    }

    /// Plays the fixed opening move — the centre cell of the centre
    /// sub-board — without searching.
    fn make_first_move(&mut self) -> (r: Move)
        ensures
            r == centre_move(),
            final(self)@.game == lb_make(old(self)@.game, PlayerState::Agent, centre_move()),
            final(self)@.tables == old(self)@.tables,
    {
        let location = Move::new(Coord::new(1, 1), Coord::new(1, 1));
        self.game.make_move(PlayerState::Agent, location);
        location
    }

    /// Applies an externally supplied move as the opponent.
    fn opponent_move(&mut self, location: Move)
        ensures
            final(self)@.game == lb_make(old(self)@.game, PlayerState::Opponent, location),
            final(self)@.tables == old(self)@.tables,
    {
        self.game.make_move(PlayerState::Opponent, location);
    }
}


} // verus!
