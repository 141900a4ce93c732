//! The large board: a 3x3 grid of sub-boards, a meta-board tracking
//! which player owns each sub-board, and the move history that makes
//! move application reversible.

use vstd::prelude::*;
use crate::enums::PlayerState;
use crate::sub_board::{
    empty_coords, sub_empty, sub_make, sub_undo, sub_wf, SubBoard, SubBoardV,
};
use crate::types::{coord_wf, flat, move_wf, Coord, Move};

verus! {

/// The mathematical model of the large board: the nine sub-board models
/// in row-major order, the meta-board model, and the history of played
/// moves.
#[verifier::ext_equal]
pub struct LargeBoardV {
    pub boards: Seq<SubBoardV>,
    pub state: SubBoardV,
    pub history: Seq<Move>,
}

/// Well-formedness of a large-board model: nine well-formed sub-boards,
/// a well-formed meta-board, and a history of in-range moves.
pub open spec fn lb_wf(v: LargeBoardV) -> bool {
    &&& v.boards.len() == 9
    &&& forall|k: int| 0 <= k < 9 ==> sub_wf(#[trigger] v.boards[k])
    &&& sub_wf(v.state)
    &&& forall|i: int| 0 <= i < v.history.len() ==> move_wf(#[trigger] v.history[i])
}

/// The meta-board cell for a sub-board is occupied exactly when that
/// sub-board is finished.
pub open spec fn lb_corr(v: LargeBoardV) -> bool {
    forall|k: int|
        0 <= k < 9 ==> ((#[trigger] v.boards[k].winner) is Some <==> v.state.cells[k]
            != PlayerState::Empty)
}

/// The transition a call of `make_move` performs: the move is applied to
/// its sub-board; if the sub-board becomes finished as a result, the
/// result is propagated into the meta-board at the same coordinate; the
/// move is appended to the history.
pub open spec fn lb_make(v: LargeBoardV, player: PlayerState, m: Move) -> LargeBoardV {
    let k = flat(m.large_board);
    let sb = sub_make(v.boards[k], player, m.sub_board.x as int, m.sub_board.y as int);
    LargeBoardV {
        boards: v.boards.update(k, sb),
        state: if v.boards[k].winner is None && sb.winner is Some {
            sub_make(v.state, player, m.large_board.x as int, m.large_board.y as int)
        } else {
            v.state
        },
        history: v.history.push(m),
    }
}

/// The transition a call of `undo_move` performs: the most recent move
/// is popped and reverted on its sub-board; if that sub-board was
/// finished before the revert and is not finished after, the meta-board
/// cell is reverted too.
pub open spec fn lb_undo(v: LargeBoardV) -> LargeBoardV {
    let m = v.history.last();
    let k = flat(m.large_board);
    let sb = sub_undo(v.boards[k], m.sub_board.x as int, m.sub_board.y as int);
    LargeBoardV {
        boards: v.boards.update(k, sb),
        state: if v.boards[k].winner is Some {
            sub_undo(v.state, m.large_board.x as int, m.large_board.y as int)
        } else {
            v.state
        },
        history: v.history.drop_last(),
    }
}

/// The model of a freshly created large board: nine empty sub-boards, an
/// empty meta-board, no history.
pub open spec fn lb_empty() -> LargeBoardV {
    LargeBoardV {
        boards: Seq::new(9, |k: int| sub_empty()),
        state: sub_empty(),
        history: Seq::empty(),
    }
}

/// The row-major sequence of coordinates of unfinished sub-boards among
/// the first `k`.
pub open spec fn unfinished_coords_upto(boards: Seq<SubBoardV>, k: int) -> Seq<Coord>
    decreases k,
{
    if k <= 0 {
        Seq::empty()
    } else if boards[k - 1].winner is None {
        unfinished_coords_upto(boards, k - 1) + seq![
            Coord { x: ((k - 1) / 3) as usize, y: ((k - 1) % 3) as usize },
        ]
    } else {
        unfinished_coords_upto(boards, k - 1)
    }
}

/// The sub-board coordinates eligible for the next move: exactly the
/// forced coordinate (the cell of the most recent move) while the
/// meta-board reports it unfinished, and every unfinished sub-board's
/// coordinate otherwise.
pub open spec fn valid_boards(v: LargeBoardV) -> Seq<Coord> {
    if v.history.len() > 0 && v.state.cells[flat(v.history.last().sub_board)]
        == PlayerState::Empty {
        seq![v.history.last().sub_board]
    } else {
        unfinished_coords_upto(v.boards, 9)
    }
}

/// The moves pairing the sub-board coordinate `b` with the first `k`
/// cell coordinates of `cs`.
pub open spec fn pair_moves(b: Coord, cs: Seq<Coord>, k: int) -> Seq<Move>
    decreases k,
{
    if k <= 0 {
        Seq::empty()
    } else {
        pair_moves(b, cs, k - 1) + seq![Move { large_board: b, sub_board: cs[k - 1] }]
    }
}

/// All moves into the sub-board at coordinate `b`: its empty cells, in
/// row-major order.
pub open spec fn board_moves(boards: Seq<SubBoardV>, b: Coord) -> Seq<Move> {
    pair_moves(b, empty_coords(boards[flat(b)].cells), empty_coords(boards[flat(b)].cells).len() as int)
}

/// The moves of the first `k` valid boards, concatenated in board-major
/// order.
pub open spec fn moves_upto(boards: Seq<SubBoardV>, vb: Seq<Coord>, k: int) -> Seq<Move>
    decreases k,
{
    if k <= 0 {
        Seq::empty()
    } else {
        moves_upto(boards, vb, k - 1) + board_moves(boards, vb[k - 1])
    }
}

/// The full ordered set of legal moves: each valid board paired with its
/// empty cells, in board-then-cell order.
pub open spec fn valid_moves(v: LargeBoardV) -> Seq<Move> {
    moves_upto(v.boards, valid_boards(v), valid_boards(v).len() as int)
}

/// Every coordinate listed by `unfinished_coords_upto` lies in the grid
/// and names an unfinished sub-board.
pub proof fn lemma_unfinished_coords_members(boards: Seq<SubBoardV>, k: int)
    requires
        boards.len() == 9,
        0 <= k <= 9,
    ensures
        forall|j: int|
            0 <= j < unfinished_coords_upto(boards, k).len() ==> {
                let cc = #[trigger] unfinished_coords_upto(boards, k)[j];
                coord_wf(cc) && boards[flat(cc)].winner is None
            },
    decreases k,
{
    if k > 0 {
        lemma_unfinished_coords_members(boards, k - 1);
    }
}

/// Every coordinate listed by `valid_boards` lies in the grid.
pub proof fn lemma_valid_boards_wf(v: LargeBoardV)
    requires
        lb_wf(v),
    ensures
        forall|j: int| 0 <= j < valid_boards(v).len() ==> coord_wf(#[trigger] valid_boards(v)[j]),
{
    lemma_unfinished_coords_members(v.boards, 9);
}

/// `pair_moves` lists `k` moves, all into board `b`, whose cells are the
/// first `k` cells of `cs` in order.
pub proof fn lemma_pair_moves_members(b: Coord, cs: Seq<Coord>, k: int)
    requires
        0 <= k <= cs.len(),
    ensures
        pair_moves(b, cs, k).len() == k,
        forall|j: int|
            0 <= j < k ==> #[trigger] pair_moves(b, cs, k)[j] == (Move {
                large_board: b,
                sub_board: cs[j],
            }),
    decreases k,
{
    if k > 0 {
        lemma_pair_moves_members(b, cs, k - 1);
    }
}

/// Every move listed by `moves_upto` is in range, targets an unfinished
/// sub-board named by `vb`, an empty cell of it, and an open meta-board
/// cell.
proof fn lemma_moves_upto_members(v: LargeBoardV, vb: Seq<Coord>, k: int)
    requires
        lb_wf(v),
        lb_corr(v),
        0 <= k <= vb.len(),
        forall|i: int|
            0 <= i < vb.len() ==> coord_wf(#[trigger] vb[i]) && v.boards[flat(vb[i])].winner
                is None,
    ensures
        forall|j: int|
            0 <= j < moves_upto(v.boards, vb, k).len() ==> {
                let m = #[trigger] moves_upto(v.boards, vb, k)[j];
                &&& move_wf(m)
                &&& v.boards[flat(m.large_board)].winner is None
                &&& v.boards[flat(m.large_board)].cells[flat(m.sub_board)] == PlayerState::Empty
                &&& v.state.cells[flat(m.large_board)] == PlayerState::Empty
            },
    decreases k,
{
    if k > 0 {
        lemma_moves_upto_members(v, vb, k - 1);
        let b = vb[k - 1];
        let cs = empty_coords(v.boards[flat(b)].cells);
        crate::sub_board::lemma_empty_coords_members(v.boards[flat(b)].cells, 9);
        lemma_pair_moves_members(b, cs, cs.len() as int);
        assert forall|j: int|
            moves_upto(v.boards, vb, k - 1).len() <= j < moves_upto(v.boards, vb, k).len() implies {
            let m = #[trigger] moves_upto(v.boards, vb, k)[j];
            &&& move_wf(m)
            &&& v.boards[flat(m.large_board)].winner is None
            &&& v.boards[flat(m.large_board)].cells[flat(m.sub_board)] == PlayerState::Empty
            &&& v.state.cells[flat(m.large_board)] == PlayerState::Empty
        } by {
            let pre = moves_upto(v.boards, vb, k - 1).len();
            let m = moves_upto(v.boards, vb, k)[j];
            assert(m == pair_moves(b, cs, cs.len() as int)[j - pre]);
            assert(m.sub_board == cs[j - pre]);
        }
    }
}

/// Every legal move is in range and targets an unfinished sub-board, an
/// empty cell of it, and an open meta-board cell.
pub proof fn lemma_valid_moves_members(v: LargeBoardV)
    requires
        lb_wf(v),
        lb_corr(v),
    ensures
        forall|j: int|
            0 <= j < valid_moves(v).len() ==> {
                let m = #[trigger] valid_moves(v)[j];
                &&& move_wf(m)
                &&& v.boards[flat(m.large_board)].winner is None
                &&& v.boards[flat(m.large_board)].cells[flat(m.sub_board)] == PlayerState::Empty
                &&& v.state.cells[flat(m.large_board)] == PlayerState::Empty
            },
{
    let vb = valid_boards(v);
    lemma_unfinished_coords_members(v.boards, 9);
    lemma_moves_upto_members(v, vb, vb.len() as int);
}

/// The large board: the nine sub-boards in row-major order, the history
/// of played moves, and the meta-board.
#[derive(Debug)]
pub struct LargeBoard {
    pub board: Vec<SubBoard>,
    previous_turns: Vec<Move>,
    pub state_board: SubBoard,
}

impl View for LargeBoard {
    type V = LargeBoardV;

    closed spec fn view(&self) -> LargeBoardV {
        LargeBoardV {
            boards: self.board@.map_values(|b: SubBoard| b@),
            state: self.state_board@,
            history: self.previous_turns@,
        }
    }
}

impl LargeBoard {
    /// Creates an empty large board.
    pub fn new() -> (r: LargeBoard)
        ensures
            r@ == lb_empty(),
            lb_wf(r@),
    {
        let mut board: Vec<SubBoard> = Vec::new();
        let mut k: usize = 0;
        while k < 9
            invariant
                k <= 9,
                board@.len() == k,
                forall|i: int| 0 <= i < k ==> #[trigger] board@[i]@ == sub_empty(),
            decreases 9 - k,
        {
            board.push(SubBoard::new());
            k = k + 1;
        }
        let r = LargeBoard { board, previous_turns: Vec::new(), state_board: SubBoard::new() };
        proof {
            assert(r@.boards =~= lb_empty().boards);
            assert(r@.history =~= lb_empty().history);
            assert(r@ =~= lb_empty());
        }
        r
    }

    /// Applies `location` for `player`: the cell move on its sub-board,
    /// propagation into the meta-board if the sub-board becomes finished,
    /// and the history append. Legality (forced board, unfinished
    /// destination) is not validated here; callers are expected to only
    /// submit moves obtained from `get_valid_moves`.
    pub fn make_move(&mut self, player: PlayerState, location: Move)
        requires
            lb_wf(old(self)@),
            move_wf(location),
        ensures
            final(self)@ == lb_make(old(self)@, player, location),
            lb_wf(final(self)@),
    {
        let k = location.large_board.x * 3 + location.large_board.y;
        let mut sub = self.board.remove(k);
        let was_finished = sub.is_finished();
        sub.make_move(player, location.sub_board);
        let now_finished = sub.is_finished();
        proof {
            assert(old(self)@.boards[k as int] == old(self).board@[k as int]@);
        }
        self.board.insert(k, sub);

        if !was_finished && now_finished {
            self.state_board.make_move(player, location.large_board);
        }
        self.previous_turns.push(location);
        proof {
            let target = lb_make(old(self)@, player, location);
            assert(self@.boards =~= target.boards);
            assert(self@ =~= target);
        }
    }

    /// Pops the most recent move from the history and reverts it: the
    /// cell on its sub-board, and the meta-board cell whenever the
    /// sub-board was finished before the revert and is not after.
    pub fn undo_move(&mut self)
        requires
            lb_wf(old(self)@),
            old(self)@.history.len() > 0,
            old(self)@.boards[flat(old(self)@.history.last().large_board)].count > 0,
            old(self)@.boards[flat(old(self)@.history.last().large_board)].winner is Some
                ==> old(self)@.state.count > 0,
        ensures
            final(self)@ == lb_undo(old(self)@),
            lb_wf(final(self)@),
    {
        let last_move_opt = self.previous_turns.pop();
        let last_move = last_move_opt.unwrap();
        let k = last_move.large_board.x * 3 + last_move.large_board.y;
        let mut sub = self.board.remove(k);
        let was_finished = sub.is_finished();
        proof {
            assert(old(self)@.boards[k as int] == old(self).board@[k as int]@);
        }
        sub.undo_move(last_move.sub_board);
        let now_finished = sub.is_finished();
        self.board.insert(k, sub);

        if was_finished && !now_finished {
            self.state_board.undo_move(last_move.large_board);
        }
        proof {
            let target = lb_undo(old(self)@);
            assert(self@.boards =~= target.boards);
            assert(self@.history =~= target.history);
            assert(self@ =~= target);
        }
    }

    /// The numeric code of the sub-board at flat index `k`.
    pub fn sub_board_code(&self, k: usize) -> (r: usize)
        requires
            lb_wf(self@),
            k < 9,
        ensures
            r == crate::sub_board::code_of(self@.boards[k as int].cells),
            r < 19683,
    {
        self.board[k].code()
    }

    /// The numeric code of the meta-board.
    pub fn state_board_code(&self) -> (r: usize)
        requires
            lb_wf(self@),
        ensures
            r == crate::sub_board::code_of(self@.state.cells),
            r < 19683,
    {
        self.state_board.code()
    }

    /// The cell coordinate of the most recent move, if any: the
    /// sub-board the next move is forced into.
    pub fn get_next_board(&self) -> (r: Option<Coord>)
        ensures
            r == if self@.history.len() > 0 {
                Some(self@.history.last().sub_board)
            } else {
                None::<Coord>
            },
    {
        if self.previous_turns.len() > 0 {
            Some(self.previous_turns[self.previous_turns.len() - 1].sub_board)
        } else {
            None
        }
    }

    /// The sub-board coordinates eligible for the next move: exactly the
    /// forced coordinate while the meta-board reports that sub-board
    /// unfinished, and every unfinished sub-board's coordinate otherwise
    /// (also when no move has been played yet).
    pub fn get_valid_boards(&self) -> (r: Vec<Coord>)
        requires
            lb_wf(self@),
        ensures
            r@ == valid_boards(self@),
    {
        if self.previous_turns.len() > 0 {
            let next_board = self.previous_turns[self.previous_turns.len() - 1].sub_board;
            if self.state_board.cell(next_board) == PlayerState::Empty {
                let mut out: Vec<Coord> = Vec::new();
                out.push(next_board);
                proof {
                    assert(out@ =~= valid_boards(self@));
                }
                return out;
            }
        }
        let mut out: Vec<Coord> = Vec::new();
        let mut k: usize = 0;
        while k < 9
            invariant
                k <= 9,
                lb_wf(self@),
                out@ == unfinished_coords_upto(self@.boards, k as int),
            decreases 9 - k,
        {
            if !self.board[k].is_finished() {
                out.push(Coord::new(k / 3, k % 3));
            }
            k = k + 1;
        }
        out
    }

    /// The full ordered set of legal moves: each valid board paired with
    /// that sub-board's empty cells, in board-then-cell order.
    pub fn get_valid_moves(&self) -> (r: Vec<Move>)
        requires
            lb_wf(self@),
        ensures
            r@ == valid_moves(self@),
    {
        let valid = self.get_valid_boards();
        proof {
            lemma_valid_boards_wf(self@);
        }
        let mut out: Vec<Move> = Vec::new();
        let mut i: usize = 0;
        while i < valid.len()
            invariant
                i <= valid.len(),
                lb_wf(self@),
                valid@ == valid_boards(self@),
                forall|j: int| 0 <= j < valid@.len() ==> coord_wf(#[trigger] valid@[j]),
                out@ == moves_upto(self@.boards, valid@, i as int),
            decreases valid.len() - i,
        {
            let b = valid[i];
            let sub = &self.board[b.x * 3 + b.y];
            proof {
                assert(sub@ == self@.boards[flat(b)]);
            }
            let cells = sub.get_valid_moves();
            let mut j: usize = 0;
            while j < cells.len()
                invariant
                    j <= cells.len(),
                    i < valid@.len(),
                    coord_wf(b),
                    b == valid@[i as int],
                    cells@ == empty_coords(self@.boards[flat(b)].cells),
                    out@ == moves_upto(self@.boards, valid@, i as int) + pair_moves(
                        b,
                        cells@,
                        j as int,
                    ),
                decreases cells.len() - j,
            {
                out.push(Move::new(b, cells[j]));
                j = j + 1;
            }
            proof {
                assert(out@ =~= moves_upto(self@.boards, valid@, i as int + 1));
            }
            i = i + 1;
        }
        out
    }
}

/// Reverting a just-applied legal move restores the large board exactly:
/// `undo_move` after `make_move` is the identity, cell by cell and
/// including the meta-board, provided the move is legal (its sub-board
/// unfinished, its cell empty), the meta-board agrees that the target is
/// open, and the meta-game has not already ended in a way the move's
/// propagation cannot record.
pub proof fn lemma_make_undo_identity(v: LargeBoardV, player: PlayerState, m: Move)
    requires
        lb_wf(v),
        move_wf(m),
        v.boards[flat(m.large_board)].winner is None,
        v.boards[flat(m.large_board)].cells[flat(m.sub_board)] == PlayerState::Empty,
        v.state.cells[flat(m.large_board)] == PlayerState::Empty,
        v.state.winner is Some ==> sub_make(
            v.boards[flat(m.large_board)],
            player,
            m.sub_board.x as int,
            m.sub_board.y as int,
        ).winner is None,
    ensures
        lb_undo(lb_make(v, player, m)) == v,
{
    let k = flat(m.large_board);
    let kc = flat(m.sub_board);
    let v1 = lb_make(v, player, m);
    let v2 = lb_undo(v1);
    assert(v1.history.last() == m);
    assert(v1.history.drop_last() =~= v.history);
    let sb = v.boards[k];
    let sb1 = sub_make(sb, player, m.sub_board.x as int, m.sub_board.y as int);
    assert(v1.boards[k] == sb1);
    let sb2 = sub_undo(sb1, m.sub_board.x as int, m.sub_board.y as int);
    assert(sb1.cells == sb.cells.update(kc, player));
    assert(sb2.cells =~= sb.cells);
    assert(sb2 =~= sb);
    assert(v2.boards =~= v.boards);
    if sb1.winner is Some {
        // The move finished its sub-board, so the meta-board cell was
        // set and the undo reverts it.
        assert(v.state.winner is None);
        let st1 = sub_make(v.state, player, m.large_board.x as int, m.large_board.y as int);
        assert(v1.state == st1);
        let st2 = sub_undo(st1, m.large_board.x as int, m.large_board.y as int);
        assert(st1.cells == v.state.cells.update(k, player));
        assert(st2.cells =~= v.state.cells);
        assert(st2 =~= v.state);
        assert(v2.state =~= v.state);
    } else {
        assert(v2.state =~= v.state);
    }
    assert(v2 =~= v);
}

} // verus!
