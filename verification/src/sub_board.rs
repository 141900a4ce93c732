//! A single 3x3 tic-tac-toe board with reversible move application and
//! win/tie detection. The large board reuses this type to track which
//! player owns each sub-board.

use vstd::prelude::*;
use vstd::string::StringExecFns;
use crate::enums::{spec_board_state_of, player_chars, BoardState, PlayerState};
use crate::types::{coord_wf, Coord};

verus! {

/// The mathematical model of a sub-board: its nine cells in row-major
/// order, the recorded winner (if any), and the move counter.
#[verifier::ext_equal]
pub struct SubBoardV {
    pub cells: Seq<PlayerState>,
    pub winner: Option<BoardState>,
    pub count: nat,
}

/// Row `x` is completed by one player.
pub open spec fn row_win(c: Seq<PlayerState>, x: int) -> bool {
    c[x * 3] != PlayerState::Empty && c[x * 3 + 1] == c[x * 3] && c[x * 3 + 2] == c[x * 3]
}

/// Column `y` is completed by one player.
pub open spec fn col_win(c: Seq<PlayerState>, y: int) -> bool {
    c[y] != PlayerState::Empty && c[3 + y] == c[y] && c[6 + y] == c[y]
}

/// The top-left to bottom-right diagonal is completed by one player.
pub open spec fn diag_win(c: Seq<PlayerState>) -> bool {
    c[0] != PlayerState::Empty && c[4] == c[0] && c[8] == c[0]
}

/// The top-right to bottom-left diagonal is completed by one player.
pub open spec fn anti_win(c: Seq<PlayerState>) -> bool {
    c[2] != PlayerState::Empty && c[4] == c[2] && c[6] == c[2]
}

/// No row, column or diagonal of the board is completed.
pub open spec fn no_line_win(c: Seq<PlayerState>) -> bool {
    &&& forall|x: int| 0 <= x < 3 ==> !row_win(c, x)
    &&& forall|y: int| 0 <= y < 3 ==> !col_win(c, y)
    &&& !diag_win(c)
    &&& !anti_win(c)
}

/// The winner recorded after a move at (`x`, `y`) on cells `c` with move
/// counter `count`: the row through the move is evaluated first, then the
/// column, then the two diagonals, in that fixed order; if no line is
/// completed and the board is full, the result is a tie.
pub open spec fn winner_after(c: Seq<PlayerState>, x: int, y: int, count: int) -> Option<
    BoardState,
> {
    if row_win(c, x) {
        Some(spec_board_state_of(c[x * 3]))
    } else if col_win(c, y) {
        Some(spec_board_state_of(c[y]))
    } else if diag_win(c) {
        Some(spec_board_state_of(c[0]))
    } else if anti_win(c) {
        Some(spec_board_state_of(c[2]))
    } else if count == 9 {
        Some(BoardState::Tie)
    } else {
        None
    }
}

/// Well-formedness of a sub-board model: nine cells, the counter within
/// bounds, a winner recorded whenever the board is full, never the
/// `Undecided` classification, and no winner on an empty board.
pub open spec fn sub_wf(v: SubBoardV) -> bool {
    &&& v.cells.len() == 9
    &&& v.count <= 9
    &&& (v.winner is None ==> v.count < 9)
    &&& (v.winner is Some ==> v.count > 0)
    &&& v.winner != Some(BoardState::Undecided)
}

/// The transition a call of `make_move` performs: a no-op on a finished
/// board; otherwise the cell is set, the counter incremented, and the
/// winner re-evaluated for the lines through the move.
pub open spec fn sub_make(v: SubBoardV, player: PlayerState, x: int, y: int) -> SubBoardV {
    if v.winner is Some {
        v
    } else {
        let cells = v.cells.update(x * 3 + y, player);
        SubBoardV {
            cells,
            winner: winner_after(cells, x, y, v.count + 1 as int),
            count: (v.count + 1) as nat,
        }
    }
}

/// The transition a call of `undo_move` performs: the cell is cleared,
/// the counter decremented, and the winner unconditionally cleared.
pub open spec fn sub_undo(v: SubBoardV, x: int, y: int) -> SubBoardV {
    SubBoardV {
        cells: v.cells.update(x * 3 + y, PlayerState::Empty),
        winner: None,
        count: (v.count - 1) as nat,
    }
}

/// The model of a freshly created sub-board: all cells empty, no winner,
/// counter zero.
pub open spec fn sub_empty() -> SubBoardV {
    SubBoardV { cells: Seq::new(9, |i: int| PlayerState::Empty), winner: None, count: 0 }
}

/// A move on a well-formed board yields a well-formed board.
pub proof fn lemma_sub_make_wf(v: SubBoardV, player: PlayerState, x: int, y: int)
    requires
        sub_wf(v),
        0 <= x < 3,
        0 <= y < 3,
    ensures
        sub_wf(sub_make(v, player, x, y)),
{
}

/// The row-major sequence of coordinates of empty cells among the first
/// `k` cells.
pub open spec fn empty_coords_upto(c: Seq<PlayerState>, k: int) -> Seq<Coord>
    decreases k,
{
    if k <= 0 {
        Seq::empty()
    } else if c[k - 1] == PlayerState::Empty {
        empty_coords_upto(c, k - 1) + seq![
            Coord { x: ((k - 1) / 3) as usize, y: ((k - 1) % 3) as usize },
        ]
    } else {
        empty_coords_upto(c, k - 1)
    }
}

/// The row-major sequence of coordinates of all empty cells.
pub open spec fn empty_coords(c: Seq<PlayerState>) -> Seq<Coord> {
    empty_coords_upto(c, 9)
}

/// Every coordinate listed by `empty_coords_upto` lies in the grid and
/// names an empty cell.
pub proof fn lemma_empty_coords_members(c: Seq<PlayerState>, k: int)
    requires
        c.len() == 9,
        0 <= k <= 9,
    ensures
        forall|j: int|
            0 <= j < empty_coords_upto(c, k).len() ==> {
                let cc = #[trigger] empty_coords_upto(c, k)[j];
                coord_wf(cc) && c[cc.x * 3 + cc.y] == PlayerState::Empty
            },
    decreases k,
{
    if k > 0 {
        lemma_empty_coords_members(c, k - 1);
    }
}

/// The comma-joined encoding of the first `k` cells.
pub open spec fn encoding_upto(c: Seq<PlayerState>, k: int) -> Seq<char>
    decreases k,
{
    if k <= 0 {
        Seq::empty()
    } else if k == 1 {
        player_chars(c[0])
    } else {
        encoding_upto(c, k - 1) + seq![','] + player_chars(c[k - 1])
    }
}

/// The canonical encoding of a board: the nine cell identities written
/// as `1`, `0` or `-1`, joined by commas, in row-major order.
pub open spec fn encoding(c: Seq<PlayerState>) -> Seq<char> {
    encoding_upto(c, 9)
}

/// The digit a cell occupant contributes to a board's numeric code.
pub open spec fn player_digit(p: PlayerState) -> int {
    match p {
        PlayerState::Empty => 0,
        PlayerState::Agent => 1,
        PlayerState::Opponent => 2,
    }
}

/// The base-3 code of the first `k` cells, most significant first.
pub open spec fn code_upto(c: Seq<PlayerState>, k: int) -> int
    decreases k,
{
    if k <= 0 {
        0
    } else {
        code_upto(c, k - 1) * 3 + player_digit(c[k - 1])
    }
}

/// The numeric code of a board: its nine cells read as a base-3 number.
/// Distinct cell layouts have distinct codes, so a code indexes a score
/// table entry exactly as the string encoding keys one.
pub open spec fn code_of(c: Seq<PlayerState>) -> int {
    code_upto(c, 9)
}

/// Powers of three.
pub open spec fn pow3(k: int) -> int
    decreases k,
{
    if k <= 0 {
        1
    } else {
        3 * pow3(k - 1)
    }
}

/// The code of a `k`-cell prefix lies below `pow3(k)`; in particular a
/// full board's code lies in [0, 19683).
pub proof fn lemma_code_bound(c: Seq<PlayerState>, k: int)
    requires
        0 <= k <= 9,
    ensures
        0 <= code_upto(c, k) < pow3(k),
        pow3(k) <= 19683,
    decreases k,
{
    reveal_with_fuel(pow3, 11);
    if k > 0 {
        lemma_code_bound(c, k - 1);
    }
}

/// A single 3x3 board: cells in row-major order, a cached winner, and a
/// move counter.
#[derive(Debug)]
pub struct SubBoard {
    cells: Vec<PlayerState>,
    winner: Option<BoardState>,
    move_count: usize,
}

impl View for SubBoard {
    type V = SubBoardV;

    closed spec fn view(&self) -> SubBoardV {
        SubBoardV { cells: self.cells@, winner: self.winner, count: self.move_count as nat }
    }
}

impl SubBoard {
    /// Creates an empty board.
    pub fn new() -> (r: SubBoard)
        ensures
            r@ == sub_empty(),
            sub_wf(r@),
    {
        let mut cells: Vec<PlayerState> = Vec::new();
        let mut i: usize = 0;
        while i < 9
            invariant
                i <= 9,
                cells@ =~= Seq::new(i as nat, |j: int| PlayerState::Empty),
            decreases 9 - i,
        {
            cells.push(PlayerState::Empty);
            i = i + 1;
        }
        let r = SubBoard { cells, winner: None, move_count: 0 };
        assert(r@ =~= sub_empty());
        r
    }

    /// The occupant of the cell at `location`.
    pub fn cell(&self, location: Coord) -> (r: PlayerState)
        requires
            self@.cells.len() == 9,
            coord_wf(location),
        ensures
            r == self@.cells[location.x * 3 + location.y],
    {
        self.cells[location.x * 3 + location.y]
    }

    /// The recorded winner classification, if the board is finished.
    pub fn winner(&self) -> (r: Option<BoardState>)
        ensures
            r == self@.winner,
    {
        self.winner
    }

    /// True iff a winner (including a tie) has been recorded.
    pub fn is_finished(&self) -> (r: bool)
        ensures
            r == (self@.winner is Some),
    {
        self.winner.is_some()
    }

    /// Records a winner if row `x` is completed.
    fn check_row(&mut self, x: usize)
        requires
            old(self)@.cells.len() == 9,
            x < 3,
        ensures
            final(self)@.cells == old(self)@.cells,
            final(self)@.count == old(self)@.count,
            final(self)@.winner == if row_win(old(self)@.cells, x as int) {
                Some(spec_board_state_of(old(self)@.cells[x * 3]))
            } else {
                old(self)@.winner
            },
    {
        let player = self.cells[x * 3];
        if player == PlayerState::Empty {
            return ;
        }
        if self.cells[x * 3 + 1] == player && self.cells[x * 3 + 2] == player {
            self.winner = Some(BoardState::from_player_state(player));
        }
    }

    /// Records a winner if column `y` is completed.
    fn check_column(&mut self, y: usize)
        requires
            old(self)@.cells.len() == 9,
            y < 3,
        ensures
            final(self)@.cells == old(self)@.cells,
            final(self)@.count == old(self)@.count,
            final(self)@.winner == if col_win(old(self)@.cells, y as int) {
                Some(spec_board_state_of(old(self)@.cells[y as int]))
            } else {
                old(self)@.winner
            },
    {
        let player = self.cells[y];
        if player == PlayerState::Empty {
            return ;
        }
        if self.cells[3 + y] == player && self.cells[6 + y] == player {
            self.winner = Some(BoardState::from_player_state(player));
        }
    }

    /// Records a winner if the top-left to bottom-right diagonal is
    /// completed.
    fn check_ltr_diagonal(&mut self)
        requires
            old(self)@.cells.len() == 9,
        ensures
            final(self)@.cells == old(self)@.cells,
            final(self)@.count == old(self)@.count,
            final(self)@.winner == if diag_win(old(self)@.cells) {
                Some(spec_board_state_of(old(self)@.cells[0]))
            } else {
                old(self)@.winner
            },
    {
        let player = self.cells[0];
        if player == PlayerState::Empty {
            return ;
        }
        if self.cells[4] == player && self.cells[8] == player {
            self.winner = Some(BoardState::from_player_state(player));
        }
    }

    /// Records a winner if the top-right to bottom-left diagonal is
    /// completed.
    fn check_rtl_diagonal(&mut self)
        requires
            old(self)@.cells.len() == 9,
        ensures
            final(self)@.cells == old(self)@.cells,
            final(self)@.count == old(self)@.count,
            final(self)@.winner == if anti_win(old(self)@.cells) {
                Some(spec_board_state_of(old(self)@.cells[2]))
            } else {
                old(self)@.winner
            },
    {
        let player = self.cells[2];
        if player == PlayerState::Empty {
            return ;
        }
        if self.cells[4] == player && self.cells[6] == player {
            self.winner = Some(BoardState::from_player_state(player));
        }
    }

    /// Places `player` at `location` and re-evaluates the winner; a
    /// no-op if the board is already finished.
    pub fn make_move(&mut self, player: PlayerState, location: Coord)
        requires
            sub_wf(old(self)@),
            coord_wf(location),
        ensures
            final(self)@ == sub_make(old(self)@, player, location.x as int, location.y as int),
            sub_wf(final(self)@),
    {
        proof {
            lemma_sub_make_wf(old(self)@, player, location.x as int, location.y as int);
        }
        if self.is_finished() {
            return ;
        }
        self.cells.set(location.x * 3 + location.y, player);
        self.move_count = self.move_count + 1;

        self.check_row(location.x);
        if !self.is_finished() {
            self.check_column(location.y);
        }
        if !self.is_finished() {
            self.check_ltr_diagonal();
        }
        if !self.is_finished() {
            self.check_rtl_diagonal();
        }
        if !self.is_finished() && self.move_count == 9 {
            self.winner = Some(BoardState::Tie);
        }
    }

    /// Clears `location`, decrements the counter, and unconditionally
    /// clears the recorded winner. The caller must only undo the most
    /// recently applied move.
    pub fn undo_move(&mut self, location: Coord)
        requires
            sub_wf(old(self)@),
            coord_wf(location),
            old(self)@.count > 0,
        ensures
            final(self)@ == sub_undo(old(self)@, location.x as int, location.y as int),
            sub_wf(final(self)@),
    {
        self.cells.set(location.x * 3 + location.y, PlayerState::Empty);
        self.move_count = self.move_count - 1;
        self.winner = None;
    }

    /// The row-major sequence of coordinates of all empty cells.
    pub fn get_valid_moves(&self) -> (r: Vec<Coord>)
        requires
            self@.cells.len() == 9,
        ensures
            r@ == empty_coords(self@.cells),
    {
        let mut out: Vec<Coord> = Vec::new();
        let mut k: usize = 0;
        while k < 9
            invariant
                k <= 9,
                self@.cells.len() == 9,
                out@ == empty_coords_upto(self@.cells, k as int),
            decreases 9 - k,
        {
            if self.cells[k] == PlayerState::Empty {
                out.push(Coord::new(k / 3, k % 3));
            }
            k = k + 1;
        }
        out
    }

    /// The numeric code of this board's cells, in [0, 19683): the index
    /// of its score-table entry.
    pub fn code(&self) -> (r: usize)
        requires
            self@.cells.len() == 9,
        ensures
            r == code_of(self@.cells),
            r < 19683,
    {
        cells_code(&self.cells)
    }

    /// The canonical comma-joined encoding of the nine cells, used as a
    /// score-table key.
    pub fn to_string(&self) -> (r: String)
        requires
            self@.cells.len() == 9,
        ensures
            r@ == encoding(self@.cells),
    {
        proof {
            reveal_strlit(",");
        }
        let mut out = String::new();
        let mut k: usize = 0;
        while k < 9
            invariant
                k <= 9,
                self@.cells.len() == 9,
                out@ == encoding_upto(self@.cells, k as int),
                ","@ == seq![','],
            decreases 9 - k,
        {
            if k > 0 {
                out.append(",");
            }
            let cell = self.cells[k];
            let text = cell.to_string();
            out.append(text.as_str());
            k = k + 1;
        }
        out
    }
}

/// Completing a row wins the board at once: whenever the other two cells
/// of row `x` already hold the agent's mark and the agent is placed at
/// (`x`, `y`), the board reports the agent as winner, regardless of the
/// order in which the row was filled.
pub proof fn lemma_completing_row_wins(v: SubBoardV, x: int, y: int)
    requires
        sub_wf(v),
        v.winner is None,
        0 <= x < 3,
        0 <= y < 3,
        forall|j: int| 0 <= j < 3 && j != y ==> #[trigger] v.cells[x * 3 + j]
            == PlayerState::Agent,
    ensures
        sub_make(v, PlayerState::Agent, x, y).winner == Some(BoardState::Agent),
        sub_make(v, PlayerState::Agent, x, y).winner is Some,
{
    let c = v.cells.update(x * 3 + y, PlayerState::Agent);
    assert(0 != y ==> v.cells[x * 3 + 0] == PlayerState::Agent);
    assert(1 != y ==> v.cells[x * 3 + 1] == PlayerState::Agent);
    assert(2 != y ==> v.cells[x * 3 + 2] == PlayerState::Agent);
    assert(c[x * 3] == PlayerState::Agent);
    assert(c[x * 3 + 1] == PlayerState::Agent);
    assert(c[x * 3 + 2] == PlayerState::Agent);
}

/// Filling the last cell of a board on which no line is completed
/// records a tie.
pub proof fn lemma_filling_without_line_ties(v: SubBoardV, player: PlayerState, x: int, y: int)
    requires
        sub_wf(v),
        v.winner is None,
        v.count == 8,
        0 <= x < 3,
        0 <= y < 3,
        no_line_win(v.cells.update(x * 3 + y, player)),
    ensures
        sub_make(v, player, x, y).winner == Some(BoardState::Tie),
{
}


/// A shorter prefix of the encoding is a prefix of a longer one.
pub proof fn lemma_encoding_upto_prefix(c: Seq<PlayerState>, k: int, n: int)
    requires
        0 <= k <= n <= 9,
    ensures
        encoding_upto(c, k).len() <= encoding_upto(c, n).len(),
        forall|idx: int|
            0 <= idx < encoding_upto(c, k).len() ==> encoding_upto(c, n)[idx] == encoding_upto(
                c,
                k,
            )[idx],
    decreases n - k,
{
    if k < n {
        lemma_encoding_upto_prefix(c, k + 1, n);
    }
}

/// Parses a score-table key: the comma-joined encoding of nine cell
/// identities, each `1`, `0` or `-1`. Returns the cells exactly when the
/// key is such an encoding: a `Some` result re-encodes to the key, and
/// any cell layout whose encoding equals the key is returned. (So the
/// encoding is injective: a key names at most one layout.)
#[verifier::rlimit(60)]
pub fn decode_key(chars: &Vec<char>) -> (r: Option<Vec<PlayerState>>)
    ensures
        match r {
            Some(cells) => cells@.len() == 9 && encoding(cells@) == chars@,
            None => true,
        },
        forall|c: Seq<PlayerState>|
            c.len() == 9 && chars@ == encoding(c) ==> (r matches Some(cells) && cells@ == c),
{
    let mut out: Vec<PlayerState> = Vec::new();
    let mut p: usize = 0;
    let mut k: usize = 0;
    while k < 9
        invariant
            k <= 9,
            out@.len() == k,
            p <= chars@.len(),
            chars@ == encoding_upto(out@, k as int) + chars@.subrange(p as int, chars@.len() as int),
            p == encoding_upto(out@, k as int).len(),
            forall|c: Seq<PlayerState>|
                c.len() == 9 && chars@ == encoding(c) ==> c.subrange(0, k as int) =~= out@,
        decreases 9 - k,
    {
        let ghost out0 = out@;
        let ghost p0 = p as int;
        proof {
            assert forall|c: Seq<PlayerState>|
                c.len() == 9 && chars@ == encoding(c) implies encoding_upto(c, k as int)
                == encoding_upto(out0, k as int) by {
                assert(c.subrange(0, k as int) =~= out0);
                assert forall|i: int| 0 <= i < k as int implies c[i] == out0[i] by {
                    assert(c.subrange(0, k as int)[i] == c[i]);
                }
                lemma_encoding_upto_agrees(c, out0, k as int);
            }
        }
        if k > 0 {
            if p >= chars.len() || chars[p] != ',' {
                proof {
                    assert forall|c: Seq<PlayerState>|
                        c.len() == 9 && chars@ == encoding(c) implies false by {
                        lemma_encoding_upto_prefix(c, k as int + 1, 9);
                        assert(encoding_upto(c, k as int + 1) =~= encoding_upto(c, k as int)
                            + seq![','] + player_chars(c[k as int]));
                        assert(encoding(c)[p0] == ',');
                    }
                }
                return None;
            }
            p = p + 1;
        }
        let ghost sep: Seq<char> = if k > 0 {
            seq![',']
        } else {
            Seq::empty()
        };
        let ghost p1 = p as int;
        proof {
            assert forall|c: Seq<PlayerState>|
                c.len() == 9 && chars@ == encoding(c) implies p1 + player_chars(c[k as int]).len()
                <= chars@.len() && (forall|q: int|
                0 <= q < player_chars(c[k as int]).len() ==> chars@[p1 + q] == player_chars(
                    c[k as int],
                )[q]) by {
                lemma_encoding_upto_prefix(c, k as int + 1, 9);
                assert(encoding_upto(c, k as int + 1) =~= encoding_upto(c, k as int) + sep
                    + player_chars(c[k as int]));
            }
        }
        let cell: PlayerState;
        if p < chars.len() && chars[p] == '1' {
            cell = PlayerState::Agent;
            p = p + 1;
        } else if p < chars.len() && chars[p] == '0' {
            cell = PlayerState::Empty;
            p = p + 1;
        } else if chars.len() - p >= 2 && chars[p] == '-' && chars[p + 1] == '1' {
            cell = PlayerState::Opponent;
            p = p + 2;
        } else {
            proof {
                assert forall|c: Seq<PlayerState>|
                    c.len() == 9 && chars@ == encoding(c) implies false by {
                    assert(chars@[p1] == player_chars(c[k as int])[0]);
                }
            }
            return None;
        }
        out.push(cell);
        proof {
            lemma_encoding_upto_agrees(out0, out@, k as int);
            assert(out@[k as int] == cell);
            assert(encoding_upto(out@, k as int + 1) =~= encoding_upto(out0, k as int) + sep
                + player_chars(cell));
            assert(chars@.subrange(p0, chars@.len() as int) =~= sep + player_chars(cell)
                + chars@.subrange(p as int, chars@.len() as int));
            assert(chars@ =~= encoding_upto(out@, k as int + 1) + chars@.subrange(
                p as int,
                chars@.len() as int,
            ));
            assert forall|c: Seq<PlayerState>|
                c.len() == 9 && chars@ == encoding(c) implies c.subrange(0, k as int + 1) =~= out@
                by {
                assert(chars@[p1] == player_chars(c[k as int])[0]);
                if c[k as int] == PlayerState::Opponent {
                    assert(chars@[p1 + 1] == player_chars(c[k as int])[1]);
                }
                assert(c[k as int] == cell);
                assert(c.subrange(0, k as int) =~= out0);
                assert forall|i: int| 0 <= i < k as int + 1 implies c.subrange(
                    0,
                    k as int + 1,
                )[i] == out@[i] by {
                    if i < k as int {
                        assert(c.subrange(0, k as int)[i] == c[i]);
                    }
                }
            }
        }
        k = k + 1;
    }
    if p != chars.len() {
        proof {
            assert forall|c: Seq<PlayerState>|
                c.len() == 9 && chars@ == encoding(c) implies false by {
                assert(c.subrange(0, 9) =~= c);
                assert forall|i: int| 0 <= i < 9 implies c[i] == out@[i] by {
                    assert(c.subrange(0, 9)[i] == c[i]);
                }
                lemma_encoding_upto_agrees(c, out@, 9);
            }
        }
        return None;
    }
    proof {
        assert(encoding(out@) =~= chars@);
        assert forall|c: Seq<PlayerState>|
            c.len() == 9 && chars@ == encoding(c) implies c =~= out@ by {
            assert(c.subrange(0, 9) =~= c);
        }
    }
    Some(out)
}

/// Sequences that agree on their first `k` cells have the same `k`-cell
/// encoding prefix.
pub proof fn lemma_encoding_upto_agrees(a: Seq<PlayerState>, b: Seq<PlayerState>, k: int)
    requires
        forall|i: int| 0 <= i < k ==> a[i] == b[i],
    ensures
        encoding_upto(a, k) == encoding_upto(b, k),
    decreases k,
{
    if k > 0 {
        lemma_encoding_upto_agrees(a, b, k - 1);
    }
}


/// The numeric code of a nine-cell layout, in [0, 19683): the index of
/// its score-table entry.
pub fn cells_code(cells: &Vec<PlayerState>) -> (r: usize)
    requires
        cells@.len() == 9,
    ensures
        r == code_of(cells@),
        r < 19683,
{
    proof {
        lemma_code_bound(cells@, 9);
    }
    let mut acc: usize = 0;
    let mut k: usize = 0;
    while k < 9
        invariant
            k <= 9,
            cells@.len() == 9,
            acc == code_upto(cells@, k as int),
            acc < 19683,
        decreases 9 - k,
    {
        proof {
            lemma_code_bound(cells@, k as int + 1);
        }
        let digit: usize = match cells[k] {
            PlayerState::Empty => 0,
            PlayerState::Agent => 1,
            PlayerState::Opponent => 2,
        };
        acc = acc * 3 + digit;
        k = k + 1;
    }
    acc
}

} // verus!
