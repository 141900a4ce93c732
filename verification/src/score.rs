//! The evaluator's configuration: two immutable score tables, one entry
//! per sub-board configuration and one per meta-board configuration,
//! indexed by the boards' numeric codes.

use vstd::prelude::*;
use crate::large_board::LargeBoardV;
use crate::sub_board::{code_of, SubBoardV};

verus! {

/// Every table entry lies within this magnitude, so that the sum of the
/// ten lookups of one evaluation cannot overflow.
pub const SCORE_BOUND: isize = 100_000_000;

/// One entry per cell layout of a 3x3 board: 3^9.
pub const TABLE_SIZE: usize = 19683;

/// The mathematical model of the score tables.
#[verifier::ext_equal]
pub struct TablesV {
    pub sub: Seq<isize>,
    pub large: Seq<isize>,
}

/// Well-formedness of the tables: one entry per board code, every entry
/// within `SCORE_BOUND`.
pub open spec fn tables_wf(t: TablesV) -> bool {
    &&& t.sub.len() == TABLE_SIZE
    &&& t.large.len() == TABLE_SIZE
    &&& forall|i: int|
        0 <= i < TABLE_SIZE ==> -SCORE_BOUND <= #[trigger] t.sub[i] <= SCORE_BOUND
    &&& forall|i: int|
        0 <= i < TABLE_SIZE ==> -SCORE_BOUND <= #[trigger] t.large[i] <= SCORE_BOUND
}

/// Why a pair of candidate tables was rejected.
#[derive(Clone, Copy, Debug, PartialEq, Eq, Structural)]
pub enum TableError {
    SubBoardLength,
    LargeBoardLength,
    SubBoardScoreRange,
    LargeBoardScoreRange,
}

/// Every entry of `s` lies within `SCORE_BOUND`.
pub open spec fn scores_in_range(s: Seq<isize>) -> bool {
    forall|i: int| 0 <= i < s.len() ==> -SCORE_BOUND <= #[trigger] s[i] <= SCORE_BOUND
}

/// The sum of the sub-board table entries of the first `k` sub-boards.
pub open spec fn sub_scores_sum(boards: Seq<SubBoardV>, t: TablesV, k: int) -> int
    decreases k,
{
    if k <= 0 {
        0
    } else {
        sub_scores_sum(boards, t, k - 1) + t.sub[code_of(boards[k - 1].cells)]
    }
}

/// The static evaluation of a board position: the sum over all nine
/// sub-boards of their table entries, plus the meta-board's entry.
pub open spec fn spec_score(v: LargeBoardV, t: TablesV) -> int {
    sub_scores_sum(v.boards, t, 9) + t.large[code_of(v.state.cells)]
}

/// The partial sums of the evaluation are bounded by one `SCORE_BOUND`
/// per summand.
pub proof fn lemma_sub_scores_sum_bound(boards: Seq<SubBoardV>, t: TablesV, k: int)
    requires
        tables_wf(t),
        boards.len() == 9,
        0 <= k <= 9,
        forall|i: int| 0 <= i < 9 ==> (#[trigger] boards[i].cells).len() == 9,
    ensures
        -k * SCORE_BOUND <= sub_scores_sum(boards, t, k) <= k * SCORE_BOUND,
    decreases k,
{
    if k > 0 {
        lemma_sub_scores_sum_bound(boards, t, k - 1);
        crate::sub_board::lemma_code_bound(boards[k - 1].cells, 9);
    }
}

/// The evaluation of any position under well-formed tables stays within
/// ten `SCORE_BOUND`s.
pub proof fn lemma_spec_score_bound(v: LargeBoardV, t: TablesV)
    requires
        tables_wf(t),
        v.boards.len() == 9,
        forall|i: int| 0 <= i < 9 ==> (#[trigger] v.boards[i].cells).len() == 9,
        v.state.cells.len() == 9,
    ensures
        -10 * SCORE_BOUND <= spec_score(v, t) <= 10 * SCORE_BOUND,
{
    lemma_sub_scores_sum_bound(v.boards, t, 9);
    crate::sub_board::lemma_code_bound(v.state.cells, 9);
}

/// The two score tables, validated at construction and immutable
/// afterwards: sub-board code to score, and meta-board code to score.
#[derive(Debug)]
pub struct ScoreTables {
    sub_board_scores: Vec<isize>,
    large_board_scores: Vec<isize>,
}

impl View for ScoreTables {
    type V = TablesV;

    closed spec fn view(&self) -> TablesV {
        TablesV { sub: self.sub_board_scores@, large: self.large_board_scores@ }
    }
}

/// True iff every entry lies within `SCORE_BOUND`.
fn check_scores_in_range(s: &Vec<isize>) -> (r: bool)
    ensures
        r == scores_in_range(s@),
{
    let mut i: usize = 0;
    while i < s.len()
        invariant
            i <= s.len(),
            forall|j: int| 0 <= j < i ==> -SCORE_BOUND <= #[trigger] s@[j] <= SCORE_BOUND,
        decreases s.len() - i,
    {
        if s[i] < -SCORE_BOUND || s[i] > SCORE_BOUND {
            return false;
        }
        i = i + 1;
    }
    true
}

impl ScoreTables {
    /// Validates and adopts a pair of tables: each must hold exactly one
    /// entry per board code, every entry within `SCORE_BOUND`. A
    /// malformed table is rejected, naming the first check that failed
    /// (lengths first, then entry ranges, sub-board table before
    /// meta-board table).
    pub fn new(sub_board_scores: Vec<isize>, large_board_scores: Vec<isize>) -> (r: Result<
        ScoreTables,
        TableError,
    >)
        ensures
            match r {
                Ok(t) => {
                    &&& tables_wf(t@)
                    &&& t@.sub == sub_board_scores@
                    &&& t@.large == large_board_scores@
                },
                Err(e) => {
                    &&& !(sub_board_scores@.len() == TABLE_SIZE && large_board_scores@.len()
                        == TABLE_SIZE && scores_in_range(sub_board_scores@) && scores_in_range(
                        large_board_scores@,
                    ))
                    &&& (e == TableError::SubBoardLength <==> sub_board_scores@.len()
                        != TABLE_SIZE)
                    &&& (e == TableError::LargeBoardLength <==> sub_board_scores@.len()
                        == TABLE_SIZE && large_board_scores@.len() != TABLE_SIZE)
                    &&& (e == TableError::SubBoardScoreRange <==> sub_board_scores@.len()
                        == TABLE_SIZE && large_board_scores@.len() == TABLE_SIZE
                        && !scores_in_range(sub_board_scores@))
                    &&& (e == TableError::LargeBoardScoreRange <==> sub_board_scores@.len()
                        == TABLE_SIZE && large_board_scores@.len() == TABLE_SIZE
                        && scores_in_range(sub_board_scores@) && !scores_in_range(
                        large_board_scores@,
                    ))
                },
            },
    {
        if sub_board_scores.len() != TABLE_SIZE {
            return Err(TableError::SubBoardLength);
        }
        if large_board_scores.len() != TABLE_SIZE {
            return Err(TableError::LargeBoardLength);
        }
        if !check_scores_in_range(&sub_board_scores) {
            return Err(TableError::SubBoardScoreRange);
        }
        if !check_scores_in_range(&large_board_scores) {
            return Err(TableError::LargeBoardScoreRange);
        }
        Ok(ScoreTables { sub_board_scores, large_board_scores })
    }

    /// The sub-board table entry for a board code.
    pub fn sub_score(&self, code: usize) -> (r: isize)
        requires
            tables_wf(self@),
            code < TABLE_SIZE,
        ensures
            r == self@.sub[code as int],
    {
        self.sub_board_scores[code]
    }

    /// The meta-board table entry for a board code.
    pub fn large_score(&self, code: usize) -> (r: isize)
        requires
            tables_wf(self@),
            code < TABLE_SIZE,
        ensures
            r == self@.large[code as int],
    {
        self.large_board_scores[code]
    }
}

} // verus!
