//! Cell occupants and finished-board classifications.

use vstd::prelude::*;

verus! {

/// The occupant of a single cell: the agent's mark, empty, or the
/// opponent's mark. Persisted encodings write these as `1`, `0` and `-1`.
#[derive(Clone, Copy, Debug, PartialEq, Eq, Structural)]
pub enum PlayerState {
    Agent,
    Empty,
    Opponent,
}

/// The characters a cell occupant contributes to a board encoding.
pub open spec fn player_chars(p: PlayerState) -> Seq<char> {
    match p {
        PlayerState::Agent => seq!['1'],
        PlayerState::Empty => seq!['0'],
        PlayerState::Opponent => seq!['-', '1'],
    }
}

impl PlayerState {
    /// The decimal text of this occupant's identity: `1`, `0` or `-1`.
    pub fn to_string(&self) -> (r: String)
        ensures
            r@ == player_chars(*self),
    {
        proof {
            reveal_strlit("1");
            reveal_strlit("0");
            reveal_strlit("-1");
        }
        match self {
            PlayerState::Agent => "1".to_owned(),
            PlayerState::Empty => "0".to_owned(),
            PlayerState::Opponent => "-1".to_owned(),
        }
    }
}

/// The finished-state classification of a board: won by one side, not
/// yet decided, or a tie.
#[derive(Clone, Copy, Debug, PartialEq, Eq, Structural)]
pub enum BoardState {
    Agent,
    Opponent,
    Undecided,
    Tie,
}

/// The classification a line's occupant induces: a completed line of
/// agent marks wins for the agent, of opponent marks for the opponent.
pub open spec fn spec_board_state_of(p: PlayerState) -> BoardState {
    match p {
        PlayerState::Agent => BoardState::Agent,
        PlayerState::Empty => BoardState::Undecided,
        PlayerState::Opponent => BoardState::Opponent,
    }
}

impl BoardState {
    /// Classifies the occupant of a completed line.
    pub fn from_player_state(player_state: PlayerState) -> (r: BoardState)
        ensures
            r == spec_board_state_of(player_state),
    {
        match player_state {
            PlayerState::Agent => BoardState::Agent,
            PlayerState::Empty => BoardState::Undecided,
            PlayerState::Opponent => BoardState::Opponent,
        }
    }
}

} // verus!
