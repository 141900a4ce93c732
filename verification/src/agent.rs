//! The contract a move-choosing agent offers to an external game loop.

use vstd::prelude::*;
use crate::types::Move;

verus! {

/// An agent that plays ultimate tic-tac-toe: it can be reset, told the
/// opponent's moves, and asked to choose and play its own. The three
/// spec functions let each implementation state when its state is
/// sound, when a search can run, and which externally supplied moves it
/// takes.
pub trait Agent: Sized {
    /// The implementation's internal soundness condition.
    spec fn inv(&self) -> bool;

    /// The condition under which `make_move` may run its search.
    spec fn can_search(&self) -> bool;

    /// The externally supplied moves `opponent_move` takes.
    spec fn accepts(&self, location: Move) -> bool;

    /// Resets to a fresh board.
    fn init(&mut self)
        requires
            old(self).inv(),
        ensures
            final(self).inv(),
    ;

    /// Chooses a move for the agent's side, applies it, and returns it.
    fn make_move(&mut self) -> (r: Move)
        requires
            old(self).inv(),
            old(self).can_search(),
        ensures
            final(self).inv(),
    ;

    /// Plays the agent's fixed opening move, used only when the agent
    /// moves first in a fresh game.
    fn make_first_move(&mut self) -> (r: Move)
        requires
            old(self).inv(),
        ensures
            final(self).inv(),
    ;

    /// Applies an externally supplied move as the opponent.
    fn opponent_move(&mut self, location: Move)
        requires
            old(self).inv(),
            old(self).accepts(location),
        ensures
            final(self).inv(),
    ;
}

} // verus!
