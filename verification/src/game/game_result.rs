//! The outcome of a board, small or ultimate.

use vstd::prelude::*;
use vstd::std_specs::convert::FromSpecImpl;
use crate::game::player::Player;

verus! {

/// Outcome of a board: won by a player, drawn, or still open.
#[derive(Copy, Clone, Debug, PartialEq, Eq, Structural)]
pub enum GameResult {
    Win(Player),
    Draw,
    Continue,
}

impl FromSpecImpl<Player> for GameResult {
    open spec fn obeys_from_spec() -> bool {
        true
    }

    open spec fn from_spec(player: Player) -> GameResult {
        GameResult::Win(player)
    }
}

impl From<Player> for GameResult {
    /// The outcome in which `player` has won.
    fn from(player: Player) -> (result: GameResult) {
        GameResult::Win(player)
    }
}

} // verus!
