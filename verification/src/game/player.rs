//! The two players of the game.

use vstd::prelude::*;

verus! {

/// One of the two players. `One` moves first and plays `X`.
#[derive(Clone, Copy, Debug, PartialEq, Eq, Hash, Structural)]
pub enum Player {
    One,
    Two,
}

impl Player {
    /// Position of the player in per-player tables: 0 for `One`, 1 for `Two`.
    pub open spec fn spec_index(self) -> usize {
        match self {
            Player::One => 0,
            Player::Two => 1,
        }
    }

    /// The other player.
    pub open spec fn spec_opponent(&self) -> Player {
        match *self {
            Player::One => Player::Two,
            Player::Two => Player::One,
        }
    }

    /// Position of the player in per-player tables: 0 for `One`, 1 for `Two`.
    #[verifier::when_used_as_spec(spec_index)]
    pub fn index(self) -> (i: usize)
        ensures
            i == self.spec_index(),
            i < 2,
    {
        match self {
            Player::One => 0,
            Player::Two => 1,
        }
    }

    /// The other player.
    #[verifier::when_used_as_spec(spec_opponent)]
    pub fn get_opponent(&self) -> (other: Player)
        ensures
            other == self.spec_opponent(),
            other != *self,
    {
        match self {
            Player::One => Player::Two,
            Player::Two => Player::One,
        }
    }

    /// Both players, in the order in which they move.
    pub fn iter() -> (players: [Player; 2])
        ensures
            players@ == seq![Player::One, Player::Two],
    {
        let players = [Player::One, Player::Two];
        assert(players@ =~= seq![Player::One, Player::Two]);
        players
    }
}

impl Default for Player {
    fn default() -> (player: Player)
        ensures
            player == Player::One,
    {
        Player::One
    }
}

/// Taking the opponent twice gives the player back, and the two players
/// occupy different positions in per-player tables.
pub proof fn lemma_opponent_involution(player: Player)
    ensures
        player.spec_opponent().spec_opponent() == player,
        player.spec_opponent().spec_index() == 1 - player.spec_index(),
{
}

} // verus!
