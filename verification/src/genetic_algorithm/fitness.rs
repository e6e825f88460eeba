//! Counting the games between two candidates.

use vstd::prelude::*;
use crate::game::game_result::GameResult;
use crate::game::player::Player;

verus! {

/// A fitness that lets every candidate play every other, once as player
/// one and once as player two, with searches of the given depths.
pub struct FullOrderingFitness {
    depth: u32,
    quiescence_depth: u32,
}

/// What a game adds to the fitness of the candidate that played it as
/// player one: one for a win, minus one for a loss, nothing otherwise. The
/// candidate that played as player two gets the opposite.
pub open spec fn points_of(result: GameResult) -> int {
    match result {
        GameResult::Win(Player::One) => 1,
        GameResult::Win(Player::Two) => -1,
        _ => 0,
    }
}

impl FullOrderingFitness {
    /// The depth of the searches.
    pub closed spec fn spec_depth(self) -> u32 {
        self.depth
    }

    /// The depth of the quiescence searches.
    pub closed spec fn spec_quiescence_depth(self) -> u32 {
        self.quiescence_depth
    }

    /// A fitness whose games are played by searches of the given depths.
    pub fn new(depth: u32, quiescence_depth: u32) -> (fitness: FullOrderingFitness)
        ensures
            fitness.spec_depth() == depth,
            fitness.spec_quiescence_depth() == quiescence_depth,
    {
        FullOrderingFitness { depth, quiescence_depth }
    }

    /// The depth of the searches.
    pub fn get_depth(&self) -> (depth: u32)
        ensures
            depth == self.spec_depth(),
    {
        self.depth
    }

    /// The depth of the quiescence searches.
    pub fn get_quiescence_depth(&self) -> (depth: u32)
        ensures
            depth == self.spec_quiescence_depth(),
    {
        self.quiescence_depth
    }

    /// What two candidates gain from their two games: `first_game` is the
    /// game that the left candidate played as player one, `second_game` the
    /// game that the right candidate played as player one. The first number is
    /// the gain of the left candidate, the second that of the right.
    pub fn pair_fitness(first_game: GameResult, second_game: GameResult) -> (gains: (i32, i32))
        ensures
            gains.0 == points_of(first_game) - points_of(second_game),
            gains.1 == points_of(second_game) - points_of(first_game),
    {
        let mut lhs_fitness: i32 = 0;
        let mut rhs_fitness: i32 = 0;
        match first_game {
            GameResult::Win(Player::One) => {
                lhs_fitness = lhs_fitness + 1;
                rhs_fitness = rhs_fitness - 1;
            },
            GameResult::Win(Player::Two) => {
                lhs_fitness = lhs_fitness - 1;
                rhs_fitness = rhs_fitness + 1;
            },
            _ => {},
        }
        match second_game {
            GameResult::Win(Player::One) => {
                lhs_fitness = lhs_fitness - 1;
                rhs_fitness = rhs_fitness + 1;
            },
            GameResult::Win(Player::Two) => {
                lhs_fitness = lhs_fitness + 1;
                rhs_fitness = rhs_fitness - 1;
            },
            _ => {},
        }
        (lhs_fitness, rhs_fitness)
    }
}

} // verus!
