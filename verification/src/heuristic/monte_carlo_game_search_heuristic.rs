//! A heuristic that plays games by chance.
//!
//! For every possible move it plays a number of games from the state and
//! counts how they end, and it finds the move with the best count. It gives
//! the same score, zero, to every state.

use vstd::prelude::*;
use crate::agent::random_agent::random_game;
use crate::game::game_result::GameResult;
use crate::game::player::Player;
use crate::game::ultimate_board::UltimateBoard;
use crate::heuristic::Heuristic;

verus! {

/// How the games played for one move ended.
#[derive(Clone, Copy, Debug, PartialEq, Eq, Structural)]
pub struct MoveResult {
    pub current_move: u8,
    pub wins: u32,
    pub losses: u32,
    pub draws: u32,
}

/// True when `first` is better than `second`: more games won, or as many
/// won and fewer lost.
pub open spec fn better(first: MoveResult, second: MoveResult) -> bool {
    first.wins > second.wins || (first.wins == second.wins && first.losses < second.losses)
}

/// The first of the results than which no other is better; `None` when
/// there is no result.
pub fn best_result(results: &Vec<MoveResult>) -> (best: Option<MoveResult>)
    ensures
        best is None <==> results@.len() == 0,
        best matches Some(chosen) ==> exists|k: int|
            #![auto]
            {
                &&& 0 <= k < results@.len()
                &&& results@[k] == chosen
                &&& forall|j: int| 0 <= j < results@.len() ==> !better(#[trigger] results@[j], chosen)
                &&& forall|j: int| 0 <= j < k ==> better(chosen, #[trigger] results@[j])
            },
{
    let mut best_move: Option<MoveResult> = None;
    let ghost mut place: int = 0;
    let mut index: usize = 0;
    while index < results.len()
        invariant
            index <= results@.len(),
            best_move is None <==> index == 0,
            best_move matches Some(chosen) ==> {
                &&& 0 <= place < index
                &&& results@[place] == chosen
                &&& forall|j: int| 0 <= j < index ==> !better(#[trigger] results@[j], chosen)
                &&& forall|j: int| 0 <= j < place ==> better(chosen, #[trigger] results@[j])
            },
        decreases results@.len() - index,
    {
        let candidate = results[index];
        match best_move {
            None => {
                best_move = Some(candidate);
                proof {
                    place = index as int;
                }
            },
            Some(chosen) => {
                if (candidate.wins > chosen.wins) || (candidate.wins == chosen.wins
                    && candidate.losses < chosen.losses) {
                    best_move = Some(candidate);
                    proof {
                        place = index as int;
                    }
                }
            },
        }
        index = index + 1;
    }
    best_move
}

/// A heuristic that plays games by chance and gives every state the score
/// zero.
#[derive(Clone)]
pub struct MonteCarloGameSearchHeuristic {
    /// The player whom the heuristic judges for.
    player: Player,
    /// The number of games played for each possible move.
    num_simulations: u32,
}

impl MonteCarloGameSearchHeuristic {
    /// The player whom the heuristic judges for.
    pub closed spec fn spec_player(self) -> Player {
        self.player
    }

    /// The number of games played for each possible move.
    pub closed spec fn spec_num_simulations(self) -> u32 {
        self.num_simulations
    }

    /// The heuristic that judges for `player` and plays `num_simulations`
    /// games for each possible move.
    pub fn new(player: Player, num_simulations: u32) -> (heuristic: MonteCarloGameSearchHeuristic)
        ensures
            heuristic.spec_player() == player,
            heuristic.spec_num_simulations() == num_simulations,
    {
        MonteCarloGameSearchHeuristic { player, num_simulations }
    }

    /// Plays the games from the state of `board` and returns, for each
    /// possible move in the order of the moves, how the games played for it
    /// ended for the player of the heuristic.
    pub fn simulate(&self, board: UltimateBoard) -> (results: Vec<MoveResult>)
        requires
            board.wf(),
        ensures
            results@.len() == board@.moves().len(),
            forall|i: int|
                0 <= i < results@.len() ==> {
                    let result = #[trigger] results@[i];
                    &&& result.current_move == board@.moves()[i]
                    &&& result.wins + result.losses + result.draws == self.spec_num_simulations()
                },
    {
        let possible_moves = board.get_possible_moves();
        let mut results: Vec<MoveResult> = Vec::new();
        let mut index: usize = 0;
        while index < possible_moves.len()
            invariant
                index <= possible_moves@.len(),
                possible_moves@ == board@.moves(),
                board.wf(),
                results@.len() == index,
                forall|i: int|
                    0 <= i < index ==> {
                        let result = #[trigger] results@[i];
                        &&& result.current_move == board@.moves()[i]
                        &&& result.wins + result.losses + result.draws
                            == self.spec_num_simulations()
                    },
            decreases possible_moves@.len() - index,
        {
            let current_move = possible_moves[index];
            let mut wins: u32 = 0;
            let mut losses: u32 = 0;
            let mut draws: u32 = 0;
            let mut game: u32 = 0;
            while game < self.num_simulations
                invariant
                    game <= self.num_simulations,
                    board.wf(),
                    wins + losses + draws == game,
                decreases self.num_simulations - game,
            {
                let board_copy = board;
                let game_result = random_game(board_copy);
                match game_result {
                    GameResult::Win(player) => {
                        if player == self.player {
                            wins = wins + 1;
                        } else {
                            losses = losses + 1;
                        }
                    },
                    _ => {
                        draws = draws + 1;
                    },
                }
                game = game + 1;
            }
            results.push(MoveResult { current_move, wins, losses, draws });
            index = index + 1;
        }
        results
    }
}

impl Heuristic for MonteCarloGameSearchHeuristic {
    /// The score is zero, whatever the games show.
    fn evaluate(&self, board: UltimateBoard) -> (score: i32)
        ensures
            score == 0,
    {
        let results = self.simulate(board);
        let _best_move = best_result(&results);
        0
    }

    open spec fn name(&self) -> Seq<char> {
        "MH"@
    }

    /// The name is `MH`.
    fn get_name(&self) -> (name: String) {
        String::from_str("MH")
    }
}

} // verus!
