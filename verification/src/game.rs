//! The game itself: players, boards and outcomes.

pub mod bitboard;
pub mod board;
pub mod game_result;
pub mod lines;
pub mod player;
pub mod position;
pub mod ultimate_board;
pub mod zobrist;

use vstd::prelude::*;
use crate::agent::Agent;
use crate::game::game_result::GameResult;
use crate::game::player::Player;
use crate::game::position::{free_squares, MoveError, Position};
use crate::game::ultimate_board::UltimateBoard;

verus! {

/// Why a game cannot go on.
#[derive(Clone, Debug)]
pub enum GameError {
    /// The agent of `player` gave no move in the state of `board`, in which
    /// the moves of `possible_moves` could be made.
    NoMove { player: Player, board: UltimateBoard, possible_moves: Vec<u8> },
    /// The agent of `player` gave the move `attempted`, which the board
    /// refused for `reason`, in the state of `board`, in which the moves of
    /// `possible_moves` could be made.
    IllegalMove {
        player: Player,
        attempted: u8,
        reason: MoveError,
        board: UltimateBoard,
        possible_moves: Vec<u8>,
    },
}

/// A game between two agents.
pub struct Game<A: Agent, B: Agent> {
    /// The agent of player one.
    agent_one: A,
    /// The agent of player two.
    agent_two: B,
    /// The board on which the game is played.
    board: UltimateBoard,
    /// Number of moves made.
    turn: u32,
}

/// With no mark on the board all squares are empty.
pub proof fn lemma_free_squares_of_empty(cells: Seq<Option<Player>>, bound: int)
    requires
        0 <= bound <= cells.len(),
        forall|square: int| 0 <= square < cells.len() ==> cells[square] is None,
    ensures
        free_squares(cells, bound) == bound,
    decreases bound,
{
    if bound > 0 {
        lemma_free_squares_of_empty(cells, bound - 1);
    }
}

impl<A: Agent, B: Agent> Game<A, B> {
    /// The state of the game.
    pub closed spec fn position(self) -> Position {
        self.board@
    }

    /// Number of moves made.
    pub closed spec fn spec_turn(self) -> u32 {
        self.turn
    }

    /// Both agents can be asked, the board is well formed, and the moves
    /// made and the empty squares are the squares of the board.
    pub closed spec fn wf(self) -> bool {
        &&& self.agent_one.wf()
        &&& self.agent_two.wf()
        &&& self.board.wf()
        &&& self.turn + self.board@.free() == 81
    }

    /// A game at its start, with the agent of player one and the agent of
    /// player two.
    pub fn new(agent_one: A, agent_two: B) -> (game: Game<A, B>)
        requires
            agent_one.wf(),
            agent_two.wf(),
        ensures
            game.wf(),
            game.position() == Position::initial(),
            game.spec_turn() == 0,
    {
        proof {
            lemma_free_squares_of_empty(Position::initial().cells, 81);
        }
        Game { agent_one, agent_two, board: UltimateBoard::new(), turn: 0 }
    }

    /// The board of the game.
    pub fn get_board(&self) -> (board: &UltimateBoard)
        requires
            self.wf(),
        ensures
            board@ == self.position(),
            board.wf(),
    {
        &self.board
    }

    /// Plays the game to its end: asks the agent of the player to move for
    /// a move and makes it, until the game is won or drawn. The game stops with
    /// an error when an agent gives no move or a move that may not be made; the
    /// board is then as it was when the agent was asked.
    pub fn play(&mut self) -> (result: Result<GameResult, GameError>)
        requires
            old(self).wf(),
        ensures
            final(self).wf(),
            exists|moves: Seq<u8>|
                #![auto]
                old(self).position().all_legal(moves) && final(self).position() == old(self).position().play_all(moves),
            match result {
                Ok(outcome) => outcome != GameResult::Continue && outcome == final(self).position().outcome(),
                Err(GameError::NoMove { player, board, possible_moves }) => {
                    &&& final(self).position().outcome() == GameResult::Continue
                    &&& board@ == final(self).position()
                    &&& player == board@.to_move
                    &&& possible_moves@ == board@.moves()
                },
                Err(GameError::IllegalMove { player, attempted, reason, board, possible_moves }) => {
                    &&& final(self).position().outcome() == GameResult::Continue
                    &&& board@ == final(self).position()
                    &&& player == board@.to_move
                    &&& possible_moves@ == board@.moves()
                    &&& board@.check_move(attempted) == Err::<(), MoveError>(reason)
                },
            },
    {
        let ghost start = self.board@;
        let mut made: Ghost<Seq<u8>> = Ghost(Seq::empty());
        while self.board.get_game_status() == GameResult::Continue
            invariant
                self.wf(),
                start == old(self).position(),
                start.all_legal(made@),
                self.board@ == start.play_all(made@),
            decreases self.board@.free(),
        {
            let active_agent = self.board.get_current_player();
            let board = self.board;
            let turn = self.turn;
            let current_move = match active_agent {
                Player::One => self.agent_one.act(board, active_agent, turn),
                Player::Two => self.agent_two.act(board, active_agent, turn),
            };
            match current_move {
                None => {
                    assert(start.all_legal(made@) && self.position() == start.play_all(made@));
                    return Err(
                        GameError::NoMove {
                            player: active_agent,
                            board,
                            possible_moves: board.get_possible_moves(),
                        },
                    );
                },
                Some(chosen) => {
                    proof {
                        self.board.lemma_wf();
                        if self.board@.legal(chosen) {
                            self.board@.lemma_play(chosen);
                            let longer = made@.push(chosen);
                            assert(longer.drop_last() =~= made@);
                            assert(longer.last() == chosen);
                        }
                    }
                    match self.board.make_move(chosen) {
                        Ok(()) => {
                            self.turn = self.turn + 1;
                            proof {
                                made@ = made@.push(chosen);
                            }
                        },
                        Err(reason) => {
                            assert(start.all_legal(made@) && self.position() == start.play_all(
                                made@,
                            ));
                            return Err(
                                GameError::IllegalMove {
                                    player: active_agent,
                                    attempted: chosen,
                                    reason,
                                    board,
                                    possible_moves: board.get_possible_moves(),
                                },
                            );
                        },
                    }
                },
            }
        }
        assert(start.all_legal(made@) && self.position() == start.play_all(made@));
        Ok(self.board.get_game_status())
    }
}

} // verus!
