//! An agent that makes any of the possible moves, each with the same chance.

use rand::rngs::ThreadRng;
use rand::Rng;
use vstd::prelude::*;
use crate::agent::{Agent, AgentInfo};
use crate::game::game_result::GameResult;
use crate::game::player::Player;
use crate::game::position::Position;
use crate::game::ultimate_board::UltimateBoard;

verus! {

/// The random number generator that the crate `rand` keeps for each thread.
/// Nothing is known of what is inside a value of it.
#[verifier::external_type_specification]
#[verifier::external_body]
pub struct ExThreadRng(ThreadRng);

/// Calls `rand::thread_rng`, which hands out the generator of the thread.
#[verifier::external_body]
pub(crate) fn thread_generator() -> ThreadRng {
    rand::thread_rng()
}

/// Calls `gen_range` of `rand::Rng` with the range from zero up to, and
/// without, `len`. The call returns a number of the range, whichever chance
/// picks; it panics on an empty range, which `len > 0` leaves out.
#[verifier::external_body]
pub(crate) fn random_index(rng: &mut ThreadRng, len: usize) -> (index: usize)
    requires
        len > 0,
    ensures
        index < len,
{
    rng.gen_range(0..len)
}

/// The move at place `index` of `moves`, or `None` when there is no such
/// place.
pub fn move_at(moves: &Vec<u8>, index: usize) -> (choice: Option<u8>)
    ensures
        choice == if index < moves@.len() {
            Some(moves@[index as int])
        } else {
            None
        },
{
    if index < moves.len() {
        Some(moves[index])
    } else {
        None
    }
}

/// True when `choice` is one of the moves that the rules offer in
/// `position`, or `None` where they offer none.
pub open spec fn is_offered(position: Position, choice: Option<u8>) -> bool {
    match choice {
        Some(m) => position.moves().contains(m),
        None => position.moves().len() == 0,
    }
}

/// Any of the moves that the rules offer in the state that `board` holds,
/// picked by chance; `None` when they offer none. While the game goes on the
/// choice is a move that may be made.
pub fn random_move(board: &UltimateBoard) -> (choice: Option<u8>)
    requires
        board.wf(),
    ensures
        is_offered(board@, choice),
        board@.outcome() == GameResult::Continue ==> choice is Some && board@.legal(
            choice.unwrap(),
        ),
{
    let possible_moves = board.get_possible_moves();
    if possible_moves.len() == 0 {
        return None;
    }
    let mut rng = thread_generator();
    let index = random_index(&mut rng, possible_moves.len());
    assert(board@.moves()[index as int] == possible_moves@[index as int]);
    move_at(&possible_moves, index)
}

/// Plays a game from the state of `board` to its end, each move picked by
/// chance among the possible ones, and returns how it ended: the outcome of a
/// game that can follow from the state.
pub fn random_game(board: UltimateBoard) -> (result: GameResult)
    requires
        board.wf(),
    ensures
        result != GameResult::Continue,
        exists|moves: Seq<u8>|
            #![auto]
            board@.all_legal(moves) && board@.play_all(moves).outcome() == result,
{
    let ghost start = board@;
    let mut board = board;
    let mut rng: ThreadRng = thread_generator();
    let mut made: Ghost<Seq<u8>> = Ghost(Seq::empty());
    while board.get_game_status() == GameResult::Continue
        invariant
            board.wf(),
            start.all_legal(made@),
            board@ == start.play_all(made@),
        decreases board@.free(),
    {
        let possible_moves = board.get_possible_moves();
        proof {
            board.lemma_wf();
            board@.lemma_moves();
        }
        let index = random_index(&mut rng, possible_moves.len());
        let next_move = possible_moves[index];
        proof {
            assert(board@.moves()[index as int] == next_move);
            assert(board@.moves().contains(next_move));
            assert(board@.legal(next_move));
            board@.lemma_play(next_move);
            let longer = made@.push(next_move);
            assert(longer.drop_last() =~= made@);
            assert(longer.last() == next_move);
            made@ = longer;
        }
        let moved = board.make_move(next_move);
    }
    proof {
        assert(start.all_legal(made@) && start.play_all(made@).outcome() == board@.outcome());
    }
    board.get_game_status()
}

/// An agent that plays by chance.
pub struct RandomAgent {
    /// The player for whom the agent moved last.
    player: Player,
    /// The turn of the agent's last move.
    turn: u32,
}

impl RandomAgent {
    /// A new agent, which has not moved yet: it is put down as moving for
    /// player one at turn zero until it is asked for a move.
    pub fn new() -> (agent: RandomAgent)
        ensures
            agent.last_player() == Player::One,
            agent.last_turn() == 0,
    {
        RandomAgent { player: Player::One, turn: 0 }
    }
}

impl Default for RandomAgent {
    fn default() -> (agent: RandomAgent) {
        RandomAgent::new()
    }
}

impl Agent for RandomAgent {
    open spec fn wf(&self) -> bool {
        true
    }

    /// The agent may give any move that the rules offer, and gives none
    /// only where they offer none.
    open spec fn answers(
        &self,
        position: Position,
        player: Player,
        turn: u32,
        choice: Option<u8>,
    ) -> bool {
        is_offered(position, choice)
    }

    fn act(&mut self, board: UltimateBoard, player: Player, turn: u32) -> (choice: Option<u8>)
        ensures
            board@.outcome() == GameResult::Continue ==> choice is Some && board@.legal(
                choice.unwrap(),
            ),
    {
        self.player = player;
        self.turn = turn;
        random_move(&board)
    }

    /// The name is `RAND`; there is nothing to set up.
    fn get_info(&self) -> (info: AgentInfo)
        ensures
            info.name@ == "RAND"@,
            info.config@ == ""@,
            info.player == self.last_player(),
            info.turn_num == self.last_turn(),
    {
        AgentInfo::new(String::from_str("RAND"), self.player, self.turn, String::from_str(""))
    }

    /// The agent says that its name is `RAND`, that there is nothing to set
    /// up, and for whom and at which turn it moved last.
    open spec fn describes(&self, info: AgentInfo) -> bool {
        &&& info.name@ == "RAND"@
        &&& info.config@ == ""@
        &&& info.player == self.last_player()
        &&& info.turn_num == self.last_turn()
    }
}

impl RandomAgent {
    /// The player for whom the agent moved last.
    pub closed spec fn last_player(self) -> Player {
        self.player
    }

    /// The turn of the agent's last move.
    pub closed spec fn last_turn(self) -> u32 {
        self.turn
    }
}

} // verus!
