//! Agents: players of the game that are asked for one move at a time.

pub mod benched;
pub mod human_agent;
pub mod minimax_agent;
pub mod monte_carlo_tree_agent;
pub mod random_agent;
pub mod random_start;

use vstd::prelude::*;
use crate::game::player::Player;
use crate::game::position::Position;
use crate::game::ultimate_board::UltimateBoard;

verus! {

/// An agent is asked for its move in a state of the game.
pub trait Agent: Send + Sync {
    /// What the agent needs to hold of itself to be asked: nothing, unless
    /// an agent says otherwise.
    open spec fn wf(&self) -> bool {
        true
    }

    /// True when `choice` is an answer that the agent may give when it is
    /// asked for the move of `player` in `position` at turn `turn`: any
    /// answer, unless an agent says otherwise.
    open spec fn answers(
        &self,
        position: Position,
        player: Player,
        turn: u32,
        choice: Option<u8>,
    ) -> bool {
        true
    }

    /// The move of the agent in the state that `board` holds: the number of
    /// a square of the ultimate board, or `None` when the agent has no move.
    /// `player` is the player for whom the agent moves, and `turn` says how
    /// many moves have been made in the game before this one.
    fn act(&mut self, board: UltimateBoard, player: Player, turn: u32) -> (choice: Option<u8>)
        requires
            old(self).wf(),
            board.wf(),
        ensures
            final(self).wf(),
            old(self).answers(board@, player, turn, choice),
    ;

    /// Who the agent is and how it is set up, for records.
    fn get_info(&self) -> (info: AgentInfo)
        requires
            self.wf(),
        ensures
            self.describes(info),
    ;

    /// True when `info` is what the agent may say of itself: anything,
    /// unless an agent says otherwise.
    open spec fn describes(&self, info: AgentInfo) -> bool {
        true
    }
}

impl<T: Agent + ?Sized> Agent for Box<T> {
    open spec fn wf(&self) -> bool {
        (**self).wf()
    }

    /// A box answers as the agent in it.
    open spec fn answers(
        &self,
        position: Position,
        player: Player,
        turn: u32,
        choice: Option<u8>,
    ) -> bool {
        (**self).answers(position, player, turn, choice)
    }

    fn act(&mut self, board: UltimateBoard, player: Player, turn: u32) -> (choice: Option<u8>) {
        (**self).act(board, player, turn)
    }

    fn get_info(&self) -> (info: AgentInfo) {
        (**self).get_info()
    }

    /// A box says of itself what the agent in it says of itself.
    open spec fn describes(&self, info: AgentInfo) -> bool {
        (**self).describes(info)
    }
}

/// What records keep of an agent: its name, the player it last moved for, the
/// turn of that move, and how it is set up.
#[derive(Clone, Debug)]
pub struct AgentInfo {
    pub name: String,
    pub player: Player,
    pub turn_num: u32,
    pub config: String,
}

impl AgentInfo {
    /// Puts the four parts together.
    pub fn new(name: String, player: Player, turn_num: u32, config: String) -> (info: AgentInfo)
        ensures
            info.name == name,
            info.player == player,
            info.turn_num == turn_num,
            info.config == config,
    {
        AgentInfo { name, player, turn_num, config }
    }
}

/// True when `text` is what `to_string` writes for `value`.
pub open spec fn is_decimal_text(value: u32, text: Seq<char>) -> bool {
    exists|written: String|
        #![auto]
        vstd::string::to_string_from_display_ensures::<u32>(&value, written) && written@ == text
}

} // verus!
