//! An agent that plays by chance for its first turns and hands over to
//! another agent after them.

use vstd::prelude::*;
use crate::agent::random_agent::RandomAgent;
use crate::agent::{Agent, AgentInfo};
use crate::game::player::Player;
use crate::game::position::Position;
use crate::game::ultimate_board::UltimateBoard;

verus! {

/// An agent that answers as a [`RandomAgent`] while the turn is below a
/// given number, and as the agent that it holds from then on.
pub struct RandomStartAgent<A> {
    /// The turn from which the held agent answers.
    depth: u32,
    /// The agent that answers from that turn on.
    agent: A,
    /// The agent that answers before.
    random_agent: RandomAgent,
}

impl<A: Agent> RandomStartAgent<A> {
    /// The turn from which the held agent answers.
    pub closed spec fn spec_depth(self) -> u32 {
        self.depth
    }

    /// The agent that answers from that turn on.
    pub closed spec fn spec_agent(self) -> A {
        self.agent
    }

    /// The agent that answers before.
    pub closed spec fn spec_random_agent(self) -> RandomAgent {
        self.random_agent
    }

    /// An agent that plays by chance at the turns below `depth` and lets
    /// `agent` play from turn `depth` on.
    pub fn new(depth: u32, agent: A) -> (start: RandomStartAgent<A>)
        requires
            agent.wf(),
        ensures
            start.wf(),
            start.spec_depth() == depth,
            start.spec_agent() == agent,
    {
        RandomStartAgent { depth, agent, random_agent: RandomAgent::new() }
    }
}

impl<A: Agent> Agent for RandomStartAgent<A> {
    open spec fn wf(&self) -> bool {
        self.spec_agent().wf() && self.spec_random_agent().wf()
    }

    /// Below the turn of handing over the answers are those of the random
    /// agent, from it on those of the held agent.
    open spec fn answers(
        &self,
        position: Position,
        player: Player,
        turn: u32,
        choice: Option<u8>,
    ) -> bool {
        if self.spec_depth() > turn {
            self.spec_random_agent().answers(position, player, turn, choice)
        } else {
            self.spec_agent().answers(position, player, turn, choice)
        }
    }

    fn act(&mut self, board: UltimateBoard, player: Player, turn: u32) -> (choice: Option<u8>)
        ensures
            final(self).spec_depth() == old(self).spec_depth(),
    {
        if self.depth > turn {
            self.random_agent.act(board, player, turn)
        } else {
            self.agent.act(board, player, turn)
        }
    }

    /// What the held agent says of itself.
    fn get_info(&self) -> (info: AgentInfo) {
        self.agent.get_info()
    }

    /// The agent says of itself what the held agent says of itself.
    open spec fn describes(&self, info: AgentInfo) -> bool {
        self.spec_agent().describes(info)
    }
}

} // verus!
