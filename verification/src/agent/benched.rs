//! What a record of one move of an agent holds.
//!
//! Taking the time of a move and writing the record are left to the program
//! that runs the games.

use vstd::prelude::*;
use crate::agent::AgentInfo;
use crate::game::player::Player;

verus! {

/// One line of the records: who moved, for whom, at which turn, with which
/// setup, and how many microseconds the move took.
#[derive(Clone, Debug)]
pub struct Row {
    pub name: String,
    pub player: Player,
    pub turn_num: u32,
    pub config: String,
    pub duration: u128,
}

impl Row {
    /// The line for a move of the agent described by `info` that took
    /// `duration` microseconds.
    pub fn from_info(info: AgentInfo, duration: u128) -> (row: Row)
        ensures
            row.name == info.name,
            row.player == info.player,
            row.turn_num == info.turn_num,
            row.config == info.config,
            row.duration == duration,
    {
        Row {
            name: info.name,
            player: info.player,
            turn_num: info.turn_num,
            config: info.config,
            duration,
        }
    }
}

/// What an agent that is timed says of itself: the name of the agent that
/// it times between `Benched(` and `)`, and the rest as that agent says it.
pub fn benched_info(sub_info: AgentInfo) -> (info: AgentInfo)
    ensures
        info.name@ == "Benched("@ + sub_info.name@ + ")"@,
        info.player == sub_info.player,
        info.turn_num == sub_info.turn_num,
        info.config == sub_info.config,
{
    let name = String::from_str("Benched(").concat(sub_info.name.as_str()).concat(")");
    AgentInfo::new(name, sub_info.player, sub_info.turn_num, sub_info.config)
}

} // verus!
