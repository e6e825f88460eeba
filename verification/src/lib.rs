//! Ultimate Tic-Tac-Toe: the game state with its rules, and agents that play it.
//!
//! The game is played on nine small boards of three by three squares, which
//! are themselves the squares of one large board. The square that a player
//! marks names the small board on which the opponent has to move next. Who
//! wins three small boards in a line wins the game.
//!
//! * [`game`] holds the state of a game: [`game::bitboard`] and
//!   [`game::board`] the small boards, [`game::position`] the rules,
//!   [`game::ultimate_board`] the board that keeps outcomes and a hash up to
//!   date move by move, and [`game::Game`] the game between two agents.
//! * [`agent`] holds the agents: a search of fixed depth with alpha-beta
//!   pruning, a Monte Carlo tree search, and an agent that plays by chance.
//! * [`heuristic`] holds what the search of fixed depth asks for the worth
//!   of a state.
//! * [`tree`] holds the tree that the Monte Carlo tree search grows.
//! * [`genetic_algorithm`] and [`statistics`] hold what tuning a heuristic
//!   and summing up the times of moves need besides.
//!
//! Every function states what it returns. All but the few that call into
//! other crates are proved to do so.

pub mod agent;
pub mod game;
pub mod genetic_algorithm;
pub mod heuristic;
pub mod statistics;
pub mod tree;
