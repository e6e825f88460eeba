//! The parts of a genetic algorithm that move values around: how two lists
//! of values are crossed, how a list is shifted, and how the games between
//! two candidates are counted. Drawing the random points and judging the
//! candidates is left to the program that runs the algorithm.

pub mod fitness;
pub mod mutation;
pub mod recombination;
