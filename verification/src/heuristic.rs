//! Heuristics: what a search asks for the worth of a state that it does not
//! look beyond.

pub mod custom_heuristic;
pub mod monte_carlo_game_search_heuristic;

use std::collections::HashMap;
use vstd::prelude::*;
use vstd::std_specs::hash::group_hash_axioms;
use crate::game::bitboard::{lemma_bitwise, lemma_single_bit, BitBoard};
use crate::game::board::{cells_of_bits, Board, LegalBoardIterator, NUM_BIT_PAIRS};
use crate::game::player::Player;
use crate::game::position::Position;
use crate::game::ultimate_board::UltimateBoard;

verus! {

broadcast use group_hash_axioms;

/// Number of pairs of mark sets that a small board can hold: three to the
/// power of nine.
pub const NUM_SMALL_BOARD_STATES: usize = 19683;

/// The least score that a heuristic gives: the state is lost for the player
/// whom the heuristic judges for. A search starts below it, so that any move
/// is better than none.
pub const MIN_VALUE: i32 = -2147483647;

/// The greatest score that a heuristic gives: the state is won for the
/// player whom the heuristic judges for. A search starts above it.
pub const MAX_VALUE: i32 = 2147483646;

/// A heuristic gives each state of the game a score that says how good the
/// state is for one player, the greater the better. The score depends on the
/// state alone.
pub trait Heuristic: Clone + Send + Sync {
    /// What the heuristic needs to hold of itself to give scores: nothing,
    /// unless a heuristic says otherwise.
    open spec fn wf(&self) -> bool {
        true
    }

    /// The score of a state. A heuristic that does not say what its scores
    /// are gives zero to every state.
    open spec fn value(&self, position: Position) -> i32 {
        0
    }

    /// The score of the state that `board` holds.
    fn evaluate(&self, board: UltimateBoard) -> (score: i32)
        requires
            self.wf(),
            board.wf(),
        ensures
            score == self.value(board@),
            MIN_VALUE <= score <= MAX_VALUE,
    ;

    /// The name of the heuristic. A heuristic that does not say what its
    /// name is has the empty name.
    open spec fn name(&self) -> Seq<char> {
        Seq::empty()
    }

    /// A short name of the heuristic.
    fn get_name(&self) -> (name: String)
        requires
            self.wf(),
        ensures
            name@ == self.name(),
    ;
}

/// True when `table` holds, under the key of every small board, the score
/// that `value` gives to the squares of the board.
pub open spec fn holds_all_scores(
    value: spec_fn(Seq<Option<Player>>) -> i32,
    table: Map<u32, i32>,
) -> bool {
    covers_below(value, table, NUM_BIT_PAIRS as int)
}

/// True when `table` holds the scores of the small boards with a key below
/// `bound`.
pub open spec fn covers_below(
    value: spec_fn(Seq<Option<Player>>) -> i32,
    table: Map<u32, i32>,
    bound: int,
) -> bool {
    forall|key: int|
        0 <= key < bound && #[trigger] LegalBoardIterator::legal(key) ==> table.contains_key(
            key as u32,
        ) && table[key as u32] == value(
            cells_of_bits(
                LegalBoardIterator::first_of(key) as u16,
                LegalBoardIterator::second_of(key) as u16,
            ),
        )
}

/// A heuristic for small boards gives each small board a score that says
/// how good the board is for player one, the greater the better. The score
/// depends on the marks alone.
pub trait MiniBoardHeuristic: Send + Sync {
    /// What the heuristic needs to hold of itself to give scores: nothing,
    /// unless a heuristic says otherwise.
    open spec fn wf(&self) -> bool {
        true
    }

    /// The score of a small board with the given squares. A heuristic that
    /// does not say what its scores are gives zero to every board.
    open spec fn value(&self, cells: Seq<Option<Player>>) -> i32 {
        0
    }

    /// The score of `board`.
    fn evaluate(&self, board: Board) -> (score: i32)
        requires
            self.wf(),
            board.wf(),
        ensures
            score == self.value(board@),
    ;

    /// A table that holds the score of every small board under the board's
    /// key, so that the scores need not be worked out again.
    fn initialize(&self) -> (cache: HashMap<u32, i32>)
        requires
            self.wf(),
        ensures
            holds_all_scores(|cells: Seq<Option<Player>>| self.value(cells), cache@),
            forall|key: u32| cache@.contains_key(key) ==> LegalBoardIterator::legal(key as int),
    {
        let ghost value = |cells: Seq<Option<Player>>| self.value(cells);
        let mut cache: HashMap<u32, i32> = HashMap::with_capacity(NUM_SMALL_BOARD_STATES);
        let mut boards = LegalBoardIterator::default();
        loop
            invariant
                self.wf(),
                boards.position() <= NUM_BIT_PAIRS,
                value == |cells: Seq<Option<Player>>| self.value(cells),
                covers_below(value, cache@, boards.position()),
                forall|key: u32| cache@.contains_key(key) ==> LegalBoardIterator::legal(key as int),
            ensures
                covers_below(value, cache@, NUM_BIT_PAIRS as int),
                forall|key: u32| cache@.contains_key(key) ==> LegalBoardIterator::legal(key as int),
            decreases NUM_BIT_PAIRS - boards.position(),
        {
            let ghost before = cache@;
            match boards.next() {
                Some((first, second)) => {
                    let first_marks = BitBoard::new(first);
                    let second_marks = BitBoard::new(second);
                    proof {
                        assert forall|bit: int|
                            !(first_marks.contains(bit) && second_marks.contains(bit)) by {
                            if 0 <= bit < 9 {
                                lemma_bitwise(first, second, bit as u16);
                                lemma_single_bit(0, bit as u16, 0);
                            }
                        }
                    }
                    let board = Board::from_bitboards([first_marks, second_marks], 0);
                    proof {
                        board.lemma_view_of_bits();
                    }
                    let index = board.to_key();
                    let score = self.evaluate(board);
                    cache.insert(index, score);
                    proof {
                        let n = boards.position() - 1;
                        assert(index == n);
                        assert forall|key: int|
                            0 <= key < boards.position() && #[trigger] LegalBoardIterator::legal(
                                key,
                            ) implies cache@.contains_key(key as u32) && cache@[key as u32]
                            == value(
                            cells_of_bits(
                                LegalBoardIterator::first_of(key) as u16,
                                LegalBoardIterator::second_of(key) as u16,
                            ),
                        ) by {
                            if key < n {
                                assert(before.contains_key(key as u32));
                            }
                        }
                    }
                },
                None => {
                    break ;
                },
            }
        }
        cache
    }
}

} // verus!
