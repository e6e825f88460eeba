//! What an agent that asks a person makes of the numbers that the person
//! types in.
//!
//! A person names small boards and squares by the numbers 1 to 9, row by
//! row. Printing the board and reading the numbers are left to the program
//! that talks to the person.

use vstd::prelude::*;
use crate::game::game_result::GameResult;

verus! {

/// The move that the number `typed` stands for on small board
/// `board_index`.
pub open spec fn move_typed(board_index: u8, typed: u8) -> int {
    typed - 1 + 9 * board_index
}

/// True when `moves` holds `m`.
fn holds(moves: &Vec<u8>, m: u8) -> (found: bool)
    ensures
        found == moves@.contains(m),
{
    let mut index: usize = 0;
    while index < moves.len()
        invariant
            index <= moves@.len(),
            forall|j: int| 0 <= j < index ==> moves@[j] != m,
        decreases moves@.len() - index,
    {
        if moves[index] == m {
            return true;
        }
        index = index + 1;
    }
    false
}

/// The move on small board `board_index` that the number `typed` stands
/// for; `None` when the number is not one of 1 to 9 or the move is not among
/// the possible moves.
pub fn field_choice(possible_moves: &Vec<u8>, board_index: u8, typed: u8) -> (choice: Option<u8>)
    requires
        board_index < 9,
    ensures
        choice == if 1 <= typed <= 9 && possible_moves@.contains(
            move_typed(board_index, typed) as u8,
        ) {
            Some(move_typed(board_index, typed) as u8)
        } else {
            None
        },
{
    if typed < 1 || typed > 9 {
        return None;
    }
    let mapped_value = typed - 1 + board_index * 9;
    if holds(possible_moves, mapped_value) {
        Some(mapped_value)
    } else {
        None
    }
}

/// The small board that the number `typed` stands for; `None` when the
/// number is not one of 1 to 9 or the small board has been won or drawn.
pub fn board_choice(board_status: &[GameResult; 9], typed: u8) -> (choice: Option<u8>)
    ensures
        choice == if 1 <= typed <= 9 && board_status@[typed - 1] == GameResult::Continue {
            Some((typed - 1) as u8)
        } else {
            None
        },
{
    if typed < 1 || typed > 9 {
        return None;
    }
    let mapped_value = typed - 1;
    if board_status[mapped_value as usize] == GameResult::Continue {
        Some(mapped_value)
    } else {
        None
    }
}

/// The numbers that stand for a possible move on small board `board_index`,
/// in ascending order.
pub fn valid_fields(possible_moves: &Vec<u8>, board_index: u8) -> (numbers: Vec<u8>)
    requires
        board_index < 9,
    ensures
        forall|typed: u8|
            numbers@.contains(typed) <==> (1 <= typed <= 9 && possible_moves@.contains(
                move_typed(board_index, typed) as u8,
            )),
        forall|j: int, k: int| 0 <= j < k < numbers@.len() ==> numbers@[j] < numbers@[k],
{
    let mut numbers: Vec<u8> = Vec::new();
    let mut typed: u8 = 1;
    while typed <= 9
        invariant
            1 <= typed <= 10,
            board_index < 9,
            forall|other: u8|
                numbers@.contains(other) <==> (1 <= other < typed && possible_moves@.contains(
                    move_typed(board_index, other) as u8,
                )),
            forall|j: int, k: int| 0 <= j < k < numbers@.len() ==> numbers@[j] < numbers@[k],
            forall|j: int| 0 <= j < numbers@.len() ==> numbers@[j] < typed,
        decreases 10 - typed,
    {
        let ghost before = numbers@;
        if holds(possible_moves, typed - 1 + board_index * 9) {
            numbers.push(typed);
            proof {
                assert(numbers@[before.len() as int] == typed);
                assert forall|other: u8| numbers@.contains(other) <==> (1 <= other < typed + 1
                    && possible_moves@.contains(move_typed(board_index, other) as u8)) by {
                    if numbers@.contains(other) {
                        let k = choose|k: int| 0 <= k < numbers@.len() && numbers@[k] == other;
                        if k < before.len() {
                            assert(before[k] == other);
                            assert(before.contains(other));
                        }
                    }
                    if before.contains(other) {
                        let k = choose|k: int| 0 <= k < before.len() && before[k] == other;
                        assert(numbers@[k] == other);
                    }
                }
            }
        }
        typed = typed + 1;
    }
    numbers
}

/// The numbers that stand for a small board that goes on, in ascending
/// order.
pub fn valid_boards(board_status: &[GameResult; 9]) -> (numbers: Vec<u8>)
    ensures
        forall|typed: u8|
            numbers@.contains(typed) <==> (1 <= typed <= 9 && board_status@[typed - 1]
                == GameResult::Continue),
        forall|j: int, k: int| 0 <= j < k < numbers@.len() ==> numbers@[j] < numbers@[k],
{
    let mut numbers: Vec<u8> = Vec::new();
    let mut typed: u8 = 1;
    while typed <= 9
        invariant
            1 <= typed <= 10,
            forall|other: u8|
                numbers@.contains(other) <==> (1 <= other < typed && board_status@[other - 1]
                    == GameResult::Continue),
            forall|j: int, k: int| 0 <= j < k < numbers@.len() ==> numbers@[j] < numbers@[k],
            forall|j: int| 0 <= j < numbers@.len() ==> numbers@[j] < typed,
        decreases 10 - typed,
    {
        let ghost before = numbers@;
        if board_status[(typed - 1) as usize] == GameResult::Continue {
            numbers.push(typed);
            proof {
                assert(numbers@[before.len() as int] == typed);
                assert forall|other: u8| numbers@.contains(other) <==> (1 <= other < typed + 1
                    && board_status@[other - 1] == GameResult::Continue) by {
                    if numbers@.contains(other) {
                        let k = choose|k: int| 0 <= k < numbers@.len() && numbers@[k] == other;
                        if k < before.len() {
                            assert(before[k] == other);
                            assert(before.contains(other));
                        }
                    }
                    if before.contains(other) {
                        let k = choose|k: int| 0 <= k < before.len() && before[k] == other;
                        assert(numbers@[k] == other);
                    }
                }
            }
        }
        typed = typed + 1;
    }
    numbers
}

} // verus!
