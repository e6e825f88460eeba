//! The rules that a small board and the ultimate board share: a grid of nine
//! places, eight lines of three, and the outcome that follows from who owns
//! which place.
//!
//! Places are numbered row by row:
//! ```text
//! 0 | 1 | 2
//! --+---+--
//! 3 | 4 | 5
//! --+---+--
//! 6 | 7 | 8
//! ```

use vstd::prelude::*;
use crate::game::game_result::GameResult;
use crate::game::player::Player;

verus! {

/// The three places of line `k`. Rows come first, then columns, then the two
/// diagonals.
pub open spec fn line(k: int) -> (int, int, int) {
    if k == 0 {
        (0, 1, 2)
    } else if k == 1 {
        (3, 4, 5)
    } else if k == 2 {
        (6, 7, 8)
    } else if k == 3 {
        (0, 3, 6)
    } else if k == 4 {
        (1, 4, 7)
    } else if k == 5 {
        (2, 5, 8)
    } else if k == 6 {
        (0, 4, 8)
    } else {
        (2, 4, 6)
    }
}

/// True when `player` owns all three places of line `k`.
pub open spec fn owns_line(owners: Seq<Option<Player>>, k: int, player: Player) -> bool {
    let (a, b, c) = line(k);
    owners[a] == Some(player) && owners[b] == Some(player) && owners[c] == Some(player)
}

/// The player who owns all of the first line, from line `from` on, that one
/// player owns all of; `None` when no such line is left.
pub open spec fn first_line_owner(owners: Seq<Option<Player>>, from: int) -> Option<Player>
    decreases 8 - from,
{
    if from >= 8 || from < 0 {
        None
    } else if owns_line(owners, from, Player::One) {
        Some(Player::One)
    } else if owns_line(owners, from, Player::Two) {
        Some(Player::Two)
    } else {
        first_line_owner(owners, from + 1)
    }
}

/// True when every one of the nine places is closed.
pub open spec fn all_closed(closed: Seq<bool>) -> bool {
    forall|i: int| 0 <= i < 9 ==> closed[i]
}

/// The outcome of a grid. `owners[i]` is the player who owns place `i`, if
/// any; `closed[i]` says that nothing more can happen at place `i`.
///
/// The owner of the first complete line wins. With no complete line the grid
/// is drawn once every place is closed, and goes on otherwise.
pub open spec fn grid_outcome(owners: Seq<Option<Player>>, closed: Seq<bool>) -> GameResult {
    match first_line_owner(owners, 0) {
        Some(player) => GameResult::Win(player),
        None => if all_closed(closed) {
            GameResult::Draw
        } else {
            GameResult::Continue
        },
    }
}

/// The outcome of nine squares that players mark: a marked square is owned by
/// the player who marked it, and closed.
pub open spec fn cells_outcome(cells: Seq<Option<Player>>) -> GameResult {
    grid_outcome(cells, Seq::new(9, |i: int| cells[i] is Some))
}

/// A grid goes on exactly when no line is complete and some place is open, and
/// is drawn exactly when no line is complete and no place is open.
pub proof fn lemma_grid_outcome(owners: Seq<Option<Player>>, closed: Seq<bool>)
    ensures
        grid_outcome(owners, closed) == GameResult::Continue <==> (first_line_owner(owners, 0)
            is None && exists|i: int| 0 <= i < 9 && !closed[i]),
        grid_outcome(owners, closed) == GameResult::Draw <==> (first_line_owner(owners, 0)
            is None && all_closed(closed)),
        forall|player: Player|
            grid_outcome(owners, closed) == GameResult::Win(player) <==> first_line_owner(
                owners,
                0,
            ) == Some(player),
{
}

/// No line is complete exactly when no player owns all of any of the eight
/// lines; and the owner of the first complete line owns all of some line.
pub proof fn lemma_first_line_owner(owners: Seq<Option<Player>>, from: int)
    requires
        0 <= from <= 8,
    ensures
        first_line_owner(owners, from) is None <==> (forall|k: int, player: Player|
            from <= k < 8 ==> !owns_line(owners, k, player)),
        first_line_owner(owners, from) matches Some(player) ==> exists|k: int|
            from <= k < 8 && owns_line(owners, k, player),
    decreases 8 - from,
{
    if from < 8 {
        lemma_first_line_owner(owners, from + 1);
        if owns_line(owners, from, Player::One) || owns_line(owners, from, Player::Two) {
        } else {
            assert forall|k: int, player: Player| from <= k < 8 && first_line_owner(
                owners,
                from,
            ) is None implies !owns_line(owners, k, player) by {
                if k == from {
                    match player {
                        Player::One => {},
                        Player::Two => {},
                    }
                }
            }
            if let Some(player) = first_line_owner(owners, from) {
                let k = choose|k: int| from + 1 <= k < 8 && owns_line(owners, k, player);
                assert(from <= k < 8 && owns_line(owners, k, player));
            }
        }
    }
}

/// The three places of line `k`, for executable code.
pub fn line_places(k: usize) -> (places: (usize, usize, usize))
    requires
        k < 8,
    ensures
        places.0 == line(k as int).0,
        places.1 == line(k as int).1,
        places.2 == line(k as int).2,
        places.0 < 9,
        places.1 < 9,
        places.2 < 9,
{
    if k == 0 {
        (0, 1, 2)
    } else if k == 1 {
        (3, 4, 5)
    } else if k == 2 {
        (6, 7, 8)
    } else if k == 3 {
        (0, 3, 6)
    } else if k == 4 {
        (1, 4, 7)
    } else if k == 5 {
        (2, 5, 8)
    } else if k == 6 {
        (0, 4, 8)
    } else {
        (2, 4, 6)
    }
}

} // verus!
