//! One small board: nine squares, each empty or marked by a player.
//!
//! The marks of each player are kept as a [`BitBoard`]. Callers number the
//! squares row by row:
//! ```text
//! 0 | 1 | 2
//! --+---+--
//! 3 | 4 | 5
//! --+---+--
//! 6 | 7 | 8
//! ```
//! Inside the bit sets the squares run clockwise around the centre, which
//! comes last:
//! ```text
//! 0 | 1 | 2
//! --+---+--
//! 7 | 8 | 3
//! --+---+--
//! 6 | 5 | 4
//! ```

use vstd::prelude::*;
use vstd::std_specs::convert::FromSpecImpl;
use crate::game::bitboard::{
    bit_is_set, lemma_operators, lemma_single_bit, BitBoard, ALL_SQUARES,
};
use crate::game::game_result::GameResult;
use crate::game::lines::{cells_outcome, first_line_owner, owns_line};
use crate::game::player::Player;

verus! {

/// The squares of the four corners, as bits.
pub const CORNERS: u16 = 0b0_0101_0101;

/// The squares of the four edges, as bits.
pub const EDGES: u16 = 0b0_1010_1010;

/// The bit that stands for the square that callers call `index`.
pub open spec fn human_to_bit(index: int) -> int {
    if index == 3 {
        7
    } else if index == 4 {
        8
    } else if index == 5 {
        3
    } else if index == 6 {
        6
    } else if index == 7 {
        5
    } else if index == 8 {
        4
    } else {
        index
    }
}

/// The square, as callers number it, that bit `index` stands for.
pub open spec fn bit_to_human(index: int) -> int {
    if index == 3 {
        5
    } else if index == 4 {
        8
    } else if index == 5 {
        7
    } else if index == 6 {
        6
    } else if index == 7 {
        3
    } else if index == 8 {
        4
    } else {
        index
    }
}

/// Going from a square to its bit and back gives the square again, and so
/// does going from a bit to its square and back; both stay below nine.
pub proof fn lemma_translation_round_trip(index: int)
    requires
        0 <= index < 9,
    ensures
        bit_to_human(human_to_bit(index)) == index,
        human_to_bit(bit_to_human(index)) == index,
        0 <= human_to_bit(index) < 9,
        0 <= bit_to_human(index) < 9,
{
}

/// No two squares share a bit, and no two bits share a square.
pub proof fn lemma_translation_injective(first: int, second: int)
    requires
        0 <= first < 9,
        0 <= second < 9,
        first != second,
    ensures
        human_to_bit(first) != human_to_bit(second),
        bit_to_human(first) != bit_to_human(second),
{
}

/// The bits of the three squares of line `k` of
/// [`line`](crate::game::lines::line).
pub open spec fn spec_line_mask(k: int) -> u16 {
    if k == 0 {
        0b0_0000_0111
    } else if k == 1 {
        0b1_1000_1000
    } else if k == 2 {
        0b0_0111_0000
    } else if k == 3 {
        0b0_1100_0001
    } else if k == 4 {
        0b1_0010_0010
    } else if k == 5 {
        0b0_0001_1100
    } else if k == 6 {
        0b1_0001_0001
    } else {
        0b1_0100_0100
    }
}

/// The bits of pair `k` of the pairs of squares that
/// `get_partial_wins_difference` looks at.
pub open spec fn spec_pair_mask(k: int) -> u16 {
    if k == 0 {
        0b0_0000_0011
    } else if k == 1 {
        0b0_0000_0101
    } else if k == 2 {
        0b0_0000_0110
    } else if k == 3 {
        0b1_1000_0000
    } else if k == 4 {
        0b0_1000_1000
    } else if k == 5 {
        0b1_1000_0000
    } else if k == 6 {
        0b0_0110_0000
    } else if k == 7 {
        0b0_0011_0000
    } else if k == 8 {
        0b0_0101_0000
    } else if k == 9 {
        0b0_1000_0001
    } else if k == 10 {
        0b0_0100_0001
    } else if k == 11 {
        0b0_1100_0000
    } else if k == 12 {
        0b1_0000_0010
    } else if k == 13 {
        0b1_0010_0000
    } else if k == 14 {
        0b0_0010_0010
    } else if k == 15 {
        0b0_0000_1100
    } else if k == 16 {
        0b0_0001_1000
    } else if k == 17 {
        0b0_0001_0100
    } else if k == 18 {
        0b1_0001_0000
    } else if k == 19 {
        0b0_0001_0001
    } else if k == 20 {
        0b1_0000_0001
    } else if k == 21 {
        0b1_0100_0000
    } else if k == 22 {
        0b0_0100_0001
    } else {
        0b1_0000_0001
    }
}

/// The moves on the empty squares among the first `bound` bits of small board
/// number `id`, whose squares are `cells`, in the order of the bits.
pub open spec fn moves_on(cells: Seq<Option<Player>>, id: int, bound: int) -> Seq<u8>
    decreases bound,
{
    if bound <= 0 {
        Seq::empty()
    } else if cells[bit_to_human(bound - 1)] is None {
        moves_on(cells, id, bound - 1).push((9 * id + bit_to_human(bound - 1)) as u8)
    } else {
        moves_on(cells, id, bound - 1)
    }
}

/// The moves listed by `moves_on` are the moves on the empty squares among
/// the first `bound` bits, each once.
pub proof fn lemma_moves_on(cells: Seq<Option<Player>>, id: int, bound: int)
    requires
        0 <= id < 9,
        0 <= bound <= 9,
    ensures
        moves_on(cells, id, bound).len() <= bound,
        forall|k: int|
            0 <= k < moves_on(cells, id, bound).len() ==> {
                let m = #[trigger] moves_on(cells, id, bound)[k];
                &&& 9 * id <= m < 9 * id + 9
                &&& cells[m - 9 * id] is None
                &&& human_to_bit(m - 9 * id) < bound
            },
        forall|j: int, k: int|
            0 <= j < k < moves_on(cells, id, bound).len() ==> moves_on(cells, id, bound)[j]
                != moves_on(cells, id, bound)[k],
        forall|index: int|
            0 <= index < 9 && human_to_bit(index) < bound && cells[index] is None ==> moves_on(
                cells,
                id,
                bound,
            ).contains((9 * id + index) as u8),
    decreases bound,
{
    if bound > 0 {
        lemma_moves_on(cells, id, bound - 1);
        let shorter = moves_on(cells, id, bound - 1);
        let list = moves_on(cells, id, bound);
        let square = bit_to_human(bound - 1);
        lemma_translation_round_trip(bound - 1);
        if cells[square] is None {
            let m = (9 * id + square) as u8;
            assert(list == shorter.push(m));
            assert forall|j: int, k: int| 0 <= j < k < list.len() implies list[j] != list[k] by {
                if k == shorter.len() {
                    assert(human_to_bit(shorter[j] - 9 * id) < bound - 1);
                }
            }
            assert forall|index: int|
                0 <= index < 9 && human_to_bit(index) < bound && cells[index]
                    is None implies list.contains((9 * id + index) as u8) by {
                if human_to_bit(index) == bound - 1 {
                    assert(list[shorter.len() as int] == m);
                } else {
                    let k = choose|k: int|
                        0 <= k < shorter.len() && shorter[k] == (9 * id + index) as u8;
                    assert(list[k] == shorter[k]);
                }
            }
        } else {
            assert forall|index: int|
                0 <= index < 9 && human_to_bit(index) < bound && cells[index]
                    is None implies list.contains((9 * id + index) as u8) by {
                if human_to_bit(index) == bound - 1 {
                    assert(index == square);
                }
            }
        }
    }
}

/// A move is listed by `moves_on` for all nine bits exactly when it marks an
/// empty square of the board.
pub proof fn lemma_moves_on_board(cells: Seq<Option<Player>>, id: int, m: u8)
    requires
        0 <= id < 9,
    ensures
        moves_on(cells, id, 9).contains(m) <==> (9 * id <= m < 9 * id + 9 && cells[m - 9 * id]
            is None),
        moves_on(cells, id, 9).len() <= 9,
{
    lemma_moves_on(cells, id, 9);
    if 9 * id <= m < 9 * id + 9 && cells[m - 9 * id] is None {
        let index = m - 9 * id;
        lemma_translation_round_trip(index);
        assert((9 * id + index) as u8 == m);
    }
}

/// The two bits of pair `k` of the pairs of squares that
/// `get_partial_wins_difference` looks at.
pub open spec fn pair_bits(k: int) -> (int, int) {
    if k == 0 {
        (0, 1)
    } else if k == 1 {
        (0, 2)
    } else if k == 2 {
        (1, 2)
    } else if k == 3 {
        (7, 8)
    } else if k == 4 {
        (3, 7)
    } else if k == 5 {
        (7, 8)
    } else if k == 6 {
        (5, 6)
    } else if k == 7 {
        (4, 5)
    } else if k == 8 {
        (4, 6)
    } else if k == 9 {
        (0, 7)
    } else if k == 10 {
        (0, 6)
    } else if k == 11 {
        (6, 7)
    } else if k == 12 {
        (1, 8)
    } else if k == 13 {
        (5, 8)
    } else if k == 14 {
        (1, 5)
    } else if k == 15 {
        (2, 3)
    } else if k == 16 {
        (3, 4)
    } else if k == 17 {
        (2, 4)
    } else if k == 18 {
        (4, 8)
    } else if k == 19 {
        (0, 4)
    } else if k == 20 {
        (0, 8)
    } else if k == 21 {
        (6, 8)
    } else if k == 22 {
        (0, 6)
    } else {
        (0, 8)
    }
}

/// The two squares of pair `k`, as callers number them.
pub open spec fn pair_squares(k: int) -> (int, int) {
    (bit_to_human(pair_bits(k).0), bit_to_human(pair_bits(k).1))
}

/// What pair `k` adds to the partial wins difference of `player`: one when
/// the player has marked both squares of the pair, minus one when the
/// opponent has, nothing otherwise.
pub open spec fn pair_term(cells: Seq<Option<Player>>, player: Player, k: int) -> int {
    let (a, b) = pair_squares(k);
    if cells[a] == Some(player) && cells[b] == Some(player) {
        1
    } else if cells[a] == Some(player.spec_opponent()) && cells[b] == Some(
        player.spec_opponent(),
    ) {
        -1
    } else {
        0
    }
}

/// The sum of what the first `bound` pairs add to the partial wins
/// difference of `player`.
pub open spec fn pairs_below(cells: Seq<Option<Player>>, player: Player, bound: int) -> int
    decreases bound,
{
    if bound <= 0 {
        0
    } else {
        pairs_below(cells, player, bound - 1) + pair_term(cells, player, bound - 1)
    }
}

/// The partial wins difference of `player`: over the 24 pairs of squares,
/// the pairs of which the player has marked both squares minus the pairs of
/// which the opponent has.
pub open spec fn partial_wins_difference(cells: Seq<Option<Player>>, player: Player) -> int {
    pairs_below(cells, player, 24)
}

/// The partial wins difference lies between minus and plus the number of
/// pairs.
pub proof fn lemma_pairs_below_bounds(cells: Seq<Option<Player>>, player: Player, bound: int)
    requires
        0 <= bound,
    ensures
        -bound <= pairs_below(cells, player, bound) <= bound,
    decreases bound,
{
    if bound > 0 {
        lemma_pairs_below_bounds(cells, player, bound - 1);
    }
}

/// Number of squares among those of the first `bound` bits that `player` has
/// marked.
pub open spec fn marked_below(cells: Seq<Option<Player>>, player: Player, bound: int) -> int
    decreases bound,
{
    if bound <= 0 {
        0
    } else {
        marked_below(cells, player, bound - 1) + if cells[bit_to_human(bound - 1)] == Some(
            player,
        ) {
            1int
        } else {
            0int
        }
    }
}

/// Squares that `player` has marked minus squares that the opponent has.
pub open spec fn marks_difference(cells: Seq<Option<Player>>, player: Player) -> int {
    marked_below(cells, player, 9) - marked_below(cells, player.spec_opponent(), 9)
}

/// No more squares are marked than there are.
pub proof fn lemma_marked_below_bounds(cells: Seq<Option<Player>>, player: Player, bound: int)
    requires
        0 <= bound,
    ensures
        0 <= marked_below(cells, player, bound) <= bound,
    decreases bound,
{
    if bound > 0 {
        lemma_marked_below_bounds(cells, player, bound - 1);
    }
}

/// The squares of a board whose marks are the bits of `first` for player one
/// and of `second` for player two.
pub open spec fn cells_of_bits(first: u16, second: u16) -> Seq<Option<Player>> {
    Seq::new(
        9,
        |index: int|
            if bit_is_set(first, human_to_bit(index)) {
                Some(Player::One)
            } else if bit_is_set(second, human_to_bit(index)) {
                Some(Player::Two)
            } else {
                None
            },
    )
}

/// A value holds all bits of a pair's mask exactly when it holds the bit of
/// each square of the pair.
proof fn lemma_pair_masks(b: u16)
    by (bit_vector)
    ensures
        (0b0_0000_0011u16 & b == 0b0_0000_0011u16) <==> ((b >> 0u16) & 1 == 1 && (b >> 1u16) & 1 == 1),
        (0b0_0000_0101u16 & b == 0b0_0000_0101u16) <==> ((b >> 0u16) & 1 == 1 && (b >> 2u16) & 1 == 1),
        (0b0_0000_0110u16 & b == 0b0_0000_0110u16) <==> ((b >> 1u16) & 1 == 1 && (b >> 2u16) & 1 == 1),
        (0b1_1000_0000u16 & b == 0b1_1000_0000u16) <==> ((b >> 7u16) & 1 == 1 && (b >> 8u16) & 1 == 1),
        (0b0_1000_1000u16 & b == 0b0_1000_1000u16) <==> ((b >> 3u16) & 1 == 1 && (b >> 7u16) & 1 == 1),
        (0b0_0110_0000u16 & b == 0b0_0110_0000u16) <==> ((b >> 5u16) & 1 == 1 && (b >> 6u16) & 1 == 1),
        (0b0_0011_0000u16 & b == 0b0_0011_0000u16) <==> ((b >> 4u16) & 1 == 1 && (b >> 5u16) & 1 == 1),
        (0b0_0101_0000u16 & b == 0b0_0101_0000u16) <==> ((b >> 4u16) & 1 == 1 && (b >> 6u16) & 1 == 1),
        (0b0_1000_0001u16 & b == 0b0_1000_0001u16) <==> ((b >> 0u16) & 1 == 1 && (b >> 7u16) & 1 == 1),
        (0b0_0100_0001u16 & b == 0b0_0100_0001u16) <==> ((b >> 0u16) & 1 == 1 && (b >> 6u16) & 1 == 1),
        (0b0_1100_0000u16 & b == 0b0_1100_0000u16) <==> ((b >> 6u16) & 1 == 1 && (b >> 7u16) & 1 == 1),
        (0b1_0000_0010u16 & b == 0b1_0000_0010u16) <==> ((b >> 1u16) & 1 == 1 && (b >> 8u16) & 1 == 1),
        (0b1_0010_0000u16 & b == 0b1_0010_0000u16) <==> ((b >> 5u16) & 1 == 1 && (b >> 8u16) & 1 == 1),
        (0b0_0010_0010u16 & b == 0b0_0010_0010u16) <==> ((b >> 1u16) & 1 == 1 && (b >> 5u16) & 1 == 1),
        (0b0_0000_1100u16 & b == 0b0_0000_1100u16) <==> ((b >> 2u16) & 1 == 1 && (b >> 3u16) & 1 == 1),
        (0b0_0001_1000u16 & b == 0b0_0001_1000u16) <==> ((b >> 3u16) & 1 == 1 && (b >> 4u16) & 1 == 1),
        (0b0_0001_0100u16 & b == 0b0_0001_0100u16) <==> ((b >> 2u16) & 1 == 1 && (b >> 4u16) & 1 == 1),
        (0b1_0001_0000u16 & b == 0b1_0001_0000u16) <==> ((b >> 4u16) & 1 == 1 && (b >> 8u16) & 1 == 1),
        (0b0_0001_0001u16 & b == 0b0_0001_0001u16) <==> ((b >> 0u16) & 1 == 1 && (b >> 4u16) & 1 == 1),
        (0b1_0000_0001u16 & b == 0b1_0000_0001u16) <==> ((b >> 0u16) & 1 == 1 && (b >> 8u16) & 1 == 1),
        (0b1_0100_0000u16 & b == 0b1_0100_0000u16) <==> ((b >> 6u16) & 1 == 1 && (b >> 8u16) & 1 == 1),
{
}

/// A value shares no bit with a mask that holds two bits exactly when it
/// holds neither of them.
proof fn lemma_masked_zero(b: u16, mask: u16)
    ensures
        forall|k: int|
            0 <= k < 24 && mask == spec_pair_mask(k) ==> ((mask & b == 0) <==> (!bit_is_set(
                b,
                #[trigger] pair_bits(k).0,
            ) && !bit_is_set(b, pair_bits(k).1))),
{
    assert forall|k: int| 0 <= k < 24 && mask == spec_pair_mask(k) implies ((mask & b == 0) <==> (
    !bit_is_set(b, #[trigger] pair_bits(k).0) && !bit_is_set(b, pair_bits(k).1))) by {
        let p = pair_bits(k).0 as u16;
        let q = pair_bits(k).1 as u16;
        assert(mask == (1u16 << p) | (1u16 << q)) by {
            lemma_pair_mask_bits();
        }
        lemma_two_bits(b, p, q);
    }
}

/// Each mask of a pair holds the two bits of the pair and no other.
proof fn lemma_pair_mask_bits()
    ensures
        forall|k: int|
            0 <= k < 24 ==> #[trigger] spec_pair_mask(k) == (1u16 << (pair_bits(k).0 as u16)) | (1u16
                << (pair_bits(k).1 as u16)),
{
    lemma_shifted_ones();
    assert forall|k: int| 0 <= k < 24 implies #[trigger] spec_pair_mask(k) == (1u16 << (pair_bits(
        k,
    ).0 as u16)) | (1u16 << (pair_bits(k).1 as u16)) by {
        lemma_shifted_ones();
    }
}

/// The values of one shifted to each of the nine bits, and of the masks that
/// hold two of them.
proof fn lemma_shifted_ones()
    by (bit_vector)
    ensures
        (1u16 << 0u16) | (1u16 << 1u16) == 0b0_0000_0011u16,
        (1u16 << 0u16) | (1u16 << 2u16) == 0b0_0000_0101u16,
        (1u16 << 1u16) | (1u16 << 2u16) == 0b0_0000_0110u16,
        (1u16 << 7u16) | (1u16 << 8u16) == 0b1_1000_0000u16,
        (1u16 << 3u16) | (1u16 << 7u16) == 0b0_1000_1000u16,
        (1u16 << 5u16) | (1u16 << 6u16) == 0b0_0110_0000u16,
        (1u16 << 4u16) | (1u16 << 5u16) == 0b0_0011_0000u16,
        (1u16 << 4u16) | (1u16 << 6u16) == 0b0_0101_0000u16,
        (1u16 << 0u16) | (1u16 << 7u16) == 0b0_1000_0001u16,
        (1u16 << 0u16) | (1u16 << 6u16) == 0b0_0100_0001u16,
        (1u16 << 6u16) | (1u16 << 7u16) == 0b0_1100_0000u16,
        (1u16 << 1u16) | (1u16 << 8u16) == 0b1_0000_0010u16,
        (1u16 << 5u16) | (1u16 << 8u16) == 0b1_0010_0000u16,
        (1u16 << 1u16) | (1u16 << 5u16) == 0b0_0010_0010u16,
        (1u16 << 2u16) | (1u16 << 3u16) == 0b0_0000_1100u16,
        (1u16 << 3u16) | (1u16 << 4u16) == 0b0_0001_1000u16,
        (1u16 << 2u16) | (1u16 << 4u16) == 0b0_0001_0100u16,
        (1u16 << 4u16) | (1u16 << 8u16) == 0b1_0001_0000u16,
        (1u16 << 0u16) | (1u16 << 4u16) == 0b0_0001_0001u16,
        (1u16 << 0u16) | (1u16 << 8u16) == 0b1_0000_0001u16,
        (1u16 << 6u16) | (1u16 << 8u16) == 0b1_0100_0000u16,
{
}

/// A value shares no bit with the two bits `p` and `q` exactly when it holds
/// neither.
proof fn lemma_two_bits(b: u16, p: u16, q: u16)
    by (bit_vector)
    requires
        p < 16,
        q < 16,
    ensures
        (((1u16 << p) | (1u16 << q)) & b == 0) <==> ((b >> p) & 1 != 1 && (b >> q) & 1 != 1),
{
}

/// One when `player` has marked square `index`, zero otherwise.
pub open spec fn owned(cells: Seq<Option<Player>>, player: Player, index: int) -> int {
    if cells[index] == Some(player) {
        1
    } else {
        0
    }
}

/// Corners that `player` has marked minus corners that the opponent has.
pub open spec fn corners_difference(cells: Seq<Option<Player>>, player: Player) -> int {
    let other = player.spec_opponent();
    (owned(cells, player, 0) + owned(cells, player, 2) + owned(cells, player, 6) + owned(
        cells,
        player,
        8,
    )) - (owned(cells, other, 0) + owned(cells, other, 2) + owned(cells, other, 6) + owned(
        cells,
        other,
        8,
    ))
}

/// Edges that `player` has marked minus edges that the opponent has.
pub open spec fn edges_difference(cells: Seq<Option<Player>>, player: Player) -> int {
    let other = player.spec_opponent();
    (owned(cells, player, 1) + owned(cells, player, 3) + owned(cells, player, 5) + owned(
        cells,
        player,
        7,
    )) - (owned(cells, other, 1) + owned(cells, other, 3) + owned(cells, other, 5) + owned(
        cells,
        other,
        7,
    ))
}

/// Which bits the masks of the corners and of the edges hold.
proof fn lemma_corner_and_edge_bits()
    by (bit_vector)
    ensures
        (0b0_0101_0101u16 >> 0u16) & 1 == 1,
        (0b0_0101_0101u16 >> 1u16) & 1 == 0,
        (0b0_0101_0101u16 >> 2u16) & 1 == 1,
        (0b0_0101_0101u16 >> 3u16) & 1 == 0,
        (0b0_0101_0101u16 >> 4u16) & 1 == 1,
        (0b0_0101_0101u16 >> 5u16) & 1 == 0,
        (0b0_0101_0101u16 >> 6u16) & 1 == 1,
        (0b0_0101_0101u16 >> 7u16) & 1 == 0,
        (0b0_0101_0101u16 >> 8u16) & 1 == 0,
        (0b0_1010_1010u16 >> 0u16) & 1 == 0,
        (0b0_1010_1010u16 >> 1u16) & 1 == 1,
        (0b0_1010_1010u16 >> 2u16) & 1 == 0,
        (0b0_1010_1010u16 >> 3u16) & 1 == 1,
        (0b0_1010_1010u16 >> 4u16) & 1 == 0,
        (0b0_1010_1010u16 >> 5u16) & 1 == 1,
        (0b0_1010_1010u16 >> 6u16) & 1 == 0,
        (0b0_1010_1010u16 >> 7u16) & 1 == 1,
        (0b0_1010_1010u16 >> 8u16) & 1 == 0,
{
}

/// A value holds all bits of a line's mask exactly when it holds the bit of
/// each square of the line.
proof fn lemma_line_masks(b: u16)
    by (bit_vector)
    ensures
        (0b0_0000_0111u16 & b == 0b0_0000_0111u16) <==> ((b >> 0u16) & 1 == 1 && (b >> 1u16) & 1
            == 1 && (b >> 2u16) & 1 == 1),
        (0b1_1000_1000u16 & b == 0b1_1000_1000u16) <==> ((b >> 7u16) & 1 == 1 && (b >> 8u16) & 1
            == 1 && (b >> 3u16) & 1 == 1),
        (0b0_0111_0000u16 & b == 0b0_0111_0000u16) <==> ((b >> 6u16) & 1 == 1 && (b >> 5u16) & 1
            == 1 && (b >> 4u16) & 1 == 1),
        (0b0_1100_0001u16 & b == 0b0_1100_0001u16) <==> ((b >> 0u16) & 1 == 1 && (b >> 7u16) & 1
            == 1 && (b >> 6u16) & 1 == 1),
        (0b1_0010_0010u16 & b == 0b1_0010_0010u16) <==> ((b >> 1u16) & 1 == 1 && (b >> 8u16) & 1
            == 1 && (b >> 5u16) & 1 == 1),
        (0b0_0001_1100u16 & b == 0b0_0001_1100u16) <==> ((b >> 2u16) & 1 == 1 && (b >> 3u16) & 1
            == 1 && (b >> 4u16) & 1 == 1),
        (0b1_0001_0001u16 & b == 0b1_0001_0001u16) <==> ((b >> 0u16) & 1 == 1 && (b >> 8u16) & 1
            == 1 && (b >> 4u16) & 1 == 1),
        (0b1_0100_0100u16 & b == 0b1_0100_0100u16) <==> ((b >> 2u16) & 1 == 1 && (b >> 8u16) & 1
            == 1 && (b >> 6u16) & 1 == 1),
{
}

/// The key of two nine-bit values is the first plus 512 times the second.
proof fn lemma_key(first: u16, second: u16)
    by (bit_vector)
    requires
        first < 512,
        second < 512,
    ensures
        (first as u32) | ((second as u32) << 9u32) == first as u32 + 512u32 * (second as u32),
        (first as u32) | ((second as u32) << 9u32) < 0x4_0000u32,
{
}

/// What stands on a square when a board is shown.
#[derive(Copy, Clone, Debug, PartialEq, Eq, Structural)]
pub enum BoardSymbol {
    /// A mark of [`Player::One`].
    X,
    /// A mark of [`Player::Two`].
    O,
    /// No mark.
    Empty,
}

impl BoardSymbol {
    /// The symbol for the content of a square.
    pub open spec fn of_cell(cell: Option<Player>) -> BoardSymbol {
        match cell {
            Some(Player::One) => BoardSymbol::X,
            Some(Player::Two) => BoardSymbol::O,
            None => BoardSymbol::Empty,
        }
    }
}

impl FromSpecImpl<Player> for BoardSymbol {
    open spec fn obeys_from_spec() -> bool {
        true
    }

    open spec fn from_spec(player: Player) -> BoardSymbol {
        BoardSymbol::of_cell(Some(player))
    }
}

impl From<Player> for BoardSymbol {
    /// The symbol with which `player` marks squares.
    fn from(player: Player) -> (symbol: BoardSymbol) {
        match player {
            Player::One => BoardSymbol::X,
            Player::Two => BoardSymbol::O,
        }
    }
}

/// A small board.
#[derive(Copy, Clone, Debug)]
pub struct Board {
    /// The marks of each player, by the player's index.
    board: [BitBoard; 2],
    /// Which of the nine small boards this is. It offsets the numbers of the
    /// moves on this board.
    unique_id: u8,
}

impl View for Board {
    type V = Seq<Option<Player>>;

    /// The nine squares, row by row, each with the player who marked it.
    open spec fn view(&self) -> Seq<Option<Player>> {
        Seq::new(9, |index: int| self.cell(index))
    }
}

impl Board {
    /// The squares that `player` has marked, as bits.
    pub closed spec fn marks(self, player: Player) -> BitBoard {
        self.board[player.spec_index() as int]
    }

    /// Which of the nine small boards this is.
    pub closed spec fn id(self) -> u8 {
        self.unique_id
    }

    /// No square belongs to both players, and the board is one of the nine.
    pub open spec fn wf(self) -> bool {
        &&& self.marks(Player::One).wf()
        &&& self.marks(Player::Two).wf()
        &&& self.id() < 9
        &&& forall|bit: int|
            !(self.marks(Player::One).contains(bit) && self.marks(Player::Two).contains(bit))
    }

    /// The player who marked square `index`, if any.
    pub open spec fn cell(self, index: int) -> Option<Player> {
        if self.marks(Player::One).contains(human_to_bit(index)) {
            Some(Player::One)
        } else if self.marks(Player::Two).contains(human_to_bit(index)) {
            Some(Player::Two)
        } else {
            None
        }
    }

    /// The outcome of the board: the owner of the first complete line has
    /// won; with no complete line the board is drawn when it is full and goes
    /// on otherwise.
    pub open spec fn outcome(self) -> GameResult {
        cells_outcome(self@)
    }

    /// The moves on the empty squares of the board, in the order of the bits.
    pub open spec fn possible_moves(self) -> Seq<u8> {
        moves_on(self@, self.id() as int, 9)
    }

    /// The key of the board: the bits of player one plus 512 times the bits
    /// of player two.
    pub open spec fn key(self) -> int {
        self.marks(Player::One).bits() + 512 * self.marks(Player::Two).bits()
    }

    /// A square holds the mark of a player exactly when the bit of the square
    /// is in the player's set.
    pub proof fn lemma_cell(self, index: int, player: Player)
        requires
            self.wf(),
        ensures
            self.cell(index) == Some(player) <==> self.marks(player).contains(human_to_bit(index)),
    {
        match player {
            Player::One => {},
            Player::Two => {},
        }
    }

    /// The squares of a board are those that follow from the bits of its
    /// marks.
    pub proof fn lemma_view_of_bits(self)
        requires
            self.wf(),
        ensures
            self@ == cells_of_bits(self.marks(Player::One).bits(), self.marks(Player::Two).bits()),
    {
        assert(self@ =~= cells_of_bits(
            self.marks(Player::One).bits(),
            self.marks(Player::Two).bits(),
        ));
    }

    /// The key of a board is the number of a pair of mark sets that share no
    /// square, and the two sets are those of the board.
    pub proof fn lemma_key_is_legal(self)
        requires
            self.wf(),
        ensures
            LegalBoardIterator::legal(self.key()),
            LegalBoardIterator::first_of(self.key()) == self.marks(Player::One).bits(),
            LegalBoardIterator::second_of(self.key()) == self.marks(Player::Two).bits(),
    {
        let first = self.marks(Player::One).bits();
        let second = self.marks(Player::Two).bits();
        assert forall|i: int| 0 <= i < 9 implies !bit_is_set(first & second, i) by {
            crate::game::bitboard::lemma_bitwise(first, second, i as u16);
            assert(!(self.marks(Player::One).contains(i) && self.marks(Player::Two).contains(i)));
        }
        crate::game::bitboard::lemma_nine_bits(first, second, 0);
        assert forall|i: int| 0 <= i < 9 implies bit_is_set(first & second, i) == bit_is_set(
            0u16,
            i,
        ) by {
            lemma_single_bit(0, i as u16, 0);
        }
        crate::game::bitboard::lemma_bits_determine_value(first & second, 0);
    }

    /// The squares in the set of a player's marks are as many as the squares
    /// that hold the player's mark.
    pub proof fn lemma_marks_counted(self, player: Player, bound: int)
        requires
            self.wf(),
            0 <= bound <= 9,
        ensures
            self.marks(player).squares_below(bound).len() == marked_below(self@, player, bound),
        decreases bound,
    {
        if bound > 0 {
            self.lemma_marks_counted(player, bound - 1);
            lemma_translation_round_trip(bound - 1);
            self.lemma_cell(bit_to_human(bound - 1), player);
        }
    }

    /// A move is among the possible moves exactly when it marks an empty
    /// square of this board.
    pub proof fn lemma_possible_moves(self, m: u8)
        requires
            self.wf(),
        ensures
            self.possible_moves().contains(m) <==> (9 * self.id() <= m < 9 * self.id() + 9
                && self.cell(m - 9 * self.id()) is None),
            self.possible_moves().len() <= 9,
    {
        lemma_moves_on_board(self@, self.id() as int, m);
    }

    /// A board that goes on has an empty square, hence a possible move.
    pub proof fn lemma_open_board_has_move(self)
        requires
            self.wf(),
            self.outcome() == GameResult::Continue,
        ensures
            self.possible_moves().len() > 0,
    {
        let closed = Seq::new(9, |i: int| self@[i] is Some);
        let index = choose|index: int| 0 <= index < 9 && !closed[index];
        assert(self.cell(index) is None);
        self.lemma_possible_moves((9 * self.id() + index) as u8);
        assert(self.possible_moves().contains((9 * self.id() + index) as u8));
    }

    /// A full board on which no line is complete is drawn.
    pub proof fn lemma_full_board_without_line_is_drawn(self)
        requires
            self.wf(),
            forall|index: int| 0 <= index < 9 ==> self.cell(index) is Some,
            forall|k: int, player: Player| 0 <= k < 8 ==> !owns_line(self@, k, player),
        ensures
            self.outcome() == GameResult::Draw,
    {
        crate::game::lines::lemma_first_line_owner(self@, 0);
    }

    /// The board with no mark that is number `unique_id` of the nine.
    pub fn new(unique_id: u8) -> (board: Board)
        requires
            unique_id < 9,
        ensures
            board.wf(),
            board.id() == unique_id,
            forall|index: int| board.cell(index) is None,
            board.marks(Player::One) == BitBoard::spec_empty(),
            board.marks(Player::Two) == BitBoard::spec_empty(),
    {
        Board { board: [BitBoard::empty(), BitBoard::empty()], unique_id }
    }

    /// The board with the given marks of the two players.
    pub fn from_bitboards(bitboards: [BitBoard; 2], unique_id: u8) -> (board: Board)
        requires
            unique_id < 9,
            bitboards[0].wf(),
            bitboards[1].wf(),
            forall|bit: int| !(bitboards[0].contains(bit) && bitboards[1].contains(bit)),
        ensures
            board.wf(),
            board.id() == unique_id,
            board.marks(Player::One) == bitboards[0],
            board.marks(Player::Two) == bitboards[1],
    {
        Board { board: bitboards, unique_id }
    }

    /// Which of the nine small boards this is.
    pub fn get_unique_id(&self) -> (unique_id: u8)
        ensures
            unique_id == self.id(),
    {
        self.unique_id
    }

    /// The marks of `player`.
    pub fn get_marks(&self, player: Player) -> (marks: BitBoard)
        ensures
            marks == self.marks(player),
    {
        self.board[player.index()]
    }

    /// The player who marked square `index`, if any.
    pub fn get_cell(&self, index: u8) -> (cell: Option<Player>)
        requires
            self.wf(),
            index < 9,
        ensures
            cell == self.cell(index as int),
    {
        let bit = Self::from_human_to_bit(index);
        if self.board[0].has(bit) {
            Some(Player::One)
        } else if self.board[1].has(bit) {
            Some(Player::Two)
        } else {
            None
        }
    }

    /// The moves on the empty squares of the board, in the order of the bits.
    pub fn get_possible_moves(&self) -> (moves: Vec<u8>)
        requires
            self.wf(),
        ensures
            moves@ == self.possible_moves(),
    {
        proof {
            lemma_operators(self.board[0], self.board[1]);
            lemma_operators(self.board[0].union(self.board[1]), self.board[0]);
        }
        let empty_squares = self.board[0].union(self.board[1]).complement();
        let mut moves: Vec<u8> = Vec::new();
        let mut bit: u8 = 0;
        while bit < 9
            invariant
                bit <= 9,
                self.wf(),
                empty_squares.wf(),
                forall|other: int|
                    0 <= other < 9 ==> (empty_squares.contains(other) <==> !self.marks(
                        Player::One,
                    ).contains(other) && !self.marks(Player::Two).contains(other)),
                moves@ == moves_on(self@, self.id() as int, bit as int),
            decreases 9 - bit,
        {
            proof {
                lemma_translation_round_trip(bit as int);
            }
            if empty_squares.has(bit) {
                moves.push(Self::from_bit_to_human(bit) + 9 * self.unique_id);
            }
            bit = bit + 1;
        }
        moves
    }

    /// Marks the square that bit `index` stands for, for `player`.
    pub fn set_internal(&mut self, index: u8, player: Player)
        requires
            old(self).wf(),
            index < 9,
            old(self).cell(bit_to_human(index as int)) is None,
        ensures
            final(self).wf(),
            final(self).id() == old(self).id(),
            final(self)@ == old(self)@.update(bit_to_human(index as int), Some(player)),
            final(self).marks(player.spec_opponent()) == old(self).marks(player.spec_opponent()),
            forall|bit: int|
                final(self).marks(player).contains(bit) <==> (bit == index || old(self).marks(
                    player,
                ).contains(bit)),
    {
        let mark = BitBoard::single(index);
        let slot = player.index();
        proof {
            lemma_operators(self.board[slot as int], mark);
            lemma_translation_round_trip(index as int);
        }
        let marks = self.board[slot].union(mark);
        self.board[slot] = marks;
        proof {
            assert forall|other: int| 0 <= other < 9 implies final(self).cell(other) == (if other
                == bit_to_human(index as int) {
                Some(player)
            } else {
                old(self).cell(other)
            }) by {
                lemma_translation_round_trip(other);
                if other != bit_to_human(index as int) {
                    lemma_translation_injective(other, bit_to_human(index as int));
                }
            }
            assert(final(self)@ =~= old(self)@.update(bit_to_human(index as int), Some(player)));
        }
    }

    /// Marks square `index` for `player`.
    pub fn set(&mut self, index: u8, player: Player)
        requires
            old(self).wf(),
            index < 9,
            old(self).cell(index as int) is None,
        ensures
            final(self).wf(),
            final(self).id() == old(self).id(),
            final(self)@ == old(self)@.update(index as int, Some(player)),
            final(self).marks(player.spec_opponent()) == old(self).marks(player.spec_opponent()),
            forall|bit: int|
                final(self).marks(player).contains(bit) <==> (bit == human_to_bit(index as int)
                    || old(self).marks(player).contains(bit)),
    {
        proof {
            lemma_translation_round_trip(index as int);
        }
        let translated_index = Self::from_human_to_bit(index);
        self.set_internal(translated_index, player);
    }

    /// Makes this board number `unique_id` of the nine.
    pub fn set_unique_id(&mut self, unique_id: u8)
        requires
            old(self).wf(),
            unique_id < 9,
        ensures
            final(self).wf(),
            final(self).id() == unique_id,
            final(self).marks(Player::One) == old(self).marks(Player::One),
            final(self).marks(Player::Two) == old(self).marks(Player::Two),
            final(self)@ == old(self)@,
    {
        self.unique_id = unique_id;
        proof {
            assert(final(self)@ =~= old(self)@);
        }
    }

    /// A number that tells boards with different marks apart: the bits of
    /// player one plus 512 times the bits of player two.
    pub fn to_key(&self) -> (key: u32)
        requires
            self.wf(),
        ensures
            key == self.key(),
            key < 0x4_0000,
    {
        let first: u16 = self.board[0].to_bits();
        let second: u16 = self.board[1].to_bits();
        proof {
            lemma_key(first, second);
        }
        (first as u32) | ((second as u32) << 9u32)
    }

    /// The outcome of the board.
    pub fn check_if_won(&self) -> (result: GameResult)
        requires
            self.wf(),
        ensures
            result == self.outcome(),
    {
        let first: u16 = self.board[0].to_bits();
        let second: u16 = self.board[1].to_bits();
        let mut k: usize = 0;
        while k < 8
            invariant
                k <= 8,
                self.wf(),
                first == self.marks(Player::One).bits(),
                second == self.marks(Player::Two).bits(),
                first_line_owner(self@, 0) == first_line_owner(self@, k as int),
            decreases 8 - k,
        {
            let mask = line_mask(k);
            proof {
                lemma_line_masks(first);
                lemma_line_masks(second);
                let (a, b, c) = crate::game::lines::line(k as int);
                self.lemma_cell(a, Player::One);
                self.lemma_cell(b, Player::One);
                self.lemma_cell(c, Player::One);
                self.lemma_cell(a, Player::Two);
                self.lemma_cell(b, Player::Two);
                self.lemma_cell(c, Player::Two);
                assert((mask & first == mask) <==> owns_line(self@, k as int, Player::One));
                assert((mask & second == mask) <==> owns_line(self@, k as int, Player::Two));
            }
            if mask & first == mask {
                return GameResult::Win(Player::One);
            }
            if mask & second == mask {
                return GameResult::Win(Player::Two);
            }
            k = k + 1;
        }
        proof {
            lemma_operators(self.board[0], self.board[1]);
            self.board[0].union(self.board[1]).lemma_full_iff_all();
            let all = self.marks(Player::One).spec_union(self.marks(Player::Two));
            let closed = Seq::new(9, |i: int| self@[i] is Some);
            if all.bits() == ALL_SQUARES {
                assert forall|index: int| 0 <= index < 9 implies closed[index] by {
                    lemma_translation_round_trip(index);
                    assert(all.contains(human_to_bit(index)));
                }
            } else {
                let bit = choose|bit: int| 0 <= bit < 9 && !all.contains(bit);
                lemma_translation_round_trip(bit);
                assert(!closed[bit_to_human(bit)]);
            }
        }
        if self.board[0].union(self.board[1]).to_bits() == ALL_SQUARES {
            return GameResult::Draw;
        }
        GameResult::Continue
    }

    /// Marks of `player` minus marks of the opponent.
    pub fn get_positions_set_difference(&self, player: Player) -> (diff: i8)
        requires
            self.wf(),
        ensures
            diff == marks_difference(self@, player),
            -9 <= diff <= 9,
    {
        proof {
            self.lemma_marks_counted(player, 9);
            self.lemma_marks_counted(player.spec_opponent(), 9);
        }
        let own = self.board[player.index()].count();
        let other = self.board[player.get_opponent().index()].count();
        own as i8 - other as i8
    }

    /// The partial wins difference of `player`: over the 24 pairs of squares,
    /// the pairs of which the player has marked both squares minus the pairs
    /// of which the opponent has.
    pub fn get_partial_wins_difference(&self, player: Player) -> (diff: i8)
        requires
            self.wf(),
        ensures
            diff == partial_wins_difference(self@, player),
            -24 <= diff <= 24,
    {
        let own_marks: u16 = self.board[player.index()].to_bits();
        let other_marks: u16 = self.board[player.get_opponent().index()].to_bits();
        let mut diff: i8 = 0;
        let mut k: usize = 0;
        while k < 24
            invariant
                k <= 24,
                self.wf(),
                own_marks == self.marks(player).bits(),
                other_marks == self.marks(player.spec_opponent()).bits(),
                diff == pairs_below(self@, player, k as int),
                -(k as int) <= diff <= k,
            decreases 24 - k,
        {
            let mask = pair_mask(k);
            let own = mask & own_marks;
            let other = mask & other_marks;
            proof {
                let opponent = player.spec_opponent();
                let (p, q) = pair_bits(k as int);
                let (a, b) = pair_squares(k as int);
                lemma_pair_masks(own_marks);
                lemma_pair_masks(other_marks);
                lemma_translation_round_trip(p);
                lemma_translation_round_trip(q);
                self.lemma_cell(a, player);
                self.lemma_cell(b, player);
                self.lemma_cell(a, opponent);
                self.lemma_cell(b, opponent);
                assert(own == mask <==> (self@[a] == Some(player) && self@[b] == Some(player)));
                assert(other == mask <==> (self@[a] == Some(opponent) && self@[b] == Some(
                    opponent,
                )));
                lemma_masked_zero(own_marks, mask);
                lemma_masked_zero(other_marks, mask);
                assert(own == mask ==> other == 0) by {
                    if own == mask {
                        assert(!self.marks(opponent).contains(p));
                        assert(!self.marks(opponent).contains(q));
                    }
                }
                assert(other == mask ==> own == 0) by {
                    if other == mask {
                        assert(!self.marks(player).contains(p));
                        assert(!self.marks(player).contains(q));
                    }
                }
            }
            if own == mask && other == 0 {
                diff = diff + 1;
            } else if other == mask && own == 0 {
                diff = diff - 1;
            }
            k = k + 1;
        }
        diff
    }

    /// One when `player` has marked the centre, minus one when the opponent
    /// has, zero when the centre is empty.
    pub fn center_occupied(&self, player: Player) -> (side: i8)
        requires
            self.wf(),
        ensures
            side == match self.cell(4) {
                Some(owner) => if owner == player {
                    1i8
                } else {
                    -1i8
                },
                None => 0i8,
            },
    {
        proof {
            self.lemma_cell(4, player);
            self.lemma_cell(4, player.spec_opponent());
        }
        if self.board[player.index()].has(8) {
            return 1;
        } else if self.board[player.get_opponent().index()].has(8) {
            return -1;
        }
        0
    }

    /// The marks of `player` in the corners, and on the edges, are as many
    /// as the corners, and the edges, that hold the player's mark.
    proof fn lemma_corners_and_edges_counted(self, player: Player, corners: BitBoard, edges: BitBoard)
        requires
            self.wf(),
            forall|bit: int|
                corners.contains(bit) <==> (self.marks(player).contains(bit) && bit_is_set(
                    CORNERS,
                    bit,
                )),
            forall|bit: int|
                edges.contains(bit) <==> (self.marks(player).contains(bit) && bit_is_set(
                    EDGES,
                    bit,
                )),
        ensures
            corners.squares().len() == owned(self@, player, 0) + owned(self@, player, 2) + owned(
                self@,
                player,
                6,
            ) + owned(self@, player, 8),
            edges.squares().len() == owned(self@, player, 1) + owned(self@, player, 3) + owned(
                self@,
                player,
                5,
            ) + owned(self@, player, 7),
    {
        lemma_corner_and_edge_bits();
        reveal_with_fuel(BitBoard::squares_below, 10);
        self.lemma_cell(0, player);
        self.lemma_cell(1, player);
        self.lemma_cell(2, player);
        self.lemma_cell(3, player);
        self.lemma_cell(5, player);
        self.lemma_cell(6, player);
        self.lemma_cell(7, player);
        self.lemma_cell(8, player);
        assert(corners.contains(0) == (self@[0] == Some(player)));
        assert(corners.contains(2) == (self@[2] == Some(player)));
        assert(corners.contains(4) == (self@[8] == Some(player)));
        assert(corners.contains(6) == (self@[6] == Some(player)));
        assert(!corners.contains(1) && !corners.contains(3) && !corners.contains(5)
            && !corners.contains(7) && !corners.contains(8));
        assert(edges.contains(1) == (self@[1] == Some(player)));
        assert(edges.contains(3) == (self@[5] == Some(player)));
        assert(edges.contains(5) == (self@[7] == Some(player)));
        assert(edges.contains(7) == (self@[3] == Some(player)));
        assert(!edges.contains(0) && !edges.contains(2) && !edges.contains(4) && !edges.contains(
            6,
        ) && !edges.contains(8));
    }

    /// Corners that `player` has marked minus corners that the opponent has.
    pub fn get_corners_difference(&self, player: Player) -> (diff: i8)
        requires
            self.wf(),
        ensures
            diff == corners_difference(self@, player),
            -4 <= diff <= 4,
    {
        let own = self.board[player.index()].mask(CORNERS);
        let other = self.board[player.get_opponent().index()].mask(CORNERS);
        proof {
            self.marks(player).lemma_masked(EDGES);
            self.marks(player.spec_opponent()).lemma_masked(EDGES);
            self.lemma_corners_and_edges_counted(
                player,
                own,
                self.marks(player).masked(EDGES),
            );
            self.lemma_corners_and_edges_counted(
                player.spec_opponent(),
                other,
                self.marks(player.spec_opponent()).masked(EDGES),
            );
        }
        own.count() as i8 - other.count() as i8
    }

    /// Edges that `player` has marked minus edges that the opponent has.
    pub fn get_edges_difference(&self, player: Player) -> (diff: i8)
        requires
            self.wf(),
        ensures
            diff == edges_difference(self@, player),
            -4 <= diff <= 4,
    {
        let own = self.board[player.index()].mask(EDGES);
        let other = self.board[player.get_opponent().index()].mask(EDGES);
        proof {
            self.marks(player).lemma_masked(CORNERS);
            self.marks(player.spec_opponent()).lemma_masked(CORNERS);
            self.lemma_corners_and_edges_counted(
                player,
                self.marks(player).masked(CORNERS),
                own,
            );
            self.lemma_corners_and_edges_counted(
                player.spec_opponent(),
                self.marks(player.spec_opponent()).masked(CORNERS),
                other,
            );
        }
        own.count() as i8 - other.count() as i8
    }

    /// The bit that stands for the square that callers call `index`.
    pub fn from_human_to_bit(index: u8) -> (bit: u8)
        requires
            index < 9,
        ensures
            bit == human_to_bit(index as int),
            bit < 9,
    {
        if index == 3 {
            7
        } else if index == 4 {
            8
        } else if index == 5 {
            3
        } else if index == 6 {
            6
        } else if index == 7 {
            5
        } else if index == 8 {
            4
        } else {
            index
        }
    }

    /// The square, as callers number it, that bit `index` stands for.
    pub fn from_bit_to_human(index: u8) -> (square: u8)
        requires
            index < 9,
        ensures
            square == bit_to_human(index as int),
            square < 9,
    {
        if index == 3 {
            5
        } else if index == 4 {
            8
        } else if index == 5 {
            7
        } else if index == 6 {
            6
        } else if index == 7 {
            3
        } else if index == 8 {
            4
        } else {
            index
        }
    }

    /// The symbols of the three squares of row `row`, left to right.
    pub fn extract_row(&self, row: u8) -> (symbols: Vec<BoardSymbol>)
        requires
            self.wf(),
            row < 3,
        ensures
            symbols@ == seq![
                BoardSymbol::of_cell(self.cell(3 * row)),
                BoardSymbol::of_cell(self.cell(3 * row + 1)),
                BoardSymbol::of_cell(self.cell(3 * row + 2)),
            ],
    {
        let mut symbols: Vec<BoardSymbol> = Vec::new();
        let mut column: u8 = 0;
        while column < 3
            invariant
                column <= 3,
                row < 3,
                self.wf(),
                symbols@.len() == column,
                forall|j: int|
                    0 <= j < column ==> symbols@[j] == BoardSymbol::of_cell(
                        self.cell(3 * row + j),
                    ),
            decreases 3 - column,
        {
            let symbol = match self.get_cell(3 * row + column) {
                Some(Player::One) => BoardSymbol::X,
                Some(Player::Two) => BoardSymbol::O,
                None => BoardSymbol::Empty,
            };
            symbols.push(symbol);
            column = column + 1;
        }
        proof {
            assert(symbols@ =~= seq![
                BoardSymbol::of_cell(self.cell(3 * row)),
                BoardSymbol::of_cell(self.cell(3 * row + 1)),
                BoardSymbol::of_cell(self.cell(3 * row + 2)),
            ]);
        }
        symbols
    }
}

/// The bits of the three squares of line `k`.
fn line_mask(k: usize) -> (mask: u16)
    requires
        k < 8,
    ensures
        mask == spec_line_mask(k as int),
{
    if k == 0 {
        0b0_0000_0111
    } else if k == 1 {
        0b1_1000_1000
    } else if k == 2 {
        0b0_0111_0000
    } else if k == 3 {
        0b0_1100_0001
    } else if k == 4 {
        0b1_0010_0010
    } else if k == 5 {
        0b0_0001_1100
    } else if k == 6 {
        0b1_0001_0001
    } else {
        0b1_0100_0100
    }
}

/// The bits of pair `k` of the pairs of squares.
fn pair_mask(k: usize) -> (mask: u16)
    requires
        k < 24,
    ensures
        mask == spec_pair_mask(k as int),
{
    if k == 0 {
        0b0_0000_0011
    } else if k == 1 {
        0b0_0000_0101
    } else if k == 2 {
        0b0_0000_0110
    } else if k == 3 {
        0b1_1000_0000
    } else if k == 4 {
        0b0_1000_1000
    } else if k == 5 {
        0b1_1000_0000
    } else if k == 6 {
        0b0_0110_0000
    } else if k == 7 {
        0b0_0011_0000
    } else if k == 8 {
        0b0_0101_0000
    } else if k == 9 {
        0b0_1000_0001
    } else if k == 10 {
        0b0_0100_0001
    } else if k == 11 {
        0b0_1100_0000
    } else if k == 12 {
        0b1_0000_0010
    } else if k == 13 {
        0b1_0010_0000
    } else if k == 14 {
        0b0_0010_0010
    } else if k == 15 {
        0b0_0000_1100
    } else if k == 16 {
        0b0_0001_1000
    } else if k == 17 {
        0b0_0001_0100
    } else if k == 18 {
        0b1_0001_0000
    } else if k == 19 {
        0b0_0001_0001
    } else if k == 20 {
        0b1_0000_0001
    } else if k == 21 {
        0b1_0100_0000
    } else if k == 22 {
        0b0_0100_0001
    } else {
        0b1_0000_0001
    }
}

/// Walks through the pairs of mark sets that a board can hold: those in
/// which no square belongs to both players.
pub struct LegalBoardIterator {
    index: u32,
}

/// One more than the largest number that stands for a pair of nine-bit values.
pub const NUM_BIT_PAIRS: u32 = 0x4_0000;

impl LegalBoardIterator {
    /// The number from which the search for the next pair starts.
    pub closed spec fn position(self) -> int {
        self.index as int
    }

    /// The first nine-bit value of pair number `n`.
    pub open spec fn first_of(n: int) -> int {
        n % 512
    }

    /// The second nine-bit value of pair number `n`.
    pub open spec fn second_of(n: int) -> int {
        n / 512
    }

    /// True when the two values of pair number `n` share no bit.
    pub open spec fn legal(n: int) -> bool {
        0 <= n < NUM_BIT_PAIRS && (Self::first_of(n) as u16) & (Self::second_of(n) as u16) == 0
    }

    /// The iterator at the pair with number zero.
    pub fn new() -> (iter: LegalBoardIterator)
        ensures
            iter.position() == 0,
    {
        LegalBoardIterator { index: 0 }
    }

    /// The next pair of mark sets in which no square belongs to both
    /// players, or `None` when all have been handed out.
    pub fn next(&mut self) -> (item: Option<(u16, u16)>)
        requires
            old(self).position() <= NUM_BIT_PAIRS,
        ensures
            final(self).position() <= NUM_BIT_PAIRS,
            match item {
                Some((first, second)) => {
                    let n = final(self).position() - 1;
                    &&& old(self).position() <= n
                    &&& Self::legal(n)
                    &&& first == Self::first_of(n)
                    &&& second == Self::second_of(n)
                    &&& forall|j: int| old(self).position() <= j < n ==> !Self::legal(j)
                },
                None => final(self).position() == NUM_BIT_PAIRS && forall|j: int|
                    old(self).position() <= j < NUM_BIT_PAIRS ==> !Self::legal(j),
            },
    {
        while self.index < NUM_BIT_PAIRS
            invariant
                old(self).position() <= self.position() <= NUM_BIT_PAIRS,
                forall|n: int| old(self).position() <= n < self.position() ==> !Self::legal(n),
            decreases NUM_BIT_PAIRS - self.index,
        {
            let n = self.index;
            let first = (n % 512) as u16;
            let second = (n / 512) as u16;
            self.index = self.index + 1;
            if first & second == 0 {
                return Some((first, second));
            }
        }
        None
    }
}

impl Default for LegalBoardIterator {
    fn default() -> (iter: LegalBoardIterator)
        ensures
            iter.position() == 0,
    {
        LegalBoardIterator::new()
    }
}

} // verus!
