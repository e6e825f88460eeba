//! A set of squares of one small board, packed into nine bits.
//!
//! Square `i` of the set is bit `i` of a `u16`; the upper seven bits are never
//! set. Two such sets, one per player, make up a
//! [`Board`](crate::game::board::Board).

use std::ops::{BitAnd, BitOr, BitXor, Not};
use vstd::prelude::*;
use vstd::std_specs::bits::{axiom_u16_trailing_zeros, u16_trailing_zeros};
use vstd::std_specs::ops::{BitAndSpecImpl, BitOrSpecImpl, BitXorSpecImpl, NotSpecImpl};

verus! {

/// The bits that stand for squares.
pub const ALL_SQUARES: u16 = 0b1_1111_1111;

/// True when bit `i` of `bits` is set.
pub open spec fn bit_is_set(bits: u16, i: int) -> bool {
    0 <= i < 16 && (bits >> (i as u16)) & 1 == 1
}

/// How each bit of the result of a bitwise operator follows from the same bit
/// of its operands.
pub proof fn lemma_bitwise(a: u16, b: u16, i: u16)
    by (bit_vector)
    requires
        i < 16,
    ensures
        (((a | b) >> i) & 1 == 1) <==> ((a >> i) & 1 == 1 || (b >> i) & 1 == 1),
        (((a & b) >> i) & 1 == 1) <==> ((a >> i) & 1 == 1 && (b >> i) & 1 == 1),
        (((a ^ b) >> i) & 1 == 1) <==> (((a >> i) & 1 == 1) != ((b >> i) & 1 == 1)),
        i < 9 ==> ((((!a & 0x1ffu16) >> i) & 1 == 1) <==> !((a >> i) & 1 == 1)),
        i >= 9 ==> ((!a & 0x1ffu16) >> i) & 1 == 0,
        ((a >> i) & 1 == 1) || ((a >> i) & 1 == 0),
        (a & b) <= a,
{
}

/// Nine-bit values stay nine-bit values under the bitwise operators, and have
/// no bit set from the ninth on.
pub proof fn lemma_nine_bits(a: u16, b: u16, i: u16)
    by (bit_vector)
    requires
        a < 512,
        b < 512,
    ensures
        (a | b) < 512,
        (a & b) < 512,
        (a ^ b) < 512,
        (!a & 0x1ffu16) < 512,
        (9 <= i < 16) ==> (a >> i) & 1 == 0,
        i >= 16 ==> (a >> i) == 0,
{
}

/// Setting or clearing one bit changes that bit and no other.
pub proof fn lemma_single_bit(a: u16, i: u16, j: u16)
    by (bit_vector)
    requires
        i < 16,
        j < 16,
    ensures
        (((a | (1u16 << i)) >> j) & 1 == 1) <==> (j == i || (a >> j) & 1 == 1),
        (a >> i) & 1 == 1 ==> ((((a ^ (1u16 << i)) >> j) & 1 == 1) <==> (j != i && (a >> j) & 1
            == 1)),
        (a >> i) & 1 == 1 ==> (a ^ (1u16 << i)) < a,
        ((1u16 << i) >> j) & 1 == 1 <==> j == i,
        i < 9 ==> (1u16 << i) < 512,
        (a >> i) & 1 == 1 ==> a != 0,
{
}

/// A nine-bit value is full exactly when each of its nine bits is set, and
/// zero exactly when none is.
pub proof fn lemma_full_and_empty(a: u16)
    by (bit_vector)
    requires
        a < 512,
    ensures
        a == 0x1ffu16 <==> ((a >> 0u16) & 1 == 1 && (a >> 1u16) & 1 == 1 && (a >> 2u16) & 1 == 1 && (a
            >> 3u16) & 1 == 1 && (a >> 4u16) & 1 == 1 && (a >> 5u16) & 1 == 1 && (a >> 6u16) & 1
            == 1 && (a >> 7u16) & 1 == 1 && (a >> 8u16) & 1 == 1),
        a == 0 <==> ((a >> 0u16) & 1 == 0 && (a >> 1u16) & 1 == 0 && (a >> 2u16) & 1 == 0 && (a
            >> 3u16) & 1 == 0 && (a >> 4u16) & 1 == 0 && (a >> 5u16) & 1 == 0 && (a >> 6u16) & 1
            == 0 && (a >> 7u16) & 1 == 0 && (a >> 8u16) & 1 == 0),
{
}

/// Two nine-bit values with the same bits are the same value.
pub proof fn lemma_bits_determine_value(a: u16, b: u16)
    requires
        a < 512,
        b < 512,
        forall|i: int| 0 <= i < 9 ==> bit_is_set(a, i) == bit_is_set(b, i),
    ensures
        a == b,
{
    let x = a ^ b;
    lemma_nine_bits(a, b, 0);
    assert forall|k: u16| k < 9 implies (x >> k) & 1 == 0 by {
        lemma_bitwise(a, b, k);
        lemma_bitwise(x, 0, k);
        assert(bit_is_set(a, k as int) == bit_is_set(b, k as int));
    }
    lemma_full_and_empty(x);
    assert((x >> 0u16) & 1 == 0);
    assert((x >> 8u16) & 1 == 0);
    assert(x == 0);
    assert(a == b) by (bit_vector)
        requires
            a ^ b == 0,
    ;
}

/// A set of squares of one small board.
#[derive(Copy, Clone, Debug, PartialEq, Eq, Structural)]
pub struct BitBoard(u16);

impl View for BitBoard {
    type V = Set<int>;

    /// The squares in the set, each a number below nine.
    open spec fn view(&self) -> Set<int> {
        Set::new(|square: int| self.contains(square))
    }
}

impl BitBoard {
    /// The set with no square.
    pub open spec fn spec_empty() -> BitBoard {
        BitBoard::from_bits(0)
    }

    /// The set whose nine bits are `n`.
    pub closed spec fn from_bits(n: u16) -> BitBoard {
        BitBoard(n)
    }

    /// The nine bits, bit `i` set for square `i`.
    pub closed spec fn bits(self) -> u16 {
        self.0
    }

    /// Only the nine bits that stand for squares may be set.
    pub open spec fn wf(self) -> bool {
        self.bits() < 512
    }

    /// True when `square` is in the set.
    pub open spec fn contains(self, square: int) -> bool {
        0 <= square < 9 && bit_is_set(self.bits(), square)
    }

    /// The squares that are not in the set.
    pub closed spec fn spec_complement(self) -> BitBoard {
        BitBoard(!self.0 & ALL_SQUARES)
    }

    /// The squares that are in either set.
    pub closed spec fn spec_union(self, other: BitBoard) -> BitBoard {
        BitBoard(self.0 | other.0)
    }

    /// The squares that are in both sets.
    pub closed spec fn spec_intersection(self, other: BitBoard) -> BitBoard {
        BitBoard(self.0 & other.0)
    }

    /// The squares that are in one of the sets and not in the other.
    pub closed spec fn spec_symmetric_difference(self, other: BitBoard) -> BitBoard {
        BitBoard(self.0 ^ other.0)
    }

    /// The squares of the set whose bits are set in `mask`.
    pub closed spec fn masked(self, mask: u16) -> BitBoard {
        BitBoard(self.0 & mask)
    }

    /// True when no square is in the set.
    pub open spec fn is_empty(self) -> bool {
        forall|square: int| !self.contains(square)
    }

    /// The squares of the set below `bound`, in ascending order.
    pub open spec fn squares_below(self, bound: int) -> Seq<u8>
        decreases bound,
    {
        if bound <= 0 {
            Seq::empty()
        } else if self.contains(bound - 1) {
            self.squares_below(bound - 1).push((bound - 1) as u8)
        } else {
            self.squares_below(bound - 1)
        }
    }

    /// All squares of the set, in ascending order.
    pub open spec fn squares(self) -> Seq<u8> {
        self.squares_below(9)
    }

    /// True when `square` is in the set and no smaller square is.
    pub open spec fn is_first(self, square: u8) -> bool {
        self.contains(square as int) && forall|other: int|
            self.contains(other) ==> square <= other
    }

    /// The squares of a masked set are those squares of the set whose bits
    /// the mask holds.
    pub proof fn lemma_masked(self, mask: u16)
        requires
            self.wf(),
        ensures
            self.masked(mask).wf(),
            forall|square: int|
                self.masked(mask).contains(square) <==> (self.contains(square) && bit_is_set(
                    mask,
                    square,
                )),
    {
        lemma_nine_bits(self.0, 0, 0);
        lemma_bitwise(self.0, mask, 0);
        assert forall|square: int|
            self.masked(mask).contains(square) <==> (self.contains(square) && bit_is_set(
                mask,
                square,
            )) by {
            if 0 <= square < 9 {
                lemma_bitwise(self.0, mask, square as u16);
            }
        }
    }

    /// A set is empty exactly when none of its bits is set.
    pub proof fn lemma_empty_iff_zero(self)
        requires
            self.wf(),
        ensures
            self.is_empty() <==> self.bits() == 0,
            self.is_empty() <==> self@ =~= Set::<int>::empty(),
    {
        lemma_full_and_empty(self.bits());
        if self.bits() == 0 {
            assert forall|square: int| !self.contains(square) by {
                if 0 <= square < 9 {
                    lemma_single_bit(self.bits(), square as u16, 0);
                }
            }
        } else {
            assert(self.contains(0) || self.contains(1) || self.contains(2) || self.contains(3)
                || self.contains(4) || self.contains(5) || self.contains(6) || self.contains(7)
                || self.contains(8)) by {
                lemma_bitwise(self.bits(), 0, 0);
                lemma_bitwise(self.bits(), 0, 1);
                lemma_bitwise(self.bits(), 0, 2);
                lemma_bitwise(self.bits(), 0, 3);
                lemma_bitwise(self.bits(), 0, 4);
                lemma_bitwise(self.bits(), 0, 5);
                lemma_bitwise(self.bits(), 0, 6);
                lemma_bitwise(self.bits(), 0, 7);
                lemma_bitwise(self.bits(), 0, 8);
            }
        }
        if self.is_empty() {
            assert(self@ =~= Set::<int>::empty());
        }
        if self@ =~= Set::<int>::empty() {
            assert forall|square: int| !self.contains(square) by {
                assert(!self@.contains(square));
            }
        }
    }

    /// A set is full exactly when all nine bits are set.
    pub proof fn lemma_full_iff_all(self)
        requires
            self.wf(),
        ensures
            self.bits() == ALL_SQUARES <==> (forall|square: int|
                0 <= square < 9 ==> self.contains(square)),
    {
        lemma_full_and_empty(self.bits());
        if forall|square: int| 0 <= square < 9 ==> self.contains(square) {
            assert(self.contains(0) && self.contains(1) && self.contains(2) && self.contains(3)
                && self.contains(4) && self.contains(5) && self.contains(6) && self.contains(7)
                && self.contains(8));
        }
    }

    /// The squares listed by `squares_below` are those of the set below the
    /// bound, each once and in ascending order.
    pub proof fn lemma_squares_below(self, bound: int)
        requires
            0 <= bound <= 9,
        ensures
            self.squares_below(bound).len() <= bound,
            forall|k: int|
                0 <= k < self.squares_below(bound).len() ==> self.contains(
                    #[trigger] self.squares_below(bound)[k] as int,
                ) && self.squares_below(bound)[k] < bound,
            forall|j: int, k: int|
                0 <= j < k < self.squares_below(bound).len() ==> self.squares_below(bound)[j]
                    < self.squares_below(bound)[k],
            forall|square: int|
                0 <= square < bound && self.contains(square) ==> self.squares_below(
                    bound,
                ).contains(square as u8),
        decreases bound,
    {
        if bound > 0 {
            self.lemma_squares_below(bound - 1);
            let shorter = self.squares_below(bound - 1);
            let list = self.squares_below(bound);
            if self.contains(bound - 1) {
                assert(list == shorter.push((bound - 1) as u8));
                assert forall|square: int|
                    0 <= square < bound && self.contains(square) implies list.contains(
                    square as u8,
                ) by {
                    if square == bound - 1 {
                        assert(list[shorter.len() as int] == square as u8);
                    } else {
                        let k = choose|k: int|
                            0 <= k < shorter.len() && shorter[k] == square as u8;
                        assert(list[k] == square as u8);
                    }
                }
            }
        }
    }

    /// Makes a set from its nine bits.
    pub fn new(n: u16) -> (set: BitBoard)
        requires
            n < 512,
        ensures
            set == BitBoard::from_bits(n),
            set.bits() == n,
            set.wf(),
    {
        BitBoard(n)
    }

    /// The set with no square.
    #[verifier::when_used_as_spec(spec_empty)]
    pub fn empty() -> (set: BitBoard)
        ensures
            set == BitBoard::spec_empty(),
            set.bits() == 0,
            set.wf(),
            set.is_empty(),
    {
        let set = BitBoard(0);
        proof {
            set.lemma_empty_iff_zero();
        }
        set
    }

    /// The set that holds `square` alone.
    pub fn single(square: u8) -> (set: BitBoard)
        requires
            square < 9,
        ensures
            set.wf(),
            set@ =~= set![square as int],
            forall|other: int| set.contains(other) <==> other == square,
    {
        let set = BitBoard(1u16 << (square as u16));
        proof {
            assert forall|other: int| set.contains(other) <==> other == square by {
                if 0 <= other < 9 {
                    lemma_single_bit(0, square as u16, other as u16);
                }
            }
            lemma_single_bit(0, square as u16, 0);
        }
        set
    }

    /// The nine bits of the set.
    pub fn to_bits(self) -> (n: u16)
        ensures
            n == self.bits(),
    {
        self.0
    }

    /// True when `square` is in the set.
    pub fn has(self, square: u8) -> (found: bool)
        requires
            square < 9,
        ensures
            found == self.contains(square as int),
    {
        proof {
            lemma_bitwise(self.0, 0, square as u16);
        }
        (self.0 >> (square as u16)) & 1 == 1
    }

    /// The squares of the set whose bits are set in `mask`.
    pub fn mask(self, mask: u16) -> (set: BitBoard)
        requires
            self.wf(),
        ensures
            set == self.masked(mask),
            set.wf(),
            forall|square: int|
                set.contains(square) <==> (self.contains(square) && bit_is_set(mask, square)),
    {
        proof {
            lemma_nine_bits(self.0, 0, 0);
            lemma_bitwise(self.0, mask, 0);
            assert forall|square: int|
                BitBoard(self.0 & mask).contains(square) <==> (self.contains(square)
                    && bit_is_set(mask, square)) by {
                if 0 <= square < 9 {
                    lemma_bitwise(self.0, mask, square as u16);
                }
            }
        }
        BitBoard(self.0 & mask)
    }

    /// The squares that are not in the set.
    #[verifier::when_used_as_spec(spec_complement)]
    pub fn complement(self) -> (set: BitBoard)
        requires
            self.wf(),
        ensures
            set == self.spec_complement(),
            set.wf(),
            forall|square: int| 0 <= square < 9 ==> (set.contains(square) <==> !self.contains(square)),
    {
        proof {
            lemma_operators(self, self);
        }
        BitBoard(!self.0 & ALL_SQUARES)
    }

    /// The squares that are in either set.
    #[verifier::when_used_as_spec(spec_union)]
    pub fn union(self, other: BitBoard) -> (set: BitBoard)
        requires
            self.wf(),
            other.wf(),
        ensures
            set == self.spec_union(other),
            set.wf(),
            forall|square: int|
                set.contains(square) <==> (self.contains(square) || other.contains(square)),
    {
        proof {
            lemma_operators(self, other);
        }
        BitBoard(self.0 | other.0)
    }

    /// The squares that are in both sets.
    #[verifier::when_used_as_spec(spec_intersection)]
    pub fn intersection(self, other: BitBoard) -> (set: BitBoard)
        requires
            self.wf(),
            other.wf(),
        ensures
            set == self.spec_intersection(other),
            set.wf(),
            forall|square: int|
                set.contains(square) <==> (self.contains(square) && other.contains(square)),
    {
        proof {
            lemma_operators(self, other);
        }
        BitBoard(self.0 & other.0)
    }

    /// The squares that are in one of the sets and not in the other.
    #[verifier::when_used_as_spec(spec_symmetric_difference)]
    pub fn symmetric_difference(self, other: BitBoard) -> (set: BitBoard)
        requires
            self.wf(),
            other.wf(),
        ensures
            set == self.spec_symmetric_difference(other),
            set.wf(),
            forall|square: int|
                set.contains(square) <==> (self.contains(square) != other.contains(square)),
    {
        proof {
            lemma_operators(self, other);
        }
        BitBoard(self.0 ^ other.0)
    }

    /// Number of squares in the set.
    pub fn count(self) -> (n: u8)
        requires
            self.wf(),
        ensures
            n == self.squares().len(),
            n <= 9,
    {
        let mut n: u8 = 0;
        let mut square: u8 = 0;
        while square < 9
            invariant
                square <= 9,
                n == self.squares_below(square as int).len(),
                n <= square,
            decreases 9 - square,
        {
            proof {
                lemma_bitwise(self.0, 0, square as u16);
            }
            if (self.0 >> (square as u16)) & 1 == 1 {
                n = n + 1;
            }
            square = square + 1;
        }
        n
    }

    /// The smallest square of the set, or `None` when the set is empty.
    pub fn first_square(&self) -> (first: Option<u8>)
        requires
            self.wf(),
        ensures
            first is None <==> self.is_empty(),
            first matches Some(square) ==> self.is_first(square),
    {
        proof {
            self.lemma_empty_iff_zero();
        }
        if self.0 == 0 {
            None
        } else {
            let zeros = self.0.trailing_zeros();
            proof {
                axiom_u16_trailing_zeros(self.0);
                lemma_nine_bits(self.0, 0, zeros as u16);
                assert(zeros < 9);
                assert forall|other: int| self.contains(other) implies zeros <= other by {
                    if other < zeros {
                        let j = other as u16;
                        assert((self.0 >> j) & 1u16 == 0u16);
                    }
                }
            }
            Some(zeros as u8)
        }
    }

    /// Removes the smallest square from the set and returns it, or returns
    /// `None` and leaves the set as it is when it is empty.
    pub fn pop_first_square(&mut self) -> (first: Option<u8>)
        requires
            old(self).wf(),
        ensures
            final(self).wf(),
            first is None <==> old(self).is_empty(),
            first is None ==> *final(self) == *old(self),
            first matches Some(square) ==> old(self).is_first(square) && final(self)@ =~= old(self)@.remove(square as int),
    {
        let first = self.first_square();
        match first {
            Some(square) => {
                proof {
                    lemma_single_bit(self.0, square as u16, 0);
                    assert forall|other: int|
                        BitBoard(self.0 ^ (1u16 << (square as u16))).contains(other) == (
                        self.contains(other) && other != square) by {
                        if 0 <= other < 9 {
                            lemma_single_bit(self.0, square as u16, other as u16);
                        }
                    }
                }
                self.0 = self.0 ^ (1u16 << (square as u16));
            },
            None => {},
        }
        first
    }

    /// The squares of the set, in ascending order.
    pub fn to_squares(self) -> (list: Vec<u8>)
        requires
            self.wf(),
        ensures
            list@ == self.squares(),
    {
        let mut list: Vec<u8> = Vec::new();
        let mut square: u8 = 0;
        while square < 9
            invariant
                square <= 9,
                list@ == self.squares_below(square as int),
            decreases 9 - square,
        {
            proof {
                lemma_bitwise(self.0, 0, square as u16);
            }
            if (self.0 >> (square as u16)) & 1 == 1 {
                list.push(square);
            }
            square = square + 1;
        }
        list
    }

    /// An iterator over the squares of the set, smallest first.
    pub fn into_iter(self) -> (iter: BitBoardIterator)
        requires
            self.wf(),
        ensures
            iter.remaining() == self,
    {
        BitBoardIterator { board: self }
    }
}

impl Default for BitBoard {
    fn default() -> (set: BitBoard)
        ensures
            set == BitBoard::spec_empty(),
    {
        BitBoard::empty()
    }
}

impl NotSpecImpl for BitBoard {
    open spec fn obeys_not_spec() -> bool {
        true
    }

    open spec fn not_req(self) -> bool {
        self.wf()
    }

    open spec fn not_spec(self) -> BitBoard {
        self.spec_complement()
    }
}

impl Not for BitBoard {
    type Output = BitBoard;

    /// The squares that are not in the set.
    fn not(self) -> (set: BitBoard) {
        self.complement()
    }
}

impl BitOrSpecImpl for BitBoard {
    open spec fn obeys_bitor_spec() -> bool {
        true
    }

    open spec fn bitor_req(self, rhs: BitBoard) -> bool {
        self.wf() && rhs.wf()
    }

    open spec fn bitor_spec(self, rhs: BitBoard) -> BitBoard {
        self.spec_union(rhs)
    }
}

impl BitOr for BitBoard {
    type Output = BitBoard;

    /// The squares that are in either set.
    fn bitor(self, rhs: BitBoard) -> (set: BitBoard) {
        self.union(rhs)
    }
}

impl BitAndSpecImpl for BitBoard {
    open spec fn obeys_bitand_spec() -> bool {
        true
    }

    open spec fn bitand_req(self, rhs: BitBoard) -> bool {
        self.wf() && rhs.wf()
    }

    open spec fn bitand_spec(self, rhs: BitBoard) -> BitBoard {
        self.spec_intersection(rhs)
    }
}

impl BitAnd for BitBoard {
    type Output = BitBoard;

    /// The squares that are in both sets.
    fn bitand(self, rhs: BitBoard) -> (set: BitBoard) {
        self.intersection(rhs)
    }
}

impl BitXorSpecImpl for BitBoard {
    open spec fn obeys_bitxor_spec() -> bool {
        true
    }

    open spec fn bitxor_req(self, rhs: BitBoard) -> bool {
        self.wf() && rhs.wf()
    }

    open spec fn bitxor_spec(self, rhs: BitBoard) -> BitBoard {
        self.spec_symmetric_difference(rhs)
    }
}

impl BitXor for BitBoard {
    type Output = BitBoard;

    /// The squares that are in one of the sets and not in the other.
    fn bitxor(self, rhs: BitBoard) -> (set: BitBoard) {
        self.symmetric_difference(rhs)
    }
}

/// What the four operators do to the sets: complement within the nine
/// squares, union, intersection and symmetric difference.
pub proof fn lemma_operators(a: BitBoard, b: BitBoard)
    requires
        a.wf(),
        b.wf(),
    ensures
        a.spec_complement().wf(),
        a.spec_union(b).wf(),
        a.spec_intersection(b).wf(),
        a.spec_symmetric_difference(b).wf(),
        forall|square: int| 0 <= square < 9 ==> (a.spec_complement().contains(square) <==> !a.contains(square)),
        forall|square: int| a.spec_union(b).contains(square) <==> (a.contains(square) || b.contains(square)),
        forall|square: int|
            a.spec_intersection(b).contains(square) <==> (a.contains(square) && b.contains(square)),
        forall|square: int|
            a.spec_symmetric_difference(b).contains(square) <==> (a.contains(square) != b.contains(square)),
        a.spec_union(b)@ =~= a@.union(b@),
        a.spec_intersection(b)@ =~= a@.intersect(b@),
{
    lemma_nine_bits(a.0, b.0, 0);
    assert forall|square: int| 0 <= square < 9 implies (a.spec_complement().contains(square) <==> !a.contains(square))
        && (a.spec_union(b).contains(square) <==> (a.contains(square) || b.contains(square)))
        && (a.spec_intersection(b).contains(square) <==> (a.contains(square) && b.contains(square)))
        && (a.spec_symmetric_difference(b).contains(square) <==> (a.contains(square) != b.contains(square))) by {
        lemma_bitwise(a.0, b.0, square as u16);
    }
}

/// Hands out the squares of a set one by one, smallest first.
pub struct BitBoardIterator {
    board: BitBoard,
}

impl BitBoardIterator {
    /// The squares not yet handed out.
    pub closed spec fn remaining(self) -> BitBoard {
        self.board
    }

    /// The next square, or `None` when all have been handed out.
    pub fn next(&mut self) -> (item: Option<u8>)
        requires
            old(self).remaining().wf(),
        ensures
            final(self).remaining().wf(),
            item is None <==> old(self).remaining().is_empty(),
            item is None ==> final(self).remaining() == old(self).remaining(),
            item matches Some(square) ==> old(self).remaining().is_first(square) && final(self).remaining()@ =~= old(self).remaining()@.remove(square as int),
    {
        self.board.pop_first_square()
    }
}

} // verus!
