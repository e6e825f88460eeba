//! The table of words from which the hash of a game state is made.
//!
//! A state's hash is the exclusive or of one word for each mark on the
//! board and one word for the small board that the next move is bound to.
//! The words are the first outputs of a ChaCha20 generator whose seed is all
//! zero, so every table holds the same words.

use rand_chacha::rand_core::{RngCore, SeedableRng};
use rand_chacha::ChaCha20Rng;
use vstd::prelude::*;

verus! {

/// Number of words of the table: two for each square, one for each small
/// board.
pub const NUM_ZOBRIST_VALUES: usize = 171;

/// Where the words for the small boards start in the table.
pub const ZOBRIST_VALUES_NEXT_BOARD_INDEX_OFFSET: usize = 162;

/// Length of the seed of the generator.
pub const SEED_LENGTH: usize = 32;

/// The ChaCha20 generator of the crate `rand_chacha`. Nothing is known of
/// what is inside a value of it.
#[verifier::external_type_specification]
#[verifier::external_body]
pub struct ExChaCha20Rng(ChaCha20Rng);

/// The words that a generator will give out: word `n` is what the call of
/// `next_u64` after `n` earlier calls returns.
pub uninterp spec fn words_ahead(rng: ChaCha20Rng) -> Map<int, u64>;

/// The words that a generator made from `seed` gives out, the first at 0.
pub uninterp spec fn chacha20_stream(seed: Seq<u8>) -> Map<int, u64>;

/// Calls `ChaCha20Rng::from_seed`, which makes a generator at the start of
/// the stream that belongs to the seed. The words that the generator will give
/// out are those of the seed's stream; they depend on the seed alone.
#[verifier::external_body]
fn generator_from_seed(seed: [u8; SEED_LENGTH]) -> (rng: ChaCha20Rng)
    ensures
        words_ahead(rng) == chacha20_stream(seed@),
{
    ChaCha20Rng::from_seed(seed)
}

/// Calls `next_u64` of `ChaCha20Rng`, which returns the next two 32-bit words
/// of the stream as one value and moves the generator past them. The result is
/// the first of the words that were ahead, and the others move up by one.
#[verifier::external_body]
fn next_word(rng: &mut ChaCha20Rng) -> (word: u64)
    ensures
        word == words_ahead(*old(rng))[0],
        forall|n: int|
            0 <= n ==> #[trigger] words_ahead(*final(rng))[n] == words_ahead(*old(rng))[n + 1],
{
    rng.next_u64()
}

/// The seed of the generator that fills the table: 32 zero bytes.
pub open spec fn zobrist_seed() -> Seq<u8> {
    Seq::new(32, |i: int| 0u8)
}

/// Word `index` of the table.
pub open spec fn zobrist_value(index: int) -> u64 {
    chacha20_stream(zobrist_seed())[index]
}

/// The table of words.
#[derive(Copy, Clone, Debug)]
pub struct ZobristTable {
    values: [u64; NUM_ZOBRIST_VALUES],
}

impl ZobristTable {
    /// The words of the table, in order.
    pub closed spec fn entries(self) -> Seq<u64> {
        self.values@
    }

    /// The table holds the words of the zero seed's stream.
    pub open spec fn wf(self) -> bool {
        &&& self.entries().len() == NUM_ZOBRIST_VALUES
        &&& forall|index: int|
            0 <= index < NUM_ZOBRIST_VALUES ==> self.entries()[index] == zobrist_value(index)
    }

    /// Fills a table from a fresh generator.
    pub fn new() -> (table: ZobristTable)
        ensures
            table.wf(),
    {
        let mut values = [0u64;NUM_ZOBRIST_VALUES];
        let seed = [0u8;SEED_LENGTH];
        assert(seed@ =~= zobrist_seed());
        let mut rng = generator_from_seed(seed);
        let mut index: usize = 0;
        while index < NUM_ZOBRIST_VALUES
            invariant
                index <= NUM_ZOBRIST_VALUES,
                values@.len() == NUM_ZOBRIST_VALUES,
                forall|j: int| 0 <= j < index ==> values@[j] == zobrist_value(j),
                forall|n: int|
                    0 <= n ==> #[trigger] words_ahead(rng)[n] == chacha20_stream(
                        zobrist_seed(),
                    )[n + index],
            decreases NUM_ZOBRIST_VALUES - index,
        {
            let ghost before = rng;
            let word = next_word(&mut rng);
            values[index] = word;
            proof {
                assert(word == words_ahead(before)[0]);
                assert forall|n: int| 0 <= n implies #[trigger] words_ahead(rng)[n]
                    == chacha20_stream(zobrist_seed())[n + index + 1] by {
                    assert(words_ahead(rng)[n] == words_ahead(before)[n + 1]);
                }
            }
            index = index + 1;
        }
        ZobristTable { values }
    }

    /// Word `index` of the table.
    pub fn get(&self, index: usize) -> (word: u64)
        requires
            self.wf(),
            index < NUM_ZOBRIST_VALUES,
        ensures
            word == zobrist_value(index as int),
    {
        self.values[index]
    }

    /// Any two tables hold the same words.
    pub proof fn lemma_tables_agree(self, other: ZobristTable)
        requires
            self.wf(),
            other.wf(),
        ensures
            self == other,
            self.entries() == other.entries(),
    {
        assert forall|index: int| 0 <= index < self.entries().len() implies self.entries()[index]
            == other.entries()[index] by {
            assert(self.entries()[index] == zobrist_value(index));
            assert(other.entries()[index] == zobrist_value(index));
        }
        assert(self.entries() =~= other.entries());
        assert(self.values =~= other.values);
    }
}

impl Default for ZobristTable {
    fn default() -> (table: ZobristTable)
        ensures
            table.wf(),
    {
        ZobristTable::new()
    }
}

/// Exclusive or can be regrouped and reordered, a word cancels itself, and
/// zero changes nothing.
pub proof fn lemma_xor(a: u64, b: u64, c: u64)
    by (bit_vector)
    ensures
        a ^ b == b ^ a,
        (a ^ b) ^ c == a ^ (b ^ c),
        a ^ a == 0,
        a ^ 0 == a,
        0 ^ a == a,
        (a ^ b) ^ b == a,
        (a ^ b) ^ c == (a ^ c) ^ b,
{
}

} // verus!
