//! The state of a game as a value of mathematics, and the rules of the game
//! stated over it.
//!
//! A [`Position`] says who marked each of the 81 squares, to which small
//! board the next move is bound, and whose move it is. Everything else about
//! a state follows from these: the outcome of each small board, the outcome of
//! the game, the moves that are allowed, and the hash.
//!
//! Square `9 * b + i` is square `i` of small board `b`, both numbered row by
//! row, and a move is the number of the square that it marks.

use vstd::prelude::*;
use crate::game::board::{lemma_moves_on, lemma_moves_on_board, moves_on};
use crate::game::game_result::GameResult;
use crate::game::lines::{
    cells_outcome, first_line_owner, grid_outcome, lemma_first_line_owner, owns_line,
};
use crate::game::player::Player;
use crate::game::zobrist::{lemma_xor, zobrist_value};

verus! {

/// Why a move is refused.
#[derive(Copy, Clone, Debug, PartialEq, Eq, Structural)]
pub enum MoveError {
    /// The game has been won or drawn.
    GameOver,
    /// The move is not the number of a square.
    OutOfBounds,
    /// The move is bound to another small board.
    WrongBoard,
    /// The small board of the square has been won or drawn.
    BoardDecided,
    /// The square is marked already.
    SquareTaken,
}

/// The state of a game.
pub struct Position {
    /// For each of the 81 squares, the player who marked it.
    pub cells: Seq<Option<Player>>,
    /// The small board to which the next move is bound; `None` when the
    /// player may choose the board.
    pub active: Option<u8>,
    /// The player who makes the next move.
    pub to_move: Player,
}

/// The word that the mark on `square` adds to the hash, zero for an empty
/// square.
pub open spec fn mark_word(cells: Seq<Option<Player>>, square: int) -> u64 {
    match cells[square] {
        Some(player) => zobrist_value(2 * square + player.spec_index()),
        None => 0,
    }
}

/// The exclusive or of the words of the marks on the first `bound` squares.
pub open spec fn marks_hash(cells: Seq<Option<Player>>, bound: int) -> u64
    decreases bound,
{
    if bound <= 0 {
        0
    } else {
        marks_hash(cells, bound - 1) ^ mark_word(cells, bound - 1)
    }
}

/// The word that the binding of the next move adds to the hash, zero when the
/// player may choose the board.
pub open spec fn active_word(active: Option<u8>) -> u64 {
    match active {
        Some(board) => zobrist_value(162 + board),
        None => 0,
    }
}

/// Number of empty squares among the first `bound`.
pub open spec fn free_squares(cells: Seq<Option<Player>>, bound: int) -> nat
    decreases bound,
{
    if bound <= 0 {
        0
    } else if cells[bound - 1] is None {
        free_squares(cells, bound - 1) + 1
    } else {
        free_squares(cells, bound - 1)
    }
}

impl Position {
    /// The state in which a game starts: no mark, free choice of the board,
    /// player one to move.
    pub open spec fn initial() -> Position {
        Position { cells: Seq::new(81, |square: int| None), active: None, to_move: Player::One }
    }

    /// The nine squares of small board `board`.
    pub open spec fn sub_cells(self, board: int) -> Seq<Option<Player>> {
        Seq::new(9, |index: int| self.cells[9 * board + index])
    }

    /// The outcome of small board `board`.
    pub open spec fn sub_outcome(self, board: int) -> GameResult {
        cells_outcome(self.sub_cells(board))
    }

    /// The player who has won small board `board`, if any.
    pub open spec fn sub_owner(self, board: int) -> Option<Player> {
        match self.sub_outcome(board) {
            GameResult::Win(player) => Some(player),
            _ => None,
        }
    }

    /// For each small board, the player who has won it.
    pub open spec fn sub_owners(self) -> Seq<Option<Player>> {
        Seq::new(9, |board: int| self.sub_owner(board))
    }

    /// For each small board, whether it has been won or drawn.
    pub open spec fn sub_closed(self) -> Seq<bool> {
        Seq::new(9, |board: int| self.sub_outcome(board) != GameResult::Continue)
    }

    /// The outcome of the game: the small boards are the places of a grid; a
    /// small board that a player has won is owned by that player, and one that
    /// has been won or drawn is closed.
    pub open spec fn outcome(self) -> GameResult {
        grid_outcome(self.sub_owners(), self.sub_closed())
    }

    /// There are 81 squares, and the next move is only ever bound to a small
    /// board that goes on.
    pub open spec fn wf(self) -> bool {
        &&& self.cells.len() == 81
        &&& self.active matches Some(board) ==> board < 9 && self.sub_outcome(board as int)
            == GameResult::Continue
    }

    /// Whether move `m` may be made, and if not, why.
    pub open spec fn check_move(self, m: u8) -> Result<(), MoveError> {
        if self.outcome() != GameResult::Continue {
            Err(MoveError::GameOver)
        } else if m >= 81 {
            Err(MoveError::OutOfBounds)
        } else if self.active is Some && self.active != Some((m / 9) as u8) {
            Err(MoveError::WrongBoard)
        } else if self.sub_outcome(m as int / 9) != GameResult::Continue {
            Err(MoveError::BoardDecided)
        } else if self.cells[m as int] is Some {
            Err(MoveError::SquareTaken)
        } else {
            Ok(())
        }
    }

    /// True when move `m` may be made.
    pub open spec fn legal(self, m: u8) -> bool {
        self.check_move(m) is Ok
    }

    /// True when `m` is an empty square of a small board that goes on and to
    /// which the next move is not forbidden to go.
    pub open spec fn playable(self, m: int) -> bool {
        &&& 0 <= m < 81
        &&& self.active matches Some(board) ==> board == m / 9
        &&& self.sub_outcome(m / 9) == GameResult::Continue
        &&& self.cells[m] is None
    }

    /// The binding of the move that follows a move to square `m`, once the
    /// squares are `cells`: the small board with the number of the square
    /// within its own small board, unless that board has been won or drawn.
    pub open spec fn binding_after(cells: Seq<Option<Player>>, m: u8) -> Option<u8> {
        let marked = Position { cells, active: None, to_move: Player::One };
        if marked.sub_outcome(m as int % 9) == GameResult::Continue {
            Some((m % 9) as u8)
        } else {
            None
        }
    }

    /// The state after the player to move has made move `m`.
    pub open spec fn play(self, m: u8) -> Position {
        let cells = self.cells.update(m as int, Some(self.to_move));
        Position {
            cells,
            active: Self::binding_after(cells, m),
            to_move: self.to_move.spec_opponent(),
        }
    }

    /// The state after the moves of `moves` have been made one after the
    /// other.
    pub open spec fn play_all(self, moves: Seq<u8>) -> Position
        decreases moves.len(),
    {
        if moves.len() == 0 {
            self
        } else {
            self.play_all(moves.drop_last()).play(moves.last())
        }
    }

    /// True when each move of `moves` may be made in the state that the
    /// moves before it lead to.
    pub open spec fn all_legal(self, moves: Seq<u8>) -> bool
        decreases moves.len(),
    {
        if moves.len() == 0 {
            true
        } else {
            self.all_legal(moves.drop_last()) && self.play_all(moves.drop_last()).legal(
                moves.last(),
            )
        }
    }

    /// The moves on the empty squares of small board `board`, in the order
    /// of the board's bits.
    pub open spec fn board_moves(self, board: int) -> Seq<u8> {
        moves_on(self.sub_cells(board), board, 9)
    }

    /// The moves on the empty squares of small board `board` if it goes on,
    /// none otherwise.
    pub open spec fn open_board_moves(self, board: int) -> Seq<u8> {
        if self.sub_outcome(board) == GameResult::Continue {
            self.board_moves(board)
        } else {
            Seq::empty()
        }
    }

    /// The moves on the small boards before `bound` that go on, board by
    /// board.
    pub open spec fn free_moves_below(self, bound: int) -> Seq<u8>
        decreases bound,
    {
        if bound <= 0 {
            Seq::empty()
        } else {
            self.free_moves_below(bound - 1) + self.open_board_moves(bound - 1)
        }
    }

    /// The moves that the rules offer: the empty squares of the small board
    /// that the move is bound to, or, with free choice, of every small board
    /// that goes on. The outcome of the game is not looked at.
    pub open spec fn moves(self) -> Seq<u8> {
        match self.active {
            Some(board) => self.board_moves(board as int),
            None => self.free_moves_below(9),
        }
    }

    /// The hash of the state, made from nothing but the marks and the
    /// binding of the next move.
    pub open spec fn hash(self) -> u64 {
        marks_hash(self.cells, 81) ^ active_word(self.active)
    }

    /// Number of empty squares.
    pub open spec fn free(self) -> nat {
        free_squares(self.cells, 81)
    }

    /// At the start the game goes on, no small board is decided, and every
    /// square may be marked.
    pub proof fn lemma_initial()
        ensures
            Self::initial().wf(),
            Self::initial().outcome() == GameResult::Continue,
            forall|board: int|
                0 <= board < 9 ==> #[trigger] Self::initial().sub_outcome(board)
                    == GameResult::Continue,
            forall|m: u8| m < 81 ==> #[trigger] Self::initial().legal(m),
            Self::initial().hash() == 0,
    {
        let start = Self::initial();
        assert forall|board: int| 0 <= board < 9 implies #[trigger] start.sub_outcome(board)
            == GameResult::Continue by {
            let cells = start.sub_cells(board);
            lemma_first_line_owner(cells, 0);
            let closed = Seq::new(9, |i: int| cells[i] is Some);
            assert(!closed[0]);
        }
        lemma_first_line_owner(start.sub_owners(), 0);
        assert(!start.sub_closed()[0]);
        lemma_marks_hash_of_empty(start.cells, 81);
        lemma_xor(0, 0, 0);
    }

    /// A move may be made exactly when the game goes on and the move is
    /// playable.
    pub proof fn lemma_legal(self, m: u8)
        requires
            self.wf(),
        ensures
            self.legal(m) <==> (self.outcome() == GameResult::Continue && self.playable(m as int)),
    {
    }

    /// The moves of `free_moves_below` are the empty squares of the small
    /// boards before `bound` that go on, each once.
    pub proof fn lemma_free_moves_below(self, bound: int)
        requires
            0 <= bound <= 9,
        ensures
            forall|m: u8|
                self.free_moves_below(bound).contains(m) <==> (m / 9 < bound && self.sub_outcome(
                    m as int / 9,
                ) == GameResult::Continue && self.cells[m as int] is None),
            forall|j: int, k: int|
                0 <= j < k < self.free_moves_below(bound).len() ==> self.free_moves_below(
                    bound,
                )[j] != self.free_moves_below(bound)[k],
            self.free_moves_below(bound).len() <= 9 * bound,
        decreases bound,
    {
        if bound > 0 {
            self.lemma_free_moves_below(bound - 1);
            let board = bound - 1;
            let before = self.free_moves_below(bound - 1);
            let added = self.open_board_moves(board);
            let list = self.free_moves_below(bound);
            assert(list == before + added);
            lemma_moves_on(self.sub_cells(board), board, 9);
            assert forall|m: u8| list.contains(m) <==> (m / 9 < bound && self.sub_outcome(
                m as int / 9,
            ) == GameResult::Continue && self.cells[m as int] is None) by {
                lemma_moves_on_board(self.sub_cells(board), board, m);
                if list.contains(m) {
                    let k = choose|k: int| 0 <= k < list.len() && list[k] == m;
                    if k < before.len() {
                        assert(before[k] == m);
                        assert(before.contains(m));
                    } else {
                        assert(added[k - before.len()] == m);
                        assert(added.contains(m));
                    }
                }
                if m / 9 < bound && self.sub_outcome(m as int / 9) == GameResult::Continue
                    && self.cells[m as int] is None {
                    if m / 9 < bound - 1 {
                        assert(before.contains(m));
                        let k = choose|k: int| 0 <= k < before.len() && before[k] == m;
                        assert(list[k] == m);
                    } else {
                        assert(added.contains(m));
                        let k = choose|k: int| 0 <= k < added.len() && added[k] == m;
                        assert(list[before.len() + k] == m);
                    }
                }
            }
            assert forall|j: int, k: int| 0 <= j < k < list.len() implies list[j] != list[k] by {
                if k >= before.len() {
                    assert(list[k] == added[k - before.len()]);
                    assert(added[k - before.len()] / 9 == board);
                    if j >= before.len() {
                        assert(list[j] == added[j - before.len()]);
                    } else {
                        assert(before.contains(before[j]));
                    }
                }
            }
        }
    }

    /// A move is among the moves that the rules offer exactly when it is
    /// playable, and no move is offered twice.
    pub proof fn lemma_moves(self)
        requires
            self.wf(),
        ensures
            forall|m: u8| self.moves().contains(m) <==> self.playable(m as int),
            forall|j: int, k: int|
                0 <= j < k < self.moves().len() ==> self.moves()[j] != self.moves()[k],
            self.moves().len() <= 81,
            self.outcome() == GameResult::Continue ==> forall|m: u8|
                self.moves().contains(m) <==> self.legal(m),
    {
        match self.active {
            Some(board) => {
                lemma_moves_on(self.sub_cells(board as int), board as int, 9);
                assert forall|m: u8| self.moves().contains(m) <==> self.playable(m as int) by {
                    lemma_moves_on_board(self.sub_cells(board as int), board as int, m);
                }
            },
            None => {
                self.lemma_free_moves_below(9);
            },
        }
        if self.outcome() == GameResult::Continue {
            assert forall|m: u8| self.moves().contains(m) <==> self.legal(m) by {
                self.lemma_legal(m);
            }
        }
    }

    /// While the game goes on, the rules offer at least one move.
    pub proof fn lemma_open_game_has_move(self)
        requires
            self.wf(),
            self.outcome() == GameResult::Continue,
        ensures
            self.moves().len() > 0,
    {
        self.lemma_moves();
        let board: int = match self.active {
            Some(board) => board as int,
            None => choose|board: int| 0 <= board < 9 && !self.sub_closed()[board],
        };
        assert(0 <= board < 9 && self.sub_outcome(board) == GameResult::Continue);
        let cells = self.sub_cells(board);
        let closed = Seq::new(9, |i: int| cells[i] is Some);
        let index = choose|index: int| 0 <= index < 9 && !closed[index];
        let m = (9 * board + index) as u8;
        assert(self.cells[m as int] == cells[index]);
        assert(self.playable(m as int));
        assert(self.moves().contains(m));
    }

    /// After a move that may be made the state is well formed again, one
    /// square fewer is empty, and the marks are those of before and the new
    /// one.
    pub proof fn lemma_play(self, m: u8)
        requires
            self.wf(),
            self.legal(m),
        ensures
            self.play(m).wf(),
            self.play(m).free() + 1 == self.free(),
            self.play(m).cells[m as int] == Some(self.to_move),
            forall|square: int|
                0 <= square < 81 && square != m ==> self.play(m).cells[square]
                    == self.cells[square],
    {
        lemma_free_squares_update(self.cells, m as int, Some(self.to_move), 81);
    }

    /// After any number of moves, each of which may be made when its turn
    /// comes, the state is well formed, and as many squares fewer are empty as
    /// moves were made.
    pub proof fn lemma_play_all(self, moves: Seq<u8>)
        requires
            self.wf(),
            self.all_legal(moves),
        ensures
            self.play_all(moves).wf(),
            self.play_all(moves).free() + moves.len() == self.free(),
        decreases moves.len(),
    {
        if moves.len() > 0 {
            self.lemma_play_all(moves.drop_last());
            self.play_all(moves.drop_last()).lemma_play(moves.last());
        }
    }

    /// The hash of the state after a move is the hash of the state before
    /// it, with the word of the new mark put in, the word of the old binding
    /// taken out and the word of the new binding put in.
    pub proof fn lemma_play_hash(self, m: u8)
        requires
            self.wf(),
            self.legal(m),
        ensures
            self.play(m).hash() == ((self.hash() ^ zobrist_value(
                2 * m + self.to_move.spec_index(),
            )) ^ active_word(self.active)) ^ active_word(self.play(m).active),
    {
        let word = zobrist_value(2 * m + self.to_move.spec_index());
        lemma_marks_hash_update(self.cells, m as int, self.to_move, 81);
        let marks = marks_hash(self.cells, 81);
        let old_word = active_word(self.active);
        let new_word = active_word(self.play(m).active);
        assert(marks_hash(self.play(m).cells, 81) == marks ^ word);
        assert((((marks ^ old_word) ^ word) ^ old_word) ^ new_word == (marks ^ word) ^ new_word)
            by (bit_vector);
    }

    /// When a move fills its small board and completes no line there, that
    /// small board is drawn. And whenever the square of a move, numbered
    /// within its small board, names a small board that has been won or drawn
    /// once the move is made, the move after it may go to any board.
    pub proof fn lemma_filling_move(self, m: u8)
        requires
            self.wf(),
            self.legal(m),
        ensures
            ({
                let cells = self.play(m).sub_cells(m as int / 9);
                ((forall|index: int| 0 <= index < 9 ==> cells[index] is Some) && (forall|
                    k: int,
                    player: Player,
                | 0 <= k < 8 ==> !owns_line(cells, k, player))) ==> self.play(m).sub_outcome(
                    m as int / 9,
                ) == GameResult::Draw
            }),
            self.play(m).sub_outcome(m as int % 9) != GameResult::Continue ==> self.play(
                m,
            ).active is None,
            self.play(m).sub_outcome(m as int % 9) == GameResult::Continue ==> self.play(
                m,
            ).active == Some((m % 9) as u8),
    {
        lemma_first_line_owner(self.play(m).sub_cells(m as int / 9), 0);
    }
}

/// With no mark on the board the hash of the marks is zero.
pub proof fn lemma_marks_hash_of_empty(cells: Seq<Option<Player>>, bound: int)
    requires
        0 <= bound <= cells.len(),
        forall|square: int| 0 <= square < cells.len() ==> cells[square] is None,
    ensures
        marks_hash(cells, bound) == 0,
    decreases bound,
{
    if bound > 0 {
        lemma_marks_hash_of_empty(cells, bound - 1);
        lemma_xor(0, 0, 0);
    }
}

/// Marking an empty square puts the word of the mark into the hash of the
/// marks, if the square is among those that the hash covers.
pub proof fn lemma_marks_hash_update(
    cells: Seq<Option<Player>>,
    square: int,
    player: Player,
    bound: int,
)
    requires
        0 <= square < cells.len(),
        0 <= bound <= cells.len(),
        cells[square] is None,
    ensures
        marks_hash(cells.update(square, Some(player)), bound) == if square < bound {
            marks_hash(cells, bound) ^ zobrist_value(2 * square + player.spec_index())
        } else {
            marks_hash(cells, bound)
        },
    decreases bound,
{
    if bound > 0 {
        lemma_marks_hash_update(cells, square, player, bound - 1);
        let after = cells.update(square, Some(player));
        let word = zobrist_value(2 * square + player.spec_index());
        let before_hash = marks_hash(cells, bound - 1);
        if bound - 1 == square {
            lemma_xor(before_hash, 0, word);
        } else if square < bound - 1 {
            lemma_xor(before_hash, word, mark_word(cells, bound - 1));
        }
    }
}

/// Filling an empty square makes one square fewer empty; any other change
/// to a square that stays filled or stays empty changes nothing.
pub proof fn lemma_free_squares_update(
    cells: Seq<Option<Player>>,
    square: int,
    content: Option<Player>,
    bound: int,
)
    requires
        0 <= square < cells.len(),
        0 <= bound <= cells.len(),
        cells[square] is None,
        content is Some,
    ensures
        free_squares(cells.update(square, content), bound) + (if square < bound {
            1nat
        } else {
            0nat
        }) == free_squares(cells, bound),
    decreases bound,
{
    if bound > 0 {
        lemma_free_squares_update(cells, square, content, bound - 1);
    }
}

} // verus!
