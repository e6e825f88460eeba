//! The ultimate board: nine small boards, the outcomes that follow from their
//! marks, the small board that the next move is bound to, the player to move,
//! and the hash of all that.
//!
//! What a board stands for is its [`Position`]; the rules are stated there.

use vstd::prelude::*;
use vstd::std_specs::cmp::PartialEqSpecImpl;
use crate::game::board::Board;
use crate::game::game_result::GameResult;
use crate::game::lines::{
    first_line_owner, grid_outcome, lemma_first_line_owner, line_places, owns_line,
};
use crate::game::player::Player;
use crate::game::position::{MoveError, Position};
use crate::game::zobrist::{
    lemma_xor, ZobristTable, ZOBRIST_VALUES_NEXT_BOARD_INDEX_OFFSET,
};

verus! {

/// The small boards in the corners of the ultimate board.
pub const CORNER_INDICES: [usize; 4] = [0, 2, 6, 8];

/// The small boards at the edges of the ultimate board.
pub const EDGE_INDICES: [usize; 4] = [1, 3, 5, 7];

/// The small board in the centre of the ultimate board.
pub const CENTER_INDEX: usize = 4;

/// The player who has won a board with outcome `status`, if any.
pub open spec fn owner_of(status: GameResult) -> Option<Player> {
    match status {
        GameResult::Win(player) => Some(player),
        _ => None,
    }
}

/// For each of nine outcomes, the player who has won.
pub open spec fn owners_of(statuses: Seq<GameResult>) -> Seq<Option<Player>> {
    Seq::new(9, |board: int| owner_of(statuses[board]))
}

/// For each of nine outcomes, whether the board has been won or drawn.
pub open spec fn closed_of(statuses: Seq<GameResult>) -> Seq<bool> {
    Seq::new(9, |board: int| statuses[board] != GameResult::Continue)
}

/// Pair `k` of the pairs of small boards: pairs `3 * l`, `3 * l + 1` and
/// `3 * l + 2` are the first and second, first and third, and second and
/// third place of line `l`.
pub open spec fn board_pair(k: int) -> (int, int) {
    let (a, b, c) = crate::game::lines::line(k / 3);
    if k % 3 == 0 {
        (a, b)
    } else if k % 3 == 1 {
        (a, c)
    } else {
        (b, c)
    }
}

/// What pair `k` adds to the partial wins difference of `player`: one when
/// the player has won a board of the pair and the opponent none, minus one
/// when the opponent has won one and the player none, nothing otherwise.
pub open spec fn board_pair_term(owners: Seq<Option<Player>>, player: Player, k: int) -> int {
    let (a, b) = board_pair(k);
    let own = owners[a] == Some(player) || owners[b] == Some(player);
    let other = owners[a] == Some(player.spec_opponent()) || owners[b] == Some(
        player.spec_opponent(),
    );
    if own && !other {
        1
    } else if other && !own {
        -1
    } else {
        0
    }
}

/// The sum of what the first `bound` pairs add to the partial wins
/// difference of `player`.
pub open spec fn board_pairs_below(owners: Seq<Option<Player>>, player: Player, bound: int) -> int
    decreases bound,
{
    if bound <= 0 {
        0
    } else {
        board_pairs_below(owners, player, bound - 1) + board_pair_term(owners, player, bound - 1)
    }
}

/// The ultimate board.
#[derive(Copy, Clone, Debug)]
pub struct UltimateBoard {
    /// The nine small boards, row by row.
    boards: [Board; 9],
    /// The outcome of each small board.
    board_status: [GameResult; 9],
    /// The small board that the next move is bound to, `None` for free
    /// choice.
    next_board_index: Option<u8>,
    /// The outcome of the game.
    game_status: GameResult,
    /// The player to move.
    current_player: Player,
    /// The hash of the marks and the binding.
    hash: u64,
    /// The words from which the hash is made.
    zobrist: ZobristTable,
}

impl View for UltimateBoard {
    type V = Position;

    /// The state of the game that the board holds.
    closed spec fn view(&self) -> Position {
        Position {
            cells: Seq::new(81, |square: int| self.boards[square / 9].cell(square % 9)),
            active: self.next_board_index,
            to_move: self.current_player,
        }
    }
}

impl UltimateBoard {
    /// The small boards, as a sequence.
    pub closed spec fn spec_boards(self) -> Seq<Board> {
        self.boards@
    }

    /// The outcomes of the small boards that the board keeps.
    pub closed spec fn spec_board_status(self) -> Seq<GameResult> {
        self.board_status@
    }

    /// The outcome of the game that the board keeps.
    pub closed spec fn spec_game_status(self) -> GameResult {
        self.game_status
    }

    /// The hash that the board keeps.
    pub closed spec fn spec_hash(self) -> u64 {
        self.hash
    }

    /// The small boards hold the marks of the state; the outcomes and the
    /// hash that the board keeps are those that follow from the state.
    pub closed spec fn wf(self) -> bool {
        &&& self.zobrist.wf()
        &&& self.parts_wf()
        &&& forall|board: int|
            0 <= board < 9 ==> #[trigger] self.board_status[board] == self@.sub_outcome(board)
        &&& self.game_status == self@.outcome()
        &&& self@.wf()
        &&& self.hash == self@.hash()
    }

    /// Each small board is well formed and knows its number.
    pub closed spec fn parts_wf(self) -> bool {
        forall|board: int|
            0 <= board < 9 ==> (#[trigger] self.boards[board]).wf() && self.boards[board].id()
                == board
    }

    /// What a well-formed board keeps is what follows from its state: the
    /// outcomes of the small boards, the outcome of the game and the hash. The
    /// hash in particular is the one made from nothing but the marks and the
    /// binding of the next move.
    pub proof fn lemma_wf(self)
        requires
            self.wf(),
        ensures
            self@.wf(),
            self.spec_hash() == self@.hash(),
            self.spec_game_status() == self@.outcome(),
            self.spec_board_status().len() == 9,
            forall|board: int|
                0 <= board < 9 ==> #[trigger] self.spec_board_status()[board]
                    == self@.sub_outcome(board),
            self.spec_boards().len() == 9,
            forall|board: int|
                0 <= board < 9 ==> {
                    &&& (#[trigger] self.spec_boards()[board]).wf()
                    &&& self.spec_boards()[board].id() == board
                    &&& self.spec_boards()[board]@ == self@.sub_cells(board)
                },
    {
        assert forall|board: int| 0 <= board < 9 implies (#[trigger] self.spec_boards()[board])@
            == self@.sub_cells(board) by {
            self.lemma_sub_cells(board);
        }
    }

    /// The squares of small board `board` in the state are the squares of
    /// the small board that is kept.
    proof fn lemma_sub_cells(self, board: int)
        requires
            0 <= board < 9,
        ensures
            self@.sub_cells(board) == self.boards[board]@,
            self@.cells.len() == 81,
    {
        assert forall|index: int| 0 <= index < 9 implies self@.sub_cells(board)[index]
            == self.boards[board]@[index] by {
            assert((9 * board + index) / 9 == board);
            assert((9 * board + index) % 9 == index);
        }
        assert(self@.sub_cells(board) =~= self.boards[board]@);
    }

    /// A board with no mark, free choice of the small board and player one
    /// to move.
    pub fn new() -> (board: UltimateBoard)
        ensures
            board.wf(),
            board@ == Position::initial(),
            board.spec_hash() == 0,
    {
        let empty = Board::new(0);
        let mut boards = [empty;9];
        let mut index: usize = 0;
        while index < 9
            invariant
                index <= 9,
                boards@.len() == 9,
                forall|board: int|
                    0 <= board < index ==> {
                        &&& (#[trigger] boards@[board]).wf()
                        &&& boards@[board].id() == board
                        &&& forall|square: int| boards@[board].cell(square) is None
                    },
            decreases 9 - index,
        {
            boards[index] = Board::new(index as u8);
            index = index + 1;
        }
        let status = GameResult::Continue;
        let board = UltimateBoard {
            boards,
            next_board_index: None,
            board_status: [status;9],
            game_status: GameResult::Continue,
            current_player: Player::One,
            hash: 0,
            zobrist: ZobristTable::new(),
        };
        proof {
            assert(board@.cells =~= Position::initial().cells);
            Position::lemma_initial();
        }
        board
    }

    /// The outcome of a grid of nine boards with the given outcomes.
    fn check_if_won(board_status: &[GameResult; 9]) -> (result: GameResult)
        ensures
            result == grid_outcome(owners_of(board_status@), closed_of(board_status@)),
    {
        let ghost owners = owners_of(board_status@);
        let mut k: usize = 0;
        while k < 8
            invariant
                k <= 8,
                owners == owners_of(board_status@),
                first_line_owner(owners, 0) == first_line_owner(owners, k as int),
            decreases 8 - k,
        {
            let (a, b, c) = line_places(k);
            let first = board_status[a];
            if first == board_status[b] && first == board_status[c] {
                match first {
                    GameResult::Win(player) => {
                        proof {
                            assert(owns_line(owners, k as int, player));
                            match player {
                                Player::One => {},
                                Player::Two => {},
                            }
                        }
                        return GameResult::Win(player);
                    },
                    _ => {},
                }
            }
            proof {
                assert(!owns_line(owners, k as int, Player::One));
                assert(!owns_line(owners, k as int, Player::Two));
            }
            k = k + 1;
        }
        let mut board: usize = 0;
        while board < 9
            invariant
                board <= 9,
                first_line_owner(owners_of(board_status@), 0) is None,
                forall|j: int| 0 <= j < board ==> closed_of(board_status@)[j],
            decreases 9 - board,
        {
            if board_status[board] == GameResult::Continue {
                proof {
                    assert(!closed_of(board_status@)[board as int]);
                }
                return GameResult::Continue;
            }
            board = board + 1;
        }
        GameResult::Draw
    }

    /// The outcome of the game.
    pub fn get_game_status(&self) -> (status: GameResult)
        requires
            self.wf(),
        ensures
            status == self@.outcome(),
            status == self.spec_game_status(),
    {
        self.game_status
    }

    /// The outcome of each small board.
    pub fn get_board_status(&self) -> (status: [GameResult; 9])
        requires
            self.wf(),
        ensures
            status@ == self.spec_board_status(),
            forall|board: int| 0 <= board < 9 ==> #[trigger] status@[board] == self@.sub_outcome(board),
    {
        self.board_status
    }

    /// The nine small boards.
    pub fn get_boards(&self) -> (boards: [Board; 9])
        requires
            self.wf(),
        ensures
            boards@ == self.spec_boards(),
            forall|board: int|
                0 <= board < 9 ==> {
                    &&& (#[trigger] boards@[board]).wf()
                    &&& boards@[board].id() == board
                    &&& boards@[board]@ == self@.sub_cells(board)
                },
    {
        proof {
            self.lemma_wf();
        }
        self.boards
    }

    /// The player to move.
    pub fn get_current_player(&self) -> (player: Player)
        ensures
            player == self@.to_move,
    {
        self.current_player
    }

    /// The hash of the state.
    pub fn get_hash(&self) -> (hash: u64)
        requires
            self.wf(),
        ensures
            hash == self@.hash(),
            hash == self.spec_hash(),
    {
        self.hash
    }

    /// The small board that the next move is bound to, `None` when the
    /// player may choose the board.
    pub fn get_next_board_index(&self) -> (index: Option<u8>)
        ensures
            index == self@.active,
    {
        self.next_board_index
    }

    /// Pairs of small boards in which `player` has won a board and the
    /// opponent none, minus pairs in which the opponent has won a board and
    /// the player none; the pairs are the three pairs of each line.
    pub fn get_partial_wins_difference(&self, player: Player) -> (diff: i8)
        requires
            self.wf(),
        ensures
            diff == board_pairs_below(self@.sub_owners(), player, 24),
            -24 <= diff <= 24,
    {
        let ghost owners = self@.sub_owners();
        proof {
            assert(owners =~= owners_of(self.board_status@));
        }
        let mut diff: i8 = 0;
        let mut k: usize = 0;
        while k < 24
            invariant
                k <= 24,
                owners == owners_of(self.board_status@),
                diff == board_pairs_below(owners, player, k as int),
                -(k as int) <= diff <= k,
            decreases 24 - k,
        {
            let (a, b, c) = line_places(k / 3);
            let (first, second) = if k % 3 == 0 {
                (a, b)
            } else if k % 3 == 1 {
                (a, c)
            } else {
                (b, c)
            };
            let mut player_count: u8 = 0;
            let mut opponent_count: u8 = 0;
            match self.board_status[first] {
                GameResult::Win(winner) => {
                    if winner == player {
                        player_count = player_count + 1;
                    } else {
                        opponent_count = opponent_count + 1;
                    }
                },
                _ => {},
            }
            match self.board_status[second] {
                GameResult::Win(winner) => {
                    if winner == player {
                        player_count = player_count + 1;
                    } else {
                        opponent_count = opponent_count + 1;
                    }
                },
                _ => {},
            }
            proof {
                assert(board_pair(k as int) == (first as int, second as int));
                assert(player_count > 0 <==> (owners[first as int] == Some(player)
                    || owners[second as int] == Some(player)));
                assert(opponent_count > 0 <==> (owners[first as int] == Some(
                    player.spec_opponent(),
                ) || owners[second as int] == Some(player.spec_opponent())));
            }
            if player_count > 0 && opponent_count == 0 {
                diff = diff + 1;
            } else if opponent_count > 0 && player_count == 0 {
                diff = diff - 1;
            }
            k = k + 1;
        }
        diff
    }

    /// The moves that the rules offer: the empty squares of the small board
    /// that the move is bound to, or, with free choice, of every small
    /// board that goes on. While the game goes on these are the moves that
    /// `make_move` accepts, and there is at least one.
    pub fn get_possible_moves(&self) -> (moves: Vec<u8>)
        requires
            self.wf(),
        ensures
            moves@ == self@.moves(),
            forall|m: u8| moves@.contains(m) <==> self@.playable(m as int),
            self@.outcome() == GameResult::Continue ==> moves@.len() > 0 && forall|m: u8|
                moves@.contains(m) <==> self@.legal(m),
    {
        proof {
            self@.lemma_moves();
            if self@.outcome() == GameResult::Continue {
                self@.lemma_open_game_has_move();
            }
        }
        match self.next_board_index {
            Some(index) => {
                proof {
                    self.lemma_sub_cells(index as int);
                }
                self.boards[index as usize].get_possible_moves()
            },
            None => {
                let mut moves: Vec<u8> = Vec::new();
                let mut board: usize = 0;
                while board < 9
                    invariant
                        board <= 9,
                        self.wf(),
                        moves@ == self@.free_moves_below(board as int),
                    decreases 9 - board,
                {
                    proof {
                        self.lemma_sub_cells(board as int);
                    }
                    if self.board_status[board] == GameResult::Continue {
                        let mut more = self.boards[board].get_possible_moves();
                        moves.append(&mut more);
                    } else {
                        assert(moves@ + Seq::<u8>::empty() =~= moves@);
                    }
                    board = board + 1;
                }
                moves
            },
        }
    }

    /// Makes move `index` for the player to move, or refuses it and leaves
    /// the board as it is.
    ///
    /// A move that is accepted marks the square, puts the word of the mark
    /// into the hash, works out the outcome of the small board and of the
    /// game, hands the turn to the opponent, and binds the next move to the
    /// small board that the square names, unless that one has been won or
    /// drawn.
    pub fn make_move(&mut self, index: u8) -> (result: Result<(), MoveError>)
        requires
            old(self).wf(),
        ensures
            final(self).wf(),
            result == old(self)@.check_move(index),
            result is Ok ==> final(self)@ == old(self)@.play(index),
            result is Err ==> *final(self) == *old(self),
    {
        if self.game_status != GameResult::Continue {
            return Err(MoveError::GameOver);
        }
        if index >= 81 {
            return Err(MoveError::OutOfBounds);
        }
        let board_index = index / 9;
        let field_index = index % 9;
        if let Some(next_board_index) = self.next_board_index {
            if next_board_index != board_index {
                return Err(MoveError::WrongBoard);
            }
        }
        if self.board_status[board_index as usize] != GameResult::Continue {
            return Err(MoveError::BoardDecided);
        }
        proof {
            self.lemma_sub_cells(board_index as int);
            assert(self@.cells[index as int] == self.boards[board_index as int].cell(
                field_index as int,
            ));
        }
        let mut board = self.boards[board_index as usize];
        if board.get_cell(field_index).is_some() {
            return Err(MoveError::SquareTaken);
        }
        let player = self.current_player;
        board.set(field_index, player);
        self.boards[board_index as usize] = board;
        let mark_word = self.zobrist.get(2 * (index as usize) + player.index());
        self.hash = self.hash ^ mark_word;
        self.board_status[board_index as usize] = board.check_if_won();
        proof {
            old(self).lemma_marked(*self, index);
        }
        self.game_status = Self::check_if_won(&self.board_status);
        self.current_player = player.get_opponent();
        if let Some(next_board_index) = self.next_board_index {
            let old_word = self.zobrist.get(
                next_board_index as usize + ZOBRIST_VALUES_NEXT_BOARD_INDEX_OFFSET,
            );
            self.hash = self.hash ^ old_word;
        } else {
            proof {
                lemma_xor(self.hash, 0, 0);
            }
        }
        match self.board_status[field_index as usize] {
            GameResult::Continue => {
                let new_word = self.zobrist.get(
                    field_index as usize + ZOBRIST_VALUES_NEXT_BOARD_INDEX_OFFSET,
                );
                self.hash = self.hash ^ new_word;
                self.next_board_index = Some(field_index);
            },
            _ => {
                proof {
                    lemma_xor(self.hash, 0, 0);
                }
                self.next_board_index = None;
            },
        }
        proof {
            let before = old(self)@;
            let after = before.play(index);
            before.lemma_play(index);
            before.lemma_play_hash(index);
            assert(self@.cells == after.cells);
            assert(self@.active == after.active);
            assert(self@ == after);
            assert(owners_of(self.board_status@) =~= self@.sub_owners());
            assert(closed_of(self.board_status@) =~= self@.sub_closed());
        }
        Ok(())
    }

    /// What holds once the square of move `index` is marked on its small
    /// board and the outcome of that small board is worked out, whatever the
    /// other parts of `marked` hold: the squares are those of the state after
    /// the move, and the outcomes of the small boards are those that follow
    /// from them.
    proof fn lemma_marked(self, marked: UltimateBoard, index: u8)
        requires
            self.wf(),
            index < 81,
            self@.cells[index as int] is None,
            marked.zobrist == self.zobrist,
            forall|board: int|
                0 <= board < 9 && board != index / 9 ==> marked.boards[board]
                    == self.boards[board] && marked.board_status[board]
                    == self.board_status[board],
            marked.boards[index as int / 9].wf(),
            marked.boards[index as int / 9].id() == index / 9,
            marked.boards[index as int / 9]@ == self.boards[index as int / 9]@.update(
                index as int % 9,
                Some(self.current_player),
            ),
            marked.board_status[index as int / 9] == marked.boards[index as int / 9].outcome(),
        ensures
            marked.parts_wf(),
            marked@.cells == self@.cells.update(index as int, Some(self.current_player)),
            forall|board: int|
                0 <= board < 9 ==> #[trigger] marked.board_status[board] == marked@.sub_outcome(
                    board,
                ),
            owners_of(marked.board_status@) == marked@.sub_owners(),
            closed_of(marked.board_status@) == marked@.sub_closed(),
    {
        let target = index as int / 9;
        let field = index as int % 9;
        let cells = self@.cells.update(index as int, Some(self.current_player));
        assert forall|square: int| 0 <= square < 81 implies marked@.cells[square]
            == cells[square] by {
            let board = square / 9;
            if board == target {
                assert(marked.boards[target]@[square % 9] == marked.boards[target].cell(
                    square % 9,
                ));
                assert(self.boards[target]@[square % 9] == self.boards[target].cell(square % 9));
            }
        }
        assert(marked@.cells =~= cells);
        assert forall|board: int| 0 <= board < 9 implies #[trigger] marked.board_status[board]
            == marked@.sub_outcome(board) by {
            marked.lemma_sub_cells(board);
            self.lemma_sub_cells(board);
        }
        assert(owners_of(marked.board_status@) =~= marked@.sub_owners());
        assert(closed_of(marked.board_status@) =~= marked@.sub_closed());
    }
}

impl Default for UltimateBoard {
    fn default() -> (board: UltimateBoard)
        ensures
            board.wf(),
            board@ == Position::initial(),
    {
        UltimateBoard::new()
    }
}

impl PartialEqSpecImpl for UltimateBoard {
    open spec fn obeys_eq_spec() -> bool {
        true
    }

    open spec fn eq_spec(&self, other: &UltimateBoard) -> bool {
        self.spec_hash() == other.spec_hash()
    }
}

impl PartialEq for UltimateBoard {
    /// Two boards count as equal when their hashes are equal.
    fn eq(&self, other: &UltimateBoard) -> (equal: bool) {
        self.hash == other.hash
    }
}

impl Eq for UltimateBoard {

}

} // verus!
