//! An agent that looks a fixed number of moves ahead.
//!
//! The search is minimax with alpha-beta pruning. Below its depth it goes on
//! with a quiescence search, and it keeps the values of the states that it has
//! been through in a transposition table under their hashes. What the search
//! returns is stated by the spec functions of this file, which say the same
//! thing as a function of the state alone.

use std::collections::HashMap;
use vstd::prelude::*;
use vstd::std_specs::hash::group_hash_axioms;
use crate::agent::{is_decimal_text, Agent, AgentInfo};
use crate::game::game_result::GameResult;
use crate::game::player::Player;
use crate::game::position::Position;
use crate::game::ultimate_board::UltimateBoard;
use crate::heuristic::{Heuristic, MAX_VALUE, MIN_VALUE};

verus! {

broadcast use group_hash_axioms;

/// The least value of a search window.
pub const WINDOW_MIN: i32 = -2147483648;

/// The greatest value of a search window.
pub const WINDOW_MAX: i32 = 2147483647;

/// The window after a value has come back: the maximizing side raises the
/// lower end to the value, the minimizing side lowers the upper end to it.
pub open spec fn narrowed(maximizing: bool, alpha: i32, beta: i32, value: i32) -> (i32, i32) {
    if maximizing {
        (if value > alpha {
            value
        } else {
            alpha
        }, beta)
    } else {
        (alpha, if value < beta {
            value
        } else {
            beta
        })
    }
}

/// The end of the window that a side returns: the lower for the maximizing
/// side, the upper for the minimizing side.
pub open spec fn window_end(maximizing: bool, alpha: i32, beta: i32) -> i32 {
    if maximizing {
        alpha
    } else {
        beta
    }
}

/// True when the quiescence search does not look beyond `position`: its
/// depth is used up, the game is over, the next move is bound to one small
/// board, or there is no move.
pub open spec fn is_quiet(position: Position, depth: nat) -> bool {
    ||| depth == 0
    ||| position.outcome() != GameResult::Continue
    ||| position.active is Some
    ||| position.moves().len() == 0
}

/// The value of the quiescence search: the heuristic's score of a state
/// beyond which it does not look, and otherwise what going through the moves
/// gives.
pub open spec fn quiescence_value<H: Heuristic>(
    heuristic: H,
    position: Position,
    depth: nat,
    maximizing: bool,
    alpha: i32,
    beta: i32,
) -> i32
    decreases depth, position.moves().len() + 1,
{
    if is_quiet(position, depth) {
        heuristic.value(position)
    } else {
        quiescence_moves(heuristic, position, depth, maximizing, alpha, beta, 0)
    }
}

/// What the quiescence search gives for the moves from number `from` on:
/// each move is valued by the search one level down within the window as it
/// stands, the window is narrowed by the value, and the search stops as soon
/// as the window is empty. The result is the end of the window that belongs
/// to the side.
pub open spec fn quiescence_moves<H: Heuristic>(
    heuristic: H,
    position: Position,
    depth: nat,
    maximizing: bool,
    alpha: i32,
    beta: i32,
    from: int,
) -> i32
    decreases depth, position.moves().len() - from,
{
    let moves = position.moves();
    if depth == 0 || from < 0 || from >= moves.len() {
        window_end(maximizing, alpha, beta)
    } else {
        let value = quiescence_value(
            heuristic,
            position.play(moves[from]),
            (depth - 1) as nat,
            !maximizing,
            alpha,
            beta,
        );
        let (new_alpha, new_beta) = narrowed(maximizing, alpha, beta, value);
        if new_alpha >= new_beta {
            window_end(maximizing, new_alpha, new_beta)
        } else {
            quiescence_moves(heuristic, position, depth, maximizing, new_alpha, new_beta, from + 1)
        }
    }
}

/// The value of the search and the transposition table after it.
///
/// At depth zero the quiescence search takes over. A state in which the game
/// is over, or which has no move, has the heuristic's score. A state whose
/// hash is in the table has the value that the table holds. Any other state
/// has what going through the moves gives, and that value enters the table
/// under the hash of the state.
pub open spec fn minimax_value<H: Heuristic>(
    heuristic: H,
    position: Position,
    depth: nat,
    quiescence_depth: nat,
    maximizing: bool,
    alpha: i32,
    beta: i32,
    table: Map<u64, i32>,
) -> (i32, Map<u64, i32>)
    decreases depth, position.moves().len() + 1,
{
    if depth == 0 {
        (quiescence_value(heuristic, position, quiescence_depth, maximizing, alpha, beta), table)
    } else if position.outcome() != GameResult::Continue || position.moves().len() == 0 {
        (heuristic.value(position), table)
    } else if table.contains_key(position.hash()) {
        (table[position.hash()], table)
    } else {
        let (value, after) = minimax_moves(
            heuristic,
            position,
            depth,
            quiescence_depth,
            maximizing,
            alpha,
            beta,
            table,
            0,
        );
        (value, after.insert(position.hash(), value))
    }
}

/// What the search gives for the moves from number `from` on, and the table
/// after them: as in the quiescence search, with the table handed from move
/// to move.
pub open spec fn minimax_moves<H: Heuristic>(
    heuristic: H,
    position: Position,
    depth: nat,
    quiescence_depth: nat,
    maximizing: bool,
    alpha: i32,
    beta: i32,
    table: Map<u64, i32>,
    from: int,
) -> (i32, Map<u64, i32>)
    decreases depth, position.moves().len() - from,
{
    let moves = position.moves();
    if depth == 0 || from < 0 || from >= moves.len() {
        (window_end(maximizing, alpha, beta), table)
    } else {
        let (value, after) = minimax_value(
            heuristic,
            position.play(moves[from]),
            (depth - 1) as nat,
            quiescence_depth,
            !maximizing,
            alpha,
            beta,
            table,
        );
        let (new_alpha, new_beta) = narrowed(maximizing, alpha, beta, value);
        if new_alpha >= new_beta {
            (window_end(maximizing, new_alpha, new_beta), after)
        } else {
            minimax_moves(
                heuristic,
                position,
                depth,
                quiescence_depth,
                maximizing,
                new_alpha,
                new_beta,
                after,
                from + 1,
            )
        }
    }
}

/// The move that the search chooses among the moves from number `from` on,
/// when `best` is the best move so far and `alpha` its value: each move is
/// valued by the search for the opponent one level down, and a move takes
/// the place of the best so far only when its value is greater.
pub open spec fn best_move_from<H: Heuristic>(
    heuristic: H,
    position: Position,
    depth: nat,
    quiescence_depth: nat,
    alpha: i32,
    best: Option<u8>,
    table: Map<u64, i32>,
    from: int,
) -> Option<u8>
    decreases position.moves().len() - from,
{
    let moves = position.moves();
    if from < 0 || from >= moves.len() {
        best
    } else {
        let (value, after) = minimax_value(
            heuristic,
            position.play(moves[from]),
            (depth - 1) as nat,
            quiescence_depth,
            false,
            alpha,
            WINDOW_MAX,
            table,
        );
        if value > alpha {
            best_move_from(
                heuristic,
                position,
                depth,
                quiescence_depth,
                value,
                Some(moves[from]),
                after,
                from + 1,
            )
        } else {
            best_move_from(
                heuristic,
                position,
                depth,
                quiescence_depth,
                alpha,
                best,
                after,
                from + 1,
            )
        }
    }
}

/// The move that a search of the given depths chooses in `position`: the
/// first of the moves with the greatest value, where the values are those of
/// a search that starts with an empty table and the widest window. There is
/// no move when the game is over.
pub open spec fn best_move<H: Heuristic>(
    heuristic: H,
    position: Position,
    depth: nat,
    quiescence_depth: nat,
) -> Option<u8> {
    if position.outcome() != GameResult::Continue {
        None
    } else {
        best_move_at_start(heuristic, position, depth, quiescence_depth)
    }
}

/// The move that the search chooses among all moves, from an empty table and
/// the widest window.
pub open spec fn best_move_at_start<H: Heuristic>(
    heuristic: H,
    position: Position,
    depth: nat,
    quiescence_depth: nat,
) -> Option<u8> {
    best_move_from(
        heuristic,
        position,
        depth,
        quiescence_depth,
        WINDOW_MIN,
        None,
        Map::empty(),
        0,
    )
}

/// An agent that chooses its move by a search of fixed depth.
pub struct MiniMaxAgent<H> {
    /// How many moves the search looks ahead.
    depth: u32,
    /// How many more moves the quiescence search looks ahead.
    quiescence_search_depth: u32,
    /// The heuristic that values the states at the end of the search.
    heuristic: H,
    /// The player for whom the agent moved last.
    player: Player,
    /// The turn of the agent's last move.
    turn: u32,
}

impl<H: Heuristic> MiniMaxAgent<H> {
    /// How many moves the search looks ahead.
    pub closed spec fn spec_depth(self) -> nat {
        self.depth as nat
    }

    /// How many more moves the quiescence search looks ahead.
    pub closed spec fn spec_quiescence_depth(self) -> nat {
        self.quiescence_search_depth as nat
    }

    /// The heuristic of the agent.
    pub closed spec fn spec_heuristic(self) -> H {
        self.heuristic
    }

    /// The heuristic can give scores, and the search looks at least one move
    /// ahead.
    pub open spec fn inv(self) -> bool {
        self.spec_heuristic().wf() && self.spec_depth() >= 1
    }

    /// The move that the agent chooses in `position`.
    pub open spec fn choice(self, position: Position) -> Option<u8> {
        best_move(self.spec_heuristic(), position, self.spec_depth(), self.spec_quiescence_depth())
    }

    /// An agent whose search looks `depth` moves ahead, then
    /// `quiescence_search_depth` more where the state is not quiet, and
    /// values states by `heuristic`. With a quiescence depth of zero there is
    /// no quiescence search.
    pub fn new(depth: u32, quiescence_search_depth: u32, heuristic: H) -> (agent: MiniMaxAgent<H>)
        requires
            depth >= 1,
            heuristic.wf(),
        ensures
            agent.inv(),
            agent.spec_depth() == depth,
            agent.spec_quiescence_depth() == quiescence_search_depth,
            agent.spec_heuristic() == heuristic,
    {
        MiniMaxAgent { depth, quiescence_search_depth, heuristic, player: Player::One, turn: 0 }
    }

    /// The move with the greatest value for the player to move, the first of
    /// them if there are several; `None` when there is no move.
    pub fn get_best_move(&self, board: UltimateBoard, depth: u32) -> (best: Option<u8>)
        requires
            self.spec_heuristic().wf(),
            board.wf(),
            depth >= 1,
        ensures
            best == best_move(
                self.spec_heuristic(),
                board@,
                depth as nat,
                self.spec_quiescence_depth(),
            ),
            board@.outcome() == GameResult::Continue ==> best is Some && board@.legal(
                best.unwrap(),
            ),
            board@.outcome() != GameResult::Continue ==> best is None,
    {
        if board.get_game_status() != GameResult::Continue {
            return None;
        }
        let mut transposition_table: HashMap<u64, i32> = HashMap::new();
        let possible_moves = board.get_possible_moves();
        let mut best: Option<u8> = None;
        let mut alpha: i32 = WINDOW_MIN;
        let beta: i32 = WINDOW_MAX;
        let mut index: usize = 0;
        while index < possible_moves.len()
            invariant
                index <= possible_moves.len(),
                possible_moves@ == board@.moves(),
                self.spec_heuristic().wf(),
                board.wf(),
                depth >= 1,
                beta == WINDOW_MAX,
                board@.outcome() == GameResult::Continue,
                best_move_at_start(
                    self.spec_heuristic(),
                    board@,
                    depth as nat,
                    self.spec_quiescence_depth(),
                ) == best_move_from(
                    self.spec_heuristic(),
                    board@,
                    depth as nat,
                    self.spec_quiescence_depth(),
                    alpha,
                    best,
                    transposition_table@,
                    index as int,
                ),
                best matches Some(m) ==> board@.moves().contains(m),
                best is None ==> alpha == WINDOW_MIN,
                index > 0 ==> best is Some,
                table_above_floor(transposition_table@),
            decreases possible_moves.len() - index,
        {
            let current_move = possible_moves[index];
            let mut new_board = board;
            proof {
                board.lemma_wf();
                board@.lemma_moves();
                assert(board@.moves()[index as int] == current_move);
                assert(board@.moves().contains(current_move));
                assert(board@.legal(current_move));
            }
            let moved = new_board.make_move(current_move);
            let ghost table_before = transposition_table@;
            let ghost alpha_before = alpha;
            let ghost best_before = best;
            let value = self.minimax(
                new_board,
                depth - 1,
                false,
                alpha,
                beta,
                &mut transposition_table,
            );
            if value > alpha {
                alpha = value;
                best = Some(current_move);
            }
            proof {
                assert(best_move_from(
                    self.spec_heuristic(),
                    board@,
                    depth as nat,
                    self.spec_quiescence_depth(),
                    alpha_before,
                    best_before,
                    table_before,
                    index as int,
                ) == best_move_from(
                    self.spec_heuristic(),
                    board@,
                    depth as nat,
                    self.spec_quiescence_depth(),
                    alpha,
                    best,
                    transposition_table@,
                    index + 1,
                ));
            }
            index = index + 1;
        }
        proof {
            board.lemma_wf();
            board@.lemma_moves();
            board@.lemma_open_game_has_move();
        }
        best
    }

    /// The value of the state that `board` holds for the maximizing side, by
    /// a search of `depth` moves within the window from `alpha` to `beta`.
    /// The values of the states that the search goes through enter
    /// `transposition_table`.
    pub fn minimax(
        &self,
        board: UltimateBoard,
        depth: u32,
        maximizing: bool,
        alpha: i32,
        beta: i32,
        transposition_table: &mut HashMap<u64, i32>,
    ) -> (value: i32)
        requires
            self.spec_heuristic().wf(),
            board.wf(),
        ensures
            (value, final(transposition_table)@) == minimax_value(
                self.spec_heuristic(),
                board@,
                depth as nat,
                self.spec_quiescence_depth(),
                maximizing,
                alpha,
                beta,
                old(transposition_table)@,
            ),
            beta > WINDOW_MIN && table_above_floor(old(transposition_table)@) ==> value
                > WINDOW_MIN && table_above_floor(final(transposition_table)@),
        decreases depth,
    {
        if depth == 0 {
            return self.quiescence_search(
                board,
                self.quiescence_search_depth,
                maximizing,
                alpha,
                beta,
            );
        }
        if board.get_game_status() != GameResult::Continue {
            return self.heuristic.evaluate(board);
        }
        let possible_moves = board.get_possible_moves();
        if possible_moves.len() == 0 {
            return self.heuristic.evaluate(board);
        }
        let hash = board.get_hash();
        if let Some(evaluation) = transposition_table.get(&hash) {
            return *evaluation;
        }
        let mut low = alpha;
        let mut high = beta;
        let mut index: usize = 0;
        while index < possible_moves.len()
            invariant
                index <= possible_moves.len(),
                possible_moves@ == board@.moves(),
                self.spec_heuristic().wf(),
                board.wf(),
                depth > 0,
                board@.outcome() == GameResult::Continue,
                hash == board@.hash(),
                board@.moves().len() > 0,
                !old(transposition_table)@.contains_key(hash),
                beta > WINDOW_MIN && table_above_floor(old(transposition_table)@) ==> high
                    > WINDOW_MIN && table_above_floor(transposition_table@) && (maximizing
                    && index > 0 ==> low > WINDOW_MIN),
                minimax_moves(
                    self.spec_heuristic(),
                    board@,
                    depth as nat,
                    self.spec_quiescence_depth(),
                    maximizing,
                    alpha,
                    beta,
                    old(transposition_table)@,
                    0,
                ) == minimax_moves(
                    self.spec_heuristic(),
                    board@,
                    depth as nat,
                    self.spec_quiescence_depth(),
                    maximizing,
                    low,
                    high,
                    transposition_table@,
                    index as int,
                ),
            decreases possible_moves.len() - index,
        {
            let current_move = possible_moves[index];
            let mut new_board = board;
            proof {
                board.lemma_wf();
                board@.lemma_moves();
                assert(board@.moves()[index as int] == current_move);
                assert(board@.moves().contains(current_move));
                assert(board@.outcome() == GameResult::Continue ==> board@.legal(current_move));
            }
            let moved = new_board.make_move(current_move);
            assert(moved is Ok);
            let ghost before = (low, high, transposition_table@);
            let value = self.minimax(
                new_board,
                depth - 1,
                !maximizing,
                low,
                high,
                transposition_table,
            );
            if maximizing {
                if value > low {
                    low = value;
                }
            } else {
                if value < high {
                    high = value;
                }
            }
            proof {
                assert((low, high) == narrowed(maximizing, before.0, before.1, value));
                let unfolded = minimax_moves(
                    self.spec_heuristic(),
                    board@,
                    depth as nat,
                    self.spec_quiescence_depth(),
                    maximizing,
                    before.0,
                    before.1,
                    before.2,
                    index as int,
                );
                assert(unfolded == if low >= high {
                    (window_end(maximizing, low, high), transposition_table@)
                } else {
                    minimax_moves(
                        self.spec_heuristic(),
                        board@,
                        depth as nat,
                        self.spec_quiescence_depth(),
                        maximizing,
                        low,
                        high,
                        transposition_table@,
                        index + 1,
                    )
                });
            }
            if low >= high {
                let result = if maximizing {
                    low
                } else {
                    high
                };
                transposition_table.insert(hash, result);
                return result;
            }
            index = index + 1;
        }
        let result = if maximizing {
            low
        } else {
            high
        };
        transposition_table.insert(hash, result);
        result
    }

    /// The value of the state that `board` holds for the maximizing side, by
    /// a quiescence search of `depth` moves within the window from `alpha`
    /// to `beta`. The search only goes on where the player to move may choose
    /// the small board.
    pub fn quiescence_search(
        &self,
        board: UltimateBoard,
        depth: u32,
        maximizing: bool,
        alpha: i32,
        beta: i32,
    ) -> (value: i32)
        requires
            self.spec_heuristic().wf(),
            board.wf(),
        ensures
            value == quiescence_value(
                self.spec_heuristic(),
                board@,
                depth as nat,
                maximizing,
                alpha,
                beta,
            ),
            beta > WINDOW_MIN ==> value > WINDOW_MIN,
        decreases depth,
    {
        if depth == 0 {
            return self.heuristic.evaluate(board);
        }
        if board.get_game_status() != GameResult::Continue {
            return self.heuristic.evaluate(board);
        }
        if board.get_next_board_index().is_some() {
            return self.heuristic.evaluate(board);
        }
        let possible_moves = board.get_possible_moves();
        if possible_moves.len() == 0 {
            return self.heuristic.evaluate(board);
        }
        let mut low = alpha;
        let mut high = beta;
        let mut index: usize = 0;
        while index < possible_moves.len()
            invariant
                index <= possible_moves.len(),
                possible_moves@ == board@.moves(),
                self.spec_heuristic().wf(),
                board.wf(),
                depth > 0,
                board@.outcome() == GameResult::Continue,
                !is_quiet(board@, depth as nat),
                board@.moves().len() > 0,
                beta > WINDOW_MIN ==> high > WINDOW_MIN && (maximizing && index > 0 ==> low
                    > WINDOW_MIN),
                quiescence_moves(
                    self.spec_heuristic(),
                    board@,
                    depth as nat,
                    maximizing,
                    alpha,
                    beta,
                    0,
                ) == quiescence_moves(
                    self.spec_heuristic(),
                    board@,
                    depth as nat,
                    maximizing,
                    low,
                    high,
                    index as int,
                ),
            decreases possible_moves.len() - index,
        {
            let current_move = possible_moves[index];
            let mut new_board = board;
            proof {
                board.lemma_wf();
                board@.lemma_moves();
                assert(board@.moves()[index as int] == current_move);
                assert(board@.moves().contains(current_move));
                assert(board@.outcome() == GameResult::Continue ==> board@.legal(current_move));
            }
            let moved = new_board.make_move(current_move);
            assert(moved is Ok);
            let ghost before = (low, high);
            let value = self.quiescence_search(new_board, depth - 1, !maximizing, low, high);
            if maximizing {
                if value > low {
                    low = value;
                }
            } else {
                if value < high {
                    high = value;
                }
            }
            proof {
                assert((low, high) == narrowed(maximizing, before.0, before.1, value));
                let unfolded = quiescence_moves(
                    self.spec_heuristic(),
                    board@,
                    depth as nat,
                    maximizing,
                    before.0,
                    before.1,
                    index as int,
                );
                assert(unfolded == if low >= high {
                    window_end(maximizing, low, high)
                } else {
                    quiescence_moves(
                        self.spec_heuristic(),
                        board@,
                        depth as nat,
                        maximizing,
                        low,
                        high,
                        index + 1,
                    )
                });
            }
            if low >= high {
                return if maximizing {
                    low
                } else {
                    high
                };
            }
            index = index + 1;
        }
        if maximizing {
            low
        } else {
            high
        }
    }
}

/// Every value that the table holds is above the least value of a window.
/// A search that starts with such a table and a window that ends above that
/// value returns a value above it and leaves such a table, because no
/// heuristic gives a score as small.
pub open spec fn table_above_floor(table: Map<u64, i32>) -> bool {
    forall|hash: u64| table.contains_key(hash) ==> #[trigger] table[hash] > WINDOW_MIN
}

/// The value of a state by a search that looks at every move, without
/// window: the heuristic's score of a state beyond which the quiescence
/// search does not look, and otherwise the greatest of the values of the moves
/// for the maximizing side, the least for the minimizing side.
pub open spec fn plain_value<H: Heuristic>(
    heuristic: H,
    position: Position,
    depth: nat,
    maximizing: bool,
) -> i32
    decreases depth, position.moves().len() + 1,
{
    if is_quiet(position, depth) {
        heuristic.value(position)
    } else {
        plain_moves(heuristic, position, depth, maximizing, 0)
    }
}

/// The greatest, for the maximizing side, or the least, for the minimizing
/// side, of the values of the moves from number `from` on.
pub open spec fn plain_moves<H: Heuristic>(
    heuristic: H,
    position: Position,
    depth: nat,
    maximizing: bool,
    from: int,
) -> i32
    decreases depth, position.moves().len() - from,
{
    let moves = position.moves();
    if depth == 0 || from < 0 || from >= moves.len() {
        0
    } else {
        let value = plain_value(
            heuristic,
            position.play(moves[from]),
            (depth - 1) as nat,
            !maximizing,
        );
        if from + 1 >= moves.len() {
            value
        } else {
            let rest = plain_moves(heuristic, position, depth, maximizing, from + 1);
            if maximizing == (value > rest) {
                value
            } else {
                rest
            }
        }
    }
}

/// True when `result` tells as much of `exact` as a search within the window
/// from `alpha` to `beta` has to: it is `exact` where that lies inside the
/// window, and lies at or beyond the end of the window beyond which `exact`
/// lies.
pub open spec fn tells(result: i32, exact: i32, alpha: i32, beta: i32) -> bool {
    &&& alpha < exact < beta ==> result == exact
    &&& exact <= alpha ==> result <= alpha
    &&& exact >= beta ==> result >= beta
}

/// Pruning loses nothing: within a window that is not empty the quiescence
/// search tells as much of the value of the search that looks at every move as
/// the window asks for.
pub proof fn lemma_quiescence_search_prunes_soundly<H: Heuristic>(
    heuristic: H,
    position: Position,
    depth: nat,
    maximizing: bool,
    alpha: i32,
    beta: i32,
)
    requires
        alpha < beta,
    ensures
        tells(
            quiescence_value(heuristic, position, depth, maximizing, alpha, beta),
            plain_value(heuristic, position, depth, maximizing),
            alpha,
            beta,
        ),
    decreases depth, position.moves().len() + 1,
{
    if !is_quiet(position, depth) {
        lemma_quiescence_moves_prune_soundly(heuristic, position, depth, maximizing, alpha, beta, 0);
    }
}

/// The same for the moves from number `from` on, where the window has been
/// narrowed by the moves before: the result is the end of the window, moved
/// to the best of the values of the moves that are left if that is better, or
/// lies at or beyond the other end if the best lies there.
pub proof fn lemma_quiescence_moves_prune_soundly<H: Heuristic>(
    heuristic: H,
    position: Position,
    depth: nat,
    maximizing: bool,
    alpha: i32,
    beta: i32,
    from: int,
)
    requires
        alpha < beta,
        depth > 0,
        0 <= from < position.moves().len(),
    ensures
        ({
            let result = quiescence_moves(heuristic, position, depth, maximizing, alpha, beta, from);
            let exact = plain_moves(heuristic, position, depth, maximizing, from);
            if maximizing {
                if exact < beta {
                    result == (if exact > alpha {
                        exact
                    } else {
                        alpha
                    })
                } else {
                    result >= beta
                }
            } else {
                if exact > alpha {
                    result == (if exact < beta {
                        exact
                    } else {
                        beta
                    })
                } else {
                    result <= alpha
                }
            }
        }),
    decreases depth, position.moves().len() - from,
{
    let moves = position.moves();
    let child = position.play(moves[from]);
    lemma_quiescence_search_prunes_soundly(
        heuristic,
        child,
        (depth - 1) as nat,
        !maximizing,
        alpha,
        beta,
    );
    let value = quiescence_value(heuristic, child, (depth - 1) as nat, !maximizing, alpha, beta);
    let exact_value = plain_value(heuristic, child, (depth - 1) as nat, !maximizing);
    assert(tells(value, exact_value, alpha, beta));
    let (new_alpha, new_beta) = narrowed(maximizing, alpha, beta, value);
    let result = quiescence_moves(heuristic, position, depth, maximizing, alpha, beta, from);
    let exact = plain_moves(heuristic, position, depth, maximizing, from);
    if new_alpha >= new_beta {
        assert(result == window_end(maximizing, new_alpha, new_beta));
        if from + 1 < moves.len() {
            let rest = plain_moves(heuristic, position, depth, maximizing, from + 1);
            assert(exact == if maximizing == (exact_value > rest) {
                exact_value
            } else {
                rest
            });
        } else {
            assert(exact == exact_value);
        }
    } else if from + 1 < moves.len() {
        lemma_quiescence_moves_prune_soundly(
            heuristic,
            position,
            depth,
            maximizing,
            new_alpha,
            new_beta,
            from + 1,
        );
        let rest = plain_moves(heuristic, position, depth, maximizing, from + 1);
        let rest_result = quiescence_moves(
            heuristic,
            position,
            depth,
            maximizing,
            new_alpha,
            new_beta,
            from + 1,
        );
        assert(result == rest_result);
        assert(exact == if maximizing == (exact_value > rest) {
            exact_value
        } else {
            rest
        });
    } else {
        assert(quiescence_moves(
            heuristic,
            position,
            depth,
            maximizing,
            new_alpha,
            new_beta,
            from + 1,
        ) == window_end(maximizing, new_alpha, new_beta));
        assert(result == window_end(maximizing, new_alpha, new_beta));
        assert(exact == exact_value);
    }
}

/// The score that the heuristic gives to the state after move number `k` of
/// `position`.
pub open spec fn score_after<H: Heuristic>(heuristic: H, position: Position, k: int) -> i32 {
    heuristic.value(position.play(position.moves()[k]))
}

/// True when `choice` is move number `k` of `position`, no move leads to a
/// state with a greater score, and every move before it leads to a state with
/// a smaller score.
pub open spec fn is_first_best<H: Heuristic>(
    heuristic: H,
    position: Position,
    choice: Option<u8>,
    k: int,
) -> bool {
    &&& 0 <= k < position.moves().len()
    &&& choice == Some(position.moves()[k])
    &&& forall|j: int|
        0 <= j < position.moves().len() ==> #[trigger] score_after(heuristic, position, j)
            <= score_after(heuristic, position, k)
    &&& forall|j: int|
        0 <= j < k ==> #[trigger] score_after(heuristic, position, j) < score_after(
            heuristic,
            position,
            k,
        )
}

/// A search that looks one move ahead, without quiescence search, takes the
/// first of the moves that lead to a state with the greatest score, if every
/// score is above the least value of a window.
pub proof fn lemma_depth_one_takes_first_best<H: Heuristic>(heuristic: H, position: Position)
    requires
        position.wf(),
        position.outcome() == GameResult::Continue,
        forall|other: Position| #[trigger] heuristic.value(other) > WINDOW_MIN,
    ensures
        exists|k: int| is_first_best(heuristic, position, best_move(heuristic, position, 1, 0), k),
{
    position.lemma_open_game_has_move();
    lemma_depth_one_from(heuristic, position, WINDOW_MIN, None, Map::empty(), 0, 0);
}

/// The search that looks one move ahead, from move number `from` on: when
/// the best move so far is the first best of the moves before `from`, the move
/// that the search takes is the first best of all moves.
proof fn lemma_depth_one_from<H: Heuristic>(
    heuristic: H,
    position: Position,
    alpha: i32,
    best: Option<u8>,
    table: Map<u64, i32>,
    from: int,
    k: int,
)
    requires
        0 <= from <= position.moves().len(),
        position.moves().len() > 0,
        forall|other: Position| #[trigger] heuristic.value(other) > WINDOW_MIN,
        from == 0 ==> best is None && alpha == WINDOW_MIN,
        from > 0 ==> {
            &&& 0 <= k < from
            &&& best == Some(position.moves()[k])
            &&& alpha == score_after(heuristic, position, k)
            &&& forall|j: int|
                0 <= j < from ==> #[trigger] score_after(heuristic, position, j) <= alpha
            &&& forall|j: int| 0 <= j < k ==> #[trigger] score_after(heuristic, position, j) < alpha
        },
    ensures
        exists|chosen: int|
            is_first_best(
                heuristic,
                position,
                best_move_from(heuristic, position, 1, 0, alpha, best, table, from),
                chosen,
            ),
    decreases position.moves().len() - from,
{
    let moves = position.moves();
    if from >= moves.len() {
        assert(is_first_best(
            heuristic,
            position,
            best_move_from(heuristic, position, 1, 0, alpha, best, table, from),
            k,
        ));
    } else {
        let value = score_after(heuristic, position, from);
        assert(minimax_value(
            heuristic,
            position.play(moves[from]),
            0,
            0,
            false,
            alpha,
            WINDOW_MAX,
            table,
        ) == (value, table));
        if value > alpha {
            lemma_depth_one_from(heuristic, position, value, Some(moves[from]), table, from + 1, from);
        } else {
            lemma_depth_one_from(heuristic, position, alpha, best, table, from + 1, k);
        }
    }
}

/// Two agents with the same depths and the same heuristic choose the same
/// move in the same state.
pub proof fn lemma_same_setup_same_move<H: Heuristic>(
    first: MiniMaxAgent<H>,
    second: MiniMaxAgent<H>,
    position: Position,
)
    requires
        first.spec_depth() == second.spec_depth(),
        first.spec_quiescence_depth() == second.spec_quiescence_depth(),
        first.spec_heuristic() == second.spec_heuristic(),
    ensures
        first.choice(position) == second.choice(position),
{
}

impl<H: Heuristic> Agent for MiniMaxAgent<H> {
    open spec fn wf(&self) -> bool {
        self.inv()
    }

    /// The one answer of the agent is the move that its search chooses.
    open spec fn answers(
        &self,
        position: Position,
        player: Player,
        turn: u32,
        choice: Option<u8>,
    ) -> bool {
        choice == self.choice(position)
    }

    /// The move that the search chooses. While the game goes on this is a
    /// move that may be made.
    fn act(&mut self, board: UltimateBoard, player: Player, turn: u32) -> (choice: Option<u8>)
        ensures
            choice == old(self).choice(board@),
            final(self).spec_depth() == old(self).spec_depth(),
            final(self).spec_quiescence_depth() == old(self).spec_quiescence_depth(),
            final(self).spec_heuristic() == old(self).spec_heuristic(),
            board@.outcome() == GameResult::Continue ==> choice is Some && board@.legal(
                choice.unwrap(),
            ),
    {
        self.player = player;
        self.turn = turn;
        let depth = self.depth;
        self.get_best_move(board, depth)
    }

    /// The name is that of the heuristic; the setup is the depth of the
    /// search, a plus sign and the depth of the quiescence search.
    fn get_info(&self) -> (info: AgentInfo)
        ensures
            info.name@ == self.spec_heuristic().name(),
            exists|depth: Seq<char>, quiescence_depth: Seq<char>|
                #![auto]
                {
                    &&& is_decimal_text(self.spec_depth() as u32, depth)
                    &&& is_decimal_text(self.spec_quiescence_depth() as u32, quiescence_depth)
                    &&& info.config@ == depth + "+"@ + quiescence_depth
                },
    {
        let depth = self.depth.to_string();
        let quiescence_depth = self.quiescence_search_depth.to_string();
        proof {
            assert(is_decimal_text(self.depth, depth@));
            assert(is_decimal_text(self.quiescence_search_depth, quiescence_depth@));
        }
        let ghost depth_text = depth@;
        let config = depth.concat("+").concat(quiescence_depth.as_str());
        proof {
            assert(config@ == depth_text + "+"@ + quiescence_depth@);
        }
        AgentInfo::new(self.heuristic.get_name(), self.player, self.turn, config)
    }

    /// The agent says that its name is that of its heuristic and that its
    /// setup is the depth of the search, a plus sign and the depth of the
    /// quiescence search.
    open spec fn describes(&self, info: AgentInfo) -> bool {
        &&& info.name@ == self.spec_heuristic().name()
        &&& exists|depth: Seq<char>, quiescence_depth: Seq<char>|
            #![auto]
            {
                &&& is_decimal_text(self.spec_depth() as u32, depth)
                &&& is_decimal_text(self.spec_quiescence_depth() as u32, quiescence_depth)
                &&& info.config@ == depth + "+"@ + quiescence_depth
            }
    }
}

} // verus!
