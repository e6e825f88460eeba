//! A heuristic that counts marks, pairs of marks and small boards won.

use std::collections::HashMap;
use vstd::prelude::*;
use vstd::std_specs::hash::group_hash_axioms;
use crate::game::board::{
    lemma_marked_below_bounds, lemma_pairs_below_bounds, marks_difference,
    partial_wins_difference, Board, LegalBoardIterator,
};
use crate::game::game_result::GameResult;
use crate::game::player::Player;
use crate::game::position::Position;
use crate::game::ultimate_board::UltimateBoard;
use crate::agent::minimax_agent::{
    best_move, is_first_best, lemma_depth_one_takes_first_best, score_after, WINDOW_MIN,
};
use crate::heuristic::{
    holds_all_scores, Heuristic, MiniBoardHeuristic, MAX_VALUE, MIN_VALUE,
};

verus! {

broadcast use group_hash_axioms;

/// What a small board that a player has won adds to the score of the player.
pub const WON_BOARD_VALUE: i32 = 10;

/// The score of a small board for player one: the marks that player one has
/// more than player two, if any, and twice the partial wins difference of
/// player one.
pub open spec fn small_board_value(cells: Seq<Option<Player>>) -> int {
    let ahead = marks_difference(cells, Player::One);
    (if ahead > 0 {
        ahead
    } else {
        0
    }) + 2 * partial_wins_difference(cells, Player::One)
}

/// One for player one, minus one for player two: the scores of small boards
/// are those of player one.
pub open spec fn side(player: Player) -> int {
    match player {
        Player::One => 1,
        Player::Two => -1,
    }
}

/// The sum of the scores of the small boards before `bound`, for `player`.
pub open spec fn small_boards_below(position: Position, player: Player, bound: int) -> int
    decreases bound,
{
    if bound <= 0 {
        0
    } else {
        small_boards_below(position, player, bound - 1) + side(player) * small_board_value(
            position.sub_cells(bound - 1),
        )
    }
}

/// What the outcome of a small board adds to the score of `player`: ten
/// when the player has won it, minus ten when the opponent has.
pub open spec fn won_board_term(outcome: GameResult, player: Player) -> int {
    match outcome {
        GameResult::Win(winner) => if winner == player {
            10
        } else {
            -10
        },
        _ => 0,
    }
}

/// The sum of what the outcomes of the small boards before `bound` add to
/// the score of `player`.
pub open spec fn won_boards_below(position: Position, player: Player, bound: int) -> int
    decreases bound,
{
    if bound <= 0 {
        0
    } else {
        won_boards_below(position, player, bound - 1) + won_board_term(
            position.sub_outcome(bound - 1),
            player,
        )
    }
}

/// The score of a state for `player`: the greatest score when the player
/// has won the game, the least when the opponent has, and otherwise the
/// scores of the small boards, ten for the small board in the centre if the
/// player has won it, and ten for each small board that the player has won
/// less ten for each that the opponent has.
pub open spec fn custom_value(position: Position, player: Player) -> int {
    if position.outcome() == GameResult::Win(player) {
        MAX_VALUE as int
    } else if position.outcome() == GameResult::Win(player.spec_opponent()) {
        MIN_VALUE as int
    } else {
        small_boards_below(position, player, 9) + (if position.sub_outcome(4) == GameResult::Win(
            player,
        ) {
            10int
        } else {
            0int
        }) + won_boards_below(position, player, 9)
    }
}

/// The score of a small board lies between -48 and 57.
pub proof fn lemma_small_board_value_bounds(cells: Seq<Option<Player>>)
    ensures
        -48 <= small_board_value(cells) <= 57,
{
    lemma_marked_below_bounds(cells, Player::One, 9);
    lemma_marked_below_bounds(cells, Player::Two, 9);
    lemma_pairs_below_bounds(cells, Player::One, 24);
}

/// The sums over the small boards grow by no more than the greatest term
/// for each board.
pub proof fn lemma_sums_bounds(position: Position, player: Player, bound: int)
    requires
        0 <= bound,
    ensures
        -57 * bound <= small_boards_below(position, player, bound) <= 57 * bound,
        -10 * bound <= won_boards_below(position, player, bound) <= 10 * bound,
    decreases bound,
{
    if bound > 0 {
        lemma_sums_bounds(position, player, bound - 1);
        lemma_small_board_value_bounds(position.sub_cells(bound - 1));
    }
}

/// The score of a state lies between the least and the greatest score.
pub proof fn lemma_custom_value_bounds(position: Position, player: Player)
    ensures
        MIN_VALUE <= custom_value(position, player) <= MAX_VALUE,
{
    lemma_sums_bounds(position, player, 9);
}

/// A state has the greatest score exactly when the player has won the game.
pub proof fn lemma_greatest_value_is_win(position: Position, player: Player)
    ensures
        custom_value(position, player) == MAX_VALUE <==> position.outcome() == GameResult::Win(
            player,
        ),
{
    lemma_sums_bounds(position, player, 9);
}

/// When the player to move can win the game with one move, a search that
/// looks one move ahead, without quiescence search, and values states by the
/// heuristic of that player takes a move that wins the game.
pub proof fn lemma_depth_one_takes_winning_move(
    heuristic: CustomHeuristic,
    position: Position,
    winning: u8,
)
    requires
        position.wf(),
        position.legal(winning),
        position.play(winning).outcome() == GameResult::Win(heuristic.spec_player()),
    ensures
        best_move(heuristic, position, 1, 0) matches Some(chosen) && position.legal(chosen)
            && position.play(chosen).outcome() == GameResult::Win(heuristic.spec_player()),
{
    let player = heuristic.spec_player();
    assert forall|other: Position| #[trigger] heuristic.value(other) > WINDOW_MIN by {
        lemma_custom_value_bounds(other, player);
    }
    position.lemma_moves();
    lemma_depth_one_takes_first_best(heuristic, position);
    let k = choose|k: int| is_first_best(heuristic, position, best_move(heuristic, position, 1, 0), k);
    let moves = position.moves();
    assert(moves.contains(winning));
    let w = choose|w: int| 0 <= w < moves.len() && moves[w] == winning;
    lemma_greatest_value_is_win(position.play(winning), player);
    lemma_greatest_value_is_win(position.play(moves[k]), player);
    lemma_custom_value_bounds(position.play(moves[k]), player);
    assert(score_after(heuristic, position, w) <= score_after(heuristic, position, k));
    assert(moves.contains(moves[k]));
}

/// The heuristic for small boards that counts marks and pairs of marks.
pub struct CustomMiniBoardHeuristic;

impl MiniBoardHeuristic for CustomMiniBoardHeuristic {
    open spec fn wf(&self) -> bool {
        true
    }

    open spec fn value(&self, cells: Seq<Option<Player>>) -> i32 {
        small_board_value(cells) as i32
    }

    fn evaluate(&self, board: Board) -> (score: i32) {
        proof {
            lemma_small_board_value_bounds(board@);
        }
        let mut value: i32 = 0;
        let positions_set_difference = board.get_positions_set_difference(Player::One);
        if positions_set_difference > 0 {
            value = value + positions_set_difference as i32;
        }
        let partial_wins_difference = board.get_partial_wins_difference(Player::One);
        value = value + partial_wins_difference as i32 * 2;
        value
    }
}

/// A heuristic that counts marks, pairs of marks and small boards won, for
/// one player.
#[derive(Clone)]
pub struct CustomHeuristic {
    /// The player whom the heuristic judges for.
    player: Player,
    /// The score of every small board, under the board's key.
    small_board_lookup_table: HashMap<u32, i32>,
}

impl CustomHeuristic {
    /// The player whom the heuristic judges for.
    pub closed spec fn spec_player(self) -> Player {
        self.player
    }

    /// The table of the scores of the small boards.
    pub closed spec fn spec_table(self) -> Map<u32, i32> {
        self.small_board_lookup_table@
    }

    /// The heuristic that judges for `player`.
    pub fn new(player: Player) -> (heuristic: CustomHeuristic)
        ensures
            heuristic.wf(),
            heuristic.spec_player() == player,
    {
        let small_board_lookup_table = CustomMiniBoardHeuristic.initialize();
        CustomHeuristic { player, small_board_lookup_table }
    }
}

impl Heuristic for CustomHeuristic {
    open spec fn wf(&self) -> bool {
        holds_all_scores(
            |cells: Seq<Option<Player>>| small_board_value(cells) as i32,
            self.spec_table(),
        )
    }

    open spec fn value(&self, position: Position) -> i32 {
        custom_value(position, self.spec_player()) as i32
    }

    fn evaluate(&self, board: UltimateBoard) -> (score: i32) {
        let player = self.player;
        let status = board.get_game_status();
        if status == GameResult::Win(player) {
            return MAX_VALUE;
        }
        if status == GameResult::Win(player.get_opponent()) {
            return MIN_VALUE;
        }
        let boards = board.get_boards();
        let board_status = board.get_board_status();
        let sign: i32 = match player {
            Player::One => 1,
            Player::Two => -1,
        };
        let mut value: i32 = 0;
        let mut index: usize = 0;
        while index < 9
            invariant
                index <= 9,
                self.wf(),
                board.wf(),
                player == self.spec_player(),
                sign == side(player),
                boards@ == board.spec_boards(),
                value == small_boards_below(board@, player, index as int),
            decreases 9 - index,
        {
            let small_board = boards[index];
            proof {
                board.lemma_wf();
                small_board.lemma_view_of_bits();
                lemma_sums_bounds(board@, player, index as int);
                lemma_small_board_value_bounds(board@.sub_cells(index as int));
                let key = small_board.key();
                assert(LegalBoardIterator::legal(key)) by {
                    small_board.lemma_key_is_legal();
                }
            }
            let key = small_board.to_key();
            match self.small_board_lookup_table.get(&key) {
                Some(small_value) => {
                    value = value + *small_value * sign;
                },
                None => {},
            }
            index = index + 1;
        }
        proof {
            lemma_sums_bounds(board@, player, 9);
        }
        if board_status[4] == GameResult::Win(player) {
            value = value + WON_BOARD_VALUE;
        }
        let ghost base = value;
        let mut index: usize = 0;
        while index < 9
            invariant
                index <= 9,
                board.wf(),
                -600 <= base <= 600,
                forall|sub: int|
                    0 <= sub < 9 ==> #[trigger] board_status@[sub] == board@.sub_outcome(sub),
                value == base + won_boards_below(board@, player, index as int),
            decreases 9 - index,
        {
            proof {
                lemma_sums_bounds(board@, player, index as int);
            }
            match board_status[index] {
                GameResult::Win(winner) => {
                    if winner == player {
                        value = value + WON_BOARD_VALUE;
                    } else {
                        value = value - WON_BOARD_VALUE;
                    }
                },
                _ => {},
            }
            index = index + 1;
        }
        proof {
            lemma_sums_bounds(board@, player, 9);
        }
        value
    }

    open spec fn name(&self) -> Seq<char> {
        "SH"@
    }

    /// The name is `SH`.
    fn get_name(&self) -> (name: String) {
        String::from_str("SH")
    }
}

} // verus!
