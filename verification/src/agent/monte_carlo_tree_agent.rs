//! An agent that chooses its move by Monte Carlo tree search.
//!
//! The search grows a tree of states from the state that it is asked about.
//! Each round walks down from the root, at every node to the child that a
//! [`TreePolicy`] scores highest, until it comes to a node without children.
//! There it adds one child for every move and plays one game by chance from
//! each of them. How these games end is counted in the new nodes and in every
//! node on the way back to the root. In the end the agent makes the move to the
//! child of the root that has won the greatest share of its games.

use vstd::prelude::*;
use crate::agent::random_agent::{move_at, random_game};
use crate::agent::{is_decimal_text, Agent, AgentInfo};
use crate::game::game_result::GameResult;
use crate::game::player::Player;
use crate::game::position::Position;
use crate::game::ultimate_board::UltimateBoard;
use crate::tree::Node;

verus! {

/// The greatest number of games that one round of the search adds to a
/// node: one for each square of the board.
pub const MAX_ROUND_GAMES: u64 = 81;

/// How the games that went through a node ended, seen from the player for
/// whom the agent moves.
#[derive(Clone, Copy, Debug, PartialEq, Eq, Structural)]
pub struct Stats {
    wins: u64,
    draws: u64,
    losses: u64,
}

impl Stats {
    /// Number of games won.
    pub closed spec fn spec_wins(self) -> u64 {
        self.wins
    }

    /// Number of games drawn.
    pub closed spec fn spec_draws(self) -> u64 {
        self.draws
    }

    /// Number of games lost.
    pub closed spec fn spec_losses(self) -> u64 {
        self.losses
    }

    /// Number of games.
    pub open spec fn spec_total(self) -> int {
        self.spec_wins() + self.spec_draws() + self.spec_losses()
    }

    /// The number of games fits the type of the counts.
    pub open spec fn wf(self) -> bool {
        self.spec_total() <= u64::MAX
    }

    /// The counts of no game.
    pub open spec fn zero() -> Stats {
        Stats::of(0, 0, 0)
    }

    /// The given counts.
    pub closed spec fn of(wins: u64, draws: u64, losses: u64) -> Stats {
        Stats { wins, draws, losses }
    }

    /// True when the share of games won is smaller in `self` than in
    /// `other`. Counts of no game have the smallest share of all.
    pub open spec fn ratio_less(self, other: Stats) -> bool {
        if other.spec_total() == 0 {
            false
        } else if self.spec_total() == 0 {
            true
        } else {
            self.spec_wins() * other.spec_total() < other.spec_wins() * self.spec_total()
        }
    }

    /// The counts with the given numbers of games.
    pub fn with_counts(wins: u64, draws: u64, losses: u64) -> (stats: Stats)
        ensures
            stats == Stats::of(wins, draws, losses),
            stats.spec_wins() == wins,
            stats.spec_draws() == draws,
            stats.spec_losses() == losses,
    {
        Stats { wins, draws, losses }
    }

    /// Number of games.
    pub fn total(&self) -> (total: u64)
        requires
            self.wf(),
        ensures
            total == self.spec_total(),
    {
        self.wins + self.draws + self.losses
    }

    /// Number of games won.
    pub fn wins(&self) -> (wins: u64)
        ensures
            wins == self.spec_wins(),
    {
        self.wins
    }

    /// Number of games drawn.
    pub fn draws(&self) -> (draws: u64)
        ensures
            draws == self.spec_draws(),
    {
        self.draws
    }

    /// Number of games lost.
    pub fn losses(&self) -> (losses: u64)
        ensures
            losses == self.spec_losses(),
    {
        self.losses
    }

    /// Adds the counts of `other` to these.
    pub fn merge(&mut self, other: Stats)
        requires
            old(self).spec_total() + other.spec_total() <= u64::MAX,
        ensures
            final(self).spec_wins() == old(self).spec_wins() + other.spec_wins(),
            final(self).spec_draws() == old(self).spec_draws() + other.spec_draws(),
            final(self).spec_losses() == old(self).spec_losses() + other.spec_losses(),
            final(self).spec_total() == old(self).spec_total() + other.spec_total(),
            final(self).wf(),
    {
        self.wins = self.wins + other.wins;
        self.draws = self.draws + other.draws;
        self.losses = self.losses + other.losses;
    }

    /// True when the share of games won is smaller in `self` than in
    /// `other`.
    pub fn has_smaller_ratio(&self, other: &Stats) -> (less: bool)
        requires
            self.wf(),
            other.wf(),
        ensures
            less == self.ratio_less(*other),
    {
        let own_total = self.total();
        let other_total = other.total();
        if other_total == 0 {
            false
        } else if own_total == 0 {
            true
        } else {
            proof {
                lemma_product_fits(self.wins, other_total);
                lemma_product_fits(other.wins, own_total);
            }
            (self.wins as u128) * (other_total as u128) < (other.wins as u128) * (
            own_total as u128)
        }
    }
}

impl Default for Stats {
    fn default() -> (stats: Stats)
        ensures
            stats == Stats::zero(),
            stats.spec_total() == 0,
    {
        Stats { wins: 0, draws: 0, losses: 0 }
    }
}

/// The product of two 64-bit numbers fits 128 bits.
proof fn lemma_product_fits(a: u64, b: u64)
    by (nonlinear_arith)
    ensures
        a * b <= u128::MAX,
{
    assert(a * b <= 0xffff_ffff_ffff_ffff * 0xffff_ffff_ffff_ffff);
}

/// If the share of `a` is not smaller than that of `b`, and that of `b` not
/// smaller than that of `c`, then the share of `a` is not smaller than that of
/// `c`. Shares are written as wins and games.
proof fn lemma_share_transitive(aw: int, at: int, bw: int, bt: int, cw: int, ct: int)
    by (nonlinear_arith)
    requires
        0 <= aw,
        0 <= bw,
        0 <= cw,
        0 < at,
        0 < bt,
        0 < ct,
        aw * bt >= bw * at,
        bw * ct >= cw * bt,
    ensures
        aw * ct >= cw * at,
{
    assert(aw * bt * ct >= bw * at * ct);
    assert(bw * ct * at >= cw * bt * at);
    assert(aw * ct * bt >= cw * at * bt);
}

/// The order of the shares: no counts have a smaller share than themselves,
/// of two counts one does not have a smaller share than the other, and not
/// having a smaller share carries over.
pub proof fn lemma_ratio_order(a: Stats, b: Stats, c: Stats)
    ensures
        !a.ratio_less(a),
        a.ratio_less(b) ==> !b.ratio_less(a),
        !a.ratio_less(b) && !b.ratio_less(c) ==> !a.ratio_less(c),
{
    if !a.ratio_less(b) && !b.ratio_less(c) && a.spec_total() > 0 && b.spec_total() > 0
        && c.spec_total() > 0 {
        lemma_share_transitive(
            a.spec_wins() as int,
            a.spec_total(),
            b.spec_wins() as int,
            b.spec_total(),
            c.spec_wins() as int,
            c.spec_total(),
        );
    }
}

/// The counts of one game with the given outcome, seen from `player`: a win
/// when the player has won, a loss when the opponent has, a draw when the
/// game is drawn. A game that goes on counts for nothing.
pub fn outcome_stats(outcome: GameResult, player: Player) -> (stats: Stats)
    ensures
        stats == match outcome {
            GameResult::Win(winner) => if winner == player {
                Stats::of(1, 0, 0)
            } else {
                Stats::of(0, 0, 1)
            },
            GameResult::Draw => Stats::of(0, 1, 0),
            GameResult::Continue => Stats::of(0, 0, 0),
        },
        stats.spec_total() == if outcome == GameResult::Continue {
            0int
        } else {
            1int
        },
{
    match outcome {
        GameResult::Win(winner) => {
            if winner == player {
                Stats::with_counts(1, 0, 0)
            } else {
                Stats::with_counts(0, 0, 1)
            }
        },
        GameResult::Draw => Stats::with_counts(0, 1, 0),
        GameResult::Continue => Stats::with_counts(0, 0, 0),
    }
}

/// What a node of the search tree holds: a state, the move that led to it,
/// and how the games through it ended.
#[derive(Clone, Copy, Debug)]
pub struct NodeInfo {
    board: UltimateBoard,
    move_index: Option<u8>,
    stats: Stats,
}

impl NodeInfo {
    /// The state of the node.
    pub closed spec fn spec_board(self) -> UltimateBoard {
        self.board
    }

    /// The move that led to the state, `None` at the root.
    pub closed spec fn spec_move_index(self) -> Option<u8> {
        self.move_index
    }

    /// How the games through the node ended.
    pub closed spec fn spec_stats(self) -> Stats {
        self.stats
    }

    /// What the root of a tree holds: a state and no game.
    pub fn new(board: UltimateBoard) -> (info: NodeInfo)
        ensures
            info.spec_board() == board,
            info.spec_move_index() is None,
            info.spec_stats() == Stats::zero(),
    {
        NodeInfo { board, move_index: None, stats: Stats::default() }
    }

    /// What a node below the root holds at first: a state, the move that
    /// led to it, and no game.
    #[allow(non_snake_case)]
    pub fn withMove(board: UltimateBoard, move_index: u8) -> (info: NodeInfo)
        ensures
            info.spec_board() == board,
            info.spec_move_index() == Some(move_index),
            info.spec_stats() == Stats::zero(),
    {
        NodeInfo { board, move_index: Some(move_index), stats: Stats::default() }
    }

    /// The state of the node.
    pub fn get_board(&self) -> (board: UltimateBoard)
        ensures
            board == self.spec_board(),
    {
        self.board
    }

    /// The move that led to the state, `None` at the root.
    pub fn get_move_index(&self) -> (move_index: Option<u8>)
        ensures
            move_index == self.spec_move_index(),
    {
        self.move_index
    }

    /// How the games through the node ended.
    pub fn get_stats(&self) -> (stats: Stats)
        ensures
            stats == self.spec_stats(),
    {
        self.stats
    }

    /// Adds the counts of `stats` to those of the node.
    pub fn apply_stats(&mut self, stats: Stats)
        requires
            old(self).spec_stats().spec_total() + stats.spec_total() <= u64::MAX,
        ensures
            final(self).spec_board() == old(self).spec_board(),
            final(self).spec_move_index() == old(self).spec_move_index(),
            final(self).spec_stats().spec_wins() == old(self).spec_stats().spec_wins()
                + stats.spec_wins(),
            final(self).spec_stats().spec_draws() == old(self).spec_stats().spec_draws()
                + stats.spec_draws(),
            final(self).spec_stats().spec_losses() == old(self).spec_stats().spec_losses()
                + stats.spec_losses(),
            final(self).spec_stats().spec_total() == old(self).spec_stats().spec_total()
                + stats.spec_total(),
    {
        let mut sum = self.stats;
        sum.merge(stats);
        self.stats = sum;
    }
}

/// How a search chooses among the children of a node: it walks on to the
/// child with the greatest score, the last of them if there are several.
pub trait TreePolicy: Send + Sync {
    /// The score of a child through which `visits` games went, `wins` of
    /// them won, below a node through which `parent_visits` games went.
    fn score(&self, wins: u64, visits: u64, parent_visits: u64) -> u64;
}

/// Number of games through the first `bound` of `children`.
pub open spec fn children_total(children: Seq<Node<NodeInfo>>, bound: int) -> int
    decreases bound,
{
    if bound <= 0 {
        0
    } else {
        children_total(children, bound - 1) + children[bound - 1].data.spec_stats().spec_total()
    }
}

/// What holds of every tree of a search: each node holds a well-formed
/// state; a node has no children or one for each move of its state, in the
/// order of the moves, and each child holds the move and the state after it;
/// and no more games went through the children of a node than through the
/// node.
pub open spec fn tree_wf(node: Node<NodeInfo>) -> bool
    decreases node,
{
    let info = node.data;
    let position = info.spec_board()@;
    &&& info.spec_board().wf()
    &&& info.spec_stats().wf()
    &&& node.children@.len() > 0 ==> node.children@.len() == position.moves().len()
        && position.outcome() == GameResult::Continue
    &&& forall|i: int|
        0 <= i < node.children@.len() ==> {
            let child = #[trigger] node.children@[i];
            &&& child.data.spec_move_index() == Some(position.moves()[i])
            &&& child.data.spec_board()@ == position.play(position.moves()[i])
            &&& tree_wf(child)
        }
    &&& children_total(node.children@, node.children@.len() as int) <= info.spec_stats().spec_total()
}

/// True when `after` has as many children as `before` and the same
/// children but at place `walked`.
pub open spec fn same_but_one(
    before: Seq<Node<NodeInfo>>,
    after: Seq<Node<NodeInfo>>,
    walked: int,
) -> bool {
    &&& after.len() == before.len()
    &&& 0 <= walked < before.len()
    &&& forall|j: int| 0 <= j < before.len() && j != walked ==> after[j] == before[j]
}

/// The children of a node of a well-formed tree are roots of well-formed
/// trees, with counts that fit.
pub proof fn lemma_children_wf(node: Node<NodeInfo>)
    requires
        tree_wf(node),
    ensures
        forall|i: int|
            0 <= i < node.children@.len() ==> tree_wf(#[trigger] node.children@[i])
                && node.children@[i].data.spec_stats().wf(),
{
    assert forall|i: int| 0 <= i < node.children@.len() implies tree_wf(
        #[trigger] node.children@[i],
    ) && node.children@[i].data.spec_stats().wf() by {
        let child = node.children@[i];
        assert(tree_wf(child));
    }
}

/// The games through the children add up over the children.
pub proof fn lemma_children_total(children: Seq<Node<NodeInfo>>, bound: int, index: int)
    requires
        0 <= index < bound <= children.len(),
        forall|i: int| 0 <= i < children.len() ==> (#[trigger] children[i]).data.spec_stats().wf(),
    ensures
        0 <= children[index].data.spec_stats().spec_total() <= children_total(children, bound),
    decreases bound,
{
    lemma_children_total_positive(children, bound - 1);
    if index < bound - 1 {
        lemma_children_total(children, bound - 1, index);
    }
}

/// The number of games through children is not negative.
pub proof fn lemma_children_total_positive(children: Seq<Node<NodeInfo>>, bound: int)
    requires
        0 <= bound <= children.len(),
    ensures
        0 <= children_total(children, bound),
    decreases bound,
{
    if bound > 0 {
        lemma_children_total_positive(children, bound - 1);
    }
}

/// When one child is exchanged, the number of games through the children
/// changes by what the new child has more than the old.
pub proof fn lemma_children_total_update(
    children: Seq<Node<NodeInfo>>,
    index: int,
    child: Node<NodeInfo>,
    bound: int,
)
    requires
        0 <= index < children.len(),
        0 <= bound <= children.len(),
    ensures
        children_total(children.update(index, child), bound) == children_total(children, bound)
            + if index < bound {
            child.data.spec_stats().spec_total() - children[index].data.spec_stats().spec_total()
        } else {
            0
        },
    decreases bound,
{
    if bound > 0 {
        lemma_children_total_update(children, index, child, bound - 1);
    }
}

/// Children that follow others leave the number of games through these as it
/// was.
pub proof fn lemma_children_total_push(
    children: Seq<Node<NodeInfo>>,
    child: Node<NodeInfo>,
    bound: int,
)
    requires
        0 <= bound <= children.len(),
    ensures
        children_total(children.push(child), bound) == children_total(children, bound),
    decreases bound,
{
    if bound > 0 {
        lemma_children_total_push(children, child, bound - 1);
    }
}

/// The place of the child that has won the greatest share of its games, the
/// last of them if there are several.
pub fn best_by_win_ratio(children: &Vec<Node<NodeInfo>>) -> (best: usize)
    requires
        children@.len() > 0,
        forall|i: int| 0 <= i < children@.len() ==> (#[trigger] children@[i]).data.spec_stats().wf(),
    ensures
        best < children@.len(),
        forall|j: int|
            0 <= j < children@.len() ==> !children@[best as int].data.spec_stats().ratio_less(
                (#[trigger] children@[j]).data.spec_stats(),
            ),
        forall|j: int|
            best < j < children@.len() ==> (#[trigger] children@[j]).data.spec_stats().ratio_less(
                children@[best as int].data.spec_stats(),
            ),
{
    let mut best: usize = 0;
    let mut index: usize = 1;
    proof {
        lemma_ratio_order(
            children@[0].data.spec_stats(),
            children@[0].data.spec_stats(),
            children@[0].data.spec_stats(),
        );
    }
    while index < children.len()
        invariant
            1 <= index <= children@.len(),
            best < index,
            forall|i: int|
                0 <= i < children@.len() ==> (#[trigger] children@[i]).data.spec_stats().wf(),
            forall|j: int|
                0 <= j < index ==> !children@[best as int].data.spec_stats().ratio_less(
                    (#[trigger] children@[j]).data.spec_stats(),
                ),
            forall|j: int|
                best < j < index ==> (#[trigger] children@[j]).data.spec_stats().ratio_less(
                    children@[best as int].data.spec_stats(),
                ),
        decreases children@.len() - index,
    {
        let candidate = children[index].data.get_stats();
        let current = children[best].data.get_stats();
        if !candidate.has_smaller_ratio(&current) {
            proof {
                assert forall|j: int| 0 <= j <= index implies !candidate.ratio_less(
                    (#[trigger] children@[j]).data.spec_stats(),
                ) by {
                    lemma_ratio_order(candidate, current, children@[j].data.spec_stats());
                    lemma_ratio_order(candidate, candidate, candidate);
                }
            }
            best = index;
        } else {
            proof {
                lemma_ratio_order(candidate, current, current);
            }
        }
        index = index + 1;
    }
    best
}

/// The place of the greatest of the scores, the last of them if there are
/// several.
pub fn last_greatest(scores: &Vec<u64>) -> (best: usize)
    requires
        scores@.len() > 0,
    ensures
        best < scores@.len(),
        forall|j: int| 0 <= j < scores@.len() ==> scores@[j] <= scores@[best as int],
        forall|j: int| best < j < scores@.len() ==> scores@[j] < scores@[best as int],
{
    let mut best: usize = 0;
    let mut index: usize = 1;
    while index < scores.len()
        invariant
            1 <= index <= scores@.len(),
            best < index,
            forall|j: int| 0 <= j < index ==> scores@[j] <= scores@[best as int],
            forall|j: int| best < j < index ==> scores@[j] < scores@[best as int],
        decreases scores@.len() - index,
    {
        if scores[index] >= scores[best] {
            best = index;
        }
        index = index + 1;
    }
    best
}

/// An agent that chooses its move by Monte Carlo tree search.
pub struct MonteCarloTreeAgent<P: TreePolicy> {
    /// Number of rounds of the search.
    iterations: u32,
    /// The player for whom the agent moves.
    player: Player,
    /// The turn of the agent's last move.
    turn: u32,
    /// How the search chooses among the children of a node.
    policy: P,
}

impl<P: TreePolicy> MonteCarloTreeAgent<P> {
    /// Number of rounds of the search.
    pub closed spec fn spec_iterations(self) -> u32 {
        self.iterations
    }

    /// The player for whom the agent moves.
    pub closed spec fn spec_player(self) -> Player {
        self.player
    }

    /// An agent whose search makes `iterations` rounds and walks down the
    /// tree by `policy`.
    pub fn new(iterations: u32, policy: P) -> (agent: MonteCarloTreeAgent<P>)
        ensures
            agent.spec_iterations() == iterations,
            agent.spec_player() == Player::One,
    {
        MonteCarloTreeAgent { iterations, player: Player::One, turn: 0, policy }
    }

    /// The move that the search chooses in the state of `board`: `None` when
    /// the game is over, the first possible move when the search makes no
    /// round, and otherwise the move to the child of the root that has won the
    /// greatest share of its games, which is a move that may be made.
    pub fn tree_root(&self, board: UltimateBoard) -> (choice: Option<u8>)
        requires
            board.wf(),
        ensures
            board@.outcome() != GameResult::Continue ==> choice is None,
            board@.outcome() == GameResult::Continue ==> choice is Some && board@.legal(
                choice.unwrap(),
            ),
            board@.outcome() == GameResult::Continue && self.spec_iterations() == 0 ==> choice
                == Some(board@.moves()[0]),
    {
        if board.get_game_status() != GameResult::Continue {
            return None;
        }
        proof {
            board.lemma_wf();
            board@.lemma_moves();
            board@.lemma_open_game_has_move();
        }
        let mut root = Node::new(NodeInfo::new(board));
        let mut round: u32 = 0;
        while round < self.iterations
            invariant
                round <= self.iterations,
                tree_wf(root),
                root.data.spec_board() == board,
                root.data.spec_stats().spec_total() <= MAX_ROUND_GAMES * round,
                round == 0 ==> root.children@.len() == 0,
            decreases self.iterations - round,
        {
            let _ = self.tree_search(&mut root);
            round = round + 1;
        }
        if root.is_leaf() {
            let possible_moves = board.get_possible_moves();
            return move_at(&possible_moves, 0);
        }
        proof {
            lemma_children_wf(root);
        }
        let best = best_by_win_ratio(&root.children);
        proof {
            assert(root.children@[best as int].data.spec_move_index() == Some(
                board@.moves()[best as int],
            ));
            assert(board@.moves().contains(board@.moves()[best as int]));
        }
        root.children[best].data.get_move_index()
    }

    /// One round of the search below `root`. A node whose game is over is
    /// left as it is. A node without children gets one child for each move,
    /// with one game played by chance from each; any other node hands the round
    /// on to the child that the policy scores highest. The counts of the games
    /// of the round are returned and added to the node.
    pub fn tree_search(&self, root: &mut Node<NodeInfo>) -> (stats: Stats)
        requires
            tree_wf(*old(root)),
            old(root).data.spec_stats().spec_total() + MAX_ROUND_GAMES <= u64::MAX,
        ensures
            tree_wf(*final(root)),
            final(root).data.spec_board() == old(root).data.spec_board(),
            final(root).data.spec_move_index() == old(root).data.spec_move_index(),
            stats.spec_total() <= MAX_ROUND_GAMES,
            final(root).data.spec_stats().spec_total() == old(root).data.spec_stats().spec_total()
                + stats.spec_total(),
            final(root).data.spec_stats().spec_wins() == old(root).data.spec_stats().spec_wins()
                + stats.spec_wins(),
            final(root).data.spec_stats().spec_draws() == old(root).data.spec_stats().spec_draws()
                + stats.spec_draws(),
            final(root).data.spec_stats().spec_losses() == old(root).data.spec_stats().spec_losses()
                + stats.spec_losses(),
            old(root).data.spec_board()@.outcome() != GameResult::Continue ==> *final(root) == *old(root) && stats == Stats::zero(),
            old(root).data.spec_board()@.outcome() == GameResult::Continue && old(root).children@.len() == 0 ==> {
                &&& final(root).children@.len() == old(root).data.spec_board()@.moves().len()
                &&& stats.spec_total() == final(root).children@.len()
                &&& forall|i: int|
                    0 <= i < final(root).children@.len() ==> {
                        let child = #[trigger] final(root).children@[i];
                        child.children@.len() == 0 && child.data.spec_stats().spec_total() == 1
                    }
            },
            old(root).children@.len() > 0 ==> exists|walked: int|
                same_but_one(old(root).children@, final(root).children@, walked),
        decreases *old(root),
    {
        let mut root_stats = Stats::default();
        let board = root.data.get_board();
        proof {
            board.lemma_wf();
            board@.lemma_moves();
        }
        if board.get_game_status() != GameResult::Continue {
            return root_stats;
        } else if root.is_leaf() {
            let possible_moves = board.get_possible_moves();
            proof {
                board@.lemma_open_game_has_move();
            }
            let mut index: usize = 0;
            while index < possible_moves.len()
                invariant
                    index <= possible_moves.len(),
                    possible_moves@ == board@.moves(),
                    possible_moves@.len() <= 81,
                    board.wf(),
                    board@.wf(),
                    board@.outcome() == GameResult::Continue,
                    root.data == old(root).data,
                    root.data.spec_board() == board,
                    root.children@.len() == index,
                    root_stats.spec_total() == index,
                    children_total(root.children@, index as int) == index,
                    forall|i: int|
                        0 <= i < index ==> {
                            let child = #[trigger] root.children@[i];
                            &&& child.data.spec_move_index() == Some(board@.moves()[i])
                            &&& child.data.spec_board()@ == board@.play(board@.moves()[i])
                            &&& tree_wf(child)
                            &&& child.children@.len() == 0
                            &&& child.data.spec_stats().spec_total() == 1
                        },
                decreases possible_moves.len() - index,
            {
                let possible_move = possible_moves[index];
                let mut board_copy = board;
                proof {
                    board@.lemma_moves();
                    assert(board@.moves()[index as int] == possible_move);
                    assert(board@.moves().contains(possible_move));
                    assert(board@.legal(possible_move));
                }
                let moved = board_copy.make_move(possible_move);
                let stats = self.playout(board_copy);
                let mut node_info = NodeInfo::withMove(board_copy, possible_move);
                node_info.apply_stats(stats);
                root_stats.merge(stats);
                let child = Node::new(node_info);
                proof {
                    lemma_children_total_push(root.children@, child, index as int);
                    assert(tree_wf(child));
                }
                root.append(child);
                index = index + 1;
            }
        } else {
            let root_visits = root.data.get_stats().total();
            let mut scores: Vec<u64> = Vec::new();
            let mut index: usize = 0;
            while index < root.children.len()
                invariant
                    index <= root.children@.len(),
                    root.children@.len() > 0,
                    *root == *old(root),
                    tree_wf(*root),
                    scores@.len() == index,
                decreases root.children@.len() - index,
            {
                proof {
                    lemma_children_wf(*root);
                }
                let child_stats = root.children[index].data.get_stats();
                let score = self.policy.score(child_stats.wins(), child_stats.total(), root_visits);
                scores.push(score);
                index = index + 1;
            }
            let best = last_greatest(&scores);
            proof {
                lemma_children_wf(*root);
                lemma_children_total(
                    root.children@,
                    root.children@.len() as int,
                    best as int,
                );
            }
            let ghost before = root.children@[best as int];
            let stats = self.tree_search(&mut root.children[best]);
            root_stats.merge(stats);
            proof {
                let after = root.children@[best as int];
                assert(root.children@ =~= old(root).children@.update(best as int, after));
                lemma_children_total_update(
                    old(root).children@,
                    best as int,
                    after,
                    old(root).children@.len() as int,
                );
                assert(same_but_one(old(root).children@, root.children@, best as int));
            }
        }
        root.data.apply_stats(root_stats);
        root_stats
    }

    /// Plays a game from the state of `board` to its end, each move picked
    /// by chance among the possible ones, and returns the counts of that one
    /// game: how a game that can follow from the state ends for the player of
    /// the agent.
    pub fn playout(&self, board: UltimateBoard) -> (stats: Stats)
        requires
            board.wf(),
        ensures
            stats.spec_total() == 1,
            exists|moves: Seq<u8>|
                #![auto]
                board@.all_legal(moves) && board@.play_all(moves).outcome()
                    != GameResult::Continue && stats == outcome_stats_of(
                    board@.play_all(moves).outcome(),
                    self.spec_player(),
                ),
    {
        let result = random_game(board);
        let stats = outcome_stats(result, self.player);
        proof {
            let moves = choose|moves: Seq<u8>|
                #![auto]
                board@.all_legal(moves) && board@.play_all(moves).outcome() == result;
            assert(board@.all_legal(moves) && board@.play_all(moves).outcome()
                != GameResult::Continue && stats == outcome_stats_of(
                board@.play_all(moves).outcome(),
                self.spec_player(),
            ));
        }
        stats
    }
}

/// The counts of one game with the given outcome, seen from `player`.
pub open spec fn outcome_stats_of(outcome: GameResult, player: Player) -> Stats {
    match outcome {
        GameResult::Win(winner) => if winner == player {
            Stats::of(1, 0, 0)
        } else {
            Stats::of(0, 0, 1)
        },
        GameResult::Draw => Stats::of(0, 1, 0),
        GameResult::Continue => Stats::of(0, 0, 0),
    }
}

impl<P: TreePolicy> Agent for MonteCarloTreeAgent<P> {
    open spec fn wf(&self) -> bool {
        true
    }

    /// The agent has no answer when the game is over, and answers with a
    /// move that may be made while it goes on.
    open spec fn answers(
        &self,
        position: Position,
        player: Player,
        turn: u32,
        choice: Option<u8>,
    ) -> bool {
        if position.outcome() == GameResult::Continue {
            choice is Some && position.legal(choice.unwrap())
        } else {
            choice is None
        }
    }

    fn act(&mut self, board: UltimateBoard, player: Player, turn: u32) -> (choice: Option<u8>)
        ensures
            final(self).spec_iterations() == old(self).spec_iterations(),
            final(self).spec_player() == player,
    {
        self.player = player;
        self.turn = turn;
        self.tree_root(board)
    }

    /// The name is `MCTS`; the setup is `max_nodes: ` and the number of
    /// rounds.
    fn get_info(&self) -> (info: AgentInfo)
        ensures
            info.name@ == "MCTS"@,
            exists|rounds: Seq<char>|
                #![auto]
                is_decimal_text(self.spec_iterations(), rounds) && info.config@ == "max_nodes: "@
                    + rounds,
            info.player == self.spec_player(),
    {
        let rounds = self.iterations.to_string();
        proof {
            assert(is_decimal_text(self.iterations, rounds@));
        }
        let config = String::from_str("max_nodes: ").concat(rounds.as_str());
        AgentInfo::new(String::from_str("MCTS"), self.player, self.turn, config)
    }

    /// The agent says that its name is `MCTS`, that its setup is
    /// `max_nodes: ` and the number of rounds, and for whom it moves.
    open spec fn describes(&self, info: AgentInfo) -> bool {
        &&& info.name@ == "MCTS"@
        &&& exists|rounds: Seq<char>|
            #![auto]
            is_decimal_text(self.spec_iterations(), rounds) && info.config@ == "max_nodes: "@
                + rounds
        &&& info.player == self.spec_player()
    }
}

} // verus!
