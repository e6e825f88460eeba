use hausarbeit::agent::benched::{benched_info, Row};
use hausarbeit::agent::minimax_agent::MiniMaxAgent;
use hausarbeit::agent::monte_carlo_tree_agent::{
    best_by_win_ratio, outcome_stats, MonteCarloTreeAgent, NodeInfo, Stats, TreePolicy,
};
use hausarbeit::agent::random_agent::{move_at, random_move, RandomAgent};
use hausarbeit::agent::random_start::RandomStartAgent;
use hausarbeit::agent::{Agent, AgentInfo};
use hausarbeit::game::game_result::GameResult;
use hausarbeit::game::player::Player;
use hausarbeit::game::position::MoveError;
use hausarbeit::game::ultimate_board::UltimateBoard;
use hausarbeit::game::{Game, GameError};
use hausarbeit::heuristic::custom_heuristic::{CustomHeuristic, CustomMiniBoardHeuristic};
use hausarbeit::heuristic::{Heuristic, MiniBoardHeuristic, MAX_VALUE, MIN_VALUE};
use hausarbeit::tree::{Node, Tree};
use std::collections::HashMap;

/// The score of the search tree as the share of wins plus a bonus for
/// children that were visited little.
struct Uct;

impl TreePolicy for Uct {
    fn score(&self, wins: u64, visits: u64, parent_visits: u64) -> u64 {
        let wins = wins as f64;
        let value = wins / visits as f64 + (2. * (parent_visits as f64).ln()) / wins;
        if value.is_nan() {
            0
        } else if value < 0. {
            0
        } else if value.is_infinite() {
            u64::MAX
        } else {
            1 + (value * 1_000_000.) as u64
        }
    }
}

/// States of games that a fixed rule of choice plays, one after each move.
fn sample_states(pick: usize) -> Vec<UltimateBoard> {
    let mut states = Vec::new();
    let mut board = UltimateBoard::new();
    let mut turn = 0usize;
    states.push(board);
    while board.get_game_status() == GameResult::Continue {
        let moves = board.get_possible_moves();
        let chosen = moves[(turn * 7 + pick * 5 + turn * turn * 3) % moves.len()];
        board.make_move(chosen).unwrap();
        states.push(board);
        turn += 1;
    }
    states
}

/// The moves of `board` that win the game at once for the player to move.
fn winning_moves(board: &UltimateBoard) -> Vec<u8> {
    let player = board.get_current_player();
    board
        .get_possible_moves()
        .into_iter()
        .filter(|m| {
            let mut copy = *board;
            copy.make_move(*m).unwrap();
            copy.get_game_status() == GameResult::Win(player)
        })
        .collect()
}

#[test]
fn minimax_takes_the_winning_move() {
    let heuristics = [CustomHeuristic::new(Player::One), CustomHeuristic::new(Player::Two)];
    let mut found = 0;
    for pick in 0..60 {
        for board in sample_states(pick) {
            if board.get_game_status() != GameResult::Continue {
                continue;
            }
            let winning = winning_moves(&board);
            if winning.is_empty() {
                continue;
            }
            found += 1;
            let player = board.get_current_player();
            let heuristic = heuristics[player.index()].clone();
            for depth in 1..=2 {
                let mut agent = MiniMaxAgent::new(depth, 0, heuristic.clone());
                let choice = agent.act(board, player, 0);
                assert_eq!(choice, Some(winning[0]));
            }
            // a deeper search may take a move that forces a win later instead
            let mut agent = MiniMaxAgent::new(3, 1, heuristic);
            let choice = agent.act(board, player, 0).unwrap();
            assert!(board.get_possible_moves().contains(&choice));
        }
    }
    assert!(found > 0);
}

#[test]
fn minimax_agents_with_the_same_setup_agree() {
    for pick in 0..3 {
        let states = sample_states(pick);
        for board in states.iter().step_by(7) {
            let player = board.get_current_player();
            let mut first = MiniMaxAgent::new(3, 1, CustomHeuristic::new(player));
            let mut second = MiniMaxAgent::new(3, 1, CustomHeuristic::new(player));
            let choice = first.act(*board, player, 0);
            assert_eq!(choice, second.act(*board, player, 0));
            assert_eq!(choice, first.act(*board, player, 5));
            assert_eq!(choice, first.get_best_move(*board, 3));
            if board.get_game_status() == GameResult::Continue {
                assert!(board.get_possible_moves().contains(&choice.unwrap()));
            } else {
                assert_eq!(choice, None);
            }
        }
    }
}

/// The quiescence search written down once more, to hold the agent's against.
fn reference_quiescence(
    heuristic: &CustomHeuristic,
    board: UltimateBoard,
    depth: u32,
    maximizing: bool,
    mut alpha: i32,
    mut beta: i32,
) -> i32 {
    if depth == 0
        || board.get_game_status() != GameResult::Continue
        || board.get_next_board_index().is_some()
    {
        return heuristic.evaluate(board);
    }
    for m in board.get_possible_moves() {
        let mut next = board;
        next.make_move(m).unwrap();
        let value = reference_quiescence(heuristic, next, depth - 1, !maximizing, alpha, beta);
        if maximizing {
            alpha = alpha.max(value);
        } else {
            beta = beta.min(value);
        }
        if alpha >= beta {
            break;
        }
    }
    if maximizing {
        alpha
    } else {
        beta
    }
}

/// The search without a table, to hold the agent's against where no state
/// comes up twice.
fn reference_minimax(
    heuristic: &CustomHeuristic,
    board: UltimateBoard,
    depth: u32,
    quiescence_depth: u32,
    maximizing: bool,
    mut alpha: i32,
    mut beta: i32,
) -> i32 {
    if depth == 0 {
        return reference_quiescence(heuristic, board, quiescence_depth, maximizing, alpha, beta);
    }
    if board.get_game_status() != GameResult::Continue {
        return heuristic.evaluate(board);
    }
    for m in board.get_possible_moves() {
        let mut next = board;
        next.make_move(m).unwrap();
        let value = reference_minimax(
            heuristic,
            next,
            depth - 1,
            quiescence_depth,
            !maximizing,
            alpha,
            beta,
        );
        if maximizing {
            alpha = alpha.max(value);
        } else {
            beta = beta.min(value);
        }
        if alpha >= beta {
            break;
        }
    }
    if maximizing {
        alpha
    } else {
        beta
    }
}

#[test]
fn quiescence_search_is_alpha_beta() {
    let heuristic = CustomHeuristic::new(Player::One);
    let agent = MiniMaxAgent::new(1, 2, heuristic.clone());
    for board in sample_states(1).iter().step_by(5) {
        for depth in 0..=2 {
            for maximizing in [true, false] {
                let expected =
                    reference_quiescence(&heuristic, *board, depth, maximizing, -1000, 1000);
                assert_eq!(
                    agent.quiescence_search(*board, depth, maximizing, -1000, 1000),
                    expected
                );
            }
        }
        // with no depth left the value is the heuristic's
        assert_eq!(agent.quiescence_search(*board, 0, true, -5, 5), heuristic.evaluate(*board));
    }
}

#[test]
fn minimax_of_depth_one_and_two() {
    let heuristic = CustomHeuristic::new(Player::Two);
    let agent = MiniMaxAgent::new(2, 0, heuristic.clone());
    for board in sample_states(2).iter().step_by(9) {
        for depth in 0..=2 {
            let mut table = HashMap::new();
            let value = agent.minimax(*board, depth, true, i32::MIN, i32::MAX, &mut table);
            let expected =
                reference_minimax(&heuristic, *board, depth, 0, true, i32::MIN, i32::MAX);
            assert_eq!(value, expected);
            if depth > 0 && board.get_game_status() == GameResult::Continue {
                assert_eq!(table.get(&board.get_hash()), Some(&value));
            } else {
                assert!(table.is_empty());
            }
        }
    }
}

#[test]
fn minimax_uses_the_table() {
    let heuristic = CustomHeuristic::new(Player::One);
    let agent = MiniMaxAgent::new(2, 0, heuristic);
    let board = UltimateBoard::new();
    let mut table = HashMap::new();
    table.insert(board.get_hash(), 77);
    assert_eq!(agent.minimax(board, 3, true, i32::MIN, i32::MAX, &mut table), 77);
    assert_eq!(table.len(), 1);
}

#[test]
fn custom_heuristic_counts_marks_pairs_and_boards() {
    let one = CustomHeuristic::new(Player::One);
    let two = CustomHeuristic::new(Player::Two);
    let mut board = UltimateBoard::new();
    assert_eq!(one.evaluate(board), 0);
    assert_eq!(two.evaluate(board), 0);
    board.make_move(0).unwrap();
    // one mark more for player one on small board 0
    assert_eq!(one.evaluate(board), 1);
    assert_eq!(two.evaluate(board), -1);
    board.make_move(1).unwrap();
    assert_eq!(one.evaluate(board), 0);
    for m in [9, 4, 36, 7] {
        board.make_move(m).unwrap();
    }
    // Small board 0: player one holds square 0, player two squares 1, 4, 7 and
    // with them three pairs. Small boards 1 and 4: one mark of player one each.
    // Player two has won small board 0.
    assert_eq!(board.get_board_status()[0], GameResult::Win(Player::Two));
    assert_eq!(one.evaluate(board), (0 - 2 * 3) + 1 + 1 - 10);
    assert_eq!(two.evaluate(board), -((0 - 2 * 3) + 1 + 1) + 10);
    assert_eq!(one.get_name(), "SH");
}

#[test]
fn custom_heuristic_knows_a_won_game() {
    let one = CustomHeuristic::new(Player::One);
    let two = CustomHeuristic::new(Player::Two);
    let mut seen = 0;
    for pick in 0..40 {
        let states = sample_states(pick);
        let last = states[states.len() - 1];
        match last.get_game_status() {
            GameResult::Win(Player::One) => {
                seen += 1;
                assert_eq!(one.evaluate(last), MAX_VALUE);
                assert_eq!(two.evaluate(last), MIN_VALUE);
            }
            GameResult::Win(Player::Two) => {
                seen += 1;
                assert_eq!(one.evaluate(last), MIN_VALUE);
                assert_eq!(two.evaluate(last), MAX_VALUE);
            }
            _ => {
                assert!(one.evaluate(last).abs() <= 613);
            }
        }
    }
    assert!(seen > 0);
    assert_eq!(MAX_VALUE, i32::MAX - 1);
    assert_eq!(MIN_VALUE, i32::MIN + 1);
}

#[test]
fn small_board_scores_are_in_the_table() {
    let table = CustomMiniBoardHeuristic.initialize();
    assert_eq!(table.len(), 19683);
    let mut board = hausarbeit::game::board::Board::new(0);
    assert_eq!(table[&board.to_key()], 0);
    board.set(0, Player::One);
    board.set(1, Player::One);
    // two marks ahead, and the pair of squares 0 and 1
    assert_eq!(CustomMiniBoardHeuristic.evaluate(board), 2 + 2);
    assert_eq!(table[&board.to_key()], 4);
    board.set(4, Player::Two);
    board.set(8, Player::Two);
    board.set(3, Player::Two);
    // one mark behind; one pair of player one, three pairs of player two
    assert_eq!(CustomMiniBoardHeuristic.evaluate(board), 2 * (1 - 3));
    assert_eq!(table[&board.to_key()], -4);
}

#[test]
fn mcts_without_rounds_takes_the_first_move() {
    let mut agent = MonteCarloTreeAgent::new(0, Uct);
    let board = UltimateBoard::new();
    assert_eq!(agent.act(board, Player::One, 0), Some(0));
    assert_eq!(agent.tree_root(board), Some(0));
    let mut board = UltimateBoard::new();
    board.make_move(40).unwrap();
    assert_eq!(agent.act(board, Player::Two, 1), Some(36));
}

#[test]
fn mcts_returns_moves_that_may_be_made() {
    for iterations in [1, 2, 30] {
        let mut agent = MonteCarloTreeAgent::new(iterations, Uct);
        for board in sample_states(3).iter().step_by(6) {
            let choice = agent.act(*board, board.get_current_player(), 0);
            if board.get_game_status() == GameResult::Continue {
                let mut copy = *board;
                assert_eq!(copy.make_move(choice.unwrap()), Ok(()));
            } else {
                assert_eq!(choice, None);
            }
        }
    }
}

#[test]
fn mcts_round_grows_the_tree() {
    let agent = MonteCarloTreeAgent::new(5, Uct);
    let mut board = UltimateBoard::new();
    board.make_move(40).unwrap();
    let mut root = Node::new(NodeInfo::new(board));
    let stats = agent.tree_search(&mut root);
    assert_eq!(stats.total(), 8);
    assert_eq!(root.get_children().len(), 8);
    assert_eq!(root.data.get_stats(), stats);
    assert_eq!(root.data.get_board().get_hash(), board.get_hash());
    assert_eq!(root.data.get_move_index(), None);
    let moves = board.get_possible_moves();
    for (child, m) in root.get_children().iter().zip(moves.iter()) {
        assert_eq!(child.data.get_move_index(), Some(*m));
        assert_eq!(child.data.get_stats().total(), 1);
        assert!(child.is_leaf());
        let mut copy = board;
        copy.make_move(*m).unwrap();
        assert_eq!(child.data.get_board().get_hash(), copy.get_hash());
    }
    let more = agent.tree_search(&mut root);
    assert!(more.total() <= 81);
    assert_eq!(root.data.get_stats().total(), 8 + more.total());
    let through_children: u64 =
        root.get_children().iter().map(|child| child.data.get_stats().total()).sum();
    assert_eq!(through_children, 8 + more.total());
}

#[test]
fn playout_counts_one_game() {
    let mut agent = MonteCarloTreeAgent::new(1, Uct);
    agent.act(UltimateBoard::new(), Player::Two, 0);
    for _ in 0..20 {
        let stats = agent.playout(UltimateBoard::new());
        assert_eq!(stats.total(), 1);
    }
    let states = sample_states(4);
    let last = states[states.len() - 1];
    assert_eq!(agent.playout(last), outcome_stats(last.get_game_status(), Player::Two));
}

#[test]
fn stats_add_up_and_compare_by_share() {
    let mut stats = Stats::default();
    assert_eq!(stats.total(), 0);
    stats.merge(Stats::with_counts(2, 1, 3));
    stats.merge(Stats::with_counts(1, 0, 0));
    assert_eq!((stats.wins(), stats.draws(), stats.losses(), stats.total()), (3, 1, 3, 7));
    let half = Stats::with_counts(1, 0, 1);
    let third = Stats::with_counts(1, 1, 1);
    let none = Stats::default();
    assert!(third.has_smaller_ratio(&half));
    assert!(!half.has_smaller_ratio(&third));
    assert!(!half.has_smaller_ratio(&Stats::with_counts(2, 2, 0)));
    assert!(none.has_smaller_ratio(&Stats::with_counts(0, 0, 1)));
    assert!(!Stats::with_counts(0, 0, 1).has_smaller_ratio(&none));
    assert!(!none.has_smaller_ratio(&none));
    let large = Stats::with_counts(u64::MAX / 2, 0, 1);
    let larger = Stats::with_counts(u64::MAX / 2, 0, 0);
    assert!(large.has_smaller_ratio(&larger));
    assert_eq!(outcome_stats(GameResult::Win(Player::One), Player::One), Stats::with_counts(1, 0, 0));
    assert_eq!(outcome_stats(GameResult::Win(Player::One), Player::Two), Stats::with_counts(0, 0, 1));
    assert_eq!(outcome_stats(GameResult::Draw, Player::Two), Stats::with_counts(0, 1, 0));
    assert_eq!(outcome_stats(GameResult::Continue, Player::Two), Stats::default());
}

fn node_with(wins: u64, draws: u64, losses: u64) -> Node<NodeInfo> {
    let mut info = NodeInfo::withMove(UltimateBoard::new(), 0);
    info.apply_stats(Stats::with_counts(wins, draws, losses));
    Node::new(info)
}

#[test]
fn best_child_is_the_last_with_the_greatest_share() {
    let children = vec![node_with(1, 0, 1), node_with(2, 1, 0), node_with(0, 0, 0), node_with(4, 0, 2)];
    assert_eq!(best_by_win_ratio(&children), 3);
    let children = vec![node_with(3, 0, 1), node_with(2, 1, 0), node_with(0, 0, 0)];
    assert_eq!(best_by_win_ratio(&children), 0);
    let children = vec![node_with(0, 0, 0), node_with(0, 0, 0)];
    assert_eq!(best_by_win_ratio(&children), 1);
    let children = vec![node_with(0, 0, 0), node_with(0, 1, 0), node_with(0, 0, 0)];
    assert_eq!(best_by_win_ratio(&children), 1);
}

#[test]
fn random_agent_plays_possible_moves() {
    let mut agent = RandomAgent::new();
    let mut seen = std::collections::HashSet::new();
    let mut board = UltimateBoard::new();
    board.make_move(40).unwrap();
    for _ in 0..200 {
        let choice = agent.act(board, Player::Two, 1).unwrap();
        assert!(board.get_possible_moves().contains(&choice));
        seen.insert(choice);
    }
    assert!(seen.len() > 1);
    let states = sample_states(0);
    let last = states[states.len() - 1];
    if last.get_possible_moves().is_empty() {
        assert_eq!(random_move(&last), None);
    }
    assert_eq!(move_at(&vec![4, 5, 6], 1), Some(5));
    assert_eq!(move_at(&vec![4, 5, 6], 3), None);
    let info = agent.get_info();
    assert_eq!(info.name, "RAND");
    assert_eq!(info.config, "");
    assert_eq!(info.player, Player::Two);
    assert_eq!(info.turn_num, 1);
}

#[test]
fn random_start_hands_over() {
    let board = UltimateBoard::new();
    let mut agent = RandomStartAgent::new(2, MonteCarloTreeAgent::new(0, Uct));
    let mut seen = std::collections::HashSet::new();
    for _ in 0..100 {
        seen.insert(agent.act(board, Player::One, 1).unwrap());
    }
    assert!(seen.len() > 1);
    for _ in 0..10 {
        assert_eq!(agent.act(board, Player::One, 2), Some(0));
        assert_eq!(agent.act(board, Player::One, 3), Some(0));
    }
    assert_eq!(agent.get_info().name, "MCTS");
}

#[test]
fn agents_describe_themselves() {
    let mut mcts = MonteCarloTreeAgent::new(10000, Uct);
    mcts.act(UltimateBoard::new(), Player::Two, 4);
    let info = mcts.get_info();
    assert_eq!(info.name, "MCTS");
    assert_eq!(info.config, "max_nodes: 10000");
    assert_eq!(info.player, Player::Two);
    assert_eq!(info.turn_num, 4);
    let mut minimax = MiniMaxAgent::new(7, 12, CustomHeuristic::new(Player::One));
    minimax.act(UltimateBoard::new(), Player::One, 0);
    let info = minimax.get_info();
    assert_eq!(info.name, "SH");
    assert_eq!(info.config, "7+12");
    let benched = benched_info(AgentInfo::new("RAND".to_string(), Player::Two, 3, "x".to_string()));
    assert_eq!(benched.name, "Benched(RAND)");
    assert_eq!(benched.config, "x");
    let row = Row::from_info(benched, 99);
    assert_eq!(row.name, "Benched(RAND)");
    assert_eq!(row.player, Player::Two);
    assert_eq!(row.turn_num, 3);
    assert_eq!(row.config, "x");
    assert_eq!(row.duration, 99);
}

/// A heuristic that likes small boards won and nothing else.
#[derive(Clone)]
struct BoardsWon(Player);

impl Heuristic for BoardsWon {
    fn evaluate(&self, board: UltimateBoard) -> i32 {
        let mut value = 0;
        for status in board.get_board_status() {
            if status == GameResult::Win(self.0) {
                value += 1;
            } else if status != GameResult::Continue && status != GameResult::Draw {
                value -= 1;
            }
        }
        value
    }

    fn get_name(&self) -> String {
        "BW".to_string()
    }
}

#[test]
fn minimax_takes_any_heuristic() {
    let mut agent = MiniMaxAgent::new(2, 0, BoardsWon(Player::One));
    let mut board = UltimateBoard::new();
    for m in [0, 1, 9, 4, 36] {
        board.make_move(m).unwrap();
    }
    // player two can win small board 0 with square 7 and nothing else
    let choice = agent.act(board, Player::Two, 5).unwrap();
    assert!(board.get_possible_moves().contains(&choice));
    let mut agent = MiniMaxAgent::new(1, 0, BoardsWon(Player::Two));
    assert_eq!(agent.act(board, Player::Two, 5), Some(7));
    assert_eq!(agent.get_info().name, "BW");
    assert_eq!(agent.get_info().config, "1+0");
}

/// An agent that gives the moves of a list, then none.
struct Scripted {
    moves: Vec<Option<u8>>,
}

impl Agent for Scripted {
    fn act(&mut self, _board: UltimateBoard, _player: Player, _turn: u32) -> Option<u8> {
        if self.moves.is_empty() {
            None
        } else {
            self.moves.remove(0)
        }
    }

    fn get_info(&self) -> AgentInfo {
        AgentInfo::new("script".to_string(), Player::One, 0, String::new())
    }
}

#[test]
fn game_between_random_agents_ends() {
    for _ in 0..10 {
        let mut game = Game::new(Box::new(RandomAgent::new()), Box::new(RandomAgent::new()));
        let result = game.play().unwrap();
        assert_ne!(result, GameResult::Continue);
        assert_eq!(game.get_board().get_game_status(), result);
    }
}

#[test]
fn game_between_search_agents_ends() {
    let one = MiniMaxAgent::new(2, 1, CustomHeuristic::new(Player::One));
    let two = MonteCarloTreeAgent::new(20, Uct);
    let mut game = Game::new(one, two);
    let result = game.play().unwrap();
    assert_ne!(result, GameResult::Continue);
}

#[test]
fn game_stops_when_an_agent_has_no_move() {
    let one = Scripted { moves: vec![Some(40), Some(0)] };
    let two = Scripted { moves: vec![Some(36)] };
    let mut game = Game::new(one, two);
    match game.play() {
        Err(GameError::NoMove { player, board, possible_moves }) => {
            assert_eq!(player, Player::Two);
            assert_eq!(board.get_hash(), game.get_board().get_hash());
            assert_eq!(possible_moves, game.get_board().get_possible_moves());
            assert_eq!(board.get_next_board_index(), Some(0));
        }
        other => panic!("{:?}", other),
    }
}

#[test]
fn game_stops_at_a_move_that_may_not_be_made() {
    let one = Scripted { moves: vec![Some(40), Some(80)] };
    let two = Scripted { moves: vec![Some(36)] };
    let mut game = Game::new(one, two);
    match game.play() {
        Err(GameError::IllegalMove { player, attempted, reason, board, possible_moves }) => {
            assert_eq!(player, Player::One);
            assert_eq!(attempted, 80);
            assert_eq!(reason, MoveError::WrongBoard);
            assert_eq!(board.get_current_player(), Player::One);
            assert_eq!(possible_moves.len(), 9);
        }
        other => panic!("{:?}", other),
    }
}

#[test]
fn tree_holds_values_and_children() {
    let mut node = Node::new(3u32);
    assert!(node.is_leaf());
    node.append(Node::new(4));
    node.append(Node::new(5));
    assert!(!node.is_leaf());
    assert_eq!(node.get_data(), 3);
    assert_eq!(node.get_children().len(), 2);
    assert_eq!(node.get_children()[1].get_data(), 5);
    node.map(|value| value * 10);
    assert_eq!(node.get_data(), 30);
    assert_eq!(node.get_children()[0].get_data(), 4);
    let tree = Tree::new(node);
    assert_eq!(tree.get_root().unwrap().get_data(), 30);
    assert_eq!(tree.get_root().unwrap().get_children().len(), 2);
}

#[test]
fn fresh_random_agent_has_not_moved() {
    let agent = RandomAgent::new();
    let info = agent.get_info();
    assert_eq!(info.name, "RAND");
    assert_eq!(info.config, "");
    assert_eq!(info.player, Player::One);
    assert_eq!(info.turn_num, 0);
}

#[test]
fn wrapped_agents_say_what_the_agent_in_them_says() {
    let mut inner = RandomAgent::new();
    inner.act(UltimateBoard::new(), Player::Two, 7);
    let boxed: Box<dyn Agent> = Box::new(inner);
    let info = boxed.get_info();
    assert_eq!((info.name.as_str(), info.player, info.turn_num), ("RAND", Player::Two, 7));
    let mut start = RandomStartAgent::new(0, boxed);
    let choice = start.act(UltimateBoard::new(), Player::One, 9).unwrap();
    assert!(choice < 81);
    let info = start.get_info();
    assert_eq!((info.name.as_str(), info.player, info.turn_num), ("RAND", Player::One, 9));
    assert_eq!(info.config, "");
}
