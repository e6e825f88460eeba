use hausarbeit::agent::human_agent::{board_choice, field_choice, valid_boards, valid_fields};
use hausarbeit::agent::random_agent::random_game;
use hausarbeit::game::game_result::GameResult;
use hausarbeit::game::player::Player;
use hausarbeit::game::ultimate_board::UltimateBoard;
use hausarbeit::genetic_algorithm::fitness::FullOrderingFitness;
use hausarbeit::genetic_algorithm::mutation::ShiftMutation;
use hausarbeit::genetic_algorithm::recombination::{OnePointCrossover, TwoPointCrossover};
use hausarbeit::heuristic::monte_carlo_game_search_heuristic::{
    best_result, MonteCarloGameSearchHeuristic, MoveResult,
};
use hausarbeit::heuristic::Heuristic;
use hausarbeit::statistics::{average, summarize, DurationSummary};

#[test]
fn one_point_crossover_swaps_the_tails() {
    let lhs = vec![1.0, 2.0, 3.0, 4.0];
    let rhs = vec![10.0, 20.0, 30.0, 40.0];
    let (first, second) = OnePointCrossover {}.cross(&lhs, &rhs, 1);
    assert_eq!(first, vec![1.0, 20.0, 30.0, 40.0]);
    assert_eq!(second, vec![10.0, 2.0, 3.0, 4.0]);
    let (first, second) = OnePointCrossover {}.cross(&lhs, &rhs, 0);
    assert_eq!(first, rhs);
    assert_eq!(second, lhs);
    let (first, second) = OnePointCrossover {}.cross(&lhs, &rhs, 4);
    assert_eq!(first, lhs);
    assert_eq!(second, rhs);
}

#[test]
fn two_point_crossover_swaps_the_middle() {
    let lhs = vec![1, 2, 3, 4, 5];
    let rhs = vec![10, 20, 30, 40, 50];
    let (first, second) = TwoPointCrossover {}.cross(&lhs, &rhs, 1, 3);
    assert_eq!(first, vec![1, 20, 30, 4, 5]);
    assert_eq!(second, vec![10, 2, 3, 40, 50]);
    let (first, second) = TwoPointCrossover {}.cross(&lhs, &rhs, 3, 1);
    assert_eq!(first, vec![1, 20, 30, 4, 5]);
    assert_eq!(second, vec![10, 2, 3, 40, 50]);
    let (first, second) = TwoPointCrossover {}.cross(&lhs, &rhs, 2, 2);
    assert_eq!(first, lhs);
    assert_eq!(second, rhs);
}

#[test]
fn shift_moves_values_around_the_end() {
    let values = vec![1, 2, 3, 4, 5];
    assert_eq!(ShiftMutation {}.shift_by(&values, 0), values);
    assert_eq!(ShiftMutation {}.shift_by(&values, 2), vec![4, 5, 1, 2, 3]);
    assert_eq!(ShiftMutation {}.shift_by(&values, 4), vec![2, 3, 4, 5, 1]);
    assert_eq!(ShiftMutation {}.shift_by(&Vec::<u8>::new(), 0), Vec::<u8>::new());
}

#[test]
fn fitness_counts_both_games() {
    let one = GameResult::Win(Player::One);
    let two = GameResult::Win(Player::Two);
    assert_eq!(FullOrderingFitness::pair_fitness(one, two), (2, -2));
    assert_eq!(FullOrderingFitness::pair_fitness(two, one), (-2, 2));
    assert_eq!(FullOrderingFitness::pair_fitness(one, one), (0, 0));
    assert_eq!(FullOrderingFitness::pair_fitness(one, GameResult::Draw), (1, -1));
    assert_eq!(FullOrderingFitness::pair_fitness(GameResult::Draw, one), (-1, 1));
    assert_eq!(FullOrderingFitness::pair_fitness(GameResult::Draw, GameResult::Draw), (0, 0));
    let fitness = FullOrderingFitness::new(5, 1);
    assert_eq!((fitness.get_depth(), fitness.get_quiescence_depth()), (5, 1));
}

#[test]
fn summary_of_durations() {
    let durations = vec![40, 10, 30, 20, 50, 70, 60, 80];
    assert_eq!(
        summarize(&durations),
        Some(DurationSummary {
            avg: 45,
            min: 10,
            max: 80,
            first_quartile: 30,
            median: 50,
            third_quartile: 60,
        })
    );
    assert_eq!(average(&durations), Some(45));
    assert_eq!(average(&vec![1, 2]), Some(1));
    assert_eq!(summarize(&vec![7]).unwrap().median, 7);
    assert_eq!(summarize(&vec![7]).unwrap().third_quartile, 7);
    assert_eq!(summarize(&Vec::new()), None);
    assert_eq!(average(&Vec::new()), None);
    assert_eq!(average(&vec![u128::MAX, 1]), None);
    assert_eq!(average(&vec![u128::MAX]), Some(u128::MAX));
}

#[test]
fn random_games_end() {
    for _ in 0..20 {
        assert_ne!(random_game(UltimateBoard::new()), GameResult::Continue);
    }
}

#[test]
fn game_search_heuristic_counts_games() {
    let heuristic = MonteCarloGameSearchHeuristic::new(Player::One, 3);
    let mut board = UltimateBoard::new();
    board.make_move(40).unwrap();
    let results = heuristic.simulate(board);
    let moves = board.get_possible_moves();
    assert_eq!(results.len(), moves.len());
    for (result, m) in results.iter().zip(moves.iter()) {
        assert_eq!(result.current_move, *m);
        assert_eq!(result.wins + result.losses + result.draws, 3);
    }
    assert_eq!(heuristic.evaluate(board), 0);
    assert_eq!(heuristic.get_name(), "MH");
}

#[test]
fn best_result_is_the_first_of_the_best() {
    let result = |current_move, wins, losses| MoveResult { current_move, wins, losses, draws: 0 };
    assert_eq!(best_result(&Vec::new()), None);
    let results = vec![result(0, 1, 2), result(1, 3, 2), result(2, 3, 1), result(3, 3, 1)];
    assert_eq!(best_result(&results), Some(result(2, 3, 1)));
    let results = vec![result(5, 2, 0), result(6, 2, 0), result(7, 1, 0)];
    assert_eq!(best_result(&results), Some(result(5, 2, 0)));
}

#[test]
fn typed_numbers_stand_for_squares_and_boards() {
    let mut board = UltimateBoard::new();
    for m in [0, 1, 9, 4, 36, 7, 63] {
        board.make_move(m).unwrap();
    }
    // small board 0 is won, the next move is free
    let moves = board.get_possible_moves();
    let status = board.get_board_status();
    assert_eq!(valid_boards(&status), vec![2, 3, 4, 5, 6, 7, 8, 9]);
    assert_eq!(board_choice(&status, 1), None);
    assert_eq!(board_choice(&status, 2), Some(1));
    assert_eq!(board_choice(&status, 9), Some(8));
    assert_eq!(board_choice(&status, 0), None);
    assert_eq!(board_choice(&status, 10), None);
    // small board 1 holds a mark on square 0, small board 7 one on square 0
    assert_eq!(valid_fields(&moves, 1), vec![2, 3, 4, 5, 6, 7, 8, 9]);
    assert_eq!(valid_fields(&moves, 2), vec![1, 2, 3, 4, 5, 6, 7, 8, 9]);
    assert_eq!(valid_fields(&moves, 0), Vec::<u8>::new());
    assert_eq!(field_choice(&moves, 1, 1), None);
    assert_eq!(field_choice(&moves, 1, 2), Some(10));
    assert_eq!(field_choice(&moves, 8, 9), Some(80));
    assert_eq!(field_choice(&moves, 8, 0), None);
    assert_eq!(field_choice(&moves, 8, 10), None);
    assert_eq!(field_choice(&moves, 0, 3), None);
}
