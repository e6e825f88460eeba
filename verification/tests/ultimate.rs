use hausarbeit::game::game_result::GameResult;
use hausarbeit::game::player::Player;
use hausarbeit::game::position::MoveError;
use hausarbeit::game::ultimate_board::UltimateBoard;
use hausarbeit::game::zobrist::ZobristTable;
use rand_chacha::rand_core::{RngCore, SeedableRng};
use rand_chacha::ChaCha20Rng;

#[test]
fn ultimate_board_test_iterator() {
    let zobrist_values = ZobristTable::new();
    let mut board = UltimateBoard::new();

    assert_eq!(board.get_hash(), 0);

    board.make_move(0).unwrap();

    assert_eq!(board.get_hash(), zobrist_values.get(0) ^ zobrist_values.get(162));

    board.make_move(1).unwrap();

    assert_eq!(
        board.get_hash(),
        zobrist_values.get(0) ^ zobrist_values.get(3) ^ zobrist_values.get(163)
    );
}

#[test]
fn test_iterator() {
    let zobrist_values = ZobristTable::new();
    let mut board = UltimateBoard::new();

    assert_eq!(board.get_hash(), 0);

    board.make_move(0).unwrap();

    assert_eq!(board.get_hash(), zobrist_values.get(0) ^ zobrist_values.get(162));

    board.make_move(1).unwrap();

    assert_eq!(
        board.get_hash(),
        zobrist_values.get(0) ^ zobrist_values.get(3) ^ zobrist_values.get(163)
    );
}

#[test]
fn zobrist_table_is_the_stream_of_the_zero_seed() {
    let table = ZobristTable::new();
    let mut prng = ChaCha20Rng::from_seed([0; 32]);
    for index in 0..171 {
        assert_eq!(table.get(index), prng.next_u64());
    }
    assert_ne!(table.get(0), table.get(1));
}

#[test]
fn zobrist_table_is_the_same_each_time() {
    let first = ZobristTable::new();
    let second = ZobristTable::default();
    for index in 0..171 {
        assert_eq!(first.get(index), second.get(index));
    }
}

fn recomputed_hash(board: &UltimateBoard, table: &ZobristTable) -> u64 {
    let mut hash = 0;
    let boards = board.get_boards();
    for square in 0..81usize {
        match boards[square / 9].get_cell((square % 9) as u8) {
            Some(Player::One) => hash ^= table.get(2 * square),
            Some(Player::Two) => hash ^= table.get(2 * square + 1),
            None => {}
        }
    }
    if let Some(active) = board.get_next_board_index() {
        hash ^= table.get(162 + active as usize);
    }
    hash
}

#[test]
fn hash_equals_recomputation_along_games() {
    let table = ZobristTable::new();
    for pick in 0..7usize {
        let mut board = UltimateBoard::new();
        let mut turn = 0usize;
        while board.get_game_status() == GameResult::Continue {
            let moves = board.get_possible_moves();
            assert!(!moves.is_empty());
            let chosen = moves[(turn * 7 + pick * 3) % moves.len()];
            assert_eq!(board.make_move(chosen), Ok(()));
            assert_eq!(board.get_hash(), recomputed_hash(&board, &table));
            turn += 1;
        }
        assert!(turn <= 81);
    }
}

#[test]
fn new_board_is_empty_and_free() {
    let board = UltimateBoard::new();
    assert_eq!(board.get_game_status(), GameResult::Continue);
    assert_eq!(board.get_board_status(), [GameResult::Continue; 9]);
    assert_eq!(board.get_next_board_index(), None);
    assert_eq!(board.get_current_player(), Player::One);
    assert_eq!(board.get_hash(), 0);
    let moves = board.get_possible_moves();
    assert_eq!(moves.len(), 81);
    assert_eq!(&moves[0..9], &[0, 1, 2, 5, 8, 7, 6, 3, 4]);
    assert_eq!(&moves[9..12], &[9, 10, 11]);
    for (index, small_board) in board.get_boards().iter().enumerate() {
        assert_eq!(small_board.get_unique_id() as usize, index);
    }
    assert!(board == UltimateBoard::default());
}

#[test]
fn move_binds_the_next_move() {
    let mut board = UltimateBoard::new();
    assert_eq!(board.make_move(40), Ok(()));
    assert_eq!(board.get_current_player(), Player::Two);
    // square 40 is square 4 of small board 4
    assert_eq!(board.get_next_board_index(), Some(4));
    assert_eq!(board.get_possible_moves(), vec![36, 37, 38, 41, 44, 43, 42, 39]);
    assert_eq!(board.make_move(36), Ok(()));
    assert_eq!(board.get_next_board_index(), Some(0));
    assert_eq!(board.get_current_player(), Player::One);
}

#[test]
fn refused_moves_leave_the_board_alone() {
    let mut board = UltimateBoard::new();
    assert_eq!(board.make_move(81), Err(MoveError::OutOfBounds));
    assert_eq!(board.make_move(255), Err(MoveError::OutOfBounds));
    assert_eq!(board.make_move(4), Ok(()));
    let hash = board.get_hash();
    // bound to small board 4
    assert_eq!(board.make_move(0), Err(MoveError::WrongBoard));
    assert_eq!(board.make_move(80), Err(MoveError::WrongBoard));
    assert_eq!(board.get_hash(), hash);
    assert_eq!(board.get_current_player(), Player::Two);
    assert_eq!(board.make_move(36), Ok(()));
    // bound to small board 0, square 4 of it is marked
    assert_eq!(board.make_move(4), Err(MoveError::SquareTaken));
    assert_eq!(board.get_next_board_index(), Some(0));
}

/// Plays the moves, each of which must be accepted.
fn play(board: &mut UltimateBoard, moves: &[u8]) {
    for m in moves {
        assert_eq!(board.make_move(*m), Ok(()), "move {}", m);
    }
}

#[test]
fn won_small_board_frees_the_next_move() {
    let mut board = UltimateBoard::new();
    // player one takes squares 0, 1, 2 of small board 0; player two answers in
    // small boards 0, 1 and 2 at square 0
    play(&mut board, &[0, 3, 27, 1, 9, 4, 36, 2]);
    // the last move was player two's square 2 of board 0: not yet a line
    assert_eq!(board.get_board_status()[0], GameResult::Continue);
    let mut board = UltimateBoard::new();
    play(&mut board, &[0, 1, 9, 4, 36, 7]);
    // player two holds squares 1, 4, 7 of small board 0
    assert_eq!(board.get_board_status()[0], GameResult::Win(Player::Two));
    assert_eq!(board.get_game_status(), GameResult::Continue);
    // square 7 names small board 7, which goes on
    assert_eq!(board.get_next_board_index(), Some(7));
    play(&mut board, &[63]);
    // square 0 names small board 0, which is won: free choice
    assert_eq!(board.get_next_board_index(), None);
    assert_eq!(board.make_move(2), Err(MoveError::BoardDecided));
    let moves = board.get_possible_moves();
    assert!(moves.iter().all(|m| *m >= 9));
    assert_eq!(moves.len(), 72 - 3);
}

#[test]
fn possible_moves_are_the_accepted_moves() {
    let mut board = UltimateBoard::new();
    let mut turn = 0usize;
    while board.get_game_status() == GameResult::Continue {
        let moves = board.get_possible_moves();
        assert!(!moves.is_empty());
        for candidate in 0..=255u8 {
            let mut copy = board;
            assert_eq!(copy.make_move(candidate).is_ok(), moves.contains(&candidate));
        }
        let mut sorted = moves.clone();
        sorted.sort();
        sorted.dedup();
        assert_eq!(sorted.len(), moves.len());
        let chosen = moves[(turn * 5 + 1) % moves.len()];
        board.make_move(chosen).unwrap();
        turn += 1;
    }
    assert_eq!(board.make_move(0), Err(MoveError::GameOver));
}

#[test]
fn drawn_small_board_frees_the_next_move() {
    // Search the games that a fixed rule of choice plays for a move that fills
    // a small board without a line.
    let mut found = 0;
    for pick in 0..200usize {
        let mut board = UltimateBoard::new();
        let mut turn = 0usize;
        while board.get_game_status() == GameResult::Continue {
            let moves = board.get_possible_moves();
            let chosen = moves[(turn * 11 + pick * 13 + turn * turn) % moves.len()];
            let before = board.get_board_status();
            board.make_move(chosen).unwrap();
            let small = (chosen / 9) as usize;
            let status = board.get_board_status();
            if before[small] == GameResult::Continue && status[small] == GameResult::Draw {
                found += 1;
                let cells = board.get_boards()[small];
                for index in 0..9 {
                    assert!(cells.get_cell(index).is_some());
                }
                assert!(cells.get_possible_moves().is_empty());
                if chosen % 9 == chosen / 9 {
                    assert_eq!(board.get_next_board_index(), None);
                }
            }
            let target = (chosen % 9) as usize;
            if board.get_game_status() == GameResult::Continue {
                if status[target] == GameResult::Continue {
                    assert_eq!(board.get_next_board_index(), Some(target as u8));
                } else {
                    assert_eq!(board.get_next_board_index(), None);
                }
            }
            turn += 1;
        }
    }
    assert!(found > 0);
}

#[test]
fn partial_wins_difference_of_the_ultimate_board() {
    let mut board = UltimateBoard::new();
    play(&mut board, &[0, 1, 9, 4, 36, 7]);
    // player two has won small board 0, which is in the pairs of the first
    // row (twice), the first column (twice) and the first diagonal (twice)
    assert_eq!(board.get_partial_wins_difference(Player::Two), 6);
    assert_eq!(board.get_partial_wins_difference(Player::One), -6);
    assert_eq!(UltimateBoard::new().get_partial_wins_difference(Player::One), 0);
}
