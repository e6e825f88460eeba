use hausarbeit::game::bitboard::BitBoard;
use hausarbeit::game::board::{Board, BoardSymbol, LegalBoardIterator};
use hausarbeit::game::game_result::GameResult;
use hausarbeit::game::player::Player;

#[test]
fn test_set() {
    let mut board = Board::new(0);
    board.set(0, Player::One);
    assert_eq!(board.get_marks(Player::One), BitBoard::new(1));
    board.set(1, Player::Two);
    assert_eq!(board.get_marks(Player::Two), BitBoard::new(2));
}

#[test]
fn test_legal_board_iterator() {
    let mut iter = LegalBoardIterator::default();
    let mut count: usize = 0;
    while let Some((first, second)) = iter.next() {
        assert_eq!(first & second, 0);
        count += 1;
    }
    assert_eq!(count, usize::pow(3, 9));
}

#[test]
fn bitboard_test_iterator() {
    let one = BitBoard::new(187);
    let two = BitBoard::new(64);
    let b = !(one | two);
    let mut squares = Vec::new();
    let mut iter = b.into_iter();
    while let Some(square) = iter.next() {
        squares.push(square);
    }
    println!("{:?}", squares);
    assert_eq!(squares, vec![2, 8]);
    assert_eq!(b.to_squares(), vec![2, 8]);
}

#[test]
fn bitboard_operators_are_set_operations() {
    let a = BitBoard::new(0b0_0000_1011);
    let b = BitBoard::new(0b1_0000_0110);
    assert_eq!((a | b).to_bits(), 0b1_0000_1111);
    assert_eq!((a & b).to_bits(), 0b0_0000_0010);
    assert_eq!((a ^ b).to_bits(), 0b1_0000_1101);
    assert_eq!((!a).to_bits(), 0b1_1111_0100);
    assert_eq!((!BitBoard::empty()).to_bits(), 0b1_1111_1111);
    assert_eq!(a.count(), 3);
    assert_eq!(a.mask(0b0_0000_0011).to_bits(), 0b0_0000_0011);
}

#[test]
fn bitboard_first_square_and_pop() {
    let mut set = BitBoard::new(0b1_0001_0100);
    assert_eq!(set.first_square(), Some(2));
    assert_eq!(set.pop_first_square(), Some(2));
    assert_eq!(set.pop_first_square(), Some(4));
    assert_eq!(set.pop_first_square(), Some(8));
    assert_eq!(set.pop_first_square(), None);
    assert_eq!(set, BitBoard::empty());
    assert_eq!(BitBoard::empty().first_square(), None);
    assert_eq!(BitBoard::single(7).to_bits(), 128);
    assert!(BitBoard::new(128).has(7));
    assert!(!BitBoard::new(128).has(6));
}

#[test]
fn index_translation_round_trips() {
    let expected_bits = [0u8, 1, 2, 7, 8, 3, 6, 5, 4];
    for index in 0..9u8 {
        let bit = Board::from_human_to_bit(index);
        assert_eq!(bit, expected_bits[index as usize]);
        assert_eq!(Board::from_bit_to_human(bit), index);
        assert_eq!(Board::from_human_to_bit(Board::from_bit_to_human(index)), index);
    }
    for first in 0..9u8 {
        for second in 0..9u8 {
            if first != second {
                assert_ne!(Board::from_human_to_bit(first), Board::from_human_to_bit(second));
            }
        }
    }
}

#[test]
fn board_outcome_rows_columns_diagonals() {
    let lines: [[u8; 3]; 8] = [
        [0, 1, 2],
        [3, 4, 5],
        [6, 7, 8],
        [0, 3, 6],
        [1, 4, 7],
        [2, 5, 8],
        [0, 4, 8],
        [2, 4, 6],
    ];
    for line in lines.iter() {
        for player in Player::iter() {
            let mut board = Board::new(3);
            assert_eq!(board.check_if_won(), GameResult::Continue);
            board.set(line[0], player);
            board.set(line[1], player);
            assert_eq!(board.check_if_won(), GameResult::Continue);
            board.set(line[2], player);
            assert_eq!(board.check_if_won(), GameResult::Win(player));
        }
    }
}

#[test]
fn full_board_without_line_is_drawn() {
    // X O X
    // X O O
    // O X X
    let mut board = Board::new(0);
    for index in [0u8, 2, 3, 7, 8] {
        board.set(index, Player::One);
    }
    for index in [1u8, 4, 5] {
        board.set(index, Player::Two);
    }
    assert_eq!(board.check_if_won(), GameResult::Continue);
    assert_eq!(board.get_possible_moves(), vec![6]);
    board.set(6, Player::Two);
    assert_eq!(board.check_if_won(), GameResult::Draw);
    assert!(board.get_possible_moves().is_empty());
}

#[test]
fn board_possible_moves_follow_the_bits() {
    let board = Board::new(0);
    assert_eq!(board.get_possible_moves(), vec![0, 1, 2, 5, 8, 7, 6, 3, 4]);
    let mut board = Board::new(2);
    board.set(4, Player::One);
    board.set(0, Player::Two);
    assert_eq!(board.get_possible_moves(), vec![19, 20, 23, 26, 25, 24, 21]);
    assert_eq!(board.get_unique_id(), 2);
    board.set_unique_id(8);
    assert_eq!(board.get_possible_moves(), vec![73, 74, 77, 80, 79, 78, 75]);
}

#[test]
fn board_features() {
    let mut board = Board::new(0);
    board.set(0, Player::One);
    board.set(1, Player::One);
    board.set(4, Player::Two);
    board.set(8, Player::Two);
    board.set(6, Player::One);
    assert_eq!(board.get_positions_set_difference(Player::One), 1);
    assert_eq!(board.get_positions_set_difference(Player::Two), -1);
    // pairs held by player one: squares 0 and 1; squares 0 and 6, listed twice
    // pairs held by player two: squares 8 and 4
    assert_eq!(board.get_partial_wins_difference(Player::One), 3 - 1);
    assert_eq!(board.get_partial_wins_difference(Player::Two), 1 - 3);
    assert_eq!(board.center_occupied(Player::One), -1);
    assert_eq!(board.center_occupied(Player::Two), 1);
    assert_eq!(Board::new(0).center_occupied(Player::One), 0);
    assert_eq!(board.get_corners_difference(Player::One), 1);
    assert_eq!(board.get_corners_difference(Player::Two), -1);
    assert_eq!(board.get_edges_difference(Player::One), 1);
    assert_eq!(board.get_edges_difference(Player::Two), -1);
    assert_eq!(board.get_cell(0), Some(Player::One));
    assert_eq!(board.get_cell(4), Some(Player::Two));
    assert_eq!(board.get_cell(2), None);
}

#[test]
fn board_key_and_rows() {
    let mut board = Board::new(0);
    board.set(0, Player::One);
    board.set(3, Player::Two);
    // square 3 is bit 7
    assert_eq!(board.to_key(), 1 | (128 << 9));
    assert_eq!(board.extract_row(0), vec![BoardSymbol::X, BoardSymbol::Empty, BoardSymbol::Empty]);
    assert_eq!(board.extract_row(1), vec![BoardSymbol::O, BoardSymbol::Empty, BoardSymbol::Empty]);
    assert_eq!(BoardSymbol::from(Player::One), BoardSymbol::X);
    assert_eq!(BoardSymbol::from(Player::Two), BoardSymbol::O);
    let copy = Board::from_bitboards([BitBoard::new(1), BitBoard::new(128)], 0);
    assert_eq!(copy.to_key(), board.to_key());
    let mut internal = Board::new(0);
    internal.set_internal(7, Player::Two);
    assert_eq!(internal.get_cell(3), Some(Player::Two));
}
