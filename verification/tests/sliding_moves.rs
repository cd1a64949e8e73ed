use chess_moves::board::{initialize_board, Board};
use chess_moves::geometry::{Direction, SquareOutOfRange};
use chess_moves::piece::Piece;
use chess_moves::sliding::{
    checked_bishop_moves, checked_rook_moves, extend_along, generate_bishop_moves,
    generate_rook_moves, generate_sliding_moves,
};

fn bare_board() -> Board {
    [[None; 8]; 8]
}

const ALL_DIRECTIONS: [Direction; 8] = [
    Direction::Up,
    Direction::Down,
    Direction::Left,
    Direction::Right,
    Direction::UpLeft,
    Direction::UpRight,
    Direction::DownLeft,
    Direction::DownRight,
];

#[test]
fn white_rook_in_the_corner_of_the_opening_position_has_no_move() {
    let board = initialize_board();
    assert_eq!(generate_rook_moves(&board, 7, 0, true), vec![]);
}

#[test]
fn black_rook_in_the_corner_of_the_opening_position_has_no_move() {
    let board = initialize_board();
    assert_eq!(generate_rook_moves(&board, 0, 0, false), vec![]);
}

#[test]
fn white_rook_behind_a_removed_pawn_captures_the_black_pawn() {
    let mut board = initialize_board();
    board[6][0] = None;
    assert_eq!(
        generate_rook_moves(&board, 7, 0, true),
        vec![(6, 0), (5, 0), (4, 0), (3, 0), (2, 0), (1, 0)]
    );
}

#[test]
fn black_rook_behind_a_removed_pawn_captures_the_white_pawn() {
    let mut board = initialize_board();
    board[1][0] = None;
    assert_eq!(
        generate_rook_moves(&board, 0, 0, false),
        vec![(1, 0), (2, 0), (3, 0), (4, 0), (5, 0), (6, 0)]
    );
}

#[test]
fn white_rook_on_a_file_without_pawns_captures_the_black_rook() {
    let mut board = initialize_board();
    board[6][0] = None;
    board[1][0] = None;
    assert_eq!(
        generate_rook_moves(&board, 7, 0, true),
        vec![(6, 0), (5, 0), (4, 0), (3, 0), (2, 0), (1, 0), (0, 0)]
    );
}

#[test]
fn black_rook_on_a_file_without_pawns_captures_the_white_rook() {
    let mut board = initialize_board();
    board[6][0] = None;
    board[1][0] = None;
    assert_eq!(
        generate_rook_moves(&board, 0, 0, false),
        vec![(1, 0), (2, 0), (3, 0), (4, 0), (5, 0), (6, 0), (7, 0)]
    );
}

#[test]
fn rook_on_a_bare_board_goes_up_down_left_right() {
    let mut board = bare_board();
    board[3][4] = Some(Piece::Rook(true));
    assert_eq!(
        generate_rook_moves(&board, 3, 4, true),
        vec![
            (2, 4), (1, 4), (0, 4),
            (4, 4), (5, 4), (6, 4), (7, 4),
            (3, 3), (3, 2), (3, 1), (3, 0),
            (3, 5), (3, 6), (3, 7),
        ]
    );
}

#[test]
fn rook_stops_before_own_pieces_and_on_opponents() {
    let mut board = bare_board();
    board[4][4] = Some(Piece::Rook(false));
    board[2][4] = Some(Piece::Pawn(true));
    board[6][4] = Some(Piece::Pawn(false));
    board[4][3] = Some(Piece::Knight(false));
    board[4][5] = Some(Piece::Queen(true));
    assert_eq!(
        generate_rook_moves(&board, 4, 4, false),
        vec![(3, 4), (2, 4), (5, 4), (4, 5)]
    );
}

#[test]
fn rook_generator_does_not_ask_for_a_rook_on_the_square() {
    let mut board = bare_board();
    board[0][7] = Some(Piece::Pawn(false));
    assert_eq!(
        generate_rook_moves(&board, 0, 0, true),
        vec![
            (1, 0), (2, 0), (3, 0), (4, 0), (5, 0), (6, 0), (7, 0),
            (0, 1), (0, 2), (0, 3), (0, 4), (0, 5), (0, 6), (0, 7),
        ]
    );
}

#[test]
fn bishops_of_the_opening_position_have_no_move() {
    let board = initialize_board();
    assert_eq!(generate_bishop_moves(&board, 7, 2, true), vec![]);
    assert_eq!(generate_bishop_moves(&board, 7, 5, true), vec![]);
    assert_eq!(generate_bishop_moves(&board, 0, 2, false), vec![]);
    assert_eq!(generate_bishop_moves(&board, 0, 5, false), vec![]);
}

#[test]
fn white_bishop_with_both_diagonals_opened() {
    let mut board = initialize_board();
    board[6][0] = None;
    board[1][0] = None;
    board[6][1] = None;
    board[6][3] = None;
    assert_eq!(
        generate_bishop_moves(&board, 7, 2, true),
        vec![(6, 1), (5, 0), (6, 3), (5, 4), (4, 5), (3, 6), (2, 7)]
    );
}

#[test]
fn bishop_on_a_bare_board_goes_along_the_four_diagonals_in_order() {
    let board = bare_board();
    assert_eq!(
        generate_bishop_moves(&board, 3, 3, false),
        vec![
            (2, 2), (1, 1), (0, 0),
            (2, 4), (1, 5), (0, 6),
            (4, 2), (5, 1), (6, 0),
            (4, 4), (5, 5), (6, 6), (7, 7),
        ]
    );
}

#[test]
fn bishop_captures_an_opponent_and_stops() {
    let mut board = bare_board();
    board[5][5] = Some(Piece::Pawn(false));
    board[6][6] = Some(Piece::Pawn(false));
    board[1][1] = Some(Piece::Pawn(true));
    assert_eq!(
        generate_bishop_moves(&board, 3, 3, true),
        vec![
            (2, 2),
            (2, 4), (1, 5), (0, 6),
            (4, 2), (5, 1), (6, 0),
            (4, 4), (5, 5),
        ]
    );
}

#[test]
fn sliding_in_no_direction_gives_no_move() {
    let board = bare_board();
    assert_eq!(generate_sliding_moves(&board, 4, 4, &[], true), vec![]);
}

#[test]
fn sliding_in_all_eight_directions_joins_rook_and_bishop() {
    let mut board = initialize_board();
    board[6][3] = None;
    board[6][4] = None;
    board[6][2] = None;
    let mut expected = generate_rook_moves(&board, 7, 3, true);
    expected.extend(generate_bishop_moves(&board, 7, 3, true));
    assert_eq!(generate_sliding_moves(&board, 7, 3, &ALL_DIRECTIONS, true), expected);
    assert_eq!(
        expected,
        vec![
            (6, 3), (5, 3), (4, 3), (3, 3), (2, 3), (1, 3),
            (6, 2), (5, 1), (4, 0),
            (6, 4), (5, 5), (4, 6), (3, 7),
        ]
    );
}

#[test]
fn sliding_follows_the_order_of_the_directions() {
    let board = bare_board();
    assert_eq!(
        generate_sliding_moves(&board, 1, 1, &[Direction::Right, Direction::Up], true),
        vec![(1, 2), (1, 3), (1, 4), (1, 5), (1, 6), (1, 7), (0, 1)]
    );
}

#[test]
fn extend_along_appends_to_the_list() {
    let mut board = bare_board();
    board[2][5] = Some(Piece::Bishop(false));
    let mut moves = vec![(9, 9)];
    extend_along(&board, 2, 2, Direction::Right, true, &mut moves);
    assert_eq!(moves, vec![(9, 9), (2, 3), (2, 4), (2, 5)]);
    extend_along(&board, 2, 2, Direction::Left, true, &mut moves);
    assert_eq!(moves, vec![(9, 9), (2, 3), (2, 4), (2, 5), (2, 1), (2, 0)]);
}

#[test]
fn extend_along_from_the_edge_adds_nothing() {
    let board = bare_board();
    let mut moves = Vec::new();
    extend_along(&board, 0, 0, Direction::Up, true, &mut moves);
    extend_along(&board, 0, 0, Direction::Left, true, &mut moves);
    extend_along(&board, 0, 0, Direction::UpLeft, true, &mut moves);
    extend_along(&board, 7, 7, Direction::Down, true, &mut moves);
    extend_along(&board, 7, 7, Direction::Right, true, &mut moves);
    extend_along(&board, 7, 7, Direction::DownRight, true, &mut moves);
    extend_along(&board, 0, 7, Direction::UpRight, true, &mut moves);
    extend_along(&board, 7, 0, Direction::DownLeft, true, &mut moves);
    assert_eq!(moves, vec![]);
}

#[test]
fn sliding_moves_stay_on_the_board() {
    let mut boards = vec![bare_board(), initialize_board()];
    let mut mixed = initialize_board();
    mixed[4][4] = Some(Piece::Queen(true));
    mixed[3][3] = Some(Piece::Pawn(false));
    mixed[6][4] = None;
    boards.push(mixed);
    for board in &boards {
        for row in 0..8 {
            for col in 0..8 {
                for white in [true, false] {
                    let moves = generate_sliding_moves(board, row, col, &ALL_DIRECTIONS, white);
                    for (r, c) in moves {
                        assert!(r < 8 && c < 8);
                    }
                }
            }
        }
    }
}

#[test]
fn sliding_moves_never_land_on_own_pieces() {
    let mut board = initialize_board();
    board[4][4] = Some(Piece::Queen(true));
    board[3][3] = Some(Piece::Pawn(false));
    board[6][4] = None;
    for row in 0..8 {
        for col in 0..8 {
            for white in [true, false] {
                for (r, c) in generate_sliding_moves(&board, row, col, &ALL_DIRECTIONS, white) {
                    match board[r][c] {
                        Some(piece) => assert_ne!(piece.is_white(), white),
                        None => {}
                    }
                }
            }
        }
    }
}

#[test]
fn nothing_beyond_a_captured_piece_is_offered() {
    let mut board = bare_board();
    board[4][5] = Some(Piece::Pawn(false));
    let moves = generate_rook_moves(&board, 4, 1, true);
    assert!(moves.contains(&(4, 5)));
    assert!(!moves.contains(&(4, 6)));
    assert!(!moves.contains(&(4, 7)));
    assert!(moves.contains(&(4, 4)));
}

#[test]
fn nothing_from_an_own_piece_on_is_offered() {
    let mut board = bare_board();
    board[4][5] = Some(Piece::Pawn(true));
    let moves = generate_rook_moves(&board, 4, 1, true);
    assert!(moves.contains(&(4, 4)));
    assert!(!moves.contains(&(4, 5)));
    assert!(!moves.contains(&(4, 6)));
    assert!(!moves.contains(&(4, 7)));
}

#[test]
fn an_own_piece_behind_an_opponent_changes_nothing() {
    let mut board = bare_board();
    board[2][2] = Some(Piece::Pawn(false));
    board[1][1] = Some(Piece::Pawn(true));
    let moves = generate_bishop_moves(&board, 4, 4, true);
    assert!(moves.contains(&(3, 3)));
    assert!(moves.contains(&(2, 2)));
    assert!(!moves.contains(&(1, 1)));
    assert!(!moves.contains(&(0, 0)));
}

#[test]
fn generators_give_the_same_list_when_called_again() {
    let mut board = initialize_board();
    board[6][0] = None;
    board[6][3] = None;
    let before = board;
    let first = generate_rook_moves(&board, 7, 0, true);
    let second = generate_rook_moves(&board, 7, 0, true);
    assert_eq!(first, second);
    let first = generate_bishop_moves(&board, 7, 2, true);
    let second = generate_bishop_moves(&board, 7, 2, true);
    assert_eq!(first, second);
    assert_eq!(board, before);
}

#[test]
fn checked_rook_moves_reports_a_square_out_of_range() {
    let board = initialize_board();
    assert_eq!(
        checked_rook_moves(&board, 8, 0, true),
        Err(SquareOutOfRange { row: 8, col: 0 })
    );
    assert_eq!(
        checked_rook_moves(&board, 0, 8, true),
        Err(SquareOutOfRange { row: 0, col: 8 })
    );
    assert_eq!(
        checked_rook_moves(&board, usize::MAX, 3, false),
        Err(SquareOutOfRange { row: usize::MAX, col: 3 })
    );
}

#[test]
fn checked_rook_moves_gives_the_moves_of_a_square_on_the_board() {
    let mut board = initialize_board();
    board[6][0] = None;
    assert_eq!(
        checked_rook_moves(&board, 7, 0, true),
        Ok(vec![(6, 0), (5, 0), (4, 0), (3, 0), (2, 0), (1, 0)])
    );
    assert_eq!(checked_rook_moves(&board, 7, 7, true), Ok(vec![]));
}

#[test]
fn checked_bishop_moves_reports_a_square_out_of_range() {
    let board = initialize_board();
    assert_eq!(
        checked_bishop_moves(&board, 3, 8, false),
        Err(SquareOutOfRange { row: 3, col: 8 })
    );
    assert_eq!(
        checked_bishop_moves(&board, 100, 100, true),
        Err(SquareOutOfRange { row: 100, col: 100 })
    );
}

#[test]
fn checked_bishop_moves_gives_the_moves_of_a_square_on_the_board() {
    let mut board = initialize_board();
    board[6][3] = None;
    assert_eq!(
        checked_bishop_moves(&board, 7, 2, true),
        Ok(vec![(6, 3), (5, 4), (4, 5), (3, 6), (2, 7)])
    );
}
