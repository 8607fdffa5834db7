use tetris::autoplayer::Autoplayer;
use tetris::board::Board;
use tetris::commands::Command;
use tetris::game::Game;
use tetris::move_direction::MoveDirection;
use tetris::piece_type::PieceType;
use tetris::pieces::{get_i_piece, get_next_random_piece, get_o_piece};
use tetris::point::Point;

#[test]
fn new_autoplayer_is_idle() {
    let mut auto_player = Autoplayer::new();
    let mut game = Game::new(Board::new(20, 11));
    assert_eq!(auto_player.commands.len(), 0);
    // with nothing queued the default move is Down
    assert_eq!(auto_player.perform_move(&mut game), Command::Down);
}

#[test]
fn queue_is_consumed_from_the_end() {
    let mut auto_player = Autoplayer::new();
    let mut game = Game::new(Board::new(20, 11));
    auto_player.commands.push(Command::RotateClockWise);
    auto_player.commands.push(Command::Left);
    auto_player.commands.push(Command::Right);

    assert_eq!(auto_player.perform_move(&mut game), Command::Right);
    assert_eq!(auto_player.perform_move(&mut game), Command::Left);
    assert_eq!(auto_player.perform_move(&mut game), Command::RotateClockWise);
    assert_eq!(auto_player.perform_move(&mut game), Command::Down);
}

#[test]
fn random_piece_is_canonical() {
    for _ in 0..20 {
        let piece = get_next_random_piece();
        assert_ne!(piece.piece_type, PieceType::Empty);
        assert!(piece.point.x_coordinate < piece.body.rows);
        assert!(piece.point.y_coordinate < piece.body.columns);
    }
}

#[test]
fn drop_lands_piece_on_floor() {
    let auto_player = Autoplayer::new();
    let mut game = Game::new(Board::new(20, 11));
    let piece = get_i_piece();
    assert!(game.board.add_piece(&piece, 2, 2));
    game.actual_piece = piece;
    game.actual_piece_coordinates = Point::new(2, 2);

    let dropped = auto_player.drop(&game);
    assert_eq!(dropped.board[19][2], PieceType::I);
    assert_eq!(dropped.board[16][2], PieceType::I);
    assert_eq!(dropped.board[15][2], PieceType::Empty);
    // the live game was only read
    assert_eq!(game.actual_piece_coordinates, Point::new(2, 2));
    assert_eq!(game.board.board[1][2], PieceType::I);
}

#[test]
fn heuristic_single_corner_cell() {
    let auto_player = Autoplayer::new();
    let mut board = Board::new(2, 2);
    board.board[1][0] = PieceType::I;
    // ten times: -2.5 * 1 (height) + 4.2 * 3 (edge column and bottom row)
    assert_eq!(auto_player.heuristic(&mut board), -25 + 42 * 3);
}

#[test]
fn heuristic_full_square() {
    let auto_player = Autoplayer::new();
    let mut board = Board::new(2, 2);
    for x in 0..2 {
        for y in 0..2 {
            board.board[x][y] = PieceType::O;
        }
    }
    // ten times: -2.5 * 4 + 8 * 2 + 4.2 * (4 + 2 * 2) + 4 * 8
    assert_eq!(auto_player.heuristic(&mut board), -100 + 160 + 42 * 8 + 320);
}

#[test]
fn heuristic_counts_holes() {
    let auto_player = Autoplayer::new();
    let mut board = Board::new(3, 1);
    board.board[0][0] = PieceType::T;
    // the two cells below the top one are holes; the single column is an
    // edge column, and its occupied top row counts as a completed row on
    // this one-column board
    // ten times: -2.5 * 3 + 8 * 1 - 4.5 * 2 + 4.2 * 1
    assert_eq!(auto_player.heuristic(&mut board), -75 + 80 - 90 + 42);
}

#[test]
fn heuristic_leaves_board_unchanged() {
    let auto_player = Autoplayer::new();
    let mut board = Board::new(4, 4);
    board.board[3][1] = PieceType::S;
    let before = board.clone();
    auto_player.heuristic(&mut board);
    assert_eq!(board, before);
}

#[test]
fn autoplayer_fills_the_valley() {
    // the bottom four rows are full except in column 2; the autoplayer
    // should steer the vertical I piece into that valley, which clears
    // all four rows and leaves no hole behind
    let mut game = Game::new(Board::new(20, 11));
    for x in 16..20 {
        for y in 0..11 {
            if y != 2 {
                game.board.board[x][y] = PieceType::T;
            }
        }
    }
    let piece = get_i_piece();
    assert!(game.board.add_piece(&piece, 2, 5));
    game.actual_piece = piece;
    game.actual_piece_coordinates = Point::new(2, 5);
    game.next_piece = get_o_piece();

    let mut auto_player = Autoplayer::new();
    auto_player.compute_move(&mut game);
    assert!(auto_player.commands.len() > 0);

    let mut landed = false;
    for _ in 0..200 {
        match auto_player.perform_move(&mut game) {
            Command::Down => {
                if game.step(MoveDirection::Down) {
                    landed = true;
                    break;
                }
            },
            Command::Left => {
                game.step(MoveDirection::Left);
            },
            Command::Right => {
                game.step(MoveDirection::Right);
            },
            Command::RotateClockWise => {
                game.rotate_piece_clockwise();
            },
        }
    }
    assert!(landed);

    // all four rows cleared at once
    assert_eq!(game.rows, 4);
    assert_eq!(game.points, 1000);

    // and the lower half of the board is hole-free: completely empty
    for x in 10..20 {
        for y in 0..11 {
            assert_eq!(game.board.board[x][y], PieceType::Empty);
        }
    }
}
