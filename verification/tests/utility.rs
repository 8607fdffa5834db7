use tetris::board::Board;
use tetris::game::Game;
use tetris::matrix::Matrix;
use tetris::point::Point;
use tetris::utility::duration_for_level;

#[test]
fn point_creation_set() {
    let mut p = Point::new(1, 0);
    assert_eq!(p.x_coordinate, 1);
    assert_eq!(p.y_coordinate, 0);
    p.set(5, 10);
    assert_eq!(p.x_coordinate, 5);
    assert_eq!(p.y_coordinate, 10);
}

#[test]
fn matrix_creation() {
    let m = Matrix::new(5, 2);
    assert_eq!(m.rows, 5);
    assert_eq!(m.columns, 2);
    for x in 0..5 {
        for y in 0..2 {
            assert_eq!(m.data[x][y], false);
        }
    }
}

#[test]
fn matrix_rotate_clockwise() {
    let mut m = Matrix::new(5, 2);
    m.rotate_clockwise();
    assert_eq!(m.rows, 2);
    assert_eq!(m.columns, 5);
}

#[test]
fn matrix_counter_clockwise() {
    let mut m = Matrix::new(5, 2);
    m.rotate_counter_clockwise();
    assert_eq!(m.rows, 2);
    assert_eq!(m.columns, 5);
}

#[test]
fn matrix_rotation_content() {
    let mut m = Matrix::new(2, 3);
    m.data[0][0] = true;
    m.data[1][2] = true;
    m.rotate_clockwise();
    // (0, 0) -> (0, rows - 1 - 0) = (0, 1); (1, 2) -> (2, 0)
    assert_eq!(m.rows, 3);
    assert_eq!(m.columns, 2);
    assert!(m.data[0][1]);
    assert!(m.data[2][0]);
    assert!(!m.data[0][0]);
    assert!(!m.data[1][0]);
    assert!(!m.data[1][1]);
    assert!(!m.data[2][1]);
}

#[test]
fn gravity_table_start() {
    let game = Game::new(Board::new(20, 11));
    assert_eq!(duration_for_level(&game), 800);
}

#[test]
fn gravity_table_steps() {
    let mut game = Game::new(Board::new(20, 11));
    game.rows = 9;
    assert_eq!(duration_for_level(&game), 800);
    game.rows = 10;
    assert_eq!(duration_for_level(&game), 720);
    game.rows = 45;
    assert_eq!(duration_for_level(&game), 470);
    game.rows = 95;
    assert_eq!(duration_for_level(&game), 100);
    game.rows = 155;
    assert_eq!(duration_for_level(&game), 70);
    game.rows = 289;
    assert_eq!(duration_for_level(&game), 30);
    game.rows = 290;
    assert_eq!(duration_for_level(&game), 20);
    game.rows = 100000;
    assert_eq!(duration_for_level(&game), 20);
}
