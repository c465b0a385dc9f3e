use keylights::grid::{key_at, step, CELLS, HEIGHT, WIDTH};
use keylights::{Direction, StandardKey};

#[test]
fn grid_has_thirteen_columns_and_four_rows() {
    assert_eq!(WIDTH, 13);
    assert_eq!(HEIGHT, 4);
    assert_eq!(CELLS, 52);
}

#[test]
fn grid_left_from_the_first_column_wraps_in_every_row() {
    for row in 0..HEIGHT {
        assert_eq!(step((0, row), Direction::Left), (12, row));
    }
}

#[test]
fn grid_right_from_the_last_column_wraps_in_every_row() {
    for row in 0..HEIGHT {
        assert_eq!(step((12, row), Direction::Right), (0, row));
    }
}

#[test]
fn grid_up_and_down_wrap_in_every_column() {
    for column in 0..WIDTH {
        assert_eq!(step((column, 0), Direction::Up), (column, 3));
        assert_eq!(step((column, 3), Direction::Down), (column, 0));
    }
}

#[test]
fn grid_steps_inside_the_field() {
    assert_eq!(step((3, 2), Direction::Right), (4, 2));
    assert_eq!(step((3, 2), Direction::Left), (2, 2));
    assert_eq!(step((3, 2), Direction::Up), (3, 1));
    assert_eq!(step((3, 2), Direction::Down), (3, 3));
    for column in 0..WIDTH {
        for row in 0..HEIGHT {
            for d in [Direction::Up, Direction::Down, Direction::Left, Direction::Right] {
                let (x, y) = step((column, row), d);
                assert!(x < WIDTH && y < HEIGHT);
            }
            let there = step((column, row), Direction::Left);
            assert_eq!(step(there, Direction::Right), (column, row));
            let there = step((column, row), Direction::Up);
            assert_eq!(step(there, Direction::Down), (column, row));
        }
    }
}

#[test]
fn grid_step_is_taken_modulo_the_field_from_anywhere() {
    assert_eq!(step((200, 1), Direction::Right), (6, 1));
    assert_eq!(step((200, 1), Direction::Left), (4, 1));
    assert_eq!(step((5, 201), Direction::Down), (5, 2));
    assert_eq!(step((5, 201), Direction::Up), (5, 0));
    assert_eq!(step((255, 255), Direction::Right), (9, 255));
    assert_eq!(step((255, 255), Direction::Down), (255, 0));
}

#[test]
fn grid_lies_over_the_letter_block() {
    assert_eq!(key_at((0, 0)), StandardKey::Circumflex);
    assert_eq!(key_at((1, 0)), StandardKey::_1);
    assert_eq!(key_at((10, 0)), StandardKey::_0);
    assert_eq!(key_at((12, 0)), StandardKey::Tick);
    assert_eq!(key_at((0, 1)), StandardKey::Tab);
    assert_eq!(key_at((6, 1)), StandardKey::Z);
    assert_eq!(key_at((12, 1)), StandardKey::Plus);
    assert_eq!(key_at((0, 2)), StandardKey::CapsLock);
    assert_eq!(key_at((1, 2)), StandardKey::A);
    assert_eq!(key_at((3, 2)), StandardKey::D);
    assert_eq!(key_at((12, 2)), StandardKey::Sharp);
    assert_eq!(key_at((0, 3)), StandardKey::LeftShift);
    assert_eq!(key_at((2, 3)), StandardKey::Y);
    assert_eq!(key_at((12, 3)), StandardKey::RightShift);
}

#[test]
fn grid_has_a_key_of_its_own_under_every_cell() {
    let mut seen: Vec<StandardKey> = Vec::new();
    for row in 0..HEIGHT {
        for column in 0..WIDTH {
            let key = key_at((column, row));
            assert!(!seen.contains(&key));
            seen.push(key);
        }
    }
    assert_eq!(seen.len(), CELLS);
}
