use led_snake::grid::{cell_behind, contains_cell, next_cell, Blocked, Direction};
use led_snake::snakegame::Snake;

const NO_OBSTACLES: [(usize, usize); 0] = [];

#[test]
fn new_snake_trails_behind_its_head() {
    let snake = Snake::new((2, 2), Direction::Down, 3);
    assert_eq!(snake.body(), &[(2, 2), (1, 2), (0, 2)]);
    assert_eq!(snake.direction(), Direction::Down);
    assert!(!snake.growing());
    let snake = Snake::new((2, 2), Direction::Right, 3);
    assert_eq!(snake.body(), &[(2, 2), (2, 1), (2, 0)]);
    let snake = Snake::new((2, 2), Direction::Up, 3);
    assert_eq!(snake.body(), &[(2, 2), (3, 2), (4, 2)]);
    let snake = Snake::new((2, 2), Direction::Left, 3);
    assert_eq!(snake.body(), &[(2, 2), (2, 3), (2, 4)]);
}

#[test]
fn new_snake_wraps_round_the_edges() {
    let snake = Snake::new((0, 2), Direction::Down, 3);
    assert_eq!(snake.body(), &[(0, 2), (4, 2), (3, 2)]);
    let snake = Snake::new((1, 0), Direction::Right, 4);
    assert_eq!(snake.body(), &[(1, 0), (1, 4), (1, 3), (1, 2)]);
    let snake = Snake::new((4, 1), Direction::Up, 2);
    assert_eq!(snake.body(), &[(4, 1), (0, 1)]);
    let snake = Snake::new((3, 4), Direction::Left, 2);
    assert_eq!(snake.body(), &[(3, 4), (3, 0)]);
}

#[test]
fn new_snake_wraps_its_start_onto_the_grid() {
    let snake = Snake::new((7, 12), Direction::Down, 2);
    assert_eq!(snake.body(), &[(2, 2), (1, 2)]);
    let snake = Snake::new((usize::MAX, usize::MAX), Direction::Right, 1);
    assert_eq!(snake.body(), &[(usize::MAX % 5, usize::MAX % 5)]);
}

#[test]
fn new_snake_of_no_cells_is_empty() {
    let mut snake = Snake::new((2, 2), Direction::Down, 0);
    assert_eq!(snake.len(), 0);
    assert_eq!(snake.head(), None);
    assert!(snake.body().is_empty());
    assert_eq!(snake.move_snake(&NO_OBSTACLES), Ok(()));
    assert_eq!(snake.len(), 0);
    assert_eq!(snake.move_snake(&[(3, 2)]), Ok(()));
    assert_eq!(snake.len(), 0);
}

#[test]
fn new_snake_of_full_capacity() {
    let snake = Snake::new((0, 0), Direction::Down, 25);
    assert_eq!(snake.len(), 25);
    let body = snake.body();
    for i in 0..25usize {
        assert_eq!(body[i], ((5 - i % 5) % 5, 0));
    }
}

#[test]
fn move_wraps_at_every_edge() {
    for y in 0..5usize {
        let mut snake = Snake::new((4, y), Direction::Down, 1);
        assert_eq!(snake.move_snake(&NO_OBSTACLES), Ok(()));
        assert_eq!(snake.head(), Some((0, y)));
        let mut snake = Snake::new((0, y), Direction::Up, 1);
        assert_eq!(snake.move_snake(&NO_OBSTACLES), Ok(()));
        assert_eq!(snake.head(), Some((4, y)));
    }
    for x in 0..5usize {
        let mut snake = Snake::new((x, 4), Direction::Right, 1);
        assert_eq!(snake.move_snake(&NO_OBSTACLES), Ok(()));
        assert_eq!(snake.head(), Some((x, 0)));
        let mut snake = Snake::new((x, 0), Direction::Left, 1);
        assert_eq!(snake.move_snake(&NO_OBSTACLES), Ok(()));
        assert_eq!(snake.head(), Some((x, 4)));
    }
}

#[test]
fn move_stays_on_the_grid_from_every_cell_in_every_heading() {
    let headings = [Direction::Up, Direction::Down, Direction::Left, Direction::Right];
    for x in 0..5usize {
        for y in 0..5usize {
            for d in headings {
                let mut snake = Snake::new((x, y), d, 2);
                assert_eq!(snake.move_snake(&NO_OBSTACLES), Ok(()));
                let head = snake.head().unwrap();
                assert!(head.0 < 5 && head.1 < 5);
                assert_eq!(head, next_cell((x, y), d));
                assert_eq!(snake.body()[1], (x, y));
            }
        }
    }
}

#[test]
fn move_inside_the_grid_changes_one_coordinate_by_one() {
    assert_eq!(next_cell((2, 2), Direction::Down), (3, 2));
    assert_eq!(next_cell((2, 2), Direction::Up), (1, 2));
    assert_eq!(next_cell((2, 2), Direction::Right), (2, 3));
    assert_eq!(next_cell((2, 2), Direction::Left), (2, 1));
    assert_eq!(next_cell((4, 2), Direction::Down), (0, 2));
    assert_eq!(next_cell((2, 4), Direction::Right), (2, 0));
    assert_eq!(next_cell((0, 2), Direction::Up), (4, 2));
    assert_eq!(next_cell((2, 0), Direction::Left), (2, 4));
    assert_eq!(next_cell((9, 7), Direction::Down), (0, 2));
}

#[test]
fn cells_behind_a_cell() {
    assert_eq!(cell_behind((2, 2), Direction::Down, 0), (2, 2));
    assert_eq!(cell_behind((2, 2), Direction::Down, 1), (1, 2));
    assert_eq!(cell_behind((2, 2), Direction::Down, 3), (4, 2));
    assert_eq!(cell_behind((2, 2), Direction::Down, 25), (2, 2));
    assert_eq!(cell_behind((2, 2), Direction::Down, 26), (1, 2));
    assert_eq!(cell_behind((2, 2), Direction::Down, 255), (2, 2));
    assert_eq!(cell_behind((2, 2), Direction::Up, 3), (0, 2));
    assert_eq!(cell_behind((2, 2), Direction::Right, 3), (2, 4));
    assert_eq!(cell_behind((2, 2), Direction::Left, 3), (2, 0));
}

#[test]
fn membership_in_a_list_of_cells() {
    assert!(contains_cell(&[(3, 1)], (3, 1)));
    assert!(!contains_cell(&[(3, 1)], (1, 3)));
    assert!(!contains_cell(&[(3, 1)], (3, 2)));
    assert!(!contains_cell(&NO_OBSTACLES, (0, 0)));
    assert!(contains_cell(&[(0, 0), (4, 4), (2, 1)], (2, 1)));
}

#[test]
fn length_is_constant_without_growth() {
    let mut snake = Snake::new((2, 2), Direction::Down, 4);
    let headings = [
        Direction::Down,
        Direction::Right,
        Direction::Right,
        Direction::Up,
        Direction::Left,
        Direction::Down,
    ];
    for round in 0..30usize {
        snake.set_direction(headings[round % headings.len()]);
        let _ = snake.move_snake(&[(3, 1)]);
        assert_eq!(snake.len(), 4);
        assert!(!snake.growing());
    }
}

#[test]
fn move_shifts_the_body_and_drops_the_tail() {
    let mut snake = Snake::new((2, 2), Direction::Down, 3);
    assert_eq!(snake.move_snake(&NO_OBSTACLES), Ok(()));
    assert_eq!(snake.body(), &[(3, 2), (2, 2), (1, 2)]);
    snake.set_direction(Direction::Right);
    assert_eq!(snake.body(), &[(3, 2), (2, 2), (1, 2)]);
    assert_eq!(snake.move_snake(&NO_OBSTACLES), Ok(()));
    assert_eq!(snake.body(), &[(3, 3), (3, 2), (2, 2)]);
}

#[test]
fn growth_adds_exactly_one_cell() {
    let mut snake = Snake::new((2, 2), Direction::Down, 3);
    snake.grow();
    assert!(snake.growing());
    assert_eq!(snake.len(), 3);
    assert_eq!(snake.move_snake(&NO_OBSTACLES), Ok(()));
    assert_eq!(snake.body(), &[(3, 2), (2, 2), (1, 2), (0, 2)]);
    assert!(!snake.growing());
    assert_eq!(snake.move_snake(&NO_OBSTACLES), Ok(()));
    assert_eq!(snake.body(), &[(4, 2), (3, 2), (2, 2), (1, 2)]);
}

#[test]
fn growth_asked_twice_adds_one_cell() {
    let mut snake = Snake::new((2, 2), Direction::Right, 1);
    snake.grow();
    snake.grow();
    assert_eq!(snake.move_snake(&NO_OBSTACLES), Ok(()));
    assert_eq!(snake.len(), 2);
    assert_eq!(snake.move_snake(&NO_OBSTACLES), Ok(()));
    assert_eq!(snake.len(), 2);
}

#[test]
fn growth_waits_while_the_snake_is_blocked() {
    let mut snake = Snake::new((2, 1), Direction::Down, 2);
    snake.grow();
    assert_eq!(snake.move_snake(&[(3, 1)]), Err(Blocked));
    assert!(snake.growing());
    assert_eq!(snake.body(), &[(2, 1), (1, 1)]);
    snake.set_direction(Direction::Right);
    assert_eq!(snake.move_snake(&[(3, 1)]), Ok(()));
    assert_eq!(snake.body(), &[(2, 2), (2, 1), (1, 1)]);
    assert!(!snake.growing());
}

#[test]
fn growth_at_full_capacity_moves_without_growing() {
    let mut snake = Snake::new((0, 0), Direction::Down, 25);
    snake.grow();
    assert_eq!(snake.move_snake(&NO_OBSTACLES), Ok(()));
    assert_eq!(snake.len(), 25);
    assert!(!snake.growing());
    assert_eq!(snake.head(), Some((1, 0)));
    assert_eq!(snake.body()[1], (0, 0));
    assert_eq!(snake.body()[24], (2, 0));
}

#[test]
fn growth_up_to_full_capacity() {
    let mut snake = Snake::new((0, 0), Direction::Down, 24);
    snake.grow();
    assert_eq!(snake.move_snake(&NO_OBSTACLES), Ok(()));
    assert_eq!(snake.len(), 25);
    assert_eq!(snake.head(), Some((1, 0)));
    assert_eq!(snake.body()[24], (2, 0));
}

#[test]
fn obstacle_blocks_and_leaves_the_body_unchanged() {
    let obstacles = [(3, 1)];
    let mut snake = Snake::new((2, 1), Direction::Down, 3);
    let before: Vec<(usize, usize)> = snake.body().to_vec();
    assert_eq!(snake.move_snake(&obstacles), Err(Blocked));
    assert_eq!(snake.body(), &before[..]);
    assert_eq!(snake.body(), &[(2, 1), (1, 1), (0, 1)]);
    assert_eq!(snake.direction(), Direction::Down);
    assert_eq!(snake.move_snake(&obstacles), Err(Blocked));
    assert_eq!(snake.body(), &before[..]);

    let mut snake = Snake::new((3, 0), Direction::Right, 2);
    assert_eq!(snake.move_snake(&obstacles), Err(Blocked));
    assert_eq!(snake.body(), &[(3, 0), (3, 4)]);
}

#[test]
fn obstacle_reached_round_the_edge_blocks() {
    let mut snake = Snake::new((4, 3), Direction::Down, 1);
    assert_eq!(snake.move_snake(&[(0, 3)]), Err(Blocked));
    assert_eq!(snake.head(), Some((4, 3)));
}

#[test]
fn heading_takes_effect_at_the_next_move() {
    let mut snake = Snake::new((2, 2), Direction::Down, 2);
    snake.set_direction(Direction::Right);
    assert_eq!(snake.direction(), Direction::Right);
    assert_eq!(snake.body(), &[(2, 2), (1, 2)]);
    assert_eq!(snake.move_snake(&NO_OBSTACLES), Ok(()));
    assert_eq!(snake.body(), &[(2, 3), (2, 2)]);
}

#[test]
fn heading_may_be_reversed() {
    let mut snake = Snake::new((2, 2), Direction::Down, 2);
    snake.set_direction(Direction::Up);
    assert_eq!(snake.move_snake(&NO_OBSTACLES), Ok(()));
    assert_eq!(snake.body(), &[(1, 2), (2, 2)]);
}

#[test]
fn end_to_end_down_the_middle_column() {
    let obstacles = [(3, 1)];
    let mut snake = Snake::new((0, 2), Direction::Down, 3);
    for _ in 0..3usize {
        assert_eq!(snake.move_snake(&obstacles), Ok(()));
    }
    assert_eq!(snake.head(), Some((3, 2)));
    assert_eq!(snake.body(), &[(3, 2), (2, 2), (1, 2)]);
    assert_eq!(snake.move_snake(&obstacles), Ok(()));
    assert_eq!(snake.head(), Some((4, 2)));
    assert_eq!(snake.move_snake(&obstacles), Ok(()));
    assert_eq!(snake.head(), Some((0, 2)));
    assert_eq!(snake.len(), 3);
}
