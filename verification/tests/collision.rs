use snake_engine::collision::{classify, contains_cell, Collision};
use snake_engine::direction::Direction;
use snake_engine::grid::Cell;
use snake_engine::snake::Snake;

fn cell(x: i32, y: i32) -> Cell {
    Cell { x, y }
}

#[test]
fn classify_is_clear_inside_the_arena_and_off_the_body() {
    assert_eq!(classify(cell(5, 6), &vec![]), Collision::Clear);
    assert_eq!(classify(cell(0, 0), &vec![cell(0, 1), cell(1, 1)]), Collision::Clear);
    assert_eq!(classify(cell(19, 19), &vec![cell(18, 19)]), Collision::Clear);
}

#[test]
fn classify_is_out_of_bounds_past_each_edge() {
    let body = vec![cell(5, 5)];
    assert_eq!(classify(cell(-1, 5), &body), Collision::OutOfBounds);
    assert_eq!(classify(cell(20, 5), &body), Collision::OutOfBounds);
    assert_eq!(classify(cell(5, -1), &body), Collision::OutOfBounds);
    assert_eq!(classify(cell(5, 20), &body), Collision::OutOfBounds);
    assert_eq!(classify(cell(-7, 33), &body), Collision::OutOfBounds);
}

#[test]
fn classify_is_self_collision_on_a_body_segment() {
    let body = vec![cell(5, 5), cell(5, 4), cell(4, 4)];
    assert_eq!(classify(cell(5, 5), &body), Collision::SelfCollision);
    assert_eq!(classify(cell(5, 4), &body), Collision::SelfCollision);
    assert_eq!(classify(cell(4, 4), &body), Collision::SelfCollision);
    assert_eq!(classify(cell(4, 5), &body), Collision::Clear);
}

#[test]
fn classify_checks_the_arena_before_the_body() {
    let body = vec![cell(20, 5), cell(19, 5)];
    assert_eq!(classify(cell(20, 5), &body), Collision::OutOfBounds);
    assert_eq!(classify(cell(19, 5), &body), Collision::SelfCollision);
}

#[test]
fn head_at_right_edge_heading_right_runs_out_of_bounds() {
    let mut snake = Snake::new(cell(19, 5), Direction::Right);
    let head = snake.advance();
    assert_eq!(head, cell(20, 5));
    assert_eq!(classify(head, &snake.body()), Collision::OutOfBounds);
}

#[test]
fn contains_cell_finds_what_is_there() {
    let cells = vec![cell(1, 2), cell(3, 4)];
    assert!(contains_cell(&cells, cell(1, 2)));
    assert!(contains_cell(&cells, cell(3, 4)));
    assert!(!contains_cell(&cells, cell(2, 1)));
    assert!(!contains_cell(&vec![], cell(0, 0)));
}
