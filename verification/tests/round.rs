use snake_engine::collision::Collision;
use snake_engine::direction::Direction;
use snake_engine::grid::{all_cells, is_within_bounds, Cell};
use snake_engine::round::{
    Round, TickOutcome, FOOD_PERIOD_MS, MOVEMENT_PERIOD_MS, START_X, START_Y,
};
use snake_engine::snake::Snake;

fn cell(x: i32, y: i32) -> Cell {
    Cell { x, y }
}

fn assert_fresh(round: &Round) {
    assert_eq!(round.snake().occupied_cells(), vec![cell(5, 5)]);
    assert_eq!(round.snake().heading(), Direction::Up);
    assert_eq!(round.snake().len(), 1);
    assert!(!round.snake().is_committed());
    assert_eq!(round.snake().vacated(), None);
    assert_eq!(round.food(), None);
}

#[test]
fn cadences_and_start_cell() {
    assert_eq!(MOVEMENT_PERIOD_MS, 150);
    assert_eq!(FOOD_PERIOD_MS, 1500);
    assert_eq!((START_X, START_Y), (5, 5));
}

#[test]
fn new_round_starts_at_five_five_heading_up() {
    let round = Round::new();
    assert_fresh(&round);
    assert!(round.check());
}

#[test]
fn first_tick_moves_the_head_up_by_one() {
    let mut round = Round::new();
    assert_eq!(round.tick(), TickOutcome::Moved);
    assert_eq!(round.snake().head(), cell(5, 6));
    assert_eq!(round.snake().len(), 1);
    assert_eq!(round.food(), None);
}

#[test]
fn running_into_the_right_wall_restarts_the_round() {
    let snake = Snake::new(cell(19, 5), Direction::Right);
    let mut round = Round::from_parts(snake, Some(cell(3, 3))).unwrap();
    assert_eq!(round.tick(), TickOutcome::GameOver(Collision::OutOfBounds));
    assert_fresh(&round);
}

#[test]
fn running_into_each_wall_is_out_of_bounds() {
    let cases = [
        (cell(0, 7), Direction::Left),
        (cell(19, 7), Direction::Right),
        (cell(7, 0), Direction::Down),
        (cell(7, 19), Direction::Up),
    ];
    for (head, heading) in cases {
        let mut round = Round::from_parts(Snake::new(head, heading), None).unwrap();
        assert_eq!(round.tick(), TickOutcome::GameOver(Collision::OutOfBounds));
        assert_fresh(&round);
    }
}

#[test]
fn twenty_ticks_upwards_from_the_bottom_row_end_the_round() {
    let mut round = Round::from_parts(Snake::new(cell(5, 0), Direction::Up), None).unwrap();
    for y in 1..20 {
        assert_eq!(round.tick(), TickOutcome::Moved);
        assert_eq!(round.snake().head(), cell(5, y));
    }
    assert_eq!(round.tick(), TickOutcome::GameOver(Collision::OutOfBounds));
    assert_fresh(&round);
}

#[test]
fn eating_grows_into_the_vacated_cell_and_places_new_food() {
    let snake = Snake::new(cell(5, 5), Direction::Up);
    let mut round = Round::from_parts(snake, Some(cell(5, 6))).unwrap();
    assert_eq!(round.tick(), TickOutcome::Growth);
    let cells = round.snake().occupied_cells();
    assert_eq!(cells, vec![cell(5, 6), cell(5, 5)]);
    let food = round.food().unwrap();
    assert!(is_within_bounds(food));
    assert!(!cells.contains(&food));
    assert!(round.check());
}

#[test]
fn eating_with_a_longer_snake_keeps_every_old_cell() {
    let before = vec![cell(5, 5), cell(5, 4), cell(4, 4)];
    let snake = Snake::from_cells(before.clone(), Direction::Right).unwrap();
    let mut round = Round::from_parts(snake, Some(cell(6, 5))).unwrap();
    assert_eq!(round.tick(), TickOutcome::Growth);
    let after = round.snake().occupied_cells();
    assert_eq!(after, vec![cell(6, 5), cell(5, 5), cell(5, 4), cell(4, 4)]);
    assert_ne!(round.food(), Some(cell(6, 5)));
    assert!(!after.contains(&round.food().unwrap()));
}

#[test]
fn food_elsewhere_is_left_alone_by_a_tick() {
    let snake = Snake::new(cell(5, 5), Direction::Up);
    let mut round = Round::from_parts(snake, Some(cell(9, 9))).unwrap();
    assert_eq!(round.tick(), TickOutcome::Moved);
    assert_eq!(round.food(), Some(cell(9, 9)));
    assert_eq!(round.snake().occupied_cells(), vec![cell(5, 6)]);
}

#[test]
fn running_into_the_body_restarts_the_round() {
    let cells = vec![cell(5, 5), cell(5, 4), cell(6, 4), cell(6, 5), cell(6, 6)];
    let snake = Snake::from_cells(cells, Direction::Right).unwrap();
    let mut round = Round::from_parts(snake, Some(cell(1, 1))).unwrap();
    assert_eq!(round.tick(), TickOutcome::GameOver(Collision::SelfCollision));
    assert_fresh(&round);
}

#[test]
fn the_cell_the_tail_just_left_is_free_to_enter() {
    let cells = vec![cell(5, 5), cell(5, 4), cell(6, 4), cell(6, 5)];
    let snake = Snake::from_cells(cells, Direction::Right).unwrap();
    let mut round = Round::from_parts(snake, None).unwrap();
    assert_eq!(round.tick(), TickOutcome::Moved);
    assert_eq!(
        round.snake().occupied_cells(),
        vec![cell(6, 5), cell(5, 5), cell(5, 4), cell(6, 4)]
    );
    assert!(round.check());
}

#[test]
fn refresh_food_places_food_where_there_is_none() {
    let mut round = Round::new();
    round.refresh_food();
    let food = round.food().unwrap();
    assert!(is_within_bounds(food));
    assert_ne!(food, cell(5, 5));
    assert_eq!(round.snake().occupied_cells(), vec![cell(5, 5)]);
}

#[test]
fn refresh_food_leaves_active_food_where_it_is() {
    let snake = Snake::new(cell(5, 5), Direction::Up);
    let mut round = Round::from_parts(snake, Some(cell(7, 7))).unwrap();
    for _ in 0..50 {
        round.refresh_food();
        assert_eq!(round.food(), Some(cell(7, 7)));
    }
    assert_eq!(round.snake().occupied_cells(), vec![cell(5, 5)]);
}

#[test]
fn refresh_food_twice_keeps_the_first_placement() {
    let mut round = Round::new();
    round.refresh_food();
    let first = round.food();
    assert!(first.is_some());
    round.refresh_food();
    assert_eq!(round.food(), first);
}

#[test]
fn latch_input_is_dropped_before_the_first_tick() {
    let mut round = Round::new();
    round.latch_input(Some(Direction::Down));
    assert_eq!(round.snake().heading(), Direction::Up);
    round.latch_input(Some(Direction::Left));
    assert_eq!(round.snake().heading(), Direction::Up);
    round.latch_input(None);
    assert_eq!(round.snake().heading(), Direction::Up);
}

#[test]
fn latch_input_turns_the_snake_after_a_tick() {
    let mut round = Round::new();
    round.tick();
    round.latch_input(Some(Direction::Right));
    assert_eq!(round.snake().heading(), Direction::Right);
    round.latch_input(Some(Direction::Down));
    assert_eq!(round.snake().heading(), Direction::Right);
    assert_eq!(round.tick(), TickOutcome::Moved);
    assert_eq!(round.snake().head(), cell(6, 6));
}

#[test]
fn reset_starts_afresh() {
    let snake = Snake::from_cells(vec![cell(8, 8), cell(8, 7)], Direction::Left).unwrap();
    let mut round = Round::from_parts(snake, Some(cell(1, 1))).unwrap();
    round.tick();
    round.reset();
    assert_fresh(&round);
}

#[test]
fn from_parts_refuses_a_snake_outside_the_arena() {
    assert!(Round::from_parts(Snake::new(cell(20, 5), Direction::Up), None).is_none());
    assert!(Round::from_parts(Snake::new(cell(5, -1), Direction::Up), None).is_none());
    let cells = vec![cell(19, 5), cell(20, 5)];
    let snake = Snake::from_cells(cells, Direction::Left).unwrap();
    assert!(Round::from_parts(snake, None).is_none());
}

#[test]
fn from_parts_refuses_a_snake_that_lies_on_itself() {
    let cells = vec![cell(5, 5), cell(5, 4), cell(5, 5)];
    let snake = Snake::from_cells(cells, Direction::Up).unwrap();
    assert!(Round::from_parts(snake, None).is_none());
}

#[test]
fn from_parts_refuses_food_under_the_snake_or_outside_the_arena() {
    let cells = vec![cell(5, 5), cell(5, 4)];
    let make = || Snake::from_cells(cells.clone(), Direction::Up).unwrap();
    assert!(Round::from_parts(make(), Some(cell(5, 5))).is_none());
    assert!(Round::from_parts(make(), Some(cell(5, 4))).is_none());
    assert!(Round::from_parts(make(), Some(cell(20, 4))).is_none());
    assert!(Round::from_parts(make(), Some(cell(5, 6))).is_some());
    assert!(Round::from_parts(make(), None).is_some());
}

#[test]
fn full_board_leaves_the_round_without_food() {
    let snake = Snake::from_cells(all_cells(), Direction::Left).unwrap();
    let mut round = Round::from_parts(snake, None).unwrap();
    round.refresh_food();
    assert_eq!(round.food(), None);
}

#[test]
fn frame_without_anything_due_only_latches_the_input() {
    let mut round = Round::new();
    round.tick();
    assert_eq!(round.frame(Some(Direction::Left), false, false), None);
    assert_eq!(round.snake().heading(), Direction::Left);
    assert_eq!(round.snake().occupied_cells(), vec![cell(5, 6)]);
    assert_eq!(round.food(), None);
}

#[test]
fn frame_latches_the_input_before_it_moves() {
    let mut round = Round::new();
    round.tick();
    assert_eq!(round.frame(Some(Direction::Left), true, false), Some(TickOutcome::Moved));
    assert_eq!(round.snake().head(), cell(4, 6));
}

#[test]
fn frame_refreshes_food_after_it_moves() {
    let mut round = Round::new();
    for _ in 0..100 {
        let mut round = round.clone();
        assert_eq!(round.frame(None, true, true), Some(TickOutcome::Moved));
        assert_eq!(round.snake().head(), cell(5, 6));
        let food = round.food().unwrap();
        assert_ne!(food, cell(5, 6));
        assert!(is_within_bounds(food));
    }
    assert_eq!(round.frame(None, false, true), None);
    assert!(round.food().is_some());
    assert_ne!(round.food(), Some(cell(5, 5)));
}

#[test]
fn frame_after_a_collision_places_food_on_the_fresh_board() {
    let snake = Snake::new(cell(0, 0), Direction::Down);
    let mut round = Round::from_parts(snake, Some(cell(9, 9))).unwrap();
    let outcome = round.frame(None, true, true);
    assert_eq!(outcome, Some(TickOutcome::GameOver(Collision::OutOfBounds)));
    assert_eq!(round.snake().occupied_cells(), vec![cell(5, 5)]);
    let food = round.food().unwrap();
    assert_ne!(food, cell(5, 5));
    assert!(is_within_bounds(food));
}

#[test]
fn a_long_run_keeps_the_round_well_formed() {
    let mut round = Round::new();
    let turns = [Direction::Left, Direction::Up, Direction::Right, Direction::Down];
    for i in 0..2000usize {
        let pressed = if i % 3 == 0 { Some(turns[(i / 3) % 4]) } else { None };
        let before = round.snake().len();
        match round.frame(pressed, true, i % 10 == 0) {
            Some(TickOutcome::Moved) => assert_eq!(round.snake().len(), before),
            Some(TickOutcome::Growth) => assert_eq!(round.snake().len(), before + 1),
            Some(TickOutcome::GameOver(hit)) => {
                assert_ne!(hit, Collision::Clear);
                assert_eq!(round.snake().len(), 1);
            }
            None => unreachable!(),
        }
        assert!(round.check());
    }
}
