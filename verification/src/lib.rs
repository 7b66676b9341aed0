//! A deterministic, tick-based simulation of the classic snake game on a
//! fixed 20 by 20 arena: grid geometry, steering with a reversal guard,
//! segment-following movement, growth, collision classification, food
//! placement and the round controller that orders them.

pub mod collision;
pub mod direction;
pub mod food;
pub mod grid;
pub mod round;
pub mod snake;

pub use collision::{classify, Collision};
pub use direction::Direction;
pub use food::place_food;
pub use grid::{all_cells, is_within_bounds, Cell, ARENA_HEIGHT, ARENA_WIDTH};
pub use round::{Round, TickOutcome};
pub use snake::Snake;
