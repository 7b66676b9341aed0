//! The round controller: one snake, at most one food cell, and the order
//! in which steering, movement, collision, eating, growth and restart
//! take place.

use vstd::prelude::*;
use crate::collision::{Collision, classify, contains_cell, verdict};
use crate::direction::Direction;
use crate::food::{is_free, place_food, valid_placement};
use crate::grid::{Cell, all_in_bounds, cells_distinct, cells_in_bounds, is_within_bounds};
use crate::snake::{Snake, SnakeView};

verus! {

/// Column in which every round starts.
pub const START_X: i32 = 5;

/// Row in which every round starts.
pub const START_Y: i32 = 5;

/// Milliseconds between two movement ticks.
pub const MOVEMENT_PERIOD_MS: u64 = 150;

/// Milliseconds between two food-refresh phases.
pub const FOOD_PERIOD_MS: u64 = 1500;

/// What one movement tick came to.
#[derive(Clone, Copy, Debug, PartialEq, Eq, Hash, Structural)]
pub enum TickOutcome {
    /// The snake moved one cell.
    Moved,
    /// The snake moved onto the food, ate it and grew by one segment.
    Growth,
    /// The snake ran into the wall or into itself, as the verdict says, and
    /// the round was started afresh.
    GameOver(Collision),
}

/// What a round is, as plain mathematics.
pub struct RoundView {
    pub snake: SnakeView,
    /// The active food cell, if there is one.
    pub food: Option<Cell>,
}

impl RoundView {
    /// Between ticks the snake lies inside the arena and nowhere on itself,
    /// and the food, if any, lies on a free cell.
    pub open spec fn wf(self) -> bool {
        &&& self.snake.wf()
        &&& all_in_bounds(self.snake.cells)
        &&& self.snake.cells.no_duplicates()
        &&& self.food matches Some(cell) ==> is_free(self.snake.cells, cell)
    }

    /// The cell every round starts on.
    pub open spec fn start_cell() -> Cell {
        Cell { x: START_X, y: START_Y }
    }

    /// A fresh round: a snake of one segment on the start cell, heading
    /// up, and no food yet.
    pub open spec fn initial() -> RoundView {
        RoundView { snake: SnakeView::starting(Self::start_cell(), Direction::Up), food: None }
    }

    /// The round after an input frame in which `pressed` was asked for.
    pub open spec fn steered(self, pressed: Option<Direction>) -> RoundView {
        match pressed {
            Some(requested) => RoundView { snake: self.snake.turned(requested), ..self },
            None => self,
        }
    }

    /// What the next movement runs into: the verdict on the moved head
    /// against the moved body.
    pub open spec fn collision(self) -> Collision {
        verdict(self.snake.advanced().head(), self.snake.advanced().body())
    }

    /// The next movement brings the head onto the food.
    pub open spec fn eats(self) -> bool {
        self.food == Some(self.snake.advanced().head())
    }

    /// What the next movement tick comes to. A collision ends the round
    /// whether or not the head also reached the food.
    pub open spec fn outcome(self) -> TickOutcome {
        if self.collision() != Collision::Clear {
            TickOutcome::GameOver(self.collision())
        } else if self.eats() {
            TickOutcome::Growth
        } else {
            TickOutcome::Moved
        }
    }

    /// `after` is a round that one movement tick may leave behind. Only
    /// the place of new food after a growth is open.
    pub open spec fn ticks_to(self, after: RoundView) -> bool {
        match self.outcome() {
            TickOutcome::GameOver(_) => after == Self::initial(),
            TickOutcome::Moved => after == (RoundView {
                snake: self.snake.advanced(),
                food: self.food,
            }),
            TickOutcome::Growth => {
                &&& after.snake == self.snake.advanced().grown()
                &&& valid_placement(after.snake.cells, after.food)
            },
        }
    }

    /// `after` is a round that one food-refresh phase may leave behind.
    /// Active food stays; only the place of newly placed food is open.
    pub open spec fn refreshes_to(self, after: RoundView) -> bool {
        &&& after.snake == self.snake
        &&& self.food is Some ==> after.food == self.food
        &&& self.food is None ==> valid_placement(self.snake.cells, after.food)
    }

    /// `after` is a round that one frame may leave behind, in which
    /// `pressed` was asked for, a movement tick ran if `movement_due` and
    /// a food-refresh phase if `food_due`: steering comes first, movement
    /// second, the refresh last.
    pub open spec fn frames_to(
        self,
        pressed: Option<Direction>,
        movement_due: bool,
        food_due: bool,
        after: RoundView,
    ) -> bool {
        let steered = self.steered(pressed);
        if movement_due && food_due {
            exists|moved: RoundView| #[trigger] steered.ticks_to(moved) && moved.refreshes_to(after)
        } else if movement_due {
            steered.ticks_to(after)
        } else if food_due {
            steered.refreshes_to(after)
        } else {
            after == steered
        }
    }
}

/// A round of the game.
#[derive(Debug)]
pub struct Round {
    snake: Snake,
    food: Option<Cell>,
}

impl View for Round {
    type V = RoundView;

    closed spec fn view(&self) -> RoundView {
        RoundView { snake: self.snake@, food: self.food }
    }
}

impl Clone for Round {
    fn clone(&self) -> (copy: Round)
        ensures
            copy@ == self@,
    {
        Round { snake: self.snake.clone(), food: self.food }
    }
}

impl Round {
    /// The invariant of every round this module hands out.
    pub open spec fn wf(&self) -> bool {
        self@.wf()
    }

    /// A fresh round.
    pub fn new() -> (round: Round)
        ensures
            round.wf(),
            round@ == RoundView::initial(),
    {
        let round = Round {
            snake: Snake::new(Cell { x: START_X, y: START_Y }, Direction::Up),
            food: None,
        };
        proof {
            assert(round@.snake.cells.no_duplicates());
        }
        round
    }

    /// A round made of `snake` and `food`, if they fit together: the snake
    /// inside the arena and nowhere on itself, the food on a free cell.
    /// Otherwise `None`.
    pub fn from_parts(snake: Snake, food: Option<Cell>) -> (made: Option<Round>)
        ensures
            made is Some <==> (RoundView { snake: snake@, food }).wf(),
            made matches Some(round) ==> round.wf() && round@ == (RoundView { snake: snake@, food }),
    {
        let round = Round { snake, food };
        if round.check() {
            Some(round)
        } else {
            None
        }
    }

    /// Whether the invariant holds of this round.
    pub fn check(&self) -> (holds: bool)
        ensures
            holds == self.wf(),
    {
        let cells = self.snake.occupied_cells();
        if cells.len() == 0 || !cells_in_bounds(&cells) || !cells_distinct(&cells) {
            return false;
        }
        match self.food {
            Some(cell) => is_within_bounds(cell) && !contains_cell(&cells, cell),
            None => true,
        }
    }

    /// The snake of this round.
    pub fn snake(&self) -> (snake: &Snake)
        ensures
            snake@ == self@.snake,
    {
        &self.snake
    }

    /// The active food cell, if there is one.
    pub fn food(&self) -> (food: Option<Cell>)
        ensures
            food == self@.food,
    {
        self.food
    }

    /// The game-over phase: drops every segment and the food and starts
    /// afresh.
    pub fn reset(&mut self)
        ensures
            final(self).wf(),
            final(self)@ == RoundView::initial(),
    {
        *self = Round::new();
    }

    /// The input phase of a frame: hands the heading that was asked for,
    /// if any, to the snake.
    pub fn latch_input(&mut self, pressed: Option<Direction>)
        ensures
            final(self)@ == old(self)@.steered(pressed),
            final(self)@.food == old(self)@.food,
            final(self)@.snake.cells == old(self)@.snake.cells,
            final(self).wf() == old(self).wf(),
    {
        if let Some(requested) = pressed {
            self.snake.set_heading(requested);
        }
    }

    /// The food-refresh phase: where no food is active, places food on a
    /// free cell picked at random, or none if the board is full. Active
    /// food stays where it is.
    pub fn refresh_food(&mut self)
        ensures
            old(self)@.refreshes_to(final(self)@),
            old(self)@.food is Some ==> final(self)@ == old(self)@,
            old(self)@.food is None ==> final(self)@.snake == old(self)@.snake && valid_placement(
                old(self)@.snake.cells,
                final(self)@.food,
            ),
            old(self).wf() ==> final(self).wf(),
    {
        if self.food.is_none() {
            let occupied = self.snake.occupied_cells();
            self.food = place_food(&occupied);
        }
    }

    /// One movement tick. The snake moves; the move is classified; on a
    /// collision the round starts afresh and nothing is eaten. Otherwise,
    /// if the head reached the food, the food is eaten, the snake grows
    /// into the cell its tail just left, and new food is placed on a free
    /// cell picked at random, or none if the board is full.
    pub fn tick(&mut self) -> (outcome: TickOutcome)
        requires
            old(self).wf(),
        ensures
            final(self).wf(),
            outcome == old(self)@.outcome(),
            old(self)@.ticks_to(final(self)@),
    {
        let ghost before = self@;
        proof {
            assert(before.snake.cells[0].in_bounds());
        }
        let new_head = self.snake.advance();
        let body = self.snake.body();
        proof {
            assert(body@ =~= before.snake.cells.drop_last());
        }
        let hit = classify(new_head, &body);
        match hit {
            Collision::Clear => {},
            _ => {
                self.reset();
                return TickOutcome::GameOver(hit);
            },
        }
        let eaten = match self.food {
            Some(cell) => cell == new_head,
            None => false,
        };
        if eaten {
            self.snake.grow();
            let occupied = self.snake.occupied_cells();
            self.food = place_food(&occupied);
            proof {
                lemma_growth_keeps_wf(before, self.food);
            }
            TickOutcome::Growth
        } else {
            proof {
                lemma_move_keeps_wf(before);
            }
            TickOutcome::Moved
        }
    }

    /// One frame: latches the input, then runs a movement tick if one is
    /// due, then a food-refresh phase if one is due. Returns what the
    /// movement tick came to, if one ran.
    pub fn frame(
        &mut self,
        pressed: Option<Direction>,
        movement_due: bool,
        food_due: bool,
    ) -> (outcome: Option<TickOutcome>)
        requires
            old(self).wf(),
        ensures
            final(self).wf(),
            outcome == if movement_due {
                Some(old(self)@.steered(pressed).outcome())
            } else {
                None
            },
            old(self)@.frames_to(pressed, movement_due, food_due, final(self)@),
            !movement_due && !food_due ==> final(self)@ == old(self)@.steered(pressed),
    {
        self.latch_input(pressed);
        let outcome = if movement_due {
            Some(self.tick())
        } else {
            None
        };
        let ghost moved = self@;
        if food_due {
            self.refresh_food();
        }
        proof {
            if movement_due && food_due {
                assert(old(self)@.steered(pressed).ticks_to(moved) && moved.refreshes_to(self@));
            }
        }
        outcome
    }
}

/// A movement that runs into nothing and reaches no food keeps the round
/// well formed.
pub proof fn lemma_move_keeps_wf(round: RoundView)
    requires
        round.wf(),
        round.collision() == Collision::Clear,
        !round.eats(),
    ensures
        (RoundView { snake: round.snake.advanced(), food: round.food }).wf(),
{
    let cells = round.snake.cells;
    let moved = round.snake.advanced();
    let head = moved.head();
    assert(moved.body() =~= cells.drop_last());
    assert forall|k: int| 0 <= k < cells.len() - 1 implies cells[k] != head by {
        assert(cells.drop_last()[k] == cells[k]);
    }
    assert(moved.cells.no_duplicates());
    assert(all_in_bounds(moved.cells));
    if let Some(cell) = round.food {
        assert forall|k: int| 0 <= k < moved.cells.len() implies moved.cells[k] != cell by {
            if k > 0 {
                assert(cells[k - 1] != cell);
            }
        }
    }
}

/// A movement that runs into nothing and reaches the food makes the snake
/// one segment longer, the new head in front of all the cells it held,
/// and with new food on a free cell, or with none, the round stays well
/// formed.
pub proof fn lemma_growth_keeps_wf(round: RoundView, food: Option<Cell>)
    requires
        round.wf(),
        round.collision() == Collision::Clear,
        round.eats(),
        food matches Some(cell) ==> is_free(round.snake.advanced().grown().cells, cell),
    ensures
        round.snake.advanced().grown().cells == seq![round.snake.advanced().head()]
            + round.snake.cells,
        (RoundView { snake: round.snake.advanced().grown(), food }).wf(),
{
    let cells = round.snake.cells;
    let moved = round.snake.advanced();
    let head = moved.head();
    let grown = moved.grown();
    assert(moved.body() =~= cells.drop_last());
    assert(grown.cells =~= seq![head] + cells);
    assert(!cells.contains(head));
    assert(grown.cells.no_duplicates());
    assert(all_in_bounds(grown.cells));
}

/// A movement tick keeps a round well formed.
pub proof fn lemma_tick_keeps_wf(before: RoundView, after: RoundView)
    requires
        before.wf(),
        before.ticks_to(after),
    ensures
        after.wf(),
{
    match before.outcome() {
        TickOutcome::GameOver(_) => {
            assert(after.snake.cells.no_duplicates());
        },
        TickOutcome::Moved => {
            lemma_move_keeps_wf(before);
        },
        TickOutcome::Growth => {
            lemma_growth_keeps_wf(before, after.food);
        },
    }
}

/// A food-refresh phase keeps a round well formed, and leaves a round
/// with active food as it is.
pub proof fn lemma_refresh_keeps_wf(before: RoundView, after: RoundView)
    requires
        before.wf(),
        before.refreshes_to(after),
    ensures
        after.wf(),
        before.food is Some ==> after == before,
{
}

/// A frame keeps a round well formed.
pub proof fn lemma_frame_keeps_wf(
    before: RoundView,
    pressed: Option<Direction>,
    movement_due: bool,
    food_due: bool,
    after: RoundView,
)
    requires
        before.wf(),
        before.frames_to(pressed, movement_due, food_due, after),
    ensures
        after.wf(),
{
    let steered = before.steered(pressed);
    if movement_due && food_due {
        let moved = choose|moved: RoundView| #[trigger]
            steered.ticks_to(moved) && moved.refreshes_to(after);
        lemma_tick_keeps_wf(steered, moved);
        lemma_refresh_keeps_wf(moved, after);
    } else if movement_due {
        lemma_tick_keeps_wf(steered, after);
    } else if food_due {
        lemma_refresh_keeps_wf(steered, after);
    }
}

} // verus!
