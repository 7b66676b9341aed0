//! The snake: its segments from head to tail, its heading, and the moves
//! that change them.

use vstd::prelude::*;
use crate::direction::Direction;
use crate::grid::Cell;

verus! {

/// What a snake is, as plain mathematics.
pub struct SnakeView {
    /// The occupied cells, head first, tail last.
    pub cells: Seq<Cell>,
    /// The heading the next movement will follow.
    pub heading: Direction,
    /// Whether a movement has followed `heading` since it was last changed.
    pub committed: bool,
    /// The cell that the tail left in the latest movement, until a growth
    /// has used it.
    pub vacated: Option<Cell>,
}

impl SnakeView {
    /// A snake has at least its head.
    pub open spec fn wf(self) -> bool {
        self.cells.len() >= 1
    }

    /// A snake of one segment that has not moved yet.
    pub open spec fn starting(head: Cell, heading: Direction) -> SnakeView {
        SnakeView { cells: seq![head], heading, committed: false, vacated: None }
    }

    pub open spec fn head(self) -> Cell {
        self.cells[0]
    }

    pub open spec fn tail(self) -> Cell {
        self.cells[self.cells.len() - 1]
    }

    /// The segments behind the head.
    pub open spec fn body(self) -> Seq<Cell> {
        self.cells.subrange(1, self.cells.len() as int)
    }

    /// A request to turn is taken only once the current heading has been
    /// followed by a movement, and only for a quarter turn.
    pub open spec fn accepts(self, requested: Direction) -> bool {
        self.committed && requested != self.heading && requested != self.heading.reversed()
    }

    /// The snake after a request to turn towards `requested`.
    pub open spec fn turned(self, requested: Direction) -> SnakeView {
        if self.accepts(requested) {
            SnakeView { heading: requested, committed: false, ..self }
        } else {
            self
        }
    }

    /// The snake after the requests `requests`, made in that order with no
    /// movement in between.
    pub open spec fn turned_all(self, requests: Seq<Direction>) -> SnakeView
        decreases requests.len(),
    {
        if requests.len() == 0 {
            self
        } else {
            self.turned_all(requests.drop_last()).turned(requests.last())
        }
    }

    /// The step ahead of the head stays within `i32`.
    pub open spec fn can_advance(self) -> bool {
        self.head().can_step(self.heading)
    }

    /// The snake after one movement: a new head one step ahead of the old
    /// one, every other segment where its predecessor was, the old tail
    /// cell vacated.
    pub open spec fn advanced(self) -> SnakeView {
        SnakeView {
            cells: seq![self.head().neighbor(self.heading)] + self.cells.drop_last(),
            heading: self.heading,
            committed: true,
            vacated: Some(self.tail()),
        }
    }

    /// The snake after growing into the cell its tail vacated.
    pub open spec fn grown(self) -> SnakeView {
        SnakeView { cells: self.cells.push(self.vacated.unwrap()), vacated: None, ..self }
    }
}

/// However many turns are asked for between two movements, at most the
/// first quarter turn is taken: the heading never comes to point against
/// the one the snake last had, and a snake whose heading has not been
/// followed yet does not change at all.
pub proof fn lemma_turns_never_reverse(snake: SnakeView, requests: Seq<Direction>)
    ensures
        snake.turned_all(requests).heading != snake.heading.reversed(),
        snake.turned_all(requests).cells == snake.cells,
        snake.turned_all(requests).vacated == snake.vacated,
        !snake.committed ==> snake.turned_all(requests) == snake,
        snake.turned_all(requests).heading != snake.heading ==> snake.committed
            && !snake.turned_all(requests).committed,
    decreases requests.len(),
{
    if requests.len() > 0 {
        lemma_turns_never_reverse(snake, requests.drop_last());
    }
}

/// Whatever turns are asked for after a movement, the next movement does
/// not bring the head back to the cell it just came from.
pub proof fn lemma_never_steps_back(snake: SnakeView, requests: Seq<Direction>)
    requires
        snake.wf(),
        snake.head().in_bounds(),
    ensures
        snake.advanced().turned_all(requests).advanced().head() != snake.head(),
{
    let moved = snake.advanced();
    lemma_turns_never_reverse(moved, requests);
    let turned = moved.turned_all(requests);
    assert(turned.head() == moved.head());
}

/// In a movement every segment takes the place of the one before it and
/// the head steps ahead, so the length stays; a growth that follows gives
/// back the cell the tail left, so that the snake is one segment longer
/// and lies on its new head and all the cells it held before.
pub proof fn lemma_segments_follow(snake: SnakeView)
    requires
        snake.wf(),
    ensures
        snake.advanced().wf(),
        snake.advanced().cells.len() == snake.cells.len(),
        snake.advanced().head() == snake.head().neighbor(snake.heading),
        forall|i: int|
            1 <= i < snake.cells.len() ==> snake.advanced().cells[i] == snake.cells[i - 1],
        snake.advanced().vacated == Some(snake.tail()),
        snake.advanced().grown().cells.len() == snake.cells.len() + 1,
        snake.advanced().grown().cells == seq![snake.head().neighbor(snake.heading)] + snake.cells,
        forall|i: int|
            1 <= i <= snake.cells.len() ==> snake.advanced().grown().cells[i] == snake.cells[i - 1],
{
    assert(snake.advanced().grown().cells =~= seq![snake.head().neighbor(snake.heading)]
        + snake.cells);
}

/// The snake of the game.
#[derive(Debug)]
pub struct Snake {
    cells: Vec<Cell>,
    heading: Direction,
    committed: bool,
    vacated: Option<Cell>,
}

impl View for Snake {
    type V = SnakeView;

    closed spec fn view(&self) -> SnakeView {
        SnakeView {
            cells: self.cells@,
            heading: self.heading,
            committed: self.committed,
            vacated: self.vacated,
        }
    }
}

impl Clone for Snake {
    fn clone(&self) -> (copy: Snake)
        ensures
            copy@ == self@,
    {
        let cells = copy_from(&self.cells, 0);
        assert(cells@ =~= self.cells@);
        Snake { cells, heading: self.heading, committed: self.committed, vacated: self.vacated }
    }
}

impl Snake {
    /// The invariant of every snake this module hands out.
    pub open spec fn wf(&self) -> bool {
        self@.wf()
    }

    /// A snake of one segment at `head` that has not moved yet.
    pub fn new(head: Cell, heading: Direction) -> (snake: Snake)
        ensures
            snake.wf(),
            snake@ == SnakeView::starting(head, heading),
    {
        let mut cells: Vec<Cell> = Vec::new();
        cells.push(head);
        Snake { cells, heading, committed: false, vacated: None }
    }

    /// A snake that lies on `cells`, head first, and has not moved yet.
    /// There is no snake without a head: on an empty `cells` the answer is
    /// `None`.
    pub fn from_cells(cells: Vec<Cell>, heading: Direction) -> (made: Option<Snake>)
        ensures
            made is Some <==> cells@.len() >= 1,
            made matches Some(snake) ==> snake.wf() && snake@ == (SnakeView {
                cells: cells@,
                heading,
                committed: false,
                vacated: None,
            }),
    {
        if cells.len() == 0 {
            None
        } else {
            Some(Snake { cells, heading, committed: false, vacated: None })
        }
    }

    /// Asks the snake to turn towards `requested`. The request is taken
    /// only if the current heading has been followed by a movement and
    /// `requested` is neither that heading nor its reverse; otherwise it is
    /// dropped and nothing changes.
    pub fn set_heading(&mut self, requested: Direction)
        ensures
            final(self)@ == old(self)@.turned(requested),
            old(self)@.accepts(requested) ==> final(self)@.heading == requested
                && !final(self)@.committed,
            !old(self)@.committed || requested == old(self)@.heading || requested == old(
                self,
            )@.heading.reversed() ==> final(self)@ == old(self)@,
            final(self)@.cells == old(self)@.cells,
            final(self)@.vacated == old(self)@.vacated,
            final(self).wf() == old(self).wf(),
    {
        if self.committed && requested != self.heading && requested != self.heading.opposite() {
            self.heading = requested;
            self.committed = false;
        }
    }

    /// Moves the snake one step along its heading and returns the new head.
    /// The movement is made whatever lies there: whether it ran into a wall
    /// or into the snake itself is for the caller to find out.
    pub fn advance(&mut self) -> (new_head: Cell)
        requires
            old(self).wf(),
            old(self)@.can_advance(),
        ensures
            final(self).wf(),
            final(self)@ == old(self)@.advanced(),
            new_head == final(self)@.head(),
            new_head.x == old(self)@.head().x + old(self)@.heading.dx(),
            new_head.y == old(self)@.head().y + old(self)@.heading.dy(),
            final(self)@.cells.len() == old(self)@.cells.len(),
            forall|i: int|
                1 <= i < old(self)@.cells.len() ==> final(self)@.cells[i] == old(self)@.cells[i - 1],
    {
        let new_head = self.cells[0].step(self.heading);
        let left = self.cells.pop();
        self.cells.insert(0, new_head);
        self.vacated = left;
        self.committed = true;
        proof {
            assert(self.cells@ =~= seq![new_head] + old(self).cells@.drop_last());
        }
        new_head
    }

    /// Whether the latest movement left a cell for `grow` to take.
    pub fn can_grow(&self) -> (ready: bool)
        ensures
            ready == (self@.vacated is Some),
    {
        self.vacated.is_some()
    }

    /// Appends a segment at the cell that the tail left in the latest
    /// movement. That cell can be taken once: a second growth needs
    /// another movement first.
    pub fn grow(&mut self)
        requires
            old(self).wf(),
            old(self)@.vacated is Some,
        ensures
            final(self).wf(),
            final(self)@ == old(self)@.grown(),
            final(self)@.cells.len() == old(self)@.cells.len() + 1,
            final(self)@.tail() == old(self)@.vacated.unwrap(),
            forall|i: int|
                0 <= i < old(self)@.cells.len() ==> final(self)@.cells[i] == old(self)@.cells[i],
    {
        if let Some(cell) = self.vacated {
            self.cells.push(cell);
            self.vacated = None;
        }
    }

    /// A copy of the occupied cells, head first.
    pub fn occupied_cells(&self) -> (cells: Vec<Cell>)
        ensures
            cells@ == self@.cells,
    {
        let cells = copy_from(&self.cells, 0);
        assert(cells@ =~= self.cells@);
        cells
    }

    /// A copy of the segments behind the head, in order.
    pub fn body(&self) -> (cells: Vec<Cell>)
        requires
            self.wf(),
        ensures
            cells@ == self@.body(),
    {
        copy_from(&self.cells, 1)
    }

    pub fn head(&self) -> (cell: Cell)
        requires
            self.wf(),
        ensures
            cell == self@.head(),
    {
        self.cells[0]
    }

    /// Number of segments, head included.
    pub fn len(&self) -> (n: usize)
        ensures
            n == self@.cells.len(),
    {
        self.cells.len()
    }

    pub fn heading(&self) -> (d: Direction)
        ensures
            d == self@.heading,
    {
        self.heading
    }

    pub fn is_committed(&self) -> (committed: bool)
        ensures
            committed == self@.committed,
    {
        self.committed
    }

    /// The cell that the tail left in the latest movement, unless a growth
    /// has taken it.
    pub fn vacated(&self) -> (cell: Option<Cell>)
        ensures
            cell == self@.vacated,
    {
        self.vacated
    }

    /// Whether `advance` can be called: the step ahead of the head stays
    /// within `i32`.
    pub fn can_advance(&self) -> (fits: bool)
        requires
            self.wf(),
        ensures
            fits == self@.can_advance(),
    {
        let head = self.cells[0];
        match self.heading {
            Direction::Up => head.y < i32::MAX,
            Direction::Down => head.y > i32::MIN,
            Direction::Left => head.x > i32::MIN,
            Direction::Right => head.x < i32::MAX,
        }
    }
}

/// The cells of `cells` from position `start` on.
fn copy_from(cells: &Vec<Cell>, start: usize) -> (copy: Vec<Cell>)
    requires
        start <= cells@.len(),
    ensures
        copy@ == cells@.subrange(start as int, cells@.len() as int),
{
    let mut copy: Vec<Cell> = Vec::new();
    let mut i: usize = start;
    while i < cells.len()
        invariant
            start <= i <= cells@.len(),
            copy@ == cells@.subrange(start as int, i as int),
        decreases cells@.len() - i,
    {
        copy.push(cells[i]);
        i = i + 1;
    }
    copy
}

} // verus!
