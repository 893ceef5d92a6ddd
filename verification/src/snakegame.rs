//! The snake: an ordered body of grid cells, head first, that moves one step
//! at a time, wraps round the edges of the grid and stops at obstacles.

use crate::cells::{cells_of, list_as_slice, list_insert, list_new, list_pop, list_push};
use crate::grid::{
    cell_behind, contains_cell, in_grid, next_cell, step, walk, Blocked, Direction,
};
use crate::led::{
    after_render, blinking_on, frame_of, frame_view, LedMatrix, LedState, Presentation,
};
use arrayvec::ArrayVec;
use vstd::prelude::*;

verus! {

/// What a snake is: its cells from head to tail, its heading, and whether it
/// grows at its next move.
pub struct SnakeView {
    pub body: Seq<(usize, usize)>,
    pub direction: Direction,
    pub growing: bool,
}

/// The first `n` cells on the way back from `start` against direction `d`.
pub open spec fn trail(start: (usize, usize), d: Direction, n: nat) -> Seq<(usize, usize)> {
    Seq::new(n, |i: int| walk(start, d, -i))
}

impl SnakeView {
    /// The body fits the grid: at most 25 cells, each of them on the grid.
    pub open spec fn well_formed(self) -> bool {
        &&& self.body.len() <= 25
        &&& forall|i: int| 0 <= i < self.body.len() ==> in_grid(#[trigger] self.body[i])
    }

    /// No cell occurs twice in the body.
    pub open spec fn distinct(self) -> bool {
        self.body.no_duplicates()
    }

    /// The snake as `Snake::new` makes it: heading in direction `d`, its head
    /// at `start` wrapped onto the grid, `n` cells in all, each one step
    /// behind the one before it.
    pub open spec fn seeded(start: (usize, usize), d: Direction, n: nat) -> SnakeView {
        SnakeView { body: trail(start, d, n), direction: d, growing: false }
    }

    /// The cell that the head moves to next.
    pub open spec fn next_head(self) -> (usize, usize) {
        step(self.body[0], self.direction)
    }

    /// Whether an obstacle stands where the head moves to next.
    pub open spec fn blocked(self, obstacles: Seq<(usize, usize)>) -> bool {
        self.body.len() > 0 && obstacles.contains(self.next_head())
    }

    /// Whether the next move keeps the tail: growth is pending and the body
    /// has room for one more cell.
    pub open spec fn keeps_tail(self) -> bool {
        self.growing && self.body.len() < 25
    }

    /// The snake with a new heading.
    pub open spec fn turned(self, d: Direction) -> SnakeView {
        SnakeView { direction: d, ..self }
    }

    /// The snake with growth pending.
    pub open spec fn grown(self) -> SnakeView {
        SnakeView { growing: true, ..self }
    }

    /// The snake after one move. A snake without cells, and one whose next
    /// cell holds an obstacle, stays as it is. Otherwise the next cell becomes
    /// the head; the tail leaves unless growth is pending and there is room;
    /// pending growth is used up.
    pub open spec fn advance(self, obstacles: Seq<(usize, usize)>) -> SnakeView {
        if self.body.len() == 0 || obstacles.contains(self.next_head()) {
            self
        } else if self.keeps_tail() {
            SnakeView { body: seq![self.next_head()] + self.body, growing: false, ..self }
        } else {
            SnakeView {
                body: seq![self.next_head()] + self.body.drop_last(),
                growing: false,
                ..self
            }
        }
    }
}

/// The snake of the game. Its body holds at most 25 cells, one for each
/// cell of the grid, and every one of them lies on the grid.
pub struct Snake {
    body: ArrayVec<(usize, usize), 25>,
    direction: Direction,
    growing: bool,
}

impl View for Snake {
    type V = SnakeView;

    closed spec fn view(&self) -> SnakeView {
        SnakeView { body: cells_of(self.body), direction: self.direction, growing: self.growing }
    }
}

impl Snake {
    #[verifier::type_invariant]
    closed spec fn fits_grid(&self) -> bool {
        self@.well_formed()
    }

    /// A snake of `size` cells with its head at `start`, wrapped onto the
    /// grid, and the rest of its body trailing behind the head, against
    /// `direction` and round the edges of the grid.
    pub fn new(start: (usize, usize), direction: Direction, size: u8) -> (snake: Self)
        requires
            size <= 25,
        ensures
            snake@ == SnakeView::seeded(start, direction, size as nat),
            snake@.well_formed(),
    {
        let mut body = list_new();
        let mut i: u8 = 0;
        while i < size
            invariant
                i <= size <= 25,
                cells_of(body) == trail(start, direction, i as nat),
            decreases size - i,
        {
            let cell = cell_behind(start, direction, i);
            list_push(&mut body, cell);
            i += 1;
            assert(cells_of(body) =~= trail(start, direction, i as nat));
        }
        Snake { body, direction, growing: false }
    }

    /// Moves the snake one step in its heading, wrapping round the edges of
    /// the grid. Where the next cell is one of `obstacles` the snake stays as
    /// it is and the answer is `Blocked`. A snake without cells has nothing
    /// to move and stays as it is.
    pub fn move_snake(&mut self, obstacles: &[(usize, usize)]) -> (moved: Result<(), Blocked>)
        ensures
            final(self)@ == old(self)@.advance(obstacles@),
            moved is Err <==> old(self)@.blocked(obstacles@),
            final(self)@.well_formed(),
    {
        proof {
            use_type_invariant(&*self);
        }
        let cells = list_as_slice(&self.body);
        let len = cells.len();
        if len == 0 {
            return Ok(());
        }
        let candidate = next_cell(cells[0], self.direction);
        if contains_cell(obstacles, candidate) {
            return Err(Blocked);
        }
        if !(self.growing && len < 25) {
            list_pop(&mut self.body);
        }
        list_insert(&mut self.body, 0, candidate);
        self.growing = false;
        assert(self@.body =~= old(self)@.advance(obstacles@).body);
        Ok(())
    }

    /// The cells of the body, head first.
    pub fn body(&self) -> (cells: &[(usize, usize)])
        ensures
            cells@ == self@.body,
            self@.well_formed(),
    {
        proof {
            use_type_invariant(self);
        }
        list_as_slice(&self.body)
    }

    /// The number of cells of the body.
    pub fn len(&self) -> (len: usize)
        ensures
            len == self@.body.len(),
            len <= 25,
    {
        proof {
            use_type_invariant(self);
        }
        list_as_slice(&self.body).len()
    }

    /// The cell of the head; `None` for a snake without cells.
    pub fn head(&self) -> (head: Option<(usize, usize)>)
        ensures
            self@.body.len() == 0 ==> head is None,
            self@.body.len() > 0 ==> head == Some(self@.body[0]) && in_grid(self@.body[0]),
    {
        proof {
            use_type_invariant(self);
        }
        let cells = list_as_slice(&self.body);
        if cells.len() == 0 {
            None
        } else {
            Some(cells[0])
        }
    }

    /// The heading that the next move takes.
    pub fn direction(&self) -> (direction: Direction)
        ensures
            direction == self@.direction,
    {
        self.direction
    }

    /// Whether the next move that is not blocked keeps the tail, if there is
    /// room for it.
    pub fn growing(&self) -> (growing: bool)
        ensures
            growing == self@.growing,
    {
        self.growing
    }

    /// Makes the next move that is not blocked keep the tail, so that the
    /// body is one cell longer after it.
    pub fn grow(&mut self)
        ensures
            final(self)@ == old(self)@.grown(),
    {
        proof {
            use_type_invariant(&*self);
        }
        self.growing = true;
    }

    /// Sets the heading that the next move takes, whatever the heading was.
    pub fn set_direction(&mut self, direction: Direction)
        ensures
            final(self)@ == old(self)@.turned(direction),
    {
        proof {
            use_type_invariant(&*self);
        }
        self.direction = direction;
    }
}

/// The snake after a run of moves, one for each of `headings`: the heading is
/// set, then the snake moves.
pub open spec fn drive(
    v: SnakeView,
    headings: Seq<Direction>,
    obstacles: Seq<(usize, usize)>,
) -> SnakeView
    decreases headings.len(),
{
    if headings.len() == 0 {
        v
    } else {
        drive(v, headings.drop_last(), obstacles).turned(headings.last()).advance(obstacles)
    }
}

/// A move that nothing blocks puts the head one wrapped step further in the
/// heading, and that cell lies on the grid whatever the heading and wherever
/// the head was.
pub proof fn lemma_advance_head(v: SnakeView, obstacles: Seq<(usize, usize)>)
    requires
        v.body.len() > 0,
        !v.blocked(obstacles),
    ensures
        v.advance(obstacles).body.len() > 0,
        v.advance(obstacles).body[0] == step(v.body[0], v.direction),
        in_grid(v.advance(obstacles).body[0]),
{
}

/// A blocked move changes nothing: the body afterwards is the body before,
/// cell for cell, and growth that was pending stays pending.
pub proof fn lemma_blocked_stays(v: SnakeView, obstacles: Seq<(usize, usize)>)
    requires
        v.blocked(obstacles),
    ensures
        v.advance(obstacles) == v,
{
}

/// A move keeps a body that fits the grid fitting the grid.
pub proof fn lemma_advance_well_formed(v: SnakeView, obstacles: Seq<(usize, usize)>)
    requires
        v.well_formed(),
    ensures
        v.advance(obstacles).well_formed(),
{
    let w = v.advance(obstacles);
    assert forall|i: int| 0 <= i < w.body.len() implies in_grid(#[trigger] w.body[i]) by {
        if w.body != v.body && i > 0 {
            assert(w.body[i] == v.body[i - 1]);
        }
    }
}

/// Without growth pending, no run of moves changes the length of the body,
/// blocked or not and whatever the headings; nor does it leave growth pending.
pub proof fn lemma_moves_keep_length(
    v: SnakeView,
    headings: Seq<Direction>,
    obstacles: Seq<(usize, usize)>,
)
    requires
        !v.growing,
    ensures
        drive(v, headings, obstacles).body.len() == v.body.len(),
        !drive(v, headings, obstacles).growing,
    decreases headings.len(),
{
    if headings.len() > 0 {
        lemma_moves_keep_length(v, headings.drop_last(), obstacles);
    }
}

/// With growth pending, a move that nothing blocks makes the body one cell
/// longer and uses the growth up, as long as the body has a cell to move and
/// room for one more.
pub proof fn lemma_grow_adds_one(v: SnakeView, obstacles: Seq<(usize, usize)>)
    requires
        0 < v.body.len() < 25,
        !v.blocked(obstacles),
    ensures
        v.grown().advance(obstacles).body.len() == v.body.len() + 1,
        v.grown().advance(obstacles).body == seq![v.next_head()] + v.body,
        !v.grown().advance(obstacles).growing,
{
}

/// A new snake of at most five cells holds no cell twice.
pub proof fn lemma_seeded_distinct(start: (usize, usize), d: Direction, n: nat)
    requires
        n <= 5,
    ensures
        SnakeView::seeded(start, d, n).distinct(),
{
    let body = trail(start, d, n);
    assert forall|i: int, j: int| 0 <= i < body.len() && 0 <= j < body.len() && i != j
        implies body[i] != body[j] by {
        match d {
            Direction::Up => lemma_wrap_apart(start.0 + i, start.0 + j),
            Direction::Down => lemma_wrap_apart(start.0 - i, start.0 - j),
            Direction::Left => lemma_wrap_apart(start.1 + i, start.1 + j),
            Direction::Right => lemma_wrap_apart(start.1 - i, start.1 - j),
        }
    }
}

/// Two numbers less than five apart wrap to different places.
proof fn lemma_wrap_apart(a: int, b: int)
    requires
        a != b,
        -5 < a - b < 5,
    ensures
        a % 5 != b % 5,
{
    assert(a == 5 * (a / 5) + a % 5);
    assert(b == 5 * (b / 5) + b % 5);
}

/// A move keeps the cells of the body distinct where the cell that the head
/// moves to is none of the cells that stay.
pub proof fn lemma_advance_distinct(v: SnakeView, obstacles: Seq<(usize, usize)>)
    requires
        v.distinct(),
        v.body.len() > 0,
        v.keeps_tail() ==> !v.body.contains(v.next_head()),
        !v.keeps_tail() ==> !v.body.drop_last().contains(v.next_head()),
    ensures
        v.advance(obstacles).distinct(),
{
    let w = v.advance(obstacles);
    if w.body != v.body {
        let kept = if v.keeps_tail() { v.body } else { v.body.drop_last() };
        assert(w.body =~= seq![v.next_head()] + kept);
        assert forall|i: int, j: int| 0 <= i < w.body.len() && 0 <= j < w.body.len() && i != j
            implies w.body[i] != w.body[j] by {
            if i > 0 && j > 0 {
                assert(w.body[i] == v.body[i - 1]);
                assert(w.body[j] == v.body[j - 1]);
            } else if i == 0 {
                assert(kept[j - 1] == w.body[j]);
                assert(kept.contains(kept[j - 1]));
            } else {
                assert(kept[i - 1] == w.body[i]);
                assert(kept.contains(kept[i - 1]));
            }
        }
    }
}

/// How long the snake game holds each frame, in milliseconds.
pub const SNAKE_GAME_HOLD_MS: u32 = 300;

/// What one cell of the playing field shows when the field is rebuilt over
/// the grid `prior`: the snake's body is on; food that the snake does not
/// cover blinks, going on in the phase it had in `prior` if it blinked there
/// and starting lit if not; an obstacle under neither is on; every other cell
/// is off.
pub open spec fn scene_cell(
    prior: Seq<Seq<LedState>>,
    body: Seq<(usize, usize)>,
    food: Seq<(usize, usize)>,
    obstacles: Seq<(usize, usize)>,
    cell: (usize, usize),
) -> LedState {
    if body.contains(cell) {
        LedState::On
    } else if food.contains(cell) {
        blinking_on(prior[cell.0 as int][cell.1 as int])
    } else if obstacles.contains(cell) {
        LedState::On
    } else {
        LedState::Off
    }
}

/// The playing field as a grid, rebuilt over the grid `prior`.
pub open spec fn scene(
    prior: Seq<Seq<LedState>>,
    body: Seq<(usize, usize)>,
    food: Seq<(usize, usize)>,
    obstacles: Seq<(usize, usize)>,
) -> Seq<Seq<LedState>> {
    Seq::new(
        5,
        |r: int|
            Seq::new(
                5,
                |c: int| scene_cell(prior, body, food, obstacles, (r as usize, c as usize)),
            ),
    )
}

/// Food that the snake does not cover keeps flashing through rebuilds: where
/// it blinked before, a rebuild leaves its phase alone, and the frame
/// rendered after the next rebuild shows the opposite of the frame rendered
/// after this one.
pub proof fn lemma_food_flashes(
    prior: Seq<Seq<LedState>>,
    body: Seq<(usize, usize)>,
    next_body: Seq<(usize, usize)>,
    food: Seq<(usize, usize)>,
    obstacles: Seq<(usize, usize)>,
    cell: (usize, usize),
)
    requires
        in_grid(cell),
        food.contains(cell),
        !body.contains(cell),
        !next_body.contains(cell),
    ensures
        ({
            let (r, c) = (cell.0 as int, cell.1 as int);
            let first = scene(prior, body, food, obstacles);
            let second = scene(after_render(first), next_body, food, obstacles);
            &&& prior[r][c] is Blink ==> first[r][c] == prior[r][c]
            &&& !(prior[r][c] is Blink) ==> first[r][c] == LedState::Blink { toggle: true }
            &&& first[r][c] is Blink
            &&& second[r][c] is Blink
            &&& second[r][c]->toggle == !first[r][c]->toggle
            &&& frame_of(second)[r][c] == 1 - frame_of(first)[r][c]
        }),
{
}

/// The snake after the buttons were read: button A sets the heading down,
/// then button B sets it right.
pub open spec fn steered(v: SnakeView, button_a: bool, button_b: bool) -> SnakeView {
    let first = if button_a { v.turned(Direction::Down) } else { v };
    if button_b {
        first.turned(Direction::Right)
    } else {
        first
    }
}

/// What one round of the snake game gives: the frame to present, and
/// whether the snake moved or an obstacle blocked it.
#[derive(Clone, Copy, PartialEq, Eq, Debug)]
pub struct SnakeRound {
    pub shown: Presentation,
    pub moved: Result<(), Blocked>,
}

/// The snake game: a snake that moves every round, food that only decorates
/// the field, and obstacles that stop the snake.
pub struct SnakeGame {
    pub snake: Snake,
    /// Cells that blink; the snake passes over them.
    pub food: [(usize, usize); 2],
    /// Cells that the snake cannot enter.
    pub obstacles: [(usize, usize); 1],
}

impl SnakeGame {
    /// The game at its start: a snake of two cells in the middle of the grid,
    /// heading down; food in two corners; one obstacle.
    pub fn new() -> (game: Self)
        ensures
            game.snake@ == SnakeView::seeded((2usize, 2usize), Direction::Down, 2),
            game.food@ == seq![(0usize, 0usize), (4usize, 4usize)],
            game.obstacles@ == seq![(3usize, 1usize)],
    {
        let game = SnakeGame {
            snake: Snake::new((2, 2), Direction::Down, 2),
            food: [(0, 0), (4, 4)],
            obstacles: [(3, 1)],
        };
        assert(game.food@ =~= seq![(0usize, 0usize), (4usize, 4usize)]);
        assert(game.obstacles@ =~= seq![(3usize, 1usize)]);
        game
    }

    /// Rebuilds the matrix from the playing field: everything off, then the
    /// obstacles on, the food blinking and, over both, the snake on. Of what
    /// the matrix showed before, only the phase of blinking food stays, so
    /// that food goes on flashing from one round to the next.
    pub fn render_game_state(
        led_matrix: &mut LedMatrix,
        snake: &Snake,
        food: &[(usize, usize)],
        obstacles: &[(usize, usize)],
    )
        ensures
            final(led_matrix)@ == scene(old(led_matrix)@, snake@.body, food@, obstacles@),
    {
        let prior = *led_matrix;
        led_matrix.clear();
        led_matrix.paint(obstacles, LedState::On);
        led_matrix.paint_blinking(food, &prior);
        led_matrix.paint(snake.body(), LedState::On);
        assert(led_matrix@ =~~= scene(old(led_matrix)@, snake@.body, food@, obstacles@));
    }

    /// One round of the game. The buttons set the heading, the snake moves
    /// unless an obstacle blocks it, the matrix is rebuilt from the field and
    /// the frame is rendered, to be held for 300 ms.
    pub fn tick(
        &mut self,
        led_matrix: &mut LedMatrix,
        button_a: bool,
        button_b: bool,
    ) -> (round: SnakeRound)
        ensures
            final(self).snake@ == steered(old(self).snake@, button_a, button_b).advance(
                old(self).obstacles@,
            ),
            final(self).food == old(self).food,
            final(self).obstacles == old(self).obstacles,
            round.moved is Err <==> steered(old(self).snake@, button_a, button_b).blocked(
                old(self).obstacles@,
            ),
            frame_view(round.shown.frame) == frame_of(
                scene(
                    old(led_matrix)@,
                    final(self).snake@.body,
                    old(self).food@,
                    old(self).obstacles@,
                ),
            ),
            round.shown.hold_ms == 300,
            final(led_matrix)@ == after_render(
                scene(
                    old(led_matrix)@,
                    final(self).snake@.body,
                    old(self).food@,
                    old(self).obstacles@,
                ),
            ),
    {
        if button_a {
            self.snake.set_direction(Direction::Down);
        }
        if button_b {
            self.snake.set_direction(Direction::Right);
        }
        let moved = self.snake.move_snake(self.obstacles.as_slice());
        Self::render_game_state(
            led_matrix,
            &self.snake,
            self.food.as_slice(),
            self.obstacles.as_slice(),
        );
        let shown = Self::show(led_matrix, SNAKE_GAME_HOLD_MS);
        SnakeRound { shown, moved }
    }

    /// Renders the frame of `led_matrix`, to be held for `delay_ms`.
    pub fn show(led_matrix: &mut LedMatrix, delay_ms: u32) -> (shown: Presentation)
        ensures
            frame_view(shown.frame) == frame_of(old(led_matrix)@),
            shown.hold_ms == delay_ms,
            final(led_matrix)@ == after_render(old(led_matrix)@),
    {
        led_matrix.show(delay_ms)
    }
}

} // verus!
