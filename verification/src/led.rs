//! The LED matrix: a 5×5 grid of cells that are off, on or blinking, and the
//! frames rendered from it.

use crate::grid::{contains_cell, lemma_take_contains, next_cell, step, Blocked, Direction};
use vstd::prelude::*;

verus! {

/// What one cell of the grid shows.
#[derive(Clone, Copy, PartialEq, Eq, Debug, Structural)]
pub enum LedState {
    /// Flashing; `toggle` is the phase that the next frame shows.
    Blink { toggle: bool },
    On,
    Off,
}

/// A grid has five rows of five cells.
pub open spec fn is_grid(m: Seq<Seq<LedState>>) -> bool {
    &&& m.len() == 5
    &&& forall|r: int| 0 <= r < 5 ==> (#[trigger] m[r]).len() == 5
}

/// The brightness that a cell contributes to a frame.
pub open spec fn brightness(s: LedState) -> u8 {
    match s {
        LedState::Blink { toggle } => if toggle { 1u8 } else { 0u8 },
        LedState::On => 1u8,
        LedState::Off => 0u8,
    }
}

/// The state of a cell once a frame has been taken from it: a blinking cell
/// changes phase, the others stay.
pub open spec fn flipped(s: LedState) -> LedState {
    match s {
        LedState::Blink { toggle } => LedState::Blink { toggle: !toggle },
        LedState::On => LedState::On,
        LedState::Off => LedState::Off,
    }
}

/// The frame that a grid renders to.
pub open spec fn frame_of(m: Seq<Seq<LedState>>) -> Seq<Seq<u8>> {
    Seq::new(5, |r: int| Seq::new(5, |c: int| brightness(m[r][c])))
}

/// The grid after a frame has been rendered from it.
pub open spec fn after_render(m: Seq<Seq<LedState>>) -> Seq<Seq<LedState>> {
    Seq::new(5, |r: int| Seq::new(5, |c: int| flipped(m[r][c])))
}

/// The grid with every cell off.
pub open spec fn blank() -> Seq<Seq<LedState>> {
    Seq::new(5, |r: int| Seq::new(5, |c: int| LedState::Off))
}

/// The frame with every cell dark.
pub open spec fn dark() -> Seq<Seq<u8>> {
    Seq::new(5, |r: int| Seq::new(5, |c: int| 0u8))
}

/// The grid with the cell at row `x`, column `y` set to `s`; a coordinate
/// outside the grid leaves the grid as it is.
pub open spec fn with_cell(m: Seq<Seq<LedState>>, x: int, y: int, s: LedState) -> Seq<
    Seq<LedState>,
> {
    if 0 <= x < 5 && 0 <= y < 5 {
        m.update(x, m[x].update(y, s))
    } else {
        m
    }
}

/// A frame as rows of brightness values.
pub open spec fn frame_view(frame: [[u8; 5]; 5]) -> Seq<Seq<u8>> {
    Seq::new(5, |r: int| frame[r]@)
}

/// The grid with every cell of `cells` set to `s`, and the other cells as
/// they were. Cells outside the grid do not count.
pub open spec fn painted(m: Seq<Seq<LedState>>, cells: Seq<(usize, usize)>, s: LedState) -> Seq<
    Seq<LedState>,
> {
    Seq::new(
        5,
        |r: int|
            Seq::new(
                5,
                |c: int| if cells.contains((r as usize, c as usize)) { s } else { m[r][c] },
            ),
    )
}

/// What a cell that is to blink shows, given what it showed before: a cell
/// that blinked already keeps its phase, any other starts with its lit phase.
pub open spec fn blinking_on(before: LedState) -> LedState {
    if before is Blink {
        before
    } else {
        LedState::Blink { toggle: true }
    }
}

/// The grid with every cell of `cells` blinking, each in the phase that
/// `prior` gives it, and the other cells as they were. Cells outside the grid
/// do not count.
pub open spec fn painted_blinking(
    m: Seq<Seq<LedState>>,
    cells: Seq<(usize, usize)>,
    prior: Seq<Seq<LedState>>,
) -> Seq<Seq<LedState>> {
    Seq::new(
        5,
        |r: int|
            Seq::new(
                5,
                |c: int|
                    if cells.contains((r as usize, c as usize)) {
                        blinking_on(prior[r][c])
                    } else {
                        m[r][c]
                    },
            ),
    )
}

/// One frame and the time to hold it: what is handed to the display.
#[derive(Clone, Copy, PartialEq, Eq, Debug)]
pub struct Presentation {
    /// Brightness of each cell, by row and column: 0 or 1.
    pub frame: [[u8; 5]; 5],
    /// How long the display holds the frame, in milliseconds.
    pub hold_ms: u32,
}

/// A single LED.
pub struct Led {
    state: LedState,
}

impl View for Led {
    type V = LedState;

    closed spec fn view(&self) -> LedState {
        self.state
    }
}

impl Led {
    /// Creates a new LED in the obstacle state.
    pub fn new_obstacle() -> (led: Self)
        ensures
            led@ == LedState::On,
    {
        Self { state: LedState::On }
    }

    /// Creates a new LED in the off state.
    pub fn new() -> (led: Self)
        ensures
            led@ == LedState::Off,
    {
        Self { state: LedState::Off }
    }

    /// What the LED shows.
    pub fn state(&self) -> (state: LedState)
        ensures
            state == self@,
    {
        self.state
    }
}

/// The logical state of the display.
#[derive(Clone, Copy)]
pub struct LedMatrix {
    leds: [[LedState; 5]; 5],
}

impl View for LedMatrix {
    type V = Seq<Seq<LedState>>;

    closed spec fn view(&self) -> Seq<Seq<LedState>> {
        Seq::new(5, |r: int| self.leds[r]@)
    }
}

impl LedMatrix {
    /// Every matrix is a 5×5 grid.
    pub proof fn lemma_is_grid(self)
        ensures
            is_grid(self@),
    {
    }

    /// A matrix with every cell off.
    pub fn new() -> (m: Self)
        ensures
            m@ == blank(),
    {
        let m = LedMatrix { leds: [[LedState::Off; 5]; 5] };
        assert(m@ =~~= blank());
        m
    }

    /// Writes `state` to the cell at row `x`, column `y`. A coordinate outside
    /// the grid is dropped and the matrix stays as it was.
    pub fn set_state(&mut self, x: usize, y: usize, state: LedState)
        ensures
            final(self)@ == with_cell(old(self)@, x as int, y as int, state),
    {
        if x < 5 && y < 5 {
            self.leds[x][y] = state;
            assert(self@ =~~= with_cell(old(self)@, x as int, y as int, state));
        }
    }

    /// Switches the cell at row `x`, column `y` on.
    pub fn turn_on(&mut self, x: usize, y: usize)
        ensures
            final(self)@ == with_cell(old(self)@, x as int, y as int, LedState::On),
    {
        self.set_state(x, y, LedState::On);
    }

    /// Switches the cell at row `x`, column `y` off.
    pub fn turn_off(&mut self, x: usize, y: usize)
        ensures
            final(self)@ == with_cell(old(self)@, x as int, y as int, LedState::Off),
    {
        self.set_state(x, y, LedState::Off);
    }

    /// Makes the cell at row `x`, column `y` blink, starting with its lit phase.
    pub fn blink(&mut self, x: usize, y: usize)
        ensures
            final(self)@ == with_cell(
                old(self)@,
                x as int,
                y as int,
                (LedState::Blink { toggle: true }),
            ),
    {
        self.set_state(x, y, LedState::Blink { toggle: true });
    }

    /// Switches every cell off.
    pub fn clear(&mut self)
        ensures
            final(self)@ == blank(),
    {
        for i in 0..5usize
            invariant
                forall|r: int, c: int|
                    0 <= r < i && 0 <= c < 5 ==> (#[trigger] self.leds[r][c]) == LedState::Off,
        {
            for j in 0..5usize
                invariant
                    i < 5,
                    forall|r: int, c: int|
                        0 <= r < i && 0 <= c < 5 ==> (#[trigger] self.leds[r][c]) == LedState::Off,
                    forall|c: int|
                        0 <= c < j ==> (#[trigger] self.leds[i as int][c]) == LedState::Off,
            {
                self.leds[i][j] = LedState::Off;
            }
        }
        assert(self@ =~~= blank());
    }

    /// Renders the frame that the matrix shows now, and moves every blinking
    /// cell on to its other phase, so that the next frame shows it changed.
    pub fn render(&mut self) -> (frame: [[u8; 5]; 5])
        ensures
            frame_view(frame) == frame_of(old(self)@),
            final(self)@ == after_render(old(self)@),
    {
        let mut leds: [[u8; 5]; 5] = [[0; 5]; 5];
        for i in 0..5usize
            invariant
                forall|r: int, c: int|
                    0 <= r < i && 0 <= c < 5 ==> (#[trigger] leds[r][c]) == brightness(
                        old(self).leds[r][c],
                    ),
                forall|r: int, c: int|
                    0 <= r < i && 0 <= c < 5 ==> (#[trigger] self.leds[r][c]) == flipped(
                        old(self).leds[r][c],
                    ),
                forall|r: int, c: int|
                    i <= r < 5 && 0 <= c < 5 ==> (#[trigger] self.leds[r][c]) == old(
                        self,
                    ).leds[r][c],
        {
            for j in 0..5usize
                invariant
                    i < 5,
                    forall|r: int, c: int|
                        0 <= r < i && 0 <= c < 5 ==> (#[trigger] leds[r][c]) == brightness(
                            old(self).leds[r][c],
                        ),
                    forall|r: int, c: int|
                        0 <= r < i && 0 <= c < 5 ==> (#[trigger] self.leds[r][c]) == flipped(
                            old(self).leds[r][c],
                        ),
                    forall|r: int, c: int|
                        i < r < 5 && 0 <= c < 5 ==> (#[trigger] self.leds[r][c]) == old(
                            self,
                        ).leds[r][c],
                    forall|c: int|
                        0 <= c < j ==> (#[trigger] leds[i as int][c]) == brightness(
                            old(self).leds[i as int][c],
                        ),
                    forall|c: int|
                        0 <= c < j ==> (#[trigger] self.leds[i as int][c]) == flipped(
                            old(self).leds[i as int][c],
                        ),
                    forall|c: int|
                        j <= c < 5 ==> (#[trigger] self.leds[i as int][c]) == old(
                            self,
                        ).leds[i as int][c],
            {
                match self.leds[i][j] {
                    LedState::Blink { toggle } => {
                        leds[i][j] = if toggle { 1 } else { 0 };
                        self.leds[i][j] = LedState::Blink { toggle: !toggle };
                    },
                    LedState::On => {
                        leds[i][j] = 1;
                    },
                    LedState::Off => {
                        leds[i][j] = 0;
                    },
                }
            }
        }
        assert(frame_view(leds) =~~= frame_of(old(self)@));
        assert(self@ =~~= after_render(old(self)@));
        leds
    }

    /// Renders the current frame, as `render` does, and pairs it with the time
    /// for which the display is to hold it.
    pub fn show(&mut self, duration_ms: u32) -> (shown: Presentation)
        ensures
            frame_view(shown.frame) == frame_of(old(self)@),
            shown.hold_ms == duration_ms,
            final(self)@ == after_render(old(self)@),
    {
        let frame = self.render();
        Presentation { frame, hold_ms: duration_ms }
    }

    /// The state of the cell at row `x`, column `y`; `None` outside the grid.
    pub fn state(&self, x: usize, y: usize) -> (state: Option<LedState>)
        ensures
            x < 5 && y < 5 ==> state == Some(self@[x as int][y as int]),
            !(x < 5 && y < 5) ==> state is None,
    {
        if x < 5 && y < 5 {
            Some(self.leds[x][y])
        } else {
            None
        }
    }

    /// Sets every cell of `cells` to `state`. Cells outside the grid are
    /// dropped.
    pub fn paint(&mut self, cells: &[(usize, usize)], state: LedState)
        ensures
            final(self)@ == painted(old(self)@, cells@, state),
    {
        assert(self@ =~~= painted(old(self)@, cells@.take(0), state));
        let mut i: usize = 0;
        while i < cells.len()
            invariant
                i <= cells.len(),
                self@ == painted(old(self)@, cells@.take(i as int), state),
            decreases cells.len() - i,
        {
            let (x, y) = cells[i];
            self.set_state(x, y, state);
            proof {
                assert forall|r: int, c: int| 0 <= r < 5 && 0 <= c < 5 implies self@[r][c]
                    == painted(old(self)@, cells@.take(i + 1), state)[r][c] by {
                    lemma_take_contains(cells@, i as int, (r as usize, c as usize));
                }
                assert(self@ =~~= painted(old(self)@, cells@.take(i + 1), state));
            }
            i += 1;
        }
        assert(cells@.take(i as int) =~= cells@);
    }

    /// Makes every cell of `cells` blink. A cell that blinks in `prior` goes
    /// on in the phase it has there, so that repainting does not stop its
    /// flashing; any other cell starts with its lit phase. Cells outside the
    /// grid are dropped.
    pub fn paint_blinking(&mut self, cells: &[(usize, usize)], prior: &LedMatrix)
        ensures
            final(self)@ == painted_blinking(old(self)@, cells@, prior@),
    {
        assert(self@ =~~= painted_blinking(old(self)@, cells@.take(0), prior@));
        let mut i: usize = 0;
        while i < cells.len()
            invariant
                i <= cells.len(),
                self@ == painted_blinking(old(self)@, cells@.take(i as int), prior@),
            decreases cells.len() - i,
        {
            let (x, y) = cells[i];
            let state = match prior.state(x, y) {
                Some(LedState::Blink { toggle }) => LedState::Blink { toggle },
                _ => LedState::Blink { toggle: true },
            };
            self.set_state(x, y, state);
            proof {
                assert forall|r: int, c: int| 0 <= r < 5 && 0 <= c < 5 implies self@[r][c]
                    == painted_blinking(old(self)@, cells@.take(i + 1), prior@)[r][c] by {
                    lemma_take_contains(cells@, i as int, (r as usize, c as usize));
                }
                assert(self@ =~~= painted_blinking(old(self)@, cells@.take(i + 1), prior@));
            }
            i += 1;
        }
        assert(cells@.take(i as int) =~= cells@);
    }
}

/// A blinking cell shows its phase in one frame and the other phase in the
/// next: lit then dark, or dark then lit. After two frames it is as it was.
pub proof fn lemma_blink_alternates(m: Seq<Seq<LedState>>, r: int, c: int)
    requires
        0 <= r < 5,
        0 <= c < 5,
        m[r][c] is Blink,
    ensures
        frame_of(m)[r][c] == (if m[r][c]->toggle { 1u8 } else { 0u8 }),
        frame_of(after_render(m))[r][c] == (if m[r][c]->toggle { 0u8 } else { 1u8 }),
        after_render(after_render(m))[r][c] == m[r][c],
{
}

/// A cell that is on or off shows the same in every frame, and rendering
/// leaves it as it is.
pub proof fn lemma_steady_cell(m: Seq<Seq<LedState>>, r: int, c: int)
    requires
        0 <= r < 5,
        0 <= c < 5,
        !(m[r][c] is Blink),
    ensures
        frame_of(m)[r][c] == (if m[r][c] is On { 1u8 } else { 0u8 }),
        after_render(m)[r][c] == m[r][c],
        frame_of(after_render(m))[r][c] == frame_of(m)[r][c],
{
}

/// Every value of a frame is 0 or 1.
pub proof fn lemma_frame_is_binary(m: Seq<Seq<LedState>>, r: int, c: int)
    requires
        0 <= r < 5,
        0 <= c < 5,
    ensures
        frame_of(m)[r][c] == 0 || frame_of(m)[r][c] == 1,
{
}

/// A cleared matrix renders to the dark frame, and rendering leaves it
/// cleared, whatever it showed before it was cleared.
pub proof fn lemma_blank_renders_dark()
    ensures
        frame_of(blank()) == dark(),
        after_render(blank()) == blank(),
{
    assert(frame_of(blank()) =~~= dark());
    assert(after_render(blank()) =~~= blank());
}

/// How long the token game holds each frame, in milliseconds.
pub const LED_GAME_HOLD_MS: u32 = 100;

/// Whether an obstacle stands one step from `player` in direction `d`.
pub open spec fn token_blocked(
    player: (usize, usize),
    d: Direction,
    obstacles: Seq<(usize, usize)>,
) -> bool {
    obstacles.contains(step(player, d))
}

/// Where the token stands after an attempt to move it one step in direction
/// `d`: on the next cell, or where it stood if an obstacle holds that cell.
pub open spec fn token_after(
    player: (usize, usize),
    d: Direction,
    obstacles: Seq<(usize, usize)>,
) -> (usize, usize) {
    if token_blocked(player, d, obstacles) {
        player
    } else {
        step(player, d)
    }
}

/// The grid after that attempt: a token that moves leaves its cell off and
/// blinks on the next one, starting lit.
pub open spec fn grid_after_move(
    m: Seq<Seq<LedState>>,
    player: (usize, usize),
    d: Direction,
    obstacles: Seq<(usize, usize)>,
) -> Seq<Seq<LedState>> {
    if token_blocked(player, d, obstacles) {
        m
    } else {
        with_cell(
            with_cell(m, player.0 as int, player.1 as int, LedState::Off),
            step(player, d).0 as int,
            step(player, d).1 as int,
            (LedState::Blink { toggle: true }),
        )
    }
}

/// Where the token stands after the buttons were read: button A asks for a
/// step down, then button B for a step right.
pub open spec fn token_after_buttons(
    player: (usize, usize),
    button_a: bool,
    button_b: bool,
    obstacles: Seq<(usize, usize)>,
) -> (usize, usize) {
    let first = if button_a { token_after(player, Direction::Down, obstacles) } else { player };
    if button_b {
        token_after(first, Direction::Right, obstacles)
    } else {
        first
    }
}

/// The grid after the buttons were read, before the frame is rendered.
pub open spec fn grid_after_buttons(
    m: Seq<Seq<LedState>>,
    player: (usize, usize),
    button_a: bool,
    button_b: bool,
    obstacles: Seq<(usize, usize)>,
) -> Seq<Seq<LedState>> {
    let first = if button_a { token_after(player, Direction::Down, obstacles) } else { player };
    let m1 = if button_a { grid_after_move(m, player, Direction::Down, obstacles) } else { m };
    if button_b {
        grid_after_move(m1, first, Direction::Right, obstacles)
    } else {
        m1
    }
}

/// What one round of the token game gives: the frame to present, and for
/// each button whether the step that it asked for was blocked.
#[derive(Clone, Copy, PartialEq, Eq, Debug)]
pub struct TokenRound {
    pub shown: Presentation,
    /// Button A was pressed and an obstacle stopped the step down.
    pub blocked_a: bool,
    /// Button B was pressed and an obstacle stopped the step right.
    pub blocked_b: bool,
}

/// The token game: one blinking token that the two buttons move among fixed
/// obstacles.
pub struct LedGame {
    /// The cell that the token stands on.
    pub player: (usize, usize),
    /// The cells that the token cannot enter.
    pub obstacles: [(usize, usize); 1],
}

impl LedGame {
    /// The game at its start: the token in the middle of the grid, and one
    /// obstacle.
    pub fn try_new() -> (game: Self)
        ensures
            game.player == (2usize, 2usize),
            game.obstacles@ == seq![(3usize, 1usize)],
    {
        let game = LedGame { player: (2, 2), obstacles: [(3, 1)] };
        assert(game.obstacles@ =~= seq![(3usize, 1usize)]);
        game
    }

    /// Paints the start of the game onto `matrix`: the obstacles on, then the
    /// token blinking.
    pub fn start(&self, matrix: &mut LedMatrix)
        ensures
            final(matrix)@ == with_cell(
                painted(old(matrix)@, self.obstacles@, LedState::On),
                self.player.0 as int,
                self.player.1 as int,
                (LedState::Blink { toggle: true }),
            ),
    {
        matrix.paint(self.obstacles.as_slice(), LedState::On);
        matrix.blink(self.player.0, self.player.1);
    }

    /// Tries to move the token one step in direction `d`, wrapping round the
    /// edges of the grid. Where an obstacle holds the next cell, the token
    /// and the matrix stay as they are and the answer is `Blocked`. Otherwise
    /// the token's cell goes off and the next cell blinks.
    pub fn try_move(&mut self, matrix: &mut LedMatrix, d: Direction) -> (moved: Result<
        (),
        Blocked,
    >)
        ensures
            moved is Err <==> token_blocked(old(self).player, d, old(self).obstacles@),
            final(self).player == token_after(old(self).player, d, old(self).obstacles@),
            final(self).obstacles == old(self).obstacles,
            final(matrix)@ == grid_after_move(
                old(matrix)@,
                old(self).player,
                d,
                old(self).obstacles@,
            ),
    {
        let next = next_cell(self.player, d);
        if contains_cell(self.obstacles.as_slice(), next) {
            return Err(Blocked);
        }
        matrix.turn_off(self.player.0, self.player.1);
        self.player = next;
        matrix.blink(self.player.0, self.player.1);
        Ok(())
    }

    /// One round of the game. Button A, if pressed, asks for a step down;
    /// then button B, if pressed, for a step right, from where the token
    /// then stands; a blocked step is skipped and reported. Then the frame is
    /// rendered, to be held for 100 ms.
    pub fn tick(
        &mut self,
        matrix: &mut LedMatrix,
        button_a: bool,
        button_b: bool,
    ) -> (round: TokenRound)
        ensures
            final(self).player == token_after_buttons(
                old(self).player,
                button_a,
                button_b,
                old(self).obstacles@,
            ),
            final(self).obstacles == old(self).obstacles,
            round.blocked_a == (button_a && token_blocked(
                old(self).player,
                Direction::Down,
                old(self).obstacles@,
            )),
            round.blocked_b == (button_b && token_blocked(
                token_after_buttons(old(self).player, button_a, false, old(self).obstacles@),
                Direction::Right,
                old(self).obstacles@,
            )),
            frame_view(round.shown.frame) == frame_of(
                grid_after_buttons(
                    old(matrix)@,
                    old(self).player,
                    button_a,
                    button_b,
                    old(self).obstacles@,
                ),
            ),
            round.shown.hold_ms == 100,
            final(matrix)@ == after_render(
                grid_after_buttons(
                    old(matrix)@,
                    old(self).player,
                    button_a,
                    button_b,
                    old(self).obstacles@,
                ),
            ),
    {
        let mut blocked_a = false;
        if button_a {
            blocked_a = self.try_move(matrix, Direction::Down).is_err();
        }
        let mut blocked_b = false;
        if button_b {
            blocked_b = self.try_move(matrix, Direction::Right).is_err();
        }
        let shown = matrix.show(LED_GAME_HOLD_MS);
        TokenRound { shown, blocked_a, blocked_b }
    }
}

} // verus!
