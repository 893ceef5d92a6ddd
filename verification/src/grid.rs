//! Movement on the grid: headings, the wrapped step from one cell to the
//! next, and membership of a cell in a list of cells.

use vstd::prelude::*;

verus! {

/// The direction of the next step. Rows grow downwards, columns to the right.
#[derive(Clone, Copy, PartialEq, Eq, Debug, Structural)]
pub enum Direction {
    Up,
    Down,
    Left,
    Right,
}

/// The answer of a move that an obstacle stopped.
#[derive(Clone, Copy, PartialEq, Eq, Debug, Structural)]
pub struct Blocked;

/// Whether a cell lies on the grid.
pub open spec fn in_grid(cell: (usize, usize)) -> bool {
    cell.0 < 5 && cell.1 < 5
}

/// The cell reached from `cell` by `n` steps in direction `d`, leaving the
/// grid on one edge and entering it again on the opposite one. A negative `n`
/// walks backwards.
pub open spec fn walk(cell: (usize, usize), d: Direction, n: int) -> (usize, usize) {
    match d {
        Direction::Up => (((cell.0 - n) % 5) as usize, (cell.1 % 5) as usize),
        Direction::Down => (((cell.0 + n) % 5) as usize, (cell.1 % 5) as usize),
        Direction::Left => ((cell.0 % 5) as usize, ((cell.1 - n) % 5) as usize),
        Direction::Right => ((cell.0 % 5) as usize, ((cell.1 + n) % 5) as usize),
    }
}

/// The cell one step from `cell` in direction `d`.
pub open spec fn step(cell: (usize, usize), d: Direction) -> (usize, usize) {
    walk(cell, d, 1)
}

/// A step from any cell, in any direction, ends on the grid. A step down from
/// the last row ends in the first row of the same column, and a step right
/// from the last column in the first column of the same row.
pub proof fn lemma_step_wraps(cell: (usize, usize), d: Direction)
    ensures
        in_grid(step(cell, d)),
        cell.0 == 4 && cell.1 < 5 ==> step(cell, Direction::Down) == (0usize, cell.1),
        cell.1 == 4 && cell.0 < 5 ==> step(cell, Direction::Right) == (cell.0, 0usize),
        cell.0 == 0 && cell.1 < 5 ==> step(cell, Direction::Up) == (4usize, cell.1),
        cell.1 == 0 && cell.0 < 5 ==> step(cell, Direction::Left) == (cell.0, 4usize),
{
}

/// Away from the edge that it heads for, a step changes one coordinate by one.
pub proof fn lemma_step_inside(cell: (usize, usize))
    requires
        in_grid(cell),
    ensures
        cell.0 < 4 ==> step(cell, Direction::Down) == ((cell.0 + 1) as usize, cell.1),
        cell.1 < 4 ==> step(cell, Direction::Right) == (cell.0, (cell.1 + 1) as usize),
        cell.0 > 0 ==> step(cell, Direction::Up) == ((cell.0 - 1) as usize, cell.1),
        cell.1 > 0 ==> step(cell, Direction::Left) == (cell.0, (cell.1 - 1) as usize),
{
}

/// Reducing both operands first does not change a wrapped sum or difference.
proof fn lemma_wrap_reduced(a: int, n: int)
    ensures
        ((a % 5) + (n % 5)) % 5 == (a + n) % 5,
        ((a % 5) + 5 - (n % 5)) % 5 == (a - n) % 5,
{
    let qa = a / 5;
    let qn = n / 5;
    assert(a == 5 * qa + a % 5);
    assert(n == 5 * qn + n % 5);
    assert(a + n == 5 * (qa + qn) + ((a % 5) + (n % 5)));
    assert(a - n == 5 * (qa - qn - 1) + ((a % 5) + 5 - (n % 5)));
}

/// The cell `n` steps from `cell` against direction `d`.
pub fn cell_behind(cell: (usize, usize), d: Direction, n: u8) -> (behind: (usize, usize))
    ensures
        behind == walk(cell, d, -(n as int)),
{
    let row: usize = cell.0 % 5;
    let col: usize = cell.1 % 5;
    let back: usize = (n % 5) as usize;
    proof {
        lemma_wrap_reduced(cell.0 as int, n as int);
        lemma_wrap_reduced(cell.1 as int, n as int);
    }
    match d {
        Direction::Up => ((row + back) % 5, col),
        Direction::Down => ((row + 5 - back) % 5, col),
        Direction::Left => (row, (col + back) % 5),
        Direction::Right => (row, (col + 5 - back) % 5),
    }
}

/// The cell one step from `cell` in direction `d`.
pub fn next_cell(cell: (usize, usize), d: Direction) -> (next: (usize, usize))
    ensures
        next == step(cell, d),
{
    let row: usize = cell.0 % 5;
    let col: usize = cell.1 % 5;
    match d {
        Direction::Up => ((row + 4) % 5, col),
        Direction::Down => ((row + 1) % 5, col),
        Direction::Left => (row, (col + 4) % 5),
        Direction::Right => (row, (col + 1) % 5),
    }
}

/// Whether `cell` is one of `cells`.
pub fn contains_cell(cells: &[(usize, usize)], cell: (usize, usize)) -> (found: bool)
    ensures
        found == cells@.contains(cell),
{
    let mut i: usize = 0;
    while i < cells.len()
        invariant
            i <= cells.len(),
            forall|k: int| 0 <= k < i ==> cells@[k] != cell,
        decreases cells.len() - i,
    {
        if cells[i].0 == cell.0 && cells[i].1 == cell.1 {
            return true;
        }
        i += 1;
    }
    false
}

/// A cell is among the first `i + 1` of a list exactly if it is among the
/// first `i` or is the one at position `i`.
pub proof fn lemma_take_contains(cells: Seq<(usize, usize)>, i: int, cell: (usize, usize))
    requires
        0 <= i < cells.len(),
    ensures
        cells.take(i + 1).contains(cell) <==> cells.take(i).contains(cell) || cells[i] == cell,
{
    let shorter = cells.take(i);
    let longer = cells.take(i + 1);
    if longer.contains(cell) {
        let k = choose|k: int| 0 <= k < longer.len() && longer[k] == cell;
        if k < i {
            assert(shorter[k] == cell);
        }
    }
    if shorter.contains(cell) {
        let k = choose|k: int| 0 <= k < shorter.len() && shorter[k] == cell;
        assert(longer[k] == cell);
    }
    if cells[i] == cell {
        assert(longer[i] == cell);
    }
}

} // verus!
