use vstd::prelude::*;

verus! {

use vstd::arithmetic::div_mod::lemma_fundamental_div_mod_converse;

/// The state of one cell of the grid.
#[derive(Clone, Copy, Debug, PartialEq, Eq, Structural)]
pub enum Cell {
    Dead,
    Alive,
}

/// What a cell adds to its neighbours' count: 1 when alive, 0 when dead.
pub open spec fn live(c: Cell) -> nat {
    if c == Cell::Alive {
        1
    } else {
        0
    }
}

/// The cell at `(row, col)` of a `width` x `height` torus stored row by row:
/// both coordinates wrap around, so any integer pair names a cell.
pub open spec fn cell_at(cells: Seq<Cell>, width: int, height: int, row: int, col: int) -> Cell {
    cells[(row % height) * width + col % width]
}

/// The number of live cells among the eight toroidal neighbours of `(row, col)`.
pub open spec fn neighbors(cells: Seq<Cell>, width: int, height: int, row: int, col: int) -> nat {
    live(cell_at(cells, width, height, row - 1, col - 1))
        + live(cell_at(cells, width, height, row - 1, col))
        + live(cell_at(cells, width, height, row - 1, col + 1))
        + live(cell_at(cells, width, height, row, col - 1))
        + live(cell_at(cells, width, height, row, col + 1))
        + live(cell_at(cells, width, height, row + 1, col - 1))
        + live(cell_at(cells, width, height, row + 1, col))
        + live(cell_at(cells, width, height, row + 1, col + 1))
}

/// The Game of Life transition: a live cell survives with two or three live
/// neighbours and dies otherwise; a dead cell is born with exactly three.
pub open spec fn rule(cell: Cell, n: nat) -> Cell {
    match cell {
        Cell::Alive => if n == 2 || n == 3 {
            Cell::Alive
        } else {
            Cell::Dead
        },
        Cell::Dead => if n == 3 {
            Cell::Alive
        } else {
            Cell::Dead
        },
    }
}

/// The generation that follows `cells`: every cell gets the rule applied to
/// its state and neighbour count in `cells`.
pub open spec fn next_generation(cells: Seq<Cell>, width: int, height: int) -> Seq<Cell> {
    Seq::new(
        cells.len(),
        |i: int| rule(cells[i], neighbors(cells, width, height, i / width, i % width)),
    )
}

/// The starting state of the cell at flat index `i`.
pub open spec fn seeded(i: int) -> Cell {
    if i % 2 == 0 || i % 7 == 0 {
        Cell::Alive
    } else {
        Cell::Dead
    }
}

/// The seeded starting pattern of a grid of `n` cells.
pub open spec fn seeded_pattern(n: nat) -> Seq<Cell> {
    Seq::new(n, |i: int| seeded(i))
}

/// The next state of a cell in the given state with `live_neighbors` live neighbours.
pub fn next_state(cell: Cell, live_neighbors: u8) -> (r: Cell)
    ensures
        r == rule(cell, live_neighbors as nat),
{
    match cell {
        Cell::Alive => if live_neighbors < 2 {
            Cell::Dead
        } else if live_neighbors == 2 || live_neighbors == 3 {
            Cell::Alive
        } else {
            Cell::Dead
        },
        Cell::Dead => if live_neighbors == 3 {
            Cell::Alive
        } else {
            Cell::Dead
        },
    }
}

/// The starting state of the cell at flat index `i`.
pub fn seeded_cell(i: usize) -> (r: Cell)
    ensures
        r == seeded(i as int),
{
    if i % 2 == 0 || i % 7 == 0 {
        Cell::Alive
    } else {
        Cell::Dead
    }
}

/// Stepping one place back or forward on a cycle of length `n`.
pub proof fn lemma_wrap(x: int, n: int)
    requires
        0 <= x < n,
    ensures
        x % n == x,
        (x - 1) % n == (if x == 0 {
            n - 1
        } else {
            x - 1
        }),
        (x + 1) % n == (if x + 1 == n {
            0
        } else {
            x + 1
        }),
{
    lemma_fundamental_div_mod_converse(x, n, 0, x);
    if x == 0 {
        lemma_fundamental_div_mod_converse(x - 1, n, -1, n - 1);
    } else {
        lemma_fundamental_div_mod_converse(x - 1, n, 0, x - 1);
    }
    if x + 1 == n {
        lemma_fundamental_div_mod_converse(x + 1, n, 1, 0);
    } else {
        lemma_fundamental_div_mod_converse(x + 1, n, 0, x + 1);
    }
}

/// The flat index `row * width + col` of an in-range cell lies inside the grid
/// and gives back its row and column.
pub proof fn lemma_flat_index(width: int, height: int, row: int, col: int)
    requires
        0 <= row < height,
        0 <= col < width,
    ensures
        0 <= row * width + col < width * height,
        (row * width + col) / width == row,
        (row * width + col) % width == col,
{
    assert(0 <= row * width + col < width * height) by (nonlinear_arith)
        requires
            0 <= row < height,
            0 <= col < width,
    ;
    lemma_fundamental_div_mod_converse(row * width + col, width, row, col);
}

/// A flat index inside the grid splits into an in-range row and column.
pub proof fn lemma_split_index(width: int, height: int, i: int)
    requires
        0 < width,
        0 <= i < width * height,
    ensures
        0 <= i / width < height,
        0 <= i % width < width,
        (i / width) * width + i % width == i,
{
    let q = i / width;
    let r = i % width;
    assert(i == width * q + r && 0 <= r < width) by {
        vstd::arithmetic::div_mod::lemma_fundamental_div_mod(i, width);
        vstd::arithmetic::div_mod::lemma_mod_bound(i, width);
    }
    assert(0 <= q < height) by (nonlinear_arith)
        requires
            i == width * q + r,
            0 <= r < width,
            0 <= i < width * height,
    ;
    assert(q * width == width * q) by (nonlinear_arith);
}

} // verus!
