use vstd::prelude::*;

verus! {

use vstd::arithmetic::div_mod::lemma_mod_bound;
use crate::rules::{
    Cell,
    cell_at,
    neighbors,
    rule,
    next_generation,
    lemma_wrap,
    lemma_flat_index,
    lemma_split_index,
};

/// 1 for `true`, 0 for `false`.
pub open spec fn bit(b: bool) -> nat {
    if b {
        1
    } else {
        0
    }
}

/// The `width` x `height` grid whose cell at `(row, col)` is alive exactly
/// when `alive(row, col)`.
pub open spec fn pattern(width: int, height: int, alive: spec_fn(int, int) -> bool) -> Seq<Cell> {
    Seq::new(
        (width * height) as nat,
        |i: int|
            if alive(i / width, i % width) {
                Cell::Alive
            } else {
                Cell::Dead
            },
    )
}

/// A 2 x 2 block occupying rows 1-2 and columns 1-2.
pub open spec fn block(width: int, height: int) -> Seq<Cell> {
    pattern(width, height, |row: int, col: int| (row == 1 || row == 2) && (col == 1 || col == 2))
}

/// A blinker lying flat: row 2, columns 1-3.
pub open spec fn blinker_horizontal(width: int, height: int) -> Seq<Cell> {
    pattern(width, height, |row: int, col: int| row == 2 && 1 <= col <= 3)
}

/// A blinker standing up: column 2, rows 1-3.
pub open spec fn blinker_vertical(width: int, height: int) -> Seq<Cell> {
    pattern(width, height, |row: int, col: int| col == 2 && 1 <= row <= 3)
}

/// A grid where only the last cell, at the bottom-right corner, is alive.
pub open spec fn last_cell_only(width: int, height: int) -> Seq<Cell> {
    pattern(width, height, |row: int, col: int| row == height - 1 && col == width - 1)
}

/// Reading a patterned grid at any wrapped position gives the pattern at the
/// wrapped coordinates.
proof fn lemma_pattern_at(width: int, height: int, alive: spec_fn(int, int) -> bool, row: int, col: int)
    requires
        width > 0,
        height > 0,
    ensures
        cell_at(pattern(width, height, alive), width, height, row, col) == (if alive(row % height, col % width) {
            Cell::Alive
        } else {
            Cell::Dead
        }),
{
    lemma_mod_bound(row, height);
    lemma_mod_bound(col, width);
    lemma_flat_index(width, height, row % height, col % width);
}

/// The neighbour count of an in-range cell of a patterned grid, with the
/// neighbouring rows and columns wrapped explicitly.
proof fn lemma_pattern_neighbors(width: int, height: int, alive: spec_fn(int, int) -> bool, row: int, col: int)
    requires
        0 <= row < height,
        0 <= col < width,
    ensures
        ({
            let up = if row == 0 {
                height - 1
            } else {
                row - 1
            };
            let down = if row + 1 == height {
                0
            } else {
                row + 1
            };
            let left = if col == 0 {
                width - 1
            } else {
                col - 1
            };
            let right = if col + 1 == width {
                0
            } else {
                col + 1
            };
            neighbors(pattern(width, height, alive), width, height, row, col) == bit(alive(up, left)) + bit(
                alive(up, col),
            ) + bit(alive(up, right)) + bit(alive(row, left)) + bit(alive(row, right)) + bit(
                alive(down, left),
            ) + bit(alive(down, col)) + bit(alive(down, right))
        }),
        pattern(width, height, alive)[row * width + col] == (if alive(row, col) {
            Cell::Alive
        } else {
            Cell::Dead
        }),
{
    lemma_wrap(row, height);
    lemma_wrap(col, width);
    lemma_flat_index(width, height, row, col);
    lemma_pattern_at(width, height, alive, row - 1, col - 1);
    lemma_pattern_at(width, height, alive, row - 1, col);
    lemma_pattern_at(width, height, alive, row - 1, col + 1);
    lemma_pattern_at(width, height, alive, row, col - 1);
    lemma_pattern_at(width, height, alive, row, col + 1);
    lemma_pattern_at(width, height, alive, row + 1, col - 1);
    lemma_pattern_at(width, height, alive, row + 1, col);
    lemma_pattern_at(width, height, alive, row + 1, col + 1);
}

/// A cell never has more than eight live neighbours.
pub proof fn lemma_neighbors_at_most_eight(cells: Seq<Cell>, width: int, height: int, row: int, col: int)
    ensures
        neighbors(cells, width, height, row, col) <= 8,
{
}

/// Counting wraps at the corner: with only the bottom-right cell alive, the
/// top-left cell of a grid of at least 3 x 3 has exactly one live neighbour.
pub proof fn lemma_corner_wraps(width: int, height: int)
    requires
        width >= 3,
        height >= 3,
    ensures
        neighbors(last_cell_only(width, height), width, height, 0, 0) == 1,
{
    lemma_pattern_neighbors(
        width,
        height,
        |row: int, col: int| row == height - 1 && col == width - 1,
        0,
        0,
    );
}

/// The transition is exact: a live cell with no live neighbours dies, and a
/// dead cell with exactly three live neighbours comes alive.
pub proof fn lemma_rule_exact(cells: Seq<Cell>, width: int, height: int, i: int)
    requires
        0 <= i < cells.len(),
    ensures
        cells[i] == Cell::Alive && neighbors(cells, width, height, i / width, i % width) == 0
            ==> next_generation(cells, width, height)[i] == Cell::Dead,
        cells[i] == Cell::Dead && neighbors(cells, width, height, i / width, i % width) == 3
            ==> next_generation(cells, width, height)[i] == Cell::Alive,
{
}

/// A cell of the block grid keeps its state.
proof fn lemma_block_cell(width: int, height: int, row: int, col: int)
    requires
        width >= 4,
        height >= 4,
        0 <= row < height,
        0 <= col < width,
    ensures
        rule(block(width, height)[row * width + col], neighbors(block(width, height), width, height, row, col))
            == block(width, height)[row * width + col],
{
    let alive = |row: int, col: int| (row == 1 || row == 2) && (col == 1 || col == 2);
    lemma_pattern_neighbors(width, height, alive, row, col);
}

/// A cell of the flat blinker takes the state of the upright one.
proof fn lemma_blinker_flat_cell(width: int, height: int, row: int, col: int)
    requires
        width >= 5,
        height >= 5,
        0 <= row < height,
        0 <= col < width,
    ensures
        rule(
            blinker_horizontal(width, height)[row * width + col],
            neighbors(blinker_horizontal(width, height), width, height, row, col),
        ) == blinker_vertical(width, height)[row * width + col],
{
    let flat = |row: int, col: int| row == 2 && 1 <= col <= 3;
    let upright = |row: int, col: int| col == 2 && 1 <= row <= 3;
    lemma_pattern_neighbors(width, height, flat, row, col);
    lemma_pattern_neighbors(width, height, upright, row, col);
    // Splitting on the row keeps each query small.
    if row <= 3 {
    } else {
    }
}

/// A cell of the upright blinker takes the state of the flat one.
proof fn lemma_blinker_upright_cell(width: int, height: int, row: int, col: int)
    requires
        width >= 5,
        height >= 5,
        0 <= row < height,
        0 <= col < width,
    ensures
        rule(
            blinker_vertical(width, height)[row * width + col],
            neighbors(blinker_vertical(width, height), width, height, row, col),
        ) == blinker_horizontal(width, height)[row * width + col],
{
    let flat = |row: int, col: int| row == 2 && 1 <= col <= 3;
    let upright = |row: int, col: int| col == 2 && 1 <= row <= 3;
    lemma_pattern_neighbors(width, height, flat, row, col);
    lemma_pattern_neighbors(width, height, upright, row, col);
    // Splitting on the column, then the row, keeps each query small.
    if col <= 3 {
        if row <= 3 {
        } else {
        }
    } else {
    }
}

/// The 2 x 2 block is a still life: on any grid of at least 4 x 4 a
/// generation leaves it unchanged.
pub proof fn lemma_block_is_still(width: int, height: int)
    requires
        width >= 4,
        height >= 4,
    ensures
        next_generation(block(width, height), width, height) == block(width, height),
{
    let cells = block(width, height);
    assert forall|i: int| 0 <= i < cells.len() implies #[trigger] next_generation(cells, width, height)[i]
        == cells[i] by {
        lemma_split_index(width, height, i);
        lemma_block_cell(width, height, i / width, i % width);
    }
    assert(next_generation(cells, width, height) =~= cells);
}

/// One generation turns the flat blinker upright and the upright one flat,
/// on any grid of at least 5 x 5.
pub proof fn lemma_blinker_turns(width: int, height: int)
    requires
        width >= 5,
        height >= 5,
    ensures
        next_generation(blinker_horizontal(width, height), width, height) == blinker_vertical(width, height),
        next_generation(blinker_vertical(width, height), width, height) == blinker_horizontal(width, height),
{
    let h = blinker_horizontal(width, height);
    let v = blinker_vertical(width, height);
    assert forall|i: int| 0 <= i < h.len() implies #[trigger] next_generation(h, width, height)[i] == v[i] by {
        lemma_split_index(width, height, i);
        lemma_blinker_flat_cell(width, height, i / width, i % width);
    }
    assert(next_generation(h, width, height) =~= v);
    assert forall|i: int| 0 <= i < v.len() implies #[trigger] next_generation(v, width, height)[i] == h[i] by {
        lemma_split_index(width, height, i);
        lemma_blinker_upright_cell(width, height, i / width, i % width);
    }
    assert(next_generation(v, width, height) =~= h);
}

/// The blinker has period exactly two: after one generation it differs from
/// where it started, after two it is back.
pub proof fn lemma_blinker_period_two(width: int, height: int)
    requires
        width >= 5,
        height >= 5,
    ensures
        next_generation(blinker_horizontal(width, height), width, height) != blinker_horizontal(width, height),
        next_generation(
            next_generation(blinker_horizontal(width, height), width, height),
            width,
            height,
        ) == blinker_horizontal(width, height),
{
    lemma_blinker_turns(width, height);
    let flat = |row: int, col: int| row == 2 && 1 <= col <= 3;
    let upright = |row: int, col: int| col == 2 && 1 <= row <= 3;
    lemma_pattern_neighbors(width, height, flat, 2, 1);
    lemma_pattern_neighbors(width, height, upright, 2, 1);
    assert(blinker_vertical(width, height)[2 * width + 1] != blinker_horizontal(width, height)[2 * width + 1]);
}

} // verus!
