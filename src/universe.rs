use vstd::prelude::*;

verus! {

use crate::geometry::{
    CellSize,
    Rect,
    Line,
    rect_of,
    cell_size_of,
    grid_lines_of,
    cell_size,
    cell_rect,
    grid_lines,
};
use crate::rules::{
    Cell,
    live,
    neighbors,
    next_generation,
    seeded_pattern,
    next_state,
    seeded_cell,
    lemma_wrap,
    lemma_flat_index,
    lemma_split_index,
};

/// The side of the square grid that `Universe::new` builds.
pub const GRID_SIDE: i32 = 64;

/// What the renderer draws for one generation: a rectangle per live cell,
/// row by row, and the grid lines.
pub struct Frame {
    pub alive: Vec<Rect>,
    pub lines: Vec<Line>,
}

/// The rectangles of the live cells among the first `n` cells of a grid with
/// `width` columns, in row-major order.
pub open spec fn alive_rects_of(cells: Seq<Cell>, width: int, size: CellSize, n: int) -> Seq<Rect>
    decreases n,
{
    if n <= 0 {
        Seq::empty()
    } else {
        let before = alive_rects_of(cells, width, size, n - 1);
        if cells[n - 1] == Cell::Alive {
            before.push(rect_of((n - 1) / width, (n - 1) % width, size))
        } else {
            before
        }
    }
}

/// A Game of Life on a `width` x `height` torus, stored row by row, together
/// with the size in pixels of the surface it is drawn on.
pub struct Universe {
    width: i32,
    height: i32,
    pixel_width: u32,
    pixel_height: u32,
    cells: Vec<Cell>,
}

impl Universe {
    /// Number of columns.
    pub closed spec fn spec_width(&self) -> int {
        self.width as int
    }

    /// Number of rows.
    pub closed spec fn spec_height(&self) -> int {
        self.height as int
    }

    /// Width of the drawing surface in pixels.
    pub closed spec fn spec_pixel_width(&self) -> nat {
        self.pixel_width as nat
    }

    /// Height of the drawing surface in pixels.
    pub closed spec fn spec_pixel_height(&self) -> nat {
        self.pixel_height as nat
    }

    /// The cells, row by row: the cell at `(row, col)` is at `row * width + col`.
    pub closed spec fn spec_cells(&self) -> Seq<Cell> {
        self.cells@
    }

    /// Both dimensions are positive and there is exactly one cell per position.
    pub open spec fn wf(&self) -> bool {
        &&& self.spec_width() > 0
        &&& self.spec_height() > 0
        &&& self.spec_cells().len() == self.spec_width() * self.spec_height()
    }

    /// A `width` x `height` grid in the seeded pattern: the cell at flat index
    /// `i` is alive exactly when `i` is a multiple of 2 or of 7.
    pub fn with_size(width: i32, height: i32, pixel_width: u32, pixel_height: u32) -> (r: Universe)
        requires
            width > 0,
            height > 0,
            width * height <= usize::MAX,
        ensures
            r.wf(),
            r.spec_width() == width,
            r.spec_height() == height,
            r.spec_pixel_width() == pixel_width,
            r.spec_pixel_height() == pixel_height,
            r.spec_cells() == seeded_pattern((width * height) as nat),
    {
        let n: usize = (width as usize) * (height as usize);
        let mut cells: Vec<Cell> = Vec::with_capacity(n);
        for i in 0..n
            invariant
                cells@ == seeded_pattern(i as nat),
        {
            cells.push(seeded_cell(i));
            assert(cells@ =~= seeded_pattern((i + 1) as nat));
        }
        Universe { width, height, pixel_width, pixel_height, cells }
    }

    /// A 64 x 64 grid in the seeded pattern, drawn on a surface of the given size.
    pub fn new(pixel_width: u32, pixel_height: u32) -> (r: Universe)
        ensures
            r.wf(),
            r.spec_width() == GRID_SIDE,
            r.spec_height() == GRID_SIDE,
            r.spec_pixel_width() == pixel_width,
            r.spec_pixel_height() == pixel_height,
            r.spec_cells() == seeded_pattern((GRID_SIDE * GRID_SIDE) as nat),
    {
        Universe::with_size(GRID_SIDE, GRID_SIDE, pixel_width, pixel_height)
    }

    /// A grid holding the given cells, row by row; `None` unless both
    /// dimensions are positive and there is exactly one cell per position.
    pub fn from_cells(width: i32, height: i32, pixel_width: u32, pixel_height: u32, cells: Vec<Cell>) -> (r: Option<Universe>)
        ensures
            r.is_some() <==> (width > 0 && height > 0 && cells@.len() == width * height),
            r matches Some(u) ==> {
                &&& u.wf()
                &&& u.spec_width() == width
                &&& u.spec_height() == height
                &&& u.spec_pixel_width() == pixel_width
                &&& u.spec_pixel_height() == pixel_height
                &&& u.spec_cells() == cells@
            },
    {
        if width <= 0 || height <= 0 {
            return None;
        }
        assert(0 < width * height <= i32::MAX * i32::MAX) by (nonlinear_arith)
            requires
                0 < width <= i32::MAX,
                0 < height <= i32::MAX,
        ;
        let n: u64 = (width as u64) * (height as u64);
        if cells.len() as u64 != n {
            return None;
        }
        Some(Universe { width, height, pixel_width, pixel_height, cells })
    }

    /// Number of columns.
    pub fn width(&self) -> (r: i32)
        ensures
            r == self.spec_width(),
    {
        self.width
    }

    /// Number of rows.
    pub fn height(&self) -> (r: i32)
        ensures
            r == self.spec_height(),
    {
        self.height
    }

    /// Width of the drawing surface in pixels.
    pub fn pixel_width(&self) -> (r: u32)
        ensures
            r == self.spec_pixel_width(),
    {
        self.pixel_width
    }

    /// Height of the drawing surface in pixels.
    pub fn pixel_height(&self) -> (r: u32)
        ensures
            r == self.spec_pixel_height(),
    {
        self.pixel_height
    }

    /// A read-only view of the cells, row by row.
    pub fn cells(&self) -> (r: &[Cell])
        ensures
            r@ == self.spec_cells(),
    {
        self.cells.as_slice()
    }

    /// The flat index of the cell at `(row, col)`.
    pub fn get_cell_index(&self, row: i32, col: i32) -> (r: usize)
        requires
            self.wf(),
            0 <= row < self.spec_height(),
            0 <= col < self.spec_width(),
        ensures
            r == row * self.spec_width() + col,
            r < self.spec_cells().len(),
    {
        let len = self.cells.len();
        proof {
            lemma_flat_index(self.width as int, self.height as int, row as int, col as int);
            assert(row * self.width + col < len);
        }
        (row as usize) * (self.width as usize) + (col as usize)
    }

    /// The index of the first byte of the cell at `(row, col)` in a buffer of
    /// four bytes per cell laid out like the grid.
    pub fn get_pixel_index(&self, row: i32, col: i32) -> (r: usize)
        requires
            self.wf(),
            0 <= row < self.spec_height(),
            0 <= col < self.spec_width(),
            4 * (row * self.spec_width() + col) <= usize::MAX,
        ensures
            r == 4 * (row * self.spec_width() + col),
    {
        let idx = self.get_cell_index(row, col);
        idx * 4
    }

    /// 1 when the cell at `(row, col)` is alive, 0 otherwise.
    fn live_at(&self, row: i32, col: i32) -> (r: u8)
        requires
            self.wf(),
            0 <= row < self.spec_height(),
            0 <= col < self.spec_width(),
        ensures
            r == live(self.spec_cells()[row * self.spec_width() + col]),
    {
        let idx = self.get_cell_index(row, col);
        match self.cells[idx] {
            Cell::Alive => 1,
            Cell::Dead => 0,
        }
    }

    /// The number of live cells among the eight neighbours of `(row, col)`,
    /// wrapping around the edges of the grid.
    pub fn live_neighbor_count(&self, row: i32, col: i32) -> (r: u8)
        requires
            self.wf(),
            0 <= row < self.spec_height(),
            0 <= col < self.spec_width(),
        ensures
            r == neighbors(self.spec_cells(), self.spec_width(), self.spec_height(), row as int, col as int),
            r <= 8,
    {
        let up = if row == 0 {
            self.height - 1
        } else {
            row - 1
        };
        let down = if row == self.height - 1 {
            0
        } else {
            row + 1
        };
        let left = if col == 0 {
            self.width - 1
        } else {
            col - 1
        };
        let right = if col == self.width - 1 {
            0
        } else {
            col + 1
        };
        proof {
            lemma_wrap(row as int, self.height as int);
            lemma_wrap(col as int, self.width as int);
        }
        let mut count: u8 = 0;
        count = count + self.live_at(up, left);
        count = count + self.live_at(up, col);
        count = count + self.live_at(up, right);
        count = count + self.live_at(row, left);
        count = count + self.live_at(row, right);
        count = count + self.live_at(down, left);
        count = count + self.live_at(down, col);
        count = count + self.live_at(down, right);
        count
    }

    /// Replaces the cells with the next generation, computed from the
    /// current one as a whole.
    fn build_board(&mut self)
        requires
            old(self).wf(),
        ensures
            final(self).wf(),
            final(self).spec_width() == old(self).spec_width(),
            final(self).spec_height() == old(self).spec_height(),
            final(self).spec_pixel_width() == old(self).spec_pixel_width(),
            final(self).spec_pixel_height() == old(self).spec_pixel_height(),
            final(self).spec_cells() == next_generation(
                old(self).spec_cells(),
                old(self).spec_width(),
                old(self).spec_height(),
            ),
    {
        let ghost w = self.width as int;
        let ghost h = self.height as int;
        let n = self.cells.len();
        let mut next: Vec<Cell> = self.cells.clone();
        for idx in 0..n
            invariant
                self.wf(),
                w == self.width,
                h == self.height,
                n == self.cells@.len(),
                next@.len() == n,
                forall|i: int|
                    0 <= i < idx ==> next@[i] == #[trigger] next_generation(self.cells@, w, h)[i],
        {
            proof {
                lemma_split_index(w, h, idx as int);
            }
            let row = (idx / (self.width as usize)) as i32;
            let col = (idx % (self.width as usize)) as i32;
            let cell = self.cells[idx];
            let live_neighbors = self.live_neighbor_count(row, col);
            next.set(idx, next_state(cell, live_neighbors));
        }
        proof {
            assert(next@ =~= next_generation(self.cells@, w, h));
        }
        self.cells = next;
    }

    /// The size of one cell on this universe's surface.
    pub open spec fn spec_cell_size(&self) -> CellSize {
        cell_size_of(self.spec_width(), self.spec_height(), self.spec_pixel_width() as int, self.spec_pixel_height() as int)
    }

    /// `f` holds exactly the live cells' rectangles and the grid lines of this universe.
    pub open spec fn is_frame_of(&self, f: &Frame) -> bool {
        &&& f.alive@ == alive_rects_of(self.spec_cells(), self.spec_width(), self.spec_cell_size(), self.spec_cells().len() as int)
        &&& f.lines@ == grid_lines_of(
            self.spec_width() as nat,
            self.spec_height() as nat,
            self.spec_cell_size(),
            self.spec_pixel_width(),
            self.spec_pixel_height(),
        )
    }

    /// The rectangles of the live cells, in row-major order.
    pub fn alive_rects(&self, size: &CellSize) -> (r: Vec<Rect>)
        requires
            self.wf(),
            size.wf(),
        ensures
            r@ == alive_rects_of(self.spec_cells(), self.spec_width(), *size, self.spec_cells().len() as int),
    {
        let n = self.cells.len();
        let mut rects: Vec<Rect> = Vec::new();
        for idx in 0..n
            invariant
                self.wf(),
                size.wf(),
                n == self.cells@.len(),
                rects@ == alive_rects_of(self.cells@, self.width as int, *size, idx as int),
        {
            proof {
                lemma_split_index(self.width as int, self.height as int, idx as int);
            }
            if self.cells[idx] == Cell::Alive {
                let row = (idx / (self.width as usize)) as i32;
                let col = (idx % (self.width as usize)) as i32;
                rects.push(cell_rect(row, col, size));
            }
        }
        rects
    }

    /// What to draw for the current generation; `None` when the surface is
    /// too small to hold the grid (a side of two pixels or less).
    pub fn frame(&self) -> (r: Option<Frame>)
        requires
            self.wf(),
        ensures
            r.is_some() <==> (self.spec_pixel_width() > 2 && self.spec_pixel_height() > 2),
            r matches Some(f) ==> self.is_frame_of(&f),
    {
        match cell_size(self.width, self.height, self.pixel_width, self.pixel_height) {
            None => None,
            Some(size) => {
                let alive = self.alive_rects(&size);
                let lines = grid_lines(self.width, self.height, &size, self.pixel_width, self.pixel_height);
                Some(Frame { alive, lines })
            },
        }
    }

    /// Advances the universe by one generation and returns what to draw for
    /// the new one (`None` when the surface is too small to hold the grid).
    pub fn tick(&mut self) -> (r: Option<Frame>)
        requires
            old(self).wf(),
        ensures
            final(self).wf(),
            final(self).spec_width() == old(self).spec_width(),
            final(self).spec_height() == old(self).spec_height(),
            final(self).spec_pixel_width() == old(self).spec_pixel_width(),
            final(self).spec_pixel_height() == old(self).spec_pixel_height(),
            final(self).spec_cells().len() == old(self).spec_cells().len(),
            final(self).spec_cells() == next_generation(
                old(self).spec_cells(),
                old(self).spec_width(),
                old(self).spec_height(),
            ),
            r.is_some() <==> (old(self).spec_pixel_width() > 2 && old(self).spec_pixel_height() > 2),
            r matches Some(f) ==> final(self).is_frame_of(&f),
    {
        self.build_board();
        self.frame()
    }
}

} // verus!
