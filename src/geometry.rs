use vstd::prelude::*;

verus! {

/// The exact rational `num / den`; every fraction built here has `den > 0`.
/// Equality compares the two parts, not the values.
#[derive(Clone, Copy, Debug, PartialEq, Eq, Structural)]
pub struct Fraction {
    pub num: u64,
    pub den: u64,
}

/// The size of one cell on the drawing surface.
#[derive(Clone, Copy, Debug, PartialEq, Eq, Structural)]
pub struct CellSize {
    pub width: Fraction,
    pub height: Fraction,
}

/// An axis-aligned rectangle: top-left corner `(x, y)`, width `w`, height `h`.
#[derive(Clone, Copy, Debug, PartialEq, Eq, Structural)]
pub struct Rect {
    pub x: Fraction,
    pub y: Fraction,
    pub w: Fraction,
    pub h: Fraction,
}

/// A line segment from `(x0, y0)` to `(x1, y1)`.
#[derive(Clone, Copy, Debug, PartialEq, Eq, Structural)]
pub struct Line {
    pub x0: Fraction,
    pub y0: Fraction,
    pub x1: Fraction,
    pub y1: Fraction,
}

/// One pixel of border is kept on each side of the surface, so cells and grid
/// lines alike are shifted right and down by this much.
pub const INSET: u32 = 1;

impl CellSize {
    /// Each side is a pixel count of at most `u32::MAX` over a positive grid
    /// dimension of at most `i32::MAX`.
    pub open spec fn wf(&self) -> bool {
        &&& 0 < self.width.den <= i32::MAX
        &&& self.width.num <= u32::MAX
        &&& 0 < self.height.den <= i32::MAX
        &&& self.height.num <= u32::MAX
    }
}

/// The whole number `n`.
pub open spec fn whole(n: nat) -> Fraction {
    Fraction { num: n as u64, den: 1 }
}

/// The position of boundary `k` when boundaries are `step` apart, starting
/// at the inset: `k * step + INSET`.
pub open spec fn boundary(k: int, step: Fraction) -> Fraction {
    Fraction { num: (k * step.num + INSET * step.den) as u64, den: step.den }
}

/// The cell size on a `pixel_width` x `pixel_height` surface for a
/// `grid_width` x `grid_height` grid: the surface less two pixels of border,
/// split evenly.
pub open spec fn cell_size_of(grid_width: int, grid_height: int, pixel_width: int, pixel_height: int) -> CellSize {
    CellSize {
        width: Fraction { num: (pixel_width - 2 * INSET) as u64, den: grid_width as u64 },
        height: Fraction { num: (pixel_height - 2 * INSET) as u64, den: grid_height as u64 },
    }
}

/// The rectangle covered by the cell at `(row, col)`.
pub open spec fn rect_of(row: int, col: int, size: CellSize) -> Rect {
    Rect {
        x: boundary(col, size.width),
        y: boundary(row, size.height),
        w: size.width,
        h: size.height,
    }
}

/// The grid line above row `row`, across the whole surface width.
pub open spec fn horizontal_line(row: int, size: CellSize, pixel_width: nat) -> Line {
    Line {
        x0: whole(0),
        y0: boundary(row, size.height),
        x1: whole(pixel_width),
        y1: boundary(row, size.height),
    }
}

/// The grid line left of column `col`, across the whole surface height.
pub open spec fn vertical_line(col: int, size: CellSize, pixel_height: nat) -> Line {
    Line {
        x0: boundary(col, size.width),
        y0: whole(0),
        x1: boundary(col, size.width),
        y1: whole(pixel_height),
    }
}

/// All grid lines: the horizontal ones for rows `0..=grid_height`, top to
/// bottom, then the vertical ones for columns `0..=grid_width`, left to right.
pub open spec fn grid_lines_of(
    grid_width: nat,
    grid_height: nat,
    size: CellSize,
    pixel_width: nat,
    pixel_height: nat,
) -> Seq<Line> {
    Seq::new(grid_height + 1, |row: int| horizontal_line(row, size, pixel_width)) + Seq::new(
        grid_width + 1,
        |col: int| vertical_line(col, size, pixel_height),
    )
}

/// Boundary `k` stays within `u64` for the sizes that `CellSize::wf` admits.
proof fn lemma_boundary_fits(k: int, step: Fraction)
    requires
        0 <= k <= i32::MAX,
        0 < step.den <= i32::MAX,
        step.num <= u32::MAX,
    ensures
        0 <= k * step.num + INSET * step.den <= u64::MAX,
{
    assert(0 <= k * step.num <= i32::MAX * u32::MAX) by (nonlinear_arith)
        requires
            0 <= k <= i32::MAX,
            step.num <= u32::MAX,
    ;
}

fn boundary_at(k: u64, step: Fraction) -> (r: Fraction)
    requires
        k <= i32::MAX,
        0 < step.den <= i32::MAX,
        step.num <= u32::MAX,
    ensures
        r == boundary(k as int, step),
{
    proof {
        lemma_boundary_fits(k as int, step);
    }
    Fraction { num: k * step.num + (INSET as u64) * step.den, den: step.den }
}

/// The size of one cell; `None` when a grid dimension is not positive or the
/// surface leaves no room inside its border (a side of two pixels or less).
pub fn cell_size(grid_width: i32, grid_height: i32, pixel_width: u32, pixel_height: u32) -> (r: Option<CellSize>)
    ensures
        r.is_some() <==> (grid_width > 0 && grid_height > 0 && pixel_width > 2 && pixel_height > 2),
        r matches Some(s) ==> s == cell_size_of(
            grid_width as int,
            grid_height as int,
            pixel_width as int,
            pixel_height as int,
        ) && s.wf(),
{
    if grid_width <= 0 || grid_height <= 0 || pixel_width <= 2 * INSET || pixel_height <= 2 * INSET {
        return None;
    }
    Some(
        CellSize {
            width: Fraction { num: (pixel_width - 2 * INSET) as u64, den: grid_width as u64 },
            height: Fraction { num: (pixel_height - 2 * INSET) as u64, den: grid_height as u64 },
        },
    )
}

/// The rectangle covered by the cell at `(row, col)`.
pub fn cell_rect(row: i32, col: i32, size: &CellSize) -> (r: Rect)
    requires
        row >= 0,
        col >= 0,
        size.wf(),
    ensures
        r == rect_of(row as int, col as int, *size),
{
    Rect {
        x: boundary_at(col as u64, size.width),
        y: boundary_at(row as u64, size.height),
        w: size.width,
        h: size.height,
    }
}

/// The grid lines of a `grid_width` x `grid_height` grid with cells of the
/// given size on a `pixel_width` x `pixel_height` surface.
pub fn grid_lines(grid_width: i32, grid_height: i32, size: &CellSize, pixel_width: u32, pixel_height: u32) -> (r: Vec<Line>)
    requires
        grid_width >= 0,
        grid_height >= 0,
        size.wf(),
    ensures
        r@ == grid_lines_of(
            grid_width as nat,
            grid_height as nat,
            *size,
            pixel_width as nat,
            pixel_height as nat,
        ),
{
    let mut lines: Vec<Line> = Vec::new();
    let mut row: u64 = 0;
    while row <= grid_height as u64
        invariant
            size.wf(),
            grid_height >= 0,
            row <= grid_height + 1,
            lines@ =~= Seq::new(row as nat, |k: int| horizontal_line(k, *size, pixel_width as nat)),
        decreases grid_height + 1 - row,
    {
        let y = boundary_at(row, size.height);
        lines.push(
            Line { x0: Fraction { num: 0, den: 1 }, y0: y, x1: Fraction { num: pixel_width as u64, den: 1 }, y1: y },
        );
        row = row + 1;
    }
    let ghost horizontal = lines@;
    let mut col: u64 = 0;
    while col <= grid_width as u64
        invariant
            size.wf(),
            grid_width >= 0,
            col <= grid_width + 1,
            lines@ =~= horizontal + Seq::new(col as nat, |k: int| vertical_line(k, *size, pixel_height as nat)),
        decreases grid_width + 1 - col,
    {
        let x = boundary_at(col, size.width);
        lines.push(
            Line { x0: x, y0: Fraction { num: 0, den: 1 }, x1: x, y1: Fraction { num: pixel_height as u64, den: 1 } },
        );
        col = col + 1;
    }
    lines
}

/// Cells and grid lines share their boundaries: the cell at `(row, col)`
/// starts on the grid lines above and left of it and ends on the next ones.
pub proof fn lemma_cells_meet_grid_lines(
    grid_width: nat,
    grid_height: nat,
    size: CellSize,
    pixel_width: nat,
    pixel_height: nat,
    row: int,
    col: int,
)
    requires
        size.wf(),
        grid_width <= i32::MAX,
        grid_height <= i32::MAX,
        0 <= row < grid_height,
        0 <= col < grid_width,
    ensures
        ({
            let lines = grid_lines_of(grid_width, grid_height, size, pixel_width, pixel_height);
            let cell = rect_of(row, col, size);
            let top = lines[row];
            let bottom = lines[row + 1];
            let left = lines[grid_height + 1 + col];
            let right = lines[grid_height + 1 + col + 1];
            &&& cell.y == top.y0
            &&& cell.x == left.x0
            &&& bottom.y0.den == cell.y.den && bottom.y0.num == cell.y.num + cell.h.num
            &&& right.x0.den == cell.x.den && right.x0.num == cell.x.num + cell.w.num
        }),
{
    lemma_boundary_fits(row, size.height);
    lemma_boundary_fits(row + 1, size.height);
    lemma_boundary_fits(col, size.width);
    lemma_boundary_fits(col + 1, size.width);
    assert((row + 1) * size.height.num == row * size.height.num + size.height.num) by (nonlinear_arith);
    assert((col + 1) * size.width.num == col * size.width.num + size.width.num) by (nonlinear_arith);
}

/// The last grid lines land one pixel inside the far edges of the surface:
/// the last horizontal line at `pixel_height - 1`, the last vertical one at
/// `pixel_width - 1`, as the first ones lie at 1.
pub proof fn lemma_last_lines_at_edge(grid_width: nat, grid_height: nat, pixel_width: nat, pixel_height: nat)
    requires
        0 < grid_width <= i32::MAX,
        0 < grid_height <= i32::MAX,
        2 < pixel_width <= u32::MAX,
        2 < pixel_height <= u32::MAX,
    ensures
        ({
            let size = cell_size_of(grid_width as int, grid_height as int, pixel_width as int, pixel_height as int);
            let lines = grid_lines_of(grid_width, grid_height, size, pixel_width, pixel_height);
            let first_h = lines[0].y0;
            let last_h = lines[grid_height as int].y0;
            let first_v = lines[grid_height + 1int].x0;
            let last_v = lines[grid_height + 1int + grid_width].x0;
            &&& first_h.num == first_h.den
            &&& first_v.num == first_v.den
            &&& last_h.num == (pixel_height - 1) * last_h.den
            &&& last_v.num == (pixel_width - 1) * last_v.den
        }),
{
    let size = cell_size_of(grid_width as int, grid_height as int, pixel_width as int, pixel_height as int);
    lemma_boundary_fits(grid_height as int, size.height);
    lemma_boundary_fits(grid_width as int, size.width);
    assert(grid_height * (pixel_height - 2) + grid_height == (pixel_height - 1) * grid_height) by (nonlinear_arith);
    assert(grid_width * (pixel_width - 2) + grid_width == (pixel_width - 1) * grid_width) by (nonlinear_arith);
}

} // verus!
