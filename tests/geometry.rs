use life::geometry::{cell_rect, cell_size, grid_lines, CellSize, Fraction};
use life::rules::Cell;
use life::universe::Universe;

fn value(f: Fraction) -> f64 {
    f.num as f64 / f.den as f64
}

#[test]
fn cell_size_of_default_surface() {
    let size = cell_size(64, 64, 640, 480).unwrap();
    assert_eq!(size.width, Fraction { num: 638, den: 64 });
    assert_eq!(size.height, Fraction { num: 478, den: 64 });
    assert!((value(size.width) - 9.969).abs() < 0.001);
    assert!((value(size.height) - 7.469).abs() < 0.001);
    assert_eq!(value(size.width), (640.0 - 2.0) / 64.0);
    assert_eq!(value(size.height), (480.0 - 2.0) / 64.0);
}

#[test]
fn cell_size_rejects_degenerate_input() {
    assert!(cell_size(64, 64, 2, 480).is_none());
    assert!(cell_size(64, 64, 640, 2).is_none());
    assert!(cell_size(64, 64, 0, 0).is_none());
    assert!(cell_size(0, 64, 640, 480).is_none());
    assert!(cell_size(64, -3, 640, 480).is_none());
    assert!(cell_size(1, 1, 3, 3).is_some());
}

#[test]
fn cell_rect_is_inset_by_one() {
    let size = cell_size(64, 64, 640, 480).unwrap();
    let r = cell_rect(0, 0, &size);
    assert_eq!(value(r.x), 1.0);
    assert_eq!(value(r.y), 1.0);
    let r = cell_rect(3, 5, &size);
    assert_eq!(r.x, Fraction { num: 5 * 638 + 64, den: 64 });
    assert_eq!(r.y, Fraction { num: 3 * 478 + 64, den: 64 });
    assert_eq!(r.w, size.width);
    assert_eq!(r.h, size.height);
}

#[test]
fn grid_lines_align_with_cells_and_edges() {
    let size = cell_size(64, 64, 640, 480).unwrap();
    let lines = grid_lines(64, 64, &size, 640, 480);
    assert_eq!(lines.len(), 65 + 65);
    for row in 0..=64usize {
        let l = lines[row];
        assert_eq!(l.y0, l.y1);
        assert_eq!(value(l.x0), 0.0);
        assert_eq!(value(l.x1), 640.0);
    }
    for col in 0..=64usize {
        let l = lines[65 + col];
        assert_eq!(l.x0, l.x1);
        assert_eq!(value(l.y0), 0.0);
        assert_eq!(value(l.y1), 480.0);
    }
    let last_h = value(lines[64].y0);
    let last_v = value(lines[129].x0);
    assert_eq!(last_h, 479.0);
    assert_eq!(last_v, 639.0);
    assert!((480.0 - last_h).abs() <= 1.0);
    assert!((640.0 - last_v).abs() <= 1.0);
    let r = cell_rect(10, 20, &size);
    assert_eq!(r.y, lines[10].y0);
    assert_eq!(r.x, lines[65 + 20].x0);
    assert_eq!(value(lines[11].y0), value(r.y) + value(r.h));
    assert_eq!(value(lines[65 + 21].x0), value(r.x) + value(r.w));
}

#[test]
fn frame_lists_live_cells_in_order() {
    let mut cells = vec![Cell::Dead; 9];
    cells[1] = Cell::Alive;
    cells[5] = Cell::Alive;
    let u = Universe::from_cells(3, 3, 32, 20, cells).unwrap();
    let frame = u.frame().unwrap();
    let size = CellSize {
        width: Fraction { num: 30, den: 3 },
        height: Fraction { num: 18, den: 3 },
    };
    assert_eq!(frame.alive, vec![cell_rect(0, 1, &size), cell_rect(1, 2, &size)]);
    assert_eq!(frame.lines, grid_lines(3, 3, &size, 32, 20));
    assert_eq!(value(frame.alive[1].x), 21.0);
    assert_eq!(value(frame.alive[1].y), 7.0);
}

#[test]
fn frame_needs_room_on_surface() {
    let u = Universe::with_size(4, 4, 2, 100);
    assert!(u.frame().is_none());
    let mut u = Universe::with_size(4, 4, 100, 1);
    assert!(u.tick().is_none());
    assert_eq!(u.cells().len(), 16);
}

#[test]
fn tick_returns_frame_of_new_generation() {
    let mut cells = vec![Cell::Dead; 25];
    for col in 1..4 {
        cells[2 * 5 + col] = Cell::Alive;
    }
    let mut u = Universe::from_cells(5, 5, 52, 52, cells).unwrap();
    let frame = u.tick().unwrap();
    let size = cell_size(5, 5, 52, 52).unwrap();
    assert_eq!(
        frame.alive,
        vec![cell_rect(1, 2, &size), cell_rect(2, 2, &size), cell_rect(3, 2, &size)]
    );
    assert_eq!(value(frame.alive[0].x), 21.0);
}
