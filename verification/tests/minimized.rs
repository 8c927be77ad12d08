use wlrix_compositor::geometry::{Point, Rect, Size, Spot};
use wlrix_compositor::minimized::{Grid, IconDrag, IconMetrics, IconMove, RESERVED_COLS};

const ICON_MARGIN: i32 = 8;
const ICON_TILE_W: i32 = 93;
const ICON_TILE_H: i32 = 99;

fn metrics() -> IconMetrics {
    IconMetrics { margin: ICON_MARGIN, tile_w: ICON_TILE_W, tile_h: ICON_TILE_H }
}

fn over(width: i32) -> Grid {
    Grid::new(Rect::new(Point { x: 0, y: 0 }, Size { w: width, h: 600 }), metrics())
}

/// A work area wide enough for four tiles across, plus the margins either side.
fn grid() -> Grid {
    over(2 * ICON_MARGIN + 4 * ICON_TILE_W)
}

fn spot(x: f64, y: f64) -> Spot {
    Spot { x: (x * 256.0) as i64, y: (y * 256.0) as i64 }
}

fn centre(tile: Rect) -> Spot {
    spot(
        tile.loc.x as f64 + ICON_TILE_W as f64 / 2.0,
        tile.loc.y as f64 + ICON_TILE_H as f64 / 2.0,
    )
}

#[test]
fn columns_fit_the_work_area_width() {
    assert_eq!(grid().cols, 4);
    // A hair narrower than two tiles still leaves one column, never zero.
    assert_eq!(over(10).cols, 1);
}

#[test]
fn slots_wrap_left_to_right_then_down() {
    let g = grid();
    let first = g.slot_rect(0);
    assert_eq!(first.loc, Point { x: ICON_MARGIN, y: ICON_MARGIN });
    // Slot 3 is the last in row 0; slot 4 wraps to the start of row 1.
    assert_eq!(g.slot_rect(3).loc.y, g.slot_rect(0).loc.y);
    assert_eq!(g.slot_rect(4).loc.x, first.loc.x);
    assert_eq!(g.slot_rect(4).loc.y, first.loc.y + ICON_TILE_H);
}

#[test]
fn the_left_two_columns_are_not_assigned() {
    let g = grid();
    for slot in [0usize, 1, 4, 5, 8, 9] {
        assert!(!g.is_assignable(slot), "slot {slot} is in a reserved column");
    }
    for slot in [2usize, 3, 6, 7, 10, 11] {
        assert!(g.is_assignable(slot), "slot {slot} should be assignable");
    }
}

#[test]
fn windows_are_assigned_down_the_free_columns() {
    let g = grid();
    let mut occupied: Vec<usize> = Vec::new();
    for _ in 0..6 {
        let slot = g.first_assignable(&occupied);
        occupied.push(slot);
    }
    assert_eq!(occupied, [2, 3, 6, 7, 10, 11]);
}

#[test]
fn a_freed_cell_is_reused_before_a_new_row() {
    let g = grid();
    assert_eq!(g.first_assignable(&[2, 6, 7]), 3);
    assert_eq!(g.first_assignable(&[2, 3, 7]), 6);
}

#[test]
fn reserved_columns_are_still_reachable_by_hand() {
    let g = grid();
    for slot in [0usize, 1, 4] {
        assert_eq!(g.slot_at(centre(g.slot_rect(slot))), Some(slot));
    }
}

#[test]
fn a_narrow_grid_reserves_nothing() {
    for width in [10, 2 * ICON_TILE_W + 40] {
        let g = over(width);
        assert!(g.cols <= RESERVED_COLS, "{width}px gave {} columns", g.cols);
        assert!(g.is_assignable(0), "{width}px should still assign slot 0");
    }
    // One column past the reserved pair is enough to start reserving.
    let g = over(2 * ICON_MARGIN + 3 * ICON_TILE_W);
    assert_eq!(g.cols, 3);
    assert!(!g.is_assignable(0) && !g.is_assignable(1) && g.is_assignable(2));
}

#[test]
fn slot_at_is_the_inverse_of_slot_rect() {
    let g = grid();
    for slot in [0usize, 1, 3, 4, 7] {
        assert_eq!(g.slot_at(centre(g.slot_rect(slot))), Some(slot));
    }
}

#[test]
fn the_margin_is_not_a_slot() {
    let g = grid();
    assert_eq!(g.slot_at(spot(1.0, 1.0)), None);
}

#[test]
fn adjacent_tiles_have_no_gap_between_them() {
    let g = grid();
    let mid_y = (ICON_MARGIN + ICON_TILE_H / 2) as f64;
    let boundary = (ICON_MARGIN + ICON_TILE_W) as f64;
    assert_eq!(g.slot_rect(1).loc.x, boundary as i32);
    assert_eq!(g.slot_at(spot(boundary - 0.5, mid_y)), Some(0));
    assert_eq!(g.slot_at(spot(boundary, mid_y)), Some(1));
}

#[test]
fn a_press_becomes_a_drag_past_the_threshold() {
    let press = spot(100.0, 100.0);
    let mut drag = IconDrag {
        window: 1,
        grab_offset: spot(10.0, 20.0),
        press,
        current: press,
        moved: false,
        end: IconMove::Drag,
    };
    assert!(!drag.is_drag());
    drag.drag_to(spot(104.0, 103.0));
    assert!(!drag.is_drag(), "a shake of the hand is a click");
    drag.drag_to(spot(140.0, 103.0));
    assert!(drag.is_drag());
    assert_eq!(drag.tile_origin(), Point { x: 130, y: 83 });
    // A drag stays one, wherever it goes.
    drag.drag_to(press);
    assert!(drag.is_drag());
}
