//! The minimized-window icon grid: its layout, which cell a window takes, and the moving of a
//! tile with the pointer.
use vstd::prelude::*;

use crate::geometry::{fits, Point, Rect, Size, Spot, UNIT};

verus! {

/// How far the pointer must move after pressing a tile before it counts as a drag rather than a
/// click, in pixels.
pub const DRAG_THRESHOLD: i64 = 6;

/// Grid columns the compositor leaves alone when it picks a cell itself: the toolchest sits over
/// them. The user can still drag a tile into them.
pub const RESERVED_COLS: i32 = 2;

/// The measures of the grid, in pixels.
#[derive(Debug, Clone, Copy, PartialEq, Eq, Structural)]
pub struct IconMetrics {
    /// The space left around the tiles.
    pub margin: i32,
    pub tile_w: i32,
    pub tile_h: i32,
}

impl IconMetrics {
    /// A tile covers something, and the margin is not negative.
    pub open spec fn valid(self) -> bool {
        self.margin >= 0 && self.tile_w > 0 && self.tile_h > 0
    }
}

/// What ends a tile move.
#[derive(Debug, Clone, Copy, PartialEq, Eq, Structural)]
pub enum IconMove {
    /// Press-drag-release: a click restores the window, a drag past the threshold moves the
    /// tile, and letting go drops it.
    Drag,
    /// Chosen from the icon's window menu: the tile follows the pointer until the next click
    /// drops it.
    NextClick,
}

/// An in-progress tile move.
#[derive(Debug, Clone, Copy, PartialEq, Eq, Structural)]
pub struct IconDrag {
    pub window: u64,
    /// Pointer offset from the tile's origin at press time.
    pub grab_offset: Spot,
    /// Where the press started, to measure the drag threshold against.
    pub press: Spot,
    /// The latest pointer position.
    pub current: Spot,
    pub moved: bool,
    pub end: IconMove,
}

/// The icon grid laid over a work area: fixed-size tiles from the top-left, wrapping to a new
/// row when the width runs out.
#[derive(Debug, Clone, Copy, PartialEq, Eq, Structural)]
pub struct Grid {
    pub area: Rect,
    pub metrics: IconMetrics,
    pub cols: i32,
}

/// How many tiles a width has room for, at least one.
pub open spec fn columns(width: int, metrics: IconMetrics) -> int {
    let usable = width - 2 * metrics.margin;
    if usable < metrics.tile_w {
        1
    } else {
        usable / metrics.tile_w as int
    }
}

/// Where a spot on a line of tiles is, counted in tiles.
pub open spec fn tile_of(offset: int, tile: int) -> int {
    offset / (tile * 256)
}

impl Grid {
    pub open spec fn valid(self) -> bool {
        self.metrics.valid() && self.cols >= 1
    }

    /// The column and row of a slot, row-major from the top-left.
    pub open spec fn col_of(self, slot: int) -> int {
        slot % self.cols as int
    }

    pub open spec fn row_of(self, slot: int) -> int {
        slot / self.cols as int
    }

    pub open spec fn slot_x(self, slot: int) -> int {
        self.area.loc.x + self.metrics.margin + self.col_of(slot) * self.metrics.tile_w
    }

    pub open spec fn slot_y(self, slot: int) -> int {
        self.area.loc.y + self.metrics.margin + self.row_of(slot) * self.metrics.tile_h
    }

    /// How many columns are skipped when assigning.
    pub open spec fn reserved(self) -> int {
        if self.cols > RESERVED_COLS {
            RESERVED_COLS as int
        } else {
            0
        }
    }

    /// Whether the compositor may put a newly minimized window in a slot of its own accord.
    pub open spec fn assignable(self, slot: int) -> bool {
        self.col_of(slot) >= self.reserved()
    }

    /// Whether a slot is the lowest free one that the compositor may assign.
    pub open spec fn lowest_free(self, occupied: Seq<usize>, slot: usize) -> bool {
        &&& self.assignable(slot as int) && !occupied.contains(slot)
        &&& forall|lower: usize|
            lower < slot ==> occupied.contains(lower) || !#[trigger] self.assignable(lower as int)
    }

    /// The slot that a spot is on, if it is on one.
    pub open spec fn slot_under(self, s: Spot) -> Option<int> {
        let x = s.x - (self.area.loc.x + self.metrics.margin) * 256;
        let y = s.y - (self.area.loc.y + self.metrics.margin) * 256;
        let col = tile_of(x, self.metrics.tile_w as int);
        if x < 0 || y < 0 || col >= self.cols {
            None
        } else {
            Some(tile_of(y, self.metrics.tile_h as int) * self.cols + col)
        }
    }

    /// The grid for a work `area`. At least one column, however narrow the output.
    pub fn new(area: Rect, metrics: IconMetrics) -> (grid: Self)
        requires
            metrics.valid(),
        ensures
            grid == (Grid { area, metrics, cols: columns(area.size.w as int, metrics) as i32 }),
            grid.valid(),
            fits(columns(area.size.w as int, metrics)),
    {
        let usable: i64 = area.size.w as i64 - 2 * metrics.margin as i64;
        let tile: i64 = metrics.tile_w as i64;
        let cols: i64 = if usable < tile {
            1
        } else {
            usable / tile
        };
        proof {
            if usable >= tile {
                assert(1 <= usable / tile <= usable) by (nonlinear_arith)
                    requires
                        usable >= tile,
                        tile > 0,
                ;
            }
        }
        Grid { area, metrics, cols: cols as i32 }
    }

    /// The tile rectangle for a slot index.
    pub fn slot_rect(&self, slot: usize) -> (tile: Rect)
        requires
            self.valid(),
            fits(self.slot_x(slot as int)),
            fits(self.slot_y(slot as int)),
            slot <= i32::MAX,
        ensures
            tile.loc.x == self.slot_x(slot as int),
            tile.loc.y == self.slot_y(slot as int),
            tile.size == (Size { w: self.metrics.tile_w, h: self.metrics.tile_h }),
    {
        let slot: i64 = slot as i64;
        let col: i64 = slot % self.cols as i64;
        let row: i64 = slot / self.cols as i64;
        proof {
            let cols = self.cols as int;
            let w = self.metrics.tile_w as int;
            let h = self.metrics.tile_h as int;
            assert(0 <= col < cols && 0 <= row <= slot) by (nonlinear_arith)
                requires
                    cols >= 1,
                    slot >= 0,
                    col == slot as int % cols,
                    row == slot as int / cols,
            ;
            assert(0 <= col * w <= 0x7fff_ffff * 0x7fff_ffff) by (nonlinear_arith)
                requires
                    0 <= col <= 0x7fff_ffff,
                    0 < w <= 0x7fff_ffff,
            ;
            assert(0 <= row * h <= 0x7fff_ffff * 0x7fff_ffff) by (nonlinear_arith)
                requires
                    0 <= row <= 0x7fff_ffff,
                    0 < h <= 0x7fff_ffff,
            ;
        }
        let x: i64 = self.area.loc.x as i64 + self.metrics.margin as i64 + col
            * self.metrics.tile_w as i64;
        let y: i64 = self.area.loc.y as i64 + self.metrics.margin as i64 + row
            * self.metrics.tile_h as i64;
        Rect {
            loc: Point { x: x as i32, y: y as i32 },
            size: Size { w: self.metrics.tile_w, h: self.metrics.tile_h },
        }
    }

    /// How many columns to skip when assigning: none on a grid too narrow to spare them.
    pub fn reserved_cols(&self) -> (n: i32)
        ensures
            n == self.reserved(),
    {
        if self.cols > RESERVED_COLS {
            RESERVED_COLS
        } else {
            0
        }
    }

    /// Whether the compositor may put a newly minimized window in `slot` of its own accord.
    pub fn is_assignable(&self, slot: usize) -> (r: bool)
        requires
            self.valid(),
        ensures
            r == self.assignable(slot as int),
    {
        (slot as u64 % self.cols as u64) >= self.reserved_cols() as u64
    }

    /// The cell a newly minimized window should take: the lowest free one the compositor is
    /// allowed to assign.
    pub fn first_assignable(&self, occupied: &[usize]) -> (slot: usize)
        requires
            self.valid(),
            (occupied@.len() + 1) * self.cols <= usize::MAX,
        ensures
            self.lowest_free(occupied@, slot),
            slot < (occupied@.len() + 1) * self.cols,
    {
        let mut slot: usize = 0;
        let ghost bound: int = (occupied@.len() + 1) * self.cols;
        assert(bound >= 1) by (nonlinear_arith)
            requires
                bound == (occupied@.len() + 1) * self.cols,
                self.cols >= 1,
                occupied@.len() >= 0,
        ;
        loop
            invariant
                self.valid(),
                bound == (occupied@.len() + 1) * self.cols,
                bound <= usize::MAX,
                slot < bound,
                forall|lower: usize|
                    lower < slot ==> occupied@.contains(lower) || !#[trigger] self.assignable(
                        lower as int,
                    ),
            decreases bound - slot,
        {
            if !is_among(occupied, slot) && self.is_assignable(slot) {
                return slot;
            }
            proof {
                if slot + 1 >= bound {
                    assert forall|lower: usize| lower < bound implies occupied@.contains(lower)
                        || !#[trigger] self.assignable(lower as int) by {
                        assert(lower <= slot);
                    }
                    let free = some_slot_is_free(*self, occupied@);
                    assert(self.assignable(free as int));
                }
            }
            slot += 1;
        }
    }

    /// The slot whose tile contains a spot, if any. Tiles butt against one another, so every
    /// spot from the margin rightwards and downwards is on some tile until the columns run out.
    pub fn slot_at(&self, s: Spot) -> (slot: Option<usize>)
        requires
            self.valid(),
            self.slot_under(s) matches Some(slot) ==> slot <= i32::MAX,
        ensures
            match slot {
                Some(n) => self.slot_under(s) == Some(n as int),
                None => self.slot_under(s) is None,
            },
    {
        let x: i128 = s.x as i128 - (self.area.loc.x as i128 + self.metrics.margin as i128) * 256;
        let y: i128 = s.y as i128 - (self.area.loc.y as i128 + self.metrics.margin as i128) * 256;
        if x < 0 || y < 0 {
            return None;
        }
        let col: i128 = x / (self.metrics.tile_w as i128 * 256);
        let row: i128 = y / (self.metrics.tile_h as i128 * 256);
        proof {
            let w = self.metrics.tile_w as int * 256;
            let h = self.metrics.tile_h as int * 256;
            assert(0 <= x as int / w <= x && 0 <= y as int / h <= y) by (nonlinear_arith)
                requires
                    x >= 0,
                    y >= 0,
                    w > 0,
                    h > 0,
            ;
        }
        if col >= self.cols as i128 {
            return None;
        }
        let ghost cols = self.cols as int;
        assert(0 <= row * cols <= 0x1_0000_0000_0000_0000 * 0x8000_0000) by (nonlinear_arith)
            requires
                0 <= row <= 0x1_0000_0000_0000_0000,
                1 <= cols <= 0x7fff_ffff,
        ;
        Some((row * self.cols as i128 + col) as usize)
    }
}

/// Whether a slot is among those in a list.
pub fn is_among(list: &[usize], slot: usize) -> (r: bool)
    ensures
        r == list@.contains(slot),
{
    let mut i: usize = 0;
    while i < list.len()
        invariant
            i <= list@.len(),
            forall|j: int| 0 <= j < i ==> list@[j] != slot,
        decreases list.len() - i,
    {
        if list[i] == slot {
            return true;
        }
        i += 1;
    }
    false
}

/// The last slot of each of the first `rows` rows.
spec fn row_ends(cols: int, rows: nat) -> Set<usize>
    decreases rows,
{
    if rows == 0 {
        Set::empty()
    } else {
        row_ends(cols, (rows - 1) as nat).insert((rows * cols - 1) as usize)
    }
}

proof fn row_ends_are_counted(cols: int, rows: nat)
    requires
        cols >= 1,
        rows * cols <= usize::MAX,
    ensures
        row_ends(cols, rows).finite(),
        row_ends(cols, rows).len() == rows,
        forall|slot: usize| #[trigger] row_ends(cols, rows).contains(slot) ==> slot < rows * cols
            && slot as int % cols == cols - 1,
    decreases rows,
{
    if rows > 0 {
        let fewer = (rows - 1) as nat;
        assert(rows * cols == fewer * cols + cols) by (nonlinear_arith)
            requires
                rows == fewer + 1,
        ;
        assert(fewer * cols >= 0) by (nonlinear_arith)
            requires
                cols >= 1,
                fewer >= 0,
        ;
        row_ends_are_counted(cols, fewer);
        let last = (rows * cols - 1) as usize;
        assert(last as int % cols == cols - 1) by (nonlinear_arith)
            requires
                last == fewer * cols + (cols - 1),
                cols >= 1,
        ;
        assert(!row_ends(cols, fewer).contains(last));
    }
}

/// With fewer slots taken than there are rows, a slot that may be assigned is free.
pub proof fn some_slot_is_free(grid: Grid, occupied: Seq<usize>) -> (free: usize)
    requires
        grid.valid(),
        (occupied.len() + 1) * grid.cols <= usize::MAX,
    ensures
        free < (occupied.len() + 1) * grid.cols,
        !occupied.contains(free),
        grid.assignable(free as int),
{
    let rows = occupied.len() + 1;
    let cols = grid.cols as int;
    row_ends_are_counted(cols, rows);
    let ends = row_ends(cols, rows);
    occupied.lemma_cardinality_of_set();
    if ends.subset_of(occupied.to_set()) {
        vstd::set_lib::lemma_len_subset(ends, occupied.to_set());
    }
    choose|slot: usize| #[trigger] ends.contains(slot) && !occupied.to_set().contains(slot)
}

impl IconDrag {
    /// Whether the tile's offset from the pointer can be told.
    pub open spec fn trackable(self) -> bool {
        &&& i64::MIN <= self.current.x - self.grab_offset.x <= i64::MAX
        &&& i64::MIN <= self.current.y - self.grab_offset.y <= i64::MAX
    }

    /// The tile's top-left while moving.
    pub open spec fn origin(self) -> Point {
        (Spot {
            x: (self.current.x - self.grab_offset.x) as i64,
            y: (self.current.y - self.grab_offset.y) as i64,
        }).pixel()
    }

    /// The tile's top-left while moving: it travels with the pointer rather than jumping to it.
    pub fn tile_origin(&self) -> (p: Point)
        requires
            self.trackable(),
        ensures
            p == self.origin(),
    {
        (Spot {
            x: self.current.x - self.grab_offset.x,
            y: self.current.y - self.grab_offset.y,
        }).to_i32_round()
    }

    /// Whether the tile is being moved rather than clicked.
    pub open spec fn dragging(self) -> bool {
        self.moved || self.end == IconMove::NextClick
    }

    /// Whether the tile is being moved rather than clicked. A menu-driven move is a move from
    /// the outset.
    pub fn is_drag(&self) -> (r: bool)
        ensures
            r == self.dragging(),
    {
        self.moved || self.end == IconMove::NextClick
    }

    /// Whether a spot is further from the press than the threshold.
    pub open spec fn past_threshold(self, s: Spot) -> bool {
        let dx = s.x - self.press.x;
        let dy = s.y - self.press.y;
        dx * dx + dy * dy > (DRAG_THRESHOLD * UNIT) * (DRAG_THRESHOLD * UNIT)
    }

    /// The move once the pointer is at `s`.
    pub open spec fn dragged_to(self, s: Spot) -> IconDrag {
        IconDrag { current: s, moved: self.moved || self.past_threshold(s), ..self }
    }

    /// Follows the pointer to `s`.
    pub fn drag_to(&mut self, s: Spot)
        ensures
            *final(self) == old(self).dragged_to(s),
    {
        let dx: i128 = s.x as i128 - self.press.x as i128;
        let dy: i128 = s.y as i128 - self.press.y as i128;
        let limit: i128 = DRAG_THRESHOLD as i128 * UNIT as i128;
        let far = beyond(dx, dy, limit);
        self.current = s;
        if far {
            self.moved = true;
        }
    }
}

/// Whether the point `(dx, dy)` is further than `limit` from the origin.
fn beyond(dx: i128, dy: i128, limit: i128) -> (far: bool)
    requires
        -0x1_0000_0000_0000_0000 <= dx <= 0x1_0000_0000_0000_0000,
        -0x1_0000_0000_0000_0000 <= dy <= 0x1_0000_0000_0000_0000,
        0 <= limit <= 0x1_0000,
    ensures
        far == (dx * dx + dy * dy > limit * limit),
{
    if dx > limit || dx < -limit || dy > limit || dy < -limit {
        proof {
            assert(dx * dx + dy * dy > limit * limit) by (nonlinear_arith)
                requires
                    dx > limit || dx < -limit || dy > limit || dy < -limit,
                    limit >= 0,
            ;
        }
        return true;
    }
    assert(0 <= dx * dx <= limit * limit) by (nonlinear_arith)
        requires
            -limit <= dx <= limit,
    ;
    assert(0 <= dy * dy <= limit * limit) by (nonlinear_arith)
        requires
            -limit <= dy <= limit,
    ;
    assert(limit * limit <= 0x1_0000 * 0x1_0000) by (nonlinear_arith)
        requires
            0 <= limit <= 0x1_0000,
    ;
    dx * dx + dy * dy > limit * limit
}

proof fn tile_from_offset(offset: int, tile: int, n: int)
    requires
        tile > 0,
        n * tile * 256 <= offset < (n + 1) * tile * 256,
    ensures
        tile_of(offset, tile) == n,
{
    let unit = tile * 256;
    let rest = offset - n * unit;
    assert(n * unit == n * tile * 256) by (nonlinear_arith)
        requires
            unit == tile * 256,
    ;
    assert((n + 1) * tile * 256 == n * unit + unit) by (nonlinear_arith)
        requires
            unit == tile * 256,
    ;
    vstd::arithmetic::div_mod::lemma_fundamental_div_mod_converse(offset, unit, n, rest);
}

/// Every spot on a slot's tile is on that slot: hit-testing is the inverse of layout.
pub proof fn a_slots_tile_is_on_that_slot(grid: Grid, slot: int, s: Spot)
    requires
        grid.valid(),
        slot >= 0,
        grid.slot_x(slot) * 256 <= s.x < (grid.slot_x(slot) + grid.metrics.tile_w) * 256,
        grid.slot_y(slot) * 256 <= s.y < (grid.slot_y(slot) + grid.metrics.tile_h) * 256,
    ensures
        grid.slot_under(s) == Some(slot),
{
    let cols = grid.cols as int;
    let col = grid.col_of(slot);
    let row = grid.row_of(slot);
    let w = grid.metrics.tile_w as int;
    let h = grid.metrics.tile_h as int;
    assert(0 <= col < cols && 0 <= row && slot == cols * row + col) by {
        vstd::arithmetic::div_mod::lemma_fundamental_div_mod(slot, cols);
        vstd::arithmetic::div_mod::lemma_mod_bound(slot, cols);
        vstd::arithmetic::div_mod::lemma_div_pos_is_pos(slot, cols);
    }
    assert(cols * row == row * cols) by (nonlinear_arith);
    assert((col + 1) * w == col * w + w && (row + 1) * h == row * h + h && 0 <= col * w && 0 <= row
        * h) by (nonlinear_arith)
        requires
            0 <= col,
            0 <= row,
            w > 0,
            h > 0,
    ;
    let x = s.x - (grid.area.loc.x + grid.metrics.margin) * 256;
    let y = s.y - (grid.area.loc.y + grid.metrics.margin) * 256;
    tile_from_offset(x, w, col);
    tile_from_offset(y, h, row);
}

/// No two slots share a spot.
pub proof fn tiles_do_not_overlap(grid: Grid, a: int, b: int, s: Spot)
    requires
        grid.valid(),
        a >= 0,
        b >= 0,
        grid.slot_x(a) * 256 <= s.x < (grid.slot_x(a) + grid.metrics.tile_w) * 256,
        grid.slot_y(a) * 256 <= s.y < (grid.slot_y(a) + grid.metrics.tile_h) * 256,
        grid.slot_x(b) * 256 <= s.x < (grid.slot_x(b) + grid.metrics.tile_w) * 256,
        grid.slot_y(b) * 256 <= s.y < (grid.slot_y(b) + grid.metrics.tile_h) * 256,
    ensures
        a == b,
{
    a_slots_tile_is_on_that_slot(grid, a, s);
    a_slots_tile_is_on_that_slot(grid, b, s);
}

/// The slots follow one another from left to right and from the top down, starting in the corner
/// inside the margin: a slot is next to the one before it, or starts the row below.
pub proof fn slots_follow_one_another(grid: Grid, slot: int)
    requires
        grid.valid(),
        slot >= 0,
    ensures
        grid.slot_x(0) == grid.area.loc.x + grid.metrics.margin,
        grid.slot_y(0) == grid.area.loc.y + grid.metrics.margin,
        grid.slot_x(slot + 1) == grid.slot_x(slot) + grid.metrics.tile_w && grid.slot_y(slot + 1)
            == grid.slot_y(slot) || grid.slot_x(slot + 1) == grid.slot_x(0) && grid.slot_y(
            slot + 1,
        ) == grid.slot_y(slot) + grid.metrics.tile_h && (slot + 1) % grid.cols as int == 0,
{
    let cols = grid.cols as int;
    let col = slot % cols;
    let row = slot / cols;
    let w = grid.metrics.tile_w as int;
    let h = grid.metrics.tile_h as int;
    vstd::arithmetic::div_mod::lemma_fundamental_div_mod(slot, cols);
    vstd::arithmetic::div_mod::lemma_mod_bound(slot, cols);
    vstd::arithmetic::div_mod::lemma_fundamental_div_mod_converse(0, cols, 0, 0);
    assert(grid.col_of(0) == 0 && grid.row_of(0) == 0);
    assert(0 * w == 0 && 0 * h == 0) by (nonlinear_arith);
    assert(cols * row == row * cols) by (nonlinear_arith);
    if col + 1 < cols {
        vstd::arithmetic::div_mod::lemma_fundamental_div_mod_converse(
            slot + 1,
            cols,
            row,
            col + 1,
        );
        assert((col + 1) * w == col * w + w) by (nonlinear_arith);
    } else {
        assert((row + 1) * cols == row * cols + cols) by (nonlinear_arith);
        vstd::arithmetic::div_mod::lemma_fundamental_div_mod_converse(slot + 1, cols, row + 1, 0);
        assert((row + 1) * h == row * h + h) by (nonlinear_arith);
    }
}

/// A window is never minimized of its own accord into the first two columns of a wider grid, which
/// the toolchest sits over; where there are no more than two, any slot will do.
pub proof fn the_toolchest_is_left_room(grid: Grid, slot: int)
    requires
        grid.valid(),
        slot >= 0,
    ensures
        grid.cols > 2 ==> (grid.assignable(slot) <==> grid.slot_x(slot) >= grid.slot_x(2)),
        grid.cols <= 2 ==> grid.assignable(slot),
{
    let cols = grid.cols as int;
    let col = slot % cols;
    let w = grid.metrics.tile_w as int;
    vstd::arithmetic::div_mod::lemma_mod_bound(slot, cols);
    if cols > 2 {
        vstd::arithmetic::div_mod::lemma_small_mod(2, cols as nat);
        assert(col >= 2 <==> col * w >= 2 * w) by (nonlinear_arith)
            requires
                w > 0,
        ;
    }
}

} // verus!
