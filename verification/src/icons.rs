//! Minimized windows as icons on the first screen: which are shown and where, and how a tile is
//! clicked, dragged and dropped.
use vstd::prelude::*;

use crate::state::{
    a_listed_window_is_found, find, first_screen, found_is_listed, listed_once, Effect, Scene,
    Window, WindowState, Wlrix,
};
use crate::geometry::{fits, Rect, Size, Spot, UNIT};
use crate::minimized::{
    a_slots_tile_is_on_that_slot, columns, some_slot_is_free, Grid, IconDrag, IconMove,
};
use crate::window_ops::{
    assigning_grid, cell_for, fresh_cell, icon_cell, icons_of, occupied, remember, remember_finds,
    restore, Outcome,
};

verus! {

/// An icon into a list that is ordered by cell: behind those whose cell is no higher.
pub open spec fn placed_by_cell(icons: Seq<(u64, usize)>, icon: (u64, usize)) -> Seq<(u64, usize)>
    decreases icons.len(),
{
    if icons.len() > 0 && icons.last().1 > icon.1 {
        placed_by_cell(icons.drop_last(), icon).push(icons.last())
    } else {
        icons.push(icon)
    }
}

/// The icons in the order of their cells, those that share one in the order they came.
pub open spec fn by_cell(icons: Seq<(u64, usize)>) -> Seq<(u64, usize)>
    decreases icons.len(),
{
    if icons.len() == 0 {
        icons
    } else {
        placed_by_cell(by_cell(icons.drop_last()), icons.last())
    }
}

/// The icons that are shown, in the order of their cells.
pub open spec fn shown_icons(s: Scene) -> Seq<(u64, usize)> {
    by_cell(icons_of(s, s.hidden))
}

/// The first of the icons in a cell, but for one window's.
pub open spec fn icon_in_cell(icons: Seq<(u64, usize)>, cell: int, but: Option<u64>) -> Option<u64>
    decreases icons.len(),
{
    if icons.len() == 0 {
        None
    } else {
        match icon_in_cell(icons.drop_last(), cell, but) {
            Some(id) => Some(id),
            None => if icons.last().1 == cell && but != Some(icons.last().0) {
                Some(icons.last().0)
            } else {
                None
            },
        }
    }
}

/// The grid over the first screen's work area.
pub open spec fn grid_of(s: Scene) -> Option<Grid> {
    match first_screen(s.screens) {
        Some(screen) => Some(
            Grid {
                area: screen.area(),
                metrics: s.metrics,
                cols: columns(screen.zone.size.w as int, s.metrics) as i32,
            },
        ),
        None => None,
    }
}

/// The window whose tile on the first screen a spot is on.
pub open spec fn icon_at(s: Scene, at: Spot) -> Option<u64> {
    match grid_of(s) {
        Some(grid) => match grid.slot_under(at) {
            Some(cell) => icon_in_cell(shown_icons(s), cell, None),
            None => None,
        },
        None => None,
    }
}

/// Whether the cell that a spot is on, if it is on one, can be counted.
pub open spec fn can_count(s: Scene, at: Spot) -> bool {
    grid_of(s) matches Some(grid) ==> (grid.slot_under(at) matches Some(cell) ==> cell <= i32::MAX)
}

/// Moving a window's tile to a cell: whatever tile is there already takes the cell it leaves.
pub open spec fn move_to_cell(s: Scene, id: u64, cell: usize) -> Scene {
    match find(s.windows, id) {
        None => s,
        Some(w) => {
            let there = icon_in_cell(shown_icons(s), cell as int, Some(id));
            let swapped = match (there, w.state.icon_slot) {
                (Some(other), Some(from)) => match find(s.windows, other) {
                    Some(v) => remember(s, v, WindowState { icon_slot: Some(from), ..v.state }),
                    None => s,
                },
                _ => s,
            };
            remember(swapped, w, WindowState { icon_slot: Some(cell), ..w.state })
        },
    }
}

/// The middle of a moved tile.
pub open spec fn tile_middle(s: Scene, drag: IconDrag) -> Spot {
    Spot {
        x: (drag.origin().x * 256 + s.metrics.tile_w * 128) as i64,
        y: (drag.origin().y * 256 + s.metrics.tile_h * 128) as i64,
    }
}

/// Putting a moved tile down: it takes the cell under its middle.
pub open spec fn put_down(s: Scene, drag: IconDrag, at: Spot) -> Scene {
    let dropped = IconDrag { current: at, ..drag };
    match grid_of(s) {
        Some(grid) => match grid.slot_under(tile_middle(s, dropped)) {
            Some(cell) => move_to_cell(s, drag.window, cell as usize),
            None => s,
        },
        None => s,
    }
}

/// Whether a tile that is let go at a spot can be placed: its cell, if it is over one, can be
/// counted.
pub open spec fn can_put_down(s: Scene, drag: IconDrag, at: Spot) -> bool {
    let dropped = IconDrag { current: at, ..drag };
    &&& dropped.trackable()
    &&& grid_of(s) matches Some(grid) ==> (grid.slot_under(tile_middle(s, dropped)) matches Some(
        cell,
    ) ==> cell <= i32::MAX)
}

/// The cell that a window's tile is in; the first where it has none.
pub open spec fn held_cell(s: Scene, id: u64) -> usize {
    match find(s.windows, id) {
        Some(w) => match w.state.icon_slot {
            Some(cell) => cell,
            None => 0,
        },
        None => 0,
    }
}

/// The move of a window's tile that begins with the pointer at a spot; none without a screen to
/// have tiles on.
pub open spec fn tile_move(s: Scene, id: u64, at: Spot, end: IconMove) -> Option<IconDrag> {
    match grid_of(s) {
        Some(grid) => Some(
            IconDrag {
                window: id,
                grab_offset: Spot {
                    x: (at.x - grid.slot_x(held_cell(s, id) as int) * 256) as i64,
                    y: (at.y - grid.slot_y(held_cell(s, id) as int) * 256) as i64,
                },
                press: at,
                current: at,
                moved: false,
                end,
            },
        ),
        None => None,
    }
}

/// Beginning to move a window's tile.
pub open spec fn picked_up(s: Scene, id: u64, at: Spot, end: IconMove) -> Outcome {
    match tile_move(s, id, at, end) {
        Some(drag) => (Scene { icon_drag: Some(drag), ..s }, seq![Effect::Redraw]),
        None => (s, Seq::empty()),
    }
}

/// Whether a window's tile, and where on it a spot is, can be told.
pub open spec fn can_pick_up(s: Scene, id: u64, at: Spot) -> bool {
    let cell = held_cell(s, id) as int;
    grid_of(s) matches Some(grid) ==> {
        &&& cell <= i32::MAX
        &&& fits(grid.slot_x(cell))
        &&& fits(grid.slot_y(cell))
        &&& i64::MIN <= at.x - grid.slot_x(cell) * 256 <= i64::MAX
        &&& i64::MIN <= at.y - grid.slot_y(cell) * 256 <= i64::MAX
    }
}

/// Whether a tile waits for a click to be put down.
pub open spec fn awaits_click(s: Scene) -> bool {
    s.icon_drag matches Some(drag) && drag.end == IconMove::NextClick
}

/// A tile that is being moved, once the pointer is at a spot.
pub open spec fn carried(s: Scene, at: Spot) -> Outcome {
    match s.icon_drag {
        Some(held) => (
            Scene { icon_drag: Some(held.dragged_to(at)), ..s },
            seq![Effect::Redraw],
        ),
        None => (s, Seq::empty()),
    }
}

/// Dropping the tile that is being moved.
pub open spec fn dropped(s: Scene, at: Spot) -> Outcome {
    match s.icon_drag {
        Some(held) => (
            put_down(Scene { icon_drag: None, ..s }, held, at),
            seq![Effect::Redraw],
        ),
        None => (s, Seq::empty()),
    }
}

/// Letting go of a pressed tile: a click restores the window, a drag drops the tile. A tile that
/// waits for a click stays with the pointer.
pub open spec fn released(s: Scene, at: Spot) -> Outcome {
    match s.icon_drag {
        Some(held) => if held.end == IconMove::NextClick {
            (s, Seq::empty())
        } else if held.moved {
            dropped(s, at)
        } else {
            let (after, asked) = restore(Scene { icon_drag: None, ..s }, held.window);
            (after, asked.push(Effect::Redraw))
        },
        None => (s, Seq::empty()),
    }
}

proof fn icon_in_cell_skips(icons: Seq<(u64, usize)>, cell: int, but: Option<u64>, upto: int)
    requires
        0 <= upto <= icons.len(),
        icon_in_cell(icons.take(upto), cell, but) is Some,
    ensures
        icon_in_cell(icons, cell, but) == icon_in_cell(icons.take(upto), cell, but),
    decreases icons.len(),
{
    if upto == icons.len() {
        assert(icons.take(upto) =~= icons);
    } else {
        assert(icons.drop_last().take(upto) =~= icons.take(upto));
        icon_in_cell_skips(icons.drop_last(), cell, but, upto);
    }
}

/// The first of the icons in a cell, but for one window's.
fn find_icon(icons: &[(u64, usize)], cell: usize, but: Option<u64>) -> (id: Option<u64>)
    ensures
        id == icon_in_cell(icons@, cell as int, but),
{
    let mut i: usize = 0;
    while i < icons.len()
        invariant
            i <= icons@.len(),
            icon_in_cell(icons@.take(i as int), cell as int, but) is None,
        decreases icons.len() - i,
    {
        let (id, at) = icons[i];
        i += 1;
        let excluded = match but {
            Some(other) => other == id,
            None => false,
        };
        proof {
            assert(icons@.take(i as int).drop_last() =~= icons@.take(i - 1));
            if at == cell && !excluded {
                icon_in_cell_skips(icons@, cell as int, but, i as int);
            }
        }
        if at == cell && !excluded {
            return Some(id);
        }
    }
    assert(icons@.take(icons@.len() as int) =~= icons@);
    None
}

proof fn placed_within(icons: Seq<(u64, usize)>, icon: (u64, usize), at: int)
    requires
        0 <= at <= icons.len(),
        forall|j: int| at <= j < icons.len() ==> (#[trigger] icons[j]).1 > icon.1,
        at > 0 ==> icons[at - 1].1 <= icon.1,
    ensures
        placed_by_cell(icons, icon) == icons.insert(at, icon),
    decreases icons.len(),
{
    if at < icons.len() {
        assert(icons[icons.len() - 1].1 > icon.1);
        let fewer = icons.drop_last();
        assert forall|j: int| at <= j < fewer.len() implies (#[trigger] fewer[j]).1 > icon.1 by {
            assert(icons[j].1 > icon.1);
        }
        placed_within(fewer, icon, at);
        assert(fewer.insert(at, icon).push(icons.last()) =~= icons.insert(at, icon));
    } else {
        assert(icons.push(icon) =~= icons.insert(at, icon));
    }
}

impl Wlrix {
    /// The icon grid over the first screen's work area, if there is a screen.
    pub fn icon_grid(&self) -> (grid: Option<Grid>)
        requires
            self@.sound(),
        ensures
            grid == grid_of(self@),
            grid matches Some(grid) ==> grid.valid(),
    {
        match self.primary() {
            Some(screen) => {
                assert(self@.screens[0].sound());
                Some(Grid::new(screen.work_area(), self.metrics))
            },
            None => None,
        }
    }

    /// The minimized windows currently shown as icons, each with the slot it occupies. Order is
    /// by slot.
    pub fn minimized_icons(&self) -> (icons: Vec<(u64, usize)>)
        ensures
            icons@ == shown_icons(self@),
    {
        let mut icons: Vec<(u64, usize)> = Vec::new();
        let mut i: usize = 0;
        assert(self.hidden@.take(0) =~= Seq::empty());
        while i < self.hidden.len()
            invariant
                i <= self.hidden@.len(),
                icons@ == by_cell(icons_of(self@, self.hidden@.take(i as int))),
            decreases self.hidden.len() - i,
        {
            let id: u64 = self.hidden[i];
            i += 1;
            let ghost ids = self.hidden@.take(i as int);
            assert(ids.drop_last() =~= self.hidden@.take(i - 1));
            let ghost before = icons_of(self@, ids.drop_last());
            if let Some(cell) = self.cell_shown(id) {
                assert(icons_of(self@, ids).drop_last() =~= before);
                let mut at: usize = icons.len();
                while at > 0 && icons[at - 1].1 > cell
                    invariant
                        at <= icons@.len(),
                        forall|j: int| at <= j < icons@.len() ==> (#[trigger] icons@[j]).1 > cell,
                    decreases at,
                {
                    at -= 1;
                }
                proof {
                    placed_within(icons@, (id, cell), at as int);
                }
                icons.insert(at, (id, cell));
            }
        }
        assert(self.hidden@.take(self.hidden@.len() as int) =~= self.hidden@);
        icons
    }

    fn cell_shown(&self, id: u64) -> (cell: Option<usize>)
        ensures
            cell == icon_cell(self@, id),
    {
        match self.window(id) {
            Some(w) => {
                if w.state.minimized && self.shows(w.state.desk) {
                    w.state.icon_slot
                } else {
                    None
                }
            },
            None => None,
        }
    }

    /// The minimized window whose tile of a grid is under a spot, if any.
    pub fn icon_in_grid(&self, grid: &Grid, s: Spot) -> (id: Option<u64>)
        requires
            grid.valid(),
            grid.slot_under(s) matches Some(cell) ==> cell <= i32::MAX,
        ensures
            id == match grid.slot_under(s) {
                Some(cell) => icon_in_cell(shown_icons(self@), cell, None),
                None => None,
            },
    {
        match grid.slot_at(s) {
            Some(cell) => find_icon(self.minimized_icons().as_slice(), cell, None),
            None => None,
        }
    }

    /// The minimized window whose tile is under a spot on the first screen, if any.
    pub fn icon_under(&self, s: Spot) -> (id: Option<u64>)
        requires
            self@.sound(),
            can_count(self@, s),
        ensures
            id == icon_at(self@, s),
    {
        match self.icon_grid() {
            Some(grid) => self.icon_in_grid(&grid, s),
            None => None,
        }
    }

    /// The window whose tile is following the pointer, and where that tile is right now; none
    /// until a press has become a drag.
    pub fn dragged_icon(&self) -> (tile: Option<(u64, Rect)>)
        requires
            self@.icon_drag matches Some(drag) ==> drag.trackable(),
        ensures
            tile == match self@.icon_drag {
                Some(drag) => if drag.dragging() {
                    Some(
                        (
                            drag.window,
                            Rect {
                                loc: drag.origin(),
                                size: Size { w: self@.metrics.tile_w, h: self@.metrics.tile_h },
                            },
                        ),
                    )
                } else {
                    None
                },
                None => None,
            },
    {
        match self.icon_drag {
            Some(drag) => {
                if drag.is_drag() {
                    Some(
                        (
                            drag.window,
                            Rect {
                                loc: drag.tile_origin(),
                                size: Size { w: self.metrics.tile_w, h: self.metrics.tile_h },
                            },
                        ),
                    )
                } else {
                    None
                }
            },
            None => None,
        }
    }

    /// Begins a press on a minimized icon: motion can turn it into a drag, and release restores
    /// the window or drops the tile.
    pub fn press_icon(&mut self, id: u64, at: Spot) -> (effects: Vec<Effect>)
        requires
            old(self)@.sound(),
            can_pick_up(old(self)@, id, at),
        ensures
            (final(self)@, effects@) == picked_up(old(self)@, id, at, IconMove::Drag),
    {
        self.begin_icon_move(id, at, IconMove::Drag)
    }

    /// Starts a menu-driven tile move: with no button held, the tile follows the pointer until
    /// the next click drops it.
    pub fn start_menu_icon_move(&mut self, id: u64, at: Spot) -> (effects: Vec<Effect>)
        requires
            old(self)@.sound(),
            can_pick_up(old(self)@, id, at),
        ensures
            (final(self)@, effects@) == picked_up(old(self)@, id, at, IconMove::NextClick),
    {
        self.begin_icon_move(id, at, IconMove::NextClick)
    }

    /// Begins moving a window's tile from a spot, ending as `end` says. A desktop without a
    /// screen has no tile to move.
    pub fn begin_icon_move(&mut self, id: u64, at: Spot, end: IconMove) -> (effects: Vec<Effect>)
        requires
            old(self)@.sound(),
            can_pick_up(old(self)@, id, at),
        ensures
            (final(self)@, effects@) == picked_up(old(self)@, id, at, end),
    {
        let mut effects: Vec<Effect> = Vec::new();
        let cell: usize = match self.window(id) {
            Some(w) => match w.state.icon_slot {
                Some(cell) => cell,
                None => 0,
            },
            None => 0,
        };
        if let Some(grid) = self.icon_grid() {
            let tile = grid.slot_rect(cell);
            self.icon_drag = Some(
                IconDrag {
                    window: id,
                    grab_offset: Spot {
                        x: at.x - tile.loc.x as i64 * UNIT,
                        y: at.y - tile.loc.y as i64 * UNIT,
                    },
                    press: at,
                    current: at,
                    moved: false,
                    end,
                },
            );
            effects.push(Effect::Redraw);
        }
        effects
    }

    /// Whether a tile is mid-move waiting for a click to drop it.
    pub fn icon_move_awaits_click(&self) -> (r: bool)
        ensures
            r == awaits_click(self@),
    {
        match self.icon_drag {
            Some(drag) => drag.end == IconMove::NextClick,
            None => false,
        }
    }

    /// Updates a tile drag as the pointer moves.
    pub fn drag_icon(&mut self, at: Spot) -> (effects: Vec<Effect>)
        ensures
            (final(self)@, effects@) == carried(old(self)@, at),
    {
        let mut effects: Vec<Effect> = Vec::new();
        if let Some(held) = self.icon_drag {
            let mut held = held;
            held.drag_to(at);
            self.icon_drag = Some(held);
            effects.push(Effect::Redraw);
        }
        effects
    }

    /// Moves a window's tile to `cell`, swapping cells with any window already there so that no
    /// two tiles share a cell.
    pub fn move_icon_to_slot(&mut self, id: u64, cell: usize)
        ensures
            final(self)@ == move_to_cell(old(self)@, id, cell),
    {
        let w = match self.window(id) {
            Some(w) => w,
            None => {
                return ;
            },
        };
        let there = find_icon(self.minimized_icons().as_slice(), cell, Some(id));
        if let (Some(other), Some(from)) = (there, w.state.icon_slot) {
            if let Some(v) = self.window(other) {
                let mut swapped = v.state;
                swapped.icon_slot = Some(from);
                self.remember(&v, swapped);
            }
        }
        let mut moved = w.state;
        moved.icon_slot = Some(cell);
        self.remember(&w, moved);
    }

    /// Puts a moved tile down: it takes the cell under its middle.
    pub fn place_icon(&mut self, drag: IconDrag, at: Spot)
        requires
            old(self)@.sound(),
            can_put_down(old(self)@, drag, at),
        ensures
            final(self)@ == put_down(old(self)@, drag, at),
    {
        let mut dropped = drag;
        dropped.current = at;
        if let Some(grid) = self.icon_grid() {
            let origin = dropped.tile_origin();
            let middle = Spot {
                x: origin.x as i64 * UNIT + self.metrics.tile_w as i64 * 128,
                y: origin.y as i64 * UNIT + self.metrics.tile_h as i64 * 128,
            };
            if let Some(cell) = grid.slot_at(middle) {
                self.move_icon_to_slot(drag.window, cell);
            }
        }
    }

    /// Finishes a tile press: a click restores the window, a drag drops the tile on the cell
    /// under it. A menu-driven move ignores releases; it is ended by the next press.
    pub fn release_icon(&mut self, at: Spot) -> (effects: Vec<Effect>)
        requires
            old(self)@.sound(),
            old(self)@.icon_drag matches Some(drag) ==> can_put_down(old(self)@, drag, at),
        ensures
            (final(self)@, effects@) == released(old(self)@, at),
    {
        if self.icon_move_awaits_click() {
            return Vec::new();
        }
        match self.icon_drag {
            Some(held) => {
                if held.is_drag() {
                    return self.drop_icon(at);
                }
                self.icon_drag = None;
                let mut effects = self.restore_window(held.window);
                effects.push(Effect::Redraw);
                effects
            },
            None => Vec::new(),
        }
    }

    /// Drops a tile that has been following the pointer, on the click that ends its move.
    pub fn drop_icon(&mut self, at: Spot) -> (effects: Vec<Effect>)
        requires
            old(self)@.sound(),
            old(self)@.icon_drag matches Some(drag) ==> can_put_down(old(self)@, drag, at),
        ensures
            (final(self)@, effects@) == dropped(old(self)@, at),
    {
        let mut effects: Vec<Effect> = Vec::new();
        if let Some(held) = self.icon_drag {
            self.icon_drag = None;
            self.place_icon(held, at);
            effects.push(Effect::Redraw);
        }
        effects
    }
}

proof fn placing_keeps_order(icons: Seq<(u64, usize)>, icon: (u64, usize))
    requires
        forall|i: int, j: int|
            0 <= i < j < icons.len() ==> (#[trigger] icons[i]).1 <= (#[trigger] icons[j]).1,
    ensures
        ({
            let all = placed_by_cell(icons, icon);
            &&& forall|i: int, j: int|
                0 <= i < j < all.len() ==> (#[trigger] all[i]).1 <= (#[trigger] all[j]).1
            &&& all.to_multiset() == icons.to_multiset().insert(icon)
        }),
    decreases icons.len(),
{
    broadcast use vstd::seq_lib::group_to_multiset_ensures;

    let all = placed_by_cell(icons, icon);
    if icons.len() > 0 && icons.last().1 > icon.1 {
        let fewer = icons.drop_last();
        assert forall|i: int, j: int| 0 <= i < j < fewer.len() implies (#[trigger] fewer[i]).1 <= (
        #[trigger] fewer[j]).1 by {
            assert(icons[i].1 <= icons[j].1);
        }
        placing_keeps_order(fewer, icon);
        let most = placed_by_cell(fewer, icon);
        assert forall|i: int| 0 <= i < most.len() implies (#[trigger] most[i]).1 <= icons.last().1 by {
            assert(most.to_multiset().contains(most[i]));
            assert(fewer.to_multiset().insert(icon).contains(most[i]));
            if most[i] != icon {
                assert(fewer.to_multiset().contains(most[i]));
                assert(fewer.contains(most[i]));
                let k = fewer.index_of(most[i]);
                assert(icons[k].1 <= icons[icons.len() - 1].1);
            }
        }
        assert(icons =~= fewer.push(icons.last()));
        assert(all.to_multiset() =~= icons.to_multiset().insert(icon));
    } else {
        assert forall|i: int, j: int| 0 <= i < j < all.len() implies (#[trigger] all[i]).1 <= (
        #[trigger] all[j]).1 by {
            if j == icons.len() {
                if i < icons.len() - 1 {
                    assert(icons[i].1 <= icons[icons.len() - 1].1);
                }
            } else {
                assert(icons[i].1 <= icons[j].1);
            }
        }
        assert(all.to_multiset() =~= icons.to_multiset().insert(icon));
    }
}

/// The icons are listed by cell, and listing them so loses and adds none.
pub proof fn icons_are_listed_by_cell(icons: Seq<(u64, usize)>)
    ensures
        forall|i: int, j: int|
            0 <= i < j < by_cell(icons).len() ==> (#[trigger] by_cell(icons)[i]).1 <= (
            #[trigger] by_cell(icons)[j]).1,
        by_cell(icons).to_multiset() == icons.to_multiset(),
    decreases icons.len(),
{
    broadcast use vstd::seq_lib::group_to_multiset_ensures;

    if icons.len() > 0 {
        icons_are_listed_by_cell(icons.drop_last());
        placing_keeps_order(by_cell(icons.drop_last()), icons.last());
        assert(icons =~= icons.drop_last().push(icons.last()));
    }
}

proof fn icons_of_lists(s: Scene, ids: Seq<u64>, id: u64, cell: usize)
    ensures
        icons_of(s, ids).contains((id, cell)) <==> ids.contains(id) && icon_cell(s, id) == Some(
            cell,
        ),
    decreases ids.len(),
{
    if ids.len() > 0 {
        let fewer = ids.drop_last();
        icons_of_lists(s, fewer, id, cell);
        let before = icons_of(s, fewer);
        let all = icons_of(s, ids);
        if fewer.contains(id) {
            let i = fewer.index_of(id);
            assert(ids[i] == id);
        }
        if ids.contains(id) && ids.last() != id {
            let i = ids.index_of(id);
            assert(fewer[i] == id);
        }
        if icon_cell(s, ids.last()) is Some {
            let last = (ids.last(), icon_cell(s, ids.last())->0);
            assert(all == before.push(last));
            if before.contains((id, cell)) {
                let i = before.index_of((id, cell));
                assert(all[i] == (id, cell));
            }
            if all.contains((id, cell)) && !before.contains((id, cell)) {
                let i = all.index_of((id, cell));
                assert(i == before.len()) by {
                    if i < before.len() {
                        assert(before[i] == (id, cell));
                    }
                }
                assert(ids[ids.len() - 1] == id);
            }
            if ids.last() == id && icon_cell(s, id) == Some(cell) {
                assert(all[all.len() - 1] == (id, cell));
            }
        } else {
            if ids.last() == id {
                assert(!before.contains((id, cell)) || fewer.contains(id));
            }
        }
        if ids.last() == id {
            assert(ids[ids.len() - 1] == id);
        }
    }
}

pub proof fn shown_icons_list(s: Scene, id: u64, cell: usize)
    ensures
        shown_icons(s).contains((id, cell)) <==> s.hidden.contains(id) && icon_cell(s, id) == Some(
            cell,
        ),
{
    broadcast use vstd::seq_lib::group_to_multiset_ensures;

    icons_of_lists(s, s.hidden, id, cell);
    icons_are_listed_by_cell(icons_of(s, s.hidden));
    let listed = shown_icons(s);
    let icons = icons_of(s, s.hidden);
    assert(listed.to_multiset().contains((id, cell)) <==> listed.contains((id, cell)));
    assert(icons.to_multiset().contains((id, cell)) <==> icons.contains((id, cell)));
}

pub proof fn icon_in_cell_is_listed(icons: Seq<(u64, usize)>, cell: usize, but: Option<u64>)
    ensures
        match icon_in_cell(icons, cell as int, but) {
            Some(id) => icons.contains((id, cell)) && but != Some(id),
            None => forall|id: u64| but != Some(id) ==> !#[trigger] icons.contains((id, cell)),
        },
    decreases icons.len(),
{
    if icons.len() > 0 {
        let fewer = icons.drop_last();
        icon_in_cell_is_listed(fewer, cell, but);
        match icon_in_cell(icons, cell as int, but) {
            Some(id) => {
                if icon_in_cell(fewer, cell as int, but) is Some {
                    let i = fewer.index_of((id, cell));
                    assert(icons[i] == (id, cell));
                } else {
                    assert(icons[icons.len() - 1] == (id, cell));
                }
            },
            None => {
                assert forall|id: u64| but != Some(id) implies !#[trigger] icons.contains((id, cell)) by {
                    if icons.contains((id, cell)) {
                        let i = icons.index_of((id, cell));
                        if i < fewer.len() {
                            assert(fewer[i] == (id, cell));
                            assert(fewer.contains((id, cell)));
                        }
                    }
                }
            },
        }
    }
}

/// Whether no two of the icons that are shown share a cell.
pub open spec fn cells_differ(s: Scene) -> bool {
    forall|a: u64, b: u64|
        s.hidden.contains(a) && s.hidden.contains(b) && a != b && #[trigger] icon_cell(s, a) is Some
            ==> icon_cell(s, a) != #[trigger] icon_cell(s, b)
}

/// Moving a tile to a cell swaps it with the tile that is there, so no two tiles come to share a
/// cell.
pub proof fn moving_a_tile_keeps_cells_apart(s: Scene, id: u64, cell: usize)
    requires
        cells_differ(s),
        s.hidden.contains(id),
        icon_cell(s, id) is Some,
    ensures
        cells_differ(move_to_cell(s, id, cell)),
        icon_cell(move_to_cell(s, id, cell), id) == Some(cell),
{
    let w = find(s.windows, id)->0;
    let i = found_is_listed(s.windows, id);
    let from = w.state.icon_slot->0;
    let there = icon_in_cell(shown_icons(s), cell as int, Some(id));
    icon_in_cell_is_listed(shown_icons(s), cell, Some(id));
    let moved = WindowState { icon_slot: Some(cell), ..w.state };
    let after = move_to_cell(s, id, cell);
    match there {
        Some(other) => {
            shown_icons_list(s, other, cell);
            let v = find(s.windows, other)->0;
            let j = found_is_listed(s.windows, other);
            let swapped = WindowState { icon_slot: Some(from), ..v.state };
            remember_finds(s, v, swapped);
            let middle = remember(s, v, swapped);
            assert(find(middle.windows, id) == find(s.windows, id));
            remember_finds(middle, w, moved);
            assert(find(after.windows, other) == find(middle.windows, other));
            assert forall|a: u64| a != id && a != other implies #[trigger] icon_cell(after, a)
                == icon_cell(s, a) by {
                assert(find(middle.windows, a) == find(s.windows, a));
                assert(find(after.windows, a) == find(middle.windows, a));
            }
            assert(icon_cell(after, other) == Some(from));
            assert forall|a: u64, b: u64|
                after.hidden.contains(a) && after.hidden.contains(b) && a != b
                    && #[trigger] icon_cell(after, a) is Some implies icon_cell(after, a)
                != #[trigger] icon_cell(after, b) by {
                assert(icon_cell(s, a) != icon_cell(s, b) || icon_cell(s, a) is None);
                assert(icon_cell(s, b) != icon_cell(s, a) || icon_cell(s, b) is None);
                assert(icon_cell(s, id) is Some && icon_cell(s, other) is Some);
                assert(a != id ==> icon_cell(s, id) != icon_cell(s, a));
                assert(b != id ==> icon_cell(s, id) != icon_cell(s, b));
                assert(a != other ==> icon_cell(s, other) != icon_cell(s, a));
                assert(b != other ==> icon_cell(s, other) != icon_cell(s, b));
            }
        },
        None => {
            remember_finds(s, w, moved);
            assert forall|a: u64| a != id implies #[trigger] icon_cell(after, a) == icon_cell(s, a) by {
                assert(find(after.windows, a) == find(s.windows, a));
            }
            assert forall|a: u64, b: u64|
                after.hidden.contains(a) && after.hidden.contains(b) && a != b
                    && #[trigger] icon_cell(after, a) is Some implies icon_cell(after, a)
                != #[trigger] icon_cell(after, b) by {
                if a == id {
                    shown_icons_list(s, b, cell);
                } else if b == id {
                    shown_icons_list(s, a, cell);
                } else {
                    assert(icon_cell(s, a) != icon_cell(s, b));
                }
            }
        },
    }
}

proof fn a_lowest_free_cell_is_below(grid: Grid, taken: Seq<usize>, free: usize) -> (lowest: usize)
    requires
        grid.assignable(free as int),
        !taken.contains(free),
    ensures
        grid.lowest_free(taken, lowest),
    decreases free,
{
    if exists|lower: usize|
        lower < free && !taken.contains(lower) && #[trigger] grid.assignable(lower as int) {
        let lower = choose|lower: usize|
            lower < free && !taken.contains(lower) && #[trigger] grid.assignable(lower as int);
        a_lowest_free_cell_is_below(grid, taken, lower)
    } else {
        free
    }
}

/// A window that is minimized gets a cell that no icon on show holds; where it takes a fresh
/// one, the cell is outside the columns that the compositor leaves alone.
pub proof fn a_minimized_window_gets_a_free_cell(s: Scene, w: Window)
    requires
        s.metrics.valid(),
        assigning_grid(s).valid(),
        (occupied(s, w.id).len() + 1) * assigning_grid(s).cols <= usize::MAX,
    ensures
        !occupied(s, w.id).contains(cell_for(s, w)),
        cell_for(s, w) == w.state.icon_slot->0 && w.state.icon_slot is Some || assigning_grid(
            s,
        ).assignable(cell_for(s, w) as int),
{
    let grid = assigning_grid(s);
    let taken = occupied(s, w.id);
    let free = some_slot_is_free(grid, taken);
    let lowest = a_lowest_free_cell_is_below(grid, taken, free);
    assert(grid.lowest_free(taken, fresh_cell(grid, taken)));
}

/// A tile that is picked up stays where it was under the pointer, and belongs to its window; as the
/// pointer moves it keeps as far from the pointer as it was.
pub proof fn a_tile_goes_along_with_the_pointer(
    s: Scene,
    id: u64,
    at: Spot,
    end: IconMove,
    next: Spot,
    grid: Grid,
)
    requires
        grid_of(s) == Some(grid),
        can_pick_up(s, id, at),
    ensures
        ({
            let cell = held_cell(s, id) as int;
            let held = picked_up(s, id, at, end).0.icon_drag;
            let moved = carried(picked_up(s, id, at, end).0, next).0.icon_drag;
            &&& held is Some && held->0.window == id && held->0.end == end && !held->0.moved
            &&& held->0.current == at && held->0.press == at
            &&& held->0.current.x - held->0.grab_offset.x == 256 * grid.slot_x(cell)
            &&& held->0.current.y - held->0.grab_offset.y == 256 * grid.slot_y(cell)
            &&& moved is Some && moved->0.window == id && moved->0.end == end
            &&& moved->0.current == next && moved->0.press == at
            &&& moved->0.current.x - moved->0.grab_offset.x == 256 * grid.slot_x(cell) + next.x
                - at.x
            &&& moved->0.current.y - moved->0.grab_offset.y == 256 * grid.slot_y(cell) + next.y
                - at.y
        }),
{
}

/// A tile that is dropped goes to the cell that its middle is over, and is no longer carried.
pub proof fn a_dropped_tile_takes_the_cell_under_it(
    s: Scene,
    i: int,
    drag: IconDrag,
    at: Spot,
    grid: Grid,
    cell: usize,
)
    requires
        listed_once(s.windows, i),
        s.icon_drag == Some(drag),
        drag.window == s.windows[i].id,
        grid_of(s) == Some(grid),
        grid.valid(),
        ({
            let corner = (IconDrag { current: at, ..drag }).origin();
            let x = corner.x * 256 + s.metrics.tile_w * 128;
            let y = corner.y * 256 + s.metrics.tile_h * 128;
            let (left, top) = (grid.slot_x(cell as int), grid.slot_y(cell as int));
            &&& left * 256 <= x < (left + grid.metrics.tile_w) * 256
            &&& top * 256 <= y < (top + grid.metrics.tile_h) * 256
        }),
    ensures
        dropped(s, at).0.windows[i].state.icon_slot == Some(cell),
        dropped(s, at).0.icon_drag is None,
        dropped(s, at).0.stack == s.stack && dropped(s, at).0.hidden == s.hidden,
{
    let free = Scene { icon_drag: None, ..s };
    let w = s.windows[i];
    a_listed_window_is_found(s.windows, i);
    let middle = tile_middle(free, IconDrag { current: at, ..drag });
    a_slots_tile_is_on_that_slot(grid, cell as int, middle);
    assert(grid_of(free) == grid_of(s));
    assert(grid.slot_under(middle) == Some(cell as int));
    assert(put_down(free, drag, at) == move_to_cell(free, drag.window, cell));
    let there = icon_in_cell(shown_icons(free), cell as int, Some(w.id));
    if let Some(other) = there {
        if find(s.windows, other) is Some {
            let k = found_is_listed(s.windows, other);
        }
    }
}

} // verus!
