//! The window menu: its items, its layout, and what choosing an item asks for.
use vstd::prelude::*;

use crate::state::{find, Wlrix, Effect, Scene, Window};
use crate::geometry::{fits, larger, max, min, smaller, Point, Rect, Size, Spot};
use crate::keybinds::{spelling, Bindings, Combo};
use crate::opening::held_within;
use crate::outputs::held_text;
use crate::table::{Key, Table};
use crate::window_ops::{
    countable, lower, maximize, minimize, raise, restore, restoring_is_sound, screen_of,
    screen_of_is_sound, unmaximize, Outcome,
};

verus! {

/// What choosing an item does.
#[derive(Debug, Clone, Copy, PartialEq, Eq, Hash, Structural)]
pub enum MenuAction {
    /// Un-minimize a minimized window, or return a maximized one to its previous size.
    Restore,
    /// Move the window with the pointer until the next click.
    Move,
    /// Resize the window with the pointer, from the edge it is nearest.
    Size,
    Minimize,
    Maximize,
    Raise,
    Lower,
    Close,
}

impl Key for MenuAction {
    type Of = MenuAction;

    open spec fn of(&self) -> MenuAction {
        *self
    }

    fn same(&self, other: &Self) -> (r: bool) {
        *self == *other
    }
}

/// Height of an ordinary item row.
pub const ITEM_H: i32 = 22;

/// Height of a separator row.
pub const SEPARATOR_H: i32 = 7;

/// The narrowest the panel is drawn.
pub const MIN_WIDTH: i32 = 156;

/// Margin between the panel edge and the item rows.
pub const MARGIN: i32 = 3;

/// Inset of an item's label from the left of its row, and of its accelerator from the right.
pub const LABEL_INSET: i32 = 14;

/// The least space left between a label and the accelerator printed after it.
pub const ACCEL_GAP: i32 = 24;

/// One row of the menu. A separator is a row with no action.
pub struct Entry {
    pub action: Option<MenuAction>,
    pub label: &'static str,
    /// The key combination bound to this item, printed right-aligned after the label; none when
    /// nothing is bound to the action.
    pub accel: Option<String>,
    pub enabled: bool,
    pub height: i32,
}

/// The names of keys, by keysym.
pub type KeyNames = Table<u32, String>;

/// The name of a key; a key without one has the empty name.
pub open spec fn key_name(names: Map<u32, String>, sym: u32) -> Seq<char> {
    if names.dom().contains(sym) {
        names[sym]@
    } else {
        Seq::empty()
    }
}

/// What is printed beside a menu item: the spelling of the combination bound to it.
pub open spec fn accelerator(
    menu: Map<MenuAction, Combo>,
    names: Map<u32, String>,
    action: MenuAction,
) -> Option<Seq<char>> {
    if menu.dom().contains(action) {
        Some(spelling(menu[action], key_name(names, menu[action].sym)))
    } else {
        None
    }
}

/// What the menu needs to know of its window.
#[derive(Debug, Clone, Copy, PartialEq, Eq, Structural)]
pub struct MenuState {
    pub minimized: bool,
    pub maximized: bool,
    /// Whether any axis can be sized.
    pub resizable: bool,
    pub minimizable: bool,
    pub maximizable: bool,
}

/// The rows of a window menu, top to bottom: what each does and whether it can be chosen. The
/// one without an action is a separator.
pub open spec fn rows_for(s: MenuState) -> Seq<(Option<MenuAction>, Seq<char>, bool)> {
    seq![
        (Some(MenuAction::Restore), "Restore"@, s.minimized || s.maximized),
        (Some(MenuAction::Move), "Move"@, true),
        (Some(MenuAction::Size), "Size"@, !s.minimized && s.resizable),
        (Some(MenuAction::Minimize), "Minimize"@, !s.minimized && s.minimizable),
        (Some(MenuAction::Maximize), "Maximize"@, !s.maximized && s.maximizable),
        (Some(MenuAction::Raise), "Raise"@, true),
        (Some(MenuAction::Lower), "Lower"@, true),
        (None, ""@, false),
        (Some(MenuAction::Close), "Close"@, true),
    ]
}

impl Entry {
    /// Whether the row is the one that `row` says, with the accelerator that is bound to it.
    pub open spec fn is_row(
        self,
        row: (Option<MenuAction>, Seq<char>, bool),
        menu: Map<MenuAction, Combo>,
        names: Map<u32, String>,
    ) -> bool {
        &&& self.action == row.0
        &&& self.label@ == row.1
        &&& self.enabled == row.2
        &&& self.height == if row.0 is Some {
            ITEM_H
        } else {
            SEPARATOR_H
        }
        &&& held_text(self.accel) == match row.0 {
            Some(action) => accelerator(menu, names, action),
            None => None,
        }
    }

    pub fn separator() -> (entry: Self)
        ensures
            entry.action is None,
            entry.label@ == ""@,
            entry.accel is None,
            !entry.enabled,
            entry.height == SEPARATOR_H,
    {
        Entry { action: None, label: "", accel: None, enabled: false, height: SEPARATOR_H }
    }

    pub fn item(
        action: MenuAction,
        label: &'static str,
        enabled: bool,
        bindings: &Bindings,
        names: &KeyNames,
    ) -> (entry: Self)
        ensures
            entry.is_row((Some(action), label@, enabled), bindings.menu(), names@),
    {
        let accel: Option<String> = match bindings.menu_combo(action) {
            Some(combo) => match names.get(&combo.sym) {
                Some(name) => Some(combo.to_string(name.as_str())),
                None => {
                    proof {
                        reveal_strlit("");
                        assert(""@ =~= Seq::empty());
                    }
                    Some(combo.to_string(""))
                },
            },
            None => None,
        };
        Entry { action: Some(action), label, accel, enabled, height: ITEM_H }
    }

    /// Whether this row is a separator rather than a choosable item.
    pub fn is_separator(&self) -> (r: bool)
        ensures
            r == (self.action is None),
    {
        self.action.is_none()
    }
}

/// Whether the rows are those that are meant, each with the accelerator that is bound to it.
pub open spec fn are_rows(
    entries: Seq<Entry>,
    rows: Seq<(Option<MenuAction>, Seq<char>, bool)>,
    menu: Map<MenuAction, Combo>,
    names: Map<u32, String>,
) -> bool {
    &&& entries.len() == rows.len()
    &&& forall|i: int|
        0 <= i < entries.len() ==> (#[trigger] entries[i]).is_row(rows[i], menu, names)
}

/// What the menu of a window goes by: the window's own states, and what it will allow.
pub open spec fn state_of(w: Window, resizable: bool) -> MenuState {
    MenuState {
        minimized: w.state.minimized,
        maximized: w.state.maximized,
        resizable,
        minimizable: w.minimizable,
        maximizable: w.maximizable,
    }
}

/// What the menu of a window goes by; `resizable` is whether any axis of it can be sized.
pub fn menu_state(w: &Window, resizable: bool) -> (state: MenuState)
    ensures
        state == state_of(*w, resizable),
{
    MenuState {
        minimized: w.state.minimized,
        maximized: w.state.maximized,
        resizable,
        minimizable: w.minimizable,
        maximizable: w.maximizable,
    }
}

/// The rows of the menu for a window, each enabled according to the window's state and labelled
/// with whatever is currently bound to it.
pub fn entries_for(state: MenuState, bindings: &Bindings, names: &KeyNames) -> (entries: Vec<Entry>)
    ensures
        are_rows(entries@, rows_for(state), bindings.menu(), names@),
{
    let mut entries: Vec<Entry> = Vec::new();
    entries.push(
        Entry::item(
            MenuAction::Restore,
            "Restore",
            state.minimized || state.maximized,
            bindings,
            names,
        ),
    );
    entries.push(Entry::item(MenuAction::Move, "Move", true, bindings, names));
    entries.push(
        Entry::item(MenuAction::Size, "Size", !state.minimized && state.resizable, bindings, names),
    );
    entries.push(
        Entry::item(
            MenuAction::Minimize,
            "Minimize",
            !state.minimized && state.minimizable,
            bindings,
            names,
        ),
    );
    entries.push(
        Entry::item(
            MenuAction::Maximize,
            "Maximize",
            !state.maximized && state.maximizable,
            bindings,
            names,
        ),
    );
    entries.push(Entry::item(MenuAction::Raise, "Raise", true, bindings, names));
    entries.push(Entry::item(MenuAction::Lower, "Lower", true, bindings, names));
    entries.push(Entry::separator());
    entries.push(Entry::item(MenuAction::Close, "Close", true, bindings, names));
    entries
}

/// The height of the first `n` rows together.
pub open spec fn height_of(entries: Seq<Entry>, n: int) -> int
    decreases n,
{
    if n <= 0 {
        0
    } else {
        height_of(entries, n - 1) + entries[n - 1].height
    }
}

/// Whether the panel of these rows, laid out from `origin` with a width, can be told in `i32`s.
/// No row has a negative height.
pub open spec fn laid_out(entries: Seq<Entry>, origin: Point, width: i32) -> bool {
    &&& forall|i: int| 0 <= i < entries.len() ==> (#[trigger] entries[i]).height >= 0
    &&& fits(height_of(entries, entries.len() as int) + 2 * MARGIN)
    &&& fits(origin.y + MARGIN + height_of(entries, entries.len() as int))
    &&& fits(origin.x + MARGIN)
    &&& fits(width - 2 * MARGIN)
}

/// The panel rectangle for a set of rows laid out from `origin`.
pub open spec fn panel_of(entries: Seq<Entry>, origin: Point, width: i32) -> Rect {
    Rect {
        loc: origin,
        size: Size {
            w: width,
            h: (height_of(entries, entries.len() as int) + 2 * MARGIN) as i32,
        },
    }
}

/// The rectangle of row `index`, inset from the panel edges, below the rows before it.
pub open spec fn row_of(entries: Seq<Entry>, origin: Point, width: i32, index: int) -> Rect {
    Rect {
        loc: Point {
            x: (origin.x + MARGIN) as i32,
            y: (origin.y + MARGIN + height_of(entries, index)) as i32,
        },
        size: Size { w: (width - 2 * MARGIN) as i32, h: entries[index].height },
    }
}

pub proof fn heights_grow(entries: Seq<Entry>, n: int, m: int)
    requires
        0 <= n <= m <= entries.len(),
        forall|i: int| 0 <= i < entries.len() ==> (#[trigger] entries[i]).height >= 0,
    ensures
        0 <= height_of(entries, n) <= height_of(entries, m),
    decreases m,
{
    if m > 0 {
        assert(entries[m - 1].height >= 0);
        if n < m {
            heights_grow(entries, n, m - 1);
        } else {
            heights_grow(entries, m - 1, m - 1);
        }
    }
}

fn stacked_height(entries: &[Entry], n: usize) -> (height: i32)
    requires
        n <= entries@.len(),
        forall|i: int| 0 <= i < entries@.len() ==> (#[trigger] entries@[i]).height >= 0,
        fits(height_of(entries@, entries@.len() as int)),
    ensures
        height == height_of(entries@, n as int),
{
    let mut height: i32 = 0;
    let mut i: usize = 0;
    while i < n
        invariant
            i <= n <= entries@.len(),
            forall|i: int| 0 <= i < entries@.len() ==> (#[trigger] entries@[i]).height >= 0,
            fits(height_of(entries@, entries@.len() as int)),
            height == height_of(entries@, i as int),
        decreases n - i,
    {
        proof {
            heights_grow(entries@, i + 1, entries@.len() as int);
        }
        height = height + entries[i].height;
        i += 1;
    }
    height
}

/// The panel rectangle for a set of rows laid out from `origin`.
pub fn panel_rect(entries: &[Entry], origin: Point, width: i32) -> (panel: Rect)
    requires
        laid_out(entries@, origin, width),
    ensures
        panel == panel_of(entries@, origin, width),
{
    proof {
        heights_grow(entries@, 0, entries@.len() as int);
    }
    let height: i32 = stacked_height(entries, entries.len());
    Rect { loc: origin, size: Size { w: width, h: height + 2 * MARGIN } }
}

/// The rectangle of row `index`, inset from the panel edges.
pub fn row_rect(entries: &[Entry], origin: Point, width: i32, index: usize) -> (row: Rect)
    requires
        laid_out(entries@, origin, width),
        index < entries@.len(),
    ensures
        row == row_of(entries@, origin, width, index as int),
{
    proof {
        heights_grow(entries@, index as int, entries@.len() as int);
    }
    let top: i32 = stacked_height(entries, index);
    Rect {
        loc: Point { x: origin.x + MARGIN, y: (origin.y as i64 + MARGIN as i64 + top as i64) as i32 },
        size: Size { w: width - 2 * MARGIN, h: entries[index].height },
    }
}

/// What the widest of the rows with an accelerator needs; each row has the width of its label
/// and of its accelerator.
pub open spec fn widest(entries: Seq<Entry>, widths: Seq<(i32, i32)>) -> Option<int>
    decreases entries.len(),
{
    if entries.len() == 0 {
        None
    } else {
        let before = widest(entries.drop_last(), widths);
        let (label, accel) = widths[entries.len() - 1];
        if entries.last().accel is Some {
            Some(
                match before {
                    Some(n) => max(n, label + ACCEL_GAP + accel),
                    None => label + ACCEL_GAP + accel,
                },
            )
        } else {
            before
        }
    }
}

/// The panel width that rows need.
pub open spec fn width_for(entries: Seq<Entry>, widths: Seq<(i32, i32)>) -> int {
    max(
        MIN_WIDTH as int,
        (match widest(entries, widths) {
            Some(n) => n,
            None => 0,
        }) + 2 * LABEL_INSET + 2 * MARGIN,
    )
}

/// The panel width these rows need: wide enough that no label runs into the accelerator printed
/// after it, and never narrower than the narrowest. `widths` are the measured widths of each
/// row's label and accelerator.
pub fn measure_width(entries: &[Entry], widths: &[(i32, i32)]) -> (width: i32)
    requires
        widths@.len() == entries@.len(),
        fits(width_for(entries@, widths@)),
    ensures
        width == width_for(entries@, widths@),
{
    let mut most: Option<i64> = None;
    let mut i: usize = 0;
    assert(entries@.take(0) =~= Seq::empty());
    while i < entries.len()
        invariant
            i <= entries@.len(),
            widths@.len() == entries@.len(),
            match most {
                Some(n) => widest(entries@.take(i as int), widths@) == Some(n as int),
                None => widest(entries@.take(i as int), widths@) is None,
            },
            most matches Some(n) ==> -0x2_0000_0000 <= n <= 0x2_0000_0000,
        decreases entries.len() - i,
    {
        let (label, accel) = widths[i];
        let need: i64 = label as i64 + ACCEL_GAP as i64 + accel as i64;
        if entries[i].accel.is_some() {
            most = Some(
                match most {
                    Some(n) => larger(n, need),
                    None => need,
                },
            );
        }
        i += 1;
        assert(entries@.take(i as int).drop_last() =~= entries@.take(i - 1));
    }
    assert(entries@.take(entries@.len() as int) =~= entries@);
    let text: i64 = match most {
        Some(n) => n,
        None => 0,
    };
    larger(MIN_WIDTH as i64, text + 2 * LABEL_INSET as i64 + 2 * MARGIN as i64) as i32
}

/// In the width that rows are measured for, each has room for its label, the gap and its whole
/// accelerator between the insets; and the panel is never narrower than the narrowest.
pub proof fn every_row_fits(entries: Seq<Entry>, widths: Seq<(i32, i32)>, i: int)
    requires
        widths.len() == entries.len(),
        0 <= i < entries.len(),
        entries[i].accel is Some,
    ensures
        widths[i].0 + ACCEL_GAP + widths[i].1 <= width_for(entries, widths) - 2 * LABEL_INSET - 2
            * MARGIN,
        width_for(entries, widths) >= MIN_WIDTH,
{
    widest_covers(entries, widths, i);
}

proof fn widest_covers(entries: Seq<Entry>, widths: Seq<(i32, i32)>, i: int)
    requires
        0 <= i < entries.len(),
        entries[i].accel is Some,
    ensures
        widest(entries, widths) matches Some(n) && widths[i].0 + ACCEL_GAP + widths[i].1 <= n,
    decreases entries.len(),
{
    if i < entries.len() - 1 {
        widest_covers(entries.drop_last(), widths, i);
    }
}

/// The first row that a spot is on, of those from `from` on.
pub open spec fn row_under(entries: Seq<Entry>, origin: Point, width: i32, s: Spot, from: int) -> Option<
    int,
>
    decreases entries.len() - from,
{
    if from < 0 || from >= entries.len() {
        None
    } else if row_of(entries, origin, width, from).holds_spot(s) {
        Some(from)
    } else {
        row_under(entries, origin, width, s, from + 1)
    }
}

/// The widest that a row with an accelerator needs, of rows that are meant.
pub open spec fn widest_row(
    rows: Seq<(Option<MenuAction>, Seq<char>, bool)>,
    menu: Map<MenuAction, Combo>,
    widths: Seq<(i32, i32)>,
) -> Option<int>
    decreases rows.len(),
{
    if rows.len() == 0 {
        None
    } else {
        let before = widest_row(rows.drop_last(), menu, widths);
        let (label, accel) = widths[rows.len() - 1];
        let need = label + ACCEL_GAP + accel;
        if rows.last().0 matches Some(action) && menu.dom().contains(action) {
            Some(
                match before {
                    Some(n) => max(n, need),
                    None => need,
                },
            )
        } else {
            before
        }
    }
}

/// The panel width that the rows of a window's menu need.
pub open spec fn menu_width(
    state: MenuState,
    menu: Map<MenuAction, Combo>,
    widths: Seq<(i32, i32)>,
) -> int {
    max(
        MIN_WIDTH as int,
        (match widest_row(rows_for(state), menu, widths) {
            Some(n) => n,
            None => 0,
        }) + 2 * LABEL_INSET + 2 * MARGIN,
    )
}

/// The height of the rows of a window's menu together: eight items and a separator.
pub open spec fn menu_height() -> int {
    8 * ITEM_H + SEPARATOR_H
}

proof fn rows_need_as_much(
    entries: Seq<Entry>,
    rows: Seq<(Option<MenuAction>, Seq<char>, bool)>,
    menu: Map<MenuAction, Combo>,
    names: Map<u32, String>,
    widths: Seq<(i32, i32)>,
)
    requires
        are_rows(entries, rows, menu, names),
    ensures
        widest(entries, widths) == widest_row(rows, menu, widths),
    decreases entries.len(),
{
    if entries.len() > 0 {
        let fewer = entries.drop_last();
        assert forall|i: int| 0 <= i < fewer.len() implies (#[trigger] fewer[i]).is_row(
            rows.drop_last()[i],
            menu,
            names,
        ) by {
            assert(entries[i].is_row(rows[i], menu, names));
        }
        rows_need_as_much(fewer, rows.drop_last(), menu, names, widths);
        assert(entries[entries.len() - 1].is_row(rows[entries.len() - 1], menu, names));
    }
}

proof fn rows_are_as_high(
    entries: Seq<Entry>,
    state: MenuState,
    menu: Map<MenuAction, Combo>,
    names: Map<u32, String>,
)
    requires
        are_rows(entries, rows_for(state), menu, names),
    ensures
        height_of(entries, entries.len() as int) == menu_height(),
        forall|i: int| 0 <= i < entries.len() ==> (#[trigger] entries[i]).height >= 0,
{
    assert(entries.len() == 9);
    assert forall|i: int| 0 <= i < entries.len() implies (#[trigger] entries[i]).height == if i
        == 7 {
        SEPARATOR_H
    } else {
        ITEM_H
    } by {
        assert(entries[i].is_row(rows_for(state)[i], menu, names));
    }
    reveal_with_fuel(height_of, 10);
    assert(entries[0].height + entries[1].height + entries[2].height + entries[3].height
        + entries[4].height + entries[5].height + entries[6].height + entries[7].height
        + entries[8].height == menu_height());
}

/// A posted window menu.
pub struct WindowMenu {
    /// The window the menu acts on.
    pub window: u64,
    /// The panel's top-left.
    pub origin: Point,
    /// The panel's width, measured once when the menu is built.
    pub width: i32,
    pub entries: Vec<Entry>,
    /// The row the pointer is over, if it is over a choosable one.
    pub hovered: Option<usize>,
}

impl WindowMenu {
    pub open spec fn valid(&self) -> bool {
        laid_out(self.entries@, self.origin, self.width)
    }

    /// The row that a spot is on; none outside the panel.
    pub open spec fn row_with(&self, s: Spot) -> Option<int> {
        if panel_of(self.entries@, self.origin, self.width).holds_spot(s) {
            row_under(self.entries@, self.origin, self.width, s, 0)
        } else {
            None
        }
    }

    /// The row that a spot would choose: one that is enabled.
    pub open spec fn choosable(&self, s: Spot) -> Option<int> {
        match self.row_with(s) {
            Some(i) => if self.entries@[i].enabled {
                Some(i)
            } else {
                None
            },
            None => None,
        }
    }

    /// The menu of a window, each item enabled according to the window's state and labelled with
    /// whatever is currently bound to it, its panel measured and its corner where it is asked
    /// for. `widths` are the measured widths of each row's label and accelerator.
    pub fn new(
        w: &Window,
        resizable: bool,
        origin: Point,
        bindings: &Bindings,
        names: &KeyNames,
        widths: &[(i32, i32)],
    ) -> (menu: Self)
        requires
            widths@.len() == rows_for(state_of(*w, resizable)).len(),
            fits(menu_width(state_of(*w, resizable), bindings.menu(), widths@)),
        ensures
            menu.window == w.id,
            menu.origin == origin,
            are_rows(
                menu.entries@,
                rows_for(state_of(*w, resizable)),
                bindings.menu(),
                names@,
            ),
            menu.width == menu_width(state_of(*w, resizable), bindings.menu(), widths@),
            menu.hovered is None,
            height_of(menu.entries@, menu.entries@.len() as int) == menu_height(),
    {
        let state: MenuState = menu_state(w, resizable);
        let entries = entries_for(state, bindings, names);
        proof {
            rows_need_as_much(entries@, rows_for(state), bindings.menu(), names@, widths@);
            rows_are_as_high(entries@, state, bindings.menu(), names@);
        }
        let width: i32 = measure_width(entries.as_slice(), widths);
        WindowMenu { window: w.id, origin, width, entries, hovered: None }
    }

    /// Moves the built panel to `origin`.
    pub fn place(&mut self, origin: Point)
        ensures
            final(self).origin == origin,
            final(self).window == old(self).window,
            final(self).width == old(self).width,
            final(self).entries == old(self).entries,
            final(self).hovered == old(self).hovered,
    {
        self.origin = origin;
    }

    /// The panel rectangle, bevel included.
    pub fn panel(&self) -> (panel: Rect)
        requires
            self.valid(),
        ensures
            panel == panel_of(self.entries@, self.origin, self.width),
    {
        panel_rect(self.entries.as_slice(), self.origin, self.width)
    }

    /// The rectangle of row `index`.
    pub fn row(&self, index: usize) -> (row: Rect)
        requires
            self.valid(),
            index < self.entries@.len(),
        ensures
            row == row_of(self.entries@, self.origin, self.width, index as int),
    {
        row_rect(self.entries.as_slice(), self.origin, self.width, index)
    }

    /// The row under a spot, whether or not it can be chosen; none outside the panel.
    pub fn row_at(&self, s: Spot) -> (index: Option<usize>)
        requires
            self.valid(),
        ensures
            match index {
                Some(i) => self.row_with(s) == Some(i as int) && i < self.entries@.len(),
                None => self.row_with(s) is None,
            },
    {
        if !self.panel().contains_spot(s) {
            return None;
        }
        let mut i: usize = 0;
        while i < self.entries.len()
            invariant
                self.valid(),
                i <= self.entries@.len(),
                row_under(self.entries@, self.origin, self.width, s, 0) == row_under(
                    self.entries@,
                    self.origin,
                    self.width,
                    s,
                    i as int,
                ),
                panel_of(self.entries@, self.origin, self.width).holds_spot(s),
            decreases self.entries.len() - i,
        {
            if self.row(i).contains_spot(s) {
                return Some(i);
            }
            i += 1;
        }
        None
    }

    /// The action a spot would choose: a row that is both an item and enabled.
    pub fn action_at(&self, s: Spot) -> (action: Option<MenuAction>)
        requires
            self.valid(),
        ensures
            action == match self.choosable(s) {
                Some(i) => self.entries@[i].action,
                None => None,
            },
    {
        match self.row_at(s) {
            Some(i) => {
                if self.entries[i].enabled {
                    self.entries[i].action
                } else {
                    None
                }
            },
            None => None,
        }
    }

    /// Whether a spot is anywhere on the panel, so that a press there belongs to the menu.
    pub fn contains(&self, s: Spot) -> (r: bool)
        requires
            self.valid(),
        ensures
            r == panel_of(self.entries@, self.origin, self.width).holds_spot(s),
    {
        self.panel().contains_spot(s)
    }

    /// Tracks the pointer, highlighting the row it is over. Says whether the highlight moved.
    pub fn hover(&mut self, s: Spot) -> (changed: bool)
        requires
            old(self).valid(),
        ensures
            match final(self).hovered {
                Some(i) => old(self).choosable(s) == Some(i as int),
                None => old(self).choosable(s) is None,
            },
            changed == (final(self).hovered != old(self).hovered),
            final(self).entries == old(self).entries,
            final(self).origin == old(self).origin,
            final(self).width == old(self).width,
            final(self).window == old(self).window,
    {
        let hovered: Option<usize> = match self.row_at(s) {
            Some(i) => {
                if self.entries[i].enabled {
                    Some(i)
                } else {
                    None
                }
            },
            None => None,
        };
        let changed = match (hovered, self.hovered) {
            (Some(a), Some(b)) => a != b,
            (None, None) => false,
            _ => true,
        };
        self.hovered = hovered;
        changed
    }

    /// Places a menu of this size so that it fits within `area`, preferring `at` as its
    /// top-left; one too large for the area starts at the area's corner.
    pub fn clamp(at: Point, panel: Size, area: Rect) -> (p: Point)
        ensures
            p == clamped_panel(at, panel, area),
    {
        let right: i64 = area.loc.x as i64 + area.size.w as i64 - panel.w as i64;
        let bottom: i64 = area.loc.y as i64 + area.size.h as i64 - panel.h as i64;
        Point {
            x: larger(smaller(at.x as i64, right), area.loc.x as i64) as i32,
            y: larger(smaller(at.y as i64, bottom), area.loc.y as i64) as i32,
        }
    }
}

/// Where a panel goes that prefers to be at `at` and is to fit within `area`.
pub open spec fn clamped_panel(at: Point, panel: Size, area: Rect) -> Point {
    Point {
        x: max(min(at.x as int, area.right() - panel.w), area.loc.x as int) as i32,
        y: max(min(at.y as int, area.bottom() - panel.h), area.loc.y as int) as i32,
    }
}

/// A panel no larger than the area is placed wholly inside it.
pub proof fn the_whole_panel_is_reachable(at: Point, panel: Size, area: Rect)
    requires
        0 <= panel.w <= area.size.w,
        0 <= panel.h <= area.size.h,
    ensures
        ({
            let p = clamped_panel(at, panel, area);
            &&& area.loc.x <= p.x && p.x + panel.w <= area.right()
            &&& area.loc.y <= p.y && p.y + panel.h <= area.bottom()
        }),
{
}

/// Every row lies inside the panel.
pub proof fn rows_are_inside_the_panel(entries: Seq<Entry>, origin: Point, width: i32, i: int)
    requires
        laid_out(entries, origin, width),
        0 <= i < entries.len(),
    ensures
        ({
            let panel = panel_of(entries, origin, width);
            let row = row_of(entries, origin, width, i);
            &&& panel.loc.x <= row.loc.x && row.right() <= panel.right()
            &&& panel.loc.y <= row.loc.y && row.bottom() <= panel.bottom()
        }),
{
    heights_grow(entries, 0, i);
    heights_grow(entries, i + 1, entries.len() as int);
}

/// What choosing an item comes to.
#[derive(Debug, PartialEq, Eq)]
pub enum Chosen {
    /// The desktop changed, and this is asked of the outside.
    Done(Vec<Effect>),
    /// The window's tile is to follow the pointer.
    MoveIcon,
    /// The window is to follow the pointer.
    MoveWindow,
    /// The window is to be sized with the pointer.
    ResizeWindow,
}

/// What an outcome of choosing stands for: the desktop after it, and the gesture to start.
pub ghost enum Choice {
    Done(Outcome),
    MoveIcon,
    MoveWindow,
    ResizeWindow,
}

/// Choosing a menu item for a window. Restore undoes whichever state the window is in, minimized
/// first; a minimized window's tile is moved in its stead; maximizing a minimized window brings
/// it back first.
pub open spec fn choice(s: Scene, id: u64, action: MenuAction) -> Choice {
    let (minimized, maximized) = match find(s.windows, id) {
        Some(w) => (w.state.minimized, w.state.maximized),
        None => (false, false),
    };
    match action {
        MenuAction::Restore => Choice::Done(
            if minimized {
                restore(s, id)
            } else if maximized {
                unmaximize(s, id)
            } else {
                (s, Seq::empty())
            },
        ),
        MenuAction::Move => if minimized {
            Choice::MoveIcon
        } else {
            Choice::MoveWindow
        },
        MenuAction::Size => if minimized {
            Choice::Done((s, Seq::empty()))
        } else {
            Choice::ResizeWindow
        },
        MenuAction::Minimize => Choice::Done(minimize(s, id)),
        MenuAction::Maximize => if minimized {
            let (back, asked) = restore(s, id);
            let (after, more) = maximize(back, id);
            Choice::Done((after, asked + more))
        } else {
            Choice::Done(maximize(s, id))
        },
        MenuAction::Raise => Choice::Done(raise(s, id)),
        MenuAction::Lower => Choice::Done(lower(s, id)),
        MenuAction::Close => Choice::Done((s, seq![Effect::Close { window: id }])),
    }
}

/// The last press on a window-menu button: which window, and when, in milliseconds.
#[derive(Debug, Clone, Copy, PartialEq, Eq, Structural)]
pub struct MenuClick {
    pub window: u64,
    pub at: u64,
}

/// The scene without the menu of a window, and without the record of a click on its button.
pub open spec fn without_menu(s: Scene, id: u64) -> Scene {
    Scene {
        window_menu: if s.window_menu matches Some(m) && m.window == id {
            None
        } else {
            s.window_menu
        },
        last_menu_click: if s.last_menu_click matches Some(c) && c.window == id {
            None
        } else {
            s.last_menu_click
        },
        ..s
    }
}

impl Wlrix {
    /// Where the menu of a window goes: preferring `at`, on the screen that the window is on.
    pub fn menu_origin(&self, w: &Window, at: Point, panel: Size) -> (p: Point)
        requires
            self@.sound(),
            find(self@.windows, w.id) == Some(*w),
        ensures
            p == match screen_of(self@, *w) {
                Some(screen) => clamped_panel(at, panel, screen.area()),
                None => at,
            },
    {
        match self.screen_of(w) {
            Some(screen) => {
                proof {
                    screen_of_is_sound(self@, *w);
                }
                WindowMenu::clamp(at, panel, screen.work_area())
            },
            None => at,
        }
    }

    /// Posts the menu of a window with its corner at `at`, moved so that the whole panel is
    /// reachable on the screen that the window is on, in place of any menu already open. It is
    /// built first and placed then: the panel is as wide as its widest row.
    pub fn open_window_menu(
        &mut self,
        w: &Window,
        resizable: bool,
        at: Point,
        bindings: &Bindings,
        names: &KeyNames,
        widths: &[(i32, i32)],
    ) -> (effects: Vec<Effect>)
        requires
            old(self)@.sound(),
            find(old(self)@.windows, w.id) == Some(*w),
            widths@.len() == rows_for(state_of(*w, resizable)).len(),
            fits(menu_width(state_of(*w, resizable), bindings.menu(), widths@)),
            fits(at.x + MARGIN),
            fits(at.y + MARGIN + menu_height()),
        ensures
            match final(self)@.window_menu {
                Some(menu) => {
                    &&& menu.window == w.id
                    &&& are_rows(
                        menu.entries@,
                        rows_for(state_of(*w, resizable)),
                        bindings.menu(),
                        names@,
                    )
                    &&& menu.width == menu_width(
                        state_of(*w, resizable),
                        bindings.menu(),
                        widths@,
                    )
                    &&& menu.hovered is None
                    &&& menu.origin == match screen_of(old(self)@, *w) {
                        Some(screen) => clamped_panel(
                            at,
                            Size { w: menu.width, h: (menu_height() + 2 * MARGIN) as i32 },
                            screen.area(),
                        ),
                        None => at,
                    }
                },
                None => false,
            },
            final(self)@ == (Scene { window_menu: final(self)@.window_menu, ..old(self)@ }),
            effects@ == seq![Effect::Redraw],
    {
        let mut menu = WindowMenu::new(w, resizable, at, bindings, names, widths);
        proof {
            rows_are_as_high(
                menu.entries@,
                state_of(*w, resizable),
                bindings.menu(),
                names@,
            );
        }
        let panel: Size = menu.panel().size;
        let origin: Point = self.menu_origin(w, at, panel);
        menu.place(origin);
        self.window_menu = Some(menu);
        let mut effects: Vec<Effect> = Vec::new();
        effects.push(Effect::Redraw);
        effects
    }

    /// Follows the pointer over an open menu. It is drawn again only where the highlight moved.
    pub fn hover_window_menu(&mut self, s: Spot) -> (effects: Vec<Effect>)
        requires
            old(self)@.window_menu matches Some(m) ==> m.valid(),
        ensures
            final(self)@ == (Scene { window_menu: final(self)@.window_menu, ..old(self)@ }),
            match (old(self)@.window_menu, final(self)@.window_menu) {
                (Some(before), Some(after)) => {
                    &&& match after.hovered {
                        Some(i) => before.choosable(s) == Some(i as int),
                        None => before.choosable(s) is None,
                    }
                    &&& effects@ == if after.hovered != before.hovered {
                        seq![Effect::Redraw]
                    } else {
                        Seq::empty()
                    }
                    &&& after.entries == before.entries
                    &&& after.origin == before.origin
                    &&& after.width == before.width
                    &&& after.window == before.window
                },
                (None, None) => effects@.len() == 0,
                _ => false,
            },
    {
        let mut effects: Vec<Effect> = Vec::new();
        if let Some(menu) = self.window_menu.take() {
            let mut menu = menu;
            if menu.hover(s) {
                effects.push(Effect::Redraw);
            }
            self.window_menu = Some(menu);
        }
        effects
    }

    /// Takes down the menu. Says whether one was open, and so whether to draw again.
    pub fn close_window_menu(&mut self) -> (had: bool)
        ensures
            had == (old(self)@.window_menu is Some),
            final(self)@ == (Scene { window_menu: None, ..old(self)@ }),
    {
        let had = self.window_menu.is_some();
        self.window_menu = None;
        had
    }

    /// Takes the menu down if it belongs to a window that is going away, and drops the record of
    /// a click on its button, so that a window which takes its place does not inherit half a
    /// double click. Says whether there was a menu to take down.
    pub fn forget_window_menu(&mut self, id: u64) -> (closed: bool)
        ensures
            closed == (old(self)@.window_menu matches Some(m) && m.window == id),
            final(self)@ == without_menu(old(self)@, id),
    {
        let closed = match &self.window_menu {
            Some(menu) => menu.window == id,
            None => false,
        };
        if closed {
            self.close_window_menu();
        }
        let stale = match self.last_menu_click {
            Some(click) => click.window == id,
            None => false,
        };
        if stale {
            self.last_menu_click = None;
        }
        closed
    }

    /// Carries out an action on a window, as chosen from its menu.
    pub fn activate_menu_action(&mut self, id: u64, action: MenuAction) -> (chosen: Chosen)
        requires
            old(self)@.sound(),
            countable(old(self)@),
        ensures
            match (chosen, choice(old(self)@, id, action)) {
                (Chosen::Done(effects), Choice::Done(outcome)) => (final(self)@, effects@)
                    == outcome,
                (Chosen::MoveIcon, Choice::MoveIcon) => final(self)@ == old(self)@,
                (Chosen::MoveWindow, Choice::MoveWindow) => final(self)@ == old(self)@,
                (Chosen::ResizeWindow, Choice::ResizeWindow) => final(self)@ == old(self)@,
                _ => false,
            },
    {
        let (minimized, maximized) = match self.window(id) {
            Some(w) => (w.state.minimized, w.state.maximized),
            None => (false, false),
        };
        match action {
            MenuAction::Restore => {
                if minimized {
                    Chosen::Done(self.restore_window(id))
                } else if maximized {
                    Chosen::Done(self.unmaximize_window(id))
                } else {
                    Chosen::Done(Vec::new())
                }
            },
            MenuAction::Move => {
                if minimized {
                    Chosen::MoveIcon
                } else {
                    Chosen::MoveWindow
                }
            },
            MenuAction::Size => {
                if minimized {
                    Chosen::Done(Vec::new())
                } else {
                    Chosen::ResizeWindow
                }
            },
            MenuAction::Minimize => Chosen::Done(self.minimize_window(id)),
            MenuAction::Maximize => {
                if minimized {
                    let ghost before = self@;
                    let mut effects = self.restore_window(id);
                    proof {
                        restoring_is_sound(before, id);
                    }
                    let mut more = self.maximize_window(id);
                    effects.append(&mut more);
                    Chosen::Done(effects)
                } else {
                    Chosen::Done(self.maximize_window(id))
                }
            },
            MenuAction::Raise => Chosen::Done(self.raise_window(id)),
            MenuAction::Lower => Chosen::Done(self.lower_window(id)),
            MenuAction::Close => Chosen::Done(self.close_window(id)),
        }
    }
}

/// A panel stays where it was asked for as far as that keeps it within the area, and is otherwise
/// moved no further than it has to be.
pub proof fn a_panel_is_moved_no_further_than_needed(at: Point, panel: Size, area: Rect)
    requires
        area.size.w >= 0,
        area.size.h >= 0,
        panel.w >= 0,
        panel.h >= 0,
        area.reaches(),
    ensures
        ({
            let p = clamped_panel(at, panel, area);
            &&& held_within(
                p.x as int,
                at.x as int,
                panel.w as int,
                area.loc.x as int,
                area.size.w as int,
            )
            &&& held_within(
                p.y as int,
                at.y as int,
                panel.h as int,
                area.loc.y as int,
                area.size.h as int,
            )
        }),
{
}

/// Whether a menu item is for a window as it is: what it undoes is there to be undone, and what it
/// does is not done already and is allowed.
pub open spec fn is_for(action: MenuAction, w: Window, resizable: bool) -> bool {
    match action {
        MenuAction::Restore => w.state.minimized || w.state.maximized,
        MenuAction::Size => resizable && !w.state.minimized,
        MenuAction::Minimize => w.minimizable && !w.state.minimized,
        MenuAction::Maximize => w.maximizable && !w.state.maximized,
        _ => true,
    }
}

/// Every item is in the menu of every window, once, and can be chosen where it is for the window
/// as it is. The item that closes the window stands last, apart from the others.
pub proof fn an_item_can_be_chosen_where_it_is_for_the_window(
    w: Window,
    resizable: bool,
    action: MenuAction,
)
    ensures
        ({
            let rows = rows_for(state_of(w, resizable));
            &&& exists|i: int| 0 <= i < rows.len() && (#[trigger] rows[i]).0 == Some(action)
            &&& forall|i: int|
                0 <= i < rows.len() && (#[trigger] rows[i]).0 == Some(action) ==> rows[i].2
                    == is_for(action, w, resizable)
            &&& forall|i: int, j: int|
                0 <= i < j < rows.len() ==> (#[trigger] rows[i]).0 != (#[trigger] rows[j]).0
            &&& rows.last().0 == Some(MenuAction::Close)
            &&& rows[rows.len() - 2].0 is None && !rows[rows.len() - 2].2
        }),
{
    let rows = rows_for(state_of(w, resizable));
    let i: int = match action {
        MenuAction::Restore => 0,
        MenuAction::Move => 1,
        MenuAction::Size => 2,
        MenuAction::Minimize => 3,
        MenuAction::Maximize => 4,
        MenuAction::Raise => 5,
        MenuAction::Lower => 6,
        MenuAction::Close => 8,
    };
    assert(rows[i].0 == Some(action));
}

} // verus!
