//! What a single output composites, front to back: the order of everything on it, and where its
//! texts go.
use vstd::prelude::*;

use crate::geometry::{fits, larger, max, min, smaller, Insets, Point, Rect, Size};
use crate::icons::{grid_of, shown_icons};
use crate::menu::{panel_of, Entry, WindowMenu};
use crate::minimized::Grid;
use crate::session_lock::{lock_elements, shown_locked, Lock, LockState};
use crate::state::{find, find_screen, first_screen, Mapped, Scene, Window, Wlrix};
use crate::theme_export::FramePart;
use crate::window_ops::focused_of;

verus! {

/// The layers that layer-shell surfaces are on.
#[derive(Debug, Clone, Copy, PartialEq, Eq, Structural)]
pub enum Layer {
    Background,
    Bottom,
    Top,
    Overlay,
}

/// Whether a surface on a layer is drawn in front of the windows: the overlay layer always, the
/// top layer unless a fullscreen window covers the output.
pub open spec fn in_front(layer: Layer, fullscreen_here: bool) -> bool {
    layer == Layer::Overlay || layer == Layer::Top && !fullscreen_here
}

/// Whether a layer-shell surface on `layer` is drawn in front of the windows.
pub fn draws_in_front(layer: Layer, fullscreen_here: bool) -> (r: bool)
    ensures
        r == in_front(layer, fullscreen_here),
{
    match layer {
        Layer::Overlay => true,
        Layer::Top => !fullscreen_here,
        Layer::Bottom => false,
        Layer::Background => false,
    }
}

/// A layer-shell surface on the output, and whether it has been given a place there.
#[derive(Debug, Clone, Copy, PartialEq, Eq, Structural)]
pub struct LayerSurface {
    pub id: u64,
    pub layer: Layer,
    pub placed: bool,
}

/// How a window is framed.
#[derive(Debug, Clone, Copy, PartialEq, Eq, Structural)]
pub enum Framing {
    /// Not at all.
    Bare,
    /// With a frame, which has a titlebar or not.
    Framed { titlebar: bool },
}

/// A window in the stack, as drawing sees it.
#[derive(Debug, Clone, Copy, PartialEq, Eq, Structural)]
pub struct StackedWindow {
    pub id: u64,
    /// Where its surface starts, from the output's corner.
    pub at: Point,
    /// Everything the window puts on screen.
    pub extent: Rect,
    pub framing: Framing,
    pub maximized: bool,
    pub fullscreen: bool,
    /// Whether this output is among those that the window is on.
    pub on_output: bool,
}

/// A minimized window's icon.
#[derive(Debug, Clone, Copy, PartialEq, Eq, Structural)]
pub struct Icon {
    pub window: u64,
    pub slot: usize,
    pub has_thumbnail: bool,
}

/// One thing to draw.
#[derive(Debug, Clone, Copy, PartialEq, Eq)]
pub enum Draw {
    /// What the locker drew.
    LockSurface { surface: u64 },
    /// The opaque fill under it.
    LockFill,
    Cursor,
    /// The wireframe of a move or resize.
    Outline,
    /// A menu row's label, grey where the item is not available.
    MenuLabel { row: usize, enabled: bool },
    /// Its accelerator, grey where the label is.
    MenuAccel { row: usize, enabled: bool },
    MenuHighlight { row: usize },
    MenuSeparator { row: usize },
    MenuPanel,
    Surface { layer_surface: u64 },
    /// What a window's client drew; `at` is where that starts, from the output's corner.
    Client { window: u64, at: Point },
    Title { window: u64, active: bool },
    /// A window's frame, with the part of it that the pointer holds down.
    Frame { window: u64, active: bool, maximized: bool, held: Option<FramePart> },
    IconLabel { window: u64, tile: Rect },
    IconThumbnail { window: u64, tile: Rect },
    IconTile { window: u64, tile: Rect },
}

/// Everything that decides what an output shows.
pub ghost struct Composed {
    pub locked: bool,
    /// The locker's surface for the output.
    pub lock_surface: Option<u64>,
    pub include_cursor: bool,
    /// Whether a move or resize is shown as a wireframe.
    pub outline: bool,
    pub output: Rect,
    pub menu: Option<WindowMenu>,
    /// The layer surfaces, in the order they were mapped.
    pub layers: Seq<LayerSurface>,
    /// The windows on screen, bottom to top.
    pub windows: Seq<StackedWindow>,
    /// The window with the keyboard.
    pub focused: Option<u64>,
    /// The part of a window's frame that the pointer holds down.
    pub pressed: Option<(u64, FramePart)>,
    /// The grid of the icons, on the output that has them.
    pub icon_grid: Option<Grid>,
    /// The icons, in the order of their slots.
    pub icons: Seq<Icon>,
    /// The tile that follows the pointer.
    pub dragged: Option<(u64, Rect)>,
}

/// What the desktop does not know of a window that is to be drawn.
pub struct WindowFacts {
    pub window: u64,
    /// How it is framed while it is not fullscreen.
    pub framing: Framing,
    /// Where its contents start within its surface: past the margin that a client keeps which
    /// draws a shadow of its own.
    pub margin: Point,
    /// What its surfaces cover, from its surface's corner.
    pub bounds: Rect,
    /// Its popups, each at an offset from its contents' corner and of a size.
    pub popups: Vec<(Point, Size)>,
}

/// What the desktop does not know of an output that is to be drawn.
pub struct Surroundings<'a> {
    pub include_cursor: bool,
    /// Whether a move or resize is shown as a wireframe.
    pub outline: bool,
    /// The output's layer surfaces, in the order they were mapped.
    pub layers: &'a [LayerSurface],
    pub windows: &'a [WindowFacts],
    /// The window that the keyboard is with.
    pub keyboard: Option<u64>,
    /// The part of a window's frame that the pointer holds down.
    pub pressed: Option<(u64, FramePart)>,
}

/// The surfaces on a layer that have a place, newest first.
pub open spec fn on_layer(layers: Seq<LayerSurface>, layer: Layer) -> Seq<Draw>
    decreases layers.len(),
{
    if layers.len() == 0 {
        Seq::empty()
    } else {
        let rest = on_layer(layers.drop_last(), layer);
        if layers.last().layer == layer && layers.last().placed {
            seq![Draw::Surface { layer_surface: layers.last().id }] + rest
        } else {
            rest
        }
    }
}

/// The surfaces in front of the windows, the higher layer first.
pub open spec fn upper(layers: Seq<LayerSurface>, fullscreen_here: bool) -> Seq<Draw> {
    on_layer(layers, Layer::Overlay) + if fullscreen_here {
        Seq::empty()
    } else {
        on_layer(layers, Layer::Top)
    }
}

/// The surfaces behind the windows, the higher layer first.
pub open spec fn lower(layers: Seq<LayerSurface>, fullscreen_here: bool) -> Seq<Draw> {
    (if fullscreen_here {
        on_layer(layers, Layer::Top)
    } else {
        Seq::empty()
    }) + on_layer(layers, Layer::Bottom) + on_layer(layers, Layer::Background)
}

/// Whether a window covers the whole of the output.
pub open spec fn covered(windows: Seq<StackedWindow>) -> bool {
    exists|i: int|
        0 <= i < windows.len() && (#[trigger] windows[i]).fullscreen && windows[i].on_output
}

/// The part of a window's frame that is held down.
pub open spec fn held_part(pressed: Option<(u64, FramePart)>, window: u64) -> Option<FramePart> {
    match pressed {
        Some((held, part)) => if held == window {
            Some(part)
        } else {
            None
        },
        None => None,
    }
}

/// What a window draws: its contents, then its title, then its frame.
pub open spec fn drawn_window(
    w: StackedWindow,
    focused: Option<u64>,
    pressed: Option<(u64, FramePart)>,
) -> Seq<Draw> {
    let active = focused == Some(w.id);
    let frame = Draw::Frame {
        window: w.id,
        active,
        maximized: w.maximized,
        held: held_part(pressed, w.id),
    };
    match w.framing {
        Framing::Bare => seq![Draw::Client { window: w.id, at: w.at }],
        Framing::Framed { titlebar } => if titlebar {
            seq![Draw::Client { window: w.id, at: w.at }, Draw::Title { window: w.id, active }, frame]
        } else {
            seq![Draw::Client { window: w.id, at: w.at }, frame]
        },
    }
}

/// The windows that reach onto the output, topmost first.
pub open spec fn drawn_windows(
    windows: Seq<StackedWindow>,
    output: Rect,
    focused: Option<u64>,
    pressed: Option<(u64, FramePart)>,
) -> Seq<Draw>
    decreases windows.len(),
{
    if windows.len() == 0 {
        Seq::empty()
    } else {
        let rest = drawn_windows(windows.drop_last(), output, focused, pressed);
        if output.meets(windows.last().extent) {
            drawn_window(windows.last(), focused, pressed) + rest
        } else {
            rest
        }
    }
}

/// The labels of the first `n` rows of a menu, each with its accelerator behind it. A row with
/// an empty label has none.
pub open spec fn menu_labels(entries: Seq<Entry>, n: int) -> Seq<Draw>
    decreases n,
{
    if n <= 0 {
        Seq::empty()
    } else {
        let before = menu_labels(entries, n - 1);
        let entry = entries[n - 1];
        if entry.label@.len() == 0 {
            before
        } else if entry.accel is Some {
            before.push(Draw::MenuLabel { row: (n - 1) as usize, enabled: entry.enabled }).push(
                Draw::MenuAccel { row: (n - 1) as usize, enabled: entry.enabled },
            )
        } else {
            before.push(Draw::MenuLabel { row: (n - 1) as usize, enabled: entry.enabled })
        }
    }
}

/// The separators among the first `n` rows of a menu.
pub open spec fn menu_separators(entries: Seq<Entry>, n: int) -> Seq<Draw>
    decreases n,
{
    if n <= 0 {
        Seq::empty()
    } else if entries[n - 1].action is None {
        menu_separators(entries, n - 1).push(Draw::MenuSeparator { row: (n - 1) as usize })
    } else {
        menu_separators(entries, n - 1)
    }
}

/// The row of a menu that is highlighted.
pub open spec fn menu_highlight(menu: WindowMenu) -> Seq<Draw> {
    match menu.hovered {
        Some(row) => if row < menu.entries@.len() {
            seq![Draw::MenuHighlight { row }]
        } else {
            Seq::empty()
        },
        None => Seq::empty(),
    }
}

/// What a menu draws on an output: labels, then the highlight, then separators, then the panel.
pub open spec fn drawn_menu(menu: Option<WindowMenu>, output: Rect) -> Seq<Draw> {
    match menu {
        Some(menu) => if output.meets(panel_of(menu.entries@, menu.origin, menu.width)) {
            menu_labels(menu.entries@, menu.entries@.len() as int) + menu_highlight(menu)
                + menu_separators(menu.entries@, menu.entries@.len() as int) + seq![Draw::MenuPanel]
        } else {
            Seq::empty()
        },
        None => Seq::empty(),
    }
}

/// Whether an icon is the one that follows the pointer.
pub open spec fn is_dragged(icon: Icon, dragged: Option<(u64, Rect)>) -> bool {
    dragged matches Some(held) && held.0 == icon.window
}

/// Where an icon's tile is.
pub open spec fn tile_of(icon: Icon, grid: Grid, dragged: Option<(u64, Rect)>) -> Rect {
    match dragged {
        Some(held) => if held.0 == icon.window {
            held.1
        } else {
            slot_tile(grid, icon.slot)
        },
        None => slot_tile(grid, icon.slot),
    }
}

pub open spec fn slot_tile(grid: Grid, slot: usize) -> Rect {
    Rect {
        loc: Point { x: grid.slot_x(slot as int) as i32, y: grid.slot_y(slot as int) as i32 },
        size: Size { w: grid.metrics.tile_w, h: grid.metrics.tile_h },
    }
}

/// What an icon draws: its label, then its picture where it has one, then the tile.
pub open spec fn drawn_icon(icon: Icon, tile: Rect) -> Seq<Draw> {
    let window = icon.window;
    if icon.has_thumbnail {
        seq![
            Draw::IconLabel { window, tile },
            Draw::IconThumbnail { window, tile },
            Draw::IconTile { window, tile },
        ]
    } else {
        seq![Draw::IconLabel { window, tile }, Draw::IconTile { window, tile }]
    }
}

/// The icons that are dragged, or those that are not, in their order.
pub open spec fn drawn_icons(
    icons: Seq<Icon>,
    grid: Grid,
    dragged: Option<(u64, Rect)>,
    which: bool,
) -> Seq<Draw>
    decreases icons.len(),
{
    if icons.len() == 0 {
        Seq::empty()
    } else {
        let before = drawn_icons(icons.drop_last(), grid, dragged, which);
        if is_dragged(icons.last(), dragged) == which {
            before + drawn_icon(icons.last(), tile_of(icons.last(), grid, dragged))
        } else {
            before
        }
    }
}

/// The icons of an output that has them, the dragged one in front of the rest.
pub open spec fn drawn_grid(icons: Seq<Icon>, grid: Option<Grid>, dragged: Option<(u64, Rect)>) -> Seq<
    Draw,
> {
    match grid {
        Some(grid) => drawn_icons(icons, grid, dragged, true) + drawn_icons(
            icons,
            grid,
            dragged,
            false,
        ),
        None => Seq::empty(),
    }
}

/// Everything to draw for an output, front to back. A locked session shows the lock screen and
/// nothing else.
pub open spec fn composed(c: Composed) -> Seq<Draw> {
    if c.locked {
        shown_locked(c.lock_surface)
    } else {
        let fullscreen_here = covered(c.windows);
        (if c.include_cursor {
            seq![Draw::Cursor]
        } else {
            Seq::empty()
        }) + (if c.outline {
            seq![Draw::Outline]
        } else {
            Seq::empty()
        }) + drawn_menu(c.menu, c.output) + upper(c.layers, fullscreen_here) + drawn_windows(
            c.windows,
            c.output,
            c.focused,
            c.pressed,
        ) + drawn_grid(c.icons, c.icon_grid, c.dragged) + lower(c.layers, fullscreen_here)
    }
}

fn push_layer(list: &mut Vec<Draw>, layers: &[LayerSurface], layer: Layer)
    ensures
        final(list)@ == old(list)@ + on_layer(layers@, layer),
{
    let mut i: usize = layers.len();
    let ghost before = list@;
    assert(layers@.take(layers@.len() as int) =~= layers@);
    assert(before + on_layer(layers@, layer) =~= list@ + on_layer(layers@.take(i as int), layer));
    while i > 0
        invariant
            i <= layers@.len(),
            before + on_layer(layers@, layer) == list@ + on_layer(layers@.take(i as int), layer),
        decreases i,
    {
        i -= 1;
        let ghost held = list@;
        assert(layers@.take(i + 1).drop_last() =~= layers@.take(i as int));
        assert(layers@.take(i + 1).last() == layers@[i as int]);
        if layers[i].layer == layer && layers[i].placed {
            list.push(Draw::Surface { layer_surface: layers[i].id });
            assert(held + on_layer(layers@.take(i + 1), layer) =~= list@ + on_layer(
                layers@.take(i as int),
                layer,
            ));
        }
    }
    assert(layers@.take(0) =~= Seq::empty());
    assert(list@ + on_layer(layers@.take(0), layer) =~= list@);
}

fn push_window(
    list: &mut Vec<Draw>,
    w: &StackedWindow,
    focused: Option<u64>,
    pressed: Option<(u64, FramePart)>,
)
    ensures
        final(list)@ == old(list)@ + drawn_window(*w, focused, pressed),
{
    list.push(Draw::Client { window: w.id, at: w.at });
    if let Framing::Framed { titlebar } = w.framing {
        let active = match focused {
            Some(id) => id == w.id,
            None => false,
        };
        let held: Option<FramePart> = match pressed {
            Some((window, part)) => {
                if window == w.id {
                    Some(part)
                } else {
                    None
                }
            },
            None => None,
        };
        if titlebar {
            list.push(Draw::Title { window: w.id, active });
        }
        list.push(Draw::Frame { window: w.id, active, maximized: w.maximized, held });
    }
    assert(list@ =~= old(list)@ + drawn_window(*w, focused, pressed));
}

fn push_windows(
    list: &mut Vec<Draw>,
    windows: &[StackedWindow],
    output: Rect,
    focused: Option<u64>,
    pressed: Option<(u64, FramePart)>,
)
    ensures
        final(list)@ == old(list)@ + drawn_windows(windows@, output, focused, pressed),
{
    let mut i: usize = windows.len();
    let ghost before = list@;
    assert(windows@.take(windows@.len() as int) =~= windows@);
    while i > 0
        invariant
            i <= windows@.len(),
            before + drawn_windows(windows@, output, focused, pressed) == list@ + drawn_windows(
                windows@.take(i as int),
                output,
                focused,
                pressed,
            ),
        decreases i,
    {
        i -= 1;
        let ghost held = list@;
        assert(windows@.take(i + 1).drop_last() =~= windows@.take(i as int));
        assert(windows@.take(i + 1).last() == windows@[i as int]);
        if output.overlaps(windows[i].extent) {
            push_window(list, &windows[i], focused, pressed);
            assert(held + drawn_windows(windows@.take(i + 1), output, focused, pressed) =~= list@
                + drawn_windows(windows@.take(i as int), output, focused, pressed));
        }
    }
    assert(windows@.take(0) =~= Seq::empty());
    assert(list@ + drawn_windows(windows@.take(0), output, focused, pressed) =~= list@);
}

fn push_menu(list: &mut Vec<Draw>, menu: &WindowMenu, output: Rect)
    requires
        menu.valid(),
    ensures
        final(list)@ == old(list)@ + drawn_menu(Some(*menu), output),
{
    if !output.overlaps(menu.panel()) {
        assert(list@ =~= old(list)@ + drawn_menu(Some(*menu), output));
        return ;
    }
    let ghost start = list@;
    let mut i: usize = 0;
    assert(list@ =~= start + menu_labels(menu.entries@, 0));
    while i < menu.entries.len()
        invariant
            i <= menu.entries@.len(),
            list@ == start + menu_labels(menu.entries@, i as int),
        decreases menu.entries.len() - i,
    {
        let ghost held = list@;
        if !menu.entries[i].label.is_empty() {
            let enabled = menu.entries[i].enabled;
            list.push(Draw::MenuLabel { row: i, enabled });
            if menu.entries[i].accel.is_some() {
                list.push(Draw::MenuAccel { row: i, enabled });
            }
        }
        i += 1;
        assert(list@ =~= start + menu_labels(menu.entries@, i as int));
    }
    let ghost labelled = list@;
    if let Some(row) = menu.hovered {
        if row < menu.entries.len() {
            list.push(Draw::MenuHighlight { row });
        }
    }
    let ghost lit = list@;
    assert(lit =~= labelled + menu_highlight(*menu));
    let mut j: usize = 0;
    assert(list@ =~= lit + menu_separators(menu.entries@, 0));
    while j < menu.entries.len()
        invariant
            j <= menu.entries@.len(),
            list@ == lit + menu_separators(menu.entries@, j as int),
        decreases menu.entries.len() - j,
    {
        if menu.entries[j].is_separator() {
            list.push(Draw::MenuSeparator { row: j });
        }
        j += 1;
        assert(list@ =~= lit + menu_separators(menu.entries@, j as int));
    }
    list.push(Draw::MenuPanel);
    assert(list@ =~= start + drawn_menu(Some(*menu), output));
}

fn push_icons(
    list: &mut Vec<Draw>,
    icons: &[Icon],
    grid: &Grid,
    dragged: Option<(u64, Rect)>,
    which: bool,
)
    requires
        grid.valid(),
        forall|i: int|
            0 <= i < icons@.len() ==> (#[trigger] icons@[i]).slot <= i32::MAX && fits(
                grid.slot_x(icons@[i].slot as int),
            ) && fits(grid.slot_y(icons@[i].slot as int)),
    ensures
        final(list)@ == old(list)@ + drawn_icons(icons@, *grid, dragged, which),
{
    let ghost start = list@;
    let mut i: usize = 0;
    assert(icons@.take(0) =~= Seq::empty());
    assert(list@ =~= start + drawn_icons(icons@.take(0), *grid, dragged, which));
    while i < icons.len()
        invariant
            i <= icons@.len(),
            grid.valid(),
            forall|i: int|
                0 <= i < icons@.len() ==> (#[trigger] icons@[i]).slot <= i32::MAX && fits(
                    grid.slot_x(icons@[i].slot as int),
                ) && fits(grid.slot_y(icons@[i].slot as int)),
            list@ == start + drawn_icons(icons@.take(i as int), *grid, dragged, which),
        decreases icons.len() - i,
    {
        let icon = icons[i];
        let held: Option<Rect> = match dragged {
            Some((window, tile)) => {
                if window == icon.window {
                    Some(tile)
                } else {
                    None
                }
            },
            None => None,
        };
        let ghost before = list@;
        if held.is_some() == which {
            let tile: Rect = match held {
                Some(tile) => tile,
                None => grid.slot_rect(icon.slot),
            };
            let window: u64 = icon.window;
            list.push(Draw::IconLabel { window, tile });
            if icon.has_thumbnail {
                list.push(Draw::IconThumbnail { window, tile });
            }
            list.push(Draw::IconTile { window, tile });
            assert(tile == tile_of(icon, *grid, dragged));
            assert(list@ =~= before + drawn_icon(icon, tile));
        }
        i += 1;
        assert(icons@.take(i as int).drop_last() =~= icons@.take(i - 1));
        assert(list@ =~= start + drawn_icons(icons@.take(i as int), *grid, dragged, which));
    }
    assert(icons@.take(icons@.len() as int) =~= icons@);
}

fn is_covered(windows: &[StackedWindow]) -> (r: bool)
    ensures
        r == covered(windows@),
{
    let mut i: usize = 0;
    while i < windows.len()
        invariant
            i <= windows@.len(),
            forall|j: int|
                0 <= j < i ==> !((#[trigger] windows@[j]).fullscreen && windows@[j].on_output),
        decreases windows.len() - i,
    {
        if windows[i].fullscreen && windows[i].on_output {
            return true;
        }
        i += 1;
    }
    false
}

/// What is known of a window that is to be drawn, as values.
pub ghost struct Facts {
    pub framing: Framing,
    pub margin: Point,
    pub bounds: Rect,
    pub popups: Seq<(Point, Size)>,
}

/// What the first entry for a window says of it. One that is not listed has no frame and no
/// popups, and covers its own size.
pub open spec fn facts_of(list: Seq<WindowFacts>, w: Window) -> Facts
    decreases list.len(),
{
    if list.len() == 0 {
        Facts {
            framing: Framing::Bare,
            margin: Point { x: 0, y: 0 },
            bounds: Rect { loc: Point { x: 0, y: 0 }, size: w.size },
            popups: Seq::empty(),
        }
    } else if list[0].window == w.id {
        Facts {
            framing: list[0].framing,
            margin: list[0].margin,
            bounds: list[0].bounds,
            popups: list[0].popups@,
        }
    } else {
        facts_of(list.skip(1), w)
    }
}

/// How a window is framed: a fullscreen one is not.
pub open spec fn framing_of(w: Window, f: Facts) -> Framing {
    if w.state.fullscreen {
        Framing::Bare
    } else {
        f.framing
    }
}

/// What its frame adds to a window that has one.
pub open spec fn frame_around(w: Window, f: Facts) -> Option<Insets> {
    match framing_of(w, f) {
        Framing::Bare => None,
        Framing::Framed { .. } => Some(w.framing()),
    }
}

/// A window's contents, where they are on the desktop.
pub open spec fn contents(m: Mapped, w: Window) -> Rect {
    Rect { loc: m.loc, size: w.size }
}

/// What a window's surfaces cover of the desktop.
pub open spec fn surfaces_cover(m: Mapped, f: Facts) -> Rect {
    Rect {
        loc: Point {
            x: (m.loc.x - f.margin.x + f.bounds.loc.x) as i32,
            y: (m.loc.y - f.margin.y + f.bounds.loc.y) as i32,
        },
        size: f.bounds.size,
    }
}

/// A window of the stack, as drawing sees it.
pub open spec fn seen(m: Mapped, w: Window, f: Facts, output: Rect) -> StackedWindow {
    StackedWindow {
        id: w.id,
        at: Point {
            x: (m.loc.x - f.margin.x - output.loc.x) as i32,
            y: (m.loc.y - f.margin.y - output.loc.y) as i32,
        },
        extent: extent_of(contents(m, w), frame_around(w, f), f.popups),
        framing: framing_of(w, f),
        maximized: w.state.maximized,
        fullscreen: w.state.fullscreen,
        on_output: output.meets(surfaces_cover(m, f)),
    }
}

/// Whether a window's places can be told in `i32`s.
pub open spec fn can_see(m: Mapped, w: Window, f: Facts, output: Rect) -> bool {
    &&& fits(m.loc.x - f.margin.x - output.loc.x)
    &&& fits(m.loc.y - f.margin.y - output.loc.y)
    &&& fits(m.loc.x - f.margin.x + f.bounds.loc.x)
    &&& fits(m.loc.y - f.margin.y + f.bounds.loc.y)
    &&& extent_fits(contents(m, w), frame_around(w, f), f.popups)
}

/// The windows of a stack, bottom to top, as drawing sees them.
pub open spec fn all_seen(
    windows: Seq<Window>,
    stack: Seq<Mapped>,
    facts: Seq<WindowFacts>,
    output: Rect,
) -> Seq<StackedWindow>
    decreases stack.len(),
{
    if stack.len() == 0 {
        Seq::empty()
    } else {
        let before = all_seen(windows, stack.drop_last(), facts, output);
        match find(windows, stack.last().id) {
            Some(w) => before.push(seen(stack.last(), w, facts_of(facts, w), output)),
            None => before,
        }
    }
}

/// The icons of minimized windows, as drawing sees them.
pub open spec fn icons_seen(windows: Seq<Window>, icons: Seq<(u64, usize)>) -> Seq<Icon> {
    icons.map_values(
        |icon: (u64, usize)|
            Icon {
                window: icon.0,
                slot: icon.1,
                has_thumbnail: find(windows, icon.0) matches Some(w) && w.state.has_thumbnail,
            },
    )
}

/// Where an output is; one without a mode covers nothing.
pub open spec fn output_rect(s: Scene, output: u64) -> Rect {
    match find_screen(s.screens, output) {
        Some(screen) => match screen.geometry {
            Some(geometry) => geometry,
            None => Rect { loc: Point { x: 0, y: 0 }, size: Size { w: 0, h: 0 } },
        },
        None => Rect { loc: Point { x: 0, y: 0 }, size: Size { w: 0, h: 0 } },
    }
}

/// Whether an output is the one that the icons are on: the first.
pub open spec fn has_icons(s: Scene, output: u64) -> bool {
    first_screen(s.screens) matches Some(screen) && screen.id == output
}

/// The grid of the icons, for the output that they are on.
pub open spec fn own_grid(s: Scene, output: u64) -> Option<Grid> {
    if has_icons(s, output) {
        grid_of(s)
    } else {
        None
    }
}

/// Whether the icons' tiles on an output can be told in `i32`s.
pub open spec fn can_lay_icons(s: Scene, output: u64) -> bool {
    own_grid(s, output) matches Some(grid) ==> forall|i: int|
        0 <= i < shown_icons(s).len() ==> (#[trigger] shown_icons(s)[i]).1 <= i32::MAX && fits(
            grid.slot_x(shown_icons(s)[i].1 as int),
        ) && fits(grid.slot_y(shown_icons(s)[i].1 as int))
}

/// The tile that follows the pointer, and whose it is.
pub open spec fn tile_dragged(s: Scene) -> Option<(u64, Rect)> {
    match s.icon_drag {
        Some(drag) => if drag.dragging() {
            Some(
                (
                    drag.window,
                    Rect {
                        loc: drag.origin(),
                        size: Size { w: s.metrics.tile_w, h: s.metrics.tile_h },
                    },
                ),
            )
        } else {
            None
        },
        None => None,
    }
}

/// Everything that decides what an output shows, out of the desktop and the lock.
pub open spec fn composition_of(
    s: Scene,
    lock: Lock,
    output: u64,
    name: Seq<char>,
    around: Surroundings,
) -> Composed {
    Composed {
        locked: lock.locked,
        lock_surface: if lock.surfaces.dom().contains(name) {
            Some(lock.surfaces[name])
        } else {
            None
        },
        include_cursor: around.include_cursor,
        outline: around.outline,
        output: output_rect(s, output),
        menu: s.window_menu,
        layers: around.layers@,
        windows: all_seen(s.windows, s.stack, around.windows@, output_rect(s, output)),
        focused: focused_of(s, around.keyboard),
        pressed: around.pressed,
        icon_grid: own_grid(s, output),
        icons: icons_seen(s.windows, shown_icons(s)),
        dragged: tile_dragged(s),
    }
}

/// Whether everything on an output can be laid out. A locked session has nothing to lay out.
pub open spec fn can_show(s: Scene, lock: Lock, output: u64, around: Surroundings) -> bool {
    lock.locked || {
        &&& s.sound()
        &&& s.window_menu matches Some(menu) ==> menu.valid()
        &&& s.icon_drag matches Some(drag) ==> drag.trackable()
        &&& forall|i: int|
            0 <= i < s.stack.len() ==> (find(s.windows, (#[trigger] s.stack[i]).id) matches Some(w)
                ==> can_see(s.stack[i], w, facts_of(around.windows@, w), output_rect(s, output)))
        &&& can_lay_icons(s, output)
    }
}

fn see(m: Mapped, w: &Window, facts: &[WindowFacts], output: Rect) -> (window: StackedWindow)
    requires
        can_see(m, *w, facts_of(facts@, *w), output),
    ensures
        window == seen(m, *w, facts_of(facts@, *w), output),
{
    let mut i: usize = 0;
    assert(facts@.skip(0) =~= facts@);
    while i < facts.len() && facts[i].window != w.id
        invariant
            i <= facts@.len(),
            facts_of(facts@.skip(i as int), *w) == facts_of(facts@, *w),
        decreases facts.len() - i,
    {
        assert(facts@.skip(i as int).skip(1) =~= facts@.skip(i + 1));
        i += 1;
    }
    let ghost f = facts_of(facts@, *w);
    let listed = i < facts.len();
    let (framing, margin, bounds) = if listed {
        (facts[i].framing, facts[i].margin, facts[i].bounds)
    } else {
        (
            Framing::Bare,
            Point { x: 0, y: 0 },
            Rect { loc: Point { x: 0, y: 0 }, size: w.size },
        )
    };
    let framing: Framing = if w.state.fullscreen {
        Framing::Bare
    } else {
        framing
    };
    let insets: Option<Insets> = match framing {
        Framing::Bare => None,
        Framing::Framed { .. } => Some(w.frame_insets()),
    };
    assert(insets == frame_around(*w, f));
    let geometry: Rect = Rect { loc: m.loc, size: w.size };
    let extent: Rect = if listed {
        drawn_extent(geometry, insets, facts[i].popups.as_slice())
    } else {
        let none: Vec<(Point, Size)> = Vec::new();
        assert(none@ =~= f.popups);
        drawn_extent(geometry, insets, none.as_slice())
    };
    let x: i64 = m.loc.x as i64 - margin.x as i64;
    let y: i64 = m.loc.y as i64 - margin.y as i64;
    let cover: Rect = Rect {
        loc: Point { x: (x + bounds.loc.x as i64) as i32, y: (y + bounds.loc.y as i64) as i32 },
        size: bounds.size,
    };
    StackedWindow {
        id: w.id,
        at: Point { x: (x - output.loc.x as i64) as i32, y: (y - output.loc.y as i64) as i32 },
        extent,
        framing,
        maximized: w.state.maximized,
        fullscreen: w.state.fullscreen,
        on_output: output.overlaps(cover),
    }
}

impl Wlrix {
    fn windows_seen(&self, facts: &[WindowFacts], output: Rect) -> (list: Vec<StackedWindow>)
        requires
            forall|i: int|
                0 <= i < self@.stack.len() ==> (find(
                    self@.windows,
                    (#[trigger] self@.stack[i]).id,
                ) matches Some(w) ==> can_see(self@.stack[i], w, facts_of(facts@, w), output)),
        ensures
            list@ == all_seen(self@.windows, self@.stack, facts@, output),
    {
        let mut list: Vec<StackedWindow> = Vec::new();
        let mut i: usize = 0;
        assert(self.stack@.take(0) =~= Seq::empty());
        while i < self.stack.len()
            invariant
                i <= self.stack@.len(),
                forall|i: int|
                    0 <= i < self@.stack.len() ==> (find(
                        self@.windows,
                        (#[trigger] self@.stack[i]).id,
                    ) matches Some(w) ==> can_see(self@.stack[i], w, facts_of(facts@, w), output)),
                list@ == all_seen(self@.windows, self.stack@.take(i as int), facts@, output),
            decreases self.stack.len() - i,
        {
            let m = self.stack[i];
            assert(self@.stack[i as int] == m);
            if let Some(w) = self.window(m.id) {
                list.push(see(m, &w, facts, output));
            }
            i += 1;
            assert(self.stack@.take(i as int).drop_last() =~= self.stack@.take(i - 1));
        }
        assert(self.stack@.take(self.stack@.len() as int) =~= self.stack@);
        list
    }

    fn icons_seen(&self) -> (list: Vec<Icon>)
        ensures
            list@ == icons_seen(self@.windows, shown_icons(self@)),
    {
        let icons = self.minimized_icons();
        let mut list: Vec<Icon> = Vec::new();
        let mut i: usize = 0;
        while i < icons.len()
            invariant
                i <= icons@.len(),
                list@ == icons_seen(self@.windows, icons@).take(i as int),
            decreases icons.len() - i,
        {
            let (window, slot) = icons[i];
            let has_thumbnail = match self.window(window) {
                Some(w) => w.state.has_thumbnail,
                None => false,
            };
            list.push(Icon { window, slot, has_thumbnail });
            i += 1;
            assert(list@ =~= icons_seen(self@.windows, icons@).take(i as int));
        }
        assert(list@ =~= icons_seen(self@.windows, icons@));
        list
    }

    fn push_own_icons(&self, list: &mut Vec<Draw>, output: u64)
        requires
            self@.sound(),
            self@.icon_drag matches Some(drag) ==> drag.trackable(),
            can_lay_icons(self@, output),
        ensures
            final(list)@ == old(list)@ + drawn_grid(
                icons_seen(self@.windows, shown_icons(self@)),
                own_grid(self@, output),
                tile_dragged(self@),
            ),
    {
        let ghost start = list@;
        let here = match self.primary() {
            Some(screen) => screen.id == output,
            None => false,
        };
        if here {
            if let Some(grid) = self.icon_grid() {
                let icons = self.icons_seen();
                let dragged: Option<(u64, Rect)> = self.dragged_icon();
                assert forall|i: int| 0 <= i < icons@.len() implies (#[trigger] icons@[i]).slot
                    <= i32::MAX && fits(grid.slot_x(icons@[i].slot as int)) && fits(
                    grid.slot_y(icons@[i].slot as int),
                ) by {
                    assert(icons@[i].slot == shown_icons(self@)[i].1);
                }
                push_icons(list, icons.as_slice(), &grid, dragged, true);
                push_icons(list, icons.as_slice(), &grid, dragged, false);
            }
        }
        assert(list@ =~= start + drawn_grid(
            icons_seen(self@.windows, shown_icons(self@)),
            own_grid(self@, output),
            tile_dragged(self@),
        ));
    }

    fn output_rect(&self, output: u64) -> (rect: Rect)
        ensures
            rect == output_rect(self@, output),
    {
        match self.screen(output) {
            Some(screen) => match screen.geometry {
                Some(geometry) => geometry,
                None => Rect { loc: Point { x: 0, y: 0 }, size: Size { w: 0, h: 0 } },
            },
            None => Rect { loc: Point { x: 0, y: 0 }, size: Size { w: 0, h: 0 } },
        }
    }
}

/// Everything to draw for an output, which has a name, cursor first so that it lands on top. A
/// locked session shows the locker and nothing else: that is seen to here, so that nothing that
/// draws can forget it.
#[verifier::spinoff_prover]
pub fn output_elements(
    state: &Wlrix,
    lock: &LockState,
    output: u64,
    name: &String,
    around: &Surroundings,
) -> (list: Vec<Draw>)
    requires
        can_show(state@, lock@, output, *around),
    ensures
        list@ == composed(composition_of(state@, lock@, output, name@, *around)),
{
    if lock.is_locked() {
        return lock_elements(lock.surface_for(name));
    }
    let area: Rect = state.output_rect(output);
    let windows = state.windows_seen(around.windows, area);
    let focused: Option<u64> = state.focused_window(around.keyboard);
    let mut list: Vec<Draw> = Vec::new();
    if around.include_cursor {
        list.push(Draw::Cursor);
    }
    if around.outline {
        list.push(Draw::Outline);
    }
    if let Some(menu) = &state.window_menu {
        push_menu(&mut list, menu, area);
    }
    let ghost c = composition_of(state@, lock@, output, name@, *around);
    let ghost front = list@;
    assert(front =~= (if c.include_cursor {
        seq![Draw::Cursor]
    } else {
        Seq::empty()
    }) + (if c.outline {
        seq![Draw::Outline]
    } else {
        Seq::empty()
    }) + drawn_menu(c.menu, c.output));
    let fullscreen_here = is_covered(windows.as_slice());
    push_layer(&mut list, around.layers, Layer::Overlay);
    if !fullscreen_here {
        push_layer(&mut list, around.layers, Layer::Top);
    }
    assert(list@ =~= front + upper(c.layers, fullscreen_here));
    push_windows(&mut list, windows.as_slice(), area, focused, around.pressed);
    state.push_own_icons(&mut list, output);
    let ghost shown = list@;
    if fullscreen_here {
        push_layer(&mut list, around.layers, Layer::Top);
    }
    push_layer(&mut list, around.layers, Layer::Bottom);
    push_layer(&mut list, around.layers, Layer::Background);
    assert(list@ =~= shown + lower(c.layers, fullscreen_here));
    list
}

/// A locked session shows nothing of the desktop, whatever is on it: what the locker drew for the
/// output, and an opaque fill under it.
pub proof fn a_locked_session_shows_the_lock_alone(
    s: Scene,
    lock: Lock,
    output: u64,
    name: Seq<char>,
    around: Surroundings,
    i: int,
)
    requires
        lock.locked,
        0 <= i < composed(composition_of(s, lock, output, name, around)).len(),
    ensures
        ({
            let shown = composed(composition_of(s, lock, output, name, around));
            &&& shown[i] == Draw::LockFill || lock.surfaces.dom().contains(name) && shown[i] == (
            Draw::LockSurface { surface: lock.surfaces[name] })
            &&& shown.last() == Draw::LockFill
        }),
{
}

pub proof fn a_surface_on_a_layer_is_listed(layers: Seq<LayerSurface>, i: int)
    requires
        0 <= i < layers.len(),
        layers[i].placed,
    ensures
        on_layer(layers, layers[i].layer).contains(Draw::Surface { layer_surface: layers[i].id }),
    decreases layers.len(),
{
    let layer = layers[i].layer;
    let list = on_layer(layers, layer);
    let fewer = layers.drop_last();
    let draw = Draw::Surface { layer_surface: layers[i].id };
    if i == fewer.len() {
        assert(list[0] == draw);
    } else {
        a_surface_on_a_layer_is_listed(fewer, i);
        let rest = on_layer(fewer, layer);
        let k = rest.index_of(draw);
        if layers.last().layer == layer && layers.last().placed {
            assert(list[k + 1] == draw);
        } else {
            assert(list[k] == draw);
        }
    }
}

/// An overlay surface is in front of every window, fullscreen or not: it is drawn among the
/// surfaces that come before the windows.
pub proof fn the_overlay_outranks_every_window(layers: Seq<LayerSurface>, i: int, fullscreen_here: bool)
    requires
        0 <= i < layers.len(),
        layers[i].layer == Layer::Overlay,
        layers[i].placed,
    ensures
        upper(layers, fullscreen_here).contains(Draw::Surface { layer_surface: layers[i].id }),
{
    a_surface_on_a_layer_is_listed(layers, i);
    let draw = Draw::Surface { layer_surface: layers[i].id };
    let k = on_layer(layers, Layer::Overlay).index_of(draw);
    assert(upper(layers, fullscreen_here)[k] == draw);
}

/// Everything that a window puts on screen: its contents at `geometry`, its frame, and its
/// popups, each at an offset and of a size.
pub open spec fn extent_of(geometry: Rect, insets: Option<Insets>, popups: Seq<(Point, Size)>) -> Rect
    decreases popups.len(),
{
    if popups.len() == 0 {
        match insets {
            Some(i) => Rect {
                loc: Point {
                    x: (geometry.loc.x - i.left) as i32,
                    y: (geometry.loc.y - i.top) as i32,
                },
                size: Size {
                    w: (geometry.size.w + i.left + i.right) as i32,
                    h: (geometry.size.h + i.top + i.bottom) as i32,
                },
            },
            None => geometry,
        }
    } else {
        extent_of(geometry, insets, popups.drop_last()).merged(
            popup_rect(geometry, popups.last()),
        )
    }
}

pub open spec fn popup_rect(geometry: Rect, popup: (Point, Size)) -> Rect {
    Rect {
        loc: Point {
            x: (geometry.loc.x + popup.0.x) as i32,
            y: (geometry.loc.y + popup.0.y) as i32,
        },
        size: popup.1,
    }
}

/// Whether the extent can be told in `i32`s.
pub open spec fn extent_fits(geometry: Rect, insets: Option<Insets>, popups: Seq<(Point, Size)>) -> bool
    decreases popups.len(),
{
    if popups.len() == 0 {
        insets matches Some(i) ==> {
            &&& fits(geometry.loc.x - i.left)
            &&& fits(geometry.loc.y - i.top)
            &&& fits(geometry.size.w + i.left + i.right)
            &&& fits(geometry.size.h + i.top + i.bottom)
        }
    } else {
        &&& extent_fits(geometry, insets, popups.drop_last())
        &&& fits(geometry.loc.x + popups.last().0.x)
        &&& fits(geometry.loc.y + popups.last().0.y)
        &&& extent_of(geometry, insets, popups.drop_last()).can_merge(
            popup_rect(geometry, popups.last()),
        )
    }
}

proof fn extent_fits_first(
    geometry: Rect,
    insets: Option<Insets>,
    popups: Seq<(Point, Size)>,
    upto: int,
)
    requires
        extent_fits(geometry, insets, popups),
        0 <= upto <= popups.len(),
    ensures
        extent_fits(geometry, insets, popups.take(upto)),
    decreases popups.len(),
{
    if upto == popups.len() {
        assert(popups.take(upto) =~= popups);
    } else {
        assert(popups.drop_last().take(upto) =~= popups.take(upto));
        extent_fits_first(geometry, insets, popups.drop_last(), upto);
    }
}

/// Everything a window causes to be drawn: its client rectangle, the frame around it, and any
/// popups it has open.
pub fn drawn_extent(geometry: Rect, insets: Option<Insets>, popups: &[(Point, Size)]) -> (extent:
    Rect)
    requires
        extent_fits(geometry, insets, popups@),
    ensures
        extent == extent_of(geometry, insets, popups@),
{
    proof {
        extent_fits_first(geometry, insets, popups@, 0);
        assert(popups@.take(0) =~= Seq::empty());
    }
    let mut extent: Rect = match insets {
        Some(i) => Rect {
            loc: Point { x: geometry.loc.x - i.left, y: geometry.loc.y - i.top },
            size: Size {
                w: (geometry.size.w as i64 + i.left as i64 + i.right as i64) as i32,
                h: (geometry.size.h as i64 + i.top as i64 + i.bottom as i64) as i32,
            },
        },
        None => geometry,
    };
    let mut i: usize = 0;
    while i < popups.len()
        invariant
            i <= popups@.len(),
            extent_fits(geometry, insets, popups@),
            extent == extent_of(geometry, insets, popups@.take(i as int)),
        decreases popups.len() - i,
    {
        let (offset, size) = popups[i];
        proof {
            extent_fits_first(geometry, insets, popups@, i + 1);
            assert(popups@.take(i + 1).drop_last() =~= popups@.take(i as int));
            assert(popups@.take(i + 1).last() == popups@[i as int]);
        }
        let popup = Rect {
            loc: Point { x: geometry.loc.x + offset.x, y: geometry.loc.y + offset.y },
            size,
        };
        extent = extent.merge(popup);
        i += 1;
    }
    assert(popups@.take(popups@.len() as int) =~= popups@);
    extent
}

/// Where a line of text goes, and how much of its width is shown.
#[derive(Debug, Clone, Copy, PartialEq, Eq)]
pub struct TextBox {
    pub x: i32,
    pub y: i32,
    pub visible: i32,
}

/// Half of a number, rounded toward zero.
pub open spec fn half(n: int) -> int {
    if n >= 0 {
        n / 2
    } else {
        -((-n) / 2)
    }
}

/// A line of a width at `x`, with room for `room` of it; none where nothing of it shows.
pub open spec fn boxed(x: int, area: Rect, text: Size, room: int) -> Option<TextBox> {
    let visible = min(text.w as int, room);
    if visible <= 0 {
        None
    } else {
        Some(
            TextBox {
                x: x as i32,
                y: (area.loc.y + half(area.size.h - text.h)) as i32,
                visible: visible as i32,
            },
        )
    }
}

/// A menu label: behind the left inset of its row, cropped to it.
pub open spec fn label_box(area: Rect, inset: int, text: Size) -> Option<TextBox> {
    if area.size.w <= inset {
        None
    } else {
        boxed(area.loc.x + inset, area, text, area.size.w - inset)
    }
}

/// A menu accelerator: up to the right inset of its row, and never before the left one.
pub open spec fn accel_box(area: Rect, inset: int, text: Size) -> Option<TextBox> {
    let right = area.right() - inset;
    let x = max(right - text.w, area.loc.x + inset);
    if right <= x {
        None
    } else {
        boxed(x, area, text, right - x)
    }
}

/// An icon's label: in the middle of its bar.
pub open spec fn icon_label_box(area: Rect, text: Size) -> Option<TextBox> {
    if area.size.w <= 0 {
        None
    } else {
        boxed(
            area.loc.x + (area.size.w - min(text.w as int, area.size.w as int)) / 2,
            area,
            text,
            area.size.w as int,
        )
    }
}

/// A title: from `start`, up to the far end of its area.
pub open spec fn title_box(area: Rect, start: int, text: Size) -> Option<TextBox> {
    if area.size.w <= 0 {
        None
    } else {
        boxed(start, area, text, area.size.w - (start - area.loc.x))
    }
}

/// Whether texts in an area can be placed in `i32`s: it reaches, and a line's middle does.
pub open spec fn can_place(area: Rect, inset: int, text: Size) -> bool {
    &&& area.reaches()
    &&& fits(area.loc.y + half(area.size.h - text.h))
    &&& 0 <= inset <= i32::MAX
    &&& fits(area.loc.x + inset)
}

fn half_of(n: i64) -> (r: i64)
    requires
        -0x2_0000_0000 <= n <= 0x2_0000_0000,
    ensures
        r == half(n as int),
{
    if n >= 0 {
        n / 2
    } else {
        -((-n) / 2)
    }
}

fn place(x: i64, area: Rect, text: Size, room: i64) -> (at: Option<TextBox>)
    requires
        fits(area.loc.y + half(area.size.h - text.h)),
        fits(x as int),
    ensures
        at == boxed(x as int, area, text, room as int),
{
    let visible: i64 = smaller(text.w as i64, room);
    if visible <= 0 {
        return None;
    }
    let y: i64 = area.loc.y as i64 + half_of(area.size.h as i64 - text.h as i64);
    Some(TextBox { x: x as i32, y: y as i32, visible: visible as i32 })
}

/// Where a menu item's label goes in its row; `area` and `inset` are in the output's pixels.
pub fn place_menu_label(area: Rect, inset: i32, text: Size) -> (at: Option<TextBox>)
    requires
        can_place(area, inset as int, text),
    ensures
        at == label_box(area, inset as int, text),
{
    if area.size.w <= inset {
        return None;
    }
    place(area.loc.x as i64 + inset as i64, area, text, area.size.w as i64 - inset as i64)
}

/// Where a menu item's accelerator goes in its row: right-aligned, cropped at its tail.
pub fn place_menu_accel(area: Rect, inset: i32, text: Size) -> (at: Option<TextBox>)
    requires
        can_place(area, inset as int, text),
    ensures
        at == accel_box(area, inset as int, text),
{
    let right: i64 = area.loc.x as i64 + area.size.w as i64 - inset as i64;
    let x: i64 = larger(right - text.w as i64, area.loc.x as i64 + inset as i64);
    if right <= x {
        return None;
    }
    place(x, area, text, right - x)
}

/// Where the label under an icon goes in its bar.
pub fn place_icon_label(area: Rect, text: Size) -> (at: Option<TextBox>)
    requires
        can_place(area, 0, text),
        text.w >= 0,
    ensures
        at == icon_label_box(area, text),
{
    if area.size.w <= 0 {
        return None;
    }
    let visible: i64 = smaller(text.w as i64, area.size.w as i64);
    let x: i64 = area.loc.x as i64 + (area.size.w as i64 - visible) / 2;
    place(x, area, text, area.size.w as i64)
}

/// Where a title goes in its area, which it starts at `start` of.
pub fn place_title(area: Rect, start: i32, text: Size) -> (at: Option<TextBox>)
    requires
        can_place(area, 0, text),
    ensures
        at == title_box(area, start as int, text),
{
    if area.size.w <= 0 {
        return None;
    }
    let room: i64 = area.size.w as i64 - (start as i64 - area.loc.x as i64);
    place(start as i64, area, text, room)
}

} // verus!
