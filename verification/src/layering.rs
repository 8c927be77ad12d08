//! What is drawn in front of what, that everything is drawn that is on an output, and where.
use vstd::prelude::*;

use crate::geometry::{Rect, Size};
use crate::menu::Entry;
use crate::minimized::Grid;
use crate::render::{
    a_surface_on_a_layer_is_listed, accel_box, all_seen, composed, covered, drawn_grid, drawn_icon,
    drawn_icons, drawn_menu, drawn_window, drawn_windows, facts_of, held_part, icon_label_box,
    is_dragged, label_box, lower, menu_highlight, menu_labels, menu_separators, on_layer, seen,
    tile_of, title_box, upper, Composed, Draw, Framing, Icon, Layer, LayerSurface, StackedWindow,
    WindowFacts,
};
use crate::state::{a_listed_window_is_found, find, listed_once, Mapped, Window};
use crate::theme_export::FramePart;

verus! {

/// The layer that a surface is on: that of the first one with its id.
pub open spec fn layer_of(layers: Seq<LayerSurface>, id: u64) -> Option<Layer>
    decreases layers.len(),
{
    if layers.len() == 0 {
        None
    } else {
        match layer_of(layers.drop_last(), id) {
            Some(layer) => Some(layer),
            None => if layers.last().id == id {
                Some(layers.last().layer)
            } else {
                None
            },
        }
    }
}

/// Whether no two layer surfaces have one id.
pub open spec fn each_surface_once(layers: Seq<LayerSurface>) -> bool {
    forall|i: int, j: int|
        0 <= i < j < layers.len() ==> (#[trigger] layers[i]).id != (#[trigger] layers[j]).id
}

proof fn a_surface_is_on_its_layer(layers: Seq<LayerSurface>, i: int)
    requires
        each_surface_once(layers),
        0 <= i < layers.len(),
    ensures
        layer_of(layers, layers[i].id) == Some(layers[i].layer),
    decreases layers.len(),
{
    let fewer = layers.drop_last();
    assert forall|a: int, b: int| 0 <= a < b < fewer.len() implies (#[trigger] fewer[a]).id != (
    #[trigger] fewer[b]).id by {
        assert(layers[a].id != layers[b].id);
    }
    if i < fewer.len() {
        a_surface_is_on_its_layer(fewer, i);
    } else {
        an_absent_surface_has_no_layer(layers, fewer, layers[i].id);
    }
}

proof fn an_absent_surface_has_no_layer(all: Seq<LayerSurface>, layers: Seq<LayerSurface>, id: u64)
    requires
        each_surface_once(all),
        layers.len() < all.len(),
        all[all.len() - 1].id == id,
        forall|k: int| 0 <= k < layers.len() ==> #[trigger] layers[k] == all[k],
    ensures
        layer_of(layers, id) is None,
    decreases layers.len(),
{
    if layers.len() > 0 {
        let fewer = layers.drop_last();
        assert forall|k: int| 0 <= k < fewer.len() implies #[trigger] fewer[k] == all[k] by {
            assert(layers[k] == all[k]);
        }
        an_absent_surface_has_no_layer(all, fewer, id);
        let k = layers.len() - 1;
        assert(layers[k] == all[k]);
        assert(all[k].id != all[all.len() - 1].id);
    }
}

/// Whether a fullscreen window has the output to itself.
pub open spec fn is_taken(c: Composed) -> bool {
    exists|i: int|
        0 <= i < c.windows.len() && (#[trigger] c.windows[i]).fullscreen && c.windows[i].on_output
}

/// How deep a thing lies: the cursor in front of all, then what is being moved, the menu, the
/// overlay, the panels, the windows, the icons, what a fullscreen window covers, and the desktop.
pub open spec fn depth(d: Draw, c: Composed) -> int {
    match d {
        Draw::Cursor => 0,
        Draw::Outline => 1,
        Draw::MenuLabel { .. } => 2,
        Draw::MenuAccel { .. } => 2,
        Draw::MenuHighlight { .. } => 3,
        Draw::MenuSeparator { .. } => 4,
        Draw::MenuPanel => 5,
        Draw::Surface { layer_surface } => match layer_of(c.layers, layer_surface) {
            Some(Layer::Overlay) => 6,
            Some(Layer::Top) => if is_taken(c) {
                10
            } else {
                7
            },
            Some(Layer::Bottom) => 11,
            _ => 12,
        },
        Draw::Client { .. } => 8,
        Draw::Title { .. } => 8,
        Draw::Frame { .. } => 8,
        Draw::IconLabel { .. } => 9,
        Draw::IconThumbnail { .. } => 9,
        Draw::IconTile { .. } => 9,
        Draw::LockSurface { .. } => 0,
        Draw::LockFill => 1,
    }
}

/// Whether everything in a list lies between two depths, and nothing before what is in front of
/// it.
#[verifier::opaque]
spec fn layered(list: Seq<Draw>, c: Composed, from: int, to: int) -> bool {
    &&& forall|i: int| 0 <= i < list.len() ==> from <= depth(#[trigger] list[i], c) <= to
    &&& forall|i: int, j: int|
        0 <= i < j < list.len() ==> depth(#[trigger] list[i], c) <= depth(#[trigger] list[j], c)
}

proof fn layers_add_up(
    a: Seq<Draw>,
    b: Seq<Draw>,
    c: Composed,
    from: int,
    mid: int,
    next: int,
    to: int,
)
    requires
        layered(a, c, from, mid),
        layered(b, c, next, to),
        from <= mid <= next <= to,
    ensures
        layered(a + b, c, from, to),
{
    reveal(layered);
    let all = a + b;
    assert forall|i: int| 0 <= i < all.len() implies from <= depth(#[trigger] all[i], c) <= to by {
        if i < a.len() {
            assert(all[i] == a[i]);
        } else {
            assert(all[i] == b[i - a.len()]);
        }
    }
    assert forall|i: int, j: int| 0 <= i < j < all.len() implies depth(#[trigger] all[i], c)
        <= depth(#[trigger] all[j], c) by {
        if j < a.len() {
            assert(all[i] == a[i] && all[j] == a[j]);
        } else if i < a.len() {
            assert(all[i] == a[i] && all[j] == b[j - a.len()]);
        } else {
            assert(all[i] == b[i - a.len()] && all[j] == b[j - a.len()]);
        }
    }
}

proof fn flat_is_layered(list: Seq<Draw>, c: Composed, d: int)
    requires
        forall|i: int| 0 <= i < list.len() ==> depth(#[trigger] list[i], c) == d,
    ensures
        layered(list, c, d, d),
{
    reveal(layered);
}

proof fn nothing_is_layered(c: Composed, from: int, to: int)
    ensures
        layered(Seq::empty(), c, from, to),
{
    reveal(layered);
}

proof fn a_layer_lies_flat(layers: Seq<LayerSurface>, layer: Layer, c: Composed)
    requires
        each_surface_once(c.layers),
        layers.len() <= c.layers.len(),
        forall|k: int| 0 <= k < layers.len() ==> #[trigger] layers[k] == c.layers[k],
    ensures
        forall|i: int|
            0 <= i < on_layer(layers, layer).len() ==> (#[trigger] on_layer(layers, layer)[i] matches Draw::Surface {
                layer_surface,
            } && layer_of(c.layers, layer_surface) == Some(layer)),
    decreases layers.len(),
{
    if layers.len() > 0 {
        let fewer = layers.drop_last();
        assert forall|k: int| 0 <= k < fewer.len() implies #[trigger] fewer[k] == c.layers[k] by {
            assert(layers[k] == c.layers[k]);
        }
        a_layer_lies_flat(fewer, layer, c);
        let k = layers.len() - 1;
        assert(layers[k] == c.layers[k]);
        a_surface_is_on_its_layer(c.layers, k);
        let rest = on_layer(fewer, layer);
        let list = on_layer(layers, layer);
        assert forall|i: int| 0 <= i < list.len() implies (#[trigger] list[i] matches Draw::Surface {
            layer_surface,
        } && layer_of(c.layers, layer_surface) == Some(layer)) by {
            if list.len() > rest.len() {
                if i > 0 {
                    assert(list[i] == rest[i - 1]);
                }
            } else {
                assert(list[i] == rest[i]);
            }
        }
    }
}

proof fn windows_lie_flat(
    windows: Seq<StackedWindow>,
    output: Rect,
    focused: Option<u64>,
    pressed: Option<(u64, FramePart)>,
    c: Composed,
)
    ensures
        layered(drawn_windows(windows, output, focused, pressed), c, 8, 8),
    decreases windows.len(),
{
    if windows.len() > 0 {
        let rest = drawn_windows(windows.drop_last(), output, focused, pressed);
        windows_lie_flat(windows.drop_last(), output, focused, pressed, c);
        let one = drawn_window(windows.last(), focused, pressed);
        flat_is_layered(one, c, 8);
        layers_add_up(one, rest, c, 8, 8, 8, 8);
    } else {
        nothing_is_layered(c, 8, 8);
    }
}

proof fn icons_lie_flat(
    icons: Seq<Icon>,
    grid: Grid,
    dragged: Option<(u64, Rect)>,
    which: bool,
    c: Composed,
)
    ensures
        layered(drawn_icons(icons, grid, dragged, which), c, 9, 9),
    decreases icons.len(),
{
    if icons.len() > 0 {
        let before = drawn_icons(icons.drop_last(), grid, dragged, which);
        icons_lie_flat(icons.drop_last(), grid, dragged, which, c);
        let one = drawn_icon(icons.last(), tile_of(icons.last(), grid, dragged));
        flat_is_layered(one, c, 9);
        layers_add_up(before, one, c, 9, 9, 9, 9);
    } else {
        nothing_is_layered(c, 9, 9);
    }
}

proof fn menu_labels_lie_flat(entries: Seq<Entry>, n: int, c: Composed)
    requires
        0 <= n <= entries.len(),
    ensures
        layered(menu_labels(entries, n), c, 2, 2),
        layered(menu_separators(entries, n), c, 4, 4),
    decreases n,
{
    reveal(layered);
    if n > 0 {
        menu_labels_lie_flat(entries, n - 1, c);
    }
}

proof fn the_menu_is_layered(c: Composed)
    ensures
        layered(drawn_menu(c.menu, c.output), c, 2, 5),
{
    nothing_is_layered(c, 2, 5);
    if c.menu is Some {
        let m = c.menu->0;
        let n = m.entries@.len() as int;
        menu_labels_lie_flat(m.entries@, n, c);
        let labels = menu_labels(m.entries@, n);
        let lit = menu_highlight(m);
        let lines = menu_separators(m.entries@, n);
        let panel = seq![Draw::MenuPanel];
        flat_is_layered(lit, c, 3);
        flat_is_layered(panel, c, 5);
        layers_add_up(labels, lit, c, 2, 2, 3, 3);
        layers_add_up(labels + lit, lines, c, 2, 3, 4, 4);
        layers_add_up(labels + lit + lines, panel, c, 2, 4, 5, 5);
    }
}

proof fn the_layers_are_layered(c: Composed)
    requires
        each_surface_once(c.layers),
    ensures
        layered(upper(c.layers, is_taken(c)), c, 6, 7),
        layered(lower(c.layers, is_taken(c)), c, 10, 12),
{
    let full = is_taken(c);
    a_layer_lies_flat(c.layers, Layer::Overlay, c);
    a_layer_lies_flat(c.layers, Layer::Top, c);
    a_layer_lies_flat(c.layers, Layer::Bottom, c);
    a_layer_lies_flat(c.layers, Layer::Background, c);
    let overlay = on_layer(c.layers, Layer::Overlay);
    let top = on_layer(c.layers, Layer::Top);
    let bottom = on_layer(c.layers, Layer::Bottom);
    let background = on_layer(c.layers, Layer::Background);
    let none = Seq::<Draw>::empty();
    nothing_is_layered(c, 7, 7);
    nothing_is_layered(c, 10, 10);
    flat_is_layered(overlay, c, 6);
    flat_is_layered(bottom, c, 11);
    flat_is_layered(background, c, 12);
    if full {
        flat_is_layered(top, c, 10);
        layers_add_up(overlay, none, c, 6, 6, 7, 7);
        layers_add_up(top, bottom, c, 10, 10, 11, 11);
        layers_add_up(top + bottom, background, c, 10, 11, 12, 12);
    } else {
        flat_is_layered(top, c, 7);
        layers_add_up(overlay, top, c, 6, 6, 7, 7);
        layers_add_up(none, bottom, c, 10, 10, 11, 11);
        layers_add_up(none + bottom, background, c, 10, 11, 12, 12);
    }
}

proof fn the_icons_are_layered(c: Composed)
    ensures
        layered(drawn_grid(c.icons, c.icon_grid, c.dragged), c, 9, 9),
{
    nothing_is_layered(c, 9, 9);
    if c.icon_grid is Some {
        let grid = c.icon_grid->0;
        icons_lie_flat(c.icons, grid, c.dragged, true, c);
        icons_lie_flat(c.icons, grid, c.dragged, false, c);
        layers_add_up(
            drawn_icons(c.icons, grid, c.dragged, true),
            drawn_icons(c.icons, grid, c.dragged, false),
            c,
            9,
            9,
            9,
            9,
        );
    }
}

proof fn seven_parts_add_up(
    a: Seq<Draw>,
    b: Seq<Draw>,
    c: Seq<Draw>,
    d: Seq<Draw>,
    e: Seq<Draw>,
    f: Seq<Draw>,
    g: Seq<Draw>,
)
    ensures
        a + b + c + d + e + f + g == (a + b + c + d) + e + (f + g),
        a + b + c + d + e + f + g == a + (b + (c + d + e + (f + g))),
{
    let tail = f + g;
    assert(a + b + c + d + e + f + g =~= (a + b + c + d) + e + tail);
    let rest = c + d + e + tail;
    assert((a + b + c + d) + e + tail =~= a + (b + rest));
}

proof fn what_lies_deeper_is_not_among_them(list: Seq<Draw>, c: Composed, d: Draw)
    requires
        layered(list, c, 2, 12),
        depth(d, c) < 2,
    ensures
        !list.contains(d),
{
    reveal(layered);
    if list.contains(d) {
        let k = list.index_of(d);
        assert(depth(list[k], c) >= 2);
    }
}

proof fn first_of_them(c: Composed, cursor: Seq<Draw>, outline: Seq<Draw>, rest: Seq<Draw>)
    requires
        cursor == if c.include_cursor {
            seq![Draw::Cursor]
        } else {
            Seq::empty()
        },
        outline == if c.outline {
            seq![Draw::Outline]
        } else {
            Seq::empty()
        },
        !rest.contains(Draw::Outline),
    ensures
        !c.include_cursor ==> cursor + (outline + rest) == outline + rest,
        c.include_cursor ==> (cursor + (outline + rest))[0] == Draw::Cursor,
        c.outline <==> (cursor + (outline + rest)).contains(Draw::Outline),
{
    let all = cursor + (outline + rest);
    if !c.include_cursor {
        assert(all =~= outline + rest);
    }
    if c.outline {
        assert(all[cursor.len() as int] == Draw::Outline);
    } else if all.contains(Draw::Outline) {
        let k = all.index_of(Draw::Outline);
        if k < cursor.len() {
            assert(all[k] == cursor[k]);
        } else {
            assert(all[k] == rest[k - cursor.len()]);
        }
    }
}

#[verifier::spinoff_prover]
proof fn in_three_parts(c: Composed) -> (parts: (Seq<Draw>, Seq<Draw>))
    requires
        !c.locked,
        each_surface_once(c.layers),
    ensures
        composed(c) == parts.0 + drawn_windows(c.windows, c.output, c.focused, c.pressed) + parts.1,
        layered(parts.0, c, 0, 7),
        layered(drawn_windows(c.windows, c.output, c.focused, c.pressed), c, 8, 8),
        layered(parts.1, c, 9, 12),
        layered(composed(c), c, 0, 12),
        !c.include_cursor ==> layered(composed(c), c, 1, 12),
        c.include_cursor ==> composed(c)[0] == Draw::Cursor,
        c.outline ==> composed(c).contains(Draw::Outline),
        !c.outline ==> !composed(c).contains(Draw::Outline),
        parts.0 == (if c.include_cursor {
            seq![Draw::Cursor]
        } else {
            Seq::empty()
        }) + (if c.outline {
            seq![Draw::Outline]
        } else {
            Seq::empty()
        }) + drawn_menu(c.menu, c.output) + upper(c.layers, is_taken(c)),
        parts.1 == drawn_grid(c.icons, c.icon_grid, c.dragged) + lower(c.layers, is_taken(c)),
{
    assert(covered(c.windows) == is_taken(c));
    the_layers_are_layered(c);
    the_menu_is_layered(c);
    the_icons_are_layered(c);
    windows_lie_flat(c.windows, c.output, c.focused, c.pressed, c);
    let none = Seq::<Draw>::empty();
    nothing_is_layered(c, 0, 0);
    nothing_is_layered(c, 1, 1);
    let cursor = if c.include_cursor {
        seq![Draw::Cursor]
    } else {
        none
    };
    let outline = if c.outline {
        seq![Draw::Outline]
    } else {
        none
    };
    if c.include_cursor {
        flat_is_layered(cursor, c, 0);
    }
    if c.outline {
        flat_is_layered(outline, c, 1);
    }
    let menu = drawn_menu(c.menu, c.output);
    let above = upper(c.layers, is_taken(c));
    let windows = drawn_windows(c.windows, c.output, c.focused, c.pressed);
    let icons = drawn_grid(c.icons, c.icon_grid, c.dragged);
    let below = lower(c.layers, is_taken(c));
    let front = cursor + outline + menu + above;
    let back = icons + below;
    layers_add_up(cursor, outline, c, 0, 0, 1, 1);
    layers_add_up(cursor + outline, menu, c, 0, 1, 2, 5);
    layers_add_up(cursor + outline + menu, above, c, 0, 5, 6, 7);
    layers_add_up(icons, below, c, 9, 9, 10, 12);
    layers_add_up(front, windows, c, 0, 7, 8, 8);
    layers_add_up(front + windows, back, c, 0, 8, 9, 12);
    seven_parts_add_up(cursor, outline, menu, above, windows, icons, below);
    layers_add_up(menu, above, c, 2, 5, 6, 7);
    layers_add_up(menu + above, windows, c, 2, 7, 8, 8);
    layers_add_up(menu + above + windows, back, c, 2, 8, 9, 12);
    let rest = menu + above + windows + back;
    let all = composed(c);
    assert(all == cursor + outline + menu + above + windows + icons + below);
    layers_add_up(outline, rest, c, 1, 1, 2, 12);
    what_lies_deeper_is_not_among_them(rest, c, Draw::Outline);
    first_of_them(c, cursor, outline, rest);
    (front, back)
}

/// Everything is drawn in front of what lies deeper than it: the cursor, then an outline, the menu,
/// the overlay, the panels, the windows, the icons and the desktop; the panels go behind the
/// windows where a fullscreen one has the output. The cursor and an outline are drawn where they
/// are asked for.
pub proof fn nothing_is_drawn_over_what_is_in_front_of_it(c: Composed)
    requires
        !c.locked,
        each_surface_once(c.layers),
    ensures
        forall|i: int, j: int|
            0 <= i < j < composed(c).len() ==> depth(#[trigger] composed(c)[i], c) <= depth(
                #[trigger] composed(c)[j],
                c,
            ),
        composed(c).contains(Draw::Cursor) <==> c.include_cursor,
        composed(c).contains(Draw::Outline) <==> c.outline,
{
    let parts = in_three_parts(c);
    reveal(layered);
    if composed(c).contains(Draw::Cursor) {
        let k = composed(c).index_of(Draw::Cursor);
        assert(depth(composed(c)[k], c) == 0);
    }
}

/// The window that a thing is part of.
pub open spec fn owner(d: Draw) -> Option<u64> {
    match d {
        Draw::Client { window, .. } => Some(window),
        Draw::Title { window, .. } => Some(window),
        Draw::Frame { window, .. } => Some(window),
        _ => None,
    }
}

/// Whether no window is in a list of them twice.
pub open spec fn each_window_once(windows: Seq<StackedWindow>) -> bool {
    forall|i: int, j: int|
        0 <= i < j < windows.len() ==> (#[trigger] windows[i]).id != (#[trigger] windows[j]).id
}

proof fn drawn_belong_to_listed(
    windows: Seq<StackedWindow>,
    output: Rect,
    focused: Option<u64>,
    pressed: Option<(u64, FramePart)>,
    k: int,
) -> (i: int)
    requires
        0 <= k < drawn_windows(windows, output, focused, pressed).len(),
    ensures
        0 <= i < windows.len(),
        owner(drawn_windows(windows, output, focused, pressed)[k]) == Some(windows[i].id),
    decreases windows.len(),
{
    let fewer = windows.drop_last();
    let one = drawn_window(windows.last(), focused, pressed);
    let rest = drawn_windows(fewer, output, focused, pressed);
    let all = drawn_windows(windows, output, focused, pressed);
    if output.meets(windows.last().extent) {
        if k < one.len() {
            assert(all[k] == one[k]);
            windows.len() - 1
        } else {
            assert(all[k] == rest[k - one.len()]);
            drawn_belong_to_listed(fewer, output, focused, pressed, k - one.len())
        }
    } else {
        drawn_belong_to_listed(fewer, output, focused, pressed, k)
    }
}

proof fn higher_windows_come_first(
    windows: Seq<StackedWindow>,
    output: Rect,
    focused: Option<u64>,
    pressed: Option<(u64, FramePart)>,
    a: int,
    b: int,
    i: int,
    j: int,
)
    requires
        each_window_once(windows),
        0 <= a < b < windows.len(),
        0 <= i < drawn_windows(windows, output, focused, pressed).len(),
        0 <= j < drawn_windows(windows, output, focused, pressed).len(),
        owner(drawn_windows(windows, output, focused, pressed)[i]) == Some(windows[a].id),
        owner(drawn_windows(windows, output, focused, pressed)[j]) == Some(windows[b].id),
    ensures
        j < i,
    decreases windows.len(),
{
    let fewer = windows.drop_last();
    let last = windows.len() - 1;
    assert forall|x: int, y: int| 0 <= x < y < fewer.len() implies (#[trigger] fewer[x]).id != (
    #[trigger] fewer[y]).id by {
        assert(windows[x].id != windows[y].id);
    }
    let one = drawn_window(windows.last(), focused, pressed);
    let rest = drawn_windows(fewer, output, focused, pressed);
    let all = drawn_windows(windows, output, focused, pressed);
    if output.meets(windows.last().extent) {
        assert(windows[a].id != windows[last].id);
        if i < one.len() {
            assert(all[i] == one[i]);
        }
        assert(all[i] == rest[i - one.len()]);
        if b == last {
            if j >= one.len() {
                assert(all[j] == rest[j - one.len()]);
                let k = drawn_belong_to_listed(fewer, output, focused, pressed, j - one.len());
                assert(windows[k].id != windows[last].id);
            }
        } else {
            assert(windows[b].id != windows[last].id);
            if j < one.len() {
                assert(all[j] == one[j]);
            }
            assert(all[j] == rest[j - one.len()]);
            higher_windows_come_first(
                fewer,
                output,
                focused,
                pressed,
                a,
                b,
                i - one.len(),
                j - one.len(),
            );
        }
    } else if b == last {
        let k = drawn_belong_to_listed(fewer, output, focused, pressed, j);
        assert(windows[k].id != windows[last].id);
    } else {
        higher_windows_come_first(fewer, output, focused, pressed, a, b, i, j);
    }
}

/// A window that is above another in the stack is drawn in front of it, frame and all.
pub proof fn a_higher_window_is_drawn_in_front(c: Composed, a: int, b: int, i: int, j: int)
    requires
        !c.locked,
        each_surface_once(c.layers),
        each_window_once(c.windows),
        0 <= a < b < c.windows.len(),
        0 <= i < composed(c).len(),
        0 <= j < composed(c).len(),
        owner(composed(c)[i]) == Some(c.windows[a].id),
        owner(composed(c)[j]) == Some(c.windows[b].id),
    ensures
        j < i,
{
    let (front, back) = in_three_parts(c);
    let windows = drawn_windows(c.windows, c.output, c.focused, c.pressed);
    let all = composed(c);
    let n = front.len() as int;
    reveal(layered);
    assert(depth(all[i], c) == 8 && depth(all[j], c) == 8);
    if i < n {
        assert(all[i] == front[i]);
    } else if i >= n + windows.len() {
        assert(all[i] == back[i - n - windows.len()]);
    }
    if j < n {
        assert(all[j] == front[j]);
    } else if j >= n + windows.len() {
        assert(all[j] == back[j - n - windows.len()]);
    }
    assert(all[i] == windows[i - n] && all[j] == windows[j - n]);
    higher_windows_come_first(
        c.windows,
        c.output,
        c.focused,
        c.pressed,
        a,
        b,
        i - n,
        j - n,
    );
}

proof fn held_in_either(a: Seq<Draw>, b: Seq<Draw>, d: Draw)
    requires
        a.contains(d) || b.contains(d),
    ensures
        (a + b).contains(d),
{
    if a.contains(d) {
        let k = a.index_of(d);
        assert((a + b)[k] == d);
    } else {
        let k = b.index_of(d);
        assert((a + b)[a.len() + k] == d);
    }
}

proof fn a_window_is_drawn(
    windows: Seq<StackedWindow>,
    output: Rect,
    focused: Option<u64>,
    pressed: Option<(u64, FramePart)>,
    i: int,
    d: Draw,
)
    requires
        0 <= i < windows.len(),
        output.meets(windows[i].extent),
        drawn_window(windows[i], focused, pressed).contains(d),
    ensures
        drawn_windows(windows, output, focused, pressed).contains(d),
    decreases windows.len(),
{
    let fewer = windows.drop_last();
    let one = drawn_window(windows.last(), focused, pressed);
    let rest = drawn_windows(fewer, output, focused, pressed);
    if i < fewer.len() {
        a_window_is_drawn(fewer, output, focused, pressed, i, d);
    }
    if output.meets(windows.last().extent) {
        held_in_either(one, rest, d);
    }
}

/// Whether two rectangles have pixels in common.
pub open spec fn share_pixels(a: Rect, b: Rect) -> bool {
    a.loc.x < b.loc.x + b.size.w && b.loc.x < a.loc.x + a.size.w && a.loc.y < b.loc.y + b.size.h
        && b.loc.y < a.loc.y + a.size.h
}

/// A window that reaches onto an output is drawn there, with its title and its frame where it has
/// them: lit where it has the keyboard, with the part that is held down pressed in.
pub proof fn a_window_on_an_output_is_drawn(c: Composed, i: int)
    requires
        !c.locked,
        each_surface_once(c.layers),
        0 <= i < c.windows.len(),
        share_pixels(c.output, c.windows[i].extent),
        c.output.reaches(),
        c.windows[i].extent.reaches(),
    ensures
        ({
            let w = c.windows[i];
            let lit = c.focused == Some(w.id);
            &&& composed(c).contains(Draw::Client { window: w.id, at: w.at })
            &&& w.framing matches Framing::Framed { titlebar } ==> {
                &&& titlebar ==> composed(c).contains(Draw::Title { window: w.id, active: lit })
                &&& exists|held: Option<FramePart>|
                    composed(c).contains(
                        #[trigger] framed_so(w, lit, held),
                    ) && match c.pressed {
                        Some((window, part)) => held == if window == w.id {
                            Some(part)
                        } else {
                            None
                        },
                        None => held is None,
                    }
            }
        }),
{
    let w = c.windows[i];
    let lit = c.focused == Some(w.id);
    let (front, back) = in_three_parts(c);
    let windows = drawn_windows(c.windows, c.output, c.focused, c.pressed);
    let one = drawn_window(w, c.focused, c.pressed);
    assert forall|d: Draw| one.contains(d) implies #[trigger] composed(c).contains(d) by {
        a_window_is_drawn(c.windows, c.output, c.focused, c.pressed, i, d);
        held_in_either(front, windows, d);
        held_in_either(front + windows, back, d);
    }
    assert(one[0] == (Draw::Client { window: w.id, at: w.at }));
    assert(composed(c).contains(one[0]));
    if w.framing is Framed {
        let held = held_part(c.pressed, w.id);
        let frame = framed_so(w, lit, held);
        if w.framing->titlebar {
            assert(one[1] == (Draw::Title { window: w.id, active: lit }));
            assert(one[2] == frame);
            assert(composed(c).contains(one[1]));
        } else {
            assert(one[1] == frame);
        }
        assert(composed(c).contains(frame));
    }
}

/// A window's frame.
pub open spec fn framed_so(w: StackedWindow, active: bool, held: Option<FramePart>) -> Draw {
    Draw::Frame { window: w.id, active, maximized: w.maximized, held }
}

/// A layer surface that has a place is drawn.
pub proof fn a_layer_surface_is_drawn(c: Composed, i: int)
    requires
        !c.locked,
        each_surface_once(c.layers),
        0 <= i < c.layers.len(),
        c.layers[i].placed,
    ensures
        composed(c).contains(Draw::Surface { layer_surface: c.layers[i].id }),
{
    let d = Draw::Surface { layer_surface: c.layers[i].id };
    let (front, back) = in_three_parts(c);
    let windows = drawn_windows(c.windows, c.output, c.focused, c.pressed);
    a_surface_on_a_layer_is_listed(c.layers, i);
    let full = is_taken(c);
    let overlay = on_layer(c.layers, Layer::Overlay);
    let top = on_layer(c.layers, Layer::Top);
    let bottom = on_layer(c.layers, Layer::Bottom);
    let background = on_layer(c.layers, Layer::Background);
    let first = front.subrange(0, front.len() - upper(c.layers, full).len());
    assert(front =~= first + upper(c.layers, full));
    let icons = drawn_grid(c.icons, c.icon_grid, c.dragged);
    let in_upper = c.layers[i].layer == Layer::Overlay || c.layers[i].layer == Layer::Top && !full;
    if in_upper {
        held_in_either(
            overlay,
            if full {
                Seq::empty()
            } else {
                top
            },
            d,
        );
        held_in_either(first, upper(c.layers, full), d);
        held_in_either(front, windows, d);
        held_in_either(front + windows, back, d);
    } else {
        let middle = if full {
            top
        } else {
            Seq::empty()
        };
        if c.layers[i].layer != Layer::Background {
            held_in_either(middle, bottom, d);
        }
        held_in_either(middle + bottom, background, d);
        held_in_either(icons, lower(c.layers, full), d);
        held_in_either(front + windows, back, d);
    }
}

proof fn an_icon_is_drawn(
    icons: Seq<Icon>,
    grid: Grid,
    dragged: Option<(u64, Rect)>,
    i: int,
    d: Draw,
)
    requires
        0 <= i < icons.len(),
        drawn_icon(icons[i], tile_of(icons[i], grid, dragged)).contains(d),
    ensures
        drawn_icons(icons, grid, dragged, is_dragged(icons[i], dragged)).contains(d),
    decreases icons.len(),
{
    let which = is_dragged(icons[i], dragged);
    let fewer = icons.drop_last();
    let before = drawn_icons(fewer, grid, dragged, which);
    let one = drawn_icon(icons.last(), tile_of(icons.last(), grid, dragged));
    if i < fewer.len() {
        an_icon_is_drawn(fewer, grid, dragged, i, d);
    }
    if is_dragged(icons.last(), dragged) == which {
        held_in_either(before, one, d);
    }
}

/// Each icon is drawn in its own cell of the grid, or where the pointer has dragged it to, with its
/// label and with its picture where it has one.
pub proof fn an_icon_is_drawn_in_its_cell(c: Composed, i: int, grid: Grid, tile: Rect)
    requires
        !c.locked,
        each_surface_once(c.layers),
        c.icon_grid == Some(grid),
        0 <= i < c.icons.len(),
        match c.dragged {
            Some((window, held)) => if window == c.icons[i].window {
                tile == held
            } else {
                is_cell(tile, grid, c.icons[i].slot)
            },
            None => is_cell(tile, grid, c.icons[i].slot),
        },
    ensures
        composed(c).contains(Draw::IconTile { window: c.icons[i].window, tile }),
        composed(c).contains(Draw::IconLabel { window: c.icons[i].window, tile }),
        c.icons[i].has_thumbnail ==> composed(c).contains(
            Draw::IconThumbnail { window: c.icons[i].window, tile },
        ),
{
    let icon = c.icons[i];
    assert(tile_of(icon, grid, c.dragged) == tile);
    let (front, back) = in_three_parts(c);
    let windows = drawn_windows(c.windows, c.output, c.focused, c.pressed);
    let one = drawn_icon(icon, tile);
    let held = drawn_icons(c.icons, grid, c.dragged, true);
    let rest = drawn_icons(c.icons, grid, c.dragged, false);
    let below = lower(c.layers, is_taken(c));
    assert forall|d: Draw| one.contains(d) implies #[trigger] composed(c).contains(d) by {
        an_icon_is_drawn(c.icons, grid, c.dragged, i, d);
        held_in_either(held, rest, d);
        held_in_either(held + rest, below, d);
        held_in_either(front + windows, back, d);
    }
    assert(one[0] == (Draw::IconLabel { window: icon.window, tile }));
    assert(composed(c).contains(one[0]));
    if icon.has_thumbnail {
        assert(composed(c).contains(one[1]) && composed(c).contains(one[2]));
    } else {
        assert(composed(c).contains(one[1]));
    }
}

/// Whether a rectangle is a cell of the grid: the cells go along the rows from the corner.
pub open spec fn is_cell(tile: Rect, grid: Grid, slot: usize) -> bool {
    let x = grid.area.loc.x + grid.metrics.margin + (slot as int % grid.cols as int)
        * grid.metrics.tile_w;
    let y = grid.area.loc.y + grid.metrics.margin + (slot as int / grid.cols as int)
        * grid.metrics.tile_h;
    &&& tile.loc.x == x && tile.loc.y == y
    &&& tile.size.w == grid.metrics.tile_w && tile.size.h == grid.metrics.tile_h
}

proof fn seen_in_order(
    windows: Seq<Window>,
    stack: Seq<Mapped>,
    facts: Seq<WindowFacts>,
    output: Rect,
)
    requires
        forall|k: int| 0 <= k < stack.len() ==> find(windows, (#[trigger] stack[k]).id) is Some,
    ensures
        ({
            let list = all_seen(windows, stack, facts, output);
            &&& list.len() == stack.len()
            &&& forall|k: int|
                0 <= k < stack.len() ==> #[trigger] list[k] == seen(
                    stack[k],
                    find(windows, stack[k].id)->0,
                    facts_of(facts, find(windows, stack[k].id)->0),
                    output,
                )
        }),
    decreases stack.len(),
{
    if stack.len() > 0 {
        let fewer = stack.drop_last();
        assert forall|k: int| 0 <= k < fewer.len() implies find(windows, (#[trigger] fewer[k]).id)
            is Some by {
            assert(find(windows, stack[k].id) is Some);
        }
        seen_in_order(windows, fewer, facts, output);
        assert(find(windows, stack[stack.len() - 1].id) is Some);
    }
}

/// The windows of the stack are drawn in the order of the stack, each from where it stands, less
/// the margin its client keeps and the output's corner; a fullscreen one has no frame.
pub proof fn the_stack_is_what_is_drawn(
    windows: Seq<Window>,
    stack: Seq<Mapped>,
    facts: Seq<WindowFacts>,
    output: Rect,
    k: int,
    i: int,
    n: int,
)
    requires
        forall|k: int| 0 <= k < stack.len() ==> find(windows, (#[trigger] stack[k]).id) is Some,
        0 <= k < stack.len(),
        listed_once(windows, i),
        windows[i].id == stack[k].id,
        0 <= n < facts.len(),
        facts[n].window == windows[i].id,
        forall|j: int| 0 <= j < n ==> (#[trigger] facts[j]).window != windows[i].id,
        i32::MIN <= stack[k].loc.x - facts[n].margin.x - output.loc.x <= i32::MAX,
        i32::MIN <= stack[k].loc.y - facts[n].margin.y - output.loc.y <= i32::MAX,
    ensures
        ({
            let list = all_seen(windows, stack, facts, output);
            let w = windows[i];
            &&& list.len() == stack.len()
            &&& list[k].id == w.id
            &&& list[k].at.x == stack[k].loc.x - facts[n].margin.x - output.loc.x
            &&& list[k].at.y == stack[k].loc.y - facts[n].margin.y - output.loc.y
            &&& list[k].maximized == w.state.maximized
            &&& list[k].fullscreen == w.state.fullscreen
            &&& w.state.fullscreen ==> list[k].framing is Bare
            &&& !w.state.fullscreen ==> list[k].framing == facts[n].framing
        }),
{
    seen_in_order(windows, stack, facts, output);
    a_listed_window_is_found(windows, i);
    the_first_facts_count(facts, windows[i], n);
}

proof fn the_first_facts_count(facts: Seq<WindowFacts>, w: Window, n: int)
    requires
        0 <= n < facts.len(),
        facts[n].window == w.id,
        forall|j: int| 0 <= j < n ==> (#[trigger] facts[j]).window != w.id,
    ensures
        facts_of(facts, w).framing == facts[n].framing,
        facts_of(facts, w).margin == facts[n].margin,
        facts_of(facts, w).bounds == facts[n].bounds,
        facts_of(facts, w).popups == facts[n].popups@,
    decreases n,
{
    if n > 0 {
        assert(facts[0].window != w.id);
        let rest = facts.skip(1);
        assert forall|j: int| 0 <= j < n - 1 implies (#[trigger] rest[j]).window != w.id by {
            assert(facts[j + 1].window != w.id);
        }
        the_first_facts_count(rest, w, n - 1);
    }
}

/// A line of text is in the middle of its row; a label starts behind its inset and is cropped at
/// the row's end, an accelerator ends before its inset, an icon's label is in the middle of its
/// bar, and a title runs from where it starts to the end of its area.
pub proof fn texts_are_where_they_belong(area: Rect, inset: int, start: int, text: Size)
    requires
        area.reaches(),
        text.w >= 0,
        0 <= text.h <= area.size.h,
        0 <= inset <= i32::MAX,
        area.size.w >= 0,
        i32::MIN <= area.loc.x + inset <= i32::MAX,
        area.loc.x <= start <= i32::MAX,
    ensures
        label_box(area, inset, text) matches Some(at) ==> {
            &&& at.x == area.loc.x + inset
            &&& at.visible <= text.w && at.x + at.visible <= area.loc.x + area.size.w
            &&& at.visible == text.w || at.x + at.visible == area.loc.x + area.size.w
            &&& 0 <= (2 * area.loc.y + area.size.h) - (2 * at.y + text.h) <= 1
        },
        accel_box(area, inset, text) matches Some(at) ==> {
            &&& at.x + at.visible == area.loc.x + area.size.w - inset
            &&& at.x >= area.loc.x + inset
            &&& at.visible == text.w || at.x == area.loc.x + inset && at.visible < text.w
            &&& 0 <= (2 * area.loc.y + area.size.h) - (2 * at.y + text.h) <= 1
        },
        icon_label_box(area, text) matches Some(at) ==> {
            &&& 0 <= (2 * area.loc.x + area.size.w) - (2 * at.x + at.visible) <= 1
            &&& at.visible == text.w || at.visible == area.size.w && text.w > area.size.w
            &&& 0 <= (2 * area.loc.y + area.size.h) - (2 * at.y + text.h) <= 1
        },
        title_box(area, start, text) matches Some(at) ==> {
            &&& at.x == start
            &&& at.visible == text.w && start + text.w <= area.loc.x + area.size.w || at.visible
                < text.w && start + at.visible == area.loc.x + area.size.w
            &&& 0 <= (2 * area.loc.y + area.size.h) - (2 * at.y + text.h) <= 1
        },
        label_box(area, inset, text) is Some <==> text.w > 0 && area.size.w > inset,
        icon_label_box(area, text) is Some <==> text.w > 0 && area.size.w > 0,
        title_box(area, start, text) is Some <==> text.w > 0 && area.size.w > 0 && start
            < area.loc.x + area.size.w,
        accel_box(area, inset, text) is Some <==> text.w > 0 && area.size.w > 2 * inset,
{
}

} // verus!
