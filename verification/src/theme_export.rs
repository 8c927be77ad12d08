//! The window frame, exported as GTK theme assets: each titlebar button as an SVG, one rectangle
//! for each of the frame's own, and for each scheme a stylesheet of its colors and its assets.
use vstd::prelude::*;

use crate::geometry::{Point, Rect, Size};
use crate::scan::{integer_text, push_integer};

verus! {

/// A color.
#[derive(Debug, Clone, Copy, PartialEq, Eq, Structural)]
pub struct Rgb {
    pub r: u8,
    pub g: u8,
    pub b: u8,
}

/// A scheme's colors, by role.
pub struct Palette {
    /// What its files are named by.
    pub id: String,
    pub name: String,
    pub dark: bool,
    pub panel: Rgb,
    pub face: Rgb,
    pub foreground: Rgb,
    pub disabled_foreground: Rgb,
    pub text_background: Rgb,
    pub read_only: Rgb,
    pub selection_background: Rgb,
    pub selection_foreground: Rgb,
    pub tooltip_background: Rgb,
    pub tooltip_foreground: Rgb,
    pub error: Rgb,
    pub accent: Rgb,
    pub link: Rgb,
    pub link_visited: Rgb,
    pub outer_line: Rgb,
    pub title_active: Rgb,
    pub title_active_text: Rgb,
    pub title_active_top_shadow: Rgb,
    pub title_active_bottom_shadow: Rgb,
    pub title_inactive: Rgb,
    pub title_inactive_text: Rgb,
    pub title_inactive_top_shadow: Rgb,
    pub title_inactive_bottom_shadow: Rgb,
}

/// A rectangle as the frame draws it.
pub type Quad = (Rect, Rgb);

/// Which axes of a window can be sized.
#[derive(Debug, Clone, Copy, PartialEq, Eq, Structural)]
pub struct Resizable {
    pub horizontal: bool,
    pub vertical: bool,
}

#[derive(Debug, Clone, Copy, PartialEq, Eq, Structural)]
pub enum TitleAlign {
    Left,
    Center,
}

/// What a window's frame is made of.
#[derive(Debug, Clone, Copy, PartialEq, Eq, Structural)]
pub struct FrameStyle {
    pub titlebar: bool,
    pub border: bool,
    pub menu_btn: bool,
    pub min_btn: bool,
    pub max_btn: bool,
    pub resizable: Resizable,
    pub title_align: TitleAlign,
}

/// The buttons of a titlebar.
#[derive(Debug, Clone, Copy, PartialEq, Eq, Structural)]
pub enum FramePart {
    MenuButton,
    MinimizeButton,
    MaximizeButton,
}

/// How high a titlebar is, and how wide one of its buttons.
pub const TITLEBAR_HEIGHT: i32 = 30;

pub const BUTTON_W: i32 = 30;

/// The full titlebar, so that every button exists to be cropped out of it.
pub fn titlebar_style() -> (style: FrameStyle)
    ensures
        style == (FrameStyle {
            titlebar: true,
            border: false,
            menu_btn: true,
            min_btn: true,
            max_btn: true,
            resizable: Resizable { horizontal: true, vertical: true },
            title_align: TitleAlign::Left,
        }),
{
    FrameStyle {
        titlebar: true,
        border: false,
        menu_btn: true,
        min_btn: true,
        max_btn: true,
        resizable: Resizable { horizontal: true, vertical: true },
        title_align: TitleAlign::Left,
    }
}

/// A client rectangle whose titlebar row starts at the origin and is `width` across.
pub fn sample_client(width: i32) -> (client: Rect)
    ensures
        client == (Rect {
            loc: Point { x: 0, y: TITLEBAR_HEIGHT },
            size: Size { w: width, h: 100 },
        }),
{
    Rect { loc: Point { x: 0, y: TITLEBAR_HEIGHT }, size: Size { w: width, h: 100 } }
}

/// Which GTK generation a stylesheet is for. They need different files: neither answers to the
/// other's names.
#[derive(Debug, Clone, Copy, PartialEq, Eq, Structural)]
pub enum Gtk {
    V3,
    V4,
}

impl Gtk {
    /// The directory of the generation's files.
    pub open spec fn directory(self) -> Seq<char> {
        match self {
            Gtk::V3 => "gtk-3.0"@,
            Gtk::V4 => "gtk-4.0"@,
        }
    }

    /// The selector for one titlebar button, in this generation's node names.
    pub open spec fn selector(self, class: Seq<char>, state: Seq<char>, prefix: Seq<char>) -> Seq<
        char,
    > {
        match self {
            Gtk::V3 => prefix + "headerbar button.titlebutton."@ + class + state + ",\n"@ + prefix
                + ".titlebar button.titlebutton."@ + class + state,
            Gtk::V4 => prefix + "windowcontrols > button."@ + class + state,
        }
    }

    /// The directory of the generation's files.
    pub fn dir(self) -> (dir: &'static str)
        ensures
            dir@ == self.directory(),
    {
        match self {
            Gtk::V3 => "gtk-3.0",
            Gtk::V4 => "gtk-4.0",
        }
    }

    /// The selector for one titlebar button, in this generation's node names.
    pub fn button(self, class: &str, state: &str, prefix: &str) -> (selector: String)
        ensures
            selector@ == self.selector(class@, state@, prefix@),
    {
        let mut out = prefix.to_owned();
        match self {
            Gtk::V3 => {
                out.append("headerbar button.titlebutton.");
                out.append(class);
                out.append(state);
                out.append(",\n");
                out.append(prefix);
                out.append(".titlebar button.titlebutton.");
                out.append(class);
                out.append(state);
            },
            Gtk::V4 => {
                out.append("windowcontrols > button.");
                out.append(class);
                out.append(state);
            },
        }
        out
    }
}

/// A hexadecimal digit.
pub open spec fn hex_digit(n: int) -> char {
    if n < 10 {
        ((48 + n) as u32) as char
    } else {
        ((87 + n) as u32) as char
    }
}

/// A byte as two hexadecimal digits.
pub open spec fn hex_byte(n: u8) -> Seq<char> {
    seq![hex_digit(n as int / 16), hex_digit(n as int % 16)]
}

/// A color as `#rrggbb`.
pub open spec fn hex_text(color: Rgb) -> Seq<char> {
    seq!['#'] + hex_byte(color.r) + hex_byte(color.g) + hex_byte(color.b)
}

fn digit(n: u8) -> (c: char)
    requires
        n < 16,
    ensures
        c == hex_digit(n as int),
{
    if n < 10 {
        (48 + n) as char
    } else {
        (87 + n) as char
    }
}

fn push_byte(out: &mut String, n: u8)
    ensures
        final(out)@ == old(out)@ + hex_byte(n),
{
    out.push(digit(n / 16));
    out.push(digit(n % 16));
    assert(out@ =~= old(out)@ + hex_byte(n));
}

/// A color as `#rrggbb`.
pub fn hex(color: Rgb) -> (text: String)
    ensures
        text@ == hex_text(color),
{
    let mut out = String::new();
    out.push('#');
    push_byte(&mut out, color.r);
    push_byte(&mut out, color.g);
    push_byte(&mut out, color.b);
    assert(out@ =~= hex_text(color));
    out
}

/// Different colors have different texts.
pub proof fn a_color_is_told_by_its_text(a: Rgb, b: Rgb)
    requires
        hex_text(a) == hex_text(b),
    ensures
        a == b,
{
    let s = hex_text(a);
    let t = hex_text(b);
    assert(s[1] == hex_digit(a.r as int / 16) && t[1] == hex_digit(b.r as int / 16));
    assert(s[2] == hex_digit(a.r as int % 16) && t[2] == hex_digit(b.r as int % 16));
    assert(s[3] == hex_digit(a.g as int / 16) && t[3] == hex_digit(b.g as int / 16));
    assert(s[4] == hex_digit(a.g as int % 16) && t[4] == hex_digit(b.g as int % 16));
    assert(s[5] == hex_digit(a.b as int / 16) && t[5] == hex_digit(b.b as int / 16));
    assert(s[6] == hex_digit(a.b as int % 16) && t[6] == hex_digit(b.b as int % 16));
}

/// A quad clipped to an area and moved into its coordinate space; none where nothing of it is
/// left.
pub open spec fn cropped_quad(quad: Quad, area: Rect) -> Option<Quad> {
    let r = quad.0.shared(area);
    if quad.0.meets(area) && r.size.w != 0 && r.size.h != 0 {
        Some(
            (
                Rect {
                    loc: Point {
                        x: (r.loc.x - area.loc.x) as i32,
                        y: (r.loc.y - area.loc.y) as i32,
                    },
                    size: r.size,
                },
                quad.1,
            ),
        )
    } else {
        None
    }
}

/// The quads clipped to an area and moved into its coordinate space.
pub open spec fn cropped(quads: Seq<Quad>, area: Rect) -> Seq<Quad>
    decreases quads.len(),
{
    if quads.len() == 0 {
        quads
    } else {
        let before = cropped(quads.drop_last(), area);
        match cropped_quad(quads.last(), area) {
            Some(quad) => before.push(quad),
            None => before,
        }
    }
}

/// Clips quads to an area and moves them into its own coordinate space.
pub fn crop(quads: &[Quad], area: Rect) -> (out: Vec<Quad>)
    ensures
        out@ == cropped(quads@, area),
{
    let mut out: Vec<Quad> = Vec::new();
    let mut i: usize = 0;
    assert(quads@.take(0) =~= Seq::empty());
    while i < quads.len()
        invariant
            i <= quads@.len(),
            out@ == cropped(quads@.take(i as int), area),
        decreases quads.len() - i,
    {
        let (rect, color) = quads[i];
        i += 1;
        assert(quads@.take(i as int).drop_last() =~= quads@.take(i - 1));
        if let Some(r) = rect.intersection(area) {
            if r.size.w != 0 && r.size.h != 0 {
                let loc = Point { x: r.loc.x - area.loc.x, y: r.loc.y - area.loc.y };
                out.push((Rect { loc, size: r.size }, color));
            }
        }
    }
    assert(quads@.take(quads@.len() as int) =~= quads@);
    out
}

/// The quads that are not of a color.
pub open spec fn without_color(quads: Seq<Quad>, color: Rgb) -> Seq<Quad>
    decreases quads.len(),
{
    if quads.len() == 0 {
        quads
    } else if quads.last().1 == color {
        without_color(quads.drop_last(), color)
    } else {
        without_color(quads.drop_last(), color).push(quads.last())
    }
}

fn drop_color(quads: &[Quad], color: Rgb) -> (out: Vec<Quad>)
    ensures
        out@ == without_color(quads@, color),
{
    let mut out: Vec<Quad> = Vec::new();
    let mut i: usize = 0;
    assert(quads@.take(0) =~= Seq::empty());
    while i < quads.len()
        invariant
            i <= quads@.len(),
            out@ == without_color(quads@.take(i as int), color),
        decreases quads.len() - i,
    {
        let quad = quads[i];
        i += 1;
        assert(quads@.take(i as int).drop_last() =~= quads@.take(i - 1));
        if quad.1 != color {
            out.push(quad);
        }
    }
    assert(quads@.take(quads@.len() as int) =~= quads@);
    out
}

/// A quad as an SVG rectangle.
pub open spec fn rect_line(quad: Quad) -> Seq<char> {
    "  <rect x=\""@ + integer_text(quad.0.loc.x as int) + "\" y=\""@ + integer_text(
        quad.0.loc.y as int,
    ) + "\" width=\""@ + integer_text(quad.0.size.w as int) + "\" height=\""@ + integer_text(
        quad.0.size.h as int,
    ) + "\" fill=\""@ + hex_text(quad.1) + "\"/>\n"@
}

/// The quads as SVG rectangles, the last first.
pub open spec fn rect_lines(quads: Seq<Quad>) -> Seq<char>
    decreases quads.len(),
{
    if quads.len() == 0 {
        Seq::empty()
    } else {
        rect_line(quads.last()) + rect_lines(quads.drop_last())
    }
}

/// What an SVG starts with.
pub open spec fn svg_head(size: Size) -> Seq<char> {
    let w = integer_text(size.w as int);
    let h = integer_text(size.h as int);
    SVG_COMMENT@ + "<svg xmlns=\"http://www.w3.org/2000/svg\" width=\""@ + w + "\" height=\""@ + h
        + "\" viewBox=\"0 0 "@ + w + " "@ + h + "\" shape-rendering=\"crispEdges\">\n"@
}

/// Says of an SVG where it comes from. A double hyphen would end the comment's grammar.
pub const SVG_COMMENT: &'static str =
    "<!-- GENERATED by the wlRIX compositor's GTK theme export. Do not edit: this is the\n     window frame's own geometry, from src/decoration.rs. -->\n";

/// The quads as an SVG. They are listed topmost first, and an SVG is painted in the order of its
/// text, so the last comes first.
pub open spec fn svg_text(size: Size, quads: Seq<Quad>) -> Seq<char> {
    svg_head(size) + rect_lines(quads) + "</svg>\n"@
}

fn push_rect(out: &mut String, quad: &Quad)
    ensures
        final(out)@ == old(out)@ + rect_line(*quad),
{
    let (rect, color) = *quad;
    out.append("  <rect x=\"");
    push_integer(out, rect.loc.x as i64);
    out.append("\" y=\"");
    push_integer(out, rect.loc.y as i64);
    out.append("\" width=\"");
    push_integer(out, rect.size.w as i64);
    out.append("\" height=\"");
    push_integer(out, rect.size.h as i64);
    out.append("\" fill=\"");
    out.append(hex(color).as_str());
    out.append("\"/>\n");
    assert(out@ =~= old(out)@ + rect_line(*quad));
}

/// The quads as an SVG of a size.
pub fn svg(size: Size, quads: &[Quad]) -> (text: String)
    ensures
        text@ == svg_text(size, quads@),
{
    let mut out = SVG_COMMENT.to_owned();
    out.append("<svg xmlns=\"http://www.w3.org/2000/svg\" width=\"");
    push_integer(&mut out, size.w as i64);
    out.append("\" height=\"");
    push_integer(&mut out, size.h as i64);
    out.append("\" viewBox=\"0 0 ");
    push_integer(&mut out, size.w as i64);
    out.append(" ");
    push_integer(&mut out, size.h as i64);
    out.append("\" shape-rendering=\"crispEdges\">\n");
    assert(out@ =~= svg_head(size));
    let mut i: usize = quads.len();
    assert(quads@.take(quads@.len() as int) =~= quads@);
    while i > 0
        invariant
            i <= quads@.len(),
            svg_head(size) + rect_lines(quads@) == out@ + rect_lines(quads@.take(i as int)),
        decreases i,
    {
        i -= 1;
        let ghost held = out@;
        assert(quads@.take(i + 1).drop_last() =~= quads@.take(i as int));
        assert(quads@.take(i + 1).last() == quads@[i as int]);
        push_rect(&mut out, &quads[i]);
        assert(held + rect_lines(quads@.take(i + 1)) =~= out@ + rect_lines(quads@.take(i as int)));
    }
    assert(quads@.take(0) =~= Seq::empty());
    assert(out@ + rect_lines(quads@.take(0)) =~= out@);
    out.append("</svg>\n");
    out
}

/// A titlebar button cropped out of a frame's quads: without its glyph, which is what is drawn in
/// the outer line's color, where only its face is wanted.
pub fn button_svg(quads: &[Quad], area: Rect, glyph: bool, outer_line: Rgb) -> (text: String)
    ensures
        text@ == svg_text(
            area.size,
            if glyph {
                cropped(quads@, area)
            } else {
                without_color(cropped(quads@, area), outer_line)
            },
        ),
{
    let quads = crop(quads, area);
    if glyph {
        svg(area.size, quads.as_slice())
    } else {
        svg(area.size, drop_color(quads.as_slice(), outer_line).as_slice())
    }
}

proof fn no_rect_of_a_dropped_color(quads: Seq<Quad>, color: Rgb)
    ensures
        forall|i: int|
            0 <= i < without_color(quads, color).len() ==> (#[trigger] without_color(
                quads,
                color,
            )[i]).1 != color,
    decreases quads.len(),
{
    if quads.len() > 0 {
        let fewer = without_color(quads.drop_last(), color);
        no_rect_of_a_dropped_color(quads.drop_last(), color);
        assert forall|i: int| 0 <= i < without_color(quads, color).len() implies (
        #[trigger] without_color(quads, color)[i]).1 != color by {
            if i < fewer.len() {
                assert(fewer[i].1 != color);
            }
        }
    }
}

/// A button's face holds nothing in the glyph's color.
pub proof fn a_face_has_no_glyph(quads: Seq<Quad>, area: Rect, outer_line: Rgb)
    ensures
        forall|i: int|
            0 <= i < without_color(cropped(quads, area), outer_line).len() ==> (
            #[trigger] without_color(cropped(quads, area), outer_line)[i]).1 != outer_line,
{
    no_rect_of_a_dropped_color(cropped(quads, area), outer_line);
}

/// A crop lets in nothing outside its area: every quad of it starts inside and ends inside.
pub proof fn a_crop_stays_in_its_area(quads: Seq<Quad>, area: Rect)
    requires
        area.reaches(),
        forall|i: int|
            0 <= i < quads.len() ==> (#[trigger] quads[i]).0.size.w >= 0 && quads[i].0.size.h >= 0,
    ensures
        forall|i: int|
            0 <= i < cropped(quads, area).len() ==> {
                let r = (#[trigger] cropped(quads, area)[i]).0;
                &&& 0 <= r.loc.x && r.right() <= area.size.w
                &&& 0 <= r.loc.y && r.bottom() <= area.size.h
            },
    decreases quads.len(),
{
    if quads.len() > 0 {
        let fewer = quads.drop_last();
        assert forall|i: int| 0 <= i < fewer.len() implies (#[trigger] fewer[i]).0.size.w >= 0
            && fewer[i].0.size.h >= 0 by {
            assert(quads[i].0.size.w >= 0);
        }
        a_crop_stays_in_its_area(fewer, area);
        assert(quads[quads.len() - 1] == quads.last());
        let before = cropped(fewer, area);
        assert forall|i: int| 0 <= i < cropped(quads, area).len() implies {
            let r = (#[trigger] cropped(quads, area)[i]).0;
            &&& 0 <= r.loc.x && r.right() <= area.size.w
            &&& 0 <= r.loc.y && r.bottom() <= area.size.h
        } by {
            if i < before.len() {
                assert(cropped(quads, area)[i] == before[i]);
            } else {
                let r = quads.last().0.shared(area);
                assert(cropped(quads, area)[i] == cropped_quad(quads.last(), area)->0);
                assert(r.right() <= area.right() && r.bottom() <= area.bottom());
            }
        }
    }
}

/// One asset of a scheme: which button, in which state.
pub struct Asset {
    /// The file's stem.
    pub name: String,
    pub part: FramePart,
    pub active: bool,
    pub maximized: bool,
    pub pressed: bool,
    pub glyph: bool,
}

/// The buttons of a scheme: the name, what it is cropped from, whether the window is maximized,
/// and whether it keeps its glyph.
pub open spec fn buttons() -> Seq<(Seq<char>, FramePart, bool, bool)> {
    seq![
        ("menu"@, FramePart::MenuButton, false, true),
        ("minimize"@, FramePart::MinimizeButton, false, true),
        ("maximize"@, FramePart::MaximizeButton, false, true),
        ("maximized"@, FramePart::MaximizeButton, true, true),
        ("close"@, FramePart::MinimizeButton, false, false),
    ]
}

/// The name of a button's asset.
pub open spec fn asset_name(button: Seq<char>, active: bool, pressed: bool) -> Seq<char> {
    button + "-"@ + (if active {
        "active"@
    } else {
        "backdrop"@
    }) + (if pressed {
        "-pressed"@
    } else {
        ""@
    })
}

/// Whether an asset is the one at `i`: of each button, active before not, and each released
/// before pressed.
pub open spec fn is_asset(asset: Asset, i: int) -> bool {
    let (button, part, maximized, glyph) = buttons()[i / 4];
    let active = i % 4 < 2;
    let pressed = i % 2 == 1;
    &&& asset.name@ == asset_name(button, active, pressed)
    &&& asset.part == part
    &&& asset.active == active
    &&& asset.maximized == maximized
    &&& asset.pressed == pressed
    &&& asset.glyph == glyph
}

fn push_assets(
    list: &mut Vec<Asset>,
    button: &str,
    part: FramePart,
    maximized: bool,
    glyph: bool,
    Ghost(n): Ghost<int>,
)
    requires
        0 <= n < 5,
        buttons()[n] == (button@, part, maximized, glyph),
        old(list)@.len() == 4 * n,
        forall|i: int| 0 <= i < old(list)@.len() ==> is_asset(#[trigger] old(list)@[i], i),
    ensures
        final(list)@.len() == 4 * (n + 1),
        forall|i: int| 0 <= i < final(list)@.len() ==> is_asset(#[trigger] final(list)@[i], i),
{
    let mut k: usize = 0;
    while k < 4
        invariant
            k <= 4,
            0 <= n < 5,
            buttons()[n] == (button@, part, maximized, glyph),
            list@.len() == 4 * n + k,
            forall|i: int| 0 <= i < list@.len() ==> is_asset(#[trigger] list@[i], i),
        decreases 4 - k,
    {
        let active = k < 2;
        let pressed = k % 2 == 1;
        let mut name = button.to_owned();
        name.append("-");
        name.append(
            if active {
                "active"
            } else {
                "backdrop"
            },
        );
        name.append(
            if pressed {
                "-pressed"
            } else {
                ""
            },
        );
        list.push(Asset { name, part, active, maximized, pressed, glyph });
        k += 1;
    }
}

/// Every asset a scheme needs: five buttons by four states.
pub fn assets() -> (list: Vec<Asset>)
    ensures
        list@.len() == 20,
        forall|i: int| 0 <= i < 20 ==> is_asset(#[trigger] list@[i], i),
{
    let mut list: Vec<Asset> = Vec::new();
    push_assets(&mut list, "menu", FramePart::MenuButton, false, true, Ghost(0));
    push_assets(&mut list, "minimize", FramePart::MinimizeButton, false, true, Ghost(1));
    push_assets(&mut list, "maximize", FramePart::MaximizeButton, false, true, Ghost(2));
    push_assets(&mut list, "maximized", FramePart::MaximizeButton, true, true, Ghost(3));
    push_assets(&mut list, "close", FramePart::MinimizeButton, false, false, Ghost(4));
    list
}

/// The window body's colors, under the names that a GTK generation reads. GTK's `warning` and
/// `success` are left alone: the nearest roles here are of other colors and would mislead.
pub open spec fn body_pairs(p: Palette, gtk: Gtk) -> Seq<(Seq<char>, Rgb)> {
    match gtk {
        Gtk::V3 => seq![
            ("theme_bg_color"@, p.panel),
            ("theme_fg_color"@, p.foreground),
            ("theme_base_color"@, p.text_background),
            ("theme_text_color"@, p.foreground),
            ("theme_selected_bg_color"@, p.selection_background),
            ("theme_selected_fg_color"@, p.selection_foreground),
            ("insensitive_bg_color"@, p.panel),
            ("insensitive_fg_color"@, p.disabled_foreground),
            ("insensitive_base_color"@, p.read_only),
            ("borders"@, p.outer_line),
            ("unfocused_borders"@, p.outer_line),
            ("theme_unfocused_bg_color"@, p.panel),
            ("theme_unfocused_fg_color"@, p.foreground),
            ("theme_unfocused_base_color"@, p.text_background),
            ("theme_unfocused_text_color"@, p.foreground),
            ("theme_unfocused_selected_bg_color"@, p.selection_background),
            ("theme_unfocused_selected_fg_color"@, p.selection_foreground),
            ("tooltip_background"@, p.tooltip_background),
            ("tooltip_text"@, p.tooltip_foreground),
            ("error_color"@, p.error),
            ("link_color"@, p.link),
            ("link_visited_color"@, p.link_visited),
        ],
        Gtk::V4 => seq![
            ("window_bg_color"@, p.panel),
            ("window_fg_color"@, p.foreground),
            ("view_bg_color"@, p.text_background),
            ("view_fg_color"@, p.foreground),
            ("headerbar_bg_color"@, p.title_active),
            ("headerbar_fg_color"@, p.title_active_text),
            ("headerbar_border_color"@, p.outer_line),
            ("headerbar_backdrop_color"@, p.title_inactive),
            ("headerbar_shade_color"@, p.outer_line),
            ("sidebar_bg_color"@, p.panel),
            ("sidebar_fg_color"@, p.foreground),
            ("secondary_sidebar_bg_color"@, p.panel),
            ("card_bg_color"@, p.face),
            ("card_fg_color"@, p.foreground),
            ("dialog_bg_color"@, p.panel),
            ("dialog_fg_color"@, p.foreground),
            ("popover_bg_color"@, p.panel),
            ("popover_fg_color"@, p.foreground),
            ("accent_bg_color"@, p.selection_background),
            ("accent_fg_color"@, p.selection_foreground),
            ("accent_color"@, p.accent),
            ("destructive_bg_color"@, p.error),
            ("destructive_color"@, p.error),
            ("borders"@, p.outer_line),
        ],
    }
}

/// What a list of names and colors stands for.
pub open spec fn pairs_of(pairs: Seq<(&'static str, Rgb)>) -> Seq<(Seq<char>, Rgb)> {
    Seq::new(pairs.len(), |i: int| (pairs[i].0@, pairs[i].1))
}

/// A color under a name.
pub open spec fn define_line(name: Seq<char>, color: Rgb) -> Seq<char> {
    "@define-color "@ + name + " "@ + hex_text(color) + ";\n"@
}

/// Colors under names, each on a line.
pub open spec fn define_lines(pairs: Seq<(Seq<char>, Rgb)>) -> Seq<char>
    decreases pairs.len(),
{
    if pairs.len() == 0 {
        Seq::empty()
    } else {
        define_lines(pairs.drop_last()) + define_line(pairs.last().0, pairs.last().1)
    }
}

fn push_define(css: &mut String, name: &str, color: Rgb)
    ensures
        final(css)@ == old(css)@ + define_line(name@, color),
{
    css.append("@define-color ");
    css.append(name);
    css.append(" ");
    css.append(hex(color).as_str());
    css.append(";\n");
    assert(css@ =~= old(css)@ + define_line(name@, color));
}

fn color_pairs(p: &Palette, gtk: Gtk) -> (pairs: Vec<(&'static str, Rgb)>)
    ensures
        pairs_of(pairs@) == body_pairs(*p, gtk),
{
    let mut pairs: Vec<(&'static str, Rgb)> = Vec::new();
    match gtk {
        Gtk::V3 => {
            pairs.push(("theme_bg_color", p.panel));
            pairs.push(("theme_fg_color", p.foreground));
            pairs.push(("theme_base_color", p.text_background));
            pairs.push(("theme_text_color", p.foreground));
            pairs.push(("theme_selected_bg_color", p.selection_background));
            pairs.push(("theme_selected_fg_color", p.selection_foreground));
            pairs.push(("insensitive_bg_color", p.panel));
            pairs.push(("insensitive_fg_color", p.disabled_foreground));
            pairs.push(("insensitive_base_color", p.read_only));
            pairs.push(("borders", p.outer_line));
            pairs.push(("unfocused_borders", p.outer_line));
            pairs.push(("theme_unfocused_bg_color", p.panel));
            pairs.push(("theme_unfocused_fg_color", p.foreground));
            pairs.push(("theme_unfocused_base_color", p.text_background));
            pairs.push(("theme_unfocused_text_color", p.foreground));
            pairs.push(("theme_unfocused_selected_bg_color", p.selection_background));
            pairs.push(("theme_unfocused_selected_fg_color", p.selection_foreground));
            pairs.push(("tooltip_background", p.tooltip_background));
            pairs.push(("tooltip_text", p.tooltip_foreground));
            pairs.push(("error_color", p.error));
            pairs.push(("link_color", p.link));
            pairs.push(("link_visited_color", p.link_visited));
        },
        Gtk::V4 => {
            pairs.push(("window_bg_color", p.panel));
            pairs.push(("window_fg_color", p.foreground));
            pairs.push(("view_bg_color", p.text_background));
            pairs.push(("view_fg_color", p.foreground));
            pairs.push(("headerbar_bg_color", p.title_active));
            pairs.push(("headerbar_fg_color", p.title_active_text));
            pairs.push(("headerbar_border_color", p.outer_line));
            pairs.push(("headerbar_backdrop_color", p.title_inactive));
            pairs.push(("headerbar_shade_color", p.outer_line));
            pairs.push(("sidebar_bg_color", p.panel));
            pairs.push(("sidebar_fg_color", p.foreground));
            pairs.push(("secondary_sidebar_bg_color", p.panel));
            pairs.push(("card_bg_color", p.face));
            pairs.push(("card_fg_color", p.foreground));
            pairs.push(("dialog_bg_color", p.panel));
            pairs.push(("dialog_fg_color", p.foreground));
            pairs.push(("popover_bg_color", p.panel));
            pairs.push(("popover_fg_color", p.foreground));
            pairs.push(("accent_bg_color", p.selection_background));
            pairs.push(("accent_fg_color", p.selection_foreground));
            pairs.push(("accent_color", p.accent));
            pairs.push(("destructive_bg_color", p.error));
            pairs.push(("destructive_color", p.error));
            pairs.push(("borders", p.outer_line));
        },
    }
    assert(pairs_of(pairs@) =~= body_pairs(*p, gtk));
    pairs
}

/// The window body's colors, in whichever family this GTK generation reads.
pub fn body_colors(palette: &Palette, gtk: Gtk) -> (css: String)
    ensures
        css@ == define_lines(body_pairs(*palette, gtk)) + "\n"@,
{
    let pairs = color_pairs(palette, gtk);
    let ghost all = body_pairs(*palette, gtk);
    let mut css = String::new();
    let mut i: usize = 0;
    assert(all.take(0) =~= Seq::empty());
    assert(css@ =~= define_lines(all.take(0)));
    while i < pairs.len()
        invariant
            i <= pairs@.len(),
            all == pairs_of(pairs@),
            css@ == define_lines(all.take(i as int)),
        decreases pairs.len() - i,
    {
        push_define(&mut css, pairs[i].0, pairs[i].1);
        i += 1;
        assert(all.take(i as int).drop_last() =~= all.take(i - 1));
        assert(all.take(i as int).last() == all[i - 1]);
    }
    assert(all.take(all.len() as int) =~= all);
    css.append("\n");
    css
}

/// The bar's bevel: the left and right pair first, so that the full-width top and bottom paint
/// over it.
pub open spec fn bevel_text(light: Rgb, dark: Rgb) -> Seq<char> {
    "inset 2px 0 0 0 "@ + hex_text(light) + ", inset -2px 0 0 0 "@ + hex_text(dark)
        + ",\n              inset 0 2px 0 0 "@ + hex_text(light) + ", inset 0 -2px 0 0 "@ + hex_text(
        dark,
    )
}

fn bevel(light: Rgb, dark: Rgb) -> (text: String)
    ensures
        text@ == bevel_text(light, dark),
{
    let mut out = "inset 2px 0 0 0 ".to_owned();
    out.append(hex(light).as_str());
    out.append(", inset -2px 0 0 0 ");
    out.append(hex(dark).as_str());
    out.append(",\n              inset 0 2px 0 0 ");
    out.append(hex(light).as_str());
    out.append(", inset 0 -2px 0 0 ");
    out.append(hex(dark).as_str());
    out
}

/// What is said of the titlebar row.
pub const BAR_COMMENT: &'static str =
    "/* The titlebar row. Not a border: a CSS border mitres its corners at 45 degrees and a\n   Motif bevel does not. Not a border-image either -- GTK 3 parses\n   `border-image-slice: 2 fill` and ignores the `fill`, leaving the middle unpainted,\n   which under a compositor is black. Four inset shadows draw it exactly and take\n   their colors from the scheme with no asset at all. */\n";

/// The titlebar row.
#[verifier::opaque]
pub open spec fn bar_rules(p: Palette) -> Seq<char> {
    BAR_COMMENT@
        + "headerbar, .titlebar {\n  background-color: @wlrix_title_active;\n  color: @wlrix_title_active_text;\n  box-shadow: "@
        + bevel_text(p.title_active_top_shadow, p.title_active_bottom_shadow)
        + ";\n}\n\nheaderbar:backdrop, .titlebar:backdrop {\n  background-color: @wlrix_title_inactive;\n  color: @wlrix_title_inactive_text;\n  box-shadow: "@
        + bevel_text(p.title_inactive_top_shadow, p.title_inactive_bottom_shadow) + ";\n}\n\n"@
}

/// The picture of a button in a state.
pub open spec fn button_rule(
    gtk: Gtk,
    scheme: Seq<char>,
    class: Seq<char>,
    state: Seq<char>,
    prefix: Seq<char>,
    asset: Seq<char>,
    asset_state: Seq<char>,
) -> Seq<char> {
    gtk.selector(class, state, prefix) + " {\n  background-image: url(\"../../assets/"@ + scheme
        + "/"@ + asset + "-"@ + asset_state + ".svg\");\n}\n"@
}

/// The pictures of a button in each of its four states.
#[verifier::opaque]
pub open spec fn button_rules(
    gtk: Gtk,
    scheme: Seq<char>,
    class: Seq<char>,
    prefix: Seq<char>,
    asset: Seq<char>,
) -> Seq<char> {
    button_rule(gtk, scheme, class, ""@, prefix, asset, "active"@) + button_rule(
        gtk,
        scheme,
        class,
        ":active"@,
        prefix,
        asset,
        "active-pressed"@,
    ) + button_rule(gtk, scheme, class, ":backdrop"@, prefix, asset, "backdrop"@) + button_rule(
        gtk,
        scheme,
        class,
        ":backdrop:active"@,
        prefix,
        asset,
        "backdrop-pressed"@,
    )
}

/// Which asset each titlebar piece takes, for a scheme.
pub open spec fn rules_text(p: Palette, gtk: Gtk) -> Seq<char> {
    let id = p.id@;
    bar_rules(p) + button_rules(gtk, id, "menu"@, ""@, "menu"@) + "\n"@ + button_rules(
        gtk,
        id,
        "minimize"@,
        ""@,
        "minimize"@,
    ) + "\n"@ + button_rules(gtk, id, "maximize"@, ""@, "maximize"@) + "\n"@ + button_rules(
        gtk,
        id,
        "close"@,
        ""@,
        "close"@,
    ) + "\n"@ + "/* While the window is maximized. */\n"@ + button_rules(
        gtk,
        id,
        "maximize"@,
        ".maximized "@,
        "maximized"@,
    )
}

/// What the picture of a button's state is called, behind the button's name.
pub open spec fn state_picture(state: int) -> Seq<char> {
    if state == 0 {
        "active"@
    } else if state == 1 {
        "active-pressed"@
    } else if state == 2 {
        "backdrop"@
    } else {
        "backdrop-pressed"@
    }
}

/// Every picture that the rules name is among the assets, and every asset is named: the rules go
/// through the buttons and their states as the assets do.
pub proof fn the_rules_name_the_assets(
    gtk: Gtk,
    scheme: Seq<char>,
    class: Seq<char>,
    prefix: Seq<char>,
    i: int,
)
    requires
        0 <= i < 20,
    ensures
        ({
            let button = buttons()[i / 4].0;
            button + "-"@ + state_picture(i % 4) == asset_name(button, i % 4 < 2, i % 2 == 1)
        }),
        button_rules(gtk, scheme, class, prefix, buttons()[i / 4].0) == button_rule(
            gtk,
            scheme,
            class,
            ""@,
            prefix,
            buttons()[i / 4].0,
            state_picture(0),
        ) + button_rule(
            gtk,
            scheme,
            class,
            ":active"@,
            prefix,
            buttons()[i / 4].0,
            state_picture(1),
        ) + button_rule(
            gtk,
            scheme,
            class,
            ":backdrop"@,
            prefix,
            buttons()[i / 4].0,
            state_picture(2),
        ) + button_rule(
            gtk,
            scheme,
            class,
            ":backdrop:active"@,
            prefix,
            buttons()[i / 4].0,
            state_picture(3),
        ),
{
    reveal(button_rules);
    reveal_strlit("active");
    reveal_strlit("active-pressed");
    reveal_strlit("backdrop");
    reveal_strlit("backdrop-pressed");
    reveal_strlit("-pressed");
    reveal_strlit("");
    let button = buttons()[i / 4].0;
    let name = asset_name(button, i % 4 < 2, i % 2 == 1);
    assert("active"@ + "-pressed"@ =~= "active-pressed"@);
    assert("backdrop"@ + "-pressed"@ =~= "backdrop-pressed"@);
    assert(button + "-"@ + state_picture(i % 4) =~= name);
}

fn push_rule(
    css: &mut String,
    gtk: Gtk,
    scheme: &str,
    class: &str,
    state: &str,
    prefix: &str,
    asset: &str,
    asset_state: &str,
)
    ensures
        final(css)@ == old(css)@ + button_rule(
            gtk,
            scheme@,
            class@,
            state@,
            prefix@,
            asset@,
            asset_state@,
        ),
{
    css.append(gtk.button(class, state, prefix).as_str());
    css.append(" {\n  background-image: url(\"../../assets/");
    css.append(scheme);
    css.append("/");
    css.append(asset);
    css.append("-");
    css.append(asset_state);
    css.append(".svg\");\n}\n");
    assert(css@ =~= old(css)@ + button_rule(
        gtk,
        scheme@,
        class@,
        state@,
        prefix@,
        asset@,
        asset_state@,
    ));
}

fn push_rules(css: &mut String, gtk: Gtk, scheme: &str, class: &str, prefix: &str, asset: &str)
    ensures
        final(css)@ == old(css)@ + button_rules(gtk, scheme@, class@, prefix@, asset@),
{
    push_rule(css, gtk, scheme, class, "", prefix, asset, "active");
    push_rule(css, gtk, scheme, class, ":active", prefix, asset, "active-pressed");
    push_rule(css, gtk, scheme, class, ":backdrop", prefix, asset, "backdrop");
    push_rule(css, gtk, scheme, class, ":backdrop:active", prefix, asset, "backdrop-pressed");
    reveal(button_rules);
    assert(css@ =~= old(css)@ + button_rules(gtk, scheme@, class@, prefix@, asset@));
}

/// Which asset each titlebar piece takes, for one scheme.
pub fn asset_rules(palette: &Palette, gtk: Gtk) -> (css: String)
    ensures
        css@ == rules_text(*palette, gtk),
{
    let id = palette.id.as_str();
    let mut css = BAR_COMMENT.to_owned();
    css.append(
        "headerbar, .titlebar {\n  background-color: @wlrix_title_active;\n  color: @wlrix_title_active_text;\n  box-shadow: ",
    );
    css.append(
        bevel(palette.title_active_top_shadow, palette.title_active_bottom_shadow).as_str(),
    );
    css.append(
        ";\n}\n\nheaderbar:backdrop, .titlebar:backdrop {\n  background-color: @wlrix_title_inactive;\n  color: @wlrix_title_inactive_text;\n  box-shadow: ",
    );
    css.append(
        bevel(palette.title_inactive_top_shadow, palette.title_inactive_bottom_shadow).as_str(),
    );
    css.append(";\n}\n\n");
    assert(css@ =~= bar_rules(*palette)) by {
        reveal(bar_rules);
    }
    push_rules(&mut css, gtk, id, "menu", "", "menu");
    css.append("\n");
    push_rules(&mut css, gtk, id, "minimize", "", "minimize");
    css.append("\n");
    push_rules(&mut css, gtk, id, "maximize", "", "maximize");
    css.append("\n");
    push_rules(&mut css, gtk, id, "close", "", "close");
    css.append("\n");
    css.append("/* While the window is maximized. */\n");
    push_rules(&mut css, gtk, id, "maximize", ".maximized ", "maximized");
    css
}

/// What a scheme's stylesheet starts with.
pub open spec fn sheet_head(p: Palette, gtk: Gtk) -> Seq<char> {
    "/* GENERATED by `wlrix-compositor --dump-gtk-theme`. Do not edit; edit the palette\n   JSON in wlrix-assets/palette/ and regenerate.\n \n   "@
        + p.name@ + " ("@ + (if p.dark {
        "dark"@
    } else {
        "light"@
    }) + "), for "@ + gtk.directory()
        + ". Pairs with wlrix.css, which carries the structure.\n */\n\n"@
}

/// One scheme's stylesheet.
pub open spec fn sheet_text(p: Palette, gtk: Gtk) -> Seq<char> {
    sheet_head(p, gtk) + define_line("wlrix_title_active"@, p.title_active) + define_line(
        "wlrix_title_active_text"@,
        p.title_active_text,
    ) + define_line("wlrix_title_inactive"@, p.title_inactive) + define_line(
        "wlrix_title_inactive_text"@,
        p.title_inactive_text,
    ) + "\n"@ + (define_lines(body_pairs(p, gtk)) + "\n"@) + rules_text(p, gtk)
}

/// One scheme's stylesheet: its colors, and which assets go on which button.
pub fn scheme_css(palette: &Palette, gtk: Gtk) -> (css: String)
    ensures
        css@ == sheet_text(*palette, gtk),
{
    let mut css =
        "/* GENERATED by `wlrix-compositor --dump-gtk-theme`. Do not edit; edit the palette\n   JSON in wlrix-assets/palette/ and regenerate.\n \n   ".to_owned();
    css.append(palette.name.as_str());
    css.append(" (");
    css.append(
        if palette.dark {
            "dark"
        } else {
            "light"
        },
    );
    css.append("), for ");
    css.append(gtk.dir());
    css.append(". Pairs with wlrix.css, which carries the structure.\n */\n\n");
    assert(css@ =~= sheet_head(*palette, gtk));
    push_define(&mut css, "wlrix_title_active", palette.title_active);
    push_define(&mut css, "wlrix_title_active_text", palette.title_active_text);
    push_define(&mut css, "wlrix_title_inactive", palette.title_inactive);
    push_define(&mut css, "wlrix_title_inactive_text", palette.title_inactive_text);
    css.append("\n");
    css.append(body_colors(palette, gtk).as_str());
    css.append(asset_rules(palette, gtk).as_str());
    css
}

/// The value of a hexadecimal digit.
pub open spec fn hex_value(c: char) -> int {
    if c as u32 >= 97 {
        c as u32 - 87
    } else {
        c as u32 - 48
    }
}

/// A color is written as its red, its green and its blue, in two hexadecimal digits each, the
/// higher one first.
pub proof fn a_color_is_written_red_first(color: Rgb)
    ensures
        ({
            let s = hex_text(color);
            &&& s.len() == 7 && s[0] == '#'
            &&& 16 * hex_value(s[1]) + hex_value(s[2]) == color.r
            &&& 16 * hex_value(s[3]) + hex_value(s[4]) == color.g
            &&& 16 * hex_value(s[5]) + hex_value(s[6]) == color.b
        }),
{
    let s = hex_text(color);
    assert(s[1] == hex_digit(color.r as int / 16));
    assert(s[2] == hex_digit(color.r as int % 16));
    assert(s[3] == hex_digit(color.g as int / 16));
    assert(s[4] == hex_digit(color.g as int % 16));
    assert(s[5] == hex_digit(color.b as int / 16));
    assert(s[6] == hex_digit(color.b as int % 16));
}

/// A pixel of an area is covered by a cropped quad where the pixel it was is covered by the quad,
/// in the same color.
pub proof fn a_crop_shows_what_was_there(quad: Quad, area: Rect, p: Point)
    requires
        quad.0.reaches() && quad.0.size.w >= 0 && quad.0.size.h >= 0,
        area.reaches() && area.size.w >= 0 && area.size.h >= 0,
        0 <= p.x < area.size.w,
        0 <= p.y < area.size.h,
    ensures
        ({
            let q = quad.0;
            let was = q.loc.x <= area.loc.x + p.x < q.loc.x + q.size.w && q.loc.y <= area.loc.y + p.y
                < q.loc.y + q.size.h;
            was == match cropped_quad(quad, area) {
                Some((r, color)) => color == quad.1 && r.loc.x <= p.x < r.loc.x + r.size.w
                    && r.loc.y <= p.y < r.loc.y + r.size.h,
                None => false,
            }
        }),
{
}

/// What is painted first stands first: of two lists of quads, one in front of the other, the one
/// behind is written before the one in front.
pub proof fn what_is_behind_is_painted_first(front: Seq<Quad>, behind: Seq<Quad>)
    ensures
        rect_lines(front + behind) == rect_lines(behind) + rect_lines(front),
    decreases behind.len(),
{
    if behind.len() == 0 {
        assert(front + behind =~= front);
        assert(rect_lines(behind) + rect_lines(front) =~= rect_lines(front));
    } else {
        let fewer = behind.drop_last();
        what_is_behind_is_painted_first(front, fewer);
        let all = front + behind;
        assert(all.drop_last() =~= front + fewer);
        assert(all.last() == behind.last());
        assert(rect_line(behind.last()) + (rect_lines(fewer) + rect_lines(front)) =~= (rect_line(
            behind.last(),
        ) + rect_lines(fewer)) + rect_lines(front));
    }
}

} // verus!
