use std::collections::BTreeSet;
use wlrix_compositor::geometry::{Point, Rect, Size};
use wlrix_compositor::theme_export::{
    asset_rules, assets, body_colors, button_svg, crop, hex, sample_client, scheme_css, svg, titlebar_style,
    Gtk, Palette, Quad, Rgb, BUTTON_W, TITLEBAR_HEIGHT,
};

fn rgb(r: u8, g: u8, b: u8) -> Rgb {
    Rgb { r, g, b }
}

/// A scheme whose colors all differ.
fn palette(id: &str, shade: u8) -> Palette {
    Palette {
        id: id.to_string(),
        name: id.to_uppercase(),
        dark: false,
        panel: rgb(1, shade, 0),
        face: rgb(2, shade, 0),
        foreground: rgb(3, shade, 0),
        disabled_foreground: rgb(4, shade, 0),
        text_background: rgb(5, shade, 0),
        read_only: rgb(6, shade, 0),
        selection_background: rgb(7, shade, 0),
        selection_foreground: rgb(8, shade, 0),
        tooltip_background: rgb(9, shade, 0),
        tooltip_foreground: rgb(10, shade, 0),
        error: rgb(11, shade, 0),
        accent: rgb(12, shade, 0),
        link: rgb(13, shade, 0),
        link_visited: rgb(14, shade, 0),
        outer_line: rgb(15, shade, 0),
        title_active: rgb(16, shade, 0),
        title_active_text: rgb(17, shade, 0),
        title_active_top_shadow: rgb(18, shade, 0),
        title_active_bottom_shadow: rgb(19, shade, 0),
        title_inactive: rgb(20, shade, 0),
        title_inactive_text: rgb(21, shade, 0),
        title_inactive_top_shadow: rgb(22, shade, 0),
        title_inactive_bottom_shadow: rgb(23, shade, 0),
    }
}

fn classic() -> Palette {
    palette("classic", 100)
}

fn all() -> Vec<Palette> {
    vec![classic(), palette("milan", 110), palette("rosebud", 120)]
}

fn rect(x: i32, y: i32, w: i32, h: i32) -> Rect {
    Rect::new(Point { x, y }, Size { w, h })
}

fn button() -> Rect {
    rect(40, 10, BUTTON_W, TITLEBAR_HEIGHT)
}

/// A frame's quads around a button, topmost first: its glyph, its bevel, the bar.
fn quads() -> Vec<Quad> {
    vec![
        (rect(50, 20, 10, 2), classic().outer_line),
        (rect(40, 10, BUTTON_W, 2), classic().title_active_top_shadow),
        (rect(0, 0, 400, 60), classic().title_active),
        (rect(500, 500, 10, 10), classic().face),
    ]
}

#[test]
fn no_asset_can_break_its_own_xml() {
    for glyph in [true, false] {
        let text = button_svg(&quads(), button(), glyph, classic().outer_line);
        let mut rest = text.as_str();
        while let Some(open) = rest.find("<!--") {
            let body = &rest[open + 4..];
            let close = body.find("-->").expect("an unterminated comment");
            assert!(!body[..close].contains("--"), "`--` inside an XML comment");
            rest = &body[close + 3..];
        }
    }
}

#[test]
fn a_byte_survives_the_round_trip_through_f32() {
    for v in 0u8..=255 {
        let back = hex(rgb(v, v, v));
        assert_eq!(back, format!("#{v:02x}{v:02x}{v:02x}"), "{v}");
    }
}

#[test]
fn a_button_asset_is_the_frames_own_quads_reversed() {
    let cropped = crop(&quads(), button());
    let text = svg(button().size, &cropped);

    // One <rect> per quad, and the first one drawn is the last one the frame listed.
    assert_eq!(text.matches("<rect").count(), cropped.len());
    let first = cropped.last().expect("the button has quads");
    let line = format!(
        "<rect x=\"{}\" y=\"{}\" width=\"{}\" height=\"{}\" fill=\"{}\"/>",
        first.0.loc.x,
        first.0.loc.y,
        first.0.size.w,
        first.0.size.h,
        hex(first.1)
    );
    assert!(text.contains(&line), "{text}");
    assert_eq!(text.find("<rect"), text.find(&line));
}

#[test]
fn a_button_asset_is_exactly_the_button() {
    let text = button_svg(&quads(), button(), true, classic().outer_line);
    assert!(
        text.contains(&format!("width=\"{BUTTON_W}\" height=\"{TITLEBAR_HEIGHT}\"")),
        "{text}"
    );
    assert!(text.contains("<rect"), "it drew nothing");
    for (r, _) in crop(&quads(), button()) {
        assert!(r.loc.x >= 0 && r.loc.x + r.size.w <= BUTTON_W);
        assert!(r.loc.y >= 0 && r.loc.y + r.size.h <= TITLEBAR_HEIGHT);
    }
}

#[test]
fn the_close_asset_is_a_button_with_no_glyph() {
    let outline = hex(classic().outer_line);
    let face = button_svg(&quads(), button(), false, classic().outer_line);
    let glyphed = button_svg(&quads(), button(), true, classic().outer_line);

    assert!(!face.contains(&outline), "the face still has a glyph: {face}");
    assert!(glyphed.contains(&outline), "the glyphed one lost its glyph");
    // Same bevel, so the two sit flush: every rect of the face is in the glyphed one too.
    for line in face.lines().filter(|l| l.trim_start().starts_with("<rect")) {
        assert!(glyphed.contains(line.trim()), "{line} is not the button's own");
    }
}

#[test]
fn the_bar_draws_its_bevel_the_way_the_frame_does() {
    let css = scheme_css(&classic(), Gtk::V3);
    let shadow = &css[css.find("box-shadow:").expect("the bar has a bevel")..];
    let shadow = &shadow[..shadow.find(';').expect("a declaration ends")];
    let light = hex(classic().title_active_top_shadow);
    let dark = hex(classic().title_active_bottom_shadow);

    // The horizontal pair first, so the vertical pair covers it at the corners.
    assert!(shadow.contains(&format!("inset 2px 0 0 0 {light}")), "{shadow}");
    assert!(
        shadow.find("inset 2px 0").unwrap() < shadow.find("inset 0 2px").unwrap(),
        "the full-width pair has to come last: {shadow}"
    );
    assert!(css.contains(&format!("inset 0 -2px 0 0 {dark}")), "{css}");
}

#[test]
fn every_scheme_gets_the_full_set_of_assets() {
    let assets = assets();
    assert_eq!(assets.len(), 20);
    let names: BTreeSet<_> = assets.iter().map(|asset| asset.name.as_str()).collect();
    assert_eq!(names.len(), assets.len(), "a name is used twice");
    for wanted in ["menu-active", "minimize-backdrop-pressed", "maximized-active"] {
        assert!(names.contains(wanted), "no {wanted}");
    }
}

#[test]
fn each_generation_spells_a_button_the_way_it_names_it() {
    let v3 = scheme_css(&classic(), Gtk::V3);
    assert!(v3.contains("headerbar button.titlebutton.minimize"), "{v3}");
    assert!(!v3.contains("windowcontrols"), "{v3}");

    let v4 = scheme_css(&classic(), Gtk::V4);
    assert!(v4.contains("windowcontrols > button.minimize"), "{v4}");
    assert!(!v4.contains("titlebutton"), "{v4}");

    // Both still reach every button and every state.
    for css in [&v3, &v4] {
        for class in ["menu", "minimize", "maximize", "close"] {
            assert!(css.contains(class), "no rules for {class}");
        }
        for state in [":active", ":backdrop", ":backdrop:active"] {
            assert!(css.contains(state), "no {state} rules");
        }
        assert!(css.contains(".maximized "), "no maximized override");
    }
}

#[test]
fn a_scheme_sheet_names_only_its_own_assets() {
    for palette in all() {
        for gtk in [Gtk::V3, Gtk::V4] {
            let css = scheme_css(&palette, gtk);
            for other in all() {
                let looked_for = format!("assets/{}/", other.id);
                assert_eq!(
                    css.contains(&looked_for),
                    other.id == palette.id,
                    "{} ({}) refers to {}",
                    palette.id,
                    gtk.dir(),
                    other.id
                );
            }
        }
    }
}

#[test]
fn each_gtk_generation_gets_the_names_it_reads() {
    let v3 = scheme_css(&classic(), Gtk::V3);
    assert!(v3.contains("@define-color theme_bg_color"));
    assert!(!v3.contains("@define-color window_bg_color"));

    let v4 = scheme_css(&classic(), Gtk::V4);
    assert!(v4.contains("@define-color window_bg_color"));
    assert!(!v4.contains("@define-color theme_bg_color"));

    // The frame's own names are in both: the structural sheet reads them either way.
    for css in [&v3, &v4] {
        assert!(css.contains("@define-color wlrix_title_active "));
        assert!(css.contains("@define-color wlrix_title_inactive_text "));
    }
}

#[test]
fn a_sheet_holds_the_colors_of_its_scheme() {
    let colors = body_colors(&classic(), Gtk::V3);
    assert!(colors.contains(&hex(classic().panel)));
    assert!(titlebar_style().titlebar);
    assert_eq!(sample_client(240).size.w, 240);
}

#[test]
fn the_rules_name_every_asset_once_and_no_other_file() {
    for gtk in [Gtk::V3, Gtk::V4] {
        let css = asset_rules(&classic(), gtk);
        let mut named: Vec<&str> = css
            .split("url(\"")
            .skip(1)
            .map(|rest| rest.split("\")").next().unwrap())
            .map(|url| url.rsplit('/').next().unwrap().strip_suffix(".svg").unwrap())
            .collect();
        named.sort_unstable();
        let assets = assets();
        let mut names: Vec<&str> = assets.iter().map(|asset| asset.name.as_str()).collect();
        names.sort_unstable();
        assert_eq!(named, names);
    }
}
