use wlrix_compositor::text::{upload_bytes, Lookup, Rasterized, TextKey, TextRenderer, MAX_LINES};

fn key(text: &str, rgb: (u8, u8, u8)) -> TextKey {
    TextKey { text: text.to_string(), px: 15, red: rgb.0, green: rgb.1, blue: rgb.2 }
}

#[test]
fn a_palette_change_is_what_clear_is_for() {
    let mut text = TextRenderer::new();
    let (black, white) = ((0, 0, 0), (255, 255, 255));
    assert_eq!(text.lookup(&key("Close", black)), Lookup::Missing);
    let drawn = text.store(key("Close", black), 1, 40, 16);
    assert_eq!(drawn, Rasterized { buffer: 1, width: 40, height: 16 });
    assert_eq!(text.len(), 1);
    // The same string in another color is another entry.
    assert_eq!(text.lookup(&key("Close", white)), Lookup::Missing);
    text.store(key("Close", white), 2, 40, 16);
    assert_eq!(text.len(), 2);
    assert_eq!(text.lookup(&key("Close", black)), Lookup::Known(drawn));
    text.clear();
    assert_eq!(text.len(), 0);
}

#[test]
fn blank_text_rasterizes_to_nothing() {
    let text = TextRenderer::new();
    assert_eq!(text.lookup(&key("", (0, 0, 0))), Lookup::Blank);
    assert_eq!(text.lookup(&key("   ", (0, 0, 0))), Lookup::Blank);
}

#[test]
fn the_lines_are_dropped_together_when_there_are_too_many() {
    let mut text = TextRenderer::new();
    for n in 0..MAX_LINES {
        text.store(key(&format!("title {n}"), (0, 0, 0)), n as u64, 10, 10);
    }
    assert_eq!(text.len(), MAX_LINES);
    let thin = text.store(key("one more", (0, 0, 0)), 9, 0, 10);
    assert_eq!(thin.width, 1, "a line is at least a pixel wide");
    assert_eq!(text.len(), 1);
    assert_eq!(text.lookup(&key("title 0", (0, 0, 0))), Lookup::Missing);
}

#[test]
fn pixels_are_uploaded_color_first() {
    assert_eq!(upload_bytes(&[0x80112233, 0xff000001]), vec![
        0x11, 0x22, 0x33, 0x80, 0x00, 0x00, 0x01, 0xff
    ]);
    assert_eq!(upload_bytes(&[]), Vec::<u8>::new());
}
