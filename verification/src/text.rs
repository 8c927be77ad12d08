//! Text for the titlebars: what is remembered of it, and the pixels it is uploaded as.
use vstd::prelude::*;

use crate::cache::{remembered, Cache};
use crate::scan::{same_text, trim, trimmed};
use crate::table::Key;

verus! {

/// Lines past which all are dropped: a window that rewrites its title constantly would otherwise
/// grow the memory without bound.
pub const MAX_LINES: usize = 512;

/// A line of text of a size and a color.
pub struct TextKey {
    pub text: String,
    pub px: u32,
    pub red: u8,
    pub green: u8,
    pub blue: u8,
}

/// The same, as values.
pub ghost struct Line {
    pub text: Seq<char>,
    pub px: u32,
    pub red: u8,
    pub green: u8,
    pub blue: u8,
}

impl Key for TextKey {
    type Of = Line;

    open spec fn of(&self) -> Line {
        Line {
            text: self.text@,
            px: self.px,
            red: self.red,
            green: self.green,
            blue: self.blue,
        }
    }

    fn same(&self, other: &Self) -> (r: bool) {
        self.px == other.px && self.red == other.red && self.green == other.green && self.blue
            == other.blue && same_text(self.text.as_str(), other.text.as_str())
    }
}

/// A rasterized line: its buffer, and its size in pixels.
#[derive(Debug, Clone, Copy, PartialEq, Eq)]
pub struct Rasterized {
    pub buffer: u64,
    pub width: i32,
    pub height: i32,
}

/// What is to be done for a line of text.
#[derive(Debug, Clone, Copy, PartialEq, Eq)]
pub enum Lookup {
    /// It is blank: nothing is drawn.
    Blank,
    /// It is there already.
    Known(Rasterized),
    /// It is to be rasterized.
    Missing,
}

/// The lines that have been rasterized.
pub struct TextRenderer {
    cache: Cache<TextKey, Rasterized>,
}

impl View for TextRenderer {
    type V = Map<Line, Rasterized>;

    closed spec fn view(&self) -> Map<Line, Rasterized> {
        self.cache@
    }
}

impl TextRenderer {
    /// Whether the limit is what it should be.
    pub closed spec fn valid(&self) -> bool {
        self.cache.limit() == MAX_LINES
    }

    pub fn new() -> (renderer: Self)
        ensures
            renderer.valid(),
            renderer@ == Map::<Line, Rasterized>::empty(),
    {
        TextRenderer { cache: Cache::new(MAX_LINES) }
    }

    /// What is to be done for a line of text.
    pub fn lookup(&self, key: &TextKey) -> (found: Lookup)
        ensures
            found == if trimmed(key.text@).len() == 0 {
                Lookup::Blank
            } else if self@.dom().contains(key.of()) {
                Lookup::Known(self@[key.of()])
            } else {
                Lookup::Missing
            },
    {
        let inner = trim(key.text.as_str());
        if inner.as_str().is_empty() {
            return Lookup::Blank;
        }
        match self.cache.get(key) {
            Some(rasterized) => Lookup::Known(*rasterized),
            None => Lookup::Missing,
        }
    }

    /// A line was rasterized: it is remembered. A line is at least a pixel wide.
    pub fn store(&mut self, key: TextKey, buffer: u64, width: i32, height: i32) -> (rasterized:
        Rasterized)
        requires
            old(self).valid(),
        ensures
            final(self).valid(),
            rasterized.buffer == buffer,
            rasterized.width == if width > 1 {
                width
            } else {
                1
            },
            rasterized.height == height,
            final(self)@ == remembered(old(self)@, MAX_LINES as nat, key.of(), rasterized),
    {
        let rasterized = Rasterized {
            buffer,
            width: if width > 1 {
                width
            } else {
                1
            },
            height,
        };
        self.cache.remember(key, rasterized);
        rasterized
    }

    /// The number of lines that are remembered.
    pub fn len(&self) -> (n: usize)
        ensures
            self@.dom().finite(),
            n == self@.dom().len(),
    {
        self.cache.len()
    }

    /// Throws away every rasterized line. After a change of colors each would otherwise keep the
    /// one it was rasterized in.
    pub fn clear(&mut self)
        requires
            old(self).valid(),
        ensures
            final(self).valid(),
            final(self)@ == Map::<Line, Rasterized>::empty(),
    {
        self.cache.clear();
    }
}

/// The byte of a pixel at a place: the color's three, then the coverage, out of a word that holds
/// the coverage first.
pub open spec fn pixel_byte(pixel: u32, place: int) -> u8 {
    if place == 0 {
        (pixel as int / 0x1_0000 % 256) as u8
    } else if place == 1 {
        (pixel as int / 0x100 % 256) as u8
    } else if place == 2 {
        (pixel as int % 256) as u8
    } else {
        (pixel as int / 0x100_0000) as u8
    }
}

/// The bytes of pixels in the order in which they are uploaded.
pub fn upload_bytes(argb: &[u32]) -> (bytes: Vec<u8>)
    ensures
        bytes@.len() == argb@.len() * 4,
        forall|i: int|
            0 <= i < bytes@.len() ==> #[trigger] bytes@[i] == pixel_byte(argb@[i / 4], i % 4),
{
    let mut bytes: Vec<u8> = Vec::new();
    let mut i: usize = 0;
    while i < argb.len()
        invariant
            i <= argb@.len(),
            bytes@.len() == i * 4,
            forall|j: int|
                0 <= j < bytes@.len() ==> #[trigger] bytes@[j] == pixel_byte(argb@[j / 4], j % 4),
        decreases argb.len() - i,
    {
        let pixel: u32 = argb[i];
        bytes.push((pixel / 0x1_0000 % 256) as u8);
        bytes.push((pixel / 0x100 % 256) as u8);
        bytes.push((pixel % 256) as u8);
        bytes.push((pixel / 0x100_0000) as u8);
        i += 1;
    }
    bytes
}

/// A pixel is uploaded as its red, its green, its blue and its coverage: together they are the
/// pixel again.
pub proof fn a_pixels_bytes_are_the_pixel(pixel: u32)
    ensures
        pixel_byte(pixel, 3) * 0x100_0000 + pixel_byte(pixel, 0) * 0x1_0000 + pixel_byte(pixel, 1)
            * 0x100 + pixel_byte(pixel, 2) == pixel,
{
}

} // verus!
