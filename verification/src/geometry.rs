//! Points, sizes and rectangles in whole pixels, and pointer positions in 256ths of one.
use vstd::prelude::*;

verus! {

#[derive(Debug, Clone, Copy, PartialEq, Eq, Structural)]
pub struct Point {
    pub x: i32,
    pub y: i32,
}

#[derive(Debug, Clone, Copy, PartialEq, Eq, Structural)]
pub struct Size {
    pub w: i32,
    pub h: i32,
}

#[derive(Debug, Clone, Copy, PartialEq, Eq, Structural)]
pub struct Rect {
    pub loc: Point,
    pub size: Size,
}

/// What a window's frame adds to its client on each side.
#[derive(Debug, Clone, Copy, PartialEq, Eq, Structural)]
pub struct Insets {
    pub left: i32,
    pub top: i32,
    pub right: i32,
    pub bottom: i32,
}

/// A pointer position, in 256ths of a pixel.
#[derive(Debug, Clone, Copy, PartialEq, Eq, Structural)]
pub struct Spot {
    pub x: i64,
    pub y: i64,
}

/// How many parts of a spot make a pixel.
pub const UNIT: i64 = 256;

/// The number of an `i32` that is nearest to `n`.
pub open spec fn saturated(n: int) -> int {
    if n < i32::MIN {
        i32::MIN as int
    } else if n > i32::MAX {
        i32::MAX as int
    } else {
        n
    }
}

/// Whether an `i32` holds `n`.
pub open spec fn fits(n: int) -> bool {
    i32::MIN <= n <= i32::MAX
}

pub open spec fn max(a: int, b: int) -> int {
    if a >= b {
        a
    } else {
        b
    }
}

pub open spec fn min(a: int, b: int) -> int {
    if a <= b {
        a
    } else {
        b
    }
}

/// `n`, pulled into `low..=high`.
pub open spec fn clamped(n: int, low: int, high: int) -> int {
    if n < low {
        low
    } else if n > high {
        high
    } else {
        n
    }
}

/// `n / d` rounded to the nearest whole number, a half away from zero.
pub open spec fn rounded(n: int, d: int) -> int {
    if n >= 0 {
        (2 * n + d) / (2 * d)
    } else {
        -((2 * -n + d) / (2 * d))
    }
}

pub fn larger(a: i64, b: i64) -> (r: i64)
    ensures
        r == max(a as int, b as int),
{
    if a >= b {
        a
    } else {
        b
    }
}

pub fn smaller(a: i64, b: i64) -> (r: i64)
    ensures
        r == min(a as int, b as int),
{
    if a <= b {
        a
    } else {
        b
    }
}

/// `n`, pulled into `low..=high`.
pub fn clamp(n: i64, low: i64, high: i64) -> (r: i64)
    requires
        low <= high,
    ensures
        r == clamped(n as int, low as int, high as int),
{
    if n < low {
        low
    } else if n > high {
        high
    } else {
        n
    }
}

/// A number of 256ths in whole pixels, a half away from zero, as an `i32`.
pub fn round_to_pixel(n: i64) -> (r: i32)
    ensures
        r == saturated(rounded(n as int, 256)),
{
    let pixels: i128 = if n >= 0 {
        (2 * (n as i128) + 256) / 512
    } else {
        -((2 * -(n as i128) + 256) / 512)
    };
    if pixels < -0x8000_0000 {
        i32::MIN
    } else if pixels > 0x7fff_ffff {
        i32::MAX
    } else {
        pixels as i32
    }
}

/// Where a side that starts at `near` ends, as an `i32`.
pub fn far_edge(near: i32, length: i32) -> (far: i32)
    ensures
        far == saturated(near + length),
{
    let far: i64 = near as i64 + length as i64;
    if far < i32::MIN as i64 {
        i32::MIN
    } else if far > i32::MAX as i64 {
        i32::MAX
    } else {
        far as i32
    }
}

impl Spot {
    /// The pixel that the spot is nearest to.
    pub open spec fn pixel(self) -> Point {
        Point {
            x: saturated(rounded(self.x as int, 256)) as i32,
            y: saturated(rounded(self.y as int, 256)) as i32,
        }
    }

    /// The pixel that the spot is nearest to.
    pub fn to_i32_round(self) -> (p: Point)
        ensures
            p == self.pixel(),
    {
        Point { x: round_to_pixel(self.x), y: round_to_pixel(self.y) }
    }

    /// The spot at a pixel's corner.
    pub open spec fn at(p: Point) -> Spot {
        Spot { x: (p.x * 256) as i64, y: (p.y * 256) as i64 }
    }

    /// The spot at a pixel's corner.
    pub fn of(p: Point) -> (s: Spot)
        ensures
            s == Spot::at(p),
    {
        Spot { x: p.x as i64 * UNIT, y: p.y as i64 * UNIT }
    }
}

impl Rect {
    pub open spec fn right(self) -> int {
        self.loc.x + self.size.w
    }

    pub open spec fn bottom(self) -> int {
        self.loc.y + self.size.h
    }

    /// Whether the far corner is a point.
    pub open spec fn reaches(self) -> bool {
        fits(self.right()) && fits(self.bottom())
    }

    /// Whether a pixel is inside.
    pub open spec fn holds(self, p: Point) -> bool {
        &&& self.loc.x <= p.x < saturated(self.right())
        &&& self.loc.y <= p.y < saturated(self.bottom())
    }

    /// Whether a spot is inside.
    pub open spec fn holds_spot(self, s: Spot) -> bool {
        &&& self.loc.x * 256 <= s.x < self.right() * 256
        &&& self.loc.y * 256 <= s.y < self.bottom() * 256
    }

    /// Whether two rectangles share more than an edge.
    pub open spec fn meets(self, other: Rect) -> bool {
        &&& self.loc.x < saturated(other.right())
        &&& other.loc.x < saturated(self.right())
        &&& self.loc.y < saturated(other.bottom())
        &&& other.loc.y < saturated(self.bottom())
    }

    pub fn new(loc: Point, size: Size) -> (r: Rect)
        ensures
            r == (Rect { loc, size }),
    {
        Rect { loc, size }
    }

    /// Whether a pixel is inside the rectangle.
    pub fn contains(self, p: Point) -> (r: bool)
        ensures
            r == self.holds(p),
    {
        p.x >= self.loc.x && p.x < far_edge(self.loc.x, self.size.w) && p.y >= self.loc.y
            && p.y < far_edge(self.loc.y, self.size.h)
    }

    /// Whether a spot is inside the rectangle.
    pub fn contains_spot(self, s: Spot) -> (r: bool)
        ensures
            r == self.holds_spot(s),
    {
        let right: i64 = self.loc.x as i64 + self.size.w as i64;
        let bottom: i64 = self.loc.y as i64 + self.size.h as i64;
        s.x >= self.loc.x as i64 * UNIT && s.x < right * UNIT && s.y >= self.loc.y as i64 * UNIT
            && s.y < bottom * UNIT
    }

    /// Whether two rectangles share more than an edge.
    pub fn overlaps(self, other: Rect) -> (r: bool)
        ensures
            r == self.meets(other),
    {
        self.loc.x < far_edge(other.loc.x, other.size.w)
            && other.loc.x < far_edge(self.loc.x, self.size.w)
            && self.loc.y < far_edge(other.loc.y, other.size.h)
            && other.loc.y < far_edge(self.loc.y, self.size.h)
    }

    /// What two rectangles share: from the further of their near edges to the nearer of their
    /// far ones.
    pub open spec fn shared(self, other: Rect) -> Rect {
        let x = max(self.loc.x as int, other.loc.x as int);
        let y = max(self.loc.y as int, other.loc.y as int);
        Rect {
            loc: Point { x: x as i32, y: y as i32 },
            size: Size {
                w: (min(saturated(self.right()), saturated(other.right())) - x) as i32,
                h: (min(saturated(self.bottom()), saturated(other.bottom())) - y) as i32,
            },
        }
    }

    /// What two rectangles share, where they share more than an edge.
    pub fn intersection(self, other: Rect) -> (r: Option<Rect>)
        ensures
            r == if self.meets(other) {
                Some(self.shared(other))
            } else {
                None
            },
    {
        if !self.overlaps(other) {
            return None;
        }
        let x: i64 = larger(self.loc.x as i64, other.loc.x as i64);
        let y: i64 = larger(self.loc.y as i64, other.loc.y as i64);
        let right: i64 = smaller(
            far_edge(self.loc.x, self.size.w) as i64,
            far_edge(other.loc.x, other.size.w) as i64,
        );
        let bottom: i64 = smaller(
            far_edge(self.loc.y, self.size.h) as i64,
            far_edge(other.loc.y, other.size.h) as i64,
        );
        Some(
            Rect {
                loc: Point { x: x as i32, y: y as i32 },
                size: Size { w: (right - x) as i32, h: (bottom - y) as i32 },
            },
        )
    }

    /// The left edge of what covers both rectangles.
    pub open spec fn merged_left(self, other: Rect) -> int {
        min(min(self.loc.x as int, self.right()), min(other.loc.x as int, other.right()))
    }

    pub open spec fn merged_top(self, other: Rect) -> int {
        min(min(self.loc.y as int, self.bottom()), min(other.loc.y as int, other.bottom()))
    }

    pub open spec fn merged_right(self, other: Rect) -> int {
        max(max(self.loc.x as int, self.right()), max(other.loc.x as int, other.right()))
    }

    pub open spec fn merged_bottom(self, other: Rect) -> int {
        max(max(self.loc.y as int, self.bottom()), max(other.loc.y as int, other.bottom()))
    }

    /// The smallest rectangle that covers both.
    pub open spec fn merged(self, other: Rect) -> Rect {
        Rect {
            loc: Point {
                x: self.merged_left(other) as i32,
                y: self.merged_top(other) as i32,
            },
            size: Size {
                w: (self.merged_right(other) - self.merged_left(other)) as i32,
                h: (self.merged_bottom(other) - self.merged_top(other)) as i32,
            },
        }
    }

    /// Whether `i32`s hold the rectangle that covers both.
    pub open spec fn can_merge(self, other: Rect) -> bool {
        &&& self.reaches()
        &&& other.reaches()
        &&& fits(self.merged_right(other) - self.merged_left(other))
        &&& fits(self.merged_bottom(other) - self.merged_top(other))
    }

    /// The smallest rectangle that covers both.
    pub fn merge(self, other: Rect) -> (r: Rect)
        requires
            self.can_merge(other),
        ensures
            r == self.merged(other),
    {
        let right: i64 = self.loc.x as i64 + self.size.w as i64;
        let bottom: i64 = self.loc.y as i64 + self.size.h as i64;
        let other_right: i64 = other.loc.x as i64 + other.size.w as i64;
        let other_bottom: i64 = other.loc.y as i64 + other.size.h as i64;
        let x: i64 = smaller(
            smaller(self.loc.x as i64, right),
            smaller(other.loc.x as i64, other_right),
        );
        let y: i64 = smaller(
            smaller(self.loc.y as i64, bottom),
            smaller(other.loc.y as i64, other_bottom),
        );
        let far_x: i64 = larger(
            larger(self.loc.x as i64, right),
            larger(other.loc.x as i64, other_right),
        );
        let far_y: i64 = larger(
            larger(self.loc.y as i64, bottom),
            larger(other.loc.y as i64, other_bottom),
        );
        Rect {
            loc: Point { x: x as i32, y: y as i32 },
            size: Size { w: (far_x - x) as i32, h: (far_y - y) as i32 },
        }
    }
}

/// The merged rectangle holds every pixel of both, where they have no negative side.
pub proof fn merging_keeps_every_pixel(a: Rect, b: Rect, p: Point)
    requires
        a.can_merge(b),
        a.size.w >= 0,
        a.size.h >= 0,
        b.size.w >= 0,
        b.size.h >= 0,
        a.holds(p) || b.holds(p),
    ensures
        a.merged(b).holds(p),
{
}

/// The shared rectangle holds exactly the pixels that both hold.
pub proof fn sharing_is_holding_in_both(a: Rect, b: Rect, p: Point)
    requires
        a.meets(b),
        a.size.w >= 0,
        a.size.h >= 0,
        b.size.w >= 0,
        b.size.h >= 0,
    ensures
        a.shared(b).holds(p) <==> a.holds(p) && b.holds(p),
{
}

} // verus!
