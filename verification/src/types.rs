//! Basic geometry and color types of the display engine.
//!
//! Geometry is kept in whole logical pixels, and colors in 8-bit
//! channels, so every relation between them is exact.

use vstd::prelude::*;

verus! {

/// The color a host pixel value denotes: `0xAARRGGBB` channels, a zero
/// alpha read as fully opaque.
pub open spec fn spec_color_from_pixel(pixel: u32) -> Color {
    Color {
        r: (((pixel >> 16) & 0xFF) as u8),
        g: (((pixel >> 8) & 0xFF) as u8),
        b: ((pixel & 0xFF) as u8),
        a: if (pixel >> 24) & 0xFF == 0 {
            255u8
        } else {
            (((pixel >> 24) & 0xFF) as u8)
        },
    }
}

/// RGBA color with 8-bit channels.
#[derive(Debug, Clone, Copy, PartialEq, Eq, Structural)]
pub struct Color {
    pub r: u8,
    pub g: u8,
    pub b: u8,
    pub a: u8,
}

impl Color {
    /// Build a color from its four channels.
    pub fn new(r: u8, g: u8, b: u8, a: u8) -> (c: Color)
        ensures
            c == (Color { r, g, b, a }),
    {
        Color { r, g, b, a }
    }

    /// Build an opaque color from three channels.
    pub fn rgb(r: u8, g: u8, b: u8) -> (c: Color)
        ensures
            c == (Color { r, g, b, a: 255u8 }),
    {
        Color { r, g, b, a: 255 }
    }

    /// Convert from a host pixel value, laid out as `0xAARRGGBB`. A zero
    /// alpha channel is read as fully opaque.
    pub fn from_pixel(pixel: u32) -> (c: Color)
        ensures
            c == spec_color_from_pixel(pixel),
            c.r == (pixel >> 16) & 0xFF,
            c.g == (pixel >> 8) & 0xFF,
            c.b == pixel & 0xFF,
            c.a == if (pixel >> 24) & 0xFF == 0 {
                255
            } else {
                (pixel >> 24) & 0xFF
            },
    {
        let a = ((pixel >> 24u32) & 0xFF) as u8;
        let r = ((pixel >> 16u32) & 0xFF) as u8;
        let g = ((pixel >> 8u32) & 0xFF) as u8;
        let b = (pixel & 0xFF) as u8;
        proof {
            assert((pixel >> 24) & 0xFF <= 0xFF && (pixel >> 16) & 0xFF <= 0xFF && (pixel >> 8)
                & 0xFF <= 0xFF && pixel & 0xFF <= 0xFF) by (bit_vector);
        }
        let a = if a == 0 {
            255
        } else {
            a
        };
        Color { r, g, b, a }
    }

    /// Black, fully opaque.
    pub fn black() -> (c: Color)
        ensures
            c == (Color { r: 0u8, g: 0u8, b: 0u8, a: 255u8 }),
    {
        Color { r: 0, g: 0, b: 0, a: 255 }
    }

    /// White, fully opaque.
    pub fn white() -> (c: Color)
        ensures
            c == (Color { r: 255u8, g: 255u8, b: 255u8, a: 255u8 }),
    {
        Color { r: 255, g: 255, b: 255, a: 255 }
    }
}

/// 2D point in logical pixels.
#[derive(Debug, Clone, Copy, PartialEq, Eq, Structural)]
pub struct Point {
    pub x: i64,
    pub y: i64,
}

impl Point {
    /// Build a point from its coordinates.
    pub fn new(x: i64, y: i64) -> (p: Point)
        ensures
            p == (Point { x, y }),
    {
        Point { x, y }
    }
}

/// Rectangle in logical pixels: position and size.
#[derive(Debug, Clone, Copy, PartialEq, Eq, Structural)]
pub struct Rect {
    pub x: i64,
    pub y: i64,
    pub width: i64,
    pub height: i64,
}

impl Rect {
    /// Build a rectangle from position and size.
    pub fn new(x: i64, y: i64, width: i64, height: i64) -> (r: Rect)
        ensures
            r == (Rect { x, y, width, height }),
    {
        Rect { x, y, width, height }
    }

    /// The rectangle lies in range for pixel arithmetic.
    pub open spec fn wf(&self) -> bool {
        &&& i64::MIN <= self.x + self.width <= i64::MAX
        &&& i64::MIN <= self.y + self.height <= i64::MAX
    }

    /// X coordinate just past the right edge.
    pub fn right(&self) -> (r: i64)
        requires
            self.wf(),
        ensures
            r == self.x + self.width,
    {
        self.x + self.width
    }

    /// Y coordinate just past the bottom edge.
    pub fn bottom(&self) -> (r: i64)
        requires
            self.wf(),
        ensures
            r == self.y + self.height,
    {
        self.y + self.height
    }

    /// The point lies inside the rectangle (left and top edges
    /// inclusive, right and bottom edges exclusive).
    pub open spec fn spec_contains(&self, p: Point) -> bool {
        &&& p.x >= self.x
        &&& p.x < self.x + self.width
        &&& p.y >= self.y
        &&& p.y < self.y + self.height
    }

    /// Check whether the point lies inside the rectangle.
    pub fn contains(&self, point: Point) -> (r: bool)
        requires
            self.wf(),
        ensures
            r == self.spec_contains(point),
    {
        point.x >= self.x && point.x < self.x + self.width && point.y >= self.y && point.y < self.y
            + self.height
    }

    /// The two rectangles overlap in both axes.
    pub open spec fn spec_intersects(&self, other: &Rect) -> bool {
        &&& self.x < other.x + other.width
        &&& self.x + self.width > other.x
        &&& self.y < other.y + other.height
        &&& self.y + self.height > other.y
    }

    /// Check whether the two rectangles overlap.
    pub fn intersects(&self, other: &Rect) -> (r: bool)
        requires
            self.wf(),
            other.wf(),
        ensures
            r == self.spec_intersects(other),
    {
        self.x < other.x + other.width && self.x + self.width > other.x && self.y < other.y
            + other.height && self.y + self.height > other.y
    }

    /// One rectangle lies entirely inside another.
    pub open spec fn spec_within(&self, outer: &Rect) -> bool {
        &&& self.x >= outer.x
        &&& self.y >= outer.y
        &&& self.x + self.width <= outer.x + outer.width
        &&& self.y + self.height <= outer.y + outer.height
    }
}

/// Terminal display mode for a terminal-style surface.
#[derive(Debug, Clone, Copy, PartialEq, Eq, Structural)]
pub enum TerminalMode {
    /// Terminal fills an entire editor window.
    Window,
    /// Terminal is inline within buffer text.
    Inline,
    /// Terminal floats on top of all content.
    Floating,
}

} // verus!
