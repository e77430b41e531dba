//! Colors and draw operations. The verified code describes a frame as a
//! sequence of `DrawOp` values; the shell plays them back on the terminal.
use vstd::prelude::*;

verus! {

/// An RGB color with 8-bit channels.
#[derive(Copy, Clone, PartialEq, Eq, Structural, Debug)]
pub struct Color {
    pub r: u8,
    pub g: u8,
    pub b: u8,
}

impl Color {
    pub fn rgb(r: u8, g: u8, b: u8) -> (c: Color)
        ensures
            c == (Color { r, g, b }),
    {
        Color { r, g, b }
    }

    pub fn black() -> (c: Color)
        ensures
            c == (Color { r: 0, g: 0, b: 0 }),
    {
        Color { r: 0, g: 0, b: 0 }
    }

    pub fn white() -> (c: Color)
        ensures
            c == (Color { r: 255, g: 255, b: 255 }),
    {
        Color { r: 255, g: 255, b: 255 }
    }

    pub fn green() -> (c: Color)
        ensures
            c == (Color { r: 0, g: 255, b: 0 }),
    {
        Color { r: 0, g: 255, b: 0 }
    }

    pub fn red() -> (c: Color)
        ensures
            c == (Color { r: 255, g: 0, b: 0 }),
    {
        Color { r: 255, g: 0, b: 0 }
    }

    pub fn grey() -> (c: Color)
        ensures
            c == (Color { r: 128, g: 128, b: 128 }),
    {
        Color { r: 128, g: 128, b: 128 }
    }

    pub fn dark_grey() -> (c: Color)
        ensures
            c == (Color { r: 64, g: 64, b: 64 }),
    {
        Color { r: 64, g: 64, b: 64 }
    }

    pub fn leaf_green() -> (c: Color)
        ensures
            c == (Color { r: 0, g: 191, b: 0 }),
    {
        Color { r: 0, g: 191, b: 0 }
    }

    pub fn burlywood() -> (c: Color)
        ensures
            c == (Color { r: 222, g: 184, b: 135 }),
    {
        Color { r: 222, g: 184, b: 135 }
    }

    pub fn yellow() -> (c: Color)
        ensures
            c == (Color { r: 255, g: 255, b: 0 }),
    {
        Color { r: 255, g: 255, b: 0 }
    }
}

/// One drawing instruction for the terminal.
pub enum DrawOp {
    /// A single glyph cell.
    Cell { x: i32, y: i32, fg: Color, bg: Color, glyph: u16 },
    /// Plain text starting at (x, y).
    Text { x: i32, y: i32, text: String },
    /// Colored text starting at (x, y).
    ColorText { x: i32, y: i32, fg: Color, bg: Color, text: String },
    /// Text centered horizontally at x on row y.
    CenteredText { x: i32, y: i32, text: String },
    /// A bordered box with the given top-left corner and extent.
    Panel { x: i32, y: i32, w: i32, h: i32, fg: Color, bg: Color },
}

/// The mathematical image of a `DrawOp`: text carried as a `Seq<char>`.
pub ghost enum DrawOpView {
    Cell { x: i32, y: i32, fg: Color, bg: Color, glyph: u16 },
    Text { x: i32, y: i32, text: Seq<char> },
    ColorText { x: i32, y: i32, fg: Color, bg: Color, text: Seq<char> },
    CenteredText { x: i32, y: i32, text: Seq<char> },
    Panel { x: i32, y: i32, w: i32, h: i32, fg: Color, bg: Color },
}

impl View for DrawOp {
    type V = DrawOpView;

    open spec fn view(&self) -> DrawOpView {
        match self {
            DrawOp::Cell { x, y, fg, bg, glyph } => DrawOpView::Cell {
                x: *x,
                y: *y,
                fg: *fg,
                bg: *bg,
                glyph: *glyph,
            },
            DrawOp::Text { x, y, text } => DrawOpView::Text { x: *x, y: *y, text: text@ },
            DrawOp::ColorText { x, y, fg, bg, text } => DrawOpView::ColorText {
                x: *x,
                y: *y,
                fg: *fg,
                bg: *bg,
                text: text@,
            },
            DrawOp::CenteredText { x, y, text } => DrawOpView::CenteredText {
                x: *x,
                y: *y,
                text: text@,
            },
            DrawOp::Panel { x, y, w, h, fg, bg } => DrawOpView::Panel {
                x: *x,
                y: *y,
                w: *w,
                h: *h,
                fg: *fg,
                bg: *bg,
            },
        }
    }
}

/// The image of a whole frame.
pub open spec fn ops_view(s: Seq<DrawOp>) -> Seq<DrawOpView> {
    s.map_values(|op: DrawOp| op@)
}

} // verus!
