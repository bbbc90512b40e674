//! The renderable primitives: an RGB colour, an integer screen position and
//! a pixel (a glyph with a position and optional colours).

use vstd::prelude::*;

verus! {

/// A 24-bit RGB colour.
#[derive(Clone, Copy, PartialEq, Eq, Structural, Debug)]
pub struct Color {
    pub r: u8,
    pub g: u8,
    pub b: u8,
}

/// An integer position on the screen. `x` grows to the right, `y` grows
/// downward, so smaller `y` is higher up.
#[derive(Clone, Copy, PartialEq, Eq, Structural, Debug)]
pub struct ScreenPos {
    pub x: u16,
    pub y: u16,
}

impl ScreenPos {
    pub fn new(x: u16, y: u16) -> (p: ScreenPos)
        ensures
            p.x == x,
            p.y == y,
    {
        ScreenPos { x, y }
    }
}

/// One renderable cell: a glyph at a screen position with optional
/// foreground and background colours.
#[derive(Clone, Copy, PartialEq, Eq, Debug)]
pub struct Pixel {
    pub glyph: char,
    pub pos: ScreenPos,
    pub fg: Option<Color>,
    pub bg: Option<Color>,
}

impl Pixel {
    pub fn new(glyph: char, pos: ScreenPos, fg: Option<Color>, bg: Option<Color>) -> (p: Pixel)
        ensures
            p.glyph == glyph,
            p.pos == pos,
            p.fg == fg,
            p.bg == bg,
    {
        Pixel { glyph, pos, fg, bg }
    }
}

} // verus!
