//! The fixed-pitch system font: every glyph occupies a 6x8 cell.
use vstd::prelude::*;

use crate::gdi::{paint, Bitmap, Op};
use crate::text::chars_of;

verus! {

/// Width of one glyph cell, in pixels.
pub const GLYPH_W: i32 = 6;

/// Height of one glyph cell, in pixels.
pub const GLYPH_H: i32 = 8;

/// Width of a run of `n` characters.
pub open spec fn text_width(n: int) -> int {
    n * GLYPH_W
}

/// Width of `s` in pixels.
pub fn str_width(s: &str) -> (w: i32)
    requires
        text_width(s@.len() as int) <= i32::MAX,
    ensures
        w == text_width(s@.len() as int),
{
    let cs = chars_of(s);
    cs.len() as i32 * GLYPH_W
}

/// Draw `s` with its first cell's top-left corner at `(x, y)`.
pub fn draw_str(bm: &mut Bitmap, x: i32, y: i32, s: &str, color: u16)
    requires
        old(bm).wf(),
    ensures
        final(bm).wf(),
        final(bm)@ == paint(old(bm)@, Op::Text(x as int, y as int, s@, color)),
{
    bm.draw_text(x, y, s, color)
}

} // verus!
