//! Text layout arithmetic shared with the (external) glyph renderer.

use vstd::prelude::*;

use crate::fixed::SCALE;
use crate::fixed::fx_div;
use crate::fixed::fx_div_s;
use crate::fixed::fx_sub;
use crate::fixed::fx_sub_s;

verus! {

/// Horizontal anchoring of a run of text.
#[derive(Clone, Copy, PartialEq, Eq, Structural, Debug)]
pub enum TextAlign {
    Left,
    Center,
    Right,
}

/// Leftmost x coordinate of a run of text of width `text_width` whose
/// anchor point is `start_x`.
pub open spec fn aligned_start_s(start_x: int, text_width: int, align: TextAlign) -> int {
    match align {
        TextAlign::Left => start_x,
        TextAlign::Center => fx_sub_s(start_x, fx_div_s(text_width, 2 * (SCALE as int))),
        TextAlign::Right => fx_sub_s(start_x, text_width),
    }
}

/// Where a run of text begins: at its anchor, or shifted left by half or
/// all of its width for centered and right-aligned text.
pub fn aligned_start(start_x: i64, text_width: i64, align: TextAlign) -> (r: i64)
    ensures
        r as int == aligned_start_s(start_x as int, text_width as int, align),
{
    match align {
        TextAlign::Left => start_x,
        TextAlign::Center => fx_sub(start_x, fx_div(text_width, 2 * SCALE)),
        TextAlign::Right => fx_sub(start_x, text_width),
    }
}

} // verus!
