//! Where the information pop-up stands on the screen.
use vstd::prelude::*;

verus! {

/// `a - b`, or 0 where `b` is larger.
pub open spec fn sub_or_zero(a: int, b: int) -> int {
    if a >= b {
        a - b
    } else {
        0
    }
}

/// The width of the pop-up inside its margins: half the screen, or the text
/// with a border and a space on each side where that is wider.
pub open spec fn popup_width(width: int, text_len: int) -> int {
    if text_len + 4 > width / 2 {
        text_len + 4
    } else {
        width / 2
    }
}

/// The margins of a pop-up of one line of text, three rows high, centred on
/// a screen of `width` by `height`: the rows above it, and the columns on
/// each side. The pop-up is at least half the screen wide, and wide enough
/// for the text with its border and padding where the screen allows.
pub fn popup_margins(width: u16, height: u16, text_len: usize) -> (r: (u16, u16))
    ensures
        r.0 == sub_or_zero(height as int, 4) / 2,
        r.1 == sub_or_zero(width as int, popup_width(width as int, text_len as int) + 2) / 2,
{
    let top = if height >= 4 {
        (height - 4) / 2
    } else {
        0
    };
    let half = (width / 2) as usize;
    let inner: usize = if text_len > half || half - text_len < 4 {
        if text_len > usize::MAX - 6 {
            usize::MAX - 2
        } else {
            text_len + 4
        }
    } else {
        half
    };
    let side = if (width as usize) >= 2 && inner <= (width as usize) - 2 {
        ((width as usize - 2 - inner) / 2) as u16
    } else {
        0
    };
    (top, side)
}

} // verus!
