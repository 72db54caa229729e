//! Placing things in rectangular areas of the terminal.

use vstd::prelude::*;

verus! {

/// An area of the terminal: its top left corner and its size.
#[derive(Debug, Clone, Copy, PartialEq, Eq, Structural)]
pub struct Rect {
    pub x: u16,
    pub y: u16,
    pub width: u16,
    pub height: u16,
}

/// The area lies within the coordinates a terminal can have.
pub open spec fn rect_ok(r: Rect) -> bool {
    r.x + r.width <= u16::MAX && r.y + r.height <= u16::MAX
}

pub open spec fn min_u16(a: u16, b: u16) -> u16 {
    if a < b {
        a
    } else {
        b
    }
}

/// An area of `width` by `height` (at most the size of `area`) in the
/// middle of `area`, rounded up and to the left.
pub open spec fn spec_centered(width: u16, height: u16, area: Rect) -> Rect {
    let w = min_u16(width, area.width);
    let h = min_u16(height, area.height);
    Rect {
        x: (area.x + (area.width - w) / 2) as u16,
        y: (area.y + (area.height - h) / 2) as u16,
        width: w,
        height: h,
    }
}

pub fn centered(width: u16, height: u16, area: Rect) -> (r: Rect)
    requires
        rect_ok(area),
    ensures
        r == spec_centered(width, height, area),
        rect_ok(r),
        area.x <= r.x && r.x + r.width <= area.x + area.width,
        area.y <= r.y && r.y + r.height <= area.y + area.height,
{
    let width = if width < area.width {
        width
    } else {
        area.width
    };
    let height = if height < area.height {
        height
    } else {
        area.height
    };
    let dx = (area.width - width) / 2;
    let dy = (area.height - height) / 2;
    Rect { x: area.x + dx, y: area.y + dy, width, height }
}

/// A band of `height` lines (at most the height of `area`) across the middle
/// of `area`.
pub open spec fn spec_centered_v(height: u16, area: Rect) -> Rect {
    let h = min_u16(height, area.height);
    Rect { y: (area.y + (area.height - h) / 2) as u16, height: h, ..area }
}

pub fn centered_v(height: u16, area: Rect) -> (r: Rect)
    requires
        rect_ok(area),
    ensures
        r == spec_centered_v(height, area),
        rect_ok(r),
        area.y <= r.y && r.y + r.height <= area.y + area.height,
{
    let height = if height < area.height {
        height
    } else {
        area.height
    };
    let dy = (area.height - height) / 2;
    Rect { y: area.y + dy, height, ..area }
}

} // verus!
