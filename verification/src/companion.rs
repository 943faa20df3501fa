//! Where the companion window stands on a display: flush with the display's right edge, at
//! the height the player left it (centred when none is saved), kept a margin away from the top
//! and bottom edges. The window's size in pixels comes from the display's scale.
use vstd::prelude::*;

verus! {

/// A window's place and size on the screen, in pixels.
#[derive(Debug, Clone, Copy, PartialEq, Eq, Structural)]
pub struct CompanionWindowBounds {
    pub x: i32,
    pub y: i32,
    pub width: u32,
    pub height: u32,
}

/// Integer division by two, rounding toward zero as Rust's `/` does.
pub open spec fn half_toward_zero(v: int) -> int {
    if v >= 0 {
        v / 2
    } else {
        -((-v) / 2)
    }
}

/// `v` held between `lo` and `hi` (`lo <= hi`).
pub open spec fn clamp_spec(v: int, lo: int, hi: int) -> int {
    if v < lo {
        lo
    } else if v > hi {
        hi
    } else {
        v
    }
}

pub open spec fn left_of_right_edge(display_x: i32, display_width: u32, width: u32) -> int {
    display_x + display_width - width
}

pub open spec fn lowest_y(display_y: i32, margin: i32) -> int {
    display_y + margin
}

pub open spec fn highest_y(display_y: i32, display_height: u32, height: u32, margin: i32) -> int {
    display_y + display_height - height - margin
}

pub open spec fn centred_y(display_y: i32, display_height: u32, height: u32) -> int {
    display_y + half_toward_zero(display_height - height)
}

/// The window's top: the saved position, or the centre, held between the margins (the top
/// margin wins when the window is taller than the room between them).
pub open spec fn placed_y(
    display_y: i32,
    display_height: u32,
    height: u32,
    margin: i32,
    y_position: Option<i32>,
) -> int {
    let lo = lowest_y(display_y, margin);
    let hi = highest_y(display_y, display_height, height, margin);
    let requested = match y_position {
        Some(y) => y as int,
        None => centred_y(display_y, display_height, height),
    };
    clamp_spec(requested, lo, if hi > lo { hi } else { lo })
}

pub open spec fn fits_i32(v: int) -> bool {
    i32::MIN <= v <= i32::MAX
}

/// The bounds of a window of `width` by `height` pixels on the display at
/// (`display_x`, `display_y`) of `display_width` by `display_height` pixels, `margin` pixels
/// from its top and bottom edges.
pub fn place_companion_window(
    display_x: i32,
    display_y: i32,
    display_width: u32,
    display_height: u32,
    width: u32,
    height: u32,
    margin: i32,
    y_position: Option<i32>,
) -> (bounds: CompanionWindowBounds)
    requires
        display_width <= i32::MAX,
        display_height <= i32::MAX,
        width <= i32::MAX,
        height <= i32::MAX,
        fits_i32(left_of_right_edge(display_x, display_width, width)),
        fits_i32(lowest_y(display_y, margin)),
        fits_i32(highest_y(display_y, display_height, height, margin)),
        fits_i32(centred_y(display_y, display_height, height)),
    ensures
        bounds.x == left_of_right_edge(display_x, display_width, width),
        bounds.y == placed_y(display_y, display_height, height, margin, y_position),
        bounds.width == width,
        bounds.height == height,
{
    let x = (display_x as i64 + display_width as i64 - width as i64) as i32;
    let lo = (display_y as i64 + margin as i64) as i32;
    let hi = (display_y as i64 + display_height as i64 - height as i64 - margin as i64) as i32;
    let room = display_height as i64 - height as i64;
    let half = if room >= 0 {
        room / 2
    } else {
        -((-room) / 2)
    };
    let centred = (display_y as i64 + half) as i32;
    let requested = match y_position {
        Some(y) => y,
        None => centred,
    };
    let top = if hi > lo {
        hi
    } else {
        lo
    };
    let y = if requested < lo {
        lo
    } else if requested > top {
        top
    } else {
        requested
    };
    CompanionWindowBounds { x, y, width, height }
}

/// The companion window never starts above the top margin, never runs past the bottom margin
/// when the display has room for it, and its right edge is the display's right edge.
pub proof fn law_companion_stays_within_the_margins(
    display_x: i32,
    display_y: i32,
    display_width: u32,
    display_height: u32,
    width: u32,
    height: u32,
    margin: i32,
    y_position: Option<i32>,
)
    ensures
        placed_y(display_y, display_height, height, margin, y_position) >= lowest_y(display_y, margin),
        highest_y(display_y, display_height, height, margin) >= lowest_y(display_y, margin) ==> placed_y(
            display_y,
            display_height,
            height,
            margin,
            y_position,
        ) <= highest_y(display_y, display_height, height, margin),
        left_of_right_edge(display_x, display_width, width) + width == display_x + display_width,
{
}

} // verus!
