//! Small pieces of screen geometry the UI decisions rest on: hit-testing
//! a point against a rectangle, and the spawn radius that fits a screen.

use vstd::prelude::*;
use crate::config::COORD_LIMIT;

verus! {

/// Whether a point lies inside the axis-aligned rectangle at `(x, y)`
/// with the given width and height (borders included).
pub fn point_in_rect(px: i64, py: i64, x: i64, y: i64, w: i64, h: i64) -> (r: bool)
    requires
        -COORD_LIMIT <= px <= COORD_LIMIT,
        -COORD_LIMIT <= py <= COORD_LIMIT,
        -COORD_LIMIT <= x <= COORD_LIMIT,
        -COORD_LIMIT <= y <= COORD_LIMIT,
        0 <= w <= COORD_LIMIT,
        0 <= h <= COORD_LIMIT,
    ensures
        r == (x <= px <= x + w && y <= py <= y + h),
{
    px >= x && px <= x + w && py >= y && py <= y + h
}

/// The spawn radius that fits a screen: half the smaller dimension, less
/// a hundred units of margin. On a very small screen this is not
/// positive, and no disc fits.
pub fn spawn_radius_for_screen(width: i64, height: i64) -> (r: i64)
    requires
        0 <= width <= COORD_LIMIT,
        0 <= height <= COORD_LIMIT,
    ensures
        r == (if width <= height { width } else { height }) / 2 - 100,
{
    let m = if width <= height { width } else { height };
    ((m as u64) / 2) as i64 - 100
}

} // verus!
