//! The display window: the part of the sensor that is meant to be shown,
//! once the sensor's border margins are cut away.
use vstd::prelude::*;

verus! {

/// A rectangle of pixels: its top-left corner `(x, y)` and its size.
#[derive(Clone, Copy, Debug, PartialEq, Eq, Structural)]
pub struct DisplayWindow {
    pub x: i32,
    pub y: i32,
    pub width: usize,
    pub height: usize,
}

/// The margins `crops` (top, right, bottom, left) fit inside a `width` ×
/// `height` sensor, and the window's corner fits the signed 32-bit
/// coordinates of the output.
pub open spec fn crops_fit(crops: [usize; 4], width: usize, height: usize) -> bool {
    &&& crops@[3] + crops@[1] <= width
    &&& crops@[0] + crops@[2] <= height
    &&& crops@[3] <= i32::MAX
    &&& crops@[0] <= i32::MAX
}

/// The display window left by the margins `crops` (top, right, bottom, left)
/// of a `width` × `height` sensor: it starts at (left, top) and measures
/// (width − left − right) × (height − top − bottom).
pub fn crops_size_to_bounds(crops: [usize; 4], width: usize, height: usize) -> (r: DisplayWindow)
    requires
        crops_fit(crops, width, height),
    ensures
        r.x == crops@[3],
        r.y == crops@[0],
        r.width == width - crops@[3] - crops@[1],
        r.height == height - crops@[0] - crops@[2],
{
    let top = crops[0];
    let right = crops[1];
    let bottom = crops[2];
    let left = crops[3];
    DisplayWindow {
        x: left as i32,
        y: top as i32,
        width: width - left - right,
        height: height - top - bottom,
    }
}

} // verus!
