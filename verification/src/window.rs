//! The window as the simulation sees it: a rectangle centred on the world
//! origin.

use crate::fixed::{clamp_coord, distance_squared, length_sq, magnitude, saturate, UNIT};
use vstd::prelude::*;

verus! {

/// Squared distance, in sub-units, that a new enemy keeps from the player:
/// 400 square units.
pub const SAFE_DISTANCE_SQ: u128 = 400_000_000_000_000;

/// Current size of the window, in sub-units.
#[derive(Clone, Copy, Debug, PartialEq, Eq, Structural)]
pub struct Window {
    pub width: u32,
    pub height: u32,
}

/// What the host is started with.
#[derive(Debug, PartialEq, Eq)]
pub struct Config {
    pub title: String,
    /// Window width in world units.
    pub width: u32,
    /// Window height in world units.
    pub height: u32,
    pub resizable: bool,
    /// Milliseconds between two ticks; `None` ticks once per rendered frame.
    pub tick_interval: Option<u64>,
}

impl Config {
    /// The window that the host is to open, or `None` if its size in
    /// sub-units cannot be represented.
    pub fn window(&self) -> (r: Option<Window>)
        ensures
            r is Some <==> self.width * UNIT <= u32::MAX && self.height * UNIT <= u32::MAX,
            r matches Some(w) ==> w.width == self.width * UNIT && w.height == self.height * UNIT,
    {
        Window::from_units(self.width, self.height)
    }
}

impl Window {
    /// Whether the point `(x, y)` lies beyond the window's half extent on
    /// some axis.
    pub open spec fn outside(self, x: int, y: int) -> bool {
        2 * magnitude(x) > self.width || 2 * magnitude(y) > self.height
    }

    /// The world coordinates of the window position `(x, y)`: the position
    /// offset by half the window's extent.
    pub open spec fn centred(self, x: int, y: int) -> (int, int) {
        (clamp_coord(x - self.width / 2), clamp_coord(y - self.height / 2))
    }

    /// Whether the window is large enough for enemy placement wherever
    /// the player is: from the middle of the window, the spot that is
    /// hardest to get away from, a corner is at the safe distance.
    pub open spec fn roomy(self) -> bool {
        length_sq(max_extent(self.width) / 2, max_extent(self.height) / 2) >= SAFE_DISTANCE_SQ
    }

    /// Whether the window has a spot at the safe distance from
    /// `(px, py)`: whether its corner farthest from there is one.
    pub open spec fn has_safe_spot(self, px: int, py: int) -> bool {
        safe_from(far_corner(self, px, py).0, far_corner(self, px, py).1, px, py)
    }

    /// The leftmost spot of the window.
    pub open spec fn left(self) -> int {
        -(self.width / 2)
    }

    /// The lowest spot of the window.
    pub open spec fn bottom(self) -> int {
        -(self.height / 2)
    }

    /// Whether `(x, y)` is a spot where an enemy can be placed: a point of
    /// the window's grid, `width` columns by `height` rows.
    pub open spec fn covers(self, x: int, y: int) -> bool {
        &&& self.left() <= x < self.left() + max_extent(self.width)
        &&& self.bottom() <= y < self.bottom() + max_extent(self.height)
    }

    /// The window of `width` by `height` sub-units.
    pub fn new(width: u32, height: u32) -> (w: Window)
        ensures
            w == (Window { width, height }),
    {
        Window { width, height }
    }

    /// The window of `units_wide` by `units_high` world units, or `None`
    /// if that size cannot be represented.
    pub fn from_units(units_wide: u32, units_high: u32) -> (r: Option<Window>)
        ensures
            r is Some <==> units_wide * UNIT <= u32::MAX && units_high * UNIT <= u32::MAX,
            r matches Some(w) ==> w.width == units_wide * UNIT && w.height == units_high * UNIT,
    {
        let w: u64 = units_wide as u64 * 1_000_000;
        let h: u64 = units_high as u64 * 1_000_000;
        if w <= 0xffff_ffff && h <= 0xffff_ffff {
            Some(Window { width: w as u32, height: h as u32 })
        } else {
            None
        }
    }

    /// Whether the point `(x, y)` lies beyond the window's half extent on
    /// some axis.
    pub fn is_outside(&self, x: i32, y: i32) -> (b: bool)
        ensures
            b == self.outside(x as int, y as int),
    {
        let ax: i64 = if x < 0 {
            -(x as i64)
        } else {
            x as i64
        };
        let ay: i64 = if y < 0 {
            -(y as i64)
        } else {
            y as i64
        };
        2 * ax > self.width as i64 || 2 * ay > self.height as i64
    }

    /// The world coordinates of the window position `(x, y)`.
    pub fn to_world(&self, x: i32, y: i32) -> (r: (i32, i32))
        ensures
            (r.0 as int, r.1 as int) == self.centred(x as int, y as int),
    {
        (
            saturate(x as i64 - (self.width / 2) as i64),
            saturate(y as i64 - (self.height / 2) as i64),
        )
    }

    /// Whether the window is large enough for enemy placement wherever
    /// the player is.
    pub fn is_roomy(&self) -> (b: bool)
        ensures
            b == self.roomy(),
    {
        let across: u128 = (points(self.width) / 2) as u128;
        let up: u128 = (points(self.height) / 2) as u128;
        assert(across * across <= 0x4000_0000_0000_0000) by (nonlinear_arith)
            requires
                across <= 0x8000_0000,
        ;
        assert(up * up <= 0x4000_0000_0000_0000) by (nonlinear_arith)
            requires
                up <= 0x8000_0000,
        ;
        across * across + up * up >= SAFE_DISTANCE_SQ
    }

    /// The corner of the window that is farthest from `(px, py)`.
    pub fn far_spot(&self, px: i32, py: i32) -> (r: (i32, i32))
        ensures
            (r.0 as int, r.1 as int) == far_corner(*self, px as int, py as int),
    {
        (farther_end(self.width, px), farther_end(self.height, py))
    }

    /// Whether the window has a spot at the safe distance from
    /// `(px, py)`.
    pub fn has_room_for(&self, px: i32, py: i32) -> (b: bool)
        ensures
            b == self.has_safe_spot(px as int, py as int),
    {
        let corner = self.far_spot(px, py);
        distance_squared(corner.0, corner.1, px, py) >= SAFE_DISTANCE_SQ
    }
}

/// The number of grid points along an axis of the given extent.
fn points(extent: u32) -> (m: u64)
    ensures
        m as int == max_extent(extent),
{
    if extent == 0 {
        1
    } else {
        extent as u64
    }
}

/// On one axis, the end of the window that is farther from `p`.
fn farther_end(extent: u32, p: i32) -> (r: i32)
    ensures
        r as int == far_end(-(extent / 2), extent, p as int),
{
    let low: i64 = -((extent / 2) as i64);
    let high: i64 = low + points(extent) as i64 - 1;
    let to_low: i64 = if p as i64 >= low {
        p as i64 - low
    } else {
        low - p as i64
    };
    let to_high: i64 = if p as i64 >= high {
        p as i64 - high
    } else {
        high - p as i64
    };
    if to_low >= to_high {
        low as i32
    } else {
        high as i32
    }
}

/// On one axis, the end of the window that is farther from `p`.
pub open spec fn far_end(low: int, extent: u32, p: int) -> int {
    let high = low + max_extent(extent) - 1;
    if magnitude(p - low) >= magnitude(p - high) {
        low
    } else {
        high
    }
}

/// The corner of the window that is farthest from `(px, py)`.
pub open spec fn far_corner(window: Window, px: int, py: int) -> (int, int) {
    (far_end(window.left(), window.width, px), far_end(window.bottom(), window.height, py))
}

/// A longer axis has the larger square.
proof fn lemma_square_grows(a: int, b: int)
    requires
        magnitude(a) <= magnitude(b),
    ensures
        a * a <= b * b,
{
    let x = magnitude(a);
    let y = magnitude(b);
    assert(x * x <= y * y) by (nonlinear_arith)
        requires
            0 <= x <= y,
    ;
    assert(x * x == a * a) by (nonlinear_arith)
        requires
            x == a || x == -a,
    ;
    assert(y * y == b * b) by (nonlinear_arith)
        requires
            y == b || y == -b,
    ;
}

/// The far corner is a spot of the window, and no spot of the window is
/// farther from `(px, py)`.
pub proof fn lemma_far_corner_is_farthest(window: Window, px: int, py: int, x: int, y: int)
    requires
        window.covers(x, y),
    ensures
        window.covers(far_corner(window, px, py).0, far_corner(window, px, py).1),
        length_sq(px - x, py - y) <= length_sq(
            px - far_corner(window, px, py).0,
            py - far_corner(window, px, py).1,
        ),
{
    let c = far_corner(window, px, py);
    lemma_square_grows(px - x, px - c.0);
    lemma_square_grows(py - y, py - c.1);
}

/// The window has a spot at the safe distance from `(px, py)` exactly if
/// its far corner is one.
pub proof fn lemma_safe_spot(window: Window, px: int, py: int)
    ensures
        window.has_safe_spot(px, py) <==> exists|x: int, y: int|
            window.covers(x, y) && #[trigger] safe_from(x, y, px, py),
{
    let c = far_corner(window, px, py);
    lemma_far_corner_is_farthest(window, px, py, window.left(), window.bottom());
    if window.has_safe_spot(px, py) {
        assert(window.covers(c.0, c.1) && safe_from(c.0, c.1, px, py));
    }
    if exists|x: int, y: int| window.covers(x, y) && #[trigger] safe_from(x, y, px, py) {
        let (x, y) = choose|x: int, y: int| window.covers(x, y) && #[trigger] safe_from(x, y, px, py);
        lemma_far_corner_is_farthest(window, px, py, x, y);
    }
}

/// A roomy window has a spot at the safe distance from every point.
pub proof fn lemma_roomy_has_safe_spots(window: Window, px: int, py: int)
    requires
        window.roomy(),
    ensures
        window.has_safe_spot(px, py),
{
    let c = far_corner(window, px, py);
    let across = max_extent(window.width) / 2;
    let up = max_extent(window.height) / 2;
    assert(magnitude(across) <= magnitude(px - c.0));
    assert(magnitude(up) <= magnitude(py - c.1));
    lemma_square_grows(across, px - c.0);
    lemma_square_grows(up, py - c.1);
}

/// Roominess asks no more than it must: a window that is not roomy has no
/// spot at the safe distance from its middle.
pub proof fn lemma_roomy_is_needed(window: Window)
    requires
        !window.roomy(),
    ensures
        !window.has_safe_spot(
            window.left() + (max_extent(window.width) - 1) / 2,
            window.bottom() + (max_extent(window.height) - 1) / 2,
        ),
{
    let px = window.left() + (max_extent(window.width) - 1) / 2;
    let py = window.bottom() + (max_extent(window.height) - 1) / 2;
    let c = far_corner(window, px, py);
    let across = max_extent(window.width) / 2;
    let up = max_extent(window.height) / 2;
    assert(magnitude(px - c.0) <= magnitude(across));
    assert(magnitude(py - c.1) <= magnitude(up));
    lemma_square_grows(px - c.0, across);
    lemma_square_grows(py - c.1, up);
}

/// The number of grid points along an axis of the given extent; an empty
/// axis still has the one point at the origin.
pub open spec fn max_extent(extent: u32) -> int {
    if extent == 0 {
        1
    } else {
        extent as int
    }
}

/// Whether `(x, y)` is at the safe distance from `(px, py)`.
pub open spec fn safe_from(x: int, y: int, px: int, py: int) -> bool {
    length_sq(px - x, py - y) >= SAFE_DISTANCE_SQ
}

} // verus!
