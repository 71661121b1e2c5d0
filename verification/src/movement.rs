//! Grid positions and the mapping from movement keys to a direction on the
//! isometric grid.

use vstd::prelude::*;

verus! {

/// A tile position on the world grid.
#[derive(Clone, Copy, Debug, PartialEq, Eq, Structural)]
pub struct GridPos {
    pub x: i32,
    pub y: i32,
}

/// The key-intent axes: D is +1 and A is -1 on the first (D wins over A);
/// W is -1 and S is +1 on the second (W wins over S).
pub open spec fn key_axes(w: bool, s: bool, a: bool, d: bool) -> (int, int) {
    let dx: int = if d { 1 } else if a { -1 } else { 0 };
    let dy: int = if w { -1 } else if s { 1 } else { 0 };
    (dx, dy)
}

/// The movement direction for the pressed keys, turned 45° so that the keys
/// follow the isometric screen axes: `(dx + dy, -dx + dy)`.
pub fn wasd_direction(w: bool, s: bool, a: bool, d: bool) -> (dir: (i32, i32))
    ensures
        dir.0 == key_axes(w, s, a, d).0 + key_axes(w, s, a, d).1,
        dir.1 == -key_axes(w, s, a, d).0 + key_axes(w, s, a, d).1,
{
    let dx: i32 = if d { 1 } else if a { -1 } else { 0 };
    let dy: i32 = if w { -1 } else if s { 1 } else { 0 };
    (dx + dy, -dx + dy)
}

/// Any pressed key gives a direction that is not zero, unless it is
/// cancelled by the opposite key being overridden (never the case for a
/// single key).
pub proof fn law_single_key_moves(w: bool, s: bool, a: bool, d: bool)
    requires
        (w || s || a || d),
    ensures
        key_axes(w, s, a, d).0 + key_axes(w, s, a, d).1 != 0 || -key_axes(w, s, a, d).0 + key_axes(w, s, a, d).1 != 0,
{
}

/// The index of the body that Tab passes control to: the one after the
/// current body (`current`, its position among the controllable bodies, or 0
/// when it is not among them), cycling round.
pub fn tab_next_index(current: usize, len: usize) -> (i: usize)
    requires
        current < len,
        len > 1,
    ensures
        i == (current + 1) % (len as int),
        i < len,
{
    (current + 1) % len
}

} // verus!
