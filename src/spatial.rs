//! Choosing the spatial listener an emitter is heard by.
use vstd::prelude::*;

verus! {

/// A position on an integer grid.
#[derive(Debug, Clone, Copy, PartialEq, Eq, Hash, Structural)]
pub struct Position {
    pub x: i32,
    pub y: i32,
    pub z: i32,
}

impl Position {
    /// The position with all three coordinates equal to `v`.
    pub fn splat(v: i32) -> (r: Position)
        ensures
            r == (Position { x: v, y: v, z: v }),
    {
        Position { x: v, y: v, z: v }
    }
}

/// The squared distance between two positions.
pub open spec fn spec_distance_squared(a: Position, b: Position) -> int {
    (a.x - b.x) * (a.x - b.x) + (a.y - b.y) * (a.y - b.y) + (a.z - b.z) * (a.z - b.z)
}

fn square_diff(a: i32, b: i32) -> (r: u128)
    ensures
        r == (a - b) * (a - b),
        r <= 0x1_0000_0000_0000_0000,
{
    let d = if a >= b {
        (a as i64 - b as i64) as u64
    } else {
        (b as i64 - a as i64) as u64
    };
    assert(d * d <= 0x1_0000_0000_0000_0000) by (nonlinear_arith)
        requires d <= 0x1_0000_0000;
    assert((a - b) * (a - b) == d * d) by (nonlinear_arith)
        requires d == a - b || d == b - a;
    (d as u128) * (d as u128)
}

/// The squared distance between two positions.
pub fn distance_squared(a: Position, b: Position) -> (r: u128)
    ensures
        r == spec_distance_squared(a, b),
{
    square_diff(a.x, b.x) + square_diff(a.y, b.y) + square_diff(a.z, b.z)
}

/// The listener nearest to `emitter` (the first of equally near ones), or
/// `None` when there are no listeners.
pub fn find_closest_listener(emitter: Position, listeners: &Vec<Position>) -> (r: Option<Position>)
    ensures
        listeners@.len() == 0 <==> r is None,
        r is Some ==> exists|i: int|
            0 <= i < listeners@.len() && r == Some(#[trigger] listeners@[i]) && (forall|j: int|
                0 <= j < listeners@.len() ==> spec_distance_squared(emitter, listeners@[i])
                    <= spec_distance_squared(emitter, #[trigger] listeners@[j])) && (forall|j: int|
                0 <= j < i ==> spec_distance_squared(emitter, listeners@[i])
                    < spec_distance_squared(emitter, #[trigger] listeners@[j])),
{
    if listeners.len() == 0 {
        return None;
    }
    let mut best: usize = 0;
    let mut best_distance = distance_squared(emitter, listeners[0]);
    let mut k: usize = 1;
    while k < listeners.len()
        invariant
            1 <= k <= listeners@.len(),
            best < k,
            best_distance == spec_distance_squared(emitter, listeners@[best as int]),
            forall|j: int|
                0 <= j < k ==> spec_distance_squared(emitter, listeners@[best as int])
                    <= spec_distance_squared(emitter, #[trigger] listeners@[j]),
            forall|j: int|
                0 <= j < best ==> spec_distance_squared(emitter, listeners@[best as int])
                    < spec_distance_squared(emitter, #[trigger] listeners@[j]),
        decreases listeners@.len() - k,
    {
        let d = distance_squared(emitter, listeners[k]);
        if d < best_distance {
            best = k;
            best_distance = d;
        }
        k += 1;
    }
    Some(listeners[best])
}

} // verus!
