//! Integration of velocities and the play-area boundary.

use vstd::prelude::*;
use crate::components::{Spatial, Vector2, Velocity};
use crate::resources::{Delta, ScreenSize};

verus! {

/// Microseconds in a second.
pub const MICROS_PER_SECOND: u32 = 1_000_000;

/// Distance covered in `micros` microseconds at `rate` units per second,
/// rounded towards zero.
pub open spec fn displacement(rate: int, micros: int) -> int {
    if rate >= 0 {
        (rate * micros) / 1_000_000
    } else {
        -(((-rate) * micros) / 1_000_000)
    }
}

/// The nearest value that a coordinate can hold.
pub open spec fn saturated(x: int) -> int {
    if x < i64::MIN {
        i64::MIN as int
    } else if x > i64::MAX {
        i64::MAX as int
    } else {
        x
    }
}

/// A coordinate after moving for `micros` microseconds at `rate`.
pub open spec fn advanced(at: int, rate: int, micros: int) -> int {
    saturated(at + displacement(rate, micros))
}

/// A coordinate held between 0 and `limit`: raised to 0 first, then lowered
/// to `limit`.
pub open spec fn clamped(x: int, limit: int) -> int {
    let raised = if x < 0 { 0 } else { x };
    if raised > limit { limit } else { raised }
}

/// A position after free movement for one tick.
pub open spec fn advanced_position(at: Vector2, velocity: Vector2, delta: Delta) -> Vector2 {
    Vector2 {
        x: advanced(at.x as int, velocity.x as int, delta.0 as int) as i64,
        y: advanced(at.y as int, velocity.y as int, delta.0 as int) as i64,
    }
}

/// A position pulled back into the play area.
pub open spec fn clamped_position(at: Vector2, size: ScreenSize) -> Vector2 {
    Vector2 {
        x: clamped(at.x as int, size.0.x as int) as i64,
        y: clamped(at.y as int, size.0.y as int) as i64,
    }
}

/// Whether a position lies within the play area, its edges included.
pub open spec fn within(at: Vector2, size: ScreenSize) -> bool {
    0 <= at.x <= size.0.x && 0 <= at.y <= size.0.y
}

/// Whether a position lies strictly beyond an edge of the play area.
pub open spec fn outside(at: Vector2, size: ScreenSize) -> bool {
    at.x < 0 || at.x > size.0.x || at.y < 0 || at.y > size.0.y
}

/// The pose after one tick: the position advanced by the velocity and, for a
/// walled entity, pulled back into the play area. The rotation stays.
pub open spec fn moved(
    pose: Spatial,
    velocity: Velocity,
    delta: Delta,
    size: ScreenSize,
    walled: bool,
) -> Spatial {
    let free = advanced_position(pose.position, velocity.0, delta);
    Spatial {
        position: if walled { clamped_position(free, size) } else { free },
        rotation: pose.rotation,
    }
}

/// A clamped position lies within the play area, whatever the position was,
/// provided the play area has no negative extent.
pub proof fn lemma_clamped_within(at: Vector2, size: ScreenSize)
    requires
        0 <= size.0.x,
        0 <= size.0.y,
    ensures
        within(clamped_position(at, size), size),
{
}

/// After a tick of any length a walled entity lies within the play area,
/// wherever it was and however fast it moved, provided the play area has no
/// negative extent.
pub proof fn lemma_walled_stays_within(
    pose: Spatial,
    velocity: Velocity,
    delta: Delta,
    size: ScreenSize,
)
    requires
        0 <= size.0.x,
        0 <= size.0.y,
    ensures
        within(moved(pose, velocity, delta, size, true).position, size),
{
    lemma_clamped_within(advanced_position(pose.position, velocity.0, delta), size);
}

/// Returns the magnitude of a rate.
pub fn magnitude(rate: i64) -> (m: u64)
    ensures
        m == if rate >= 0 { rate as int } else { -(rate as int) },
{
    if rate >= 0 {
        rate as u64
    } else {
        let above: i64 = -(rate + 1);
        (above as u64) + 1
    }
}

/// Moves a coordinate for `delta` at `rate`.
pub fn advance(at: i64, rate: i64, delta: Delta) -> (to: i64)
    ensures
        to == advanced(at as int, rate as int, delta.0 as int),
{
    let m: u64 = magnitude(rate);
    assert(0 <= (m as int) * (delta.0 as int) <= 0xFFFF_FFFF_FFFF_FFFF * 0xFFFF_FFFF)
        by (nonlinear_arith)
        requires
            0 <= m <= 0xFFFF_FFFF_FFFF_FFFF,
            0 <= delta.0 <= 0xFFFF_FFFF,
    ;
    let product: u128 = (m as u128) * (delta.0 as u128);
    let step: u128 = product / 1_000_000;
    let target: i128 = if rate >= 0 {
        (at as i128) + (step as i128)
    } else {
        (at as i128) - (step as i128)
    };
    if target < i64::MIN as i128 {
        i64::MIN
    } else if target > i64::MAX as i128 {
        i64::MAX
    } else {
        target as i64
    }
}

/// Holds a coordinate between 0 and `limit`.
pub fn clamp(x: i64, limit: i64) -> (held: i64)
    ensures
        held == clamped(x as int, limit as int),
{
    let raised: i64 = if x < 0 { 0 } else { x };
    if raised > limit { limit } else { raised }
}

/// Computes the pose of an entity after one tick.
pub fn step(
    pose: Spatial,
    velocity: Velocity,
    delta: Delta,
    size: ScreenSize,
    walled: bool,
) -> (next: Spatial)
    ensures
        next == moved(pose, velocity, delta, size, walled),
{
    let x: i64 = advance(pose.position.x, velocity.0.x, delta);
    let y: i64 = advance(pose.position.y, velocity.0.y, delta);
    if walled {
        Spatial {
            position: Vector2 { x: clamp(x, size.0.x), y: clamp(y, size.0.y) },
            rotation: pose.rotation,
        }
    } else {
        Spatial { position: Vector2 { x, y }, rotation: pose.rotation }
    }
}

/// Tells whether a position lies strictly beyond an edge of the play area.
pub fn is_outside(at: Vector2, size: ScreenSize) -> (out: bool)
    ensures
        out == outside(at, size),
{
    at.x < 0 || at.x > size.0.x || at.y < 0 || at.y > size.0.y
}

} // verus!
