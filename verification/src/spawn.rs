//! How a creep comes into the game.
//!
//! When the spawn timer fires, the simulation draws at random where on the
//! spawn path the creep appears, how far its course strays from the
//! path's normal, how fast it goes and what it looks like. The host places
//! a node accordingly and hands back the pose and velocity, with which the
//! creep is spawned.

use vstd::prelude::*;
use crate::mob::{MobType, MOB_TYPE_COUNT};
use crate::motion::saturated;
use crate::outside::random_in;

verus! {

/// A quarter of a turn, in millionths of a radian.
pub const QUARTER_TURN: i64 = 1_570_796;

/// An eighth of a turn, in millionths of a radian: the most that the
/// course of a creep strays to either side.
pub const EIGHTH_TURN: i64 = 785_398;

/// The width of the range from which the jitter is drawn: a quarter of a
/// turn, an eighth to either side.
pub const JITTER_SPAN: u32 = 1_570_796;

/// The least speed of a creep: 150 pixels per second.
pub const MOB_MIN_SPEED: u32 = 150_000;

/// The bound below which the speed of a creep stays: 250 pixels per second.
pub const MOB_MAX_SPEED: u32 = 250_000;

/// What was drawn for a creep that is about to appear.
#[derive(Copy, Clone, Debug, PartialEq, Eq, Structural)]
pub struct MobPlan {
    /// Where on the spawn path the creep appears: an offset along it.
    pub offset: u32,
    /// By how much the course of the creep strays from the path's normal,
    /// in millionths of a radian.
    pub jitter: i64,
    /// The speed of the creep, in units per second.
    pub speed: u32,
    /// What the creep looks like.
    pub mob_type: MobType,
}

impl MobPlan {
    /// Whether the plan is one that can be drawn.
    pub open spec fn in_range(self) -> bool {
        &&& self.offset < u32::MAX
        &&& -EIGHTH_TURN <= self.jitter < EIGHTH_TURN
        &&& MOB_MIN_SPEED <= self.speed < MOB_MAX_SPEED
    }

    /// The plan that four draws stand for: the offset as drawn; the jitter
    /// counted from an eighth of a turn to one side; the speed counted from
    /// the least speed; the archetype by its number. `None` where a draw is
    /// beyond its range.
    pub open spec fn of_draws(offset: u32, jitter: u32, speed: u32, kind: u32) -> Option<MobPlan> {
        if offset < u32::MAX && jitter < JITTER_SPAN && speed < MOB_MAX_SPEED - MOB_MIN_SPEED
            && kind < MOB_TYPE_COUNT {
            Some(
                MobPlan {
                    offset,
                    jitter: (jitter - EIGHTH_TURN) as i64,
                    speed: (MOB_MIN_SPEED + speed) as u32,
                    mob_type: MobType::at(kind as int).unwrap(),
                },
            )
        } else {
            None
        }
    }

    /// Makes the plan that four draws stand for.
    pub fn from_draws(offset: u32, jitter: u32, speed: u32, kind: u32) -> (plan: Option<MobPlan>)
        ensures
            plan == MobPlan::of_draws(offset, jitter, speed, kind),
            plan matches Some(p) ==> p.in_range(),
    {
        if offset == u32::MAX || jitter >= JITTER_SPAN || speed >= MOB_MAX_SPEED
            - MOB_MIN_SPEED {
            return None;
        }
        match MobType::from_index(kind) {
            Some(mob_type) => Some(
                MobPlan {
                    offset,
                    jitter: jitter as i64 - EIGHTH_TURN,
                    speed: MOB_MIN_SPEED + speed,
                    mob_type,
                },
            ),
            None => None,
        }
    }

    /// Draws a plan at random. Whatever is drawn, the plan is in range.
    pub fn draw() -> (plan: MobPlan)
        ensures
            plan.in_range(),
    {
        let offset = random_in(0, u32::MAX);
        let jitter = random_in(0, JITTER_SPAN);
        let speed = random_in(0, MOB_MAX_SPEED - MOB_MIN_SPEED);
        let kind = random_in(0, MOB_TYPE_COUNT);
        MobPlan::from_draws(offset, jitter, speed, kind).unwrap()
    }
}

/// The course of a creep: the normal of the spawn path where the creep
/// appears, a quarter of a turn on from the path's own direction, and the
/// jitter on top.
pub open spec fn course(path_rotation: int, jitter: int) -> int {
    saturated(path_rotation + QUARTER_TURN + jitter)
}

/// Computes the course of a creep from the direction of the spawn path and
/// the jitter that was drawn.
pub fn mob_direction(path_rotation: i64, jitter: i64) -> (direction: i64)
    ensures
        direction == course(path_rotation as int, jitter as int),
{
    let sum: i128 = path_rotation as i128 + QUARTER_TURN as i128 + jitter as i128;
    if sum < i64::MIN as i128 {
        i64::MIN
    } else if sum > i64::MAX as i128 {
        i64::MAX
    } else {
        sum as i64
    }
}

} // verus!
