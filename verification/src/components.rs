//! The data attached to entities.
//!
//! Lengths are fixed-point: one unit is a thousandth of a pixel. Velocities
//! are in units per second and angles in millionths of a radian.

use vstd::prelude::*;

verus! {

/// Number of length units in one pixel.
pub const UNITS_PER_PIXEL: i64 = 1000;

/// A point or a displacement in the plane.
#[derive(Copy, Clone, Debug, PartialEq, Eq, Structural)]
pub struct Vector2 {
    pub x: i64,
    pub y: i64,
}

/// Handle of a node in the host's scene graph. The simulation never owns the
/// node: it only remembers the handle and asks the host to act on it.
#[derive(Copy, Clone, Debug, PartialEq, Eq, Structural)]
pub struct GodotNode(pub u64);

/// Authoritative pose of an entity.
#[derive(Copy, Clone, Debug, PartialEq, Eq, Structural)]
pub struct Spatial {
    pub position: Vector2,
    pub rotation: i64,
}

/// Marks the creeps.
#[derive(Copy, Clone, Debug, PartialEq, Eq, Structural)]
pub struct Mob;

/// Displacement per second.
#[derive(Copy, Clone, Debug, PartialEq, Eq, Structural)]
pub struct Velocity(pub Vector2);

/// Marks the entity that the user steers.
#[derive(Copy, Clone, Debug, PartialEq, Eq, Structural)]
pub struct Player;

/// Magnitude of the velocity that a steered entity has along an axis.
#[derive(Copy, Clone, Debug, PartialEq, Eq, Structural)]
pub struct Speed(pub u32);

/// Everything the world records of one entity: each component it may
/// carry, absent or present.
#[derive(Copy, Clone, Debug, PartialEq, Eq, Structural)]
pub struct Body {
    pub spatial: Option<Spatial>,
    pub velocity: Option<Velocity>,
    pub speed: Option<Speed>,
    pub node: Option<GodotNode>,
    pub player: Option<Player>,
    pub mob: Option<Mob>,
}

/// One component, of any kind.
#[derive(Copy, Clone, Debug, PartialEq, Eq, Structural)]
pub enum Component {
    Spatial(Spatial),
    Velocity(Velocity),
    Speed(Speed),
    Node(GodotNode),
    Player(Player),
    Mob(Mob),
}

impl Body {
    /// The body of an entity that carries nothing.
    pub open spec fn bare() -> Body {
        Body { spatial: None, velocity: None, speed: None, node: None, player: None, mob: None }
    }

    /// This body with the component `c` attached, in place of the one of
    /// its kind if there was one.
    pub open spec fn with(self, c: Component) -> Body {
        match c {
            Component::Spatial(spatial) => Body { spatial: Some(spatial), ..self },
            Component::Velocity(velocity) => Body { velocity: Some(velocity), ..self },
            Component::Speed(speed) => Body { speed: Some(speed), ..self },
            Component::Node(node) => Body { node: Some(node), ..self },
            Component::Player(player) => Body { player: Some(player), ..self },
            Component::Mob(mob) => Body { mob: Some(mob), ..self },
        }
    }
}

} // verus!
