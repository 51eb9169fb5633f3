//! What the simulation asks of the host. The simulation never touches a
//! node of the scene graph itself: its systems return requests, and the
//! host carries them out.

use vstd::prelude::*;
use crate::components::{Body, GodotNode, Vector2};
use crate::motion::magnitude;

verus! {

/// What is to be done with a node.
#[derive(Copy, Clone, Debug, PartialEq, Eq, Structural)]
pub enum Order {
    /// Write the pose: an absolute position and rotation.
    SetPose { position: Vector2, rotation: i64 },
    /// Tear the node down. The entity that held it is gone.
    Release,
}

/// A request about the node of one entity.
#[derive(Copy, Clone, Debug, PartialEq, Eq, Structural)]
pub struct NodeRequest {
    pub entity: u64,
    pub node: GodotNode,
    pub order: Order,
}

/// Whether `requests` holds, for exactly the entities of `bodies` for which
/// `due` names a request, that request, once each.
pub open spec fn reports(
    requests: Seq<NodeRequest>,
    bodies: Map<u64, Body>,
    due: spec_fn(u64, Body) -> Option<NodeRequest>,
) -> bool {
    &&& forall|i: int|
        0 <= i < requests.len() ==> bodies.dom().contains((#[trigger] requests[i]).entity) && due(
            requests[i].entity,
            bodies[requests[i].entity],
        ) == Some(requests[i])
    &&& forall|i: int, j: int|
        0 <= i < j < requests.len() ==> (#[trigger] requests[i]).entity != (
        #[trigger] requests[j]).entity
    &&& forall|id: u64| #[trigger]
        bodies.dom().contains(id) && due(id, bodies[id]) is Some ==> exists|i: int|
            0 <= i < requests.len() && (#[trigger] requests[i]).entity == id
}

/// Whether, of all `requests`, exactly one concerns entity `id` or the node
/// `node`, and that one asks for the release of `node` on behalf of `id`.
pub open spec fn released_once(requests: Seq<NodeRequest>, id: u64, node: GodotNode) -> bool {
    exists|i: int|
        {
            &&& 0 <= i < requests.len()
            &&& #[trigger] requests[i] == (NodeRequest { entity: id, node, order: Order::Release })
            &&& forall|j: int|
                0 <= j < requests.len() && ((#[trigger] requests[j]).entity == id
                    || requests[j].node == node) ==> j == i
        }
}

/// The animation clips of the player.
#[derive(Copy, Clone, Debug, PartialEq, Eq, Structural)]
pub enum Clip {
    /// Moving sideways; drawn facing right.
    Right,
    /// Moving up or down; drawn facing up.
    Up,
}

impl Clip {
    /// The name of the clip, as a sequence of characters.
    pub open spec fn name(self) -> Seq<char> {
        match self {
            Clip::Right => "right"@,
            Clip::Up => "up"@,
        }
    }

    /// Returns the name under which the host knows the clip.
    pub fn to_str(self) -> (s: &'static str)
        ensures
            s@ == self.name(),
    {
        match self {
            Clip::Right => "right",
            Clip::Up => "up",
        }
    }
}

/// How the player is to be shown.
#[derive(Copy, Clone, Debug, PartialEq, Eq, Structural)]
pub enum Animation {
    /// Standing still: stop the animation.
    Stop,
    /// Moving: play `clip`. `flip_h` says whether to mirror it left to
    /// right, or is `None` where the mirroring is to stay as it is;
    /// `flip_v` says whether to turn it upside down.
    Play { clip: Clip, flip_h: Option<bool>, flip_v: bool },
}

/// A request about the animation of the node of the player.
#[derive(Copy, Clone, Debug, PartialEq, Eq, Structural)]
pub struct AnimationRequest {
    pub node: GodotNode,
    pub animation: Animation,
}

/// Magnitude of a coordinate.
pub open spec fn abs(x: int) -> int {
    if x >= 0 { x } else { -x }
}

/// The animation that shows a velocity. At rest the animation stops. In
/// motion the axis along which the velocity is larger picks the clip, the
/// horizontal one where they are equal: sideways, mirrored when moving
/// left; or up, turned over when moving down.
pub open spec fn animation_of(velocity: Vector2) -> Animation {
    if velocity.x == 0 && velocity.y == 0 {
        Animation::Stop
    } else if abs(velocity.x as int) >= abs(velocity.y as int) {
        Animation::Play { clip: Clip::Right, flip_h: Some(velocity.x < 0), flip_v: false }
    } else {
        Animation::Play { clip: Clip::Up, flip_h: None, flip_v: velocity.y > 0 }
    }
}

/// Picks the animation that shows a velocity.
pub fn animation_for(velocity: Vector2) -> (animation: Animation)
    ensures
        animation == animation_of(velocity),
{
    if velocity.x == 0 && velocity.y == 0 {
        Animation::Stop
    } else if magnitude(velocity.x) >= magnitude(velocity.y) {
        Animation::Play { clip: Clip::Right, flip_h: Some(velocity.x < 0), flip_v: false }
    } else {
        Animation::Play { clip: Clip::Up, flip_h: None, flip_v: velocity.y > 0 }
    }
}

} // verus!
