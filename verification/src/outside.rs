//! What this library takes for granted of the crates it stands on.
//!
//! Entities live in a `bevy_ecs` world, queued events in a `bevy_app` event
//! buffer, and random numbers come from `rand`. None of the three is
//! verified. Each item of this file states, without proof, what one of
//! their functions does; the rest of the library is proved from these
//! statements and never looks behind them.
//!
//! The statements speak of a container through a name for what it holds:
//! [`ecs_bodies`], [`ecs_spawned`] and [`ecs_removed`] for the entity
//! store, and [`queued_events`] for the event buffer.

use vstd::prelude::*;
use bevy_ecs::entity::Entity;
use rand::Rng;
use crate::components::{Body, Component, GodotNode, Mob, Player, Spatial, Speed, Velocity};
use crate::events::InputEvent;

verus! {

// ---------------------------------------------------------------------------
// What the statements are made of
// ---------------------------------------------------------------------------

/// Whether `list` holds every entity of `bodies` exactly once, each with
/// its body.
pub open spec fn lists_all(list: Seq<(u64, Body)>, bodies: Map<u64, Body>) -> bool {
    &&& forall|i: int|
        0 <= i < list.len() ==> bodies.contains_pair((#[trigger] list[i]).0, list[i].1)
    &&& forall|i: int, j: int|
        0 <= i < j < list.len() ==> (#[trigger] list[i]).0 != (#[trigger] list[j]).0
    &&& forall|id: u64| #[trigger]
        bodies.dom().contains(id) ==> exists|i: int|
            0 <= i < list.len() && (#[trigger] list[i]).0 == id
}

// ---------------------------------------------------------------------------
// The entity store and the event buffer
// ---------------------------------------------------------------------------

/// Makes `bevy_ecs::world::World`, the entity store, known as a type.
/// Nothing inside it is visible to proofs.
#[verifier::external_type_specification]
#[verifier::external_body]
pub struct ExEcsWorld(bevy_ecs::world::World);

/// Makes `bevy_app::Events`, the event buffer, known as a type. Nothing
/// inside it is visible to proofs.
#[verifier::external_type_specification]
#[verifier::external_body]
#[verifier::reject_recursive_types(T)]
pub struct ExEvents<T>(bevy_app::Events<T>);

/// The live entities of an entity store, each under the bits of its id, with
/// the components it carries.
pub uninterp spec fn ecs_bodies(w: bevy_ecs::world::World) -> Map<u64, Body>;

/// How many entities have been spawned in an entity store since it was made.
pub uninterp spec fn ecs_spawned(w: bevy_ecs::world::World) -> nat;

/// The entities on an entity store's record of removals. The store puts an
/// entity there when it takes a component from it or despawns it, and
/// keeps it there until the record is cleared.
pub uninterp spec fn ecs_removed(w: bevy_ecs::world::World) -> Set<u64>;

/// The events that an event buffer holds, oldest first.
pub uninterp spec fn queued_events(q: bevy_app::Events<InputEvent>) -> Seq<InputEvent>;

/// `World::new` makes a store in which nothing lives and nothing was ever
/// spawned.
pub assume_specification[ bevy_ecs::world::World::new ]() -> (made: bevy_ecs::world::World)
    ensures
        ecs_bodies(made).dom() == Set::<u64>::empty(),
        ecs_spawned(made) == 0,
;

/// `World::clear_trackers` empties the store's record of removals. It
/// touches no entity.
pub assume_specification[ bevy_ecs::world::World::clear_trackers ](
    w: &mut bevy_ecs::world::World,
)
    ensures
        ecs_removed(*final(w)) == Set::<u64>::empty(),
        ecs_bodies(*final(w)) == ecs_bodies(*old(w)),
        ecs_spawned(*final(w)) == ecs_spawned(*old(w)),
;

/// `World::spawn`, then `EntityMut::id` and `Entity::to_bits`. The store
/// gains one entity that carries nothing, under id bits that no live
/// entity has; the others stay as they are. The store numbers its
/// entities, and the lives that each number has had, in 32 bits each, and
/// gives up when either runs out. Neither does while the count of spawns is
/// below that, hence the demand.
#[verifier::external_body]
pub(crate) fn ecs_spawn(w: &mut bevy_ecs::world::World) -> (id: u64)
    requires
        ecs_spawned(*old(w)) < u32::MAX,
    ensures
        !ecs_bodies(*old(w)).dom().contains(id),
        ecs_bodies(*final(w)) == ecs_bodies(*old(w)).insert(id, Body::bare()),
        ecs_spawned(*final(w)) == ecs_spawned(*old(w)) + 1,
{
    w.spawn().id().to_bits()
}

/// `World::despawn` on the entity that `Entity::from_bits` gives. It removes
/// that entity with all of its components; other entities stay as they
/// are. The id has to be that of a live entity: the store takes the number
/// of a despawned entity, under the count of lives that its next bearer will
/// have, for a live one, and panics on it.
#[verifier::external_body]
pub(crate) fn ecs_despawn(w: &mut bevy_ecs::world::World, id: u64)
    requires
        ecs_bodies(*old(w)).dom().contains(id),
    ensures
        ecs_bodies(*final(w)) == ecs_bodies(*old(w)).remove(id),
        ecs_spawned(*final(w)) == ecs_spawned(*old(w)),
{
    w.despawn(Entity::from_bits(id));
}

/// `World::query` for the id and each kind of component, absent or present,
/// walked once with `QueryState::iter`. Every live entity comes out exactly
/// once, with what it carries; in which order is not said. The store's
/// entities stay as they are.
#[verifier::external_body]
pub(crate) fn ecs_snapshot(w: &mut bevy_ecs::world::World) -> (out: Vec<(u64, Body)>)
    ensures
        ecs_bodies(*final(w)) == ecs_bodies(*old(w)),
        ecs_spawned(*final(w)) == ecs_spawned(*old(w)),
        lists_all(out@, ecs_bodies(*old(w))),
{
    w.query::<(Entity, Option<&Spatial>, Option<&Velocity>, Option<&Speed>,
        Option<&GodotNode>, Option<&Player>, Option<&Mob>)>()
        .iter(w)
        .map(|(e, spatial, velocity, speed, node, player, mob)| (e.to_bits(), Body {
            spatial: spatial.copied(),
            velocity: velocity.copied(),
            speed: speed.copied(),
            node: node.copied(),
            player: player.copied(),
            mob: mob.copied(),
        }))
        .collect()
}

/// `World::entity_mut` on the entity that `Entity::from_bits` gives, and
/// `EntityMut::insert` of a pose, which replaces the pose the entity had or
/// gives it one. Other entities, and what else this one carries, stay as
/// they are. The id has to be that of a live entity, as for `ecs_despawn`.
#[verifier::external_body]
pub(crate) fn ecs_put_spatial(w: &mut bevy_ecs::world::World, id: u64, spatial: Spatial)
    requires
        ecs_bodies(*old(w)).dom().contains(id),
    ensures
        ecs_bodies(*final(w)) == ecs_bodies(*old(w)).insert(
            id,
            ecs_bodies(*old(w))[id].with(Component::Spatial(spatial)),
        ),
        ecs_spawned(*final(w)) == ecs_spawned(*old(w)),
{
    w.entity_mut(Entity::from_bits(id)).insert(spatial);
}

/// As `ecs_put_spatial`, for a velocity.
#[verifier::external_body]
pub(crate) fn ecs_put_velocity(w: &mut bevy_ecs::world::World, id: u64, velocity: Velocity)
    requires
        ecs_bodies(*old(w)).dom().contains(id),
    ensures
        ecs_bodies(*final(w)) == ecs_bodies(*old(w)).insert(
            id,
            ecs_bodies(*old(w))[id].with(Component::Velocity(velocity)),
        ),
        ecs_spawned(*final(w)) == ecs_spawned(*old(w)),
{
    w.entity_mut(Entity::from_bits(id)).insert(velocity);
}

/// As `ecs_put_spatial`, for a speed.
#[verifier::external_body]
pub(crate) fn ecs_put_speed(w: &mut bevy_ecs::world::World, id: u64, speed: Speed)
    requires
        ecs_bodies(*old(w)).dom().contains(id),
    ensures
        ecs_bodies(*final(w)) == ecs_bodies(*old(w)).insert(
            id,
            ecs_bodies(*old(w))[id].with(Component::Speed(speed)),
        ),
        ecs_spawned(*final(w)) == ecs_spawned(*old(w)),
{
    w.entity_mut(Entity::from_bits(id)).insert(speed);
}

/// As `ecs_put_spatial`, for a node handle.
#[verifier::external_body]
pub(crate) fn ecs_put_node(w: &mut bevy_ecs::world::World, id: u64, node: GodotNode)
    requires
        ecs_bodies(*old(w)).dom().contains(id),
    ensures
        ecs_bodies(*final(w)) == ecs_bodies(*old(w)).insert(
            id,
            ecs_bodies(*old(w))[id].with(Component::Node(node)),
        ),
        ecs_spawned(*final(w)) == ecs_spawned(*old(w)),
{
    w.entity_mut(Entity::from_bits(id)).insert(node);
}

/// As `ecs_put_spatial`, for the tag of the player.
#[verifier::external_body]
pub(crate) fn ecs_put_player(w: &mut bevy_ecs::world::World, id: u64, player: Player)
    requires
        ecs_bodies(*old(w)).dom().contains(id),
    ensures
        ecs_bodies(*final(w)) == ecs_bodies(*old(w)).insert(
            id,
            ecs_bodies(*old(w))[id].with(Component::Player(player)),
        ),
        ecs_spawned(*final(w)) == ecs_spawned(*old(w)),
{
    w.entity_mut(Entity::from_bits(id)).insert(player);
}

/// As `ecs_put_spatial`, for the tag of the creeps.
#[verifier::external_body]
pub(crate) fn ecs_put_mob(w: &mut bevy_ecs::world::World, id: u64, mob: Mob)
    requires
        ecs_bodies(*old(w)).dom().contains(id),
    ensures
        ecs_bodies(*final(w)) == ecs_bodies(*old(w)).insert(
            id,
            ecs_bodies(*old(w))[id].with(Component::Mob(mob)),
        ),
        ecs_spawned(*final(w)) == ecs_spawned(*old(w)),
{
    w.entity_mut(Entity::from_bits(id)).insert(mob);
}

/// `Events::default` makes an empty buffer.
#[verifier::external_body]
pub(crate) fn events_new() -> (q: bevy_app::Events<InputEvent>)
    ensures
        queued_events(q).len() == 0,
{
    bevy_app::Events::default()
}

/// `Events::send` appends an event to the buffer. (The buffer also counts
/// the events ever sent, in a `usize`; the count is taken never to run
/// out.)
#[verifier::external_body]
pub(crate) fn events_send(q: &mut bevy_app::Events<InputEvent>, event: InputEvent)
    ensures
        queued_events(*final(q)) == queued_events(*old(q)).push(event),
{
    q.send(event)
}

/// `Events::drain`, collected: hands out every event of the buffer, oldest
/// first, and leaves the buffer empty.
#[verifier::external_body]
pub(crate) fn events_drain(q: &mut bevy_app::Events<InputEvent>) -> (out: Vec<InputEvent>)
    ensures
        out@ == queued_events(*old(q)),
        queued_events(*final(q)).len() == 0,
{
    q.drain().collect()
}

// ---------------------------------------------------------------------------
// Random numbers
// ---------------------------------------------------------------------------

/// `rand::thread_rng` and, on it, `Rng::gen_range` over `low..high`: some
/// number of that range, `high` excluded. Which one is not said, and two
/// calls may differ. An empty range makes `gen_range` panic, hence the
/// demand. (The generator seeds itself from the system when a thread first
/// uses it; that this works is taken for granted.)
#[verifier::external_body]
pub(crate) fn random_in(low: u32, high: u32) -> (drawn: u32)
    requires
        low < high,
    ensures
        low <= drawn < high,
{
    rand::thread_rng().gen_range(low..high)
}

} // verus!
