//! The entity world: component storage, resources and the event queue.
//!
//! Entities and their components live in a `bevy_ecs` world; queued input
//! lives in a `bevy_app` event buffer. What is taken for granted of the two
//! stands in [`crate::outside`]; everything here is proved from that.

use vstd::prelude::*;
use crate::components::{
    Body, Component, GodotNode, Mob, Player, Spatial, Speed, Vector2, Velocity,
};
use crate::events::InputEvent;
use crate::outside::{
    ecs_bodies, ecs_despawn, ecs_put_mob, ecs_put_node, ecs_put_player, ecs_put_spatial,
    ecs_put_speed, ecs_put_velocity, ecs_removed, ecs_snapshot, ecs_spawn, ecs_spawned,
    events_drain, events_new, events_send, lists_all, queued_events,
};
use crate::resources::{Delta, ScreenSize};
use crate::steering::HeldKeys;

verus! {

// ---------------------------------------------------------------------------
// Bodies
// ---------------------------------------------------------------------------

/// What a freshly spawned player carries.
pub open spec fn player_body(
    spatial: Spatial,
    velocity: Velocity,
    speed: Speed,
    node: GodotNode,
) -> Body {
    Body {
        spatial: Some(spatial),
        velocity: Some(velocity),
        speed: Some(speed),
        node: Some(node),
        player: Some(Player),
        mob: None,
    }
}

/// What a freshly spawned creep carries.
pub open spec fn mob_body(spatial: Spatial, velocity: Velocity, node: GodotNode) -> Body {
    Body {
        spatial: Some(spatial),
        velocity: Some(velocity),
        speed: None,
        node: Some(node),
        player: None,
        mob: Some(Mob),
    }
}

/// The bodies with the component `c` attached to entity `id`; unchanged
/// where there is no such entity.
pub open spec fn with_component(bodies: Map<u64, Body>, id: u64, c: Component) -> Map<u64, Body> {
    if bodies.dom().contains(id) {
        bodies.insert(id, bodies[id].with(c))
    } else {
        bodies
    }
}

/// The bodies with the pose of entity `id` set; unchanged where there is no
/// such entity.
pub open spec fn with_spatial(bodies: Map<u64, Body>, id: u64, spatial: Spatial) -> Map<u64, Body> {
    with_component(bodies, id, Component::Spatial(spatial))
}

/// The bodies with the velocity of entity `id` set; unchanged where there is
/// no such entity.
pub open spec fn with_velocity(bodies: Map<u64, Body>, id: u64, velocity: Velocity) -> Map<
    u64,
    Body,
> {
    with_component(bodies, id, Component::Velocity(velocity))
}

/// Whether some entity of `bodies` holds the node handle `node`.
pub open spec fn node_in_use(bodies: Map<u64, Body>, node: GodotNode) -> bool {
    exists|id: u64| #[trigger] bodies.dom().contains(id) && bodies[id].node == Some(node)
}

/// Whether no node handle is held by two entities.
pub open spec fn nodes_distinct(bodies: Map<u64, Body>) -> bool {
    forall|a: u64, b: u64|
        #![trigger bodies.dom().contains(a), bodies.dom().contains(b)]
        bodies.dom().contains(a) && bodies.dom().contains(b) && a != b && bodies[a].node is Some
            ==> bodies[a].node != bodies[b].node
}

// ---------------------------------------------------------------------------
// Queries
// ---------------------------------------------------------------------------

/// What a query asks of an entity: the components it must carry, and for
/// each tag whether it must be present (`Some(true)`), absent
/// (`Some(false)`), or may be either (`None`).
#[derive(Copy, Clone, Debug, PartialEq, Eq, Structural)]
pub struct Filter {
    pub spatial: bool,
    pub velocity: bool,
    pub speed: bool,
    pub node: bool,
    pub player: Option<bool>,
    pub mob: Option<bool>,
}

impl Filter {
    /// Whether an entity with body `b` is among the answers.
    pub open spec fn matches(self, b: Body) -> bool {
        &&& self.spatial ==> b.spatial is Some
        &&& self.velocity ==> b.velocity is Some
        &&& self.speed ==> b.speed is Some
        &&& self.node ==> b.node is Some
        &&& self.player matches Some(present) ==> present == (b.player is Some)
        &&& self.mob matches Some(present) ==> present == (b.mob is Some)
    }

    /// The filter that every entity passes.
    pub open spec fn everything() -> Filter {
        Filter {
            spatial: false,
            velocity: false,
            speed: false,
            node: false,
            player: None,
            mob: None,
        }
    }

    /// Returns the filter that every entity passes.
    pub fn any() -> (f: Filter)
        ensures
            f == Filter::everything(),
    {
        Filter {
            spatial: false,
            velocity: false,
            speed: false,
            node: false,
            player: None,
            mob: None,
        }
    }

    /// Tells whether an entity with body `b` is among the answers.
    pub fn accepts(&self, b: &Body) -> (yes: bool)
        ensures
            yes == self.matches(*b),
    {
        if self.spatial && b.spatial.is_none() {
            return false;
        }
        if self.velocity && b.velocity.is_none() {
            return false;
        }
        if self.speed && b.speed.is_none() {
            return false;
        }
        if self.node && b.node.is_none() {
            return false;
        }
        match self.player {
            Some(present) => if present != b.player.is_some() {
                return false;
            },
            None => {},
        }
        match self.mob {
            Some(present) => if present != b.mob.is_some() {
                return false;
            },
            None => {},
        }
        true
    }
}

/// Whether `list` answers the query `want` on `bodies`: it holds exactly
/// the entities that pass the filter, each once and with its body.
pub open spec fn answers(list: Seq<(u64, Body)>, bodies: Map<u64, Body>, want: Filter) -> bool {
    &&& forall|i: int|
        0 <= i < list.len() ==> bodies.contains_pair((#[trigger] list[i]).0, list[i].1)
            && want.matches(list[i].1)
    &&& forall|i: int, j: int|
        0 <= i < j < list.len() ==> (#[trigger] list[i]).0 != (#[trigger] list[j]).0
    &&& forall|id: u64| #[trigger]
        bodies.dom().contains(id) && want.matches(bodies[id]) ==> exists|i: int|
            0 <= i < list.len() && (#[trigger] list[i]).0 == id
}

/// Why no single entity could be named: none passes the filter, or more
/// than one does.
#[derive(Copy, Clone, Debug, PartialEq, Eq, Structural)]
pub enum SingleError {
    NoEntities,
    MultipleEntities,
}

/// Whether entity `id` is the only one of `bodies` that passes `want`.
pub open spec fn is_single(bodies: Map<u64, Body>, want: Filter, id: u64) -> bool {
    &&& bodies.dom().contains(id)
    &&& want.matches(bodies[id])
    &&& forall|other: u64| #[trigger]
        bodies.dom().contains(other) && want.matches(bodies[other]) ==> other == id
}

/// Whether no entity of `bodies` passes `want`.
pub open spec fn is_unmatched(bodies: Map<u64, Body>, want: Filter) -> bool {
    forall|id: u64| #[trigger] bodies.dom().contains(id) ==> !want.matches(bodies[id])
}

/// Whether exactly one entity of `bodies` passes `want`.
pub open spec fn has_single(bodies: Map<u64, Body>, want: Filter) -> bool {
    exists|id: u64| is_single(bodies, want, id)
}

/// The one entity of `bodies` that passes `want`, where there is exactly
/// one.
pub open spec fn the_single(bodies: Map<u64, Body>, want: Filter) -> u64 {
    choose|id: u64| is_single(bodies, want, id)
}

/// What passes a filter alone is the one that `the_single` names.
pub proof fn lemma_single_is_the_single(bodies: Map<u64, Body>, want: Filter, id: u64)
    requires
        is_single(bodies, want, id),
    ensures
        has_single(bodies, want),
        the_single(bodies, want) == id,
{
    let other = the_single(bodies, want);
    assert(is_single(bodies, want, other));
    assert(bodies.dom().contains(other));
}

// ---------------------------------------------------------------------------
// The world
// ---------------------------------------------------------------------------

/// Why an entity could not be spawned.
#[derive(Copy, Clone, Debug, PartialEq, Eq, Structural)]
pub enum SpawnError {
    /// The world has used up its budget of spawns.
    Exhausted,
    /// The node handle already belongs to a live entity.
    NodeInUse,
}

/// Why a component could not be attached.
#[derive(Copy, Clone, Debug, PartialEq, Eq, Structural)]
pub enum InsertError {
    /// No entity has the id.
    NoSuchEntity,
    /// The node handle already belongs to another live entity.
    NodeInUse,
}

/// Whether `c` is a node handle that an entity other than `id` holds.
pub open spec fn node_taken(bodies: Map<u64, Body>, id: u64, c: Component) -> bool {
    c matches Component::Node(node) && exists|other: u64| #[trigger]
        bodies.dom().contains(other) && other != id && bodies[other].node == Some(node)
}

/// What a world holds.
pub ghost struct WorldView {
    /// The live entities, each under its id.
    pub bodies: Map<u64, Body>,
    /// The queued input events, oldest first.
    pub pending: Seq<InputEvent>,
    /// The direction keys that are down.
    pub keys: HeldKeys,
    /// Length of the current tick.
    pub delta: Delta,
    /// Extent of the play area, once known.
    pub screen_size: Option<ScreenSize>,
    /// How many entities were ever spawned.
    pub spawned: nat,
    /// How many entities may be spawned in all.
    pub budget: nat,
}

/// The entity world. It owns the entities with their components, the
/// resources and the queue of input events.
pub struct GameWorld {
    ecs: bevy_ecs::world::World,
    events: bevy_app::Events<InputEvent>,
    keys: HeldKeys,
    delta: Delta,
    screen_size: Option<ScreenSize>,
    spawned: u32,
    budget: u32,
}

impl View for GameWorld {
    type V = WorldView;

    closed spec fn view(&self) -> WorldView {
        WorldView {
            bodies: ecs_bodies(self.ecs),
            pending: queued_events(self.events),
            keys: self.keys,
            delta: self.delta,
            screen_size: self.screen_size,
            spawned: ecs_spawned(self.ecs),
            budget: self.budget as nat,
        }
    }
}

impl GameWorld {
    /// The entities on the store's record of removals.
    pub closed spec fn removed(&self) -> Set<u64> {
        ecs_removed(self.ecs)
    }

    /// Whether the world keeps count of its spawns and within its budget.
    pub closed spec fn counted(&self) -> bool {
        self.spawned as nat == ecs_spawned(self.ecs) && self.spawned <= self.budget
    }

    /// Whether the world is in order: it keeps count of its spawns, and no
    /// node handle belongs to two entities.
    pub open spec fn wf(&self) -> bool {
        self.counted() && nodes_distinct(self@.bodies)
    }

    /// Makes a world without entities or events, with no key down, a tick
    /// length of zero and no play area yet. It will spawn as many entities
    /// as can be numbered.
    pub fn new() -> (w: GameWorld)
        ensures
            w.wf(),
            w@.bodies == Map::<u64, Body>::empty(),
            w@.pending == Seq::<InputEvent>::empty(),
            w@.keys == HeldKeys::none(),
            w@.delta == Delta(0),
            w@.screen_size == None::<ScreenSize>,
            w@.spawned == 0,
            w@.budget == u32::MAX,
    {
        GameWorld::with_budget(u32::MAX)
    }

    /// Makes a world as `new` does, but one that will spawn no more than
    /// `budget` entities over its life, despawned ones included.
    pub fn with_budget(budget: u32) -> (w: GameWorld)
        ensures
            w.wf(),
            w@.bodies == Map::<u64, Body>::empty(),
            w@.pending == Seq::<InputEvent>::empty(),
            w@.keys == HeldKeys::none(),
            w@.delta == Delta(0),
            w@.screen_size == None::<ScreenSize>,
            w@.spawned == 0,
            w@.budget == budget,
    {
        let w = GameWorld {
            ecs: bevy_ecs::world::World::new(),
            events: events_new(),
            keys: HeldKeys::released(),
            delta: Delta(0),
            screen_size: None,
            spawned: 0,
            budget,
        };
        assert(w@.bodies =~= Map::<u64, Body>::empty());
        assert(w@.pending =~= Seq::<InputEvent>::empty());
        w
    }

    /// Lists every entity once, with its body. The order is not fixed.
    pub fn entities(&mut self) -> (list: Vec<(u64, Body)>)
        requires
            old(self).wf(),
        ensures
            final(self).wf(),
            final(self)@ == old(self)@,
            lists_all(list@, old(self)@.bodies),
    {
        ecs_snapshot(&mut self.ecs)
    }

    /// Runs a query: lists the entities that pass `want`, each once and with
    /// its body. The order is not fixed.
    pub fn query(&mut self, want: Filter) -> (list: Vec<(u64, Body)>)
        requires
            old(self).wf(),
        ensures
            final(self).wf(),
            final(self)@ == old(self)@,
            answers(list@, old(self)@.bodies, want),
    {
        let all = ecs_snapshot(&mut self.ecs);
        let ghost bodies = self@.bodies;
        let mut list: Vec<(u64, Body)> = Vec::new();
        let ghost mut picked: Seq<int> = Seq::empty();
        let mut k: usize = 0;
        while k < all.len()
            invariant
                k <= all.len(),
                lists_all(all@, bodies),
                picked.len() == list.len(),
                forall|i: int| 0 <= i < picked.len() ==> 0 <= #[trigger] picked[i] < k,
                forall|i: int| 0 <= i < list.len() ==> #[trigger] list@[i] == all@[picked[i]],
                forall|i: int, j: int| 0 <= i < j < picked.len() ==> picked[i] < picked[j],
                forall|i: int| 0 <= i < list.len() ==> want.matches((#[trigger] list@[i]).1),
                forall|m: int|
                    0 <= m < k && want.matches((#[trigger] all@[m]).1) ==> exists|i: int|
                        0 <= i < list.len() && (#[trigger] list@[i]).0 == all@[m].0,
            decreases all.len() - k,
        {
            let entry = all[k];
            let ghost before = list@;
            if want.accepts(&entry.1) {
                list.push(entry);
                proof {
                    picked = picked.push(k as int);
                    assert forall|m: int|
                        0 <= m < k + 1 && want.matches((#[trigger] all@[m]).1) implies exists|
                        i: int,
                    |
                        0 <= i < list.len() && (#[trigger] list@[i]).0 == all@[m].0 by {
                        if m < k {
                            let i = choose|i: int|
                                0 <= i < before.len() && (#[trigger] before[i]).0 == all@[m].0;
                            assert(list@[i] == before[i]);
                        } else {
                            assert(list@[list.len() - 1].0 == all@[m].0);
                        }
                    }
                }
            }
            k += 1;
        }
        proof {
            assert forall|i: int, j: int| 0 <= i < j < list.len() implies (#[trigger] list@[i]).0
                != (#[trigger] list@[j]).0 by {
                assert(list@[i] == all@[picked[i]]);
                assert(list@[j] == all@[picked[j]]);
            }
            assert forall|i: int| 0 <= i < list.len() implies bodies.contains_pair(
                (#[trigger] list@[i]).0,
                list@[i].1,
            ) by {
                assert(list@[i] == all@[picked[i]]);
            }
            assert forall|id: u64| #[trigger]
                bodies.dom().contains(id) && want.matches(bodies[id]) implies exists|i: int|
                0 <= i < list.len() && (#[trigger] list@[i]).0 == id by {
                let m = choose|m: int| 0 <= m < all.len() && (#[trigger] all@[m]).0 == id;
                assert(bodies.contains_pair(all@[m].0, all@[m].1));
            }
        }
        list
    }
}

impl GameWorld {
    /// Looks for the one entity that passes `want`. Fails if none passes or
    /// more than one does.
    pub fn single(&mut self, want: Filter) -> (found: Result<(u64, Body), SingleError>)
        requires
            old(self).wf(),
        ensures
            final(self).wf(),
            final(self)@ == old(self)@,
            match found {
                Ok(entry) => is_single(old(self)@.bodies, want, entry.0) && old(self)@.bodies[entry.0]
                    == entry.1,
                Err(SingleError::NoEntities) => is_unmatched(old(self)@.bodies, want),
                Err(SingleError::MultipleEntities) => !is_unmatched(old(self)@.bodies, want)
                    && !has_single(old(self)@.bodies, want),
            },
    {
        let list = self.query(want);
        let ghost bodies = self@.bodies;
        if list.len() == 0 {
            Err(SingleError::NoEntities)
        } else if list.len() == 1 {
            let entry = list[0];
            assert(bodies.contains_pair(list@[0].0, list@[0].1));
            Ok(entry)
        } else {
            proof {
                assert(bodies.contains_pair(list@[0].0, list@[0].1));
                assert(bodies.contains_pair(list@[1].0, list@[1].1));
                assert(list@[0].0 != list@[1].0);
                if has_single(bodies, want) {
                    let id = choose|id: u64| is_single(bodies, want, id);
                    assert(bodies.dom().contains(list@[0].0));
                    assert(bodies.dom().contains(list@[1].0));
                    assert(false);
                }
            }
            Err(SingleError::MultipleEntities)
        }
    }

    /// Returns the one entity that passes `want`, with its body.
    ///
    /// There must be exactly one such entity; `single` tells.
    pub fn only(&mut self, want: Filter) -> (entry: (u64, Body))
        requires
            old(self).wf(),
            has_single(old(self)@.bodies, want),
        ensures
            final(self).wf(),
            final(self)@ == old(self)@,
            entry.0 == the_single(old(self)@.bodies, want),
            entry.1 == old(self)@.bodies[entry.0],
            is_single(old(self)@.bodies, want, entry.0),
    {
        let list = self.query(want);
        proof {
            let bodies = self@.bodies;
            let id = the_single(bodies, want);
            assert(is_single(bodies, want, id));
            let i = choose|i: int| 0 <= i < list.len() && (#[trigger] list@[i]).0 == id;
            assert(bodies.contains_pair(list@[0].0, list@[0].1));
            assert(bodies.dom().contains(list@[0].0));
            lemma_single_is_the_single(bodies, want, list@[0].0);
        }
        list[0]
    }

    /// Looks an entity up: its body, or `None` if no entity has this id.
    pub fn body(&mut self, id: u64) -> (found: Option<Body>)
        requires
            old(self).wf(),
        ensures
            final(self).wf(),
            final(self)@ == old(self)@,
            found == if old(self)@.bodies.dom().contains(id) {
                Some(old(self)@.bodies[id])
            } else {
                None
            },
    {
        let all = ecs_snapshot(&mut self.ecs);
        let ghost bodies = self@.bodies;
        let mut k: usize = 0;
        while k < all.len()
            invariant
                k <= all.len(),
                self.wf(),
                self@ == old(self)@,
                bodies == old(self)@.bodies,
                lists_all(all@, bodies),
                forall|m: int| 0 <= m < k ==> (#[trigger] all@[m]).0 != id,
            decreases all.len() - k,
        {
            if all[k].0 == id {
                assert(bodies.contains_pair(all@[k as int].0, all@[k as int].1));
                return Some(all[k].1);
            }
            k += 1;
        }
        None
    }

    /// Looks for the entity that holds the node handle `node`.
    pub fn holder(&mut self, node: GodotNode) -> (found: Option<u64>)
        requires
            old(self).wf(),
        ensures
            final(self).wf(),
            final(self)@ == old(self)@,
            match found {
                Some(id) => old(self)@.bodies.dom().contains(id) && old(self)@.bodies[id].node
                    == Some(node),
                None => !node_in_use(old(self)@.bodies, node),
            },
    {
        let all = ecs_snapshot(&mut self.ecs);
        let ghost bodies = self@.bodies;
        let mut k: usize = 0;
        while k < all.len()
            invariant
                k <= all.len(),
                self.wf(),
                self@ == old(self)@,
                bodies == old(self)@.bodies,
                lists_all(all@, bodies),
                forall|m: int| 0 <= m < k ==> (#[trigger] all@[m]).1.node != Some(node),
            decreases all.len() - k,
        {
            match all[k].1.node {
                Some(n) => if n.0 == node.0 {
                    assert(bodies.contains_pair(all@[k as int].0, all@[k as int].1));
                    return Some(all[k].0);
                },
                None => {},
            }
            k += 1;
        }
        proof {
            if node_in_use(bodies, node) {
                let id = choose|id: u64| #[trigger]
                    bodies.dom().contains(id) && bodies[id].node == Some(node);
                let m = choose|m: int| 0 <= m < all.len() && (#[trigger] all@[m]).0 == id;
                assert(bodies.contains_pair(all@[m].0, all@[m].1));
                assert(false);
            }
        }
        None
    }

    /// Tells whether some entity holds the node handle `node`.
    pub fn holds_node(&mut self, node: GodotNode) -> (held: bool)
        requires
            old(self).wf(),
        ensures
            final(self).wf(),
            final(self)@ == old(self)@,
            held == node_in_use(old(self)@.bodies, node),
    {
        self.holder(node).is_some()
    }

    /// Spawns an entity that carries nothing yet, and returns its id. The
    /// id is one that no live entity has.
    ///
    /// Returns `None`, and changes nothing, if the world has used up its
    /// budget of spawns.
    pub fn spawn(&mut self) -> (made: Option<u64>)
        requires
            old(self).wf(),
        ensures
            final(self).wf(),
            match made {
                Some(id) => {
                    &&& old(self)@.spawned < old(self)@.budget
                    &&& !old(self)@.bodies.dom().contains(id)
                    &&& final(self)@ == (WorldView {
                        bodies: old(self)@.bodies.insert(id, Body::bare()),
                        spawned: old(self)@.spawned + 1,
                        ..old(self)@
                    })
                },
                None => old(self)@.spawned >= old(self)@.budget && final(self)@ == old(self)@,
            },
    {
        if self.spawned >= self.budget {
            return None;
        }
        let ghost before = self@.bodies;
        let id = ecs_spawn(&mut self.ecs);
        self.spawned = self.spawned + 1;
        proof {
            lemma_spawn_keeps_nodes_distinct(before, id, Body::bare());
        }
        Some(id)
    }

    /// Attaches the component `c` to entity `id`, in place of the one of
    /// its kind if the entity had one.
    ///
    /// Fails, and changes nothing, with `NoSuchEntity` if no entity has this
    /// id, else with `NodeInUse` if `c` is a node handle that another entity
    /// holds.
    pub fn insert(&mut self, id: u64, c: Component) -> (done: Result<(), InsertError>)
        requires
            old(self).wf(),
        ensures
            final(self).wf(),
            match done {
                Ok(_) => {
                    &&& old(self)@.bodies.dom().contains(id)
                    &&& !node_taken(old(self)@.bodies, id, c)
                    &&& final(self)@ == (WorldView {
                        bodies: with_component(old(self)@.bodies, id, c),
                        ..old(self)@
                    })
                },
                Err(InsertError::NoSuchEntity) => {
                    &&& !old(self)@.bodies.dom().contains(id)
                    &&& final(self)@ == old(self)@
                },
                Err(InsertError::NodeInUse) => {
                    &&& old(self)@.bodies.dom().contains(id)
                    &&& node_taken(old(self)@.bodies, id, c)
                    &&& final(self)@ == old(self)@
                },
            },
    {
        if self.body(id).is_none() {
            return Err(InsertError::NoSuchEntity);
        }
        match c {
            Component::Node(node) => {
                match self.holder(node) {
                    Some(other) => {
                        if other != id {
                            return Err(InsertError::NodeInUse);
                        }
                    },
                    None => {},
                }
            },
            _ => {},
        }
        self.put(id, c);
        Ok(())
    }

    /// Attaches the component `c` to the live entity `id`, in place of the
    /// one of its kind if the entity had one.
    pub(crate) fn put(&mut self, id: u64, c: Component)
        requires
            old(self).wf(),
            old(self)@.bodies.dom().contains(id),
            !node_taken(old(self)@.bodies, id, c),
        ensures
            final(self).wf(),
            final(self)@ == (WorldView {
                bodies: with_component(old(self)@.bodies, id, c),
                ..old(self)@
            }),
    {
        let ghost before = self@.bodies;
        match c {
            Component::Spatial(spatial) => ecs_put_spatial(&mut self.ecs, id, spatial),
            Component::Velocity(velocity) => ecs_put_velocity(&mut self.ecs, id, velocity),
            Component::Speed(speed) => ecs_put_speed(&mut self.ecs, id, speed),
            Component::Node(node) => ecs_put_node(&mut self.ecs, id, node),
            Component::Player(player) => ecs_put_player(&mut self.ecs, id, player),
            Component::Mob(mob) => ecs_put_mob(&mut self.ecs, id, mob),
        }
        proof {
            lemma_insert_keeps_nodes_distinct(before, id, c);
        }
    }

    /// Spawns the player: an entity with the `Player` tag, the given pose
    /// and speed, no velocity, and the node that shows it.
    ///
    /// Fails, and changes nothing, with `Exhausted` if the world has used
    /// up its budget of spawns, else with `NodeInUse` if a live entity holds
    /// `node` already.
    pub fn spawn_player(&mut self, spatial: Spatial, speed: Speed, node: GodotNode) -> (made:
        Result<u64, SpawnError>)
        requires
            old(self).wf(),
        ensures
            final(self).wf(),
            match made {
                Ok(id) => {
                    &&& old(self)@.spawned < old(self)@.budget
                    &&& !node_in_use(old(self)@.bodies, node)
                    &&& !old(self)@.bodies.dom().contains(id)
                    &&& final(self)@ == (WorldView {
                        bodies: old(self)@.bodies.insert(
                            id,
                            player_body(spatial, Velocity(Vector2 { x: 0, y: 0 }), speed, node),
                        ),
                        spawned: old(self)@.spawned + 1,
                        ..old(self)@
                    })
                },
                Err(SpawnError::Exhausted) => old(self)@.spawned >= old(self)@.budget && final(self)@
                    == old(self)@,
                Err(SpawnError::NodeInUse) => old(self)@.spawned < old(self)@.budget && node_in_use(
                    old(self)@.bodies,
                    node,
                ) && final(self)@ == old(self)@,
            },
    {
        if self.spawned >= self.budget {
            return Err(SpawnError::Exhausted);
        }
        if self.holds_node(node) {
            return Err(SpawnError::NodeInUse);
        }
        let ghost before = self@.bodies;
        let id = ecs_spawn(&mut self.ecs);
        self.spawned = self.spawned + 1;
        ecs_put_player(&mut self.ecs, id, Player);
        ecs_put_spatial(&mut self.ecs, id, spatial);
        ecs_put_velocity(&mut self.ecs, id, Velocity(Vector2 { x: 0, y: 0 }));
        ecs_put_speed(&mut self.ecs, id, speed);
        ecs_put_node(&mut self.ecs, id, node);
        proof {
            let body = player_body(spatial, Velocity(Vector2 { x: 0, y: 0 }), speed, node);
            assert(self@.bodies =~= before.insert(id, body));
            lemma_spawn_keeps_nodes_distinct(before, id, body);
        }
        Ok(id)
    }

    /// Spawns a creep: an entity with the `Mob` tag, the given pose and
    /// velocity, and the node that shows it.
    ///
    /// Fails, and changes nothing, with `Exhausted` if the world has used
    /// up its budget of spawns, else with `NodeInUse` if a live entity holds
    /// `node` already.
    pub fn spawn_mob(&mut self, spatial: Spatial, velocity: Velocity, node: GodotNode) -> (made:
        Result<u64, SpawnError>)
        requires
            old(self).wf(),
        ensures
            final(self).wf(),
            match made {
                Ok(id) => {
                    &&& old(self)@.spawned < old(self)@.budget
                    &&& !node_in_use(old(self)@.bodies, node)
                    &&& !old(self)@.bodies.dom().contains(id)
                    &&& final(self)@ == (WorldView {
                        bodies: old(self)@.bodies.insert(id, mob_body(spatial, velocity, node)),
                        spawned: old(self)@.spawned + 1,
                        ..old(self)@
                    })
                },
                Err(SpawnError::Exhausted) => old(self)@.spawned >= old(self)@.budget && final(self)@
                    == old(self)@,
                Err(SpawnError::NodeInUse) => old(self)@.spawned < old(self)@.budget && node_in_use(
                    old(self)@.bodies,
                    node,
                ) && final(self)@ == old(self)@,
            },
    {
        if self.spawned >= self.budget {
            return Err(SpawnError::Exhausted);
        }
        if self.holds_node(node) {
            return Err(SpawnError::NodeInUse);
        }
        let ghost before = self@.bodies;
        let id = ecs_spawn(&mut self.ecs);
        self.spawned = self.spawned + 1;
        ecs_put_mob(&mut self.ecs, id, Mob);
        ecs_put_spatial(&mut self.ecs, id, spatial);
        ecs_put_velocity(&mut self.ecs, id, velocity);
        ecs_put_node(&mut self.ecs, id, node);
        proof {
            let body = mob_body(spatial, velocity, node);
            assert(self@.bodies =~= before.insert(id, body));
            lemma_spawn_keeps_nodes_distinct(before, id, body);
        }
        Ok(id)
    }

    /// Removes the live entity `id` with all of its components. The caller
    /// answers for the release of its node.
    pub(crate) fn remove(&mut self, id: u64)
        requires
            old(self).wf(),
            old(self)@.bodies.dom().contains(id),
        ensures
            final(self).wf(),
            final(self)@ == (WorldView { bodies: old(self)@.bodies.remove(id), ..old(self)@ }),
    {
        ecs_despawn(&mut self.ecs, id)
    }

    /// Despawns entity `id`: removes it with all of its components and
    /// hands out the node handle it held, which the caller must now ask the
    /// host to release. Where no entity has this id nothing changes and
    /// nothing is to be released.
    pub fn despawn(&mut self, id: u64) -> (release: Option<GodotNode>)
        requires
            old(self).wf(),
        ensures
            final(self).wf(),
            final(self)@ == (WorldView { bodies: old(self)@.bodies.remove(id), ..old(self)@ }),
            release == released_by(old(self)@.bodies, id),
    {
        match self.body(id) {
            Some(body) => {
                self.remove(id);
                body.node
            },
            None => {
                assert(self@.bodies.remove(id) =~= self@.bodies);
                None
            },
        }
    }

    /// Queues an input event behind those already waiting.
    pub fn emit(&mut self, event: InputEvent)
        requires
            old(self).wf(),
        ensures
            final(self).wf(),
            final(self)@ == (WorldView { pending: old(self)@.pending.push(event), ..old(self)@ }),
    {
        events_send(&mut self.events, event)
    }

    /// Takes every queued input event out of the queue, oldest first.
    pub fn drain(&mut self) -> (events: Vec<InputEvent>)
        requires
            old(self).wf(),
        ensures
            final(self).wf(),
            events@ == old(self)@.pending,
            final(self)@ == (WorldView { pending: Seq::empty(), ..old(self)@ }),
    {
        let events = events_drain(&mut self.events);
        assert(self@.pending =~= Seq::<InputEvent>::empty());
        events
    }

    /// Returns the length of the current tick.
    pub fn delta(&self) -> (d: Delta)
        ensures
            d == self@.delta,
    {
        self.delta
    }

    /// Sets the length of the current tick.
    pub fn insert_delta(&mut self, delta: Delta)
        requires
            old(self).wf(),
        ensures
            final(self).wf(),
            final(self)@ == (WorldView { delta, ..old(self)@ }),
    {
        self.delta = delta;
    }

    /// Returns the extent of the play area, if it has been set.
    pub fn screen_size(&self) -> (size: Option<ScreenSize>)
        ensures
            size == self@.screen_size,
    {
        self.screen_size
    }

    /// Sets the extent of the play area.
    pub fn insert_screen_size(&mut self, size: ScreenSize)
        requires
            old(self).wf(),
        ensures
            final(self).wf(),
            final(self)@ == (WorldView { screen_size: Some(size), ..old(self)@ }),
    {
        self.screen_size = Some(size);
    }

    /// Returns the direction keys that are down.
    pub fn keys(&self) -> (keys: HeldKeys)
        ensures
            keys == self@.keys,
    {
        self.keys
    }

    /// Records which direction keys are down.
    pub(crate) fn set_keys(&mut self, keys: HeldKeys)
        requires
            old(self).wf(),
        ensures
            final(self).wf(),
            final(self)@ == (WorldView { keys, ..old(self)@ }),
    {
        self.keys = keys;
    }

    /// Returns how many entities the world has spawned so far.
    pub fn spawned(&self) -> (n: u32)
        requires
            self.wf(),
        ensures
            n == self@.spawned,
    {
        self.spawned
    }

    /// Returns how many entities the world may spawn in all.
    pub fn budget(&self) -> (n: u32)
        ensures
            n == self@.budget,
    {
        self.budget
    }

    /// Empties the record of removals, so that it does not grow from tick
    /// to tick. Nothing that the world holds changes.
    pub(crate) fn clear_trackers(&mut self)
        requires
            old(self).wf(),
        ensures
            final(self).wf(),
            final(self).removed() == Set::<u64>::empty(),
            final(self)@ == old(self)@,
    {
        self.ecs.clear_trackers();
    }
}

/// The node handle whose release a despawn of entity `id` calls for.
pub open spec fn released_by(bodies: Map<u64, Body>, id: u64) -> Option<GodotNode> {
    if bodies.dom().contains(id) {
        bodies[id].node
    } else {
        None
    }
}

/// Despawning is idempotent: a second despawn of the same id changes
/// nothing and calls for no release.
pub proof fn lemma_despawn_twice(bodies: Map<u64, Body>, id: u64)
    ensures
        bodies.remove(id).remove(id) == bodies.remove(id),
        released_by(bodies.remove(id), id) == None::<GodotNode>,
{
    assert(bodies.remove(id).remove(id) =~= bodies.remove(id));
}

proof fn lemma_spawn_keeps_nodes_distinct(bodies: Map<u64, Body>, id: u64, body: Body)
    requires
        nodes_distinct(bodies),
        !bodies.dom().contains(id),
        body.node matches Some(node) ==> !node_in_use(bodies, node),
    ensures
        nodes_distinct(bodies.insert(id, body)),
{
    let next = bodies.insert(id, body);
    assert forall|a: u64, b: u64|
        #![trigger next.dom().contains(a), next.dom().contains(b)]
        next.dom().contains(a) && next.dom().contains(b) && a != b && next[a].node
            is Some implies next[a].node != next[b].node by {
        if a != id && b != id {
            assert(bodies.dom().contains(a) && bodies.dom().contains(b));
        } else if a == id {
            assert(bodies.dom().contains(b));
        } else {
            assert(bodies.dom().contains(a));
        }
    }
}

proof fn lemma_insert_keeps_nodes_distinct(bodies: Map<u64, Body>, id: u64, c: Component)
    requires
        nodes_distinct(bodies),
        bodies.dom().contains(id),
        !node_taken(bodies, id, c),
    ensures
        nodes_distinct(with_component(bodies, id, c)),
{
    let next = with_component(bodies, id, c);
    assert forall|a: u64, b: u64|
        #![trigger next.dom().contains(a), next.dom().contains(b)]
        next.dom().contains(a) && next.dom().contains(b) && a != b && next[a].node
            is Some implies next[a].node != next[b].node by {
        assert(bodies.dom().contains(a) && bodies.dom().contains(b));
    }
}

} // verus!
