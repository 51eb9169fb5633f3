//! The game systems. Each takes the world, does its work on the entities
//! that its query answers, and returns what it asks of the host.

use vstd::prelude::*;
use crate::components::{Body, Component, Spatial, Vector2, Velocity};
use crate::motion::{is_outside, moved, outside, step, within};
use crate::requests::{
    animation_for, animation_of, released_once, reports, AnimationRequest, NodeRequest, Order,
};
use crate::resources::{Delta, ScreenSize};
use crate::steering::{after_events, apply_events, Steering};
use crate::world::{
    answers, has_single, nodes_distinct, the_single, with_spatial, with_velocity, Filter,
    GameWorld, WorldView,
};

verus! {

/// Whether entity `id` is among the first `k` entries of `list`.
pub open spec fn listed(list: Seq<(u64, Body)>, k: int, id: u64) -> bool {
    exists|m: int| 0 <= m < k && (#[trigger] list[m]).0 == id
}

proof fn lemma_listed_step(list: Seq<(u64, Body)>, k: int, id: u64)
    requires
        0 <= k < list.len(),
    ensures
        listed(list, k + 1, id) == (listed(list, k, id) || list[k].0 == id),
{
    if listed(list, k + 1, id) {
        let m = choose|m: int| 0 <= m < k + 1 && (#[trigger] list[m]).0 == id;
        if m < k {
            assert(listed(list, k, id));
        }
    }
    if listed(list, k, id) {
        let m = choose|m: int| 0 <= m < k && (#[trigger] list[m]).0 == id;
        assert(0 <= m < k + 1 && list[m].0 == id);
    }
    if list[k].0 == id {
        assert(0 <= k < k + 1 && list[k].0 == id);
    }
}

proof fn lemma_listed_all(list: Seq<(u64, Body)>, bodies: Map<u64, Body>, want: Filter, id: u64)
    requires
        answers(list, bodies, want),
    ensures
        listed(list, list.len() as int, id) == (bodies.dom().contains(id) && want.matches(
            bodies[id],
        )),
{
    if listed(list, list.len() as int, id) {
        let m = choose|m: int| 0 <= m < list.len() && (#[trigger] list[m]).0 == id;
        assert(bodies.contains_pair(list[m].0, list[m].1));
    }
    if bodies.dom().contains(id) && want.matches(bodies[id]) {
        let m = choose|m: int| 0 <= m < list.len() && (#[trigger] list[m]).0 == id;
        assert(listed(list, list.len() as int, id));
    }
}

proof fn lemma_unlisted_before(list: Seq<(u64, Body)>, bodies: Map<u64, Body>, want: Filter, k: int)
    requires
        answers(list, bodies, want),
        0 <= k < list.len(),
    ensures
        !listed(list, k, list[k].0),
{
    if listed(list, k, list[k].0) {
        let m = choose|m: int| 0 <= m < k && (#[trigger] list[m]).0 == list[k].0;
        assert(list[m].0 != list[k].0);
    }
}

// ---------------------------------------------------------------------------
// movement
// ---------------------------------------------------------------------------

/// The entities that `movement` acts on: those with a pose and a velocity.
pub open spec fn moving() -> Filter {
    Filter { spatial: true, velocity: true, ..Filter::everything() }
}

/// A body after one tick of movement. An entity with a pose and a velocity
/// moves, and the player among them is held within the play area; any
/// other entity stays as it is.
pub open spec fn moved_body(b: Body, delta: Delta, size: ScreenSize) -> Body {
    if b.spatial is Some && b.velocity is Some {
        Body {
            spatial: Some(
                moved(b.spatial.unwrap(), b.velocity.unwrap(), delta, size, b.player is Some),
            ),
            ..b
        }
    } else {
        b
    }
}

/// The bodies after one tick of movement.
pub open spec fn moved_bodies(bodies: Map<u64, Body>, delta: Delta, size: ScreenSize) -> Map<
    u64,
    Body,
> {
    bodies.map_values(|b: Body| moved_body(b, delta, size))
}

/// Whether every player among `bodies` that has a pose and a velocity lies
/// within the play area.
pub open spec fn players_within(bodies: Map<u64, Body>, size: ScreenSize) -> bool {
    forall|id: u64| #[trigger]
        bodies.dom().contains(id) && bodies[id].player is Some && bodies[id].spatial is Some
            && bodies[id].velocity is Some ==> within(bodies[id].spatial.unwrap().position, size)
}

/// After movement every player that moves lies within the play area,
/// wherever it was before and whatever the length of the tick, provided
/// the play area has no negative extent.
pub proof fn lemma_movement_walls_players(
    bodies: Map<u64, Body>,
    delta: Delta,
    size: ScreenSize,
    id: u64,
)
    requires
        0 <= size.0.x,
        0 <= size.0.y,
        bodies.dom().contains(id),
        bodies[id].player is Some,
        bodies[id].spatial is Some,
        bodies[id].velocity is Some,
    ensures
        moved_bodies(bodies, delta, size).dom().contains(id),
        moved_bodies(bodies, delta, size)[id].spatial is Some,
        within(moved_bodies(bodies, delta, size)[id].spatial.unwrap().position, size),
{
}

/// Moves every entity that has a pose and a velocity by its velocity times
/// the length of the tick, and holds the player within the play area.
pub fn movement(world: &mut GameWorld)
    requires
        old(world).wf(),
        old(world)@.screen_size is Some,
    ensures
        final(world).wf(),
        final(world)@ == (WorldView {
            bodies: moved_bodies(
                old(world)@.bodies,
                old(world)@.delta,
                old(world)@.screen_size.unwrap(),
            ),
            ..old(world)@
        }),
        0 <= old(world)@.screen_size.unwrap().0.x && 0 <= old(world)@.screen_size.unwrap().0.y
            ==> players_within(final(world)@.bodies, old(world)@.screen_size.unwrap()),
{
    let size = world.screen_size().unwrap();
    let delta = world.delta();
    let want = Filter { spatial: true, velocity: true, ..Filter::any() };
    let list = world.query(want);
    let ghost start = world@.bodies;
    let mut k: usize = 0;
    while k < list.len()
        invariant
            k <= list.len(),
            world.wf(),
            want == moving(),
            answers(list@, start, want),
            start == old(world)@.bodies,
            world@ == (WorldView { bodies: world@.bodies, ..old(world)@ }),
            world@.bodies.dom() == start.dom(),
            forall|id: u64| #[trigger]
                start.dom().contains(id) ==> world@.bodies[id] == if listed(list@, k as int, id) {
                    moved_body(start[id], delta, size)
                } else {
                    start[id]
                },
        decreases list.len() - k,
    {
        let entry = list[k];
        proof {
            assert(start.contains_pair(list@[k as int].0, list@[k as int].1));
            lemma_unlisted_before(list@, start, want, k as int);
        }
        let next = step(
            entry.1.spatial.unwrap(),
            entry.1.velocity.unwrap(),
            delta,
            size,
            entry.1.player.is_some(),
        );
        world.put(entry.0, Component::Spatial(next));
        proof {
            assert(world@.bodies.dom() =~= start.dom());
            assert forall|id: u64| #[trigger] start.dom().contains(id) implies world@.bodies[id]
                == if listed(list@, k + 1, id) {
                moved_body(start[id], delta, size)
            } else {
                start[id]
            } by {
                lemma_listed_step(list@, k as int, id);
            }
        }
        k += 1;
    }
    proof {
        let goal = moved_bodies(start, delta, size);
        assert forall|id: u64| #[trigger] start.dom().contains(id) implies world@.bodies[id]
            == goal[id] by {
            lemma_listed_all(list@, start, want, id);
        }
        assert(world@.bodies =~= goal);
    }
}

// ---------------------------------------------------------------------------
// cleanup
// ---------------------------------------------------------------------------

/// A tag that an entity may carry.
#[derive(Copy, Clone, Debug, PartialEq, Eq, Structural)]
pub enum Tag {
    Player,
    Mob,
}

impl Tag {
    /// The entities that carry the tag.
    pub open spec fn bearers(self) -> Filter {
        match self {
            Tag::Player => Filter { player: Some(true), ..Filter::everything() },
            Tag::Mob => Filter { mob: Some(true), ..Filter::everything() },
        }
    }
}

/// The entities that `cleanup_mobs` acts on: the creeps that hold a node.
pub open spec fn shown_mobs() -> Filter {
    Filter { node: true, mob: Some(true), ..Filter::everything() }
}

/// The entities of `bodies` that pass `want`.
pub open spec fn matching(bodies: Map<u64, Body>, want: Filter) -> Set<u64> {
    Set::new(|id: u64| bodies.dom().contains(id) && want.matches(bodies[id]))
}

/// The bodies without the entities that pass `want`.
pub open spec fn swept(bodies: Map<u64, Body>, want: Filter) -> Map<u64, Body> {
    bodies.remove_keys(matching(bodies, want))
}

/// The release that is due when an entity that passes `want` is despawned:
/// one for its node, if it holds one.
pub open spec fn release_due(want: Filter) -> spec_fn(u64, Body) -> Option<NodeRequest> {
    |id: u64, b: Body|
        if want.matches(b) && b.node is Some {
            Some(NodeRequest { entity: id, node: b.node.unwrap(), order: Order::Release })
        } else {
            None
        }
}

/// Despawns every entity that passes `want` and returns, for each of them
/// that held a node, the request to release it.
fn sweep(world: &mut GameWorld, want: Filter) -> (requests: Vec<NodeRequest>)
    requires
        old(world).wf(),
    ensures
        final(world).wf(),
        final(world)@ == (WorldView { bodies: swept(old(world)@.bodies, want), ..old(world)@ }),
        reports(requests@, old(world)@.bodies, release_due(want)),
{
    let list = world.query(want);
    let ghost start = world@.bodies;
    let ghost due = release_due(want);
    let mut requests: Vec<NodeRequest> = Vec::new();
    let mut k: usize = 0;
    while k < list.len()
        invariant
            k <= list.len(),
            world.wf(),
            answers(list@, start, want),
            start == old(world)@.bodies,
            due == release_due(want),
            world@ == (WorldView { bodies: world@.bodies, ..old(world)@ }),
            forall|id: u64|
                #![trigger world@.bodies.dom().contains(id)]
                #![trigger start.dom().contains(id)]
                world@.bodies.dom().contains(id) == (start.dom().contains(id) && !listed(
                    list@,
                    k as int,
                    id,
                )),
            forall|id: u64| #[trigger]
                world@.bodies.dom().contains(id) ==> world@.bodies[id] == start[id],
            forall|i: int|
                0 <= i < requests.len() ==> listed(list@, k as int, (#[trigger] requests@[i]).entity)
                    && start.dom().contains(requests@[i].entity) && due(
                    requests@[i].entity,
                    start[requests@[i].entity],
                ) == Some(requests@[i]),
            forall|i: int, j: int|
                0 <= i < j < requests.len() ==> (#[trigger] requests@[i]).entity != (
                #[trigger] requests@[j]).entity,
            forall|m: int|
                0 <= m < k && (#[trigger] list@[m]).1.node is Some ==> exists|i: int|
                    0 <= i < requests.len() && (#[trigger] requests@[i]).entity == list@[m].0,
        decreases list.len() - k,
    {
        let entry = list[k];
        let ghost sent = requests@;
        proof {
            assert(start.contains_pair(list@[k as int].0, list@[k as int].1));
            lemma_unlisted_before(list@, start, want, k as int);
        }
        world.remove(entry.0);
        match entry.1.node {
            Some(node) => {
                requests.push(NodeRequest { entity: entry.0, node, order: Order::Release });
            },
            None => {},
        }
        proof {
            assert forall|id: u64|
                #![trigger world@.bodies.dom().contains(id)]
                #![trigger start.dom().contains(id)]
                world@.bodies.dom().contains(id) == (start.dom().contains(id) && !listed(
                    list@,
                    k + 1,
                    id,
                )) by {
                lemma_listed_step(list@, k as int, id);
            }
            assert forall|i: int| 0 <= i < requests.len() implies listed(
                list@,
                k + 1,
                (#[trigger] requests@[i]).entity,
            ) && start.dom().contains(requests@[i].entity) && due(
                requests@[i].entity,
                start[requests@[i].entity],
            ) == Some(requests@[i]) by {
                lemma_listed_step(list@, k as int, requests@[i].entity);
                if i < sent.len() {
                    assert(requests@[i] == sent[i]);
                }
            }
            assert forall|i: int, j: int| 0 <= i < j < requests.len() implies (
            #[trigger] requests@[i]).entity != (#[trigger] requests@[j]).entity by {
                if j < sent.len() {
                    assert(requests@[i] == sent[i] && requests@[j] == sent[j]);
                } else {
                    assert(requests@[i] == sent[i]);
                    assert(listed(list@, k as int, sent[i].entity));
                }
            }
            assert forall|m: int| 0 <= m < k + 1 && (#[trigger] list@[m]).1.node is Some implies exists|
                i: int,
            |
                0 <= i < requests.len() && (#[trigger] requests@[i]).entity == list@[m].0 by {
                if m < k {
                    let i = choose|i: int|
                        0 <= i < sent.len() && (#[trigger] sent[i]).entity == list@[m].0;
                    assert(requests@[i] == sent[i]);
                } else {
                    assert(requests@[requests.len() - 1].entity == list@[m].0);
                }
            }
        }
        k += 1;
    }
    proof {
        let goal = swept(start, want);
        assert forall|id: u64| world@.bodies.dom().contains(id) == goal.dom().contains(id) by {
            lemma_listed_all(list@, start, want, id);
        }
        assert(world@.bodies =~= goal);
        assert forall|id: u64| #[trigger]
            start.dom().contains(id) && due(id, start[id]) is Some implies exists|i: int|
            0 <= i < requests.len() && (#[trigger] requests@[i]).entity == id by {
            let m = choose|m: int| 0 <= m < list.len() && (#[trigger] list@[m]).0 == id;
            assert(start.contains_pair(list@[m].0, list@[m].1));
        }
    }
    requests
}

/// Despawns every creep that holds a node and returns the requests to
/// release those nodes, one for each creep.
pub fn cleanup_mobs(world: &mut GameWorld) -> (requests: Vec<NodeRequest>)
    requires
        old(world).wf(),
    ensures
        final(world).wf(),
        final(world)@ == (WorldView {
            bodies: swept(old(world)@.bodies, shown_mobs()),
            ..old(world)@
        }),
        reports(requests@, old(world)@.bodies, release_due(shown_mobs())),
{
    sweep(
        world,
        Filter { node: true, mob: Some(true), ..Filter::any() },
    )
}

/// Despawns every entity that carries `tag` and returns, for each of them
/// that held a node, the request to release it.
pub fn cleanup_system(world: &mut GameWorld, tag: Tag) -> (requests: Vec<NodeRequest>)
    requires
        old(world).wf(),
    ensures
        final(world).wf(),
        final(world)@ == (WorldView {
            bodies: swept(old(world)@.bodies, tag.bearers()),
            ..old(world)@
        }),
        reports(requests@, old(world)@.bodies, release_due(tag.bearers())),
{
    let want = match tag {
        Tag::Player => Filter { player: Some(true), ..Filter::any() },
        Tag::Mob => Filter { mob: Some(true), ..Filter::any() },
    };
    sweep(world, want)
}

// ---------------------------------------------------------------------------
// sync_entity
// ---------------------------------------------------------------------------

/// The entities that `sync_entity` acts on: those with a pose and a node.
pub open spec fn shown() -> Filter {
    Filter { spatial: true, node: true, ..Filter::everything() }
}

/// Whether an entity has left the play area for good: a creep with a pose
/// and a node whose position lies strictly beyond an edge.
pub open spec fn escaped(b: Body, size: ScreenSize) -> bool {
    &&& b.mob is Some
    &&& b.spatial is Some
    &&& b.node is Some
    &&& outside(b.spatial.unwrap().position, size)
}

/// The bodies without the creeps that have left the play area.
pub open spec fn synced(bodies: Map<u64, Body>, size: ScreenSize) -> Map<u64, Body> {
    bodies.remove_keys(Set::new(|id: u64| bodies.dom().contains(id) && escaped(bodies[id], size)))
}

/// What synchronisation asks of the host for one entity: nothing without a
/// pose and a node; the release of the node of a creep that has left the
/// play area; for any other, that its pose be written to its node.
pub open spec fn sync_due(size: ScreenSize) -> spec_fn(u64, Body) -> Option<NodeRequest> {
    |id: u64, b: Body|
        if b.spatial is Some && b.node is Some {
            Some(
                NodeRequest {
                    entity: id,
                    node: b.node.unwrap(),
                    order: if escaped(b, size) {
                        Order::Release
                    } else {
                        Order::SetPose {
                            position: b.spatial.unwrap().position,
                            rotation: b.spatial.unwrap().rotation,
                        }
                    },
                },
            )
        } else {
            None
        }
}

/// A creep that has left the play area is despawned by synchronisation,
/// and of all the requests made exactly one concerns it or its node: the
/// release of that node.
pub proof fn lemma_escaped_mob_released_once(
    requests: Seq<NodeRequest>,
    bodies: Map<u64, Body>,
    size: ScreenSize,
    id: u64,
)
    requires
        nodes_distinct(bodies),
        reports(requests, bodies, sync_due(size)),
        bodies.dom().contains(id),
        escaped(bodies[id], size),
    ensures
        !synced(bodies, size).dom().contains(id),
        released_once(requests, id, bodies[id].node.unwrap()),
{
    let due = sync_due(size);
    let node = bodies[id].node.unwrap();
    assert(due(id, bodies[id]) is Some);
    let i = choose|i: int| 0 <= i < requests.len() && (#[trigger] requests[i]).entity == id;
    assert(due(requests[i].entity, bodies[requests[i].entity]) == Some(requests[i]));
    assert forall|j: int|
        0 <= j < requests.len() && ((#[trigger] requests[j]).entity == id || requests[j].node
            == node) implies j == i by {
        let e = requests[j].entity;
        assert(due(e, bodies[e]) == Some(requests[j]));
        assert(bodies.dom().contains(e) && bodies.dom().contains(id));
        if e != id {
            assert(bodies[e].node == bodies[id].node);
            assert(false);
        }
        if j < i {
            assert(requests[j].entity != requests[i].entity);
        } else if i < j {
            assert(requests[i].entity != requests[j].entity);
        }
    }
    assert(requests[i] == (NodeRequest { entity: id, node, order: Order::Release }));
}

/// The player is never despawned by synchronisation, and neither is any
/// entity within the play area.
pub proof fn lemma_sync_spares(bodies: Map<u64, Body>, size: ScreenSize, id: u64)
    requires
        bodies.dom().contains(id),
        bodies[id].mob is None || (bodies[id].spatial matches Some(pose) && within(
            pose.position,
            size,
        )),
    ensures
        synced(bodies, size).dom().contains(id),
        synced(bodies, size)[id] == bodies[id],
{
}

/// Brings the host's nodes up to date. Every creep with a pose and a node
/// that has left the play area is despawned, and the release of its node
/// is requested. For every other entity with a pose and a node, the
/// writing of its pose to its node is requested.
pub fn sync_entity(world: &mut GameWorld) -> (requests: Vec<NodeRequest>)
    requires
        old(world).wf(),
        old(world)@.screen_size is Some,
    ensures
        final(world).wf(),
        final(world)@ == (WorldView {
            bodies: synced(old(world)@.bodies, old(world)@.screen_size.unwrap()),
            ..old(world)@
        }),
        reports(requests@, old(world)@.bodies, sync_due(old(world)@.screen_size.unwrap())),
        forall|id: u64| #[trigger]
            old(world)@.bodies.dom().contains(id) && escaped(
                old(world)@.bodies[id],
                old(world)@.screen_size.unwrap(),
            ) ==> !final(world)@.bodies.dom().contains(id) && released_once(
                requests@,
                id,
                old(world)@.bodies[id].node.unwrap(),
            ),
{
    let size = world.screen_size().unwrap();
    let want = Filter { spatial: true, node: true, ..Filter::any() };
    let list = world.query(want);
    let ghost start = world@.bodies;
    let ghost due = sync_due(size);
    let mut requests: Vec<NodeRequest> = Vec::new();
    let mut k: usize = 0;
    while k < list.len()
        invariant
            k <= list.len(),
            world.wf(),
            want == shown(),
            answers(list@, start, want),
            start == old(world)@.bodies,
            due == sync_due(size),
            world@ == (WorldView { bodies: world@.bodies, ..old(world)@ }),
            forall|id: u64|
                #![trigger world@.bodies.dom().contains(id)]
                #![trigger start.dom().contains(id)]
                world@.bodies.dom().contains(id) == (start.dom().contains(id) && !(listed(
                    list@,
                    k as int,
                    id,
                ) && escaped(start[id], size))),
            forall|id: u64| #[trigger]
                world@.bodies.dom().contains(id) ==> world@.bodies[id] == start[id],
            requests.len() == k,
            forall|i: int|
                0 <= i < k ==> (#[trigger] requests@[i]).entity == list@[i].0 && due(
                    list@[i].0,
                    list@[i].1,
                ) == Some(requests@[i]),
        decreases list.len() - k,
    {
        let entry = list[k];
        let ghost sent = requests@;
        proof {
            assert(start.contains_pair(list@[k as int].0, list@[k as int].1));
            lemma_unlisted_before(list@, start, want, k as int);
        }
        let pose = entry.1.spatial.unwrap();
        let node = entry.1.node.unwrap();
        if entry.1.mob.is_some() && is_outside(pose.position, size) {
            world.remove(entry.0);
            requests.push(NodeRequest { entity: entry.0, node, order: Order::Release });
        } else {
            requests.push(
                NodeRequest {
                    entity: entry.0,
                    node,
                    order: Order::SetPose { position: pose.position, rotation: pose.rotation },
                },
            );
        }
        proof {
            assert forall|id: u64|
                #![trigger world@.bodies.dom().contains(id)]
                #![trigger start.dom().contains(id)]
                world@.bodies.dom().contains(id) == (start.dom().contains(id) && !(listed(
                    list@,
                    k + 1,
                    id,
                ) && escaped(start[id], size))) by {
                lemma_listed_step(list@, k as int, id);
            }
            assert forall|i: int| 0 <= i < k + 1 implies (#[trigger] requests@[i]).entity
                == list@[i].0 && due(list@[i].0, list@[i].1) == Some(requests@[i]) by {
                if i < k {
                    assert(requests@[i] == sent[i]);
                }
            }
        }
        k += 1;
    }
    proof {
        let goal = synced(start, size);
        assert forall|id: u64| world@.bodies.dom().contains(id) == goal.dom().contains(id) by {
            lemma_listed_all(list@, start, want, id);
        }
        assert(world@.bodies =~= goal);
        assert forall|i: int| 0 <= i < requests.len() implies start.dom().contains(
            (#[trigger] requests@[i]).entity,
        ) && due(requests@[i].entity, start[requests@[i].entity]) == Some(requests@[i]) by {
            assert(start.contains_pair(list@[i].0, list@[i].1));
        }
        assert forall|i: int, j: int| 0 <= i < j < requests.len() implies (
        #[trigger] requests@[i]).entity != (#[trigger] requests@[j]).entity by {
            assert(list@[i].0 != list@[j].0);
        }
        assert forall|id: u64| #[trigger]
            start.dom().contains(id) && due(id, start[id]) is Some implies exists|i: int|
            0 <= i < requests.len() && (#[trigger] requests@[i]).entity == id by {
            let m = choose|m: int| 0 <= m < list.len() && (#[trigger] list@[m]).0 == id;
            assert(requests@[m].entity == id);
        }
        assert forall|id: u64| #[trigger] start.dom().contains(id) && escaped(start[id], size) implies
            !goal.dom().contains(id) && released_once(requests@, id, start[id].node.unwrap()) by {
            lemma_escaped_mob_released_once(requests@, start, size, id);
        }
    }
    requests
}

// ---------------------------------------------------------------------------
// Systems on the one player
// ---------------------------------------------------------------------------

/// The entity that input steers: the player with a velocity and a speed.
pub open spec fn steered() -> Filter {
    Filter { velocity: true, speed: true, player: Some(true), ..Filter::everything() }
}

/// The entity that a new round puts back: the player with a pose and a
/// node.
pub open spec fn placed() -> Filter {
    Filter { spatial: true, node: true, player: Some(true), ..Filter::everything() }
}

/// The entity whose animation follows its velocity: the player with a
/// velocity, a speed and a node.
pub open spec fn animated() -> Filter {
    Filter { velocity: true, speed: true, node: true, player: Some(true), ..Filter::everything() }
}

/// The world after the queued input has been processed. Without queued
/// events nothing changes. Otherwise the events steer the player, first to
/// last, from the keys that were down and the velocity it had; the queue is
/// left empty.
pub open spec fn after_input(w: WorldView) -> WorldView {
    if w.pending.len() == 0 {
        w
    } else {
        let id = the_single(w.bodies, steered());
        let body = w.bodies[id];
        let end = after_events(
            Steering { keys: w.keys, velocity: body.velocity.unwrap().0 },
            body.speed.unwrap(),
            w.pending,
        );
        WorldView {
            bodies: with_velocity(w.bodies, id, Velocity(end.velocity)),
            keys: end.keys,
            pending: Seq::empty(),
            ..w
        }
    }
}

/// Takes the queued input events and steers the player by them, first to
/// last. Events whose action names no direction steer nothing.
///
/// Where events are queued there must be exactly one player with a
/// velocity and a speed.
pub fn process_player_movement(world: &mut GameWorld)
    requires
        old(world).wf(),
        old(world)@.pending.len() > 0 ==> has_single(old(world)@.bodies, steered()),
    ensures
        final(world).wf(),
        final(world)@ == after_input(old(world)@),
{
    let events = world.drain();
    if events.len() == 0 {
        assert(world@.pending =~= old(world)@.pending);
        return ;
    }
    let want = Filter { velocity: true, speed: true, player: Some(true), ..Filter::any() };
    let entry = world.only(want);
    let begin = Steering { keys: world.keys(), velocity: entry.1.velocity.unwrap().0 };
    let end = apply_events(begin, entry.1.speed.unwrap(), &events);
    world.put(entry.0, Component::Velocity(Velocity(end.velocity)));
    world.set_keys(end.keys);
}

/// Puts the player at `start`, keeping its rotation.
///
/// There must be exactly one player with a pose and a node.
pub fn reset_player_position(world: &mut GameWorld, start: Vector2)
    requires
        old(world).wf(),
        has_single(old(world)@.bodies, placed()),
    ensures
        final(world).wf(),
        final(world)@ == (WorldView {
            bodies: with_spatial(
                old(world)@.bodies,
                the_single(old(world)@.bodies, placed()),
                Spatial {
                    position: start,
                    rotation: old(world)@.bodies[the_single(
                        old(world)@.bodies,
                        placed(),
                    )].spatial.unwrap().rotation,
                },
            ),
            ..old(world)@
        }),
{
    let want = Filter { spatial: true, node: true, player: Some(true), ..Filter::any() };
    let entry = world.only(want);
    let pose = entry.1.spatial.unwrap();
    world.put(
        entry.0,
        Component::Spatial(Spatial { position: start, rotation: pose.rotation }),
    );
}

/// Picks the animation that shows how the player moves, and returns the
/// request to show it on the player's node. Nothing in the world changes.
///
/// There must be exactly one player with a velocity, a speed and a node.
pub fn set_player_animation(world: &mut GameWorld) -> (request: AnimationRequest)
    requires
        old(world).wf(),
        has_single(old(world)@.bodies, animated()),
    ensures
        final(world).wf(),
        final(world)@ == old(world)@,
        request == (AnimationRequest {
            node: old(world)@.bodies[the_single(old(world)@.bodies, animated())].node.unwrap(),
            animation: animation_of(
                old(world)@.bodies[the_single(
                    old(world)@.bodies,
                    animated(),
                )].velocity.unwrap().0,
            ),
        }),
{
    let want = Filter {
        velocity: true,
        speed: true,
        node: true,
        player: Some(true),
        ..Filter::any()
    };
    let entry = world.only(want);
    AnimationRequest {
        node: entry.1.node.unwrap(),
        animation: animation_for(entry.1.velocity.unwrap().0),
    }
}

} // verus!
