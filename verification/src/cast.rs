//! Who is in the world: the rules that the game keeps about its entities,
//! and why the systems keep them too.
//!
//! The storage would hold any number of players of any make. The game
//! spawns at most one, with everything a player needs, and nothing it does
//! afterwards takes that away.

use vstd::prelude::*;
use crate::components::{Body, Spatial, Velocity};
use crate::motion::within;
use crate::requests::{released_once, reports, NodeRequest};
use crate::resources::{Delta, ScreenSize};
use crate::schedule::Schedule;
use crate::systems::{
    after_input, animated, escaped, lemma_escaped_mob_released_once, moved_bodies, placed,
    shown_mobs, steered, swept, sync_due, synced,
};
use crate::world::{
    has_single, is_single, lemma_single_is_the_single, nodes_distinct, the_single, with_spatial,
    with_velocity, WorldView,
};

verus! {

/// Whether a body is in order as far as the player goes: if it carries the
/// `Player` tag it has a pose, a velocity, a speed and a node, and is no
/// creep.
pub open spec fn player_shaped(b: Body) -> bool {
    b.player is Some ==> {
        &&& b.spatial is Some
        &&& b.velocity is Some
        &&& b.speed is Some
        &&& b.node is Some
        &&& b.mob is None
    }
}

/// Whether the players among `bodies` are in order: there is at most one,
/// and it is made as a player should be.
pub open spec fn players_in_order(bodies: Map<u64, Body>) -> bool {
    &&& forall|id: u64| #[trigger] bodies.dom().contains(id) ==> player_shaped(bodies[id])
    &&& forall|a: u64, b: u64|
        #![trigger bodies.dom().contains(a), bodies.dom().contains(b)]
        bodies.dom().contains(a) && bodies.dom().contains(b) && bodies[a].player is Some
            && bodies[b].player is Some ==> a == b
}

/// Whether there is a player among `bodies`.
pub open spec fn has_player(bodies: Map<u64, Body>) -> bool {
    exists|id: u64| #[trigger] bodies.dom().contains(id) && bodies[id].player is Some
}

/// The player among `bodies`.
pub open spec fn the_player(bodies: Map<u64, Body>) -> u64 {
    choose|id: u64| #[trigger] bodies.dom().contains(id) && bodies[id].player is Some
}

/// Where the players are in order and there is one, it is the one entity
/// that each of the systems on the player looks for.
pub proof fn lemma_player_is_single(bodies: Map<u64, Body>)
    requires
        players_in_order(bodies),
        has_player(bodies),
    ensures
        has_single(bodies, steered()),
        has_single(bodies, placed()),
        has_single(bodies, animated()),
        the_single(bodies, steered()) == the_player(bodies),
        the_single(bodies, placed()) == the_player(bodies),
        the_single(bodies, animated()) == the_player(bodies),
        bodies.dom().contains(the_player(bodies)),
        bodies[the_player(bodies)].player is Some,
{
    let p = the_player(bodies);
    assert(bodies.dom().contains(p) && bodies[p].player is Some);
    assert(player_shaped(bodies[p]));
    assert(is_single(bodies, steered(), p)) by {
        assert forall|other: u64| #[trigger]
            bodies.dom().contains(other) && steered().matches(bodies[other]) implies other
            == p by {
            assert(bodies.dom().contains(other) && bodies.dom().contains(p));
        }
    }
    assert(is_single(bodies, placed(), p)) by {
        assert forall|other: u64| #[trigger]
            bodies.dom().contains(other) && placed().matches(bodies[other]) implies other
            == p by {
            assert(bodies.dom().contains(other) && bodies.dom().contains(p));
        }
    }
    assert(is_single(bodies, animated(), p)) by {
        assert forall|other: u64| #[trigger]
            bodies.dom().contains(other) && animated().matches(bodies[other]) implies other
            == p by {
            assert(bodies.dom().contains(other) && bodies.dom().contains(p));
        }
    }
    lemma_single_is_the_single(bodies, steered(), p);
    lemma_single_is_the_single(bodies, placed(), p);
    lemma_single_is_the_single(bodies, animated(), p);
}

/// Whether `after` has the entities of `before` or fewer, each with the
/// tags, node and components it had, but for what its pose and velocity
/// hold; and has lost no entity that is not a creep.
pub open spec fn same_cast(before: Map<u64, Body>, after: Map<u64, Body>) -> bool {
    &&& forall|id: u64| #[trigger]
        after.dom().contains(id) ==> before.dom().contains(id) && alike(before[id], after[id])
    &&& forall|id: u64| #[trigger]
        before.dom().contains(id) && before[id].mob is None ==> after.dom().contains(id)
}

/// Whether two bodies differ at most in what their pose and velocity hold.
pub open spec fn alike(a: Body, b: Body) -> bool {
    &&& (a.spatial is Some) == (b.spatial is Some)
    &&& (a.velocity is Some) == (b.velocity is Some)
    &&& a.speed == b.speed
    &&& a.node == b.node
    &&& a.player == b.player
    &&& a.mob == b.mob
}

/// A world with the same cast keeps its player, the order among its
/// players and the distinctness of its nodes.
pub proof fn lemma_same_cast_keeps_order(before: Map<u64, Body>, after: Map<u64, Body>)
    requires
        same_cast(before, after),
    ensures
        players_in_order(before) ==> players_in_order(after),
        players_in_order(before) && has_player(before) ==> has_player(after),
        nodes_distinct(before) ==> nodes_distinct(after),
{
    if players_in_order(before) {
        assert forall|id: u64| #[trigger] after.dom().contains(id) implies player_shaped(
            after[id],
        ) by {
            assert(before.dom().contains(id));
        }
        assert forall|a: u64, b: u64|
            #![trigger after.dom().contains(a), after.dom().contains(b)]
            after.dom().contains(a) && after.dom().contains(b) && after[a].player is Some
                && after[b].player is Some implies a == b by {
            assert(before.dom().contains(a) && before.dom().contains(b));
        }
        if has_player(before) {
            let p = the_player(before);
            assert(before.dom().contains(p) && player_shaped(before[p]));
            assert(after.dom().contains(p));
        }
    }
    if nodes_distinct(before) {
        assert forall|a: u64, b: u64|
            #![trigger after.dom().contains(a), after.dom().contains(b)]
            after.dom().contains(a) && after.dom().contains(b) && a != b && after[a].node
                is Some implies after[a].node != after[b].node by {
            assert(before.dom().contains(a) && before.dom().contains(b));
        }
    }
}

/// Having the same cast carries over from step to step.
pub proof fn lemma_same_cast_chains(a: Map<u64, Body>, b: Map<u64, Body>, c: Map<u64, Body>)
    requires
        same_cast(a, b),
        same_cast(b, c),
    ensures
        same_cast(a, c),
{
    assert forall|id: u64| #[trigger] c.dom().contains(id) implies a.dom().contains(id) && alike(
        a[id],
        c[id],
    ) by {
        assert(b.dom().contains(id));
    }
    assert forall|id: u64| #[trigger] a.dom().contains(id) && a[id].mob is None implies c.dom().contains(
        id,
    ) by {
        assert(b.dom().contains(id));
    }
}

/// Writing a pose or a velocity to an entity leaves the cast as it is.
pub proof fn lemma_writes_keep_cast(bodies: Map<u64, Body>, id: u64, pose: Spatial, rate: Velocity)
    ensures
        bodies.dom().contains(id) && bodies[id].spatial is Some ==> same_cast(
            bodies,
            with_spatial(bodies, id, pose),
        ),
        bodies.dom().contains(id) && bodies[id].velocity is Some ==> same_cast(
            bodies,
            with_velocity(bodies, id, rate),
        ),
        same_cast(bodies, bodies),
{
}

/// Sweeping creeps away, moving and synchronising each leave the cast as
/// it is.
pub proof fn lemma_systems_keep_cast(bodies: Map<u64, Body>, delta: Delta, size: ScreenSize)
    ensures
        same_cast(bodies, swept(bodies, shown_mobs())),
        same_cast(bodies, moved_bodies(bodies, delta, size)),
        same_cast(bodies, synced(bodies, size)),
{
}

/// Processing input leaves the cast as it is.
pub proof fn lemma_input_keeps_cast(w: WorldView)
    requires
        w.pending.len() > 0 ==> has_single(w.bodies, steered()),
    ensures
        same_cast(w.bodies, after_input(w).bodies),
{
    if w.pending.len() > 0 {
        let id = the_single(w.bodies, steered());
        assert(is_single(w.bodies, steered(), id));
    }
}

/// A whole tick leaves the cast as it is, and so does every stage of it.
pub proof fn lemma_tick_keeps_cast(s: Schedule, w: WorldView)
    requires
        w.screen_size is Some,
        w.pending.len() > 0 ==> has_single(w.bodies, steered()),
    ensures
        same_cast(w.bodies, s.at_clearing(w)),
        same_cast(w.bodies, s.at_sync(w)),
        same_cast(w.bodies, s.after_tick(w).bodies),
{
    let size = w.screen_size.unwrap();
    let steered = after_input(w).bodies;
    lemma_input_keeps_cast(w);
    let cleared = if s.enters_round() { swept(steered, shown_mobs()) } else { steered };
    lemma_systems_keep_cast(steered, w.delta, size);
    lemma_writes_keep_cast(steered, 0, arbitrary(), arbitrary());
    lemma_same_cast_chains(w.bodies, steered, cleared);
    let moved = if s.in_round() { moved_bodies(cleared, w.delta, size) } else { cleared };
    lemma_systems_keep_cast(cleared, w.delta, size);
    lemma_writes_keep_cast(cleared, 0, arbitrary(), arbitrary());
    lemma_same_cast_chains(w.bodies, cleared, moved);
    lemma_systems_keep_cast(moved, w.delta, size);
    lemma_same_cast_chains(w.bodies, moved, synced(moved, size));
}

/// A creep that movement has carried out of the play area does not outlive
/// the tick. Synchronisation, which runs last and finds the creep where
/// movement left it, despawns it; and of all that it asks of the host
/// exactly one request concerns the creep or its node: the release of that
/// node.
pub proof fn lemma_tick_releases_escaped_mob(
    s: Schedule,
    w: WorldView,
    synced: Seq<NodeRequest>,
    id: u64,
)
    requires
        nodes_distinct(w.bodies),
        w.screen_size is Some,
        w.pending.len() > 0 ==> has_single(w.bodies, steered()),
        reports(synced, s.at_sync(w), sync_due(w.screen_size.unwrap())),
        s.at_sync(w).dom().contains(id),
        escaped(s.at_sync(w)[id], w.screen_size.unwrap()),
    ensures
        !s.after_tick(w).bodies.dom().contains(id),
        released_once(synced, id, s.at_sync(w)[id].node.unwrap()),
{
    lemma_tick_keeps_cast(s, w);
    lemma_same_cast_keeps_order(w.bodies, s.at_sync(w));
    lemma_escaped_mob_released_once(synced, s.at_sync(w), w.screen_size.unwrap(), id);
}

/// During a round the player ends every tick within the play area,
/// wherever it was, whatever was pressed and however long the tick,
/// provided the play area has no negative extent.
pub proof fn lemma_tick_walls_player(s: Schedule, w: WorldView)
    requires
        players_in_order(w.bodies),
        has_player(w.bodies),
        w.screen_size is Some,
        0 <= w.screen_size.unwrap().0.x,
        0 <= w.screen_size.unwrap().0.y,
        s.in_round(),
    ensures
        s.after_tick(w).bodies.dom().contains(the_player(w.bodies)),
        s.after_tick(w).bodies[the_player(w.bodies)].spatial is Some,
        within(
            s.after_tick(w).bodies[the_player(w.bodies)].spatial.unwrap().position,
            w.screen_size.unwrap(),
        ),
{
    let size = w.screen_size.unwrap();
    let p = the_player(w.bodies);
    lemma_player_is_single(w.bodies);
    assert(player_shaped(w.bodies[p]));
    let steered = after_input(w).bodies;
    lemma_input_keeps_cast(w);
    assert(steered.dom().contains(p));
    assert(alike(w.bodies[p], steered[p]));
    let cleared = if s.enters_round() { swept(steered, shown_mobs()) } else { steered };
    assert(cleared.dom().contains(p) && cleared[p] == steered[p]);
    let moved = moved_bodies(cleared, w.delta, size);
    assert(moved.dom().contains(p));
    assert(within(moved[p].spatial.unwrap().position, size));
    assert(synced(moved, size).dom().contains(p));
}

} // verus!
