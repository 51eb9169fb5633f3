//! The orchestrator: one world, one schedule and the score, driven by the
//! host's callbacks.
//!
//! Every call from the host ends up here as a plain method. What the host
//! has to do in turn comes back as the method's result.

use vstd::prelude::*;
use crate::cast::{
    has_player, lemma_player_is_single, lemma_same_cast_keeps_order, lemma_tick_keeps_cast,
    lemma_tick_walls_player, lemma_writes_keep_cast, player_shaped, players_in_order, the_player,
};
use crate::motion::within;
use crate::outside::lists_all;
use crate::components::{Body, GodotNode, Spatial, Speed, Vector2, Velocity};
use crate::events::{Action, InputEvent};
use crate::requests::{animation_of, released_once, reports, AnimationRequest};
use crate::resources::{Delta, ScreenSize};
use crate::schedule::{AppState, Schedule, TickReport};
use crate::spawn::MobPlan;
use crate::steering::HeldKeys;
use crate::systems::{
    escaped, release_due, reset_player_position, set_player_animation, shown_mobs, sync_due,
};
use crate::world::{
    mob_body, node_in_use, nodes_distinct, player_body, released_by, with_spatial,
    Filter, GameWorld, SpawnError, WorldView,
};

verus! {

/// Why the player could not be put into the world.
#[derive(Copy, Clone, Debug, PartialEq, Eq, Structural)]
pub enum ReadyError {
    /// There is a player already.
    PlayerExists,
    /// The world has used up its budget of spawns.
    Exhausted,
    /// The node handle already belongs to a live entity.
    NodeInUse,
}

/// What the orchestrator holds.
pub ghost struct MainView {
    pub world: WorldView,
    pub schedule: Schedule,
    pub score: i64,
}

/// The orchestrator.
pub struct Main {
    score: i64,
    schedule: Schedule,
    world: GameWorld,
}

impl View for Main {
    type V = MainView;

    closed spec fn view(&self) -> MainView {
        MainView { world: self.world@, schedule: self.schedule, score: self.score }
    }
}

impl Main {
    /// Whether the world inside is in order.
    pub closed spec fn sound(&self) -> bool {
        self.world.wf()
    }

    /// Whether the orchestrator is in order: its world is, no node belongs
    /// to two entities, and there is at most one player, made as a player
    /// should be.
    pub open spec fn wf(&self) -> bool {
        &&& self.sound()
        &&& nodes_distinct(self@.world.bodies)
        &&& players_in_order(self@.world.bodies)
    }

    /// Whether the game can tick: the play area is known and the player is
    /// in the world.
    pub open spec fn ready(&self) -> bool {
        self@.world.screen_size is Some && has_player(self@.world.bodies)
    }

    /// Makes an orchestrator for a game that waits in the main menu, with
    /// an empty world and no score.
    pub fn new() -> (main: Main)
        ensures
            main.wf(),
            !main.ready(),
            main@.world.bodies == Map::<u64, Body>::empty(),
            main@.world.pending == Seq::<InputEvent>::empty(),
            main@.world.screen_size == None::<ScreenSize>,
            main@.world.delta == Delta(0),
            main@.world.keys == HeldKeys::none(),
            main@.world.spawned == 0,
            main@.world.budget == u32::MAX,
            main@.schedule == (Schedule { state: AppState::MainMenu, seen: AppState::MainMenu }),
            main@.score == 0,
    {
        Main::with_budget(u32::MAX)
    }

    /// Makes an orchestrator as `new` does, but one whose world will spawn
    /// no more than `budget` entities over its life.
    pub fn with_budget(budget: u32) -> (main: Main)
        ensures
            main.wf(),
            !main.ready(),
            main@.world.bodies == Map::<u64, Body>::empty(),
            main@.world.pending == Seq::<InputEvent>::empty(),
            main@.world.screen_size == None::<ScreenSize>,
            main@.world.delta == Delta(0),
            main@.world.keys == HeldKeys::none(),
            main@.world.spawned == 0,
            main@.world.budget == budget,
            main@.schedule == (Schedule { state: AppState::MainMenu, seen: AppState::MainMenu }),
            main@.score == 0,
    {
        Main {
            score: 0,
            schedule: Schedule::new(AppState::MainMenu),
            world: GameWorld::with_budget(budget),
        }
    }

    /// Returns the score.
    pub fn score(&self) -> (score: i64)
        ensures
            score == self@.score,
    {
        self.score
    }

    /// Returns the state the game is in.
    pub fn state(&self) -> (state: AppState)
        ensures
            state == self@.schedule.state,
    {
        self.schedule.state
    }

    /// Tells whether the game can tick.
    pub fn is_ready(&mut self) -> (ready: bool)
        requires
            old(self).wf(),
        ensures
            final(self).wf(),
            final(self)@ == old(self)@,
            ready == old(self).ready(),
    {
        if self.world.screen_size().is_none() {
            return false;
        }
        self.any_player()
    }

    /// Tells whether there is a player in the world.
    fn any_player(&mut self) -> (found: bool)
        requires
            old(self).wf(),
        ensures
            final(self).wf(),
            final(self)@ == old(self)@,
            found == has_player(old(self)@.world.bodies),
    {
        let want = Filter { player: Some(true), ..Filter::any() };
        let list = self.world.query(want);
        proof {
            let bodies = self@.world.bodies;
            if list.len() > 0 {
                assert(bodies.contains_pair(list@[0].0, list@[0].1));
                assert(bodies.dom().contains(list@[0].0));
            }
            if has_player(bodies) {
                let p = the_player(bodies);
                assert(bodies.dom().contains(p) && want.matches(bodies[p]));
            }
        }
        list.len() > 0
    }

    /// Lists every entity once, with its body. The order is not fixed.
    pub fn entities(&mut self) -> (list: Vec<(u64, Body)>)
        requires
            old(self).wf(),
        ensures
            final(self).wf(),
            final(self)@ == old(self)@,
            lists_all(list@, old(self)@.world.bodies),
    {
        self.world.entities()
    }

    /// Looks an entity up: its body, or `None` if no entity has this id.
    pub fn body(&mut self, id: u64) -> (found: Option<Body>)
        requires
            old(self).wf(),
        ensures
            final(self).wf(),
            final(self)@ == old(self)@,
            found == if old(self)@.world.bodies.dom().contains(id) {
                Some(old(self)@.world.bodies[id])
            } else {
                None
            },
    {
        self.world.body(id)
    }

    /// The host is ready: puts the player into the world, at `start` and
    /// at rest, shown by `node`, and takes note of the play area.
    ///
    /// Fails, and changes nothing, with `PlayerExists` if there is a player
    /// already; else with `Exhausted` if the world has used up its budget
    /// of spawns; else with `NodeInUse` if a live entity holds `node`.
    pub fn _ready(
        &mut self,
        start: Vector2,
        speed: Speed,
        node: GodotNode,
        size: ScreenSize,
    ) -> (made: Result<u64, ReadyError>)
        requires
            old(self).wf(),
        ensures
            final(self).wf(),
            match made {
                Ok(id) => {
                    &&& !has_player(old(self)@.world.bodies)
                    &&& old(self)@.world.spawned < old(self)@.world.budget
                    &&& !node_in_use(old(self)@.world.bodies, node)
                    &&& !old(self)@.world.bodies.dom().contains(id)
                    &&& final(self).ready()
                    &&& final(self)@ == (MainView {
                        world: WorldView {
                            bodies: old(self)@.world.bodies.insert(
                                id,
                                player_body(
                                    Spatial { position: start, rotation: 0 },
                                    Velocity(Vector2 { x: 0, y: 0 }),
                                    speed,
                                    node,
                                ),
                            ),
                            spawned: old(self)@.world.spawned + 1,
                            screen_size: Some(size),
                            ..old(self)@.world
                        },
                        ..old(self)@
                    })
                },
                Err(ReadyError::PlayerExists) => {
                    &&& has_player(old(self)@.world.bodies)
                    &&& final(self)@ == old(self)@
                },
                Err(ReadyError::Exhausted) => {
                    &&& !has_player(old(self)@.world.bodies)
                    &&& old(self)@.world.spawned >= old(self)@.world.budget
                    &&& final(self)@ == old(self)@
                },
                Err(ReadyError::NodeInUse) => {
                    &&& !has_player(old(self)@.world.bodies)
                    &&& old(self)@.world.spawned < old(self)@.world.budget
                    &&& node_in_use(old(self)@.world.bodies, node)
                    &&& final(self)@ == old(self)@
                },
            },
    {
        if self.any_player() {
            return Err(ReadyError::PlayerExists);
        }
        let ghost before = self@.world.bodies;
        match self.world.spawn_player(Spatial { position: start, rotation: 0 }, speed, node) {
            Ok(id) => {
                self.world.insert_screen_size(size);
                proof {
                    let after = self@.world.bodies;
                    assert(after.dom().contains(id) && after[id].player is Some);
                    assert forall|a: u64, b: u64|
                        #![trigger after.dom().contains(a), after.dom().contains(b)]
                        after.dom().contains(a) && after.dom().contains(b) && after[a].player
                            is Some && after[b].player is Some implies a == b by {
                        if a != id {
                            assert(before.dom().contains(a));
                        }
                        if b != id {
                            assert(before.dom().contains(b));
                        }
                    }
                    assert forall|e: u64| #[trigger] after.dom().contains(e) implies player_shaped(
                        after[e],
                    ) by {
                        if e != id {
                            assert(before.dom().contains(e));
                        }
                    }
                }
                Ok(id)
            },
            Err(SpawnError::Exhausted) => Err(ReadyError::Exhausted),
            Err(SpawnError::NodeInUse) => Err(ReadyError::NodeInUse),
        }
    }

    /// The host reports input: queues the press or the release of
    /// `action`.
    pub fn _input(&mut self, action: &'static str, pressed: bool)
        requires
            old(self).wf(),
        ensures
            final(self).wf(),
            final(self).ready() == old(self).ready(),
            final(self)@ == (MainView {
                world: WorldView {
                    pending: old(self)@.world.pending.push(
                        InputEvent(
                            if pressed {
                                Action::Pressed(action)
                            } else {
                                Action::Released(action)
                            },
                        ),
                    ),
                    ..old(self)@.world
                },
                ..old(self)@
            }),
    {
        if pressed {
            self.world.emit(InputEvent(Action::Pressed(action)));
        } else {
            self.world.emit(InputEvent(Action::Released(action)));
        }
    }

    /// The world as a tick of length `dt` finds it.
    pub open spec fn at_tick(self, dt: Delta) -> WorldView {
        WorldView { delta: dt, ..self@.world }
    }

    /// The host ticks: `dt` has passed since the last tick. Takes note of
    /// it and runs the schedule once. Returns what the host is to do.
    ///
    /// The game must be ready.
    pub fn _physics_process(&mut self, dt: Delta) -> (report: TickReport)
        requires
            old(self).wf(),
            old(self).ready(),
        ensures
            final(self).wf(),
            final(self).ready(),
            final(self)@ == (MainView {
                world: old(self)@.schedule.after_tick(old(self).at_tick(dt)),
                schedule: old(self)@.schedule.driven(),
                score: old(self)@.score,
            }),
            report.transition == old(self)@.schedule.pending(),
            old(self)@.schedule.enters_round() ==> reports(
                report.cleared@,
                old(self)@.schedule.at_clearing(old(self).at_tick(dt)),
                release_due(shown_mobs()),
            ),
            !old(self)@.schedule.enters_round() ==> report.cleared@.len() == 0,
            reports(
                report.synced@,
                old(self)@.schedule.at_sync(old(self).at_tick(dt)),
                sync_due(old(self)@.world.screen_size.unwrap()),
            ),
            forall|id: u64| #[trigger]
                old(self)@.schedule.at_sync(old(self).at_tick(dt)).dom().contains(id) && escaped(
                    old(self)@.schedule.at_sync(old(self).at_tick(dt))[id],
                    old(self)@.world.screen_size.unwrap(),
                ) ==> !final(self)@.world.bodies.dom().contains(id) && released_once(
                    report.synced@,
                    id,
                    old(self)@.schedule.at_sync(old(self).at_tick(dt))[id].node.unwrap(),
                ),
            old(self)@.schedule.in_round() && 0 <= old(self)@.world.screen_size.unwrap().0.x && 0
                <= old(self)@.world.screen_size.unwrap().0.y ==> within(
                final(self)@.world.bodies[the_player(
                    old(self)@.world.bodies,
                )].spatial.unwrap().position,
                old(self)@.world.screen_size.unwrap(),
            ),
    {
        self.world.clear_trackers();
        self.world.insert_delta(dt);
        proof {
            let w = self@.world;
            lemma_player_is_single(w.bodies);
            lemma_tick_keeps_cast(self.schedule, w);
            lemma_same_cast_keeps_order(w.bodies, self.schedule.after_tick(w).bodies);
            if self.schedule.in_round() && 0 <= w.screen_size.unwrap().0.x && 0
                <= w.screen_size.unwrap().0.y {
                lemma_tick_walls_player(self.schedule, w);
            }
        }
        self.schedule.run(&mut self.world)
    }

    /// The round is over: the game goes back to the main menu.
    pub fn game_over(&mut self)
        requires
            old(self).wf(),
        ensures
            final(self).wf(),
            final(self).ready() == old(self).ready(),
            final(self)@ == (MainView {
                schedule: Schedule { state: AppState::MainMenu, seen: old(self)@.schedule.seen },
                ..old(self)@
            }),
    {
        self.schedule.set_state(AppState::MainMenu);
    }

    /// A round starts: the game goes into `InGame`, the score starts from
    /// zero, and the player is put back at `start`.
    ///
    /// The game must be ready.
    pub fn new_game(&mut self, start: Vector2)
        requires
            old(self).wf(),
            old(self).ready(),
        ensures
            final(self).wf(),
            final(self).ready(),
            final(self)@ == (MainView {
                world: WorldView {
                    bodies: with_spatial(
                        old(self)@.world.bodies,
                        the_player(old(self)@.world.bodies),
                        Spatial {
                            position: start,
                            rotation: old(self)@.world.bodies[the_player(
                                old(self)@.world.bodies,
                            )].spatial.unwrap().rotation,
                        },
                    ),
                    ..old(self)@.world
                },
                schedule: Schedule { state: AppState::InGame, seen: old(self)@.schedule.seen },
                score: 0,
            }),
    {
        proof {
            let bodies = self@.world.bodies;
            lemma_player_is_single(bodies);
            let p = the_player(bodies);
            assert(player_shaped(bodies[p]));
            lemma_writes_keep_cast(
                bodies,
                p,
                Spatial { position: start, rotation: bodies[p].spatial.unwrap().rotation },
                arbitrary(),
            );
            lemma_same_cast_keeps_order(
                bodies,
                with_spatial(
                    bodies,
                    p,
                    Spatial { position: start, rotation: bodies[p].spatial.unwrap().rotation },
                ),
            );
        }
        self.schedule.set_state(AppState::InGame);
        self.score = 0;
        reset_player_position(&mut self.world, start);
    }

    /// The score timer fired: the score goes up by one. Returns the new
    /// score.
    ///
    /// The score must be below the largest that can be counted.
    pub fn on_score_timer_timeout(&mut self) -> (score: i64)
        requires
            old(self).wf(),
            old(self)@.score < i64::MAX,
        ensures
            final(self).wf(),
            final(self).ready() == old(self).ready(),
            score == old(self)@.score + 1,
            final(self)@ == (MainView { score, ..old(self)@ }),
    {
        self.score = self.score + 1;
        self.score
    }

    /// The spawn timer fired: draws what the next creep is to be like.
    /// Whatever is drawn is in range; nothing in the game changes yet.
    pub fn on_mob_timer_timeout(&self) -> (plan: MobPlan)
        ensures
            plan.in_range(),
    {
        MobPlan::draw()
    }

    /// Puts a creep into the world, with the pose and velocity at which the
    /// host has placed its node.
    ///
    /// Fails, and changes nothing, with `Exhausted` if the world has used
    /// up its budget of spawns, else with `NodeInUse` if a live entity holds
    /// `node`.
    pub fn spawn_mob(&mut self, pose: Spatial, velocity: Velocity, node: GodotNode) -> (made:
        Result<u64, SpawnError>)
        requires
            old(self).wf(),
        ensures
            final(self).wf(),
            final(self).ready() == old(self).ready(),
            match made {
                Ok(id) => {
                    &&& old(self)@.world.spawned < old(self)@.world.budget
                    &&& !node_in_use(old(self)@.world.bodies, node)
                    &&& !old(self)@.world.bodies.dom().contains(id)
                    &&& final(self)@ == (MainView {
                        world: WorldView {
                            bodies: old(self)@.world.bodies.insert(
                                id,
                                mob_body(pose, velocity, node),
                            ),
                            spawned: old(self)@.world.spawned + 1,
                            ..old(self)@.world
                        },
                        ..old(self)@
                    })
                },
                Err(SpawnError::Exhausted) => {
                    &&& old(self)@.world.spawned >= old(self)@.world.budget
                    &&& final(self)@ == old(self)@
                },
                Err(SpawnError::NodeInUse) => old(self)@.world.spawned < old(self)@.world.budget && node_in_use(
                    old(self)@.world.bodies,
                    node,
                ) && final(self)@ == old(self)@,
            },
    {
        let ghost before = self@.world.bodies;
        let made = self.world.spawn_mob(pose, velocity, node);
        proof {
            if let Ok(id) = made {
                let after = self@.world.bodies;
                assert forall|a: u64, b: u64|
                    #![trigger after.dom().contains(a), after.dom().contains(b)]
                    after.dom().contains(a) && after.dom().contains(b) && after[a].player
                        is Some && after[b].player is Some implies a == b by {
                    assert(before.dom().contains(a) && before.dom().contains(b));
                }
                assert forall|e: u64| #[trigger] after.dom().contains(e) implies player_shaped(
                    after[e],
                ) by {
                    if e != id {
                        assert(before.dom().contains(e));
                    }
                }
                if has_player(before) {
                    let p = the_player(before);
                    assert(after.dom().contains(p) && after[p].player is Some);
                }
                if has_player(after) {
                    let p = the_player(after);
                    assert(before.dom().contains(p) && before[p].player is Some);
                }
            }
        }
        made
    }

    /// Despawns entity `id` and hands out the node handle it held, which
    /// the caller must now ask the host to release. Where no entity has
    /// this id nothing changes and nothing is to be released.
    pub fn despawn(&mut self, id: u64) -> (release: Option<GodotNode>)
        requires
            old(self).wf(),
        ensures
            final(self).wf(),
            final(self)@ == (MainView {
                world: WorldView {
                    bodies: old(self)@.world.bodies.remove(id),
                    ..old(self)@.world
                },
                ..old(self)@
            }),
            release == released_by(old(self)@.world.bodies, id),
    {
        let ghost before = self@.world.bodies;
        let release = self.world.despawn(id);
        proof {
            let after = self@.world.bodies;
            assert forall|a: u64, b: u64|
                #![trigger after.dom().contains(a), after.dom().contains(b)]
                after.dom().contains(a) && after.dom().contains(b) && after[a].player is Some
                    && after[b].player is Some implies a == b by {
                assert(before.dom().contains(a) && before.dom().contains(b));
            }
            assert forall|e: u64| #[trigger] after.dom().contains(e) implies player_shaped(
                after[e],
            ) by {
                assert(before.dom().contains(e));
            }
        }
        release
    }

    /// The host has found the node of entity `entity` gone: freed behind
    /// the simulation's back. Nothing can be written to it, so the pose is
    /// skipped, and the entity is despawned lest it linger without a node.
    /// Returns the handle that the host is to forget; there is nothing left
    /// to release. Where no entity has this id nothing changes.
    pub fn node_missing(&mut self, entity: u64) -> (forget: Option<GodotNode>)
        requires
            old(self).wf(),
        ensures
            final(self).wf(),
            final(self)@ == (MainView {
                world: WorldView {
                    bodies: old(self)@.world.bodies.remove(entity),
                    ..old(self)@.world
                },
                ..old(self)@
            }),
            forget == released_by(old(self)@.world.bodies, entity),
    {
        self.despawn(entity)
    }

    /// Picks the animation that shows how the player moves, and returns
    /// the request to show it on the player's node.
    ///
    /// The game must be ready.
    pub fn set_player_animation(&mut self) -> (request: AnimationRequest)
        requires
            old(self).wf(),
            old(self).ready(),
        ensures
            final(self).wf(),
            final(self)@ == old(self)@,
            request == (AnimationRequest {
                node: old(self)@.world.bodies[the_player(old(self)@.world.bodies)].node.unwrap(),
                animation: animation_of(
                    old(self)@.world.bodies[the_player(
                        old(self)@.world.bodies,
                    )].velocity.unwrap().0,
                ),
            }),
    {
        proof {
            lemma_player_is_single(self@.world.bodies);
        }
        set_player_animation(&mut self.world)
    }
}

} // verus!
