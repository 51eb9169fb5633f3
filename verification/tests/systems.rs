use dodge_the_creeps::components::{Component, GodotNode, Spatial, Speed, Vector2, Velocity};
use dodge_the_creeps::events::{Action, InputEvent};
use dodge_the_creeps::requests::{Animation, AnimationRequest, Clip, NodeRequest, Order};
use dodge_the_creeps::resources::{Delta, ScreenSize};
use dodge_the_creeps::steering::HeldKeys;
use dodge_the_creeps::systems::{
    cleanup_mobs, cleanup_system, movement, process_player_movement, reset_player_position,
    set_player_animation, sync_entity, Tag,
};
use dodge_the_creeps::world::{Filter, GameWorld};

fn pose(x: i64, y: i64) -> Spatial {
    Spatial { position: Vector2 { x, y }, rotation: 0 }
}

fn rate(x: i64, y: i64) -> Velocity {
    Velocity(Vector2 { x, y })
}

fn world_800_by_600() -> GameWorld {
    let mut world = GameWorld::new();
    world.insert_screen_size(ScreenSize(Vector2 { x: 800_000, y: 600_000 }));
    world.insert_delta(Delta(100_000));
    world
}

fn sorted(mut requests: Vec<NodeRequest>) -> Vec<NodeRequest> {
    requests.sort_by_key(|r| r.node.0);
    requests
}

#[test]
fn movement_integrates_velocity() {
    let mut world = world_800_by_600();
    let mob = world.spawn_mob(pose(100_000, 100_000), rate(200_000, -100_000), GodotNode(1)).unwrap();
    movement(&mut world);
    assert_eq!(world.body(mob).unwrap().spatial, Some(pose(120_000, 90_000)));
    movement(&mut world);
    assert_eq!(world.body(mob).unwrap().spatial, Some(pose(140_000, 80_000)));
}

#[test]
fn movement_lets_mobs_leave_the_play_area() {
    let mut world = world_800_by_600();
    let mob = world.spawn_mob(pose(790_000, 5_000), rate(200_000, -100_000), GodotNode(1)).unwrap();
    movement(&mut world);
    assert_eq!(world.body(mob).unwrap().spatial, Some(pose(810_000, -5_000)));
}

#[test]
fn movement_holds_the_player_within_the_play_area() {
    let mut world = world_800_by_600();
    let player = world.spawn_player(pose(790_000, 5_000), Speed(450_000), GodotNode(1)).unwrap();
    world.insert(player, Component::Velocity(rate(450_000, -450_000))).unwrap();
    movement(&mut world);
    assert_eq!(world.body(player).unwrap().spatial, Some(pose(800_000, 0)));
    world.insert(player, Component::Velocity(rate(-450_000, 450_000))).unwrap();
    world.insert_delta(Delta(u32::MAX));
    movement(&mut world);
    assert_eq!(world.body(player).unwrap().spatial, Some(pose(0, 600_000)));
}

#[test]
fn movement_pulls_a_player_back_that_starts_outside() {
    let mut world = world_800_by_600();
    let player = world.spawn_player(pose(-50_000, 900_000), Speed(450_000), GodotNode(1)).unwrap();
    world.insert_delta(Delta(0));
    movement(&mut world);
    assert_eq!(world.body(player).unwrap().spatial, Some(pose(0, 600_000)));
}

#[test]
fn movement_keeps_everything_but_the_position() {
    let mut world = world_800_by_600();
    let mob = world
        .spawn_mob(Spatial { position: Vector2 { x: 1, y: 2 }, rotation: 314 }, rate(1_000_000, 0), GodotNode(9))
        .unwrap();
    let before = world.body(mob).unwrap();
    movement(&mut world);
    let after = world.body(mob).unwrap();
    assert_eq!(after.spatial.unwrap().rotation, 314);
    assert_eq!(after.spatial.unwrap().position, Vector2 { x: 100_001, y: 2 });
    assert_eq!(after.velocity, before.velocity);
    assert_eq!(after.node, before.node);
    assert_eq!(after.mob, before.mob);
    assert_eq!(after.player, before.player);
    assert_eq!(world.delta(), Delta(100_000));
}

#[test]
fn sync_writes_the_pose_of_what_is_inside() {
    let mut world = world_800_by_600();
    let mob = world
        .spawn_mob(Spatial { position: Vector2 { x: 800_000, y: 0 }, rotation: 5 }, rate(1, 1), GodotNode(4))
        .unwrap();
    let requests = sync_entity(&mut world);
    assert_eq!(
        requests,
        vec![NodeRequest {
            entity: mob,
            node: GodotNode(4),
            order: Order::SetPose { position: Vector2 { x: 800_000, y: 0 }, rotation: 5 },
        }]
    );
    assert!(world.body(mob).is_some());
}

#[test]
fn sync_despawns_a_mob_that_is_outside() {
    let mut world = world_800_by_600();
    let inside = world.spawn_mob(pose(10, 10), rate(0, 0), GodotNode(1)).unwrap();
    let right = world.spawn_mob(pose(800_001, 10), rate(0, 0), GodotNode(2)).unwrap();
    let left = world.spawn_mob(pose(-1, 10), rate(0, 0), GodotNode(3)).unwrap();
    let below = world.spawn_mob(pose(10, 600_001), rate(0, 0), GodotNode(4)).unwrap();
    let above = world.spawn_mob(pose(10, -1), rate(0, 0), GodotNode(5)).unwrap();
    let requests = sorted(sync_entity(&mut world));
    assert_eq!(
        requests,
        vec![
            NodeRequest {
                entity: inside,
                node: GodotNode(1),
                order: Order::SetPose { position: Vector2 { x: 10, y: 10 }, rotation: 0 },
            },
            NodeRequest { entity: right, node: GodotNode(2), order: Order::Release },
            NodeRequest { entity: left, node: GodotNode(3), order: Order::Release },
            NodeRequest { entity: below, node: GodotNode(4), order: Order::Release },
            NodeRequest { entity: above, node: GodotNode(5), order: Order::Release },
        ]
    );
    assert_eq!(world.entities().len(), 1);
    assert!(world.body(inside).is_some());
    // A second pass has nothing left to release.
    let again = sync_entity(&mut world);
    assert_eq!(again.len(), 1);
    assert!(matches!(again[0].order, Order::SetPose { .. }));
}

#[test]
fn sync_never_despawns_the_player() {
    let mut world = world_800_by_600();
    let player = world.spawn_player(pose(-5, 700_000), Speed(1), GodotNode(1)).unwrap();
    let requests = sync_entity(&mut world);
    assert_eq!(
        requests,
        vec![NodeRequest {
            entity: player,
            node: GodotNode(1),
            order: Order::SetPose { position: Vector2 { x: -5, y: 700_000 }, rotation: 0 },
        }]
    );
    assert!(world.body(player).is_some());
}

#[test]
fn cleanup_mobs_despawns_every_mob_and_releases_its_node() {
    let mut world = world_800_by_600();
    let player = world.spawn_player(pose(1, 1), Speed(1), GodotNode(1)).unwrap();
    let a = world.spawn_mob(pose(2, 2), rate(0, 0), GodotNode(2)).unwrap();
    let b = world.spawn_mob(pose(3, 3), rate(0, 0), GodotNode(3)).unwrap();
    let requests = sorted(cleanup_mobs(&mut world));
    assert_eq!(
        requests,
        vec![
            NodeRequest { entity: a, node: GodotNode(2), order: Order::Release },
            NodeRequest { entity: b, node: GodotNode(3), order: Order::Release },
        ]
    );
    assert_eq!(world.entities().len(), 1);
    assert!(world.body(player).is_some());
    assert!(cleanup_mobs(&mut world).is_empty());
}

#[test]
fn cleanup_system_despawns_by_tag() {
    let mut world = world_800_by_600();
    let player = world.spawn_player(pose(1, 1), Speed(1), GodotNode(1)).unwrap();
    let mob = world.spawn_mob(pose(2, 2), rate(0, 0), GodotNode(2)).unwrap();
    let requests = cleanup_system(&mut world, Tag::Player);
    assert_eq!(requests, vec![NodeRequest { entity: player, node: GodotNode(1), order: Order::Release }]);
    assert!(world.body(player).is_none());
    assert!(world.body(mob).is_some());
    let requests = cleanup_system(&mut world, Tag::Mob);
    assert_eq!(requests, vec![NodeRequest { entity: mob, node: GodotNode(2), order: Order::Release }]);
    assert!(world.entities().is_empty());
    assert!(cleanup_system(&mut world, Tag::Mob).is_empty());
}

#[test]
fn input_steers_the_player_and_empties_the_queue() {
    let mut world = world_800_by_600();
    let player = world.spawn_player(pose(1, 1), Speed(450_000), GodotNode(1)).unwrap();
    let mob = world.spawn_mob(pose(2, 2), rate(5, 5), GodotNode(2)).unwrap();
    world.emit(InputEvent(Action::Pressed("move-right")));
    world.emit(InputEvent(Action::Pressed("move-up")));
    process_player_movement(&mut world);
    assert_eq!(world.body(player).unwrap().velocity, Some(rate(450_000, -450_000)));
    assert_eq!(world.body(mob).unwrap().velocity, Some(rate(5, 5)));
    assert_eq!(world.keys(), HeldKeys { left: false, right: true, up: true, down: false });
    assert!(world.drain().is_empty());
}

#[test]
fn input_remembers_held_keys_across_calls() {
    let mut world = world_800_by_600();
    let player = world.spawn_player(pose(1, 1), Speed(450_000), GodotNode(1)).unwrap();
    world.emit(InputEvent(Action::Pressed("move-left")));
    process_player_movement(&mut world);
    world.emit(InputEvent(Action::Pressed("move-right")));
    process_player_movement(&mut world);
    assert_eq!(world.body(player).unwrap().velocity, Some(rate(450_000, 0)));
    world.emit(InputEvent(Action::Released("move-right")));
    process_player_movement(&mut world);
    assert_eq!(world.body(player).unwrap().velocity, Some(rate(-450_000, 0)));
    world.emit(InputEvent(Action::Released("move-left")));
    process_player_movement(&mut world);
    assert_eq!(world.body(player).unwrap().velocity, Some(rate(0, 0)));
}

#[test]
fn input_without_events_needs_no_player() {
    let mut world = world_800_by_600();
    let mob = world.spawn_mob(pose(2, 2), rate(5, 5), GodotNode(2)).unwrap();
    process_player_movement(&mut world);
    assert_eq!(world.body(mob).unwrap().velocity, Some(rate(5, 5)));
    assert_eq!(world.keys(), HeldKeys::released());
}

#[test]
fn unknown_actions_leave_the_velocity() {
    let mut world = world_800_by_600();
    let player = world.spawn_player(pose(1, 1), Speed(450_000), GodotNode(1)).unwrap();
    world.insert(player, Component::Velocity(rate(12, 34))).unwrap();
    world.emit(InputEvent(Action::Pressed("ui_accept")));
    world.emit(InputEvent(Action::Released("")));
    process_player_movement(&mut world);
    assert_eq!(world.body(player).unwrap().velocity, Some(rate(12, 34)));
    assert!(world.drain().is_empty());
}

#[test]
fn reset_puts_the_player_at_the_start() {
    let mut world = world_800_by_600();
    let player = world
        .spawn_player(Spatial { position: Vector2 { x: 5, y: 6 }, rotation: 77 }, Speed(1), GodotNode(1))
        .unwrap();
    let mob = world.spawn_mob(pose(2, 2), rate(0, 0), GodotNode(2)).unwrap();
    reset_player_position(&mut world, Vector2 { x: 240_000, y: 450_000 });
    assert_eq!(
        world.body(player).unwrap().spatial,
        Some(Spatial { position: Vector2 { x: 240_000, y: 450_000 }, rotation: 77 })
    );
    assert_eq!(world.body(mob).unwrap().spatial, Some(pose(2, 2)));
}

#[test]
fn animation_shows_how_the_player_moves() {
    let mut world = world_800_by_600();
    let player = world.spawn_player(pose(1, 1), Speed(450_000), GodotNode(31)).unwrap();
    assert_eq!(
        set_player_animation(&mut world),
        AnimationRequest { node: GodotNode(31), animation: Animation::Stop }
    );
    world.insert(player, Component::Velocity(rate(-450_000, 0))).unwrap();
    assert_eq!(
        set_player_animation(&mut world),
        AnimationRequest {
            node: GodotNode(31),
            animation: Animation::Play { clip: Clip::Right, flip_h: Some(true), flip_v: false },
        }
    );
    world.insert(player, Component::Velocity(rate(0, 450_000))).unwrap();
    assert_eq!(
        set_player_animation(&mut world),
        AnimationRequest {
            node: GodotNode(31),
            animation: Animation::Play { clip: Clip::Up, flip_h: None, flip_v: true },
        }
    );
    // Nothing in the world has changed.
    assert_eq!(world.body(player).unwrap().velocity, Some(rate(0, 450_000)));
    assert_eq!(world.query(Filter::any()).len(), 1);
}
