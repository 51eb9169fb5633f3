use dodge_the_creeps::components::{Body, GodotNode, Mob, Player, Spatial, Speed, Vector2, Velocity};
use dodge_the_creeps::events::{Action, InputEvent};
use dodge_the_creeps::resources::{Delta, ScreenSize};
use dodge_the_creeps::components::Component;
use dodge_the_creeps::world::{Filter, GameWorld, InsertError, SingleError, SpawnError};

fn pose(x: i64, y: i64) -> Spatial {
    Spatial { position: Vector2 { x, y }, rotation: 0 }
}

fn rate(x: i64, y: i64) -> Velocity {
    Velocity(Vector2 { x, y })
}

#[test]
fn new_world_is_empty() {
    let mut world = GameWorld::new();
    assert!(world.entities().is_empty());
    assert!(world.drain().is_empty());
    assert_eq!(world.delta(), Delta(0));
    assert_eq!(world.screen_size(), None);
    assert_eq!(world.spawned(), 0);
}

#[test]
fn spawned_player_carries_its_components() {
    let mut world = GameWorld::new();
    let id = world.spawn_player(pose(100, 200), Speed(450), GodotNode(7)).unwrap();
    let body = world.body(id).unwrap();
    assert_eq!(
        body,
        Body {
            spatial: Some(pose(100, 200)),
            velocity: Some(rate(0, 0)),
            speed: Some(Speed(450)),
            node: Some(GodotNode(7)),
            player: Some(Player),
            mob: None,
        }
    );
    assert_eq!(world.spawned(), 1);
}

#[test]
fn spawned_mob_carries_its_components() {
    let mut world = GameWorld::new();
    let id = world.spawn_mob(pose(1, 2), rate(3, 4), GodotNode(9)).unwrap();
    let body = world.body(id).unwrap();
    assert_eq!(
        body,
        Body {
            spatial: Some(pose(1, 2)),
            velocity: Some(rate(3, 4)),
            speed: None,
            node: Some(GodotNode(9)),
            player: None,
            mob: Some(Mob),
        }
    );
}

#[test]
fn spawn_refuses_a_node_in_use() {
    let mut world = GameWorld::new();
    world.spawn_mob(pose(0, 0), rate(0, 0), GodotNode(1)).unwrap();
    assert_eq!(world.spawn_mob(pose(5, 5), rate(0, 0), GodotNode(1)), Err(SpawnError::NodeInUse));
    assert_eq!(world.spawn_player(pose(5, 5), Speed(1), GodotNode(1)), Err(SpawnError::NodeInUse));
    assert_eq!(world.entities().len(), 1);
    assert!(world.holds_node(GodotNode(1)));
    assert!(!world.holds_node(GodotNode(2)));
}

#[test]
fn entities_lists_each_entity_once() {
    let mut world = GameWorld::new();
    let a = world.spawn_mob(pose(0, 0), rate(0, 0), GodotNode(1)).unwrap();
    let b = world.spawn_mob(pose(1, 1), rate(0, 0), GodotNode(2)).unwrap();
    let c = world.spawn_player(pose(2, 2), Speed(3), GodotNode(3)).unwrap();
    let mut ids: Vec<u64> = world.entities().iter().map(|entry| entry.0).collect();
    ids.sort();
    let mut expected = vec![a, b, c];
    expected.sort();
    assert_eq!(ids, expected);
}

#[test]
fn query_filters_by_component_and_tag() {
    let mut world = GameWorld::new();
    let mob = world.spawn_mob(pose(0, 0), rate(0, 0), GodotNode(1)).unwrap();
    let player = world.spawn_player(pose(2, 2), Speed(3), GodotNode(3)).unwrap();

    let with_speed = Filter { speed: true, ..Filter::any() };
    let found = world.query(with_speed);
    assert_eq!(found.len(), 1);
    assert_eq!(found[0].0, player);

    let mobs = Filter { mob: Some(true), ..Filter::any() };
    let found = world.query(mobs);
    assert_eq!(found.len(), 1);
    assert_eq!(found[0].0, mob);

    let not_mobs = Filter { mob: Some(false), ..Filter::any() };
    let found = world.query(not_mobs);
    assert_eq!(found.len(), 1);
    assert_eq!(found[0].0, player);

    assert_eq!(world.query(Filter::any()).len(), 2);
}

#[test]
fn single_tells_none_one_and_many_apart() {
    let mut world = GameWorld::new();
    let players = Filter { player: Some(true), ..Filter::any() };
    let mobs = Filter { mob: Some(true), ..Filter::any() };
    assert_eq!(world.single(players), Err(SingleError::NoEntities));
    let player = world.spawn_player(pose(2, 2), Speed(3), GodotNode(3)).unwrap();
    assert_eq!(world.single(players).map(|entry| entry.0), Ok(player));
    world.spawn_mob(pose(0, 0), rate(0, 0), GodotNode(1)).unwrap();
    world.spawn_mob(pose(0, 0), rate(0, 0), GodotNode(2)).unwrap();
    assert_eq!(world.single(mobs), Err(SingleError::MultipleEntities));
}

#[test]
fn a_spawned_entity_carries_nothing() {
    let mut world = GameWorld::new();
    let id = world.spawn().unwrap();
    assert_eq!(
        world.body(id),
        Some(Body { spatial: None, velocity: None, speed: None, node: None, player: None, mob: None })
    );
    let other = world.spawn().unwrap();
    assert_ne!(id, other);
    assert_eq!(world.entities().len(), 2);
    assert_eq!(world.spawned(), 2);
}

#[test]
fn insert_attaches_each_kind_of_component() {
    let mut world = GameWorld::new();
    let id = world.spawn().unwrap();
    assert_eq!(world.insert(id, Component::Spatial(pose(1, 2))), Ok(()));
    assert_eq!(world.insert(id, Component::Velocity(rate(3, 4))), Ok(()));
    assert_eq!(world.insert(id, Component::Speed(Speed(5))), Ok(()));
    assert_eq!(world.insert(id, Component::Node(GodotNode(6))), Ok(()));
    assert_eq!(world.insert(id, Component::Player(Player)), Ok(()));
    assert_eq!(world.insert(id, Component::Mob(Mob)), Ok(()));
    assert_eq!(
        world.body(id),
        Some(Body {
            spatial: Some(pose(1, 2)),
            velocity: Some(rate(3, 4)),
            speed: Some(Speed(5)),
            node: Some(GodotNode(6)),
            player: Some(Player),
            mob: Some(Mob),
        })
    );
}

#[test]
fn insert_replaces_a_component() {
    let mut world = GameWorld::new();
    let id = world.spawn_mob(pose(0, 0), rate(1, 1), GodotNode(1)).unwrap();
    let other = world.spawn_mob(pose(9, 9), rate(2, 2), GodotNode(2)).unwrap();
    assert_eq!(world.insert(id, Component::Spatial(pose(5, 6))), Ok(()));
    assert_eq!(world.insert(id, Component::Velocity(rate(7, 8))), Ok(()));
    assert_eq!(world.insert(id, Component::Node(GodotNode(3))), Ok(()));
    let body = world.body(id).unwrap();
    assert_eq!(body.spatial, Some(pose(5, 6)));
    assert_eq!(body.velocity, Some(rate(7, 8)));
    assert_eq!(body.node, Some(GodotNode(3)));
    assert_eq!(body.mob, Some(Mob));
    assert_eq!(body.speed, None);
    let untouched = world.body(other).unwrap();
    assert_eq!(untouched.spatial, Some(pose(9, 9)));
    assert_eq!(untouched.velocity, Some(rate(2, 2)));
    assert_eq!(untouched.node, Some(GodotNode(2)));
    assert!(!world.holds_node(GodotNode(1)));
}

#[test]
fn insert_fails_for_an_unknown_entity() {
    let mut world = GameWorld::new();
    let id = world.spawn_mob(pose(0, 0), rate(1, 1), GodotNode(1)).unwrap();
    world.despawn(id);
    assert_eq!(world.insert(id, Component::Spatial(pose(5, 6))), Err(InsertError::NoSuchEntity));
    assert_eq!(world.insert(id, Component::Velocity(rate(5, 6))), Err(InsertError::NoSuchEntity));
    assert_eq!(world.insert(id, Component::Node(GodotNode(2))), Err(InsertError::NoSuchEntity));
    assert_eq!(
        world.insert(123_456_789, Component::Mob(Mob)),
        Err(InsertError::NoSuchEntity)
    );
    assert!(world.entities().is_empty());
}

#[test]
fn insert_refuses_a_node_that_another_entity_holds() {
    let mut world = GameWorld::new();
    let a = world.spawn_mob(pose(0, 0), rate(1, 1), GodotNode(1)).unwrap();
    let b = world.spawn_mob(pose(0, 0), rate(1, 1), GodotNode(2)).unwrap();
    assert_eq!(world.insert(b, Component::Node(GodotNode(1))), Err(InsertError::NodeInUse));
    assert_eq!(world.body(b).unwrap().node, Some(GodotNode(2)));
    // Its own node it may be given again.
    assert_eq!(world.insert(a, Component::Node(GodotNode(1))), Ok(()));
    assert_eq!(world.body(a).unwrap().node, Some(GodotNode(1)));
    // A node held by another and an id that is gone: the id is what is wrong.
    world.despawn(b);
    assert_eq!(world.insert(b, Component::Node(GodotNode(1))), Err(InsertError::NoSuchEntity));
}

#[test]
fn holder_names_the_entity_of_a_node() {
    let mut world = GameWorld::new();
    let a = world.spawn_mob(pose(0, 0), rate(1, 1), GodotNode(1)).unwrap();
    let b = world.spawn_mob(pose(0, 0), rate(1, 1), GodotNode(2)).unwrap();
    assert_eq!(world.holder(GodotNode(1)), Some(a));
    assert_eq!(world.holder(GodotNode(2)), Some(b));
    assert_eq!(world.holder(GodotNode(3)), None);
}

#[test]
fn only_returns_the_single_match() {
    let mut world = GameWorld::new();
    let player = world.spawn_player(pose(2, 2), Speed(3), GodotNode(3)).unwrap();
    world.spawn_mob(pose(0, 0), rate(0, 0), GodotNode(1)).unwrap();
    let players = Filter { player: Some(true), ..Filter::any() };
    let found = world.only(players);
    assert_eq!(found.0, player);
    assert_eq!(found.1.speed, Some(Speed(3)));
}

#[test]
fn despawn_hands_out_the_node_once() {
    let mut world = GameWorld::new();
    let id = world.spawn_mob(pose(0, 0), rate(1, 1), GodotNode(41)).unwrap();
    let other = world.spawn_mob(pose(0, 0), rate(1, 1), GodotNode(42)).unwrap();
    assert_eq!(world.despawn(id), Some(GodotNode(41)));
    assert_eq!(world.body(id), None);
    assert_eq!(world.despawn(id), None);
    assert_eq!(world.entities().len(), 1);
    assert!(world.body(other).is_some());
}

#[test]
fn despawn_of_an_unknown_id_changes_nothing() {
    let mut world = GameWorld::new();
    world.spawn_mob(pose(0, 0), rate(1, 1), GodotNode(41)).unwrap();
    assert_eq!(world.despawn(u64::MAX), None);
    assert_eq!(world.despawn(77), None);
    assert_eq!(world.entities().len(), 1);
}

#[test]
fn a_reused_slot_gets_a_new_id() {
    let mut world = GameWorld::new();
    let first = world.spawn_mob(pose(0, 0), rate(1, 1), GodotNode(1)).unwrap();
    world.despawn(first);
    let second = world.spawn_mob(pose(0, 0), rate(1, 1), GodotNode(1)).unwrap();
    assert_ne!(first, second);
    assert_eq!(world.body(first), None);
    assert_eq!(world.despawn(first), None);
    assert!(world.body(second).is_some());
    assert_eq!(world.spawned(), 2);
}

#[test]
fn events_come_out_in_the_order_they_went_in() {
    let mut world = GameWorld::new();
    world.emit(InputEvent(Action::Pressed("move-left")));
    world.emit(InputEvent(Action::Released("move-left")));
    world.emit(InputEvent(Action::Pressed("jump")));
    let events = world.drain();
    assert_eq!(events.len(), 3);
    assert!(matches!(events[0].0, Action::Pressed("move-left")));
    assert!(matches!(events[1].0, Action::Released("move-left")));
    assert!(matches!(events[2].0, Action::Pressed("jump")));
    assert!(world.drain().is_empty());
}

#[test]
fn resources_hold_the_last_value_set() {
    let mut world = GameWorld::new();
    world.insert_delta(Delta(16_666));
    world.insert_delta(Delta(100_000));
    world.insert_screen_size(ScreenSize(Vector2 { x: 800_000, y: 600_000 }));
    assert_eq!(world.delta(), Delta(100_000));
    assert_eq!(world.screen_size(), Some(ScreenSize(Vector2 { x: 800_000, y: 600_000 })));
}

#[test]
fn a_world_spawns_no_more_than_its_budget() {
    let mut world = GameWorld::with_budget(2);
    assert_eq!(world.budget(), 2);
    let first = world.spawn_mob(pose(0, 0), rate(0, 0), GodotNode(1)).unwrap();
    // A despawn gives nothing back.
    world.despawn(first);
    assert!(world.spawn().is_some());
    assert_eq!(world.spawned(), 2);
    assert_eq!(world.spawn(), None);
    assert_eq!(world.spawn_mob(pose(0, 0), rate(0, 0), GodotNode(2)), Err(SpawnError::Exhausted));
    assert_eq!(world.spawn_player(pose(0, 0), Speed(1), GodotNode(3)), Err(SpawnError::Exhausted));
    assert_eq!(world.entities().len(), 1);
    assert_eq!(world.spawned(), 2);
}

#[test]
fn an_exhausted_world_reports_that_before_a_node_in_use() {
    let mut world = GameWorld::with_budget(1);
    world.spawn_mob(pose(0, 0), rate(0, 0), GodotNode(1)).unwrap();
    assert_eq!(world.spawn_mob(pose(0, 0), rate(0, 0), GodotNode(1)), Err(SpawnError::Exhausted));
}

#[test]
fn a_new_world_has_the_full_budget() {
    let world = GameWorld::new();
    assert_eq!(world.budget(), u32::MAX);
}

/// The id that the slot of `id` goes by in its next life.
fn next_life(id: u64) -> u64 {
    id + (1u64 << 32)
}

#[test]
fn a_despawned_slot_is_not_alive_under_its_next_id() {
    let mut world = GameWorld::new();
    let a = world.spawn_mob(pose(0, 0), rate(1, 1), GodotNode(1)).unwrap();
    assert_eq!(world.despawn(a), Some(GodotNode(1)));
    let ghost = next_life(a);
    assert_eq!(world.body(ghost), None);
    assert_eq!(world.insert(ghost, Component::Spatial(pose(5, 6))), Err(InsertError::NoSuchEntity));
    assert_eq!(world.insert(ghost, Component::Velocity(rate(5, 6))), Err(InsertError::NoSuchEntity));
    assert_eq!(world.insert(ghost, Component::Speed(Speed(1))), Err(InsertError::NoSuchEntity));
    assert_eq!(world.insert(ghost, Component::Node(GodotNode(2))), Err(InsertError::NoSuchEntity));
    assert_eq!(world.insert(ghost, Component::Player(Player)), Err(InsertError::NoSuchEntity));
    assert_eq!(world.insert(ghost, Component::Mob(Mob)), Err(InsertError::NoSuchEntity));
    assert_eq!(world.despawn(ghost), None);
    assert_eq!(world.despawn(next_life(ghost)), None);
    assert!(world.entities().is_empty());
    // The slot comes back to life under exactly that id, and then it is alive.
    let b = world.spawn_mob(pose(0, 0), rate(1, 1), GodotNode(3)).unwrap();
    assert_eq!(b, ghost);
    assert_eq!(world.insert(b, Component::Spatial(pose(5, 6))), Ok(()));
    assert_eq!(world.insert(a, Component::Spatial(pose(7, 8))), Err(InsertError::NoSuchEntity));
    assert_eq!(world.insert(next_life(b), Component::Mob(Mob)), Err(InsertError::NoSuchEntity));
    assert_eq!(world.body(b).unwrap().spatial, Some(pose(5, 6)));
    assert_eq!(world.despawn(b), Some(GodotNode(3)));
}

#[test]
fn ids_that_were_never_given_out_are_not_alive() {
    let mut world = GameWorld::new();
    let a = world.spawn().unwrap();
    for id in [a + 1, a + 2, next_life(a), next_life(a) + 1, u64::MAX, u32::MAX as u64] {
        assert_eq!(world.body(id), None);
        assert_eq!(world.insert(id, Component::Mob(Mob)), Err(InsertError::NoSuchEntity));
        assert_eq!(world.despawn(id), None);
    }
    assert_eq!(world.entities().len(), 1);
    assert!(world.body(a).is_some());
}
