use dodge_the_creeps::components::{GodotNode, Spatial, Speed, Vector2, Velocity};
use dodge_the_creeps::requests::{NodeRequest, Order};
use dodge_the_creeps::resources::{Delta, ScreenSize};
use dodge_the_creeps::schedule::{AppState, Schedule, Transition};
use dodge_the_creeps::world::GameWorld;

fn pose(x: i64, y: i64) -> Spatial {
    Spatial { position: Vector2 { x, y }, rotation: 0 }
}

fn arena() -> GameWorld {
    let mut world = GameWorld::new();
    world.insert_screen_size(ScreenSize(Vector2 { x: 800_000, y: 600_000 }));
    world.insert_delta(Delta(100_000));
    world.spawn_player(pose(100_000, 100_000), Speed(450_000), GodotNode(1)).unwrap();
    world
}

#[test]
fn a_new_schedule_has_settled() {
    let mut schedule = Schedule::new(AppState::MainMenu);
    assert_eq!(schedule, Schedule { state: AppState::MainMenu, seen: AppState::MainMenu });
    assert_eq!(schedule.drive(), None);
    assert_eq!(schedule.drive(), None);
}

#[test]
fn a_change_of_state_is_reported_once() {
    let mut schedule = Schedule::new(AppState::MainMenu);
    schedule.set_state(AppState::InGame);
    assert_eq!(schedule.state, AppState::InGame);
    assert_eq!(schedule.seen, AppState::MainMenu);
    assert_eq!(
        schedule.drive(),
        Some(Transition { exited: AppState::MainMenu, entered: AppState::InGame })
    );
    for _ in 0..100 {
        assert_eq!(schedule.drive(), None);
    }
    schedule.set_state(AppState::MainMenu);
    assert_eq!(
        schedule.drive(),
        Some(Transition { exited: AppState::InGame, entered: AppState::MainMenu })
    );
    assert_eq!(schedule.drive(), None);
}

#[test]
fn setting_the_same_state_changes_nothing() {
    let mut schedule = Schedule::new(AppState::InGame);
    schedule.set_state(AppState::InGame);
    assert_eq!(schedule.drive(), None);
}

#[test]
fn a_change_undone_before_the_tick_is_no_change() {
    let mut schedule = Schedule::new(AppState::MainMenu);
    schedule.set_state(AppState::InGame);
    schedule.set_state(AppState::MainMenu);
    assert_eq!(schedule.drive(), None);
}

#[test]
fn entering_a_round_clears_mobs_exactly_once() {
    let mut world = arena();
    let mut schedule = Schedule::new(AppState::MainMenu);
    let leftover = world.spawn_mob(pose(50_000, 50_000), Velocity(Vector2 { x: 0, y: 0 }), GodotNode(2)).unwrap();
    schedule.set_state(AppState::InGame);

    let report = schedule.run(&mut world);
    assert_eq!(
        report.transition,
        Some(Transition { exited: AppState::MainMenu, entered: AppState::InGame })
    );
    assert_eq!(
        report.cleared,
        vec![NodeRequest { entity: leftover, node: GodotNode(2), order: Order::Release }]
    );
    assert!(world.body(leftover).is_none());

    // Mobs spawned during the round survive all further ticks.
    let fresh = world.spawn_mob(pose(50_000, 50_000), Velocity(Vector2 { x: 0, y: 0 }), GodotNode(3)).unwrap();
    for _ in 0..50 {
        let report = schedule.run(&mut world);
        assert_eq!(report.transition, None);
        assert!(report.cleared.is_empty());
        assert!(world.body(fresh).is_some());
    }
}

#[test]
fn nothing_moves_in_the_main_menu() {
    let mut world = arena();
    let mut schedule = Schedule::new(AppState::MainMenu);
    let mob = world.spawn_mob(pose(50_000, 50_000), Velocity(Vector2 { x: 100_000, y: 0 }), GodotNode(2)).unwrap();
    let report = schedule.run(&mut world);
    assert_eq!(report.transition, None);
    assert!(report.cleared.is_empty());
    assert_eq!(report.synced.len(), 2);
    assert_eq!(world.body(mob).unwrap().spatial, Some(pose(50_000, 50_000)));
}

#[test]
fn leaving_a_round_clears_nothing() {
    let mut world = arena();
    let mut schedule = Schedule::new(AppState::InGame);
    let mob = world.spawn_mob(pose(50_000, 50_000), Velocity(Vector2 { x: 0, y: 0 }), GodotNode(2)).unwrap();
    schedule.set_state(AppState::MainMenu);
    let report = schedule.run(&mut world);
    assert_eq!(
        report.transition,
        Some(Transition { exited: AppState::InGame, entered: AppState::MainMenu })
    );
    assert!(report.cleared.is_empty());
    assert!(world.body(mob).is_some());
}

#[test]
fn a_tick_runs_movement_before_sync() {
    let mut world = arena();
    let mut schedule = Schedule::new(AppState::InGame);
    // 10 pixels short of the edge at 200 pixels per second: out after a tenth of a second.
    let mob = world.spawn_mob(pose(790_000, 50_000), Velocity(Vector2 { x: 200_000, y: 0 }), GodotNode(2)).unwrap();
    let report = schedule.run(&mut world);
    let about_mob: Vec<&NodeRequest> = report.synced.iter().filter(|r| r.entity == mob).collect();
    assert_eq!(about_mob.len(), 1);
    assert_eq!(about_mob[0].order, Order::Release);
    assert!(world.body(mob).is_none());
}
