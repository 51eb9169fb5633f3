use dodge_the_creeps::components::{Spatial, Vector2, Velocity};
use dodge_the_creeps::motion::{advance, clamp, is_outside, magnitude, step};
use dodge_the_creeps::resources::{Delta, ScreenSize};

fn screen(x: i64, y: i64) -> ScreenSize {
    ScreenSize(Vector2 { x, y })
}

#[test]
fn advance_moves_by_rate_times_time() {
    // 450 pixels per second for a tenth of a second: 45 pixels.
    assert_eq!(advance(100_000, 450_000, Delta(100_000)), 145_000);
    assert_eq!(advance(100_000, -450_000, Delta(100_000)), 55_000);
    assert_eq!(advance(0, 1, Delta(1_000_000)), 1);
    assert_eq!(advance(7, 0, Delta(123_456)), 7);
    assert_eq!(advance(7, 99, Delta(0)), 7);
}

#[test]
fn advance_rounds_towards_zero() {
    // 1 unit per second for 999999 microseconds is less than a unit.
    assert_eq!(advance(10, 1, Delta(999_999)), 10);
    assert_eq!(advance(10, -1, Delta(999_999)), 10);
    // 3 units per second for half a second: one and a half units.
    assert_eq!(advance(10, 3, Delta(500_000)), 11);
    assert_eq!(advance(10, -3, Delta(500_000)), 9);
}

#[test]
fn advance_saturates_at_the_ends_of_the_range() {
    assert_eq!(advance(i64::MAX - 5, 1_000, Delta(1_000_000)), i64::MAX);
    assert_eq!(advance(i64::MIN + 5, -1_000, Delta(1_000_000)), i64::MIN);
    assert_eq!(advance(i64::MAX, i64::MAX, Delta(u32::MAX)), i64::MAX);
    assert_eq!(advance(i64::MIN, i64::MIN, Delta(u32::MAX)), i64::MIN);
    assert_eq!(advance(0, i64::MIN, Delta(1_000_000)), i64::MIN);
    assert_eq!(advance(0, i64::MAX, Delta(1_000_000)), i64::MAX);
    assert_eq!(advance(i64::MAX, i64::MIN, Delta(1_000_000)), -1);
}

#[test]
fn magnitude_of_every_sign() {
    assert_eq!(magnitude(0), 0);
    assert_eq!(magnitude(5), 5);
    assert_eq!(magnitude(-5), 5);
    assert_eq!(magnitude(i64::MAX), i64::MAX as u64);
    assert_eq!(magnitude(i64::MIN), 1u64 << 63);
}

#[test]
fn clamp_holds_between_zero_and_the_limit() {
    assert_eq!(clamp(-1, 800), 0);
    assert_eq!(clamp(0, 800), 0);
    assert_eq!(clamp(400, 800), 400);
    assert_eq!(clamp(800, 800), 800);
    assert_eq!(clamp(801, 800), 800);
    assert_eq!(clamp(i64::MIN, 800), 0);
    assert_eq!(clamp(i64::MAX, 800), 800);
}

#[test]
fn clamp_with_a_negative_limit_gives_the_limit() {
    assert_eq!(clamp(5, -3), -3);
    assert_eq!(clamp(-5, -3), -3);
}

#[test]
fn step_moves_a_free_entity_past_the_edge() {
    let pose = Spatial { position: Vector2 { x: 790_000, y: 300_000 }, rotation: 17 };
    let next = step(pose, Velocity(Vector2 { x: 200_000, y: -50_000 }), Delta(100_000), screen(800_000, 600_000), false);
    assert_eq!(next, Spatial { position: Vector2 { x: 810_000, y: 295_000 }, rotation: 17 });
}

#[test]
fn step_holds_a_walled_entity_at_the_edge() {
    let pose = Spatial { position: Vector2 { x: 790_000, y: 5_000 }, rotation: 17 };
    let next = step(pose, Velocity(Vector2 { x: 200_000, y: -450_000 }), Delta(100_000), screen(800_000, 600_000), true);
    assert_eq!(next, Spatial { position: Vector2 { x: 800_000, y: 0 }, rotation: 17 });
}

#[test]
fn walled_entity_stays_within_for_any_start_and_tick() {
    let size = screen(800_000, 600_000);
    let starts = [i64::MIN, -1, 0, 1, 400_000, 800_000, 800_001, i64::MAX];
    let rates = [i64::MIN, -450_000, -1, 0, 1, 450_000, i64::MAX];
    let ticks = [0u32, 1, 16_666, 100_000, u32::MAX];
    for &x in &starts {
        for &y in &starts {
            for &vx in &rates {
                for &dt in &ticks {
                    let pose = Spatial { position: Vector2 { x, y }, rotation: 0 };
                    let next = step(pose, Velocity(Vector2 { x: vx, y: -vx.saturating_add(1) }), Delta(dt), size, true);
                    assert!(0 <= next.position.x && next.position.x <= 800_000);
                    assert!(0 <= next.position.y && next.position.y <= 600_000);
                }
            }
        }
    }
}

#[test]
fn outside_is_strict() {
    let size = screen(800, 600);
    assert!(!is_outside(Vector2 { x: 0, y: 0 }, size));
    assert!(!is_outside(Vector2 { x: 800, y: 600 }, size));
    assert!(!is_outside(Vector2 { x: 400, y: 300 }, size));
    assert!(is_outside(Vector2 { x: -1, y: 300 }, size));
    assert!(is_outside(Vector2 { x: 801, y: 300 }, size));
    assert!(is_outside(Vector2 { x: 400, y: -1 }, size));
    assert!(is_outside(Vector2 { x: 400, y: 601 }, size));
}
