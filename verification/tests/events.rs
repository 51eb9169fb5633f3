use dodge_the_creeps::events::{same_text, Direction};
use dodge_the_creeps::mob::{MobType, MOB_TYPE_COUNT};
use dodge_the_creeps::requests::{animation_for, Animation, Clip};
use dodge_the_creeps::components::Vector2;

#[test]
fn action_names_stand_for_directions() {
    assert_eq!(Direction::from_action("move-left"), Some(Direction::Left));
    assert_eq!(Direction::from_action("move-right"), Some(Direction::Right));
    assert_eq!(Direction::from_action("move-up"), Some(Direction::Up));
    assert_eq!(Direction::from_action("move-down"), Some(Direction::Down));
}

#[test]
fn other_texts_stand_for_no_direction() {
    assert_eq!(Direction::from_action(""), None);
    assert_eq!(Direction::from_action("jump"), None);
    assert_eq!(Direction::from_action("move-lef"), None);
    assert_eq!(Direction::from_action("move-left "), None);
    assert_eq!(Direction::from_action("Move-Left"), None);
    assert_eq!(Direction::from_action("move-döwn"), None);
}

#[test]
fn directions_report_their_action_names() {
    for d in [Direction::Left, Direction::Right, Direction::Up, Direction::Down] {
        assert_eq!(Direction::from_action(d.action_name()), Some(d));
    }
    assert_eq!(Direction::Left.action_name(), "move-left");
    assert_eq!(Direction::Right.action_name(), "move-right");
    assert_eq!(Direction::Up.action_name(), "move-up");
    assert_eq!(Direction::Down.action_name(), "move-down");
}

#[test]
fn same_text_compares_characters() {
    assert!(same_text("", ""));
    assert!(same_text("abc", "abc"));
    assert!(!same_text("abc", "abd"));
    assert!(!same_text("abc", "ab"));
    assert!(!same_text("ab", "abc"));
    assert!(same_text("grüße", "grüße"));
    assert!(!same_text("grüße", "grusse"));
}

#[test]
fn mob_types_by_index() {
    assert_eq!(MOB_TYPE_COUNT, 3);
    assert_eq!(MobType::from_index(0), Some(MobType::Walk));
    assert_eq!(MobType::from_index(1), Some(MobType::Swim));
    assert_eq!(MobType::from_index(2), Some(MobType::Fly));
    assert_eq!(MobType::from_index(3), None);
    assert_eq!(MobType::from_index(u32::MAX), None);
}

#[test]
fn animation_stops_at_rest() {
    assert_eq!(animation_for(Vector2 { x: 0, y: 0 }), Animation::Stop);
}

#[test]
fn animation_follows_the_dominant_axis() {
    let right = Animation::Play { clip: Clip::Right, flip_h: Some(false), flip_v: false };
    let left = Animation::Play { clip: Clip::Right, flip_h: Some(true), flip_v: false };
    let up = Animation::Play { clip: Clip::Up, flip_h: None, flip_v: false };
    let down = Animation::Play { clip: Clip::Up, flip_h: None, flip_v: true };
    assert_eq!(animation_for(Vector2 { x: 450, y: 0 }), right);
    assert_eq!(animation_for(Vector2 { x: -450, y: 0 }), left);
    assert_eq!(animation_for(Vector2 { x: 0, y: -450 }), up);
    assert_eq!(animation_for(Vector2 { x: 0, y: 450 }), down);
    // On a diagonal the horizontal clip wins.
    assert_eq!(animation_for(Vector2 { x: 450, y: 450 }), right);
    assert_eq!(animation_for(Vector2 { x: -450, y: -450 }), left);
    // Otherwise the larger component decides.
    assert_eq!(animation_for(Vector2 { x: 1, y: 2 }), down);
    assert_eq!(animation_for(Vector2 { x: -3, y: 2 }), left);
    assert_eq!(animation_for(Vector2 { x: i64::MIN, y: i64::MAX }), left);
    assert_eq!(animation_for(Vector2 { x: i64::MAX, y: i64::MIN }), up);
}

#[test]
fn clips_have_names() {
    assert_eq!(Clip::Right.to_str(), "right");
    assert_eq!(Clip::Up.to_str(), "up");
}
