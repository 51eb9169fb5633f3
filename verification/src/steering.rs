//! How input events steer the player: which keys are held, and the velocity
//! that follows from them.
//!
//! The velocity along an axis is never accumulated. A press sets it to the
//! full speed in the pressed direction; a release hands the axis to the
//! opposite direction if that key is still held, and stops it otherwise.

use vstd::prelude::*;
use crate::components::{Speed, Vector2};
use crate::events::{Action, Direction, InputEvent};

verus! {

/// The direction keys that are currently down.
#[derive(Copy, Clone, Debug, PartialEq, Eq, Structural)]
pub struct HeldKeys {
    pub left: bool,
    pub right: bool,
    pub up: bool,
    pub down: bool,
}

/// What the input events act on: the held keys and the player's velocity.
#[derive(Copy, Clone, Debug, PartialEq, Eq, Structural)]
pub struct Steering {
    pub keys: HeldKeys,
    pub velocity: Vector2,
}

/// The direction that shares an axis with `d`.
pub open spec fn opposite(d: Direction) -> Direction {
    match d {
        Direction::Left => Direction::Right,
        Direction::Right => Direction::Left,
        Direction::Up => Direction::Down,
        Direction::Down => Direction::Up,
    }
}

/// Whether `d` lies on the horizontal axis.
pub open spec fn horizontal(d: Direction) -> bool {
    d == Direction::Left || d == Direction::Right
}

/// The sign of `d` along its axis: left and up are negative.
pub open spec fn sign(d: Direction) -> int {
    match d {
        Direction::Left => -1,
        Direction::Right => 1,
        Direction::Up => -1,
        Direction::Down => 1,
    }
}

/// The velocity along its axis of an entity that moves in direction `d` at
/// full speed.
pub open spec fn full_rate(d: Direction, speed: Speed) -> int {
    sign(d) * speed.0
}

impl HeldKeys {
    /// No key down.
    pub open spec fn none() -> HeldKeys {
        HeldKeys { left: false, right: false, up: false, down: false }
    }

    /// Whether the key of `d` is down.
    pub open spec fn holds(self, d: Direction) -> bool {
        match d {
            Direction::Left => self.left,
            Direction::Right => self.right,
            Direction::Up => self.up,
            Direction::Down => self.down,
        }
    }

    /// These keys with the key of `d` put down or let go.
    pub open spec fn with(self, d: Direction, held: bool) -> HeldKeys {
        match d {
            Direction::Left => HeldKeys { left: held, ..self },
            Direction::Right => HeldKeys { right: held, ..self },
            Direction::Up => HeldKeys { up: held, ..self },
            Direction::Down => HeldKeys { down: held, ..self },
        }
    }

    /// Returns the state in which no key is down.
    pub fn released() -> (keys: HeldKeys)
        ensures
            keys == HeldKeys::none(),
    {
        HeldKeys { left: false, right: false, up: false, down: false }
    }

    /// Tells whether the key of `d` is down.
    pub fn is_held(&self, d: Direction) -> (held: bool)
        ensures
            held == self.holds(d),
    {
        match d {
            Direction::Left => self.left,
            Direction::Right => self.right,
            Direction::Up => self.up,
            Direction::Down => self.down,
        }
    }
}

/// The component of `v` along the axis of `d`.
pub open spec fn rate_along(v: Vector2, d: Direction) -> int {
    if horizontal(d) { v.x as int } else { v.y as int }
}

/// `v` with the component along the axis of `d` replaced.
pub open spec fn with_rate(v: Vector2, d: Direction, rate: int) -> Vector2 {
    if horizontal(d) {
        Vector2 { x: rate as i64, y: v.y }
    } else {
        Vector2 { x: v.x, y: rate as i64 }
    }
}

/// The effect of pressing or releasing the key of `d`.
pub open spec fn after_key(s: Steering, speed: Speed, d: Direction, press: bool) -> Steering {
    let keys = s.keys.with(d, press);
    let rate = if press {
        full_rate(d, speed)
    } else if keys.holds(opposite(d)) {
        full_rate(opposite(d), speed)
    } else {
        0
    };
    Steering { keys, velocity: with_rate(s.velocity, d, rate) }
}

/// The effect of one input event. An event whose action names no direction
/// has none.
pub open spec fn after_event(s: Steering, speed: Speed, e: InputEvent) -> Steering {
    match e.direction() {
        Some(d) => after_key(s, speed, d, e.is_press()),
        None => s,
    }
}

/// The effect of a sequence of input events, taken first to last.
pub open spec fn after_events(s: Steering, speed: Speed, events: Seq<InputEvent>) -> Steering
    decreases events.len(),
{
    if events.len() == 0 {
        s
    } else {
        after_event(after_events(s, speed, events.drop_last()), speed, events.last())
    }
}

/// Applies one key change.
pub fn apply_key(s: Steering, speed: Speed, d: Direction, press: bool) -> (next: Steering)
    ensures
        next == after_key(s, speed, d, press),
{
    let full: i64 = speed.0 as i64;
    let mut keys = s.keys;
    let mut velocity = s.velocity;
    match d {
        Direction::Left => {
            keys.left = press;
            velocity.x = if press { -full } else if keys.right { full } else { 0 };
        },
        Direction::Right => {
            keys.right = press;
            velocity.x = if press { full } else if keys.left { -full } else { 0 };
        },
        Direction::Up => {
            keys.up = press;
            velocity.y = if press { -full } else if keys.down { full } else { 0 };
        },
        Direction::Down => {
            keys.down = press;
            velocity.y = if press { full } else if keys.up { -full } else { 0 };
        },
    }
    Steering { keys, velocity }
}

/// Applies one input event.
pub fn apply_event(s: Steering, speed: Speed, e: InputEvent) -> (next: Steering)
    ensures
        next == after_event(s, speed, e),
{
    match e.0 {
        Action::Pressed(name) => match Direction::from_action(name) {
            Some(d) => apply_key(s, speed, d, true),
            None => s,
        },
        Action::Released(name) => match Direction::from_action(name) {
            Some(d) => apply_key(s, speed, d, false),
            None => s,
        },
    }
}

/// Applies a sequence of input events, first to last.
pub fn apply_events(s: Steering, speed: Speed, events: &Vec<InputEvent>) -> (next: Steering)
    ensures
        next == after_events(s, speed, events@),
{
    let mut state = s;
    let mut i: usize = 0;
    while i < events.len()
        invariant
            i <= events.len(),
            state == after_events(s, speed, events@.take(i as int)),
        decreases events.len() - i,
    {
        assert(events@.take(i + 1).drop_last() == events@.take(i as int));
        state = apply_event(state, speed, events[i]);
        i += 1;
    }
    assert(events@.take(i as int) == events@);
    state
}

/// Whether event `i` of `events` presses the key of `d`.
pub open spec fn presses(events: Seq<InputEvent>, d: Direction, i: int) -> bool {
    0 <= i < events.len() && events[i].direction() == Some(d) && events[i].is_press()
}

/// Whether event `i` of `events` releases the key of `d`.
pub open spec fn releases(events: Seq<InputEvent>, d: Direction, i: int) -> bool {
    0 <= i < events.len() && events[i].direction() == Some(d) && !events[i].is_press()
}

/// Whether no event after event `i` releases the key of `d`.
pub open spec fn unreleased_since(events: Seq<InputEvent>, d: Direction, i: int) -> bool {
    forall|j: int| i < j ==> !#[trigger] releases(events, d, j)
}

/// Whether no event after event `i` presses the key of `d`.
pub open spec fn unpressed_since(events: Seq<InputEvent>, d: Direction, i: int) -> bool {
    forall|j: int| i < j ==> !#[trigger] presses(events, d, j)
}

/// Whether the key of `d` is down once `events` have happened: it was
/// pressed and not released since, or it was down at the start and never
/// released.
pub open spec fn held_after(start: bool, events: Seq<InputEvent>, d: Direction) -> bool {
    ||| exists|i: int| #[trigger] presses(events, d, i) && unreleased_since(events, d, i)
    ||| start && unreleased_since(events, d, -1)
}

/// Whether the key of `a` was pressed after the last press of the key of
/// `b`.
pub open spec fn pressed_later(events: Seq<InputEvent>, a: Direction, b: Direction) -> bool {
    exists|i: int| #[trigger] presses(events, a, i) && unpressed_since(events, b, i)
}

/// Whether some event concerns the axis of `d`.
pub open spec fn touches(events: Seq<InputEvent>, d: Direction) -> bool {
    exists|i: int|
        0 <= i < events.len() && (#[trigger] events[i].direction() == Some(d)
            || events[i].direction() == Some(opposite(d)))
}

/// The heading along the axis of `d` that the held keys call for, as a sign:
/// that of the one key that is down, that of the key pressed last where both
/// are down, and none where neither is.
pub open spec fn heading(events: Seq<InputEvent>, keys: HeldKeys, d: Direction) -> int {
    let o = opposite(d);
    if keys.holds(d) && keys.holds(o) {
        if pressed_later(events, d, o) { sign(d) } else { sign(o) }
    } else if keys.holds(d) {
        sign(d)
    } else if keys.holds(o) {
        sign(o)
    } else {
        0
    }
}

proof fn lemma_held_after_step(start: bool, events: Seq<InputEvent>, d: Direction)
    requires
        events.len() > 0,
    ensures
        held_after(start, events, d) == if events.last().direction() == Some(d) {
            events.last().is_press()
        } else {
            held_after(start, events.drop_last(), d)
        },
{
    let n = events.len() as int;
    let prev = events.drop_last();
    let last = events.last();
    assert forall|i: int| presses(prev, d, i) == (presses(events, d, i) && i < n - 1) by {}
    assert forall|i: int| releases(prev, d, i) == (releases(events, d, i) && i < n - 1) by {}
    if last.direction() == Some(d) {
        if last.is_press() {
            assert(presses(events, d, n - 1));
            assert(unreleased_since(events, d, n - 1));
        } else {
            assert(releases(events, d, n - 1));
            if held_after(start, events, d) {
                if start && unreleased_since(events, d, -1) {
                    assert(false);
                } else {
                    let i = choose|i: int| #[trigger]
                        presses(events, d, i) && unreleased_since(events, d, i);
                    assert(i < n - 1);
                    assert(false);
                }
            }
        }
    } else {
        assert(!presses(events, d, n - 1));
        assert(!releases(events, d, n - 1));
        if held_after(start, events, d) {
            if start && unreleased_since(events, d, -1) {
                assert forall|j: int| -1 < j implies !#[trigger] releases(prev, d, j) by {
                    assert(!releases(events, d, j));
                }
                assert(unreleased_since(prev, d, -1));
            } else {
                let i = choose|i: int| #[trigger]
                    presses(events, d, i) && unreleased_since(events, d, i);
                assert(presses(prev, d, i));
                assert forall|j: int| i < j implies !#[trigger] releases(prev, d, j) by {
                    assert(!releases(events, d, j));
                }
                assert(unreleased_since(prev, d, i));
            }
        }
        if held_after(start, prev, d) {
            if start && unreleased_since(prev, d, -1) {
                assert forall|j: int| -1 < j implies !#[trigger] releases(events, d, j) by {
                    assert(!releases(prev, d, j));
                }
                assert(unreleased_since(events, d, -1));
            } else {
                let i = choose|i: int| #[trigger]
                    presses(prev, d, i) && unreleased_since(prev, d, i);
                assert(presses(events, d, i));
                assert forall|j: int| i < j implies !#[trigger] releases(events, d, j) by {
                    assert(!releases(prev, d, j));
                }
                assert(unreleased_since(events, d, i));
            }
        }
    }
}

proof fn lemma_pressed_later_step(events: Seq<InputEvent>, a: Direction, b: Direction)
    requires
        events.len() > 0,
        a != b,
    ensures
        pressed_later(events, a, b) == if presses(events, a, events.len() - 1) {
            true
        } else if presses(events, b, events.len() - 1) {
            false
        } else {
            pressed_later(events.drop_last(), a, b)
        },
{
    let n = events.len() as int;
    let prev = events.drop_last();
    assert forall|i: int| presses(prev, a, i) == (presses(events, a, i) && i < n - 1) by {}
    assert forall|i: int| presses(prev, b, i) == (presses(events, b, i) && i < n - 1) by {}
    if presses(events, a, n - 1) {
        assert(unpressed_since(events, b, n - 1));
    } else if presses(events, b, n - 1) {
        if pressed_later(events, a, b) {
            let i = choose|i: int| #[trigger]
                presses(events, a, i) && unpressed_since(events, b, i);
            assert(i < n - 1);
            assert(false);
        }
    } else {
        if pressed_later(events, a, b) {
            let i = choose|i: int| #[trigger]
                presses(events, a, i) && unpressed_since(events, b, i);
            assert(presses(prev, a, i));
            assert forall|j: int| i < j implies !#[trigger] presses(prev, b, j) by {
                assert(!presses(events, b, j));
            }
            assert(unpressed_since(prev, b, i));
        }
        if pressed_later(prev, a, b) {
            let i = choose|i: int| #[trigger]
                presses(prev, a, i) && unpressed_since(prev, b, i);
            assert(presses(events, a, i));
            assert forall|j: int| i < j implies !#[trigger] presses(events, b, j) by {
                assert(!presses(prev, b, j));
            }
            assert(unpressed_since(events, b, i));
        }
    }
}

proof fn lemma_touches_step(events: Seq<InputEvent>, d: Direction)
    requires
        events.len() > 0,
    ensures
        touches(events, d) == (events.last().direction() == Some(d) || events.last().direction()
            == Some(opposite(d)) || touches(events.drop_last(), d)),
{
    let n = events.len() as int;
    let prev = events.drop_last();
    let o = opposite(d);
    if touches(events, d) {
        let i = choose|i: int|
            0 <= i < events.len() && (#[trigger] events[i].direction() == Some(d)
                || events[i].direction() == Some(o));
        if i < n - 1 {
            assert(prev[i].direction() == events[i].direction());
        }
    }
    if touches(prev, d) {
        let i = choose|i: int|
            0 <= i < prev.len() && (#[trigger] prev[i].direction() == Some(d)
                || prev[i].direction() == Some(o));
        assert(events[i].direction() == prev[i].direction());
    }
    if events.last().direction() == Some(d) || events.last().direction() == Some(o) {
        assert(events[n - 1].direction() == events.last().direction());
    }
}

/// Input is discrete. After any sequence of events, from any start:
/// each key is down exactly if it was pressed and not released since (or was
/// down at the start and never released); along an axis that some event
/// concerned, the velocity is the full speed in the direction of the key
/// that is down, of the one pressed last where both are, and zero where
/// neither is; along an axis that no event concerned, it is what it was.
pub proof fn lemma_input_is_discrete(
    start: Steering,
    speed: Speed,
    events: Seq<InputEvent>,
    d: Direction,
)
    ensures
        ({
            let end = after_events(start, speed, events);
            &&& end.keys.holds(d) == held_after(start.keys.holds(d), events, d)
            &&& touches(events, d) ==> rate_along(end.velocity, d) == heading(events, end.keys, d)
                * speed.0
            &&& !touches(events, d) ==> rate_along(end.velocity, d) == rate_along(
                start.velocity,
                d,
            )
        }),
    decreases events.len(),
{
    let o = opposite(d);
    if events.len() == 0 {
        assert(!held_after(start.keys.holds(d), events, d) || start.keys.holds(d));
        if start.keys.holds(d) {
            assert(unreleased_since(events, d, -1));
        }
    } else {
        let n = events.len() as int;
        let prev = events.drop_last();
        let last = events.last();
        let mid = after_events(start, speed, prev);
        let end = after_events(start, speed, events);
        assert(end == after_event(mid, speed, last));
        lemma_input_is_discrete(start, speed, prev, d);
        lemma_input_is_discrete(start, speed, prev, o);
        lemma_held_after_step(start.keys.holds(d), events, d);
        lemma_held_after_step(start.keys.holds(o), events, o);
        lemma_pressed_later_step(events, d, o);
        lemma_touches_step(events, d);
        assert(presses(events, d, n - 1) == (last.direction() == Some(d) && last.is_press()));
        assert(presses(events, o, n - 1) == (last.direction() == Some(o) && last.is_press()));
        assert(sign(d) * speed.0 == full_rate(d, speed));
        assert(sign(o) * speed.0 == full_rate(o, speed));
        assert(0 * speed.0 == 0);
        match last.direction() {
            Some(x) => {
                if x == d || x == o {
                } else {
                    assert(horizontal(x) != horizontal(d));
                }
            },
            None => {},
        }
    }
}

/// Along each axis the velocity that input leaves is the full speed, its
/// negative or zero, once any event has concerned the axis.
pub proof fn lemma_velocity_is_full_or_zero(
    start: Steering,
    speed: Speed,
    events: Seq<InputEvent>,
    d: Direction,
)
    requires
        touches(events, d),
    ensures
        ({
            let rate = rate_along(after_events(start, speed, events).velocity, d);
            rate == speed.0 || rate == -speed.0 || rate == 0
        }),
{
    lemma_input_is_discrete(start, speed, events, d);
    let end = after_events(start, speed, events);
    let h = heading(events, end.keys, d);
    assert(h == 1 || h == -1 || h == 0);
    assert(1 * speed.0 == speed.0);
    assert((-1) * speed.0 == -speed.0);
    assert(0 * speed.0 == 0);
}

} // verus!
