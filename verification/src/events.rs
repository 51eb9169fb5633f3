//! Input events and the action names they carry.

use vstd::prelude::*;

verus! {

/// What happened to an input action. The text is the action's name; names
/// that stand for no direction are carried along and later ignored.
#[derive(Copy, Clone, Debug)]
pub enum Action {
    Pressed(&'static str),
    Released(&'static str),
}

/// One input event, as queued by the host's input callback.
#[derive(Copy, Clone, Debug)]
pub struct InputEvent(pub Action);

/// The four directions that the player can be steered in.
#[derive(Copy, Clone, Debug, PartialEq, Eq, Structural)]
pub enum Direction {
    Left,
    Right,
    Up,
    Down,
}

impl Direction {
    /// The action name of a direction, as a sequence of characters.
    pub open spec fn name(self) -> Seq<char> {
        match self {
            Direction::Left => "move-left"@,
            Direction::Right => "move-right"@,
            Direction::Up => "move-up"@,
            Direction::Down => "move-down"@,
        }
    }

    /// The direction that an action name stands for, if any. The names are
    /// tried in the order left, right, up, down.
    pub open spec fn parse(name: Seq<char>) -> Option<Direction> {
        if name == Direction::Left.name() {
            Some(Direction::Left)
        } else if name == Direction::Right.name() {
            Some(Direction::Right)
        } else if name == Direction::Up.name() {
            Some(Direction::Up)
        } else if name == Direction::Down.name() {
            Some(Direction::Down)
        } else {
            None
        }
    }

    /// Returns the action name under which this direction is reported.
    pub fn action_name(self) -> (name: &'static str)
        ensures
            name@ == self.name(),
    {
        match self {
            Direction::Left => "move-left",
            Direction::Right => "move-right",
            Direction::Up => "move-up",
            Direction::Down => "move-down",
        }
    }

    /// Returns the direction that `action` names, or `None` for any other
    /// text.
    pub fn from_action(action: &str) -> (found: Option<Direction>)
        ensures
            found == Direction::parse(action@),
    {
        if same_text(action, "move-left") {
            Some(Direction::Left)
        } else if same_text(action, "move-right") {
            Some(Direction::Right)
        } else if same_text(action, "move-up") {
            Some(Direction::Up)
        } else if same_text(action, "move-down") {
            Some(Direction::Down)
        } else {
            None
        }
    }
}

impl InputEvent {
    /// The direction that the event concerns, if its action names one.
    pub open spec fn direction(self) -> Option<Direction> {
        match self.0 {
            Action::Pressed(name) => Direction::parse(name@),
            Action::Released(name) => Direction::parse(name@),
        }
    }

    /// Whether the event reports a press (otherwise a release).
    pub open spec fn is_press(self) -> bool {
        self.0 is Pressed
    }
}

/// Tells whether two texts hold the same characters.
pub fn same_text(a: &str, b: &str) -> (same: bool)
    ensures
        same == (a@ == b@),
{
    let n = a.unicode_len();
    if n != b.unicode_len() {
        return false;
    }
    let mut i: usize = 0;
    while i < n
        invariant
            n == a@.len(),
            n == b@.len(),
            i <= n,
            forall|k: int| 0 <= k < i ==> a@[k] == b@[k],
        decreases n - i,
    {
        if a.get_char(i) != b.get_char(i) {
            return false;
        }
        i += 1;
    }
    assert(a@ =~= b@);
    true
}

} // verus!
