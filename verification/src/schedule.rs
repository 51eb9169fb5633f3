//! The schedule: which systems run at a tick, and in which order.
//!
//! A tick has three stages. `PreUpdate` turns queued input into velocity.
//! `Update` is gated by the state of the game: its driver compares the
//! state with the one it saw at the previous tick and, where they differ,
//! runs the systems that belong to the change once; then it runs the
//! systems of the state the game is in. `PostUpdate` brings the host's
//! nodes up to date.

use vstd::prelude::*;
use crate::components::Body;
use crate::requests::{released_once, reports, NodeRequest};
use crate::systems::{
    after_input, cleanup_mobs, escaped, moved_bodies, movement, process_player_movement,
    release_due, shown_mobs, steered, swept, sync_due, sync_entity, synced,
};
use crate::world::{has_single, GameWorld, WorldView};

verus! {

/// The state of the game.
#[derive(Copy, Clone, Debug, PartialEq, Eq, Hash, Structural)]
pub enum AppState {
    MainMenu,
    InGame,
}

/// A change of state, as the driver reports it at the tick at which it
/// happens.
#[derive(Copy, Clone, Debug, PartialEq, Eq, Structural)]
pub struct Transition {
    pub exited: AppState,
    pub entered: AppState,
}

/// What a schedule remembers between ticks.
#[derive(Copy, Clone, Debug, PartialEq, Eq, Structural)]
pub struct Schedule {
    /// The state the game is in.
    pub state: AppState,
    /// The state the driver saw when it last ran.
    pub seen: AppState,
}

/// What one tick asks of the host.
pub struct TickReport {
    /// The change of state that this tick acted on, if there was one.
    pub transition: Option<Transition>,
    /// Releases of the nodes of the creeps that were cleared away on
    /// entering a round. Empty at any other tick.
    pub cleared: Vec<NodeRequest>,
    /// The requests of synchronisation: a pose to write or a node to
    /// release, for every entity with a pose and a node.
    pub synced: Vec<NodeRequest>,
}

impl Schedule {
    /// The change of state that the driver reports when it next runs.
    pub open spec fn pending(self) -> Option<Transition> {
        if self.state != self.seen {
            Some(Transition { exited: self.seen, entered: self.state })
        } else {
            None
        }
    }

    /// The schedule once the driver has run.
    pub open spec fn driven(self) -> Schedule {
        Schedule { state: self.state, seen: self.state }
    }

    /// The schedule after `n` ticks during which nobody sets the state.
    pub open spec fn after_ticks(self, n: nat) -> Schedule
        decreases n,
    {
        if n == 0 {
            self
        } else {
            self.after_ticks((n - 1) as nat).driven()
        }
    }

    /// At how many of the next `n` ticks the driver reports a change of
    /// state, if nobody sets the state meanwhile.
    pub open spec fn changes_within(self, n: nat) -> nat
        decreases n,
    {
        if n == 0 {
            0
        } else {
            let earlier = self.changes_within((n - 1) as nat);
            if self.after_ticks((n - 1) as nat).pending() is Some {
                earlier + 1
            } else {
                earlier
            }
        }
    }

    /// Whether this tick runs the systems that clear a round's leftovers:
    /// the one at which the game is seen to have entered `InGame`.
    pub open spec fn enters_round(self) -> bool {
        self.state != self.seen && self.state == AppState::InGame
    }

    /// Whether this tick runs the systems of a round in progress.
    pub open spec fn in_round(self) -> bool {
        self.state == AppState::InGame
    }

    /// Makes a schedule for a game that starts, and has settled, in
    /// `initial`.
    pub fn new(initial: AppState) -> (s: Schedule)
        ensures
            s == (Schedule { state: initial, seen: initial }),
    {
        Schedule { state: initial, seen: initial }
    }

    /// Puts the game into `next`. The systems that belong to the change run
    /// at the next tick; setting the state the game is in changes nothing.
    pub fn set_state(&mut self, next: AppState)
        ensures
            *final(self) == (Schedule { state: next, seen: old(self).seen }),
    {
        self.state = next;
    }

    /// Runs the driver: reports the change of state since it last ran, if
    /// any, and takes note of the state.
    pub fn drive(&mut self) -> (change: Option<Transition>)
        ensures
            change == old(self).pending(),
            *final(self) == old(self).driven(),
    {
        let change = match (self.seen, self.state) {
            (AppState::MainMenu, AppState::InGame) => Some(
                Transition { exited: AppState::MainMenu, entered: AppState::InGame },
            ),
            (AppState::InGame, AppState::MainMenu) => Some(
                Transition { exited: AppState::InGame, entered: AppState::MainMenu },
            ),
            _ => None,
        };
        self.seen = self.state;
        change
    }

    /// The bodies as they are when the entry into a round is acted on:
    /// after input was processed.
    pub open spec fn at_clearing(self, w: WorldView) -> Map<u64, Body> {
        after_input(w).bodies
    }

    /// The bodies as synchronisation finds them at this tick: after input
    /// was processed, the leftover creeps were swept away if a round is
    /// entered, and everything has moved if a round is on.
    pub open spec fn at_sync(self, w: WorldView) -> Map<u64, Body> {
        let steered = self.at_clearing(w);
        let cleared = if self.enters_round() {
            swept(steered, shown_mobs())
        } else {
            steered
        };
        if self.in_round() {
            moved_bodies(cleared, w.delta, w.screen_size.unwrap())
        } else {
            cleared
        }
    }

    /// The world after a tick of this schedule: as synchronisation finds
    /// it, less the creeps that have left the play area.
    pub open spec fn after_tick(self, w: WorldView) -> WorldView {
        WorldView { bodies: synced(self.at_sync(w), w.screen_size.unwrap()), ..after_input(w) }
    }

    /// Runs one tick: every stage in order, every system of a stage that
    /// the state of the game admits.
    ///
    /// The play area must be known, and where input is queued there must be
    /// exactly one player to steer.
    pub fn run(&mut self, world: &mut GameWorld) -> (report: TickReport)
        requires
            old(world).wf(),
            old(world)@.screen_size is Some,
            old(world)@.pending.len() > 0 ==> has_single(old(world)@.bodies, steered()),
        ensures
            final(world).wf(),
            *final(self) == old(self).driven(),
            final(world)@ == old(self).after_tick(old(world)@),
            report.transition == old(self).pending(),
            old(self).enters_round() ==> reports(
                report.cleared@,
                old(self).at_clearing(old(world)@),
                release_due(shown_mobs()),
            ),
            !old(self).enters_round() ==> report.cleared@.len() == 0,
            reports(
                report.synced@,
                old(self).at_sync(old(world)@),
                sync_due(old(world)@.screen_size.unwrap()),
            ),
            forall|id: u64| #[trigger]
                old(self).at_sync(old(world)@).dom().contains(id) && escaped(
                    old(self).at_sync(old(world)@)[id],
                    old(world)@.screen_size.unwrap(),
                ) ==> !final(world)@.bodies.dom().contains(id) && released_once(
                    report.synced@,
                    id,
                    old(self).at_sync(old(world)@)[id].node.unwrap(),
                ),
    {
        // PreUpdate
        process_player_movement(world);
        // Update
        let transition = self.drive();
        let cleared = match transition {
            Some(Transition { exited: _, entered: AppState::InGame }) => cleanup_mobs(world),
            _ => Vec::new(),
        };
        match self.state {
            AppState::InGame => movement(world),
            AppState::MainMenu => {},
        }
        // PostUpdate
        let synced = sync_entity(world);
        TickReport { transition, cleared, synced }
    }
}

/// A change of state is acted on exactly once. However many ticks follow
/// one another without the state being set, the driver reports a change at
/// the first of them if one is pending, and at none of the others.
pub proof fn lemma_change_fires_once(s: Schedule, n: nat)
    ensures
        s.changes_within(n) == if n > 0 && s.pending() is Some { 1nat } else { 0nat },
        n > 0 ==> s.after_ticks(n).pending() is None,
        s.after_ticks(n).state == s.state,
    decreases n,
{
    if n > 0 {
        lemma_change_fires_once(s, (n - 1) as nat);
    }
}

/// Entering a round sweeps the leftover creeps exactly once: of any number
/// of ticks that follow the start of a round, only the first is one at
/// which a round is entered.
pub proof fn lemma_round_entered_once(s: Schedule, n: nat)
    requires
        s.enters_round(),
    ensures
        s.after_ticks(0).enters_round(),
        n > 0 ==> !s.after_ticks(n).enters_round(),
        n > 0 ==> s.after_ticks(n).in_round(),
{
    lemma_change_fires_once(s, n);
}

} // verus!
