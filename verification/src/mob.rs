//! Creep archetypes. An archetype only selects the animation a creep is
//! shown with; it has no influence on the simulation.

use vstd::prelude::*;

verus! {

/// How many archetypes there are.
pub const MOB_TYPE_COUNT: u32 = 3;

/// The visual archetype of a creep.
#[derive(Copy, Clone, Debug, PartialEq, Eq, Structural)]
pub enum MobType {
    Walk,
    Swim,
    Fly,
}

impl MobType {
    /// The animation name of the archetype, as a sequence of characters.
    pub open spec fn name(self) -> Seq<char> {
        match self {
            MobType::Walk => "walk"@,
            MobType::Swim => "swim"@,
            MobType::Fly => "fly"@,
        }
    }

    /// The archetype with the given number, counted from 0 in the order
    /// walk, swim, fly.
    pub open spec fn at(index: int) -> Option<MobType> {
        if index == 0 {
            Some(MobType::Walk)
        } else if index == 1 {
            Some(MobType::Swim)
        } else if index == 2 {
            Some(MobType::Fly)
        } else {
            None
        }
    }

    /// Returns the archetype with the given number, or `None` where the
    /// number is not below `MOB_TYPE_COUNT`.
    pub fn from_index(index: u32) -> (found: Option<MobType>)
        ensures
            found == MobType::at(index as int),
            found is Some <==> index < MOB_TYPE_COUNT,
    {
        if index == 0 {
            Some(MobType::Walk)
        } else if index == 1 {
            Some(MobType::Swim)
        } else if index == 2 {
            Some(MobType::Fly)
        } else {
            None
        }
    }

    /// Returns the name of the animation clip that shows this archetype.
    pub fn to_str(self) -> (s: String)
        ensures
            s@ == self.name(),
    {
        match self {
            MobType::Walk => "walk".to_string(),
            MobType::Swim => "swim".to_string(),
            MobType::Fly => "fly".to_string(),
        }
    }
}

} // verus!
