//! The population of the current level: how many of its people are left.

use vstd::prelude::*;

verus! {

/// The level's population: how many are alive, how many there were, and
/// whether the boss has been placed.
#[derive(Clone, Copy, Debug, PartialEq, Eq, Structural)]
pub struct PopulationDensity {
    pub current: i32,
    pub max: i32,
    pub boss_spawned: bool,
}

impl Default for PopulationDensity {
    fn default() -> (d: Self)
        ensures
            d.current == 0,
            d.max == 0,
            !d.boss_spawned,
    {
        PopulationDensity { current: 0, max: 0, boss_spawned: false }
    }
}

/// One fewer, but never below zero.
pub open spec fn decremented(current: i32) -> i32 {
    if current - 1 < 0 {
        0
    } else {
        (current - 1) as i32
    }
}

impl PopulationDensity {
    /// A fresh level with `total` people, its boss already placed.
    pub fn for_level(total: i32) -> (d: Self)
        ensures
            d.current == total,
            d.max == total,
            d.boss_spawned,
    {
        PopulationDensity { current: total, max: total, boss_spawned: true }
    }

    /// Someone died. Deaths of bosses do not count, and nothing is counted
    /// before a level has a population.
    pub fn record_death(&mut self, is_boss: bool)
        requires
            old(self).current > i32::MIN,
        ensures
            *final(self) == (if old(self).max == 0 || is_boss {
                *old(self)
            } else {
                PopulationDensity { current: decremented(old(self).current), ..*old(self) }
            }),
    {
        if self.max == 0 || is_boss {
            return;
        }
        let next = self.current - 1;
        self.current = if next < 0 { 0 } else { next };
    }
}

/// A death never raises the count and never takes it below zero.
pub proof fn law_population_never_negative(current: i32)
    requires
        current > i32::MIN,
    ensures
        decremented(current) >= 0,
        decremented(current) <= current || current < 0,
        current > 0 ==> decremented(current) == current - 1,
{
}

} // verus!
