//! Growth: the biomass tiers that size the parasite and scale its stats, and
//! the psychic power tiers that size the swarm.
//!
//! Biomass and psychic power are counted here in whole points (what the
//! thresholds compare), and every multiplier is an integer percentage.

use vstd::prelude::*;

verus! {

/// The parasite's size class, from its biomass.
#[derive(Clone, Copy, Debug, PartialEq, Eq, Structural)]
pub enum BiomassTier {
    Tiny,
    Small,
    Medium,
    Large,
    Apex,
}

/// The rank of a tier, from 0 (Tiny) to 4 (Apex).
pub open spec fn tier_rank(t: BiomassTier) -> int {
    match t {
        BiomassTier::Tiny => 0,
        BiomassTier::Small => 1,
        BiomassTier::Medium => 2,
        BiomassTier::Large => 3,
        BiomassTier::Apex => 4,
    }
}

/// The tier of `b` whole biomass points: up to 10 Tiny, up to 30 Small, up to
/// 75 Medium, up to 150 Large, beyond that Apex.
pub open spec fn spec_tier_of(b: u32) -> BiomassTier {
    if b <= 10 {
        BiomassTier::Tiny
    } else if b <= 30 {
        BiomassTier::Small
    } else if b <= 75 {
        BiomassTier::Medium
    } else if b <= 150 {
        BiomassTier::Large
    } else {
        BiomassTier::Apex
    }
}

/// Display scale in percent: 100, 130, 160, 200, 260.
pub open spec fn spec_scale(t: BiomassTier) -> u32 {
    match t {
        BiomassTier::Tiny => 100,
        BiomassTier::Small => 130,
        BiomassTier::Medium => 160,
        BiomassTier::Large => 200,
        BiomassTier::Apex => 260,
    }
}

/// Max-HP bonus and damage multiplier in percent: 100, 130, 170, 230, 350.
pub open spec fn spec_power_percent(t: BiomassTier) -> u32 {
    match t {
        BiomassTier::Tiny => 100,
        BiomassTier::Small => 130,
        BiomassTier::Medium => 170,
        BiomassTier::Large => 230,
        BiomassTier::Apex => 350,
    }
}

/// Speed multiplier in percent: 100, 130, 120, 130, 140 (the Small tier
/// gets +30% speed, like its HP and damage bonus).
pub open spec fn spec_speed_percent(t: BiomassTier) -> u32 {
    match t {
        BiomassTier::Tiny => 100,
        BiomassTier::Small => 130,
        BiomassTier::Medium => 120,
        BiomassTier::Large => 130,
        BiomassTier::Apex => 140,
    }
}

impl Default for BiomassTier {
    /// The starting tier.
    fn default() -> (t: Self)
        ensures
            t == BiomassTier::Tiny,
    {
        BiomassTier::Tiny
    }
}

impl BiomassTier {
    /// The tier of `b` whole biomass points.
    pub fn from_biomass(b: u32) -> (t: Self)
        ensures
            t == spec_tier_of(b),
    {
        if b <= 10 {
            BiomassTier::Tiny
        } else if b <= 30 {
            BiomassTier::Small
        } else if b <= 75 {
            BiomassTier::Medium
        } else if b <= 150 {
            BiomassTier::Large
        } else {
            BiomassTier::Apex
        }
    }

    /// The display scale of the parasite, in percent.
    pub fn scale(self) -> (s: u32)
        ensures
            s == spec_scale(self),
    {
        match self {
            BiomassTier::Tiny => 100,
            BiomassTier::Small => 130,
            BiomassTier::Medium => 160,
            BiomassTier::Large => 200,
            BiomassTier::Apex => 260,
        }
    }

    /// The max-HP bonus, in percent.
    pub fn hp_bonus(self) -> (p: u32)
        ensures
            p == spec_power_percent(self),
    {
        match self {
            BiomassTier::Tiny => 100,
            BiomassTier::Small => 130,
            BiomassTier::Medium => 170,
            BiomassTier::Large => 230,
            BiomassTier::Apex => 350,
        }
    }

    /// The damage multiplier, in percent.
    pub fn damage_multiplier(self) -> (p: u32)
        ensures
            p == spec_power_percent(self),
    {
        match self {
            BiomassTier::Tiny => 100,
            BiomassTier::Small => 130,
            BiomassTier::Medium => 170,
            BiomassTier::Large => 230,
            BiomassTier::Apex => 350,
        }
    }

    /// The movement speed multiplier, in percent.
    pub fn speed_multiplier(self) -> (p: u32)
        ensures
            p == spec_speed_percent(self),
    {
        match self {
            BiomassTier::Tiny => 100,
            BiomassTier::Small => 130,
            BiomassTier::Medium => 120,
            BiomassTier::Large => 130,
            BiomassTier::Apex => 140,
        }
    }
}

/// More biomass never means a smaller tier.
pub proof fn law_tier_monotone(b1: u32, b2: u32)
    requires
        b1 <= b2,
    ensures
        tier_rank(spec_tier_of(b1)) <= tier_rank(spec_tier_of(b2)),
{
}

/// A higher tier is strictly bigger, tougher and stronger; every tier above
/// the first is faster than the first.
pub proof fn law_tier_stats_increase(t1: BiomassTier, t2: BiomassTier)
    requires
        tier_rank(t1) < tier_rank(t2),
    ensures
        spec_scale(t1) < spec_scale(t2),
        spec_power_percent(t1) < spec_power_percent(t2),
        spec_speed_percent(BiomassTier::Tiny) < spec_speed_percent(t2),
{
}

/// A change of tier, reported when biomass crosses a threshold.
#[derive(Clone, Copy, Debug, PartialEq, Eq, Structural)]
pub struct TierChanged {
    pub old: BiomassTier,
    pub new: BiomassTier,
}

/// Moves `tier` to the tier of `biomass`; reports the change if there was one.
pub fn update_tier(tier: &mut BiomassTier, biomass: u32) -> (ev: Option<TierChanged>)
    ensures
        *final(tier) == spec_tier_of(biomass),
        ev == (if *old(tier) == spec_tier_of(biomass) {
            None::<TierChanged>
        } else {
            Some(TierChanged { old: *old(tier), new: spec_tier_of(biomass) })
        }),
{
    let new_tier = BiomassTier::from_biomass(biomass);
    if new_tier != *tier {
        let ev = TierChanged { old: *tier, new: new_tier };
        *tier = new_tier;
        Some(ev)
    } else {
        None
    }
}

/// Chebyshev range within which the active creature picks up a biomass orb.
pub const ORB_PICKUP_RANGE: i32 = 2;

/// Whether an orb at `(ox, oy)` is picked up by a creature at `(x, y)`.
pub fn orb_in_reach(x: i32, y: i32, ox: i32, oy: i32) -> (b: bool)
    ensures
        b == (crate::levels::placement::chebyshev(x as int, y as int, ox as int, oy as int) <= 2),
{
    crate::levels::placement::chebyshev_distance(x, y, ox, oy) <= ORB_PICKUP_RANGE as i64
}

/// Psychic power, in whole points, gathered with biomass.
#[derive(Clone, Copy, Debug, PartialEq, Eq, Structural)]
pub struct PsychicPower(pub u32);

/// The psychic tier of `p` points: up to 50 tier 0, up to 150 tier 1, up to
/// 300 tier 2, up to 600 tier 3, beyond that tier 4.
pub open spec fn spec_psychic_tier(p: u32) -> u8 {
    if p <= 50 {
        0
    } else if p <= 150 {
        1
    } else if p <= 300 {
        2
    } else if p <= 600 {
        3
    } else {
        4
    }
}

/// Psychic damage multiplier in percent per tier: 100, 130, 170, 230, 350.
pub open spec fn spec_psychic_damage(tier: u8) -> u32 {
    if tier == 0 {
        100
    } else if tier == 1 {
        130
    } else if tier == 2 {
        170
    } else if tier == 3 {
        230
    } else {
        350
    }
}

/// Psychic attack potency per tier: 15, 25, 40, 60, 90.
pub open spec fn spec_potency(tier: u8) -> u32 {
    if tier == 0 {
        15
    } else if tier == 1 {
        25
    } else if tier == 2 {
        40
    } else if tier == 3 {
        60
    } else {
        90
    }
}

impl Default for PsychicPower {
    fn default() -> (p: Self)
        ensures
            p.0 == 0,
    {
        PsychicPower(0)
    }
}

impl PsychicPower {
    /// The psychic tier, from 0 to 4.
    pub fn tier(&self) -> (t: u8)
        ensures
            t == spec_psychic_tier(self.0),
    {
        if self.0 <= 50 {
            0
        } else if self.0 <= 150 {
            1
        } else if self.0 <= 300 {
            2
        } else if self.0 <= 600 {
            3
        } else {
            4
        }
    }

    /// The psychic damage multiplier, in percent.
    pub fn damage_multiplier(&self) -> (m: u32)
        ensures
            m == spec_psychic_damage(spec_psychic_tier(self.0)),
    {
        let t = self.tier();
        if t == 0 {
            100
        } else if t == 1 {
            130
        } else if t == 2 {
            170
        } else if t == 3 {
            230
        } else {
            350
        }
    }

    /// How many creatures the swarm can hold: the tier plus two.
    pub fn swarm_capacity(&self) -> (c: usize)
        ensures
            c == spec_psychic_tier(self.0) + 2,
    {
        self.tier() as usize + 2
    }

    /// The potency of a psychic attack.
    pub fn attack_potency(&self) -> (a: u32)
        ensures
            a == spec_potency(spec_psychic_tier(self.0)),
    {
        let t = self.tier();
        if t == 0 {
            15
        } else if t == 1 {
            25
        } else if t == 2 {
            40
        } else if t == 3 {
            60
        } else {
            90
        }
    }
}

/// More psychic power never lowers the tier, the damage, the potency or the
/// swarm capacity.
pub proof fn law_psychic_monotone(p1: u32, p2: u32)
    requires
        p1 <= p2,
    ensures
        spec_psychic_tier(p1) <= spec_psychic_tier(p2),
        spec_psychic_damage(spec_psychic_tier(p1)) <= spec_psychic_damage(spec_psychic_tier(p2)),
        spec_potency(spec_psychic_tier(p1)) <= spec_potency(spec_psychic_tier(p2)),
{
}

/// Each psychic tier strictly raises damage and potency over the one below.
pub proof fn law_psychic_tiers_increase(t1: u8, t2: u8)
    requires
        t1 < t2 <= 4,
    ensures
        spec_psychic_damage(t1) < spec_psychic_damage(t2),
        spec_potency(t1) < spec_potency(t2),
{
}

} // verus!
