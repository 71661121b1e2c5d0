//! The three factions that run the city, how far the player has come with
//! each, and the rules of the player's dealings with their bosses: the deal
//! offer, the accepted plan, surrender, sparing and consuming.

use vstd::prelude::*;

use crate::swarm::{spec_unlock, CreatureKind, SwarmUnlocks};

verus! {

/// The three factions that control the city.
#[derive(Clone, Copy, PartialEq, Eq, Debug, Structural)]
pub enum FactionId {
    Syndicate,
    Precinct,
    Covenant,
}

impl FactionId {
    /// The faction's name.
    pub fn display_name(self) -> (s: &'static str)
        ensures
            s@ == (match self {
                FactionId::Syndicate => "Syndicate"@,
                FactionId::Precinct => "Precinct"@,
                FactionId::Covenant => "Covenant"@,
            }),
    {
        match self {
            FactionId::Syndicate => "Syndicate",
            FactionId::Precinct => "Precinct",
            FactionId::Covenant => "Covenant",
        }
    }

    /// The name of the faction's boss.
    pub fn boss_name(self) -> (s: &'static str)
        ensures
            s@ == (match self {
                FactionId::Syndicate => "Don Varro"@,
                FactionId::Precinct => "Chief Harlan"@,
                FactionId::Covenant => "The Prophet"@,
            }),
    {
        match self {
            FactionId::Syndicate => "Don Varro",
            FactionId::Precinct => "Chief Harlan",
            FactionId::Covenant => "The Prophet",
        }
    }
}

/// What a faction boss says when it stops to offer the player a deal.
pub fn deal_offer_line(fid: FactionId) -> (s: &'static str)
    ensures
        s@ == (match fid {
            FactionId::Syndicate => "I've heard about you. You're more useful to me alive. Take out my rival's enforcer first — then we talk."@,
            FactionId::Precinct => "Stand down. I can offer you immunity in exchange for one small task. There's a criminal informant I need eliminated."@,
            FactionId::Covenant => "You carry the hunger of the void. We welcome you, devourer. Complete our ritual — consume five of the unworthy — and join our ascension."@,
        }),
{
    match fid {
        FactionId::Syndicate => "I've heard about you. You're more useful to me alive. Take out my rival's enforcer first — then we talk.",
        FactionId::Precinct => "Stand down. I can offer you immunity in exchange for one small task. There's a criminal informant I need eliminated.",
        FactionId::Covenant => "You carry the hunger of the void. We welcome you, devourer. Complete our ritual — consume five of the unworthy — and join our ascension.",
    }
}

/// What a faction boss says once the player takes its deal: where the job is.
pub fn plan_accepted_line(fid: FactionId) -> (s: &'static str)
    ensures
        s@ == (match fid {
            FactionId::Syndicate => "Good. The enforcer runs near the east docks. Kill him and report back."@,
            FactionId::Precinct => "The informant was last seen near the central plaza. Make it look clean."@,
            FactionId::Covenant => "The unworthy wander the streets. Consume five of them within the marked zone and return to me."@,
        }),
{
    match fid {
        FactionId::Syndicate => "Good. The enforcer runs near the east docks. Kill him and report back.",
        FactionId::Precinct => "The informant was last seen near the central plaza. Make it look clean.",
        FactionId::Covenant => "The unworthy wander the streets. Consume five of them within the marked zone and return to me.",
    }
}

/// What a beaten faction boss says when it surrenders.
pub fn surrender_line(fid: FactionId) -> (s: &'static str)
    ensures
        s@ == (match fid {
            FactionId::Syndicate => "Enough! You've beaten me. Take what you need — just let me live."@,
            FactionId::Precinct => "I yield. The city is yours. Take the biomass and spare my life."@,
            FactionId::Covenant => "The void... it speaks through you. Take our offering. We submit."@,
        }),
{
    match fid {
        FactionId::Syndicate => "Enough! You've beaten me. Take what you need — just let me live.",
        FactionId::Precinct => "I yield. The city is yours. Take the biomass and spare my life.",
        FactionId::Covenant => "The void... it speaks through you. Take our offering. We submit.",
    }
}

/// What a faction boss says when it pays out for a finished job.
pub fn plan_reward_line(fid: FactionId) -> (s: &'static str)
    ensures
        s@ == (match fid {
            FactionId::Syndicate => "A deal's a deal. Take it and go."@,
            FactionId::Precinct => "Efficient. The payment is yours. We're done here."@,
            FactionId::Covenant => "The ritual is complete. The void thanks you, devourer."@,
        }),
{
    match fid {
        FactionId::Syndicate => "A deal's a deal. Take it and go.",
        FactionId::Precinct => "Efficient. The payment is yours. We're done here.",
        FactionId::Covenant => "The ritual is complete. The void thanks you, devourer.",
    }
}

/// How far the player has come with one faction.
#[derive(Clone, Copy, PartialEq, Eq, Debug, Structural)]
pub enum FactionState {
    Untouched,
    PlanAccepted,
    JobComplete,
    Resolved,
}

impl Default for FactionState {
    fn default() -> (s: Self)
        ensures
            s == FactionState::Untouched,
    {
        FactionState::Untouched
    }
}

/// The player's standing with every faction, and whether the General is dead.
#[derive(Clone, Copy, PartialEq, Eq, Debug, Structural)]
pub struct FactionProgress {
    pub syndicate: FactionState,
    pub precinct: FactionState,
    pub covenant: FactionState,
    pub general_defeated: bool,
}

impl Default for FactionProgress {
    /// Every faction untouched, the General alive.
    fn default() -> (p: Self)
        ensures
            p.syndicate == FactionState::Untouched,
            p.precinct == FactionState::Untouched,
            p.covenant == FactionState::Untouched,
            !p.general_defeated,
    {
        FactionProgress {
            syndicate: FactionState::Untouched,
            precinct: FactionState::Untouched,
            covenant: FactionState::Untouched,
            general_defeated: false,
        }
    }
}

/// One when the faction is resolved.
pub open spec fn resolved_one(s: FactionState) -> nat {
    if s == FactionState::Resolved {
        1
    } else {
        0
    }
}

/// The outcome of a faction boss's death.
#[derive(Clone, Copy, PartialEq, Eq, Debug, Structural)]
pub enum BossKillOutcome {
    /// The faction was resolved already; nothing changes.
    AlreadyResolved,
    /// The faction is now resolved; with the plan reward if the job had been
    /// done for the boss before the player turned on them.
    Resolved { plan_reward: bool },
}

impl FactionProgress {
    /// The standing with faction `id`.
    pub open spec fn spec_get(&self, id: FactionId) -> FactionState {
        match id {
            FactionId::Syndicate => self.syndicate,
            FactionId::Precinct => self.precinct,
            FactionId::Covenant => self.covenant,
        }
    }

    /// The progress with faction `id` set to `s`.
    pub open spec fn spec_with(&self, id: FactionId, s: FactionState) -> FactionProgress {
        match id {
            FactionId::Syndicate => FactionProgress { syndicate: s, ..*self },
            FactionId::Precinct => FactionProgress { precinct: s, ..*self },
            FactionId::Covenant => FactionProgress { covenant: s, ..*self },
        }
    }

    /// How many factions are resolved.
    pub open spec fn spec_resolved_count(&self) -> nat {
        resolved_one(self.syndicate) + resolved_one(self.precinct) + resolved_one(self.covenant)
    }

    /// Whether all three factions are resolved.
    pub open spec fn spec_all_resolved(&self) -> bool {
        &&& self.syndicate == FactionState::Resolved
        &&& self.precinct == FactionState::Resolved
        &&& self.covenant == FactionState::Resolved
    }

    pub fn all_factions_resolved(&self) -> (b: bool)
        ensures
            b == self.spec_all_resolved(),
    {
        self.syndicate == FactionState::Resolved && self.precinct == FactionState::Resolved && self.covenant
            == FactionState::Resolved
    }

    pub fn resolved_count(&self) -> (n: usize)
        ensures
            n == self.spec_resolved_count(),
    {
        let states: [FactionState; 3] = [self.syndicate, self.precinct, self.covenant];
        let mut n: usize = 0;
        let mut i: usize = 0;
        while i < 3
            invariant
                i <= 3,
                states@ == seq![self.syndicate, self.precinct, self.covenant],
                n == (if i >= 1 { resolved_one(self.syndicate) } else { 0 }) + (if i >= 2 {
                    resolved_one(self.precinct)
                } else {
                    0
                }) + (if i >= 3 { resolved_one(self.covenant) } else { 0 }),
            decreases 3 - i,
        {
            if states[i] == FactionState::Resolved {
                n = n + 1;
            }
            i = i + 1;
        }
        n
    }

    pub fn get(&self, id: FactionId) -> (s: FactionState)
        ensures
            s == self.spec_get(id),
    {
        match id {
            FactionId::Syndicate => self.syndicate,
            FactionId::Precinct => self.precinct,
            FactionId::Covenant => self.covenant,
        }
    }

    /// The standing with faction `id`, to change in place; the other factions
    /// and the General are left as they are.
    pub fn get_mut(&mut self, id: FactionId) -> (r: &mut FactionState)
        ensures
            *r == old(self).spec_get(id),
            *final(self) == old(self).spec_with(id, *final(r)),
    {
        match id {
            FactionId::Syndicate => &mut self.syndicate,
            FactionId::Precinct => &mut self.precinct,
            FactionId::Covenant => &mut self.covenant,
        }
    }

    /// The job for faction `id` is done: an accepted plan becomes a completed
    /// job; any other standing stays. Returns whether it changed.
    pub fn complete_job(&mut self, id: FactionId) -> (changed: bool)
        ensures
            changed == (old(self).spec_get(id) == FactionState::PlanAccepted),
            *final(self) == (if changed {
                old(self).spec_with(id, FactionState::JobComplete)
            } else {
                *old(self)
            }),
    {
        if self.get(id) == FactionState::PlanAccepted {
            *self.get_mut(id) = FactionState::JobComplete;
            true
        } else {
            false
        }
    }

    /// Resolves faction `id` (its boss spared or dead). Returns whether it was
    /// not resolved before.
    pub fn resolve(&mut self, id: FactionId) -> (newly: bool)
        ensures
            newly == (old(self).spec_get(id) != FactionState::Resolved),
            *final(self) == old(self).spec_with(id, FactionState::Resolved),
    {
        if self.get(id) != FactionState::Resolved {
            *self.get_mut(id) = FactionState::Resolved;
            true
        } else {
            proof {
                assert(old(self).spec_with(id, FactionState::Resolved) == *old(self));
            }
            false
        }
    }

    /// A faction boss died: unless the faction is resolved already it becomes
    /// resolved, with the plan reward if the job had been completed.
    pub fn on_boss_killed(&mut self, id: FactionId) -> (out: BossKillOutcome)
        ensures
            old(self).spec_get(id) == FactionState::Resolved ==> out == BossKillOutcome::AlreadyResolved
                && *final(self) == *old(self),
            old(self).spec_get(id) != FactionState::Resolved ==> out == (BossKillOutcome::Resolved {
                plan_reward: old(self).spec_get(id) == FactionState::JobComplete,
            }) && *final(self) == old(self).spec_with(id, FactionState::Resolved),
    {
        let st = self.get(id);
        if st == FactionState::Resolved {
            return BossKillOutcome::AlreadyResolved;
        }
        let plan_reward = st == FactionState::JobComplete;
        *self.get_mut(id) = FactionState::Resolved;
        BossKillOutcome::Resolved { plan_reward }
    }

    /// The player accepted faction `id`'s plan.
    pub fn accept_plan(&mut self, id: FactionId)
        ensures
            *final(self) == old(self).spec_with(id, FactionState::PlanAccepted),
    {
        *self.get_mut(id) = FactionState::PlanAccepted;
    }

    /// General Marak is dead. Returns whether this is news.
    pub fn on_general_killed(&mut self) -> (newly: bool)
        ensures
            newly == !old(self).general_defeated,
            *final(self) == (FactionProgress { general_defeated: true, ..*old(self) }),
    {
        let newly = !self.general_defeated;
        self.general_defeated = true;
        newly
    }
}

/// All three factions are resolved exactly when the resolved count is three.
pub proof fn law_all_resolved_iff_count_three(p: FactionProgress)
    ensures
        p.spec_all_resolved() <==> p.spec_resolved_count() == 3,
        p.spec_resolved_count() <= 3,
{
}

/// Setting a faction's standing and reading it back gives that standing;
/// the other factions are untouched.
pub proof fn law_get_after_set(p: FactionProgress, id: FactionId, other: FactionId, s: FactionState)
    ensures
        p.spec_with(id, s).spec_get(id) == s,
        other != id ==> p.spec_with(id, s).spec_get(other) == p.spec_get(other),
        p.spec_with(id, s).general_defeated == p.general_defeated,
{
}

/// Resolving never lowers the resolved count, and resolving twice is the
/// same as resolving once.
pub proof fn law_resolve_monotone(p: FactionProgress, id: FactionId)
    ensures
        p.spec_with(id, FactionState::Resolved).spec_resolved_count() >= p.spec_resolved_count(),
        p.spec_with(id, FactionState::Resolved).spec_with(id, FactionState::Resolved) == p.spec_with(
            id,
            FactionState::Resolved,
        ),
        p.spec_get(id) != FactionState::Resolved ==> p.spec_with(id, FactionState::Resolved).spec_resolved_count()
            == p.spec_resolved_count() + 1,
{
}

/// Completing a job never changes how many factions are resolved.
pub proof fn law_complete_job_keeps_count(p: FactionProgress, id: FactionId)
    requires
        p.spec_get(id) == FactionState::PlanAccepted,
    ensures
        p.spec_with(id, FactionState::JobComplete).spec_resolved_count() == p.spec_resolved_count(),
{
}

/// The player's relation to a faction boss.
#[derive(Clone, Copy, PartialEq, Eq, Debug, Structural)]
pub enum BossRelation {
    Hostile,
    /// The boss paused and waits for the player's decision.
    OfferingDeal,
    /// The player accepted the plan; the boss is not hostile.
    DealAccepted,
    /// The boss is beaten and waits to be consumed or spared.
    Surrendered,
}

impl Default for BossRelation {
    fn default() -> (r: Self)
        ensures
            r == BossRelation::Hostile,
    {
        BossRelation::Hostile
    }
}

/// Chebyshev distance at which an untouched hostile boss offers a deal.
pub const DEAL_OFFER_DIST: i32 = 5;

/// Chebyshev distance within which a surrendered boss can be consumed.
pub const BOSS_CONSUME_RANGE: i32 = 2;

/// Chebyshev distance at which walking away from a surrendered boss spares it.
pub const WALKAWAY_DIST: i32 = 10;

/// Civilians to consume in the ritual zone to complete the Covenant's job.
pub const COVENANT_RITUAL_GOAL: u32 = 5;

/// Civilians consumed so far in the Covenant's ritual zone.
#[derive(Clone, Copy, PartialEq, Eq, Debug, Structural)]
pub struct CovenantRitualCount(pub u32);

/// Marks the creature whose death completes a faction's job.
#[derive(Clone, Copy, PartialEq, Eq, Debug, Structural)]
pub struct FactionJobTarget(pub FactionId);

/// A faction's job has been done.
#[derive(Clone, Copy, PartialEq, Eq, Debug, Structural)]
pub struct FactionJobCompleted(pub FactionId);

/// A faction has been resolved.
#[derive(Clone, Copy, PartialEq, Eq, Debug, Structural)]
pub struct FactionResolved(pub FactionId);

/// A hostile boss of an untouched faction, within `DEAL_OFFER_DIST` of the
/// player, offers a deal.
pub fn offers_deal(rel: BossRelation, state: FactionState, dist: i64) -> (b: bool)
    ensures
        b == (rel == BossRelation::Hostile && state == FactionState::Untouched && dist <= 5),
{
    rel == BossRelation::Hostile && state == FactionState::Untouched && dist <= DEAL_OFFER_DIST as i64
}

/// The player accepts an offered deal when within two tiles more than the
/// offer distance.
pub fn accepts_deal(rel: BossRelation, dist: i64) -> (b: bool)
    ensures
        b == (rel == BossRelation::OfferingDeal && dist <= 7),
{
    rel == BossRelation::OfferingDeal && dist <= DEAL_OFFER_DIST as i64 + 2
}

/// When the negotiation times out, a boss still offering a deal turns hostile.
pub fn negotiation_expired(rel: BossRelation) -> (r: BossRelation)
    ensures
        r == (if rel == BossRelation::OfferingDeal { BossRelation::Hostile } else { rel }),
{
    if rel == BossRelation::OfferingDeal {
        BossRelation::Hostile
    } else {
        rel
    }
}

/// A boss brought to low health, still alive and not yet surrendered,
/// surrenders.
pub fn surrenders(rel: BossRelation, low_health: bool) -> (b: bool)
    ensures
        b == (rel != BossRelation::Surrendered && low_health),
{
    rel != BossRelation::Surrendered && low_health
}

/// A surrendered boss within `BOSS_CONSUME_RANGE` can be consumed.
pub fn can_consume_boss(rel: BossRelation, dist: i64) -> (b: bool)
    ensures
        b == (rel == BossRelation::Surrendered && dist <= 2),
{
    rel == BossRelation::Surrendered && dist <= BOSS_CONSUME_RANGE as i64
}

/// Walking `WALKAWAY_DIST` or more away from a surrendered boss spares it.
pub fn walked_away(rel: BossRelation, dist: i64) -> (b: bool)
    ensures
        b == (rel == BossRelation::Surrendered && dist >= 10),
{
    rel == BossRelation::Surrendered && dist >= WALKAWAY_DIST as i64
}

/// Returning to a boss whose plan job is done, within `DEAL_OFFER_DIST`,
/// collects the plan reward.
pub fn plan_reward_due(rel: BossRelation, state: FactionState, dist: i64) -> (b: bool)
    ensures
        b == (rel == BossRelation::DealAccepted && state == FactionState::JobComplete && dist <= 5),
{
    rel == BossRelation::DealAccepted && state == FactionState::JobComplete && dist <= DEAL_OFFER_DIST as i64
}

/// The biomass a completed job pays: dropped as an orb when collected, or
/// absorbed at once when the boss is killed after the job.
pub const PLAN_REWARD_BIOMASS: u32 = 150;

/// Collecting the plan reward from a boss whose job is done, within
/// `DEAL_OFFER_DIST`: the boss turns hostile again (it may now be spared or
/// consumed) and drops an orb worth `PLAN_REWARD_BIOMASS`. Otherwise nothing
/// happens.
pub fn collect_plan_reward(rel: &mut BossRelation, state: FactionState, dist: i64) -> (orb: Option<u32>)
    ensures
        (*old(rel) == BossRelation::DealAccepted && state == FactionState::JobComplete && dist <= 5) ==> orb
            == Some(150u32) && *final(rel) == BossRelation::Hostile,
        !(*old(rel) == BossRelation::DealAccepted && state == FactionState::JobComplete && dist <= 5) ==> orb
            is None && *final(rel) == *old(rel),
{
    if plan_reward_due(*rel, state, dist) {
        *rel = BossRelation::Hostile;
        Some(PLAN_REWARD_BIOMASS)
    } else {
        None
    }
}

impl FactionProgress {
    /// A faction boss died, as `on_boss_killed`; when the job had been done
    /// before the player turned on the boss, `PLAN_REWARD_BIOMASS` is added
    /// to `biomass` (saturating at the largest `u32`).
    pub fn on_boss_killed_paid(&mut self, id: FactionId, biomass: &mut u32) -> (out: BossKillOutcome)
        ensures
            old(self).spec_get(id) == FactionState::Resolved ==> out == BossKillOutcome::AlreadyResolved
                && *final(self) == *old(self) && *final(biomass) == *old(biomass),
            old(self).spec_get(id) != FactionState::Resolved ==> out == (BossKillOutcome::Resolved {
                plan_reward: old(self).spec_get(id) == FactionState::JobComplete,
            }) && *final(self) == old(self).spec_with(id, FactionState::Resolved),
            old(self).spec_get(id) == FactionState::JobComplete ==> *final(biomass) == (if *old(biomass) + 150
                <= u32::MAX {
                (*old(biomass) + 150) as u32
            } else {
                u32::MAX
            }),
            old(self).spec_get(id) != FactionState::JobComplete ==> *final(biomass) == *old(biomass),
    {
        let out = self.on_boss_killed(id);
        match out {
            BossKillOutcome::Resolved { plan_reward: true } => {
                *biomass = biomass.saturating_add(PLAN_REWARD_BIOMASS);
            },
            _ => {},
        }
        out
    }
}

/// A faction was resolved: unlocks the creatures its new resolved count earns.
pub fn on_faction_resolved(progress: &FactionProgress, unlocks: &mut SwarmUnlocks)
    ensures
        final(unlocks).unlocked@ == (if progress.spec_resolved_count() == 1 {
            spec_unlock(old(unlocks).unlocked@, CreatureKind::Ravager)
        } else if progress.spec_resolved_count() == 2 {
            spec_unlock(spec_unlock(old(unlocks).unlocked@, CreatureKind::Spitter), CreatureKind::Voidthrall)
        } else {
            old(unlocks).unlocked@
        }),
{
    let count = progress.resolved_count();
    if count == 1 {
        unlocks.unlock(CreatureKind::Ravager);
    } else if count == 2 {
        unlocks.unlock(CreatureKind::Spitter);
        unlocks.unlock(CreatureKind::Voidthrall);
    }
}

} // verus!
