//! The main quest: escape the jail, bring down the three factions, survive
//! the army, defeat the General. Each check below is one of the rules that
//! move the quest on, given what happened in the world.

use vstd::prelude::*;

use crate::ending::EndingPhase;
use crate::faction::FactionProgress;
use crate::levels::placement::{chebyshev, chebyshev_distance};
use crate::levels::world::{FORTRESS_ENTRY_Y, JAIL_BOUNDARY_X, SYNDICATE_OFFSET_X};
use crate::swarm::{spec_unlock, CreatureKind, SwarmUnlocks};

verus! {

/// Where the player stands in the story.
#[derive(Clone, Copy, PartialEq, Eq, Debug, Structural)]
pub enum QuestState {
    Escape,
    /// Kept so that older saves load; it plays as `FactionHunt`.
    HitJob,
    /// Kept so that older saves load.
    Confrontation,
    /// Kept so that older saves load.
    Betrayal,
    /// Kept so that older saves load; loaded as `FactionHunt`.
    Complete,
    /// The player is free to take on any of the three factions.
    FactionHunt,
    /// All three factions are resolved; the army mobilises.
    ArmyInvasion,
    /// The player has entered the General's Fortress.
    FinalBattle,
    /// General Marak is defeated; the game is won.
    Victory,
}

impl Default for QuestState {
    fn default() -> (q: Self)
        ensures
            q == QuestState::Escape,
    {
        QuestState::Escape
    }
}

/// The step number shown for a quest state.
pub open spec fn spec_step(q: QuestState) -> nat {
    match q {
        QuestState::Escape => 0,
        QuestState::HitJob | QuestState::FactionHunt => 1,
        QuestState::Confrontation => 2,
        QuestState::Betrayal => 3,
        QuestState::Complete | QuestState::ArmyInvasion => 4,
        QuestState::FinalBattle => 5,
        QuestState::Victory => 6,
    }
}

/// The state that follows `q` in the story; the legacy states lead back to
/// the faction hunt, and victory is final.
pub open spec fn spec_advance(q: QuestState) -> QuestState {
    match q {
        QuestState::Escape => QuestState::FactionHunt,
        QuestState::HitJob => QuestState::FactionHunt,
        QuestState::Confrontation => QuestState::Betrayal,
        QuestState::Betrayal => QuestState::FactionHunt,
        QuestState::Complete => QuestState::FactionHunt,
        QuestState::FactionHunt => QuestState::ArmyInvasion,
        QuestState::ArmyInvasion => QuestState::FinalBattle,
        QuestState::FinalBattle => QuestState::Victory,
        QuestState::Victory => QuestState::Victory,
    }
}

/// `q` advanced `n` times.
pub open spec fn advanced(q: QuestState, n: nat) -> QuestState
    decreases n,
{
    if n == 0 {
        q
    } else {
        advanced(spec_advance(q), (n - 1) as nat)
    }
}

/// The states of the story as it is played now (not the legacy ones).
pub open spec fn on_main_path(q: QuestState) -> bool {
    q == QuestState::Escape || q == QuestState::FactionHunt || q == QuestState::ArmyInvasion || q
        == QuestState::FinalBattle || q == QuestState::Victory
}

impl QuestState {
    pub fn current_step(&self) -> (s: usize)
        ensures
            s == spec_step(*self),
    {
        match self {
            QuestState::Escape => 0,
            QuestState::HitJob | QuestState::FactionHunt => 1,
            QuestState::Confrontation => 2,
            QuestState::Betrayal => 3,
            QuestState::Complete | QuestState::ArmyInvasion => 4,
            QuestState::FinalBattle => 5,
            QuestState::Victory => 6,
        }
    }

    pub fn advance(&mut self)
        ensures
            *final(self) == spec_advance(*old(self)),
    {
        *self = match *self {
            QuestState::Escape => QuestState::FactionHunt,
            QuestState::HitJob => QuestState::FactionHunt,
            QuestState::Confrontation => QuestState::Betrayal,
            QuestState::Betrayal => QuestState::FactionHunt,
            QuestState::Complete => QuestState::FactionHunt,
            QuestState::FactionHunt => QuestState::ArmyInvasion,
            QuestState::ArmyInvasion => QuestState::FinalBattle,
            QuestState::FinalBattle => QuestState::Victory,
            QuestState::Victory => QuestState::Victory,
        };
    }
}

/// Victory is final: advancing from it stays there.
pub proof fn law_victory_is_final(n: nat)
    ensures
        spec_advance(QuestState::Victory) == QuestState::Victory,
        advanced(QuestState::Victory, n) == QuestState::Victory,
    decreases n,
{
    if n > 0 {
        law_victory_is_final((n - 1) as nat);
    }
}

/// On the main path every advance raises the step, until victory.
pub proof fn law_main_path_advances(q: QuestState)
    requires
        on_main_path(q),
        q != QuestState::Victory,
    ensures
        on_main_path(spec_advance(q)),
        spec_step(spec_advance(q)) > spec_step(q),
{
}

/// From any state, five advances reach victory (four from the main path).
pub proof fn law_advancing_reaches_victory(q: QuestState)
    ensures
        advanced(q, 5) == QuestState::Victory,
        on_main_path(q) ==> advanced(q, 4) == QuestState::Victory,
{
    reveal_with_fuel(advanced, 6);
}

/// Steps run from 0 to 6.
pub proof fn law_step_bounded(q: QuestState)
    ensures
        spec_step(q) <= 6,
        spec_step(q) == 6 <==> q == QuestState::Victory,
{
}

/// The boss of the district is dead.
#[derive(Clone, Copy, PartialEq, Eq, Debug, Structural)]
pub struct BossDefeated(pub bool);

/// The escape has fired; it fires once.
#[derive(Clone, Copy, PartialEq, Eq, Debug, Structural)]
pub struct EscapeFired(pub bool);

/// The entry into the Fortress has fired; it fires once.
#[derive(Clone, Copy, PartialEq, Eq, Debug, Structural)]
pub struct FortressEntryFired(pub bool);

impl Default for BossDefeated {
    fn default() -> (b: Self)
        ensures
            !b.0,
    {
        BossDefeated(false)
    }
}

impl Default for EscapeFired {
    fn default() -> (b: Self)
        ensures
            !b.0,
    {
        EscapeFired(false)
    }
}

impl Default for FortressEntryFired {
    fn default() -> (b: Self)
        ensures
            !b.0,
    {
        FortressEntryFired(false)
    }
}

/// Whether the escape fires: still escaping, not fired, and the player past
/// the jail boundary.
pub open spec fn escape_fires(q: QuestState, fired: bool, x: i32) -> bool {
    q == QuestState::Escape && !fired && x > 62
}

/// The player leaves the jail: the quest moves to the faction hunt, the
/// escape is marked as fired and the Scuttler is unlocked. Returns whether
/// this happened.
pub fn check_escape(q: &mut QuestState, fired: &mut EscapeFired, unlocks: &mut SwarmUnlocks, x: i32) -> (b: bool)
    ensures
        b == escape_fires(*old(q), old(fired).0, x),
        b ==> *final(q) == QuestState::FactionHunt && final(fired).0 && final(unlocks).unlocked@ == spec_unlock(
            old(unlocks).unlocked@,
            CreatureKind::Scuttler,
        ),
        !b ==> *final(q) == *old(q) && *final(fired) == *old(fired) && final(unlocks).unlocked@ == old(
            unlocks,
        ).unlocked@,
{
    if *q != QuestState::Escape || fired.0 {
        return false;
    }
    if x > JAIL_BOUNDARY_X {
        fired.0 = true;
        *q = QuestState::FactionHunt;
        unlocks.unlock(CreatureKind::Scuttler);
        true
    } else {
        false
    }
}

/// The escape fires at most once: once it has fired, it does not fire again.
pub proof fn law_escape_fires_once(q: QuestState, fired: bool, x: i32, x2: i32)
    requires
        escape_fires(q, fired, x),
    ensures
        !escape_fires(QuestState::FactionHunt, true, x2),
{
}

/// The first time the escaped player reaches the faction zones the Grasper is
/// unlocked. Returns whether it was unlocked now.
pub fn check_faction_zone_entry(q: QuestState, unlocks: &mut SwarmUnlocks, x: i32) -> (b: bool)
    ensures
        b == (spec_step(q) >= 1 && !old(unlocks).unlocked@.contains(CreatureKind::Grasper) && x >= 128),
        final(unlocks).unlocked@ == (if b {
            spec_unlock(old(unlocks).unlocked@, CreatureKind::Grasper)
        } else {
            old(unlocks).unlocked@
        }),
{
    if q.current_step() < 1 {
        return false;
    }
    if unlocks.is_unlocked(&CreatureKind::Grasper) {
        return false;
    }
    if x >= SYNDICATE_OFFSET_X - 2 {
        unlocks.unlock(CreatureKind::Grasper);
        true
    } else {
        false
    }
}

/// On the legacy hit job, the boss's death leads to the confrontation.
pub fn check_hit_job(q: &mut QuestState, boss_defeated: BossDefeated) -> (b: bool)
    ensures
        b == (*old(q) == QuestState::HitJob && boss_defeated.0),
        *final(q) == (if b { QuestState::Confrontation } else { *old(q) }),
{
    if *q != QuestState::HitJob {
        return false;
    }
    if boss_defeated.0 {
        *q = QuestState::Confrontation;
        true
    } else {
        false
    }
}

/// In the legacy confrontation, meeting a Liberator within two tiles leads to
/// the betrayal.
pub fn check_confrontation(q: &mut QuestState, px: i32, py: i32, liberators: &Vec<(i32, i32)>) -> (b: bool)
    ensures
        b == (*old(q) == QuestState::Confrontation && exists|i: int|
            0 <= i < liberators@.len() && chebyshev(
                #[trigger] liberators@[i].0 as int,
                liberators@[i].1 as int,
                px as int,
                py as int,
            ) <= 2),
        *final(q) == (if b { QuestState::Betrayal } else { *old(q) }),
{
    if *q != QuestState::Confrontation {
        return false;
    }
    let mut i: usize = 0;
    while i < liberators.len()
        invariant
            i <= liberators@.len(),
            *q == QuestState::Confrontation,
            *old(q) == QuestState::Confrontation,
            forall|j: int|
                0 <= j < i ==> chebyshev(#[trigger] liberators@[j].0 as int, liberators@[j].1 as int, px as int, py as int)
                    > 2,
        decreases liberators@.len() - i,
    {
        let (lx, ly) = liberators[i];
        if chebyshev_distance(lx, ly, px, py) <= 2 {
            assert(liberators@[i as int].0 == lx && liberators@[i as int].1 == ly);
            assert(chebyshev(liberators@[i as int].0 as int, liberators@[i as int].1 as int, px as int, py as int) <= 2);
            *q = QuestState::Betrayal;
            return true;
        }
        i = i + 1;
    }
    false
}

/// The Liberator was consumed: the story turns to the betrayal.
pub fn liberator_consumed(q: &mut QuestState)
    ensures
        *final(q) == QuestState::Betrayal,
{
    *q = QuestState::Betrayal;
}

/// When all three factions are resolved during the hunt, the army mobilises
/// and the Psychovore is unlocked.
pub fn check_army_invasion(q: &mut QuestState, faction: &FactionProgress, unlocks: &mut SwarmUnlocks) -> (b: bool)
    ensures
        b == (*old(q) == QuestState::FactionHunt && faction.spec_all_resolved()),
        *final(q) == (if b { QuestState::ArmyInvasion } else { *old(q) }),
        final(unlocks).unlocked@ == (if b {
            spec_unlock(old(unlocks).unlocked@, CreatureKind::Psychovore)
        } else {
            old(unlocks).unlocked@
        }),
{
    if *q != QuestState::FactionHunt {
        return false;
    }
    if faction.all_factions_resolved() {
        *q = QuestState::ArmyInvasion;
        unlocks.unlock(CreatureKind::Psychovore);
        true
    } else {
        false
    }
}

/// Entering the Fortress during the invasion starts the final battle, once,
/// and unlocks the Colossoid.
pub fn check_fortress_entry(
    q: &mut QuestState,
    fired: &mut FortressEntryFired,
    unlocks: &mut SwarmUnlocks,
    y: i32,
) -> (b: bool)
    ensures
        b == (*old(q) == QuestState::ArmyInvasion && !old(fired).0 && y >= 298),
        b ==> *final(q) == QuestState::FinalBattle && final(fired).0 && final(unlocks).unlocked@ == spec_unlock(
            old(unlocks).unlocked@,
            CreatureKind::Colossoid,
        ),
        !b ==> *final(q) == *old(q) && *final(fired) == *old(fired) && final(unlocks).unlocked@ == old(
            unlocks,
        ).unlocked@,
{
    if *q != QuestState::ArmyInvasion || fired.0 {
        return false;
    }
    if y >= FORTRESS_ENTRY_Y {
        fired.0 = true;
        *q = QuestState::FinalBattle;
        unlocks.unlock(CreatureKind::Colossoid);
        true
    } else {
        false
    }
}

/// The General's death during the final battle wins the game and starts the
/// ending's fade.
pub fn check_victory(q: &mut QuestState, faction: &FactionProgress, ending: &mut EndingPhase) -> (b: bool)
    ensures
        b == (*old(q) == QuestState::FinalBattle && faction.general_defeated),
        *final(q) == (if b { QuestState::Victory } else { *old(q) }),
        *final(ending) == (if b { EndingPhase::FadingIn } else { *old(ending) }),
{
    if *q != QuestState::FinalBattle {
        return false;
    }
    if faction.general_defeated {
        *q = QuestState::Victory;
        *ending = EndingPhase::FadingIn;
        true
    } else {
        false
    }
}

/// The quest state a loaded save resumes in: the legacy "complete" state
/// plays as the faction hunt; every other state is kept.
pub fn quest_on_load(q: QuestState) -> (r: QuestState)
    ensures
        r == (if q == QuestState::Complete { QuestState::FactionHunt } else { q }),
{
    match q {
        QuestState::Complete => QuestState::FactionHunt,
        other => other,
    }
}

/// A new game starts the quest over.
pub fn reset_quest(q: &mut QuestState, escape: &mut EscapeFired, fortress: &mut FortressEntryFired)
    ensures
        *final(q) == QuestState::Escape,
        !final(escape).0,
        !final(fortress).0,
{
    *q = QuestState::default();
    escape.0 = false;
    fortress.0 = false;
}

} // verus!
