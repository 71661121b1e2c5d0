//! The faction bosses and General Marak: which attack each boss performs when
//! its phase timer runs out, where its summons appear, how its bursts count
//! down, where the Prophet blinks to, and how a hostile boss closes in.

use rand::rngs::StdRng;
use vstd::prelude::*;

use crate::combat::{chase_step, spec_chase_step};
use crate::faction::BossRelation;
use crate::levels::generator::range_i32;
use crate::levels::placement::abs;
use crate::movement::GridPos;
use crate::world::map::TileMap;

verus! {

/// A boss's attack cycle: which slot of its three-attack rotation comes next.
#[derive(Clone, Copy, Debug, PartialEq, Eq, Structural)]
pub struct BossAI {
    pub phase: u8,
}

/// The slot of the rotation for phase counter `phase`.
pub open spec fn spec_slot(phase: u8) -> u8 {
    phase % 3
}

/// The phase counter after an attack (wrapping at 256).
pub open spec fn spec_next_phase(phase: u8) -> u8 {
    if phase == 255 {
        0
    } else {
        (phase + 1) as u8
    }
}

impl BossAI {
    /// The slot of the rotation the next attack comes from.
    pub fn slot(&self) -> (s: u8)
        ensures
            s == spec_slot(self.phase),
            s < 3,
    {
        self.phase % 3
    }

    /// Moves the rotation on after an attack.
    pub fn advance(&mut self)
        ensures
            final(self).phase == spec_next_phase(old(self).phase),
    {
        self.phase = self.phase.wrapping_add(1);
    }
}

/// The rotation steps through its three attacks in order; it skips only when
/// the counter wraps from 255 back to 0.
pub proof fn law_rotation_cycles(phase: u8)
    requires
        phase < 255,
    ensures
        spec_slot(spec_next_phase(phase)) == (spec_slot(phase) + 1) % 3,
{
}

/// Don Varro's attacks.
#[derive(Clone, Copy, Debug, PartialEq, Eq, Structural)]
pub enum VarroAttack {
    /// Summons bodyguards: two, or three once he is enraged.
    SummonBodyguards,
    /// A thrown weapon that always hits the player.
    RangedThrow,
    /// A blast that hurts every friendly creature around him.
    AoeBlast,
}

/// Chief Harlan's attacks.
#[derive(Clone, Copy, Debug, PartialEq, Eq, Structural)]
pub enum HarlanAttack {
    /// A burst of three shots.
    Burst,
    /// Two seconds of invincibility and a counter blast around him.
    ShieldWall,
    /// A marked strike on the player's position.
    TacticalStrike,
}

/// The Prophet's attacks.
#[derive(Clone, Copy, Debug, PartialEq, Eq, Structural)]
pub enum ProphetAttack {
    /// Summons zealots: three, or four once enraged.
    SummonZealots,
    /// A psychic pulse that hurts every friendly creature around him.
    PsychicPulse,
    /// Blinks away and seizes one of the player's swarm bodies.
    BlinkAndControl,
}

pub fn varro_attack(ai: BossAI) -> (a: VarroAttack)
    ensures
        a == (if spec_slot(ai.phase) == 0 {
            VarroAttack::SummonBodyguards
        } else if spec_slot(ai.phase) == 1 {
            VarroAttack::RangedThrow
        } else {
            VarroAttack::AoeBlast
        }),
{
    let s = ai.slot();
    if s == 0 {
        VarroAttack::SummonBodyguards
    } else if s == 1 {
        VarroAttack::RangedThrow
    } else {
        VarroAttack::AoeBlast
    }
}

pub fn harlan_attack(ai: BossAI) -> (a: HarlanAttack)
    ensures
        a == (if spec_slot(ai.phase) == 0 {
            HarlanAttack::Burst
        } else if spec_slot(ai.phase) == 1 {
            HarlanAttack::ShieldWall
        } else {
            HarlanAttack::TacticalStrike
        }),
{
    let s = ai.slot();
    if s == 0 {
        HarlanAttack::Burst
    } else if s == 1 {
        HarlanAttack::ShieldWall
    } else {
        HarlanAttack::TacticalStrike
    }
}

pub fn prophet_attack(ai: BossAI) -> (a: ProphetAttack)
    ensures
        a == (if spec_slot(ai.phase) == 0 {
            ProphetAttack::SummonZealots
        } else if spec_slot(ai.phase) == 1 {
            ProphetAttack::PsychicPulse
        } else {
            ProphetAttack::BlinkAndControl
        }),
{
    let s = ai.slot();
    if s == 0 {
        ProphetAttack::SummonZealots
    } else if s == 1 {
        ProphetAttack::PsychicPulse
    } else {
        ProphetAttack::BlinkAndControl
    }
}

/// How many bodyguards Varro summons.
pub fn varro_summon_count(enraged: bool) -> (n: i32)
    ensures
        n == (if enraged { 3i32 } else { 2i32 }),
{
    if enraged {
        3
    } else {
        2
    }
}

/// How many zealots the Prophet summons.
pub fn prophet_summon_count(enraged: bool) -> (n: i32)
    ensures
        n == (if enraged { 4i32 } else { 3i32 }),
{
    if enraged {
        4
    } else {
        3
    }
}

/// A faction boss attacks only while hostile and not between narrative phases.
pub fn faction_boss_acts(rel: BossRelation, in_interphase: bool) -> (b: bool)
    ensures
        b == (rel == BossRelation::Hostile && !in_interphase),
{
    rel == BossRelation::Hostile && !in_interphase
}

/// The `i`-th of `count` summons around a boss at `(x, y)`, `spacing` tiles
/// apart and centred on the boss, `lift` rows above it (the row saturating at
/// the ends of `i32`); never left of column 0.
pub open spec fn summon_pos(x: int, y: int, i: int, count: int, spacing: int, lift: int) -> (int, int) {
    let ax = x + (i - count / 2) * spacing;
    (if ax < 0 {
        0
    } else {
        ax
    }, if y - lift < i32::MIN {
        i32::MIN as int
    } else if y - lift > i32::MAX {
        i32::MAX as int
    } else {
        y - lift
    })
}

/// The column of every summon, and its offset from the boss, stays within `i32`.
pub open spec fn summons_fit(x: int, count: int, spacing: int) -> bool {
    forall|i: int|
        0 <= i < count ==> i32::MIN <= #[trigger] ((i - count / 2) * spacing) <= i32::MAX && i32::MIN <= x + (i
            - count / 2) * spacing <= i32::MAX
}

/// Where `count` summons appear around a boss at `boss` (none when `count` is
/// not positive).
pub fn summon_positions(boss: GridPos, count: i32, spacing: i32, lift: i32) -> (v: Vec<GridPos>)
    requires
        summons_fit(boss.x as int, count as int, spacing as int),
    ensures
        v@.len() == (if count < 0 {
            0
        } else {
            count as int
        }),
        forall|i: int|
            0 <= i < v@.len() ==> (#[trigger] v@[i].x as int, v@[i].y as int) == summon_pos(
                boss.x as int,
                boss.y as int,
                i,
                count as int,
                spacing as int,
                lift as int,
            ),
{
    let mut v: Vec<GridPos> = Vec::new();
    let mut i: i32 = 0;
    let half: i32 = count / 2;
    let ly: i64 = (boss.y as i64) - (lift as i64);
    let ay: i32 = if ly < i32::MIN as i64 {
        i32::MIN
    } else if ly > i32::MAX as i64 {
        i32::MAX
    } else {
        ly as i32
    };
    while i < count
        invariant
            0 <= i,
            count < 0 ==> i == 0,
            count >= 0 ==> i <= count,
            count >= 0 ==> half == count / 2,
            summons_fit(boss.x as int, count as int, spacing as int),
            ay as int == summon_pos(boss.x as int, boss.y as int, 0, count as int, spacing as int, lift as int).1,
            v@.len() == i,
            forall|k: int|
                0 <= k < i ==> (#[trigger] v@[k].x as int, v@[k].y as int) == summon_pos(
                    boss.x as int,
                    boss.y as int,
                    k,
                    count as int,
                    spacing as int,
                    lift as int,
                ),
        decreases count - i,
    {
        assert(i32::MIN <= ((i - count / 2) * spacing) <= i32::MAX);
        let off: i32 = (i - half) * spacing;
        let ax0: i32 = boss.x + off;
        let ax: i32 = if ax0 < 0 { 0 } else { ax0 };
        v.push(GridPos { x: ax, y: ay });
        i = i + 1;
    }
    v
}

/// The phases of General Marak's fight, by remaining health: above three
/// quarters, above half, above a quarter, and the rest.
#[derive(Clone, Copy, Debug, PartialEq, Eq, Structural)]
pub enum GeneralPhase {
    /// Artillery barrages and elite soldiers.
    ArtilleryBarrage,
    /// Faster barrages behind a recurring shield.
    ShieldProtocol,
    /// As the shield protocol, with reinforcements every fifteen seconds.
    Reinforcement,
    /// No shield; a three-hit melee combo.
    Enrage,
}

/// What the General does when his phase timer runs out.
#[derive(Clone, Copy, Debug, PartialEq, Eq, Structural)]
pub struct GeneralPlan {
    /// Telegraphed artillery markers fired at the player.
    pub barrage_markers: usize,
    /// Whether three elite soldiers are deployed.
    pub deploy_elites: bool,
    /// Whether the enrage combo starts (and the shield is dropped).
    pub combo: bool,
}

/// The General's plan for each phase: three markers and elites, then two
/// markers, then two markers, then the combo.
pub open spec fn spec_general_plan(p: GeneralPhase) -> GeneralPlan {
    match p {
        GeneralPhase::ArtilleryBarrage => GeneralPlan { barrage_markers: 3, deploy_elites: true, combo: false },
        GeneralPhase::ShieldProtocol => GeneralPlan { barrage_markers: 2, deploy_elites: false, combo: false },
        GeneralPhase::Reinforcement => GeneralPlan { barrage_markers: 2, deploy_elites: false, combo: false },
        GeneralPhase::Enrage => GeneralPlan { barrage_markers: 0, deploy_elites: false, combo: true },
    }
}

pub fn general_plan(p: GeneralPhase) -> (plan: GeneralPlan)
    ensures
        plan == spec_general_plan(p),
{
    match p {
        GeneralPhase::ArtilleryBarrage => GeneralPlan { barrage_markers: 3, deploy_elites: true, combo: false },
        GeneralPhase::ShieldProtocol => GeneralPlan { barrage_markers: 2, deploy_elites: false, combo: false },
        GeneralPhase::Reinforcement => GeneralPlan { barrage_markers: 2, deploy_elites: false, combo: false },
        GeneralPhase::Enrage => GeneralPlan { barrage_markers: 0, deploy_elites: false, combo: true },
    }
}

/// The General's shield cycles in the middle two phases only.
pub fn general_shield_phase(p: GeneralPhase) -> (b: bool)
    ensures
        b == (p == GeneralPhase::ShieldProtocol || p == GeneralPhase::Reinforcement),
{
    p == GeneralPhase::ShieldProtocol || p == GeneralPhase::Reinforcement
}

/// Reinforcements arrive in the third phase only.
pub fn general_reinforce_phase(p: GeneralPhase) -> (b: bool)
    ensures
        b == (p == GeneralPhase::Reinforcement),
{
    p == GeneralPhase::Reinforcement
}

/// The General never surrenders: he fights in every relation but surrender,
/// which he never enters.
pub fn general_acts(rel: BossRelation) -> (b: bool)
    ensures
        b == (rel != BossRelation::Surrendered),
{
    rel != BossRelation::Surrendered
}

/// Column offsets of the artillery markers around the player: three tiles
/// apart, centred. The count is taken as an `i32`, as the fight does (a count
/// beyond it wraps; a negative one fires nothing).
pub fn barrage_offsets(count: usize) -> (v: Vec<i64>)
    ensures
        v@.len() == (if (count as i32) < 0 {
            0
        } else {
            (count as i32) as int
        }),
        forall|i: int| 0 <= i < v@.len() ==> #[trigger] v@[i] == (i - (count as i32) / 2) * 3,
{
    let mut v: Vec<i64> = Vec::new();
    let c: i32 = #[verifier::truncate] (count as i32);
    let mut i: i32 = 0;
    while i < c
        invariant
            c == count as i32,
            0 <= i,
            c < 0 ==> i == 0,
            c >= 0 ==> i <= c,
            v@.len() == i,
            forall|k: int| 0 <= k < i ==> #[trigger] v@[k] == (k - c / 2) * 3,
        decreases c - i,
    {
        v.push(((i as i64) - ((c / 2) as i64)) * 3);
        i = i + 1;
    }
    v
}

/// A countdown of hits (Harlan's burst, the General's combo): one hit is
/// dealt if any remain. Returns the hits left and whether one was dealt.
pub fn burst_tick(remaining: u32) -> (r: (u32, bool))
    ensures
        r == (if remaining > 0 { ((remaining - 1) as u32, true) } else { (0u32, false) }),
{
    if remaining > 0 {
        (remaining - 1, true)
    } else {
        (0, false)
    }
}

/// A burst of `n` hits deals exactly `n` hits and then stops.
pub open spec fn hits_dealt(remaining: u32, ticks: nat) -> nat
    decreases ticks,
{
    if ticks == 0 || remaining == 0 {
        0
    } else {
        1 + hits_dealt((remaining - 1) as u32, (ticks - 1) as nat)
    }
}

/// Ticking a countdown deals one hit per tick until it runs out, never more
/// hits than it started with.
pub proof fn law_burst_deals_its_hits(remaining: u32, ticks: nat)
    ensures
        hits_dealt(remaining, ticks) == (if ticks < remaining { ticks as int } else { remaining as int }),
    decreases ticks,
{
    if ticks > 0 && remaining > 0 {
        law_burst_deals_its_hits((remaining - 1) as u32, (ticks - 1) as nat);
    }
}

/// One step of a hostile boss towards the player; bosses in any other
/// relation stay where they are.
pub fn boss_step(map: &TileMap, boss: GridPos, target: GridPos, rel: BossRelation) -> (p: GridPos)
    requires
        map.wf(),
        i32::MIN < boss.x < i32::MAX,
        i32::MIN < boss.y < i32::MAX,
    ensures
        rel != BossRelation::Hostile ==> p == boss,
        rel == BossRelation::Hostile ==> (p.x as int, p.y as int) == spec_chase_step(
            *map,
            boss.x as int,
            boss.y as int,
            target.x as int,
            target.y as int,
        ),
{
    if rel != BossRelation::Hostile {
        return boss;
    }
    chase_step(map, boss, target)
}

/// Attempts the Prophet makes to find a tile to blink to.
pub const BLINK_ATTEMPTS: usize = 20;

/// Whether a blink by `d` from `(x, y)` lands on a walkable tile with no
/// negative coordinate.
pub open spec fn blink_lands(map: TileMap, x: int, y: int, d: (i32, i32)) -> bool {
    x + d.0 >= 0 && y + d.1 >= 0 && map.spec_is_walkable(x + d.0, y + d.1)
}

/// Where the Prophet blinks to: up to twenty random offsets within eight
/// tiles are tried, and the first that lands on a walkable tile with no
/// negative coordinate is taken; otherwise he stays.
pub fn blink_target(map: &TileMap, gp: GridPos, rng: &mut StdRng) -> (p: GridPos)
    requires
        map.wf(),
        i32::MIN + 8 <= gp.x <= i32::MAX - 8,
        i32::MIN + 8 <= gp.y <= i32::MAX - 8,
    ensures
        exists|draws: Seq<(i32, i32)>|
            {
                &&& 0 < draws.len() <= BLINK_ATTEMPTS
                &&& forall|i: int| 0 <= i < draws.len() ==> -8 <= #[trigger] draws[i].0 <= 8 && -8 <= draws[i].1 <= 8
                &&& forall|i: int| 0 <= i < draws.len() - 1 ==> !blink_lands(*map, gp.x as int, gp.y as int, #[trigger] draws[i])
                &&& if blink_lands(*map, gp.x as int, gp.y as int, draws.last()) {
                    p.x == gp.x + draws.last().0 && p.y == gp.y + draws.last().1
                } else {
                    draws.len() == BLINK_ATTEMPTS && p == gp
                }
            },
        p == gp || (map.spec_is_walkable(p.x as int, p.y as int) && p.x >= 0 && p.y >= 0 && abs(p.x - gp.x) <= 8
            && abs(p.y - gp.y) <= 8),
{
    let mut attempt: usize = 0;
    let ghost mut draws: Seq<(i32, i32)> = Seq::empty();
    while attempt < BLINK_ATTEMPTS
        invariant
            map.wf(),
            i32::MIN + 8 <= gp.x <= i32::MAX - 8,
            i32::MIN + 8 <= gp.y <= i32::MAX - 8,
            attempt <= BLINK_ATTEMPTS,
            draws.len() == attempt,
            forall|i: int| 0 <= i < draws.len() ==> -8 <= #[trigger] draws[i].0 <= 8 && -8 <= draws[i].1 <= 8,
            forall|i: int| 0 <= i < draws.len() ==> !blink_lands(*map, gp.x as int, gp.y as int, #[trigger] draws[i]),
        decreases BLINK_ATTEMPTS - attempt,
    {
        let dx: i32 = range_i32(rng, -8, 9);
        let dy: i32 = range_i32(rng, -8, 9);
        let ghost before = draws;
        proof {
            draws = draws.push((dx, dy));
            assert forall|i: int| 0 <= i < draws.len() - 1 implies draws[i] == before[i] by {}
        }
        let nx = gp.x + dx;
        let ny = gp.y + dy;
        if nx >= 0 && ny >= 0 && map.is_walkable(nx, ny) {
            assert(draws.last() == (dx, dy));
            return GridPos { x: nx, y: ny };
        }
        attempt = attempt + 1;
    }
    assert(draws.len() == BLINK_ATTEMPTS);
    assert(!blink_lands(*map, gp.x as int, gp.y as int, draws[draws.len() - 1]));
    gp
}

/// The attacks of the district's mob boss.
#[derive(Clone, Copy, Debug, PartialEq, Eq, Structural)]
pub enum DistrictBossAttack {
    /// A swipe that lands only when the player is within two tiles.
    MeleeSwipe { hits: bool },
    /// A throw that always hits.
    RangedThrow,
    /// Two weak adds beside the boss.
    SummonAdds,
}

/// The district boss's attack for its rotation slot, given the player's
/// Chebyshev distance.
pub fn district_boss_attack(ai: BossAI, dist: i64) -> (a: DistrictBossAttack)
    ensures
        a == (if spec_slot(ai.phase) == 0 {
            DistrictBossAttack::MeleeSwipe { hits: dist <= 2 }
        } else if spec_slot(ai.phase) == 1 {
            DistrictBossAttack::RangedThrow
        } else {
            DistrictBossAttack::SummonAdds
        }),
{
    let s = ai.slot();
    if s == 0 {
        DistrictBossAttack::MeleeSwipe { hits: dist <= 2 }
    } else if s == 1 {
        DistrictBossAttack::RangedThrow
    } else {
        DistrictBossAttack::SummonAdds
    }
}

/// `v` held within `[lo, hi]`.
pub open spec fn clamped(v: int, lo: int, hi: int) -> int {
    if v < lo {
        lo
    } else if v > hi {
        hi
    } else {
        v
    }
}

/// Where the district boss's two adds appear: one tile right and one tile
/// left of it, kept inside the 60 × 40 district.
pub fn district_boss_adds(boss: GridPos) -> (adds: [GridPos; 2])
    requires
        i32::MIN < boss.x < i32::MAX,
    ensures
        adds[0].x == clamped(boss.x + 1, 0, 59) && adds[0].y == clamped(boss.y as int, 0, 39),
        adds[1].x == clamped(boss.x - 1, 0, 59) && adds[1].y == clamped(boss.y as int, 0, 39),
{
    let y: i32 = if boss.y < 0 { 0 } else if boss.y > 39 { 39 } else { boss.y };
    let r: i32 = boss.x + 1;
    let l: i32 = boss.x - 1;
    let rx: i32 = if r < 0 { 0 } else if r > 59 { 59 } else { r };
    let lx: i32 = if l < 0 { 0 } else if l > 59 { 59 } else { l };
    [GridPos { x: rx, y }, GridPos { x: lx, y }]
}

} // verus!
