//! The open world: the jail, the hub and the four faction zones pasted into
//! one map, joined by corridors, with their spawn information merged.

use rand::rngs::StdRng;
use vstd::prelude::*;

use super::covenant::{covenant_ok, CovenantGenerator};
use super::fortress::{fortress_ok, FortressGenerator};
use super::generator::{all_walkable, all_within, LevelGenerator, SpawnInfo};
use super::hub::{hub_ok, HubGenerator};
use super::jail::{jail_ok, JailGenerator};
use super::precinct::{precinct_ok, PrecinctGenerator};
use super::syndicate::{syndicate_ok, SyndicateGenerator};
use crate::faction::FactionId;
use crate::world::map::{in_rect, TileMap};
use crate::world::tile::{spec_walkable, TileType};

verus! {

/// X offset where the hub section begins.
pub const HUB_OFFSET_X: i32 = 65;

/// X offset where the faction zones begin, right of the hub.
pub const SYNDICATE_OFFSET_X: i32 = 130;

/// Y offset of the Precinct zone in the world map.
pub const PRECINCT_OFFSET_Y: i32 = 100;

/// Y offset of the Covenant zone in the world map.
pub const COVENANT_OFFSET_Y: i32 = 200;

/// Y offset of the Fortress zone in the world map.
pub const FORTRESS_OFFSET_Y: i32 = 300;

/// The district's x offset, the same as the hub's.
pub const DISTRICT_OFFSET_X: i32 = HUB_OFFSET_X;

/// Crossing this x coordinate counts as having escaped the jail.
pub const JAIL_BOUNDARY_X: i32 = 62;

/// Entering rows at or past this y counts as entering the Fortress zone.
pub const FORTRESS_ENTRY_Y: i32 = FORTRESS_OFFSET_Y - 2;

/// World width: the faction column is 120 tiles wide.
pub const WORLD_W: i32 = SYNDICATE_OFFSET_X + 120;

/// World height: the Fortress zone is 80 tiles high.
pub const WORLD_H: i32 = FORTRESS_OFFSET_Y + 80;

pub struct WorldGenerator {
    pub seed: u64,
}

/// A zone tile as pasted into the world: doors become floor.
pub open spec fn pasted(t: TileType) -> TileType {
    if t == TileType::Door {
        TileType::Floor
    } else {
        t
    }
}

/// The corridors dug into the world: the passage from the jail exit into the
/// hub, the north–south spine through the hub, and one branch from the spine
/// to each faction zone.
pub open spec fn world_corridor(a: int, b: int) -> bool {
    ||| in_rect(a, b, 55, 34, 76, 37)
    ||| in_rect(a, b, 69, 0, 73, 379)
    ||| in_rect(a, b, 65, 40, 132, 43)
    ||| in_rect(a, b, 65, 140, 132, 143)
    ||| in_rect(a, b, 65, 240, 132, 243)
    ||| in_rect(a, b, 65, 340, 132, 343)
}

/// The world tile at `(a, b)`: corridor floor, else the pasted tile of the
/// zone whose footprint holds it, else wall.
pub open spec fn world_tile(
    jail: TileMap,
    hub: TileMap,
    syn: TileMap,
    pre: TileMap,
    cov: TileMap,
    fort: TileMap,
    a: int,
    b: int,
) -> TileType {
    if !(0 <= a < 250 && 0 <= b < 380) {
        TileType::Wall
    } else if world_corridor(a, b) {
        TileType::Floor
    } else if jail.spec_in_bounds(a, b) {
        pasted(jail.spec_tile_at(a, b))
    } else if hub.spec_in_bounds(a - 65, b) {
        pasted(hub.spec_tile_at(a - 65, b))
    } else if syn.spec_in_bounds(a - 130, b) {
        pasted(syn.spec_tile_at(a - 130, b))
    } else if pre.spec_in_bounds(a - 130, b - 100) {
        pasted(pre.spec_tile_at(a - 130, b - 100))
    } else if cov.spec_in_bounds(a - 130, b - 200) {
        pasted(cov.spec_tile_at(a - 130, b - 200))
    } else if fort.spec_in_bounds(a - 130, b - 300) {
        pasted(fort.spec_tile_at(a - 130, b - 300))
    } else {
        TileType::Wall
    }
}

/// Every position of `s` moved by `(ox, oy)`.
pub open spec fn shifted(s: Seq<(i32, i32)>, ox: int, oy: int) -> Seq<(i32, i32)> {
    Seq::new(s.len(), |i: int| ((s[i].0 + ox) as i32, (s[i].1 + oy) as i32))
}

/// Every tagged position of `s` moved by `(ox, oy)`, its faction kept.
pub open spec fn shifted_tagged(s: Seq<(i32, i32, FactionId)>, ox: int, oy: int) -> Seq<(i32, i32, FactionId)> {
    Seq::new(s.len(), |i: int| ((s[i].0 + ox) as i32, (s[i].1 + oy) as i32, s[i].2))
}

/// A position moved by `(ox, oy)`.
pub open spec fn shifted_opt(p: Option<(i32, i32)>, ox: int, oy: int) -> Option<(i32, i32)> {
    match p {
        Some(q) => Some(((q.0 + ox) as i32, (q.1 + oy) as i32)),
        None => None,
    }
}

/// Every tagged position of `s` lies in `[x1, x2) × [y1, y2)`.
pub open spec fn all_within_tagged(s: Seq<(i32, i32, FactionId)>, x1: int, y1: int, x2: int, y2: int) -> bool {
    forall|i: int| 0 <= i < s.len() ==> x1 <= #[trigger] s[i].0 < x2 && y1 <= s[i].1 < y2
}

/// The position, if any, lies in `[0, w) × [0, h)`.
pub open spec fn opt_within(p: Option<(i32, i32)>, w: int, h: int) -> bool {
    match p {
        Some(q) => 0 <= q.0 < w && 0 <= q.1 < h,
        None => true,
    }
}

/// Every position a zone reports lies inside its `w` × `h` footprint.
pub open spec fn zone_info_within(info: SpawnInfo, w: int, h: int) -> bool {
    &&& all_within(info.enemy_positions@, 0, 0, w, h)
    &&& all_within(info.elite_positions@, 0, 0, w, h)
    &&& all_within(info.civilian_positions@, 0, 0, w, h)
    &&& all_within(info.streetlight_positions@, 0, 0, w, h)
    &&& all_within_tagged(info.faction_bosses@, 0, 0, w, h)
    &&& all_within_tagged(info.job_targets@, 0, 0, w, h)
    &&& opt_within(info.general_position, w, h)
    &&& opt_within(info.tank_position, w, h)
}

/// The spawn information of the assembled world: the jail's player, Liberator
/// and guards, then the entities of the hub and the four faction zones, each
/// moved by its zone's offset and appended in that order. The hub contributes
/// enemies, civilians and lamps only.
pub open spec fn world_info_from(
    jail: SpawnInfo,
    hub: SpawnInfo,
    syn: SpawnInfo,
    pre: SpawnInfo,
    cov: SpawnInfo,
    fort: SpawnInfo,
    info: SpawnInfo,
) -> bool {
    &&& info.player_start == jail.player_start
    &&& info.liberator_start == jail.liberator_start
    &&& info.guard_positions@ == jail.guard_positions@
    &&& info.enemy_positions@ == shifted(hub.enemy_positions@, 65, 0) + shifted(syn.enemy_positions@, 130, 0)
        + shifted(pre.enemy_positions@, 130, 100) + shifted(cov.enemy_positions@, 130, 200) + shifted(
        fort.enemy_positions@,
        130,
        300,
    )
    &&& info.civilian_positions@ == shifted(hub.civilian_positions@, 65, 0) + shifted(syn.civilian_positions@, 130, 0)
        + shifted(pre.civilian_positions@, 130, 100) + shifted(cov.civilian_positions@, 130, 200) + shifted(
        fort.civilian_positions@,
        130,
        300,
    )
    &&& info.streetlight_positions@ == shifted(hub.streetlight_positions@, 65, 0) + shifted(
        syn.streetlight_positions@,
        130,
        0,
    ) + shifted(pre.streetlight_positions@, 130, 100) + shifted(cov.streetlight_positions@, 130, 200) + shifted(
        fort.streetlight_positions@,
        130,
        300,
    )
    &&& info.elite_positions@ == shifted(syn.elite_positions@, 130, 0) + shifted(pre.elite_positions@, 130, 100)
        + shifted(cov.elite_positions@, 130, 200) + shifted(fort.elite_positions@, 130, 300)
    &&& info.faction_bosses@ == shifted_tagged(syn.faction_bosses@, 130, 0) + shifted_tagged(
        pre.faction_bosses@,
        130,
        100,
    ) + shifted_tagged(cov.faction_bosses@, 130, 200) + shifted_tagged(fort.faction_bosses@, 130, 300)
    &&& info.job_targets@ == shifted_tagged(syn.job_targets@, 130, 0) + shifted_tagged(pre.job_targets@, 130, 100)
        + shifted_tagged(cov.job_targets@, 130, 200) + shifted_tagged(fort.job_targets@, 130, 300)
    &&& info.general_position == shifted_opt(fort.general_position, 130, 300)
    &&& info.tank_position == shifted_opt(fort.tank_position, 130, 300)
    &&& info.boss_position.is_none()
    &&& info.entrance_positions@.len() == 0
}

/// Copies `zone` into `world` with its origin at `(ox, oy)`; doors become floor.
fn paste_zone(world: &mut TileMap, zone: &TileMap, ox: i32, oy: i32)
    requires
        old(world).wf(),
        zone.wf(),
        0 <= ox,
        0 <= oy,
        zone.width + ox <= i32::MAX,
        zone.height + oy <= i32::MAX,
    ensures
        final(world).wf(),
        final(world).width == old(world).width,
        final(world).height == old(world).height,
        final(world).exit_pos == old(world).exit_pos,
        forall|a: int, b: int|
            #[trigger] final(world).spec_tile_at(a, b) == if old(world).spec_in_bounds(a, b) && zone.spec_in_bounds(
                a - ox,
                b - oy,
            ) {
                pasted(zone.spec_tile_at(a - ox, b - oy))
            } else {
                old(world).spec_tile_at(a, b)
            },
{
    let ghost w0 = *world;
    let mut y: i32 = 0;
    while y < zone.height
        invariant
            zone.wf(),
            0 <= ox,
            0 <= oy,
            zone.width + ox <= i32::MAX,
            zone.height + oy <= i32::MAX,
            0 <= y,
            y <= zone.height || y == 0,
            world.wf(),
            world.width == w0.width,
            world.height == w0.height,
            world.exit_pos == w0.exit_pos,
            forall|a: int, b: int|
                #[trigger] world.spec_tile_at(a, b) == if w0.spec_in_bounds(a, b) && zone.spec_in_bounds(a - ox, b - oy)
                    && b - oy < y {
                    pasted(zone.spec_tile_at(a - ox, b - oy))
                } else {
                    w0.spec_tile_at(a, b)
                },
        decreases zone.height - y,
    {
        let mut x: i32 = 0;
        while x < zone.width
            invariant
                zone.wf(),
                0 <= ox,
                0 <= oy,
                zone.width + ox <= i32::MAX,
                zone.height + oy <= i32::MAX,
                0 <= y < zone.height,
                0 <= x,
                x <= zone.width || x == 0,
                world.wf(),
                world.width == w0.width,
                world.height == w0.height,
                world.exit_pos == w0.exit_pos,
                forall|a: int, b: int|
                    #[trigger] world.spec_tile_at(a, b) == if w0.spec_in_bounds(a, b) && zone.spec_in_bounds(
                        a - ox,
                        b - oy,
                    ) && (b - oy < y || (b - oy == y && a - ox < x)) {
                        pasted(zone.spec_tile_at(a - ox, b - oy))
                    } else {
                        w0.spec_tile_at(a, b)
                    },
            decreases zone.width - x,
        {
            let tile = zone.tile_at(x, y);
            let t = if tile == TileType::Door { TileType::Floor } else { tile };
            world.set(x + ox, y + oy, t);
            x = x + 1;
        }
        y = y + 1;
    }
}

/// Every position of `s` can be moved by `(ox, oy)` without leaving `i32`.
pub open spec fn shift_fits(s: Seq<(i32, i32)>, ox: int, oy: int) -> bool {
    forall|i: int|
        0 <= i < s.len() ==> i32::MIN <= #[trigger] s[i].0 + ox <= i32::MAX && i32::MIN <= s[i].1 + oy <= i32::MAX
}

/// Appends the positions of `src`, moved by `(ox, oy)`, to `out`.
fn push_shifted(out: &mut Vec<(i32, i32)>, src: &Vec<(i32, i32)>, ox: i32, oy: i32)
    requires
        shift_fits(src@, ox as int, oy as int),
    ensures
        final(out)@ == old(out)@ + shifted(src@, ox as int, oy as int),
{
    let ghost start = out@;
    let mut i: usize = 0;
    while i < src.len()
        invariant
            i <= src@.len(),
            shift_fits(src@, ox as int, oy as int),
            out@ == start + shifted(src@, ox as int, oy as int).subrange(0, i as int),
        decreases src@.len() - i,
    {
        let (x, y) = src[i];
        out.push((x + ox, y + oy));
        i = i + 1;
    }
    assert(shifted(src@, ox as int, oy as int).subrange(0, src@.len() as int) == shifted(src@, ox as int, oy as int));
}

/// Every tagged position of `s` can be moved by `(ox, oy)` without leaving `i32`.
pub open spec fn shift_fits_tagged(s: Seq<(i32, i32, FactionId)>, ox: int, oy: int) -> bool {
    forall|i: int|
        0 <= i < s.len() ==> i32::MIN <= #[trigger] s[i].0 + ox <= i32::MAX && i32::MIN <= s[i].1 + oy <= i32::MAX
}

/// Appends the tagged positions of `src`, moved by `(ox, oy)`, to `out`.
fn push_shifted_tagged(out: &mut Vec<(i32, i32, FactionId)>, src: &Vec<(i32, i32, FactionId)>, ox: i32, oy: i32)
    requires
        shift_fits_tagged(src@, ox as int, oy as int),
    ensures
        final(out)@ == old(out)@ + shifted_tagged(src@, ox as int, oy as int),
{
    let ghost start = out@;
    let mut i: usize = 0;
    while i < src.len()
        invariant
            i <= src@.len(),
            shift_fits_tagged(src@, ox as int, oy as int),
            out@ == start + shifted_tagged(src@, ox as int, oy as int).subrange(0, i as int),
        decreases src@.len() - i,
    {
        let (x, y, fid) = src[i];
        out.push((x + ox, y + oy, fid));
        i = i + 1;
    }
    assert(shifted_tagged(src@, ox as int, oy as int).subrange(0, src@.len() as int) == shifted_tagged(
        src@,
        ox as int,
        oy as int,
    ));
}

/// Positions inside a small footprint can be moved by a small offset.
proof fn lemma_within_fits(info: SpawnInfo, w: int, h: int, ox: int, oy: int)
    requires
        zone_info_within(info, w, h),
        0 <= w <= 1000,
        0 <= h <= 1000,
        0 <= ox <= 1000,
        0 <= oy <= 1000,
    ensures
        shift_fits(info.enemy_positions@, ox, oy),
        shift_fits(info.elite_positions@, ox, oy),
        shift_fits(info.civilian_positions@, ox, oy),
        shift_fits(info.streetlight_positions@, ox, oy),
        shift_fits_tagged(info.faction_bosses@, ox, oy),
        shift_fits_tagged(info.job_targets@, ox, oy),
{
}

/// Appends the entities of a faction zone, moved by the zone's offset.
fn apply_zone_info(master: &mut SpawnInfo, zone: &SpawnInfo, ox: i32, oy: i32)
    requires
        shift_fits(zone.enemy_positions@, ox as int, oy as int),
        shift_fits(zone.elite_positions@, ox as int, oy as int),
        shift_fits(zone.civilian_positions@, ox as int, oy as int),
        shift_fits(zone.streetlight_positions@, ox as int, oy as int),
        shift_fits_tagged(zone.faction_bosses@, ox as int, oy as int),
        shift_fits_tagged(zone.job_targets@, ox as int, oy as int),
    ensures
        final(master).enemy_positions@ == old(master).enemy_positions@ + shifted(
            zone.enemy_positions@,
            ox as int,
            oy as int,
        ),
        final(master).elite_positions@ == old(master).elite_positions@ + shifted(
            zone.elite_positions@,
            ox as int,
            oy as int,
        ),
        final(master).civilian_positions@ == old(master).civilian_positions@ + shifted(
            zone.civilian_positions@,
            ox as int,
            oy as int,
        ),
        final(master).streetlight_positions@ == old(master).streetlight_positions@ + shifted(
            zone.streetlight_positions@,
            ox as int,
            oy as int,
        ),
        final(master).faction_bosses@ == old(master).faction_bosses@ + shifted_tagged(
            zone.faction_bosses@,
            ox as int,
            oy as int,
        ),
        final(master).job_targets@ == old(master).job_targets@ + shifted_tagged(
            zone.job_targets@,
            ox as int,
            oy as int,
        ),
        final(master).player_start == old(master).player_start,
        final(master).liberator_start == old(master).liberator_start,
        final(master).guard_positions@ == old(master).guard_positions@,
        final(master).boss_position == old(master).boss_position,
        final(master).entrance_positions@ == old(master).entrance_positions@,
        final(master).general_position == old(master).general_position,
        final(master).tank_position == old(master).tank_position,
{
    push_shifted(&mut master.enemy_positions, &zone.enemy_positions, ox, oy);
    push_shifted(&mut master.elite_positions, &zone.elite_positions, ox, oy);
    push_shifted(&mut master.civilian_positions, &zone.civilian_positions, ox, oy);
    push_shifted(&mut master.streetlight_positions, &zone.streetlight_positions, ox, oy);
    push_shifted_tagged(&mut master.faction_bosses, &zone.faction_bosses, ox, oy);
    push_shifted_tagged(&mut master.job_targets, &zone.job_targets, ox, oy);
}

/// Appends the Fortress zone's entities and places the General and the tank.
fn apply_fortress_info(master: &mut SpawnInfo, fort: &SpawnInfo, ox: i32, oy: i32)
    requires
        zone_info_within(*fort, 120, 80),
        0 <= ox <= 1000,
        0 <= oy <= 1000,
    ensures
        final(master).enemy_positions@ == old(master).enemy_positions@ + shifted(
            fort.enemy_positions@,
            ox as int,
            oy as int,
        ),
        final(master).elite_positions@ == old(master).elite_positions@ + shifted(
            fort.elite_positions@,
            ox as int,
            oy as int,
        ),
        final(master).civilian_positions@ == old(master).civilian_positions@ + shifted(
            fort.civilian_positions@,
            ox as int,
            oy as int,
        ),
        final(master).streetlight_positions@ == old(master).streetlight_positions@ + shifted(
            fort.streetlight_positions@,
            ox as int,
            oy as int,
        ),
        final(master).faction_bosses@ == old(master).faction_bosses@ + shifted_tagged(
            fort.faction_bosses@,
            ox as int,
            oy as int,
        ),
        final(master).job_targets@ == old(master).job_targets@ + shifted_tagged(
            fort.job_targets@,
            ox as int,
            oy as int,
        ),
        final(master).general_position == (if fort.general_position.is_some() {
            shifted_opt(fort.general_position, ox as int, oy as int)
        } else {
            old(master).general_position
        }),
        final(master).tank_position == (if fort.tank_position.is_some() {
            shifted_opt(fort.tank_position, ox as int, oy as int)
        } else {
            old(master).tank_position
        }),
        final(master).player_start == old(master).player_start,
        final(master).liberator_start == old(master).liberator_start,
        final(master).guard_positions@ == old(master).guard_positions@,
        final(master).boss_position == old(master).boss_position,
        final(master).entrance_positions@ == old(master).entrance_positions@,
{
    proof {
        lemma_within_fits(*fort, 120, 80, ox as int, oy as int);
    }
    apply_zone_info(master, fort, ox, oy);
    if let Some((x, y)) = fort.general_position {
        master.general_position = Some((x + ox, y + oy));
    }
    if let Some((x, y)) = fort.tank_position {
        master.tank_position = Some((x + ox, y + oy));
    }
}

/// Joins generated zones into the world map: the jail at the origin, the hub
/// to its right, the four faction zones stacked in the right-hand column; then
/// digs the corridors and merges the spawn information.
pub fn assemble_world(
    jail: (TileMap, SpawnInfo),
    hub: (TileMap, SpawnInfo),
    syn: (TileMap, SpawnInfo),
    pre: (TileMap, SpawnInfo),
    cov: (TileMap, SpawnInfo),
    fort: (TileMap, SpawnInfo),
) -> (res: (TileMap, SpawnInfo))
    requires
        jail.0.wf() && jail.0.width == 60 && jail.0.height == 40,
        hub.0.wf() && hub.0.width == 60 && hub.0.height == 80,
        syn.0.wf() && syn.0.width == 120 && syn.0.height == 80,
        pre.0.wf() && pre.0.width == 120 && pre.0.height == 80,
        cov.0.wf() && cov.0.width == 120 && cov.0.height == 80,
        fort.0.wf() && fort.0.width == 120 && fort.0.height == 80,
        zone_info_within(hub.1, 60, 80),
        zone_info_within(syn.1, 120, 80),
        zone_info_within(pre.1, 120, 80),
        zone_info_within(cov.1, 120, 80),
        zone_info_within(fort.1, 120, 80),
    ensures
        res.0.wf(),
        res.0.width == WORLD_W,
        res.0.height == WORLD_H,
        res.0.exit_pos.is_none(),
        forall|a: int, b: int|
            #[trigger] res.0.spec_tile_at(a, b) == world_tile(jail.0, hub.0, syn.0, pre.0, cov.0, fort.0, a, b),
        world_info_from(jail.1, hub.1, syn.1, pre.1, cov.1, fort.1, res.1),
{
    let (jail_map, jail_info) = jail;
    let (hub_map, hub_info) = hub;
    let (syn_map, syn_info) = syn;
    let (pre_map, pre_info) = pre;
    let (cov_map, cov_info) = cov;
    let (fort_map, fort_info) = fort;

    let mut world = TileMap::new(WORLD_W, WORLD_H, TileType::Wall);
    let ghost w0 = world;
    paste_zone(&mut world, &jail_map, 0, 0);
    let ghost w1 = world;
    paste_zone(&mut world, &hub_map, HUB_OFFSET_X, 0);
    let ghost w2 = world;
    paste_zone(&mut world, &syn_map, SYNDICATE_OFFSET_X, 0);
    let ghost w3 = world;
    paste_zone(&mut world, &pre_map, SYNDICATE_OFFSET_X, PRECINCT_OFFSET_Y);
    let ghost w4 = world;
    paste_zone(&mut world, &cov_map, SYNDICATE_OFFSET_X, COVENANT_OFFSET_Y);
    let ghost w5 = world;
    paste_zone(&mut world, &fort_map, SYNDICATE_OFFSET_X, FORTRESS_OFFSET_Y);
    let ghost w6 = world;

    // Jail to hub: a corridor from the jail exit rows into the hub.
    let jail_h: i32 = jail_map.height;
    let corridor_y1: i32 = jail_h - 6;
    let corridor_y2: i32 = jail_h - 2;
    world.fill_rect(55, corridor_y1, HUB_OFFSET_X + 11, corridor_y2 - 1, TileType::Floor);
    let ghost w7 = world;
    // The spine, five tiles wide, through the hub column and the whole height.
    world.fill_rect(HUB_OFFSET_X + 4, 0, HUB_OFFSET_X + 8, WORLD_H - 1, TileType::Floor);
    let ghost w8 = world;
    // Branches from the spine to the middle of each faction zone.
    world.fill_rect(HUB_OFFSET_X, 40, SYNDICATE_OFFSET_X + 2, 43, TileType::Floor);
    let ghost w9 = world;
    world.fill_rect(HUB_OFFSET_X, PRECINCT_OFFSET_Y + 40, SYNDICATE_OFFSET_X + 2, PRECINCT_OFFSET_Y + 43, TileType::Floor);
    let ghost w10 = world;
    world.fill_rect(HUB_OFFSET_X, COVENANT_OFFSET_Y + 40, SYNDICATE_OFFSET_X + 2, COVENANT_OFFSET_Y + 43, TileType::Floor);
    let ghost w11 = world;
    world.fill_rect(HUB_OFFSET_X, FORTRESS_OFFSET_Y + 40, SYNDICATE_OFFSET_X + 2, FORTRESS_OFFSET_Y + 43, TileType::Floor);
    assert forall|a: int, b: int| #[trigger] world.spec_tile_at(a, b) == world_tile(
        jail_map,
        hub_map,
        syn_map,
        pre_map,
        cov_map,
        fort_map,
        a,
        b,
    ) by {
        assert(w0.spec_tile_at(a, b) == TileType::Wall);
        assert(w1.spec_tile_at(a, b) == if w0.spec_in_bounds(a, b) && jail_map.spec_in_bounds(a, b) {
            pasted(jail_map.spec_tile_at(a, b))
        } else {
            w0.spec_tile_at(a, b)
        });
        assert(w2.spec_tile_at(a, b) == if w0.spec_in_bounds(a, b) && hub_map.spec_in_bounds(a - 65, b) {
            pasted(hub_map.spec_tile_at(a - 65, b))
        } else {
            w1.spec_tile_at(a, b)
        });
        assert(w3.spec_tile_at(a, b) == if w0.spec_in_bounds(a, b) && syn_map.spec_in_bounds(a - 130, b) {
            pasted(syn_map.spec_tile_at(a - 130, b))
        } else {
            w2.spec_tile_at(a, b)
        });
        assert(w4.spec_tile_at(a, b) == if w0.spec_in_bounds(a, b) && pre_map.spec_in_bounds(a - 130, b - 100) {
            pasted(pre_map.spec_tile_at(a - 130, b - 100))
        } else {
            w3.spec_tile_at(a, b)
        });
        assert(w5.spec_tile_at(a, b) == if w0.spec_in_bounds(a, b) && cov_map.spec_in_bounds(a - 130, b - 200) {
            pasted(cov_map.spec_tile_at(a - 130, b - 200))
        } else {
            w4.spec_tile_at(a, b)
        });
        assert(w6.spec_tile_at(a, b) == if w0.spec_in_bounds(a, b) && fort_map.spec_in_bounds(a - 130, b - 300) {
            pasted(fort_map.spec_tile_at(a - 130, b - 300))
        } else {
            w5.spec_tile_at(a, b)
        });
        assert(w7.spec_tile_at(a, b) == if in_rect(a, b, 55, 34, 76, 37) && w0.spec_in_bounds(a, b) {
            TileType::Floor
        } else {
            w6.spec_tile_at(a, b)
        });
        assert(w8.spec_tile_at(a, b) == if in_rect(a, b, 69, 0, 73, 379) && w0.spec_in_bounds(a, b) {
            TileType::Floor
        } else {
            w7.spec_tile_at(a, b)
        });
        assert(w9.spec_tile_at(a, b) == if in_rect(a, b, 65, 40, 132, 43) && w0.spec_in_bounds(a, b) {
            TileType::Floor
        } else {
            w8.spec_tile_at(a, b)
        });
        assert(w10.spec_tile_at(a, b) == if in_rect(a, b, 65, 140, 132, 143) && w0.spec_in_bounds(a, b) {
            TileType::Floor
        } else {
            w9.spec_tile_at(a, b)
        });
        assert(w11.spec_tile_at(a, b) == if in_rect(a, b, 65, 240, 132, 243) && w0.spec_in_bounds(a, b) {
            TileType::Floor
        } else {
            w10.spec_tile_at(a, b)
        });
    }

    // Combine the spawn information.
    let mut info = SpawnInfo::new(jail_info.player_start);
    info.liberator_start = jail_info.liberator_start;
    info.guard_positions = jail_info.guard_positions;
    proof {
        lemma_within_fits(hub_info, 60, 80, 65, 0);
        lemma_within_fits(syn_info, 120, 80, 130, 0);
        lemma_within_fits(pre_info, 120, 80, 130, 100);
        lemma_within_fits(cov_info, 120, 80, 130, 200);
    }
    push_shifted(&mut info.enemy_positions, &hub_info.enemy_positions, HUB_OFFSET_X, 0);
    push_shifted(&mut info.civilian_positions, &hub_info.civilian_positions, HUB_OFFSET_X, 0);
    push_shifted(&mut info.streetlight_positions, &hub_info.streetlight_positions, HUB_OFFSET_X, 0);
    apply_zone_info(&mut info, &syn_info, SYNDICATE_OFFSET_X, 0);
    apply_zone_info(&mut info, &pre_info, SYNDICATE_OFFSET_X, PRECINCT_OFFSET_Y);
    apply_zone_info(&mut info, &cov_info, SYNDICATE_OFFSET_X, COVENANT_OFFSET_Y);
    apply_fortress_info(&mut info, &fort_info, SYNDICATE_OFFSET_X, FORTRESS_OFFSET_Y);
    assert(info.enemy_positions@ == shifted(hub_info.enemy_positions@, 65, 0) + shifted(
        syn_info.enemy_positions@,
        130,
        0,
    ) + shifted(pre_info.enemy_positions@, 130, 100) + shifted(cov_info.enemy_positions@, 130, 200) + shifted(
        fort_info.enemy_positions@,
        130,
        300,
    ));
    assert(info.elite_positions@ == shifted(syn_info.elite_positions@, 130, 0) + shifted(
        pre_info.elite_positions@,
        130,
        100,
    ) + shifted(cov_info.elite_positions@, 130, 200) + shifted(fort_info.elite_positions@, 130, 300));
    assert(info.faction_bosses@ == shifted_tagged(syn_info.faction_bosses@, 130, 0) + shifted_tagged(
        pre_info.faction_bosses@,
        130,
        100,
    ) + shifted_tagged(cov_info.faction_bosses@, 130, 200) + shifted_tagged(fort_info.faction_bosses@, 130, 300));
    assert(info.job_targets@ == shifted_tagged(syn_info.job_targets@, 130, 0) + shifted_tagged(
        pre_info.job_targets@,
        130,
        100,
    ) + shifted_tagged(cov_info.job_targets@, 130, 200) + shifted_tagged(fort_info.job_targets@, 130, 300));
    (world, info)
}

/// Positions on walkable tiles of a map lie inside it.
proof fn lemma_walkable_within(map: TileMap, s: Seq<(i32, i32)>)
    requires
        all_walkable(map, s),
    ensures
        all_within(s, 0, 0, map.width as int, map.height as int),
{
    assert forall|i: int| 0 <= i < s.len() implies 0 <= #[trigger] s[i].0 < map.width && 0 <= s[i].1 < map.height by {
        assert(map.spec_is_walkable(s[i].0 as int, s[i].1 as int));
    }
}

/// A walkable tile of a zone stays walkable at its place in the assembled world.
proof fn lemma_zones_carry(
    jail: TileMap,
    hub: TileMap,
    syn: TileMap,
    pre: TileMap,
    cov: TileMap,
    fort: TileMap,
    world: TileMap,
)
    requires
        jail.width == 60 && jail.height == 40,
        hub.width == 60 && hub.height == 80,
        syn.width == 120 && syn.height == 80,
        pre.width == 120 && pre.height == 80,
        cov.width == 120 && cov.height == 80,
        fort.width == 120 && fort.height == 80,
        world.width == 250 && world.height == 380,
        forall|a: int, b: int| #[trigger] world.spec_tile_at(a, b) == world_tile(jail, hub, syn, pre, cov, fort, a, b),
    ensures
        forall|x: int, y: int| #[trigger] jail.spec_is_walkable(x, y) ==> world.spec_is_walkable(x, y),
        forall|x: int, y: int| #[trigger] hub.spec_is_walkable(x, y) ==> world.spec_is_walkable(x + 65, y),
        forall|x: int, y: int| #[trigger] syn.spec_is_walkable(x, y) ==> world.spec_is_walkable(x + 130, y),
        forall|x: int, y: int| #[trigger] pre.spec_is_walkable(x, y) ==> world.spec_is_walkable(x + 130, y + 100),
        forall|x: int, y: int| #[trigger] cov.spec_is_walkable(x, y) ==> world.spec_is_walkable(x + 130, y + 200),
        forall|x: int, y: int| #[trigger] fort.spec_is_walkable(x, y) ==> world.spec_is_walkable(x + 130, y + 300),
{
    assert forall|x: int, y: int| #[trigger] jail.spec_is_walkable(x, y) implies world.spec_is_walkable(x, y) by {
        assert(world.spec_tile_at(x, y) == world_tile(jail, hub, syn, pre, cov, fort, x, y));
    }
    assert forall|x: int, y: int| #[trigger] hub.spec_is_walkable(x, y) implies world.spec_is_walkable(x + 65, y) by {
        assert(world.spec_tile_at(x + 65, y) == world_tile(jail, hub, syn, pre, cov, fort, x + 65, y));
    }
    assert forall|x: int, y: int| #[trigger] syn.spec_is_walkable(x, y) implies world.spec_is_walkable(x + 130, y) by {
        assert(world.spec_tile_at(x + 130, y) == world_tile(jail, hub, syn, pre, cov, fort, x + 130, y));
    }
    assert forall|x: int, y: int| #[trigger] pre.spec_is_walkable(x, y) implies world.spec_is_walkable(x + 130, y + 100) by {
        assert(world.spec_tile_at(x + 130, y + 100) == world_tile(jail, hub, syn, pre, cov, fort, x + 130, y + 100));
    }
    assert forall|x: int, y: int| #[trigger] cov.spec_is_walkable(x, y) implies world.spec_is_walkable(x + 130, y + 200) by {
        assert(world.spec_tile_at(x + 130, y + 200) == world_tile(jail, hub, syn, pre, cov, fort, x + 130, y + 200));
    }
    assert forall|x: int, y: int| #[trigger] fort.spec_is_walkable(x, y) implies world.spec_is_walkable(x + 130, y + 300) by {
        assert(world.spec_tile_at(x + 130, y + 300) == world_tile(jail, hub, syn, pre, cov, fort, x + 130, y + 300));
    }
}

/// Positions walkable in a zone are walkable in the world once moved by the
/// zone's offset.
proof fn lemma_shift_walkable(world: TileMap, zone: TileMap, s: Seq<(i32, i32)>, ox: int, oy: int)
    requires
        all_walkable(zone, s),
        0 <= ox <= 1000,
        0 <= oy <= 1000,
        zone.width <= 1000,
        zone.height <= 1000,
        forall|x: int, y: int| #[trigger] zone.spec_is_walkable(x, y) ==> world.spec_is_walkable(x + ox, y + oy),
    ensures
        all_walkable(world, shifted(s, ox, oy)),
{
    lemma_walkable_within(zone, s);
    assert forall|i: int| 0 <= i < shifted(s, ox, oy).len() implies #[trigger] world.spec_is_walkable(
        shifted(s, ox, oy)[i].0 as int,
        shifted(s, ox, oy)[i].1 as int,
    ) by {
        assert(zone.spec_is_walkable(s[i].0 as int, s[i].1 as int));
    }
}

/// Positions of two walkable lists together are walkable.
proof fn lemma_walkable_concat(map: TileMap, s1: Seq<(i32, i32)>, s2: Seq<(i32, i32)>)
    requires
        all_walkable(map, s1),
        all_walkable(map, s2),
    ensures
        all_walkable(map, s1 + s2),
{
    assert forall|i: int| 0 <= i < (s1 + s2).len() implies #[trigger] map.spec_is_walkable(
        (s1 + s2)[i].0 as int,
        (s1 + s2)[i].1 as int,
    ) by {
        if i < s1.len() {
            assert((s1 + s2)[i] == s1[i]);
        } else {
            assert((s1 + s2)[i] == s2[i - s1.len()]);
        }
    }
}

/// Positions inside a box stay inside the box moved by the same offset.
proof fn lemma_shift_within(s: Seq<(i32, i32)>, w: int, h: int, ox: int, oy: int)
    requires
        all_within(s, 0, 0, w, h),
        0 <= w <= 1000,
        0 <= h <= 1000,
        0 <= ox <= 1000,
        0 <= oy <= 1000,
    ensures
        all_within(shifted(s, ox, oy), ox, oy, ox + w, oy + h),
{
    assert forall|i: int| 0 <= i < shifted(s, ox, oy).len() implies ox <= #[trigger] shifted(s, ox, oy)[i].0 < ox + w
        && oy <= shifted(s, ox, oy)[i].1 < oy + h by {
        assert(0 <= s[i].0 < w && 0 <= s[i].1 < h);
    }
}

/// Two lists inside a box are inside it joined; a list inside a box is inside
/// any box around it.
proof fn lemma_within_concat(
    s1: Seq<(i32, i32)>,
    s2: Seq<(i32, i32)>,
    a1: (int, int, int, int),
    a2: (int, int, int, int),
    b: (int, int, int, int),
)
    requires
        all_within(s1, a1.0, a1.1, a1.2, a1.3),
        all_within(s2, a2.0, a2.1, a2.2, a2.3),
        b.0 <= a1.0 && b.1 <= a1.1 && a1.2 <= b.2 && a1.3 <= b.3,
        b.0 <= a2.0 && b.1 <= a2.1 && a2.2 <= b.2 && a2.3 <= b.3,
    ensures
        all_within(s1 + s2, b.0, b.1, b.2, b.3),
{
    assert forall|i: int| 0 <= i < (s1 + s2).len() implies b.0 <= #[trigger] (s1 + s2)[i].0 < b.2 && b.1 <= (s1
        + s2)[i].1 < b.3 by {
        if i < s1.len() {
            assert((s1 + s2)[i] == s1[i]);
        } else {
            assert((s1 + s2)[i] == s2[i - s1.len()]);
        }
    }
}

/// Zones as their generators make them: a jail, a hub and the four faction
/// zones, each satisfying what its generator promises.
pub open spec fn zones_ok(
    jail: (TileMap, SpawnInfo),
    hub: (TileMap, SpawnInfo),
    syn: (TileMap, SpawnInfo),
    pre: (TileMap, SpawnInfo),
    cov: (TileMap, SpawnInfo),
    fort: (TileMap, SpawnInfo),
) -> bool {
    &&& jail_ok(jail.0, jail.1)
    &&& hub_ok(hub.0, hub.1)
    &&& syndicate_ok(syn.0, syn.1)
    &&& precinct_ok(pre.0, pre.1)
    &&& covenant_ok(cov.0, cov.1)
    &&& fortress_ok(fort.0, fort.1)
}

/// The world as drawn: some zones, each as its generator makes it, joined
/// into `map` and `info` exactly as `assemble_world` joins them.
#[verifier::opaque]
pub open spec fn world_drawn(map: TileMap, info: SpawnInfo) -> bool {
    exists|
        jail: (TileMap, SpawnInfo),
        hub: (TileMap, SpawnInfo),
        syn: (TileMap, SpawnInfo),
        pre: (TileMap, SpawnInfo),
        cov: (TileMap, SpawnInfo),
        fort: (TileMap, SpawnInfo),
    |
        {
            &&& #[trigger] zones_ok(jail, hub, syn, pre, cov, fort)
            &&& forall|a: int, b: int|
                #[trigger] map.spec_tile_at(a, b) == world_tile(jail.0, hub.0, syn.0, pre.0, cov.0, fort.0, a, b)
            &&& world_info_from(jail.1, hub.1, syn.1, pre.1, cov.1, fort.1, info)
        }
}

/// What every generated world satisfies: it is zones as their generators
/// make them, joined as `assemble_world` joins them; its size; the corridors
/// are floor; the player, the Liberator, the guards, the enemies and the civilians all
/// stand on walkable tiles; and the three faction bosses, the job targets, the
/// General and his tank stand where their zones put them.
pub open spec fn world_ok(map: TileMap, info: SpawnInfo) -> bool {
    &&& world_drawn(map, info)
    &&& map.wf()
    &&& map.width == 250
    &&& map.height == 380
    &&& map.exit_pos.is_none()
    &&& forall|a: int, b: int| world_corridor(a, b) ==> #[trigger] map.spec_tile_at(a, b) == TileType::Floor
    &&& info.player_start == (4i32, 4i32)
    &&& map.spec_is_walkable(4, 4)
    &&& info.liberator_start == Some((4i32, 14i32))
    &&& map.spec_is_walkable(4, 14)
    &&& 5 <= info.guard_positions@.len() <= 9
    &&& all_walkable(map, info.guard_positions@)
    &&& all_walkable(map, info.enemy_positions@)
    &&& all_walkable(map, info.civilian_positions@)
    &&& all_within(info.elite_positions@, 0, 0, 250, 380)
    &&& info.enemy_positions@.len() < 480
    &&& info.elite_positions@.len() < 11
    &&& info.civilian_positions@.len() < 165
    &&& info.faction_bosses@ == seq![
        (190i32, 5i32, FactionId::Syndicate),
        (190i32, 106i32, FactionId::Precinct),
        (190i32, 205i32, FactionId::Covenant),
    ]
    &&& map.spec_is_walkable(190, 5)
    &&& map.spec_is_walkable(190, 106)
    &&& map.spec_is_walkable(190, 205)
    &&& info.job_targets@ == seq![
        (235i32, 42i32, FactionId::Syndicate),
        (238i32, 143i32, FactionId::Precinct),
        (190i32, 262i32, FactionId::Covenant),
    ]
    &&& info.general_position == Some((190i32, 306i32))
    &&& map.spec_is_walkable(190, 306)
    &&& info.tank_position == Some((190i32, 312i32))
    &&& map.spec_is_walkable(190, 312)
    &&& info.boss_position.is_none()
    &&& info.entrance_positions@.len() == 0
}

impl LevelGenerator for WorldGenerator {
    fn generate(&self, rng: &mut StdRng) -> (res: (TileMap, SpawnInfo))
        ensures
            world_ok(res.0, res.1),
    {
        // Generate every zone from the same generator, in order.
        let jail = JailGenerator.generate(rng);
        let hub = HubGenerator.generate(rng);
        let syn = SyndicateGenerator { seed: self.seed }.generate(rng);
        let pre = PrecinctGenerator { seed: self.seed }.generate(rng);
        let cov = CovenantGenerator { seed: self.seed }.generate(rng);
        let fort = FortressGenerator { seed: self.seed }.generate(rng);
        let ghost (jm, ji) = jail;
        let ghost (hm, hi) = hub;
        let ghost (sm, si) = syn;
        let ghost (pm, pi) = pre;
        let ghost (cm, ci) = cov;
        let ghost (fm, fi) = fort;
        proof {
            lemma_walkable_within(hm, hi.enemy_positions@);
            lemma_walkable_within(hm, hi.civilian_positions@);
            lemma_walkable_within(sm, si.enemy_positions@);
            lemma_walkable_within(sm, si.civilian_positions@);
            lemma_walkable_within(pm, pi.enemy_positions@);
            lemma_walkable_within(pm, pi.civilian_positions@);
            lemma_walkable_within(cm, ci.enemy_positions@);
            lemma_walkable_within(cm, ci.civilian_positions@);
            lemma_walkable_within(fm, fi.enemy_positions@);
            lemma_walkable_within(fm, fi.civilian_positions@);
        }
        let res = assemble_world(jail, hub, syn, pre, cov, fort);
        proof {
            let world = res.0;
            let info = res.1;
            assert(world_drawn(world, info)) by {
                reveal(world_drawn);
                assert(zones_ok((jm, ji), (hm, hi), (sm, si), (pm, pi), (cm, ci), (fm, fi)));
            }
            lemma_zones_carry(jm, hm, sm, pm, cm, fm, world);
            assert forall|a: int, b: int| world_corridor(a, b) implies #[trigger] world.spec_tile_at(a, b)
                == TileType::Floor by {
                assert(world.spec_tile_at(a, b) == world_tile(jm, hm, sm, pm, cm, fm, a, b));
            }
            assert forall|i: int| 0 <= i < info.guard_positions@.len() implies #[trigger] world.spec_is_walkable(
                info.guard_positions@[i].0 as int,
                info.guard_positions@[i].1 as int,
            ) by {
                assert(jm.spec_is_walkable(ji.guard_positions@[i].0 as int, ji.guard_positions@[i].1 as int));
            }
            lemma_shift_walkable(world, hm, hi.enemy_positions@, 65, 0);
            lemma_shift_walkable(world, sm, si.enemy_positions@, 130, 0);
            lemma_shift_walkable(world, pm, pi.enemy_positions@, 130, 100);
            lemma_shift_walkable(world, cm, ci.enemy_positions@, 130, 200);
            lemma_shift_walkable(world, fm, fi.enemy_positions@, 130, 300);
            lemma_walkable_concat(world, shifted(hi.enemy_positions@, 65, 0), shifted(si.enemy_positions@, 130, 0));
            lemma_walkable_concat(
                world,
                shifted(hi.enemy_positions@, 65, 0) + shifted(si.enemy_positions@, 130, 0),
                shifted(pi.enemy_positions@, 130, 100),
            );
            lemma_walkable_concat(
                world,
                shifted(hi.enemy_positions@, 65, 0) + shifted(si.enemy_positions@, 130, 0) + shifted(
                    pi.enemy_positions@,
                    130,
                    100,
                ),
                shifted(ci.enemy_positions@, 130, 200),
            );
            lemma_walkable_concat(
                world,
                shifted(hi.enemy_positions@, 65, 0) + shifted(si.enemy_positions@, 130, 0) + shifted(
                    pi.enemy_positions@,
                    130,
                    100,
                ) + shifted(ci.enemy_positions@, 130, 200),
                shifted(fi.enemy_positions@, 130, 300),
            );
            lemma_shift_walkable(world, hm, hi.civilian_positions@, 65, 0);
            lemma_shift_walkable(world, sm, si.civilian_positions@, 130, 0);
            lemma_shift_walkable(world, pm, pi.civilian_positions@, 130, 100);
            lemma_shift_walkable(world, cm, ci.civilian_positions@, 130, 200);
            lemma_shift_walkable(world, fm, fi.civilian_positions@, 130, 300);
            lemma_walkable_concat(
                world,
                shifted(hi.civilian_positions@, 65, 0),
                shifted(si.civilian_positions@, 130, 0),
            );
            lemma_walkable_concat(
                world,
                shifted(hi.civilian_positions@, 65, 0) + shifted(si.civilian_positions@, 130, 0),
                shifted(pi.civilian_positions@, 130, 100),
            );
            lemma_walkable_concat(
                world,
                shifted(hi.civilian_positions@, 65, 0) + shifted(si.civilian_positions@, 130, 0) + shifted(
                    pi.civilian_positions@,
                    130,
                    100,
                ),
                shifted(ci.civilian_positions@, 130, 200),
            );
            lemma_walkable_concat(
                world,
                shifted(hi.civilian_positions@, 65, 0) + shifted(si.civilian_positions@, 130, 0) + shifted(
                    pi.civilian_positions@,
                    130,
                    100,
                ) + shifted(ci.civilian_positions@, 130, 200),
                shifted(fi.civilian_positions@, 130, 300),
            );
            let world_box = (0int, 0int, 250int, 380int);
            lemma_shift_within(si.elite_positions@, 120, 80, 130, 0);
            lemma_shift_within(pi.elite_positions@, 120, 80, 130, 100);
            lemma_shift_within(ci.elite_positions@, 120, 80, 130, 200);
            lemma_shift_within(fi.elite_positions@, 120, 80, 130, 300);
            let e1 = shifted(si.elite_positions@, 130, 0);
            let e2 = shifted(pi.elite_positions@, 130, 100);
            let e3 = shifted(ci.elite_positions@, 130, 200);
            let e4 = shifted(fi.elite_positions@, 130, 300);
            lemma_within_concat(e1, e2, (130, 0, 250, 80), (130, 100, 250, 180), world_box);
            lemma_within_concat(e1 + e2, e3, world_box, (130, 200, 250, 280), world_box);
            lemma_within_concat(e1 + e2 + e3, e4, world_box, (130, 300, 250, 380), world_box);
            assert(info.elite_positions@ == e1 + e2 + e3 + e4);
            assert(jm.spec_is_walkable(4, 4));
            assert(jm.spec_is_walkable(4, 14));
            assert(sm.spec_is_walkable(60, 5));
            assert(pm.spec_is_walkable(60, 6));
            assert(cm.spec_is_walkable(60, 5));
            assert(fm.spec_is_walkable(60, 6));
            assert(fm.spec_is_walkable(60, 12));
            assert(info.faction_bosses@ == seq![
                (190i32, 5i32, FactionId::Syndicate),
                (190i32, 106i32, FactionId::Precinct),
                (190i32, 205i32, FactionId::Covenant),
            ]);
            assert(info.job_targets@ == seq![
                (235i32, 42i32, FactionId::Syndicate),
                (238i32, 143i32, FactionId::Precinct),
                (190i32, 262i32, FactionId::Covenant),
            ]);
        }
        res
    }
}

/// Every generated world is joined up by dug floor: the passage from the jail
/// exit into the hub (rows 34 to 37, columns 55 to 76), the spine down the
/// hub (columns 69 to 73, the whole height), and one branch from the spine to
/// each of the four faction zones (columns 65 to 132, rows 40 to 43 below the
/// top of its zone, at 0, 100, 200 and 300), which ends inside the zone's
/// column (from 130).
pub proof fn law_world_corridors_dug(map: TileMap, info: SpawnInfo, a: int, b: int)
    requires
        world_ok(map, info),
    ensures
        55 <= a <= 76 && 34 <= b <= 37 ==> map.spec_tile_at(a, b) == TileType::Floor,
        69 <= a <= 73 && 0 <= b < 380 ==> map.spec_tile_at(a, b) == TileType::Floor,
        65 <= a <= 132 && 40 <= b <= 43 ==> map.spec_tile_at(a, b) == TileType::Floor,
        65 <= a <= 132 && 140 <= b <= 143 ==> map.spec_tile_at(a, b) == TileType::Floor,
        65 <= a <= 132 && 240 <= b <= 243 ==> map.spec_tile_at(a, b) == TileType::Floor,
        65 <= a <= 132 && 340 <= b <= 343 ==> map.spec_tile_at(a, b) == TileType::Floor,
{
    if world_corridor(a, b) {
        assert(map.spec_tile_at(a, b) == TileType::Floor);
    }
}

} // verus!
