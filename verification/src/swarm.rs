//! The psychic swarm: the creature kinds the parasite can grow, which of them
//! are unlocked, and the ordered list of swarm bodies with the one under
//! control. Bodies are identified by their entity ids.

use vstd::prelude::*;

use crate::combat::AttackMode;
use crate::levels::placement::{chebyshev, chebyshev_distance};

verus! {

/// The creatures the parasite can spawn, weakest first.
#[derive(Clone, Copy, Debug, PartialEq, Eq, Structural)]
pub enum CreatureKind {
    Scuttler,
    Grasper,
    Ravager,
    Spitter,
    Voidthrall,
    Psychovore,
    Colossoid,
}

/// The rank of a creature kind, from 0 (Scuttler) to 6 (Colossoid).
pub open spec fn creature_rank(k: CreatureKind) -> int {
    match k {
        CreatureKind::Scuttler => 0,
        CreatureKind::Grasper => 1,
        CreatureKind::Ravager => 2,
        CreatureKind::Spitter => 3,
        CreatureKind::Voidthrall => 4,
        CreatureKind::Psychovore => 5,
        CreatureKind::Colossoid => 6,
    }
}

/// The biomass a creature costs to spawn.
pub open spec fn spec_biomass_cost(k: CreatureKind) -> u32 {
    match k {
        CreatureKind::Scuttler => 15,
        CreatureKind::Grasper => 25,
        CreatureKind::Ravager => 45,
        CreatureKind::Spitter => 60,
        CreatureKind::Voidthrall => 90,
        CreatureKind::Psychovore => 120,
        CreatureKind::Colossoid => 180,
    }
}

/// How a creature kind fights: runners, grapplers, berserkers and titans close
/// in to melee; acid spitters and the psychic kinds attack from range.
pub open spec fn spec_attack_mode(k: CreatureKind) -> AttackMode {
    match k {
        CreatureKind::Scuttler => AttackMode::Melee,
        CreatureKind::Grasper => AttackMode::Melee,
        CreatureKind::Ravager => AttackMode::Melee,
        CreatureKind::Spitter => AttackMode::Ranged,
        CreatureKind::Voidthrall => AttackMode::Ranged,
        CreatureKind::Psychovore => AttackMode::Ranged,
        CreatureKind::Colossoid => AttackMode::Melee,
    }
}

impl CreatureKind {
    /// Whether this creature strikes in melee or from range.
    pub fn attack_mode(&self) -> (m: AttackMode)
        ensures
            m == spec_attack_mode(*self),
    {
        match self {
            CreatureKind::Scuttler => AttackMode::Melee,
            CreatureKind::Grasper => AttackMode::Melee,
            CreatureKind::Ravager => AttackMode::Melee,
            CreatureKind::Spitter => AttackMode::Ranged,
            CreatureKind::Voidthrall => AttackMode::Ranged,
            CreatureKind::Psychovore => AttackMode::Ranged,
            CreatureKind::Colossoid => AttackMode::Melee,
        }
    }

    /// The biomass this creature costs to spawn, in whole points.
    pub fn biomass_cost(&self) -> (c: u32)
        ensures
            c == spec_biomass_cost(*self),
    {
        match self {
            CreatureKind::Scuttler => 15,
            CreatureKind::Grasper => 25,
            CreatureKind::Ravager => 45,
            CreatureKind::Spitter => 60,
            CreatureKind::Voidthrall => 90,
            CreatureKind::Psychovore => 120,
            CreatureKind::Colossoid => 180,
        }
    }

    /// The name shown to the player.
    pub fn display_name(&self) -> (s: &'static str)
        ensures
            s@ == (match *self {
                CreatureKind::Scuttler => "Scuttler"@,
                CreatureKind::Grasper => "Grasper"@,
                CreatureKind::Ravager => "Ravager"@,
                CreatureKind::Spitter => "Spitter"@,
                CreatureKind::Voidthrall => "Voidthrall"@,
                CreatureKind::Psychovore => "Psychovore"@,
                CreatureKind::Colossoid => "Colossoid"@,
            }),
    {
        match self {
            CreatureKind::Scuttler => "Scuttler",
            CreatureKind::Grasper => "Grasper",
            CreatureKind::Ravager => "Ravager",
            CreatureKind::Spitter => "Spitter",
            CreatureKind::Voidthrall => "Voidthrall",
            CreatureKind::Psychovore => "Psychovore",
            CreatureKind::Colossoid => "Colossoid",
        }
    }
}

/// Stronger creatures cost strictly more biomass.
pub proof fn law_costs_increase_with_power(a: CreatureKind, b: CreatureKind)
    requires
        creature_rank(a) < creature_rank(b),
    ensures
        spec_biomass_cost(a) < spec_biomass_cost(b),
{
}

/// A spawned swarm creature and what it cost.
#[derive(Clone, Copy, Debug, PartialEq, Eq, Structural)]
pub struct SwarmMember {
    pub kind: CreatureKind,
    pub biomass_cost: u32,
}

/// The creature kinds the player may spawn, in the order they were unlocked.
pub struct SwarmUnlocks {
    pub unlocked: Vec<CreatureKind>,
}

impl Default for SwarmUnlocks {
    /// Nothing is unlocked at the start.
    fn default() -> (u: Self)
        ensures
            u.unlocked@.len() == 0,
    {
        SwarmUnlocks { unlocked: Vec::new() }
    }
}

/// The list after unlocking `kind`: appended if it was not there yet.
pub open spec fn spec_unlock(s: Seq<CreatureKind>, kind: CreatureKind) -> Seq<CreatureKind> {
    if s.contains(kind) {
        s
    } else {
        s.push(kind)
    }
}

impl SwarmUnlocks {
    /// No kind is listed twice.
    pub open spec fn wf(&self) -> bool {
        self.unlocked@.no_duplicates()
    }

    /// Whether `kind` has been unlocked.
    pub fn is_unlocked(&self, kind: &CreatureKind) -> (b: bool)
        ensures
            b == self.unlocked@.contains(*kind),
    {
        let mut i: usize = 0;
        while i < self.unlocked.len()
            invariant
                i <= self.unlocked@.len(),
                forall|j: int| 0 <= j < i ==> self.unlocked@[j] != *kind,
            decreases self.unlocked@.len() - i,
        {
            if self.unlocked[i] == *kind {
                return true;
            }
            i = i + 1;
        }
        false
    }

    /// Unlocks `kind`, appending it unless it is already unlocked.
    pub fn unlock(&mut self, kind: CreatureKind)
        ensures
            final(self).unlocked@ == spec_unlock(old(self).unlocked@, kind),
            old(self).wf() ==> final(self).wf(),
    {
        if !self.is_unlocked(&kind) {
            self.unlocked.push(kind);
        }
    }
}

/// After unlocking a kind it is unlocked, and every kind unlocked before
/// still is.
pub proof fn law_unlock_then_unlocked(s: Seq<CreatureKind>, kind: CreatureKind, other: CreatureKind)
    ensures
        spec_unlock(s, kind).contains(kind),
        s.contains(other) ==> spec_unlock(s, kind).contains(other),
        spec_unlock(s, kind).contains(other) ==> s.contains(other) || other == kind,
{
    if !s.contains(kind) {
        assert(s.push(kind)[s.len() as int] == kind);
        if s.contains(other) {
            let i = choose|i: int| 0 <= i < s.len() && s[i] == other;
            assert(s.push(kind)[i] == other);
        }
        if s.push(kind).contains(other) && other != kind {
            let i = choose|i: int| 0 <= i < s.push(kind).len() && s.push(kind)[i] == other;
            assert(s[i] == other);
        }
    }
}

/// Unlocking twice is the same as unlocking once.
pub proof fn law_unlock_idempotent(s: Seq<CreatureKind>, kind: CreatureKind)
    ensures
        spec_unlock(spec_unlock(s, kind), kind) == spec_unlock(s, kind),
{
    law_unlock_then_unlocked(s, kind, kind);
}

/// Unlocking keeps every kind listed at most once.
pub proof fn law_unlock_no_duplicates(s: Seq<CreatureKind>, kind: CreatureKind)
    requires
        s.no_duplicates(),
    ensures
        spec_unlock(s, kind).no_duplicates(),
{
    if !s.contains(kind) {
        let t = s.push(kind);
        assert forall|i: int, j: int| 0 <= i < t.len() && 0 <= j < t.len() && i != j implies t[i] != t[j] by {
            if i == s.len() as int {
                assert(t[j] == s[j]);
            } else if j == s.len() as int {
                assert(t[i] == s[i]);
            }
        }
    }
}

/// Chebyshev range within which another swarm body can be consumed.
pub const CONSUME_RANGE: i32 = 2;

/// The ordered swarm: entity ids of its bodies (the first is the parasite's
/// original body) and the index of the body under control.
pub struct Swarm {
    pub members: Vec<u64>,
    pub active_index: usize,
}

impl Default for Swarm {
    fn default() -> (s: Self)
        ensures
            s.members@.len() == 0,
            s.active_index == 0,
    {
        Swarm { members: Vec::new(), active_index: 0 }
    }
}

/// `s` with every occurrence of `e` taken out, the rest in order.
pub open spec fn without(s: Seq<u64>, e: u64) -> Seq<u64>
    decreases s.len(),
{
    if s.len() == 0 {
        Seq::empty()
    } else if s.last() == e {
        without(s.drop_last(), e)
    } else {
        without(s.drop_last(), e).push(s.last())
    }
}

/// The index of the first occurrence of `e` in `s`, or 0 if it does not occur.
pub open spec fn position_or_zero(s: Seq<u64>, e: u64) -> int {
    if s.contains(e) {
        choose|i: int| 0 <= i < s.len() && s[i] == e && forall|j: int| 0 <= j < i ==> s[j] != e
    } else {
        0
    }
}

/// Taking a body out of the swarm removes it and keeps every other body.
pub proof fn law_removed_member_gone(s: Seq<u64>, e: u64)
    ensures
        !without(s, e).contains(e),
        forall|x: u64| x != e ==> (#[trigger] without(s, e).contains(x) <==> s.contains(x)),
        without(s, e).len() <= s.len(),
    decreases s.len(),
{
    if s.len() > 0 {
        law_removed_member_gone(s.drop_last(), e);
        let r = without(s.drop_last(), e);
        assert forall|x: u64| x != e implies (#[trigger] without(s, e).contains(x) <==> s.contains(x)) by {
            if s.contains(x) {
                let i = choose|i: int| 0 <= i < s.len() && s[i] == x;
                if i < s.len() - 1 {
                    assert(s.drop_last()[i] == x);
                    assert(r.contains(x));
                    if s.last() != e {
                        let k = choose|k: int| 0 <= k < r.len() && r[k] == x;
                        assert(r.push(s.last())[k] == x);
                    }
                } else {
                    assert(s.last() == x);
                    assert(r.push(s.last())[r.len() as int] == x);
                }
            }
            if without(s, e).contains(x) {
                if s.last() == e {
                    assert(r.contains(x));
                } else {
                    let k = choose|k: int| 0 <= k < r.push(s.last()).len() && r.push(s.last())[k] == x;
                    if k < r.len() {
                        assert(r[k] == x);
                        assert(r.contains(x));
                        assert(s.drop_last().contains(x));
                        let i = choose|i: int| 0 <= i < s.drop_last().len() && s.drop_last()[i] == x;
                        assert(s[i] == x);
                    } else {
                        assert(s[s.len() - 1] == x);
                    }
                }
            }
        }
        if s.last() != e {
            if r.push(s.last()).contains(e) {
                let k = choose|k: int| 0 <= k < r.push(s.last()).len() && r.push(s.last())[k] == e;
                if k < r.len() {
                    assert(r[k] == e);
                }
            }
        }
    }
}

/// A copy of `s` without `e`.
fn without_vec(s: &Vec<u64>, e: u64) -> (kept: Vec<u64>)
    ensures
        kept@ == without(s@, e),
{
    let mut kept: Vec<u64> = Vec::new();
    let mut i: usize = 0;
    while i < s.len()
        invariant
            i <= s@.len(),
            kept@ == without(s@.subrange(0, i as int), e),
        decreases s@.len() - i,
    {
        let m = s[i];
        proof {
            let t = s@.subrange(0, i + 1);
            assert(t.drop_last() == s@.subrange(0, i as int));
            assert(t.last() == m);
        }
        if m != e {
            kept.push(m);
        }
        i = i + 1;
    }
    assert(s@.subrange(0, s@.len() as int) == s@);
    kept
}

/// The first index of `e` in `s`, or 0.
fn position_of(s: &Vec<u64>, e: u64) -> (i: usize)
    ensures
        i == position_or_zero(s@, e),
        s@.len() > 0 ==> i < s@.len(),
{
    let mut k: usize = 0;
    while k < s.len()
        invariant
            k <= s@.len(),
            forall|j: int| 0 <= j < k ==> s@[j] != e,
        decreases s@.len() - k,
    {
        if s[k] == e {
            proof {
                let c = choose|i: int| 0 <= i < s@.len() && s@[i] == e && forall|j: int| 0 <= j < i ==> s@[j] != e;
                if c < k {
                    assert(s@[c] != e);
                } else if c > k {
                    assert(s@[k as int] != e);
                }
            }
            return k;
        }
        k = k + 1;
    }
    proof {
        if s@.contains(e) {
            let c = choose|i: int| 0 <= i < s@.len() && s@[i] == e;
            assert(s@[c] != e);
        }
    }
    0
}

/// Whether a candidate at `(k)` steps after `start` is the first valid one.
pub open spec fn first_valid_after(start: int, len: int, valid: Seq<bool>, k: int) -> bool {
    &&& 1 <= k <= len
    &&& valid[(start + k) % len]
    &&& forall|k2: int| 1 <= k2 < k ==> !#[trigger] valid[(start + k2) % len]
}

impl Swarm {
    /// The body to take control of next: the first body after the current
    /// one, cycling round, that still exists (`valid`), possibly the current
    /// body itself; `None` if there is none.
    pub fn next_controllable(&self, valid: &Vec<bool>) -> (r: Option<usize>)
        requires
            valid@.len() == self.members@.len(),
            self.active_index < usize::MAX,
        ensures
            match r {
                Some(j) => exists|k: int|
                    #![trigger first_valid_after(self.active_index as int, valid@.len() as int, valid@, k)]
                    first_valid_after(self.active_index as int, valid@.len() as int, valid@, k) && j == (
                    self.active_index + k) % (valid@.len() as int),
                None => forall|j: int| 0 <= j < valid@.len() ==> !#[trigger] valid@[j],
            },
    {
        let len = self.members.len();
        if len == 0 {
            return None;
        }
        let start = self.active_index;
        let mut next: usize = (start + 1) % len;
        let mut k: usize = 0;
        while k < len
            invariant
                len == valid@.len(),
                len > 0,
                start == self.active_index,
                start < usize::MAX,
                k <= len,
                next == (start + k + 1) % (len as int),
                forall|k2: int| 1 <= k2 <= k ==> !#[trigger] valid@[(start + k2) % (len as int)],
            decreases len - k,
        {
            if valid[next] {
                assert(first_valid_after(self.active_index as int, valid@.len() as int, valid@, k + 1));
                return Some(next);
            }
            proof {
                vstd::arithmetic::div_mod::lemma_add_mod_noop_right(1, start + k + 1, len as int);
            }
            next = (next + 1) % len;
            k = k + 1;
        }
        proof {
            assert forall|j: int| 0 <= j < valid@.len() implies !#[trigger] valid@[j] by {
                let n: int = len as int;
                let st: int = start as int;
                let s: int = st % n;
                vstd::arithmetic::div_mod::lemma_mod_bound(st, n);
                let k2: int = if j > s { j - s } else { j - s + n };
                vstd::arithmetic::div_mod::lemma_add_mod_noop_right(k2, st, n);
                assert((k2 + st) % n == (st + k2) % n);
                if j > s {
                    assert(k2 + s == j);
                    vstd::arithmetic::div_mod::lemma_small_mod(j as nat, n as nat);
                } else {
                    assert(k2 + s == n + j);
                    vstd::arithmetic::div_mod::lemma_mod_add_multiples_vanish(j, n);
                    vstd::arithmetic::div_mod::lemma_small_mod(j as nat, n as nat);
                }
                assert((st + k2) % n == j);
                assert(!valid@[(st + k2) % n]);
            }
        }
        None
    }

    /// Takes `entity` out of the swarm. If it was the body under control and
    /// bodies remain, control passes to the first body; the active index then
    /// points at the controlled body (0 if it is no longer listed). Returns
    /// the body under control afterwards.
    pub fn remove_member(&mut self, entity: u64, active: u64) -> (new_active: u64)
        ensures
            final(self).members@ == without(old(self).members@, entity),
            new_active == (if active == entity && final(self).members@.len() > 0 {
                final(self).members@[0]
            } else {
                active
            }),
            final(self).active_index == position_or_zero(final(self).members@, new_active),
            final(self).members@.len() > 0 ==> final(self).active_index < final(self).members@.len(),
    {
        let kept = without_vec(&self.members, entity);
        let new_active = if active == entity && kept.len() > 0 { kept[0] } else { active };
        let idx = position_of(&kept, new_active);
        self.members = kept;
        self.active_index = idx;
        new_active
    }

    /// Switches control to the next body that still exists (see
    /// `next_controllable`) and returns it; with none, nothing changes.
    pub fn switch_control(&mut self, valid: &Vec<bool>) -> (r: Option<u64>)
        requires
            valid@.len() == old(self).members@.len(),
            old(self).active_index < usize::MAX,
        ensures
            final(self).members@ == old(self).members@,
            match r {
                Some(e) => exists|k: int|
                    #![trigger first_valid_after(old(self).active_index as int, valid@.len() as int, valid@, k)]
                    first_valid_after(old(self).active_index as int, valid@.len() as int, valid@, k)
                        && final(self).active_index == (old(self).active_index + k) % (valid@.len() as int)
                        && e == final(self).members@[final(self).active_index as int],
                None => final(self).active_index == old(self).active_index && forall|j: int|
                    0 <= j < valid@.len() ==> !#[trigger] valid@[j],
            },
    {
        match self.next_controllable(valid) {
            Some(j) => {
                self.active_index = j;
                Some(self.members[j])
            },
            None => None,
        }
    }

    /// Whether `entity` is one of the swarm's bodies.
    pub fn has_member(&self, entity: u64) -> (b: bool)
        ensures
            b == self.members@.contains(entity),
    {
        let mut k: usize = 0;
        while k < self.members.len()
            invariant
                k <= self.members@.len(),
                forall|j: int| 0 <= j < k ==> self.members@[j] != entity,
            decreases self.members@.len() - k,
        {
            if self.members[k] == entity {
                return true;
            }
            k = k + 1;
        }
        false
    }

    /// What a death does to the swarm: nothing when the dead body is not in
    /// the swarm, or is the parasite's original body (whose death ends the
    /// run instead); otherwise the body is taken out as `remove_member` does.
    /// Returns the body under control afterwards.
    pub fn on_member_died(&mut self, entity: u64, active: u64, is_player: bool) -> (new_active: u64)
        ensures
            !old(self).members@.contains(entity) || is_player ==> final(self).members@ == old(self).members@
                && final(self).active_index == old(self).active_index && new_active == active,
            old(self).members@.contains(entity) && !is_player ==> {
                &&& final(self).members@ == without(old(self).members@, entity)
                &&& new_active == (if active == entity && final(self).members@.len() > 0 {
                    final(self).members@[0]
                } else {
                    active
                })
                &&& final(self).active_index == position_or_zero(final(self).members@, new_active)
            },
    {
        if !self.has_member(entity) || is_player {
            return active;
        }
        self.remove_member(entity, active)
    }
}

/// A swarm body that might be consumed, with its tile position.
#[derive(Clone, Copy, Debug, PartialEq, Eq, Structural)]
pub struct ConsumeCandidate {
    pub entity: u64,
    pub x: i32,
    pub y: i32,
    /// The parasite's original body, which is never consumed.
    pub is_player: bool,
}

/// Whether candidate `c` may be consumed by the body `active` at `(x, y)`.
pub open spec fn consumable(c: ConsumeCandidate, active: u64, x: i32, y: i32) -> bool {
    c.entity != active && !c.is_player && chebyshev(c.x as int, c.y as int, x as int, y as int) <= 2
}

/// Picks the body to consume: among the candidates other than the controlled
/// body and the original body, within `CONSUME_RANGE`, the nearest; the
/// first in order among equally near ones.
pub fn pick_consume_target(cands: &Vec<ConsumeCandidate>, active: u64, x: i32, y: i32) -> (r: Option<usize>)
    ensures
        match r {
            Some(i) => {
                &&& 0 <= i < cands@.len()
                &&& consumable(cands@[i as int], active, x, y)
                &&& forall|j: int|
                    0 <= j < cands@.len() && #[trigger] consumable(cands@[j], active, x, y) ==> chebyshev(
                        cands@[i as int].x as int,
                        cands@[i as int].y as int,
                        x as int,
                        y as int,
                    ) <= chebyshev(cands@[j].x as int, cands@[j].y as int, x as int, y as int)
                &&& forall|j: int|
                    0 <= j < i && #[trigger] consumable(cands@[j], active, x, y) ==> chebyshev(
                        cands@[i as int].x as int,
                        cands@[i as int].y as int,
                        x as int,
                        y as int,
                    ) < chebyshev(cands@[j].x as int, cands@[j].y as int, x as int, y as int)
            },
            None => forall|j: int| 0 <= j < cands@.len() ==> !#[trigger] consumable(cands@[j], active, x, y),
        },
{
    let mut best: Option<(usize, i64)> = None;
    let mut i: usize = 0;
    while i < cands.len()
        invariant
            i <= cands@.len(),
            match best {
                Some((b, d)) => {
                    &&& b < i
                    &&& consumable(cands@[b as int], active, x, y)
                    &&& d == chebyshev(cands@[b as int].x as int, cands@[b as int].y as int, x as int, y as int)
                    &&& forall|j: int|
                        0 <= j < i && #[trigger] consumable(cands@[j], active, x, y) ==> d <= chebyshev(
                            cands@[j].x as int,
                            cands@[j].y as int,
                            x as int,
                            y as int,
                        )
                    &&& forall|j: int|
                        0 <= j < b && #[trigger] consumable(cands@[j], active, x, y) ==> d < chebyshev(
                            cands@[j].x as int,
                            cands@[j].y as int,
                            x as int,
                            y as int,
                        )
                },
                None => forall|j: int| 0 <= j < i ==> !#[trigger] consumable(cands@[j], active, x, y),
            },
        decreases cands@.len() - i,
    {
        let c = cands[i];
        if c.entity != active && !c.is_player {
            let d = chebyshev_distance(c.x, c.y, x, y);
            if d <= CONSUME_RANGE as i64 {
                match best {
                    Some((_, bd)) => {
                        if d < bd {
                            best = Some((i, d));
                        }
                    },
                    None => {
                        best = Some((i, d));
                    },
                }
            }
        }
        i = i + 1;
    }
    match best {
        Some((b, _)) => Some(b),
        None => None,
    }
}

/// Why a creature could not be spawned, or that it can.
#[derive(Clone, Copy, Debug, PartialEq, Eq, Structural)]
pub enum SpawnCheck {
    NotUnlocked,
    TooExpensive,
    /// The swarm already holds as many bodies as the psychic tier allows.
    SwarmFull,
    Allowed,
}

/// The answer to a spawn request for `kind` with `biomass` whole points and a
/// swarm of `members` bodies whose cap is `capacity`.
pub open spec fn spec_spawn_check(unlocks: SwarmUnlocks, kind: CreatureKind, biomass: u32, members: int, capacity: int) -> SpawnCheck {
    if !unlocks.unlocked@.contains(kind) {
        SpawnCheck::NotUnlocked
    } else if biomass < spec_biomass_cost(kind) {
        SpawnCheck::TooExpensive
    } else if members >= capacity {
        SpawnCheck::SwarmFull
    } else {
        SpawnCheck::Allowed
    }
}

/// Whether `kind` can be spawned with `biomass` whole points into a swarm of
/// `members` bodies capped at `capacity` (the psychic tier's swarm capacity):
/// it must be unlocked, affordable, and the swarm must have room. Costs are
/// whole numbers, so comparing the whole part of the biomass decides
/// affordability exactly.
pub fn spawn_check(unlocks: &SwarmUnlocks, kind: CreatureKind, biomass: u32, members: usize, capacity: usize) -> (c: SpawnCheck)
    ensures
        c == spec_spawn_check(*unlocks, kind, biomass, members as int, capacity as int),
{
    if !unlocks.is_unlocked(&kind) {
        SpawnCheck::NotUnlocked
    } else if biomass < kind.biomass_cost() {
        SpawnCheck::TooExpensive
    } else if members >= capacity {
        SpawnCheck::SwarmFull
    } else {
        SpawnCheck::Allowed
    }
}

impl Swarm {
    /// Spawns a creature of `kind` as body `entity` when `spawn_check` allows
    /// it: its cost is taken from `biomass` and the body joins the swarm at
    /// the end. Otherwise nothing changes. Returns the check's answer.
    pub fn spawn_creature(
        &mut self,
        unlocks: &SwarmUnlocks,
        kind: CreatureKind,
        biomass: &mut u32,
        capacity: usize,
        entity: u64,
    ) -> (c: SpawnCheck)
        ensures
            c == spec_spawn_check(*unlocks, kind, *old(biomass), old(self).members@.len() as int, capacity as int),
            c == SpawnCheck::Allowed ==> {
                &&& *final(biomass) == *old(biomass) - spec_biomass_cost(kind)
                &&& final(self).members@ == old(self).members@.push(entity)
                &&& final(self).active_index == old(self).active_index
            },
            c != SpawnCheck::Allowed ==> *final(biomass) == *old(biomass) && final(self).members@ == old(
                self,
            ).members@ && final(self).active_index == old(self).active_index,
    {
        let c = spawn_check(unlocks, kind, *biomass, self.members.len(), capacity);
        if c == SpawnCheck::Allowed {
            *biomass = *biomass - kind.biomass_cost();
            self.members.push(entity);
        }
        c
    }
}

/// A spawn never takes the swarm past its cap: a swarm within its cap stays
/// within it.
pub proof fn law_spawn_keeps_cap(unlocks: SwarmUnlocks, kind: CreatureKind, biomass: u32, members: int, capacity: int)
    requires
        members <= capacity,
    ensures
        spec_spawn_check(unlocks, kind, biomass, members, capacity) == SpawnCheck::Allowed ==> members + 1
            <= capacity,
{
}

} // verus!
