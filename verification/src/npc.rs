//! The Liberator, the prisoner who breaks the parasite out of jail, and the
//! queue of dialogue lines shown to the player one at a time.

use std::collections::VecDeque;
use vstd::prelude::*;

use crate::combat::signum;
use crate::levels::placement::{chebyshev, chebyshev_distance};
use crate::movement::GridPos;
use crate::quest::QuestState;
use crate::world::map::TileMap;

verus! {

/// Where the Liberator is in the jail-break script.
#[derive(Clone, Copy, Debug, PartialEq, Eq, Structural)]
pub enum LiberatorState {
    Imprisoned,
    BreakingOut,
    Leading,
    AwaitingPlayer,
    Confrontation,
    Gone,
}

/// The order of the script's states.
pub open spec fn liberator_rank(s: LiberatorState) -> int {
    match s {
        LiberatorState::Imprisoned => 0,
        LiberatorState::BreakingOut => 1,
        LiberatorState::Leading => 2,
        LiberatorState::AwaitingPlayer => 3,
        LiberatorState::Confrontation => 4,
        LiberatorState::Gone => 5,
    }
}

/// The Liberator's lines.
pub const LINE_FOLLOW_ME: &'static str = "Follow me. Quickly!";
pub const LINE_AT_EXIT: &'static str = "Come on, the exit is right here. Don't dawdle.";
pub const LINE_DISTRICT: &'static str = "Good. There's work to be done in the district. A lieutenant — find him.";
pub const LINE_CONFRONTED: &'static str = "...What ARE you? You're not human anymore, are you.";

/// One step of the Liberator's script.
#[derive(Clone, Copy, Debug, PartialEq, Eq)]
pub struct LiberatorStep {
    pub state: LiberatorState,
    pub pos: GridPos,
    /// The script timer is reset to this many milliseconds.
    pub reset_timer_ms: Option<u32>,
    /// What the Liberator says.
    pub line: Option<&'static str>,
}

/// The state and position after one step of the script. `timer_expired` says
/// whether the script timer has run out. During the legacy confrontation a
/// Liberator waiting for the player turns to confront them first.
pub open spec fn spec_liberator_next(
    map: TileMap,
    state: LiberatorState,
    quest: QuestState,
    timer_expired: bool,
    pos: GridPos,
    player: GridPos,
) -> (LiberatorState, GridPos) {
    let s = if quest == QuestState::Confrontation && state == LiberatorState::AwaitingPlayer {
        LiberatorState::Confrontation
    } else {
        state
    };
    match s {
        LiberatorState::Imprisoned => (if timer_expired { LiberatorState::BreakingOut } else { s }, pos),
        LiberatorState::BreakingOut => (if timer_expired { LiberatorState::Leading } else { s }, pos),
        LiberatorState::Leading => if timer_expired && map.exit_pos is Some {
            let e = map.exit_pos->0;
            let dx = signum(e.0 - pos.x);
            let dy = signum(e.1 - pos.y);
            if pos.x != e.0 && map.spec_is_walkable(pos.x + dx, pos.y as int) {
                (s, GridPos { x: (pos.x + dx) as i32, y: pos.y })
            } else if pos.y != e.1 && map.spec_is_walkable(pos.x as int, pos.y + dy) {
                (s, GridPos { x: pos.x, y: (pos.y + dy) as i32 })
            } else {
                (LiberatorState::AwaitingPlayer, pos)
            }
        } else {
            (s, pos)
        },
        LiberatorState::AwaitingPlayer => (if chebyshev(pos.x as int, pos.y as int, player.x as int, player.y as int)
            <= 3 {
            LiberatorState::Gone
        } else {
            s
        }, pos),
        LiberatorState::Confrontation => (LiberatorState::Gone, pos),
        LiberatorState::Gone => (s, pos),
    }
}

/// The timer reset and the line of one step of the script, in the same
/// cases as `spec_liberator_next`: out of the cell after half a second with
/// "follow me", leading with a step every 0.8 s, the line at the exit, the
/// line on leaving for the district, the line when confronted.
pub open spec fn spec_liberator_extras(
    map: TileMap,
    state: LiberatorState,
    quest: QuestState,
    timer_expired: bool,
    pos: GridPos,
    player: GridPos,
) -> (Option<u32>, Option<&'static str>) {
    let s = if quest == QuestState::Confrontation && state == LiberatorState::AwaitingPlayer {
        LiberatorState::Confrontation
    } else {
        state
    };
    match s {
        LiberatorState::Imprisoned => if timer_expired {
            (Some(500u32), Some(LINE_FOLLOW_ME))
        } else {
            (None, None)
        },
        LiberatorState::BreakingOut => if timer_expired {
            (Some(1000u32), None)
        } else {
            (None, None)
        },
        LiberatorState::Leading => if !timer_expired {
            (None, None)
        } else if spec_liberator_next(map, state, quest, timer_expired, pos, player).0
            == LiberatorState::AwaitingPlayer {
            (Some(800u32), Some(LINE_AT_EXIT))
        } else {
            (Some(800u32), None)
        },
        LiberatorState::AwaitingPlayer => if chebyshev(pos.x as int, pos.y as int, player.x as int, player.y as int)
            <= 3 {
            (None, Some(LINE_DISTRICT))
        } else {
            (None, None)
        },
        LiberatorState::Confrontation => (None, Some(LINE_CONFRONTED)),
        LiberatorState::Gone => (None, None),
    }
}

/// Runs one step of the Liberator's script: out of the cell, then ahead of
/// the player towards the exit one tile at a time, then waiting there until
/// the player comes within three tiles.
pub fn liberator_step(
    map: &TileMap,
    state: LiberatorState,
    quest: QuestState,
    timer_expired: bool,
    pos: GridPos,
    player: GridPos,
) -> (st: LiberatorStep)
    requires
        map.wf(),
        i32::MIN < pos.x < i32::MAX,
        i32::MIN < pos.y < i32::MAX,
    ensures
        (st.state, st.pos) == spec_liberator_next(*map, state, quest, timer_expired, pos, player),
        (st.reset_timer_ms, st.line) == spec_liberator_extras(*map, state, quest, timer_expired, pos, player),
{
    let s = if quest == QuestState::Confrontation && state == LiberatorState::AwaitingPlayer {
        LiberatorState::Confrontation
    } else {
        state
    };
    match s {
        LiberatorState::Imprisoned => if timer_expired {
            LiberatorStep {
                state: LiberatorState::BreakingOut,
                pos,
                reset_timer_ms: Some(500),
                line: Some(LINE_FOLLOW_ME),
            }
        } else {
            LiberatorStep { state: s, pos, reset_timer_ms: None, line: None }
        },
        LiberatorState::BreakingOut => if timer_expired {
            LiberatorStep { state: LiberatorState::Leading, pos, reset_timer_ms: Some(1000), line: None }
        } else {
            LiberatorStep { state: s, pos, reset_timer_ms: None, line: None }
        },
        LiberatorState::Leading => {
            if !timer_expired {
                return LiberatorStep { state: s, pos, reset_timer_ms: None, line: None };
            }
            match map.exit_pos {
                Some((ex, ey)) => {
                    let dx: i32 = if ex > pos.x { 1 } else if ex < pos.x { -1 } else { 0 };
                    let dy: i32 = if ey > pos.y { 1 } else if ey < pos.y { -1 } else { 0 };
                    if pos.x != ex && map.is_walkable(pos.x + dx, pos.y) {
                        LiberatorStep {
                            state: s,
                            pos: GridPos { x: pos.x + dx, y: pos.y },
                            reset_timer_ms: Some(800),
                            line: None,
                        }
                    } else if pos.y != ey && map.is_walkable(pos.x, pos.y + dy) {
                        LiberatorStep {
                            state: s,
                            pos: GridPos { x: pos.x, y: pos.y + dy },
                            reset_timer_ms: Some(800),
                            line: None,
                        }
                    } else {
                        LiberatorStep {
                            state: LiberatorState::AwaitingPlayer,
                            pos,
                            reset_timer_ms: Some(800),
                            line: Some(LINE_AT_EXIT),
                        }
                    }
                },
                None => LiberatorStep { state: s, pos, reset_timer_ms: Some(800), line: None },
            }
        },
        LiberatorState::AwaitingPlayer => {
            if chebyshev_distance(pos.x, pos.y, player.x, player.y) <= 3 {
                LiberatorStep { state: LiberatorState::Gone, pos, reset_timer_ms: None, line: Some(LINE_DISTRICT) }
            } else {
                LiberatorStep { state: s, pos, reset_timer_ms: None, line: None }
            }
        },
        LiberatorState::Confrontation => LiberatorStep {
            state: LiberatorState::Gone,
            pos,
            reset_timer_ms: None,
            line: Some(LINE_CONFRONTED),
        },
        LiberatorState::Gone => LiberatorStep { state: s, pos, reset_timer_ms: None, line: None },
    }
}

/// The script only moves forward, the Liberator never steps onto a wall, and
/// once gone it stays gone.
pub proof fn law_liberator_script_forward(
    map: TileMap,
    state: LiberatorState,
    quest: QuestState,
    timer_expired: bool,
    pos: GridPos,
    player: GridPos,
)
    ensures
        ({
            let (s2, p2) = spec_liberator_next(map, state, quest, timer_expired, pos, player);
            &&& liberator_rank(s2) >= liberator_rank(state)
            &&& (p2 == pos || map.spec_is_walkable(p2.x as int, p2.y as int))
            &&& (state == LiberatorState::Gone ==> s2 == LiberatorState::Gone)
        }),
{
}

/// One line of dialogue and who says it.
#[derive(Clone, Debug, PartialEq, Eq)]
pub struct DialogueLine {
    pub speaker: String,
    pub text: String,
}

/// The lines waiting to be shown, first in first out.
pub struct DialogueQueue {
    pub lines: VecDeque<DialogueLine>,
}

impl Default for DialogueQueue {
    fn default() -> (q: Self)
        ensures
            q.lines@.len() == 0,
    {
        DialogueQueue { lines: VecDeque::new() }
    }
}

impl DialogueQueue {
    /// Queues a line after every line already waiting.
    pub fn push(&mut self, speaker: &str, text: &str)
        ensures
            final(self).lines@.len() == old(self).lines@.len() + 1,
            final(self).lines@.subrange(0, old(self).lines@.len() as int) == old(self).lines@,
            final(self).lines@.last().speaker@ == speaker@,
            final(self).lines@.last().text@ == text@,
    {
        let line = DialogueLine { speaker: speaker.to_owned(), text: text.to_owned() };
        self.lines.push_back(line);
    }

    /// Takes the line being shown off the queue, once it has been read or its
    /// time is up.
    pub fn advance(&mut self) -> (shown: Option<DialogueLine>)
        ensures
            old(self).lines@.len() == 0 ==> shown is None && final(self).lines@ == old(self).lines@,
            old(self).lines@.len() > 0 ==> shown == Some(old(self).lines@[0]) && final(self).lines@
                == old(self).lines@.drop_first(),
    {
        self.lines.pop_front()
    }
}

/// A line is shown until space is pressed or it has been up four seconds.
pub fn dialogue_should_advance(space: bool, shown_ms: u32) -> (b: bool)
    ensures
        b == (space || shown_ms >= 4000),
{
    space || shown_ms >= 4000
}

} // verus!
