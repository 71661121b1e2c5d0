//! The ending sequence: the fade to black, three pages of narration turned
//! with the space bar, then the end.

use vstd::prelude::*;

verus! {

/// Where the ending sequence stands.
#[derive(Clone, Copy, Debug, PartialEq, Eq, Structural)]
pub enum EndingPhase {
    /// Not started.
    Inactive,
    FadingIn,
    /// Showing the narration page with this index.
    Narration(usize),
    Done,
}

impl Default for EndingPhase {
    fn default() -> (p: Self)
        ensures
            p == EndingPhase::Inactive,
    {
        EndingPhase::Inactive
    }
}

/// The number of narration pages.
pub const NARRATION_LEN: usize = 3;

/// The narration page with index `idx`, if there is one.
pub fn narration(idx: usize) -> (s: Option<&'static str>)
    ensures
        s is Some <==> idx < 3,
        idx == 0 ==> s->0@ == "The parasite spreads.\n\nEvery host consumed feeds the next. The city's immune response is too slow — you are already in the water supply."@,
        idx == 1 ==> s->0@ == "They thought you were a weapon.\n\nThe liberator. The gang. The boss and his lieutenants. Everyone who touched you is now part of you."@,
        idx == 2 ==> s->0@ == "The world will call this a plague.\n\nIt is not a plague.\nIt is an arrival.\n\nYou have barely begun."@,
{
    if idx == 0 {
        Some("The parasite spreads.\n\nEvery host consumed feeds the next. The city's immune response is too slow — you are already in the water supply.")
    } else if idx == 1 {
        Some("They thought you were a weapon.\n\nThe liberator. The gang. The boss and his lieutenants. Everyone who touched you is now part of you.")
    } else if idx == 2 {
        Some("The world will call this a plague.\n\nIt is not a plague.\nIt is an arrival.\n\nYou have barely begun.")
    } else {
        None
    }
}

/// The ending starts, once, when General Marak is dead.
pub fn check_ending(phase: &mut EndingPhase, general_defeated: bool) -> (started: bool)
    ensures
        started == (*old(phase) == EndingPhase::Inactive && general_defeated),
        *final(phase) == (if started { EndingPhase::FadingIn } else { *old(phase) }),
{
    if *phase != EndingPhase::Inactive {
        return false;
    }
    if general_defeated {
        *phase = EndingPhase::FadingIn;
        true
    } else {
        false
    }
}

/// The next phase of the sequence: the fade gives way to the first page once
/// complete; space turns the page, and after the last page the sequence is
/// done. Nothing else moves it.
pub open spec fn spec_ending_step(phase: EndingPhase, fade_complete: bool, space: bool) -> EndingPhase {
    match phase {
        EndingPhase::FadingIn => if fade_complete {
            EndingPhase::Narration(0)
        } else {
            EndingPhase::FadingIn
        },
        EndingPhase::Narration(idx) => if space {
            if idx + 1 >= 3 {
                EndingPhase::Done
            } else {
                EndingPhase::Narration((idx + 1) as usize)
            }
        } else {
            phase
        },
        _ => phase,
    }
}

pub fn ending_step(phase: EndingPhase, fade_complete: bool, space: bool) -> (p: EndingPhase)
    ensures
        p == spec_ending_step(phase, fade_complete, space),
{
    match phase {
        EndingPhase::FadingIn => if fade_complete {
            EndingPhase::Narration(0)
        } else {
            EndingPhase::FadingIn
        },
        EndingPhase::Narration(idx) => if space {
            if idx >= NARRATION_LEN - 1 {
                EndingPhase::Done
            } else {
                EndingPhase::Narration(idx + 1)
            }
        } else {
            phase
        },
        _ => phase,
    }
}

/// The sequence only moves forward, and "done" is final.
pub open spec fn ending_rank(p: EndingPhase) -> int {
    match p {
        EndingPhase::Inactive => 0,
        EndingPhase::FadingIn => 1,
        EndingPhase::Narration(i) => 2 + i,
        EndingPhase::Done => 1000,
    }
}

/// No step goes back, and once done the sequence stays done.
pub proof fn law_ending_moves_forward(p: EndingPhase, fade: bool, space: bool)
    requires
        p matches EndingPhase::Narration(i) ==> i < 3,
    ensures
        ending_rank(spec_ending_step(p, fade, space)) >= ending_rank(p),
        p == EndingPhase::Done ==> spec_ending_step(p, fade, space) == EndingPhase::Done,
{
}

} // verus!
