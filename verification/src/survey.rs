//! The round structure of a survey: which star a round examines, how a round
//! leads to the next, and the confirm sequence that closes a round.
use vstd::prelude::*;
use crate::star::WEYL_STEP;

verus! {

/// The star examined in survey round `round` of world `seed`.
pub open spec fn spec_pick_star(seed: u64, round: u8) -> usize {
    (seed.wrapping_add((round as u64).wrapping_mul(WEYL_STEP)) >> 32) as usize
}

/// Picks the star index examined in round `round`: the upper half of a
/// Weyl-sequence step from the world seed.
pub fn pick_star(seed: u64, round: u8) -> (star: usize)
    ensures
        star == spec_pick_star(seed, round),
        star < 0x1_0000_0000,
{
    let h = seed.wrapping_add((round as u64).wrapping_mul(WEYL_STEP));
    assert(h >> 32 < 0x1_0000_0000) by (bit_vector);
    (h >> 32) as usize
}

/// The round after `round`; the round number stops at 255.
pub open spec fn spec_next_round(round: u8) -> u8 {
    if round < 255 {
        (round + 1) as u8
    } else {
        255
    }
}

/// The round that follows `round`, and the star it examines.
pub fn next_survey(seed: u64, round: u8) -> (next: (u8, usize))
    ensures
        next.0 == spec_next_round(round),
        next.1 == spec_pick_star(seed, next.0),
{
    let new_round = round.saturating_add(1);
    let new_star = pick_star(seed, new_round);
    (new_round, new_star)
}

/// Law: rounds never go backwards; each round is one more than the last
/// until round 255, which repeats.
pub proof fn law_rounds_advance(round: u8)
    ensures
        spec_next_round(round) >= round,
        round < 255 ==> spec_next_round(round) == round + 1,
        round == 255 ==> spec_next_round(round) == 255,
{
}

// ─── Confirm sequence ─────────────────────────────────────────────────────────

/// Where the confirm sequence of a round stands.
#[derive(Clone, Copy, Debug, PartialEq, Eq, Structural)]
pub enum ConfirmPhase {
    /// The player is still editing guesses; the Confirm button is shown.
    Idle,
    /// The results fade in.
    Animating,
    /// The results are shown; the Continue button is shown.
    Holding,
    /// The results fade out before the next round.
    Exiting,
}

/// The position of a phase in the sequence Idle, Animating, Holding,
/// Exiting.
pub open spec fn phase_rank(phase: ConfirmPhase) -> nat {
    match phase {
        ConfirmPhase::Idle => 0,
        ConfirmPhase::Animating => 1,
        ConfirmPhase::Holding => 2,
        ConfirmPhase::Exiting => 3,
    }
}

/// The timer part of a frame: an animating sequence holds once its timer
/// has run out, and an exiting sequence ends the round (`None`).
pub open spec fn spec_timer_step(phase: ConfirmPhase, timer_done: bool) -> Option<ConfirmPhase> {
    match phase {
        ConfirmPhase::Animating => if timer_done {
            Some(ConfirmPhase::Holding)
        } else {
            Some(ConfirmPhase::Animating)
        },
        ConfirmPhase::Exiting => if timer_done {
            None
        } else {
            Some(ConfirmPhase::Exiting)
        },
        _ => Some(phase),
    }
}

/// The click part of a frame: Confirm starts the animation from Idle, and
/// Continue starts the exit from Holding.  A click on a button that the
/// phase does not show changes nothing.
pub open spec fn spec_click_step(
    phase: ConfirmPhase,
    confirm_clicked: bool,
    continue_clicked: bool,
) -> ConfirmPhase {
    if phase == ConfirmPhase::Idle && confirm_clicked {
        ConfirmPhase::Animating
    } else if phase == ConfirmPhase::Holding && continue_clicked {
        ConfirmPhase::Exiting
    } else {
        phase
    }
}

/// Advances the confirm sequence by the timers of one frame.
/// `timer_done` tells whether the phase's timer has reached its duration.
/// Returns `None` when the round is over.
pub fn confirm_timer_step(phase: ConfirmPhase, timer_done: bool) -> (next: Option<ConfirmPhase>)
    ensures
        next == spec_timer_step(phase, timer_done),
{
    match phase {
        ConfirmPhase::Animating => if timer_done {
            Some(ConfirmPhase::Holding)
        } else {
            Some(ConfirmPhase::Animating)
        },
        ConfirmPhase::Exiting => if timer_done {
            None
        } else {
            Some(ConfirmPhase::Exiting)
        },
        _ => Some(phase),
    }
}

/// Whether the Confirm Planets button is shown in `phase`.
pub fn confirm_button_shown(phase: ConfirmPhase) -> (shown: bool)
    ensures
        shown == (phase == ConfirmPhase::Idle),
{
    phase == ConfirmPhase::Idle
}

/// Whether the Continue button is shown in `phase`.
pub fn continue_button_shown(phase: ConfirmPhase) -> (shown: bool)
    ensures
        shown == (phase == ConfirmPhase::Holding),
{
    phase == ConfirmPhase::Holding
}

/// Advances the confirm sequence by the button clicks of one frame.
pub fn confirm_click_step(phase: ConfirmPhase, confirm_clicked: bool, continue_clicked: bool) -> (next:
    ConfirmPhase)
    ensures
        next == spec_click_step(phase, confirm_clicked, continue_clicked),
{
    if phase == ConfirmPhase::Idle && confirm_clicked {
        ConfirmPhase::Animating
    } else if phase == ConfirmPhase::Holding && continue_clicked {
        ConfirmPhase::Exiting
    } else {
        phase
    }
}

/// Law: a click changes the phase only when it hits the button that the
/// phase shows (Confirm in Idle, Continue in Holding); without clicks the
/// phase stays.  Holding waits for Continue, and Idle waits for Confirm.
pub proof fn law_clicks_need_shown_button(
    phase: ConfirmPhase,
    confirm_clicked: bool,
    continue_clicked: bool,
)
    ensures
        spec_click_step(phase, false, false) == phase,
        spec_click_step(phase, confirm_clicked, continue_clicked) != phase ==> (confirm_clicked
            && phase == ConfirmPhase::Idle) || (continue_clicked && phase == ConfirmPhase::Holding),
        spec_click_step(ConfirmPhase::Holding, confirm_clicked, false) == ConfirmPhase::Holding,
        spec_click_step(ConfirmPhase::Idle, false, continue_clicked) == ConfirmPhase::Idle,
        spec_click_step(ConfirmPhase::Animating, confirm_clicked, continue_clicked)
            == ConfirmPhase::Animating,
        spec_click_step(ConfirmPhase::Exiting, confirm_clicked, continue_clicked)
            == ConfirmPhase::Exiting,
        confirm_clicked ==> spec_click_step(ConfirmPhase::Idle, confirm_clicked, continue_clicked)
            == ConfirmPhase::Animating,
        continue_clicked ==> spec_click_step(ConfirmPhase::Holding, confirm_clicked, continue_clicked)
            == ConfirmPhase::Exiting,
{
}

/// Law: a timer that has not run out changes nothing, and Idle and Holding
/// do not react to timers at all.
pub proof fn law_timers_only_move_timed_phases(phase: ConfirmPhase, timer_done: bool)
    ensures
        spec_timer_step(phase, false) == Some(phase),
        spec_timer_step(ConfirmPhase::Idle, timer_done) == Some(ConfirmPhase::Idle),
        spec_timer_step(ConfirmPhase::Holding, timer_done) == Some(ConfirmPhase::Holding),
{
}

/// Law: within a round the confirm sequence only moves forward through
/// Idle, Animating, Holding, Exiting; it leaves Idle only on a Confirm
/// click, and the round ends only from Exiting once its timer has run out.
pub proof fn law_confirm_moves_forward(
    phase: ConfirmPhase,
    timer_done: bool,
    confirm_clicked: bool,
    continue_clicked: bool,
)
    ensures
        spec_timer_step(phase, timer_done) is None <==> (phase == ConfirmPhase::Exiting
            && timer_done),
        spec_timer_step(phase, timer_done) matches Some(p) ==> phase_rank(p) >= phase_rank(phase)
            && phase_rank(spec_click_step(p, confirm_clicked, continue_clicked)) >= phase_rank(p),
        phase == ConfirmPhase::Idle ==> spec_click_step(
            spec_timer_step(phase, timer_done)->0,
            confirm_clicked,
            continue_clicked,
        ) == (if confirm_clicked {
            ConfirmPhase::Animating
        } else {
            ConfirmPhase::Idle
        }),
{
}

} // verus!
