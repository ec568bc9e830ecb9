use survey::survey::{
    confirm_button_shown, confirm_click_step, confirm_timer_step, continue_button_shown,
    next_survey, pick_star, ConfirmPhase,
};

#[test]
fn pick_star_known_values() {
    assert_eq!(pick_star(0xABCD_1234, 2), 1013904243);
    assert_eq!(pick_star(0xABCD_1234, 255), 2571255750);
    assert_eq!(pick_star(0, 0), 0);
}

#[test]
fn next_survey_advances_and_saturates() {
    assert_eq!(next_survey(0xABCD_1234, 1), (2, 1013904243));
    assert_eq!(next_survey(0xABCD_1234, 254), (255, 2571255750));
    assert_eq!(next_survey(0xABCD_1234, 255), (255, 2571255750));
}

#[test]
fn confirm_sequence_full_round() {
    let mut phase = ConfirmPhase::Idle;
    // nothing happens without a click
    phase = confirm_timer_step(phase, true).unwrap();
    assert!(confirm_button_shown(phase));
    phase = confirm_click_step(phase, false, false);
    assert_eq!(phase, ConfirmPhase::Idle);
    // confirm starts the animation
    phase = confirm_click_step(phase, true, false);
    assert_eq!(phase, ConfirmPhase::Animating);
    // animation runs until its timer is done
    phase = confirm_timer_step(phase, false).unwrap();
    assert_eq!(phase, ConfirmPhase::Animating);
    phase = confirm_timer_step(phase, true).unwrap();
    assert_eq!(phase, ConfirmPhase::Holding);
    assert!(continue_button_shown(phase));
    assert!(!confirm_button_shown(phase));
    // holding waits for continue
    phase = confirm_timer_step(phase, true).unwrap();
    assert_eq!(phase, ConfirmPhase::Holding);
    phase = confirm_click_step(phase, false, true);
    assert_eq!(phase, ConfirmPhase::Exiting);
    assert_eq!(confirm_timer_step(phase, false), Some(ConfirmPhase::Exiting));
    assert_eq!(confirm_timer_step(phase, true), None);
}

#[test]
fn clicks_on_hidden_buttons_are_ignored() {
    assert_eq!(confirm_click_step(ConfirmPhase::Animating, true, true), ConfirmPhase::Animating);
    assert_eq!(confirm_click_step(ConfirmPhase::Idle, false, true), ConfirmPhase::Idle);
    assert_eq!(confirm_click_step(ConfirmPhase::Holding, true, false), ConfirmPhase::Holding);
}
