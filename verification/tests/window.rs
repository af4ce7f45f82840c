use gwatson::model::Difficulty;
use gwatson::window::{
    difficulty_from_index, difficulty_index, difficulty_options, hint_button_handler,
    rewind_dialog_response, submit_handler, win_dialog_closed, GameEvent, HintResponse,
    SubmitResponse, HINT_COOLDOWN_MS,
};

#[test]
fn hint_on_a_wrong_board_offers_a_rewind() {
    assert_eq!(
        hint_button_handler(true),
        HintResponse {
            event: GameEvent::IncrementHintsUsed,
            play_lose_sound: true,
            offer_rewind: true,
            disable_button_ms: None,
        }
    );
}

#[test]
fn hint_on_a_correct_board_shows_a_hint_and_rests() {
    let r = hint_button_handler(false);
    assert_eq!(r.event, GameEvent::ShowHint);
    assert!(!r.play_lose_sound);
    assert!(!r.offer_rewind);
    assert_eq!(r.disable_button_ms, Some(1000));
    assert_eq!(HINT_COOLDOWN_MS, 1000);
}

#[test]
fn rewind_only_when_accepted() {
    assert_eq!(rewind_dialog_response(true), Some(GameEvent::RewindLastGood));
    assert_eq!(rewind_dialog_response(false), None);
}

#[test]
fn submit_decisions() {
    assert_eq!(submit_handler(None), SubmitResponse::Ignore);
    assert_eq!(submit_handler(Some((true, false))), SubmitResponse::Win);
    assert_eq!(submit_handler(Some((true, true))), SubmitResponse::Retry);
    assert_eq!(submit_handler(Some((false, false))), SubmitResponse::Retry);
    assert_eq!(submit_handler(Some((false, true))), SubmitResponse::Retry);
    assert_eq!(win_dialog_closed(6), GameEvent::NewGame(6));
}

#[test]
fn difficulty_positions_round_trip() {
    let options = difficulty_options();
    assert_eq!(
        options,
        vec![Difficulty::Easy, Difficulty::Moderate, Difficulty::Hard, Difficulty::Veteran]
    );
    for (i, d) in options.iter().enumerate() {
        assert_eq!(difficulty_index(*d), i as u32);
        assert_eq!(difficulty_from_index(i as u32), Some(*d));
    }
    assert_eq!(difficulty_from_index(4), None);
    assert_eq!(difficulty_from_index(u32::MAX), None);
}
