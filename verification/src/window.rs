//! The decisions of the main window: the difficulty selector, and what the hint and
//! submit buttons do for a given board.

use vstd::prelude::*;

use crate::model::Difficulty;

verus! {

/// Game events the window dispatches.
#[derive(Clone, Copy, Debug, PartialEq, Eq, Structural)]
pub enum GameEvent {
    IncrementHintsUsed,
    RewindLastGood,
    ShowHint,
    Solve,
    Undo,
    Redo,
    /// A new game with the given grid size.
    NewGame(usize),
}

/// How long the hint button stays disabled after showing a hint, in milliseconds.
pub const HINT_COOLDOWN_MS: u64 = 1000;

/// What a press of the hint button does.
#[derive(Clone, Copy, Debug, PartialEq, Eq, Structural)]
pub struct HintResponse {
    /// The event to dispatch at once.
    pub event: GameEvent,
    /// Whether to play a losing sound.
    pub play_lose_sound: bool,
    /// Whether to ask the player to rewind to the last correct state.
    pub offer_rewind: bool,
    /// For how long to disable the hint button, if at all.
    pub disable_button_ms: Option<u64>,
}

/// What a press of the submit button does.
#[derive(Clone, Copy, Debug, PartialEq, Eq, Structural)]
pub enum SubmitResponse {
    /// The game state is busy: nothing happens.
    Ignore,
    /// The board is solved: stop the button's blinking, play a winning sound, record the
    /// game, and show the statistics, which start a new game when closed.
    Win,
    /// The board is not solved: play a losing sound and ask the player to rewind.
    Retry,
}

/// The response to a press of the hint button.
pub open spec fn hint_response(board_is_incorrect: bool) -> HintResponse {
    if board_is_incorrect {
        HintResponse {
            event: GameEvent::IncrementHintsUsed,
            play_lose_sound: true,
            offer_rewind: true,
            disable_button_ms: None,
        }
    } else {
        HintResponse {
            event: GameEvent::ShowHint,
            play_lose_sound: false,
            offer_rewind: false,
            disable_button_ms: Some(HINT_COOLDOWN_MS),
        }
    }
}

/// Decides what the hint button does: on a board with a mistake it counts a hint used
/// and offers a rewind; on a correct board it shows a hint and rests for a second.
pub fn hint_button_handler(board_is_incorrect: bool) -> (r: HintResponse)
    ensures
        r == hint_response(board_is_incorrect),
{
    if board_is_incorrect {
        HintResponse {
            event: GameEvent::IncrementHintsUsed,
            play_lose_sound: true,
            offer_rewind: true,
            disable_button_ms: None,
        }
    } else {
        HintResponse {
            event: GameEvent::ShowHint,
            play_lose_sound: false,
            offer_rewind: false,
            disable_button_ms: Some(HINT_COOLDOWN_MS),
        }
    }
}

/// The event that answers the rewind question: a rewind where the player accepts it,
/// none otherwise.
pub fn rewind_dialog_response(accepted: bool) -> (r: Option<GameEvent>)
    ensures
        r == (if accepted {
            Some(GameEvent::RewindLastGood)
        } else {
            None
        }),
{
    if accepted {
        Some(GameEvent::RewindLastGood)
    } else {
        None
    }
}

/// Decides what the submit button does. `board` is `None` while the game state cannot be
/// read, and otherwise whether the board is complete and whether it holds a mistake.
pub fn submit_handler(board: Option<(bool, bool)>) -> (r: SubmitResponse)
    ensures
        r == (match board {
            None => SubmitResponse::Ignore,
            Some((complete, incorrect)) => if complete && !incorrect {
                SubmitResponse::Win
            } else {
                SubmitResponse::Retry
            },
        }),
{
    match board {
        None => SubmitResponse::Ignore,
        Some((complete, incorrect)) => if complete && !incorrect {
            SubmitResponse::Win
        } else {
            SubmitResponse::Retry
        },
    }
}

/// The event that closing the statistics after a win dispatches.
pub fn win_dialog_closed(grid_size: usize) -> (e: GameEvent)
    ensures
        e == GameEvent::NewGame(grid_size),
{
    GameEvent::NewGame(grid_size)
}

/// The position of a difficulty in the selector.
pub open spec fn spec_difficulty_index(d: Difficulty) -> u32 {
    match d {
        Difficulty::Easy => 0,
        Difficulty::Moderate => 1,
        Difficulty::Hard => 2,
        Difficulty::Veteran => 3,
    }
}

/// The difficulty at a position of the selector, if any.
pub open spec fn spec_difficulty_at(i: u32) -> Option<Difficulty> {
    if i == 0 {
        Some(Difficulty::Easy)
    } else if i == 1 {
        Some(Difficulty::Moderate)
    } else if i == 2 {
        Some(Difficulty::Hard)
    } else if i == 3 {
        Some(Difficulty::Veteran)
    } else {
        None
    }
}

/// The difficulties the selector offers, in order.
pub fn difficulty_options() -> (v: Vec<Difficulty>)
    ensures
        v@ == seq![Difficulty::Easy, Difficulty::Moderate, Difficulty::Hard, Difficulty::Veteran],
{
    vec![Difficulty::Easy, Difficulty::Moderate, Difficulty::Hard, Difficulty::Veteran]
}

/// The selector position that shows a difficulty.
pub fn difficulty_index(d: Difficulty) -> (i: u32)
    ensures
        i == spec_difficulty_index(d),
{
    match d {
        Difficulty::Easy => 0,
        Difficulty::Moderate => 1,
        Difficulty::Hard => 2,
        Difficulty::Veteran => 3,
    }
}

/// The difficulty chosen at a selector position; `None` for a position past the last.
pub fn difficulty_from_index(i: u32) -> (d: Option<Difficulty>)
    ensures
        d == spec_difficulty_at(i),
{
    match i {
        0 => Some(Difficulty::Easy),
        1 => Some(Difficulty::Moderate),
        2 => Some(Difficulty::Hard),
        3 => Some(Difficulty::Veteran),
        _ => None,
    }
}

/// Selecting the position that shows a difficulty chooses that difficulty again.
pub proof fn lemma_difficulty_index_roundtrip(d: Difficulty)
    ensures
        spec_difficulty_at(spec_difficulty_index(d)) == Some(d),
{
}

/// Every position that chooses a difficulty is the position that shows it, and the
/// positions that choose one are exactly those below the number of options.
pub proof fn lemma_difficulty_position_roundtrip(i: u32)
    ensures
        spec_difficulty_at(i) matches Some(d) ==> spec_difficulty_index(d) == i,
        spec_difficulty_at(i) is Some <==> i < 4,
{
}

/// The option at each selector position is the difficulty that position chooses.
pub proof fn lemma_difficulty_options_order(i: u32)
    requires
        i < 4,
    ensures
        spec_difficulty_at(i) == Some(
            seq![Difficulty::Easy, Difficulty::Moderate, Difficulty::Hard, Difficulty::Veteran][i as int],
        ),
{
}

} // verus!
