use crate::state::BuzzerState;
use vstd::prelude::*;

verus! {

/// Audio cue that a buzzer transition asks the playback engine to start.
#[derive(Clone, Copy, PartialEq, Eq, Structural, Debug)]
pub enum AudioCue {
    ErrorCue,
    SuccessCue,
}

/// The buzzer transition table: the state after applying an inbound command
/// to the current state. A cue command is honored only from `Rest`; `Rest`
/// is always honored; an active cue is not interrupted by another cue.
pub open spec fn spec_buzzer_next(current: BuzzerState, command: BuzzerState) -> BuzzerState {
    match (command, current) {
        (BuzzerState::PlayErrorSound, BuzzerState::Rest) => BuzzerState::PlayErrorSound,
        (BuzzerState::PlaySuccessSound, BuzzerState::Rest) => BuzzerState::PlaySuccessSound,
        (BuzzerState::Rest, _) => BuzzerState::Rest,
        _ => current,
    }
}

/// The audio cue that a transition raises: only the two effectful
/// transitions out of `Rest` start a playback.
pub open spec fn spec_buzzer_cue(current: BuzzerState, command: BuzzerState) -> Option<
    AudioCue,
> {
    match (command, current) {
        (BuzzerState::PlayErrorSound, BuzzerState::Rest) => Some(AudioCue::ErrorCue),
        (BuzzerState::PlaySuccessSound, BuzzerState::Rest) => Some(AudioCue::SuccessCue),
        _ => None,
    }
}

/// Applies one inbound buzzer command to the current buzzer state and
/// returns the next state together with the audio cue to start, if any.
pub fn buzzer_step(current: BuzzerState, command: BuzzerState) -> (r: (
    BuzzerState,
    Option<AudioCue>,
))
    ensures
        r.0 == spec_buzzer_next(current, command),
        r.1 == spec_buzzer_cue(current, command),
{
    match (command, current) {
        (BuzzerState::PlayErrorSound, BuzzerState::Rest) => (
            BuzzerState::PlayErrorSound,
            Some(AudioCue::ErrorCue),
        ),
        (BuzzerState::PlaySuccessSound, BuzzerState::Rest) => (
            BuzzerState::PlaySuccessSound,
            Some(AudioCue::SuccessCue),
        ),
        (BuzzerState::Rest, _) => (BuzzerState::Rest, None),
        _ => (current, None),
    }
}

/// Repeating a command is idempotent: applying the transition table twice
/// with the same command from the same starting state ends in the state one
/// application reaches, and the second application raises no audio cue.
pub proof fn lemma_buzzer_command_idempotent(current: BuzzerState, command: BuzzerState)
    ensures
        spec_buzzer_next(spec_buzzer_next(current, command), command) == spec_buzzer_next(
            current,
            command,
        ),
        spec_buzzer_cue(spec_buzzer_next(current, command), command) is None,
{
}

} // verus!
