use vstd::prelude::*;

verus! {

/// State of the mechanical start trigger (tirette), derived from the raw
/// input level on each poll: an electrically low pin reads as `Waiting`,
/// a high pin as `Triggered`.
#[derive(Clone, Copy, PartialEq, Eq, Structural, Debug)]
pub enum TriggerState {
    Waiting,
    Triggered,
}

/// Last commanded audio state of the buzzer.
#[derive(Clone, Copy, PartialEq, Eq, Structural, Debug)]
pub enum BuzzerState {
    Rest,
    PlayErrorSound,
    PlaySuccessSound,
}

/// On/off level of a pump or valve output pin.
#[derive(Clone, Copy, PartialEq, Eq, Structural, Debug)]
pub enum IOState {
    On,
    Off,
}

/// Snapshot of the IO channel: buzzer state and trigger state.
#[derive(Clone, Copy, PartialEq, Eq, Structural, Debug)]
pub struct IOReport {
    pub buzzer: BuzzerState,
    pub tirette: TriggerState,
}

/// Snapshot or command for the pneumatic channel: two pumps, their
/// (reserved, always reported as zero) intensities, and six valves.
#[derive(Clone, Copy, PartialEq, Eq, Debug)]
pub struct PneumaticReport {
    pub pumps: [IOState; 2],
    pub pump_intensity: [u8; 2],
    pub valves: [IOState; 6],
}

/// The trigger state that a report built from a given raw pin level carries.
pub open spec fn spec_trigger_state(level_low: bool) -> TriggerState {
    if level_low {
        TriggerState::Waiting
    } else {
        TriggerState::Triggered
    }
}

/// Maps the raw trigger input level to the reported trigger state.
pub fn trigger_state_of_level(level_low: bool) -> (r: TriggerState)
    ensures
        r == spec_trigger_state(level_low),
{
    if level_low {
        TriggerState::Waiting
    } else {
        TriggerState::Triggered
    }
}

} // verus!
