use crate::buzzer::{buzzer_step, spec_buzzer_cue, spec_buzzer_next, AudioCue};
use crate::codec::{
    decode_io, decode_pneumatic, encode_io, encode_pneumatic, spec_io_encoding,
    spec_pneumatic_encoding,
};
use crate::state::{
    spec_trigger_state, trigger_state_of_level, BuzzerState, IOReport, IOState, PneumaticReport,
};
use crate::trigger::{poll_edge, spec_edge_report_due};
use vstd::prelude::*;

verus! {

/// Channel number of the IO channel (trigger and buzzer).
pub const ID_IO: u16 = 1;

/// Channel number of the pneumatic channel (pumps and valves).
pub const ID_PNEUMATIC: u16 = 2;

/// Base of the local ports the node listens on; a channel adds its number.
pub const BASE_ELEC_PORT: u16 = 5000;

/// Base of the host ports that reports go to; a channel adds its number.
pub const BASE_INFO_PORT: u16 = 5100;

/// Capacity of the report buffer; an encoding never exceeds it.
pub const MAX_FRAME_BYTES: usize = 2048;

/// The local port a channel is bound to.
pub fn channel_local_port(channel_id: u16) -> (r: u16)
    requires
        channel_id == ID_IO || channel_id == ID_PNEUMATIC,
    ensures
        r == BASE_ELEC_PORT + channel_id,
{
    BASE_ELEC_PORT + channel_id
}

/// The host port that reports on a channel are sent to.
pub fn channel_info_port(channel_id: u16) -> (r: u16)
    requires
        channel_id == ID_IO || channel_id == ID_PNEUMATIC,
    ensures
        r == BASE_INFO_PORT + channel_id,
{
    BASE_INFO_PORT + channel_id
}

/// The device state model: the canonical in-memory state of the node. The
/// control loop mutates it through the handlers below and the surrounding
/// runtime mirrors the pump, valve and indicator fields onto the physical
/// pins after each call.
pub struct Node {
    /// Last commanded buzzer state.
    pub buzzer: BuzzerState,
    /// Trigger level latched at the previous poll (true = electrically low).
    pub tirette_low_latched: bool,
    /// Pump output levels.
    pub pumps: [IOState; 2],
    /// Valve output levels; commands drive the first six, the last two keep
    /// their state.
    pub valves: [IOState; 8],
    /// Feedback indicator: set when the last report could not be delivered.
    pub feedback_fault: bool,
    /// Communication indicator: set when the last inbound payload was
    /// malformed.
    pub comm_fault: bool,
}

impl Node {
    /// The node as it starts: buzzer at rest, nothing latched, all outputs
    /// off, both indicators clear.
    pub fn new() -> (n: Node)
        ensures
            n.buzzer == BuzzerState::Rest,
            !n.tirette_low_latched,
            forall|i: int| 0 <= i < 2 ==> n.pumps@[i] == IOState::Off,
            forall|i: int| 0 <= i < 8 ==> n.valves@[i] == IOState::Off,
            !n.feedback_fault,
            !n.comm_fault,
    {
        Node {
            buzzer: BuzzerState::Rest,
            tirette_low_latched: false,
            pumps: [IOState::Off, IOState::Off],
            valves: [
                IOState::Off,
                IOState::Off,
                IOState::Off,
                IOState::Off,
                IOState::Off,
                IOState::Off,
                IOState::Off,
                IOState::Off,
            ],
            feedback_fault: false,
            comm_fault: false,
        }
    }

    /// One poll of the trigger input. Exactly when the raw level differs
    /// from the latched one, an encoded IO report for the fixed host is
    /// returned; the latch follows the level, so a held level never
    /// produces a second report.
    pub fn poll_trigger(&mut self, level_low: bool) -> (r: Option<Vec<u8>>)
        ensures
            final(self).tirette_low_latched == level_low,
            final(self).buzzer == old(self).buzzer,
            final(self).pumps == old(self).pumps,
            final(self).valves == old(self).valves,
            final(self).feedback_fault == old(self).feedback_fault,
            final(self).comm_fault == old(self).comm_fault,
            r is Some <==> spec_edge_report_due(level_low, old(self).tirette_low_latched),
            r matches Some(b) ==> b@ == spec_io_encoding(
                IOReport {
                    buzzer: old(self).buzzer,
                    tirette: spec_trigger_state(level_low),
                },
            ),
    {
        let (latched, due) = poll_edge(level_low, self.tirette_low_latched);
        self.tirette_low_latched = latched;
        if due {
            let report = IOReport {
                buzzer: self.buzzer,
                tirette: trigger_state_of_level(level_low),
            };
            Some(encode_io(&report))
        } else {
            None
        }
    }

    /// Processes one inbound IO datagram: decode the buzzer command, apply
    /// the transition table, and build the reply report. On a malformed
    /// payload the communication indicator is set and nothing else changes;
    /// on a well-formed one it is cleared, the buzzer steps, and the reply
    /// echoes the new buzzer state with the current trigger level.
    pub fn handle_io_datagram(&mut self, payload: &[u8], level_low: bool) -> (r: (
        Option<AudioCue>,
        Option<Vec<u8>>,
    ))
        ensures
            final(self).tirette_low_latched == old(self).tirette_low_latched,
            final(self).pumps == old(self).pumps,
            final(self).valves == old(self).valves,
            final(self).feedback_fault == old(self).feedback_fault,
            forall|cmd: IOReport| payload@ == spec_io_encoding(cmd) ==> {
                &&& final(self).buzzer == spec_buzzer_next(old(self).buzzer, cmd.buzzer)
                &&& !final(self).comm_fault
                &&& r.0 == spec_buzzer_cue(old(self).buzzer, cmd.buzzer)
                &&& r.1 matches Some(b) && b@ == spec_io_encoding(
                    IOReport {
                        buzzer: spec_buzzer_next(old(self).buzzer, cmd.buzzer),
                        tirette: spec_trigger_state(level_low),
                    },
                )
            },
            (forall|cmd: IOReport| payload@ != spec_io_encoding(cmd)) ==> {
                &&& final(self).buzzer == old(self).buzzer
                &&& final(self).comm_fault
                &&& r.0 is None
                &&& r.1 is None
            },
    {
        match decode_io(payload) {
            Ok(cmd) => {
                self.comm_fault = false;
                let (next, cue) = buzzer_step(self.buzzer, cmd.buzzer);
                self.buzzer = next;
                let report = IOReport {
                    buzzer: next,
                    tirette: trigger_state_of_level(level_low),
                };
                (cue, Some(encode_io(&report)))
            },
            Err(_) => {
                self.comm_fault = true;
                (None, None)
            },
        }
    }

    /// Processes one inbound pneumatic datagram: decode the command and
    /// apply it directly — each of the two pumps and the first six valves
    /// follows the commanded level; intensities are reserved and ignored.
    /// The reply echoes the applied levels with zero intensities. On a
    /// malformed payload the communication indicator is set and nothing
    /// else changes.
    pub fn handle_pneumatic_datagram(&mut self, payload: &[u8]) -> (r: Option<Vec<u8>>)
        ensures
            final(self).tirette_low_latched == old(self).tirette_low_latched,
            final(self).buzzer == old(self).buzzer,
            final(self).feedback_fault == old(self).feedback_fault,
            final(self).valves@[6] == old(self).valves@[6],
            final(self).valves@[7] == old(self).valves@[7],
            forall|cmd: PneumaticReport| payload@ == spec_pneumatic_encoding(cmd) ==> {
                &&& final(self).pumps == cmd.pumps
                &&& forall|i: int| 0 <= i < 6 ==> final(self).valves@[i] == cmd.valves@[i]
                &&& !final(self).comm_fault
                &&& r matches Some(b) && b@ == spec_pneumatic_encoding(
                    PneumaticReport {
                        pumps: cmd.pumps,
                        pump_intensity: [0u8, 0u8],
                        valves: cmd.valves,
                    },
                )
            },
            (forall|cmd: PneumaticReport| payload@ != spec_pneumatic_encoding(cmd)) ==> {
                &&& final(self).pumps == old(self).pumps
                &&& final(self).valves == old(self).valves
                &&& final(self).comm_fault
                &&& r is None
            },
    {
        match decode_pneumatic(payload) {
            Ok(cmd) => {
                self.comm_fault = false;
                self.pumps = [cmd.pumps[0], cmd.pumps[1]];
                self.valves = [
                    cmd.valves[0],
                    cmd.valves[1],
                    cmd.valves[2],
                    cmd.valves[3],
                    cmd.valves[4],
                    cmd.valves[5],
                    self.valves[6],
                    self.valves[7],
                ];
                let echo = PneumaticReport {
                    pumps: [cmd.pumps[0], cmd.pumps[1]],
                    pump_intensity: [0, 0],
                    valves: cmd.valves,
                };
                proof {
                    assert(self.pumps =~= cmd.pumps);
                    assert(echo.pumps =~= cmd.pumps);
                }
                Some(encode_pneumatic(&echo))
            },
            Err(_) => {
                self.comm_fault = true;
                None
            },
        }
    }

    /// Records the outcome of sending a report: the feedback indicator is
    /// clear after a delivered report and set after a failed one. Nothing
    /// else changes.
    pub fn report_sent(&mut self, delivered: bool)
        ensures
            final(self).feedback_fault == !delivered,
            final(self).buzzer == old(self).buzzer,
            final(self).tirette_low_latched == old(self).tirette_low_latched,
            final(self).pumps == old(self).pumps,
            final(self).valves == old(self).valves,
            final(self).comm_fault == old(self).comm_fault,
    {
        self.feedback_fault = !delivered;
    }
}

} // verus!
