use actuator_node::buzzer::{buzzer_step, AudioCue};
use actuator_node::codec::{encode_io, encode_pneumatic};
use actuator_node::node::{
    channel_info_port, channel_local_port, Node, ID_IO, ID_PNEUMATIC,
};
use actuator_node::state::{BuzzerState, IOReport, IOState, PneumaticReport, TriggerState};
use actuator_node::trigger::poll_edge;

#[test]
fn ports_are_base_plus_channel() {
    assert_eq!(channel_local_port(ID_IO), 5001);
    assert_eq!(channel_local_port(ID_PNEUMATIC), 5002);
    assert_eq!(channel_info_port(ID_IO), 5101);
    assert_eq!(channel_info_port(ID_PNEUMATIC), 5102);
}

#[test]
fn edge_reports_follow_level_changes() {
    // reports are due exactly where the level differs from the previous one
    let levels = [true, true, false, false, true];
    let expected_due = [true, false, true, false, true];
    let mut latch = false;
    for (level, want) in levels.iter().zip(expected_due.iter()) {
        let (new_latch, due) = poll_edge(*level, latch);
        assert_eq!(due, *want);
        assert_eq!(new_latch, *level);
        latch = new_latch;
    }
}

#[test]
fn repeated_buzzer_command_is_idempotent() {
    let commands = [BuzzerState::Rest, BuzzerState::PlayErrorSound, BuzzerState::PlaySuccessSound];
    let starts = [BuzzerState::Rest, BuzzerState::PlayErrorSound, BuzzerState::PlaySuccessSound];
    for cmd in commands {
        for start in starts {
            let (once, _) = buzzer_step(start, cmd);
            let (twice, cue2) = buzzer_step(once, cmd);
            assert_eq!(twice, once);
            assert_eq!(cue2, None);
        }
    }
}

#[test]
fn active_cue_not_interrupted() {
    let (next, cue) = buzzer_step(BuzzerState::PlayErrorSound, BuzzerState::PlaySuccessSound);
    assert_eq!(next, BuzzerState::PlayErrorSound);
    assert_eq!(cue, None);
    let (next, cue) = buzzer_step(BuzzerState::PlaySuccessSound, BuzzerState::Rest);
    assert_eq!(next, BuzzerState::Rest);
    assert_eq!(cue, None);
}

#[test]
fn trigger_edge_sends_one_triggered_report() {
    // the trigger goes low (waiting), is held, then released to triggered,
    // while the buzzer rests and the host is reachable
    let mut node = Node::new();
    let first = node.poll_trigger(true);
    assert!(first.is_some());
    node.report_sent(true);
    assert!(node.poll_trigger(true).is_none());
    assert!(node.poll_trigger(true).is_none());
    let report = node.poll_trigger(false).expect("edge must report");
    let expected = encode_io(&IOReport {
        buzzer: BuzzerState::Rest,
        tirette: TriggerState::Triggered,
    });
    assert_eq!(report, expected);
    node.report_sent(true);
    assert!(!node.feedback_fault);
    assert!(node.poll_trigger(false).is_none());
}

#[test]
fn io_command_starts_error_cue_and_replies() {
    let mut node = Node::new();
    let cmd = encode_io(&IOReport {
        buzzer: BuzzerState::PlayErrorSound,
        tirette: TriggerState::Waiting,
    });
    let (cue, reply) = node.handle_io_datagram(cmd.as_slice(), false);
    assert_eq!(node.buzzer, BuzzerState::PlayErrorSound);
    assert_eq!(cue, Some(AudioCue::ErrorCue));
    let expected = encode_io(&IOReport {
        buzzer: BuzzerState::PlayErrorSound,
        tirette: TriggerState::Triggered,
    });
    assert_eq!(reply, Some(expected));
    assert!(!node.comm_fault);
}

#[test]
fn pneumatic_command_drives_pins_and_echoes() {
    let mut node = Node::new();
    let valves = [IOState::On, IOState::Off, IOState::On, IOState::Off, IOState::On, IOState::Off];
    let pumps = [IOState::Off, IOState::On];
    let cmd = encode_pneumatic(&PneumaticReport {
        pumps,
        pump_intensity: [0, 0],
        valves,
    });
    let reply = node.handle_pneumatic_datagram(cmd.as_slice());
    assert_eq!(node.pumps, pumps);
    assert_eq!(&node.valves[..6], &valves[..]);
    assert_eq!(node.valves[6], IOState::Off);
    assert_eq!(node.valves[7], IOState::Off);
    let echoed = encode_pneumatic(&PneumaticReport {
        pumps,
        pump_intensity: [0, 0],
        valves,
    });
    assert_eq!(reply, Some(echoed));
    assert!(!node.comm_fault);
}

#[test]
fn empty_pneumatic_payload_leaves_state_and_sets_fault() {
    let mut node = Node::new();
    let before_pumps = node.pumps;
    let before_valves = node.valves;
    let reply = node.handle_pneumatic_datagram(&[]);
    assert_eq!(reply, None);
    assert_eq!(node.pumps, before_pumps);
    assert_eq!(node.valves, before_valves);
    assert!(node.comm_fault);
}

#[test]
fn malformed_io_payload_sets_fault_and_keeps_buzzer() {
    let mut node = Node::new();
    let (cue, reply) = node.handle_io_datagram(b"{\"buzzer\":", true);
    assert_eq!(cue, None);
    assert_eq!(reply, None);
    assert_eq!(node.buzzer, BuzzerState::Rest);
    assert!(node.comm_fault);
}

#[test]
fn failed_send_sets_feedback_indicator() {
    let mut node = Node::new();
    node.report_sent(false);
    assert!(node.feedback_fault);
    node.report_sent(true);
    assert!(!node.feedback_fault);
}
