use actuator_node::codec::{decode_io, decode_pneumatic, encode_io, encode_pneumatic};
use actuator_node::state::{BuzzerState, IOReport, IOState, PneumaticReport, TriggerState};

fn io(b: BuzzerState, t: TriggerState) -> IOReport {
    IOReport { buzzer: b, tirette: t }
}

fn pn(pumps: [IOState; 2], inten: [u8; 2], valves: [IOState; 6]) -> PneumaticReport {
    PneumaticReport { pumps, pump_intensity: inten, valves }
}

#[test]
fn io_encoding_exact_bytes() {
    let enc = encode_io(&io(BuzzerState::Rest, TriggerState::Waiting));
    assert_eq!(enc, b"{\"buzzer\":\"Rest\",\"tirette\":\"Waiting\"}".to_vec());
    let enc = encode_io(&io(BuzzerState::PlayErrorSound, TriggerState::Triggered));
    assert_eq!(
        enc,
        b"{\"buzzer\":\"PlayErrorSound\",\"tirette\":\"Triggered\"}".to_vec()
    );
}

#[test]
fn pneumatic_encoding_exact_bytes() {
    let rep = pn(
        [IOState::On, IOState::Off],
        [0, 0],
        [IOState::On, IOState::On, IOState::Off, IOState::On, IOState::Off, IOState::Off],
    );
    let enc = encode_pneumatic(&rep);
    let expected = b"{\"pumps\":[\"On\",\"Off\"],\"pump_intensity\":[0,0],\"valves\":[\"On\",\"On\",\"Off\",\"On\",\"Off\",\"Off\"]}";
    assert_eq!(enc, expected.to_vec());
}

#[test]
fn io_round_trip_all_records() {
    let buzzers = [BuzzerState::Rest, BuzzerState::PlayErrorSound, BuzzerState::PlaySuccessSound];
    let triggers = [TriggerState::Waiting, TriggerState::Triggered];
    for b in buzzers {
        for t in triggers {
            let rep = io(b, t);
            let enc = encode_io(&rep);
            assert!(enc.len() <= 2048);
            assert_eq!(decode_io(enc.as_slice()), Ok(rep));
        }
    }
}

#[test]
fn pneumatic_round_trip() {
    let reps = [
        pn(
            [IOState::Off, IOState::Off],
            [0, 0],
            [IOState::Off, IOState::Off, IOState::Off, IOState::Off, IOState::Off, IOState::Off],
        ),
        pn(
            [IOState::On, IOState::On],
            [255, 1],
            [IOState::On, IOState::On, IOState::On, IOState::On, IOState::On, IOState::On],
        ),
        pn(
            [IOState::Off, IOState::On],
            [10, 100],
            [IOState::On, IOState::Off, IOState::On, IOState::Off, IOState::On, IOState::Off],
        ),
    ];
    for rep in reps {
        let enc = encode_pneumatic(&rep);
        assert!(enc.len() <= 2048);
        assert_eq!(decode_pneumatic(enc.as_slice()), Ok(rep));
    }
}

#[test]
fn io_decode_rejects_empty() {
    assert!(decode_io(&[]).is_err());
}

#[test]
fn io_decode_rejects_truncated() {
    let enc = encode_io(&io(BuzzerState::Rest, TriggerState::Waiting));
    assert!(decode_io(&enc[..enc.len() - 1]).is_err());
    assert!(decode_io(&enc[..10]).is_err());
}

#[test]
fn io_decode_rejects_unknown_name() {
    assert!(decode_io(b"{\"buzzer\":\"Loud\",\"tirette\":\"Waiting\"}").is_err());
}

#[test]
fn io_decode_rejects_trailing_bytes() {
    let mut enc = encode_io(&io(BuzzerState::Rest, TriggerState::Waiting));
    enc.push(b' ');
    assert!(decode_io(enc.as_slice()).is_err());
}

#[test]
fn pneumatic_decode_rejects_empty() {
    assert!(decode_pneumatic(&[]).is_err());
}

#[test]
fn pneumatic_decode_rejects_truncated() {
    let rep = pn(
        [IOState::On, IOState::Off],
        [3, 7],
        [IOState::On, IOState::Off, IOState::On, IOState::Off, IOState::On, IOState::Off],
    );
    let enc = encode_pneumatic(&rep);
    for cut in [1usize, 12, 25, enc.len() - 1] {
        assert!(decode_pneumatic(&enc[..cut]).is_err());
    }
}

#[test]
fn pneumatic_decode_rejects_wrong_field_types() {
    // numbers where names belong
    assert!(decode_pneumatic(
        b"{\"pumps\":[\"1\",\"0\"],\"pump_intensity\":[0,0],\"valves\":[\"On\",\"On\",\"On\",\"On\",\"On\",\"On\"]}"
    )
    .is_err());
    // names where numbers belong
    assert!(decode_pneumatic(
        b"{\"pumps\":[\"On\",\"Off\"],\"pump_intensity\":[\"On\",0],\"valves\":[\"On\",\"On\",\"On\",\"On\",\"On\",\"On\"]}"
    )
    .is_err());
}

#[test]
fn pneumatic_decode_rejects_bad_numbers() {
    // leading zero
    assert!(decode_pneumatic(
        b"{\"pumps\":[\"On\",\"Off\"],\"pump_intensity\":[00,0],\"valves\":[\"On\",\"On\",\"On\",\"On\",\"On\",\"On\"]}"
    )
    .is_err());
    // too large for one byte
    assert!(decode_pneumatic(
        b"{\"pumps\":[\"On\",\"Off\"],\"pump_intensity\":[256,0],\"valves\":[\"On\",\"On\",\"On\",\"On\",\"On\",\"On\"]}"
    )
    .is_err());
    // boundary value still fine
    assert!(decode_pneumatic(
        b"{\"pumps\":[\"On\",\"Off\"],\"pump_intensity\":[255,0],\"valves\":[\"On\",\"On\",\"On\",\"On\",\"On\",\"On\"]}"
    )
    .is_ok());
}
