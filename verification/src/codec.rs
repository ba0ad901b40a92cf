use crate::state::{BuzzerState, IOReport, IOState, PneumaticReport, TriggerState};
use vstd::prelude::*;
use vstd::seq_lib::lemma_concat_associative;

verus! {

// The two records exchanged with the host are length-bounded JSON-like text,
// written and read here in one canonical form: fields in a fixed order, no
// whitespace, enum values as quoted names, intensities as decimal numbers
// without leading zeros.

/// Bytes of the text `{"buzzer":"`.
pub open spec fn lit_io_head() -> Seq<u8> {
    seq![123u8, 34, 98, 117, 122, 122, 101, 114, 34, 58, 34]
}

/// Builds the bytes of the text `{"buzzer":"`.
pub fn lit_io_head_vec() -> (v: Vec<u8>)
    ensures
        v@ == lit_io_head(),
{
    let mut v: Vec<u8> = Vec::new();
    v.push(123);
    v.push(34);
    v.push(98);
    v.push(117);
    v.push(122);
    v.push(122);
    v.push(101);
    v.push(114);
    v.push(34);
    v.push(58);
    v.push(34);
    proof {
        assert(v@ =~= lit_io_head());
    }
    v
}

/// Bytes of the text `","tirette":"`.
pub open spec fn lit_io_mid() -> Seq<u8> {
    seq![34u8, 44, 34, 116, 105, 114, 101, 116, 116, 101, 34, 58, 34]
}

/// Builds the bytes of the text `","tirette":"`.
pub fn lit_io_mid_vec() -> (v: Vec<u8>)
    ensures
        v@ == lit_io_mid(),
{
    let mut v: Vec<u8> = Vec::new();
    v.push(34);
    v.push(44);
    v.push(34);
    v.push(116);
    v.push(105);
    v.push(114);
    v.push(101);
    v.push(116);
    v.push(116);
    v.push(101);
    v.push(34);
    v.push(58);
    v.push(34);
    proof {
        assert(v@ =~= lit_io_mid());
    }
    v
}

/// Bytes of the text `"}`.
pub open spec fn lit_io_tail() -> Seq<u8> {
    seq![34u8, 125]
}

/// Builds the bytes of the text `"}`.
pub fn lit_io_tail_vec() -> (v: Vec<u8>)
    ensures
        v@ == lit_io_tail(),
{
    let mut v: Vec<u8> = Vec::new();
    v.push(34);
    v.push(125);
    proof {
        assert(v@ =~= lit_io_tail());
    }
    v
}

/// Bytes of the text `{"pumps":["`.
pub open spec fn lit_pn_head() -> Seq<u8> {
    seq![123u8, 34, 112, 117, 109, 112, 115, 34, 58, 91, 34]
}

/// Builds the bytes of the text `{"pumps":["`.
pub fn lit_pn_head_vec() -> (v: Vec<u8>)
    ensures
        v@ == lit_pn_head(),
{
    let mut v: Vec<u8> = Vec::new();
    v.push(123);
    v.push(34);
    v.push(112);
    v.push(117);
    v.push(109);
    v.push(112);
    v.push(115);
    v.push(34);
    v.push(58);
    v.push(91);
    v.push(34);
    proof {
        assert(v@ =~= lit_pn_head());
    }
    v
}

/// Bytes of the text `","`.
pub open spec fn lit_quote_comma_quote() -> Seq<u8> {
    seq![34u8, 44, 34]
}

/// Builds the bytes of the text `","`.
pub fn lit_quote_comma_quote_vec() -> (v: Vec<u8>)
    ensures
        v@ == lit_quote_comma_quote(),
{
    let mut v: Vec<u8> = Vec::new();
    v.push(34);
    v.push(44);
    v.push(34);
    proof {
        assert(v@ =~= lit_quote_comma_quote());
    }
    v
}

/// Bytes of the text `"],"pump_intensity":[`.
pub open spec fn lit_pn_intensity() -> Seq<u8> {
    seq![34u8, 93, 44, 34, 112, 117, 109, 112, 95, 105, 110, 116, 101, 110, 115, 105, 116, 121, 34, 58, 91]
}

/// Builds the bytes of the text `"],"pump_intensity":[`.
pub fn lit_pn_intensity_vec() -> (v: Vec<u8>)
    ensures
        v@ == lit_pn_intensity(),
{
    let mut v: Vec<u8> = Vec::new();
    v.push(34);
    v.push(93);
    v.push(44);
    v.push(34);
    v.push(112);
    v.push(117);
    v.push(109);
    v.push(112);
    v.push(95);
    v.push(105);
    v.push(110);
    v.push(116);
    v.push(101);
    v.push(110);
    v.push(115);
    v.push(105);
    v.push(116);
    v.push(121);
    v.push(34);
    v.push(58);
    v.push(91);
    proof {
        assert(v@ =~= lit_pn_intensity());
    }
    v
}

/// Bytes of the text `,`.
pub open spec fn lit_comma() -> Seq<u8> {
    seq![44u8]
}

/// Builds the bytes of the text `,`.
pub fn lit_comma_vec() -> (v: Vec<u8>)
    ensures
        v@ == lit_comma(),
{
    let mut v: Vec<u8> = Vec::new();
    v.push(44);
    proof {
        assert(v@ =~= lit_comma());
    }
    v
}

/// Bytes of the text `],"valves":["`.
pub open spec fn lit_pn_valves() -> Seq<u8> {
    seq![93u8, 44, 34, 118, 97, 108, 118, 101, 115, 34, 58, 91, 34]
}

/// Builds the bytes of the text `],"valves":["`.
pub fn lit_pn_valves_vec() -> (v: Vec<u8>)
    ensures
        v@ == lit_pn_valves(),
{
    let mut v: Vec<u8> = Vec::new();
    v.push(93);
    v.push(44);
    v.push(34);
    v.push(118);
    v.push(97);
    v.push(108);
    v.push(118);
    v.push(101);
    v.push(115);
    v.push(34);
    v.push(58);
    v.push(91);
    v.push(34);
    proof {
        assert(v@ =~= lit_pn_valves());
    }
    v
}

/// Bytes of the text `"]}`.
pub open spec fn lit_pn_tail() -> Seq<u8> {
    seq![34u8, 93, 125]
}

/// Builds the bytes of the text `"]}`.
pub fn lit_pn_tail_vec() -> (v: Vec<u8>)
    ensures
        v@ == lit_pn_tail(),
{
    let mut v: Vec<u8> = Vec::new();
    v.push(34);
    v.push(93);
    v.push(125);
    proof {
        assert(v@ =~= lit_pn_tail());
    }
    v
}

/// Bytes of the text `Rest`.
pub open spec fn lit_name_rest() -> Seq<u8> {
    seq![82u8, 101, 115, 116]
}

/// Builds the bytes of the text `Rest`.
pub fn lit_name_rest_vec() -> (v: Vec<u8>)
    ensures
        v@ == lit_name_rest(),
{
    let mut v: Vec<u8> = Vec::new();
    v.push(82);
    v.push(101);
    v.push(115);
    v.push(116);
    proof {
        assert(v@ =~= lit_name_rest());
    }
    v
}

/// Bytes of the text `PlayErrorSound`.
pub open spec fn lit_name_play_error() -> Seq<u8> {
    seq![80u8, 108, 97, 121, 69, 114, 114, 111, 114, 83, 111, 117, 110, 100]
}

/// Builds the bytes of the text `PlayErrorSound`.
pub fn lit_name_play_error_vec() -> (v: Vec<u8>)
    ensures
        v@ == lit_name_play_error(),
{
    let mut v: Vec<u8> = Vec::new();
    v.push(80);
    v.push(108);
    v.push(97);
    v.push(121);
    v.push(69);
    v.push(114);
    v.push(114);
    v.push(111);
    v.push(114);
    v.push(83);
    v.push(111);
    v.push(117);
    v.push(110);
    v.push(100);
    proof {
        assert(v@ =~= lit_name_play_error());
    }
    v
}

/// Bytes of the text `PlaySuccessSound`.
pub open spec fn lit_name_play_success() -> Seq<u8> {
    seq![80u8, 108, 97, 121, 83, 117, 99, 99, 101, 115, 115, 83, 111, 117, 110, 100]
}

/// Builds the bytes of the text `PlaySuccessSound`.
pub fn lit_name_play_success_vec() -> (v: Vec<u8>)
    ensures
        v@ == lit_name_play_success(),
{
    let mut v: Vec<u8> = Vec::new();
    v.push(80);
    v.push(108);
    v.push(97);
    v.push(121);
    v.push(83);
    v.push(117);
    v.push(99);
    v.push(99);
    v.push(101);
    v.push(115);
    v.push(115);
    v.push(83);
    v.push(111);
    v.push(117);
    v.push(110);
    v.push(100);
    proof {
        assert(v@ =~= lit_name_play_success());
    }
    v
}

/// Bytes of the text `Waiting`.
pub open spec fn lit_name_waiting() -> Seq<u8> {
    seq![87u8, 97, 105, 116, 105, 110, 103]
}

/// Builds the bytes of the text `Waiting`.
pub fn lit_name_waiting_vec() -> (v: Vec<u8>)
    ensures
        v@ == lit_name_waiting(),
{
    let mut v: Vec<u8> = Vec::new();
    v.push(87);
    v.push(97);
    v.push(105);
    v.push(116);
    v.push(105);
    v.push(110);
    v.push(103);
    proof {
        assert(v@ =~= lit_name_waiting());
    }
    v
}

/// Bytes of the text `Triggered`.
pub open spec fn lit_name_triggered() -> Seq<u8> {
    seq![84u8, 114, 105, 103, 103, 101, 114, 101, 100]
}

/// Builds the bytes of the text `Triggered`.
pub fn lit_name_triggered_vec() -> (v: Vec<u8>)
    ensures
        v@ == lit_name_triggered(),
{
    let mut v: Vec<u8> = Vec::new();
    v.push(84);
    v.push(114);
    v.push(105);
    v.push(103);
    v.push(103);
    v.push(101);
    v.push(114);
    v.push(101);
    v.push(100);
    proof {
        assert(v@ =~= lit_name_triggered());
    }
    v
}

/// Bytes of the text `On`.
pub open spec fn lit_name_on() -> Seq<u8> {
    seq![79u8, 110]
}

/// Builds the bytes of the text `On`.
pub fn lit_name_on_vec() -> (v: Vec<u8>)
    ensures
        v@ == lit_name_on(),
{
    let mut v: Vec<u8> = Vec::new();
    v.push(79);
    v.push(110);
    proof {
        assert(v@ =~= lit_name_on());
    }
    v
}

/// Bytes of the text `Off`.
pub open spec fn lit_name_off() -> Seq<u8> {
    seq![79u8, 102, 102]
}

/// Builds the bytes of the text `Off`.
pub fn lit_name_off_vec() -> (v: Vec<u8>)
    ensures
        v@ == lit_name_off(),
{
    let mut v: Vec<u8> = Vec::new();
    v.push(79);
    v.push(102);
    v.push(102);
    proof {
        assert(v@ =~= lit_name_off());
    }
    v
}

/// The text name of a buzzer state inside a record.
pub open spec fn spec_buzzer_name(b: BuzzerState) -> Seq<u8> {
    match b {
        BuzzerState::Rest => lit_name_rest(),
        BuzzerState::PlayErrorSound => lit_name_play_error(),
        BuzzerState::PlaySuccessSound => lit_name_play_success(),
    }
}

/// The text name of a trigger state inside a record.
pub open spec fn spec_trigger_name(t: TriggerState) -> Seq<u8> {
    match t {
        TriggerState::Waiting => lit_name_waiting(),
        TriggerState::Triggered => lit_name_triggered(),
    }
}

/// The text name of a pump or valve level inside a record.
pub open spec fn spec_switch_name(v: IOState) -> Seq<u8> {
    match v {
        IOState::On => lit_name_on(),
        IOState::Off => lit_name_off(),
    }
}

/// Decimal text of a byte value, without leading zeros.
pub open spec fn spec_dec_u8(n: u8) -> Seq<u8> {
    if n < 10 {
        seq![(48 + n) as u8]
    } else if n < 100 {
        seq![(48 + n / 10) as u8, (48 + n % 10) as u8]
    } else {
        seq![(48 + n / 100) as u8, (48 + (n / 10) % 10) as u8, (48 + n % 10) as u8]
    }
}

/// The full encoded IO record: `{"buzzer":"<b>","tirette":"<t>"}`.
pub open spec fn spec_io_encoding(r: IOReport) -> Seq<u8> {
    lit_io_head() + spec_buzzer_name(r.buzzer) + lit_io_mid() + spec_trigger_name(r.tirette)
        + lit_io_tail()
}

/// The full encoded pneumatic record:
/// `{"pumps":["<p0>","<p1>"],"pump_intensity":[<i0>,<i1>],"valves":["<v0>",...,"<v5>"]}`.
pub open spec fn spec_pneumatic_encoding(r: PneumaticReport) -> Seq<u8> {
    lit_pn_head() + spec_switch_name(r.pumps@[0]) + lit_quote_comma_quote() + spec_switch_name(
        r.pumps@[1],
    ) + lit_pn_intensity() + spec_dec_u8(r.pump_intensity@[0]) + lit_comma() + spec_dec_u8(
        r.pump_intensity@[1],
    ) + lit_pn_valves() + spec_switch_name(r.valves@[0]) + lit_quote_comma_quote()
        + spec_switch_name(r.valves@[1]) + lit_quote_comma_quote() + spec_switch_name(r.valves@[2])
        + lit_quote_comma_quote() + spec_switch_name(r.valves@[3]) + lit_quote_comma_quote()
        + spec_switch_name(r.valves@[4]) + lit_quote_comma_quote() + spec_switch_name(r.valves@[5])
        + lit_pn_tail()
}

/// Appends the text name of a buzzer state.
fn push_buzzer_name(out: &mut Vec<u8>, b: BuzzerState)
    ensures
        final(out)@ == old(out)@ + spec_buzzer_name(b),
{
    let mut name = match b {
        BuzzerState::Rest => lit_name_rest_vec(),
        BuzzerState::PlayErrorSound => lit_name_play_error_vec(),
        BuzzerState::PlaySuccessSound => lit_name_play_success_vec(),
    };
    out.append(&mut name);
}

/// Appends the text name of a trigger state.
fn push_trigger_name(out: &mut Vec<u8>, t: TriggerState)
    ensures
        final(out)@ == old(out)@ + spec_trigger_name(t),
{
    let mut name = match t {
        TriggerState::Waiting => lit_name_waiting_vec(),
        TriggerState::Triggered => lit_name_triggered_vec(),
    };
    out.append(&mut name);
}

/// Appends the text name of a pump or valve level.
fn push_switch_name(out: &mut Vec<u8>, v: IOState)
    ensures
        final(out)@ == old(out)@ + spec_switch_name(v),
{
    let mut name = match v {
        IOState::On => lit_name_on_vec(),
        IOState::Off => lit_name_off_vec(),
    };
    out.append(&mut name);
}

/// Appends the decimal text of a byte value.
fn push_dec_u8(out: &mut Vec<u8>, n: u8)
    ensures
        final(out)@ == old(out)@ + spec_dec_u8(n),
{
    if n < 10 {
        out.push(48 + n);
        proof {
            assert(out@ =~= old(out)@ + spec_dec_u8(n));
        }
    } else if n < 100 {
        out.push(48 + n / 10);
        out.push(48 + n % 10);
        proof {
            assert(out@ =~= old(out)@ + spec_dec_u8(n));
        }
    } else {
        out.push(48 + n / 100);
        out.push(48 + (n / 10) % 10);
        out.push(48 + n % 10);
        proof {
            assert(out@ =~= old(out)@ + spec_dec_u8(n));
        }
    }
}

/// Encodes an IO record in its canonical text form. The encoding always
/// fits the bounded report buffer.
pub fn encode_io(r: &IOReport) -> (v: Vec<u8>)
    ensures
        v@ == spec_io_encoding(*r),
        v@.len() <= 2048,
{
    let mut v = lit_io_head_vec();
    push_buzzer_name(&mut v, r.buzzer);
    let mut mid = lit_io_mid_vec();
    v.append(&mut mid);
    push_trigger_name(&mut v, r.tirette);
    let mut tail = lit_io_tail_vec();
    v.append(&mut tail);
    proof {
        assert(v@ =~= spec_io_encoding(*r));
    }
    v
}

/// Encodes a pneumatic record in its canonical text form. The encoding
/// always fits the bounded report buffer.
pub fn encode_pneumatic(r: &PneumaticReport) -> (v: Vec<u8>)
    ensures
        v@ == spec_pneumatic_encoding(*r),
        v@.len() <= 2048,
{
    let mut v = lit_pn_head_vec();
    push_switch_name(&mut v, r.pumps[0]);
    let mut s1 = lit_quote_comma_quote_vec();
    v.append(&mut s1);
    push_switch_name(&mut v, r.pumps[1]);
    let mut s2 = lit_pn_intensity_vec();
    v.append(&mut s2);
    push_dec_u8(&mut v, r.pump_intensity[0]);
    let mut s3 = lit_comma_vec();
    v.append(&mut s3);
    push_dec_u8(&mut v, r.pump_intensity[1]);
    let mut s4 = lit_pn_valves_vec();
    v.append(&mut s4);
    push_switch_name(&mut v, r.valves[0]);
    let mut s5 = lit_quote_comma_quote_vec();
    v.append(&mut s5);
    push_switch_name(&mut v, r.valves[1]);
    let mut s6 = lit_quote_comma_quote_vec();
    v.append(&mut s6);
    push_switch_name(&mut v, r.valves[2]);
    let mut s7 = lit_quote_comma_quote_vec();
    v.append(&mut s7);
    push_switch_name(&mut v, r.valves[3]);
    let mut s8 = lit_quote_comma_quote_vec();
    v.append(&mut s8);
    push_switch_name(&mut v, r.valves[4]);
    let mut s9 = lit_quote_comma_quote_vec();
    v.append(&mut s9);
    push_switch_name(&mut v, r.valves[5]);
    let mut tail = lit_pn_tail_vec();
    v.append(&mut tail);
    proof {
        assert(v@ =~= spec_pneumatic_encoding(*r));
    }
    v
}

/// Error returned when an inbound payload is not a well-formed record.
#[derive(Clone, Copy, PartialEq, Eq, Structural, Debug)]
pub enum DecodeError {
    Malformed,
}

/// Compares two byte slices for equality.
fn bytes_eq(a: &[u8], b: &[u8]) -> (r: bool)
    ensures
        r <==> a@ == b@,
{
    if a.len() != b.len() {
        return false;
    }
    let mut i: usize = 0;
    while i < a.len()
        invariant
            i <= a@.len(),
            a@.len() == b@.len(),
            forall|j: int| 0 <= j < i ==> a@[j] == b@[j],
        decreases a@.len() - i,
    {
        if a[i] != b[i] {
            return false;
        }
        i += 1;
    }
    proof {
        assert(a@ =~= b@);
    }
    true
}

/// Where each part of an IO encoding lies: the buzzer name starts at
/// byte 11, the trigger name 13 bytes after the buzzer name ends.
proof fn lemma_io_encoding_bytes(r: IOReport)
    ensures
        spec_io_encoding(r).len() == 26 + spec_buzzer_name(r.buzzer).len() + spec_trigger_name(
            r.tirette,
        ).len(),
        forall|i: int|
            0 <= i < spec_buzzer_name(r.buzzer).len() ==> spec_io_encoding(r)[11 + i]
                == spec_buzzer_name(r.buzzer)[i],
        forall|i: int|
            0 <= i < spec_trigger_name(r.tirette).len() ==> spec_io_encoding(r)[24
                + spec_buzzer_name(r.buzzer).len() + i] == spec_trigger_name(r.tirette)[i],
        4 <= spec_buzzer_name(r.buzzer).len() <= 16,
        7 <= spec_trigger_name(r.tirette).len() <= 9,
{
    let b = spec_buzzer_name(r.buzzer);
    let t = spec_trigger_name(r.tirette);
    let ab = lit_io_head() + b;
    let abc = ab + lit_io_mid();
    let abct = abc + t;
    assert(spec_io_encoding(r) == abct + lit_io_tail());
    assert forall|i: int| 0 <= i < b.len() implies spec_io_encoding(r)[11 + i] == b[i] by {
        assert((abct + lit_io_tail())[11 + i] == abct[11 + i]);
        assert(abct[11 + i] == abc[11 + i]);
        assert(abc[11 + i] == ab[11 + i]);
        assert(ab[11 + i] == b[i]);
    }
    assert forall|i: int| 0 <= i < t.len() implies spec_io_encoding(r)[24 + b.len() + i]
        == t[i] by {
        assert((abct + lit_io_tail())[24 + b.len() + i] == abct[24 + b.len() + i]);
        assert(abct[24 + b.len() + i] == t[i]);
    }
}

/// Two distinct IO records never share an encoding.
pub proof fn lemma_io_encoding_injective(r1: IOReport, r2: IOReport)
    requires
        spec_io_encoding(r1) == spec_io_encoding(r2),
    ensures
        r1 == r2,
{
    let e1 = spec_io_encoding(r1);
    let e2 = spec_io_encoding(r2);
    lemma_io_encoding_bytes(r1);
    lemma_io_encoding_bytes(r2);
    // A differing buzzer shows at byte 11 (`R` against `P`) or byte 15
    // (`E` against `S`); with equal buzzers, a differing trigger shows at
    // the first byte of its name (`W` against `T`).
    if r1.buzzer != r2.buzzer {
        assert(e1[11] == spec_buzzer_name(r1.buzzer)[0]);
        assert(e2[11] == spec_buzzer_name(r2.buzzer)[0]);
        assert(e1[15] == spec_buzzer_name(r1.buzzer)[4] || spec_buzzer_name(r1.buzzer).len() == 4);
        assert(e2[15] == spec_buzzer_name(r2.buzzer)[4] || spec_buzzer_name(r2.buzzer).len() == 4);
        assert(false);
    }
    if r1.tirette != r2.tirette {
        let off = 24 + spec_buzzer_name(r1.buzzer).len();
        assert(e1[off as int] == spec_trigger_name(r1.tirette)[0]);
        assert(e2[off as int] == spec_trigger_name(r2.tirette)[0]);
        assert(false);
    }
}

/// Decodes an inbound IO payload. Succeeds exactly on the canonical
/// encoding of some IO record, and then returns that record.
pub fn decode_io(s: &[u8]) -> (r: Result<IOReport, DecodeError>)
    ensures
        r is Ok ==> s@ == spec_io_encoding(r->Ok_0),
        forall|rep: IOReport| s@ == spec_io_encoding(rep) ==> r == Ok::<
            IOReport,
            DecodeError,
        >(rep),
{
    let buzzers = [BuzzerState::Rest, BuzzerState::PlayErrorSound, BuzzerState::PlaySuccessSound];
    let tirettes = [TriggerState::Waiting, TriggerState::Triggered];
    let mut bi: usize = 0;
    while bi < 3
        invariant
            bi <= 3,
            buzzers@ == seq![
                BuzzerState::Rest,
                BuzzerState::PlayErrorSound,
                BuzzerState::PlaySuccessSound,
            ],
            tirettes@ == seq![TriggerState::Waiting, TriggerState::Triggered],
            forall|rep: IOReport| #[trigger] spec_io_encoding(rep) == s@ ==> exists|k: int|
                bi <= k < 3 && rep.buzzer == buzzers@[k],
        decreases 3 - bi,
    {
        let mut ti: usize = 0;
        while ti < 2
            invariant
                bi < 3,
                ti <= 2,
                buzzers@ == seq![
                    BuzzerState::Rest,
                    BuzzerState::PlayErrorSound,
                    BuzzerState::PlaySuccessSound,
                ],
                tirettes@ == seq![TriggerState::Waiting, TriggerState::Triggered],
                forall|rep: IOReport| #[trigger] spec_io_encoding(rep) == s@ ==> exists|k: int|
                    bi <= k < 3 && rep.buzzer == buzzers@[k],
                forall|rep: IOReport|
                    (#[trigger] spec_io_encoding(rep) == s@ && rep.buzzer == buzzers@[bi as int])
                        ==> exists|k: int| ti <= k < 2 && rep.tirette == tirettes@[k],
            decreases 2 - ti,
        {
            let cand = IOReport { buzzer: buzzers[bi], tirette: tirettes[ti] };
            let enc = encode_io(&cand);
            if bytes_eq(s, enc.as_slice()) {
                proof {
                    assert forall|rep: IOReport| s@ == spec_io_encoding(rep) implies rep
                        == cand by {
                        lemma_io_encoding_injective(rep, cand);
                    }
                }
                return Ok(cand);
            }
            ti += 1;
        }
        bi += 1;
    }
    Err(DecodeError::Malformed)
}

/// True when the bytes `t` occur in `s` at offset `i`.
pub open spec fn spec_match_at(s: Seq<u8>, i: int, t: Seq<u8>) -> bool {
    0 <= i && i + t.len() <= s.len() && s.subrange(i, i + t.len()) == t
}

/// A match reads back byte for byte.
proof fn lemma_match_at_byte(s: Seq<u8>, i: int, t: Seq<u8>, k: int)
    requires
        spec_match_at(s, i, t),
        0 <= k < t.len(),
    ensures
        s[i + k] == t[k],
{
    assert(s.subrange(i, i + t.len())[k] == s[i + k]);
}

/// A sequence matches at the end of anything it is appended to.
proof fn lemma_match_at_end(a: Seq<u8>, t: Seq<u8>)
    ensures
        spec_match_at(a + t, a.len() as int, t),
{
    assert((a + t).subrange(a.len() as int, (a.len() + t.len()) as int) =~= t);
}

/// A match inside a prefix still matches after appending.
proof fn lemma_match_at_prefix(a: Seq<u8>, b: Seq<u8>, i: int, t: Seq<u8>)
    requires
        spec_match_at(a, i, t),
    ensures
        spec_match_at(a + b, i, t),
{
    assert((a + b).subrange(i, i + t.len()) =~= a.subrange(i, i + t.len()));
}

/// Appending to a sequence keeps every match inside it.
proof fn lemma_match_all_prefix(a: Seq<u8>, b: Seq<u8>)
    ensures
        forall|i: int, t: Seq<u8>| spec_match_at(a, i, t) ==> #[trigger] spec_match_at(a + b, i, t),
{
    assert forall|i: int, t: Seq<u8>| spec_match_at(a, i, t) implies #[trigger] spec_match_at(
        a + b,
        i,
        t,
    ) by {
        lemma_match_at_prefix(a, b, i, t);
    }
}

/// Consumes an exact literal at offset `i`: succeeds, returning the offset
/// one past the literal, exactly when the literal occurs there.
fn eat_lit(s: &[u8], i: usize, lit: &Vec<u8>) -> (r: Option<usize>)
    requires
        i <= s@.len(),
    ensures
        match r {
            Some(j) => j == i + lit@.len() && spec_match_at(s@, i as int, lit@),
            None => !spec_match_at(s@, i as int, lit@),
        },
{
    if s.len() - i < lit.len() {
        return None;
    }
    let mut k: usize = 0;
    while k < lit.len()
        invariant
            k <= lit@.len(),
            i + lit@.len() <= s@.len(),
            s@.len() <= usize::MAX,
            forall|j: int| 0 <= j < k ==> s@[i + j] == lit@[j],
        decreases lit@.len() - k,
    {
        if s[i + k] != lit[k] {
            proof {
                if spec_match_at(s@, i as int, lit@) {
                    lemma_match_at_byte(s@, i as int, lit@, k as int);
                }
            }
            return None;
        }
        k += 1;
    }
    proof {
        assert(s@.subrange(i as int, i + lit@.len()) =~= lit@);
    }
    Some(i + lit.len())
}

/// Reads a pump or valve level name (`On` or `Off`) at offset `i`. The two
/// names differ in their second byte, so at most one of them can occur.
fn parse_switch(s: &[u8], i: usize) -> (r: Option<(IOState, usize)>)
    requires
        i <= s@.len(),
    ensures
        match r {
            Some((v, j)) => j == i + spec_switch_name(v).len() && spec_match_at(
                s@,
                i as int,
                spec_switch_name(v),
            ),
            None => true,
        },
        forall|v: IOState| spec_match_at(s@, i as int, spec_switch_name(v)) ==> r == Some::<
            (IOState, usize),
        >((v, (i + spec_switch_name(v).len()) as usize)),
{
    let on = lit_name_on_vec();
    if let Some(j) = eat_lit(s, i, &on) {
        proof {
            if spec_match_at(s@, i as int, lit_name_off()) {
                lemma_match_at_byte(s@, i as int, lit_name_on(), 1);
                lemma_match_at_byte(s@, i as int, lit_name_off(), 1);
            }
        }
        return Some((IOState::On, j));
    }
    let off = lit_name_off_vec();
    if let Some(j) = eat_lit(s, i, &off) {
        return Some((IOState::Off, j));
    }
    None
}

/// An ASCII decimal digit.
pub open spec fn spec_is_digit(c: u8) -> bool {
    48 <= c <= 57
}

/// A canonical decimal for `n` sits at offset `i` and the byte after it, if
/// any, is not a digit — so the decimal cannot be a truncated longer number.
pub open spec fn spec_dec_at(s: Seq<u8>, i: int, n: u8) -> bool {
    spec_match_at(s, i, spec_dec_u8(n)) && (i + spec_dec_u8(n).len() == s.len()
        || !spec_is_digit(s[i + spec_dec_u8(n).len()]))
}

/// Whether the byte at `j` exists and is a digit.
fn digit_at(s: &[u8], j: usize) -> (r: bool)
    ensures
        r <==> (j < s@.len() && spec_is_digit(s@[j as int])),
{
    j < s.len() && 48 <= s[j] && s[j] <= 57
}

/// Reads a decimal byte value at offset `i`: the longest run of digits,
/// which must be the canonical form of a value that fits in one byte.
/// Succeeds exactly on a canonical decimal whose following byte, if any,
/// is not a digit.
fn parse_u8_dec(s: &[u8], i: usize) -> (r: Option<(u8, usize)>)
    requires
        i <= s@.len(),
    ensures
        match r {
            Some((n, j)) => j == i + spec_dec_u8(n).len() && spec_dec_at(s@, i as int, n),
            None => true,
        },
        forall|n: u8| spec_dec_at(s@, i as int, n) ==> r == Some::<(u8, usize)>(
            (n, (i + spec_dec_u8(n).len()) as usize),
        ),
{
    if i >= s.len() || !digit_at(s, i) {
        proof {
            assert forall|n: u8| !spec_dec_at(s@, i as int, n) by {
                if spec_match_at(s@, i as int, spec_dec_u8(n)) {
                    lemma_match_at_byte(s@, i as int, spec_dec_u8(n), 0);
                }
            }
        }
        return None;
    }
    let c0 = s[i];
    let d0 = c0 - 48;
    if !digit_at(s, i + 1) {
        proof {
            assert(spec_dec_u8(d0) =~= seq![c0]);
            assert(s@.subrange(i as int, i + 1) =~= seq![c0]);
            assert(spec_dec_at(s@, i as int, d0));
            assert forall|m: u8| spec_dec_at(s@, i as int, m) implies m == d0
                && spec_dec_u8(m).len() == 1 by {
                lemma_match_at_byte(s@, i as int, spec_dec_u8(m), 0);
                if m >= 10 {
                    lemma_match_at_byte(s@, i as int, spec_dec_u8(m), 1);
                }
            }
        }
        return Some((d0, i + 1));
    }
    if c0 == 48 {
        proof {
            assert forall|m: u8| !spec_dec_at(s@, i as int, m) by {
                if spec_dec_at(s@, i as int, m) {
                    lemma_match_at_byte(s@, i as int, spec_dec_u8(m), 0);
                    // a first byte `0` forces a one-digit number, whose
                    // follower here is a digit
                }
            }
        }
        return None;
    }
    let c1 = s[i + 1];
    let d1 = c1 - 48;
    if !digit_at(s, i + 2) {
        let n = 10 * d0 + d1;
        proof {
            assert(n / 10 == d0 && n % 10 == d1);
            assert(spec_dec_u8(n) =~= seq![c0, c1]);
            assert(s@.subrange(i as int, i + 2) =~= seq![c0, c1]);
            assert(spec_dec_at(s@, i as int, n));
            assert forall|m: u8| spec_dec_at(s@, i as int, m) implies m == n
                && spec_dec_u8(m).len() == 2 by {
                lemma_match_at_byte(s@, i as int, spec_dec_u8(m), 0);
                if m >= 10 {
                    lemma_match_at_byte(s@, i as int, spec_dec_u8(m), 1);
                }
                if m >= 100 {
                    lemma_match_at_byte(s@, i as int, spec_dec_u8(m), 2);
                }
            }
        }
        return Some((n, i + 2));
    }
    let c2 = s[i + 2];
    let d2 = c2 - 48;
    if digit_at(s, i + 3) {
        proof {
            assert forall|m: u8| !spec_dec_at(s@, i as int, m) by {
                if spec_dec_at(s@, i as int, m) {
                    lemma_match_at_byte(s@, i as int, spec_dec_u8(m), 0);
                    if m >= 10 {
                        lemma_match_at_byte(s@, i as int, spec_dec_u8(m), 1);
                    }
                    if m >= 100 {
                        lemma_match_at_byte(s@, i as int, spec_dec_u8(m), 2);
                    }
                }
            }
        }
        return None;
    }
    if d0 > 2 || (d0 == 2 && (d1 > 5 || (d1 == 5 && d2 > 5))) {
        proof {
            assert forall|m: u8| !spec_dec_at(s@, i as int, m) by {
                if spec_dec_at(s@, i as int, m) {
                    lemma_match_at_byte(s@, i as int, spec_dec_u8(m), 0);
                    if m >= 10 {
                        lemma_match_at_byte(s@, i as int, spec_dec_u8(m), 1);
                    }
                    if m >= 100 {
                        lemma_match_at_byte(s@, i as int, spec_dec_u8(m), 2);
                        assert(m == 100 * (m / 100) + 10 * ((m / 10) % 10) + m % 10);
                    }
                }
            }
        }
        return None;
    }
    let n = 100 * d0 + 10 * d1 + d2;
    proof {
        assert(n / 100 == d0 && (n / 10) % 10 == d1 && n % 10 == d2);
        assert(spec_dec_u8(n) =~= seq![c0, c1, c2]);
        assert(s@.subrange(i as int, i + 3) =~= seq![c0, c1, c2]);
        assert(spec_dec_at(s@, i as int, n));
        assert forall|m: u8| spec_dec_at(s@, i as int, m) implies m == n && spec_dec_u8(
            m,
        ).len() == 3 by {
            lemma_match_at_byte(s@, i as int, spec_dec_u8(m), 0);
            if m >= 10 {
                lemma_match_at_byte(s@, i as int, spec_dec_u8(m), 1);
            }
            if m >= 100 {
                lemma_match_at_byte(s@, i as int, spec_dec_u8(m), 2);
                assert(m == 100 * (m / 100) + 10 * ((m / 10) % 10) + m % 10);
            }
        }
    }
    Some((n, i + 3))
}


/// Offset of the first pump name in a pneumatic encoding.
pub open spec fn pn_off_p0() -> int {
    11
}

/// Offset of the second pump name.
pub open spec fn pn_off_p1(r: PneumaticReport) -> int {
    pn_off_p0() + spec_switch_name(r.pumps@[0]).len() + 3
}

/// Offset of the first intensity decimal.
pub open spec fn pn_off_i0(r: PneumaticReport) -> int {
    pn_off_p1(r) + spec_switch_name(r.pumps@[1]).len() + 21
}

/// Offset of the second intensity decimal.
pub open spec fn pn_off_i1(r: PneumaticReport) -> int {
    pn_off_i0(r) + spec_dec_u8(r.pump_intensity@[0]).len() + 1
}

/// Offset of the first valve name.
pub open spec fn pn_off_v0(r: PneumaticReport) -> int {
    pn_off_i1(r) + spec_dec_u8(r.pump_intensity@[1]).len() + 13
}

/// Offset of valve name 1.
pub open spec fn pn_off_v1(r: PneumaticReport) -> int {
    pn_off_v0(r) + spec_switch_name(r.valves@[0]).len() + 3
}

/// Offset of valve name 2.
pub open spec fn pn_off_v2(r: PneumaticReport) -> int {
    pn_off_v1(r) + spec_switch_name(r.valves@[1]).len() + 3
}

/// Offset of valve name 3.
pub open spec fn pn_off_v3(r: PneumaticReport) -> int {
    pn_off_v2(r) + spec_switch_name(r.valves@[2]).len() + 3
}

/// Offset of valve name 4.
pub open spec fn pn_off_v4(r: PneumaticReport) -> int {
    pn_off_v3(r) + spec_switch_name(r.valves@[3]).len() + 3
}

/// Offset of valve name 5.
pub open spec fn pn_off_v5(r: PneumaticReport) -> int {
    pn_off_v4(r) + spec_switch_name(r.valves@[4]).len() + 3
}

/// Total length of a pneumatic encoding.
pub open spec fn pn_enc_len(r: PneumaticReport) -> int {
    pn_off_v5(r) + spec_switch_name(r.valves@[5]).len() + 3
}

/// Where each part of a pneumatic encoding lies.
#[verifier::rlimit(100)]
#[verifier::spinoff_prover]
proof fn lemma_pneumatic_encoding_layout(r: PneumaticReport)
    ensures
        spec_pneumatic_encoding(r).len() == pn_enc_len(r),
        spec_match_at(spec_pneumatic_encoding(r), 0, lit_pn_head()),
        spec_match_at(spec_pneumatic_encoding(r), pn_off_p0(), spec_switch_name(r.pumps@[0])),
        spec_match_at(spec_pneumatic_encoding(r), pn_off_p0() + spec_switch_name(r.pumps@[0]).len(), lit_quote_comma_quote()),
        spec_match_at(spec_pneumatic_encoding(r), pn_off_p1(r), spec_switch_name(r.pumps@[1])),
        spec_match_at(spec_pneumatic_encoding(r), pn_off_p1(r) + spec_switch_name(r.pumps@[1]).len(), lit_pn_intensity()),
        spec_match_at(spec_pneumatic_encoding(r), pn_off_i0(r), spec_dec_u8(r.pump_intensity@[0])),
        spec_match_at(spec_pneumatic_encoding(r), pn_off_i0(r) + spec_dec_u8(r.pump_intensity@[0]).len(), lit_comma()),
        spec_match_at(spec_pneumatic_encoding(r), pn_off_i1(r), spec_dec_u8(r.pump_intensity@[1])),
        spec_match_at(spec_pneumatic_encoding(r), pn_off_i1(r) + spec_dec_u8(r.pump_intensity@[1]).len(), lit_pn_valves()),
        spec_match_at(spec_pneumatic_encoding(r), pn_off_v0(r), spec_switch_name(r.valves@[0])),
        spec_match_at(spec_pneumatic_encoding(r), pn_off_v0(r) + spec_switch_name(r.valves@[0]).len(), lit_quote_comma_quote()),
        spec_match_at(spec_pneumatic_encoding(r), pn_off_v1(r), spec_switch_name(r.valves@[1])),
        spec_match_at(spec_pneumatic_encoding(r), pn_off_v1(r) + spec_switch_name(r.valves@[1]).len(), lit_quote_comma_quote()),
        spec_match_at(spec_pneumatic_encoding(r), pn_off_v2(r), spec_switch_name(r.valves@[2])),
        spec_match_at(spec_pneumatic_encoding(r), pn_off_v2(r) + spec_switch_name(r.valves@[2]).len(), lit_quote_comma_quote()),
        spec_match_at(spec_pneumatic_encoding(r), pn_off_v3(r), spec_switch_name(r.valves@[3])),
        spec_match_at(spec_pneumatic_encoding(r), pn_off_v3(r) + spec_switch_name(r.valves@[3]).len(), lit_quote_comma_quote()),
        spec_match_at(spec_pneumatic_encoding(r), pn_off_v4(r), spec_switch_name(r.valves@[4])),
        spec_match_at(spec_pneumatic_encoding(r), pn_off_v4(r) + spec_switch_name(r.valves@[4]).len(), lit_quote_comma_quote()),
        spec_match_at(spec_pneumatic_encoding(r), pn_off_v5(r), spec_switch_name(r.valves@[5])),
        spec_match_at(spec_pneumatic_encoding(r), pn_off_v5(r) + spec_switch_name(r.valves@[5]).len(), lit_pn_tail()),
{
    let e = spec_pneumatic_encoding(r);
    let c00 = lit_pn_head();
    assert(c00.subrange(0, c00.len() as int) =~= c00);
    assert(spec_match_at(c00, 0, lit_pn_head()));
    let c01 = c00 + spec_switch_name(r.pumps@[0]);
    lemma_match_at_end(c00, spec_switch_name(r.pumps@[0]));
    lemma_match_all_prefix(c00, spec_switch_name(r.pumps@[0]));
    let c02 = c01 + lit_quote_comma_quote();
    lemma_match_at_end(c01, lit_quote_comma_quote());
    lemma_match_all_prefix(c01, lit_quote_comma_quote());
    let c03 = c02 + spec_switch_name(r.pumps@[1]);
    lemma_match_at_end(c02, spec_switch_name(r.pumps@[1]));
    lemma_match_all_prefix(c02, spec_switch_name(r.pumps@[1]));
    let c04 = c03 + lit_pn_intensity();
    lemma_match_at_end(c03, lit_pn_intensity());
    lemma_match_all_prefix(c03, lit_pn_intensity());
    let c05 = c04 + spec_dec_u8(r.pump_intensity@[0]);
    lemma_match_at_end(c04, spec_dec_u8(r.pump_intensity@[0]));
    lemma_match_all_prefix(c04, spec_dec_u8(r.pump_intensity@[0]));
    let c06 = c05 + lit_comma();
    lemma_match_at_end(c05, lit_comma());
    lemma_match_all_prefix(c05, lit_comma());
    let c07 = c06 + spec_dec_u8(r.pump_intensity@[1]);
    lemma_match_at_end(c06, spec_dec_u8(r.pump_intensity@[1]));
    lemma_match_all_prefix(c06, spec_dec_u8(r.pump_intensity@[1]));
    let c08 = c07 + lit_pn_valves();
    lemma_match_at_end(c07, lit_pn_valves());
    lemma_match_all_prefix(c07, lit_pn_valves());
    let c09 = c08 + spec_switch_name(r.valves@[0]);
    lemma_match_at_end(c08, spec_switch_name(r.valves@[0]));
    lemma_match_all_prefix(c08, spec_switch_name(r.valves@[0]));
    let c10 = c09 + lit_quote_comma_quote();
    lemma_match_at_end(c09, lit_quote_comma_quote());
    lemma_match_all_prefix(c09, lit_quote_comma_quote());
    let c11 = c10 + spec_switch_name(r.valves@[1]);
    lemma_match_at_end(c10, spec_switch_name(r.valves@[1]));
    lemma_match_all_prefix(c10, spec_switch_name(r.valves@[1]));
    let c12 = c11 + lit_quote_comma_quote();
    lemma_match_at_end(c11, lit_quote_comma_quote());
    lemma_match_all_prefix(c11, lit_quote_comma_quote());
    let c13 = c12 + spec_switch_name(r.valves@[2]);
    lemma_match_at_end(c12, spec_switch_name(r.valves@[2]));
    lemma_match_all_prefix(c12, spec_switch_name(r.valves@[2]));
    let c14 = c13 + lit_quote_comma_quote();
    lemma_match_at_end(c13, lit_quote_comma_quote());
    lemma_match_all_prefix(c13, lit_quote_comma_quote());
    let c15 = c14 + spec_switch_name(r.valves@[3]);
    lemma_match_at_end(c14, spec_switch_name(r.valves@[3]));
    lemma_match_all_prefix(c14, spec_switch_name(r.valves@[3]));
    let c16 = c15 + lit_quote_comma_quote();
    lemma_match_at_end(c15, lit_quote_comma_quote());
    lemma_match_all_prefix(c15, lit_quote_comma_quote());
    let c17 = c16 + spec_switch_name(r.valves@[4]);
    lemma_match_at_end(c16, spec_switch_name(r.valves@[4]));
    lemma_match_all_prefix(c16, spec_switch_name(r.valves@[4]));
    let c18 = c17 + lit_quote_comma_quote();
    lemma_match_at_end(c17, lit_quote_comma_quote());
    lemma_match_all_prefix(c17, lit_quote_comma_quote());
    let c19 = c18 + spec_switch_name(r.valves@[5]);
    lemma_match_at_end(c18, spec_switch_name(r.valves@[5]));
    lemma_match_all_prefix(c18, spec_switch_name(r.valves@[5]));
    let c20 = c19 + lit_pn_tail();
    lemma_match_at_end(c19, lit_pn_tail());
    lemma_match_all_prefix(c19, lit_pn_tail());
    assert(e == c20);
}


/// One fact of the pneumatic layout, kept separate to keep callers light.
proof fn lemma_pn_at_00(r: PneumaticReport)
    ensures
        spec_match_at(spec_pneumatic_encoding(r), 0, lit_pn_head()),
{
    lemma_pneumatic_encoding_layout(r);
}

/// One fact of the pneumatic layout, kept separate to keep callers light.
proof fn lemma_pn_at_01(r: PneumaticReport)
    ensures
        spec_match_at(spec_pneumatic_encoding(r), pn_off_p0(), spec_switch_name(r.pumps@[0])),
{
    lemma_pneumatic_encoding_layout(r);
}

/// One fact of the pneumatic layout, kept separate to keep callers light.
proof fn lemma_pn_at_02(r: PneumaticReport)
    ensures
        spec_match_at(spec_pneumatic_encoding(r), pn_off_p0() + spec_switch_name(r.pumps@[0]).len(), lit_quote_comma_quote()),
{
    lemma_pneumatic_encoding_layout(r);
}

/// One fact of the pneumatic layout, kept separate to keep callers light.
proof fn lemma_pn_at_03(r: PneumaticReport)
    ensures
        spec_match_at(spec_pneumatic_encoding(r), pn_off_p1(r), spec_switch_name(r.pumps@[1])),
{
    lemma_pneumatic_encoding_layout(r);
}

/// One fact of the pneumatic layout, kept separate to keep callers light.
proof fn lemma_pn_at_04(r: PneumaticReport)
    ensures
        spec_match_at(spec_pneumatic_encoding(r), pn_off_p1(r) + spec_switch_name(r.pumps@[1]).len(), lit_pn_intensity()),
{
    lemma_pneumatic_encoding_layout(r);
}

/// One fact of the pneumatic layout, kept separate to keep callers light.
proof fn lemma_pn_at_05(r: PneumaticReport)
    ensures
        spec_match_at(spec_pneumatic_encoding(r), pn_off_i0(r), spec_dec_u8(r.pump_intensity@[0])),
{
    lemma_pneumatic_encoding_layout(r);
}

/// One fact of the pneumatic layout, kept separate to keep callers light.
proof fn lemma_pn_at_06(r: PneumaticReport)
    ensures
        spec_match_at(spec_pneumatic_encoding(r), pn_off_i0(r) + spec_dec_u8(r.pump_intensity@[0]).len(), lit_comma()),
{
    lemma_pneumatic_encoding_layout(r);
}

/// One fact of the pneumatic layout, kept separate to keep callers light.
proof fn lemma_pn_at_07(r: PneumaticReport)
    ensures
        spec_match_at(spec_pneumatic_encoding(r), pn_off_i1(r), spec_dec_u8(r.pump_intensity@[1])),
{
    lemma_pneumatic_encoding_layout(r);
}

/// One fact of the pneumatic layout, kept separate to keep callers light.
proof fn lemma_pn_at_08(r: PneumaticReport)
    ensures
        spec_match_at(spec_pneumatic_encoding(r), pn_off_i1(r) + spec_dec_u8(r.pump_intensity@[1]).len(), lit_pn_valves()),
{
    lemma_pneumatic_encoding_layout(r);
}

/// One fact of the pneumatic layout, kept separate to keep callers light.
proof fn lemma_pn_at_09(r: PneumaticReport)
    ensures
        spec_match_at(spec_pneumatic_encoding(r), pn_off_v0(r), spec_switch_name(r.valves@[0])),
{
    lemma_pneumatic_encoding_layout(r);
}

/// One fact of the pneumatic layout, kept separate to keep callers light.
proof fn lemma_pn_at_10(r: PneumaticReport)
    ensures
        spec_match_at(spec_pneumatic_encoding(r), pn_off_v0(r) + spec_switch_name(r.valves@[0]).len(), lit_quote_comma_quote()),
{
    lemma_pneumatic_encoding_layout(r);
}

/// One fact of the pneumatic layout, kept separate to keep callers light.
proof fn lemma_pn_at_11(r: PneumaticReport)
    ensures
        spec_match_at(spec_pneumatic_encoding(r), pn_off_v1(r), spec_switch_name(r.valves@[1])),
{
    lemma_pneumatic_encoding_layout(r);
}

/// One fact of the pneumatic layout, kept separate to keep callers light.
proof fn lemma_pn_at_12(r: PneumaticReport)
    ensures
        spec_match_at(spec_pneumatic_encoding(r), pn_off_v1(r) + spec_switch_name(r.valves@[1]).len(), lit_quote_comma_quote()),
{
    lemma_pneumatic_encoding_layout(r);
}

/// One fact of the pneumatic layout, kept separate to keep callers light.
proof fn lemma_pn_at_13(r: PneumaticReport)
    ensures
        spec_match_at(spec_pneumatic_encoding(r), pn_off_v2(r), spec_switch_name(r.valves@[2])),
{
    lemma_pneumatic_encoding_layout(r);
}

/// One fact of the pneumatic layout, kept separate to keep callers light.
proof fn lemma_pn_at_14(r: PneumaticReport)
    ensures
        spec_match_at(spec_pneumatic_encoding(r), pn_off_v2(r) + spec_switch_name(r.valves@[2]).len(), lit_quote_comma_quote()),
{
    lemma_pneumatic_encoding_layout(r);
}

/// One fact of the pneumatic layout, kept separate to keep callers light.
proof fn lemma_pn_at_15(r: PneumaticReport)
    ensures
        spec_match_at(spec_pneumatic_encoding(r), pn_off_v3(r), spec_switch_name(r.valves@[3])),
{
    lemma_pneumatic_encoding_layout(r);
}

/// One fact of the pneumatic layout, kept separate to keep callers light.
proof fn lemma_pn_at_16(r: PneumaticReport)
    ensures
        spec_match_at(spec_pneumatic_encoding(r), pn_off_v3(r) + spec_switch_name(r.valves@[3]).len(), lit_quote_comma_quote()),
{
    lemma_pneumatic_encoding_layout(r);
}

/// One fact of the pneumatic layout, kept separate to keep callers light.
proof fn lemma_pn_at_17(r: PneumaticReport)
    ensures
        spec_match_at(spec_pneumatic_encoding(r), pn_off_v4(r), spec_switch_name(r.valves@[4])),
{
    lemma_pneumatic_encoding_layout(r);
}

/// One fact of the pneumatic layout, kept separate to keep callers light.
proof fn lemma_pn_at_18(r: PneumaticReport)
    ensures
        spec_match_at(spec_pneumatic_encoding(r), pn_off_v4(r) + spec_switch_name(r.valves@[4]).len(), lit_quote_comma_quote()),
{
    lemma_pneumatic_encoding_layout(r);
}

/// One fact of the pneumatic layout, kept separate to keep callers light.
proof fn lemma_pn_at_19(r: PneumaticReport)
    ensures
        spec_match_at(spec_pneumatic_encoding(r), pn_off_v5(r), spec_switch_name(r.valves@[5])),
{
    lemma_pneumatic_encoding_layout(r);
}

/// One fact of the pneumatic layout, kept separate to keep callers light.
proof fn lemma_pn_at_20(r: PneumaticReport)
    ensures
        spec_match_at(spec_pneumatic_encoding(r), pn_off_v5(r) + spec_switch_name(r.valves@[5]).len(), lit_pn_tail()),
{
    lemma_pneumatic_encoding_layout(r);
}

/// The length of a pneumatic encoding.
proof fn lemma_pn_len(r: PneumaticReport)
    ensures
        spec_pneumatic_encoding(r).len() == pn_enc_len(r),
{
    lemma_pneumatic_encoding_layout(r);
}

/// Reads the record head and the first pump name.
#[verifier::rlimit(100)]
#[verifier::spinoff_prover]
fn parse_pn_open(s: &[u8]) -> (r: Result<(IOState, usize), DecodeError>)
    ensures
        match r {
            Ok((w, j)) => j <= s@.len() && s@.subrange(0 as int, j as int)
                == lit_pn_head() + spec_switch_name(w) + lit_quote_comma_quote() && (forall|rep: PneumaticReport|
                s@ == spec_pneumatic_encoding(rep) ==> rep.pumps@[0] == w && j == pn_off_p1(rep)),
            Err(_) => forall|rep: PneumaticReport| s@ != spec_pneumatic_encoding(rep),
        },
{
    let l00 = lit_pn_head_vec();
    let j00 = match eat_lit(s, 0, &l00) {
        Some(j) => j,
        None => {
            proof {
                assert forall|rep: PneumaticReport| s@ != spec_pneumatic_encoding(rep) by {
                    if s@ == spec_pneumatic_encoding(rep) {
                        lemma_pn_at_00(rep);
                        assert(spec_match_at(s@, 0 as int, lit_pn_head()));
                    }
                }
            }
            return Err(DecodeError::Malformed);
        },
    };
    proof {
        assert(s@.subrange(0 as int, j00 as int) == lit_pn_head());
        assert forall|rep: PneumaticReport| s@ == spec_pneumatic_encoding(rep) implies j00 == pn_off_p0() by {
            lemma_pn_at_00(rep);
            assert(spec_match_at(s@, 0 as int, lit_pn_head()));
        }
    }
    let (p0v, j01) = match parse_switch(s, j00) {
        Some(x) => x,
        None => {
            proof {
                assert forall|rep: PneumaticReport| s@ != spec_pneumatic_encoding(rep) by {
                    if s@ == spec_pneumatic_encoding(rep) {
                        lemma_pn_at_01(rep);
                        assert(spec_match_at(s@, j00 as int, spec_switch_name(rep.pumps@[0])));
                    }
                }
            }
            return Err(DecodeError::Malformed);
        },
    };
    proof {
        assert(s@.subrange(0 as int, j01 as int) =~= s@.subrange(0 as int, j00 as int) + s@.subrange(j00 as int, j01 as int));
        assert(s@.subrange(0 as int, j01 as int) == lit_pn_head() + spec_switch_name(p0v));
        assert forall|rep: PneumaticReport| s@ == spec_pneumatic_encoding(rep) implies rep.pumps@[0] == p0v && j01 == pn_off_p0() + spec_switch_name(rep.pumps@[0]).len() by {
            lemma_pn_at_01(rep);
            assert(spec_match_at(s@, j00 as int, spec_switch_name(rep.pumps@[0])));
        }
    }
    let l02 = lit_quote_comma_quote_vec();
    let j02 = match eat_lit(s, j01, &l02) {
        Some(j) => j,
        None => {
            proof {
                assert forall|rep: PneumaticReport| s@ != spec_pneumatic_encoding(rep) by {
                    if s@ == spec_pneumatic_encoding(rep) {
                        lemma_pn_at_02(rep);
                        assert(spec_match_at(s@, j01 as int, lit_quote_comma_quote()));
                    }
                }
            }
            return Err(DecodeError::Malformed);
        },
    };
    proof {
        assert(s@.subrange(0 as int, j02 as int) =~= s@.subrange(0 as int, j01 as int) + s@.subrange(j01 as int, j02 as int));
        assert(s@.subrange(0 as int, j02 as int) == lit_pn_head() + spec_switch_name(p0v) + lit_quote_comma_quote());
        assert forall|rep: PneumaticReport| s@ == spec_pneumatic_encoding(rep) implies j02 == pn_off_p1(rep) by {
            lemma_pn_at_02(rep);
            assert(spec_match_at(s@, j01 as int, lit_quote_comma_quote()));
        }
    }
    Ok((p0v, j02))
}

/// Reads the second pump name and the opening of the intensity list.
#[verifier::rlimit(100)]
#[verifier::spinoff_prover]
fn parse_pn_pump_two(s: &[u8], jin: usize) -> (r: Result<(IOState, usize), DecodeError>)
    requires
        jin <= s@.len(),
        forall|rep: PneumaticReport| s@ == spec_pneumatic_encoding(rep) ==> jin == pn_off_p1(rep),
    ensures
        match r {
            Ok((w, j)) => jin <= j <= s@.len() && s@.subrange(jin as int, j as int)
                == spec_switch_name(w) + lit_pn_intensity() && (forall|rep: PneumaticReport|
                s@ == spec_pneumatic_encoding(rep) ==> rep.pumps@[1] == w && j == pn_off_i0(rep)),
            Err(_) => forall|rep: PneumaticReport| s@ != spec_pneumatic_encoding(rep),
        },
{
    let (p1v, j03) = match parse_switch(s, jin) {
        Some(x) => x,
        None => {
            proof {
                assert forall|rep: PneumaticReport| s@ != spec_pneumatic_encoding(rep) by {
                    if s@ == spec_pneumatic_encoding(rep) {
                        lemma_pn_at_03(rep);
                        assert(spec_match_at(s@, jin as int, spec_switch_name(rep.pumps@[1])));
                    }
                }
            }
            return Err(DecodeError::Malformed);
        },
    };
    proof {
        assert(s@.subrange(jin as int, j03 as int) == spec_switch_name(p1v));
        assert forall|rep: PneumaticReport| s@ == spec_pneumatic_encoding(rep) implies rep.pumps@[1] == p1v && j03 == pn_off_p1(rep) + spec_switch_name(rep.pumps@[1]).len() by {
            lemma_pn_at_03(rep);
            assert(spec_match_at(s@, jin as int, spec_switch_name(rep.pumps@[1])));
        }
    }
    let l04 = lit_pn_intensity_vec();
    let j04 = match eat_lit(s, j03, &l04) {
        Some(j) => j,
        None => {
            proof {
                assert forall|rep: PneumaticReport| s@ != spec_pneumatic_encoding(rep) by {
                    if s@ == spec_pneumatic_encoding(rep) {
                        lemma_pn_at_04(rep);
                        assert(spec_match_at(s@, j03 as int, lit_pn_intensity()));
                    }
                }
            }
            return Err(DecodeError::Malformed);
        },
    };
    proof {
        assert(s@.subrange(jin as int, j04 as int) =~= s@.subrange(jin as int, j03 as int) + s@.subrange(j03 as int, j04 as int));
        assert(s@.subrange(jin as int, j04 as int) == spec_switch_name(p1v) + lit_pn_intensity());
        assert forall|rep: PneumaticReport| s@ == spec_pneumatic_encoding(rep) implies j04 == pn_off_i0(rep) by {
            lemma_pn_at_04(rep);
            assert(spec_match_at(s@, j03 as int, lit_pn_intensity()));
        }
    }
    Ok((p1v, j04))
}

/// Reads the first intensity and the separating comma.
#[verifier::rlimit(100)]
#[verifier::spinoff_prover]
fn parse_pn_int_one(s: &[u8], jin: usize) -> (r: Result<(u8, usize), DecodeError>)
    requires
        jin <= s@.len(),
        forall|rep: PneumaticReport| s@ == spec_pneumatic_encoding(rep) ==> jin == pn_off_i0(rep),
    ensures
        match r {
            Ok((w, j)) => jin <= j <= s@.len() && s@.subrange(jin as int, j as int)
                == spec_dec_u8(w) + lit_comma() && (forall|rep: PneumaticReport|
                s@ == spec_pneumatic_encoding(rep) ==> rep.pump_intensity@[0] == w && j == pn_off_i1(rep)),
            Err(_) => forall|rep: PneumaticReport| s@ != spec_pneumatic_encoding(rep),
        },
{
    let (i0v, j05) = match parse_u8_dec(s, jin) {
        Some(x) => x,
        None => {
            proof {
                assert forall|rep: PneumaticReport| s@ != spec_pneumatic_encoding(rep) by {
                    if s@ == spec_pneumatic_encoding(rep) {
                        lemma_pn_at_05(rep);
                        lemma_pn_at_06(rep);
                        lemma_match_at_byte(s@, pn_off_i0(rep) + spec_dec_u8(rep.pump_intensity@[0]).len(), lit_comma(), 0);
                        assert(spec_dec_at(s@, jin as int, rep.pump_intensity@[0]));
                    }
                }
            }
            return Err(DecodeError::Malformed);
        },
    };
    proof {
        assert(s@.subrange(jin as int, j05 as int) == spec_dec_u8(i0v));
        assert forall|rep: PneumaticReport| s@ == spec_pneumatic_encoding(rep) implies rep.pump_intensity@[0] == i0v && j05 == pn_off_i0(rep) + spec_dec_u8(rep.pump_intensity@[0]).len() by {
            lemma_pn_at_05(rep);
            lemma_pn_at_06(rep);
            lemma_match_at_byte(s@, pn_off_i0(rep) + spec_dec_u8(rep.pump_intensity@[0]).len(), lit_comma(), 0);
            assert(spec_dec_at(s@, jin as int, rep.pump_intensity@[0]));
        }
    }
    let l06 = lit_comma_vec();
    let j06 = match eat_lit(s, j05, &l06) {
        Some(j) => j,
        None => {
            proof {
                assert forall|rep: PneumaticReport| s@ != spec_pneumatic_encoding(rep) by {
                    if s@ == spec_pneumatic_encoding(rep) {
                        lemma_pn_at_06(rep);
                        assert(spec_match_at(s@, j05 as int, lit_comma()));
                    }
                }
            }
            return Err(DecodeError::Malformed);
        },
    };
    proof {
        assert(s@.subrange(jin as int, j06 as int) =~= s@.subrange(jin as int, j05 as int) + s@.subrange(j05 as int, j06 as int));
        assert(s@.subrange(jin as int, j06 as int) == spec_dec_u8(i0v) + lit_comma());
        assert forall|rep: PneumaticReport| s@ == spec_pneumatic_encoding(rep) implies j06 == pn_off_i1(rep) by {
            lemma_pn_at_06(rep);
            assert(spec_match_at(s@, j05 as int, lit_comma()));
        }
    }
    Ok((i0v, j06))
}

/// Reads the second intensity and the opening of the valve list.
#[verifier::rlimit(100)]
#[verifier::spinoff_prover]
fn parse_pn_int_two(s: &[u8], jin: usize) -> (r: Result<(u8, usize), DecodeError>)
    requires
        jin <= s@.len(),
        forall|rep: PneumaticReport| s@ == spec_pneumatic_encoding(rep) ==> jin == pn_off_i1(rep),
    ensures
        match r {
            Ok((w, j)) => jin <= j <= s@.len() && s@.subrange(jin as int, j as int)
                == spec_dec_u8(w) + lit_pn_valves() && (forall|rep: PneumaticReport|
                s@ == spec_pneumatic_encoding(rep) ==> rep.pump_intensity@[1] == w && j == pn_off_v0(rep)),
            Err(_) => forall|rep: PneumaticReport| s@ != spec_pneumatic_encoding(rep),
        },
{
    let (i1v, j07) = match parse_u8_dec(s, jin) {
        Some(x) => x,
        None => {
            proof {
                assert forall|rep: PneumaticReport| s@ != spec_pneumatic_encoding(rep) by {
                    if s@ == spec_pneumatic_encoding(rep) {
                        lemma_pn_at_07(rep);
                        lemma_pn_at_08(rep);
                        lemma_match_at_byte(s@, pn_off_i1(rep) + spec_dec_u8(rep.pump_intensity@[1]).len(), lit_pn_valves(), 0);
                        assert(spec_dec_at(s@, jin as int, rep.pump_intensity@[1]));
                    }
                }
            }
            return Err(DecodeError::Malformed);
        },
    };
    proof {
        assert(s@.subrange(jin as int, j07 as int) == spec_dec_u8(i1v));
        assert forall|rep: PneumaticReport| s@ == spec_pneumatic_encoding(rep) implies rep.pump_intensity@[1] == i1v && j07 == pn_off_i1(rep) + spec_dec_u8(rep.pump_intensity@[1]).len() by {
            lemma_pn_at_07(rep);
            lemma_pn_at_08(rep);
            lemma_match_at_byte(s@, pn_off_i1(rep) + spec_dec_u8(rep.pump_intensity@[1]).len(), lit_pn_valves(), 0);
            assert(spec_dec_at(s@, jin as int, rep.pump_intensity@[1]));
        }
    }
    let l08 = lit_pn_valves_vec();
    let j08 = match eat_lit(s, j07, &l08) {
        Some(j) => j,
        None => {
            proof {
                assert forall|rep: PneumaticReport| s@ != spec_pneumatic_encoding(rep) by {
                    if s@ == spec_pneumatic_encoding(rep) {
                        lemma_pn_at_08(rep);
                        assert(spec_match_at(s@, j07 as int, lit_pn_valves()));
                    }
                }
            }
            return Err(DecodeError::Malformed);
        },
    };
    proof {
        assert(s@.subrange(jin as int, j08 as int) =~= s@.subrange(jin as int, j07 as int) + s@.subrange(j07 as int, j08 as int));
        assert(s@.subrange(jin as int, j08 as int) == spec_dec_u8(i1v) + lit_pn_valves());
        assert forall|rep: PneumaticReport| s@ == spec_pneumatic_encoding(rep) implies j08 == pn_off_v0(rep) by {
            lemma_pn_at_08(rep);
            assert(spec_match_at(s@, j07 as int, lit_pn_valves()));
        }
    }
    Ok((i1v, j08))
}

/// Reads a valve name and its separator.
#[verifier::rlimit(100)]
#[verifier::spinoff_prover]
fn parse_pn_valve_zero(s: &[u8], jin: usize) -> (r: Result<(IOState, usize), DecodeError>)
    requires
        jin <= s@.len(),
        forall|rep: PneumaticReport| s@ == spec_pneumatic_encoding(rep) ==> jin == pn_off_v0(rep),
    ensures
        match r {
            Ok((w, j)) => jin <= j <= s@.len() && s@.subrange(jin as int, j as int)
                == spec_switch_name(w) + lit_quote_comma_quote() && (forall|rep: PneumaticReport|
                s@ == spec_pneumatic_encoding(rep) ==> rep.valves@[0] == w && j == pn_off_v1(rep)),
            Err(_) => forall|rep: PneumaticReport| s@ != spec_pneumatic_encoding(rep),
        },
{
    let (v0v, j09) = match parse_switch(s, jin) {
        Some(x) => x,
        None => {
            proof {
                assert forall|rep: PneumaticReport| s@ != spec_pneumatic_encoding(rep) by {
                    if s@ == spec_pneumatic_encoding(rep) {
                        lemma_pn_at_09(rep);
                        assert(spec_match_at(s@, jin as int, spec_switch_name(rep.valves@[0])));
                    }
                }
            }
            return Err(DecodeError::Malformed);
        },
    };
    proof {
        assert(s@.subrange(jin as int, j09 as int) == spec_switch_name(v0v));
        assert forall|rep: PneumaticReport| s@ == spec_pneumatic_encoding(rep) implies rep.valves@[0] == v0v && j09 == pn_off_v0(rep) + spec_switch_name(rep.valves@[0]).len() by {
            lemma_pn_at_09(rep);
            assert(spec_match_at(s@, jin as int, spec_switch_name(rep.valves@[0])));
        }
    }
    let l10 = lit_quote_comma_quote_vec();
    let j10 = match eat_lit(s, j09, &l10) {
        Some(j) => j,
        None => {
            proof {
                assert forall|rep: PneumaticReport| s@ != spec_pneumatic_encoding(rep) by {
                    if s@ == spec_pneumatic_encoding(rep) {
                        lemma_pn_at_10(rep);
                        assert(spec_match_at(s@, j09 as int, lit_quote_comma_quote()));
                    }
                }
            }
            return Err(DecodeError::Malformed);
        },
    };
    proof {
        assert(s@.subrange(jin as int, j10 as int) =~= s@.subrange(jin as int, j09 as int) + s@.subrange(j09 as int, j10 as int));
        assert(s@.subrange(jin as int, j10 as int) == spec_switch_name(v0v) + lit_quote_comma_quote());
        assert forall|rep: PneumaticReport| s@ == spec_pneumatic_encoding(rep) implies j10 == pn_off_v1(rep) by {
            lemma_pn_at_10(rep);
            assert(spec_match_at(s@, j09 as int, lit_quote_comma_quote()));
        }
    }
    Ok((v0v, j10))
}

/// Reads a valve name and its separator.
#[verifier::rlimit(100)]
#[verifier::spinoff_prover]
fn parse_pn_valve_one(s: &[u8], jin: usize) -> (r: Result<(IOState, usize), DecodeError>)
    requires
        jin <= s@.len(),
        forall|rep: PneumaticReport| s@ == spec_pneumatic_encoding(rep) ==> jin == pn_off_v1(rep),
    ensures
        match r {
            Ok((w, j)) => jin <= j <= s@.len() && s@.subrange(jin as int, j as int)
                == spec_switch_name(w) + lit_quote_comma_quote() && (forall|rep: PneumaticReport|
                s@ == spec_pneumatic_encoding(rep) ==> rep.valves@[1] == w && j == pn_off_v2(rep)),
            Err(_) => forall|rep: PneumaticReport| s@ != spec_pneumatic_encoding(rep),
        },
{
    let (v1v, j11) = match parse_switch(s, jin) {
        Some(x) => x,
        None => {
            proof {
                assert forall|rep: PneumaticReport| s@ != spec_pneumatic_encoding(rep) by {
                    if s@ == spec_pneumatic_encoding(rep) {
                        lemma_pn_at_11(rep);
                        assert(spec_match_at(s@, jin as int, spec_switch_name(rep.valves@[1])));
                    }
                }
            }
            return Err(DecodeError::Malformed);
        },
    };
    proof {
        assert(s@.subrange(jin as int, j11 as int) == spec_switch_name(v1v));
        assert forall|rep: PneumaticReport| s@ == spec_pneumatic_encoding(rep) implies rep.valves@[1] == v1v && j11 == pn_off_v1(rep) + spec_switch_name(rep.valves@[1]).len() by {
            lemma_pn_at_11(rep);
            assert(spec_match_at(s@, jin as int, spec_switch_name(rep.valves@[1])));
        }
    }
    let l12 = lit_quote_comma_quote_vec();
    let j12 = match eat_lit(s, j11, &l12) {
        Some(j) => j,
        None => {
            proof {
                assert forall|rep: PneumaticReport| s@ != spec_pneumatic_encoding(rep) by {
                    if s@ == spec_pneumatic_encoding(rep) {
                        lemma_pn_at_12(rep);
                        assert(spec_match_at(s@, j11 as int, lit_quote_comma_quote()));
                    }
                }
            }
            return Err(DecodeError::Malformed);
        },
    };
    proof {
        assert(s@.subrange(jin as int, j12 as int) =~= s@.subrange(jin as int, j11 as int) + s@.subrange(j11 as int, j12 as int));
        assert(s@.subrange(jin as int, j12 as int) == spec_switch_name(v1v) + lit_quote_comma_quote());
        assert forall|rep: PneumaticReport| s@ == spec_pneumatic_encoding(rep) implies j12 == pn_off_v2(rep) by {
            lemma_pn_at_12(rep);
            assert(spec_match_at(s@, j11 as int, lit_quote_comma_quote()));
        }
    }
    Ok((v1v, j12))
}

/// Reads a valve name and its separator.
#[verifier::rlimit(100)]
#[verifier::spinoff_prover]
fn parse_pn_valve_two(s: &[u8], jin: usize) -> (r: Result<(IOState, usize), DecodeError>)
    requires
        jin <= s@.len(),
        forall|rep: PneumaticReport| s@ == spec_pneumatic_encoding(rep) ==> jin == pn_off_v2(rep),
    ensures
        match r {
            Ok((w, j)) => jin <= j <= s@.len() && s@.subrange(jin as int, j as int)
                == spec_switch_name(w) + lit_quote_comma_quote() && (forall|rep: PneumaticReport|
                s@ == spec_pneumatic_encoding(rep) ==> rep.valves@[2] == w && j == pn_off_v3(rep)),
            Err(_) => forall|rep: PneumaticReport| s@ != spec_pneumatic_encoding(rep),
        },
{
    let (v2v, j13) = match parse_switch(s, jin) {
        Some(x) => x,
        None => {
            proof {
                assert forall|rep: PneumaticReport| s@ != spec_pneumatic_encoding(rep) by {
                    if s@ == spec_pneumatic_encoding(rep) {
                        lemma_pn_at_13(rep);
                        assert(spec_match_at(s@, jin as int, spec_switch_name(rep.valves@[2])));
                    }
                }
            }
            return Err(DecodeError::Malformed);
        },
    };
    proof {
        assert(s@.subrange(jin as int, j13 as int) == spec_switch_name(v2v));
        assert forall|rep: PneumaticReport| s@ == spec_pneumatic_encoding(rep) implies rep.valves@[2] == v2v && j13 == pn_off_v2(rep) + spec_switch_name(rep.valves@[2]).len() by {
            lemma_pn_at_13(rep);
            assert(spec_match_at(s@, jin as int, spec_switch_name(rep.valves@[2])));
        }
    }
    let l14 = lit_quote_comma_quote_vec();
    let j14 = match eat_lit(s, j13, &l14) {
        Some(j) => j,
        None => {
            proof {
                assert forall|rep: PneumaticReport| s@ != spec_pneumatic_encoding(rep) by {
                    if s@ == spec_pneumatic_encoding(rep) {
                        lemma_pn_at_14(rep);
                        assert(spec_match_at(s@, j13 as int, lit_quote_comma_quote()));
                    }
                }
            }
            return Err(DecodeError::Malformed);
        },
    };
    proof {
        assert(s@.subrange(jin as int, j14 as int) =~= s@.subrange(jin as int, j13 as int) + s@.subrange(j13 as int, j14 as int));
        assert(s@.subrange(jin as int, j14 as int) == spec_switch_name(v2v) + lit_quote_comma_quote());
        assert forall|rep: PneumaticReport| s@ == spec_pneumatic_encoding(rep) implies j14 == pn_off_v3(rep) by {
            lemma_pn_at_14(rep);
            assert(spec_match_at(s@, j13 as int, lit_quote_comma_quote()));
        }
    }
    Ok((v2v, j14))
}

/// Reads a valve name and its separator.
#[verifier::rlimit(100)]
#[verifier::spinoff_prover]
fn parse_pn_valve_three(s: &[u8], jin: usize) -> (r: Result<(IOState, usize), DecodeError>)
    requires
        jin <= s@.len(),
        forall|rep: PneumaticReport| s@ == spec_pneumatic_encoding(rep) ==> jin == pn_off_v3(rep),
    ensures
        match r {
            Ok((w, j)) => jin <= j <= s@.len() && s@.subrange(jin as int, j as int)
                == spec_switch_name(w) + lit_quote_comma_quote() && (forall|rep: PneumaticReport|
                s@ == spec_pneumatic_encoding(rep) ==> rep.valves@[3] == w && j == pn_off_v4(rep)),
            Err(_) => forall|rep: PneumaticReport| s@ != spec_pneumatic_encoding(rep),
        },
{
    let (v3v, j15) = match parse_switch(s, jin) {
        Some(x) => x,
        None => {
            proof {
                assert forall|rep: PneumaticReport| s@ != spec_pneumatic_encoding(rep) by {
                    if s@ == spec_pneumatic_encoding(rep) {
                        lemma_pn_at_15(rep);
                        assert(spec_match_at(s@, jin as int, spec_switch_name(rep.valves@[3])));
                    }
                }
            }
            return Err(DecodeError::Malformed);
        },
    };
    proof {
        assert(s@.subrange(jin as int, j15 as int) == spec_switch_name(v3v));
        assert forall|rep: PneumaticReport| s@ == spec_pneumatic_encoding(rep) implies rep.valves@[3] == v3v && j15 == pn_off_v3(rep) + spec_switch_name(rep.valves@[3]).len() by {
            lemma_pn_at_15(rep);
            assert(spec_match_at(s@, jin as int, spec_switch_name(rep.valves@[3])));
        }
    }
    let l16 = lit_quote_comma_quote_vec();
    let j16 = match eat_lit(s, j15, &l16) {
        Some(j) => j,
        None => {
            proof {
                assert forall|rep: PneumaticReport| s@ != spec_pneumatic_encoding(rep) by {
                    if s@ == spec_pneumatic_encoding(rep) {
                        lemma_pn_at_16(rep);
                        assert(spec_match_at(s@, j15 as int, lit_quote_comma_quote()));
                    }
                }
            }
            return Err(DecodeError::Malformed);
        },
    };
    proof {
        assert(s@.subrange(jin as int, j16 as int) =~= s@.subrange(jin as int, j15 as int) + s@.subrange(j15 as int, j16 as int));
        assert(s@.subrange(jin as int, j16 as int) == spec_switch_name(v3v) + lit_quote_comma_quote());
        assert forall|rep: PneumaticReport| s@ == spec_pneumatic_encoding(rep) implies j16 == pn_off_v4(rep) by {
            lemma_pn_at_16(rep);
            assert(spec_match_at(s@, j15 as int, lit_quote_comma_quote()));
        }
    }
    Ok((v3v, j16))
}

/// Reads a valve name and its separator.
#[verifier::rlimit(100)]
#[verifier::spinoff_prover]
fn parse_pn_valve_four(s: &[u8], jin: usize) -> (r: Result<(IOState, usize), DecodeError>)
    requires
        jin <= s@.len(),
        forall|rep: PneumaticReport| s@ == spec_pneumatic_encoding(rep) ==> jin == pn_off_v4(rep),
    ensures
        match r {
            Ok((w, j)) => jin <= j <= s@.len() && s@.subrange(jin as int, j as int)
                == spec_switch_name(w) + lit_quote_comma_quote() && (forall|rep: PneumaticReport|
                s@ == spec_pneumatic_encoding(rep) ==> rep.valves@[4] == w && j == pn_off_v5(rep)),
            Err(_) => forall|rep: PneumaticReport| s@ != spec_pneumatic_encoding(rep),
        },
{
    let (v4v, j17) = match parse_switch(s, jin) {
        Some(x) => x,
        None => {
            proof {
                assert forall|rep: PneumaticReport| s@ != spec_pneumatic_encoding(rep) by {
                    if s@ == spec_pneumatic_encoding(rep) {
                        lemma_pn_at_17(rep);
                        assert(spec_match_at(s@, jin as int, spec_switch_name(rep.valves@[4])));
                    }
                }
            }
            return Err(DecodeError::Malformed);
        },
    };
    proof {
        assert(s@.subrange(jin as int, j17 as int) == spec_switch_name(v4v));
        assert forall|rep: PneumaticReport| s@ == spec_pneumatic_encoding(rep) implies rep.valves@[4] == v4v && j17 == pn_off_v4(rep) + spec_switch_name(rep.valves@[4]).len() by {
            lemma_pn_at_17(rep);
            assert(spec_match_at(s@, jin as int, spec_switch_name(rep.valves@[4])));
        }
    }
    let l18 = lit_quote_comma_quote_vec();
    let j18 = match eat_lit(s, j17, &l18) {
        Some(j) => j,
        None => {
            proof {
                assert forall|rep: PneumaticReport| s@ != spec_pneumatic_encoding(rep) by {
                    if s@ == spec_pneumatic_encoding(rep) {
                        lemma_pn_at_18(rep);
                        assert(spec_match_at(s@, j17 as int, lit_quote_comma_quote()));
                    }
                }
            }
            return Err(DecodeError::Malformed);
        },
    };
    proof {
        assert(s@.subrange(jin as int, j18 as int) =~= s@.subrange(jin as int, j17 as int) + s@.subrange(j17 as int, j18 as int));
        assert(s@.subrange(jin as int, j18 as int) == spec_switch_name(v4v) + lit_quote_comma_quote());
        assert forall|rep: PneumaticReport| s@ == spec_pneumatic_encoding(rep) implies j18 == pn_off_v5(rep) by {
            lemma_pn_at_18(rep);
            assert(spec_match_at(s@, j17 as int, lit_quote_comma_quote()));
        }
    }
    Ok((v4v, j18))
}

/// Reads the last valve name.
#[verifier::rlimit(100)]
#[verifier::spinoff_prover]
fn parse_pn_valve_five(s: &[u8], jin: usize) -> (r: Result<(IOState, usize), DecodeError>)
    requires
        jin <= s@.len(),
        forall|rep: PneumaticReport| s@ == spec_pneumatic_encoding(rep) ==> jin == pn_off_v5(rep),
    ensures
        match r {
            Ok((w, j)) => jin <= j <= s@.len() && s@.subrange(jin as int, j as int)
                == spec_switch_name(w) && (forall|rep: PneumaticReport|
                s@ == spec_pneumatic_encoding(rep) ==> rep.valves@[5] == w && j == pn_off_v5(rep) + spec_switch_name(rep.valves@[5]).len()),
            Err(_) => forall|rep: PneumaticReport| s@ != spec_pneumatic_encoding(rep),
        },
{
    let (v5v, j19) = match parse_switch(s, jin) {
        Some(x) => x,
        None => {
            proof {
                assert forall|rep: PneumaticReport| s@ != spec_pneumatic_encoding(rep) by {
                    if s@ == spec_pneumatic_encoding(rep) {
                        lemma_pn_at_19(rep);
                        assert(spec_match_at(s@, jin as int, spec_switch_name(rep.valves@[5])));
                    }
                }
            }
            return Err(DecodeError::Malformed);
        },
    };
    proof {
        assert(s@.subrange(jin as int, j19 as int) == spec_switch_name(v5v));
        assert forall|rep: PneumaticReport| s@ == spec_pneumatic_encoding(rep) implies rep.valves@[5] == v5v && j19 == pn_off_v5(rep) + spec_switch_name(rep.valves@[5]).len() by {
            lemma_pn_at_19(rep);
            assert(spec_match_at(s@, jin as int, spec_switch_name(rep.valves@[5])));
        }
    }
    Ok((v5v, j19))
}

/// Two switch names never share a position: they differ in their second
/// byte.
proof fn lemma_switch_name_det(s: Seq<u8>, i: int, a: IOState, b: IOState)
    requires
        spec_match_at(s, i, spec_switch_name(a)),
        spec_match_at(s, i, spec_switch_name(b)),
    ensures
        a == b,
{
    if a != b {
        lemma_match_at_byte(s, i, spec_switch_name(a), 1);
        lemma_match_at_byte(s, i, spec_switch_name(b), 1);
    }
}

/// Two values never share a canonical decimal at the same position.
proof fn lemma_dec_at_det(s: Seq<u8>, i: int, a: u8, b: u8)
    requires
        spec_dec_at(s, i, a),
        spec_dec_at(s, i, b),
    ensures
        a == b,
{
    lemma_match_at_byte(s, i, spec_dec_u8(a), 0);
    lemma_match_at_byte(s, i, spec_dec_u8(b), 0);
    if a >= 10 {
        lemma_match_at_byte(s, i, spec_dec_u8(a), 1);
    }
    if b >= 10 {
        lemma_match_at_byte(s, i, spec_dec_u8(b), 1);
    }
    if a >= 100 {
        lemma_match_at_byte(s, i, spec_dec_u8(a), 2);
        assert(a == 100 * (a / 100) + 10 * ((a / 10) % 10) + a % 10);
    }
    if b >= 100 {
        lemma_match_at_byte(s, i, spec_dec_u8(b), 2);
        assert(b == 100 * (b / 100) + 10 * ((b / 10) % 10) + b % 10);
    }
}

/// With equal encodings, the pump fields agree.
#[verifier::rlimit(100)]
#[verifier::spinoff_prover]
proof fn lemma_pn_inj_pumps(r1: PneumaticReport, r2: PneumaticReport)
    requires
        spec_pneumatic_encoding(r1) == spec_pneumatic_encoding(r2),
    ensures
        r1.pumps@[0] == r2.pumps@[0],
        r1.pumps@[1] == r2.pumps@[1],
{
    let e = spec_pneumatic_encoding(r1);
    lemma_pn_at_01(r1);
    lemma_pn_at_01(r2);
    lemma_switch_name_det(e, pn_off_p0(), r1.pumps@[0], r2.pumps@[0]);
    lemma_pn_at_03(r1);
    lemma_pn_at_03(r2);
    lemma_switch_name_det(e, pn_off_p1(r1), r1.pumps@[1], r2.pumps@[1]);
}

/// With equal encodings and agreeing pumps, the first intensities agree.
#[verifier::rlimit(100)]
#[verifier::spinoff_prover]
proof fn lemma_pn_inj_intensity_one(r1: PneumaticReport, r2: PneumaticReport)
    requires
        spec_pneumatic_encoding(r1) == spec_pneumatic_encoding(r2),
        r1.pumps@[0] == r2.pumps@[0],
        r1.pumps@[1] == r2.pumps@[1],
    ensures
        r1.pump_intensity@[0] == r2.pump_intensity@[0],
{
    let e = spec_pneumatic_encoding(r1);
    lemma_pn_at_05(r1);
    lemma_pn_at_05(r2);
    lemma_pn_at_06(r1);
    lemma_pn_at_06(r2);
    lemma_match_at_byte(
        e,
        pn_off_i0(r1) + spec_dec_u8(r1.pump_intensity@[0]).len(),
        lit_comma(),
        0,
    );
    lemma_match_at_byte(
        e,
        pn_off_i0(r2) + spec_dec_u8(r2.pump_intensity@[0]).len(),
        lit_comma(),
        0,
    );
    lemma_dec_at_det(e, pn_off_i0(r1), r1.pump_intensity@[0], r2.pump_intensity@[0]);
}

/// With the first intensities agreeing too, the second ones agree as well.
#[verifier::rlimit(100)]
#[verifier::spinoff_prover]
proof fn lemma_pn_inj_intensity_two(r1: PneumaticReport, r2: PneumaticReport)
    requires
        spec_pneumatic_encoding(r1) == spec_pneumatic_encoding(r2),
        r1.pumps@[0] == r2.pumps@[0],
        r1.pumps@[1] == r2.pumps@[1],
        r1.pump_intensity@[0] == r2.pump_intensity@[0],
    ensures
        r1.pump_intensity@[1] == r2.pump_intensity@[1],
{
    let e = spec_pneumatic_encoding(r1);
    lemma_pn_at_07(r1);
    lemma_pn_at_07(r2);
    lemma_pn_at_08(r1);
    lemma_pn_at_08(r2);
    lemma_match_at_byte(
        e,
        pn_off_i1(r1) + spec_dec_u8(r1.pump_intensity@[1]).len(),
        lit_pn_valves(),
        0,
    );
    lemma_match_at_byte(
        e,
        pn_off_i1(r2) + spec_dec_u8(r2.pump_intensity@[1]).len(),
        lit_pn_valves(),
        0,
    );
    lemma_dec_at_det(e, pn_off_i1(r1), r1.pump_intensity@[1], r2.pump_intensity@[1]);
}

/// With equal encodings and agreeing front fields, the valves agree.
#[verifier::rlimit(100)]
#[verifier::spinoff_prover]
proof fn lemma_pn_inj_valves(r1: PneumaticReport, r2: PneumaticReport)
    requires
        spec_pneumatic_encoding(r1) == spec_pneumatic_encoding(r2),
        r1.pumps@[0] == r2.pumps@[0],
        r1.pumps@[1] == r2.pumps@[1],
        r1.pump_intensity@[0] == r2.pump_intensity@[0],
        r1.pump_intensity@[1] == r2.pump_intensity@[1],
    ensures
        forall|k: int| 0 <= k < 6 ==> r1.valves@[k] == r2.valves@[k],
{
    let e = spec_pneumatic_encoding(r1);
    lemma_pn_at_09(r1);
    lemma_pn_at_09(r2);
    lemma_switch_name_det(e, pn_off_v0(r1), r1.valves@[0], r2.valves@[0]);
    lemma_pn_at_11(r1);
    lemma_pn_at_11(r2);
    lemma_switch_name_det(e, pn_off_v1(r1), r1.valves@[1], r2.valves@[1]);
    lemma_pn_at_13(r1);
    lemma_pn_at_13(r2);
    lemma_switch_name_det(e, pn_off_v2(r1), r1.valves@[2], r2.valves@[2]);
    lemma_pn_at_15(r1);
    lemma_pn_at_15(r2);
    lemma_switch_name_det(e, pn_off_v3(r1), r1.valves@[3], r2.valves@[3]);
    lemma_pn_at_17(r1);
    lemma_pn_at_17(r2);
    lemma_switch_name_det(e, pn_off_v4(r1), r1.valves@[4], r2.valves@[4]);
    lemma_pn_at_19(r1);
    lemma_pn_at_19(r2);
    lemma_switch_name_det(e, pn_off_v5(r1), r1.valves@[5], r2.valves@[5]);
}

/// Two distinct pneumatic records never share an encoding, so a decoded
/// record is exactly the one that was encoded.
pub proof fn lemma_pneumatic_encoding_injective(r1: PneumaticReport, r2: PneumaticReport)
    requires
        spec_pneumatic_encoding(r1) == spec_pneumatic_encoding(r2),
    ensures
        r1 == r2,
{
    lemma_pn_inj_pumps(r1, r2);
    lemma_pn_inj_intensity_one(r1, r2);
    lemma_pn_inj_intensity_two(r1, r2);
    lemma_pn_inj_valves(r1, r2);
    assert(r1.pumps =~= r2.pumps);
    assert(r1.pump_intensity =~= r2.pump_intensity);
    assert(r1.valves =~= r2.valves);
}

/// Glues the four front sections of a parsed pneumatic record into one run.
#[verifier::rlimit(100)]
#[verifier::spinoff_prover]
proof fn lemma_pn_glue_front(
    s: Seq<u8>,
    j02: int,
    j04: int,
    j06: int,
    j08: int,
    p0: IOState,
    p1: IOState,
    i0: u8,
    i1: u8,
)
    requires
        0 <= j02 <= j04 <= j06 <= j08 <= s.len(),
        s.subrange(0, j02) == lit_pn_head() + spec_switch_name(p0) + lit_quote_comma_quote(),
        s.subrange(j02, j04) == spec_switch_name(p1) + lit_pn_intensity(),
        s.subrange(j04, j06) == spec_dec_u8(i0) + lit_comma(),
        s.subrange(j06, j08) == spec_dec_u8(i1) + lit_pn_valves(),
    ensures
        s.subrange(0, j08) == lit_pn_head() + spec_switch_name(p0) + lit_quote_comma_quote() + spec_switch_name(p1) + lit_pn_intensity() + spec_dec_u8(i0) + lit_comma() + spec_dec_u8(i1) + lit_pn_valves(),
{
    assert(s.subrange(0, j04) =~= s.subrange(0, j02) + s.subrange(j02, j04));
    assert(s.subrange(0, j04) =~= lit_pn_head() + spec_switch_name(p0) + lit_quote_comma_quote()
        + spec_switch_name(p1) + lit_pn_intensity());
    assert(s.subrange(0, j06) =~= s.subrange(0, j04) + s.subrange(j04, j06));
    assert(s.subrange(0, j06) =~= lit_pn_head() + spec_switch_name(p0) + lit_quote_comma_quote()
        + spec_switch_name(p1) + lit_pn_intensity() + spec_dec_u8(i0) + lit_comma());
    assert(s.subrange(0, j08) =~= s.subrange(0, j06) + s.subrange(j06, j08));
    assert(s.subrange(0, j08) =~= lit_pn_head() + spec_switch_name(p0) + lit_quote_comma_quote() + spec_switch_name(p1) + lit_pn_intensity() + spec_dec_u8(i0) + lit_comma() + spec_dec_u8(i1) + lit_pn_valves());
}

/// Glues the six valve sections of a parsed pneumatic record into one run.
#[verifier::rlimit(100)]
#[verifier::spinoff_prover]
proof fn lemma_pn_glue_valves(
    s: Seq<u8>,
    j08: int,
    j10: int,
    j12: int,
    j14: int,
    j16: int,
    j18: int,
    j19: int,
    v0: IOState,
    v1: IOState,
    v2: IOState,
    v3: IOState,
    v4: IOState,
    v5: IOState,
)
    requires
        0 <= j08 <= j10 <= j12 <= j14 <= j16 <= j18 <= j19 <= s.len(),
        s.subrange(j08, j10) == spec_switch_name(v0) + lit_quote_comma_quote(),
        s.subrange(j10, j12) == spec_switch_name(v1) + lit_quote_comma_quote(),
        s.subrange(j12, j14) == spec_switch_name(v2) + lit_quote_comma_quote(),
        s.subrange(j14, j16) == spec_switch_name(v3) + lit_quote_comma_quote(),
        s.subrange(j16, j18) == spec_switch_name(v4) + lit_quote_comma_quote(),
        s.subrange(j18, j19) == spec_switch_name(v5),
    ensures
        s.subrange(j08, j19) == spec_switch_name(v0) + lit_quote_comma_quote() + spec_switch_name(v1) + lit_quote_comma_quote() + spec_switch_name(v2) + lit_quote_comma_quote() + spec_switch_name(v3) + lit_quote_comma_quote() + spec_switch_name(v4) + lit_quote_comma_quote() + spec_switch_name(v5),
{
    assert(s.subrange(j08, j12) =~= s.subrange(j08, j10) + s.subrange(j10, j12));
    assert(s.subrange(j08, j12) =~= spec_switch_name(v0) + lit_quote_comma_quote()
        + spec_switch_name(v1) + lit_quote_comma_quote());
    assert(s.subrange(j08, j14) =~= s.subrange(j08, j12) + s.subrange(j12, j14));
    assert(s.subrange(j08, j14) =~= spec_switch_name(v0) + lit_quote_comma_quote()
        + spec_switch_name(v1) + lit_quote_comma_quote() + spec_switch_name(v2)
        + lit_quote_comma_quote());
    assert(s.subrange(j08, j16) =~= s.subrange(j08, j14) + s.subrange(j14, j16));
    assert(s.subrange(j08, j16) =~= spec_switch_name(v0) + lit_quote_comma_quote()
        + spec_switch_name(v1) + lit_quote_comma_quote() + spec_switch_name(v2)
        + lit_quote_comma_quote() + spec_switch_name(v3) + lit_quote_comma_quote());
    assert(s.subrange(j08, j18) =~= s.subrange(j08, j16) + s.subrange(j16, j18));
    assert(s.subrange(j08, j18) =~= spec_switch_name(v0) + lit_quote_comma_quote()
        + spec_switch_name(v1) + lit_quote_comma_quote() + spec_switch_name(v2)
        + lit_quote_comma_quote() + spec_switch_name(v3) + lit_quote_comma_quote()
        + spec_switch_name(v4) + lit_quote_comma_quote());
    assert(s.subrange(j08, j19) =~= s.subrange(j08, j18) + s.subrange(j18, j19));
    assert(s.subrange(j08, j19) =~= spec_switch_name(v0) + lit_quote_comma_quote() + spec_switch_name(v1) + lit_quote_comma_quote() + spec_switch_name(v2) + lit_quote_comma_quote() + spec_switch_name(v3) + lit_quote_comma_quote() + spec_switch_name(v4) + lit_quote_comma_quote() + spec_switch_name(v5));
}

/// Reassociates the three runs of a pneumatic record into the flat
/// concatenation that the encoding spec uses.
#[verifier::rlimit(100)]
#[verifier::spinoff_prover]
proof fn lemma_pn_assoc(
    p0: IOState,
    p1: IOState,
    i0: u8,
    i1: u8,
    v0: IOState,
    v1: IOState,
    v2: IOState,
    v3: IOState,
    v4: IOState,
    v5: IOState,
)
    ensures
        (lit_pn_head() + spec_switch_name(p0) + lit_quote_comma_quote() + spec_switch_name(p1) + lit_pn_intensity() + spec_dec_u8(i0) + lit_comma() + spec_dec_u8(i1) + lit_pn_valves()) + (spec_switch_name(v0) + lit_quote_comma_quote() + spec_switch_name(v1) + lit_quote_comma_quote() + spec_switch_name(v2) + lit_quote_comma_quote() + spec_switch_name(v3) + lit_quote_comma_quote() + spec_switch_name(v4) + lit_quote_comma_quote() + spec_switch_name(v5)) + lit_pn_tail() == lit_pn_head() + spec_switch_name(p0) + lit_quote_comma_quote() + spec_switch_name(p1) + lit_pn_intensity() + spec_dec_u8(i0) + lit_comma() + spec_dec_u8(i1) + lit_pn_valves() + spec_switch_name(v0) + lit_quote_comma_quote() + spec_switch_name(v1) + lit_quote_comma_quote() + spec_switch_name(v2) + lit_quote_comma_quote() + spec_switch_name(v3) + lit_quote_comma_quote() + spec_switch_name(v4) + lit_quote_comma_quote() + spec_switch_name(v5) + lit_pn_tail(),
{
    let f = lit_pn_head() + spec_switch_name(p0) + lit_quote_comma_quote() + spec_switch_name(p1) + lit_pn_intensity() + spec_dec_u8(i0) + lit_comma() + spec_dec_u8(i1) + lit_pn_valves();
    lemma_concat_associative(f, spec_switch_name(v0) + lit_quote_comma_quote() + spec_switch_name(v1) + lit_quote_comma_quote() + spec_switch_name(v2) + lit_quote_comma_quote() + spec_switch_name(v3) + lit_quote_comma_quote() + spec_switch_name(v4) + lit_quote_comma_quote(), spec_switch_name(v5));
    lemma_concat_associative(f, spec_switch_name(v0) + lit_quote_comma_quote() + spec_switch_name(v1) + lit_quote_comma_quote() + spec_switch_name(v2) + lit_quote_comma_quote() + spec_switch_name(v3) + lit_quote_comma_quote() + spec_switch_name(v4), lit_quote_comma_quote());
    lemma_concat_associative(f, spec_switch_name(v0) + lit_quote_comma_quote() + spec_switch_name(v1) + lit_quote_comma_quote() + spec_switch_name(v2) + lit_quote_comma_quote() + spec_switch_name(v3) + lit_quote_comma_quote(), spec_switch_name(v4));
    lemma_concat_associative(f, spec_switch_name(v0) + lit_quote_comma_quote() + spec_switch_name(v1) + lit_quote_comma_quote() + spec_switch_name(v2) + lit_quote_comma_quote() + spec_switch_name(v3), lit_quote_comma_quote());
    lemma_concat_associative(f, spec_switch_name(v0) + lit_quote_comma_quote() + spec_switch_name(v1) + lit_quote_comma_quote() + spec_switch_name(v2) + lit_quote_comma_quote(), spec_switch_name(v3));
    lemma_concat_associative(f, spec_switch_name(v0) + lit_quote_comma_quote() + spec_switch_name(v1) + lit_quote_comma_quote() + spec_switch_name(v2), lit_quote_comma_quote());
    lemma_concat_associative(f, spec_switch_name(v0) + lit_quote_comma_quote() + spec_switch_name(v1) + lit_quote_comma_quote(), spec_switch_name(v2));
    lemma_concat_associative(f, spec_switch_name(v0) + lit_quote_comma_quote() + spec_switch_name(v1), lit_quote_comma_quote());
    lemma_concat_associative(f, spec_switch_name(v0) + lit_quote_comma_quote(), spec_switch_name(v1));
    lemma_concat_associative(f, spec_switch_name(v0), lit_quote_comma_quote());
}

/// Glues the three runs of a fully parsed pneumatic record into the flat
/// encoding concatenation.
#[verifier::rlimit(100)]
#[verifier::spinoff_prover]
proof fn lemma_pn_total(
    s: Seq<u8>,
    j08: int,
    j19: int,
    p0: IOState,
    p1: IOState,
    i0: u8,
    i1: u8,
    v0: IOState,
    v1: IOState,
    v2: IOState,
    v3: IOState,
    v4: IOState,
    v5: IOState,
)
    requires
        0 <= j08 <= j19 <= s.len(),
        s.subrange(0, j08) == lit_pn_head() + spec_switch_name(p0) + lit_quote_comma_quote() + spec_switch_name(p1) + lit_pn_intensity() + spec_dec_u8(i0) + lit_comma() + spec_dec_u8(i1) + lit_pn_valves(),
        s.subrange(j08, j19) == spec_switch_name(v0) + lit_quote_comma_quote() + spec_switch_name(v1) + lit_quote_comma_quote() + spec_switch_name(v2) + lit_quote_comma_quote() + spec_switch_name(v3) + lit_quote_comma_quote() + spec_switch_name(v4) + lit_quote_comma_quote() + spec_switch_name(v5),
        s.subrange(j19, s.len() as int) == lit_pn_tail(),
    ensures
        s == lit_pn_head() + spec_switch_name(p0) + lit_quote_comma_quote() + spec_switch_name(p1) + lit_pn_intensity() + spec_dec_u8(i0) + lit_comma() + spec_dec_u8(i1) + lit_pn_valves() + spec_switch_name(v0) + lit_quote_comma_quote() + spec_switch_name(v1) + lit_quote_comma_quote() + spec_switch_name(v2) + lit_quote_comma_quote() + spec_switch_name(v3) + lit_quote_comma_quote() + spec_switch_name(v4) + lit_quote_comma_quote() + spec_switch_name(v5) + lit_pn_tail(),
{
    assert(s =~= s.subrange(0, j08) + s.subrange(j08, j19) + s.subrange(j19, s.len() as int));
    lemma_pn_assoc(p0, p1, i0, i1, v0, v1, v2, v3, v4, v5);
}

/// Decodes an inbound pneumatic payload. Succeeds exactly on the canonical
/// encoding of some pneumatic record, and then returns that record.
#[verifier::rlimit(100)]
#[verifier::spinoff_prover]
pub fn decode_pneumatic(s: &[u8]) -> (r: Result<PneumaticReport, DecodeError>)
    ensures
        r is Ok ==> s@ == spec_pneumatic_encoding(r->Ok_0),
        forall|rep: PneumaticReport| s@ == spec_pneumatic_encoding(rep) ==> r == Ok::<
            PneumaticReport,
            DecodeError,
        >(rep),
{
    let (p0v, j02) = match parse_pn_open(s) {
        Ok(x) => x,
        Err(e) => {
            return Err(e);
        },
    };
    let (p1v, j04) = match parse_pn_pump_two(s, j02) {
        Ok(x) => x,
        Err(e) => {
            return Err(e);
        },
    };
    let (i0v, j06) = match parse_pn_int_one(s, j04) {
        Ok(x) => x,
        Err(e) => {
            return Err(e);
        },
    };
    let (i1v, j08) = match parse_pn_int_two(s, j06) {
        Ok(x) => x,
        Err(e) => {
            return Err(e);
        },
    };
    let (v0v, j10) = match parse_pn_valve_zero(s, j08) {
        Ok(x) => x,
        Err(e) => {
            return Err(e);
        },
    };
    let (v1v, j12) = match parse_pn_valve_one(s, j10) {
        Ok(x) => x,
        Err(e) => {
            return Err(e);
        },
    };
    let (v2v, j14) = match parse_pn_valve_two(s, j12) {
        Ok(x) => x,
        Err(e) => {
            return Err(e);
        },
    };
    let (v3v, j16) = match parse_pn_valve_three(s, j14) {
        Ok(x) => x,
        Err(e) => {
            return Err(e);
        },
    };
    let (v4v, j18) = match parse_pn_valve_four(s, j16) {
        Ok(x) => x,
        Err(e) => {
            return Err(e);
        },
    };
    let (v5v, j19) = match parse_pn_valve_five(s, j18) {
        Ok(x) => x,
        Err(e) => {
            return Err(e);
        },
    };
    let ltail = lit_pn_tail_vec();
    let j20 = match eat_lit(s, j19, &ltail) {
        Some(j) => j,
        None => {
            proof {
                assert forall|rep: PneumaticReport| s@ != spec_pneumatic_encoding(rep) by {
                    if s@ == spec_pneumatic_encoding(rep) {
                        lemma_pn_at_20(rep);
                        assert(spec_match_at(s@, j19 as int, lit_pn_tail()));
                    }
                }
            }
            return Err(DecodeError::Malformed);
        },
    };
    if j20 != s.len() {
        proof {
            assert forall|rep: PneumaticReport| s@ != spec_pneumatic_encoding(rep) by {
                if s@ == spec_pneumatic_encoding(rep) {
                    lemma_pn_len(rep);
                }
            }
        }
        return Err(DecodeError::Malformed);
    }
    let rep = PneumaticReport {
        pumps: [p0v, p1v],
        pump_intensity: [i0v, i1v],
        valves: [v0v, v1v, v2v, v3v, v4v, v5v],
    };
    proof {
        lemma_pn_glue_front(s@, j02 as int, j04 as int, j06 as int, j08 as int, p0v, p1v, i0v, i1v);
        lemma_pn_glue_valves(
            s@,
            j08 as int,
            j10 as int,
            j12 as int,
            j14 as int,
            j16 as int,
            j18 as int,
            j19 as int,
            v0v,
            v1v,
            v2v,
            v3v,
            v4v,
            v5v,
        );
        assert(s@.subrange(j19 as int, s@.len() as int) == lit_pn_tail());
        lemma_pn_total(s@, j08 as int, j19 as int, p0v, p1v, i0v, i1v, v0v, v1v, v2v, v3v, v4v, v5v);
        assert(spec_pneumatic_encoding(rep) == lit_pn_head() + spec_switch_name(p0v) + lit_quote_comma_quote() + spec_switch_name(p1v) + lit_pn_intensity() + spec_dec_u8(i0v) + lit_comma() + spec_dec_u8(i1v) + lit_pn_valves() + spec_switch_name(v0v) + lit_quote_comma_quote() + spec_switch_name(v1v) + lit_quote_comma_quote() + spec_switch_name(v2v) + lit_quote_comma_quote() + spec_switch_name(v3v) + lit_quote_comma_quote() + spec_switch_name(v4v) + lit_quote_comma_quote() + spec_switch_name(v5v) + lit_pn_tail());
        assert(s@ == spec_pneumatic_encoding(rep));
        assert forall|rep2: PneumaticReport| s@ == spec_pneumatic_encoding(rep2) implies rep2
            == rep by {
            assert(rep2.pumps =~= rep.pumps);
            assert(rep2.pump_intensity =~= rep.pump_intensity);
            assert(rep2.valves =~= rep.valves);
        }
    }
    Ok(rep)
}
} // verus!
