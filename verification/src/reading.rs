//! The canonical device reading line and its all-or-nothing codec.
//!
//! A reading line is `<id>,<tt.tt>,<hh.hh>,<led>`: one to twenty decimal
//! digits of device id, a temperature and a humidity each written as two
//! digits, a dot and two digits, and a final `0` or `1` for the actuator
//! state as last observed on the device.

use vstd::prelude::*;

use crate::digits::{
    dec_str, dec_val, digit_char, digit_val, is_digit, is_digit_exec, lemma_dec_str_digits,
    lemma_dec_str_len_u64, lemma_dec_val_dec_str, lemma_digit_char_val, parse_dec_u64,
    push_dec_u64,
};

verus! {

/// One decoded device reading. Temperature and humidity are in hundredths
/// (the line carries exactly two fractional digits), so both lie in
/// `0..=9999`.
#[derive(Clone, Copy, Debug, PartialEq, Eq, Structural)]
pub struct SensorReading {
    pub device_id: u64,
    pub temperature_centi: u16,
    pub humidity_centi: u16,
    pub led_state: bool,
}

impl SensorReading {
    /// The field ranges that the line format can produce.
    pub open spec fn wf(self) -> bool {
        self.temperature_centi <= 9999 && self.humidity_centi <= 9999
    }
}

/// The field of a reading line whose value was out of domain.
#[derive(Clone, Copy, Debug, PartialEq, Eq, Structural)]
pub enum FieldKind {
    DeviceId,
    Temperature,
    Humidity,
    LedState,
}

/// Why a line did not decode: it fails the structural grammar, or it
/// matches the grammar but one field's value is out of domain.
#[derive(Clone, Copy, Debug, PartialEq, Eq, Structural)]
pub enum ValidationError {
    NotMatching,
    FieldParseError(FieldKind),
}

/// Number of device-id digits in a line of length `n` (meaningful only
/// when the line matches the grammar).
pub open spec fn id_len(s: Seq<char>) -> int {
    s.len() - 14
}

/// The structural grammar of a reading line.
pub open spec fn grammar_matches(s: Seq<char>) -> bool {
    let k = id_len(s);
    &&& 15 <= s.len() <= 34
    &&& forall|i: int| 0 <= i < k ==> is_digit(#[trigger] s[i])
    &&& s[k] == ','
    &&& is_digit(s[k + 1]) && is_digit(s[k + 2]) && s[k + 3] == '.' && is_digit(s[k + 4])
        && is_digit(s[k + 5])
    &&& s[k + 6] == ','
    &&& is_digit(s[k + 7]) && is_digit(s[k + 8]) && s[k + 9] == '.' && is_digit(s[k + 10])
        && is_digit(s[k + 11])
    &&& s[k + 12] == ','
    &&& (s[k + 13] == '0' || s[k + 13] == '1')
}

/// Device-id value of a grammar-matching line.
pub open spec fn id_val(s: Seq<char>) -> nat {
    dec_val(s.take(id_len(s)))
}

/// Temperature of a grammar-matching line, in hundredths.
pub open spec fn temp_centi_val(s: Seq<char>) -> nat {
    let k = id_len(s);
    digit_val(s[k + 1]) * 1000 + digit_val(s[k + 2]) * 100 + digit_val(s[k + 4]) * 10 + digit_val(
        s[k + 5],
    )
}

/// Humidity of a grammar-matching line, in hundredths.
pub open spec fn hum_centi_val(s: Seq<char>) -> nat {
    let k = id_len(s);
    digit_val(s[k + 7]) * 1000 + digit_val(s[k + 8]) * 100 + digit_val(s[k + 10]) * 10 + digit_val(
        s[k + 11],
    )
}

/// Actuator state reported by a grammar-matching line.
pub open spec fn led_val(s: Seq<char>) -> bool {
    s[id_len(s) + 13] == '1'
}

/// What decoding a trimmed line yields: decoding is all-or-nothing, and
/// the only field whose domain is narrower than its digit pattern is the
/// device id, which must fit in a `u64`.
pub open spec fn decode_spec(s: Seq<char>) -> Result<SensorReading, ValidationError> {
    if !grammar_matches(s) {
        Err(ValidationError::NotMatching)
    } else if id_val(s) > u64::MAX {
        Err(ValidationError::FieldParseError(FieldKind::DeviceId))
    } else {
        Ok(
            SensorReading {
                device_id: id_val(s) as u64,
                temperature_centi: temp_centi_val(s) as u16,
                humidity_centi: hum_centi_val(s) as u16,
                led_state: led_val(s),
            },
        )
    }
}

/// A centi value below 10000 written as two digits, a dot and two digits.
pub open spec fn centi2_str(v: nat) -> Seq<char> {
    seq![
        digit_char(v / 1000),
        digit_char((v / 100) % 10),
        '.',
        digit_char((v / 10) % 10),
        digit_char(v % 10),
    ]
}

/// The canonical line for a reading.
pub open spec fn encode_spec(r: SensorReading) -> Seq<char> {
    dec_str(r.device_id as nat) + seq![','] + centi2_str(r.temperature_centi as nat) + seq![',']
        + centi2_str(r.humidity_centi as nat) + seq![','] + seq![
        if r.led_state {
            '1'
        } else {
            '0'
        },
    ]
}

/// Structural check of the reading grammar.
pub fn is_valid_data_format(input: &str) -> (b: bool)
    ensures
        b == grammar_matches(input@),
{
    let n = input.unicode_len();
    if n < 15 || n > 34 {
        return false;
    }
    let k = n - 14;
    let mut i: usize = 0;
    while i < k
        invariant
            0 <= i <= k,
            k + 14 == input@.len(),
            k <= 20,
            forall|j: int| 0 <= j < i ==> is_digit(#[trigger] input@[j]),
        decreases k - i,
    {
        if !is_digit_exec(input.get_char(i)) {
            return false;
        }
        i = i + 1;
    }
    is_digit_exec(input.get_char(k + 1)) && is_digit_exec(input.get_char(k + 2)) && is_digit_exec(
        input.get_char(k + 4),
    ) && is_digit_exec(input.get_char(k + 5)) && is_digit_exec(input.get_char(k + 7))
        && is_digit_exec(input.get_char(k + 8)) && is_digit_exec(input.get_char(k + 10))
        && is_digit_exec(input.get_char(k + 11)) && input.get_char(k) == ',' && input.get_char(
        k + 3,
    ) == '.' && input.get_char(k + 6) == ',' && input.get_char(k + 9) == '.' && input.get_char(
        k + 12,
    ) == ',' && (input.get_char(k + 13) == '0' || input.get_char(k + 13) == '1')
}

/// Decode a trimmed line, all-or-nothing.
///
/// Returns `Ok` exactly on the grammar-matching lines whose device id fits
/// in a `u64`; `Err(NotMatching)` exactly on the lines that fail the
/// grammar; `Err(FieldParseError(DeviceId))` exactly on grammar-matching
/// lines whose device id overflows.
pub fn decode_reading(input: &str) -> (r: Result<SensorReading, ValidationError>)
    ensures
        r == decode_spec(input@),
        r is Ok ==> r->Ok_0.wf(),
{
    if !is_valid_data_format(input) {
        return Err(ValidationError::NotMatching);
    }
    let n = input.unicode_len();
    let k = n - 14;
    let mut id_chars: Vec<char> = Vec::new();
    let mut i: usize = 0;
    while i < k
        invariant
            0 <= i <= k,
            k + 14 == input@.len(),
            id_chars@ =~= input@.take(i as int),
        decreases k - i,
    {
        id_chars.push(input.get_char(i));
        proof {
            assert(input@.take(i as int).push(input@[i as int]) =~= input@.take(i + 1));
        }
        i = i + 1;
    }
    let device_id = match parse_dec_u64(&id_chars) {
        Some(v) => v,
        None => {
            return Err(ValidationError::FieldParseError(FieldKind::DeviceId));
        },
    };
    let temperature_centi = read_centi2(input, k + 1);
    let humidity_centi = read_centi2(input, k + 7);
    let led_state = input.get_char(k + 13) == '1';
    Ok(SensorReading { device_id, temperature_centi, humidity_centi, led_state })
}

/// Read a `dd.dd` group starting at `at` as a centi value.
fn read_centi2(input: &str, at: usize) -> (v: u16)
    requires
        at + 5 <= input@.len(),
        at + 5 <= usize::MAX,
        is_digit(input@[at as int]),
        is_digit(input@[at + 1]),
        is_digit(input@[at + 3]),
        is_digit(input@[at + 4]),
    ensures
        v as nat == digit_val(input@[at as int]) * 1000 + digit_val(input@[at + 1]) * 100
            + digit_val(input@[at + 3]) * 10 + digit_val(input@[at + 4]),
        v <= 9999,
{
    let d1 = (input.get_char(at) as u32 - 48) as u16;
    let d2 = (input.get_char(at + 1) as u32 - 48) as u16;
    let d3 = (input.get_char(at + 3) as u32 - 48) as u16;
    let d4 = (input.get_char(at + 4) as u32 - 48) as u16;
    d1 * 1000 + d2 * 100 + d3 * 10 + d4
}

/// Write a centi value below 10000 as `dd.dd` onto `out`.
fn push_centi2(out: &mut Vec<char>, v: u16)
    requires
        v <= 9999,
    ensures
        final(out)@ == old(out)@ + centi2_str(v as nat),
{
    out.push(((v / 1000) as u8 + 48) as char);
    out.push((((v / 100) % 10) as u8 + 48) as char);
    out.push('.');
    out.push((((v / 10) % 10) as u8 + 48) as char);
    out.push(((v % 10) as u8 + 48) as char);
    proof {
        assert(out@ =~= old(out)@ + centi2_str(v as nat));
    }
}

/// Re-encode a reading as its canonical line.
///
/// The device id is written without leading zeros, so decoding the result
/// gives back exactly the reading's four fields.
pub fn encode_reading(r: &SensorReading) -> (out: Vec<char>)
    requires
        r.wf(),
    ensures
        out@ == encode_spec(*r),
{
    let mut out: Vec<char> = Vec::new();
    push_dec_u64(&mut out, r.device_id);
    out.push(',');
    push_centi2(&mut out, r.temperature_centi);
    out.push(',');
    push_centi2(&mut out, r.humidity_centi);
    out.push(',');
    out.push(if r.led_state { '1' } else { '0' });
    proof {
        assert(out@ =~= encode_spec(*r));
    }
    out
}

/// The single-character acknowledgement token: a device that is alive but
/// has no data yet answers with this instead of a reading.
pub open spec fn sentinel() -> Seq<char> {
    seq!['a']
}

/// A trimmed response keeps the poll loop alive: it is non-empty and is
/// either a grammar-matching reading line or the acknowledgement sentinel.
pub fn is_valid_response(response: &str) -> (b: bool)
    ensures
        b == (response@.len() > 0 && (grammar_matches(response@) || response@ == sentinel())),
{
    let n = response.unicode_len();
    if n == 0 {
        return false;
    }
    if n == 1 && response.get_char(0) == 'a' {
        proof {
            assert(response@ =~= sentinel());
        }
        return true;
    }
    proof {
        if response@ == sentinel() {
            assert(response@.len() == 1);
            assert(response@[0] == 'a');
        }
    }
    is_valid_data_format(response)
}

/// Decoding is the inverse of encoding: re-encoding a decoded reading and
/// decoding it again gives back exactly the four fields. Together with the
/// exact contract of `decode_reading`, this says that for every
/// grammar-matching line the decode/encode pair round-trips the fields.
pub proof fn lemma_decode_encode_roundtrip(r: SensorReading)
    requires
        r.wf(),
    ensures
        decode_spec(encode_spec(r)) == Ok::<SensorReading, ValidationError>(r),
{
    let s = encode_spec(r);
    let id = r.device_id as nat;
    let t = r.temperature_centi as nat;
    let h = r.humidity_centi as nat;
    let d = dec_str(id);
    let c1 = centi2_str(t);
    let c2 = centi2_str(h);
    let led = seq![if r.led_state { '1' } else { '0' }];
    lemma_dec_str_digits(id);
    lemma_dec_str_len_u64(r.device_id);
    let k = d.len() as int;
    assert(s.len() == k + 14);
    assert(id_len(s) == k);
    assert forall|i: int| 0 <= i < k implies s[i] == d[i] by {}
    assert(s[k] == ',');
    assert forall|i: int| 0 <= i < 5 implies s[k + 1 + i] == c1[i] by {}
    assert(s[k + 6] == ',');
    assert forall|i: int| 0 <= i < 5 implies s[k + 7 + i] == c2[i] by {}
    assert(s[k + 12] == ',');
    assert(s[k + 13] == led[0]);
    lemma_digit_char_val(t / 1000);
    lemma_digit_char_val((t / 100) % 10);
    lemma_digit_char_val((t / 10) % 10);
    lemma_digit_char_val(t % 10);
    lemma_digit_char_val(h / 1000);
    lemma_digit_char_val((h / 100) % 10);
    lemma_digit_char_val((h / 10) % 10);
    lemma_digit_char_val(h % 10);
    assert(grammar_matches(s));
    assert(s.take(k) =~= d);
    lemma_dec_val_dec_str(id);
    assert(id_val(s) == id);
    assert(temp_centi_val(s) == (t / 1000) * 1000 + ((t / 100) % 10) * 100 + ((t / 10) % 10) * 10
        + t % 10);
    lemma_centi_digits_recompose(t);
    lemma_centi_digits_recompose(h);
    assert(led_val(s) == r.led_state);
}

/// Any reading obtained by decoding lies within the field ranges the line
/// format can produce.
pub proof fn lemma_decode_wf(s: Seq<char>, r: SensorReading)
    requires
        decode_spec(s) == Ok::<SensorReading, ValidationError>(r),
    ensures
        r.wf(),
{
}

/// Every line that decodes as a reading round-trips: re-encoding that
/// reading and decoding again yields exactly the same four fields.
pub proof fn lemma_line_round_trip(s: Seq<char>, r: SensorReading)
    requires
        decode_spec(s) == Ok::<SensorReading, ValidationError>(r),
    ensures
        decode_spec(encode_spec(r)) == Ok::<SensorReading, ValidationError>(r),
{
    lemma_decode_wf(s, r);
    lemma_decode_encode_roundtrip(r);
}

/// A value below 10000 is recovered from its four decimal digits.
proof fn lemma_centi_digits_recompose(v: nat)
    requires
        v <= 9999,
    ensures
        (v / 1000) * 1000 + ((v / 100) % 10) * 100 + ((v / 10) % 10) * 10 + v % 10 == v,
{
    assert((v / 1000) * 1000 + ((v / 100) % 10) * 100 + ((v / 10) % 10) * 10 + v % 10 == v)
        by (nonlinear_arith)
        requires
            v <= 9999,
    {}
}

} // verus!
