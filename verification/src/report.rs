//! The report posted to the collector after a run: a JSON object whose
//! numeric fields carry exactly two decimal places.

use vstd::prelude::*;

use crate::decision::DecisionResult;
use crate::digits::{dec_str, digit_char, push_dec_u64};
use crate::reading::SensorReading;

verus! {

/// Bound on the dewpoint figures a report can carry, far beyond any
/// physical value, so that the magnitude arithmetic stays inside `u64`.
pub const REPORT_CENTI_BOUND: i64 = 1_000_000_000_000_000;

/// A centi value as a JSON number: optional minus sign, the integer part
/// without leading zeros, a dot and exactly two fractional digits.
pub open spec fn json_centi_str(v: int) -> Seq<char> {
    let m = if v < 0 {
        -v
    } else {
        v
    };
    (if v < 0 {
        seq!['-']
    } else {
        Seq::<char>::empty()
    }) + dec_str((m / 100) as nat) + seq!['.', digit_char(((m / 10) % 10) as nat), digit_char(
        (m % 10) as nat,
    )]
}

/// The exact report body for one run.
pub open spec fn json_feed_spec(
    reading: SensorReading,
    indoor_dewpoint_centi: int,
    outdoor_dewpoint_centi: int,
    dewpoint_delta_centi: int,
    keep_windows: bool,
    humidity_alert: bool,
) -> Seq<char> {
    "{\"device_id\":\""@ + dec_str(reading.device_id as nat) + "\",\"indoor_temperature\":"@
        + json_centi_str(reading.temperature_centi as int) + ",\"indoor_humidity\":"@
        + json_centi_str(reading.humidity_centi as int) + ",\"indoor_dewpoint\":"@
        + json_centi_str(indoor_dewpoint_centi) + ",\"outdoor_dewpoint\":"@
        + json_centi_str(outdoor_dewpoint_centi) + ",\"dewpoint_delta\":"@
        + json_centi_str(dewpoint_delta_centi) + ",\"keep_windows\":\""@ + (if keep_windows {
        "Open"@
    } else {
        "Closed"@
    }) + "\",\"humidity_alert\":"@ + (if humidity_alert {
        "true"@
    } else {
        "false"@
    }) + "}"@
}

/// Append a literal piece onto the buffer.
fn push_str_chars(out: &mut Vec<char>, s: &str)
    ensures
        final(out)@ == old(out)@ + s@,
{
    let n = s.unicode_len();
    let mut i: usize = 0;
    while i < n
        invariant
            0 <= i <= n,
            n == s@.len(),
            out@ == old(out)@ + s@.take(i as int),
        decreases n - i,
    {
        out.push(s.get_char(i));
        proof {
            assert(s@.take(i as int).push(s@[i as int]) =~= s@.take(i + 1));
        }
        i = i + 1;
    }
    proof {
        assert(s@.take(n as int) =~= s@);
    }
}

/// Append a centi value as a JSON number.
fn push_json_centi(out: &mut Vec<char>, v: i64)
    requires
        -REPORT_CENTI_BOUND <= v <= REPORT_CENTI_BOUND,
    ensures
        final(out)@ == old(out)@ + json_centi_str(v as int),
{
    let m: u64 = if v < 0 {
        out.push('-');
        (-v) as u64
    } else {
        v as u64
    };
    push_dec_u64(out, m / 100);
    out.push('.');
    out.push((((m / 10) % 10) as u8 + 48) as char);
    out.push(((m % 10) as u8 + 48) as char);
    proof {
        assert(out@ =~= old(out)@ + json_centi_str(v as int));
    }
}

/// Serialise one run's outcome as the collector's JSON body.
///
/// Every numeric field carries exactly two decimal places; the windows
/// field reads `"Open"` when the decision is to open them, `"Closed"`
/// otherwise.
pub fn prepare_sensor_feed_json(
    reading: &SensorReading,
    decision: &DecisionResult,
    outdoor_dewpoint_centi: i64,
) -> (r: String)
    requires
        -REPORT_CENTI_BOUND <= decision.indoor_dewpoint_centi <= REPORT_CENTI_BOUND,
        -REPORT_CENTI_BOUND <= decision.dewpoint_delta_centi <= REPORT_CENTI_BOUND,
        -REPORT_CENTI_BOUND <= outdoor_dewpoint_centi <= REPORT_CENTI_BOUND,
    ensures
        r@ == json_feed_spec(
            *reading,
            decision.indoor_dewpoint_centi as int,
            outdoor_dewpoint_centi as int,
            decision.dewpoint_delta_centi as int,
            decision.open_windows,
            decision.humidity_alert,
        ),
{
    let mut out: Vec<char> = Vec::new();
    push_str_chars(&mut out, "{\"device_id\":\"");
    push_dec_u64(&mut out, reading.device_id);
    push_str_chars(&mut out, "\",\"indoor_temperature\":");
    push_json_centi(&mut out, reading.temperature_centi as i64);
    push_str_chars(&mut out, ",\"indoor_humidity\":");
    push_json_centi(&mut out, reading.humidity_centi as i64);
    push_str_chars(&mut out, ",\"indoor_dewpoint\":");
    push_json_centi(&mut out, decision.indoor_dewpoint_centi);
    push_str_chars(&mut out, ",\"outdoor_dewpoint\":");
    push_json_centi(&mut out, outdoor_dewpoint_centi);
    push_str_chars(&mut out, ",\"dewpoint_delta\":");
    push_json_centi(&mut out, decision.dewpoint_delta_centi);
    push_str_chars(&mut out, ",\"keep_windows\":\"");
    push_str_chars(&mut out, if decision.open_windows { "Open" } else { "Closed" });
    push_str_chars(&mut out, "\",\"humidity_alert\":");
    push_str_chars(&mut out, if decision.humidity_alert { "true" } else { "false" });
    push_str_chars(&mut out, "}");
    proof {
        assert(out@ =~= json_feed_spec(
            *reading,
            decision.indoor_dewpoint_centi as int,
            outdoor_dewpoint_centi as int,
            decision.dewpoint_delta_centi as int,
            decision.open_windows,
            decision.humidity_alert,
        ));
    }
    string_from_chars(out)
}

/// Relies on `String`'s `FromIterator` implementation: collecting a
/// sequence of characters yields the string of exactly those characters.
#[verifier::external_body]
fn string_from_chars(v: Vec<char>) -> (r: String)
    ensures
        r@ == v@,
{
    v.into_iter().collect()
}

} // verus!
