//! The ventilation decision: a pure function of the indoor reading and the
//! two dewpoints. Dewpoints are carried in hundredths of a degree, so the
//! boundary cases are exact.

use vstd::prelude::*;

use crate::reading::SensorReading;

verus! {

/// Dewpoints and deltas are physical temperatures; this generous bound (a
/// million degrees, in hundredths) keeps the delta inside `i64`.
pub const DEWPOINT_CENTI_BOUND: i64 = 100_000_000;

/// The outcome of one run's decision.
#[derive(Clone, Copy, Debug, PartialEq, Eq, Structural)]
pub struct DecisionResult {
    /// Indoor dewpoint, hundredths of a degree.
    pub indoor_dewpoint_centi: i64,
    /// Indoor minus outdoor dewpoint, hundredths of a degree.
    pub dewpoint_delta_centi: i64,
    /// Open the windows: the delta is strictly above minus one degree.
    pub open_windows: bool,
    /// The indoor humidity is strictly above sixty percent.
    pub humidity_alert: bool,
}

/// Map an indoor reading and the two dewpoints to the ventilation
/// decision.
///
/// `open_windows` holds exactly when `indoor - outdoor` is strictly
/// greater than -1.00 degrees: a delta of exactly -1.00 keeps the windows
/// closed. `humidity_alert` holds exactly when the humidity is strictly
/// above 60.00 percent: exactly 60.00 raises no alert.
pub fn decide(
    reading: &SensorReading,
    indoor_dewpoint_centi: i64,
    outdoor_dewpoint_centi: i64,
) -> (r: DecisionResult)
    requires
        -DEWPOINT_CENTI_BOUND <= indoor_dewpoint_centi <= DEWPOINT_CENTI_BOUND,
        -DEWPOINT_CENTI_BOUND <= outdoor_dewpoint_centi <= DEWPOINT_CENTI_BOUND,
    ensures
        r.indoor_dewpoint_centi == indoor_dewpoint_centi,
        r.dewpoint_delta_centi == indoor_dewpoint_centi - outdoor_dewpoint_centi,
        r.open_windows == (r.dewpoint_delta_centi > -100),
        r.humidity_alert == (reading.humidity_centi > 6000),
{
    let delta = indoor_dewpoint_centi - outdoor_dewpoint_centi;
    DecisionResult {
        indoor_dewpoint_centi,
        dewpoint_delta_centi: delta,
        open_windows: delta > -100,
        humidity_alert: reading.humidity_centi > 6000,
    }
}

} // verus!
