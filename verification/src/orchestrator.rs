//! The run's fan-in decisions. The run launches the indoor acquisition and
//! the outdoor fetch concurrently and joins them here; after the decision
//! it launches the report post and the actuator toggle and joins those.
//! Joins are non-cancelling: both branches run to completion, and a
//! failure is only surfaced at the join.

use vstd::prelude::*;

use crate::errors::RunError;
use crate::reading::SensorReading;

verus! {

/// Join the first concurrent phase: the indoor reading and the outdoor
/// dewpoint (in hundredths of a degree).
///
/// The result is `Ok` exactly when both branches succeeded; otherwise the
/// indoor error is reported first, and an outdoor failure is never masked
/// by an indoor success. No decision is derived from a failed join.
pub fn join_indoor_outdoor(
    indoor: Result<SensorReading, RunError>,
    outdoor: Result<i64, RunError>,
) -> (r: Result<(SensorReading, i64), RunError>)
    ensures
        indoor is Err ==> r == Err::<(SensorReading, i64), RunError>(indoor->Err_0),
        indoor is Ok && outdoor is Err ==> r == Err::<(SensorReading, i64), RunError>(
            outdoor->Err_0,
        ),
        indoor is Ok && outdoor is Ok ==> r == Ok::<(SensorReading, i64), RunError>(
            (indoor->Ok_0, outdoor->Ok_0),
        ),
{
    match indoor {
        Err(e) => Err(e),
        Ok(reading) => match outdoor {
            Err(e) => Err(e),
            Ok(dewpoint) => Ok((reading, dewpoint)),
        },
    }
}

/// Join the second concurrent phase: the report post and the actuator
/// toggle. `Ok` exactly when both succeeded; the report's error is
/// reported first.
pub fn join_report_actuate(report: Result<(), RunError>, actuate: Result<(), RunError>) -> (r:
    Result<(), RunError>)
    ensures
        report is Err ==> r == Err::<(), RunError>(report->Err_0),
        report is Ok && actuate is Err ==> r == Err::<(), RunError>(actuate->Err_0),
        report is Ok && actuate is Ok ==> r is Ok,
{
    match report {
        Err(e) => Err(e),
        Ok(()) => actuate,
    }
}

/// Whether the actuator must be commanded at all: only when the requested
/// state differs from the state the device last reported. When the two
/// agree the actuation is skipped entirely.
pub fn should_actuate(open_windows: bool, led_state: bool) -> (r: bool)
    ensures
        r == (open_windows != led_state),
{
    open_windows != led_state
}

/// The single-character actuator command for a decision: the warning
/// light is switched off (`'0'`) when the windows may open, on (`'1'`)
/// when they are to stay closed.
pub fn actuation_command(open_windows: bool) -> (c: char)
    ensures
        c == (if open_windows {
            '0'
        } else {
            '1'
        }),
{
    if open_windows {
        '0'
    } else {
        '1'
    }
}

} // verus!
