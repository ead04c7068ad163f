//! The poll/retry protocols that acquire a reading and an actuator
//! acknowledgement.
//!
//! Each protocol is an explicit state machine over probe responses: a step
//! classifies one response and either terminates (a reading, a fatal
//! error, a timeout) or asks for another probe after the retry interval.
//! The step functions and the scripted drivers here are pure, so the
//! protocol can be run and tested against an injected script of responses
//! and clock values; the transport loop merely feeds them.
//!
//! The serial variant is time-bounded: it retries until the elapsed time
//! since the first probe exceeds the timeout. The network variant is
//! attempt-bounded: a fixed number of probes, whose exhaustion is fatal
//! for the run. The asymmetry is deliberate and kept.

use vstd::prelude::*;

use crate::errors::RunError;
use crate::reading::{
    decode_reading, decode_spec, grammar_matches, sentinel, SensorReading, ValidationError,
};
use crate::text::{trim, trim_spec};

verus! {

/// What one probe response means for the reading poll.
#[derive(Clone, Copy, Debug, PartialEq, Eq, Structural)]
pub enum PollStep {
    /// The response decoded as a full reading: return it immediately.
    Success(SensorReading),
    /// The response ends the run: a grammar-matching line whose field
    /// values are out of domain, or an exceeded timeout.
    Failed(RunError),
    /// No data yet: probe again after the retry interval.
    Retry,
}

/// Result of driving a poll protocol over a script of responses, with the
/// number of probe attempts made.
#[derive(Clone, Copy, Debug, PartialEq, Eq, Structural)]
pub enum PollOutcome {
    Reading(SensorReading, usize),
    Failed(RunError, usize),
    /// The script was exhausted while the protocol still wanted to retry.
    Pending,
}

/// One step of the time-bounded (serial) poll: trim the response, return a
/// decoded reading at once, fail on a grammar-matching line with an
/// out-of-domain field, and otherwise retry until the elapsed time
/// strictly exceeds the timeout.
pub open spec fn poll_step_spec(line: Seq<char>, elapsed_ms: u64, timeout_ms: u64) -> PollStep {
    let t = trim_spec(line);
    if decode_spec(t) is Ok {
        PollStep::Success(decode_spec(t)->Ok_0)
    } else if grammar_matches(t) {
        PollStep::Failed(RunError::MalformedResponse)
    } else if elapsed_ms > timeout_ms {
        PollStep::Failed(RunError::DeviceUnresponsive)
    } else {
        PollStep::Retry
    }
}

/// Classify one serial probe response.
pub fn poll_step(line: &str, elapsed_ms: u64, timeout_ms: u64) -> (r: PollStep)
    ensures
        r == poll_step_spec(line@, elapsed_ms, timeout_ms),
{
    let t = trim(line);
    match decode_reading(t) {
        Ok(reading) => PollStep::Success(reading),
        Err(ValidationError::FieldParseError(_)) => PollStep::Failed(RunError::MalformedResponse),
        Err(ValidationError::NotMatching) => {
            if elapsed_ms > timeout_ms {
                PollStep::Failed(RunError::DeviceUnresponsive)
            } else {
                PollStep::Retry
            }
        },
    }
}

/// The views of a script of response lines.
pub open spec fn line_views(lines: Seq<String>) -> Seq<Seq<char>> {
    lines.map_values(|l: String| l@)
}

/// The exact relation between a script and the serial poll's outcome: the
/// protocol terminates at the first decisive step, having made exactly
/// that many probes, and is `Pending` only if every scripted step asked
/// for a retry.
pub open spec fn poll_outcome_ok(
    r: PollOutcome,
    lines: Seq<Seq<char>>,
    elapsed_ms: Seq<u64>,
    timeout_ms: u64,
) -> bool {
    match r {
        PollOutcome::Reading(rd, n) => {
            &&& 1 <= n <= lines.len()
            &&& poll_step_spec(lines[n - 1], elapsed_ms[n - 1], timeout_ms) == PollStep::Success(rd)
            &&& forall|j: int|
                0 <= j < n - 1 ==> poll_step_spec(lines[j], elapsed_ms[j], timeout_ms)
                    == PollStep::Retry
        },
        PollOutcome::Failed(e, n) => {
            &&& 1 <= n <= lines.len()
            &&& poll_step_spec(lines[n - 1], elapsed_ms[n - 1], timeout_ms) == PollStep::Failed(e)
            &&& forall|j: int|
                0 <= j < n - 1 ==> poll_step_spec(lines[j], elapsed_ms[j], timeout_ms)
                    == PollStep::Retry
        },
        PollOutcome::Pending => forall|j: int|
            0 <= j < lines.len() ==> poll_step_spec(lines[j], elapsed_ms[j], timeout_ms)
                == PollStep::Retry,
    }
}

/// Drive the time-bounded poll over a script: `lines[i]` is the response
/// to probe `i+1`, `elapsed_ms[i]` the elapsed wall-clock time when that
/// response is tested. The result is the first decisive step, with the
/// number of probes made.
pub fn poll_for_reading(lines: &Vec<String>, elapsed_ms: &Vec<u64>, timeout_ms: u64) -> (r:
    PollOutcome)
    requires
        lines@.len() == elapsed_ms@.len(),
    ensures
        poll_outcome_ok(r, line_views(lines@), elapsed_ms@, timeout_ms),
{
    let mut i: usize = 0;
    while i < lines.len()
        invariant
            0 <= i <= lines@.len(),
            lines@.len() == elapsed_ms@.len(),
            forall|j: int|
                0 <= j < i ==> poll_step_spec(line_views(lines@)[j], elapsed_ms@[j], timeout_ms)
                    == PollStep::Retry,
        decreases lines@.len() - i,
    {
        let step = poll_step(lines[i].as_str(), elapsed_ms[i], timeout_ms);
        match step {
            PollStep::Success(rd) => {
                return PollOutcome::Reading(rd, i + 1);
            },
            PollStep::Failed(e) => {
                return PollOutcome::Failed(e, i + 1);
            },
            PollStep::Retry => {},
        }
        i = i + 1;
    }
    PollOutcome::Pending
}

/// One step of the attempt-bounded (network) poll: each probe is a full
/// request/response exchange, and "not yet" is a body that fails
/// validation. Time plays no part; the bounded attempt count does.
pub open spec fn net_step_spec(body: Seq<char>) -> PollStep {
    let t = trim_spec(body);
    if decode_spec(t) is Ok {
        PollStep::Success(decode_spec(t)->Ok_0)
    } else if grammar_matches(t) {
        PollStep::Failed(RunError::MalformedResponse)
    } else {
        PollStep::Retry
    }
}

/// Classify one network probe's response body.
pub fn net_probe_step(body: &str) -> (r: PollStep)
    ensures
        r == net_step_spec(body@),
{
    let t = trim(body);
    match decode_reading(t) {
        Ok(reading) => PollStep::Success(reading),
        Err(ValidationError::FieldParseError(_)) => PollStep::Failed(RunError::MalformedResponse),
        Err(ValidationError::NotMatching) => PollStep::Retry,
    }
}

/// The exact relation between a script of response bodies and the
/// attempt-bounded poll's outcome. Exhausting all attempts without a
/// decisive body is fatal for the run, as a malformed response; it is
/// reported after exactly `max` probes.
pub open spec fn net_outcome_ok(r: PollOutcome, bodies: Seq<Seq<char>>, max: int) -> bool {
    match r {
        PollOutcome::Reading(rd, n) => {
            &&& 1 <= n <= max
            &&& net_step_spec(bodies[n - 1]) == PollStep::Success(rd)
            &&& forall|j: int| 0 <= j < n - 1 ==> net_step_spec(#[trigger] bodies[j]) == PollStep::Retry
        },
        PollOutcome::Failed(e, n) => {
            ||| {
                &&& 1 <= n <= max
                &&& net_step_spec(bodies[n - 1]) == PollStep::Failed(e)
                &&& forall|j: int|
                    0 <= j < n - 1 ==> net_step_spec(#[trigger] bodies[j]) == PollStep::Retry
            }
            ||| {
                &&& e == RunError::MalformedResponse
                &&& n == max
                &&& forall|j: int| 0 <= j < max ==> net_step_spec(#[trigger] bodies[j]) == PollStep::Retry
            }
        },
        PollOutcome::Pending => false,
    }
}

/// Drive the attempt-bounded poll over a script of response bodies:
/// `bodies[i]` answers probe `i+1`. At most `max_attempts` probes are
/// made, each separated by the fixed backoff; the script supplies one
/// body per possible attempt.
pub fn fetch_indoor_reading(bodies: &Vec<String>, max_attempts: usize) -> (r: PollOutcome)
    requires
        bodies@.len() >= max_attempts,
    ensures
        net_outcome_ok(r, line_views(bodies@), max_attempts as int),
{
    let mut i: usize = 0;
    while i < max_attempts
        invariant
            0 <= i <= max_attempts,
            bodies@.len() >= max_attempts,
            forall|j: int|
                0 <= j < i ==> net_step_spec(#[trigger] line_views(bodies@)[j]) == PollStep::Retry,
        decreases max_attempts - i,
    {
        let step = net_probe_step(bodies[i].as_str());
        match step {
            PollStep::Success(rd) => {
                return PollOutcome::Reading(rd, i + 1);
            },
            PollStep::Failed(e) => {
                return PollOutcome::Failed(e, i + 1);
            },
            PollStep::Retry => {},
        }
        i = i + 1;
    }
    PollOutcome::Failed(RunError::MalformedResponse, max_attempts)
}

/// What one probe response means while awaiting an actuator
/// acknowledgement: the same probe/validate/retry discipline as the
/// reading poll, restricted to the acknowledgement sentinel.
#[derive(Clone, Copy, Debug, PartialEq, Eq, Structural)]
pub enum AckStep {
    Acked,
    TimedOut,
    Retry,
}

pub open spec fn ack_step_spec(line: Seq<char>, elapsed_ms: u64, timeout_ms: u64) -> AckStep {
    if trim_spec(line) == sentinel() {
        AckStep::Acked
    } else if elapsed_ms > timeout_ms {
        AckStep::TimedOut
    } else {
        AckStep::Retry
    }
}

/// Classify one response while awaiting an acknowledgement.
pub fn ack_step(line: &str, elapsed_ms: u64, timeout_ms: u64) -> (r: AckStep)
    ensures
        r == ack_step_spec(line@, elapsed_ms, timeout_ms),
{
    let t = trim(line);
    let n = t.unicode_len();
    if n == 1 && t.get_char(0) == 'a' {
        proof {
            assert(t@ =~= sentinel());
        }
        return AckStep::Acked;
    }
    proof {
        if t@ == sentinel() {
            assert(t@.len() == 1);
            assert(t@[0] == 'a');
        }
    }
    if elapsed_ms > timeout_ms {
        AckStep::TimedOut
    } else {
        AckStep::Retry
    }
}

/// Result of awaiting an acknowledgement over a script.
#[derive(Clone, Copy, Debug, PartialEq, Eq, Structural)]
pub enum AckOutcome {
    Acked(usize),
    Failed(RunError, usize),
    Pending,
}

/// The exact relation between a script and the acknowledgement wait's
/// outcome. A timeout does not guarantee the physical actuator kept its
/// old state: it surfaces as `ActuatorAckTimeout` to the caller, never as
/// a silent no-op.
pub open spec fn ack_outcome_ok(
    r: AckOutcome,
    lines: Seq<Seq<char>>,
    elapsed_ms: Seq<u64>,
    timeout_ms: u64,
) -> bool {
    match r {
        AckOutcome::Acked(n) => {
            &&& 1 <= n <= lines.len()
            &&& ack_step_spec(lines[n - 1], elapsed_ms[n - 1], timeout_ms) == AckStep::Acked
            &&& forall|j: int|
                0 <= j < n - 1 ==> ack_step_spec(lines[j], elapsed_ms[j], timeout_ms)
                    == AckStep::Retry
        },
        AckOutcome::Failed(e, n) => {
            &&& e == RunError::ActuatorAckTimeout
            &&& 1 <= n <= lines.len()
            &&& ack_step_spec(lines[n - 1], elapsed_ms[n - 1], timeout_ms) == AckStep::TimedOut
            &&& forall|j: int|
                0 <= j < n - 1 ==> ack_step_spec(lines[j], elapsed_ms[j], timeout_ms)
                    == AckStep::Retry
        },
        AckOutcome::Pending => forall|j: int|
            0 <= j < lines.len() ==> ack_step_spec(lines[j], elapsed_ms[j], timeout_ms)
                == AckStep::Retry,
    }
}

/// Await the acknowledgement sentinel over a script of responses, under
/// the same bounded-timeout discipline as the reading poll.
pub fn await_ack(lines: &Vec<String>, elapsed_ms: &Vec<u64>, timeout_ms: u64) -> (r: AckOutcome)
    requires
        lines@.len() == elapsed_ms@.len(),
    ensures
        ack_outcome_ok(r, line_views(lines@), elapsed_ms@, timeout_ms),
{
    let mut i: usize = 0;
    while i < lines.len()
        invariant
            0 <= i <= lines@.len(),
            lines@.len() == elapsed_ms@.len(),
            forall|j: int|
                0 <= j < i ==> ack_step_spec(line_views(lines@)[j], elapsed_ms@[j], timeout_ms)
                    == AckStep::Retry,
        decreases lines@.len() - i,
    {
        let step = ack_step(lines[i].as_str(), elapsed_ms[i], timeout_ms);
        match step {
            AckStep::Acked => {
                return AckOutcome::Acked(i + 1);
            },
            AckStep::TimedOut => {
                return AckOutcome::Failed(RunError::ActuatorAckTimeout, i + 1);
            },
            AckStep::Retry => {},
        }
        i = i + 1;
    }
    AckOutcome::Pending
}

/// A line that fails the grammar and is not the acknowledgement sentinel
/// is classified invalid by the validator, and the poll loop neither
/// succeeds nor terminates early on that line alone: within the timeout it
/// simply retries, and beyond the timeout the failure is the timeout's,
/// never the line's.
pub proof fn lemma_invalid_line_keeps_polling(line: Seq<char>, elapsed_ms: u64, timeout_ms: u64)
    requires
        !grammar_matches(trim_spec(line)),
        trim_spec(line) != sentinel(),
    ensures
        decode_spec(trim_spec(line)) == Err::<SensorReading, ValidationError>(
            ValidationError::NotMatching,
        ),
        elapsed_ms <= timeout_ms ==> poll_step_spec(line, elapsed_ms, timeout_ms)
            == PollStep::Retry,
        elapsed_ms > timeout_ms ==> poll_step_spec(line, elapsed_ms, timeout_ms)
            == PollStep::Failed(RunError::DeviceUnresponsive),
{
}

/// The sentinel keeps the poll alive: it never matches the grammar, so
/// within the timeout the step after a sentinel is a retry.
pub proof fn lemma_sentinel_retries(line: Seq<char>, elapsed_ms: u64, timeout_ms: u64)
    requires
        trim_spec(line) == sentinel(),
        elapsed_ms <= timeout_ms,
    ensures
        poll_step_spec(line, elapsed_ms, timeout_ms) == PollStep::Retry,
{
    assert(trim_spec(line).len() == 1);
}

/// A scripted channel that answers the first `n` probes with the sentinel
/// (within the timeout) and the next probe with a line that decodes as a
/// reading makes the poll return exactly that reading after exactly `n+1`
/// probes — whatever outcome the driver reports, it can only be that one.
pub proof fn lemma_poll_sentinel_then_reading(
    r: PollOutcome,
    lines: Seq<Seq<char>>,
    elapsed_ms: Seq<u64>,
    timeout_ms: u64,
    n: int,
    rd: SensorReading,
)
    requires
        poll_outcome_ok(r, lines, elapsed_ms, timeout_ms),
        lines.len() == elapsed_ms.len(),
        0 <= n < lines.len(),
        forall|j: int| 0 <= j < n ==> trim_spec(#[trigger] lines[j]) == sentinel(),
        forall|j: int| 0 <= j < n ==> elapsed_ms[j] <= timeout_ms,
        decode_spec(trim_spec(lines[n])) == Ok::<SensorReading, ValidationError>(rd),
    ensures
        r == PollOutcome::Reading(rd, (n + 1) as usize),
{
    assert forall|j: int| 0 <= j < n implies poll_step_spec(lines[j], elapsed_ms[j], timeout_ms)
        == PollStep::Retry by {
        lemma_sentinel_retries(lines[j], elapsed_ms[j], timeout_ms);
    }
    assert(poll_step_spec(lines[n], elapsed_ms[n], timeout_ms) == PollStep::Success(rd));
    match r {
        PollOutcome::Reading(rd2, m) => {
            if m - 1 < n {
                assert(poll_step_spec(lines[m - 1], elapsed_ms[m - 1], timeout_ms)
                    == PollStep::Retry);
            } else if m - 1 > n {
                assert(poll_step_spec(lines[n], elapsed_ms[n], timeout_ms) == PollStep::Retry);
            }
            assert(m - 1 == n);
        },
        PollOutcome::Failed(e, m) => {
            if m - 1 < n {
                assert(poll_step_spec(lines[m - 1], elapsed_ms[m - 1], timeout_ms)
                    == PollStep::Retry);
            } else if m - 1 > n {
                assert(poll_step_spec(lines[n], elapsed_ms[n], timeout_ms) == PollStep::Retry);
            }
            assert(false);
        },
        PollOutcome::Pending => {
            assert(poll_step_spec(lines[n], elapsed_ms[n], timeout_ms) == PollStep::Retry);
            assert(false);
        },
    }
}

/// A scripted channel that never produces a grammar-matching line makes
/// the poll fail with `DeviceUnresponsive` at the first probe whose
/// elapsed time strictly exceeds the timeout — never before.
pub proof fn lemma_poll_never_valid_times_out(
    r: PollOutcome,
    lines: Seq<Seq<char>>,
    elapsed_ms: Seq<u64>,
    timeout_ms: u64,
    n: int,
)
    requires
        poll_outcome_ok(r, lines, elapsed_ms, timeout_ms),
        lines.len() == elapsed_ms.len(),
        0 <= n < lines.len(),
        forall|j: int| 0 <= j <= n ==> !grammar_matches(trim_spec(#[trigger] lines[j])),
        forall|j: int| 0 <= j < n ==> elapsed_ms[j] <= timeout_ms,
        elapsed_ms[n] > timeout_ms,
    ensures
        r == PollOutcome::Failed(RunError::DeviceUnresponsive, (n + 1) as usize),
{
    assert forall|j: int| 0 <= j < n implies poll_step_spec(lines[j], elapsed_ms[j], timeout_ms)
        == PollStep::Retry by {}
    assert(poll_step_spec(lines[n], elapsed_ms[n], timeout_ms) == PollStep::Failed(
        RunError::DeviceUnresponsive,
    ));
    match r {
        PollOutcome::Reading(rd2, m) => {
            if m - 1 < n {
                assert(poll_step_spec(lines[m - 1], elapsed_ms[m - 1], timeout_ms)
                    == PollStep::Retry);
            } else if m - 1 > n {
                assert(poll_step_spec(lines[n], elapsed_ms[n], timeout_ms) == PollStep::Retry);
            }
            assert(false);
        },
        PollOutcome::Failed(e, m) => {
            if m - 1 < n {
                assert(poll_step_spec(lines[m - 1], elapsed_ms[m - 1], timeout_ms)
                    == PollStep::Retry);
            } else if m - 1 > n {
                assert(poll_step_spec(lines[n], elapsed_ms[n], timeout_ms) == PollStep::Retry);
            }
            assert(m - 1 == n);
        },
        PollOutcome::Pending => {
            assert(poll_step_spec(lines[n], elapsed_ms[n], timeout_ms) == PollStep::Retry);
            assert(false);
        },
    }
}

} // verus!
