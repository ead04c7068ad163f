use ardewino::errors::RunError;
use ardewino::poll::{
    ack_step, await_ack, fetch_indoor_reading, net_probe_step, poll_for_reading, poll_step,
    AckOutcome, AckStep, PollOutcome, PollStep,
};
use ardewino::reading::SensorReading;

fn lines(xs: &[&str]) -> Vec<String> {
    xs.iter().map(|x| x.to_string()).collect()
}

const READING_LINE: &str = "12345,21.50,45.00,1\r\n";

fn the_reading() -> SensorReading {
    SensorReading { device_id: 12345, temperature_centi: 2150, humidity_centi: 4500, led_state: true }
}

#[test]
fn step_returns_reading_immediately() {
    assert_eq!(poll_step(READING_LINE, 0, 1000), PollStep::Success(the_reading()));
    // A decodable line wins even past the timeout.
    assert_eq!(poll_step(READING_LINE, 5000, 1000), PollStep::Success(the_reading()));
}

#[test]
fn step_retries_on_sentinel_and_noise_within_timeout() {
    assert_eq!(poll_step("a\n", 100, 1000), PollStep::Retry);
    assert_eq!(poll_step("", 100, 1000), PollStep::Retry);
    assert_eq!(poll_step("noise", 100, 1000), PollStep::Retry);
}

#[test]
fn step_times_out_strictly_after_the_timeout() {
    assert_eq!(poll_step("a\n", 1000, 1000), PollStep::Retry);
    assert_eq!(poll_step("a\n", 1001, 1000), PollStep::Failed(RunError::DeviceUnresponsive));
}

#[test]
fn step_fails_fast_on_overflowing_device_id() {
    assert_eq!(
        poll_step("99999999999999999999,21.50,45.00,1", 0, 1000),
        PollStep::Failed(RunError::MalformedResponse)
    );
}

#[test]
fn poll_returns_reading_after_sentinel_probes() {
    // Three sentinel answers, then the reading: exactly four probes.
    let script = lines(&["a\n", "a\n", "a\n", READING_LINE]);
    let elapsed = vec![0, 50, 100, 150];
    assert_eq!(
        poll_for_reading(&script, &elapsed, 1000),
        PollOutcome::Reading(the_reading(), 4)
    );
}

#[test]
fn poll_fails_device_unresponsive_once_timeout_exceeded() {
    let script = lines(&["x\n", "x\n", "x\n"]);
    let elapsed = vec![0, 500, 1001];
    assert_eq!(
        poll_for_reading(&script, &elapsed, 1000),
        PollOutcome::Failed(RunError::DeviceUnresponsive, 3)
    );
    // Not before: elapsed equal to the timeout still retries.
    let elapsed = vec![0, 500, 1000];
    assert_eq!(poll_for_reading(&script, &elapsed, 1000), PollOutcome::Pending);
}

#[test]
fn net_probe_classifies_bodies() {
    assert_eq!(net_probe_step(READING_LINE), PollStep::Success(the_reading()));
    assert_eq!(net_probe_step("not yet"), PollStep::Retry);
    assert_eq!(
        net_probe_step("99999999999999999999,21.50,45.00,1"),
        PollStep::Failed(RunError::MalformedResponse)
    );
}

#[test]
fn fetch_retries_invalid_bodies_then_succeeds() {
    let bodies = lines(&["<html>busy</html>", "a", READING_LINE]);
    assert_eq!(fetch_indoor_reading(&bodies, 3), PollOutcome::Reading(the_reading(), 3));
}

#[test]
fn fetch_exhausting_attempts_is_fatal() {
    let bodies = lines(&["junk", "junk", "junk"]);
    assert_eq!(
        fetch_indoor_reading(&bodies, 3),
        PollOutcome::Failed(RunError::MalformedResponse, 3)
    );
}

#[test]
fn ack_accepts_only_the_sentinel() {
    assert_eq!(ack_step("a\r\n", 0, 1000), AckStep::Acked);
    assert_eq!(ack_step(READING_LINE, 0, 1000), AckStep::Retry);
    assert_eq!(ack_step("", 1001, 1000), AckStep::TimedOut);
}

#[test]
fn await_ack_retries_until_sentinel() {
    let script = lines(&["", "x", "a\n"]);
    let elapsed = vec![0, 50, 100];
    assert_eq!(await_ack(&script, &elapsed, 1000), AckOutcome::Acked(3));
}

#[test]
fn await_ack_times_out_as_actuator_error() {
    let script = lines(&["", "", ""]);
    let elapsed = vec![0, 600, 1200];
    assert_eq!(
        await_ack(&script, &elapsed, 1000),
        AckOutcome::Failed(RunError::ActuatorAckTimeout, 3)
    );
}
