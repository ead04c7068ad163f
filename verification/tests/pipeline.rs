use ardewino::decision::{decide, DecisionResult};
use ardewino::errors::RunError;
use ardewino::orchestrator::{
    actuation_command, join_indoor_outdoor, join_report_actuate, should_actuate,
};
use ardewino::outdoor::parse_dewpoint_centi;
use ardewino::reading::SensorReading;
use ardewino::report::prepare_sensor_feed_json;

fn reading(temperature_centi: u16, humidity_centi: u16, led_state: bool) -> SensorReading {
    SensorReading { device_id: 12345, temperature_centi, humidity_centi, led_state }
}

#[test]
fn open_windows_iff_delta_above_minus_one_degree() {
    let r = reading(2000, 5000, false);
    // Delta exactly -1.00: keep closed.
    assert!(!decide(&r, 900, 1000).open_windows);
    // Delta just above -1.00: open.
    assert!(decide(&r, 901, 1000).open_windows);
    assert!(decide(&r, 1000, 1000).open_windows);
    assert!(!decide(&r, 800, 1000).open_windows);
}

#[test]
fn humidity_alert_iff_strictly_above_sixty_percent() {
    assert!(!decide(&reading(2000, 6000, false), 0, 0).humidity_alert);
    assert!(decide(&reading(2000, 6001, false), 0, 0).humidity_alert);
    assert!(!decide(&reading(2000, 5999, false), 0, 0).humidity_alert);
}

#[test]
fn decision_carries_the_delta() {
    let d = decide(&reading(2000, 5000, false), 926, 1051);
    assert_eq!(d.indoor_dewpoint_centi, 926);
    assert_eq!(d.dewpoint_delta_centi, -125);
    assert!(!d.open_windows);
}

#[test]
fn parse_dewpoint_reads_bare_decimal_numbers() {
    assert_eq!(parse_dewpoint_centi("9.26"), Ok(926));
    assert_eq!(parse_dewpoint_centi("9.26\n"), Ok(926));
    assert_eq!(parse_dewpoint_centi("12"), Ok(1200));
    assert_eq!(parse_dewpoint_centi("-1.5"), Ok(-150));
    assert_eq!(parse_dewpoint_centi("+3.1"), Ok(310));
    assert_eq!(parse_dewpoint_centi("0.0"), Ok(0));
}

#[test]
fn parse_dewpoint_rounds_half_away_from_zero_at_hundredths() {
    assert_eq!(parse_dewpoint_centi("9.2649"), Ok(926));
    assert_eq!(parse_dewpoint_centi("9.265"), Ok(927));
    assert_eq!(parse_dewpoint_centi("-9.265"), Ok(-927));
    assert_eq!(parse_dewpoint_centi("1.999"), Ok(200));
}

#[test]
fn parse_dewpoint_rejects_malformed_bodies() {
    for body in ["", "abc", "1.2.3", ".5", "5.", "-", "1e3", "12,5", "  ", "999999999999"] {
        assert_eq!(parse_dewpoint_centi(body), Err(RunError::MalformedResponse), "{body}");
    }
}

#[test]
fn join_reports_outdoor_failure_without_deciding() {
    let indoor = Ok(reading(2150, 4500, true));
    let outdoor: Result<i64, RunError> = Err(RunError::RemoteUnreachable);
    // The indoor success does not mask the outdoor failure; no decision
    // is derived from a failed join.
    assert_eq!(join_indoor_outdoor(indoor, outdoor), Err(RunError::RemoteUnreachable));
}

#[test]
fn join_prefers_the_indoor_error_and_passes_both_successes() {
    let r = reading(2150, 4500, true);
    assert_eq!(
        join_indoor_outdoor(Err(RunError::DeviceUnresponsive), Err(RunError::RemoteUnreachable)),
        Err(RunError::DeviceUnresponsive)
    );
    assert_eq!(join_indoor_outdoor(Ok(r), Ok(926)), Ok((r, 926)));
}

#[test]
fn second_join_propagates_either_failure() {
    assert_eq!(join_report_actuate(Ok(()), Ok(())), Ok(()));
    assert_eq!(
        join_report_actuate(Err(RunError::RemoteUnreachable), Ok(())),
        Err(RunError::RemoteUnreachable)
    );
    assert_eq!(
        join_report_actuate(Ok(()), Err(RunError::ActuatorAckTimeout)),
        Err(RunError::ActuatorAckTimeout)
    );
}

#[test]
fn actuation_skipped_when_state_already_matches() {
    assert!(!should_actuate(true, true));
    assert!(!should_actuate(false, false));
    assert!(should_actuate(true, false));
    assert!(should_actuate(false, true));
}

#[test]
fn actuation_command_turns_light_off_to_open_windows() {
    assert_eq!(actuation_command(true), '0');
    assert_eq!(actuation_command(false), '1');
}

#[test]
fn report_body_is_exact_json() {
    let r = reading(2150, 4500, true);
    let d = DecisionResult {
        indoor_dewpoint_centi: 926,
        dewpoint_delta_centi: -125,
        open_windows: false,
        humidity_alert: false,
    };
    let body = prepare_sensor_feed_json(&r, &d, 1051);
    assert_eq!(
        body,
        "{\"device_id\":\"12345\",\"indoor_temperature\":21.50,\
         \"indoor_humidity\":45.00,\"indoor_dewpoint\":9.26,\
         \"outdoor_dewpoint\":10.51,\"dewpoint_delta\":-1.25,\
         \"keep_windows\":\"Closed\",\"humidity_alert\":false}"
    );
}

#[test]
fn report_body_marks_open_windows_and_alert() {
    let r = reading(2850, 7025, false);
    let d = DecisionResult {
        indoor_dewpoint_centi: 2275,
        dewpoint_delta_centi: 150,
        open_windows: true,
        humidity_alert: true,
    };
    let body = prepare_sensor_feed_json(&r, &d, 2125);
    assert_eq!(
        body,
        "{\"device_id\":\"12345\",\"indoor_temperature\":28.50,\
         \"indoor_humidity\":70.25,\"indoor_dewpoint\":22.75,\
         \"outdoor_dewpoint\":21.25,\"dewpoint_delta\":1.50,\
         \"keep_windows\":\"Open\",\"humidity_alert\":true}"
    );
}

#[test]
fn report_json_parses_as_json() {
    let r = reading(2150, 4500, true);
    let d = DecisionResult {
        indoor_dewpoint_centi: 926,
        dewpoint_delta_centi: -125,
        open_windows: true,
        humidity_alert: false,
    };
    let body = prepare_sensor_feed_json(&r, &d, 1051);
    let v: serde_json::Value = serde_json::from_str(&body).unwrap();
    assert_eq!(v["device_id"].as_str().unwrap(), "12345");
    assert_eq!(v["keep_windows"].as_str().unwrap(), "Open");
    assert_eq!(v["indoor_dewpoint"].as_f64().unwrap(), 9.26);
    assert_eq!(v["humidity_alert"].as_bool().unwrap(), false);
}

#[test]
fn errors_describe_themselves() {
    assert_eq!(RunError::DeviceUnresponsive.describe(), "device unresponsive");
    assert_eq!(RunError::RemoteUnreachable.describe(), "remote endpoint unreachable");
    assert_eq!(RunError::MalformedResponse.describe(), "malformed remote response");
    assert_eq!(RunError::ActuatorAckTimeout.describe(), "actuator did not acknowledge");
    assert_eq!(RunError::ConfigurationMissing.describe(), "required configuration missing");
}
