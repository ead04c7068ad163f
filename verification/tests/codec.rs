use ardewino::reading::{
    decode_reading, encode_reading, is_valid_data_format, is_valid_response, FieldKind,
    SensorReading, ValidationError,
};
use ardewino::text::trim;

fn reading(device_id: u64, temperature_centi: u16, humidity_centi: u16, led_state: bool) -> SensorReading {
    SensorReading { device_id, temperature_centi, humidity_centi, led_state }
}

#[test]
fn accepts_canonical_line() {
    assert!(is_valid_data_format("12345,21.50,45.00,1"));
    assert!(is_valid_data_format("0,00.00,00.00,0"));
    assert!(is_valid_data_format("00000000000000000007,99.99,99.99,1"));
}

#[test]
fn rejects_malformed_lines() {
    assert!(!is_valid_data_format(""));
    assert!(!is_valid_data_format("a"));
    assert!(!is_valid_data_format("12345,21.5,45.00,1"));
    assert!(!is_valid_data_format("12345,21.50,45.00,2"));
    assert!(!is_valid_data_format("12345,21.50,45.00"));
    assert!(!is_valid_data_format(",21.50,45.00,1"));
    assert!(!is_valid_data_format("123456789012345678901,21.50,45.00,1"));
    assert!(!is_valid_data_format("12345,21.50,45.00,1 "));
    assert!(!is_valid_data_format("12x45,21.50,45.00,1"));
}

#[test]
fn decodes_all_four_fields() {
    let r = decode_reading("12345,21.50,45.00,1").unwrap();
    assert_eq!(r, reading(12345, 2150, 4500, true));
    let r = decode_reading("7,09.26,60.00,0").unwrap();
    assert_eq!(r, reading(7, 926, 6000, false));
}

#[test]
fn decode_classifies_not_matching() {
    assert_eq!(decode_reading("nonsense"), Err(ValidationError::NotMatching));
    assert_eq!(decode_reading("a"), Err(ValidationError::NotMatching));
    assert_eq!(decode_reading(""), Err(ValidationError::NotMatching));
}

#[test]
fn decode_classifies_device_id_overflow() {
    // Twenty nines exceed u64::MAX while still matching the grammar.
    assert_eq!(
        decode_reading("99999999999999999999,21.50,45.00,1"),
        Err(ValidationError::FieldParseError(FieldKind::DeviceId))
    );
    // u64::MAX itself still decodes.
    let r = decode_reading("18446744073709551615,21.50,45.00,1").unwrap();
    assert_eq!(r.device_id, u64::MAX);
}

#[test]
fn decode_then_encode_round_trips_fields() {
    for line in ["12345,21.50,45.00,1", "0,00.00,00.00,0", "18446744073709551615,99.99,99.99,1"] {
        let r = decode_reading(line).unwrap();
        let encoded: String = encode_reading(&r).into_iter().collect();
        assert_eq!(decode_reading(&encoded).unwrap(), r);
        assert_eq!(encoded, line);
    }
}

#[test]
fn encode_drops_leading_zeros_of_device_id_only() {
    let r = decode_reading("007,21.50,45.00,1").unwrap();
    let encoded: String = encode_reading(&r).into_iter().collect();
    assert_eq!(encoded, "7,21.50,45.00,1");
    assert_eq!(decode_reading(&encoded).unwrap(), r);
}

#[test]
fn valid_response_accepts_sentinel_and_readings() {
    assert!(is_valid_response("a"));
    assert!(is_valid_response("12345,21.50,45.00,1"));
    assert!(!is_valid_response(""));
    assert!(!is_valid_response("b"));
    assert!(!is_valid_response("aa"));
    assert!(!is_valid_response("garbage"));
}

#[test]
fn trim_strips_line_endings_and_blanks() {
    assert_eq!(trim("  12345,21.50,45.00,1\r\n"), "12345,21.50,45.00,1");
    assert_eq!(trim("a\n"), "a");
    assert_eq!(trim("\t \r\n"), "");
    assert_eq!(trim("no-ws"), "no-ws");
}
