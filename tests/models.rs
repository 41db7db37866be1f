use greenhouse_ingest::decimal::Decimal;
use greenhouse_ingest::message::{ParseError, TelemetryMessage};

fn decode(json: &str) -> Result<TelemetryMessage, ParseError> {
    TelemetryMessage::from_payload_now(json.as_bytes())
}

fn value(d: &Decimal) -> f64 {
    let scale = 10f64.powi(d.exponent.abs());
    let v = if d.exponent >= 0 { d.mantissa as f64 * scale } else { d.mantissa as f64 / scale };
    if d.negative { -v } else { v }
}

#[test]
fn test_valid_telemetry_message() {
    let json = r#"{
        "device_id": "550e8400-e29b-41d4-a716-446655440000",
        "timestamp": 1699459200,
        "sequence": 1699459200000,
        "temperature": 22.5,
        "humidity": 65.0,
        "light": 350.0,
        "light_intensity": 75.0,
        "tank_level": true,
        "irrigated_since_last_transmission": false,
        "lights_are_on": true,
        "pump_on": false
    }"#;

    let msg = decode(json).unwrap();
    assert_eq!(value(&msg.temperature), 22.5);
    assert_eq!(value(&msg.humidity), 65.0);
    assert_eq!(value(&msg.light), 350.0);
    assert_eq!(msg.sequence, 1699459200000);
    assert!(msg.validate().is_ok());
}

#[test]
fn test_optional_fields_missing() {
    let json = r#"{
        "device_id": "550e8400-e29b-41d4-a716-446655440000",
        "timestamp": 1699459200,
        "sequence": 1,
        "temperature": 22.5,
        "humidity": 65.0,
        "light": 350.0,
        "tank_level": true,
        "lights_are_on": true
    }"#;

    let msg = decode(json).unwrap();
    assert_eq!(msg.light_intensity, None);
    assert_eq!(msg.irrigated_since_last_transmission, false);
    assert_eq!(msg.pump_on, false);
}

#[test]
fn test_temperature_at_lower_limit() {
    let json = r#"{
        "device_id": "550e8400-e29b-41d4-a716-446655440000",
        "timestamp": 1699459200,
        "sequence": 1,
        "temperature": -50.0,
        "humidity": 50.0,
        "light": 100.0,
        "tank_level": true,
        "lights_are_on": false
    }"#;

    let msg = decode(json).unwrap();
    assert!(msg.validate().is_ok());
}

#[test]
fn test_temperature_at_upper_limit() {
    let json = r#"{
        "device_id": "550e8400-e29b-41d4-a716-446655440000",
        "timestamp": 1699459200,
        "sequence": 1,
        "temperature": 100.0,
        "humidity": 50.0,
        "light": 100.0,
        "tank_level": true,
        "lights_are_on": false
    }"#;

    let msg = decode(json).unwrap();
    assert!(msg.validate().is_ok());
}

#[test]
fn test_temperature_below_limit() {
    let json = r#"{
        "device_id": "550e8400-e29b-41d4-a716-446655440000",
        "timestamp": 1699459200,
        "sequence": 1,
        "temperature": -50.1,
        "humidity": 50.0,
        "light": 100.0,
        "tank_level": true,
        "lights_are_on": false
    }"#;

    let msg = decode(json).unwrap();
    assert!(msg.validate().is_err());
    assert!(msg.validate().unwrap_err().message().contains("Temperature out of range"));
}

#[test]
fn test_temperature_above_limit() {
    let json = r#"{
        "device_id": "550e8400-e29b-41d4-a716-446655440000",
        "timestamp": 1699459200,
        "sequence": 1,
        "temperature": 100.1,
        "humidity": 50.0,
        "light": 100.0,
        "tank_level": true,
        "lights_are_on": false
    }"#;

    let msg = decode(json).unwrap();
    assert!(msg.validate().is_err());
}

#[test]
fn test_temperature_extreme_values() {
    let json = r#"{
        "device_id": "550e8400-e29b-41d4-a716-446655440000",
        "timestamp": 1699459200,
        "sequence": 1,
        "temperature": 999999.0,
        "humidity": 50.0,
        "light": 100.0,
        "tank_level": true,
        "lights_are_on": false
    }"#;

    let msg = decode(json).unwrap();
    assert!(msg.validate().is_err());
}

#[test]
fn test_humidity_at_limits() {
    let json_0 = r#"{
        "device_id": "550e8400-e29b-41d4-a716-446655440000",
        "timestamp": 1699459200,
        "sequence": 1,
        "temperature": 20.0,
        "humidity": 0.0,
        "light": 100.0,
        "tank_level": true,
        "lights_are_on": false
    }"#;

    let msg = decode(json_0).unwrap();
    assert!(msg.validate().is_ok());

    let json_100 = r#"{
        "device_id": "550e8400-e29b-41d4-a716-446655440000",
        "timestamp": 1699459200,
        "sequence": 1,
        "temperature": 20.0,
        "humidity": 100.0,
        "light": 100.0,
        "tank_level": true,
        "lights_are_on": false
    }"#;

    let msg = decode(json_100).unwrap();
    assert!(msg.validate().is_ok());
}

#[test]
fn test_humidity_negative() {
    let json = r#"{
        "device_id": "550e8400-e29b-41d4-a716-446655440000",
        "timestamp": 1699459200,
        "sequence": 1,
        "temperature": 20.0,
        "humidity": -0.1,
        "light": 100.0,
        "tank_level": true,
        "lights_are_on": false
    }"#;

    let msg = decode(json).unwrap();
    assert!(msg.validate().is_err());
    assert!(msg.validate().unwrap_err().message().contains("Humidity out of range"));
}

#[test]
fn test_humidity_above_100() {
    let json = r#"{
        "device_id": "550e8400-e29b-41d4-a716-446655440000",
        "timestamp": 1699459200,
        "sequence": 1,
        "temperature": 20.0,
        "humidity": 100.1,
        "light": 100.0,
        "tank_level": true,
        "lights_are_on": false
    }"#;

    let msg = decode(json).unwrap();
    assert!(msg.validate().is_err());
}

#[test]
fn test_light_at_limits() {
    let json_0 = r#"{
        "device_id": "550e8400-e29b-41d4-a716-446655440000",
        "timestamp": 1699459200,
        "sequence": 1,
        "temperature": 20.0,
        "humidity": 50.0,
        "light": 0.0,
        "tank_level": true,
        "lights_are_on": false
    }"#;

    let msg = decode(json_0).unwrap();
    assert!(msg.validate().is_ok());

    let json_max = r#"{
        "device_id": "550e8400-e29b-41d4-a716-446655440000",
        "timestamp": 1699459200,
        "sequence": 1,
        "temperature": 20.0,
        "humidity": 50.0,
        "light": 100000.0,
        "tank_level": true,
        "lights_are_on": false
    }"#;

    let msg = decode(json_max).unwrap();
    assert!(msg.validate().is_ok());
}

#[test]
fn test_light_negative() {
    let json = r#"{
        "device_id": "550e8400-e29b-41d4-a716-446655440000",
        "timestamp": 1699459200,
        "sequence": 1,
        "temperature": 20.0,
        "humidity": 50.0,
        "light": -1.0,
        "tank_level": true,
        "lights_are_on": false
    }"#;

    let msg = decode(json).unwrap();
    assert!(msg.validate().is_err());
    assert!(msg.validate().unwrap_err().message().contains("Light value out of range"));
}

#[test]
fn test_light_above_max() {
    let json = r#"{
        "device_id": "550e8400-e29b-41d4-a716-446655440000",
        "timestamp": 1699459200,
        "sequence": 1,
        "temperature": 20.0,
        "humidity": 50.0,
        "light": 100000.1,
        "tank_level": true,
        "lights_are_on": false
    }"#;

    let msg = decode(json).unwrap();
    assert!(msg.validate().is_err());
}

#[test]
fn test_light_intensity_valid() {
    let json = r#"{
        "device_id": "550e8400-e29b-41d4-a716-446655440000",
        "timestamp": 1699459200,
        "sequence": 1,
        "temperature": 20.0,
        "humidity": 50.0,
        "light": 100.0,
        "light_intensity": 50.0,
        "tank_level": true,
        "lights_are_on": false
    }"#;

    let msg = decode(json).unwrap();
    assert!(msg.validate().is_ok());
}

#[test]
fn test_light_intensity_out_of_range() {
    let json = r#"{
        "device_id": "550e8400-e29b-41d4-a716-446655440000",
        "timestamp": 1699459200,
        "sequence": 1,
        "temperature": 20.0,
        "humidity": 50.0,
        "light": 100.0,
        "light_intensity": 101.0,
        "tank_level": true,
        "lights_are_on": false
    }"#;

    let msg = decode(json).unwrap();
    assert!(msg.validate().is_err());
}

#[test]
fn test_timestamp_zero() {
    let json = r#"{
        "device_id": "550e8400-e29b-41d4-a716-446655440000",
        "timestamp": 0,
        "sequence": 1,
        "temperature": 20.0,
        "humidity": 50.0,
        "light": 100.0,
        "tank_level": true,
        "lights_are_on": false
    }"#;

    let result = decode(json);
    assert!(result.is_err());
    assert!(result.unwrap_err().message().contains("positive"));
}

#[test]
fn test_timestamp_negative() {
    let json = r#"{
        "device_id": "550e8400-e29b-41d4-a716-446655440000",
        "timestamp": -1,
        "sequence": 1,
        "temperature": 20.0,
        "humidity": 50.0,
        "light": 100.0,
        "tank_level": true,
        "lights_are_on": false
    }"#;

    let result = decode(json);
    assert!(result.is_err());
}

#[test]
fn test_timestamp_future() {
    // Timestamp far in the future (year 2100)
    let json = r#"{
        "device_id": "550e8400-e29b-41d4-a716-446655440000",
        "timestamp": 4102444800,
        "sequence": 1,
        "temperature": 20.0,
        "humidity": 50.0,
        "light": 100.0,
        "tank_level": true,
        "lights_are_on": false
    }"#;

    let result = decode(json);
    assert!(result.is_err());
    assert!(result.unwrap_err().message().contains("future"));
}

#[test]
fn test_sequence_zero() {
    let json = r#"{
        "device_id": "550e8400-e29b-41d4-a716-446655440000",
        "timestamp": 1699459200,
        "sequence": 0,
        "temperature": 20.0,
        "humidity": 50.0,
        "light": 100.0,
        "tank_level": true,
        "lights_are_on": false
    }"#;

    let result = decode(json);
    assert!(result.is_err());
    assert!(result.unwrap_err().message().contains("positive"));
}

#[test]
fn test_sequence_negative() {
    let json = r#"{
        "device_id": "550e8400-e29b-41d4-a716-446655440000",
        "timestamp": 1699459200,
        "sequence": -1,
        "temperature": 20.0,
        "humidity": 50.0,
        "light": 100.0,
        "tank_level": true,
        "lights_are_on": false
    }"#;

    let result = decode(json);
    assert!(result.is_err());
}

#[test]
fn test_uuid_not_v4() {
    // UUID v1 (time-based)
    let json = r#"{
        "device_id": "c232ab00-9414-11ec-b909-0242ac120002",
        "timestamp": 1699459200,
        "sequence": 1,
        "temperature": 20.0,
        "humidity": 50.0,
        "light": 100.0,
        "tank_level": true,
        "lights_are_on": false
    }"#;

    let result = decode(json);
    assert!(result.is_err());
    assert!(result.unwrap_err().message().contains("version 4"));
}

#[test]
fn test_uuid_invalid_format() {
    let json = r#"{
        "device_id": "not-a-uuid",
        "timestamp": 1699459200,
        "sequence": 1,
        "temperature": 20.0,
        "humidity": 50.0,
        "light": 100.0,
        "tank_level": true,
        "lights_are_on": false
    }"#;

    let result = decode(json);
    assert!(result.is_err());
}

#[test]
fn test_uuid_nil() {
    let json = r#"{
        "device_id": "00000000-0000-0000-0000-000000000000",
        "timestamp": 1699459200,
        "sequence": 1,
        "temperature": 20.0,
        "humidity": 50.0,
        "light": 100.0,
        "tank_level": true,
        "lights_are_on": false
    }"#;

    let result = decode(json);
    assert!(result.is_err());
}

#[test]
fn test_uuid_uppercase() {
    // Should accept and normalize
    let json = r#"{
        "device_id": "550E8400-E29B-41D4-A716-446655440000",
        "timestamp": 1699459200,
        "sequence": 1,
        "temperature": 20.0,
        "humidity": 50.0,
        "light": 100.0,
        "tank_level": true,
        "lights_are_on": false
    }"#;

    let msg = decode(json).unwrap();
    assert_eq!(msg.greenhouse_id.to_string(), "550e8400-e29b-41d4-a716-446655440000");
}

#[test]
fn test_temperature_as_string() {
    let json = r#"{
        "device_id": "550e8400-e29b-41d4-a716-446655440000",
        "timestamp": 1699459200,
        "sequence": 1,
        "temperature": "twenty two",
        "humidity": 50.0,
        "light": 100.0,
        "tank_level": true,
        "lights_are_on": false
    }"#;

    let result = decode(json);
    assert!(result.is_err());
}

#[test]
fn test_tank_level_as_number() {
    let json = r#"{
        "device_id": "550e8400-e29b-41d4-a716-446655440000",
        "timestamp": 1699459200,
        "sequence": 1,
        "temperature": 20.0,
        "humidity": 50.0,
        "light": 100.0,
        "tank_level": 1,
        "lights_are_on": false
    }"#;

    let result = decode(json);
    assert!(result.is_err());
}

#[test]
fn test_missing_temperature() {
    let json = r#"{
        "device_id": "550e8400-e29b-41d4-a716-446655440000",
        "timestamp": 1699459200,
        "sequence": 1,
        "humidity": 50.0,
        "light": 100.0,
        "tank_level": true,
        "lights_are_on": false
    }"#;

    let result = decode(json);
    assert!(result.is_err());
}

#[test]
fn test_missing_device_id() {
    let json = r#"{
        "timestamp": 1699459200,
        "sequence": 1,
        "temperature": 20.0,
        "humidity": 50.0,
        "light": 100.0,
        "tank_level": true,
        "lights_are_on": false
    }"#;

    let result = decode(json);
    assert!(result.is_err());
}

#[test]
fn test_malformed_json() {
    let json = r#"{
        "device_id": "550e8400-e29b-41d4-a716-446655440000",
        "timestamp": 1699459200,
        "sequence": 1,
        "temperature": 20.0,
        "humidity": 50.0,
        "light": 100.0,
        "tank_level": true,
        "lights_are_on": false
    "#; // Missing closing brace

    let result = decode(json);
    assert!(result.is_err());
}

#[test]
fn test_extra_fields() {
    // Should ignore extra fields
    let json = r#"{
        "device_id": "550e8400-e29b-41d4-a716-446655440000",
        "timestamp": 1699459200,
        "sequence": 1,
        "temperature": 20.0,
        "humidity": 50.0,
        "light": 100.0,
        "tank_level": true,
        "lights_are_on": false,
        "extra_field": "should be ignored"
    }"#;

    let msg = decode(json).unwrap();
    assert!(msg.validate().is_ok());
}
