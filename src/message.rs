//! Telemetry readings: decoding a payload into a reading, and the range
//! checks that a decoded reading must pass.
use vstd::prelude::*;
use crate::decimal::{decimal_text, parse_decimal, Decimal};
use crate::device_id::{parsed_uuid, version_of, DeviceId};
use crate::json::{decode_object, find, find_field, json_object_of, JsonField};

verus! {

/// How far ahead of the current time, in seconds, a reading may be stamped.
pub const CLOCK_SKEW_SECONDS: i64 = 60;

/// The fields of a telemetry payload, in the order in which they are checked.
#[derive(Clone, Copy, Debug, PartialEq, Eq)]
pub enum Field {
    DeviceId,
    Timestamp,
    Sequence,
    Temperature,
    Humidity,
    Light,
    LightIntensity,
    TankLevel,
    Irrigated,
    LightsOn,
    PumpOn,
}

pub open spec fn field_key(f: Field) -> Seq<char> {
    match f {
        Field::DeviceId => "device_id"@,
        Field::Timestamp => "timestamp"@,
        Field::Sequence => "sequence"@,
        Field::Temperature => "temperature"@,
        Field::Humidity => "humidity"@,
        Field::Light => "light"@,
        Field::LightIntensity => "light_intensity"@,
        Field::TankLevel => "tank_level"@,
        Field::Irrigated => "irrigated_since_last_transmission"@,
        Field::LightsOn => "lights_are_on"@,
        Field::PumpOn => "pump_on"@,
    }
}

impl Field {
    /// The JSON key of the field.
    pub fn key(&self) -> (r: String)
        ensures
            r@ == field_key(*self),
    {
        let k: &str = match self {
            Field::DeviceId => "device_id",
            Field::Timestamp => "timestamp",
            Field::Sequence => "sequence",
            Field::Temperature => "temperature",
            Field::Humidity => "humidity",
            Field::Light => "light",
            Field::LightIntensity => "light_intensity",
            Field::TankLevel => "tank_level",
            Field::Irrigated => "irrigated_since_last_transmission",
            Field::LightsOn => "lights_are_on",
            Field::PumpOn => "pump_on",
        };
        k.to_owned()
    }
}

/// Why a payload could not be read as a reading.
#[derive(Clone, Copy, Debug, PartialEq, Eq)]
pub enum ParseError {
    /// The payload is not a JSON object.
    Malformed,
    /// A required field is absent.
    MissingField(Field),
    /// A field holds a value of the wrong JSON type.
    WrongType(Field),
    /// A number has more digits than a reading can hold.
    NumberTooLong(Field),
    /// The device id is no UUID.
    InvalidDeviceId,
    /// The device id is a UUID of another version than 4.
    DeviceIdVersion(u8),
    TimestampNotPositive(i64),
    /// The timestamp names no instant that the calendar can represent.
    TimestampOutOfRange(i64),
    TimestampInFuture(i64),
    SequenceNotPositive(i64),
}

/// Whether `chrono::TimeZone::timestamp_opt` for `Utc` gives an instant for
/// this second count, that is, whether chrono can represent it.
pub uninterp spec fn utc_instant_exists(secs: i64) -> bool;

/// Relies on `chrono::TimeZone::timestamp_opt` for `Utc`, which gives a
/// single instant for every second count within chrono's range of dates
/// (years -262144 to 262143), and so for every count up to 10^11 seconds.
#[verifier::external_body]
fn utc_instant(secs: i64) -> (r: bool)
    ensures
        r == utc_instant_exists(secs),
        0 <= secs <= 100_000_000_000 ==> r,
{
    chrono::TimeZone::timestamp_opt(&chrono::Utc, secs, 0).single().is_some()
}

/// Relies on `chrono::Utc::now` and `DateTime::timestamp` for the current
/// time in whole seconds since the Unix epoch. Nothing is promised of it.
#[verifier::external_body]
fn now_epoch_seconds() -> (r: i64) {
    chrono::Utc::now().timestamp()
}

/// A decoded reading, as mathematical values.
pub struct ReadingModel {
    pub device: Seq<u8>,
    pub timestamp: i64,
    pub sequence: i64,
    pub temperature: Decimal,
    pub humidity: Decimal,
    pub light: Decimal,
    pub light_intensity: Option<Decimal>,
    pub tank_level: bool,
    pub irrigated_since_last_transmission: bool,
    pub lights_are_on: bool,
    pub pump_on: bool,
}

/// One sensor sample of a device.
#[derive(Clone, Copy, Debug, PartialEq)]
pub struct TelemetryMessage {
    pub greenhouse_id: DeviceId,
    /// Seconds since the Unix epoch, UTC.
    pub timestamp: i64,
    pub sequence: i64,
    /// Degrees Celsius.
    pub temperature: Decimal,
    /// Percent.
    pub humidity: Decimal,
    /// Lux.
    pub light: Decimal,
    /// Percent.
    pub light_intensity: Option<Decimal>,
    pub tank_level: bool,
    pub irrigated_since_last_transmission: bool,
    pub lights_are_on: bool,
    pub pump_on: bool,
}

impl View for TelemetryMessage {
    type V = ReadingModel;

    open spec fn view(&self) -> ReadingModel {
        ReadingModel {
            device: self.greenhouse_id.bytes@,
            timestamp: self.timestamp,
            sequence: self.sequence,
            temperature: self.temperature,
            humidity: self.humidity,
            light: self.light,
            light_intensity: self.light_intensity,
            tank_level: self.tank_level,
            irrigated_since_last_transmission: self.irrigated_since_last_transmission,
            lights_are_on: self.lights_are_on,
            pump_on: self.pump_on,
        }
    }
}

pub open spec fn device_field(f: Seq<(String, JsonField)>) -> Result<Seq<u8>, ParseError> {
    match find_field(f, field_key(Field::DeviceId)) {
        None => Err(ParseError::MissingField(Field::DeviceId)),
        Some(JsonField::Text(s)) => match parsed_uuid(s@) {
            None => Err(ParseError::InvalidDeviceId),
            Some(b) => if version_of(b) == 4 {
                Ok(b)
            } else {
                Err(ParseError::DeviceIdVersion(version_of(b)))
            },
        },
        Some(_) => Err(ParseError::WrongType(Field::DeviceId)),
    }
}

pub open spec fn int_field(f: Seq<(String, JsonField)>, field: Field) -> Result<i64, ParseError> {
    match find_field(f, field_key(field)) {
        None => Err(ParseError::MissingField(field)),
        Some(JsonField::Number { int: Some(v), text: _ }) => Ok(v),
        Some(_) => Err(ParseError::WrongType(field)),
    }
}

pub open spec fn timestamp_field(f: Seq<(String, JsonField)>, now: i64) -> Result<i64, ParseError> {
    match int_field(f, Field::Timestamp) {
        Err(e) => Err(e),
        Ok(t) => if t <= 0 {
            Err(ParseError::TimestampNotPositive(t))
        } else if !utc_instant_exists(t) {
            Err(ParseError::TimestampOutOfRange(t))
        } else if t > now + CLOCK_SKEW_SECONDS {
            Err(ParseError::TimestampInFuture(t))
        } else {
            Ok(t)
        },
    }
}

pub open spec fn sequence_field(f: Seq<(String, JsonField)>) -> Result<i64, ParseError> {
    match int_field(f, Field::Sequence) {
        Err(e) => Err(e),
        Ok(s) => if s <= 0 {
            Err(ParseError::SequenceNotPositive(s))
        } else {
            Ok(s)
        },
    }
}

pub open spec fn number_value(v: JsonField, field: Field) -> Result<Decimal, ParseError> {
    match v {
        JsonField::Number { int: _, text } => match decimal_text(text@) {
            Some(d) => Ok(d),
            None => Err(ParseError::NumberTooLong(field)),
        },
        _ => Err(ParseError::WrongType(field)),
    }
}

pub open spec fn number_field(f: Seq<(String, JsonField)>, field: Field) -> Result<Decimal, ParseError> {
    match find_field(f, field_key(field)) {
        None => Err(ParseError::MissingField(field)),
        Some(v) => number_value(v, field),
    }
}

/// An optional number: absent and `null` both give `None`.
pub open spec fn optional_number_field(f: Seq<(String, JsonField)>, field: Field) -> Result<Option<Decimal>, ParseError> {
    match find_field(f, field_key(field)) {
        None => Ok(None),
        Some(JsonField::Null) => Ok(None),
        Some(v) => match number_value(v, field) {
            Ok(d) => Ok(Some(d)),
            Err(e) => Err(e),
        },
    }
}

/// A boolean; where `required` is false, an absent field reads as `false`.
pub open spec fn bool_field(f: Seq<(String, JsonField)>, field: Field, required: bool) -> Result<bool, ParseError> {
    match find_field(f, field_key(field)) {
        None => if required {
            Err(ParseError::MissingField(field))
        } else {
            Ok(false)
        },
        Some(JsonField::Bool(b)) => Ok(b),
        Some(_) => Err(ParseError::WrongType(field)),
    }
}

/// The reading that the fields of a JSON object give at time `now`, or the
/// first problem met, taking the fields in the order of `Field`.
pub open spec fn reading_of_fields(f: Seq<(String, JsonField)>, now: i64) -> Result<ReadingModel, ParseError> {
    match device_field(f) { Err(e) => Err(e), Ok(device) =>
    match timestamp_field(f, now) { Err(e) => Err(e), Ok(timestamp) =>
    match sequence_field(f) { Err(e) => Err(e), Ok(sequence) =>
    match number_field(f, Field::Temperature) { Err(e) => Err(e), Ok(temperature) =>
    match number_field(f, Field::Humidity) { Err(e) => Err(e), Ok(humidity) =>
    match number_field(f, Field::Light) { Err(e) => Err(e), Ok(light) =>
    match optional_number_field(f, Field::LightIntensity) { Err(e) => Err(e), Ok(light_intensity) =>
    match bool_field(f, Field::TankLevel, true) { Err(e) => Err(e), Ok(tank_level) =>
    match bool_field(f, Field::Irrigated, false) { Err(e) => Err(e), Ok(irrigated) =>
    match bool_field(f, Field::LightsOn, true) { Err(e) => Err(e), Ok(lights_are_on) =>
    match bool_field(f, Field::PumpOn, false) { Err(e) => Err(e), Ok(pump_on) =>
        Ok(ReadingModel {
            device,
            timestamp,
            sequence,
            temperature,
            humidity,
            light,
            light_intensity,
            tank_level,
            irrigated_since_last_transmission: irrigated,
            lights_are_on,
            pump_on,
        })
    }}}}}}}}}}}
}

/// The reading that a payload gives at time `now` (seconds since the epoch).
pub open spec fn reading_of_payload(b: Seq<u8>, now: i64) -> Result<ReadingModel, ParseError> {
    match json_object_of(b) {
        None => Err(ParseError::Malformed),
        Some(f) => reading_of_fields(f@, now),
    }
}

/// `r` is the exec counterpart of the spec result `s`.
pub open spec fn decode_matches(r: Result<TelemetryMessage, ParseError>, s: Result<ReadingModel, ParseError>) -> bool {
    match r {
        Ok(m) => s == Ok::<ReadingModel, ParseError>(m@),
        Err(e) => s == Err::<ReadingModel, ParseError>(e),
    }
}

/// The bounds of each measurement: `[-lo_magnitude, hi]`, both ends included.
pub const TEMPERATURE_MIN_MAGNITUDE: u64 = 50;
pub const TEMPERATURE_MAX: u64 = 100;
pub const HUMIDITY_MAX: u64 = 100;
pub const LIGHT_MAX: u64 = 100000;
pub const LIGHT_INTENSITY_MAX: u64 = 100;

/// A measurement outside its range; it carries the offending value.
#[derive(Clone, Copy, Debug, PartialEq, Eq)]
pub enum ValidationError {
    TemperatureOutOfRange(Decimal),
    HumidityOutOfRange(Decimal),
    LightOutOfRange(Decimal),
    LightIntensityOutOfRange(Decimal),
}

/// The first measurement of `m` outside its range, taken in the order
/// temperature, humidity, light, light intensity.
pub open spec fn validation_error(m: ReadingModel) -> Option<ValidationError> {
    if !m.temperature.within(-(TEMPERATURE_MIN_MAGNITUDE as int), TEMPERATURE_MAX as int) {
        Some(ValidationError::TemperatureOutOfRange(m.temperature))
    } else if !m.humidity.within(0, HUMIDITY_MAX as int) {
        Some(ValidationError::HumidityOutOfRange(m.humidity))
    } else if !m.light.within(0, LIGHT_MAX as int) {
        Some(ValidationError::LightOutOfRange(m.light))
    } else {
        match m.light_intensity {
            Some(i) => if !i.within(0, LIGHT_INTENSITY_MAX as int) {
                Some(ValidationError::LightIntensityOutOfRange(i))
            } else {
                None
            },
            None => None,
        }
    }
}

pub open spec fn parse_error_text(e: ParseError) -> Seq<char> {
    match e {
        ParseError::Malformed => "payload is not a JSON object"@,
        ParseError::MissingField(_) => "missing field"@,
        ParseError::WrongType(_) => "invalid type for field"@,
        ParseError::NumberTooLong(_) => "number has too many digits"@,
        ParseError::InvalidDeviceId => "device id is not a UUID"@,
        ParseError::DeviceIdVersion(_) => "UUID must be version 4"@,
        ParseError::TimestampNotPositive(_) => "Timestamp must be positive"@,
        ParseError::TimestampOutOfRange(_) => "Invalid timestamp"@,
        ParseError::TimestampInFuture(_) => "Timestamp is in the future"@,
        ParseError::SequenceNotPositive(_) => "Sequence number must be positive"@,
    }
}

impl ParseError {
    /// A short description of the problem.
    pub fn message(&self) -> (r: String)
        ensures
            r@ == parse_error_text(*self),
    {
        let t: &str = match self {
            ParseError::Malformed => "payload is not a JSON object",
            ParseError::MissingField(_) => "missing field",
            ParseError::WrongType(_) => "invalid type for field",
            ParseError::NumberTooLong(_) => "number has too many digits",
            ParseError::InvalidDeviceId => "device id is not a UUID",
            ParseError::DeviceIdVersion(_) => "UUID must be version 4",
            ParseError::TimestampNotPositive(_) => "Timestamp must be positive",
            ParseError::TimestampOutOfRange(_) => "Invalid timestamp",
            ParseError::TimestampInFuture(_) => "Timestamp is in the future",
            ParseError::SequenceNotPositive(_) => "Sequence number must be positive",
        };
        t.to_owned()
    }
}

pub open spec fn validation_error_text(e: ValidationError) -> Seq<char> {
    match e {
        ValidationError::TemperatureOutOfRange(_) => "Temperature out of range (valid: -50 to 100)"@,
        ValidationError::HumidityOutOfRange(_) => "Humidity out of range (valid: 0 to 100)"@,
        ValidationError::LightOutOfRange(_) => "Light value out of range (valid: 0 to 100000)"@,
        ValidationError::LightIntensityOutOfRange(_) => "Light intensity out of range (valid: 0 to 100)"@,
    }
}

impl ValidationError {
    /// A short description of the problem.
    pub fn message(&self) -> (r: String)
        ensures
            r@ == validation_error_text(*self),
    {
        let t: &str = match self {
            ValidationError::TemperatureOutOfRange(_) => "Temperature out of range (valid: -50 to 100)",
            ValidationError::HumidityOutOfRange(_) => "Humidity out of range (valid: 0 to 100)",
            ValidationError::LightOutOfRange(_) => "Light value out of range (valid: 0 to 100000)",
            ValidationError::LightIntensityOutOfRange(_) => "Light intensity out of range (valid: 0 to 100)",
        };
        t.to_owned()
    }
}

fn lookup(fields: &Vec<(String, JsonField)>, field: Field) -> (r: Option<&JsonField>)
    ensures
        match r {
            Some(v) => find_field(fields@, field_key(field)) == Some(*v),
            None => find_field(fields@, field_key(field)) is None,
        },
{
    let key = field.key();
    match find(fields, &key) {
        Some(i) => Some(&fields[i].1),
        None => None,
    }
}

fn read_device(fields: &Vec<(String, JsonField)>) -> (r: Result<DeviceId, ParseError>)
    ensures
        match r {
            Ok(d) => device_field(fields@) == Ok::<Seq<u8>, ParseError>(d.bytes@),
            Err(e) => device_field(fields@) == Err::<Seq<u8>, ParseError>(e),
        },
{
    match lookup(fields, Field::DeviceId) {
        None => Err(ParseError::MissingField(Field::DeviceId)),
        Some(JsonField::Text(s)) => match DeviceId::parse(s.as_str()) {
            None => Err(ParseError::InvalidDeviceId),
            Some(d) => {
                let v = d.version_num();
                if v == 4 {
                    Ok(d)
                } else {
                    Err(ParseError::DeviceIdVersion(v))
                }
            },
        },
        Some(_) => Err(ParseError::WrongType(Field::DeviceId)),
    }
}

fn read_int(fields: &Vec<(String, JsonField)>, field: Field) -> (r: Result<i64, ParseError>)
    ensures
        r == int_field(fields@, field),
{
    match lookup(fields, field) {
        None => Err(ParseError::MissingField(field)),
        Some(JsonField::Number { int: Some(v), text: _ }) => Ok(*v),
        Some(_) => Err(ParseError::WrongType(field)),
    }
}

fn read_timestamp(fields: &Vec<(String, JsonField)>, now: i64) -> (r: Result<i64, ParseError>)
    ensures
        r == timestamp_field(fields@, now),
{
    let t = read_int(fields, Field::Timestamp)?;
    if t <= 0 {
        Err(ParseError::TimestampNotPositive(t))
    } else if !utc_instant(t) {
        Err(ParseError::TimestampOutOfRange(t))
    } else if t - CLOCK_SKEW_SECONDS > now {
        Err(ParseError::TimestampInFuture(t))
    } else {
        Ok(t)
    }
}

fn read_sequence(fields: &Vec<(String, JsonField)>) -> (r: Result<i64, ParseError>)
    ensures
        r == sequence_field(fields@),
{
    let s = read_int(fields, Field::Sequence)?;
    if s <= 0 {
        Err(ParseError::SequenceNotPositive(s))
    } else {
        Ok(s)
    }
}

fn read_number_value(v: &JsonField, field: Field) -> (r: Result<Decimal, ParseError>)
    ensures
        r == number_value(*v, field),
{
    match v {
        JsonField::Number { int: _, text } => match parse_decimal(text) {
            Some(d) => Ok(d),
            None => Err(ParseError::NumberTooLong(field)),
        },
        _ => Err(ParseError::WrongType(field)),
    }
}

fn read_number(fields: &Vec<(String, JsonField)>, field: Field) -> (r: Result<Decimal, ParseError>)
    ensures
        r == number_field(fields@, field),
{
    match lookup(fields, field) {
        None => Err(ParseError::MissingField(field)),
        Some(v) => read_number_value(v, field),
    }
}

fn read_optional_number(fields: &Vec<(String, JsonField)>, field: Field) -> (r: Result<Option<Decimal>, ParseError>)
    ensures
        r == optional_number_field(fields@, field),
{
    match lookup(fields, field) {
        None => Ok(None),
        Some(JsonField::Null) => Ok(None),
        Some(v) => match read_number_value(v, field) {
            Ok(d) => Ok(Some(d)),
            Err(e) => Err(e),
        },
    }
}

fn read_bool(fields: &Vec<(String, JsonField)>, field: Field, required: bool) -> (r: Result<bool, ParseError>)
    ensures
        r == bool_field(fields@, field, required),
{
    match lookup(fields, field) {
        None => if required {
            Err(ParseError::MissingField(field))
        } else {
            Ok(false)
        },
        Some(JsonField::Bool(b)) => Ok(*b),
        Some(_) => Err(ParseError::WrongType(field)),
    }
}

/// Reads a reading from the fields of a JSON object at time `now`.
pub fn reading_from_fields(fields: &Vec<(String, JsonField)>, now: i64) -> (r: Result<TelemetryMessage, ParseError>)
    ensures
        decode_matches(r, reading_of_fields(fields@, now)),
{
    let greenhouse_id = read_device(fields)?;
    let timestamp = read_timestamp(fields, now)?;
    let sequence = read_sequence(fields)?;
    let temperature = read_number(fields, Field::Temperature)?;
    let humidity = read_number(fields, Field::Humidity)?;
    let light = read_number(fields, Field::Light)?;
    let light_intensity = read_optional_number(fields, Field::LightIntensity)?;
    let tank_level = read_bool(fields, Field::TankLevel, true)?;
    let irrigated_since_last_transmission = read_bool(fields, Field::Irrigated, false)?;
    let lights_are_on = read_bool(fields, Field::LightsOn, true)?;
    let pump_on = read_bool(fields, Field::PumpOn, false)?;
    Ok(TelemetryMessage {
        greenhouse_id,
        timestamp,
        sequence,
        temperature,
        humidity,
        light,
        light_intensity,
        tank_level,
        irrigated_since_last_transmission,
        lights_are_on,
        pump_on,
    })
}

impl TelemetryMessage {
    /// Checks each measurement against its range, in the order temperature,
    /// humidity, light, light intensity, and reports the first one outside.
    pub fn validate(&self) -> (r: Result<(), ValidationError>)
        ensures
            r is Ok <==> validation_error(self@) is None,
            r is Err ==> validation_error(self@) == Some(r->Err_0),
    {
        if !self.temperature.is_within(TEMPERATURE_MIN_MAGNITUDE, TEMPERATURE_MAX) {
            return Err(ValidationError::TemperatureOutOfRange(self.temperature));
        }
        if !self.humidity.is_within(0, HUMIDITY_MAX) {
            return Err(ValidationError::HumidityOutOfRange(self.humidity));
        }
        if !self.light.is_within(0, LIGHT_MAX) {
            return Err(ValidationError::LightOutOfRange(self.light));
        }
        if let Some(i) = self.light_intensity {
            if !i.is_within(0, LIGHT_INTENSITY_MAX) {
                return Err(ValidationError::LightIntensityOutOfRange(i));
            }
        }
        Ok(())
    }

    /// Reads a reading from a payload, judging its timestamp against `now`
    /// (seconds since the Unix epoch).
    pub fn from_payload(payload: &[u8], now: i64) -> (r: Result<TelemetryMessage, ParseError>)
        ensures
            decode_matches(r, reading_of_payload(payload@, now)),
    {
        match decode_object(payload) {
            None => Err(ParseError::Malformed),
            Some(fields) => reading_from_fields(&fields, now),
        }
    }

    /// Reads a reading from a payload, judging its timestamp against the
    /// current time.
    pub fn from_payload_now(payload: &[u8]) -> (r: Result<TelemetryMessage, ParseError>)
        ensures
            exists|now: i64| decode_matches(r, #[trigger] reading_of_payload(payload@, now)),
    {
        let now = now_epoch_seconds();
        TelemetryMessage::from_payload(payload, now)
    }
}

/// Every reading that decodes has a version-4 device id, a positive
/// timestamp no more than `CLOCK_SKEW_SECONDS` ahead of `now`, and a
/// positive sequence number.
pub proof fn lemma_decoded_reading_constraints(f: Seq<(String, JsonField)>, now: i64)
    ensures
        reading_of_fields(f, now) is Ok ==> {
            let m = reading_of_fields(f, now)->Ok_0;
            &&& version_of(m.device) == 4
            &&& 0 < m.timestamp <= now + CLOCK_SKEW_SECONDS
            &&& m.sequence > 0
        },
{
}

/// A positive timestamp that chrono can represent is accepted when it is at
/// most `CLOCK_SKEW_SECONDS` ahead of `now`, and turned away when it is zero,
/// negative, or further ahead.
pub proof fn lemma_timestamp_window(f: Seq<(String, JsonField)>, now: i64, t: i64)
    requires
        int_field(f, Field::Timestamp) == Ok::<i64, ParseError>(t),
    ensures
        t <= 0 ==> timestamp_field(f, now) == Err::<i64, ParseError>(ParseError::TimestampNotPositive(t)),
        t > now + CLOCK_SKEW_SECONDS ==> timestamp_field(f, now) is Err,
        0 < t <= now + CLOCK_SKEW_SECONDS && utc_instant_exists(t) ==> timestamp_field(f, now)
            == Ok::<i64, ParseError>(t),
{
}

/// A sequence number of zero or below is turned away.
pub proof fn lemma_sequence_positive(f: Seq<(String, JsonField)>, s: i64)
    requires
        int_field(f, Field::Sequence) == Ok::<i64, ParseError>(s),
        s <= 0,
    ensures
        sequence_field(f) == Err::<i64, ParseError>(ParseError::SequenceNotPositive(s)),
{
}

pub open spec fn is_required(field: Field) -> bool {
    !(field == Field::LightIntensity || field == Field::Irrigated || field == Field::PumpOn)
}

pub open spec fn is_flag(field: Field) -> bool {
    field == Field::TankLevel || field == Field::Irrigated || field == Field::LightsOn || field == Field::PumpOn
}

/// An object without one of the required fields does not decode.
pub proof fn lemma_missing_required_field_rejected(f: Seq<(String, JsonField)>, now: i64, field: Field)
    requires
        is_required(field),
        find_field(f, field_key(field)) is None,
    ensures
        reading_of_fields(f, now) is Err,
{
}

/// An object whose flag field holds anything but a boolean does not decode.
pub proof fn lemma_flag_needs_boolean(f: Seq<(String, JsonField)>, now: i64, field: Field)
    requires
        is_flag(field),
        find_field(f, field_key(field)) is Some,
        !(find_field(f, field_key(field))->0 is Bool),
    ensures
        reading_of_fields(f, now) is Err,
{
}

proof fn lemma_find_field_push(f: Seq<(String, JsonField)>, x: (String, JsonField), key: Seq<char>)
    requires
        x.0@ != key,
    ensures
        find_field(f.push(x), key) == find_field(f, key),
    decreases f.len(),
{
    if f.len() > 0 {
        assert(f.push(x).drop_first() =~= f.drop_first().push(x));
        assert(f.push(x)[0] == f[0]);
        lemma_find_field_push(f.drop_first(), x, key);
    } else {
        let e = Seq::<(String, JsonField)>::empty();
        assert(f.push(x).drop_first() =~= e);
        assert(find_field(e, key) is None);
        assert(f.push(x)[0] == x);
    }
}

/// A field whose key is none of the reading's keys changes nothing.
pub proof fn lemma_unknown_field_ignored(f: Seq<(String, JsonField)>, now: i64, x: (String, JsonField))
    requires
        forall|field: Field| x.0@ != #[trigger] field_key(field),
    ensures
        reading_of_fields(f.push(x), now) == reading_of_fields(f, now),
{
    let g = f.push(x);
    assert(x.0@ != field_key(Field::DeviceId));
    assert(x.0@ != field_key(Field::Timestamp));
    assert(x.0@ != field_key(Field::Sequence));
    assert(x.0@ != field_key(Field::Temperature));
    assert(x.0@ != field_key(Field::Humidity));
    assert(x.0@ != field_key(Field::Light));
    assert(x.0@ != field_key(Field::LightIntensity));
    assert(x.0@ != field_key(Field::TankLevel));
    assert(x.0@ != field_key(Field::Irrigated));
    assert(x.0@ != field_key(Field::LightsOn));
    assert(x.0@ != field_key(Field::PumpOn));
    lemma_find_field_push(f, x, field_key(Field::DeviceId));
    lemma_find_field_push(f, x, field_key(Field::Timestamp));
    lemma_find_field_push(f, x, field_key(Field::Sequence));
    lemma_find_field_push(f, x, field_key(Field::Temperature));
    lemma_find_field_push(f, x, field_key(Field::Humidity));
    lemma_find_field_push(f, x, field_key(Field::Light));
    lemma_find_field_push(f, x, field_key(Field::LightIntensity));
    lemma_find_field_push(f, x, field_key(Field::TankLevel));
    lemma_find_field_push(f, x, field_key(Field::Irrigated));
    lemma_find_field_push(f, x, field_key(Field::LightsOn));
    lemma_find_field_push(f, x, field_key(Field::PumpOn));
}

} // verus!
