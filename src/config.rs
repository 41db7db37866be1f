//! Start-up settings of the consumer: where the broker and the database are.
use vstd::prelude::*;
use vstd::string::StringExecFns;

verus! {

/// The decimal digit character for `d < 10`.
pub open spec fn digit_char(d: nat) -> char {
    (d + 48) as char
}

/// The decimal text of `n`, without leading zeros.
pub open spec fn decimal_of(n: nat) -> Seq<char>
    decreases n,
{
    if n < 10 {
        seq![digit_char(n)]
    } else {
        decimal_of(n / 10) + seq![digit_char(n % 10)]
    }
}

/// Relies on the `Display` of `u16`, which writes the number in decimal.
#[verifier::external_body]
fn u16_text(n: u16) -> (r: String)
    ensures
        r@ == decimal_of(n as nat),
{
    n.to_string()
}

pub open spec fn is_digit_char(c: char) -> bool {
    '0' <= c <= '9'
}

/// The value of the decimal digits `s`.
pub open spec fn digits_of(s: Seq<char>) -> nat
    decreases s.len(),
{
    if s.len() == 0 {
        0
    } else {
        digits_of(s.drop_last()) * 10 + (s.last() as nat - 48) as nat
    }
}

/// The port that `s` writes: an optional `+` and one or more decimal digits
/// whose value is at most 65535.
pub open spec fn port_of(s: Seq<char>) -> Option<u16> {
    let body = if s.len() > 0 && s[0] == '+' { s.skip(1) } else { s };
    if body.len() > 0 && (forall|i: int| 0 <= i < body.len() ==> is_digit_char(#[trigger] body[i]))
        && digits_of(body) <= 65535 {
        Some(digits_of(body) as u16)
    } else {
        None
    }
}

/// Relies on `str::parse::<u16>`, which accepts an optional `+` followed by
/// decimal digits and fails on anything else or on a value above 65535.
#[verifier::external_body]
fn parse_u16(s: &str) -> (r: Option<u16>)
    ensures
        r == port_of(s@),
{
    s.parse::<u16>().ok()
}

/// Why the settings could not be turned into a configuration.
#[derive(Clone, Copy, Debug, PartialEq, Eq, Structural)]
pub enum ConfigError {
    InvalidMqttPort,
    InvalidDbPort,
}

/// Where the broker and the database are, and how to log in to the database.
#[derive(Clone, Debug)]
pub struct Config {
    pub mqtt_host: String,
    pub mqtt_port: u16,
    pub mqtt_telemetry_topic: String,
    pub db_host: String,
    pub db_port: u16,
    pub db_user: String,
    pub db_password: String,
    pub db_name: String,
}

/// The connection string that `db_connection_string` builds.
pub open spec fn connection_text(c: Config) -> Seq<char> {
    "host="@ + c.db_host@ + " port="@ + decimal_of(c.db_port as nat) + " user="@ + c.db_user@
        + " password="@ + c.db_password@ + " dbname="@ + c.db_name@
}

/// The setting, or its default where it is not given.
fn or_default(v: Option<String>, default: &str) -> (r: String)
    ensures
        r@ == (match v {
            Some(s) => s@,
            None => default@,
        }),
{
    match v {
        Some(s) => s,
        None => default.to_owned(),
    }
}

/// The port that the setting names, or `default` where it is not given.
fn port_or_default(v: &Option<String>, default: u16) -> (r: Option<u16>)
    ensures
        r == (match v {
            Some(s) => port_of(s@),
            None => Some(default),
        }),
{
    match v {
        Some(s) => parse_u16(s.as_str()),
        None => Some(default),
    }
}

impl Config {
    /// Builds the configuration from the settings that were given. Absent
    /// settings take their defaults: broker `localhost:1883`, topic
    /// `greenhouse/+/telemetry`, database `localhost:5432`, user `postgres`,
    /// database name `greenhouse`. The password has no default.
    pub fn from_settings(
        mqtt_host: Option<String>,
        mqtt_port: Option<String>,
        mqtt_telemetry_topic: Option<String>,
        db_host: Option<String>,
        db_port: Option<String>,
        db_user: Option<String>,
        db_password: String,
        db_name: Option<String>,
    ) -> (r: Result<Config, ConfigError>)
        ensures
            (match mqtt_port { Some(s) => port_of(s@) is None, None => false }) ==> r == Err::<Config, ConfigError>(ConfigError::InvalidMqttPort),
            (match mqtt_port { Some(s) => port_of(s@) is Some, None => true })
                && (match db_port { Some(s) => port_of(s@) is None, None => false }) ==> r == Err::<Config, ConfigError>(ConfigError::InvalidDbPort),
            r is Ok ==> {
                let c = r->Ok_0;
                &&& c.mqtt_host@ == (match mqtt_host { Some(s) => s@, None => "localhost"@ })
                &&& Some(c.mqtt_port) == (match mqtt_port { Some(s) => port_of(s@), None => Some(1883u16) })
                &&& c.mqtt_telemetry_topic@ == (match mqtt_telemetry_topic { Some(s) => s@, None => "greenhouse/+/telemetry"@ })
                &&& c.db_host@ == (match db_host { Some(s) => s@, None => "localhost"@ })
                &&& Some(c.db_port) == (match db_port { Some(s) => port_of(s@), None => Some(5432u16) })
                &&& c.db_user@ == (match db_user { Some(s) => s@, None => "postgres"@ })
                &&& c.db_password@ == db_password@
                &&& c.db_name@ == (match db_name { Some(s) => s@, None => "greenhouse"@ })
            },
            (match mqtt_port { Some(s) => port_of(s@) is Some, None => true })
                && (match db_port { Some(s) => port_of(s@) is Some, None => true }) ==> r is Ok,
    {
        let mqtt_port = match port_or_default(&mqtt_port, 1883) {
            Some(p) => p,
            None => return Err(ConfigError::InvalidMqttPort),
        };
        let db_port = match port_or_default(&db_port, 5432) {
            Some(p) => p,
            None => return Err(ConfigError::InvalidDbPort),
        };
        Ok(Config {
            mqtt_host: or_default(mqtt_host, "localhost"),
            mqtt_port,
            mqtt_telemetry_topic: or_default(mqtt_telemetry_topic, "greenhouse/+/telemetry"),
            db_host: or_default(db_host, "localhost"),
            db_port,
            db_user: or_default(db_user, "postgres"),
            db_password,
            db_name: or_default(db_name, "greenhouse"),
        })
    }

    /// The PostgreSQL connection string
    /// `host=H port=P user=U password=W dbname=D`.
    pub fn db_connection_string(&self) -> (r: String)
        ensures
            r@ == connection_text(*self),
    {
        let mut s = "host=".to_owned();
        s.append(self.db_host.as_str());
        s.append(" port=");
        let port = u16_text(self.db_port);
        s.append(port.as_str());
        s.append(" user=");
        s.append(self.db_user.as_str());
        s.append(" password=");
        s.append(self.db_password.as_str());
        s.append(" dbname=");
        s.append(self.db_name.as_str());
        s
    }
}

} // verus!
