//! The settings of the service, made from the values found in the environment.

use crate::api::option_text;
use vstd::prelude::*;

verus! {

/// The relay that is used when none is named.
pub const DEFAULT_SMTP_SERVER: &'static str = "smtp.gmail.com";

/// The relay's port that is used when none is given, or none that can be read.
pub const DEFAULT_SMTP_PORT: u16 = 587;

/// The port the service listens on when none is given, or none that can be read.
pub const DEFAULT_SERVER_PORT: u16 = 6969;

/// The settings of the service.
#[derive(Clone, Debug, PartialEq, Eq)]
pub struct Config {
    pub email: String,
    pub app_password: String,
    pub smtp_server: String,
    pub smtp_port: u16,
    pub server_port: u16,
}

/// What the contracts see of [`Config`].
pub struct ConfigView {
    pub email: Seq<char>,
    pub app_password: Seq<char>,
    pub smtp_server: Seq<char>,
    pub smtp_port: u16,
    pub server_port: u16,
}

impl View for Config {
    type V = ConfigView;

    open spec fn view(&self) -> ConfigView {
        ConfigView {
            email: self.email@,
            app_password: self.app_password@,
            smtp_server: self.smtp_server@,
            smtp_port: self.smtp_port,
            server_port: self.server_port,
        }
    }
}

/// The values of the variables that the settings are made from, each as it
/// was found: `None` stands for a variable that is not set.
#[derive(Clone, Debug, PartialEq, Eq)]
pub struct Environment {
    /// `EMAIL_ADDRESS`
    pub email_address: Option<String>,
    /// `APP_PASSWORD`
    pub app_password: Option<String>,
    /// `SMTP_SERVER`
    pub smtp_server: Option<String>,
    /// `SMTP_PORT`
    pub smtp_port: Option<String>,
    /// `PORT`
    pub port: Option<String>,
}

/// What the contracts see of [`Environment`].
pub struct EnvironmentView {
    pub email_address: Option<Seq<char>>,
    pub app_password: Option<Seq<char>>,
    pub smtp_server: Option<Seq<char>>,
    pub smtp_port: Option<Seq<char>>,
    pub port: Option<Seq<char>>,
}

impl View for Environment {
    type V = EnvironmentView;

    open spec fn view(&self) -> EnvironmentView {
        EnvironmentView {
            email_address: option_text(self.email_address),
            app_password: option_text(self.app_password),
            smtp_server: option_text(self.smtp_server),
            smtp_port: option_text(self.smtp_port),
            port: option_text(self.port),
        }
    }
}

/// Why no settings could be made.
#[derive(Clone, Copy, Debug, PartialEq, Eq, Structural)]
pub enum ConfigError {
    /// `EMAIL_ADDRESS` is not set.
    EmailAddressNotSet,
    /// `APP_PASSWORD` is not set.
    AppPasswordNotSet,
}

impl ConfigError {
    /// The text that reports the error.
    pub open spec fn message_text(self) -> Seq<char> {
        match self {
            ConfigError::EmailAddressNotSet => "EMAIL_ADDRESS not set"@,
            ConfigError::AppPasswordNotSet => "APP_PASSWORD not set"@,
        }
    }

    /// The text that reports the error.
    pub fn message(&self) -> (text: String)
        ensures
            text@ == self.message_text(),
    {
        match self {
            ConfigError::EmailAddressNotSet => String::from_str("EMAIL_ADDRESS not set"),
            ConfigError::AppPasswordNotSet => String::from_str("APP_PASSWORD not set"),
        }
    }
}

/// One of the ten decimal digits.
pub open spec fn is_digit(c: char) -> bool {
    0x30 <= c as u32 <= 0x39
}

/// The number that a row of decimal digits stands for.
pub open spec fn decimal_value(digits: Seq<char>) -> nat
    decreases digits.len(),
{
    if digits.len() == 0 {
        0
    } else {
        decimal_value(digits.drop_last()) * 10 + (digits.last() as u32 - 0x30) as nat
    }
}

/// `text` without the one `+` that may stand in front of a number.
pub open spec fn unsigned_part(text: Seq<char>) -> Seq<char> {
    if text.len() > 0 && text[0] == '+' {
        text.skip(1)
    } else {
        text
    }
}

/// The port that `text` names: an optional `+`, then one or more decimal
/// digits and nothing else, standing for a number of at most 65535.
pub open spec fn port_of(text: Seq<char>) -> Option<u16> {
    let digits = unsigned_part(text);
    if digits.len() > 0 && (forall|i: int| 0 <= i < digits.len() ==> is_digit(#[trigger] digits[i]))
        && decimal_value(digits) <= u16::MAX {
        Some(decimal_value(digits) as u16)
    } else {
        None
    }
}

proof fn lemma_decimal_value_grows(digits: Seq<char>, n: int)
    requires
        0 <= n <= digits.len(),
        forall|i: int| 0 <= i < digits.len() ==> is_digit(#[trigger] digits[i]),
    ensures
        decimal_value(digits.take(n)) <= decimal_value(digits),
    decreases digits.len() - n,
{
    if n < digits.len() {
        lemma_decimal_value_grows(digits, n + 1);
        assert(digits.take(n + 1).drop_last() =~= digits.take(n));
        assert(is_digit(digits[n]));
    } else {
        assert(digits.take(n) =~= digits);
    }
}

/// Reads a port from `text`, as `str::parse::<u16>` reads a number.
pub fn parse_port(text: &str) -> (port: Option<u16>)
    ensures
        port == port_of(text@),
{
    broadcast use vstd::string::group_string_axioms;

    let mut value: u32 = 0;
    let mut first = true;
    let mut any = false;
    let ghost mut seen = 0int;
    let ghost mut signed = false;
    let ghost digits = unsigned_part(text@);
    for c in it: text.chars()
        invariant
            it.seq() == text@,
            digits == unsigned_part(text@),
            first <==> it.index() == 0,
            first ==> !signed,
            !first ==> signed == (text@[0] == '+'),
            it.index() == seen + if signed { 1int } else { 0int },
            any <==> seen > 0,
            0 <= seen,
            forall|i: int| 0 <= i < seen ==> is_digit(#[trigger] digits[i]),
            value == decimal_value(digits.take(seen)),
            value <= u16::MAX,
    {
        let code: u32 = c as u32;
        if first && c == '+' {
            proof {
                signed = true;
            }
        } else {
            assert(c == digits[seen]);
            if code < 0x30 || code > 0x39 {
                return None;
            }
            assert(digits.take(seen + 1).drop_last() =~= digits.take(seen));
            value = value * 10 + (code - 0x30);
            any = true;
            proof {
                seen = seen + 1;
            }
            if value > 0xffff {
                proof {
                    if forall|i: int| 0 <= i < digits.len() ==> is_digit(#[trigger] digits[i]) {
                        lemma_decimal_value_grows(digits, seen);
                    }
                }
                return None;
            }
        }
        first = false;
    }
    assert(digits.take(seen) =~= digits);
    if any {
        Some(value as u16)
    } else {
        None
    }
}

/// The port that an optional text names, or `fallback` where the text is
/// missing or names no port.
pub open spec fn port_or(text: Option<Seq<char>>, fallback: u16) -> u16 {
    match text {
        Some(t) => match port_of(t) {
            Some(port) => port,
            None => fallback,
        },
        None => fallback,
    }
}

/// The settings that belong to the values `env`.
///
/// The address and the password have to be set, and the address is looked
/// at first. The relay falls back to [`DEFAULT_SMTP_SERVER`], and each port
/// to its default where it is not set or cannot be read.
pub open spec fn config_of(env: EnvironmentView) -> Result<ConfigView, ConfigError> {
    match (env.email_address, env.app_password) {
        (None, _) => Err(ConfigError::EmailAddressNotSet),
        (Some(_), None) => Err(ConfigError::AppPasswordNotSet),
        (Some(email), Some(app_password)) => Ok(
            ConfigView {
                email,
                app_password,
                smtp_server: match env.smtp_server {
                    Some(server) => server,
                    None => DEFAULT_SMTP_SERVER@,
                },
                smtp_port: port_or(env.smtp_port, DEFAULT_SMTP_PORT),
                server_port: port_or(env.port, DEFAULT_SERVER_PORT),
            },
        ),
    }
}

/// The view of the settings, or the error.
pub open spec fn config_result_view(result: Result<Config, ConfigError>) -> Result<
    ConfigView,
    ConfigError,
> {
    match result {
        Ok(config) => Ok(config@),
        Err(error) => Err(error),
    }
}

fn port_from(text: &Option<String>, fallback: u16) -> (port: u16)
    ensures
        port == port_or(option_text(*text), fallback),
{
    match text {
        Some(t) => match parse_port(t.as_str()) {
            Some(port) => port,
            None => fallback,
        },
        None => fallback,
    }
}

impl Config {
    /// Makes the settings from the values found in the environment.
    pub fn from_env(env: Environment) -> (result: Result<Config, ConfigError>)
        ensures
            config_result_view(result) == config_of(env@),
    {
        let smtp_port = port_from(&env.smtp_port, DEFAULT_SMTP_PORT);
        let server_port = port_from(&env.port, DEFAULT_SERVER_PORT);
        let email = match env.email_address {
            Some(email) => email,
            None => {
                return Err(ConfigError::EmailAddressNotSet);
            },
        };
        let app_password = match env.app_password {
            Some(app_password) => app_password,
            None => {
                return Err(ConfigError::AppPasswordNotSet);
            },
        };
        let smtp_server = match env.smtp_server {
            Some(server) => server,
            None => String::from_str(DEFAULT_SMTP_SERVER),
        };
        Ok(Config { email, app_password, smtp_server, smtp_port, server_port })
    }
}

} // verus!
