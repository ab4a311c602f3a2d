use rust_mailer_api::config::{
    parse_port, Config, ConfigError, Environment, DEFAULT_SERVER_PORT, DEFAULT_SMTP_PORT,
    DEFAULT_SMTP_SERVER,
};

fn text(value: &str) -> Option<String> {
    Some(value.to_string())
}

fn minimal() -> Environment {
    Environment {
        email_address: text("me@example.com"),
        app_password: text("secret words"),
        smtp_server: None,
        smtp_port: None,
        port: None,
    }
}

#[test]
fn defaults() {
    assert_eq!(DEFAULT_SMTP_SERVER, "smtp.gmail.com");
    assert_eq!(DEFAULT_SMTP_PORT, 587);
    assert_eq!(DEFAULT_SERVER_PORT, 6969);
}

#[test]
fn minimal_environment_takes_the_defaults() {
    assert_eq!(
        Config::from_env(minimal()),
        Ok(Config {
            email: "me@example.com".to_string(),
            app_password: "secret words".to_string(),
            smtp_server: "smtp.gmail.com".to_string(),
            smtp_port: 587,
            server_port: 6969,
        })
    );
}

#[test]
fn full_environment_is_taken_over() {
    let env = Environment {
        email_address: text("me@example.com"),
        app_password: text("pw"),
        smtp_server: text("mail.example.com"),
        smtp_port: text("2525"),
        port: text("8080"),
    };
    assert_eq!(
        Config::from_env(env),
        Ok(Config {
            email: "me@example.com".to_string(),
            app_password: "pw".to_string(),
            smtp_server: "mail.example.com".to_string(),
            smtp_port: 2525,
            server_port: 8080,
        })
    );
}

#[test]
fn missing_address_is_an_error() {
    let env = Environment { email_address: None, ..minimal() };
    assert_eq!(Config::from_env(env), Err(ConfigError::EmailAddressNotSet));
}

#[test]
fn missing_password_is_an_error() {
    let env = Environment { app_password: None, ..minimal() };
    assert_eq!(Config::from_env(env), Err(ConfigError::AppPasswordNotSet));
}

#[test]
fn missing_address_is_reported_before_missing_password() {
    let env = Environment { email_address: None, app_password: None, ..minimal() };
    assert_eq!(Config::from_env(env), Err(ConfigError::EmailAddressNotSet));
}

#[test]
fn error_messages() {
    assert_eq!(ConfigError::EmailAddressNotSet.message(), "EMAIL_ADDRESS not set");
    assert_eq!(ConfigError::AppPasswordNotSet.message(), "APP_PASSWORD not set");
}

#[test]
fn empty_values_count_as_set() {
    let env = Environment {
        email_address: text(""),
        app_password: text(""),
        smtp_server: text(""),
        ..minimal()
    };
    assert_eq!(
        Config::from_env(env),
        Ok(Config {
            email: String::new(),
            app_password: String::new(),
            smtp_server: String::new(),
            smtp_port: 587,
            server_port: 6969,
        })
    );
}

#[test]
fn unreadable_ports_fall_back_to_the_defaults() {
    let env = Environment { smtp_port: text("smtp"), port: text("70000"), ..minimal() };
    let config = Config::from_env(env).unwrap();
    assert_eq!(config.smtp_port, 587);
    assert_eq!(config.server_port, 6969);
}

#[test]
fn parses_ports() {
    assert_eq!(parse_port("0"), Some(0));
    assert_eq!(parse_port("587"), Some(587));
    assert_eq!(parse_port("65535"), Some(65535));
    assert_eq!(parse_port("+25"), Some(25));
    assert_eq!(parse_port("00080"), Some(80));
    assert_eq!(parse_port("000000000000000000000000065535"), Some(65535));
}

#[test]
fn refuses_what_is_no_port() {
    for bad in [
        "", "+", "-", "-1", "+-1", "++1", "65536", "99999", "4294967296", "100000000000000000000",
        " 80", "80 ", "8 0", "8_0", "0x50", "80.0", "eighty", "８０", "٨٠", "1e3", "+ 1",
    ] {
        assert_eq!(parse_port(bad), None, "{:?}", bad);
    }
}

#[test]
fn parse_port_agrees_with_the_standard_parser() {
    let alphabet = ['0', '1', '6', '9', '+', '-', ' ', 'a'];
    let mut texts = vec![String::new()];
    let mut last = vec![String::new()];
    for _ in 0..4 {
        let mut next = Vec::new();
        for text in &last {
            for c in alphabet {
                next.push(format!("{}{}", text, c));
            }
        }
        texts.extend(next.iter().cloned());
        last = next;
    }
    for n in 0u32..70000 {
        texts.push(n.to_string());
    }
    for text in texts {
        assert_eq!(parse_port(&text), text.parse::<u16>().ok(), "{:?}", text);
    }
}
