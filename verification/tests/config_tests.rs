use rust_web_scrapper::config::{parse_port, Config, PortError, DEFAULT_HOST, DEFAULT_PORT};
use rust_web_scrapper::error::AppError;

#[test]
fn ports_are_read() {
    assert_eq!(parse_port("3000"), Ok(3000));
    assert_eq!(parse_port("0"), Ok(0));
    assert_eq!(parse_port("65535"), Ok(65535));
    assert_eq!(parse_port("+8080"), Ok(8080));
    assert_eq!(parse_port("0080"), Ok(80));
    assert_eq!(parse_port("000000065535"), Ok(65535));
}

#[test]
fn bad_ports_are_refused() {
    assert_eq!(parse_port(""), Err(PortError::Empty));
    assert_eq!(parse_port("+"), Err(PortError::InvalidDigit));
    assert_eq!(parse_port("-"), Err(PortError::InvalidDigit));
    assert_eq!(parse_port("-1"), Err(PortError::InvalidDigit));
    assert_eq!(parse_port("80 "), Err(PortError::InvalidDigit));
    assert_eq!(parse_port(" 80"), Err(PortError::InvalidDigit));
    assert_eq!(parse_port("8o80"), Err(PortError::InvalidDigit));
    assert_eq!(parse_port("++80"), Err(PortError::InvalidDigit));
    assert_eq!(parse_port("65536"), Err(PortError::TooLarge));
    assert_eq!(parse_port("99999"), Err(PortError::TooLarge));
    assert_eq!(parse_port("100000"), Err(PortError::TooLarge));
}

fn words_of(error: PortError) -> &'static str {
    match error {
        PortError::Empty => "cannot parse integer from empty string",
        PortError::InvalidDigit => "invalid digit found in string",
        PortError::TooLarge => "number too large to fit in target type",
    }
}

#[test]
fn ports_agree_with_the_standard_library() {
    let alphabet = ['0', '1', '5', '6', '9', '+', '-', 'x', ' '];
    let mut texts: Vec<String> = vec![String::new()];
    let mut layer: Vec<String> = vec![String::new()];
    for _ in 0..6 {
        let mut next = Vec::new();
        for text in layer.iter() {
            for c in alphabet.iter() {
                let mut longer = text.clone();
                longer.push(*c);
                next.push(longer);
            }
        }
        texts.extend(next.iter().cloned());
        layer = next;
    }
    for text in texts.iter() {
        match (parse_port(text), text.parse::<u16>()) {
            (Ok(ours), Ok(theirs)) => assert_eq!(ours, theirs, "{:?}", text),
            (Err(ours), Err(theirs)) => {
                assert_eq!(words_of(ours), theirs.to_string(), "{:?}", text)
            }
            (ours, theirs) => panic!("{:?}: {:?} against {:?}", text, ours, theirs),
        }
    }
}

#[test]
fn defaults_stand_in_for_missing_settings() {
    assert_eq!(DEFAULT_HOST, "127.0.0.1");
    assert_eq!(DEFAULT_PORT, "3000");
    let config = Config::load(Ok("key".to_string()), None, None).unwrap();
    assert_eq!(config.host, "127.0.0.1");
    assert_eq!(config.port, 3000);
    assert_eq!(config.openrouter_api_key, "key");
}

#[test]
fn settings_are_taken_where_given() {
    let config = Config::load(
        Ok("key".to_string()),
        Some(Ok("0.0.0.0".to_string())),
        Some("8080".to_string()),
    )
    .unwrap();
    assert_eq!(config.host, "0.0.0.0");
    assert_eq!(config.port, 8080);
}

#[test]
fn missing_key_is_a_configuration_error() {
    let missing = Err("environment variable not found".to_string());
    match Config::load(missing, None, Some("not a port".to_string())) {
        Err(AppError::ConfigError(message)) => {
            assert_eq!(message, "environment variable not found")
        }
        _ => panic!("a missing key must be a configuration error"),
    }
}

#[test]
fn bad_port_is_a_configuration_error() {
    let cases = [
        ("", "Invalid port: cannot parse integer from empty string"),
        ("http", "Invalid port: invalid digit found in string"),
        ("70000", "Invalid port: number too large to fit in target type"),
    ];
    for (port, expected) in cases {
        match Config::load(Ok("key".to_string()), None, Some(port.to_string())) {
            Err(AppError::ConfigError(message)) => assert_eq!(message, expected),
            _ => panic!("a bad port must be a configuration error"),
        }
    }
}

#[test]
fn bad_host_is_a_configuration_error() {
    let host = Some(Err("invalid IP address syntax".to_string()));
    match Config::load(Ok("key".to_string()), host, None) {
        Err(AppError::ConfigError(message)) => {
            assert_eq!(message, "Invalid host address: invalid IP address syntax")
        }
        _ => panic!("a bad host must be a configuration error"),
    }
}

#[test]
fn settings_are_judged_in_their_order() {
    let bad_host = || Some(Err("invalid IP address syntax".to_string()));
    match Config::load(Err("no key".to_string()), bad_host(), Some("x".to_string())) {
        Err(AppError::ConfigError(message)) => assert_eq!(message, "no key"),
        _ => panic!("the key comes first"),
    }
    match Config::load(Ok("key".to_string()), bad_host(), Some("x".to_string())) {
        Err(AppError::ConfigError(message)) => {
            assert_eq!(message, "Invalid port: invalid digit found in string")
        }
        _ => panic!("the port comes before the host"),
    }
    match Config::load(Ok("key".to_string()), bad_host(), Some("80".to_string())) {
        Err(AppError::ConfigError(message)) => {
            assert_eq!(message, "Invalid host address: invalid IP address syntax")
        }
        _ => panic!("the host comes last"),
    }
}
