use rust_dev_server::config::{parse_port, Config, DEFAULT_PORT};

fn text(s: &str) -> Option<String> {
    Some(s.to_string())
}

#[test]
fn parse_port_reads_plain_numbers() {
    assert_eq!(parse_port("3000"), Some(3000));
    assert_eq!(parse_port("0"), Some(0));
    assert_eq!(parse_port("65535"), Some(65535));
    assert_eq!(parse_port("8080"), Some(8080));
}

#[test]
fn parse_port_takes_a_plus_sign_and_leading_zeros() {
    assert_eq!(parse_port("+80"), Some(80));
    assert_eq!(parse_port("0003000"), Some(3000));
    assert_eq!(parse_port("+000"), Some(0));
}

#[test]
fn parse_port_refuses_what_is_no_port() {
    assert_eq!(parse_port(""), None);
    assert_eq!(parse_port("+"), None);
    assert_eq!(parse_port("-1"), None);
    assert_eq!(parse_port("65536"), None);
    assert_eq!(parse_port("99999999999999999999"), None);
    assert_eq!(parse_port(" 80"), None);
    assert_eq!(parse_port("80 "), None);
    assert_eq!(parse_port("8o8o"), None);
    assert_eq!(parse_port("++1"), None);
    assert_eq!(parse_port("١٢"), None);
    assert_eq!(parse_port("12.0"), None);
}

#[test]
fn parse_port_agrees_with_the_standard_parser() {
    let samples = [
        "", "+", "-", "0", "1", "9", "10", "65534", "65535", "65536", "70000", "+65535", "+65536",
        "-0", "00", "000065535", "000065536", "4294967296", "3000", "3 000", "0x10", "1e3", "１２",
        "+-1", "12a", "a12", "\t80", "80\n",
    ];
    for sample in samples {
        assert_eq!(parse_port(sample), sample.parse::<u16>().ok(), "on {:?}", sample);
    }
}

#[test]
fn from_env_falls_back_to_the_defaults() {
    let config = Config::from_env(None, None, None, None);
    assert_eq!(config.port, 3000);
    assert_eq!(config.port, DEFAULT_PORT);
    assert_eq!(config.static_dir, "./public");
    assert_eq!(config.environment, "development");
    assert_eq!(config.log_level, "debug");
}

#[test]
fn from_env_takes_what_is_given() {
    let config = Config::from_env(text("8080"), text("/srv/www"), text("production"), text("info"));
    assert_eq!(config.port, 8080);
    assert_eq!(config.static_dir, "/srv/www");
    assert_eq!(config.environment, "production");
    assert_eq!(config.log_level, "info");
}

#[test]
fn from_env_takes_each_setting_by_itself() {
    let config = Config::from_env(None, text(""), None, text("trace"));
    assert_eq!(config.port, 3000);
    assert_eq!(config.static_dir, "");
    assert_eq!(config.environment, "development");
    assert_eq!(config.log_level, "trace");
}

#[test]
fn config_can_be_copied() {
    let config = Config::from_env(text("+443"), None, text("staging"), None);
    let copy = config.clone();
    assert_eq!(copy.port, 443);
    assert_eq!(copy.environment, "staging");
    assert_eq!(format!("{:?}", copy), format!("{:?}", config));
}
