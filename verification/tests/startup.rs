use site::config::{ConfigError, load_config, parse_port, split_addr};

#[test]
fn ports_parse_exactly() {
    assert_eq!(parse_port("0"), Some(0));
    assert_eq!(parse_port("3000"), Some(3000));
    assert_eq!(parse_port("65535"), Some(65535));
    assert_eq!(parse_port("070"), Some(70));
    assert_eq!(parse_port("65536"), None);
    assert_eq!(parse_port(""), None);
    assert_eq!(parse_port("123456"), None);
    assert_eq!(parse_port("80a"), None);
    assert_eq!(parse_port("-1"), None);
}

#[test]
fn addresses_split_exactly() {
    let (host, port) = split_addr("127.0.0.1:3000").unwrap();
    assert_eq!(host, "127.0.0.1");
    assert_eq!(port, 3000);
    let (host, port) = split_addr("localhost:8080").unwrap();
    assert_eq!(host, "localhost");
    assert_eq!(port, 8080);
    assert!(split_addr(":3000").is_none());
    assert!(split_addr("localhost:").is_none());
    assert!(split_addr("localhost").is_none());
    assert!(split_addr("a:b:c").is_none());
    assert!(split_addr("").is_none());
}

#[test]
fn startup_fails_fast_without_address() {
    let r = load_config(None, Some(String::from("target/site")));
    assert_eq!(r.unwrap_err(), ConfigError::MissingSiteAddr);
    let r = load_config(None, None);
    assert_eq!(r.unwrap_err(), ConfigError::MissingSiteAddr);
}

#[test]
fn startup_fails_fast_on_invalid_address() {
    let r = load_config(Some(String::from("not an address")), Some(String::from(".")));
    assert_eq!(r.unwrap_err(), ConfigError::InvalidSiteAddr);
    let r = load_config(Some(String::from("host:99999")), Some(String::from(".")));
    assert_eq!(r.unwrap_err(), ConfigError::InvalidSiteAddr);
}

#[test]
fn startup_fails_fast_without_site_root() {
    let r = load_config(Some(String::from("127.0.0.1:3000")), None);
    assert_eq!(r.unwrap_err(), ConfigError::MissingSiteRoot);
}

#[test]
fn startup_succeeds_with_complete_settings() {
    let c = load_config(
        Some(String::from("0.0.0.0:8080")),
        Some(String::from("target/site")),
    )
    .unwrap();
    assert_eq!(c.host, "0.0.0.0");
    assert_eq!(c.port, 8080);
    assert_eq!(c.site_root, "target/site");
}
