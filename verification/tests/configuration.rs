use water_executor::config::{
    parse_port, resolve_config, resolve_host, resolve_port, DEFAULT_CORE_PORT,
};

#[test]
fn parse_port_accepts_plain_numerals() {
    assert_eq!(parse_port("80"), Some(80));
    assert_eq!(parse_port("5633"), Some(5633));
    assert_eq!(parse_port("0"), Some(0));
    assert_eq!(parse_port("007"), Some(7));
    assert_eq!(parse_port("4294967295"), Some(u32::MAX));
}

#[test]
fn parse_port_accepts_a_leading_plus() {
    assert_eq!(parse_port("+5633"), Some(5633));
    assert_eq!(parse_port("+0"), Some(0));
}

#[test]
fn parse_port_rejects_everything_else() {
    assert_eq!(parse_port(""), None);
    assert_eq!(parse_port("+"), None);
    assert_eq!(parse_port("-1"), None);
    assert_eq!(parse_port("12a"), None);
    assert_eq!(parse_port("a12"), None);
    assert_eq!(parse_port(" 80"), None);
    assert_eq!(parse_port("++80"), None);
    assert_eq!(parse_port("4294967296"), None);
    assert_eq!(parse_port("99999999999999999999999"), None);
}

#[test]
fn host_resolution_prefers_file_then_environment() {
    assert_eq!(
        resolve_host(Some("from-file".to_string()), Some("from-env".to_string())),
        "from-file"
    );
    assert_eq!(resolve_host(None, Some("from-env".to_string())), "from-env");
    assert_eq!(resolve_host(None, None), "127.0.0.1");
}

#[test]
fn port_resolution_prefers_file_then_parsable_environment() {
    assert_eq!(resolve_port(Some(9000), Some("1234".to_string())), 9000);
    assert_eq!(resolve_port(None, Some("1234".to_string())), 1234);
    assert_eq!(resolve_port(None, Some("not a port".to_string())), DEFAULT_CORE_PORT);
    assert_eq!(resolve_port(None, None), DEFAULT_CORE_PORT);
    assert_eq!(DEFAULT_CORE_PORT, 5633);
}

#[test]
fn config_resolution_combines_both_fields() {
    let c = resolve_config(None, None, None, None);
    assert_eq!(c.core_host, "127.0.0.1");
    assert_eq!(c.core_port, 5633);

    let c = resolve_config(
        Some("core.test".to_string()),
        Some(4000),
        Some("ignored".to_string()),
        Some("ignored".to_string()),
    );
    assert_eq!(c.core_host, "core.test");
    assert_eq!(c.core_port, 4000);

    let c = resolve_config(None, None, Some("env-host".to_string()), Some("+81".to_string()));
    assert_eq!(c.core_host, "env-host");
    assert_eq!(c.core_port, 81);
}
