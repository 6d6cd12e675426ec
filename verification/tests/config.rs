use vector_screen::config::Config;

#[test]
fn default_config() {
    let config = Config::default();
    assert_eq!(config.printer.ip, "192.168.1.100");
    assert_eq!(config.printer.port, 7125);
    assert_eq!(config.logging.level, "info");
}

#[test]
fn config_overrides_apply_and_bad_port_is_ignored() {
    let mut config = Config::default();
    config.apply_overrides(Some("10.0.0.9".to_string()), Some("8081".to_string()), Some("debug".to_string()));
    assert_eq!(config.printer.ip, "10.0.0.9");
    assert_eq!(config.printer.port, 8081);
    assert_eq!(config.logging.level, "debug");

    config.apply_overrides(None, Some("70000".to_string()), None);
    assert_eq!(config.printer.port, 8081);
    config.apply_overrides(None, Some("+80".to_string()), None);
    assert_eq!(config.printer.port, 80);
    config.apply_overrides(None, Some(" 90".to_string()), None);
    assert_eq!(config.printer.port, 80);
    assert_eq!(config.printer.ip, "10.0.0.9");
}

#[test]
fn config_unconfigured_uses_local_printer() {
    let mut config = Config::unconfigured();
    assert_eq!(config.printer.ip, "127.0.0.1");
    assert_eq!(config.printer.port, 7125);
    assert_eq!(config.logging.level, "info");
    assert!(config.printers.is_empty());
    config.apply_overrides(Some("10.0.0.9".into()), None, None);
    assert_eq!(config.printer.ip, "10.0.0.9");
}
