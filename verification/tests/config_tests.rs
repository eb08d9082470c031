use sfu_core::config::{ConfigError, EnvOverrides, ServerConfig, from_env, parse_url_list};

#[test]
fn test_default_config() {
    let config = ServerConfig::default();
    assert_eq!(config.signaling_port, 8080);
    assert_eq!(config.listen_address, "0.0.0.0");
    assert!(!config.ice_servers.is_empty());
}

#[test]
fn test_config_validation() {
    let config = ServerConfig::default();
    assert!(config.validate().is_ok());

    let mut invalid_config = ServerConfig::default();
    invalid_config.signaling_port = 0;
    assert!(invalid_config.validate().is_err());
}

#[test]
fn test_validation_error_kinds() {
    let mut config = ServerConfig::default();
    config.max_participants_per_room = 0;
    assert_eq!(config.validate(), Err(ConfigError::ZeroMaxParticipants));

    let mut config = ServerConfig::default();
    config.ice_servers.clear();
    assert_eq!(config.validate(), Err(ConfigError::NoIceServers));

    let mut config = ServerConfig::default();
    config.tls_enabled = true;
    assert_eq!(config.validate(), Err(ConfigError::TlsWithoutCertOrKey));
    config.tls_cert_path = Some("/tmp/cert.pem".to_string());
    config.tls_key_path = Some("/tmp/key.pem".to_string());
    assert!(config.validate().is_ok());

    let mut config = ServerConfig::default();
    config.signaling_port = 0;
    assert_eq!(config.validate(), Err(ConfigError::ZeroPort));
    assert_eq!(ConfigError::ZeroPort.as_str(), "Signaling port cannot be 0");
}

#[test]
fn test_from_env_defaults() {
    let config = from_env(&EnvOverrides::default()).unwrap();
    assert_eq!(config.signaling_port, 8080);
    assert_eq!(config.listen_address, "0.0.0.0");
    assert_eq!(config.max_participants_per_room, 50);
    assert_eq!(config.ice_servers.len(), 3);
    assert!(!config.verbose_logging);
    assert!(!config.tls_enabled);
}

#[test]
fn test_from_env_overrides() {
    let mut env = EnvOverrides::default();
    env.signaling_port = Some("9000".to_string());
    env.listen_address = Some("127.0.0.1".to_string());
    env.max_participants = Some("4".to_string());
    env.verbose_logging = Some("true".to_string());
    env.turn_url = Some("turn:turn.example.com:3478".to_string());
    env.turn_username = Some("user".to_string());
    env.turn_credential = Some("pass".to_string());
    let config = from_env(&env).unwrap();
    assert_eq!(config.signaling_port, 9000);
    assert_eq!(config.listen_address, "127.0.0.1");
    assert_eq!(config.max_participants_per_room, 4);
    assert!(config.verbose_logging);
    assert_eq!(config.ice_servers.len(), 4);
    let turn = &config.ice_servers[3];
    assert_eq!(turn.urls, vec!["turn:turn.example.com:3478".to_string()]);
    assert_eq!(turn.username, Some("user".to_string()));
    assert_eq!(turn.credential, Some("pass".to_string()));
}

#[test]
fn test_from_env_rejects_bad_numbers() {
    let mut env = EnvOverrides::default();
    env.signaling_port = Some("eighty".to_string());
    assert!(from_env(&env).is_err());

    let mut env = EnvOverrides::default();
    env.signaling_port = Some("70000".to_string());
    assert!(from_env(&env).is_err());

    let mut env = EnvOverrides::default();
    env.max_participants = Some("-1".to_string());
    assert!(from_env(&env).is_err());
}

#[test]
fn test_from_env_turn_url_list() {
    let mut env = EnvOverrides::default();
    env.turn_urls = Some(" turn:a:1 , turn:b:2 ,, ".to_string());
    let config = from_env(&env).unwrap();
    assert_eq!(config.ice_servers.len(), 4);
    assert_eq!(
        config.ice_servers[3].urls,
        vec!["turn:a:1".to_string(), "turn:b:2".to_string()]
    );
}

#[test]
fn test_parse_url_list_drops_empty_pieces() {
    assert_eq!(parse_url_list(""), Vec::<String>::new());
    assert_eq!(parse_url_list(" , ,"), Vec::<String>::new());
    assert_eq!(parse_url_list("a,b"), vec!["a".to_string(), "b".to_string()]);
}
