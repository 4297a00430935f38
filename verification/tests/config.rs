use jellyfin_exporter::config::{flag_from_lowercase_text, Config, ConfigError, EnvValues, LogLevel};

fn no_env() -> EnvValues {
    EnvValues {
        jellyfin_url: None,
        jellyfin_api_key: None,
        port: None,
        scrape_interval_ms: None,
        log_level: None,
        request_timeout_ms: None,
        retry_max_attempts: None,
        retry_base_delay_ms: None,
        circuit_breaker_threshold: None,
        circuit_breaker_reset_ms: None,
        metrics_token: None,
        expose_remote_address: None,
    }
}

fn required_env() -> EnvValues {
    EnvValues {
        jellyfin_url: Some("http://jellyfin:8096".to_owned()),
        jellyfin_api_key: Some("test-api-key".to_owned()),
        ..no_env()
    }
}

fn load(env: &EnvValues) -> Result<Config, ConfigError> {
    assert!(!Config::retry_delay_overflows(env));
    Config::from_env_values(env)
}

fn invalid_name(err: &ConfigError) -> &str {
    match err {
        ConfigError::InvalidValue { name, .. } => name,
        ConfigError::MissingEnvVar { .. } => panic!("expected an invalid value, got {err:?}"),
    }
}

fn missing_name(err: &ConfigError) -> &str {
    match err {
        ConfigError::MissingEnvVar { name } => name,
        ConfigError::InvalidValue { .. } => panic!("expected a missing variable, got {err:?}"),
    }
}

#[test]
fn valid_config_with_defaults() {
    let config = load(&required_env()).unwrap();

    assert_eq!(config.jellyfin_url, "http://jellyfin:8096");
    assert_eq!(config.jellyfin_api_key, "test-api-key");
    assert_eq!(config.port, 9711);
    assert_eq!(config.scrape_interval_ms, 10_000);
    assert_eq!(config.log_level, LogLevel::Info);
    assert_eq!(config.request_timeout_ms, 5000);
    assert_eq!(config.retry_max_attempts, 3);
    assert_eq!(config.retry_base_delay_ms, 500);
    assert_eq!(config.retry_max_delay_ms, 5000);
    assert_eq!(config.circuit_breaker_threshold, 5);
    assert_eq!(config.circuit_breaker_reset_ms, 60_000);
    assert!(!config.expose_remote_address);
}

#[test]
fn expose_remote_address_parses() {
    let env = EnvValues { expose_remote_address: Some("true".to_owned()), ..required_env() };
    let config = load(&env).unwrap();
    assert!(config.expose_remote_address);
}

#[test]
fn expose_remote_address_rejects_garbage() {
    let env = EnvValues { expose_remote_address: Some("maybe".to_owned()), ..required_env() };
    let err = load(&env).err().expect("expected an error");
    assert_eq!(invalid_name(&err), "EXPOSE_REMOTE_ADDRESS");
}

#[test]
fn trailing_slash_stripped() {
    let env = EnvValues { jellyfin_url: Some("http://jellyfin:8096///".to_owned()), ..required_env() };
    let config = load(&env).unwrap();
    assert_eq!(config.jellyfin_url, "http://jellyfin:8096");
}

#[test]
fn missing_url_fails() {
    let env = EnvValues { jellyfin_api_key: Some("key".to_owned()), ..no_env() };
    let err = load(&env).err().expect("expected an error");
    assert_eq!(missing_name(&err), "JELLYFIN_URL");
}

#[test]
fn missing_api_key_fails() {
    let env = EnvValues { jellyfin_url: Some("http://jellyfin:8096".to_owned()), ..no_env() };
    let err = load(&env).err().expect("expected an error");
    assert_eq!(missing_name(&err), "JELLYFIN_API_KEY");
}

#[test]
fn empty_required_var_fails() {
    let env = EnvValues {
        jellyfin_url: Some("http://jellyfin:8096".to_owned()),
        jellyfin_api_key: Some(String::new()),
        ..no_env()
    };
    let err = load(&env).err().expect("expected an error");
    assert_eq!(missing_name(&err), "JELLYFIN_API_KEY");
}

#[test]
fn invalid_port_fails() {
    let env = EnvValues { port: Some("not-a-number".to_owned()), ..required_env() };
    let err = load(&env).err().expect("expected an error");
    assert_eq!(invalid_name(&err), "PORT");
}

#[test]
fn port_zero_fails() {
    let env = EnvValues { port: Some("0".to_owned()), ..required_env() };
    let err = load(&env).err().expect("expected an error");
    assert_eq!(invalid_name(&err), "PORT");
}

#[test]
fn scrape_interval_too_low_fails() {
    let env = EnvValues { scrape_interval_ms: Some("500".to_owned()), ..required_env() };
    let err = load(&env).err().expect("expected an error");
    assert_eq!(invalid_name(&err), "SCRAPE_INTERVAL_MS");
}

#[test]
fn invalid_log_level_fails() {
    let env = EnvValues { log_level: Some("verbose".to_owned()), ..required_env() };
    let err = load(&env).err().expect("expected an error");
    assert_eq!(invalid_name(&err), "LOG_LEVEL");
}

#[test]
fn log_level_case_insensitive() {
    let env = EnvValues { log_level: Some("DEBUG".to_owned()), ..required_env() };
    let config = load(&env).unwrap();
    assert_eq!(config.log_level, LogLevel::Debug);
}

#[test]
fn custom_optional_values() {
    let env = EnvValues {
        port: Some("3000".to_owned()),
        scrape_interval_ms: Some("30000".to_owned()),
        request_timeout_ms: Some("10000".to_owned()),
        retry_max_attempts: Some("5".to_owned()),
        retry_base_delay_ms: Some("1000".to_owned()),
        circuit_breaker_threshold: Some("10".to_owned()),
        circuit_breaker_reset_ms: Some("120000".to_owned()),
        ..required_env()
    };

    let config = load(&env).unwrap();
    assert_eq!(config.port, 3000);
    assert_eq!(config.scrape_interval_ms, 30_000);
    assert_eq!(config.request_timeout_ms, 10_000);
    assert_eq!(config.retry_max_attempts, 5);
    assert_eq!(config.retry_base_delay_ms, 1000);
    assert_eq!(config.retry_max_delay_ms, 10_000);
    assert_eq!(config.circuit_breaker_threshold, 10);
    assert_eq!(config.circuit_breaker_reset_ms, 120_000);
}

#[test]
fn debug_redacts_api_key() {
    let config = load(&required_env()).unwrap();
    let debug_output = config.debug_text();

    assert!(debug_output.contains("[REDACTED]"));
    assert!(!debug_output.contains("test-api-key"));
}

#[test]
fn circuit_breaker_threshold_zero_fails() {
    let env = EnvValues { circuit_breaker_threshold: Some("0".to_owned()), ..required_env() };
    let err = load(&env).err().expect("expected an error");
    assert_eq!(invalid_name(&err), "CIRCUIT_BREAKER_THRESHOLD");
}

#[test]
fn request_timeout_too_low_fails() {
    let env = EnvValues { request_timeout_ms: Some("50".to_owned()), ..required_env() };
    let err = load(&env).err().expect("expected an error");
    assert_eq!(invalid_name(&err), "REQUEST_TIMEOUT_MS");
}

// -- Further cases --

#[test]
fn debug_text_layout() {
    let env = EnvValues { metrics_token: Some("s3cret".to_owned()), ..required_env() };
    let config = load(&env).unwrap();
    assert_eq!(
        config.debug_text(),
        "Config { jellyfin_url: \"http://jellyfin:8096\", jellyfin_api_key: \"[REDACTED]\", \
         port: 9711, scrape_interval_ms: 10000, log_level: Info, request_timeout_ms: 5000, \
         retry_max_attempts: 3, retry_base_delay_ms: 500, retry_max_delay_ms: 5000, \
         circuit_breaker_threshold: 5, circuit_breaker_reset_ms: 60000, \
         metrics_token: Some(\"[REDACTED]\"), expose_remote_address: false }"
    );
}

#[test]
fn debug_text_escapes_the_url() {
    let env = EnvValues { jellyfin_url: Some("http://a\"b".to_owned()), ..required_env() };
    let config = load(&env).unwrap();
    assert!(config.debug_text().starts_with("Config { jellyfin_url: \"http://a\\\"b\", "));
}

#[test]
fn error_messages() {
    let err = load(&no_env()).err().expect("expected an error");
    assert_eq!(err.message(), "required environment variable JELLYFIN_URL is not set");

    let env = EnvValues { port: Some("0".to_owned()), ..required_env() };
    let err = load(&env).err().expect("expected an error");
    assert_eq!(err.message(), "invalid value for PORT=0: must be between 1 and 65535");

    let env = EnvValues { port: Some("70000".to_owned()), ..required_env() };
    let err = load(&env).err().expect("expected an error");
    assert_eq!(
        err.message(),
        "invalid value for PORT=70000: number too large to fit in target type"
    );

    let env = EnvValues { port: Some("12a".to_owned()), ..required_env() };
    let err = load(&env).err().expect("expected an error");
    assert_eq!(err.message(), "invalid value for PORT=12a: invalid digit found in string");

    let env = EnvValues { port: Some(String::new()), ..required_env() };
    let err = load(&env).err().expect("expected an error");
    assert_eq!(
        err.message(),
        "invalid value for PORT=: cannot parse integer from empty string"
    );
}

#[test]
fn expose_remote_address_accepts_false_and_case() {
    let env = EnvValues { expose_remote_address: Some("FALSE".to_owned()), ..required_env() };
    assert!(!load(&env).unwrap().expose_remote_address);
    let env = EnvValues { expose_remote_address: Some("True".to_owned()), ..required_env() };
    assert!(load(&env).unwrap().expose_remote_address);
}

#[test]
fn metrics_token_kept_when_set() {
    let env = EnvValues { metrics_token: Some("tok".to_owned()), ..required_env() };
    assert_eq!(load(&env).unwrap().metrics_token.as_deref(), Some("tok"));
    assert_eq!(load(&required_env()).unwrap().metrics_token, None);
}

#[test]
fn retry_delay_overflow_detected() {
    let env = EnvValues {
        retry_base_delay_ms: Some("18446744073709551615".to_owned()),
        ..required_env()
    };
    assert!(Config::retry_delay_overflows(&env));
}

#[test]
fn log_level_parse_and_text() {
    assert_eq!(LogLevel::parse("Warn").unwrap(), LogLevel::Warn);
    assert_eq!(LogLevel::parse("trace").unwrap(), LogLevel::Trace);
    assert_eq!(LogLevel::Error.as_str(), "error");
    assert!(LogLevel::parse("loud").is_err());
}

#[test]
fn plaintext_http_detected() {
    let config = load(&required_env()).unwrap();
    assert!(config.uses_plaintext_http());
    let env = EnvValues { jellyfin_url: Some("https://jf.example".to_owned()), ..required_env() };
    assert!(!load(&env).unwrap().uses_plaintext_http());
}

#[test]
fn debug_text_around_places_the_rendered_url() {
    let config = load(&required_env()).unwrap();
    let t = config.debug_text_around("<url>");
    assert!(t.starts_with("Config { jellyfin_url: <url>, jellyfin_api_key: \"[REDACTED]\", port: 9711,"));
    assert!(t.ends_with("metrics_token: None, expose_remote_address: false }"));
}

#[test]
fn log_level_uses_unicode_lowercase() {
    // `İ` lowercases to `i` followed by a combining dot: not a level name.
    assert!(LogLevel::parse("İNFO").is_err());
    assert_eq!(LogLevel::parse("iNfO").unwrap(), LogLevel::Info);
    assert_eq!(LogLevel::from_lowercase("warn", "WARN").unwrap(), LogLevel::Warn);
    match LogLevel::from_lowercase("loud", "LOUD") {
        Err(ConfigError::InvalidValue { name, value, .. }) => {
            assert_eq!(name, "LOG_LEVEL");
            assert_eq!(value, "LOUD");
        }
        _ => panic!("expected an invalid value"),
    }
}

#[test]
fn flag_words_from_lowercase() {
    assert_eq!(flag_from_lowercase_text("F", "yes", "YES").unwrap(), true);
    assert_eq!(flag_from_lowercase_text("F", "", "").unwrap(), false);
    match flag_from_lowercase_text("F", "maybe", "Maybe") {
        Err(ConfigError::InvalidValue { value, .. }) => assert_eq!(value, "Maybe"),
        _ => panic!("expected an invalid value"),
    }
}
