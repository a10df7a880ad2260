use aether_matrix::config::{Config, ConfigError};
use aether_matrix::text::{parse_unsigned_text, u64_to_string};

fn env(vars: &[(&str, &str)]) -> Vec<(String, String)> {
    vars.iter().map(|(k, v)| (k.to_string(), v.to_string())).collect()
}

fn required() -> Vec<(&'static str, &'static str)> {
    vec![
        ("MATRIX_HOMESERVER", "https://matrix.org"),
        ("MATRIX_USERNAME", "test_user"),
        ("MATRIX_PASSWORD", "test_pass"),
        ("OPENAI_API_KEY", "test_key"),
    ]
}

fn with(extra: &[(&'static str, &'static str)]) -> Vec<(String, String)> {
    let mut v = required();
    v.extend_from_slice(extra);
    env(&v)
}

#[test]
fn test_from_env_missing_homeserver() {
    let result = Config::from_env(&env(&[
        ("MATRIX_USERNAME", "test_user"),
        ("MATRIX_PASSWORD", "test_pass"),
        ("OPENAI_API_KEY", "test_key"),
    ]));
    assert!(result.is_err());
    let err = result.unwrap_err().message();
    assert!(err.contains("MATRIX_HOMESERVER"), "错误消息应包含 MATRIX_HOMESERVER: {err}");
}

#[test]
fn test_from_env_missing_username() {
    let result = Config::from_env(&env(&[
        ("MATRIX_HOMESERVER", "https://matrix.org"),
        ("MATRIX_PASSWORD", "test_pass"),
        ("OPENAI_API_KEY", "test_key"),
    ]));
    assert!(result.is_err());
    let err = result.unwrap_err().message();
    assert!(err.contains("MATRIX_USERNAME"), "错误消息应包含 MATRIX_USERNAME: {err}");
}

#[test]
fn test_from_env_missing_password() {
    let result = Config::from_env(&env(&[
        ("MATRIX_HOMESERVER", "https://matrix.org"),
        ("MATRIX_USERNAME", "test_user"),
        ("OPENAI_API_KEY", "test_key"),
    ]));
    assert!(result.is_err());
    let err = result.unwrap_err().message();
    assert!(err.contains("MATRIX_PASSWORD"), "错误消息应包含 MATRIX_PASSWORD: {err}");
}

#[test]
fn test_from_env_missing_api_key() {
    let result = Config::from_env(&env(&[
        ("MATRIX_HOMESERVER", "https://matrix.org"),
        ("MATRIX_USERNAME", "test_user"),
        ("MATRIX_PASSWORD", "test_pass"),
    ]));
    assert!(result.is_err());
    let err = result.unwrap_err().message();
    assert!(err.contains("OPENAI_API_KEY"), "错误消息应包含 OPENAI_API_KEY: {err}");
}

#[test]
fn test_from_env_all_optional_fields() {
    let config = Config::from_env(&env(&[
        ("MATRIX_HOMESERVER", "https://custom.server"),
        ("MATRIX_USERNAME", "custom_user"),
        ("MATRIX_PASSWORD", "custom_pass"),
        ("OPENAI_API_KEY", "sk-custom"),
        ("MATRIX_DEVICE_ID", "DEVICE123"),
        ("DEVICE_DISPLAY_NAME", "Custom Bot"),
        ("STORE_PATH", "/custom/store"),
        ("OPENAI_BASE_URL", "https://api.custom.com/v1"),
        ("OPENAI_MODEL", "gpt-4"),
        ("SYSTEM_PROMPT", "You are a helpful assistant."),
        ("BOT_COMMAND_PREFIX", "!custom"),
        ("MAX_HISTORY", "20"),
        ("STREAMING_ENABLED", "false"),
        ("STREAMING_MIN_INTERVAL_MS", "500"),
        ("STREAMING_MIN_CHARS", "25"),
        ("LOG_LEVEL", "debug"),
    ]))
    .expect("配置应成功加载");
    assert_eq!(config.matrix_homeserver, "https://custom.server");
    assert_eq!(config.matrix_username, "custom_user");
    assert_eq!(config.matrix_password, "custom_pass");
    assert_eq!(config.openai_api_key, "sk-custom");
    assert_eq!(config.matrix_device_id, Some("DEVICE123".to_string()));
    assert_eq!(config.device_display_name, "Custom Bot");
    assert_eq!(config.store_path, "/custom/store");
    assert_eq!(config.openai_base_url, "https://api.custom.com/v1");
    assert_eq!(config.openai_model, "gpt-4");
    assert_eq!(config.system_prompt, Some("You are a helpful assistant.".to_string()));
    assert_eq!(config.command_prefix, "!custom");
    assert_eq!(config.max_history, 20);
    assert!(!config.streaming_enabled);
    assert_eq!(config.streaming_min_interval_ms, 500);
    assert_eq!(config.streaming_min_chars, 25);
    assert_eq!(config.log_level, "debug");
}

#[test]
fn test_from_env_uses_defaults_for_optional() {
    let config = Config::from_env(&with(&[])).expect("配置应成功加载");
    assert_eq!(config.matrix_device_id, None);
    assert_eq!(config.device_display_name, "AI Bot");
    assert_eq!(config.store_path, "./store");
    assert_eq!(config.openai_base_url, "https://api.openai.com/v1");
    assert_eq!(config.openai_model, "gpt-4o-mini");
    assert_eq!(config.system_prompt, None);
    assert_eq!(config.command_prefix, "!");
    assert_eq!(config.max_history, 10);
    assert!(config.streaming_enabled);
    assert_eq!(config.streaming_min_interval_ms, 1000);
    assert_eq!(config.streaming_min_chars, 50);
    assert_eq!(config.log_level, "info");
}

#[test]
fn test_from_env_boolean_parsing() {
    let config = Config::from_env(&with(&[("STREAMING_ENABLED", "false")])).expect("配置应成功加载");
    assert!(!config.streaming_enabled);

    let config = Config::from_env(&with(&[("STREAMING_ENABLED", "true")])).expect("配置应成功加载");
    assert!(config.streaming_enabled);

    let config = Config::from_env(&with(&[("STREAMING_ENABLED", "FALSE")])).expect("配置应成功加载");
    assert!(!config.streaming_enabled);

    let config = Config::from_env(&with(&[("STREAMING_ENABLED", "anything")])).expect("配置应成功加载");
    assert!(config.streaming_enabled);
}

#[test]
fn test_from_env_number_parsing_valid() {
    let config = Config::from_env(&with(&[
        ("MAX_HISTORY", "100"),
        ("STREAMING_MIN_INTERVAL_MS", "2000"),
        ("STREAMING_MIN_CHARS", "200"),
    ]))
    .expect("配置应成功加载");
    assert_eq!(config.max_history, 100);
    assert_eq!(config.streaming_min_interval_ms, 2000);
    assert_eq!(config.streaming_min_chars, 200);
}

#[test]
fn test_from_env_number_parsing_invalid_uses_defaults() {
    let config = Config::from_env(&with(&[
        ("MAX_HISTORY", "not_a_number"),
        ("STREAMING_MIN_INTERVAL_MS", "invalid"),
        ("STREAMING_MIN_CHARS", "abc"),
    ]))
    .expect("配置应成功加载");
    assert_eq!(config.max_history, 10);
    assert_eq!(config.streaming_min_interval_ms, 1000);
    assert_eq!(config.streaming_min_chars, 50);
}

#[test]
fn test_from_env_device_id_optional() {
    let config = Config::from_env(&with(&[])).expect("配置应成功加载");
    assert_eq!(config.matrix_device_id, None);

    let config = Config::from_env(&with(&[("MATRIX_DEVICE_ID", "")])).expect("配置应成功加载");
    assert_eq!(config.matrix_device_id, Some("".to_string()));

    let config = Config::from_env(&with(&[("MATRIX_DEVICE_ID", "MYDEVICE")])).expect("配置应成功加载");
    assert_eq!(config.matrix_device_id, Some("MYDEVICE".to_string()));
}

#[test]
fn test_from_env_system_prompt_optional() {
    let config = Config::from_env(&with(&[])).expect("配置应成功加载");
    assert_eq!(config.system_prompt, None);

    let config =
        Config::from_env(&with(&[("SYSTEM_PROMPT", "Be concise and helpful.")])).expect("配置应成功加载");
    assert_eq!(config.system_prompt, Some("Be concise and helpful.".to_string()));
}

#[test]
fn missing_variables_reported_in_order() {
    let result = Config::from_env(&Vec::new());
    assert_eq!(result.unwrap_err(), ConfigError::MissingHomeserver);
    let result = Config::from_env(&env(&[("MATRIX_HOMESERVER", "h"), ("MATRIX_PASSWORD", "p")]));
    assert_eq!(result.unwrap_err(), ConfigError::MissingUsername);
    assert_eq!(ConfigError::MissingApiKey.variable(), "OPENAI_API_KEY");
    assert!(ConfigError::MissingApiKey.message().starts_with("OPENAI_API_KEY 未设置。"));
}

#[test]
fn owners_are_split_and_trimmed() {
    let config = Config::from_env(&with(&[("BOT_OWNERS", " @a:x , @b:y,,")])).unwrap();
    assert_eq!(config.bot_owners, vec!["@a:x", "@b:y", "", ""]);
    let config = Config::from_env(&with(&[])).unwrap();
    assert!(config.bot_owners.is_empty());
}

#[test]
fn numbers_follow_unsigned_parsing() {
    let config = Config::from_env(&with(&[
        ("MAX_HISTORY", "+7"),
        ("STREAMING_MIN_CHARS", "-3"),
        ("VISION_MAX_IMAGE_SIZE", "4294967296"),
        ("STREAMING_MIN_INTERVAL_MS", " 5"),
    ]))
    .unwrap();
    assert_eq!(config.max_history, 7);
    assert_eq!(config.streaming_min_chars, 50);
    assert_eq!(config.vision_max_image_size, 1024);
    assert_eq!(config.streaming_min_interval_ms, 1000);
}

#[test]
fn later_assignment_wins() {
    let config = Config::from_env(&with(&[("LOG_LEVEL", "warn"), ("LOG_LEVEL", "trace")])).unwrap();
    assert_eq!(config.log_level, "trace");
}

#[test]
fn default_values() {
    let c = Config::default();
    assert_eq!(c.matrix_homeserver, "");
    assert_eq!(c.matrix_username, "");
    assert_eq!(c.matrix_password, "");
    assert_eq!(c.openai_api_key, "");
    assert_eq!(c.command_prefix, "!");
    assert_eq!(c.max_history, 10);
    assert_eq!(c.db_path, "./store/aether.db");
    assert!(c.vision_enabled);
    assert_eq!(c.vision_max_image_size, 1024);
    assert!(c.proxy.is_none());
}

#[test]
fn printed_numbers_parse_back() {
    for n in [0u64, 7, 10, 1234, u64::MAX] {
        assert_eq!(parse_unsigned_text(&u64_to_string(n), u64::MAX), Some(n));
    }
    assert_eq!(parse_unsigned_text(&u64_to_string(1000), 999), None);
    let vars = with(&[("MAX_HISTORY", "42")]);
    assert_eq!(Config::from_env(&vars).unwrap().max_history, 42);
}

#[test]
fn required_settings_fill_the_defaults() {
    let c = Config::from_env(&with(&[])).unwrap();
    let d = Config::default();
    assert_eq!(c.matrix_homeserver, "https://matrix.org");
    assert_eq!(c.matrix_username, "test_user");
    assert_eq!(c.matrix_password, "test_pass");
    assert_eq!(c.openai_api_key, "test_key");
    assert_eq!(format!("{:?}", Config {
        matrix_homeserver: c.matrix_homeserver.clone(),
        matrix_username: c.matrix_username.clone(),
        matrix_password: c.matrix_password.clone(),
        openai_api_key: c.openai_api_key.clone(),
        ..d
    }), format!("{:?}", c));
}
