use aether_matrix::mcp::config::{default_max_length, default_timeout, ExternalServerConfig};
use aether_matrix::mcp::{McpConfig, TransportType, WebFetchConfig};

#[test]
fn test_default_config() {
    let config = McpConfig::default();
    assert!(config.enabled);
    assert!(config.builtin_tools.enabled);
    assert!(config.builtin_tools.web_fetch.enabled);
}

#[test]
fn test_web_fetch_config_defaults() {
    let config = WebFetchConfig::default();
    assert!(config.enabled);
    assert_eq!(config.max_length, 10000);
    assert_eq!(config.timeout, 10);
}

fn env(vars: &[(&str, &str)]) -> Vec<(String, String)> {
    vars.iter().map(|(k, v)| (k.to_string(), v.to_string())).collect()
}

#[test]
fn env_overrides_apply() {
    let mut config = McpConfig::default();
    config.apply_env_overrides(
        &env(&[
            ("MCP_ENABLED", "False"),
            ("MCP_BUILTIN_WEB_FETCH_MAX_LENGTH", "500"),
            ("MCP_BUILTIN_WEB_FETCH_TIMEOUT", "x"),
        ]),
        None,
    );
    assert!(!config.enabled);
    assert!(config.builtin_tools.enabled);
    assert_eq!(config.builtin_tools.web_fetch.max_length, 500);
    assert_eq!(config.builtin_tools.web_fetch.timeout, 10);
    assert!(config.external_servers.is_empty());

    let server = ExternalServerConfig {
        name: "fs".to_string(),
        transport: TransportType::Stdio,
        enabled: true,
        command: Some("mcp-server-filesystem".to_string()),
        args: None,
        url: None,
    };
    config.apply_env_overrides(&env(&[("MCP_BUILTIN_TOOLS_ENABLED", "false")]), Some(vec![server]));
    assert!(!config.builtin_tools.enabled);
    assert_eq!(config.external_servers.len(), 1);
    assert_eq!(config.external_servers[0].name, "fs");
}

#[test]
fn default_functions() {
    assert_eq!(default_max_length(), 10000);
    assert_eq!(default_timeout(), 10);
    assert!(aether_matrix::mcp::config::default_mcp_enabled());
    assert!(aether_matrix::mcp::config::default_builtin_enabled());
    assert!(aether_matrix::mcp::config::default_web_fetch_enabled());
    assert!(aether_matrix::mcp::config::default_server_enabled());
}
