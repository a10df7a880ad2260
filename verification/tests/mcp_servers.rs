use aether_matrix::mcp::commands::{
    first_line_of, mcp_command, mcp_help_message, mcp_info, server_status_message, tool_list_message, McpCommand,
};
use aether_matrix::mcp::config::{ExternalServerConfig, McpConfig, TransportType};
use aether_matrix::mcp::server::{McpServer, McpServerManager, ServerStatus};

const SEC: u64 = 1_000_000_000;

fn server_config(name: &str, transport: TransportType, enabled: bool) -> ExternalServerConfig {
    ExternalServerConfig {
        name: name.to_string(),
        transport,
        enabled,
        command: Some("npx".to_string()),
        args: Some(vec!["-y".to_string()]),
        url: None,
    }
}

fn config_with(servers: Vec<ExternalServerConfig>) -> McpConfig {
    let mut c = McpConfig::default();
    c.external_servers = servers;
    c
}

#[test]
fn retry_back_off_grows() {
    let mut s = McpServer::new(server_config("fs", TransportType::Stdio, true));
    assert!(s.should_retry(0));
    assert_eq!(s.begin_connect(), Ok(()));
    assert_eq!(s.status(), &ServerStatus::Connecting);
    s.connect_failed("boom".to_string(), 10 * SEC);
    assert_eq!(s.status(), &ServerStatus::Failed("boom".to_string()));
    assert_eq!(s.retry_count(), 1);
    assert!(!s.should_retry(13 * SEC));
    assert!(s.should_retry(13 * SEC + 1));
    s.connect_failed("again".to_string(), 20 * SEC);
    assert!(!s.should_retry(25 * SEC));
    assert!(s.should_retry(25 * SEC + 1));
    s.connect_failed("again".to_string(), 30 * SEC);
    s.connect_failed("again".to_string(), 30 * SEC);
    assert!(!s.should_retry(60 * SEC));
    assert!(s.should_retry(60 * SEC + 1));
    s.connect_succeeded();
    assert!(s.is_connected());
    assert_eq!(s.retry_count(), 0);
}

#[test]
fn disabled_servers_and_other_transports() {
    let s = McpServer::new(server_config("off", TransportType::Stdio, false));
    assert!(!s.should_retry(1000 * SEC));
    let mut h = McpServer::new(server_config("web", TransportType::Http, true));
    assert_eq!(h.begin_connect(), Err("HTTP/SSE transport not implemented yet".to_string()));
}

#[test]
fn manager_keeps_enabled_servers_and_reloads() {
    let config = config_with(vec![
        server_config("a", TransportType::Stdio, true),
        server_config("b", TransportType::Stdio, false),
        server_config("c", TransportType::Sse, true),
    ]);
    let mut m = McpServerManager::new(&config);
    let mut names: Vec<String> = m.get_server_statuses().into_iter().map(|(n, _)| n).collect();
    names.sort();
    assert_eq!(names, vec!["a".to_string(), "c".to_string()]);
    assert!(m.server("b").is_none());

    assert_eq!(m.begin_connect("a"), Some(Ok(())));
    assert!(m.connect_succeeded("a"));
    assert!(m.server("a").unwrap().is_connected());
    assert_eq!(m.begin_connect("zzz"), None);
    assert!(!m.connect_failed("zzz", "x".to_string(), 0));

    let mut due = m.due_servers(0);
    due.sort();
    assert_eq!(due, vec!["a".to_string(), "c".to_string()]);

    let new_config = config_with(vec![
        server_config("a", TransportType::Stdio, true),
        server_config("d", TransportType::Stdio, true),
    ]);
    m.reload_config(&new_config);
    assert!(m.server("c").is_none());
    assert_eq!(m.server("a").unwrap().status(), &ServerStatus::Disconnected);
    assert_eq!(m.server("d").unwrap().status(), &ServerStatus::Disconnected);
}

#[test]
fn mcp_subcommands() {
    assert_eq!(mcp_command(&vec![]), McpCommand::Help);
    assert_eq!(mcp_command(&vec!["list".to_string()]), McpCommand::List);
    assert_eq!(mcp_command(&vec!["servers".to_string(), "x".to_string()]), McpCommand::Servers);
    assert_eq!(mcp_command(&vec!["reload".to_string()]), McpCommand::Reload);
    assert_eq!(mcp_command(&vec!["other".to_string()]), McpCommand::Help);
    assert!(mcp_help_message().starts_with("📖 MCP管理命令帮助：\n\n!mcp <子命令>"));
    assert_eq!(mcp_info().name, "mcp");
}

#[test]
fn first_line_of_descriptions() {
    assert_eq!(first_line_of("one\ntwo"), "one");
    assert_eq!(first_line_of("one\r\ntwo"), "one");
    assert_eq!(first_line_of(""), "无描述");
    assert_eq!(first_line_of("only"), "only");
}

#[test]
fn tool_list_counts_tools() {
    let tools = Some(vec![("web_fetch".to_string(), "Fetch\nmore".to_string())]);
    assert_eq!(
        tool_list_message(&tools),
        "🔧 **可用工具列表**：\n\n• **web_fetch**: Fetch\n\n📊 共 1 个工具可用"
    );
    let statuses = Some(vec![("a".to_string(), ServerStatus::Connected)]);
    assert!(server_status_message(&statuses).contains("a"));
}
