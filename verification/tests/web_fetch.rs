use aether_matrix::mcp::config::{BuiltinToolsConfig, WebFetchConfig};
use aether_matrix::mcp::tools::{external_tool_name, server_not_connected, BuiltInTools, ToolRegistry, ToolResult, ToolSource};
use aether_matrix::mcp::web_fetch::{
    collapse_whitespace, extract_text, extract_with_selector, truncate_content, FetchRequest, WebFetchError,
    WebFetchParams, WebFetchTool, TOOL_DESCRIPTION, TOOL_NAME,
};

#[test]
fn test_extract_text() {
    let _tool = WebFetchTool::new(WebFetchConfig::default());

    let html = r#"<html><body><p>Hello World</p></body></html>"#;
    let text = extract_text(html);

    assert!(text.contains("Hello World"));
    assert_eq!(text, "Hello World");
}

#[test]
fn test_extract_text_removes_script() {
    let _tool = WebFetchTool::new(WebFetchConfig::default());

    let html = r#"<html><body><script>alert('test');</script><p>Content</p></body></html>"#;
    let text = extract_text(html);

    assert!(text.contains("Content"));
    assert!(!text.contains("alert"));
}

#[test]
fn test_tool_definition() {
    let tool = BuiltInTools::WebFetch(WebFetchTool::new(WebFetchConfig::default()));

    assert_eq!(tool.name(), "web_fetch");
    assert_eq!(TOOL_NAME, "web_fetch");
    assert!(!TOOL_DESCRIPTION.is_empty());
    assert_eq!(tool.source(), ToolSource::BuiltIn);
}

#[test]
fn test_tool_registry_creation() {
    let config = BuiltinToolsConfig::default();
    let registry = ToolRegistry::with_builtins(&config);

    assert!(registry.len() > 0);
    assert!(registry.contains("web_fetch"));
}

#[test]
fn registry_without_builtins_is_empty() {
    let mut config = BuiltinToolsConfig::default();
    config.web_fetch.enabled = false;
    assert!(ToolRegistry::with_builtins(&config).is_empty());
    let mut config = BuiltinToolsConfig::default();
    config.enabled = false;
    assert!(ToolRegistry::with_builtins(&config).is_empty());
}

#[test]
fn registry_replaces_by_name() {
    let mut registry = ToolRegistry::new();
    registry.register("a".to_string(), 1u32);
    registry.register("b".to_string(), 2u32);
    registry.register("a".to_string(), 3u32);
    assert_eq!(registry.len(), 2);
    assert_eq!(registry.get("a"), Some(&3));
    assert_eq!(registry.get("c"), None);
}

#[test]
fn tool_results_and_names() {
    let ok = ToolResult::ok("test content".to_string());
    assert!(ok.success);
    assert_eq!(ok.content, "test content");
    assert!(ok.error.is_none());
    let failed = server_not_connected("fs");
    assert!(!failed.success);
    assert_eq!(failed.error.as_deref(), Some("MCP server fs is not connected"));
    assert_eq!(external_tool_name("fs", "read"), "fs__read");
}

#[test]
fn whitespace_collapses_to_single_spaces() {
    assert_eq!(collapse_whitespace("  a \n\t b   c "), "a b c");
    assert_eq!(collapse_whitespace("   "), "");
}

#[test]
fn selector_extracts_matching_elements() {
    let html = "<html><body><p class=\"x\">one</p><div>skip</div><p class=\"x\">two</p></body></html>";
    assert_eq!(extract_with_selector(html, "p.x"), Ok("one\ntwo".to_string()));
    match extract_with_selector(html, "p[[") {
        Err(WebFetchError::InvalidSelector(_)) => {}
        other => panic!("expected a selector error, got {:?}", other),
    }
}

#[test]
fn long_content_is_truncated_with_a_note() {
    assert_eq!(truncate_content("abcdef".to_string(), 3), "abc...\n\n[Truncated at 3 characters]");
    assert_eq!(truncate_content("abc".to_string(), 3), "abc");
}

#[test]
fn prepare_checks_the_url_and_picks_the_limit() {
    let tool = WebFetchTool::new(WebFetchConfig::default());
    let params = WebFetchParams { url: "https://example.com".to_string(), selector: None, max_length: 0 };
    let req = tool.prepare(&params).unwrap();
    assert_eq!(req.target, "https://example.com/");
    assert_eq!(req.max_len, 10000);
    let params = WebFetchParams { url: "https://example.com".to_string(), selector: None, max_length: 5000 };
    assert_eq!(tool.prepare(&params).unwrap().max_len, 5000);
    let bad = WebFetchParams { url: "not a url".to_string(), selector: None, max_length: 0 };
    assert_eq!(tool.prepare(&bad).unwrap_err(), WebFetchError::InvalidUrl);
    assert_eq!(WebFetchError::InvalidUrl.message(), "Invalid URL");
}

#[test]
fn finish_reports_http_errors_and_cuts_pages() {
    let req = FetchRequest {
        url: "https://example.com".to_string(),
        target: "https://example.com/".to_string(),
        selector: None,
        max_len: 5,
    };
    let res = WebFetchTool::finish(&req, 404, "404 Not Found", "").unwrap();
    assert!(!res.success);
    assert_eq!(res.error.as_deref(), Some("HTTP 404 Not Found: https://example.com"));

    let res = WebFetchTool::finish(&req, 200, "200 OK", "<p>Hello World</p>").unwrap();
    assert!(res.success);
    assert_eq!(res.content, "Hello...\n\n[Truncated at 5 characters]");

    // The limit counts characters: five of them, however many bytes each.
    let res = WebFetchTool::finish(&req, 200, "200 OK", "<p>你好世界，再见</p>").unwrap();
    assert!(res.success);
    assert_eq!(res.content, "你好世界，...\n\n[Truncated at 5 characters]");
    let res = WebFetchTool::finish(&req, 200, "200 OK", "<p>你好世界</p>").unwrap();
    assert_eq!(res.content, "你好世界");
}
