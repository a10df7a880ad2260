//! Tool calling over the Model Context Protocol: settings, the tool
//! registry, the built-in web-fetch tool and the state of external servers.

pub mod config;
pub mod tools;
pub mod web_fetch;
pub mod server;
pub mod commands;

pub use config::{BuiltinToolsConfig, ExternalServerConfig, McpConfig, TransportType, WebFetchConfig};
pub use tools::{BuiltInTools, ToolRegistry, ToolResult, ToolSource};
