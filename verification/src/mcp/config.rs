//! Settings of the tool-calling feature, with the environment variables
//! that override them.

use vstd::prelude::*;

use crate::config::{env_get, env_value, is_false_word, opt_view, strings_view};
use crate::text::{lowercase_eq, parse_unsigned, parse_unsigned_text};

verus! {

/// Default of `McpConfig::enabled`.
pub fn default_mcp_enabled() -> (r: bool)
    ensures
        r,
{
    true
}

/// Default of `BuiltinToolsConfig::enabled`.
pub fn default_builtin_enabled() -> (r: bool)
    ensures
        r,
{
    true
}

/// Default of `WebFetchConfig::enabled`.
pub fn default_web_fetch_enabled() -> (r: bool)
    ensures
        r,
{
    true
}

/// Default of `WebFetchConfig::max_length`, in characters.
pub fn default_max_length() -> (r: usize)
    ensures
        r == 10000,
{
    10000
}

/// Default of `WebFetchConfig::timeout`, in seconds.
pub fn default_timeout() -> (r: u64)
    ensures
        r == 10,
{
    10
}

/// Default of `ExternalServerConfig::enabled`.
pub fn default_server_enabled() -> (r: bool)
    ensures
        r,
{
    true
}

/// How an external server is reached.
#[derive(Debug, Clone, Copy, PartialEq, Eq, Structural)]
pub enum TransportType {
    /// A child process spoken to over standard input and output.
    Stdio,
    /// HTTP.
    Http,
    /// Server-sent events.
    Sse,
}

/// An external tool server.
#[derive(Debug, Clone)]
pub struct ExternalServerConfig {
    /// Name of the server; its tools are registered as `{name}__{tool}`.
    pub name: String,
    /// Transport.
    pub transport: TransportType,
    /// Whether the server is used.
    pub enabled: bool,
    /// Command of a stdio server.
    pub command: Option<String>,
    /// Arguments of a stdio server.
    pub args: Option<Vec<String>>,
    /// URL of an HTTP or SSE server.
    pub url: Option<String>,
}

/// An external server's settings as mathematical values.
pub struct ServerConfigView {
    pub name: Seq<char>,
    pub transport: TransportType,
    pub enabled: bool,
    pub command: Option<Seq<char>>,
    pub args: Option<Seq<Seq<char>>>,
    pub url: Option<Seq<char>>,
}

/// View of an optional list of strings.
pub open spec fn opt_strings_view(o: Option<Vec<String>>) -> Option<Seq<Seq<char>>> {
    match o {
        Some(v) => Some(strings_view(v@)),
        None => None,
    }
}

impl View for ExternalServerConfig {
    type V = ServerConfigView;

    open spec fn view(&self) -> ServerConfigView {
        ServerConfigView {
            name: self.name@,
            transport: self.transport,
            enabled: self.enabled,
            command: opt_view(self.command),
            args: opt_strings_view(self.args),
            url: opt_view(self.url),
        }
    }
}

fn copy_opt_string(o: &Option<String>) -> (r: Option<String>)
    ensures
        opt_view(r) == opt_view(*o),
{
    match o {
        Some(s) => Some(s.clone()),
        None => None,
    }
}

fn copy_strings(v: &Vec<String>) -> (r: Vec<String>)
    ensures
        strings_view(r@) == strings_view(v@),
{
    let mut r: Vec<String> = Vec::new();
    let mut i: usize = 0;
    while i < v.len()
        invariant
            i <= v.len(),
            strings_view(r@) =~= strings_view(v@.take(i as int)),
        decreases v.len() - i,
    {
        let ghost prev = r@;
        r.push(v[i].clone());
        assert(strings_view(r@) =~= strings_view(prev).push(v@[i as int]@));
        assert(strings_view(v@.take(i + 1)) =~= strings_view(v@.take(i as int)).push(v@[i as int]@));
        i += 1;
    }
    assert(v@.take(v.len() as int) =~= v@);
    r
}

impl ExternalServerConfig {
    /// A copy with the same settings.
    pub fn duplicate(&self) -> (r: Self)
        ensures
            r@ == self@,
    {
        ExternalServerConfig {
            name: self.name.clone(),
            transport: self.transport,
            enabled: self.enabled,
            command: copy_opt_string(&self.command),
            args: match &self.args {
                Some(v) => Some(copy_strings(v)),
                None => None,
            },
            url: copy_opt_string(&self.url),
        }
    }
}

/// Settings of the web-fetch tool.
#[derive(Debug, Clone, Copy)]
pub struct WebFetchConfig {
    /// Whether the tool is offered.
    pub enabled: bool,
    /// Longest content handed back, in characters.
    pub max_length: usize,
    /// Request timeout, in seconds.
    pub timeout: u64,
}

/// Settings of the built-in tools.
#[derive(Debug, Clone, Copy)]
pub struct BuiltinToolsConfig {
    /// Whether built-in tools are offered.
    pub enabled: bool,
    /// The web-fetch tool.
    pub web_fetch: WebFetchConfig,
}

/// Settings of the tool-calling feature.
#[derive(Debug, Clone)]
pub struct McpConfig {
    /// Whether tool calling is on.
    pub enabled: bool,
    /// Built-in tools.
    pub builtin_tools: BuiltinToolsConfig,
    /// External servers.
    pub external_servers: Vec<ExternalServerConfig>,
}

impl Default for WebFetchConfig {
    fn default() -> (r: Self)
        ensures
            r.enabled,
            r.max_length == 10000,
            r.timeout == 10,
    {
        WebFetchConfig { enabled: true, max_length: 10000, timeout: 10 }
    }
}

impl Default for BuiltinToolsConfig {
    fn default() -> (r: Self)
        ensures
            r.enabled,
            r.web_fetch.enabled,
            r.web_fetch.max_length == 10000,
            r.web_fetch.timeout == 10,
    {
        BuiltinToolsConfig { enabled: true, web_fetch: WebFetchConfig::default() }
    }
}

impl Default for McpConfig {
    fn default() -> (r: Self)
        ensures
            r.enabled,
            r.builtin_tools.enabled,
            r.builtin_tools.web_fetch.enabled,
            r.builtin_tools.web_fetch.max_length == 10000,
            r.builtin_tools.web_fetch.timeout == 10,
            r.external_servers@.len() == 0,
    {
        McpConfig {
            enabled: true,
            builtin_tools: BuiltinToolsConfig::default(),
            external_servers: Vec::new(),
        }
    }
}

/// A switch after an override: `false` in any letter case turns it off,
/// any other value turns it on, and an unset variable leaves it.
pub open spec fn switch_after(vars: Seq<(String, String)>, name: Seq<char>, old: bool) -> bool {
    match env_get(vars, name) {
        Some(v) => !lowercase_eq(v, "false"@),
        None => old,
    }
}

/// A number after an override: replaced only by a value that parses.
pub open spec fn number_after(vars: Seq<(String, String)>, name: Seq<char>, max: nat, old: nat) -> nat {
    match env_get(vars, name) {
        Some(v) => match parse_unsigned(v, max) {
            Some(n) => n,
            None => old,
        },
        None => old,
    }
}

fn override_switch(vars: &Vec<(String, String)>, name: &str, old: bool) -> (r: bool)
    ensures
        r == switch_after(vars@, name@, old),
{
    match env_value(vars, name) {
        Some(v) => !is_false_word(v.as_str()),
        None => old,
    }
}

fn override_number(vars: &Vec<(String, String)>, name: &str, max: u64, old: u64) -> (r: u64)
    requires
        old <= max,
    ensures
        r as nat == number_after(vars@, name@, max as nat, old as nat),
        r <= max,
{
    match env_value(vars, name) {
        Some(v) => match parse_unsigned_text(v.as_str(), max) {
            Some(n) => n,
            None => old,
        },
        None => old,
    }
}

impl WebFetchConfig {
    /// Applies `MCP_BUILTIN_WEB_FETCH_ENABLED`, `MCP_BUILTIN_WEB_FETCH_MAX_LENGTH`
    /// and `MCP_BUILTIN_WEB_FETCH_TIMEOUT` from the environment snapshot.
    pub fn apply_env_overrides(&mut self, vars: &Vec<(String, String)>)
        ensures
            final(self).enabled == switch_after(vars@, "MCP_BUILTIN_WEB_FETCH_ENABLED"@, old(self).enabled),
            final(self).max_length as nat == number_after(
                vars@,
                "MCP_BUILTIN_WEB_FETCH_MAX_LENGTH"@,
                usize::MAX as nat,
                old(self).max_length as nat,
            ),
            final(self).timeout as nat == number_after(
                vars@,
                "MCP_BUILTIN_WEB_FETCH_TIMEOUT"@,
                u64::MAX as nat,
                old(self).timeout as nat,
            ),
    {
        self.enabled = override_switch(vars, "MCP_BUILTIN_WEB_FETCH_ENABLED", self.enabled);
        self.max_length = override_number(
            vars,
            "MCP_BUILTIN_WEB_FETCH_MAX_LENGTH",
            usize::MAX as u64,
            self.max_length as u64,
        ) as usize;
        self.timeout = override_number(vars, "MCP_BUILTIN_WEB_FETCH_TIMEOUT", u64::MAX, self.timeout);
    }
}

impl BuiltinToolsConfig {
    /// Applies `MCP_BUILTIN_TOOLS_ENABLED`, then the web-fetch overrides.
    pub fn apply_env_overrides(&mut self, vars: &Vec<(String, String)>)
        ensures
            final(self).enabled == switch_after(vars@, "MCP_BUILTIN_TOOLS_ENABLED"@, old(self).enabled),
            final(self).web_fetch.enabled == switch_after(
                vars@,
                "MCP_BUILTIN_WEB_FETCH_ENABLED"@,
                old(self).web_fetch.enabled,
            ),
            final(self).web_fetch.max_length as nat == number_after(
                vars@,
                "MCP_BUILTIN_WEB_FETCH_MAX_LENGTH"@,
                usize::MAX as nat,
                old(self).web_fetch.max_length as nat,
            ),
            final(self).web_fetch.timeout as nat == number_after(
                vars@,
                "MCP_BUILTIN_WEB_FETCH_TIMEOUT"@,
                u64::MAX as nat,
                old(self).web_fetch.timeout as nat,
            ),
    {
        self.enabled = override_switch(vars, "MCP_BUILTIN_TOOLS_ENABLED", self.enabled);
        self.web_fetch.apply_env_overrides(vars);
    }
}

impl McpConfig {
    /// Applies `MCP_ENABLED` and the built-in tool overrides. `servers` is
    /// the list decoded from `MCP_EXTERNAL_SERVERS` (absent when the variable
    /// is unset or does not decode); when present it replaces the list.
    pub fn apply_env_overrides(
        &mut self,
        vars: &Vec<(String, String)>,
        servers: Option<Vec<ExternalServerConfig>>,
    )
        ensures
            final(self).enabled == switch_after(vars@, "MCP_ENABLED"@, old(self).enabled),
            final(self).builtin_tools.enabled == switch_after(
                vars@,
                "MCP_BUILTIN_TOOLS_ENABLED"@,
                old(self).builtin_tools.enabled,
            ),
            final(self).builtin_tools.web_fetch.enabled == switch_after(
                vars@,
                "MCP_BUILTIN_WEB_FETCH_ENABLED"@,
                old(self).builtin_tools.web_fetch.enabled,
            ),
            final(self).builtin_tools.web_fetch.max_length as nat == number_after(
                vars@,
                "MCP_BUILTIN_WEB_FETCH_MAX_LENGTH"@,
                usize::MAX as nat,
                old(self).builtin_tools.web_fetch.max_length as nat,
            ),
            final(self).builtin_tools.web_fetch.timeout as nat == number_after(
                vars@,
                "MCP_BUILTIN_WEB_FETCH_TIMEOUT"@,
                u64::MAX as nat,
                old(self).builtin_tools.web_fetch.timeout as nat,
            ),
            final(self).external_servers@ == (match servers {
                Some(s) => s@,
                None => old(self).external_servers@,
            }),
    {
        self.enabled = override_switch(vars, "MCP_ENABLED", self.enabled);
        self.builtin_tools.apply_env_overrides(vars);
        if let Some(s) = servers {
            self.external_servers = s;
        }
    }
}

} // verus!
