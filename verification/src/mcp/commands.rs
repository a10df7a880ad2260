//! The `mcp` command: its subcommands and the messages it answers with.

use vstd::prelude::*;

use crate::text::{concat_all, nat_text, owned, push_str, u64_to_string};
use crate::ui::{error, status_spec, warning, Status};

use super::server::ServerStatus;

verus! {

/// Usage of the `mcp` command.
pub const MCP_USAGE: &'static str =
    "!mcp <子命令>\n子命令:\n- list: 列出所有可用的MCP工具\n- servers: 查看MCP服务器连接状态\n- reload: 重载MCP配置（仅Bot所有者）";

/// A subcommand of `mcp`.
#[derive(Debug, Clone, Copy, PartialEq, Eq, Structural)]
pub enum McpCommand {
    /// List the tools.
    List,
    /// Show the servers' status.
    Servers,
    /// Reconnect the servers.
    Reload,
    /// Anything else: show the usage.
    Help,
}

/// The subcommand named by the first argument.
pub open spec fn mcp_command_spec(first: Option<Seq<char>>) -> McpCommand {
    match first {
        Some(a) => if a == "list"@ {
            McpCommand::List
        } else if a == "servers"@ {
            McpCommand::Servers
        } else if a == "reload"@ {
            McpCommand::Reload
        } else {
            McpCommand::Help
        },
        None => McpCommand::Help,
    }
}

/// The subcommand that the arguments select.
pub fn mcp_command(args: &Vec<String>) -> (r: McpCommand)
    ensures
        r == mcp_command_spec(if args@.len() > 0 {
            Some(args@[0]@)
        } else {
            None
        }),
{
    if args.len() == 0 {
        return McpCommand::Help;
    }
    let a = args[0].as_str();
    if crate::text::str_eq(a, "list") {
        McpCommand::List
    } else if crate::text::str_eq(a, "servers") {
        McpCommand::Servers
    } else if crate::text::str_eq(a, "reload") {
        McpCommand::Reload
    } else {
        McpCommand::Help
    }
}

/// End of the first line of `s`: the first `\n` at or after `i`, or the length.
pub open spec fn line_end(s: Seq<char>, i: int) -> int
    decreases s.len() - i,
{
    if i < 0 || i >= s.len() || s[i] == '\n' {
        i
    } else {
        line_end(s, i + 1)
    }
}

/// `s.lines().next().unwrap_or("无描述")`: the text before the first line
/// feed, without a carriage return right before it; `无描述` for empty text.
pub open spec fn first_line(s: Seq<char>) -> Seq<char> {
    if s.len() == 0 {
        "无描述"@
    } else {
        let e = line_end(s, 0);
        if e < s.len() && e > 0 && s[e - 1] == '\r' {
            s.take(e - 1)
        } else {
            s.take(e)
        }
    }
}

/// First line of a description (see [`first_line`]).
pub fn first_line_of(s: &str) -> (r: String)
    ensures
        r@ == first_line(s@),
{
    let v = crate::text::chars_of(s);
    if v.len() == 0 {
        return owned("无描述");
    }
    let mut e: usize = 0;
    while e < v.len() && v[e] != '\n'
        invariant
            e <= v.len(),
            v@ == s@,
            line_end(v@, e as int) == line_end(v@, 0),
        decreases v.len() - e,
    {
        e += 1;
    }
    if e < v.len() && e > 0 && v[e - 1] == '\r' {
        crate::text::string_from_range(&v, 0, e - 1)
    } else {
        crate::text::string_from_range(&v, 0, e)
    }
}

/// A line of the tool list.
pub open spec fn tool_line(name: Seq<char>, desc: Seq<char>) -> Seq<char> {
    "• **"@ + name + "**: "@ + first_line(desc) + "\n"@
}

/// The tool list: a heading, one line per tool, and the count.
pub open spec fn tool_list_text(tools: Seq<(Seq<char>, Seq<char>)>) -> Seq<char> {
    "🔧 **可用工具列表**：\n\n"@ + concat_all(tools.map_values(|t: (Seq<char>, Seq<char>)| tool_line(t.0, t.1)))
        + "\n📊 共 "@ + nat_text(tools.len()) + " 个工具可用"@
}

/// Views of owned string pairs.
pub open spec fn pairs_of(v: Seq<(String, String)>) -> Seq<(Seq<char>, Seq<char>)> {
    v.map_values(|p: (String, String)| (p.0@, p.1@))
}

/// Answer to `mcp list`, given the tools' names and descriptions (absent
/// when tool calling is off).
pub fn tool_list_message(tools: &Option<Vec<(String, String)>>) -> (r: String)
    ensures
        match tools {
            None => r@ == status_spec(Status::Error, "MCP功能未启用"@),
            Some(t) => if t@.len() == 0 {
                r@ == status_spec(Status::Warning, "暂无可用工具"@)
            } else {
                r@ == tool_list_text(pairs_of(t@))
            },
        },
{
    let tools = match tools {
        None => {
            return error("MCP功能未启用");
        },
        Some(t) => t,
    };
    if tools.len() == 0 {
        return warning("暂无可用工具");
    }
    let ghost lines = pairs_of(tools@).map_values(|t: (Seq<char>, Seq<char>)| tool_line(t.0, t.1));
    let mut out = owned("🔧 **可用工具列表**：\n\n");
    let ghost head = out@;
    let mut i: usize = 0;
    while i < tools.len()
        invariant
            i <= tools.len(),
            lines == pairs_of(tools@).map_values(|t: (Seq<char>, Seq<char>)| tool_line(t.0, t.1)),
            out@ == head + concat_all(lines.take(i as int)),
        decreases tools.len() - i,
    {
        let mut line = owned("• **");
        push_str(&mut line, tools[i].0.as_str());
        push_str(&mut line, "**: ");
        push_str(&mut line, first_line_of(tools[i].1.as_str()).as_str());
        push_str(&mut line, "\n");
        proof {
            assert(line@ == lines[i as int]);
            crate::ui::lemma_concat_all_push(lines, i as int);
        }
        push_str(&mut out, line.as_str());
        assert(out@ =~= head + concat_all(lines.take(i + 1)));
        i += 1;
    }
    assert(lines.take(tools.len() as int) =~= lines);
    push_str(&mut out, "\n📊 共 ");
    push_str(&mut out, u64_to_string(tools.len() as u64).as_str());
    push_str(&mut out, " 个工具可用");
    out
}

/// Icon of a server status.
pub open spec fn status_icon(s: ServerStatus) -> Seq<char> {
    match s {
        ServerStatus::Connected => "✅"@,
        ServerStatus::Connecting => "🔄"@,
        ServerStatus::Disconnected => "⚪"@,
        ServerStatus::Failed(_) => "❌"@,
    }
}

/// Text of a server status.
pub open spec fn status_text(s: ServerStatus) -> Seq<char> {
    match s {
        ServerStatus::Connected => "已连接"@,
        ServerStatus::Connecting => "连接中"@,
        ServerStatus::Disconnected => "未连接"@,
        ServerStatus::Failed(e) => "连接失败: "@ + e@,
    }
}

/// A line of the server list.
pub open spec fn server_line(name: Seq<char>, s: ServerStatus) -> Seq<char> {
    status_icon(s) + " **"@ + name + "**: "@ + status_text(s) + "\n"@
}

/// Answer to `mcp servers`, given each server's name and status (absent
/// when tool calling is off).
pub fn server_status_message(statuses: &Option<Vec<(String, ServerStatus)>>) -> (r: String)
    ensures
        match statuses {
            None => r@ == status_spec(Status::Error, "MCP功能未启用"@),
            Some(v) => if v@.len() == 0 {
                r@ == status_spec(Status::Warning, "没有配置外部MCP服务器"@)
            } else {
                r@ == "🖥️ MCP服务器状态：\n\n"@ + concat_all(
                    v@.map_values(|p: (String, ServerStatus)| server_line(p.0@, p.1)),
                )
            },
        },
{
    let statuses = match statuses {
        None => {
            return error("MCP功能未启用");
        },
        Some(v) => v,
    };
    if statuses.len() == 0 {
        return warning("没有配置外部MCP服务器");
    }
    let ghost lines = statuses@.map_values(|p: (String, ServerStatus)| server_line(p.0@, p.1));
    let mut out = owned("🖥️ MCP服务器状态：\n\n");
    let ghost head = out@;
    let mut i: usize = 0;
    while i < statuses.len()
        invariant
            i <= statuses.len(),
            lines == statuses@.map_values(|p: (String, ServerStatus)| server_line(p.0@, p.1)),
            out@ == head + concat_all(lines.take(i as int)),
        decreases statuses.len() - i,
    {
        let (name, status) = (&statuses[i].0, &statuses[i].1);
        let mut line = String::new();
        match status {
            ServerStatus::Connected => push_str(&mut line, "✅"),
            ServerStatus::Connecting => push_str(&mut line, "🔄"),
            ServerStatus::Disconnected => push_str(&mut line, "⚪"),
            ServerStatus::Failed(_) => push_str(&mut line, "❌"),
        }
        push_str(&mut line, " **");
        push_str(&mut line, name.as_str());
        push_str(&mut line, "**: ");
        match status {
            ServerStatus::Connected => push_str(&mut line, "已连接"),
            ServerStatus::Connecting => push_str(&mut line, "连接中"),
            ServerStatus::Disconnected => push_str(&mut line, "未连接"),
            ServerStatus::Failed(e) => {
                push_str(&mut line, "连接失败: ");
                push_str(&mut line, e.as_str());
            },
        }
        push_str(&mut line, "\n");
        proof {
            assert(line@ =~= lines[i as int]);
            crate::ui::lemma_concat_all_push(lines, i as int);
        }
        push_str(&mut out, line.as_str());
        assert(out@ =~= head + concat_all(lines.take(i + 1)));
        i += 1;
    }
    assert(lines.take(statuses.len() as int) =~= lines);
    out
}

/// Answer to an unknown subcommand: the usage.
pub fn mcp_help_message() -> (r: String)
    ensures
        r@ == "📖 MCP管理命令帮助：\n\n"@ + MCP_USAGE@,
{
    let mut r = owned("📖 MCP管理命令帮助：\n\n");
    push_str(&mut r, MCP_USAGE);
    r
}

/// Registry entry of the `mcp` command; `reload` checks the owner level itself.
pub fn mcp_info() -> (r: crate::command::registry::CommandInfo)
    ensures
        r.name@ == "mcp"@,
        r.description@ == "MCP 服务器管理命令"@,
        r.usage@ == MCP_USAGE@,
        r.permission == crate::command::permission::Permission::Anyone,
{
    crate::command::registry::CommandInfo {
        name: owned("mcp"),
        description: owned("MCP 服务器管理命令"),
        usage: owned(MCP_USAGE),
        permission: crate::command::permission::Permission::Anyone,
    }
}

} // verus!
