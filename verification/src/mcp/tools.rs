//! Tools the assistant can call, and the registry that finds them by name.

use vstd::prelude::*;

use crate::text::{owned, push_str, str_eq};

use super::config::BuiltinToolsConfig;
use super::web_fetch::{WebFetchTool, TOOL_NAME};

verus! {

/// What a tool call produced.
#[derive(Debug, Clone)]
pub struct ToolResult {
    /// Whether the call succeeded.
    pub success: bool,
    /// Output of the tool.
    pub content: String,
    /// What went wrong.
    pub error: Option<String>,
}

/// Where a tool comes from.
#[derive(Debug, Clone, PartialEq, Eq)]
pub enum ToolSource {
    /// Built into the bot.
    BuiltIn,
    /// Offered by the external server of that name.
    ExternalMcp(String),
}

impl ToolResult {
    /// A successful call with its output.
    pub fn ok(content: String) -> (r: ToolResult)
        ensures
            r.success,
            r.content == content,
            r.error is None,
    {
        ToolResult { success: true, content, error: None }
    }

    /// A failed call with its reason.
    pub fn failed(error: String) -> (r: ToolResult)
        ensures
            !r.success,
            r.content@ == Seq::<char>::empty(),
            r.error == Some(error),
    {
        ToolResult { success: false, content: String::new(), error: Some(error) }
    }
}

/// Name under which an external server's tool is registered: `{server}__{tool}`.
pub open spec fn external_tool_name_spec(server: Seq<char>, tool: Seq<char>) -> Seq<char> {
    server + "__"@ + tool
}

/// Name under which an external server's tool is registered.
pub fn external_tool_name(server: &str, tool: &str) -> (r: String)
    ensures
        r@ == external_tool_name_spec(server@, tool@),
{
    let mut r = owned(server);
    push_str(&mut r, "__");
    push_str(&mut r, tool);
    r
}

/// Reason given for a call to a tool of a server that is not connected.
pub fn server_not_connected(server: &str) -> (r: ToolResult)
    ensures
        !r.success,
        r.content@ == Seq::<char>::empty(),
        r.error matches Some(e) && e@ == "MCP server "@ + server@ + " is not connected"@,
{
    let mut m = owned("MCP server ");
    push_str(&mut m, server);
    push_str(&mut m, " is not connected");
    ToolResult::failed(m)
}

/// The tools built into the bot.
#[derive(Debug, Clone, Copy)]
pub enum BuiltInTools {
    /// Fetches a web page and hands back its text.
    WebFetch(WebFetchTool),
}

impl BuiltInTools {
    /// Name under which the tool is offered.
    pub fn name(&self) -> (r: &'static str)
        ensures
            r@ == TOOL_NAME@,
    {
        match self {
            BuiltInTools::WebFetch(_) => TOOL_NAME,
        }
    }

    /// Built-in tools come from the bot itself.
    pub fn source(&self) -> (r: ToolSource)
        ensures
            r == ToolSource::BuiltIn,
    {
        ToolSource::BuiltIn
    }
}

/// The tools by name: a later registration under a name replaces the
/// earlier one.
pub struct ToolRegistry<T> {
    tools: Vec<(String, T)>,
}

/// No name occurs twice.
pub open spec fn distinct_names<T>(v: Seq<(String, T)>) -> bool {
    forall|i: int, j: int| 0 <= i < j < v.len() ==> v[i].0@ != v[j].0@
}

/// Entries as a map from name to tool.
pub open spec fn entries_map<T>(v: Seq<(String, T)>) -> Map<Seq<char>, T>
    decreases v.len(),
{
    if v.len() == 0 {
        Map::empty()
    } else {
        entries_map(v.drop_last()).insert(v.last().0@, v.last().1)
    }
}

proof fn lemma_entries_absent<T>(v: Seq<(String, T)>, key: Seq<char>)
    requires
        forall|i: int| 0 <= i < v.len() ==> v[i].0@ != key,
    ensures
        !entries_map(v).dom().contains(key),
    decreases v.len(),
{
    if v.len() > 0 {
        lemma_entries_absent(v.drop_last(), key);
    }
}

proof fn lemma_entries_lookup<T>(v: Seq<(String, T)>, i: int)
    requires
        distinct_names(v),
        0 <= i < v.len(),
    ensures
        entries_map(v).dom().contains(v[i].0@),
        entries_map(v)[v[i].0@] == v[i].1,
    decreases v.len(),
{
    if i < v.len() - 1 {
        lemma_entries_lookup(v.drop_last(), i);
    }
}

proof fn lemma_entries_update<T>(v: Seq<(String, T)>, i: int, t: T)
    requires
        distinct_names(v),
        0 <= i < v.len(),
    ensures
        entries_map(v.update(i, (v[i].0, t))) =~= entries_map(v).insert(v[i].0@, t),
    decreases v.len(),
{
    let w = v.update(i, (v[i].0, t));
    if i == v.len() - 1 {
        assert(w.drop_last() =~= v.drop_last());
    } else {
        lemma_entries_update(v.drop_last(), i, t);
        assert(w.drop_last() =~= v.drop_last().update(i, (v[i].0, t)));
        assert(v.last().0@ != v[i].0@);
    }
}

proof fn lemma_entries_len<T>(v: Seq<(String, T)>)
    requires
        distinct_names(v),
    ensures
        entries_map(v).dom().finite(),
        entries_map(v).dom().len() == v.len(),
    decreases v.len(),
{
    if v.len() > 0 {
        let u = v.drop_last();
        assert(distinct_names(u));
        lemma_entries_len(u);
        assert forall|i: int| 0 <= i < u.len() implies u[i].0@ != v.last().0@ by {
            assert(v[i].0@ != v[v.len() - 1].0@);
        }
        lemma_entries_absent(u, v.last().0@);
    }
}

impl<T> ToolRegistry<T> {
    /// The tools by name.
    pub closed spec fn tools(&self) -> Map<Seq<char>, T> {
        entries_map(self.tools@)
    }

    /// Names in registration order.
    pub closed spec fn names(&self) -> Seq<Seq<char>> {
        self.tools@.map_values(|e: (String, T)| e.0@)
    }

    /// Internal consistency.
    pub closed spec fn wf(&self) -> bool {
        distinct_names(self.tools@)
    }

    /// An empty registry.
    pub fn new() -> (r: Self)
        ensures
            r.wf(),
            r.tools() == Map::<Seq<char>, T>::empty(),
    {
        ToolRegistry { tools: Vec::new() }
    }

    fn position(&self, name: &str) -> (r: Option<usize>)
        requires
            self.wf(),
        ensures
            match r {
                Some(i) => i < self.tools@.len() && self.tools@[i as int].0@ == name@,
                None => forall|i: int| 0 <= i < self.tools@.len() ==> self.tools@[i].0@ != name@,
            },
    {
        let mut i: usize = 0;
        while i < self.tools.len()
            invariant
                i <= self.tools.len(),
                forall|j: int| 0 <= j < i ==> self.tools@[j].0@ != name@,
            decreases self.tools.len() - i,
        {
            if str_eq(self.tools[i].0.as_str(), name) {
                return Some(i);
            }
            i += 1;
        }
        None
    }

    /// Registers `tool` under `name`, replacing a tool of that name.
    pub fn register(&mut self, name: String, tool: T)
        requires
            old(self).wf(),
        ensures
            final(self).wf(),
            final(self).tools() == old(self).tools().insert(name@, tool),
    {
        match self.position(name.as_str()) {
            Some(i) => {
                proof {
                    lemma_entries_update(self.tools@, i as int, tool);
                }
                let ghost before = self.tools@;
                let old_name = self.tools[i].0.clone();
                self.tools.set(i, (old_name, tool));
                assert(self.tools@ =~= before.update(i as int, (before[i as int].0, tool)));
                assert forall|a: int, b: int| 0 <= a < b < self.tools@.len() implies self.tools@[a].0@
                    != self.tools@[b].0@ by {
                    assert(before[a].0@ != before[b].0@);
                }
            },
            None => {
                proof {
                    lemma_entries_absent(self.tools@, name@);
                }
                let ghost before = self.tools@;
                let ghost key = name@;
                self.tools.push((name, tool));
                assert(self.tools@.drop_last() =~= before);
                assert forall|a: int, b: int| 0 <= a < b < self.tools@.len() implies self.tools@[a].0@
                    != self.tools@[b].0@ by {
                    if b == before.len() {
                        assert(before[a].0@ != key);
                    }
                }
            },
        }
    }

    /// The tool registered under `name`.
    pub fn get(&self, name: &str) -> (r: Option<&T>)
        requires
            self.wf(),
        ensures
            match r {
                Some(t) => self.tools().dom().contains(name@) && *t == self.tools()[name@],
                None => !self.tools().dom().contains(name@),
            },
    {
        match self.position(name) {
            Some(i) => {
                proof {
                    lemma_entries_lookup(self.tools@, i as int);
                }
                Some(&self.tools[i].1)
            },
            None => {
                proof {
                    lemma_entries_absent(self.tools@, name@);
                }
                None
            },
        }
    }

    /// Whether a tool of that name is registered.
    pub fn contains(&self, name: &str) -> (r: bool)
        requires
            self.wf(),
        ensures
            r == self.tools().dom().contains(name@),
    {
        self.get(name).is_some()
    }

    /// Number of tools.
    pub fn len(&self) -> (r: usize)
        requires
            self.wf(),
        ensures
            r == self.tools().dom().len(),
    {
        proof {
            lemma_entries_len(self.tools@);
        }
        self.tools.len()
    }

    /// Whether no tool is registered.
    pub fn is_empty(&self) -> (r: bool)
        requires
            self.wf(),
        ensures
            r == (self.tools().dom().len() == 0),
    {
        self.len() == 0
    }

    /// The registered tools, in registration order.
    pub fn entries(&self) -> (r: &Vec<(String, T)>)
        requires
            self.wf(),
        ensures
            entries_map(r@) == self.tools(),
            distinct_names(r@),
    {
        &self.tools
    }
}

impl ToolRegistry<BuiltInTools> {
    /// A registry holding the built-in tools that `config` turns on: the
    /// web-fetch tool, when built-in tools and that tool are both enabled.
    pub fn with_builtins(config: &BuiltinToolsConfig) -> (r: Self)
        ensures
            r.wf(),
            r.tools() == if config.enabled && config.web_fetch.enabled {
                Map::<Seq<char>, BuiltInTools>::empty().insert(
                    TOOL_NAME@,
                    BuiltInTools::WebFetch(WebFetchTool { max_length: config.web_fetch.max_length }),
                )
            } else {
                Map::<Seq<char>, BuiltInTools>::empty()
            },
    {
        let mut registry = ToolRegistry::new();
        if config.enabled && config.web_fetch.enabled {
            let tool = BuiltInTools::WebFetch(WebFetchTool::new(config.web_fetch));
            registry.register(owned(TOOL_NAME), tool);
        }
        registry
    }
}

/// Looking up a name right after registering a tool under it finds that
/// tool; every other name finds what it found before.
pub proof fn law_register_then_get<T>(
    before: ToolRegistry<T>,
    after: ToolRegistry<T>,
    name: Seq<char>,
    tool: T,
    other: Seq<char>,
)
    requires
        after.tools() == before.tools().insert(name, tool),
        other != name,
    ensures
        after.tools().dom().contains(name),
        after.tools()[name] == tool,
        after.tools().dom().contains(other) == before.tools().dom().contains(other),
        before.tools().dom().contains(other) ==> after.tools()[other] == before.tools()[other],
{
}

} // verus!
