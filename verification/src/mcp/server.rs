//! State of the external tool servers: connection status, retry back-off,
//! and the table of servers that a configuration reload updates.
//!
//! Connecting and listing tools go over a transport and are done by the
//! caller, which reports each outcome back here. Times are readings of a
//! monotonic clock in nanoseconds.

use vstd::prelude::*;

use crate::text::{owned, str_eq};

use super::config::{ExternalServerConfig, McpConfig, ServerConfigView, TransportType};

verus! {

/// Connection status of a server.
#[derive(Debug, Clone, PartialEq, Eq)]
pub enum ServerStatus {
    /// Not connected.
    Disconnected,
    /// A connection is being made.
    Connecting,
    /// Connected.
    Connected,
    /// The last attempt failed, for this reason.
    Failed(String),
}

/// Back-off before retry number `count` (counting from zero), in seconds:
/// 1, 3, then 5; after three failures, 30.
pub open spec fn retry_delay_secs(count: u32) -> nat {
    if count == 0 {
        1
    } else if count == 1 {
        3
    } else if count == 2 {
        5
    } else {
        30
    }
}

/// Whether a server is due for a connection attempt at `now`: it is enabled,
/// and it never failed or its back-off has strictly passed since the last
/// failure.
pub open spec fn retry_due(enabled: bool, count: u32, last_failure: Option<u64>, now: u64) -> bool {
    enabled && match last_failure {
        None => true,
        Some(t) => now - t > retry_delay_secs(count) * 1_000_000_000,
    }
}

/// An external tool server.
#[derive(Debug, Clone)]
pub struct McpServer {
    config: ExternalServerConfig,
    status: ServerStatus,
    retry_count: u32,
    last_retry: Option<u64>,
}

impl McpServer {
    /// Its settings.
    pub closed spec fn config_spec(&self) -> ExternalServerConfig {
        self.config
    }

    /// Its status.
    pub closed spec fn status_spec(&self) -> ServerStatus {
        self.status
    }

    /// Failed attempts since the last success.
    pub closed spec fn retries(&self) -> u32 {
        self.retry_count
    }

    /// Time of the last failed attempt.
    pub closed spec fn last_failure(&self) -> Option<u64> {
        self.last_retry
    }

    /// A server that has not been connected yet.
    pub fn new(config: ExternalServerConfig) -> (r: Self)
        ensures
            r.config_spec() == config,
            r.status_spec() == ServerStatus::Disconnected,
            r.retries() == 0,
            r.last_failure() is None,
    {
        McpServer { config, status: ServerStatus::Disconnected, retry_count: 0, last_retry: None }
    }

    /// Its status.
    pub fn status(&self) -> (r: &ServerStatus)
        ensures
            *r == self.status_spec(),
    {
        &self.status
    }

    /// Its settings.
    pub fn config(&self) -> (r: &ExternalServerConfig)
        ensures
            *r == self.config_spec(),
    {
        &self.config
    }

    /// Failed attempts since the last success.
    pub fn retry_count(&self) -> (r: u32)
        ensures
            r == self.retries(),
    {
        self.retry_count
    }

    /// Whether it is connected.
    pub fn is_connected(&self) -> (r: bool)
        ensures
            r == (self.status_spec() == ServerStatus::Connected),
    {
        match self.status {
            ServerStatus::Connected => true,
            _ => false,
        }
    }

    /// Whether a connection attempt is due at `now`.
    pub fn should_retry(&self, now: u64) -> (r: bool)
        ensures
            r == retry_due(self.config_spec().enabled, self.retries(), self.last_failure(), now),
    {
        if !self.config.enabled {
            return false;
        }
        let delay_secs: u64 = if self.retry_count == 0 {
            1
        } else if self.retry_count == 1 {
            3
        } else if self.retry_count == 2 {
            5
        } else {
            30
        };
        match self.last_retry {
            None => true,
            Some(t) => {
                let elapsed = if now >= t {
                    now - t
                } else {
                    0
                };
                elapsed > delay_secs * 1_000_000_000
            },
        }
    }

    /// Starts an attempt: the status becomes `Connecting`. Only the stdio
    /// transport can be opened; for the others the attempt stops here,
    /// with the explanation.
    pub fn begin_connect(&mut self) -> (r: Result<(), String>)
        ensures
            final(self).status_spec() == ServerStatus::Connecting,
            final(self).config_spec() == old(self).config_spec(),
            final(self).retries() == old(self).retries(),
            final(self).last_failure() == old(self).last_failure(),
            r is Ok <==> old(self).config_spec().transport == TransportType::Stdio,
            r matches Err(e) ==> e@ == "HTTP/SSE transport not implemented yet"@,
    {
        self.status = ServerStatus::Connecting;
        match self.config.transport {
            TransportType::Stdio => Ok(()),
            _ => Err(owned("HTTP/SSE transport not implemented yet")),
        }
    }

    /// Records a successful attempt: connected, and the back-off is cleared.
    pub fn connect_succeeded(&mut self)
        ensures
            final(self).status_spec() == ServerStatus::Connected,
            final(self).config_spec() == old(self).config_spec(),
            final(self).retries() == 0,
            final(self).last_failure() is None,
    {
        self.status = ServerStatus::Connected;
        self.retry_count = 0;
        self.last_retry = None;
    }

    /// Records a failed attempt at `now`, with its reason.
    pub fn connect_failed(&mut self, reason: String, now: u64)
        requires
            old(self).retries() < u32::MAX,
        ensures
            final(self).status_spec() == ServerStatus::Failed(reason),
            final(self).config_spec() == old(self).config_spec(),
            final(self).retries() == old(self).retries() + 1,
            final(self).last_failure() == Some(now),
    {
        self.status = ServerStatus::Failed(reason);
        self.retry_count = self.retry_count + 1;
        self.last_retry = Some(now);
    }
}

/// Repeated failures never shorten the back-off, a server that never
/// failed is due at once, and one that failed at `t` is not due again until
/// its back-off has passed.
pub proof fn law_backoff_grows(a: u32, b: u32, enabled: bool, t: u64, now: u64)
    requires
        a <= b,
    ensures
        retry_delay_secs(a) <= retry_delay_secs(b),
        retry_due(enabled, a, None, now) == enabled,
        now - t <= retry_delay_secs(a) * 1_000_000_000 ==> !retry_due(enabled, a, Some(t), now),
        now - t > retry_delay_secs(b) * 1_000_000_000 ==> retry_due(enabled, a, Some(t), now) == enabled,
{
}

/// A disabled server is never due.
pub proof fn law_disabled_never_retried(count: u32, last: Option<u64>, now: u64)
    ensures
        !retry_due(false, count, last, now),
{
}

// ---------------------------------------------------------------------------
// The table of servers
// ---------------------------------------------------------------------------
/// Servers as a map from name.
pub open spec fn server_map(v: Seq<McpServer>) -> Map<Seq<char>, McpServer>
    decreases v.len(),
{
    if v.len() == 0 {
        Map::empty()
    } else {
        server_map(v.drop_last()).insert(v.last().config_spec().name@, v.last())
    }
}

/// No two servers share a name.
pub open spec fn distinct_servers(v: Seq<McpServer>) -> bool {
    forall|i: int, j: int|
        0 <= i < j < v.len() ==> v[i].config_spec().name@ != v[j].config_spec().name@
}

/// The servers of a configuration: one per enabled name, with the settings
/// of the last enabled entry of that name.
pub open spec fn initial_servers(cfgs: Seq<ExternalServerConfig>) -> Map<Seq<char>, ServerConfigView>
    decreases cfgs.len(),
{
    if cfgs.len() == 0 {
        Map::empty()
    } else if cfgs.last().enabled {
        initial_servers(cfgs.drop_last()).insert(cfgs.last().name@, cfgs.last()@)
    } else {
        initial_servers(cfgs.drop_last())
    }
}

/// Manager of the external servers.
pub struct McpServerManager {
    servers: Vec<McpServer>,
}

proof fn lemma_server_absent(v: Seq<McpServer>, key: Seq<char>)
    requires
        forall|i: int| 0 <= i < v.len() ==> v[i].config_spec().name@ != key,
    ensures
        !server_map(v).dom().contains(key),
    decreases v.len(),
{
    if v.len() > 0 {
        lemma_server_absent(v.drop_last(), key);
    }
}

proof fn lemma_server_lookup(v: Seq<McpServer>, i: int)
    requires
        distinct_servers(v),
        0 <= i < v.len(),
    ensures
        server_map(v).dom().contains(v[i].config_spec().name@),
        server_map(v)[v[i].config_spec().name@] == v[i],
    decreases v.len(),
{
    if i < v.len() - 1 {
        lemma_server_lookup(v.drop_last(), i);
    }
}

proof fn lemma_server_update(v: Seq<McpServer>, i: int, s: McpServer)
    requires
        distinct_servers(v),
        0 <= i < v.len(),
        s.config_spec().name@ == v[i].config_spec().name@,
    ensures
        server_map(v.update(i, s)) =~= server_map(v).insert(s.config_spec().name@, s),
    decreases v.len(),
{
    let w = v.update(i, s);
    if i == v.len() - 1 {
        assert(w.drop_last() =~= v.drop_last());
    } else {
        lemma_server_update(v.drop_last(), i, s);
        assert(w.drop_last() =~= v.drop_last().update(i, s));
        assert(v.last().config_spec().name@ != v[i].config_spec().name@);
    }
}

proof fn lemma_server_remove(v: Seq<McpServer>, i: int)
    requires
        distinct_servers(v),
        0 <= i < v.len(),
    ensures
        server_map(v.remove(i)) =~= server_map(v).remove(v[i].config_spec().name@),
    decreases v.len(),
{
    let k = v[i].config_spec().name@;
    let w = v.remove(i);
    if i == v.len() - 1 {
        assert(w =~= v.drop_last());
        assert forall|j: int| 0 <= j < w.len() implies w[j].config_spec().name@ != k by {
            assert(v[j].config_spec().name@ != v[i].config_spec().name@);
        }
        lemma_server_absent(w, k);
    } else {
        lemma_server_remove(v.drop_last(), i);
        assert(w.drop_last() =~= v.drop_last().remove(i));
        assert(w.last() == v.last());
        assert(v.last().config_spec().name@ != k);
    }
}

impl McpServerManager {
    /// The servers by name.
    pub closed spec fn servers_spec(&self) -> Map<Seq<char>, McpServer> {
        server_map(self.servers@)
    }

    /// Internal consistency.
    pub closed spec fn wf(&self) -> bool {
        distinct_servers(self.servers@)
    }

    fn position(&self, name: &str) -> (r: Option<usize>)
        requires
            self.wf(),
        ensures
            match r {
                Some(i) => i < self.servers@.len() && self.servers@[i as int].config_spec().name@
                    == name@,
                None => forall|i: int|
                    0 <= i < self.servers@.len() ==> self.servers@[i].config_spec().name@ != name@,
            },
    {
        let mut i: usize = 0;
        while i < self.servers.len()
            invariant
                i <= self.servers.len(),
                forall|j: int| 0 <= j < i ==> self.servers@[j].config_spec().name@ != name@,
            decreases self.servers.len() - i,
        {
            if str_eq(self.servers[i].config().name.as_str(), name) {
                return Some(i);
            }
            i += 1;
        }
        None
    }

    /// Puts `server` in the table, replacing a server of the same name.
    fn put(&mut self, server: McpServer)
        requires
            old(self).wf(),
        ensures
            final(self).wf(),
            final(self).servers_spec() == old(self).servers_spec().insert(
                server.config_spec().name@,
                server,
            ),
    {
        let ghost key = server.config_spec().name@;
        match self.position(server.config().name.as_str()) {
            Some(i) => {
                proof {
                    lemma_server_update(self.servers@, i as int, server);
                }
                let ghost before = self.servers@;
                self.servers.set(i, server);
                assert forall|a: int, b: int| 0 <= a < b < self.servers@.len() implies self.servers@[
                    a
                ].config_spec().name@ != self.servers@[b].config_spec().name@ by {
                    assert(before[a].config_spec().name@ != before[b].config_spec().name@);
                }
            },
            None => {
                proof {
                    lemma_server_absent(self.servers@, key);
                }
                let ghost before = self.servers@;
                self.servers.push(server);
                assert(self.servers@.drop_last() =~= before);
                assert forall|a: int, b: int| 0 <= a < b < self.servers@.len() implies self.servers@[
                    a
                ].config_spec().name@ != self.servers@[b].config_spec().name@ by {
                    if b == before.len() {
                        assert(before[a].config_spec().name@ != key);
                    }
                }
            },
        }
    }

    /// A manager for the enabled servers of `config`, none connected yet.
    pub fn new(config: &McpConfig) -> (r: Self)
        ensures
            r.wf(),
            r.servers_spec().dom() == initial_servers(config.external_servers@).dom(),
            forall|n: Seq<char>|
                #[trigger] r.servers_spec().dom().contains(n) ==> {
                    &&& r.servers_spec()[n].config_spec()@ == initial_servers(
                        config.external_servers@,
                    )[n]
                    &&& r.servers_spec()[n].status_spec() == ServerStatus::Disconnected
                    &&& r.servers_spec()[n].retries() == 0
                    &&& r.servers_spec()[n].last_failure() is None
                },
    {
        let mut m = McpServerManager { servers: Vec::new() };
        let cfgs = &config.external_servers;
        let mut i: usize = 0;
        while i < cfgs.len()
            invariant
                i <= cfgs.len(),
                m.wf(),
                m.servers_spec().dom() == initial_servers(cfgs@.take(i as int)).dom(),
                forall|n: Seq<char>|
                    #[trigger] m.servers_spec().dom().contains(n) ==> {
                        &&& m.servers_spec()[n].config_spec()@ == initial_servers(cfgs@.take(i as int))[n]
                        &&& m.servers_spec()[n].status_spec() == ServerStatus::Disconnected
                        &&& m.servers_spec()[n].retries() == 0
                        &&& m.servers_spec()[n].last_failure() is None
                    },
            decreases cfgs.len() - i,
        {
            assert(cfgs@.take(i + 1).drop_last() =~= cfgs@.take(i as int));
            if cfgs[i].enabled {
                m.put(McpServer::new(cfgs[i].duplicate()));
            }
            i += 1;
        }
        assert(cfgs@.take(cfgs.len() as int) =~= cfgs@);
        m
    }

    /// Name and status of every server.
    pub fn get_server_statuses(&self) -> (r: Vec<(String, ServerStatus)>)
        requires
            self.wf(),
        ensures
            r@.len() == self.servers_spec().dom().len(),
            forall|k: int|
                0 <= k < r@.len() ==> #[trigger] self.servers_spec().dom().contains(r@[k].0@)
                    && r@[k].1 == self.servers_spec()[r@[k].0@].status_spec(),
            forall|i: int, j: int| 0 <= i < j < r@.len() ==> #[trigger] r@[i].0@ != #[trigger] r@[j].0@,
            forall|n: Seq<char>|
                #[trigger] self.servers_spec().dom().contains(n) ==> exists|k: int|
                    0 <= k < r@.len() && r@[k].0@ == n,
    {
        let mut r: Vec<(String, ServerStatus)> = Vec::new();
        let mut i: usize = 0;
        while i < self.servers.len()
            invariant
                i <= self.servers.len(),
                self.wf(),
                r@.len() == i,
                forall|k: int|
                    0 <= k < i ==> r@[k].0@ == self.servers@[k].config_spec().name@ && r@[k].1
                        == self.servers@[k].status_spec(),
            decreases self.servers.len() - i,
        {
            let name = self.servers[i].config().name.clone();
            let status = self.servers[i].status().duplicate();
            r.push((name, status));
            i += 1;
        }
        proof {
            lemma_server_len(self.servers@);
            assert forall|k: int| 0 <= k < r@.len() implies #[trigger] self.servers_spec().dom().contains(
                r@[k].0@,
            ) && r@[k].1 == self.servers_spec()[r@[k].0@].status_spec() by {
                lemma_server_lookup(self.servers@, k);
            }
            assert forall|n: Seq<char>| #[trigger] self.servers_spec().dom().contains(n) implies exists|k: int|
                0 <= k < r@.len() && r@[k].0@ == n by {
                if !(exists|k: int| 0 <= k < r@.len() && r@[k].0@ == n) {
                    assert forall|k: int| 0 <= k < self.servers@.len() implies self.servers@[k].config_spec().name@ != n by {
                        assert(r@[k].0@ == self.servers@[k].config_spec().name@);
                    }
                    lemma_server_absent(self.servers@, n);
                }
            }
        }
        r
    }

    /// Names of the servers due for a connection attempt at `now`.
    pub fn due_servers(&self, now: u64) -> (r: Vec<String>)
        requires
            self.wf(),
        ensures
            forall|k: int|
                0 <= k < r@.len() ==> #[trigger] self.servers_spec().dom().contains(r@[k]@)
                    && server_due(self.servers_spec()[r@[k]@], now),
            forall|n: Seq<char>|
                #[trigger] self.servers_spec().dom().contains(n) && server_due(self.servers_spec()[n], now)
                    ==> exists|k: int| 0 <= k < r@.len() && r@[k]@ == n,
    {
        let mut r: Vec<String> = Vec::new();
        let mut i: usize = 0;
        while i < self.servers.len()
            invariant
                i <= self.servers.len(),
                self.wf(),
                strs_of(r@) == due_names(self.servers@.take(i as int), now),
            decreases self.servers.len() - i,
        {
            assert(self.servers@.take(i + 1).drop_last() =~= self.servers@.take(i as int));
            if self.servers[i].should_retry(now) {
                let ghost before = r@;
                r.push(self.servers[i].config().name.clone());
                assert(strs_of(r@) =~= strs_of(before).push(self.servers@[i as int].config_spec().name@));
            }
            i += 1;
        }
        assert(self.servers@.take(self.servers.len() as int) =~= self.servers@);
        proof {
            let v = self.servers@;
            assert forall|k: int| 0 <= k < r@.len() implies #[trigger] self.servers_spec().dom().contains(r@[k]@)
                && server_due(self.servers_spec()[r@[k]@], now) by {
                assert(strs_of(r@)[k] == r@[k]@);
                let j = lemma_due_names_source(v, now, k);
                lemma_server_lookup(v, j);
            }
            assert forall|n: Seq<char>|
                #[trigger] self.servers_spec().dom().contains(n) && server_due(self.servers_spec()[n], now)
                implies exists|k: int| 0 <= k < r@.len() && r@[k]@ == n by {
                let j = lemma_server_index(v, n);
                lemma_server_lookup(v, j);
                let k = lemma_due_names_complete(v, now, j);
                assert(strs_of(r@)[k] == r@[k]@);
            }
        }
        r
    }

    /// The server named `name`.
    pub fn server(&self, name: &str) -> (r: Option<&McpServer>)
        requires
            self.wf(),
        ensures
            match r {
                Some(s) => self.servers_spec().dom().contains(name@) && *s == self.servers_spec()[name@],
                None => !self.servers_spec().dom().contains(name@),
            },
    {
        match self.position(name) {
            None => {
                proof {
                    lemma_server_absent(self.servers@, name@);
                }
                None
            },
            Some(i) => {
                proof {
                    lemma_server_lookup(self.servers@, i as int);
                }
                Some(&self.servers[i])
            },
        }
    }

    /// Takes the server at `i` out and puts `f`'s result back at the same place.
    fn replace_at(&mut self, i: usize, s: McpServer)
        requires
            old(self).wf(),
            i < old(self).servers@.len(),
            s.config_spec().name@ == old(self).servers@[i as int].config_spec().name@,
        ensures
            final(self).wf(),
            final(self).servers_spec() == old(self).servers_spec().insert(s.config_spec().name@, s),
    {
        proof {
            lemma_server_update(self.servers@, i as int, s);
        }
        let ghost before = self.servers@;
        self.servers.set(i, s);
        assert forall|a: int, b: int| 0 <= a < b < self.servers@.len() implies self.servers@[a].config_spec().name@
            != self.servers@[b].config_spec().name@ by {
            assert(before[a].config_spec().name@ != before[b].config_spec().name@);
        }
    }

    /// Starts an attempt on the server named `name` (see
    /// [`McpServer::begin_connect`]); nothing when there is no such server.
    pub fn begin_connect(&mut self, name: &str) -> (r: Option<Result<(), String>>)
        requires
            old(self).wf(),
        ensures
            final(self).wf(),
            r is None <==> !old(self).servers_spec().dom().contains(name@),
            r is None ==> final(self).servers_spec() == old(self).servers_spec(),
            r matches Some(res) ==> {
                let o = old(self).servers_spec()[name@];
                let n = final(self).servers_spec()[name@];
                &&& final(self).servers_spec().dom() == old(self).servers_spec().dom()
                &&& forall|k: Seq<char>| k != name@ ==> #[trigger] final(self).servers_spec()[k] == old(self).servers_spec()[k]
                &&& n.status_spec() == ServerStatus::Connecting
                &&& n.config_spec()@ == o.config_spec()@
                &&& n.retries() == o.retries()
                &&& n.last_failure() == o.last_failure()
                &&& (res is Ok <==> o.config_spec().transport == TransportType::Stdio)
            },
    {
        let ghost old_map = self.servers_spec();
        match self.position(name) {
            None => {
                proof {
                    lemma_server_absent(self.servers@, name@);
                }
                None
            },
            Some(i) => {
                proof {
                    lemma_server_lookup(self.servers@, i as int);
                }
                let old_server = &self.servers[i];
                let s = McpServer {
                    config: old_server.config.duplicate(),
                    status: ServerStatus::Connecting,
                    retry_count: old_server.retry_count,
                    last_retry: old_server.last_retry,
                };
                let res = match s.config.transport {
                    TransportType::Stdio => Ok(()),
                    _ => Err(owned("HTTP/SSE transport not implemented yet")),
                };
                assert(s.config_spec()@ == old_server.config_spec()@);
                self.replace_at(i, s);
                assert(self.servers_spec().dom() =~= old_map.dom());
                Some(res)
            },
        }
    }

    /// Records a successful attempt of the server named `name`; whether
    /// there is such a server.
    pub fn connect_succeeded(&mut self, name: &str) -> (found: bool)
        requires
            old(self).wf(),
        ensures
            final(self).wf(),
            found == old(self).servers_spec().dom().contains(name@),
            !found ==> final(self).servers_spec() == old(self).servers_spec(),
            found ==> {
                let n = final(self).servers_spec()[name@];
                &&& final(self).servers_spec().dom() == old(self).servers_spec().dom()
                &&& forall|k: Seq<char>| k != name@ ==> #[trigger] final(self).servers_spec()[k] == old(self).servers_spec()[k]
                &&& n.status_spec() == ServerStatus::Connected
                &&& n.config_spec()@ == old(self).servers_spec()[name@].config_spec()@
                &&& n.retries() == 0
                &&& n.last_failure() is None
            },
    {
        match self.position(name) {
            None => {
                proof {
                    lemma_server_absent(self.servers@, name@);
                }
                false
            },
            Some(i) => {
                proof {
                    lemma_server_lookup(self.servers@, i as int);
                }
                let s = McpServer {
                    config: self.servers[i].config.duplicate(),
                    status: ServerStatus::Connected,
                    retry_count: 0,
                    last_retry: None,
                };
                let ghost old_map = self.servers_spec();
                self.replace_at(i, s);
                assert(self.servers_spec().dom() =~= old_map.dom());
                true
            },
        }
    }

    /// Records a failed attempt at `now` of the server named `name`;
    /// whether there is such a server.
    pub fn connect_failed(&mut self, name: &str, reason: String, now: u64) -> (found: bool)
        requires
            old(self).wf(),
            old(self).servers_spec().dom().contains(name@) ==> old(self).servers_spec()[name@].retries() < u32::MAX,
        ensures
            final(self).wf(),
            found == old(self).servers_spec().dom().contains(name@),
            !found ==> final(self).servers_spec() == old(self).servers_spec(),
            found ==> {
                let o = old(self).servers_spec()[name@];
                let n = final(self).servers_spec()[name@];
                &&& final(self).servers_spec().dom() == old(self).servers_spec().dom()
                &&& forall|k: Seq<char>| k != name@ ==> #[trigger] final(self).servers_spec()[k] == old(self).servers_spec()[k]
                &&& n.status_spec() == ServerStatus::Failed(reason)
                &&& n.config_spec()@ == o.config_spec()@
                &&& n.retries() == o.retries() + 1
                &&& n.last_failure() == Some(now)
            },
    {
        match self.position(name) {
            None => {
                proof {
                    lemma_server_absent(self.servers@, name@);
                }
                false
            },
            Some(i) => {
                proof {
                    lemma_server_lookup(self.servers@, i as int);
                }
                let s = McpServer {
                    config: self.servers[i].config.duplicate(),
                    status: ServerStatus::Failed(reason),
                    retry_count: self.servers[i].retry_count + 1,
                    last_retry: Some(now),
                };
                let ghost old_map = self.servers_spec();
                self.replace_at(i, s);
                assert(self.servers_spec().dom() =~= old_map.dom());
                true
            },
        }
    }

    /// Applies a new configuration: servers no longer listed are dropped;
    /// each enabled listed server gets its new settings, and a connected one
    /// is marked disconnected so that it is connected again; new names are
    /// added, not yet connected.
    pub fn reload_config(&mut self, new_config: &McpConfig)
        requires
            old(self).wf(),
        ensures
            final(self).wf(),
            forall|n: Seq<char>|
                #[trigger] final(self).servers_spec().dom().contains(n) <==> (
                initial_servers(new_config.external_servers@).dom().contains(n) || (
                old(self).servers_spec().dom().contains(n) && listed(new_config.external_servers@, n))),
            forall|n: Seq<char>|
                #[trigger] initial_servers(new_config.external_servers@).dom().contains(n) ==> reloaded(
                    final(self).servers_spec()[n],
                    initial_servers(new_config.external_servers@)[n],
                    old(self).servers_spec(),
                    n,
                ),
            forall|n: Seq<char>|
                #[trigger] final(self).servers_spec().dom().contains(n) && !initial_servers(
                    new_config.external_servers@,
                ).dom().contains(n) ==> final(self).servers_spec()[n] == old(self).servers_spec()[n],
    {
        let cfgs = &new_config.external_servers;
        let ghost start = self.servers_spec();
        // Drop the servers that the new configuration no longer lists.
        let mut i: usize = 0;
        while i < self.servers.len()
            invariant
                i <= self.servers.len(),
                self.wf(),
                forall|n: Seq<char>|
                    #[trigger] self.servers_spec().dom().contains(n) ==> start.dom().contains(n)
                        && self.servers_spec()[n] == start[n],
                forall|n: Seq<char>|
                    #[trigger] start.dom().contains(n) && listed(cfgs@, n) ==> self.servers_spec().dom().contains(n),
                forall|j: int| 0 <= j < i ==> listed(cfgs@, #[trigger] self.servers@[j].config_spec().name@),
            decreases self.servers.len() - i,
        {
            let keep = is_listed(cfgs, self.servers[i].config().name.as_str());
            if keep {
                i += 1;
            } else {
                let ghost before = self.servers@;
                let ghost cur = self.servers_spec();
                let ghost key = before[i as int].config_spec().name@;
                proof {
                    lemma_server_remove(before, i as int);
                }
                self.servers.remove(i);
                assert(self.servers@ =~= before.remove(i as int));
                assert(self.servers_spec() == cur.remove(key));
                assert forall|a: int, b: int| 0 <= a < b < self.servers@.len() implies self.servers@[a].config_spec().name@
                    != self.servers@[b].config_spec().name@ by {
                    let a0 = if a < i { a } else { a + 1 };
                    let b0 = if b < i { b } else { b + 1 };
                    assert(self.servers@[a] == before[a0]);
                    assert(self.servers@[b] == before[b0]);
                }
                assert forall|j: int| 0 <= j < i implies listed(cfgs@, #[trigger] self.servers@[j].config_spec().name@) by {
                    assert(self.servers@[j] == before[j]);
                }
            }
        }
        proof {
            assert forall|n: Seq<char>| #[trigger] self.servers_spec().dom().contains(n) implies listed(cfgs@, n) by {
                let j = lemma_server_index(self.servers@, n);
            }
        }
        // Update or add the enabled servers.
        let ghost mid = self.servers_spec();
        let mut k: usize = 0;
        while k < cfgs.len()
            invariant
                k <= cfgs.len(),
                self.wf(),
                forall|n: Seq<char>| #[trigger] mid.dom().contains(n) ==> start.dom().contains(n) && mid[n] == start[n] && listed(cfgs@, n),
                forall|n: Seq<char>| #[trigger] start.dom().contains(n) && listed(cfgs@, n) ==> mid.dom().contains(n),
                forall|n: Seq<char>|
                    #[trigger] self.servers_spec().dom().contains(n) <==> (initial_servers(cfgs@.take(k as int)).dom().contains(n)
                        || mid.dom().contains(n)),
                forall|n: Seq<char>|
                    #[trigger] initial_servers(cfgs@.take(k as int)).dom().contains(n) ==> reloaded(
                        self.servers_spec()[n],
                        initial_servers(cfgs@.take(k as int))[n],
                        mid,
                        n,
                    ),
                forall|n: Seq<char>|
                    #[trigger] self.servers_spec().dom().contains(n) && !initial_servers(cfgs@.take(k as int)).dom().contains(n)
                        ==> self.servers_spec()[n] == mid[n],
            decreases cfgs.len() - k,
        {
            let ghost prev_init = initial_servers(cfgs@.take(k as int));
            let ghost cur = self.servers_spec();
            assert(cfgs@.take(k + 1).drop_last() =~= cfgs@.take(k as int));
            assert(cfgs@.take(k + 1).last() == cfgs@[k as int]);
            let c = &cfgs[k];
            if c.enabled {
                let ghost key = c.name@;
                let ghost next_init = prev_init.insert(key, c@);
                assert(initial_servers(cfgs@.take(k + 1)) == next_init);
                match self.position(c.name.as_str()) {
                    Some(j) => {
                        proof {
                            lemma_server_lookup(self.servers@, j as int);
                        }
                        let old_server = &self.servers[j];
                        let ghost o = cur[key];
                        let status = if old_server.is_connected() {
                            ServerStatus::Disconnected
                        } else {
                            old_server.status.duplicate()
                        };
                        let s = McpServer {
                            config: c.duplicate(),
                            status,
                            retry_count: old_server.retry_count,
                            last_retry: old_server.last_retry,
                        };
                        self.put(s);
                        proof {
                            assert(self.servers_spec() == cur.insert(key, s));
                            if prev_init.dom().contains(key) {
                                assert(reloaded(o, prev_init[key], mid, key));
                            } else {
                                assert(mid.dom().contains(key));
                                assert(o == mid[key]);
                            }
                            assert(reloaded(s, c@, mid, key));
                            assert forall|n: Seq<char>| #[trigger] next_init.dom().contains(n) implies reloaded(
                                self.servers_spec()[n],
                                next_init[n],
                                mid,
                                n,
                            ) by {
                                if n != key {
                                    assert(prev_init.dom().contains(n));
                                }
                            }
                        }
                    },
                    None => {
                        proof {
                            lemma_server_absent(self.servers@, c.name@);
                        }
                        let s = McpServer::new(c.duplicate());
                        self.put(s);
                        proof {
                            assert(!cur.dom().contains(key));
                            assert(!mid.dom().contains(key));
                            assert(reloaded(s, c@, mid, key));
                            assert forall|n: Seq<char>| #[trigger] next_init.dom().contains(n) implies reloaded(
                                self.servers_spec()[n],
                                next_init[n],
                                mid,
                                n,
                            ) by {
                                if n != key {
                                    assert(prev_init.dom().contains(n));
                                }
                            }
                        }
                    },
                }
            } else {
                assert(initial_servers(cfgs@.take(k + 1)) == prev_init);
            }
            k += 1;
        }
        assert(cfgs@.take(cfgs.len() as int) =~= cfgs@);
        proof {
            assert forall|n: Seq<char>| #[trigger] initial_servers(cfgs@).dom().contains(n) implies reloaded(
                self.servers_spec()[n],
                initial_servers(cfgs@)[n],
                start,
                n,
            ) by {
                lemma_initial_listed(cfgs@, n);
                assert(reloaded(self.servers_spec()[n], initial_servers(cfgs@)[n], mid, n));
                if start.dom().contains(n) {
                    assert(mid.dom().contains(n));
                }
            }
            assert forall|n: Seq<char>|
                #[trigger] self.servers_spec().dom().contains(n) <==> (initial_servers(cfgs@).dom().contains(n) || (
                start.dom().contains(n) && listed(cfgs@, n))) by {
                if mid.dom().contains(n) {
                    assert(start.dom().contains(n) && listed(cfgs@, n));
                }
            }
        }
    }
}

proof fn lemma_initial_listed(cfgs: Seq<ExternalServerConfig>, n: Seq<char>)
    requires
        initial_servers(cfgs).dom().contains(n),
    ensures
        listed(cfgs, n),
    decreases cfgs.len(),
{
    if cfgs.last().enabled && cfgs.last().name@ == n {
        assert(cfgs[cfgs.len() - 1].name@ == n);
    } else {
        lemma_initial_listed(cfgs.drop_last(), n);
        let i = choose|i: int| 0 <= i < cfgs.drop_last().len() && #[trigger] cfgs.drop_last()[i].name@ == n;
        assert(cfgs[i].name@ == n);
    }
}

/// A server after a reload: the new settings, and the state it had
/// (a connected one marked disconnected), or a fresh state for a new name.
pub open spec fn reloaded(s: McpServer, c: ServerConfigView, before: Map<Seq<char>, McpServer>, n: Seq<char>) -> bool {
    &&& s.config_spec()@ == c
    &&& if before.dom().contains(n) {
        let o = before[n];
        &&& s.status_spec() == (if o.status_spec() == ServerStatus::Connected {
            ServerStatus::Disconnected
        } else {
            o.status_spec()
        })
        &&& s.retries() == o.retries()
        &&& s.last_failure() == o.last_failure()
    } else {
        &&& s.status_spec() == ServerStatus::Disconnected
        &&& s.retries() == 0
        &&& s.last_failure() is None
    }
}

/// Whether a server is due for an attempt at `now`.
pub open spec fn server_due(s: McpServer, now: u64) -> bool {
    retry_due(s.config_spec().enabled, s.retries(), s.last_failure(), now)
}

/// Names of the due servers, in table order.
pub open spec fn due_names(v: Seq<McpServer>, now: u64) -> Seq<Seq<char>>
    decreases v.len(),
{
    if v.len() == 0 {
        Seq::empty()
    } else if server_due(v.last(), now) {
        due_names(v.drop_last(), now).push(v.last().config_spec().name@)
    } else {
        due_names(v.drop_last(), now)
    }
}

/// Views of string slices and strings.
pub open spec fn strs_of(v: Seq<String>) -> Seq<Seq<char>> {
    v.map_values(|s: String| s@)
}

proof fn lemma_due_names_source(v: Seq<McpServer>, now: u64, k: int) -> (j: int)
    requires
        0 <= k < due_names(v, now).len(),
    ensures
        0 <= j < v.len(),
        v[j].config_spec().name@ == due_names(v, now)[k],
        server_due(v[j], now),
    decreases v.len(),
{
    let p = due_names(v.drop_last(), now);
    if server_due(v.last(), now) && k == p.len() {
        v.len() - 1
    } else {
        lemma_due_names_source(v.drop_last(), now, k)
    }
}

proof fn lemma_due_names_complete(v: Seq<McpServer>, now: u64, j: int) -> (k: int)
    requires
        0 <= j < v.len(),
        server_due(v[j], now),
    ensures
        0 <= k < due_names(v, now).len(),
        due_names(v, now)[k] == v[j].config_spec().name@,
    decreases v.len(),
{
    if j == v.len() - 1 {
        due_names(v.drop_last(), now).len() as int
    } else {
        let k = lemma_due_names_complete(v.drop_last(), now, j);
        k
    }
}

/// Whether a configuration lists a server of that name.
pub open spec fn listed(cfgs: Seq<ExternalServerConfig>, n: Seq<char>) -> bool {
    exists|i: int| 0 <= i < cfgs.len() && #[trigger] cfgs[i].name@ == n
}

fn is_listed(cfgs: &Vec<ExternalServerConfig>, name: &str) -> (r: bool)
    ensures
        r == listed(cfgs@, name@),
{
    let mut i: usize = 0;
    while i < cfgs.len()
        invariant
            i <= cfgs.len(),
            forall|j: int| 0 <= j < i ==> cfgs@[j].name@ != name@,
        decreases cfgs.len() - i,
    {
        if str_eq(cfgs[i].name.as_str(), name) {
            assert(cfgs@[i as int].name@ == name@);
            return true;
        }
        i += 1;
    }
    false
}

impl ServerStatus {
    /// A copy of the status.
    pub fn duplicate(&self) -> (r: ServerStatus)
        ensures
            r == *self,
    {
        match self {
            ServerStatus::Disconnected => ServerStatus::Disconnected,
            ServerStatus::Connecting => ServerStatus::Connecting,
            ServerStatus::Connected => ServerStatus::Connected,
            ServerStatus::Failed(e) => ServerStatus::Failed(e.clone()),
        }
    }
}

proof fn lemma_server_len(v: Seq<McpServer>)
    requires
        distinct_servers(v),
    ensures
        server_map(v).dom().finite(),
        server_map(v).dom().len() == v.len(),
    decreases v.len(),
{
    if v.len() > 0 {
        let u = v.drop_last();
        lemma_server_len(u);
        assert forall|i: int| 0 <= i < u.len() implies u[i].config_spec().name@ != v.last().config_spec().name@ by {
            assert(v[i].config_spec().name@ != v[v.len() - 1].config_spec().name@);
        }
        lemma_server_absent(u, v.last().config_spec().name@);
    }
}

proof fn lemma_server_index(v: Seq<McpServer>, n: Seq<char>) -> (j: int)
    requires
        server_map(v).dom().contains(n),
    ensures
        0 <= j < v.len(),
        v[j].config_spec().name@ == n,
    decreases v.len(),
{
    if v.last().config_spec().name@ == n {
        v.len() - 1
    } else {
        lemma_server_index(v.drop_last(), n)
    }
}

} // verus!
