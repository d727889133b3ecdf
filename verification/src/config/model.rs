//! Public shape of the configuration tree and the values derived from it.
//! Reading the TOML file and the environment happens at the caller; the
//! values read are handed in here.

use vstd::prelude::*;

use crate::cdb::cli::strings_view;
use crate::config::defaults::{
    default_attach_timeout, default_bind, default_command_timeout, default_idle_secs,
    default_max_sessions, default_output_ring_bytes, loopback_hosts, WILDCARD_BIND,
};
use crate::error::Error;
use crate::text::{chars_eq, chars_of, last_index_of, last_index_of_exec, string_of, trim, trim_chars};

verus! {

#[derive(Debug, Clone)]
pub struct Config {
    pub server: ServerConfig,
    pub auth: AuthConfig,
    pub debugger: DebuggerConfig,
    pub audit: AuditConfig,
}

#[derive(Debug, Clone)]
pub struct ServerConfig {
    pub bind: String,
    pub max_sessions: usize,
    pub session_idle_timeout_secs: u64,
    /// Hostnames (or `host:port` authorities) accepted in the inbound
    /// `Host` header for the Streamable HTTP transport.
    ///
    /// - `None` (default) → the loopback list plus the bind host if it
    ///   differs.
    /// - `Some([])` → disable DNS rebinding protection entirely.
    /// - `Some([...])` → use the provided list verbatim.
    pub allowed_hosts: Option<Vec<String>>,
}

#[derive(Debug, Clone)]
pub struct AuthConfig {
    /// Read bearer token from this environment variable (HTTP transport).
    pub bearer_token_env: Option<String>,
    /// Inline token. Prefer `bearer_token_env` for production.
    pub bearer_token: Option<String>,
}

#[derive(Debug, Clone)]
pub struct DebuggerConfig {
    /// Text of the path of `cdb.exe`.
    pub cdb_path: Option<String>,
    pub symbol_path: Option<String>,
    pub attach_timeout_ms: u64,
    pub launch_timeout_ms: u64,
    pub command_timeout_ms: u64,
    pub output_ring_bytes: usize,
}

#[derive(Debug, Clone)]
pub struct AuditConfig {
    /// Text of the path of the JSONL audit log.
    pub jsonl_path: Option<String>,
}

impl Default for ServerConfig {
    fn default() -> (r: ServerConfig)
        ensures
            r.bind@ == "127.0.0.1:8765"@,
            r.max_sessions == 4,
            r.session_idle_timeout_secs == 900,
            r.allowed_hosts is None,
    {
        ServerConfig {
            bind: default_bind(),
            max_sessions: default_max_sessions(),
            session_idle_timeout_secs: default_idle_secs(),
            allowed_hosts: None,
        }
    }
}

impl Default for AuthConfig {
    fn default() -> (r: AuthConfig)
        ensures
            r.bearer_token_env is None,
            r.bearer_token is None,
    {
        AuthConfig { bearer_token_env: None, bearer_token: None }
    }
}

impl Default for DebuggerConfig {
    fn default() -> (r: DebuggerConfig)
        ensures
            r.cdb_path is None,
            r.symbol_path is None,
            r.attach_timeout_ms == 15_000,
            r.launch_timeout_ms == 15_000,
            r.command_timeout_ms == 30_000,
            r.output_ring_bytes == 512 * 1024,
    {
        DebuggerConfig {
            cdb_path: None,
            symbol_path: None,
            attach_timeout_ms: default_attach_timeout(),
            launch_timeout_ms: default_attach_timeout(),
            command_timeout_ms: default_command_timeout(),
            output_ring_bytes: default_output_ring_bytes(),
        }
    }
}

impl Default for AuditConfig {
    fn default() -> (r: AuditConfig)
        ensures
            r.jsonl_path is None,
    {
        AuditConfig { jsonl_path: None }
    }
}

impl Default for Config {
    fn default() -> (r: Config)
        ensures
            r.server.bind@ == "127.0.0.1:8765"@,
            r.server.max_sessions == 4,
            r.server.session_idle_timeout_secs == 900,
            r.server.allowed_hosts is None,
            r.auth.bearer_token_env is None,
            r.auth.bearer_token is None,
            r.debugger.cdb_path is None,
            r.debugger.symbol_path is None,
            r.debugger.attach_timeout_ms == 15_000,
            r.debugger.launch_timeout_ms == 15_000,
            r.debugger.command_timeout_ms == 30_000,
            r.debugger.output_ring_bytes == 512 * 1024,
            r.audit.jsonl_path is None,
    {
        Config {
            server: ServerConfig::default(),
            auth: AuthConfig::default(),
            debugger: DebuggerConfig::default(),
            audit: AuditConfig::default(),
        }
    }
}

/// `c` is `[` or `]`.
pub open spec fn is_bracket(c: char) -> bool {
    c == '[' || c == ']'
}

/// Number of leading brackets of `s`.
pub open spec fn leading_brackets(s: Seq<char>) -> nat
    decreases s.len(),
{
    if s.len() > 0 && is_bracket(s[0]) {
        1 + leading_brackets(s.drop_first())
    } else {
        0
    }
}

/// Length of `s` without its trailing brackets.
pub open spec fn trailing_brackets_cut(s: Seq<char>) -> nat
    decreases s.len(),
{
    if s.len() > 0 && is_bracket(s.last()) {
        trailing_brackets_cut(s.drop_last())
    } else {
        s.len()
    }
}

/// `s` with brackets trimmed from both ends (`trim_matches(['[', ']'])`).
pub open spec fn trim_brackets(s: Seq<char>) -> Seq<char> {
    let e = s.take(trailing_brackets_cut(s) as int);
    e.skip(leading_brackets(e) as int)
}

/// The host part of a `host:port` bind address (text before the last
/// colon, brackets trimmed); `None` without a colon.
pub open spec fn bind_host(bind: Seq<char>) -> Option<Seq<char>> {
    match last_index_of(bind, ':') {
        Some(i) => Some(trim_brackets(bind.take(i))),
        None => None,
    }
}

/// The host list the HTTP transport accepts.
pub open spec fn allowed_hosts_spec(allowed: Option<Vec<String>>, bind: Seq<char>) -> Seq<
    Seq<char>,
> {
    match allowed {
        Some(list) => strings_view(list@),
        None => match bind_host(bind) {
            Some(h) => if h.len() > 0 && h != WILDCARD_BIND@ && !loopback_hosts().contains(h) {
                loopback_hosts().push(h)
            } else {
                loopback_hosts()
            },
            None => loopback_hosts(),
        },
    }
}

/// The bearer token: the inline one when non-empty, else the non-empty
/// value of the named environment variable.
pub open spec fn resolved_token_spec(
    inline: Option<String>,
    env_name: Option<String>,
    env_value: Option<String>,
) -> Option<Seq<char>> {
    if inline is Some && inline->0@.len() > 0 {
        Some(inline->0@)
    } else if env_name is Some && env_value is Some && env_value->0@.len() > 0 {
        Some(env_value->0@)
    } else {
        None
    }
}

/// The cdb path after finalisation: the configured one, else a non-blank
/// environment override, else the detected one.
pub open spec fn finalized_cdb_path(
    configured: Option<String>,
    env_value: Option<String>,
    detected: Option<String>,
) -> Option<String> {
    if configured is Some {
        configured
    } else if env_value is Some && trim(env_value->0@).len() > 0 {
        env_value
    } else {
        detected
    }
}

/// A copy of a list of strings.
pub fn clone_strings(v: &Vec<String>) -> (r: Vec<String>)
    ensures
        r@ == v@,
{
    let mut r: Vec<String> = Vec::new();
    let n = v.len();
    for i in 0..n
        invariant
            n == v@.len(),
            r@ == v@.take(i as int),
    {
        r.push(v[i].clone());
        assert(v@.take(i + 1) == v@.take(i as int).push(v@[i as int]));
    }
    assert(v@.take(n as int) == v@);
    r
}

fn contains_text(hosts: &Vec<String>, h: &[char]) -> (r: bool)
    ensures
        r == strings_view(hosts@).contains(h@),
{
    let n = hosts.len();
    for i in 0..n
        invariant
            n == hosts@.len(),
            forall|k: int| 0 <= k < i ==> hosts@[k]@ != h@,
    {
        let c = chars_of(hosts[i].as_str());
        if chars_eq(c.as_slice(), h) {
            assert(strings_view(hosts@)[i as int] == h@);
            return true;
        }
    }
    assert forall|k: int| 0 <= k < strings_view(hosts@).len() implies strings_view(hosts@)[k]
        != h@ by {
        assert(strings_view(hosts@)[k] == hosts@[k]@);
    }
    false
}

fn trim_brackets_exec(v: &[char]) -> (r: Vec<char>)
    ensures
        r@ == trim_brackets(v@),
{
    let mut n = v.len();
    assert(v@.take(n as int) == v@);
    while n > 0 && (v[n - 1] == '[' || v[n - 1] == ']')
        invariant
            n <= v@.len(),
            trailing_brackets_cut(v@.take(n as int)) == trailing_brackets_cut(v@),
        decreases n,
    {
        assert(v@.take(n as int).drop_last() == v@.take(n - 1));
        n = n - 1;
    }
    assert(trailing_brackets_cut(v@) == n);
    let mut i: usize = 0;
    let ghost e = v@.take(n as int);
    assert(e.skip(0) == e);
    while i < n && (v[i] == '[' || v[i] == ']')
        invariant
            i <= n <= v@.len(),
            e == v@.take(n as int),
            leading_brackets(e) == i + leading_brackets(e.skip(i as int)),
        decreases n - i,
    {
        assert(e.skip(i as int).drop_first() == e.skip(i + 1));
        i = i + 1;
    }
    let mut r: Vec<char> = Vec::new();
    for k in i..n
        invariant
            i <= n <= v@.len(),
            e == v@.take(n as int),
            r@ == e.subrange(i as int, k as int),
    {
        r.push(v[k]);
        assert(e.subrange(i as int, k + 1) == e.subrange(i as int, k as int).push(e[k as int]));
    }
    assert(r@ == e.skip(i as int));
    r
}

impl Config {
    /// The configured (or detected) cdb path.
    pub fn cdb_path(&self) -> (r: Result<&str, Error>)
        ensures
            match self.debugger.cdb_path {
                Some(p) => r matches Ok(s) && s@ == p@,
                None => r matches Err(Error::CdbNotFound(m)) && m@
                    == "no cdb path configured or autodetected"@,
            },
    {
        match &self.debugger.cdb_path {
            Some(p) => Ok(p.as_str()),
            None => Err(Error::CdbNotFound("no cdb path configured or autodetected".to_string())),
        }
    }

    /// Resolve the bearer token from the inline config or, when
    /// `auth.bearer_token_env` names a variable, from `env_value`, that
    /// variable's value.
    pub fn resolved_token(&self, env_value: Option<String>) -> (r: Option<String>)
        ensures
            match resolved_token_spec(self.auth.bearer_token, self.auth.bearer_token_env, env_value) {
                Some(t) => r matches Some(s) && s@ == t,
                None => r is None,
            },
    {
        if let Some(t) = &self.auth.bearer_token {
            if !t.as_str().is_empty() {
                return Some(t.clone());
            }
        }
        if self.auth.bearer_token_env.is_some() {
            if let Some(v) = env_value {
                if !v.as_str().is_empty() {
                    return Some(v);
                }
            }
        }
        None
    }

    /// Fill in the cdb path when none is configured: first from
    /// `env_value` (the `WINDBG_CDB_PATH` variable) unless blank, then
    /// from `detected`.
    pub fn finalize(&mut self, env_value: Option<String>, detected: Option<String>)
        ensures
            final(self).debugger.cdb_path == finalized_cdb_path(
                old(self).debugger.cdb_path,
                env_value,
                detected,
            ),
            final(self).server == old(self).server,
            final(self).auth == old(self).auth,
            final(self).audit == old(self).audit,
            final(self).debugger.symbol_path == old(self).debugger.symbol_path,
            final(self).debugger.attach_timeout_ms == old(self).debugger.attach_timeout_ms,
            final(self).debugger.launch_timeout_ms == old(self).debugger.launch_timeout_ms,
            final(self).debugger.command_timeout_ms == old(self).debugger.command_timeout_ms,
            final(self).debugger.output_ring_bytes == old(self).debugger.output_ring_bytes,
    {
        if self.debugger.cdb_path.is_none() {
            if let Some(env) = env_value {
                let c = chars_of(env.as_str());
                let t = trim_chars(c.as_slice());
                if t.len() > 0 {
                    self.debugger.cdb_path = Some(env);
                }
            }
        }
        if self.debugger.cdb_path.is_none() {
            self.debugger.cdb_path = detected;
        }
    }
}

impl ServerConfig {
    /// Resolve the final `allowed_hosts` list for the HTTP transport.
    pub fn resolved_allowed_hosts(&self) -> (r: Vec<String>)
        ensures
            strings_view(r@) == allowed_hosts_spec(self.allowed_hosts, self.bind@),
    {
        if let Some(list) = &self.allowed_hosts {
            return clone_strings(list);
        }
        let mut hosts: Vec<String> = Vec::new();
        hosts.push("localhost".to_string());
        hosts.push("127.0.0.1".to_string());
        hosts.push("::1".to_string());
        assert(strings_view(hosts@) =~= loopback_hosts());
        let bind = chars_of(self.bind.as_str());
        if let Some(i) = last_index_of_exec(bind.as_slice(), ':') {
            let mut prefix: Vec<char> = Vec::new();
            for k in 0..i
                invariant
                    i < bind@.len(),
                    prefix@ == bind@.take(k as int),
            {
                prefix.push(bind[k]);
                assert(bind@.take(k + 1) == bind@.take(k as int).push(bind@[k as int]));
            }
            let host = trim_brackets_exec(prefix.as_slice());
            let wildcard = chars_of(WILDCARD_BIND);
            if host.len() > 0 && !chars_eq(host.as_slice(), wildcard.as_slice()) && !contains_text(
                &hosts,
                host.as_slice(),
            ) {
                let ghost before = hosts@;
                hosts.push(string_of(host.as_slice()));
                assert(strings_view(hosts@) =~= strings_view(before).push(host@));
            }
        }
        hosts
    }
}


/// Without an explicit list, the loopback hosts always come first, the
/// wildcard address is never allowed, and no host is listed twice.
pub proof fn law_default_hosts_loopback_first_no_wildcard(bind: Seq<char>)
    ensures
        ({
            let h = allowed_hosts_spec(None, bind);
            &&& h.take(3) == loopback_hosts()
            &&& h.len() <= 4
            &&& !h.contains(WILDCARD_BIND@)
            &&& forall|i: int, j: int| 0 <= i < j < h.len() ==> #[trigger] h[i] != #[trigger] h[j]
        }),
{
    reveal_strlit("localhost");
    reveal_strlit("127.0.0.1");
    reveal_strlit("::1");
    reveal_strlit("0.0.0.0");
    let l = loopback_hosts();
    assert("localhost"@.len() == 9 && "127.0.0.1"@.len() == 9 && "::1"@.len() == 3);
    assert("0.0.0.0"@.len() == 7);
    assert("localhost"@[0] == 'l' && "127.0.0.1"@[0] == '1');
    assert(l[0] != l[1] && l[0] != l[2] && l[1] != l[2]);
    let h = allowed_hosts_spec(None, bind);
    assert(l.take(3) =~= l);
    assert(h.take(3) =~= l);
    assert(!l.contains(WILDCARD_BIND@)) by {
        if l.contains(WILDCARD_BIND@) {
            let k = choose|k: int| 0 <= k < l.len() && l[k] == WILDCARD_BIND@;
            assert(l[k].len() != 7);
        }
    }
}


/// The bearer token: a non-empty inline token always wins; otherwise, when
/// `bearer_token_env` names a variable whose value is non-empty, that
/// value is the token; there is no token in any other case, and an empty
/// string is never a token.
pub proof fn law_bearer_token_sources(
    inline: Option<String>,
    env_name: Option<String>,
    env_value: Option<String>,
)
    ensures
        (inline is Some && inline->0@.len() > 0) ==> resolved_token_spec(inline, env_name, env_value)
            == Some(inline->0@),
        (!(inline matches Some(t) && t@.len() > 0) && env_name is Some && (env_value matches Some(
            v,
        ) && v@.len() > 0)) ==> resolved_token_spec(inline, env_name, env_value) == Some(
            env_value->0@,
        ),
        (!(inline matches Some(t) && t@.len() > 0) && (env_name is None || !(env_value matches Some(
            v,
        ) && v@.len() > 0))) ==> resolved_token_spec(inline, env_name, env_value) is None,
        resolved_token_spec(inline, env_name, env_value) matches Some(t) ==> t.len() > 0,
{
}


/// The cdb path: a configured path is never replaced; without one, a
/// non-blank environment override is used, and otherwise the detected
/// path (if any); a blank override is ignored.
pub proof fn law_cdb_path_sources(
    configured: Option<String>,
    env_value: Option<String>,
    detected: Option<String>,
)
    ensures
        configured is Some ==> finalized_cdb_path(configured, env_value, detected) == configured,
        (configured is None && env_value is Some && trim(env_value->0@).len() > 0) ==> finalized_cdb_path(
            configured,
            env_value,
            detected,
        ) == env_value,
        (configured is None && (env_value is None || trim(env_value->0@).len() == 0)) ==> finalized_cdb_path(
            configured,
            env_value,
            detected,
        ) == detected,
{
}

} // verus!
