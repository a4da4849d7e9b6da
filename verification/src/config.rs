//! The daemon's configuration: its shape, its defaults, and what is done to the
//! text of a configuration file before it is read.
use vstd::prelude::*;
use vstd::string::StringExecFns;

use crate::deprecation::{
    after_notice, emit_deprecation, is_news, DeprecationEntry, DeprecationRegistry,
    DeprecationWarning,
};
use crate::json::{
    jempty, jstr, lemma_array_view, member, parse_yaml, parsed_yaml, views, Json, JsonView,
};
use crate::secret::{ResolvedCreds, Secret};
use crate::text::{chars_of, index_of, lemma_index_of, lemma_index_of_bounds, same, string_of};

verus! {

/// How a listener knows its callers.
#[derive(Debug, Clone, Copy, PartialEq, Eq, Structural)]
pub enum AuthMode {
    /// By the token that they send.
    Bearer,
    /// By their client certificate.
    Mtls,
    /// By their client certificate where they show one, else by their token.
    Both,
}

/// Whether an upstream is reached straight or through the egress proxy.
#[derive(Debug, Clone, Copy, PartialEq, Eq, Structural)]
pub enum EgressMode {
    Direct,
    Proxied,
}

impl Default for EgressMode {
    fn default() -> (r: EgressMode)
        ensures
            r == EgressMode::Direct,
    {
        EgressMode::Direct
    }
}

/// The name of an egress mode.
pub open spec fn egress_name(e: EgressMode) -> Seq<char> {
    match e {
        EgressMode::Direct => "direct"@,
        EgressMode::Proxied => "proxied"@,
    }
}

/// The egress mode that a name stands for.
pub open spec fn egress_named(s: Seq<char>) -> Option<EgressMode> {
    if s == "direct"@ {
        Some(EgressMode::Direct)
    } else if s == "proxied"@ {
        Some(EgressMode::Proxied)
    } else {
        None
    }
}

/// The name of an egress mode, as it is stored and shown.
pub fn egress_as_str(e: EgressMode) -> (r: &'static str)
    ensures
        r@ == egress_name(e),
{
    match e {
        EgressMode::Direct => "direct",
        EgressMode::Proxied => "proxied",
    }
}

/// The egress mode with the given name.
pub fn egress_from_str(s: &str) -> (r: Option<EgressMode>)
    ensures
        r == egress_named(s@),
{
    if same(s, "direct") {
        Some(EgressMode::Direct)
    } else if same(s, "proxied") {
        Some(EgressMode::Proxied)
    } else {
        None
    }
}

/// An egress mode's name stands for that mode.
pub proof fn law_egress_name_round_trip(e: EgressMode)
    ensures
        egress_named(egress_name(e)) == Some(e),
{
    reveal_strlit("direct");
    reveal_strlit("proxied");
    assert("direct"@.len() == 6 && "proxied"@.len() == 7);
}

/// How long a request to an upstream may take.
#[derive(Debug, Clone, Copy, PartialEq, Eq, Structural)]
pub struct ToolTimeouts {
    /// From the first byte sent to the last byte received.
    pub request_seconds: u64,
    /// Between two reads.
    pub idle_seconds: u64,
}

/// Thirty seconds.
pub fn default_request_seconds() -> (r: u64)
    ensures
        r == 30,
{
    30
}

/// One minute.
pub fn default_idle_seconds() -> (r: u64)
    ensures
        r == 60,
{
    60
}

impl Default for ToolTimeouts {
    fn default() -> (r: ToolTimeouts)
        ensures
            r == (ToolTimeouts { request_seconds: 30, idle_seconds: 60 }),
    {
        ToolTimeouts {
            request_seconds: default_request_seconds(),
            idle_seconds: default_idle_seconds(),
        }
    }
}

/// Where the database lies.
#[derive(Debug)]
pub struct DatabaseConfig {
    pub path: String,
}

/// How long audit rows are kept, and where they are mirrored.
#[derive(Debug)]
pub struct AuditConfig {
    /// Rows older than this many days are deleted.
    pub retention_days: u32,
    /// How often old rows are looked for.
    pub sweep_interval_seconds: u64,
    /// The file that mirrors the rows, where there is one.
    pub jsonl_path: Option<String>,
    /// The size at which the mirror starts a new file.
    pub jsonl_max_bytes: u64,
    /// How many mirror files are kept.
    pub jsonl_keep_files: usize,
}

/// Ninety days.
pub fn default_audit_retention_days() -> (r: u32)
    ensures
        r == 90,
{
    90
}

/// One hour.
pub fn default_audit_sweep_interval_seconds() -> (r: u64)
    ensures
        r == 3600,
{
    3600
}

impl Default for AuditConfig {
    fn default() -> (r: AuditConfig)
        ensures
            r.retention_days == 90,
            r.sweep_interval_seconds == 3600,
            r.jsonl_path is None,
            r.jsonl_max_bytes == 104857600,
            r.jsonl_keep_files == 14,
    {
        AuditConfig {
            retention_days: default_audit_retention_days(),
            sweep_interval_seconds: default_audit_sweep_interval_seconds(),
            jsonl_path: None,
            jsonl_max_bytes: 104857600,
            jsonl_keep_files: 14,
        }
    }
}

/// How long open requests may go on once the daemon was told to stop.
#[derive(Debug)]
pub struct ShutdownConfig {
    pub drain_window_seconds: u64,
}

/// Thirty seconds.
pub fn default_drain_window() -> (r: u64)
    ensures
        r == 30,
{
    30
}

impl Default for ShutdownConfig {
    fn default() -> (r: ShutdownConfig)
        ensures
            r.drain_window_seconds == 30,
    {
        ShutdownConfig { drain_window_seconds: default_drain_window() }
    }
}

/// Where the daemon listens.
#[derive(Debug)]
pub struct ListenConfig {
    pub host: String,
    pub port: u16,
    /// How the agent listener knows its callers.
    pub auth_mode: AuthMode,
    /// The socket of the admin listener; without one there is none.
    pub admin_socket: Option<AdminSocketConfig>,
}

/// Where the admin socket lies.
#[derive(Debug)]
pub struct AdminSocketConfig {
    pub path: String,
}

/// The loopback address.
pub fn default_host() -> (r: String)
    ensures
        r@ == "127.0.0.1"@,
{
    "127.0.0.1".to_owned()
}

/// Port 9200.
pub fn default_port() -> (r: u16)
    ensures
        r == 9200,
{
    9200
}

/// A token that all agents share.
#[derive(Debug)]
pub struct InboundAuthConfig {
    pub mode: String,
    pub token: Option<Secret>,
}

/// How much is logged, and where.
#[derive(Debug)]
pub struct LoggingConfig {
    pub level: String,
    pub file: Option<String>,
}

/// `info`.
pub fn default_log_level() -> (r: String)
    ensures
        r@ == "info"@,
{
    "info".to_owned()
}

/// An upstream that is configured in the file.
#[derive(Debug)]
pub struct ToolConfig {
    pub name: String,
    pub description: String,
    pub upstream: String,
    pub egress: EgressMode,
    pub auth: Option<ToolAuthConfig>,
    pub timeouts: ToolTimeouts,
    pub body_limit_bytes: u64,
}

/// Ten mebibytes.
pub fn default_body_limit() -> (r: u64)
    ensures
        r == 10 * 1024 * 1024,
{
    10 * 1024 * 1024
}

/// The header that an upstream wants, and its value.
#[derive(Debug)]
pub struct ToolAuthConfig {
    pub header: String,
    pub value: Secret,
}

/// The whole configuration.
#[derive(Debug)]
pub struct AppConfig {
    pub listen: ListenConfig,
    pub inbound_auth: Option<InboundAuthConfig>,
    pub egress_proxy: Option<String>,
    pub logging: Option<LoggingConfig>,
    pub shutdown: ShutdownConfig,
    pub tools: Vec<ToolConfig>,
    /// Needed where there is an admin socket.
    pub operator_credentials_path: Option<String>,
    /// Needed where there is an admin socket.
    pub database: Option<DatabaseConfig>,
    pub audit: Option<AuditConfig>,
}

/// Whether a tool needs no credential or has one.
pub open spec fn tool_active(t: ToolConfig) -> bool {
    match t.auth {
        Some(a) => a.value@.len() > 0,
        None => true,
    }
}

impl ToolConfig {
    /// Whether this tool needs no credential or has one.
    pub fn is_active(&self) -> (r: bool)
        ensures
            r == tool_active(*self),
    {
        match &self.auth {
            Some(a) => !a.value.expose().is_empty(),
            None => true,
        }
    }
}

impl AppConfig {
    /// The tools that need no credential or have one, in the order of the file.
    pub fn active_tools(&self) -> (r: Vec<&ToolConfig>)
        ensures
            r@.unref() == self.tools@.filter(|t: ToolConfig| tool_active(t)),
    {
        let mut out: Vec<&ToolConfig> = Vec::new();
        let mut i: usize = 0;
        let ghost p = |t: ToolConfig| tool_active(t);
        reveal(Seq::filter);
        assert(out@.unref() =~= self.tools@.take(0).filter(p));
        while i < self.tools.len()
            invariant
                i <= self.tools@.len(),
                p == (|t: ToolConfig| tool_active(t)),
                out@.unref() == self.tools@.take(i as int).filter(p),
            decreases self.tools.len() - i,
        {
            let ghost next = self.tools@.take(i + 1);
            let ghost before = out@;
            reveal(Seq::filter);
            assert(next.drop_last() =~= self.tools@.take(i as int));
            if self.tools[i].is_active() {
                out.push(&self.tools[i]);
                assert(out@.unref() =~= before.unref().push(next.last()));
            }
            i = i + 1;
        }
        assert(self.tools@.take(self.tools@.len() as int) =~= self.tools@);
        out
    }
}

/// The credentials of the tools that have one, by the names of the tools; of two tools
/// with one name the later counts.
pub open spec fn tool_creds(tools: Seq<ToolConfig>) -> Map<Seq<char>, Seq<char>>
    decreases tools.len(),
{
    if tools.len() == 0 {
        Map::empty()
    } else {
        let rest = tool_creds(tools.drop_last());
        match tools.last().auth {
            Some(a) => if a.value@.len() > 0 {
                rest.insert(tools.last().name@, a.value@)
            } else {
                rest
            },
            None => rest,
        }
    }
}

/// The credentials that the configuration holds. An empty one counts as none.
pub fn config_creds(config: &AppConfig) -> (r: ResolvedCreds)
    ensures
        r@ == tool_creds(config.tools@),
{
    let mut out = ResolvedCreds::new();
    let mut i: usize = 0;
    assert(config.tools@.take(0) =~= Seq::empty());
    while i < config.tools.len()
        invariant
            i <= config.tools@.len(),
            out@ == tool_creds(config.tools@.take(i as int)),
        decreases config.tools.len() - i,
    {
        let ghost next = config.tools@.take(i + 1);
        assert(next.drop_last() =~= config.tools@.take(i as int));
        let tool = &config.tools[i];
        if tool.is_active() {
            match &tool.auth {
                Some(a) => out.insert(tool.name.clone(), a.value.clone()),
                None => {},
            }
        }
        i = i + 1;
    }
    assert(config.tools@.take(config.tools@.len() as int) =~= config.tools@);
    out
}

/// The position of the first `${` in `s`, from position `from` on; the length
/// of `s` where there is none.
pub open spec fn open_index(s: Seq<char>, from: int) -> int
    decreases s.len() - from,
{
    if from + 1 >= s.len() {
        s.len() as int
    } else if s[from] == '$' && s[from + 1] == '{' {
        from
    } else {
        open_index(s, from + 1)
    }
}

/// The value of the first variable with the given name; the empty text where
/// there is none.
pub open spec fn env_value(env: Seq<(String, String)>, name: Seq<char>, from: int) -> Seq<char>
    decreases env.len() - from,
{
    if from >= env.len() {
        Seq::empty()
    } else if env[from].0@ == name {
        env[from].1@
    } else {
        env_value(env, name, from + 1)
    }
}

/// `s` with its first `${NAME}` replaced by the variable's value; nothing where
/// there is no `${`, or no `}` after it.
pub open spec fn expand_step(s: Seq<char>, env: Seq<(String, String)>) -> Option<Seq<char>> {
    let start = open_index(s, 0);
    if start >= s.len() {
        None
    } else {
        let end = index_of(s.skip(start), '}');
        if end >= s.len() - start {
            None
        } else {
            let name = s.subrange(start + 2, start + end);
            Some(s.take(start) + env_value(env, name, 0) + s.skip(start + end + 1))
        }
    }
}

/// `s` after at most `n` replacements.
pub open spec fn expand_steps(s: Seq<char>, env: Seq<(String, String)>, n: nat) -> Seq<char>
    decreases n,
{
    if n == 0 {
        s
    } else {
        match expand_step(s, env) {
            Some(t) => expand_steps(t, env, (n - 1) as nat),
            None => s,
        }
    }
}

/// Whether `n` replacements leave nothing to replace.
pub open spec fn settled(s: Seq<char>, env: Seq<(String, String)>, n: nat) -> bool {
    expand_step(expand_steps(s, env, n), env) is None
}

proof fn lemma_open_index(s: Seq<char>, from: int)
    requires
        0 <= from <= s.len(),
    ensures
        from <= open_index(s, from) <= s.len(),
        open_index(s, from) < s.len() ==> open_index(s, from) + 1 < s.len() && s[open_index(
            s,
            from,
        )] == '$' && s[open_index(s, from) + 1] == '{',
    decreases s.len() - from,
{
    if from + 1 < s.len() && !(s[from] == '$' && s[from + 1] == '{') {
        lemma_open_index(s, from + 1);
    }
}

fn find_open(cs: &Vec<char>) -> (r: usize)
    ensures
        r == open_index(cs@, 0),
        r <= cs@.len(),
        r < cs@.len() ==> r + 1 < cs@.len(),
{
    let mut i: usize = 0;
    proof {
        lemma_open_index(cs@, 0);
    }
    while i < cs.len() && cs.len() - i > 1 && !(cs[i] == '$' && cs[i + 1] == '{')
        invariant
            i <= cs@.len(),
            open_index(cs@, 0) == open_index(cs@, i as int),
        decreases cs.len() - i,
    {
        i = i + 1;
    }
    if i < cs.len() && cs.len() - i > 1 {
        i
    } else {
        cs.len()
    }
}

fn lookup_env(env: &Vec<(String, String)>, name: &str) -> (r: String)
    ensures
        r@ == env_value(env@, name@, 0),
{
    let mut i: usize = 0;
    while i < env.len()
        invariant
            i <= env@.len(),
            env_value(env@, name@, 0) == env_value(env@, name@, i as int),
        decreases env.len() - i,
    {
        if same(env[i].0.as_str(), name) {
            return env[i].1.clone();
        }
        i = i + 1;
    }
    String::new()
}

fn expand_once(s: &str, env: &Vec<(String, String)>) -> (r: Option<String>)
    ensures
        match r {
            Some(t) => expand_step(s@, env@) == Some(t@),
            None => expand_step(s@, env@) is None,
        },
{
    let cs = chars_of(s);
    let start: usize = find_open(&cs);
    if start >= cs.len() {
        return None;
    }
    let mut i: usize = start;
    while i < cs.len() && cs[i] != '}'
        invariant
            start <= i <= cs@.len(),
            forall|j: int| start <= j < i ==> cs@[j] != '}',
        decreases cs.len() - i,
    {
        i = i + 1;
    }
    proof {
        let t = cs@.skip(start as int);
        assert forall|j: int| 0 <= j < i - start implies t[j] != '}' by {
            assert(t[j] == cs@[j + start]);
        }
        lemma_index_of(t, '}', i - start);
        lemma_open_index(cs@, 0);
    }
    if i >= cs.len() {
        return None;
    }
    assert(i >= start + 2) by {
        if i == start {
            assert(cs@[start as int] == '$');
        } else if i == start + 1 {
            assert(cs@[start + 1] == '{');
        }
    }
    let name = string_of(&cs, start + 2, i);
    let value = lookup_env(env, name.as_str());
    let mut out = string_of(&cs, 0, start);
    assert(out@ =~= cs@.take(start as int));
    out.append(value.as_str());
    let tail = string_of(&cs, i + 1, cs.len());
    assert(tail@ =~= cs@.skip(i + 1));
    out.append(tail.as_str());
    Some(out)
}

/// `input` with every `${NAME}` replaced by the value of that variable; a
/// variable that is not set has the empty value. A replacement is looked
/// through again from the start, so a value may name further variables; the
/// input has to be one on which this comes to an end.
pub fn expand_env_vars(input: &str, env: &Vec<(String, String)>) -> (r: String)
    requires
        exists|n: nat| settled(input@, env@, n),
    ensures
        expand_step(r@, env@) is None,
        forall|n: nat| #[trigger] settled(input@, env@, n) ==> r@ == expand_steps(input@, env@, n),
{
    let mut cur: String = input.to_owned();
    let ghost mut left: nat = choose|n: nat| settled(input@, env@, n);
    let ghost mut done: nat = 0;
    loop
        invariant
            settled(cur@, env@, left),
            cur@ == expand_steps(input@, env@, done),
        decreases left,
    {
        match expand_once(cur.as_str(), env) {
            Some(t) => {
                proof {
                    lemma_steps_add(input@, env@, done, 1);
                    assert(expand_steps(cur@, env@, 1) == t@) by {
                        reveal_with_fuel(expand_steps, 2);
                    }
                    assert(left > 0);
                    left = (left - 1) as nat;
                    done = done + 1;
                }
                cur = t;
            },
            None => {
                proof {
                    assert forall|n: nat| #[trigger] settled(input@, env@, n) implies cur@
                        == expand_steps(input@, env@, n) by {
                        lemma_settled_agree(input@, env@, done, n);
                    }
                }
                return cur;
            },
        }
    }
}

proof fn lemma_steps_add(s: Seq<char>, env: Seq<(String, String)>, a: nat, b: nat)
    ensures
        expand_steps(s, env, a + b) == expand_steps(expand_steps(s, env, a), env, b),
    decreases a,
{
    if a > 0 {
        match expand_step(s, env) {
            Some(t) => {
                lemma_steps_add(t, env, (a - 1) as nat, b);
            },
            None => {},
        }
    }
}

proof fn lemma_settled_agree(s: Seq<char>, env: Seq<(String, String)>, a: nat, b: nat)
    requires
        settled(s, env, a),
        settled(s, env, b),
    ensures
        expand_steps(s, env, a) == expand_steps(s, env, b),
{
    if a <= b {
        lemma_steps_add(s, env, a, (b - a) as nat);
    } else {
        lemma_steps_add(s, env, b, (a - b) as nat);
    }
}

/// As [`expand_env_vars`], for any input: nothing where `limit` replacements do
/// not bring it to an end.
pub fn expand_env_vars_within(input: &str, env: &Vec<(String, String)>, limit: u64) -> (r: Option<
    String,
>)
    ensures
        match r {
            Some(t) => settled(input@, env@, limit as nat) && t@ == expand_steps(
                input@,
                env@,
                limit as nat,
            ),
            None => !settled(input@, env@, limit as nat),
        },
{
    let mut cur: String = input.to_owned();
    let mut done: u64 = 0;
    loop
        invariant
            done <= limit,
            cur@ == expand_steps(input@, env@, done as nat),
        decreases limit - done,
    {
        match expand_once(cur.as_str(), env) {
            Some(t) => {
                if done == limit {
                    return None;
                }
                proof {
                    lemma_steps_add(input@, env@, done as nat, 1);
                    assert(expand_steps(cur@, env@, 1) == t@) by {
                        reveal_with_fuel(expand_steps, 2);
                    }
                }
                cur = t;
                done = done + 1;
            },
            None => {
                proof {
                    lemma_steps_add(input@, env@, done as nat, (limit - done) as nat);
                }
                return Some(cur);
            },
        }
    }
}

/// The number of dollar signs in a text.
pub open spec fn dollars(s: Seq<char>) -> nat {
    s.filter(|c: char| c == '$').len()
}

/// Whether no variable's value holds a dollar sign.
pub open spec fn plain_values(env: Seq<(String, String)>) -> bool {
    forall|i: int| 0 <= i < env.len() ==> !(#[trigger] env[i]).1@.contains('$')
}

proof fn lemma_dollars_add(a: Seq<char>, b: Seq<char>)
    ensures
        dollars(a + b) == dollars(a) + dollars(b),
    decreases b.len(),
{
    let p = |c: char| c == '$';
    reveal(Seq::filter);
    if b.len() == 0 {
        assert(a + b =~= a);
    } else {
        lemma_dollars_add(a, b.drop_last());
        assert((a + b).drop_last() =~= a + b.drop_last());
        assert((a + b).last() == b.last());
    }
}

proof fn lemma_no_dollars(s: Seq<char>)
    requires
        !s.contains('$'),
    ensures
        dollars(s) == 0,
    decreases s.len(),
{
    reveal(Seq::filter);
    if s.len() > 0 {
        assert(s.last() != '$');
        assert forall|i: int| 0 <= i < s.drop_last().len() implies s.drop_last()[i] != '$' by {
            assert(s[i] != '$');
        }
        lemma_no_dollars(s.drop_last());
    }
}

proof fn lemma_env_value_plain(env: Seq<(String, String)>, name: Seq<char>, from: int)
    requires
        plain_values(env),
        0 <= from,
    ensures
        !env_value(env, name, from).contains('$'),
    decreases env.len() - from,
{
    if from < env.len() && env[from].0@ != name {
        lemma_env_value_plain(env, name, from + 1);
    }
}

/// Where no variable's value holds a dollar sign, expansion comes to an end: it
/// takes no more replacements than the input has dollar signs.
pub proof fn law_plain_expansion_ends(s: Seq<char>, env: Seq<(String, String)>)
    requires
        plain_values(env),
    ensures
        settled(s, env, dollars(s)),
    decreases dollars(s),
{
    match expand_step(s, env) {
        None => {
            assert(expand_steps(s, env, dollars(s)) == s);
        },
        Some(t) => {
            let start = open_index(s, 0);
            lemma_open_index(s, 0);
            lemma_index_of_bounds(s.skip(start), '}');
            let end = index_of(s.skip(start), '}');
            assert(end >= 1) by {
                assert(s.skip(start)[0] == '$');
            }
            let name = s.subrange(start + 2, start + end);
            let v = env_value(env, name, 0);
            lemma_env_value_plain(env, name, 0);
            lemma_no_dollars(v);
            let mid = s.subrange(start, start + end + 1);
            assert(s =~= s.take(start) + mid + s.skip(start + end + 1));
            lemma_dollars_add(s.take(start) + mid, s.skip(start + end + 1));
            lemma_dollars_add(s.take(start), mid);
            lemma_dollars_add(s.take(start) + v, s.skip(start + end + 1));
            lemma_dollars_add(s.take(start), v);
            assert(mid =~= seq!['$'] + mid.skip(1));
            lemma_dollars_add(seq!['$'], mid.skip(1));
            assert(dollars(seq!['$']) == 1) by {
                reveal_with_fuel(Seq::filter, 2);
                assert(seq!['$'].drop_last() =~= Seq::<char>::empty());
            }
            assert(dollars(t) < dollars(s));
            law_plain_expansion_ends(t, env);
            lemma_steps_add(t, env, dollars(t), (dollars(s) - 1 - dollars(t)) as nat);
        },
    }
}

/// The value of `egress` that the old field `cloud` stands for.
pub open spec fn egress_of_cloud(v: JsonView) -> JsonView {
    if v == JsonView::Bool(true) {
        jstr("proxied"@)
    } else {
        jstr("direct"@)
    }
}

/// A tool's entry with `cloud` turned into `egress`; an `egress` that is there
/// already stays.
pub open spec fn without_cloud(t: JsonView) -> JsonView {
    match member(t, "cloud"@) {
        None => t,
        Some(v) => {
            let rest = t.without("cloud"@);
            if member(rest, "egress"@) is Some {
                rest
            } else {
                rest.with("egress"@, egress_of_cloud(v))
            }
        },
    }
}

/// A tool's entry with `timeout_seconds` turned into
/// `timeouts.request_seconds`; one that is there already stays, and so does a
/// `timeouts` that is no mapping.
pub open spec fn without_timeout_seconds(t: JsonView) -> JsonView {
    match member(t, "timeout_seconds"@) {
        None => t,
        Some(v) => {
            let rest = t.without("timeout_seconds"@);
            match member(rest, "timeouts"@) {
                None => rest.with("timeouts"@, jempty().with("request_seconds"@, v)),
                Some(old) => if old is Object && member(old, "request_seconds"@) is None {
                    rest.set("timeouts"@, old.with("request_seconds"@, v))
                } else {
                    rest
                },
            }
        },
    }
}

/// A tool's entry without the old fields; what is no mapping stays as it is.
pub open spec fn modern_tool(t: JsonView) -> JsonView {
    if t is Object {
        without_timeout_seconds(without_cloud(t))
    } else {
        t
    }
}

/// The old fields that a tool's entry has, in the order in which they are met.
pub open spec fn old_tool_fields(t: JsonView) -> Seq<Seq<char>> {
    if t is Object {
        let a = if member(t, "cloud"@) is Some {
            seq!["tools[].cloud"@]
        } else {
            Seq::empty()
        };
        if member(without_cloud(t), "timeout_seconds"@) is Some {
            a.push("tools[].timeout_seconds"@)
        } else {
            a
        }
    } else {
        Seq::empty()
    }
}

/// The old fields that a list of tools has.
pub open spec fn old_tools_fields(v: Seq<JsonView>) -> Seq<Seq<char>>
    decreases v.len(),
{
    if v.len() == 0 {
        Seq::empty()
    } else {
        old_tools_fields(v.drop_last()) + old_tool_fields(v.last())
    }
}

/// The configuration without `telemetry`.
pub open spec fn without_telemetry(t: JsonView) -> JsonView {
    if member(t, "telemetry"@) is Some {
        t.without("telemetry"@)
    } else {
        t
    }
}

/// The configuration tree without the old fields.
pub open spec fn modern_config(t: JsonView) -> JsonView {
    if t is Object {
        let top = without_telemetry(t);
        match member(top, "tools"@) {
            Some(JsonView::Array(v)) => top.set(
                "tools"@,
                JsonView::Array(v.map_values(|e: JsonView| modern_tool(e))),
            ),
            _ => top,
        }
    } else {
        t
    }
}

/// The old fields that a configuration tree has, in the order in which they are
/// met.
pub open spec fn old_fields(t: JsonView) -> Seq<Seq<char>> {
    if t is Object {
        let a = if member(t, "telemetry"@) is Some {
            seq!["telemetry"@]
        } else {
            Seq::empty()
        };
        match member(without_telemetry(t), "tools"@) {
            Some(JsonView::Array(v)) => a + old_tools_fields(v),
            _ => a,
        }
    } else {
        Seq::empty()
    }
}

/// The fields that were met, once those of `fields` are met one after the
/// other.
pub open spec fn after_notices(
    table: Seq<DeprecationEntry>,
    warned: Set<Seq<char>>,
    fields: Seq<Seq<char>>,
) -> Set<Seq<char>>
    decreases fields.len(),
{
    if fields.len() == 0 {
        warned
    } else {
        after_notice(table, after_notices(table, warned, fields.drop_last()), fields.last())
    }
}

/// Those of `fields` that are worth a warning when they are met one after the
/// other.
pub open spec fn news_among(
    table: Seq<DeprecationEntry>,
    warned: Set<Seq<char>>,
    fields: Seq<Seq<char>>,
) -> Seq<Seq<char>>
    decreases fields.len(),
{
    if fields.len() == 0 {
        Seq::empty()
    } else {
        let before = news_among(table, warned, fields.drop_last());
        if is_news(table, after_notices(table, warned, fields.drop_last()), fields.last()) {
            before.push(fields.last())
        } else {
            before
        }
    }
}

/// The fields that a list of warnings is about.
pub open spec fn warned_fields(w: Seq<DeprecationWarning>) -> Seq<Seq<char>> {
    w.map_values(|x: DeprecationWarning| x.entry.field_path@)
}

/// The state while a configuration is brought up to date: the registry, the
/// fields that were met so far, and the warnings so far.
pub open spec fn in_step(
    reg: DeprecationRegistry,
    warnings: Seq<DeprecationWarning>,
    table: Seq<DeprecationEntry>,
    warned: Set<Seq<char>>,
    fields: Seq<Seq<char>>,
) -> bool {
    &&& reg.table() == table
    &&& reg.warned() == after_notices(table, warned, fields)
    &&& warned_fields(warnings) == news_among(table, warned, fields)
}

fn note_field(
    registry: &mut DeprecationRegistry,
    warnings: &mut Vec<DeprecationWarning>,
    field: &str,
    Ghost(table): Ghost<Seq<DeprecationEntry>>,
    Ghost(warned): Ghost<Set<Seq<char>>>,
    Ghost(fields): Ghost<Seq<Seq<char>>>,
)
    requires
        in_step(*old(registry), old(warnings)@, table, warned, fields),
    ensures
        in_step(*final(registry), final(warnings)@, table, warned, fields.push(field@)),
{
    let ghost before = warnings@;
    let w = emit_deprecation(registry, field);
    assert(fields.push(field@).drop_last() =~= fields);
    match w {
        Some(x) => {
            warnings.push(x);
            proof {
                crate::deprecation::lemma_entry_index(table, field@, 0);
                assert(warned_fields(warnings@) =~= warned_fields(before).push(field@));
            }
        },
        None => {},
    }
}

fn translate_cloud(
    tool: Json,
    registry: &mut DeprecationRegistry,
    warnings: &mut Vec<DeprecationWarning>,
    Ghost(table): Ghost<Seq<DeprecationEntry>>,
    Ghost(warned): Ghost<Set<Seq<char>>>,
    Ghost(fields): Ghost<Seq<Seq<char>>>,
) -> (r: Json)
    requires
        tool is Object,
        in_step(*old(registry), old(warnings)@, table, warned, fields),
    ensures
        r is Object,
        r@ == without_cloud(tool@),
        in_step(
            *final(registry),
            final(warnings)@,
            table,
            warned,
            if member(tool@, "cloud"@) is Some {
                fields.push("tools[].cloud"@)
            } else {
                fields
            },
        ),
{
    let proxied: bool = match tool.get("cloud") {
        Some(v) => matches!(v, Json::Bool(true)),
        None => {
            return tool;
        },
    };
    note_field(
        registry,
        warnings,
        "tools[].cloud",
        Ghost(table),
        Ghost(warned),
        Ghost(fields),
    );
    let rest = tool.without("cloud");
    if rest.get("egress").is_some() {
        return rest;
    }
    let name = if proxied {
        "proxied"
    } else {
        "direct"
    };
    rest.with("egress", Json::text(name))
}

fn translate_timeout_seconds(
    tool: Json,
    registry: &mut DeprecationRegistry,
    warnings: &mut Vec<DeprecationWarning>,
    Ghost(table): Ghost<Seq<DeprecationEntry>>,
    Ghost(warned): Ghost<Set<Seq<char>>>,
    Ghost(fields): Ghost<Seq<Seq<char>>>,
) -> (r: Json)
    requires
        tool is Object,
        in_step(*old(registry), old(warnings)@, table, warned, fields),
    ensures
        r is Object,
        r@ == without_timeout_seconds(tool@),
        in_step(
            *final(registry),
            final(warnings)@,
            table,
            warned,
            if member(tool@, "timeout_seconds"@) is Some {
                fields.push("tools[].timeout_seconds"@)
            } else {
                fields
            },
        ),
{
    let legacy = match tool.get("timeout_seconds") {
        Some(v) => v.copy(),
        None => {
            return tool;
        },
    };
    note_field(
        registry,
        warnings,
        "tools[].timeout_seconds",
        Ghost(table),
        Ghost(warned),
        Ghost(fields),
    );
    let rest = tool.without("timeout_seconds");
    let timeouts: Json = match rest.get("timeouts") {
        None => Json::object().with("request_seconds", legacy),
        Some(old) => {
            if !matches!(old, Json::Object(_)) || old.get("request_seconds").is_some() {
                return rest;
            }
            let kept = old.copy();
            proof {
                assert(kept@ is Object);
                assert(kept is Object);
            }
            let t = kept.with("request_seconds", legacy);
            return rest.set("timeouts", t);
        },
    };
    rest.with("timeouts", timeouts)
}

fn modernise_tool(
    tool: Json,
    registry: &mut DeprecationRegistry,
    warnings: &mut Vec<DeprecationWarning>,
    Ghost(table): Ghost<Seq<DeprecationEntry>>,
    Ghost(warned): Ghost<Set<Seq<char>>>,
    Ghost(fields): Ghost<Seq<Seq<char>>>,
) -> (r: Json)
    requires
        in_step(*old(registry), old(warnings)@, table, warned, fields),
    ensures
        r@ == modern_tool(tool@),
        in_step(
            *final(registry),
            final(warnings)@,
            table,
            warned,
            fields + old_tool_fields(tool@),
        ),
{
    if !matches!(tool, Json::Object(_)) {
        assert(fields + old_tool_fields(tool@) =~= fields);
        return tool;
    }
    let ghost mid = if member(tool@, "cloud"@) is Some {
        fields.push("tools[].cloud"@)
    } else {
        fields
    };
    let ghost start = tool@;
    let a = translate_cloud(tool, registry, warnings, Ghost(table), Ghost(warned), Ghost(fields));
    let b = translate_timeout_seconds(
        a,
        registry,
        warnings,
        Ghost(table),
        Ghost(warned),
        Ghost(mid),
    );
    proof {
        let end = if member(without_cloud(start), "timeout_seconds"@) is Some {
            mid.push("tools[].timeout_seconds"@)
        } else {
            mid
        };
        assert(end =~= fields + old_tool_fields(start));
    }
    b
}

/// Brings a configuration tree up to date: `telemetry` is dropped, and in each
/// tool's entry `cloud` becomes `egress` and `timeout_seconds` becomes
/// `timeouts.request_seconds`. Gives a warning for each old field that was not
/// met before.
pub fn apply_deprecations(tree: Json, registry: &mut DeprecationRegistry) -> (r: (
    Json,
    Vec<DeprecationWarning>,
))
    ensures
        r.0@ == modern_config(tree@),
        final(registry).table() == old(registry).table(),
        final(registry).warned() == after_notices(
            old(registry).table(),
            old(registry).warned(),
            old_fields(tree@),
        ),
        warned_fields(r.1@) == news_among(
            old(registry).table(),
            old(registry).warned(),
            old_fields(tree@),
        ),
{
    let ghost table = registry.table();
    let ghost warned = registry.warned();
    let ghost start = tree@;
    let mut warnings: Vec<DeprecationWarning> = Vec::new();
    assert(warned_fields(warnings@) =~= Seq::empty());
    if !matches!(tree, Json::Object(_)) {
        return (tree, warnings);
    }
    let ghost mut fields: Seq<Seq<char>> = Seq::empty();
    let mut top = tree;
    if top.get("telemetry").is_some() {
        note_field(
            registry,
            &mut warnings,
            "telemetry",
            Ghost(table),
            Ghost(warned),
            Ghost(fields),
        );
        proof {
            fields = fields.push("telemetry"@);
        }
        top = top.without("telemetry");
    }
    assert(top@ == without_telemetry(start));
    let ghost head = fields;
    let tools: Vec<Json> = match top.get("tools") {
        Some(v) => match v {
            Json::Array(items) => {
                proof {
                    lemma_array_view(*items);
                }
                let mut out: Vec<Json> = Vec::new();
                let mut i: usize = 0;
                assert(head + old_tools_fields(views(items@).take(0)) =~= head);
                while i < items.len()
                    invariant
                        i <= items@.len(),
                        out@.len() == i,
                        v@ == JsonView::Array(views(items@)),
                        fields == head + old_tools_fields(views(items@).take(i as int)),
                        in_step(*registry, warnings@, table, warned, fields),
                        forall|k: int|
                            0 <= k < i ==> (#[trigger] out@[k])@ == modern_tool(items@[k]@),
                    decreases items.len() - i,
                {
                    let ghost next = views(items@).take(i + 1);
                    assert(next.drop_last() =~= views(items@).take(i as int));
                    assert(next.last() == items@[i as int]@);
                    let t = modernise_tool(
                        items[i].copy(),
                        registry,
                        &mut warnings,
                        Ghost(table),
                        Ghost(warned),
                        Ghost(fields),
                    );
                    proof {
                        assert(fields + old_tool_fields(next.last()) =~= head + old_tools_fields(
                            next,
                        ));
                        fields = head + old_tools_fields(next);
                    }
                    out.push(t);
                    i = i + 1;
                }
                proof {
                    assert(views(items@).take(items@.len() as int) =~= views(items@));
                    assert(views(out@) =~= views(items@).map_values(|e: JsonView| modern_tool(e)));
                }
                out
            },
            _ => {
                return (top, warnings);
            },
        },
        None => {
            return (top, warnings);
        },
    };
    let r = top.set("tools", Json::array(tools));
    (r, warnings)
}

/// The tree of a configuration file: its text with the environment's values put
/// in, read as YAML, without the old fields. Fails where the expansion does not
/// end within `limit` replacements or the text is not YAML.
pub fn load_tree(
    raw: &str,
    env: &Vec<(String, String)>,
    limit: u64,
    registry: &mut DeprecationRegistry,
) -> (r: Result<(Json, Vec<DeprecationWarning>), String>)
    ensures
        final(registry).table() == old(registry).table(),
        !settled(raw@, env@, limit as nat) ==> r is Err && *final(registry) == *old(registry),
        settled(raw@, env@, limit as nat) ==> (match (
            parsed_yaml(expand_steps(raw@, env@, limit as nat)),
            r,
        ) {
            (Ok(t), Ok(p)) => p.0@ == modern_config(t) && warned_fields(p.1@) == news_among(
                old(registry).table(),
                old(registry).warned(),
                old_fields(t),
            ) && final(registry).warned() == after_notices(
                old(registry).table(),
                old(registry).warned(),
                old_fields(t),
            ),
            (Err(m), Err(e)) => e@ == m && *final(registry) == *old(registry),
            _ => false,
        }),
{
    let text = match expand_env_vars_within(raw, env, limit) {
        Some(t) => t,
        None => {
            return Err("environment expansion does not end".to_owned());
        },
    };
    match parse_yaml(text.as_str()) {
        Ok(tree) => Ok(apply_deprecations(tree, registry)),
        Err(e) => Err(e),
    }
}

proof fn lemma_field_names_differ()
    ensures
        "cloud"@.len() == 5,
        "egress"@.len() == 6,
        "timeouts"@.len() == 8,
        "timeout_seconds"@.len() == 15,
        "telemetry"@.len() == 9,
        "tools"@.len() == 5 && "tools"@[0] == 't' && "cloud"@[0] == 'c',
{
    reveal_strlit("cloud");
    reveal_strlit("egress");
    reveal_strlit("timeouts");
    reveal_strlit("timeout_seconds");
    reveal_strlit("telemetry");
    reveal_strlit("tools");
}

proof fn lemma_modern_tool(t: JsonView)
    requires
        t is Object,
    ensures
        modern_tool(t) is Object,
        member(modern_tool(t), "cloud"@) is None,
        member(modern_tool(t), "timeout_seconds"@) is None,
{
    broadcast use crate::json::lemma_member_with;

    lemma_field_names_differ();
    let a = without_cloud(t);
    crate::json::lemma_without_then_get(t, "cloud"@, "cloud"@);
    assert(member(a, "cloud"@) is None);
    let rest = a.without("timeout_seconds"@);
    crate::json::lemma_without_then_get(a, "timeout_seconds"@, "cloud"@);
    crate::json::lemma_without_then_get(a, "timeout_seconds"@, "timeout_seconds"@);
    if member(a, "timeout_seconds"@) is Some {
        let v = member(a, "timeout_seconds"@)->0;
        match member(rest, "timeouts"@) {
            Some(old) => {
                let n = old.with("request_seconds"@, v);
                crate::json::lemma_set_then_get(rest, "timeouts"@, n, "cloud"@);
                crate::json::lemma_set_then_get(rest, "timeouts"@, n, "timeout_seconds"@);
            },
            None => {},
        }
    }
}

proof fn lemma_no_old_tools_fields(v: Seq<JsonView>)
    requires
        forall|i: int| 0 <= i < v.len() ==> old_tool_fields(#[trigger] v[i]).len() == 0,
    ensures
        old_tools_fields(v) == Seq::<Seq<char>>::empty(),
    decreases v.len(),
{
    if v.len() > 0 {
        assert forall|i: int| 0 <= i < v.drop_last().len() implies old_tool_fields(
            #[trigger] v.drop_last()[i],
        ).len() == 0 by {
            assert(v.drop_last()[i] == v[i]);
        }
        lemma_no_old_tools_fields(v.drop_last());
        assert(old_tool_fields(v[v.len() - 1]).len() == 0);
        assert(old_tools_fields(v) =~= Seq::<Seq<char>>::empty());
    }
}

/// A configuration that was brought up to date has no old fields left: doing it
/// again gives no warning.
pub proof fn law_modern_config_has_no_old_fields(t: JsonView)
    ensures
        old_fields(modern_config(t)) == Seq::<Seq<char>>::empty(),
{
    lemma_field_names_differ();
    if t is Object {
        let top = without_telemetry(t);
        crate::json::lemma_without_then_get(t, "telemetry"@, "telemetry"@);
        assert(member(top, "telemetry"@) is None);
        match member(top, "tools"@) {
            Some(JsonView::Array(v)) => {
                let w = v.map_values(|e: JsonView| modern_tool(e));
                crate::json::lemma_set_then_get(top, "tools"@, JsonView::Array(w), "telemetry"@);
                crate::json::lemma_set_then_get(top, "tools"@, JsonView::Array(w), "tools"@);
                assert forall|i: int| 0 <= i < w.len() implies old_tool_fields(
                    #[trigger] w[i],
                ).len() == 0 by {
                    if v[i] is Object {
                        lemma_modern_tool(v[i]);
                        let m = modern_tool(v[i]);
                        assert(without_cloud(m) == m);
                    }
                }
                lemma_no_old_tools_fields(w);
            },
            _ => {},
        }
        assert(old_fields(modern_config(t)) =~= Seq::<Seq<char>>::empty());
    }
}

proof fn lemma_open_at(s: Seq<char>, from: int, k: int)
    requires
        0 <= from <= k,
        k + 1 < s.len(),
        s[k] == '$' && s[k + 1] == '{',
        forall|i: int| from <= i < k ==> s[i] != '$',
    ensures
        open_index(s, from) == k,
    decreases k - from,
{
    if from < k {
        assert(s[from] != '$');
        lemma_open_at(s, from + 1, k);
    }
}

proof fn lemma_nothing_open(s: Seq<char>, from: int)
    requires
        0 <= from,
        !s.contains('$'),
    ensures
        open_index(s, from) >= s.len(),
    decreases s.len() - from,
{
    if from + 1 < s.len() {
        assert(s[from] != '$');
        lemma_nothing_open(s, from + 1);
    }
}

/// The first name between `${` and `}` is replaced by its value, and what stands before and
/// after it stays.
pub proof fn law_variables_are_replaced_in_place(
    head: Seq<char>,
    name: Seq<char>,
    tail: Seq<char>,
    env: Seq<(String, String)>,
)
    requires
        !head.contains('$'),
        !name.contains('}'),
    ensures
        expand_step(head + seq!['$', '{'] + name + seq!['}'] + tail, env) == Some(
            head + env_value(env, name, 0) + tail,
        ),
{
    let s = head + seq!['$', '{'] + name + seq!['}'] + tail;
    let k = head.len() as int;
    assert forall|i: int| 0 <= i < k implies s[i] != '$' by {
        assert(s[i] == head[i]);
        assert(head.contains(head[i]));
    }
    assert(s[k] == '$' && s[k + 1] == '{');
    lemma_open_at(s, 0, k);
    let rest = s.skip(k);
    let e = name.len() + 2;
    assert forall|j: int| 0 <= j < e implies rest[j] != '}' by {
        if j >= 2 {
            assert(rest[j] == name[j - 2]);
            assert(name.contains(name[j - 2]));
        }
    }
    assert(rest[e as int] == '}');
    lemma_index_of(rest, '}', e as int);
    assert(s.subrange(k + 2, k + e) =~= name);
    assert(s.take(k) =~= head);
    assert(s.skip(k + e + 1) =~= tail);
}

/// A text without a dollar sign is left as it is.
pub proof fn law_plain_text_is_left_as_it_is(
    s: Seq<char>,
    env: Seq<(String, String)>,
    n: nat,
)
    requires
        !s.contains('$'),
    ensures
        expand_step(s, env) is None,
        expand_steps(s, env, n) == s,
        settled(s, env, n),
{
    lemma_nothing_open(s, 0);
}

/// A variable has the value of the first pair with its name, and is empty where there is
/// none.
pub proof fn law_unset_variables_are_empty(
    env: Seq<(String, String)>,
    name: Seq<char>,
    from: int,
)
    requires
        0 <= from <= env.len(),
    ensures
        (forall|k: int| from <= k < env.len() ==> (#[trigger] env[k]).0@ != name) ==> env_value(
            env,
            name,
            from,
        ).len() == 0,
        forall|k: int|
            from <= k < env.len() && (#[trigger] env[k]).0@ == name && (forall|h: int|
                from <= h < k ==> (#[trigger] env[h]).0@ != name) ==> env_value(env, name, from)
                == env[k].1@,
    decreases env.len() - from,
{
    if from < env.len() && env[from].0@ != name {
        law_unset_variables_are_empty(env, name, from + 1);
        assert forall|k: int|
            from <= k < env.len() && (#[trigger] env[k]).0@ == name && (forall|h: int|
                from <= h < k ==> (#[trigger] env[h]).0@ != name) implies env_value(
            env,
            name,
            from,
        ) == env[k].1@ by {
            assert(k > from);
        }
    } else if from < env.len() {
        assert forall|k: int|
            from <= k < env.len() && (#[trigger] env[k]).0@ == name && (forall|h: int|
                from <= h < k ==> (#[trigger] env[h]).0@ != name) implies env_value(
            env,
            name,
            from,
        ) == env[k].1@ by {
            if k > from {
                assert(env[from].0@ != name);
            }
        }
    }
}

/// A tool that says `cloud` goes out through the proxy if that is true and directly if not,
/// unless it says `egress`, which then counts; a tool that says neither says neither.
pub proof fn law_cloud_becomes_egress(t: JsonView, v: JsonView)
    requires
        t is Object,
    ensures
        ({
            let said = member(modern_tool(t), "egress"@);
            &&& member(t, "egress"@) is Some ==> said == member(t, "egress"@)
            &&& member(t, "egress"@) is None && member(t, "cloud"@) == Some(JsonView::Bool(true))
                ==> said == Some(JsonView::Str("proxied"@))
            &&& member(t, "egress"@) is None && member(t, "cloud"@) == Some(v) && v
                != JsonView::Bool(true) ==> said == Some(JsonView::Str("direct"@))
            &&& member(t, "egress"@) is None && member(t, "cloud"@) is None ==> said is None
        }),
{
    broadcast use crate::json::lemma_member_with;

    lemma_field_names_differ();
    let a = without_cloud(t);
    crate::json::lemma_without_then_get(t, "cloud"@, "egress"@);
    assert(a is Object);
    lemma_timeouts_only(a, "egress"@);
}

proof fn lemma_timeouts_only(a: JsonView, key: Seq<char>)
    requires
        a is Object,
        key != "timeouts"@,
        key != "timeout_seconds"@,
    ensures
        member(without_timeout_seconds(a), key) == member(a, key),
{
    broadcast use crate::json::lemma_member_with;

    let rest = a.without("timeout_seconds"@);
    crate::json::lemma_without_then_get(a, "timeout_seconds"@, key);
    if member(a, "timeout_seconds"@) is Some {
        let v = member(a, "timeout_seconds"@)->0;
        match member(rest, "timeouts"@) {
            Some(old) => {
                let n = old.with("request_seconds"@, v);
                crate::json::lemma_set_then_get(rest, "timeouts"@, n, key);
            },
            None => {},
        }
    }
}

/// A tool that says `timeout_seconds` has that as the seconds of a request, unless it says
/// these itself.
pub proof fn law_timeout_becomes_request_seconds(t: JsonView, v: JsonView)
    requires
        t is Object,
        member(t, "timeout_seconds"@) == Some(v),
    ensures
        ({
            let said = member(modern_tool(t), "timeouts"@);
            &&& member(t, "timeouts"@) is None ==> (said matches Some(x) && member(
                x,
                "request_seconds"@,
            ) == Some(v))
            &&& member(t, "timeouts"@) matches Some(old) ==> {
                &&& old is Object && member(old, "request_seconds"@) is None ==> (
                said matches Some(x) && member(x, "request_seconds"@) == Some(v))
                &&& !(old is Object && member(old, "request_seconds"@) is None) ==> said == Some(
                    old,
                )
            }
        }),
{
    broadcast use crate::json::lemma_member_with;

    lemma_field_names_differ();
    let a = without_cloud(t);
    crate::json::lemma_without_then_get(t, "cloud"@, "timeout_seconds"@);
    crate::json::lemma_without_then_get(t, "cloud"@, "timeouts"@);
    assert(member(a, "timeout_seconds"@) == Some(v));
    assert(member(a, "timeouts"@) == member(t, "timeouts"@));
    let rest = a.without("timeout_seconds"@);
    crate::json::lemma_without_then_get(a, "timeout_seconds"@, "timeouts"@);
    if let Some(old) = member(rest, "timeouts"@) {
        let n = old.with("request_seconds"@, v);
        crate::json::lemma_set_then_get(rest, "timeouts"@, n, "timeouts"@);
    } else {
        assert(jempty() is Object);
        assert(member(jempty(), "request_seconds"@) is None);
    }
}

/// Every other member of a tool, and every other member of the configuration, stays as it
/// is; only tools are looked into.
pub proof fn law_other_members_stay(t: JsonView, key: Seq<char>)
    requires
        t is Object,
    ensures
        key != "cloud"@ && key != "egress"@ && key != "timeouts"@ && key != "timeout_seconds"@
            ==> member(modern_tool(t), key) == member(t, key),
        key != "telemetry"@ && key != "tools"@ ==> member(modern_config(t), key) == member(t, key),
        !(member(t, "tools"@) matches Some(JsonView::Array(_))) ==> member(
            modern_config(t),
            "tools"@,
        ) == member(t, "tools"@),
        member(t, "tools"@) matches Some(JsonView::Array(v)) ==> (member(
            modern_config(t),
            "tools"@,
        ) matches Some(JsonView::Array(w)) && w.len() == v.len() && forall|i: int|
            0 <= i < v.len() ==> #[trigger] w[i] == modern_tool(v[i])),
{
    broadcast use crate::json::lemma_member_with;

    lemma_field_names_differ();
    let a = without_cloud(t);
    crate::json::lemma_without_then_get(t, "cloud"@, key);
    assert(a is Object);
    if key != "timeouts"@ && key != "timeout_seconds"@ {
        lemma_timeouts_only(a, key);
    }
    let top = without_telemetry(t);
    crate::json::lemma_without_then_get(t, "telemetry"@, key);
    crate::json::lemma_without_then_get(t, "telemetry"@, "tools"@);
    if let Some(JsonView::Array(v)) = member(top, "tools"@) {
        let w = v.map_values(|e: JsonView| modern_tool(e));
        crate::json::lemma_set_then_get(top, "tools"@, JsonView::Array(w), key);
        crate::json::lemma_set_then_get(top, "tools"@, JsonView::Array(w), "tools"@);
    }
}

/// What is old in a configuration is told: `telemetry`, and of each tool in turn `cloud` and
/// `timeout_seconds`.
pub proof fn law_old_fields_are_told(v: Seq<JsonView>, t: JsonView)
    requires
        t is Object,
    ensures
        old_tools_fields(v.push(t)) == old_tools_fields(v) + old_tool_fields(t),
        old_tool_fields(t).contains("tools[].cloud"@) <==> member(t, "cloud"@) is Some,
        old_tool_fields(t).contains("tools[].timeout_seconds"@) <==> member(
            t,
            "timeout_seconds"@,
        ) is Some,
        member(t, "telemetry"@) is Some ==> old_fields(t).contains("telemetry"@),
{
    broadcast use crate::json::lemma_member_with;

    lemma_field_names_differ();
    reveal_strlit("tools[].cloud");
    reveal_strlit("tools[].timeout_seconds");
    assert("tools[].cloud"@.len() != "tools[].timeout_seconds"@.len());
    assert(v.push(t).drop_last() =~= v);
    crate::json::lemma_without_then_get(t, "cloud"@, "timeout_seconds"@);
    assert(member(without_cloud(t), "timeout_seconds"@) == member(t, "timeout_seconds"@));
    let f = old_tool_fields(t);
    if member(t, "cloud"@) is Some {
        assert(f[0] == "tools[].cloud"@);
    }
    if member(t, "timeout_seconds"@) is Some {
        assert(f[f.len() - 1] == "tools[].timeout_seconds"@);
    }
    if member(t, "telemetry"@) is Some {
        assert(old_fields(t)[0] == "telemetry"@);
    }
}

/// A tool can be called exactly if it needs no credential or has one that is not empty, and
/// that credential is kept under the tool's name, a later tool's in place of an earlier
/// one's.
pub proof fn law_credentials_are_kept_by_tool(tools: Seq<ToolConfig>, t: ToolConfig)
    ensures
        tool_active(t) <==> (t.auth matches Some(a) ==> a.value@.len() > 0),
        tool_creds(Seq::empty()) == Map::<Seq<char>, Seq<char>>::empty(),
        t.auth is Some && t.auth->Some_0.value@.len() > 0 ==> tool_creds(tools.push(t))
            == tool_creds(tools).insert(t.name@, t.auth->Some_0.value@),
        t.auth is None || t.auth->Some_0.value@.len() == 0 ==> tool_creds(tools.push(t))
            == tool_creds(tools),
{
    assert(tools.push(t).drop_last() =~= tools);
}

/// The two ways out are written as the words by which they are read.
pub proof fn law_names_of_the_ways_out(s: Seq<char>)
    ensures
        egress_name(EgressMode::Direct) == "direct"@,
        egress_name(EgressMode::Proxied) == "proxied"@,
        egress_named(s) matches Some(e) ==> egress_name(e) == s,
        egress_named(s) is None <==> s != "direct"@ && s != "proxied"@,
{
}

/// However often the fields of a file are met, each of them that is known and was not met
/// before gives one warning, and nothing else gives any; afterwards all of them were met.
pub proof fn law_each_old_field_warns_once(
    table: Seq<DeprecationEntry>,
    warned: Set<Seq<char>>,
    fields: Seq<Seq<char>>,
    f: Seq<char>,
)
    ensures
        news_among(table, warned, fields).contains(f) <==> fields.contains(f)
            && crate::deprecation::known(table, f) && !warned.contains(f),
        news_among(table, warned, fields).no_duplicates(),
        after_notices(table, warned, fields).contains(f) <==> warned.contains(f) || (
        fields.contains(f) && crate::deprecation::known(table, f)),
    decreases fields.len(),
{
    if fields.len() > 0 {
        let front = fields.drop_last();
        let x = fields.last();
        law_each_old_field_warns_once(table, warned, front, f);
        law_each_old_field_warns_once(table, warned, front, x);
        let had = news_among(table, warned, front);
        assert(fields[fields.len() - 1] == x);
        assert forall|y: Seq<char>| fields.contains(y) <==> front.contains(y) || y == x by {
            if front.contains(y) {
                let i = choose|i: int| 0 <= i < front.len() && front[i] == y;
                assert(fields[i] == y);
            }
            if fields.contains(y) && y != x {
                let i = choose|i: int| 0 <= i < fields.len() && fields[i] == y;
                assert(front[i] == y);
            }
        }
        if is_news(table, after_notices(table, warned, front), x) {
            let now = had.push(x);
            assert(now[had.len() as int] == x);
            if had.contains(f) {
                let i = choose|i: int| 0 <= i < had.len() && had[i] == f;
                assert(now[i] == f);
            }
            if now.contains(f) && f != x {
                let i = choose|i: int| 0 <= i < now.len() && now[i] == f;
                assert(had[i] == f);
            }
            assert(!had.contains(x));
            assert forall|i: int, j: int|
                0 <= i < now.len() && 0 <= j < now.len() && i != j implies now[i] != now[j] by {
                if i == had.len() {
                    assert(had.contains(had[j]));
                } else if j == had.len() {
                    assert(had.contains(had[i]));
                }
            }
        }
    }
}

} // verus!
