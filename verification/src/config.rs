//! Configuration: the sections of `config.toml` with their defaults, the
//! proxy decision per feature, and what loading does with the `.env` file
//! and the older settings.
//!
//! Reading and writing the files is done by the caller; maps of the file
//! are held here as lists of (name, value) pairs with unique names.

use vstd::prelude::*;
use vstd::string::{StrSliceExecFns};
use crate::text::{
    eq_str, free_of, from_chars, has_suffix, index_of_char, join_spec, lacks_from, lemma_lacks_from, lemma_trim_unpadded,
    lines, lines_spec, lowercase, position_of, slice_to_vec, split_spec, to_chars, to_lowercase, trim, trim_spec,
    unpadded,
};

verus! {

// ---------------------------------------------------------------------------
// Proxy
// ---------------------------------------------------------------------------

/// Proxy mode.
#[derive(Debug, Clone, Copy, PartialEq, Eq, Structural)]
pub enum ProxyMode {
    /// Every request goes through the proxy.
    All,
    /// No request does.
    Off,
    /// Each feature's rule decides.
    Auto,
}

impl Default for ProxyMode {
    /// Per-feature rules.
    fn default() -> (m: ProxyMode)
        ensures
            m == ProxyMode::Auto,
    {
        ProxyMode::Auto
    }
}

/// Network proxy.
#[derive(Debug, Clone)]
pub struct ProxyConfig {
    /// Mode.
    pub mode: ProxyMode,
    /// Proxy URL.
    pub url: Option<String>,
    /// Hosts that never use the proxy.
    pub no_proxy: Vec<String>,
    /// Per-feature switches (used in `auto` mode), by feature name; no
    /// feature occurs twice (`rules_distinct`).
    pub rules: Vec<(String, bool)>,
}

/// No feature has two switches in `rules`.
pub open spec fn rules_distinct(rules: Seq<(String, bool)>) -> bool {
    forall|i: int, j: int| 0 <= i < j < rules.len() ==> (#[trigger] rules[i]).0@ != (#[trigger] rules[j]).0@
}

impl ProxyConfig {
    /// The switches name each feature at most once, as a map holds its keys.
    pub open spec fn well_formed(&self) -> bool {
        rules_distinct(self.rules@)
    }
}

/// The switch of `feature` in `rules`: the first entry for it, off when
/// there is none.
pub open spec fn rule_of(rules: Seq<(String, bool)>, feature: Seq<char>) -> bool
    decreases rules.len(),
{
    if rules.len() == 0 {
        false
    } else if rules[0].0@ == feature {
        rules[0].1
    } else {
        rule_of(rules.drop_first(), feature)
    }
}

/// Whether requests of `feature` go through the proxy under `c`.
pub open spec fn need_proxy_spec(c: ProxyConfig, feature: Seq<char>) -> bool {
    match c.mode {
        ProxyMode::All => c.url is Some,
        ProxyMode::Off => false,
        ProxyMode::Auto => rule_of(c.rules@, feature) && c.url is Some,
    }
}

impl ProxyConfig {
    /// Whether requests of `feature` go through the proxy: always in `all`
    /// mode, never in `off` mode, by its rule in `auto` mode; and only when
    /// a proxy URL is set.
    pub fn need_proxy(&self, feature: &str) -> (r: bool)
        ensures
            r == need_proxy_spec(*self, feature@),
    {
        match self.mode {
            ProxyMode::All => self.url.is_some(),
            ProxyMode::Off => false,
            ProxyMode::Auto => {
                let mut i: usize = 0;
                let mut on = false;
                let mut found = false;
                assert(self.rules@.skip(0) =~= self.rules@);
                while i < self.rules.len() && !found
                    invariant
                        i <= self.rules@.len(),
                        found ==> on == rule_of(self.rules@, feature@),
                        !found ==> rule_of(self.rules@, feature@) == rule_of(self.rules@.skip(i as int), feature@),
                        !found ==> !on,
                    decreases self.rules@.len() - i + (if found { 0int } else { 1int }),
                {
                    assert(self.rules@.skip(i as int)[0] == self.rules@[i as int]);
                    let n = to_chars(self.rules[i].0.as_str());
                    if eq_str(n.as_slice(), feature) {
                        on = self.rules[i].1;
                        found = true;
                    } else {
                        assert(self.rules@.skip(i as int).drop_first() =~= self.rules@.skip(i + 1));
                        i = i + 1;
                    }
                }
                if !found {
                    assert(self.rules@.skip(i as int) =~= Seq::<(String, bool)>::empty());
                }
                on && self.url.is_some()
            },
        }
    }
}

impl Default for ProxyConfig {
    /// `auto` mode without a URL, exclusions or rules.
    fn default() -> (c: ProxyConfig)
        ensures
            c.mode == ProxyMode::Auto,
            c.url is None,
            c.no_proxy@.len() == 0,
            c.rules@.len() == 0,
            c.well_formed(),
    {
        ProxyConfig { mode: ProxyMode::Auto, url: None, no_proxy: Vec::new(), rules: Vec::new() }
    }
}

// ---------------------------------------------------------------------------
// Sections
// ---------------------------------------------------------------------------

/// One scheduled task.
#[derive(Debug, Clone)]
pub struct ScheduledTaskConfig {
    /// Name, for the log.
    pub name: String,
    /// Cron expression "minute hour day month weekday".
    pub cron: String,
    /// Prompt given to the agent.
    pub prompt: String,
    /// Where the result goes, "channel:chat_id" (empty: log only).
    pub target: String,
    /// Enabled.
    pub enabled: bool,
}

/// One MCP server.
#[derive(Debug, Clone)]
pub struct McpServerConfig {
    /// Command of a stdio server.
    pub command: Option<String>,
    /// Its arguments.
    pub args: Vec<String>,
    /// Its environment, by variable.
    pub env: Vec<(String, String)>,
    /// URL of a remote server.
    pub url: Option<String>,
    /// Message URL in direct mode.
    pub message_url: Option<String>,
    /// HTTP headers, by name.
    pub headers: Vec<(String, String)>,
    /// Server type: stdio, sse or http.
    pub server_type: String,
    /// Whether its tools may run in parallel.
    pub parallel_safe: bool,
    /// Per-tool override of `parallel_safe`, by tool.
    pub tool_parallel_safe: Vec<(String, bool)>,
}

/// Message channels.
#[derive(Debug, Clone)]
pub struct ChannelsConfig {
    /// Enterprise WeChat.
    pub wecom: WeComConfig,
    /// Personal WeChat.
    pub wechat: WeChatConfig,
    /// Telegram.
    pub telegram: TelegramConfig,
}

impl Default for ChannelsConfig {
    /// Each channel with its defaults.
    fn default() -> (c: ChannelsConfig)
        ensures
            !c.wecom.enabled,
            c.wecom.poll_interval_secs == 5,
            !c.wechat.enabled,
            c.wechat.poll_interval_secs == 2,
            !c.telegram.enabled,
            c.telegram.poll_timeout_secs == 30,
    {
        ChannelsConfig {
            wecom: WeComConfig::default(),
            wechat: WeChatConfig::default(),
            telegram: TelegramConfig::default(),
        }
    }
}

/// Enterprise WeChat bot channel.
#[derive(Debug, Clone)]
pub struct WeComConfig {
    /// Enabled.
    pub enabled: bool,
    /// Webhook URL for sending.
    pub webhook_url: String,
    /// Corporation id for receiving.
    pub corp_id: String,
    /// Application agent id for receiving.
    pub agent_id: String,
    /// Application secret (read from `.env` only).
    pub secret: String,
    /// Webhook keyword.
    pub webhook_key: String,
    /// Senders allowed (empty: all).
    pub allow_from: Vec<String>,
    /// Polling interval in seconds.
    pub poll_interval_secs: u64,
}

impl Default for WeComConfig {
    /// The built-in defaults.
    fn default() -> (c: WeComConfig)
        ensures
            !c.enabled,
            c.webhook_url@.len() == 0,
            c.corp_id@.len() == 0,
            c.agent_id@.len() == 0,
            c.secret@.len() == 0,
            c.webhook_key@.len() == 0,
            c.allow_from@.len() == 0,
            c.poll_interval_secs == 5,
    {
        WeComConfig {
            enabled: false,
            webhook_url: String::new(),
            corp_id: String::new(),
            agent_id: String::new(),
            secret: String::new(),
            webhook_key: String::new(),
            allow_from: Vec::new(),
            poll_interval_secs: 5,
        }
    }
}

/// Personal WeChat (iLink bot) channel.
#[derive(Debug, Clone)]
pub struct WeChatConfig {
    /// Enabled.
    pub enabled: bool,
    /// Login token, obtained by scanning a QR code.
    pub bot_token: String,
    /// Proxy address.
    pub proxy: Option<String>,
    /// Polling interval in seconds.
    pub poll_interval_secs: u64,
    /// Where a refreshed token is saved.
    pub token_path: String,
}

impl Default for WeChatConfig {
    /// The built-in defaults.
    fn default() -> (c: WeChatConfig)
        ensures
            !c.enabled,
            c.bot_token@.len() == 0,
            c.proxy is None,
            c.poll_interval_secs == 2,
            c.token_path@.len() == 0,
    {
        WeChatConfig {
            enabled: false,
            bot_token: String::new(),
            proxy: None,
            poll_interval_secs: 2,
            token_path: String::new(),
        }
    }
}

/// Telegram bot channel.
#[derive(Debug, Clone)]
pub struct TelegramConfig {
    /// Enabled.
    pub enabled: bool,
    /// Bot token (from `.env` first).
    pub bot_token: String,
    /// Chats allowed (empty: all).
    pub allowed_chats: Vec<String>,
    /// Long-polling timeout in seconds.
    pub poll_timeout_secs: u32,
}

impl Default for TelegramConfig {
    /// The built-in defaults.
    fn default() -> (c: TelegramConfig)
        ensures
            !c.enabled,
            c.bot_token@.len() == 0,
            c.allowed_chats@.len() == 0,
            c.poll_timeout_secs == 30,
    {
        TelegramConfig {
            enabled: false,
            bot_token: String::new(),
            allowed_chats: Vec::new(),
            poll_timeout_secs: 30,
        }
    }
}

/// Gateway daemon.
#[derive(Debug, Clone)]
pub struct GatewayConfig {
    /// Enabled.
    pub enabled: bool,
    /// PID file.
    pub pid_file: String,
    /// Log file.
    pub log_file: String,
    /// Channels started with the gateway.
    pub channels: Vec<String>,
}

impl Default for GatewayConfig {
    /// The built-in defaults.
    fn default() -> (c: GatewayConfig)
        ensures
            !c.enabled,
            c.pid_file@ == "home/gateway.pid"@,
            c.log_file@ == "home/gateway.log"@,
            c.channels@.len() == 1,
            c.channels@[0]@ == "wechat"@,
    {
        GatewayConfig {
            enabled: false,
            pid_file: "home/gateway.pid".to_string(),
            log_file: "home/gateway.log".to_string(),
            channels: {
                let mut v: Vec<String> = Vec::new();
                v.push("wechat".to_string());
                v
            },
        }
    }
}

/// Scheduled tasks.
#[derive(Debug, Clone)]
pub struct SchedulerConfig {
    /// Enabled.
    pub enabled: bool,
    /// Tasks run at once at most.
    pub max_concurrent_tasks: usize,
    /// The tasks.
    pub tasks: Vec<ScheduledTaskConfig>,
}

impl Default for SchedulerConfig {
    /// The built-in defaults.
    fn default() -> (c: SchedulerConfig)
        ensures
            !c.enabled,
            c.max_concurrent_tasks == 5,
            c.tasks@.len() == 0,
    {
        SchedulerConfig {
            enabled: false,
            max_concurrent_tasks: 5,
            tasks: Vec::new(),
        }
    }
}

/// WASM plugins.
#[derive(Debug, Clone)]
pub struct WasmPluginConfig {
    /// Enabled.
    pub enabled: bool,
    /// Plugin directory.
    pub plugins_dir: String,
    /// Time limit of one plugin run in milliseconds.
    pub timeout_ms: u64,
    /// Memory limit in bytes (32 MiB).
    pub max_memory: u64,
}

impl Default for WasmPluginConfig {
    /// The built-in defaults.
    fn default() -> (c: WasmPluginConfig)
        ensures
            !c.enabled,
            c.plugins_dir@ == "plugins"@,
            c.timeout_ms == 30000,
            c.max_memory == 33554432,
    {
        WasmPluginConfig {
            enabled: false,
            plugins_dir: "plugins".to_string(),
            timeout_ms: 30000,
            max_memory: 33554432,
        }
    }
}

/// MCP client.
#[derive(Debug, Clone)]
pub struct McpConfig {
    /// Enabled.
    pub enabled: bool,
    /// Servers by name.
    pub servers: Vec<(String, McpServerConfig)>,
    /// Whether servers may sample through the agent.
    pub sampling_enabled: bool,
    /// Token limit of a sampling request.
    pub sampling_max_tokens: u32,
}

impl Default for McpConfig {
    /// The built-in defaults.
    fn default() -> (c: McpConfig)
        ensures
            !c.enabled,
            c.servers@.len() == 0,
            !c.sampling_enabled,
            c.sampling_max_tokens == 1024,
    {
        McpConfig {
            enabled: false,
            servers: Vec::new(),
            sampling_enabled: false,
            sampling_max_tokens: 1024,
        }
    }
}

/// Web search.
#[derive(Debug, Clone)]
pub struct SearchConfig {
    /// Serper API key (from `.env` only).
    pub serper_api_key: String,
    /// Time limit in seconds.
    pub timeout_secs: u64,
    /// Cached results.
    pub cache_size: usize,
    /// Cache lifetime in seconds.
    pub cache_ttl_secs: u64,
    /// HTTP proxy.
    pub proxy: Option<String>,
}

impl Default for SearchConfig {
    /// The built-in defaults.
    fn default() -> (c: SearchConfig)
        ensures
            c.serper_api_key@.len() == 0,
            c.timeout_secs == 15,
            c.cache_size == 100,
            c.cache_ttl_secs == 600,
            c.proxy is None,
    {
        SearchConfig {
            serper_api_key: String::new(),
            timeout_secs: 15,
            cache_size: 100,
            cache_ttl_secs: 600,
            proxy: None,
        }
    }
}

/// Provider pool circuit breaker.
#[derive(Debug, Clone)]
pub struct ProviderPoolConfig {
    /// Consecutive failures that open the breaker.
    pub circuit_breaker_threshold: u32,
    /// Cool-down in seconds.
    pub circuit_breaker_cooldown_secs: u64,
}

impl Default for ProviderPoolConfig {
    /// The built-in defaults.
    fn default() -> (c: ProviderPoolConfig)
        ensures
            c.circuit_breaker_threshold == 3,
            c.circuit_breaker_cooldown_secs == 30,
    {
        ProviderPoolConfig {
            circuit_breaker_threshold: 3,
            circuit_breaker_cooldown_secs: 30,
        }
    }
}

/// One model provider.
#[derive(Debug, Clone)]
pub struct ProviderConfig {
    /// API key (from `.env` only).
    pub api_key: String,
    /// Base URL (default by provider name).
    pub base_url: Option<String>,
    /// Model name.
    pub model: Option<String>,
    /// API protocol: openai, anthropic, gemini or ollama.
    pub api_type: String,
}

impl Default for ProviderConfig {
    /// The built-in defaults.
    fn default() -> (c: ProviderConfig)
        ensures
            c.api_key@.len() == 0,
            c.base_url is None,
            c.model is None,
            c.api_type@ == "openai"@,
    {
        ProviderConfig {
            api_key: String::new(),
            base_url: None,
            model: None,
            api_type: "openai".to_string(),
        }
    }
}

/// API settings (the `deepseek` provider, kept for compatibility).
#[derive(Debug, Clone)]
pub struct ApiConfig {
    /// Model name.
    pub model: String,
    /// Base URL.
    pub base_url: String,
}

impl Default for ApiConfig {
    /// The built-in defaults.
    fn default() -> (c: ApiConfig)
        ensures
            c.model@ == "deepseek-v4-flash"@,
            c.base_url@ == "https://api.deepseek.com"@,
    {
        ApiConfig {
            model: "deepseek-v4-flash".to_string(),
            base_url: "https://api.deepseek.com".to_string(),
        }
    }
}

/// Requests.
#[derive(Debug, Clone)]
pub struct RequestConfig {
    /// Time limit in seconds.
    pub timeout_secs: u64,
    /// Retries at most.
    pub max_retries: u32,
}

impl Default for RequestConfig {
    /// The built-in defaults.
    fn default() -> (c: RequestConfig)
        ensures
            c.timeout_secs == 60,
            c.max_retries == 3,
    {
        RequestConfig {
            timeout_secs: 60,
            max_retries: 3,
        }
    }
}

/// Memory and notes.
#[derive(Debug, Clone)]
pub struct MemoryConfig {
    /// Characters of `MEMORY.md` at most.
    pub max_memory_md_chars: usize,
    /// Characters of `USER.md` at most.
    pub max_user_md_chars: usize,
    /// Whether `USER.md` is kept.
    pub user_profile_enabled: bool,
}

impl Default for MemoryConfig {
    /// The built-in defaults.
    fn default() -> (c: MemoryConfig)
        ensures
            c.max_memory_md_chars == 2200,
            c.max_user_md_chars == 1375,
            c.user_profile_enabled,
    {
        MemoryConfig {
            max_memory_md_chars: 2200,
            max_user_md_chars: 1375,
            user_profile_enabled: true,
        }
    }
}

/// Debug tracing.
#[derive(Debug, Clone)]
pub struct DebugConfig {
    /// Enabled.
    pub enabled: bool,
    /// Entries of the ring buffer.
    pub buffer_size: usize,
}

impl Default for DebugConfig {
    /// The built-in defaults.
    fn default() -> (c: DebugConfig)
        ensures
            !c.enabled,
            c.buffer_size == 500,
    {
        DebugConfig {
            enabled: false,
            buffer_size: 500,
        }
    }
}

/// Display and truncation.
#[derive(Debug, Clone)]
pub struct DisplayConfig {
    /// Characters of a tool result at most.
    pub tool_result_max_chars: usize,
    /// Characters of a PDF preview at most.
    pub read_pdf_max_chars: usize,
}

impl Default for DisplayConfig {
    /// The built-in defaults.
    fn default() -> (c: DisplayConfig)
        ensures
            c.tool_result_max_chars == 15000,
            c.read_pdf_max_chars == 30000,
    {
        DisplayConfig {
            tool_result_max_chars: 15000,
            read_pdf_max_chars: 30000,
        }
    }
}


/// The agent settings other than the compression ratio.
#[derive(Debug, Clone)]
pub struct AgentDefaults {
    /// Most rounds of one agent loop.
    pub max_rounds: u32,
    /// Tool calls between automatic skill refinements (0: never).
    pub creation_nudge_interval: u32,
    /// Rounds between automatic memory refinements (0: never).
    pub memory_nudge_interval: u32,
    /// The default provider (empty: inferred from the model).
    pub default_provider: String,
    /// The workspace that file tools are limited to (empty: none).
    pub workspace: String,
    /// Command prefixes allowed without asking (empty: all).
    pub command_allowed_prefixes: Vec<String>,
    /// Whether other commands need confirmation.
    pub command_require_confirm: bool,
}

impl Default for AgentDefaults {
    /// The built-in defaults.
    fn default() -> (c: AgentDefaults)
        ensures
            c.max_rounds == 50,
            c.creation_nudge_interval == 15,
            c.memory_nudge_interval == 10,
            c.default_provider@.len() == 0,
            c.workspace@.len() == 0,
            c.command_allowed_prefixes@.len() == 0,
            c.command_require_confirm,
    {
        AgentDefaults {
            max_rounds: 50,
            creation_nudge_interval: 15,
            memory_nudge_interval: 10,
            default_provider: String::new(),
            workspace: String::new(),
            command_allowed_prefixes: Vec::new(),
            command_require_confirm: true,
        }
    }
}

// ---------------------------------------------------------------------------
// Providers as (name, provider) pairs
// ---------------------------------------------------------------------------

/// A provider as text: API key, base URL, model, API type.
pub type ProviderText = (Seq<char>, Option<Seq<char>>, Option<Seq<char>>, Seq<char>);

/// The text of an optional string.
pub open spec fn opt_text(o: Option<String>) -> Option<Seq<char>> {
    match o {
        Some(s) => Some(s@),
        None => None,
    }
}

/// The text of provider `p`.
pub open spec fn provider_text(p: ProviderConfig) -> ProviderText {
    (p.api_key@, opt_text(p.base_url), opt_text(p.model), p.api_type@)
}

/// The text of the named providers `ps`.
pub open spec fn providers_text(ps: Seq<(String, ProviderConfig)>) -> Seq<(Seq<char>, ProviderText)> {
    ps.map_values(|e: (String, ProviderConfig)| (e.0@, provider_text(e.1)))
}

/// A default provider with API key `key`.
pub open spec fn keyed_default(key: Seq<char>) -> ProviderText {
    (key, None, None, "openai"@)
}

/// Index of the first provider named `name`.
pub open spec fn provider_index(ps: Seq<(Seq<char>, ProviderText)>, name: Seq<char>) -> Option<int> {
    if exists|i: int| 0 <= i < ps.len() && (#[trigger] ps[i]).0 == name
        && forall|j: int| 0 <= j < i ==> (#[trigger] ps[j]).0 != name {
        Some(choose|i: int| 0 <= i < ps.len() && (#[trigger] ps[i]).0 == name
            && forall|j: int| 0 <= j < i ==> (#[trigger] ps[j]).0 != name)
    } else {
        None
    }
}

/// `ps` with the API key of provider `name` set to `key`, adding a default
/// provider of that name when there is none.
pub open spec fn set_provider_key(ps: Seq<(Seq<char>, ProviderText)>, name: Seq<char>, key: Seq<char>) -> Seq<(Seq<char>, ProviderText)> {
    match provider_index(ps, name) {
        Some(i) => ps.update(i, (name, (key, ps[i].1.1, ps[i].1.2, ps[i].1.3))),
        None => ps.push((name, keyed_default(key))),
    }
}

/// `ps` with the API key of provider `name` set to `key` when it has none,
/// adding a default provider of that name when there is none.
pub open spec fn fill_provider_key(ps: Seq<(Seq<char>, ProviderText)>, name: Seq<char>, key: Seq<char>) -> Seq<(Seq<char>, ProviderText)> {
    match provider_index(ps, name) {
        Some(i) => if ps[i].1.0.len() == 0 { ps.update(i, (name, (key, ps[i].1.1, ps[i].1.2, ps[i].1.3))) } else { ps },
        None => ps.push((name, keyed_default(key))),
    }
}

/// No two providers of `ps` share a name.
pub open spec fn distinct_names(ps: Seq<(Seq<char>, ProviderText)>) -> bool {
    forall|i: int, j: int| 0 <= i < j < ps.len() ==> (#[trigger] ps[i]).0 != (#[trigger] ps[j]).0
}

/// A provider named `name` at `k` means there is a first one.
proof fn lemma_provider_index_found(ps: Seq<(Seq<char>, ProviderText)>, name: Seq<char>, k: int)
    requires
        0 <= k < ps.len(),
        ps[k].0 == name,
    ensures
        provider_index(ps, name) is Some,
    decreases k,
{
    if exists|j: int| 0 <= j < k && (#[trigger] ps[j]).0 == name {
        let j = choose|j: int| 0 <= j < k && (#[trigger] ps[j]).0 == name;
        lemma_provider_index_found(ps, name, j);
    } else {
        assert(forall|j: int| 0 <= j < k ==> (#[trigger] ps[j]).0 != name);
    }
}

/// Setting or filling the key of provider `name` keeps names distinct.
proof fn lemma_key_update_keeps_distinct(ps: Seq<(Seq<char>, ProviderText)>, name: Seq<char>, key: Seq<char>)
    requires
        distinct_names(ps),
    ensures
        distinct_names(set_provider_key(ps, name, key)),
        distinct_names(fill_provider_key(ps, name, key)),
{
    match provider_index(ps, name) {
        Some(i) => {
            let q = ps.update(i, (name, (key, ps[i].1.1, ps[i].1.2, ps[i].1.3)));
            assert(forall|k: int| 0 <= k < ps.len() ==> (#[trigger] q[k]).0 == ps[k].0);
        },
        None => {
            let q = ps.push((name, keyed_default(key)));
            assert forall|i: int, j: int| 0 <= i < j < q.len() implies (#[trigger] q[i]).0 != (#[trigger] q[j]).0 by {
                if j == ps.len() && q[i].0 == name {
                    lemma_provider_index_found(ps, name, i);
                }
            }
        },
    }
}

/// Loading the `.env` lines `ls` over providers with distinct names leaves
/// their names distinct: a key for a known provider updates it, one for an
/// unknown provider adds it once.
pub proof fn lemma_env_keeps_names_distinct(st: EnvState, ls: Seq<Seq<char>>)
    requires
        distinct_names(st.1),
    ensures
        distinct_names(env_fold(st, ls).1),
    decreases ls.len(),
{
    if ls.len() > 0 {
        lemma_env_keeps_names_distinct(st, ls.drop_last());
        let p = env_fold(st, ls.drop_last());
        let l = trim_spec(ls.last());
        if l.len() > 0 && l[0] != '#' {
            match index_of_char(l, '=') {
                None => {},
                Some(q) => {
                    let key = trim_spec(l.take(q));
                    let value = trim_spec(l.skip(q + 1));
                    lemma_key_update_keeps_distinct(p.1, "deepseek"@, value);
                    if key.len() > "_API_KEY"@.len() {
                        lemma_key_update_keeps_distinct(p.1, lowercase(key.take(key.len() - "_API_KEY"@.len())), value);
                    }
                },
            }
        }
    }
}

/// Index of the first provider named `name`.
pub(crate) fn find_provider(ps: &Vec<(String, ProviderConfig)>, name: &[char]) -> (r: Option<usize>)
    ensures
        match r {
            Some(i) => provider_index(providers_text(ps@), name@) == Some(i as int) && i < ps@.len(),
            None => provider_index(providers_text(ps@), name@) is None,
        },
{
    let ghost t = providers_text(ps@);
    let mut i: usize = 0;
    while i < ps.len()
        invariant
            i <= ps@.len(),
            t == providers_text(ps@),
            forall|j: int| 0 <= j < i ==> (#[trigger] t[j]).0 != name@,
        decreases ps@.len() - i,
    {
        let n = to_chars(ps[i].0.as_str());
        if crate::text::chars_eq(n.as_slice(), name) {
            proof {
                assert(t[i as int].0 == name@);
                let k = choose|k: int| 0 <= k < t.len() && (#[trigger] t[k]).0 == name@
                    && forall|j: int| 0 <= j < k ==> (#[trigger] t[j]).0 != name@;
                if k < i {
                    assert(t[k].0 != name@);
                } else if k > i {
                    assert(t[i as int].0 != name@);
                }
            }
            return Some(i);
        }
        i = i + 1;
    }
    None
}

/// Sets the API key of provider `name` to `key`, adding a default provider
/// of that name when there is none; when `only_empty`, only a provider
/// without a key gets it.
fn put_provider_key(ps: &mut Vec<(String, ProviderConfig)>, name: &[char], key: &String, only_empty: bool)
    ensures
        providers_text(final(ps)@) == if only_empty {
            fill_provider_key(providers_text(old(ps)@), name@, key@)
        } else {
            set_provider_key(providers_text(old(ps)@), name@, key@)
        },
{
    let ghost t = providers_text(ps@);
    match find_provider(ps, name) {
        Some(i) => {
            if !only_empty || ps[i].1.api_key.as_str().unicode_len() == 0 {
                let entry = &mut ps[i];
                entry.1.api_key = key.clone();
                assert(entry.0@ == name@);
                assert(providers_text(ps@) =~= t.update(i as int, (name@, (key@, t[i as int].1.1, t[i as int].1.2, t[i as int].1.3))));
            }
        },
        None => {
            let mut p = ProviderConfig::default();
            p.api_key = key.clone();
            ps.push((from_chars(name), p));
            assert(providers_text(ps@) =~= t.push((name@, keyed_default(key@))));
        },
    }
}

// ---------------------------------------------------------------------------
// The .env file
// ---------------------------------------------------------------------------

/// What loading reads from `.env`: the DeepSeek key, the providers, the
/// Serper key, the search proxy and the Telegram bot token.
pub type EnvState = (Seq<char>, Seq<(Seq<char>, ProviderText)>, Seq<char>, Option<Seq<char>>, Seq<char>);

/// The state after the `.env` line `line`: `KEY=value` lines (both sides
/// trimmed) set the DeepSeek key (and fill it into the `deepseek`
/// provider), a `{NAME}_API_KEY` sets provider `name`'s key, and the Serper
/// key, search proxy and Telegram token are taken by their names; blank
/// lines, comments and lines without `=` change nothing.
pub open spec fn env_line(st: EnvState, line: Seq<char>) -> EnvState {
    let l = trim_spec(line);
    if l.len() == 0 || l[0] == '#' {
        st
    } else {
        match index_of_char(l, '=') {
            None => st,
            Some(p) => {
                let key = trim_spec(l.take(p));
                let value = trim_spec(l.skip(p + 1));
                if key == "DEEPSEEK_API_KEY"@ {
                    (value, fill_provider_key(st.1, "deepseek"@, value), st.2, st.3, st.4)
                } else {
                    let ps = if has_suffix(key, "_API_KEY"@) && key.len() > "_API_KEY"@.len() {
                        set_provider_key(st.1, lowercase(key.take(key.len() - "_API_KEY"@.len())), value)
                    } else {
                        st.1
                    };
                    (
                        st.0,
                        ps,
                        if key == "SERPER_API_KEY"@ { value } else { st.2 },
                        if key == "SEARCH_PROXY"@ { Some(value) } else { st.3 },
                        if key == "TELEGRAM_BOT_TOKEN"@ { value } else { st.4 },
                    )
                }
            },
        }
    }
}

/// The state after the lines `ls` of `.env`.
pub open spec fn env_fold(st: EnvState, ls: Seq<Seq<char>>) -> EnvState
    decreases ls.len(),
{
    if ls.len() == 0 {
        st
    } else {
        env_line(env_fold(st, ls.drop_last()), ls.last())
    }
}

/// The loading state of the given settings.
pub open spec fn env_state(api_key: String, ps: Seq<(String, ProviderConfig)>, search: SearchConfig, telegram: TelegramConfig) -> EnvState {
    (api_key@, providers_text(ps), search.serper_api_key@, opt_text(search.proxy), telegram.bot_token@)
}

/// Applies one `.env` line.
fn apply_env_line(
    line: &[char],
    api_key: &mut String,
    providers: &mut Vec<(String, ProviderConfig)>,
    search: &mut SearchConfig,
    telegram: &mut TelegramConfig,
)
    ensures
        env_state(*final(api_key), final(providers)@, *final(search), *final(telegram))
            == env_line(env_state(*old(api_key), old(providers)@, *old(search), *old(telegram)), line@),
        final(search).timeout_secs == old(search).timeout_secs,
        final(search).cache_size == old(search).cache_size,
        final(search).cache_ttl_secs == old(search).cache_ttl_secs,
        final(telegram).enabled == old(telegram).enabled,
        final(telegram).allowed_chats == old(telegram).allowed_chats,
        final(telegram).poll_timeout_secs == old(telegram).poll_timeout_secs,
{
    let l = trim(line);
    if l.len() == 0 || l[0] == '#' {
        return;
    }
    let p = match position_of(l.as_slice(), '=') {
        Some(p) => p,
        None => {
            return;
        },
    };
    let n = l.len();
    assert(p < n);
    let k0 = slice_to_vec(l.as_slice(), 0, p);
    let key = trim(k0.as_slice());
    let v0 = slice_to_vec(l.as_slice(), p + 1, n);
    let value_c = trim(v0.as_slice());
    assert(k0@ =~= l@.take(p as int));
    assert(v0@ =~= l@.skip(p + 1));
    let value = from_chars(value_c.as_slice());
    if eq_str(key.as_slice(), "DEEPSEEK_API_KEY") {
        *api_key = value.clone();
        let ds = to_chars("deepseek");
        put_provider_key(providers, ds.as_slice(), &value, true);
        return;
    }
    let sfx = to_chars("_API_KEY");
    if crate::text::ends_with(key.as_slice(), sfx.as_slice()) && key.len() > sfx.len() {
        let rest = slice_to_vec(key.as_slice(), 0, key.len() - sfx.len());
        let rest_s = from_chars(rest.as_slice());
        let low = to_lowercase(rest_s.as_str());
        let low_c = to_chars(low.as_str());
        assert(rest@ =~= key@.take(key@.len() - "_API_KEY"@.len()));
        put_provider_key(providers, low_c.as_slice(), &value, false);
    }
    if eq_str(key.as_slice(), "SERPER_API_KEY") {
        search.serper_api_key = value.clone();
    }
    if eq_str(key.as_slice(), "SEARCH_PROXY") {
        search.proxy = Some(value.clone());
    }
    if eq_str(key.as_slice(), "TELEGRAM_BOT_TOKEN") {
        telegram.bot_token = value.clone();
    }
}

/// Takes the `.env` text `content` into the settings: the DeepSeek key,
/// the provider keys, the Serper key, the search proxy and the Telegram
/// token, line by line as `env_line` says.
pub fn apply_env(
    content: &str,
    api_key: &mut String,
    providers: &mut Vec<(String, ProviderConfig)>,
    search: &mut SearchConfig,
    telegram: &mut TelegramConfig,
)
    ensures
        env_state(*final(api_key), final(providers)@, *final(search), *final(telegram))
            == env_fold(env_state(*old(api_key), old(providers)@, *old(search), *old(telegram)), lines_spec(content@)),
        final(search).timeout_secs == old(search).timeout_secs,
        final(search).cache_size == old(search).cache_size,
        final(search).cache_ttl_secs == old(search).cache_ttl_secs,
        final(telegram).enabled == old(telegram).enabled,
        final(telegram).allowed_chats == old(telegram).allowed_chats,
        final(telegram).poll_timeout_secs == old(telegram).poll_timeout_secs,
        distinct_names(providers_text(old(providers)@)) ==> distinct_names(providers_text(final(providers)@)),
{
    let c = to_chars(content);
    let ls = lines(c.as_slice());
    let ghost lv = ls@.map_values(|v: Vec<char>| v@);
    assert(lv =~= lines_spec(content@));
    let ghost st0 = env_state(*api_key, providers@, *search, *telegram);
    let mut i: usize = 0;
    assert(lv.take(0) =~= Seq::<Seq<char>>::empty());
    while i < ls.len()
        invariant
            i <= ls@.len(),
            lv == ls@.map_values(|v: Vec<char>| v@),
            env_state(*api_key, providers@, *search, *telegram) == env_fold(st0, lv.take(i as int)),
            search.timeout_secs == old(search).timeout_secs,
            search.cache_size == old(search).cache_size,
            search.cache_ttl_secs == old(search).cache_ttl_secs,
            telegram.enabled == old(telegram).enabled,
            telegram.allowed_chats == old(telegram).allowed_chats,
            telegram.poll_timeout_secs == old(telegram).poll_timeout_secs,
        decreases ls@.len() - i,
    {
        assert(lv.take(i + 1).drop_last() =~= lv.take(i as int));
        assert(lv.take(i + 1).last() == ls@[i as int]@);
        apply_env_line(ls[i].as_slice(), api_key, providers, search, telegram);
        i = i + 1;
    }
    assert(lv.take(ls@.len() as int) =~= lv);
    proof {
        if distinct_names(providers_text(old(providers)@)) {
            lemma_env_keeps_names_distinct(st0, lv);
        }
    }
}

// ---------------------------------------------------------------------------
// Loading steps after `.env`
// ---------------------------------------------------------------------------

/// The providers after the compatibility step of loading: with no
/// provider, a `deepseek` one made from the `[api]` section when it names a
/// model (the key, a base URL other than the default, the model), else a
/// default `deepseek` one.
pub open spec fn legacy_providers(api_key: Seq<char>, api: ApiConfig, ps: Seq<(Seq<char>, ProviderText)>) -> Seq<(Seq<char>, ProviderText)> {
    if ps.len() == 0 && api.model@.len() > 0 {
        seq![("deepseek"@, (
            api_key,
            if api.base_url@ != "https://api.deepseek.com"@ { Some(api.base_url@) } else { None },
            Some(api.model@),
            "openai"@,
        ))]
    } else if ps.len() == 0 {
        seq![("deepseek"@, keyed_default(Seq::empty()))]
    } else {
        ps
    }
}

/// Gives a `deepseek` provider to settings without providers, from the
/// `[api]` section when it names a model.
pub fn migrate_legacy_api(api_key: &String, api: &ApiConfig, providers: &mut Vec<(String, ProviderConfig)>)
    ensures
        providers_text(final(providers)@) == legacy_providers(api_key@, *api, providers_text(old(providers)@)),
        distinct_names(providers_text(old(providers)@)) ==> distinct_names(providers_text(final(providers)@)),
{
    if providers.len() == 0 && api.model.as_str().unicode_len() > 0 {
        let mut d = ProviderConfig::default();
        if api_key.as_str().unicode_len() > 0 {
            d.api_key = api_key.clone();
        }
        let dc = to_chars(api.base_url.as_str());
        if !eq_str(dc.as_slice(), "https://api.deepseek.com") {
            d.base_url = Some(api.base_url.clone());
        }
        d.model = Some(api.model.clone());
        assert(d.api_key@ =~= api_key@);
        providers.push(("deepseek".to_string(), d));
        assert(providers_text(providers@) =~= legacy_providers(api_key@, *api, providers_text(old(providers)@)));
    } else if providers.len() == 0 {
        let d = ProviderConfig::default();
        assert(d.api_key@ =~= Seq::<char>::empty());
        providers.push(("deepseek".to_string(), d));
        assert(providers_text(providers@) =~= legacy_providers(api_key@, *api, providers_text(old(providers)@)));
    }
}

/// The text of the rules `rs`.
pub open spec fn rules_text(rs: Seq<(String, bool)>) -> Seq<(Seq<char>, bool)> {
    rs.map_values(|e: (String, bool)| (e.0@, e.1))
}

/// `rs` with `name` switched to `on`: its first entry changed, or a new
/// entry at the end.
pub open spec fn set_rule(rs: Seq<(Seq<char>, bool)>, name: Seq<char>, on: bool) -> Seq<(Seq<char>, bool)> {
    if exists|i: int| 0 <= i < rs.len() && (#[trigger] rs[i]).0 == name {
        let i = choose|i: int| 0 <= i < rs.len() && (#[trigger] rs[i]).0 == name
            && forall|j: int| 0 <= j < i ==> (#[trigger] rs[j]).0 != name;
        rs.update(i, (name, on))
    } else {
        rs.push((name, on))
    }
}

/// The proxy after taking over an older WeChat channel proxy `p`: a
/// non-empty one becomes the proxy URL when none is set, and switches the
/// `wechat` rule on.
pub open spec fn wechat_proxy_migrated(url: Option<Seq<char>>, rules: Seq<(Seq<char>, bool)>, p: Option<Seq<char>>) -> (Option<Seq<char>>, Seq<(Seq<char>, bool)>) {
    match p {
        Some(w) => if w.len() > 0 {
            (if url is None { Some(w) } else { url }, set_rule(rules, "wechat"@, true))
        } else {
            (url, rules)
        },
        None => (url, rules),
    }
}

/// Takes the older WeChat channel proxy over into the proxy settings.
pub fn migrate_wechat_proxy(wechat: &WeChatConfig, proxy: &mut ProxyConfig)
    ensures
        (opt_text(final(proxy).url), rules_text(final(proxy).rules@))
            == wechat_proxy_migrated(opt_text(old(proxy).url), rules_text(old(proxy).rules@), opt_text(wechat.proxy)),
        final(proxy).mode == old(proxy).mode,
        final(proxy).no_proxy == old(proxy).no_proxy,
{
    match &wechat.proxy {
        Some(w) => {
            if w.as_str().unicode_len() > 0 {
                if proxy.url.is_none() {
                    proxy.url = Some(w.clone());
                }
                let ghost rs = rules_text(proxy.rules@);
                let ghost u = proxy.url;
                let mut i: usize = 0;
                let mut found = false;
                while i < proxy.rules.len() && !found
                    invariant
                        i <= proxy.rules@.len(),
                        proxy.url == u,
                        proxy.mode == old(proxy).mode,
                        proxy.no_proxy == old(proxy).no_proxy,
                        rs == rules_text(old(proxy).rules@),
                        !found ==> proxy.rules@ == old(proxy).rules@,
                        !found ==> forall|j: int| 0 <= j < i ==> (#[trigger] rs[j]).0 != "wechat"@,
                        found ==> rules_text(proxy.rules@) == set_rule(rs, "wechat"@, true),
                    decreases proxy.rules@.len() - i + (if found { 0int } else { 1int }),
                {
                    let n = to_chars(proxy.rules[i].0.as_str());
                    if eq_str(n.as_slice(), "wechat") {
                        proof {
                            assert(rs[i as int].0 == "wechat"@);
                            let k = choose|k: int| 0 <= k < rs.len() && (#[trigger] rs[k]).0 == "wechat"@
                                && forall|j: int| 0 <= j < k ==> (#[trigger] rs[j]).0 != "wechat"@;
                            if k < i {
                                assert(rs[k].0 != "wechat"@);
                            } else if k > i {
                                assert(rs[i as int].0 != "wechat"@);
                            }
                        }
                        proxy.rules.set(i, ("wechat".to_string(), true));
                        assert(rules_text(proxy.rules@) =~= rs.update(i as int, ("wechat"@, true)));
                        found = true;
                    } else {
                        i = i + 1;
                    }
                }
                if !found {
                    proxy.rules.push(("wechat".to_string(), true));
                    assert(rules_text(proxy.rules@) =~= rs.push(("wechat"@, true)));
                }
            }
        },
        None => {},
    }
}

/// The settings after the base-URL override `var` (the environment
/// variable, if set): a non-empty trimmed value becomes the API base URL and
/// the `deepseek` provider's.
pub open spec fn base_url_overridden(var: Option<Seq<char>>, base: Seq<char>, ps: Seq<(Seq<char>, ProviderText)>) -> (Seq<char>, Seq<(Seq<char>, ProviderText)>) {
    match var {
        Some(v) => if trim_spec(v).len() > 0 {
            let t = trim_spec(v);
            (t, match provider_index(ps, "deepseek"@) {
                Some(i) => ps.update(i, (ps[i].0, (ps[i].1.0, Some(t), ps[i].1.2, ps[i].1.3))),
                None => ps,
            })
        } else {
            (base, ps)
        },
        None => (base, ps),
    }
}

/// Applies the base-URL override `var` read from the environment.
pub fn apply_base_url_override(var: Option<&str>, api: &mut ApiConfig, providers: &mut Vec<(String, ProviderConfig)>)
    ensures
        (final(api).base_url@, providers_text(final(providers)@))
            == base_url_overridden(match var { Some(v) => Some(v@), None => None }, old(api).base_url@, providers_text(old(providers)@)),
        final(api).model == old(api).model,
        distinct_names(providers_text(old(providers)@)) ==> distinct_names(providers_text(final(providers)@)),
{
    match var {
        Some(v) => {
            let c = to_chars(v);
            let t = trim(c.as_slice());
            if t.len() > 0 {
                let ts = from_chars(t.as_slice());
                api.base_url = ts.clone();
                let ds = to_chars("deepseek");
                let ghost pt = providers_text(providers@);
                match find_provider(providers, ds.as_slice()) {
                    Some(i) => {
                        let entry = &mut providers[i];
                        entry.1.base_url = Some(ts);
                        assert(providers_text(providers@) =~= pt.update(i as int,
                            (pt[i as int].0, (pt[i as int].1.0, Some(t@), pt[i as int].1.2, pt[i as int].1.3))));
                    },
                    None => {},
                }
            }
        },
        None => {},
    }
}

/// The providers after giving the DeepSeek key `key` to a `deepseek`
/// provider without one.
pub open spec fn deepseek_key_synced(key: Seq<char>, ps: Seq<(Seq<char>, ProviderText)>) -> Seq<(Seq<char>, ProviderText)> {
    if key.len() > 0 {
        match provider_index(ps, "deepseek"@) {
            Some(i) => if ps[i].1.0.len() == 0 {
                ps.update(i, (ps[i].0, (key, ps[i].1.1, ps[i].1.2, ps[i].1.3)))
            } else {
                ps
            },
            None => ps,
        }
    } else {
        ps
    }
}

/// Gives the DeepSeek key to the `deepseek` provider when it has none.
pub fn sync_deepseek_key(api_key: &String, providers: &mut Vec<(String, ProviderConfig)>)
    ensures
        providers_text(final(providers)@) == deepseek_key_synced(api_key@, providers_text(old(providers)@)),
        distinct_names(providers_text(old(providers)@)) ==> distinct_names(providers_text(final(providers)@)),
{
    if api_key.as_str().unicode_len() > 0 {
        let ds = to_chars("deepseek");
        let ghost pt = providers_text(providers@);
        match find_provider(providers, ds.as_slice()) {
            Some(i) => {
                if providers[i].1.api_key.as_str().unicode_len() == 0 {
                    let entry = &mut providers[i];
                    entry.1.api_key = api_key.clone();
                    assert(providers_text(providers@) =~= pt.update(i as int,
                        (pt[i as int].0, (api_key@, pt[i as int].1.1, pt[i as int].1.2, pt[i as int].1.3))));
                }
            },
            None => {},
        }
    }
}

/// Some API key is known: the DeepSeek key or a provider's.
pub open spec fn configured_spec(api_key: Seq<char>, ps: Seq<(String, ProviderConfig)>) -> bool {
    api_key.len() > 0 || exists|i: int| 0 <= i < ps.len() && (#[trigger] ps[i]).1.api_key@.len() > 0
}

/// Whether an API key is configured.
pub fn is_configured(api_key: &String, providers: &Vec<(String, ProviderConfig)>) -> (r: bool)
    ensures
        r == configured_spec(api_key@, providers@),
{
    let mut i: usize = 0;
    while i < providers.len()
        invariant
            i <= providers@.len(),
            forall|j: int| 0 <= j < i ==> (#[trigger] providers@[j]).1.api_key@.len() == 0,
        decreases providers@.len() - i,
    {
        if providers[i].1.api_key.as_str().unicode_len() > 0 {
            return true;
        }
        i = i + 1;
    }
    api_key.as_str().unicode_len() > 0
}

/// The `.env` lines of the providers `ps` with a key: `{NAME}_API_KEY=key`.
pub open spec fn provider_key_lines(ps: Seq<(String, ProviderConfig)>) -> Seq<char>
    decreases ps.len(),
{
    if ps.len() == 0 {
        Seq::empty()
    } else {
        let e = ps.last();
        provider_key_lines(ps.drop_last()) + if e.1.api_key@.len() > 0 {
            crate::text::uppercase(e.0@) + "_API_KEY="@ + e.1.api_key@ + "\n"@
        } else {
            Seq::empty()
        }
    }
}

/// The `.env` text that stores the keys: a heading, the DeepSeek key, then
/// one line per provider with a key.
pub open spec fn env_file_spec(api_key: Seq<char>, ps: Seq<(String, ProviderConfig)>) -> Seq<char> {
    "# RHermes Provider API Keys\n"@
        + (if api_key.len() > 0 { "DEEPSEEK_API_KEY="@ + api_key + "\n"@ } else { Seq::empty() })
        + provider_key_lines(ps)
}

/// The `.env` text that stores the API keys.
pub fn env_file_text(api_key: &String, providers: &Vec<(String, ProviderConfig)>) -> (r: String)
    ensures
        r@ == env_file_spec(api_key@, providers@),
{
    let mut v = to_chars("# RHermes Provider API Keys\n");
    let ghost h = v@;
    if api_key.as_str().unicode_len() > 0 {
        crate::text::push_str(&mut v, "DEEPSEEK_API_KEY=");
        crate::text::push_str(&mut v, api_key.as_str());
        crate::text::push_str(&mut v, "\n");
    }
    let ghost base = v@;
    assert(base =~= h + (if api_key@.len() > 0 { "DEEPSEEK_API_KEY="@ + api_key@ + "\n"@ } else { Seq::<char>::empty() }));
    let mut i: usize = 0;
    while i < providers.len()
        invariant
            i <= providers@.len(),
            v@ == base + provider_key_lines(providers@.take(i as int)),
        decreases providers@.len() - i,
    {
        assert(providers@.take(i + 1).drop_last() =~= providers@.take(i as int));
        assert(providers@.take(i + 1).last() == providers@[i as int]);
        let ghost before = v@;
        if providers[i].1.api_key.as_str().unicode_len() > 0 {
            let up = crate::text::to_uppercase(providers[i].0.as_str());
            crate::text::push_str(&mut v, up.as_str());
            crate::text::push_str(&mut v, "_API_KEY=");
            crate::text::push_str(&mut v, providers[i].1.api_key.as_str());
            crate::text::push_str(&mut v, "\n");
        }
        assert(v@ =~= base + provider_key_lines(providers@.take(i + 1)));
        i = i + 1;
    }
    assert(providers@.take(providers@.len() as int) =~= providers@);
    from_chars(v.as_slice())
}


/// No provider of `ps` has an API key.
pub open spec fn no_provider_keys(ps: Seq<(String, ProviderConfig)>) -> bool {
    forall|i: int| 0 <= i < ps.len() ==> (#[trigger] ps[i]).1.api_key@.len() == 0
}

/// Providers without keys write no `.env` line.
proof fn lemma_no_key_lines(ps: Seq<(String, ProviderConfig)>)
    requires
        no_provider_keys(ps),
    ensures
        provider_key_lines(ps) == Seq::<char>::empty(),
    decreases ps.len(),
{
    if ps.len() > 0 {
        let init = ps.drop_last();
        assert forall|i: int| 0 <= i < init.len() implies (#[trigger] init[i]).1.api_key@.len() == 0 by {
            assert(init[i] == ps[i]);
        }
        lemma_no_key_lines(init);
        assert(ps[ps.len() - 1] == ps.last());
        assert(Seq::<char>::empty() + Seq::<char>::empty() =~= Seq::<char>::empty());
    }
}

/// The DeepSeek key written to `.env` is read back: loading the text that
/// stores a non-empty, unpadded, one-line key (with no provider keys beside
/// it) sets the DeepSeek key to it and fills it into the `deepseek`
/// provider, whatever was loaded before.
pub proof fn lemma_env_key_round_trip(key: Seq<char>, ps: Seq<(String, ProviderConfig)>, st: EnvState)
    requires
        key.len() > 0,
        unpadded(key),
        free_of(key, '\n'),
        no_provider_keys(ps),
    ensures
        env_fold(st, lines_spec(env_file_spec(key, ps)))
            == (key, fill_provider_key(st.1, "deepseek"@, key), st.2, st.3, st.4),
{
    reveal_strlit("# RHermes Provider API Keys\n");
    reveal_strlit("# RHermes Provider API Keys");
    reveal_strlit("DEEPSEEK_API_KEY=");
    reveal_strlit("DEEPSEEK_API_KEY");
    reveal_strlit("\n");
    lemma_no_key_lines(ps);
    let h = "# RHermes Provider API Keys"@;
    let p = "DEEPSEEK_API_KEY"@;
    let d = p + seq!['='] + key;
    let text = env_file_spec(key, ps);
    assert(text =~= h + seq!['\n'] + d + seq!['\n']);
    // the two lines
    let two = seq![h, d];
    assert(two.drop_last() =~= seq![h]);
    assert(two.last() == d);
    assert(seq![h].len() == 1 && seq![h][0] == h);
    assert(join_spec(seq![h], seq!['\n']) == h);
    assert(join_spec(two, seq!['\n']) == join_spec(two.drop_last(), seq!['\n']) + seq!['\n'] + two.last());
    assert(join_spec(two, seq!['\n']) == h + seq!['\n'] + d);
    assert forall|i: int, j: int| 0 <= i < two.len() && 0 <= j < two[i].len() implies #[trigger] two[i][j] != '\n' by {
        if i == 0 {
            reveal_with_fuel(lacks_from, 30);
            lemma_lacks_from(h, '\n', 0);
        } else {
            reveal_with_fuel(lacks_from, 20);
            lemma_lacks_from(p, '\n', 0);
            if j < p.len() {
                assert(d[j] == p[j]);
            } else if j > p.len() {
                assert(d[j] == key[j - p.len() - 1]);
            }
        }
    }
    crate::text::lemma_split_join(two, '\n');
    crate::text::lemma_split_append_sep(h + seq!['\n'] + d, '\n');
    assert((h + seq!['\n'] + d).push('\n') =~= text);
    let parts = two.push(Seq::<char>::empty());
    assert(split_spec(text, '\n') == parts);
    assert(parts.drop_last() =~= two);
    assert(d.last() == key.last());
    assert(h.last() == 's');
    assert(lines_spec(text) =~= two);
    // the comment line changes nothing
    lemma_trim_unpadded(h);
    assert(env_line(st, h) == st);
    // the key line
    lemma_trim_unpadded(d);
    reveal_with_fuel(lacks_from, 20);
    lemma_lacks_from(p, '=', 0);
    let k = p.len() as int;
    assert(d[k] == '=');
    assert forall|j: int| 0 <= j < k implies d[j] != '=' by {
        assert(d[j] == p[j]);
    }
    assert(index_of_char(d, '=') == Some(k)) by {
        let w = choose|i: int| 0 <= i < d.len() && d[i] == '=' && forall|j: int| 0 <= j < i ==> d[j] != '=';
        if w < k {
            assert(d[w] == p[w]);
        }
    }
    assert(d.take(k) =~= p);
    lemma_trim_unpadded(p);
    assert(d.skip(k + 1) =~= key);
    lemma_trim_unpadded(key);
    let one = seq![h];
    assert(one.drop_last() =~= Seq::<Seq<char>>::empty());
    assert(one.last() == h);
    assert(env_fold(st, one.drop_last()) == st);
    assert(env_fold(st, one) == env_line(st, h));
    assert(two.drop_last() == one);
    assert(env_fold(st, two) == env_line(env_fold(st, one), d));
}

} // verus!
