//! The annotated settings template written by `config-init`: every section
//! with its default values and a comment on each setting; empty settings
//! appear commented out.

use vstd::prelude::*;
use crate::config::{
    AgentDefaults, DebugConfig, DisplayConfig, GatewayConfig, McpConfig, MemoryConfig, ProviderPoolConfig,
    RequestConfig, SchedulerConfig, SearchConfig, TelegramConfig, WasmPluginConfig, WeChatConfig, WeComConfig,
};
use crate::text::{
    count_leading_ws, decimal, decimal_chars, ends_with, extend_chars, from_chars, has_prefix, has_suffix,
    index_of_char, is_char, leading_count, lemma_leading_count_bound, lemma_leading_count_unique,
    lemma_trailing_count_unique, lines, lines_spec, position_of, push_str, slice_to_vec, split_char, split_spec,
    starts_with, strip_leading, strip_trailing, to_chars, trim, trim_spec, trailing_count, ws,
};

verus! {

/// The text of a boolean setting.
pub open spec fn bool_text(b: bool) -> Seq<char> {
    if b { "true"@ } else { "false"@ }
}

/// Appends the decimal digits of `n`.
fn push_decimal(v: &mut Vec<char>, n: u64)
    ensures
        final(v)@ == old(v)@ + decimal(n as nat),
{
    let d = decimal_chars(n);
    extend_chars(v, d.as_slice());
}

/// Appends the text of `b`.
fn push_bool(v: &mut Vec<char>, b: bool)
    ensures
        final(v)@ == old(v)@ + bool_text(b),
{
    if b {
        push_str(v, "true");
    } else {
        push_str(v, "false");
    }
}

/// The `head` part of the annotated settings template.
pub open spec fn head_part() -> Seq<char> {
    "# RHermes 配置文件\n#\n# 首次使用: rhermes config-init 生成此文件\n# API Key 等敏感信息请放在同目录的 .env 文件中\n#\n\n"@
        + "# ── API 配置（向后兼容，等价于 [providers.deepseek]）──\n[api]\n"@
        + "# 模型名称\nmodel = \"deepseek-v4-flash\"\n"@
        + "# API 基础 URL（DeepSeek: https://api.deepseek.com, 智谱: https://open.bigmodel.cn/api/paas/v4, OpenAI: https://api.openai.com/v1）\nbase_url = \"https://api.deepseek.com\"\n\n"@
        + "# ── 多 Provider 配置 ──\n# 每个 Provider 对应一个 AI 服务商，格式: [providers.{name}]\n# API Key 从 .env 读取: {NAME}_API_KEY=xxx\n# 支持的 provider: deepseek, openai, zhipu, siliconflow, moonshot, ollama 等\n[providers.deepseek]\n# API 协议类型: openai（默认）/ anthropic / gemini / ollama\n"@
        + "api_type = \"openai\"\n"@
        + "# 可选覆盖 base_url 和 model:\n# base_url = \"https://api.deepseek.com\"\n# model = \"deepseek-v4-flash\"\n\n"@
        + "# 示例：更多 Provider 配置（取消注释启用）\n# [providers.zhipu]\n# api_type = \"openai\"\n# base_url = \"https://open.bigmodel.cn/api/paas/v4\"\n# model = \"glm-5.1\"\n\n# [providers.openai]\n# api_type = \"openai\"\n# base_url = \"https://api.openai.com/v1\"\n# model = \"gpt-4o\"\n\n"@
}

/// Appends the `head` part of the template.
fn push_head_part(v: &mut Vec<char>)
    ensures
        final(v)@ == old(v)@ + head_part(),
{
    let ghost start = v@;
    push_str(v, "# RHermes 配置文件\n#\n# 首次使用: rhermes config-init 生成此文件\n# API Key 等敏感信息请放在同目录的 .env 文件中\n#\n\n");
    push_str(v, "# ── API 配置（向后兼容，等价于 [providers.deepseek]）──\n[api]\n");
    push_str(v, "# 模型名称\nmodel = \"deepseek-v4-flash\"\n");
    push_str(v, "# API 基础 URL（DeepSeek: https://api.deepseek.com, 智谱: https://open.bigmodel.cn/api/paas/v4, OpenAI: https://api.openai.com/v1）\nbase_url = \"https://api.deepseek.com\"\n\n");
    push_str(v, "# ── 多 Provider 配置 ──\n# 每个 Provider 对应一个 AI 服务商，格式: [providers.{name}]\n# API Key 从 .env 读取: {NAME}_API_KEY=xxx\n# 支持的 provider: deepseek, openai, zhipu, siliconflow, moonshot, ollama 等\n[providers.deepseek]\n# API 协议类型: openai（默认）/ anthropic / gemini / ollama\n");
    push_str(v, "api_type = \"openai\"\n");
    push_str(v, "# 可选覆盖 base_url 和 model:\n# base_url = \"https://api.deepseek.com\"\n# model = \"deepseek-v4-flash\"\n\n");
    push_str(v, "# 示例：更多 Provider 配置（取消注释启用）\n# [providers.zhipu]\n# api_type = \"openai\"\n# base_url = \"https://open.bigmodel.cn/api/paas/v4\"\n# model = \"glm-5.1\"\n\n# [providers.openai]\n# api_type = \"openai\"\n# base_url = \"https://api.openai.com/v1\"\n# model = \"gpt-4o\"\n\n");
    assert(v@ =~= start + head_part());
}

/// The `core` part of the annotated settings template.
pub open spec fn core_part() -> Seq<char> {
    "# ── 请求配置 ──\n[request]\n# API 请求超时（秒）\ntimeout_secs = "@
        + decimal(60)
        + "\n# 请求失败最大重试次数\nmax_retries = "@
        + decimal(3)
        + "\n\n"@
        + "# ── 记忆与笔记配置 ──\n[memory]\n# MEMORY.md 最大字符数（超出后自动删除旧条目）\nmax_memory_md_chars = "@
        + decimal(2200)
        + "\n# USER.md 最大字符数\nmax_user_md_chars = "@
        + decimal(1375)
        + "\n# 是否启用用户画像文件（USER.md）\nuser_profile_enabled = "@
        + bool_text(true)
        + "\n\n"@
        + "# ── 调试配置 ──\n[debug]\n# 是否启用调试追踪\nenabled = "@
        + bool_text(false)
        + "\n# 调试环缓冲区大小（条数）\nbuffer_size = "@
        + decimal(500)
        + "\n\n"@
        + "# ── 显示与截断配置 ──\n[display]\n# 工具返回结果最大字符数（超出后截断）\ntool_result_max_chars = "@
        + decimal(15000)
        + "\n# read_pdf 预览最大字符数\nread_pdf_max_chars = "@
        + decimal(30000)
        + "\n\n"@
}

/// Appends the `core` part of the template.
fn push_core_part(v: &mut Vec<char>)
    ensures
        final(v)@ == old(v)@ + core_part(),
{
    let ghost start = v@;
    let debug = DebugConfig::default();
    let display = DisplayConfig::default();
    let memory = MemoryConfig::default();
    let request = RequestConfig::default();
    push_str(v, "# ── 请求配置 ──\n[request]\n# API 请求超时（秒）\ntimeout_secs = ");
    push_decimal(v, request.timeout_secs as u64);
    push_str(v, "\n# 请求失败最大重试次数\nmax_retries = ");
    push_decimal(v, request.max_retries as u64);
    push_str(v, "\n\n");
    push_str(v, "# ── 记忆与笔记配置 ──\n[memory]\n# MEMORY.md 最大字符数（超出后自动删除旧条目）\nmax_memory_md_chars = ");
    push_decimal(v, memory.max_memory_md_chars as u64);
    push_str(v, "\n# USER.md 最大字符数\nmax_user_md_chars = ");
    push_decimal(v, memory.max_user_md_chars as u64);
    push_str(v, "\n# 是否启用用户画像文件（USER.md）\nuser_profile_enabled = ");
    push_bool(v, memory.user_profile_enabled);
    push_str(v, "\n\n");
    push_str(v, "# ── 调试配置 ──\n[debug]\n# 是否启用调试追踪\nenabled = ");
    push_bool(v, debug.enabled);
    push_str(v, "\n# 调试环缓冲区大小（条数）\nbuffer_size = ");
    push_decimal(v, debug.buffer_size as u64);
    push_str(v, "\n\n");
    push_str(v, "# ── 显示与截断配置 ──\n[display]\n# 工具返回结果最大字符数（超出后截断）\ntool_result_max_chars = ");
    push_decimal(v, display.tool_result_max_chars as u64);
    push_str(v, "\n# read_pdf 预览最大字符数\nread_pdf_max_chars = ");
    push_decimal(v, display.read_pdf_max_chars as u64);
    push_str(v, "\n\n");
    assert(v@ =~= start + core_part());
}

/// The `agent` part of the annotated settings template.
pub open spec fn agent_part(ratio: Seq<char>) -> Seq<char> {
    "# ── Agent 行为配置 ──\n[agent]\n# Agent Loop 最大轮次（工具调用次数上限）\nmax_rounds = "@
        + decimal(50)
        + "\n# 上下文压缩阈值比例（0.0~1.0，达到后触发压缩）\ncompression_ratio = "@
        + ratio
        + "\n# 自动技能提炼间隔（工具调用次数，0=禁用）\ncreation_nudge_interval = "@
        + decimal(15)
        + "\n# 自动记忆提炼间隔（对话轮次，0=禁用）\nmemory_nudge_interval = "@
        + decimal(10)
        + "\n# 默认 Provider 名称（如 \"deepseek\" / \"zhipu\"，空则根据模型名自动推断）\n# default_provider = \"\"\n"@
        + "# 安全工作目录（Agent 文件操作限制在此目录下，空=不限制）\n# workspace = \"\"\n"@
        + "# 命令白名单（如 [\"ls\", \"cat\", \"git\", \"cargo\"]，空=不限制）\n# command_allowed_prefixes = [\"ls\", \"cat\", \"git\"]\n"@
        + "command_require_confirm = "@
        + bool_text(true)
        + "\n\n"@
        + "# ── Provider Pool 配置（熔断器）──\n[provider_pool]\n# 熔断器阈值：连续失败 N 次后断开该 Provider\ncircuit_breaker_threshold = "@
        + decimal(3)
        + "\n# 熔断器冷却时间（秒）\ncircuit_breaker_cooldown_secs = "@
        + decimal(30)
        + "\n\n"@
}

/// Appends the `agent` part of the template.
fn push_agent_part(v: &mut Vec<char>, ratio: &str)
    ensures
        final(v)@ == old(v)@ + agent_part(ratio@),
{
    let ghost start = v@;
    let agent = AgentDefaults::default();
    let pool = ProviderPoolConfig::default();
    push_str(v, "# ── Agent 行为配置 ──\n[agent]\n# Agent Loop 最大轮次（工具调用次数上限）\nmax_rounds = ");
    push_decimal(v, agent.max_rounds as u64);
    push_str(v, "\n# 上下文压缩阈值比例（0.0~1.0，达到后触发压缩）\ncompression_ratio = ");
    push_str(v, ratio);
    push_str(v, "\n# 自动技能提炼间隔（工具调用次数，0=禁用）\ncreation_nudge_interval = ");
    push_decimal(v, agent.creation_nudge_interval as u64);
    push_str(v, "\n# 自动记忆提炼间隔（对话轮次，0=禁用）\nmemory_nudge_interval = ");
    push_decimal(v, agent.memory_nudge_interval as u64);
    push_str(v, "\n# 默认 Provider 名称（如 \"deepseek\" / \"zhipu\"，空则根据模型名自动推断）\n# default_provider = \"\"\n");
    push_str(v, "# 安全工作目录（Agent 文件操作限制在此目录下，空=不限制）\n# workspace = \"\"\n");
    push_str(v, "# 命令白名单（如 [\"ls\", \"cat\", \"git\", \"cargo\"]，空=不限制）\n# command_allowed_prefixes = [\"ls\", \"cat\", \"git\"]\n");
    push_str(v, "command_require_confirm = ");
    push_bool(v, agent.command_require_confirm);
    push_str(v, "\n\n");
    push_str(v, "# ── Provider Pool 配置（熔断器）──\n[provider_pool]\n# 熔断器阈值：连续失败 N 次后断开该 Provider\ncircuit_breaker_threshold = ");
    push_decimal(v, pool.circuit_breaker_threshold as u64);
    push_str(v, "\n# 熔断器冷却时间（秒）\ncircuit_breaker_cooldown_secs = ");
    push_decimal(v, pool.circuit_breaker_cooldown_secs as u64);
    push_str(v, "\n\n");
    assert(v@ =~= start + agent_part(ratio@));
}

/// The `channels` part of the annotated settings template.
pub open spec fn channels_part() -> Seq<char> {
    "# ── 消息通道配置 ──\n\n"@
        + "# 企业微信 Bot 通道\n[channels.wecom]\nenabled = "@
        + bool_text(false)
        + "\n# Webhook URL（发送消息用）\n# webhook_url = \"\"\n# 企业 ID（接收消息用）\n# corp_id = \"\"\n# 应用 Agent ID（接收消息用）\n# agent_id = \"\"\n# Webhook 关键词\n# webhook_key = \"\"\n# 允许的发送者列表（空=全部允许）\n# allow_from = []\npoll_interval_secs = "@
        + decimal(5)
        + "\n\n"@
        + "# 微信个号 iLink Bot 通道\n[channels.wechat]\nenabled = "@
        + bool_text(false)
        + "\n# 代理地址（可选，支持 http:// 和 socks5://）\n# proxy = \"socks5://127.0.0.1:1080\"\npoll_interval_secs = "@
        + decimal(2)
        + "\n# Token 刷新后自动保存路径\n# token_path = \"\"\n\n"@
        + "# Telegram Bot 通道\n[channels.telegram]\nenabled = "@
        + bool_text(false)
        + "\n# Bot Token 请在 .env 中设置 TELEGRAM_BOT_TOKEN\n# allowed_chats = []\npoll_timeout_secs = "@
        + decimal(30)
        + "\n\n"@
}

/// Appends the `channels` part of the template.
fn push_channels_part(v: &mut Vec<char>)
    ensures
        final(v)@ == old(v)@ + channels_part(),
{
    let ghost start = v@;
    let telegram = TelegramConfig::default();
    let wechat = WeChatConfig::default();
    let wecom = WeComConfig::default();
    push_str(v, "# ── 消息通道配置 ──\n\n");
    push_str(v, "# 企业微信 Bot 通道\n[channels.wecom]\nenabled = ");
    push_bool(v, wecom.enabled);
    push_str(v, "\n# Webhook URL（发送消息用）\n# webhook_url = \"\"\n# 企业 ID（接收消息用）\n# corp_id = \"\"\n# 应用 Agent ID（接收消息用）\n# agent_id = \"\"\n# Webhook 关键词\n# webhook_key = \"\"\n# 允许的发送者列表（空=全部允许）\n# allow_from = []\npoll_interval_secs = ");
    push_decimal(v, wecom.poll_interval_secs as u64);
    push_str(v, "\n\n");
    push_str(v, "# 微信个号 iLink Bot 通道\n[channels.wechat]\nenabled = ");
    push_bool(v, wechat.enabled);
    push_str(v, "\n# 代理地址（可选，支持 http:// 和 socks5://）\n# proxy = \"socks5://127.0.0.1:1080\"\npoll_interval_secs = ");
    push_decimal(v, wechat.poll_interval_secs as u64);
    push_str(v, "\n# Token 刷新后自动保存路径\n# token_path = \"\"\n\n");
    push_str(v, "# Telegram Bot 通道\n[channels.telegram]\nenabled = ");
    push_bool(v, telegram.enabled);
    push_str(v, "\n# Bot Token 请在 .env 中设置 TELEGRAM_BOT_TOKEN\n# allowed_chats = []\npoll_timeout_secs = ");
    push_decimal(v, telegram.poll_timeout_secs as u64);
    push_str(v, "\n\n");
    assert(v@ =~= start + channels_part());
}

/// The `proxy` part of the annotated settings template.
pub open spec fn proxy_part() -> Seq<char> {
    "# ── 网络代理 ──\n[proxy]\n# 代理模式: \"all\"（全部走代理）/ \"off\"（不走代理）/ \"auto\"（按 rules 决定）\nmode = \"auto\"\n"@
        + "# 代理 URL（支持 http:// 和 socks5://），取消注释启用\n# url = \"socks5://127.0.0.1:1080\"\n# 不走代理的域名/IP（支持 *. 通配符，推荐配置：）\n# no_proxy = [\n#     \"api.deepseek.com\",\n#     \"open.bigmodel.cn\",\n#     \"*.weixin.qq.com\",\n#     \"qyapi.weixin.qq.com\",\n#     \"localhost\",\n#     \"127.0.0.1\",\n# ]\n\n"@
        + "# 功能开关（仅 mode=\"auto\" 时生效）\n[proxy.rules]\n"@
        + "llm = true   # AI API 请求（DeepSeek/GLM 由 no_proxy 排除）\n"@
        + "web_search = true   # 搜索工具（DDG/Serper，国内不可达）\n"@
        + "web_fetch = true   # 网页抓取（国内域名由 no_proxy 排除）\n"@
        + "wechat = false   # 微信通道\n"@
        + "wecom = false   # 企业微信\n"@
        + "telegram = true   # Telegram 通道（国内不可达）\n"@
        + "command = false   # 子进程 HTTP_PROXY 环境变量注入\n"@
        + "\n"@
}

/// Appends the `proxy` part of the template.
fn push_proxy_part(v: &mut Vec<char>)
    ensures
        final(v)@ == old(v)@ + proxy_part(),
{
    let ghost start = v@;
    push_str(v, "# ── 网络代理 ──\n[proxy]\n# 代理模式: \"all\"（全部走代理）/ \"off\"（不走代理）/ \"auto\"（按 rules 决定）\nmode = \"auto\"\n");
    push_str(v, "# 代理 URL（支持 http:// 和 socks5://），取消注释启用\n# url = \"socks5://127.0.0.1:1080\"\n# 不走代理的域名/IP（支持 *. 通配符，推荐配置：）\n# no_proxy = [\n#     \"api.deepseek.com\",\n#     \"open.bigmodel.cn\",\n#     \"*.weixin.qq.com\",\n#     \"qyapi.weixin.qq.com\",\n#     \"localhost\",\n#     \"127.0.0.1\",\n# ]\n\n");
    push_str(v, "# 功能开关（仅 mode=\"auto\" 时生效）\n[proxy.rules]\n");
    push_str(v, "llm = true   # AI API 请求（DeepSeek/GLM 由 no_proxy 排除）\n");
    push_str(v, "web_search = true   # 搜索工具（DDG/Serper，国内不可达）\n");
    push_str(v, "web_fetch = true   # 网页抓取（国内域名由 no_proxy 排除）\n");
    push_str(v, "wechat = false   # 微信通道\n");
    push_str(v, "wecom = false   # 企业微信\n");
    push_str(v, "telegram = true   # Telegram 通道（国内不可达）\n");
    push_str(v, "command = false   # 子进程 HTTP_PROXY 环境变量注入\n");
    push_str(v, "\n");
    assert(v@ =~= start + proxy_part());
}

/// The `services` part of the annotated settings template.
pub open spec fn services_part() -> Seq<char> {
    "# ── Gateway 守护进程配置 ──\n[gateway]\n# 是否启用 gateway 模式\nenabled = "@
        + bool_text(false)
        + "\n# 启动时自动启用的通道列表\nchannels = [\"wechat\"]\n# PID 文件路径\npid_file = \"home/gateway.pid\"\n# 日志文件路径\nlog_file = \"home/gateway.log\"\n\n"@
        + "# ── 定时任务调度器 ──\n[scheduler]\nenabled = "@
        + bool_text(false)
        + "\n# 最多同时执行的任务数\nmax_concurrent_tasks = "@
        + decimal(5)
        + "\n"@
        + "\n# 定时任务示例：\n# [[scheduler.tasks]]\n# name = \"morning_standup\"\n# cron = \"0 9 * * 1-5\"\n# prompt = \"梳理昨天的工作，列出今天的待办\"\n# target = \"\"  # 可选 \"channel:chat_id\"\n# enabled = true\n\n"@
        + "# ── WASM 插件配置 ──\n[wasm]\nenabled = "@
        + bool_text(false)
        + "\n# 插件目录\nplugins_dir = \"plugins\"\n# 单个插件执行超时（毫秒）\ntimeout_ms = "@
        + decimal(30000)
        + "\n# 允许的最大内存（字节）\nmax_memory = "@
        + decimal(33554432)
        + "\n\n"@
        + "# ── MCP 客户端配置 ──\n[mcp]\nenabled = "@
        + bool_text(false)
        + "\n# Sampling 能力（允许 MCP Server 通过 Agent 发起 LLM 请求，默认关闭）\nsampling_enabled = "@
        + bool_text(false)
        + "\n# Sampling 请求的 max_tokens 上限\nsampling_max_tokens = "@
        + decimal(1024)
        + "\n\n"@
        + "# MCP Server 示例配置（取消注释启用）：\n# [mcp.servers.fs]\n# command = \"npx\"\n# args = [\"-y\", \"@anthropic/mcp-server-filesystem\", \"/path/to/dir\"]\n\n"@
        + "# ── 搜索引擎配置 ──\n[search]\n# Serper API Key 请在 .env 中设置 SERPER_API_KEY\n# 搜索超时（秒）\ntimeout_secs = "@
        + decimal(15)
        + "\n# 搜索结果缓存大小（条数）\ncache_size = "@
        + decimal(100)
        + "\n# 缓存 TTL（秒）\ncache_ttl_secs = "@
        + decimal(600)
        + "\n\n"@
}

/// Appends the `services` part of the template.
fn push_services_part(v: &mut Vec<char>)
    ensures
        final(v)@ == old(v)@ + services_part(),
{
    let ghost start = v@;
    let gateway = GatewayConfig::default();
    let mcp = McpConfig::default();
    let scheduler = SchedulerConfig::default();
    let search = SearchConfig::default();
    let wasm = WasmPluginConfig::default();
    push_str(v, "# ── Gateway 守护进程配置 ──\n[gateway]\n# 是否启用 gateway 模式\nenabled = ");
    push_bool(v, gateway.enabled);
    push_str(v, "\n# 启动时自动启用的通道列表\nchannels = [\"wechat\"]\n# PID 文件路径\npid_file = \"home/gateway.pid\"\n# 日志文件路径\nlog_file = \"home/gateway.log\"\n\n");
    push_str(v, "# ── 定时任务调度器 ──\n[scheduler]\nenabled = ");
    push_bool(v, scheduler.enabled);
    push_str(v, "\n# 最多同时执行的任务数\nmax_concurrent_tasks = ");
    push_decimal(v, scheduler.max_concurrent_tasks as u64);
    push_str(v, "\n");
    push_str(v, "\n# 定时任务示例：\n# [[scheduler.tasks]]\n# name = \"morning_standup\"\n# cron = \"0 9 * * 1-5\"\n# prompt = \"梳理昨天的工作，列出今天的待办\"\n# target = \"\"  # 可选 \"channel:chat_id\"\n# enabled = true\n\n");
    push_str(v, "# ── WASM 插件配置 ──\n[wasm]\nenabled = ");
    push_bool(v, wasm.enabled);
    push_str(v, "\n# 插件目录\nplugins_dir = \"plugins\"\n# 单个插件执行超时（毫秒）\ntimeout_ms = ");
    push_decimal(v, wasm.timeout_ms as u64);
    push_str(v, "\n# 允许的最大内存（字节）\nmax_memory = ");
    push_decimal(v, wasm.max_memory as u64);
    push_str(v, "\n\n");
    push_str(v, "# ── MCP 客户端配置 ──\n[mcp]\nenabled = ");
    push_bool(v, mcp.enabled);
    push_str(v, "\n# Sampling 能力（允许 MCP Server 通过 Agent 发起 LLM 请求，默认关闭）\nsampling_enabled = ");
    push_bool(v, mcp.sampling_enabled);
    push_str(v, "\n# Sampling 请求的 max_tokens 上限\nsampling_max_tokens = ");
    push_decimal(v, mcp.sampling_max_tokens as u64);
    push_str(v, "\n\n");
    push_str(v, "# MCP Server 示例配置（取消注释启用）：\n# [mcp.servers.fs]\n# command = \"npx\"\n# args = [\"-y\", \"@anthropic/mcp-server-filesystem\", \"/path/to/dir\"]\n\n");
    push_str(v, "# ── 搜索引擎配置 ──\n[search]\n# Serper API Key 请在 .env 中设置 SERPER_API_KEY\n# 搜索超时（秒）\ntimeout_secs = ");
    push_decimal(v, search.timeout_secs as u64);
    push_str(v, "\n# 搜索结果缓存大小（条数）\ncache_size = ");
    push_decimal(v, search.cache_size as u64);
    push_str(v, "\n# 缓存 TTL（秒）\ncache_ttl_secs = ");
    push_decimal(v, search.cache_ttl_secs as u64);
    push_str(v, "\n\n");
    assert(v@ =~= start + services_part());
}


/// The annotated settings template, with the compression ratio written as
/// `ratio`.
pub open spec fn template_spec(ratio: Seq<char>) -> Seq<char> {
    head_part() + core_part() + agent_part(ratio) + channels_part() + proxy_part() + services_part()
}

/// The annotated settings template with the default values; the caller
/// writes the default compression ratio as `compression_ratio`.
pub fn generate_annotated_template(compression_ratio: &str) -> (r: String)
    ensures
        r@ == template_spec(compression_ratio@),
{
    let mut v: Vec<char> = Vec::new();
    push_head_part(&mut v);
    push_core_part(&mut v);
    push_agent_part(&mut v, compression_ratio);
    push_channels_part(&mut v);
    push_proxy_part(&mut v);
    push_services_part(&mut v);
    assert(v@ =~= template_spec(compression_ratio@));
    from_chars(v.as_slice())
}

// ---------------------------------------------------------------------------
// Merging saved values into the template
// ---------------------------------------------------------------------------

/// `s` without its leading `c`s.
fn strip_leading_char(s: &[char], c: char) -> (r: Vec<char>)
    ensures
        r@ == strip_leading(s@, is_char(c)),
{
    let mut a: usize = 0;
    while a < s.len() && s[a] == c
        invariant
            a <= s@.len(),
            forall|j: int| 0 <= j < a ==> is_char(c)(#[trigger] s@[j]),
        decreases s@.len() - a,
    {
        a = a + 1;
    }
    proof {
        lemma_leading_count_unique(s@, is_char(c), a as int);
    }
    slice_to_vec(s, a, s.len())
}

/// `s` without its trailing `c`s.
fn strip_trailing_char(s: &[char], c: char) -> (r: Vec<char>)
    ensures
        r@ == strip_trailing(s@, is_char(c)),
{
    let mut k: usize = 0;
    while k < s.len() && s[s.len() - 1 - k] == c
        invariant
            k <= s@.len(),
            forall|j: int| s@.len() - k <= j < s@.len() ==> is_char(c)(#[trigger] s@[j]),
        decreases s@.len() - k,
    {
        k = k + 1;
    }
    proof {
        lemma_trailing_count_unique(s@, is_char(c), k as int);
    }
    let r = slice_to_vec(s, 0, s.len() - k);
    assert(r@ =~= strip_trailing(s@, is_char(c)));
    r
}

/// The section path of a section line (trimmed): the name between the
/// brackets, split at dots, each part trimmed.
pub open spec fn section_of(t: Seq<char>) -> Seq<Seq<char>> {
    split_spec(trim_spec(strip_trailing(strip_leading(t, is_char('[')), is_char(']'))), '.')
        .map_values(|p: Seq<char>| trim_spec(p))
}

/// A key that is not a setting: one that starts like a section, a comment
/// or a rule line.
pub open spec fn not_a_setting(key: Seq<char>) -> bool {
    has_prefix(key, "["@) || has_prefix(key, "#"@) || has_prefix(key, "//"@) || has_prefix(key, "─"@)
}

/// The template line `line` read in state `st` (the current section, and
/// whether a commented-out example section is being read): the state after
/// it, and the key of the setting it holds, if any (commented out or not).
pub open spec fn line_step(st: (Seq<Seq<char>>, bool), line: Seq<char>) -> ((Seq<Seq<char>>, bool), Option<Seq<char>>) {
    let t = trim_spec(line);
    if has_prefix(t, "# ["@) && has_suffix(t, "]"@) {
        ((st.0, true), None)
    } else if has_prefix(t, "["@) && has_suffix(t, "]"@) {
        ((section_of(t), false), None)
    } else if st.1 {
        (st, None)
    } else {
        let content = if has_prefix(t, "# "@) { t.skip(2) } else { t };
        match index_of_char(content, '=') {
            Some(eq) => {
                let key = trim_spec(content.take(eq));
                if not_a_setting(key) { (st, None) } else { (st, Some(key)) }
            },
            None => (st, None),
        }
    }
}

/// The settings that the lines `ls` hold, read from state `st`: for each
/// line its section and key, or none.
pub open spec fn queries_from(st: (Seq<Seq<char>>, bool), ls: Seq<Seq<char>>) -> Seq<Option<(Seq<Seq<char>>, Seq<char>)>>
    decreases ls.len(),
{
    if ls.len() == 0 {
        Seq::empty()
    } else {
        let (st2, k) = line_step(st, ls[0]);
        seq![match k { Some(key) => Some((st.0, key)), None => None }] + queries_from(st2, ls.drop_first())
    }
}

/// The settings of the template `template`, line by line.
pub open spec fn template_queries_spec(template: Seq<char>) -> Seq<Option<(Seq<Seq<char>>, Seq<char>)>> {
    queries_from((Seq::empty(), false), lines_spec(template))
}

/// One template line after merging: a setting whose saved value is
/// `answer` is written as `key = value` after the line's indentation;
/// other lines stay as they are.
pub open spec fn merged_line(line: Seq<char>, q: Option<(Seq<Seq<char>>, Seq<char>)>, answer: Option<Seq<char>>) -> Seq<char> {
    match (q, answer) {
        (Some(sk), Some(v)) => line.take(leading_count(line, ws()) as int) + sk.1 + " = "@ + v,
        _ => line,
    }
}

/// The answer for line `i`: none past the given answers.
pub open spec fn answer_at(answers: Seq<Option<Seq<char>>>, i: int) -> Option<Seq<char>> {
    if 0 <= i < answers.len() { answers[i] } else { None }
}

/// The merged lines from line `i` on, each followed by a newline.
pub open spec fn merged_from(ls: Seq<Seq<char>>, qs: Seq<Option<(Seq<Seq<char>>, Seq<char>)>>, answers: Seq<Option<Seq<char>>>, i: int) -> Seq<char>
    decreases ls.len() - i,
{
    if i < 0 || i >= ls.len() {
        Seq::empty()
    } else {
        merged_line(ls[i], qs[i], answer_at(answers, i)) + "\n"@ + merged_from(ls, qs, answers, i + 1)
    }
}

/// The template with the saved values merged in.
pub open spec fn merged_spec(template: Seq<char>, answers: Seq<Option<Seq<char>>>) -> Seq<char> {
    merged_from(lines_spec(template), template_queries_spec(template), answers, 0)
}

/// The view of a query.
pub open spec fn query_view(q: Option<(Vec<String>, String)>) -> Option<(Seq<Seq<char>>, Seq<char>)> {
    match q {
        Some(x) => Some((crate::text::views(x.0@), x.1@)),
        None => None,
    }
}

/// The view of an answer.
pub open spec fn answer_view(a: Option<String>) -> Option<Seq<char>> {
    match a {
        Some(x) => Some(x@),
        None => None,
    }
}

/// The section path of the section line `t`.
fn section_path(t: &[char]) -> (r: Vec<String>)
    ensures
        crate::text::views(r@) == section_of(t@),
{
    let a = strip_leading_char(t, '[');
    let b = strip_trailing_char(a.as_slice(), ']');
    let c = trim(b.as_slice());
    let parts = split_char(c.as_slice(), '.');
    let ghost pv = parts@.map_values(|v: Vec<char>| v@);
    let mut out: Vec<String> = Vec::new();
    let mut i: usize = 0;
    while i < parts.len()
        invariant
            i <= parts@.len(),
            pv == parts@.map_values(|v: Vec<char>| v@),
            crate::text::views(out@) == pv.take(i as int).map_values(|p: Seq<char>| trim_spec(p)),
        decreases parts@.len() - i,
    {
        let tp = trim(parts[i].as_slice());
        let ghost before = crate::text::views(out@);
        out.push(from_chars(tp.as_slice()));
        assert(crate::text::views(out@) =~= before.push(tp@));
        assert(pv[i as int] == parts@[i as int]@);
        assert(pv.take(i + 1) =~= pv.take(i as int).push(pv[i as int]));
        assert(crate::text::views(out@) =~= pv.take(i + 1).map_values(|p: Seq<char>| trim_spec(p)));
        i = i + 1;
    }
    assert(pv.take(parts@.len() as int) =~= pv);
    out
}

/// A copy of a section path.
fn copy_path(p: &Vec<String>) -> (r: Vec<String>)
    ensures
        r@ == p@,
{
    let mut r: Vec<String> = Vec::new();
    let mut i: usize = 0;
    while i < p.len()
        invariant
            i <= p@.len(),
            r@ == p@.take(i as int),
        decreases p@.len() - i,
    {
        r.push(p[i].clone());
        assert(r@ =~= p@.take(i + 1));
        i = i + 1;
    }
    assert(p@.take(p@.len() as int) =~= p@);
    r
}

/// For each line of the template, the section and key of the setting it
/// holds (commented out or not), outside commented-out example sections.
pub fn template_queries(template: &str) -> (r: Vec<Option<(Vec<String>, String)>>)
    ensures
        r@.map_values(|q: Option<(Vec<String>, String)>| query_view(q)) == template_queries_spec(template@),
{
    let c = to_chars(template);
    let ls = lines(c.as_slice());
    let ghost lv = ls@.map_values(|v: Vec<char>| v@);
    assert(lv =~= lines_spec(template@));
    let mut section: Vec<String> = Vec::new();
    let mut commented = false;
    let mut out: Vec<Option<(Vec<String>, String)>> = Vec::new();
    let mut i: usize = 0;
    assert(lv.skip(0) =~= lv);
    assert(crate::text::views(section@) =~= Seq::<Seq<char>>::empty());
    proof {
        reveal_strlit("# [");
        reveal_strlit("[");
        reveal_strlit("]");
        reveal_strlit("# ");
    }
    while i < ls.len()
        invariant
            i <= ls@.len(),
            lv == ls@.map_values(|v: Vec<char>| v@),
            "# ["@.len() == 3,
            "# "@.len() == 2,
            template_queries_spec(template@) == out@.map_values(|q: Option<(Vec<String>, String)>| query_view(q))
                + queries_from((crate::text::views(section@), commented), lv.skip(i as int)),
            lv == lines_spec(template@),
        decreases ls@.len() - i,
    {
        let ghost st = (crate::text::views(section@), commented);
        let ghost before = out@.map_values(|q: Option<(Vec<String>, String)>| query_view(q));
        assert(lv.skip(i as int)[0] == ls@[i as int]@);
        assert(lv.skip(i as int).drop_first() =~= lv.skip(i + 1));
        let line = &ls[i];
        let t = trim(line.as_slice());
        let hs = to_chars("# [");
        let ob = to_chars("[");
        let cb = to_chars("]");
        let q: Option<(Vec<String>, String)>;
        if starts_with(t.as_slice(), hs.as_slice()) && ends_with(t.as_slice(), cb.as_slice()) {
            commented = true;
            q = None;
        } else if starts_with(t.as_slice(), ob.as_slice()) && ends_with(t.as_slice(), cb.as_slice()) {
            section = section_path(t.as_slice());
            commented = false;
            q = None;
        } else if commented {
            q = None;
        } else {
            let cm = to_chars("# ");
            let content = if starts_with(t.as_slice(), cm.as_slice()) {
                slice_to_vec(t.as_slice(), 2, t.len())
            } else {
                slice_to_vec(t.as_slice(), 0, t.len())
            };
            assert(content@ =~= if has_prefix(t@, "# "@) { t@.skip(2) } else { t@ });
            match position_of(content.as_slice(), '=') {
                Some(eq) => {
                    let k0 = slice_to_vec(content.as_slice(), 0, eq);
                    let key = trim(k0.as_slice());
                    let p1 = to_chars("[");
                    let p2 = to_chars("#");
                    let p3 = to_chars("//");
                    let p4 = to_chars("─");
                    if starts_with(key.as_slice(), p1.as_slice()) || starts_with(key.as_slice(), p2.as_slice())
                        || starts_with(key.as_slice(), p3.as_slice()) || starts_with(key.as_slice(), p4.as_slice()) {
                        q = None;
                    } else {
                        q = Some((copy_path(&section), from_chars(key.as_slice())));
                    }
                },
                None => {
                    q = None;
                },
            }
        }
        proof {
            let (st2, k) = line_step(st, lv.skip(i as int)[0]);
            assert(st2 == (crate::text::views(section@), commented));
            assert(query_view(q) == match k { Some(key) => Some((st.0, key)), None => None });
        }
        out.push(q);
        assert(out@.map_values(|q: Option<(Vec<String>, String)>| query_view(q)) =~= before.push(query_view(q)));
        i = i + 1;
    }
    assert(lv.skip(i as int) =~= Seq::<Seq<char>>::empty());
    assert(out@.map_values(|q: Option<(Vec<String>, String)>| query_view(q))
        + Seq::<Option<(Seq<Seq<char>>, Seq<char>)>>::empty() =~= out@.map_values(|q: Option<(Vec<String>, String)>| query_view(q)));
    out
}

/// The lengths of the queries and the lines agree.
proof fn lemma_queries_len(st: (Seq<Seq<char>>, bool), ls: Seq<Seq<char>>)
    ensures
        queries_from(st, ls).len() == ls.len(),
    decreases ls.len(),
{
    if ls.len() > 0 {
        let (st2, k) = line_step(st, ls[0]);
        lemma_queries_len(st2, ls.drop_first());
    }
}

/// The template `template` with the saved values merged in: `answers`
/// gives, line by line, the saved value of the setting that
/// `template_queries` found on that line (none: keep the line); such a
/// line becomes `key = value` after its indentation.
pub fn merge_template(template: &str, answers: &Vec<Option<String>>) -> (r: String)
    ensures
        r@ == merged_spec(template@, answers@.map_values(|a: Option<String>| answer_view(a))),
{
    let qs = template_queries(template);
    let c = to_chars(template);
    let ls = lines(c.as_slice());
    let ghost lv = ls@.map_values(|v: Vec<char>| v@);
    let ghost qv = qs@.map_values(|q: Option<(Vec<String>, String)>| query_view(q));
    let ghost av = answers@.map_values(|a: Option<String>| answer_view(a));
    assert(lv =~= lines_spec(template@));
    proof {
        lemma_queries_len((Seq::empty(), false), lv);
    }
    let mut v: Vec<char> = Vec::new();
    let mut i: usize = 0;
    while i < ls.len()
        invariant
            i <= ls@.len(),
            lv == ls@.map_values(|v: Vec<char>| v@),
            qv == qs@.map_values(|q: Option<(Vec<String>, String)>| query_view(q)),
            av == answers@.map_values(|a: Option<String>| answer_view(a)),
            qs@.len() == ls@.len(),
            v@ + merged_from(lv, qv, av, i as int) == merged_from(lv, qv, av, 0),
        decreases ls@.len() - i,
    {
        let ghost before = v@;
        let line = &ls[i];
        let ans: Option<&String> = if i < answers.len() {
            match &answers[i] {
                Some(a) => Some(a),
                None => None,
            }
        } else {
            None
        };
        let mut done = false;
        match &qs[i] {
            Some(q) => {
                match ans {
                    Some(a) => {
                        let n = count_leading_ws(line.as_slice());
                        proof {
                            lemma_leading_count_bound(line@, ws());
                        }
                        let lead = slice_to_vec(line.as_slice(), 0, n);
                        extend_chars(&mut v, lead.as_slice());
                        push_str(&mut v, q.1.as_str());
                        push_str(&mut v, " = ");
                        push_str(&mut v, a.as_str());
                        done = true;
                    },
                    None => {},
                }
            },
            None => {},
        }
        if !done {
            extend_chars(&mut v, line.as_slice());
        }
        push_str(&mut v, "\n");
        proof {
            assert(lv[i as int] == line@);
            assert(answer_at(av, i as int) == match ans { Some(a) => Some(a@), None => None });
            assert(v@ =~= before + (merged_line(lv[i as int], qv[i as int], answer_at(av, i as int)) + "\n"@));
        }
        i = i + 1;
    }
    assert(merged_from(lv, qv, av, i as int) =~= Seq::<char>::empty());
    assert(v@ =~= merged_from(lv, qv, av, 0));
    from_chars(v.as_slice())
}


// ---------------------------------------------------------------------------
// Merging saved settings
// ---------------------------------------------------------------------------

/// Whether `toml::from_str` reads `s` as a TOML value.
pub uninterp spec fn toml_reads_spec(s: Seq<char>) -> bool;

/// The TOML text (`toml::to_string`) of the table under `key` of the table
/// that `toml::from_str` reads from `doc`; none when `doc` does not read,
/// has no member `key`, or that member is no table.
pub uninterp spec fn toml_subtable_spec(doc: Seq<char>, key: Seq<char>) -> Option<Seq<char>>;

/// The TOML text (`toml::to_string`) of a table holding only the member
/// `key` of the table that `toml::from_str` reads from `doc`; none when
/// `doc` does not read or has no member `key`.
pub uninterp spec fn toml_entry_spec(doc: Seq<char>, key: Seq<char>) -> Option<Seq<char>>;

/// Whether `toml::from_str` reads `s` as a TOML value; named `toml_reads_spec`.
#[verifier::external_body]
fn toml_reads(s: &str) -> (r: bool)
    ensures
        r == toml_reads_spec(s@),
{
    toml::from_str::<toml::Value>(s).is_ok()
}

/// The member `key` of the table read from `doc` (`toml::from_str`,
/// `Table::get`), when it is a table, as TOML text (`toml::to_string`);
/// named `toml_subtable_spec`.
#[verifier::external_body]
fn toml_subtable(doc: &str, key: &str) -> (r: Option<String>)
    ensures
        match r {
            Some(t) => toml_subtable_spec(doc@, key@) == Some(t@),
            None => toml_subtable_spec(doc@, key@) is None,
        },
{
    match toml::from_str::<toml::Table>(doc) {
        Ok(t) => match t.get(key) {
            Some(toml::Value::Table(sub)) => toml::to_string(sub).ok(),
            _ => None,
        },
        Err(_) => None,
    }
}

/// The member `key` of the table read from `doc` (`toml::from_str`,
/// `Table::get`), written alone as a TOML table (`toml::to_string`); named
/// `toml_entry_spec`.
#[verifier::external_body]
fn toml_entry(doc: &str, key: &str) -> (r: Option<String>)
    ensures
        match r {
            Some(t) => toml_entry_spec(doc@, key@) == Some(t@),
            None => toml_entry_spec(doc@, key@) is None,
        },
{
    match toml::from_str::<toml::Table>(doc) {
        Ok(t) => match t.get(key) {
            Some(v) => {
                let mut m = toml::Table::new();
                m.insert(key.to_string(), v.clone());
                toml::to_string(&m).ok()
            },
            None => None,
        },
        Err(_) => None,
    }
}

/// The value text of a one-entry TOML text: what follows the first `=` of
/// its first line, trimmed.
pub open spec fn entry_value_spec(text: Seq<char>) -> Option<Seq<char>> {
    let ls = lines_spec(text);
    if ls.len() == 0 {
        None
    } else {
        match index_of_char(ls[0], '=') {
            Some(i) => Some(trim_spec(ls[0].skip(i + 1))),
            None => None,
        }
    }
}

/// The value text of `key` in the section `section` (a path of tables) of
/// the TOML document `doc`, as TOML writes it; none when a table on the
/// path or the key is missing.
pub open spec fn find_value_spec(doc: Seq<char>, section: Seq<Seq<char>>, key: Seq<char>) -> Option<Seq<char>>
    decreases section.len(),
{
    if section.len() == 0 {
        match toml_entry_spec(doc, key) {
            Some(t) => entry_value_spec(t),
            None => None,
        }
    } else {
        match toml_subtable_spec(doc, section[0]) {
            Some(d) => find_value_spec(d, section.drop_first(), key),
            None => None,
        }
    }
}

/// The value text of `key` in the section `section` of the TOML document
/// `doc` (see `find_value_spec`).
pub fn find_value_in_toml(doc: &str, section: &Vec<String>, key: &str) -> (r: Option<String>)
    ensures
        answer_view(r) == find_value_spec(doc@, crate::text::views(section@), key@),
{
    let ghost sv = crate::text::views(section@);
    let d0 = to_chars(doc);
    let mut cur = from_chars(d0.as_slice());
    let mut i: usize = 0;
    assert(sv.skip(0) =~= sv);
    while i < section.len()
        invariant
            i <= section@.len(),
            sv == crate::text::views(section@),
            find_value_spec(cur@, sv.skip(i as int), key@) == find_value_spec(doc@, sv, key@),
        decreases section@.len() - i,
    {
        assert(sv.skip(i as int).drop_first() =~= sv.skip(i + 1));
        assert(sv.skip(i as int)[0] == section@[i as int]@);
        match toml_subtable(cur.as_str(), section[i].as_str()) {
            Some(d) => {
                cur = d;
            },
            None => {
                return None;
            },
        }
        i = i + 1;
    }
    assert(sv.skip(i as int) =~= Seq::<Seq<char>>::empty());
    let text = match toml_entry(cur.as_str(), key) {
        Some(t) => t,
        None => {
            return None;
        },
    };
    let v = to_chars(text.as_str());
    let ls = lines(v.as_slice());
    assert(ls@.map_values(|l: Vec<char>| l@).len() == ls@.len());
    if ls.len() == 0 {
        return None;
    }
    assert(ls@.map_values(|l: Vec<char>| l@)[0] == ls@[0]@);
    let first = &ls[0];
    match position_of(first.as_slice(), '=') {
        Some(e) => {
            let rest = slice_to_vec(first.as_slice(), e + 1, first.len());
            assert(rest@ =~= first@.skip(e + 1));
            let t = trim(rest.as_slice());
            Some(from_chars(t.as_slice()))
        },
        None => None,
    }
}

/// The saved value the template's query `q` finds in the TOML document `doc`.
pub open spec fn answer_spec(doc: Seq<char>, q: Option<(Seq<Seq<char>>, Seq<char>)>) -> Option<Seq<char>> {
    match q {
        Some(x) => find_value_spec(doc, x.0, x.1),
        None => None,
    }
}

/// The template `template` with the settings saved in the compact TOML
/// text `compact` written in: each setting line whose value `compact` holds
/// becomes `key = value`; the template unchanged when `compact` is no TOML.
pub open spec fn merge_with_config_spec(template: Seq<char>, compact: Seq<char>) -> Seq<char> {
    if !toml_reads_spec(compact) {
        template
    } else {
        merged_spec(template, template_queries_spec(template).map_values(
            |q: Option<(Seq<Seq<char>>, Seq<char>)>| answer_spec(compact, q)))
    }
}

/// Merges the settings saved in `compact` into the annotated template
/// (see `merge_with_config_spec`).
pub fn merge_template_with_config(template: &str, compact: &str) -> (r: String)
    ensures
        r@ == merge_with_config_spec(template@, compact@),
{
    if !toml_reads(compact) {
        let c = to_chars(template);
        return from_chars(c.as_slice());
    }
    let qs = template_queries(template);
    let ghost qv = qs@.map_values(|q: Option<(Vec<String>, String)>| query_view(q));
    let mut answers: Vec<Option<String>> = Vec::new();
    let mut i: usize = 0;
    while i < qs.len()
        invariant
            i <= qs@.len(),
            qv == qs@.map_values(|q: Option<(Vec<String>, String)>| query_view(q)),
            answers@.map_values(|a: Option<String>| answer_view(a))
                == qv.take(i as int).map_values(|q: Option<(Seq<Seq<char>>, Seq<char>)>| answer_spec(compact@, q)),
        decreases qs@.len() - i,
    {
        let ghost before = answers@.map_values(|a: Option<String>| answer_view(a));
        let a = match &qs[i] {
            Some(x) => find_value_in_toml(compact, &x.0, x.1.as_str()),
            None => None,
        };
        assert(answer_view(a) == answer_spec(compact@, qv[i as int]));
        answers.push(a);
        assert(answers@.map_values(|a: Option<String>| answer_view(a)) =~= before.push(answer_view(a)));
        assert(qv.take(i + 1).map_values(|q: Option<(Seq<Seq<char>>, Seq<char>)>| answer_spec(compact@, q))
            =~= qv.take(i as int).map_values(|q: Option<(Seq<Seq<char>>, Seq<char>)>| answer_spec(compact@, q))
                .push(answer_spec(compact@, qv[i as int])));
        i = i + 1;
    }
    assert(qv.take(qs@.len() as int) =~= qv);
    merge_template(template, &answers)
}

} // verus!
