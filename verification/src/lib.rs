//! Verified core of the RHermes agent: prompt context, repair pipeline,
//! cost tiers, skills, memory orchestration and channel helpers.

pub mod text;
pub mod api;
pub mod json;
pub mod context;
pub mod prefix_cache;
pub mod cost;
pub mod repair;
pub mod channel;
pub mod session;
pub mod skill;
pub mod memory;
pub mod memory_manager;
pub mod curator;
pub mod guardrails;
pub mod config;
pub mod path;
pub mod debug;
pub mod task;
pub mod telegram;
pub mod qq;
pub mod stream;
pub mod router;
pub mod wechat;
pub mod flatten;
pub mod template;
pub mod agent_loop;
pub mod wecom;
pub mod skill_file;
pub mod sink;
pub mod tools;
