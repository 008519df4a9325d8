use rhermes::debug::{push_capped, session_id_from_millis, truncate, MAX_DEBUG_ENTRIES};
use rhermes::path::PathManager;
use rhermes::skill::{RunAs, SkillEngine};
use rhermes::task::{
    apply_skill_manage, memory_refine_result, refine_final_result, refined_body, sub_agent_prompt, sub_agent_result,
    unsupported_tool_note,
};

#[test]
fn test_ring_buffer_capped() {
    let mut ring: Vec<u32> = Vec::new();
    for i in 0..(MAX_DEBUG_ENTRIES as u32 + 10) {
        push_capped(&mut ring, i, MAX_DEBUG_ENTRIES);
    }
    assert_eq!(ring.len(), MAX_DEBUG_ENTRIES);
    assert_eq!(*ring.last().unwrap(), MAX_DEBUG_ENTRIES as u32 + 9);
    assert_eq!(ring[0], 10);
}

#[test]
fn test_session_id_non_empty() {
    assert!(!session_id_from_millis(1_700_000_000_000).is_empty());
}

#[test]
fn truncate_cuts_bytes() {
    assert_eq!(truncate("hello", 10), "hello");
    assert_eq!(truncate("hello world", 5), "hello...（截断）");
}

#[test]
fn test_sub_paths() {
    let p = PathManager::with_root("/opt/app".to_string());
    assert_eq!(p.data_root(), "/opt/app/home");
    assert_eq!(p.config_path(), "/opt/app/config.toml");
    assert_eq!(p.memory_db_path(), "/opt/app/home/memory.db");
    assert_eq!(p.skills_dir(), "/opt/app/home/skills");
    assert_eq!(p.sessions_dir(), "/opt/app/home/sessions");
    assert_eq!(p.logs_dir(), "/opt/app/home/logs");
    assert_eq!(p.cache_dir(), "/opt/app/home/cache");
    assert_eq!(p.workspace_dir(), "/opt/app/home/workspace");
    assert_eq!(p.standard_dirs().len(), 6);
}

#[test]
fn sub_agent_results() {
    let r = sub_agent_result(Ok(Some(Some("done".to_string()))), 12);
    assert_eq!(r.output, "done");
    assert!(r.success);
    assert_eq!(r.duration_ms, 12);
    let r = sub_agent_result(Ok(None), 1);
    assert_eq!(r.output, "子 Agent 未返回结果");
    assert!(!r.success);
    let r = sub_agent_result(Err("timeout".to_string()), 1);
    assert_eq!(r.output, "子 Agent 执行失败: timeout");
    let r = memory_refine_result(Ok(Some(Some("Nothing to save.".to_string()))), 3);
    assert!(!r.success);
    assert_eq!(r.output, "记忆审查: Nothing to save.");
    assert!(refine_final_result("已创建".to_string(), 0).success);
    assert!(!refine_final_result("创建失败".to_string(), 0).success);
    assert!(sub_agent_prompt("T", "C").contains("## 任务\nT\n\n## 上下文\nC"));
    assert_eq!(unsupported_tool_note("x"), "工具「x」执行失败（自动提炼仅支持 skill_manage）");
}

#[test]
fn skill_manage_creates_then_updates() {
    let mut engine = SkillEngine::new("skills");
    let note = apply_skill_manage(&mut engine, "fix-bug", "修 bug", "步骤", None);
    assert_eq!(note, "已创建技能「fix-bug」");
    let s = engine.get("fix-bug").unwrap();
    assert_eq!(s.run_as, RunAs::Subagent);
    assert_eq!(s.body, refined_body("fix-bug", "修 bug", "步骤"));
    let note = apply_skill_manage(&mut engine, "fix-bug", "新描述", "新步骤", None);
    assert_eq!(note, "已更新技能「fix-bug」");
    assert_eq!(engine.get("fix-bug").unwrap().description, "新描述");
    assert_eq!(engine.get("fix-bug").unwrap().body, "新步骤");
    assert_eq!(engine.count(), 1);
}
