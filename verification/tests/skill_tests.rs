use rhermes::skill::{parse_skill_markdown, render_skill_markdown, RunAs, Skill, SkillEngine, SkillError};

fn dummy_skill() -> Skill {
    Skill {
        name: "dummy".into(),
        category: None,
        description: "".into(),
        body: "".into(),
        run_as: RunAs::Inline,
        allowed_tools: vec![],
        model: None,
        use_count: 0,
        success_count: 0,
        fail_count: 0,
        last_used: None,
        total_duration_ms: 0,
    }
}

fn setup_engine() -> SkillEngine {
    SkillEngine::new("data/skills")
}

#[test]
fn test_create_and_get() {
    let mut engine = setup_engine();
    engine.create("test-skill", "测试技能", "执行步骤 1\n步骤 2", RunAs::Inline).unwrap();
    let skill = engine.get("test-skill").unwrap();
    assert_eq!(skill.description, "测试技能");
    assert_eq!(skill.run_as, RunAs::Inline);
}

#[test]
fn test_create_duplicate() {
    let mut engine = setup_engine();
    engine.create("dup", "test", "body", RunAs::Inline).unwrap();
    let err = engine.create("dup", "test", "body", RunAs::Inline).unwrap_err();
    assert!(matches!(err, SkillError::AlreadyExists(_)));
}

#[test]
fn skill_test_delete() {
    let mut engine = setup_engine();
    engine.create("del-me", "test", "body", RunAs::Inline).unwrap();
    assert!(engine.delete("del-me"));
    assert!(!engine.delete("nonexistent"));
}

#[test]
fn test_list_and_count() {
    let mut engine = setup_engine();
    assert_eq!(engine.count(), 0);
    engine.create("a", "skill a", "body", RunAs::Inline).unwrap();
    engine.create("b", "skill b", "body", RunAs::Subagent).unwrap();
    assert_eq!(engine.count(), 2);
    assert_eq!(engine.list().len(), 2);
}

#[test]
fn skill_test_search() {
    let mut engine = setup_engine();
    engine.create("rust-helper", "Rust 编程助手", "body", RunAs::Inline).unwrap();
    engine.create("python-helper", "Python 助手", "body", RunAs::Inline).unwrap();
    assert_eq!(engine.search("rust").len(), 1);
    assert_eq!(engine.search("helper").len(), 2);
    assert_eq!(engine.search("nonexistent").len(), 0);
}

#[test]
fn test_record_usage() {
    let mut engine = setup_engine();
    engine.create("test", "test", "body", RunAs::Inline).unwrap();
    engine.record_usage("test", true, 100).unwrap();
    engine.record_usage("test", true, 200).unwrap();
    engine.record_usage("test", false, 50).unwrap();
    let skill = engine.get("test").unwrap();
    assert_eq!(skill.use_count, 3);
    assert_eq!(skill.success_count, 2);
    assert_eq!(skill.fail_count, 1);
    assert_eq!(skill.avg_duration_ms(), 116);
    assert!(matches!(engine.record_usage("missing", true, 1), Err(SkillError::NotFound(_))));
}

#[test]
fn test_success_rate() {
    let skill = Skill { use_count: 10, success_count: 8, fail_count: 2, total_duration_ms: 1000, ..dummy_skill() };
    assert!(skill.is_healthy());
    assert!(!skill.needs_attention());
}

#[test]
fn test_needs_attention() {
    let skill = Skill { use_count: 10, success_count: 2, fail_count: 8, total_duration_ms: 1000, ..dummy_skill() };
    assert!(skill.needs_attention());
    assert!(!skill.is_healthy());
}

#[test]
fn skill_unused_is_neither_healthy_nor_failing() {
    let skill = dummy_skill();
    assert!(!skill.is_healthy());
    assert!(!skill.needs_attention());
    assert_eq!(skill.avg_duration_ms(), 0);
}

#[test]
fn test_frontmatter_parsing() {
    let content = r#"---
description: "代码审查"
run_as: subagent
allowed_tools: [read_file, search_content]
model: deepseek-v4-pro
---

审查步骤：
1. 读取文件
2. 检查安全性
"#;
    let skill = parse_skill_markdown(content, "skills/code-review.md");
    assert_eq!(skill.name, "code-review");
    assert_eq!(skill.description, "代码审查");
    assert_eq!(skill.run_as, RunAs::Subagent);
    assert_eq!(skill.allowed_tools.len(), 2);
    assert_eq!(skill.model.as_deref(), Some("deepseek-v4-pro"));
}

#[test]
fn test_load_rejects_invalid_name() {
    let mut engine = setup_engine();
    let err = engine.create("invalid name!!!", "test", "body", RunAs::Inline).unwrap_err();
    assert!(matches!(err, SkillError::InvalidName(_)));
}

#[test]
fn test_reload_from_disk() {
    let mut engine = setup_engine();
    engine.create("persist", "持久化技能", "内容", RunAs::Inline).unwrap();
    let path = engine.skill_path("persist").unwrap();
    let text = render_skill_markdown(engine.get("persist").unwrap());
    let mut engine2 = setup_engine();
    engine2.reload(&vec![(path, text)]);
    assert_eq!(engine2.count(), 1);
    assert_eq!(engine2.get("persist").unwrap().description, "持久化技能");
    assert_eq!(engine2.get("persist").unwrap().body, "内容");
}

#[test]
fn run_as_names() {
    assert_eq!(RunAs::from_str("  SubAgent "), RunAs::Subagent);
    assert_eq!(RunAs::from_str("other"), RunAs::Inline);
    assert_eq!(RunAs::Subagent.as_str(), "subagent");
}

#[test]
fn list_orders_by_use() {
    let mut engine = setup_engine();
    engine.create("a", "a", "b", RunAs::Inline).unwrap();
    engine.create("b", "b", "b", RunAs::Inline).unwrap();
    engine.record_usage("b", true, 1).unwrap();
    let l = engine.list();
    assert_eq!(l[0].name, "b");
    assert_eq!(l[1].name, "a");
}

#[test]
fn skill_file_round_trip_keeps_fields() {
    let k = Skill {
        name: "deploy".into(),
        category: Some("ops".into()),
        description: "Ship the build: tag, push".into(),
        body: "1. tag\n2. push".into(),
        run_as: RunAs::Subagent,
        allowed_tools: vec!["shell".into(), "read_file".into(), "web search".into()],
        model: Some("deepseek-chat".into()),
        use_count: 7,
        success_count: 5,
        fail_count: 2,
        last_used: Some("2024-05-01T10:00:00+00:00".into()),
        total_duration_ms: 1234,
    };
    let text = render_skill_markdown(&k);
    let back = rhermes::skill::parse_skill_markdown_with(&text, "from_path", None);
    assert_eq!(back.name, "from_path");
    assert_eq!(back.category.as_deref(), Some("ops"));
    assert_eq!(back.description, k.description);
    assert_eq!(back.body, k.body);
    assert_eq!(back.run_as, RunAs::Subagent);
    assert_eq!(back.allowed_tools, k.allowed_tools);
    assert_eq!(back.model, k.model);
    assert_eq!(back.use_count, 0);
    assert_eq!(back.last_used, None);
}

#[test]
fn skill_file_round_trip_without_optional_fields() {
    let mut k = dummy_skill();
    k.description = "plain".into();
    k.body = "body".into();
    let text = render_skill_markdown(&k);
    let back = rhermes::skill::parse_skill_markdown_with(&text, "dummy", Some("hint"));
    assert_eq!(back.category.as_deref(), Some("hint"));
    assert_eq!(back.description, "plain");
    assert_eq!(back.body, "body");
    assert!(back.allowed_tools.is_empty());
    assert_eq!(back.model, None);
    assert_eq!(back.run_as, RunAs::Inline);
}
