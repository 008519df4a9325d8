use rhermes::config::{ApiConfig, ProviderConfig};
use rhermes::router::{
    routes_of, sink_kind, teacher_command, Route, SinkKind, TeacherOp,
    apply_model_switch, first_token, is_binary_doc, kb_command_of, learn_arg, learn_request, model_command_of,
    model_list_text, model_reply, sanitize_filename, session_key, stop_kickoff, study_parts, KbCommand, LearnKind,
    ModelCommand,
};

#[test]
fn session_keys() {
    assert_eq!(session_key("wechat", "u1", ""), "wechat:u1");
    assert_eq!(session_key("qq", "g", "#c1"), "qq:g#c1");
}

#[test]
fn kb_commands() {
    assert_eq!(kb_command_of("  /learn rust "), Some(KbCommand::Learn));
    assert_eq!(kb_command_of("/learn"), Some(KbCommand::Learn));
    assert_eq!(kb_command_of("/learner"), None);
    assert_eq!(kb_command_of("/总结"), Some(KbCommand::Summary));
    assert_eq!(kb_command_of("/summary now"), Some(KbCommand::Summary));
    assert_eq!(kb_command_of("/stop"), Some(KbCommand::Stop));
    assert_eq!(kb_command_of("hello"), None);
}

#[test]
fn learn_arguments() {
    assert_eq!(learn_arg(" /learn  rust 基础 "), "rust 基础");
    assert_eq!(first_token("rust 基础"), "rust");
    let r = learn_request("rust 所有权", false);
    assert_eq!(r.kind, LearnKind::Name);
    assert_eq!(r.token, "rust");
    assert_eq!(r.rest, "所有权");
    let r = learn_request("notes.md 重点", false);
    assert_eq!(r.kind, LearnKind::File);
    assert_eq!(r.token, "notes.md");
    assert_eq!(r.rest, "重点");
    assert_eq!(learn_request("docs", true).kind, LearnKind::File);
    assert_eq!(learn_request("list", false).kind, LearnKind::List);
    assert_eq!(learn_request("导出 x", false).kind, LearnKind::Export);
    assert_eq!(learn_request("import a.json", false).kind, LearnKind::Import);
    assert_eq!(learn_request("reset x", false).kind, LearnKind::Reset);
    assert_eq!(learn_request("", false).kind, LearnKind::Usage);
}

#[test]
fn model_commands() {
    assert!(matches!(model_command_of("/model"), ModelCommand::Show));
    assert!(matches!(model_command_of("/model set  glm-5 "), ModelCommand::Switch(m) if m == "glm-5"));
    assert!(matches!(model_command_of("/model set  "), ModelCommand::Usage));
    assert!(matches!(model_command_of("/model list"), ModelCommand::List));
    assert!(matches!(model_command_of("/model what"), ModelCommand::Usage));
    let r = model_reply(&ModelCommand::Show, "deepseek-v4-flash", &vec![]);
    assert_eq!(r, "当前模型: deepseek-v4-flash\n切换: /model set <模型名称>\n列表: /model list");
    let r = model_reply(&ModelCommand::Switch("x".to_string()), "", &vec![]);
    assert_eq!(r, "✅ 模型已切换为: x（已立即生效）");
}

#[test]
fn model_list_lines() {
    let mut keyed = ProviderConfig::default();
    keyed.api_key = "k".to_string();
    keyed.model = Some("glm-5.1".to_string());
    let providers = vec![
        ("zhipu".to_string(), keyed),
        ("openai".to_string(), ProviderConfig::default()),
        ("ollama".to_string(), ProviderConfig::default()),
    ];
    assert_eq!(
        model_list_text(&providers),
        "可用模型列表:\n  · zhipu: glm-5.1\n  · ollama: (使用默认模型)\n切换: /model set <模型名称>"
    );
    assert_eq!(model_list_text(&vec![]), "可用模型列表:\n(无已配置的 provider)\n切换: /model set <模型名称>");
}

#[test]
fn model_switch_updates_settings() {
    let mut api = ApiConfig::default();
    let mut providers = vec![("deepseek".to_string(), ProviderConfig::default())];
    apply_model_switch(&mut api, &mut providers, "", "deepseek-v4-pro");
    assert_eq!(api.model, "deepseek-v4-pro");
    assert_eq!(providers[0].1.model.as_deref(), Some("deepseek-v4-pro"));
    apply_model_switch(&mut api, &mut providers, "zhipu", "glm");
    assert_eq!(api.model, "glm");
    assert_eq!(providers[0].1.model.as_deref(), Some("deepseek-v4-pro"));
}

#[test]
fn documents_and_file_names() {
    assert!(is_binary_doc("pdf"));
    assert!(is_binary_doc("tiff"));
    assert!(!is_binary_doc("md"));
    assert_eq!(sanitize_filename("我的 笔记(1).md"), "我的_笔记_1__md");
}

#[test]
fn study_material_parts() {
    assert!(study_parts("short").is_none());
    let line = "x".repeat(9999);
    let text = format!("{line}\n{line}\n{line}\n");
    let parts = study_parts(&text).unwrap();
    assert_eq!(parts.len(), 2);
    assert_eq!(parts[0], format!("{line}\n{line}\n"));
    assert_eq!(parts[1], format!("{line}\n"));
    assert_eq!(parts.concat(), text);
}

#[test]
fn kickoff_names_topic() {
    assert!(stop_kickoff("rust").starts_with("[系统] 用户结束了「rust」的学习。请调用 kb_stats(topic=\"rust\""));
}

#[test]
fn routes_follow_dispatch_order() {
    assert_eq!(routes_of("/sw CS101"), vec![Route::CourseSwitch, Route::Edu, Route::Chat]);
    assert_eq!(routes_of("/model list"), vec![Route::ModelCommand, Route::Edu, Route::Chat]);
    assert_eq!(routes_of("  /learn rust "), vec![Route::Kb(KbCommand::Learn)]);
    assert_eq!(routes_of("/总结"), vec![Route::Kb(KbCommand::Summary)]);
    assert_eq!(routes_of("/stop"), vec![Route::Kb(KbCommand::Stop)]);
    assert_eq!(routes_of("hello"), vec![Route::Edu, Route::Chat]);
}

#[test]
fn sink_kind_by_channel() {
    assert_eq!(sink_kind("tui", true), SinkKind::Tui);
    assert_eq!(sink_kind("tui", false), SinkKind::Channel);
    assert_eq!(sink_kind("telegram", true), SinkKind::Telegram);
    assert_eq!(sink_kind("qq", false), SinkKind::Channel);
}

#[test]
fn teacher_command_parses_arguments() {
    let c = teacher_command("/course create CS101 编程").unwrap().unwrap();
    assert_eq!(c.op, TeacherOp::CreateCourse);
    assert_eq!(c.args, vec!["CS101".to_string(), "编程".to_string()]);
    let c = teacher_command("/lesson create CS101 一班 x 变量").unwrap().unwrap();
    assert_eq!(c.op, TeacherOp::CreateLesson);
    assert_eq!(c.number, 1);
    assert_eq!(c.args, vec!["CS101".to_string(), "一班".to_string(), "变量".to_string()]);
    let c = teacher_command("/lesson create CS101 一班 3").unwrap().unwrap();
    assert_eq!(c.number, 3);
    assert_eq!(c.args[2], "");
    let c = teacher_command("/set CS101 一班 desc 入门 课程").unwrap().unwrap();
    assert_eq!(c.op, TeacherOp::SetField);
    assert_eq!(c.args[3], "入门 课程");
    let c = teacher_command("/course list").unwrap().unwrap();
    assert_eq!(c.op, TeacherOp::ListCourses);
    assert!(c.args.is_empty());
}

#[test]
fn teacher_command_usage_and_unknown() {
    assert_eq!(teacher_command("/course create CS101").unwrap().unwrap_err(), "用法: /course create <课程码> <课程名>");
    assert_eq!(teacher_command("/course").unwrap().unwrap_err(), "用法: /course <create <码> <名> | list>");
    assert_eq!(teacher_command("/student remove 1").unwrap().unwrap_err(), "用法: /student add <学号> <姓名> <课程码> <班级名>");
    assert_eq!(teacher_command("/roster").unwrap().unwrap_err(), "用法: /roster <课程码>");
    assert!(teacher_command("/set a b").unwrap().unwrap_err().starts_with("用法: /set <课程码> <班级名> <字段> <值>\n字段:\n  tools"));
    assert!(teacher_command("/help").is_none());
    assert!(teacher_command("").is_none());
}

#[test]
fn teacher_reply_texts() {
    let c = teacher_command("/import CS101 一班").unwrap().unwrap();
    assert_eq!(
        rhermes::router::teacher_reply(&c, Ok(vec![])),
        "✅ 课程 CS101 已导入到「一班」\n该头现在可以独立修改课程参数，不影响其他头。\n修改: /set CS101 一班 <tools|desc|modes> <值>"
    );
    let c = teacher_command("/course list").unwrap().unwrap();
    assert_eq!(rhermes::router::teacher_reply(&c, Ok(vec![])), "（无课程）");
    assert_eq!(
        rhermes::router::teacher_reply(&c, Ok(vec![("A".to_string(), "a".to_string()), ("B".to_string(), "b".to_string())])),
        "  A a\n  B b\n"
    );
    assert_eq!(rhermes::router::teacher_reply(&c, Err("db".to_string())), "❌ db");
    let c = teacher_command("/set CS101 一班 desc x").unwrap().unwrap();
    assert_eq!(
        rhermes::router::teacher_reply(&c, Ok(vec![])),
        "✅ 「一班」的课程 CS101 已更新: desc\n（此修改只影响该头，不影响其他头和课程模板）"
    );
}
