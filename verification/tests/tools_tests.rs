use rhermes::tools::default_tools;

#[test]
fn default_tools_lists_every_builtin_tool() {
    let tools = default_tools();
    let names: Vec<&str> = tools.iter().map(|t| t.function.name.as_str()).collect();
    assert_eq!(
        names,
        vec![
            "read_file", "write_file", "search_content", "run_command", "glob", "get_current_time", "web_search",
            "web_fetch", "skill_list", "skill_search", "skill_create", "skill_patch", "run_skill", "delegate_task",
            "read_pdf", "skill_manage", "memory",
        ]
    );
    for t in &tools {
        assert_eq!(t.tool_type, "function");
        assert_eq!(t.function.parameters["type"], "object");
        assert!(!t.function.description.is_empty());
    }
}

#[test]
fn default_tools_read_file_schema() {
    let tools = default_tools();
    let expected: serde_json::Value = serde_json::from_str(
        r#"{"type":"object","properties":{"path":{"type":"string","description":"文件路径"},"head":{"type":"integer","description":"只返回前 N 行"},"tail":{"type":"integer","description":"只返回后 N 行"},"range":{"type":"string","description":"行范围如 50-100"}},"required":["path"]}"#,
    )
    .unwrap();
    assert_eq!(tools[0].function.parameters, expected);
    assert_eq!(tools[0].function.description, "读取文件内容，支持 head/tail/range 参数");
}
