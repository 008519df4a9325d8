use rhermes::guardrails::{NudgeBuilder, ParamDef, ResponseValidator, ToolSpec, ValidationError};
use rhermes::repair::RepairedToolCall;

fn spec(name: &str, params: &[(&str, bool)]) -> ToolSpec {
    ToolSpec {
        name: name.to_string(),
        parameters: params.iter().map(|(n, r)| ParamDef { name: n.to_string(), required: *r }).collect(),
    }
}

fn setup_validator() -> (ResponseValidator, Vec<String>) {
    let tools = vec![
        spec("read_file", &[("path", true), ("offset", false)]),
        spec("write_file", &[("path", true), ("content", true)]),
    ];
    (ResponseValidator::new(tools), vec!["read_file".to_string(), "write_file".to_string()])
}

fn call(id: &str, name: &str, args: &str) -> RepairedToolCall {
    RepairedToolCall { id: id.to_string(), name: name.to_string(), arguments: serde_json::to_string(&serde_json::from_str::<serde_json::Value>(args).unwrap()).unwrap() }
}

#[test]
fn test_valid_tool_call_passes() {
    let (validator, _) = setup_validator();
    let result = validator.validate(&[call("test1", "read_file", r#"{"path": "test.txt"}"#)]);
    assert!(result.is_ok());
    assert_eq!(result.valid_calls.len(), 1);
}

#[test]
fn test_unknown_tool_blocked() {
    let (validator, _) = setup_validator();
    let result = validator.validate(&[call("test2", "nonexistent_tool", "{}")]);
    assert!(!result.is_ok());
    assert_eq!(result.errors.len(), 1);
    match &result.errors[0] {
        ValidationError::UnknownTool(name) => assert_eq!(name, "nonexistent_tool"),
        _ => panic!("expected UnknownTool"),
    }
}

#[test]
fn test_missing_required_param_blocked() {
    let (validator, _) = setup_validator();
    let result = validator.validate(&[call("test3", "read_file", "{}")]);
    assert!(!result.is_ok());
    assert_eq!(result.errors.len(), 1);
    match &result.errors[0] {
        ValidationError::MissingRequiredParam { tool, param } => {
            assert_eq!(tool, "read_file");
            assert_eq!(param, "path");
        }
        _ => panic!("expected MissingRequiredParam"),
    }
}

#[test]
fn test_nudge_builder_unknown_tool() {
    let (_, names) = setup_validator();
    let errors = vec![ValidationError::UnknownTool("bad_tool".into())];
    let nudge = NudgeBuilder::build(&errors, &names);
    assert!(nudge.contains("校验失败"));
    assert!(nudge.contains("bad_tool"));
    assert!(nudge.contains("可用工具"));
}

#[test]
fn test_nudge_builder_missing_param() {
    let (_, names) = setup_validator();
    let errors = vec![ValidationError::MissingRequiredParam { tool: "write_file".into(), param: "path".into() }];
    let nudge = NudgeBuilder::build(&errors, &names);
    assert!(nudge.contains("write_file"));
    assert!(nudge.contains("path"));
}

#[test]
fn test_nudge_builder_empty() {
    let (_, names) = setup_validator();
    let nudge = NudgeBuilder::build(&[], &names);
    assert!(nudge.is_empty());
}

#[test]
fn nudge_exact_text() {
    let (_, names) = setup_validator();
    let errors = vec![ValidationError::UnknownTool("x".into())];
    assert_eq!(
        NudgeBuilder::build(&errors, &names),
        "⚠️ 工具调用校验失败，请修正后重试：\n  ❌ 工具 'x' 不存在。可用工具: read_file, write_file"
    );
}

#[test]
fn validator_optional_param_not_needed() {
    let (validator, _) = setup_validator();
    let result = validator.validate(&[
        call("a", "write_file", r#"{"path": "p"}"#),
        call("b", "read_file", r#"{"path": "p"}"#),
    ]);
    assert_eq!(result.valid_calls.len(), 1);
    assert_eq!(result.valid_calls[0].id, "b");
    assert_eq!(result.errors.len(), 1);
}

#[test]
fn validator_reports_each_missing_param_and_keeps_valid_calls() {
    let (validator, _) = setup_validator();
    let result = validator.validate(&[
        call("a", "write_file", r#"{"content": "x"}"#),
        call("b", "read_file", r#"{"path": "p", "offset": 3}"#),
        call("c", "write_file", "{}"),
    ]);
    assert_eq!(result.valid_calls.len(), 1);
    assert_eq!(result.valid_calls[0].id, "b");
    assert_eq!(result.valid_calls[0].arguments, r#"{"offset":3,"path":"p"}"#);
    let params: Vec<String> = result
        .errors
        .iter()
        .map(|e| match e {
            ValidationError::MissingRequiredParam { tool, param } => format!("{}.{}", tool, param),
            ValidationError::UnknownTool(n) => n.clone(),
        })
        .collect();
    assert_eq!(params, vec!["write_file.path", "write_file.path", "write_file.content"]);
}

#[test]
fn nudge_has_heading_and_one_line_per_error() {
    let errors = vec![
        ValidationError::UnknownTool("x".to_string()),
        ValidationError::MissingRequiredParam { tool: "write_file".to_string(), param: "path".to_string() },
    ];
    let text = NudgeBuilder::build(&errors, &vec!["read_file".to_string()]);
    let lines: Vec<&str> = text.lines().collect();
    assert_eq!(lines.len(), errors.len() + 1);
    assert_eq!(lines[0], "⚠️ 工具调用校验失败，请修正后重试：");
    assert!(lines[1].contains("x") && lines[1].contains("可用工具"));
    assert_eq!(lines[2], "  ❌ 工具 'write_file' 缺少必填参数 'path'");
}
