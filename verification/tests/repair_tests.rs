use rhermes::repair::{
    RepairAction, RepairPipeline, RepairedToolCall, ScavengeRepair, StormSuppression, TruncationRepair,
};

fn call(id: &str, name: &str, args: &str) -> RepairedToolCall {
    RepairedToolCall {
        id: id.to_string(),
        name: name.to_string(),
        arguments: serde_json::to_string(&serde_json::from_str::<serde_json::Value>(args).unwrap()).unwrap(),
    }
}

fn args_value(c: &RepairedToolCall) -> serde_json::Value {
    serde_json::from_str(&c.arguments).unwrap()
}

#[test]
fn test_scavenge_tool_call_tag() {
    let text = r#"我先思考一下。<tool_call>{"name": "read_file", "arguments": {"path": "test.txt"}}</tool_call>然后继续。"#;
    let calls = ScavengeRepair::scavenge(text);
    assert_eq!(calls.len(), 1);
    assert_eq!(calls[0].name, "read_file");
}

#[test]
fn test_scavenge_json_block() {
    let text = r#"让我用 JSON 格式输出：
```json
{"name": "search_content", "arguments": {"pattern": "foo"}}
```"#;
    let calls = ScavengeRepair::scavenge(text);
    assert_eq!(calls.len(), 1);
    assert_eq!(calls[0].name, "search_content");
}

#[test]
fn test_scavenge_no_false_positive() {
    let text = "这是一个普通回复，没有工具调用。";
    let calls = ScavengeRepair::scavenge(text);
    assert!(calls.is_empty());
}

#[test]
fn scavenge_reads_thinking_block() {
    let text = r#"<think>I will call {"name": "list_dir", "arguments": {"path": "."}}</think>done"#;
    let calls = ScavengeRepair::scavenge(text);
    assert_eq!(calls.len(), 1);
    assert_eq!(calls[0].name, "list_dir");
    assert_eq!(args_value(&calls[0])["path"], ".");
    assert_eq!(
        ScavengeRepair::extract_think_block(text),
        Some(r#"I will call {"name": "list_dir", "arguments": {"path": "."}}"#.to_string())
    );
}

#[test]
fn scavenge_parse_tool_call_needs_name() {
    assert!(ScavengeRepair::parse_tool_call(r#"{"arguments": {}}"#).is_none());
    assert!(ScavengeRepair::parse_tool_call(r#"{"name": "x"}"#).is_none());
    let c = ScavengeRepair::parse_tool_call(r#"{"name": "x", "arguments": "{\"k\": 1}"}"#).unwrap();
    assert_eq!(c.name, "x");
    assert_eq!(c.id, "scavenged_x");
    assert_eq!(args_value(&c)["k"], 1);
    assert_eq!(c.arguments, r#"{"k":1}"#);
}

#[test]
fn test_truncation_no_truncation() {
    let text = r#"{"name": "read_file", "arguments": {"path": "test.txt"}}"#;
    let repaired = TruncationRepair::repair(text);
    assert_eq!(repaired, text);
}

#[test]
fn test_truncation_missing_brace() {
    let text = r#"{"name": "read_file", "arguments": {"path": "test.txt""#;
    let repaired = TruncationRepair::repair(text);
    assert!(repaired.ends_with('}'));
    assert!(serde_json::from_str::<serde_json::Value>(&repaired).is_ok());
}

#[test]
fn test_truncation_is_truncated() {
    assert!(TruncationRepair::is_truncated("{{}"));
    assert!(TruncationRepair::is_truncated("{[}"));
    assert!(!TruncationRepair::is_truncated("{}"));
    assert!(!TruncationRepair::is_truncated("normal text"));
}

#[test]
fn truncation_closes_open_string_and_brackets() {
    assert_eq!(TruncationRepair::repair(r#"{"a": ["x"#), r#"{"a": ["x"]}"#);
}

#[test]
fn truncation_inside_string_value_gives_json() {
    let repaired = TruncationRepair::repair(r#"{"path": "te"#);
    assert_eq!(repaired, r#"{"path": "te"}"#);
    assert!(serde_json::from_str::<serde_json::Value>(&repaired).is_ok());
}

#[test]
fn test_storm_allows_first_call() {
    let mut storm = StormSuppression::default();
    let calls = vec![call("call_1", "read_file", r#"{"path": "test.txt"}"#)];
    let (allowed, suppressed) = storm.filter(calls);
    assert_eq!(allowed.len(), 1);
    assert!(!suppressed);
}

#[test]
fn test_storm_suppresses_duplicate() {
    let mut storm = StormSuppression::new(60, 1);
    let c = call("call_1", "read_file", r#"{"path": "test.txt"}"#);
    let (allowed, _) = storm.filter(vec![c.clone()]);
    assert_eq!(allowed.len(), 1);
    let (allowed2, suppressed) = storm.filter(vec![c]);
    assert_eq!(allowed2.len(), 0);
    assert!(suppressed);
}

#[test]
fn test_storm_allows_different_args() {
    let mut storm = StormSuppression::new(60, 1);
    let call1 = call("call_1", "read_file", r#"{"path": "a.txt"}"#);
    let call2 = call("call_2", "read_file", r#"{"path": "b.txt"}"#);
    let (allowed, _) = storm.filter(vec![call1]);
    assert_eq!(allowed.len(), 1);
    let (allowed2, suppressed) = storm.filter(vec![call2]);
    assert_eq!(allowed2.len(), 1);
    assert!(!suppressed);
}

#[test]
fn test_storm_suppressed_count() {
    let mut storm = StormSuppression::new(60, 1);
    let c = call("call_1", "test", r#"{"x": 1}"#);
    storm.filter(vec![c.clone()]);
    storm.filter(vec![c]);
    assert_eq!(storm.suppressed_count(), 1);
}

#[test]
fn storm_filter_at_expires_old_entries() {
    let mut storm = StormSuppression::new(1, 1);
    let c = call("c", "t", "{}");
    let (a, s) = storm.filter_at(vec![c.clone()], vec!["{}".to_string()], 0);
    assert_eq!(a.len(), 1);
    assert!(!s);
    let (a, s) = storm.filter_at(vec![c.clone()], vec!["{}".to_string()], 500_000_000);
    assert_eq!(a.len(), 0);
    assert!(s);
    let (a, s) = storm.filter_at(vec![c], vec!["{}".to_string()], 3_000_000_000);
    assert_eq!(a.len(), 1);
    assert!(!s);
    assert_eq!(storm.suppressed_count(), 1);
}

#[test]
fn test_pipeline_scavenge_and_storm() {
    let mut pipeline = RepairPipeline::new(60, 1);
    let text = r#"<tool_call>{"name": "read_file", "arguments": {"path": "a.txt"}}</tool_call>"#;
    let result = pipeline.repair(text);
    assert_eq!(result.tool_calls.len(), 1);
    assert_eq!(result.tool_calls[0].name, "read_file");
}

#[test]
fn test_pipeline_deduplicates() {
    let mut pipeline = RepairPipeline::new(60, 1);
    let text = r#"<tool_call>{"name": "read_file", "arguments": {"path": "a.txt"}}</tool_call>"#;
    let r1 = pipeline.repair(text);
    assert_eq!(r1.tool_calls.len(), 1);
    let r2 = pipeline.repair(text);
    assert_eq!(r2.tool_calls.len(), 0);
    assert!(r2.injected_reflection);
}

#[test]
fn test_pipeline_truncation_repair() {
    let mut pipeline = RepairPipeline::new(5, 1);
    let text = "一些思考内容 {\"name\": \"read_file\"";
    let result = pipeline.repair(text);
    assert!(result.actions.contains(&RepairAction::TruncationFixed));
}

#[test]
fn pipeline_records_scavenged_names() {
    let mut pipeline = RepairPipeline::default();
    let text = r#"<tool_call>{"name": "grep", "arguments": {}}</tool_call>"#;
    let result = pipeline.repair(text);
    assert_eq!(result.actions, vec![RepairAction::Scavenged("grep".to_string())]);
    assert_eq!(result.content.as_deref(), Some(text));
    assert!(!result.injected_reflection);
}

#[test]
fn scavenge_recovers_exact_arguments() {
    let text = r#"我先思考一下。<tool_call>{"name": "read_file", "arguments": {"path": "test.txt"}}</tool_call>然后继续。"#;
    let calls = ScavengeRepair::scavenge(text);
    assert_eq!(calls.len(), 1);
    assert_eq!(calls[0].id, "scavenged_read_file");
    assert_eq!(calls[0].arguments, r#"{"path":"test.txt"}"#);
}

#[test]
fn scavenge_keeps_source_order() {
    let text = "<think>{\"name\": \"c\", \"arguments\": {}}</think>\n```json\n{\"name\": \"b\", \"arguments\": {}}\n```\n<tool_call>{\"name\": \"a\", \"arguments\": {}}</tool_call>";
    let calls = ScavengeRepair::scavenge(text);
    let names: Vec<&str> = calls.iter().map(|c| c.name.as_str()).collect();
    assert_eq!(names, vec!["a", "b", "c"]);
}

#[test]
fn parse_tool_call_unreadable_string_arguments_give_empty_object() {
    let c = ScavengeRepair::parse_tool_call(r#"{"name": "x", "arguments": "not json"}"#).unwrap();
    assert_eq!(c.arguments, "{}");
    assert!(ScavengeRepair::parse_tool_call(r#"{"name": 3, "arguments": {}}"#).is_none());
    assert!(ScavengeRepair::parse_tool_call("[1, 2]").is_none());
    assert!(ScavengeRepair::parse_tool_call("not json").is_none());
}

#[test]
fn storm_passes_distinct_calls_in_order() {
    let mut storm = StormSuppression::new(60, 1);
    let calls = vec![
        call("1", "read_file", r#"{"path": "a"}"#),
        call("2", "read_file", r#"{"path": "b"}"#),
        call("3", "list_dir", r#"{"path": "a"}"#),
    ];
    let (allowed, suppressed) = storm.filter(calls);
    let ids: Vec<&str> = allowed.iter().map(|c| c.id.as_str()).collect();
    assert_eq!(ids, vec!["1", "2", "3"]);
    assert!(!suppressed);
    assert_eq!(storm.suppressed_count(), 0);
}

#[test]
fn storm_with_no_repeats_allowed_blocks_everything() {
    let mut storm = StormSuppression::new(60, 0);
    let (allowed, suppressed) = storm.filter(vec![call("1", "t", "{}"), call("2", "u", "{}")]);
    assert!(allowed.is_empty());
    assert!(suppressed);
    assert_eq!(storm.suppressed_count(), 2);
}

#[test]
fn pipeline_second_run_keeps_content() {
    let mut pipeline = RepairPipeline::new(60, 1);
    let text = r#"<tool_call>{"name": "read_file", "arguments": {"path": "a.txt"}}</tool_call>"#;
    pipeline.repair(text);
    let r2 = pipeline.repair(text);
    assert!(r2.tool_calls.is_empty());
    assert!(r2.injected_reflection);
    assert_eq!(r2.content, Some(text.to_string()));
}

#[test]
fn try_repair_repairs_when_counter_has_room() {
    let mut pipeline = RepairPipeline::new(60, 1);
    let text = r#"<tool_call>{"name": "read_file", "arguments": {"path": "a.txt"}}</tool_call>"#;
    let r = pipeline.try_repair(text).unwrap();
    assert_eq!(r.tool_calls.len(), 1);
    assert_eq!(r.tool_calls[0].arguments, r#"{"path":"a.txt"}"#);
}
