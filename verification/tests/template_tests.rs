use rhermes::template::generate_annotated_template;

#[test]
fn test_generate_annotated_template_contains_all_sections() {
    let template = generate_annotated_template("0.8");
    let sections = [
        "[api]", "[request]", "[memory]", "[debug]", "[display]", "[agent]", "[provider_pool]", "[channels.wecom]",
        "[channels.wechat]", "[channels.telegram]", "[proxy]", "[proxy.rules]", "[gateway]", "[mcp]", "[search]",
    ];
    for section in &sections {
        assert!(template.contains(section), "missing section {section}");
    }
}

#[test]
fn test_generate_annotated_template_has_comments() {
    let template = generate_annotated_template("0.8");
    let comment_count = template.lines().filter(|l| l.trim().starts_with('#')).count();
    assert!(comment_count >= 30, "only {comment_count} comment lines");
}

#[test]
fn template_values_are_the_defaults() {
    let t = generate_annotated_template("0.8");
    assert!(t.contains("\ntimeout_secs = 60\n"));
    assert!(t.contains("\nmax_retries = 3\n"));
    assert!(t.contains("\ncompression_ratio = 0.8\n"));
    assert!(t.contains("\nmax_memory = 33554432\n"));
    assert!(t.contains("\nchannels = [\"wechat\"]\n"));
    assert!(t.contains("\ncommand_require_confirm = true\n"));
    assert!(t.starts_with("# RHermes 配置文件\n"));
    assert!(t.ends_with("cache_ttl_secs = 600\n\n"));
}

use rhermes::template::{merge_template, template_queries};

#[test]
fn template_queries_find_settings() {
    let t = "# head\n[request]\n# timeout\ntimeout_secs = 60\n# retries = 3\n\n# [providers.zhipu]\n# model = \"x\"\n[a.b]\nkey=1\n# ── x = y\n";
    let qs = template_queries(t);
    assert_eq!(qs.len(), 11);
    assert_eq!(qs[3], Some((vec!["request".to_string()], "timeout_secs".to_string())));
    assert_eq!(qs[4], Some((vec!["request".to_string()], "retries".to_string())));
    assert_eq!(qs[7], None);
    assert_eq!(qs[9], Some((vec!["a".to_string(), "b".to_string()], "key".to_string())));
    assert_eq!(qs[10], None);
}

#[test]
fn save_annotated_merges_values() {
    let template = generate_annotated_template("0.8");
    let qs = template_queries(&template);
    let answers: Vec<Option<String>> = qs
        .iter()
        .map(|q| match q {
            Some((sec, key)) if sec == &vec!["request".to_string()] && key == "timeout_secs" => Some("120".to_string()),
            Some((sec, key)) if sec == &vec!["agent".to_string()] && key == "workspace" => Some("\"/w\"".to_string()),
            _ => None,
        })
        .collect();
    let merged = merge_template(&template, &answers);
    assert!(merged.contains("\ntimeout_secs = 120\n"));
    assert!(merged.contains("\nworkspace = \"/w\"\n"));
    assert!(!merged.contains("# workspace = \"\""));
    assert!(merged.contains("[request]"));
    assert_eq!(merged.lines().count(), template.lines().count());
}

#[test]
fn find_value_in_toml_walks_sections() {
    let doc = "[api]\nmodel = \"x\"\n\n[a.b]\nk = 1\n";
    assert_eq!(rhermes::template::find_value_in_toml(doc, &vec!["api".to_string()], "model"), Some("\"x\"".to_string()));
    assert_eq!(
        rhermes::template::find_value_in_toml(doc, &vec!["a".to_string(), "b".to_string()], "k"),
        Some("1".to_string())
    );
    assert_eq!(rhermes::template::find_value_in_toml(doc, &vec!["api".to_string()], "missing"), None);
    assert_eq!(rhermes::template::find_value_in_toml(doc, &vec!["nope".to_string()], "k"), None);
    assert_eq!(rhermes::template::find_value_in_toml(doc, &vec!["api".to_string(), "model".to_string()], "k"), None);
}

#[test]
fn merge_with_unreadable_config_keeps_template() {
    let template = "[api]\n# model = \"\"\n";
    assert_eq!(rhermes::template::merge_template_with_config(template, "= = ="), template);
}

#[test]
fn merge_with_config_fills_saved_value() {
    let template = "[api]\n# model = \"\"\n";
    let merged = rhermes::template::merge_template_with_config(template, "[api]\nmodel = \"deepseek-chat\"\n");
    assert!(merged.contains("model = \"deepseek-chat\""));
}
