use rhermes::session::{format_thinking_block, kb_mode_prompt, max_output_for_tool, strip_kb_block, KB_TUTOR_BLOCK};

#[test]
fn test_strip_kb_block() {
    let plain = "基础提示词";
    assert_eq!(strip_kb_block(plain), "基础提示词");
    let injected = format!("基础提示词\n\n{KB_TUTOR_BLOCK}");
    let stripped = strip_kb_block(&injected);
    assert!(stripped.starts_with("基础提示词"));
    assert!(!stripped.contains("kb-tutor-begin"));
    assert!(!stripped.contains("学习模式已激活"));
    assert_eq!(strip_kb_block(&stripped), stripped);
}

#[test]
fn test_kb_tutor_block_content() {
    assert!(KB_TUTOR_BLOCK.contains("kb_learn"));
    assert!(KB_TUTOR_BLOCK.contains("kb_quiz"));
    assert!(KB_TUTOR_BLOCK.contains("kb_graph"));
    assert!(KB_TUTOR_BLOCK.contains("kb_stats"));
    assert!(KB_TUTOR_BLOCK.contains("总结一下"));
    assert_eq!(KB_TUTOR_BLOCK.matches("kb-tutor").count(), 2);
}

#[test]
fn test_reenter_no_duplicate_block() {
    let base = "BASE";
    let once = format!("{base}\n\n{KB_TUTOR_BLOCK}");
    let once = strip_kb_block(&once);
    let twice = format!("{once}\n\n{KB_TUTOR_BLOCK}");
    let twice = strip_kb_block(&twice);
    assert_eq!(once, twice);
    assert_eq!(once, "BASE");
}

#[test]
fn kb_mode_prompt_adds_block_once() {
    let p = kb_mode_prompt("BASE");
    assert_eq!(p, format!("BASE\n\n{KB_TUTOR_BLOCK}"));
    assert_eq!(kb_mode_prompt(&p), p);
    assert_eq!(strip_kb_block(&p), "BASE");
}

#[test]
fn tool_output_caps() {
    assert_eq!(max_output_for_tool("read_file", 20000), 10000);
    assert_eq!(max_output_for_tool("read_file", 4000), 4000);
    assert_eq!(max_output_for_tool("some_unknown_tool", 9000), 5000);
    assert_eq!(max_output_for_tool("delegate_task", 9000), 9000);
}

#[test]
fn thinking_block_is_not_empty_for_text() {
    assert_eq!(format_thinking_block("step one"), "🤔 **思考过程**\n> step one\n\n");
}
