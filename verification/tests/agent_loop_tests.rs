use rhermes::agent_loop::{
    advice_message, chunk_text, cut_tool_output, exchange_memory, history_text, memory_refine_due, recall_message,
    reflection_summary, refused_tools_note, round_limit_note, skill_refine_due, split_allowed, tool_call_limit_note,
    tool_result_message,
};
use rhermes::context::ApiMessage;
use rhermes::memory::{MemoryEntry, MemoryType};

#[test]
fn tool_output_is_cut_with_head_and_tail() {
    assert_eq!(cut_tool_output("short", 100), "short");
    let out = format!("{}\n{}", "a".repeat(10), "b".repeat(10));
    let cut = cut_tool_output(&out, 8);
    assert_eq!(cut, "aaaaaa\n\n... [省略 13 字, 共 2 行] ...\n\nbb");
}

#[test]
fn tool_results_reported() {
    assert_eq!(tool_result_message("ls", true, 12, "x"), "工具「ls」执行成功 (12ms):\nx");
    assert_eq!(tool_result_message("ls", false, 12, "x"), "工具「ls」执行失败:\nx");
}

#[test]
fn learning_mode_filters_tools() {
    let names = vec!["kb_learn".to_string(), "run_command".to_string(), "kb_quiz".to_string()];
    let allowed = vec!["kb_learn".to_string(), "kb_quiz".to_string()];
    let (ok, no) = split_allowed(&names, &allowed);
    assert_eq!(ok, vec!["kb_learn".to_string(), "kb_quiz".to_string()]);
    assert_eq!(no, vec!["run_command".to_string()]);
    assert_eq!(
        refused_tools_note(None, &no),
        "⚠️ 当前学习模式（locked）下以下工具不可用: run_command\n请仅使用允许的工具，或改用允许的方式回答。"
    );
}

#[test]
fn thinking_tags_are_dropped() {
    assert_eq!(chunk_text("<think>"), None);
    assert_eq!(chunk_text("a<think>b</think>c").as_deref(), Some("abc"));
    assert_eq!(chunk_text("  ").as_deref(), Some("  "));
}

#[test]
fn history_for_the_summariser() {
    let m = |r: &str, c: &str| ApiMessage { role: r.to_string(), content: c.to_string() };
    let ms = vec![m("system", "sys"), m("user", "q"), m("assistant", "a"), m("tool", "t")];
    assert_eq!(history_text(&ms), "用户: q\n---\nAI: a\n---\n系统: t");
    assert_eq!(history_text(&ms[..1].to_vec()), "");
}

#[test]
fn recall_and_memory_texts() {
    let e = MemoryEntry {
        id: 1,
        memory_type: MemoryType::LongTerm,
        content: "likes rust".to_string(),
        tags: vec![],
        project: "p".to_string(),
        created_at: String::new(),
        last_accessed: String::new(),
        access_count: 0,
    };
    assert_eq!(recall_message(&vec![e]).as_deref(), Some("【相关记忆】\n- [long_term] likes rust"));
    assert_eq!(recall_message(&vec![]), None);
    assert_eq!(exchange_memory("q", "a"), "【问题】q\n【回答】a");
}

#[test]
fn advice_only_when_not_all_clear() {
    assert_eq!(advice_message(&vec!["✅ 一切正常".to_string()]), None);
    assert_eq!(advice_message(&vec!["⚠ x".to_string()]).as_deref(), Some("📊 进化建议:\n⚠ x"));
}

#[test]
fn refinement_and_limits() {
    assert!(skill_refine_due(15, 15, "q"));
    assert!(!skill_refine_due(0, 99, "q"));
    assert!(!skill_refine_due(15, 14, "q"));
    assert!(memory_refine_due(10, 20, "a"));
    assert!(!memory_refine_due(10, 21, "a"));
    assert!(!memory_refine_due(10, 20, ""));
    assert_eq!(reflection_summary(&"字".repeat(201)), format!("{}...", "字".repeat(200)));
    assert_eq!(reflection_summary("short"), "short");
    assert_eq!(round_limit_note(50), "工具调用次数过多（超过 50 轮），已终止");
    assert_eq!(tool_call_limit_note(200), None);
    assert_eq!(tool_call_limit_note(201).as_deref(), Some("工具调用次数过多（201 次），可能存在循环，已强制终止。"));
}

use rhermes::agent_loop::{turn_step, TurnAction, TurnEvent, TurnState};

fn turn(round: u32, tool_calls: u32, corrections: u32) -> TurnState {
    TurnState { round, tool_calls, corrections }
}

#[test]
fn turn_rounds_stop_past_the_limit() {
    let (s, a) = turn_step(turn(3, 0, 0), TurnEvent::RoundStart, 50, 2);
    assert_eq!(s, turn(4, 0, 0));
    assert!(matches!(a, TurnAction::AskModel { advise: false }));
    let (_, a) = turn_step(turn(4, 0, 0), TurnEvent::RoundStart, 50, 2);
    assert!(matches!(a, TurnAction::AskModel { advise: true }));
    let (s, a) = turn_step(turn(50, 0, 0), TurnEvent::RoundStart, 50, 2);
    assert_eq!(s.round, 51);
    match a {
        TurnAction::Abort(t) => assert_eq!(t, "工具调用次数过多（超过 50 轮），已终止"),
        other => panic!("unexpected {other:?}"),
    }
}

#[test]
fn turn_corrections_are_bounded() {
    let (s, a) = turn_step(turn(1, 0, 0), TurnEvent::Checked { valid: false }, 50, 1);
    assert_eq!(s.corrections, 1);
    assert!(matches!(a, TurnAction::Correct));
    let (s, a) = turn_step(s, TurnEvent::Checked { valid: false }, 50, 1);
    assert_eq!(s.corrections, 1);
    assert!(matches!(a, TurnAction::Proceed));
    let (_, a) = turn_step(turn(1, 0, 0), TurnEvent::Checked { valid: true }, 50, 1);
    assert!(matches!(a, TurnAction::Proceed));
}

#[test]
fn turn_refused_calls_ask_again() {
    let (_, a) = turn_step(turn(1, 0, 0), TurnEvent::Filtered { before: 2, kept: 0 }, 50, 1);
    assert!(matches!(a, TurnAction::AskAgain));
    let (_, a) = turn_step(turn(1, 0, 0), TurnEvent::Filtered { before: 2, kept: 1 }, 50, 1);
    assert!(matches!(a, TurnAction::Proceed));
    let (_, a) = turn_step(turn(1, 0, 0), TurnEvent::Filtered { before: 0, kept: 0 }, 50, 1);
    assert!(matches!(a, TurnAction::Proceed));
}

#[test]
fn turn_tool_results_continue_finish_or_stop() {
    let (s, a) = turn_step(turn(2, 10, 0), TurnEvent::ToolsRan { results: 3, delegated: false }, 50, 1);
    assert_eq!(s.tool_calls, 13);
    assert!(matches!(a, TurnAction::NextRound));
    let (_, a) = turn_step(turn(2, 10, 0), TurnEvent::ToolsRan { results: 1, delegated: true }, 50, 1);
    assert!(matches!(a, TurnAction::Finish));
    let (s, a) = turn_step(turn(2, 199, 0), TurnEvent::ToolsRan { results: 2, delegated: true }, 50, 1);
    assert_eq!(s.tool_calls, 201);
    match a {
        TurnAction::Abort(t) => assert_eq!(t, "工具调用次数过多（201 次），可能存在循环，已强制终止。"),
        other => panic!("unexpected {other:?}"),
    }
}
