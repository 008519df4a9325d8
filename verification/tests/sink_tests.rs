use rhermes::api::ToolCallData;
use rhermes::sink::{error_message, tool_result_note, ChannelSinkState, SinkMessage, TelegramSinkState};

fn call(name: &str, args: &str) -> ToolCallData {
    ToolCallData { id: "c1".into(), name: name.into(), arguments: args.into() }
}

fn text(m: &SinkMessage) -> (bool, &str) {
    match m {
        SinkMessage::Plain(t) => (false, t.as_str()),
        SinkMessage::Formatted(t) => (true, t.as_str()),
    }
}

#[test]
fn channel_sink_buffers_until_done() {
    let mut s = ChannelSinkState::new();
    s.on_chunk("Hello, ");
    s.on_chunk("world");
    let note = s.on_tool_calls(&[call("read_file", "{\"path\":\"a\"}"), call("glob", "{}")]);
    assert_eq!(note, "🔧 正在执行: read_file({\"path\":\"a\"}), glob({})");
    assert_eq!(s.on_done().as_deref(), Some("Hello, world"));
    assert_eq!(s.on_done(), None);
}

#[test]
fn sink_notes() {
    assert_eq!(tool_result_note("read_file", 12, true), "  ✅ read_file (12ms)");
    assert_eq!(tool_result_note("glob", 0, false), "  ❌ glob (0ms)");
    assert_eq!(error_message("timeout"), "❌ timeout");
}

#[test]
fn telegram_sink_thinking_then_reply() {
    let mut s = TelegramSinkState::new();
    s.on_chunk("let me look");
    let msgs = s.on_tool_calls(&[call("glob", "{}"), call("read_file", "{}")]);
    assert_eq!(msgs.len(), 2);
    assert_eq!(text(&msgs[0]), (false, "💭 思考过程\n\nlet me look"));
    assert_eq!(text(&msgs[1]), (false, "🔧 正在执行: \nglob({})\nread_file({})"));
    s.on_chunk("the answer");
    let more = s.on_tool_calls(&[call("glob", "{}")]);
    assert_eq!(more.len(), 1);
    s.on_chunk(" is 42");
    let done = s.on_done().unwrap();
    assert_eq!(text(&done), (true, "the answer is 42"));
    assert!(s.on_done().is_none());
}

#[test]
fn telegram_sink_without_tools_replies_with_thinking() {
    let mut s = TelegramSinkState::new();
    assert!(s.on_done().is_none());
    s.on_chunk("just text");
    let done = s.on_done().unwrap();
    assert_eq!(text(&done), (true, "just text"));
}

#[test]
fn telegram_sink_error_drops_thinking() {
    let mut s = TelegramSinkState::new();
    s.on_chunk("half a thought");
    assert_eq!(s.on_error("boom"), "❌ boom");
    assert!(s.on_done().is_none());
}
