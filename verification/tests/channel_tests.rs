use rhermes::channel::{split_by_bytes, split_message, split_text, urlencoding, ChannelState, InboundMessage};

#[test]
fn test_urlencoding() {
    let encoded = urlencoding("hello world");
    assert_eq!(encoded, "hello%20world");
}

#[test]
fn urlencoding_keeps_unreserved_and_encodes_utf8() {
    assert_eq!(urlencoding("a-b_c.d~e"), "a-b_c.d~e");
    assert_eq!(urlencoding("中"), "%E4%B8%AD");
    assert_eq!(urlencoding("a&b=c/d"), "a%26b%3Dc%2Fd");
}

#[test]
fn test_split_message() {
    let chunks = split_message("hello world", 4000);
    assert_eq!(chunks.len(), 1);
}

#[test]
fn split_respects_byte_limit_and_joins_back() {
    let text = "中文字符abc中文";
    let chunks = split_text(text, 7);
    assert!(chunks.iter().all(|c| c.len() <= 7));
    assert_eq!(chunks.concat(), text);
    assert_eq!(chunks, vec!["中文".to_string(), "字符a".to_string(), "bc中".to_string(), "文".to_string()]);
    assert_eq!(split_by_bytes("", 5), vec!["".to_string()]);
}

#[test]
fn channel_state_tracks_counts_and_errors() {
    let mut st = ChannelState::new();
    st.set_connected(true);
    st.inc_msg();
    st.inc_msg();
    st.set_error("boom");
    let s = st.snapshot("wechat", Some("bot".to_string()));
    assert_eq!(s.name, "wechat");
    assert!(s.connected);
    assert_eq!(s.msg_count, 2);
    assert_eq!(s.last_error.as_deref(), Some("boom"));
    assert_eq!(s.detail.as_deref(), Some("bot"));
    st.clear_error();
    assert!(st.snapshot("x", None).last_error.is_none());
}

#[test]
fn inbound_message_fields() {
    let m = InboundMessage::new("telegram", "42", "hi");
    assert_eq!(m.channel, "telegram");
    assert_eq!(m.chat_id, "42");
    assert_eq!(m.sender_id, "42");
    assert_eq!(m.content, "hi");
    assert!(m.timestamp_ms > 0);
}

#[test]
fn inc_msg_counts_each_message() {
    let mut st = ChannelState::new();
    st.set_error("e");
    for _ in 0..5 {
        st.inc_msg();
    }
    let s = st.snapshot("c", None);
    assert_eq!(s.msg_count, 5);
    assert!(!s.connected);
    assert_eq!(s.last_error.as_deref(), Some("e"));
}
