use rhermes::telegram::{
    clean_group_text, escape_markdown_v2, format_sender, is_allowed, message_pieces, should_handle_group,
    to_markdown_v2, TgChat, TgMessage, TgUser,
};

fn msg(chat_type: &str, text: Option<&str>, from: Option<TgUser>) -> TgMessage {
    TgMessage {
        message_id: 1,
        chat: TgChat { id: 42, chat_type: chat_type.to_string() },
        text: text.map(|t| t.to_string()),
        from,
    }
}

#[test]
fn allowed_chats() {
    assert!(is_allowed(&vec![], "1"));
    assert!(is_allowed(&vec!["1".to_string(), "2".to_string()], "2"));
    assert!(!is_allowed(&vec!["1".to_string()], "3"));
}

#[test]
fn sender_names() {
    let u = TgUser { id: 1, first_name: "Ann".to_string(), username: Some("ann".to_string()) };
    assert_eq!(format_sender(&msg("private", None, Some(u))), "Ann (@ann)");
    let u = TgUser { id: 1, first_name: "Bob".to_string(), username: None };
    assert_eq!(format_sender(&msg("private", None, Some(u))), "Bob");
    assert_eq!(format_sender(&msg("private", None, None)), "unknown");
}

#[test]
fn group_mentions() {
    assert!(should_handle_group(&msg("private", Some("hi"), None), "MyBot"));
    assert!(should_handle_group(&msg("group", Some("@mybot hi"), None), "MyBot"));
    assert!(!should_handle_group(&msg("group", Some("hi @MyBot"), None), "MyBot"));
    assert!(!should_handle_group(&msg("supergroup", None, None), "MyBot"));
    assert_eq!(clean_group_text("@MyBot  hello ", "MyBot"), "hello");
    assert_eq!(clean_group_text("@mybot hello", "MyBot"), "hello");
    assert_eq!(clean_group_text("hello", "MyBot"), "hello");
}

#[test]
fn markdown_escaping() {
    assert_eq!(escape_markdown_v2("a.b!"), "a\\.b\\!");
    assert_eq!(to_markdown_v2("plain words"), "plain words");
    assert_eq!(to_markdown_v2("1+1=2"), "1\\+1\\=2");
}

#[test]
fn long_messages_are_split() {
    assert_eq!(message_pieces("short"), vec!["short".to_string()]);
    let long = "a".repeat(5000);
    let pieces = message_pieces(&long);
    assert_eq!(pieces.len(), 2);
    assert_eq!(pieces[0].len(), 4000);
    assert_eq!(pieces.concat(), long);
}

use rhermes::telegram::{poll_inbound, TgUpdate};

#[test]
fn poll_passes_on_allowed_messages() {
    let up = |id: i64, chat: i64, ty: &str, text: Option<&str>| TgUpdate {
        update_id: id,
        message: Some(TgMessage {
            message_id: 1,
            chat: TgChat { id: chat, chat_type: ty.to_string() },
            text: text.map(|t| t.to_string()),
            from: None,
        }),
    };
    let updates = vec![
        up(10, 1, "private", Some("hi")),
        up(11, -5, "group", Some("@bot hello")),
        up(12, -5, "group", Some("no mention")),
        up(13, 2, "private", None),
        up(14, 3, "private", Some("x")),
        TgUpdate { update_id: 15, message: None },
    ];
    let allowed = vec!["1".to_string(), "-5".to_string()];
    let (offset, msgs) = poll_inbound(&updates, 0, "bot", &allowed);
    assert_eq!(offset, 16);
    assert_eq!(msgs, vec![("1".to_string(), "hi".to_string()), ("-5".to_string(), "hello".to_string())]);
    let (offset, msgs) = poll_inbound(&vec![], 7, "bot", &vec![]);
    assert_eq!(offset, 7);
    assert!(msgs.is_empty());
}
