use rhermes::qq::{qq_step, ws_url, GroupAuthor, GroupMessage, QqAction, QqFrame, QqGateway, QQ_INTENTS};

fn frame(op: u64, ev: &str) -> QqFrame {
    QqFrame {
        op,
        event_type: ev.to_string(),
        seq: None,
        hello_interval: None,
        ready_session: None,
        group: None,
        c2c: None,
    }
}

#[test]
fn gateway_urls() {
    assert_eq!(ws_url("https://api.sgroup.qq.com/gateway"), "wss://api.sgroup.qq.com/gateway");
    assert_eq!(ws_url("http://x"), "ws://x");
}

#[test]
fn hello_asks_to_identify() {
    let mut gw = QqGateway::new();
    let mut f = frame(10, "");
    f.hello_interval = Some(Some(41250));
    match qq_step(&mut gw, &f, &vec![], false, "tok") {
        QqAction::Identify { token_text, intents, heartbeat_secs } => {
            assert_eq!(token_text, "QQBot tok");
            assert_eq!(intents, QQ_INTENTS);
            assert_eq!(heartbeat_secs, 41);
        }
        other => panic!("unexpected {other:?}"),
    }
    assert_eq!(gw.heartbeat_interval, 41250);
}

#[test]
fn test_qq_event_parse() {
    let mut gw = QqGateway::new();
    let mut f = frame(0, "READY");
    f.seq = Some(1);
    f.ready_session = Some("sess".to_string());
    assert!(matches!(qq_step(&mut gw, &f, &vec![], false, "t"), QqAction::Nothing));
    assert!(gw.identified);
    assert_eq!(gw.session_id, "sess");
    assert_eq!(gw.last_seq, Some(1));
}

#[test]
fn test_group_message_parse() {
    let mut gw = QqGateway::new();
    let mut f = frame(0, "GROUP_AT_MESSAGE_CREATE");
    f.seq = Some(5);
    f.group = Some(GroupMessage {
        id: "m1".to_string(),
        group_openid: "g1".to_string(),
        content: "  hello ".to_string(),
        author: Some(GroupAuthor { member_openid: Some("u1".to_string()) }),
    });
    match qq_step(&mut gw, &f, &vec!["g1".to_string()], false, "t") {
        QqAction::DeliverGroup { chat_id, content, msg_id, sender_id } => {
            assert_eq!(chat_id, "g1");
            assert_eq!(content, "hello");
            assert_eq!(msg_id, "m1");
            assert_eq!(sender_id.as_deref(), Some("u1"));
        }
        other => panic!("unexpected {other:?}"),
    }
    assert!(matches!(qq_step(&mut gw, &f, &vec!["g2".to_string()], false, "t"), QqAction::Nothing));
}

#[test]
fn test_c2c_message_parse() {
    let mut gw = QqGateway::new();
    let mut f = frame(0, "C2C_MESSAGE_CREATE");
    f.c2c = Some(("hi".to_string(), "user9".to_string(), "id".to_string()));
    match qq_step(&mut gw, &f, &vec![], true, "t") {
        QqAction::DeliverPrivate { user_openid, content } => {
            assert_eq!(user_openid, "user9");
            assert_eq!(content, "hi");
        }
        other => panic!("unexpected {other:?}"),
    }
    assert!(matches!(qq_step(&mut gw, &f, &vec![], false, "t"), QqAction::Nothing));
}

#[test]
fn other_ops_change_nothing() {
    let mut gw = QqGateway::new();
    assert!(matches!(qq_step(&mut gw, &frame(11, ""), &vec![], true, "t"), QqAction::Nothing));
    assert_eq!(gw.heartbeat_interval, 30);
    assert!(!gw.identified);
}
