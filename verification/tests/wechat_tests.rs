use rhermes::wechat::{
    extract_qrcode_param, inbound_messages, login_step, next_sync_buf, qr_refresh_due, saved_token, token_expired,
    updates_error, LoginStep, WxItem, WxMessage,
};

#[test]
fn qrcode_params() {
    assert_eq!(extract_qrcode_param("https://x.cn/l?qrcode=abc&x=1"), "abc");
    assert_eq!(extract_qrcode_param("http://x.cn/l?qrcode=abc"), "abc");
    assert_eq!(extract_qrcode_param("https://x.cn/l?q=1"), "https://x.cn/l?q=1");
    assert_eq!(extract_qrcode_param("rawhash"), "rawhash");
}

#[test]
fn login_steps() {
    assert!(matches!(login_step(Some("CONFIRMED"), Some("tok".to_string())), LoginStep::Confirmed(t) if t == "tok"));
    assert!(matches!(login_step(Some("confirmed"), None), LoginStep::MissingToken));
    assert!(matches!(login_step(Some("expired"), None), LoginStep::Expired));
    assert!(matches!(login_step(Some("Scanned"), None), LoginStep::Pending));
    assert!(matches!(login_step(None, None), LoginStep::Pending));
    assert!(!qr_refresh_due(4));
    assert!(qr_refresh_due(5));
}

#[test]
fn messages_passed_on() {
    let text = |t: &str| WxItem { item_type: 1, text: Some(t.to_string()) };
    let msgs = vec![
        WxMessage { message_type: 1, from_user_id: "u1".into(), context_token: Some("c1".into()), items: Some(vec![WxItem { item_type: 2, text: None }, text("hi")]) },
        WxMessage { message_type: 2, from_user_id: "bot".into(), context_token: None, items: Some(vec![text("echo")]) },
        WxMessage { message_type: 1, from_user_id: "u2".into(), context_token: None, items: Some(vec![text("")]) },
        WxMessage { message_type: 1, from_user_id: "u3".into(), context_token: None, items: None },
    ];
    let r = inbound_messages(&msgs);
    assert_eq!(r.len(), 1);
    assert_eq!(r[0].chat_id, "u1");
    assert_eq!(r[0].text, "hi");
    assert_eq!(r[0].context_token.as_deref(), Some("c1"));
}

#[test]
fn poll_bookkeeping() {
    assert_eq!(next_sync_buf("old", Some("new".to_string())), "new");
    assert_eq!(next_sync_buf("old", Some(String::new())), "old");
    assert_eq!(next_sync_buf("old", None), "old");
    assert_eq!(updates_error(Some(-1005)).as_deref(), Some("API 返回错误码: -1005"));
    assert_eq!(updates_error(Some(7)).as_deref(), Some("API 返回错误码: 7"));
    assert_eq!(updates_error(Some(0)), None);
    assert_eq!(updates_error(None), None);
    assert!(token_expired("API 返回错误码: -1005"));
    assert!(token_expired("HTTP 401"));
    assert!(!token_expired("timeout"));
    assert_eq!(saved_token("  tok \n").as_deref(), Some("tok"));
    assert_eq!(saved_token("  \n"), None);
}
