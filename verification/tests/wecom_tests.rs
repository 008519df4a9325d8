use rhermes::wecom::{has_poll_config, poll_due, token_renew_due, wecom_inbound, WeComMessage};

#[test]
fn wecom_messages_filtered() {
    let m = |t: &str, s: &str, x: Option<&str>| WeComMessage { msgtype: t.into(), sender: s.into(), text: x.map(|v| v.into()) };
    let msgs = vec![m("text", "a", Some("hi")), m("image", "a", None), m("text", "b", Some("yo")), m("text", "a", Some(""))];
    assert_eq!(wecom_inbound(&msgs, &vec![]), vec![("a".to_string(), "hi".to_string()), ("b".to_string(), "yo".to_string())]);
    assert_eq!(wecom_inbound(&msgs, &vec!["b".to_string()]), vec![("b".to_string(), "yo".to_string())]);
}

#[test]
fn wecom_schedule() {
    assert!(has_poll_config("c", "s"));
    assert!(!has_poll_config("", "s"));
    assert!(poll_due(5, 5));
    assert!(!poll_due(4, 5));
    assert!(token_renew_due(false, 0));
    assert!(token_renew_due(true, 7000));
    assert!(!token_renew_due(true, 6999));
}
