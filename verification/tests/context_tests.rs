use rhermes::context::{ApiMessage, Context, Message, Role};

#[test]
fn test_context_new() {
    let ctx = Context::new("You are a helpful assistant.");
    assert!(ctx.prefix_len() > 0);
    assert_eq!(ctx.log_len(), 0);
    assert_eq!(ctx.scratch_count(), 0);
}

#[test]
fn test_context_push_to_log_increases_size() {
    let mut ctx = Context::new("system prompt");
    let before = ctx.log_len();
    ctx.push_to_log(Message::new(Role::User, "hello"));
    assert!(ctx.log_len() > before);
}

#[test]
fn test_context_prefix_unchanged_after_log_push() {
    let mut ctx = Context::new("system prompt");
    let prefix_before = ctx.prefix_len();
    ctx.push_to_log(Message::new(Role::User, "hello"));
    ctx.push_to_log(Message::new(Role::Assistant, "world"));
    assert_eq!(ctx.prefix_len(), prefix_before);
}

#[test]
fn test_context_scratch_isolated() {
    let mut ctx = Context::new("prompt");
    ctx.push_to_scratch(Message::new(Role::Assistant, "thinking..."));
    assert_eq!(ctx.scratch_count(), 1);
    assert_eq!(ctx.log_len(), 0);
}

#[test]
fn test_context_clear_scratch() {
    let mut ctx = Context::new("prompt");
    ctx.push_to_scratch(Message::new(Role::Assistant, "thinking..."));
    ctx.clear_scratch();
    assert_eq!(ctx.scratch_count(), 0);
}

#[test]
fn test_context_distill_scratch_to_log() {
    let mut ctx = Context::new("prompt");
    ctx.push_to_scratch(Message::new(Role::Assistant, "result"));
    assert_eq!(ctx.scratch_count(), 1);
    ctx.distill_scratch_to_log();
    assert_eq!(ctx.scratch_count(), 0);
    assert!(ctx.log_len() > 0);
}

#[test]
fn test_context_extend_prefix() {
    let mut ctx = Context::new("system prompt");
    let len_before = ctx.prefix_len();
    ctx.extend_prefix(b"\n--- tool spec ---");
    assert!(ctx.prefix_len() > len_before);
}

#[test]
fn test_context_build_request_includes_prefix_and_log() {
    let mut ctx = Context::new("system prompt");
    ctx.push_to_log(Message::new(Role::User, "hello"));
    let body = ctx.build_request_body();
    assert!(body.len() >= ctx.prefix_len());
    assert!(body.len() >= ctx.log_len());
    assert_eq!(body.len(), ctx.prefix_len() + ctx.log_len());
}

#[test]
fn test_context_multiple_rounds_prefix_stable() {
    let mut ctx = Context::new("system prompt");
    let prefix = ctx.prefix_len();
    ctx.push_to_log(Message::new(Role::User, "q1"));
    ctx.push_to_log(Message::new(Role::Assistant, "a1"));
    assert_eq!(ctx.prefix_len(), prefix);
    ctx.push_to_log(Message::new(Role::User, "q2"));
    ctx.push_to_log(Message::new(Role::Assistant, "a2"));
    assert_eq!(ctx.prefix_len(), prefix);
}

#[test]
fn test_api_message_conversion() {
    let msg = Message::new(Role::User, "hello");
    let api_msg: ApiMessage = msg.clone().into();
    assert_eq!(api_msg.role, "user");
    assert_eq!(api_msg.content, "hello");
    let back: Message = api_msg.into();
    assert_eq!(back.role, Role::User);
    assert_eq!(back.content, "hello");
}

#[test]
fn context_prefix_holds_system_message_json() {
    let ctx = Context::new("hi");
    let body = ctx.build_request_body();
    let text = String::from_utf8_lossy(&body).to_string();
    assert!(text.contains("\"role\":\"system\""));
    assert!(text.contains("\"content\":\"hi\""));
}

#[test]
fn role_wire_names() {
    assert_eq!(Role::User.as_str(), "user");
    assert_eq!(Role::Assistant.as_str(), "assistant");
    assert_eq!(Role::System.as_str(), "system");
    let m: Message = ApiMessage { role: "robot".to_string(), content: "x".to_string() }.into();
    assert_eq!(m.role, Role::System);
}

#[test]
fn all_messages_holds_prompt_log_and_scratch_in_order() {
    let mut c = Context::new("sys");
    c.push_to_log(Message::new(Role::User, "q"));
    c.push_to_scratch(Message::new(Role::Assistant, "t"));
    let all = c.all_messages();
    let pairs: Vec<(Role, &str)> = all.iter().map(|m| (m.role.clone(), m.content.as_str())).collect();
    assert_eq!(pairs, vec![(Role::System, "sys"), (Role::User, "q"), (Role::Assistant, "t")]);
}

#[test]
fn test_serialize_message_format() {
    let msg = Message::new(Role::User, "test");
    let bytes = Context::serialize_message(&msg);
    let json_str = String::from_utf8_lossy(&bytes);
    assert!(json_str.starts_with(','));
    assert!(json_str.contains("\"role\":\"user\""));
    assert!(json_str.contains("\"content\":\"test\""));
}
