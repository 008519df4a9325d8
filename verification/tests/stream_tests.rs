use rhermes::api::Usage;
use rhermes::stream::{SseDecoder, StreamChoiceData, StreamChunkData, StreamOutput, StreamToolDelta};

fn delta(index: i32, id: Option<&str>, name: Option<&str>, args: Option<&str>) -> StreamToolDelta {
    StreamToolDelta {
        index,
        id: id.map(|s| s.to_string()),
        name: name.map(|s| s.to_string()),
        arguments: args.map(|s| s.to_string()),
    }
}

fn chunk(content: Option<&str>, calls: Option<Vec<StreamToolDelta>>, finish: Option<&str>) -> StreamChunkData {
    StreamChunkData {
        usage: None,
        first_choice: Some(StreamChoiceData {
            content: content.map(|s| s.to_string()),
            tool_calls: calls,
            finish_reason: finish.map(|s| s.to_string()),
        }),
    }
}

#[test]
fn events_are_cut_at_blank_lines() {
    let mut d = SseDecoder::new();
    let p = d.push_text("data: {\"a\":1}\n\ndata: par");
    assert_eq!(p, vec!["{\"a\":1}".to_string()]);
    let p = d.push_text("tial\n\n: comment\ndata: [DONE]\n\n");
    assert_eq!(p, vec!["partial".to_string(), "[DONE]".to_string()]);
    assert!(d.push_text("no end yet").is_empty());
}

#[test]
fn text_and_usage_are_passed_on() {
    let mut d = SseDecoder::new();
    let mut c = chunk(Some("Hel"), None, None);
    c.usage = Some(Usage {
        prompt_tokens: 1,
        completion_tokens: 2,
        total_tokens: 3,
        prompt_cache_hit_tokens: 0,
        prompt_cache_miss_tokens: 1,
    });
    let out = d.on_chunk(&c);
    assert_eq!(out.len(), 2);
    assert!(matches!(&out[0], StreamOutput::Usage(u) if u.total_tokens == 3));
    assert!(matches!(&out[1], StreamOutput::Text(t) if t == "Hel"));
    assert!(d.on_chunk(&chunk(Some(""), None, None)).is_empty());
}

#[test]
fn tool_calls_are_merged_by_index_and_sorted() {
    let mut d = SseDecoder::new();
    d.on_chunk(&chunk(None, Some(vec![delta(1, Some("b"), Some("grep"), Some("{\"p\""))]), None));
    d.on_chunk(&chunk(None, Some(vec![delta(0, Some("a"), Some("ls"), Some("{}"))]), None));
    d.on_chunk(&chunk(None, Some(vec![delta(1, Some(""), None, Some(":1}"))]), None));
    let out = d.on_chunk(&chunk(None, None, Some("tool_calls")));
    assert_eq!(out.len(), 1);
    match &out[0] {
        StreamOutput::ToolCalls(v) => {
            assert_eq!(v.len(), 2);
            assert_eq!((v[0].id.as_str(), v[0].name.as_str(), v[0].arguments.as_str()), ("a", "ls", "{}"));
            assert_eq!((v[1].id.as_str(), v[1].name.as_str(), v[1].arguments.as_str()), ("b", "grep", "{\"p\":1}"));
        }
        other => panic!("unexpected {other:?}"),
    }
    assert!(d.flush().is_none());
}

#[test]
fn done_flushes_and_unreadable_payloads_are_skipped() {
    let mut d = SseDecoder::new();
    assert!(d.on_payload("garbage", None).is_empty());
    d.on_payload("x", Some(chunk(None, Some(vec![delta(0, Some("id"), Some("t"), None)]), None)));
    let out = d.on_payload("[DONE]", None);
    assert_eq!(out.len(), 1);
    assert!(d.on_payload("[DONE]", None).is_empty());
}
