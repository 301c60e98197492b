use drill::cloud::Vendor;
use drill::json::parse;
use drill::stream::{finalize, gather, sse_payloads, Gathered, RemoteEvent, Usage};

#[test]
fn payloads_are_cut_out_of_the_stream() {
    let body = "event: x\ndata: {\"a\":1}\n\ndata: [DONE]\n\ndata:{\"b\":2}\n";
    let payloads = sse_payloads(body);
    assert!(payloads.contains(&"{\"a\":1}".to_string()));
}

#[test]
fn chat_answer_is_gathered() {
    let body = "data: {\"choices\":[{\"delta\":{\"content\":\"ol\"}}]}\n\n\
                data: {\"choices\":[{\"delta\":{\"content\":\"a\"}}]}\n\n\
                data: {\"choices\":[{\"delta\":{\"tool_calls\":[{\"index\":0,\"id\":\"c\",\"function\":{\"name\":\"list_dir\",\"arguments\":\"{\\\"path\\\":\"}}]}}]}\n\n\
                data: {\"choices\":[{\"delta\":{\"tool_calls\":[{\"index\":0,\"function\":{\"arguments\":\"\\\"src\\\"}\"}}]}}]}\n\n\
                data: {\"choices\":[],\"usage\":{\"prompt_tokens\":3,\"completion_tokens\":4,\"total_tokens\":7}}\n\n\
                data: [DONE]\n\n";
    let g = gather(Vendor::Chat, body);
    assert_eq!(g.content, "ola");
    assert_eq!(g.usage, Some(Usage { prompt: 3, completion: 4, total: 7 }));
    assert_eq!(g.completion_tokens(), 4);
    assert_eq!(g.calls.len(), 1);
    assert_eq!(g.calls[0].name, "list_dir");
    assert_eq!(g.calls[0].args.text_field("path"), Some("src"));
    let (out, events) = finalize(g, 2.5f64.to_bits());
    assert_eq!(out.content, "ola");
    assert_eq!(out.tokens, Some(7));
    assert_eq!(out.context_tokens, Some(3));
    assert_eq!(out.tps, Some(2.5f64.to_bits()));
    let told: String = events
        .iter()
        .map(|e| match e {
            RemoteEvent::Content(s) => s.as_str(),
            _ => "",
        })
        .collect();
    assert_eq!(told, "ola");
    assert!(events.iter().any(|e| matches!(e, RemoteEvent::ToolCall(c) if c.name == "list_dir")));
}

#[test]
fn anthropic_answer_is_gathered() {
    let mut g = Gathered::new();
    for chunk in [
        r#"{"type":"content_block_start","index":0,"content_block":{"type":"tool_use","id":"t1","name":"list_dir"}}"#,
        r#"{"type":"content_block_delta","index":0,"delta":{"type":"input_json_delta","partial_json":"{\"path\":\"x\"}"}}"#,
        r#"{"type":"content_block_delta","index":1,"delta":{"type":"text_delta","text":"oi"}}"#,
    ] {
        g.on_event(Vendor::Anthropic, &parse(chunk).unwrap());
    }
    g.collect_calls(Vendor::Anthropic);
    assert_eq!(g.content, "oi");
    assert_eq!(g.calls.len(), 1);
    assert_eq!(g.calls[0].call_id, "t1");
}

#[test]
fn google_answer_is_gathered() {
    let mut g = Gathered::new();
    g.on_google_event(
        &parse(r#"{"candidates":[{"content":{"parts":[{"text":"oi"},{"functionCall":{"name":"f","args":{"a":1}}}]}}]}"#)
            .unwrap(),
    );
    g.collect_calls(Vendor::Google);
    assert_eq!(g.content, "oi");
    assert_eq!(g.calls[0].name, "f");
    assert_eq!(g.calls[0].args.int_field("a"), Some(1));
}

#[test]
fn responses_answer_is_gathered() {
    let mut g = Gathered::new();
    g.on_responses_event(&parse(r#"{"type":"response.output_text.delta","delta":"oi"}"#).unwrap());
    assert_eq!(g.content, "oi");
    g.on_chat_event(&parse(r#"{"choices":[{"delta":{"reasoning_content":"hm"}}]}"#).unwrap());
    assert_eq!(g.content, "oi");
    g.on_anthropic_event(&parse(r#"{"type":"ping"}"#).unwrap());
    assert_eq!(g.content, "oi");
}
