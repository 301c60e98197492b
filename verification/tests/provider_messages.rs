use drill::json::{parse, Json};
use drill::wire::{anthropic_messages, args_value, google_contents, responses_input, split_data_uri};

fn value(text: &str) -> Json {
    parse(text).unwrap()
}

fn at<'a>(v: &'a Json, key: &str) -> &'a Json {
    v.get(key).unwrap()
}

fn img_msg(text: &str) -> Json {
    value(&format!(
        r#"{{"role":"user","content":[{{"type":"text","text":"{text}"}},{{"type":"image_url","image_url":{{"url":"data:image/png;base64,QUJDRA=="}}}}]}}"#
    ))
}

#[test]
fn responses_translates_image() {
    let (instructions, input) = responses_input(&vec![img_msg("veja isso")]);
    assert!(instructions.is_none());
    assert_eq!(input.len(), 2);
    assert_eq!(at(&input[0], "role").as_text(), Some("user"));
    assert_eq!(at(&input[0], "content").as_text(), Some("veja isso"));
    assert_eq!(at(&input[1], "type").as_text(), Some("input_image"));
    assert_eq!(at(&input[1], "image_url").as_text(), Some("data:image/png;base64,QUJDRA=="));
}

#[test]
fn anthropic_translates_image() {
    let (system, msgs) = anthropic_messages(&vec![img_msg("veja isso")]);
    assert!(system.is_none());
    assert_eq!(msgs.len(), 1);
    let blocks = at(&msgs[0], "content").as_items().unwrap();
    assert_eq!(blocks.len(), 2);
    assert_eq!(at(&blocks[0], "type").as_text(), Some("text"));
    assert_eq!(at(&blocks[0], "text").as_text(), Some("veja isso"));
    assert_eq!(at(&blocks[1], "type").as_text(), Some("image"));
    let source = at(&blocks[1], "source");
    assert_eq!(at(source, "type").as_text(), Some("base64"));
    assert_eq!(at(source, "media_type").as_text(), Some("image/png"));
    assert_eq!(at(source, "data").as_text(), Some("QUJDRA=="));
}

#[test]
fn google_translates_image() {
    let (system, contents) = google_contents(&vec![img_msg("veja isso")]);
    assert!(system.is_none());
    assert_eq!(contents.len(), 1);
    let parts = at(&contents[0], "parts").as_items().unwrap();
    assert_eq!(parts.len(), 2);
    assert_eq!(at(&parts[0], "text").as_text(), Some("veja isso"));
    let data = at(&parts[1], "inlineData");
    assert_eq!(at(data, "mimeType").as_text(), Some("image/png"));
    assert_eq!(at(data, "data").as_text(), Some("QUJDRA=="));
}

#[test]
fn text_content_unchanged_without_images() {
    let msg = value(r#"{"role":"user","content":"soma dois mais dois"}"#);
    let (_, input) = responses_input(&vec![msg.copy()]);
    assert_eq!(input.len(), 1);
    assert_eq!(at(&input[0], "content").as_text(), Some("soma dois mais dois"));
    let (_, msgs) = anthropic_messages(&vec![msg.copy()]);
    let first = &at(&msgs[0], "content").as_items().unwrap()[0];
    assert_eq!(at(first, "text").as_text(), Some("soma dois mais dois"));
    let (_, contents) = google_contents(&vec![msg]);
    let first = &at(&contents[0], "parts").as_items().unwrap()[0];
    assert_eq!(at(first, "text").as_text(), Some("soma dois mais dois"));
}

#[test]
fn system_messages_are_joined_apart() {
    let msgs = vec![
        value(r#"{"role":"system","content":"um"}"#),
        value(r#"{"role":"system","content":"dois"}"#),
        value(r#"{"role":"user","content":"oi"}"#),
    ];
    let (instructions, input) = responses_input(&msgs);
    assert_eq!(instructions, Some("um\n\ndois".to_string()));
    assert_eq!(input.len(), 1);
    let (system, rest) = anthropic_messages(&msgs);
    assert_eq!(system, Some("um\n\ndois".to_string()));
    assert_eq!(rest.len(), 1);
    let (system, _) = google_contents(&msgs);
    let parts = at(&system.unwrap(), "parts").as_items().unwrap().len();
    assert_eq!(parts, 1);
}

#[test]
fn tool_messages_are_translated() {
    let msgs = vec![
        value(
            r#"{"role":"assistant","content":"","tool_calls":[{"id":"c1","type":"function","function":{"name":"list_dir","arguments":"{\"path\":\"src\"}"}}]}"#,
        ),
        value(r#"{"role":"tool","tool_call_id":"c1","name":"list_dir","content":"a.rs"}"#),
    ];
    let (_, input) = responses_input(&msgs);
    assert_eq!(at(&input[0], "type").as_text(), Some("function_call"));
    assert_eq!(at(&input[0], "call_id").as_text(), Some("c1"));
    assert_eq!(at(&input[0], "arguments").as_text(), Some("{\"path\":\"src\"}"));
    assert_eq!(at(&input[1], "type").as_text(), Some("function_call_output"));
    assert_eq!(at(&input[1], "output").as_text(), Some("a.rs"));

    let (_, rest) = anthropic_messages(&msgs);
    let used = &at(&rest[0], "content").as_items().unwrap()[0];
    assert_eq!(at(used, "type").as_text(), Some("tool_use"));
    assert_eq!(at(at(used, "input"), "path").as_text(), Some("src"));
    let result = &at(&rest[1], "content").as_items().unwrap()[0];
    assert_eq!(at(result, "type").as_text(), Some("tool_result"));
    assert_eq!(at(result, "tool_use_id").as_text(), Some("c1"));

    let (_, contents) = google_contents(&msgs);
    let call = at(&at(&contents[0], "parts").as_items().unwrap()[0], "functionCall");
    assert_eq!(at(call, "name").as_text(), Some("list_dir"));
}

#[test]
fn data_uri_is_cut_and_rejoined() {
    let (mime, data) = split_data_uri("data:image/png;base64,QUJDRA==").unwrap();
    assert_eq!(mime, "image/png");
    assert_eq!(data, "QUJDRA==");
    assert_eq!(format!("data:{mime};base64,{data}"), "data:image/png;base64,QUJDRA==");
    assert!(split_data_uri("https://exemplo.com/a.png").is_none());
    assert!(split_data_uri("data:image/png,QUJDRA==").is_none());
}

#[test]
fn raw_arguments_are_parsed_or_kept() {
    assert_eq!(args_value("{\"a\":1}").int_field("a"), Some(1));
    assert_eq!(args_value("isto nao e json").as_text(), Some("isto nao e json"));
}
