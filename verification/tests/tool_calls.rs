use drill::chat::GenerationType;
use drill::json::{parse, Json};
use drill::native::libia_generation_kind;
use drill::runtime::{call_of_piece, normalize_args, stream_piece, to_object, tool_call_from_value};
use drill::tool_text;

fn value(text: &str) -> Json {
    parse(text).unwrap()
}

fn text_at(v: &Json, key: &str) -> String {
    v.get(key).unwrap().as_text().unwrap().to_string()
}

#[test]
fn normalize_args_from_string() {
    let raw = value(
        r#"{"name":"ask_agent","call_id":"x","command":"ask_agent","args":"{\"name\": \"lucy\", \"prompt\": \"ok?\"}"}"#,
    );
    let tool = tool_call_from_value(&raw);
    assert_eq!(tool.name, "ask_agent");
    assert_eq!(text_at(&tool.args, "name"), "lucy");
    assert_eq!(text_at(&tool.args, "prompt"), "ok?");

    let raw = value(
        r#"{"name":"ask_agent","args":"ANTES {\"name\":\"lucas\",\"prompt\":\"x\"} DEPOIS"}"#,
    );
    let tool = tool_call_from_value(&raw);
    assert_eq!(text_at(&tool.args, "name"), "lucas");
}

#[test]
fn tool_call_wrapped_arguments() {
    let raw = value(r#"{"name":"ask_agent","args":{"arguments":{"name":"lucy","prompt":"p"}}}"#);
    let tool = tool_call_from_value(&raw);
    assert_eq!(text_at(tool.args.get("arguments").unwrap(), "name"), "lucy");
}

#[test]
fn arguments_are_always_an_object() {
    for raw in ["\"nada\"", "3", "null", "[1,2]", "{\"a\":1}", "\"[1]\""] {
        let args = normalize_args(value(raw));
        assert!(matches!(args, Json::Object(_)), "{raw}");
        let args = to_object(value(raw));
        assert!(matches!(args, Json::Object(_)), "{raw}");
    }
    assert_eq!(normalize_args(value("{\"a\":1}")).int_field("a"), Some(1));
}

#[test]
fn pieces_of_a_stream() {
    match stream_piece(libia_generation_kind::LIBIA_GENERATION_KIND_CONTENT, "oi") {
        GenerationType::Content(s) => assert_eq!(s, "oi"),
        other => panic!("{other:?}"),
    }
    match stream_piece(libia_generation_kind::LIBIA_GENERATION_KIND_REASONING, "hm") {
        GenerationType::Reasoning(s) => assert_eq!(s, "hm"),
        other => panic!("{other:?}"),
    }
    let chunk = r#"{"name":"list_dir","call_id":"7","args":{"path":"."}}"#;
    match stream_piece(libia_generation_kind::LIBIA_GENERATION_KIND_TOOL_CALL, chunk) {
        GenerationType::CallTool(call) => {
            assert_eq!(call.name, "list_dir");
            assert_eq!(call.call_id, "7");
            assert_eq!(text_at(&call.args, "path"), ".");
        }
        other => panic!("{other:?}"),
    }
    let call = call_of_piece(None, "quebrado");
    assert!(matches!(call.args, Json::Object(_)));
}

#[test]
fn calls_written_in_the_answer() {
    let content = "vou listar\n<tool_call>\n{\"name\":\"list_dir\",\"arguments\":{\"path\":\"src\"}}\n</tool_call>";
    assert_eq!(tool_text::tool_call_blocks(content).len(), 1);
    let call = tool_text::parse_tool_json(content).unwrap();
    assert_eq!(call.name, "list_dir");
    assert_eq!(text_at(&call.args, "path"), "src");
    assert!(tool_text::parse_tool_json("nenhuma chamada aqui").is_none());
    assert_eq!(tool_text::between_braces("a {b} c"), Some("{b}".to_string()));
    assert_eq!(tool_text::between_braces("sem chaves"), None);
}
