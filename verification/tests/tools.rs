use drill::fetch::{Fetch, FetchStep};
use drill::json::{parse, Json};
use drill::tools::{
    alternative_branch, arg_i64, arg_str, ask_permission, begin_call, check_content_type,
    default_branch, denied, execute, fetch_url_result, fits_cut, install_permission_channel, is_maestro_tool, list_dir_result,
    normalize_github_url, on_permission, parse_raw_github_url, patch_file_apply, patch_file_result,
    permission_given, permission_needed, plan, read_file_result, retry_fetch, run_command_result,
    show_changes, truncate, unwrap_value, write_file_result, ChangeTag, CommandEnd, DirEntry,
    LineChange, PermissionDesk, PermissionRequest, ToolCall, ToolPlan, ToolStep, BASE_TOOLS, MAX_RESULT_CHARS, TOOLS_JSON,
};

fn call(name: &str, args: &str) -> ToolCall {
    ToolCall { name: name.to_string(), call_id: "1".to_string(), args: parse(args).unwrap() }
}

#[test]
fn tools_json_lists_every_tool() {
    let tools = parse(TOOLS_JSON).unwrap();
    let names: Vec<String> = tools
        .as_items()
        .unwrap()
        .iter()
        .map(|t| t.get("function").unwrap().text_field("name").unwrap().to_string())
        .collect();
    for name in BASE_TOOLS {
        assert!(names.contains(&name.to_string()), "{name}");
    }
    assert!(is_maestro_tool("ask_agent"));
    assert!(!is_maestro_tool("read_file"));
}

#[test]
fn wrapped_arguments_are_unwrapped() {
    let args = parse(r#"{"name":"x","arguments":{"path":"p"}}"#).unwrap();
    assert_eq!(unwrap_value(&args).text_field("path"), Some("p"));
    let args = parse(r#"{"arguments":{"path":"p"}}"#).unwrap();
    assert_eq!(unwrap_value(&args), &args);
    assert_eq!(arg_str(&call("read_file", r#"{"file_path":"q"}"#), "path"), Some("q".to_string()));
    assert_eq!(arg_str(&call("read_file", r#"{"path":3}"#), "path"), None);
    assert_eq!(arg_i64(&call("read_file", r#"{"offset":-3}"#), "offset"), Some(-3));
}

#[test]
fn calls_are_planned() {
    assert_eq!(
        plan(&call("read_file", r#"{"path":"a.rs","offset":-2,"limit":5}"#), "/p"),
        Ok(ToolPlan::ReadFile {
            path: "a.rs".to_string(),
            full: "/p/a.rs".to_string(),
            offset: 0,
            limit: Some(5),
        })
    );
    assert_eq!(
        plan(&call("list_dir", "{}"), "/p"),
        Ok(ToolPlan::ListDir { full: "/p/.".to_string() })
    );
    assert_eq!(
        plan(&call("run_command", r#"{"command":"ls","timeout_ms":5}"#), "/p"),
        Ok(ToolPlan::RunCommand { command: "ls".to_string(), timeout_ms: 1000 })
    );
    assert_eq!(
        plan(&call("run_command", r#"{"command":"ls","timeout_ms":9000000}"#), "/p"),
        Ok(ToolPlan::RunCommand { command: "ls".to_string(), timeout_ms: 600_000 })
    );
    match plan(&call("fetch_url", r#"{"url":"https://github.com/o/r/blob/main/a/b.rs"}"#), "/p") {
        Ok(ToolPlan::FetchUrl { url, note, timeout_ms }) => {
            assert_eq!(url, "https://raw.githubusercontent.com/o/r/main/a/b.rs");
            assert_eq!(
                note,
                "(github.com/.../blob convertido para raw: https://raw.githubusercontent.com/o/r/main/a/b.rs)\n"
            );
            assert_eq!(timeout_ms, 15_000);
        }
        other => panic!("{other:?}"),
    }
}

#[test]
fn bad_calls_are_refused() {
    for (name, args, wanted) in [
        ("read_file", "{}", "missing 'path'"),
        ("write_file", "{}", "missing 'path'"),
        ("write_file", r#"{"path":"a"}"#, "missing 'content'"),
        ("patch_file", "{}", "missing 'path'"),
        ("patch_file", r#"{"path":"a"}"#, "missing 'old_str'"),
        ("patch_file", r#"{"path":"a","old_str":"x"}"#, "missing 'new_str'"),
        ("run_command", "{}", "missing 'command'"),
        ("fetch_url", "{}", "missing 'url'"),
        ("fetch_url", r#"{"url":"ftp://x"}"#, "apenas URLs http/https sao permitidas"),
        ("outra", "{}", "unknown tool: outra"),
    ] {
        assert_eq!(plan(&call(name, args), "/p"), Err(wanted.to_string()));
    }
}

#[test]
fn files_are_shown() {
    let raw = "um\ndois\ntres\n";
    assert_eq!(read_file_result("a", raw, 0, None), "--- a (3 lines) ---\num\ndois\ntres");
    assert_eq!(read_file_result("a", raw, 1, None), "--- a (2 lines) ---\ndois\ntres");
    assert_eq!(read_file_result("a", raw, 1, Some(1)), "--- a lines 1-2 of 2 ---\ndois");
    assert_eq!(read_file_result("a", raw, 9, None), "--- a (0 lines) ---\n");
    assert_eq!(write_file_result("olá", "/p/a"), "wrote 4 bytes to /p/a");
    let entries = vec![
        DirEntry { name: "src".to_string(), is_dir: true, size: 4096 },
        DirEntry { name: "a.rs".to_string(), is_dir: false, size: 12 },
    ];
    assert_eq!(list_dir_result(&entries), "DIR    4096 src\nFILE   12 a.rs\n");
}

#[test]
fn files_are_patched() {
    assert_eq!(patch_file_apply("a", "x x y", "x", "z"), Ok("z z y".to_string()));
    assert_eq!(
        patch_file_apply("a", "abc", "q", "z"),
        Err("'old_str' não encontrado em a".to_string())
    );
    assert_eq!(
        patch_file_result("a", "um\ndois\n", "um\ntres\n"),
        "--- Edit a ---\n um\n-dois\n+tres\n"
    );
    let changes = vec![
        LineChange { tag: ChangeTag::Insert, line: "x\n".to_string() },
        LineChange { tag: ChangeTag::Equal, line: "y\n".to_string() },
    ];
    assert_eq!(show_changes("a", &changes), "--- Edit a ---\n+x\n y\n");
}

#[test]
fn commands_report_their_end() {
    assert_eq!(run_command_result(CommandEnd::Exit(0), "saida\n"), "saida");
    assert_eq!(run_command_result(CommandEnd::Exit(0), " \n"), "exit code: 0");
    assert_eq!(
        run_command_result(CommandEnd::Exit(2), "erro\n"),
        "erro\n--- exit code: 2 ---\n"
    );
    assert_eq!(
        run_command_result(CommandEnd::Timeout(1000), ""),
        "TIMEOUT after 1000ms (process killed)"
    );
}

#[test]
fn raw_urls_are_stable() {
    let raw = normalize_github_url("http://github.com/o/r/blob/main/a/b");
    assert_eq!(raw, "https://raw.githubusercontent.com/o/r/main/a/b");
    assert_eq!(normalize_github_url(&raw), raw);
    assert_eq!(normalize_github_url("https://github.com/o/r"), "https://github.com/o/r");
    assert_eq!(
        parse_raw_github_url(&raw),
        Some(("o".to_string(), "r".to_string(), "main".to_string(), "a/b".to_string()))
    );
    assert_eq!(parse_raw_github_url("https://x"), None);
}

#[test]
fn another_branch_is_tried() {
    let answer = parse(r#"{"default_branch":"dev"}"#).unwrap();
    assert_eq!(default_branch(&answer), Some("dev".to_string()));
    assert_eq!(default_branch(&Json::Null), None);
    assert_eq!(alternative_branch(Some("dev".to_string()), "main"), Some("dev".to_string()));
    assert_eq!(alternative_branch(Some("main".to_string()), "main"), Some("master".to_string()));
    assert_eq!(alternative_branch(None, "master"), Some("main".to_string()));
    assert_eq!(alternative_branch(None, "x"), None);
    let (url, note) = retry_fetch("o", "r", "main", "dev", "a");
    assert_eq!(url, "https://raw.githubusercontent.com/o/r/dev/a");
    assert_eq!(
        note,
        "(branch 'main' nao existe nesse repo; tentei 'dev' e funcionou: https://raw.githubusercontent.com/o/r/dev/a)\n"
    );
}

#[test]
fn only_text_is_fetched() {
    for ok in ["", "text/html", "application/json", "application/xml", "application/javascript"] {
        assert!(check_content_type(ok).is_ok());
    }
    assert!(check_content_type("image/png").is_err());
    assert_eq!(fetch_url_result("n\n", "http://x", 200, "corpo"), "n\n--- GET http://x [200] ---\ncorpo");
}

#[test]
fn long_results_are_cut() {
    let long = "a".repeat(MAX_RESULT_CHARS + 5);
    assert!(fits_cut(&long, MAX_RESULT_CHARS));
    let cut = truncate(long.clone());
    assert_eq!(cut, format!("{}...[TRUNCATED 5 chars omitted]", &long[..MAX_RESULT_CHARS]));
    assert_eq!(truncate("curto".to_string()), "curto");
    assert!(!fits_cut(&format!("a{}", "é".repeat(MAX_RESULT_CHARS)), MAX_RESULT_CHARS));
    assert_eq!(execute(Ok("x".to_string())), "x");
    assert_eq!(execute(Err("x".to_string())), "ERROR: x");
}

#[test]
fn permission_is_asked_and_given() {
    let mut desk = PermissionDesk { installed: false };
    assert_eq!(ask_permission(&desk, "fetch_url", "u"), None);
    assert!(!permission_given(&desk, true, Some(true)));
    assert!(install_permission_channel(&mut desk));
    assert!(!install_permission_channel(&mut desk));
    let asked = ask_permission(&desk, "fetch_url", "u").unwrap();
    assert_eq!(asked.tool, "fetch_url");
    assert_eq!(asked.detail, "u");
    assert!(permission_given(&desk, true, Some(true)));
    assert!(!permission_given(&desk, false, Some(true)));
    assert!(!permission_given(&desk, true, None));
    assert_eq!(permission_needed(&call("fetch_url", r#"{"url":"http://x"}"#)), Some("http://x".to_string()));
    assert_eq!(permission_needed(&call("fetch_url", r#"{"a":1}"#)), Some("{\"a\":1}".to_string()));
    assert_eq!(permission_needed(&call("read_file", "{}")), None);
    assert_eq!(
        denied("fetch_url", "u"),
        "ERROR: acesso negado pelo usuario para 'fetch_url' (u)"
    );
}

#[test]
fn sensitive_tool_waits_for_consent() {
    let fetch = call("fetch_url", r#"{"url":"http://x"}"#);
    let refused = ToolStep::Refuse(denied("fetch_url", "http://x"));
    let closed = PermissionDesk { installed: false };
    assert_eq!(begin_call(&closed, &fetch, "/p"), refused);
    let desk = PermissionDesk { installed: true };
    assert_eq!(
        begin_call(&desk, &fetch, "/p"),
        ToolStep::Ask(PermissionRequest {
            tool: "fetch_url".to_string(),
            detail: "http://x".to_string(),
        })
    );
    assert_eq!(on_permission(&desk, &fetch, "/p", true, Some(false)), refused);
    assert_eq!(on_permission(&desk, &fetch, "/p", true, None), refused);
    assert_eq!(on_permission(&desk, &fetch, "/p", false, None), refused);
    assert!(matches!(
        on_permission(&desk, &fetch, "/p", true, Some(true)),
        ToolStep::Run(ToolPlan::FetchUrl { .. })
    ));
    let list = call("list_dir", r#"{"path":"src"}"#);
    assert_eq!(
        begin_call(&closed, &list, "/p"),
        ToolStep::Run(ToolPlan::ListDir { full: "/p/src".to_string() })
    );
    assert!(matches!(begin_call(&desk, &call("nada", "{}"), "/p"), ToolStep::Fail(_)));
}

const RAW: &str = "https://raw.githubusercontent.com/o/r/main/a/b.txt";

#[test]
fn page_that_is_there_is_taken() {
    let mut f = Fetch::new(RAW.to_string(), "n\n".to_string());
    assert_eq!(f.on_page(200), FetchStep::TakeFirst);
    assert_eq!(
        f.finish(200, "text/plain", "oi"),
        Ok(format!("n\n--- GET {RAW} [200] ---\noi"))
    );
    assert!(f.finish(200, "image/png", "").is_err());
    let mut other = Fetch::new("https://x.org/a".to_string(), String::new());
    assert_eq!(other.on_page(404), FetchStep::TakeFirst);
}

#[test]
fn missing_file_is_tried_on_another_branch() {
    let mut f = Fetch::new(RAW.to_string(), String::new());
    assert_eq!(
        f.on_page(404),
        FetchStep::AskBranch { owner: "o".to_string(), repo: "r".to_string() }
    );
    let there = "https://raw.githubusercontent.com/o/r/dev/a/b.txt";
    assert_eq!(f.on_branch(Some("dev".to_string())), FetchStep::Get(there.to_string()));
    assert_eq!(f.on_retry(Some(200)), FetchStep::TakeSecond);
    assert_eq!(f.url, there);
    assert_eq!(
        f.note,
        format!("(branch 'main' nao existe nesse repo; tentei 'dev' e funcionou: {there})\n")
    );
}

#[test]
fn missing_file_stays_missing() {
    let mut f = Fetch::new(RAW.to_string(), String::new());
    f.on_page(404);
    let master = "https://raw.githubusercontent.com/o/r/master/a/b.txt";
    assert_eq!(f.on_branch(Some("main".to_string())), FetchStep::Get(master.to_string()));
    assert_eq!(f.on_retry(Some(404)), FetchStep::TakeFirst);
    assert_eq!((f.url.as_str(), f.note.as_str()), (RAW, ""));
    let mut lost = Fetch::new(RAW.replace("main", "dev"), String::new());
    lost.on_page(404);
    assert_eq!(lost.on_branch(None), FetchStep::TakeFirst);
    let mut cut = Fetch::new(RAW.to_string(), String::new());
    cut.on_page(404);
    cut.on_branch(None);
    assert_eq!(cut.on_retry(None), FetchStep::TakeFirst);
}
