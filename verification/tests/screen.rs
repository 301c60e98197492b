use drill::agents::HistoryRow;
use drill::config::CloudKind;
use drill::editor::InputLine;
use drill::highlight::{split_with_endings, CodeHighlighter};
use drill::history::StoredSession;
use drill::keys::{KeyCode, KeyPress};
use drill::messages::{UiEvent, WorkerMsg};
use drill::orchestrator::AgentMode;
use drill::overlay::{
    config_modal_lines, footer_line, keep_visible, logo_lines, permission_lines, popup_lines,
    popup_title, short_name, tip_line, visible_end, welcome_places,
};
use drill::popup::{
    complete, find_popup, slash_commands, sort_by_rank, wants_files, Candidate, FileScan,
    InputPopup, PopupItem, PopupKind, MAX_FILES, MENTION_LIMIT,
};
use drill::provider::ProviderEntry;
use drill::provider_ui::{draw, filtered_providers, handle_key, ProviderKeyResult, ProviderNav};
use drill::render::{render, TOOL_RESULT_MAX_LINES};
use drill::screen::TextLine;
use drill::tools::PermissionRequest;
use drill::ui::{fmt_ago, AppState, Kind, SessionInfo, UiLine};
use drill::ui_keys::{nav_to, permission_key, Action, Effect, Nav};

fn state() -> AppState {
    AppState::new(SessionInfo::new(
        "/m/modelo.gguf".to_string(),
        99,
        4096,
        true,
        true,
        "/projeto".to_string(),
    ))
}

fn shown(line: &TextLine) -> String {
    line.spans.iter().map(|s| s.text.as_str()).collect()
}

fn all(lines: &[TextLine]) -> String {
    lines.iter().map(|l| shown(l) + "\n").collect()
}

fn key(code: KeyCode) -> KeyPress {
    KeyPress { code, ctrl: false }
}

fn ctrl(c: char) -> KeyPress {
    KeyPress { code: KeyCode::Char(c), ctrl: true }
}

fn type_text(s: &mut AppState, text: &str) {
    for c in text.chars() {
        assert_eq!(s.read_key(key(KeyCode::Char(c))), None);
    }
}

fn typed(text: &str) -> InputLine {
    let mut line = InputLine::new();
    line.insert(text);
    line
}

fn session(id: &str) -> StoredSession {
    StoredSession {
        id: id.to_string(),
        mode: "solo".to_string(),
        messages: 2,
        last_created: 0,
        preview: format!("previa de {id}"),
    }
}

fn entry(id: &str, cloud: bool) -> ProviderEntry {
    ProviderEntry { id: id.to_string(), name: id.to_string(), detail: "d".to_string(), cloud }
}

#[test]
fn line_is_edited() {
    let mut l = typed("olá");
    assert_eq!(l.pos, 3);
    l.left();
    l.type_char('x');
    assert_eq!(l.text, "olxá");
    l.backspace();
    assert_eq!(l.text, "olá");
    assert_eq!(l.pos, 2);
    l.delete();
    assert_eq!(l.text, "ol");
    l.home();
    l.backspace();
    assert_eq!(l.pos, 0);
    l.right();
    assert_eq!(l.before(), "o");
    l.end();
    assert_eq!(l.pos, 2);
    assert_eq!(l.take(), "ol");
    assert!(l.is_empty());
    assert_eq!(l.pos, 0);
}

#[test]
fn menu_offers_commands() {
    let p = find_popup(&typed("/"), &None, &Vec::new()).unwrap();
    assert_eq!(p.kind, PopupKind::Slash);
    assert_eq!(p.items.len(), slash_commands().len());
    assert_eq!(p.selected, 0);
    let p = find_popup(&typed("/he"), &None, &Vec::new()).unwrap();
    assert!(p.items.iter().all(|i| i.label.contains("he")));
    assert!(find_popup(&typed("oi"), &None, &Vec::new()).is_none());
    assert!(find_popup(&typed("/zzz"), &None, &Vec::new()).is_none());
}

#[test]
fn menu_offers_files() {
    let files: Vec<String> = ["src/deep/main.rs", "main.rs", "src/other.rs"]
        .iter()
        .map(|s| s.to_string())
        .collect();
    let line = typed("veja @main");
    assert!(wants_files(&line));
    assert!(!wants_files(&typed("veja main")));
    let p = find_popup(&line, &None, &files).unwrap();
    assert_eq!(p.kind, PopupKind::Mention);
    assert_eq!(p.trigger_pos, 5);
    let labels: Vec<&str> = p.items.iter().map(|i| i.label.as_str()).collect();
    assert_eq!(labels, vec!["main.rs", "src/deep/main.rs"]);
    // Case does not matter.
    assert!(find_popup(&typed("@MAIN"), &None, &files).is_some());
    let many: Vec<String> = (0..100).map(|n| format!("f{n}")).collect();
    assert_eq!(find_popup(&typed("@f"), &None, &many).unwrap().items.len(), MENTION_LIMIT);
}

#[test]
fn completion_keeps_the_rest() {
    let mut line = typed("veja @ma agora");
    for _ in 0..6 {
        line.left();
    }
    let p = InputPopup {
        kind: PopupKind::Mention,
        trigger_pos: 5,
        items: vec![PopupItem { label: "main.rs".to_string(), detail: String::new() }],
        selected: 0,
    };
    complete(&mut line, &p);
    assert!(line.text.starts_with("veja @main.rs"));
    assert!(line.text.ends_with(" agora"));
    assert_eq!(popup_title(PopupKind::Slash) == popup_title(PopupKind::Mention), false);
    assert!(all(&popup_lines(&p)).contains("main.rs"));
}

#[test]
fn best_files_come_first() {
    let c = |late: bool, size: usize, path: &str| Candidate { late, size, path: path.to_string() };
    let sorted = sort_by_rank(&vec![c(true, 1, "a"), c(false, 9, "b"), c(false, 2, "c")]);
    let order: Vec<&str> = sorted.iter().map(|c| c.path.as_str()).collect();
    assert_eq!(order, vec!["c", "b", "a"]);
}

#[test]
fn files_of_the_project_are_found() {
    let mut scan = FileScan::new("/p");
    assert_eq!(scan.next_dir(), Some("/p".to_string()));
    scan.on_entry("/p/src", Some("src".to_string()), "src", true);
    scan.on_entry("/p/.git", Some(".git".to_string()), ".git", true);
    scan.on_entry("/p/target", Some("target".to_string()), "target", true);
    scan.on_entry("/p/b.rs", Some("b.rs".to_string()), "b.rs", false);
    scan.on_entry("/p/a.rs", Some("a.rs".to_string()), "a.rs", false);
    assert_eq!(scan.next_dir(), Some("/p/src".to_string()));
    scan.on_entry("/p/src/m.rs", Some("src/m.rs".to_string()), "m.rs", false);
    assert_eq!(scan.next_dir(), None);
    let found = scan.finish();
    assert_eq!(found, vec!["a.rs", "b.rs", "src/m.rs"]);
    assert_eq!(scan.next_dir(), None);
    assert_eq!(scan.finish(), found);
    assert!(found.contains(&"a.rs".to_string()));
    assert!(found.contains(&"src/m.rs".to_string()));
    let mut sorted = found.clone();
    sorted.sort();
    assert_eq!(found, sorted);
    let mut scan = FileScan::new("/p");
    scan.next_dir();
    for n in 0..MAX_FILES + 10 {
        let name = format!("f{n}");
        scan.on_entry(&format!("/p/{name}"), Some(name.clone()), &name, false);
    }
    assert_eq!(scan.next_dir(), None);
    assert_eq!(scan.finish().len(), MAX_FILES);
}

#[test]
fn providers_are_parted_and_chosen() {
    let providers = vec![entry("l", false), entry("c", true), entry("d", true)];
    let local = filtered_providers(&providers, ProviderNav::LocalList);
    let cloud = filtered_providers(&providers, ProviderNav::CloudList);
    assert_eq!(local.len() + cloud.len(), providers.len());
    let mut cursor: usize = 0;
    let r = handle_key(KeyCode::Enter, false, ProviderNav::Root, &mut cursor, &providers);
    assert_eq!(r, ProviderKeyResult::EnterGroup(ProviderNav::LocalList));
    let r = handle_key(KeyCode::Down, false, ProviderNav::CloudList, &mut cursor, &providers);
    assert_eq!(r, ProviderKeyResult::Nothing);
    assert_eq!(cursor, 1);
    let r = handle_key(KeyCode::Enter, false, ProviderNav::CloudList, &mut cursor, &providers);
    assert_eq!(r, ProviderKeyResult::Choose("d".to_string()));
    let r = handle_key(KeyCode::Esc, false, ProviderNav::CloudList, &mut cursor, &providers);
    assert_eq!(r, ProviderKeyResult::Back);
    let r = handle_key(KeyCode::Esc, false, ProviderNav::Root, &mut cursor, &providers);
    assert_eq!(r, ProviderKeyResult::Close);
    let lines = draw(ProviderNav::CloudList, &providers, &Some("c".to_string()), 0);
    assert!(all(&lines).contains("d"));
    assert!(ProviderNav::CloudList.is_list());
    assert!(!ProviderNav::Root.is_list());
    assert_ne!(ProviderNav::Root.title(), ProviderNav::LocalList.title());
    assert_eq!(CloudKind::OpenAi.label(), "openai");
}

#[test]
fn answer_is_one_line() {
    let mut s = state();
    s.apply(UiEvent::Content("ol".to_string()));
    s.apply(UiEvent::Content("a".to_string()));
    let last = s.lines.last().unwrap();
    assert_eq!(last.kind, Kind::Assistant);
    assert_eq!(last.text, "ola");
    s.apply(UiEvent::Failure("caiu".to_string()));
    assert_eq!(s.lines.last().unwrap().kind, Kind::Failure);
}

#[test]
fn done_makes_ready() {
    let mut s = state();
    s.gen_active = true;
    s.apply(UiEvent::Done);
    assert!(!s.gen_active);
}

#[test]
fn events_keep_the_typed_text() {
    let mut s = state();
    type_text(&mut s, "meio");
    s.apply(UiEvent::Status("gerando".to_string()));
    s.apply(UiEvent::ToolStart("list_dir".to_string()));
    s.apply(UiEvent::ToolResult { name: "list_dir".to_string(), result: "a.rs".to_string() });
    s.apply(UiEvent::ContextUsage { used: 10, max: 20 });
    s.apply(UiEvent::ModeChanged(AgentMode::Agents));
    assert_eq!(s.input.text, "meio");
    assert_eq!(s.session.ctx_used, 10);
    assert_eq!(s.mode, AgentMode::Agents);
}

#[test]
fn keys_type_and_submit() {
    let mut s = state();
    assert_eq!(s.read_key(key(KeyCode::Enter)), None);
    type_text(&mut s, "oi");
    assert_eq!(s.read_key(key(KeyCode::Enter)), Some(Action::Submit));
    match s.perform(Action::Submit) {
        Effect::Send(WorkerMsg::Turn(t)) => assert_eq!(t, "oi"),
        other => panic!("{other:?}"),
    }
    assert!(s.gen_active);
    assert!(s.input.is_empty());
    assert_eq!(s.lines.last().unwrap().kind, Kind::User);
    assert_eq!(s.read_key(key(KeyCode::Esc)), Some(Action::Interrupt));
    assert_eq!(s.read_key(ctrl('c')), Some(Action::Quit));
    assert_eq!(s.perform(Action::Quit), Effect::Quit);
}

#[test]
fn queued_text_is_sent_later() {
    let mut s = state();
    s.gen_active = true;
    type_text(&mut s, "depois");
    assert_eq!(s.read_key(key(KeyCode::Enter)), Some(Action::Queue));
    s.perform(Action::Queue);
    assert_eq!(s.queue, vec!["depois".to_string()]);
    s.apply(UiEvent::Done);
    assert_eq!(s.start_queued(), Some("depois".to_string()));
    assert!(s.gen_active);
    assert_eq!(s.start_queued(), None);
}

#[test]
fn steered_text_comes_first() {
    let mut s = state();
    s.gen_active = true;
    s.queue.push("segundo".to_string());
    type_text(&mut s, "primeiro");
    s.perform(Action::Steer);
    assert_eq!(s.queue[0], "primeiro");
}

#[test]
fn mode_is_toggled_back() {
    let mut s = state();
    assert_eq!(s.read_key(ctrl('a')), Some(Action::ToggleMode));
    assert!(matches!(s.perform(Action::ToggleMode), Effect::Send(WorkerMsg::SetMode(AgentMode::Agents))));
    assert_eq!(s.mode, AgentMode::Agents);
    s.perform(Action::ToggleMode);
    assert_eq!(s.mode, AgentMode::Solo);
}

#[test]
fn sessions_are_walked() {
    let mut s = state();
    s.open_session_view(vec![session("a"), session("b"), session("c")]);
    assert!(s.session_view);
    assert_eq!(s.selected_session(), Some("a".to_string()));
    assert_eq!(s.read_key(key(KeyCode::Down)), Some(Action::NavSession(Nav::Down(1))));
    s.perform(Action::NavSession(Nav::Down(1)));
    assert_eq!(s.selected_session(), Some("b".to_string()));
    s.perform(Action::NavSession(Nav::Down(20)));
    assert_eq!(s.selected_session(), Some("c".to_string()));
    assert_eq!(nav_to(Nav::First, 2, 3), 0);
    assert_eq!(nav_to(Nav::Last, 0, 3), 2);
    assert_eq!(nav_to(Nav::Up(5), 2, 3), 0);
    assert_eq!(s.perform(Action::OpenSession), Effect::OpenSession("c".to_string()));
    assert_eq!(s.perform(Action::DeleteSession), Effect::DeleteSession("c".to_string()));
    s.session_deleted();
    assert_eq!(s.sessions.len(), 2);
    let lines = s.session_overlay(&vec![10, 20], 5);
    assert!(all(&lines).contains("previa de a"));
    let row = HistoryRow {
        agent_id: "drill".to_string(),
        kind: "main".to_string(),
        input: "pergunta".to_string(),
        reply: "resposta".to_string(),
        tokens: None,
        tps: None,
        context_tokens: None,
        session_id: "a".to_string(),
        mode: "solo".to_string(),
    };
    s.enter_session("a".to_string(), &vec![row]);
    assert_eq!(s.session_id, "a");
    assert!(!s.session_view);
    assert!(s.lines.iter().any(|l| l.text.contains("pergunta")));
}

#[test]
fn overlays_guard_the_line() {
    let mut s = state();
    s.provider_view = true;
    s.read_key(key(KeyCode::Char('x')));
    assert!(s.input.is_empty());
    s.provider_view = false;
    s.models_view = true;
    s.models = vec!["m1".to_string(), "m2".to_string()];
    s.read_key(key(KeyCode::Char('j')));
    assert_eq!(s.models_cursor, 1);
    assert!(s.input.is_empty());
    assert_eq!(s.read_key(key(KeyCode::Enter)), Some(Action::ChooseModel));
    assert!(all(&s.models_overlay(10)).contains("m2"));
}

#[test]
fn requests_wait_in_turn() {
    let mut s = state();
    let ask = |d: &str| PermissionRequest { tool: "fetch_url".to_string(), detail: d.to_string() };
    s.ask_permission(ask("um"));
    s.ask_permission(ask("dois"));
    s.poll_permission();
    assert_eq!(s.pending_permission.as_ref().unwrap().detail, "um");
    s.answer_permission(true);
    s.poll_permission();
    assert_eq!(s.pending_permission.as_ref().unwrap().detail, "dois");
    assert_eq!(permission_key(KeyCode::Char('y')), Some(true));
    assert_eq!(permission_key(KeyCode::Esc), Some(false));
    assert_eq!(permission_key(KeyCode::Tab), None);
    assert!(all(&permission_lines(&ask("http://x"), 40)).contains("http://x"));
}

#[test]
fn menu_is_worked_with_keys() {
    let mut s = state();
    type_text(&mut s, "/");
    assert!(s.popup.is_some());
    s.read_key(key(KeyCode::Down));
    assert_eq!(s.popup.as_ref().unwrap().selected, 1);
    s.read_key(key(KeyCode::Esc));
    assert!(s.popup.is_none());
    let mut s = state();
    s.paste("@");
    assert!(s.needs_files());
    s.load_files(vec!["a.rs".to_string()]);
    s.update_popup();
    s.apply_popup_selection();
    assert!(s.input.text.contains("@a.rs"));
}

#[test]
fn screen_scrolls_within_bounds() {
    let mut s = state();
    s.max_scroll = 5;
    s.scroll_up(20);
    assert_eq!(s.scroll, 5);
    s.scroll_down(2);
    assert_eq!(s.scroll, 3);
    s.scroll_to_bottom();
    assert_eq!(s.scroll, 0);
    assert_eq!(keep_visible(5, 0, 3), 3);
    assert_eq!(visible_end(3, 3, 10), 6);
    assert_eq!(visible_end(8, 3, 10), 10);
}

#[test]
fn conversation_is_rendered() {
    let h = CodeHighlighter::new();
    let lines = vec![
        UiLine { kind: Kind::User, text: "pergunta".to_string() },
        UiLine { kind: Kind::Assistant, text: "veja:\n```rust\nfn x() {}\n```\nfim".to_string() },
    ];
    let out = all(&render(&h, &lines, 40));
    assert!(out.contains("pergunta"));
    assert!(out.contains("fn x() {}"));
    assert!(out.contains("fim"));
    let long: String = (0..200).map(|n| format!("l{n}\n")).collect();
    let cut = render(&h, &vec![UiLine { kind: Kind::ToolResult, text: long }], 40);
    assert!(cut.len() <= TOOL_RESULT_MAX_LINES + 3);
    let mut s = state();
    s.push(Kind::User, "oi".to_string());
    let first = s.rendered_lines(&h, 40, 10);
    let again = s.rendered_lines(&h, 80, 10);
    assert_eq!(first, again);
}

#[test]
fn panels_are_drawn() {
    let s = state();
    let panel = s.right_panel(&vec!["lucy".to_string()], "12", false);
    assert!(all(&panel).contains("modelo.gguf"));
    assert_eq!(short_name("/m/modelo.gguf"), "modelo.gguf");
    assert!(!shown(&s.chat_title()).is_empty());
    assert!(all(&config_modal_lines("segredo", false)).contains("segredo"));
    assert!(!all(&config_modal_lines("segredo", true)).contains("segredo"));
    assert!(shown(&footer_line("/projeto", "4")).contains("/projeto"));
    let (a, b, c) = welcome_places(100, 40);
    for place in [a, b, c] {
        assert!(place.x + place.width <= 100);
        assert!(place.y + place.height <= 40);
    }
    assert!(!logo_lines().is_empty());
    assert!(!shown(&tip_line()).is_empty());
    assert!(!s.welcome_lines().is_empty());
    assert_eq!(s.top(), 0);
    assert!(shown(&s.input_line()).len() > 0);
}

#[test]
fn time_is_told_roughly() {
    assert_ne!(fmt_ago(5), fmt_ago(500));
    assert!(fmt_ago(120).contains('2'));
    assert!(fmt_ago(7200).contains('2'));
    assert!(fmt_ago(172800).contains('2'));
}

#[test]
fn lines_keep_their_endings() {
    assert!(split_with_endings("").is_empty());
    assert_eq!(split_with_endings("a\n\nb"), vec!["a\n", "\n", "b"]);
    assert_eq!(split_with_endings("a\r\n"), vec!["a\r\n"]);
}

#[test]
fn colours_go_on_from_line_to_line() {
    let h = CodeHighlighter::new();
    let lines = h.highlight_code("/* a\nb\n*/ let c = 1;\n", "rs");
    assert_eq!(lines.len(), 3);
    assert_eq!(shown(&lines[1]), "b\n");
    assert_eq!(lines[1].spans[0].look, lines[0].spans[0].look);
    let alone = h.highlight_line("b\n", "rs", 0);
    assert_eq!(shown(&alone), "b\n");
    assert_ne!(alone.spans[0].look, lines[1].spans[0].look);
}

#[test]
fn unknown_language_is_plain_text() {
    let h = CodeHighlighter::new();
    let plain = h.highlight_line("let x = 1;", "nenhuma-linguagem", 12);
    assert_eq!(shown(&plain), "let x = 1;  ");
    assert_eq!(plain.spans.len(), 2);
    let code = h.highlight_line("let x = 1;", "rs", 12);
    assert_eq!(shown(&code), "let x = 1;  ");
    assert!(code.spans.len() > 2);
}

#[test]
fn cleared_screen_shows_nothing() {
    let h = CodeHighlighter::new();
    let mut s = state();
    s.push(Kind::User, "oi".to_string());
    assert!(!s.rendered_lines(&h, 40, 10).is_empty());
    assert!(!s.render_dirty);
    s.input.insert("/clear");
    assert_eq!(s.perform(Action::Submit), Effect::Stay);
    assert!(s.lines.is_empty());
    assert_eq!(s.status, "chat limpo");
    assert!(s.rendered_lines(&h, 40, 10).is_empty());
    assert!(s.render_cache.is_empty());
}
