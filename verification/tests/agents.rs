use drill::agents::{AgentRole, AgentState, AgentTask, ConfigAgent, ManagerEvent, TurnStats};
use drill::chat::{ChatMessage, GenerationType, ToolCall, ToolPreview};
use drill::json;
use drill::json::{parse, Json};
use drill::manager::{AgentManager, MAX_TOOL_ROUNDS};
use drill::orchestrator::{
    agent_file, ask_agent_reply, create_agent_reply, delegation, is_agent_file,
    list_agents_reply, list_agents_table, maestro_dispatch, maestro_prompt, maestro_result,
    tools_json_for, AgentMode, AgentOrchestrator, MaestroPlan, SubagentConfig, MAESTRO_AGENT_ID,
    MAX_TOOL_RESULT, NO_AGENTS, RULE, SUMMARY_PROMPT,
};
use drill::tools;
use drill::tools::ToolPlan;
use drill::turn::{Phase, RemoteModelOutput, RoundStream, ToolOutcome, Turn, NUDGE};

fn config(id: &str, tools: bool, force: bool) -> ConfigAgent {
    ConfigAgent {
        agent_id: id.to_string(),
        role: AgentRole::Agent,
        prompt: "persona".to_string(),
        tools_json: if tools { Some("[]".to_string()) } else { None },
        force_tools: force,
    }
}

fn said(content: &str) -> RemoteModelOutput {
    RemoteModelOutput {
        content: content.to_string(),
        reasoning: String::new(),
        calls: Vec::new(),
        tokens: Some(3),
        tps: None,
        context_tokens: None,
    }
}

fn called(name: &str) -> RemoteModelOutput {
    RemoteModelOutput {
        calls: vec![ToolCall {
            name: name.to_string(),
            call_id: "c1".to_string(),
            command: name.to_string(),
            args: Json::empty_object(),
        }],
        ..said("")
    }
}

fn no_stats() -> TurnStats {
    TurnStats { tokens: None, tps: None, context_tokens: None }
}

fn orchestrator(persona: &str) -> AgentOrchestrator {
    AgentOrchestrator::new(true, 4096, persona.to_string(), 0.6f32.to_bits(), 512, Vec::new(), false)
}

#[test]
fn test_orchestrator_initialization_and_mode() {
    let mut orch = orchestrator("persona do root");
    assert_eq!(orch.mode(), AgentMode::Solo);
    assert!(orch.manager.get(MAESTRO_AGENT_ID).is_some());
    let root = orch.manager.get(MAESTRO_AGENT_ID).unwrap();
    assert_eq!(root.config.role, AgentRole::Root);
    assert_eq!(root.config.prompt, "persona do root");

    orch.set_mode(AgentMode::Agents, "/home/a/.drill/agents");
    assert_eq!(orch.mode(), AgentMode::Agents);
    let root_agents = orch.manager.get(MAESTRO_AGENT_ID).unwrap();
    assert!(root_agents.config.prompt.contains("[drill:maestro]"));
    assert!(root_agents.config.force_tools);
}

#[test]
fn test_maestro_subagent_creation_and_tools() {
    let mut orch = orchestrator("persona teste");
    let args = parse(
        r#"{"name":"tester_agent","description":"especialista em testes unitarios","persona":"Voce escreve testes unitarios concisos.","temp":0.5,"max_tool_rounds":3,"allowed_tools":["read_file","write_file"]}"#,
    )
    .unwrap();
    let plan = maestro_dispatch("create_agent", &args).unwrap();
    let sub = match plan {
        MaestroPlan::CreateAgent { name, description, persona, temp, max_tool_rounds, allowed_tools } => {
            assert_eq!(json::write(&temp.unwrap()), "0.5");
            assert_eq!(max_tool_rounds, 3);
            assert_eq!(allowed_tools, vec!["read_file".to_string(), "write_file".to_string()]);
            SubagentConfig {
                name,
                description,
                persona,
                temp: 0.5f32.to_bits(),
                temp_shown: "0.5".to_string(),
                max_tool_rounds,
                allowed_tools,
            }
        }
        other => panic!("{other:?}"),
    };
    let reply = create_agent_reply(&sub, "/tmp/drill.tester_agent.agent.json");
    assert!(reply.contains("tester_agent"));
    orch.manager.add(sub.to_config(Some("[]".to_string())));

    let sub_state = orch.manager.get("tester_agent").unwrap();
    assert_eq!(sub_state.config.agent_id, "tester_agent");
    assert_eq!(sub_state.config.role, AgentRole::Agent);
    assert_eq!(sub_state.config.prompt, "Voce escreve testes unitarios concisos.");

    let read = maestro_dispatch("read_agent", &parse(r#"{"name":"tester_agent"}"#).unwrap());
    assert_eq!(read, Ok(MaestroPlan::ReadAgent { name: "tester_agent".to_string() }));

    let call = |name: &str, args: &str| tools::ToolCall {
        name: name.to_string(),
        call_id: String::new(),
        args: parse(args).unwrap(),
    };
    let write_call = call(
        "write_file",
        r#"{"path":"hello.txt","content":"conteudo do teste de ferramentas na lib-rust"}"#,
    );
    let (written, raw) = match tools::plan(&write_call, "/projeto").unwrap() {
        ToolPlan::WriteFile { full, content } => (full, content),
        other => panic!("{other:?}"),
    };
    let read_call = call("read_file", r#"{"path":"hello.txt"}"#);
    match tools::plan(&read_call, "/projeto").unwrap() {
        ToolPlan::ReadFile { path, full, offset, limit } => {
            assert_eq!(full, written);
            let result = tools::read_file_result(&path, &raw, offset, limit);
            assert!(result.contains("conteudo do teste de ferramentas na lib-rust"));
        }
        other => panic!("{other:?}"),
    }
}

#[test]
fn plain_turn_replies_at_once() {
    let state = AgentState::new(config("a", false, false));
    let (mut turn, events) = Turn::begin(state, "oi", 8, false);
    assert_eq!(
        events,
        vec![
            ManagerEvent::AgentWorking("a".to_string()),
            ManagerEvent::Status("a: gerando (1)".to_string()),
        ]
    );
    assert!(!turn.offers());
    assert_eq!(turn.on_output(said("tudo bem"), false), vec![ManagerEvent::Status("done".to_string())]);
    assert_eq!(turn.phase, Phase::Done);
    let (result, row) = turn.finish(no_stats(), "root", "oi", "s1", "solo").unwrap();
    assert_eq!(result.reply, "tudo bem");
    assert_eq!(row.reply, "tudo bem");
    assert_eq!(row.input, "oi");
    assert_eq!(row.session_id, "s1");
    let roles: Vec<&str> = turn.state.history.iter().map(|m| m.role.as_str()).collect();
    assert_eq!(roles, vec!["system", "user", "assistant"]);
}

#[test]
fn tool_outcome_goes_back_to_the_model() {
    let state = AgentState::new(config("a", true, false));
    let (mut turn, _) = Turn::begin(state, "liste", 8, true);
    assert!(turn.offers());
    assert_eq!(
        turn.on_output(called("list_dir"), false),
        vec![ManagerEvent::ToolStart("list_dir".to_string())]
    );
    assert_eq!(turn.phase, Phase::Tooling);
    let events = turn.on_tool(ToolOutcome::Done("a.rs".to_string()), "0.1");
    assert!(events.iter().any(|e| matches!(e, ManagerEvent::ToolResult(n, r) if n == "list_dir" && r == "[executou em 0.1s]\na.rs")));
    assert_eq!(turn.phase, Phase::Generating);
    assert_eq!(turn.round, 1);
    let last = turn.messages.last().unwrap();
    assert_eq!(last.text_field("role"), Some("tool"));
    assert_eq!(
        last.text_field("content"),
        Some("\n<tool_result> name=list_dir id=c1\na.rs\n</tool_result>")
    );
    turn.on_output(said("ha um arquivo"), false);
    let (result, _) = turn.finish(no_stats(), "root", "liste", "s", "solo").unwrap();
    assert_eq!(result.reply, "ha um arquivo");
}

#[test]
fn failed_and_missing_tools_are_told() {
    let (mut turn, _) = Turn::begin(AgentState::new(config("a", true, false)), "x", 8, false);
    turn.on_output(called("t"), false);
    turn.on_tool(ToolOutcome::Failed("ruim".to_string()), "0");
    assert!(turn.state.history.last().unwrap().content.contains("ERROR: ruim"));
    turn.on_output(called("t"), false);
    turn.on_tool(ToolOutcome::NoExecutor, "0");
    assert!(turn.state.history.last().unwrap().content.contains("(sem executor de ferramentas)"));
}

#[test]
fn forced_round_is_pushed_twice_then_answers() {
    let (mut turn, _) = Turn::begin(AgentState::new(config("a", true, true)), "faca", 8, false);
    assert_eq!(turn.limit, 9);
    let events = turn.on_output(said("vou fazer"), false);
    assert_eq!(
        events[0],
        ManagerEvent::Status("sem tool call em a; forcando (round 2)".to_string())
    );
    assert_eq!(turn.state.history.last().unwrap().content, NUDGE);
    turn.on_output(said("vou fazer"), false);
    turn.on_output(said("nao posso"), false);
    assert_eq!(turn.phase, Phase::Done);
    assert_eq!(turn.reply, "nao posso");
}

#[test]
fn forced_turn_answers_in_its_last_round() {
    let (mut turn, _) = Turn::begin(AgentState::new(config("a", true, true)), "faca", 2, false);
    for _ in 0..2 {
        turn.on_output(called("t"), false);
        turn.on_tool(ToolOutcome::Done("ok".to_string()), "0");
    }
    assert!(!turn.offers());
    turn.on_output(called("t"), false);
    assert_eq!(turn.phase, Phase::Done);
}

#[test]
fn unforced_turn_can_run_out_of_rounds() {
    let (mut turn, _) = Turn::begin(AgentState::new(config("a", true, false)), "faca", 1, false);
    turn.on_output(called("t"), false);
    turn.on_tool(ToolOutcome::Done("ok".to_string()), "0");
    assert_eq!(turn.phase, Phase::Exhausted);
    assert!(turn.finish(no_stats(), "root", "faca", "s", "solo").is_err());
}

#[test]
fn interrupt_ends_the_turn() {
    let (mut turn, _) = Turn::begin(AgentState::new(config("a", true, true)), "faca", 8, false);
    let events = turn.on_output(called("t"), true);
    assert_eq!(events, vec![ManagerEvent::Status("interrompido".to_string())]);
    assert_eq!(turn.phase, Phase::Done);
}

#[test]
fn remote_turn_goes_as_the_local_one() {
    let (mut a, _) = Turn::begin(AgentState::new(config("a", true, true)), "x", 8, false);
    let (mut b, _) = Turn::begin(AgentState::new(config("a", true, true)), "x", 8, true);
    assert_eq!(a.on_output(called("t"), false), b.on_output(called("t"), false));
    assert_eq!(a.phase, b.phase);
    assert_eq!(a.state, b.state);
    assert!(a.messages.is_empty());
    assert_eq!(b.messages.len(), 3);
}

#[test]
fn call_written_as_text_is_recovered() {
    let (mut turn, _) = Turn::begin(AgentState::new(config("a", true, false)), "x", 8, false);
    let events = turn.on_output(said("{\"name\":\"list_dir\",\"arguments\":{\"path\":\".\"}}"), false);
    assert_eq!(
        events[0],
        ManagerEvent::Status("tool call via fallback JSON: list_dir".to_string())
    );
    assert_eq!(turn.phase, Phase::Tooling);
}

#[test]
fn pieces_of_a_round_are_gathered() {
    let mut s = RoundStream::new();
    let shown = s.on_piece(GenerationType::Reasoning("hm".to_string()), false, true);
    assert_eq!(shown, Some(ManagerEvent::Stream(GenerationType::Reasoning("hm".to_string()))));
    assert_eq!(s.on_piece(GenerationType::Content("a".to_string()), false, false), None);
    let preview = ToolPreview {
        path: "p".to_string(),
        action: "a".to_string(),
        content_chunk: String::new(),
        reset: false,
        done: true,
        truncated: false,
    };
    s.on_piece(GenerationType::ToolPreview(preview), false, true);
    let out = s.into_output("a".to_string());
    assert_eq!(out.reasoning, "hm");
    assert_eq!(out.content, "a");
    assert!(out.calls.is_empty());
}

#[test]
fn manager_keeps_agents() {
    let mut m = AgentManager::new();
    m.add(config("a", false, false));
    m.add(ConfigAgent { role: AgentRole::Root, ..config("r", false, false) });
    assert_eq!(m.agent_ids().len(), 2);
    assert_eq!(m.root_ids(), vec!["r".to_string()]);
    assert!(m.is_root("r"));
    assert!(!m.is_root("a"));
    assert!(m.get("b").is_none());
    m.add(ConfigAgent { prompt: "outra".to_string(), ..config("a", false, false) });
    assert_eq!(m.agent_ids().len(), 2);
    assert_eq!(m.get("a").unwrap().config.prompt, "outra");
    m.set_summary("a", "feito".to_string());
    assert_eq!(m.get("a").unwrap().summary, Some("feito".to_string()));
    m.resume("a", vec![ChatMessage::plain("user", "antes")]);
    assert_eq!(m.history_of("a").unwrap().len(), 1);
    assert!(m.history_of("b").is_none());
    m.set_session("s9", "agents");
    assert_eq!(m.session_id(), "s9");
    assert_eq!(m.session_mode(), "agents");
    assert_eq!(MAX_TOOL_ROUNDS, 8);
}

#[test]
fn manager_queues_only_while_it_runs() {
    let mut m = AgentManager::new();
    m.add(config("a", false, false));
    assert!(!m.is_running());
    assert!(m.enqueue("a", "oi").is_err());
    m.run();
    assert!(m.is_running());
    let lost = m.enqueue("b", "oi").unwrap();
    assert!(m.begin_queued(&lost).is_err());
    let task = m.enqueue("a", "oi").unwrap();
    assert_eq!(task, AgentTask { agent_id: "a".to_string(), input: "oi".to_string() });
    let (mut turn, _) = m.begin_queued(&task).unwrap();
    turn.on_output(said("ola"), false);
    m.finish_queued(turn.state);
    assert_eq!(m.history_of("a").unwrap().len(), 3);
    assert!(m.begin_inline("nada", "x").is_err());
    assert!(m.begin_remote("nada", "x").is_err());
    let (turn, _) = m.begin_remote("a", "x").unwrap();
    assert_eq!(turn.messages.len(), 4);
}

#[test]
fn mode_toggles_back() {
    let mut mode = AgentMode::Solo;
    mode.toggle();
    assert_eq!(mode, AgentMode::Agents);
    mode.toggle();
    assert_eq!(mode, AgentMode::Solo);
    assert_eq!(AgentMode::Agents.stored(), "agents");
    assert_eq!(AgentMode::Solo.stored(), "solo");
}

#[test]
fn maestro_tools_are_planned() {
    let none = parse("{}").unwrap();
    assert_eq!(maestro_dispatch("list_agents", &none), Ok(MaestroPlan::ListAgents));
    assert!(maestro_dispatch("read_agent", &none).is_err());
    assert!(maestro_dispatch("create_agent", &none).is_err());
    assert!(maestro_dispatch("ask_agent", &none).is_err());
    assert!(maestro_dispatch("outra", &none).is_err());
    let ask = parse(r#"{"name":"lucy","prompt":"ok?"}"#).unwrap();
    assert_eq!(
        maestro_dispatch("ask_agent", &ask),
        Ok(MaestroPlan::AskAgent { name: "lucy".to_string(), prompt: "ok?".to_string() })
    );
}

#[test]
fn agents_are_listed() {
    assert_eq!(RULE.chars().count(), 100);
    assert!(RULE.chars().all(|c| c == '-'));
    assert_eq!(list_agents_reply(&Vec::new()), Ok(NO_AGENTS.to_string()));
    let agents = vec![SubagentConfig {
        name: "lucy".to_string(),
        description: "testes".to_string(),
        persona: "p".to_string(),
        temp: 0.5f32.to_bits(),
        temp_shown: "0.5".to_string(),
        max_tool_rounds: 3,
        allowed_tools: vec!["read_file".to_string()],
    }];
    let table = list_agents_table(&agents).unwrap();
    assert!(table.contains("lucy"));
    assert!(table.contains("testes"));
    assert!(table.contains(RULE));
    assert_eq!(list_agents_reply(&agents).unwrap(), table);
}

#[test]
fn answers_of_agents_are_wrapped() {
    let ok = ask_agent_reply("lucy", Ok(("feito".to_string(), "resumo".to_string()))).unwrap();
    assert!(ok.contains("lucy") && ok.contains("resumo"));
    assert!(ask_agent_reply("lucy", Err("caiu".to_string())).is_err());
    let (work, summary) = delegation("faca", SUMMARY_PROMPT);
    assert_eq!(work, ("faca".to_string(), "main".to_string()));
    assert_eq!(summary, (SUMMARY_PROMPT.to_string(), "resumo".to_string()));
    assert!(maestro_prompt("/raiz").contains("/raiz"));
    let long = "x".repeat(MAX_TOOL_RESULT + 1);
    let cut = maestro_result(Ok(long)).unwrap();
    assert!(cut.starts_with(&"x".repeat(MAX_TOOL_RESULT)));
    assert_eq!(maestro_result(Ok("curto".to_string())), Ok("curto".to_string()));
}

#[test]
fn orchestrator_runs_only_with_a_runtime() {
    let orch = orchestrator("p");
    assert!(orch.run_turn("oi").is_err());
    let mut local =
        AgentOrchestrator::new(true, 4096, "p".to_string(), 0, 512, Vec::new(), true);
    let task = local.run_turn("oi").unwrap();
    assert_eq!(task.agent_id, MAESTRO_AGENT_ID);
    local.set_session("s2".to_string());
    assert_eq!(local.session_id, "s2");
    assert_eq!(local.ctx_max(), 4096);
    assert_eq!(local.n_predict(), 512);
    assert!(local.tools_enabled());
    assert_eq!(orch.temp(), 0.6f32.to_bits());
}

#[test]
fn agents_are_told_of_their_tools() {
    assert_eq!(tools_json_for(&Vec::new()), Some(tools::TOOLS_JSON.to_string()));
    let allowed = vec!["write_file".to_string(), "read_file".to_string(), "nada".to_string()];
    let told = parse(&tools_json_for(&allowed).unwrap()).unwrap();
    let names: Vec<&str> = told
        .as_items()
        .unwrap()
        .iter()
        .map(|t| t.get("function").unwrap().text_field("name").unwrap())
        .collect();
    assert_eq!(names, vec!["read_file", "write_file"]);
}

#[test]
fn agent_files_are_known_by_their_names() {
    assert_eq!(agent_file("revisor"), "drill.revisor.agent.json");
    assert!(is_agent_file("drill.revisor.agent.json"));
    assert!(!is_agent_file("drill.revisor.json"));
    assert!(!is_agent_file("revisor.agent.json"));
}

#[test]
fn remote_turn_has_the_figures_of_its_last_answer() {
    let mut m = AgentManager::new();
    m.add(config("a", true, false));
    m.set_max_tool_rounds(usize::MAX);
    let (mut turn, _) = m.begin_remote("a", "liste").unwrap();
    let first = RemoteModelOutput {
        calls: vec![ToolCall {
            name: "list_dir".to_string(),
            call_id: "1".to_string(),
            command: "list_dir".to_string(),
            args: parse("{}").unwrap(),
        }],
        tokens: Some(9),
        ..said("")
    };
    turn.on_output(first, false);
    turn.on_tool(ToolOutcome::Done("src".to_string()), "0.1");
    turn.on_output(RemoteModelOutput { tokens: Some(21), context_tokens: Some(7), ..said("pronto") }, false);
    let (result, row) = turn.finish_remote("root", "liste", "s", "solo").unwrap();
    assert_eq!(result.reply, "pronto");
    assert_eq!((result.tokens, result.tps, result.context_tokens), (Some(21), None, Some(7)));
    assert_eq!((row.tokens, row.context_tokens), (Some(21), Some(7)));
}

#[test]
fn remote_turn_is_like_a_local_one() {
    let mut m = AgentManager::new();
    m.add(config("a", true, true));
    m.run();
    let (mut local, seen) = m.begin_inline("a", "faca").unwrap();
    let (mut remote, told) = m.begin_remote("a", "faca").unwrap();
    assert_eq!(seen, told);
    for answer in ["vou fazer", "ainda vou", "pronto"] {
        assert_eq!(local.on_output(said(answer), false), remote.on_output(said(answer), false));
        assert_eq!(local.phase, remote.phase);
    }
    assert_eq!(local.reply, remote.reply);
    assert_eq!(local.state.history.len(), remote.state.history.len());
}

#[test]
fn history_row_bears_the_id_asked_for() {
    let mut m = AgentManager::new();
    m.add(config("a", false, false));
    m.add(config("b", false, false));
    assert_eq!(m.get("b").unwrap().config.agent_id, "b");
    let (mut turn, _) = m.begin_remote("b", "oi").unwrap();
    turn.on_output(said("ola"), false);
    let (_, row) = turn.finish_remote("root", "oi", "s", "solo").unwrap();
    assert_eq!(row.agent_id, "b");
}
