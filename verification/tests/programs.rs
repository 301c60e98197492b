use drill::agents::{HistoryRow, ManagerEvent};
use drill::chat::GenerationType;
use drill::cli::{
    banner, build_settings, grants, is_yes, loading_line, needs_setup, parse_count, report, resolve,
    run_session_id, setup_plan, start_mode, Cli, Effective, EngineParams, Report,
};
use drill::config::load_or_create;
use drill::history::{
    escape_filter, get_session, last_rows, list_sessions, session_filter, History, StoredRow,
};
use drill::inference::{
    caps_line, guess_mtp_model, parse_arg, parse_csv_arg, setup_calls, InferenceOpts, StreamState,
    ANSI_RESET, ANSI_THINKING,
};
use drill::listen::{
    apply_config, colorize, config_props, event_line, find_device, last_window, transcript_line,
    vad_model_candidate, Listener, Opts, Probe, SpeechEnv, CYAN, DEFAULT_SPEECH_MODEL,
    DEFAULT_VAD_MODEL, RESET,
};
use drill::orchestrator::AgentMode;
use drill::runtime::ParamCall;
use drill::sst::WhisperSst;

fn args(items: &[&str]) -> Vec<String> {
    items.iter().map(|s| s.to_string()).collect()
}

fn row(id: &str, mode: &str, n: i64) -> HistoryRow {
    HistoryRow {
        agent_id: "drill".to_string(),
        kind: "root".to_string(),
        input: format!("msg {n}"),
        reply: format!("reply {n}"),
        tokens: None,
        tps: None,
        context_tokens: None,
        session_id: id.to_string(),
        mode: mode.to_string(),
    }
}

fn effective(cli: &Cli) -> Effective {
    let (cfg, _, _) = load_or_create(None, 1, 2);
    resolve(cli, &cfg, None, "/cwd", "/c.json")
}

fn speech_env() -> SpeechEnv {
    SpeechEnv { model: None, whisper_model: None, vad_model: None, language: None, prompt: None }
}

fn listen_opts(items: &[&str]) -> Result<Option<Opts>, String> {
    let list = args(items);
    let reals = list.iter().map(|a| a.parse::<f64>().ok().map(f64::to_bits)).collect();
    Opts::parse(&list, &reals, &speech_env(), false)
}

#[test]
fn session_crud() {
    let mut h = History::new("/tmp/drill");
    h.record(row("s1", "solo", 1));
    h.record(row("s1", "solo", 2));
    h.record(row("s2", "agents", 3));
    let mut stored = Vec::new();
    let mut moment = 100.0f64;
    while let Some(next) = h.next() {
        stored.push(StoredRow::of(&next, moment.to_bits()));
        moment += 1.0;
    }

    let sessions = h.list_sessions(&stored);
    assert_eq!(sessions.len(), 2);
    let s1 = sessions.iter().find(|s| s.id == "s1").unwrap();
    assert_eq!(s1.mode, "solo");
    assert_eq!(s1.messages, 2);
    assert_eq!(s1.preview, "msg 2");

    let of_s1: Vec<StoredRow> =
        stored.iter().filter(|r| r.session_id == "s1").map(|r| r.copy()).collect();
    let rows = h.get_session(&of_s1);
    assert_eq!(rows.len(), 2);
    assert_eq!(rows[0].input, "msg 1");

    stored.retain(|r| r.session_id != "s1");
    let sessions = h.list_sessions(&stored);
    assert_eq!(sessions.len(), 1);
    assert_eq!(sessions[0].id, "s2");
    assert_eq!(sessions[0].mode, "agents");
}

#[test]
fn sessions_are_in_order() {
    let at = |id: &str, n: i64, when: f64| StoredRow::of(&row(id, "solo", n), when.to_bits());
    let rows = vec![at("a", 1, 5.0), at("b", 2, 9.0), at("a", 3, 2.0)];
    let sessions = list_sessions(&rows);
    assert_eq!(sessions[0].id, "b");
    assert_eq!(sessions[1].id, "a");
    let inputs: Vec<String> =
        get_session(&vec![at("a", 1, 5.0), at("a", 3, 2.0)]).into_iter().map(|r| r.input).collect();
    assert_eq!(inputs, args(&["msg 3", "msg 1"]));
    let latest = |n: usize| -> Vec<String> {
        last_rows(&rows, n).into_iter().map(|r| r.input).collect()
    };
    assert_eq!(latest(2), args(&["msg 2", "msg 1"]));
    assert_eq!(latest(0), args(&[]));
    assert_eq!(latest(9), args(&["msg 2", "msg 1", "msg 3"]));
    let stored = at("a", 7, 1.0);
    assert_eq!(stored.restore().input, "msg 7");
    assert_eq!(stored.restore().session_id, "a");
}

#[test]
fn filters_are_escaped() {
    assert_eq!(escape_filter("d'agua"), "d''agua");
    assert_eq!(escape_filter("nada"), "nada");
    assert!(session_filter("d'agua").contains("d''agua"));
    assert!(History::new("/db").path.starts_with("/db/"));
}

#[test]
fn command_line_is_read() {
    assert!(Cli::parse(&args(&["--help"])).is_none());
    let cli = Cli::parse(&args(&[
        "--model", "/a.gguf", "--ngl", "12", "--model", "/b.gguf", "--no-tools", "--dir", "/d",
    ]))
    .unwrap();
    assert_eq!(cli.model, Some("/b.gguf".to_string()));
    assert_eq!(cli.ngl, Some(12));
    assert_eq!(cli.tools, Some(false));
    assert_eq!(parse_count("12"), Some(12));
    assert_eq!(parse_count("-1"), None);
    let e = effective(&cli);
    assert_eq!(e.model, "/b.gguf");
    assert_eq!(e.ngl, 12);
    assert_eq!(e.dir, "/d");
    assert!(!e.tools);
    let plain = effective(&Cli::parse(&Vec::new()).unwrap());
    assert_eq!(plain.dir, "/cwd");
    assert_eq!(plain.config_path, "/c.json");
}

#[test]
fn program_says_what_it_does() {
    let e = effective(&Cli::parse(&args(&["--model", "/m.gguf"])).unwrap());
    assert!(loading_line(&e).contains("/m.gguf"));
    assert!(banner(&e, true, "local").contains("local"));
    assert!(needs_setup(&e, false, true));
    assert_eq!(start_mode("agents"), AgentMode::Agents);
    assert_eq!(start_mode("solo"), AgentMode::Solo);
    assert_eq!(run_session_id(12, 34), "12-34");
    assert!(is_yes("s"));
    assert!(grants(" S \n"));
    assert!(!grants("nao"));
    assert_eq!(
        report(&ManagerEvent::Stream(GenerationType::Content("a".to_string()))),
        Report::Out("a".to_string())
    );
    assert_ne!(report(&ManagerEvent::Status("x".to_string())), Report::Silent);
}

#[test]
fn engine_is_set_up() {
    let e = effective(&Cli::parse(&Vec::new()).unwrap());
    let p = EngineParams::from_eff(&e);
    assert_eq!(p.ctx, e.ctx);
    let temp = (f32::from_bits(p.temp) as f64).to_bits();
    assert!(build_settings("/m", "", false, true, &p, temp).is_err());
    assert!(build_settings("/m", "/p", true, false, &p, temp).is_err());
    let s = build_settings("/m", "", true, false, &p, temp).unwrap();
    assert_eq!(s.model_path, "/m");
    assert_eq!(s.mmproj_path, None);
    assert_eq!(s.temp, temp);
    assert!(setup_plan(&p).stop.is_none());
}

#[test]
fn inference_arguments_are_read() {
    let a = args(&["x", "--model", "/m.gguf", "--media", "a.png, b.png"]);
    assert_eq!(parse_arg(&a, "--model", "d"), "/m.gguf");
    assert_eq!(parse_arg(&a, "--nada", "d"), "d");
    assert_eq!(parse_csv_arg(&a, "--media"), args(&["a.png", "b.png"]));
    assert!(parse_csv_arg(&a, "--nada").is_empty());
    let o = InferenceOpts::read(&a);
    assert_eq!(o.model, "/m.gguf");
    let calls = setup_calls(&o, &None, "", "");
    assert!(!calls.is_empty());
    assert!(!calls.contains(&ParamCall::NCtx(0)));
    let names = args(&["modelo.gguf", "mtp-b.gguf", "mtp-a.gguf", "mtp-a.txt"]);
    assert_eq!(guess_mtp_model(&names), Some("mtp-a.gguf".to_string()));
    assert_eq!(guess_mtp_model(&Vec::new()), None);
    assert!(caps_line("m", &vec![("vision".to_string(), true)]).contains("vision"));
}

#[test]
fn thinking_is_shown_apart() {
    let mut s = StreamState::new();
    let think = s.stream(&GenerationType::Reasoning("hm".to_string()));
    assert_eq!(think, format!("{ANSI_THINKING}hm{ANSI_RESET}"));
    let answer = s.stream(&GenerationType::Content("oi".to_string()));
    assert_eq!(answer, "\n\noi");
    let more = s.stream(&GenerationType::Content("!".to_string()));
    assert_eq!(more, "!");
    s.reset();
    assert_eq!(s, StreamState::new());
}

#[test]
fn speech_arguments_are_read() {
    assert_eq!(listen_opts(&["-h"]), Ok(None));
    let o = listen_opts(&[
        "/m.bin", "--vad", "--step-ms", "5", "--vad-threshold", "0.25", "--chunk-ms", "100",
        "--language", "en", "--language", "fr",
    ])
    .unwrap()
    .unwrap();
    assert_eq!(o.model_path, "/m.bin");
    assert!(o.vad_enabled);
    assert_eq!(o.step_ms, Some(5));
    assert_eq!(o.vad_threshold, Some(0.25f64.to_bits()));
    assert_eq!(o.chunk_ms, 100);
    assert_eq!(o.language, Some("fr".to_string()));
    assert_eq!(o.length_ms, Some(4000));
    for (items, wanted) in [
        (vec!["--model"], "missing value for --model"),
        (vec!["--step-ms", "x"], "invalid --step-ms"),
        (vec!["--chunk-ms", "-1"], "invalid --chunk-ms"),
        (vec!["--vad-threshold", "x"], "invalid --vad-threshold"),
        (vec!["--nada"], "unknown flag: --nada"),
        (vec!["a", "b"], "unexpected positional argument: b"),
    ] {
        assert_eq!(listen_opts(&items), Err(wanted.to_string()));
    }
    let plain = listen_opts(&[]).unwrap().unwrap();
    assert_eq!(plain.model_path, DEFAULT_SPEECH_MODEL);
    assert_eq!(plain.language, Some("pt".to_string()));
    assert_eq!(plain.vad_model_path, None);
    assert_eq!(vad_model_candidate(&speech_env()), DEFAULT_VAD_MODEL);
    let env = SpeechEnv { model: Some("/e.bin".to_string()), ..speech_env() };
    let there = Opts::parse(&Vec::new(), &Vec::new(), &env, true).unwrap().unwrap();
    assert_eq!(there.model_path, "/e.bin");
    assert_eq!(there.vad_model_path, Some(DEFAULT_VAD_MODEL.to_string()));
}

#[test]
fn speech_engine_is_configured() {
    let o = listen_opts(&["/m.bin", "--translate", "--vad-threshold", "0.25", "--n-threads", "3"])
        .unwrap()
        .unwrap();
    let props = config_props(&o);
    assert_eq!(props[0].name, "--model");
    assert_eq!(props[0].value, "/m.bin");
    let mut engine = WhisperSst::new("/x".to_string(), None, true, false, None, 8);
    apply_config(&mut engine, &o);
    assert_eq!(engine.model_path, "/m.bin");
    assert!(engine.translate);
    assert!(!engine.use_gpu);
    assert_eq!(engine.n_threads, 3);
    assert_eq!(engine.length_ms, 4000);
    assert_eq!(f64::from_bits(engine.vad_threshold), 0.25);
}

#[test]
fn speech_begins_with_the_second_hit() {
    let mut l = Listener::new(1000);
    assert_eq!((l.voice_samples, l.probe_samples, l.limit), (10_000, 1250, 1500));
    l.on_chunk(&vec![1; 1000]);
    assert_eq!(l.probe(), Probe::Wait);
    l.on_chunk(&vec![2; 1000]);
    assert_eq!(l.history.len(), 1500);
    assert_eq!(l.history[0], 1);
    assert_eq!(l.probe(), Probe::Heard);
    assert_eq!(l.on_heard(true, true), (false, None));
    l.on_quiet();
    assert_eq!(l.on_heard(true, true), (false, None));
    assert_eq!(l.on_heard(true, false), (false, None));
    assert_eq!(l.on_heard(true, true), (true, None));
    assert_eq!(l.recording.len(), 1500);
    assert_eq!(l.probe(), Probe::StillSpeaking);
    l.on_chunk(&vec![3; 10]);
    assert_eq!(l.recording.len(), 1510);
    assert_eq!(l.on_still(false), None);
    assert_eq!(l.on_still(true), None);
    for _ in 0..3 {
        assert_eq!(l.on_still(false), None);
    }
    let said = l.on_still(false).unwrap();
    assert_eq!(said.len(), 1510);
    assert!(!l.active);
    assert!(l.history.is_empty());
    assert_eq!(l.on_stop(), None);
}

#[test]
fn long_speech_is_handed_out() {
    let mut l = Listener::new(0);
    assert_eq!((l.voice_samples, l.probe_samples, l.limit), (1, 1, 2));
    l.on_chunk(&vec![7, 8, 9]);
    l.on_heard(true, true);
    assert_eq!(l.on_heard(true, true), (true, Some(vec![8, 9])));
    let mut l = Listener::new(1000);
    l.on_chunk(&vec![1; 1500]);
    l.on_heard(true, true);
    l.on_heard(true, true);
    l.on_chunk(&vec![2; 9000]);
    assert_eq!(l.on_still(true).unwrap().len(), 10_500);
    l.on_chunk(&vec![1; 1500]);
    l.on_heard(true, true);
    l.on_heard(true, true);
    assert_eq!(l.on_stop().unwrap().len(), 1500);
}

#[test]
fn heard_text_is_shown() {
    assert_eq!(colorize(CYAN, "x"), format!("{CYAN}x{RESET}"));
    assert_eq!(event_line("  "), None);
    assert!(event_line(" oi ").unwrap().contains(" oi "));
    assert_eq!(transcript_line(" \n"), None);
    assert!(!transcript_line(" oi ").unwrap().contains(" oi "));
    assert_eq!(find_device(&args(&["a", "b"]), "b"), Ok(1));
    assert_eq!(find_device(&args(&["a"]), "c"), Err("input device not found: c".to_string()));
    assert_eq!(last_window(2000, 1000, 1250), Some(1250));
    assert_eq!(last_window(1250, 1000, 1250), None);
}

#[test]
fn last_rows_are_those_recorded_last() {
    let rows: Vec<StoredRow> = (1..6)
        .map(|n| StoredRow::of(&row("a", "solo", n), (n as f64).to_bits()))
        .collect();
    let inputs: Vec<String> = last_rows(&rows, 2).into_iter().map(|r| r.input).collect();
    assert_eq!(inputs, args(&["msg 5", "msg 4"]));
}

#[test]
fn data_uris_of_a_list_stay_whole() {
    let read = |value: &str| parse_csv_arg(&args(&["--audio-b64", value]), "--audio-b64");
    assert_eq!(
        read("data:audio/wav;base64,AAAA,data:audio/mp3;base64,BBBB"),
        args(&["data:audio/wav;base64,AAAA", "data:audio/mp3;base64,BBBB"])
    );
    assert_eq!(
        read("QQ==, data:image/png;base64,QUJD ,Qg=="),
        args(&["QQ==", "data:image/png;base64,QUJD", "Qg=="])
    );
    assert_eq!(read("data:image/png;base64"), args(&["data:image/png;base64"]));
    assert_eq!(read("a;base64,b,,data:c,d"), args(&["a;base64", "b", "data:c", "d"]));
}
