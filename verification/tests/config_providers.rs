use drill::agent::{apply_change, Agent, Change, RootTurn, Worker, WorkerReply, WorkerTask, ONLY_CLOUD};
use drill::cloud::{
    anthropic_tools, build_generator, build_request, endpoint, google_tools, has_tools, http_error,
    list_models, models_request, openai_chat_tools, responses_tools, vendor_for, Vendor,
};
use drill::config::{
    ensure_defaults, is_blank, load_or_create, new_id, CloudKind, CloudProvider, DrillConfig,
    LocalProvider, DEFAULT_MODEL, DEFAULT_TEMP_BITS,
};
use drill::json;
use drill::json::{parse, Json};
use drill::messages::{UiEvent, WorkerMsg};
use drill::orchestrator::AgentMode;
use drill::provider::{
    default_router, env_var, is_chat_model, persist_cloud, persist_effort, persist_local_model,
    persist_selected, pick_chat_model, resolve_cloud_key, EnvKeys, ProviderStore, Selected,
};

fn no_keys() -> EnvKeys {
    EnvKeys { openai: None, anthropic: None, google: None }
}

fn groq() -> CloudProvider {
    CloudProvider {
        id: "c1".to_string(),
        name: "groq".to_string(),
        kind: CloudKind::OpenAi,
        base_url: "https://api.groq.com/openai/v1".to_string(),
        model: String::new(),
        router: "/chat/completions".to_string(),
        api_key: String::new(),
        reasoning_effort: "medium".to_string(),
        ctx: 8192,
    }
}

fn cloud_config() -> DrillConfig {
    let mut cfg = DrillConfig::default();
    cfg.providers.cloud.push(groq());
    cfg.provider_selected_uuid = Some("c1".to_string());
    cfg
}

fn agent_of(cfg: &DrillConfig) -> Agent {
    Agent::new(
        true,
        4096,
        "voce e um agente de teste global".to_string(),
        ProviderStore::new(cfg),
        0.7f32.to_bits(),
        512,
        Vec::new(),
        false,
    )
}

fn value(s: &str) -> Json {
    parse(s).unwrap()
}

#[test]
fn provider_local_default_and_summary() {
    let mut parsed = DrillConfig::default();
    parsed.model = String::new();
    parsed.tools = true;
    let (cfg, _, _) = load_or_create(Some(parsed), 7, 9);
    let agent = agent_of(&cfg);
    assert!(!agent.provider.is_cloud());
    assert!(agent.provider_summary(&no_keys()).contains("local"));
}

#[test]
fn groq_switch_and_list() {
    let (mut cfg, _, _) = load_or_create(Some(cloud_config()), 7, 9);
    let keys = EnvKeys { openai: Some("chave".to_string()), anthropic: None, google: None };
    let mut worker = Worker::new(agent_of(&cfg));
    let (_, task) = worker.on_message(WorkerMsg::SetProvider("c1".to_string()), &keys, "/a", "novo");
    match task {
        WorkerTask::Save(change) => apply_change(&mut cfg, &change),
        other => panic!("{other:?}"),
    }
    let (_, task) = worker.on_reply(WorkerReply::Saved(Ok(())), &keys);
    assert!(matches!(task, WorkerTask::FetchModels(_)));
    let models = vec!["whisper-large".to_string(), "llama-3.3-70b".to_string()];
    let (events, task) = worker.on_reply(WorkerReply::Models(Ok(models.clone())), &keys);
    let mut all = events;
    if let WorkerTask::Save(change) = task {
        apply_change(&mut cfg, &change);
        let (events, _) = worker.on_reply(WorkerReply::Saved(Ok(())), &keys);
        all.extend(events);
    }
    let told = format!("{all:?}");
    assert!(told.contains("groq") || told.contains("openai"), "{told}");
    let cloud = worker.agent.provider.selected_cloud().unwrap();
    assert_eq!(cloud.model, "llama-3.3-70b");
    assert!(cloud.base_url.contains("groq.com"));
    assert_eq!(cfg.provider_selected_uuid.as_deref(), Some("c1"));
    assert_eq!(cfg.providers.cloud[0].model, cloud.model);
    let listing = worker.agent.list_models_remote(&models).unwrap();
    assert!(listing.contains("Modelos em"), "listing={listing}");
}

#[test]
fn ensured_configuration_is_sound_and_stays() {
    let mut cfg = DrillConfig::default();
    cfg.model = "  ".to_string();
    assert!(ensure_defaults(&mut cfg, 0xabc, 42));
    assert_eq!(cfg.providers.local.len(), 1);
    assert_eq!(cfg.providers.local[0].model, DEFAULT_MODEL);
    assert_eq!(cfg.provider_selected_uuid, Some(cfg.providers.local[0].id.clone()));
    assert_eq!(cfg.providers.local[0].temp, DEFAULT_TEMP_BITS);
    assert_eq!(f32::from_bits(DEFAULT_TEMP_BITS), 0.6);
    let id = cfg.provider_selected_uuid.clone();
    assert!(!ensure_defaults(&mut cfg, 1, 1));
    assert_eq!(cfg.provider_selected_uuid, id);
    cfg.provider_selected_uuid = Some("perdido".to_string());
    assert!(ensure_defaults(&mut cfg, 1, 1));
    assert_eq!(cfg.provider_selected_uuid, id);
}

#[test]
fn missing_configuration_is_created() {
    let (_, created, save) = load_or_create(None, 5, 6);
    assert!(created);
    assert!(save);
    assert_eq!(new_id("local", 0x1f, 16), "local-1f-16");
    assert!(is_blank(" \t"));
    assert!(!is_blank("a"));
}

#[test]
fn keys_are_resolved() {
    let mut cloud = groq();
    assert_eq!(resolve_cloud_key(&cloud, &no_keys()), None);
    let keys = EnvKeys {
        openai: Some("o".to_string()),
        anthropic: Some("a".to_string()),
        google: Some("g".to_string()),
    };
    assert_eq!(resolve_cloud_key(&cloud, &keys), Some("o".to_string()));
    cloud.api_key = "propria".to_string();
    assert_eq!(resolve_cloud_key(&cloud, &keys), Some("propria".to_string()));
    cloud.api_key = String::new();
    cloud.kind = CloudKind::Google;
    assert_eq!(resolve_cloud_key(&cloud, &keys), Some("g".to_string()));
    assert_eq!(env_var(CloudKind::OpenAi), "OPENAI_API_KEY");
    assert_eq!(env_var(CloudKind::Anthropic), "ANTHROPIC_API_KEY");
}

#[test]
fn store_selects_and_changes() {
    let mut cfg = cloud_config();
    cfg.providers.local.push(LocalProvider { id: "l1".to_string(), ..LocalProvider::default() });
    let mut store = ProviderStore::new(&cfg);
    assert!(store.is_cloud());
    assert!(store.select("nada").is_err());
    assert!(store.is_cloud());
    store.select("l1").unwrap();
    assert!(!store.is_cloud());
    assert_eq!(store.selected_local().unwrap().id, "l1");
    assert!(store.set_model_and_effort("m", "low").is_err());
    assert_eq!(store.set_local_model("/m.gguf", "/p.gguf"), Ok("l1".to_string()));
    assert_eq!(store.current().model(), "/m.gguf");
    store.select("c1").unwrap();
    assert_eq!(store.set_local_model("/n.gguf", ""), Ok("l1".to_string()));
    assert!(ProviderStore::new(&cloud_config()).set_local_model("/n.gguf", "").is_err());
    assert_eq!(store.set_model_and_effort("gpt", "high"), Ok("c1".to_string()));
    match store.current() {
        Selected::Cloud(c) => {
            assert_eq!(c.model, "gpt");
            assert_eq!(c.reasoning_effort, "high");
        }
        other => panic!("{other:?}"),
    }
    let (entries, selected) = store.snapshot(&no_keys());
    assert_eq!(entries.len(), 2);
    assert_eq!(selected, Some("c1".to_string()));
    let added = store.add_cloud("c2", CloudKind::Anthropic, "https://x", "sonnet", "k");
    assert_eq!(added.id, "c2");
    assert_eq!(store.cloud.len(), 2);
}

#[test]
fn changes_are_persisted() {
    let mut cfg = cloud_config();
    cfg.providers.local.push(LocalProvider { id: "l1".to_string(), ..LocalProvider::default() });
    persist_selected(&mut cfg, "l1");
    assert_eq!(cfg.provider_selected_uuid.as_deref(), Some("l1"));
    persist_effort(&mut cfg, "c1", "gpt", "low");
    assert_eq!(cfg.providers.cloud[0].model, "gpt");
    assert_eq!(cfg.providers.cloud[0].reasoning_effort, "low");
    persist_local_model(&mut cfg, "l1", "/m.gguf", "/p.gguf");
    assert_eq!(cfg.providers.local[0].model, "/m.gguf");
    assert_eq!(cfg.providers.local[0].mmproj, "/p.gguf");
    persist_cloud(&mut cfg, CloudProvider { id: "c9".to_string(), ..groq() });
    assert_eq!(cfg.providers.cloud.last().unwrap().id, "c9");
    apply_change(&mut cfg, &Change::Selection("c1".to_string()));
    assert_eq!(cfg.provider_selected_uuid.as_deref(), Some("c1"));
}

#[test]
fn chat_models_are_picked() {
    assert!(is_chat_model("llama-3"));
    assert!(!is_chat_model("whisper-large"));
    let models = vec!["canopy-orpheus-tts".to_string(), "GPT-4o".to_string()];
    assert_eq!(pick_chat_model(&models), Some("GPT-4o".to_string()));
    assert_eq!(pick_chat_model(&Vec::new()), None);
    // Case does not matter where a model is told from the others.
    let upper = vec!["WHISPER-1".to_string(), "llama".to_string()];
    assert_eq!(pick_chat_model(&upper), Some("llama".to_string()));
}

#[test]
fn endpoints_have_one_slash() {
    assert_eq!(endpoint("https://a/v1/", "/chat", "/x"), "https://a/v1/chat");
    assert_eq!(endpoint("https://a/v1", "chat", "/x"), "https://a/v1/chat");
    assert_eq!(endpoint("https://a/v1", "", "/responses"), "https://a/v1/responses");
}

#[test]
fn vendors_follow_kind_and_router() {
    assert_eq!(vendor_for(CloudKind::OpenAi, "/responses"), Vendor::Responses);
    assert_eq!(vendor_for(CloudKind::OpenAi, "/chat/completions"), Vendor::Chat);
    assert_eq!(vendor_for(CloudKind::Anthropic, ""), Vendor::Anthropic);
    assert_eq!(vendor_for(CloudKind::Google, ""), Vendor::Google);
    let upper = CloudProvider { router: "/RESPONSES".to_string(), ..groq() };
    assert_eq!(build_generator(&upper), Vendor::Responses);
    assert_eq!(build_generator(&groq()), Vendor::Chat);
    assert_eq!(default_router(CloudKind::OpenAi, "/meu"), "/meu");
}

#[test]
fn tools_are_reshaped() {
    let tools = value(
        r#"[{"type":"function","function":{"name":"list_dir","description":"lista","parameters":{"type":"object"}}}]"#,
    );
    assert!(has_tools(&tools));
    assert!(!has_tools(&value("[]")));
    assert!(!has_tools(&Json::Null));
    let first = |j: &Json| json::write(&j.as_items().unwrap()[0]);
    assert!(first(&openai_chat_tools(&tools)).contains("\"function\""));
    assert!(first(&responses_tools(&tools)).contains("\"name\":\"list_dir\""));
    assert!(first(&anthropic_tools(&tools)).contains("input_schema"));
    assert!(json::write(&google_tools(&tools)).contains("list_dir"));
}

#[test]
fn requests_are_built() {
    let messages = || vec![value(r#"{"role":"user","content":"oi"}"#)];
    let key = Some("k".to_string());
    let temp = value("0.5");
    let none = value("[]");
    let chat = build_request(Vendor::Chat, &groq(), messages(), &none, &temp, 16, &key);
    assert_eq!(chat.url, "https://api.groq.com/openai/v1/chat/completions");
    assert!(chat.headers.iter().any(|(n, v)| n == "Authorization" && v == "Bearer k"));
    assert_eq!(chat.body.text_field("model"), Some(""));
    assert!(chat.body.get("tools").is_none());
    let other = CloudProvider { kind: CloudKind::Anthropic, router: String::new(), ..groq() };
    let anthropic = build_request(Vendor::Anthropic, &other, messages(), &none, &temp, 16, &key);
    assert!(anthropic.headers.iter().any(|(n, v)| n == "x-api-key" && v == "k"));
    assert_eq!(anthropic.body.int_field("max_tokens"), Some(16));
    let google = build_request(Vendor::Google, &groq(), messages(), &none, &temp, 16, &key);
    assert!(google.body.get("contents").is_some());
    let responses = build_request(Vendor::Responses, &groq(), messages(), &none, &temp, 16, &key);
    assert!(responses.body.get("input").is_some());
}

#[test]
fn models_are_listed() {
    let key = Some("k".to_string());
    let (url, _) = models_request(&groq(), &key).unwrap();
    assert_eq!(url, "https://api.groq.com/openai/v1/models");
    let body = value(r#"{"data":[{"id":"b"},{"id":"a"},{"x":1}]}"#);
    assert_eq!(
        list_models(CloudKind::OpenAi, "u", &body).unwrap(),
        vec!["b".to_string(), "a".to_string()]
    );
    let google = value(r#"{"models":[{"name":"models/gemini"}]}"#);
    assert_eq!(list_models(CloudKind::Google, "u", &google).unwrap(), vec!["gemini".to_string()]);
    assert!(list_models(CloudKind::OpenAi, "u", &value("{}")).is_err());
    let error = http_error("GET", "http://x", 404, "nada");
    assert!(error.contains("GET") && error.contains("http://x") && error.contains("404"));
}

#[test]
fn turns_need_a_runtime_only_locally() {
    let agent = agent_of(&cloud_config());
    match agent.run_turn("oi").unwrap() {
        RootTurn::Remote(turn) => {
            assert_eq!(turn.cloud.id, "c1");
            assert_eq!(turn.input, "oi");
        }
        other => panic!("{other:?}"),
    }
    let (local, _, _) = load_or_create(None, 1, 2);
    assert!(agent_of(&local).run_turn("oi").is_err());
    assert_eq!(agent_of(&local).remote_models(), Err(ONLY_CLOUD.to_string()));
}

#[test]
fn a_turn_is_always_done() {
    let keys = no_keys();
    let mut worker = Worker::new(agent_of(&cloud_config()));
    let (_, task) = worker.on_message(WorkerMsg::Turn("oi".to_string()), &keys, "/a", "n");
    assert!(matches!(task, WorkerTask::Run(RootTurn::Remote(_))));
    let reply = WorkerReply::Turn {
        result: Err("caiu".to_string()),
        rate: String::new(),
        notices: Vec::new(),
    };
    let (events, task) = worker.on_reply(reply, &keys);
    assert_eq!(events.last(), Some(&UiEvent::Done));
    assert!(matches!(task, WorkerTask::Wait));
    let (local, _, _) = load_or_create(None, 1, 2);
    let mut worker = Worker::new(agent_of(&local));
    let (events, _) = worker.on_message(WorkerMsg::Turn("oi".to_string()), &keys, "/a", "n");
    assert_eq!(events.last(), Some(&UiEvent::Done));
}

#[test]
fn worker_adds_and_lists() {
    let keys = no_keys();
    let mut worker = Worker::new(agent_of(&cloud_config()));
    let add = WorkerMsg::AddCloudProvider {
        kind: CloudKind::Anthropic,
        base_url: "https://x".to_string(),
        model: "sonnet".to_string(),
        api_key: "k".to_string(),
    };
    let (_, task) = worker.on_message(add, &keys, "/a", "c2");
    match task {
        WorkerTask::Save(Change::NewCloud(c)) => assert_eq!(c.id, "c2"),
        other => panic!("{other:?}"),
    }
    worker.on_reply(WorkerReply::Saved(Ok(())), &keys);
    assert_eq!(worker.agent.provider.cloud.len(), 2);
    let (events, task) = worker.on_message(WorkerMsg::SetMode(AgentMode::Agents), &keys, "/a", "n");
    assert!(events.contains(&UiEvent::ModeChanged(AgentMode::Agents)));
    assert!(matches!(task, WorkerTask::Wait));
}
