use drill::config::CloudKind;
use drill::form::{Form, FormResult, FormStep};
use drill::keys::{KeyCode, KeyPress};
use drill::messages::WorkerMsg;
use drill::provider_ui::ProviderNav;
use drill::ui::{AppState, SessionInfo};
use drill::ui_keys::{Action, Effect};

fn state() -> AppState {
    AppState::new(SessionInfo::new(
        "/m/modelo.gguf".to_string(),
        99,
        4096,
        true,
        true,
        "/projeto".to_string(),
    ))
}

fn key(code: KeyCode) -> KeyPress {
    KeyPress { code, ctrl: false }
}

fn fill(form: &mut Form, text: &str) {
    for c in text.chars() {
        assert_eq!(form.on_key(KeyCode::Char(c)), FormResult::Open);
    }
}

#[test]
fn new_provider_is_asked_for_step_by_step() {
    let mut form = Form::new_provider();
    assert_eq!(form.step, FormStep::Vendor);
    assert_eq!(form.shown(), CloudKind::OpenAi.label());
    assert_eq!(form.on_key(KeyCode::Down), FormResult::Open);
    assert_eq!(form.shown(), CloudKind::Anthropic.label());
    assert_eq!(form.on_key(KeyCode::Enter), FormResult::Open);
    assert_eq!(form.step, FormStep::BaseUrl);
    assert_eq!(form.shown(), CloudKind::Anthropic.base_url_default());
    assert_eq!(form.on_key(KeyCode::Backspace), FormResult::Open);
    fill(&mut form, "X");
    assert_eq!(form.on_key(KeyCode::Enter), FormResult::Open);
    assert_eq!((form.step, form.shown().as_str()), (FormStep::Model, ""));
    fill(&mut form, "grande");
    assert_eq!(form.on_key(KeyCode::Enter), FormResult::Open);
    assert!(form.step.masked());
    assert_eq!(form.step.title(), "API key");
    fill(&mut form, "chave");
    let mut url = CloudKind::Anthropic.base_url_default().to_string();
    url.pop();
    url.push('X');
    assert_eq!(
        form.on_key(KeyCode::Enter),
        FormResult::Filled(WorkerMsg::AddCloudProvider {
            kind: CloudKind::Anthropic,
            base_url: url,
            model: "grande".to_string(),
            api_key: "chave".to_string(),
        })
    );
}

#[test]
fn vendors_go_round() {
    let mut form = Form::new_provider();
    form.on_key(KeyCode::Up);
    assert_eq!(form.kind, CloudKind::Google);
    form.on_key(KeyCode::Down);
    assert_eq!(form.kind, CloudKind::OpenAi);
    form.paste("texto");
    assert_eq!(form.line.text, "");
    assert_eq!(form.on_key(KeyCode::Char('x')), FormResult::Open);
    assert_eq!(form.kind, CloudKind::OpenAi);
}

#[test]
fn model_form_keeps_what_is_set() {
    let mut form = Form::local_model("/m/a.gguf".to_string(), "/m/v.gguf".to_string());
    assert_eq!((form.step, form.line.pos), (FormStep::ModelPath, 9));
    assert_eq!(form.on_key(KeyCode::Enter), FormResult::Open);
    assert_eq!((form.step, form.shown().as_str()), (FormStep::Mmproj, "/m/v.gguf"));
    assert_eq!(
        form.on_key(KeyCode::Enter),
        FormResult::Filled(WorkerMsg::SetLocalModel {
            model: "/m/a.gguf".to_string(),
            mmproj: "/m/v.gguf".to_string(),
        })
    );
}

#[test]
fn fields_are_edited_in_place() {
    let mut form = Form::local_model("ac".to_string(), String::new());
    form.on_key(KeyCode::Left);
    fill(&mut form, "b");
    assert_eq!(form.line.text, "abc");
    form.on_key(KeyCode::Home);
    form.on_key(KeyCode::Delete);
    assert_eq!(form.line.text, "bc");
    form.on_key(KeyCode::End);
    form.paste("d\ne");
    assert_eq!(form.line.text, "bcd e");
    assert_eq!(form.on_key(KeyCode::Esc), FormResult::Cancelled);
}

#[test]
fn missing_model_is_asked_for_at_the_start() {
    let mut s = state();
    s.open_model_setup("/m/falta.gguf".to_string(), String::new());
    s.paste("x");
    assert_eq!(s.input.text, "");
    assert_eq!(s.read_key(key(KeyCode::Enter)), None);
    let action = s.read_key(key(KeyCode::Enter)).unwrap();
    assert!(s.form.is_none());
    assert_eq!(
        s.perform(action),
        Effect::Send(WorkerMsg::SetLocalModel {
            model: "/m/falta.ggufx".to_string(),
            mmproj: String::new(),
        })
    );
    assert_eq!(s.status, "definindo modelo...");
}

#[test]
fn model_command_opens_the_form() {
    let mut s = state();
    s.mmproj = "/m/v.gguf".to_string();
    s.input.insert("/model");
    assert_eq!(s.perform(Action::Submit), Effect::Stay);
    let form = s.form.as_ref().unwrap();
    assert_eq!((form.shown().as_str(), form.mmproj.as_str()), ("/m/modelo.gguf", "/m/v.gguf"));
    assert_eq!(s.read_key(key(KeyCode::Esc)), Some(Action::CloseForm));
    assert_eq!(s.perform(Action::CloseForm), Effect::Stay);
    assert_eq!(s.status, "ready");
}

#[test]
fn list_of_remote_providers_leads_to_the_form() {
    let mut s = state();
    s.provider_view = true;
    s.provider_nav = ProviderNav::CloudList;
    let add = KeyPress { code: KeyCode::Char('a'), ctrl: true };
    let action = s.read_key(add).unwrap();
    assert_eq!(action, Action::AddProvider(ProviderNav::CloudList));
    s.perform(action);
    assert!(!s.provider_view);
    assert_eq!(s.form.as_ref().unwrap().step, FormStep::Vendor);
    s.read_key(key(KeyCode::Char('z')));
    assert_eq!(s.input.text, "");
    let quit = KeyPress { code: KeyCode::Char('c'), ctrl: true };
    assert_eq!(s.read_key(quit), Some(Action::Quit));
}

#[test]
fn list_of_local_providers_asks_for_a_file() {
    let mut s = state();
    s.provider_view = true;
    s.perform(Action::AddProvider(ProviderNav::LocalList));
    let form = s.form.as_ref().unwrap();
    assert_eq!((form.step, form.shown().as_str()), (FormStep::ModelPath, ""));
}
