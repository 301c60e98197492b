//! Forms that ask for one text after the other: for a new remote provider, and
//! for the model of the local runtime.

use crate::config;
use crate::config::CloudKind;
use crate::editor;
use crate::editor::{InputLine, InputView};
use crate::keys;
use crate::keys::KeyCode;
use crate::messages::{WorkerMsg, WorkerMsgView};
use vstd::prelude::*;

verus! {

/// What a form asks for.
#[derive(Debug, Clone, Copy, PartialEq, Eq, Structural)]
pub enum FormStep {
    /// The vendor of a new provider.
    Vendor,
    /// The address of a new provider.
    BaseUrl,
    /// The model of a new provider.
    Model,
    /// The key of a new provider.
    ApiKey,
    /// The file of the local model.
    ModelPath,
    /// The file with which the local model sees; empty where there is none.
    Mmproj,
}

impl FormStep {
    /// What stands above the field.
    pub open spec fn heading(self) -> Seq<char> {
        match self {
            FormStep::Vendor => "tipo do provider"@,
            FormStep::BaseUrl => "base URL"@,
            FormStep::Model => "modelo"@,
            FormStep::ApiKey => "API key"@,
            FormStep::ModelPath => "modelo GGUF"@,
            FormStep::Mmproj => "mmproj (opcional)"@,
        }
    }

    /// What stands above the field.
    pub fn title(self) -> (r: &'static str)
        ensures
            r@ == self.heading(),
    {
        match self {
            FormStep::Vendor => "tipo do provider",
            FormStep::BaseUrl => "base URL",
            FormStep::Model => "modelo",
            FormStep::ApiKey => "API key",
            FormStep::ModelPath => "modelo GGUF",
            FormStep::Mmproj => "mmproj (opcional)",
        }
    }

    /// Whether the field hides what is typed.
    pub fn masked(self) -> (r: bool)
        ensures
            r == (self == FormStep::ApiKey),
    {
        self == FormStep::ApiKey
    }
}

/// A form that is being filled in.
#[derive(Debug, PartialEq)]
pub struct Form {
    pub step: FormStep,
    pub kind: CloudKind,
    pub base_url: String,
    pub model: String,
    pub mmproj: String,
    pub line: InputLine,
}

/// The model of a form.
#[verifier::ext_equal]
pub struct FormView {
    pub step: FormStep,
    pub kind: CloudKind,
    pub base_url: Seq<char>,
    pub model: Seq<char>,
    pub mmproj: Seq<char>,
    pub line: InputView,
}

impl View for Form {
    type V = FormView;

    open spec fn view(&self) -> FormView {
        FormView {
            step: self.step,
            kind: self.kind,
            base_url: self.base_url@,
            model: self.model@,
            mmproj: self.mmproj@,
            line: self.line@,
        }
    }
}

/// What became of a form.
#[derive(Debug, PartialEq)]
pub enum FormResult {
    Open,
    Cancelled,
    Filled(WorkerMsg),
}

/// The model of what became of a form.
#[verifier::ext_equal]
pub enum FormResultView {
    Open,
    Cancelled,
    Filled(WorkerMsgView),
}

impl View for FormResult {
    type V = FormResultView;

    open spec fn view(&self) -> FormResultView {
        match self {
            FormResult::Open => FormResultView::Open,
            FormResult::Cancelled => FormResultView::Cancelled,
            FormResult::Filled(m) => FormResultView::Filled(m@),
        }
    }
}

/// A line that holds a text, with the cursor behind it.
pub open spec fn line_with(t: Seq<char>) -> InputView {
    InputView { text: t, pos: t.len() }
}

fn line_of(t: &str) -> (r: InputLine)
    ensures
        r@ == line_with(t@),
{
    let mut line = InputLine { text: t.to_string(), pos: 0 };
    line.end();
    assert(line@ =~= line_with(t@));
    line
}

/// The form for a new provider, at its start.
pub open spec fn provider_form() -> FormView {
    FormView {
        step: FormStep::Vendor,
        kind: CloudKind::OpenAi,
        base_url: Seq::empty(),
        model: Seq::empty(),
        mmproj: Seq::empty(),
        line: InputView::empty(),
    }
}

/// The form for the local model, at its start.
pub open spec fn model_form(model: Seq<char>, mmproj: Seq<char>) -> FormView {
    FormView {
        step: FormStep::ModelPath,
        kind: CloudKind::OpenAi,
        base_url: Seq::empty(),
        model,
        mmproj,
        line: line_with(model),
    }
}

/// The vendor after another.
pub open spec fn next_kind(k: CloudKind) -> CloudKind {
    match k {
        CloudKind::OpenAi => CloudKind::Anthropic,
        CloudKind::Anthropic => CloudKind::Google,
        CloudKind::Google => CloudKind::OpenAi,
    }
}

/// The vendor before another.
pub open spec fn previous_kind(k: CloudKind) -> CloudKind {
    match k {
        CloudKind::OpenAi => CloudKind::Google,
        CloudKind::Anthropic => CloudKind::OpenAi,
        CloudKind::Google => CloudKind::Anthropic,
    }
}

/// What a key does to a line.
pub open spec fn edited(line: InputView, code: KeyCode) -> InputView {
    match code {
        KeyCode::Backspace => line.erased(),
        KeyCode::Delete => line.deleted(),
        KeyCode::Left => line.left(),
        KeyCode::Right => line.right(),
        KeyCode::Home => line.home(),
        KeyCode::End => line.end(),
        KeyCode::Char(c) => line.typed(seq![c]),
        _ => line,
    }
}

/// What confirming a field does.
pub open spec fn confirmed(f: FormView) -> (FormView, FormResultView) {
    match f.step {
        FormStep::Vendor => (
            FormView {
                step: FormStep::BaseUrl,
                line: line_with(config::kind_base_url(f.kind)),
                ..f
            },
            FormResultView::Open,
        ),
        FormStep::BaseUrl => (
            FormView {
                step: FormStep::Model,
                base_url: f.line.text,
                line: InputView::empty(),
                ..f
            },
            FormResultView::Open,
        ),
        FormStep::Model => (
            FormView {
                step: FormStep::ApiKey,
                model: f.line.text,
                line: InputView::empty(),
                ..f
            },
            FormResultView::Open,
        ),
        FormStep::ApiKey => (
            f,
            FormResultView::Filled(
                WorkerMsgView::AddCloudProvider {
                    kind: f.kind,
                    base_url: f.base_url,
                    model: f.model,
                    api_key: f.line.text,
                },
            ),
        ),
        FormStep::ModelPath => (
            FormView {
                step: FormStep::Mmproj,
                model: f.line.text,
                line: line_with(f.mmproj),
                ..f
            },
            FormResultView::Open,
        ),
        FormStep::Mmproj => (
            f,
            FormResultView::Filled(
                WorkerMsgView::SetLocalModel { model: f.model, mmproj: f.line.text },
            ),
        ),
    }
}

/// What a key does in a form.
pub open spec fn filled_in(f: FormView, code: KeyCode) -> (FormView, FormResultView) {
    if code == KeyCode::Esc {
        (f, FormResultView::Cancelled)
    } else if code == KeyCode::Enter {
        confirmed(f)
    } else if f.step == FormStep::Vendor {
        (
            if keys::goes_up(code) {
                FormView { kind: previous_kind(f.kind), ..f }
            } else if keys::goes_down(code) {
                FormView { kind: next_kind(f.kind), ..f }
            } else {
                f
            },
            FormResultView::Open,
        )
    } else {
        (FormView { line: edited(f.line, code), ..f }, FormResultView::Open)
    }
}

impl Form {
    /// The form for a new provider.
    pub fn new_provider() -> (r: Form)
        ensures
            r@ == provider_form(),
    {
        let r = Form {
            step: FormStep::Vendor,
            kind: CloudKind::OpenAi,
            base_url: String::new(),
            model: String::new(),
            mmproj: String::new(),
            line: InputLine::new(),
        };
        assert(r@ =~= provider_form());
        r
    }

    /// The form for the local model, with what is set already.
    pub fn local_model(model: String, mmproj: String) -> (r: Form)
        ensures
            r@ == model_form(model@, mmproj@),
    {
        let line = line_of(model.as_str());
        let r = Form {
            step: FormStep::ModelPath,
            kind: CloudKind::OpenAi,
            base_url: String::new(),
            model,
            mmproj,
            line,
        };
        assert(r@ =~= model_form(model@, mmproj@));
        r
    }

    fn confirm(&mut self) -> (r: FormResult)
        ensures
            (final(self)@, r@) == confirmed(old(self)@),
    {
        match self.step {
            FormStep::Vendor => {
                self.step = FormStep::BaseUrl;
                self.line = line_of(self.kind.base_url_default());
                FormResult::Open
            },
            FormStep::BaseUrl => {
                self.step = FormStep::Model;
                self.base_url = self.line.take();
                FormResult::Open
            },
            FormStep::Model => {
                self.step = FormStep::ApiKey;
                self.model = self.line.take();
                FormResult::Open
            },
            FormStep::ApiKey => FormResult::Filled(
                WorkerMsg::AddCloudProvider {
                    kind: self.kind,
                    base_url: self.base_url.as_str().to_string(),
                    model: self.model.as_str().to_string(),
                    api_key: self.line.text.as_str().to_string(),
                },
            ),
            FormStep::ModelPath => {
                self.step = FormStep::Mmproj;
                self.model = self.line.take();
                self.line = line_of(self.mmproj.as_str());
                FormResult::Open
            },
            FormStep::Mmproj => FormResult::Filled(
                WorkerMsg::SetLocalModel {
                    model: self.model.as_str().to_string(),
                    mmproj: self.line.text.as_str().to_string(),
                },
            ),
        }
    }

    fn edit(&mut self, code: KeyCode)
        requires
            old(self)@.line.pos < usize::MAX,
        ensures
            final(self)@ == (FormView { line: edited(old(self)@.line, code), ..old(self)@ }),
    {
        match code {
            KeyCode::Backspace => {
                self.line.backspace();
            },
            KeyCode::Delete => {
                self.line.delete();
            },
            KeyCode::Left => {
                self.line.left();
            },
            KeyCode::Right => {
                self.line.right();
            },
            KeyCode::Home => {
                self.line.home();
            },
            KeyCode::End => {
                self.line.end();
            },
            KeyCode::Char(c) => {
                self.line.type_char(c);
            },
            _ => {},
        }
    }

    /// Handles a key, and says what became of the form.
    pub fn on_key(&mut self, code: KeyCode) -> (r: FormResult)
        requires
            old(self)@.line.pos < usize::MAX,
        ensures
            (final(self)@, r@) == filled_in(old(self)@, code),
    {
        if code == KeyCode::Esc {
            return FormResult::Cancelled;
        }
        if code == KeyCode::Enter {
            return self.confirm();
        }
        if self.step == FormStep::Vendor {
            if code.up() {
                self.kind = match self.kind {
                    CloudKind::OpenAi => CloudKind::Google,
                    CloudKind::Anthropic => CloudKind::OpenAi,
                    CloudKind::Google => CloudKind::Anthropic,
                };
            } else if code.down() {
                self.kind = match self.kind {
                    CloudKind::OpenAi => CloudKind::Anthropic,
                    CloudKind::Anthropic => CloudKind::Google,
                    CloudKind::Google => CloudKind::OpenAi,
                };
            }
            return FormResult::Open;
        }
        self.edit(code);
        FormResult::Open
    }

    /// Puts a pasted text into the field.
    pub fn paste(&mut self, text: &str)
        requires
            old(self)@.line.pos + text@.len() <= usize::MAX,
        ensures
            final(self)@ == pasted_in(old(self)@, text@),
    {
        if self.step == FormStep::Vendor {
            return;
        }
        let line = editor::one_line(text);
        self.line.insert(line.as_str());
    }

    /// What the field shows: the vendor, or the text that is typed.
    pub fn shown(&self) -> (r: String)
        ensures
            r@ == field_value(self@),
    {
        if self.step == FormStep::Vendor {
            self.kind.label().to_string()
        } else {
            self.line.text.as_str().to_string()
        }
    }
}

/// The form after a text was pasted.
pub open spec fn pasted_in(f: FormView, t: Seq<char>) -> FormView {
    if f.step == FormStep::Vendor {
        f
    } else {
        FormView { line: f.line.typed(editor::on_one_line(t)), ..f }
    }
}

/// What the field of a form shows.
pub open spec fn field_value(f: FormView) -> Seq<char> {
    if f.step == FormStep::Vendor {
        config::kind_label(f.kind)
    } else {
        f.line.text
    }
}

/// The form for a new provider asks for the vendor, the address, the model and
/// the key in this order, and then adds the provider with what was typed.
pub proof fn law_provider_is_asked_in_order(
    f: FormView,
    base_url: InputView,
    model: InputView,
    key: InputView,
)
    requires
        f.step == FormStep::Vendor,
    ensures
        ({
            let at_url = filled_in(f, KeyCode::Enter).0;
            let at_model = filled_in(FormView { line: base_url, ..at_url }, KeyCode::Enter).0;
            let at_key = filled_in(FormView { line: model, ..at_model }, KeyCode::Enter).0;
            let done = filled_in(FormView { line: key, ..at_key }, KeyCode::Enter).1;
            &&& at_url.step == FormStep::BaseUrl
            &&& at_url.line.text == config::kind_base_url(f.kind)
            &&& at_model.step == FormStep::Model
            &&& at_key.step == FormStep::ApiKey
            &&& done == FormResultView::Filled(
                WorkerMsgView::AddCloudProvider {
                    kind: f.kind,
                    base_url: base_url.text,
                    model: model.text,
                    api_key: key.text,
                },
            )
        }),
{
}

/// The form for the local model asks for the model and then for what it sees
/// with; confirming both as they are keeps them.
pub proof fn law_model_form_keeps_settings(model: Seq<char>, mmproj: Seq<char>)
    ensures
        ({
            let next = filled_in(model_form(model, mmproj), KeyCode::Enter).0;
            &&& next.step == FormStep::Mmproj
            &&& filled_in(next, KeyCode::Enter).1 == FormResultView::Filled(
                WorkerMsgView::SetLocalModel { model, mmproj },
            )
        }),
{
}

/// Whatever key is pressed, the cursor stays within the field.
pub proof fn law_field_keeps_cursor_within(f: FormView, code: KeyCode)
    requires
        f.line.wf(),
    ensures
        filled_in(f, code).0.line.wf(),
{
    match code {
        KeyCode::Char(c) => editor::law_cursor_stays_within(f.line, seq![c]),
        _ => editor::law_cursor_stays_within(f.line, Seq::empty()),
    }
}

/// Every vendor can be reached: going down three times leads back.
pub proof fn law_vendors_go_round(k: CloudKind)
    ensures
        next_kind(next_kind(next_kind(k))) == k,
        previous_kind(next_kind(k)) == k,
        next_kind(k) != k,
{
}

/// A form shows the kind that is chosen, or what was typed.
pub proof fn law_field_shows_input(f: FormView)
    ensures
        f.step == FormStep::Vendor ==> field_value(f) == config::kind_label(f.kind),
        f.step != FormStep::Vendor ==> field_value(f) == f.line.text,
{
}

} // verus!
