//! The state of the screen: the conversation, the line that is typed, and the
//! overlays over them.

use crate::agents::{HistoryRow, HistoryRowView};
use crate::config;
use crate::editor::{InputLine, InputView};
use crate::form;
use crate::form::{Form, FormView};
use crate::history::{SessionView, StoredSession};
use crate::messages::{UiEvent, UiEventView};
use crate::orchestrator::AgentMode;
use crate::popup;
use crate::popup::{InputPopup, PopupView};
use crate::provider::{EntryView, ProviderEntry};
use crate::provider_ui::ProviderNav;
use crate::screen::{SpanView, TextLine};
use crate::text;
use crate::text::same;
use crate::tools::{PermissionRequest, PermissionView};
use vstd::prelude::*;

verus! {

/// Who or what a line of the conversation is from.
#[derive(Debug, Clone, Copy, PartialEq, Eq, Structural)]
pub enum Kind {
    User,
    Assistant,
    Reasoning,
    Tool,
    ToolResult,
    Failure,
    Muted,
}

/// A line of the conversation.
#[derive(Debug, PartialEq)]
pub struct UiLine {
    pub kind: Kind,
    pub text: String,
}

/// The model of a line of the conversation.
#[verifier::ext_equal]
pub struct UiLineView {
    pub kind: Kind,
    pub text: Seq<char>,
}

impl View for UiLine {
    type V = UiLineView;

    open spec fn view(&self) -> UiLineView {
        UiLineView { kind: self.kind, text: self.text@ }
    }
}

/// What is known of the model and of the project. A rate is the bit pattern of
/// a 64-bit float, with the text that shows it.
#[derive(Debug, PartialEq)]
pub struct SessionInfo {
    pub model: String,
    pub ngl: usize,
    pub ctx_max: usize,
    pub ctx_used: usize,
    pub tools_enabled: bool,
    pub reasoning_enabled: bool,
    pub tps: Option<u64>,
    pub rate: Option<String>,
    pub last_tool: Option<String>,
    pub last_diff: Option<String>,
    pub project_dir: String,
}

/// The model of what is known.
#[verifier::ext_equal]
pub struct InfoView {
    pub model: Seq<char>,
    pub ngl: nat,
    pub ctx_max: nat,
    pub ctx_used: nat,
    pub tools_enabled: bool,
    pub reasoning_enabled: bool,
    pub tps: Option<u64>,
    pub rate: Option<Seq<char>>,
    pub last_tool: Option<Seq<char>>,
    pub last_diff: Option<Seq<char>>,
    pub project_dir: Seq<char>,
}

impl View for SessionInfo {
    type V = InfoView;

    open spec fn view(&self) -> InfoView {
        InfoView {
            model: self.model@,
            ngl: self.ngl as nat,
            ctx_max: self.ctx_max as nat,
            ctx_used: self.ctx_used as nat,
            tools_enabled: self.tools_enabled,
            reasoning_enabled: self.reasoning_enabled,
            tps: self.tps,
            rate: text::opt_view(self.rate),
            last_tool: text::opt_view(self.last_tool),
            last_diff: text::opt_view(self.last_diff),
            project_dir: self.project_dir@,
        }
    }
}

impl SessionInfo {
    pub fn new(
        model: String,
        ngl: usize,
        ctx_max: usize,
        tools_enabled: bool,
        reasoning_enabled: bool,
        project_dir: String,
    ) -> (r: SessionInfo)
        ensures
            r@ == (InfoView {
                model: model@,
                ngl: ngl as nat,
                ctx_max: ctx_max as nat,
                ctx_used: 0,
                tools_enabled,
                reasoning_enabled,
                tps: None,
                rate: None,
                last_tool: None,
                last_diff: None,
                project_dir: project_dir@,
            }),
    {
        SessionInfo {
            model,
            ngl,
            ctx_max,
            ctx_used: 0,
            tools_enabled,
            reasoning_enabled,
            tps: None,
            rate: None,
            last_tool: None,
            last_diff: None,
            project_dir,
        }
    }
}

/// The state of the screen.
pub struct AppState {
    pub lines: Vec<UiLine>,
    pub status: String,
    pub input: InputLine,
    pub scroll: usize,
    pub max_scroll: usize,
    pub gen_active: bool,
    pub tps: Option<u64>,
    pub session: SessionInfo,
    pub queue: Vec<String>,
    /// The answer that is being generated is to stop.
    pub interrupt: bool,
    pub mode: AgentMode,
    pub working_agent: Option<String>,
    /// The session under which turns are stored.
    pub session_id: String,
    pub session_view: bool,
    pub sessions: Vec<StoredSession>,
    pub session_cursor: usize,
    pub session_scroll: usize,
    pub provider_view: bool,
    pub provider_nav: ProviderNav,
    pub provider_cursor: usize,
    pub providers: Vec<ProviderEntry>,
    pub provider_selected: Option<String>,
    pub models_view: bool,
    pub models: Vec<String>,
    pub models_current: String,
    pub models_cursor: usize,
    pub models_scroll: usize,
    pub effort_cursor: usize,
    /// The menu over the line that is typed, if there is one.
    pub popup: Option<InputPopup>,
    /// The files of the project, once they were looked for.
    pub mention_files: Vec<String>,
    /// The request for permission that waits for the user.
    pub pending_permission: Option<PermissionRequest>,
    /// Requests that came while another was waiting.
    pub permission_queue: Vec<PermissionRequest>,
    pub tool_running: Option<String>,
    /// The conversation changed since it was rendered.
    pub render_dirty: bool,
    pub render_cache: Vec<TextLine>,
    /// The form that is being filled in, if there is one.
    pub form: Option<Form>,
    /// The file with which the local model sees; empty where there is none.
    pub mmproj: String,
}

/// The model of the state.
#[verifier::ext_equal]
pub struct AppView {
    pub lines: Seq<UiLineView>,
    pub status: Seq<char>,
    pub input: InputView,
    pub scroll: nat,
    pub max_scroll: nat,
    pub gen_active: bool,
    pub tps: Option<u64>,
    pub session: InfoView,
    pub queue: Seq<Seq<char>>,
    pub interrupt: bool,
    pub mode: AgentMode,
    pub working_agent: Option<Seq<char>>,
    pub session_id: Seq<char>,
    pub session_view: bool,
    pub sessions: Seq<SessionView>,
    pub session_cursor: nat,
    pub session_scroll: nat,
    pub provider_view: bool,
    pub provider_nav: ProviderNav,
    pub provider_cursor: nat,
    pub providers: Seq<EntryView>,
    pub provider_selected: Option<Seq<char>>,
    pub models_view: bool,
    pub models: Seq<Seq<char>>,
    pub models_current: Seq<char>,
    pub models_cursor: nat,
    pub models_scroll: nat,
    pub effort_cursor: nat,
    pub popup: Option<PopupView>,
    pub mention_files: Seq<Seq<char>>,
    pub pending_permission: Option<PermissionView>,
    pub permission_queue: Seq<PermissionView>,
    pub tool_running: Option<Seq<char>>,
    pub render_dirty: bool,
    pub render_cache: Seq<Seq<SpanView>>,
    pub form: Option<FormView>,
    pub mmproj: Seq<char>,
}

impl View for AppState {
    type V = AppView;

    open spec fn view(&self) -> AppView {
        AppView {
            lines: text::views(self.lines@),
            status: self.status@,
            input: self.input@,
            scroll: self.scroll as nat,
            max_scroll: self.max_scroll as nat,
            gen_active: self.gen_active,
            tps: self.tps,
            session: self.session@,
            queue: text::views(self.queue@),
            interrupt: self.interrupt,
            mode: self.mode,
            working_agent: text::opt_view(self.working_agent),
            session_id: self.session_id@,
            session_view: self.session_view,
            sessions: text::views(self.sessions@),
            session_cursor: self.session_cursor as nat,
            session_scroll: self.session_scroll as nat,
            provider_view: self.provider_view,
            provider_nav: self.provider_nav,
            provider_cursor: self.provider_cursor as nat,
            providers: text::views(self.providers@),
            provider_selected: text::opt_view(self.provider_selected),
            models_view: self.models_view,
            models: text::views(self.models@),
            models_current: self.models_current@,
            models_cursor: self.models_cursor as nat,
            models_scroll: self.models_scroll as nat,
            effort_cursor: self.effort_cursor as nat,
            popup: text::opt_view(self.popup),
            mention_files: text::views(self.mention_files@),
            pending_permission: text::opt_view(self.pending_permission),
            permission_queue: text::views(self.permission_queue@),
            tool_running: text::opt_view(self.tool_running),
            render_dirty: self.render_dirty,
            render_cache: text::views(self.render_cache@),
            form: text::opt_view(self.form),
            mmproj: self.mmproj@,
        }
    }
}

/// The state at the start.
pub open spec fn first_screen(session: InfoView) -> AppView {
    AppView {
        lines: Seq::empty(),
        status: "ready"@,
        input: InputView::empty(),
        scroll: 0,
        max_scroll: 0,
        gen_active: false,
        tps: None,
        session,
        queue: Seq::empty(),
        interrupt: false,
        mode: AgentMode::Solo,
        working_agent: None,
        session_id: Seq::empty(),
        session_view: false,
        sessions: Seq::empty(),
        session_cursor: 0,
        session_scroll: 0,
        provider_view: false,
        provider_nav: ProviderNav::Root,
        provider_cursor: 0,
        providers: Seq::empty(),
        provider_selected: None,
        models_view: false,
        models: Seq::empty(),
        models_current: Seq::empty(),
        models_cursor: 0,
        models_scroll: 0,
        effort_cursor: 0,
        popup: None,
        mention_files: Seq::empty(),
        pending_permission: None,
        permission_queue: Seq::empty(),
        tool_running: None,
        render_dirty: true,
        render_cache: Seq::empty(),
        form: None,
        mmproj: Seq::empty(),
    }
}

/// The state in which the model of the local runtime is asked for.
pub open spec fn model_asked(s: AppView, model: Seq<char>, mmproj: Seq<char>) -> AppView {
    AppView { form: Some(form::model_form(model, mmproj)), mmproj, ..s }
}

/// The state with one more line.
pub open spec fn pushed(s: AppView, kind: Kind, t: Seq<char>) -> AppView {
    AppView { lines: s.lines.push(UiLineView { kind, text: t }), render_dirty: true, ..s }
}

/// The state after a piece of a stream: it goes on with the last line where
/// that is of its kind.
pub open spec fn streamed(s: AppView, kind: Kind, t: Seq<char>) -> AppView {
    if s.lines.len() > 0 && s.lines.last().kind == kind {
        AppView {
            lines: s.lines.update(
                s.lines.len() - 1,
                UiLineView { kind, text: s.lines.last().text + t },
            ),
            render_dirty: true,
            ..s
        }
    } else {
        pushed(s, kind, t)
    }
}

/// The state that shows the end of the conversation.
pub open spec fn at_bottom(s: AppView) -> AppView {
    AppView { scroll: 0, ..s }
}

/// The name under which the agent at work is shown.
pub open spec fn shown_agent(name: Seq<char>, mode: AgentMode) -> Seq<char> {
    if name == "drill"@ && mode == AgentMode::Agents {
        "maestro"@
    } else {
        name
    }
}

/// How hard a remote model may think.
pub open spec fn efforts() -> Seq<Seq<char>> {
    seq!["low"@, "medium"@, "high"@]
}

/// The place of an effort; the middle one for any other word.
pub open spec fn effort_place(effort: Seq<char>) -> nat {
    if effort == "low"@ {
        0
    } else if effort == "high"@ {
        2
    } else {
        1
    }
}

/// The state after what the worker tells.
pub open spec fn applied(s: AppView, e: UiEventView) -> AppView {
    match e {
        UiEventView::Content(t) => at_bottom(streamed(s, Kind::Assistant, t)),
        UiEventView::Reasoning(t) => {
            let goes_on = s.lines.len() > 0 && s.lines.last().kind == Kind::Reasoning;
            at_bottom(
                streamed(
                    s,
                    Kind::Reasoning,
                    if goes_on {
                        t
                    } else {
                        "\n[thinking]\n"@ + t
                    },
                ),
            )
        },
        UiEventView::ToolCall(t) => at_bottom(pushed(s, Kind::Tool, t)),
        UiEventView::ToolStart(n) => AppView {
            status: "running "@ + n,
            session: InfoView { last_tool: Some(n), ..s.session },
            tool_running: Some(n),
            ..s
        },
        UiEventView::ToolResult { name, result } => {
            let shown = pushed(s, Kind::ToolResult, "["@ + name + "]\n"@ + result);
            at_bottom(
                AppView {
                    session: InfoView {
                        last_tool: Some(name),
                        last_diff: Some(result),
                        ..s.session
                    },
                    ..shown
                },
            )
        },
        UiEventView::Status(t) => AppView { status: t, ..s },
        UiEventView::Stats { tokens, tps, shown } => AppView {
            tps: Some(tps),
            session: InfoView { tps: Some(tps), rate: Some(shown), ..s.session },
            status: shown + " tok/s ("@ + text::decimal_int(tokens as int) + " tokens)"@,
            ..s
        },
        UiEventView::ContextUsage { used, max } => AppView {
            session: InfoView { ctx_used: used, ctx_max: max, ..s.session },
            ..s
        },
        UiEventView::ModeChanged(m) => AppView { mode: m, ..s },
        UiEventView::AgentWorking(n) => AppView {
            working_agent: Some(shown_agent(n, s.mode)),
            status: "trabalhando: "@ + shown_agent(n, s.mode),
            ..s
        },
        UiEventView::Muted(t) => at_bottom(pushed(s, Kind::Muted, t)),
        UiEventView::Failure(t) => AppView {
            status: "error"@,
            ..pushed(s, Kind::Failure, "error: "@ + t)
        },
        UiEventView::Done => AppView {
            gen_active: false,
            interrupt: false,
            working_agent: None,
            tool_running: None,
            status: "ready"@,
            ..s
        },
        UiEventView::Providers { entries, selected } => AppView {
            providers: entries,
            provider_selected: selected,
            ..s
        },
        UiEventView::Models { models, current, effort } => AppView {
            models,
            models_current: current,
            models_cursor: 0,
            models_scroll: 0,
            effort_cursor: effort_place(effort),
            models_view: true,
            ..s
        },
        UiEventView::ModelReady { model, thinking } => AppView {
            session: InfoView { model, reasoning_enabled: thinking, ..s.session },
            ..s
        },
    }
}

/// The lines that a stored turn leaves in the conversation.
pub open spec fn replayed(s: AppView, row: HistoryRowView) -> AppView {
    if row.kind == "root"@ {
        let asked = pushed(s, Kind::User, row.input);
        if config::blank(row.reply) {
            asked
        } else {
            pushed(asked, Kind::Assistant, row.reply)
        }
    } else if row.kind == "main"@ {
        let asked = pushed(s, Kind::Muted, "← "@ + row.agent_id + ": "@ + row.input);
        if config::blank(row.reply) {
            asked
        } else {
            pushed(asked, Kind::Muted, row.agent_id + " → "@ + row.reply)
        }
    } else {
        pushed(s, Kind::Muted, "[resumo "@ + row.agent_id + "] "@ + row.reply)
    }
}

/// The state after stored turns were put into the conversation.
pub open spec fn all_replayed(s: AppView, rows: Seq<HistoryRowView>) -> AppView
    decreases rows.len(),
{
    if rows.len() == 0 {
        s
    } else {
        replayed(all_replayed(s, rows.drop_last()), rows.last())
    }
}

/// The state after a session was entered.
pub open spec fn entered(s: AppView, id: Seq<char>, rows: Seq<HistoryRowView>) -> AppView {
    AppView {
        session_id: id,
        session_view: false,
        status: "sessao carregada"@,
        ..at_bottom(all_replayed(s, rows))
    }
}

/// The words for an answered request.
pub open spec fn answered(q: PermissionView, allow: bool) -> Seq<char> {
    "[permissao] "@ + (if allow {
        "concedida"@
    } else {
        "negada"@
    }) + " para '"@ + q.tool + "': "@ + q.detail
}

/// The first of the requests that wait.
pub open spec fn first_request(q: Seq<PermissionView>) -> Option<PermissionView> {
    if q.len() > 0 {
        Some(q[0])
    } else {
        None
    }
}

/// The requests behind the first.
pub open spec fn later_requests(q: Seq<PermissionView>) -> Seq<PermissionView> {
    if q.len() > 0 {
        q.subrange(1, q.len() as int)
    } else {
        q
    }
}

/// The state in which the next request waits for the user.
pub open spec fn next_request(s: AppView) -> AppView {
    AppView {
        pending_permission: first_request(s.permission_queue),
        permission_queue: later_requests(s.permission_queue),
        ..s
    }
}

/// The state after the user answered the request that waits.
pub open spec fn after_answer(s: AppView, allow: bool) -> AppView {
    match s.pending_permission {
        Some(q) => next_request(pushed(s, Kind::Muted, answered(q, allow))),
        None => next_request(s),
    }
}

/// What the keys are for.
pub const HELP_TEXT: &'static str = "atalhos:\nEnter        envia (ou enfileira, se ja gerando)\nEsc          cancela a geracao / sai\nCtrl+A       alterna solo <-> maestro\nCtrl+Enter   interrompe e reenvia (steer)\n/session     lista/retoma conversas salvas\n/provider    escolhe local ou API OpenAI-compativel (so o ROOT)\n/models      lista modelos da API (provider openai)\n/clear       limpa a tela do chat\n@arquivo     menciona um arquivo do projeto (autocomplete)\n↑/↓ no menu  navega; Tab/Enter seleciona; Esc fecha";

/// How long ago something was, from the seconds since.
pub open spec fn ago(secs: int) -> Seq<char> {
    if secs < 60 {
        "agora"@
    } else if secs < 3600 {
        text::decimal((secs / 60) as nat) + " min atras"@
    } else if secs < 86400 {
        text::decimal((secs / 3600) as nat) + " h atras"@
    } else {
        text::decimal((secs / 86400) as nat) + " d atras"@
    }
}

/// Writes how long ago something was, from the seconds since.
pub fn fmt_ago(secs: i64) -> (r: String)
    ensures
        r@ == ago(secs as int),
{
    if secs < 60 {
        "agora".to_string()
    } else if secs < 3600 {
        let n = text::write_u64((secs / 60) as u64);
        text::cat2(n.as_str(), " min atras")
    } else if secs < 86400 {
        let n = text::write_u64((secs / 3600) as u64);
        text::cat2(n.as_str(), " h atras")
    } else {
        let n = text::write_u64((secs / 86400) as u64);
        text::cat2(n.as_str(), " d atras")
    }
}

impl AppState {
    pub fn new(session: SessionInfo) -> (r: AppState)
        ensures
            r@ == first_screen(session@),
    {
        let r = AppState {
            lines: Vec::new(),
            status: "ready".to_string(),
            input: InputLine::new(),
            scroll: 0,
            max_scroll: 0,
            gen_active: false,
            tps: None,
            session,
            queue: Vec::new(),
            interrupt: false,
            mode: AgentMode::Solo,
            working_agent: None,
            session_id: String::new(),
            session_view: false,
            sessions: Vec::new(),
            session_cursor: 0,
            session_scroll: 0,
            provider_view: false,
            provider_nav: ProviderNav::Root,
            provider_cursor: 0,
            providers: Vec::new(),
            provider_selected: None,
            models_view: false,
            models: Vec::new(),
            models_current: String::new(),
            models_cursor: 0,
            models_scroll: 0,
            effort_cursor: 0,
            popup: None,
            mention_files: Vec::new(),
            pending_permission: None,
            permission_queue: Vec::new(),
            tool_running: None,
            render_dirty: true,
            render_cache: Vec::new(),
            form: None,
            mmproj: String::new(),
        };
        assert(r@ =~= first_screen(session@));
        r
    }

    /// Asks for the model of the local runtime, with what is set already.
    pub fn open_model_setup(&mut self, model: String, mmproj: String)
        ensures
            final(self)@ == model_asked(old(self)@, model@, mmproj@),
    {
        self.mmproj = mmproj.as_str().to_string();
        self.form = Some(Form::local_model(model, mmproj));
    }

    /// Puts a line at the end of the conversation.
    pub fn push(&mut self, kind: Kind, text: String)
        ensures
            final(self)@ == pushed(old(self)@, kind, text@),
    {
        broadcast use text::lemma_views_push;

        self.lines.push(UiLine { kind, text });
        self.render_dirty = true;
    }

    /// Puts a piece of a stream at the end of the conversation.
    pub fn append_stream(&mut self, kind: Kind, text: String)
        ensures
            final(self)@ == streamed(old(self)@, kind, text@),
    {
        let n: usize = self.lines.len();
        if n > 0 && self.lines[n - 1].kind == kind {
            let grown = text::cat2(self.lines[n - 1].text.as_str(), text.as_str());
            self.lines.set(n - 1, UiLine { kind, text: grown });
            self.render_dirty = true;
            assert(self@.lines =~= streamed(old(self)@, kind, text@).lines);
        } else {
            self.push(kind, text);
        }
    }

    pub fn scroll_to_bottom(&mut self)
        ensures
            final(self)@ == at_bottom(old(self)@),
    {
        self.scroll = 0;
    }

    /// Scrolls up, no further than to the beginning.
    pub fn scroll_up(&mut self, amount: usize)
        ensures
            final(self)@ == (AppView {
                scroll: if old(self)@.scroll + amount < old(self)@.max_scroll {
                    (old(self)@.scroll + amount) as nat
                } else {
                    old(self)@.max_scroll
                },
                ..old(self)@
            }),
    {
        if self.scroll < self.max_scroll && amount < self.max_scroll - self.scroll {
            self.scroll = self.scroll + amount;
        } else {
            self.scroll = self.max_scroll;
        }
    }

    /// Scrolls down, no further than to the end.
    pub fn scroll_down(&mut self, amount: usize)
        ensures
            final(self)@ == (AppView {
                scroll: if amount < old(self)@.scroll {
                    (old(self)@.scroll - amount) as nat
                } else {
                    0
                },
                ..old(self)@
            }),
    {
        if amount < self.scroll {
            self.scroll = self.scroll - amount;
        } else {
            self.scroll = 0;
        }
    }

    /// Opens the list of sessions.
    pub fn open_session_view(&mut self, sessions: Vec<StoredSession>)
        ensures
            final(self)@ == (AppView {
                sessions: text::views(sessions@),
                session_cursor: 0,
                session_scroll: 0,
                session_view: true,
                status: "sessoes"@,
                ..old(self)@
            }),
    {
        self.sessions = sessions;
        self.session_cursor = 0;
        self.session_scroll = 0;
        self.session_view = true;
        self.status = "sessoes".to_string();
    }

    /// The id of the session under the cursor.
    pub fn selected_session(&self) -> (r: Option<String>)
        ensures
            text::opt_view(r) == if self@.session_cursor < self@.sessions.len() {
                Some(self@.sessions[self@.session_cursor as int].id)
            } else {
                None
            },
    {
        if self.session_cursor < self.sessions.len() {
            assert(self@.sessions[self.session_cursor as int] == self.sessions@[
                self.session_cursor as int
            ]@);
            Some(self.sessions[self.session_cursor].id.as_str().to_string())
        } else {
            None
        }
    }

    /// Takes the session under the cursor out of the list, once it was deleted.
    pub fn session_deleted(&mut self)
        ensures
            final(self)@ == without_session(old(self)@),
    {
        if self.session_cursor < self.sessions.len() {
            let at: usize = self.session_cursor;
            let _gone = self.sessions.remove(at);
            assert(text::views(self.sessions@) =~= old(self)@.sessions.remove(at as int));
            let n: usize = self.sessions.len();
            if n > 0 && at >= n {
                self.session_cursor = n - 1;
            }
        }
    }

    /// Enters a session: its turns go into the conversation, and further turns
    /// are stored under it.
    pub fn enter_session(&mut self, id: String, rows: &Vec<HistoryRow>)
        ensures
            final(self)@ == entered(old(self)@, id@, text::views(rows@)),
    {
        let ghost all = text::views(rows@);
        let ghost start = self@;
        let mut i: usize = 0;
        assert(all.subrange(0, 0) =~= Seq::empty());
        while i < rows.len()
            invariant
                i <= rows.len(),
                all == text::views(rows@),
                self@ == all_replayed(start, all.subrange(0, i as int)),
            decreases rows.len() - i,
        {
            proof {
                let next = all.subrange(0, i + 1);
                assert(next.drop_last() =~= all.subrange(0, i as int));
                assert(next.last() == rows@[i as int]@);
            }
            self.replay(&rows[i]);
            i = i + 1;
        }
        assert(all.subrange(0, all.len() as int) =~= all);
        self.scroll_to_bottom();
        self.session_id = id;
        self.session_view = false;
        self.status = "sessao carregada".to_string();
    }

    fn replay(&mut self, row: &HistoryRow)
        ensures
            final(self)@ == replayed(old(self)@, row@),
    {
        let silent = config::is_blank(row.reply.as_str());
        if same(row.kind.as_str(), "root") {
            self.push(Kind::User, row.input.as_str().to_string());
            if !silent {
                self.push(Kind::Assistant, row.reply.as_str().to_string());
            }
        } else if same(row.kind.as_str(), "main") {
            self.push(
                Kind::Muted,
                text::cat4("← ", row.agent_id.as_str(), ": ", row.input.as_str()),
            );
            if !silent {
                self.push(
                    Kind::Muted,
                    text::cat3(row.agent_id.as_str(), " → ", row.reply.as_str()),
                );
            }
        } else {
            self.push(
                Kind::Muted,
                text::cat4("[resumo ", row.agent_id.as_str(), "] ", row.reply.as_str()),
            );
        }
    }

    /// Works out the menu for the line that is typed.
    pub fn update_popup(&mut self)
        ensures
            final(self)@ == with_menu(old(self)@),
    {
        let next = popup::find_popup(&self.input, &self.popup, &self.mention_files);
        self.popup = next;
    }

    /// Whether the files of the project have to be looked for before the menu
    /// can be worked out.
    pub fn needs_files(&self) -> (r: bool)
        ensures
            r == (self@.mention_files.len() == 0 && popup::command_query(self@.input.before())
                is None && popup::mention_query(self@.input.before()) is Some),
    {
        self.mention_files.len() == 0 && popup::wants_files(&self.input)
    }

    /// Takes the files of the project and works out the menu with them.
    pub fn load_files(&mut self, files: Vec<String>)
        ensures
            final(self)@ == with_menu(
                AppView { mention_files: text::views(files@), ..old(self)@ },
            ),
    {
        self.mention_files = files;
        self.update_popup();
    }

    /// Takes the selected entry of the menu into the line, and closes the menu.
    pub fn apply_popup_selection(&mut self)
        ensures
            final(self)@ == menu_taken(old(self)@),
    {
        let taken = self.popup.take();
        match taken {
            Some(p) => {
                popup::complete(&mut self.input, &p);
            },
            None => {},
        }
    }

    /// Answers the request that waits, and lets the next one wait; says whether
    /// there is an answer to hand over.
    pub fn answer_permission(&mut self, allow: bool) -> (r: bool)
        ensures
            r == (old(self)@.pending_permission is Some),
            final(self)@ == after_answer(old(self)@, allow),
    {
        let asked = self.pending_permission.take();
        let there = match asked {
            Some(q) => {
                let mut note = text::cat5(
                    "[permissao] ",
                    if allow {
                        "concedida"
                    } else {
                        "negada"
                    },
                    " para '",
                    q.tool.as_str(),
                    "': ",
                );
                note.append(q.detail.as_str());
                self.push(Kind::Muted, note);
                true
            },
            None => false,
        };
        self.promote();
        there
    }

    /// Lets the first request that waits come up.
    fn promote(&mut self)
        ensures
            final(self)@ == next_request(old(self)@),
    {
        if self.permission_queue.len() > 0 {
            let q = self.permission_queue.remove(0);
            assert(text::views(self.permission_queue@) =~= later_requests(
                old(self)@.permission_queue,
            ));
            self.pending_permission = Some(q);
        } else {
            self.pending_permission = None;
        }
    }

    /// Takes a request for permission.
    pub fn ask_permission(&mut self, q: PermissionRequest)
        ensures
            final(self)@ == (AppView {
                permission_queue: old(self)@.permission_queue.push(q@),
                ..old(self)@
            }),
    {
        broadcast use text::lemma_views_push;

        self.permission_queue.push(q);
    }

    /// Lets the next request come up where none waits for the user.
    pub fn poll_permission(&mut self)
        ensures
            final(self)@ == if old(self)@.pending_permission is None {
                next_request(old(self)@)
            } else {
                old(self)@
            },
    {
        if self.pending_permission.is_none() {
            self.promote();
        }
    }

    fn on_content(&mut self, text: String)
        ensures
            final(self)@ == applied(old(self)@, UiEventView::Content(text@)),
    {
        self.append_stream(Kind::Assistant, text);
        self.scroll_to_bottom();
    }

    fn on_reasoning(&mut self, text: String)
        ensures
            final(self)@ == applied(old(self)@, UiEventView::Reasoning(text@)),
    {
        let n: usize = self.lines.len();
        let goes_on = n > 0 && self.lines[n - 1].kind == Kind::Reasoning;
        let chunk = if goes_on {
            text
        } else {
            text::cat2("\n[thinking]\n", text.as_str())
        };
        self.append_stream(Kind::Reasoning, chunk);
        self.scroll_to_bottom();
    }

    fn on_tool_call(&mut self, text: String)
        ensures
            final(self)@ == applied(old(self)@, UiEventView::ToolCall(text@)),
    {
        self.push(Kind::Tool, text);
        self.scroll_to_bottom();
    }

    fn on_tool_start(&mut self, name: String)
        ensures
            final(self)@ == applied(old(self)@, UiEventView::ToolStart(name@)),
    {
        self.status = text::cat2("running ", name.as_str());
        self.session.last_tool = Some(name.as_str().to_string());
        self.tool_running = Some(name);
    }

    fn on_tool_result(&mut self, name: String, result: String)
        ensures
            final(self)@ == applied(
                old(self)@,
                UiEventView::ToolResult { name: name@, result: result@ },
            ),
    {
        let shown = text::cat4("[", name.as_str(), "]\n", result.as_str());
        self.push(Kind::ToolResult, shown);
        self.session.last_tool = Some(name);
        self.session.last_diff = Some(result);
        self.scroll_to_bottom();
    }

    fn on_stats(&mut self, tokens: i64, tps: u64, shown: String)
        ensures
            final(self)@ == applied(
                old(self)@,
                UiEventView::Stats { tokens, tps, shown: shown@ },
            ),
    {
        let n = text::write_i64(tokens);
        self.status = text::cat4(shown.as_str(), " tok/s (", n.as_str(), " tokens)");
        self.tps = Some(tps);
        self.session.tps = Some(tps);
        self.session.rate = Some(shown);
    }

    fn on_working(&mut self, name: String)
        ensures
            final(self)@ == applied(old(self)@, UiEventView::AgentWorking(name@)),
    {
        let shown = if same(name.as_str(), "drill") && self.mode == AgentMode::Agents {
            "maestro".to_string()
        } else {
            name
        };
        self.status = text::cat2("trabalhando: ", shown.as_str());
        self.working_agent = Some(shown);
    }

    fn on_muted(&mut self, text: String)
        ensures
            final(self)@ == applied(old(self)@, UiEventView::Muted(text@)),
    {
        self.push(Kind::Muted, text);
        self.scroll_to_bottom();
    }

    fn on_failure(&mut self, text: String)
        ensures
            final(self)@ == applied(old(self)@, UiEventView::Failure(text@)),
    {
        self.push(Kind::Failure, text::cat2("error: ", text.as_str()));
        self.status = "error".to_string();
    }

    fn on_done(&mut self)
        ensures
            final(self)@ == applied(old(self)@, UiEventView::Done),
    {
        self.gen_active = false;
        self.interrupt = false;
        self.working_agent = None;
        self.tool_running = None;
        self.status = "ready".to_string();
    }

    fn on_models(&mut self, models: Vec<String>, current: String, effort: String)
        ensures
            final(self)@ == applied(
                old(self)@,
                UiEventView::Models {
                    models: text::views(models@),
                    current: current@,
                    effort: effort@,
                },
            ),
    {
        self.effort_cursor = if same(effort.as_str(), "low") {
            0
        } else if same(effort.as_str(), "high") {
            2
        } else {
            1
        };
        self.models = models;
        self.models_current = current;
        self.models_cursor = 0;
        self.models_scroll = 0;
        self.models_view = true;
    }

    fn on_report(&mut self, event: UiEvent)
        requires
            event is Status || event is ContextUsage || event is ModeChanged
                || event is Providers || event is ModelReady,
        ensures
            final(self)@ == applied(old(self)@, event@),
    {
        match event {
            UiEvent::Status(text) => {
                self.status = text;
            },
            UiEvent::ContextUsage { used, max } => {
                self.session.ctx_used = used;
                self.session.ctx_max = max;
            },
            UiEvent::ModeChanged(mode) => {
                self.mode = mode;
            },
            UiEvent::Providers { entries, selected } => {
                self.providers = entries;
                self.provider_selected = selected;
            },
            UiEvent::ModelReady { model, thinking } => {
                self.session.model = model;
                self.session.reasoning_enabled = thinking;
            },
            _ => {},
        }
    }

    /// Shows what the worker tells.
    pub fn apply(&mut self, event: UiEvent)
        ensures
            final(self)@ == applied(old(self)@, event@),
    {
        match event {
            UiEvent::Content(text) => self.on_content(text),
            UiEvent::Reasoning(text) => self.on_reasoning(text),
            UiEvent::ToolCall(text) => self.on_tool_call(text),
            UiEvent::ToolStart(name) => self.on_tool_start(name),
            UiEvent::ToolResult { name, result } => self.on_tool_result(name, result),
            UiEvent::Stats { tokens, tps, shown } => self.on_stats(tokens, tps, shown),
            UiEvent::AgentWorking(name) => self.on_working(name),
            UiEvent::Muted(text) => self.on_muted(text),
            UiEvent::Failure(text) => self.on_failure(text),
            UiEvent::Done => self.on_done(),
            UiEvent::Models { models, current, effort } => self.on_models(models, current, effort),
            other => self.on_report(other),
        }
    }
}

/// The state without the session under the cursor.
pub open spec fn without_session(s: AppView) -> AppView {
    if s.session_cursor < s.sessions.len() {
        let rest = s.sessions.remove(s.session_cursor as int);
        AppView {
            sessions: rest,
            session_cursor: if rest.len() > 0 && s.session_cursor >= rest.len() {
                (rest.len() - 1) as nat
            } else {
                s.session_cursor
            },
            ..s
        }
    } else {
        s
    }
}

/// The state with the menu for the line that is typed.
pub open spec fn with_menu(s: AppView) -> AppView {
    AppView { popup: popup::popup_for(s.input.before(), s.popup, s.mention_files), ..s }
}

/// The state after the selected entry of the menu was taken.
pub open spec fn menu_taken(s: AppView) -> AppView {
    match s.popup {
        Some(p) => AppView { popup: None, input: popup::completed(s.input, p), ..s },
        None => s,
    }
}

/// A finished turn leaves the screen ready for the next one, whatever was told
/// before.
pub proof fn law_done_makes_ready(s: AppView)
    ensures
        ({
            let r = applied(s, UiEventView::Done);
            &&& !r.gen_active
            &&& !r.interrupt
            &&& r.working_agent is None
            &&& r.tool_running is None
            &&& r.lines == s.lines
            &&& r.input == s.input
        }),
{
}

/// What the worker tells never touches the line that the user types, and takes
/// no line out of the conversation.
pub proof fn law_events_keep_input(s: AppView, e: UiEventView)
    ensures
        applied(s, e).input == s.input,
        applied(s, e).queue == s.queue,
        applied(s, e).lines.len() >= s.lines.len(),
{
}

/// Pieces of an answer that come one after the other make one line.
pub proof fn law_answer_is_one_line(s: AppView, a: Seq<char>, b: Seq<char>)
    ensures
        applied(applied(s, UiEventView::Content(a)), UiEventView::Content(b)).lines == applied(
            s,
            UiEventView::Content(a + b),
        ).lines,
{
    let one = applied(s, UiEventView::Content(a));
    let two = applied(one, UiEventView::Content(b));
    let whole = applied(s, UiEventView::Content(a + b));
    assert(one.lines.last().kind == Kind::Assistant);
    if s.lines.len() > 0 && s.lines.last().kind == Kind::Assistant {
        let old = s.lines.last().text;
        assert((old + a) + b =~= old + (a + b));
    }
    assert(two.lines =~= whole.lines);
}

/// Each request for permission that came while another waited comes up in its
/// turn.
pub proof fn law_requests_wait_in_turn(s: AppView, allow: bool)
    requires
        s.pending_permission is Some,
        s.permission_queue.len() > 0,
    ensures
        after_answer(s, allow).pending_permission == Some(s.permission_queue[0]),
        after_answer(s, allow).permission_queue == s.permission_queue.subrange(
            1,
            s.permission_queue.len() as int,
        ),
{
}

/// Each event of the worker leaves its own line in the conversation, with its own words, behind
/// all others.
pub proof fn law_event_has_its_line(s: AppView, t: Seq<char>, name: Seq<char>)
    ensures
        applied(s, UiEventView::ToolCall(t)).lines == s.lines.push(
            (UiLineView { kind: Kind::Tool, text: t }),
        ),
        applied(s, UiEventView::ToolResult { name, result: t }).lines == s.lines.push(
            (UiLineView { kind: Kind::ToolResult, text: "["@ + name + "]\n"@ + t }),
        ),
        applied(s, UiEventView::Muted(t)).lines == s.lines.push(
            (UiLineView { kind: Kind::Muted, text: t }),
        ),
        applied(s, UiEventView::Failure(t)).lines == s.lines.push(
            (UiLineView { kind: Kind::Failure, text: "error: "@ + t }),
        ),
        s.lines.len() == 0 || s.lines.last().kind != Kind::Assistant ==> applied(
            s,
            UiEventView::Content(t),
        ).lines == s.lines.push((UiLineView { kind: Kind::Assistant, text: t })),
        s.lines.len() == 0 || s.lines.last().kind != Kind::Reasoning ==> applied(
            s,
            UiEventView::Reasoning(t),
        ).lines == s.lines.push(
            (UiLineView { kind: Kind::Reasoning, text: "\n[thinking]\n"@ + t }),
        ),
        s.lines.len() > 0 && s.lines.last().kind == Kind::Reasoning ==> applied(
            s,
            UiEventView::Reasoning(t),
        ).lines == s.lines.drop_last().push(
            (UiLineView { kind: Kind::Reasoning, text: s.lines.last().text + t }),
        ),
{
    if s.lines.len() > 0 && s.lines.last().kind == Kind::Reasoning {
        assert(applied(s, UiEventView::Reasoning(t)).lines =~= s.lines.drop_last().push(
            (UiLineView { kind: Kind::Reasoning, text: s.lines.last().text + t }),
        ));
    }
}

/// Each event of the worker sets what it tells of, and leaves the conversation as it is.
pub proof fn law_event_sets_its_state(
    s: AppView,
    t: Seq<char>,
    used: nat,
    max: nat,
    n: i64,
    bits: u64,
    m: AgentMode,
    thinking: bool,
)
    ensures
        applied(s, UiEventView::Status(t)).status == t,
        applied(s, UiEventView::ToolStart(t)).tool_running == Some(t),
        applied(s, UiEventView::ToolStart(t)).session.last_tool == Some(t),
        applied(s, UiEventView::ContextUsage { used, max }).session.ctx_used == used,
        applied(s, UiEventView::ContextUsage { used, max }).session.ctx_max == max,
        applied(s, UiEventView::Stats { tokens: n, tps: bits, shown: t }).tps == Some(bits),
        applied(s, UiEventView::Stats { tokens: n, tps: bits, shown: t }).status == t
            + " tok/s ("@ + text::decimal_int(n as int) + " tokens)"@,
        applied(s, UiEventView::ModeChanged(m)).mode == m,
        applied(s, UiEventView::ModelReady { model: t, thinking }).session.model == t,
        applied(s, UiEventView::ModelReady { model: t, thinking }).session.reasoning_enabled
            == thinking,
        t != "drill"@ ==> applied(s, UiEventView::AgentWorking(t)).working_agent == Some(t),
        s.mode == AgentMode::Agents ==> applied(
            s,
            UiEventView::AgentWorking("drill"@),
        ).working_agent == Some("maestro"@),
        applied(s, UiEventView::Status(t)).lines == s.lines,
        applied(s, UiEventView::ContextUsage { used, max }).lines == s.lines,
        applied(s, UiEventView::ModeChanged(m)).lines == s.lines,
{
}

/// The overlay of models opens with the models, the current one and the effort of the provider.
pub proof fn law_models_are_shown(
    s: AppView,
    models: Seq<Seq<char>>,
    current: Seq<char>,
    effort: Seq<char>,
)
    ensures
        ({
            let r = applied(s, UiEventView::Models { models, current, effort });
            &&& r.models == models
            &&& r.models_current == current
            &&& r.models_view
            &&& r.models_cursor == 0
            &&& effort == "low"@ || effort == "medium"@ || effort == "high"@
                ==> efforts()[r.effort_cursor as int] == effort
        }),
{
    reveal_strlit("low");
    reveal_strlit("medium");
    reveal_strlit("high");
    assert("low"@.len() == 3);
    assert("medium"@.len() == 6);
    assert("high"@.len() == 4);
}

/// A stored turn of the user comes back as what was asked and what was answered; a turn of an agent
/// as a remark that names it.
pub proof fn law_stored_turn_is_shown(s: AppView, row: HistoryRowView)
    ensures
        row.kind == "root"@ && text::trimmed(row.reply).len() > 0 ==> replayed(s, row).lines
            == s.lines.push((UiLineView { kind: Kind::User, text: row.input })).push(
            (UiLineView { kind: Kind::Assistant, text: row.reply }),
        ),
        row.kind == "root"@ && text::trimmed(row.reply).len() == 0 ==> replayed(s, row).lines
            == s.lines.push((UiLineView { kind: Kind::User, text: row.input })),
        row.kind == "main"@ && text::trimmed(row.reply).len() > 0 ==> replayed(s, row).lines
            == s.lines.push(
            (UiLineView { kind: Kind::Muted, text: "← "@ + row.agent_id + ": "@ + row.input }),
        ).push((UiLineView { kind: Kind::Muted, text: row.agent_id + " → "@ + row.reply })),
{
    reveal_strlit("root");
    reveal_strlit("main");
    assert("root"@[0] != "main"@[0]);
}

/// Entering a session shows all its turns, in order, behind what was shown, and makes it the
/// current one.
pub proof fn law_session_is_shown(s: AppView, id: Seq<char>, rows: Seq<HistoryRowView>)
    ensures
        entered(s, id, rows).session_id == id,
        !entered(s, id, rows).session_view,
        s.lines.is_prefix_of(entered(s, id, rows).lines),
        entered(s, id, Seq::empty()).lines == s.lines,
        forall|row: HistoryRowView|
            #![trigger rows.push(row)]
            entered(s, id, rows.push(row)).lines == replayed(entered(s, id, rows), row).lines,
    decreases rows.len(),
{
    if rows.len() > 0 {
        law_session_is_shown(s, id, rows.drop_last());
        let before = all_replayed(s, rows.drop_last());
        assert(s.lines.is_prefix_of(before.lines));
        assert(before.lines.is_prefix_of(replayed(before, rows.last()).lines));
    } else {
        assert(s.lines.is_prefix_of(s.lines));
    }
    assert forall|row: HistoryRowView|
        #![trigger rows.push(row)]
        entered(s, id, rows.push(row)).lines == replayed(entered(s, id, rows), row).lines by {
        assert(rows.push(row).drop_last() =~= rows);
    }
}

/// The answer to a request for permission is noted with the tool and what it was about.
pub proof fn law_answer_is_noted(s: AppView, q: PermissionView)
    requires
        s.pending_permission == Some(q),
    ensures
        after_answer(s, true).lines == s.lines.push(
            (UiLineView {
                kind: Kind::Muted,
                text: "[permissao] "@ + "concedida"@ + " para '"@ + q.tool + "': "@ + q.detail,
            }),
        ),
        after_answer(s, false).lines == s.lines.push(
            (UiLineView {
                kind: Kind::Muted,
                text: "[permissao] "@ + "negada"@ + " para '"@ + q.tool + "': "@ + q.detail,
            }),
        ),
        s.permission_queue.len() == 0 ==> after_answer(s, true).pending_permission is None,
{
}

/// How long ago something was is told in the largest unit that fits.
pub proof fn law_time_is_told_in_largest_unit(n: nat, secs: int)
    ensures
        secs < 60 ==> ago(secs) == "agora"@,
        1 <= n < 60 && 60 * n <= secs < 60 * (n + 1) ==> ago(secs) == text::decimal(n)
            + " min atras"@,
        1 <= n < 24 && 3600 * n <= secs < 3600 * (n + 1) ==> ago(secs) == text::decimal(n)
            + " h atras"@,
        1 <= n && 86400 * n <= secs < 86400 * (n + 1) ==> ago(secs) == text::decimal(n)
            + " d atras"@,
{
}

/// Deleting takes the session under the cursor out of the list and no other, and the cursor stays
/// within the list.
pub proof fn law_deleted_session_is_gone(s: AppView)
    requires
        s.session_cursor < s.sessions.len(),
    ensures
        ({
            let r = without_session(s);
            let c = s.session_cursor as int;
            &&& r.sessions == s.sessions.subrange(0, c) + s.sessions.subrange(
                c + 1,
                s.sessions.len() as int,
            )
            &&& r.sessions.len() > 0 ==> r.session_cursor < r.sessions.len()
        }),
{
    let c = s.session_cursor as int;
    assert(without_session(s).sessions =~= s.sessions.subrange(0, c) + s.sessions.subrange(
        c + 1,
        s.sessions.len() as int,
    ));
}

} // verus!
