//! What keys do: they edit the line, move in the overlays, and ask for
//! actions.

use crate::editor;
use crate::editor::InputView;
use crate::form;
use crate::form::{Form, FormResult, FormResultView};
use crate::keys;
use crate::keys::{KeyCode, KeyPress};
use crate::messages::{WorkerMsg, WorkerMsgView};
use crate::orchestrator;
use crate::popup::PopupKind;
use crate::provider_ui;
use crate::provider_ui::{ProviderKeyResult, ProviderKeyView, ProviderNav};
use crate::render;
use crate::screen::SpanView;
use crate::text;
use crate::text::same;
use crate::ui;
use crate::ui::{AppState, AppView, Kind, HELP_TEXT};
use vstd::prelude::*;

verus! {

/// A move in the list of sessions.
#[derive(Debug, Clone, Copy, PartialEq, Eq, Structural)]
pub enum Nav {
    First,
    Last,
    Up(usize),
    Down(usize),
}

/// What a key asks for.
#[derive(Debug, PartialEq)]
pub enum Action {
    Quit,
    Submit,
    Queue,
    Steer,
    Interrupt,
    ToggleMode,
    NavSession(Nav),
    OpenSession,
    DeleteSession,
    CloseSessionView,
    ChooseProvider(String),
    CloseProviderView,
    AddProvider(ProviderNav),
    ChooseModel,
    CloseModelsView,
    CloseForm,
    SendForm(WorkerMsg),
}

/// The model of what a key asks for.
#[verifier::ext_equal]
pub enum ActionView {
    Quit,
    Submit,
    Queue,
    Steer,
    Interrupt,
    ToggleMode,
    NavSession(Nav),
    OpenSession,
    DeleteSession,
    CloseSessionView,
    ChooseProvider(Seq<char>),
    CloseProviderView,
    AddProvider(ProviderNav),
    ChooseModel,
    CloseModelsView,
    CloseForm,
    SendForm(WorkerMsgView),
}

impl View for Action {
    type V = ActionView;

    open spec fn view(&self) -> ActionView {
        match self {
            Action::Quit => ActionView::Quit,
            Action::Submit => ActionView::Submit,
            Action::Queue => ActionView::Queue,
            Action::Steer => ActionView::Steer,
            Action::Interrupt => ActionView::Interrupt,
            Action::ToggleMode => ActionView::ToggleMode,
            Action::NavSession(n) => ActionView::NavSession(*n),
            Action::OpenSession => ActionView::OpenSession,
            Action::DeleteSession => ActionView::DeleteSession,
            Action::CloseSessionView => ActionView::CloseSessionView,
            Action::ChooseProvider(id) => ActionView::ChooseProvider(id@),
            Action::CloseProviderView => ActionView::CloseProviderView,
            Action::AddProvider(n) => ActionView::AddProvider(*n),
            Action::ChooseModel => ActionView::ChooseModel,
            Action::CloseModelsView => ActionView::CloseModelsView,
            Action::CloseForm => ActionView::CloseForm,
            Action::SendForm(m) => ActionView::SendForm(m@),
        }
    }
}

/// What is to be done outside the screen.
#[derive(Debug, PartialEq)]
pub enum Effect {
    Stay,
    Quit,
    Send(WorkerMsg),
    /// Stops the answer that the runtime generates.
    Cancel,
    /// Lists the sessions, for the overlay.
    ListSessions,
    /// Reads the turns of a session, and enters it.
    OpenSession(String),
    /// Deletes the turns of a session.
    DeleteSession(String),
}

/// The model of what is to be done outside the screen.
#[verifier::ext_equal]
pub enum EffectView {
    Stay,
    Quit,
    Send(WorkerMsgView),
    Cancel,
    ListSessions,
    OpenSession(Seq<char>),
    DeleteSession(Seq<char>),
}

impl View for Effect {
    type V = EffectView;

    open spec fn view(&self) -> EffectView {
        match self {
            Effect::Stay => EffectView::Stay,
            Effect::Quit => EffectView::Quit,
            Effect::Send(m) => EffectView::Send(m@),
            Effect::Cancel => EffectView::Cancel,
            Effect::ListSessions => EffectView::ListSessions,
            Effect::OpenSession(id) => EffectView::OpenSession(id@),
            Effect::DeleteSession(id) => EffectView::DeleteSession(id@),
        }
    }
}

/// What a key answers to a request for permission.
pub open spec fn permission_reply(code: KeyCode) -> Option<bool> {
    if code == KeyCode::Char('y') || code == KeyCode::Char('Y') || code == KeyCode::Enter {
        Some(true)
    } else if code == KeyCode::Char('n') || code == KeyCode::Char('N') || code == KeyCode::Esc {
        Some(false)
    } else {
        None
    }
}

/// What a key answers to a request for permission.
pub fn permission_key(code: KeyCode) -> (r: Option<bool>)
    ensures
        r == permission_reply(code),
{
    if code == KeyCode::Char('y') || code == KeyCode::Char('Y') || code == KeyCode::Enter {
        Some(true)
    } else if code == KeyCode::Char('n') || code == KeyCode::Char('N') || code == KeyCode::Esc {
        Some(false)
    } else {
        None
    }
}

/// What a key asks for in the list of sessions.
pub open spec fn session_action(code: KeyCode) -> Option<ActionView> {
    if keys::goes_up(code) {
        Some(ActionView::NavSession(Nav::Up(1)))
    } else if keys::goes_down(code) {
        Some(ActionView::NavSession(Nav::Down(1)))
    } else if code == KeyCode::PageUp {
        Some(ActionView::NavSession(Nav::Up(20)))
    } else if code == KeyCode::PageDown {
        Some(ActionView::NavSession(Nav::Down(20)))
    } else if code == KeyCode::Home {
        Some(ActionView::NavSession(Nav::First))
    } else if code == KeyCode::End {
        Some(ActionView::NavSession(Nav::Last))
    } else if code == KeyCode::Enter {
        Some(ActionView::OpenSession)
    } else if code == KeyCode::Char('d') || code == KeyCode::Char('D') || code == KeyCode::Delete {
        Some(ActionView::DeleteSession)
    } else if code == KeyCode::Esc || keys::is_quit(code) {
        Some(ActionView::CloseSessionView)
    } else {
        None
    }
}

fn session_key(code: KeyCode) -> (r: Option<Action>)
    ensures
        text::opt_view(r) == session_action(code),
{
    if code.up() {
        Some(Action::NavSession(Nav::Up(1)))
    } else if code.down() {
        Some(Action::NavSession(Nav::Down(1)))
    } else if code == KeyCode::PageUp {
        Some(Action::NavSession(Nav::Up(20)))
    } else if code == KeyCode::PageDown {
        Some(Action::NavSession(Nav::Down(20)))
    } else if code == KeyCode::Home {
        Some(Action::NavSession(Nav::First))
    } else if code == KeyCode::End {
        Some(Action::NavSession(Nav::Last))
    } else if code == KeyCode::Enter {
        Some(Action::OpenSession)
    } else if code == KeyCode::Char('d') || code == KeyCode::Char('D') || code == KeyCode::Delete {
        Some(Action::DeleteSession)
    } else if code == KeyCode::Esc || code.quit() {
        Some(Action::CloseSessionView)
    } else {
        None
    }
}

/// What a key does in the overlay of providers.
pub open spec fn provider_keyed(s: AppView, key: KeyPress) -> (AppView, Option<ActionView>) {
    let (result, cursor) = provider_ui::on_key(
        key.code,
        key.ctrl,
        s.provider_nav,
        s.provider_cursor,
        s.providers,
    );
    let moved = AppView { provider_cursor: cursor, ..s };
    match result {
        ProviderKeyView::Nothing => (moved, None),
        ProviderKeyView::Close => (moved, Some(ActionView::CloseProviderView)),
        ProviderKeyView::Back => (
            AppView { provider_nav: ProviderNav::Root, provider_cursor: 0, ..s },
            None,
        ),
        ProviderKeyView::EnterGroup(n) => (
            AppView { provider_nav: n, provider_cursor: 0, ..s },
            None,
        ),
        ProviderKeyView::Choose(id) => (moved, Some(ActionView::ChooseProvider(id))),
        ProviderKeyView::Add => (moved, Some(ActionView::AddProvider(s.provider_nav))),
    }
}

/// What a key does in the overlay of models.
pub open spec fn models_keyed(s: AppView, code: KeyCode) -> (AppView, Option<ActionView>) {
    if keys::goes_up(code) {
        (
            AppView {
                models_cursor: if s.models_cursor > 0 {
                    (s.models_cursor - 1) as nat
                } else {
                    0
                },
                ..s
            },
            None,
        )
    } else if keys::goes_down(code) {
        (
            AppView {
                models_cursor: if s.models_cursor + 1 < s.models.len() {
                    s.models_cursor + 1
                } else {
                    s.models_cursor
                },
                ..s
            },
            None,
        )
    } else if code == KeyCode::Left || code == KeyCode::Char('h') {
        (
            AppView {
                effort_cursor: if s.effort_cursor > 0 {
                    (s.effort_cursor - 1) as nat
                } else {
                    0
                },
                ..s
            },
            None,
        )
    } else if code == KeyCode::Right || code == KeyCode::Char('l') {
        (
            AppView {
                effort_cursor: if s.effort_cursor < 2 {
                    s.effort_cursor + 1
                } else {
                    2
                },
                ..s
            },
            None,
        )
    } else if code == KeyCode::Enter {
        (s, Some(ActionView::ChooseModel))
    } else if code == KeyCode::Esc || keys::is_quit(code) {
        (s, Some(ActionView::CloseModelsView))
    } else {
        (s, None)
    }
}

/// What a key does in a form.
pub open spec fn form_keyed(s: AppView, code: KeyCode) -> (AppView, Option<ActionView>) {
    let (f, result) = form::filled_in(s.form->0, code);
    match result {
        FormResultView::Open => (AppView { form: Some(f), ..s }, None),
        FormResultView::Cancelled => (AppView { form: None, ..s }, Some(ActionView::CloseForm)),
        FormResultView::Filled(m) => (AppView { form: None, ..s }, Some(ActionView::SendForm(m))),
    }
}

/// A key that the menu takes for itself.
pub open spec fn menu_takes(code: KeyCode) -> bool {
    ||| code == KeyCode::Up
    ||| code == KeyCode::Down
    ||| code == KeyCode::Tab
    ||| code == KeyCode::Enter
    ||| code == KeyCode::Esc
}

/// What a key does in the menu over the line.
pub open spec fn menu_keyed(s: AppView, code: KeyCode) -> (AppView, Option<ActionView>) {
    let p = s.popup->0;
    if code == KeyCode::Up {
        (
            AppView {
                popup: Some(
                    crate::popup::PopupView {
                        selected: if p.selected > 0 {
                            (p.selected - 1) as nat
                        } else {
                            0
                        },
                        ..p
                    },
                ),
                ..s
            },
            None,
        )
    } else if code == KeyCode::Down {
        (
            AppView {
                popup: Some(
                    crate::popup::PopupView {
                        selected: if p.selected + 1 < p.items.len() {
                            p.selected + 1
                        } else {
                            p.selected
                        },
                        ..p
                    },
                ),
                ..s
            },
            None,
        )
    } else if code == KeyCode::Tab {
        (ui::menu_taken(s), None)
    } else if code == KeyCode::Enter {
        (
            ui::menu_taken(s),
            if p.kind == PopupKind::Slash && !s.gen_active {
                Some(ActionView::Submit)
            } else {
                None
            },
        )
    } else {
        (AppView { popup: None, ..s }, None)
    }
}

/// The state in which the line changed.
pub open spec fn with_input(s: AppView, input: InputView) -> AppView {
    AppView { input, ..s }
}

/// What a key does to the line, before the menu is worked out again.
pub open spec fn line_keyed(s: AppView, code: KeyCode) -> (AppView, Option<ActionView>) {
    match code {
        KeyCode::Esc => (
            s,
            Some(
                if s.gen_active {
                    ActionView::Interrupt
                } else {
                    ActionView::Quit
                },
            ),
        ),
        KeyCode::Enter => (
            s,
            if s.gen_active {
                if s.input.text.len() > 0 {
                    Some(ActionView::Queue)
                } else {
                    None
                }
            } else if s.input.text.len() > 0 || s.queue.len() > 0 {
                Some(ActionView::Submit)
            } else {
                None
            },
        ),
        KeyCode::PageUp => (
            AppView {
                scroll: if s.scroll + 20 < s.max_scroll {
                    s.scroll + 20
                } else {
                    s.max_scroll
                },
                ..s
            },
            None,
        ),
        KeyCode::PageDown => (
            AppView {
                scroll: if 20 < s.scroll {
                    (s.scroll - 20) as nat
                } else {
                    0
                },
                ..s
            },
            None,
        ),
        KeyCode::Backspace => (with_input(s, s.input.erased()), None),
        KeyCode::Delete => (with_input(s, s.input.deleted()), None),
        KeyCode::Left => (with_input(s, s.input.left()), None),
        KeyCode::Right => (with_input(s, s.input.right()), None),
        KeyCode::Home => (with_input(s, s.input.home()), None),
        KeyCode::End => (with_input(s, s.input.end()), None),
        KeyCode::Char(c) => (with_input(s, s.input.typed(seq![c])), None),
        _ => (s, None),
    }
}

/// What a key does.
pub open spec fn keyed(s: AppView, key: KeyPress) -> (AppView, Option<ActionView>) {
    if s.form is Some {
        if key.ctrl && key.code == KeyCode::Char('c') {
            (s, Some(ActionView::Quit))
        } else {
            form_keyed(s, key.code)
        }
    } else if s.session_view {
        (s, session_action(key.code))
    } else if s.provider_view {
        provider_keyed(s, key)
    } else if s.models_view {
        models_keyed(s, key.code)
    } else if s.popup is Some && menu_takes(key.code) {
        menu_keyed(s, key.code)
    } else if key.ctrl && key.code == KeyCode::Char('c') {
        (s, Some(ActionView::Quit))
    } else if key.ctrl && key.code == KeyCode::Char('a') {
        (s, Some(ActionView::ToggleMode))
    } else if key.ctrl && key.code == KeyCode::Enter {
        (s, Some(ActionView::Steer))
    } else {
        let (next, action) = line_keyed(s, key.code);
        (ui::with_menu(next), action)
    }
}

impl AppState {
    fn provider_key(&mut self, key: KeyPress) -> (r: Option<Action>)
        ensures
            (final(self)@, text::opt_view(r)) == provider_keyed(old(self)@, key),
    {
        let mut cursor: usize = self.provider_cursor;
        let result = provider_ui::handle_key(
            key.code,
            key.ctrl,
            self.provider_nav,
            &mut cursor,
            &self.providers,
        );
        match result {
            ProviderKeyResult::Nothing => {
                self.provider_cursor = cursor;
                None
            },
            ProviderKeyResult::Close => {
                self.provider_cursor = cursor;
                Some(Action::CloseProviderView)
            },
            ProviderKeyResult::Back => {
                self.provider_nav = ProviderNav::Root;
                self.provider_cursor = 0;
                None
            },
            ProviderKeyResult::EnterGroup(n) => {
                self.provider_nav = n;
                self.provider_cursor = 0;
                None
            },
            ProviderKeyResult::Choose(id) => {
                self.provider_cursor = cursor;
                Some(Action::ChooseProvider(id))
            },
            ProviderKeyResult::Add => {
                self.provider_cursor = cursor;
                Some(Action::AddProvider(self.provider_nav))
            },
        }
    }

    fn models_key(&mut self, code: KeyCode) -> (r: Option<Action>)
        ensures
            (final(self)@, text::opt_view(r)) == models_keyed(old(self)@, code),
    {
        if code.up() {
            if self.models_cursor > 0 {
                self.models_cursor = self.models_cursor - 1;
            }
            None
        } else if code.down() {
            let n: usize = self.models.len();
            if n > 0 && self.models_cursor < n - 1 {
                self.models_cursor = self.models_cursor + 1;
            }
            None
        } else if code == KeyCode::Left || code == KeyCode::Char('h') {
            if self.effort_cursor > 0 {
                self.effort_cursor = self.effort_cursor - 1;
            }
            None
        } else if code == KeyCode::Right || code == KeyCode::Char('l') {
            if self.effort_cursor < 2 {
                self.effort_cursor = self.effort_cursor + 1;
            } else {
                self.effort_cursor = 2;
            }
            None
        } else if code == KeyCode::Enter {
            Some(Action::ChooseModel)
        } else if code == KeyCode::Esc || code.quit() {
            Some(Action::CloseModelsView)
        } else {
            None
        }
    }

    fn form_key(&mut self, code: KeyCode) -> (r: Option<Action>)
        requires
            old(self)@.form is Some,
            old(self)@.form->0.line.pos < usize::MAX,
        ensures
            (final(self)@, text::opt_view(r)) == form_keyed(old(self)@, code),
    {
        let taken = self.form.take();
        match taken {
            Some(f) => {
                let mut f = f;
                match f.on_key(code) {
                    FormResult::Open => {
                        self.form = Some(f);
                        None
                    },
                    FormResult::Cancelled => Some(Action::CloseForm),
                    FormResult::Filled(m) => Some(Action::SendForm(m)),
                }
            },
            None => None,
        }
    }

    fn menu_key(&mut self, code: KeyCode) -> (r: Option<Action>)
        requires
            old(self)@.popup is Some,
            menu_takes(code),
        ensures
            (final(self)@, text::opt_view(r)) == menu_keyed(old(self)@, code),
    {
        if code == KeyCode::Tab {
            self.apply_popup_selection();
            return None;
        }
        if code == KeyCode::Enter {
            let slash = match &self.popup {
                Some(p) => p.kind == PopupKind::Slash,
                None => false,
            };
            self.apply_popup_selection();
            return if slash && !self.gen_active {
                Some(Action::Submit)
            } else {
                None
            };
        }
        let taken = self.popup.take();
        match taken {
            Some(p) => {
                let mut p = p;
                if code == KeyCode::Up {
                    if p.selected > 0 {
                        p.selected = p.selected - 1;
                    }
                    self.popup = Some(p);
                } else if code == KeyCode::Down {
                    let n: usize = p.items.len();
                    if n > 0 && p.selected < n - 1 {
                        p.selected = p.selected + 1;
                    }
                    self.popup = Some(p);
                }
            },
            None => {},
        }
        None
    }

    fn line_key(&mut self, code: KeyCode) -> (r: Option<Action>)
        requires
            old(self)@.input.pos < usize::MAX,
        ensures
            (final(self)@, text::opt_view(r)) == line_keyed(old(self)@, code),
    {
        match code {
            KeyCode::Esc => if self.gen_active {
                Some(Action::Interrupt)
            } else {
                Some(Action::Quit)
            },
            KeyCode::Enter => if self.gen_active {
                if !self.input.is_empty() {
                    Some(Action::Queue)
                } else {
                    None
                }
            } else if !self.input.is_empty() || self.queue.len() > 0 {
                Some(Action::Submit)
            } else {
                None
            },
            KeyCode::PageUp => {
                self.scroll_up(20);
                None
            },
            KeyCode::PageDown => {
                self.scroll_down(20);
                None
            },
            KeyCode::Backspace => {
                self.input.backspace();
                None
            },
            KeyCode::Delete => {
                self.input.delete();
                None
            },
            KeyCode::Left => {
                self.input.left();
                None
            },
            KeyCode::Right => {
                self.input.right();
                None
            },
            KeyCode::Home => {
                self.input.home();
                None
            },
            KeyCode::End => {
                self.input.end();
                None
            },
            KeyCode::Char(c) => {
                self.input.type_char(c);
                None
            },
            _ => None,
        }
    }

    /// Handles a key, and says what it asks for.
    pub fn read_key(&mut self, key: KeyPress) -> (r: Option<Action>)
        requires
            old(self)@.input.pos < usize::MAX,
            old(self)@.form matches Some(f) ==> f.line.pos < usize::MAX,
        ensures
            (final(self)@, text::opt_view(r)) == keyed(old(self)@, key),
    {
        if self.form.is_some() {
            if key.ctrl && key.code == KeyCode::Char('c') {
                return Some(Action::Quit);
            }
            return self.form_key(key.code);
        }
        if self.session_view {
            return session_key(key.code);
        }
        if self.provider_view {
            return self.provider_key(key);
        }
        if self.models_view {
            return self.models_key(key.code);
        }
        let menu = key.code == KeyCode::Up || key.code == KeyCode::Down || key.code == KeyCode::Tab
            || key.code == KeyCode::Enter || key.code == KeyCode::Esc;
        if self.popup.is_some() && menu {
            return self.menu_key(key.code);
        }
        if key.ctrl && key.code == KeyCode::Char('c') {
            return Some(Action::Quit);
        }
        if key.ctrl && key.code == KeyCode::Char('a') {
            return Some(Action::ToggleMode);
        }
        if key.ctrl && key.code == KeyCode::Enter {
            return Some(Action::Steer);
        }
        let action = self.line_key(key.code);
        self.update_popup();
        action
    }

    fn form_paste(&mut self, text: &str)
        requires
            old(self)@.form is Some,
            old(self)@.form->0.line.pos + text@.len() <= usize::MAX,
        ensures
            final(self)@ == (AppView {
                form: Some(form::pasted_in(old(self)@.form->0, text@)),
                ..old(self)@
            }),
    {
        let taken = self.form.take();
        match taken {
            Some(f) => {
                let mut f = f;
                f.paste(text);
                self.form = Some(f);
            },
            None => {},
        }
    }

    /// Puts a pasted text into the form, or into the line, unless an overlay or
    /// a request is in front of it.
    pub fn paste(&mut self, text: &str)
        requires
            old(self)@.input.pos + text@.len() <= usize::MAX,
            old(self)@.form matches Some(f) ==> f.line.pos + text@.len() <= usize::MAX,
        ensures
            final(self)@ == pasted(old(self)@, text@),
    {
        if self.pending_permission.is_none() && self.form.is_some() {
            self.form_paste(text);
        } else if self.pending_permission.is_none() && !self.session_view {
            let line = editor::one_line(text);
            if line.as_str().unicode_len() > 0 {
                self.input.insert(line.as_str());
            }
            self.update_popup();
        }
    }
}

/// The state after a text was pasted.
pub open spec fn pasted(s: AppView, t: Seq<char>) -> AppView {
    if s.pending_permission is None && s.form is Some {
        AppView { form: Some(form::pasted_in(s.form->0, t)), ..s }
    } else if s.pending_permission is None && !s.session_view {
        ui::with_menu(
            if t.len() > 0 {
                with_input(s, s.input.typed(editor::on_one_line(t)))
            } else {
                s
            },
        )
    } else {
        s
    }
}

/// While a form or an overlay is open, no key reaches the line.
pub proof fn law_overlay_guards_line(s: AppView, key: KeyPress)
    requires
        s.form is Some || s.session_view || s.provider_view || s.models_view,
    ensures
        keyed(s, key).0.input == s.input,
        keyed(s, key).0.popup == s.popup,
        keyed(s, key).0.lines == s.lines,
{
}

/// Whatever key is pressed, the cursor stays within the line.
pub proof fn law_keys_keep_cursor_within(s: AppView, key: KeyPress)
    requires
        s.input.wf(),
    ensures
        keyed(s, key).0.input.wf(),
{
    match key.code {
        KeyCode::Char(c) => editor::law_cursor_stays_within(s.input, seq![c]),
        _ => editor::law_cursor_stays_within(s.input, Seq::empty()),
    }
}

/// Where the cursor of the list of sessions stands after a move.
pub open spec fn nav_target(n: Nav, pos: nat, len: nat) -> nat {
    let last = if len > 0 {
        (len - 1) as nat
    } else {
        0
    };
    match n {
        Nav::First => 0,
        Nav::Last => last,
        Nav::Up(k) => {
            let t = pos - k;
            if t < 0 {
                0
            } else if t > last {
                last
            } else {
                t as nat
            }
        },
        Nav::Down(k) => if pos + k > last {
            last
        } else {
            (pos + k) as nat
        },
    }
}

/// A move stays within the list.
pub proof fn law_move_stays_in_list(n: Nav, pos: nat, len: nat)
    requires
        len > 0,
    ensures
        nav_target(n, pos, len) < len,
{
}

/// The state after a move in the list of sessions.
pub open spec fn moved(s: AppView, n: Nav) -> AppView {
    AppView {
        session_cursor: nav_target(n, s.session_cursor, s.sessions.len()),
        session_scroll: if s.session_scroll >= s.sessions.len() {
            if s.sessions.len() > 0 {
                (s.sessions.len() - 1) as nat
            } else {
                0
            }
        } else {
            s.session_scroll
        },
        ..s
    }
}

/// What is sent: the line, or the first text that waits where the line is
/// empty.
pub open spec fn submitted_text(s: AppView) -> Seq<char> {
    if s.input.text.len() > 0 {
        s.input.text
    } else if s.queue.len() > 0 {
        s.queue[0]
    } else {
        Seq::empty()
    }
}

/// The state once the text to send was taken out.
pub open spec fn text_taken(s: AppView) -> AppView {
    if s.input.text.len() > 0 {
        AppView { input: InputView::empty(), ..s }
    } else {
        AppView {
            input: InputView { pos: 0, ..s.input },
            queue: if s.queue.len() > 0 {
                s.queue.subrange(1, s.queue.len() as int)
            } else {
                s.queue
            },
            ..s
        }
    }
}

/// The state in which a text is being answered.
pub open spec fn answering(s: AppView, t: Seq<char>) -> AppView {
    AppView { status: "generating"@, gen_active: true, ..ui::pushed(s, Kind::User, t) }
}

/// What sending a text does: a command is carried out, anything else is a turn.
pub open spec fn submitted(s: AppView) -> (AppView, EffectView) {
    let t = submitted_text(s);
    let rest = text_taken(s);
    let word = text::trimmed(t);
    if word == "/session"@ {
        (rest, EffectView::ListSessions)
    } else if word == "/provider"@ {
        (
            AppView {
                provider_view: true,
                provider_nav: ProviderNav::Root,
                provider_cursor: 0,
                status: "escolha o provider..."@,
                ..rest
            },
            EffectView::Stay,
        )
    } else if word == "/models"@ {
        (
            AppView { status: "carregando modelos..."@, ..rest },
            EffectView::Send(WorkerMsgView::ListModels),
        )
    } else if word == "/model"@ {
        (ui::model_asked(rest, rest.session.model, rest.mmproj), EffectView::Stay)
    } else if word == "/clear"@ {
        (
            AppView {
                lines: Seq::empty(),
                scroll: 0,
                status: "chat limpo"@,
                render_dirty: true,
                ..rest
            },
            EffectView::Stay,
        )
    } else if word == "/help"@ {
        (ui::pushed(rest, Kind::Muted, HELP_TEXT@), EffectView::Stay)
    } else {
        (
            answering(AppView { popup: None, ..rest }, t),
            EffectView::Send(WorkerMsgView::Turn(t)),
        )
    }
}

/// What changing the mode does.
pub open spec fn mode_toggled(s: AppView) -> (AppView, EffectView) {
    if s.gen_active {
        (AppView { status: "aguarde terminar a geracao"@, ..s }, EffectView::Stay)
    } else {
        let m = orchestrator::toggled(s.mode);
        (
            ui::pushed(
                AppView { mode: m, status: "modo "@ + orchestrator::mode_label(m), ..s },
                Kind::Muted,
                "[modo] "@ + orchestrator::mode_label(m)
                    + ": o drill eh o agente maestro com subagentes; use Ctrl+A para voltar a solo."@,
            ),
            EffectView::Send(WorkerMsgView::SetMode(m)),
        )
    }
}

/// The state in which a provider is asked for: a file where the list is that of
/// the local ones, and a remote one else.
pub open spec fn provider_asked(s: AppView, n: ProviderNav) -> AppView {
    AppView {
        provider_view: false,
        form: Some(
            if n == ProviderNav::LocalList {
                form::model_form(Seq::empty(), Seq::empty())
            } else {
                form::provider_form()
            },
        ),
        ..s
    }
}

/// The state once a form was filled in.
pub open spec fn form_sent(s: AppView, m: WorkerMsgView) -> AppView {
    match m {
        WorkerMsgView::SetLocalModel { model, mmproj } => AppView {
            mmproj,
            status: "definindo modelo..."@,
            ..s
        },
        _ => AppView { status: "definindo provider..."@, ..s },
    }
}

/// What an action does.
pub open spec fn performed(s: AppView, action: ActionView) -> (AppView, EffectView) {
    match action {
        ActionView::Quit => (s, EffectView::Quit),
        ActionView::Submit => submitted(s),
        ActionView::Queue => (
            AppView { input: InputView::empty(), queue: s.queue.push(s.input.text), ..s },
            EffectView::Stay,
        ),
        ActionView::Steer => (
            AppView {
                interrupt: true,
                status: "interrupting..."@,
                input: if s.input.text.len() > 0 {
                    InputView::empty()
                } else {
                    s.input
                },
                queue: if s.input.text.len() > 0 {
                    seq![s.input.text] + s.queue
                } else {
                    s.queue
                },
                ..s
            },
            EffectView::Cancel,
        ),
        ActionView::Interrupt => (
            AppView { interrupt: true, status: "interrupting..."@, ..s },
            EffectView::Cancel,
        ),
        ActionView::ToggleMode => mode_toggled(s),
        ActionView::NavSession(n) => (moved(s, n), EffectView::Stay),
        ActionView::OpenSession => (
            s,
            if s.session_cursor < s.sessions.len() {
                EffectView::OpenSession(s.sessions[s.session_cursor as int].id)
            } else {
                EffectView::Stay
            },
        ),
        ActionView::DeleteSession => (
            s,
            if s.session_cursor < s.sessions.len() {
                EffectView::DeleteSession(s.sessions[s.session_cursor as int].id)
            } else {
                EffectView::Stay
            },
        ),
        ActionView::CloseSessionView => (
            AppView { session_view: false, status: "ready"@, ..s },
            EffectView::Stay,
        ),
        ActionView::ChooseProvider(id) => (
            AppView { provider_view: false, status: "definindo provider..."@, ..s },
            EffectView::Send(WorkerMsgView::SetProvider(id)),
        ),
        ActionView::CloseProviderView => (
            AppView { provider_view: false, status: "ready"@, ..s },
            EffectView::Stay,
        ),
        ActionView::AddProvider(n) => (provider_asked(s, n), EffectView::Stay),
        ActionView::ChooseModel => if s.models_cursor < s.models.len() && s.effort_cursor
            < ui::efforts().len() {
            (
                AppView { models_view: false, status: "definindo modelo..."@, ..s },
                EffectView::Send(
                    WorkerMsgView::SetModelAndEffort(
                        s.models[s.models_cursor as int],
                        ui::efforts()[s.effort_cursor as int],
                    ),
                ),
            )
        } else {
            (s, EffectView::Stay)
        },
        ActionView::CloseModelsView => (
            AppView { models_view: false, status: "ready"@, ..s },
            EffectView::Stay,
        ),
        ActionView::CloseForm => (AppView { status: "ready"@, ..s }, EffectView::Stay),
        ActionView::SendForm(m) => (form_sent(s, m), EffectView::Send(m)),
    }
}

/// Where the cursor of the list of sessions stands after a move.
pub fn nav_to(n: Nav, pos: usize, len: usize) -> (r: usize)
    ensures
        r == nav_target(n, pos as nat, len as nat),
{
    let last: usize = if len > 0 {
        len - 1
    } else {
        0
    };
    match n {
        Nav::First => 0,
        Nav::Last => last,
        Nav::Up(k) => if k >= pos {
            0
        } else if pos - k > last {
            last
        } else {
            pos - k
        },
        Nav::Down(k) => if pos >= last || k > last - pos {
            last
        } else {
            pos + k
        },
    }
}

impl AppState {
    fn take_text(&mut self) -> (r: String)
        ensures
            r@ == submitted_text(old(self)@),
            final(self)@ == text_taken(old(self)@),
    {
        if !self.input.is_empty() {
            return self.input.take();
        }
        self.input.home();
        if self.queue.len() > 0 {
            let first = self.queue.remove(0);
            assert(text::views(self.queue@) =~= old(self)@.queue.subrange(
                1,
                old(self)@.queue.len() as int,
            ));
            first
        } else {
            let none = String::new();
            assert(none@ =~= Seq::empty());
            none
        }
    }

    fn answer(&mut self, text: &str)
        ensures
            final(self)@ == answering(old(self)@, text@),
    {
        self.push(Kind::User, text.to_string());
        self.status = "generating".to_string();
        self.gen_active = true;
    }

    fn submit(&mut self) -> (r: Effect)
        ensures
            (final(self)@, r@) == submitted(old(self)@),
    {
        let t = self.take_text();
        let word = text::trim(t.as_str());
        let word = word.as_str();
        if same(word, "/session") {
            Effect::ListSessions
        } else if same(word, "/provider") {
            self.provider_view = true;
            self.provider_nav = ProviderNav::Root;
            self.provider_cursor = 0;
            self.status = "escolha o provider...".to_string();
            Effect::Stay
        } else if same(word, "/models") {
            self.status = "carregando modelos...".to_string();
            Effect::Send(WorkerMsg::ListModels)
        } else if same(word, "/model") {
            let model = self.session.model.as_str().to_string();
            let mmproj = self.mmproj.as_str().to_string();
            self.open_model_setup(model, mmproj);
            Effect::Stay
        } else if same(word, "/clear") {
            self.lines = Vec::new();
            assert(text::views(self.lines@) =~= Seq::<crate::ui::UiLineView>::empty());
            self.scroll = 0;
            self.render_dirty = true;
            self.status = "chat limpo".to_string();
            Effect::Stay
        } else if same(word, "/help") {
            self.push(Kind::Muted, HELP_TEXT.to_string());
            Effect::Stay
        } else {
            self.popup = None;
            self.answer(t.as_str());
            Effect::Send(WorkerMsg::Turn(t))
        }
    }

    fn toggle_mode(&mut self) -> (r: Effect)
        ensures
            (final(self)@, r@) == mode_toggled(old(self)@),
    {
        if self.gen_active {
            self.status = "aguarde terminar a geracao".to_string();
            return Effect::Stay;
        }
        let mut mode = self.mode;
        mode.toggle();
        self.mode = mode;
        self.status = text::cat2("modo ", mode.label());
        self.push(
            Kind::Muted,
            text::cat3(
                "[modo] ",
                mode.label(),
                ": o drill eh o agente maestro com subagentes; use Ctrl+A para voltar a solo.",
            ),
        );
        Effect::Send(WorkerMsg::SetMode(mode))
    }

    fn queue_text(&mut self)
        ensures
            (final(self)@, EffectView::Stay) == performed(old(self)@, ActionView::Queue),
    {
        broadcast use text::lemma_views_push;

        let t = self.input.take();
        self.queue.push(t);
    }

    fn steer(&mut self)
        ensures
            (final(self)@, EffectView::Cancel) == performed(old(self)@, ActionView::Steer),
    {
        if !self.input.is_empty() {
            let t = self.input.take();
            self.queue.insert(0, t);
            assert(text::views(self.queue@) =~= seq![t@] + old(self)@.queue);
        }
        self.interrupt = true;
        self.status = "interrupting...".to_string();
    }

    fn choose_model(&mut self) -> (r: Effect)
        ensures
            (final(self)@, r@) == performed(old(self)@, ActionView::ChooseModel),
    {
        if self.models_cursor < self.models.len() && self.effort_cursor < 3 {
            let effort = match self.effort_cursor {
                0 => "low",
                1 => "medium",
                _ => "high",
            };
            assert(self@.models[self.models_cursor as int] == self.models@[
                self.models_cursor as int
            ]@);
            assert(effort@ == ui::efforts()[self.effort_cursor as int]);
            let model = self.models[self.models_cursor].as_str().to_string();
            self.models_view = false;
            self.status = "definindo modelo...".to_string();
            Effect::Send(WorkerMsg::SetModelAndEffort(model, effort.to_string()))
        } else {
            Effect::Stay
        }
    }

    fn ask_provider(&mut self, n: ProviderNav)
        ensures
            final(self)@ == provider_asked(old(self)@, n),
    {
        self.provider_view = false;
        self.form = Some(
            if n == ProviderNav::LocalList {
                let none = String::new();
                assert(none@ =~= Seq::empty());
                Form::local_model(String::new(), none)
            } else {
                Form::new_provider()
            },
        );
    }

    fn note_form(&mut self, m: &WorkerMsg)
        ensures
            final(self)@ == form_sent(old(self)@, m@),
    {
        match m {
            WorkerMsg::SetLocalModel { model: _, mmproj } => {
                self.mmproj = mmproj.as_str().to_string();
                self.status = "definindo modelo...".to_string();
            },
            _ => {
                self.status = "definindo provider...".to_string();
            },
        }
    }

    fn move_session(&mut self, n: Nav)
        ensures
            final(self)@ == moved(old(self)@, n),
    {
        let len: usize = self.sessions.len();
        self.session_cursor = nav_to(n, self.session_cursor, len);
        if self.session_scroll >= len {
            self.session_scroll = if len > 0 {
                len - 1
            } else {
                0
            };
        }
    }

    /// Carries out what a key asked for, and says what is to be done outside.
    /// A step in an empty list of sessions is no action.
    pub fn perform(&mut self, action: Action) -> (r: Effect)
        requires
            action matches Action::NavSession(n) ==> old(self)@.sessions.len() > 0 || n is First
                || n is Last,
        ensures
            (final(self)@, r@) == performed(old(self)@, action@),
    {
        match action {
            Action::Quit => Effect::Quit,
            Action::Submit => self.submit(),
            Action::Queue => {
                self.queue_text();
                Effect::Stay
            },
            Action::Steer => {
                self.steer();
                Effect::Cancel
            },
            Action::Interrupt => {
                self.interrupt = true;
                self.status = "interrupting...".to_string();
                Effect::Cancel
            },
            Action::ToggleMode => self.toggle_mode(),
            Action::NavSession(n) => {
                self.move_session(n);
                Effect::Stay
            },
            Action::OpenSession => match self.selected_session() {
                Some(id) => Effect::OpenSession(id),
                None => Effect::Stay,
            },
            Action::DeleteSession => match self.selected_session() {
                Some(id) => Effect::DeleteSession(id),
                None => Effect::Stay,
            },
            Action::CloseSessionView => {
                self.session_view = false;
                self.status = "ready".to_string();
                Effect::Stay
            },
            Action::ChooseProvider(id) => {
                self.provider_view = false;
                self.status = "definindo provider...".to_string();
                Effect::Send(WorkerMsg::SetProvider(id))
            },
            Action::CloseProviderView => {
                self.provider_view = false;
                self.status = "ready".to_string();
                Effect::Stay
            },
            Action::AddProvider(n) => {
                self.ask_provider(n);
                Effect::Stay
            },
            Action::ChooseModel => self.choose_model(),
            Action::CloseModelsView => {
                self.models_view = false;
                self.status = "ready".to_string();
                Effect::Stay
            },
            Action::CloseForm => {
                self.status = "ready".to_string();
                Effect::Stay
            },
            Action::SendForm(m) => {
                self.note_form(&m);
                Effect::Send(m)
            },
        }
    }

    /// Starts the next text that waits, where nothing is being answered.
    pub fn start_queued(&mut self) -> (r: Option<String>)
        ensures
            match r {
                Some(t) => !old(self)@.gen_active && old(self)@.queue.len() > 0 && t@
                    == old(self)@.queue[0] && final(self)@ == answering(
                    AppView {
                        queue: old(self)@.queue.subrange(1, old(self)@.queue.len() as int),
                        ..old(self)@
                    },
                    t@,
                ),
                None => (old(self)@.gen_active || old(self)@.queue.len() == 0) && final(self)@
                    == old(self)@,
            },
    {
        if self.gen_active || self.queue.len() == 0 {
            return None;
        }
        let first = self.queue.remove(0);
        assert(text::views(self.queue@) =~= old(self)@.queue.subrange(
            1,
            old(self)@.queue.len() as int,
        ));
        self.answer(first.as_str());
        Some(first)
    }

    /// Shows for how long the tool has been running, if one is.
    pub fn show_tool_time(&mut self, secs: u64)
        ensures
            final(self)@ == match old(self)@.tool_running {
                Some(n) => AppView {
                    status: "running "@ + n + " ("@ + text::decimal(secs as nat) + "s)"@,
                    ..old(self)@
                },
                None => old(self)@,
            },
    {
        let status = match &self.tool_running {
            Some(n) => {
                let t = text::write_u64(secs);
                Some(text::cat5("running ", n.as_str(), " (", t.as_str(), "s)"))
            },
            None => None,
        };
        match status {
            Some(s) => {
                self.status = s;
            },
            None => {},
        }
    }
}

/// Clearing the chat sends nothing, and the next frame shows no line.
pub proof fn law_cleared_screen_is_empty(s: AppView, width: nat)
    requires
        text::trimmed(submitted_text(s)) == "/clear"@,
    ensures
        ({
            let (next, effect) = performed(s, ActionView::Submit);
            &&& next.lines.len() == 0
            &&& effect is Stay
            &&& render::current_lines(next, width) == Seq::<Seq<SpanView>>::empty()
        }),
{
    reveal_strlit("/session");
    reveal_strlit("/provider");
    reveal_strlit("/models");
    reveal_strlit("/model");
    reveal_strlit("/clear");
    assert("/clear"@[1] == 'c' && "/session"@[1] == 's' && "/provider"@[1] == 'p' && "/models"@[1]
        == 'm' && "/model"@[1] == 'm');
}

/// A text that is queued while an answer is being generated is sent when that
/// is done, before anything that was queued later.
pub proof fn law_queued_text_is_sent(s: AppView)
    requires
        s.gen_active,
        s.queue.len() == 0,
        s.input.text.len() > 0,
    ensures
        ({
            let queued = performed(s, ActionView::Queue).0;
            let done = ui::applied(queued, crate::messages::UiEventView::Done);
            &&& !done.gen_active
            &&& done.queue == seq![s.input.text]
            &&& queued.input == InputView::empty()
        }),
{
    assert(s.queue.push(s.input.text) =~= seq![s.input.text]);
}

/// A steered text comes before all that was queued, and the answer under way
/// is stopped.
pub proof fn law_steered_text_comes_first(s: AppView)
    requires
        s.input.text.len() > 0,
    ensures
        performed(s, ActionView::Steer).0.queue[0] == s.input.text,
        performed(s, ActionView::Steer).0.interrupt,
        performed(s, ActionView::Steer).1 is Cancel,
{
}

/// The list of remote providers leads to a form for a new one; while it is
/// open the list is not.
pub proof fn law_new_provider_is_asked_for(s: AppView)
    requires
        s.provider_view,
        !s.session_view,
        s.form is None,
        s.provider_nav == ProviderNav::CloudList,
    ensures
        ({
            let key = KeyPress { code: KeyCode::Char('a'), ctrl: true };
            let (next, action) = keyed(s, key);
            &&& action == Some(ActionView::AddProvider(ProviderNav::CloudList))
            &&& performed(next, action->0).0.form == Some(form::provider_form())
            &&& !performed(next, action->0).0.provider_view
        }),
{
}

/// A form that was filled in is sent as it was filled in, and is gone.
pub proof fn law_filled_form_is_sent(s: AppView, key: KeyPress)
    requires
        s.form matches Some(f) && form::filled_in(f, key.code).1 is Filled,
        !key.ctrl,
    ensures
        ({
            let (next, action) = keyed(s, key);
            &&& next.form is None
            &&& action is Some
            &&& performed(next, action->0).1 == EffectView::Send(
                form::filled_in(s.form->0, key.code).1->Filled_0,
            )
        }),
{
}

/// Changing the mode twice leaves it as it was.
pub proof fn law_mode_toggles_back(s: AppView)
    requires
        !s.gen_active,
    ensures
        mode_toggled(mode_toggled(s).0).0.mode == s.mode,
{
}

/// A text that is no command is sent as a turn, as it was typed; it stands in the conversation, the
/// line is empty again, and nothing else that waits is touched.
pub proof fn law_message_is_sent(s: AppView)
    requires
        s.input.text.len() > 0,
        ({
            let word = text::trimmed(s.input.text);
            &&& word != "/session"@
            &&& word != "/provider"@
            &&& word != "/models"@
            &&& word != "/model"@
            &&& word != "/clear"@
            &&& word != "/help"@
        }),
    ensures
        ({
            let (next, effect) = performed(s, ActionView::Submit);
            &&& effect == EffectView::Send(WorkerMsgView::Turn(s.input.text))
            &&& next.lines == s.lines.push(
                (crate::ui::UiLineView { kind: Kind::User, text: s.input.text }),
            )
            &&& next.input.text.len() == 0
            &&& next.input.pos == 0
            &&& next.gen_active
            &&& next.queue == s.queue
        }),
{
}

/// Where nothing is typed the text that has waited longest is sent, and the others go on waiting;
/// a text that is queued waits behind them.
pub proof fn law_queue_is_first_in_first_out(s: AppView)
    ensures
        performed(s, ActionView::Queue).0.queue == s.queue.push(s.input.text),
        performed(s, ActionView::Queue).1 is Stay,
        s.input.text.len() == 0 && s.queue.len() > 0 ==> submitted_text(s) == s.queue[0] && text_taken(
            s,
        ).queue == s.queue.subrange(1, s.queue.len() as int),
        s.input.text.len() > 0 ==> submitted_text(s) == s.input.text,
        s.input.text.len() > 0 ==> performed(s, ActionView::Steer).0.queue == seq![s.input.text]
            + s.queue,
{
}

/// Each command does what it is for, and none is sent to the model.
pub proof fn law_command_is_carried_out(s: AppView)
    ensures
        ({
            let word = text::trimmed(submitted_text(s));
            let (next, effect) = performed(s, ActionView::Submit);
            &&& word == "/session"@ ==> effect is ListSessions
            &&& word == "/provider"@ ==> next.provider_view && effect is Stay
            &&& word == "/models"@ ==> effect == EffectView::Send(WorkerMsgView::ListModels)
            &&& word == "/model"@ ==> next.form == Some(
                form::model_form(s.session.model, s.mmproj),
            ) && effect is Stay
            &&& word == "/help"@ ==> effect is Stay && next.lines == s.lines.push(
                (crate::ui::UiLineView { kind: Kind::Muted, text: HELP_TEXT@ }),
            )
        }),
{
    reveal_strlit("/session");
    reveal_strlit("/provider");
    reveal_strlit("/models");
    reveal_strlit("/model");
    reveal_strlit("/clear");
    reveal_strlit("/help");
    assert("/session"@.len() == 8);
    assert("/provider"@.len() == 9);
    assert("/models"@.len() == 7);
    assert("/model"@.len() == 6);
    assert("/clear"@.len() == 6);
    assert("/help"@.len() == 5);
    assert("/model"@[1] != "/clear"@[1]);
}

/// The user grants a request with `y` or Enter, refuses it with `n` or Esc, and answers nothing
/// with any other key.
pub proof fn law_keys_answer_request(code: KeyCode)
    ensures
        permission_reply(KeyCode::Char('y')) == Some(true),
        permission_reply(KeyCode::Char('Y')) == Some(true),
        permission_reply(KeyCode::Enter) == Some(true),
        permission_reply(KeyCode::Char('n')) == Some(false),
        permission_reply(KeyCode::Char('N')) == Some(false),
        permission_reply(KeyCode::Esc) == Some(false),
        code != KeyCode::Char('y') && code != KeyCode::Char('Y') && code != KeyCode::Enter && code
            != KeyCode::Char('n') && code != KeyCode::Char('N') && code != KeyCode::Esc
            ==> permission_reply(code) is None,
{
}

/// What is chosen is what the cursor stands on: the session to open or delete, the model and the
/// effort to set.
pub proof fn law_choice_is_under_cursor(s: AppView, id: Seq<char>)
    ensures
        s.session_cursor < s.sessions.len() ==> performed(s, ActionView::OpenSession).1
            == EffectView::OpenSession(s.sessions[s.session_cursor as int].id) && performed(
            s,
            ActionView::DeleteSession,
        ).1 == EffectView::DeleteSession(s.sessions[s.session_cursor as int].id),
        s.models_cursor < s.models.len() && s.effort_cursor == 0 ==> performed(
            s,
            ActionView::ChooseModel,
        ).1 == EffectView::Send(
            WorkerMsgView::SetModelAndEffort(s.models[s.models_cursor as int], "low"@),
        ),
        s.models_cursor < s.models.len() && s.effort_cursor == 1 ==> performed(
            s,
            ActionView::ChooseModel,
        ).1 == EffectView::Send(
            WorkerMsgView::SetModelAndEffort(s.models[s.models_cursor as int], "medium"@),
        ),
        s.models_cursor < s.models.len() && s.effort_cursor == 2 ==> performed(
            s,
            ActionView::ChooseModel,
        ).1 == EffectView::Send(
            WorkerMsgView::SetModelAndEffort(s.models[s.models_cursor as int], "high"@),
        ),
        performed(s, ActionView::ChooseProvider(id)).1 == EffectView::Send(
            WorkerMsgView::SetProvider(id),
        ),
        performed(s, ActionView::Interrupt).1 is Cancel,
        performed(s, ActionView::Interrupt).0.interrupt,
        performed(s, ActionView::Quit).1 is Quit,
{
}

/// With nothing open, a character is typed at the cursor and the keys of the line move and erase
/// there; Enter sends, or queues while an answer is under way; Esc stops the answer, or leaves.
pub proof fn law_keys_edit_line(s: AppView, c: char)
    requires
        s.form is None,
        !s.session_view,
        !s.provider_view,
        !s.models_view,
        s.popup is None,
    ensures
        keyed(s, KeyPress { code: KeyCode::Char(c), ctrl: false }).0.input == s.input.typed(
            seq![c],
        ),
        keyed(s, KeyPress { code: KeyCode::Backspace, ctrl: false }).0.input == s.input.erased(),
        keyed(s, KeyPress { code: KeyCode::Delete, ctrl: false }).0.input == s.input.deleted(),
        keyed(s, KeyPress { code: KeyCode::Left, ctrl: false }).0.input == s.input.left(),
        keyed(s, KeyPress { code: KeyCode::Right, ctrl: false }).0.input == s.input.right(),
        keyed(s, KeyPress { code: KeyCode::Home, ctrl: false }).0.input == s.input.home(),
        keyed(s, KeyPress { code: KeyCode::End, ctrl: false }).0.input == s.input.end(),
        s.input.text.len() > 0 && !s.gen_active ==> keyed(
            s,
            KeyPress { code: KeyCode::Enter, ctrl: false },
        ).1 == Some(ActionView::Submit),
        s.input.text.len() > 0 && s.gen_active ==> keyed(
            s,
            KeyPress { code: KeyCode::Enter, ctrl: false },
        ).1 == Some(ActionView::Queue),
        s.gen_active ==> keyed(s, KeyPress { code: KeyCode::Esc, ctrl: false }).1 == Some(
            ActionView::Interrupt,
        ),
        !s.gen_active ==> keyed(s, KeyPress { code: KeyCode::Esc, ctrl: false }).1 == Some(
            ActionView::Quit,
        ),
        keyed(s, KeyPress { code: KeyCode::Char('c'), ctrl: true }).1 == Some(ActionView::Quit),
        keyed(s, KeyPress { code: KeyCode::Char('a'), ctrl: true }).1 == Some(
            ActionView::ToggleMode,
        ),
        keyed(s, KeyPress { code: KeyCode::Enter, ctrl: true }).1 == Some(ActionView::Steer),
{
}

/// A change of mode is told to the worker; none is made while an answer is under way.
pub proof fn law_mode_change_is_sent(s: AppView)
    ensures
        !s.gen_active && s.mode == crate::orchestrator::AgentMode::Solo ==> performed(s, ActionView::ToggleMode).1
            == EffectView::Send(WorkerMsgView::SetMode(crate::orchestrator::AgentMode::Agents)) && performed(
            s,
            ActionView::ToggleMode,
        ).0.mode == crate::orchestrator::AgentMode::Agents,
        !s.gen_active && s.mode == crate::orchestrator::AgentMode::Agents ==> performed(s, ActionView::ToggleMode).1
            == EffectView::Send(WorkerMsgView::SetMode(crate::orchestrator::AgentMode::Solo)) && performed(
            s,
            ActionView::ToggleMode,
        ).0.mode == crate::orchestrator::AgentMode::Solo,
        s.gen_active ==> performed(s, ActionView::ToggleMode).1 is Stay && performed(
            s,
            ActionView::ToggleMode,
        ).0.mode == s.mode,
{
}

/// A pasted text goes to the field of an open form, or else to the line, on one line each.
pub proof fn law_pasted_text_goes_to_line(s: AppView, t: Seq<char>)
    requires
        s.pending_permission is None,
        t.len() > 0,
    ensures
        s.form is None && !s.session_view ==> pasted(s, t).input == s.input.typed(
            editor::on_one_line(t),
        ),
        s.form is Some && s.form->0.step != form::FormStep::Vendor ==> pasted(s, t).form == Some(
            (form::FormView { line: s.form->0.line.typed(editor::on_one_line(t)), ..s.form->0 }),
        ) && pasted(s, t).input == s.input,
{
}

} // verus!
