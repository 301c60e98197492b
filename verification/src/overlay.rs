//! The lines of the panels and overlays around the conversation.

use crate::history::{SessionView, StoredSession};
use crate::orchestrator;
use crate::orchestrator::AgentMode;
use crate::popup;
use crate::popup::{InputPopup, ItemView, PopupItem, PopupKind, PopupView};
use crate::provider_ui;
use crate::screen;
use crate::screen::{Ink, Look, SpanView, TextLine};
use crate::text;
use crate::text::same;
use crate::tools::{PermissionRequest, PermissionView};
use crate::ui;
use crate::ui::{AppState, AppView};
use vstd::prelude::*;

verus! {

/// The first line to show, so that the one under the cursor is among `height`
/// lines from there on.
pub open spec fn window_start(cursor: nat, scroll: nat, height: nat) -> nat {
    if cursor < scroll {
        cursor
    } else if cursor >= scroll + height {
        (cursor + 1 - height) as nat
    } else {
        scroll
    }
}

/// The end of the lines to show, of `len` in all.
pub open spec fn window_end(start: nat, height: nat, len: nat) -> nat {
    if start + height < len {
        start + height
    } else {
        len
    }
}

/// The first line to show, so that the one under the cursor is shown.
pub fn keep_visible(cursor: usize, scroll: usize, height: usize) -> (r: usize)
    requires
        height > 0 || cursor < usize::MAX,
    ensures
        r == window_start(cursor as nat, scroll as nat, height as nat),
{
    if cursor < scroll {
        cursor
    } else if cursor - scroll >= height {
        if height == 0 {
            cursor + 1
        } else {
            cursor - (height - 1)
        }
    } else {
        scroll
    }
}

/// The end of the lines to show.
pub fn visible_end(start: usize, height: usize, len: usize) -> (r: usize)
    ensures
        r == window_end(start as nat, height as nat, len as nat),
{
    if start < len && height < len - start {
        start + height
    } else {
        len
    }
}

/// The line under the cursor is shown.
pub proof fn law_cursor_is_visible(cursor: nat, scroll: nat, height: nat, len: nat)
    requires
        cursor < len,
        height > 0,
    ensures
        window_start(cursor, scroll, height) <= cursor < window_end(
            window_start(cursor, scroll, height),
            height,
            len,
        ),
{
}

/// The mark of a line under the cursor.
pub open spec fn pick_mark(on: bool) -> SpanView {
    screen::span(
        if on {
            "» "@
        } else {
            "  "@
        },
        screen::in_ink(
            if on {
                Ink::Accent
            } else {
                Ink::Border
            },
        ),
    )
}

/// The mode of a session, in brackets.
pub open spec fn mode_badge(mode: Seq<char>) -> SpanView {
    screen::span(
        "["@ + mode + "]"@,
        screen::in_bold(
            if mode == "solo"@ {
                Ink::TextMuted
            } else {
                Ink::Magenta
            },
        ),
    )
}

/// The beginning of a text, of at most `n` characters.
pub open spec fn head_of(s: Seq<char>, n: nat) -> Seq<char> {
    if s.len() > n {
        s.take(n as int)
    } else {
        s
    }
}

fn head(s: &str, n: usize) -> (r: String)
    ensures
        r@ == head_of(s@, n as nat),
{
    let len: usize = s.unicode_len();
    if len > n {
        let r = text::prefix(s, n);
        assert(r@ =~= s@.take(n as int));
        r
    } else {
        s.to_string()
    }
}

/// The line of a session.
pub open spec fn session_line(s: SessionView, on: bool, secs: int) -> Seq<SpanView> {
    let preview = head_of(s.preview, 48);
    if preview.len() == 0 {
        seq![
            screen::span("  "@, screen::unstyled()),
            pick_mark(on),
            mode_badge(s.mode),
            screen::span(" (sem mensagens)"@, screen::in_ink(Ink::TextMuted)),
        ]
    } else {
        seq![
            pick_mark(on),
            mode_badge(s.mode),
            screen::span(" "@, screen::unstyled()),
            screen::span(
                preview,
                Look { fg: Some(Ink::TextMain), bg: None, bold: on, italic: false },
            ),
            screen::span(
                "  "@ + text::decimal(s.messages) + " msgs · "@ + ui::ago(secs),
                screen::in_ink(Ink::TextMuted),
            ),
        ]
    }
}

fn show_session(s: &StoredSession, on: bool, secs: i64) -> (r: TextLine)
    ensures
        r@ == session_line(s@, on, secs as int),
{
    let preview = head(s.preview.as_str(), 48);
    let mark = if on {
        "» "
    } else {
        "  "
    };
    let mark_look = Look::plain(
        if on {
            Ink::Accent
        } else {
            Ink::Border
        },
    );
    let badge = text::cat3("[", s.mode.as_str(), "]");
    let badge_look = Look::strong(
        if same(s.mode.as_str(), "solo") {
            Ink::TextMuted
        } else {
            Ink::Magenta
        },
    );
    let mut line = TextLine::new();
    if preview.as_str().unicode_len() == 0 {
        line.push("  ", Look::none());
        line.push(mark, mark_look);
        line.push(badge.as_str(), badge_look);
        line.push(" (sem mensagens)", Look::plain(Ink::TextMuted));
    } else {
        let n = text::write_usize(s.messages);
        let age = ui::fmt_ago(secs);
        let note = text::cat4("  ", n.as_str(), " msgs · ", age.as_str());
        line.push(mark, mark_look);
        line.push(badge.as_str(), badge_look);
        line.push(" ", Look::none());
        line.push(
            preview.as_str(),
            Look { fg: Some(Ink::TextMain), bg: None, bold: on, italic: false },
        );
        line.push(note.as_str(), Look::plain(Ink::TextMuted));
    }
    assert(line@ =~= session_line(s@, on, secs as int));
    line
}

/// The lines of the list of sessions in a window of a height; the seconds
/// since each session are given.
pub open spec fn session_lines(s: AppView, secs: Seq<i64>, height: nat) -> Seq<Seq<SpanView>> {
    let start = window_start(s.session_cursor, s.session_scroll, height);
    let end = window_end(start, height, s.sessions.len());
    Seq::new(
        if end > start {
            (end - start) as nat
        } else {
            0
        },
        |i: int|
            session_line(
                s.sessions[start + i],
                start + i == s.session_cursor,
                secs[start + i] as int,
            ),
    )
}

impl AppState {
    /// The lines of the list of sessions; the list scrolls so that the session
    /// under the cursor is shown.
    pub fn session_overlay(&mut self, secs: &Vec<i64>, height: usize) -> (r: Vec<TextLine>)
        requires
            secs@.len() == old(self)@.sessions.len(),
            old(self)@.session_cursor < usize::MAX,
        ensures
            text::views(r@) == session_lines(old(self)@, secs@, height as nat),
            final(self)@ == (AppView {
                session_scroll: window_start(
                    old(self)@.session_cursor,
                    old(self)@.session_scroll,
                    height as nat,
                ),
                ..old(self)@
            }),
    {
        let start = keep_visible(self.session_cursor, self.session_scroll, height);
        self.session_scroll = start;
        let end = visible_end(start, height, self.sessions.len());
        let mut out: Vec<TextLine> = Vec::new();
        let mut i: usize = start;
        while i < end
            invariant
                start <= i,
                i <= end || i == start,
                end <= self.sessions.len(),
                secs.len() == self.sessions.len(),
                out.len() == i - start,
                self@.sessions == text::views(self.sessions@),
                forall|k: int|
                    0 <= k < out@.len() ==> (#[trigger] out@[k])@ == session_line(
                        self@.sessions[start + k],
                        start + k == self.session_cursor,
                        secs@[start + k] as int,
                    ),
            decreases end - i,
        {
            assert(self@.sessions[i as int] == self.sessions@[i as int]@);
            out.push(show_session(&self.sessions[i], i == self.session_cursor, secs[i]));
            i = i + 1;
        }
        assert(text::views(out@) =~= session_lines(old(self)@, secs@, height as nat));
        out
    }
}

/// The line of a model.
pub open spec fn model_line(model: Seq<char>, on: bool, current: bool) -> Seq<SpanView> {
    seq![
        screen::span(
            "  "@ + provider_ui::cursor_mark(on) + " "@ + model + " "@ + if current {
                "(atual)"@
            } else {
                ""@
            },
            if on {
                provider_ui::under_cursor()
            } else if current {
                screen::in_ink(Ink::Accent)
            } else {
                screen::in_ink(Ink::TextMain)
            },
        ),
    ]
}

/// The first model to show.
pub open spec fn models_start(s: AppView, height: nat) -> nat {
    if s.models_cursor >= s.models_scroll && height == 0 {
        s.models_scroll
    } else {
        window_start(s.models_cursor, s.models_scroll, height)
    }
}

/// The lines of the models in a window of a height.
pub open spec fn model_lines(s: AppView, height: nat) -> Seq<Seq<SpanView>> {
    let start = models_start(s, height);
    let end = window_end(start, height, s.models.len());
    Seq::new(
        if end > start {
            (end - start) as nat
        } else {
            0
        },
        |i: int|
            model_line(
                s.models[start + i],
                start + i == s.models_cursor,
                s.models[start + i] == s.models_current,
            ),
    )
}

/// The look of an effort.
pub open spec fn effort_look(on: bool) -> Look {
    if on {
        provider_ui::under_cursor()
    } else {
        screen::in_ink(Ink::TextMain)
    }
}

/// The line of efforts.
pub open spec fn effort_line(cursor: nat) -> Seq<SpanView> {
    seq![
        screen::span("  raciocinio: "@, screen::in_ink(Ink::TextMuted)),
        screen::span(" low "@, effort_look(cursor == 0)),
        screen::span(" "@, screen::unstyled()),
        screen::span(" medium "@, effort_look(cursor == 1)),
        screen::span(" "@, screen::unstyled()),
        screen::span(" high "@, effort_look(cursor == 2)),
        screen::span(" "@, screen::unstyled()),
    ]
}

/// The lines below the models.
pub open spec fn models_foot(cursor: nat) -> Seq<Seq<SpanView>> {
    seq![
        seq![screen::span(""@, screen::unstyled())],
        effort_line(cursor),
        seq![screen::span(""@, screen::unstyled())],
        seq![
            screen::span("j/k: modelo   "@, screen::in_ink(Ink::TextMuted)),
            screen::span("h/l: raciocinio   "@, screen::in_ink(Ink::TextMuted)),
            screen::span("Enter: definir"@, screen::in_bold(Ink::Accent)),
            screen::span("   q/Esc: fechar"@, screen::in_ink(Ink::TextMuted)),
        ],
    ]
}

/// The lines of the overlay of models in an area of a height.
pub open spec fn models_lines(s: AppView, height: nat) -> Seq<Seq<SpanView>> {
    if s.models.len() == 0 {
        seq![
            seq![screen::span("(carregando modelos...)"@, screen::in_ink(Ink::TextMuted))],
        ]
    } else {
        model_lines(s, list_room(height)) + models_foot(s.effort_cursor)
    }
}

/// The lines that are left for models above the rest of the overlay.
pub open spec fn list_room(height: nat) -> nat {
    if height >= 4 {
        (height - 4) as nat
    } else {
        0
    }
}

fn effort_style(on: bool) -> (r: Look)
    ensures
        r == effort_look(on),
{
    if on {
        Look { fg: Some(Ink::Black), bg: Some(Ink::Accent), bold: true, italic: false }
    } else {
        Look::plain(Ink::TextMain)
    }
}

fn show_model(model: &str, on: bool, current: bool) -> (r: TextLine)
    ensures
        r@ == model_line(model@, on, current),
{
    let mut s = text::cat5(
        "  ",
        if on {
            "»"
        } else {
            " "
        },
        " ",
        model,
        " ",
    );
    s.append(
        if current {
            "(atual)"
        } else {
            ""
        },
    );
    TextLine::one(
        s.as_str(),
        if on {
            Look { fg: Some(Ink::Black), bg: Some(Ink::Accent), bold: true, italic: false }
        } else if current {
            Look::plain(Ink::Accent)
        } else {
            Look::plain(Ink::TextMain)
        },
    )
}

fn show_models_foot(cursor: usize) -> (r: Vec<TextLine>)
    ensures
        text::views(r@) == models_foot(cursor as nat),
{
    broadcast use text::lemma_views_push;

    let mut out: Vec<TextLine> = Vec::new();
    assert(text::views(out@) =~= Seq::<Seq<SpanView>>::empty());
    out.push(TextLine::blank());
    let mut efforts = TextLine::new();
    efforts.push("  raciocinio: ", Look::plain(Ink::TextMuted));
    efforts.push(" low ", effort_style(cursor == 0));
    efforts.push(" ", Look::none());
    efforts.push(" medium ", effort_style(cursor == 1));
    efforts.push(" ", Look::none());
    efforts.push(" high ", effort_style(cursor == 2));
    efforts.push(" ", Look::none());
    assert(efforts@ =~= effort_line(cursor as nat));
    out.push(efforts);
    out.push(TextLine::blank());
    let mut hint = TextLine::three(
        "j/k: modelo   ",
        Look::plain(Ink::TextMuted),
        "h/l: raciocinio   ",
        Look::plain(Ink::TextMuted),
        "Enter: definir",
        Look::strong(Ink::Accent),
    );
    hint.push("   q/Esc: fechar", Look::plain(Ink::TextMuted));
    assert(hint@ =~= models_foot(cursor as nat)[3]);
    out.push(hint);
    out
}

impl AppState {
    /// The lines of the overlay of models; the list scrolls so that the model
    /// under the cursor is shown.
    pub fn models_overlay(&mut self, height: usize) -> (r: Vec<TextLine>)
        ensures
            text::views(r@) == models_lines(old(self)@, height as nat),
            final(self)@ == if old(self)@.models.len() == 0 {
                old(self)@
            } else {
                AppView {
                    models_scroll: models_start(old(self)@, list_room(height as nat)),
                    ..old(self)@
                }
            },
    {
        broadcast use text::lemma_views_push;

        let mut out: Vec<TextLine> = Vec::new();
        assert(text::views(out@) =~= Seq::<Seq<SpanView>>::empty());
        if self.models.len() == 0 {
            out.push(TextLine::one("(carregando modelos...)", Look::plain(Ink::TextMuted)));
            return out;
        }
        let room: usize = if height >= 4 {
            height - 4
        } else {
            0
        };
        let start: usize = if room == 0 {
            if self.models_cursor < self.models_scroll {
                self.models_cursor
            } else {
                self.models_scroll
            }
        } else {
            keep_visible(self.models_cursor, self.models_scroll, room)
        };
        self.models_scroll = start;
        let end = visible_end(start, room, self.models.len());
        let mut i: usize = start;
        while i < end
            invariant
                start <= i,
                i <= end || i == start,
                end <= self.models.len(),
                out.len() == i - start,
                self@.models == text::views(self.models@),
                self@.models_current == self.models_current@,
                forall|k: int|
                    0 <= k < out@.len() ==> (#[trigger] out@[k])@ == model_line(
                        self@.models[start + k],
                        start + k == self.models_cursor,
                        self@.models[start + k] == self@.models_current,
                    ),
            decreases end - i,
        {
            assert(self@.models[i as int] == self.models@[i as int]@);
            let current = same(self.models[i].as_str(), self.models_current.as_str());
            out.push(show_model(self.models[i].as_str(), i == self.models_cursor, current));
            i = i + 1;
        }
        assert(text::views(out@) =~= model_lines(old(self)@, room as nat));
        let foot = show_models_foot(self.effort_cursor);
        provider_ui::extend(&mut out, foot);
        out
    }
}

/// A heading of the panel.
pub open spec fn heading(t: Seq<char>) -> Seq<SpanView> {
    seq![screen::span(t, screen::in_bold(Ink::TextMain))]
}

/// A muted line of the panel.
pub open spec fn muted(t: Seq<char>) -> Seq<SpanView> {
    seq![screen::span(t, screen::in_ink(Ink::TextMuted))]
}

/// A line without text.
pub open spec fn gap() -> Seq<SpanView> {
    seq![screen::span(""@, screen::unstyled())]
}

/// The lines of the panel down to the team. The share of the context that is
/// used comes as text, with whether it is high.
pub open spec fn panel_head(s: AppView, team: nat, pct: Seq<char>, high: bool) -> Seq<
    Seq<SpanView>,
> {
    seq![
        heading(popup::base_name(s.session.model)),
        muted("status: "@ + s.status),
        gap(),
        heading("Modo"@),
        seq![
            screen::span(
                orchestrator::mode_label(s.mode) + " (Ctrl+A)"@,
                screen::in_ink(
                    if s.mode == AgentMode::Agents {
                        Ink::Magenta
                    } else {
                        Ink::TextMuted
                    },
                ),
            ),
        ],
        muted(text::decimal(team) + " subagente(s)"@),
        gap(),
        heading("Context"@),
        muted(
            text::decimal(s.session.ctx_used) + " / "@ + text::decimal(s.session.ctx_max)
                + " tokens"@,
        ),
        seq![
            screen::span(
                pct + "% used"@,
                screen::in_ink(
                    if high {
                        Ink::Red
                    } else {
                        Ink::Accent
                    },
                ),
            ),
        ],
        gap(),
        heading("Speed"@),
        muted(
            match s.session.rate {
                Some(r) => r + " tok/s"@,
                None => "—"@,
            },
        ),
        gap(),
        heading("Tools"@),
        seq![
            screen::span(
                if s.session.tools_enabled {
                    "enabled"@
                } else {
                    "disabled"@
                },
                screen::in_ink(
                    if s.session.tools_enabled {
                        Ink::Green
                    } else {
                        Ink::TextMuted
                    },
                ),
            ),
        ],
        gap(),
        heading("Equipe"@),
    ]
}

/// The name of the root in the panel.
pub open spec fn root_label(mode: AgentMode) -> Seq<char> {
    if mode == AgentMode::Agents {
        "maestro"@
    } else {
        "drill (solo)"@
    }
}

/// The mark and the name of an agent, which is at work or not.
pub open spec fn agent_spans(name: Seq<char>, active: bool) -> Seq<SpanView> {
    seq![
        screen::span(
            if active {
                "● "@
            } else {
                "  "@
            },
            screen::in_bold(
                if active {
                    Ink::Cyan
                } else {
                    Ink::Border
                },
            ),
        ),
        screen::span(
            name,
            Look {
                fg: Some(
                    if active {
                        Ink::Accent
                    } else {
                        Ink::TextMuted
                    },
                ),
                bg: None,
                bold: active,
                italic: false,
            },
        ),
    ]
}

/// The line of a subagent.
pub open spec fn member_line(name: Seq<char>, active: bool) -> Seq<SpanView> {
    agent_spans(name, active).push(
        if active {
            screen::span(
                " (trabalhando)"@,
                Look { fg: Some(Ink::Cyan), bg: None, bold: false, italic: true },
            )
        } else {
            screen::span(""@, screen::unstyled())
        },
    )
}

/// The lines of the team.
pub open spec fn team_lines(team: Seq<Seq<char>>, working: Option<Seq<char>>) -> Seq<
    Seq<SpanView>,
> {
    if team.len() == 0 {
        seq![muted("(nenhum subagente)"@)]
    } else {
        team.map_values(|name: Seq<char>| member_line(name, working == Some(name)))
    }
}

/// The line of a text that waits.
pub open spec fn waiting_line(i: int, t: Seq<char>) -> Seq<SpanView> {
    muted(text::decimal((i + 1) as nat) + ". "@ + head_of(t, 18) + "..."@)
}

/// The lines of the first texts that wait.
pub open spec fn queue_lines(queue: Seq<Seq<char>>) -> Seq<Seq<SpanView>> {
    if queue.len() == 0 {
        Seq::empty()
    } else {
        seq![gap(), heading("Queue ("@ + text::decimal(queue.len()) + ")"@)] + Seq::new(
            if queue.len() < 3 {
                queue.len()
            } else {
                3
            },
            |i: int| waiting_line(i, queue[i]),
        )
    }
}

/// The lines of the panel.
pub open spec fn panel_lines(s: AppView, team: Seq<Seq<char>>, pct: Seq<char>, high: bool) -> Seq<
    Seq<SpanView>,
> {
    panel_head(s, team.len(), pct, high).push(
        agent_spans(root_label(s.mode), s.working_agent == Some(root_label(s.mode))),
    ) + team_lines(team, s.working_agent) + queue_lines(s.queue)
}

fn head_line(t: &str) -> (r: TextLine)
    ensures
        r@ == heading(t@),
{
    TextLine::one(t, Look::strong(Ink::TextMain))
}

fn muted_line(t: &str) -> (r: TextLine)
    ensures
        r@ == muted(t@),
{
    TextLine::one(t, Look::plain(Ink::TextMuted))
}

/// The name behind the last slash of a path.
pub fn short_name(path: &str) -> (r: String)
    ensures
        r@ == popup::base_name(path@),
{
    let n: usize = path.unicode_len();
    match text::rfind(path, '/') {
        Some(i) => {
            assert(i < n);
            let r = text::suffix(path, i + 1);
            assert(r@ =~= path@.skip(i + 1));
            r
        },
        None => path.to_string(),
    }
}

fn show_agent(name: &str, active: bool) -> (r: TextLine)
    ensures
        r@ == agent_spans(name@, active),
{
    TextLine::two(
        if active {
            "● "
        } else {
            "  "
        },
        Look::strong(
            if active {
                Ink::Cyan
            } else {
                Ink::Border
            },
        ),
        name,
        Look {
            fg: Some(
                if active {
                    Ink::Accent
                } else {
                    Ink::TextMuted
                },
            ),
            bg: None,
            bold: active,
            italic: false,
        },
    )
}

fn show_member(name: &str, active: bool) -> (r: TextLine)
    ensures
        r@ == member_line(name@, active),
{
    let mut line = show_agent(name, active);
    if active {
        line.push(
            " (trabalhando)",
            Look { fg: Some(Ink::Cyan), bg: None, bold: false, italic: true },
        );
    } else {
        line.push("", Look::none());
    }
    line
}

fn is_working(working: &Option<String>, name: &str) -> (r: bool)
    ensures
        r == (text::opt_view(*working) == Some(name@)),
{
    match working {
        Some(w) => same(w.as_str(), name),
        None => false,
    }
}

fn show_team(team: &Vec<String>, working: &Option<String>) -> (r: Vec<TextLine>)
    ensures
        text::views(r@) == team_lines(text::views(team@), text::opt_view(*working)),
{
    let ghost all = text::views(team@);
    let ghost who = text::opt_view(*working);
    let mut out: Vec<TextLine> = Vec::new();
    if team.len() == 0 {
        out.push(muted_line("(nenhum subagente)"));
        assert(text::views(out@) =~= team_lines(all, who));
        return out;
    }
    let mut i: usize = 0;
    while i < team.len()
        invariant
            i <= team.len(),
            all == text::views(team@),
            who == text::opt_view(*working),
            out.len() == i,
            forall|k: int|
                0 <= k < i ==> (#[trigger] out@[k])@ == member_line(all[k], who == Some(all[k])),
        decreases team.len() - i,
    {
        let name = team[i].as_str();
        assert(all[i as int] == name@);
        out.push(show_member(name, is_working(working, name)));
        i = i + 1;
    }
    assert(text::views(out@) =~= team_lines(all, who));
    out
}

fn show_queue(queue: &Vec<String>) -> (r: Vec<TextLine>)
    ensures
        text::views(r@) == queue_lines(text::views(queue@)),
{
    broadcast use text::lemma_views_push;

    let ghost all = text::views(queue@);
    let mut out: Vec<TextLine> = Vec::new();
    assert(text::views(out@) =~= Seq::<Seq<SpanView>>::empty());
    let n: usize = queue.len();
    if n == 0 {
        return out;
    }
    out.push(TextLine::blank());
    let count = text::write_usize(n);
    let title = text::cat3("Queue (", count.as_str(), ")");
    out.push(head_line(title.as_str()));
    let shown: usize = if n < 3 {
        n
    } else {
        3
    };
    let ghost top = text::views(out@);
    let mut i: usize = 0;
    while i < shown
        invariant
            i <= shown <= n,
            shown <= 3,
            n == queue.len(),
            all == text::views(queue@),
            top.len() == 2,
            out.len() == 2 + i,
            forall|k: int| 0 <= k < 2 ==> (#[trigger] out@[k])@ == top[k],
            forall|k: int|
                2 <= k < 2 + i ==> (#[trigger] out@[k])@ == waiting_line(k - 2, all[k - 2]),
        decreases shown - i,
    {
        assert(all[i as int] == queue@[i as int]@);
        let number = text::write_usize(i + 1);
        let preview = head(queue[i].as_str(), 18);
        let line = text::cat4(number.as_str(), ". ", preview.as_str(), "...");
        out.push(muted_line(line.as_str()));
        i = i + 1;
    }
    assert(text::views(out@) =~= queue_lines(all));
    out
}

impl AppState {
    fn panel_top(&self, team: usize, pct: &str, high: bool) -> (r: Vec<TextLine>)
        ensures
            text::views(r@) == panel_head(self@, team as nat, pct@, high),
    {
        broadcast use text::lemma_views_push;

        let mut out: Vec<TextLine> = Vec::new();
        assert(text::views(out@) =~= Seq::<Seq<SpanView>>::empty());
        let model = short_name(self.session.model.as_str());
        out.push(head_line(model.as_str()));
        let status = text::cat2("status: ", self.status.as_str());
        out.push(muted_line(status.as_str()));
        out.push(TextLine::blank());
        out.push(head_line("Modo"));
        let mode = text::cat2(self.mode.label(), " (Ctrl+A)");
        out.push(
            TextLine::one(
                mode.as_str(),
                Look::plain(
                    if self.mode == AgentMode::Agents {
                        Ink::Magenta
                    } else {
                        Ink::TextMuted
                    },
                ),
            ),
        );
        let members = text::write_usize(team);
        let members = text::cat2(members.as_str(), " subagente(s)");
        out.push(muted_line(members.as_str()));
        out.push(TextLine::blank());
        out.push(head_line("Context"));
        let used = text::write_usize(self.session.ctx_used);
        let max = text::write_usize(self.session.ctx_max);
        let context = text::cat4(used.as_str(), " / ", max.as_str(), " tokens");
        out.push(muted_line(context.as_str()));
        let share = text::cat2(pct, "% used");
        out.push(
            TextLine::one(
                share.as_str(),
                Look::plain(
                    if high {
                        Ink::Red
                    } else {
                        Ink::Accent
                    },
                ),
            ),
        );
        out.push(TextLine::blank());
        out.push(head_line("Speed"));
        let rate = match &self.session.rate {
            Some(r) => text::cat2(r.as_str(), " tok/s"),
            None => "—".to_string(),
        };
        out.push(muted_line(rate.as_str()));
        out.push(TextLine::blank());
        out.push(head_line("Tools"));
        let on = self.session.tools_enabled;
        out.push(
            TextLine::one(
                if on {
                    "enabled"
                } else {
                    "disabled"
                },
                Look::plain(
                    if on {
                        Ink::Green
                    } else {
                        Ink::TextMuted
                    },
                ),
            ),
        );
        out.push(TextLine::blank());
        out.push(head_line("Equipe"));
        out
    }

    /// The lines of the panel beside the conversation.
    pub fn right_panel(&self, team: &Vec<String>, pct: &str, high: bool) -> (r: Vec<TextLine>)
        ensures
            text::views(r@) == panel_lines(self@, text::views(team@), pct@, high),
    {
        broadcast use text::lemma_views_push;

        let mut out = self.panel_top(team.len(), pct, high);
        let label = if self.mode == AgentMode::Agents {
            "maestro"
        } else {
            "drill (solo)"
        };
        out.push(show_agent(label, is_working(&self.working_agent, label)));
        let members = show_team(team, &self.working_agent);
        provider_ui::extend(&mut out, members);
        let waiting = show_queue(&self.queue);
        provider_ui::extend(&mut out, waiting);
        out
    }
}

/// The title over the conversation.
pub open spec fn title_of(s: AppView) -> SpanView {
    if s.gen_active {
        screen::span(
            " ● "@ + (match s.working_agent {
                Some(w) => w,
                None => "gerando..."@,
            }) + " "@,
            screen::in_bold(Ink::Cyan),
        )
    } else {
        screen::span(" Chat "@, screen::in_ink(Ink::TextMuted))
    }
}

/// The line that is typed, or what stands there while it is empty.
pub open spec fn input_line_of(s: AppView) -> Seq<SpanView> {
    if s.input.text.len() == 0 {
        muted(" Digite sua mensagem...  ( / comandos   @ arquivos )"@)
    } else {
        seq![screen::span(" "@ + s.input.text, screen::in_ink(Ink::TextMain))]
    }
}

/// The first line of the conversation that is shown.
pub open spec fn top_line(s: AppView) -> nat {
    if s.scroll < s.max_scroll {
        (s.max_scroll - s.scroll) as nat
    } else {
        0
    }
}

impl AppState {
    /// The title over the conversation.
    pub fn chat_title(&self) -> (r: TextLine)
        ensures
            r@ == seq![title_of(self@)],
    {
        if self.gen_active {
            let t = match &self.working_agent {
                Some(w) => text::cat3(" ● ", w.as_str(), " "),
                None => text::cat3(" ● ", "gerando...", " "),
            };
            TextLine::one(t.as_str(), Look::strong(Ink::Cyan))
        } else {
            TextLine::one(" Chat ", Look::plain(Ink::TextMuted))
        }
    }

    /// The line that is typed.
    pub fn input_line(&self) -> (r: TextLine)
        ensures
            r@ == input_line_of(self@),
    {
        if self.input.is_empty() {
            TextLine::one(
                " Digite sua mensagem...  ( / comandos   @ arquivos )",
                Look::plain(Ink::TextMuted),
            )
        } else {
            let t = text::cat2(" ", self.input.text.as_str());
            TextLine::one(t.as_str(), Look::plain(Ink::TextMain))
        }
    }

    /// The first line of the conversation that is shown.
    pub fn top(&self) -> (r: usize)
        ensures
            r == top_line(self@),
    {
        if self.scroll < self.max_scroll {
            self.max_scroll - self.scroll
        } else {
            0
        }
    }
}

/// The title of the menu.
pub fn popup_title(kind: PopupKind) -> (r: &'static str)
    ensures
        r@ == match kind {
            PopupKind::Slash => " comandos "@,
            PopupKind::Mention => " arquivos "@,
        },
{
    match kind {
        PopupKind::Slash => " comandos ",
        PopupKind::Mention => " arquivos ",
    }
}

/// How many entries of a menu are shown.
pub open spec fn menu_height(len: nat) -> nat {
    if len < 8 {
        len
    } else {
        8
    }
}

/// The first entry of a menu that is shown.
pub open spec fn menu_start(selected: nat, len: nat) -> nat {
    let shown = menu_height(len);
    let back = if shown > 0 {
        (shown - 1) as nat
    } else {
        0
    };
    let from = if selected > back {
        (selected - back) as nat
    } else {
        0
    };
    if from < len - shown {
        from
    } else {
        (len - shown) as nat
    }
}

/// The line of an entry of a menu.
pub open spec fn menu_line(e: ItemView, on: bool) -> Seq<SpanView> {
    let bg = if on {
        Ink::PopupSelectedBg
    } else {
        Ink::PopupBg
    };
    let base = seq![
        screen::span(
            if on {
                "» "@
            } else {
                "  "@
            },
            Look {
                fg: Some(
                    if on {
                        Ink::Accent
                    } else {
                        Ink::Border
                    },
                ),
                bg: Some(bg),
                bold: false,
                italic: false,
            },
        ),
        screen::span(
            e.label,
            Look { fg: Some(Ink::TextMain), bg: Some(bg), bold: on, italic: false },
        ),
    ];
    if e.detail.len() > 0 {
        base.push(
            screen::span(
                "  "@ + e.detail,
                Look { fg: Some(Ink::TextMuted), bg: Some(bg), bold: false, italic: false },
            ),
        )
    } else {
        base
    }
}

/// The lines of a menu.
pub open spec fn menu_lines(p: PopupView) -> Seq<Seq<SpanView>> {
    let start = menu_start(p.selected, p.items.len());
    Seq::new(
        menu_height(p.items.len()),
        |i: int| menu_line(p.items[start + i], start + i == p.selected),
    )
}

fn show_item(e: &PopupItem, on: bool) -> (r: TextLine)
    ensures
        r@ == menu_line(e@, on),
{
    let bg = if on {
        Ink::PopupSelectedBg
    } else {
        Ink::PopupBg
    };
    let mut line = TextLine::two(
        if on {
            "» "
        } else {
            "  "
        },
        Look {
            fg: Some(
                if on {
                    Ink::Accent
                } else {
                    Ink::Border
                },
            ),
            bg: Some(bg),
            bold: false,
            italic: false,
        },
        e.label.as_str(),
        Look { fg: Some(Ink::TextMain), bg: Some(bg), bold: on, italic: false },
    );
    if e.detail.as_str().unicode_len() > 0 {
        let detail = text::cat2("  ", e.detail.as_str());
        line.push(
            detail.as_str(),
            Look { fg: Some(Ink::TextMuted), bg: Some(bg), bold: false, italic: false },
        );
    }
    line
}

/// The lines of a menu, around the selected entry.
pub fn popup_lines(p: &InputPopup) -> (r: Vec<TextLine>)
    ensures
        text::views(r@) == menu_lines(p@),
{
    let len: usize = p.items.len();
    let shown: usize = if len < 8 {
        len
    } else {
        8
    };
    let back: usize = if shown > 0 {
        shown - 1
    } else {
        0
    };
    let from: usize = if p.selected > back {
        p.selected - back
    } else {
        0
    };
    let start: usize = if from < len - shown {
        from
    } else {
        len - shown
    };
    let mut out: Vec<TextLine> = Vec::new();
    let mut i: usize = 0;
    while i < shown
        invariant
            i <= shown,
            start + shown <= len,
            len == p.items.len(),
            out.len() == i,
            forall|k: int|
                0 <= k < i ==> (#[trigger] out@[k])@ == menu_line(
                    p@.items[start + k],
                    start + k == p.selected,
                ),
        decreases shown - i,
    {
        assert(p@.items[start + i] == p.items@[start + i]@);
        out.push(show_item(&p.items[start + i], start + i == p.selected));
        i = i + 1;
    }
    assert(text::views(out@) =~= menu_lines(p@));
    out
}

/// The selected entry of a menu is shown.
pub proof fn law_selection_is_visible(selected: nat, len: nat)
    requires
        selected < len,
    ensures
        menu_start(selected, len) <= selected < menu_start(selected, len) + menu_height(len),
{
}

/// The lines of a request for permission in an area of a width.
pub open spec fn request_lines(q: PermissionView, width: nat) -> Seq<Seq<SpanView>> {
    seq![
        heading("o agente quer executar: "@ + q.tool),
        gap(),
        muted(head_of(q.detail, width * 3)),
        gap(),
        seq![
            screen::span("y"@, screen::in_bold(Ink::Green)),
            screen::span(" / Enter: permitir    "@, screen::in_ink(Ink::TextMuted)),
            screen::span("n"@, screen::in_bold(Ink::Red)),
            screen::span(" / Esc: negar"@, screen::in_ink(Ink::TextMuted)),
        ],
    ]
}

/// The lines of a request for permission.
pub fn permission_lines(q: &PermissionRequest, width: u16) -> (r: Vec<TextLine>)
    ensures
        text::views(r@) == request_lines(q@, width as nat),
{
    broadcast use text::lemma_views_push;

    let mut out: Vec<TextLine> = Vec::new();
    assert(text::views(out@) =~= Seq::<Seq<SpanView>>::empty());
    let t = text::cat2("o agente quer executar: ", q.tool.as_str());
    out.push(head_line(t.as_str()));
    out.push(TextLine::blank());
    let n: usize = width as usize * 3;
    let detail = head(q.detail.as_str(), n);
    out.push(muted_line(detail.as_str()));
    out.push(TextLine::blank());
    let mut hint = TextLine::three(
        "y",
        Look::strong(Ink::Green),
        " / Enter: permitir    ",
        Look::plain(Ink::TextMuted),
        "n",
        Look::strong(Ink::Red),
    );
    hint.push(" / Esc: negar", Look::plain(Ink::TextMuted));
    assert(hint@ =~= request_lines(q@, width as nat)[4]);
    out.push(hint);
    out
}

/// A field of the settings that is being typed.
#[derive(Debug, PartialEq)]
pub enum ConfigModal {
    Nothing,
    OpenAiBaseUrl { input: String, cursor: usize },
    OpenAiApiKey { input: String, cursor: usize },
}

/// The text of a field as it is shown; a secret is shown as dots.
pub open spec fn field_text(input: Seq<char>, masked: bool) -> Seq<char> {
    if masked {
        Seq::new(input.len(), |i: int| '•')
    } else {
        input
    }
}

/// The lines of a field.
pub open spec fn field_lines(input: Seq<char>, masked: bool) -> Seq<Seq<SpanView>> {
    seq![
        gap(),
        heading("  "@ + field_text(input, masked)),
        gap(),
        seq![
            screen::span("  Enter"@, screen::in_bold(Ink::Accent)),
            screen::span(" confirma   "@, screen::in_ink(Ink::TextMuted)),
            screen::span("Esc"@, screen::in_bold(Ink::Accent)),
            screen::span(" cancela"@, screen::in_ink(Ink::TextMuted)),
        ],
    ]
}

/// The lines of a field of the settings.
pub fn config_modal_lines(input: &str, masked: bool) -> (r: Vec<TextLine>)
    ensures
        text::views(r@) == field_lines(input@, masked),
{
    broadcast use text::lemma_views_push;

    let mut out: Vec<TextLine> = Vec::new();
    assert(text::views(out@) =~= Seq::<Seq<SpanView>>::empty());
    out.push(TextLine::blank());
    let shown = if masked {
        let n: usize = input.unicode_len();
        let mut dots = String::new();
        let mut i: usize = 0;
        assert(dots@ =~= field_text(input@.take(0), true));
        while i < n
            invariant
                i <= n,
                n == input@.len(),
                dots@ == Seq::new(i as nat, |k: int| '•'),
            decreases n - i,
        {
            dots.push('•');
            assert(dots@ =~= Seq::new((i + 1) as nat, |k: int| '•'));
            i = i + 1;
        }
        dots
    } else {
        input.to_string()
    };
    assert(shown@ =~= field_text(input@, masked));
    let t = text::cat2("  ", shown.as_str());
    out.push(head_line(t.as_str()));
    out.push(TextLine::blank());
    let mut hint = TextLine::three(
        "  Enter",
        Look::strong(Ink::Accent),
        " confirma   ",
        Look::plain(Ink::TextMuted),
        "Esc",
        Look::strong(Ink::Accent),
    );
    hint.push(" cancela", Look::plain(Ink::TextMuted));
    assert(hint@ =~= field_lines(input@, masked)[3]);
    out.push(hint);
    out
}

/// A secret is shown as nothing but dots, one for each character.
pub proof fn law_secret_is_masked(input: Seq<char>)
    ensures
        field_text(input, true).len() == input.len(),
        forall|i: int| 0 <= i < input.len() ==> field_text(input, true)[i] == '•',
{
}

/// The look of a piece of the footer.
pub open spec fn footer_look(ink: Ink, bold: bool) -> Look {
    Look { fg: Some(ink), bg: Some(Ink::AppBg), bold, italic: false }
}

/// A key and what it does, in the footer.
pub open spec fn footer_key(key: Seq<char>, what: Seq<char>) -> Seq<SpanView> {
    seq![
        screen::span(key, footer_look(Ink::TextMain, true)),
        screen::span(what, footer_look(Ink::TextMuted, false)),
    ]
}

/// The bar between pieces of the footer.
pub open spec fn footer_bar() -> SpanView {
    screen::span(" │ "@, footer_look(Ink::Border, false))
}

/// The footer: where the program works, the context in thousands of tokens, and
/// the keys.
pub open spec fn footer(cwd: Seq<char>, thousands: Seq<char>) -> Seq<SpanView> {
    seq![
        screen::span(" "@ + cwd + " "@, footer_look(Ink::TextMuted, false)),
        footer_bar(),
        screen::span(thousands + "K tokens"@, footer_look(Ink::TextMuted, false)),
        footer_bar(),
    ] + footer_key("Enter "@, "send "@) + footer_key("Esc "@, "cancel/exit "@) + footer_key(
        "Ctrl+A "@,
        "maestro "@,
    ) + footer_key("Ctrl+Enter "@, "steer"@) + seq![footer_bar()] + footer_key("/ "@, "comandos "@)
        + footer_key("@ "@, "arquivos"@)
}

/// The footer.
pub fn footer_line(cwd: &str, thousands: &str) -> (r: TextLine)
    ensures
        r@ == footer(cwd@, thousands@),
{
    let plain = Look { fg: Some(Ink::TextMuted), bg: Some(Ink::AppBg), bold: false, italic: false };
    let bar = Look { fg: Some(Ink::Border), bg: Some(Ink::AppBg), bold: false, italic: false };
    let key = Look { fg: Some(Ink::TextMain), bg: Some(Ink::AppBg), bold: true, italic: false };
    let mut line = TextLine::new();
    let dir = text::cat3(" ", cwd, " ");
    line.push(dir.as_str(), plain);
    line.push(" │ ", bar);
    let tokens = text::cat2(thousands, "K tokens");
    line.push(tokens.as_str(), plain);
    line.push(" │ ", bar);
    line.push("Enter ", key);
    line.push("send ", plain);
    line.push("Esc ", key);
    line.push("cancel/exit ", plain);
    line.push("Ctrl+A ", key);
    line.push("maestro ", plain);
    line.push("Ctrl+Enter ", key);
    line.push("steer", plain);
    line.push(" │ ", bar);
    line.push("/ ", key);
    line.push("comandos ", plain);
    line.push("@ ", key);
    line.push("arquivos", plain);
    assert(line@ =~= footer(cwd@, thousands@));
    line
}

/// A place on the screen.
#[derive(Debug, Clone, Copy, PartialEq, Eq, Structural)]
pub struct Place {
    pub x: u16,
    pub y: u16,
    pub width: u16,
    pub height: u16,
}

/// Where the parts of the first screen stand in an area at the top left.
pub open spec fn welcome_box(width: int, height: int) -> (int, int, int) {
    let logo_y = if height >= 12 {
        (height - 12) / 2
    } else {
        0
    };
    let wide = if width >= 16 {
        width - 16
    } else {
        0
    };
    let box_w = if wide < 72 {
        wide
    } else {
        72
    };
    (logo_y, (width - box_w) / 2, box_w)
}

/// Where the logo, the line that is typed and the tip of the first screen
/// stand.
pub fn welcome_places(width: u16, height: u16) -> (r: (Place, Place, Place))
    ensures
        ({
            let (logo_y, box_x, box_w) = welcome_box(width as int, height as int);
            &&& (r.0).x == 0 && (r.0).y == logo_y && (r.0).width == width && (r.0).height == 3
            &&& (r.1).x == box_x && (r.1).y == logo_y + 5 && (r.1).width == box_w && (r.1).height
                == 4
            &&& (r.2).x == 0 && (r.2).y == logo_y + 11 && (r.2).width == width && (r.2).height == 1
        }),
{
    let logo_y: u16 = if height >= 12 {
        (height - 12) / 2
    } else {
        0
    };
    let wide: u16 = if width >= 16 {
        width - 16
    } else {
        0
    };
    let box_w: u16 = if wide < 72 {
        wide
    } else {
        72
    };
    let box_x: u16 = (width - box_w) / 2;
    (
        Place { x: 0, y: logo_y, width, height: 3 },
        Place { x: box_x, y: logo_y + 5, width: box_w, height: 4 },
        Place { x: 0, y: logo_y + 11, width, height: 1 },
    )
}

/// The lines of the line that is typed on the first screen.
pub open spec fn welcome_input(s: AppView) -> Seq<Seq<SpanView>> {
    seq![
        if s.input.text.len() == 0 {
            muted(" Digite sua mensagem..."@)
        } else {
            seq![screen::span(" "@ + s.input.text, screen::in_ink(Ink::TextMain))]
        },
        seq![
            screen::span(" "@, screen::unstyled()),
            screen::span(orchestrator::mode_label(s.mode), screen::in_ink(Ink::Accent)),
            screen::span(" · "@, screen::in_ink(Ink::Border)),
            screen::span(popup::base_name(s.session.model), screen::in_ink(Ink::TextMuted)),
            screen::span("    "@, screen::unstyled()),
            screen::span("/"@, screen::in_bold(Ink::TextMain)),
            screen::span(" comandos  "@, screen::in_ink(Ink::TextMuted)),
            screen::span("@"@, screen::in_bold(Ink::TextMain)),
            screen::span(" arquivos  "@, screen::in_ink(Ink::TextMuted)),
            screen::span("Ctrl+A"@, screen::in_bold(Ink::TextMain)),
            screen::span(" maestro"@, screen::in_ink(Ink::TextMuted)),
        ],
    ]
}

impl AppState {
    /// The lines of the line that is typed on the first screen.
    pub fn welcome_lines(&self) -> (r: Vec<TextLine>)
        ensures
            text::views(r@) == welcome_input(self@),
    {
        broadcast use text::lemma_views_push;

        let mut out: Vec<TextLine> = Vec::new();
        assert(text::views(out@) =~= Seq::<Seq<SpanView>>::empty());
        if self.input.is_empty() {
            out.push(muted_line(" Digite sua mensagem..."));
        } else {
            let t = text::cat2(" ", self.input.text.as_str());
            out.push(TextLine::one(t.as_str(), Look::plain(Ink::TextMain)));
        }
        let model = short_name(self.session.model.as_str());
        let mut line = TextLine::new();
        line.push(" ", Look::none());
        line.push(self.mode.label(), Look::plain(Ink::Accent));
        line.push(" · ", Look::plain(Ink::Border));
        line.push(model.as_str(), Look::plain(Ink::TextMuted));
        line.push("    ", Look::none());
        line.push("/", Look::strong(Ink::TextMain));
        line.push(" comandos  ", Look::plain(Ink::TextMuted));
        line.push("@", Look::strong(Ink::TextMain));
        line.push(" arquivos  ", Look::plain(Ink::TextMuted));
        line.push("Ctrl+A", Look::strong(Ink::TextMain));
        line.push(" maestro", Look::plain(Ink::TextMuted));
        assert(line@ =~= welcome_input(self@)[1]);
        out.push(line);
        out
    }
}

/// The lines of the logo.
pub open spec fn logo() -> Seq<Seq<SpanView>> {
    seq![heading("d r i l l"@), gap(), muted("agente de código no terminal"@)]
}

/// The lines of the logo.
pub fn logo_lines() -> (r: Vec<TextLine>)
    ensures
        text::views(r@) == logo(),
{
    broadcast use text::lemma_views_push;

    let mut out: Vec<TextLine> = Vec::new();
    assert(text::views(out@) =~= Seq::<Seq<SpanView>>::empty());
    out.push(head_line("d r i l l"));
    out.push(TextLine::blank());
    out.push(muted_line("agente de código no terminal"));
    out
}

/// The tip on the first screen.
pub fn tip_line() -> (r: TextLine)
    ensures
        r@ == seq![
            screen::span("tip  "@, screen::in_ink(Ink::Yellow)),
            screen::span("/provider"@, screen::in_bold(Ink::Accent)),
            screen::span("  escolhe local ou API"@, screen::in_ink(Ink::TextMuted)),
        ],
{
    TextLine::three(
        "tip  ",
        Look::plain(Ink::Yellow),
        "/provider",
        Look::strong(Ink::Accent),
        "  escolhe local ou API",
        Look::plain(Ink::TextMuted),
    )
}

/// A session is listed with its mode, its last question, how many messages it has and how long ago
/// it was; a mark stands on the one under the cursor and on no other.
pub proof fn law_session_is_listed(s: SessionView, on: bool, secs: int)
    requires
        0 < s.preview.len() <= 48,
    ensures
        screen::plain_text(session_line(s, on, secs)) == (if on {
            "» "@
        } else {
            "  "@
        }) + "["@ + s.mode + "] "@ + s.preview + "  "@ + text::decimal(s.messages) + " msgs · "@
            + ui::ago(secs),
{
    let l = session_line(s, on, secs);
    reveal_with_fuel(screen::plain_text, 6);
    reveal_strlit("] ");
    reveal_strlit("]");
    reveal_strlit(" ");
    assert(l.drop_last().drop_last().drop_last().drop_last().last() == l[0]);
    assert("] "@ =~= "]"@ + " "@);
    assert(screen::plain_text(l) =~= (if on {
        "» "@
    } else {
        "  "@
    }) + "["@ + s.mode + "] "@ + s.preview + "  "@ + text::decimal(s.messages) + " msgs · "@
        + ui::ago(secs));
}

/// The session under the cursor is on the screen, and of those shown it alone is marked; each line
/// is of the session in its place.
pub proof fn law_chosen_session_is_shown(s: AppView, secs: Seq<i64>, height: nat)
    requires
        s.session_cursor < s.sessions.len(),
        height > 0,
    ensures
        ({
            let shown = session_lines(s, secs, height);
            exists|from: int|
                #![trigger s.sessions[from]]
                0 <= from <= s.session_cursor < from + shown.len() && from + shown.len()
                    <= s.sessions.len() && forall|i: int|
                    #![trigger shown[i]]
                    0 <= i < shown.len() ==> shown[i] == session_line(
                        s.sessions[from + i],
                        from + i == s.session_cursor,
                        secs[from + i] as int,
                    )
        }),
{
    let start = window_start(s.session_cursor, s.session_scroll, height);
    law_cursor_is_visible(s.session_cursor, s.session_scroll, height, s.sessions.len());
    let shown = session_lines(s, secs, height);
    let first = s.sessions[start as int];
    assert forall|i: int|
        #![trigger shown[i]]
        0 <= i < shown.len() implies shown[i] == session_line(
        s.sessions[start + i],
        start + i == s.session_cursor,
        secs[start + i] as int,
    ) by {}
}

/// A model is listed by its name; the one in use says so, and the one under the cursor is marked.
pub proof fn law_model_is_listed(model: Seq<char>)
    ensures
        screen::plain_text(model_line(model, false, false)) == "    "@ + model + " "@,
        screen::plain_text(model_line(model, true, false)) == "  » "@ + model + " "@,
        screen::plain_text(model_line(model, false, true)) == "    "@ + model + " (atual)"@,
        screen::plain_text(model_line(model, true, true)) == "  » "@ + model + " (atual)"@,
        model_line(model, true, false)[0].look.bg == Some(Ink::Accent),
        model_line(model, false, false)[0].look.bg is None,
{
    reveal_with_fuel(screen::plain_text, 2);
    reveal_strlit("    ");
    reveal_strlit("  ");
    reveal_strlit(" ");
    reveal_strlit("");
    reveal_strlit("»");
    reveal_strlit("  » ");
    reveal_strlit("(atual)");
    reveal_strlit(" (atual)");
    assert(screen::plain_text(model_line(model, false, false)) =~= "    "@ + model + " "@);
    assert(screen::plain_text(model_line(model, true, false)) =~= "  » "@ + model + " "@);
    assert(screen::plain_text(model_line(model, false, true)) =~= "    "@ + model + " (atual)"@);
    assert(screen::plain_text(model_line(model, true, true)) =~= "  » "@ + model + " (atual)"@);
}

/// The model under the cursor is on the screen, each line is of the model in its place, and the
/// three efforts stand below with the chosen one lit.
pub proof fn law_chosen_model_is_shown(s: AppView, height: nat)
    requires
        s.models_cursor < s.models.len(),
        height > 4,
    ensures
        ({
            let shown = models_lines(s, height);
            let n = shown.len() - 4;
            &&& exists|from: int|
                #![trigger s.models[from]]
                0 <= from <= s.models_cursor < from + n && from + n <= s.models.len()
                    && forall|i: int|
                    #![trigger shown[i]]
                    0 <= i < n ==> shown[i] == model_line(
                        s.models[from + i],
                        from + i == s.models_cursor,
                        s.models[from + i] == s.models_current,
                    )
            &&& n <= height - 4
            &&& shown[n + 1][1].text == " low "@
            &&& shown[n + 1][3].text == " medium "@
            &&& shown[n + 1][5].text == " high "@
            &&& s.effort_cursor < 3 ==> shown[n + 1][(1 + 2 * s.effort_cursor) as int].look.bg == Some(
                Ink::Accent,
            )
        }),
{
    let room = list_room(height);
    let start = models_start(s, room);
    law_cursor_is_visible(s.models_cursor, s.models_scroll, room, s.models.len());
    let shown = models_lines(s, height);
    let list = model_lines(s, room);
    let first = s.models[start as int];
    assert(shown == list + models_foot(s.effort_cursor));
    assert forall|i: int|
        #![trigger shown[i]]
        0 <= i < list.len() implies shown[i] == model_line(
        s.models[start + i],
        start + i == s.models_cursor,
        s.models[start + i] == s.models_current,
    ) by {
        assert(shown[i] == list[i]);
    }
    assert(shown[(list.len() + 1) as int] == models_foot(s.effort_cursor)[1]);
}

/// The panel tells the model, the state, the mode, how many agents there are, how much of the context
/// is used, how fast the model is and whether tools are on.
pub proof fn law_panel_tells_figures(s: AppView, team: nat, pct: Seq<char>, high: bool)
    ensures
        ({
            let p = panel_head(s, team, pct, high);
            &&& p[0][0].text == popup::base_name(s.session.model)
            &&& p[1][0].text == "status: "@ + s.status
            &&& p[4][0].text == orchestrator::mode_label(s.mode) + " (Ctrl+A)"@
            &&& p[5][0].text == text::decimal(team) + " subagente(s)"@
            &&& p[8][0].text == text::decimal(s.session.ctx_used) + " / "@ + text::decimal(
                s.session.ctx_max,
            ) + " tokens"@
            &&& p[9][0].text == pct + "% used"@
            &&& high ==> p[9][0].look.fg == Some(Ink::Red)
            &&& !high ==> p[9][0].look.fg == Some(Ink::Accent)
            &&& s.session.rate matches Some(r) ==> p[12][0].text == r + " tok/s"@
            &&& s.session.tools_enabled ==> p[15][0].text == "enabled"@
            &&& !s.session.tools_enabled ==> p[15][0].text == "disabled"@
        }),
{
}

/// Every agent of the team has a line with its name, and the one that works says so.
pub proof fn law_team_is_listed(team: Seq<Seq<char>>, working: Option<Seq<char>>, i: int)
    requires
        0 <= i < team.len(),
    ensures
        team_lines(team, working).len() == team.len(),
        team_lines(team, working)[i][1].text == team[i],
        working == Some(team[i]) ==> team_lines(team, working)[i][0].text == "● "@ && team_lines(
            team,
            working,
        )[i][2].text == " (trabalhando)"@,
        working != Some(team[i]) ==> team_lines(team, working)[i][0].text == "  "@ && team_lines(
            team,
            working,
        )[i][2].text == ""@,
{
}

/// The panel tells how many texts wait, and shows the first three, numbered from one, in the order
/// in which they will be sent.
pub proof fn law_queue_is_listed(queue: Seq<Seq<char>>, i: int)
    requires
        0 <= i < queue.len(),
        i < 3,
        queue[i].len() <= 18,
    ensures
        queue_lines(queue)[1][0].text == "Queue ("@ + text::decimal(queue.len()) + ")"@,
        queue_lines(queue)[2 + i][0].text == text::decimal((i + 1) as nat) + ". "@ + queue[i]
            + "..."@,
        queue.len() >= 3 ==> queue_lines(queue).len() == 5,
        queue.len() < 3 ==> queue_lines(queue).len() == 2 + queue.len(),
{
}

/// A cut text is the beginning of the text, and a short one is whole.
pub proof fn law_head_is_beginning(s: Seq<char>, n: nat)
    ensures
        head_of(s, n).is_prefix_of(s),
        s.len() <= n ==> head_of(s, n) == s,
        s.len() > n ==> head_of(s, n).len() == n,
{
    if s.len() > n {
        assert(head_of(s, n).is_prefix_of(s));
    }
}

/// What is typed is shown as it is; the title names who works; the request for permission names the
/// tool and what it is about; an entry of the menu shows its name and what it does.
pub proof fn law_words_stand_on_screen(
    s: AppView,
    q: PermissionView,
    width: nat,
    e: ItemView,
    on: bool,
)
    ensures
        s.input.text.len() > 0 ==> input_line_of(s)[0].text == " "@ + s.input.text
            && welcome_input(s)[0][0].text == " "@ + s.input.text,
        s.gen_active && s.working_agent is Some ==> title_of(s).text == " ● "@
            + s.working_agent->0 + " "@,
        !s.gen_active ==> title_of(s).text == " Chat "@,
        request_lines(q, width)[0][0].text == "o agente quer executar: "@ + q.tool,
        q.detail.len() <= width * 3 ==> request_lines(q, width)[2][0].text == q.detail,
        menu_line(e, on)[1].text == e.label,
        e.detail.len() > 0 ==> menu_line(e, on)[2].text == "  "@ + e.detail,
        menu_line(e, true)[0].text == "» "@,
        menu_line(e, false)[0].text == "  "@,
{
}

/// The menu shows the entry that is selected, marked, and each line is of the entry in its place.
pub proof fn law_selected_entry_is_shown(p: PopupView)
    requires
        p.selected < p.items.len(),
    ensures
        ({
            let shown = menu_lines(p);
            exists|from: int|
                #![trigger p.items[from]]
                0 <= from <= p.selected < from + shown.len() && from + shown.len() <= p.items.len()
                    && forall|i: int|
                    #![trigger shown[i]]
                    0 <= i < shown.len() ==> shown[i] == menu_line(
                        p.items[from + i],
                        from + i == p.selected,
                    )
        }),
{
    law_selection_is_visible(p.selected, p.items.len());
    let start = menu_start(p.selected, p.items.len());
    let shown = menu_lines(p);
    let first = p.items[start as int];
    assert forall|i: int|
        #![trigger shown[i]]
        0 <= i < shown.len() implies shown[i] == menu_line(
        p.items[start + i],
        start + i == p.selected,
    ) by {}
}

/// The conversation is shown from its end, less what the user scrolled back, and never from before
/// its start.
pub proof fn law_scrolling_goes_back(s: AppView)
    ensures
        s.scroll == 0 ==> top_line(s) == s.max_scroll,
        s.scroll <= s.max_scroll ==> top_line(s) + s.scroll == s.max_scroll,
        s.scroll >= s.max_scroll ==> top_line(s) == 0,
{
}

} // verus!
