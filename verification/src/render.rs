//! The conversation as lines of the screen.

use crate::highlight;
use crate::highlight::CodeHighlighter;
use crate::provider_ui;
use crate::screen;
use crate::screen::{Ink, Look, SpanView, TextLine};
use crate::text;
use crate::ui::{AppState, AppView, Kind, UiLine, UiLineView};
use vstd::prelude::*;

verus! {

/// How many lines of the result of a tool are shown.
pub const TOOL_RESULT_MAX_LINES: usize = 60;

/// The ground, the sign and the text of a line of a difference.
pub open spec fn diff_parts(sub: Seq<char>) -> (Ink, Seq<char>, Seq<char>) {
    if text::has_prefix(sub, "+"@) {
        (Ink::DiffAddBg, "+ "@, sub.skip(1))
    } else if text::has_prefix(sub, "-"@) {
        (Ink::DiffRemoveBg, "- "@, sub.skip(1))
    } else if text::has_prefix(sub, " "@) {
        (Ink::CodeBg, "  "@, sub.skip(1))
    } else {
        (Ink::CodeBg, "  "@, sub)
    }
}

/// A line on another ground.
pub open spec fn regrounded(line: Seq<SpanView>, bg: Ink) -> Seq<SpanView> {
    line.map_values(
        |s: SpanView| screen::span(s.text, Look { bg: Some(bg), ..s.look }),
    )
}

/// The look of the sign of a line of a difference.
pub open spec fn sign_look(added: bool, bg: Ink) -> Look {
    Look {
        fg: Some(
            if added {
                Ink::Accent
            } else {
                Ink::DiffRemoveFg
            },
        ),
        bg: Some(bg),
        bold: false,
        italic: false,
    }
}

/// A line of the result of a tool under its number.
pub open spec fn diff_line(sub: Seq<char>, number: nat, width: nat) -> Seq<SpanView> {
    let (bg, sign, content) = diff_parts(sub);
    let code = highlight::filled_line(
        highlight::code_spans(highlight::painted_for(content, "rs"@)),
        0,
        Ink::CodeBg,
    );
    highlight::filled_line(
        seq![
            screen::span(
                screen::right_aligned(text::decimal(number), 4) + " "@,
                Look { fg: Some(Ink::LineNum), bg: Some(bg), bold: false, italic: false },
            ),
            screen::span(sign, sign_look(text::has_prefix(sub, "+"@), bg)),
        ] + regrounded(code, bg),
        width,
        bg,
    )
}

/// The lines of the result of a tool from index `i` on, of which `n` numbered
/// ones came before.
pub open spec fn result_lines(subs: Seq<Seq<char>>, i: int, n: nat, width: nat) -> Seq<
    Seq<SpanView>,
>
    decreases subs.len() - i,
{
    if i < 0 || i >= subs.len() {
        Seq::empty()
    } else if text::has_prefix(subs[i], "---"@) {
        seq![seq![screen::span(subs[i], screen::in_bold(Ink::TextMuted))]] + result_lines(
            subs,
            i + 1,
            n,
            width,
        )
    } else if n >= TOOL_RESULT_MAX_LINES {
        seq![
            seq![
                screen::span(
                    "  ... ("@ + text::decimal((subs.len() - i) as nat) + " linhas omitidas)"@,
                    muted_italic(),
                ),
            ],
        ]
    } else {
        seq![diff_line(subs[i], n + 1, width)] + result_lines(subs, i + 1, n + 1, width)
    }
}

/// The look of a remark.
pub open spec fn muted_italic() -> Look {
    Look { fg: Some(Ink::TextMuted), bg: None, bold: false, italic: true }
}

/// A text without the fences at its beginning.
pub open spec fn without_fences(s: Seq<char>) -> Seq<char>
    decreases s.len(),
{
    if s.len() >= 3 && text::has_prefix(s, seq!['`', '`', '`']) {
        without_fences(s.skip(3))
    } else {
        s
    }
}

/// A line that begins or ends a block of code.
pub open spec fn is_fence(sub: Seq<char>) -> bool {
    text::has_prefix(text::trimmed_start(sub), seq!['`', '`', '`'])
}

/// The language that a fence names.
pub open spec fn fence_language(sub: Seq<char>) -> Seq<char> {
    text::trimmed(without_fences(text::trimmed_start(sub)))
}

/// Whether a block of code is open, and its language.
#[verifier::ext_equal]
pub struct CodeState {
    pub open: bool,
    pub lang: Seq<char>,
}

/// The state after a line of an answer.
pub open spec fn code_after(st: CodeState, sub: Seq<char>) -> CodeState {
    if is_fence(sub) {
        CodeState {
            open: !st.open,
            lang: if !st.open && fence_language(sub).len() > 0 {
                fence_language(sub)
            } else {
                st.lang
            },
        }
    } else {
        st
    }
}

/// A line of an answer.
pub open spec fn answer_line(st: CodeState, sub: Seq<char>, width: nat) -> Seq<SpanView> {
    if is_fence(sub) {
        seq![
            screen::span(
                "───"@,
                Look {
                    fg: Some(Ink::Border),
                    bg: Some(Ink::CodeBg),
                    bold: false,
                    italic: false,
                },
            ),
        ]
    } else if st.open {
        highlight::filled_line(
            highlight::code_spans(highlight::painted_for(sub, st.lang)),
            width,
            Ink::CodeBg,
        )
    } else {
        seq![screen::span(sub, screen::in_ink(Ink::TextMain))]
    }
}

/// The lines of an answer, and the state after them.
pub open spec fn answer_lines(subs: Seq<Seq<char>>, st: CodeState, width: nat) -> (
    Seq<Seq<SpanView>>,
    CodeState,
)
    decreases subs.len(),
{
    if subs.len() == 0 {
        (Seq::empty(), st)
    } else {
        let before = answer_lines(subs.drop_last(), st, width);
        (
            before.0.push(answer_line(before.1, subs.last(), width)),
            code_after(before.1, subs.last()),
        )
    }
}

/// The lines of a train of thought.
pub open spec fn thought_lines(subs: Seq<Seq<char>>) -> Seq<Seq<SpanView>> {
    subs.map_values(|sub: Seq<char>| seq![screen::span(sub, muted_italic())])
}

/// The lines of one line of the conversation, and whether a block of code is
/// open behind it.
pub open spec fn shown_line(line: UiLineView, open: bool, width: nat) -> (
    Seq<Seq<SpanView>>,
    bool,
) {
    match line.kind {
        Kind::User => (
            seq![
                seq![
                    screen::span("> "@, screen::in_bold(Ink::Accent)),
                    screen::span(line.text, screen::in_bold(Ink::TextMain)),
                ],
            ],
            open,
        ),
        Kind::Tool => (
            seq![
                seq![
                    screen::span("← "@, screen::in_ink(Ink::Accent)),
                    screen::span(line.text, screen::in_bold(Ink::TextMain)),
                ],
            ],
            open,
        ),
        Kind::ToolResult => (result_lines(text::parts(line.text, '\n'), 0, 0, width), open),
        Kind::Reasoning => (thought_lines(text::parts(line.text, '\n')), open),
        Kind::Assistant => {
            let r = answer_lines(
                text::parts(line.text, '\n'),
                CodeState { open, lang: "rs"@ },
                width,
            );
            (r.0, r.1.open)
        },
        _ => (seq![seq![screen::span(line.text, screen::in_ink(Ink::TextMain))]], open),
    }
}

/// The lines of the conversation, and whether a block of code is open behind
/// them.
pub open spec fn shown_lines(lines: Seq<UiLineView>, width: nat) -> (Seq<Seq<SpanView>>, bool)
    decreases lines.len(),
{
    if lines.len() == 0 {
        (Seq::empty(), false)
    } else {
        let before = shown_lines(lines.drop_last(), width);
        let now = shown_line(lines.last(), before.1, width);
        (before.0 + now.0, now.1)
    }
}

/// What is left of a size without a border of one on each side.
pub open spec fn inside(n: nat) -> nat {
    if n >= 2 {
        (n - 2) as nat
    } else {
        0
    }
}

/// How far lines can be scrolled in an area of a height.
pub open spec fn scroll_room(lines: nat, height: nat) -> nat {
    let cap = if inside(height) > 0 {
        inside(height)
    } else {
        1
    };
    if lines > cap {
        (lines - cap) as nat
    } else {
        0
    }
}

fn show_diff(h: &CodeHighlighter, sub: &str, number: usize, width: usize) -> (r: TextLine)
    ensures
        r@ == diff_line(sub@, number as nat, width as nat),
{
    proof {
        reveal_strlit("+");
        reveal_strlit("-");
        reveal_strlit(" ");
    }
    let added = text::starts_with(sub, "+");
    let removed = text::starts_with(sub, "-");
    let (bg, sign) = if added {
        (Ink::DiffAddBg, "+ ")
    } else if removed {
        (Ink::DiffRemoveBg, "- ")
    } else {
        (Ink::CodeBg, "  ")
    };
    let content = if added || removed || text::starts_with(sub, " ") {
        let rest = text::suffix(sub, 1);
        assert(rest@ =~= sub@.skip(1));
        rest
    } else {
        sub.to_string()
    };
    assert(diff_parts(sub@) == (bg, sign@, content@));
    let n = text::write_usize(number);
    let mut num = screen::align_right(n.as_str(), 4);
    num.append(" ");
    let mut line = TextLine::two(
        num.as_str(),
        Look { fg: Some(Ink::LineNum), bg: Some(bg), bold: false, italic: false },
        sign,
        Look {
            fg: Some(
                if added {
                    Ink::Accent
                } else {
                    Ink::DiffRemoveFg
                },
            ),
            bg: Some(bg),
            bold: false,
            italic: false,
        },
    );
    let code = h.highlight_line(content.as_str(), "rs", 0);
    let ghost head = line@;
    let ghost rest = regrounded(code@, bg);
    let mut i: usize = 0;
    assert(head + rest.subrange(0, 0) =~= head);
    while i < code.spans.len()
        invariant
            i <= code.spans.len(),
            rest == regrounded(code@, bg),
            line@ == head + rest.subrange(0, i as int),
        decreases code.spans.len() - i,
    {
        let s = &code.spans[i];
        assert(code@[i as int] == s@);
        assert(rest[i as int] == screen::span(s.text@, Look { bg: Some(bg), ..s.look }));
        line.push(s.text.as_str(), s.look.on(bg));
        assert(head + rest.subrange(0, i + 1) =~= (head + rest.subrange(0, i as int)).push(
            rest[i as int],
        ));
        i = i + 1;
    }
    assert(rest.subrange(0, rest.len() as int) =~= rest);
    highlight::fill_line(&mut line, width, bg);
    line
}

fn show_result(h: &CodeHighlighter, t: &str, width: usize) -> (r: Vec<TextLine>)
    ensures
        text::views(r@) == result_lines(text::parts(t@, '\n'), 0, 0, width as nat),
{
    broadcast use text::lemma_views_push;

    let subs = text::split(t, '\n');
    let ghost all = text::views(subs@);
    let ghost whole = result_lines(all, 0, 0, width as nat);
    let mut out: Vec<TextLine> = Vec::new();
    let mut n: usize = 0;
    let mut i: usize = 0;
    assert(text::views(out@) =~= Seq::<Seq<SpanView>>::empty());
    assert(text::views(out@) + whole =~= whole);
    while i < subs.len()
        invariant
            i <= subs.len(),
            n <= TOOL_RESULT_MAX_LINES,
            all == text::views(subs@),
            whole == result_lines(text::parts(t@, '\n'), 0, 0, width as nat),
            whole == text::views(out@) + result_lines(all, i as int, n as nat, width as nat),
        decreases subs.len() - i,
    {
        let sub = subs[i].as_str();
        assert(all[i as int] == sub@);
        let ghost before = text::views(out@);
        let ghost after = result_lines(all, i as int, n as nat, width as nat);
        if text::starts_with(sub, "---") {
            let line = TextLine::one(sub, Look::strong(Ink::TextMuted));
            out.push(line);
            assert(before + (seq![line@] + result_lines(all, i + 1, n as nat, width as nat))
                =~= before.push(line@) + result_lines(all, i + 1, n as nat, width as nat));
        } else if n >= TOOL_RESULT_MAX_LINES {
            let left = text::write_usize(subs.len() - i);
            let note = text::cat3("  ... (", left.as_str(), " linhas omitidas)");
            let line = TextLine::one(
                note.as_str(),
                Look { fg: Some(Ink::TextMuted), bg: None, bold: false, italic: true },
            );
            out.push(line);
            assert(before + seq![line@] =~= before.push(line@));
            return out;
        } else {
            let line = show_diff(h, sub, n + 1, width);
            out.push(line);
            n = n + 1;
            assert(before + (seq![line@] + result_lines(all, i + 1, n as nat, width as nat))
                =~= before.push(line@) + result_lines(all, i + 1, n as nat, width as nat));
        }
        i = i + 1;
    }
    assert(text::views(out@) + result_lines(all, i as int, n as nat, width as nat) =~= text::views(
        out@,
    ));
    out
}

fn fence(s: &str) -> (r: bool)
    ensures
        r == text::has_prefix(s@, seq!['`', '`', '`']),
{
    proof {
        reveal_strlit("```");
        assert("```"@ =~= seq!['`', '`', '`']);
    }
    text::starts_with(s, "```")
}

fn drop_fences(s: &str) -> (r: String)
    ensures
        r@ == without_fences(s@),
{
    let mut rest = s.to_string();
    while fence(rest.as_str())
        invariant
            without_fences(s@) == without_fences(rest@),
        decreases rest@.len(),
    {
        let next = text::suffix(rest.as_str(), 3);
        assert(next@ =~= rest@.skip(3));
        rest = next;
    }
    rest
}

fn show_answer(h: &CodeHighlighter, t: &str, open: bool, width: usize) -> (r: (
    Vec<TextLine>,
    bool,
))
    ensures
        ({
            let want = answer_lines(
                text::parts(t@, '\n'),
                CodeState { open, lang: "rs"@ },
                width as nat,
            );
            text::views((r.0)@) == want.0 && r.1 == want.1.open
        }),
{
    broadcast use text::lemma_views_push;

    let subs = text::split(t, '\n');
    let ghost all = text::views(subs@);
    let ghost st = CodeState { open, lang: "rs"@ };
    let mut out: Vec<TextLine> = Vec::new();
    let mut inside_code = open;
    let mut lang = "rs".to_string();
    let mut i: usize = 0;
    assert(all.subrange(0, 0) =~= Seq::empty());
    assert(text::views(out@) =~= Seq::<Seq<SpanView>>::empty());
    while i < subs.len()
        invariant
            i <= subs.len(),
            all == text::views(subs@),
            answer_lines(all.subrange(0, i as int), st, width as nat) == (
                text::views(out@),
                CodeState { open: inside_code, lang: lang@ },
            ),
        decreases subs.len() - i,
    {
        let sub = subs[i].as_str();
        proof {
            let next = all.subrange(0, i + 1);
            assert(next.drop_last() =~= all.subrange(0, i as int));
            assert(next.last() == sub@);
        }
        let bare = text::trim_start(sub);
        if fence(bare.as_str()) {
            if !inside_code {
                let named = drop_fences(bare.as_str());
                let word = text::trim(named.as_str());
                if word.as_str().unicode_len() > 0 {
                    lang = word;
                }
            }
            inside_code = !inside_code;
            out.push(
                TextLine::one(
                    "───",
                    Look {
                        fg: Some(Ink::Border),
                        bg: Some(Ink::CodeBg),
                        bold: false,
                        italic: false,
                    },
                ),
            );
        } else if inside_code {
            out.push(h.highlight_line(sub, lang.as_str(), width));
        } else {
            out.push(TextLine::one(sub, Look::plain(Ink::TextMain)));
        }
        i = i + 1;
    }
    assert(all.subrange(0, all.len() as int) =~= all);
    (out, inside_code)
}

fn show_thought(t: &str) -> (r: Vec<TextLine>)
    ensures
        text::views(r@) == thought_lines(text::parts(t@, '\n')),
{
    let subs = text::split(t, '\n');
    let ghost all = text::views(subs@);
    let mut out: Vec<TextLine> = Vec::new();
    let mut i: usize = 0;
    while i < subs.len()
        invariant
            i <= subs.len(),
            all == text::views(subs@),
            out.len() == i,
            forall|k: int|
                0 <= k < i ==> (#[trigger] out@[k])@ == seq![screen::span(all[k], muted_italic())],
        decreases subs.len() - i,
    {
        assert(all[i as int] == subs@[i as int]@);
        out.push(
            TextLine::one(
                subs[i].as_str(),
                Look { fg: Some(Ink::TextMuted), bg: None, bold: false, italic: true },
            ),
        );
        i = i + 1;
    }
    assert(text::views(out@) =~= thought_lines(all));
    out
}

fn single(line: TextLine) -> (r: Vec<TextLine>)
    ensures
        text::views(r@) == seq![line@],
{
    let mut v: Vec<TextLine> = Vec::new();
    v.push(line);
    assert(text::views(v@) =~= seq![line@]);
    v
}

fn show_line(h: &CodeHighlighter, line: &UiLine, open: bool, width: usize) -> (r: (
    Vec<TextLine>,
    bool,
))
    ensures
        (text::views((r.0)@), r.1) == shown_line(line@, open, width as nat),
{
    let t = line.text.as_str();
    match line.kind {
        Kind::User => (
            single(
                TextLine::two("> ", Look::strong(Ink::Accent), t, Look::strong(Ink::TextMain)),
            ),
            open,
        ),
        Kind::Tool => (
            single(
                TextLine::two("← ", Look::plain(Ink::Accent), t, Look::strong(Ink::TextMain)),
            ),
            open,
        ),
        Kind::ToolResult => (show_result(h, t, width), open),
        Kind::Reasoning => (show_thought(t), open),
        Kind::Assistant => show_answer(h, t, open, width),
        _ => (single(TextLine::one(t, Look::plain(Ink::TextMain))), open),
    }
}

/// Renders the conversation.
pub fn render(h: &CodeHighlighter, lines: &Vec<UiLine>, width: usize) -> (r: Vec<TextLine>)
    ensures
        text::views(r@) == shown_lines(text::views(lines@), width as nat).0,
{
    let ghost all = text::views(lines@);
    let mut out: Vec<TextLine> = Vec::new();
    let mut open = false;
    let mut i: usize = 0;
    assert(all.subrange(0, 0) =~= Seq::empty());
    assert(text::views(out@) =~= Seq::<Seq<SpanView>>::empty());
    while i < lines.len()
        invariant
            i <= lines.len(),
            all == text::views(lines@),
            shown_lines(all.subrange(0, i as int), width as nat) == (text::views(out@), open),
        decreases lines.len() - i,
    {
        proof {
            let next = all.subrange(0, i + 1);
            assert(next.drop_last() =~= all.subrange(0, i as int));
            assert(next.last() == lines@[i as int]@);
        }
        let (more, after) = show_line(h, &lines[i], open, width);
        provider_ui::extend(&mut out, more);
        open = after;
        i = i + 1;
    }
    assert(all.subrange(0, all.len() as int) =~= all);
    out
}

/// The lines that are shown: those of before where nothing changed since.
pub open spec fn current_lines(s: AppView, width: nat) -> Seq<Seq<SpanView>> {
    if !s.render_dirty && s.render_cache.len() > 0 {
        s.render_cache
    } else {
        shown_lines(s.lines, inside(width)).0
    }
}

/// The state after the conversation was rendered.
pub open spec fn after_render(s: AppView, width: nat, height: nat) -> AppView {
    let lines = current_lines(s, width);
    let scrolled = AppView { max_scroll: scroll_room(lines.len(), height), ..s };
    if !s.render_dirty && s.render_cache.len() > 0 {
        scrolled
    } else {
        AppView { render_cache: lines, render_dirty: false, ..scrolled }
    }
}

impl AppState {
    /// Renders the conversation for an area, and works out how far it can be
    /// scrolled.
    pub fn rendered_lines(&mut self, h: &CodeHighlighter, width: u16, height: u16) -> (r: Vec<
        TextLine,
    >)
        ensures
            text::views(r@) == current_lines(old(self)@, width as nat),
            final(self)@ == after_render(old(self)@, width as nat, height as nat),
    {
        let content: usize = if height > 3 {
            (height - 2) as usize
        } else {
            1
        };
        let fresh = self.render_dirty || self.render_cache.len() == 0;
        if fresh {
            let inner: usize = if width >= 2 {
                (width - 2) as usize
            } else {
                0
            };
            self.render_cache = render(h, &self.lines, inner);
            self.render_dirty = false;
        }
        let n: usize = self.render_cache.len();
        self.max_scroll = if n > content {
            n - content
        } else {
            0
        };
        screen::copy_lines(&self.render_cache)
    }
}

/// Rendering twice in a row gives the same lines, whatever the second width.
pub proof fn law_render_is_kept(s: AppView, width: nat, height: nat, other: nat)
    requires
        current_lines(s, width).len() > 0,
    ensures
        current_lines(after_render(s, width, height), other) == current_lines(s, width),
{
}

/// The result of a tool is cut: beyond the numbered lines it shows no more
/// than the headers and one remark on what is left out.
pub proof fn law_result_is_cut(subs: Seq<Seq<char>>, width: nat)
    requires
        forall|k: int| 0 <= k < subs.len() ==> !text::has_prefix(#[trigger] subs[k], "---"@),
    ensures
        result_lines(subs, 0, 0, width).len() <= TOOL_RESULT_MAX_LINES + 1,
{
    lemma_result_len(subs, 0, 0, width);
}

proof fn lemma_result_len(subs: Seq<Seq<char>>, i: int, n: nat, width: nat)
    requires
        0 <= i,
        n <= TOOL_RESULT_MAX_LINES,
        forall|k: int| 0 <= k < subs.len() ==> !text::has_prefix(#[trigger] subs[k], "---"@),
    ensures
        result_lines(subs, i, n, width).len() <= TOOL_RESULT_MAX_LINES + 1 - n,
    decreases subs.len() - i,
{
    if i < subs.len() && n < TOOL_RESULT_MAX_LINES {
        lemma_result_len(subs, i + 1, n + 1, width);
    }
}

/// What the user said is shown as it is behind a mark; each line of an answer outside a block of
/// code is shown as it is; a fence opens or closes a block.
pub proof fn law_words_are_shown(line: UiLineView, st: CodeState, sub: Seq<char>, width: nat)
    ensures
        line.kind == Kind::User ==> shown_line(line, false, width).0.len() == 1 && shown_line(
            line,
            false,
            width,
        ).0[0][1].text == line.text && shown_line(line, false, width).0[0][0].text == "> "@,
        line.kind == Kind::Tool ==> shown_line(line, false, width).0.len() == 1 && shown_line(
            line,
            false,
            width,
        ).0[0][1].text == line.text,
        line.kind == Kind::Muted || line.kind == Kind::Failure ==> shown_line(line, false, width).0.len()
            == 1 && shown_line(line, false, width).0[0][0].text == line.text,
        !st.open && !is_fence(sub) ==> answer_line(st, sub, width).len() == 1 && answer_line(
            st,
            sub,
            width,
        )[0].text == sub,
        is_fence(sub) ==> code_after(st, sub).open == !st.open,
        !is_fence(sub) ==> code_after(st, sub) == st,
{
}

/// Each line of an answer is a line of the screen, and each line of a train of thought too, with
/// its words.
pub proof fn law_lines_are_shown_one_by_one(subs: Seq<Seq<char>>, st: CodeState, width: nat)
    ensures
        answer_lines(subs, st, width).0.len() == subs.len(),
        thought_lines(subs).len() == subs.len(),
        forall|i: int|
            #![trigger subs[i]]
            0 <= i < subs.len() ==> thought_lines(subs)[i].len() == 1 && thought_lines(
                subs,
            )[i][0].text == subs[i],
    decreases subs.len(),
{
    if subs.len() > 0 {
        law_lines_are_shown_one_by_one(subs.drop_last(), st, width);
    }
}

/// A line that was added is shown with a plus, one that was taken out with a minus, any other with
/// a blank, and its words stand behind the sign.
pub proof fn law_difference_is_signed(t: Seq<char>)
    ensures
        diff_parts(seq!['+'] + t).1 == "+ "@ && diff_parts(seq!['+'] + t).2 == t && diff_parts(
            seq!['+'] + t,
        ).0 == Ink::DiffAddBg,
        diff_parts(seq!['-'] + t).1 == "- "@ && diff_parts(seq!['-'] + t).2 == t && diff_parts(
            seq!['-'] + t,
        ).0 == Ink::DiffRemoveBg,
        diff_parts(seq![' '] + t).1 == "  "@ && diff_parts(seq![' '] + t).2 == t,
{
    reveal_strlit("+");
    reveal_strlit("-");
    reveal_strlit(" ");
    let a = seq!['+'] + t;
    let b = seq!['-'] + t;
    let c = seq![' '] + t;
    assert(a.subrange(0, 1) =~= "+"@);
    assert(b.subrange(0, 1) =~= "-"@);
    assert(c.subrange(0, 1) =~= " "@);
    assert(b.subrange(0, 1)[0] == '-' && "+"@[0] == '+');
    assert(c.subrange(0, 1)[0] == ' ' && "-"@[0] == '-');
    assert(a.skip(1) =~= t);
    assert(b.skip(1) =~= t);
    assert(c.skip(1) =~= t);
}

/// The lines of the conversation come in order, those of each behind those of the one before.
pub proof fn law_conversation_is_shown_in_order(
    lines: Seq<UiLineView>,
    line: UiLineView,
    width: nat,
)
    ensures
        shown_lines(lines.push(line), width).0 == shown_lines(lines, width).0 + shown_line(
            line,
            shown_lines(lines, width).1,
            width,
        ).0,
        shown_lines(Seq::empty(), width).0.len() == 0,
{
    assert(lines.push(line).drop_last() =~= lines);
}

} // verus!
