//! The overlay in which a provider is chosen: the two groups, and the list of
//! each. Esc goes back from a list to the groups, and closes the overlay there.

use crate::keys;
use crate::keys::KeyCode;
use crate::provider::{EntryView, ProviderEntry};
use crate::screen;
use crate::screen::{Ink, Look, SpanView, TextLine};
use crate::text;
use crate::text::same;
use vstd::prelude::*;

verus! {

/// What the overlay shows.
#[derive(Debug, Clone, Copy, PartialEq, Eq, Structural)]
pub enum ProviderNav {
    Root,
    LocalList,
    CloudList,
}

impl Default for ProviderNav {
    fn default() -> (r: ProviderNav)
        ensures
            r == ProviderNav::Root,
    {
        ProviderNav::Root
    }
}

/// The title of the overlay.
pub open spec fn nav_title(nav: ProviderNav) -> Seq<char> {
    match nav {
        ProviderNav::Root => " Providers ( /provider ) "@,
        ProviderNav::LocalList => " Providers · Local "@,
        ProviderNav::CloudList => " Providers · Cloud "@,
    }
}

impl ProviderNav {
    /// The title of the overlay.
    pub fn title(self) -> (r: &'static str)
        ensures
            r@ == nav_title(self),
    {
        match self {
            ProviderNav::Root => " Providers ( /provider ) ",
            ProviderNav::LocalList => " Providers · Local ",
            ProviderNav::CloudList => " Providers · Cloud ",
        }
    }

    /// Whether a list of providers is shown.
    pub fn is_list(self) -> (r: bool)
        ensures
            r == (self != ProviderNav::Root),
    {
        match self {
            ProviderNav::Root => false,
            ProviderNav::LocalList => true,
            ProviderNav::CloudList => true,
        }
    }
}

/// An entry belongs to a list.
pub open spec fn listed_in(e: EntryView, nav: ProviderNav) -> bool {
    match nav {
        ProviderNav::Root => false,
        ProviderNav::LocalList => !e.cloud,
        ProviderNav::CloudList => e.cloud,
    }
}

/// The entries of a list, each with its place among all.
pub open spec fn filtered(all: Seq<EntryView>, nav: ProviderNav) -> Seq<(nat, EntryView)>
    decreases all.len(),
{
    if all.len() == 0 {
        Seq::empty()
    } else {
        let before = filtered(all.drop_last(), nav);
        if listed_in(all.last(), nav) {
            before.push(((all.len() - 1) as nat, all.last()))
        } else {
            before
        }
    }
}

/// The model of entries with their places.
pub open spec fn placed(v: Seq<(usize, &ProviderEntry)>) -> Seq<(nat, EntryView)> {
    Seq::new(v.len(), |i: int| (v[i].0 as nat, v[i].1@))
}

/// The entries of a list, each with its place among all.
pub fn filtered_providers<'a>(all: &'a Vec<ProviderEntry>, nav: ProviderNav) -> (r: Vec<
    (usize, &'a ProviderEntry),
>)
    ensures
        placed(r@) == filtered(text::views(all@), nav),
{
    let ghost whole = text::views(all@);
    let mut out: Vec<(usize, &'a ProviderEntry)> = Vec::new();
    let mut i: usize = 0;
    assert(whole.subrange(0, 0) =~= Seq::empty());
    assert(placed(out@) =~= filtered(whole.subrange(0, 0), nav));
    while i < all.len()
        invariant
            i <= all.len(),
            whole == text::views(all@),
            placed(out@) == filtered(whole.subrange(0, i as int), nav),
        decreases all.len() - i,
    {
        let e = &all[i];
        let ghost before = placed(out@);
        let listed = match nav {
            ProviderNav::Root => false,
            ProviderNav::LocalList => !e.cloud,
            ProviderNav::CloudList => e.cloud,
        };
        if listed {
            out.push((i, e));
            assert(placed(out@) =~= before.push((i as nat, e@)));
        }
        proof {
            let next = whole.subrange(0, i + 1);
            assert(next.drop_last() =~= whole.subrange(0, i as int));
            assert(next.last() == e@);
        }
        i = i + 1;
    }
    assert(whole.subrange(0, whole.len() as int) =~= whole);
    out
}

/// Each provider stands in exactly one of the two lists: together they are as
/// long as all providers, and an entry of one is at its place among all.
pub proof fn law_lists_part_providers(all: Seq<EntryView>)
    ensures
        filtered(all, ProviderNav::LocalList).len() + filtered(all, ProviderNav::CloudList).len()
            == all.len(),
        forall|nav: ProviderNav, k: int|
            0 <= k < filtered(all, nav).len() ==> {
                let e = #[trigger] filtered(all, nav)[k];
                e.0 < all.len() && all[e.0 as int] == e.1 && listed_in(e.1, nav)
            },
    decreases all.len(),
{
    if all.len() > 0 {
        law_lists_part_providers(all.drop_last());
        let last = (all.len() - 1) as nat;
        assert forall|nav: ProviderNav, k: int| 0 <= k < filtered(all, nav).len() implies {
            let e = #[trigger] filtered(all, nav)[k];
            e.0 < all.len() && all[e.0 as int] == e.1 && listed_in(e.1, nav)
        } by {
            let before = filtered(all.drop_last(), nav);
            if k < before.len() {
                assert(filtered(all, nav)[k] == before[k]);
            }
        }
    }
}

/// What a key does in the overlay.
#[derive(Debug, PartialEq)]
pub enum ProviderKeyResult {
    Nothing,
    Close,
    Back,
    EnterGroup(ProviderNav),
    Choose(String),
    Add,
}

/// The model of what a key does.
#[verifier::ext_equal]
pub enum ProviderKeyView {
    Nothing,
    Close,
    Back,
    EnterGroup(ProviderNav),
    Choose(Seq<char>),
    Add,
}

impl View for ProviderKeyResult {
    type V = ProviderKeyView;

    open spec fn view(&self) -> ProviderKeyView {
        match self {
            ProviderKeyResult::Nothing => ProviderKeyView::Nothing,
            ProviderKeyResult::Close => ProviderKeyView::Close,
            ProviderKeyResult::Back => ProviderKeyView::Back,
            ProviderKeyResult::EnterGroup(n) => ProviderKeyView::EnterGroup(*n),
            ProviderKeyResult::Choose(id) => ProviderKeyView::Choose(id@),
            ProviderKeyResult::Add => ProviderKeyView::Add,
        }
    }
}

/// The last place of the cursor.
pub open spec fn last_place(nav: ProviderNav, all: Seq<EntryView>) -> int {
    if nav == ProviderNav::Root {
        1
    } else if filtered(all, nav).len() == 0 {
        0
    } else {
        filtered(all, nav).len() - 1
    }
}

/// The control key with `a`, in either case.
pub open spec fn asks_to_add(code: KeyCode, ctrl: bool) -> bool {
    ctrl && (code == KeyCode::Char('a') || code == KeyCode::Char('A'))
}

/// What a key does, and where the cursor stands then.
pub open spec fn on_key(
    code: KeyCode,
    ctrl: bool,
    nav: ProviderNav,
    cursor: nat,
    all: Seq<EntryView>,
) -> (ProviderKeyView, nat) {
    if asks_to_add(code, ctrl) {
        (
            if nav != ProviderNav::Root {
                ProviderKeyView::Add
            } else {
                ProviderKeyView::Nothing
            },
            cursor,
        )
    } else if keys::goes_up(code) {
        (
            ProviderKeyView::Nothing,
            if cursor == 0 {
                0
            } else {
                (cursor - 1) as nat
            },
        )
    } else if keys::goes_down(code) {
        (
            ProviderKeyView::Nothing,
            if cursor < last_place(nav, all) {
                cursor + 1
            } else {
                last_place(nav, all) as nat
            },
        )
    } else if code == KeyCode::Enter {
        (
            if nav == ProviderNav::Root {
                ProviderKeyView::EnterGroup(
                    if cursor == 0 {
                        ProviderNav::LocalList
                    } else {
                        ProviderNav::CloudList
                    },
                )
            } else if cursor < filtered(all, nav).len() {
                ProviderKeyView::Choose(filtered(all, nav)[cursor as int].1.id)
            } else {
                ProviderKeyView::Nothing
            },
            cursor,
        )
    } else if code == KeyCode::Esc {
        (
            if nav != ProviderNav::Root {
                ProviderKeyView::Back
            } else {
                ProviderKeyView::Close
            },
            cursor,
        )
    } else if keys::is_quit(code) {
        (ProviderKeyView::Close, cursor)
    } else {
        (ProviderKeyView::Nothing, cursor)
    }
}

/// Handles a key in the overlay.
pub fn handle_key(
    code: KeyCode,
    ctrl: bool,
    nav: ProviderNav,
    cursor: &mut usize,
    providers: &Vec<ProviderEntry>,
) -> (r: ProviderKeyResult)
    ensures
        (r@, *final(cursor) as nat) == on_key(
            code,
            ctrl,
            nav,
            *old(cursor) as nat,
            text::views(providers@),
        ),
{
    if ctrl && (code == KeyCode::Char('a') || code == KeyCode::Char('A')) {
        return if nav.is_list() {
            ProviderKeyResult::Add
        } else {
            ProviderKeyResult::Nothing
        };
    }
    if code.up() {
        if *cursor > 0 {
            *cursor = *cursor - 1;
        }
        return ProviderKeyResult::Nothing;
    }
    if code.down() {
        let max: usize = match nav {
            ProviderNav::Root => 1,
            _ => {
                let list = filtered_providers(providers, nav);
                assert(placed(list@).len() == list@.len());
                if list.len() == 0 {
                    0
                } else {
                    list.len() - 1
                }
            },
        };
        *cursor = if *cursor < max {
            *cursor + 1
        } else {
            max
        };
        return ProviderKeyResult::Nothing;
    }
    if code == KeyCode::Enter {
        return match nav {
            ProviderNav::Root => ProviderKeyResult::EnterGroup(
                if *cursor == 0 {
                    ProviderNav::LocalList
                } else {
                    ProviderNav::CloudList
                },
            ),
            _ => {
                let list = filtered_providers(providers, nav);
                assert(placed(list@).len() == list@.len());
                if *cursor < list.len() {
                    assert(placed(list@)[*cursor as int].1 == list@[*cursor as int].1@);
                    ProviderKeyResult::Choose(list[*cursor].1.id.as_str().to_string())
                } else {
                    ProviderKeyResult::Nothing
                }
            },
        };
    }
    if code == KeyCode::Esc {
        return if nav.is_list() {
            ProviderKeyResult::Back
        } else {
            ProviderKeyResult::Close
        };
    }
    if code.quit() {
        return ProviderKeyResult::Close;
    }
    ProviderKeyResult::Nothing
}

/// A key chooses only a provider of the list that is shown.
pub proof fn law_choice_is_listed(
    code: KeyCode,
    ctrl: bool,
    nav: ProviderNav,
    cursor: nat,
    all: Seq<EntryView>,
)
    requires
        on_key(code, ctrl, nav, cursor, all).0 is Choose,
    ensures
        exists|i: int|
            0 <= i < all.len() && listed_in(all[i], nav) && on_key(code, ctrl, nav, cursor, all).0
                == ProviderKeyView::Choose((#[trigger] all[i]).id),
{
    law_lists_part_providers(all);
    let e = filtered(all, nav)[cursor as int];
    assert(all[e.0 as int] == e.1);
}

/// The look of an entry under the cursor.
pub open spec fn under_cursor() -> Look {
    Look { fg: Some(Ink::Black), bg: Some(Ink::Accent), bold: true, italic: false }
}

/// The mark before an entry.
pub open spec fn cursor_mark(on: bool) -> Seq<char> {
    if on {
        "»"@
    } else {
        " "@
    }
}

/// The line of a group.
pub open spec fn group_line(label: Seq<char>, on: bool) -> Seq<SpanView> {
    seq![
        screen::span(
            "  "@ + cursor_mark(on) + " "@ + label,
            if on {
                under_cursor()
            } else {
                screen::in_ink(Ink::TextMain)
            },
        ),
    ]
}

/// The lines that show the groups.
pub open spec fn root_lines(cursor: nat) -> Seq<Seq<SpanView>> {
    seq![
        seq![
            screen::span(
                "Escolha o tipo. Subagentes sempre usam runtime local."@,
                screen::in_ink(Ink::TextMuted),
            ),
        ],
        seq![screen::span(""@, screen::unstyled())],
        group_line("Local  — modelos GGUF no disco"@, cursor == 0),
        group_line("Cloud  — OpenAI / Anthropic / Google"@, cursor == 1),
        seq![screen::span(""@, screen::unstyled())],
        seq![
            screen::span("j/k ou setas: navegar   "@, screen::in_ink(Ink::TextMuted)),
            screen::span("Enter: abrir"@, screen::in_bold(Ink::Accent)),
            screen::span("   Esc/q: fechar"@, screen::in_ink(Ink::TextMuted)),
        ],
    ]
}

/// The lines of an entry of a list.
pub open spec fn entry_lines(e: EntryView, on: bool, active: bool) -> Seq<Seq<SpanView>> {
    seq![
        seq![
            screen::span(
                "  "@ + cursor_mark(on) + " "@ + e.name + if active {
                    "  (ativo)"@
                } else {
                    ""@
                },
                if on {
                    under_cursor()
                } else if active {
                    screen::in_bold(Ink::Accent)
                } else {
                    screen::in_ink(Ink::TextMain)
                },
            ),
        ],
        seq![screen::span("      "@ + e.detail, screen::in_ink(Ink::TextMuted))],
    ]
}

/// The lines of the first entries of a list.
pub open spec fn entries_lines(
    list: Seq<(nat, EntryView)>,
    selected: Option<Seq<char>>,
    cursor: nat,
) -> Seq<Seq<SpanView>>
    decreases list.len(),
{
    if list.len() == 0 {
        Seq::empty()
    } else {
        let e = list.last().1;
        entries_lines(list.drop_last(), selected, cursor) + entry_lines(
            e,
            list.len() - 1 == cursor,
            selected == Some(e.id),
        )
    }
}

/// The lines above the entries of a list.
pub open spec fn list_head(cloud: bool, empty: bool) -> Seq<Seq<SpanView>> {
    let base = seq![
        seq![
            screen::span(
                if cloud {
                    "Providers remotos. Ctrl+A adiciona um novo."@
                } else {
                    "Modelos locais (GGUF). Ctrl+A adiciona/configura."@
                },
                screen::in_ink(Ink::TextMuted),
            ),
        ],
        seq![screen::span(""@, screen::unstyled())],
    ];
    if empty {
        base.push(
            seq![
                screen::span("  (nenhum provider neste grupo)"@, screen::in_ink(Ink::TextMuted)),
            ],
        )
    } else {
        base
    }
}

/// The lines below the entries of a list.
pub open spec fn list_foot(cloud: bool) -> Seq<Seq<SpanView>> {
    seq![
        seq![screen::span(""@, screen::unstyled())],
        seq![
            screen::span("  Ctrl+A: "@, screen::in_bold(Ink::Accent)),
            screen::span(
                if cloud {
                    "adicionar provider cloud"@
                } else {
                    "adicionar / configurar modelo local"@
                },
                screen::in_ink(Ink::TextMain),
            ),
        ],
        seq![screen::span(""@, screen::unstyled())],
        seq![
            screen::span("j/k ou setas: navegar   "@, screen::in_ink(Ink::TextMuted)),
            screen::span("Enter: usar"@, screen::in_bold(Ink::Accent)),
            screen::span("   Esc: voltar   q: fechar"@, screen::in_ink(Ink::TextMuted)),
        ],
    ]
}

/// The lines of the overlay.
pub open spec fn overlay_lines(
    nav: ProviderNav,
    all: Seq<EntryView>,
    selected: Option<Seq<char>>,
    cursor: nat,
) -> Seq<Seq<SpanView>> {
    if nav == ProviderNav::Root {
        root_lines(cursor)
    } else {
        let cloud = nav == ProviderNav::CloudList;
        let list = filtered(all, nav);
        list_head(cloud, list.len() == 0) + entries_lines(list, selected, cursor) + list_foot(cloud)
    }
}

fn mark(on: bool) -> (r: &'static str)
    ensures
        r@ == cursor_mark(on),
{
    if on {
        "»"
    } else {
        " "
    }
}

fn cursor_look() -> (r: Look)
    ensures
        r == under_cursor(),
{
    Look { fg: Some(Ink::Black), bg: Some(Ink::Accent), bold: true, italic: false }
}

fn show_group(label: &str, on: bool) -> (r: TextLine)
    ensures
        r@ == group_line(label@, on),
{
    let s = text::cat4("  ", mark(on), " ", label);
    TextLine::one(
        s.as_str(),
        if on {
            cursor_look()
        } else {
            Look::plain(Ink::TextMain)
        },
    )
}

fn show_root(cursor: usize) -> (r: Vec<TextLine>)
    ensures
        text::views(r@) == root_lines(cursor as nat),
{
    broadcast use text::lemma_views_push;

    let mut lines: Vec<TextLine> = Vec::new();
    assert(text::views(lines@) =~= Seq::<Seq<SpanView>>::empty());
    lines.push(
        TextLine::one(
            "Escolha o tipo. Subagentes sempre usam runtime local.",
            Look::plain(Ink::TextMuted),
        ),
    );
    lines.push(TextLine::blank());
    lines.push(show_group("Local  — modelos GGUF no disco", cursor == 0));
    lines.push(show_group("Cloud  — OpenAI / Anthropic / Google", cursor == 1));
    lines.push(TextLine::blank());
    lines.push(
        TextLine::three(
            "j/k ou setas: navegar   ",
            Look::plain(Ink::TextMuted),
            "Enter: abrir",
            Look::strong(Ink::Accent),
            "   Esc/q: fechar",
            Look::plain(Ink::TextMuted),
        ),
    );
    lines
}

fn show_entry(e: &ProviderEntry, on: bool, active: bool) -> (r: Vec<TextLine>)
    ensures
        text::views(r@) == entry_lines(e@, on, active),
{
    broadcast use text::lemma_views_push;

    let mut lines: Vec<TextLine> = Vec::new();
    assert(text::views(lines@) =~= Seq::<Seq<SpanView>>::empty());
    let note = if active {
        "  (ativo)"
    } else {
        ""
    };
    let s = text::cat5("  ", mark(on), " ", e.name.as_str(), note);
    lines.push(
        TextLine::one(
            s.as_str(),
            if on {
                cursor_look()
            } else if active {
                Look::strong(Ink::Accent)
            } else {
                Look::plain(Ink::TextMain)
            },
        ),
    );
    let d = text::cat2("      ", e.detail.as_str());
    lines.push(TextLine::one(d.as_str(), Look::plain(Ink::TextMuted)));
    lines
}

fn show_foot(cloud: bool) -> (r: Vec<TextLine>)
    ensures
        text::views(r@) == list_foot(cloud),
{
    broadcast use text::lemma_views_push;

    let mut lines: Vec<TextLine> = Vec::new();
    assert(text::views(lines@) =~= Seq::<Seq<SpanView>>::empty());
    lines.push(TextLine::blank());
    lines.push(
        TextLine::two(
            "  Ctrl+A: ",
            Look::strong(Ink::Accent),
            if cloud {
                "adicionar provider cloud"
            } else {
                "adicionar / configurar modelo local"
            },
            Look::plain(Ink::TextMain),
        ),
    );
    lines.push(TextLine::blank());
    lines.push(
        TextLine::three(
            "j/k ou setas: navegar   ",
            Look::plain(Ink::TextMuted),
            "Enter: usar",
            Look::strong(Ink::Accent),
            "   Esc: voltar   q: fechar",
            Look::plain(Ink::TextMuted),
        ),
    );
    lines
}

fn show_head(cloud: bool, empty: bool) -> (r: Vec<TextLine>)
    ensures
        text::views(r@) == list_head(cloud, empty),
{
    broadcast use text::lemma_views_push;

    let mut lines: Vec<TextLine> = Vec::new();
    assert(text::views(lines@) =~= Seq::<Seq<SpanView>>::empty());
    lines.push(
        TextLine::one(
            if cloud {
                "Providers remotos. Ctrl+A adiciona um novo."
            } else {
                "Modelos locais (GGUF). Ctrl+A adiciona/configura."
            },
            Look::plain(Ink::TextMuted),
        ),
    );
    lines.push(TextLine::blank());
    if empty {
        lines.push(
            TextLine::one("  (nenhum provider neste grupo)", Look::plain(Ink::TextMuted)),
        );
    }
    lines
}

fn is_selected(selected: &Option<String>, id: &str) -> (r: bool)
    ensures
        r == (text::opt_view(*selected) == Some(id@)),
{
    match selected {
        Some(s) => same(s.as_str(), id),
        None => false,
    }
}

/// Puts lines behind others.
pub(crate) fn extend(lines: &mut Vec<TextLine>, more: Vec<TextLine>)
    ensures
        text::views(final(lines)@) == text::views(old(lines)@) + text::views(more@),
{
    let ghost added = more@;
    let mut rest = more;
    lines.append(&mut rest);
    assert(text::views(lines@) =~= text::views(old(lines)@) + text::views(added));
}

/// The lines of the overlay.
pub fn draw(
    nav: ProviderNav,
    providers: &Vec<ProviderEntry>,
    selected: &Option<String>,
    cursor: usize,
) -> (r: Vec<TextLine>)
    ensures
        text::views(r@) == overlay_lines(
            nav,
            text::views(providers@),
            text::opt_view(*selected),
            cursor as nat,
        ),
{
    if nav == ProviderNav::Root {
        return show_root(cursor);
    }
    let cloud = nav == ProviderNav::CloudList;
    let list = filtered_providers(providers, nav);
    let ghost all = placed(list@);
    let ghost sel = text::opt_view(*selected);
    let mut lines = show_head(cloud, list.len() == 0);
    let ghost head = text::views(lines@);
    let mut i: usize = 0;
    assert(all.subrange(0, 0) =~= Seq::empty());
    assert(head + entries_lines(all.subrange(0, 0), sel, cursor as nat) =~= head);
    while i < list.len()
        invariant
            i <= list.len(),
            all == placed(list@),
            sel == text::opt_view(*selected),
            text::views(lines@) == head + entries_lines(
                all.subrange(0, i as int),
                sel,
                cursor as nat,
            ),
        decreases list.len() - i,
    {
        let e = list[i].1;
        let active = is_selected(selected, e.id.as_str());
        let more = show_entry(e, i == cursor, active);
        proof {
            let next = all.subrange(0, i + 1);
            assert(next.drop_last() =~= all.subrange(0, i as int));
            assert(next.last() == all[i as int]);
            assert(all[i as int].1 == e@);
            let a = entries_lines(next.drop_last(), sel, cursor as nat);
            let b = entry_lines(e@, i == cursor, active);
            assert((head + a) + b =~= head + (a + b));
        }
        extend(&mut lines, more);
        i = i + 1;
    }
    assert(all.subrange(0, all.len() as int) =~= all);
    let foot = show_foot(cloud);
    extend(&mut lines, foot);
    lines
}

/// Each list shows the providers of its group, in order, and no other.
pub proof fn law_list_shows_group(all: Seq<EntryView>, e: EntryView)
    ensures
        e.cloud ==> filtered(all.push(e), ProviderNav::CloudList) == filtered(
            all,
            ProviderNav::CloudList,
        ).push((all.len(), e)) && filtered(all.push(e), ProviderNav::LocalList) == filtered(
            all,
            ProviderNav::LocalList,
        ),
        !e.cloud ==> filtered(all.push(e), ProviderNav::LocalList) == filtered(
            all,
            ProviderNav::LocalList,
        ).push((all.len(), e)) && filtered(all.push(e), ProviderNav::CloudList) == filtered(
            all,
            ProviderNav::CloudList,
        ),
{
    assert(all.push(e).drop_last() =~= all);
}

/// Enter opens the group under the cursor, and in a group chooses the provider under the cursor;
/// Esc goes back, and from the groups closes the overlay.
pub proof fn law_enter_chooses_under_cursor(cursor: nat, all: Seq<EntryView>, nav: ProviderNav)
    ensures
        on_key(KeyCode::Enter, false, ProviderNav::Root, 0, all).0 == ProviderKeyView::EnterGroup(
            ProviderNav::LocalList,
        ),
        on_key(KeyCode::Enter, false, ProviderNav::Root, 1, all).0 == ProviderKeyView::EnterGroup(
            ProviderNav::CloudList,
        ),
        nav != ProviderNav::Root && cursor < filtered(all, nav).len() ==> on_key(
            KeyCode::Enter,
            false,
            nav,
            cursor,
            all,
        ).0 == ProviderKeyView::Choose(filtered(all, nav)[cursor as int].1.id),
        nav != ProviderNav::Root ==> on_key(KeyCode::Esc, false, nav, cursor, all).0 is Back,
        on_key(KeyCode::Esc, false, ProviderNav::Root, cursor, all).0 is Close,
{
}

/// Each provider of the list has a line with its name, marked under the cursor, and below it what it
/// is; the one in use says so.
pub proof fn law_provider_is_listed(
    list: Seq<(nat, EntryView)>,
    selected: Option<Seq<char>>,
    cursor: nat,
    i: int,
)
    requires
        0 <= i < list.len(),
    ensures
        ({
            let lines = entries_lines(list, selected, cursor);
            let e = list[i].1;
            let mark = if i == cursor {
                "»"@
            } else {
                " "@
            };
            let note = if selected == Some(e.id) {
                "  (ativo)"@
            } else {
                ""@
            };
            &&& lines.len() == 2 * list.len()
            &&& lines[2 * i][0].text == "  "@ + mark + " "@ + e.name + note
            &&& lines[2 * i + 1][0].text == "      "@ + e.detail
            &&& i == cursor <==> lines[2 * i][0].look.bg == Some(Ink::Accent)
        }),
    decreases list.len(),
{
    let init = list.drop_last();
    if i < init.len() {
        law_provider_is_listed(init, selected, cursor, i);
    } else if init.len() > 0 {
        law_provider_is_listed(init, selected, cursor, 0);
    }
    let before = entries_lines(init, selected, cursor);
    let e = list.last().1;
    let added = entry_lines(e, list.len() - 1 == cursor, selected == Some(e.id));
    let lines = entries_lines(list, selected, cursor);
    assert(lines == before + added);
    assert(before.len() == 2 * init.len());
    if i < init.len() {
        assert(lines[2 * i] == before[2 * i]);
        assert(lines[2 * i + 1] == before[2 * i + 1]);
        assert(init[i] == list[i]);
    } else {
        assert(lines[2 * i] == added[0]);
        assert(lines[2 * i + 1] == added[1]);
    }
}

/// The overlay of a group lists the providers of that group, and of no other.
pub proof fn law_overlay_lists_group(
    nav: ProviderNav,
    all: Seq<EntryView>,
    selected: Option<Seq<char>>,
    cursor: nat,
    i: int,
)
    requires
        nav != ProviderNav::Root,
        0 <= i < filtered(all, nav).len(),
    ensures
        overlay_lines(nav, all, selected, cursor)[2 + 2 * i + 1][0].text == "      "@ + filtered(
            all,
            nav,
        )[i].1.detail,
        filtered(all, nav)[i].1.cloud == (nav == ProviderNav::CloudList),
        filtered(all, nav)[i].0 < all.len(),
        all[filtered(all, nav)[i].0 as int] == filtered(all, nav)[i].1,
    decreases all.len(),
{
    law_provider_is_listed(filtered(all, nav), selected, cursor, i);
    lemma_filtered_is_of_group(all, nav, i);
}

proof fn lemma_filtered_is_of_group(all: Seq<EntryView>, nav: ProviderNav, i: int)
    requires
        nav != ProviderNav::Root,
        0 <= i < filtered(all, nav).len(),
    ensures
        filtered(all, nav)[i].1.cloud == (nav == ProviderNav::CloudList),
        filtered(all, nav)[i].0 < all.len(),
        all[filtered(all, nav)[i].0 as int] == filtered(all, nav)[i].1,
    decreases all.len(),
{
    if all.len() > 0 {
        let init = all.drop_last();
        if i < filtered(init, nav).len() {
            lemma_filtered_is_of_group(init, nav, i);
        }
    }
}

} // verus!
