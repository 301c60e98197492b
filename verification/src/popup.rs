//! The menu that completes what is typed: commands behind a slash at the
//! beginning of the line, and files of the project behind an at sign.

use crate::editor;
use crate::editor::{InputLine, InputView};
use crate::text;
use crate::tools;
use crate::tools::byte_len;
use vstd::prelude::*;

verus! {

/// What a menu completes.
#[derive(Debug, Clone, Copy, PartialEq, Eq, Structural)]
pub enum PopupKind {
    /// Commands.
    Slash,
    /// Files of the project.
    Mention,
}

/// An entry of a menu: the text that is put in, and a remark.
#[derive(Debug, PartialEq)]
pub struct PopupItem {
    pub label: String,
    pub detail: String,
}

/// The model of an entry.
#[verifier::ext_equal]
pub struct ItemView {
    pub label: Seq<char>,
    pub detail: Seq<char>,
}

impl View for PopupItem {
    type V = ItemView;

    open spec fn view(&self) -> ItemView {
        ItemView { label: self.label@, detail: self.detail@ }
    }
}

/// A menu over the line that is typed.
#[derive(Debug, PartialEq)]
pub struct InputPopup {
    pub kind: PopupKind,
    /// Where in the line the slash or the at sign stands.
    pub trigger_pos: usize,
    pub items: Vec<PopupItem>,
    pub selected: usize,
}

/// The model of a menu.
#[verifier::ext_equal]
pub struct PopupView {
    pub kind: PopupKind,
    pub trigger_pos: nat,
    pub items: Seq<ItemView>,
    pub selected: nat,
}

impl View for InputPopup {
    type V = PopupView;

    open spec fn view(&self) -> PopupView {
        PopupView {
            kind: self.kind,
            trigger_pos: self.trigger_pos as nat,
            items: text::views(self.items@),
            selected: self.selected as nat,
        }
    }
}

/// The commands.
pub open spec fn commands() -> Seq<ItemView> {
    seq![
        ItemView { label: "/provider"@, detail: "escolhe local ou API OpenAI-compativel"@ },
        ItemView { label: "/models"@, detail: "lista modelos da API (provider openai)"@ },
        ItemView { label: "/session"@, detail: "lista/retoma conversas salvas"@ },
        ItemView { label: "/clear"@, detail: "limpa a tela do chat"@ },
        ItemView { label: "/help"@, detail: "mostra atalhos de teclado"@ },
    ]
}

fn item(label: &str, detail: &str) -> (r: PopupItem)
    ensures
        r@ == (ItemView { label: label@, detail: detail@ }),
{
    PopupItem { label: label.to_string(), detail: detail.to_string() }
}

/// The commands and what each is for.
pub fn slash_commands() -> (r: Vec<PopupItem>)
    ensures
        text::views(r@) == commands(),
{
    broadcast use text::lemma_views_push;

    let mut v: Vec<PopupItem> = Vec::new();
    assert(text::views(v@) =~= Seq::<ItemView>::empty());
    v.push(item("/provider", "escolhe local ou API OpenAI-compativel"));
    v.push(item("/models", "lista modelos da API (provider openai)"));
    v.push(item("/session", "lista/retoma conversas salvas"));
    v.push(item("/clear", "limpa a tela do chat"));
    v.push(item("/help", "mostra atalhos de teclado"));
    v
}

/// The commands whose name, behind the slash, begins with what was typed.
pub open spec fn commands_for(all: Seq<ItemView>, query: Seq<char>) -> Seq<ItemView>
    decreases all.len(),
{
    if all.len() == 0 {
        Seq::empty()
    } else {
        let before = commands_for(all.drop_last(), query);
        if text::has_prefix(all.last().label.skip(1), query) {
            before.push(all.last())
        } else {
            before
        }
    }
}

/// Some character of a text is white space.
pub open spec fn has_space(s: Seq<char>) -> bool {
    exists|i: int| 0 <= i < s.len() && text::white_space(#[trigger] s[i])
}

fn spaced(s: &str) -> (r: bool)
    ensures
        r == has_space(s@),
{
    let chars = text::chars_of(s);
    let mut i: usize = 0;
    while i < chars.len()
        invariant
            i <= chars.len(),
            chars@ == s@,
            forall|k: int| 0 <= k < i ==> !text::white_space(#[trigger] chars@[k]),
        decreases chars.len() - i,
    {
        if text::is_white_space(chars[i]) {
            assert(text::white_space(s@[i as int]));
            return true;
        }
        i = i + 1;
    }
    false
}

/// The command that is being typed, without its slash.
pub open spec fn command_query(before: Seq<char>) -> Option<Seq<char>> {
    if before.len() > 0 && before[0] == '/' && !has_space(before.skip(1)) {
        Some(before.skip(1))
    } else {
        None
    }
}

/// The mention that is being typed: where its at sign stands, and what stands
/// behind it.
pub open spec fn mention_query(before: Seq<char>) -> Option<(int, Seq<char>)> {
    match text::last_at(before, '@') {
        Some(at) => if has_space(before.skip(at + 1)) {
            None
        } else {
            Some((at, before.skip(at + 1)))
        },
        None => None,
    }
}

/// The name of a file behind the last slash of its path.
pub open spec fn base_name(path: Seq<char>) -> Seq<char> {
    match text::last_at(path, '/') {
        Some(i) => path.skip(i + 1),
        None => path,
    }
}

/// A file of the project with its rank among those that match: a name that
/// begins with what was typed comes first, then the shorter path.
#[derive(Debug, PartialEq)]
pub struct Candidate {
    pub late: bool,
    pub size: usize,
    pub path: String,
}

/// The model of a ranked file.
#[verifier::ext_equal]
pub struct CandidateView {
    pub late: bool,
    pub size: nat,
    pub path: Seq<char>,
}

impl View for Candidate {
    type V = CandidateView;

    open spec fn view(&self) -> CandidateView {
        CandidateView { late: self.late, size: self.size as nat, path: self.path@ }
    }
}

/// The rank of a file for what was typed, in lower case.
pub open spec fn ranked(path: Seq<char>, low: Seq<char>) -> CandidateView {
    CandidateView {
        late: !text::has_prefix(text::lowercase(base_name(path)), low),
        size: tools::bytes(path).len(),
        path,
    }
}

/// The files whose path holds what was typed, in lower case, with their ranks.
pub open spec fn candidates(files: Seq<Seq<char>>, low: Seq<char>) -> Seq<CandidateView>
    decreases files.len(),
{
    if files.len() == 0 {
        Seq::empty()
    } else {
        let before = candidates(files.drop_last(), low);
        if low.len() == 0 || text::has(text::lowercase(files.last()), low) {
            before.push(ranked(files.last(), low))
        } else {
            before
        }
    }
}

/// A rank comes before another.
pub open spec fn outranks(a: CandidateView, b: CandidateView) -> bool {
    (!a.late && b.late) || (a.late == b.late && a.size < b.size)
}

/// Where a file goes among ranked ones.
pub open spec fn rank_slot(s: Seq<CandidateView>, x: CandidateView) -> int
    decreases s.len(),
{
    if s.len() == 0 || !outranks(x, s.last()) {
        s.len() as int
    } else {
        rank_slot(s.drop_last(), x)
    }
}

/// Files by their rank; those of one rank stay in order.
pub open spec fn by_rank(s: Seq<CandidateView>) -> Seq<CandidateView>
    decreases s.len(),
{
    if s.len() == 0 {
        Seq::empty()
    } else {
        let before = by_rank(s.drop_last());
        before.insert(rank_slot(before, s.last()), s.last())
    }
}

/// How many files a menu offers at most.
pub const MENTION_LIMIT: usize = 30;

/// The entries for a mention: the paths of the files of the best ranks.
pub open spec fn mention_items(files: Seq<Seq<char>>, low: Seq<char>) -> Seq<ItemView> {
    let all = by_rank(candidates(files, low));
    let n = if all.len() < MENTION_LIMIT {
        all.len()
    } else {
        MENTION_LIMIT as nat
    };
    Seq::new(n, |i: int| ItemView { label: all[i].path, detail: Seq::empty() })
}

/// The entry that stays selected in a menu of a kind with `n` entries.
pub open spec fn kept_selection(old: Option<PopupView>, kind: PopupKind, n: nat) -> nat {
    match old {
        Some(p) => if p.kind != kind {
            0
        } else if p.selected < n {
            p.selected
        } else {
            (n - 1) as nat
        },
        None => 0,
    }
}

/// A menu of entries, if there are any.
pub open spec fn menu(
    kind: PopupKind,
    trigger_pos: nat,
    items: Seq<ItemView>,
    old: Option<PopupView>,
) -> Option<PopupView> {
    if items.len() == 0 {
        None
    } else {
        Some(
            PopupView {
                kind,
                trigger_pos,
                items,
                selected: kept_selection(old, kind, items.len()),
            },
        )
    }
}

/// The menu for what stands before the cursor.
pub open spec fn popup_for(
    before: Seq<char>,
    old: Option<PopupView>,
    files: Seq<Seq<char>>,
) -> Option<PopupView> {
    match command_query(before) {
        Some(query) => menu(PopupKind::Slash, 0, commands_for(commands(), query), old),
        None => match mention_query(before) {
            Some((at, query)) => menu(
                PopupKind::Mention,
                at as nat,
                mention_items(files, text::lowercase(query)),
                old,
            ),
            None => None,
        },
    }
}

fn find_commands(query: &str) -> (r: Vec<PopupItem>)
    ensures
        text::views(r@) == commands_for(commands(), query@),
{
    broadcast use text::lemma_views_push;

    let all = slash_commands();
    let ghost whole = text::views(all@);
    let mut out: Vec<PopupItem> = Vec::new();
    let mut i: usize = 0;
    assert(whole.subrange(0, 0) =~= Seq::empty());
    assert(text::views(out@) =~= Seq::<ItemView>::empty());
    while i < all.len()
        invariant
            i <= all.len(),
            whole == text::views(all@),
            whole == commands(),
            text::views(out@) == commands_for(whole.subrange(0, i as int), query@),
        decreases all.len() - i,
    {
        let c = &all[i];
        proof {
            let next = whole.subrange(0, i + 1);
            assert(next.drop_last() =~= whole.subrange(0, i as int));
            assert(next.last() == c@);
            lemma_commands_begin(i as int);
        }
        let name = text::suffix(c.label.as_str(), 1);
        assert(name@ =~= c.label@.skip(1));
        if text::starts_with(name.as_str(), query) {
            out.push(item(c.label.as_str(), c.detail.as_str()));
        }
        i = i + 1;
    }
    assert(whole.subrange(0, whole.len() as int) =~= whole);
    out
}

proof fn lemma_commands_begin(i: int)
    requires
        0 <= i < commands().len(),
    ensures
        commands()[i].label.len() > 0,
{
    reveal_strlit("/provider");
    reveal_strlit("/models");
    reveal_strlit("/session");
    reveal_strlit("/clear");
    reveal_strlit("/help");
}

fn rank(path: &str, low: &str) -> (r: Candidate)
    ensures
        r@ == ranked(path@, low@),
{
    let n: usize = path.unicode_len();
    let name = match text::rfind(path, '/') {
        Some(i) => {
            assert(i < n);
            let r = text::suffix(path, i + 1);
            assert(r@ =~= path@.skip(i + 1));
            r
        },
        None => path.to_string(),
    };
    let low_name = text::to_lowercase(name.as_str());
    Candidate {
        late: !text::starts_with(low_name.as_str(), low),
        size: byte_len(path),
        path: path.to_string(),
    }
}

fn find_candidates(files: &Vec<String>, low: &str) -> (r: Vec<Candidate>)
    ensures
        text::views(r@) == candidates(text::views(files@), low@),
{
    broadcast use text::lemma_views_push;

    let ghost all = text::views(files@);
    let every = low.unicode_len() == 0;
    let mut out: Vec<Candidate> = Vec::new();
    let mut i: usize = 0;
    assert(all.subrange(0, 0) =~= Seq::empty());
    assert(text::views(out@) =~= Seq::<CandidateView>::empty());
    while i < files.len()
        invariant
            i <= files.len(),
            all == text::views(files@),
            every == (low@.len() == 0),
            text::views(out@) == candidates(all.subrange(0, i as int), low@),
        decreases files.len() - i,
    {
        let path = files[i].as_str();
        proof {
            let next = all.subrange(0, i + 1);
            assert(next.drop_last() =~= all.subrange(0, i as int));
            assert(next.last() == path@);
        }
        let low_path = text::to_lowercase(path);
        if every || text::contains(low_path.as_str(), low) {
            out.push(rank(path, low));
        }
        i = i + 1;
    }
    assert(all.subrange(0, all.len() as int) =~= all);
    out
}

/// Puts ranked files in the order of their ranks.
pub fn sort_by_rank(v: &Vec<Candidate>) -> (r: Vec<Candidate>)
    ensures
        text::views(r@) == by_rank(text::views(v@)),
{
    let ghost all = text::views(v@);
    let mut out: Vec<Candidate> = Vec::new();
    let mut i: usize = 0;
    assert(all.subrange(0, 0) =~= Seq::empty());
    assert(text::views(out@) =~= by_rank(all.subrange(0, 0)));
    while i < v.len()
        invariant
            i <= v.len(),
            all == text::views(v@),
            text::views(out@) == by_rank(all.subrange(0, i as int)),
        decreases v.len() - i,
    {
        let ghost before = text::views(out@);
        let x = &v[i];
        let mut p: usize = out.len();
        assert(before.subrange(0, p as int) =~= before);
        while p > 0 && ((!x.late && out[p - 1].late) || (x.late == out[p - 1].late && x.size < out[p
            - 1].size))
            invariant
                p <= out.len(),
                before == text::views(out@),
                rank_slot(before, x@) == rank_slot(before.subrange(0, p as int), x@),
            decreases p,
        {
            proof {
                let part = before.subrange(0, p as int);
                assert(part.last() == out@[p - 1]@);
                assert(part.drop_last() =~= before.subrange(0, p - 1));
            }
            p = p - 1;
        }
        proof {
            let part = before.subrange(0, p as int);
            if p > 0 {
                assert(part.last() == out@[p - 1]@);
            }
            assert(rank_slot(before, x@) == p);
        }
        let one = Candidate {
            late: x.late,
            size: x.size,
            path: x.path.as_str().to_string(),
        };
        out.insert(p, one);
        proof {
            assert(text::views(out@) =~= before.insert(p as int, one@));
            let next = all.subrange(0, i + 1);
            assert(next.drop_last() =~= all.subrange(0, i as int));
            assert(next.last() == v@[i as int]@);
        }
        i = i + 1;
    }
    assert(all.subrange(0, all.len() as int) =~= all);
    out
}

/// No file stands ahead of one that outranks it.
pub proof fn law_best_files_first(s: Seq<CandidateView>)
    ensures
        by_rank(s).len() == s.len(),
        forall|i: int, j: int|
            0 <= i <= j < by_rank(s).len() ==> !outranks(
                #[trigger] by_rank(s)[j],
                #[trigger] by_rank(s)[i],
            ),
    decreases s.len(),
{
    if s.len() > 0 {
        let before = by_rank(s.drop_last());
        law_best_files_first(s.drop_last());
        lemma_rank_slot(before, s.last());
    }
}

proof fn lemma_rank_slot(s: Seq<CandidateView>, x: CandidateView)
    requires
        forall|i: int, j: int|
            0 <= i <= j < s.len() ==> !outranks(#[trigger] s[j], #[trigger] s[i]),
    ensures
        0 <= rank_slot(s, x) <= s.len(),
        forall|i: int| 0 <= i < rank_slot(s, x) ==> !outranks(x, #[trigger] s[i]),
        forall|i: int| rank_slot(s, x) <= i < s.len() ==> outranks(x, #[trigger] s[i]),
    decreases s.len(),
{
    if s.len() > 0 {
        let rest = s.drop_last();
        if outranks(x, s.last()) {
            lemma_rank_slot(rest, x);
            assert forall|i: int| rank_slot(s, x) <= i < s.len() implies outranks(
                x,
                #[trigger] s[i],
            ) by {
                if i < s.len() - 1 {
                    assert(rest[i] == s[i]);
                }
            }
            assert forall|i: int| 0 <= i < rank_slot(s, x) implies !outranks(
                x,
                #[trigger] s[i],
            ) by {
                assert(rest[i] == s[i]);
            }
        } else {
            assert forall|i: int| 0 <= i < s.len() implies !outranks(x, #[trigger] s[i]) by {
                assert(!outranks(s[s.len() - 1], s[i]));
            }
        }
    }
}

fn find_mentions(files: &Vec<String>, low: &str) -> (r: Vec<PopupItem>)
    ensures
        text::views(r@) == mention_items(text::views(files@), low@),
{
    let found = find_candidates(files, low);
    let best = sort_by_rank(&found);
    let ghost all = text::views(best@);
    let n: usize = if best.len() < MENTION_LIMIT {
        best.len()
    } else {
        MENTION_LIMIT
    };
    let mut out: Vec<PopupItem> = Vec::new();
    let mut i: usize = 0;
    while i < n
        invariant
            i <= n <= best.len(),
            all == text::views(best@),
            out.len() == i,
            forall|k: int|
                0 <= k < i ==> (#[trigger] out@[k])@ == (ItemView {
                    label: all[k].path,
                    detail: Seq::empty(),
                }),
        decreases n - i,
    {
        let none = String::new();
        assert(none@ =~= Seq::empty());
        assert(all[i as int] == best@[i as int]@);
        out.push(PopupItem { label: best[i].path.as_str().to_string(), detail: none });
        i = i + 1;
    }
    assert(text::views(out@) =~= mention_items(text::views(files@), low@));
    out
}

fn build_menu(
    kind: PopupKind,
    trigger_pos: usize,
    items: Vec<PopupItem>,
    old_popup: &Option<InputPopup>,
) -> (r: Option<InputPopup>)
    ensures
        text::opt_view(r) == menu(
            kind,
            trigger_pos as nat,
            text::views(items@),
            text::opt_view(*old_popup),
        ),
{
    let n: usize = items.len();
    if n == 0 {
        return None;
    }
    let selected: usize = match old_popup {
        Some(p) => if p.kind != kind {
            0
        } else if p.selected < n {
            p.selected
        } else {
            n - 1
        },
        None => 0,
    };
    Some(InputPopup { kind, trigger_pos, items, selected })
}

/// Works out the menu for the line that is typed.
pub fn find_popup(input: &InputLine, old_popup: &Option<InputPopup>, files: &Vec<String>) -> (r:
    Option<InputPopup>)
    ensures
        text::opt_view(r) == popup_for(
            input@.before(),
            text::opt_view(*old_popup),
            text::views(files@),
        ),
{
    let before = input.before();
    let chars = text::chars_of(before.as_str());
    if chars.len() > 0 && chars[0] == '/' {
        let rest = text::suffix(before.as_str(), 1);
        assert(rest@ =~= before@.skip(1));
        if !spaced(rest.as_str()) {
            let items = find_commands(rest.as_str());
            return build_menu(PopupKind::Slash, 0, items, old_popup);
        }
    }
    match text::rfind(before.as_str(), '@') {
        Some(at) => {
            let rest = text::suffix(before.as_str(), at + 1);
            assert(rest@ =~= before@.skip(at + 1));
            if spaced(rest.as_str()) {
                None
            } else {
                let low = text::to_lowercase(rest.as_str());
                let items = find_mentions(files, low.as_str());
                build_menu(PopupKind::Mention, at, items, old_popup)
            }
        },
        None => None,
    }
}

/// Whether the files of the project are wanted: a mention is being typed.
pub fn wants_files(input: &InputLine) -> (r: bool)
    ensures
        r == (command_query(input@.before()) is None && mention_query(input@.before()) is Some),
{
    let before = input.before();
    let chars = text::chars_of(before.as_str());
    if chars.len() > 0 && chars[0] == '/' {
        let rest = text::suffix(before.as_str(), 1);
        assert(rest@ =~= before@.skip(1));
        if !spaced(rest.as_str()) {
            return false;
        }
    }
    match text::rfind(before.as_str(), '@') {
        Some(at) => {
            let rest = text::suffix(before.as_str(), at + 1);
            assert(rest@ =~= before@.skip(at + 1));
            !spaced(rest.as_str())
        },
        None => false,
    }
}

/// In a menu that is shown, one of its entries is selected.
pub proof fn law_menu_has_selection(
    before: Seq<char>,
    old_popup: Option<PopupView>,
    files: Seq<Seq<char>>,
)
    ensures
        match popup_for(before, old_popup, files) {
            Some(p) => p.selected < p.items.len(),
            None => true,
        },
{
}

/// The line after an entry of a menu was taken: a command takes the place of
/// the line, a file that of the mention.
pub open spec fn completed(input: InputView, p: PopupView) -> InputView {
    if p.selected >= p.items.len() {
        input
    } else {
        let label = p.items[p.selected as int].label;
        match p.kind {
            PopupKind::Slash => InputView { text: label, pos: label.len() },
            PopupKind::Mention => {
                let start = editor::within(p.trigger_pos, input.text.len());
                let end = editor::within(input.pos, input.text.len());
                let head = input.text.take(start) + seq!['@'] + label + seq![' '];
                InputView { text: head + input.text.skip(end), pos: head.len() }
            },
        }
    }
}

/// Takes the selected entry of a menu into the line.
pub fn complete(input: &mut InputLine, p: &InputPopup)
    ensures
        final(input)@ == completed(old(input)@, p@),
{
    if p.selected >= p.items.len() {
        return ;
    }
    let label = p.items[p.selected].label.as_str();
    assert(p@.items[p.selected as int].label == label@);
    match p.kind {
        PopupKind::Slash => {
            input.text = label.to_string();
            input.pos = label.unicode_len();
        },
        PopupKind::Mention => {
            let n: usize = input.text.as_str().unicode_len();
            let start: usize = if p.trigger_pos < n {
                p.trigger_pos
            } else {
                n
            };
            let end: usize = if input.pos < n {
                input.pos
            } else {
                n
            };
            let head = text::prefix(input.text.as_str(), start);
            let tail = text::suffix(input.text.as_str(), end);
            let mut line = text::cat3(head.as_str(), "@", label);
            line.push(' ');
            let pos: usize = line.as_str().unicode_len();
            proof {
                reveal_strlit("@");
                assert(line@ =~= old(input)@.text.take(start as int) + seq!['@'] + label@ + seq![
                    ' ',
                ]);
            }
            line.append(tail.as_str());
            input.text = line;
            input.pos = pos;
            assert(input@ =~= completed(old(input)@, p@));
        },
    }
}

/// Taking a file puts it where the mention was typed, and leaves the rest of
/// the line as it is.
pub proof fn law_completion_keeps_rest(input: InputView, p: PopupView)
    requires
        input.wf(),
        p.kind == PopupKind::Mention,
        p.trigger_pos <= input.pos,
        p.selected < p.items.len(),
    ensures
        ({
            let r = completed(input, p);
            &&& r.wf()
            &&& r.text.take(p.trigger_pos as int) == input.text.take(p.trigger_pos as int)
            &&& r.text.skip(r.pos as int) == input.text.skip(input.pos as int)
        }),
{
    let r = completed(input, p);
    assert(r.text.take(p.trigger_pos as int) =~= input.text.take(p.trigger_pos as int));
    assert(r.text.skip(r.pos as int) =~= input.text.skip(input.pos as int));
}

/// How many files of the project are looked at.
pub const MAX_FILES: usize = 4000;

/// How deep below the project files are looked for.
pub const MAX_DEPTH: usize = 14;

/// A directory that is not looked into.
pub open spec fn skipped_dir(name: Seq<char>) -> bool {
    ||| name == ".git"@
    ||| name == "target"@
    ||| name == "node_modules"@
    ||| name == ".idea"@
    ||| name == ".vscode"@
    ||| name == "dist"@
    ||| name == "build"@
    ||| name == ".cache"@
}

/// The search for the files of the project: the directories that are still to
/// be looked into, each with its depth, and the files that were found.
pub struct FileScan {
    stack: Vec<(String, usize)>,
    depth: usize,
    found: Vec<String>,
}

/// The model of a search.
#[verifier::ext_equal]
pub struct ScanView {
    pub stack: Seq<(Seq<char>, nat)>,
    pub depth: nat,
    pub found: Seq<Seq<char>>,
}

/// The model of directories with their depths.
pub open spec fn dirs(v: Seq<(String, usize)>) -> Seq<(Seq<char>, nat)> {
    v.map_values(|d: (String, usize)| (d.0@, d.1 as nat))
}

impl View for FileScan {
    type V = ScanView;

    closed spec fn view(&self) -> ScanView {
        ScanView {
            stack: dirs(self.stack@),
            depth: self.depth as nat,
            found: text::views(self.found@),
        }
    }
}

/// The directory to look into next, and those that remain: the last one that
/// is not too deep.
pub open spec fn next_of(stack: Seq<(Seq<char>, nat)>) -> Option<
    ((Seq<char>, nat), Seq<(Seq<char>, nat)>),
>
    decreases stack.len(),
{
    if stack.len() == 0 {
        None
    } else if stack.last().1 > MAX_DEPTH {
        next_of(stack.drop_last())
    } else {
        Some((stack.last(), stack.drop_last()))
    }
}

/// A search that starts at the root of the project.
pub open spec fn first_scan(root: Seq<char>) -> ScanView {
    ScanView { stack: seq![(root, 0)], depth: 0, found: Seq::empty() }
}

/// A search that goes on to its next directory, and that directory; none once
/// enough files were found or no directory remains. What was found stays.
pub open spec fn gone_on(s: ScanView) -> (ScanView, Option<Seq<char>>) {
    if s.found.len() >= MAX_FILES {
        (s, None)
    } else {
        match next_of(s.stack) {
            Some((d, rest)) => (ScanView { stack: rest, depth: d.1, ..s }, Some(d.0)),
            None => (ScanView { stack: Seq::empty(), ..s }, None),
        }
    }
}

/// A search after an entry of the directory that is looked into. `rel` is the
/// path below the project, where there is one.
pub open spec fn entered(
    s: ScanView,
    path: Seq<char>,
    rel: Option<Seq<char>>,
    name: Seq<char>,
    is_dir: bool,
) -> ScanView {
    if text::has_prefix(name, "."@) {
        s
    } else if is_dir {
        if skipped_dir(name) {
            s
        } else {
            ScanView { stack: s.stack.push((path, s.depth + 1)), ..s }
        }
    } else if s.found.len() < MAX_FILES && rel is Some {
        ScanView { found: s.found.push(text::replaced(rel->0, "\\"@, "/"@)), ..s }
    } else {
        s
    }
}

impl FileScan {
    #[verifier::type_invariant]
    spec fn inv(self) -> bool {
        self.depth <= MAX_DEPTH
    }

    /// A search that starts at the root of the project.
    pub fn new(root: &str) -> (r: FileScan)
        ensures
            r@ == first_scan(root@),
    {
        let mut stack: Vec<(String, usize)> = Vec::new();
        stack.push((root.to_string(), 0));
        let r = FileScan { stack, depth: 0, found: Vec::new() };
        assert(r@.stack =~= seq![(root@, 0nat)]);
        assert(r@.found =~= Seq::empty());
        r
    }

    /// The directory to look into next; none once enough files were found or
    /// no directory remains.
    pub fn next_dir(&mut self) -> (r: Option<String>)
        ensures
            (final(self)@, text::opt_view(r)) == gone_on(old(self)@),
    {
        proof {
            use_type_invariant(&*self);
        }
        if self.found.len() >= MAX_FILES {
            return None;
        }
        let ghost start = self@;
        let ghost whole = dirs(self.stack@);
        let mut stack: Vec<(String, usize)> = Vec::new();
        std::mem::swap(&mut stack, &mut self.stack);
        assert(self@.stack =~= Seq::empty());
        loop
            invariant
                start.found.len() < MAX_FILES,
                start == old(self)@,
                self.depth <= MAX_DEPTH,
                self@ == (ScanView { stack: Seq::empty(), ..start }),
                whole == start.stack,
                next_of(whole) == next_of(dirs(stack@)),
            decreases stack.len(),
        {
            let ghost before = dirs(stack@);
            match stack.pop() {
                None => {
                    return None;
                },
                Some((dir, depth)) => {
                    assert(before.last() == (dir@, depth as nat));
                    assert(before.drop_last() =~= dirs(stack@));
                    if depth <= MAX_DEPTH {
                        self.stack = stack;
                        self.depth = depth;
                        return Some(dir);
                    }
                },
            }
        }
    }

    /// Takes an entry of the directory that is looked into.
    pub fn on_entry(&mut self, path: &str, rel: Option<String>, name: &str, is_dir: bool)
        ensures
            final(self)@ == entered(old(self)@, path@, text::opt_view(rel), name@, is_dir),
    {
        proof {
            use_type_invariant(&*self);
        }
        if text::starts_with(name, ".") {
            return ;
        }
        if is_dir {
            let skip = text::same(name, ".git") || text::same(name, "target") || text::same(
                name,
                "node_modules",
            ) || text::same(name, ".idea") || text::same(name, ".vscode") || text::same(
                name,
                "dist",
            ) || text::same(name, "build") || text::same(name, ".cache");
            if !skip {
                let depth: usize = self.depth + 1;
                let mut stack: Vec<(String, usize)> = Vec::new();
                std::mem::swap(&mut stack, &mut self.stack);
                stack.push((path.to_string(), depth));
                self.stack = stack;
                assert(self@.stack =~= old(self)@.stack.push((path@, depth as nat)));
            }
        } else if self.found.len() < MAX_FILES {
            match rel {
                Some(r) => {
                    let file = text::replace(r.as_str(), "\\", "/");
                    let mut found: Vec<String> = Vec::new();
                    std::mem::swap(&mut found, &mut self.found);
                    found.push(file);
                    self.found = found;
                    assert(self@.found =~= old(self)@.found.push(file@));
                },
                None => {},
            }
        }
    }

    /// The files that were found, in order.
    pub fn finish(&self) -> (r: Vec<String>)
        ensures
            text::views(r@) == text::ordered(self@.found),
    {
        text::sort(&self.found)
    }
}

/// A step of a search: it goes on to the next directory, or takes an entry.
#[verifier::ext_equal]
pub enum ScanInput {
    Next,
    Entry { path: Seq<char>, rel: Option<Seq<char>>, name: Seq<char>, is_dir: bool },
}

/// A search after a step.
pub open spec fn stepped(s: ScanView, input: ScanInput) -> ScanView {
    match input {
        ScanInput::Next => gone_on(s).0,
        ScanInput::Entry { path, rel, name, is_dir } => entered(s, path, rel, name, is_dir),
    }
}

/// A search after one step after the other.
pub open spec fn searched(s: ScanView, inputs: Seq<ScanInput>) -> ScanView
    decreases inputs.len(),
{
    if inputs.len() == 0 {
        s
    } else {
        stepped(searched(s, inputs.drop_last()), inputs.last())
    }
}

/// The file that a step tells of: an entry that is neither hidden nor a
/// directory, and lies below the project.
pub open spec fn file_of(input: ScanInput) -> Option<Seq<char>> {
    match input {
        ScanInput::Entry { path, rel: Some(rel), name, is_dir } => if is_dir || text::has_prefix(
            name,
            "."@,
        ) {
            None
        } else {
            Some(text::replaced(rel, "\\"@, "/"@))
        },
        _ => None,
    }
}

/// The files that steps tell of, one after the other.
pub open spec fn files_told(inputs: Seq<ScanInput>) -> Seq<Seq<char>>
    decreases inputs.len(),
{
    if inputs.len() == 0 {
        Seq::empty()
    } else {
        let before = files_told(inputs.drop_last());
        match file_of(inputs.last()) {
            Some(f) => before.push(f),
            None => before,
        }
    }
}

/// As many of the first files as are looked at.
pub open spec fn first_files(files: Seq<Seq<char>>) -> Seq<Seq<char>> {
    if files.len() > MAX_FILES {
        files.subrange(0, MAX_FILES as int)
    } else {
        files
    }
}

/// A whole search finds the files of all entries that were told, as far as so
/// many are looked at; none is lost when it goes on or ends.
pub proof fn law_search_finds_all_files(root: Seq<char>, inputs: Seq<ScanInput>)
    ensures
        searched(first_scan(root), inputs).found == first_files(files_told(inputs)),
        gone_on(searched(first_scan(root), inputs)).0.found == first_files(files_told(inputs)),
    decreases inputs.len(),
{
    if inputs.len() > 0 {
        let init = inputs.drop_last();
        law_search_finds_all_files(root, init);
        let before = files_told(init);
        match file_of(inputs.last()) {
            Some(f) => {
                let files = before.push(f);
                if before.len() >= MAX_FILES {
                    assert(first_files(files) =~= first_files(before));
                }
            },
            None => {},
        }
    }
}

/// A search never finds more files than are looked at, and looks into no
/// hidden or skipped directory.
pub proof fn law_scan_is_bounded(
    s: ScanView,
    path: Seq<char>,
    rel: Option<Seq<char>>,
    name: Seq<char>,
    is_dir: bool,
)
    requires
        s.found.len() <= MAX_FILES,
    ensures
        entered(s, path, rel, name, is_dir).found.len() <= MAX_FILES,
        skipped_dir(name) || text::has_prefix(name, "."@) ==> entered(
            s,
            path,
            rel,
            name,
            true,
        ) == s,
{
}

/// A command that is typed at the start of the line is offered exactly where its name begins with
/// what was typed.
pub proof fn law_typed_command_is_offered(all: Seq<ItemView>, e: ItemView, query: Seq<char>)
    ensures
        text::has_prefix(e.label.skip(1), query) ==> commands_for(all.push(e), query)
            == commands_for(all, query).push(e),
        !text::has_prefix(e.label.skip(1), query) ==> commands_for(all.push(e), query)
            == commands_for(all, query),
        commands_for(Seq::empty(), query).len() == 0,
{
    assert(all.push(e).drop_last() =~= all);
}

/// Taking a command puts it in the place of the line, with the cursor behind it; taking a file puts
/// it, marked and with a blank behind it, in the place of what was typed of the mention.
pub proof fn law_entry_is_taken_into_line(input: InputView, p: PopupView)
    requires
        input.wf(),
        p.selected < p.items.len(),
        p.trigger_pos <= input.pos,
    ensures
        ({
            let label = p.items[p.selected as int].label;
            let n = input.text.len() as int;
            &&& p.kind == PopupKind::Slash ==> completed(input, p).text == label && completed(
                input,
                p,
            ).pos == label.len()
            &&& p.kind == PopupKind::Mention ==> completed(input, p).text == input.text.subrange(
                0,
                p.trigger_pos as int,
            ) + seq!['@'] + label + seq![' '] + input.text.subrange(input.pos as int, n)
            &&& p.kind == PopupKind::Mention ==> completed(input, p).pos == p.trigger_pos
                + label.len() + 2
        }),
{
    let label = p.items[p.selected as int].label;
    let n = input.text.len() as int;
    if p.kind == PopupKind::Mention {
        assert(completed(input, p).text =~= input.text.subrange(0, p.trigger_pos as int) + seq!['@']
            + label + seq![' '] + input.text.subrange(input.pos as int, n));
    }
}

/// A file is offered for a mention exactly where its path, in lower case, holds what was typed.
pub proof fn law_matching_file_is_offered(files: Seq<Seq<char>>, f: Seq<char>, low: Seq<char>)
    ensures
        low.len() == 0 || text::has(text::lowercase(f), low) ==> candidates(files.push(f), low).len()
            == candidates(files, low).len() + 1 && candidates(files.push(f), low).last().path == f,
        low.len() > 0 && !text::has(text::lowercase(f), low) ==> candidates(files.push(f), low)
            == candidates(files, low),
{
    assert(files.push(f).drop_last() =~= files);
}

} // verus!
