//! The colours of code.
//!
//! What a line of code looks like is worked out by the `syntect` crate, with
//! the syntaxes and the themes that come with it.

use crate::screen;
use crate::screen::{Ink, Look, SpanView, TextLine};
use crate::text;
use crate::text::same;
use syntect::easy::HighlightLines;
use syntect::highlighting::ThemeSet;
use syntect::parsing::SyntaxSet;
use vstd::prelude::*;

verus! {

/// The syntaxes that `syntect` knows.
#[verifier::external_type_specification]
#[verifier::external_body]
pub struct ExSyntaxSet(syntect::parsing::SyntaxSet);

/// The themes that `syntect` knows.
#[verifier::external_type_specification]
#[verifier::external_body]
pub struct ExThemeSet(syntect::highlighting::ThemeSet);

/// The words by which a set finds a syntax: the extensions of its files and the
/// names of its syntaxes.
pub uninterp spec fn set_words(ps: syntect::parsing::SyntaxSet) -> Set<Seq<char>>;

/// The names of the syntaxes of a set.
pub uninterp spec fn syntax_names(ps: syntect::parsing::SyntaxSet) -> Set<Seq<char>>;

/// The names of the themes of a set.
pub uninterp spec fn theme_names(ts: syntect::highlighting::ThemeSet) -> Set<Seq<char>>;

/// `SyntaxSet::load_defaults_newlines` gives the syntaxes that come with
/// `syntect`: those for the languages that are named `known_language`, and one
/// for plain text.
pub assume_specification[ syntect::parsing::SyntaxSet::load_defaults_newlines ]() -> (r:
    syntect::parsing::SyntaxSet)
    ensures
        forall|lang: Seq<char>| #[trigger] set_words(r).contains(lang) == known_language(lang),
        syntax_names(r).contains("Plain Text"@),
;

/// `ThemeSet::load_defaults` gives the themes that come with `syntect`; one of
/// them is the dark one of `base16-ocean`.
pub assume_specification[ syntect::highlighting::ThemeSet::load_defaults ]() -> (r:
    syntect::highlighting::ThemeSet)
    ensures
        theme_names(r).contains("base16-ocean.dark"@),
;

/// What `syntect` keeps from one line of code to the next.
#[verifier::external_type_specification]
#[verifier::external_body]
pub struct ExHighlightLines<'a>(syntect::easy::HighlightLines<'a>);

/// The theme in which code is shown.
pub const THEME: &'static str = "base16-ocean.dark";

/// A piece of code in its colour.
#[derive(Debug, PartialEq)]
pub struct Painted {
    pub red: u8,
    pub green: u8,
    pub blue: u8,
    pub text: String,
}

/// The model of a piece of code.
#[verifier::ext_equal]
pub struct PaintedView {
    pub red: u8,
    pub green: u8,
    pub blue: u8,
    pub text: Seq<char>,
}

impl View for Painted {
    type V = PaintedView;

    open spec fn view(&self) -> PaintedView {
        PaintedView { red: self.red, green: self.green, blue: self.blue, text: self.text@ }
    }
}

fn piece(red: u8, green: u8, blue: u8, code: &str) -> (r: Painted)
    ensures
        r@ == (PaintedView { red, green, blue, text: code@ }),
{
    Painted { red, green, blue, text: code.to_string() }
}

/// The code of pieces, whatever their colours.
pub open spec fn code_of(pieces: Seq<PaintedView>) -> Seq<char>
    decreases pieces.len(),
{
    if pieces.len() == 0 {
        Seq::empty()
    } else {
        code_of(pieces.drop_last()) + pieces.last().text
    }
}

/// `syntect` has a syntax for a language, by an extension or a name of it.
pub uninterp spec fn known_language(lang: Seq<char>) -> bool;

/// What a painter has been made for and has painted: the language, none for plain
/// text; the theme; and the lines.
pub uninterp spec fn painted_so_far(painter: syntect::easy::HighlightLines) -> (
    Option<Seq<char>>,
    Seq<char>,
    Seq<Seq<char>>,
);

/// The pieces of a line of code that comes behind other lines, in a language, or in
/// plain text where there is none, and in the colours of a theme.
pub uninterp spec fn painted_line(
    lang: Option<Seq<char>>,
    theme: Seq<char>,
    before: Seq<Seq<char>>,
    line: Seq<char>,
) -> Seq<PaintedView>;

/// The language that `syntect` goes by; one that it does not know is plain text.
pub open spec fn known_or_plain(lang: Seq<char>) -> Option<Seq<char>> {
    if known_language(lang) {
        Some(lang)
    } else {
        None
    }
}

/// The pieces of a line that stands alone.
pub open spec fn painted_for(line: Seq<char>, lang: Seq<char>) -> Seq<PaintedView> {
    painted_line(known_or_plain(lang), THEME@, Seq::empty(), line)
}

/// The pieces of lines, each behind those before it.
pub open spec fn painted_all(lines: Seq<Seq<char>>, lang: Seq<char>) -> Seq<Seq<PaintedView>> {
    Seq::new(
        lines.len(),
        |i: int| painted_line(known_or_plain(lang), THEME@, lines.subrange(0, i), lines[i]),
    )
}

/// The lines of a text, each with what ends it.
pub open spec fn lines_with_endings(s: Seq<char>) -> Seq<Seq<char>>
    decreases s.len(),
{
    if s.len() == 0 {
        Seq::empty()
    } else {
        let before = lines_with_endings(s.drop_last());
        if before.len() > 0 && !ended(before.last()) {
            before.update(before.len() - 1, before.last().push(s.last()))
        } else {
            before.push(seq![s.last()])
        }
    }
}

/// A line has its end.
pub open spec fn ended(line: Seq<char>) -> bool {
    line.len() > 0 && line.last() == '\n'
}

/// A piece of code on the ground of code.
pub open spec fn code_span(p: PaintedView) -> SpanView {
    screen::span(
        p.text,
        Look {
            fg: Some(Ink::Rgb(p.red, p.green, p.blue)),
            bg: Some(Ink::CodeBg),
            bold: false,
            italic: false,
        },
    )
}

/// The pieces of code on the ground of code.
pub open spec fn code_spans(pieces: Seq<PaintedView>) -> Seq<SpanView> {
    pieces.map_values(|p: PaintedView| code_span(p))
}

/// The characters of a line.
pub open spec fn line_width(line: Seq<SpanView>) -> nat
    decreases line.len(),
{
    if line.len() == 0 {
        0
    } else {
        line_width(line.drop_last()) + line.last().text.len()
    }
}

/// The look of blanks on a ground.
pub open spec fn ground(bg: Ink) -> Look {
    Look { fg: None, bg: Some(bg), bold: false, italic: false }
}

/// A line that is filled with blanks to a width.
pub open spec fn filled_line(line: Seq<SpanView>, width: nat, bg: Ink) -> Seq<SpanView> {
    if line_width(line) < width {
        line.push(
            screen::span(screen::blanks((width - line_width(line)) as nat), ground(bg)),
        )
    } else {
        line
    }
}

/// How many blanks a line needs to reach a width.
pub fn room_left(line: &TextLine, width: usize) -> (r: usize)
    ensures
        r == if line_width(line@) < width {
            width - line_width(line@)
        } else {
            0
        },
{
    let ghost all = line@;
    let mut left: usize = width;
    let mut i: usize = 0;
    assert(all.subrange(0, 0) =~= Seq::empty());
    while i < line.spans.len()
        invariant
            i <= line.spans.len(),
            all == line@,
            left == if line_width(all.subrange(0, i as int)) < width {
                width - line_width(all.subrange(0, i as int))
            } else {
                0
            },
        decreases line.spans.len() - i,
    {
        let n: usize = line.spans[i].text.as_str().unicode_len();
        proof {
            let next = all.subrange(0, i + 1);
            assert(next.drop_last() =~= all.subrange(0, i as int));
            assert(next.last() == line.spans@[i as int]@);
        }
        left = if n < left {
            left - n
        } else {
            0
        };
        i = i + 1;
    }
    assert(all.subrange(0, all.len() as int) =~= all);
    left
}

/// Fills a line with blanks to a width.
pub fn fill_line(line: &mut TextLine, width: usize, bg: Ink)
    ensures
        final(line)@ == filled_line(old(line)@, width as nat, bg),
{
    let left = room_left(line, width);
    if left > 0 {
        let pad = screen::write_blanks(left);
        line.push(pad.as_str(), Look::none().on(bg));
    }
}

/// A line of code from its pieces, without filling.
fn lay_out(pieces: &Vec<Painted>) -> (r: TextLine)
    ensures
        r@ == code_spans(text::views(pieces@)),
{
    let ghost all = text::views(pieces@);
    let mut line = TextLine::new();
    let mut i: usize = 0;
    while i < pieces.len()
        invariant
            i <= pieces.len(),
            all == text::views(pieces@),
            line@.len() == i,
            forall|k: int| 0 <= k < i ==> line@[k] == code_span(#[trigger] all[k]),
        decreases pieces.len() - i,
    {
        let p = &pieces[i];
        assert(all[i as int] == p@);
        line.push(
            p.text.as_str(),
            Look {
                fg: Some(Ink::Rgb(p.red, p.green, p.blue)),
                bg: Some(Ink::CodeBg),
                bold: false,
                italic: false,
            },
        );
        i = i + 1;
    }
    assert(line@ =~= code_spans(all));
    line
}

/// The line that shows pieces of code, filled to a width.
pub fn code_line(pieces: &Vec<Painted>, width: usize) -> (r: TextLine)
    ensures
        r@ == filled_line(code_spans(text::views(pieces@)), width as nat, Ink::CodeBg),
{
    let mut line = lay_out(pieces);
    fill_line(&mut line, width, Ink::CodeBg);
    line
}

/// A filled line reaches the width.
pub proof fn law_filled_line_reaches_width(line: Seq<SpanView>, width: nat, bg: Ink)
    ensures
        line_width(filled_line(line, width, bg)) >= width,
        line_width(line) < width ==> line_width(filled_line(line, width, bg)) == width,
{
    if line_width(line) < width {
        let pad = screen::span(screen::blanks((width - line_width(line)) as nat), ground(bg));
        assert(line.push(pad).drop_last() =~= line);
    }
}

/// Colours code with the syntaxes and the themes that come with `syntect`.
pub struct CodeHighlighter {
    ps: SyntaxSet,
    ts: ThemeSet,
}

impl CodeHighlighter {
    /// The words by which a syntax is found.
    pub closed spec fn languages(self) -> Set<Seq<char>> {
        set_words(self.ps)
    }

    /// The names of the syntaxes.
    pub closed spec fn syntaxes(self) -> Set<Seq<char>> {
        syntax_names(self.ps)
    }

    /// The names of the themes.
    pub closed spec fn themes(self) -> Set<Seq<char>> {
        theme_names(self.ts)
    }

    /// What every highlighter holds: the syntaxes that come with `syntect`, one
    /// for plain text among them, and the theme in which code is shown.
    #[verifier::type_invariant]
    spec fn holds_defaults(self) -> bool {
        &&& forall|lang: Seq<char>| #[trigger]
            self.languages().contains(lang) == known_language(lang)
        &&& self.syntaxes().contains("Plain Text"@)
        &&& self.themes().contains(THEME@)
    }

    /// A highlighter with the syntaxes and the themes that come with `syntect`.
    pub fn new() -> (r: CodeHighlighter)
        ensures
            forall|lang: Seq<char>| #[trigger]
                r.languages().contains(lang) == known_language(lang),
            r.syntaxes().contains("Plain Text"@),
            r.themes().contains(THEME@),
    {
        CodeHighlighter {
            ps: syntect::parsing::SyntaxSet::load_defaults_newlines(),
            ts: syntect::highlighting::ThemeSet::load_defaults(),
        }
    }

    /// `SyntaxSet::find_syntax_by_token` finds a syntax of the set by an extension
    /// of its files, or else by its name.
    #[verifier::external_body]
    fn knows(&self, lang: &str) -> (r: bool)
        ensures
            r == self.languages().contains(lang@),
    {
        self.ps.find_syntax_by_token(lang).is_some()
    }

    /// `HighlightLines::new` with the syntax that `SyntaxSet::find_syntax_by_token`
    /// finds: a painter that has painted nothing. The set finds a syntax for the
    /// language, and the theme is one of those at hand.
    #[verifier::external_body]
    fn painter(&self, lang: &str, theme: &str) -> (r: HighlightLines<'_>)
        requires
            self.languages().contains(lang@),
            self.themes().contains(theme@),
        ensures
            painted_so_far(r) == (Some(lang@), theme@, Seq::<Seq<char>>::empty()),
    {
        HighlightLines::new(self.ps.find_syntax_by_token(lang).unwrap(), &self.ts.themes[theme])
    }

    /// `HighlightLines::new` with the syntax that `SyntaxSet::find_syntax_plain_text`
    /// gives: the one of the set that is named for plain text.
    #[verifier::external_body]
    fn plain_painter(&self, theme: &str) -> (r: HighlightLines<'_>)
        requires
            self.syntaxes().contains("Plain Text"@),
            self.themes().contains(theme@),
        ensures
            painted_so_far(r) == (None::<Seq<char>>, theme@, Seq::<Seq<char>>::empty()),
    {
        HighlightLines::new(self.ps.find_syntax_plain_text(), &self.ts.themes[theme])
    }

    /// `HighlightLines::highlight_line` gives the pieces of the next line with their
    /// colours, and an error as no pieces. They are the beginning of the line, one
    /// behind the other.
    #[verifier::external_body]
    fn paint(&self, painter: &mut HighlightLines<'_>, line: &str) -> (r: Vec<Painted>)
        ensures
            text::views(r@) == painted_line(
                painted_so_far(*old(painter)).0,
                painted_so_far(*old(painter)).1,
                painted_so_far(*old(painter)).2,
                line@,
            ),
            code_of(text::views(r@)).is_prefix_of(line@),
            painted_so_far(*final(painter)) == (
                painted_so_far(*old(painter)).0,
                painted_so_far(*old(painter)).1,
                painted_so_far(*old(painter)).2.push(line@),
            ),
    {
        let pieces = painter.highlight_line(line, &self.ps).unwrap_or_default();
        pieces.into_iter().map(
            |p| piece(p.0.foreground.r, p.0.foreground.g, p.0.foreground.b, p.1),
        ).collect()
    }

    fn painter_for(&self, lang: &str) -> (r: HighlightLines<'_>)
        ensures
            painted_so_far(r) == (known_or_plain(lang@), THEME@, Seq::<Seq<char>>::empty()),
    {
        proof {
            use_type_invariant(self);
        }
        if self.knows(lang) {
            self.painter(lang, THEME)
        } else {
            self.plain_painter(THEME)
        }
    }

    /// Colours a line of code and fills it to a width.
    pub fn highlight_line(&self, line: &str, lang: &str, target_width: usize) -> (r: TextLine)
        ensures
            r@ == filled_line(
                code_spans(painted_for(line@, lang@)),
                target_width as nat,
                Ink::CodeBg,
            ),
            code_of(painted_for(line@, lang@)).is_prefix_of(line@),
    {
        let mut painter = self.painter_for(lang);
        let pieces = self.paint(&mut painter, line);
        code_line(&pieces, target_width)
    }

    /// Colours the lines of a text of code.
    pub fn highlight_code(&self, code: &str, lang: &str) -> (r: Vec<TextLine>)
        ensures
            text::views(r@) == painted_all(lines_with_endings(code@), lang@).map_values(
                |p: Seq<PaintedView>| code_spans(p),
            ),
    {
        let lines = split_with_endings(code);
        let mut painter = self.painter_for(lang);
        let ghost all = text::views(lines@);
        let mut out: Vec<TextLine> = Vec::new();
        let mut i: usize = 0;
        assert(all.subrange(0, 0) =~= Seq::empty());
        while i < lines.len()
            invariant
                i <= lines.len(),
                all == text::views(lines@),
                painted_so_far(painter) == (
                    known_or_plain(lang@),
                    THEME@,
                    all.subrange(0, i as int),
                ),
                out.len() == i,
                forall|k: int|
                    0 <= k < i ==> (#[trigger] out@[k])@ == code_spans(
                        painted_all(all, lang@)[k],
                    ),
            decreases lines.len() - i,
        {
            let pieces = self.paint(&mut painter, lines[i].as_str());
            out.push(lay_out(&pieces));
            assert(all[i as int] == lines@[i as int]@);
            assert(all.subrange(0, i as int).push(all[i as int]) =~= all.subrange(0, i + 1));
            i = i + 1;
        }
        assert(text::views(out@) =~= painted_all(all, lang@).map_values(
            |p: Seq<PaintedView>| code_spans(p),
        ));
        out
    }
}

/// Parts a text after each line, each with what ends it.
pub fn split_with_endings(s: &str) -> (r: Vec<String>)
    ensures
        text::views(r@) == lines_with_endings(s@),
{
    broadcast use text::lemma_views_push;

    let mut out: Vec<String> = Vec::new();
    let mut line = String::new();
    let mut i: usize = 0;
    let n: usize = s.unicode_len();
    assert(s@.subrange(0, 0) =~= Seq::empty());
    assert(text::views(out@) =~= Seq::empty());
    while i < n
        invariant
            i <= n,
            n == s@.len(),
            !ended(line@),
            out.len() > 0 ==> ended(text::views(out@).last()),
            lines_with_endings(s@.subrange(0, i as int)) == if line@.len() > 0 {
                text::views(out@).push(line@)
            } else {
                text::views(out@)
            },
        decreases n - i,
    {
        let c = s.get_char(i);
        let ghost done = text::views(out@);
        let ghost begun = line@;
        proof {
            let next = s@.subrange(0, i + 1);
            assert(next.drop_last() =~= s@.subrange(0, i as int));
            assert(next.last() == c);
            if begun.len() > 0 {
                assert(done.push(begun).last() == begun);
                assert(done.push(begun).update(done.len() as int, begun.push(c)) =~= done.push(
                    begun.push(c),
                ));
            } else {
                assert(begun.push(c) =~= seq![c]);
            }
            assert(lines_with_endings(next) =~= done.push(begun.push(c)));
        }
        line.push(c);
        if c == '\n' {
            out.push(line);
            line = String::new();
        }
        i = i + 1;
    }
    assert(s@.subrange(0, n as int) =~= s@);
    if line.as_str().unicode_len() > 0 {
        out.push(line);
    }
    out
}

/// The words of a line and what parts them, in their order; a word is marked.
pub open spec fn pieces_of(s: Seq<char>) -> Seq<(bool, Seq<char>)>
    decreases s.len(),
{
    if s.len() == 0 {
        Seq::empty()
    } else {
        let before = pieces_of(s.drop_last());
        let word = !text::white_space(s.last());
        if before.len() > 0 && before.last().0 == word {
            before.update(before.len() - 1, (word, before.last().1.push(s.last())))
        } else {
            before.push((word, seq![s.last()]))
        }
    }
}

/// A word of the language.
pub open spec fn is_keyword(w: Seq<char>) -> bool {
    ||| w == "fn"@
    ||| w == "let"@
    ||| w == "mut"@
    ||| w == "pub"@
    ||| w == "use"@
    ||| w == "const"@
    ||| w == "return"@
    ||| w == "if"@
    ||| w == "else"@
    ||| w == "match"@
    ||| w == "struct"@
    ||| w == "enum"@
}

/// A word that begins or ends as a literal does.
pub open spec fn is_literal(w: Seq<char>) -> bool {
    ||| text::has_prefix(w, seq!['"'])
    ||| text::has_suffix(w, seq!['"'])
    ||| text::has_prefix(w, seq!['\''])
}

/// The look of a word of code.
pub open spec fn word_look(w: Seq<char>) -> Look {
    let ink = if is_keyword(w) {
        Ink::Keyword
    } else if is_literal(w) {
        Ink::Literal
    } else {
        Ink::TextMain
    };
    Look { fg: Some(ink), bg: Some(Ink::CodeBg), bold: is_keyword(w), italic: false }
}

/// The piece of a line of code.
pub open spec fn piece_span(p: (bool, Seq<char>)) -> SpanView {
    screen::span(
        p.1,
        if p.0 {
            word_look(p.1)
        } else {
            ground(Ink::CodeBg)
        },
    )
}

/// A line is a comment.
pub open spec fn is_comment(line: Seq<char>) -> bool {
    let t = text::trimmed_start(line);
    text::has_prefix(t, "//"@) || text::has_prefix(t, seq!['#'])
}

/// A line of code in the colours of its words.
pub open spec fn formatted(line: Seq<char>) -> Seq<SpanView> {
    if is_comment(line) {
        seq![
            screen::span(
                line,
                Look {
                    fg: Some(Ink::Comment),
                    bg: Some(Ink::CodeBg),
                    bold: false,
                    italic: false,
                },
            ),
        ]
    } else {
        pieces_of(line).map_values(|p: (bool, Seq<char>)| piece_span(p))
    }
}

fn starts_with_char(s: &str, c: char) -> (r: bool)
    ensures
        r == text::has_prefix(s@, seq![c]),
{
    let mut mark = String::new();
    mark.push(c);
    assert(mark@ =~= seq![c]);
    text::starts_with(s, mark.as_str())
}

fn ends_with_char(s: &str, c: char) -> (r: bool)
    ensures
        r == text::has_suffix(s@, seq![c]),
{
    let mut mark = String::new();
    mark.push(c);
    assert(mark@ =~= seq![c]);
    text::ends_with(s, mark.as_str())
}

fn look_of(w: &str) -> (r: Look)
    ensures
        r == word_look(w@),
{
    let keyword = same(w, "fn") || same(w, "let") || same(w, "mut") || same(w, "pub") || same(
        w,
        "use",
    ) || same(w, "const") || same(w, "return") || same(w, "if") || same(w, "else") || same(
        w,
        "match",
    ) || same(w, "struct") || same(w, "enum");
    let ink = if keyword {
        Ink::Keyword
    } else if starts_with_char(w, '"') || ends_with_char(w, '"') || starts_with_char(w, '\'') {
        Ink::Literal
    } else {
        Ink::TextMain
    };
    Look { fg: Some(ink), bg: Some(Ink::CodeBg), bold: keyword, italic: false }
}

/// The model of marked pieces.
pub open spec fn marked(v: Seq<(bool, String)>) -> Seq<(bool, Seq<char>)> {
    v.map_values(|p: (bool, String)| (p.0, p.1@))
}

fn part(line: &str) -> (r: Vec<(bool, String)>)
    ensures
        marked(r@) == pieces_of(line@),
{
    let chars = text::chars_of(line);
    let mut out: Vec<(bool, String)> = Vec::new();
    let mut i: usize = 0;
    assert(chars@.subrange(0, 0) =~= Seq::empty());
    assert(marked(out@) =~= pieces_of(chars@.subrange(0, 0)));
    while i < chars.len()
        invariant
            i <= chars.len(),
            marked(out@) == pieces_of(chars@.subrange(0, i as int)),
        decreases chars.len() - i,
    {
        let c = chars[i];
        let word = !text::is_white_space(c);
        let ghost before = marked(out@);
        proof {
            let next = chars@.subrange(0, i + 1);
            assert(next.drop_last() =~= chars@.subrange(0, i as int));
            assert(next.last() == c);
            assert(before.len() == out@.len());
        }
        let n: usize = out.len();
        if n > 0 && out[n - 1].0 == word {
            assert(before.last() == (out@[n - 1].0, out@[n - 1].1@));
            let mut grown = out[n - 1].1.as_str().to_string();
            grown.push(c);
            out.set(n - 1, (word, grown));
            assert(marked(out@) =~= before.update(
                n - 1,
                (word, before.last().1.push(c)),
            ));
        } else {
            if n > 0 {
                assert(before.last() == (out@[n - 1].0, out@[n - 1].1@));
            }
            let mut fresh = String::new();
            fresh.push(c);
            assert(fresh@ =~= seq![c]);
            out.push((word, fresh));
            assert(marked(out@) =~= before.push((word, seq![c])));
        }
        i = i + 1;
    }
    assert(chars@.subrange(0, chars@.len() as int) =~= chars@);
    out
}

/// Colours a line of code by its words alone.
pub fn format_code_line(line: &str) -> (r: TextLine)
    ensures
        r@ == formatted(line@),
{
    let t = text::trim_start(line);
    if text::starts_with(t.as_str(), "//") || starts_with_char(t.as_str(), '#') {
        return TextLine::one(
            line,
            Look { fg: Some(Ink::Comment), bg: Some(Ink::CodeBg), bold: false, italic: false },
        );
    }
    let parts = part(line);
    let ghost all = marked(parts@);
    let mut out = TextLine::new();
    let mut i: usize = 0;
    while i < parts.len()
        invariant
            i <= parts.len(),
            all == marked(parts@),
            out@.len() == i,
            forall|k: int| 0 <= k < i ==> out@[k] == piece_span(#[trigger] all[k]),
        decreases parts.len() - i,
    {
        let p = &parts[i];
        assert(all[i as int] == (p.0, p.1@));
        let look = if p.0 {
            look_of(p.1.as_str())
        } else {
            Look::none().on(Ink::CodeBg)
        };
        out.push(p.1.as_str(), look);
        i = i + 1;
    }
    assert(out@ =~= formatted(line@));
    out
}

/// The text of marked pieces.
pub open spec fn text_of(pieces: Seq<(bool, Seq<char>)>) -> Seq<char>
    decreases pieces.len(),
{
    if pieces.len() == 0 {
        Seq::empty()
    } else {
        text_of(pieces.drop_last()) + pieces.last().1
    }
}

proof fn lemma_pieces_keep_text(s: Seq<char>)
    ensures
        text_of(pieces_of(s)) == s,
    decreases s.len(),
{
    if s.len() > 0 {
        let init = s.drop_last();
        let before = pieces_of(init);
        let after = pieces_of(s);
        lemma_pieces_keep_text(init);
        let word = !text::white_space(s.last());
        if before.len() > 0 && before.last().0 == word {
            assert(after.drop_last() =~= before.drop_last());
            assert(text_of(after) =~= text_of(before).push(s.last()));
        } else {
            assert(after.drop_last() =~= before);
            assert(text_of(after) =~= text_of(before).push(s.last()));
        }
        assert(s =~= init.push(s.last()));
    }
}

proof fn lemma_spans_keep_text(pieces: Seq<(bool, Seq<char>)>)
    ensures
        screen::plain_text(pieces.map_values(|p: (bool, Seq<char>)| piece_span(p))) == text_of(
            pieces,
        ),
    decreases pieces.len(),
{
    let spans = pieces.map_values(|p: (bool, Seq<char>)| piece_span(p));
    if pieces.len() > 0 {
        lemma_spans_keep_text(pieces.drop_last());
        assert(spans.drop_last() =~= pieces.drop_last().map_values(
            |p: (bool, Seq<char>)| piece_span(p),
        ));
    }
}

/// Colouring the words of a line changes nothing of its text.
pub proof fn law_colours_keep_text(line: Seq<char>)
    ensures
        screen::plain_text(formatted(line)) == line,
{
    if is_comment(line) {
        let one = formatted(line);
        assert(one.drop_last() =~= Seq::<SpanView>::empty());
        assert(screen::plain_text(one.drop_last()) =~= Seq::<char>::empty());
        assert(one.last().text == line);
        assert(screen::plain_text(one) =~= line);
    } else {
        lemma_spans_keep_text(pieces_of(line));
        lemma_pieces_keep_text(line);
    }
}

/// Cutting a text into lines keeps it: the lines one behind the other are the text.
pub proof fn law_cut_lines_rejoin(s: Seq<char>)
    ensures
        text::joined(lines_with_endings(s), Seq::empty()) == s,
        s.len() > 0 ==> lines_with_endings(s).len() > 0,
        forall|i: int|
            0 <= i < lines_with_endings(s).len() - 1 ==> ended(#[trigger] lines_with_endings(s)[i]),
    decreases s.len(),
{
    let none = Seq::<char>::empty();
    let now = lines_with_endings(s);
    if s.len() > 0 {
        law_cut_lines_rejoin(s.drop_last());
        let before = lines_with_endings(s.drop_last());
        if before.len() > 0 && !ended(before.last()) {
            assert(now.drop_last() =~= before.drop_last());
            assert(now.last() == before.last().push(s.last()));
            assert(text::joined(now, none) =~= text::joined(before, none).push(s.last()));
            assert forall|i: int| 0 <= i < now.len() - 1 implies ended(#[trigger] now[i]) by {
                assert(now[i] == before[i]);
            }
        } else {
            assert(now.drop_last() =~= before);
            assert(text::joined(now, none) =~= text::joined(before, none).push(s.last()));
            assert forall|i: int| 0 <= i < now.len() - 1 implies ended(#[trigger] now[i]) by {
                assert(now[i] == before[i]);
            }
        }
        assert(s =~= s.drop_last().push(s.last()));
    } else {
        assert(text::joined(now, none) =~= s);
    }
}

/// The code of coloured pieces is their texts one behind the other.
pub proof fn law_pieces_hold_code(pieces: Seq<PaintedView>, p: PaintedView)
    ensures
        code_of(Seq::empty()) == Seq::<char>::empty(),
        code_of(pieces.push(p)) == code_of(pieces) + p.text,
{
    assert(pieces.push(p).drop_last() =~= pieces);
}

} // verus!
