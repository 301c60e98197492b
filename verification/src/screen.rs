//! What is shown on the screen: lines of styled text.

use crate::text;
use vstd::prelude::*;

verus! {

/// A colour of the screen.
#[derive(Debug, Clone, Copy, PartialEq, Eq, Structural)]
pub enum Ink {
    AppBg,
    CardBg,
    CodeBg,
    InputBg,
    Border,
    TextMain,
    TextMuted,
    Accent,
    Keyword,
    Literal,
    Comment,
    DiffAddBg,
    DiffRemoveBg,
    DiffRemoveFg,
    LineNum,
    PopupBg,
    PopupSelectedBg,
    Yellow,
    Green,
    Red,
    Cyan,
    Magenta,
    Black,
    Rgb(u8, u8, u8),
}

/// The red, green and blue of a colour; nothing for a colour that the terminal
/// itself has.
pub open spec fn rgb_of(ink: Ink) -> Option<(u8, u8, u8)> {
    match ink {
        Ink::AppBg => Some((12, 12, 14)),
        Ink::CardBg => Some((24, 24, 28)),
        Ink::CodeBg => Some((16, 16, 20)),
        Ink::InputBg => Some((32, 32, 38)),
        Ink::Border => Some((45, 45, 52)),
        Ink::TextMain => Some((220, 220, 230)),
        Ink::TextMuted => Some((130, 130, 145)),
        Ink::Accent => Some((90, 165, 255)),
        Ink::Keyword => Some((205, 120, 245)),
        Ink::Literal => Some((150, 225, 140)),
        Ink::Comment => Some((110, 115, 130)),
        Ink::DiffAddBg => Some((20, 50, 35)),
        Ink::DiffRemoveBg => Some((55, 22, 28)),
        Ink::DiffRemoveFg => Some((245, 150, 150)),
        Ink::LineNum => Some((90, 95, 110)),
        Ink::PopupBg => Some((20, 20, 26)),
        Ink::PopupSelectedBg => Some((34, 34, 42)),
        Ink::Rgb(r, g, b) => Some((r, g, b)),
        _ => None,
    }
}

impl Ink {
    /// The red, green and blue of the colour.
    pub fn rgb(self) -> (r: Option<(u8, u8, u8)>)
        ensures
            r == rgb_of(self),
    {
        match self {
            Ink::AppBg => Some((12, 12, 14)),
            Ink::CardBg => Some((24, 24, 28)),
            Ink::CodeBg => Some((16, 16, 20)),
            Ink::InputBg => Some((32, 32, 38)),
            Ink::Border => Some((45, 45, 52)),
            Ink::TextMain => Some((220, 220, 230)),
            Ink::TextMuted => Some((130, 130, 145)),
            Ink::Accent => Some((90, 165, 255)),
            Ink::Keyword => Some((205, 120, 245)),
            Ink::Literal => Some((150, 225, 140)),
            Ink::Comment => Some((110, 115, 130)),
            Ink::DiffAddBg => Some((20, 50, 35)),
            Ink::DiffRemoveBg => Some((55, 22, 28)),
            Ink::DiffRemoveFg => Some((245, 150, 150)),
            Ink::LineNum => Some((90, 95, 110)),
            Ink::PopupBg => Some((20, 20, 26)),
            Ink::PopupSelectedBg => Some((34, 34, 42)),
            Ink::Rgb(r, g, b) => Some((r, g, b)),
            _ => None,
        }
    }
}

/// How a text is shown.
#[derive(Debug, Clone, Copy, PartialEq, Eq, Structural)]
pub struct Look {
    pub fg: Option<Ink>,
    pub bg: Option<Ink>,
    pub bold: bool,
    pub italic: bool,
}

/// A plain look in a colour.
pub open spec fn in_ink(ink: Ink) -> Look {
    Look { fg: Some(ink), bg: None, bold: false, italic: false }
}

/// A bold look in a colour.
pub open spec fn in_bold(ink: Ink) -> Look {
    Look { fg: Some(ink), bg: None, bold: true, italic: false }
}

/// The look of what is not styled.
pub open spec fn unstyled() -> Look {
    Look { fg: None, bg: None, bold: false, italic: false }
}

impl Look {
    pub fn plain(ink: Ink) -> (r: Look)
        ensures
            r == in_ink(ink),
    {
        Look { fg: Some(ink), bg: None, bold: false, italic: false }
    }

    pub fn strong(ink: Ink) -> (r: Look)
        ensures
            r == in_bold(ink),
    {
        Look { fg: Some(ink), bg: None, bold: true, italic: false }
    }

    pub fn none() -> (r: Look)
        ensures
            r == unstyled(),
    {
        Look { fg: None, bg: None, bold: false, italic: false }
    }

    /// The same look on another ground.
    pub fn on(self, bg: Ink) -> (r: Look)
        ensures
            r == (Look { bg: Some(bg), ..self }),
    {
        Look { fg: self.fg, bg: Some(bg), bold: self.bold, italic: self.italic }
    }
}

/// A piece of text in one look.
#[derive(Debug, PartialEq)]
pub struct Span {
    pub text: String,
    pub look: Look,
}

/// The model of a piece of text.
#[verifier::ext_equal]
pub struct SpanView {
    pub text: Seq<char>,
    pub look: Look,
}

impl View for Span {
    type V = SpanView;

    open spec fn view(&self) -> SpanView {
        SpanView { text: self.text@, look: self.look }
    }
}

/// A piece of text in a look.
pub open spec fn span(text: Seq<char>, look: Look) -> SpanView {
    SpanView { text, look }
}

impl Span {
    pub fn new(text: &str, look: Look) -> (r: Span)
        ensures
            r@ == span(text@, look),
    {
        Span { text: text.to_string(), look }
    }

    pub fn copy(&self) -> (r: Span)
        ensures
            r@ == self@,
    {
        Span { text: self.text.as_str().to_string(), look: self.look }
    }
}

/// A line of the screen.
#[derive(Debug, PartialEq)]
pub struct TextLine {
    pub spans: Vec<Span>,
}

impl View for TextLine {
    type V = Seq<SpanView>;

    open spec fn view(&self) -> Seq<SpanView> {
        text::views(self.spans@)
    }
}

/// The text of a line, whatever it looks like.
pub open spec fn plain_text(line: Seq<SpanView>) -> Seq<char>
    decreases line.len(),
{
    if line.len() == 0 {
        Seq::empty()
    } else {
        plain_text(line.drop_last()) + line.last().text
    }
}

impl TextLine {
    /// A line of one piece.
    pub fn one(text: &str, look: Look) -> (r: TextLine)
        ensures
            r@ == seq![span(text@, look)],
    {
        let mut spans: Vec<Span> = Vec::new();
        spans.push(Span::new(text, look));
        let r = TextLine { spans };
        assert(r@ =~= seq![span(text@, look)]);
        r
    }

    /// A line of two pieces.
    pub fn two(a: &str, la: Look, b: &str, lb: Look) -> (r: TextLine)
        ensures
            r@ == seq![span(a@, la), span(b@, lb)],
    {
        let mut r = TextLine::one(a, la);
        r.push(b, lb);
        assert(r@ =~= seq![span(a@, la), span(b@, lb)]);
        r
    }

    /// A line of three pieces.
    pub fn three(a: &str, la: Look, b: &str, lb: Look, c: &str, lc: Look) -> (r: TextLine)
        ensures
            r@ == seq![span(a@, la), span(b@, lb), span(c@, lc)],
    {
        let mut r = TextLine::two(a, la, b, lb);
        r.push(c, lc);
        assert(r@ =~= seq![span(a@, la), span(b@, lb), span(c@, lc)]);
        r
    }

    /// A line without text.
    pub fn blank() -> (r: TextLine)
        ensures
            r@ == seq![span(""@, unstyled())],
    {
        TextLine::one("", Look::none())
    }

    /// A line of no pieces yet.
    pub fn new() -> (r: TextLine)
        ensures
            r@ == Seq::<SpanView>::empty(),
    {
        let r = TextLine { spans: Vec::new() };
        assert(r@ =~= Seq::<SpanView>::empty());
        r
    }

    /// Puts a piece at the end of the line.
    pub fn push(&mut self, text: &str, look: Look)
        ensures
            final(self)@ == old(self)@.push(span(text@, look)),
    {
        self.spans.push(Span::new(text, look));
        assert(self@ =~= old(self)@.push(span(text@, look)));
    }

    pub fn copy(&self) -> (r: TextLine)
        ensures
            r@ == self@,
    {
        let mut spans: Vec<Span> = Vec::new();
        let mut i: usize = 0;
        while i < self.spans.len()
            invariant
                i <= self.spans.len(),
                spans.len() == i,
                forall|k: int| 0 <= k < i ==> (#[trigger] spans@[k])@ == self.spans@[k]@,
            decreases self.spans.len() - i,
        {
            spans.push(self.spans[i].copy());
            i = i + 1;
        }
        let r = TextLine { spans };
        assert(r@ =~= self@);
        r
    }
}

/// A copy of lines.
pub fn copy_lines(v: &Vec<TextLine>) -> (r: Vec<TextLine>)
    ensures
        text::views(r@) == text::views(v@),
{
    let mut out: Vec<TextLine> = Vec::new();
    let mut i: usize = 0;
    while i < v.len()
        invariant
            i <= v.len(),
            out.len() == i,
            forall|k: int| 0 <= k < i ==> (#[trigger] out@[k])@ == v@[k]@,
        decreases v.len() - i,
    {
        out.push(v[i].copy());
        i = i + 1;
    }
    assert(text::views(out@) =~= text::views(v@));
    out
}

/// A text of blanks.
pub open spec fn blanks(n: nat) -> Seq<char> {
    Seq::new(n, |i: int| ' ')
}

/// Writes blanks.
pub fn write_blanks(n: usize) -> (r: String)
    ensures
        r@ == blanks(n as nat),
{
    let r = text::pad("", n);
    proof {
        reveal_strlit("");
    }
    assert(r@ =~= blanks(n as nat));
    r
}

/// A text with blanks before it, so that it reaches a width.
pub open spec fn right_aligned(s: Seq<char>, width: nat) -> Seq<char> {
    if s.len() < width {
        blanks((width - s.len()) as nat) + s
    } else {
        s
    }
}

/// Puts blanks before a text, so that it reaches a width.
pub fn align_right(s: &str, width: usize) -> (r: String)
    ensures
        r@ == right_aligned(s@, width as nat),
{
    let n: usize = s.unicode_len();
    if n < width {
        let pad = write_blanks(width - n);
        text::cat2(pad.as_str(), s)
    } else {
        s.to_string()
    }
}

} // verus!
