//! The line that the user types, and the breaking of long texts.

use crate::text;
use crate::tools;
use crate::tools::byte_len;
use vstd::prelude::*;

verus! {

/// The smaller of a position and the end of a text.
pub open spec fn within(pos: nat, len: nat) -> int {
    if pos < len {
        pos as int
    } else {
        len as int
    }
}

/// The byte at which a character stands; the end of the text where it has no
/// such character.
pub fn char_to_byte(text: &str, char_pos: usize) -> (r: usize)
    ensures
        r == tools::bytes(text@.take(within(char_pos as nat, text@.len()))).len(),
{
    let n: usize = text.unicode_len();
    let at: usize = if char_pos < n {
        char_pos
    } else {
        n
    };
    let head = text::prefix(text, at);
    assert(head@ =~= text@.take(at as int));
    byte_len(head.as_str())
}

/// Further characters stand at further bytes, none beyond the end.
pub proof fn law_char_positions_grow(s: Seq<char>, a: nat, b: nat)
    requires
        a <= b,
    ensures
        tools::bytes(s.take(within(a, s.len()))).len() <= tools::bytes(
            s.take(within(b, s.len())),
        ).len() <= tools::bytes(s).len(),
{
    lemma_prefix_bytes(s, within(a, s.len()), within(b, s.len()));
    lemma_prefix_bytes(s, within(b, s.len()), s.len() as int);
    assert(s.take(s.len() as int) =~= s);
}

proof fn lemma_bytes_concat(a: Seq<char>, b: Seq<char>)
    ensures
        tools::bytes(a + b) == tools::bytes(a) + tools::bytes(b),
    decreases a.len(),
{
    if a.len() == 0 {
        assert(a + b =~= b);
        assert(tools::bytes(a) + tools::bytes(b) =~= tools::bytes(b));
    } else {
        lemma_bytes_concat(a.drop_first(), b);
        assert((a + b).drop_first() =~= a.drop_first() + b);
        assert(tools::bytes(a + b) =~= tools::bytes(a) + tools::bytes(b));
    }
}

proof fn lemma_prefix_bytes(s: Seq<char>, a: int, b: int)
    requires
        0 <= a <= b <= s.len(),
    ensures
        tools::bytes(s.take(a)).len() <= tools::bytes(s.take(b)).len(),
{
    let head = s.take(a);
    let tail = s.subrange(a, b);
    assert(s.take(b) =~= head + tail);
    lemma_bytes_concat(head, tail);
}

/// The words of a text: those that are complete, and the one that goes on.
pub open spec fn words_so_far(s: Seq<char>) -> (Seq<Seq<char>>, Seq<char>)
    decreases s.len(),
{
    if s.len() == 0 {
        (Seq::empty(), Seq::empty())
    } else {
        let before = words_so_far(s.drop_last());
        if !text::white_space(s.last()) {
            (before.0, before.1.push(s.last()))
        } else if before.1.len() == 0 {
            before
        } else {
            (before.0.push(before.1), Seq::empty())
        }
    }
}

/// A list with one more text, if there is any text.
pub open spec fn closed_off(p: (Seq<Seq<char>>, Seq<char>)) -> Seq<Seq<char>> {
    if p.1.len() == 0 {
        p.0
    } else {
        p.0.push(p.1)
    }
}

/// The words of a text, which white space parts.
pub open spec fn words(s: Seq<char>) -> Seq<Seq<char>> {
    closed_off(words_so_far(s))
}

/// Splits a text at white space.
pub fn split_words(s: &str) -> (r: Vec<String>)
    ensures
        text::views(r@) == words(s@),
{
    broadcast use text::lemma_views_push;

    let chars = text::chars_of(s);
    let mut done: Vec<String> = Vec::new();
    let mut word = String::new();
    let mut i: usize = 0;
    assert(chars@.subrange(0, 0) =~= Seq::empty());
    assert(text::views(done@) =~= Seq::empty());
    assert(word@ =~= Seq::empty());
    while i < chars.len()
        invariant
            i <= chars.len(),
            words_so_far(chars@.subrange(0, i as int)) == (text::views(done@), word@),
        decreases chars.len() - i,
    {
        let c = chars[i];
        proof {
            let next = chars@.subrange(0, i + 1);
            assert(next.drop_last() =~= chars@.subrange(0, i as int));
            assert(next.last() == c);
        }
        if !text::is_white_space(c) {
            word.push(c);
        } else if word.as_str().unicode_len() > 0 {
            done.push(word);
            word = String::new();
            assert(word@ =~= Seq::empty());
        }
        i = i + 1;
    }
    assert(chars@.subrange(0, chars@.len() as int) =~= chars@);
    if word.as_str().unicode_len() > 0 {
        done.push(word);
    }
    done
}

/// Words in lines of at most `width` bytes: the lines that are full, and the
/// one that goes on. A longer word has a line of its own.
pub open spec fn filled(ws: Seq<Seq<char>>, width: nat) -> (Seq<Seq<char>>, Seq<char>)
    decreases ws.len(),
{
    if ws.len() == 0 {
        (Seq::empty(), Seq::empty())
    } else {
        let before = filled(ws.drop_last(), width);
        let word = ws.last();
        if before.1.len() == 0 {
            (before.0, word)
        } else if tools::bytes(before.1).len() + 1 + tools::bytes(word).len() <= width {
            (before.0, before.1.push(' ') + word)
        } else {
            (before.0.push(before.1), word)
        }
    }
}

/// The lines of a paragraph.
pub open spec fn paragraph_lines(p: Seq<char>, width: nat) -> Seq<Seq<char>> {
    if p.len() == 0 {
        seq![Seq::empty()]
    } else {
        closed_off(filled(words(p), width))
    }
}

/// The lines of paragraphs.
pub open spec fn paragraphs_lines(ps: Seq<Seq<char>>, width: nat) -> Seq<Seq<char>>
    decreases ps.len(),
{
    if ps.len() == 0 {
        Seq::empty()
    } else {
        paragraphs_lines(ps.drop_last(), width) + paragraph_lines(ps.last(), width)
    }
}

/// The lines of a text that is broken at a width; width 0 breaks nothing.
pub open spec fn wrapped(s: Seq<char>, width: nat) -> Seq<Seq<char>> {
    if width == 0 {
        seq![s]
    } else {
        let lines = paragraphs_lines(text::parts(s, '\n'), width);
        if lines.len() == 0 {
            seq![Seq::empty()]
        } else {
            lines
        }
    }
}

fn fill_paragraph(p: &str, width: usize) -> (r: Vec<String>)
    ensures
        text::views(r@) == paragraph_lines(p@, width as nat),
{
    broadcast use text::lemma_views_push;

    let mut lines: Vec<String> = Vec::new();
    assert(text::views(lines@) =~= Seq::empty());
    if p.unicode_len() == 0 {
        let none = String::new();
        assert(none@ =~= Seq::empty());
        lines.push(none);
        return lines;
    }
    let ws = split_words(p);
    let ghost all = text::views(ws@);
    let mut line = String::new();
    let mut i: usize = 0;
    assert(all.subrange(0, 0) =~= Seq::empty());
    assert(line@ =~= Seq::empty());
    while i < ws.len()
        invariant
            i <= ws.len(),
            all == text::views(ws@),
            filled(all.subrange(0, i as int), width as nat) == (text::views(lines@), line@),
        decreases ws.len() - i,
    {
        let word = ws[i].as_str();
        proof {
            let next = all.subrange(0, i + 1);
            assert(next.drop_last() =~= all.subrange(0, i as int));
            assert(next.last() == word@);
        }
        let used: usize = byte_len(line.as_str());
        let more: usize = byte_len(word);
        if line.as_str().unicode_len() == 0 {
            line = word.to_string();
        } else if used < width && more <= width - used - 1 {
            line.push(' ');
            line.append(word);
        } else {
            lines.push(line);
            line = word.to_string();
        }
        i = i + 1;
    }
    assert(all.subrange(0, all.len() as int) =~= all);
    if line.as_str().unicode_len() > 0 {
        lines.push(line);
    }
    lines
}

/// Breaks a text into lines of at most `width` bytes.
pub fn wrap_text(text: &str, width: usize) -> (r: Vec<String>)
    ensures
        text::views(r@) == wrapped(text@, width as nat),
{
    broadcast use text::lemma_views_push;

    let mut lines: Vec<String> = Vec::new();
    assert(text::views(lines@) =~= Seq::empty());
    if width == 0 {
        lines.push(text.to_string());
        return lines;
    }
    let ps = text::split(text, '\n');
    let ghost all = text::views(ps@);
    let mut i: usize = 0;
    assert(all.subrange(0, 0) =~= Seq::empty());
    while i < ps.len()
        invariant
            i <= ps.len(),
            all == text::views(ps@),
            text::views(lines@) == paragraphs_lines(all.subrange(0, i as int), width as nat),
        decreases ps.len() - i,
    {
        proof {
            let next = all.subrange(0, i + 1);
            assert(next.drop_last() =~= all.subrange(0, i as int));
            assert(next.last() == ps@[i as int]@);
        }
        let mut more = fill_paragraph(ps[i].as_str(), width);
        let ghost before = lines@;
        let ghost added = more@;
        lines.append(&mut more);
        assert(text::views(lines@) =~= text::views(before) + text::views(added));
        i = i + 1;
    }
    assert(all.subrange(0, all.len() as int) =~= all);
    if lines.len() == 0 {
        let none = String::new();
        assert(none@ =~= Seq::empty());
        lines.push(none);
    }
    lines
}

/// A broken line is no longer than the width, or it is a single word.
pub proof fn law_wrapped_lines_fit(ws: Seq<Seq<char>>, width: nat)
    ensures
        forall|k: int|
            0 <= k < closed_off(filled(ws, width)).len() ==> {
                let line = #[trigger] closed_off(filled(ws, width))[k];
                tools::bytes(line).len() <= width || ws.contains(line)
            },
    decreases ws.len(),
{
    if ws.len() > 0 {
        let init = ws.drop_last();
        let word = ws.last();
        law_wrapped_lines_fit(init, width);
        let before = filled(init, width);
        let after = filled(ws, width);
        assert(ws[ws.len() - 1] == word);
        assert forall|k: int| 0 <= k < closed_off(after).len() implies {
            let line = #[trigger] closed_off(after)[k];
            tools::bytes(line).len() <= width || ws.contains(line)
        } by {
            let line = closed_off(after)[k];
            if k < before.0.len() {
                assert(line == closed_off(before)[k]);
                if init.contains(line) {
                    let j = choose|j: int| 0 <= j < init.len() && init[j] == line;
                    assert(ws[j] == line);
                }
            } else if before.1.len() == 0 {
                assert(line == word);
            } else if tools::bytes(before.1).len() + 1 + tools::bytes(word).len() <= width {
                assert(line == before.1.push(' ') + word);
                lemma_joined_bytes(before.1, word);
            } else if k == before.0.len() {
                assert(line == before.1);
                assert(line == closed_off(before)[k]);
                if init.contains(line) {
                    let j = choose|j: int| 0 <= j < init.len() && init[j] == line;
                    assert(ws[j] == line);
                }
            } else {
                assert(line == word);
            }
        }
    }
}

proof fn lemma_joined_bytes(a: Seq<char>, b: Seq<char>)
    ensures
        tools::bytes(a.push(' ') + b).len() == tools::bytes(a).len() + 1 + tools::bytes(b).len(),
{
    let blank = seq![' '];
    assert(a.push(' ') =~= a + blank);
    lemma_bytes_concat(a, blank);
    lemma_bytes_concat(a + blank, b);
    assert(tools::bytes(blank).len() == 1) by {
        reveal_with_fuel(vstd::utf8::encode_utf8, 2);
        assert(blank.drop_first() =~= Seq::<char>::empty());
    }
}

/// The line that the user types, and where the cursor stands in it.
#[derive(Debug, PartialEq)]
pub struct InputLine {
    pub text: String,
    pub pos: usize,
}

/// The model of the line.
#[verifier::ext_equal]
pub struct InputView {
    pub text: Seq<char>,
    pub pos: nat,
}

impl View for InputLine {
    type V = InputView;

    open spec fn view(&self) -> InputView {
        InputView { text: self.text@, pos: self.pos as nat }
    }
}

impl InputView {
    /// The cursor stands within the line.
    pub open spec fn wf(self) -> bool {
        self.pos <= self.text.len()
    }

    /// An empty line.
    pub open spec fn empty() -> InputView {
        InputView { text: Seq::empty(), pos: 0 }
    }

    /// What stands before the cursor.
    pub open spec fn before(self) -> Seq<char> {
        self.text.take(within(self.pos, self.text.len()))
    }

    /// The line with a text put in at the cursor, which then stands behind it.
    pub open spec fn typed(self, s: Seq<char>) -> InputView {
        let at = within(self.pos, self.text.len());
        InputView {
            text: self.text.take(at) + s + self.text.skip(at),
            pos: (self.pos + s.len()) as nat,
        }
    }

    /// The line without the character before the cursor.
    pub open spec fn erased(self) -> InputView {
        if self.pos == 0 || self.text.len() == 0 {
            self
        } else {
            let from = within((self.pos - 1) as nat, self.text.len());
            let to = within(self.pos, self.text.len());
            InputView {
                text: self.text.take(from) + self.text.skip(to),
                pos: (self.pos - 1) as nat,
            }
        }
    }

    /// The line without the character at the cursor.
    pub open spec fn deleted(self) -> InputView {
        if self.pos >= self.text.len() {
            self
        } else {
            InputView {
                text: self.text.take(self.pos as int) + self.text.skip(self.pos as int + 1),
                pos: self.pos,
            }
        }
    }

    pub open spec fn left(self) -> InputView {
        if self.pos > 0 {
            InputView { pos: (self.pos - 1) as nat, ..self }
        } else {
            self
        }
    }

    pub open spec fn right(self) -> InputView {
        if self.pos < self.text.len() {
            InputView { pos: self.pos + 1, ..self }
        } else {
            self
        }
    }

    pub open spec fn home(self) -> InputView {
        InputView { pos: 0, ..self }
    }

    pub open spec fn end(self) -> InputView {
        InputView { pos: self.text.len(), ..self }
    }
}

/// A text on one line: each line break is a blank.
pub open spec fn on_one_line(s: Seq<char>) -> Seq<char> {
    s.map_values(
        |c: char|
            if c == '\n' || c == '\r' {
                ' '
            } else {
                c
            },
    )
}

/// Whatever is typed, the cursor stays within the line.
pub proof fn law_cursor_stays_within(v: InputView, s: Seq<char>)
    requires
        v.wf(),
    ensures
        v.typed(s).wf(),
        v.erased().wf(),
        v.deleted().wf(),
        v.left().wf(),
        v.right().wf(),
        v.home().wf(),
        v.end().wf(),
{
}

/// Erasing takes back the character that was typed last.
pub proof fn law_erase_undoes_typing(v: InputView, c: char)
    requires
        v.wf(),
    ensures
        v.typed(seq![c]).erased() == v,
{
    let t = v.typed(seq![c]);
    let at = v.pos as int;
    assert(t.text.take(at) =~= v.text.take(at));
    assert(t.text.skip(at + 1) =~= v.text.skip(at));
    assert(t.erased().text =~= v.text);
}

impl InputLine {
    pub fn new() -> (r: InputLine)
        ensures
            r@ == InputView::empty(),
    {
        let r = InputLine { text: String::new(), pos: 0 };
        assert(r@.text =~= Seq::empty());
        r
    }

    pub fn is_empty(&self) -> (r: bool)
        ensures
            r == (self@.text.len() == 0),
    {
        self.text.as_str().unicode_len() == 0
    }

    fn at(&self) -> (r: usize)
        ensures
            r == within(self@.pos, self@.text.len()),
    {
        let n: usize = self.text.as_str().unicode_len();
        if self.pos < n {
            self.pos
        } else {
            n
        }
    }

    /// What stands before the cursor.
    pub fn before(&self) -> (r: String)
        ensures
            r@ == self@.before(),
    {
        let at = self.at();
        let r = text::prefix(self.text.as_str(), at);
        assert(r@ =~= self@.before());
        r
    }

    /// Puts a text in at the cursor.
    pub fn insert(&mut self, s: &str)
        requires
            old(self)@.pos + s@.len() <= usize::MAX,
        ensures
            final(self)@ == old(self)@.typed(s@),
    {
        let at = self.at();
        let head = text::prefix(self.text.as_str(), at);
        let tail = text::suffix(self.text.as_str(), at);
        self.text = text::cat3(head.as_str(), s, tail.as_str());
        self.pos = self.pos + s.unicode_len();
        assert(self@.text =~= old(self)@.typed(s@).text);
    }

    /// Puts a character in at the cursor.
    pub fn type_char(&mut self, c: char)
        requires
            old(self)@.pos < usize::MAX,
        ensures
            final(self)@ == old(self)@.typed(seq![c]),
    {
        let mut s = String::new();
        s.push(c);
        assert(s@ =~= seq![c]);
        self.insert(s.as_str());
    }

    /// Takes out the character before the cursor.
    pub fn backspace(&mut self)
        ensures
            final(self)@ == old(self)@.erased(),
    {
        if self.pos > 0 && !self.is_empty() {
            let n: usize = self.text.as_str().unicode_len();
            let to = self.at();
            let from: usize = if self.pos - 1 < n {
                self.pos - 1
            } else {
                n
            };
            let head = text::prefix(self.text.as_str(), from);
            let tail = text::suffix(self.text.as_str(), to);
            self.text = text::cat2(head.as_str(), tail.as_str());
            self.pos = self.pos - 1;
            assert(self@.text =~= old(self)@.erased().text);
        }
    }

    /// Takes out the character at the cursor.
    pub fn delete(&mut self)
        ensures
            final(self)@ == old(self)@.deleted(),
    {
        let n: usize = self.text.as_str().unicode_len();
        if self.pos < n {
            let head = text::prefix(self.text.as_str(), self.pos);
            let tail = text::suffix(self.text.as_str(), self.pos + 1);
            self.text = text::cat2(head.as_str(), tail.as_str());
            assert(self@.text =~= old(self)@.deleted().text);
        }
    }

    pub fn left(&mut self)
        ensures
            final(self)@ == old(self)@.left(),
    {
        if self.pos > 0 {
            self.pos = self.pos - 1;
        }
    }

    pub fn right(&mut self)
        ensures
            final(self)@ == old(self)@.right(),
    {
        let n: usize = self.text.as_str().unicode_len();
        if self.pos < n {
            self.pos = self.pos + 1;
        }
    }

    pub fn home(&mut self)
        ensures
            final(self)@ == old(self)@.home(),
    {
        self.pos = 0;
    }

    pub fn end(&mut self)
        ensures
            final(self)@ == old(self)@.end(),
    {
        self.pos = self.text.as_str().unicode_len();
    }

    /// Takes the text out and leaves the line empty.
    pub fn take(&mut self) -> (r: String)
        ensures
            r@ == old(self)@.text,
            final(self)@ == InputView::empty(),
    {
        let r = self.text.as_str().to_string();
        self.text = String::new();
        self.pos = 0;
        assert(self@.text =~= Seq::empty());
        r
    }
}

/// Writes a pasted text on one line.
pub fn one_line(s: &str) -> (r: String)
    ensures
        r@ == on_one_line(s@),
{
    let chars = text::chars_of(s);
    let mut out = String::new();
    let mut i: usize = 0;
    assert(out@ =~= Seq::empty());
    while i < chars.len()
        invariant
            i <= chars.len(),
            out@.len() == i,
            forall|k: int| 0 <= k < i ==> out@[k] == #[trigger] on_one_line(chars@)[k],
        decreases chars.len() - i,
    {
        let c = chars[i];
        if c == '\n' || c == '\r' {
            out.push(' ');
        } else {
            out.push(c);
        }
        i = i + 1;
    }
    assert(out@ =~= on_one_line(s@));
    out
}

proof fn lemma_words_go_on(a: Seq<char>, c: char, b: Seq<char>)
    requires
        text::white_space(c),
    ensures
        words_so_far(a + seq![c] + b).0 == words(a) + words_so_far(b).0,
        words_so_far(a + seq![c] + b).1 == words_so_far(b).1,
    decreases b.len(),
{
    let all = a + seq![c] + b;
    if b.len() == 0 {
        assert(all.drop_last() =~= a);
        assert(all.last() == c);
        assert(words(a) + words_so_far(b).0 =~= words(a));
    } else {
        assert(all.drop_last() =~= a + seq![c] + b.drop_last());
        assert(all.last() == b.last());
        lemma_words_go_on(a, c, b.drop_last());
        let before = words_so_far(b.drop_last());
        assert(words(a) + before.0.push(before.1) =~= (words(a) + before.0).push(before.1));
    }
}

proof fn lemma_one_word(w: Seq<char>)
    requires
        forall|i: int| 0 <= i < w.len() ==> !text::white_space(#[trigger] w[i]),
    ensures
        words_so_far(w).0.len() == 0,
        words_so_far(w).1 == w,
    decreases w.len(),
{
    if w.len() > 0 {
        let before = w.drop_last();
        assert forall|i: int| 0 <= i < before.len() implies !text::white_space(
            #[trigger] before[i],
        ) by {
            assert(before[i] == w[i]);
        }
        lemma_one_word(before);
        assert(!text::white_space(w[w.len() - 1]));
        assert(before.push(w.last()) =~= w);
    }
}

/// White space parts words: two texts with white space between them have the words of the one and
/// then those of the other. A text without white space is one word, and an empty one none.
pub proof fn law_white_space_parts_words(a: Seq<char>, c: char, b: Seq<char>)
    requires
        text::white_space(c),
    ensures
        words(a + seq![c] + b) == words(a) + words(b),
        a.len() > 0 && (forall|i: int| 0 <= i < a.len() ==> !text::white_space(#[trigger] a[i]))
            ==> words(a) == seq![a],
        words(Seq::empty()).len() == 0,
{
    lemma_words_go_on(a, c, b);
    assert(words(a + seq![c] + b) =~= words(a) + words(b));
    if a.len() > 0 && (forall|i: int|
        0 <= i < a.len() ==> !text::white_space(#[trigger] a[i])) {
        lemma_one_word(a);
        assert(words(a) =~= seq![a]);
    }
}

/// What is typed stands at the cursor, between what stood before and behind it; deleting takes out
/// the character at the cursor and no other; moving changes no text.
pub proof fn law_typing_goes_to_cursor(v: InputView, s: Seq<char>)
    requires
        v.wf(),
    ensures
        ({
            let n = v.text.len() as int;
            let p = v.pos as int;
            &&& v.typed(s).text == v.text.subrange(0, p) + s + v.text.subrange(p, n)
            &&& v.typed(s).pos == v.pos + s.len()
            &&& p < n ==> v.deleted().text == v.text.subrange(0, p) + v.text.subrange(p + 1, n)
                && v.deleted().pos == v.pos
            &&& p == n ==> v.deleted() == v
            &&& p > 0 ==> v.erased().text == v.text.subrange(0, p - 1) + v.text.subrange(p, n)
                && v.erased().pos == p - 1
            &&& p == 0 ==> v.erased() == v
            &&& v.left().text == v.text && v.left().pos == if p > 0 {
                p - 1
            } else {
                0
            }
            &&& v.right().text == v.text && v.right().pos == if p < n {
                p + 1
            } else {
                n
            }
            &&& v.home().text == v.text && v.home().pos == 0
            &&& v.end().text == v.text && v.end().pos == n
            &&& v.before() == v.text.subrange(0, p)
        }),
{
    let n = v.text.len() as int;
    let p = v.pos as int;
    assert(v.typed(s).text =~= v.text.subrange(0, p) + s + v.text.subrange(p, n));
    if p < n {
        assert(v.deleted().text =~= v.text.subrange(0, p) + v.text.subrange(p + 1, n));
    }
    if p > 0 {
        assert(v.erased().text =~= v.text.subrange(0, p - 1) + v.text.subrange(p, n));
    }
    assert(v.before() =~= v.text.subrange(0, p));
}

/// A text on one line has blanks where it had line breaks, and is the same elsewhere.
pub proof fn law_line_breaks_are_blanks(s: Seq<char>)
    ensures
        on_one_line(s).len() == s.len(),
        forall|i: int|
            #![trigger s[i]]
            0 <= i < s.len() ==> (s[i] == '\n' || s[i] == '\r' ==> on_one_line(s)[i] == ' ') && (s[i]
                != '\n' && s[i] != '\r' ==> on_one_line(s)[i] == s[i]),
{
}

/// Breaking a paragraph into lines loses no word and changes no order: the lines with blanks
/// between them are the words with blanks between them.
pub proof fn law_wrapping_keeps_words(ws: Seq<Seq<char>>, width: nat)
    requires
        forall|i: int| 0 <= i < ws.len() ==> (#[trigger] ws[i]).len() > 0,
    ensures
        text::joined(closed_off(filled(ws, width)), seq![' ']) == text::joined(ws, seq![' ']),
        ws.len() > 0 ==> filled(ws, width).1.len() > 0,
    decreases ws.len(),
{
    if ws.len() == 0 {
        assert(closed_off(filled(ws, width)) =~= ws);
    } else {
        let init = ws.drop_last();
        let word = ws.last();
        assert(ws[ws.len() - 1].len() > 0);
        assert forall|i: int| 0 <= i < init.len() implies (#[trigger] init[i]).len() > 0 by {
            assert(init[i] == ws[i]);
        }
        law_wrapping_keeps_words(init, width);
        let before = filled(init, width);
        let after = filled(ws, width);
        let blank = seq![' '];
        if init.len() == 0 {
            assert(before.1.len() == 0);
            assert(closed_off(after) =~= ws);
        } else {
            let lines = before.0.push(before.1);
            assert(lines.drop_last() =~= before.0);
            assert(text::joined(ws, blank) == text::joined(init, blank) + blank + word);
            if after.0 == before.0 && after.1 == before.1.push(' ') + word {
                let now = after.0.push(after.1);
                assert(now.drop_last() =~= before.0);
                assert(text::joined(now, blank) =~= text::joined(lines, blank) + blank + word);
            } else {
                let now = after.0.push(after.1);
                assert(now.drop_last() =~= lines);
                assert(text::joined(now, blank) == text::joined(lines, blank) + blank + word);
            }
        }
    }
}

} // verus!
