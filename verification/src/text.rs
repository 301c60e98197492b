//! Operations on text, stated over sequences of characters.

use vstd::prelude::*;

verus! {

/// Appends one character (`String::push`): the text grows by exactly that character.
pub assume_specification[ String::push ](s: &mut String, c: char)
    ensures
        final(s)@ == old(s)@.push(c),
;

/// The characters that carry the Unicode property `White_Space`.
pub open spec fn white_space(c: char) -> bool {
    ||| '\u{9}' <= c <= '\u{d}'
    ||| c == '\u{20}'
    ||| c == '\u{85}'
    ||| c == '\u{a0}'
    ||| c == '\u{1680}'
    ||| '\u{2000}' <= c <= '\u{200a}'
    ||| c == '\u{2028}'
    ||| c == '\u{2029}'
    ||| c == '\u{202f}'
    ||| c == '\u{205f}'
    ||| c == '\u{3000}'
}

pub fn is_white_space(c: char) -> (r: bool)
    ensures
        r == white_space(c),
{
    ('\u{9}' <= c && c <= '\u{d}') || c == '\u{20}' || c == '\u{85}' || c == '\u{a0}' || c
        == '\u{1680}' || ('\u{2000}' <= c && c <= '\u{200a}') || c == '\u{2028}' || c == '\u{2029}'
        || c == '\u{202f}' || c == '\u{205f}' || c == '\u{3000}'
}

/// The characters of a text, one by one.
pub fn chars_of(s: &str) -> (r: Vec<char>)
    ensures
        r@ == s@,
{
    let mut out: Vec<char> = Vec::new();
    for c in it: s.chars()
        invariant
            it.seq() == s@,
            out@ == s@.subrange(0, it.index() as int),
    {
        out.push(c);
        assert(out@ == s@.subrange(0, it.index() + 1));
    }
    assert(s@.subrange(0, s@.len() as int) == s@);
    out
}

/// The text made of the characters `from..to` of `chars`.
pub fn text_of(chars: &Vec<char>, from: usize, to: usize) -> (r: String)
    requires
        from <= to <= chars@.len(),
    ensures
        r@ == chars@.subrange(from as int, to as int),
{
    let mut out = String::new();
    let mut i: usize = from;
    while i < to
        invariant
            from <= i <= to <= chars@.len(),
            out@ == chars@.subrange(from as int, i as int),
        decreases to - i,
    {
        out.push(chars[i]);
        i = i + 1;
        assert(out@ == chars@.subrange(from as int, i as int));
    }
    out
}

/// Whether two texts hold the same characters.
pub fn same(a: &str, b: &str) -> (r: bool)
    ensures
        r == (a@ == b@),
{
    let x = chars_of(a);
    let y = chars_of(b);
    if x.len() != y.len() {
        return false;
    }
    let mut i: usize = 0;
    while i < x.len()
        invariant
            i <= x.len(),
            x.len() == y.len(),
            x@ == a@,
            y@ == b@,
            forall|k: int| 0 <= k < i ==> x@[k] == y@[k],
        decreases x.len() - i,
    {
        if x[i] != y[i] {
            return false;
        }
        i = i + 1;
    }
    assert(x@ =~= y@);
    true
}

/// The characters of a text without leading white space.
pub open spec fn trimmed_start(s: Seq<char>) -> Seq<char>
    decreases s.len(),
{
    if s.len() > 0 && white_space(s[0]) {
        trimmed_start(s.subrange(1, s.len() as int))
    } else {
        s
    }
}

/// The characters of a text without trailing white space.
pub open spec fn trimmed_end(s: Seq<char>) -> Seq<char>
    decreases s.len(),
{
    if s.len() > 0 && white_space(s.last()) {
        trimmed_end(s.drop_last())
    } else {
        s
    }
}

/// A text without white space at either end.
pub open spec fn trimmed(s: Seq<char>) -> Seq<char> {
    trimmed_end(trimmed_start(s))
}

/// Removes white space at both ends.
pub fn trim(s: &str) -> (r: String)
    ensures
        r@ == trimmed(s@),
{
    let chars = chars_of(s);
    let mut from: usize = 0;
    assert(chars@.subrange(0, chars@.len() as int) == s@);
    while from < chars.len() && is_white_space(chars[from])
        invariant
            from <= chars@.len(),
            trimmed_start(chars@.subrange(from as int, chars@.len() as int)) == trimmed_start(s@),
        decreases chars@.len() - from,
    {
        let ghost rest = chars@.subrange(from as int, chars@.len() as int);
        assert(rest.subrange(1, rest.len() as int) == chars@.subrange(
            from + 1,
            chars@.len() as int,
        ));
        from = from + 1;
    }
    let ghost rest = chars@.subrange(from as int, chars@.len() as int);
    assert(trimmed_start(s@) == rest);
    let mut to: usize = chars.len();
    while to > from && is_white_space(chars[to - 1])
        invariant
            from <= to <= chars@.len(),
            trimmed_end(chars@.subrange(from as int, to as int)) == trimmed_end(rest),
        decreases to,
    {
        let ghost part = chars@.subrange(from as int, to as int);
        assert(part.drop_last() == chars@.subrange(from as int, to - 1));
        assert(part.last() == chars@[to - 1]);
        to = to - 1;
    }
    assert(to > from ==> chars@.subrange(from as int, to as int).last() == chars@[to - 1]);
    text_of(&chars, from, to)
}

/// `p` stands in `s` at position `i`.
pub open spec fn occurs_at(s: Seq<char>, p: Seq<char>, i: int) -> bool {
    0 <= i && i + p.len() <= s.len() && s.subrange(i, i + p.len()) == p
}

/// The first position at or after `i` at which `p` stands in `s`.
pub open spec fn first_from(s: Seq<char>, p: Seq<char>, i: int) -> Option<int>
    decreases s.len() + 1 - i,
{
    if i < 0 || i + p.len() > s.len() {
        None
    } else if occurs_at(s, p, i) {
        Some(i)
    } else {
        first_from(s, p, i + 1)
    }
}

/// The first position at which `p` stands in `s`.
pub open spec fn first_at(s: Seq<char>, p: Seq<char>) -> Option<int> {
    first_from(s, p, 0)
}

/// `p` stands somewhere in `s`.
pub open spec fn has(s: Seq<char>, p: Seq<char>) -> bool {
    exists|i: int| occurs_at(s, p, i)
}

/// `s` begins with `p`.
pub open spec fn has_prefix(s: Seq<char>, p: Seq<char>) -> bool {
    p.len() <= s.len() && s.subrange(0, p.len() as int) == p
}

/// `s` ends with `p`.
pub open spec fn has_suffix(s: Seq<char>, p: Seq<char>) -> bool {
    p.len() <= s.len() && s.subrange(s.len() - p.len(), s.len() as int) == p
}

/// `first_from` finds the least position, and misses none.
pub proof fn lemma_first_from(s: Seq<char>, p: Seq<char>, i: int)
    requires
        0 <= i,
    ensures
        match first_from(s, p, i) {
            Some(k) => i <= k && occurs_at(s, p, k) && forall|j: int|
                i <= j < k ==> !occurs_at(s, p, j),
            None => forall|j: int| i <= j ==> !occurs_at(s, p, j),
        },
    decreases s.len() + 1 - i,
{
    if i + p.len() <= s.len() && !occurs_at(s, p, i) {
        lemma_first_from(s, p, i + 1);
    }
}

/// A text holds `p` exactly when a first position of `p` exists.
pub proof fn lemma_has_first(s: Seq<char>, p: Seq<char>)
    ensures
        has(s, p) == (first_at(s, p) is Some),
{
    lemma_first_from(s, p, 0);
}

/// Whether `p` stands in `s` at position `i`.
pub fn stands_at(s: &Vec<char>, p: &Vec<char>, i: usize) -> (r: bool)
    requires
        i <= s@.len(),
    ensures
        r == occurs_at(s@, p@, i as int),
{
    if s.len() - i < p.len() {
        return false;
    }
    let mut k: usize = 0;
    while k < p.len()
        invariant
            k <= p@.len(),
            i + p@.len() <= s.len(),
            forall|j: int| 0 <= j < k ==> s@[i + j] == p@[j],
        decreases p@.len() - k,
    {
        if s[i + k] != p[k] {
            assert(s@.subrange(i as int, i + p@.len())[k as int] != p@[k as int]);
            return false;
        }
        k = k + 1;
    }
    assert(s@.subrange(i as int, i + p@.len()) =~= p@);
    true
}

/// The first position at or after `from` at which `p` stands in `s`.
pub fn find_from(s: &Vec<char>, p: &Vec<char>, from: usize) -> (r: Option<usize>)
    requires
        from <= s@.len(),
    ensures
        match r {
            Some(k) => first_from(s@, p@, from as int) == Some(k as int),
            None => first_from(s@, p@, from as int) is None,
        },
        r matches Some(k) ==> from <= k && occurs_at(s@, p@, k as int),
{
    let mut i: usize = from;
    while i <= s.len() && p.len() <= s.len() - i
        invariant
            from <= i <= s@.len() + 1,
            first_from(s@, p@, i as int) == first_from(s@, p@, from as int),
        decreases s@.len() + 1 - i,
    {
        if stands_at(s, p, i) {
            return Some(i);
        }
        if i == s.len() {
            assert(first_from(s@, p@, i + 1) is None);
            return None;
        }
        i = i + 1;
    }
    None
}

/// The first position, counted in characters, at which `p` stands in `s`.
pub fn find(s: &str, p: &str) -> (r: Option<usize>)
    ensures
        match r {
            Some(k) => first_at(s@, p@) == Some(k as int),
            None => first_at(s@, p@) is None,
        },
{
    find_from(&chars_of(s), &chars_of(p), 0)
}

/// Whether `p` stands somewhere in `s`.
pub fn contains(s: &str, p: &str) -> (r: bool)
    ensures
        r == has(s@, p@),
{
    proof {
        lemma_has_first(s@, p@);
    }
    find(s, p).is_some()
}

/// Whether `s` begins with `p`.
pub fn starts_with(s: &str, p: &str) -> (r: bool)
    ensures
        r == has_prefix(s@, p@),
{
    stands_at(&chars_of(s), &chars_of(p), 0)
}

/// Whether `s` ends with `p`.
pub fn ends_with(s: &str, p: &str) -> (r: bool)
    ensures
        r == has_suffix(s@, p@),
{
    let x = chars_of(s);
    let y = chars_of(p);
    if y.len() > x.len() {
        return false;
    }
    let i: usize = x.len() - y.len();
    stands_at(&x, &y, i)
}

/// The text from position `from`, counted in characters, to the end.
pub fn suffix(s: &str, from: usize) -> (r: String)
    requires
        from <= s@.len(),
    ensures
        r@ == s@.subrange(from as int, s@.len() as int),
{
    let x = chars_of(s);
    let n: usize = x.len();
    text_of(&x, from, n)
}

/// The text up to position `to`, counted in characters.
pub fn prefix(s: &str, to: usize) -> (r: String)
    requires
        to <= s@.len(),
    ensures
        r@ == s@.subrange(0, to as int),
{
    let x = chars_of(s);
    text_of(&x, 0, to)
}

/// What follows `p` in a text that begins with it.
pub open spec fn after_prefix(s: Seq<char>, p: Seq<char>) -> Option<Seq<char>> {
    if has_prefix(s, p) {
        Some(s.subrange(p.len() as int, s.len() as int))
    } else {
        None
    }
}

/// Takes `p` off the front of `s`.
pub fn strip_prefix(s: &str, p: &str) -> (r: Option<String>)
    ensures
        match r {
            Some(t) => after_prefix(s@, p@) == Some(t@),
            None => after_prefix(s@, p@) is None,
        },
{
    if starts_with(s, p) {
        let y = chars_of(p);
        let n: usize = y.len();
        Some(suffix(s, n))
    } else {
        None
    }
}

/// The parts of `s` between occurrences of `sep`, from position `start`; the part in
/// progress began at `start` and has been read up to `i`.
pub open spec fn split_from(s: Seq<char>, sep: char, start: int, i: int) -> Seq<Seq<char>>
    decreases s.len() - i,
{
    if i < 0 || i >= s.len() {
        seq![s.subrange(start, s.len() as int)]
    } else if s[i] == sep {
        seq![s.subrange(start, i)] + split_from(s, sep, i + 1, i + 1)
    } else {
        split_from(s, sep, start, i + 1)
    }
}

/// The parts of `s` between occurrences of `sep`.
pub open spec fn parts(s: Seq<char>, sep: char) -> Seq<Seq<char>> {
    split_from(s, sep, 0, 0)
}

/// The models of a list of values, one by one.
pub open spec fn views<T: View>(v: Seq<T>) -> Seq<T::V> {
    Seq::new(v.len(), |i: int| v[i]@)
}

/// The model of an optional value.
pub open spec fn opt_view<T: View>(o: Option<T>) -> Option<T::V> {
    match o {
        Some(v) => Some(v@),
        None => None,
    }
}

/// One more value at the end of a list.
pub broadcast proof fn lemma_views_push<T: View>(v: Seq<T>, x: T)
    ensures
        #[trigger] views(v.push(x)) == views(v).push(x@),
{
    assert(views(v.push(x)) =~= views(v).push(x@));
}

/// A copy of an optional text.
pub fn copy_opt(o: &Option<String>) -> (r: Option<String>)
    ensures
        opt_view(r) == opt_view(*o),
{
    match o {
        Some(s) => Some(s.clone()),
        None => None,
    }
}

/// Splits a text at each occurrence of `sep`.
pub fn split(s: &str, sep: char) -> (r: Vec<String>)
    ensures
        views(r@) == parts(s@, sep),
        r@.len() >= 1,
{
    let chars = chars_of(s);
    let mut out: Vec<String> = Vec::new();
    let mut start: usize = 0;
    let mut i: usize = 0;
    let ghost whole = parts(s@, sep);
    assert(views(out@) =~= Seq::<Seq<char>>::empty());
    assert(views(out@) + split_from(chars@, sep, 0, 0) =~= whole);
    while i < chars.len()
        invariant
            start <= i <= chars@.len(),
            whole == views(out@) + split_from(chars@, sep, start as int, i as int),
        decreases chars@.len() - i,
    {
        if chars[i] == sep {
            let ghost before = views(out@);
            let piece = text_of(&chars, start, i);
            let ghost v = piece@;
            out.push(piece);
            proof {
                assert(views(out@) =~= before + seq![v]);
                assert(before + (seq![v] + split_from(chars@, sep, i + 1, i + 1)) =~= (before
                    + seq![v]) + split_from(chars@, sep, i + 1, i + 1));
            }
            start = i + 1;
        }
        i = i + 1;
    }
    let ghost before = views(out@);
    let n: usize = chars.len();
    let piece = text_of(&chars, start, n);
    let ghost v = piece@;
    out.push(piece);
    assert(views(out@) =~= before + seq![v]);
    out
}

/// Texts joined with a separator between them.
pub open spec fn joined(v: Seq<Seq<char>>, sep: Seq<char>) -> Seq<char>
    decreases v.len(),
{
    if v.len() == 0 {
        Seq::empty()
    } else if v.len() == 1 {
        v[0]
    } else {
        joined(v.drop_last(), sep) + sep + v.last()
    }
}

/// Joins texts with a separator between them.
pub fn join(v: &Vec<String>, sep: &str) -> (r: String)
    ensures
        r@ == joined(views(v@), sep@),
{
    let mut out = String::new();
    let mut i: usize = 0;
    assert(views(v@).subrange(0, 0) =~= Seq::<Seq<char>>::empty());
    while i < v.len()
        invariant
            i <= v@.len(),
            out@ == joined(views(v@).subrange(0, i as int), sep@),
        decreases v@.len() - i,
    {
        let ghost next = views(v@).subrange(0, i + 1);
        assert(next.drop_last() =~= views(v@).subrange(0, i as int));
        assert(next.last() == v@[i as int]@);
        if i > 0 {
            out.append(sep);
        }
        out.append(v[i].as_str());
        assert(out@ =~= joined(next, sep@));
        i = i + 1;
    }
    assert(views(v@).subrange(0, v@.len() as int) =~= views(v@));
    out
}

/// Two texts written one after the other.
pub fn cat2(a: &str, b: &str) -> (r: String)
    ensures
        r@ == a@ + b@,
{
    let mut out = a.to_string();
    out.append(b);
    out
}

/// Three texts written one after the other.
pub fn cat3(a: &str, b: &str, c: &str) -> (r: String)
    ensures
        r@ == a@ + b@ + c@,
{
    let mut out = cat2(a, b);
    out.append(c);
    out
}

/// Four texts written one after the other.
pub fn cat4(a: &str, b: &str, c: &str, d: &str) -> (r: String)
    ensures
        r@ == a@ + b@ + c@ + d@,
{
    let mut out = cat3(a, b, c);
    out.append(d);
    out
}

/// Five texts written one after the other.
pub fn cat5(a: &str, b: &str, c: &str, d: &str, e: &str) -> (r: String)
    ensures
        r@ == a@ + b@ + c@ + d@ + e@,
{
    let mut out = cat4(a, b, c, d);
    out.append(e);
    out
}

/// The decimal digit `d`.
pub open spec fn digit(d: nat) -> char {
    (('0' as u32) + d) as char
}

/// A natural number in decimal.
pub open spec fn decimal(n: nat) -> Seq<char>
    decreases n,
{
    if n < 10 {
        seq![digit(n)]
    } else {
        decimal(n / 10).push(digit(n % 10))
    }
}

/// An integer in decimal, with a minus sign where it is negative.
pub open spec fn decimal_int(n: int) -> Seq<char> {
    if n < 0 {
        seq!['-'] + decimal((-n) as nat)
    } else {
        decimal(n as nat)
    }
}

fn digit_char(d: u64) -> (c: char)
    requires
        d < 10,
    ensures
        c == digit(d as nat),
{
    if d == 0 {
        '0'
    } else if d == 1 {
        '1'
    } else if d == 2 {
        '2'
    } else if d == 3 {
        '3'
    } else if d == 4 {
        '4'
    } else if d == 5 {
        '5'
    } else if d == 6 {
        '6'
    } else if d == 7 {
        '7'
    } else if d == 8 {
        '8'
    } else {
        '9'
    }
}

/// Writes a natural number in decimal.
pub fn write_u64(n: u64) -> (r: String)
    ensures
        r@ == decimal(n as nat),
    decreases n,
{
    let last = digit_char(n % 10);
    if n < 10 {
        let mut out = String::new();
        out.push(last);
        assert(out@ =~= seq![digit(n as nat)]);
        out
    } else {
        let mut out = write_u64(n / 10);
        out.push(last);
        out
    }
}

/// Writes a length or an index in decimal.
pub fn write_usize(n: usize) -> (r: String)
    ensures
        r@ == decimal(n as nat),
{
    write_u64(n as u64)
}

/// Writes an integer in decimal.
pub fn write_i64(n: i64) -> (r: String)
    ensures
        r@ == decimal_int(n as int),
{
    if n >= 0 {
        write_u64(n as u64)
    } else {
        let size: u64 = if n == i64::MIN {
            9223372036854775808u64
        } else {
            (-n) as u64
        };
        let digits = write_u64(size);
        let mut out = String::new();
        out.push('-');
        out.append(digits.as_str());
        assert(out@ =~= seq!['-'] + decimal((-n) as nat));
        out
    }
}

/// A natural number in lower-case hexadecimal.
pub open spec fn hex(n: nat) -> Seq<char>
    decreases n,
{
    if n < 16 {
        seq![hex_digit(n)]
    } else {
        hex(n / 16).push(hex_digit(n % 16))
    }
}

/// The lower-case hexadecimal digit `d`.
pub open spec fn hex_digit(d: nat) -> char {
    if d < 10 {
        digit(d)
    } else {
        (('a' as u32) + (d - 10)) as char
    }
}

fn hex_char(d: u64) -> (c: char)
    requires
        d < 16,
    ensures
        c == hex_digit(d as nat),
{
    if d < 10 {
        digit_char(d)
    } else if d == 10 {
        'a'
    } else if d == 11 {
        'b'
    } else if d == 12 {
        'c'
    } else if d == 13 {
        'd'
    } else if d == 14 {
        'e'
    } else {
        'f'
    }
}

/// Writes a natural number in lower-case hexadecimal.
pub fn write_hex(n: u128) -> (r: String)
    ensures
        r@ == hex(n as nat),
    decreases n,
{
    let last = hex_char((n % 16) as u64);
    if n < 16 {
        let mut out = String::new();
        out.push(last);
        assert(out@ =~= seq![hex_digit(n as nat)]);
        out
    } else {
        let mut out = write_hex(n / 16);
        out.push(last);
        out
    }
}

/// A text with no white space at either end is not trimmed.
pub proof fn lemma_trimmed_same(s: Seq<char>)
    requires
        s.len() > 0,
        !white_space(s[0]),
        !white_space(s.last()),
    ensures
        trimmed(s) == s,
{
}

proof fn lemma_trimmed_start_first(s: Seq<char>)
    ensures
        trimmed_start(s).len() > 0 ==> !white_space(trimmed_start(s)[0]),
    decreases s.len(),
{
    if s.len() > 0 && white_space(s[0]) {
        lemma_trimmed_start_first(s.subrange(1, s.len() as int));
    }
}

proof fn lemma_trimmed_end_last(s: Seq<char>)
    ensures
        trimmed_end(s).len() <= s.len(),
        trimmed_end(s) == s.subrange(0, trimmed_end(s).len() as int),
        trimmed_end(s).len() > 0 ==> !white_space(trimmed_end(s).last()),
    decreases s.len(),
{
    if s.len() > 0 && white_space(s.last()) {
        lemma_trimmed_end_last(s.drop_last());
        assert(trimmed_end(s) =~= s.subrange(0, trimmed_end(s).len() as int));
    } else {
        assert(s =~= s.subrange(0, s.len() as int));
    }
}

/// A trimmed text begins and ends with no white space.
pub proof fn lemma_trimmed_ends(s: Seq<char>)
    ensures
        trimmed(s).len() > 0 ==> !white_space(trimmed(s)[0]) && !white_space(trimmed(s).last()),
{
    lemma_trimmed_start_first(s);
    lemma_trimmed_end_last(trimmed_start(s));
}

/// A number written in decimal or hexadecimal ends in a character that is no white space.
pub proof fn lemma_decimal_last(n: nat)
    ensures
        decimal(n).len() > 0,
        !white_space(decimal(n).last()),
    decreases n,
{
}

/// `c` is a decimal digit.
pub open spec fn is_digit(c: char) -> bool {
    '0' <= c <= '9'
}

/// The value of a run of decimal digits; `None` where one is no digit.
pub open spec fn digits_value(s: Seq<char>) -> Option<nat>
    decreases s.len(),
{
    if s.len() == 0 {
        Some(0)
    } else {
        match digits_value(s.drop_last()) {
            Some(v) if is_digit(s.last()) => Some((v * 10 + (s.last() as u32 - '0' as u32)) as nat),
            _ => None,
        }
    }
}

/// The integer that a text writes in decimal: an optional sign and at least one digit.
pub open spec fn int_value(s: Seq<char>) -> Option<int> {
    if s.len() > 0 && (s[0] == '-' || s[0] == '+') {
        let rest = s.subrange(1, s.len() as int);
        if rest.len() == 0 {
            None
        } else {
            match digits_value(rest) {
                Some(v) => Some(if s[0] == '-' { -(v as int) } else { v as int }),
                None => None,
            }
        }
    } else if s.len() == 0 {
        None
    } else {
        match digits_value(s) {
            Some(v) => Some(v as int),
            None => None,
        }
    }
}

/// The integer that a text writes, where it lies in `lo..=hi`.
pub open spec fn int_value_in(s: Seq<char>, lo: int, hi: int) -> Option<int> {
    match int_value(s) {
        Some(v) if lo <= v <= hi => Some(v),
        _ => None,
    }
}

proof fn lemma_digits_value_grows(s: Seq<char>, i: int)
    requires
        0 <= i <= s.len(),
        digits_value(s) is Some,
    ensures
        digits_value(s.subrange(0, i)) is Some,
        digits_value(s.subrange(0, i))->0 <= digits_value(s)->0,
    decreases s.len(),
{
    if i == s.len() {
        assert(s.subrange(0, i) =~= s);
    } else {
        lemma_digits_value_grows(s.drop_last(), i);
        assert(s.drop_last().subrange(0, i) =~= s.subrange(0, i));
    }
}

/// Reads the digits of `chars` from `from` on, where their value is at most `hi`.
fn parse_digits(chars: &Vec<char>, from: usize, hi: u64) -> (r: Option<u64>)
    requires
        from <= chars@.len(),
    ensures
        match (r, digits_value(chars@.subrange(from as int, chars@.len() as int))) {
            (Some(v), Some(w)) => v == w && v <= hi,
            (None, Some(w)) => w > hi,
            (r, None) => r is None,
        },
{
    let ghost all = chars@.subrange(from as int, chars@.len() as int);
    let mut value: u64 = 0;
    let mut i: usize = from;
    while i < chars.len()
        invariant
            from <= i <= chars@.len(),
            all == chars@.subrange(from as int, chars@.len() as int),
            digits_value(all.subrange(0, i - from)) == Some(value as nat),
            value <= hi,
        decreases chars@.len() - i,
    {
        let c = chars[i];
        let ghost next = all.subrange(0, i + 1 - from);
        assert(next.drop_last() =~= all.subrange(0, i - from));
        assert(next.last() == c);
        if !('0' <= c && c <= '9') {
            proof {
                if digits_value(all) is Some {
                    lemma_digits_value_grows(all, i + 1 - from);
                }
            }
            return None;
        }
        let d: u64 = (c as u32 - '0' as u32) as u64;
        if value > hi / 10 || d > hi - value * 10 {
            proof {
                if digits_value(all) is Some {
                    lemma_digits_value_grows(all, i + 1 - from);
                }
            }
            return None;
        }
        value = value * 10 + d;
        i = i + 1;
    }
    assert(all.subrange(0, i - from) =~= all);
    Some(value)
}

/// Reads an integer in decimal.
pub fn parse_i64(s: &str) -> (r: Option<i64>)
    ensures
        match r {
            Some(v) => int_value_in(s@, i64::MIN as int, i64::MAX as int) == Some(v as int),
            None => int_value_in(s@, i64::MIN as int, i64::MAX as int) is None,
        },
{
    let chars = chars_of(s);
    if chars.len() == 0 {
        return None;
    }
    assert(chars@.subrange(0, chars@.len() as int) =~= s@);
    let negative = chars[0] == '-';
    if negative || chars[0] == '+' {
        if chars.len() == 1 {
            return None;
        }
        if negative {
            match parse_digits(&chars, 1, 9223372036854775808u64) {
                None => None,
                Some(v) => {
                    if v == 9223372036854775808u64 {
                        Some(i64::MIN)
                    } else {
                        Some(-(v as i64))
                    }
                },
            }
        } else {
            match parse_digits(&chars, 1, 9223372036854775807u64) {
                None => None,
                Some(v) => Some(v as i64),
            }
        }
    } else {
        match parse_digits(&chars, 0, 9223372036854775807u64) {
            None => None,
            Some(v) => Some(v as i64),
        }
    }
}

/// Reads a natural number in decimal; a minus sign is refused.
pub fn parse_u64(s: &str) -> (r: Option<u64>)
    ensures
        match r {
            Some(v) => !has_prefix(s@, seq!['-']) && int_value_in(s@, 0, u64::MAX as int) == Some(
                v as int,
            ),
            None => has_prefix(s@, seq!['-']) || int_value_in(s@, 0, u64::MAX as int) is None,
        },
{
    let chars = chars_of(s);
    if chars.len() == 0 {
        return None;
    }
    assert(chars@.subrange(0, chars@.len() as int) =~= s@);
    if chars[0] == '-' {
        assert(s@.subrange(0, 1) =~= seq!['-']);
        return None;
    }
    assert(s@.subrange(0, 1)[0] != '-');
    if chars[0] == '+' {
        if chars.len() == 1 {
            return None;
        }
        parse_digits(&chars, 1, u64::MAX)
    } else {
        parse_digits(&chars, 0, u64::MAX)
    }
}

/// The position of the last `c` in `s`.
pub open spec fn last_at(s: Seq<char>, c: char) -> Option<int>
    decreases s.len(),
{
    if s.len() == 0 {
        None
    } else if s.last() == c {
        Some(s.len() - 1)
    } else {
        last_at(s.drop_last(), c)
    }
}

/// The last position, counted in characters, of `c` in `s`.
pub fn rfind(s: &str, c: char) -> (r: Option<usize>)
    ensures
        match r {
            Some(k) => last_at(s@, c) == Some(k as int) && k < s@.len() && s@[k as int] == c,
            None => last_at(s@, c) is None,
        },
{
    let chars = chars_of(s);
    let mut i: usize = chars.len();
    assert(chars@.subrange(0, chars@.len() as int) =~= s@);
    while i > 0
        invariant
            i <= chars@.len(),
            chars@ == s@,
            last_at(s@, c) == last_at(chars@.subrange(0, i as int), c),
        decreases i,
    {
        let ghost part = chars@.subrange(0, i as int);
        assert(part.last() == chars@[i - 1]);
        assert(part.drop_last() =~= chars@.subrange(0, i - 1));
        i = i - 1;
        if chars[i] == c {
            return Some(i);
        }
    }
    None
}

/// A text in lower case, as `str::to_lowercase` maps it.
pub uninterp spec fn lowercase(s: Seq<char>) -> Seq<char>;

/// Maps a text to lower case (`str::to_lowercase`). The outcome is named `lowercase`: it follows
/// the Unicode tables and depends on the text alone.
#[verifier::external_body]
pub(crate) fn to_lowercase(s: &str) -> (r: String)
    ensures
        r@ == lowercase(s@),
{
    s.to_lowercase()
}

/// A text without the run of `c` at its end.
pub open spec fn without_end(s: Seq<char>, c: char) -> Seq<char>
    decreases s.len(),
{
    if s.len() > 0 && s.last() == c {
        without_end(s.drop_last(), c)
    } else {
        s
    }
}

/// A text without the run of `c` at its start.
pub open spec fn without_start(s: Seq<char>, c: char) -> Seq<char>
    decreases s.len(),
{
    if s.len() > 0 && s[0] == c {
        without_start(s.subrange(1, s.len() as int), c)
    } else {
        s
    }
}

/// Removes the run of `c` at the end of a text.
pub fn trim_end_of(s: &str, c: char) -> (r: String)
    ensures
        r@ == without_end(s@, c),
{
    let chars = chars_of(s);
    let mut to: usize = chars.len();
    assert(chars@.subrange(0, chars@.len() as int) =~= s@);
    while to > 0 && chars[to - 1] == c
        invariant
            to <= chars@.len(),
            without_end(chars@.subrange(0, to as int), c) == without_end(s@, c),
        decreases to,
    {
        let ghost part = chars@.subrange(0, to as int);
        assert(part.drop_last() =~= chars@.subrange(0, to - 1));
        assert(part.last() == chars@[to - 1]);
        to = to - 1;
    }
    assert(to > 0 ==> chars@.subrange(0, to as int).last() == chars@[to - 1]);
    text_of(&chars, 0, to)
}

/// Removes the run of `c` at the start of a text.
pub fn trim_start_of(s: &str, c: char) -> (r: String)
    ensures
        r@ == without_start(s@, c),
{
    let chars = chars_of(s);
    let mut from: usize = 0;
    assert(chars@.subrange(0, chars@.len() as int) =~= s@);
    while from < chars.len() && chars[from] == c
        invariant
            from <= chars@.len(),
            without_start(chars@.subrange(from as int, chars@.len() as int), c) == without_start(
                s@,
                c,
            ),
        decreases chars@.len() - from,
    {
        let ghost rest = chars@.subrange(from as int, chars@.len() as int);
        assert(rest.subrange(1, rest.len() as int) =~= chars@.subrange(
            from + 1,
            chars@.len() as int,
        ));
        from = from + 1;
    }
    let n: usize = chars.len();
    text_of(&chars, from, n)
}

/// Removes white space at the beginning of a text.
pub fn trim_start(s: &str) -> (r: String)
    ensures
        r@ == trimmed_start(s@),
{
    let chars = chars_of(s);
    let mut from: usize = 0;
    assert(chars@.subrange(0, chars@.len() as int) =~= s@);
    while from < chars.len() && is_white_space(chars[from])
        invariant
            from <= chars@.len(),
            trimmed_start(chars@.subrange(from as int, chars@.len() as int)) == trimmed_start(s@),
        decreases chars@.len() - from,
    {
        let ghost part = chars@.subrange(from as int, chars@.len() as int);
        assert(part.drop_first() =~= chars@.subrange(from + 1, chars@.len() as int));
        assert(part[0] == chars@[from as int]);
        from = from + 1;
    }
    proof {
        let part = chars@.subrange(from as int, chars@.len() as int);
        if from < chars@.len() {
            assert(part[0] == chars@[from as int]);
        }
    }
    let n: usize = chars.len();
    text_of(&chars, from, n)
}

/// Removes white space at the end of a text.
pub fn trim_end(s: &str) -> (r: String)
    ensures
        r@ == trimmed_end(s@),
{
    let chars = chars_of(s);
    let mut to: usize = chars.len();
    assert(chars@.subrange(0, chars@.len() as int) =~= s@);
    while to > 0 && is_white_space(chars[to - 1])
        invariant
            to <= chars@.len(),
            trimmed_end(chars@.subrange(0, to as int)) == trimmed_end(s@),
        decreases to,
    {
        let ghost part = chars@.subrange(0, to as int);
        assert(part.drop_last() =~= chars@.subrange(0, to - 1));
        assert(part.last() == chars@[to - 1]);
        to = to - 1;
    }
    assert(to > 0 ==> chars@.subrange(0, to as int).last() == chars@[to - 1]);
    text_of(&chars, 0, to)
}

/// A line without the carriage return at its end.
pub open spec fn without_cr(s: Seq<char>) -> Seq<char> {
    if s.len() > 0 && s.last() == '\r' {
        s.drop_last()
    } else {
        s
    }
}

/// The lines of a text: they end in a line feed, or in a carriage return and a line feed; what
/// follows the last line end is a line where it is not empty.
pub open spec fn line_seq(s: Seq<char>) -> Seq<Seq<char>> {
    let p = parts(s, '\n');
    let ended = Seq::new((p.len() - 1) as nat, |i: int| without_cr(p[i]));
    if p.last().len() == 0 {
        ended
    } else {
        ended.push(p.last())
    }
}

fn strip_cr(s: &String) -> (r: String)
    ensures
        r@ == without_cr(s@),
{
    let chars = chars_of(s.as_str());
    let n: usize = chars.len();
    if n > 0 && chars[n - 1] == '\r' {
        text_of(&chars, 0, n - 1)
    } else {
        s.clone()
    }
}

/// The lines of a text.
pub fn lines(s: &str) -> (r: Vec<String>)
    ensures
        views(r@) == line_seq(s@),
{
    let all = split(s, '\n');
    let ghost p = views(all@);
    let mut out: Vec<String> = Vec::new();
    let mut i: usize = 0;
    let last: usize = all.len() - 1;
    while i < last
        invariant
            i <= last,
            last == all@.len() - 1,
            p == views(all@),
            out@.len() == i,
            forall|k: int| 0 <= k < i ==> (#[trigger] out@[k])@ == without_cr(p[k]),
        decreases last - i,
    {
        out.push(strip_cr(&all[i]));
        i = i + 1;
    }
    if all[last].as_str().unicode_len() > 0 {
        out.push(all[last].clone());
    }
    assert(p.last() == all@[last as int]@);
    assert(views(out@) =~= line_seq(s@));
    out
}

/// The parts of `s` between the first occurrences of `sep`, at most `n` of them.
pub open spec fn first_parts(s: Seq<char>, sep: char, n: nat) -> Seq<Seq<char>>
    decreases n,
{
    if n <= 1 {
        seq![s]
    } else {
        match first_at(s, seq![sep]) {
            None => seq![s],
            Some(i) => seq![s.subrange(0, i)] + first_parts(
                s.subrange(i + 1, s.len() as int),
                sep,
                (n - 1) as nat,
            ),
        }
    }
}

/// Splits a text at the first occurrences of `sep` into at most `n` parts.
pub fn splitn(s: &str, sep: char, n: usize) -> (r: Vec<String>)
    requires
        n >= 1,
    ensures
        views(r@) == first_parts(s@, sep, n as nat),
    decreases n,
{
    let chars = chars_of(s);
    let mut mark: Vec<char> = Vec::new();
    mark.push(sep);
    assert(mark@ =~= seq![sep]);
    let mut out: Vec<String> = Vec::new();
    if n == 1 {
        out.push(s.to_string());
        assert(views(out@) =~= seq![s@]);
        return out;
    }
    match find_from(&chars, &mark, 0) {
        None => {
            out.push(s.to_string());
            assert(views(out@) =~= seq![s@]);
            out
        },
        Some(i) => {
            let len: usize = chars.len();
            let head = text_of(&chars, 0, i);
            let tail = text_of(&chars, i + 1, len);
            let ghost h = head@;
            let ghost t = tail@;
            let mut rest = splitn(tail.as_str(), sep, n - 1);
            let ghost more = views(rest@);
            out.push(head);
            out.append(&mut rest);
            assert(views(out@) =~= seq![h] + more);
            out
        },
    }
}

/// `s` from `i` on with each occurrence of the non-empty `p` replaced by `r`.
pub open spec fn replaced_from(s: Seq<char>, p: Seq<char>, r: Seq<char>, i: int) -> Seq<char>
    decreases s.len() - i,
{
    if i < 0 || p.len() == 0 {
        Seq::empty()
    } else {
        proof {
            lemma_first_from(s, p, i);
        }
        match first_from(s, p, i) {
            Some(k) => s.subrange(i, k) + r + replaced_from(s, p, r, k + p.len()),
            None => if i <= s.len() {
                s.subrange(i, s.len() as int)
            } else {
                Seq::empty()
            },
        }
    }
}

/// `s` from `i` on with `r` put after each character.
pub open spec fn spaced_from(s: Seq<char>, r: Seq<char>, i: int) -> Seq<char>
    decreases s.len() - i,
{
    if i < 0 || i >= s.len() {
        Seq::empty()
    } else {
        seq![s[i]] + r + spaced_from(s, r, i + 1)
    }
}

/// `s` with each occurrence of `p` replaced by `r`; an empty `p` occurs before each character
/// and at the end.
pub open spec fn replaced(s: Seq<char>, p: Seq<char>, r: Seq<char>) -> Seq<char> {
    if p.len() == 0 {
        r + spaced_from(s, r, 0)
    } else {
        replaced_from(s, p, r, 0)
    }
}

/// Replaces each occurrence of `p` by `with`.
pub fn replace(s: &str, p: &str, with: &str) -> (r: String)
    ensures
        r@ == replaced(s@, p@, with@),
{
    let chars = chars_of(s);
    let mark = chars_of(p);
    let mut out = String::new();
    assert(out@ =~= Seq::empty());
    if mark.len() == 0 {
        out.append(with);
        let mut i: usize = 0;
        let ghost whole = replaced(s@, p@, with@);
        assert(out@ + spaced_from(chars@, with@, 0) =~= whole);
        while i < chars.len()
            invariant
                i <= chars@.len(),
                out@ + spaced_from(chars@, with@, i as int) == whole,
            decreases chars@.len() - i,
        {
            let ghost before = out@;
            out.push(chars[i]);
            out.append(with);
            assert(before + (seq![chars@[i as int]] + with@ + spaced_from(chars@, with@, i + 1))
                =~= out@ + spaced_from(chars@, with@, i + 1));
            i = i + 1;
        }
        assert(out@ + spaced_from(chars@, with@, i as int) =~= out@);
        return out;
    }
    let mut i: usize = 0;
    let ghost whole = replaced_from(s@, p@, with@, 0);
    assert(out@ + replaced_from(chars@, mark@, with@, 0) =~= whole);
    loop
        invariant_except_break
            i <= chars.len(),
            chars@ == s@,
            mark@ == p@,
            mark@.len() > 0,
            out@ + replaced_from(chars@, mark@, with@, i as int) == whole,
        ensures
            out@ == whole,
        decreases chars@.len() - i,
    {
        match find_from(&chars, &mark, i) {
            None => {
                let n: usize = chars.len();
                let tail = text_of(&chars, i, n);
                out.append(tail.as_str());
                break ;
            },
            Some(k) => {
                let ghost before = out@;
                let head = text_of(&chars, i, k);
                out.append(head.as_str());
                out.append(with);
                let m: usize = mark.len();
                proof {
                    assert(before + (chars@.subrange(i as int, k as int) + with@ + replaced_from(
                        chars@,
                        mark@,
                        with@,
                        k + m,
                    )) =~= out@ + replaced_from(chars@, mark@, with@, k + m));
                }
                i = k + m;
            },
        }
    }
    out
}

/// A text padded with blanks to a width.
pub open spec fn padded(s: Seq<char>, width: nat) -> Seq<char> {
    if s.len() >= width {
        s
    } else {
        s + Seq::new((width - s.len()) as nat, |i: int| ' ')
    }
}

/// Pads a text with blanks to a width.
pub fn pad(s: &str, width: usize) -> (r: String)
    ensures
        r@ == padded(s@, width as nat),
{
    let mut out = s.to_string();
    let mut n: usize = s.unicode_len();
    let ghost start = n;
    while n < width
        invariant
            start == s@.len(),
            start <= n,
            n <= width || n == start,
            out@ == s@ + Seq::new((n - start) as nat, |i: int| ' '),
        decreases width - n,
    {
        out.push(' ');
        n = n + 1;
        assert(out@ =~= s@ + Seq::new((n - start) as nat, |i: int| ' '));
    }
    assert(out@ =~= padded(s@, width as nat));
    out
}

/// A text comes before another: at the first character in which they differ it
/// has the smaller one, or it ends there.
pub open spec fn precedes(a: Seq<char>, b: Seq<char>) -> bool
    decreases a.len(),
{
    if b.len() == 0 {
        false
    } else if a.len() == 0 {
        true
    } else if a[0] == b[0] {
        precedes(a.subrange(1, a.len() as int), b.subrange(1, b.len() as int))
    } else {
        (a[0] as int) < (b[0] as int)
    }
}

/// Whether a text comes before another.
pub fn is_before(a: &str, b: &str) -> (r: bool)
    ensures
        r == precedes(a@, b@),
{
    let x = chars_of(a);
    let y = chars_of(b);
    let mut i: usize = 0;
    assert(x@.subrange(0, x@.len() as int) =~= x@);
    assert(y@.subrange(0, y@.len() as int) =~= y@);
    while i < x.len() && i < y.len() && x[i] == y[i]
        invariant
            i <= x.len(),
            i <= y.len(),
            precedes(x@, y@) == precedes(
                x@.subrange(i as int, x@.len() as int),
                y@.subrange(i as int, y@.len() as int),
            ),
        decreases x.len() - i,
    {
        proof {
            let p = x@.subrange(i as int, x@.len() as int);
            let q = y@.subrange(i as int, y@.len() as int);
            assert(p[0] == x@[i as int] && q[0] == y@[i as int]);
            assert(p.subrange(1, p.len() as int) =~= x@.subrange(i + 1, x@.len() as int));
            assert(q.subrange(1, q.len() as int) =~= y@.subrange(i + 1, y@.len() as int));
        }
        i = i + 1;
    }
    proof {
        let p = x@.subrange(i as int, x@.len() as int);
        let q = y@.subrange(i as int, y@.len() as int);
        if i < x@.len() {
            assert(p[0] == x@[i as int]);
        }
        if i < y@.len() {
            assert(q[0] == y@[i as int]);
        }
    }
    if i >= y.len() {
        false
    } else if i >= x.len() {
        true
    } else {
        x[i] < y[i]
    }
}

/// Two texts are equal, or one comes before the other, but not both.
pub proof fn lemma_precedes_total(a: Seq<char>, b: Seq<char>)
    ensures
        a == b || precedes(a, b) || precedes(b, a),
        !(precedes(a, b) && precedes(b, a)),
        a == b ==> !precedes(a, b),
    decreases a.len(),
{
    if a.len() > 0 && b.len() > 0 && a[0] == b[0] {
        let p = a.subrange(1, a.len() as int);
        let q = b.subrange(1, b.len() as int);
        lemma_precedes_total(p, q);
        if p == q {
            assert(a =~= seq![a[0]] + p);
            assert(b =~= seq![b[0]] + q);
        }
    } else if a.len() == 0 && b.len() == 0 {
        assert(a =~= b);
    }
}

/// What comes before a text comes before whatever that one does not follow.
pub proof fn lemma_precedes_chain(a: Seq<char>, b: Seq<char>, c: Seq<char>)
    requires
        precedes(a, b),
        !precedes(c, b),
    ensures
        precedes(a, c),
    decreases a.len(),
{
    if a.len() > 0 && b.len() > 0 && c.len() > 0 && a[0] == b[0] && b[0] == c[0] {
        lemma_precedes_chain(
            a.subrange(1, a.len() as int),
            b.subrange(1, b.len() as int),
            c.subrange(1, c.len() as int),
        );
    }
}

/// Where a text goes in an ordered list.
pub open spec fn order_slot(s: Seq<Seq<char>>, x: Seq<char>) -> int
    decreases s.len(),
{
    if s.len() == 0 || !precedes(x, s.last()) {
        s.len() as int
    } else {
        order_slot(s.drop_last(), x)
    }
}

/// Texts in order.
pub open spec fn ordered(s: Seq<Seq<char>>) -> Seq<Seq<char>>
    decreases s.len(),
{
    if s.len() == 0 {
        Seq::empty()
    } else {
        let before = ordered(s.drop_last());
        before.insert(order_slot(before, s.last()), s.last())
    }
}

/// Puts texts in order.
pub fn sort(v: &Vec<String>) -> (r: Vec<String>)
    ensures
        views(r@) == ordered(views(v@)),
{
    let ghost all = views(v@);
    let mut out: Vec<String> = Vec::new();
    let mut i: usize = 0;
    assert(all.subrange(0, 0) =~= Seq::empty());
    assert(views(out@) =~= ordered(all.subrange(0, 0)));
    while i < v.len()
        invariant
            i <= v.len(),
            all == views(v@),
            views(out@) == ordered(all.subrange(0, i as int)),
        decreases v.len() - i,
    {
        let ghost before = views(out@);
        let x = v[i].as_str();
        let mut p: usize = out.len();
        assert(before.subrange(0, p as int) =~= before);
        while p > 0 && is_before(x, out[p - 1].as_str())
            invariant
                p <= out.len(),
                before == views(out@),
                order_slot(before, x@) == order_slot(before.subrange(0, p as int), x@),
            decreases p,
        {
            proof {
                let part = before.subrange(0, p as int);
                assert(part.last() == out@[p - 1]@);
                assert(part.drop_last() =~= before.subrange(0, p - 1));
            }
            p = p - 1;
        }
        proof {
            let part = before.subrange(0, p as int);
            if p > 0 {
                assert(part.last() == out@[p - 1]@);
            }
            assert(order_slot(before, x@) == p);
        }
        let one = x.to_string();
        out.insert(p, one);
        proof {
            assert(views(out@) =~= before.insert(p as int, one@));
            let next = all.subrange(0, i + 1);
            assert(next.drop_last() =~= all.subrange(0, i as int));
            assert(next.last() == v@[i as int]@);
        }
        i = i + 1;
    }
    assert(all.subrange(0, all.len() as int) =~= all);
    out
}

proof fn lemma_order_slot(s: Seq<Seq<char>>, x: Seq<char>)
    requires
        forall|i: int, j: int|
            0 <= i <= j < s.len() ==> !precedes(#[trigger] s[j], #[trigger] s[i]),
    ensures
        0 <= order_slot(s, x) <= s.len(),
        forall|i: int| 0 <= i < order_slot(s, x) ==> !precedes(x, #[trigger] s[i]),
        forall|i: int| order_slot(s, x) <= i < s.len() ==> precedes(x, #[trigger] s[i]),
    decreases s.len(),
{
    if s.len() > 0 {
        let rest = s.drop_last();
        if precedes(x, s.last()) {
            lemma_order_slot(rest, x);
            assert forall|i: int| order_slot(s, x) <= i < s.len() implies precedes(
                x,
                #[trigger] s[i],
            ) by {
                if i < s.len() - 1 {
                    assert(rest[i] == s[i]);
                }
            }
            assert forall|i: int| 0 <= i < order_slot(s, x) implies !precedes(
                x,
                #[trigger] s[i],
            ) by {
                assert(rest[i] == s[i]);
            }
        } else {
            assert forall|i: int| 0 <= i < s.len() implies !precedes(x, #[trigger] s[i]) by {
                if precedes(x, s[i]) {
                    assert(!precedes(s[s.len() - 1], s[i]));
                    lemma_precedes_chain(x, s[i], s[s.len() - 1]);
                }
            }
        }
    }
}

/// Putting texts in order keeps each of them, and none comes before one that
/// stands ahead of it.
pub proof fn law_ordered(s: Seq<Seq<char>>)
    ensures
        ordered(s).to_multiset() == s.to_multiset(),
        forall|i: int, j: int|
            0 <= i <= j < ordered(s).len() ==> !precedes(
                #[trigger] ordered(s)[j],
                #[trigger] ordered(s)[i],
            ),
    decreases s.len(),
{
    if s.len() > 0 {
        let before = ordered(s.drop_last());
        let x = s.last();
        law_ordered(s.drop_last());
        lemma_order_slot(before, x);
        let p = order_slot(before, x);
        let after = before.insert(p, x);
        assert(after.remove(p) =~= before);
        broadcast use vstd::seq_lib::group_to_multiset_ensures;

        assert(after.remove(p).to_multiset() =~= after.to_multiset().remove(after[p]));
        assert(after.to_multiset().count(x) > 0) by {
            assert(after.contains(after[p]));
        }
        assert(after.to_multiset() =~= before.to_multiset().insert(x));
        assert(s =~= s.drop_last().push(x));
        assert forall|i: int, j: int| 0 <= i <= j < after.len() implies !precedes(
            #[trigger] after[j],
            #[trigger] after[i],
        ) by {
            if i == p {
                if j > p {
                    assert(after[j] == before[j - 1]);
                    lemma_precedes_total(x, before[j - 1]);
                } else {
                    lemma_precedes_total(x, x);
                }
            } else if j == p {
                assert(after[i] == before[i]);
            } else {
                let a = if i < p {
                    i
                } else {
                    i - 1
                };
                let b = if j < p {
                    j
                } else {
                    j - 1
                };
                assert(after[i] == before[a] && after[j] == before[b]);
            }
        }
    } else {
        assert(ordered(s) =~= s);
    }
}

/// Trimming takes off white space at both ends and nothing else: what is left stands in the
/// text, only white space stands around it, and it neither begins nor ends with any.
pub proof fn law_trimmed_is_middle(s: Seq<char>)
    ensures
        exists|i: int, j: int|
            {
                &&& 0 <= i <= j <= s.len()
                &&& trimmed(s) == #[trigger] s.subrange(i, j)
                &&& forall|k: int| 0 <= k < i ==> white_space(#[trigger] s[k])
                &&& forall|k: int| j <= k < s.len() ==> white_space(#[trigger] s[k])
            },
        trimmed(s).len() > 0 ==> !white_space(trimmed(s)[0]) && !white_space(trimmed(s).last()),
{
    let i = lemma_trimmed_start(s);
    let rest = trimmed_start(s);
    let j = lemma_trimmed_end(rest);
    assert(trimmed(s) =~= s.subrange(i, i + j));
    assert forall|k: int| i + j <= k < s.len() implies white_space(#[trigger] s[k]) by {
        assert(rest[k - i] == s[k]);
    }
    if trimmed(s).len() > 0 {
        assert(trimmed(s)[0] == rest[0]);
    }
}

proof fn lemma_trimmed_start(s: Seq<char>) -> (i: int)
    ensures
        0 <= i <= s.len(),
        trimmed_start(s) == s.subrange(i, s.len() as int),
        forall|k: int| 0 <= k < i ==> white_space(#[trigger] s[k]),
        i < s.len() ==> !white_space(s[i]),
    decreases s.len(),
{
    if s.len() > 0 && white_space(s[0]) {
        let rest = s.subrange(1, s.len() as int);
        let i = lemma_trimmed_start(rest);
        assert(rest.subrange(i, rest.len() as int) =~= s.subrange(i + 1, s.len() as int));
        assert forall|k: int| 0 <= k < i + 1 implies white_space(#[trigger] s[k]) by {
            if k > 0 {
                assert(rest[k - 1] == s[k]);
            }
        }
        i + 1
    } else {
        assert(s.subrange(0, s.len() as int) =~= s);
        0
    }
}

proof fn lemma_trimmed_end(s: Seq<char>) -> (j: int)
    ensures
        0 <= j <= s.len(),
        trimmed_end(s) == s.subrange(0, j),
        forall|k: int| j <= k < s.len() ==> white_space(#[trigger] s[k]),
        j > 0 ==> !white_space(s[j - 1]),
    decreases s.len(),
{
    if s.len() > 0 && white_space(s.last()) {
        let before = s.drop_last();
        let j = lemma_trimmed_end(before);
        assert(before.subrange(0, j) =~= s.subrange(0, j));
        assert forall|k: int| j <= k < s.len() implies white_space(#[trigger] s[k]) by {
            if k < before.len() {
                assert(before[k] == s[k]);
            }
        }
        j
    } else {
        assert(s.subrange(0, s.len() as int) =~= s);
        s.len() as int
    }
}

proof fn lemma_joined_first(x: Seq<char>, rest: Seq<Seq<char>>, sep: Seq<char>)
    requires
        rest.len() > 0,
    ensures
        joined(seq![x] + rest, sep) == x + sep + joined(rest, sep),
    decreases rest.len(),
{
    let all = seq![x] + rest;
    if rest.len() == 1 {
        assert(all.drop_last() =~= seq![x]);
        assert(all.last() == rest[0]);
        assert(joined(seq![x], sep) == x);
        assert(joined(all, sep) == x + sep + rest[0]);
    } else {
        lemma_joined_first(x, rest.drop_last(), sep);
        assert(all.drop_last() =~= seq![x] + rest.drop_last());
        assert(all.last() == rest.last());
        assert(joined(all, sep) =~= x + sep + joined(rest, sep));
    }
}

proof fn lemma_split_rejoins(s: Seq<char>, sep: char, start: int, i: int)
    requires
        0 <= start <= i <= s.len(),
        forall|k: int| start <= k < i ==> s[k] != sep,
    ensures
        split_from(s, sep, start, i).len() > 0,
        joined(split_from(s, sep, start, i), seq![sep]) == s.subrange(start, s.len() as int),
        forall|k: int|
            0 <= k < split_from(s, sep, start, i).len() ==> !(#[trigger] split_from(
                s,
                sep,
                start,
                i,
            )[k]).contains(sep),
    decreases s.len() - i,
{
    let all = split_from(s, sep, start, i);
    if i == s.len() {
        assert(all =~= seq![s.subrange(start, s.len() as int)]);
    } else if s[i] == sep {
        let first = s.subrange(start, i);
        let rest = split_from(s, sep, i + 1, i + 1);
        lemma_split_rejoins(s, sep, i + 1, i + 1);
        lemma_joined_first(first, rest, seq![sep]);
        assert(first + seq![sep] + s.subrange(i + 1, s.len() as int) =~= s.subrange(
            start,
            s.len() as int,
        ));
        assert forall|k: int| 0 <= k < all.len() implies !(#[trigger] all[k]).contains(sep) by {
            if k > 0 {
                assert(all[k] == rest[k - 1]);
            }
        }
    } else {
        lemma_split_rejoins(s, sep, start, i + 1);
    }
}

/// The parts of a text, joined by the separator again, are the text, and none holds the
/// separator.
pub proof fn law_parts_rejoin(s: Seq<char>, sep: char)
    ensures
        joined(parts(s, sep), seq![sep]) == s,
        parts(s, sep).len() > 0,
        forall|k: int|
            0 <= k < parts(s, sep).len() ==> !(#[trigger] parts(s, sep)[k]).contains(sep),
{
    lemma_split_rejoins(s, sep, 0, 0);
    assert(s.subrange(0, s.len() as int) =~= s);
}

proof fn lemma_split_shift(before: Seq<char>, s: Seq<char>, sep: char, start: int, i: int)
    requires
        0 <= start <= i <= s.len(),
    ensures
        split_from(before + s, sep, before.len() + start, before.len() + i) == split_from(
            s,
            sep,
            start,
            i,
        ),
    decreases s.len() - i,
{
    let all = before + s;
    let n = before.len() as int;
    if i < s.len() {
        if s[i] == sep {
            lemma_split_shift(before, s, sep, i + 1, i + 1);
            assert(all.subrange(n + start, n + i) =~= s.subrange(start, i));
        } else {
            lemma_split_shift(before, s, sep, start, i + 1);
        }
    } else {
        assert(all.subrange(n + start, all.len() as int) =~= s.subrange(start, s.len() as int));
    }
}

proof fn lemma_split_two(a: Seq<char>, b: Seq<char>, sep: char, start: int, i: int)
    requires
        0 <= start <= i <= a.len(),
    ensures
        split_from(a + seq![sep] + b, sep, start, i) == split_from(a, sep, start, i) + parts(
            b,
            sep,
        ),
    decreases a.len() - i,
{
    let all = a + seq![sep] + b;
    if i < a.len() {
        if a[i] == sep {
            lemma_split_two(a, b, sep, i + 1, i + 1);
            assert(all.subrange(start, i) =~= a.subrange(start, i));
            assert(split_from(all, sep, start, i) =~= split_from(a, sep, start, i) + parts(b, sep));
        } else {
            lemma_split_two(a, b, sep, start, i + 1);
        }
    } else {
        assert(all[i] == sep);
        assert(all.subrange(start, i) =~= a.subrange(start, a.len() as int));
        lemma_split_shift(a + seq![sep], b, sep, 0, 0);
        assert(split_from(all, sep, start, i) =~= split_from(a, sep, start, i) + parts(b, sep));
    }
}

/// Two texts with the separator between them part into the parts of the one and the parts of
/// the other; a text without the separator is its only part.
pub proof fn law_parts_of_two(a: Seq<char>, b: Seq<char>, sep: char)
    ensures
        parts(a + seq![sep] + b, sep) == parts(a, sep) + parts(b, sep),
        !a.contains(sep) ==> parts(a, sep) == seq![a],
{
    lemma_split_two(a, b, sep, 0, 0);
    if !a.contains(sep) {
        lemma_split_rejoins(a, sep, 0, 0);
        lemma_split_whole(a, sep, 0);
    }
}

proof fn lemma_split_whole(a: Seq<char>, sep: char, i: int)
    requires
        0 <= i <= a.len(),
        !a.contains(sep),
    ensures
        split_from(a, sep, 0, i) == seq![a],
    decreases a.len() - i,
{
    if i < a.len() {
        assert(a.contains(a[i]));
        lemma_split_whole(a, sep, i + 1);
    } else {
        assert(a.subrange(0, a.len() as int) =~= a);
    }
}

proof fn lemma_first_shift(before: Seq<char>, s: Seq<char>, p: Seq<char>, i: int)
    requires
        0 <= i,
    ensures
        first_from(before + s, p, before.len() + i) == (match first_from(s, p, i) {
            Some(k) => Some(before.len() + k),
            None => None,
        }),
    decreases s.len() + 1 - i,
{
    let all = before + s;
    let n = before.len() as int;
    if i + p.len() <= s.len() {
        assert(all.subrange(n + i, n + i + p.len()) =~= s.subrange(i, i + p.len()));
        if !occurs_at(s, p, i) {
            lemma_first_shift(before, s, p, i + 1);
        }
    }
}

proof fn lemma_replaced_shift(
    before: Seq<char>,
    s: Seq<char>,
    p: Seq<char>,
    r: Seq<char>,
    i: int,
)
    requires
        0 <= i <= s.len(),
        p.len() > 0,
    ensures
        replaced_from(before + s, p, r, before.len() + i) == replaced_from(s, p, r, i),
    decreases s.len() - i,
{
    let all = before + s;
    let n = before.len() as int;
    lemma_first_shift(before, s, p, i);
    lemma_first_from(s, p, i);
    match first_from(s, p, i) {
        Some(k) => {
            lemma_replaced_shift(before, s, p, r, k + p.len());
            assert(all.subrange(n + i, n + k) =~= s.subrange(i, k));
        },
        None => {
            assert(all.subrange(n + i, all.len() as int) =~= s.subrange(i, s.len() as int));
        },
    }
}

/// Replacing puts the new text in the place of the first occurrence, keeps what stands before
/// it, and goes on behind it; a text in which nothing occurs is kept.
pub proof fn law_occurrences_are_replaced(
    pre: Seq<char>,
    p: Seq<char>,
    post: Seq<char>,
    r: Seq<char>,
)
    requires
        p.len() > 0,
        forall|j: int| 0 <= j < pre.len() ==> !occurs_at(pre + p + post, p, j),
    ensures
        replaced(pre + p + post, p, r) == pre + r + replaced(post, p, r),
        !(has(post, p)) ==> replaced(post, p, r) == post,
{
    let s = pre + p + post;
    let at = pre.len() as int;
    assert(s.subrange(at, at + p.len()) =~= p);
    lemma_first_from(s, p, 0);
    assert(occurs_at(s, p, at));
    assert(first_from(s, p, 0) == Some(at));
    assert(s.subrange(0, at) =~= pre);
    lemma_replaced_shift(pre + p, post, p, r, 0);
    if !(has(post, p)) {
        lemma_first_from(post, p, 0);
        assert(post.subrange(0, post.len() as int) =~= post);
    }
}

/// A number written in decimal is read back, and is written in digits only.
pub proof fn law_decimal_is_read_back(n: nat)
    ensures
        digits_value(decimal(n)) == Some(n),
        int_value(decimal(n)) == Some(n as int),
        decimal(n).len() > 0,
        forall|i: int| 0 <= i < decimal(n).len() ==> is_digit(#[trigger] decimal(n)[i]),
    decreases n,
{
    let s = decimal(n);
    if n < 10 {
        assert(s.drop_last() =~= Seq::empty());
        assert(digits_value(s.drop_last()) == Some(0nat));
        assert(s.last() == digit(n));
        assert(is_digit(digit(n)));
        assert(digit(n) as u32 - '0' as u32 == n);
    } else {
        law_decimal_is_read_back(n / 10);
        assert(s.drop_last() =~= decimal(n / 10));
        assert(s.last() == digit(n % 10));
        assert(is_digit(digit(n % 10)));
        assert(digit(n % 10) as u32 - '0' as u32 == n % 10);
        assert forall|i: int| 0 <= i < s.len() implies is_digit(#[trigger] s[i]) by {
            if i < s.len() - 1 {
                assert(s[i] == decimal(n / 10)[i]);
            }
        }
        assert((n / 10) * 10 + n % 10 == n);
    }
    assert(is_digit(s[0]));
}

/// A line and its end come first among the lines of a text; the lines of what follows come
/// behind it.
pub proof fn law_lines_come_one_by_one(line: Seq<char>, rest: Seq<char>)
    requires
        !line.contains('\n'),
    ensures
        line.len() > 0 ==> line_seq(line) == seq![line],
        line.len() == 0 || line.last() != '\r' ==> line_seq(line + seq!['\n'] + rest) == seq![line]
            + line_seq(rest),
        line_seq(line + seq!['\r'] + seq!['\n'] + rest) == seq![line] + line_seq(rest),
        line_seq(Seq::empty()).len() == 0,
{
    law_parts_of_two(line, rest, '\n');
    law_parts_rejoin(rest, '\n');
    let ended = line.push('\r');
    assert(!ended.contains('\n')) by {
        if ended.contains('\n') {
            let k = choose|k: int| 0 <= k < ended.len() && ended[k] == '\n';
            assert(line[k] == '\n');
        }
    }
    law_parts_of_two(ended, rest, '\n');
    assert(line + seq!['\r'] =~= ended);
    assert(ended.drop_last() =~= line);
    assert(ended.subrange(0, ended.len() - 1) =~= line);
    let p = parts(rest, '\n');
    let one = seq![line] + p;
    let two = seq![ended] + p;
    assert(one.last() == p.last() && two.last() == p.last());
    assert(forall|i: int| 1 <= i < one.len() ==> one[i] == p[i - 1]);
    assert(forall|i: int| 1 <= i < two.len() ==> two[i] == p[i - 1]);
    assert(without_cr(ended) =~= line);
    if line.len() == 0 || line.last() != '\r' {
        assert(line_seq(line + seq!['\n'] + rest) =~= seq![line] + line_seq(rest));
    }
    assert(line_seq(line + seq!['\r'] + seq!['\n'] + rest) =~= seq![line] + line_seq(rest));
    let none = Seq::<char>::empty();
    assert(!none.contains('\n'));
    law_parts_of_two(none, rest, '\n');
    assert(line_seq(none) =~= Seq::empty());
    if line.len() > 0 {
        assert(line_seq(line) =~= seq![line]);
    }
}

/// An integer written in decimal is read back, with its sign.
pub proof fn law_integer_is_read_back(n: int)
    ensures
        int_value(decimal_int(n)) == Some(n),
{
    if n < 0 {
        law_decimal_is_read_back((-n) as nat);
        let s = decimal_int(n);
        assert(s.subrange(1, s.len() as int) =~= decimal((-n) as nat));
    } else {
        law_decimal_is_read_back(n as nat);
    }
}

} // verus!
