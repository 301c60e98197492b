//! The program that asks a local model one question: its arguments, the calls
//! that set the runtime up, and what it prints.

use crate::chat::{GenerationType, GenerationView};
use crate::config;
use crate::native;
use crate::native::normalize_prop_name;
use crate::runtime;
use crate::runtime::{ParamCall, ParamView};
use crate::text;
use crate::text::same;
use vstd::prelude::*;

verus! {

pub const ANSI_RESET: &'static str = "\x1b[0m";

pub const ANSI_THINKING: &'static str = "\x1b[36m";

/// The value of the first option with a name from index `i` on; none where the
/// option is the last argument or is not there.
pub open spec fn value_from(args: Seq<Seq<char>>, flag: Seq<char>, i: int) -> Option<Seq<char>>
    decreases args.len() - i,
{
    if i < 0 || i >= args.len() {
        None
    } else if args[i] == flag {
        if i + 1 < args.len() {
            Some(args[i + 1])
        } else {
            None
        }
    } else {
        value_from(args, flag, i + 1)
    }
}

/// The value of an option, or else a default.
pub open spec fn arg_of(args: Seq<Seq<char>>, flag: Seq<char>, default: Seq<char>) -> Seq<char> {
    match value_from(args, flag, 0) {
        Some(v) => v,
        None => default,
    }
}

/// Reads the value of an option.
pub fn parse_arg(args: &Vec<String>, flag: &str, default: &str) -> (r: String)
    ensures
        r@ == arg_of(text::views(args@), flag@, default@),
{
    let ghost all = text::views(args@);
    let mut i: usize = 0;
    while i < args.len()
        invariant
            i <= args.len(),
            all == text::views(args@),
            value_from(all, flag@, 0) == value_from(all, flag@, i as int),
        decreases args.len() - i,
    {
        assert(all[i as int] == args@[i as int]@);
        if same(args[i].as_str(), flag) {
            if args.len() - i > 1 {
                assert(all[i + 1] == args@[i + 1]@);
                return args[i + 1].as_str().to_string();
            }
            return default.to_string();
        }
        i = i + 1;
    }
    default.to_string()
}

/// The items of a list that are not blank, without white space around them.
pub open spec fn trimmed_items(items: Seq<Seq<char>>) -> Seq<Seq<char>>
    decreases items.len(),
{
    if items.len() == 0 {
        Seq::empty()
    } else {
        let before = trimmed_items(items.drop_last());
        let last = text::trimmed(items.last());
        if last.len() == 0 {
            before
        } else {
            before.push(last)
        }
    }
}

/// The beginning of a data URI, up to the comma before its payload.
pub open spec fn opens_data(part: Seq<char>) -> bool {
    text::has_prefix(text::trimmed_start(part), "data:"@) && text::has_suffix(part, ";base64"@)
}

/// The items of a list out of the parts between its commas: the beginning of a
/// data URI and its payload are one item.
pub open spec fn whole_items(parts: Seq<Seq<char>>) -> Seq<Seq<char>>
    decreases parts.len(),
{
    if parts.len() == 0 {
        Seq::empty()
    } else if parts.len() > 1 && opens_data(parts[0]) {
        seq![parts[0] + ","@ + parts[1]] + whole_items(parts.subrange(2, parts.len() as int))
    } else {
        seq![parts[0]] + whole_items(parts.subrange(1, parts.len() as int))
    }
}

/// The items of a list with commas.
pub open spec fn list_items(value: Seq<char>) -> Seq<Seq<char>> {
    trimmed_items(whole_items(text::parts(value, ',')))
}

/// The items of an option that takes a list with commas.
pub open spec fn items_of(args: Seq<Seq<char>>, flag: Seq<char>) -> Seq<Seq<char>> {
    let value = arg_of(args, flag, ""@);
    if config::blank(value) {
        Seq::empty()
    } else {
        list_items(value)
    }
}

fn begins_data(part: &str) -> (r: bool)
    ensures
        r == opens_data(part@),
{
    let rest = text::trim_start(part);
    text::starts_with(rest.as_str(), "data:") && text::ends_with(part, ";base64")
}

fn join_items(parts: &Vec<String>) -> (r: Vec<String>)
    ensures
        text::views(r@) == whole_items(text::views(parts@)),
{
    broadcast use text::lemma_views_push;

    let ghost all = text::views(parts@);
    let n: usize = parts.len();
    let mut out: Vec<String> = Vec::new();
    let mut i: usize = 0;
    assert(all.subrange(0, all.len() as int) =~= all);
    assert(text::views(out@) + whole_items(all) =~= whole_items(all));
    while i < n
        invariant
            i <= n == parts.len(),
            all == text::views(parts@),
            text::views(out@) + whole_items(all.subrange(i as int, n as int)) == whole_items(all),
        decreases n - i,
    {
        let ghost rest = all.subrange(i as int, n as int);
        let ghost done = text::views(out@);
        assert(rest[0] == parts@[i as int]@);
        if n - i > 1 && begins_data(parts[i].as_str()) {
            let item = text::cat3(parts[i].as_str(), ",", parts[i + 1].as_str());
            proof {
                assert(rest[1] == parts@[i + 1]@);
                assert(rest.subrange(2, rest.len() as int) =~= all.subrange(i + 2, n as int));
                assert(done.push(item@) + whole_items(all.subrange(i + 2, n as int)) =~= done
                    + whole_items(rest));
            }
            out.push(item);
            i = i + 2;
        } else {
            let item = parts[i].as_str().to_string();
            proof {
                assert(rest.subrange(1, rest.len() as int) =~= all.subrange(i + 1, n as int));
                assert(done.push(item@) + whole_items(all.subrange(i + 1, n as int)) =~= done
                    + whole_items(rest));
            }
            out.push(item);
            i = i + 1;
        }
    }
    assert(all.subrange(n as int, n as int) =~= Seq::empty());
    assert(text::views(out@) + Seq::<Seq<char>>::empty() =~= text::views(out@));
    out
}

/// Reads an option that takes a list with commas. The comma within a data URI
/// parts no items.
pub fn parse_csv_arg(args: &Vec<String>, flag: &str) -> (r: Vec<String>)
    ensures
        text::views(r@) == items_of(text::views(args@), flag@),
{
    broadcast use text::lemma_views_push;

    let value = parse_arg(args, flag, "");
    let mut out: Vec<String> = Vec::new();
    assert(text::views(out@) =~= Seq::<Seq<char>>::empty());
    if config::is_blank(value.as_str()) {
        return out;
    }
    let items = join_items(&text::split(value.as_str(), ','));
    let ghost all = text::views(items@);
    let mut i: usize = 0;
    assert(all.subrange(0, 0) =~= Seq::empty());
    while i < items.len()
        invariant
            i <= items.len(),
            all == text::views(items@),
            text::views(out@) == trimmed_items(all.subrange(0, i as int)),
        decreases items.len() - i,
    {
        proof {
            let next = all.subrange(0, i + 1);
            assert(next.drop_last() =~= all.subrange(0, i as int));
            assert(next.last() == items@[i as int]@);
        }
        let item = text::trim(items[i].as_str());
        if item.as_str().unicode_len() > 0 {
            out.push(item);
        }
        i = i + 1;
    }
    assert(all.subrange(0, all.len() as int) =~= all);
    out
}

/// A list in which nothing begins a data URI is parted at each comma.
pub proof fn law_plain_list_is_parted(parts: Seq<Seq<char>>)
    requires
        forall|k: int| 0 <= k < parts.len() ==> !opens_data(#[trigger] parts[k]),
    ensures
        whole_items(parts) == parts,
    decreases parts.len(),
{
    if parts.len() > 0 {
        assert(!opens_data(parts[0]));
        law_plain_list_is_parted(parts.subrange(1, parts.len() as int));
        assert(seq![parts[0]] + parts.subrange(1, parts.len() as int) =~= parts);
    }
}

/// A data URI with a payload in base64.
pub open spec fn data_uri(mime: Seq<char>, payload: Seq<char>) -> Seq<char> {
    "data:"@ + mime + ";base64"@ + ","@ + payload
}

/// Data URIs with the given types and payloads.
pub open spec fn data_uris(mimes: Seq<Seq<char>>, payloads: Seq<Seq<char>>) -> Seq<Seq<char>> {
    Seq::new(mimes.len(), |k: int| data_uri(mimes[k], payloads[k]))
}

/// Items one behind the other, with commas between them.
pub open spec fn with_commas(items: Seq<Seq<char>>) -> Seq<char>
    decreases items.len(),
{
    if items.len() == 0 {
        Seq::empty()
    } else if items.len() == 1 {
        items[0]
    } else {
        items[0] + ","@ + with_commas(items.subrange(1, items.len() as int))
    }
}

proof fn lemma_parts_one(s: Seq<char>, start: int, i: int)
    requires
        0 <= start <= i <= s.len(),
        !s.contains(','),
    ensures
        text::split_from(s, ',', start, i) == seq![s.subrange(start, s.len() as int)],
    decreases s.len() - i,
{
    if i < s.len() {
        assert(s.contains(s[i]));
        lemma_parts_one(s, start, i + 1);
    }
}

proof fn lemma_parts_shift(before: Seq<char>, s: Seq<char>, start: int, i: int)
    requires
        0 <= start <= i <= s.len(),
    ensures
        text::split_from(before + s, ',', before.len() + start, before.len() + i)
            == text::split_from(s, ',', start, i),
    decreases s.len() - i,
{
    let w = before + s;
    let n = before.len() as int;
    if i < s.len() {
        assert(w[n + i] == s[i]);
        assert(w.subrange(n + start, n + i) =~= s.subrange(start, i));
        if s[i] == ',' {
            lemma_parts_shift(before, s, i + 1, i + 1);
        } else {
            lemma_parts_shift(before, s, start, i + 1);
        }
    } else {
        assert(w.subrange(n + start, w.len() as int) =~= s.subrange(start, s.len() as int));
    }
}

proof fn lemma_parts_first(a: Seq<char>, s: Seq<char>, i: int)
    requires
        0 <= i <= a.len(),
        !a.contains(','),
    ensures
        text::split_from(a + seq![','] + s, ',', 0, i) == seq![a] + text::parts(s, ','),
    decreases a.len() - i,
{
    let w = a + seq![','] + s;
    if i < a.len() {
        assert(a.contains(a[i]));
        assert(w[i] == a[i]);
        lemma_parts_first(a, s, i + 1);
    } else {
        assert(w[i] == ',');
        assert(w.subrange(0, i) =~= a);
        lemma_parts_shift(a + seq![','], s, 0, 0);
    }
}

proof fn lemma_data_head(mime: Seq<char>)
    requires
        !mime.contains(','),
    ensures
        opens_data("data:"@ + mime + ";base64"@),
        !("data:"@ + mime + ";base64"@).contains(','),
{
    reveal_strlit("data:");
    reveal_strlit(";base64");
    let h = "data:"@ + mime + ";base64"@;
    assert(h[0] == 'd');
    assert(h.subrange(0, 5) =~= "data:"@);
    assert(h.subrange(h.len() - 7, h.len() as int) =~= ";base64"@);
    assert forall|k: int| 0 <= k < h.len() implies h[k] != ',' by {
        if 5 <= k < 5 + mime.len() {
            assert(h[k] == mime[k - 5]);
            assert(mime.contains(mime[k - 5]));
        }
    }
}

proof fn lemma_data_parts(mimes: Seq<Seq<char>>, payloads: Seq<Seq<char>>)
    requires
        mimes.len() == payloads.len(),
        mimes.len() > 0,
        forall|k: int| 0 <= k < mimes.len() ==> !(#[trigger] mimes[k]).contains(','),
        forall|k: int| 0 <= k < payloads.len() ==> !(#[trigger] payloads[k]).contains(','),
    ensures
        whole_items(text::parts(with_commas(data_uris(mimes, payloads)), ',')) == data_uris(
            mimes,
            payloads,
        ),
    decreases mimes.len(),
{
    reveal_strlit(",");
    let uris = data_uris(mimes, payloads);
    let n = mimes.len() as int;
    let h = "data:"@ + mimes[0] + ";base64"@;
    let p = payloads[0];
    assert(","@ =~= seq![',']);
    lemma_data_head(mimes[0]);
    assert(uris[0] =~= h + seq![','] + p);
    if n == 1 {
        lemma_parts_first(h, p, 0);
        lemma_parts_one(p, 0, 0);
        assert(p.subrange(0, p.len() as int) =~= p);
        let parts = text::parts(uris[0], ',');
        assert(parts =~= seq![h, p]);
        assert(parts.subrange(2, parts.len() as int) =~= Seq::empty());
        assert(whole_items(parts.subrange(2, parts.len() as int)) =~= Seq::empty());
        assert(with_commas(uris) == uris[0]);
        assert(whole_items(parts) =~= uris);
    } else {
        let rest = uris.subrange(1, n);
        let later = with_commas(rest);
        let ms = mimes.subrange(1, n);
        let ps = payloads.subrange(1, n);
        assert(rest =~= data_uris(ms, ps));
        lemma_data_parts(ms, ps);
        let behind = p + seq![','] + later;
        assert(with_commas(uris) =~= h + seq![','] + behind);
        lemma_parts_first(h, behind, 0);
        lemma_parts_first(p, later, 0);
        let parts = text::parts(with_commas(uris), ',');
        let tail = text::parts(later, ',');
        assert(parts =~= seq![h, p] + tail);
        assert(parts.subrange(2, parts.len() as int) =~= tail);
        assert(whole_items(parts) =~= uris);
    }
}

proof fn lemma_not_blank(s: Seq<char>)
    requires
        s.len() > 0,
        !text::white_space(s[0]),
    ensures
        text::trimmed_end(s).len() > 0,
    decreases s.len(),
{
    if text::white_space(s.last()) {
        lemma_not_blank(s.drop_last());
    }
}

proof fn lemma_trimmed_kept(items: Seq<Seq<char>>)
    requires
        forall|k: int|
            0 <= k < items.len() ==> (#[trigger] items[k]).len() > 0 && text::trimmed(items[k])
                == items[k],
    ensures
        trimmed_items(items) == items,
    decreases items.len(),
{
    if items.len() > 0 {
        assert(items.last() == items[items.len() - 1]);
        lemma_trimmed_kept(items.drop_last());
        assert(items.drop_last().push(items.last()) =~= items);
    }
}

/// A list of data URIs is read as those data URIs.
pub proof fn law_data_uris_stay_whole(
    args: Seq<Seq<char>>,
    flag: Seq<char>,
    mimes: Seq<Seq<char>>,
    payloads: Seq<Seq<char>>,
)
    requires
        mimes.len() == payloads.len(),
        mimes.len() > 0,
        forall|k: int| 0 <= k < mimes.len() ==> !(#[trigger] mimes[k]).contains(','),
        forall|k: int| 0 <= k < payloads.len() ==> !(#[trigger] payloads[k]).contains(','),
        forall|k: int|
            0 <= k < payloads.len() && (#[trigger] payloads[k]).len() > 0 ==> !text::white_space(
                payloads[k].last(),
            ),
        arg_of(args, flag, ""@) == with_commas(data_uris(mimes, payloads)),
    ensures
        items_of(args, flag) == data_uris(mimes, payloads),
{
    reveal_strlit("data:");
    reveal_strlit(";base64");
    reveal_strlit(",");
    let uris = data_uris(mimes, payloads);
    let value = with_commas(uris);
    lemma_data_parts(mimes, payloads);
    assert forall|k: int| 0 <= k < uris.len() implies (#[trigger] uris[k]).len() > 0
        && text::trimmed(uris[k]) == uris[k] by {
        let u = uris[k];
        let p = payloads[k];
        assert(u == data_uri(mimes[k], p));
        assert(u[0] == 'd');
        if p.len() > 0 {
            assert(u.last() == p.last());
        } else {
            assert(u.last() == ',');
        }
        text::lemma_trimmed_same(u);
    }
    lemma_trimmed_kept(uris);
    assert(uris[0][0] == 'd');
    assert(value[0] == 'd');
    lemma_not_blank(value);
}

/// The name of a draft model.
pub open spec fn is_mtp(name: Seq<char>) -> bool {
    text::has_prefix(name, "mtp-"@) && text::has_suffix(name, ".gguf"@)
}

/// The names of draft models.
pub open spec fn mtp_names(names: Seq<Seq<char>>) -> Seq<Seq<char>>
    decreases names.len(),
{
    if names.len() == 0 {
        Seq::empty()
    } else if is_mtp(names.last()) {
        mtp_names(names.drop_last()).push(names.last())
    } else {
        mtp_names(names.drop_last())
    }
}

/// The draft model among the files of a directory: the first by its name.
pub open spec fn guessed_mtp(names: Seq<Seq<char>>) -> Option<Seq<char>> {
    let found = text::ordered(mtp_names(names));
    if found.len() > 0 {
        Some(found[0])
    } else {
        None
    }
}

/// Guesses the draft model among the files of the directory of the model.
pub fn guess_mtp_model(names: &Vec<String>) -> (r: Option<String>)
    ensures
        text::opt_view(r) == guessed_mtp(text::views(names@)),
{
    broadcast use text::lemma_views_push;

    let ghost all = text::views(names@);
    let mut found: Vec<String> = Vec::new();
    let mut i: usize = 0;
    assert(all.subrange(0, 0) =~= Seq::empty());
    assert(text::views(found@) =~= Seq::<Seq<char>>::empty());
    while i < names.len()
        invariant
            i <= names.len(),
            all == text::views(names@),
            text::views(found@) == mtp_names(all.subrange(0, i as int)),
        decreases names.len() - i,
    {
        proof {
            let next = all.subrange(0, i + 1);
            assert(next.drop_last() =~= all.subrange(0, i as int));
            assert(next.last() == names@[i as int]@);
        }
        let name = names[i].as_str();
        if text::starts_with(name, "mtp-") && text::ends_with(name, ".gguf") {
            found.push(name.to_string());
        }
        i = i + 1;
    }
    assert(all.subrange(0, all.len() as int) =~= all);
    let sorted = text::sort(&found);
    if sorted.len() > 0 {
        assert(text::views(sorted@)[0] == sorted@[0]@);
        Some(sorted[0].as_str().to_string())
    } else {
        None
    }
}

/// A guessed draft model is one, and none comes before it.
pub proof fn law_guess_is_first_draft(names: Seq<Seq<char>>)
    ensures
        match guessed_mtp(names) {
            Some(g) => is_mtp(g) && names.contains(g) && forall|k: int|
                0 <= k < names.len() && is_mtp(names[k]) ==> !text::precedes(
                    #[trigger] names[k],
                    g,
                ),
            None => forall|k: int| 0 <= k < names.len() ==> !is_mtp(#[trigger] names[k]),
        },
{
    let found = mtp_names(names);
    lemma_mtp_names(names);
    text::law_ordered(found);
    let sorted = text::ordered(found);
    broadcast use vstd::seq_lib::group_to_multiset_ensures;

    if sorted.len() > 0 {
        assert(sorted.contains(sorted[0]));
        assert(found.to_multiset().count(sorted[0]) > 0);
        assert(found.contains(sorted[0]));
        assert forall|k: int| 0 <= k < names.len() && is_mtp(names[k]) implies !text::precedes(
            #[trigger] names[k],
            sorted[0],
        ) by {
            assert(found.contains(names[k]));
            assert(sorted.to_multiset().count(names[k]) > 0);
            assert(sorted.contains(names[k]));
            let j = choose|j: int| 0 <= j < sorted.len() && sorted[j] == names[k];
            assert(!text::precedes(sorted[j], sorted[0]));
        }
    } else {
        assert(found.len() == 0) by {
            assert(sorted.to_multiset().len() == 0);
        }
    }
}

proof fn lemma_mtp_names(names: Seq<Seq<char>>)
    ensures
        forall|x: Seq<char>| #[trigger]
            mtp_names(names).contains(x) <==> names.contains(x) && is_mtp(x),
        forall|k: int|
            0 <= k < names.len() && is_mtp(#[trigger] names[k]) ==> mtp_names(names).contains(
                names[k],
            ),
    decreases names.len(),
{
    if names.len() > 0 {
        let init = names.drop_last();
        lemma_mtp_names(init);
        let before = mtp_names(init);
        let after = mtp_names(names);
        assert forall|x: Seq<char>| #[trigger] after.contains(x) implies names.contains(x)
            && is_mtp(x) by {
            let k = choose|k: int| 0 <= k < after.len() && after[k] == x;
            if k < before.len() {
                assert(before[k] == x);
                assert(before.contains(x));
                let j = choose|j: int| 0 <= j < init.len() && init[j] == x;
                assert(names[j] == x);
            } else {
                assert(names[names.len() - 1] == x);
            }
        }
        assert forall|x: Seq<char>| names.contains(x) && is_mtp(x) implies #[trigger] after.contains(
            x,
        ) by {
            let k = choose|k: int| 0 <= k < names.len() && names[k] == x;
            if k < init.len() {
                assert(init[k] == x);
                assert(before.contains(x));
                let j = choose|j: int| 0 <= j < before.len() && before[j] == x;
                assert(after[j] == x);
            } else {
                assert(after[after.len() - 1] == x);
            }
        }
        assert forall|k: int| 0 <= k < names.len() && is_mtp(#[trigger] names[k]) implies after.contains(
            names[k],
        ) by {
            assert(names.contains(names[k]));
        }
    }
}

/// What the program is printing.
#[derive(Debug, Clone, Copy, PartialEq, Eq, Structural)]
pub enum StreamPhase {
    Idle,
    Thinking,
    Answer,
}

/// The state of what is printed.
#[derive(Debug, Clone, Copy, PartialEq, Eq, Structural)]
pub struct StreamState {
    pub phase: StreamPhase,
}

/// What is printed of a piece, and the phase after it.
pub open spec fn printed(phase: StreamPhase, piece: GenerationView) -> (Seq<char>, StreamPhase) {
    match piece {
        GenerationView::Content(t) => (
            if phase == StreamPhase::Thinking {
                "\n\n"@ + t
            } else {
                t
            },
            StreamPhase::Answer,
        ),
        GenerationView::Reasoning(t) => (
            ANSI_THINKING@ + t + ANSI_RESET@,
            StreamPhase::Thinking,
        ),
        _ => (Seq::empty(), phase),
    }
}

impl StreamState {
    pub fn new() -> (r: StreamState)
        ensures
            r.phase == StreamPhase::Idle,
    {
        StreamState { phase: StreamPhase::Idle }
    }

    /// What is printed of a piece of the answer.
    pub fn stream(&mut self, piece: &GenerationType) -> (r: String)
        ensures
            (r@, final(self).phase) == printed(old(self).phase, piece@),
    {
        match piece {
            GenerationType::Content(t) => {
                let r = if self.phase == StreamPhase::Thinking {
                    text::cat2("\n\n", t.as_str())
                } else {
                    t.as_str().to_string()
                };
                self.phase = StreamPhase::Answer;
                r
            },
            GenerationType::Reasoning(t) => {
                self.phase = StreamPhase::Thinking;
                text::cat3(ANSI_THINKING, t.as_str(), ANSI_RESET)
            },
            _ => {
                let none = String::new();
                assert(none@ =~= Seq::empty());
                none
            },
        }
    }

    /// Begins anew.
    pub fn reset(&mut self)
        ensures
            final(self).phase == StreamPhase::Idle,
    {
        self.phase = StreamPhase::Idle;
    }
}

/// What the arguments ask for. The two probabilities are kept as they are
/// shown to the runtime.
#[derive(Debug, PartialEq)]
pub struct InferenceOpts {
    pub model: String,
    pub prompt: String,
    pub reasoning_format: String,
    pub reasoning_mode: String,
    pub n_predict: String,
    pub spec_type: String,
    pub spec_draft_model: String,
    pub spec_draft_n_max: String,
    pub spec_draft_n_min: String,
    pub spec_draft_p_split: String,
    pub spec_draft_p_min: String,
    pub spec_draft_backend_sampling: String,
    pub spec_draft_ngl: String,
}

impl InferenceOpts {
    /// Reads the arguments behind the program's name.
    pub fn read(args: &Vec<String>) -> (r: InferenceOpts)
        ensures
            ({
                let a = text::views(args@);
                &&& r.model@ == arg_of(
                    a,
                    "--model"@,
                    "/home/johnathan/models/gemma-4-E4B-it-Q6_K.gguf"@,
                )
                &&& r.prompt@ == arg_of(a, "--prompt"@, "O que é Rust language?"@)
                &&& r.reasoning_format@ == arg_of(a, "--reasoning-format"@, "auto"@)
                &&& r.reasoning_mode@ == arg_of(a, "--reasoning"@, "on"@)
                &&& r.n_predict@ == arg_of(a, "--n-predict"@, "-1"@)
                &&& r.spec_type@ == arg_of(a, "--spec-type"@, "draft-mtp"@)
                &&& r.spec_draft_model@ == arg_of(a, "--spec-draft-model"@, ""@)
                &&& r.spec_draft_n_max@ == arg_of(a, "--spec-draft-n-max"@, "4"@)
                &&& r.spec_draft_n_min@ == arg_of(a, "--spec-draft-n-min"@, "0"@)
                &&& r.spec_draft_p_split@ == arg_of(a, "--spec-draft-p-split"@, "0.10"@)
                &&& r.spec_draft_p_min@ == arg_of(a, "--spec-draft-p-min"@, "0.00"@)
                &&& r.spec_draft_backend_sampling@ == arg_of(
                    a,
                    "--spec-draft-backend-sampling"@,
                    "on"@,
                )
                &&& r.spec_draft_ngl@ == arg_of(a, "--spec-draft-ngl"@, "-1"@)
            }),
    {
        InferenceOpts {
            model: parse_arg(args, "--model", "/home/johnathan/models/gemma-4-E4B-it-Q6_K.gguf"),
            prompt: parse_arg(args, "--prompt", "O que é Rust language?"),
            reasoning_format: parse_arg(args, "--reasoning-format", "auto"),
            reasoning_mode: parse_arg(args, "--reasoning", "on"),
            n_predict: parse_arg(args, "--n-predict", "-1"),
            spec_type: parse_arg(args, "--spec-type", "draft-mtp"),
            spec_draft_model: parse_arg(args, "--spec-draft-model", ""),
            spec_draft_n_max: parse_arg(args, "--spec-draft-n-max", "4"),
            spec_draft_n_min: parse_arg(args, "--spec-draft-n-min", "0"),
            spec_draft_p_split: parse_arg(args, "--spec-draft-p-split", "0.10"),
            spec_draft_p_min: parse_arg(args, "--spec-draft-p-min", "0.00"),
            spec_draft_backend_sampling: parse_arg(args, "--spec-draft-backend-sampling", "on"),
            spec_draft_ngl: parse_arg(args, "--spec-draft-ngl", "-1"),
        }
    }

    /// Whether a draft model has to be guessed.
    pub fn guesses_draft(&self) -> (r: bool)
        ensures
            r == (self.spec_type@ == "draft-mtp"@ && config::blank(self.spec_draft_model@)),
    {
        same(self.spec_type.as_str(), "draft-mtp") && config::is_blank(
            self.spec_draft_model.as_str(),
        )
    }
}

/// An integer that a text writes, or else another.
pub open spec fn int_or(s: Seq<char>, d: int) -> int {
    match text::int_value_in(s, i64::MIN as int, i64::MAX as int) {
        Some(n) => n,
        None => d,
    }
}

/// A text that stands for yes.
pub open spec fn says_on(s: Seq<char>) -> bool {
    s == "1"@ || s == "true"@ || s == "on"@ || s == "yes"@
}

/// An option under its normalized name.
pub open spec fn option_call(name: Seq<char>, value: Seq<char>) -> ParamView {
    ParamView::SetOption { name: native::prop_name(name), value }
}

/// The calls that set the runtime up.
pub open spec fn wanted_calls(
    o: InferenceOpts,
    guessed: Option<Seq<char>>,
    p_split: Seq<char>,
    p_min: Seq<char>,
) -> Seq<ParamView> {
    let base = seq![
        ParamView::ReasoningFormat(o.reasoning_format@),
        ParamView::UseJinja(true),
        option_call("--fit"@, "off"@),
        option_call("--n-predict"@, o.n_predict@),
        option_call("--spec-type"@, o.spec_type@),
    ];
    let drafted = if !config::blank(o.spec_draft_model@) {
        base.push(option_call("--spec-draft-model"@, o.spec_draft_model@))
    } else {
        match guessed {
            Some(g) => base.push(option_call("--spec-draft-model"@, g)),
            None => base,
        }
    };
    let tuned = drafted + seq![
        option_call("--spec-draft-n-max"@, text::decimal_int(int_or(o.spec_draft_n_max@, 4))),
        option_call("--spec-draft-n-min"@, text::decimal_int(int_or(o.spec_draft_n_min@, 0))),
        option_call("--spec-draft-p-split"@, p_split),
        option_call("--spec-draft-p-min"@, p_min),
        option_call(
            "--spec-draft-backend-sampling"@,
            if says_on(o.spec_draft_backend_sampling@) {
                "on"@
            } else {
                "off"@
            },
        ),
        option_call("--spec-draft-ngl"@, text::decimal_int(int_or(o.spec_draft_ngl@, -1))),
    ];
    let budgeted = if o.reasoning_mode@ != "off"@ {
        tuned + seq![
            option_call("--reasoning-budget"@, "-1"@),
            option_call(
                "--reasoning-budget-message"@,
                "Responda em portugues de forma direta, completa e objetiva."@,
            ),
        ]
    } else {
        tuned
    };
    budgeted.push(
        ParamView::EnableReasoning(
            if o.reasoning_mode@ == "on"@ {
                1i64
            } else if o.reasoning_mode@ == "off"@ {
                0i64
            } else {
                -1i64
            },
        ),
    )
}

fn option(name: &str, value: &str) -> (r: ParamCall)
    ensures
        r@ == option_call(name@, value@),
{
    ParamCall::SetOption { name: normalize_prop_name(name), value: value.to_string() }
}

fn parse_or(s: &str, d: i64) -> (r: String)
    ensures
        r@ == text::decimal_int(int_or(s@, d as int)),
{
    match text::parse_i64(s) {
        Some(n) => text::write_i64(n),
        None => text::write_i64(d),
    }
}

/// The calls that set the runtime up; those that cannot be made are left out.
pub fn setup_calls(o: &InferenceOpts, guessed: &Option<String>, p_split: &str, p_min: &str) -> (r:
    Vec<ParamCall>)
    ensures
        text::views(r@) == runtime::valid_only(
            wanted_calls(*o, text::opt_view(*guessed), p_split@, p_min@),
        ),
{
    let mut calls: Vec<ParamCall> = Vec::new();
    calls.push(ParamCall::ReasoningFormat(o.reasoning_format.as_str().to_string()));
    calls.push(ParamCall::UseJinja(true));
    calls.push(option("--fit", "off"));
    calls.push(option("--n-predict", o.n_predict.as_str()));
    calls.push(option("--spec-type", o.spec_type.as_str()));
    if !config::is_blank(o.spec_draft_model.as_str()) {
        calls.push(option("--spec-draft-model", o.spec_draft_model.as_str()));
    } else {
        match guessed {
            Some(g) => {
                calls.push(option("--spec-draft-model", g.as_str()));
            },
            None => {},
        }
    }
    let n_max = parse_or(o.spec_draft_n_max.as_str(), 4);
    let n_min = parse_or(o.spec_draft_n_min.as_str(), 0);
    let ngl = parse_or(o.spec_draft_ngl.as_str(), -1);
    calls.push(option("--spec-draft-n-max", n_max.as_str()));
    calls.push(option("--spec-draft-n-min", n_min.as_str()));
    calls.push(option("--spec-draft-p-split", p_split));
    calls.push(option("--spec-draft-p-min", p_min));
    let on = o.spec_draft_backend_sampling.as_str();
    let sampling = same(on, "1") || same(on, "true") || same(on, "on") || same(on, "yes");
    calls.push(
        option(
            "--spec-draft-backend-sampling",
            if sampling {
                "on"
            } else {
                "off"
            },
        ),
    );
    calls.push(option("--spec-draft-ngl", ngl.as_str()));
    let mode = o.reasoning_mode.as_str();
    if !same(mode, "off") {
        calls.push(option("--reasoning-budget", "-1"));
        calls.push(
            option(
                "--reasoning-budget-message",
                "Responda em portugues de forma direta, completa e objetiva.",
            ),
        );
    }
    calls.push(
        ParamCall::EnableReasoning(
            if same(mode, "on") {
                1
            } else if same(mode, "off") {
                0
            } else {
                -1
            },
        ),
    );
    assert(text::views(calls@) =~= wanted_calls(*o, text::opt_view(*guessed), p_split@, p_min@));
    runtime::valid_calls(&calls)
}

/// A capability and whether it is there.
pub open spec fn cap_text(name: Seq<char>, on: bool) -> Seq<char> {
    name + "="@ + if on {
        "true"@
    } else {
        "false"@
    }
}

/// The line of capabilities under a name.
pub open spec fn caps_text(name: Seq<char>, caps: Seq<(String, bool)>) -> Seq<char> {
    name + " = {"@ + text::joined(
        Seq::new(caps.len(), |i: int| cap_text(caps[i].0@, caps[i].1)),
        ", "@,
    ) + "}"@
}

/// Writes the line of capabilities under a name.
pub fn caps_line(name: &str, caps: &Vec<(String, bool)>) -> (r: String)
    ensures
        r@ == caps_text(name@, caps@),
{
    let mut pieces: Vec<String> = Vec::new();
    let mut i: usize = 0;
    while i < caps.len()
        invariant
            i <= caps.len(),
            pieces.len() == i,
            forall|k: int|
                0 <= k < i ==> (#[trigger] pieces@[k])@ == cap_text(caps@[k].0@, caps@[k].1),
        decreases caps.len() - i,
    {
        pieces.push(
            text::cat3(
                caps[i].0.as_str(),
                "=",
                if caps[i].1 {
                    "true"
                } else {
                    "false"
                },
            ),
        );
        i = i + 1;
    }
    assert(text::views(pieces@) =~= Seq::new(
        caps@.len(),
        |i: int| cap_text(caps@[i].0@, caps@[i].1),
    ));
    let body = text::join(&pieces, ", ");
    text::cat4(name, " = {", body.as_str(), "}")
}

/// The value of an option is the argument behind its first occurrence; without one the default
/// counts.
pub proof fn law_value_stands_behind_option(
    before: Seq<Seq<char>>,
    flag: Seq<char>,
    v: Seq<char>,
    rest: Seq<Seq<char>>,
    default: Seq<char>,
)
    requires
        !before.contains(flag),
    ensures
        arg_of(before + seq![flag, v] + rest, flag, default) == v,
        arg_of(before, flag, default) == default,
        arg_of(before.push(flag), flag, default) == default,
{
    let all = before + seq![flag, v] + rest;
    let n = before.len() as int;
    assert forall|k: int| 0 <= k < n implies all[k] != flag by {
        assert(all[k] == before[k]);
        assert(before.contains(before[k]));
    }
    assert(all[n] == flag && all[n + 1] == v);
    lemma_value_at(all, flag, 0, n);
    let cut = before.push(flag);
    assert forall|k: int| 0 <= k < n implies cut[k] != flag by {
        assert(before.contains(before[k]));
    }
    lemma_value_at(cut, flag, 0, n);
    assert forall|k: int| 0 <= k < n implies before[k] != flag by {
        assert(before.contains(before[k]));
    }
    lemma_value_at(before, flag, 0, n);
}

proof fn lemma_value_at(args: Seq<Seq<char>>, flag: Seq<char>, i: int, n: int)
    requires
        0 <= i <= n <= args.len(),
        forall|k: int| 0 <= k < n ==> args[k] != flag,
    ensures
        value_from(args, flag, i) == value_from(args, flag, n),
    decreases n - i,
{
    if i < n {
        lemma_value_at(args, flag, i + 1, n);
    }
}

/// The items of a list are taken without white space around them, in order; blank ones are passed
/// over.
pub proof fn law_items_are_trimmed(items: Seq<Seq<char>>, item: Seq<char>)
    ensures
        text::trimmed(item).len() > 0 ==> trimmed_items(items.push(item)) == trimmed_items(
            items,
        ).push(text::trimmed(item)),
        text::trimmed(item).len() == 0 ==> trimmed_items(items.push(item)) == trimmed_items(items),
        trimmed_items(Seq::empty()).len() == 0,
{
    assert(items.push(item).drop_last() =~= items);
}

/// The answer is printed as it comes, set apart from reasoning before it; reasoning is printed in
/// its own colour.
pub proof fn law_answer_is_printed(t: Seq<char>)
    ensures
        printed(StreamPhase::Idle, GenerationView::Content(t)) == (t, StreamPhase::Answer),
        printed(StreamPhase::Answer, GenerationView::Content(t)) == (t, StreamPhase::Answer),
        printed(StreamPhase::Thinking, GenerationView::Content(t)) == (
            "\n\n"@ + t,
            StreamPhase::Answer,
        ),
        forall|phase: StreamPhase|
            #[trigger] printed(phase, GenerationView::Reasoning(t)) == (
                "\x1b[36m"@ + t + "\x1b[0m"@,
                StreamPhase::Thinking,
            ),
{
}

/// The runtime is set up with what the arguments ask for: the format of reasoning, the longest
/// answer, the speculation, the draft model, which is guessed only where none is given, and
/// whether to reason.
pub proof fn law_arguments_reach_runtime(
    o: InferenceOpts,
    guessed: Option<Seq<char>>,
    p_split: Seq<char>,
    p_min: Seq<char>,
)
    ensures
        ({
            let calls = wanted_calls(o, guessed, p_split, p_min);
            &&& calls[0] == ParamView::ReasoningFormat(o.reasoning_format@)
            &&& calls[3] == (ParamView::SetOption {
                name: native::prop_name("--n-predict"@),
                value: o.n_predict@,
            })
            &&& calls[4] == (ParamView::SetOption {
                name: native::prop_name("--spec-type"@),
                value: o.spec_type@,
            })
            &&& text::trimmed(o.spec_draft_model@).len() > 0 ==> calls[5] == (ParamView::SetOption {
                name: native::prop_name("--spec-draft-model"@),
                value: o.spec_draft_model@,
            })
            &&& forall|g: Seq<char>|
                text::trimmed(o.spec_draft_model@).len() == 0 && guessed == Some(g) ==> calls[5]
                    == (ParamView::SetOption {
                    name: native::prop_name("--spec-draft-model"@),
                    value: g,
                })
            &&& o.reasoning_mode@ == "on"@ ==> calls.last() == ParamView::EnableReasoning(1)
            &&& o.reasoning_mode@ == "off"@ ==> calls.last() == ParamView::EnableReasoning(0)
            &&& o.reasoning_mode@ != "on"@ && o.reasoning_mode@ != "off"@ ==> calls.last()
                == ParamView::EnableReasoning(-1i64)
        }),
{
    reveal_strlit("on");
    reveal_strlit("off");
    assert("on"@.len() != "off"@.len());
}

} // verus!
