//! JSON values: the library's own tree, its mathematical model, and the way to and from text.

use serde_json::Value;
use vstd::prelude::*;

use crate::text;

verus! {

/// The number type of `serde_json`, carried unchanged for numbers that are no integers.
#[verifier::external_type_specification]
#[verifier::external_body]
pub struct ExNumber(serde_json::Number);

/// The value type of `serde_json`.
#[verifier::external_type_specification]
#[verifier::external_body]
pub struct ExValue(serde_json::Value);

/// A number that is no integer. One comes only out of a `serde_json::Value`.
#[derive(Debug, PartialEq)]
pub struct Fraction {
    number: serde_json::Number,
}

/// A JSON value.
#[derive(Debug, PartialEq)]
pub enum Json {
    Null,
    Bool(bool),
    /// An integer that fits `i64`.
    Int(i64),
    /// An integer that may lie above `i64::MAX`.
    Big(u64),
    /// A number that is no integer.
    Real(Fraction),
    Text(String),
    Array(Vec<Json>),
    /// The entries of an object; of two entries with one key the later counts.
    Object(Vec<(String, Json)>),
}

/// What a JSON value is: an object is a map, and integers have no width.
#[verifier::ext_equal]
pub enum JsonView {
    Null,
    Bool(bool),
    Int(int),
    Real(Fraction),
    Text(Seq<char>),
    Array(Seq<JsonView>),
    Object(Map<Seq<char>, JsonView>),
}

/// The model of a JSON value.
pub open spec fn json_view(j: Json) -> JsonView
    decreases j,
{
    match j {
        Json::Null => JsonView::Null,
        Json::Bool(b) => JsonView::Bool(b),
        Json::Int(n) => JsonView::Int(n as int),
        Json::Big(n) => JsonView::Int(n as int),
        Json::Real(n) => JsonView::Real(n),
        Json::Text(s) => JsonView::Text(s@),
        Json::Array(items) => JsonView::Array(items_view(items@)),
        Json::Object(entries) => JsonView::Object(entries_view(entries@)),
    }
}

/// The models of the items of an array.
pub open spec fn items_view(items: Seq<Json>) -> Seq<JsonView>
    decreases items,
{
    if items.len() == 0 {
        Seq::empty()
    } else {
        items_view(items.subrange(0, items.len() - 1)).push(json_view(items[items.len() - 1]))
    }
}

/// The map that the entries of an object stand for.
pub open spec fn entries_view(entries: Seq<(String, Json)>) -> Map<Seq<char>, JsonView>
    decreases entries,
{
    if entries.len() == 0 {
        Map::empty()
    } else {
        entries_view(entries.subrange(0, entries.len() - 1)).insert(
            entries[entries.len() - 1].0@,
            json_view(entries[entries.len() - 1].1),
        )
    }
}

impl View for Json {
    type V = JsonView;

    open spec fn view(&self) -> JsonView {
        json_view(*self)
    }
}

impl JsonView {
    /// The member of an object.
    pub open spec fn field(self, key: Seq<char>) -> Option<JsonView> {
        match self {
            JsonView::Object(m) => if m.dom().contains(key) {
                Some(m[key])
            } else {
                None
            },
            _ => None,
        }
    }

    /// The text of a JSON string.
    pub open spec fn as_text(self) -> Option<Seq<char>> {
        match self {
            JsonView::Text(s) => Some(s),
            _ => None,
        }
    }

    /// The integer, where it fits `i64`.
    pub open spec fn as_int(self) -> Option<int> {
        match self {
            JsonView::Int(n) => if i64::MIN <= n <= i64::MAX {
                Some(n)
            } else {
                None
            },
            _ => None,
        }
    }

    /// The integer, where it is natural and fits `u64`.
    pub open spec fn as_nat(self) -> Option<nat> {
        match self {
            JsonView::Int(n) => if 0 <= n <= u64::MAX {
                Some(n as nat)
            } else {
                None
            },
            _ => None,
        }
    }

    /// The items of an array.
    pub open spec fn as_items(self) -> Option<Seq<JsonView>> {
        match self {
            JsonView::Array(v) => Some(v),
            _ => None,
        }
    }

    /// The text of a member.
    pub open spec fn text_field(self, key: Seq<char>) -> Option<Seq<char>> {
        match self.field(key) {
            Some(v) => v.as_text(),
            None => None,
        }
    }

    /// The items of a member.
    pub open spec fn items_field(self, key: Seq<char>) -> Option<Seq<JsonView>> {
        match self.field(key) {
            Some(v) => v.as_items(),
            None => None,
        }
    }

    /// The integer of a member.
    pub open spec fn int_field(self, key: Seq<char>) -> Option<int> {
        match self.field(key) {
            Some(v) => v.as_int(),
            None => None,
        }
    }
}

/// The models of the items, one by one.
pub broadcast proof fn lemma_items_view(items: Seq<Json>)
    ensures
        #[trigger] items_view(items).len() == items.len(),
        forall|i: int|
            0 <= i < items.len() ==> #[trigger] items_view(items)[i] == json_view(items[i]),
    decreases items.len(),
{
    if items.len() > 0 {
        lemma_items_view(items.subrange(0, items.len() - 1));
    }
}

/// One more item at the end of an array.
pub broadcast proof fn lemma_items_push(items: Seq<Json>, j: Json)
    ensures
        #[trigger] items_view(items.push(j)) == items_view(items).push(json_view(j)),
{
    assert(items.push(j).subrange(0, items.len() as int) =~= items);
}

/// Two runs of items, one after the other.
pub broadcast proof fn lemma_items_concat(a: Seq<Json>, b: Seq<Json>)
    ensures
        #[trigger] items_view(a + b) == items_view(a) + items_view(b),
{
    lemma_items_view(a + b);
    lemma_items_view(a);
    lemma_items_view(b);
    assert(items_view(a + b) =~= items_view(a) + items_view(b));
}

/// One more entry in an object.
pub broadcast proof fn lemma_entries_push(entries: Seq<(String, Json)>, e: (String, Json))
    ensures
        #[trigger] entries_view(entries.push(e)) == entries_view(entries).insert(
            e.0@,
            json_view(e.1),
        ),
{
    assert(entries.push(e).subrange(0, entries.len() as int) =~= entries);
}

/// The later entries of an object decide: an entry whose key stands in none after it is
/// the member of that key.
proof fn lemma_entries_last(entries: Seq<(String, Json)>, i: int)
    requires
        0 <= i < entries.len(),
        forall|k: int| i < k < entries.len() ==> entries[k].0@ != entries[i].0@,
    ensures
        entries_view(entries).dom().contains(entries[i].0@),
        entries_view(entries)[entries[i].0@] == json_view(entries[i].1),
    decreases entries.len(),
{
    let n = entries.len() - 1;
    if i < n {
        lemma_entries_last(entries.subrange(0, n), i);
    }
}

proof fn lemma_entries_absent(entries: Seq<(String, Json)>, key: Seq<char>)
    requires
        forall|k: int| 0 <= k < entries.len() ==> entries[k].0@ != key,
    ensures
        !entries_view(entries).dom().contains(key),
    decreases entries.len(),
{
    if entries.len() > 0 {
        lemma_entries_absent(entries.subrange(0, entries.len() - 1), key);
    }
}

/// Copies a number (`serde_json::Number::clone`): the copy is the same number.
pub assume_specification[ <serde_json::Number as Clone>::clone ](n: &serde_json::Number) -> (r:
    serde_json::Number)
    ensures
        r == *n,
;

impl Json {
    /// A copy of a value.
    pub fn copy(&self) -> (r: Json)
        ensures
            r@ == self@,
        decreases self,
    {
        match self {
            Json::Null => Json::Null,
            Json::Bool(b) => Json::Bool(*b),
            Json::Int(n) => Json::Int(*n),
            Json::Big(n) => Json::Big(*n),
            Json::Real(n) => Json::Real(Fraction { number: n.number.clone() }),
            Json::Text(s) => Json::Text(s.clone()),
            Json::Array(items) => {
                let mut out: Vec<Json> = Vec::new();
                let mut i: usize = 0;
                while i < items.len()
                    invariant
                        i <= items@.len(),
                        *self == Json::Array(*items),
                        out@.len() == i,
                        forall|k: int| 0 <= k < i ==> (#[trigger] out@[k])@ == items@[k]@,
                    decreases items@.len() - i,
                {
                    assert(decreases_to!(*self => self->Array_0));
                    assert(decreases_to!(self->Array_0 => items@));
                    assert(decreases_to!(items@ => items@[i as int]));
                    out.push(items[i].copy());
                    i = i + 1;
                }
                proof {
                    lemma_items_view(out@);
                    lemma_items_view(items@);
                    assert(items_view(out@) =~= items_view(items@));
                }
                Json::Array(out)
            },
            Json::Object(entries) => {
                let mut out: Vec<(String, Json)> = Vec::new();
                let mut i: usize = 0;
                assert(entries@.subrange(0, 0) =~= Seq::empty());
                while i < entries.len()
                    invariant
                        i <= entries@.len(),
                        *self == Json::Object(*entries),
                        entries_view(out@) == entries_view(entries@.subrange(0, i as int)),
                    decreases entries@.len() - i,
                {
                    assert(decreases_to!(*self => self->Object_0));
                    assert(decreases_to!(self->Object_0 => entries@));
                    assert(decreases_to!(entries@ => entries@[i as int]));
                    assert(decreases_to!(entries@[i as int] => entries@[i as int].1));
                    let e = (entries[i].0.clone(), entries[i].1.copy());
                    let ghost before = out@;
                    out.push(e);
                    proof {
                        lemma_entries_push(before, e);
                        lemma_entries_push(entries@.subrange(0, i as int), entries@[i as int]);
                        assert(entries@.subrange(0, i as int).push(entries@[i as int])
                            =~= entries@.subrange(0, i + 1));
                    }
                    i = i + 1;
                }
                assert(entries@.subrange(0, entries@.len() as int) =~= entries@);
                Json::Object(out)
            },
        }
    }

    /// The member of an object.
    pub fn get(&self, key: &str) -> (r: Option<&Json>)
        ensures
            match r {
                Some(j) => self@.field(key@) == Some(j@),
                None => self@.field(key@) is None,
            },
    {
        match self {
            Json::Object(entries) => {
                let mut i: usize = entries.len();
                while i > 0
                    invariant
                        i <= entries@.len(),
                        *self == Json::Object(*entries),
                        forall|k: int| i <= k < entries@.len() ==> entries@[k].0@ != key@,
                    decreases i,
                {
                    i = i - 1;
                    if text::same(entries[i].0.as_str(), key) {
                        proof {
                            lemma_entries_last(entries@, i as int);
                        }
                        return Some(&entries[i].1);
                    }
                }
                proof {
                    lemma_entries_absent(entries@, key@);
                }
                None
            },
            _ => None,
        }
    }

    /// The text of a JSON string.
    pub fn as_text(&self) -> (r: Option<&str>)
        ensures
            match r {
                Some(t) => self@.as_text() == Some(t@),
                None => self@.as_text() is None,
            },
    {
        match self {
            Json::Text(s) => Some(s.as_str()),
            _ => None,
        }
    }

    /// The integer, where it fits `i64`.
    pub fn as_int(&self) -> (r: Option<i64>)
        ensures
            match r {
                Some(n) => self@.as_int() == Some(n as int),
                None => self@.as_int() is None,
            },
    {
        match self {
            Json::Int(n) => Some(*n),
            Json::Big(n) => if *n <= 9223372036854775807u64 {
                Some(*n as i64)
            } else {
                None
            },
            _ => None,
        }
    }

    /// The integer, where it is natural and fits `u64`.
    pub fn as_nat(&self) -> (r: Option<u64>)
        ensures
            match r {
                Some(n) => self@.as_nat() == Some(n as nat),
                None => self@.as_nat() is None,
            },
    {
        match self {
            Json::Int(n) => if *n >= 0 {
                Some(*n as u64)
            } else {
                None
            },
            Json::Big(n) => Some(*n),
            _ => None,
        }
    }

    /// The items of an array.
    pub fn as_items(&self) -> (r: Option<&Vec<Json>>)
        ensures
            match r {
                Some(v) => self@.as_items() == Some(items_view(v@)),
                None => self@.as_items() is None,
            },
    {
        match self {
            Json::Array(v) => Some(v),
            _ => None,
        }
    }

    /// The text of a member.
    pub fn text_field(&self, key: &str) -> (r: Option<&str>)
        ensures
            match r {
                Some(t) => self@.text_field(key@) == Some(t@),
                None => self@.text_field(key@) is None,
            },
    {
        match self.get(key) {
            Some(j) => j.as_text(),
            None => None,
        }
    }

    /// The items of a member.
    pub fn items_field(&self, key: &str) -> (r: Option<&Vec<Json>>)
        ensures
            match r {
                Some(v) => self@.items_field(key@) == Some(items_view(v@)),
                None => self@.items_field(key@) is None,
            },
    {
        match self.get(key) {
            Some(j) => j.as_items(),
            None => None,
        }
    }

    /// The integer of a member.
    pub fn int_field(&self, key: &str) -> (r: Option<i64>)
        ensures
            match r {
                Some(n) => self@.int_field(key@) == Some(n as int),
                None => self@.int_field(key@) is None,
            },
    {
        match self.get(key) {
            Some(j) => j.as_int(),
            None => None,
        }
    }

    /// A JSON string.
    pub fn text(s: &str) -> (r: Json)
        ensures
            r@ == JsonView::Text(s@),
    {
        Json::Text(s.to_string())
    }

    /// An object without members.
    pub fn empty_object() -> (r: Json)
        ensures
            r@ == JsonView::Object(Map::empty()),
    {
        Json::Object(Vec::new())
    }

    /// The object with one member more; any other value becomes an object of that member.
    pub fn with(self, key: &str, value: Json) -> (r: Json)
        ensures
            r@ == JsonView::Object(members(self@).insert(key@, value@)),
    {
        let mut entries = match self {
            Json::Object(entries) => entries,
            _ => Vec::new(),
        };
        let ghost before = entries@;
        let e = (key.to_string(), value);
        entries.push(e);
        proof {
            lemma_entries_push(before, e);
        }
        Json::Object(entries)
    }
}

/// The members of an object; none for any other value.
pub open spec fn members(v: JsonView) -> Map<Seq<char>, JsonView> {
    match v {
        JsonView::Object(m) => m,
        _ => Map::empty(),
    }
}

/// What a `serde_json::Value` holds.
pub uninterp spec fn value_json(v: Value) -> JsonView;

/// The value that a JSON text writes, as `serde_json::from_str` reads it; `None` where it
/// refuses the text.
pub uninterp spec fn json_text(text: Seq<char>) -> Option<JsonView>;

/// The compact text that `serde_json` writes for a value.
pub uninterp spec fn compact_json(v: JsonView) -> Seq<char>;

/// Reads a JSON text (`serde_json::from_str`). The outcome is named `json_text`: it depends on
/// the text alone.
#[verifier::external_body]
fn parse_value(text: &str) -> (r: Option<Value>)
    ensures
        match r {
            Some(v) => json_text(text@) == Some(value_json(v)),
            None => json_text(text@) is None,
        },
{
    serde_json::from_str(text).ok()
}

/// Turns a `serde_json::Value` into the library's tree, variant by variant. The numbers that
/// `Number::as_i64` or `Number::as_u64` give are integers; any other number is kept as it is.
#[verifier::external_body]
fn json_of(v: &Value) -> (r: Json)
    ensures
        r@ == value_json(*v),
{
    match v {
        Value::Null => Json::Null,
        Value::Bool(b) => Json::Bool(*b),
        Value::Number(n) => match (n.as_i64(), n.as_u64()) {
            (Some(i), _) => Json::Int(i),
            (None, Some(u)) => Json::Big(u),
            (None, None) => Json::Real(Fraction { number: n.clone() }),
        },
        Value::String(s) => Json::Text(s.clone()),
        Value::Array(a) => Json::Array(a.iter().map(json_of).collect()),
        Value::Object(m) => Json::Object(m.iter().map(|(k, x)| (k.clone(), json_of(x))).collect()),
    }
}

/// Turns the library's tree into a `serde_json::Value`, variant by variant; the entries of an
/// object go into a `Map` in their order, so that the later of two with one key stays.
#[verifier::external_body]
fn value_of(j: &Json) -> (r: Value)
    ensures
        value_json(r) == j@,
{
    match j {
        Json::Null => Value::Null,
        Json::Bool(b) => Value::Bool(*b),
        Json::Int(n) => Value::from(*n),
        Json::Big(n) => Value::from(*n),
        Json::Real(n) => Value::Number(n.number.clone()),
        Json::Text(s) => Value::String(s.clone()),
        Json::Array(a) => Value::Array(a.iter().map(value_of).collect()),
        Json::Object(e) => Value::Object(e.iter().map(|(k, x)| (k.clone(), value_of(x))).collect()),
    }
}

/// Writes a value as compact text (`serde_json::Value::to_string`). The outcome is named
/// `compact_json`: it depends on what the value holds alone.
#[verifier::external_body]
fn compact(v: &Value) -> (r: String)
    ensures
        r@ == compact_json(value_json(*v)),
{
    v.to_string()
}

/// The library's tree of a `serde_json::Value`.
pub fn from_value(v: &Value) -> (r: Json)
    ensures
        r@ == value_json(*v),
{
    json_of(v)
}

/// The `serde_json::Value` of the library's tree.
pub fn to_value(j: &Json) -> (r: Value)
    ensures
        value_json(r) == j@,
{
    value_of(j)
}

/// Reads a JSON text.
pub fn parse(text: &str) -> (r: Option<Json>)
    ensures
        match r {
            Some(j) => json_text(text@) == Some(j@),
            None => json_text(text@) is None,
        },
{
    match parse_value(text) {
        Some(v) => Some(json_of(&v)),
        None => None,
    }
}

/// Writes a value as compact JSON text.
pub fn write(j: &Json) -> (r: String)
    ensures
        r@ == compact_json(j@),
{
    compact(&value_of(j))
}

} // verus!
