//! Tool calls that a model wrote out as text instead of emitting them.

use vstd::prelude::*;

use crate::chat::{ToolCall, ToolCallView};
use crate::json;
use crate::json::{Json, JsonView};
use crate::text;

verus! {

/// The arguments of a call: `arguments`, or else `args`, or else an empty object.
pub open spec fn call_args(v: JsonView) -> JsonView {
    match v.field("arguments"@) {
        Some(a) => a,
        None => match v.field("args"@) {
            Some(a) => a,
            None => JsonView::Object(Map::empty()),
        },
    }
}

/// The name of a call that is written without a `function` object.
pub open spec fn flat_name(v: JsonView) -> Option<Seq<char>> {
    let name = match v.field("name"@) {
        Some(n) => n.as_text(),
        None => v.text_field("function_name"@),
    };
    match name {
        Some(n) if n.len() > 0 => Some(n),
        _ => None,
    }
}

/// The call with the given name that `v` writes.
pub open spec fn named_call(v: JsonView, name: Seq<char>, args: JsonView) -> ToolCallView {
    ToolCallView {
        name,
        call_id: match v.text_field("call_id"@) {
            Some(id) => id,
            None => "fallback_"@ + name,
        },
        command: name,
        args,
    }
}

/// The tool call that a JSON value writes, if it writes one.
pub open spec fn value_call(v: JsonView) -> Option<ToolCallView> {
    if !(v is Object) {
        None
    } else {
        match v.field("function"@) {
            Some(f) if f is Object => match f.text_field("name"@) {
                Some(name) => Some(named_call(v, name, call_args(f))),
                None => None,
            },
            _ => match flat_name(v) {
                Some(name) => Some(named_call(v, name, call_args(v))),
                None => None,
            },
        }
    }
}

fn args_of(v: &Json) -> (r: Json)
    ensures
        r@ == call_args(v@),
{
    match v.get("arguments") {
        Some(a) => a.copy(),
        None => match v.get("args") {
            Some(a) => a.copy(),
            None => Json::empty_object(),
        },
    }
}

fn call_named(v: &Json, name: &str, args: Json) -> (r: ToolCall)
    ensures
        r@ == named_call(v@, name@, args@),
{
    let call_id = match v.text_field("call_id") {
        Some(id) => id.to_string(),
        None => {
            let mut id = "fallback_".to_string();
            id.append(name);
            id
        },
    };
    ToolCall { name: name.to_string(), call_id, command: name.to_string(), args }
}

/// Reads a tool call from a JSON value.
pub fn tool_call_from_value(v: &Json) -> (r: Option<ToolCall>)
    ensures
        text::opt_view(r) == value_call(v@),
{
    match v {
        Json::Object(_) => {},
        _ => {
            return None;
        },
    }
    match v.get("function") {
        Some(f) => {
            if let Json::Object(_) = f {
                return match f.text_field("name") {
                    Some(name) => Some(call_named(v, name, args_of(f))),
                    None => None,
                };
            }
        },
        None => {},
    }
    let name = match v.get("name") {
        Some(n) => n.as_text(),
        None => v.text_field("function_name"),
    };
    match name {
        None => None,
        Some(n) => {
            if n.unicode_len() == 0 {
                None
            } else {
                Some(call_named(v, n, args_of(v)))
            }
        },
    }
}

/// The trimmed bodies of the `<tool_call>` blocks that open at or after `from`.
pub open spec fn tagged_blocks(s: Seq<char>, from: int) -> Seq<Seq<char>>
    decreases s.len() - from,
{
    if from < 0 {
        Seq::empty()
    } else {
        proof {
            lemma_marks();
            text::lemma_first_from(s, "<tool_call>"@, from);
        }
        match text::first_from(s, "<tool_call>"@, from) {
            Some(i) => {
                let body = i + "<tool_call>"@.len();
                proof {
                    text::lemma_first_from(s, "</tool_call>"@, body);
                }
                match text::first_from(s, "</tool_call>"@, body) {
                    Some(e) => seq![text::trimmed(s.subrange(body, e))] + tagged_blocks(
                        s,
                        e + "</tool_call>"@.len(),
                    ),
                    None => Seq::empty(),
                }
            },
            None => Seq::empty(),
        }
    }
}

/// The trimmed bodies of the closed ` ```json ` fences that open at or after `from`.
pub open spec fn fenced_blocks(s: Seq<char>, from: int) -> Seq<Seq<char>>
    decreases s.len() - from,
{
    if from < 0 {
        Seq::empty()
    } else {
        proof {
            lemma_marks();
            text::lemma_first_from(s, "```json"@, from);
        }
        match text::first_from(s, "```json"@, from) {
            Some(i) => {
                let body = i + "```json"@.len();
                let rest = fenced_blocks(s, body);
                match text::first_from(s, "```"@, body) {
                    Some(e) => seq![text::trimmed(s.subrange(body, e))] + rest,
                    None => rest,
                }
            },
            None => Seq::empty(),
        }
    }
}

/// The blocks in which a call may stand, in the order in which they are tried.
pub open spec fn blocks(s: Seq<char>) -> Seq<Seq<char>> {
    tagged_blocks(s, 0) + fenced_blocks(s, 0)
}

/// The part of a text from its first `{` to its last `}`.
pub open spec fn braced(s: Seq<char>) -> Option<Seq<char>> {
    match (text::first_at(s, "{"@), text::last_at(s, '}')) {
        (Some(open), Some(close)) if open <= close + 1 => Some(s.subrange(open, close + 1)),
        _ => None,
    }
}

/// The call that a JSON text writes.
pub open spec fn text_call(s: Seq<char>) -> Option<ToolCallView> {
    match json::json_text(s) {
        Some(v) => value_call(v),
        None => None,
    }
}

/// The call in the braces of a text.
pub open spec fn braced_call(s: Seq<char>) -> Option<ToolCallView> {
    match braced(s) {
        Some(b) => text_call(b),
        None => None,
    }
}

/// The call of the first block that holds one, as it stands or in its braces.
pub open spec fn first_block_call(v: Seq<Seq<char>>) -> Option<ToolCallView>
    decreases v.len(),
{
    if v.len() == 0 {
        None
    } else {
        match text_call(v[0]) {
            Some(c) => Some(c),
            None => match braced_call(v[0]) {
                Some(c) => Some(c),
                None => first_block_call(v.subrange(1, v.len() as int)),
            },
        }
    }
}

/// The tool call that an answer writes as text: in a block, or in the braces of the answer.
pub open spec fn written_call(s: Seq<char>) -> Option<ToolCallView> {
    match first_block_call(blocks(s)) {
        Some(c) => Some(c),
        None => braced_call(s),
    }
}

/// The lengths of the marks around a written call.
pub proof fn lemma_marks()
    ensures
        "<tool_call>"@.len() == 11,
        "</tool_call>"@.len() == 12,
        "```json"@.len() == 7,
        "```"@.len() == 3,
        "{"@.len() == 1,
{
    reveal_strlit("<tool_call>");
    reveal_strlit("</tool_call>");
    reveal_strlit("```json");
    reveal_strlit("```");
    reveal_strlit("{");
}

/// Collects the blocks in which a call may stand.
pub fn tool_call_blocks(content: &str) -> (r: Vec<String>)
    ensures
        text::views(r@) == blocks(content@),
{
    let s = text::chars_of(content);
    let open_tag = text::chars_of("<tool_call>");
    let close_tag = text::chars_of("</tool_call>");
    let open_fence = text::chars_of("```json");
    let close_fence = text::chars_of("```");
    proof {
        lemma_marks();
    }
    let mut out: Vec<String> = Vec::new();
    let mut from: usize = 0;
    let ghost tagged = tagged_blocks(s@, 0);
    assert(text::views(out@) + tagged_blocks(s@, 0) =~= tagged);
    loop
        invariant
            from <= s.len(),
            s@ == content@,
            open_tag@ == "<tool_call>"@,
            close_tag@ == "</tool_call>"@,
            "<tool_call>"@.len() == 11,
            "</tool_call>"@.len() == 12,
            tagged == text::views(out@) + tagged_blocks(s@, from as int),
        ensures
            tagged == text::views(out@),
        decreases s@.len() - from,
    {
        match text::find_from(&s, &open_tag, from) {
            None => {
                assert(text::views(out@) + tagged_blocks(s@, from as int) =~= text::views(out@));
                break ;
            },
            Some(i) => {
                let body: usize = i + 11;
                match text::find_from(&s, &close_tag, body) {
                    None => {
                        assert(text::views(out@) + tagged_blocks(s@, from as int) =~= text::views(
                            out@,
                        ));
                        break ;
                    },
                    Some(e) => {
                        let raw = text::text_of(&s, body, e);
                        let block = text::trim(raw.as_str());
                        let ghost before = text::views(out@);
                        let ghost b = block@;
                        out.push(block);
                        proof {
                            assert(text::views(out@) =~= before + seq![b]);
                            assert(before + (seq![b] + tagged_blocks(s@, e + 12)) =~= (before
                                + seq![b]) + tagged_blocks(s@, e + 12));
                        }
                        from = e + 12;
                    },
                }
            },
        }
    }
    let ghost fenced = fenced_blocks(s@, 0);
    from = 0;
    loop
        invariant
            from <= s.len(),
            s@ == content@,
            open_fence@ == "```json"@,
            close_fence@ == "```"@,
            "```json"@.len() == 7,
            tagged + fenced == text::views(out@) + fenced_blocks(s@, from as int),
        ensures
            tagged + fenced == text::views(out@),
        decreases s@.len() - from,
    {
        match text::find_from(&s, &open_fence, from) {
            None => {
                assert(text::views(out@) + fenced_blocks(s@, from as int) =~= text::views(out@));
                break ;
            },
            Some(i) => {
                let body: usize = i + 7;
                match text::find_from(&s, &close_fence, body) {
                    None => {},
                    Some(e) => {
                        let raw = text::text_of(&s, body, e);
                        let block = text::trim(raw.as_str());
                        let ghost before = text::views(out@);
                        let ghost b = block@;
                        out.push(block);
                        proof {
                            assert(text::views(out@) =~= before + seq![b]);
                            assert(before + (seq![b] + fenced_blocks(s@, body as int)) =~= (before
                                + seq![b]) + fenced_blocks(s@, body as int));
                        }
                    },
                }
                from = body;
            },
        }
    }
    out
}

/// Cuts a text down to what stands from its first `{` to its last `}`.
pub fn between_braces(s: &str) -> (r: Option<String>)
    ensures
        text::opt_view(r) == braced(s@),
{
    let chars = text::chars_of(s);
    match (text::find(s, "{"), text::rfind(s, '}')) {
        (Some(open), Some(close)) => {
            assert(close < chars.len());
            if open <= close + 1 {
                Some(text::text_of(&chars, open, close + 1))
            } else {
                None
            }
        },
        _ => None,
    }
}

fn call_in_text(s: &str) -> (r: Option<ToolCall>)
    ensures
        text::opt_view(r) == text_call(s@),
{
    match json::parse(s) {
        Some(v) => tool_call_from_value(&v),
        None => None,
    }
}

fn call_in_braces(s: &str) -> (r: Option<ToolCall>)
    ensures
        text::opt_view(r) == braced_call(s@),
{
    match between_braces(s) {
        Some(b) => call_in_text(b.as_str()),
        None => None,
    }
}

/// Recovers a tool call that an answer writes as text.
pub fn parse_tool_json(content: &str) -> (r: Option<ToolCall>)
    ensures
        text::opt_view(r) == written_call(content@),
{
    let candidates = tool_call_blocks(content);
    let mut i: usize = 0;
    let ghost all = text::views(candidates@);
    assert(all.subrange(0, all.len() as int) =~= all);
    while i < candidates.len()
        invariant
            i <= candidates@.len(),
            all == text::views(candidates@),
            all == blocks(content@),
            first_block_call(all) == first_block_call(all.subrange(i as int, all.len() as int)),
        decreases candidates@.len() - i,
    {
        let ghost rest = all.subrange(i as int, all.len() as int);
        assert(rest[0] == candidates@[i as int]@);
        assert(rest.subrange(1, rest.len() as int) =~= all.subrange(i + 1, all.len() as int));
        match call_in_text(candidates[i].as_str()) {
            Some(call) => {
                return Some(call);
            },
            None => {},
        }
        match call_in_braces(candidates[i].as_str()) {
            Some(call) => {
                return Some(call);
            },
            None => {},
        }
        i = i + 1;
    }
    call_in_braces(content)
}

/// A call that stands in a `function` object is the call of that object: the wrapping changes
/// neither the name nor the arguments. The name is the member `name` of the object, the
/// arguments are its member `arguments`, or else its member `args`, or else an empty object.
/// The id stands beside the object, in `call_id`; where it is missing it is made of the name.
pub proof fn law_wrapping_keeps_call(v: JsonView, f: JsonView, n: Seq<char>)
    requires
        v.field("function"@) == Some(f),
        f is Object,
        f.field("name"@) == Some(JsonView::Text(n)),
    ensures
        value_call(v) matches Some(c) && {
            &&& c.name == n
            &&& c.command == n
            &&& forall|a: JsonView| f.field("arguments"@) == Some(a) ==> c.args == a
            &&& forall|a: JsonView|
                f.field("arguments"@) is None && f.field("args"@) == Some(a) ==> c.args == a
            &&& f.field("arguments"@) is None && f.field("args"@) is None ==> c.args
                == JsonView::Object(Map::empty())
            &&& forall|id: Seq<char>|
                v.field("call_id"@) == Some(JsonView::Text(id)) ==> c.call_id == id
            &&& v.field("call_id"@) is None ==> c.call_id == "fallback_"@ + n
        },
        n.len() > 0 && f.field("function"@) is None ==> {
            &&& value_call(f) is Some
            &&& value_call(f)->0.name == value_call(v)->0.name
            &&& value_call(f)->0.command == value_call(v)->0.command
            &&& value_call(f)->0.args == value_call(v)->0.args
        },
        n.len() > 0 && f.field("function"@) is None && v.field("call_id"@) == f.field("call_id"@)
            ==> value_call(f) == value_call(v),
{
}

/// A value without a `function` object writes the call of its own members: the name is `name`,
/// or else `function_name`, the arguments are `arguments`, or else `args`, or else an empty
/// object, and the id is `call_id`, or else made of the name.
pub proof fn law_flat_value_is_call(v: JsonView, n: Seq<char>)
    requires
        v.field("function"@) is None || !(v.field("function"@)->0 is Object),
        v.field("name"@) == Some(JsonView::Text(n)) || (v.field("name"@) is None && v.field(
            "function_name"@,
        ) == Some(JsonView::Text(n))),
    ensures
        n.len() == 0 ==> value_call(v) is None,
        n.len() > 0 ==> (value_call(v) matches Some(c) && {
            &&& c.name == n
            &&& c.command == n
            &&& forall|a: JsonView| v.field("arguments"@) == Some(a) ==> c.args == a
            &&& forall|a: JsonView|
                v.field("arguments"@) is None && v.field("args"@) == Some(a) ==> c.args == a
            &&& v.field("arguments"@) is None && v.field("args"@) is None ==> c.args
                == JsonView::Object(Map::empty())
            &&& forall|id: Seq<char>|
                v.field("call_id"@) == Some(JsonView::Text(id)) ==> c.call_id == id
            &&& v.field("call_id"@) is None ==> c.call_id == "fallback_"@ + n
        }),
{
}

/// A value that names no call writes none: one that is no object, one whose `function` object
/// has no name in text, and one without any of the members that name a call.
pub proof fn law_nameless_value_is_no_call(v: JsonView)
    ensures
        !(v is Object) ==> value_call(v) is None,
        v.field("function"@) is None && v.field("name"@) is None && v.field("function_name"@)
            is None ==> value_call(v) is None,
        forall|f: JsonView|
            #![trigger f.field("name"@)]
            v.field("function"@) == Some(f) && f is Object && f.field("name"@) is None
                ==> value_call(v) is None,
{
}

proof fn lemma_first_is(s: Seq<char>, p: Seq<char>, from: int, at: int)
    requires
        0 <= from <= at,
        text::occurs_at(s, p, at),
        forall|j: int| from <= j < at ==> !text::occurs_at(s, p, j),
    ensures
        text::first_from(s, p, from) == Some(at),
{
    text::lemma_first_from(s, p, from);
}

/// The JSON text between the first `<tool_call>` and the `</tool_call>` that follows it writes
/// the call, whatever stands around it and around the JSON text in white space.
pub proof fn law_tagged_call_is_found(
    pre: Seq<char>,
    body: Seq<char>,
    post: Seq<char>,
    v: JsonView,
)
    requires
        ({
            let s = pre + "<tool_call>"@ + body + "</tool_call>"@ + post;
            &&& forall|j: int| 0 <= j < pre.len() ==> !text::occurs_at(s, "<tool_call>"@, j)
            &&& forall|j: int|
                pre.len() + 11 <= j < pre.len() + 11 + body.len() ==> !text::occurs_at(
                    s,
                    "</tool_call>"@,
                    j,
                )
        }),
        json::json_text(text::trimmed(body)) == Some(v),
        value_call(v) is Some,
    ensures
        written_call(pre + "<tool_call>"@ + body + "</tool_call>"@ + post) == value_call(v),
{
    lemma_marks();
    let s = pre + "<tool_call>"@ + body + "</tool_call>"@ + post;
    let at = pre.len() as int;
    let open = at + 11;
    let close = open + body.len();
    assert(s.subrange(at, at + 11) =~= "<tool_call>"@);
    assert(s.subrange(close, close + 12) =~= "</tool_call>"@);
    assert(s.subrange(open, close) =~= body);
    lemma_first_is(s, "<tool_call>"@, 0, at);
    lemma_first_is(s, "</tool_call>"@, open, close);
    let all = blocks(s);
    assert(all[0] == text::trimmed(body));
    assert(first_block_call(all) == value_call(v));
}

/// Where an answer has no `<tool_call>`, the JSON text between the first ` ```json ` and the
/// ` ``` ` that follows it writes the call.
pub proof fn law_fenced_call_is_found(
    pre: Seq<char>,
    body: Seq<char>,
    post: Seq<char>,
    v: JsonView,
)
    requires
        ({
            let s = pre + "```json"@ + body + "```"@ + post;
            &&& !text::has(s, "<tool_call>"@)
            &&& forall|j: int| 0 <= j < pre.len() ==> !text::occurs_at(s, "```json"@, j)
            &&& forall|j: int|
                pre.len() + 7 <= j < pre.len() + 7 + body.len() ==> !text::occurs_at(s, "```"@, j)
        }),
        json::json_text(text::trimmed(body)) == Some(v),
        value_call(v) is Some,
    ensures
        written_call(pre + "```json"@ + body + "```"@ + post) == value_call(v),
{
    lemma_marks();
    let s = pre + "```json"@ + body + "```"@ + post;
    let at = pre.len() as int;
    let open = at + 7;
    let close = open + body.len();
    assert(s.subrange(at, at + 7) =~= "```json"@);
    assert(s.subrange(close, close + 3) =~= "```"@);
    assert(s.subrange(open, close) =~= body);
    text::lemma_first_from(s, "<tool_call>"@, 0);
    lemma_first_is(s, "```json"@, 0, at);
    lemma_first_is(s, "```"@, open, close);
    let all = blocks(s);
    assert(tagged_blocks(s, 0) =~= Seq::empty());
    assert(all[0] == text::trimmed(body));
    assert(first_block_call(all) == value_call(v));
}

proof fn lemma_last_is(s: Seq<char>, c: char, at: int)
    requires
        0 <= at < s.len(),
        s[at] == c,
        forall|j: int| at < j < s.len() ==> s[j] != c,
    ensures
        text::last_at(s, c) == Some(at),
    decreases s.len(),
{
    if at < s.len() - 1 {
        lemma_last_is(s.drop_last(), c, at);
    }
}

/// Where an answer has neither a `<tool_call>` nor a ` ```json `, what stands from its first `{`
/// to its last `}` writes the call; an answer that is a JSON object is itself the call.
pub proof fn law_bare_call_is_found(pre: Seq<char>, mid: Seq<char>, post: Seq<char>)
    requires
        ({
            let s = pre + "{"@ + mid + "}"@ + post;
            &&& !text::has(s, "<tool_call>"@)
            &&& !text::has(s, "```json"@)
        }),
        !pre.contains('{'),
        !post.contains('}'),
    ensures
        written_call(pre + "{"@ + mid + "}"@ + post) == (match json::json_text(
            "{"@ + mid + "}"@,
        ) {
            Some(v) => value_call(v),
            None => None,
        }),
{
    lemma_marks();
    reveal_strlit("{");
    reveal_strlit("}");
    let s = pre + "{"@ + mid + "}"@ + post;
    let at = pre.len() as int;
    let close = at + 1 + mid.len();
    assert(s.subrange(at, at + 1) =~= "{"@);
    assert forall|j: int| 0 <= j < at implies !text::occurs_at(s, "{"@, j) by {
        if text::occurs_at(s, "{"@, j) {
            assert(s.subrange(j, j + 1)[0] == '{');
            assert(pre[j] == '{');
        }
    }
    lemma_first_is(s, "{"@, 0, at);
    assert forall|j: int| close < j < s.len() implies s[j] != '}' by {
        assert(s[j] == post[j - close - 1]);
    }
    lemma_last_is(s, '}', close);
    assert(s.subrange(at, close + 1) =~= "{"@ + mid + "}"@);
    text::lemma_first_from(s, "<tool_call>"@, 0);
    text::lemma_first_from(s, "```json"@, 0);
    assert(blocks(s) =~= Seq::empty());
}

/// An answer without a `{` and without a mark of a block writes no call.
pub proof fn law_plain_answer_is_no_call(s: Seq<char>)
    requires
        !s.contains('{'),
        !text::has(s, "<tool_call>"@),
        !text::has(s, "```json"@),
    ensures
        written_call(s) is None,
{
    lemma_marks();
    reveal_strlit("{");
    text::lemma_first_from(s, "<tool_call>"@, 0);
    text::lemma_first_from(s, "```json"@, 0);
    text::lemma_first_from(s, "{"@, 0);
    assert forall|j: int| 0 <= j implies !text::occurs_at(s, "{"@, j) by {
        if text::occurs_at(s, "{"@, j) {
            assert(s.subrange(j, j + 1)[0] == '{');
            assert(s[j] == '{');
        }
    }
    assert(blocks(s) =~= Seq::empty());
}

} // verus!
