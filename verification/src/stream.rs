//! Answers of the vendors: streams of events that are folded, event by event, into one answer.

use vstd::prelude::*;

use crate::agents::TurnStats;
use crate::chat::{ToolCall, ToolCallView};
use crate::cloud::Vendor;
use crate::json;
use crate::json::{Json, JsonView};
use crate::text;
use crate::turn::{OutputView, RemoteModelOutput};
use crate::wire;

verus! {

/// What is reported while a vendor answers.
#[derive(Debug, PartialEq)]
pub enum RemoteEvent {
    Content(String),
    Reasoning(String),
    ToolCall(ToolCall),
}

/// The model of what is reported.
#[verifier::ext_equal]
pub enum RemoteEventView {
    Content(Seq<char>),
    Reasoning(Seq<char>),
    ToolCall(ToolCallView),
}

impl View for RemoteEvent {
    type V = RemoteEventView;

    open spec fn view(&self) -> RemoteEventView {
        match self {
            RemoteEvent::Content(t) => RemoteEventView::Content(t@),
            RemoteEvent::Reasoning(t) => RemoteEventView::Reasoning(t@),
            RemoteEvent::ToolCall(c) => RemoteEventView::ToolCall(c@),
        }
    }
}

/// The tokens of a round: those of the prompt, those of the answer, and both.
#[derive(Debug, Clone, Copy, PartialEq, Eq, Structural)]
pub struct Usage {
    pub prompt: i64,
    pub completion: i64,
    pub total: i64,
}

/// A call that arrives in pieces, under the index that the pieces name.
#[derive(Debug, PartialEq)]
pub struct CallDraft {
    pub index: u64,
    pub id: String,
    pub name: String,
    pub args: String,
}

/// The model of a call in pieces.
#[verifier::ext_equal]
pub struct DraftView {
    pub index: nat,
    pub id: Seq<char>,
    pub name: Seq<char>,
    pub args: Seq<char>,
}

impl View for CallDraft {
    type V = DraftView;

    open spec fn view(&self) -> DraftView {
        DraftView { index: self.index as nat, id: self.id@, name: self.name@, args: self.args@ }
    }
}

/// What has been gathered of an answer.
#[derive(Debug, PartialEq)]
pub struct Gathered {
    pub content: String,
    pub calls: Vec<ToolCall>,
    pub drafts: Vec<CallDraft>,
    pub usage: Option<Usage>,
    pub events: Vec<RemoteEvent>,
}

/// The model of what has been gathered.
#[verifier::ext_equal]
pub struct GatheredView {
    pub content: Seq<char>,
    pub calls: Seq<ToolCallView>,
    pub drafts: Seq<DraftView>,
    pub usage: Option<Usage>,
    pub events: Seq<RemoteEventView>,
}

impl View for Gathered {
    type V = GatheredView;

    open spec fn view(&self) -> GatheredView {
        GatheredView {
            content: self.content@,
            calls: text::views(self.calls@),
            drafts: text::views(self.drafts@),
            usage: self.usage,
            events: text::views(self.events@),
        }
    }
}

/// Nothing gathered yet.
pub open spec fn nothing() -> GatheredView {
    GatheredView {
        content: Seq::empty(),
        calls: Seq::empty(),
        drafts: Seq::empty(),
        usage: None,
        events: Seq::empty(),
    }
}

/// The payload of a line of an event stream: what follows `data:`, unless it is empty or the
/// mark of the end.
pub open spec fn payload_of(line: Seq<char>) -> Option<Seq<char>> {
    match text::after_prefix(text::trimmed(line), "data:"@) {
        None => None,
        Some(rest) => {
            let p = text::trimmed(rest);
            if p.len() == 0 || p == "[DONE]"@ {
                None
            } else {
                Some(p)
            }
        },
    }
}

/// The payloads of the lines of an event stream.
pub open spec fn payloads_of(lines: Seq<Seq<char>>) -> Seq<Seq<char>>
    decreases lines.len(),
{
    if lines.len() == 0 {
        Seq::empty()
    } else {
        let before = payloads_of(lines.drop_last());
        match payload_of(lines.last()) {
            Some(p) => before.push(p),
            None => before,
        }
    }
}

/// The payloads of an event stream.
pub open spec fn payloads(body: Seq<char>) -> Seq<Seq<char>> {
    payloads_of(text::parts(body, '\n'))
}

fn line_payload(line: &str) -> (r: Option<String>)
    ensures
        text::opt_view(r) == payload_of(line@),
{
    let trimmed = text::trim(line);
    match text::strip_prefix(trimmed.as_str(), "data:") {
        None => None,
        Some(rest) => {
            let p = text::trim(rest.as_str());
            if p.as_str().unicode_len() == 0 || text::same(p.as_str(), "[DONE]") {
                None
            } else {
                Some(p)
            }
        },
    }
}

/// Takes the payloads out of an event stream.
pub fn sse_payloads(body: &str) -> (r: Vec<String>)
    ensures
        text::views(r@) == payloads(body@),
{
    let lines = text::split(body, '\n');
    let ghost all = text::views(lines@);
    let mut out: Vec<String> = Vec::new();
    let mut i: usize = 0;
    assert(all.subrange(0, 0) =~= Seq::empty());
    assert(text::views(out@) =~= Seq::empty());
    while i < lines.len()
        invariant
            i <= lines@.len(),
            all == text::views(lines@),
            text::views(out@) == payloads_of(all.subrange(0, i as int)),
        decreases lines@.len() - i,
    {
        let ghost next = all.subrange(0, i + 1);
        assert(next.drop_last() =~= all.subrange(0, i as int));
        assert(next.last() == lines@[i as int]@);
        match line_payload(lines[i].as_str()) {
            Some(p) => {
                let ghost before = text::views(out@);
                out.push(p);
                assert(text::views(out@) =~= before.push(p@));
            },
            None => {},
        }
        i = i + 1;
    }
    assert(all.subrange(0, all.len() as int) =~= all);
    out
}

/// More text of the answer, which is reported; nothing where it is empty.
pub open spec fn with_content(g: GatheredView, t: Option<Seq<char>>) -> GatheredView {
    match t {
        Some(t) if t.len() > 0 => GatheredView {
            content: g.content + t,
            events: g.events.push(RemoteEventView::Content(t)),
            ..g
        },
        _ => g,
    }
}

/// More reasoning, which is reported and not kept; nothing where it is empty.
pub open spec fn with_reasoning(g: GatheredView, t: Option<Seq<char>>) -> GatheredView {
    match t {
        Some(t) if t.len() > 0 => GatheredView {
            events: g.events.push(RemoteEventView::Reasoning(t)),
            ..g
        },
        _ => g,
    }
}

/// One more call, which is reported.
pub open spec fn with_call(g: GatheredView, c: ToolCallView) -> GatheredView {
    GatheredView {
        calls: g.calls.push(c),
        events: g.events.push(RemoteEventView::ToolCall(c)),
        ..g
    }
}

/// The integer of a member, or zero.
pub open spec fn int_or_zero(v: JsonView, key: Seq<char>) -> i64 {
    match v.int_field(key) {
        Some(n) => n as i64,
        None => 0,
    }
}

/// The index that a piece names, or zero.
pub open spec fn index_of(v: JsonView) -> nat {
    match v.field("index"@) {
        Some(i) => match i.as_nat() {
            Some(n) => n,
            None => 0,
        },
        None => 0,
    }
}

/// The position at which a draft with an index stands or would stand: drafts are kept in the
/// order of their indices.
pub open spec fn slot(drafts: Seq<DraftView>, index: nat) -> nat
    decreases drafts.len(),
{
    if drafts.len() == 0 || drafts[0].index >= index {
        0
    } else {
        1 + slot(drafts.subrange(1, drafts.len() as int), index)
    }
}

/// A draft of which nothing has arrived.
pub open spec fn empty_draft(index: nat) -> DraftView {
    DraftView { index, id: Seq::empty(), name: Seq::empty(), args: Seq::empty() }
}

/// Drafts among which one with the index stands.
pub open spec fn with_slot(drafts: Seq<DraftView>, index: nat) -> Seq<DraftView> {
    let k = slot(drafts, index) as int;
    if k < drafts.len() && drafts[k].index == index {
        drafts
    } else {
        drafts.insert(k, empty_draft(index))
    }
}

/// The indices of drafts rise.
pub open spec fn ordered(drafts: Seq<DraftView>) -> bool {
    forall|i: int, j: int|
        0 <= i < j < drafts.len() ==> (#[trigger] drafts[i]).index < (#[trigger] drafts[j]).index
}

/// A draft with what a piece of a call in the chat shape adds.
pub open spec fn chat_piece(d: DraftView, tc: JsonView) -> DraftView {
    let fun = tc.field("function"@);
    DraftView {
        index: d.index,
        id: match tc.text_field("id"@) {
            Some(id) => id,
            None => d.id,
        },
        name: match fun {
            Some(f) => wire::text_or(f, "name"@, d.name),
            None => d.name,
        },
        args: match fun {
            Some(f) => match f.text_field("arguments"@) {
                Some(a) => d.args + a,
                None => d.args,
            },
            None => d.args,
        },
    }
}

/// Drafts after some pieces of calls in the chat shape.
pub open spec fn chat_pieces(drafts: Seq<DraftView>, pieces: Seq<JsonView>) -> Seq<DraftView>
    decreases pieces.len(),
{
    if pieces.len() == 0 {
        drafts
    } else {
        let before = chat_pieces(drafts, pieces.drop_last());
        let tc = pieces.last();
        let opened = with_slot(before, index_of(tc));
        let k = slot(before, index_of(tc)) as int;
        opened.update(k, chat_piece(opened[k], tc))
    }
}

/// The usage that the chat shape reports.
pub open spec fn chat_usage(u: JsonView) -> Usage {
    Usage {
        prompt: int_or_zero(u, "prompt_tokens"@),
        completion: int_or_zero(u, "completion_tokens"@),
        total: int_or_zero(u, "total_tokens"@),
    }
}

/// What an event of the OpenAI chat API adds.
pub open spec fn chat_event(g: GatheredView, chunk: JsonView) -> GatheredView {
    let counted = match chunk.field("usage"@) {
        Some(u) => GatheredView { usage: Some(chat_usage(u)), ..g },
        None => g,
    };
    match chunk.items_field("choices"@) {
        Some(choices) if choices.len() > 0 => {
            let delta = wire::field_or(choices[0], "delta"@, JsonView::Object(Map::empty()));
            let said = with_content(counted, delta.text_field("content"@));
            let thought = with_reasoning(said, delta.text_field("reasoning_content"@));
            match delta.items_field("tool_calls"@) {
                Some(pieces) => GatheredView {
                    drafts: chat_pieces(thought.drafts, pieces),
                    ..thought
                },
                None => thought,
            }
        },
        _ => counted,
    }
}

/// The call that an item of the responses API writes; none without a name.
pub open spec fn item_call(item: JsonView, so_far: nat) -> Option<ToolCallView> {
    let name = wire::text_or(item, "name"@, ""@);
    let id_field = match item.field("call_id"@) {
        Some(v) => Some(v),
        None => item.field("id"@),
    };
    let id = match id_field {
        Some(v) => match v.as_text() {
            Some(t) => t,
            None => ""@,
        },
        None => ""@,
    };
    if name.len() == 0 {
        None
    } else {
        Some(
            ToolCallView {
                name,
                call_id: if id.len() == 0 {
                    numbered(so_far)
                } else {
                    id
                },
                command: name,
                args: wire::args_json(wire::text_or(item, "arguments"@, "{}"@)),
            },
        )
    }
}

/// The id of a call that came without one.
pub open spec fn numbered(n: nat) -> Seq<char> {
    "call_"@ + text::decimal(n)
}

/// What an event of the OpenAI responses API adds.
pub open spec fn responses_event(g: GatheredView, chunk: JsonView) -> GatheredView {
    let kind = wire::text_or(chunk, "type"@, ""@);
    if kind == "response.output_text.delta"@ {
        with_content(g, chunk.text_field("delta"@))
    } else if kind == "response.reasoning_summary_text.delta"@ || kind
        == "response.reasoning_text.delta"@ {
        with_reasoning(g, chunk.text_field("delta"@))
    } else if kind == "response.output_item.done"@ {
        let item = wire::field_or(chunk, "item"@, JsonView::Object(Map::empty()));
        if item.text_field("type"@) == Some("function_call"@) {
            match item_call(item, g.calls.len()) {
                Some(c) => with_call(g, c),
                None => g,
            }
        } else {
            g
        }
    } else if kind == "response.completed"@ {
        match chunk.field("response"@) {
            Some(resp) => match resp.field("usage"@) {
                Some(u) => GatheredView {
                    usage: Some(
                        Usage {
                            prompt: int_or_zero(u, "input_tokens"@),
                            completion: int_or_zero(u, "output_tokens"@),
                            total: int_or_zero(u, "total_tokens"@),
                        },
                    ),
                    ..g
                },
                None => g,
            },
            None => g,
        }
    } else {
        g
    }
}

/// The usage so far, or none at all.
pub open spec fn usage_or_zero(u: Option<Usage>) -> Usage {
    match u {
        Some(u) => u,
        None => Usage { prompt: 0, completion: 0, total: 0 },
    }
}

/// Drafts of which the one with the index begins anew.
pub open spec fn restarted(
    drafts: Seq<DraftView>,
    index: nat,
    id: Seq<char>,
    name: Seq<char>,
) -> Seq<DraftView> {
    with_slot(drafts, index).update(
        slot(drafts, index) as int,
        DraftView { index, id, name, args: Seq::empty() },
    )
}

/// Drafts of which the one with the index, if there is one, has more arguments.
pub open spec fn extended(drafts: Seq<DraftView>, index: nat, more: Seq<char>) -> Seq<DraftView> {
    let k = slot(drafts, index) as int;
    if k < drafts.len() && drafts[k].index == index {
        drafts.update(k, DraftView { args: drafts[k].args + more, ..drafts[k] })
    } else {
        drafts
    }
}

/// The integer of a member of a member of an event.
pub open spec fn nested_int(v: Option<JsonView>, key: Seq<char>) -> Option<int> {
    match v {
        Some(v) => v.int_field(key),
        None => None,
    }
}

/// What a delta of the Anthropic messages API adds.
pub open spec fn anthropic_delta(g: GatheredView, index: nat, delta: JsonView) -> GatheredView {
    let kind = wire::text_or(delta, "type"@, ""@);
    if kind == "text_delta"@ {
        with_content(g, delta.text_field("text"@))
    } else if kind == "thinking_delta"@ {
        with_reasoning(g, delta.text_field("thinking"@))
    } else if kind == "input_json_delta"@ {
        match delta.text_field("partial_json"@) {
            Some(p) => GatheredView { drafts: extended(g.drafts, index, p), ..g },
            None => g,
        }
    } else {
        g
    }
}

/// What an event of the Anthropic messages API adds.
pub open spec fn anthropic_event(g: GatheredView, chunk: JsonView) -> GatheredView {
    let kind = wire::text_or(chunk, "type"@, ""@);
    if kind == "message_start"@ {
        let usage = match chunk.field("message"@) {
            Some(m) => m.field("usage"@),
            None => None,
        };
        match nested_int(usage, "input_tokens"@) {
            Some(n) => GatheredView {
                usage: Some(Usage { prompt: n as i64, ..usage_or_zero(g.usage) }),
                ..g
            },
            None => g,
        }
    } else if kind == "content_block_start"@ {
        let block = wire::field_or(chunk, "content_block"@, JsonView::Object(Map::empty()));
        if block.text_field("type"@) == Some("tool_use"@) {
            GatheredView {
                drafts: restarted(
                    g.drafts,
                    index_of(chunk),
                    wire::text_or(block, "id"@, ""@),
                    wire::text_or(block, "name"@, ""@),
                ),
                ..g
            }
        } else {
            g
        }
    } else if kind == "content_block_delta"@ {
        anthropic_delta(
            g,
            index_of(chunk),
            wire::field_or(chunk, "delta"@, JsonView::Object(Map::empty())),
        )
    } else if kind == "message_delta"@ {
        match nested_int(chunk.field("usage"@), "output_tokens"@) {
            Some(n) => {
                let u = usage_or_zero(g.usage);
                GatheredView {
                    usage: Some(
                        Usage {
                            prompt: u.prompt,
                            completion: n as i64,
                            total: u.prompt.wrapping_add(n as i64),
                        },
                    ),
                    ..g
                }
            },
            None => g,
        }
    } else {
        g
    }
}

/// What a part of an answer of the Google generative language API adds.
pub open spec fn google_part(g: GatheredView, part: JsonView) -> GatheredView {
    let said = with_content(g, part.text_field("text"@));
    let thought = if part.field("thought"@) == Some(JsonView::Bool(true)) {
        with_reasoning(said, part.text_field("text"@))
    } else {
        said
    };
    match part.field("functionCall"@) {
        None => thought,
        Some(fc) => {
            let name = wire::text_or(fc, "name"@, ""@);
            if name.len() == 0 {
                thought
            } else {
                with_call(
                    thought,
                    ToolCallView {
                        name,
                        call_id: numbered(thought.calls.len()),
                        command: name,
                        args: wire::field_or(fc, "args"@, JsonView::Object(Map::empty())),
                    },
                )
            }
        },
    }
}

/// What some parts of an answer of the Google generative language API add.
pub open spec fn google_parts(g: GatheredView, parts: Seq<JsonView>) -> GatheredView
    decreases parts.len(),
{
    if parts.len() == 0 {
        g
    } else {
        google_part(google_parts(g, parts.drop_last()), parts.last())
    }
}

/// The parts of the first candidate of an event.
pub open spec fn candidate_parts(chunk: JsonView) -> Option<Seq<JsonView>> {
    match chunk.items_field("candidates"@) {
        Some(c) if c.len() > 0 => match c[0].field("content"@) {
            Some(content) => content.items_field("parts"@),
            None => None,
        },
        _ => None,
    }
}

/// What an event of the Google generative language API adds.
pub open spec fn google_event(g: GatheredView, chunk: JsonView) -> GatheredView {
    let counted = match chunk.field("usageMetadata"@) {
        Some(u) => GatheredView {
            usage: Some(
                Usage {
                    prompt: int_or_zero(u, "promptTokenCount"@),
                    completion: int_or_zero(u, "candidatesTokenCount"@),
                    total: int_or_zero(u, "totalTokenCount"@),
                },
            ),
            ..g
        },
        None => g,
    };
    match candidate_parts(chunk) {
        Some(parts) => google_parts(counted, parts),
        None => counted,
    }
}

/// What an event of a vendor adds.
pub open spec fn event_of(vendor: Vendor, g: GatheredView, chunk: JsonView) -> GatheredView {
    match vendor {
        Vendor::Chat => chat_event(g, chunk),
        Vendor::Responses => responses_event(g, chunk),
        Vendor::Anthropic => anthropic_event(g, chunk),
        Vendor::Google => google_event(g, chunk),
    }
}

/// What the payloads of a stream add; those that are no JSON add nothing.
pub open spec fn gathered(vendor: Vendor, g: GatheredView, stream: Seq<Seq<char>>) -> GatheredView
    decreases stream.len(),
{
    if stream.len() == 0 {
        g
    } else {
        let before = gathered(vendor, g, stream.drop_last());
        match json::json_text(stream.last()) {
            Some(chunk) => event_of(vendor, before, chunk),
            None => before,
        }
    }
}

/// The call that a finished draft makes. One without an id is numbered: by its index in the chat
/// shape, by the calls before it otherwise.
pub open spec fn draft_call(vendor: Vendor, d: DraftView, so_far: nat) -> ToolCallView {
    ToolCallView {
        name: d.name,
        call_id: if d.id.len() > 0 {
            d.id
        } else if vendor == Vendor::Chat {
            numbered(d.index)
        } else {
            numbered(so_far)
        },
        command: d.name,
        args: wire::args_json(d.args),
    }
}

/// An answer with the calls that drafts make, in the order of their indices; a draft without a
/// name makes none.
pub open spec fn collected(vendor: Vendor, g: GatheredView, drafts: Seq<DraftView>) -> GatheredView
    decreases drafts.len(),
{
    if drafts.len() == 0 {
        g
    } else {
        let before = collected(vendor, g, drafts.drop_last());
        if drafts.last().name.len() == 0 {
            before
        } else {
            with_call(before, draft_call(vendor, drafts.last(), before.calls.len()))
        }
    }
}

/// The counts of an answer, where they are positive; the rate counts where the answer has tokens.
pub open spec fn counts(usage: Option<Usage>, rate: u64) -> TurnStats {
    let u = usage_or_zero(usage);
    TurnStats {
        tokens: if u.total > 0 {
            Some(u.total)
        } else {
            None
        },
        tps: if u.completion > 0 {
            Some(rate)
        } else {
            None
        },
        context_tokens: if u.prompt > 0 {
            Some(u.prompt)
        } else {
            None
        },
    }
}

impl Gathered {
    pub fn new() -> (r: Gathered)
        ensures
            r@ == nothing(),
    {
        let r = Gathered {
            content: String::new(),
            calls: Vec::new(),
            drafts: Vec::new(),
            usage: None,
            events: Vec::new(),
        };
        assert(r@ =~= nothing());
        r
    }

    fn add_content(&mut self, t: Option<&str>)
        ensures
            final(self)@ == with_content(
                old(self)@,
                match t {
                    Some(t) => Some(t@),
                    None => None,
                },
            ),
    {
        match t {
            Some(t) => {
                if t.unicode_len() > 0 {
                    self.content.append(t);
                    self.events.push(RemoteEvent::Content(t.to_string()));
                    assert(self@ =~= with_content(old(self)@, Some(t@)));
                }
            },
            None => {},
        }
    }

    fn add_reasoning(&mut self, t: Option<&str>)
        ensures
            final(self)@ == with_reasoning(
                old(self)@,
                match t {
                    Some(t) => Some(t@),
                    None => None,
                },
            ),
    {
        match t {
            Some(t) => {
                if t.unicode_len() > 0 {
                    self.events.push(RemoteEvent::Reasoning(t.to_string()));
                    assert(self@ =~= with_reasoning(old(self)@, Some(t@)));
                }
            },
            None => {},
        }
    }

    fn add_call(&mut self, c: ToolCall)
        ensures
            final(self)@ == with_call(old(self)@, c@),
    {
        let shown = c.copy();
        self.events.push(RemoteEvent::ToolCall(shown));
        self.calls.push(c);
        assert(self@ =~= with_call(old(self)@, c@));
    }

    fn find_slot(&self, index: u64) -> (r: usize)
        ensures
            r == slot(self@.drafts, index as nat),
            r <= self.drafts@.len(),
    {
        let ghost all = self@.drafts;
        let mut i: usize = 0;
        assert(all.subrange(0, all.len() as int) =~= all);
        while i < self.drafts.len() && self.drafts[i].index < index
            invariant
                i <= self.drafts@.len(),
                all == text::views(self.drafts@),
                slot(all, index as nat) == i + slot(
                    all.subrange(i as int, all.len() as int),
                    index as nat,
                ),
            decreases self.drafts@.len() - i,
        {
            let ghost rest = all.subrange(i as int, all.len() as int);
            assert(rest[0] == self.drafts@[i as int]@);
            assert(rest.subrange(1, rest.len() as int) =~= all.subrange(i + 1, all.len() as int));
            i = i + 1;
        }
        let ghost rest = all.subrange(i as int, all.len() as int);
        assert(rest.len() > 0 ==> rest[0] == self.drafts@[i as int]@);
        i
    }

    fn open_slot(&mut self, index: u64) -> (r: usize)
        ensures
            r == slot(old(self)@.drafts, index as nat),
            r < final(self).drafts@.len(),
            final(self)@ == (GatheredView {
                drafts: with_slot(old(self)@.drafts, index as nat),
                ..old(self)@
            }),
            final(self).drafts@[r as int].index == index,
    {
        let k = self.find_slot(index);
        if k < self.drafts.len() && self.drafts[k].index == index {
            return k;
        }
        let d = CallDraft { index, id: String::new(), name: String::new(), args: String::new() };
        assert(d@ =~= empty_draft(index as nat));
        self.drafts.insert(k, d);
        assert(text::views(self.drafts@) =~= text::views(old(self).drafts@).insert(k as int, d@));
        assert(self@ =~= (GatheredView {
            drafts: with_slot(old(self)@.drafts, index as nat),
            ..old(self)@
        }));
        k
    }

    fn set_draft(&mut self, k: usize, d: CallDraft)
        requires
            k < old(self).drafts@.len(),
        ensures
            final(self)@ == (GatheredView {
                drafts: old(self)@.drafts.update(k as int, d@),
                ..old(self)@
            }),
    {
        self.drafts.set(k, d);
        assert(text::views(self.drafts@) =~= text::views(old(self).drafts@).update(k as int, d@));
        assert(self@ =~= (GatheredView {
            drafts: old(self)@.drafts.update(k as int, d@),
            ..old(self)@
        }));
    }

    fn add_chat_piece(&mut self, tc: &Json)
        ensures
            final(self)@ == (GatheredView {
                drafts: chat_pieces(old(self)@.drafts, seq![tc@]),
                ..old(self)@
            }),
    {
        let index = piece_index(tc);
        let k = self.open_slot(index);
        let ghost opened = self@.drafts;
        let d = &self.drafts[k];
        let id = match tc.text_field("id") {
            Some(id) => id.to_string(),
            None => d.id.clone(),
        };
        let mut name = d.name.clone();
        let mut args = d.args.clone();
        match tc.get("function") {
            Some(fun) => {
                match fun.text_field("name") {
                    Some(n) => {
                        name = n.to_string();
                    },
                    None => {},
                }
                match fun.text_field("arguments") {
                    Some(a) => {
                        args.append(a);
                    },
                    None => {},
                }
            },
            None => {},
        }
        let piece = CallDraft { index, id, name, args };
        assert(piece@ =~= chat_piece(opened[k as int], tc@));
        self.set_draft(k, piece);
        proof {
            let one = seq![tc@];
            assert(one.drop_last() =~= Seq::empty());
            assert(chat_pieces(old(self)@.drafts, one.drop_last()) == old(self)@.drafts);
        }
    }
}

fn piece_index(v: &Json) -> (r: u64)
    ensures
        r == index_of(v@),
{
    match v.get("index") {
        Some(i) => match i.as_nat() {
            Some(n) => n,
            None => 0,
        },
        None => 0,
    }
}

fn int_of(v: &Json, key: &str) -> (r: i64)
    ensures
        r == int_or_zero(v@, key@),
{
    match v.int_field(key) {
        Some(n) => n,
        None => 0,
    }
}

impl Gathered {
    /// Takes an event of the OpenAI chat API.
    pub fn on_chat_event(&mut self, chunk: &Json)
        ensures
            final(self)@ == chat_event(old(self)@, chunk@),
    {
        broadcast use json::lemma_items_view;

        match chunk.get("usage") {
            Some(u) => {
                self.usage = Some(
                    Usage {
                        prompt: int_of(u, "prompt_tokens"),
                        completion: int_of(u, "completion_tokens"),
                        total: int_of(u, "total_tokens"),
                    },
                );
            },
            None => {},
        }
        let choices = match chunk.items_field("choices") {
            Some(c) => c,
            None => {
                return ;
            },
        };
        if choices.len() == 0 {
            return ;
        }
        let delta = wire::get_or(&choices[0], "delta", Json::empty_object());
        self.add_content(delta.text_field("content"));
        self.add_reasoning(delta.text_field("reasoning_content"));
        let ghost thought = self@;
        match delta.items_field("tool_calls") {
            Some(pieces) => {
                let ghost all = json::items_view(pieces@);
                let mut i: usize = 0;
                assert(all.subrange(0, 0) =~= Seq::empty());
                assert(self@ =~= (GatheredView {
                    drafts: chat_pieces(thought.drafts, all.subrange(0, 0)),
                    ..thought
                }));
                while i < pieces.len()
                    invariant
                        i <= pieces@.len(),
                        all == json::items_view(pieces@),
                        all.len() == pieces@.len(),
                        forall|k: int| 0 <= k < all.len() ==> all[k] == json::json_view(pieces@[k]),
                        self@ == (GatheredView {
                            drafts: chat_pieces(thought.drafts, all.subrange(0, i as int)),
                            ..thought
                        }),
                    decreases pieces@.len() - i,
                {
                    let ghost before = self@;
                    self.add_chat_piece(&pieces[i]);
                    proof {
                        let next = all.subrange(0, i + 1);
                        let tc = pieces@[i as int]@;
                        assert(next.drop_last() =~= all.subrange(0, i as int));
                        assert(next.last() == tc);
                        let one = seq![tc];
                        assert(one.drop_last() =~= Seq::empty());
                        assert(chat_pieces(before.drafts, one.drop_last()) == before.drafts);
                    }
                    i = i + 1;
                }
                assert(all.subrange(0, all.len() as int) =~= all);
            },
            None => {},
        }
    }

    /// Takes an event of the OpenAI responses API.
    pub fn on_responses_event(&mut self, chunk: &Json)
        ensures
            final(self)@ == responses_event(old(self)@, chunk@),
    {
        let kind = wire::get_text_or(chunk, "type", "");
        if text::same(kind.as_str(), "response.output_text.delta") {
            self.add_content(chunk.text_field("delta"));
        } else if text::same(kind.as_str(), "response.reasoning_summary_text.delta") || text::same(
            kind.as_str(),
            "response.reasoning_text.delta",
        ) {
            self.add_reasoning(chunk.text_field("delta"));
        } else if text::same(kind.as_str(), "response.output_item.done") {
            let item = wire::get_or(chunk, "item", Json::empty_object());
            let is_call = match item.text_field("type") {
                Some(t) => text::same(t, "function_call"),
                None => false,
            };
            if is_call {
                match call_of_item(&item, self.calls.len()) {
                    Some(c) => {
                        self.add_call(c);
                    },
                    None => {},
                }
            }
        } else if text::same(kind.as_str(), "response.completed") {
            match chunk.get("response") {
                Some(resp) => match resp.get("usage") {
                    Some(u) => {
                        self.usage = Some(
                            Usage {
                                prompt: int_of(u, "input_tokens"),
                                completion: int_of(u, "output_tokens"),
                                total: int_of(u, "total_tokens"),
                            },
                        );
                    },
                    None => {},
                },
                None => {},
            }
        }
        assert(self@ =~= responses_event(old(self)@, chunk@));
    }

    fn on_anthropic_delta(&mut self, index: u64, delta: &Json)
        ensures
            final(self)@ == anthropic_delta(old(self)@, index as nat, delta@),
    {
        let kind = wire::get_text_or(delta, "type", "");
        if text::same(kind.as_str(), "text_delta") {
            self.add_content(delta.text_field("text"));
        } else if text::same(kind.as_str(), "thinking_delta") {
            self.add_reasoning(delta.text_field("thinking"));
        } else if text::same(kind.as_str(), "input_json_delta") {
            match delta.text_field("partial_json") {
                Some(p) => {
                    let k = self.find_slot(index);
                    if k < self.drafts.len() && self.drafts[k].index == index {
                        let d = &self.drafts[k];
                        let mut args = d.args.clone();
                        args.append(p);
                        let piece = CallDraft { index, id: d.id.clone(), name: d.name.clone(), args };
                        assert(piece@ =~= (DraftView {
                            args: self@.drafts[k as int].args + p@,
                            ..self@.drafts[k as int]
                        }));
                        self.set_draft(k, piece);
                    }
                },
                None => {},
            }
        }
        assert(self@ =~= anthropic_delta(old(self)@, index as nat, delta@));
    }

    /// Takes an event of the Anthropic messages API.
    pub fn on_anthropic_event(&mut self, chunk: &Json)
        ensures
            final(self)@ == anthropic_event(old(self)@, chunk@),
    {
        let kind = wire::get_text_or(chunk, "type", "");
        if text::same(kind.as_str(), "message_start") {
            let usage = match chunk.get("message") {
                Some(m) => m.get("usage"),
                None => None,
            };
            let tokens = match usage {
                Some(u) => u.int_field("input_tokens"),
                None => None,
            };
            match tokens {
                Some(n) => {
                    let u = current_usage(&self.usage);
                    self.usage = Some(
                        Usage { prompt: n, completion: u.completion, total: u.total },
                    );
                },
                None => {},
            }
        } else if text::same(kind.as_str(), "content_block_start") {
            let index = piece_index(chunk);
            let block = wire::get_or(chunk, "content_block", Json::empty_object());
            let is_tool = match block.text_field("type") {
                Some(t) => text::same(t, "tool_use"),
                None => false,
            };
            if is_tool {
                let id = wire::get_text_or(&block, "id", "");
                let name = wire::get_text_or(&block, "name", "");
                let k = self.open_slot(index);
                let piece = CallDraft { index, id, name, args: String::new() };
                assert(piece@.args =~= Seq::empty());
                self.set_draft(k, piece);
            }
        } else if text::same(kind.as_str(), "content_block_delta") {
            let index = piece_index(chunk);
            let delta = wire::get_or(chunk, "delta", Json::empty_object());
            self.on_anthropic_delta(index, &delta);
        } else if text::same(kind.as_str(), "message_delta") {
            let tokens = match chunk.get("usage") {
                Some(u) => u.int_field("output_tokens"),
                None => None,
            };
            match tokens {
                Some(n) => {
                    let u = current_usage(&self.usage);
                    self.usage = Some(
                        Usage {
                            prompt: u.prompt,
                            completion: n,
                            total: u.prompt.wrapping_add(n),
                        },
                    );
                },
                None => {},
            }
        }
        assert(self@ =~= anthropic_event(old(self)@, chunk@));
    }

    fn on_google_part(&mut self, part: &Json)
        ensures
            final(self)@ == google_part(old(self)@, part@),
    {
        self.add_content(part.text_field("text"));
        let is_thought = match part.get("thought") {
            Some(Json::Bool(b)) => *b,
            _ => false,
        };
        if is_thought {
            self.add_reasoning(part.text_field("text"));
        }
        match part.get("functionCall") {
            None => {},
            Some(fc) => {
                let name = wire::get_text_or(fc, "name", "");
                if name.as_str().unicode_len() > 0 {
                    let args = wire::get_or(fc, "args", Json::empty_object());
                    let n = text::write_usize(self.calls.len());
                    let call_id = text::cat2("call_", n.as_str());
                    let command = name.clone();
                    let call = ToolCall { name, call_id, command, args };
                    self.add_call(call);
                }
            },
        }
    }

    /// Takes an event of the Google generative language API.
    pub fn on_google_event(&mut self, chunk: &Json)
        ensures
            final(self)@ == google_event(old(self)@, chunk@),
    {
        broadcast use json::lemma_items_view;

        match chunk.get("usageMetadata") {
            Some(u) => {
                self.usage = Some(
                    Usage {
                        prompt: int_of(u, "promptTokenCount"),
                        completion: int_of(u, "candidatesTokenCount"),
                        total: int_of(u, "totalTokenCount"),
                    },
                );
            },
            None => {},
        }
        let ghost counted = self@;
        let candidates = match chunk.items_field("candidates") {
            Some(c) => c,
            None => {
                return ;
            },
        };
        if candidates.len() == 0 {
            return ;
        }
        let content = match candidates[0].get("content") {
            Some(c) => c,
            None => {
                return ;
            },
        };
        match content.items_field("parts") {
            Some(parts) => {
                let ghost all = json::items_view(parts@);
                let mut i: usize = 0;
                assert(all.subrange(0, 0) =~= Seq::empty());
                while i < parts.len()
                    invariant
                        i <= parts@.len(),
                        all == json::items_view(parts@),
                        all.len() == parts@.len(),
                        forall|k: int| 0 <= k < all.len() ==> all[k] == json::json_view(parts@[k]),
                        self@ == google_parts(counted, all.subrange(0, i as int)),
                    decreases parts@.len() - i,
                {
                    self.on_google_part(&parts[i]);
                    proof {
                        let next = all.subrange(0, i + 1);
                        assert(next.drop_last() =~= all.subrange(0, i as int));
                        assert(next.last() == parts@[i as int]@);
                    }
                    i = i + 1;
                }
                assert(all.subrange(0, all.len() as int) =~= all);
            },
            None => {},
        }
    }

    /// Takes an event of a vendor.
    pub fn on_event(&mut self, vendor: Vendor, chunk: &Json)
        ensures
            final(self)@ == event_of(vendor, old(self)@, chunk@),
    {
        match vendor {
            Vendor::Chat => self.on_chat_event(chunk),
            Vendor::Responses => self.on_responses_event(chunk),
            Vendor::Anthropic => self.on_anthropic_event(chunk),
            Vendor::Google => self.on_google_event(chunk),
        }
    }

    /// Makes the calls that the drafts stand for.
    pub fn collect_calls(&mut self, vendor: Vendor)
        ensures
            final(self)@ == collected(vendor, old(self)@, old(self)@.drafts),
    {
        let ghost start = self@;
        let ghost all = self@.drafts;
        let mut i: usize = 0;
        assert(all.subrange(0, 0) =~= Seq::empty());
        while i < self.drafts.len()
            invariant
                i <= self.drafts@.len(),
                all == text::views(self.drafts@),
                self@ == collected(vendor, start, all.subrange(0, i as int)),
            decreases self.drafts@.len() - i,
        {
            let ghost next = all.subrange(0, i + 1);
            assert(next.drop_last() =~= all.subrange(0, i as int));
            assert(next.last() == self.drafts@[i as int]@);
            let ghost drafts = self.drafts@;
            if self.drafts[i].name.as_str().unicode_len() > 0 {
                let name = self.drafts[i].name.clone();
                let number = match vendor {
                    Vendor::Chat => text::write_u64(self.drafts[i].index),
                    _ => text::write_usize(self.calls.len()),
                };
                let call_id = if self.drafts[i].id.as_str().unicode_len() > 0 {
                    self.drafts[i].id.clone()
                } else {
                    text::cat2("call_", number.as_str())
                };
                let args = wire::args_value(self.drafts[i].args.as_str());
                let command = name.clone();
                let call = ToolCall { name, call_id, command, args };
                assert(call@ =~= draft_call(vendor, next.last(), self@.calls.len()));
                self.add_call(call);
                assert(text::views(self.drafts@) == all);
            }
            assert(text::views(self.drafts@).len() == self.drafts@.len());
            i = i + 1;
        }
        assert(all.subrange(0, all.len() as int) =~= all);
    }

    /// The tokens of the answer itself.
    pub fn completion_tokens(&self) -> (r: i64)
        ensures
            r == usage_or_zero(self@.usage).completion,
    {
        current_usage(&self.usage).completion
    }
}

fn current_usage(u: &Option<Usage>) -> (r: Usage)
    ensures
        r == usage_or_zero(*u),
{
    match u {
        Some(u) => *u,
        None => Usage { prompt: 0, completion: 0, total: 0 },
    }
}

fn call_of_item(item: &Json, so_far: usize) -> (r: Option<ToolCall>)
    ensures
        text::opt_view(r) == item_call(item@, so_far as nat),
{
    let name = wire::get_text_or(item, "name", "");
    if name.as_str().unicode_len() == 0 {
        return None;
    }
    let raw = wire::get_text_or(item, "arguments", "{}");
    let id_field = match item.get("call_id") {
        Some(v) => Some(v),
        None => item.get("id"),
    };
    let id = match id_field {
        Some(v) => match v.as_text() {
            Some(t) => t.to_string(),
            None => "".to_string(),
        },
        None => "".to_string(),
    };
    let call_id = if id.as_str().unicode_len() == 0 {
        let n = text::write_usize(so_far);
        text::cat2("call_", n.as_str())
    } else {
        id
    };
    let command = name.clone();
    Some(ToolCall { name, call_id, command, args: wire::args_value(raw.as_str()) })
}

/// Folds the event stream of a vendor into what it adds up to.
pub fn gather(vendor: Vendor, body: &str) -> (r: Gathered)
    ensures
        r@ == ({
            let g = gathered(vendor, nothing(), payloads(body@));
            collected(vendor, g, g.drafts)
        }),
{
    let stream = sse_payloads(body);
    let ghost all = text::views(stream@);
    let mut g = Gathered::new();
    let mut i: usize = 0;
    assert(all.subrange(0, 0) =~= Seq::empty());
    while i < stream.len()
        invariant
            i <= stream@.len(),
            all == text::views(stream@),
            g@ == gathered(vendor, nothing(), all.subrange(0, i as int)),
        decreases stream@.len() - i,
    {
        let ghost next = all.subrange(0, i + 1);
        assert(next.drop_last() =~= all.subrange(0, i as int));
        assert(next.last() == stream@[i as int]@);
        match json::parse(stream[i].as_str()) {
            Some(chunk) => {
                g.on_event(vendor, &chunk);
            },
            None => {},
        }
        i = i + 1;
    }
    assert(all.subrange(0, all.len() as int) =~= all);
    g.collect_calls(vendor);
    g
}

/// The answer of a round and what was reported of it. The rate, as the bit pattern of a 64-bit
/// float, counts where the answer has tokens.
pub fn finalize(g: Gathered, rate: u64) -> (r: (RemoteModelOutput, Vec<RemoteEvent>))
    ensures
        r.0@ == (OutputView {
            content: g@.content,
            reasoning: Seq::empty(),
            calls: g@.calls,
            stats: counts(g@.usage, rate),
        }),
        text::views(r.1@) == g@.events,
{
    let u = current_usage(&g.usage);
    let tokens = if u.total > 0 {
        Some(u.total)
    } else {
        None
    };
    let tps = if u.completion > 0 {
        Some(rate)
    } else {
        None
    };
    let context_tokens = if u.prompt > 0 {
        Some(u.prompt)
    } else {
        None
    };
    let out = RemoteModelOutput {
        content: g.content,
        reasoning: String::new(),
        calls: g.calls,
        tokens,
        tps,
        context_tokens,
    };
    assert(out@.reasoning =~= Seq::empty());
    (out, g.events)
}

/// The text of the answer that was reported.
pub open spec fn reported_text(events: Seq<RemoteEventView>) -> Seq<char>
    decreases events.len(),
{
    if events.len() == 0 {
        Seq::empty()
    } else {
        reported_text(events.drop_last()) + match events.last() {
            RemoteEventView::Content(t) => t,
            _ => Seq::empty(),
        }
    }
}

/// The calls that were reported.
pub open spec fn reported_calls(events: Seq<RemoteEventView>) -> Seq<ToolCallView>
    decreases events.len(),
{
    if events.len() == 0 {
        Seq::empty()
    } else {
        let before = reported_calls(events.drop_last());
        match events.last() {
            RemoteEventView::ToolCall(c) => before.push(c),
            _ => before,
        }
    }
}

/// What was gathered is what was reported, and the drafts are in order.
pub open spec fn faithful(g: GatheredView) -> bool {
    &&& g.content == reported_text(g.events)
    &&& g.calls == reported_calls(g.events)
    &&& ordered(g.drafts)
}

proof fn lemma_report(events: Seq<RemoteEventView>, e: RemoteEventView)
    ensures
        reported_text(events.push(e)) == reported_text(events) + match e {
            RemoteEventView::Content(t) => t,
            _ => Seq::empty(),
        },
        reported_calls(events.push(e)) == match e {
            RemoteEventView::ToolCall(c) => reported_calls(events).push(c),
            _ => reported_calls(events),
        },
{
    assert(events.push(e).drop_last() =~= events);
}

proof fn lemma_content_faithful(g: GatheredView, t: Option<Seq<char>>)
    requires
        faithful(g),
    ensures
        faithful(with_content(g, t)),
        faithful(with_reasoning(g, t)),
{
    if t is Some {
        lemma_report(g.events, RemoteEventView::Content(t->0));
        lemma_report(g.events, RemoteEventView::Reasoning(t->0));
        assert(reported_text(g.events) + Seq::<char>::empty() =~= reported_text(g.events));
    }
}

proof fn lemma_call_faithful(g: GatheredView, c: ToolCallView)
    requires
        faithful(g),
    ensures
        faithful(with_call(g, c)),
{
    lemma_report(g.events, RemoteEventView::ToolCall(c));
    assert(reported_text(g.events) + Seq::<char>::empty() =~= reported_text(g.events));
}

proof fn lemma_slot(drafts: Seq<DraftView>, index: nat)
    requires
        ordered(drafts),
    ensures
        slot(drafts, index) <= drafts.len(),
        forall|j: int| 0 <= j < slot(drafts, index) ==> (#[trigger] drafts[j]).index < index,
        forall|j: int| slot(drafts, index) <= j < drafts.len() ==> (#[trigger] drafts[j]).index >= index,
    decreases drafts.len(),
{
    if drafts.len() > 0 && drafts[0].index < index {
        let rest = drafts.subrange(1, drafts.len() as int);
        assert(ordered(rest)) by {
            assert forall|i: int, j: int| 0 <= i < j < rest.len() implies (
            #[trigger] rest[i]).index < (#[trigger] rest[j]).index by {
                assert(drafts[i + 1].index < drafts[j + 1].index);
            }
        }
        lemma_slot(rest, index);
        assert forall|j: int| 0 <= j < slot(drafts, index) implies (#[trigger] drafts[j]).index
            < index by {
            if j > 0 {
                assert(rest[j - 1].index < index);
            }
        }
        assert forall|j: int| slot(drafts, index) <= j < drafts.len() implies (
        #[trigger] drafts[j]).index >= index by {
            assert(rest[j - 1].index >= index);
        }
    } else if drafts.len() > 0 {
        assert forall|j: int| 0 <= j < drafts.len() implies (#[trigger] drafts[j]).index >= index by {
            if j > 0 {
                assert(drafts[0].index < drafts[j].index);
            }
        }
    }
}

proof fn lemma_with_slot(drafts: Seq<DraftView>, index: nat)
    requires
        ordered(drafts),
    ensures
        ordered(with_slot(drafts, index)),
        slot(drafts, index) < with_slot(drafts, index).len(),
        with_slot(drafts, index)[slot(drafts, index) as int].index == index,
{
    lemma_slot(drafts, index);
    let k = slot(drafts, index) as int;
    if !(k < drafts.len() && drafts[k].index == index) {
        let next = with_slot(drafts, index);
        assert forall|i: int, j: int| 0 <= i < j < next.len() implies (#[trigger] next[i]).index < (
        #[trigger] next[j]).index by {
            if i < k {
                assert(drafts[i].index < index);
                if j > k {
                    assert(drafts[i].index < drafts[j - 1].index);
                } else if j < k {
                    assert(drafts[i].index < drafts[j].index);
                }
            } else if i == k {
                assert(drafts[j - 1].index >= index);
                if drafts[j - 1].index == index && j - 1 > k {
                    assert(drafts[k].index < drafts[j - 1].index);
                    assert(drafts[k].index >= index);
                }
            } else {
                assert(drafts[i - 1].index < drafts[j - 1].index);
            }
        }
    }
}

proof fn lemma_update_ordered(drafts: Seq<DraftView>, k: int, d: DraftView)
    requires
        ordered(drafts),
        0 <= k < drafts.len(),
        d.index == drafts[k].index,
    ensures
        ordered(drafts.update(k, d)),
{
    let next = drafts.update(k, d);
    assert forall|i: int, j: int| 0 <= i < j < next.len() implies (#[trigger] next[i]).index < (
    #[trigger] next[j]).index by {
        assert(drafts[i].index < drafts[j].index);
    }
}

proof fn lemma_pieces_ordered(drafts: Seq<DraftView>, pieces: Seq<JsonView>)
    requires
        ordered(drafts),
    ensures
        ordered(chat_pieces(drafts, pieces)),
    decreases pieces.len(),
{
    if pieces.len() > 0 {
        lemma_pieces_ordered(drafts, pieces.drop_last());
        let before = chat_pieces(drafts, pieces.drop_last());
        let index = index_of(pieces.last());
        lemma_with_slot(before, index);
        let opened = with_slot(before, index);
        let k = slot(before, index) as int;
        lemma_update_ordered(opened, k, chat_piece(opened[k], pieces.last()));
    }
}

proof fn lemma_google_faithful(g: GatheredView, parts: Seq<JsonView>)
    requires
        faithful(g),
    ensures
        faithful(google_parts(g, parts)),
    decreases parts.len(),
{
    if parts.len() > 0 {
        lemma_google_faithful(g, parts.drop_last());
        let before = google_parts(g, parts.drop_last());
        let part = parts.last();
        let t = part.text_field("text"@);
        lemma_content_faithful(before, t);
        let said = with_content(before, t);
        lemma_content_faithful(said, t);
        let thought = if part.field("thought"@) == Some(JsonView::Bool(true)) {
            with_reasoning(said, t)
        } else {
            said
        };
        if part.field("functionCall"@) is Some {
            let fc = part.field("functionCall"@)->0;
            let name = wire::text_or(fc, "name"@, ""@);
            lemma_call_faithful(
                thought,
                ToolCallView {
                    name,
                    call_id: numbered(thought.calls.len()),
                    command: name,
                    args: wire::field_or(fc, "args"@, JsonView::Object(Map::empty())),
                },
            );
        }
    }
}

/// Whatever a vendor sends, what was gathered is what was reported: the text of the answer is
/// the text of the reports, and each call is reported once, in its order.
pub proof fn law_event_is_reported(vendor: Vendor, g: GatheredView, chunk: JsonView)
    requires
        faithful(g),
    ensures
        faithful(event_of(vendor, g, chunk)),
{
    match vendor {
        Vendor::Chat => {
            let counted = match chunk.field("usage"@) {
                Some(u) => GatheredView { usage: Some(chat_usage(u)), ..g },
                None => g,
            };
            match chunk.items_field("choices"@) {
                Some(choices) => {
                    if choices.len() > 0 {
                        let delta = wire::field_or(
                            choices[0],
                            "delta"@,
                            JsonView::Object(Map::empty()),
                        );
                        lemma_content_faithful(counted, delta.text_field("content"@));
                        let said = with_content(counted, delta.text_field("content"@));
                        lemma_content_faithful(said, delta.text_field("reasoning_content"@));
                        let thought = with_reasoning(said, delta.text_field("reasoning_content"@));
                        if delta.items_field("tool_calls"@) is Some {
                            lemma_pieces_ordered(
                                thought.drafts,
                                delta.items_field("tool_calls"@)->0,
                            );
                        }
                    }
                },
                None => {},
            }
        },
        Vendor::Responses => {
            lemma_content_faithful(g, chunk.text_field("delta"@));
            let item = wire::field_or(chunk, "item"@, JsonView::Object(Map::empty()));
            if item_call(item, g.calls.len()) is Some {
                lemma_call_faithful(g, item_call(item, g.calls.len())->0);
            }
        },
        Vendor::Anthropic => {
            let delta = wire::field_or(chunk, "delta"@, JsonView::Object(Map::empty()));
            let index = index_of(chunk);
            lemma_content_faithful(g, delta.text_field("text"@));
            lemma_content_faithful(g, delta.text_field("thinking"@));
            lemma_with_slot(g.drafts, index);
            let k = slot(g.drafts, index) as int;
            let block = wire::field_or(chunk, "content_block"@, JsonView::Object(Map::empty()));
            lemma_update_ordered(
                with_slot(g.drafts, index),
                k,
                DraftView {
                    index,
                    id: wire::text_or(block, "id"@, ""@),
                    name: wire::text_or(block, "name"@, ""@),
                    args: Seq::empty(),
                },
            );
            if k < g.drafts.len() && g.drafts[k].index == index {
                if delta.text_field("partial_json"@) is Some {
                    lemma_update_ordered(
                        g.drafts,
                        k,
                        DraftView {
                            args: g.drafts[k].args + delta.text_field("partial_json"@)->0,
                            ..g.drafts[k]
                        },
                    );
                }
            }
        },
        Vendor::Google => {
            let counted = match chunk.field("usageMetadata"@) {
                Some(u) => GatheredView {
                    usage: Some(
                        Usage {
                            prompt: int_or_zero(u, "promptTokenCount"@),
                            completion: int_or_zero(u, "candidatesTokenCount"@),
                            total: int_or_zero(u, "totalTokenCount"@),
                        },
                    ),
                    ..g
                },
                None => g,
            };
            if candidate_parts(chunk) is Some {
                lemma_google_faithful(counted, candidate_parts(chunk)->0);
            }
        },
    }
}

proof fn lemma_gathered_faithful(vendor: Vendor, g: GatheredView, stream: Seq<Seq<char>>)
    requires
        faithful(g),
    ensures
        faithful(gathered(vendor, g, stream)),
    decreases stream.len(),
{
    if stream.len() > 0 {
        lemma_gathered_faithful(vendor, g, stream.drop_last());
        let before = gathered(vendor, g, stream.drop_last());
        if json::json_text(stream.last()) is Some {
            law_event_is_reported(vendor, before, json::json_text(stream.last())->0);
        }
    }
}

proof fn lemma_collected_faithful(vendor: Vendor, g: GatheredView, drafts: Seq<DraftView>)
    requires
        faithful(g),
    ensures
        faithful(collected(vendor, g, drafts)),
    decreases drafts.len(),
{
    if drafts.len() > 0 {
        lemma_collected_faithful(vendor, g, drafts.drop_last());
        let before = collected(vendor, g, drafts.drop_last());
        lemma_call_faithful(before, draft_call(vendor, drafts.last(), before.calls.len()));
    }
}

/// The whole answer to a round is what was reported of it.
pub proof fn law_answer_is_reported(vendor: Vendor, body: Seq<char>)
    ensures
        ({
            let g = gathered(vendor, nothing(), payloads(body));
            faithful(collected(vendor, g, g.drafts))
        }),
{
    lemma_gathered_faithful(vendor, nothing(), payloads(body));
    let g = gathered(vendor, nothing(), payloads(body));
    lemma_collected_faithful(vendor, g, g.drafts);
}

/// An event in which an Anthropic block of a tool call begins.
pub open spec fn is_call_start(
    chunk: JsonView,
    index: nat,
    id: Seq<char>,
    name: Seq<char>,
) -> bool {
    &&& chunk.field("type"@) == Some(JsonView::Text("content_block_start"@))
    &&& index <= u64::MAX
    &&& chunk.field("index"@) == Some(JsonView::Int(index as int))
    &&& chunk.field("content_block"@) matches Some(block) && {
        &&& block.field("type"@) == Some(JsonView::Text("tool_use"@))
        &&& block.field("id"@) == Some(JsonView::Text(id))
        &&& block.field("name"@) == Some(JsonView::Text(name))
    }
}

/// An event with a fragment of the arguments of an Anthropic tool call.
pub open spec fn is_fragment(chunk: JsonView, index: nat, p: Seq<char>) -> bool {
    &&& chunk.field("type"@) == Some(JsonView::Text("content_block_delta"@))
    &&& index <= u64::MAX
    &&& chunk.field("index"@) == Some(JsonView::Int(index as int))
    &&& chunk.field("delta"@) matches Some(delta) && {
        &&& delta.field("type"@) == Some(JsonView::Text("input_json_delta"@))
        &&& delta.field("partial_json"@) == Some(JsonView::Text(p))
    }
}

/// An event of the OpenAI chat API that holds one piece of a call and nothing else.
pub open spec fn is_chat_piece(chunk: JsonView, piece: JsonView) -> bool {
    &&& chunk.field("usage"@) is None
    &&& chunk.field("choices"@) matches Some(JsonView::Array(choices)) && choices.len() > 0 && (
    choices[0].field("delta"@) matches Some(delta) && {
        &&& delta.field("content"@) is None
        &&& delta.field("reasoning_content"@) is None
        &&& delta.field("tool_calls"@) == Some(JsonView::Array(seq![piece]))
    })
}

/// A piece of a call in the chat shape with a fragment of its arguments and no name or id.
pub open spec fn is_later_piece(piece: JsonView, index: nat, p: Seq<char>) -> bool {
    &&& index <= u64::MAX
    &&& piece.field("index"@) == Some(JsonView::Int(index as int))
    &&& piece.field("id"@) is None
    &&& piece.field("function"@) matches Some(f) && f.field("name"@) is None && f.field(
        "arguments"@,
    ) == Some(JsonView::Text(p))
}

/// The first piece of a call in the chat shape, with its name and id.
pub open spec fn is_first_piece(
    piece: JsonView,
    index: nat,
    id: Seq<char>,
    name: Seq<char>,
    p: Seq<char>,
) -> bool {
    &&& index <= u64::MAX
    &&& piece.field("index"@) == Some(JsonView::Int(index as int))
    &&& piece.field("id"@) == Some(JsonView::Text(id))
    &&& piece.field("function"@) matches Some(f) && f.field("name"@) == Some(JsonView::Text(name))
        && f.field("arguments"@) == Some(JsonView::Text(p))
}

proof fn lemma_event_kinds()
    ensures
        "content_block_start"@ != "message_start"@,
        "content_block_delta"@ != "message_start"@,
        "content_block_delta"@ != "content_block_start"@,
        "message_delta"@ != "message_start"@,
        "message_delta"@ != "content_block_start"@,
        "message_delta"@ != "content_block_delta"@,
        "input_json_delta"@ != "text_delta"@,
        "input_json_delta"@ != "thinking_delta"@,
        "thinking_delta"@ != "text_delta"@,
        "response.output_text.delta"@ != "response.reasoning_summary_text.delta"@,
        "response.output_text.delta"@ != "response.reasoning_text.delta"@,
        "response.output_item.done"@ != "response.output_text.delta"@,
        "response.output_item.done"@ != "response.reasoning_summary_text.delta"@,
        "response.output_item.done"@ != "response.reasoning_text.delta"@,
        "response.completed"@ != "response.output_text.delta"@,
        "response.completed"@ != "response.reasoning_summary_text.delta"@,
        "response.completed"@ != "response.reasoning_text.delta"@,
        "response.completed"@ != "response.output_item.done"@,
        ""@.len() == 0,
{
    reveal_strlit("content_block_start");
    reveal_strlit("content_block_delta");
    reveal_strlit("message_start");
    reveal_strlit("message_delta");
    reveal_strlit("input_json_delta");
    reveal_strlit("text_delta");
    reveal_strlit("thinking_delta");
    reveal_strlit("response.output_text.delta");
    reveal_strlit("response.reasoning_summary_text.delta");
    reveal_strlit("response.reasoning_text.delta");
    reveal_strlit("response.output_item.done");
    reveal_strlit("response.completed");
    reveal_strlit("");
    assert("content_block_start"@.len() == 19);
    assert("content_block_delta"@.len() == 19);
    assert("message_start"@.len() == 13);
    assert("message_delta"@.len() == 13);
    assert("content_block_start"@[14] != "content_block_delta"@[14]);
    assert("message_start"@[8] != "message_delta"@[8]);
    assert("input_json_delta"@.len() == 16);
    assert("text_delta"@.len() == 10);
    assert("thinking_delta"@.len() == 14);
    assert("response.output_text.delta"@.len() == 26);
    assert("response.reasoning_summary_text.delta"@.len() == 37);
    assert("response.reasoning_text.delta"@.len() == 29);
    assert("response.output_item.done"@.len() == 25);
    assert("response.completed"@.len() == 18);
}

proof fn lemma_slot_is(drafts: Seq<DraftView>, k: int)
    requires
        ordered(drafts),
        0 <= k < drafts.len(),
    ensures
        slot(drafts, drafts[k].index) == k,
{
    let index = drafts[k].index;
    lemma_slot(drafts, index);
    let s = slot(drafts, index) as int;
    if s < k {
        assert(drafts[s].index < drafts[k].index);
    }
}

/// A fragment of the arguments of an Anthropic tool call goes behind what has arrived of that
/// call's arguments; the other calls, the text and the usage stay as they are.
pub proof fn law_fragment_extends_arguments(
    g: GatheredView,
    chunk: JsonView,
    k: int,
    p: Seq<char>,
)
    requires
        ordered(g.drafts),
        0 <= k < g.drafts.len(),
        is_fragment(chunk, g.drafts[k].index, p),
    ensures
        ({
            let next = event_of(Vendor::Anthropic, g, chunk);
            &&& next.drafts == g.drafts.update(k, next.drafts[k])
            &&& next.drafts[k].index == g.drafts[k].index
            &&& next.drafts[k].id == g.drafts[k].id
            &&& next.drafts[k].name == g.drafts[k].name
            &&& next.drafts[k].args == g.drafts[k].args + p
            &&& next.content == g.content
            &&& next.calls == g.calls
            &&& next.usage == g.usage
            &&& next.events == g.events
        }),
{
    lemma_event_kinds();
    lemma_slot_is(g.drafts, k);
}

/// A fragment that arrives in two adds the same as one that arrives whole.
pub proof fn law_split_fragment_is_whole(
    g: GatheredView,
    index: nat,
    a: JsonView,
    p: Seq<char>,
    b: JsonView,
    q: Seq<char>,
    whole: JsonView,
)
    requires
        ordered(g.drafts),
        is_fragment(a, index, p),
        is_fragment(b, index, q),
        is_fragment(whole, index, p + q),
    ensures
        event_of(Vendor::Anthropic, event_of(Vendor::Anthropic, g, a), b) == event_of(
            Vendor::Anthropic,
            g,
            whole,
        ),
{
    lemma_event_kinds();
    lemma_slot(g.drafts, index);
    let k = slot(g.drafts, index) as int;
    if k < g.drafts.len() && g.drafts[k].index == index {
        law_fragment_extends_arguments(g, a, k, p);
        law_fragment_extends_arguments(g, whole, k, p + q);
        let mid = event_of(Vendor::Anthropic, g, a);
        lemma_update_ordered(g.drafts, k, mid.drafts[k]);
        law_fragment_extends_arguments(mid, b, k, q);
        assert(g.drafts[k].args + p + q =~= g.drafts[k].args + (p + q));
        assert(event_of(Vendor::Anthropic, mid, b).drafts =~= event_of(
            Vendor::Anthropic,
            g,
            whole,
        ).drafts);
    }
}

/// A block of a tool call begins with the id and the name that it was given and no arguments,
/// and leaves the other calls, the text and the usage as they are.
pub proof fn law_block_begins_call(
    g: GatheredView,
    chunk: JsonView,
    index: nat,
    id: Seq<char>,
    name: Seq<char>,
)
    requires
        ordered(g.drafts),
        is_call_start(chunk, index, id, name),
    ensures
        ({
            let next = event_of(Vendor::Anthropic, g, chunk);
            &&& ordered(next.drafts)
            &&& next.drafts.contains(DraftView { index, id, name, args: Seq::empty() })
            &&& forall|d: DraftView|
                d.index != index ==> (#[trigger] next.drafts.contains(d) == g.drafts.contains(d))
            &&& next.content == g.content
            &&& next.calls == g.calls
            &&& next.usage == g.usage
            &&& next.events == g.events
        }),
{
    lemma_event_kinds();
    lemma_with_slot(g.drafts, index);
    lemma_slot(g.drafts, index);
    let k = slot(g.drafts, index) as int;
    let opened = with_slot(g.drafts, index);
    let draft = DraftView { index, id, name, args: Seq::empty() };
    lemma_update_ordered(opened, k, draft);
    let next = opened.update(k, draft);
    assert(next[k] == draft);
    lemma_others_stay(g.drafts, index, draft);
}

proof fn lemma_others_stay(drafts: Seq<DraftView>, index: nat, draft: DraftView)
    requires
        ordered(drafts),
        draft.index == index,
    ensures
        ({
            let next = with_slot(drafts, index).update(slot(drafts, index) as int, draft);
            forall|d: DraftView|
                d.index != index ==> (#[trigger] next.contains(d) == drafts.contains(d))
        }),
{
    lemma_with_slot(drafts, index);
    lemma_slot(drafts, index);
    let k = slot(drafts, index) as int;
    let opened = with_slot(drafts, index);
    let next = opened.update(k, draft);
    assert forall|d: DraftView| d.index != index implies (#[trigger] next.contains(d)
        == drafts.contains(d)) by {
        if next.contains(d) {
            let i = choose|i: int| 0 <= i < next.len() && next[i] == d;
            assert(i != k);
            assert(opened[i] == d);
            if opened.len() > drafts.len() {
                if i < k {
                    assert(drafts[i] == d);
                } else {
                    assert(drafts[i - 1] == d);
                }
            } else {
                assert(drafts[i] == d);
            }
        }
        if drafts.contains(d) {
            let i = choose|i: int| 0 <= i < drafts.len() && drafts[i] == d;
            if opened.len() > drafts.len() {
                if i < k {
                    assert(next[i] == d);
                } else {
                    assert(next[i + 1] == d);
                }
            } else {
                assert(i != k);
                assert(next[i] == d);
            }
        }
    }
}

proof fn lemma_fragments(
    g: GatheredView,
    stream: Seq<Seq<char>>,
    k: int,
    ps: Seq<Seq<char>>,
)
    requires
        ordered(g.drafts),
        0 <= k < g.drafts.len(),
        stream.len() == ps.len(),
        forall|i: int|
            #![trigger stream[i]]
            0 <= i < stream.len() ==> (json::json_text(stream[i]) matches Some(chunk)
                && is_fragment(chunk, g.drafts[k].index, ps[i])),
    ensures
        gathered(Vendor::Anthropic, g, stream) == (GatheredView {
            drafts: g.drafts.update(
                k,
                DraftView { args: g.drafts[k].args + ps.flatten(), ..g.drafts[k] },
            ),
            ..g
        }),
    decreases stream.len(),
{
    if stream.len() == 0 {
        assert(ps.flatten() =~= Seq::empty());
        assert(g.drafts[k].args + ps.flatten() =~= g.drafts[k].args);
        assert(gathered(Vendor::Anthropic, g, stream) =~= (GatheredView {
            drafts: g.drafts.update(
                k,
                DraftView { args: g.drafts[k].args + ps.flatten(), ..g.drafts[k] },
            ),
            ..g
        }));
    } else {
        let less = stream.drop_last();
        assert forall|i: int|
            #![trigger less[i]]
            0 <= i < less.len() implies (json::json_text(less[i]) matches Some(chunk)
            && is_fragment(chunk, g.drafts[k].index, ps.drop_last()[i])) by {
            assert(less[i] == stream[i]);
        }
        lemma_fragments(g, less, k, ps.drop_last());
        let mid = gathered(Vendor::Anthropic, g, less);
        assert(mid.drafts[k].index == g.drafts[k].index);
        lemma_update_ordered(g.drafts, k, mid.drafts[k]);
        let last = stream[stream.len() - 1];
        let chunk = json::json_text(last)->0;
        law_fragment_extends_arguments(mid, chunk, k, ps.last());
        assert(ps.drop_last().push(ps.last()) =~= ps);
        ps.drop_last().lemma_flatten_push(ps.last());
        assert(g.drafts[k].args + ps.drop_last().flatten() + ps.last() =~= g.drafts[k].args
            + ps.flatten());
        assert(gathered(Vendor::Anthropic, g, stream).drafts =~= g.drafts.update(
            k,
            DraftView { args: g.drafts[k].args + ps.flatten(), ..g.drafts[k] },
        ));
    }
}

/// An Anthropic stream that begins a tool call and then sends the arguments in fragments makes
/// one call, with the id and the name of its beginning. Its arguments are the JSON value of all
/// fragments written one after the other in the order in which they came, or that text where it
/// is no JSON.
pub proof fn law_call_has_all_fragments(
    first: Seq<char>,
    index: nat,
    id: Seq<char>,
    name: Seq<char>,
    stream: Seq<Seq<char>>,
    ps: Seq<Seq<char>>,
)
    requires
        name.len() > 0,
        id.len() > 0,
        json::json_text(first) matches Some(chunk) && is_call_start(chunk, index, id, name),
        stream.len() == ps.len(),
        forall|i: int|
            #![trigger stream[i]]
            0 <= i < stream.len() ==> (json::json_text(stream[i]) matches Some(chunk)
                && is_fragment(chunk, index, ps[i])),
    ensures
        ({
            let g = gathered(Vendor::Anthropic, nothing(), seq![first] + stream);
            let all = collected(Vendor::Anthropic, g, g.drafts);
            &&& all.calls.len() == 1
            &&& all.calls[0].name == name
            &&& all.calls[0].command == name
            &&& all.calls[0].call_id == id
            &&& json::json_text(ps.flatten()) is Some ==> Some(all.calls[0].args)
                == json::json_text(ps.flatten())
            &&& json::json_text(ps.flatten()) is None ==> all.calls[0].args == JsonView::Text(
                ps.flatten(),
            )
            &&& all.content.len() == 0
        }),
{
    let start = json::json_text(first)->0;
    let began = event_of(Vendor::Anthropic, nothing(), start);
    law_block_begins_call(nothing(), start, index, id, name);
    let draft = DraftView { index, id, name, args: Seq::empty() };
    lemma_event_kinds();
    assert(began.drafts =~= seq![draft]);
    lemma_gathered_first(Vendor::Anthropic, nothing(), first, stream);
    lemma_fragments(began, stream, 0, ps);
    assert(Seq::<char>::empty() + ps.flatten() =~= ps.flatten());
    let g = gathered(Vendor::Anthropic, nothing(), seq![first] + stream);
    assert(g.drafts =~= seq![DraftView { args: ps.flatten(), ..draft }]);
    assert(g.drafts.drop_last() =~= Seq::empty());
    reveal_with_fuel(collected, 2);
}

proof fn lemma_gathered_first(
    vendor: Vendor,
    g: GatheredView,
    first: Seq<char>,
    stream: Seq<Seq<char>>,
)
    requires
        json::json_text(first) is Some,
    ensures
        gathered(vendor, g, seq![first] + stream) == gathered(
            vendor,
            event_of(vendor, g, json::json_text(first)->0),
            stream,
        ),
    decreases stream.len(),
{
    let all = seq![first] + stream;
    if stream.len() == 0 {
        assert(all.drop_last() =~= Seq::empty());
        assert(all.last() == first);
        assert(gathered(vendor, g, all.drop_last()) == g);
    } else {
        assert(all.drop_last() =~= seq![first] + stream.drop_last());
        assert(all.last() == stream.last());
        lemma_gathered_first(vendor, g, first, stream.drop_last());
    }
}

/// A later piece of a call in the chat shape goes behind what has arrived of the arguments of
/// the call with its index; the other calls, the text and the usage stay as they are.
pub proof fn law_piece_extends_arguments(
    g: GatheredView,
    chunk: JsonView,
    piece: JsonView,
    k: int,
    p: Seq<char>,
)
    requires
        ordered(g.drafts),
        0 <= k < g.drafts.len(),
        is_chat_piece(chunk, piece),
        is_later_piece(piece, g.drafts[k].index, p),
    ensures
        ({
            let next = event_of(Vendor::Chat, g, chunk);
            &&& next.drafts == g.drafts.update(k, next.drafts[k])
            &&& next.drafts[k].index == g.drafts[k].index
            &&& next.drafts[k].id == g.drafts[k].id
            &&& next.drafts[k].name == g.drafts[k].name
            &&& next.drafts[k].args == g.drafts[k].args + p
            &&& next.content == g.content
            &&& next.calls == g.calls
            &&& next.usage == g.usage
            &&& next.events == g.events
        }),
{
    lemma_slot_is(g.drafts, k);
    let pieces = seq![piece];
    assert(pieces.drop_last() =~= Seq::empty());
    assert(pieces.last() == piece);
    assert(chat_pieces(g.drafts, pieces.drop_last()) == g.drafts);
    assert(chat_pieces(g.drafts, pieces) == g.drafts.update(k, chat_piece(g.drafts[k], piece)));
}

/// The first piece of a call in the chat shape begins the call with its id, its name and its
/// arguments so far, and leaves the other calls, the text and the usage as they are.
pub proof fn law_first_piece_begins_call(
    g: GatheredView,
    chunk: JsonView,
    piece: JsonView,
    index: nat,
    id: Seq<char>,
    name: Seq<char>,
    p: Seq<char>,
)
    requires
        ordered(g.drafts),
        forall|k: int| 0 <= k < g.drafts.len() ==> (#[trigger] g.drafts[k]).index != index,
        is_chat_piece(chunk, piece),
        is_first_piece(piece, index, id, name, p),
    ensures
        ({
            let next = event_of(Vendor::Chat, g, chunk);
            &&& ordered(next.drafts)
            &&& next.drafts.contains(DraftView { index, id, name, args: p })
            &&& forall|d: DraftView|
                d.index != index ==> (#[trigger] next.drafts.contains(d) == g.drafts.contains(d))
            &&& next.drafts.len() == g.drafts.len() + 1
            &&& next.content == g.content
            &&& next.calls == g.calls
            &&& next.usage == g.usage
            &&& next.events == g.events
        }),
{
    lemma_with_slot(g.drafts, index);
    lemma_slot(g.drafts, index);
    let pieces = seq![piece];
    assert(pieces.drop_last() =~= Seq::empty());
    assert(pieces.last() == piece);
    assert(chat_pieces(g.drafts, pieces.drop_last()) == g.drafts);
    let k = slot(g.drafts, index) as int;
    let opened = with_slot(g.drafts, index);
    assert(opened[k] == empty_draft(index));
    let draft = DraftView { index, id, name, args: p };
    assert(Seq::<char>::empty() + p =~= p);
    assert(chat_piece(opened[k], piece) == draft);
    let next = chat_pieces(g.drafts, pieces);
    assert(next == opened.update(k, draft));
    assert(next[k] == draft);
    lemma_update_ordered(opened, k, draft);
    lemma_others_stay(g.drafts, index, draft);
}

/// A piece of the arguments that arrives in two adds the same as one that arrives whole.
pub proof fn law_split_piece_is_whole(
    g: GatheredView,
    k: int,
    a: JsonView,
    pa: JsonView,
    p: Seq<char>,
    b: JsonView,
    pb: JsonView,
    q: Seq<char>,
    whole: JsonView,
    pw: JsonView,
)
    requires
        ordered(g.drafts),
        0 <= k < g.drafts.len(),
        is_chat_piece(a, pa),
        is_later_piece(pa, g.drafts[k].index, p),
        is_chat_piece(b, pb),
        is_later_piece(pb, g.drafts[k].index, q),
        is_chat_piece(whole, pw),
        is_later_piece(pw, g.drafts[k].index, p + q),
    ensures
        event_of(Vendor::Chat, event_of(Vendor::Chat, g, a), b) == event_of(
            Vendor::Chat,
            g,
            whole,
        ),
{
    law_piece_extends_arguments(g, a, pa, k, p);
    law_piece_extends_arguments(g, whole, pw, k, p + q);
    let mid = event_of(Vendor::Chat, g, a);
    lemma_update_ordered(g.drafts, k, mid.drafts[k]);
    law_piece_extends_arguments(mid, b, pb, k, q);
    assert(g.drafts[k].args + p + q =~= g.drafts[k].args + (p + q));
    assert(event_of(Vendor::Chat, mid, b).drafts =~= event_of(Vendor::Chat, g, whole).drafts);
}

/// When the stream is over, each call that arrived in pieces becomes a call, in the order of
/// the indices and behind the calls that arrived whole: with its name, with its id, or a made
/// one where it has none, and with the JSON value of its arguments' text, or that text where it
/// is no JSON. The text and the usage stay as they are.
pub proof fn law_drafts_become_calls(vendor: Vendor, g: GatheredView, drafts: Seq<DraftView>)
    requires
        forall|i: int| 0 <= i < drafts.len() ==> (#[trigger] drafts[i]).name.len() > 0,
    ensures
        ({
            let all = collected(vendor, g, drafts);
            &&& all.content == g.content
            &&& all.usage == g.usage
            &&& all.calls.len() == g.calls.len() + drafts.len()
            &&& all.calls.subrange(0, g.calls.len() as int) == g.calls
            &&& forall|i: int|
                #![trigger drafts[i]]
                0 <= i < drafts.len() ==> {
                    let call = all.calls[g.calls.len() + i];
                    &&& call.name == drafts[i].name
                    &&& call.command == drafts[i].name
                    &&& drafts[i].id.len() > 0 ==> call.call_id == drafts[i].id
                    &&& drafts[i].id.len() == 0 ==> call.call_id == "call_"@ + text::decimal(
                        if vendor == Vendor::Chat {
                            drafts[i].index
                        } else {
                            (g.calls.len() + i) as nat
                        },
                    )
                    &&& json::json_text(drafts[i].args) is Some ==> Some(call.args)
                        == json::json_text(drafts[i].args)
                    &&& json::json_text(drafts[i].args) is None ==> call.args == JsonView::Text(
                        drafts[i].args,
                    )
                }
        }),
    decreases drafts.len(),
{
    let all = collected(vendor, g, drafts);
    if drafts.len() == 0 {
        assert(g.calls.subrange(0, g.calls.len() as int) =~= g.calls);
    } else {
        let less = drafts.drop_last();
        assert(forall|i: int| 0 <= i < less.len() ==> less[i] == drafts[i]);
        law_drafts_become_calls(vendor, g, less);
        let before = collected(vendor, g, less);
        let n = drafts.len() - 1;
        assert(drafts[n].name.len() > 0);
        assert(all.calls == before.calls.push(draft_call(vendor, drafts[n], before.calls.len())));
        assert(all.calls.subrange(0, g.calls.len() as int) =~= before.calls.subrange(
            0,
            g.calls.len() as int,
        ));
        assert forall|i: int| #![trigger drafts[i]] 0 <= i < n implies all.calls[g.calls.len() + i]
            == before.calls[g.calls.len() + i] && less[i] == drafts[i] by {}
    }
}

/// A call that never got a name is dropped.
pub proof fn law_nameless_draft_is_dropped(
    vendor: Vendor,
    g: GatheredView,
    drafts: Seq<DraftView>,
    d: DraftView,
)
    requires
        d.name.len() == 0,
    ensures
        collected(vendor, g, drafts.push(d)) == collected(vendor, g, drafts),
{
    assert(drafts.push(d).drop_last() =~= drafts);
}

/// An event of a vendor that holds some text of the answer and nothing else.
pub open spec fn says(vendor: Vendor, chunk: JsonView, t: Seq<char>) -> bool {
    match vendor {
        Vendor::Chat => chunk.field("usage"@) is None && (chunk.field("choices"@) matches Some(
            JsonView::Array(choices),
        ) && choices.len() > 0 && (choices[0].field("delta"@) matches Some(delta) && {
            &&& delta.field("content"@) == Some(JsonView::Text(t))
            &&& delta.field("reasoning_content"@) is None
            &&& delta.field("tool_calls"@) is None
        })),
        Vendor::Responses => chunk.field("type"@) == Some(
            JsonView::Text("response.output_text.delta"@),
        ) && chunk.field("delta"@) == Some(JsonView::Text(t)),
        Vendor::Anthropic => chunk.field("type"@) == Some(JsonView::Text("content_block_delta"@))
            && (chunk.field("delta"@) matches Some(delta) && delta.field("type"@) == Some(
            JsonView::Text("text_delta"@),
        ) && delta.field("text"@) == Some(JsonView::Text(t))),
        Vendor::Google => chunk.field("usageMetadata"@) is None && (chunk.field(
            "candidates"@,
        ) matches Some(JsonView::Array(c)) && c.len() > 0 && (c[0].field("content"@) matches Some(
            content,
        ) && (content.field("parts"@) matches Some(JsonView::Array(parts)) && parts.len() == 1 && {
            &&& parts[0].field("text"@) == Some(JsonView::Text(t))
            &&& parts[0].field("thought"@) is None
            &&& parts[0].field("functionCall"@) is None
        }))),
    }
}

/// An event of a vendor that holds some reasoning and nothing else.
pub open spec fn thinks(vendor: Vendor, chunk: JsonView, t: Seq<char>) -> bool {
    match vendor {
        Vendor::Chat => chunk.field("usage"@) is None && (chunk.field("choices"@) matches Some(
            JsonView::Array(choices),
        ) && choices.len() > 0 && (choices[0].field("delta"@) matches Some(delta) && {
            &&& delta.field("content"@) is None
            &&& delta.field("reasoning_content"@) == Some(JsonView::Text(t))
            &&& delta.field("tool_calls"@) is None
        })),
        Vendor::Responses => (chunk.field("type"@) == Some(
            JsonView::Text("response.reasoning_summary_text.delta"@),
        ) || chunk.field("type"@) == Some(JsonView::Text("response.reasoning_text.delta"@)))
            && chunk.field("delta"@) == Some(JsonView::Text(t)),
        Vendor::Anthropic => chunk.field("type"@) == Some(JsonView::Text("content_block_delta"@))
            && (chunk.field("delta"@) matches Some(delta) && delta.field("type"@) == Some(
            JsonView::Text("thinking_delta"@),
        ) && delta.field("thinking"@) == Some(JsonView::Text(t))),
        Vendor::Google => false,
    }
}

/// Text that a vendor sends goes behind the text so far and is reported; all else stays as it
/// is.
pub proof fn law_text_is_appended(vendor: Vendor, g: GatheredView, chunk: JsonView, t: Seq<char>)
    requires
        says(vendor, chunk, t),
        t.len() > 0,
    ensures
        event_of(vendor, g, chunk).content == g.content + t,
        event_of(vendor, g, chunk).events == g.events.push(RemoteEventView::Content(t)),
        event_of(vendor, g, chunk).calls == g.calls,
        event_of(vendor, g, chunk).drafts == g.drafts,
        event_of(vendor, g, chunk).usage == g.usage,
{
    lemma_event_kinds();
    if vendor == Vendor::Google {
        let parts = candidate_parts(chunk)->0;
        assert(parts.drop_last() =~= Seq::empty());
        assert(google_parts(g, parts.drop_last()) == g);
        assert(parts.last() == parts[0]);
    }
}

/// Reasoning that a vendor sends is reported and is no part of the answer.
pub proof fn law_reasoning_is_reported(
    vendor: Vendor,
    g: GatheredView,
    chunk: JsonView,
    t: Seq<char>,
)
    requires
        thinks(vendor, chunk, t),
        t.len() > 0,
    ensures
        event_of(vendor, g, chunk).events == g.events.push(RemoteEventView::Reasoning(t)),
        event_of(vendor, g, chunk).content == g.content,
        event_of(vendor, g, chunk).calls == g.calls,
        event_of(vendor, g, chunk).drafts == g.drafts,
        event_of(vendor, g, chunk).usage == g.usage,
{
    lemma_event_kinds();
}

/// An answer that a vendor sends in pieces is the pieces written one after the other, and holds
/// no call.
pub proof fn law_answer_is_all_pieces(
    vendor: Vendor,
    stream: Seq<Seq<char>>,
    ts: Seq<Seq<char>>,
)
    requires
        stream.len() == ts.len(),
        forall|i: int|
            #![trigger stream[i]]
            0 <= i < stream.len() ==> ts[i].len() > 0 && (json::json_text(stream[i]) matches Some(
                chunk,
            ) && says(vendor, chunk, ts[i])),
    ensures
        ({
            let g = gathered(vendor, nothing(), stream);
            let all = collected(vendor, g, g.drafts);
            &&& all.content == ts.flatten()
            &&& all.calls.len() == 0
            &&& g.drafts.len() == 0
            &&& g.calls.len() == 0
            &&& g.content == ts.flatten()
        }),
    decreases stream.len(),
{
    if stream.len() > 0 {
        let less = stream.drop_last();
        assert forall|i: int|
            #![trigger less[i]]
            0 <= i < less.len() implies ts.drop_last()[i].len() > 0 && (json::json_text(
            less[i],
        ) matches Some(chunk) && says(vendor, chunk, ts.drop_last()[i])) by {
            assert(less[i] == stream[i]);
        }
        law_answer_is_all_pieces(vendor, less, ts.drop_last());
        let last = stream[stream.len() - 1];
        law_text_is_appended(
            vendor,
            gathered(vendor, nothing(), less),
            json::json_text(last)->0,
            ts.last(),
        );
        assert(ts.drop_last().push(ts.last()) =~= ts);
        ts.drop_last().lemma_flatten_push(ts.last());
    } else {
        assert(ts.flatten() =~= Seq::empty());
    }
}

/// A function call that the responses API sends whole becomes a call with its name, its id and
/// the JSON value of its arguments, and is reported; one without an id is numbered.
pub proof fn law_item_becomes_call(
    g: GatheredView,
    chunk: JsonView,
    item: JsonView,
    name: Seq<char>,
    raw: Seq<char>,
)
    requires
        chunk.field("type"@) == Some(JsonView::Text("response.output_item.done"@)),
        chunk.field("item"@) == Some(item),
        item.field("type"@) == Some(JsonView::Text("function_call"@)),
        item.field("name"@) == Some(JsonView::Text(name)),
        name.len() > 0,
        item.field("arguments"@) == Some(JsonView::Text(raw)),
    ensures
        ({
            let next = event_of(Vendor::Responses, g, chunk);
            let call = next.calls.last();
            &&& next.calls == g.calls.push(call)
            &&& next.events == g.events.push(RemoteEventView::ToolCall(call))
            &&& next.content == g.content
            &&& next.drafts == g.drafts
            &&& next.usage == g.usage
            &&& call.name == name
            &&& call.command == name
            &&& forall|id: Seq<char>|
                item.field("call_id"@) == Some(JsonView::Text(id)) && id.len() > 0 ==> call.call_id
                    == id
            &&& forall|id: Seq<char>|
                item.field("call_id"@) is None && item.field("id"@) == Some(JsonView::Text(id))
                    && id.len() > 0 ==> call.call_id == id
            &&& item.field("call_id"@) is None && item.field("id"@) is None ==> call.call_id
                == "call_"@ + text::decimal(g.calls.len())
            &&& json::json_text(raw) is Some ==> Some(call.args) == json::json_text(raw)
            &&& json::json_text(raw) is None ==> call.args == JsonView::Text(raw)
        }),
{
    lemma_event_kinds();
}

/// A function call that Google sends becomes a call with its name, a number for its id and its
/// arguments as they are, and is reported.
pub proof fn law_part_becomes_call(
    g: GatheredView,
    chunk: JsonView,
    candidates: Seq<JsonView>,
    content: JsonView,
    part: JsonView,
    fc: JsonView,
    name: Seq<char>,
    args: JsonView,
)
    requires
        chunk.field("usageMetadata"@) is None,
        chunk.field("candidates"@) == Some(JsonView::Array(candidates)),
        candidates.len() > 0,
        candidates[0].field("content"@) == Some(content),
        content.field("parts"@) == Some(JsonView::Array(seq![part])),
        part.field("text"@) is None,
        part.field("functionCall"@) == Some(fc),
        fc.field("name"@) == Some(JsonView::Text(name)),
        name.len() > 0,
        fc.field("args"@) == Some(args),
    ensures
        ({
            let next = event_of(Vendor::Google, g, chunk);
            let call = next.calls.last();
            &&& next.calls == g.calls.push(call)
            &&& next.events == g.events.push(RemoteEventView::ToolCall(call))
            &&& next.content == g.content
            &&& next.drafts == g.drafts
            &&& next.usage == g.usage
            &&& call.name == name
            &&& call.command == name
            &&& call.call_id == "call_"@ + text::decimal(g.calls.len())
            &&& call.args == args
        }),
{
    let parts = seq![part];
    assert(parts.drop_last() =~= Seq::empty());
    assert(google_parts(g, parts.drop_last()) == g);
    assert(parts.last() == part);
}

/// The parts of an answer of Google count in their order: what some parts and more parts add is
/// what the latter add to what the former add.
pub proof fn law_parts_count_in_order(g: GatheredView, a: Seq<JsonView>, b: Seq<JsonView>)
    ensures
        google_parts(g, a + b) == google_parts(google_parts(g, a), b),
    decreases b.len(),
{
    if b.len() == 0 {
        assert(a + b =~= a);
    } else {
        assert((a + b).drop_last() =~= a + b.drop_last());
        assert((a + b).last() == b.last());
        law_parts_count_in_order(g, a, b.drop_last());
    }
}

/// The usage that a vendor reports at the end is the usage of the answer: the tokens of the
/// prompt, of the answer and of both, each under the vendor's name for it.
pub proof fn law_usage_is_reported(
    g: GatheredView,
    chunk: JsonView,
    u: JsonView,
    resp: JsonView,
    prompt: i64,
    completion: i64,
    total: i64,
)
    ensures
        chunk.field("choices"@) is None && chunk.field("usage"@) == Some(u) && u.field(
            "prompt_tokens"@,
        ) == Some(JsonView::Int(prompt as int)) && u.field("completion_tokens"@) == Some(
            JsonView::Int(completion as int),
        ) && u.field("total_tokens"@) == Some(JsonView::Int(total as int)) ==> event_of(
            Vendor::Chat,
            g,
            chunk,
        ) == (GatheredView { usage: Some(Usage { prompt, completion, total }), ..g }),
        chunk.field("type"@) == Some(JsonView::Text("response.completed"@)) && chunk.field(
            "response"@,
        ) == Some(resp) && resp.field("usage"@) == Some(u) && u.field("input_tokens"@) == Some(
            JsonView::Int(prompt as int),
        ) && u.field("output_tokens"@) == Some(JsonView::Int(completion as int)) && u.field(
            "total_tokens"@,
        ) == Some(JsonView::Int(total as int)) ==> event_of(Vendor::Responses, g, chunk) == (
        GatheredView { usage: Some(Usage { prompt, completion, total }), ..g }),
        chunk.field("candidates"@) is None && chunk.field("usageMetadata"@) == Some(u) && u.field(
            "promptTokenCount"@,
        ) == Some(JsonView::Int(prompt as int)) && u.field("candidatesTokenCount"@) == Some(
            JsonView::Int(completion as int),
        ) && u.field("totalTokenCount"@) == Some(JsonView::Int(total as int)) ==> event_of(
            Vendor::Google,
            g,
            chunk,
        ) == (GatheredView { usage: Some(Usage { prompt, completion, total }), ..g }),
{
    lemma_event_kinds();
}

/// Anthropic reports the tokens of the prompt at the beginning and those of the answer at the
/// end; the usage holds both, and their sum.
pub proof fn law_anthropic_usage_adds_up(
    g: GatheredView,
    start: JsonView,
    message: JsonView,
    began: JsonView,
    end: JsonView,
    ended: JsonView,
    prompt: i64,
    completion: i64,
)
    requires
        start.field("type"@) == Some(JsonView::Text("message_start"@)),
        start.field("message"@) == Some(message),
        message.field("usage"@) == Some(began),
        began.field("input_tokens"@) == Some(JsonView::Int(prompt as int)),
        end.field("type"@) == Some(JsonView::Text("message_delta"@)),
        end.field("usage"@) == Some(ended),
        ended.field("output_tokens"@) == Some(JsonView::Int(completion as int)),
        i64::MIN <= prompt + completion <= i64::MAX,
    ensures
        ({
            let next = event_of(Vendor::Anthropic, event_of(Vendor::Anthropic, g, start), end);
            &&& next == (GatheredView {
                usage: Some(
                    Usage { prompt, completion, total: (prompt + completion) as i64 },
                ),
                ..g
            })
        }),
{
    lemma_event_kinds();
}

/// The figures of an answer are those of its usage, where they are positive.
pub proof fn law_figures_are_of_usage(u: Usage, rate: u64)
    ensures
        u.total > 0 ==> counts(Some(u), rate).tokens == Some(u.total),
        u.total <= 0 ==> counts(Some(u), rate).tokens is None,
        u.prompt > 0 ==> counts(Some(u), rate).context_tokens == Some(u.prompt),
        u.prompt <= 0 ==> counts(Some(u), rate).context_tokens is None,
        u.completion > 0 ==> counts(Some(u), rate).tps == Some(rate),
        u.completion <= 0 ==> counts(Some(u), rate).tps is None,
        counts(None, rate).tokens is None && counts(None, rate).context_tokens is None && counts(
            None,
            rate,
        ).tps is None,
{
}

/// The payloads of a stream come line by line: those of two bodies with a line end between them
/// are those of the one and then those of the other.
pub proof fn law_payloads_come_line_by_line(a: Seq<char>, b: Seq<char>)
    ensures
        payloads(a + seq!['\n'] + b) == payloads(a) + payloads(b),
{
    text::law_parts_of_two(a, b, '\n');
    lemma_payloads_of_two(text::parts(a, '\n'), text::parts(b, '\n'));
}

proof fn lemma_payloads_of_two(a: Seq<Seq<char>>, b: Seq<Seq<char>>)
    ensures
        payloads_of(a + b) == payloads_of(a) + payloads_of(b),
    decreases b.len(),
{
    if b.len() == 0 {
        assert(a + b =~= a);
        assert(payloads_of(a) + payloads_of(b) =~= payloads_of(a));
    } else {
        assert((a + b).drop_last() =~= a + b.drop_last());
        assert((a + b).last() == b.last());
        lemma_payloads_of_two(a, b.drop_last());
        assert(payloads_of(a + b) =~= payloads_of(a) + payloads_of(b));
    }
}

proof fn lemma_untouched(s: Seq<char>)
    requires
        s.len() > 0 ==> !text::white_space(s[0]) && !text::white_space(s.last()),
    ensures
        text::trimmed(s) == s,
{
}

/// The payload of a line is what stands behind `data:` without the white space around it; the
/// mark of the end, an empty payload and a line of another kind give none.
pub proof fn law_line_holds_payload(p: Seq<char>)
    requires
        !p.contains('\n'),
        p.len() > 0,
        !text::white_space(p[0]),
        !text::white_space(p.last()),
    ensures
        p != "[DONE]"@ ==> payloads("data:"@ + seq![' '] + p) == seq![p],
        p != "[DONE]"@ ==> payloads("data:"@ + p) == seq![p],
        p == "[DONE]"@ ==> payloads("data:"@ + seq![' '] + p).len() == 0,
        !text::has_prefix(p, "data:"@) ==> payloads(p).len() == 0,
{
    reveal_strlit("data:");
    let spaced = "data:"@ + seq![' '] + p;
    let close = "data:"@ + p;
    lemma_payload_line(spaced, p);
    lemma_payload_line(close, p);
    lemma_payload_line(p, p);
    assert(spaced.subrange(0, 5) =~= "data:"@);
    assert(close.subrange(0, 5) =~= "data:"@);
    assert(spaced.subrange(5, spaced.len() as int) =~= seq![' '] + p);
    assert(close.subrange(5, close.len() as int) =~= p);
    let wide = seq![' '] + p;
    assert(wide.subrange(1, wide.len() as int) =~= p);
    assert(text::trimmed(wide) == p) by {
        assert(text::white_space(wide[0]));
        assert(text::trimmed_start(p) == p);
        assert(text::trimmed_start(wide) == p);
    }
    lemma_untouched(p);
    assert(payload_of(spaced) == (if p == "[DONE]"@ {
        None
    } else {
        Some(p)
    }));
}

proof fn lemma_payload_line(line: Seq<char>, p: Seq<char>)
    requires
        !p.contains('\n'),
        p.len() > 0,
        !text::white_space(p[0]),
        !text::white_space(p.last()),
        line == p || line == "data:"@ + p || line == "data:"@ + seq![' '] + p,
    ensures
        text::trimmed(line) == line,
        payloads(line) == (match payload_of(line) {
            Some(x) => seq![x],
            None => Seq::empty(),
        }),
{
    reveal_strlit("data:");
    assert(line.last() == p.last());
    assert(!text::white_space(line[0]));
    lemma_untouched(line);
    assert(!line.contains('\n')) by {
        if line.contains('\n') {
            let k = choose|k: int| 0 <= k < line.len() && line[k] == '\n';
            let lead = line.len() - p.len();
            if k >= lead {
                assert(p[k - lead] == '\n');
            }
        }
    }
    text::law_parts_of_two(line, line, '\n');
    let lines = seq![line];
    assert(lines.drop_last() =~= Seq::empty());
    assert(payloads_of(lines.drop_last()) =~= Seq::empty());
    assert(payloads_of(lines) =~= (match payload_of(line) {
        Some(x) => seq![x],
        None => Seq::empty(),
    }));
}

/// A payload that is no JSON adds nothing, and each other payload is one event, in order.
pub proof fn law_payload_is_event(
    vendor: Vendor,
    g: GatheredView,
    stream: Seq<Seq<char>>,
    p: Seq<char>,
)
    ensures
        json::json_text(p) is None ==> gathered(vendor, g, stream.push(p)) == gathered(
            vendor,
            g,
            stream,
        ),
        json::json_text(p) is Some ==> gathered(vendor, g, stream.push(p)) == event_of(
            vendor,
            gathered(vendor, g, stream),
            json::json_text(p)->0,
        ),
        gathered(vendor, g, Seq::empty()) == g,
{
    assert(stream.push(p).drop_last() =~= stream);
}

} // verus!
