//! Conversations in the shapes that the vendors take. A conversation is a list of messages in
//! the shape of the OpenAI chat API; each vendor's own shape is made from it.

use vstd::prelude::*;

use crate::json;
use crate::json::{Json, JsonView};
use crate::text;

verus! {

/// The text of a message; empty where its content is no text.
pub open spec fn content_text(m: JsonView) -> Seq<char> {
    match m.text_field("content"@) {
        Some(t) => t,
        None => ""@,
    }
}

/// The role of a message; empty where it has none.
pub open spec fn role_of(m: JsonView) -> Seq<char> {
    match m.text_field("role"@) {
        Some(t) => t,
        None => ""@,
    }
}

/// The member of an object, or else a default.
pub open spec fn field_or(v: JsonView, key: Seq<char>, default: JsonView) -> JsonView {
    match v.field(key) {
        Some(x) => x,
        None => default,
    }
}

/// The text of a member, or else a default.
pub open spec fn text_or(v: JsonView, key: Seq<char>, default: Seq<char>) -> Seq<char> {
    match v.text_field(key) {
        Some(x) => x,
        None => default,
    }
}

/// An object of one member.
pub open spec fn obj1(k: Seq<char>, v: JsonView) -> JsonView {
    JsonView::Object(Map::empty().insert(k, v))
}

/// An object of two members.
pub open spec fn obj2(k1: Seq<char>, v1: JsonView, k2: Seq<char>, v2: JsonView) -> JsonView {
    JsonView::Object(Map::empty().insert(k1, v1).insert(k2, v2))
}

/// An object of three members.
pub open spec fn obj3(
    k1: Seq<char>,
    v1: JsonView,
    k2: Seq<char>,
    v2: JsonView,
    k3: Seq<char>,
    v3: JsonView,
) -> JsonView {
    JsonView::Object(Map::empty().insert(k1, v1).insert(k2, v2).insert(k3, v3))
}

/// An object of four members.
pub open spec fn obj4(
    k1: Seq<char>,
    v1: JsonView,
    k2: Seq<char>,
    v2: JsonView,
    k3: Seq<char>,
    v3: JsonView,
    k4: Seq<char>,
    v4: JsonView,
) -> JsonView {
    JsonView::Object(Map::empty().insert(k1, v1).insert(k2, v2).insert(k3, v3).insert(k4, v4))
}

/// A JSON string.
pub open spec fn txt(s: Seq<char>) -> JsonView {
    JsonView::Text(s)
}

/// A member, or else a default.
pub fn get_or(v: &Json, key: &str, default: Json) -> (r: Json)
    ensures
        r@ == field_or(v@, key@, default@),
{
    match v.get(key) {
        Some(x) => x.copy(),
        None => default,
    }
}

/// The text of a member, or else a default.
pub fn get_text_or(v: &Json, key: &str, default: &str) -> (r: String)
    ensures
        r@ == text_or(v@, key@, default@),
{
    match v.text_field(key) {
        Some(x) => x.to_string(),
        None => default.to_string(),
    }
}

fn make1(k: &str, v: Json) -> (r: Json)
    ensures
        r@ == obj1(k@, v@),
{
    Json::empty_object().with(k, v)
}

fn make2(k1: &str, v1: Json, k2: &str, v2: Json) -> (r: Json)
    ensures
        r@ == obj2(k1@, v1@, k2@, v2@),
{
    Json::empty_object().with(k1, v1).with(k2, v2)
}

fn make3(k1: &str, v1: Json, k2: &str, v2: Json, k3: &str, v3: Json) -> (r: Json)
    ensures
        r@ == obj3(k1@, v1@, k2@, v2@, k3@, v3@),
{
    Json::empty_object().with(k1, v1).with(k2, v2).with(k3, v3)
}

fn make4(k1: &str, v1: Json, k2: &str, v2: Json, k3: &str, v3: Json, k4: &str, v4: Json) -> (r:
    Json)
    ensures
        r@ == obj4(k1@, v1@, k2@, v2@, k3@, v3@, k4@, v4@),
{
    Json::empty_object().with(k1, v1).with(k2, v2).with(k3, v3).with(k4, v4)
}

/// The text of a message.
pub fn text_of(message: &Json) -> (r: String)
    ensures
        r@ == content_text(message@),
{
    get_text_or(message, "content", "")
}

/// A part of a message: text, or an image in base64.
#[derive(Debug, PartialEq)]
pub enum IrPart {
    Text(String),
    Image { mime: String, data: String },
}

/// The model of a part of a message.
#[verifier::ext_equal]
pub enum IrPartView {
    Text(Seq<char>),
    Image { mime: Seq<char>, data: Seq<char> },
}

impl View for IrPart {
    type V = IrPartView;

    open spec fn view(&self) -> IrPartView {
        match self {
            IrPart::Text(t) => IrPartView::Text(t@),
            IrPart::Image { mime, data } => IrPartView::Image { mime: mime@, data: data@ },
        }
    }
}

/// The type and the payload of a `data:<mime>;base64,<payload>` address; neither may be empty.
pub open spec fn data_uri(url: Seq<char>) -> Option<(Seq<char>, Seq<char>)> {
    match text::after_prefix(url, "data:"@) {
        None => None,
        Some(rest) => match text::first_at(rest, ";base64,"@) {
            None => None,
            Some(i) => {
                let mime = rest.subrange(0, i);
                let payload = rest.subrange(i + ";base64,"@.len(), rest.len() as int);
                if mime.len() == 0 || payload.len() == 0 {
                    None
                } else {
                    Some((mime, payload))
                }
            },
        },
    }
}

/// A data address with the given type and payload.
pub open spec fn as_data_uri(mime: Seq<char>, payload: Seq<char>) -> Seq<char> {
    "data:"@ + mime + ";base64,"@ + payload
}

/// Splits a data address into its type and its payload.
pub fn split_data_uri(url: &str) -> (r: Option<(String, String)>)
    ensures
        match r {
            Some(p) => data_uri(url@) == Some((p.0@, p.1@)),
            None => data_uri(url@) is None,
        },
{
    match text::strip_prefix(url, "data:") {
        None => None,
        Some(rest) => {
            let chars = text::chars_of(rest.as_str());
            let mark = text::chars_of(";base64,");
            match text::find_from(&chars, &mark, 0) {
                None => None,
                Some(i) => {
                    let n: usize = chars.len();
                    let m: usize = mark.len();
                    let mime = text::text_of(&chars, 0, i);
                    let payload = text::text_of(&chars, i + m, n);
                    if i == 0 || i + m == n {
                        None
                    } else {
                        Some((mime, payload))
                    }
                },
            }
        },
    }
}

/// Putting a split data address together again gives the address.
pub proof fn law_data_uri_rejoins(url: Seq<char>)
    requires
        data_uri(url) is Some,
    ensures
        as_data_uri((data_uri(url)->0).0, (data_uri(url)->0).1) == url,
{
    reveal_strlit("data:");
    reveal_strlit(";base64,");
    let rest = url.subrange("data:"@.len() as int, url.len() as int);
    text::lemma_first_from(rest, ";base64,"@, 0);
    let i = text::first_at(rest, ";base64,"@)->0;
    assert(rest.subrange(i, i + ";base64,"@.len()) == ";base64,"@);
    assert(url.subrange(0, "data:"@.len() as int) == "data:"@);
    let mime = rest.subrange(0, i);
    let payload = rest.subrange(i + ";base64,"@.len(), rest.len() as int);
    assert(mime + ";base64,"@ + payload =~= rest);
    assert("data:"@ + rest =~= url);
    assert(as_data_uri(mime, payload) =~= "data:"@ + (mime + ";base64,"@ + payload));
}

/// The part that a block of a message's content stands for.
pub open spec fn block_part(b: JsonView) -> Option<IrPartView> {
    let kind = text_or(b, "type"@, ""@);
    if kind == "text"@ {
        match b.text_field("text"@) {
            Some(t) if t.len() > 0 => Some(IrPartView::Text(t)),
            _ => None,
        }
    } else if kind == "image_url"@ {
        let url = match b.field("image_url"@) {
            Some(i) => text_or(i, "url"@, ""@),
            None => ""@,
        };
        match data_uri(url) {
            Some((mime, data)) => Some(IrPartView::Image { mime, data }),
            None => None,
        }
    } else {
        None
    }
}

/// The parts that the blocks of a message's content stand for.
pub open spec fn block_parts(blocks: Seq<JsonView>) -> Seq<IrPartView>
    decreases blocks.len(),
{
    if blocks.len() == 0 {
        Seq::empty()
    } else {
        let before = block_parts(blocks.drop_last());
        match block_part(blocks.last()) {
            Some(p) => before.push(p),
            None => before,
        }
    }
}

/// The parts of a message.
pub open spec fn parts_of(m: JsonView) -> Seq<IrPartView> {
    match m.field("content"@) {
        Some(JsonView::Text(s)) => if s.len() > 0 {
            seq![IrPartView::Text(s)]
        } else {
            Seq::empty()
        },
        Some(JsonView::Array(blocks)) => block_parts(blocks),
        _ => Seq::empty(),
    }
}

fn part_of(b: &Json) -> (r: Option<IrPart>)
    ensures
        text::opt_view(r) == block_part(b@),
{
    let kind = get_text_or(b, "type", "");
    if text::same(kind.as_str(), "text") {
        match b.text_field("text") {
            Some(t) => if t.unicode_len() > 0 {
                Some(IrPart::Text(t.to_string()))
            } else {
                None
            },
            None => None,
        }
    } else if text::same(kind.as_str(), "image_url") {
        let url = match b.get("image_url") {
            Some(i) => get_text_or(i, "url", ""),
            None => "".to_string(),
        };
        match split_data_uri(url.as_str()) {
            Some((mime, data)) => Some(IrPart::Image { mime, data }),
            None => None,
        }
    } else {
        None
    }
}

/// Splits the content of a message into its parts.
pub fn ir_parts(message: &Json) -> (r: Vec<IrPart>)
    ensures
        text::views(r@) == parts_of(message@),
{
    let mut out: Vec<IrPart> = Vec::new();
    match message.get("content") {
        Some(Json::Text(s)) => {
            if s.as_str().unicode_len() > 0 {
                out.push(IrPart::Text(s.clone()));
            }
            assert(text::views(out@) =~= parts_of(message@));
        },
        Some(Json::Array(blocks)) => {
            let mut i: usize = 0;
            let ghost all = json::items_view(blocks@);
            proof {
                json::lemma_items_view(blocks@);
                assert(all.subrange(0, 0) =~= Seq::empty());
                assert(text::views(out@) =~= Seq::empty());
            }
            while i < blocks.len()
                invariant
                    i <= blocks@.len(),
                    all == json::items_view(blocks@),
                    all.len() == blocks@.len(),
                    forall|k: int| 0 <= k < all.len() ==> all[k] == json::json_view(blocks@[k]),
                    text::views(out@) == block_parts(all.subrange(0, i as int)),
                decreases blocks@.len() - i,
            {
                let ghost next = all.subrange(0, i + 1);
                assert(next.drop_last() =~= all.subrange(0, i as int));
                assert(next.last() == blocks@[i as int]@);
                match part_of(&blocks[i]) {
                    Some(p) => {
                        let ghost before = text::views(out@);
                        out.push(p);
                        assert(text::views(out@) =~= before.push(p@));
                    },
                    None => {},
                }
                i = i + 1;
            }
            assert(all.subrange(0, all.len() as int) =~= all);
        },
        _ => {
            assert(text::views(out@) =~= parts_of(message@));
        },
    }
    out
}

/// The text of the parts of a message, written one after the other.
pub open spec fn joined_text(parts: Seq<IrPartView>) -> Seq<char>
    decreases parts.len(),
{
    if parts.len() == 0 {
        Seq::empty()
    } else {
        joined_text(parts.drop_last()) + match parts.last() {
            IrPartView::Text(t) => t,
            _ => Seq::empty(),
        }
    }
}

/// The vendors' shapes.
#[derive(Debug, Clone, Copy, PartialEq, Eq, Structural)]
pub enum Shape {
    Responses,
    Anthropic,
    Google,
}

/// An image in a vendor's shape.
pub open spec fn image_block(shape: Shape, mime: Seq<char>, data: Seq<char>) -> JsonView {
    match shape {
        Shape::Responses => obj2(
            "type"@,
            txt("input_image"@),
            "image_url"@,
            txt(as_data_uri(mime, data)),
        ),
        Shape::Anthropic => obj2(
            "type"@,
            txt("image"@),
            "source"@,
            obj3("type"@, txt("base64"@), "media_type"@, txt(mime), "data"@, txt(data)),
        ),
        Shape::Google => obj1("inlineData"@, obj2("mimeType"@, txt(mime), "data"@, txt(data))),
    }
}

/// The images of a message in a vendor's shape.
pub open spec fn image_blocks(shape: Shape, parts: Seq<IrPartView>) -> Seq<JsonView>
    decreases parts.len(),
{
    if parts.len() == 0 {
        Seq::empty()
    } else {
        let before = image_blocks(shape, parts.drop_last());
        match parts.last() {
            IrPartView::Image { mime, data } => before.push(image_block(shape, mime, data)),
            _ => before,
        }
    }
}

fn image_json(shape: Shape, mime: &str, data: &str) -> (r: Json)
    ensures
        r@ == image_block(shape, mime@, data@),
{
    match shape {
        Shape::Responses => {
            let url = text::cat4("data:", mime, ";base64,", data);
            make2("type", Json::text("input_image"), "image_url", Json::text(url.as_str()))
        },
        Shape::Anthropic => make2(
            "type",
            Json::text("image"),
            "source",
            make3(
                "type",
                Json::text("base64"),
                "media_type",
                Json::text(mime),
                "data",
                Json::text(data),
            ),
        ),
        Shape::Google => make1(
            "inlineData",
            make2("mimeType", Json::text(mime), "data", Json::text(data)),
        ),
    }
}

/// The text and the images of a message, the images in a vendor's shape.
pub fn text_and_images(shape: Shape, message: &Json) -> (r: (String, Vec<Json>))
    ensures
        r.0@ == joined_text(parts_of(message@)),
        json::items_view(r.1@) == image_blocks(shape, parts_of(message@)),
{
    let parts = ir_parts(message);
    let ghost all = text::views(parts@);
    let mut out = String::new();
    let mut images: Vec<Json> = Vec::new();
    let mut i: usize = 0;
    assert(all.subrange(0, 0) =~= Seq::empty());
    while i < parts.len()
        invariant
            i <= parts@.len(),
            all == text::views(parts@),
            out@ == joined_text(all.subrange(0, i as int)),
            json::items_view(images@) == image_blocks(shape, all.subrange(0, i as int)),
        decreases parts@.len() - i,
    {
        let ghost next = all.subrange(0, i + 1);
        assert(next.drop_last() =~= all.subrange(0, i as int));
        assert(next.last() == parts@[i as int]@);
        match &parts[i] {
            IrPart::Text(t) => {
                out.append(t.as_str());
            },
            IrPart::Image { mime, data } => {
                let ghost before = images@;
                let image = image_json(shape, mime.as_str(), data.as_str());
                images.push(image);
                proof {
                    json::lemma_items_push(before, image);
                }
            },
        }
        assert(out@ =~= joined_text(next));
        i = i + 1;
    }
    assert(all.subrange(0, all.len() as int) =~= all);
    (out, images)
}

/// The arguments that a text writes: its JSON value, or the text itself where it is no JSON.
pub open spec fn args_json(raw: Seq<char>) -> JsonView {
    match json::json_text(raw) {
        Some(v) => v,
        None => txt(raw),
    }
}

/// Reads the arguments of a call.
pub fn args_value(raw: &str) -> (r: Json)
    ensures
        r@ == args_json(raw@),
{
    match json::parse(raw) {
        Some(v) => v,
        None => Json::text(raw),
    }
}

/// The function of a call; empty where it has none.
pub open spec fn function_of(tc: JsonView) -> JsonView {
    field_or(tc, "function"@, JsonView::Object(Map::empty()))
}

/// A call of the assistant in a vendor's shape.
pub open spec fn call_block(shape: Shape, tc: JsonView) -> JsonView {
    let fun = function_of(tc);
    match shape {
        Shape::Responses => obj4(
            "type"@,
            txt("function_call"@),
            "call_id"@,
            field_or(tc, "id"@, txt(""@)),
            "name"@,
            field_or(fun, "name"@, txt(""@)),
            "arguments"@,
            field_or(fun, "arguments"@, txt("{}"@)),
        ),
        Shape::Anthropic => obj4(
            "type"@,
            txt("tool_use"@),
            "id"@,
            field_or(tc, "id"@, txt(""@)),
            "name"@,
            field_or(fun, "name"@, txt(""@)),
            "input"@,
            args_json(text_or(fun, "arguments"@, "{}"@)),
        ),
        Shape::Google => obj1(
            "functionCall"@,
            obj2(
                "name"@,
                txt(text_or(fun, "name"@, ""@)),
                "args"@,
                args_json(text_or(fun, "arguments"@, "{}"@)),
            ),
        ),
    }
}

/// The calls of the assistant in a vendor's shape.
pub open spec fn call_blocks(shape: Shape, calls: Seq<JsonView>) -> Seq<JsonView> {
    Seq::new(calls.len(), |i: int| call_block(shape, calls[i]))
}

/// The calls of a message.
pub open spec fn calls_of(m: JsonView) -> Seq<JsonView> {
    match m.items_field("tool_calls"@) {
        Some(v) => v,
        None => Seq::empty(),
    }
}

fn call_json(shape: Shape, tc: &Json) -> (r: Json)
    ensures
        r@ == call_block(shape, tc@),
{
    let fun = get_or(tc, "function", Json::empty_object());
    match shape {
        Shape::Responses => make4(
            "type",
            Json::text("function_call"),
            "call_id",
            get_or(tc, "id", Json::text("")),
            "name",
            get_or(&fun, "name", Json::text("")),
            "arguments",
            get_or(&fun, "arguments", Json::text("{}")),
        ),
        Shape::Anthropic => {
            let raw = get_text_or(&fun, "arguments", "{}");
            make4(
                "type",
                Json::text("tool_use"),
                "id",
                get_or(tc, "id", Json::text("")),
                "name",
                get_or(&fun, "name", Json::text("")),
                "input",
                args_value(raw.as_str()),
            )
        },
        Shape::Google => {
            let raw = get_text_or(&fun, "arguments", "{}");
            let name = get_text_or(&fun, "name", "");
            make1(
                "functionCall",
                make2("name", Json::text(name.as_str()), "args", args_value(raw.as_str())),
            )
        },
    }
}

/// The text of a message as a block in a vendor's shape.
pub open spec fn text_block(shape: Shape, role: Seq<char>, t: Seq<char>) -> JsonView {
    match shape {
        Shape::Responses => obj2("role"@, txt(role), "content"@, txt(t)),
        Shape::Anthropic => obj2("type"@, txt("text"@), "text"@, txt(t)),
        Shape::Google => obj1("text"@, txt(t)),
    }
}

/// The text of a message as blocks: none where it is empty.
pub open spec fn text_blocks(shape: Shape, role: Seq<char>, t: Seq<char>) -> Seq<JsonView> {
    if t.len() == 0 {
        Seq::empty()
    } else {
        seq![text_block(shape, role, t)]
    }
}

/// The blocks of a message put together as a vendor takes them: one by one, or as one message;
/// no message without blocks.
pub open spec fn as_messages(shape: Shape, role: Seq<char>, blocks: Seq<JsonView>) -> Seq<JsonView> {
    match shape {
        Shape::Responses => blocks,
        Shape::Anthropic => if blocks.len() == 0 {
            Seq::empty()
        } else {
            seq![obj2("role"@, txt(role), "content"@, JsonView::Array(blocks))]
        },
        Shape::Google => if blocks.len() == 0 {
            Seq::empty()
        } else {
            seq![obj2("role"@, txt(role), "parts"@, JsonView::Array(blocks))]
        },
    }
}

/// The name under which a vendor knows the assistant.
pub open spec fn assistant_role(shape: Shape) -> Seq<char> {
    match shape {
        Shape::Google => "model"@,
        _ => "assistant"@,
    }
}

/// What a tool answered in a vendor's shape. Google names the function, not the call.
pub open spec fn tool_message(shape: Shape, m: JsonView, names: JsonView) -> JsonView {
    match shape {
        Shape::Responses => obj3(
            "type"@,
            txt("function_call_output"@),
            "call_id"@,
            field_or(m, "tool_call_id"@, txt(""@)),
            "output"@,
            txt(content_text(m)),
        ),
        Shape::Anthropic => obj2(
            "role"@,
            txt("user"@),
            "content"@,
            JsonView::Array(
                seq![
                    obj3(
                        "type"@,
                        txt("tool_result"@),
                        "tool_use_id"@,
                        field_or(m, "tool_call_id"@, txt(""@)),
                        "content"@,
                        txt(content_text(m)),
                    ),
                ],
            ),
        ),
        Shape::Google => obj2(
            "role"@,
            txt("user"@),
            "parts"@,
            JsonView::Array(
                seq![
                    obj1(
                        "functionResponse"@,
                        obj2(
                            "name"@,
                            txt(text_or(names, text_or(m, "tool_call_id"@, ""@), ""@)),
                            "response"@,
                            obj1("result"@, txt(content_text(m))),
                        ),
                    ),
                ],
            ),
        ),
    }
}

/// What a message becomes in a vendor's shape; system messages are kept apart.
pub open spec fn message_items(shape: Shape, m: JsonView, names: JsonView) -> Seq<JsonView> {
    let role = role_of(m);
    if role == "system"@ {
        Seq::empty()
    } else if role == "assistant"@ {
        as_messages(
            shape,
            assistant_role(shape),
            text_blocks(shape, "assistant"@, content_text(m)) + call_blocks(shape, calls_of(m)),
        )
    } else if role == "tool"@ {
        seq![tool_message(shape, m, names)]
    } else {
        as_messages(
            shape,
            "user"@,
            text_blocks(shape, role, joined_text(parts_of(m))) + image_blocks(shape, parts_of(m)),
        )
    }
}

/// The names of the called functions by the ids of the calls, after some calls.
pub open spec fn named_calls(names: JsonView, calls: Seq<JsonView>) -> JsonView
    decreases calls.len(),
{
    if calls.len() == 0 {
        names
    } else {
        let before = named_calls(names, calls.drop_last());
        match calls.last().text_field("id"@) {
            Some(id) => JsonView::Object(
                json::members(before).insert(
                    id,
                    txt(text_or(function_of(calls.last()), "name"@, ""@)),
                ),
            ),
            None => before,
        }
    }
}

/// The names of the called functions by the ids of the calls, after some messages.
pub open spec fn names_after(ms: Seq<JsonView>) -> JsonView
    decreases ms.len(),
{
    if ms.len() == 0 {
        JsonView::Object(Map::empty())
    } else {
        let before = names_after(ms.drop_last());
        if role_of(ms.last()) == "assistant"@ {
            named_calls(before, calls_of(ms.last()))
        } else {
            before
        }
    }
}

/// A conversation in a vendor's shape.
pub open spec fn translated(shape: Shape, ms: Seq<JsonView>) -> Seq<JsonView>
    decreases ms.len(),
{
    if ms.len() == 0 {
        Seq::empty()
    } else {
        translated(shape, ms.drop_last()) + message_items(
            shape,
            ms.last(),
            names_after(ms.drop_last()),
        )
    }
}

/// The texts of the system messages.
pub open spec fn system_texts(ms: Seq<JsonView>) -> Seq<Seq<char>>
    decreases ms.len(),
{
    if ms.len() == 0 {
        Seq::empty()
    } else {
        let before = system_texts(ms.drop_last());
        if role_of(ms.last()) == "system"@ {
            before.push(content_text(ms.last()))
        } else {
            before
        }
    }
}

/// The instructions that the system messages make; none without system messages.
pub open spec fn instructions(ms: Seq<JsonView>) -> Option<Seq<char>> {
    if system_texts(ms).len() == 0 {
        None
    } else {
        Some(text::joined(system_texts(ms), "\n\n"@))
    }
}

fn role_text(m: &Json) -> (r: String)
    ensures
        r@ == role_of(m@),
{
    get_text_or(m, "role", "")
}

fn text_json(shape: Shape, role: &str, t: &str) -> (r: Json)
    ensures
        r@ == text_block(shape, role@, t@),
{
    match shape {
        Shape::Responses => make2("role", Json::text(role), "content", Json::text(t)),
        Shape::Anthropic => make2("type", Json::text("text"), "text", Json::text(t)),
        Shape::Google => make1("text", Json::text(t)),
    }
}

fn put_together(shape: Shape, role: &str, blocks: Vec<Json>) -> (r: Vec<Json>)
    ensures
        json::items_view(r@) == as_messages(shape, role@, json::items_view(blocks@)),
{
    broadcast use {json::lemma_items_view, json::lemma_items_push};

    if let Shape::Responses = shape {
        return blocks;
    }
    let mut out: Vec<Json> = Vec::new();
    if blocks.len() > 0 {
        let content = Json::Array(blocks);
        let message = match shape {
            Shape::Google => make2("role", Json::text(role), "parts", content),
            _ => make2("role", Json::text(role), "content", content),
        };
        out.push(message);
    }
    assert(json::items_view(out@) =~= as_messages(shape, role@, json::items_view(blocks@)));
    out
}

fn tool_json(shape: Shape, m: &Json, names: &Json) -> (r: Json)
    ensures
        r@ == tool_message(shape, m@, names@),
{
    broadcast use {json::lemma_items_view, json::lemma_items_push};

    let said = text_of(m);
    match shape {
        Shape::Responses => make3(
            "type",
            Json::text("function_call_output"),
            "call_id",
            get_or(m, "tool_call_id", Json::text("")),
            "output",
            Json::text(said.as_str()),
        ),
        Shape::Anthropic => {
            let block = make3(
                "type",
                Json::text("tool_result"),
                "tool_use_id",
                get_or(m, "tool_call_id", Json::text("")),
                "content",
                Json::text(said.as_str()),
            );
            let mut blocks: Vec<Json> = Vec::new();
            blocks.push(block);
            assert(json::items_view(blocks@) =~= seq![block@]);
            make2("role", Json::text("user"), "content", Json::Array(blocks))
        },
        Shape::Google => {
            let id = get_text_or(m, "tool_call_id", "");
            let name = get_text_or(names, id.as_str(), "");
            let block = make1(
                "functionResponse",
                make2(
                    "name",
                    Json::text(name.as_str()),
                    "response",
                    make1("result", Json::text(said.as_str())),
                ),
            );
            let mut blocks: Vec<Json> = Vec::new();
            blocks.push(block);
            assert(json::items_view(blocks@) =~= seq![block@]);
            make2("role", Json::text("user"), "parts", Json::Array(blocks))
        },
    }
}

fn assistant_blocks(shape: Shape, m: &Json) -> (r: Vec<Json>)
    ensures
        json::items_view(r@) == text_blocks(shape, "assistant"@, content_text(m@)) + call_blocks(
            shape,
            calls_of(m@),
        ),
{
    broadcast use {json::lemma_items_view, json::lemma_items_push};

    let mut out: Vec<Json> = Vec::new();
    let said = text_of(m);
    if said.as_str().unicode_len() > 0 {
        out.push(text_json(shape, "assistant", said.as_str()));
    }
    let ghost first = text_blocks(shape, "assistant"@, content_text(m@));
    assert(json::items_view(out@) =~= first);
    match m.items_field("tool_calls") {
        Some(calls) => {
            let ghost all = json::items_view(calls@);
            let mut i: usize = 0;
            assert(json::items_view(out@) =~= first + call_blocks(shape, all.subrange(0, 0)));
            while i < calls.len()
                invariant
                    i <= calls@.len(),
                    all == json::items_view(calls@),
                    all.len() == calls@.len(),
                    forall|k: int| 0 <= k < all.len() ==> all[k] == json::json_view(calls@[k]),
                    json::items_view(out@) == first + call_blocks(shape, all.subrange(0, i as int)),
                decreases calls@.len() - i,
            {
                let ghost before = out@;
                let block = call_json(shape, &calls[i]);
                out.push(block);
                proof {
                    json::lemma_items_push(before, block);
                    assert(json::items_view(out@) =~= first + call_blocks(
                        shape,
                        all.subrange(0, i + 1),
                    ));
                }
                i = i + 1;
            }
            assert(all.subrange(0, all.len() as int) =~= all);
        },
        None => {
            assert(json::items_view(out@) =~= first + call_blocks(shape, Seq::empty()));
        },
    }
    out
}

fn name_calls(names: Json, m: &Json) -> (r: Json)
    ensures
        r@ == named_calls(names@, calls_of(m@)),
{
    let ghost start = names@;
    let mut names = names;
    match m.items_field("tool_calls") {
        Some(calls) => {
            let ghost all = json::items_view(calls@);
            let mut i: usize = 0;
            proof {
                json::lemma_items_view(calls@);
                assert(all.subrange(0, 0) =~= Seq::empty());
            }
            while i < calls.len()
                invariant
                    i <= calls@.len(),
                    all == json::items_view(calls@),
                    all.len() == calls@.len(),
                    forall|k: int| 0 <= k < all.len() ==> all[k] == json::json_view(calls@[k]),
                    names@ == named_calls(start, all.subrange(0, i as int)),
                decreases calls@.len() - i,
            {
                let ghost next = all.subrange(0, i + 1);
                assert(next.drop_last() =~= all.subrange(0, i as int));
                assert(next.last() == calls@[i as int]@);
                let fun = get_or(&calls[i], "function", Json::empty_object());
                let name = get_text_or(&fun, "name", "");
                match calls[i].text_field("id") {
                    Some(id) => {
                        names = names.with(id, Json::text(name.as_str()));
                    },
                    None => {},
                }
                i = i + 1;
            }
            assert(all.subrange(0, all.len() as int) =~= all);
        },
        None => {},
    }
    names
}

fn items_for(shape: Shape, m: &Json, names: &Json) -> (r: Vec<Json>)
    ensures
        json::items_view(r@) == message_items(shape, m@, names@),
{
    broadcast use {json::lemma_items_view, json::lemma_items_push};

    let role = role_text(m);
    if text::same(role.as_str(), "system") {
        let out: Vec<Json> = Vec::new();
        assert(json::items_view(out@) =~= Seq::empty());
        out
    } else if text::same(role.as_str(), "assistant") {
        let blocks = assistant_blocks(shape, m);
        let name = match shape {
            Shape::Google => "model",
            _ => "assistant",
        };
        put_together(shape, name, blocks)
    } else if text::same(role.as_str(), "tool") {
        let mut out: Vec<Json> = Vec::new();
        out.push(tool_json(shape, m, names));
        assert(json::items_view(out@) =~= seq![tool_message(shape, m@, names@)]);
        out
    } else {
        let (t, images) = text_and_images(shape, m);
        let ghost shown = json::items_view(images@);
        let mut images = images;
        let mut blocks: Vec<Json> = Vec::new();
        if t.as_str().unicode_len() > 0 {
            blocks.push(text_json(shape, role.as_str(), t.as_str()));
        }
        let ghost first = blocks@;
        assert(json::items_view(first) =~= text_blocks(shape, role@, t@));
        let ghost second = images@;
        blocks.append(&mut images);
        proof {
            json::lemma_items_concat(first, second);
        }
        put_together(shape, "user", blocks)
    }
}

/// Puts a conversation into a vendor's shape: the instructions of its system messages, and what
/// the other messages become.
pub fn translate(shape: Shape, messages: &Vec<Json>) -> (r: (Option<String>, Vec<Json>))
    ensures
        text::opt_view(r.0) == instructions(json::items_view(messages@)),
        json::items_view(r.1@) == translated(shape, json::items_view(messages@)),
{
    broadcast use {json::lemma_items_view, json::lemma_items_push};

    let ghost all = json::items_view(messages@);
    let mut system: Vec<String> = Vec::new();
    let mut out: Vec<Json> = Vec::new();
    let mut names = Json::empty_object();
    let mut i: usize = 0;
    assert(all.subrange(0, 0) =~= Seq::empty());
    assert(text::views(system@) =~= Seq::empty());
    assert(json::items_view(out@) =~= Seq::empty());
    while i < messages.len()
        invariant
            i <= messages@.len(),
            all == json::items_view(messages@),
            all.len() == messages@.len(),
            forall|k: int| 0 <= k < all.len() ==> all[k] == json::json_view(messages@[k]),
            text::views(system@) == system_texts(all.subrange(0, i as int)),
            names@ == names_after(all.subrange(0, i as int)),
            json::items_view(out@) == translated(shape, all.subrange(0, i as int)),
        decreases messages@.len() - i,
    {
        let ghost done = all.subrange(0, i as int);
        let ghost next = all.subrange(0, i + 1);
        assert(next.drop_last() =~= done);
        assert(next.last() == messages@[i as int]@);
        let m = &messages[i];
        let role = role_text(m);
        let mut items = items_for(shape, m, &names);
        let ghost before = out@;
        let ghost more = items@;
        out.append(&mut items);
        proof {
            json::lemma_items_concat(before, more);
        }
        if text::same(role.as_str(), "system") {
            let ghost was = text::views(system@);
            let said = text_of(m);
            let ghost v = said@;
            system.push(said);
            assert(text::views(system@) =~= was.push(v));
        }
        if text::same(role.as_str(), "assistant") {
            names = name_calls(names, m);
        }
        i = i + 1;
    }
    assert(all.subrange(0, all.len() as int) =~= all);
    let instr = if system.len() == 0 {
        None
    } else {
        Some(text::join(&system, "\n\n"))
    };
    (instr, out)
}

/// The instructions and the input of the OpenAI responses API.
pub fn responses_input(messages: &Vec<Json>) -> (r: (Option<String>, Vec<Json>))
    ensures
        text::opt_view(r.0) == instructions(json::items_view(messages@)),
        json::items_view(r.1@) == translated(Shape::Responses, json::items_view(messages@)),
{
    translate(Shape::Responses, messages)
}

/// The system text and the messages of the Anthropic messages API.
pub fn anthropic_messages(messages: &Vec<Json>) -> (r: (Option<String>, Vec<Json>))
    ensures
        text::opt_view(r.0) == instructions(json::items_view(messages@)),
        json::items_view(r.1@) == translated(Shape::Anthropic, json::items_view(messages@)),
{
    translate(Shape::Anthropic, messages)
}

/// A system text in Google's shape.
pub open spec fn google_system(t: Seq<char>) -> JsonView {
    obj1("parts"@, JsonView::Array(seq![obj1("text"@, txt(t))]))
}

/// The system instruction and the contents of the Google generative language API.
pub fn google_contents(messages: &Vec<Json>) -> (r: (Option<Json>, Vec<Json>))
    ensures
        text::opt_view(r.0) == match instructions(json::items_view(messages@)) {
            Some(t) => Some(google_system(t)),
            None => None,
        },
        json::items_view(r.1@) == translated(Shape::Google, json::items_view(messages@)),
{
    broadcast use {json::lemma_items_view, json::lemma_items_push};

    let (instr, out) = translate(Shape::Google, messages);
    let system = match instr {
        None => None,
        Some(t) => {
            let mut parts: Vec<Json> = Vec::new();
            let part = make1("text", Json::text(t.as_str()));
            parts.push(part);
            assert(json::items_view(parts@) =~= seq![part@]);
            Some(make1("parts", Json::Array(parts)))
        },
    };
    (system, out)
}

proof fn lemma_keys()
    ensures
        "type"@ != "call_id"@,
        "type"@ != "output"@,
        "call_id"@ != "output"@,
        "role"@ != "content"@,
        "role"@ != "parts"@,
        "type"@ != "tool_use_id"@,
        "type"@ != "content"@,
        "tool_use_id"@ != "content"@,
        "name"@ != "response"@,
        "type"@ != "name"@,
        "type"@ != "arguments"@,
        "call_id"@ != "name"@,
        "call_id"@ != "arguments"@,
        "name"@ != "arguments"@,
        "type"@ != "id"@,
        "type"@ != "input"@,
        "id"@ != "name"@,
        "id"@ != "input"@,
        "name"@ != "input"@,
        "name"@ != "args"@,
        "type"@ != "text"@,
        "type"@ != "image_url"@,
        "type"@ != "source"@,
        "type"@ != "media_type"@,
        "type"@ != "data"@,
        "media_type"@ != "data"@,
        "mimeType"@ != "data"@,
        "system"@ != "assistant"@,
        "system"@ != "tool"@,
        "system"@ != "user"@,
        "assistant"@ != "tool"@,
        "assistant"@ != "user"@,
        "tool"@ != "user"@,
        "image_url"@ != "text"@,
{
    reveal_strlit("type");
    reveal_strlit("call_id");
    reveal_strlit("output");
    reveal_strlit("role");
    reveal_strlit("content");
    reveal_strlit("parts");
    reveal_strlit("tool_use_id");
    reveal_strlit("name");
    reveal_strlit("response");
    reveal_strlit("arguments");
    reveal_strlit("id");
    reveal_strlit("input");
    reveal_strlit("args");
    reveal_strlit("text");
    reveal_strlit("image_url");
    reveal_strlit("source");
    reveal_strlit("media_type");
    reveal_strlit("data");
    reveal_strlit("mimeType");
    reveal_strlit("system");
    reveal_strlit("assistant");
    reveal_strlit("tool");
    reveal_strlit("user");
    assert("type"@[0] != "name"@[0]);
    assert("name"@[0] != "args"@[0]);
    assert("type"@[1] != "text"@[1]);
    assert("type"@[0] != "data"@[0]);
    assert("tool"@[0] != "user"@[0]);
    assert("type"@.len() == 4);
    assert("call_id"@.len() == 7);
    assert("output"@.len() == 6);
    assert("role"@.len() == 4);
    assert("content"@.len() == 7);
    assert("parts"@.len() == 5);
    assert("tool_use_id"@.len() == 11);
    assert("name"@.len() == 4);
    assert("response"@.len() == 8);
    assert("arguments"@.len() == 9);
    assert("id"@.len() == 2);
    assert("input"@.len() == 5);
    assert("args"@.len() == 4);
    assert("text"@.len() == 4);
    assert("image_url"@.len() == 9);
    assert("source"@.len() == 6);
    assert("media_type"@.len() == 10);
    assert("data"@.len() == 4);
    assert("mimeType"@.len() == 8);
    assert("system"@.len() == 6);
    assert("assistant"@.len() == 9);
    assert("tool"@.len() == 4);
    assert("user"@.len() == 4);
}

/// What a tool answered reaches every vendor unchanged: the last item of the conversation bears
/// the text of the message and the id of the call that it answers, and what came before is
/// as it was.
pub proof fn law_tool_result_is_carried(
    ms: Seq<JsonView>,
    m: JsonView,
    id: Seq<char>,
    said: Seq<char>,
)
    requires
        m.field("role"@) == Some(JsonView::Text("tool"@)),
        m.field("tool_call_id"@) == Some(JsonView::Text(id)),
        m.field("content"@) == Some(JsonView::Text(said)),
    ensures
        forall|shape: Shape|
            #![trigger translated(shape, ms.push(m))]
            translated(shape, ms.push(m)).len() == translated(shape, ms).len() + 1
                && translated(shape, ms.push(m)).drop_last() == translated(shape, ms),
        ({
            let item = translated(Shape::Responses, ms.push(m)).last();
            &&& item.field("type"@) == Some(JsonView::Text("function_call_output"@))
            &&& item.field("call_id"@) == Some(JsonView::Text(id))
            &&& item.field("output"@) == Some(JsonView::Text(said))
        }),
        ({
            let item = translated(Shape::Anthropic, ms.push(m)).last();
            &&& item.field("role"@) == Some(JsonView::Text("user"@))
            &&& item.items_field("content"@) matches Some(blocks) && {
                &&& blocks.len() == 1
                &&& blocks[0].field("type"@) == Some(JsonView::Text("tool_result"@))
                &&& blocks[0].field("tool_use_id"@) == Some(JsonView::Text(id))
                &&& blocks[0].field("content"@) == Some(JsonView::Text(said))
            }
        }),
        ({
            let item = translated(Shape::Google, ms.push(m)).last();
            &&& item.field("role"@) == Some(JsonView::Text("user"@))
            &&& item.items_field("parts"@) matches Some(parts) && {
                &&& parts.len() == 1
                &&& parts[0].field("functionResponse"@) matches Some(f) && {
                    &&& f.field("response"@) matches Some(r) && r.field("result"@) == Some(
                        JsonView::Text(said),
                    )
                }
            }
        }),
{
    lemma_keys();
    assert(ms.push(m).drop_last() =~= ms);
    assert(role_of(m) == "tool"@);
    assert forall|shape: Shape|
        #![trigger translated(shape, ms.push(m))]
        translated(shape, ms.push(m)).len() == translated(shape, ms).len() + 1 && translated(
            shape,
            ms.push(m),
        ).drop_last() == translated(shape, ms) by {
        assert(translated(shape, ms.push(m)).drop_last() =~= translated(shape, ms));
    }
}

/// Two answers of a tool that differ are told apart by every vendor.
pub proof fn law_tool_results_are_told_apart(
    shape: Shape,
    ms: Seq<JsonView>,
    a: JsonView,
    b: JsonView,
)
    requires
        a.field("role"@) == Some(JsonView::Text("tool"@)),
        b.field("role"@) == Some(JsonView::Text("tool"@)),
        a.field("tool_call_id"@) is Some && a.field("tool_call_id"@)->0 is Text,
        b.field("tool_call_id"@) == a.field("tool_call_id"@),
        a.field("content"@) is Some && a.field("content"@)->0 is Text,
        b.field("content"@) is Some && b.field("content"@)->0 is Text,
        a.field("content"@) != b.field("content"@),
    ensures
        translated(shape, ms.push(a)) != translated(shape, ms.push(b)),
{
    let id = a.field("tool_call_id"@)->0->Text_0;
    law_tool_result_is_carried(ms, a, id, a.field("content"@)->0->Text_0);
    law_tool_result_is_carried(ms, b, id, b.field("content"@)->0->Text_0);
}

proof fn lemma_named_call(names: JsonView, calls: Seq<JsonView>, k: int, id: Seq<char>)
    requires
        0 <= k < calls.len(),
        calls[k].field("id"@) == Some(JsonView::Text(id)),
        forall|j: int|
            k < j < calls.len() ==> #[trigger] calls[j].field("id"@) != Some(JsonView::Text(id)),
    ensures
        named_calls(names, calls).field(id) == Some(
            txt(text_or(function_of(calls[k]), "name"@, ""@)),
        ),
    decreases calls.len(),
{
    if k < calls.len() - 1 {
        let before = calls.drop_last();
        assert(forall|j: int| 0 <= j < before.len() ==> before[j] == calls[j]);
        lemma_named_call(names, before, k, id);
        assert(calls[calls.len() - 1].field("id"@) != Some(JsonView::Text(id)));
    }
}

proof fn lemma_names_stay(ms: Seq<JsonView>, more: Seq<JsonView>)
    requires
        forall|j: int| 0 <= j < more.len() ==> role_of(#[trigger] more[j]) != "assistant"@,
    ensures
        names_after(ms + more) == names_after(ms),
    decreases more.len(),
{
    if more.len() > 0 {
        assert((ms + more).drop_last() =~= ms + more.drop_last());
        assert((ms + more).last() == more[more.len() - 1]);
        lemma_names_stay(ms, more.drop_last());
    } else {
        assert(ms + more =~= ms);
    }
}

/// Google, which knows no ids, is told the name of the function whose call a tool answers: the
/// name that stood in the call with that id.
pub proof fn law_tool_result_names_function(
    ms: Seq<JsonView>,
    a: JsonView,
    calls: Seq<JsonView>,
    k: int,
    between: Seq<JsonView>,
    m: JsonView,
    id: Seq<char>,
    f: JsonView,
    name: Seq<char>,
)
    requires
        a.field("role"@) == Some(JsonView::Text("assistant"@)),
        a.field("tool_calls"@) == Some(JsonView::Array(calls)),
        0 <= k < calls.len(),
        calls[k].field("id"@) == Some(JsonView::Text(id)),
        calls[k].field("function"@) == Some(f),
        f.field("name"@) == Some(JsonView::Text(name)),
        forall|j: int|
            k < j < calls.len() ==> #[trigger] calls[j].field("id"@) != Some(JsonView::Text(id)),
        forall|j: int|
            0 <= j < between.len() ==> (#[trigger] between[j]).field("role"@) != Some(
                JsonView::Text("assistant"@),
            ),
        m.field("role"@) == Some(JsonView::Text("tool"@)),
        m.field("tool_call_id"@) == Some(JsonView::Text(id)),
    ensures
        ({
            let item = translated(Shape::Google, (ms.push(a) + between).push(m)).last();
            item.items_field("parts"@) matches Some(parts) && parts.len() == 1 && (
            parts[0].field("functionResponse"@) matches Some(r) && r.field("name"@) == Some(
                JsonView::Text(name),
            ))
        }),
{
    lemma_keys();
    reveal_strlit("");
    reveal_strlit("assistant");
    let said = ms.push(a);
    assert(said.drop_last() =~= ms);
    lemma_named_call(names_after(ms), calls, k, id);
    assert forall|j: int| 0 <= j < between.len() implies role_of(#[trigger] between[j])
        != "assistant"@ by {
        assert(between[j].field("role"@) != Some(JsonView::Text("assistant"@)));
        assert(""@.len() != "assistant"@.len());
    }
    lemma_names_stay(said, between);
    let all = said + between;
    assert(all.push(m).drop_last() =~= all);
    assert(translated(Shape::Google, all.push(m)).last() == tool_message(
        Shape::Google,
        m,
        names_after(all),
    ));
}

/// What the assistant said and each call that it made reach every vendor, in order: the id, the
/// name and the arguments of the i-th call stand in the i-th block of a call. Where the vendor
/// takes the arguments as a value they are the JSON value of the arguments' text.
pub proof fn law_calls_are_carried(
    ms: Seq<JsonView>,
    a: JsonView,
    said: Seq<char>,
    calls: Seq<JsonView>,
    funs: Seq<JsonView>,
    ids: Seq<Seq<char>>,
    names: Seq<Seq<char>>,
    raws: Seq<Seq<char>>,
)
    requires
        a.field("role"@) == Some(JsonView::Text("assistant"@)),
        a.field("content"@) == Some(JsonView::Text(said)),
        a.field("tool_calls"@) == Some(JsonView::Array(calls)),
        calls.len() > 0,
        funs.len() == calls.len(),
        ids.len() == calls.len(),
        names.len() == calls.len(),
        raws.len() == calls.len(),
        forall|i: int|
            #![trigger calls[i]]
            0 <= i < calls.len() ==> calls[i].field("id"@) == Some(JsonView::Text(ids[i]))
                && calls[i].field("function"@) == Some(funs[i]) && funs[i].field("name"@) == Some(
                JsonView::Text(names[i]),
            ) && funs[i].field("arguments"@) == Some(JsonView::Text(raws[i])),
    ensures
        ({
            let told: int = if said.len() > 0 {
                1
            } else {
                0
            };
            let n = translated(Shape::Responses, ms).len();
            let out = translated(Shape::Responses, ms.push(a));
            &&& out.len() == n + told + calls.len()
            &&& out.subrange(0, n as int) == translated(Shape::Responses, ms)
            &&& told == 1 ==> out[n as int].field("role"@) == Some(JsonView::Text("assistant"@))
                && out[n as int].field("content"@) == Some(JsonView::Text(said))
            &&& forall|i: int|
                #![trigger ids[i]]
                0 <= i < calls.len() ==> {
                    let block = out[n + told + i];
                    &&& block.field("type"@) == Some(JsonView::Text("function_call"@))
                    &&& block.field("call_id"@) == Some(JsonView::Text(ids[i]))
                    &&& block.field("name"@) == Some(JsonView::Text(names[i]))
                    &&& block.field("arguments"@) == Some(JsonView::Text(raws[i]))
                }
        }),
        ({
            let told: int = if said.len() > 0 {
                1
            } else {
                0
            };
            let out = translated(Shape::Anthropic, ms.push(a));
            &&& out.drop_last() == translated(Shape::Anthropic, ms)
            &&& out.last().field("role"@) == Some(JsonView::Text("assistant"@))
            &&& out.last().items_field("content"@) matches Some(blocks) && {
                &&& blocks.len() == told + calls.len()
                &&& told == 1 ==> blocks[0].field("type"@) == Some(JsonView::Text("text"@))
                    && blocks[0].field("text"@) == Some(JsonView::Text(said))
                &&& forall|i: int|
                    #![trigger ids[i]]
                    0 <= i < calls.len() ==> {
                        let block = blocks[told + i];
                        &&& block.field("type"@) == Some(JsonView::Text("tool_use"@))
                        &&& block.field("id"@) == Some(JsonView::Text(ids[i]))
                        &&& block.field("name"@) == Some(JsonView::Text(names[i]))
                        &&& json::json_text(raws[i]) is Some ==> block.field("input"@)
                            == json::json_text(raws[i])
                        &&& json::json_text(raws[i]) is None ==> block.field("input"@) == Some(
                            JsonView::Text(raws[i]),
                        )
                    }
            }
        }),
        ({
            let told: int = if said.len() > 0 {
                1
            } else {
                0
            };
            let out = translated(Shape::Google, ms.push(a));
            &&& out.drop_last() == translated(Shape::Google, ms)
            &&& out.last().field("role"@) == Some(JsonView::Text("model"@))
            &&& out.last().items_field("parts"@) matches Some(blocks) && {
                &&& blocks.len() == told + calls.len()
                &&& told == 1 ==> blocks[0].field("text"@) == Some(JsonView::Text(said))
                &&& forall|i: int|
                    #![trigger ids[i]]
                    0 <= i < calls.len() ==> (blocks[told + i].field("functionCall"@) matches Some(
                        call,
                    ) && {
                        &&& call.field("name"@) == Some(JsonView::Text(names[i]))
                        &&& json::json_text(raws[i]) is Some ==> call.field("args"@)
                            == json::json_text(raws[i])
                        &&& json::json_text(raws[i]) is None ==> call.field("args"@) == Some(
                            JsonView::Text(raws[i]),
                        )
                    })
            }
        }),
{
    lemma_keys();
    assert(ms.push(a).drop_last() =~= ms);
    assert(role_of(a) == "assistant"@);
    assert(calls_of(a) == calls);
    let told: int = if said.len() > 0 {
        1
    } else {
        0
    };
    assert forall|i: int|
        #![trigger ids[i]]
        0 <= i < calls.len() implies function_of(calls[i]) == funs[i] by {
        assert(calls[i] == calls[i]);
    }
    let r = translated(Shape::Responses, ms);
    let rs = text_blocks(Shape::Responses, "assistant"@, said) + call_blocks(
        Shape::Responses,
        calls,
    );
    assert(translated(Shape::Responses, ms.push(a)) =~= r + rs);
    assert((r + rs).subrange(0, r.len() as int) =~= r);
    assert forall|i: int| #![trigger ids[i]] 0 <= i < calls.len() implies (r + rs)[r.len() + told
        + i] == call_block(Shape::Responses, calls[i]) by {
        assert(rs[told + i] == call_block(Shape::Responses, calls[i]));
    }
    if told == 1 {
        assert((r + rs)[r.len() as int] == rs[0]);
    }
    let an = text_blocks(Shape::Anthropic, "assistant"@, said) + call_blocks(
        Shape::Anthropic,
        calls,
    );
    assert forall|i: int| #![trigger ids[i]] 0 <= i < calls.len() implies an[told + i]
        == call_block(Shape::Anthropic, calls[i]) by {}
    assert(translated(Shape::Anthropic, ms.push(a)).drop_last() =~= translated(
        Shape::Anthropic,
        ms,
    ));
    let go = text_blocks(Shape::Google, "assistant"@, said) + call_blocks(Shape::Google, calls);
    assert forall|i: int| #![trigger ids[i]] 0 <= i < calls.len() implies go[told + i]
        == call_block(Shape::Google, calls[i]) by {}
    assert(translated(Shape::Google, ms.push(a)).drop_last() =~= translated(Shape::Google, ms));
}

/// What the user wrote reaches every vendor as one text, and nothing else does.
pub proof fn law_user_text_is_carried(ms: Seq<JsonView>, m: JsonView, said: Seq<char>)
    requires
        m.field("role"@) == Some(JsonView::Text("user"@)),
        m.field("content"@) == Some(JsonView::Text(said)),
        said.len() > 0,
    ensures
        forall|shape: Shape|
            #![trigger translated(shape, ms.push(m))]
            translated(shape, ms.push(m)).len() == translated(shape, ms).len() + 1
                && translated(shape, ms.push(m)).drop_last() == translated(shape, ms)
                && translated(shape, ms.push(m)).last().field("role"@) == Some(
                JsonView::Text("user"@),
            ),
        translated(Shape::Responses, ms.push(m)).last().field("content"@) == Some(
            JsonView::Text(said),
        ),
        translated(Shape::Anthropic, ms.push(m)).last().items_field("content"@) matches Some(blocks)
            && blocks.len() == 1 && blocks[0].field("type"@) == Some(JsonView::Text("text"@))
            && blocks[0].field("text"@) == Some(JsonView::Text(said)),
        translated(Shape::Google, ms.push(m)).last().items_field("parts"@) matches Some(parts)
            && parts.len() == 1 && parts[0].field("text"@) == Some(JsonView::Text(said)),
{
    lemma_keys();
    assert(ms.push(m).drop_last() =~= ms);
    assert(role_of(m) == "user"@);
    let parts = parts_of(m);
    assert(parts.drop_last() =~= Seq::empty());
    assert(joined_text(parts) =~= said) by {
        reveal_with_fuel(joined_text, 2);
    }
    assert forall|shape: Shape| #[trigger] image_blocks(shape, parts) =~= Seq::empty() by {
        reveal_with_fuel(image_blocks, 2);
    }
    assert forall|shape: Shape|
        #![trigger translated(shape, ms.push(m))]
        translated(shape, ms.push(m)) =~= translated(shape, ms).push(
            match shape {
                Shape::Responses => text_block(shape, "user"@, said),
                Shape::Anthropic => obj2(
                    "role"@,
                    txt("user"@),
                    "content"@,
                    JsonView::Array(seq![text_block(shape, "user"@, said)]),
                ),
                Shape::Google => obj2(
                    "role"@,
                    txt("user"@),
                    "parts"@,
                    JsonView::Array(seq![text_block(shape, "user"@, said)]),
                ),
            },
        ) by {
        let blocks = text_blocks(shape, "user"@, said) + image_blocks(shape, parts);
        assert(blocks =~= seq![text_block(shape, "user"@, said)]);
    }
    assert forall|shape: Shape|
        #![trigger translated(shape, ms.push(m))]
        translated(shape, ms.push(m)).drop_last() == translated(shape, ms) by {
        assert(translated(shape, ms.push(m)).drop_last() =~= translated(shape, ms));
    }
}

proof fn lemma_pictures(blocks: Seq<JsonView>, said: Seq<char>, urls: Seq<Seq<char>>)
    requires
        said.len() > 0,
        blocks.len() == 1 + urls.len(),
        blocks[0].field("type"@) == Some(JsonView::Text("text"@)),
        blocks[0].field("text"@) == Some(JsonView::Text(said)),
        forall|i: int|
            #![trigger urls[i]]
            0 <= i < urls.len() ==> data_uri(urls[i]) is Some && blocks[1 + i].field("type"@)
                == Some(JsonView::Text("image_url"@)) && (blocks[1 + i].field(
                "image_url"@,
            ) matches Some(u) && u.field("url"@) == Some(JsonView::Text(urls[i]))),
    ensures
        joined_text(block_parts(blocks)) == said,
        forall|shape: Shape|
            #![trigger image_blocks(shape, block_parts(blocks))]
            image_blocks(shape, block_parts(blocks)) == Seq::new(
                urls.len(),
                |i: int|
                    image_block(shape, (data_uri(urls[i])->0).0, (data_uri(urls[i])->0).1),
            ),
    decreases urls.len(),
{
    lemma_keys();
    let before = blocks.drop_last();
    if urls.len() == 0 {
        assert(before =~= Seq::empty());
        assert(block_parts(before) =~= Seq::empty());
        let parts = block_parts(blocks);
        assert(parts =~= seq![IrPartView::Text(said)]);
        assert(parts.drop_last() =~= Seq::empty());
        assert(joined_text(parts.drop_last()) =~= Seq::empty());
        assert(joined_text(parts) =~= said);
        assert forall|shape: Shape|
            #![trigger image_blocks(shape, parts)]
            image_blocks(shape, parts) =~= Seq::new(
                urls.len(),
                |i: int| image_block(shape, (data_uri(urls[i])->0).0, (data_uri(urls[i])->0).1),
            ) by {
            assert(image_blocks(shape, parts.drop_last()) =~= Seq::empty());
        }
    } else {
        let less = urls.drop_last();
        let url = urls[urls.len() - 1];
        assert(before[0] == blocks[0]);
        assert forall|i: int|
            #![trigger less[i]]
            0 <= i < less.len() implies data_uri(less[i]) is Some && before[1 + i].field("type"@)
            == Some(JsonView::Text("image_url"@)) && (before[1 + i].field(
            "image_url"@,
        ) matches Some(u) && u.field("url"@) == Some(JsonView::Text(less[i]))) by {
            assert(less[i] == urls[i]);
            assert(before[1 + i] == blocks[1 + i]);
        }
        lemma_pictures(before, said, less);
        assert(blocks.last() == blocks[1 + (urls.len() - 1)]);
        let part = IrPartView::Image { mime: (data_uri(url)->0).0, data: (data_uri(url)->0).1 };
        assert(block_part(blocks.last()) == Some(part));
        let parts = block_parts(blocks);
        assert(parts == block_parts(before).push(part));
        assert(parts.drop_last() =~= block_parts(before));
        assert(joined_text(parts) =~= said);
        assert forall|shape: Shape|
            #![trigger image_blocks(shape, parts)]
            image_blocks(shape, parts) =~= Seq::new(
                urls.len(),
                |i: int| image_block(shape, (data_uri(urls[i])->0).0, (data_uri(urls[i])->0).1),
            ) by {
            assert(image_blocks(shape, block_parts(before)).len() == less.len());
        }
    }
}

/// A message of a text and images reaches every vendor whole: the text first, then each image
/// in order, with the type and the payload of its data address.
pub proof fn law_user_images_are_carried(
    ms: Seq<JsonView>,
    m: JsonView,
    blocks: Seq<JsonView>,
    said: Seq<char>,
    urls: Seq<Seq<char>>,
)
    requires
        m.field("role"@) == Some(JsonView::Text("user"@)),
        m.field("content"@) == Some(JsonView::Array(blocks)),
        said.len() > 0,
        blocks.len() == 1 + urls.len(),
        blocks[0].field("type"@) == Some(JsonView::Text("text"@)),
        blocks[0].field("text"@) == Some(JsonView::Text(said)),
        forall|i: int|
            #![trigger urls[i]]
            0 <= i < urls.len() ==> data_uri(urls[i]) is Some && blocks[1 + i].field("type"@)
                == Some(JsonView::Text("image_url"@)) && (blocks[1 + i].field(
                "image_url"@,
            ) matches Some(u) && u.field("url"@) == Some(JsonView::Text(urls[i]))),
    ensures
        ({
            let n = translated(Shape::Responses, ms).len();
            let out = translated(Shape::Responses, ms.push(m));
            &&& out.len() == n + 1 + urls.len()
            &&& out[n as int].field("content"@) == Some(JsonView::Text(said))
            &&& forall|i: int|
                #![trigger urls[i]]
                0 <= i < urls.len() ==> out[n + 1 + i].field("type"@) == Some(
                    JsonView::Text("input_image"@),
                ) && out[n + 1 + i].field("image_url"@) == Some(JsonView::Text(urls[i]))
        }),
        ({
            let out = translated(Shape::Anthropic, ms.push(m));
            &&& out.drop_last() == translated(Shape::Anthropic, ms)
            &&& out.last().items_field("content"@) matches Some(shown) && {
                &&& shown.len() == 1 + urls.len()
                &&& shown[0].field("text"@) == Some(JsonView::Text(said))
                &&& forall|i: int|
                    #![trigger urls[i]]
                    0 <= i < urls.len() ==> shown[1 + i].field("type"@) == Some(
                        JsonView::Text("image"@),
                    ) && (shown[1 + i].field("source"@) matches Some(source) && {
                        &&& source.field("type"@) == Some(JsonView::Text("base64"@))
                        &&& source.field("media_type"@) == Some(
                            JsonView::Text((data_uri(urls[i])->0).0),
                        )
                        &&& source.field("data"@) == Some(JsonView::Text((data_uri(urls[i])->0).1))
                    })
            }
        }),
        ({
            let out = translated(Shape::Google, ms.push(m));
            &&& out.drop_last() == translated(Shape::Google, ms)
            &&& out.last().items_field("parts"@) matches Some(shown) && {
                &&& shown.len() == 1 + urls.len()
                &&& shown[0].field("text"@) == Some(JsonView::Text(said))
                &&& forall|i: int|
                    #![trigger urls[i]]
                    0 <= i < urls.len() ==> (shown[1 + i].field("inlineData"@) matches Some(source)
                        && {
                        &&& source.field("mimeType"@) == Some(
                            JsonView::Text((data_uri(urls[i])->0).0),
                        )
                        &&& source.field("data"@) == Some(JsonView::Text((data_uri(urls[i])->0).1))
                    })
            }
        }),
{
    lemma_keys();
    assert(ms.push(m).drop_last() =~= ms);
    assert(role_of(m) == "user"@);
    lemma_pictures(blocks, said, urls);
    let parts = parts_of(m);
    assert(parts == block_parts(blocks));
    let re = text_blocks(Shape::Responses, "user"@, said) + image_blocks(Shape::Responses, parts);
    let n = translated(Shape::Responses, ms).len();
    let out = translated(Shape::Responses, ms.push(m));
    assert(out =~= translated(Shape::Responses, ms) + re);
    assert(out[n as int] == re[0]);
    assert forall|i: int| #![trigger urls[i]] 0 <= i < urls.len() implies out[n + 1 + i].field(
        "type"@,
    ) == Some(JsonView::Text("input_image"@)) && out[n + 1 + i].field("image_url"@) == Some(
        JsonView::Text(urls[i]),
    ) by {
        assert(out[n + 1 + i] == re[1 + i]);
        law_data_uri_rejoins(urls[i]);
    }
    let an = text_blocks(Shape::Anthropic, "user"@, said) + image_blocks(Shape::Anthropic, parts);
    assert(translated(Shape::Anthropic, ms.push(m)).drop_last() =~= translated(
        Shape::Anthropic,
        ms,
    ));
    let go = text_blocks(Shape::Google, "user"@, said) + image_blocks(Shape::Google, parts);
    assert(translated(Shape::Google, ms.push(m)).drop_last() =~= translated(Shape::Google, ms));
}

/// A system message is no item of the conversation: its text joins the instructions, after what
/// earlier system messages said and a blank line.
pub proof fn law_system_text_is_kept_apart(ms: Seq<JsonView>, m: JsonView, said: Seq<char>)
    requires
        m.field("role"@) == Some(JsonView::Text("system"@)),
        m.field("content"@) == Some(JsonView::Text(said)),
    ensures
        forall|shape: Shape| #[trigger] translated(shape, ms.push(m)) == translated(shape, ms),
        instructions(ms.push(m)) == Some(
            match instructions(ms) {
                None => said,
                Some(t) => t + "\n\n"@ + said,
            },
        ),
{
    assert(ms.push(m).drop_last() =~= ms);
    assert forall|shape: Shape| #[trigger] translated(shape, ms.push(m)) == translated(
        shape,
        ms,
    ) by {
        assert(translated(shape, ms.push(m)) =~= translated(shape, ms));
    }
    let before = system_texts(ms);
    let after = system_texts(ms.push(m));
    assert(after == before.push(said));
    assert(after.drop_last() =~= before);
}

/// Messages of other roles add nothing to the instructions, and without any message there are
/// none.
pub proof fn law_instructions_are_system_texts(ms: Seq<JsonView>, m: JsonView)
    ensures
        instructions(Seq::empty()) is None,
        m.field("role"@) != Some(JsonView::Text("system"@)) ==> instructions(ms.push(m))
            == instructions(ms),
{
    reveal_strlit("system");
    reveal_strlit("");
    assert(""@.len() != "system"@.len());
    assert(ms.push(m).drop_last() =~= ms);
}

/// Later messages change nothing of what the earlier ones become.
pub proof fn law_conversation_grows_at_end(shape: Shape, ms: Seq<JsonView>, more: Seq<JsonView>)
    ensures
        translated(shape, ms).len() <= translated(shape, ms + more).len(),
        translated(shape, ms + more).subrange(0, translated(shape, ms).len() as int) == translated(
            shape,
            ms,
        ),
    decreases more.len(),
{
    if more.len() == 0 {
        assert(ms + more =~= ms);
        assert(translated(shape, ms).subrange(0, translated(shape, ms).len() as int)
            =~= translated(shape, ms));
    } else {
        law_conversation_grows_at_end(shape, ms, more.drop_last());
        assert((ms + more).drop_last() =~= ms + more.drop_last());
        let n = translated(shape, ms).len() as int;
        assert(translated(shape, ms + more).subrange(0, n) =~= translated(
            shape,
            ms + more.drop_last(),
        ).subrange(0, n));
    }
}

/// An address made of a type and a payload splits into that type and that payload.
pub proof fn law_data_uri_is_split(mime: Seq<char>, payload: Seq<char>)
    requires
        mime.len() > 0,
        payload.len() > 0,
        forall|j: int|
            0 <= j < mime.len() ==> !text::occurs_at(mime + ";base64,"@ + payload, ";base64,"@, j),
    ensures
        data_uri("data:"@ + mime + ";base64,"@ + payload) == Some((mime, payload)),
{
    reveal_strlit("data:");
    reveal_strlit(";base64,");
    let url = "data:"@ + mime + ";base64,"@ + payload;
    let rest = mime + ";base64,"@ + payload;
    assert(url.subrange(0, 5) =~= "data:"@);
    assert(url.subrange(5, url.len() as int) =~= rest);
    let i = mime.len() as int;
    assert(rest.subrange(i, i + 8) =~= ";base64,"@);
    text::lemma_first_from(rest, ";base64,"@, 0);
    assert(text::occurs_at(rest, ";base64,"@, i));
    assert(rest.subrange(0, i) =~= mime);
    assert(rest.subrange(i + 8, rest.len() as int) =~= payload);
}

} // verus!
