//! Requests to the vendors: where they go, what they carry, and how models are listed.

use vstd::prelude::*;

use crate::config;
use crate::config::{CloudKind, CloudProvider, CloudView};
use crate::json;
use crate::json::{Json, JsonView};
use crate::text;
use crate::wire;
use crate::wire::Shape;

verus! {

/// Tools are offered: there is something, and it is no empty list.
pub open spec fn some_tools(tools: JsonView) -> bool {
    !(tools is Null) && !(tools matches JsonView::Array(v) && v.len() == 0)
}

/// Whether tools are offered.
pub fn has_tools(tools: &Json) -> (r: bool)
    ensures
        r == some_tools(tools@),
{
    match tools {
        Json::Null => false,
        Json::Array(v) => {
            proof {
                json::lemma_items_view(v@);
            }
            v.len() > 0
        },
        _ => true,
    }
}

/// The schema of a function without parameters of its own.
pub open spec fn any_object() -> JsonView {
    wire::obj1("type"@, wire::txt("object"@))
}

/// A tool in a vendor's shape; none where it is no function.
pub open spec fn tool_decl(shape: Shape, t: JsonView) -> Option<JsonView> {
    match t.field("function"@) {
        None => None,
        Some(fun) => {
            let name = wire::field_or(fun, "name"@, wire::txt(""@));
            let description = wire::field_or(fun, "description"@, wire::txt(""@));
            Some(
                match shape {
                    Shape::Responses => wire::obj4(
                        "type"@,
                        wire::txt("function"@),
                        "name"@,
                        name,
                        "description"@,
                        description,
                        "parameters"@,
                        wire::field_or(fun, "parameters"@, JsonView::Object(Map::empty())),
                    ),
                    Shape::Anthropic => wire::obj3(
                        "name"@,
                        name,
                        "description"@,
                        description,
                        "input_schema"@,
                        wire::field_or(fun, "parameters"@, any_object()),
                    ),
                    Shape::Google => wire::obj3(
                        "name"@,
                        name,
                        "description"@,
                        description,
                        "parameters"@,
                        wire::field_or(fun, "parameters"@, any_object()),
                    ),
                },
            )
        },
    }
}

/// The tools that are functions, in a vendor's shape.
pub open spec fn tool_decls(shape: Shape, tools: Seq<JsonView>) -> Seq<JsonView>
    decreases tools.len(),
{
    if tools.len() == 0 {
        Seq::empty()
    } else {
        let before = tool_decls(shape, tools.drop_last());
        match tool_decl(shape, tools.last()) {
            Some(d) => before.push(d),
            None => before,
        }
    }
}

/// The tools as a vendor takes them. Google takes all declarations in one entry.
pub open spec fn tools_in(shape: Shape, tools: JsonView) -> JsonView {
    match tools.as_items() {
        None => JsonView::Array(Seq::empty()),
        Some(items) => {
            let decls = tool_decls(shape, items);
            if shape == Shape::Google && decls.len() > 0 {
                JsonView::Array(
                    seq![wire::obj1("functionDeclarations"@, JsonView::Array(decls))],
                )
            } else {
                JsonView::Array(decls)
            }
        },
    }
}

fn decl_json(shape: Shape, t: &Json) -> (r: Option<Json>)
    ensures
        text::opt_view(r) == tool_decl(shape, t@),
{
    match t.get("function") {
        None => None,
        Some(fun) => {
            let name = wire::get_or(fun, "name", Json::text(""));
            let description = wire::get_or(fun, "description", Json::text(""));
            let open_schema = Json::empty_object().with("type", Json::text("object"));
            Some(
                match shape {
                    Shape::Responses => Json::empty_object().with(
                        "type",
                        Json::text("function"),
                    ).with("name", name).with("description", description).with(
                        "parameters",
                        wire::get_or(fun, "parameters", Json::empty_object()),
                    ),
                    Shape::Anthropic => Json::empty_object().with("name", name).with(
                        "description",
                        description,
                    ).with("input_schema", wire::get_or(fun, "parameters", open_schema)),
                    Shape::Google => Json::empty_object().with("name", name).with(
                        "description",
                        description,
                    ).with("parameters", wire::get_or(fun, "parameters", open_schema)),
                },
            )
        },
    }
}

fn vendor_tools(shape: Shape, tools: &Json) -> (r: Json)
    ensures
        r@ == tools_in(shape, tools@),
{
    broadcast use {json::lemma_items_view, json::lemma_items_push};

    let mut out: Vec<Json> = Vec::new();
    assert(json::items_view(out@) =~= Seq::empty());
    match tools.as_items() {
        None => Json::Array(out),
        Some(items) => {
            let ghost all = json::items_view(items@);
            let mut i: usize = 0;
            assert(all.subrange(0, 0) =~= Seq::empty());
            while i < items.len()
                invariant
                    i <= items@.len(),
                    all == json::items_view(items@),
                    all.len() == items@.len(),
                    forall|k: int| 0 <= k < all.len() ==> all[k] == json::json_view(items@[k]),
                    json::items_view(out@) == tool_decls(shape, all.subrange(0, i as int)),
                decreases items@.len() - i,
            {
                let ghost next = all.subrange(0, i + 1);
                assert(next.drop_last() =~= all.subrange(0, i as int));
                assert(next.last() == items@[i as int]@);
                match decl_json(shape, &items[i]) {
                    Some(d) => {
                        let ghost before = out@;
                        out.push(d);
                        proof {
                            json::lemma_items_push(before, d);
                        }
                    },
                    None => {},
                }
                i = i + 1;
            }
            assert(all.subrange(0, all.len() as int) =~= all);
            if let Shape::Google = shape {
                if out.len() > 0 {
                    let entry = Json::empty_object().with("functionDeclarations", Json::Array(out));
                    let mut wrapped: Vec<Json> = Vec::new();
                    wrapped.push(entry);
                    assert(json::items_view(wrapped@) =~= seq![entry@]);
                    return Json::Array(wrapped);
                }
            }
            Json::Array(out)
        },
    }
}

/// The tools of the OpenAI chat API: as they are.
pub fn openai_chat_tools(tools: &Json) -> (r: Json)
    ensures
        r@ == tools@,
{
    tools.copy()
}

/// The tools of the OpenAI responses API.
pub fn responses_tools(tools: &Json) -> (r: Json)
    ensures
        r@ == tools_in(Shape::Responses, tools@),
{
    vendor_tools(Shape::Responses, tools)
}

/// The tools of the Anthropic messages API.
pub fn anthropic_tools(tools: &Json) -> (r: Json)
    ensures
        r@ == tools_in(Shape::Anthropic, tools@),
{
    vendor_tools(Shape::Anthropic, tools)
}

/// The tools of the Google generative language API.
pub fn google_tools(tools: &Json) -> (r: Json)
    ensures
        r@ == tools_in(Shape::Google, tools@),
{
    vendor_tools(Shape::Google, tools)
}

/// The base of an address: no white space around it, no slash at its end.
pub open spec fn base_of(base_url: Seq<char>) -> Seq<char> {
    text::without_end(text::trimmed(base_url), '/')
}

/// A base address and a route put together with one slash between them; a blank route stands
/// for the default one.
pub open spec fn endpoint_of(base_url: Seq<char>, router: Seq<char>, default: Seq<char>) -> Seq<
    char,
> {
    let path = if config::blank(router) {
        default
    } else {
        text::trimmed(router)
    };
    if text::has_prefix(path, "/"@) {
        base_of(base_url) + path
    } else {
        base_of(base_url) + "/"@ + path
    }
}

/// Puts a base address and a route together.
pub fn endpoint(base_url: &str, router: &str, default: &str) -> (r: String)
    ensures
        r@ == endpoint_of(base_url@, router@, default@),
{
    let trimmed = text::trim(base_url);
    let base = text::trim_end_of(trimmed.as_str(), '/');
    let path = if config::is_blank(router) {
        default.to_string()
    } else {
        text::trim(router)
    };
    if text::starts_with(path.as_str(), "/") {
        text::cat2(base.as_str(), path.as_str())
    } else {
        text::cat3(base.as_str(), "/", path.as_str())
    }
}

proof fn lemma_without_end(s: Seq<char>, c: char)
    ensures
        text::without_end(s, c).len() > 0 ==> text::without_end(s, c).last() != c,
    decreases s.len(),
{
    if s.len() > 0 && s.last() == c {
        lemma_without_end(s.drop_last(), c);
    }
}

/// An address is the base, which ends in no slash, and what follows begins with one; where the
/// route begins with at most one slash, no slash stands beside another there.
pub proof fn law_endpoint_has_one_slash(base_url: Seq<char>, router: Seq<char>, default: Seq<char>)
    ensures
        ({
            let e = endpoint_of(base_url, router, default);
            let base = base_of(base_url);
            let path = if config::blank(router) {
                default
            } else {
                text::trimmed(router)
            };
            &&& text::has_prefix(e, base)
            &&& base.len() > 0 ==> base.last() != '/'
            &&& e.len() > base.len() && e[base.len() as int] == '/'
            &&& !text::has_prefix(path, "//"@) ==> (e.len() == base.len() + 1 || e[base.len() as int + 1]
                != '/')
        }),
{
    reveal_strlit("/");
    reveal_strlit("//");
    let base = base_of(base_url);
    lemma_without_end(text::trimmed(base_url), '/');
    let path = if config::blank(router) {
        default
    } else {
        text::trimmed(router)
    };
    let e = endpoint_of(base_url, router, default);
    assert(e.subrange(0, base.len() as int) =~= base);
    if text::has_prefix(path, "/"@) {
        assert(path.subrange(0, 1)[0] == '/');
        if path.len() > 1 && path[1] == '/' {
            assert(path.subrange(0, 2) =~= "//"@);
        }
    } else if path.len() > 0 && path[0] == '/' {
        assert(path.subrange(0, 1) =~= "/"@);
    }
}

/// The four ways to talk to a vendor.
#[derive(Debug, Clone, Copy, PartialEq, Eq, Structural)]
pub enum Vendor {
    Chat,
    Responses,
    Anthropic,
    Google,
}

/// The way to talk to a provider whose route is given in lower case.
pub open spec fn vendor_of(kind: CloudKind, low_router: Seq<char>) -> Vendor {
    match kind {
        CloudKind::OpenAi => if text::has(low_router, "responses"@) {
            Vendor::Responses
        } else {
            Vendor::Chat
        },
        CloudKind::Anthropic => Vendor::Anthropic,
        CloudKind::Google => Vendor::Google,
    }
}

/// Tells how to talk to a provider whose route is given in lower case.
pub fn vendor_for(kind: CloudKind, low_router: &str) -> (r: Vendor)
    ensures
        r == vendor_of(kind, low_router@),
{
    match kind {
        CloudKind::OpenAi => if text::contains(low_router, "responses") {
            Vendor::Responses
        } else {
            Vendor::Chat
        },
        CloudKind::Anthropic => Vendor::Anthropic,
        CloudKind::Google => Vendor::Google,
    }
}

/// Tells how to talk to a provider.
pub fn build_generator(cloud: &CloudProvider) -> (r: Vendor)
    ensures
        r == vendor_of(cloud.kind, text::lowercase(cloud.router@)),
{
    let low = text::to_lowercase(cloud.router.as_str());
    vendor_for(cloud.kind, low.as_str())
}

/// A request: the address, the headers and the JSON body.
#[derive(Debug, PartialEq)]
pub struct CloudRequest {
    pub url: String,
    pub headers: Vec<(String, String)>,
    pub body: Json,
}

/// The model of a request.
#[verifier::ext_equal]
pub struct RequestView {
    pub url: Seq<char>,
    pub headers: Seq<(Seq<char>, Seq<char>)>,
    pub body: JsonView,
}

/// The headers, name and value.
pub open spec fn header_views(v: Seq<(String, String)>) -> Seq<(Seq<char>, Seq<char>)> {
    Seq::new(v.len(), |i: int| (v[i].0@, v[i].1@))
}

impl View for CloudRequest {
    type V = RequestView;

    open spec fn view(&self) -> RequestView {
        RequestView { url: self.url@, headers: header_views(self.headers@), body: self.body@ }
    }
}

/// The headers of a request to a vendor.
pub open spec fn headers_of(vendor: Vendor, key: Option<Seq<char>>) -> Seq<(Seq<char>, Seq<char>)> {
    let fixed = if vendor == Vendor::Anthropic {
        seq![("anthropic-version"@, "2023-06-01"@)]
    } else {
        Seq::empty()
    };
    match key {
        None => fixed,
        Some(k) => fixed.push(
            match vendor {
                Vendor::Anthropic => ("x-api-key"@, k),
                Vendor::Google => ("x-goog-api-key"@, k),
                _ => ("Authorization"@, "Bearer "@ + k),
            },
        ),
    }
}

/// The address of a request to a vendor.
pub open spec fn url_of(vendor: Vendor, p: CloudView) -> Seq<char> {
    match vendor {
        Vendor::Chat => endpoint_of(p.base_url, p.router, "/chat/completions"@),
        Vendor::Responses => endpoint_of(p.base_url, p.router, "/responses"@),
        Vendor::Anthropic => endpoint_of(p.base_url, p.router, "/v1/messages"@),
        Vendor::Google => {
            let action = if config::blank(p.router) {
                "streamGenerateContent"@
            } else {
                text::without_start(text::trimmed(p.router), '/')
            };
            base_of(p.base_url) + "/models/"@ + p.model + ":"@ + action + "?alt=sse"@
        },
    }
}

/// An object with one member more.
pub open spec fn plus(v: JsonView, key: Seq<char>, x: JsonView) -> JsonView {
    JsonView::Object(json::members(v).insert(key, x))
}

/// An object with one member more, where there is one.
pub open spec fn plus_some(v: JsonView, key: Seq<char>, x: Option<JsonView>) -> JsonView {
    match x {
        Some(x) => plus(v, key, x),
        None => v,
    }
}

/// The body of a request to the OpenAI chat API.
pub open spec fn chat_body(
    p: CloudView,
    messages: Seq<JsonView>,
    tools: JsonView,
    temperature: JsonView,
    max_tokens: nat,
) -> JsonView {
    let base = plus(
        plus(
            plus(
                wire::obj2("model"@, wire::txt(p.model), "messages"@, JsonView::Array(messages)),
                "stream"@,
                JsonView::Bool(true),
            ),
            "temperature"@,
            temperature,
        ),
        "max_tokens"@,
        JsonView::Int(max_tokens as int),
    );
    let effort = if config::blank(p.reasoning_effort) {
        base
    } else {
        plus(base, "reasoning_effort"@, wire::txt(text::trimmed(p.reasoning_effort)))
    };
    if some_tools(tools) {
        plus(plus(effort, "tools"@, tools), "tool_choice"@, wire::txt("auto"@))
    } else {
        effort
    }
}

/// The body of a request to the OpenAI responses API.
pub open spec fn responses_body(
    p: CloudView,
    messages: Seq<JsonView>,
    tools: JsonView,
    temperature: JsonView,
    max_tokens: nat,
) -> JsonView {
    let base = plus(
        plus(
            plus(
                wire::obj2(
                    "model"@,
                    wire::txt(p.model),
                    "input"@,
                    JsonView::Array(wire::translated(Shape::Responses, messages)),
                ),
                "stream"@,
                JsonView::Bool(true),
            ),
            "temperature"@,
            temperature,
        ),
        "max_output_tokens"@,
        JsonView::Int(max_tokens as int),
    );
    let told = plus_some(
        base,
        "instructions"@,
        match wire::instructions(messages) {
            Some(t) => Some(wire::txt(t)),
            None => None,
        },
    );
    let effort = if config::blank(p.reasoning_effort) {
        told
    } else {
        plus(
            told,
            "reasoning"@,
            wire::obj1("effort"@, wire::txt(text::trimmed(p.reasoning_effort))),
        )
    };
    if some_tools(tools) {
        plus(
            plus(effort, "tools"@, tools_in(Shape::Responses, tools)),
            "tool_choice"@,
            wire::txt("auto"@),
        )
    } else {
        effort
    }
}

/// The body of a request to the Anthropic messages API.
pub open spec fn anthropic_body(
    p: CloudView,
    messages: Seq<JsonView>,
    tools: JsonView,
    temperature: JsonView,
    max_tokens: nat,
) -> JsonView {
    let base = plus(
        plus(
            plus(
                wire::obj2(
                    "model"@,
                    wire::txt(p.model),
                    "messages"@,
                    JsonView::Array(wire::translated(Shape::Anthropic, messages)),
                ),
                "max_tokens"@,
                JsonView::Int(max_tokens as int),
            ),
            "stream"@,
            JsonView::Bool(true),
        ),
        "temperature"@,
        temperature,
    );
    let told = plus_some(
        base,
        "system"@,
        match wire::instructions(messages) {
            Some(t) => Some(wire::txt(t)),
            None => None,
        },
    );
    with_tools(told, Shape::Anthropic, tools)
}

/// A body with the tools, where some are left in the vendor's shape.
pub open spec fn with_tools(body: JsonView, shape: Shape, tools: JsonView) -> JsonView {
    if some_tools(tools) && some_tools(tools_in(shape, tools)) {
        plus(body, "tools"@, tools_in(shape, tools))
    } else {
        body
    }
}

/// The body of a request to the Google generative language API.
pub open spec fn google_body(
    messages: Seq<JsonView>,
    tools: JsonView,
    temperature: JsonView,
    max_tokens: nat,
) -> JsonView {
    let base = wire::obj2(
        "contents"@,
        JsonView::Array(wire::translated(Shape::Google, messages)),
        "generationConfig"@,
        wire::obj2(
            "temperature"@,
            temperature,
            "maxOutputTokens"@,
            JsonView::Int(max_tokens as int),
        ),
    );
    let told = plus_some(
        base,
        "systemInstruction"@,
        match wire::instructions(messages) {
            Some(t) => Some(wire::google_system(t)),
            None => None,
        },
    );
    with_tools(told, Shape::Google, tools)
}

/// The body of a request to a vendor.
pub open spec fn body_of(
    vendor: Vendor,
    p: CloudView,
    messages: Seq<JsonView>,
    tools: JsonView,
    temperature: JsonView,
    max_tokens: nat,
) -> JsonView {
    match vendor {
        Vendor::Chat => chat_body(p, messages, tools, temperature, max_tokens),
        Vendor::Responses => responses_body(p, messages, tools, temperature, max_tokens),
        Vendor::Anthropic => anthropic_body(p, messages, tools, temperature, max_tokens),
        Vendor::Google => google_body(messages, tools, temperature, max_tokens),
    }
}

fn number(n: usize) -> (r: Json)
    ensures
        r@ == JsonView::Int(n as int),
{
    Json::Big(n as u64)
}

fn add_tools(body: Json, shape: Shape, tools: &Json) -> (r: Json)
    ensures
        r@ == with_tools(body@, shape, tools@),
{
    if has_tools(tools) {
        let t = vendor_tools(shape, tools);
        if has_tools(&t) {
            return body.with("tools", t);
        }
    }
    body
}

/// The body of a request to the OpenAI chat API.
pub fn openai_chat_body(
    cloud: &CloudProvider,
    messages: Vec<Json>,
    tools: &Json,
    temperature: &Json,
    max_tokens: usize,
) -> (r: Json)
    ensures
        r@ == chat_body(
            cloud@,
            json::items_view(messages@),
            tools@,
            temperature@,
            max_tokens as nat,
        ),
{
    let mut body = Json::empty_object().with("model", Json::text(cloud.model.as_str())).with(
        "messages",
        Json::Array(messages),
    ).with("stream", Json::Bool(true)).with("temperature", temperature.copy()).with(
        "max_tokens",
        number(max_tokens),
    );
    if !config::is_blank(cloud.reasoning_effort.as_str()) {
        let effort = text::trim(cloud.reasoning_effort.as_str());
        body = body.with("reasoning_effort", Json::text(effort.as_str()));
    }
    if has_tools(tools) {
        body = body.with("tools", openai_chat_tools(tools)).with("tool_choice", Json::text("auto"));
    }
    body
}

/// The body of a request to the OpenAI responses API.
pub fn openai_responses_body(
    cloud: &CloudProvider,
    messages: &Vec<Json>,
    tools: &Json,
    temperature: &Json,
    max_tokens: usize,
) -> (r: Json)
    ensures
        r@ == responses_body(
            cloud@,
            json::items_view(messages@),
            tools@,
            temperature@,
            max_tokens as nat,
        ),
{
    let (instructions, input) = wire::responses_input(messages);
    let mut body = Json::empty_object().with("model", Json::text(cloud.model.as_str())).with(
        "input",
        Json::Array(input),
    ).with("stream", Json::Bool(true)).with("temperature", temperature.copy()).with(
        "max_output_tokens",
        number(max_tokens),
    );
    match instructions {
        Some(t) => {
            body = body.with("instructions", Json::text(t.as_str()));
        },
        None => {},
    }
    if !config::is_blank(cloud.reasoning_effort.as_str()) {
        let effort = text::trim(cloud.reasoning_effort.as_str());
        body = body.with(
            "reasoning",
            Json::empty_object().with("effort", Json::text(effort.as_str())),
        );
    }
    if has_tools(tools) {
        body = body.with("tools", responses_tools(tools)).with("tool_choice", Json::text("auto"));
    }
    body
}

/// The body of a request to the Anthropic messages API.
pub fn anthropic_request_body(
    cloud: &CloudProvider,
    messages: &Vec<Json>,
    tools: &Json,
    temperature: &Json,
    max_tokens: usize,
) -> (r: Json)
    ensures
        r@ == anthropic_body(
            cloud@,
            json::items_view(messages@),
            tools@,
            temperature@,
            max_tokens as nat,
        ),
{
    let (system, msgs) = wire::anthropic_messages(messages);
    let mut body = Json::empty_object().with("model", Json::text(cloud.model.as_str())).with(
        "messages",
        Json::Array(msgs),
    ).with("max_tokens", number(max_tokens)).with("stream", Json::Bool(true)).with(
        "temperature",
        temperature.copy(),
    );
    match system {
        Some(t) => {
            body = body.with("system", Json::text(t.as_str()));
        },
        None => {},
    }
    add_tools(body, Shape::Anthropic, tools)
}

/// The body of a request to the Google generative language API.
pub fn google_request_body(
    messages: &Vec<Json>,
    tools: &Json,
    temperature: &Json,
    max_tokens: usize,
) -> (r: Json)
    ensures
        r@ == google_body(
            json::items_view(messages@),
            tools@,
            temperature@,
            max_tokens as nat,
        ),
{
    let (system, contents) = wire::google_contents(messages);
    let generation = Json::empty_object().with("temperature", temperature.copy()).with(
        "maxOutputTokens",
        number(max_tokens),
    );
    let mut body = Json::empty_object().with("contents", Json::Array(contents)).with(
        "generationConfig",
        generation,
    );
    match system {
        Some(s) => {
            body = body.with("systemInstruction", s);
        },
        None => {},
    }
    add_tools(body, Shape::Google, tools)
}

fn request_url(vendor: Vendor, cloud: &CloudProvider) -> (r: String)
    ensures
        r@ == url_of(vendor, cloud@),
{
    match vendor {
        Vendor::Chat => endpoint(
            cloud.base_url.as_str(),
            cloud.router.as_str(),
            "/chat/completions",
        ),
        Vendor::Responses => endpoint(cloud.base_url.as_str(), cloud.router.as_str(), "/responses"),
        Vendor::Anthropic => endpoint(
            cloud.base_url.as_str(),
            cloud.router.as_str(),
            "/v1/messages",
        ),
        Vendor::Google => {
            let action = if config::is_blank(cloud.router.as_str()) {
                "streamGenerateContent".to_string()
            } else {
                let trimmed = text::trim(cloud.router.as_str());
                text::trim_start_of(trimmed.as_str(), '/')
            };
            let trimmed = text::trim(cloud.base_url.as_str());
            let base = text::trim_end_of(trimmed.as_str(), '/');
            let mut url = text::cat5(
                base.as_str(),
                "/models/",
                cloud.model.as_str(),
                ":",
                action.as_str(),
            );
            url.append("?alt=sse");
            url
        },
    }
}

fn request_headers(vendor: Vendor, key: &Option<String>) -> (r: Vec<(String, String)>)
    ensures
        header_views(r@) == headers_of(vendor, text::opt_view(*key)),
{
    let mut out: Vec<(String, String)> = Vec::new();
    if let Vendor::Anthropic = vendor {
        out.push(("anthropic-version".to_string(), "2023-06-01".to_string()));
    }
    match key {
        None => {},
        Some(k) => {
            let header = match vendor {
                Vendor::Anthropic => ("x-api-key".to_string(), k.clone()),
                Vendor::Google => ("x-goog-api-key".to_string(), k.clone()),
                _ => ("Authorization".to_string(), text::cat2("Bearer ", k.as_str())),
            };
            out.push(header);
        },
    }
    assert(header_views(out@) =~= headers_of(vendor, text::opt_view(*key)));
    out
}

/// The request of one round to a vendor.
pub fn build_request(
    vendor: Vendor,
    cloud: &CloudProvider,
    messages: Vec<Json>,
    tools: &Json,
    temperature: &Json,
    max_tokens: usize,
    key: &Option<String>,
) -> (r: CloudRequest)
    ensures
        r@ == (RequestView {
            url: url_of(vendor, cloud@),
            headers: headers_of(vendor, text::opt_view(*key)),
            body: body_of(
                vendor,
                cloud@,
                json::items_view(messages@),
                tools@,
                temperature@,
                max_tokens as nat,
            ),
        }),
{
    let url = request_url(vendor, cloud);
    let headers = request_headers(vendor, key);
    let body = match vendor {
        Vendor::Chat => openai_chat_body(cloud, messages, tools, temperature, max_tokens),
        Vendor::Responses => openai_responses_body(
            cloud,
            &messages,
            tools,
            temperature,
            max_tokens,
        ),
        Vendor::Anthropic => anthropic_request_body(
            cloud,
            &messages,
            tools,
            temperature,
            max_tokens,
        ),
        Vendor::Google => google_request_body(&messages, tools, temperature, max_tokens),
    };
    CloudRequest { url, headers, body }
}

/// The address at which a vendor lists its models.
pub open spec fn models_url_of(p: CloudView) -> Seq<char> {
    endpoint_of(p.base_url, "/models"@, "/models"@)
}

/// The headers of a request for a vendor's models.
pub open spec fn models_headers(kind: CloudKind, key: Option<Seq<char>>) -> Seq<
    (Seq<char>, Seq<char>),
> {
    headers_of(
        if kind == CloudKind::Google {
            Vendor::Google
        } else {
            Vendor::Chat
        },
        key,
    )
}

/// The request for a vendor's models; Anthropic lists none.
pub fn models_request(cloud: &CloudProvider, key: &Option<String>) -> (r: Result<
    (String, Vec<(String, String)>),
    String,
>)
    ensures
        match r {
            Ok(p) => cloud.kind != CloudKind::Anthropic && p.0@ == models_url_of(cloud@)
                && header_views(p.1@) == models_headers(cloud.kind, text::opt_view(*key)),
            Err(e) => cloud.kind == CloudKind::Anthropic && e@
                == "listagem de modelos nao suportada pela API anthropic; informe o modelo no config"@,
        },
{
    match cloud.kind {
        CloudKind::Anthropic => Err(
            "listagem de modelos nao suportada pela API anthropic; informe o modelo no config".to_string(),
        ),
        CloudKind::OpenAi => Ok(
            (
                endpoint(cloud.base_url.as_str(), "/models", "/models"),
                request_headers(Vendor::Chat, key),
            ),
        ),
        CloudKind::Google => Ok(
            (
                endpoint(cloud.base_url.as_str(), "/models", "/models"),
                request_headers(Vendor::Google, key),
            ),
        ),
    }
}

/// The id of a listed model.
pub open spec fn model_id(kind: CloudKind, entry: JsonView) -> Option<Seq<char>> {
    match kind {
        CloudKind::Google => match entry.text_field("name"@) {
            Some(n) => Some(
                match text::after_prefix(n, "models/"@) {
                    Some(rest) => rest,
                    None => n,
                },
            ),
            None => None,
        },
        _ => entry.text_field("id"@),
    }
}

/// The ids of the listed models.
pub open spec fn model_ids(kind: CloudKind, entries: Seq<JsonView>) -> Seq<Seq<char>>
    decreases entries.len(),
{
    if entries.len() == 0 {
        Seq::empty()
    } else {
        let before = model_ids(kind, entries.drop_last());
        match model_id(kind, entries.last()) {
            Some(id) => before.push(id),
            None => before,
        }
    }
}

/// The ids of the models that a vendor's answer lists.
pub open spec fn listed(kind: CloudKind, body: JsonView) -> Seq<Seq<char>> {
    let key = if kind == CloudKind::Google {
        "models"@
    } else {
        "data"@
    };
    match body.items_field(key) {
        Some(entries) => model_ids(kind, entries),
        None => Seq::empty(),
    }
}

fn id_of_model(kind: CloudKind, entry: &Json) -> (r: Option<String>)
    ensures
        text::opt_view(r) == model_id(kind, entry@),
{
    match kind {
        CloudKind::Google => match entry.text_field("name") {
            Some(n) => Some(
                match text::strip_prefix(n, "models/") {
                    Some(rest) => rest,
                    None => n.to_string(),
                },
            ),
            None => None,
        },
        _ => match entry.text_field("id") {
            Some(id) => Some(id.to_string()),
            None => None,
        },
    }
}

/// Reads the ids of the models from a vendor's answer; an answer without models is an error.
pub fn list_models(kind: CloudKind, url: &str, body: &Json) -> (r: Result<Vec<String>, String>)
    ensures
        match r {
            Ok(ids) => text::views(ids@) == listed(kind, body@) && ids@.len() > 0,
            Err(e) => listed(kind, body@).len() == 0 && e@ == "nenhum modelo listado por "@ + url@,
        },
{
    broadcast use json::lemma_items_view;

    let mut ids: Vec<String> = Vec::new();
    assert(text::views(ids@) =~= Seq::empty());
    let key = match kind {
        CloudKind::Google => "models",
        _ => "data",
    };
    match body.items_field(key) {
        Some(entries) => {
            let ghost all = json::items_view(entries@);
            let mut i: usize = 0;
            assert(all.subrange(0, 0) =~= Seq::empty());
            while i < entries.len()
                invariant
                    i <= entries@.len(),
                    all == json::items_view(entries@),
                    all.len() == entries@.len(),
                    forall|k: int| 0 <= k < all.len() ==> all[k] == json::json_view(entries@[k]),
                    text::views(ids@) == model_ids(kind, all.subrange(0, i as int)),
                decreases entries@.len() - i,
            {
                let ghost next = all.subrange(0, i + 1);
                assert(next.drop_last() =~= all.subrange(0, i as int));
                assert(next.last() == entries@[i as int]@);
                match id_of_model(kind, &entries[i]) {
                    Some(id) => {
                        let ghost before = text::views(ids@);
                        ids.push(id);
                        assert(text::views(ids@) =~= before.push(id@));
                    },
                    None => {},
                }
                i = i + 1;
            }
            assert(all.subrange(0, all.len() as int) =~= all);
        },
        None => {},
    }
    assert(text::views(ids@).len() == ids@.len());
    if ids.len() == 0 {
        Err(text::cat2("nenhum modelo listado por ", url))
    } else {
        Ok(ids)
    }
}

/// The error for an answer other than success.
pub open spec fn http_failure(
    method: Seq<char>,
    url: Seq<char>,
    status: nat,
    body: Seq<char>,
) -> Seq<char> {
    method + " "@ + url + " -> HTTP "@ + text::decimal(status) + ": "@ + body
}

/// Words the error for an answer other than success.
pub fn http_error(method: &str, url: &str, status: u16, body: &str) -> (r: String)
    ensures
        r@ == http_failure(method@, url@, status as nat, body@),
{
    let code = text::write_u64(status as u64);
    let mut out = text::cat5(method, " ", url, " -> HTTP ", code.as_str());
    out.append(": ");
    out.append(body);
    out
}

proof fn lemma_body_keys()
    ensures
        "model"@ != "messages"@,
        "model"@ != "stream"@,
        "model"@ != "temperature"@,
        "model"@ != "max_tokens"@,
        "model"@ != "reasoning_effort"@,
        "model"@ != "tools"@,
        "model"@ != "tool_choice"@,
        "messages"@ != "stream"@,
        "messages"@ != "temperature"@,
        "messages"@ != "max_tokens"@,
        "messages"@ != "reasoning_effort"@,
        "messages"@ != "tools"@,
        "messages"@ != "tool_choice"@,
        "stream"@ != "temperature"@,
        "stream"@ != "max_tokens"@,
        "stream"@ != "reasoning_effort"@,
        "stream"@ != "tools"@,
        "stream"@ != "tool_choice"@,
        "temperature"@ != "max_tokens"@,
        "temperature"@ != "reasoning_effort"@,
        "temperature"@ != "tools"@,
        "temperature"@ != "tool_choice"@,
        "max_tokens"@ != "reasoning_effort"@,
        "max_tokens"@ != "tools"@,
        "max_tokens"@ != "tool_choice"@,
        "reasoning_effort"@ != "tools"@,
        "reasoning_effort"@ != "tool_choice"@,
        "tools"@ != "tool_choice"@,
        "model"@ != "input"@,
        "model"@ != "max_output_tokens"@,
        "model"@ != "instructions"@,
        "model"@ != "reasoning"@,
        "input"@ != "stream"@,
        "input"@ != "temperature"@,
        "input"@ != "max_output_tokens"@,
        "input"@ != "instructions"@,
        "input"@ != "reasoning"@,
        "input"@ != "tools"@,
        "input"@ != "tool_choice"@,
        "stream"@ != "max_output_tokens"@,
        "stream"@ != "instructions"@,
        "stream"@ != "reasoning"@,
        "temperature"@ != "max_output_tokens"@,
        "temperature"@ != "instructions"@,
        "temperature"@ != "reasoning"@,
        "max_output_tokens"@ != "instructions"@,
        "max_output_tokens"@ != "reasoning"@,
        "max_output_tokens"@ != "tools"@,
        "max_output_tokens"@ != "tool_choice"@,
        "instructions"@ != "reasoning"@,
        "instructions"@ != "tools"@,
        "instructions"@ != "tool_choice"@,
        "reasoning"@ != "tools"@,
        "reasoning"@ != "tool_choice"@,
        "model"@ != "system"@,
        "messages"@ != "system"@,
        "max_tokens"@ != "system"@,
        "stream"@ != "system"@,
        "temperature"@ != "system"@,
        "system"@ != "tools"@,
        "contents"@ != "generationConfig"@,
        "contents"@ != "systemInstruction"@,
        "contents"@ != "tools"@,
        "generationConfig"@ != "systemInstruction"@,
        "generationConfig"@ != "tools"@,
        "systemInstruction"@ != "tools"@,
        "temperature"@ != "maxOutputTokens"@,
        "type"@ != "name"@,
        "type"@ != "description"@,
        "type"@ != "parameters"@,
        "name"@ != "description"@,
        "name"@ != "parameters"@,
        "description"@ != "parameters"@,
        "name"@ != "input_schema"@,
        "description"@ != "input_schema"@,
{
    reveal_strlit("contents");
    reveal_strlit("description");
    reveal_strlit("generationConfig");
    reveal_strlit("input");
    reveal_strlit("input_schema");
    reveal_strlit("instructions");
    reveal_strlit("maxOutputTokens");
    reveal_strlit("max_output_tokens");
    reveal_strlit("max_tokens");
    reveal_strlit("messages");
    reveal_strlit("model");
    reveal_strlit("name");
    reveal_strlit("parameters");
    reveal_strlit("reasoning");
    reveal_strlit("reasoning_effort");
    reveal_strlit("stream");
    reveal_strlit("system");
    reveal_strlit("systemInstruction");
    reveal_strlit("temperature");
    reveal_strlit("tool_choice");
    reveal_strlit("tools");
    reveal_strlit("type");
    assert("contents"@.len() == 8);
    assert("description"@.len() == 11);
    assert("generationConfig"@.len() == 16);
    assert("input"@.len() == 5);
    assert("input_schema"@.len() == 12);
    assert("instructions"@.len() == 12);
    assert("maxOutputTokens"@.len() == 15);
    assert("max_output_tokens"@.len() == 17);
    assert("max_tokens"@.len() == 10);
    assert("messages"@.len() == 8);
    assert("model"@.len() == 5);
    assert("name"@.len() == 4);
    assert("parameters"@.len() == 10);
    assert("reasoning"@.len() == 9);
    assert("reasoning_effort"@.len() == 16);
    assert("stream"@.len() == 6);
    assert("system"@.len() == 6);
    assert("systemInstruction"@.len() == 17);
    assert("temperature"@.len() == 11);
    assert("tool_choice"@.len() == 11);
    assert("tools"@.len() == 5);
    assert("type"@.len() == 4);
    assert("model"@[0] != "tools"@[0]);
    assert("temperature"@[1] != "tool_choice"@[1]);
    assert("model"@[0] != "input"@[0]);
    assert("input"@[0] != "tools"@[0]);
    assert("stream"@[1] != "system"@[1]);
    assert("type"@[0] != "name"@[0]);
}

/// A request to the OpenAI chat API holds the model, the whole conversation, the temperature and
/// the longest answer, asks for a stream, and offers the tools exactly where there are some.
pub proof fn law_chat_request_is_complete(
    p: CloudView,
    messages: Seq<JsonView>,
    tools: JsonView,
    temperature: JsonView,
    max_tokens: nat,
)
    ensures
        ({
            let b = body_of(Vendor::Chat, p, messages, tools, temperature, max_tokens);
            let effort = text::trimmed(p.reasoning_effort);
            &&& b.field("model"@) == Some(JsonView::Text(p.model))
            &&& b.field("messages"@) == Some(JsonView::Array(messages))
            &&& b.field("stream"@) == Some(JsonView::Bool(true))
            &&& b.field("temperature"@) == Some(temperature)
            &&& b.field("max_tokens"@) == Some(JsonView::Int(max_tokens as int))
            &&& effort.len() > 0 ==> b.field("reasoning_effort"@) == Some(JsonView::Text(effort))
            &&& effort.len() == 0 ==> b.field("reasoning_effort"@) is None
            &&& tools is Null || tools == JsonView::Array(Seq::empty()) ==> b.field("tools"@)
                is None && b.field("tool_choice"@) is None
            &&& forall|ts: Seq<JsonView>|
                tools == JsonView::Array(ts) && ts.len() > 0 ==> b.field("tools"@) == Some(tools)
                    && b.field("tool_choice"@) == Some(JsonView::Text("auto"@))
        }),
{
    lemma_body_keys();
}

/// A request to the OpenAI responses API holds the model, the conversation in that API's shape,
/// the system texts as instructions, the temperature and the longest answer, and asks for a
/// stream.
pub proof fn law_responses_request_is_complete(
    p: CloudView,
    messages: Seq<JsonView>,
    tools: JsonView,
    temperature: JsonView,
    max_tokens: nat,
)
    ensures
        ({
            let b = body_of(Vendor::Responses, p, messages, tools, temperature, max_tokens);
            let effort = text::trimmed(p.reasoning_effort);
            &&& b.field("model"@) == Some(JsonView::Text(p.model))
            &&& b.field("input"@) == Some(
                JsonView::Array(wire::translated(Shape::Responses, messages)),
            )
            &&& b.field("stream"@) == Some(JsonView::Bool(true))
            &&& b.field("temperature"@) == Some(temperature)
            &&& b.field("max_output_tokens"@) == Some(JsonView::Int(max_tokens as int))
            &&& wire::instructions(messages) is None ==> b.field("instructions"@) is None
            &&& forall|t: Seq<char>|
                wire::instructions(messages) == Some(t) ==> b.field("instructions"@) == Some(
                    JsonView::Text(t),
                )
            &&& effort.len() > 0 ==> (b.field("reasoning"@) matches Some(r) && r.field("effort"@)
                == Some(JsonView::Text(effort)))
            &&& effort.len() == 0 ==> b.field("reasoning"@) is None
            &&& tools is Null || tools == JsonView::Array(Seq::empty()) ==> b.field("tools"@)
                is None
            &&& forall|ts: Seq<JsonView>|
                tools == JsonView::Array(ts) && ts.len() > 0 ==> b.field("tools"@) == Some(
                    tools_in(Shape::Responses, tools),
                ) && b.field("tool_choice"@) == Some(JsonView::Text("auto"@))
        }),
{
    lemma_body_keys();
}

/// A request to the Anthropic messages API holds the model, the conversation in that API's shape,
/// the system texts apart from it, the temperature and the longest answer, and asks for a stream.
pub proof fn law_anthropic_request_is_complete(
    p: CloudView,
    messages: Seq<JsonView>,
    tools: JsonView,
    temperature: JsonView,
    max_tokens: nat,
)
    ensures
        ({
            let b = body_of(Vendor::Anthropic, p, messages, tools, temperature, max_tokens);
            &&& b.field("model"@) == Some(JsonView::Text(p.model))
            &&& b.field("messages"@) == Some(
                JsonView::Array(wire::translated(Shape::Anthropic, messages)),
            )
            &&& b.field("stream"@) == Some(JsonView::Bool(true))
            &&& b.field("temperature"@) == Some(temperature)
            &&& b.field("max_tokens"@) == Some(JsonView::Int(max_tokens as int))
            &&& wire::instructions(messages) is None ==> b.field("system"@) is None
            &&& forall|t: Seq<char>|
                wire::instructions(messages) == Some(t) ==> b.field("system"@) == Some(
                    JsonView::Text(t),
                )
            &&& tools is Null || tools == JsonView::Array(Seq::empty()) ==> b.field("tools"@)
                is None
            &&& forall|ts: Seq<JsonView>|
                tools == JsonView::Array(ts) && ts.len() > 0 && all_functions(ts) ==> b.field(
                    "tools"@,
                ) == Some(tools_in(Shape::Anthropic, tools))
        }),
{
    lemma_body_keys();
    assert forall|ts: Seq<JsonView>|
        tools == JsonView::Array(ts) && ts.len() > 0 && all_functions(ts) implies some_tools(
        tools_in(Shape::Anthropic, tools),
    ) by {
        lemma_decls(Shape::Anthropic, ts);
    }
}

/// A request to the Google API holds the conversation in that API's shape, the system texts apart
/// from it, the temperature and the longest answer.
pub proof fn law_google_request_is_complete(
    p: CloudView,
    messages: Seq<JsonView>,
    tools: JsonView,
    temperature: JsonView,
    max_tokens: nat,
)
    ensures
        ({
            let b = body_of(Vendor::Google, p, messages, tools, temperature, max_tokens);
            &&& b.field("contents"@) == Some(
                JsonView::Array(wire::translated(Shape::Google, messages)),
            )
            &&& b.field("generationConfig"@) matches Some(g) && g.field("temperature"@) == Some(
                temperature,
            ) && g.field("maxOutputTokens"@) == Some(JsonView::Int(max_tokens as int))
            &&& wire::instructions(messages) is None ==> b.field("systemInstruction"@) is None
            &&& forall|t: Seq<char>|
                wire::instructions(messages) == Some(t) ==> (b.field(
                    "systemInstruction"@,
                ) matches Some(s) && (s.field("parts"@) matches Some(JsonView::Array(parts))
                    && parts.len() == 1 && parts[0].field("text"@) == Some(JsonView::Text(t))))
            &&& tools is Null || tools == JsonView::Array(Seq::empty()) ==> b.field("tools"@)
                is None
            &&& forall|ts: Seq<JsonView>|
                tools == JsonView::Array(ts) && ts.len() > 0 && all_functions(ts) ==> b.field(
                    "tools"@,
                ) == Some(tools_in(Shape::Google, tools))
        }),
{
    lemma_body_keys();
    assert forall|ts: Seq<JsonView>|
        tools == JsonView::Array(ts) && ts.len() > 0 && all_functions(ts) implies some_tools(
        tools_in(Shape::Google, tools),
    ) by {
        lemma_decls(Shape::Google, ts);
    }
}

/// Every tool of a list is a function.
pub open spec fn all_functions(ts: Seq<JsonView>) -> bool {
    forall|i: int| 0 <= i < ts.len() ==> (#[trigger] ts[i]).field("function"@) is Some
}

proof fn lemma_decls(shape: Shape, ts: Seq<JsonView>)
    requires
        all_functions(ts),
    ensures
        tool_decls(shape, ts).len() == ts.len(),
        forall|i: int|
            0 <= i < ts.len() ==> tool_decl(shape, #[trigger] ts[i]) == Some(
                tool_decls(shape, ts)[i],
            ),
    decreases ts.len(),
{
    if ts.len() > 0 {
        let less = ts.drop_last();
        assert forall|i: int| 0 <= i < less.len() implies (#[trigger] less[i]).field("function"@)
            is Some by {
            assert(less[i] == ts[i]);
        }
        lemma_decls(shape, less);
        assert(ts[ts.len() - 1].field("function"@) is Some);
        assert forall|i: int| 0 <= i < ts.len() implies tool_decl(shape, #[trigger] ts[i]) == Some(
            tool_decls(shape, ts)[i],
        ) by {
            if i < less.len() {
                assert(less[i] == ts[i]);
            }
        }
    }
}

/// Each tool is told to each vendor with its own name, description and parameters, in order;
/// Google takes all of them in one entry.
pub proof fn law_tools_are_declared(
    ts: Seq<JsonView>,
    i: int,
    f: JsonView,
    name: JsonView,
    description: JsonView,
    parameters: JsonView,
)
    requires
        all_functions(ts),
        0 <= i < ts.len(),
        ts[i].field("function"@) == Some(f),
        f.field("name"@) == Some(name),
        f.field("description"@) == Some(description),
        f.field("parameters"@) == Some(parameters),
    ensures
        tools_in(Shape::Responses, JsonView::Array(ts)) matches JsonView::Array(ds) && {
            &&& ds.len() == ts.len()
            &&& ds[i].field("type"@) == Some(JsonView::Text("function"@))
            &&& ds[i].field("name"@) == Some(name)
            &&& ds[i].field("description"@) == Some(description)
            &&& ds[i].field("parameters"@) == Some(parameters)
        },
        tools_in(Shape::Anthropic, JsonView::Array(ts)) matches JsonView::Array(ds) && {
            &&& ds.len() == ts.len()
            &&& ds[i].field("name"@) == Some(name)
            &&& ds[i].field("description"@) == Some(description)
            &&& ds[i].field("input_schema"@) == Some(parameters)
        },
        tools_in(Shape::Google, JsonView::Array(ts)) matches JsonView::Array(entries)
            && entries.len() == 1 && (entries[0].field("functionDeclarations"@) matches Some(
            JsonView::Array(ds),
        ) && {
            &&& ds.len() == ts.len()
            &&& ds[i].field("name"@) == Some(name)
            &&& ds[i].field("description"@) == Some(description)
            &&& ds[i].field("parameters"@) == Some(parameters)
        }),
{
    lemma_body_keys();
    lemma_decls(Shape::Responses, ts);
    lemma_decls(Shape::Anthropic, ts);
    lemma_decls(Shape::Google, ts);
    assert(tool_decl(Shape::Responses, ts[i]) is Some);
    assert(tool_decl(Shape::Anthropic, ts[i]) is Some);
    assert(tool_decl(Shape::Google, ts[i]) is Some);
}

/// The key goes to each vendor in the header that it reads, and nowhere without a key.
pub proof fn law_key_is_in_header(key: Seq<char>)
    ensures
        headers_of(Vendor::Chat, Some(key)) == seq![("Authorization"@, "Bearer "@ + key)],
        headers_of(Vendor::Responses, Some(key)) == seq![("Authorization"@, "Bearer "@ + key)],
        headers_of(Vendor::Anthropic, Some(key)) == seq![
            ("anthropic-version"@, "2023-06-01"@),
            ("x-api-key"@, key),
        ],
        headers_of(Vendor::Google, Some(key)) == seq![("x-goog-api-key"@, key)],
        headers_of(Vendor::Chat, None).len() == 0,
        headers_of(Vendor::Responses, None).len() == 0,
        headers_of(Vendor::Google, None).len() == 0,
        headers_of(Vendor::Anthropic, None) == seq![("anthropic-version"@, "2023-06-01"@)],
{
    assert(headers_of(Vendor::Anthropic, Some(key)) =~= seq![
        ("anthropic-version"@, "2023-06-01"@),
        ("x-api-key"@, key),
    ]);
    assert(headers_of(Vendor::Google, Some(key)) =~= seq![("x-goog-api-key"@, key)]);
    assert(headers_of(Vendor::Chat, Some(key)) =~= seq![("Authorization"@, "Bearer "@ + key)]);
    assert(headers_of(Vendor::Responses, Some(key)) =~= seq![("Authorization"@, "Bearer "@ + key)]);
}

/// A base address to which a route can be added as it stands.
pub open spec fn clean_base(base: Seq<char>) -> bool {
    base.len() > 0 && !text::white_space(base[0]) && !text::white_space(base.last()) && base.last()
        != '/'
}

proof fn lemma_clean(base: Seq<char>)
    requires
        clean_base(base),
    ensures
        base_of(base) == base,
        base_of(base.push('/')) == base,
{
    let slashed = base.push('/');
    assert(!text::white_space('/'));
    assert(slashed[0] == base[0] && slashed.last() == '/');
    assert(text::trimmed(base) == base);
    assert(text::trimmed(slashed) == slashed);
    assert(slashed.drop_last() =~= base);
    assert(text::without_end(base, '/') == base);
}

/// A request goes to the base address with the route of its vendor behind it, whether the base
/// ends in a slash or not. Google's route names the model.
pub proof fn law_request_goes_to_route(p: CloudView, base: Seq<char>)
    requires
        clean_base(base),
        p.base_url == base || p.base_url == base.push('/'),
        p.router.len() == 0,
    ensures
        url_of(Vendor::Chat, p) == base + "/chat/completions"@,
        url_of(Vendor::Responses, p) == base + "/responses"@,
        url_of(Vendor::Anthropic, p) == base + "/v1/messages"@,
        url_of(Vendor::Google, p) == base + "/models/"@ + p.model + ":"@ + "streamGenerateContent"@
            + "?alt=sse"@,
        models_url_of(p) == base + "/models"@,
{
    lemma_clean(base);
    reveal_strlit("/");
    reveal_strlit("/chat/completions");
    reveal_strlit("/responses");
    reveal_strlit("/v1/messages");
    reveal_strlit("/models");
    assert("/chat/completions"@.subrange(0, 1) =~= "/"@);
    assert("/responses"@.subrange(0, 1) =~= "/"@);
    assert("/v1/messages"@.subrange(0, 1) =~= "/"@);
    assert("/models"@.subrange(0, 1) =~= "/"@);
    assert(!text::white_space('/'));
    assert(text::trimmed("/models"@) == "/models"@) by {
        assert("/models"@[0] == '/');
        assert("/models"@.last() == 's');
        assert(!text::white_space('s'));
    }
}

/// A route of the user's own takes the place of the vendor's, with one slash before it.
pub proof fn law_own_route_is_taken(p: CloudView, base: Seq<char>, route: Seq<char>)
    requires
        clean_base(base),
        p.base_url == base || p.base_url == base.push('/'),
        route.len() > 0,
        !text::white_space(route[0]),
        !text::white_space(route.last()),
        route[0] != '/',
    ensures
        p.router == route ==> url_of(Vendor::Chat, p) == base + "/"@ + route && url_of(
            Vendor::Responses,
            p,
        ) == base + "/"@ + route && url_of(Vendor::Anthropic, p) == base + "/"@ + route && url_of(
            Vendor::Google,
            p,
        ) == base + "/models/"@ + p.model + ":"@ + route + "?alt=sse"@,
        p.router == "/"@ + route ==> url_of(Vendor::Chat, p) == base + ("/"@ + route) && url_of(
            Vendor::Anthropic,
            p,
        ) == base + ("/"@ + route) && url_of(Vendor::Google, p) == base + "/models/"@ + p.model
            + ":"@ + route + "?alt=sse"@,
{
    lemma_clean(base);
    reveal_strlit("/");
    assert(!text::white_space('/'));
    let slashed = "/"@ + route;
    assert(text::trimmed(route) == route);
    assert(slashed[0] == '/' && slashed.last() == route.last());
    assert(text::trimmed(slashed) == slashed);
    assert(slashed.subrange(0, 1) =~= "/"@);
    assert(slashed.subrange(1, slashed.len() as int) =~= route);
    assert(route.subrange(0, 1)[0] == route[0]);
    assert(text::without_start(route, '/') == route);
    assert(text::without_start(slashed, '/') == route);
}

/// The way to talk to a provider follows from its vendor; with OpenAI, from whether the route
/// names the responses API.
pub proof fn law_vendor_is_of_provider(router: Seq<char>)
    ensures
        vendor_of(CloudKind::Anthropic, router) == Vendor::Anthropic,
        vendor_of(CloudKind::Google, router) == Vendor::Google,
        text::has(router, "responses"@) ==> vendor_of(CloudKind::OpenAi, router)
            == Vendor::Responses,
        !text::has(router, "responses"@) ==> vendor_of(CloudKind::OpenAi, router) == Vendor::Chat,
{
}

/// Every model that a vendor lists is found, in order: under its id, or under the name without
/// the mark that Google puts before it.
pub proof fn law_listed_models_are_found(
    kind: CloudKind,
    body: JsonView,
    entries: Seq<JsonView>,
    names: Seq<Seq<char>>,
)
    requires
        entries.len() == names.len(),
        kind != CloudKind::Google ==> body.field("data"@) == Some(JsonView::Array(entries)),
        kind == CloudKind::Google ==> body.field("models"@) == Some(JsonView::Array(entries)),
        forall|i: int|
            #![trigger entries[i]]
            0 <= i < entries.len() ==> (kind != CloudKind::Google ==> entries[i].field("id"@)
                == Some(JsonView::Text(names[i]))) && (kind == CloudKind::Google
                ==> entries[i].field("name"@) == Some(JsonView::Text("models/"@ + names[i]))),
    ensures
        listed(kind, body) == names,
{
    lemma_model_ids(kind, entries, names);
}

proof fn lemma_model_ids(kind: CloudKind, entries: Seq<JsonView>, names: Seq<Seq<char>>)
    requires
        entries.len() == names.len(),
        forall|i: int|
            #![trigger entries[i]]
            0 <= i < entries.len() ==> (kind != CloudKind::Google ==> entries[i].field("id"@)
                == Some(JsonView::Text(names[i]))) && (kind == CloudKind::Google
                ==> entries[i].field("name"@) == Some(JsonView::Text("models/"@ + names[i]))),
    ensures
        model_ids(kind, entries) == names,
    decreases entries.len(),
{
    if entries.len() > 0 {
        let less = entries.drop_last();
        let n = entries.len() - 1;
        assert forall|i: int|
            #![trigger less[i]]
            0 <= i < less.len() implies (kind != CloudKind::Google ==> less[i].field("id"@) == Some(
            JsonView::Text(names.drop_last()[i]),
        )) && (kind == CloudKind::Google ==> less[i].field("name"@) == Some(
            JsonView::Text("models/"@ + names.drop_last()[i]),
        )) by {
            assert(less[i] == entries[i]);
        }
        lemma_model_ids(kind, less, names.drop_last());
        assert(entries[n] == entries.last());
        let full = "models/"@ + names[n];
        let k = "models/"@.len() as int;
        assert(full.subrange(0, k) =~= "models/"@);
        assert(full.subrange(k, full.len() as int) =~= names[n]);
        assert(names =~= names.drop_last().push(names[n]));
    } else {
        assert(names =~= Seq::empty());
    }
}

/// The error of a refused request tells what was asked, the status and all that came back.
pub proof fn law_refusal_is_told(method: Seq<char>, url: Seq<char>, status: nat, body: Seq<char>)
    ensures
        http_failure(method, url, status, body) == method + " "@ + url + " -> HTTP "@
            + text::decimal(status) + ": "@ + body,
{
}

} // verus!
