//! The local language runtime: which native calls its methods make, in which order, and what
//! their outcomes mean. The calls themselves are made by whoever holds the native library.

use vstd::prelude::*;

use crate::chat;
use crate::chat::{ChatMessage, GenerationType, GenerationView, ToolCall, ToolCallView};
use crate::error::{Error, ErrorView};
use crate::json;
use crate::json::{Json, JsonView};
use crate::native;
use crate::native::{libia_generation_kind, libia_option_kind, libia_params, libia_runtime};
use crate::text;
use crate::tool_text;
use crate::wire;

verus! {

/// A call that changes the parameters of the runtime. Temperatures and the like are carried as
/// the bit patterns of 64-bit floats.
#[allow(inconsistent_fields)]
#[derive(Debug, PartialEq)]
pub enum ParamCall {
    ModelPath(String),
    NCtx(usize),
    NPredict(usize),
    NBatch(usize),
    NUbatch(usize),
    Temp(u64),
    TopP(u64),
    TopK(usize),
    GpuLayers(String),
    MmprojPath(String),
    SystemPrompt(String),
    Prompt(String),
    UseJinja(bool),
    ReasoningFormat(String),
    EnableReasoning(i64),
    EnableThinking(bool),
    SetOption { name: String, value: String },
    SetInt { name: String, value: i64 },
    SetString { name: String, value: String },
    SetBool { name: String, value: bool },
    SetFlag { name: String, value: bool },
    ToolsJson(String),
}

/// The model of a call that changes the parameters.
#[allow(inconsistent_fields)]
#[verifier::ext_equal]
pub enum ParamView {
    ModelPath(Seq<char>),
    NCtx(nat),
    NPredict(nat),
    NBatch(nat),
    NUbatch(nat),
    Temp(u64),
    TopP(u64),
    TopK(nat),
    GpuLayers(Seq<char>),
    MmprojPath(Seq<char>),
    SystemPrompt(Seq<char>),
    Prompt(Seq<char>),
    UseJinja(bool),
    ReasoningFormat(Seq<char>),
    EnableReasoning(i64),
    EnableThinking(bool),
    SetOption { name: Seq<char>, value: Seq<char> },
    SetInt { name: Seq<char>, value: i64 },
    SetString { name: Seq<char>, value: Seq<char> },
    SetBool { name: Seq<char>, value: bool },
    SetFlag { name: Seq<char>, value: bool },
    ToolsJson(Seq<char>),
}

impl View for ParamCall {
    type V = ParamView;

    open spec fn view(&self) -> ParamView {
        match self {
            ParamCall::ModelPath(s) => ParamView::ModelPath(s@),
            ParamCall::NCtx(n) => ParamView::NCtx(*n as nat),
            ParamCall::NPredict(n) => ParamView::NPredict(*n as nat),
            ParamCall::NBatch(n) => ParamView::NBatch(*n as nat),
            ParamCall::NUbatch(n) => ParamView::NUbatch(*n as nat),
            ParamCall::Temp(b) => ParamView::Temp(*b),
            ParamCall::TopP(b) => ParamView::TopP(*b),
            ParamCall::TopK(n) => ParamView::TopK(*n as nat),
            ParamCall::GpuLayers(s) => ParamView::GpuLayers(s@),
            ParamCall::MmprojPath(s) => ParamView::MmprojPath(s@),
            ParamCall::SystemPrompt(s) => ParamView::SystemPrompt(s@),
            ParamCall::Prompt(s) => ParamView::Prompt(s@),
            ParamCall::UseJinja(b) => ParamView::UseJinja(*b),
            ParamCall::ReasoningFormat(s) => ParamView::ReasoningFormat(s@),
            ParamCall::EnableReasoning(n) => ParamView::EnableReasoning(*n),
            ParamCall::EnableThinking(b) => ParamView::EnableThinking(*b),
            ParamCall::SetOption { name, value } => ParamView::SetOption {
                name: name@,
                value: value@,
            },
            ParamCall::SetInt { name, value } => ParamView::SetInt { name: name@, value: *value },
            ParamCall::SetString { name, value } => ParamView::SetString {
                name: name@,
                value: value@,
            },
            ParamCall::SetBool { name, value } => ParamView::SetBool { name: name@, value: *value },
            ParamCall::SetFlag { name, value } => ParamView::SetFlag { name: name@, value: *value },
            ParamCall::ToolsJson(s) => ParamView::ToolsJson(s@),
        }
    }
}

/// The texts that a call hands over, in their order.
pub open spec fn param_texts(c: ParamView) -> Seq<Seq<char>> {
    match c {
        ParamView::ModelPath(s) => seq![s],
        ParamView::GpuLayers(s) => seq![s],
        ParamView::MmprojPath(s) => seq![s],
        ParamView::SystemPrompt(s) => seq![s],
        ParamView::Prompt(s) => seq![s],
        ParamView::ReasoningFormat(s) => seq![s],
        ParamView::SetOption { name, value } => seq![name, value],
        ParamView::SetInt { name, .. } => seq![name],
        ParamView::SetString { name, value } => seq![name, value],
        ParamView::SetBool { name, .. } => seq![name],
        ParamView::SetFlag { name, .. } => seq![name],
        ParamView::ToolsJson(s) => seq![s],
        _ => Seq::empty(),
    }
}

/// The first of some texts that holds a NUL.
pub open spec fn first_nul(texts: Seq<Seq<char>>) -> Option<Seq<char>>
    decreases texts.len(),
{
    if texts.len() == 0 {
        None
    } else if native::has_nul(texts[0]) {
        Some(texts[0])
    } else {
        first_nul(texts.subrange(1, texts.len() as int))
    }
}

/// A call that is handed over only if its texts hold no NUL.
pub open spec fn checked(c: ParamView) -> Result<ParamView, ErrorView> {
    match first_nul(param_texts(c)) {
        Some(t) => Err(ErrorView::NulByte(t)),
        None => Ok(c),
    }
}

/// The words for a call that the runtime refused and did not explain.
pub open spec fn param_failure(c: ParamView) -> Seq<char> {
    match c {
        ParamView::ModelPath(_) => "failed to set model path"@,
        ParamView::NCtx(_) => "failed to set context size"@,
        ParamView::NPredict(_) => "failed to set n_predict"@,
        ParamView::NBatch(_) => "failed to set n_batch"@,
        ParamView::NUbatch(_) => "failed to set n_ubatch"@,
        ParamView::Temp(_) => "failed to set temp"@,
        ParamView::TopP(_) => "failed to set top_p"@,
        ParamView::TopK(_) => "failed to set top_k"@,
        ParamView::GpuLayers(_) => "failed to set gpu layers"@,
        ParamView::MmprojPath(_) => "failed to set mmproj path"@,
        ParamView::SystemPrompt(_) => "failed to set system prompt"@,
        ParamView::Prompt(_) => "failed to set prompt"@,
        ParamView::UseJinja(_) => "failed to set use_jinja"@,
        ParamView::ReasoningFormat(_) => "failed to set reasoning_format"@,
        ParamView::EnableReasoning(_) => "failed to set enable_reasoning"@,
        ParamView::EnableThinking(_) => "failed to set enable_thinking"@,
        ParamView::SetOption { name, .. } => "failed to set option "@ + name,
        ParamView::SetInt { name, .. } => "failed to set int option "@ + name,
        ParamView::SetString { name, .. } => "failed to set string option "@ + name,
        ParamView::SetBool { name, .. } => "failed to set bool option "@ + name,
        ParamView::SetFlag { name, .. } => "failed to set option "@ + name,
        ParamView::ToolsJson(_) => "failed to set tools json"@,
    }
}

/// The runtime explains a refusal of such a call.
pub open spec fn explains(c: ParamView) -> bool {
    c is SetInt || c is SetString || c is SetBool || c is ToolsJson
}

/// The model of a checked call.
pub open spec fn call_view(r: Result<ParamCall, Error>) -> Result<ParamView, ErrorView> {
    match r {
        Ok(c) => Ok(c@),
        Err(e) => Err(e@),
    }
}

proof fn lemma_first_nul_one(s: Seq<char>)
    ensures
        first_nul(seq![s]) == if native::has_nul(s) {
            Some(s)
        } else {
            None
        },
{
    assert(seq![s].subrange(1, 1) =~= Seq::empty());
    assert(first_nul(seq![s].subrange(1, 1)) is None);
}

proof fn lemma_first_nul_two(a: Seq<char>, b: Seq<char>)
    ensures
        first_nul(seq![a, b]) == if native::has_nul(a) {
            Some(a)
        } else if native::has_nul(b) {
            Some(b)
        } else {
            None
        },
{
    lemma_first_nul_one(b);
    assert(seq![a, b].subrange(1, 2) =~= seq![b]);
}

fn nul_in(c: &ParamCall) -> (r: Option<Error>)
    ensures
        match r {
            Some(e) => checked(c@) == Err::<ParamView, ErrorView>(e@),
            None => checked(c@) == Ok::<ParamView, ErrorView>(c@),
        },
{
    let first: Option<&String> = match c {
        ParamCall::ModelPath(s) => Some(s),
        ParamCall::GpuLayers(s) => Some(s),
        ParamCall::MmprojPath(s) => Some(s),
        ParamCall::SystemPrompt(s) => Some(s),
        ParamCall::Prompt(s) => Some(s),
        ParamCall::ReasoningFormat(s) => Some(s),
        ParamCall::SetOption { name, .. } => Some(name),
        ParamCall::SetInt { name, .. } => Some(name),
        ParamCall::SetString { name, .. } => Some(name),
        ParamCall::SetBool { name, .. } => Some(name),
        ParamCall::SetFlag { name, .. } => Some(name),
        ParamCall::ToolsJson(s) => Some(s),
        _ => None,
    };
    let second: Option<&String> = match c {
        ParamCall::SetOption { value, .. } => Some(value),
        ParamCall::SetString { value, .. } => Some(value),
        _ => None,
    };
    proof {
        match (first, second) {
            (Some(a), Some(b)) => {
                lemma_first_nul_two(a@, b@);
                assert(param_texts(c@) =~= seq![a@, b@]);
            },
            (Some(a), None) => {
                lemma_first_nul_one(a@);
                assert(param_texts(c@) =~= seq![a@]);
            },
            _ => {
                assert(param_texts(c@) =~= Seq::empty());
            },
        }
    }
    match first {
        Some(s) => {
            if native::contains_nul(s.as_str()) {
                return Some(Error::NulByte(s.clone()));
            }
        },
        None => {
            return None;
        },
    }
    match second {
        Some(s) => if native::contains_nul(s.as_str()) {
            Some(Error::NulByte(s.clone()))
        } else {
            None
        },
        None => None,
    }
}

fn check(c: ParamCall) -> (r: Result<ParamCall, Error>)
    ensures
        call_view(r) == checked(c@),
{
    match nul_in(&c) {
        Some(e) => Err(e),
        None => Ok(c),
    }
}

fn failure_text(c: &ParamCall) -> (r: String)
    ensures
        r@ == param_failure(c@),
{
    match c {
        ParamCall::ModelPath(_) => "failed to set model path".to_string(),
        ParamCall::NCtx(_) => "failed to set context size".to_string(),
        ParamCall::NPredict(_) => "failed to set n_predict".to_string(),
        ParamCall::NBatch(_) => "failed to set n_batch".to_string(),
        ParamCall::NUbatch(_) => "failed to set n_ubatch".to_string(),
        ParamCall::Temp(_) => "failed to set temp".to_string(),
        ParamCall::TopP(_) => "failed to set top_p".to_string(),
        ParamCall::TopK(_) => "failed to set top_k".to_string(),
        ParamCall::GpuLayers(_) => "failed to set gpu layers".to_string(),
        ParamCall::MmprojPath(_) => "failed to set mmproj path".to_string(),
        ParamCall::SystemPrompt(_) => "failed to set system prompt".to_string(),
        ParamCall::Prompt(_) => "failed to set prompt".to_string(),
        ParamCall::UseJinja(_) => "failed to set use_jinja".to_string(),
        ParamCall::ReasoningFormat(_) => "failed to set reasoning_format".to_string(),
        ParamCall::EnableReasoning(_) => "failed to set enable_reasoning".to_string(),
        ParamCall::EnableThinking(_) => "failed to set enable_thinking".to_string(),
        ParamCall::SetOption { name, .. } => text::cat2("failed to set option ", name.as_str()),
        ParamCall::SetInt { name, .. } => text::cat2("failed to set int option ", name.as_str()),
        ParamCall::SetString { name, .. } => text::cat2(
            "failed to set string option ",
            name.as_str(),
        ),
        ParamCall::SetBool { name, .. } => text::cat2("failed to set bool option ", name.as_str()),
        ParamCall::SetFlag { name, .. } => text::cat2("failed to set option ", name.as_str()),
        ParamCall::ToolsJson(_) => "failed to set tools json".to_string(),
    }
}

/// What came of a call: success, or the refusal, in the runtime's words where it explains.
pub open spec fn param_outcome(c: ParamView, ok: bool, native: Option<Seq<char>>) -> Result<
    (),
    ErrorView,
> {
    if ok {
        Ok(())
    } else {
        Err(
            native::refusal(
                if explains(c) {
                    native
                } else {
                    None
                },
                param_failure(c),
            ),
        )
    }
}

/// The model of an outcome without a value.
pub open spec fn unit_view(r: Result<(), Error>) -> Result<(), ErrorView> {
    match r {
        Ok(_) => Ok(()),
        Err(e) => Err(e@),
    }
}

/// Tells what came of a call.
pub fn call_outcome(c: &ParamCall, ok: bool, native: Option<String>) -> (r: Result<(), Error>)
    ensures
        unit_view(r) == param_outcome(c@, ok, text::opt_view(native)),
{
    let heard = match c {
        ParamCall::SetInt { .. } => native,
        ParamCall::SetString { .. } => native,
        ParamCall::SetBool { .. } => native,
        ParamCall::ToolsJson(_) => native,
        _ => None,
    };
    let words = failure_text(c);
    native::native_outcome(ok, heard, words.as_str())
}

proof fn lemma_spec_names()
    ensures
        native::prop_name("--spec-type"@) == "--spec-type"@,
        native::prop_name("--spec-draft-model"@) == "--spec-draft-model"@,
        native::prop_name("--spec-draft-n-max"@) == "--spec-draft-n-max"@,
        native::prop_name("--spec-draft-n-min"@) == "--spec-draft-n-min"@,
        native::prop_name("--spec-draft-backend-sampling"@) == "--spec-draft-backend-sampling"@,
        native::prop_name("--spec-draft-ngl"@) == "--spec-draft-ngl"@,
{
    reveal_strlit("--spec-type");
    reveal_strlit("--spec-draft-model");
    reveal_strlit("--spec-draft-n-max");
    reveal_strlit("--spec-draft-n-min");
    reveal_strlit("--spec-draft-backend-sampling");
    reveal_strlit("--spec-draft-ngl");
    native::lemma_plain_name("--spec-type"@);
    native::lemma_plain_name("--spec-draft-model"@);
    native::lemma_plain_name("--spec-draft-n-max"@);
    native::lemma_plain_name("--spec-draft-n-min"@);
    native::lemma_plain_name("--spec-draft-backend-sampling"@);
    native::lemma_plain_name("--spec-draft-ngl"@);
}

/// The settings with which a runtime starts. The temperature and `top_p` are the bit patterns of
/// 64-bit floats.
#[derive(Debug, PartialEq)]
pub struct RuntimeSettings {
    pub model_path: String,
    pub ctx: usize,
    pub n_predict: usize,
    pub n_batch: usize,
    pub n_ubatch: usize,
    pub temp: u64,
    pub top_p: u64,
    pub top_k: usize,
    pub mmproj_path: Option<String>,
    pub ngl: Option<usize>,
    pub system_prompt: Option<String>,
}

/// The calls with which a runtime starts, before their texts are looked at.
pub open spec fn start_calls(s: RuntimeSettings) -> Seq<ParamView> {
    let base = seq![
        ParamView::ModelPath(s.model_path@),
        ParamView::NCtx(s.ctx as nat),
        ParamView::NPredict(s.n_predict as nat),
        ParamView::NBatch(s.n_batch as nat),
        ParamView::NUbatch(s.n_ubatch as nat),
        ParamView::Temp(s.temp),
        ParamView::TopP(s.top_p),
        ParamView::TopK(s.top_k as nat),
    ];
    let layers = match s.ngl {
        Some(n) => base.push(ParamView::GpuLayers(text::decimal(n as nat))),
        None => base,
    };
    let projected = match s.mmproj_path {
        Some(p) => layers.push(ParamView::MmprojPath(p@)),
        None => layers,
    };
    match s.system_prompt {
        Some(p) => projected.push(ParamView::SystemPrompt(p@)),
        None => projected,
    }
}

/// The calls up to the first whose text holds a NUL.
pub open spec fn runnable(calls: Seq<ParamView>) -> Seq<ParamView>
    decreases calls.len(),
{
    if calls.len() == 0 || checked(calls[0]) is Err {
        Seq::empty()
    } else {
        seq![calls[0]] + runnable(calls.subrange(1, calls.len() as int))
    }
}

/// The error at which calls stop, if a text holds a NUL.
pub open spec fn stop_of(calls: Seq<ParamView>) -> Option<ErrorView>
    decreases calls.len(),
{
    if calls.len() == 0 {
        None
    } else {
        match checked(calls[0]) {
            Err(e) => Some(e),
            Ok(_) => stop_of(calls.subrange(1, calls.len() as int)),
        }
    }
}

fn all_start_calls(s: RuntimeSettings) -> (r: Vec<ParamCall>)
    ensures
        text::views(r@) == start_calls(s),
{
    let mut calls: Vec<ParamCall> = Vec::new();
    calls.push(ParamCall::ModelPath(s.model_path));
    calls.push(ParamCall::NCtx(s.ctx));
    calls.push(ParamCall::NPredict(s.n_predict));
    calls.push(ParamCall::NBatch(s.n_batch));
    calls.push(ParamCall::NUbatch(s.n_ubatch));
    calls.push(ParamCall::Temp(s.temp));
    calls.push(ParamCall::TopP(s.top_p));
    calls.push(ParamCall::TopK(s.top_k));
    match s.ngl {
        Some(n) => {
            calls.push(ParamCall::GpuLayers(text::write_usize(n)));
        },
        None => {},
    }
    match s.mmproj_path {
        Some(p) => {
            calls.push(ParamCall::MmprojPath(p));
        },
        None => {},
    }
    match s.system_prompt {
        Some(p) => {
            calls.push(ParamCall::SystemPrompt(p));
        },
        None => {},
    }
    assert(text::views(calls@) =~= start_calls(s));
    calls
}

fn copy_call(c: &ParamCall) -> (r: ParamCall)
    ensures
        r@ == c@,
{
    match c {
        ParamCall::ModelPath(s) => ParamCall::ModelPath(s.clone()),
        ParamCall::NCtx(n) => ParamCall::NCtx(*n),
        ParamCall::NPredict(n) => ParamCall::NPredict(*n),
        ParamCall::NBatch(n) => ParamCall::NBatch(*n),
        ParamCall::NUbatch(n) => ParamCall::NUbatch(*n),
        ParamCall::Temp(b) => ParamCall::Temp(*b),
        ParamCall::TopP(b) => ParamCall::TopP(*b),
        ParamCall::TopK(n) => ParamCall::TopK(*n),
        ParamCall::GpuLayers(s) => ParamCall::GpuLayers(s.clone()),
        ParamCall::MmprojPath(s) => ParamCall::MmprojPath(s.clone()),
        ParamCall::SystemPrompt(s) => ParamCall::SystemPrompt(s.clone()),
        ParamCall::Prompt(s) => ParamCall::Prompt(s.clone()),
        ParamCall::UseJinja(b) => ParamCall::UseJinja(*b),
        ParamCall::ReasoningFormat(s) => ParamCall::ReasoningFormat(s.clone()),
        ParamCall::EnableReasoning(n) => ParamCall::EnableReasoning(*n),
        ParamCall::EnableThinking(b) => ParamCall::EnableThinking(*b),
        ParamCall::SetOption { name, value } => ParamCall::SetOption {
            name: name.clone(),
            value: value.clone(),
        },
        ParamCall::SetInt { name, value } => ParamCall::SetInt {
            name: name.clone(),
            value: *value,
        },
        ParamCall::SetString { name, value } => ParamCall::SetString {
            name: name.clone(),
            value: value.clone(),
        },
        ParamCall::SetBool { name, value } => ParamCall::SetBool {
            name: name.clone(),
            value: *value,
        },
        ParamCall::SetFlag { name, value } => ParamCall::SetFlag {
            name: name.clone(),
            value: *value,
        },
        ParamCall::ToolsJson(s) => ParamCall::ToolsJson(s.clone()),
    }
}

/// The local language runtime: its parameters, the runtime where one was made, and whether the
/// parameters have changed since.
pub struct RuntimeLlama {
    pub params: libia_params,
    pub runtime: Option<libia_runtime>,
    pub dirty: bool,
}

/// What is to be done to start: the calls in their order, and the error at which to stop after
/// them, if any.
#[derive(Debug, PartialEq)]
pub struct StartPlan {
    pub calls: Vec<ParamCall>,
    pub stop: Option<Error>,
}

/// Plans calls: those up to the first whose text holds a NUL, and the error for that one.
pub fn plan_calls(all: &Vec<ParamCall>) -> (r: StartPlan)
    ensures
        text::views(r.calls@) == runnable(text::views(all@)),
        text::opt_view(r.stop) == stop_of(text::views(all@)),
{
    let ghost wanted = text::views(all@);
    let mut calls: Vec<ParamCall> = Vec::new();
    let mut i: usize = 0;
    assert(wanted.subrange(0, wanted.len() as int) =~= wanted);
    assert(text::views(calls@) + runnable(wanted) =~= runnable(wanted));
    while i < all.len()
        invariant
            i <= all@.len(),
            wanted == text::views(all@),
            runnable(wanted) == text::views(calls@) + runnable(
                wanted.subrange(i as int, wanted.len() as int),
            ),
            stop_of(wanted) == stop_of(wanted.subrange(i as int, wanted.len() as int)),
        decreases all@.len() - i,
    {
        let ghost rest = wanted.subrange(i as int, wanted.len() as int);
        assert(rest[0] == all@[i as int]@);
        assert(rest.subrange(1, rest.len() as int) =~= wanted.subrange(
            i + 1,
            wanted.len() as int,
        ));
        match nul_in(&all[i]) {
            Some(e) => {
                assert(text::views(calls@) + runnable(rest) =~= text::views(calls@));
                return StartPlan { calls, stop: Some(e) };
            },
            None => {
                let ghost before = text::views(calls@);
                calls.push(copy_call(&all[i]));
                proof {
                    let next = wanted.subrange(i + 1, wanted.len() as int);
                    assert(text::views(calls@) =~= before + seq![rest[0]]);
                    assert(before + (seq![rest[0]] + runnable(next)) =~= (before + seq![rest[0]])
                        + runnable(next));
                }
            },
        }
        i = i + 1;
    }
    assert(text::views(calls@) + runnable(wanted.subrange(i as int, wanted.len() as int))
        =~= text::views(calls@));
    StartPlan { calls, stop: None }
}

/// The calls whose texts hold no NUL.
pub open spec fn valid_only(calls: Seq<ParamView>) -> Seq<ParamView>
    decreases calls.len(),
{
    if calls.len() == 0 {
        Seq::empty()
    } else if checked(calls.last()) is Ok {
        valid_only(calls.drop_last()).push(calls.last())
    } else {
        valid_only(calls.drop_last())
    }
}

/// Leaves out the calls whose texts hold a NUL.
pub fn valid_calls(all: &Vec<ParamCall>) -> (r: Vec<ParamCall>)
    ensures
        text::views(r@) == valid_only(text::views(all@)),
{
    broadcast use text::lemma_views_push;

    let ghost wanted = text::views(all@);
    let mut out: Vec<ParamCall> = Vec::new();
    let mut i: usize = 0;
    assert(wanted.subrange(0, 0) =~= Seq::empty());
    assert(text::views(out@) =~= Seq::<ParamView>::empty());
    while i < all.len()
        invariant
            i <= all.len(),
            wanted == text::views(all@),
            text::views(out@) == valid_only(wanted.subrange(0, i as int)),
        decreases all.len() - i,
    {
        proof {
            let next = wanted.subrange(0, i + 1);
            assert(next.drop_last() =~= wanted.subrange(0, i as int));
            assert(next.last() == all@[i as int]@);
        }
        if nul_in(&all[i]).is_none() {
            out.push(copy_call(&all[i]));
        }
        i = i + 1;
    }
    assert(wanted.subrange(0, wanted.len() as int) =~= wanted);
    out
}

impl RuntimeLlama {
    /// The runtime whose parameters were made at the given address, and the calls with which it
    /// starts.
    pub fn try_new(address: usize, settings: RuntimeSettings) -> (r: Result<
        (RuntimeLlama, StartPlan),
        Error,
    >)
        ensures
            match r {
                Ok(p) => {
                    &&& address != 0
                    &&& p.0.params.address == address
                    &&& p.0.runtime is None
                    &&& p.0.dirty
                    &&& text::views(p.1.calls@) == runnable(start_calls(settings))
                    &&& text::opt_view(p.1.stop) == stop_of(start_calls(settings))
                },
                Err(e) => address == 0 && e@ == ErrorView::NullPointer("libia_params_create"@),
            },
    {
        if address == 0 {
            return Err(Error::NullPointer("libia_params_create"));
        }
        let all = all_start_calls(settings);
        let plan = plan_calls(&all);
        let runtime = RuntimeLlama {
            params: libia_params { address },
            runtime: None,
            dirty: true,
        };
        Ok((runtime, plan))
    }

    /// Whether a runtime was made.
    pub fn is_loaded(&self) -> (r: bool)
        ensures
            r == (self.runtime is Some),
    {
        self.runtime.is_some()
    }

    /// Takes the outcome of a call that changes the parameters: after a success the runtime is
    /// to be made anew.
    pub fn on_call(&mut self, c: &ParamCall, ok: bool, native: Option<String>) -> (r: Result<
        (),
        Error,
    >)
        ensures
            unit_view(r) == param_outcome(c@, ok, text::opt_view(native)),
            *final(self) == (RuntimeLlama { dirty: old(self).dirty || ok, ..*old(self) }),
    {
        if ok {
            self.dirty = true;
        }
        call_outcome(c, ok, native)
    }

    /// What is to be done before the runtime is used: whether the present one is to be given up,
    /// and whether one is to be made. The parameters then count as taken over.
    pub fn begin_ensure(&mut self) -> (r: (bool, bool))
        ensures
            r.0 == (old(self).dirty && old(self).runtime is Some),
            r.1 == (old(self).dirty || old(self).runtime is None),
            *final(self) == (RuntimeLlama {
                params: old(self).params,
                runtime: if old(self).dirty {
                    None
                } else {
                    old(self).runtime
                },
                dirty: false,
            }),
    {
        let give_up = self.dirty && self.runtime.is_some();
        if self.dirty {
            self.runtime = None;
            self.dirty = false;
        }
        (give_up, self.runtime.is_none())
    }

    /// Takes the address at which a runtime was made.
    pub fn on_created(&mut self, address: usize) -> (r: Result<(), Error>)
        ensures
            match r {
                Ok(_) => address != 0 && *final(self) == (RuntimeLlama {
                    runtime: Some(libia_runtime { address }),
                    ..*old(self)
                }),
                Err(e) => address == 0 && *final(self) == *old(self) && e@
                    == ErrorView::NullPointer("libia_runtime_create"@),
            },
    {
        if address == 0 {
            return Err(Error::NullPointer("libia_runtime_create"));
        }
        self.runtime = Some(libia_runtime { address });
        Ok(())
    }

    /// Takes the outcome of loading the model.
    pub fn on_loaded(&self, ok: bool, native: Option<String>) -> (r: Result<(), Error>)
        ensures
            unit_view(r) == if ok {
                Ok(())
            } else {
                Err(native::refusal(text::opt_view(native), "failed to load runtime"@))
            },
    {
        native::native_outcome(ok, native, "failed to load runtime")
    }

    /// Gives the runtime up; says whether there was one to unload.
    pub fn unload(&mut self) -> (r: bool)
        ensures
            r == (old(self).runtime is Some),
            *final(self) == (RuntimeLlama { runtime: None, ..*old(self) }),
    {
        let had = self.runtime.is_some();
        self.runtime = None;
        had
    }

    /// The runtime whose generation is to be cancelled; none where none was made.
    pub fn cancel_generation(&self) -> (r: Option<libia_runtime>)
        ensures
            r == self.runtime,
    {
        self.runtime
    }

    pub fn set_prompt(&self, prompt: &str) -> (r: Result<ParamCall, Error>)
        ensures
            call_view(r) == checked(ParamView::Prompt(prompt@)),
    {
        check(ParamCall::Prompt(prompt.to_string()))
    }

    pub fn set_system_prompt(&self, prompt: &str) -> (r: Result<ParamCall, Error>)
        ensures
            call_view(r) == checked(ParamView::SystemPrompt(prompt@)),
    {
        check(ParamCall::SystemPrompt(prompt.to_string()))
    }

    pub fn set_use_jinja(&self, value: bool) -> (r: Result<ParamCall, Error>)
        ensures
            call_view(r) == Ok::<ParamView, ErrorView>(ParamView::UseJinja(value)),
    {
        check(ParamCall::UseJinja(value))
    }

    pub fn set_reasoning_format(&self, value: &str) -> (r: Result<ParamCall, Error>)
        ensures
            call_view(r) == checked(ParamView::ReasoningFormat(value@)),
    {
        check(ParamCall::ReasoningFormat(value.to_string()))
    }

    pub fn set_enable_reasoning(&self, value: i64) -> (r: Result<ParamCall, Error>)
        ensures
            call_view(r) == Ok::<ParamView, ErrorView>(ParamView::EnableReasoning(value)),
    {
        check(ParamCall::EnableReasoning(value))
    }

    pub fn set_enable_thinking(&self, value: bool) -> (r: Result<ParamCall, Error>)
        ensures
            call_view(r) == Ok::<ParamView, ErrorView>(ParamView::EnableThinking(value)),
    {
        check(ParamCall::EnableThinking(value))
    }

    /// Sets an option under its normalized name.
    pub fn set_prop(&self, prop: &str, value: &str) -> (r: Result<ParamCall, Error>)
        ensures
            call_view(r) == checked(
                ParamView::SetOption { name: native::prop_name(prop@), value: value@ },
            ),
    {
        let name = native::normalize_prop_name(prop);
        check(ParamCall::SetOption { name, value: value.to_string() })
    }

    pub fn set_int_prop(&self, prop: &str, value: i64) -> (r: Result<ParamCall, Error>)
        ensures
            call_view(r) == checked(ParamView::SetInt { name: prop@, value }),
    {
        check(ParamCall::SetInt { name: prop.to_string(), value })
    }

    pub fn set_string_prop(&self, prop: &str, value: &str) -> (r: Result<ParamCall, Error>)
        ensures
            call_view(r) == checked(ParamView::SetString { name: prop@, value: value@ }),
    {
        check(ParamCall::SetString { name: prop.to_string(), value: value.to_string() })
    }

    pub fn set_bool_prop_raw(&self, prop: &str, value: bool) -> (r: Result<ParamCall, Error>)
        ensures
            call_view(r) == checked(ParamView::SetBool { name: prop@, value }),
    {
        check(ParamCall::SetBool { name: prop.to_string(), value })
    }

    /// Sets a flag under its normalized name.
    pub fn set_bool_prop(&self, prop: &str, value: bool) -> (r: Result<ParamCall, Error>)
        ensures
            call_view(r) == checked(ParamView::SetFlag { name: native::prop_name(prop@), value }),
    {
        let name = native::normalize_prop_name(prop);
        check(ParamCall::SetFlag { name, value })
    }

    pub fn set_tools_json(&self, tools_json: &str) -> (r: Result<ParamCall, Error>)
        ensures
            call_view(r) == checked(ParamView::ToolsJson(tools_json@)),
    {
        check(ParamCall::ToolsJson(tools_json.to_string()))
    }

    /// The normalized name under which an option is read.
    pub fn get_prop(&self, prop: &str) -> (r: Result<String, Error>)
        ensures
            match r {
                Ok(n) => n@ == native::prop_name(prop@) && !native::has_nul(n@),
                Err(e) => native::has_nul(native::prop_name(prop@)) && e@ == ErrorView::NulByte(
                    native::prop_name(prop@),
                ),
            },
    {
        let name = native::normalize_prop_name(prop);
        native::to_cstring(name.as_str())
    }

    pub fn set_speculative_type(&self, value: &str) -> (r: Result<ParamCall, Error>)
        ensures
            call_view(r) == checked(
                ParamView::SetOption { name: "--spec-type"@, value: value@ },
            ),
    {
        proof {
            lemma_spec_names();
        }
        self.set_prop("--spec-type", value)
    }

    /// The name of the option that holds the kind of speculation.
    pub fn speculative_type(&self) -> (r: String)
        ensures
            r@ == "--spec-type"@,
    {
        proof {
            lemma_spec_names();
        }
        native::normalize_prop_name("--spec-type")
    }

    pub fn set_spec_draft_model(&self, value: &str) -> (r: Result<ParamCall, Error>)
        ensures
            call_view(r) == checked(
                ParamView::SetOption {
                    name: "--spec-draft-model"@,
                    value: value@,
                },
            ),
    {
        proof {
            lemma_spec_names();
        }
        self.set_prop("--spec-draft-model", value)
    }

    /// The name of the option that holds the model of speculation.
    pub fn spec_draft_model(&self) -> (r: String)
        ensures
            r@ == "--spec-draft-model"@,
    {
        proof {
            lemma_spec_names();
        }
        native::normalize_prop_name("--spec-draft-model")
    }

    pub fn set_spec_draft_n_max(&self, value: i64) -> (r: Result<ParamCall, Error>)
        ensures
            call_view(r) == checked(
                ParamView::SetOption {
                    name: "--spec-draft-n-max"@,
                    value: text::decimal_int(value as int),
                },
            ),
    {
        proof {
            lemma_spec_names();
        }
        let v = text::write_i64(value);
        self.set_prop("--spec-draft-n-max", v.as_str())
    }

    pub fn set_spec_draft_n_min(&self, value: i64) -> (r: Result<ParamCall, Error>)
        ensures
            call_view(r) == checked(
                ParamView::SetOption {
                    name: "--spec-draft-n-min"@,
                    value: text::decimal_int(value as int),
                },
            ),
    {
        proof {
            lemma_spec_names();
        }
        let v = text::write_i64(value);
        self.set_prop("--spec-draft-n-min", v.as_str())
    }

    pub fn set_spec_draft_backend_sampling(&self, value: bool) -> (r: Result<ParamCall, Error>)
        ensures
            call_view(r) == checked(
                ParamView::SetOption {
                    name: "--spec-draft-backend-sampling"@,
                    value: if value {
                        "on"@
                    } else {
                        "off"@
                    },
                },
            ),
    {
        proof {
            lemma_spec_names();
        }
        self.set_prop(
            "--spec-draft-backend-sampling",
            if value {
                "on"
            } else {
                "off"
            },
        )
    }

    pub fn set_spec_draft_ngl(&self, value: i64) -> (r: Result<ParamCall, Error>)
        ensures
            call_view(r) == checked(
                ParamView::SetOption {
                    name: "--spec-draft-ngl"@,
                    value: text::decimal_int(value as int),
                },
            ),
    {
        proof {
            lemma_spec_names();
        }
        let v = text::write_i64(value);
        self.set_prop("--spec-draft-ngl", v.as_str())
    }
}

/// The model of a text, or of why there is none.
pub open spec fn text_view(r: Result<String, Error>) -> Result<Seq<char>, ErrorView> {
    match r {
        Ok(t) => Ok(t@),
        Err(e) => Err(e@),
    }
}

/// The bytes that a base64 text stands for, as `base64` decodes them; `None` where it refuses
/// the text.
pub uninterp spec fn base64_bytes(s: Seq<char>) -> Option<Seq<u8>>;

/// Decodes base64 (`base64::engine::general_purpose::STANDARD.decode`). The outcome is named
/// `base64_bytes`: it depends on the text alone.
#[verifier::external_body]
fn decode_base64(s: &str) -> (r: Option<Vec<u8>>)
    ensures
        text::opt_view(r) == base64_bytes(s@),
{
    base64::Engine::decode(&base64::engine::general_purpose::STANDARD, s).ok()
}

/// The base64 text of a media item: what follows the first `base64,`, or the whole.
pub open spec fn media_payload(data: Seq<char>) -> Seq<char> {
    match text::first_at(data, "base64,"@) {
        Some(i) => data.subrange(i + "base64,"@.len(), data.len() as int),
        None => data,
    }
}

/// Cuts a media item down to its base64 text.
pub fn payload_of(data: &str) -> (r: String)
    ensures
        r@ == media_payload(data@),
{
    let chars = text::chars_of(data);
    let mark = text::chars_of("base64,");
    match text::find_from(&chars, &mark, 0) {
        Some(i) => {
            let m: usize = mark.len();
            let n: usize = chars.len();
            text::text_of(&chars, i + m, n)
        },
        None => data.to_string(),
    }
}

/// The bytes of a media item, or the error where its text is no base64.
pub open spec fn media_bytes(decoded: Option<Seq<u8>>) -> Result<Seq<u8>, ErrorView> {
    match decoded {
        Some(b) => Ok(b),
        None => Err(ErrorView::Api("failed to decode base64 image"@)),
    }
}

/// The model of the bytes of a media item.
pub open spec fn bytes_view(r: Result<Vec<u8>, Error>) -> Result<Seq<u8>, ErrorView> {
    match r {
        Ok(b) => Ok(b@),
        Err(e) => Err(e@),
    }
}

/// What decoding a media item comes to.
pub fn decoded_media(decoded: Option<Vec<u8>>) -> (r: Result<Vec<u8>, Error>)
    ensures
        bytes_view(r) == media_bytes(text::opt_view(decoded)),
{
    match decoded {
        Some(b) => Ok(b),
        None => Err(Error::Api("failed to decode base64 image".to_string())),
    }
}

/// Media that is being handed to the runtime, item by item. An item is the path of a file, or
/// base64 that goes to the runtime in a file of its own.
#[derive(Debug, PartialEq)]
pub struct MediaRun {
    pub encoded: bool,
    pub items: Vec<String>,
    pub next: usize,
    /// The path of the file of the current item.
    pub path: String,
}

/// The model of media that is being handed over.
#[verifier::ext_equal]
pub struct MediaView {
    pub encoded: bool,
    pub items: Seq<Seq<char>>,
    pub next: nat,
    pub path: Seq<char>,
}

impl View for MediaRun {
    type V = MediaView;

    open spec fn view(&self) -> MediaView {
        MediaView {
            encoded: self.encoded,
            items: text::views(self.items@),
            next: self.next as nat,
            path: self.path@,
        }
    }
}

/// What is to be done next for media.
#[derive(Debug, PartialEq)]
pub enum MediaStep {
    /// The bytes are to be written to a file of their own.
    Write(Vec<u8>),
    /// The runtime is to be brought up.
    Ensure,
    /// The path is to be handed to the runtime.
    HandOver(String),
    /// All is handed over, or the first refusal has ended it.
    End(Result<(), Error>),
}

/// The model of what is to be done next for media.
#[verifier::ext_equal]
pub enum MediaStepView {
    Write(Seq<u8>),
    Ensure,
    HandOver(Seq<char>),
    End(Result<(), ErrorView>),
}

impl View for MediaStep {
    type V = MediaStepView;

    open spec fn view(&self) -> MediaStepView {
        match self {
            MediaStep::Write(b) => MediaStepView::Write(b@),
            MediaStep::Ensure => MediaStepView::Ensure,
            MediaStep::HandOver(p) => MediaStepView::HandOver(p@),
            MediaStep::End(r) => MediaStepView::End(unit_view(*r)),
        }
    }
}

/// Media whose current item is taken up: base64 is decoded and written first.
pub open spec fn media_at(m: MediaView) -> (MediaView, MediaStepView) {
    if m.next >= m.items.len() {
        (m, MediaStepView::End(Ok(())))
    } else if m.encoded {
        match media_bytes(base64_bytes(media_payload(m.items[m.next as int]))) {
            Ok(b) => (m, MediaStepView::Write(b)),
            Err(e) => (m, MediaStepView::End(Err(e))),
        }
    } else {
        (MediaView { path: m.items[m.next as int], ..m }, MediaStepView::Ensure)
    }
}

/// Media of which nothing was handed over yet.
pub open spec fn media_begun(encoded: bool, items: Seq<Seq<char>>) -> (MediaView, MediaStepView) {
    media_at(MediaView { encoded, items, next: 0, path: Seq::empty() })
}

/// Media once the bytes of the current item were written to a file, or could not be.
pub open spec fn after_written(m: MediaView, file: Result<Seq<char>, ErrorView>) -> (
    MediaView,
    MediaStepView,
) {
    match file {
        Ok(path) => (MediaView { path, ..m }, MediaStepView::Ensure),
        Err(e) => (m, MediaStepView::End(Err(e))),
    }
}

/// Media once the runtime is up, or could not be brought up. A path with a NUL cannot be handed
/// over.
pub open spec fn after_ensured(m: MediaView, up: Result<(), ErrorView>) -> MediaStepView {
    match up {
        Ok(_) => if native::has_nul(m.path) {
            MediaStepView::End(Err(ErrorView::NulByte(m.path)))
        } else {
            MediaStepView::HandOver(m.path)
        },
        Err(e) => MediaStepView::End(Err(e)),
    }
}

/// Media once the runtime took the path, or refused it.
pub open spec fn after_handed(m: MediaView, ok: bool, native: Option<Seq<char>>) -> (
    MediaView,
    MediaStepView,
) {
    if !ok {
        (m, MediaStepView::End(Err(native::refusal(native, "failed to add media file"@))))
    } else if m.next < m.items.len() {
        media_at(MediaView { next: m.next + 1, ..m })
    } else {
        media_at(m)
    }
}

impl MediaRun {
    /// Begins to hand media over; says what is to be done first.
    pub fn begin(encoded: bool, items: Vec<String>) -> (r: (MediaRun, MediaStep))
        ensures
            (r.0@, r.1@) == media_begun(encoded, text::views(items@)),
    {
        let mut run = MediaRun { encoded, items, next: 0, path: String::new() };
        assert(run@.path =~= Seq::empty());
        let step = run.take_up();
        (run, step)
    }

    fn take_up(&mut self) -> (r: MediaStep)
        ensures
            (final(self)@, r@) == media_at(old(self)@),
    {
        if self.next >= self.items.len() {
            return MediaStep::End(Ok(()));
        }
        assert(self@.items[self.next as int] == self.items@[self.next as int]@);
        if self.encoded {
            let payload = payload_of(self.items[self.next].as_str());
            match decoded_media(decode_base64(payload.as_str())) {
                Ok(b) => MediaStep::Write(b),
                Err(e) => MediaStep::End(Err(e)),
            }
        } else {
            self.path = self.items[self.next].as_str().to_string();
            MediaStep::Ensure
        }
    }

    /// The bytes were written to the file at a path, or could not be.
    pub fn on_written(&mut self, file: Result<String, Error>) -> (r: MediaStep)
        ensures
            (final(self)@, r@) == after_written(old(self)@, text_view(file)),
    {
        match file {
            Ok(path) => {
                self.path = path;
                MediaStep::Ensure
            },
            Err(e) => MediaStep::End(Err(e)),
        }
    }

    /// The runtime is up, or could not be brought up.
    pub fn on_ensured(&self, up: Result<(), Error>) -> (r: MediaStep)
        ensures
            r@ == after_ensured(self@, unit_view(up)),
    {
        match up {
            Ok(_) => match native::to_cstring(self.path.as_str()) {
                Ok(p) => MediaStep::HandOver(p),
                Err(e) => MediaStep::End(Err(e)),
            },
            Err(e) => MediaStep::End(Err(e)),
        }
    }

    /// The runtime took the path, or refused it and says why.
    pub fn on_handed(&mut self, ok: bool, native: Option<String>) -> (r: MediaStep)
        ensures
            (final(self)@, r@) == after_handed(old(self)@, ok, text::opt_view(native)),
    {
        match native::native_outcome(ok, native, "failed to add media file") {
            Ok(_) => {
                if self.next < self.items.len() {
                    self.next = self.next + 1;
                }
                self.take_up()
            },
            Err(e) => MediaStep::End(Err(e)),
        }
    }
}

/// What comes of the outside work for an item of media: of writing its file, of bringing the
/// runtime up, and of handing the path over.
#[verifier::ext_equal]
pub struct MediaAnswer {
    pub file: Result<Seq<char>, ErrorView>,
    pub up: Result<(), ErrorView>,
    pub ok: bool,
    pub native: Option<Seq<char>>,
}

/// The path of an item of media, or why it has none.
pub open spec fn item_path(encoded: bool, item: Seq<char>, a: MediaAnswer) -> Result<
    Seq<char>,
    ErrorView,
> {
    if encoded {
        match media_bytes(base64_bytes(media_payload(item))) {
            Ok(_) => a.file,
            Err(e) => Err(e),
        }
    } else {
        Ok(item)
    }
}

/// The path that is handed over for an item of media, or why none is.
pub open spec fn path_over(encoded: bool, item: Seq<char>, a: MediaAnswer) -> Result<
    Seq<char>,
    ErrorView,
> {
    match item_path(encoded, item, a) {
        Ok(p) => match a.up {
            Ok(_) => if native::has_nul(p) {
                Err(ErrorView::NulByte(p))
            } else {
                Ok(p)
            },
            Err(e) => Err(e),
        },
        Err(e) => Err(e),
    }
}

/// What adding an item of media comes to.
pub open spec fn item_added(encoded: bool, item: Seq<char>, a: MediaAnswer) -> Result<
    (),
    ErrorView,
> {
    match path_over(encoded, item, a) {
        Ok(_) => if a.ok {
            Ok(())
        } else {
            Err(native::refusal(a.native, "failed to add media file"@))
        },
        Err(e) => Err(e),
    }
}

/// The paths that are handed over, and the outcome, where each item is answered as given.
pub open spec fn media_driven(
    at: (MediaView, MediaStepView),
    answers: Seq<MediaAnswer>,
) -> (Seq<Seq<char>>, Result<(), ErrorView>)
    decreases at.0.items.len() - at.0.next,
{
    let (m, step) = at;
    if m.next >= m.items.len() || step is End {
        (
            Seq::empty(),
            match step {
                MediaStepView::End(r) => r,
                _ => Ok(()),
            },
        )
    } else {
        let a = answers[m.next as int];
        let (named, wanted) = if step is Write {
            after_written(m, a.file)
        } else {
            (m, step)
        };
        let asked = if wanted is Ensure {
            after_ensured(named, a.up)
        } else {
            wanted
        };
        match asked {
            MediaStepView::HandOver(p) => {
                let next = after_handed(named, a.ok, a.native);
                if next.0.items == m.items && next.0.next > m.next {
                    let later = media_driven(next, answers);
                    (seq![p] + later.0, later.1)
                } else {
                    (
                        seq![p],
                        match next.1 {
                            MediaStepView::End(r) => r,
                            _ => Ok(()),
                        },
                    )
                }
            },
            MediaStepView::End(r) => (Seq::empty(), r),
            _ => (Seq::empty(), Ok(())),
        }
    }
}

proof fn lemma_media_driven(m: MediaView, answers: Seq<MediaAnswer>, k: int)
    requires
        m.next <= k <= m.items.len(),
        answers.len() == m.items.len(),
        forall|i: int|
            m.next <= i < k ==> item_added(m.encoded, #[trigger] m.items[i], answers[i]) is Ok,
        k < m.items.len() ==> item_added(m.encoded, m.items[k], answers[k]) is Err,
    ensures
        ({
            let (over, outcome) = media_driven(media_at(m), answers);
            let tried = if k < m.items.len() && path_over(m.encoded, m.items[k], answers[k]) is Ok {
                k + 1
            } else {
                k
            };
            &&& outcome == if k < m.items.len() {
                item_added(m.encoded, m.items[k], answers[k])
            } else {
                Ok(())
            }
            &&& over == Seq::new(
                (tried - m.next) as nat,
                |i: int|
                    path_over(m.encoded, m.items[m.next + i], answers[m.next + i])->Ok_0,
            )
        }),
    decreases m.items.len() - m.next,
{
    let n = m.next as int;
    let (over, outcome) = media_driven(media_at(m), answers);
    if n < m.items.len() {
        let a = answers[n];
        let item = m.items[n];
        if n < k {
            assert(item_added(m.encoded, item, a) is Ok);
            let p = path_over(m.encoded, item, a)->Ok_0;
            let named = MediaView { path: p, ..m };
            let next = MediaView { next: m.next + 1, ..named };
            lemma_media_driven(next, answers, k);
            let later = media_driven(media_at(next), answers);
            assert(media_at(next).0.next == next.next);
            assert(after_handed(named, a.ok, a.native) == media_at(next));
            assert(over == seq![p] + later.0);
        }
    }
    let tried = if k < m.items.len() && path_over(m.encoded, m.items[k], answers[k]) is Ok {
        k + 1
    } else {
        k
    };
    assert(over =~= Seq::new(
        (tried - m.next) as nat,
        |i: int| path_over(m.encoded, m.items[m.next + i], answers[m.next + i])->Ok_0,
    ));
}

/// Media is handed over item by item, in order, up to and with the first that fails; the outcome
/// is the error of that one, and none that follows is tried. Where none fails, all are added.
pub proof fn law_first_refusal_ends_media(
    encoded: bool,
    items: Seq<Seq<char>>,
    answers: Seq<MediaAnswer>,
    k: int,
)
    requires
        answers.len() == items.len(),
        0 <= k <= items.len(),
        forall|i: int|
            0 <= i < k ==> item_added(encoded, #[trigger] items[i], answers[i]) is Ok,
        k < items.len() ==> item_added(encoded, items[k], answers[k]) is Err,
    ensures
        ({
            let (over, outcome) = media_driven(media_begun(encoded, items), answers);
            &&& outcome == if k < items.len() {
                item_added(encoded, items[k], answers[k])
            } else {
                Ok(())
            }
            &&& k <= over.len() <= k + 1
            &&& over.len() == k + 1 <==> k < items.len() && path_over(
                encoded,
                items[k],
                answers[k],
            ) is Ok
            &&& forall|i: int|
                0 <= i < over.len() ==> Ok::<Seq<char>, ErrorView>(#[trigger] over[i])
                    == path_over(encoded, items[i], answers[i])
        }),
{
    let m = MediaView { encoded, items, next: 0, path: Seq::empty() };
    lemma_media_driven(m, answers, k);
    let (over, outcome) = media_driven(media_begun(encoded, items), answers);
    assert forall|i: int| 0 <= i < over.len() implies Ok::<Seq<char>, ErrorView>(
        #[trigger] over[i],
    ) == path_over(encoded, items[i], answers[i]) by {
        if i < k {
            assert(item_added(encoded, items[i], answers[i]) is Ok);
        }
    }
}

fn one_item(item: &str) -> (r: Vec<String>)
    ensures
        text::views(r@) == seq![item@],
{
    let mut items: Vec<String> = Vec::new();
    items.push(item.to_string());
    assert(text::views(items@) =~= seq![item@]);
    items
}

fn copy_items(items: &Vec<String>) -> (r: Vec<String>)
    ensures
        text::views(r@) == text::views(items@),
{
    let mut out: Vec<String> = Vec::new();
    let mut i: usize = 0;
    while i < items.len()
        invariant
            i <= items@.len(),
            out@.len() == i,
            forall|k: int| 0 <= k < i ==> (#[trigger] out@[k])@ == items@[k]@,
        decreases items@.len() - i,
    {
        out.push(items[i].as_str().to_string());
        i = i + 1;
    }
    assert(text::views(out@) =~= text::views(items@));
    out
}

impl RuntimeLlama {
    /// Begins to hand a file of media to the runtime.
    pub fn add_media_file(&self, path: &str) -> (r: (MediaRun, MediaStep))
        ensures
            (r.0@, r.1@) == media_begun(false, seq![path@]),
    {
        MediaRun::begin(false, one_item(path))
    }

    /// Begins to hand files of media to the runtime, one after the other.
    pub fn add_media_files(&self, paths: &Vec<String>) -> (r: (MediaRun, MediaStep))
        ensures
            (r.0@, r.1@) == media_begun(false, text::views(paths@)),
    {
        MediaRun::begin(false, copy_items(paths))
    }

    /// Begins to hand media in base64 to the runtime.
    pub fn add_media_base64(&self, data: &str) -> (r: (MediaRun, MediaStep))
        ensures
            (r.0@, r.1@) == media_begun(true, seq![data@]),
    {
        MediaRun::begin(true, one_item(data))
    }

    /// Begins to hand media in base64 to the runtime, one after the other.
    pub fn add_media_base64s(&self, items: &Vec<String>) -> (r: (MediaRun, MediaStep))
        ensures
            (r.0@, r.1@) == media_begun(true, text::views(items@)),
    {
        MediaRun::begin(true, copy_items(items))
    }

    /// Begins to hand a file of sound to the runtime.
    pub fn add_audio_file(&self, path: &str) -> (r: (MediaRun, MediaStep))
        ensures
            (r.0@, r.1@) == media_begun(false, seq![path@]),
    {
        MediaRun::begin(false, one_item(path))
    }

    /// Begins to hand files of sound to the runtime, one after the other.
    pub fn add_audio_files(&self, paths: &Vec<String>) -> (r: (MediaRun, MediaStep))
        ensures
            (r.0@, r.1@) == media_begun(false, text::views(paths@)),
    {
        MediaRun::begin(false, copy_items(paths))
    }

    /// Begins to hand sound in base64 to the runtime.
    pub fn add_audio_base64(&self, data: &str) -> (r: (MediaRun, MediaStep))
        ensures
            (r.0@, r.1@) == media_begun(true, seq![data@]),
    {
        MediaRun::begin(true, one_item(data))
    }

    /// Begins to hand sound in base64 to the runtime, one after the other.
    pub fn add_audio_base64s(&self, items: &Vec<String>) -> (r: (MediaRun, MediaStep))
        ensures
            (r.0@, r.1@) == media_begun(true, text::views(items@)),
    {
        MediaRun::begin(true, copy_items(items))
    }

    /// Begins to hand a video file to the runtime.
    pub fn add_video_file(&self, path: &str) -> (r: (MediaRun, MediaStep))
        ensures
            (r.0@, r.1@) == media_begun(false, seq![path@]),
    {
        MediaRun::begin(false, one_item(path))
    }

    /// Begins to hand video files to the runtime, one after the other.
    pub fn add_video_files(&self, paths: &Vec<String>) -> (r: (MediaRun, MediaStep))
        ensures
            (r.0@, r.1@) == media_begun(false, text::views(paths@)),
    {
        MediaRun::begin(false, copy_items(paths))
    }

    /// Begins to hand a video in base64 to the runtime.
    pub fn add_video_base64(&self, data: &str) -> (r: (MediaRun, MediaStep))
        ensures
            (r.0@, r.1@) == media_begun(true, seq![data@]),
    {
        MediaRun::begin(true, one_item(data))
    }

    /// Begins to hand videos in base64 to the runtime, one after the other.
    pub fn add_video_base64s(&self, items: &Vec<String>) -> (r: (MediaRun, MediaStep))
        ensures
            (r.0@, r.1@) == media_begun(true, text::views(items@)),
    {
        MediaRun::begin(true, copy_items(items))
    }
}

/// A message as it goes to the runtime: empty reasoning is none.
pub open spec fn native_message(m: chat::ChatMessageView) -> chat::ChatMessageView {
    chat::ChatMessageView {
        reasoning_content: match m.reasoning_content {
            Some(r) if r.len() > 0 => Some(r),
            _ => None,
        },
        ..m
    }
}

/// The texts of a message that go to the runtime.
pub open spec fn message_texts(m: chat::ChatMessageView) -> Seq<Seq<char>> {
    match native_message(m).reasoning_content {
        Some(r) => seq![m.role, m.content, r],
        None => seq![m.role, m.content],
    }
}

/// The first NUL in the texts of some messages.
pub open spec fn messages_nul(ms: Seq<chat::ChatMessageView>) -> Option<Seq<char>>
    decreases ms.len(),
{
    if ms.len() == 0 {
        None
    } else {
        match first_nul(message_texts(ms[0])) {
            Some(t) => Some(t),
            None => messages_nul(ms.subrange(1, ms.len() as int)),
        }
    }
}

fn message_nul(m: &ChatMessage) -> (r: Option<String>)
    ensures
        text::opt_view(r) == first_nul(message_texts(m@)),
{
    proof {
        let v = m@;
        lemma_first_nul_two(v.role, v.content);
        if native_message(v).reasoning_content is Some {
            let x = native_message(v).reasoning_content->0;
            lemma_first_nul_two(v.content, x);
            assert(seq![v.role, v.content, x].subrange(1, 3) =~= seq![v.content, x]);
        }
    }
    if native::contains_nul(m.role.as_str()) {
        return Some(m.role.clone());
    }
    if native::contains_nul(m.content.as_str()) {
        return Some(m.content.clone());
    }
    match &m.reasoning_content {
        Some(r) => if r.as_str().unicode_len() > 0 && native::contains_nul(r.as_str()) {
            Some(r.clone())
        } else {
            None
        },
        None => None,
    }
}

/// The messages as they go to the runtime.
pub open spec fn native_messages(ms: Seq<chat::ChatMessageView>) -> Seq<chat::ChatMessageView> {
    Seq::new(ms.len(), |i: int| native_message(ms[i]))
}

/// Makes the messages ready for the runtime; a text with a NUL is an error.
pub fn build_chat_messages(messages: &Vec<ChatMessage>) -> (r: Result<Vec<ChatMessage>, Error>)
    ensures
        match r {
            Ok(v) => messages_nul(text::views(messages@)) is None && text::views(v@)
                == native_messages(text::views(messages@)),
            Err(e) => messages_nul(text::views(messages@)) is Some && e@ == ErrorView::NulByte(
                messages_nul(text::views(messages@))->0,
            ),
        },
{
    let ghost all = text::views(messages@);
    let mut out: Vec<ChatMessage> = Vec::new();
    let mut i: usize = 0;
    assert(all.subrange(0, all.len() as int) =~= all);
    while i < messages.len()
        invariant
            i <= messages@.len(),
            all == text::views(messages@),
            messages_nul(all) == messages_nul(all.subrange(i as int, all.len() as int)),
            out@.len() == i,
            forall|k: int| 0 <= k < i ==> (#[trigger] out@[k])@ == native_message(all[k]),
        decreases messages@.len() - i,
    {
        let ghost rest = all.subrange(i as int, all.len() as int);
        assert(rest[0] == messages@[i as int]@);
        assert(rest.subrange(1, rest.len() as int) =~= all.subrange(i + 1, all.len() as int));
        match message_nul(&messages[i]) {
            Some(t) => {
                return Err(Error::NulByte(t));
            },
            None => {},
        }
        let mut m = messages[i].copy();
        let keep = match &m.reasoning_content {
            Some(r) => r.as_str().unicode_len() > 0,
            None => false,
        };
        if !keep {
            m.reasoning_content = None;
        }
        assert(m@ =~= native_message(all[i as int]));
        out.push(m);
        i = i + 1;
    }
    assert(text::views(out@) =~= native_messages(all));
    Ok(out)
}

impl RuntimeLlama {
    /// The conversation of one prompt, ready for the runtime.
    pub fn generate_chat_text(&self, prompt: &str) -> (r: Result<Vec<ChatMessage>, Error>)
        ensures
            match r {
                Ok(v) => !native::has_nul(prompt@) && text::views(v@) == seq![
                    chat::plain_message("user"@, prompt@),
                ],
                Err(e) => native::has_nul(prompt@) && e@ == ErrorView::NulByte(prompt@),
            },
    {
        let mut messages: Vec<ChatMessage> = Vec::new();
        messages.push(ChatMessage::plain("user", prompt));
        proof {
            let all = text::views(messages@);
            let m = chat::plain_message("user"@, prompt@);
            assert(all =~= seq![m]);
            assert(all.subrange(1, 1) =~= Seq::empty());
            assert(messages_nul(all.subrange(1, 1)) is None);
            lemma_first_nul_two("user"@, prompt@);
            reveal_strlit("user");
            assert(!native::has_nul("user"@));
            assert(native_messages(all) =~= seq![m]);
        }
        build_chat_messages(&messages)
    }
}

/// What the end of a generation comes to: a callback that broke down, the runtime's refusal, or
/// the text.
pub fn generation_outcome(panicked: bool, output: Option<String>, native: Option<String>) -> (r:
    Result<String, Error>)
    ensures
        text_view(r) == if panicked {
            Err(ErrorView::Api("stream callback panicked"@))
        } else {
            match output {
                Some(t) => Ok(t@),
                None => Err(native::refusal(text::opt_view(native), "generation failed"@)),
            }
        },
{
    if panicked {
        return Err(Error::Api("stream callback panicked".to_string()));
    }
    match output {
        Some(t) => Ok(t),
        None => Err(
            Error::Api(
                match native {
                    Some(m) => m,
                    None => "generation failed".to_string(),
                },
            ),
        ),
    }
}

/// What the arguments of a call come to before they are made an object: the JSON that a text
/// writes, as it stands or in its braces; any other value as it is.
pub open spec fn read_args(v: JsonView) -> JsonView {
    match v {
        JsonView::Text(t) => match json::json_text(t) {
            Some(p) => p,
            None => match tool_text::braced(t) {
                Some(b) => match json::json_text(b) {
                    Some(p) => p,
                    None => v,
                },
                None => v,
            },
        },
        _ => v,
    }
}

/// A value as an object: any that is none stands in a member `raw`.
pub open spec fn as_object(v: JsonView) -> JsonView {
    if v is Object {
        v
    } else {
        wire::obj1("raw"@, v)
    }
}

/// The arguments of a call: always an object.
pub open spec fn object_args(v: JsonView) -> JsonView {
    as_object(read_args(v))
}

/// Makes a value an object.
pub fn to_object(v: Json) -> (r: Json)
    ensures
        r@ == as_object(v@),
{
    let is_object = match &v {
        Json::Object(_) => true,
        _ => false,
    };
    if is_object {
        v
    } else {
        Json::empty_object().with("raw", v)
    }
}

/// Makes the arguments of a call an object.
pub fn normalize_args(args: Json) -> (r: Json)
    ensures
        r@ == object_args(args@),
        r@ is Object,
{
    let read = match &args {
        Json::Text(t) => match json::parse(t.as_str()) {
            Some(p) => Some(p),
            None => match tool_text::between_braces(t.as_str()) {
                Some(b) => json::parse(b.as_str()),
                None => None,
            },
        },
        _ => None,
    };
    match read {
        Some(p) => to_object(p),
        None => to_object(args),
    }
}

/// The tool call that the runtime's JSON writes. Whatever is missing has a default.
pub open spec fn runtime_call(v: JsonView) -> ToolCallView {
    let name = wire::text_or(v, "name"@, "tool"@);
    let raw = match v.field("args"@) {
        Some(a) => a,
        None => wire::field_or(v, "arguments"@, JsonView::Object(Map::empty())),
    };
    ToolCallView {
        name,
        call_id: wire::text_or(v, "call_id"@, ""@),
        command: wire::text_or(v, "command"@, name),
        args: object_args(raw),
    }
}

/// Reads a tool call from the runtime's JSON.
pub fn tool_call_from_value(v: &Json) -> (r: ToolCall)
    ensures
        r@ == runtime_call(v@),
        r.args@ is Object,
{
    let name = wire::get_text_or(v, "name", "tool");
    let raw = match v.get("args") {
        Some(a) => a.copy(),
        None => wire::get_or(v, "arguments", Json::empty_object()),
    };
    let command = wire::get_text_or(v, "command", name.as_str());
    let call_id = wire::get_text_or(v, "call_id", "");
    ToolCall { name, call_id, command, args: normalize_args(raw) }
}

/// The tool call of a piece of the stream: what its JSON writes, or a nameless call that carries
/// the text.
pub open spec fn piece_call(parsed: Option<JsonView>, chunk: Seq<char>) -> ToolCallView {
    match parsed {
        Some(v) => runtime_call(v),
        None => ToolCallView {
            name: "tool"@,
            call_id: ""@,
            command: "tool"@,
            args: wire::obj1("raw"@, JsonView::Text(chunk)),
        },
    }
}

/// Reads the tool call of a piece of the stream whose JSON was parsed.
pub fn call_of_piece(parsed: Option<Json>, chunk: &str) -> (r: ToolCall)
    ensures
        r@ == piece_call(text::opt_view(parsed), chunk@),
        r.args@ is Object,
{
    match parsed {
        Some(v) => tool_call_from_value(&v),
        None => ToolCall {
            name: "tool".to_string(),
            call_id: "".to_string(),
            command: "tool".to_string(),
            args: Json::empty_object().with("raw", Json::text(chunk)),
        },
    }
}

/// A piece of the stream.
pub open spec fn piece_of(kind: libia_generation_kind, chunk: Seq<char>) -> GenerationView {
    match kind {
        libia_generation_kind::LIBIA_GENERATION_KIND_REASONING => GenerationView::Reasoning(chunk),
        libia_generation_kind::LIBIA_GENERATION_KIND_TOOL_CALL => GenerationView::CallTool(
            piece_call(json::json_text(chunk), chunk),
        ),
        libia_generation_kind::LIBIA_GENERATION_KIND_CONTENT => GenerationView::Content(chunk),
    }
}

/// Reads a piece of the stream.
pub fn stream_piece(kind: libia_generation_kind, chunk: &str) -> (r: GenerationType)
    ensures
        r@ == piece_of(kind, chunk@),
{
    match kind {
        libia_generation_kind::LIBIA_GENERATION_KIND_REASONING => GenerationType::Reasoning(
            chunk.to_string(),
        ),
        libia_generation_kind::LIBIA_GENERATION_KIND_TOOL_CALL => {
            let parsed = json::parse(chunk);
            GenerationType::CallTool(call_of_piece(parsed, chunk))
        },
        libia_generation_kind::LIBIA_GENERATION_KIND_CONTENT => GenerationType::Content(
            chunk.to_string(),
        ),
    }
}

/// The token that a field of a comma-separated list writes.
pub open spec fn token_of(field: Seq<char>) -> Option<int> {
    if field.len() == 0 {
        None
    } else {
        text::int_value_in(text::trimmed(field), i32::MIN as int, i32::MAX as int)
    }
}

/// The tokens that the fields of a comma-separated list write; other fields are passed over.
pub open spec fn tokens_of(fields: Seq<Seq<char>>) -> Seq<int>
    decreases fields.len(),
{
    if fields.len() == 0 {
        Seq::empty()
    } else {
        let before = tokens_of(fields.drop_last());
        match token_of(fields.last()) {
            Some(t) => before.push(t),
            None => before,
        }
    }
}

/// Integers without their width.
pub open spec fn ints(v: Seq<i32>) -> Seq<int> {
    Seq::new(v.len(), |i: int| v[i] as int)
}

fn read_token(field: &str) -> (r: Option<i32>)
    ensures
        match r {
            Some(t) => token_of(field@) == Some(t as int),
            None => token_of(field@) is None,
        },
{
    if field.unicode_len() == 0 {
        return None;
    }
    let t = text::trim(field);
    match text::parse_i64(t.as_str()) {
        Some(n) => if -2147483648 <= n && n <= 2147483647 {
            Some(n as i32)
        } else {
            None
        },
        None => None,
    }
}

/// Reads the tokens of a text from the runtime's comma-separated list.
pub fn tokenize_text(csv: &str) -> (r: Vec<i32>)
    ensures
        ints(r@) == tokens_of(text::parts(csv@, ',')),
{
    let fields = text::split(csv, ',');
    let ghost all = text::views(fields@);
    let mut out: Vec<i32> = Vec::new();
    let mut i: usize = 0;
    assert(all.subrange(0, 0) =~= Seq::empty());
    assert(ints(out@) =~= Seq::empty());
    while i < fields.len()
        invariant
            i <= fields@.len(),
            all == text::views(fields@),
            ints(out@) == tokens_of(all.subrange(0, i as int)),
        decreases fields@.len() - i,
    {
        let ghost next = all.subrange(0, i + 1);
        assert(next.drop_last() =~= all.subrange(0, i as int));
        assert(next.last() == fields@[i as int]@);
        match read_token(fields[i].as_str()) {
            Some(t) => {
                let ghost before = ints(out@);
                out.push(t);
                assert(ints(out@) =~= before.push(t as int));
            },
            None => {},
        }
        i = i + 1;
    }
    assert(all.subrange(0, all.len() as int) =~= all);
    out
}

/// What the runtime tells of one of its options.
#[derive(Debug, PartialEq)]
pub struct OptionInfo {
    pub name: Option<String>,
    pub kind: libia_option_kind,
}

/// The names of the options that have one.
pub open spec fn option_names(infos: Seq<OptionInfo>) -> Seq<Seq<char>>
    decreases infos.len(),
{
    if infos.len() == 0 {
        Seq::empty()
    } else {
        let before = option_names(infos.drop_last());
        match infos.last().name {
            Some(n) => before.push(n@),
            None => before,
        }
    }
}

/// The names of the options of the runtime.
pub fn list_props(infos: &Vec<OptionInfo>) -> (r: Vec<String>)
    ensures
        text::views(r@) == option_names(infos@),
{
    let mut out: Vec<String> = Vec::new();
    let mut i: usize = 0;
    assert(infos@.subrange(0, 0) =~= Seq::empty());
    assert(text::views(out@) =~= Seq::empty());
    while i < infos.len()
        invariant
            i <= infos@.len(),
            text::views(out@) == option_names(infos@.subrange(0, i as int)),
        decreases infos@.len() - i,
    {
        assert(infos@.subrange(0, i + 1).drop_last() =~= infos@.subrange(0, i as int));
        match &infos[i].name {
            Some(n) => {
                let ghost before = text::views(out@);
                out.push(n.clone());
                assert(text::views(out@) =~= before.push(n@));
            },
            None => {},
        }
        i = i + 1;
    }
    assert(infos@.subrange(0, infos@.len() as int) =~= infos@);
    out
}

/// A capability: a member of the runtime's report that is `true`.
pub open spec fn has_cap(report: JsonView, cap: Seq<char>) -> Option<bool> {
    match report.field(cap) {
        Some(v) => Some(v == JsonView::Bool(true)),
        None => None,
    }
}

/// Whether the runtime has a capability; none where its report does not speak of it.
pub fn media_cap(report: &Json, cap: &str) -> (r: Option<bool>)
    ensures
        r == has_cap(report@, cap@),
{
    match report.get(cap) {
        Some(v) => match v {
            Json::Bool(b) => Some(*b),
            _ => Some(false),
        },
        None => None,
    }
}

/// Capabilities in the order of their names, each once.
pub open spec fn caps_sorted(caps: Seq<(String, bool)>) -> bool {
    forall|i: int, j: int|
        0 <= i < j < caps.len() ==> text::precedes((#[trigger] caps[i]).0@, (#[trigger] caps[j]).0@)
}

/// Capabilities are those that a report speaks of.
pub open spec fn caps_match(caps: Seq<(String, bool)>, m: Map<Seq<char>, JsonView>) -> bool {
    &&& forall|i: int|
        0 <= i < caps.len() ==> m.dom().contains((#[trigger] caps[i]).0@) && caps[i].1 == (
        m[caps[i].0@] == JsonView::Bool(true))
    &&& forall|k: Seq<char>| #[trigger]
        m.dom().contains(k) ==> exists|i: int| 0 <= i < caps.len() && (#[trigger] caps[i]).0@ == k
}

/// The capabilities of which a report speaks, in the order of their names; none where it is no
/// object. What is not `true` is not there.
pub fn caps_of(report: &Json) -> (r: Option<Vec<(String, bool)>>)
    ensures
        match r {
            Some(caps) => report@ matches JsonView::Object(m) && caps_sorted(caps@) && caps_match(
                caps@,
                m,
            ),
            None => !(report@ is Object),
        },
{
    match report {
        Json::Object(entries) => {
            let mut caps: Vec<(String, bool)> = Vec::new();
            let mut i: usize = 0;
            assert(entries@.subrange(0, 0) =~= Seq::empty());
            while i < entries.len()
                invariant
                    i <= entries.len(),
                    caps_sorted(caps@),
                    caps_match(caps@, json::entries_view(entries@.subrange(0, i as int))),
                decreases entries.len() - i,
            {
                let on = match &entries[i].1 {
                    Json::Bool(b) => *b,
                    _ => false,
                };
                let ghost before = json::entries_view(entries@.subrange(0, i as int));
                proof {
                    let next = entries@.subrange(0, i + 1);
                    assert(next.subrange(0, next.len() - 1) =~= entries@.subrange(0, i as int));
                    assert(next[next.len() - 1] == entries@[i as int]);
                }
                put_cap(
                    &mut caps,
                    entries[i].0.as_str(),
                    on,
                    Ghost(before),
                    Ghost(entries@[i as int].1@),
                );
                i = i + 1;
            }
            assert(entries@.subrange(0, entries@.len() as int) =~= entries@);
            Some(caps)
        },
        _ => None,
    }
}

fn put_cap(
    caps: &mut Vec<(String, bool)>,
    name: &str,
    on: bool,
    Ghost(m): Ghost<Map<Seq<char>, JsonView>>,
    Ghost(v): Ghost<JsonView>,
)
    requires
        caps_sorted(old(caps)@),
        caps_match(old(caps)@, m),
        on == (v == JsonView::Bool(true)),
    ensures
        caps_sorted(final(caps)@),
        caps_match(final(caps)@, m.insert(name@, v)),
{
    let ghost start = caps@;
    let mut p: usize = 0;
    while p < caps.len() && text::is_before(caps[p].0.as_str(), name)
        invariant
            p <= caps.len(),
            caps@ == start,
            forall|k: int| 0 <= k < p ==> text::precedes((#[trigger] caps@[k]).0@, name@),
        decreases caps.len() - p,
    {
        p = p + 1;
    }
    let found = p < caps.len() && text::same(caps[p].0.as_str(), name);
    if found {
        caps.set(p, (name.to_string(), on));
        proof {
            let after = m.insert(name@, v);
            assert(caps@[p as int].0@ == start[p as int].0@);
            assert forall|i: int| 0 <= i < caps@.len() implies after.dom().contains(
                (#[trigger] caps@[i]).0@,
            ) && caps@[i].1 == (after[caps@[i].0@] == JsonView::Bool(true)) by {
                if i != p {
                    assert(caps@[i] == start[i]);
                    if i < p {
                        assert(text::precedes(start[i].0@, start[p as int].0@));
                        text::lemma_precedes_total(start[i].0@, start[p as int].0@);
                    } else {
                        assert(text::precedes(start[p as int].0@, start[i].0@));
                        text::lemma_precedes_total(start[p as int].0@, start[i].0@);
                    }
                }
            }
            assert forall|k: Seq<char>| #[trigger] after.dom().contains(k) implies exists|i: int|
                0 <= i < caps@.len() && (#[trigger] caps@[i]).0@ == k by {
                if k == name@ {
                    assert(caps@[p as int].0@ == k);
                } else {
                    assert(m.dom().contains(k));
                    let i = choose|i: int| 0 <= i < start.len() && (#[trigger] start[i]).0@ == k;
                    assert(caps@[i].0@ == k);
                }
            }
            assert(caps_sorted(caps@)) by {
                assert forall|i: int, j: int| 0 <= i < j < caps@.len() implies text::precedes(
                    (#[trigger] caps@[i]).0@,
                    (#[trigger] caps@[j]).0@,
                ) by {
                    assert(caps@[i].0@ == start[i].0@ && caps@[j].0@ == start[j].0@);
                }
            }
        }
    } else {
        proof {
            // Everything from `p` on comes behind the name.
            assert forall|k: int| p <= k < start.len() implies text::precedes(
                name@,
                (#[trigger] start[k]).0@,
            ) by {
                text::lemma_precedes_total(start[p as int].0@, name@);
                if k > p {
                    assert(text::precedes(start[p as int].0@, start[k].0@));
                    text::lemma_precedes_total(start[k].0@, start[p as int].0@);
                    text::lemma_precedes_chain(name@, start[p as int].0@, start[k].0@);
                }
            }
        }
        caps.insert(p, (name.to_string(), on));
        proof {
            let after = m.insert(name@, v);
            assert forall|i: int| 0 <= i < caps@.len() implies after.dom().contains(
                (#[trigger] caps@[i]).0@,
            ) && caps@[i].1 == (after[caps@[i].0@] == JsonView::Bool(true)) by {
                if i < p {
                    assert(caps@[i] == start[i]);
                    text::lemma_precedes_total(start[i].0@, name@);
                } else if i > p {
                    assert(caps@[i] == start[i - 1]);
                    text::lemma_precedes_total(start[i - 1].0@, name@);
                }
            }
            assert forall|k: Seq<char>| #[trigger] after.dom().contains(k) implies exists|i: int|
                0 <= i < caps@.len() && (#[trigger] caps@[i]).0@ == k by {
                if k == name@ {
                    assert(caps@[p as int].0@ == k);
                } else {
                    assert(m.dom().contains(k));
                    let i = choose|i: int| 0 <= i < start.len() && (#[trigger] start[i]).0@ == k;
                    if i < p {
                        assert(caps@[i].0@ == k);
                    } else {
                        assert(caps@[i + 1].0@ == k);
                    }
                }
            }
            assert(caps_sorted(caps@)) by {
                assert forall|i: int, j: int| 0 <= i < j < caps@.len() implies text::precedes(
                    (#[trigger] caps@[i]).0@,
                    (#[trigger] caps@[j]).0@,
                ) by {
                    if j < p {
                        assert(caps@[i] == start[i] && caps@[j] == start[j]);
                    } else if i > p {
                        assert(caps@[i] == start[i - 1] && caps@[j] == start[j - 1]);
                    } else if j == p {
                        assert(caps@[i] == start[i]);
                    } else if i == p {
                        assert(caps@[j] == start[j - 1]);
                    } else {
                        assert(caps@[i] == start[i] && caps@[j] == start[j - 1]);
                    }
                }
            }
        }
    }
}

/// The arguments of every call that the runtime streams are an object, whatever the model wrote.
pub proof fn law_args_are_an_object(kind: libia_generation_kind, chunk: Seq<char>, v: JsonView)
    ensures
        object_args(v) is Object,
        v is Object ==> object_args(v) == v,
        piece_of(kind, chunk) matches GenerationView::CallTool(c) ==> c.args is Object,
{
}

/// A runtime starts with the settings that it was given, each under its own name, the model first.
pub proof fn law_settings_reach_runtime(s: RuntimeSettings)
    ensures
        ({
            let calls = start_calls(s);
            &&& calls.len() >= 8
            &&& calls[0] == ParamView::ModelPath(s.model_path@)
            &&& calls[1] == ParamView::NCtx(s.ctx as nat)
            &&& calls[2] == ParamView::NPredict(s.n_predict as nat)
            &&& calls[3] == ParamView::NBatch(s.n_batch as nat)
            &&& calls[4] == ParamView::NUbatch(s.n_ubatch as nat)
            &&& calls[5] == ParamView::Temp(s.temp)
            &&& calls[6] == ParamView::TopP(s.top_p)
            &&& calls[7] == ParamView::TopK(s.top_k as nat)
            &&& s.ngl matches Some(n) ==> calls.contains(
                ParamView::GpuLayers(text::decimal(n as nat)),
            )
            &&& s.mmproj_path matches Some(p) ==> calls.contains(ParamView::MmprojPath(p@))
            &&& s.system_prompt matches Some(p) ==> calls.last() == ParamView::SystemPrompt(p@)
            &&& s.ngl is None && s.mmproj_path is None && s.system_prompt is None ==> calls.len()
                == 8
        }),
{
    let calls = start_calls(s);
    if s.ngl is Some {
        assert(calls[8] == ParamView::GpuLayers(text::decimal(s.ngl->0 as nat)));
    }
    if s.mmproj_path is Some {
        if s.ngl is Some {
            assert(calls[9] == ParamView::MmprojPath(s.mmproj_path->0@));
        } else {
            assert(calls[8] == ParamView::MmprojPath(s.mmproj_path->0@));
        }
    }
}

/// None of some texts holds a NUL.
pub open spec fn clean(texts: Seq<Seq<char>>) -> bool {
    forall|i: int| 0 <= i < texts.len() ==> !(#[trigger] texts[i]).contains('\0')
}

proof fn lemma_first_nul(texts: Seq<Seq<char>>)
    ensures
        first_nul(texts) is None <==> clean(texts),
        first_nul(texts) matches Some(t) ==> texts.contains(t) && t.contains('\0'),
    decreases texts.len(),
{
    if texts.len() > 0 {
        let rest = texts.subrange(1, texts.len() as int);
        lemma_first_nul(rest);
        assert(forall|i: int| 0 <= i < rest.len() ==> rest[i] == texts[i + 1]);
        if !texts[0].contains('\0') {
            if clean(rest) {
                assert forall|i: int| 0 <= i < texts.len() implies !(#[trigger] texts[i]).contains(
                    '\0',
                ) by {
                    if i > 0 {
                        assert(texts[i] == rest[i - 1]);
                    }
                }
            } else {
                let t = first_nul(rest)->0;
                let k = choose|k: int| 0 <= k < rest.len() && rest[k] == t;
                assert(texts[k + 1] == t);
            }
        } else {
            assert(texts[0] == texts[0]);
        }
    }
}

/// Calls run in their order up to the first that hands over a text with a NUL; there they stop
/// with that text as the reason. Without such a text all run.
pub proof fn law_calls_run_up_to_nul(before: Seq<ParamView>, bad: ParamView, rest: Seq<ParamView>)
    requires
        forall|i: int| 0 <= i < before.len() ==> clean(param_texts(#[trigger] before[i])),
    ensures
        runnable(before) == before,
        stop_of(before) is None,
        !clean(param_texts(bad)) ==> runnable(before.push(bad) + rest) == before && (stop_of(
            before.push(bad) + rest,
        ) matches Some(ErrorView::NulByte(t)) && param_texts(bad).contains(t) && t.contains('\0')),
    decreases before.len(),
{
    lemma_first_nul(param_texts(bad));
    if before.len() > 0 {
        assert(clean(param_texts(before[0])));
        lemma_first_nul(param_texts(before[0]));
        let less = before.subrange(1, before.len() as int);
        assert forall|i: int| 0 <= i < less.len() implies clean(param_texts(#[trigger] less[i])) by {
            assert(less[i] == before[i + 1]);
        }
        law_calls_run_up_to_nul(less, bad, rest);
        assert(seq![before[0]] + less =~= before);
        let all = before.push(bad) + rest;
        assert(all[0] == before[0]);
        assert(all.subrange(1, all.len() as int) =~= less.push(bad) + rest);
    } else {
        assert(runnable(before) =~= before);
        let all = before.push(bad) + rest;
        assert(all[0] == bad);
    }
}

/// Where calls with a NUL are left out, every other call is kept, in order.
pub proof fn law_clean_calls_are_kept(calls: Seq<ParamView>, c: ParamView)
    ensures
        clean(param_texts(c)) ==> valid_only(calls.push(c)) == valid_only(calls).push(c),
        !clean(param_texts(c)) ==> valid_only(calls.push(c)) == valid_only(calls),
        valid_only(Seq::empty()).len() == 0,
{
    lemma_first_nul(param_texts(c));
    assert(calls.push(c).drop_last() =~= calls);
}

/// A call that the runtime took has succeeded; one that it refused is an error.
pub proof fn law_refused_call_is_error(c: ParamView, native: Option<Seq<char>>)
    ensures
        param_outcome(c, true, native) is Ok,
        param_outcome(c, false, native) is Err,
{
}

/// What the runtime streams is read as what it is: text and reasoning as they are, a call with the
/// name, the id and the arguments of its JSON; a call that is no JSON carries its text.
pub proof fn law_piece_is_read(
    chunk: Seq<char>,
    v: JsonView,
    name: Seq<char>,
    id: Seq<char>,
    args: JsonView,
)
    ensures
        piece_of(libia_generation_kind::LIBIA_GENERATION_KIND_CONTENT, chunk)
            == GenerationView::Content(chunk),
        piece_of(libia_generation_kind::LIBIA_GENERATION_KIND_REASONING, chunk)
            == GenerationView::Reasoning(chunk),
        json::json_text(chunk) == Some(v) && v.field("name"@) == Some(JsonView::Text(name))
            && v.field("call_id"@) == Some(JsonView::Text(id)) && (v.field("args"@) == Some(args)
            || (v.field("args"@) is None && v.field("arguments"@) == Some(args))) ==> (piece_of(
            libia_generation_kind::LIBIA_GENERATION_KIND_TOOL_CALL,
            chunk,
        ) matches GenerationView::CallTool(c) && {
            &&& c.name == name
            &&& c.call_id == id
            &&& args is Object ==> c.args == args
            &&& forall|t: Seq<char>, p: JsonView|
                args == JsonView::Text(t) && json::json_text(t) == Some(p) && p is Object
                    ==> c.args == p
            &&& v.field("command"@) is None ==> c.command == name
        }),
        json::json_text(chunk) is None ==> (piece_of(
            libia_generation_kind::LIBIA_GENERATION_KIND_TOOL_CALL,
            chunk,
        ) matches GenerationView::CallTool(c) && c.args.field("raw"@) == Some(
            JsonView::Text(chunk),
        )),
{
}

/// The tokens of a list are read one by one, in order; what writes no number is passed over.
pub proof fn law_tokens_are_read(fields: Seq<Seq<char>>, n: nat, field: Seq<char>)
    requires
        n <= i32::MAX,
    ensures
        tokens_of(fields.push(text::decimal(n))) == tokens_of(fields).push(n as int),
        field.len() == 0 ==> tokens_of(fields.push(field)) == tokens_of(fields),
        tokens_of(Seq::empty()).len() == 0,
{
    let s = text::decimal(n);
    text::law_decimal_is_read_back(n);
    assert(text::is_digit(s[0]));
    assert(text::is_digit(s[s.len() - 1]));
    text::lemma_trimmed_same(s);
    assert(fields.push(s).drop_last() =~= fields);
    assert(fields.push(field).drop_last() =~= fields);
}

/// A media item in base64 is what stands behind the mark of its address, or the whole item where
/// it has none.
pub proof fn law_payload_stands_behind_mark(pre: Seq<char>, payload: Seq<char>)
    ensures
        (forall|j: int|
            0 <= j < pre.len() ==> !text::occurs_at(pre + "base64,"@ + payload, "base64,"@, j))
            ==> media_payload(pre + "base64,"@ + payload) == payload,
        !text::has(payload, "base64,"@) ==> media_payload(payload) == payload,
{
    reveal_strlit("base64,");
    let data = pre + "base64,"@ + payload;
    let at = pre.len() as int;
    assert(data.subrange(at, at + 7) =~= "base64,"@);
    text::lemma_first_from(data, "base64,"@, 0);
    assert(text::occurs_at(data, "base64,"@, at));
    assert(data.subrange(at + 7, data.len() as int) =~= payload);
    text::lemma_first_from(payload, "base64,"@, 0);
}

/// Messages go to the runtime one by one, in order, with their role, their words and their
/// reasoning, where there is any.
pub proof fn law_messages_reach_runtime(ms: Seq<chat::ChatMessageView>)
    ensures
        native_messages(ms).len() == ms.len(),
        forall|i: int|
            #![trigger ms[i]]
            0 <= i < ms.len() ==> native_messages(ms)[i].role == ms[i].role && native_messages(
                ms,
            )[i].content == ms[i].content && (ms[i].reasoning_content matches Some(r) && r.len()
                > 0 ==> native_messages(ms)[i].reasoning_content == ms[i].reasoning_content),
{
}

/// The names of the options come one by one, in order; options without a name are passed over.
pub proof fn law_option_names_are_listed(infos: Seq<OptionInfo>, info: OptionInfo)
    ensures
        info.name matches Some(n) ==> option_names(infos.push(info)) == option_names(infos).push(
            n@,
        ),
        info.name is None ==> option_names(infos.push(info)) == option_names(infos),
        option_names(Seq::empty()).len() == 0,
{
    assert(infos.push(info).drop_last() =~= infos);
}

/// Messages are refused exactly where the role, the words or the thoughts of one hold a NUL, and the
/// refusal shows such a text.
pub proof fn law_nul_in_message_is_found(ms: Seq<chat::ChatMessageView>)
    ensures
        messages_nul(ms) matches Some(t) ==> native::has_nul(t) && exists|i: int|
            0 <= i < ms.len() && message_texts(#[trigger] ms[i]).contains(t),
        messages_nul(ms) is None ==> forall|i: int|
            0 <= i < ms.len() ==> !native::has_nul((#[trigger] ms[i]).role) && !native::has_nul(
                ms[i].content,
            ) && (ms[i].reasoning_content is Some ==> !native::has_nul(
                ms[i].reasoning_content->0,
            )),
    decreases ms.len(),
{
    if ms.len() > 0 {
        let rest = ms.subrange(1, ms.len() as int);
        let texts = message_texts(ms[0]);
        reveal_with_fuel(first_nul, 4);
        law_nul_in_message_is_found(rest);
        match first_nul(texts) {
            Some(t) => {
                assert(texts.contains(t)) by {
                    assert(texts[0] == ms[0].role);
                    assert(texts[1] == ms[0].content);
                    assert(texts.subrange(1, texts.len() as int)[0] == texts[1]);
                    if texts.len() == 3 {
                        let r = texts.subrange(1, 3);
                        assert(r.subrange(1, 2)[0] == texts[2]);
                    }
                }
                assert(message_texts(ms[0]).contains(t));
            },
            None => {
                let r = texts.subrange(1, texts.len() as int);
                assert(r[0] == ms[0].content);
                if texts.len() == 3 {
                    assert(r.subrange(1, 2)[0] == texts[2]);
                }
                if messages_nul(rest) is Some {
                    let t = messages_nul(rest)->0;
                    let i = choose|i: int|
                        0 <= i < rest.len() && message_texts(#[trigger] rest[i]).contains(t);
                    assert(ms[i + 1] == rest[i]);
                }
                assert forall|i: int|
                    0 <= i < ms.len() && messages_nul(rest) is None implies !native::has_nul(
                    (#[trigger] ms[i]).role,
                ) && !native::has_nul(ms[i].content) && (ms[i].reasoning_content is Some
                    ==> !native::has_nul(ms[i].reasoning_content->0)) by {
                    if i > 0 {
                        assert(rest[i - 1] == ms[i]);
                    } else if ms[0].reasoning_content is Some && ms[0].reasoning_content->0.len()
                        == 0 {
                        assert(!ms[0].reasoning_content->0.contains('\0'));
                    }
                }
            },
        }
    }
}

} // verus!
