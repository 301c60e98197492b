//! What the screen and the worker behind it tell each other.

use crate::config::CloudKind;
use crate::orchestrator::AgentMode;
use crate::provider::{EntryView, ProviderEntry};
use crate::text;
use vstd::prelude::*;

verus! {

/// What the screen asks of the worker.
#[derive(Debug, PartialEq)]
pub enum WorkerMsg {
    Turn(String),
    SetMode(AgentMode),
    SetSession(String),
    /// Makes the provider with an id the one of the root.
    SetProvider(String),
    /// Lists the models of the active remote provider.
    ListModels,
    /// Sets the model of the active remote provider and how hard it thinks.
    SetModelAndEffort(String, String),
    /// Sets the local model and starts its runtime.
    SetLocalModel { model: String, mmproj: String },
    /// Adds a remote provider and makes it the active one.
    AddCloudProvider {
        kind: CloudKind,
        base_url: String,
        model: String,
        api_key: String,
    },
}

/// The model of what is asked of the worker.
#[verifier::ext_equal]
pub enum WorkerMsgView {
    Turn(Seq<char>),
    SetMode(AgentMode),
    SetSession(Seq<char>),
    SetProvider(Seq<char>),
    ListModels,
    SetModelAndEffort(Seq<char>, Seq<char>),
    SetLocalModel { model: Seq<char>, mmproj: Seq<char> },
    AddCloudProvider {
        kind: CloudKind,
        base_url: Seq<char>,
        model: Seq<char>,
        api_key: Seq<char>,
    },
}

impl View for WorkerMsg {
    type V = WorkerMsgView;

    open spec fn view(&self) -> WorkerMsgView {
        match self {
            WorkerMsg::Turn(s) => WorkerMsgView::Turn(s@),
            WorkerMsg::SetMode(m) => WorkerMsgView::SetMode(*m),
            WorkerMsg::SetSession(id) => WorkerMsgView::SetSession(id@),
            WorkerMsg::SetProvider(id) => WorkerMsgView::SetProvider(id@),
            WorkerMsg::ListModels => WorkerMsgView::ListModels,
            WorkerMsg::SetModelAndEffort(m, e) => WorkerMsgView::SetModelAndEffort(m@, e@),
            WorkerMsg::SetLocalModel { model, mmproj } => WorkerMsgView::SetLocalModel {
                model: model@,
                mmproj: mmproj@,
            },
            WorkerMsg::AddCloudProvider { kind, base_url, model, api_key } => {
                WorkerMsgView::AddCloudProvider {
                    kind: *kind,
                    base_url: base_url@,
                    model: model@,
                    api_key: api_key@,
                }
            },
        }
    }
}

/// What the worker tells the screen. A rate is the bit pattern of a 64-bit
/// float, and comes with the text that shows it.
#[derive(Debug, PartialEq)]
pub enum UiEvent {
    Content(String),
    Reasoning(String),
    ToolCall(String),
    ToolStart(String),
    ToolResult { name: String, result: String },
    Status(String),
    Stats { tokens: i64, tps: u64, shown: String },
    ContextUsage { used: usize, max: usize },
    ModeChanged(AgentMode),
    AgentWorking(String),
    Muted(String),
    Failure(String),
    Done,
    Providers { entries: Vec<ProviderEntry>, selected: Option<String> },
    Models { models: Vec<String>, current: String, effort: String },
    ModelReady { model: String, thinking: bool },
}

/// The model of what the worker tells the screen.
#[verifier::ext_equal]
pub enum UiEventView {
    Content(Seq<char>),
    Reasoning(Seq<char>),
    ToolCall(Seq<char>),
    ToolStart(Seq<char>),
    ToolResult { name: Seq<char>, result: Seq<char> },
    Status(Seq<char>),
    Stats { tokens: i64, tps: u64, shown: Seq<char> },
    ContextUsage { used: nat, max: nat },
    ModeChanged(AgentMode),
    AgentWorking(Seq<char>),
    Muted(Seq<char>),
    Failure(Seq<char>),
    Done,
    Providers { entries: Seq<EntryView>, selected: Option<Seq<char>> },
    Models { models: Seq<Seq<char>>, current: Seq<char>, effort: Seq<char> },
    ModelReady { model: Seq<char>, thinking: bool },
}

impl View for UiEvent {
    type V = UiEventView;

    open spec fn view(&self) -> UiEventView {
        match self {
            UiEvent::Content(s) => UiEventView::Content(s@),
            UiEvent::Reasoning(s) => UiEventView::Reasoning(s@),
            UiEvent::ToolCall(s) => UiEventView::ToolCall(s@),
            UiEvent::ToolStart(s) => UiEventView::ToolStart(s@),
            UiEvent::ToolResult { name, result } => UiEventView::ToolResult {
                name: name@,
                result: result@,
            },
            UiEvent::Status(s) => UiEventView::Status(s@),
            UiEvent::Stats { tokens, tps, shown } => UiEventView::Stats {
                tokens: *tokens,
                tps: *tps,
                shown: shown@,
            },
            UiEvent::ContextUsage { used, max } => UiEventView::ContextUsage {
                used: *used as nat,
                max: *max as nat,
            },
            UiEvent::ModeChanged(m) => UiEventView::ModeChanged(*m),
            UiEvent::AgentWorking(s) => UiEventView::AgentWorking(s@),
            UiEvent::Muted(s) => UiEventView::Muted(s@),
            UiEvent::Failure(s) => UiEventView::Failure(s@),
            UiEvent::Done => UiEventView::Done,
            UiEvent::Providers { entries, selected } => UiEventView::Providers {
                entries: text::views(entries@),
                selected: text::opt_view(*selected),
            },
            UiEvent::Models { models, current, effort } => UiEventView::Models {
                models: text::views(models@),
                current: current@,
                effort: effort@,
            },
            UiEvent::ModelReady { model, thinking } => UiEventView::ModelReady {
                model: model@,
                thinking: *thinking,
            },
        }
    }
}

} // verus!
