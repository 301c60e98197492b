//! Agents: what one is configured with, what it remembers, and what a turn leaves behind.

use vstd::prelude::*;

use crate::chat;
use crate::chat::{ChatMessage, ChatMessageView};
use crate::text;

verus! {

/// The part of an agent in the team: the root answers the user, an agent answers the root.
#[derive(Debug, Clone, Copy, PartialEq, Eq, Structural)]
pub enum AgentRole {
    Root,
    Agent,
}

/// The configuration of an agent.
#[derive(Debug, PartialEq)]
pub struct ConfigAgent {
    pub agent_id: String,
    pub role: AgentRole,
    /// The persona, sent as the first system message of the agent's own history.
    pub prompt: String,
    /// The tools of the agent; `None` where it has none.
    pub tools_json: Option<String>,
    /// Whether a round that promised an action and called no tool is pushed again.
    pub force_tools: bool,
}

/// The model of a configuration.
#[verifier::ext_equal]
pub struct ConfigAgentView {
    pub agent_id: Seq<char>,
    pub role: AgentRole,
    pub prompt: Seq<char>,
    pub tools_json: Option<Seq<char>>,
    pub force_tools: bool,
}

impl View for ConfigAgent {
    type V = ConfigAgentView;

    open spec fn view(&self) -> ConfigAgentView {
        ConfigAgentView {
            agent_id: self.agent_id@,
            role: self.role,
            prompt: self.prompt@,
            tools_json: text::opt_view(self.tools_json),
            force_tools: self.force_tools,
        }
    }
}

impl ConfigAgent {
    pub fn copy(&self) -> (r: ConfigAgent)
        ensures
            r@ == self@,
    {
        ConfigAgent {
            agent_id: self.agent_id.clone(),
            role: self.role,
            prompt: self.prompt.clone(),
            tools_json: text::copy_opt(&self.tools_json),
            force_tools: self.force_tools,
        }
    }
}

/// An agent at work: its configuration, its live history and the summary of its last work.
#[derive(Debug, PartialEq)]
pub struct AgentState {
    pub config: ConfigAgent,
    pub history: Vec<ChatMessage>,
    pub summary: Option<String>,
}

/// The model of an agent at work.
#[verifier::ext_equal]
pub struct AgentStateView {
    pub config: ConfigAgentView,
    pub history: Seq<ChatMessageView>,
    pub summary: Option<Seq<char>>,
}

impl View for AgentState {
    type V = AgentStateView;

    open spec fn view(&self) -> AgentStateView {
        AgentStateView {
            config: self.config@,
            history: text::views(self.history@),
            summary: text::opt_view(self.summary),
        }
    }
}

/// An agent that has not spoken yet.
pub open spec fn fresh_state(config: ConfigAgentView) -> AgentStateView {
    AgentStateView { config, history: Seq::empty(), summary: None }
}

impl AgentState {
    pub fn new(config: ConfigAgent) -> (r: AgentState)
        ensures
            r@ == fresh_state(config@),
    {
        let r = AgentState { config, history: Vec::new(), summary: None };
        assert(r@.history =~= Seq::empty());
        r
    }

    pub fn copy(&self) -> (r: AgentState)
        ensures
            r@ == self@,
    {
        AgentState {
            config: self.config.copy(),
            history: chat::copy_messages(&self.history),
            summary: text::copy_opt(&self.summary),
        }
    }
}

/// A piece of work for an agent.
#[derive(Debug, PartialEq)]
pub struct AgentTask {
    pub agent_id: String,
    pub input: String,
}

/// What generating cost. The rate is carried as the bit pattern of a 64-bit float.
#[derive(Debug, Clone, Copy, PartialEq, Eq, Structural)]
pub struct TurnStats {
    pub tokens: Option<i64>,
    pub tps: Option<u64>,
    pub context_tokens: Option<i64>,
}

/// The answer of a turn and what it cost.
#[derive(Debug, PartialEq)]
pub struct TurnResult {
    pub reply: String,
    pub tokens: Option<i64>,
    pub tps: Option<u64>,
    pub context_tokens: Option<i64>,
}

/// The model of a turn's result.
#[verifier::ext_equal]
pub struct TurnResultView {
    pub reply: Seq<char>,
    pub stats: TurnStats,
}

impl View for TurnResult {
    type V = TurnResultView;

    open spec fn view(&self) -> TurnResultView {
        TurnResultView {
            reply: self.reply@,
            stats: TurnStats {
                tokens: self.tokens,
                tps: self.tps,
                context_tokens: self.context_tokens,
            },
        }
    }
}

/// One line of the persistent history.
#[derive(Debug, PartialEq)]
pub struct HistoryRow {
    pub agent_id: String,
    pub kind: String,
    pub input: String,
    pub reply: String,
    pub tokens: Option<i64>,
    pub tps: Option<u64>,
    pub context_tokens: Option<i64>,
    pub session_id: String,
    pub mode: String,
}

/// The model of a history line.
#[verifier::ext_equal]
pub struct HistoryRowView {
    pub agent_id: Seq<char>,
    pub kind: Seq<char>,
    pub input: Seq<char>,
    pub reply: Seq<char>,
    pub stats: TurnStats,
    pub session_id: Seq<char>,
    pub mode: Seq<char>,
}

impl View for HistoryRow {
    type V = HistoryRowView;

    open spec fn view(&self) -> HistoryRowView {
        HistoryRowView {
            agent_id: self.agent_id@,
            kind: self.kind@,
            input: self.input@,
            reply: self.reply@,
            stats: TurnStats {
                tokens: self.tokens,
                tps: self.tps,
                context_tokens: self.context_tokens,
            },
            session_id: self.session_id@,
            mode: self.mode@,
        }
    }
}

/// What an agent reports while it works.
#[derive(Debug, PartialEq)]
pub enum ManagerEvent {
    Stream(crate::chat::GenerationType),
    ToolStart(String),
    ToolResult(String, String),
    Status(String),
    AgentWorking(String),
}

/// The model of a report.
#[verifier::ext_equal]
pub enum ManagerEventView {
    Stream(crate::chat::GenerationView),
    ToolStart(Seq<char>),
    ToolResult(Seq<char>, Seq<char>),
    Status(Seq<char>),
    AgentWorking(Seq<char>),
}

impl View for ManagerEvent {
    type V = ManagerEventView;

    open spec fn view(&self) -> ManagerEventView {
        match self {
            ManagerEvent::Stream(g) => ManagerEventView::Stream(g@),
            ManagerEvent::ToolStart(n) => ManagerEventView::ToolStart(n@),
            ManagerEvent::ToolResult(n, t) => ManagerEventView::ToolResult(n@, t@),
            ManagerEvent::Status(t) => ManagerEventView::Status(t@),
            ManagerEvent::AgentWorking(id) => ManagerEventView::AgentWorking(id@),
        }
    }
}

} // verus!
