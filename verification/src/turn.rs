//! One turn of an agent: rounds of generation and tools, as a machine that is told what the
//! model and the tools answered and says what to do next.

use vstd::prelude::*;

use crate::agents::{
    AgentState, AgentStateView, ConfigAgentView, HistoryRow, HistoryRowView, ManagerEvent,
    ManagerEventView, TurnResult, TurnResultView, TurnStats,
};
use crate::chat;
use crate::chat::{ChatMessage, ChatMessageView, GenerationType, GenerationView, ToolCall, ToolCallView};
use crate::json;
use crate::json::{Json, JsonView};
use crate::text;
use crate::tool_text;

verus! {

/// What an agent is told when a forced round called no tool.
pub const NUDGE: &'static str = "\nATENCAO: a sua resposta anterior NAO executou nenhuma ferramenta. Se a tarefa do usuario exige uma ferramenta, essa acao NAO foi feita e voce NAO deve reportar como feita. Chame AGORA a ferramenta apropriada com os argumentos completos. Se a tarefa nao requer ferramenta, responda a pergunta do usuario diretamente, sem falar em ferramentas.";

/// What a turn waits for.
#[derive(Debug, Clone, Copy, PartialEq, Eq, Structural)]
pub enum Phase {
    /// The model is to answer the messages of the turn.
    Generating,
    /// The tool of the current call is to run.
    Tooling,
    /// The turn has its reply.
    Done,
    /// Every round was spent on tools.
    Exhausted,
}

/// A turn under way.
pub struct Turn {
    pub state: AgentState,
    /// The messages in the shape that a remote provider takes; local turns keep none.
    pub messages: Vec<Json>,
    pub remote: bool,
    pub limit: usize,
    pub round: usize,
    pub nudges: usize,
    pub any_tool_executed: bool,
    pub calls: Vec<ToolCall>,
    pub next_call: usize,
    pub phase: Phase,
    pub reply: String,
    pub stats: TurnStats,
}

/// The model of a turn.
#[verifier::ext_equal]
pub struct TurnView {
    pub state: AgentStateView,
    pub messages: Seq<JsonView>,
    pub remote: bool,
    pub limit: nat,
    pub round: nat,
    pub nudges: nat,
    pub any_tool_executed: bool,
    pub calls: Seq<ToolCallView>,
    pub next_call: nat,
    pub phase: Phase,
    pub reply: Seq<char>,
    pub stats: TurnStats,
}

impl View for Turn {
    type V = TurnView;

    open spec fn view(&self) -> TurnView {
        TurnView {
            state: self.state@,
            messages: json::items_view(self.messages@),
            remote: self.remote,
            limit: self.limit as nat,
            round: self.round as nat,
            nudges: self.nudges as nat,
            any_tool_executed: self.any_tool_executed,
            calls: text::views(self.calls@),
            next_call: self.next_call as nat,
            phase: self.phase,
            reply: self.reply@,
            stats: self.stats,
        }
    }
}

/// What the model answered in one round.
#[derive(Debug, PartialEq)]
pub struct RemoteModelOutput {
    pub content: String,
    pub reasoning: String,
    pub calls: Vec<ToolCall>,
    pub tokens: Option<i64>,
    pub tps: Option<u64>,
    pub context_tokens: Option<i64>,
}

/// The model of a round's answer.
#[verifier::ext_equal]
pub struct OutputView {
    pub content: Seq<char>,
    pub reasoning: Seq<char>,
    pub calls: Seq<ToolCallView>,
    pub stats: TurnStats,
}

impl View for RemoteModelOutput {
    type V = OutputView;

    open spec fn view(&self) -> OutputView {
        OutputView {
            content: self.content@,
            reasoning: self.reasoning@,
            calls: text::views(self.calls@),
            stats: TurnStats {
                tokens: self.tokens,
                tps: self.tps,
                context_tokens: self.context_tokens,
            },
        }
    }
}

/// What came of a tool.
#[derive(Debug, PartialEq)]
pub enum ToolOutcome {
    Done(String),
    Failed(String),
    NoExecutor,
}

/// The text that stands for the outcome of a tool.
pub open spec fn outcome_text(o: ToolOutcome) -> Seq<char> {
    match o {
        ToolOutcome::Done(t) => t@,
        ToolOutcome::Failed(e) => "ERROR: "@ + e@,
        ToolOutcome::NoExecutor => "(sem executor de ferramentas)"@,
    }
}

/// The number of rounds that a turn may take. A forced agent has one round more, without
/// tools, so that it always answers.
pub open spec fn round_limit(config: ConfigAgentView, max_tool_rounds: nat) -> nat {
    if config.tools_json is None {
        1
    } else if config.force_tools {
        max_tool_rounds + 1
    } else {
        max_tool_rounds
    }
}

/// The history with which a turn begins: the persona where nothing was said yet, then the input.
pub open spec fn opened_history(state: AgentStateView, input: Seq<char>) -> Seq<ChatMessageView> {
    let persona = if state.history.len() == 0 && state.config.prompt.len() > 0 {
        seq![chat::plain_message("system"@, state.config.prompt)]
    } else {
        Seq::empty()
    };
    (state.history + persona).push(chat::plain_message("user"@, input))
}

/// A message in the shape that a remote provider takes.
pub open spec fn wire_message(role: Seq<char>, content: Seq<char>) -> JsonView {
    JsonView::Object(
        Map::empty().insert("role"@, JsonView::Text(role)).insert(
            "content"@,
            JsonView::Text(content),
        ),
    )
}

/// A history in the shape that a remote provider takes.
pub open spec fn wire_history(history: Seq<ChatMessageView>) -> Seq<JsonView> {
    Seq::new(history.len(), |i: int| wire_message(history[i].role, history[i].content))
}

/// The report at the start of a round.
pub open spec fn round_status(id: Seq<char>, round: nat) -> ManagerEventView {
    ManagerEventView::Status(id + ": gerando ("@ + text::decimal(round + 1) + ")"@)
}

/// A turn at its start.
pub open spec fn opened(
    state: AgentStateView,
    input: Seq<char>,
    max_tool_rounds: nat,
    remote: bool,
) -> TurnView {
    let history = opened_history(state, input);
    let limit = round_limit(state.config, max_tool_rounds);
    TurnView {
        state: AgentStateView { history, ..state },
        messages: if remote {
            wire_history(history)
        } else {
            Seq::empty()
        },
        remote,
        limit,
        round: 0,
        nudges: 0,
        any_tool_executed: false,
        calls: Seq::empty(),
        next_call: 0,
        phase: if limit > 0 {
            Phase::Generating
        } else {
            Phase::Exhausted
        },
        reply: Seq::empty(),
        stats: TurnStats { tokens: None, tps: None, context_tokens: None },
    }
}

/// What is reported when a turn begins.
pub open spec fn opening_events(state: AgentStateView, limit: nat) -> Seq<ManagerEventView> {
    let working = seq![ManagerEventView::AgentWorking(state.config.agent_id)];
    if limit > 0 {
        working.push(round_status(state.config.agent_id, 0))
    } else {
        working
    }
}

/// Whether the tools are offered in the current round: always, except in the last round of a
/// forced agent.
pub open spec fn offers_tools(t: TurnView) -> bool {
    t.state.config.tools_json is Some && (!t.state.config.force_tools || t.round + 1 < t.limit)
}

/// The calls of an answer: those that the model emitted, or else the one that it wrote as text.
pub open spec fn effective_calls(out: OutputView) -> Seq<ToolCallView> {
    if out.calls.len() == 0 {
        match tool_text::written_call(out.content) {
            Some(c) => seq![c],
            None => Seq::empty(),
        }
    } else {
        out.calls
    }
}

/// What is reported where a call was recovered from text.
pub open spec fn recovery_events(out: OutputView) -> Seq<ManagerEventView> {
    if out.calls.len() == 0 {
        match tool_text::written_call(out.content) {
            Some(c) => seq![
                ManagerEventView::Status("tool call via fallback JSON: "@ + c.name),
            ],
            None => Seq::empty(),
        }
    } else {
        Seq::empty()
    }
}

/// A call in the shape that a remote provider takes.
pub open spec fn wire_call(c: ToolCallView) -> JsonView {
    JsonView::Object(
        Map::empty().insert("id"@, JsonView::Text(c.call_id)).insert(
            "type"@,
            JsonView::Text("function"@),
        ).insert(
            "function"@,
            JsonView::Object(
                Map::empty().insert("name"@, JsonView::Text(c.name)).insert(
                    "arguments"@,
                    JsonView::Text(json::compact_json(c.args)),
                ),
            ),
        ),
    )
}

/// The calls in the shape that a remote provider takes.
pub open spec fn wire_calls(calls: Seq<ToolCallView>) -> Seq<JsonView> {
    Seq::new(calls.len(), |i: int| wire_call(calls[i]))
}

/// The assistant's message in the shape that a remote provider takes.
pub open spec fn wire_answer(content: Seq<char>, calls: Seq<ToolCallView>) -> JsonView {
    let plain = wire_message("assistant"@, content);
    if calls.len() == 0 {
        plain
    } else {
        JsonView::Object(
            json::members(plain).insert("tool_calls"@, JsonView::Array(wire_calls(calls))),
        )
    }
}

/// The assistant's message in the history. A remote answer keeps no reasoning.
pub open spec fn answer_message(out: OutputView, remote: bool) -> ChatMessageView {
    ChatMessageView {
        role: "assistant"@,
        content: out.content,
        reasoning_content: if remote || out.reasoning.len() == 0 {
            None
        } else {
            Some(out.reasoning)
        },
    }
}

/// A forced round that called no tool is pushed again, at most twice, while no tool ran.
pub open spec fn is_nudged(t: TurnView) -> bool {
    offers_tools(t) && t.state.config.force_tools && !t.any_tool_executed && t.round + 1 < t.limit
        && t.nudges < 2
}

/// A turn with one more message in its history.
pub open spec fn with_message(t: TurnView, m: ChatMessageView) -> TurnView {
    TurnView { state: AgentStateView { history: t.state.history.push(m), ..t.state }, ..t }
}

/// A turn with one more message for the remote provider, where the turn is remote.
pub open spec fn with_wire(t: TurnView, m: JsonView) -> TurnView {
    TurnView {
        messages: if t.remote {
            t.messages.push(m)
        } else {
            t.messages
        },
        ..t
    }
}

/// A turn that has its reply.
pub open spec fn replied(t: TurnView, reply: Seq<char>) -> TurnView {
    TurnView { phase: Phase::Done, reply, ..t }
}

/// A turn in its next round, or out of rounds.
pub open spec fn next_round(t: TurnView) -> TurnView {
    TurnView {
        round: t.round + 1,
        phase: if t.round + 1 < t.limit {
            Phase::Generating
        } else {
            Phase::Exhausted
        },
        ..t
    }
}

/// What is reported when the round after the current one begins.
pub open spec fn next_round_events(t: TurnView) -> Seq<ManagerEventView> {
    if t.round + 1 < t.limit {
        seq![round_status(t.state.config.agent_id, t.round + 1)]
    } else {
        Seq::empty()
    }
}

/// A turn that has heard the model's answer but not decided on it.
pub open spec fn heard(t: TurnView, out: OutputView) -> TurnView {
    let calls = effective_calls(out);
    let said = with_wire(
        with_message(t, answer_message(out, t.remote)),
        wire_answer(out.content, calls),
    );
    TurnView { calls, next_call: 0, stats: out.stats, ..said }
}

/// A turn after the model's answer.
pub open spec fn after_output(t: TurnView, out: OutputView, interrupted: bool) -> TurnView {
    let h = heard(t, out);
    if interrupted {
        replied(h, out.content)
    } else if offers_tools(t) && h.calls.len() > 0 {
        TurnView { phase: Phase::Tooling, ..h }
    } else if is_nudged(t) {
        let pushed = with_wire(
            with_message(h, chat::plain_message("user"@, NUDGE@)),
            wire_message("user"@, NUDGE@),
        );
        TurnView { nudges: (t.nudges + 1) as nat, ..next_round(pushed) }
    } else {
        replied(h, out.content)
    }
}

/// What is reported after the model's answer.
pub open spec fn output_events(t: TurnView, out: OutputView, interrupted: bool) -> Seq<
    ManagerEventView,
> {
    let id = t.state.config.agent_id;
    let calls = effective_calls(out);
    recovery_events(out) + if interrupted {
        seq![ManagerEventView::Status("interrompido"@)]
    } else if offers_tools(t) && calls.len() > 0 {
        seq![ManagerEventView::ToolStart(calls[0].name)]
    } else if is_nudged(t) {
        seq![
            ManagerEventView::Status(
                "sem tool call em "@ + id + "; forcando (round "@ + text::decimal(t.round + 2) + ")"@,
            ),
        ] + next_round_events(t)
    } else {
        seq![ManagerEventView::Status("done"@)]
    }
}

/// The message that carries a tool's outcome back to the model.
pub open spec fn tool_block(c: ToolCallView, result: Seq<char>) -> Seq<char> {
    "\n<tool_result> name="@ + c.name + " id="@ + c.call_id + "\n"@ + result + "\n</tool_result>"@
}

/// A tool's outcome in the shape that a remote provider takes.
pub open spec fn wire_tool(c: ToolCallView, block: Seq<char>) -> JsonView {
    JsonView::Object(
        Map::empty().insert("role"@, JsonView::Text("tool"@)).insert(
            "tool_call_id"@,
            JsonView::Text(c.call_id),
        ).insert("content"@, JsonView::Text(block)),
    )
}

/// A turn after the current tool has ended.
pub open spec fn after_tool(t: TurnView, result: Seq<char>) -> TurnView {
    let call = t.calls[t.next_call as int];
    let block = tool_block(call, result);
    let told = with_wire(
        with_message(t, chat::plain_message("user"@, block)),
        wire_tool(call, block),
    );
    let moved = TurnView { next_call: t.next_call + 1, ..told };
    if t.next_call + 1 < t.calls.len() {
        moved
    } else {
        next_round(TurnView { any_tool_executed: true, ..moved })
    }
}

/// What is reported after the current tool has ended.
pub open spec fn tool_events(t: TurnView, result: Seq<char>, elapsed: Seq<char>) -> Seq<
    ManagerEventView,
> {
    let ended = ManagerEventView::ToolResult(
        t.calls[t.next_call as int].name,
        "[executou em "@ + elapsed + "s]\n"@ + result,
    );
    seq![ended] + if t.next_call + 1 < t.calls.len() {
        seq![ManagerEventView::ToolStart(t.calls[t.next_call as int + 1].name)]
    } else {
        next_round_events(t)
    }
}

impl TurnView {
    /// What every turn keeps: it waits for the model only in a round that is left, and for a
    /// tool only where tools are offered and a call is left.
    pub open spec fn valid(self) -> bool {
        &&& self.round <= self.limit <= usize::MAX
        &&& self.nudges <= 2
        &&& self.phase == Phase::Generating ==> self.round < self.limit
        &&& self.phase == Phase::Tooling ==> self.round < self.limit && self.next_call
            < self.calls.len() && offers_tools(self)
        &&& self.state.config.tools_json is None ==> self.limit == 1 && self.phase
            != Phase::Exhausted
        &&& self.state.config.force_tools ==> self.phase != Phase::Exhausted
    }
}

/// The messages of a history in the shape that a remote provider takes.
fn to_wire(history: &Vec<ChatMessage>) -> (r: Vec<Json>)
    ensures
        json::items_view(r@) == wire_history(text::views(history@)),
{
    let mut out: Vec<Json> = Vec::new();
    let mut i: usize = 0;
    while i < history.len()
        invariant
            i <= history@.len(),
            out@.len() == i,
            forall|k: int|
                0 <= k < i ==> (#[trigger] out@[k])@ == wire_message(
                    history@[k]@.role,
                    history@[k]@.content,
                ),
        decreases history@.len() - i,
    {
        out.push(message_json(history[i].role.as_str(), history[i].content.as_str()));
        i = i + 1;
    }
    proof {
        json::lemma_items_view(out@);
        assert(json::items_view(out@) =~= wire_history(text::views(history@)));
    }
    out
}

fn message_json(role: &str, content: &str) -> (r: Json)
    ensures
        r@ == wire_message(role@, content@),
{
    Json::empty_object().with("role", Json::text(role)).with("content", Json::text(content))
}

fn call_json(c: &ToolCall) -> (r: Json)
    ensures
        r@ == wire_call(c@),
{
    let arguments = json::write(&c.args);
    let function = Json::empty_object().with("name", Json::text(c.name.as_str())).with(
        "arguments",
        Json::text(arguments.as_str()),
    );
    Json::empty_object().with("id", Json::text(c.call_id.as_str())).with(
        "type",
        Json::text("function"),
    ).with("function", function)
}

fn answer_json(content: &str, calls: &Vec<ToolCall>) -> (r: Json)
    ensures
        r@ == wire_answer(content@, text::views(calls@)),
{
    let plain = message_json("assistant", content);
    if calls.len() == 0 {
        return plain;
    }
    let mut out: Vec<Json> = Vec::new();
    let mut i: usize = 0;
    while i < calls.len()
        invariant
            i <= calls@.len(),
            out@.len() == i,
            forall|k: int| 0 <= k < i ==> (#[trigger] out@[k])@ == wire_call(calls@[k]@),
        decreases calls@.len() - i,
    {
        out.push(call_json(&calls[i]));
        i = i + 1;
    }
    proof {
        json::lemma_items_view(out@);
        assert(json::items_view(out@) =~= wire_calls(text::views(calls@)));
    }
    plain.with("tool_calls", Json::Array(out))
}

fn round_event(id: &str, round: usize) -> (r: ManagerEvent)
    requires
        round < usize::MAX,
    ensures
        r@ == round_status(id@, round as nat),
{
    let n = text::write_usize(round + 1);
    ManagerEvent::Status(text::cat4(id, ": gerando (", n.as_str(), ")"))
}

impl Turn {
    /// Begins a turn of an agent with the given input.
    pub fn begin(state: AgentState, input: &str, max_tool_rounds: usize, remote: bool) -> (r: (
        Turn,
        Vec<ManagerEvent>,
    ))
        requires
            state.config.force_tools && state.config.tools_json is Some ==> max_tool_rounds
                < usize::MAX,
        ensures
            r.0@ == opened(state@, input@, max_tool_rounds as nat, remote),
            text::views(r.1@) == opening_events(state@, r.0@.limit),
            r.0@.valid(),
    {
        let ghost before = state@;
        let mut state = state;
        if state.history.len() == 0 && state.config.prompt.as_str().unicode_len() > 0 {
            let persona = ChatMessage::plain("system", state.config.prompt.as_str());
            state.history.push(persona);
        }
        let said = ChatMessage::plain("user", input);
        state.history.push(said);
        assert(text::views(state.history@) =~= opened_history(before, input@));
        let limit: usize = if state.config.tools_json.is_none() {
            1
        } else if state.config.force_tools {
            max_tool_rounds + 1
        } else {
            max_tool_rounds
        };
        let messages = if remote {
            to_wire(&state.history)
        } else {
            Vec::new()
        };
        let mut events: Vec<ManagerEvent> = Vec::new();
        events.push(ManagerEvent::AgentWorking(state.config.agent_id.clone()));
        if limit > 0 {
            events.push(round_event(state.config.agent_id.as_str(), 0));
        }
        let phase = if limit > 0 {
            Phase::Generating
        } else {
            Phase::Exhausted
        };
        let turn = Turn {
            state,
            messages,
            remote,
            limit,
            round: 0,
            nudges: 0,
            any_tool_executed: false,
            calls: Vec::new(),
            next_call: 0,
            phase,
            reply: String::new(),
            stats: TurnStats { tokens: None, tps: None, context_tokens: None },
        };
        proof {
            assert(turn@.calls =~= Seq::empty());
            assert(turn@.reply =~= Seq::empty());
            assert(turn@ =~= opened(before, input@, max_tool_rounds as nat, remote));
            assert(text::views(events@) =~= opening_events(before, turn@.limit));
        }
        (turn, events)
    }

    fn say(&mut self, message: ChatMessage)
        ensures
            final(self)@ == with_message(old(self)@, message@),
    {
        self.state.history.push(message);
        assert(text::views(self.state.history@) =~= text::views(old(self).state.history@).push(
            message@,
        ));
        assert(self@ =~= with_message(old(self)@, message@));
    }

    fn say_wire(&mut self, message: Json)
        ensures
            final(self)@ == with_wire(old(self)@, message@),
    {
        if self.remote {
            self.messages.push(message);
            proof {
                json::lemma_items_push(old(self).messages@, message);
            }
        }
        assert(self@ =~= with_wire(old(self)@, message@));
    }

    fn advance(&mut self) -> (r: Vec<ManagerEvent>)
        requires
            old(self).round < old(self).limit,
        ensures
            final(self)@ == next_round(old(self)@),
            text::views(r@) == next_round_events(old(self)@),
    {
        let mut events: Vec<ManagerEvent> = Vec::new();
        self.round = self.round + 1;
        if self.round < self.limit {
            self.phase = Phase::Generating;
            events.push(round_event(self.state.config.agent_id.as_str(), self.round));
        } else {
            self.phase = Phase::Exhausted;
        }
        assert(text::views(events@) =~= next_round_events(old(self)@));
        assert(self@ =~= next_round(old(self)@));
        events
    }

    /// Whether the tools are offered in the current round.
    pub fn offers(&self) -> (r: bool)
        requires
            self.round < self.limit,
        ensures
            r == offers_tools(self@),
    {
        self.state.config.tools_json.is_some() && (!self.state.config.force_tools || self.round + 1
            < self.limit)
    }

    /// Takes the model's answer to the current round. `interrupted` says that the user asked
    /// to stop meanwhile.
    pub fn on_output(&mut self, output: RemoteModelOutput, interrupted: bool) -> (r: Vec<
        ManagerEvent,
    >)
        requires
            old(self)@.valid(),
            old(self)@.phase == Phase::Generating,
        ensures
            final(self)@ == after_output(old(self)@, output@, interrupted),
            text::views(r@) == output_events(old(self)@, output@, interrupted),
            final(self)@.valid(),
    {
        let ghost t = self@;
        let ghost out = output@;
        let offered = self.offers();
        let mut events: Vec<ManagerEvent> = Vec::new();
        let mut calls = output.calls;
        if calls.len() == 0 {
            match tool_text::parse_tool_json(output.content.as_str()) {
                Some(call) => {
                    events.push(
                        ManagerEvent::Status(
                            text::cat2("tool call via fallback JSON: ", call.name.as_str()),
                        ),
                    );
                    calls.push(call);
                },
                None => {},
            }
        }
        assert(text::views(calls@) =~= effective_calls(out));
        assert(text::views(events@) =~= recovery_events(out));
        let reasoning_content = if self.remote || output.reasoning.as_str().unicode_len() == 0 {
            None
        } else {
            Some(output.reasoning)
        };
        let answer = ChatMessage {
            role: "assistant".to_string(),
            content: output.content.clone(),
            reasoning_content,
        };
        assert(answer@ =~= answer_message(out, t.remote));
        self.say(answer);
        let wire = answer_json(output.content.as_str(), &calls);
        self.say_wire(wire);
        let any_calls = calls.len() > 0;
        self.calls = calls;
        self.next_call = 0;
        self.stats = TurnStats {
            tokens: output.tokens,
            tps: output.tps,
            context_tokens: output.context_tokens,
        };
        assert(self@ =~= heard(t, out));
        if interrupted {
            self.phase = Phase::Done;
            self.reply = output.content;
            events.push(ManagerEvent::Status("interrompido".to_string()));
            assert(text::views(events@) =~= output_events(t, out, interrupted));
            assert(self@ =~= after_output(t, out, interrupted));
        } else if offered && any_calls {
            self.phase = Phase::Tooling;
            events.push(ManagerEvent::ToolStart(self.calls[0].name.clone()));
            assert(text::views(events@) =~= output_events(t, out, interrupted));
            assert(self@ =~= after_output(t, out, interrupted));
        } else if offered && self.state.config.force_tools && !self.any_tool_executed && self.round
            + 1 < self.limit && self.nudges < 2 {
            let n = text::write_usize(self.round + 2);
            events.push(
                ManagerEvent::Status(
                    text::cat5(
                        "sem tool call em ",
                        self.state.config.agent_id.as_str(),
                        "; forcando (round ",
                        n.as_str(),
                        ")",
                    ),
                ),
            );
            let ghost said = text::views(events@);
            self.say(ChatMessage::plain("user", NUDGE));
            self.say_wire(message_json("user", NUDGE));
            let mut more = self.advance();
            self.nudges = self.nudges + 1;
            let ghost more_views = text::views(more@);
            events.append(&mut more);
            assert(text::views(events@) =~= said + more_views);
            assert(text::views(events@) =~= output_events(t, out, interrupted));
            assert(self@ =~= after_output(t, out, interrupted));
        } else {
            self.phase = Phase::Done;
            self.reply = output.content;
            events.push(ManagerEvent::Status("done".to_string()));
            assert(text::views(events@) =~= output_events(t, out, interrupted));
            assert(self@ =~= after_output(t, out, interrupted));
        }
        events
    }

    /// Takes the outcome of the current tool, which ran for `elapsed` seconds.
    pub fn on_tool(&mut self, outcome: ToolOutcome, elapsed: &str) -> (r: Vec<ManagerEvent>)
        requires
            old(self)@.valid(),
            old(self)@.phase == Phase::Tooling,
        ensures
            final(self)@ == after_tool(old(self)@, outcome_text(outcome)),
            text::views(r@) == tool_events(old(self)@, outcome_text(outcome), elapsed@),
            final(self)@.valid(),
    {
        let ghost t = self@;
        let ghost result_view = outcome_text(outcome);
        let result = match outcome {
            ToolOutcome::Done(t) => t,
            ToolOutcome::Failed(e) => text::cat2("ERROR: ", e.as_str()),
            ToolOutcome::NoExecutor => "(sem executor de ferramentas)".to_string(),
        };
        let name = self.calls[self.next_call].name.clone();
        let call_id = self.calls[self.next_call].call_id.clone();
        let mut events: Vec<ManagerEvent> = Vec::new();
        events.push(
            ManagerEvent::ToolResult(
                name.clone(),
                text::cat4("[executou em ", elapsed, "s]\n", result.as_str()),
            ),
        );
        let mut block = text::cat4("\n<tool_result> name=", name.as_str(), " id=", call_id.as_str());
        block.append("\n");
        block.append(result.as_str());
        block.append("\n</tool_result>");
        assert(block@ == tool_block(t.calls[t.next_call as int], result_view));
        self.say(ChatMessage::plain("user", block.as_str()));
        let wire = Json::empty_object().with("role", Json::text("tool")).with(
            "tool_call_id",
            Json::text(call_id.as_str()),
        ).with("content", Json::text(block.as_str()));
        self.say_wire(wire);
        assert(text::views(self.calls@).len() == t.calls.len());
        assert(self.next_call < self.calls.len());
        self.next_call = self.next_call + 1;
        if self.next_call < self.calls.len() {
            events.push(ManagerEvent::ToolStart(self.calls[self.next_call].name.clone()));
            assert(text::views(events@) =~= tool_events(t, result_view, elapsed@));
            assert(self@ =~= after_tool(t, result_view));
        } else {
            self.any_tool_executed = true;
            let ghost said = text::views(events@);
            let mut more = self.advance();
            let ghost more_views = text::views(more@);
            events.append(&mut more);
            assert(text::views(events@) =~= said + more_views);
            assert(text::views(events@) =~= tool_events(t, result_view, elapsed@));
            assert(self@ =~= after_tool(t, result_view));
        }
        events
    }

    /// The result of a turn that has ended, and the line that it leaves in the persistent
    /// history; the error where every round was spent on tools.
    pub fn finish(
        &self,
        stats: TurnStats,
        kind: &str,
        input: &str,
        session_id: &str,
        mode: &str,
    ) -> (r: Result<(TurnResult, HistoryRow), String>)
        requires
            self.phase == Phase::Done || self.phase == Phase::Exhausted,
        ensures
            match r {
                Ok(p) => {
                    &&& self.phase == Phase::Done
                    &&& p.0@ == (TurnResultView { reply: self@.reply, stats })
                    &&& p.1@ == (HistoryRowView {
                        agent_id: self@.state.config.agent_id,
                        kind: kind@,
                        input: input@,
                        reply: self@.reply,
                        stats,
                        session_id: session_id@,
                        mode: mode@,
                    })
                },
                Err(e) => {
                    &&& self.phase == Phase::Exhausted
                    &&& e@ == "max tool rounds reached without final answer"@
                },
            },
    {
        match self.phase {
            Phase::Done => {
                let result = TurnResult {
                    reply: self.reply.clone(),
                    tokens: stats.tokens,
                    tps: stats.tps,
                    context_tokens: stats.context_tokens,
                };
                let row = HistoryRow {
                    agent_id: self.state.config.agent_id.clone(),
                    kind: kind.to_string(),
                    input: input.to_string(),
                    reply: self.reply.clone(),
                    tokens: stats.tokens,
                    tps: stats.tps,
                    context_tokens: stats.context_tokens,
                    session_id: session_id.to_string(),
                    mode: mode.to_string(),
                };
                Ok((result, row))
            },
            _ => Err("max tool rounds reached without final answer".to_string()),
        }
    }
}

impl Turn {
    /// The result of a remote turn that has ended, with the figures of its last answer.
    pub fn finish_remote(&self, kind: &str, input: &str, session_id: &str, mode: &str) -> (r: Result<
        (TurnResult, HistoryRow),
        String,
    >)
        requires
            self.phase == Phase::Done || self.phase == Phase::Exhausted,
        ensures
            match r {
                Ok(p) => {
                    &&& self.phase == Phase::Done
                    &&& p.0@ == (TurnResultView { reply: self@.reply, stats: self@.stats })
                    &&& p.1@ == (HistoryRowView {
                        agent_id: self@.state.config.agent_id,
                        kind: kind@,
                        input: input@,
                        reply: self@.reply,
                        stats: self@.stats,
                        session_id: session_id@,
                        mode: mode@,
                    })
                },
                Err(e) => {
                    &&& self.phase == Phase::Exhausted
                    &&& e@ == "max tool rounds reached without final answer"@
                },
            },
    {
        self.finish(self.stats, kind, input, session_id, mode)
    }
}

/// What a local round has streamed so far.
#[derive(Debug, PartialEq)]
pub struct RoundStream {
    pub reasoning: String,
    pub calls: Vec<ToolCall>,
}

/// The model of what a local round has streamed.
#[verifier::ext_equal]
pub struct RoundStreamView {
    pub reasoning: Seq<char>,
    pub calls: Seq<ToolCallView>,
}

impl View for RoundStream {
    type V = RoundStreamView;

    open spec fn view(&self) -> RoundStreamView {
        RoundStreamView { reasoning: self.reasoning@, calls: text::views(self.calls@) }
    }
}

/// What a piece of the stream leaves: reasoning and calls are kept, the rest passes by. Once
/// the user has asked to stop, nothing more is kept.
pub open spec fn streamed(s: RoundStreamView, piece: GenerationView, interrupted: bool) -> RoundStreamView {
    if interrupted {
        s
    } else {
        match piece {
            GenerationView::Reasoning(r) => RoundStreamView { reasoning: s.reasoning + r, ..s },
            GenerationView::CallTool(c) => RoundStreamView { calls: s.calls.push(c), ..s },
            _ => s,
        }
    }
}

/// The report of a piece of the stream: none for previews, for silent turns, or once the user
/// has asked to stop.
pub open spec fn stream_report(
    piece: GenerationView,
    interrupted: bool,
    stream_events: bool,
) -> Option<ManagerEventView> {
    if interrupted || !stream_events || piece is ToolPreview {
        None
    } else {
        Some(ManagerEventView::Stream(piece))
    }
}

impl RoundStream {
    pub fn new() -> (r: RoundStream)
        ensures
            r@ == (RoundStreamView { reasoning: Seq::empty(), calls: Seq::empty() }),
    {
        let r = RoundStream { reasoning: String::new(), calls: Vec::new() };
        assert(r@.reasoning =~= Seq::empty());
        assert(r@.calls =~= Seq::empty());
        r
    }

    /// Takes one piece of the stream.
    pub fn on_piece(&mut self, piece: GenerationType, interrupted: bool, stream_events: bool) -> (r:
        Option<ManagerEvent>)
        ensures
            final(self)@ == streamed(old(self)@, piece@, interrupted),
            text::opt_view(r) == stream_report(piece@, interrupted, stream_events),
    {
        if interrupted {
            return None;
        }
        match &piece {
            GenerationType::Reasoning(r) => {
                self.reasoning.append(r.as_str());
            },
            GenerationType::CallTool(c) => {
                self.calls.push(c.copy());
                assert(text::views(self.calls@) =~= text::views(old(self).calls@).push(c@));
            },
            GenerationType::ToolPreview(_) => {
                return None;
            },
            GenerationType::Content(_) => {},
        }
        if stream_events {
            Some(ManagerEvent::Stream(piece))
        } else {
            None
        }
    }

    /// The answer of the round whose stream has ended with the given text.
    pub fn into_output(self, content: String) -> (r: RemoteModelOutput)
        ensures
            r@ == (OutputView {
                content: content@,
                reasoning: self@.reasoning,
                calls: self@.calls,
                stats: TurnStats { tokens: None, tps: None, context_tokens: None },
            }),
    {
        RemoteModelOutput {
            content,
            reasoning: self.reasoning,
            calls: self.calls,
            tokens: None,
            tps: None,
            context_tokens: None,
        }
    }
}

/// What a turn may be told.
#[verifier::ext_equal]
pub enum TurnInput {
    Output(OutputView, bool),
    Tool(Seq<char>),
}

/// A turn that waits for what it is told.
pub open spec fn awaits(t: TurnView, input: TurnInput) -> bool {
    match input {
        TurnInput::Output(..) => t.phase == Phase::Generating,
        TurnInput::Tool(_) => t.phase == Phase::Tooling,
    }
}

/// A turn after it was told one thing.
pub open spec fn told(t: TurnView, input: TurnInput) -> TurnView {
    match input {
        TurnInput::Output(out, interrupted) => after_output(t, out, interrupted),
        TurnInput::Tool(result) => after_tool(t, result),
    }
}

/// A turn after it was told one thing after the other.
pub open spec fn told_all(t: TurnView, inputs: Seq<TurnInput>) -> TurnView
    decreases inputs.len(),
{
    if inputs.len() == 0 {
        t
    } else {
        told(told_all(t, inputs.drop_last()), inputs.last())
    }
}

/// Each input comes when the turn waits for it.
pub open spec fn conversation(t: TurnView, inputs: Seq<TurnInput>) -> bool
    decreases inputs.len(),
{
    inputs.len() == 0 || (conversation(t, inputs.drop_last()) && awaits(
        told_all(t, inputs.drop_last()),
        inputs.last(),
    ))
}

/// How often the model was asked.
pub open spec fn generations(inputs: Seq<TurnInput>) -> nat
    decreases inputs.len(),
{
    if inputs.len() == 0 {
        0
    } else {
        generations(inputs.drop_last()) + if inputs.last() is Output {
            1nat
        } else {
            0
        }
    }
}

/// Whatever the model and the tools answer, a turn stays valid, keeps its configuration, adds
/// to its history and never takes from it, and asks the model no more often than it has rounds.
pub proof fn law_turn_runs(t: TurnView, inputs: Seq<TurnInput>)
    requires
        t.valid(),
        t.phase == Phase::Generating,
        conversation(t, inputs),
    ensures
        ({
            let end = told_all(t, inputs);
            let asked = generations(inputs);
            &&& end.valid()
            &&& end.state.config == t.state.config
            &&& end.limit == t.limit
            &&& t.round <= end.round
            &&& t.state.history.is_prefix_of(end.state.history)
            &&& asked <= t.limit - t.round
            &&& match end.phase {
                Phase::Generating => asked == end.round - t.round,
                Phase::Tooling => asked == end.round - t.round + 1,
                Phase::Done => asked == end.round - t.round + 1 && end.round < end.limit,
                Phase::Exhausted => asked == t.limit - t.round && end.round == end.limit,
            }
        }),
    decreases inputs.len(),
{
    if inputs.len() > 0 {
        let before = told_all(t, inputs.drop_last());
        law_turn_runs(t, inputs.drop_last());
        assert(before.state.history.is_prefix_of(told_all(t, inputs).state.history));
    } else {
        assert(t.state.history.is_prefix_of(t.state.history));
    }
}

/// An agent without tools, or one that is forced, always answers: its turn never ends for want
/// of rounds.
pub proof fn law_forced_turn_answers(
    state: AgentStateView,
    input: Seq<char>,
    max_tool_rounds: nat,
    remote: bool,
    inputs: Seq<TurnInput>,
)
    requires
        max_tool_rounds < usize::MAX,
        state.config.force_tools || state.config.tools_json is None,
        conversation(opened(state, input, max_tool_rounds, remote), inputs),
    ensures
        told_all(opened(state, input, max_tool_rounds, remote), inputs).phase != Phase::Exhausted,
{
    law_turn_runs(opened(state, input, max_tool_rounds, remote), inputs);
}

/// A turn that has ended replies with the last answer of the model, which stands last in the
/// history as the assistant's message; its figures are those of that answer.
pub proof fn law_reply_is_last_answer(t: TurnView, inputs: Seq<TurnInput>)
    requires
        t.valid(),
        t.phase == Phase::Generating,
        conversation(t, inputs),
        told_all(t, inputs).phase == Phase::Done,
    ensures
        ({
            let end = told_all(t, inputs);
            &&& inputs.last() is Output
            &&& end.reply == inputs.last()->Output_0.content
            &&& end.state.history.last().role == "assistant"@
            &&& end.state.history.last().content == end.reply
            &&& end.stats == inputs.last()->Output_0.stats
        }),
{
    law_turn_runs(t, inputs.drop_last());
}

/// A request to stop ends the turn at once, with what the model had said; no tool runs.
pub proof fn law_interrupt_ends(t: TurnView, out: OutputView)
    requires
        t.valid(),
        t.phase == Phase::Generating,
    ensures
        after_output(t, out, true).phase == Phase::Done,
        after_output(t, out, true).reply == out.content,
        output_events(t, out, true).last() == ManagerEventView::Status("interrompido"@),
{
}

/// Two turns that agree in everything but the messages kept for a remote provider.
pub open spec fn alike(a: TurnView, b: TurnView) -> bool {
    b == (TurnView { messages: b.messages, remote: b.remote, ..a })
}

/// What a turn reports once it was told one thing; a tool has taken the given time.
pub open spec fn step_events(t: TurnView, input: TurnInput, elapsed: Seq<char>) -> Seq<
    ManagerEventView,
> {
    match input {
        TurnInput::Output(out, interrupted) => output_events(t, out, interrupted),
        TurnInput::Tool(result) => tool_events(t, result, elapsed),
    }
}

/// What a turn reports while it is told one thing after the other.
pub open spec fn all_events(t: TurnView, inputs: Seq<TurnInput>, elapsed: Seq<Seq<char>>) -> Seq<
    ManagerEventView,
>
    decreases inputs.len(),
{
    if inputs.len() == 0 {
        Seq::empty()
    } else {
        all_events(t, inputs.drop_last(), elapsed) + step_events(
            told_all(t, inputs.drop_last()),
            inputs.last(),
            elapsed[inputs.len() - 1],
        )
    }
}

/// The model streamed no reasoning.
pub open spec fn without_reasoning(input: TurnInput) -> bool {
    input matches TurnInput::Output(out, _) ==> out.reasoning.len() == 0
}

/// After one step a remote turn is like a local turn that was told the same.
proof fn lemma_alike_step(a: TurnView, b: TurnView, input: TurnInput, elapsed: Seq<char>)
    requires
        alike(a, b),
        awaits(a, input),
        without_reasoning(input),
    ensures
        awaits(b, input),
        alike(told(a, input), told(b, input)),
        step_events(a, input, elapsed) == step_events(b, input, elapsed),
{
}

/// Turns that are alike stay alike whatever both are told, and report the same.
proof fn lemma_alike_all(
    a: TurnView,
    b: TurnView,
    inputs: Seq<TurnInput>,
    elapsed: Seq<Seq<char>>,
)
    requires
        alike(a, b),
        conversation(a, inputs),
        forall|k: int| 0 <= k < inputs.len() ==> without_reasoning(#[trigger] inputs[k]),
    ensures
        conversation(b, inputs),
        alike(told_all(a, inputs), told_all(b, inputs)),
        all_events(a, inputs, elapsed) == all_events(b, inputs, elapsed),
    decreases inputs.len(),
{
    if inputs.len() > 0 {
        let init = inputs.drop_last();
        assert forall|k: int| 0 <= k < init.len() implies without_reasoning(
            #[trigger] init[k],
        ) by {
            assert(without_reasoning(inputs[k]));
        }
        lemma_alike_all(a, b, init, elapsed);
        assert(without_reasoning(inputs[inputs.len() - 1]));
        lemma_alike_step(
            told_all(a, init),
            told_all(b, init),
            inputs.last(),
            elapsed[inputs.len() - 1],
        );
    }
}

/// A remote turn has, from its beginning to wherever it is led, the history, the rounds, the
/// reports and the reply of a local turn that was told the same, where the model streamed no
/// reasoning.
pub proof fn law_remote_like_local(
    state: AgentStateView,
    input: Seq<char>,
    max_tool_rounds: nat,
    inputs: Seq<TurnInput>,
    elapsed: Seq<Seq<char>>,
)
    requires
        conversation(opened(state, input, max_tool_rounds, false), inputs),
        forall|k: int| 0 <= k < inputs.len() ==> without_reasoning(#[trigger] inputs[k]),
    ensures
        ({
            let local = opened(state, input, max_tool_rounds, false);
            let remote = opened(state, input, max_tool_rounds, true);
            &&& conversation(remote, inputs)
            &&& alike(told_all(local, inputs), told_all(remote, inputs))
            &&& all_events(local, inputs, elapsed) == all_events(remote, inputs, elapsed)
        }),
{
    let local = opened(state, input, max_tool_rounds, false);
    let remote = opened(state, input, max_tool_rounds, true);
    assert(alike(local, remote));
    lemma_alike_all(local, remote, inputs, elapsed);
}

proof fn lemma_wire_keys()
    ensures
        "role"@ != "content"@,
        "role"@ != "tool_calls"@,
        "content"@ != "tool_calls"@,
        "role"@ != "tool_call_id"@,
        "tool_call_id"@ != "content"@,
        "id"@ != "type"@,
        "id"@ != "function"@,
        "type"@ != "function"@,
        "name"@ != "arguments"@,
{
    reveal_strlit("role");
    reveal_strlit("content");
    reveal_strlit("tool_calls");
    reveal_strlit("tool_call_id");
    reveal_strlit("id");
    reveal_strlit("type");
    reveal_strlit("function");
    reveal_strlit("name");
    reveal_strlit("arguments");
    assert("role"@.len() == 4);
    assert("content"@.len() == 7);
    assert("tool_calls"@.len() == 10);
    assert("tool_call_id"@.len() == 12);
    assert("id"@.len() == 2);
    assert("type"@.len() == 4);
    assert("function"@.len() == 8);
    assert("name"@.len() == 4);
    assert("arguments"@.len() == 9);
}

/// The tools are offered in a round: the agent has some, and where it is forced to use them the
/// round is not its last.
pub open spec fn may_call(t: TurnView) -> bool {
    t.state.config.tools_json is Some && (t.state.config.force_tools ==> t.round + 1 < t.limit)
}

/// Where an answer emits calls and tools are offered, the turn goes on to run exactly those
/// calls, the first one first. The answer stands in the history as it was, and the provider is
/// told each of its calls: id, name and arguments, in order.
pub proof fn law_emitted_calls_are_taken(t: TurnView, out: OutputView)
    requires
        t.valid(),
        t.phase == Phase::Generating,
        may_call(t),
        out.calls.len() > 0,
    ensures
        ({
            let next = after_output(t, out, false);
            &&& next.phase == Phase::Tooling
            &&& next.calls == out.calls
            &&& next.next_call == 0
            &&& next.round == t.round
            &&& next.nudges == t.nudges
            &&& next.limit == t.limit
            &&& next.remote == t.remote
            &&& next.any_tool_executed == t.any_tool_executed
            &&& next.state.config == t.state.config
            &&& next.state.history == t.state.history.push(next.state.history.last())
            &&& next.state.history.last().role == "assistant"@
            &&& next.state.history.last().content == out.content
            &&& t.remote || out.reasoning.len() == 0
                ==> next.state.history.last().reasoning_content is None
            &&& !t.remote && out.reasoning.len() > 0
                ==> next.state.history.last().reasoning_content == Some(out.reasoning)
            &&& !t.remote ==> next.messages == t.messages
            &&& t.remote ==> {
                let m = next.messages.last();
                &&& next.messages == t.messages.push(m)
                &&& m.field("role"@) == Some(JsonView::Text("assistant"@))
                &&& m.field("content"@) == Some(JsonView::Text(out.content))
                &&& m.field("tool_calls"@) matches Some(JsonView::Array(list)) && {
                    &&& list.len() == out.calls.len()
                    &&& forall|i: int|
                        #![trigger list[i]]
                        0 <= i < list.len() ==> {
                            &&& list[i].field("id"@) == Some(JsonView::Text(out.calls[i].call_id))
                            &&& list[i].field("type"@) == Some(JsonView::Text("function"@))
                            &&& list[i].field("function"@) matches Some(f) && f.field("name"@)
                                == Some(JsonView::Text(out.calls[i].name)) && f.field("arguments"@)
                                == Some(JsonView::Text(json::compact_json(out.calls[i].args)))
                        }
                }
            }
        }),
        output_events(t, out, false) == seq![ManagerEventView::ToolStart(out.calls[0].name)],
{
    lemma_wire_keys();
    assert(output_events(t, out, false) =~= seq![ManagerEventView::ToolStart(out.calls[0].name)]);
}

proof fn lemma_wire_tool(c: ToolCallView, block: Seq<char>)
    ensures
        wire_tool(c, block).field("role"@) == Some(JsonView::Text("tool"@)),
        wire_tool(c, block).field("tool_call_id"@) == Some(JsonView::Text(c.call_id)),
        wire_tool(c, block).field("content"@) == Some(JsonView::Text(block)),
{
    lemma_wire_keys();
}

/// The outcomes of tools, as a turn is told them.
pub open spec fn tool_inputs(results: Seq<Seq<char>>) -> Seq<TurnInput> {
    Seq::new(results.len(), |i: int| TurnInput::Tool(results[i]))
}

/// A message of the history that hands a result back to the model, with the name and the id of
/// the call.
pub open spec fn says_result(
    m: ChatMessageView,
    name: Seq<char>,
    id: Seq<char>,
    result: Seq<char>,
) -> bool {
    &&& m.role == "user"@
    &&& m.content == "\n<tool_result> name="@ + name + " id="@ + id + "\n"@ + result
        + "\n</tool_result>"@
}

/// A message for a remote provider that hands a result back, with the name and the id of the
/// call.
pub open spec fn sends_result(
    m: JsonView,
    name: Seq<char>,
    id: Seq<char>,
    result: Seq<char>,
) -> bool {
    &&& m.field("role"@) == Some(JsonView::Text("tool"@))
    &&& m.field("tool_call_id"@) == Some(JsonView::Text(id))
    &&& m.field("content"@) == Some(
        JsonView::Text(
            "\n<tool_result> name="@ + name + " id="@ + id + "\n"@ + result
                + "\n</tool_result>"@,
        ),
    )
}

/// A round runs every call of its answer, each once and in order, and takes one outcome for
/// each. While outcomes are missing the turn waits for the tool of the next call; with the last
/// one, and not before, the model is asked again, unless the rounds are used up. The i-th
/// outcome stands in the history with the name and the id of the i-th call, and the provider is
/// told it under that id.
pub proof fn law_round_runs_every_call(t: TurnView, out: OutputView, results: Seq<Seq<char>>)
    requires
        t.valid(),
        t.phase == Phase::Generating,
        may_call(t),
        0 < out.calls.len(),
        results.len() <= out.calls.len(),
    ensures
        ({
            let start = after_output(t, out, false);
            let end = told_all(start, tool_inputs(results));
            let had = t.state.history.len() + 1;
            &&& conversation(start, tool_inputs(results))
            &&& end.calls == out.calls
            &&& results.len() < out.calls.len() ==> {
                &&& end.phase == Phase::Tooling
                &&& end.next_call == results.len()
                &&& end.round == t.round
                &&& end.any_tool_executed == t.any_tool_executed
            }
            &&& results.len() == out.calls.len() ==> {
                &&& end.round == t.round + 1
                &&& end.any_tool_executed
                &&& t.round + 1 < t.limit ==> end.phase == Phase::Generating
                &&& t.round + 1 >= t.limit ==> end.phase == Phase::Exhausted
            }
            &&& end.limit == t.limit
            &&& end.remote == t.remote
            &&& end.nudges == t.nudges
            &&& end.state.config == t.state.config
            &&& end.state.history.len() == had + results.len()
            &&& end.state.history.subrange(0, had as int) == start.state.history
            &&& forall|i: int|
                #![trigger results[i]]
                0 <= i < results.len() ==> says_result(
                    end.state.history[had + i],
                    out.calls[i].name,
                    out.calls[i].call_id,
                    results[i],
                )
            &&& t.remote ==> {
                let sent = t.messages.len() + 1;
                &&& end.messages.len() == sent + results.len()
                &&& end.messages.subrange(0, sent as int) == start.messages
                &&& forall|i: int|
                    #![trigger results[i]]
                    0 <= i < results.len() ==> sends_result(
                        end.messages[sent + i],
                        out.calls[i].name,
                        out.calls[i].call_id,
                        results[i],
                    )
            }
        }),
    decreases results.len(),
{
    law_emitted_calls_are_taken(t, out);
    let start = after_output(t, out, false);
    let inputs = tool_inputs(results);
    let had = t.state.history.len() + 1;
    if results.len() == 0 {
        assert(inputs =~= Seq::empty());
        assert(start.state.history.subrange(0, had as int) =~= start.state.history);
        if t.remote {
            assert(start.messages.subrange(0, start.messages.len() as int) =~= start.messages);
        }
    } else {
        let less = results.drop_last();
        law_round_runs_every_call(t, out, less);
        assert(inputs.drop_last() =~= tool_inputs(less));
        assert(inputs.last() == TurnInput::Tool(results.last()));
        let mid = told_all(start, tool_inputs(less));
        let end = told_all(start, inputs);
        let n = less.len() as int;
        assert(mid.calls[n] == out.calls[n]);
        assert(end.state.history =~= mid.state.history.push(end.state.history.last()));
        assert(end.state.history.subrange(0, had as int) =~= mid.state.history.subrange(
            0,
            had as int,
        ));
        let block = tool_block(out.calls[n], results[n]);
        assert(end.state.history.last() == chat::plain_message("user"@, block));
        assert forall|i: int| #![trigger results[i]] 0 <= i < results.len() implies says_result(
            end.state.history[had + i],
            out.calls[i].name,
            out.calls[i].call_id,
            results[i],
        ) by {
            if i < n {
                assert(less[i] == results[i]);
                assert(end.state.history[had + i] == mid.state.history[had + i]);
            } else {
                assert(end.state.history[had + i] == end.state.history.last());
            }
        }
        if t.remote {
            let sent = t.messages.len() + 1;
            let told = wire_tool(out.calls[n], block);
            lemma_wire_tool(out.calls[n], block);
            assert(end.messages =~= mid.messages.push(told));
            assert(end.messages.subrange(0, sent as int) =~= mid.messages.subrange(
                0,
                sent as int,
            ));
            assert forall|i: int| #![trigger results[i]] 0 <= i < results.len() implies sends_result(
                end.messages[sent + i],
                out.calls[i].name,
                out.calls[i].call_id,
                results[i],
            ) by {
                if i < n {
                    assert(less[i] == results[i]);
                    assert(end.messages[sent + i] == mid.messages[sent + i]);
                } else {
                    assert(end.messages[sent + i] == told);
                }
            }
        }
    }
}

/// The outcome of a tool is reported under the name of its call with the time that it took; the
/// next call is reported to start where one is left.
pub proof fn law_outcome_is_reported(t: TurnView, result: Seq<char>, elapsed: Seq<char>)
    requires
        t.valid(),
        t.phase == Phase::Tooling,
    ensures
        tool_events(t, result, elapsed)[0] == ManagerEventView::ToolResult(
            t.calls[t.next_call as int].name,
            "[executou em "@ + elapsed + "s]\n"@ + result,
        ),
        t.next_call + 1 < t.calls.len() ==> tool_events(t, result, elapsed).len() == 2
            && tool_events(t, result, elapsed)[1] == ManagerEventView::ToolStart(
            t.calls[t.next_call as int + 1].name,
        ),
        t.next_call + 1 >= t.calls.len() && t.round + 1 < t.limit ==> tool_events(
            t,
            result,
            elapsed,
        ).len() == 2 && tool_events(t, result, elapsed)[1] == ManagerEventView::Status(
            t.state.config.agent_id + ": gerando ("@ + text::decimal((t.round + 2) as nat) + ")"@,
        ),
        t.next_call + 1 >= t.calls.len() && t.round + 1 >= t.limit ==> tool_events(
            t,
            result,
            elapsed,
        ).len() == 1,
{
}

/// A tool that fails tells the model so, with the error behind the word; one that ends well
/// tells it what it gave.
pub proof fn law_failure_is_told(o: ToolOutcome)
    ensures
        o matches ToolOutcome::Done(t) ==> outcome_text(o) == t@,
        o matches ToolOutcome::Failed(e) ==> outcome_text(o) == "ERROR: "@ + e@,
{
}

/// A call that the model wrote out instead of emitting it is run like an emitted one, and its
/// recovery is reported.
pub proof fn law_written_call_is_run(t: TurnView, out: OutputView, c: ToolCallView)
    requires
        t.valid(),
        t.phase == Phase::Generating,
        may_call(t),
        out.calls.len() == 0,
        tool_text::written_call(out.content) == Some(c),
    ensures
        after_output(t, out, false) == after_output(
            t,
            (OutputView { calls: seq![c], ..out }),
            false,
        ),
        after_output(t, out, false).phase == Phase::Tooling,
        after_output(t, out, false).calls == seq![c],
        output_events(t, out, false) == seq![
            ManagerEventView::Status("tool call via fallback JSON: "@ + c.name),
            ManagerEventView::ToolStart(c.name),
        ],
{
    let plain = OutputView { calls: seq![c], ..out };
    assert(effective_calls(plain) =~= effective_calls(out));
    assert(output_events(t, out, false) =~= seq![
        ManagerEventView::Status("tool call via fallback JSON: "@ + c.name),
        ManagerEventView::ToolStart(c.name),
    ]);
}

/// Where no tool is offered none runs: the answer ends the turn and is its reply, whatever calls
/// it holds.
pub proof fn law_no_tool_runs_unoffered(t: TurnView, out: OutputView)
    requires
        t.valid(),
        t.phase == Phase::Generating,
        !may_call(t),
    ensures
        ({
            let next = after_output(t, out, false);
            &&& next.phase == Phase::Done
            &&& next.reply == out.content
            &&& next.round == t.round
            &&& next.stats == out.stats
            &&& next.state.history == t.state.history.push(next.state.history.last())
            &&& next.state.history.last().role == "assistant"@
            &&& next.state.history.last().content == out.content
        }),
        output_events(t, out, false).last() == ManagerEventView::Status("done"@),
{
}

/// An answer without a call ends the turn and is its reply, except where a forced agent that ran
/// no tool yet is to be pushed again.
pub proof fn law_plain_answer_ends_turn(t: TurnView, out: OutputView)
    requires
        t.valid(),
        t.phase == Phase::Generating,
        out.calls.len() == 0,
        tool_text::written_call(out.content) is None,
        !t.state.config.force_tools || t.any_tool_executed || t.nudges >= 2,
    ensures
        ({
            let next = after_output(t, out, false);
            &&& next.phase == Phase::Done
            &&& next.reply == out.content
            &&& next.round == t.round
            &&& next.stats == out.stats
            &&& next.state.history == t.state.history.push(next.state.history.last())
            &&& next.state.history.last().role == "assistant"@
            &&& next.state.history.last().content == out.content
            &&& next.calls.len() == 0
        }),
        output_events(t, out, false) == seq![ManagerEventView::Status("done"@)],
{
    assert(output_events(t, out, false) =~= seq![ManagerEventView::Status("done"@)]);
}

/// A forced agent that called nothing and ran no tool yet is told to call one and asked again,
/// at most twice, and never in its last round.
pub proof fn law_idle_agent_is_pushed(t: TurnView, out: OutputView)
    requires
        t.valid(),
        t.phase == Phase::Generating,
        t.state.config.tools_json is Some,
        t.state.config.force_tools,
        t.round + 1 < t.limit,
        !t.any_tool_executed,
        t.nudges < 2,
        out.calls.len() == 0,
        tool_text::written_call(out.content) is None,
    ensures
        ({
            let next = after_output(t, out, false);
            let n = t.state.history.len() as int;
            &&& next.phase == Phase::Generating
            &&& next.round == t.round + 1
            &&& next.nudges == t.nudges + 1
            &&& next.state.history.len() == n + 2
            &&& next.state.history.subrange(0, n) == t.state.history
            &&& next.state.history[n].role == "assistant"@
            &&& next.state.history[n].content == out.content
            &&& next.state.history[n + 1].role == "user"@
            &&& next.state.history[n + 1].content == NUDGE@
        }),
        output_events(t, out, false).len() == 2,
        output_events(t, out, false)[0] == ManagerEventView::Status(
            "sem tool call em "@ + t.state.config.agent_id + "; forcando (round "@ + text::decimal(
                (t.round + 2) as nat,
            ) + ")"@,
        ),
{
    let next = after_output(t, out, false);
    assert(next.state.history.subrange(0, t.state.history.len() as int) =~= t.state.history);
}

/// A turn begins with what was said before, then the input of the user; the persona comes first
/// of all, once, where nothing was said yet. A remote provider is told the same messages.
pub proof fn law_turn_begins_with_input(
    state: AgentStateView,
    input: Seq<char>,
    max_tool_rounds: nat,
    remote: bool,
)
    ensures
        ({
            let t = opened(state, input, max_tool_rounds, remote);
            let n = state.history.len() as int;
            let h = t.state.history;
            &&& t.state.config == state.config
            &&& h.last().role == "user"@
            &&& h.last().content == input
            &&& n > 0 || state.config.prompt.len() == 0 ==> h.len() == n + 1 && h.drop_last()
                == state.history
            &&& n == 0 && state.config.prompt.len() > 0 ==> h.len() == 2 && h[0].role == "system"@
                && h[0].content == state.config.prompt
            &&& t.round == 0
            &&& state.config.tools_json is None ==> t.limit == 1
            &&& state.config.tools_json is Some && !state.config.force_tools ==> t.limit
                == max_tool_rounds
            &&& state.config.tools_json is Some && state.config.force_tools ==> t.limit
                == max_tool_rounds + 1
            &&& t.limit > 0 ==> t.phase == Phase::Generating
            &&& t.calls.len() == 0
            &&& t.nudges == 0
            &&& !t.any_tool_executed
            &&& t.remote == remote
            &&& remote ==> t.messages.len() == h.len() && forall|i: int|
                #![trigger t.messages[i]]
                0 <= i < h.len() ==> t.messages[i].field("role"@) == Some(JsonView::Text(h[i].role))
                    && t.messages[i].field("content"@) == Some(JsonView::Text(h[i].content))
        }),
{
    lemma_wire_keys();
    let h = opened_history(state, input);
    if state.history.len() > 0 || state.config.prompt.len() == 0 {
        assert(h.drop_last() =~= state.history);
    }
}

/// The provider of a remote turn knows the history: message by message, in the same words.
pub open spec fn mirrors(t: TurnView) -> bool {
    &&& t.messages.len() == t.state.history.len()
    &&& forall|i: int|
        #![trigger t.messages[i]]
        0 <= i < t.messages.len() ==> t.messages[i].field("content"@) == Some(
            JsonView::Text(t.state.history[i].content),
        ) && (t.messages[i].field("role"@) == Some(JsonView::Text(t.state.history[i].role)) || (
        t.state.history[i].role == "user"@ && t.messages[i].field("role"@) == Some(
            JsonView::Text("tool"@),
        )))
}

/// Whatever a remote turn is told, the provider knows its whole history.
pub proof fn law_provider_knows_history(
    state: AgentStateView,
    input: Seq<char>,
    max_tool_rounds: nat,
    inputs: Seq<TurnInput>,
)
    requires
        conversation(opened(state, input, max_tool_rounds, true), inputs),
    ensures
        mirrors(told_all(opened(state, input, max_tool_rounds, true), inputs)),
        told_all(opened(state, input, max_tool_rounds, true), inputs).remote,
    decreases inputs.len(),
{
    lemma_wire_keys();
    let t = opened(state, input, max_tool_rounds, true);
    law_turn_begins_with_input(state, input, max_tool_rounds, true);
    if inputs.len() > 0 {
        law_provider_knows_history(state, input, max_tool_rounds, inputs.drop_last());
        let before = told_all(t, inputs.drop_last());
        let after = told_all(t, inputs);
        match inputs.last() {
            TurnInput::Tool(result) => {
                assert(mirrors(after));
            },
            TurnInput::Output(out, interrupted) => {
                let h = heard(before, out);
                assert(mirrors(h));
                assert(mirrors(after));
            },
        }
    }
}

/// A round that is streamed keeps all its reasoning and all its calls, in order, and what the
/// model said as text is not mixed with them; once the user asked to stop nothing more is kept.
pub proof fn law_stream_is_kept(s: RoundStreamView, piece: GenerationView)
    ensures
        streamed(s, piece, true) == s,
        piece matches GenerationView::Reasoning(r) ==> streamed(s, piece, false).reasoning
            == s.reasoning + r && streamed(s, piece, false).calls == s.calls,
        piece matches GenerationView::CallTool(c) ==> streamed(s, piece, false).calls
            == s.calls.push(c) && streamed(s, piece, false).reasoning == s.reasoning,
        piece is Content || piece is ToolPreview ==> streamed(s, piece, false) == s,
        piece is ToolPreview ==> stream_report(piece, false, true) is None,
        !(piece is ToolPreview) ==> stream_report(piece, false, true) == Some(
            ManagerEventView::Stream(piece),
        ),
        stream_report(piece, true, true) is None,
        stream_report(piece, false, false) is None,
{
}

} // verus!
