//! The registry of agents and the bookkeeping around their turns.

use vstd::prelude::*;

use crate::agents;
use crate::agents::{
    AgentRole, AgentState, AgentStateView, AgentTask, ConfigAgent, ConfigAgentView, ManagerEvent,
};
use crate::chat;
use crate::chat::ChatMessage;
use crate::text;
use crate::turn;
use crate::turn::Turn;

verus! {

/// The rounds of tools that a turn may take unless set otherwise.
pub const MAX_TOOL_ROUNDS: usize = 8;

/// Why a task is refused while no local runtime works on the queue.
pub const NOT_STARTED: &'static str = "runtime local nao iniciado (provider remoto sem modelo GGUF) — reinicie o drill com um modelo local para usar esta via";

/// The agents of a team, by their ids, with the session that their turns belong to.
pub struct AgentManager {
    states: Vec<AgentState>,
    max_tool_rounds: usize,
    session_id: String,
    mode: String,
    running: bool,
}

/// The model of a registry.
#[verifier::ext_equal]
pub struct ManagerView {
    pub agents: Map<Seq<char>, AgentStateView>,
    pub max_tool_rounds: nat,
    pub session_id: Seq<char>,
    pub mode: Seq<char>,
    pub running: bool,
}

/// The agents of a list by their ids; of two with one id the later counts.
pub open spec fn by_id(states: Seq<AgentState>) -> Map<Seq<char>, AgentStateView>
    decreases states.len(),
{
    if states.len() == 0 {
        Map::empty()
    } else {
        by_id(states.drop_last()).insert(states.last().config.agent_id@, states.last()@)
    }
}

/// No two agents of a list share an id.
pub open spec fn distinct(states: Seq<AgentState>) -> bool {
    forall|i: int, j: int|
        0 <= i < j < states.len() ==> (#[trigger] states[i]).config.agent_id@ != (
        #[trigger] states[j]).config.agent_id@
}

impl View for AgentManager {
    type V = ManagerView;

    closed spec fn view(&self) -> ManagerView {
        ManagerView {
            agents: by_id(self.states@),
            max_tool_rounds: self.max_tool_rounds as nat,
            session_id: self.session_id@,
            mode: self.mode@,
            running: self.running,
        }
    }
}

proof fn lemma_by_id(states: Seq<AgentState>)
    requires
        distinct(states),
    ensures
        forall|i: int|
            0 <= i < states.len() ==> by_id(states).dom().contains(
                (#[trigger] states[i]).config.agent_id@,
            ) && by_id(states)[states[i].config.agent_id@] == states[i]@,
        forall|id: Seq<char>|
            by_id(states).dom().contains(id) ==> exists|i: int|
                0 <= i < states.len() && (#[trigger] states[i]).config.agent_id@ == id,
    decreases states.len(),
{
    if states.len() > 0 {
        let rest = states.drop_last();
        assert(distinct(rest)) by {
            assert forall|i: int, j: int| 0 <= i < j < rest.len() implies (
            #[trigger] rest[i]).config.agent_id@ != (#[trigger] rest[j]).config.agent_id@ by {
                assert(states[i].config.agent_id@ != states[j].config.agent_id@);
            }
        }
        lemma_by_id(rest);
        let n = states.len() - 1;
        assert forall|i: int| 0 <= i < states.len() implies by_id(states).dom().contains(
            (#[trigger] states[i]).config.agent_id@,
        ) && by_id(states)[states[i].config.agent_id@] == states[i]@ by {
            if i < n {
                assert(rest[i] == states[i]);
                assert(states[i].config.agent_id@ != states[n].config.agent_id@);
            }
        }
        assert forall|id: Seq<char>| by_id(states).dom().contains(id) implies exists|i: int|
            0 <= i < states.len() && (#[trigger] states[i]).config.agent_id@ == id by {
            if id == states[n].config.agent_id@ {
                assert(states[n].config.agent_id@ == id);
            } else {
                assert(by_id(rest).dom().contains(id));
                let i = choose|i: int|
                    0 <= i < rest.len() && (#[trigger] rest[i]).config.agent_id@ == id;
                assert(states[i].config.agent_id@ == id);
            }
        }
    }
}

proof fn lemma_by_id_update(states: Seq<AgentState>, i: int, s: AgentState)
    requires
        distinct(states),
        0 <= i < states.len(),
        s.config.agent_id@ == states[i].config.agent_id@,
    ensures
        distinct(states.update(i, s)),
        by_id(states.update(i, s)) == by_id(states).insert(s.config.agent_id@, s@),
{
    let next = states.update(i, s);
    assert(distinct(next)) by {
        assert forall|a: int, b: int| 0 <= a < b < next.len() implies (
        #[trigger] next[a]).config.agent_id@ != (#[trigger] next[b]).config.agent_id@ by {
            assert(states[a].config.agent_id@ != states[b].config.agent_id@);
        }
    }
    lemma_by_id(states);
    lemma_by_id(next);
    let left = by_id(next);
    let right = by_id(states).insert(s.config.agent_id@, s@);
    assert forall|id: Seq<char>| left.dom().contains(id) implies right.dom().contains(id)
        && left[id] == right[id] by {
        let k = choose|k: int| 0 <= k < next.len() && (#[trigger] next[k]).config.agent_id@ == id;
        assert(next[k].config.agent_id@ == id);
        if k != i {
            assert(states[k] == next[k]);
            assert(next[k].config.agent_id@ != next[i].config.agent_id@) by {
                if k < i {
                    assert(next[k].config.agent_id@ != next[i].config.agent_id@);
                } else {
                    assert(next[i].config.agent_id@ != next[k].config.agent_id@);
                }
            }
        }
    }
    assert forall|id: Seq<char>| right.dom().contains(id) implies left.dom().contains(id) by {
        if id == s.config.agent_id@ {
            assert(next[i].config.agent_id@ == id);
        } else {
            let k = choose|k: int|
                0 <= k < states.len() && (#[trigger] states[k]).config.agent_id@ == id;
            assert(next[k] == states[k]);
            assert(next[k].config.agent_id@ == id);
        }
    }
    assert(left =~= right);
}

impl AgentManager {
    #[verifier::type_invariant]
    spec fn wf(self) -> bool {
        distinct(self.states@)
    }

    /// A registry without agents.
    pub fn new() -> (r: AgentManager)
        ensures
            r@ == (ManagerView {
                agents: Map::empty(),
                max_tool_rounds: MAX_TOOL_ROUNDS as nat,
                session_id: Seq::empty(),
                mode: "solo"@,
                running: false,
            }),
    {
        AgentManager {
            states: Vec::new(),
            max_tool_rounds: MAX_TOOL_ROUNDS,
            session_id: String::new(),
            mode: "solo".to_string(),
            running: false,
        }
    }

    /// Sets the rounds of tools that a turn may take; at least one is left.
    pub fn set_max_tool_rounds(&mut self, rounds: usize)
        ensures
            final(self)@ == (ManagerView {
                max_tool_rounds: if rounds > 1 {
                    rounds as nat
                } else {
                    1
                },
                ..old(self)@
            }),
    {
        proof {
            use_type_invariant(&*self);
        }
        self.max_tool_rounds = if rounds > 1 {
            rounds
        } else {
            1
        };
    }

    fn position(&self, agent_id: &str) -> (r: Option<usize>)
        ensures
            match r {
                Some(i) => {
                    &&& i < self.states@.len()
                    &&& self.states@[i as int].config.agent_id@ == agent_id@
                    &&& self@.agents.dom().contains(agent_id@)
                    &&& self@.agents[agent_id@] == self.states@[i as int]@
                },
                None => {
                    &&& !self@.agents.dom().contains(agent_id@)
                    &&& forall|k: int|
                        0 <= k < self.states@.len() ==> (
                        #[trigger] self.states@[k]).config.agent_id@ != agent_id@
                },
            },
    {
        proof {
            use_type_invariant(self);
            lemma_by_id(self.states@);
        }
        let mut i: usize = 0;
        while i < self.states.len()
            invariant
                i <= self.states@.len(),
                self@.agents == by_id(self.states@),
                forall|k: int|
                    0 <= k < self.states@.len() ==> by_id(self.states@).dom().contains(
                        (#[trigger] self.states@[k]).config.agent_id@,
                    ) && by_id(self.states@)[self.states@[k].config.agent_id@] == self.states@[k]@,
                forall|k: int|
                    0 <= k < i ==> (#[trigger] self.states@[k]).config.agent_id@ != agent_id@,
            decreases self.states@.len() - i,
        {
            if text::same(self.states[i].config.agent_id.as_str(), agent_id) {
                return Some(i);
            }
            i = i + 1;
        }
        None
    }

    /// Puts an agent under its id, in place of the one that was there.
    fn store(&mut self, state: AgentState)
        ensures
            final(self)@ == (ManagerView {
                agents: old(self)@.agents.insert(state.config.agent_id@, state@),
                ..old(self)@
            }),
    {
        let at = self.position(state.config.agent_id.as_str());
        proof {
            use_type_invariant(&*self);
        }
        let mut states: Vec<AgentState> = Vec::new();
        std::mem::swap(&mut states, &mut self.states);
        let ghost before = states@;
        match at {
            Some(i) => {
                proof {
                    lemma_by_id_update(before, i as int, state);
                }
                states.set(i, state);
            },
            None => {
                states.push(state);
                assert(states@.drop_last() =~= before);
                assert(distinct(states@)) by {
                    assert forall|i: int, j: int| 0 <= i < j < states@.len() implies (
                    #[trigger] states@[i]).config.agent_id@ != (
                    #[trigger] states@[j]).config.agent_id@ by {
                        assert(states@[i] == before[i]);
                        if j < before.len() {
                            assert(before[i].config.agent_id@ != before[j].config.agent_id@);
                        }
                    }
                }
            },
        }
        self.states = states;
    }

    /// Registers an agent that has not spoken yet, in place of one with the same id.
    pub fn add(&mut self, config: ConfigAgent)
        ensures
            final(self)@ == (ManagerView {
                agents: old(self)@.agents.insert(
                    config@.agent_id,
                    agents::fresh_state(config@),
                ),
                ..old(self)@
            }),
    {
        self.store(AgentState::new(config));
    }

    /// The agent with an id.
    pub fn get(&self, agent_id: &str) -> (r: Option<AgentState>)
        ensures
            match r {
                Some(s) => {
                    &&& self@.agents.dom().contains(agent_id@)
                    &&& self@.agents[agent_id@] == s@
                    &&& s@.config.agent_id == agent_id@
                },
                None => !self@.agents.dom().contains(agent_id@),
            },
    {
        match self.position(agent_id) {
            Some(i) => Some(self.states[i].copy()),
            None => None,
        }
    }

    /// The ids of the agents, each once, in no order that callers may count on.
    pub fn agent_ids(&self) -> (r: Vec<String>)
        ensures
            text::views(r@).no_duplicates(),
            text::views(r@).to_set() == self@.agents.dom(),
    {
        proof {
            use_type_invariant(self);
            lemma_by_id(self.states@);
        }
        let mut out: Vec<String> = Vec::new();
        let mut i: usize = 0;
        while i < self.states.len()
            invariant
                i <= self.states@.len(),
                out@.len() == i,
                forall|k: int|
                    0 <= k < i ==> (#[trigger] out@[k])@ == self.states@[k].config.agent_id@,
            decreases self.states@.len() - i,
        {
            out.push(self.states[i].config.agent_id.clone());
            i = i + 1;
        }
        proof {
            let ids = text::views(out@);
            assert(forall|k: int|
                0 <= k < ids.len() ==> ids[k] == (#[trigger] self.states@[k]).config.agent_id@);
            assert forall|a: int, b: int| 0 <= a < b < ids.len() implies ids[a] != ids[b] by {
                assert(self.states@[a].config.agent_id@ != self.states@[b].config.agent_id@);
            }
            assert forall|id: Seq<char>| self@.agents.dom().contains(id) implies ids.to_set().contains(
                id,
            ) by {
                let k = choose|k: int|
                    0 <= k < self.states@.len() && (
                    #[trigger] self.states@[k]).config.agent_id@ == id;
                assert(ids[k] == id);
                assert(ids.contains(id));
            }
            assert forall|id: Seq<char>| ids.to_set().contains(id) implies self@.agents.dom().contains(
                id,
            ) by {
                let k = choose|k: int| 0 <= k < ids.len() && ids[k] == id;
                assert(self.states@[k].config.agent_id@ == id);
            }
            assert(ids.to_set() =~= self@.agents.dom());
        }
        out
    }

    /// The ids of the root agents, each once, in no order that callers may count on.
    pub fn root_ids(&self) -> (r: Vec<String>)
        ensures
            text::views(r@).no_duplicates(),
            forall|id: Seq<char>|
                text::views(r@).contains(id) == (self@.agents.dom().contains(id)
                    && self@.agents[id].config.role == AgentRole::Root),
    {
        proof {
            use_type_invariant(self);
            lemma_by_id(self.states@);
        }
        let mut out: Vec<String> = Vec::new();
        let mut i: usize = 0;
        let ghost mut at: Seq<int> = Seq::empty();
        while i < self.states.len()
            invariant
                i <= self.states@.len(),
                distinct(self.states@),
                at.len() == out@.len(),
                forall|k: int|
                    0 <= k < at.len() ==> 0 <= #[trigger] at[k] < i && out@[k]@
                        == self.states@[at[k]].config.agent_id@ && self.states@[at[k]].config.role
                        == AgentRole::Root,
                forall|a: int, b: int| 0 <= a < b < at.len() ==> #[trigger] at[a] < #[trigger] at[b],
                forall|j: int|
                    0 <= j < i && (#[trigger] self.states@[j]).config.role == AgentRole::Root
                        ==> at.contains(j),
            decreases self.states@.len() - i,
        {
            if self.states[i].config.role == AgentRole::Root {
                let ghost before = at;
                out.push(self.states[i].config.agent_id.clone());
                proof {
                    at = at.push(i as int);
                    assert forall|j: int|
                        0 <= j < i + 1 && (#[trigger] self.states@[j]).config.role
                            == AgentRole::Root implies at.contains(j) by {
                        if j < i {
                            let k = choose|k: int| 0 <= k < before.len() && before[k] == j;
                            assert(at[k] == j);
                        } else {
                            assert(at[before.len() as int] == j);
                        }
                    }
                }
            }
            i = i + 1;
        }
        proof {
            let ids = text::views(out@);
            assert forall|a: int, b: int| 0 <= a < b < ids.len() implies ids[a] != ids[b] by {
                assert(at[a] < at[b]);
                assert(self.states@[at[a]].config.agent_id@ != self.states@[at[b]].config.agent_id@);
            }
            assert forall|id: Seq<char>|
                ids.contains(id) == (self@.agents.dom().contains(id)
                    && self@.agents[id].config.role == AgentRole::Root) by {
                if ids.contains(id) {
                    let k = choose|k: int| 0 <= k < ids.len() && ids[k] == id;
                    assert(out@[k]@ == self.states@[at[k]].config.agent_id@);
                }
                if self@.agents.dom().contains(id) && self@.agents[id].config.role
                    == AgentRole::Root {
                    let j = choose|j: int|
                        0 <= j < self.states@.len() && (
                        #[trigger] self.states@[j]).config.agent_id@ == id;
                    assert(self.states@[j].config.role == AgentRole::Root);
                    let k = choose|k: int| 0 <= k < at.len() && at[k] == j;
                    assert(ids[k] == id);
                }
            }
        }
        out
    }

    /// Whether an id is that of a root agent.
    pub fn is_root(&self, agent_id: &str) -> (r: bool)
        ensures
            r == (self@.agents.dom().contains(agent_id@) && self@.agents[agent_id@].config.role
                == AgentRole::Root),
    {
        match self.position(agent_id) {
            Some(i) => self.states[i].config.role == AgentRole::Root,
            None => false,
        }
    }

    /// The live history of an agent.
    pub fn history_of(&self, agent_id: &str) -> (r: Option<Vec<ChatMessage>>)
        ensures
            match r {
                Some(h) => self@.agents.dom().contains(agent_id@) && text::views(h@)
                    == self@.agents[agent_id@].history,
                None => !self@.agents.dom().contains(agent_id@),
            },
    {
        match self.position(agent_id) {
            Some(i) => Some(chat::copy_messages(&self.states[i].history)),
            None => None,
        }
    }

    /// Sets the session and the mode that every history line of a turn is marked with.
    pub fn set_session(&mut self, session_id: &str, mode: &str)
        ensures
            final(self)@ == (ManagerView { session_id: session_id@, mode: mode@, ..old(self)@ }),
    {
        proof {
            use_type_invariant(&*self);
        }
        self.session_id = session_id.to_string();
        self.mode = mode.to_string();
    }

    /// The session that history lines are marked with.
    pub fn session_id(&self) -> (r: &str)
        ensures
            r@ == self@.session_id,
    {
        self.session_id.as_str()
    }

    /// The mode that history lines are marked with.
    pub fn session_mode(&self) -> (r: &str)
        ensures
            r@ == self@.mode,
    {
        self.mode.as_str()
    }

    /// Replaces the live history of an agent. An unknown id changes nothing.
    pub fn resume(&mut self, agent_id: &str, messages: Vec<ChatMessage>)
        ensures
            final(self)@ == if old(self)@.agents.dom().contains(agent_id@) {
                ManagerView {
                    agents: old(self)@.agents.insert(
                        agent_id@,
                        AgentStateView {
                            history: text::views(messages@),
                            ..old(self)@.agents[agent_id@]
                        },
                    ),
                    ..old(self)@
                }
            } else {
                old(self)@
            },
    {
        match self.get(agent_id) {
            Some(found) => {
                proof {
                    use_type_invariant(&*self);
                    self.lemma_keys(agent_id@);
                }
                let mut state = found;
                state.history = messages;
                self.store(state);
            },
            None => {},
        }
    }

    /// Keeps the summary of an agent's work. An unknown id changes nothing.
    pub fn set_summary(&mut self, agent_id: &str, summary: String)
        ensures
            final(self)@ == if old(self)@.agents.dom().contains(agent_id@) {
                ManagerView {
                    agents: old(self)@.agents.insert(
                        agent_id@,
                        AgentStateView { summary: Some(summary@), ..old(self)@.agents[agent_id@] },
                    ),
                    ..old(self)@
                }
            } else {
                old(self)@
            },
    {
        match self.get(agent_id) {
            Some(found) => {
                proof {
                    use_type_invariant(&*self);
                    self.lemma_keys(agent_id@);
                }
                let mut state = found;
                state.summary = Some(summary);
                self.store(state);
            },
            None => {},
        }
    }

    /// Each agent stands under its own id.
    proof fn lemma_keys(&self, id: Seq<char>)
        requires
            self@.agents.dom().contains(id),
            distinct(self.states@),
        ensures
            self@.agents[id].config.agent_id == id,
    {
        lemma_by_id(self.states@);
    }

    /// Whether the queue of local work runs.
    pub fn is_running(&self) -> (r: bool)
        ensures
            r == self@.running,
    {
        self.running
    }

    /// Starts the queue of local work, once.
    pub fn run(&mut self)
        requires
            !old(self)@.running,
        ensures
            final(self)@ == (ManagerView { running: true, ..old(self)@ }),
    {
        proof {
            use_type_invariant(&*self);
        }
        self.running = true;
    }

    /// A task for the queue; refused while no local runtime works on it.
    pub fn enqueue(&self, agent_id: &str, input: &str) -> (r: Result<AgentTask, String>)
        ensures
            match r {
                Ok(t) => self@.running && t.agent_id@ == agent_id@ && t.input@ == input@,
                Err(e) => !self@.running && e@
                    == NOT_STARTED@,
            },
    {
        if self.running {
            Ok(AgentTask { agent_id: agent_id.to_string(), input: input.to_string() })
        } else {
            Err(
                NOT_STARTED.to_string(),
            )
        }
    }

    /// Begins the turn of a task of the queue.
    pub fn begin_queued(&self, task: &AgentTask) -> (r: Result<
        (Turn, Vec<ManagerEvent>),
        String,
    >)
        requires
            can_begin(self@, task.agent_id@),
        ensures
            match r {
                Ok(p) => begun(self@, task.agent_id@, task.input@, false, p),
                Err(e) => !self@.agents.dom().contains(task.agent_id@) && e@
                    == "Agente não encontrado"@,
            },
    {
        match self.get(task.agent_id.as_str()) {
            Some(state) => Ok(
                Turn::begin(state, task.input.as_str(), self.max_tool_rounds, false),
            ),
            None => Err("Agente não encontrado".to_string()),
        }
    }

    /// Begins a turn of an agent in the thread of the caller.
    pub fn begin_inline(&self, agent_id: &str, input: &str) -> (r: Result<
        (Turn, Vec<ManagerEvent>),
        String,
    >)
        requires
            can_begin(self@, agent_id@),
        ensures
            match r {
                Ok(p) => self@.running && begun(self@, agent_id@, input@, false, p),
                Err(e) => if !self@.running {
                    e@ == "runtime não iniciado"@
                } else {
                    !self@.agents.dom().contains(agent_id@) && e@ == not_found(agent_id@)
                },
            },
    {
        if !self.running {
            return Err("runtime não iniciado".to_string());
        }
        match self.get(agent_id) {
            Some(state) => Ok(Turn::begin(state, input, self.max_tool_rounds, false)),
            None => Err(text::cat3("agente '", agent_id, "' não encontrado")),
        }
    }

    /// Begins a turn of an agent whose rounds a remote provider generates.
    pub fn begin_remote(&self, agent_id: &str, input: &str) -> (r: Result<
        (Turn, Vec<ManagerEvent>),
        String,
    >)
        requires
            can_begin(self@, agent_id@),
        ensures
            match r {
                Ok(p) => begun(self@, agent_id@, input@, true, p),
                Err(e) => !self@.agents.dom().contains(agent_id@) && e@ == not_found(agent_id@),
            },
    {
        match self.get(agent_id) {
            Some(state) => Ok(Turn::begin(state, input, self.max_tool_rounds, true)),
            None => Err(text::cat3("agente '", agent_id, "' não encontrado")),
        }
    }

    /// Keeps what a turn of the queue made of an agent, whether the turn succeeded or not.
    pub fn finish_queued(&mut self, state: AgentState)
        ensures
            final(self)@ == kept(old(self)@, state@),
    {
        self.store(state);
    }

    /// Keeps what a turn outside the queue made of an agent, where the turn succeeded.
    pub fn finish_inline(&mut self, state: AgentState, succeeded: bool)
        ensures
            final(self)@ == if succeeded {
                kept(old(self)@, state@)
            } else {
                old(self)@
            },
    {
        if succeeded {
            self.store(state);
        }
    }
}

/// The error for an id that no agent has.
pub open spec fn not_found(id: Seq<char>) -> Seq<char> {
    "agente '"@ + id + "' não encontrado"@
}

/// The rounds of a turn of an agent can be counted: an agent that is forced to
/// use its tools has one more.
pub open spec fn can_begin(m: ManagerView, id: Seq<char>) -> bool {
    let config = m.agents[id].config;
    m.agents.dom().contains(id) && config.force_tools && config.tools_json is Some
        ==> m.max_tool_rounds < usize::MAX
}

/// A turn that has begun with a registered agent, which stands under its own id, and what is
/// reported of it.
pub open spec fn begun(
    m: ManagerView,
    id: Seq<char>,
    input: Seq<char>,
    remote: bool,
    p: (Turn, Vec<ManagerEvent>),
) -> bool {
    &&& m.agents.dom().contains(id)
    &&& m.agents[id].config.agent_id == id
    &&& p.0@ == turn::opened(m.agents[id], input, m.max_tool_rounds, remote)
    &&& text::views(p.1@) == turn::opening_events(m.agents[id], p.0@.limit)
    &&& p.0@.valid()
}

/// A registry that holds the given agent under its id.
pub open spec fn kept(m: ManagerView, s: AgentStateView) -> ManagerView {
    ManagerView { agents: m.agents.insert(s.config.agent_id, s), ..m }
}

/// What was registered is found again, fresh; no other agent changes.
pub proof fn law_add_then_get(m: ManagerView, config: ConfigAgentView, id: Seq<char>)
    ensures
        ({
            let after = kept(m, agents::fresh_state(config));
            &&& after.agents.dom().contains(config.agent_id)
            &&& after.agents[config.agent_id] == agents::fresh_state(config)
            &&& id != config.agent_id ==> after.agents.dom().contains(id)
                == m.agents.dom().contains(id)
            &&& id != config.agent_id && m.agents.dom().contains(id) ==> after.agents[id]
                == m.agents[id]
        }),
{
}

/// A turn is of the agent that was asked for, whatever it is told: its line in the history
/// bears that id.
pub proof fn law_turn_is_of_agent_asked(
    m: ManagerView,
    id: Seq<char>,
    input: Seq<char>,
    remote: bool,
    p: (Turn, Vec<ManagerEvent>),
    inputs: Seq<turn::TurnInput>,
)
    requires
        begun(m, id, input, remote, p),
    ensures
        turn::told_all(p.0@, inputs).state.config == m.agents[id].config,
        turn::told_all(p.0@, inputs).state.config.agent_id == id,
    decreases inputs.len(),
{
    if inputs.len() > 0 {
        law_turn_is_of_agent_asked(m, id, input, remote, p, inputs.drop_last());
    }
}

/// The turn of an agent that works for the root is a local one, whatever
/// provider the root has: it keeps no messages for a remote model, however it
/// goes on.
pub proof fn law_agents_at_work_are_local(
    m: ManagerView,
    id: Seq<char>,
    input: Seq<char>,
    p: (Turn, Vec<ManagerEvent>),
    out: turn::OutputView,
    interrupted: bool,
)
    requires
        begun(m, id, input, false, p),
    ensures
        !p.0@.remote,
        p.0@.messages.len() == 0,
        !turn::after_output(p.0@, out, interrupted).remote,
        turn::after_output(p.0@, out, interrupted).messages.len() == 0,
{
}

/// Each agent of a list is found by its id; of two with one id, the later.
pub proof fn law_agent_is_found_by_id(states: Seq<AgentState>, i: int)
    requires
        0 <= i < states.len(),
        forall|j: int|
            i < j < states.len() ==> (#[trigger] states[j]).config.agent_id@
                != states[i].config.agent_id@,
    ensures
        by_id(states).dom().contains(states[i].config.agent_id@),
        by_id(states)[states[i].config.agent_id@] == states[i]@,
    decreases states.len(),
{
    if i < states.len() - 1 {
        law_agent_is_found_by_id(states.drop_last(), i);
        assert(states[states.len() - 1].config.agent_id@ != states[i].config.agent_id@);
    }
}

/// The complaint of an unknown agent names it.
pub proof fn law_unknown_agent_is_named(id: Seq<char>)
    ensures
        not_found(id) == "agente '"@ + id + "' não encontrado"@,
{
}

} // verus!
