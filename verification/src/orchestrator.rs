//! The team: its modes, the tools of its root, and the root itself.

use vstd::prelude::*;

use crate::agents;
use crate::agents::{
    AgentRole, AgentTask, ConfigAgent, ConfigAgentView,
};
use crate::chat::{ChatMessage, ChatMessageView};
use crate::json;
use crate::json::{Json, JsonView};
use crate::manager;
use crate::manager::{AgentManager, ManagerView};
use crate::text;
use crate::tools;

verus! {

/// The id of the root agent.
pub const MAESTRO_AGENT_ID: &'static str = "drill";

/// The longest result of a tool of the root, in bytes.
pub const MAX_TOOL_RESULT: usize = 24_000;

/// What an agent is asked once its work is done.
pub const SUMMARY_PROMPT: &'static str = "[drill] Trabalho concluído. Escreva um RESUMO curto (maximo 4 linhas) do que você fez, arquivos/estado atual e pendencias. Responda apenas com o resumo.";

/// Whether the root works alone or leads a team.
#[derive(Debug, Clone, Copy, PartialEq, Eq, Structural)]
pub enum AgentMode {
    Solo,
    Agents,
}

/// The other mode.
pub open spec fn toggled(m: AgentMode) -> AgentMode {
    match m {
        AgentMode::Solo => AgentMode::Agents,
        AgentMode::Agents => AgentMode::Solo,
    }
}

/// The name of a mode.
pub open spec fn mode_label(m: AgentMode) -> Seq<char> {
    match m {
        AgentMode::Solo => "solo"@,
        AgentMode::Agents => "agents"@,
    }
}

impl AgentMode {
    pub fn toggle(&mut self)
        ensures
            *final(self) == toggled(*old(self)),
    {
        *self = match *self {
            AgentMode::Solo => AgentMode::Agents,
            AgentMode::Agents => AgentMode::Solo,
        };
    }

    pub fn label(&self) -> (r: &'static str)
        ensures
            r@ == mode_label(*self),
    {
        match self {
            AgentMode::Solo => "solo",
            AgentMode::Agents => "agents",
        }
    }

    /// The name under which a mode is stored: its label.
    pub fn stored(&self) -> (r: &'static str)
        ensures
            r@ == mode_label(*self),
    {
        self.label()
    }
}

/// Toggling twice leads back, toggling once leads elsewhere, and the two modes are stored under
/// different names.
pub proof fn law_toggle(m: AgentMode)
    ensures
        toggled(toggled(m)) == m,
        toggled(m) != m,
        mode_label(toggled(m)) != mode_label(m),
{
    reveal_strlit("solo");
    reveal_strlit("agents");
    assert("solo"@.len() != "agents"@.len());
}

/// The persona of the root of a team, up to the directory of the agents.
pub const MAESTRO_PERSONA: &'static str = "[drill:maestro] Você é o agente MAESTRO de um time de IA. Seus subagentes sao definidos por arquivos `drill.<nome>.agent.json`. Ferramentas exclusivas:\n- list_agents: lista os subagentes disponiveis com nome, descricao, ferramentas e temperatura\n- read_agent <name>: exibe o perfil de um subagente\n- create_agent <name, persona, ...>: cria um novo subagente\n- ask_agent <name, prompt>: delega uma tarefa a um subagente e retorna TRABALHO + RESUMO\n\nFLUXO DE TRABALHO EM EQUIPE:\n1. Ao receber um pedido, liste os subagentes (list_agents) e identifique quais especialistas sao necessarios (ex.: front, back, test).\n2. Monte um plano e delegue a CADA especialista uma chamada ask_agent com prompt objetivo, completo e em portugues.\n3. Cada ask_agent responde com [NOME] TRABALHO e RESUMO. Se um trabalho depende de outro, espere o resultado antes de delegar o seguinte.\n4. Ao final, agregue os RESUMOS de todos e responda ao usuario com uma secao final chamada 'RESUMO GERAL' listando por agente o que foi feito, decisoes e proximo passo.\n\nREGRAS DE ACao:\n- Sempre que a tarefa exigir ferramenta, EMITA a chamada de ferramenta imediatamente, sem texto narrativo antes (nao escreva 'vou fazer x' e pare).\n- Ao criar um subagente, chame create_agent com name, description e persona completos logo na primeira rodada.\n- Responda apenas ao final, agregando os resultados.\n\nMantenha as respostas concisas em portugues. ";

/// The persona of the root of a team whose agents live in the given directory.
pub open spec fn maestro_persona(agents_root: Seq<char>) -> Seq<char> {
    MAESTRO_PERSONA@ + agents_root + "\n"@
}

/// The persona of the root of a team.
pub fn maestro_prompt(agents_root: &str) -> (r: String)
    ensures
        r@ == maestro_persona(agents_root@),
{
    text::cat3(MAESTRO_PERSONA, agents_root, "\n")
}

/// A subagent as its file describes it. The temperature is carried as the bit pattern of a 32-bit
/// float, and as it is shown, with one decimal.
#[derive(Debug, PartialEq)]
pub struct SubagentConfig {
    pub name: String,
    pub description: String,
    pub persona: String,
    pub temp: u32,
    pub temp_shown: String,
    pub max_tool_rounds: u64,
    pub allowed_tools: Vec<String>,
}

/// The configuration of the agent that a subagent becomes.
pub open spec fn subagent_config(
    name: Seq<char>,
    persona: Seq<char>,
    tools_json: Option<Seq<char>>,
) -> ConfigAgentView {
    ConfigAgentView {
        agent_id: name,
        role: AgentRole::Agent,
        prompt: persona,
        tools_json,
        force_tools: false,
    }
}

impl SubagentConfig {
    /// The agent that a subagent becomes, with the tools that it is told of.
    pub fn to_config(&self, tools_json: Option<String>) -> (r: ConfigAgent)
        ensures
            r@ == subagent_config(self.name@, self.persona@, text::opt_view(tools_json)),
    {
        ConfigAgent {
            agent_id: self.name.clone(),
            role: AgentRole::Agent,
            prompt: self.persona.clone(),
            tools_json,
            force_tools: false,
        }
    }
}

/// What the name of a file with an agent's definition begins and ends with.
pub const AGENT_FILE_PREFIX: &'static str = "drill.";

pub const AGENT_FILE_SUFFIX: &'static str = ".agent.json";

/// The name of the file with an agent's definition.
pub open spec fn definition_file(name: Seq<char>) -> Seq<char> {
    AGENT_FILE_PREFIX@ + name + AGENT_FILE_SUFFIX@
}

/// The name of the file with an agent's definition.
pub fn agent_file(name: &str) -> (r: String)
    ensures
        r@ == definition_file(name@),
{
    text::cat3(AGENT_FILE_PREFIX, name, AGENT_FILE_SUFFIX)
}

/// Whether a file is, by its name, one with an agent's definition.
pub fn is_agent_file(file: &str) -> (r: bool)
    ensures
        r == (text::has_prefix(file@, AGENT_FILE_PREFIX@) && text::has_suffix(
            file@,
            AGENT_FILE_SUFFIX@,
        )),
{
    text::starts_with(file, AGENT_FILE_PREFIX) && text::ends_with(file, AGENT_FILE_SUFFIX)
}

/// The file of an agent is recognized as one.
pub proof fn law_agent_file_is_found(name: Seq<char>)
    ensures
        text::has_prefix(definition_file(name), AGENT_FILE_PREFIX@),
        text::has_suffix(definition_file(name), AGENT_FILE_SUFFIX@),
{
    let f = definition_file(name);
    assert(f.subrange(0, AGENT_FILE_PREFIX@.len() as int) =~= AGENT_FILE_PREFIX@);
    assert(f.subrange(f.len() - AGENT_FILE_SUFFIX@.len(), f.len() as int) =~= AGENT_FILE_SUFFIX@);
}

/// The name of a tool, as it is described to a model.
pub open spec fn described_name(tool: JsonView) -> Option<Seq<char>> {
    match tool.field("function"@) {
        Some(f) => f.text_field("name"@),
        None => None,
    }
}

/// A tool is one of those that are allowed.
pub open spec fn is_allowed(tool: JsonView, allowed: Seq<Seq<char>>) -> bool {
    match described_name(tool) {
        Some(n) => allowed.contains(n),
        None => false,
    }
}

/// The tools that are allowed, in their order.
pub open spec fn allowed_only(items: Seq<JsonView>, allowed: Seq<Seq<char>>) -> Seq<JsonView>
    decreases items.len(),
{
    if items.len() == 0 {
        Seq::empty()
    } else {
        let before = allowed_only(items.drop_last(), allowed);
        if is_allowed(items.last(), allowed) {
            before.push(items.last())
        } else {
            before
        }
    }
}

/// The tools of which an agent is told: those that it is allowed, or all where
/// none is named.
pub open spec fn tools_told(allowed: Seq<Seq<char>>) -> Option<Seq<char>> {
    if allowed.len() == 0 {
        Some(tools::TOOLS_JSON@)
    } else {
        match json::json_text(tools::TOOLS_JSON@) {
            Some(JsonView::Array(items)) => Some(
                json::compact_json(JsonView::Array(allowed_only(items, allowed))),
            ),
            _ => None,
        }
    }
}

fn allows(allowed: &Vec<String>, tool: &Json) -> (r: bool)
    ensures
        r == is_allowed(tool@, text::views(allowed@)),
{
    let name = match tool.get("function") {
        Some(f) => match f.text_field("name") {
            Some(n) => n,
            None => {
                return false;
            },
        },
        None => {
            return false;
        },
    };
    let ghost all = text::views(allowed@);
    let mut i: usize = 0;
    while i < allowed.len()
        invariant
            i <= allowed.len(),
            all == text::views(allowed@),
            described_name(tool@) == Some(name@),
            forall|k: int| 0 <= k < i ==> (#[trigger] all[k]) != name@,
        decreases allowed.len() - i,
    {
        assert(all[i as int] == allowed@[i as int]@);
        if text::same(allowed[i].as_str(), name) {
            assert(all.contains(name@));
            return true;
        }
        i = i + 1;
    }
    false
}

/// Keeps the tools that are allowed, in their order.
pub fn keep_allowed(items: &Vec<Json>, allowed: &Vec<String>) -> (r: Vec<Json>)
    ensures
        json::items_view(r@) == allowed_only(json::items_view(items@), text::views(allowed@)),
{
    let ghost all = json::items_view(items@);
    let mut kept: Vec<Json> = Vec::new();
    let mut i: usize = 0;
    proof {
        json::lemma_items_view(items@);
        json::lemma_items_view(kept@);
        assert(json::items_view(kept@) =~= Seq::empty());
        assert(all.subrange(0, 0) =~= Seq::empty());
    }
    while i < items.len()
        invariant
            i <= items.len(),
            all == json::items_view(items@),
            all.len() == items.len(),
            json::items_view(kept@) == allowed_only(
                all.subrange(0, i as int),
                text::views(allowed@),
            ),
        decreases items.len() - i,
    {
        proof {
            json::lemma_items_view(items@);
            let next = all.subrange(0, i + 1);
            assert(next.drop_last() =~= all.subrange(0, i as int));
            assert(next.last() == items@[i as int]@);
        }
        if allows(allowed, &items[i]) {
            let tool = items[i].copy();
            let ghost before = kept@;
            kept.push(tool);
            proof {
                json::lemma_items_push(before, tool);
            }
        }
        i = i + 1;
    }
    assert(all.subrange(0, all.len() as int) =~= all);
    kept
}

/// Describes the tools of which an agent is told.
pub fn tools_json_for(allowed: &Vec<String>) -> (r: Option<String>)
    ensures
        text::opt_view(r) == tools_told(text::views(allowed@)),
{
    if allowed.len() == 0 {
        return Some(tools::TOOLS_JSON.to_string());
    }
    match json::parse(tools::TOOLS_JSON) {
        Some(Json::Array(items)) => Some(json::write(&Json::Array(keep_allowed(&items, allowed)))),
        _ => None,
    }
}

/// An agent is told of no tool that it is not allowed.
pub proof fn law_agent_is_told_allowed_tools(items: Seq<JsonView>, allowed: Seq<Seq<char>>)
    ensures
        forall|k: int|
            0 <= k < allowed_only(items, allowed).len() ==> is_allowed(
                #[trigger] allowed_only(items, allowed)[k],
                allowed,
            ),
    decreases items.len(),
{
    if items.len() > 0 {
        law_agent_is_told_allowed_tools(items.drop_last(), allowed);
        let before = allowed_only(items.drop_last(), allowed);
        assert forall|k: int| 0 <= k < allowed_only(items, allowed).len() implies is_allowed(
            #[trigger] allowed_only(items, allowed)[k],
            allowed,
        ) by {
            if k < before.len() {
                assert(is_allowed(before[k], allowed));
            }
        }
    }
}

/// A member that is there and not null.
pub open spec fn present(v: JsonView, key: Seq<char>) -> Option<JsonView> {
    match v.field(key) {
        Some(x) if !(x is Null) => Some(x),
        _ => None,
    }
}

/// A member of the object that stands under `wrap`, where it is there and not null.
pub open spec fn present_in(args: JsonView, wrap: Seq<char>, key: Seq<char>) -> Option<JsonView> {
    match args.field(wrap) {
        Some(inner) => present(inner, key),
        None => None,
    }
}

/// A member of the object that stands under `wrap`.
pub open spec fn member_in(args: JsonView, wrap: Seq<char>, key: Seq<char>) -> Option<JsonView> {
    match args.field(wrap) {
        Some(inner) => inner.field(key),
        None => None,
    }
}

/// The first that is there.
pub open spec fn first_of(a: Option<JsonView>, b: Option<JsonView>) -> Option<JsonView> {
    match a {
        Some(x) => Some(x),
        None => b,
    }
}

/// An argument under another name, in an envelope or in the arguments themselves.
pub open spec fn aliased(args: JsonView, alias: Seq<char>) -> Option<JsonView> {
    first_of(
        member_in(args, "arguments"@, alias),
        first_of(
            member_in(args, "args"@, alias),
            first_of(member_in(args, "parameters"@, alias), args.field(alias)),
        ),
    )
}

/// An argument of a tool of the root: it may stand in an envelope, and the name of an agent may
/// have another name.
pub open spec fn arg_of(args: JsonView, key: Seq<char>) -> Option<JsonView> {
    first_of(
        present(args, key),
        first_of(
            present_in(args, "arguments"@, key),
            first_of(
                present_in(args, "args"@, key),
                first_of(
                    present_in(args, "parameters"@, key),
                    if key == "name"@ {
                        first_of(
                            aliased(args, "agent"@),
                            first_of(aliased(args, "agent_name"@), aliased(args, "subagent"@)),
                        )
                    } else {
                        None
                    },
                ),
            ),
        ),
    )
}

/// A text argument of a tool of the root.
pub open spec fn text_of(args: JsonView, key: Seq<char>) -> Option<Seq<char>> {
    match arg_of(args, key) {
        Some(v) => v.as_text(),
        None => None,
    }
}

fn get_present<'a>(v: &'a Json, key: &str) -> (r: Option<&'a Json>)
    ensures
        match r {
            Some(j) => present(v@, key@) == Some(j@),
            None => present(v@, key@) is None,
        },
{
    match v.get(key) {
        Some(x) => match x {
            Json::Null => None,
            _ => Some(x),
        },
        None => None,
    }
}

fn get_present_in<'a>(args: &'a Json, wrap: &str, key: &str) -> (r: Option<&'a Json>)
    ensures
        match r {
            Some(j) => present_in(args@, wrap@, key@) == Some(j@),
            None => present_in(args@, wrap@, key@) is None,
        },
{
    match args.get(wrap) {
        Some(inner) => get_present(inner, key),
        None => None,
    }
}

fn get_in<'a>(args: &'a Json, wrap: &str, key: &str) -> (r: Option<&'a Json>)
    ensures
        match r {
            Some(j) => member_in(args@, wrap@, key@) == Some(j@),
            None => member_in(args@, wrap@, key@) is None,
        },
{
    match args.get(wrap) {
        Some(inner) => inner.get(key),
        None => None,
    }
}

fn get_aliased<'a>(args: &'a Json, alias: &str) -> (r: Option<&'a Json>)
    ensures
        match r {
            Some(j) => aliased(args@, alias@) == Some(j@),
            None => aliased(args@, alias@) is None,
        },
{
    match get_in(args, "arguments", alias) {
        Some(v) => Some(v),
        None => match get_in(args, "args", alias) {
            Some(v) => Some(v),
            None => match get_in(args, "parameters", alias) {
                Some(v) => Some(v),
                None => args.get(alias),
            },
        },
    }
}

fn get_arg<'a>(args: &'a Json, key: &str) -> (r: Option<&'a Json>)
    ensures
        match r {
            Some(j) => arg_of(args@, key@) == Some(j@),
            None => arg_of(args@, key@) is None,
        },
{
    match get_present(args, key) {
        Some(v) => {
            return Some(v);
        },
        None => {},
    }
    match get_present_in(args, "arguments", key) {
        Some(v) => {
            return Some(v);
        },
        None => {},
    }
    match get_present_in(args, "args", key) {
        Some(v) => {
            return Some(v);
        },
        None => {},
    }
    match get_present_in(args, "parameters", key) {
        Some(v) => {
            return Some(v);
        },
        None => {},
    }
    if text::same(key, "name") {
        match get_aliased(args, "agent") {
            Some(v) => Some(v),
            None => match get_aliased(args, "agent_name") {
                Some(v) => Some(v),
                None => get_aliased(args, "subagent"),
            },
        }
    } else {
        None
    }
}

fn get_text(args: &Json, key: &str) -> (r: Option<String>)
    ensures
        text::opt_view(r) == text_of(args@, key@),
{
    match get_arg(args, key) {
        Some(v) => match v.as_text() {
            Some(t) => Some(t.to_string()),
            None => None,
        },
        None => None,
    }
}

/// What a call of a tool of the root asks for. The temperature of a new agent is handed on as it
/// was given.
#[derive(Debug, PartialEq)]
pub enum MaestroPlan {
    ListAgents,
    ReadAgent { name: String },
    CreateAgent {
        name: String,
        description: String,
        persona: String,
        temp: Option<Json>,
        max_tool_rounds: u64,
        allowed_tools: Vec<String>,
    },
    AskAgent { name: String, prompt: String },
}

/// The model of what a call of a tool of the root asks for.
#[verifier::ext_equal]
pub enum MaestroView {
    ListAgents,
    ReadAgent { name: Seq<char> },
    CreateAgent {
        name: Seq<char>,
        description: Seq<char>,
        persona: Seq<char>,
        temp: Option<JsonView>,
        max_tool_rounds: nat,
        allowed_tools: Seq<Seq<char>>,
    },
    AskAgent { name: Seq<char>, prompt: Seq<char> },
}

impl View for MaestroPlan {
    type V = MaestroView;

    open spec fn view(&self) -> MaestroView {
        match self {
            MaestroPlan::ListAgents => MaestroView::ListAgents,
            MaestroPlan::ReadAgent { name } => MaestroView::ReadAgent { name: name@ },
            MaestroPlan::CreateAgent {
                name,
                description,
                persona,
                temp,
                max_tool_rounds,
                allowed_tools,
            } => MaestroView::CreateAgent {
                name: name@,
                description: description@,
                persona: persona@,
                temp: text::opt_view(*temp),
                max_tool_rounds: *max_tool_rounds as nat,
                allowed_tools: text::views(allowed_tools@),
            },
            MaestroPlan::AskAgent { name, prompt } => MaestroView::AskAgent {
                name: name@,
                prompt: prompt@,
            },
        }
    }
}

/// The texts among some values.
pub open spec fn texts_of(v: Seq<JsonView>) -> Seq<Seq<char>>
    decreases v.len(),
{
    if v.len() == 0 {
        Seq::empty()
    } else {
        let before = texts_of(v.drop_last());
        match v.last().as_text() {
            Some(t) => before.push(t),
            None => before,
        }
    }
}

/// The tools of a new agent: those that are given, or else the usual four.
pub open spec fn tools_of(args: JsonView) -> Seq<Seq<char>> {
    match args.items_field("allowed_tools"@) {
        Some(v) => texts_of(v),
        None => seq!["read_file"@, "write_file"@, "patch_file"@, "run_command"@],
    }
}

/// The persona of a new agent: the one that is given, or else one made from its name and what it
/// is for.
pub open spec fn persona_of(
    given: Option<Seq<char>>,
    name: Seq<char>,
    description: Seq<char>,
) -> Seq<char> {
    match given {
        Some(p) if p.len() > 0 => p,
        _ => if description.len() == 0 {
            "Voce e o agente "@ + name
                + " do time do drill. Responda de forma concisa e objetiva, em portugues."@
        } else {
            "Voce e o agente "@ + name + ", especialista em "@ + description
                + ". Responda de forma concisa e objetiva, em portugues."@
        },
    }
}

/// The rounds of a new agent: at least one, four unless given.
pub open spec fn rounds_of(args: JsonView) -> nat {
    match arg_of(args, "max_tool_rounds"@) {
        Some(v) => match v.as_int() {
            Some(n) => if n < 1 {
                1
            } else {
                n as nat
            },
            None => 4,
        },
        None => 4,
    }
}

/// What a call of a tool of the root asks for, or why it cannot be done.
pub open spec fn dispatched(name: Seq<char>, args: JsonView) -> Result<MaestroView, Seq<char>> {
    if name == "list_agents"@ {
        Ok(MaestroView::ListAgents)
    } else if name == "read_agent"@ {
        match text_of(args, "name"@) {
            Some(name) => Ok(MaestroView::ReadAgent { name }),
            None => Err("missing 'name'"@),
        }
    } else if name == "create_agent"@ {
        match text_of(args, "name"@) {
            None => Err("missing 'name'"@),
            Some(name) => {
                let description = match text_of(args, "description"@) {
                    Some(d) => d,
                    None => ""@,
                };
                Ok(
                    MaestroView::CreateAgent {
                        name,
                        description,
                        persona: persona_of(text_of(args, "persona"@), name, description),
                        temp: arg_of(args, "temp"@),
                        max_tool_rounds: rounds_of(args),
                        allowed_tools: tools_of(args),
                    },
                )
            },
        }
    } else if name == "ask_agent"@ {
        match (text_of(args, "name"@), text_of(args, "prompt"@)) {
            (None, _) => Err("missing 'name'"@),
            (_, None) => Err("missing 'prompt'"@),
            (Some(name), Some(prompt)) => Ok(MaestroView::AskAgent { name, prompt }),
        }
    } else {
        Err("unknown maestro tool: "@ + name)
    }
}

/// The model of what came of dispatching.
pub open spec fn maestro_view(r: Result<MaestroPlan, String>) -> Result<MaestroView, Seq<char>> {
    match r {
        Ok(p) => Ok(p@),
        Err(e) => Err(e@),
    }
}

fn allowed_tools(args: &Json) -> (r: Vec<String>)
    ensures
        text::views(r@) == tools_of(args@),
{
    broadcast use json::lemma_items_view;

    let mut out: Vec<String> = Vec::new();
    match args.items_field("allowed_tools") {
        Some(items) => {
            let ghost all = json::items_view(items@);
            let mut i: usize = 0;
            assert(all.subrange(0, 0) =~= Seq::empty());
            assert(text::views(out@) =~= Seq::empty());
            while i < items.len()
                invariant
                    i <= items@.len(),
                    all == json::items_view(items@),
                    all.len() == items@.len(),
                    forall|k: int| 0 <= k < all.len() ==> all[k] == json::json_view(items@[k]),
                    text::views(out@) == texts_of(all.subrange(0, i as int)),
                decreases items@.len() - i,
            {
                let ghost next = all.subrange(0, i + 1);
                assert(next.drop_last() =~= all.subrange(0, i as int));
                assert(next.last() == items@[i as int]@);
                match items[i].as_text() {
                    Some(t) => {
                        let ghost before = text::views(out@);
                        out.push(t.to_string());
                        assert(text::views(out@) =~= before.push(t@));
                    },
                    None => {},
                }
                i = i + 1;
            }
            assert(all.subrange(0, all.len() as int) =~= all);
        },
        None => {
            out.push("read_file".to_string());
            out.push("write_file".to_string());
            out.push("patch_file".to_string());
            out.push("run_command".to_string());
            assert(text::views(out@) =~= tools_of(args@));
        },
    }
    out
}

fn make_persona(given: Option<String>, name: &str, description: &str) -> (r: String)
    ensures
        r@ == persona_of(text::opt_view(given), name@, description@),
{
    match given {
        Some(p) => {
            if p.as_str().unicode_len() > 0 {
                return p;
            }
        },
        None => {},
    }
    if description.unicode_len() == 0 {
        text::cat3(
            "Voce e o agente ",
            name,
            " do time do drill. Responda de forma concisa e objetiva, em portugues.",
        )
    } else {
        text::cat5(
            "Voce e o agente ",
            name,
            ", especialista em ",
            description,
            ". Responda de forma concisa e objetiva, em portugues.",
        )
    }
}

/// Works out what a call of a tool of the root asks for.
pub fn maestro_dispatch(name: &str, args: &Json) -> (r: Result<MaestroPlan, String>)
    ensures
        maestro_view(r) == dispatched(name@, args@),
{
    if text::same(name, "list_agents") {
        Ok(MaestroPlan::ListAgents)
    } else if text::same(name, "read_agent") {
        match get_text(args, "name") {
            Some(name) => Ok(MaestroPlan::ReadAgent { name }),
            None => Err("missing 'name'".to_string()),
        }
    } else if text::same(name, "create_agent") {
        match get_text(args, "name") {
            None => Err("missing 'name'".to_string()),
            Some(name) => {
                let description = match get_text(args, "description") {
                    Some(d) => d,
                    None => "".to_string(),
                };
                let persona = make_persona(
                    get_text(args, "persona"),
                    name.as_str(),
                    description.as_str(),
                );
                let temp = match get_arg(args, "temp") {
                    Some(t) => Some(t.copy()),
                    None => None,
                };
                let max_tool_rounds: u64 = match get_arg(args, "max_tool_rounds") {
                    Some(v) => match v.as_int() {
                        Some(n) => if n < 1 {
                            1
                        } else {
                            n as u64
                        },
                        None => 4,
                    },
                    None => 4,
                };
                let allowed_tools = allowed_tools(args);
                Ok(
                    MaestroPlan::CreateAgent {
                        name,
                        description,
                        persona,
                        temp,
                        max_tool_rounds,
                        allowed_tools,
                    },
                )
            },
        }
    } else if text::same(name, "ask_agent") {
        match (get_text(args, "name"), get_text(args, "prompt")) {
            (None, _) => Err("missing 'name'".to_string()),
            (_, None) => Err("missing 'prompt'".to_string()),
            (Some(name), Some(prompt)) => Ok(MaestroPlan::AskAgent { name, prompt }),
        }
    } else {
        Err(text::cat2("unknown maestro tool: ", name))
    }
}

/// What the root is told where there are no agents.
pub const NO_AGENTS: &'static str = "Nenhum subagente encontrado. Crie com create_agent ou salve um arquivo drill.<nome>.agent.json em ~/.drill/agents ou no diretorio do projeto.";

/// The description of an agent as the table shows it: its first 35 bytes and a mark where it is
/// longer than 38.
pub open spec fn short_description(d: Seq<char>) -> Seq<char> {
    if tools::bytes(d).len() > 38 {
        vstd::utf8::decode_utf8(tools::bytes(d).subrange(0, 35)) + "..."@
    } else {
        d
    }
}

/// The tools of an agent as the table shows them.
pub open spec fn tools_shown(allowed: Seq<Seq<char>>) -> Seq<char> {
    if allowed.len() == 0 {
        "(todas)"@
    } else {
        text::joined(allowed, ", "@)
    }
}

/// The two lines of an agent in the table.
pub open spec fn agent_rows(c: SubagentConfig) -> Seq<char> {
    text::padded(c.name@, 12) + " "@ + text::padded(short_description(c.description@), 40)
        + " temp="@ + c.temp_shown@ + " rounds="@ + text::decimal(c.max_tool_rounds as nat) + "\n"@ + (
    text::padded(""@, 14) + tools_shown(text::views(c.allowed_tools@)) + "\n"@)
}

/// The lines of some agents in the table.
pub open spec fn all_rows(agents: Seq<SubagentConfig>) -> Seq<char>
    decreases agents.len(),
{
    if agents.len() == 0 {
        Seq::empty()
    } else {
        all_rows(agents.drop_last()) + agent_rows(agents.last())
    }
}

/// The rule under the head of the table.
pub const RULE: &'static str = "----------------------------------------------------------------------------------------------------";

/// The head of the table.
pub open spec fn table_head() -> Seq<char> {
    text::padded("NOME"@, 12) + " "@ + text::padded("DESCRICAO"@, 40) + " "@ + "FERRAMENTAS"@
        + "\n"@ + RULE@ + "\n"@
}

/// The table shortens a description only between characters.
pub open spec fn can_shorten(agents: Seq<SubagentConfig>) -> bool {
    forall|i: int|
        0 <= i < agents.len() ==> tools::bytes((#[trigger] agents[i]).description@).len() <= 38
            || vstd::utf8::is_char_boundary(tools::bytes(agents[i].description@), 35)
}

fn shorten(d: &str) -> (r: String)
    requires
        tools::bytes(d@).len() <= 38 || vstd::utf8::is_char_boundary(tools::bytes(d@), 35),
    ensures
        r@ == short_description(d@),
{
    if tools::byte_len(d) > 38 {
        let (head, _tail) = d.split_at(35);
        proof {
            vstd::utf8::encode_utf8_decode_utf8(head@);
        }
        text::cat2(head, "...")
    } else {
        d.to_string()
    }
}

/// The table of the agents.
pub fn list_agents_table(agents: &Vec<SubagentConfig>) -> (r: Result<String, String>)
    requires
        can_shorten(agents@),
    ensures
        r is Ok,
        r->Ok_0@ == table_head() + all_rows(agents@),
{
    let name = text::pad("NOME", 12);
    let description = text::pad("DESCRICAO", 40);
    let mut head = text::cat5(name.as_str(), " ", description.as_str(), " ", "FERRAMENTAS");
    head.append("\n");
    head.append(RULE);
    head.append("\n");
    let mut rows = String::new();
    let mut i: usize = 0;
    assert(agents@.subrange(0, 0) =~= Seq::empty());
    assert(rows@ =~= Seq::empty());
    while i < agents.len()
        invariant
            i <= agents@.len(),
            can_shorten(agents@),
            rows@ == all_rows(agents@.subrange(0, i as int)),
        decreases agents@.len() - i,
    {
        let c = &agents[i];
        let short = shorten(c.description.as_str());
        let name = text::pad(c.name.as_str(), 12);
        let description = text::pad(short.as_str(), 40);
        let rounds = text::write_u64(c.max_tool_rounds);
        let mut line = text::cat5(
            name.as_str(),
            " ",
            description.as_str(),
            " temp=",
            c.temp_shown.as_str(),
        );
        line.append(" rounds=");
        line.append(rounds.as_str());
        line.append("\n");
        let indent = text::pad("", 14);
        let shown = if c.allowed_tools.len() == 0 {
            "(todas)".to_string()
        } else {
            text::join(&c.allowed_tools, ", ")
        };
        let second = text::cat3(indent.as_str(), shown.as_str(), "\n");
        line.append(second.as_str());
        assert(line@ == agent_rows(agents@[i as int]));
        rows.append(line.as_str());
        assert(agents@.subrange(0, i + 1).drop_last() =~= agents@.subrange(0, i as int));
        i = i + 1;
    }
    assert(agents@.subrange(0, agents@.len() as int) =~= agents@);
    Ok(text::cat2(head.as_str(), rows.as_str()))
}

/// What listing the agents says.
pub fn list_agents_reply(agents: &Vec<SubagentConfig>) -> (r: Result<String, String>)
    requires
        can_shorten(agents@),
    ensures
        r is Ok,
        r->Ok_0@ == if agents@.len() == 0 {
            NO_AGENTS@
        } else {
            table_head() + all_rows(agents@)
        },
{
    if agents.len() == 0 {
        Ok(NO_AGENTS.to_string())
    } else {
        list_agents_table(agents)
    }
}

/// What creating an agent says.
pub open spec fn created_report(c: SubagentConfig, path: Seq<char>) -> Seq<char> {
    "Subagente '"@ + c.name@ + "' criado e salvo em "@ + path + ".\ndescricao: "@ + c.description@
        + "\ntemp: "@ + c.temp_shown@ + " | rounds: "@ + text::decimal(c.max_tool_rounds as nat)
        + " | ferramentas: "@ + text::joined(text::views(c.allowed_tools@), ", "@)
}

/// Words what creating an agent says.
pub fn create_agent_reply(c: &SubagentConfig, path: &str) -> (r: String)
    ensures
        r@ == created_report(*c, path@),
{
    let rounds = text::write_u64(c.max_tool_rounds);
    let allowed = text::join(&c.allowed_tools, ", ");
    let mut out = text::cat5(
        "Subagente '",
        c.name.as_str(),
        "' criado e salvo em ",
        path,
        ".\ndescricao: ",
    );
    out.append(c.description.as_str());
    out.append("\ntemp: ");
    out.append(c.temp_shown.as_str());
    out.append(" | rounds: ");
    out.append(rounds.as_str());
    out.append(" | ferramentas: ");
    out.append(allowed.as_str());
    out
}

/// What asking an agent says: its work and its summary, or why it failed.
pub open spec fn asked_report(
    name: Seq<char>,
    outcome: Result<(Seq<char>, Seq<char>), Seq<char>>,
) -> Result<Seq<char>, Seq<char>> {
    match outcome {
        Ok(p) => Ok("["@ + name + "]\nTRABALHO\n"@ + p.0 + "\nFIN_TRABALHO\nRESUMO\n"@ + p.1),
        Err(e) => Err("ask_agent falhou: "@ + e),
    }
}

/// Words what asking an agent says.
pub fn ask_agent_reply(name: &str, outcome: Result<(String, String), String>) -> (r: Result<
    String,
    String,
>)
    ensures
        result_view(r) == asked_report(
            name@,
            match outcome {
                Ok(p) => Ok((p.0@, p.1@)),
                Err(e) => Err(e@),
            },
        ),
{
    match outcome {
        Ok((work, summary)) => {
            let mut out = text::cat4("[", name, "]\nTRABALHO\n", work.as_str());
            out.append("\nFIN_TRABALHO\nRESUMO\n");
            out.append(summary.as_str());
            Ok(out)
        },
        Err(e) => Err(text::cat2("ask_agent falhou: ", e.as_str())),
    }
}

/// The model of a text or the error in its place.
pub open spec fn result_view(r: Result<String, String>) -> Result<Seq<char>, Seq<char>> {
    match r {
        Ok(t) => Ok(t@),
        Err(e) => Err(e@),
    }
}

/// Cuts the result of a tool of the root; an error passes as it is.
pub fn maestro_result(result: Result<String, String>) -> (r: Result<String, String>)
    requires
        result matches Ok(t) ==> tools::can_cut(t@, MAX_TOOL_RESULT as nat),
    ensures
        result_view(r) == match result_view(result) {
            Ok(t) => Ok(tools::cut(t, MAX_TOOL_RESULT as nat)),
            Err(e) => Err(e),
        },
{
    match result {
        Ok(t) => Ok(tools::truncate_at(t, MAX_TOOL_RESULT)),
        Err(e) => Err(e),
    }
}

/// The turns in which an agent does a piece of work and then sums it up, each with the kind under
/// which it is recorded.
pub fn delegation(work_input: &str, summary_input: &str) -> (r: ((String, String), (String, String)))
    ensures
        (r.0).0@ == work_input@,
        (r.0).1@ == "main"@,
        (r.1).0@ == summary_input@,
        (r.1).1@ == "resumo"@,
{
    (
        (work_input.to_string(), "main".to_string()),
        (summary_input.to_string(), "resumo".to_string()),
    )
}

/// The team: the root, the agents, and the mode in which they work. The temperature is carried
/// as the bit pattern of a 32-bit float.
pub struct AgentOrchestrator {
    pub manager: AgentManager,
    pub ctx_max: usize,
    pub tools_enabled: bool,
    pub mode: AgentMode,
    pub persona: String,
    pub session_id: String,
    pub temp: u32,
    pub n_predict: usize,
}

/// The model of a team.
#[verifier::ext_equal]
pub struct TeamView {
    pub manager: ManagerView,
    pub ctx_max: nat,
    pub tools_enabled: bool,
    pub mode: AgentMode,
    pub persona: Seq<char>,
    pub session_id: Seq<char>,
    pub temp: u32,
    pub n_predict: nat,
}

impl View for AgentOrchestrator {
    type V = TeamView;

    open spec fn view(&self) -> TeamView {
        TeamView {
            manager: self.manager@,
            ctx_max: self.ctx_max as nat,
            tools_enabled: self.tools_enabled,
            mode: self.mode,
            persona: self.persona@,
            session_id: self.session_id@,
            temp: self.temp,
            n_predict: self.n_predict as nat,
        }
    }
}

/// The configuration of the root.
pub open spec fn root_config(prompt: Seq<char>, tools_enabled: bool, force: bool) -> ConfigAgentView {
    ConfigAgentView {
        agent_id: MAESTRO_AGENT_ID@,
        role: AgentRole::Root,
        prompt,
        tools_json: if tools_enabled {
            Some(tools::TOOLS_JSON@)
        } else {
            None
        },
        force_tools: tools_enabled && force,
    }
}

/// A registry with one agent more, or another in its place.
pub open spec fn registered(m: ManagerView, c: ConfigAgentView) -> ManagerView {
    manager::kept(m, agents::fresh_state(c))
}

/// A registry with some agents more, in their order.
pub open spec fn all_registered(m: ManagerView, configs: Seq<ConfigAgentView>) -> ManagerView
    decreases configs.len(),
{
    if configs.len() == 0 {
        m
    } else {
        registered(all_registered(m, configs.drop_last()), configs.last())
    }
}

/// The registry of a new team.
pub open spec fn first_registry(
    persona: Seq<char>,
    tools_enabled: bool,
    subagents: Seq<ConfigAgentView>,
    local: bool,
) -> ManagerView {
    let empty = ManagerView {
        agents: Map::empty(),
        max_tool_rounds: manager::MAX_TOOL_ROUNDS as nat,
        session_id: Seq::empty(),
        mode: "solo"@,
        running: false,
    };
    let all = all_registered(
        registered(empty, root_config(persona, tools_enabled, false)),
        subagents,
    );
    ManagerView { running: local, ..all }
}

/// The prompt of the root in a mode.
pub open spec fn mode_prompt(m: AgentMode, persona: Seq<char>, agents_root: Seq<char>) -> Seq<char> {
    match m {
        AgentMode::Solo => persona,
        AgentMode::Agents => maestro_persona(agents_root),
    }
}

/// A team in a mode. A change of mode gives the root another persona and a fresh history, and
/// marks the session; the mode that it has already changes nothing.
pub open spec fn in_mode(t: TeamView, m: AgentMode, agents_root: Seq<char>) -> TeamView {
    if t.mode == m {
        t
    } else {
        let root = root_config(
            mode_prompt(m, t.persona, agents_root),
            t.tools_enabled,
            m == AgentMode::Agents,
        );
        TeamView {
            mode: m,
            manager: ManagerView {
                session_id: t.session_id,
                mode: mode_label(m),
                ..registered(t.manager, root)
            },
            ..t
        }
    }
}

/// The bytes of a message, its reasoning counted in.
pub open spec fn message_bytes(m: ChatMessageView) -> nat {
    tools::bytes(m.content).len() + match m.reasoning_content {
        Some(r) => tools::bytes(r).len(),
        None => 0,
    }
}

/// The bytes of a history.
pub open spec fn history_bytes(h: Seq<ChatMessageView>) -> nat
    decreases h.len(),
{
    if h.len() == 0 {
        0
    } else {
        history_bytes(h.drop_last()) + message_bytes(h.last())
    }
}

/// The context that a root's history takes, in tokens of four bytes each; a count beyond the
/// machine's is the largest.
pub open spec fn estimate(m: ManagerView) -> nat {
    if m.agents.dom().contains(MAESTRO_AGENT_ID@) {
        let n = history_bytes(m.agents[MAESTRO_AGENT_ID@].history);
        if n <= usize::MAX {
            n / 4
        } else {
            usize::MAX as nat / 4
        }
    } else {
        0
    }
}

fn count_bytes(h: &Vec<ChatMessage>) -> (r: usize)
    ensures
        r == if history_bytes(text::views(h@)) <= usize::MAX {
            history_bytes(text::views(h@))
        } else {
            usize::MAX as nat
        },
{
    let ghost all = text::views(h@);
    let mut total: usize = 0;
    let mut i: usize = 0;
    assert(all.subrange(0, 0) =~= Seq::empty());
    while i < h.len()
        invariant
            i <= h@.len(),
            all == text::views(h@),
            total == if history_bytes(all.subrange(0, i as int)) <= usize::MAX {
                history_bytes(all.subrange(0, i as int))
            } else {
                usize::MAX as nat
            },
        decreases h@.len() - i,
    {
        let ghost next = all.subrange(0, i + 1);
        assert(next.drop_last() =~= all.subrange(0, i as int));
        assert(next.last() == h@[i as int]@);
        let said = tools::byte_len(h[i].content.as_str());
        let thought = match &h[i].reasoning_content {
            Some(r) => tools::byte_len(r.as_str()),
            None => 0,
        };
        total = total.saturating_add(said).saturating_add(thought);
        i = i + 1;
    }
    assert(all.subrange(0, all.len() as int) =~= all);
    total
}

impl AgentOrchestrator {
    /// A team that works alone: the root with its persona, and the subagents that were found.
    /// `local` says that the local runtime is there to work for it.
    pub fn new(
        tools_enabled: bool,
        ctx_max: usize,
        persona: String,
        temp: u32,
        n_predict: usize,
        subagents: Vec<ConfigAgent>,
        local: bool,
    ) -> (r: AgentOrchestrator)
        ensures
            r@ == (TeamView {
                manager: first_registry(
                    persona@,
                    tools_enabled,
                    text::views(subagents@),
                    local,
                ),
                ctx_max: ctx_max as nat,
                tools_enabled,
                mode: AgentMode::Solo,
                persona: persona@,
                session_id: Seq::empty(),
                temp,
                n_predict: n_predict as nat,
            }),
    {
        let mut manager = AgentManager::new();
        let ghost empty = manager@;
        manager.add(make_root(persona.as_str(), tools_enabled, false));
        let ghost start = manager@;
        let ghost all = text::views(subagents@);
        let mut i: usize = 0;
        assert(all.subrange(0, 0) =~= Seq::empty());
        assert(start =~= registered(empty, root_config(persona@, tools_enabled, false)));
        while i < subagents.len()
            invariant
                i <= subagents@.len(),
                all == text::views(subagents@),
                manager@ == all_registered(start, all.subrange(0, i as int)),
                manager@.running == false,
            decreases subagents@.len() - i,
        {
            let ghost next = all.subrange(0, i + 1);
            assert(next.drop_last() =~= all.subrange(0, i as int));
            assert(next.last() == subagents@[i as int]@);
            let ghost before = manager@;
            manager.add(subagents[i].copy());
            assert(manager@ =~= registered(before, next.last()));
            i = i + 1;
        }
        assert(all.subrange(0, all.len() as int) =~= all);
        if local {
            manager.run();
        }
        let r = AgentOrchestrator {
            manager,
            ctx_max,
            tools_enabled,
            mode: AgentMode::Solo,
            persona,
            session_id: String::new(),
            temp,
            n_predict,
        };
        assert(r@.session_id =~= Seq::empty());
        assert(r@.manager =~= first_registry(persona@, tools_enabled, all, local));
        r
    }

    pub fn temp(&self) -> (r: u32)
        ensures
            r == self@.temp,
    {
        self.temp
    }

    pub fn n_predict(&self) -> (r: usize)
        ensures
            r == self@.n_predict,
    {
        self.n_predict
    }

    pub fn tools_enabled(&self) -> (r: bool)
        ensures
            r == self@.tools_enabled,
    {
        self.tools_enabled
    }

    pub fn mode(&self) -> (r: AgentMode)
        ensures
            r == self@.mode,
    {
        self.mode
    }

    pub fn ctx_max(&self) -> (r: usize)
        ensures
            r == self@.ctx_max,
    {
        self.ctx_max
    }

    /// Puts the team into a mode.
    pub fn set_mode(&mut self, mode: AgentMode, agents_root: &str)
        ensures
            final(self)@ == in_mode(old(self)@, mode, agents_root@),
    {
        let ghost before = self@;
        if self.mode == mode {
            return ;
        }
        self.mode = mode;
        let prompt = match mode {
            AgentMode::Solo => self.persona.clone(),
            AgentMode::Agents => maestro_prompt(agents_root),
        };
        let force = match mode {
            AgentMode::Agents => true,
            AgentMode::Solo => false,
        };
        let root = make_root(prompt.as_str(), self.tools_enabled, force);
        self.manager.add(root);
        self.manager.set_session(self.session_id.as_str(), mode.stored());
        assert(self@ =~= in_mode(before, mode, agents_root@));
    }

    /// Begins a session: every history line from now on is marked with it.
    pub fn set_session(&mut self, session_id: String)
        ensures
            final(self)@ == (TeamView {
                session_id: session_id@,
                manager: ManagerView {
                    session_id: session_id@,
                    mode: mode_label(old(self)@.mode),
                    ..old(self)@.manager
                },
                ..old(self)@
            }),
    {
        self.manager.set_session(session_id.as_str(), self.mode.stored());
        self.session_id = session_id;
    }

    /// How much context the root's history takes, in tokens.
    pub fn context_estimate(&self) -> (r: usize)
        ensures
            r == estimate(self@.manager),
    {
        match self.manager.history_of(MAESTRO_AGENT_ID) {
            Some(h) => count_bytes(&h) / 4,
            None => 0,
        }
    }

    /// The task of the root for the input of the user; refused while no local runtime works.
    pub fn run_turn(&self, user_input: &str) -> (r: Result<AgentTask, String>)
        ensures
            match r {
                Ok(t) => self@.manager.running && t.agent_id@ == MAESTRO_AGENT_ID@ && t.input@
                    == user_input@,
                Err(e) => !self@.manager.running && e@ == manager::NOT_STARTED@,
            },
    {
        self.manager.enqueue(MAESTRO_AGENT_ID, user_input)
    }
}

fn make_root(prompt: &str, tools_enabled: bool, force: bool) -> (r: ConfigAgent)
    ensures
        r@ == root_config(prompt@, tools_enabled, force),
{
    ConfigAgent {
        agent_id: MAESTRO_AGENT_ID.to_string(),
        role: AgentRole::Root,
        prompt: prompt.to_string(),
        tools_json: if tools_enabled {
            Some(tools::TOOLS_JSON.to_string())
        } else {
            None
        },
        force_tools: tools_enabled && force,
    }
}

/// The root is registered whatever subagents were found, unless one of them has its id.
pub proof fn law_root_is_registered(
    persona: Seq<char>,
    tools_enabled: bool,
    subagents: Seq<ConfigAgentView>,
    local: bool,
)
    requires
        forall|i: int|
            0 <= i < subagents.len() ==> (#[trigger] subagents[i]).agent_id != MAESTRO_AGENT_ID@,
    ensures
        ({
            let m = first_registry(persona, tools_enabled, subagents, local);
            &&& m.agents.dom().contains(MAESTRO_AGENT_ID@)
            &&& m.agents[MAESTRO_AGENT_ID@] == agents::fresh_state(
                root_config(persona, tools_enabled, false),
            )
        }),
{
    let empty = ManagerView {
        agents: Map::empty(),
        max_tool_rounds: manager::MAX_TOOL_ROUNDS as nat,
        session_id: Seq::empty(),
        mode: "solo"@,
        running: false,
    };
    let start = registered(empty, root_config(persona, tools_enabled, false));
    lemma_others_keep(start, subagents);
}

proof fn lemma_others_keep(m: ManagerView, configs: Seq<ConfigAgentView>)
    requires
        m.agents.dom().contains(MAESTRO_AGENT_ID@),
        forall|i: int|
            0 <= i < configs.len() ==> (#[trigger] configs[i]).agent_id != MAESTRO_AGENT_ID@,
    ensures
        all_registered(m, configs).agents.dom().contains(MAESTRO_AGENT_ID@),
        all_registered(m, configs).agents[MAESTRO_AGENT_ID@] == m.agents[MAESTRO_AGENT_ID@],
    decreases configs.len(),
{
    if configs.len() > 0 {
        lemma_others_keep(m, configs.drop_last());
        assert(configs[configs.len() - 1] == configs.last());
    }
}

/// In team mode the root is the maestro and, with tools, is pushed to use them; back in solo mode
/// it has its own persona again and is not pushed.
pub proof fn law_mode_shapes_root(t: TeamView, m: AgentMode, agents_root: Seq<char>)
    requires
        t.mode != m,
    ensures
        ({
            let after = in_mode(t, m, agents_root);
            let root = after.manager.agents[MAESTRO_AGENT_ID@];
            &&& after.mode == m
            &&& after.manager.mode == mode_label(m)
            &&& after.manager.agents.dom().contains(MAESTRO_AGENT_ID@)
            &&& root.history.len() == 0
            &&& root.config.role == AgentRole::Root
            &&& root.config.prompt == mode_prompt(m, t.persona, agents_root)
            &&& root.config.force_tools == (t.tools_enabled && m == AgentMode::Agents)
        }),
{
}

/// An agent is told of every tool that it may use, as the tool is described, and of no other.
pub proof fn law_allowed_tool_is_told(
    items: Seq<JsonView>,
    allowed: Seq<Seq<char>>,
    tool: JsonView,
    f: JsonView,
    name: Seq<char>,
)
    requires
        tool.field("function"@) == Some(f),
        f.field("name"@) == Some(JsonView::Text(name)),
    ensures
        allowed.contains(name) ==> allowed_only(items.push(tool), allowed) == allowed_only(
            items,
            allowed,
        ).push(tool),
        !allowed.contains(name) ==> allowed_only(items.push(tool), allowed) == allowed_only(
            items,
            allowed,
        ),
        allowed_only(Seq::empty(), allowed).len() == 0,
{
    assert(items.push(tool).drop_last() =~= items);
}

proof fn lemma_root_tool_names()
    ensures
        "list_agents"@ != "read_agent"@,
        "list_agents"@ != "create_agent"@,
        "list_agents"@ != "ask_agent"@,
        "read_agent"@ != "create_agent"@,
        "read_agent"@ != "ask_agent"@,
        "create_agent"@ != "ask_agent"@,
{
    reveal_strlit("list_agents");
    reveal_strlit("read_agent");
    reveal_strlit("create_agent");
    reveal_strlit("ask_agent");
    assert("list_agents"@.len() == 11);
    assert("read_agent"@.len() == 10);
    assert("create_agent"@.len() == 12);
    assert("ask_agent"@.len() == 9);
}

/// A question to an agent goes to the agent of the argument `name` with the argument `prompt`,
/// whether the arguments stand in an envelope or not; a question without either is refused.
pub proof fn law_question_goes_to_agent(
    args: JsonView,
    inner: JsonView,
    name: Seq<char>,
    prompt: Seq<char>,
)
    ensures
        args.field("name"@) == Some(JsonView::Text(name)) && args.field("prompt"@) == Some(
            JsonView::Text(prompt),
        ) ==> dispatched("ask_agent"@, args) == Ok::<MaestroView, Seq<char>>(
            MaestroView::AskAgent { name, prompt },
        ),
        args.field("name"@) is None && args.field("prompt"@) is None && args.field("arguments"@)
            == Some(inner) && inner.field("name"@) == Some(JsonView::Text(name)) && inner.field(
            "prompt"@,
        ) == Some(JsonView::Text(prompt)) ==> dispatched("ask_agent"@, args) == Ok::<
            MaestroView,
            Seq<char>,
        >(MaestroView::AskAgent { name, prompt }),
        args == JsonView::Object(Map::empty()) ==> dispatched("ask_agent"@, args) == Err::<
            MaestroView,
            Seq<char>,
        >("missing 'name'"@),
        args.field("name"@) == Some(JsonView::Text(name)) ==> dispatched("read_agent"@, args)
            == Ok::<MaestroView, Seq<char>>(MaestroView::ReadAgent { name }),
        dispatched("list_agents"@, args) == Ok::<MaestroView, Seq<char>>(MaestroView::ListAgents),
{
    lemma_root_tool_names();
    reveal_strlit("name");
    reveal_strlit("prompt");
    assert("name"@.len() != "prompt"@.len());
}

/// A new agent is what it was asked to be: its name, its description and its persona are the
/// arguments of these names, its rounds are those that were given, at least one and four without
/// any, and its tools are those that were given. Without a persona it gets one that names it and
/// what it is for.
pub proof fn law_agent_is_made_as_asked(
    args: JsonView,
    name: Seq<char>,
    description: Seq<char>,
    persona: Seq<char>,
    rounds: i64,
    tools: Seq<JsonView>,
)
    requires
        args.field("name"@) == Some(JsonView::Text(name)),
        args.field("description"@) == Some(JsonView::Text(description)),
        args.field("arguments"@) is None,
        args.field("args"@) is None,
        args.field("parameters"@) is None,
    ensures
        dispatched("create_agent"@, args) matches Ok(
            MaestroView::CreateAgent {
                name: n,
                description: d,
                persona: p,
                temp,
                max_tool_rounds,
                allowed_tools,
            },
        ) && {
            &&& n == name
            &&& d == description
            &&& args.field("persona"@) == Some(JsonView::Text(persona)) && persona.len() > 0 ==> p
                == persona
            &&& args.field("persona"@) is None && description.len() > 0 ==> p
                == "Voce e o agente "@ + name + ", especialista em "@ + description
                + ". Responda de forma concisa e objetiva, em portugues."@
            &&& args.field("max_tool_rounds"@) is None ==> max_tool_rounds == 4
            &&& args.field("max_tool_rounds"@) == Some(JsonView::Int(rounds as int)) && rounds >= 1
                ==> max_tool_rounds == rounds
            &&& args.field("max_tool_rounds"@) == Some(JsonView::Int(rounds as int)) && rounds < 1
                ==> max_tool_rounds == 1
            &&& forall|x: JsonView|
                args.field("temp"@) == Some(x) && !(x is Null) ==> temp == Some(x)
            &&& args.field("temp"@) is None ==> temp is None
            &&& args.field("allowed_tools"@) is None ==> allowed_tools == seq![
                "read_file"@,
                "write_file"@,
                "patch_file"@,
                "run_command"@,
            ]
            &&& args.field("allowed_tools"@) == Some(JsonView::Array(tools)) && (forall|i: int|
                0 <= i < tools.len() ==> (#[trigger] tools[i]) is Text) ==> allowed_tools.len()
                == tools.len() && forall|i: int|
                0 <= i < tools.len() ==> #[trigger] tools[i] == JsonView::Text(allowed_tools[i])
        },
{
    lemma_root_tool_names();
    reveal_strlit("name");
    reveal_strlit("description");
    reveal_strlit("persona");
    reveal_strlit("temp");
    reveal_strlit("max_tool_rounds");
    assert("name"@.len() == 4);
    assert("description"@.len() == 11);
    assert("persona"@.len() == 7);
    assert("temp"@.len() == 4);
    assert("name"@[0] != "temp"@[0]);
    assert("max_tool_rounds"@.len() == 15);
    if args.field("allowed_tools"@) == Some(JsonView::Array(tools)) && (forall|i: int|
        0 <= i < tools.len() ==> (#[trigger] tools[i]) is Text) {
        lemma_all_texts(tools);
    }
}

proof fn lemma_all_texts(v: Seq<JsonView>)
    requires
        forall|i: int| 0 <= i < v.len() ==> (#[trigger] v[i]) is Text,
    ensures
        texts_of(v).len() == v.len(),
        forall|i: int| 0 <= i < v.len() ==> #[trigger] v[i] == JsonView::Text(texts_of(v)[i]),
    decreases v.len(),
{
    if v.len() > 0 {
        let less = v.drop_last();
        assert forall|i: int| 0 <= i < less.len() implies (#[trigger] less[i]) is Text by {
            assert(less[i] == v[i]);
        }
        lemma_all_texts(less);
        assert(v[v.len() - 1] is Text);
        assert forall|i: int| 0 <= i < v.len() implies #[trigger] v[i] == JsonView::Text(
            texts_of(v)[i],
        ) by {
            if i < less.len() {
                assert(less[i] == v[i]);
            }
        }
    }
}

/// What an agent did and how it sums that up come back under its name, the work first; a failure
/// comes back as one, with its reason.
pub proof fn law_agent_answer_is_handed_back(
    name: Seq<char>,
    work: Seq<char>,
    summary: Seq<char>,
    e: Seq<char>,
)
    ensures
        asked_report(name, Ok((work, summary))) == Ok::<Seq<char>, Seq<char>>(
            "["@ + name + "]\nTRABALHO\n"@ + work + "\nFIN_TRABALHO\nRESUMO\n"@ + summary,
        ),
        asked_report(name, Err(e)) == Err::<Seq<char>, Seq<char>>("ask_agent falhou: "@ + e),
{
}

/// An agent works under its own name and persona with the tools that it was given, and is never
/// forced to use them.
pub proof fn law_agent_keeps_definition(
    name: Seq<char>,
    persona: Seq<char>,
    tools_json: Option<Seq<char>>,
)
    ensures
        ({
            let c = subagent_config(name, persona, tools_json);
            &&& c.agent_id == name
            &&& c.prompt == persona
            &&& c.tools_json == tools_json
            &&& c.role == AgentRole::Agent
            &&& !c.force_tools
        }),
{
}

/// The table of the agents has the lines of each, in order: they begin with its name and end with
/// its tools.
pub proof fn law_agent_has_rows(agents: Seq<SubagentConfig>, c: SubagentConfig)
    ensures
        all_rows(agents.push(c)) == all_rows(agents) + agent_rows(c),
        all_rows(Seq::empty()).len() == 0,
        text::has_prefix(agent_rows(c), c.name@),
        c.allowed_tools@.len() > 0 ==> text::has_suffix(
            agent_rows(c),
            text::joined(text::views(c.allowed_tools@), ", "@) + "\n"@,
        ),
        c.allowed_tools@.len() == 0 ==> text::has_suffix(agent_rows(c), "(todas)"@ + "\n"@),
{
    assert(agents.push(c).drop_last() =~= agents);
    let rows = agent_rows(c);
    assert(rows.subrange(0, c.name@.len() as int) =~= c.name@);
    assert(text::views(c.allowed_tools@).len() == c.allowed_tools@.len());
    let end = tools_shown(text::views(c.allowed_tools@)) + "\n"@;
    assert(rows.subrange(rows.len() - end.len(), rows.len() as int) =~= end);
}

/// In team mode the root is told to lead the team and where the agents are kept; in solo mode it
/// has the user's persona. It has all tools exactly where tools are on. A change of mode leaves
/// every other agent as it was, and the mode that is on already changes nothing.
pub proof fn law_mode_gives_persona(t: TeamView, m: AgentMode, agents_root: Seq<char>)
    ensures
        t.mode == m ==> in_mode(t, m, agents_root) == t,
        t.mode != m ==> ({
            let after = in_mode(t, m, agents_root);
            let root = after.manager.agents["drill"@];
            &&& m == AgentMode::Solo ==> root.config.prompt == t.persona
                && !root.config.force_tools
            &&& m == AgentMode::Agents ==> root.config.prompt == MAESTRO_PERSONA@ + agents_root
                + "\n"@ && root.config.force_tools == t.tools_enabled
            &&& t.tools_enabled ==> root.config.tools_json == Some(tools::TOOLS_JSON@)
            &&& !t.tools_enabled ==> root.config.tools_json is None
            &&& root.config.agent_id == "drill"@
            &&& after.persona == t.persona
            &&& after.session_id == t.session_id
            &&& after.manager.session_id == t.session_id
            &&& forall|id: Seq<char>|
                #![trigger after.manager.agents.dom().contains(id)]
                id != "drill"@ ==> after.manager.agents.dom().contains(id)
                    == t.manager.agents.dom().contains(id) && (t.manager.agents.dom().contains(id)
                    ==> after.manager.agents[id] == t.manager.agents[id])
        }),
{
}

/// The context counts every message of the root with its reasoning, four bytes to a token.
pub proof fn law_context_counts_messages(h: Seq<ChatMessageView>, m: ChatMessageView)
    ensures
        history_bytes(Seq::empty()) == 0,
        m.reasoning_content is None ==> history_bytes(h.push(m)) == history_bytes(h)
            + tools::bytes(m.content).len(),
        forall|r: Seq<char>|
            m.reasoning_content == Some(r) ==> history_bytes(h.push(m)) == history_bytes(h)
                + tools::bytes(m.content).len() + #[trigger] tools::bytes(r).len(),
{
    assert(h.push(m).drop_last() =~= h);
}

/// The report of a new agent tells its name, where it is kept and what it may do.
pub proof fn law_new_agent_is_told(c: SubagentConfig, path: Seq<char>)
    ensures
        created_report(c, path) == "Subagente '"@ + c.name@ + "' criado e salvo em "@ + path
            + ".\ndescricao: "@ + c.description@ + "\ntemp: "@ + c.temp_shown@ + " | rounds: "@
            + text::decimal(c.max_tool_rounds as nat) + " | ferramentas: "@ + text::joined(
            text::views(c.allowed_tools@),
            ", "@,
        ),
{
}

} // verus!
