//! The assistant behind the screen: the team, the providers, and the worker
//! that carries out what the screen asks for.
//!
//! The provider that the user chooses is the one of the root alone; subagents
//! always work with the local runtime.

use crate::agents::{AgentTask, ConfigAgent, ManagerEvent, ManagerEventView, TurnResult};
use crate::agents::TurnResultView;
use crate::chat::{GenerationType, GenerationView};
use crate::cloud;
use crate::cloud::Vendor;
use crate::config;
use crate::config::{CloudKind, CloudProvider, CloudView, ConfigView, DrillConfig, LocalView};
use crate::json;
use crate::json::{Json, JsonView};
use crate::manager;
use crate::manager::ManagerView;
use crate::messages::{UiEvent, UiEventView, WorkerMsg, WorkerMsgView};
use crate::orchestrator;
use crate::orchestrator::{AgentMode, AgentOrchestrator, TeamView, MAESTRO_AGENT_ID};
use crate::provider;
use crate::provider::{EnvKeys, ProviderStore, Selected, SelectedView, StoreView};
use crate::text;
use crate::text::same;
use crate::tools;
use vstd::prelude::*;

verus! {

/// The turn of the root that a remote provider generates. The temperature is
/// the bit pattern of a 32-bit float.
#[derive(Debug, PartialEq)]
pub struct RemoteTurn {
    pub cloud: CloudProvider,
    pub vendor: Vendor,
    pub tools: Json,
    pub temp: u32,
    pub n_predict: usize,
    pub input: String,
}

/// The turn of the root: a task of the queue, or one of a remote provider.
#[derive(Debug, PartialEq)]
pub enum RootTurn {
    Local(AgentTask),
    Remote(RemoteTurn),
}

/// The model of the turn of the root.
#[verifier::ext_equal]
pub enum RootTurnView {
    Local { agent_id: Seq<char>, input: Seq<char> },
    Remote {
        cloud: CloudView,
        vendor: Vendor,
        tools: JsonView,
        temp: u32,
        n_predict: nat,
        input: Seq<char>,
    },
}

impl View for RootTurn {
    type V = RootTurnView;

    open spec fn view(&self) -> RootTurnView {
        match self {
            RootTurn::Local(t) => RootTurnView::Local { agent_id: t.agent_id@, input: t.input@ },
            RootTurn::Remote(t) => RootTurnView::Remote {
                cloud: t.cloud@,
                vendor: t.vendor,
                tools: t.tools@,
                temp: t.temp,
                n_predict: t.n_predict as nat,
                input: t.input@,
            },
        }
    }
}

/// The tools that a remote provider is offered.
pub open spec fn offered_tools(on: bool) -> JsonView {
    if on {
        match json::json_text(tools::TOOLS_JSON@) {
            Some(v) => v,
            None => JsonView::Null,
        }
    } else {
        JsonView::Null
    }
}

/// The assistant: its team and its providers.
pub struct Agent {
    pub orchestrator: AgentOrchestrator,
    pub provider: ProviderStore,
}

/// The model of the assistant.
#[verifier::ext_equal]
pub struct AgentView {
    pub team: TeamView,
    pub store: StoreView,
}

impl View for Agent {
    type V = AgentView;

    open spec fn view(&self) -> AgentView {
        AgentView { team: self.orchestrator@, store: self.provider@ }
    }
}

/// The turn of the root for an input, or why there is none.
pub open spec fn root_turn(a: AgentView, input: Seq<char>) -> Result<RootTurnView, Seq<char>> {
    match provider::active(a.store) {
        SelectedView::Local(_) => if a.team.manager.running {
            Ok(RootTurnView::Local { agent_id: MAESTRO_AGENT_ID@, input })
        } else {
            Err(manager::NOT_STARTED@)
        },
        SelectedView::Cloud(c) => Ok(
            RootTurnView::Remote {
                cloud: c,
                vendor: cloud::vendor_of(c.kind, text::lowercase(c.router)),
                tools: offered_tools(a.team.tools_enabled),
                temp: a.team.temp,
                n_predict: a.team.n_predict,
                input,
            },
        ),
    }
}

/// The model of a turn or an error.
pub open spec fn turn_view(r: Result<RootTurn, String>) -> Result<RootTurnView, Seq<char>> {
    match r {
        Ok(t) => Ok(t@),
        Err(e) => Err(e@),
    }
}

impl Agent {
    pub fn new(
        tools_enabled: bool,
        ctx_max: usize,
        persona: String,
        provider: ProviderStore,
        temp: u32,
        n_predict: usize,
        subagents: Vec<ConfigAgent>,
        local: bool,
    ) -> (r: Agent)
        ensures
            r@ == (AgentView {
                team: TeamView {
                    manager: orchestrator::first_registry(
                        persona@,
                        tools_enabled,
                        text::views(subagents@),
                        local,
                    ),
                    ctx_max: ctx_max as nat,
                    tools_enabled,
                    mode: AgentMode::Solo,
                    persona: persona@,
                    session_id: Seq::empty(),
                    temp,
                    n_predict: n_predict as nat,
                },
                store: provider@,
            }),
    {
        let orchestrator = AgentOrchestrator::new(
            tools_enabled,
            ctx_max,
            persona,
            temp,
            n_predict,
            subagents,
            local,
        );
        Agent { orchestrator, provider }
    }

    pub fn set_mode(&mut self, mode: AgentMode, agents_root: &str)
        ensures
            final(self)@ == (AgentView {
                team: orchestrator::in_mode(old(self)@.team, mode, agents_root@),
                ..old(self)@
            }),
    {
        self.orchestrator.set_mode(mode, agents_root);
    }

    pub fn set_session(&mut self, session_id: String)
        ensures
            final(self)@ == (AgentView {
                team: in_session(old(self)@.team, session_id@),
                ..old(self)@
            }),
    {
        self.orchestrator.set_session(session_id);
    }

    pub fn mode(&self) -> (r: AgentMode)
        ensures
            r == self@.team.mode,
    {
        self.orchestrator.mode()
    }

    pub fn ctx_max(&self) -> (r: usize)
        ensures
            r == self@.team.ctx_max,
    {
        self.orchestrator.ctx_max()
    }

    pub fn context_estimate(&self) -> (r: usize)
        ensures
            r == orchestrator::estimate(self@.team.manager),
    {
        self.orchestrator.context_estimate()
    }

    /// The turn of the root for an input: a task of the queue where the active
    /// provider is local, and one of the remote provider where it is not.
    pub fn run_turn(&self, user_input: &str) -> (r: Result<RootTurn, String>)
        ensures
            turn_view(r) == root_turn(self@, user_input@),
    {
        match self.provider.current() {
            Selected::Local(_) => match self.orchestrator.run_turn(user_input) {
                Ok(t) => Ok(RootTurn::Local(t)),
                Err(e) => Err(e),
            },
            Selected::Cloud(c) => {
                let tools = if self.orchestrator.tools_enabled() {
                    match json::parse(tools::TOOLS_JSON) {
                        Some(v) => v,
                        None => Json::Null,
                    }
                } else {
                    Json::Null
                };
                let vendor = cloud::build_generator(&c);
                Ok(
                    RootTurn::Remote(
                        RemoteTurn {
                            cloud: c,
                            vendor,
                            tools,
                            temp: self.orchestrator.temp(),
                            n_predict: self.orchestrator.n_predict(),
                            input: user_input.to_string(),
                        },
                    ),
                )
            },
        }
    }

    /// The line that shows the active provider.
    pub fn provider_summary(&self, keys: &EnvKeys) -> (r: String)
        ensures
            r@ == provider::summary_of(provider::active(self@.store), *keys),
    {
        self.provider.summary(keys)
    }

    /// The remote provider whose models are listed.
    pub fn remote_models(&self) -> (r: Result<CloudProvider, String>)
        ensures
            match r {
                Ok(c) => provider::active(self@.store) == SelectedView::Cloud(c@),
                Err(e) => provider::active(self@.store) is Local && e@ == ONLY_CLOUD@,
            },
    {
        match self.provider.selected_cloud() {
            Some(c) => Ok(c),
            None => Err(ONLY_CLOUD.to_string()),
        }
    }

    /// Lists the models of the active remote provider for the screen.
    pub fn list_models_remote(&self, models: &Vec<String>) -> (r: Result<String, String>)
        ensures
            match r {
                Ok(t) => match provider::active(self@.store) {
                    SelectedView::Cloud(c) => t@ == listing(c, text::views(models@)),
                    SelectedView::Local(_) => false,
                },
                Err(e) => provider::active(self@.store) is Local && e@
                    == "o overlay /models so vale com provider cloud"@,
            },
    {
        match self.provider.selected_cloud() {
            None => Err("o overlay /models so vale com provider cloud".to_string()),
            Some(c) => {
                let ghost all = text::views(models@);
                let mut lines: Vec<String> = Vec::new();
                let mut i: usize = 0;
                while i < models.len()
                    invariant
                        i <= models.len(),
                        all == text::views(models@),
                        lines.len() == i,
                        forall|k: int|
                            0 <= k < i ==> (#[trigger] lines@[k])@ == listed_model(
                                all[k],
                                c@.model,
                            ),
                    decreases models.len() - i,
                {
                    let m = models[i].as_str();
                    assert(all[i as int] == m@);
                    if same(m, c.model.as_str()) {
                        lines.push(text::cat3("  * ", m, " (atual)"));
                    } else {
                        lines.push(text::cat2("  ", m));
                    }
                    i = i + 1;
                }
                assert(text::views(lines@) =~= all.map_values(
                    |m: Seq<char>| listed_model(m, c@.model),
                ));
                let body = text::join(&lines, "\n");
                Ok(text::cat4("Modelos em ", c.base_url.as_str(), "\n\n", body.as_str()))
            },
        }
    }
}

/// The error where models are asked for and the active provider is local.
pub const ONLY_CLOUD: &'static str = "o overlay /models so vale com provider cloud (/provider)";

/// The line of a model in the list.
pub open spec fn listed_model(m: Seq<char>, current: Seq<char>) -> Seq<char> {
    if m == current {
        "  * "@ + m + " (atual)"@
    } else {
        "  "@ + m
    }
}

/// The list of the models of a provider.
pub open spec fn listing(c: CloudView, models: Seq<Seq<char>>) -> Seq<char> {
    "Modelos em "@ + c.base_url + "\n\n"@ + text::joined(
        models.map_values(|m: Seq<char>| listed_model(m, c.model)),
        "\n"@,
    )
}

/// A team in a session.
pub open spec fn in_session(t: TeamView, id: Seq<char>) -> TeamView {
    TeamView {
        session_id: id,
        manager: ManagerView {
            session_id: id,
            mode: orchestrator::mode_label(t.mode),
            ..t.manager
        },
        ..t
    }
}

/// With a remote provider a turn is always begun; with a local one only while
/// the runtime is there.
pub proof fn law_turn_needs_runtime_only_locally(a: AgentView, input: Seq<char>)
    ensures
        root_turn(a, input) is Err <==> provider::active(a.store) is Local
            && !a.team.manager.running,
{
}

/// A change of the configuration that is to be written.
#[derive(Debug, PartialEq)]
pub enum Change {
    Selection(String),
    Effort { id: String, model: String, effort: String },
    LocalModel { id: String, model: String, mmproj: String },
    NewCloud(CloudProvider),
}

/// The model of a change.
#[verifier::ext_equal]
pub enum ChangeView {
    Selection(Seq<char>),
    Effort { id: Seq<char>, model: Seq<char>, effort: Seq<char> },
    LocalModel { id: Seq<char>, model: Seq<char>, mmproj: Seq<char> },
    NewCloud(CloudView),
}

impl View for Change {
    type V = ChangeView;

    open spec fn view(&self) -> ChangeView {
        match self {
            Change::Selection(id) => ChangeView::Selection(id@),
            Change::Effort { id, model, effort } => ChangeView::Effort {
                id: id@,
                model: model@,
                effort: effort@,
            },
            Change::LocalModel { id, model, mmproj } => ChangeView::LocalModel {
                id: id@,
                model: model@,
                mmproj: mmproj@,
            },
            Change::NewCloud(c) => ChangeView::NewCloud(c@),
        }
    }
}

/// The configuration after a change.
pub open spec fn changed(c: ConfigView, change: ChangeView) -> ConfigView {
    match change {
        ChangeView::Selection(id) => ConfigView { selected: Some(id), ..c },
        ChangeView::Effort { id, model, effort } => ConfigView {
            cloud: provider::with_effort(c.cloud, id, model, effort),
            ..c
        },
        ChangeView::LocalModel { id, model, mmproj } => provider::with_local_model(
            c,
            id,
            model,
            mmproj,
        ),
        ChangeView::NewCloud(p) => ConfigView {
            cloud: c.cloud.push(p),
            selected: Some(p.id),
            ..c
        },
    }
}

/// Makes a change of the configuration.
pub fn apply_change(cfg: &mut DrillConfig, change: &Change)
    ensures
        final(cfg)@ == changed(old(cfg)@, change@),
{
    match change {
        Change::Selection(id) => provider::persist_selected(cfg, id.as_str()),
        Change::Effort { id, model, effort } => provider::persist_effort(
            cfg,
            id.as_str(),
            model.as_str(),
            effort.as_str(),
        ),
        Change::LocalModel { id, model, mmproj } => provider::persist_local_model(
            cfg,
            id.as_str(),
            model.as_str(),
            mmproj.as_str(),
        ),
        Change::NewCloud(c) => provider::persist_cloud(cfg, c.copy()),
    }
}

/// What the worker needs done before it can go on.
#[derive(Debug, PartialEq)]
pub enum WorkerTask {
    /// Nothing: it waits for the next message.
    Wait,
    /// Write a change of the configuration.
    Save(Change),
    /// Ask a provider for its models.
    FetchModels(CloudProvider),
    /// Build the local runtime for a model, with or without tools.
    BuildEngine { model: String, mmproj: String, tools: bool },
    /// Run a turn of the root.
    Run(RootTurn),
}

/// The model of what the worker needs done.
#[verifier::ext_equal]
pub enum TaskView {
    Wait,
    Save(ChangeView),
    FetchModels(CloudView),
    BuildEngine { model: Seq<char>, mmproj: Seq<char>, tools: bool },
    Run(RootTurnView),
}

impl View for WorkerTask {
    type V = TaskView;

    open spec fn view(&self) -> TaskView {
        match self {
            WorkerTask::Wait => TaskView::Wait,
            WorkerTask::Save(c) => TaskView::Save(c@),
            WorkerTask::FetchModels(c) => TaskView::FetchModels(c@),
            WorkerTask::BuildEngine { model, mmproj, tools } => TaskView::BuildEngine {
                model: model@,
                mmproj: mmproj@,
                tools: *tools,
            },
            WorkerTask::Run(t) => TaskView::Run(t@),
        }
    }
}

/// How what the worker needed done turned out.
#[derive(Debug, PartialEq)]
pub enum WorkerReply {
    Saved(Result<(), String>),
    Models(Result<Vec<String>, String>),
    /// Whether the model of the runtime that was built can think.
    Engine(Result<bool, String>),
    /// The result of a turn, the text that shows its rate, and remarks on
    /// images.
    Turn { result: Result<TurnResult, String>, rate: String, notices: Vec<String> },
}

/// The model of how it turned out.
#[verifier::ext_equal]
pub enum ReplyView {
    Saved(Result<(), Seq<char>>),
    Models(Result<Seq<Seq<char>>, Seq<char>>),
    Engine(Result<bool, Seq<char>>),
    Turn {
        result: Result<TurnResultView, Seq<char>>,
        rate: Seq<char>,
        notices: Seq<Seq<char>>,
    },
}

impl View for WorkerReply {
    type V = ReplyView;

    open spec fn view(&self) -> ReplyView {
        match self {
            WorkerReply::Saved(r) => ReplyView::Saved(
                match r {
                    Ok(_) => Ok(()),
                    Err(e) => Err(e@),
                },
            ),
            WorkerReply::Models(r) => ReplyView::Models(
                match r {
                    Ok(v) => Ok(text::views(v@)),
                    Err(e) => Err(e@),
                },
            ),
            WorkerReply::Engine(r) => ReplyView::Engine(
                match r {
                    Ok(b) => Ok(*b),
                    Err(e) => Err(e@),
                },
            ),
            WorkerReply::Turn { result, rate, notices } => ReplyView::Turn {
                result: match result {
                    Ok(t) => Ok(t@),
                    Err(e) => Err(e@),
                },
                rate: rate@,
                notices: text::views(notices@),
            },
        }
    }
}

/// What the worker is in the middle of.
#[derive(Debug, PartialEq)]
pub enum Stage {
    Idle,
    /// The selection is being written.
    Selecting,
    /// The models of a provider without one are being asked for; its effort.
    Adopting(String),
    /// The adopted model is being written; the models to show.
    Adopted { picked: String, models: Vec<String> },
    Listing,
    Setting,
    Adding,
    Building { model: String, mmproj: String },
    Installing { model: String, thinking: bool },
    Turning,
}

/// The model of what the worker is in the middle of.
#[verifier::ext_equal]
pub enum StageView {
    Idle,
    Selecting,
    Adopting(Seq<char>),
    Adopted { picked: Seq<char>, models: Seq<Seq<char>> },
    Listing,
    Setting,
    Adding,
    Building { model: Seq<char>, mmproj: Seq<char> },
    Installing { model: Seq<char>, thinking: bool },
    Turning,
}

impl View for Stage {
    type V = StageView;

    open spec fn view(&self) -> StageView {
        match self {
            Stage::Idle => StageView::Idle,
            Stage::Selecting => StageView::Selecting,
            Stage::Adopting(e) => StageView::Adopting(e@),
            Stage::Adopted { picked, models } => StageView::Adopted {
                picked: picked@,
                models: text::views(models@),
            },
            Stage::Listing => StageView::Listing,
            Stage::Setting => StageView::Setting,
            Stage::Adding => StageView::Adding,
            Stage::Building { model, mmproj } => StageView::Building {
                model: model@,
                mmproj: mmproj@,
            },
            Stage::Installing { model, thinking } => StageView::Installing {
                model: model@,
                thinking: *thinking,
            },
            Stage::Turning => StageView::Turning,
        }
    }
}

/// The worker behind the screen.
pub struct Worker {
    pub agent: Agent,
    pub stage: Stage,
}

/// The model of the worker.
#[verifier::ext_equal]
pub struct WorkerView {
    pub agent: AgentView,
    pub stage: StageView,
}

impl View for Worker {
    type V = WorkerView;

    open spec fn view(&self) -> WorkerView {
        WorkerView { agent: self.agent@, stage: self.stage@ }
    }
}

/// What a step of the worker leads to: its state, what it tells the screen,
/// and what it needs done.
#[verifier::ext_equal]
pub struct StepView {
    pub worker: WorkerView,
    pub events: Seq<UiEventView>,
    pub task: TaskView,
}

/// What the screen is shown of the providers.
pub open spec fn providers_event(a: AgentView, keys: EnvKeys) -> UiEventView {
    UiEventView::Providers {
        entries: provider::entries_of(a.store, keys),
        selected: a.store.selected,
    }
}

/// The line that shows the active provider.
pub open spec fn summary_of(a: AgentView, keys: EnvKeys) -> Seq<char> {
    provider::summary_of(provider::active(a.store), keys)
}

/// A step that ends what the worker was in the middle of.
pub open spec fn ended(a: AgentView, events: Seq<UiEventView>) -> StepView {
    StepView {
        worker: WorkerView { agent: a, stage: StageView::Idle },
        events,
        task: TaskView::Wait,
    }
}

/// A step that goes on with a task.
pub open spec fn goes_on(a: AgentView, stage: StageView, task: TaskView) -> StepView {
    StepView { worker: WorkerView { agent: a, stage }, events: Seq::empty(), task }
}

/// A step that ends with an error, and shows the providers as they are.
pub open spec fn provider_failed(a: AgentView, e: Seq<char>, keys: EnvKeys) -> StepView {
    ended(a, seq![UiEventView::Failure(e), providers_event(a, keys)])
}

/// A step that ends with a remark, and shows the providers as they are.
pub open spec fn provider_shown(a: AgentView, note: Seq<char>, keys: EnvKeys) -> StepView {
    ended(a, seq![UiEventView::Muted(note), providers_event(a, keys)])
}

/// The assistant with other providers.
pub open spec fn with_store(a: AgentView, store: StoreView) -> AgentView {
    AgentView { store, ..a }
}

/// The assistant after the model and the effort of the active remote provider
/// were set, and the id of that provider.
pub open spec fn effort_set(a: AgentView, model: Seq<char>, effort: Seq<char>) -> Result<
    (Seq<char>, AgentView),
    Seq<char>,
> {
    match a.store.selected {
        None => Err("nenhum provider selecionado"@),
        Some(id) => if provider::cloud_from(a.store.cloud, id, 0) is None {
            Err("provider ativo nao e remoto (modelo so vale para cloud)"@)
        } else {
            Ok(
                (
                    id,
                    with_store(
                        a,
                        StoreView {
                            cloud: provider::with_effort(a.store.cloud, id, model, effort),
                            ..a.store
                        },
                    ),
                ),
            )
        },
    }
}

/// The first step of choosing a provider.
pub open spec fn choose_step(a: AgentView, uuid: Seq<char>, keys: EnvKeys) -> StepView {
    if provider::resolved(a.store, Some(uuid)) is None {
        provider_failed(a, provider::unknown_provider(uuid), keys)
    } else {
        goes_on(
            with_store(a, StoreView { selected: Some(uuid), ..a.store }),
            StageView::Selecting,
            TaskView::Save(ChangeView::Selection(uuid)),
        )
    }
}

/// The first step of setting a model and an effort.
pub open spec fn effort_step(
    a: AgentView,
    model: Seq<char>,
    effort: Seq<char>,
    stage: StageView,
    keys: EnvKeys,
) -> StepView {
    match effort_set(a, model, effort) {
        Err(e) => provider_failed(a, e, keys),
        Ok((id, next)) => goes_on(
            next,
            stage,
            TaskView::Save(ChangeView::Effort { id, model, effort }),
        ),
    }
}

/// The first step of what the screen asks for. `fresh` is the id of a provider
/// that is added.
pub open spec fn begun(
    w: WorkerView,
    msg: WorkerMsgView,
    keys: EnvKeys,
    agents_root: Seq<char>,
    fresh: Seq<char>,
) -> StepView {
    let a = w.agent;
    match msg {
        WorkerMsgView::SetMode(m) => ended(
            AgentView { team: orchestrator::in_mode(a.team, m, agents_root), ..a },
            seq![UiEventView::ModeChanged(m)],
        ),
        WorkerMsgView::SetSession(id) => ended(
            AgentView { team: in_session(a.team, id), ..a },
            Seq::empty(),
        ),
        WorkerMsgView::SetProvider(uuid) => choose_step(a, uuid, keys),
        WorkerMsgView::ListModels => match provider::active(a.store) {
            SelectedView::Cloud(c) => goes_on(a, StageView::Listing, TaskView::FetchModels(c)),
            SelectedView::Local(_) => ended(a, seq![UiEventView::Failure(ONLY_CLOUD@)]),
        },
        WorkerMsgView::SetModelAndEffort(model, effort) => effort_step(
            a,
            model,
            effort,
            StageView::Setting,
            keys,
        ),
        WorkerMsgView::AddCloudProvider { kind, base_url, model, api_key } => {
            let p = provider::added_cloud(
                a.store.cloud.len(),
                fresh,
                kind,
                base_url,
                model,
                api_key,
            );
            goes_on(
                with_store(
                    a,
                    StoreView {
                        cloud: a.store.cloud.push(p),
                        selected: Some(fresh),
                        ..a.store
                    },
                ),
                StageView::Adding,
                TaskView::Save(ChangeView::NewCloud(p)),
            )
        },
        WorkerMsgView::SetLocalModel { model, mmproj } => goes_on(
            a,
            StageView::Building { model, mmproj },
            TaskView::BuildEngine { model, mmproj, tools: a.team.tools_enabled },
        ),
        WorkerMsgView::Turn(input) => match root_turn(a, input) {
            Ok(t) => goes_on(a, StageView::Turning, TaskView::Run(t)),
            Err(e) => ended(a, seq![UiEventView::Failure(e), UiEventView::Done]),
        },
    }
}

/// The step after the selection was written.
pub open spec fn selected_step(a: AgentView, keys: EnvKeys) -> StepView {
    match provider::active(a.store) {
        SelectedView::Cloud(c) => if config::blank(c.model) {
            goes_on(a, StageView::Adopting(c.reasoning_effort), TaskView::FetchModels(c))
        } else {
            provider_shown(a, "[provider] "@ + summary_of(a, keys), keys)
        },
        SelectedView::Local(_) => provider_shown(a, "[provider] "@ + summary_of(a, keys), keys),
    }
}

/// The step after the models of a provider without one were listed: the first
/// that is made for chat is adopted.
pub open spec fn adopt_step(
    a: AgentView,
    effort: Seq<char>,
    models: Seq<Seq<char>>,
    keys: EnvKeys,
) -> StepView {
    match provider::chat_model_from(models, 0) {
        None => provider_failed(a, "endpoint nao listou modelos de chat"@, keys),
        Some(picked) => effort_step(
            a,
            picked,
            effort,
            StageView::Adopted { picked, models },
            keys,
        ),
    }
}

/// The words for an adopted model.
pub open spec fn adopted_note(
    a: AgentView,
    picked: Seq<char>,
    models: Seq<Seq<char>>,
    keys: EnvKeys,
) -> Seq<char> {
    "[provider] "@ + (summary_of(a, keys) + " (modelo '"@ + picked + "' adotado de /models)\n"@
        + text::joined(models, "\n"@))
}

/// The model and the effort of the active remote provider, for the overlay.
pub open spec fn listed_event(a: AgentView, models: Seq<Seq<char>>) -> UiEventView {
    match provider::active(a.store) {
        SelectedView::Cloud(c) => UiEventView::Models {
            models,
            current: c.model,
            effort: c.reasoning_effort,
        },
        SelectedView::Local(_) => UiEventView::Models {
            models,
            current: Seq::empty(),
            effort: Seq::empty(),
        },
    }
}

/// The step after a runtime was built: it starts to work, and the model is
/// written.
pub open spec fn built_step(
    a: AgentView,
    model: Seq<char>,
    mmproj: Seq<char>,
    thinking: bool,
) -> StepView {
    let running = AgentView {
        team: TeamView {
            manager: ManagerView { running: true, ..a.team.manager },
            ..a.team
        },
        ..a
    };
    if a.store.local.len() == 0 {
        ended(
            running,
            seq![
                UiEventView::Failure(
                    "[modelo] "@ + "nenhum provider local configurado (/provider)"@,
                ),
            ],
        )
    } else {
        let i = provider::local_target(a.store);
        goes_on(
            with_store(
                running,
                StoreView {
                    local: a.store.local.update(
                        i,
                        LocalView { model, mmproj, ..a.store.local[i] },
                    ),
                    ..a.store
                },
            ),
            StageView::Installing { model, thinking },
            TaskView::Save(
                ChangeView::LocalModel { id: a.store.local[i].id, model, mmproj },
            ),
        )
    }
}

/// The remarks on images.
pub open spec fn image_notes(notices: Seq<Seq<char>>) -> Seq<UiEventView> {
    notices.map_values(|n: Seq<char>| UiEventView::Muted("[imagem] "@ + n))
}

/// The context that a turn took: what the runtime counted, or else the
/// estimate.
pub open spec fn context_used(a: AgentView, counted: Option<i64>) -> nat {
    match counted {
        Some(n) => if n > 0 {
            (n as usize) as nat
        } else {
            orchestrator::estimate(a.team.manager)
        },
        None => orchestrator::estimate(a.team.manager),
    }
}

/// What the screen is told of a turn that succeeded.
pub open spec fn turn_events(
    a: AgentView,
    t: TurnResultView,
    rate: Seq<char>,
    notices: Seq<Seq<char>>,
) -> Seq<UiEventView> {
    let figures = if t.stats.tokens is Some && t.stats.tps is Some {
        seq![
            UiEventView::Stats {
                tokens: t.stats.tokens->0,
                tps: t.stats.tps->0,
                shown: rate,
            },
        ]
    } else {
        Seq::empty()
    };
    image_notes(notices) + figures + seq![
        UiEventView::ContextUsage {
            used: context_used(a, t.stats.context_tokens),
            max: a.team.ctx_max,
        },
        UiEventView::Done,
    ]
}

/// The words for a local model that was set.
pub open spec fn installed_note(model: Seq<char>, thinking: bool) -> Seq<char> {
    "[modelo] local configurado: "@ + model + " (raciocinio "@ + (if thinking {
        "on"@
    } else {
        "off"@
    }) + ")"@
}

/// The step after a change was written, or not.
pub open spec fn saved_step(
    w: WorkerView,
    r: Result<(), Seq<char>>,
    keys: EnvKeys,
) -> StepView {
    let a = w.agent;
    match w.stage {
        StageView::Selecting => match r {
            Err(e) => provider_failed(a, e, keys),
            Ok(_) => selected_step(a, keys),
        },
        StageView::Adopted { picked, models } => match r {
            Err(e) => provider_failed(a, e, keys),
            Ok(_) => provider_shown(a, adopted_note(a, picked, models, keys), keys),
        },
        StageView::Setting => match r {
            Err(e) => provider_failed(a, e, keys),
            Ok(_) => provider_shown(a, "[provider] "@ + summary_of(a, keys), keys),
        },
        StageView::Adding => match r {
            Err(e) => provider_failed(a, e, keys),
            Ok(_) => provider_shown(
                a,
                "[provider] adicionado: "@ + summary_of(a, keys),
                keys,
            ),
        },
        StageView::Installing { model, thinking } => match r {
            Err(e) => ended(a, seq![UiEventView::Failure("[modelo] "@ + e)]),
            Ok(_) => ended(
                a,
                seq![
                    UiEventView::Muted(installed_note(model, thinking)),
                    UiEventView::ModelReady { model, thinking },
                    providers_event(a, keys),
                ],
            ),
        },
        _ => ended(a, Seq::empty()),
    }
}

/// The step after models were listed, or not.
pub open spec fn models_step(
    w: WorkerView,
    r: Result<Seq<Seq<char>>, Seq<char>>,
    keys: EnvKeys,
) -> StepView {
    let a = w.agent;
    match w.stage {
        StageView::Adopting(effort) => match r {
            Err(e) => provider_failed(a, e, keys),
            Ok(models) => adopt_step(a, effort, models, keys),
        },
        StageView::Listing => match r {
            Err(e) => ended(a, seq![UiEventView::Failure(e)]),
            Ok(models) => ended(a, seq![listed_event(a, models)]),
        },
        _ => ended(a, Seq::empty()),
    }
}

/// The step after a runtime was built, or not.
pub open spec fn engine_step(w: WorkerView, r: Result<bool, Seq<char>>) -> StepView {
    let a = w.agent;
    match w.stage {
        StageView::Building { model, mmproj } => match r {
            Err(e) => ended(a, seq![UiEventView::Failure("[modelo] "@ + e)]),
            Ok(thinking) => built_step(a, model, mmproj, thinking),
        },
        _ => ended(a, Seq::empty()),
    }
}

/// The step after what the worker needed done turned out in some way. A reply
/// that the worker does not wait for ends what it was in the middle of.
pub open spec fn resumed(w: WorkerView, reply: ReplyView, keys: EnvKeys) -> StepView {
    match reply {
        ReplyView::Saved(r) => saved_step(w, r, keys),
        ReplyView::Models(r) => models_step(w, r, keys),
        ReplyView::Engine(r) => engine_step(w, r),
        ReplyView::Turn { result, rate, notices } => if w.stage is Turning {
            match result {
                Ok(t) => ended(w.agent, turn_events(w.agent, t, rate, notices)),
                Err(e) => ended(w.agent, seq![UiEventView::Failure(e), UiEventView::Done]),
            }
        } else {
            ended(w.agent, Seq::empty())
        },
    }
}

fn one_event(e: UiEvent) -> (r: Vec<UiEvent>)
    ensures
        text::views(r@) == seq![e@],
{
    let mut v: Vec<UiEvent> = Vec::new();
    v.push(e);
    assert(text::views(v@) =~= seq![e@]);
    v
}

fn two_events(a: UiEvent, b: UiEvent) -> (r: Vec<UiEvent>)
    ensures
        text::views(r@) == seq![a@, b@],
{
    let mut v: Vec<UiEvent> = Vec::new();
    v.push(a);
    v.push(b);
    assert(text::views(v@) =~= seq![a@, b@]);
    v
}

fn no_events() -> (r: Vec<UiEvent>)
    ensures
        text::views(r@) == Seq::<UiEventView>::empty(),
{
    let v: Vec<UiEvent> = Vec::new();
    assert(text::views(v@) =~= Seq::<UiEventView>::empty());
    v
}

impl Worker {
    pub fn new(agent: Agent) -> (r: Worker)
        ensures
            r@ == (WorkerView { agent: agent@, stage: StageView::Idle }),
    {
        Worker { agent, stage: Stage::Idle }
    }

    /// What a step led to.
    pub open spec fn step(self, r: (Vec<UiEvent>, WorkerTask)) -> StepView {
        StepView { worker: self@, events: text::views((r.0)@), task: (r.1)@ }
    }

    fn shown_providers(&self, keys: &EnvKeys) -> (r: UiEvent)
        ensures
            r@ == providers_event(self@.agent, *keys),
    {
        let (entries, selected) = self.agent.provider.snapshot(keys);
        UiEvent::Providers { entries, selected }
    }

    fn fail(&mut self, e: String, keys: &EnvKeys) -> (r: (Vec<UiEvent>, WorkerTask))
        ensures
            final(self).step(r) == provider_failed(old(self)@.agent, e@, *keys),
    {
        self.stage = Stage::Idle;
        let providers = self.shown_providers(keys);
        (two_events(UiEvent::Failure(e), providers), WorkerTask::Wait)
    }

    fn remark(&mut self, note: String, keys: &EnvKeys) -> (r: (Vec<UiEvent>, WorkerTask))
        ensures
            final(self).step(r) == provider_shown(old(self)@.agent, note@, *keys),
    {
        self.stage = Stage::Idle;
        let providers = self.shown_providers(keys);
        (two_events(UiEvent::Muted(note), providers), WorkerTask::Wait)
    }

    fn finish(&mut self, events: Vec<UiEvent>) -> (r: (Vec<UiEvent>, WorkerTask))
        ensures
            final(self).step(r) == ended(old(self)@.agent, text::views(events@)),
    {
        self.stage = Stage::Idle;
        (events, WorkerTask::Wait)
    }

    fn advance(&mut self, stage: Stage, task: WorkerTask) -> (r: (Vec<UiEvent>, WorkerTask))
        ensures
            final(self).step(r) == goes_on(old(self)@.agent, stage@, task@),
    {
        self.stage = stage;
        (no_events(), task)
    }

    fn pick_provider(&mut self, uuid: String, keys: &EnvKeys) -> (r: (Vec<UiEvent>, WorkerTask))
        ensures
            final(self).step(r) == choose_step(old(self)@.agent, uuid@, *keys),
    {
        match self.agent.provider.select(uuid.as_str()) {
            Ok(_) => self.advance(Stage::Selecting, WorkerTask::Save(Change::Selection(uuid))),
            Err(e) => self.fail(e, keys),
        }
    }

    fn set_effort(&mut self, model: String, effort: String, stage: Stage, keys: &EnvKeys) -> (r: (
        Vec<UiEvent>,
        WorkerTask,
    ))
        ensures
            final(self).step(r) == effort_step(
                old(self)@.agent,
                model@,
                effort@,
                stage@,
                *keys,
            ),
    {
        match self.agent.provider.set_model_and_effort(model.as_str(), effort.as_str()) {
            Ok(id) => self.advance(stage, WorkerTask::Save(Change::Effort { id, model, effort })),
            Err(e) => self.fail(e, keys),
        }
    }

    fn list(&mut self) -> (r: (Vec<UiEvent>, WorkerTask))
        ensures
            final(self).step(r) == match provider::active(old(self)@.agent.store) {
                SelectedView::Cloud(c) => goes_on(
                    old(self)@.agent,
                    StageView::Listing,
                    TaskView::FetchModels(c),
                ),
                SelectedView::Local(_) => ended(
                    old(self)@.agent,
                    seq![UiEventView::Failure(ONLY_CLOUD@)],
                ),
            },
    {
        match self.agent.remote_models() {
            Ok(c) => self.advance(Stage::Listing, WorkerTask::FetchModels(c)),
            Err(e) => self.finish(one_event(UiEvent::Failure(e))),
        }
    }

    fn turn(&mut self, input: &str) -> (r: (Vec<UiEvent>, WorkerTask))
        ensures
            final(self).step(r) == match root_turn(old(self)@.agent, input@) {
                Ok(t) => goes_on(old(self)@.agent, StageView::Turning, TaskView::Run(t)),
                Err(e) => ended(
                    old(self)@.agent,
                    seq![UiEventView::Failure(e), UiEventView::Done],
                ),
            },
    {
        match self.agent.run_turn(input) {
            Ok(t) => self.advance(Stage::Turning, WorkerTask::Run(t)),
            Err(e) => self.finish(two_events(UiEvent::Failure(e), UiEvent::Done)),
        }
    }

    /// Begins what the screen asks for: what the screen is told, and what the
    /// worker needs done.
    pub fn on_message(&mut self, msg: WorkerMsg, keys: &EnvKeys, agents_root: &str, fresh: &str) -> (r: (
        Vec<UiEvent>,
        WorkerTask,
    ))
        requires
            old(self)@.agent.store.cloud.len() < usize::MAX,
        ensures
            final(self).step(r) == begun(old(self)@, msg@, *keys, agents_root@, fresh@),
    {
        match msg {
            WorkerMsg::SetMode(m) => {
                self.agent.set_mode(m, agents_root);
                self.finish(one_event(UiEvent::ModeChanged(m)))
            },
            WorkerMsg::SetSession(id) => {
                self.agent.set_session(id);
                self.finish(no_events())
            },
            WorkerMsg::SetProvider(uuid) => self.pick_provider(uuid, keys),
            WorkerMsg::ListModels => self.list(),
            WorkerMsg::SetModelAndEffort(model, effort) => self.set_effort(
                model,
                effort,
                Stage::Setting,
                keys,
            ),
            WorkerMsg::AddCloudProvider { kind, base_url, model, api_key } => {
                let p = self.agent.provider.add_cloud(
                    fresh,
                    kind,
                    base_url.as_str(),
                    model.as_str(),
                    api_key.as_str(),
                );
                self.advance(Stage::Adding, WorkerTask::Save(Change::NewCloud(p)))
            },
            WorkerMsg::SetLocalModel { model, mmproj } => {
                let tools = self.agent.orchestrator.tools_enabled();
                let stage = Stage::Building {
                    model: model.as_str().to_string(),
                    mmproj: mmproj.as_str().to_string(),
                };
                self.advance(stage, WorkerTask::BuildEngine { model, mmproj, tools })
            },
            WorkerMsg::Turn(input) => self.turn(input.as_str()),
        }
    }

    fn after_selection(&mut self, keys: &EnvKeys) -> (r: (Vec<UiEvent>, WorkerTask))
        ensures
            final(self).step(r) == selected_step(old(self)@.agent, *keys),
    {
        match self.agent.provider.selected_cloud() {
            Some(c) => {
                if config::is_blank(c.model.as_str()) {
                    let effort = c.reasoning_effort.as_str().to_string();
                    return self.advance(Stage::Adopting(effort), WorkerTask::FetchModels(c));
                }
            },
            None => {},
        }
        let summary = self.agent.provider_summary(keys);
        self.remark(text::cat2("[provider] ", summary.as_str()), keys)
    }

    fn adopt(&mut self, effort: String, models: Vec<String>, keys: &EnvKeys) -> (r: (
        Vec<UiEvent>,
        WorkerTask,
    ))
        ensures
            final(self).step(r) == adopt_step(
                old(self)@.agent,
                effort@,
                text::views(models@),
                *keys,
            ),
    {
        match provider::pick_chat_model(&models) {
            None => self.fail("endpoint nao listou modelos de chat".to_string(), keys),
            Some(picked) => {
                let stage = Stage::Adopted { picked: picked.as_str().to_string(), models };
                self.set_effort(picked, effort, stage, keys)
            },
        }
    }

    fn adopted(&mut self, picked: &str, models: &Vec<String>, keys: &EnvKeys) -> (r: (
        Vec<UiEvent>,
        WorkerTask,
    ))
        ensures
            final(self).step(r) == provider_shown(
                old(self)@.agent,
                adopted_note(old(self)@.agent, picked@, text::views(models@), *keys),
                *keys,
            ),
    {
        let summary = self.agent.provider_summary(keys);
        let list = text::join(models, "\n");
        let body = text::cat5(
            summary.as_str(),
            " (modelo '",
            picked,
            "' adotado de /models)\n",
            list.as_str(),
        );
        self.remark(text::cat2("[provider] ", body.as_str()), keys)
    }

    fn installed(&mut self, model: String, thinking: bool, keys: &EnvKeys) -> (r: (
        Vec<UiEvent>,
        WorkerTask,
    ))
        ensures
            final(self).step(r) == ended(
                old(self)@.agent,
                seq![
                    UiEventView::Muted(installed_note(model@, thinking)),
                    UiEventView::ModelReady { model: model@, thinking },
                    providers_event(old(self)@.agent, *keys),
                ],
            ),
    {
        let note = text::cat5(
            "[modelo] local configurado: ",
            model.as_str(),
            " (raciocinio ",
            if thinking {
                "on"
            } else {
                "off"
            },
            ")",
        );
        let providers = self.shown_providers(keys);
        let mut events = two_events(UiEvent::Muted(note), UiEvent::ModelReady { model, thinking });
        let ghost before = text::views(events@);
        events.push(providers);
        assert(text::views(events@) =~= before.push(providers@));
        self.finish(events)
    }

    fn on_saved(&mut self, r: Result<(), String>, keys: &EnvKeys) -> (out: (
        Vec<UiEvent>,
        WorkerTask,
    ))
        ensures
            final(self).step(out) == saved_step(
                old(self)@,
                match r {
                    Ok(_) => Ok(()),
                    Err(e) => Err(e@),
                },
                *keys,
            ),
    {
        let mut stage = Stage::Idle;
        std::mem::swap(&mut stage, &mut self.stage);
        match stage {
            Stage::Selecting => match r {
                Err(e) => self.fail(e, keys),
                Ok(_) => self.after_selection(keys),
            },
            Stage::Adopted { picked, models } => match r {
                Err(e) => self.fail(e, keys),
                Ok(_) => self.adopted(picked.as_str(), &models, keys),
            },
            Stage::Setting => match r {
                Err(e) => self.fail(e, keys),
                Ok(_) => {
                    let summary = self.agent.provider_summary(keys);
                    self.remark(text::cat2("[provider] ", summary.as_str()), keys)
                },
            },
            Stage::Adding => match r {
                Err(e) => self.fail(e, keys),
                Ok(_) => {
                    let summary = self.agent.provider_summary(keys);
                    self.remark(text::cat2("[provider] adicionado: ", summary.as_str()), keys)
                },
            },
            Stage::Installing { model, thinking } => match r {
                Err(e) => self.finish(
                    one_event(UiEvent::Failure(text::cat2("[modelo] ", e.as_str()))),
                ),
                Ok(_) => self.installed(model, thinking, keys),
            },
            _ => self.finish(no_events()),
        }
    }

    fn on_models(&mut self, r: Result<Vec<String>, String>, keys: &EnvKeys) -> (out: (
        Vec<UiEvent>,
        WorkerTask,
    ))
        ensures
            final(self).step(out) == models_step(
                old(self)@,
                match r {
                    Ok(v) => Ok(text::views(v@)),
                    Err(e) => Err(e@),
                },
                *keys,
            ),
    {
        let mut stage = Stage::Idle;
        std::mem::swap(&mut stage, &mut self.stage);
        match stage {
            Stage::Adopting(effort) => match r {
                Err(e) => self.fail(e, keys),
                Ok(models) => self.adopt(effort, models, keys),
            },
            Stage::Listing => match r {
                Err(e) => self.finish(one_event(UiEvent::Failure(e))),
                Ok(models) => {
                    let (current, effort) = match self.agent.provider.selected_cloud() {
                        Some(c) => (c.model, c.reasoning_effort),
                        None => (String::new(), String::new()),
                    };
                    let event = UiEvent::Models { models, current, effort };
                    assert(event@ =~= listed_event(old(self)@.agent, text::views(models@)));
                    self.finish(one_event(event))
                },
            },
            _ => self.finish(no_events()),
        }
    }

    fn on_engine(&mut self, r: Result<bool, String>) -> (out: (Vec<UiEvent>, WorkerTask))
        ensures
            final(self).step(out) == engine_step(
                old(self)@,
                match r {
                    Ok(b) => Ok(b),
                    Err(e) => Err(e@),
                },
            ),
    {
        let mut stage = Stage::Idle;
        std::mem::swap(&mut stage, &mut self.stage);
        match stage {
            Stage::Building { model, mmproj } => match r {
                Err(e) => self.finish(
                    one_event(UiEvent::Failure(text::cat2("[modelo] ", e.as_str()))),
                ),
                Ok(thinking) => self.set_local_model(model, mmproj, thinking),
            },
            _ => self.finish(no_events()),
        }
    }

    /// Lets the runtime that was built work, and sets its model.
    fn set_local_model(&mut self, model: String, mmproj: String, thinking: bool) -> (r: (
        Vec<UiEvent>,
        WorkerTask,
    ))
        ensures
            final(self).step(r) == built_step(old(self)@.agent, model@, mmproj@, thinking),
    {
        if !self.agent.orchestrator.manager.is_running() {
            self.agent.orchestrator.manager.run();
        }
        match self.agent.provider.set_local_model(model.as_str(), mmproj.as_str()) {
            Err(e) => self.finish(
                one_event(UiEvent::Failure(text::cat2("[modelo] ", e.as_str()))),
            ),
            Ok(id) => {
                let stage = Stage::Installing { model: model.as_str().to_string(), thinking };
                self.advance(stage, WorkerTask::Save(Change::LocalModel { id, model, mmproj }))
            },
        }
    }

    fn told(&self, t: &TurnResult, rate: String, notices: &Vec<String>) -> (r: Vec<UiEvent>)
        ensures
            text::views(r@) == turn_events(
                self@.agent,
                t@,
                rate@,
                text::views(notices@),
            ),
    {
        let ghost all = text::views(notices@);
        let ghost notes = image_notes(all);
        let mut out: Vec<UiEvent> = Vec::new();
        let mut i: usize = 0;
        while i < notices.len()
            invariant
                i <= notices.len(),
                all == text::views(notices@),
                notes == image_notes(all),
                out.len() == i,
                forall|k: int| 0 <= k < i ==> (#[trigger] out@[k])@ == notes[k],
            decreases notices.len() - i,
        {
            assert(all[i as int] == notices@[i as int]@);
            out.push(UiEvent::Muted(text::cat2("[imagem] ", notices[i].as_str())));
            i = i + 1;
        }
        assert(text::views(out@) =~= notes);
        let used: usize = match t.context_tokens {
            Some(n) => if n > 0 {
                #[verifier::truncate]
                (n as usize)
            } else {
                self.agent.context_estimate()
            },
            None => self.agent.context_estimate(),
        };
        let context = UiEvent::ContextUsage { used, max: self.agent.ctx_max() };
        match (t.tokens, t.tps) {
            (Some(tokens), Some(tps)) => {
                out.push(UiEvent::Stats { tokens, tps, shown: rate });
            },
            _ => {},
        }
        out.push(context);
        out.push(UiEvent::Done);
        assert(text::views(out@) =~= turn_events(self@.agent, t@, rate@, all));
        out
    }

    /// Goes on once what the worker needed done turned out in some way.
    pub fn on_reply(&mut self, reply: WorkerReply, keys: &EnvKeys) -> (r: (
        Vec<UiEvent>,
        WorkerTask,
    ))
        ensures
            final(self).step(r) == resumed(old(self)@, reply@, *keys),
    {
        match reply {
            WorkerReply::Saved(r) => self.on_saved(r, keys),
            WorkerReply::Models(r) => self.on_models(r, keys),
            WorkerReply::Engine(r) => self.on_engine(r),
            WorkerReply::Turn { result, rate, notices } => {
                let waited = match &self.stage {
                    Stage::Turning => true,
                    _ => false,
                };
                if !waited {
                    return self.finish(no_events());
                }
                match result {
                    Ok(t) => {
                        let events = self.told(&t, rate, &notices);
                        self.finish(events)
                    },
                    Err(e) => self.finish(two_events(UiEvent::Failure(e), UiEvent::Done)),
                }
            },
        }
    }
}

/// What the screen is told of a report of the team.
pub open spec fn ui_event(ev: ManagerEventView) -> UiEventView {
    match ev {
        ManagerEventView::Stream(g) => match g {
            GenerationView::Content(s) => UiEventView::Content(s),
            GenerationView::Reasoning(s) => UiEventView::Reasoning(s),
            GenerationView::CallTool(c) => UiEventView::ToolCall(c.name),
            GenerationView::ToolPreview(_) => UiEventView::Status("tool preview"@),
        },
        ManagerEventView::ToolStart(n) => UiEventView::ToolStart(n),
        ManagerEventView::ToolResult(n, t) => UiEventView::ToolResult { name: n, result: t },
        ManagerEventView::Status(t) => UiEventView::Status(t),
        ManagerEventView::AgentWorking(n) => UiEventView::AgentWorking(n),
    }
}

/// Tells the screen of a report of the team.
pub fn tell(ev: ManagerEvent) -> (r: UiEvent)
    ensures
        r@ == ui_event(ev@),
{
    match ev {
        ManagerEvent::Stream(g) => match g {
            GenerationType::Content(s) => UiEvent::Content(s),
            GenerationType::Reasoning(s) => UiEvent::Reasoning(s),
            GenerationType::CallTool(c) => UiEvent::ToolCall(c.name),
            GenerationType::ToolPreview(_) => UiEvent::Status("tool preview".to_string()),
        },
        ManagerEvent::ToolStart(n) => UiEvent::ToolStart(n),
        ManagerEvent::ToolResult(n, t) => UiEvent::ToolResult { name: n, result: t },
        ManagerEvent::Status(t) => UiEvent::Status(t),
        ManagerEvent::AgentWorking(n) => UiEvent::AgentWorking(n),
    }
}

/// Whatever becomes of a turn, the last that the screen is told is that it is
/// done.
pub proof fn law_turn_is_always_done(
    w: WorkerView,
    input: Seq<char>,
    keys: EnvKeys,
    root: Seq<char>,
    fresh: Seq<char>,
    result: Result<TurnResultView, Seq<char>>,
    rate: Seq<char>,
    notices: Seq<Seq<char>>,
)
    ensures
        ({
            let first = begun(w, WorkerMsgView::Turn(input), keys, root, fresh);
            if first.task is Wait {
                first.events.last() == UiEventView::Done
            } else {
                let last = resumed(
                    first.worker,
                    ReplyView::Turn { result, rate, notices },
                    keys,
                );
                last.task is Wait && last.events.last() == UiEventView::Done
            }
        }),
{
}

/// A provider that was chosen and written is the active one, and the change
/// that is written makes it so in the configuration too.
pub proof fn law_choice_is_written(w: WorkerView, uuid: Seq<char>, keys: EnvKeys, c: ConfigView)
    requires
        provider::store_of(c) == w.agent.store,
        provider::resolved(w.agent.store, Some(uuid)) is Some,
    ensures
        ({
            let step = choose_step(w.agent, uuid, keys);
            &&& step.task is Save
            &&& provider::store_of(changed(c, step.task->Save_0)) == step.worker.agent.store
            &&& provider::resolved(step.worker.agent.store, Some(uuid)) == Some(
                provider::active(step.worker.agent.store),
            )
        }),
{
    let step = choose_step(w.agent, uuid, keys);
    let next = step.worker.agent.store;
    assert(next.local == w.agent.store.local && next.cloud == w.agent.store.cloud);
}

/// A provider that was added is the active one, unless its id is that of a
/// provider that was there, and it is written as it was added.
pub proof fn law_added_provider_is_written(
    w: WorkerView,
    kind: CloudKind,
    base_url: Seq<char>,
    model: Seq<char>,
    api_key: Seq<char>,
    keys: EnvKeys,
    root: Seq<char>,
    fresh: Seq<char>,
    c: ConfigView,
)
    requires
        provider::store_of(c) == w.agent.store,
    ensures
        ({
            let step = begun(
                w,
                WorkerMsgView::AddCloudProvider { kind, base_url, model, api_key },
                keys,
                root,
                fresh,
            );
            &&& step.task is Save
            &&& provider::store_of(changed(c, step.task->Save_0)) == step.worker.agent.store
            &&& step.worker.agent.store.selected == Some(fresh)
        }),
{
}

/// A turn goes to the active provider with the input as it is: to a remote one with the settings of
/// the team and the tools exactly where tools are on, to a local one as a task of the root.
pub proof fn law_turn_goes_to_active_provider(a: AgentView, input: Seq<char>)
    ensures
        provider::active(a.store) matches SelectedView::Cloud(c) ==> (root_turn(a, input) matches Ok(
            RootTurnView::Remote { cloud, vendor, tools, temp, n_predict, input: said },
        ) && {
            &&& cloud == c
            &&& said == input
            &&& temp == a.team.temp
            &&& n_predict == a.team.n_predict
            &&& c.kind == CloudKind::Anthropic ==> vendor == Vendor::Anthropic
            &&& c.kind == CloudKind::Google ==> vendor == Vendor::Google
            &&& !a.team.tools_enabled ==> tools == JsonView::Null
            &&& a.team.tools_enabled && json::json_text(tools::TOOLS_JSON@) is Some ==> Some(tools)
                == json::json_text(tools::TOOLS_JSON@)
        }),
        provider::active(a.store) is Local && a.team.manager.running ==> root_turn(a, input)
            == Ok::<RootTurnView, Seq<char>>(
            RootTurnView::Local { agent_id: "drill"@, input },
        ),
{
}

/// Another model and effort are set for the selected remote provider alone, and written under its
/// id: the configuration that is written holds the providers that the assistant then has.
pub proof fn law_model_and_effort_are_written(
    a: AgentView,
    i: int,
    model: Seq<char>,
    effort: Seq<char>,
    stage: StageView,
    keys: EnvKeys,
    c: ConfigView,
)
    requires
        provider::store_of(c) == a.store,
        0 <= i < a.store.cloud.len(),
        a.store.selected == Some(a.store.cloud[i].id),
        forall|j: int| 0 <= j < i ==> (#[trigger] a.store.cloud[j]).id != a.store.cloud[i].id,
    ensures
        ({
            let step = effort_step(a, model, effort, stage, keys);
            let after = step.worker.agent;
            &&& step.task == TaskView::Save(
                ChangeView::Effort { id: a.store.cloud[i].id, model, effort },
            )
            &&& step.worker.stage == stage
            &&& step.events.len() == 0
            &&& after.team == a.team
            &&& after.store.cloud[i].model == model
            &&& after.store.cloud[i].reasoning_effort == effort
            &&& after.store.cloud.len() == a.store.cloud.len()
            &&& forall|j: int|
                0 <= j < a.store.cloud.len() && j != i ==> after.store.cloud[j]
                    == #[trigger] a.store.cloud[j]
            &&& after.store.local == a.store.local
            &&& provider::store_of(changed(c, step.task->Save_0)) == after.store
        }),
{
    provider::law_effort_goes_to_provider(a.store.cloud, i, model, effort);
    lemma_found(a.store.cloud, i, 0);
}

proof fn lemma_found(v: Seq<CloudView>, i: int, from: int)
    requires
        0 <= from <= i < v.len(),
        forall|j: int| 0 <= j < i ==> (#[trigger] v[j]).id != v[i].id,
    ensures
        provider::cloud_from(v, v[i].id, from) == Some(i),
    decreases i - from,
{
    if from < i {
        assert(v[from].id != v[i].id);
        lemma_found(v, i, from + 1);
    }
}

/// A local model that was loaded is set for the local provider in use and written under its id;
/// then the screen is told that this very model is ready.
pub proof fn law_loaded_model_is_installed(
    a: AgentView,
    model: Seq<char>,
    mmproj: Seq<char>,
    thinking: bool,
    keys: EnvKeys,
)
    requires
        a.store.local.len() > 0,
    ensures
        ({
            let step = built_step(a, model, mmproj, thinking);
            let i = provider::local_target(a.store);
            let last = resumed(step.worker, ReplyView::Saved(Ok(())), keys);
            &&& step.worker.agent.team.manager.running
            &&& step.worker.agent.store.local[i].model == model
            &&& step.worker.agent.store.local[i].mmproj == mmproj
            &&& step.task == TaskView::Save(
                ChangeView::LocalModel { id: a.store.local[i].id, model, mmproj },
            )
            &&& last.events.contains(UiEventView::ModelReady { model, thinking })
            &&& last.worker.agent == step.worker.agent
        }),
{
    let step = built_step(a, model, mmproj, thinking);
    let i = provider::local_target(a.store);
    lemma_target_within(a.store);
    let last = resumed(step.worker, ReplyView::Saved(Ok(())), keys);
    assert(last.events[1] == UiEventView::ModelReady { model, thinking });
}

proof fn lemma_target_within(s: StoreView)
    requires
        s.local.len() > 0,
    ensures
        0 <= provider::local_target(s) < s.local.len(),
{
    if s.selected is Some {
        lemma_local_within(s.local, s.selected->0, 0);
    }
}

proof fn lemma_local_within(v: Seq<LocalView>, id: Seq<char>, i: int)
    requires
        0 <= i,
    ensures
        provider::local_from(v, id, i) matches Some(k) ==> 0 <= k < v.len(),
    decreases v.len() - i,
{
    if i < v.len() && v[i].id != id {
        lemma_local_within(v, id, i + 1);
    }
}

/// What came of a turn is shown: its figures where both were counted, the context that it took,
/// and the remarks on images, or else the error.
pub proof fn law_turn_outcome_is_shown(
    w: WorkerView,
    t: TurnResultView,
    e: Seq<char>,
    rate: Seq<char>,
    notices: Seq<Seq<char>>,
    keys: EnvKeys,
    n: i64,
    bits: u64,
)
    requires
        w.stage is Turning,
    ensures
        ({
            let good = resumed(w, ReplyView::Turn { result: Ok(t), rate, notices }, keys);
            let bad = resumed(w, ReplyView::Turn { result: Err(e), rate, notices }, keys);
            &&& good.worker.agent == w.agent
            &&& good.worker.stage is Idle
            &&& forall|i: int|
                0 <= i < notices.len() ==> good.events[i] == UiEventView::Muted(
                    "[imagem] "@ + #[trigger] notices[i],
                )
            &&& t.stats.tokens == Some(n) && t.stats.tps == Some(bits)
                ==> good.events[notices.len() as int] == (UiEventView::Stats {
                tokens: n,
                tps: bits,
                shown: rate,
            })
            &&& t.stats.context_tokens == Some(n) && 0 < n <= usize::MAX
                ==> good.events[good.events.len() - 2] == (UiEventView::ContextUsage {
                used: n as nat,
                max: w.agent.team.ctx_max,
            })
            &&& t.stats.context_tokens is None ==> good.events[good.events.len() - 2] == (
            UiEventView::ContextUsage {
                used: orchestrator::estimate(w.agent.team.manager),
                max: w.agent.team.ctx_max,
            })
            &&& bad.events == seq![UiEventView::Failure(e), UiEventView::Done]
        }),
{
    let bad = resumed(w, ReplyView::Turn { result: Err(e), rate, notices }, keys);
    assert(bad.events =~= seq![UiEventView::Failure(e), UiEventView::Done]);
    let good = resumed(w, ReplyView::Turn { result: Ok(t), rate, notices }, keys);
    assert(image_notes(notices).len() == notices.len());
    assert forall|i: int| 0 <= i < notices.len() implies good.events[i] == UiEventView::Muted(
        "[imagem] "@ + #[trigger] notices[i],
    ) by {
        assert(image_notes(notices)[i] == UiEventView::Muted("[imagem] "@ + notices[i]));
    }
}

/// Each report of the team reaches the screen with its own words.
pub proof fn law_team_report_is_shown(s: Seq<char>, name: Seq<char>)
    ensures
        ui_event(ManagerEventView::Stream(GenerationView::Content(s))) == UiEventView::Content(s),
        ui_event(ManagerEventView::Stream(GenerationView::Reasoning(s))) == UiEventView::Reasoning(
            s,
        ),
        ui_event(ManagerEventView::ToolStart(name)) == UiEventView::ToolStart(name),
        ui_event(ManagerEventView::ToolResult(name, s)) == (UiEventView::ToolResult {
            name,
            result: s,
        }),
        ui_event(ManagerEventView::Status(s)) == UiEventView::Status(s),
        ui_event(ManagerEventView::AgentWorking(name)) == UiEventView::AgentWorking(name),
{
}

/// A session that is chosen is the session of the team and of what it records; the mode that is
/// chosen is the mode of the team, and the screen is told.
pub proof fn law_session_and_mode_are_set(
    w: WorkerView,
    id: Seq<char>,
    m: orchestrator::AgentMode,
    keys: EnvKeys,
    root: Seq<char>,
    fresh: Seq<char>,
)
    ensures
        ({
            let step = begun(w, WorkerMsgView::SetSession(id), keys, root, fresh);
            &&& step.worker.agent.team.session_id == id
            &&& step.worker.agent.team.manager.session_id == id
            &&& step.worker.agent.team.manager.agents == w.agent.team.manager.agents
            &&& step.worker.agent.store == w.agent.store
            &&& step.task is Wait
        }),
        ({
            let step = begun(w, WorkerMsgView::SetMode(m), keys, root, fresh);
            &&& step.worker.agent.team.mode == m
            &&& step.worker.agent.store == w.agent.store
            &&& step.events == seq![UiEventView::ModeChanged(m)]
            &&& step.task is Wait
        }),
{
}

/// A remote provider that has no model yet is asked for its models, and adopts the first that is
/// made for chat with the effort that it had; one that has a model is shown as it is.
pub proof fn law_missing_model_is_adopted(
    a: AgentView,
    c: CloudView,
    models: Seq<Seq<char>>,
    picked: Seq<char>,
    keys: EnvKeys,
)
    requires
        provider::active(a.store) == SelectedView::Cloud(c),
    ensures
        text::trimmed(c.model).len() == 0 ==> {
            let step = selected_step(a, keys);
            &&& step.task == TaskView::FetchModels(c)
            &&& provider::chat_model_from(models, 0) == Some(picked) ==> resumed(
                step.worker,
                ReplyView::Models(Ok(models)),
                keys,
            ) == effort_step(
                a,
                picked,
                c.reasoning_effort,
                StageView::Adopted { picked, models },
                keys,
            )
            &&& provider::chat_model_from(models, 0) is None ==> resumed(
                step.worker,
                ReplyView::Models(Ok(models)),
                keys,
            ).events[0] == UiEventView::Failure("endpoint nao listou modelos de chat"@)
        },
        text::trimmed(c.model).len() > 0 ==> selected_step(a, keys).task is Wait,
        begun(
            WorkerView { agent: a, stage: StageView::Idle },
            WorkerMsgView::ListModels,
            keys,
            picked,
            picked,
        ).task == TaskView::FetchModels(c),
        resumed(
            WorkerView { agent: a, stage: StageView::Listing },
            ReplyView::Models(Ok(models)),
            keys,
        ).events == seq![
            UiEventView::Models { models, current: c.model, effort: c.reasoning_effort },
        ],
{
}

/// The list of models tells where they are, has a line for each in order, and marks the one in use.
pub proof fn law_models_are_told(c: CloudView, models: Seq<Seq<char>>, m: Seq<char>)
    requires
        models.len() > 0,
    ensures
        listing(c, models.push(m)) == listing(c, models) + "\n"@ + if m == c.model {
            "  * "@ + m + " (atual)"@
        } else {
            "  "@ + m
        },
{
    let f = |x: Seq<char>| listed_model(x, c.model);
    let all = models.push(m).map_values(f);
    assert(all.drop_last() =~= models.map_values(f));
    assert(all.last() == listed_model(m, c.model));
    assert(listing(c, models.push(m)) =~= listing(c, models) + "\n"@ + listed_model(m, c.model));
}

} // verus!
