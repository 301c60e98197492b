//! The command line of the program, and the settings that come of it and of
//! the configuration.

use crate::agents::{ManagerEvent, ManagerEventView};
use crate::chat::{GenerationType, GenerationView};
use crate::config;
use crate::config::{ConfigView, DrillConfig, LocalProvider, LocalView};
use crate::json;
use crate::orchestrator::AgentMode;
use crate::provider;
use crate::runtime;
use crate::runtime::{ParamCall, ParamView, RuntimeSettings, StartPlan};
use crate::text;
use crate::text::same;
use vstd::prelude::*;

verus! {

/// What is printed where help is asked for.
pub const HELP: &'static str = "drill — agente de codigo para LLMs GGUF\n\nUso: drill [opcoes]\n\n--model <path>    modelo GGUF (default: ver ~/.drill/config.json)\n--mmproj <path>   projecao multi-modal (llava/qwen2vl; opcional)\n--ngl <n>         camadas GPU (default 999)\n--ctx <n>         contexto (default 8192)\n--n-predict <n>   tokens por turno (default 1024)\n--temp <f>        temperatura (default 0.6)\n--spec <tipo>     draft-mtp | none\n--no-tools        desabilita tool calls\n--dir <path>      diretorio de trabalho (default: cwd)\n--persona <texto> system prompt\n--mode <m>        solo | agents (default solo)\n--headless <txt>  roda um turno sem TUI\n\nModos (TUI):\nsolo     conversa com o drill (default)\nagents   Ctrl+A — drill vira maestro com subagentes\ndefinidos por drill.<nome>.agent.json\n(em ~/.drill/agents e na raiz do projeto)\n\nConfig: ~/.drill/config.json (autocriado). CLI sobrescreve config.\nVariaveis: DRILL_CONFIG=<path> troca o arquivo de config.\n";

/// What the command line asks for. The temperature is kept as it was written.
#[derive(Debug, PartialEq)]
pub struct Cli {
    pub model: Option<String>,
    pub mmproj: Option<String>,
    pub ngl: Option<usize>,
    pub ctx: Option<usize>,
    pub n_predict: Option<usize>,
    pub temp: Option<String>,
    pub spec_type: Option<String>,
    pub tools: Option<bool>,
    pub dir: Option<String>,
    pub persona: Option<String>,
    pub headless: Option<String>,
    pub mode: Option<String>,
}

/// The model of what the command line asks for.
#[verifier::ext_equal]
pub struct CliView {
    pub model: Option<Seq<char>>,
    pub mmproj: Option<Seq<char>>,
    pub ngl: Option<usize>,
    pub ctx: Option<usize>,
    pub n_predict: Option<usize>,
    pub temp: Option<Seq<char>>,
    pub spec_type: Option<Seq<char>>,
    pub tools: Option<bool>,
    pub dir: Option<Seq<char>>,
    pub persona: Option<Seq<char>>,
    pub headless: Option<Seq<char>>,
    pub mode: Option<Seq<char>>,
}

impl View for Cli {
    type V = CliView;

    open spec fn view(&self) -> CliView {
        CliView {
            model: text::opt_view(self.model),
            mmproj: text::opt_view(self.mmproj),
            ngl: self.ngl,
            ctx: self.ctx,
            n_predict: self.n_predict,
            temp: text::opt_view(self.temp),
            spec_type: text::opt_view(self.spec_type),
            tools: self.tools,
            dir: text::opt_view(self.dir),
            persona: text::opt_view(self.persona),
            headless: text::opt_view(self.headless),
            mode: text::opt_view(self.mode),
        }
    }
}

/// A command line that asks for nothing.
pub open spec fn asks_nothing() -> CliView {
    CliView {
        model: None,
        mmproj: None,
        ngl: None,
        ctx: None,
        n_predict: None,
        temp: None,
        spec_type: None,
        tools: None,
        dir: None,
        persona: None,
        headless: None,
        mode: None,
    }
}

/// The options that take the argument behind them as their value.
pub open spec fn takes_value(flag: Seq<char>) -> bool {
    ||| flag == "--model"@
    ||| flag == "--mmproj"@
    ||| flag == "--ngl"@
    ||| flag == "--ctx"@
    ||| flag == "--n-predict"@
    ||| flag == "--temp"@
    ||| flag == "--spec"@
    ||| flag == "--mode"@
    ||| flag == "--headless"@
    ||| flag == "--dir"@
    ||| flag == "--persona"@
}

/// The count that a text writes, if it is one that the machine can hold.
pub open spec fn count_in(s: Seq<char>) -> Option<usize> {
    match text::int_value_in(s, 0, usize::MAX as int) {
        Some(n) => if text::has_prefix(s, seq!['-']) {
            None
        } else {
            Some(n as usize)
        },
        None => None,
    }
}

/// Reads a count.
pub fn parse_count(s: &str) -> (r: Option<usize>)
    ensures
        r == count_in(s@),
{
    match text::parse_u64(s) {
        Some(n) => if n <= usize::MAX as u64 {
            Some(n as usize)
        } else {
            None
        },
        None => None,
    }
}

/// What is asked for once an option has its value. A count that is none takes
/// the place of one that was given before.
pub open spec fn with_value(c: CliView, flag: Seq<char>, value: Seq<char>) -> CliView {
    if flag == "--model"@ {
        CliView { model: Some(value), ..c }
    } else if flag == "--mmproj"@ {
        CliView { mmproj: Some(value), ..c }
    } else if flag == "--ngl"@ {
        CliView { ngl: count_in(value), ..c }
    } else if flag == "--ctx"@ {
        CliView { ctx: count_in(value), ..c }
    } else if flag == "--n-predict"@ {
        CliView { n_predict: count_in(value), ..c }
    } else if flag == "--temp"@ {
        CliView { temp: Some(value), ..c }
    } else if flag == "--spec"@ {
        CliView { spec_type: Some(value), ..c }
    } else if flag == "--mode"@ {
        CliView { mode: Some(value), ..c }
    } else if flag == "--headless"@ {
        CliView { headless: Some(value), ..c }
    } else if flag == "--dir"@ {
        CliView { dir: Some(value), ..c }
    } else if flag == "--persona"@ {
        CliView { persona: Some(value), ..c }
    } else {
        c
    }
}

/// What the arguments from index `i` on ask for beyond `c`; nothing where help
/// is asked for. What is no option is passed over, and so is an option at the
/// end without its value.
pub open spec fn asked_from(args: Seq<Seq<char>>, i: int, c: CliView) -> Option<CliView>
    decreases args.len() - i,
{
    if i < 0 || i >= args.len() {
        Some(c)
    } else if args[i] == "-h"@ || args[i] == "--help"@ {
        None
    } else if takes_value(args[i]) && i + 1 < args.len() {
        asked_from(args, i + 2, with_value(c, args[i], args[i + 1]))
    } else if args[i] == "--no-tools"@ {
        asked_from(args, i + 1, CliView { tools: Some(false), ..c })
    } else {
        asked_from(args, i + 1, c)
    }
}

fn is_valued(flag: &str) -> (r: bool)
    ensures
        r == takes_value(flag@),
{
    same(flag, "--model") || same(flag, "--mmproj") || same(flag, "--ngl") || same(flag, "--ctx")
        || same(flag, "--n-predict") || same(flag, "--temp") || same(flag, "--spec") || same(
        flag,
        "--mode",
    ) || same(flag, "--headless") || same(flag, "--dir") || same(flag, "--persona")
}

impl Cli {
    fn empty() -> (r: Cli)
        ensures
            r@ == asks_nothing(),
    {
        Cli {
            model: None,
            mmproj: None,
            ngl: None,
            ctx: None,
            n_predict: None,
            temp: None,
            spec_type: None,
            tools: None,
            dir: None,
            persona: None,
            headless: None,
            mode: None,
        }
    }

    fn set(&mut self, flag: &str, value: &str)
        ensures
            final(self)@ == with_value(old(self)@, flag@, value@),
    {
        if same(flag, "--model") {
            self.model = Some(value.to_string());
        } else if same(flag, "--mmproj") {
            self.mmproj = Some(value.to_string());
        } else if same(flag, "--ngl") {
            self.ngl = parse_count(value);
        } else if same(flag, "--ctx") {
            self.ctx = parse_count(value);
        } else if same(flag, "--n-predict") {
            self.n_predict = parse_count(value);
        } else if same(flag, "--temp") {
            self.temp = Some(value.to_string());
        } else if same(flag, "--spec") {
            self.spec_type = Some(value.to_string());
        } else if same(flag, "--mode") {
            self.mode = Some(value.to_string());
        } else if same(flag, "--headless") {
            self.headless = Some(value.to_string());
        } else if same(flag, "--dir") {
            self.dir = Some(value.to_string());
        } else if same(flag, "--persona") {
            self.persona = Some(value.to_string());
        }
    }

    /// Reads the arguments behind the program's name; nothing where help is
    /// asked for.
    pub fn parse(args: &Vec<String>) -> (r: Option<Cli>)
        ensures
            text::opt_view(r) == asked_from(text::views(args@), 0, asks_nothing()),
    {
        let ghost all = text::views(args@);
        let mut cli = Cli::empty();
        let mut i: usize = 0;
        while i < args.len()
            invariant
                i <= args.len(),
                all == text::views(args@),
                asked_from(all, 0, asks_nothing()) == asked_from(all, i as int, cli@),
            decreases args.len() - i,
        {
            let arg = args[i].as_str();
            assert(all[i as int] == arg@);
            if same(arg, "-h") || same(arg, "--help") {
                return None;
            }
            if is_valued(arg) && args.len() - i > 1 {
                assert(all[i + 1] == args@[i + 1]@);
                cli.set(arg, args[i + 1].as_str());
                i = i + 2;
            } else {
                if same(arg, "--no-tools") {
                    cli.tools = Some(false);
                }
                i = i + 1;
            }
        }
        Some(cli)
    }
}

/// An option that is given again takes the value that stands last.
pub proof fn law_last_value_counts(c: CliView, flag: Seq<char>, first: Seq<char>, last: Seq<char>)
    ensures
        with_value(with_value(c, flag, first), flag, last) == with_value(c, flag, last),
{
}

/// The settings with which the program runs. The temperature is the bit
/// pattern of a 32-bit float.
#[derive(Debug, PartialEq)]
pub struct Effective {
    pub model: String,
    pub mmproj: String,
    pub ngl: usize,
    pub ctx: usize,
    pub n_predict: usize,
    pub temp: u32,
    pub spec_type: String,
    pub tools: bool,
    pub dir: String,
    pub persona: String,
    pub headless: Option<String>,
    pub mode: String,
    pub threads: i64,
    pub threads_batch: i64,
    pub flash_attn: String,
    pub cache_type_k: String,
    pub cache_type_v: String,
    pub config_path: String,
    /// The active provider is remote: no local model has to be there.
    pub remote_only: bool,
}

/// The model of the settings.
#[verifier::ext_equal]
pub struct EffectiveView {
    pub model: Seq<char>,
    pub mmproj: Seq<char>,
    pub ngl: nat,
    pub ctx: nat,
    pub n_predict: nat,
    pub temp: u32,
    pub spec_type: Seq<char>,
    pub tools: bool,
    pub dir: Seq<char>,
    pub persona: Seq<char>,
    pub headless: Option<Seq<char>>,
    pub mode: Seq<char>,
    pub threads: int,
    pub threads_batch: int,
    pub flash_attn: Seq<char>,
    pub cache_type_k: Seq<char>,
    pub cache_type_v: Seq<char>,
    pub config_path: Seq<char>,
    pub remote_only: bool,
}

impl View for Effective {
    type V = EffectiveView;

    open spec fn view(&self) -> EffectiveView {
        EffectiveView {
            model: self.model@,
            mmproj: self.mmproj@,
            ngl: self.ngl as nat,
            ctx: self.ctx as nat,
            n_predict: self.n_predict as nat,
            temp: self.temp,
            spec_type: self.spec_type@,
            tools: self.tools,
            dir: self.dir@,
            persona: self.persona@,
            headless: text::opt_view(self.headless),
            mode: self.mode@,
            threads: self.threads as int,
            threads_batch: self.threads_batch as int,
            flash_attn: self.flash_attn@,
            cache_type_k: self.cache_type_k@,
            cache_type_v: self.cache_type_v@,
            config_path: self.config_path@,
            remote_only: self.remote_only,
        }
    }
}

/// The value that is there, or else another.
pub open spec fn or_else<T>(o: Option<T>, d: T) -> T {
    match o {
        Some(v) => v,
        None => d,
    }
}

/// The local provider to start with: the selected one, else the first, else
/// one made up of the configured model.
pub open spec fn start_local(c: ConfigView) -> LocalView {
    let chosen = match c.selected {
        Some(id) => provider::local_from(c.local, id, 0),
        None => None,
    };
    match chosen {
        Some(i) => c.local[i],
        None => if c.local.len() > 0 {
            c.local[0]
        } else {
            LocalView {
                model: if config::blank(c.model) {
                    config::DEFAULT_MODEL@
                } else {
                    c.model
                },
                ..config::default_local()
            }
        },
    }
}

/// The selected provider is remote.
pub open spec fn is_remote(c: ConfigView) -> bool {
    match c.selected {
        Some(id) => provider::cloud_from(c.cloud, id, 0) is Some,
        None => false,
    }
}

/// The settings: what the command line asks for comes before what the
/// configuration holds.
pub open spec fn settled(
    cli: CliView,
    c: ConfigView,
    temp: Option<u32>,
    cwd: Seq<char>,
    config_path: Seq<char>,
) -> EffectiveView {
    let local = start_local(c);
    EffectiveView {
        model: or_else(cli.model, local.model),
        mmproj: or_else(cli.mmproj, local.mmproj),
        ngl: match cli.ngl {
            Some(n) => n as nat,
            None => local.ngl,
        },
        ctx: match cli.ctx {
            Some(n) => n as nat,
            None => local.ctx,
        },
        n_predict: match cli.n_predict {
            Some(n) => n as nat,
            None => local.n_predict,
        },
        temp: or_else(temp, local.temp),
        spec_type: or_else(cli.spec_type, local.spec_type),
        tools: or_else(cli.tools, c.tools),
        dir: or_else(cli.dir, or_else(c.dir, cwd)),
        persona: or_else(cli.persona, c.persona),
        headless: cli.headless,
        mode: or_else(cli.mode, "solo"@),
        threads: c.threads,
        threads_batch: c.threads_batch,
        flash_attn: c.flash_attn,
        cache_type_k: c.cache_type_k,
        cache_type_v: c.cache_type_v,
        config_path,
        remote_only: is_remote(c),
    }
}

fn given(o: &Option<String>, d: &str) -> (r: String)
    ensures
        r@ == or_else(text::opt_view(*o), d@),
{
    match o {
        Some(s) => s.as_str().to_string(),
        None => d.to_string(),
    }
}

fn counted(o: Option<usize>, d: usize) -> (r: usize)
    ensures
        r == or_else(o, d),
{
    match o {
        Some(n) => n,
        None => d,
    }
}

fn starting_local(cfg: &DrillConfig) -> (r: LocalProvider)
    ensures
        r@ == start_local(cfg@),
{
    let chosen = match &cfg.provider_selected_uuid {
        Some(id) => provider::find_local(&cfg.providers.local, id.as_str()),
        None => None,
    };
    match chosen {
        Some(i) => cfg.providers.local[i].copy(),
        None => if cfg.providers.local.len() > 0 {
            cfg.providers.local[0].copy()
        } else {
            let mut made = LocalProvider::default();
            made.model = if config::is_blank(cfg.model.as_str()) {
                config::DEFAULT_MODEL.to_string()
            } else {
                cfg.model.as_str().to_string()
            };
            made
        },
    }
}

/// Settles the settings. The temperature is the one that the command line
/// writes, if it is one.
pub fn resolve(cli: &Cli, cfg: &DrillConfig, temp: Option<u32>, cwd: &str, config_path: &str) -> (r:
    Effective)
    ensures
        r@ == settled(cli@, cfg@, temp, cwd@, config_path@),
{
    let local = starting_local(cfg);
    let remote_only = match &cfg.provider_selected_uuid {
        Some(id) => provider::find_cloud(&cfg.providers.cloud, id.as_str()).is_some(),
        None => false,
    };
    let dir = given(&cfg.dir, cwd);
    Effective {
        model: given(&cli.model, local.model.as_str()),
        mmproj: given(&cli.mmproj, local.mmproj.as_str()),
        ngl: counted(cli.ngl, local.ngl),
        ctx: counted(cli.ctx, local.ctx),
        n_predict: counted(cli.n_predict, local.n_predict),
        temp: match temp {
            Some(bits) => bits,
            None => local.temp,
        },
        spec_type: given(&cli.spec_type, local.spec_type.as_str()),
        tools: match cli.tools {
            Some(on) => on,
            None => cfg.tools,
        },
        dir: given(&cli.dir, dir.as_str()),
        persona: given(&cli.persona, cfg.persona.as_str()),
        headless: text::copy_opt(&cli.headless),
        mode: given(&cli.mode, "solo"),
        threads: cfg.threads,
        threads_batch: cfg.threads_batch,
        flash_attn: cfg.flash_attn.as_str().to_string(),
        cache_type_k: cfg.cache_type_k.as_str().to_string(),
        cache_type_v: cfg.cache_type_v.as_str().to_string(),
        config_path: config_path.to_string(),
        remote_only,
    }
}

/// Whatever the command line gives comes before the configuration, and the
/// rest is as configured.
pub proof fn law_command_line_comes_first(
    cli: CliView,
    c: ConfigView,
    temp: Option<u32>,
    cwd: Seq<char>,
    config_path: Seq<char>,
)
    ensures
        ({
            let e = settled(cli, c, temp, cwd, config_path);
            &&& cli.model is Some ==> e.model == cli.model->0
            &&& cli.mmproj is Some ==> e.mmproj == cli.mmproj->0
            &&& cli.ngl is Some ==> e.ngl == cli.ngl->0
            &&& cli.ctx is Some ==> e.ctx == cli.ctx->0
            &&& cli.n_predict is Some ==> e.n_predict == cli.n_predict->0
            &&& cli.spec_type is Some ==> e.spec_type == cli.spec_type->0
            &&& cli.tools is Some ==> e.tools == cli.tools->0
            &&& cli.dir is Some ==> e.dir == cli.dir->0
            &&& cli.persona is Some ==> e.persona == cli.persona->0
            &&& cli.mode is Some ==> e.mode == cli.mode->0
            &&& cli == asks_nothing() && temp is None ==> {
                &&& e.model == start_local(c).model
                &&& e.ngl == start_local(c).ngl
                &&& e.ctx == start_local(c).ctx
                &&& e.n_predict == start_local(c).n_predict
                &&& e.temp == start_local(c).temp
                &&& e.tools == c.tools
                &&& e.persona == c.persona
            }
        }),
{
}

/// The mode that a word of the command line names.
pub open spec fn named_mode(word: Seq<char>) -> AgentMode {
    if word == "agents"@ || word == "maestro"@ {
        AgentMode::Agents
    } else {
        AgentMode::Solo
    }
}

/// The mode to start in.
pub fn start_mode(word: &str) -> (r: AgentMode)
    ensures
        r == named_mode(word@),
{
    if same(word, "agents") || same(word, "maestro") {
        AgentMode::Agents
    } else {
        AgentMode::Solo
    }
}

/// The id of the session of a run that starts at a second in a process.
pub fn run_session_id(secs: u64, pid: u32) -> (r: String)
    ensures
        r@ == text::decimal(secs as nat) + "-"@ + text::decimal(pid as nat),
{
    let a = text::write_u64(secs);
    let b = text::write_u64(pid as u64);
    text::cat3(a.as_str(), "-", b.as_str())
}

/// The path of a model has to be asked for: the program shows its screen, the
/// model is to run locally, and a file that it needs is missing.
pub open spec fn setup_needed(e: EffectiveView, model_there: bool, mmproj_there: bool) -> bool {
    &&& !e.remote_only
    &&& e.headless is None
    &&& {
        ||| config::blank(e.model)
        ||| !model_there
        ||| !config::blank(e.mmproj) && !mmproj_there
    }
}

/// Whether the path of a model has to be asked for.
pub fn needs_setup(e: &Effective, model_there: bool, mmproj_there: bool) -> (r: bool)
    ensures
        r == setup_needed(e@, model_there, mmproj_there),
{
    !e.remote_only && e.headless.is_none() && (config::is_blank(e.model.as_str()) || !model_there
        || (!config::is_blank(e.mmproj.as_str()) && !mmproj_there))
}

/// A switch in words.
pub open spec fn on_off(on: bool) -> Seq<char> {
    if on {
        "on"@
    } else {
        "off"@
    }
}

fn word_of(on: bool) -> (r: &'static str)
    ensures
        r@ == on_off(on),
{
    if on {
        "on"
    } else {
        "off"
    }
}

/// The line that is printed while the model is loaded.
pub fn loading_line(e: &Effective) -> (r: String)
    ensures
        r@ == "[drill] carregando modelo... aguarde;\n  "@ + e.model@ + " ("@ + text::decimal(
            e.ngl as nat,
        ) + " camadas GPU, tools "@ + on_off(e.tools) + ", config "@ + e.config_path@ + ")"@,
{
    let ngl = text::write_usize(e.ngl);
    let mut r = text::cat5(
        "[drill] carregando modelo... aguarde;\n  ",
        e.model.as_str(),
        " (",
        ngl.as_str(),
        " camadas GPU, tools ",
    );
    r.append(word_of(e.tools));
    r.append(", config ");
    r.append(e.config_path.as_str());
    r.append(")");
    r
}

/// The first line of the conversation on the screen.
pub fn banner(e: &Effective, has_thinking: bool, provider: &str) -> (r: String)
    ensures
        r@ == "modelo "@ + e.model@ + " | ngl "@ + text::decimal(e.ngl as nat) + " | tools: "@
            + on_off(e.tools) + " | raciocinio: "@ + on_off(has_thinking) + " | provider "@
            + provider@ + " | config "@ + e.config_path@,
{
    let ngl = text::write_usize(e.ngl);
    let mut r = text::cat5("modelo ", e.model.as_str(), " | ngl ", ngl.as_str(), " | tools: ");
    r.append(word_of(e.tools));
    r.append(" | raciocinio: ");
    r.append(word_of(has_thinking));
    r.append(" | provider ");
    r.append(provider);
    r.append(" | config ");
    r.append(e.config_path.as_str());
    r
}

/// The words that grant a request, in lower case.
pub open spec fn yes(low: Seq<char>) -> bool {
    low == "y"@ || low == "yes"@ || low == "s"@ || low == "sim"@
}

/// Whether a trimmed answer in lower case grants a request.
pub fn is_yes(low: &str) -> (r: bool)
    ensures
        r == yes(low@),
{
    same(low, "y") || same(low, "yes") || same(low, "s") || same(low, "sim")
}

/// Whether the line that the user typed grants a request.
pub fn grants(line: &str) -> (r: bool)
    ensures
        r == yes(text::lowercase(text::trimmed(line@))),
{
    let low = text::to_lowercase(text::trim(line).as_str());
    is_yes(low.as_str())
}

/// Where a report of a run without a screen is printed.
#[derive(Debug, PartialEq)]
pub enum Report {
    Out(String),
    Note(String),
    Silent,
}

/// The model of a printed report.
#[verifier::ext_equal]
pub enum ReportView {
    Out(Seq<char>),
    Note(Seq<char>),
    Silent,
}

impl View for Report {
    type V = ReportView;

    open spec fn view(&self) -> ReportView {
        match self {
            Report::Out(s) => ReportView::Out(s@),
            Report::Note(s) => ReportView::Note(s@),
            Report::Silent => ReportView::Silent,
        }
    }
}

/// What is printed of a report in a run without a screen: the answer goes to
/// the output as it comes, the rest is a line of its own beside it.
pub open spec fn printed(ev: ManagerEventView) -> ReportView {
    match ev {
        ManagerEventView::Stream(g) => match g {
            GenerationView::Content(s) => ReportView::Out(s),
            GenerationView::Reasoning(s) => ReportView::Note("\x1b[90m[raciocinio]\x1b[0m "@ + s),
            GenerationView::CallTool(c) => ReportView::Note(
                "\x1b[35mcall "@ + c.name + " args="@ + json::compact_json(c.args) + "\x1b[0m"@,
            ),
            GenerationView::ToolPreview(_) => ReportView::Silent,
        },
        ManagerEventView::ToolStart(n) => ReportView::Note("\x1b[35m[tool] "@ + n + "\x1b[0m"@),
        ManagerEventView::ToolResult(n, t) => ReportView::Note(
            "\x1b[33m[resultado de "@ + n + "]\x1b[0m\n"@ + t + "\n\x1b[33m---\x1b[0m"@,
        ),
        ManagerEventView::Status(t) => ReportView::Note("\x1b[90m[status] "@ + t + "\x1b[0m"@),
        ManagerEventView::AgentWorking(n) => ReportView::Note(
            "\x1b[36mtrabalhando: "@ + n + "\x1b[0m"@,
        ),
    }
}

/// What is printed of a report in a run without a screen.
pub fn report(ev: &ManagerEvent) -> (r: Report)
    ensures
        r@ == printed(ev@),
{
    match ev {
        ManagerEvent::Stream(g) => match g {
            GenerationType::Content(s) => Report::Out(s.as_str().to_string()),
            GenerationType::Reasoning(s) => Report::Note(
                text::cat2("\x1b[90m[raciocinio]\x1b[0m ", s.as_str()),
            ),
            GenerationType::CallTool(c) => {
                let args = json::write(&c.args);
                Report::Note(
                    text::cat5(
                        "\x1b[35mcall ",
                        c.name.as_str(),
                        " args=",
                        args.as_str(),
                        "\x1b[0m",
                    ),
                )
            },
            GenerationType::ToolPreview(_) => Report::Silent,
        },
        ManagerEvent::ToolStart(n) => Report::Note(
            text::cat3("\x1b[35m[tool] ", n.as_str(), "\x1b[0m"),
        ),
        ManagerEvent::ToolResult(n, t) => Report::Note(
            text::cat5(
                "\x1b[33m[resultado de ",
                n.as_str(),
                "]\x1b[0m\n",
                t.as_str(),
                "\n\x1b[33m---\x1b[0m",
            ),
        ),
        ManagerEvent::Status(t) => Report::Note(
            text::cat3("\x1b[90m[status] ", t.as_str(), "\x1b[0m"),
        ),
        ManagerEvent::AgentWorking(n) => Report::Note(
            text::cat3("\x1b[36mtrabalhando: ", n.as_str(), "\x1b[0m"),
        ),
    }
}

/// What the local runtime is built with. The temperature is the bit pattern of
/// a 32-bit float.
#[derive(Debug, PartialEq)]
pub struct EngineParams {
    pub ngl: usize,
    pub ctx: usize,
    pub n_predict: usize,
    pub temp: u32,
    pub spec_type: String,
    pub threads: i64,
    pub threads_batch: i64,
    pub flash_attn: String,
    pub cache_type_k: String,
    pub cache_type_v: String,
}

impl EngineParams {
    pub fn from_eff(eff: &Effective) -> (r: EngineParams)
        ensures
            r.ngl == eff.ngl,
            r.ctx == eff.ctx,
            r.n_predict == eff.n_predict,
            r.temp == eff.temp,
            r.spec_type@ == eff.spec_type@,
            r.threads == eff.threads,
            r.threads_batch == eff.threads_batch,
            r.flash_attn@ == eff.flash_attn@,
            r.cache_type_k@ == eff.cache_type_k@,
            r.cache_type_v@ == eff.cache_type_v@,
    {
        EngineParams {
            ngl: eff.ngl,
            ctx: eff.ctx,
            n_predict: eff.n_predict,
            temp: eff.temp,
            spec_type: eff.spec_type.as_str().to_string(),
            threads: eff.threads,
            threads_batch: eff.threads_batch,
            flash_attn: eff.flash_attn.as_str().to_string(),
            cache_type_k: eff.cache_type_k.as_str().to_string(),
            cache_type_v: eff.cache_type_v.as_str().to_string(),
        }
    }
}

/// The bit pattern of the 64-bit float that 0.95 of 32 bits becomes.
pub const TOP_P_BITS: u64 = 0x3fee_6666_6000_0000;

/// The error for files of a runtime that are missing, if any is.
pub open spec fn missing_file(
    model: Seq<char>,
    mmproj: Seq<char>,
    model_there: bool,
    mmproj_there: bool,
) -> Option<Seq<char>> {
    if !model_there {
        Some(
            "modelo nao encontrado: "@ + model
                + " — verifique o caminho no config.json (ou use --model)"@,
        )
    } else if !config::blank(mmproj) && !mmproj_there {
        Some("arquivo mmproj nao encontrado: "@ + text::trimmed(mmproj))
    } else {
        None
    }
}

/// The settings with which a runtime for a model starts. Whether the files are
/// there is given, and so is the temperature as the bits of a 64-bit float.
pub fn build_settings(
    model: &str,
    mmproj: &str,
    model_there: bool,
    mmproj_there: bool,
    p: &EngineParams,
    temp: u64,
) -> (r: Result<RuntimeSettings, String>)
    ensures
        match r {
            Ok(s) => {
                &&& missing_file(model@, mmproj@, model_there, mmproj_there) is None
                &&& s.model_path@ == model@
                &&& s.ctx == p.ctx
                &&& s.n_predict == p.n_predict
                &&& s.n_batch == 128
                &&& s.n_ubatch == 128
                &&& s.temp == temp
                &&& s.top_p == TOP_P_BITS
                &&& s.top_k == 40
                &&& text::opt_view(s.mmproj_path) == if config::blank(mmproj@) {
                    None
                } else {
                    Some(text::trimmed(mmproj@))
                }
                &&& s.ngl == Some(p.ngl)
                &&& s.system_prompt is None
            },
            Err(e) => missing_file(model@, mmproj@, model_there, mmproj_there) == Some(e@),
        },
{
    if !model_there {
        return Err(
            text::cat3(
                "modelo nao encontrado: ",
                model,
                " — verifique o caminho no config.json (ou use --model)",
            ),
        );
    }
    let path = text::trim(mmproj);
    let blank = config::is_blank(mmproj);
    if !blank && !mmproj_there {
        return Err(text::cat2("arquivo mmproj nao encontrado: ", path.as_str()));
    }
    Ok(
        RuntimeSettings {
            model_path: model.to_string(),
            ctx: p.ctx,
            n_predict: p.n_predict,
            n_batch: 128,
            n_ubatch: 128,
            temp,
            top_p: TOP_P_BITS,
            top_k: 40,
            mmproj_path: if blank {
                None
            } else {
                Some(path)
            },
            ngl: Some(p.ngl),
            system_prompt: None,
        },
    )
}

/// The calls that set a runtime up once it has started.
pub open spec fn setup_calls(p: EngineParams) -> Seq<ParamView> {
    let base = seq![
        ParamView::UseJinja(true),
        ParamView::EnableReasoning(1),
        ParamView::SetString { name: "cache-type-k"@, value: p.cache_type_k@ },
        ParamView::SetString { name: "cache-type-v"@, value: p.cache_type_v@ },
        ParamView::SetInt { name: "threads"@, value: p.threads },
        ParamView::SetInt { name: "threads-batch"@, value: p.threads_batch },
        ParamView::SetString { name: "flash-attn"@, value: p.flash_attn@ },
    ];
    if p.spec_type@ == "draft-mtp"@ {
        base + seq![
            ParamView::SetOption { name: "--spec-type"@, value: "draft-mtp"@ },
            ParamView::SetOption { name: "--spec-draft-ngl"@, value: text::decimal(999) },
            ParamView::SetOption { name: "--spec-draft-backend-sampling"@, value: "off"@ },
            ParamView::SetInt { name: "n-gpu-layers-draft"@, value: p.ngl as i64 },
            ParamView::SetInt { name: "spec-draft-ngl"@, value: p.ngl as i64 },
            ParamView::SetString { name: "spec-draft-device"@, value: "Vulkan0"@ },
        ]
    } else {
        base.push(ParamView::SetOption { name: "--spec-type"@, value: "none"@ })
    }
}

/// Plans the calls that set a runtime up.
pub fn setup_plan(p: &EngineParams) -> (r: StartPlan)
    ensures
        text::views(r.calls@) == runtime::runnable(setup_calls(*p)),
        text::opt_view(r.stop) == runtime::stop_of(setup_calls(*p)),
{
    let mut calls: Vec<ParamCall> = Vec::new();
    calls.push(ParamCall::UseJinja(true));
    calls.push(ParamCall::EnableReasoning(1));
    calls.push(
        ParamCall::SetString {
            name: "cache-type-k".to_string(),
            value: p.cache_type_k.as_str().to_string(),
        },
    );
    calls.push(
        ParamCall::SetString {
            name: "cache-type-v".to_string(),
            value: p.cache_type_v.as_str().to_string(),
        },
    );
    calls.push(ParamCall::SetInt { name: "threads".to_string(), value: p.threads });
    calls.push(ParamCall::SetInt { name: "threads-batch".to_string(), value: p.threads_batch });
    calls.push(
        ParamCall::SetString {
            name: "flash-attn".to_string(),
            value: p.flash_attn.as_str().to_string(),
        },
    );
    if same(p.spec_type.as_str(), "draft-mtp") {
        let ngl: i64 = #[verifier::truncate]
        (p.ngl as i64);
        calls.push(
            ParamCall::SetOption {
                name: "--spec-type".to_string(),
                value: "draft-mtp".to_string(),
            },
        );
        calls.push(
            ParamCall::SetOption {
                name: "--spec-draft-ngl".to_string(),
                value: text::write_u64(999),
            },
        );
        calls.push(
            ParamCall::SetOption {
                name: "--spec-draft-backend-sampling".to_string(),
                value: "off".to_string(),
            },
        );
        calls.push(ParamCall::SetInt { name: "n-gpu-layers-draft".to_string(), value: ngl });
        calls.push(ParamCall::SetInt { name: "spec-draft-ngl".to_string(), value: ngl });
        calls.push(
            ParamCall::SetString {
                name: "spec-draft-device".to_string(),
                value: "Vulkan0".to_string(),
            },
        );
    } else {
        calls.push(
            ParamCall::SetOption { name: "--spec-type".to_string(), value: "none".to_string() },
        );
    }
    assert(text::views(calls@) =~= setup_calls(*p));
    runtime::plan_calls(&calls)
}

proof fn lemma_flags()
    ensures
        "--model"@ != "--mmproj"@,
        "--model"@ != "--temp"@,
        "--model"@ != "--spec"@,
        "--model"@ != "--mode"@,
        "--model"@ != "--headless"@,
        "--model"@ != "--dir"@,
        "--model"@ != "--persona"@,
        "--model"@ != "--ngl"@,
        "--model"@ != "--ctx"@,
        "--model"@ != "--n-predict"@,
        "--model"@ != "-h"@,
        "--model"@ != "--help"@,
        "--model"@ != "--no-tools"@,
        "--mmproj"@ != "--temp"@,
        "--mmproj"@ != "--spec"@,
        "--mmproj"@ != "--mode"@,
        "--mmproj"@ != "--headless"@,
        "--mmproj"@ != "--dir"@,
        "--mmproj"@ != "--persona"@,
        "--mmproj"@ != "--ngl"@,
        "--mmproj"@ != "--ctx"@,
        "--mmproj"@ != "--n-predict"@,
        "--mmproj"@ != "-h"@,
        "--mmproj"@ != "--help"@,
        "--mmproj"@ != "--no-tools"@,
        "--temp"@ != "--spec"@,
        "--temp"@ != "--mode"@,
        "--temp"@ != "--headless"@,
        "--temp"@ != "--dir"@,
        "--temp"@ != "--persona"@,
        "--temp"@ != "--ngl"@,
        "--temp"@ != "--ctx"@,
        "--temp"@ != "--n-predict"@,
        "--temp"@ != "-h"@,
        "--temp"@ != "--help"@,
        "--temp"@ != "--no-tools"@,
        "--spec"@ != "--mode"@,
        "--spec"@ != "--headless"@,
        "--spec"@ != "--dir"@,
        "--spec"@ != "--persona"@,
        "--spec"@ != "--ngl"@,
        "--spec"@ != "--ctx"@,
        "--spec"@ != "--n-predict"@,
        "--spec"@ != "-h"@,
        "--spec"@ != "--help"@,
        "--spec"@ != "--no-tools"@,
        "--mode"@ != "--headless"@,
        "--mode"@ != "--dir"@,
        "--mode"@ != "--persona"@,
        "--mode"@ != "--ngl"@,
        "--mode"@ != "--ctx"@,
        "--mode"@ != "--n-predict"@,
        "--mode"@ != "-h"@,
        "--mode"@ != "--help"@,
        "--mode"@ != "--no-tools"@,
        "--headless"@ != "--dir"@,
        "--headless"@ != "--persona"@,
        "--headless"@ != "--ngl"@,
        "--headless"@ != "--ctx"@,
        "--headless"@ != "--n-predict"@,
        "--headless"@ != "-h"@,
        "--headless"@ != "--help"@,
        "--headless"@ != "--no-tools"@,
        "--dir"@ != "--persona"@,
        "--dir"@ != "--ngl"@,
        "--dir"@ != "--ctx"@,
        "--dir"@ != "--n-predict"@,
        "--dir"@ != "-h"@,
        "--dir"@ != "--help"@,
        "--dir"@ != "--no-tools"@,
        "--persona"@ != "--ngl"@,
        "--persona"@ != "--ctx"@,
        "--persona"@ != "--n-predict"@,
        "--persona"@ != "-h"@,
        "--persona"@ != "--help"@,
        "--persona"@ != "--no-tools"@,
        "--ngl"@ != "--ctx"@,
        "--ngl"@ != "--n-predict"@,
        "--ngl"@ != "-h"@,
        "--ngl"@ != "--help"@,
        "--ngl"@ != "--no-tools"@,
        "--ctx"@ != "--n-predict"@,
        "--ctx"@ != "-h"@,
        "--ctx"@ != "--help"@,
        "--ctx"@ != "--no-tools"@,
        "--n-predict"@ != "-h"@,
        "--n-predict"@ != "--help"@,
        "--n-predict"@ != "--no-tools"@,
        "-h"@ != "--help"@,
        "-h"@ != "--no-tools"@,
        "--help"@ != "--no-tools"@,
{
    reveal_strlit("--model");
    reveal_strlit("--mmproj");
    reveal_strlit("--temp");
    reveal_strlit("--spec");
    reveal_strlit("--mode");
    reveal_strlit("--headless");
    reveal_strlit("--dir");
    reveal_strlit("--persona");
    reveal_strlit("--ngl");
    reveal_strlit("--ctx");
    reveal_strlit("--n-predict");
    reveal_strlit("-h");
    reveal_strlit("--help");
    reveal_strlit("--no-tools");
    assert("--model"@.len() == 7);
    assert("--mmproj"@.len() == 8);
    assert("--temp"@.len() == 6);
    assert("--spec"@.len() == 6);
    assert("--mode"@.len() == 6);
    assert("--headless"@.len() == 10);
    assert("--dir"@.len() == 5);
    assert("--persona"@.len() == 9);
    assert("--ngl"@.len() == 5);
    assert("--ctx"@.len() == 5);
    assert("--n-predict"@.len() == 11);
    assert("-h"@.len() == 2);
    assert("--help"@.len() == 6);
    assert("--no-tools"@.len() == 10);
    assert("--temp"@[2] != "--spec"@[2]);
    assert("--temp"@[2] != "--mode"@[2]);
    assert("--temp"@[2] != "--help"@[2]);
    assert("--spec"@[2] != "--mode"@[2]);
    assert("--spec"@[2] != "--help"@[2]);
    assert("--mode"@[2] != "--help"@[2]);
    assert("--headless"@[2] != "--no-tools"@[2]);
    assert("--dir"@[2] != "--ngl"@[2]);
    assert("--dir"@[2] != "--ctx"@[2]);
    assert("--ngl"@[2] != "--ctx"@[2]);
}

proof fn lemma_asked_behind(before: Seq<Seq<char>>, rest: Seq<Seq<char>>, i: int, c: CliView)
    requires
        0 <= i <= rest.len(),
    ensures
        asked_from(before + rest, before.len() + i, c) == asked_from(rest, i, c),
    decreases rest.len() - i,
{
    let all = before + rest;
    let n = before.len() as int;
    if i < rest.len() {
        assert(all[n + i] == rest[i]);
        if i + 1 < rest.len() {
            assert(all[n + i + 1] == rest[i + 1]);
            lemma_asked_behind(before, rest, i + 2, with_value(c, rest[i], rest[i + 1]));
        }
        lemma_asked_behind(before, rest, i + 1, CliView { tools: Some(false), ..c });
        lemma_asked_behind(before, rest, i + 1, c);
    }
}

proof fn lemma_two_words(flag: Seq<char>, v: Seq<char>, rest: Seq<Seq<char>>, c: CliView)
    requires
        takes_value(flag),
        flag != "-h"@,
        flag != "--help"@,
    ensures
        asked_from(seq![flag, v] + rest, 0, c) == asked_from(rest, 0, with_value(c, flag, v)),
{
    let before = seq![flag, v];
    let all = before + rest;
    assert(all[0] == flag && all[1] == v);
    lemma_asked_behind(before, rest, 0, with_value(c, flag, v));
    assert(asked_from(all, 0, c) == asked_from(all, 2, with_value(c, flag, v)));
}

proof fn lemma_count_is_read(n: usize)
    ensures
        count_in(text::decimal(n as nat)) == Some(n),
{
    let s = text::decimal(n as nat);
    text::law_decimal_is_read_back(n as nat);
    assert(text::is_digit(s[0]));
    assert(s.subrange(0, 1)[0] == s[0]);
    if text::has_prefix(s, seq!['-']) {
        assert(s.subrange(0, 1)[0] == '-');
    }
}

/// Each option sets its own setting to the argument behind it, a count to the number that the
/// argument writes, and nothing else; the arguments behind that one are read on.
pub proof fn law_option_sets_its_setting(
    c: CliView,
    v: Seq<char>,
    n: usize,
    rest: Seq<Seq<char>>,
)
    ensures
        asked_from(seq!["--model"@, v] + rest, 0, c) == asked_from(
            rest,
            0,
            CliView { model: Some(v), ..c },
        ),
        asked_from(seq!["--mmproj"@, v] + rest, 0, c) == asked_from(
            rest,
            0,
            CliView { mmproj: Some(v), ..c },
        ),
        asked_from(seq!["--temp"@, v] + rest, 0, c) == asked_from(
            rest,
            0,
            CliView { temp: Some(v), ..c },
        ),
        asked_from(seq!["--spec"@, v] + rest, 0, c) == asked_from(
            rest,
            0,
            CliView { spec_type: Some(v), ..c },
        ),
        asked_from(seq!["--mode"@, v] + rest, 0, c) == asked_from(
            rest,
            0,
            CliView { mode: Some(v), ..c },
        ),
        asked_from(seq!["--headless"@, v] + rest, 0, c) == asked_from(
            rest,
            0,
            CliView { headless: Some(v), ..c },
        ),
        asked_from(seq!["--dir"@, v] + rest, 0, c) == asked_from(
            rest,
            0,
            CliView { dir: Some(v), ..c },
        ),
        asked_from(seq!["--persona"@, v] + rest, 0, c) == asked_from(
            rest,
            0,
            CliView { persona: Some(v), ..c },
        ),
        asked_from(seq!["--ngl"@, text::decimal(n as nat)] + rest, 0, c) == asked_from(
            rest,
            0,
            CliView { ngl: Some(n), ..c },
        ),
        asked_from(seq!["--ctx"@, text::decimal(n as nat)] + rest, 0, c) == asked_from(
            rest,
            0,
            CliView { ctx: Some(n), ..c },
        ),
        asked_from(seq!["--n-predict"@, text::decimal(n as nat)] + rest, 0, c) == asked_from(
            rest,
            0,
            CliView { n_predict: Some(n), ..c },
        ),
        asked_from(seq!["--no-tools"@] + rest, 0, c) == asked_from(
            rest,
            0,
            CliView { tools: Some(false), ..c },
        ),
        asked_from(seq!["--help"@] + rest, 0, c) is None,
        asked_from(seq!["-h"@] + rest, 0, c) is None,
        asked_from(Seq::empty(), 0, c) == Some(c),
{
    lemma_flags();
    lemma_count_is_read(n);
    lemma_two_words("--model"@, v, rest, c);
    lemma_two_words("--mmproj"@, v, rest, c);
    lemma_two_words("--temp"@, v, rest, c);
    lemma_two_words("--spec"@, v, rest, c);
    lemma_two_words("--mode"@, v, rest, c);
    lemma_two_words("--headless"@, v, rest, c);
    lemma_two_words("--dir"@, v, rest, c);
    lemma_two_words("--persona"@, v, rest, c);
    lemma_two_words("--ngl"@, text::decimal(n as nat), rest, c);
    lemma_two_words("--ctx"@, text::decimal(n as nat), rest, c);
    lemma_two_words("--n-predict"@, text::decimal(n as nat), rest, c);
    let off = seq!["--no-tools"@];
    assert((off + rest)[0] == "--no-tools"@);
    lemma_asked_behind(off, rest, 0, CliView { tools: Some(false), ..c });
    assert((seq!["--help"@] + rest)[0] == "--help"@);
    assert((seq!["-h"@] + rest)[0] == "-h"@);
}

/// What the command line leaves open is as configured: the directory, or the current one, the
/// projection file, the speculation, and the mode, which is solo.
pub proof fn law_rest_is_as_configured(
    c: ConfigView,
    cwd: Seq<char>,
    config_path: Seq<char>,
    bits: u32,
    dir: Seq<char>,
)
    ensures
        ({
            let e = settled(asks_nothing(), c, Some(bits), cwd, config_path);
            &&& e.temp == bits
            &&& e.mmproj == start_local(c).mmproj
            &&& e.spec_type == start_local(c).spec_type
            &&& c.dir == Some(dir) ==> e.dir == dir
            &&& c.dir is None ==> e.dir == cwd
            &&& e.mode == "solo"@
            &&& e.headless is None
            &&& e.threads == c.threads
            &&& e.threads_batch == c.threads_batch
            &&& e.flash_attn == c.flash_attn
            &&& e.cache_type_k == c.cache_type_k
            &&& e.cache_type_v == c.cache_type_v
            &&& e.config_path == config_path
        }),
        settled(
            (CliView { headless: Some(dir), ..asks_nothing() }),
            c,
            None,
            cwd,
            config_path,
        ).headless == Some(dir),
{
}

/// The program starts with the selected local provider, or else the first; it is remote exactly
/// where the selected provider is.
pub proof fn law_selected_provider_starts(c: ConfigView, i: int)
    ensures
        0 <= i < c.local.len() && c.selected == Some(c.local[i].id) && (forall|j: int|
            0 <= j < i ==> (#[trigger] c.local[j]).id != c.local[i].id) ==> start_local(c)
            == c.local[i],
        c.selected is None && c.local.len() > 0 ==> start_local(c) == c.local[0],
        c.selected is None ==> !is_remote(c),
        0 <= i < c.cloud.len() && c.selected == Some(c.cloud[i].id) ==> is_remote(c),
{
    if 0 <= i < c.local.len() && (forall|j: int|
        0 <= j < i ==> (#[trigger] c.local[j]).id != c.local[i].id) {
        lemma_local_found(c.local, i, 0);
    }
    if 0 <= i < c.cloud.len() {
        lemma_cloud_is_found(c.cloud, i, 0);
    }
}

proof fn lemma_local_found(v: Seq<LocalView>, i: int, from: int)
    requires
        0 <= from <= i < v.len(),
        forall|j: int| 0 <= j < i ==> (#[trigger] v[j]).id != v[i].id,
    ensures
        provider::local_from(v, v[i].id, from) == Some(i),
    decreases i - from,
{
    if from < i {
        assert(v[from].id != v[i].id);
        lemma_local_found(v, i, from + 1);
    }
}

proof fn lemma_cloud_is_found(v: Seq<config::CloudView>, i: int, from: int)
    requires
        0 <= from <= i < v.len(),
    ensures
        provider::cloud_from(v, v[i].id, from) is Some,
    decreases i - from,
{
    if v[from].id != v[i].id {
        lemma_cloud_is_found(v, i, from + 1);
    }
}

/// The path of a model is asked for exactly where a local model is to run on the screen and a file
/// that it needs is missing; a missing file stops the loading and is named.
pub proof fn law_missing_file_is_noticed(
    e: EffectiveView,
    model: Seq<char>,
    mmproj: Seq<char>,
)
    ensures
        e.remote_only || e.headless is Some ==> !setup_needed(e, false, false),
        !e.remote_only && e.headless is None ==> setup_needed(e, false, true),
        text::trimmed(e.model).len() > 0 && text::trimmed(e.mmproj).len() == 0 ==> !setup_needed(
            e,
            true,
            false,
        ),
        text::trimmed(e.model).len() > 0 ==> !setup_needed(e, true, true),
        missing_file(model, mmproj, true, true) is None,
        missing_file(model, mmproj, false, true) is Some,
        text::trimmed(mmproj).len() == 0 ==> missing_file(model, mmproj, true, false) is None,
        text::trimmed(mmproj).len() > 0 ==> missing_file(model, mmproj, true, false) == Some(
            "arquivo mmproj nao encontrado: "@ + text::trimmed(mmproj),
        ),
{
}

/// A run without a screen prints the answer as it comes and everything else beside it, in its own
/// words.
pub proof fn law_answer_is_the_output(s: Seq<char>, name: Seq<char>)
    ensures
        printed(ManagerEventView::Stream(GenerationView::Content(s))) == ReportView::Out(s),
        printed(ManagerEventView::Stream(GenerationView::Reasoning(s))) matches ReportView::Note(t)
            && text::has_suffix(t, s),
        printed(ManagerEventView::ToolResult(name, s)) == ReportView::Note(
            "\x1b[33m[resultado de "@ + name + "]\x1b[0m\n"@ + s + "\n\x1b[33m---\x1b[0m"@,
        ),
        printed(ManagerEventView::ToolStart(name)) == ReportView::Note(
            "\x1b[35m[tool] "@ + name + "\x1b[0m"@,
        ),
        printed(ManagerEventView::Status(s)) == ReportView::Note(
            "\x1b[90m[status] "@ + s + "\x1b[0m"@,
        ),
{
    let t = "\x1b[90m[raciocinio]\x1b[0m "@ + s;
    assert(t.subrange(t.len() - s.len(), t.len() as int) =~= s);
}

/// The engine is set up with the settings as they are.
pub proof fn law_engine_has_settings(p: EngineParams)
    ensures
        ({
            let c = setup_calls(p);
            &&& c.contains(
                (ParamView::SetString { name: "cache-type-k"@, value: p.cache_type_k@ }),
            )
            &&& c.contains(
                (ParamView::SetString { name: "cache-type-v"@, value: p.cache_type_v@ }),
            )
            &&& c.contains((ParamView::SetInt { name: "threads"@, value: p.threads }))
            &&& c.contains((ParamView::SetInt { name: "threads-batch"@, value: p.threads_batch }))
            &&& c.contains((ParamView::SetString { name: "flash-attn"@, value: p.flash_attn@ }))
            &&& p.spec_type@ == "draft-mtp"@ ==> c.contains(
                (ParamView::SetOption { name: "--spec-type"@, value: "draft-mtp"@ }),
            ) && c.contains(
                (ParamView::SetInt { name: "spec-draft-ngl"@, value: p.ngl as i64 }),
            )
            &&& p.spec_type@ != "draft-mtp"@ ==> c.contains(
                (ParamView::SetOption { name: "--spec-type"@, value: "none"@ }),
            )
        }),
{
    let c = setup_calls(p);
    assert(c[2] == (ParamView::SetString { name: "cache-type-k"@, value: p.cache_type_k@ }));
    assert(c[3] == (ParamView::SetString { name: "cache-type-v"@, value: p.cache_type_v@ }));
    assert(c[4] == (ParamView::SetInt { name: "threads"@, value: p.threads }));
    assert(c[5] == (ParamView::SetInt { name: "threads-batch"@, value: p.threads_batch }));
    assert(c[6] == (ParamView::SetString { name: "flash-attn"@, value: p.flash_attn@ }));
    if p.spec_type@ == "draft-mtp"@ {
        assert(c[7] == (ParamView::SetOption { name: "--spec-type"@, value: "draft-mtp"@ }));
        assert(c[11] == (ParamView::SetInt { name: "spec-draft-ngl"@, value: p.ngl as i64 }));
    } else {
        assert(c[7] == (ParamView::SetOption { name: "--spec-type"@, value: "none"@ }));
    }
}

} // verus!
