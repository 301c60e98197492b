//! The configuration file: local and remote providers and which of them is active.

use vstd::prelude::*;

use crate::text;

verus! {

pub const DEFAULT_MODEL: &'static str = "/run/media/johnathan/Novo volume/Qwen3.8-27B-MTP-Q4_K_M.gguf";

pub const DEFAULT_OPENAI_BASE_URL: &'static str = "https://api.openai.com/v1";

pub const DEFAULT_ANTHROPIC_BASE_URL: &'static str = "https://api.anthropic.com";

pub const DEFAULT_GOOGLE_BASE_URL: &'static str = "https://generativelanguage.googleapis.com/v1beta";

pub const DEFAULT_PERSONA: &'static str = "Voce e o drill, um agente de codigo que trabalha em um repositorio local. Voce recebeu um conjunto de ferramentas (read_file, write_file, list_dir, run_command). Sempre que precisar inspecionar arquivos, editar codigo ou executar comandos, use as ferramentas em vez de inventar respostas. Quando terminar a tarefa, responda ao usuario com um resumo claro do que fez. Responda em portugues, de forma concisa e objetiva.";

/// The default temperature, 0.6, as the bit pattern of a 32-bit float.
pub const DEFAULT_TEMP_BITS: u32 = 0x3f19_999a;

/// The wire format of a remote provider.
#[derive(Debug, Clone, Copy, PartialEq, Eq, Structural)]
pub enum CloudKind {
    OpenAi,
    Anthropic,
    Google,
}

impl Default for CloudKind {
    fn default() -> (r: CloudKind)
        ensures
            r == CloudKind::OpenAi,
    {
        CloudKind::OpenAi
    }
}

/// The name of a wire format.
pub open spec fn kind_label(k: CloudKind) -> Seq<char> {
    match k {
        CloudKind::OpenAi => "openai"@,
        CloudKind::Anthropic => "anthropic"@,
        CloudKind::Google => "google"@,
    }
}

/// The address at which a vendor answers.
pub open spec fn kind_base_url(k: CloudKind) -> Seq<char> {
    match k {
        CloudKind::OpenAi => DEFAULT_OPENAI_BASE_URL@,
        CloudKind::Anthropic => DEFAULT_ANTHROPIC_BASE_URL@,
        CloudKind::Google => DEFAULT_GOOGLE_BASE_URL@,
    }
}

impl CloudKind {
    pub fn label(&self) -> (r: &'static str)
        ensures
            r@ == kind_label(*self),
    {
        match self {
            CloudKind::OpenAi => "openai",
            CloudKind::Anthropic => "anthropic",
            CloudKind::Google => "google",
        }
    }

    pub fn base_url_default(&self) -> (r: &'static str)
        ensures
            r@ == kind_base_url(*self),
    {
        match self {
            CloudKind::OpenAi => DEFAULT_OPENAI_BASE_URL,
            CloudKind::Anthropic => DEFAULT_ANTHROPIC_BASE_URL,
            CloudKind::Google => DEFAULT_GOOGLE_BASE_URL,
        }
    }
}

/// A model that runs in the local runtime. The temperature is carried as the bit pattern of a
/// 32-bit float.
#[derive(Debug, PartialEq)]
pub struct LocalProvider {
    pub id: String,
    pub name: String,
    pub model: String,
    pub ngl: usize,
    pub ctx: usize,
    pub n_predict: usize,
    pub temp: u32,
    pub spec_type: String,
    /// The projection file of a multi-modal model; empty where it has none.
    pub mmproj: String,
}

/// The model of a local provider.
#[verifier::ext_equal]
pub struct LocalView {
    pub id: Seq<char>,
    pub name: Seq<char>,
    pub model: Seq<char>,
    pub ngl: nat,
    pub ctx: nat,
    pub n_predict: nat,
    pub temp: u32,
    pub spec_type: Seq<char>,
    pub mmproj: Seq<char>,
}

impl View for LocalProvider {
    type V = LocalView;

    open spec fn view(&self) -> LocalView {
        LocalView {
            id: self.id@,
            name: self.name@,
            model: self.model@,
            ngl: self.ngl as nat,
            ctx: self.ctx as nat,
            n_predict: self.n_predict as nat,
            temp: self.temp,
            spec_type: self.spec_type@,
            mmproj: self.mmproj@,
        }
    }
}

/// The local provider that is there when none is configured.
pub open spec fn default_local() -> LocalView {
    LocalView {
        id: ""@,
        name: "local (GGUF)"@,
        model: DEFAULT_MODEL@,
        ngl: 999,
        ctx: 8192,
        n_predict: 1024,
        temp: DEFAULT_TEMP_BITS,
        spec_type: "draft-mtp"@,
        mmproj: ""@,
    }
}

impl Default for LocalProvider {
    fn default() -> (r: LocalProvider)
        ensures
            r@ == default_local(),
    {
        LocalProvider {
            id: "".to_string(),
            name: "local (GGUF)".to_string(),
            model: DEFAULT_MODEL.to_string(),
            ngl: 999,
            ctx: 8192,
            n_predict: 1024,
            temp: DEFAULT_TEMP_BITS,
            spec_type: "draft-mtp".to_string(),
            mmproj: "".to_string(),
        }
    }
}

impl LocalProvider {
    pub fn copy(&self) -> (r: LocalProvider)
        ensures
            r@ == self@,
    {
        LocalProvider {
            id: self.id.clone(),
            name: self.name.clone(),
            model: self.model.clone(),
            ngl: self.ngl,
            ctx: self.ctx,
            n_predict: self.n_predict,
            temp: self.temp,
            spec_type: self.spec_type.clone(),
            mmproj: self.mmproj.clone(),
        }
    }
}

/// A model that a vendor runs. `ctx` only shows how much of the context is used.
#[derive(Debug, PartialEq)]
pub struct CloudProvider {
    pub id: String,
    pub name: String,
    pub kind: CloudKind,
    pub base_url: String,
    pub model: String,
    pub router: String,
    /// Where it is empty, the vendor's environment variable counts.
    pub api_key: String,
    /// How hard the model thinks: empty, `low`, `medium` or `high`.
    pub reasoning_effort: String,
    pub ctx: usize,
}

/// The model of a remote provider.
#[verifier::ext_equal]
pub struct CloudView {
    pub id: Seq<char>,
    pub name: Seq<char>,
    pub kind: CloudKind,
    pub base_url: Seq<char>,
    pub model: Seq<char>,
    pub router: Seq<char>,
    pub api_key: Seq<char>,
    pub reasoning_effort: Seq<char>,
    pub ctx: nat,
}

impl View for CloudProvider {
    type V = CloudView;

    open spec fn view(&self) -> CloudView {
        CloudView {
            id: self.id@,
            name: self.name@,
            kind: self.kind,
            base_url: self.base_url@,
            model: self.model@,
            router: self.router@,
            api_key: self.api_key@,
            reasoning_effort: self.reasoning_effort@,
            ctx: self.ctx as nat,
        }
    }
}

/// The remote provider before anything is filled in.
pub open spec fn default_cloud() -> CloudView {
    CloudView {
        id: ""@,
        name: "cloud"@,
        kind: CloudKind::OpenAi,
        base_url: DEFAULT_OPENAI_BASE_URL@,
        model: ""@,
        router: ""@,
        api_key: ""@,
        reasoning_effort: "medium"@,
        ctx: 8192,
    }
}

impl Default for CloudProvider {
    fn default() -> (r: CloudProvider)
        ensures
            r@ == default_cloud(),
    {
        CloudProvider {
            id: "".to_string(),
            name: "cloud".to_string(),
            kind: CloudKind::OpenAi,
            base_url: DEFAULT_OPENAI_BASE_URL.to_string(),
            model: "".to_string(),
            router: "".to_string(),
            api_key: "".to_string(),
            reasoning_effort: "medium".to_string(),
            ctx: 8192,
        }
    }
}

impl CloudProvider {
    pub fn copy(&self) -> (r: CloudProvider)
        ensures
            r@ == self@,
    {
        CloudProvider {
            id: self.id.clone(),
            name: self.name.clone(),
            kind: self.kind,
            base_url: self.base_url.clone(),
            model: self.model.clone(),
            router: self.router.clone(),
            api_key: self.api_key.clone(),
            reasoning_effort: self.reasoning_effort.clone(),
            ctx: self.ctx,
        }
    }
}

/// The configured providers.
#[derive(Debug, PartialEq)]
pub struct Providers {
    pub local: Vec<LocalProvider>,
    pub cloud: Vec<CloudProvider>,
}

/// The configuration.
#[derive(Debug, PartialEq)]
pub struct DrillConfig {
    /// The model of the local provider that is made up where none is configured.
    pub model: String,
    pub tools: bool,
    pub persona: String,
    pub dir: Option<String>,
    pub threads: i64,
    pub threads_batch: i64,
    pub flash_attn: String,
    pub cache_type_k: String,
    pub cache_type_v: String,
    pub providers: Providers,
    /// The id of the active provider.
    pub provider_selected_uuid: Option<String>,
}

/// The model of a configuration.
#[verifier::ext_equal]
pub struct ConfigView {
    pub model: Seq<char>,
    pub tools: bool,
    pub persona: Seq<char>,
    pub dir: Option<Seq<char>>,
    pub threads: int,
    pub threads_batch: int,
    pub flash_attn: Seq<char>,
    pub cache_type_k: Seq<char>,
    pub cache_type_v: Seq<char>,
    pub local: Seq<LocalView>,
    pub cloud: Seq<CloudView>,
    pub selected: Option<Seq<char>>,
}

impl View for DrillConfig {
    type V = ConfigView;

    open spec fn view(&self) -> ConfigView {
        ConfigView {
            model: self.model@,
            tools: self.tools,
            persona: self.persona@,
            dir: text::opt_view(self.dir),
            threads: self.threads as int,
            threads_batch: self.threads_batch as int,
            flash_attn: self.flash_attn@,
            cache_type_k: self.cache_type_k@,
            cache_type_v: self.cache_type_v@,
            local: text::views(self.providers.local@),
            cloud: text::views(self.providers.cloud@),
            selected: text::opt_view(self.provider_selected_uuid),
        }
    }
}

/// The configuration that is there when no file is.
pub open spec fn default_config() -> ConfigView {
    ConfigView {
        model: DEFAULT_MODEL@,
        tools: true,
        persona: DEFAULT_PERSONA@,
        dir: None,
        threads: 12,
        threads_batch: 12,
        flash_attn: "on"@,
        cache_type_k: "q4_0"@,
        cache_type_v: "q4_0"@,
        local: Seq::empty(),
        cloud: Seq::empty(),
        selected: None,
    }
}

impl Default for DrillConfig {
    fn default() -> (r: DrillConfig)
        ensures
            r@ == default_config(),
    {
        let r = DrillConfig {
            model: DEFAULT_MODEL.to_string(),
            tools: true,
            persona: DEFAULT_PERSONA.to_string(),
            dir: None,
            threads: 12,
            threads_batch: 12,
            flash_attn: "on".to_string(),
            cache_type_k: "q4_0".to_string(),
            cache_type_v: "q4_0".to_string(),
            providers: Providers { local: Vec::new(), cloud: Vec::new() },
            provider_selected_uuid: None,
        };
        assert(r@ =~= default_config());
        r
    }
}

/// The id of a provider that is made up at `nanos` by the process `pid`.
pub open spec fn made_id(prefix: Seq<char>, nanos: nat, pid: nat) -> Seq<char> {
    prefix + "-"@ + text::hex(nanos) + "-"@ + text::decimal(pid)
}

/// Makes up an id from the time and the process.
pub fn new_id(prefix: &str, nanos: u128, pid: u32) -> (r: String)
    ensures
        r@ == made_id(prefix@, nanos as nat, pid as nat),
{
    let time = text::write_hex(nanos);
    let process = text::write_u64(pid as u64);
    text::cat5(prefix, "-", time.as_str(), "-", process.as_str())
}

/// A text of white space alone, or of nothing.
pub open spec fn blank(s: Seq<char>) -> bool {
    text::trimmed(s).len() == 0
}

/// Whether a text is white space alone, or nothing.
pub fn is_blank(s: &str) -> (r: bool)
    ensures
        r == blank(s@),
{
    let t = text::trim(s);
    t.as_str().unicode_len() == 0
}

/// The local providers: the configured ones, or the default one where nothing is configured.
pub open spec fn some_local(c: ConfigView, nanos: nat, pid: nat) -> Seq<LocalView> {
    if c.local.len() == 0 && c.cloud.len() == 0 {
        seq![
            LocalView {
                model: if blank(c.model) {
                    DEFAULT_MODEL@
                } else {
                    c.model
                },
                id: made_id("local"@, nanos, pid),
                ..default_local()
            },
        ]
    } else {
        c.local
    }
}

/// A local provider with its id and name filled in.
pub open spec fn filled_local(p: LocalView, i: nat, nanos: nat, pid: nat) -> LocalView {
    LocalView {
        id: if blank(p.id) {
            made_id("local"@ + text::decimal(i), nanos, pid)
        } else {
            p.id
        },
        name: if blank(p.name) {
            "local "@ + text::decimal(i + 1)
        } else {
            p.name
        },
        ..p
    }
}

/// A remote provider with its id, name and address filled in.
pub open spec fn filled_cloud(p: CloudView, i: nat, nanos: nat, pid: nat) -> CloudView {
    CloudView {
        id: if blank(p.id) {
            made_id("cloud"@ + text::decimal(i), nanos, pid)
        } else {
            p.id
        },
        name: if blank(p.name) {
            kind_label(p.kind) + " "@ + text::decimal(i + 1)
        } else {
            p.name
        },
        base_url: if blank(p.base_url) {
            kind_base_url(p.kind)
        } else {
            p.base_url
        },
        ..p
    }
}

/// Some provider has the given id.
pub open spec fn has_id(local: Seq<LocalView>, cloud: Seq<CloudView>, id: Seq<char>) -> bool {
    ||| exists|i: int| 0 <= i < local.len() && (#[trigger] local[i]).id == id
    ||| exists|i: int| 0 <= i < cloud.len() && (#[trigger] cloud[i]).id == id
}

/// The active provider: the selected one where there is such a one, or else the first.
pub open spec fn valid_selection(
    local: Seq<LocalView>,
    cloud: Seq<CloudView>,
    selected: Option<Seq<char>>,
) -> Option<Seq<char>> {
    match selected {
        Some(id) if has_id(local, cloud, id) => Some(id),
        _ => if local.len() > 0 {
            Some(local[0].id)
        } else if cloud.len() > 0 {
            Some(cloud[0].id)
        } else {
            None
        },
    }
}

/// A configuration with everything filled in that the rest relies on.
pub open spec fn ensured(c: ConfigView, nanos: nat, pid: nat) -> ConfigView {
    let some = some_local(c, nanos, pid);
    let local = Seq::new(some.len(), |i: int| filled_local(some[i], i as nat, nanos, pid));
    let cloud = Seq::new(c.cloud.len(), |i: int| filled_cloud(c.cloud[i], i as nat, nanos, pid));
    ConfigView { local, cloud, selected: valid_selection(local, cloud, c.selected), ..c }
}

/// What the rest relies on: there is a provider, each has an id and a name, each remote one an
/// address, and the selection is one of them.
pub open spec fn sound(c: ConfigView) -> bool {
    &&& c.local.len() + c.cloud.len() > 0
    &&& forall|i: int|
        0 <= i < c.local.len() ==> !blank((#[trigger] c.local[i]).id) && !blank(c.local[i].name)
    &&& forall|i: int|
        0 <= i < c.cloud.len() ==> !blank((#[trigger] c.cloud[i]).id) && !blank(c.cloud[i].name)
            && !blank(c.cloud[i].base_url)
    &&& c.selected matches Some(id) && has_id(c.local, c.cloud, id)
}

proof fn lemma_not_blank(s: Seq<char>)
    requires
        s.len() > 0,
        !text::white_space(s[0]),
        !text::white_space(s.last()),
    ensures
        !blank(s),
{
    text::lemma_trimmed_same(s);
}

proof fn lemma_made_not_blank(i: nat, nanos: nat, pid: nat, k: CloudKind)
    ensures
        !blank(made_id("local"@, nanos, pid)),
        !blank(made_id("local"@ + text::decimal(i), nanos, pid)),
        !blank(made_id("cloud"@ + text::decimal(i), nanos, pid)),
        !blank("local "@ + text::decimal(i + 1)),
        !blank(kind_label(k) + " "@ + text::decimal(i + 1)),
        !blank(kind_base_url(k)),
        !blank(default_local().name),
{
    reveal_strlit("local");
    reveal_strlit("local ");
    reveal_strlit("cloud");
    reveal_strlit("openai");
    reveal_strlit("anthropic");
    reveal_strlit("google");
    reveal_strlit("local (GGUF)");
    reveal_strlit("https://api.openai.com/v1");
    reveal_strlit("https://api.anthropic.com");
    reveal_strlit("https://generativelanguage.googleapis.com/v1beta");
    text::lemma_decimal_last(pid);
    text::lemma_decimal_last(i + 1);
    lemma_not_blank(made_id("local"@, nanos, pid));
    lemma_not_blank(made_id("local"@ + text::decimal(i), nanos, pid));
    lemma_not_blank(made_id("cloud"@ + text::decimal(i), nanos, pid));
    lemma_not_blank("local "@ + text::decimal(i + 1));
    lemma_not_blank(kind_label(k) + " "@ + text::decimal(i + 1));
    lemma_not_blank(kind_base_url(k));
    lemma_not_blank(default_local().name);
}

/// Filling in makes every configuration sound.
pub proof fn law_ensured_is_sound(c: ConfigView, nanos: nat, pid: nat)
    ensures
        sound(ensured(c, nanos, pid)),
{
    let e = ensured(c, nanos, pid);
    let some = some_local(c, nanos, pid);
    assert forall|i: int| 0 <= i < e.local.len() implies !blank((#[trigger] e.local[i]).id)
        && !blank(e.local[i].name) by {
        lemma_made_not_blank(i as nat, nanos, pid, CloudKind::OpenAi);
        assert(e.local[i] == filled_local(some[i], i as nat, nanos, pid));
    }
    assert forall|i: int| 0 <= i < e.cloud.len() implies !blank((#[trigger] e.cloud[i]).id)
        && !blank(e.cloud[i].name) && !blank(e.cloud[i].base_url) by {
        lemma_made_not_blank(i as nat, nanos, pid, c.cloud[i].kind);
        assert(e.cloud[i] == filled_cloud(c.cloud[i], i as nat, nanos, pid));
    }
    if e.local.len() > 0 {
        assert(e.local[0].id == e.local[0].id);
        assert(has_id(e.local, e.cloud, e.local[0].id));
    } else {
        assert(e.cloud[0].id == e.cloud[0].id);
        assert(has_id(e.local, e.cloud, e.cloud[0].id));
    }
}

/// A sound configuration is left as it is.
pub proof fn law_sound_is_kept(c: ConfigView, nanos: nat, pid: nat)
    requires
        sound(c),
    ensures
        ensured(c, nanos, pid) == c,
{
    let e = ensured(c, nanos, pid);
    assert forall|i: int| 0 <= i < c.local.len() implies e.local[i] == #[trigger] c.local[i] by {
        assert(filled_local(c.local[i], i as nat, nanos, pid) =~= c.local[i]);
    }
    assert forall|i: int| 0 <= i < c.cloud.len() implies e.cloud[i] == #[trigger] c.cloud[i] by {
        assert(filled_cloud(c.cloud[i], i as nat, nanos, pid) =~= c.cloud[i]);
    }
    assert(e.local =~= c.local);
    assert(e.cloud =~= c.cloud);
}

/// Filling in twice does what filling in once does, whenever the second time is.
pub proof fn law_ensure_twice(c: ConfigView, nanos: nat, pid: nat, later: nat, other: nat)
    ensures
        ensured(ensured(c, nanos, pid), later, other) == ensured(c, nanos, pid),
{
    law_ensured_is_sound(c, nanos, pid);
    law_sound_is_kept(ensured(c, nanos, pid), later, other);
}

fn fill_local(p: &LocalProvider, i: usize, nanos: u128, pid: u32) -> (r: (LocalProvider, bool))
    requires
        i < usize::MAX,
    ensures
        r.0@ == filled_local(p@, i as nat, nanos as nat, pid as nat),
        r.1 == (r.0@ != p@),
{
    let mut out = p.copy();
    let mut changed = false;
    proof {
        lemma_made_not_blank(i as nat, nanos as nat, pid as nat, CloudKind::OpenAi);
    }
    if is_blank(p.id.as_str()) {
        let n = text::write_usize(i);
        let prefix = text::cat2("local", n.as_str());
        out.id = new_id(prefix.as_str(), nanos, pid);
        changed = true;
    }
    if is_blank(p.name.as_str()) {
        let n = text::write_usize(i + 1);
        out.name = text::cat2("local ", n.as_str());
        changed = true;
    }
    assert(out@ =~= filled_local(p@, i as nat, nanos as nat, pid as nat));
    (out, changed)
}

fn fill_cloud(p: &CloudProvider, i: usize, nanos: u128, pid: u32) -> (r: (CloudProvider, bool))
    requires
        i < usize::MAX,
    ensures
        r.0@ == filled_cloud(p@, i as nat, nanos as nat, pid as nat),
        r.1 == (r.0@ != p@),
{
    let mut out = p.copy();
    let mut changed = false;
    proof {
        lemma_made_not_blank(i as nat, nanos as nat, pid as nat, p.kind);
    }
    if is_blank(p.id.as_str()) {
        let n = text::write_usize(i);
        let prefix = text::cat2("cloud", n.as_str());
        out.id = new_id(prefix.as_str(), nanos, pid);
        changed = true;
    }
    if is_blank(p.name.as_str()) {
        let n = text::write_usize(i + 1);
        out.name = text::cat3(p.kind.label(), " ", n.as_str());
        changed = true;
    }
    if is_blank(p.base_url.as_str()) {
        out.base_url = p.kind.base_url_default().to_string();
        changed = true;
    }
    assert(out@ =~= filled_cloud(p@, i as nat, nanos as nat, pid as nat));
    (out, changed)
}

/// Whether some provider has the given id.
pub fn knows_id(local: &Vec<LocalProvider>, cloud: &Vec<CloudProvider>, id: &str) -> (r: bool)
    ensures
        r == has_id(text::views(local@), text::views(cloud@), id@),
{
    let ghost l = text::views(local@);
    let ghost c = text::views(cloud@);
    let mut i: usize = 0;
    while i < local.len()
        invariant
            i <= local@.len(),
            l == text::views(local@),
            c == text::views(cloud@),
            forall|k: int| 0 <= k < i ==> (#[trigger] l[k]).id != id@,
        decreases local@.len() - i,
    {
        if text::same(local[i].id.as_str(), id) {
            assert(l[i as int].id == id@);
            return true;
        }
        i = i + 1;
    }
    let mut j: usize = 0;
    while j < cloud.len()
        invariant
            j <= cloud@.len(),
            c == text::views(cloud@),
            forall|k: int| 0 <= k < j ==> (#[trigger] c[k]).id != id@,
        decreases cloud@.len() - j,
    {
        if text::same(cloud[j].id.as_str(), id) {
            assert(c[j as int].id == id@);
            return true;
        }
        j = j + 1;
    }
    false
}

/// Fills in what the rest relies on, and says whether that changed anything. The time and the
/// process go into the ids that are made up.
pub fn ensure_defaults(cfg: &mut DrillConfig, nanos: u128, pid: u32) -> (r: bool)
    ensures
        final(cfg)@ == ensured(old(cfg)@, nanos as nat, pid as nat),
        r == (final(cfg)@ != old(cfg)@),
{
    let ghost c = cfg@;
    let ghost some = some_local(c, nanos as nat, pid as nat);
    let mut changed = false;
    if cfg.providers.local.len() == 0 && cfg.providers.cloud.len() == 0 {
        let mut local = LocalProvider::default();
        if !is_blank(cfg.model.as_str()) {
            local.model = cfg.model.clone();
        }
        local.id = new_id("local", nanos, pid);
        cfg.providers.local.push(local);
        changed = true;
    }
    assert(text::views(cfg.providers.local@) =~= some);
    let ghost added = changed;
    let mut local: Vec<LocalProvider> = Vec::new();
    let mut i: usize = 0;
    let ghost before = cfg.providers.local@;
    while i < cfg.providers.local.len()
        invariant
            i <= cfg.providers.local@.len(),
            cfg.providers.local@ == before,
            some == text::views(before),
            local@.len() == i,
            forall|k: int|
                0 <= k < i ==> (#[trigger] local@[k])@ == filled_local(
                    some[k],
                    k as nat,
                    nanos as nat,
                    pid as nat,
                ),
            changed == (added || exists|k: int| 0 <= k < i && (#[trigger] local@[k])@ != some[k]),
            cfg.providers.cloud@ == old(cfg).providers.cloud@,
            *cfg == (DrillConfig {
                providers: cfg.providers,
                ..*old(cfg)
            }),
        decreases cfg.providers.local@.len() - i,
    {
        let (p, c) = fill_local(&cfg.providers.local[i], i, nanos, pid);
        let ghost was = local@;
        local.push(p);
        proof {
            assert(some[i as int] == before[i as int]@);
            if changed && !added {
                let k = choose|k: int| 0 <= k < i && (#[trigger] was[k])@ != some[k];
                assert(local@[k]@ != some[k]);
            }
            if c {
                assert(local@[i as int]@ != some[i as int]);
            }
        }
        changed = changed || c;
        proof {
            if changed && !added {
                assert(exists|k: int| 0 <= k < i + 1 && (#[trigger] local@[k])@ != some[k]);
            }
            if exists|k: int| 0 <= k < i + 1 && (#[trigger] local@[k])@ != some[k] {
                let k = choose|k: int| 0 <= k < i + 1 && (#[trigger] local@[k])@ != some[k];
                if k < i {
                    assert(was[k]@ != some[k]);
                }
            }
        }
        i = i + 1;
    }
    let ghost local_changed = changed;
    let mut cloud: Vec<CloudProvider> = Vec::new();
    let mut j: usize = 0;
    let ghost clouds = cfg.providers.cloud@;
    while j < cfg.providers.cloud.len()
        invariant
            j <= cfg.providers.cloud@.len(),
            cfg.providers.cloud@ == clouds,
            c.cloud == text::views(clouds),
            cloud@.len() == j,
            forall|k: int|
                0 <= k < j ==> (#[trigger] cloud@[k])@ == filled_cloud(
                    c.cloud[k],
                    k as nat,
                    nanos as nat,
                    pid as nat,
                ),
            changed == (local_changed || exists|k: int|
                0 <= k < j && (#[trigger] cloud@[k])@ != c.cloud[k]),
            *cfg == (DrillConfig {
                providers: cfg.providers,
                ..*old(cfg)
            }),
        decreases cfg.providers.cloud@.len() - j,
    {
        let (p, diff) = fill_cloud(&cfg.providers.cloud[j], j, nanos, pid);
        let ghost was = cloud@;
        cloud.push(p);
        proof {
            assert(c.cloud[j as int] == clouds[j as int]@);
            if changed && !local_changed {
                let k = choose|k: int| 0 <= k < j && (#[trigger] was[k])@ != c.cloud[k];
                assert(cloud@[k]@ != c.cloud[k]);
            }
            if diff {
                assert(cloud@[j as int]@ != c.cloud[j as int]);
            }
        }
        changed = changed || diff;
        proof {
            if exists|k: int| 0 <= k < j + 1 && (#[trigger] cloud@[k])@ != c.cloud[k] {
                let k = choose|k: int| 0 <= k < j + 1 && (#[trigger] cloud@[k])@ != c.cloud[k];
                if k < j {
                    assert(was[k]@ != c.cloud[k]);
                }
            }
        }
        j = j + 1;
    }
    let ghost e = ensured(c, nanos as nat, pid as nat);
    assert(text::views(local@) =~= e.local);
    assert(text::views(cloud@) =~= e.cloud);
    cfg.providers = Providers { local, cloud };
    let keep = match &cfg.provider_selected_uuid {
        Some(id) => knows_id(&cfg.providers.local, &cfg.providers.cloud, id.as_str()),
        None => false,
    };
    let ghost filled_changed = changed;
    if !keep {
        cfg.provider_selected_uuid = if cfg.providers.local.len() > 0 {
            Some(cfg.providers.local[0].id.clone())
        } else if cfg.providers.cloud.len() > 0 {
            Some(cfg.providers.cloud[0].id.clone())
        } else {
            None
        };
        changed = true;
    }
    assert(cfg@ =~= e);
    proof {
        law_ensured_is_sound(c, nanos as nat, pid as nat);
        if added {
            assert(e.local.len() != c.local.len());
        } else {
            if local_changed {
                let k = choose|k: int| 0 <= k < local@.len() && (#[trigger] local@[k])@ != some[k];
                assert(e.local[k] != c.local[k]);
            } else {
                assert(e.local =~= c.local);
            }
        }
        if filled_changed && !local_changed {
            let k = choose|k: int| 0 <= k < cloud@.len() && (#[trigger] cloud@[k])@ != c.cloud[k];
            assert(e.cloud[k] != c.cloud[k]);
        }
        if !filled_changed {
            assert(e.cloud =~= c.cloud);
            assert(e.local =~= c.local);
        }
    }
    changed
}

/// The configuration to start with: the one that the file holds, or the default where there is
/// no file or it cannot be read, filled in; whether it is the default; whether it is to be
/// written back.
pub fn load_or_create(parsed: Option<DrillConfig>, nanos: u128, pid: u32) -> (r: (
    DrillConfig,
    bool,
    bool,
))
    ensures
        ({
            let start = match parsed {
                Some(c) => c@,
                None => default_config(),
            };
            &&& r.0@ == ensured(start, nanos as nat, pid as nat)
            &&& r.1 == (parsed is None)
            &&& r.2 == (parsed is None || r.0@ != start)
        }),
{
    let created = parsed.is_none();
    let mut cfg = match parsed {
        Some(c) => c,
        None => DrillConfig::default(),
    };
    let changed = ensure_defaults(&mut cfg, nanos, pid);
    (cfg, created, created || changed)
}

/// A path below another.
pub open spec fn path_below(base: Seq<char>, rel: Seq<char>) -> Seq<char> {
    if base.len() == 0 || base.last() == '/' {
        base + rel
    } else {
        base + "/"@ + rel
    }
}

/// Appends a relative path to a base path.
pub fn join_path(base: &str, rel: &str) -> (r: String)
    ensures
        r@ == path_below(base@, rel@),
{
    let chars = text::chars_of(base);
    if chars.len() == 0 || chars[chars.len() - 1] == '/' {
        text::cat2(base, rel)
    } else {
        text::cat3(base, "/", rel)
    }
}

/// Where the configuration file lies: at `DRILL_CONFIG` where that is set, or else below the
/// home directory, or else below the working directory.
pub fn config_path(drill_config: Option<String>, home: Option<String>) -> (r: String)
    ensures
        r@ == match drill_config {
            Some(p) => p@,
            None => match home {
                Some(h) => path_below(h@, ".drill/config.json"@),
                None => ".drill/config.json"@,
            },
        },
{
    match drill_config {
        Some(p) => p,
        None => match home {
            Some(h) => join_path(h.as_str(), ".drill/config.json"),
            None => ".drill/config.json".to_string(),
        },
    }
}

/// Filling in changes nothing that was set: the providers stay in order, each keeps its model, its
/// key and its other settings, its id, its name and its address where they are not blank, and a
/// selection of one of them stays.
pub proof fn law_settings_are_kept(c: ConfigView, nanos: nat, pid: nat)
    requires
        c.local.len() + c.cloud.len() > 0,
    ensures
        ({
            let e = ensured(c, nanos, pid);
            &&& e.local.len() == c.local.len()
            &&& e.cloud.len() == c.cloud.len()
            &&& e.model == c.model
            &&& forall|i: int|
                #![trigger c.local[i]]
                0 <= i < c.local.len() ==> {
                    &&& e.local[i] == (LocalView {
                        id: e.local[i].id,
                        name: e.local[i].name,
                        ..c.local[i]
                    })
                    &&& text::trimmed(c.local[i].id).len() > 0 ==> e.local[i].id == c.local[i].id
                    &&& text::trimmed(c.local[i].name).len() > 0 ==> e.local[i].name
                        == c.local[i].name
                }
            &&& forall|i: int|
                #![trigger c.cloud[i]]
                0 <= i < c.cloud.len() ==> {
                    &&& e.cloud[i] == (CloudView {
                        id: e.cloud[i].id,
                        name: e.cloud[i].name,
                        base_url: e.cloud[i].base_url,
                        ..c.cloud[i]
                    })
                    &&& text::trimmed(c.cloud[i].id).len() > 0 ==> e.cloud[i].id == c.cloud[i].id
                    &&& text::trimmed(c.cloud[i].name).len() > 0 ==> e.cloud[i].name
                        == c.cloud[i].name
                    &&& text::trimmed(c.cloud[i].base_url).len() > 0 ==> e.cloud[i].base_url
                        == c.cloud[i].base_url
                    &&& text::trimmed(c.cloud[i].base_url).len() == 0 ==> e.cloud[i].base_url == (
                    match c.cloud[i].kind {
                        CloudKind::OpenAi => "https://api.openai.com/v1"@,
                        CloudKind::Anthropic => "https://api.anthropic.com"@,
                        CloudKind::Google => "https://generativelanguage.googleapis.com/v1beta"@,
                    })
                }
            &&& forall|i: int|
                0 <= i < c.local.len() && c.selected == Some((#[trigger] c.local[i]).id)
                    && text::trimmed(c.local[i].id).len() > 0 ==> e.selected == c.selected
            &&& forall|i: int|
                0 <= i < c.cloud.len() && c.selected == Some((#[trigger] c.cloud[i]).id)
                    && text::trimmed(c.cloud[i].id).len() > 0 ==> e.selected == c.selected
        }),
{
    let e = ensured(c, nanos, pid);
    assert forall|i: int|
        0 <= i < c.local.len() && c.selected == Some((#[trigger] c.local[i]).id) && text::trimmed(
            c.local[i].id,
        ).len() > 0 implies e.selected == c.selected by {
        assert(e.local[i].id == c.local[i].id);
        assert(has_id(e.local, e.cloud, c.local[i].id));
    }
    assert forall|i: int|
        0 <= i < c.cloud.len() && c.selected == Some((#[trigger] c.cloud[i]).id) && text::trimmed(
            c.cloud[i].id,
        ).len() > 0 implies e.selected == c.selected by {
        assert(e.cloud[i].id == c.cloud[i].id);
        assert(has_id(e.local, e.cloud, c.cloud[i].id));
    }
}

/// Where nothing is configured there is one local provider, with the configured model or else the
/// usual one, and it is selected.
pub proof fn law_first_provider_is_local(c: ConfigView, nanos: nat, pid: nat)
    requires
        c.local.len() == 0,
        c.cloud.len() == 0,
    ensures
        ({
            let e = ensured(c, nanos, pid);
            &&& e.local.len() == 1
            &&& e.cloud.len() == 0
            &&& e.selected == Some(e.local[0].id)
            &&& text::trimmed(c.model).len() > 0 ==> e.local[0].model == c.model
            &&& text::trimmed(c.model).len() == 0 ==> e.local[0].model == DEFAULT_MODEL@
        }),
{
    let e = ensured(c, nanos, pid);
    assert(e.local[0].id == e.local[0].id);
    if c.selected is Some && has_id(e.local, e.cloud, c.selected->0) {
        assert(e.local[0].id == c.selected->0);
    }
}

} // verus!
