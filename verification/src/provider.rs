//! The providers at run time: which one is active, and how each is shown.

use vstd::prelude::*;

use crate::config;
use crate::config::{
    CloudKind, CloudProvider, CloudView, ConfigView, DrillConfig, LocalProvider, LocalView,
};
use crate::text;

verus! {

/// The active provider.
#[derive(Debug, PartialEq)]
pub enum Selected {
    Local(LocalProvider),
    Cloud(CloudProvider),
}

/// The model of the active provider.
#[verifier::ext_equal]
pub enum SelectedView {
    Local(LocalView),
    Cloud(CloudView),
}

impl View for Selected {
    type V = SelectedView;

    open spec fn view(&self) -> SelectedView {
        match self {
            Selected::Local(p) => SelectedView::Local(p@),
            Selected::Cloud(p) => SelectedView::Cloud(p@),
        }
    }
}

/// The keys that the environment holds, vendor by vendor.
#[derive(Debug, PartialEq)]
pub struct EnvKeys {
    pub openai: Option<String>,
    pub anthropic: Option<String>,
    pub google: Option<String>,
}

/// The name of the environment variable that holds a vendor's key.
pub open spec fn env_name(k: CloudKind) -> Seq<char> {
    match k {
        CloudKind::OpenAi => "OPENAI_API_KEY"@,
        CloudKind::Anthropic => "ANTHROPIC_API_KEY"@,
        CloudKind::Google => "GOOGLE_API_KEY"@,
    }
}

/// Names the environment variable that holds a vendor's key.
pub fn env_var(k: CloudKind) -> (r: &'static str)
    ensures
        r@ == env_name(k),
{
    match k {
        CloudKind::OpenAi => "OPENAI_API_KEY",
        CloudKind::Anthropic => "ANTHROPIC_API_KEY",
        CloudKind::Google => "GOOGLE_API_KEY",
    }
}

impl EnvKeys {
    /// What the environment holds for a vendor.
    pub open spec fn of(self, k: CloudKind) -> Option<Seq<char>> {
        match k {
            CloudKind::OpenAi => text::opt_view(self.openai),
            CloudKind::Anthropic => text::opt_view(self.anthropic),
            CloudKind::Google => text::opt_view(self.google),
        }
    }

    /// The value of a vendor's variable.
    pub fn get(&self, k: CloudKind) -> (r: Option<&String>)
        ensures
            match r {
                Some(s) => self.of(k) == Some(s@),
                None => self.of(k) is None,
            },
    {
        match k {
            CloudKind::OpenAi => self.openai.as_ref(),
            CloudKind::Anthropic => self.anthropic.as_ref(),
            CloudKind::Google => self.google.as_ref(),
        }
    }
}

/// The key of a remote provider: the configured one, or else the vendor's variable; white space
/// around it does not count, and a blank one is none.
pub open spec fn cloud_key(p: CloudView, env: Option<Seq<char>>) -> Option<Seq<char>> {
    if !config::blank(p.api_key) {
        Some(text::trimmed(p.api_key))
    } else {
        match env {
            Some(v) if !config::blank(v) => Some(text::trimmed(v)),
            _ => None,
        }
    }
}

/// Finds the key of a remote provider.
pub fn resolve_cloud_key(cloud: &CloudProvider, keys: &EnvKeys) -> (r: Option<String>)
    ensures
        text::opt_view(r) == cloud_key(cloud@, keys.of(cloud.kind)),
{
    if !config::is_blank(cloud.api_key.as_str()) {
        return Some(text::trim(cloud.api_key.as_str()));
    }
    match keys.get(cloud.kind) {
        Some(v) => if config::is_blank(v.as_str()) {
            None
        } else {
            Some(text::trim(v.as_str()))
        },
        None => None,
    }
}

/// The line that shows a provider.
pub open spec fn summary_of(s: SelectedView, keys: EnvKeys) -> Seq<char> {
    match s {
        SelectedView::Local(p) => "local: "@ + p.name + " ("@ + p.model + ")"@,
        SelectedView::Cloud(p) => {
            let key = if cloud_key(p, keys.of(p.kind)) is Some {
                "key ok"@
            } else {
                "SEM API KEY"@
            };
            let shown = config::kind_label(p.kind) + ": "@ + p.model + " ["@ + key + "] @ "@
                + p.base_url + " ("@ + p.name + ")"@;
            if config::blank(p.reasoning_effort) {
                shown
            } else {
                shown + " | raciocinio "@ + p.reasoning_effort
            }
        },
    }
}

impl Selected {
    pub fn is_cloud(&self) -> (r: bool)
        ensures
            r == (self@ is Cloud),
    {
        match self {
            Selected::Cloud(_) => true,
            Selected::Local(_) => false,
        }
    }

    pub fn model(&self) -> (r: &str)
        ensures
            r@ == match self@ {
                SelectedView::Local(p) => p.model,
                SelectedView::Cloud(p) => p.model,
            },
    {
        match self {
            Selected::Local(p) => p.model.as_str(),
            Selected::Cloud(p) => p.model.as_str(),
        }
    }

    pub fn ctx(&self) -> (r: usize)
        ensures
            r == match self@ {
                SelectedView::Local(p) => p.ctx,
                SelectedView::Cloud(p) => p.ctx,
            },
    {
        match self {
            Selected::Local(p) => p.ctx,
            Selected::Cloud(p) => p.ctx,
        }
    }

    pub fn summary(&self, keys: &EnvKeys) -> (r: String)
        ensures
            r@ == summary_of(self@, *keys),
    {
        match self {
            Selected::Local(p) => text::cat5(
                "local: ",
                p.name.as_str(),
                " (",
                p.model.as_str(),
                ")",
            ),
            Selected::Cloud(p) => {
                let key = if resolve_cloud_key(p, keys).is_some() {
                    "key ok"
                } else {
                    "SEM API KEY"
                };
                let mut out = text::cat5(p.kind.label(), ": ", p.model.as_str(), " [", key);
                out.append("] @ ");
                out.append(p.base_url.as_str());
                out.append(" (");
                out.append(p.name.as_str());
                out.append(")");
                if !config::is_blank(p.reasoning_effort.as_str()) {
                    out.append(" | raciocinio ");
                    out.append(p.reasoning_effort.as_str());
                }
                out
            },
        }
    }
}

/// A line of the list of providers.
#[derive(Debug, PartialEq)]
pub struct ProviderEntry {
    pub id: String,
    pub name: String,
    pub detail: String,
    pub cloud: bool,
}

/// The model of a line of the list.
#[verifier::ext_equal]
pub struct EntryView {
    pub id: Seq<char>,
    pub name: Seq<char>,
    pub detail: Seq<char>,
    pub cloud: bool,
}

impl View for ProviderEntry {
    type V = EntryView;

    open spec fn view(&self) -> EntryView {
        EntryView { id: self.id@, name: self.name@, detail: self.detail@, cloud: self.cloud }
    }
}

/// The route of a vendor unless another is configured.
pub open spec fn routed(k: CloudKind, router: Seq<char>) -> Seq<char> {
    if !config::blank(router) {
        text::trimmed(router)
    } else {
        match k {
            CloudKind::OpenAi => "/chat/completions"@,
            CloudKind::Anthropic => "/v1/messages"@,
            CloudKind::Google => "streamGenerateContent"@,
        }
    }
}

/// The route to use: the configured one, or else the vendor's own.
pub fn default_router(kind: CloudKind, router: &str) -> (r: String)
    ensures
        r@ == routed(kind, router@),
{
    if !config::is_blank(router) {
        return text::trim(router);
    }
    match kind {
        CloudKind::OpenAi => "/chat/completions".to_string(),
        CloudKind::Anthropic => "/v1/messages".to_string(),
        CloudKind::Google => "streamGenerateContent".to_string(),
    }
}

/// The line that lists a local provider.
pub open spec fn local_entry(p: LocalView) -> EntryView {
    EntryView {
        id: p.id,
        name: p.name,
        detail: "local · "@ + p.model + " (ngl "@ + text::decimal(p.ngl) + ", ctx "@
            + text::decimal(p.ctx) + ")"@,
        cloud: false,
    }
}

/// The line that lists a remote provider.
pub open spec fn cloud_entry(p: CloudView, keys: EnvKeys) -> EntryView {
    EntryView {
        id: p.id,
        name: p.name,
        detail: config::kind_label(p.kind) + " · "@ + p.model + " · "@ + routed(p.kind, p.router)
            + " ["@ + (if cloud_key(p, keys.of(p.kind)) is Some {
            "key ok"@
        } else {
            "sem key"@
        }) + ", "@ + p.base_url + "]"@,
        cloud: true,
    }
}

/// The providers and the selection.
pub struct ProviderStore {
    pub local: Vec<LocalProvider>,
    pub cloud: Vec<CloudProvider>,
    pub selected: Option<String>,
}

/// The model of the providers and the selection.
#[verifier::ext_equal]
pub struct StoreView {
    pub local: Seq<LocalView>,
    pub cloud: Seq<CloudView>,
    pub selected: Option<Seq<char>>,
}

impl View for ProviderStore {
    type V = StoreView;

    open spec fn view(&self) -> StoreView {
        StoreView {
            local: text::views(self.local@),
            cloud: text::views(self.cloud@),
            selected: text::opt_view(self.selected),
        }
    }
}

/// The first local provider with an id, from position `i` on.
pub open spec fn local_from(v: Seq<LocalView>, id: Seq<char>, i: int) -> Option<int>
    decreases v.len() - i,
{
    if i < 0 || i >= v.len() {
        None
    } else if v[i].id == id {
        Some(i)
    } else {
        local_from(v, id, i + 1)
    }
}

/// The first remote provider with an id, from position `i` on.
pub open spec fn cloud_from(v: Seq<CloudView>, id: Seq<char>, i: int) -> Option<int>
    decreases v.len() - i,
{
    if i < 0 || i >= v.len() {
        None
    } else if v[i].id == id {
        Some(i)
    } else {
        cloud_from(v, id, i + 1)
    }
}

/// The provider with an id; local ones come first.
pub open spec fn resolved(s: StoreView, id: Option<Seq<char>>) -> Option<SelectedView> {
    match id {
        None => None,
        Some(id) => match local_from(s.local, id, 0) {
            Some(i) => Some(SelectedView::Local(s.local[i])),
            None => match cloud_from(s.cloud, id, 0) {
                Some(i) => Some(SelectedView::Cloud(s.cloud[i])),
                None => None,
            },
        },
    }
}

/// The active provider: the selected one, or else the first local, the first remote, or the
/// default one.
pub open spec fn active(s: StoreView) -> SelectedView {
    match resolved(s, s.selected) {
        Some(p) => p,
        None => if s.local.len() > 0 {
            SelectedView::Local(s.local[0])
        } else if s.cloud.len() > 0 {
            SelectedView::Cloud(s.cloud[0])
        } else {
            SelectedView::Local(config::default_local())
        },
    }
}

/// Finds a local provider by its id.
pub(crate) fn find_local(v: &Vec<LocalProvider>, id: &str) -> (r: Option<usize>)
    ensures
        match r {
            Some(i) => i < v@.len() && local_from(text::views(v@), id@, 0) == Some(i as int),
            None => local_from(text::views(v@), id@, 0) is None,
        },
{
    let mut i: usize = 0;
    while i < v.len()
        invariant
            i <= v@.len(),
            local_from(text::views(v@), id@, 0) == local_from(text::views(v@), id@, i as int),
        decreases v@.len() - i,
    {
        if text::same(v[i].id.as_str(), id) {
            return Some(i);
        }
        i = i + 1;
    }
    None
}

/// Finds a remote provider by its id.
pub(crate) fn find_cloud(v: &Vec<CloudProvider>, id: &str) -> (r: Option<usize>)
    ensures
        match r {
            Some(i) => i < v@.len() && cloud_from(text::views(v@), id@, 0) == Some(i as int),
            None => cloud_from(text::views(v@), id@, 0) is None,
        },
{
    let mut i: usize = 0;
    while i < v.len()
        invariant
            i <= v@.len(),
            cloud_from(text::views(v@), id@, 0) == cloud_from(text::views(v@), id@, i as int),
        decreases v@.len() - i,
    {
        if text::same(v[i].id.as_str(), id) {
            return Some(i);
        }
        i = i + 1;
    }
    None
}

fn copy_local(v: &Vec<LocalProvider>) -> (r: Vec<LocalProvider>)
    ensures
        text::views(r@) == text::views(v@),
{
    let mut out: Vec<LocalProvider> = Vec::new();
    let mut i: usize = 0;
    while i < v.len()
        invariant
            i <= v@.len(),
            out@.len() == i,
            forall|k: int| 0 <= k < i ==> (#[trigger] out@[k])@ == v@[k]@,
        decreases v@.len() - i,
    {
        out.push(v[i].copy());
        i = i + 1;
    }
    assert(text::views(out@) =~= text::views(v@));
    out
}

fn copy_cloud(v: &Vec<CloudProvider>) -> (r: Vec<CloudProvider>)
    ensures
        text::views(r@) == text::views(v@),
{
    let mut out: Vec<CloudProvider> = Vec::new();
    let mut i: usize = 0;
    while i < v.len()
        invariant
            i <= v@.len(),
            out@.len() == i,
            forall|k: int| 0 <= k < i ==> (#[trigger] out@[k])@ == v@[k]@,
        decreases v@.len() - i,
    {
        out.push(v[i].copy());
        i = i + 1;
    }
    assert(text::views(out@) =~= text::views(v@));
    out
}

/// The providers that a configuration holds.
pub open spec fn store_of(c: ConfigView) -> StoreView {
    StoreView { local: c.local, cloud: c.cloud, selected: c.selected }
}

/// The entries of a store, local ones first.
pub open spec fn entries_of(s: StoreView, keys: EnvKeys) -> Seq<EntryView> {
    Seq::new(s.local.len(), |i: int| local_entry(s.local[i])) + Seq::new(
        s.cloud.len(),
        |i: int| cloud_entry(s.cloud[i], keys),
    )
}

/// The error for an id that no provider has.
pub open spec fn unknown_provider(id: Seq<char>) -> Seq<char> {
    "provider '"@ + id + "' nao existe no config"@
}

impl ProviderStore {
    pub fn new(cfg: &DrillConfig) -> (r: ProviderStore)
        ensures
            r@ == store_of(cfg@),
    {
        let r = ProviderStore {
            local: copy_local(&cfg.providers.local),
            cloud: copy_cloud(&cfg.providers.cloud),
            selected: text::copy_opt(&cfg.provider_selected_uuid),
        };
        assert(r@ =~= store_of(cfg@));
        r
    }

    fn resolve(&self, id: &str) -> (r: Option<Selected>)
        ensures
            text::opt_view(r) == resolved(self@, Some(id@)),
    {
        match find_local(&self.local, id) {
            Some(i) => Some(Selected::Local(self.local[i].copy())),
            None => match find_cloud(&self.cloud, id) {
                Some(i) => Some(Selected::Cloud(self.cloud[i].copy())),
                None => None,
            },
        }
    }

    /// The active provider.
    pub fn current(&self) -> (r: Selected)
        ensures
            r@ == active(self@),
    {
        let found = match &self.selected {
            Some(id) => self.resolve(id.as_str()),
            None => None,
        };
        match found {
            Some(p) => p,
            None => if self.local.len() > 0 {
                Selected::Local(self.local[0].copy())
            } else if self.cloud.len() > 0 {
                Selected::Cloud(self.cloud[0].copy())
            } else {
                Selected::Local(LocalProvider::default())
            },
        }
    }

    /// The active provider, where it is remote.
    pub fn selected_cloud(&self) -> (r: Option<CloudProvider>)
        ensures
            text::opt_view(r) == match active(self@) {
                SelectedView::Cloud(p) => Some(p),
                SelectedView::Local(_) => None,
            },
    {
        match self.current() {
            Selected::Cloud(p) => Some(p),
            Selected::Local(_) => None,
        }
    }

    /// The active provider, where it is local.
    pub fn selected_local(&self) -> (r: Option<LocalProvider>)
        ensures
            text::opt_view(r) == match active(self@) {
                SelectedView::Local(p) => Some(p),
                SelectedView::Cloud(_) => None,
            },
    {
        match self.current() {
            Selected::Local(p) => Some(p),
            Selected::Cloud(_) => None,
        }
    }

    /// Whether the active provider is remote.
    pub fn is_cloud(&self) -> (r: bool)
        ensures
            r == (active(self@) is Cloud),
    {
        self.current().is_cloud()
    }

    /// The line that shows the active provider.
    pub fn summary(&self, keys: &EnvKeys) -> (r: String)
        ensures
            r@ == summary_of(active(self@), *keys),
    {
        self.current().summary(keys)
    }

    /// The lines of the list of providers, and the selected id.
    pub fn snapshot(&self, keys: &EnvKeys) -> (r: (Vec<ProviderEntry>, Option<String>))
        ensures
            text::views(r.0@) == entries_of(self@, *keys),
            text::opt_view(r.1) == self@.selected,
    {
        let mut entries: Vec<ProviderEntry> = Vec::new();
        let mut i: usize = 0;
        while i < self.local.len()
            invariant
                i <= self.local@.len(),
                entries@.len() == i,
                forall|k: int|
                    0 <= k < i ==> (#[trigger] entries@[k])@ == local_entry(self@.local[k]),
            decreases self.local@.len() - i,
        {
            let p = &self.local[i];
            let ngl = text::write_usize(p.ngl);
            let ctx = text::write_usize(p.ctx);
            let mut detail = text::cat5("local · ", p.model.as_str(), " (ngl ", ngl.as_str(), ", ctx ");
            detail.append(ctx.as_str());
            detail.append(")");
            entries.push(
                ProviderEntry { id: p.id.clone(), name: p.name.clone(), detail, cloud: false },
            );
            i = i + 1;
        }
        let ghost n = self.local@.len() as int;
        let mut j: usize = 0;
        while j < self.cloud.len()
            invariant
                j <= self.cloud@.len(),
                n == self.local@.len(),
                entries@.len() == n + j,
                forall|k: int|
                    0 <= k < n ==> (#[trigger] entries@[k])@ == local_entry(self@.local[k]),
                forall|k: int|
                    n <= k < n + j ==> (#[trigger] entries@[k])@ == cloud_entry(
                        self@.cloud[k - n],
                        *keys,
                    ),
            decreases self.cloud@.len() - j,
        {
            let p = &self.cloud[j];
            let key = if resolve_cloud_key(p, keys).is_some() {
                "key ok"
            } else {
                "sem key"
            };
            let router = default_router(p.kind, p.router.as_str());
            let mut detail = text::cat5(
                p.kind.label(),
                " · ",
                p.model.as_str(),
                " · ",
                router.as_str(),
            );
            detail.append(" [");
            detail.append(key);
            detail.append(", ");
            detail.append(p.base_url.as_str());
            detail.append("]");
            entries.push(
                ProviderEntry { id: p.id.clone(), name: p.name.clone(), detail, cloud: true },
            );
            j = j + 1;
        }
        assert(text::views(entries@) =~= entries_of(self@, *keys));
        (entries, text::copy_opt(&self.selected))
    }

    /// Makes the provider with an id the active one.
    pub fn select(&mut self, uuid: &str) -> (r: Result<(), String>)
        ensures
            match r {
                Ok(_) => resolved(old(self)@, Some(uuid@)) is Some && final(self)@ == (StoreView {
                    selected: Some(uuid@),
                    ..old(self)@
                }),
                Err(e) => resolved(old(self)@, Some(uuid@)) is None && final(self)@ == old(self)@
                    && e@ == unknown_provider(uuid@),
            },
    {
        if self.resolve(uuid).is_none() {
            return Err(text::cat3("provider '", uuid, "' nao existe no config"));
        }
        self.selected = Some(uuid.to_string());
        Ok(())
    }

    /// Sets the model of the active remote provider and how hard it thinks.
    pub fn set_model_and_effort(&mut self, model: &str, reasoning_effort: &str) -> (r: Result<
        String,
        String,
    >)
        ensures
            match r {
                Ok(id) => old(self)@.selected == Some(id@) && cloud_from(
                    old(self)@.cloud,
                    id@,
                    0,
                ) is Some && final(self)@ == (StoreView {
                    cloud: with_effort(old(self)@.cloud, id@, model@, reasoning_effort@),
                    ..old(self)@
                }),
                Err(e) => final(self)@ == old(self)@ && match old(self)@.selected {
                    None => e@ == "nenhum provider selecionado"@,
                    Some(id) => cloud_from(old(self)@.cloud, id, 0) is None && e@
                        == "provider ativo nao e remoto (modelo so vale para cloud)"@,
                },
            },
    {
        let uuid = match &self.selected {
            Some(id) => id.clone(),
            None => {
                return Err("nenhum provider selecionado".to_string());
            },
        };
        match find_cloud(&self.cloud, uuid.as_str()) {
            None => Err("provider ativo nao e remoto (modelo so vale para cloud)".to_string()),
            Some(i) => {
                set_effort(&mut self.cloud, i, model, reasoning_effort);
                assert(self@ =~= (StoreView {
                    cloud: with_effort(old(self)@.cloud, uuid@, model@, reasoning_effort@),
                    ..old(self)@
                }));
                Ok(uuid)
            },
        }
    }

    /// Sets the model and the projection file of the active local provider, or of the first one
    /// where a remote one is active; gives the id of the provider that was changed.
    pub fn set_local_model(&mut self, model: &str, mmproj: &str) -> (r: Result<String, String>)
        ensures
            match r {
                Ok(id) => {
                    let i = local_target(old(self)@);
                    &&& old(self)@.local.len() > 0
                    &&& id@ == old(self)@.local[i].id
                    &&& final(self)@ == (StoreView {
                        local: old(self)@.local.update(
                            i,
                            LocalView { model: model@, mmproj: mmproj@, ..old(self)@.local[i] },
                        ),
                        ..old(self)@
                    })
                },
                Err(e) => old(self)@.local.len() == 0 && final(self)@ == old(self)@ && e@
                    == "nenhum provider local configurado (/provider)"@,
            },
    {
        if self.local.len() == 0 {
            return Err("nenhum provider local configurado (/provider)".to_string());
        }
        let at: usize = match &self.selected {
            Some(id) => match find_local(&self.local, id.as_str()) {
                Some(i) => i,
                None => 0,
            },
            None => 0,
        };
        let uuid = self.local[at].id.clone();
        set_model(&mut self.local, at, model, mmproj);
        assert(self@ =~= (StoreView {
            local: old(self)@.local.update(
                at as int,
                LocalView { model: model@, mmproj: mmproj@, ..old(self)@.local[at as int] },
            ),
            ..old(self)@
        }));
        Ok(uuid)
    }

    /// Adds a remote provider with the given id and makes it the active one.
    pub fn add_cloud(
        &mut self,
        id: &str,
        kind: CloudKind,
        base_url: &str,
        model: &str,
        api_key: &str,
    ) -> (r: CloudProvider)
        requires
            old(self)@.cloud.len() < usize::MAX,
        ensures
            r@ == added_cloud(old(self)@.cloud.len(), id@, kind, base_url@, model@, api_key@),
            final(self)@ == (StoreView {
                cloud: old(self)@.cloud.push(r@),
                selected: Some(id@),
                ..old(self)@
            }),
    {
        let n = text::write_usize(self.cloud.len() + 1);
        let provider = CloudProvider {
            id: id.to_string(),
            name: text::cat3(kind.label(), " ", n.as_str()),
            kind,
            base_url: text::trim(base_url),
            model: text::trim(model),
            router: "".to_string(),
            api_key: text::trim(api_key),
            reasoning_effort: "medium".to_string(),
            ctx: 8192,
        };
        let shown = provider.copy();
        self.cloud.push(provider);
        self.selected = Some(id.to_string());
        assert(self@ =~= (StoreView {
            cloud: old(self)@.cloud.push(shown@),
            selected: Some(id@),
            ..old(self)@
        }));
        shown
    }
}

/// The local provider that a change of model goes to.
pub open spec fn local_target(s: StoreView) -> int {
    match s.selected {
        Some(id) => match local_from(s.local, id, 0) {
            Some(i) => i,
            None => 0,
        },
        None => 0,
    }
}

/// Remote providers of which the first with an id has another model and effort.
pub open spec fn with_effort(
    v: Seq<CloudView>,
    id: Seq<char>,
    model: Seq<char>,
    effort: Seq<char>,
) -> Seq<CloudView> {
    match cloud_from(v, id, 0) {
        Some(i) => v.update(i, CloudView { model, reasoning_effort: effort, ..v[i] }),
        None => v,
    }
}

/// A remote provider that was just added as the one after `n` others.
pub open spec fn added_cloud(
    n: nat,
    id: Seq<char>,
    kind: CloudKind,
    base_url: Seq<char>,
    model: Seq<char>,
    api_key: Seq<char>,
) -> CloudView {
    CloudView {
        id,
        name: config::kind_label(kind) + " "@ + text::decimal(n + 1),
        kind,
        base_url: text::trimmed(base_url),
        model: text::trimmed(model),
        router: ""@,
        api_key: text::trimmed(api_key),
        reasoning_effort: "medium"@,
        ctx: 8192,
    }
}

fn set_effort(v: &mut Vec<CloudProvider>, i: usize, model: &str, effort: &str)
    requires
        i < old(v)@.len(),
    ensures
        text::views(final(v)@) == text::views(old(v)@).update(
            i as int,
            CloudView { model: model@, reasoning_effort: effort@, ..text::views(old(v)@)[i as int] },
        ),
{
    let mut p = v[i].copy();
    p.model = model.to_string();
    p.reasoning_effort = effort.to_string();
    v.set(i, p);
    assert(text::views(v@) =~= text::views(old(v)@).update(i as int, p@));
}

fn set_model(v: &mut Vec<LocalProvider>, i: usize, model: &str, mmproj: &str)
    requires
        i < old(v)@.len(),
    ensures
        text::views(final(v)@) == text::views(old(v)@).update(
            i as int,
            LocalView { model: model@, mmproj: mmproj@, ..text::views(old(v)@)[i as int] },
        ),
{
    let mut p = v[i].copy();
    p.model = model.to_string();
    p.mmproj = mmproj.to_string();
    v.set(i, p);
    assert(text::views(v@) =~= text::views(old(v)@).update(i as int, p@));
}

/// Writes the selection into the configuration.
pub fn persist_selected(cfg: &mut DrillConfig, uuid: &str)
    ensures
        final(cfg)@ == (ConfigView { selected: Some(uuid@), ..old(cfg)@ }),
{
    cfg.provider_selected_uuid = Some(uuid.to_string());
}

/// Writes the model and effort of a remote provider into the configuration. An unknown id
/// changes nothing.
pub fn persist_effort(cfg: &mut DrillConfig, uuid: &str, model: &str, effort: &str)
    ensures
        final(cfg)@ == (ConfigView {
            cloud: with_effort(old(cfg)@.cloud, uuid@, model@, effort@),
            ..old(cfg)@
        }),
{
    match find_cloud(&cfg.providers.cloud, uuid) {
        Some(i) => {
            set_effort(&mut cfg.providers.cloud, i, model, effort);
        },
        None => {},
    }
    assert(cfg@ =~= (ConfigView {
        cloud: with_effort(old(cfg)@.cloud, uuid@, model@, effort@),
        ..old(cfg)@
    }));
}

/// A configuration whose local provider with an id has another model; where there is none, the
/// model of the configuration itself changes.
pub open spec fn with_local_model(
    c: ConfigView,
    id: Seq<char>,
    model: Seq<char>,
    mmproj: Seq<char>,
) -> ConfigView {
    match local_from(c.local, id, 0) {
        Some(i) => ConfigView {
            local: c.local.update(i, LocalView { model, mmproj, ..c.local[i] }),
            ..c
        },
        None => ConfigView { model, ..c },
    }
}

/// Writes the model of a local provider into the configuration.
pub fn persist_local_model(cfg: &mut DrillConfig, uuid: &str, model: &str, mmproj: &str)
    ensures
        final(cfg)@ == with_local_model(old(cfg)@, uuid@, model@, mmproj@),
{
    match find_local(&cfg.providers.local, uuid) {
        Some(i) => {
            set_model(&mut cfg.providers.local, i, model, mmproj);
        },
        None => {
            cfg.model = model.to_string();
        },
    }
    assert(cfg@ =~= with_local_model(old(cfg)@, uuid@, model@, mmproj@));
}

/// Writes a new remote provider into the configuration and selects it.
pub fn persist_cloud(cfg: &mut DrillConfig, provider: CloudProvider)
    ensures
        final(cfg)@ == (ConfigView {
            cloud: old(cfg)@.cloud.push(provider@),
            selected: Some(provider@.id),
            ..old(cfg)@
        }),
{
    let id = provider.id.clone();
    cfg.providers.cloud.push(provider);
    cfg.provider_selected_uuid = Some(id);
    assert(cfg@ =~= (ConfigView {
        cloud: old(cfg)@.cloud.push(provider@),
        selected: Some(provider@.id),
        ..old(cfg)@
    }));
}

proof fn lemma_local_from(v: Seq<LocalView>, id: Seq<char>, i: int)
    requires
        0 <= i,
    ensures
        match local_from(v, id, i) {
            Some(k) => i <= k < v.len() && v[k].id == id && forall|j: int|
                i <= j < k ==> (#[trigger] v[j]).id != id,
            None => forall|j: int| i <= j < v.len() ==> (#[trigger] v[j]).id != id,
        },
    decreases v.len() - i,
{
    if i < v.len() && v[i].id != id {
        lemma_local_from(v, id, i + 1);
    }
}

proof fn lemma_cloud_from(v: Seq<CloudView>, id: Seq<char>, i: int)
    requires
        0 <= i,
    ensures
        match cloud_from(v, id, i) {
            Some(k) => i <= k < v.len() && v[k].id == id && forall|j: int|
                i <= j < k ==> (#[trigger] v[j]).id != id,
            None => forall|j: int| i <= j < v.len() ==> (#[trigger] v[j]).id != id,
        },
    decreases v.len() - i,
{
    if i < v.len() && v[i].id != id {
        lemma_cloud_from(v, id, i + 1);
    }
}

/// After a successful selection the active provider is the one with that id.
pub proof fn law_selected_is_active(s: StoreView, id: Seq<char>)
    requires
        resolved(s, Some(id)) is Some,
    ensures
        ({
            let after = active(StoreView { selected: Some(id), ..s });
            &&& Some(after) == resolved(s, Some(id))
            &&& match after {
                SelectedView::Local(p) => p.id == id && s.local.contains(p),
                SelectedView::Cloud(p) => p.id == id && s.cloud.contains(p),
            }
        }),
{
    lemma_local_from(s.local, id, 0);
    lemma_cloud_from(s.cloud, id, 0);
    let t = StoreView { selected: Some(id), ..s };
    assert(resolved(t, t.selected) == resolved(s, Some(id)));
}

/// The selection of a sound configuration is the active provider.
pub proof fn law_sound_selection_resolves(c: ConfigView)
    requires
        config::sound(c),
    ensures
        resolved(store_of(c), c.selected) == Some(active(store_of(c))),
{
    let id = c.selected->0;
    lemma_local_from(c.local, id, 0);
    lemma_cloud_from(c.cloud, id, 0);
}

/// Writing a change of model into a configuration gives the providers that the same change
/// leaves in the store.
pub proof fn law_model_change_is_persisted(
    c: ConfigView,
    model: Seq<char>,
    mmproj: Seq<char>,
)
    requires
        c.local.len() > 0,
    ensures
        ({
            let s = store_of(c);
            let i = local_target(s);
            store_of(with_local_model(c, s.local[i].id, model, mmproj)) == (StoreView {
                local: s.local.update(i, LocalView { model, mmproj, ..s.local[i] }),
                ..s
            })
        }),
{
    let s = store_of(c);
    if s.selected is Some {
        lemma_local_from(s.local, s.selected->0, 0);
    }
    lemma_local_from(s.local, s.local[local_target(s)].id, 0);
}

/// What marks the id of a model, in lower case, that is not made for chat.
pub open spec fn not_for_chat(low: Seq<char>) -> bool {
    ||| text::has(low, "whisper"@)
    ||| text::has(low, "allam"@)
    ||| text::has(low, "orph"@)
    ||| text::has(low, "stt"@)
    ||| text::has(low, "tts"@)
    ||| text::has(low, "audio"@)
    ||| text::has(low, "guard"@)
    ||| text::has(low, "safeguard"@)
}

/// Whether a model whose id is given in lower case is made for chat.
pub fn is_chat_model(low: &str) -> (r: bool)
    ensures
        r == !not_for_chat(low@),
{
    !(text::contains(low, "whisper") || text::contains(low, "allam") || text::contains(low, "orph")
        || text::contains(low, "stt") || text::contains(low, "tts") || text::contains(low, "audio")
        || text::contains(low, "guard") || text::contains(low, "safeguard"))
}

/// The first id, from position `i` on, of a model made for chat.
pub open spec fn chat_model_from(models: Seq<Seq<char>>, i: int) -> Option<Seq<char>>
    decreases models.len() - i,
{
    if i < 0 || i >= models.len() {
        None
    } else if !not_for_chat(text::lowercase(models[i])) {
        Some(models[i])
    } else {
        chat_model_from(models, i + 1)
    }
}

/// Picks the first model that is made for chat.
pub fn pick_chat_model(models: &Vec<String>) -> (r: Option<String>)
    ensures
        text::opt_view(r) == chat_model_from(text::views(models@), 0),
{
    let mut i: usize = 0;
    while i < models.len()
        invariant
            i <= models@.len(),
            chat_model_from(text::views(models@), 0) == chat_model_from(
                text::views(models@),
                i as int,
            ),
        decreases models@.len() - i,
    {
        let low = text::to_lowercase(models[i].as_str());
        if is_chat_model(low.as_str()) {
            return Some(models[i].clone());
        }
        i = i + 1;
    }
    None
}

/// The key of a remote provider is the configured one; without one it is that of the variable of
/// its own vendor. White space around a key is no part of it.
pub proof fn law_own_key_comes_first(p: CloudView, keys: EnvKeys)
    ensures
        text::trimmed(p.api_key).len() > 0 ==> cloud_key(p, keys.of(p.kind)) == Some(
            text::trimmed(p.api_key),
        ),
        text::trimmed(p.api_key).len() == 0 && p.kind == CloudKind::OpenAi && keys.openai is Some
            && text::trimmed(keys.openai->0@).len() > 0 ==> cloud_key(p, keys.of(p.kind)) == Some(
            text::trimmed(keys.openai->0@),
        ),
        text::trimmed(p.api_key).len() == 0 && p.kind == CloudKind::Anthropic && keys.anthropic
            is Some && text::trimmed(keys.anthropic->0@).len() > 0 ==> cloud_key(
            p,
            keys.of(p.kind),
        ) == Some(text::trimmed(keys.anthropic->0@)),
        text::trimmed(p.api_key).len() == 0 && p.kind == CloudKind::Google && keys.google is Some
            && text::trimmed(keys.google->0@).len() > 0 ==> cloud_key(p, keys.of(p.kind)) == Some(
            text::trimmed(keys.google->0@),
        ),
        text::trimmed(p.api_key).len() == 0 && keys.of(p.kind) is None ==> cloud_key(
            p,
            keys.of(p.kind),
        ) is None,
        env_name(CloudKind::OpenAi) == "OPENAI_API_KEY"@,
        env_name(CloudKind::Anthropic) == "ANTHROPIC_API_KEY"@,
        env_name(CloudKind::Google) == "GOOGLE_API_KEY"@,
{
}

/// Every provider is listed once, the local ones first, in order, under its id and its name.
pub proof fn law_providers_are_listed(s: StoreView, keys: EnvKeys)
    ensures
        entries_of(s, keys).len() == s.local.len() + s.cloud.len(),
        forall|i: int|
            #![trigger s.local[i]]
            0 <= i < s.local.len() ==> entries_of(s, keys)[i].id == s.local[i].id && entries_of(
                s,
                keys,
            )[i].name == s.local[i].name && !entries_of(s, keys)[i].cloud,
        forall|i: int|
            #![trigger s.cloud[i]]
            0 <= i < s.cloud.len() ==> entries_of(s, keys)[s.local.len() + i].id == s.cloud[i].id
                && entries_of(s, keys)[s.local.len() + i].name == s.cloud[i].name && entries_of(
                s,
                keys,
            )[s.local.len() + i].cloud,
{
}

/// Another model and effort go to the remote provider with the id, and to no other; all else of it
/// stays.
pub proof fn law_effort_goes_to_provider(
    v: Seq<CloudView>,
    i: int,
    model: Seq<char>,
    effort: Seq<char>,
)
    requires
        0 <= i < v.len(),
        forall|j: int| 0 <= j < i ==> (#[trigger] v[j]).id != v[i].id,
    ensures
        ({
            let after = with_effort(v, v[i].id, model, effort);
            &&& after.len() == v.len()
            &&& after[i].model == model
            &&& after[i].reasoning_effort == effort
            &&& after[i] == (CloudView {
                model: after[i].model,
                reasoning_effort: after[i].reasoning_effort,
                ..v[i]
            })
            &&& forall|j: int| 0 <= j < v.len() && j != i ==> after[j] == #[trigger] v[j]
        }),
{
    lemma_cloud_from(v, v[i].id, 0);
}

/// Another model goes to the local provider with the id, and to no other; all else of it stays.
pub proof fn law_model_goes_to_provider(
    c: ConfigView,
    i: int,
    model: Seq<char>,
    mmproj: Seq<char>,
)
    requires
        0 <= i < c.local.len(),
        forall|j: int| 0 <= j < i ==> (#[trigger] c.local[j]).id != c.local[i].id,
    ensures
        ({
            let after = with_local_model(c, c.local[i].id, model, mmproj);
            &&& after.local.len() == c.local.len()
            &&& after.local[i].model == model
            &&& after.local[i].mmproj == mmproj
            &&& after.local[i] == (LocalView {
                model: after.local[i].model,
                mmproj: after.local[i].mmproj,
                ..c.local[i]
            })
            &&& forall|j: int|
                0 <= j < c.local.len() && j != i ==> after.local[j] == #[trigger] c.local[j]
            &&& after.cloud == c.cloud
            &&& after.selected == c.selected
            &&& after.model == c.model
        }),
{
    lemma_local_from(c.local, c.local[i].id, 0);
}

/// A new remote provider has the address, the model and the key that were given, without white
/// space around them, is named by its vendor and its number, and thinks with medium effort.
pub proof fn law_new_provider_has_settings(
    n: nat,
    id: Seq<char>,
    kind: CloudKind,
    base_url: Seq<char>,
    model: Seq<char>,
    api_key: Seq<char>,
)
    ensures
        ({
            let p = added_cloud(n, id, kind, base_url, model, api_key);
            &&& p.id == id
            &&& p.kind == kind
            &&& p.base_url == text::trimmed(base_url)
            &&& p.model == text::trimmed(model)
            &&& p.api_key == text::trimmed(api_key)
            &&& p.reasoning_effort == "medium"@
            &&& p.router == ""@
            &&& p.name == (match kind {
                CloudKind::OpenAi => "openai"@,
                CloudKind::Anthropic => "anthropic"@,
                CloudKind::Google => "google"@,
            }) + " "@ + text::decimal(n + 1)
        }),
{
}

/// A model is made for chat unless its id, in lower case, holds one of the marks of another use.
pub open spec fn chats(m: Seq<char>) -> bool {
    let low = text::lowercase(m);
    !(text::has(low, "whisper"@) || text::has(low, "allam"@) || text::has(low, "orph"@)
        || text::has(low, "stt"@) || text::has(low, "tts"@) || text::has(low, "audio"@)
        || text::has(low, "guard"@))
}

/// The model that is picked is the first listed one that is made for chat; there is none only
/// where no listed one is.
pub proof fn law_first_chat_model_is_picked(models: Seq<Seq<char>>)
    ensures
        chat_model_from(models, 0) matches Some(m) ==> exists|i: int|
            {
                &&& 0 <= i < models.len()
                &&& #[trigger] models[i] == m
                &&& chats(m)
                &&& forall|j: int| 0 <= j < i ==> !chats(#[trigger] models[j])
            },
        chat_model_from(models, 0) is None ==> forall|j: int|
            0 <= j < models.len() ==> !chats(#[trigger] models[j]),
{
    lemma_chat_model(models, 0);
}

proof fn lemma_chat_model(models: Seq<Seq<char>>, i: int)
    requires
        0 <= i <= models.len(),
    ensures
        chat_model_from(models, i) matches Some(m) ==> exists|k: int|
            {
                &&& i <= k < models.len()
                &&& #[trigger] models[k] == m
                &&& chats(m)
                &&& forall|j: int| i <= j < k ==> !chats(#[trigger] models[j])
            },
        chat_model_from(models, i) is None ==> forall|j: int|
            i <= j < models.len() ==> !chats(#[trigger] models[j]),
    decreases models.len() - i,
{
    if i < models.len() {
        lemma_guard(text::lowercase(models[i]));
        if not_for_chat(text::lowercase(models[i])) {
            lemma_chat_model(models, i + 1);
            if chat_model_from(models, i + 1) is Some {
                let m = chat_model_from(models, i + 1)->0;
                let k = choose|k: int|
                    {
                        &&& i + 1 <= k < models.len()
                        &&& #[trigger] models[k] == m
                        &&& chats(m)
                        &&& forall|j: int| i + 1 <= j < k ==> !chats(#[trigger] models[j])
                    };
                assert forall|j: int| i <= j < k implies !chats(#[trigger] models[j]) by {}
                assert(models[k] == m);
            }
        } else {
            assert(models[i] == models[i]);
        }
    }
}

proof fn lemma_guard(low: Seq<char>)
    ensures
        text::has(low, "safeguard"@) ==> text::has(low, "guard"@),
{
    reveal_strlit("safeguard");
    reveal_strlit("guard");
    if text::has(low, "safeguard"@) {
        let i = choose|i: int| text::occurs_at(low, "safeguard"@, i);
        let whole = low.subrange(i, i + 9);
        assert(whole == "safeguard"@);
        assert(low.subrange(i + 4, i + 9) =~= whole.subrange(4, 9));
        assert(whole.subrange(4, 9) =~= "guard"@);
        assert(text::occurs_at(low, "guard"@, i + 4));
    }
}

} // verus!
