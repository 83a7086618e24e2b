//! What is known of the provider's command line: whether it is installed, which
//! models it offers, and the options that a turn can run with.
use vstd::prelude::*;

use crate::desk::{DriverStartOptions, DriverStartOptionsView, SessionOptions, SessionOptionsView};
use crate::ids::Stamp;
use crate::keyed::{StrMap, StrSet};
use crate::model::{AgentSession, AgentSessionView};
use crate::text::{opt, opt_str, same};

verus! {

/// The key of the one provider that is driven.
pub const OPENCODE_PROVIDER: &'static str = "opencode";

/// The name of that provider.
pub const OPENCODE_NAME: &'static str = "OpenCode";

/// A choice that a model offers.
#[derive(Debug)]
pub struct ModelOption {
    pub id: String,
    pub label: String,
}

/// What a [`ModelOption`] holds.
#[verifier::ext_equal]
pub ghost struct ModelOptionView {
    pub id: Seq<char>,
    pub label: Seq<char>,
}

impl View for ModelOption {
    type V = ModelOptionView;

    open spec fn view(&self) -> ModelOptionView {
        ModelOptionView {
            id: self.id@,
            label: self.label@,
        }
    }
}

/// What a list of them holds.
pub open spec fn model_option_views(s: Seq<ModelOption>) -> Seq<ModelOptionView> {
    s.map_values(|x: ModelOption| x@)
}

impl Clone for ModelOption {
    /// A second value that holds the same.
    fn clone(&self) -> (r: ModelOption)
        ensures
            r@ == self@,
    {
        ModelOption {
            id: self.id.clone(),
            label: self.label.clone(),
        }
    }
}

/// A second list that holds the same.
pub fn copy_model_options(v: &Vec<ModelOption>) -> (r: Vec<ModelOption>)
    ensures
        model_option_views(r@) == model_option_views(v@),
{
    let mut r: Vec<ModelOption> = Vec::new();
    let mut i: usize = 0;
    while i < v.len()
        invariant
            i <= v@.len(),
            model_option_views(r@) == model_option_views(v@.take(i as int)),
        decreases v@.len() - i,
    {
        let item = v[i].clone();
        let ghost before = r@;
        r.push(item);
        assert(model_option_views(r@) =~= model_option_views(before).push(item@));
        assert(model_option_views(v@.take(i + 1)) =~= model_option_views(v@.take(i as int)).push(v@[i as int]@));
        i = i + 1;
    }
    assert(v@.take(i as int) =~= v@);
    r
}

/// A model of the provider.
#[derive(Debug)]
pub struct ProviderModel {
    pub id: String,
    pub name: String,
    /// Whether the provider names it as the one it takes by itself.
    pub is_default: bool,
    pub reasoning_efforts: Vec<ModelOption>,
    pub default_reasoning_effort: Option<String>,
    pub service_tiers: Vec<ModelOption>,
    pub context_windows: Vec<ModelOption>,
}

/// What a [`ProviderModel`] holds.
#[verifier::ext_equal]
pub ghost struct ProviderModelView {
    pub id: Seq<char>,
    pub name: Seq<char>,
    pub is_default: bool,
    pub reasoning_efforts: Seq<ModelOptionView>,
    pub default_reasoning_effort: Option<Seq<char>>,
    pub service_tiers: Seq<ModelOptionView>,
    pub context_windows: Seq<ModelOptionView>,
}

impl View for ProviderModel {
    type V = ProviderModelView;

    open spec fn view(&self) -> ProviderModelView {
        ProviderModelView {
            id: self.id@,
            name: self.name@,
            is_default: self.is_default,
            reasoning_efforts: model_option_views(self.reasoning_efforts@),
            default_reasoning_effort: opt(self.default_reasoning_effort),
            service_tiers: model_option_views(self.service_tiers@),
            context_windows: model_option_views(self.context_windows@),
        }
    }
}

/// What a list of them holds.
pub open spec fn provider_model_views(s: Seq<ProviderModel>) -> Seq<ProviderModelView> {
    s.map_values(|x: ProviderModel| x@)
}

impl Clone for ProviderModel {
    /// A second value that holds the same.
    fn clone(&self) -> (r: ProviderModel)
        ensures
            r@ == self@,
    {
        ProviderModel {
            id: self.id.clone(),
            name: self.name.clone(),
            is_default: self.is_default,
            reasoning_efforts: copy_model_options(&self.reasoning_efforts),
            default_reasoning_effort: self.default_reasoning_effort.clone(),
            service_tiers: copy_model_options(&self.service_tiers),
            context_windows: copy_model_options(&self.context_windows),
        }
    }
}

/// A second list that holds the same.
pub fn copy_provider_models(v: &Vec<ProviderModel>) -> (r: Vec<ProviderModel>)
    ensures
        provider_model_views(r@) == provider_model_views(v@),
{
    let mut r: Vec<ProviderModel> = Vec::new();
    let mut i: usize = 0;
    while i < v.len()
        invariant
            i <= v@.len(),
            provider_model_views(r@) == provider_model_views(v@.take(i as int)),
        decreases v@.len() - i,
    {
        let item = v[i].clone();
        let ghost before = r@;
        r.push(item);
        assert(provider_model_views(r@) =~= provider_model_views(before).push(item@));
        assert(provider_model_views(v@.take(i + 1)) =~= provider_model_views(v@.take(i as int)).push(v@[i as int]@));
        i = i + 1;
    }
    assert(v@.take(i as int) =~= v@);
    r
}

/// A way the agent can be set up.
#[derive(Debug)]
pub struct AgentPreset {
    pub id: String,
    pub label: String,
}

/// What a [`AgentPreset`] holds.
#[verifier::ext_equal]
pub ghost struct AgentPresetView {
    pub id: Seq<char>,
    pub label: Seq<char>,
}

impl View for AgentPreset {
    type V = AgentPresetView;

    open spec fn view(&self) -> AgentPresetView {
        AgentPresetView {
            id: self.id@,
            label: self.label@,
        }
    }
}

/// What a list of them holds.
pub open spec fn agent_preset_views(s: Seq<AgentPreset>) -> Seq<AgentPresetView> {
    s.map_values(|x: AgentPreset| x@)
}

impl Clone for AgentPreset {
    /// A second value that holds the same.
    fn clone(&self) -> (r: AgentPreset)
        ensures
            r@ == self@,
    {
        AgentPreset {
            id: self.id.clone(),
            label: self.label.clone(),
        }
    }
}

/// A second list that holds the same.
pub fn copy_agent_presets(v: &Vec<AgentPreset>) -> (r: Vec<AgentPreset>)
    ensures
        agent_preset_views(r@) == agent_preset_views(v@),
{
    let mut r: Vec<AgentPreset> = Vec::new();
    let mut i: usize = 0;
    while i < v.len()
        invariant
            i <= v@.len(),
            agent_preset_views(r@) == agent_preset_views(v@.take(i as int)),
        decreases v@.len() - i,
    {
        let item = v[i].clone();
        let ghost before = r@;
        r.push(item);
        assert(agent_preset_views(r@) =~= agent_preset_views(before).push(item@));
        assert(agent_preset_views(v@.take(i + 1)) =~= agent_preset_views(v@.take(i as int)).push(v@[i as int]@));
        i = i + 1;
    }
    assert(v@.take(i as int) =~= v@);
    r
}

/// What looking for the provider found.
#[derive(Debug)]
pub struct ProviderProbe {
    pub installed: bool,
    /// Where its command line stands.
    pub path: Option<String>,
    pub models: Vec<ProviderModel>,
    /// Which of the models the provider prefers.
    pub preferred_model: Option<usize>,
    pub agent_presets: Vec<AgentPreset>,
    /// Which of the presets the provider prefers.
    pub preferred_preset: Option<usize>,
}

/// What a [`ProviderProbe`] holds.
#[verifier::ext_equal]
pub ghost struct ProviderProbeView {
    pub installed: bool,
    pub path: Option<Seq<char>>,
    pub models: Seq<ProviderModelView>,
    pub preferred_model: Option<usize>,
    pub agent_presets: Seq<AgentPresetView>,
    pub preferred_preset: Option<usize>,
}

impl View for ProviderProbe {
    type V = ProviderProbeView;

    open spec fn view(&self) -> ProviderProbeView {
        ProviderProbeView {
            installed: self.installed,
            path: opt(self.path),
            models: provider_model_views(self.models@),
            preferred_model: self.preferred_model,
            agent_presets: agent_preset_views(self.agent_presets@),
            preferred_preset: self.preferred_preset,
        }
    }
}

/// What a list of them holds.
pub open spec fn provider_probe_views(s: Seq<ProviderProbe>) -> Seq<ProviderProbeView> {
    s.map_values(|x: ProviderProbe| x@)
}

impl Clone for ProviderProbe {
    /// A second value that holds the same.
    fn clone(&self) -> (r: ProviderProbe)
        ensures
            r@ == self@,
    {
        ProviderProbe {
            installed: self.installed,
            path: self.path.clone(),
            models: copy_provider_models(&self.models),
            preferred_model: self.preferred_model,
            agent_presets: copy_agent_presets(&self.agent_presets),
            preferred_preset: self.preferred_preset,
        }
    }
}

impl ProviderProbeView {
    /// The model the provider prefers.
    pub open spec fn preferred(self) -> Option<ProviderModelView> {
        match self.preferred_model {
            Some(i) if i < self.models.len() => Some(self.models[i as int]),
            _ => None,
        }
    }

    /// The preset the provider prefers.
    pub open spec fn preset(self) -> Option<AgentPresetView> {
        match self.preferred_preset {
            Some(i) if i < self.agent_presets.len() => Some(self.agent_presets[i as int]),
            _ => None,
        }
    }

    /// The first model with this id.
    pub open spec fn model(self, id: Seq<char>) -> Option<ProviderModelView> {
        model_named(self.models, id)
    }
}

/// The first of the models with this id.
pub open spec fn model_named(models: Seq<ProviderModelView>, id: Seq<char>) -> Option<ProviderModelView>
    decreases models.len(),
{
    if models.len() == 0 {
        None
    } else if models[0].id == id {
        Some(models[0])
    } else {
        model_named(models.drop_first(), id)
    }
}

/// One of the choices has this id.
pub open spec fn offers(options: Seq<ModelOptionView>, id: Seq<char>) -> bool {
    exists|i: int| 0 <= i < options.len() && #[trigger] options[i].id == id
}

/// Whether one of the choices has this id.
pub fn option_offered(options: &Vec<ModelOption>, id: &str) -> (r: bool)
    ensures
        r == offers(model_option_views(options@), id@),
{
    let ghost views = model_option_views(options@);
    let mut i: usize = 0;
    while i < options.len()
        invariant
            i <= options@.len(),
            views == model_option_views(options@),
            forall|j: int| 0 <= j < i ==> #[trigger] views[j].id != id@,
        decreases options@.len() - i,
    {
        assert(views[i as int] == options@[i as int]@);
        if same(options[i].id.as_str(), id) {
            assert(views[i as int].id == id@);
            return true;
        }
        i = i + 1;
    }
    false
}

impl ProviderProbe {
    /// The model the provider prefers.
    pub fn preferred_model(&self) -> (r: Option<&ProviderModel>)
        ensures
            match r {
                Some(model) => self@.preferred() == Some(model@),
                None => self@.preferred() is None,
            },
    {
        match self.preferred_model {
            Some(i) => if i < self.models.len() {
                Some(&self.models[i])
            } else {
                None
            },
            None => None,
        }
    }

    /// The preset the provider prefers.
    pub fn preferred_agent_preset(&self) -> (r: Option<&AgentPreset>)
        ensures
            match r {
                Some(preset) => self@.preset() == Some(preset@),
                None => self@.preset() is None,
            },
    {
        match self.preferred_preset {
            Some(i) => if i < self.agent_presets.len() {
                Some(&self.agent_presets[i])
            } else {
                None
            },
            None => None,
        }
    }

    /// The first model with this id.
    pub fn find_model(&self, id: &str) -> (r: Option<&ProviderModel>)
        ensures
            match r {
                Some(model) => self@.model(id@) == Some(model@),
                None => self@.model(id@) is None,
            },
    {
        let ghost views = provider_model_views(self.models@);
        let mut i: usize = 0;
        assert(views.skip(0) =~= views);
        while i < self.models.len()
            invariant
                i <= self.models@.len(),
                views == provider_model_views(self.models@),
                model_named(views, id@) == model_named(views.skip(i as int), id@),
            decreases self.models@.len() - i,
        {
            assert(views.skip(i as int)[0] == self.models@[i as int]@);
            assert(views.skip(i as int).drop_first() =~= views.skip(i + 1));
            if same(self.models[i].id.as_str(), id) {
                return Some(&self.models[i]);
            }
            i = i + 1;
        }
        assert(views.skip(i as int).len() == 0);
        None
    }
}

/// What is known of the provider, and what is being found out.
pub struct Catalog {
    pub probes: Vec<ProviderProbe>,
    /// The providers whose models were asked for.
    pub provider_model_discoveries: StrSet,
    pub provider_model_discoveries_pending: StrSet,
    pub provider_version_probes_pending: StrSet,
    pub provider_versions: StrMap<Option<String>>,
    pub provider_detection_remaining: usize,
    pub provider_detection_checked_at: Option<u64>,
}

/// What a [`Catalog`] holds.
#[verifier::ext_equal]
pub ghost struct CatalogView {
    pub probes: Seq<ProviderProbeView>,
    pub provider_model_discoveries: Set<Seq<char>>,
    pub provider_model_discoveries_pending: Set<Seq<char>>,
    pub provider_version_probes_pending: Set<Seq<char>>,
    pub provider_versions: Map<Seq<char>, Option<String>>,
    pub provider_detection_remaining: usize,
    pub provider_detection_checked_at: Option<u64>,
}

impl View for Catalog {
    type V = CatalogView;

    open spec fn view(&self) -> CatalogView {
        CatalogView {
            probes: provider_probe_views(self.probes@),
            provider_model_discoveries: self.provider_model_discoveries@,
            provider_model_discoveries_pending: self.provider_model_discoveries_pending@,
            provider_version_probes_pending: self.provider_version_probes_pending@,
            provider_versions: self.provider_versions@,
            provider_detection_remaining: self.provider_detection_remaining,
            provider_detection_checked_at: self.provider_detection_checked_at,
        }
    }
}

impl CatalogView {
    /// The provider was found.
    pub open spec fn installed(self) -> bool {
        self.probes.len() > 0 && self.probes[0].installed
    }

    /// Where the provider's command line stands.
    pub open spec fn binary(self) -> Option<Seq<char>> {
        if self.probes.len() > 0 {
            self.probes[0].path
        } else {
            None
        }
    }

    /// The model that a session runs with: its own, else the preferred one.
    pub open spec fn model_for(self, session: AgentSessionView) -> Option<Seq<char>> {
        match session.model {
            Some(model) => Some(model),
            None => if self.probes.len() > 0 {
                match self.probes[0].preferred() {
                    Some(model) => Some(model.id),
                    None => None,
                }
            } else {
                None
            },
        }
    }

    /// What is known of the model that a session runs with.
    pub open spec fn metadata_for(self, session: AgentSessionView) -> Option<ProviderModelView> {
        match self.model_for(session) {
            Some(model) => if self.probes.len() > 0 {
                self.probes[0].model(model)
            } else {
                None
            },
            None => None,
        }
    }

    /// The reasoning effort a session runs with: the chosen one where its model
    /// offers it, else the model's default, else the first it offers.
    pub open spec fn effort_for(self, session: AgentSessionView) -> Option<Seq<char>> {
        match self.metadata_for(session) {
            Some(model) => match session.reasoning_effort {
                Some(effort) if offers(model.reasoning_efforts, effort) => Some(effort),
                _ => match model.default_reasoning_effort {
                    Some(effort) => Some(effort),
                    None => if model.reasoning_efforts.len() > 0 {
                        Some(model.reasoning_efforts[0].id)
                    } else {
                        None
                    },
                },
            },
            None => None,
        }
    }

    /// The service tier a session runs with: the chosen one where it is the default
    /// tier or its model offers it.
    pub open spec fn tier_for(self, session: AgentSessionView) -> Option<Seq<char>> {
        match session.service_tier {
            Some(tier) if tier == "default"@ || (self.metadata_for(session) matches Some(model) && offers(
                model.service_tiers,
                tier,
            )) => Some(tier),
            _ => None,
        }
    }

    /// The context window a session runs with: the chosen one where its model offers it.
    pub open spec fn window_for(self, session: AgentSessionView) -> Option<Seq<char>> {
        match (session.context_window, self.metadata_for(session)) {
            (Some(window), Some(model)) if offers(model.context_windows, window) => Some(window),
            _ => None,
        }
    }

    /// The options a turn of the session runs with.
    pub open spec fn options_for(self, session: AgentSessionView) -> SessionOptionsView {
        SessionOptionsView {
            mode: session.runtime_mode,
            interaction_mode: session.interaction_mode,
            model: self.model_for(session),
            reasoning_effort: self.effort_for(session),
            service_tier: self.tier_for(session),
            context_window: self.window_for(session),
        }
    }

    /// The preset a session runs with: its own, else the preferred one.
    pub open spec fn preset_for(self, session: AgentSessionView) -> Option<Seq<char>> {
        match session.agent_preset {
            Some(preset) => Some(preset),
            None => if self.probes.len() > 0 {
                match self.probes[0].preset() {
                    Some(preset) => Some(preset.id),
                    None => None,
                }
            } else {
                None
            },
        }
    }

    /// How the provider of a session is to be started in a directory; nothing where
    /// its command line was not found.
    pub open spec fn start_for(self, session: AgentSessionView, cwd: Seq<char>) -> Option<DriverStartOptionsView> {
        match self.binary() {
            Some(binary) => Some(
                DriverStartOptionsView {
                    binary,
                    cwd,
                    mode: session.runtime_mode,
                    interaction_mode: session.interaction_mode,
                    model: self.model_for(session),
                    reasoning_effort: self.effort_for(session),
                    service_tier: self.tier_for(session),
                    context_window: self.window_for(session),
                    agent_preset: self.preset_for(session),
                    provider_cursor: session.provider_cursor,
                },
            ),
            None => None,
        }
    }

    /// The catalogue once the models were asked for, where the provider is there and
    /// they were not.
    pub open spec fn models_requested(self) -> CatalogView {
        let key = OPENCODE_PROVIDER@;
        if self.provider_model_discoveries.contains(key) || !self.installed() {
            self
        } else {
            CatalogView {
                provider_model_discoveries: self.provider_model_discoveries.insert(key),
                provider_model_discoveries_pending: self.provider_model_discoveries_pending.insert(key),
                ..self
            }
        }
    }

    /// The catalogue once the version was asked for, where the provider is there and
    /// no answer is awaited.
    pub open spec fn version_requested(self) -> CatalogView {
        if self.installed() {
            CatalogView {
                provider_version_probes_pending: self.provider_version_probes_pending.insert(OPENCODE_PROVIDER@),
                ..self
            }
        } else {
            self
        }
    }

    /// The catalogue once a probe of the provider's models came back.
    pub open spec fn probed(self, probe: ProviderProbeView) -> CatalogView {
        CatalogView {
            provider_model_discoveries_pending: self.provider_model_discoveries_pending.remove(OPENCODE_PROVIDER@),
            probes: if self.probes.len() > 0 {
                self.probes.update(0, probe)
            } else {
                self.probes.push(probe)
            },
            ..self
        }
    }

    /// The catalogue once the provider was looked for. While its models are being
    /// asked for, only where it stands is taken over.
    pub open spec fn detected(self, probe: ProviderProbeView, stamp: Stamp) -> CatalogView {
        let remaining = if self.provider_detection_remaining > 0 {
            (self.provider_detection_remaining - 1) as usize
        } else {
            0
        };
        CatalogView {
            provider_detection_remaining: remaining,
            provider_detection_checked_at: if remaining == 0 {
                Some(stamp.millis)
            } else {
                self.provider_detection_checked_at
            },
            probes: if self.probes.len() == 0 {
                self.probes.push(probe)
            } else if self.provider_model_discoveries_pending.contains(OPENCODE_PROVIDER@) {
                self.probes.update(
                    0,
                    ProviderProbeView { installed: probe.installed, path: probe.path, ..self.probes[0] },
                )
            } else {
                self.probes.update(0, probe)
            },
            provider_versions: if probe.installed {
                self.provider_versions
            } else {
                self.provider_versions.remove(OPENCODE_PROVIDER@)
            },
            ..self
        }
    }
}

impl Catalog {
    /// What looking for the provider found.
    pub fn provider_probe(&self) -> (r: Option<&ProviderProbe>)
        ensures
            match r {
                Some(probe) => self@.probes.len() > 0 && probe@ == self@.probes[0],
                None => self@.probes.len() == 0,
            },
    {
        assert(provider_probe_views(self.probes@).len() == self.probes@.len());
        if self.probes.len() > 0 {
            Some(&self.probes[0])
        } else {
            None
        }
    }

    /// The model that a session runs with.
    pub fn model_for_session<'a>(&'a self, session: &'a AgentSession) -> (r: Option<&'a str>)
        ensures
            opt_str(r) == self@.model_for(session@),
    {
        match &session.model {
            Some(model) => Some(model.as_str()),
            None => match self.provider_probe() {
                Some(probe) => match probe.preferred_model() {
                    Some(model) => Some(model.id.as_str()),
                    None => None,
                },
                None => None,
            },
        }
    }

    /// How a model is shown: by its name where it is known, else by its id; without
    /// a model, the provider's name.
    pub fn model_display_name(&self, model: Option<&str>) -> (r: String)
        ensures
            r@ == (match model {
                Some(id) => if self@.probes.len() > 0 && self@.probes[0].model(id@) is Some {
                    self@.probes[0].model(id@)->0.name
                } else {
                    id@
                },
                None => OPENCODE_NAME@,
            }),
    {
        let id = match model {
            Some(id) => id,
            None => {
                return OPENCODE_NAME.to_owned();
            },
        };
        if let Some(probe) = self.provider_probe() {
            if let Some(found) = probe.find_model(id) {
                return found.name.clone();
            }
        }
        id.to_owned()
    }

    /// What is known of the model that a session runs with.
    pub fn model_metadata_for_session(&self, session: &AgentSession) -> (r: Option<&ProviderModel>)
        ensures
            match r {
                Some(model) => self@.metadata_for(session@) == Some(model@),
                None => self@.metadata_for(session@) is None,
            },
    {
        match self.model_for_session(session) {
            Some(model) => match self.provider_probe() {
                Some(probe) => probe.find_model(model),
                None => None,
            },
            None => None,
        }
    }

    /// The options a turn of the session runs with. Starting a driver and changing
    /// the options of a running one both come here, so that they cannot disagree.
    pub fn session_options(&self, session: &AgentSession) -> (r: SessionOptions)
        ensures
            r@ == self@.options_for(session@),
    {
        let model = match self.model_for_session(session) {
            Some(model) => Some(model.to_owned()),
            None => None,
        };
        let metadata = self.model_metadata_for_session(session);
        let reasoning_effort = match metadata {
            Some(known) => {
                let chosen: Option<String> = match &session.reasoning_effort {
                    Some(effort) => if option_offered(&known.reasoning_efforts, effort.as_str()) {
                        Some(effort.clone())
                    } else {
                        None
                    },
                    None => None,
                };
                match chosen {
                    Some(effort) => Some(effort),
                    None => match &known.default_reasoning_effort {
                        Some(effort) => Some(effort.clone()),
                        None => {
                            assert(model_option_views(known.reasoning_efforts@).len()
                                == known.reasoning_efforts@.len());
                            if known.reasoning_efforts.len() > 0 {
                                Some(known.reasoning_efforts[0].id.clone())
                            } else {
                                None
                            }
                        },
                    },
                }
            },
            None => None,
        };
        let service_tier = match &session.service_tier {
            Some(tier) => {
                let offered: bool = same(tier.as_str(), "default") || match metadata {
                    Some(known) => option_offered(&known.service_tiers, tier.as_str()),
                    None => false,
                };
                if offered {
                    Some(tier.clone())
                } else {
                    None
                }
            },
            None => None,
        };
        let context_window = match &session.context_window {
            Some(window) => {
                let offered: bool = match metadata {
                    Some(known) => option_offered(&known.context_windows, window.as_str()),
                    None => false,
                };
                if offered {
                    Some(window.clone())
                } else {
                    None
                }
            },
            None => None,
        };
        SessionOptions {
            mode: session.runtime_mode,
            interaction_mode: session.interaction_mode,
            model,
            reasoning_effort,
            service_tier,
            context_window,
        }
    }

    /// The preset a session runs with.
    pub fn agent_preset_for_session(&self, session: &AgentSession) -> (r: Option<String>)
        ensures
            opt(r) == self@.preset_for(session@),
    {
        match &session.agent_preset {
            Some(preset) => Some(preset.clone()),
            None => match self.provider_probe() {
                Some(probe) => match probe.preferred_agent_preset() {
                    Some(preset) => Some(preset.id.clone()),
                    None => None,
                },
                None => None,
            },
        }
    }

    /// Where the provider's command line stands.
    pub fn binary(&self) -> (r: Option<String>)
        ensures
            opt(r) == self@.binary(),
    {
        match self.provider_probe() {
            Some(probe) => probe.path.clone(),
            None => None,
        }
    }

    /// How the provider of a session is to be started.
    pub fn driver_start_request_for_session(&self, session: &AgentSession, cwd: String) -> (r: Option<DriverStartOptions>)
        ensures
            match r {
                Some(options) => self@.start_for(session@, cwd@) == Some(options@),
                None => self@.start_for(session@, cwd@) is None,
            },
    {
        let binary = match self.binary() {
            Some(binary) => binary,
            None => {
                return None;
            },
        };
        let agent_preset = self.agent_preset_for_session(session);
        let options = self.session_options(session);
        Some(
            DriverStartOptions {
                binary,
                cwd,
                mode: options.mode,
                interaction_mode: options.interaction_mode,
                model: options.model,
                reasoning_effort: options.reasoning_effort,
                service_tier: options.service_tier,
                context_window: options.context_window,
                agent_preset,
                provider_cursor: crate::model::copy_provider_resume_cursor_opt(&session.provider_cursor),
            },
        )
    }

    /// Asks for the provider's models, once; whether the host is to look them up.
    pub fn request_provider_model_discovery(&mut self) -> (r: bool)
        ensures
            final(self)@ == old(self)@.models_requested(),
            r == (!old(self)@.provider_model_discoveries.contains(OPENCODE_PROVIDER@) && old(self)@.installed()),
    {
        if self.provider_model_discoveries.contains(OPENCODE_PROVIDER) {
            return false;
        }
        let installed = match self.provider_probe() {
            Some(probe) => probe.installed,
            None => false,
        };
        if !installed {
            return false;
        }
        let _ = self.provider_model_discoveries.insert(OPENCODE_PROVIDER.to_owned());
        let _ = self.provider_model_discoveries_pending.insert(OPENCODE_PROVIDER.to_owned());
        true
    }

    /// The lookup of models could not be started.
    pub fn model_discovery_failed(&mut self)
        ensures
            final(self)@ == (CatalogView {
                provider_model_discoveries: old(self)@.provider_model_discoveries.remove(OPENCODE_PROVIDER@),
                provider_model_discoveries_pending: old(self)@.provider_model_discoveries_pending.remove(
                    OPENCODE_PROVIDER@,
                ),
                ..old(self)@
            }),
    {
        let _ = self.provider_model_discoveries.remove(OPENCODE_PROVIDER);
        let _ = self.provider_model_discoveries_pending.remove(OPENCODE_PROVIDER);
    }

    /// Asks for the provider's models again, unless an answer is awaited. What is on
    /// screen stays until the answer is there; whether the host is to look them up.
    pub fn refresh_provider_model_discovery(&mut self) -> (r: bool)
        ensures
            r == (!old(self)@.provider_model_discoveries_pending.contains(OPENCODE_PROVIDER@) && old(self)@.installed()),
            final(self)@ == (if old(self)@.provider_model_discoveries_pending.contains(OPENCODE_PROVIDER@) {
                old(self)@
            } else {
                CatalogView {
                    provider_model_discoveries: old(self)@.provider_model_discoveries.remove(OPENCODE_PROVIDER@),
                    ..old(self)@
                }.models_requested()
            }),
    {
        if self.provider_model_discoveries_pending.contains(OPENCODE_PROVIDER) {
            return false;
        }
        let _ = self.provider_model_discoveries.remove(OPENCODE_PROVIDER);
        self.request_provider_model_discovery()
    }

    /// Asks for the version of the provider's command line; whether the host is to
    /// look it up.
    pub fn request_provider_version_probes(&mut self) -> (r: bool)
        ensures
            final(self)@ == old(self)@.version_requested(),
            r == (old(self)@.installed() && !old(self)@.provider_version_probes_pending.contains(OPENCODE_PROVIDER@)),
    {
        let installed = match self.provider_probe() {
            Some(probe) => probe.installed,
            None => false,
        };
        if !installed {
            return false;
        }
        self.provider_version_probes_pending.insert(OPENCODE_PROVIDER.to_owned())
    }

    /// Takes in the version that a command line reported.
    pub fn take_provider_version(&mut self, provider: String, version: Option<String>)
        ensures
            final(self)@ == (CatalogView {
                provider_version_probes_pending: old(self)@.provider_version_probes_pending.remove(provider@),
                provider_versions: old(self)@.provider_versions.insert(provider@, version),
                ..old(self)@
            }),
    {
        let _ = self.provider_version_probes_pending.remove(provider.as_str());
        let _ = self.provider_versions.insert(provider, version);
    }

    /// The lookup of the version could not be started.
    pub fn version_probe_failed(&mut self)
        ensures
            final(self)@ == (CatalogView {
                provider_version_probes_pending: old(self)@.provider_version_probes_pending.remove(OPENCODE_PROVIDER@),
                ..old(self)@
            }),
    {
        let _ = self.provider_version_probes_pending.remove(OPENCODE_PROVIDER);
    }

    /// Has the provider looked for again, unless that is under way. Whether the host is to
    /// look.
    pub fn refresh_provider_detection(&mut self) -> (r: bool)
        ensures
            r == (old(self)@.provider_detection_remaining == 0),
            final(self)@ == (if r {
                CatalogView { provider_detection_remaining: 1, ..old(self)@ }
            } else {
                old(self)@
            }),
    {
        if self.provider_detection_remaining > 0 {
            return false;
        }
        self.provider_detection_remaining = 1;
        true
    }

    /// The host says whether it looks for the provider. A search checks everything again:
    /// the models may be asked for anew.
    pub fn provider_detection_started(&mut self, started: bool)
        ensures
            final(self)@ == (if started {
                CatalogView {
                    provider_model_discoveries: old(self)@.provider_model_discoveries.remove(OPENCODE_PROVIDER@),
                    ..old(self)@
                }
            } else {
                CatalogView { provider_detection_remaining: 0, ..old(self)@ }
            }),
    {
        if started {
            let _ = self.provider_model_discoveries.remove(OPENCODE_PROVIDER);
        } else {
            self.provider_detection_remaining = 0;
        }
    }

    /// Takes in what looking for the provider found.
    pub fn take_provider_detection(&mut self, probe: ProviderProbe, stamp: Stamp)
        ensures
            final(self)@ == old(self)@.detected(probe@, stamp),
    {
        let installed = probe.installed;
        if self.provider_detection_remaining > 0 {
            self.provider_detection_remaining = self.provider_detection_remaining - 1;
        }
        if self.provider_detection_remaining == 0 {
            self.provider_detection_checked_at = Some(stamp.millis);
        }
        let ghost before = self.probes@;
        assert(provider_probe_views(before).len() == before.len());
        if self.probes.len() > 0 {
            if self.provider_model_discoveries_pending.contains(OPENCODE_PROVIDER) {
                self.probes[0].installed = probe.installed;
                self.probes[0].path = probe.path;
            } else {
                self.probes[0] = probe;
            }
        } else {
            self.probes.push(probe);
        }
        assert(provider_probe_views(self.probes@) =~= old(self)@.detected(probe@, stamp).probes);
        if !installed {
            let _ = self.provider_versions.remove(OPENCODE_PROVIDER);
        }
    }

    /// Takes in every answer to a search for the provider, in order, and asks for what
    /// follows from the last: its models where it was found, its version in any case.
    pub fn drain_provider_detection_events(&mut self, probes: Vec<ProviderProbe>, stamp: Stamp) -> (r: Requests)
        ensures
            final(self)@ == old(self)@.detections_drained(provider_probe_views(probes@), stamp),
            r.changed == (probes@.len() > 0),
            ({
                let taken = old(self)@.detected_all(provider_probe_views(probes@), stamp);
                &&& r.discover_models == (r.changed && probes@.last().installed
                    && !taken.provider_model_discoveries.contains(OPENCODE_PROVIDER@) && taken.installed())
                &&& r.probe_version == (r.changed && taken.installed()
                    && !taken.provider_version_probes_pending.contains(OPENCODE_PROVIDER@))
            }),
    {
        let ghost all = probes@;
        let changed = probes.len() > 0;
        let installed = if changed {
            probes[probes.len() - 1].installed
        } else {
            false
        };
        let mut probes = probes;
        let ghost mut done: int = 0;
        assert(all.skip(0) =~= all);
        assert(provider_probe_views(all.take(0)) =~= Seq::empty());
        while probes.len() > 0
            invariant
                0 <= done <= all.len(),
                probes@ == all.skip(done),
                self@ == old(self)@.detected_all(provider_probe_views(all.take(done)), stamp),
            decreases probes@.len(),
        {
            let probe = probes.remove(0);
            proof {
                assert(all.skip(done).remove(0) =~= all.skip(done + 1));
                assert(provider_probe_views(all.take(done + 1)).drop_last() =~= provider_probe_views(all.take(done)));
                assert(provider_probe_views(all.take(done + 1)).last() == all[done]@);
            }
            self.take_provider_detection(probe, stamp);
            proof {
                done = done + 1;
            }
        }
        assert(all.take(done) =~= all);
        assert(provider_probe_views(all).len() == all.len());
        let mut discover: bool = false;
        let mut version: bool = false;
        if installed {
            discover = self.request_provider_model_discovery();
        }
        if changed {
            version = self.request_provider_version_probes();
        }
        Requests { changed, discover_models: discover, probe_version: version }
    }

    /// Takes in a probe of the provider's models.
    pub fn take_provider_probe(&mut self, probe: ProviderProbe)
        ensures
            final(self)@ == old(self)@.probed(probe@),
    {
        let _ = self.provider_model_discoveries_pending.remove(OPENCODE_PROVIDER);
        let ghost before = self.probes@;
        assert(provider_probe_views(before).len() == before.len());
        if self.probes.len() > 0 {
            self.probes[0] = probe;
        } else {
            self.probes.push(probe);
        }
        assert(provider_probe_views(self.probes@) =~= old(self)@.probed(probe@).probes);
    }
}

/// The versions that command lines reported, by provider.
pub open spec fn version_views(s: Seq<(String, Option<String>)>) -> Seq<(Seq<char>, Option<String>)> {
    s.map_values(|x: (String, Option<String>)| (x.0@, x.1))
}

impl Catalog {
    /// Takes in every probe of the provider's models, in order; whether there was one.
    pub fn drain_provider_probe_events(&mut self, probes: Vec<ProviderProbe>) -> (r: bool)
        ensures
            final(self)@ == old(self)@.probed_all(provider_probe_views(probes@)),
            r == (probes@.len() > 0),
    {
        let ghost all = probes@;
        let changed = probes.len() > 0;
        let mut probes = probes;
        let ghost mut done: int = 0;
        assert(all.skip(0) =~= all);
        assert(provider_probe_views(all.take(0)) =~= Seq::empty());
        while probes.len() > 0
            invariant
                0 <= done <= all.len(),
                probes@ == all.skip(done),
                self@ == old(self)@.probed_all(provider_probe_views(all.take(done))),
            decreases probes@.len(),
        {
            let probe = probes.remove(0);
            proof {
                assert(all.skip(done).remove(0) =~= all.skip(done + 1));
                assert(provider_probe_views(all.take(done + 1)).drop_last() =~= provider_probe_views(all.take(done)));
                assert(provider_probe_views(all.take(done + 1)).last() == all[done]@);
            }
            self.take_provider_probe(probe);
            proof {
                done = done + 1;
            }
        }
        assert(all.take(done) =~= all);
        changed
    }

    /// Takes in every version that a command line reported, in order; whether there was
    /// one.
    pub fn drain_provider_version_events(&mut self, versions: Vec<(String, Option<String>)>) -> (r: bool)
        ensures
            final(self)@ == old(self)@.versioned_all(version_views(versions@)),
            r == (versions@.len() > 0),
    {
        let ghost all = versions@;
        let changed = versions.len() > 0;
        let mut versions = versions;
        let ghost mut done: int = 0;
        assert(all.skip(0) =~= all);
        assert(version_views(all.take(0)) =~= Seq::empty());
        while versions.len() > 0
            invariant
                0 <= done <= all.len(),
                versions@ == all.skip(done),
                self@ == old(self)@.versioned_all(version_views(all.take(done))),
            decreases versions@.len(),
        {
            let (provider, version) = versions.remove(0);
            proof {
                assert(all.skip(done).remove(0) =~= all.skip(done + 1));
                assert(version_views(all.take(done + 1)).drop_last() =~= version_views(all.take(done)));
                assert(version_views(all.take(done + 1)).last() == (provider@, version));
            }
            self.take_provider_version(provider, version);
            proof {
                done = done + 1;
            }
        }
        assert(all.take(done) =~= all);
        changed
    }
}

impl CatalogView {
    /// The catalogue once several probes of the provider's models came back.
    pub open spec fn probed_all(self, probes: Seq<ProviderProbeView>) -> CatalogView
        decreases probes.len(),
    {
        if probes.len() == 0 {
            self
        } else {
            self.probed_all(probes.drop_last()).probed(probes.last())
        }
    }

    /// The catalogue once several versions were reported.
    pub open spec fn versioned_all(self, versions: Seq<(Seq<char>, Option<String>)>) -> CatalogView
        decreases versions.len(),
    {
        if versions.len() == 0 {
            self
        } else {
            let before = self.versioned_all(versions.drop_last());
            CatalogView {
                provider_version_probes_pending: before.provider_version_probes_pending.remove(versions.last().0),
                provider_versions: before.provider_versions.insert(versions.last().0, versions.last().1),
                ..before
            }
        }
    }
}

/// What a drained queue of answers leads to.
#[derive(Clone, Copy, Debug, PartialEq, Eq, Structural)]
pub struct Requests {
    /// Whether anything was taken in.
    pub changed: bool,
    /// Whether the host is to look up the models.
    pub discover_models: bool,
    /// Whether the host is to look up the version.
    pub probe_version: bool,
}

impl CatalogView {
    /// The catalogue once several answers to a search for the provider were taken in.
    pub open spec fn detected_all(self, probes: Seq<ProviderProbeView>, stamp: Stamp) -> CatalogView
        decreases probes.len(),
    {
        if probes.len() == 0 {
            self
        } else {
            self.detected_all(probes.drop_last(), stamp).detected(probes.last(), stamp)
        }
    }

    /// The catalogue once the answers were taken in and what follows was asked for.
    pub open spec fn detections_drained(self, probes: Seq<ProviderProbeView>, stamp: Stamp) -> CatalogView {
        let taken = self.detected_all(probes, stamp);
        if probes.len() == 0 {
            taken
        } else if probes.last().installed {
            taken.models_requested().version_requested()
        } else {
            taken.version_requested()
        }
    }
}

} // verus!
