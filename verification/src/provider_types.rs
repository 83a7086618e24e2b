//! The model providers that a user sets up: what they are, and what is known of them.
use vstd::prelude::*;

use crate::desk::{Text, TextView};
use crate::keyed::{StrMap, StrSet};
use crate::text::{copy_texts, opt, same, texts};

verus! {

/// The dialect that a provider is spoken to in.
#[derive(Clone, Copy, Debug, PartialEq, Eq, Hash, Structural)]
pub enum ProviderApiFormat {
    OpenAi,
    OpenAiResponses,
    Anthropic,
}

/// A model of a provider.
#[derive(Debug)]
pub struct CustomProviderModel {
    pub id: String,
    pub name: Option<String>,
    pub context_window: Option<u64>,
    pub output_limit: Option<u64>,
    /// What it takes in, as far as the user said so.
    pub input_modalities: Vec<String>,
}

/// What a [`CustomProviderModel`] holds.
#[verifier::ext_equal]
pub ghost struct CustomProviderModelView {
    pub id: Seq<char>,
    pub name: Option<Seq<char>>,
    pub context_window: Option<u64>,
    pub output_limit: Option<u64>,
    pub input_modalities: Seq<Seq<char>>,
}

impl View for CustomProviderModel {
    type V = CustomProviderModelView;

    open spec fn view(&self) -> CustomProviderModelView {
        CustomProviderModelView {
            id: self.id@,
            name: opt(self.name),
            context_window: self.context_window,
            output_limit: self.output_limit,
            input_modalities: texts(self.input_modalities@),
        }
    }
}

/// What a list of them holds.
pub open spec fn custom_provider_model_views(s: Seq<CustomProviderModel>) -> Seq<CustomProviderModelView> {
    s.map_values(|x: CustomProviderModel| x@)
}

impl Clone for CustomProviderModel {
    /// A second value that holds the same.
    fn clone(&self) -> (r: CustomProviderModel)
        ensures
            r@ == self@,
    {
        CustomProviderModel {
            id: self.id.clone(),
            name: self.name.clone(),
            context_window: self.context_window,
            output_limit: self.output_limit,
            input_modalities: copy_texts(&self.input_modalities),
        }
    }
}

/// A second list that holds the same.
pub fn copy_custom_provider_models(v: &Vec<CustomProviderModel>) -> (r: Vec<CustomProviderModel>)
    ensures
        custom_provider_model_views(r@) == custom_provider_model_views(v@),
{
    let mut r: Vec<CustomProviderModel> = Vec::new();
    let mut i: usize = 0;
    while i < v.len()
        invariant
            i <= v@.len(),
            custom_provider_model_views(r@) == custom_provider_model_views(v@.take(i as int)),
        decreases v@.len() - i,
    {
        let item = v[i].clone();
        let ghost before = r@;
        r.push(item);
        assert(custom_provider_model_views(r@) =~= custom_provider_model_views(before).push(item@));
        assert(custom_provider_model_views(v@.take(i + 1)) =~= custom_provider_model_views(v@.take(i as int)).push(v@[i as int]@));
        i = i + 1;
    }
    assert(v@.take(i as int) =~= v@);
    r
}

/// A provider that the user set up.
#[derive(Debug)]
pub struct CustomProvider {
    pub id: String,
    pub slug: String,
    pub name: String,
    pub base_url: String,
    pub api_format: ProviderApiFormat,
    pub api_key: String,
    pub enabled: bool,
    /// Whether the user chose the dialect.
    pub npm_touched: bool,
    pub models: Vec<CustomProviderModel>,
}

/// What a [`CustomProvider`] holds.
#[verifier::ext_equal]
pub ghost struct CustomProviderView {
    pub id: Seq<char>,
    pub slug: Seq<char>,
    pub name: Seq<char>,
    pub base_url: Seq<char>,
    pub api_format: ProviderApiFormat,
    pub api_key: Seq<char>,
    pub enabled: bool,
    pub npm_touched: bool,
    pub models: Seq<CustomProviderModelView>,
}

impl View for CustomProvider {
    type V = CustomProviderView;

    open spec fn view(&self) -> CustomProviderView {
        CustomProviderView {
            id: self.id@,
            slug: self.slug@,
            name: self.name@,
            base_url: self.base_url@,
            api_format: self.api_format,
            api_key: self.api_key@,
            enabled: self.enabled,
            npm_touched: self.npm_touched,
            models: custom_provider_model_views(self.models@),
        }
    }
}

/// What a list of them holds.
pub open spec fn custom_provider_views(s: Seq<CustomProvider>) -> Seq<CustomProviderView> {
    s.map_values(|x: CustomProvider| x@)
}

/// What an optional one holds.
pub open spec fn custom_provider_opt(o: Option<CustomProvider>) -> Option<CustomProviderView> {
    match o {
        Some(x) => Some(x@),
        None => None,
    }
}

impl Clone for CustomProvider {
    /// A second value that holds the same.
    fn clone(&self) -> (r: CustomProvider)
        ensures
            r@ == self@,
    {
        CustomProvider {
            id: self.id.clone(),
            slug: self.slug.clone(),
            name: self.name.clone(),
            base_url: self.base_url.clone(),
            api_format: self.api_format,
            api_key: self.api_key.clone(),
            enabled: self.enabled,
            npm_touched: self.npm_touched,
            models: copy_custom_provider_models(&self.models),
        }
    }
}

/// A row of the form, for a model that does not exist yet.
#[derive(Debug)]
pub struct ProviderFormModelDraft {
    /// What the row is told apart by.
    pub key: u64,
    pub id: String,
    pub context: String,
    pub input_modalities: Vec<String>,
}

/// What a [`ProviderFormModelDraft`] holds.
#[verifier::ext_equal]
pub ghost struct ProviderFormModelDraftView {
    pub key: u64,
    pub id: Seq<char>,
    pub context: Seq<char>,
    pub input_modalities: Seq<Seq<char>>,
}

impl View for ProviderFormModelDraft {
    type V = ProviderFormModelDraftView;

    open spec fn view(&self) -> ProviderFormModelDraftView {
        ProviderFormModelDraftView {
            key: self.key,
            id: self.id@,
            context: self.context@,
            input_modalities: texts(self.input_modalities@),
        }
    }
}

/// What a list of them holds.
pub open spec fn provider_form_model_draft_views(s: Seq<ProviderFormModelDraft>) -> Seq<ProviderFormModelDraftView> {
    s.map_values(|x: ProviderFormModelDraft| x@)
}

/// Why the list of models could not be had.
#[derive(Debug)]
pub enum ApiListError {
    InvalidBaseUrl,
    AuthRejected(u16),
    ListMissing,
    HttpStatus(u16),
    Unreachable(String),
    NoModelList(String),
}

/// What an [`ApiListError`] holds.
#[verifier::ext_equal]
pub ghost enum ApiListErrorView {
    InvalidBaseUrl,
    AuthRejected(u16),
    ListMissing,
    HttpStatus(u16),
    Unreachable(Seq<char>),
    NoModelList(Seq<char>),
}

impl View for ApiListError {
    type V = ApiListErrorView;

    open spec fn view(&self) -> ApiListErrorView {
        match self {
            ApiListError::InvalidBaseUrl => ApiListErrorView::InvalidBaseUrl,
            ApiListError::AuthRejected(status) => ApiListErrorView::AuthRejected(*status),
            ApiListError::ListMissing => ApiListErrorView::ListMissing,
            ApiListError::HttpStatus(status) => ApiListErrorView::HttpStatus(*status),
            ApiListError::Unreachable(error) => ApiListErrorView::Unreachable(error@),
            ApiListError::NoModelList(error) => ApiListErrorView::NoModelList(error@),
        }
    }
}

/// Why no first token came.
#[derive(Debug)]
pub enum FirstTokenError {
    InvalidBaseUrl,
    HttpStatus { status: u16, message: Option<String> },
    Unreachable(String),
    NoStreamData { message: Option<String> },
    Timeout,
}

/// What a [`FirstTokenError`] holds.
#[verifier::ext_equal]
pub ghost enum FirstTokenErrorView {
    InvalidBaseUrl,
    HttpStatus { status: u16, message: Option<Seq<char>> },
    Unreachable(Seq<char>),
    NoStreamData { message: Option<Seq<char>> },
    Timeout,
}

impl View for FirstTokenError {
    type V = FirstTokenErrorView;

    open spec fn view(&self) -> FirstTokenErrorView {
        match self {
            FirstTokenError::InvalidBaseUrl => FirstTokenErrorView::InvalidBaseUrl,
            FirstTokenError::HttpStatus { status, message } => FirstTokenErrorView::HttpStatus {
                status: *status,
                message: opt(*message),
            },
            FirstTokenError::Unreachable(error) => FirstTokenErrorView::Unreachable(error@),
            FirstTokenError::NoStreamData { message } => FirstTokenErrorView::NoStreamData { message: opt(*message) },
            FirstTokenError::Timeout => FirstTokenErrorView::Timeout,
        }
    }
}

/// How a test of the connection stands.
#[derive(Debug)]
pub enum ProviderConnectivityState {
    Testing,
    /// The provider answered, in so many nanoseconds.
    Reachable { models: usize, latency: u64 },
    Failed(ApiListError),
}

/// What a [`ProviderConnectivityState`] holds.
#[verifier::ext_equal]
pub ghost enum ConnectivityView {
    Testing,
    Reachable { models: usize, latency: u64 },
    Failed(ApiListErrorView),
}

impl View for ProviderConnectivityState {
    type V = ConnectivityView;

    open spec fn view(&self) -> ConnectivityView {
        match self {
            ProviderConnectivityState::Testing => ConnectivityView::Testing,
            ProviderConnectivityState::Reachable { models, latency } => ConnectivityView::Reachable {
                models: *models,
                latency: *latency,
            },
            ProviderConnectivityState::Failed(error) => ConnectivityView::Failed(error@),
        }
    }
}

/// What an optional test holds.
pub open spec fn connectivity_opt(state: Option<ProviderConnectivityState>) -> Option<ConnectivityView> {
    match state {
        Some(s) => Some(s@),
        None => None,
    }
}

/// How a test of a model's speed stands.
#[derive(Debug)]
pub enum ModelLatencyState {
    Testing,
    /// The first token came after so many nanoseconds.
    Done(u64),
    Failed(FirstTokenError),
}

/// What a [`ModelLatencyState`] holds.
#[verifier::ext_equal]
pub ghost enum LatencyView {
    Testing,
    Done(u64),
    Failed(FirstTokenErrorView),
}

impl View for ModelLatencyState {
    type V = LatencyView;

    open spec fn view(&self) -> LatencyView {
        match self {
            ModelLatencyState::Testing => LatencyView::Testing,
            ModelLatencyState::Done(latency) => LatencyView::Done(*latency),
            ModelLatencyState::Failed(error) => LatencyView::Failed(error@),
        }
    }
}

/// The tests of models, by provider and model.
#[derive(Debug)]
pub struct Latencies {
    entries: Vec<(String, String, ModelLatencyState)>,
}

/// The states in a list, the later ones in place of the earlier.
pub open spec fn latency_map(s: Seq<(String, String, ModelLatencyState)>) -> Map<(Seq<char>, Seq<char>), LatencyView>
    decreases s.len(),
{
    if s.len() == 0 {
        Map::empty()
    } else {
        latency_map(s.drop_last()).insert((s.last().0@, s.last().1@), s.last().2@)
    }
}

/// A map without the entries of one provider.
pub open spec fn without_owner(m: Map<(Seq<char>, Seq<char>), LatencyView>, owner: Seq<char>) -> Map<
    (Seq<char>, Seq<char>),
    LatencyView,
> {
    m.remove_keys(m.dom().filter(|key: (Seq<char>, Seq<char>)| key.0 == owner))
}

impl View for Latencies {
    type V = Map<(Seq<char>, Seq<char>), LatencyView>;

    closed spec fn view(&self) -> Map<(Seq<char>, Seq<char>), LatencyView> {
        latency_map(self.entries@)
    }
}

impl Latencies {
    /// No tests.
    pub fn new() -> (r: Latencies)
        ensures
            r@ == Map::<(Seq<char>, Seq<char>), LatencyView>::empty(),
    {
        Latencies { entries: Vec::new() }
    }

    /// How the test of a model stands.
    pub fn get(&self, provider_id: &str, model_id: &str) -> (r: Option<&ModelLatencyState>)
        ensures
            match r {
                Some(state) => self@.dom().contains((provider_id@, model_id@)) && self@[(provider_id@, model_id@)] == state@,
                None => !self@.dom().contains((provider_id@, model_id@)),
            },
    {
        let ghost key = (provider_id@, model_id@);
        let mut i: usize = self.entries.len();
        assert(self.entries@.take(i as int) =~= self.entries@);
        while i > 0
            invariant
                i <= self.entries@.len(),
                key == (provider_id@, model_id@),
                latency_map(self.entries@).dom().contains(key) == latency_map(self.entries@.take(i as int)).dom().contains(key),
                latency_map(self.entries@.take(i as int)).dom().contains(key) ==> latency_map(self.entries@)[key]
                    == latency_map(self.entries@.take(i as int))[key],
            decreases i,
        {
            assert(self.entries@.take(i as int).drop_last() =~= self.entries@.take(i - 1));
            assert(self.entries@.take(i as int).last() == self.entries@[i - 1]);
            if same(self.entries[i - 1].0.as_str(), provider_id) && same(self.entries[i - 1].1.as_str(), model_id) {
                return Some(&self.entries[i - 1].2);
            }
            i = i - 1;
        }
        None
    }

    /// Says how the test of a model stands.
    pub fn insert(&mut self, provider_id: String, model_id: String, state: ModelLatencyState)
        ensures
            final(self)@ == old(self)@.insert((provider_id@, model_id@), state@),
    {
        let ghost before = self.entries@;
        self.entries.push((provider_id, model_id, state));
        assert(self.entries@.drop_last() =~= before);
    }

    /// Drops the tests of a provider's models.
    pub fn remove_owner(&mut self, provider_id: &str)
        ensures
            final(self)@ == without_owner(old(self)@, provider_id@),
    {
        let ghost all = self.entries@;
        let mut rest: Vec<(String, String, ModelLatencyState)> = Vec::new();
        let mut old_entries: Vec<(String, String, ModelLatencyState)> = Vec::new();
        std::mem::swap(&mut old_entries, &mut self.entries);
        let ghost mut done: int = 0;
        assert(all.take(0) =~= Seq::empty());
        assert(all.skip(0) =~= all);
        assert(without_owner(latency_map(all.take(0)), provider_id@) =~= Map::empty());
        while old_entries.len() > 0
            invariant
                0 <= done <= all.len(),
                old_entries@ == all.skip(done),
                latency_map(rest@) == without_owner(latency_map(all.take(done)), provider_id@),
            decreases old_entries@.len(),
        {
            let ghost rest_before = old_entries@;
            let entry = old_entries.remove(0);
            proof {
                assert(rest_before[0] == all[done]);
                assert(old_entries@ =~= all.skip(done + 1));
                assert(all.take(done + 1).drop_last() =~= all.take(done));
                assert(all.take(done + 1).last() == all[done]);
            }
            let hit: bool = same(entry.0.as_str(), provider_id);
            let ghost before = rest@;
            if !hit {
                rest.push(entry);
                assert(rest@.drop_last() =~= before);
            }
            proof {
                let now = without_owner(latency_map(all.take(done + 1)), provider_id@);
                assert(now =~= latency_map(rest@));
                done = done + 1;
            }
        }
        assert(all.take(done) =~= all);
        self.entries = rest;
    }
}

/// Which row of models is being edited.
#[derive(Clone, Copy, Debug, PartialEq, Eq, Structural)]
pub enum ProvidersModelEditor {
    Add,
    Edit(usize),
}

/// What a change on the page asks of the host.
#[derive(Debug)]
pub enum ProvidersEffect {
    Notify,
    /// Write the providers to the configuration, with a note where that fails.
    Commit,
    /// Look for the providers' models again.
    RefreshDetection,
    /// Read the providers from the configuration; the number says for which visit.
    LoadConfig(u64),
    /// Commit after seven tenths of a second, unless another edit comes.
    CommitLater(u64),
    /// See to it that the table of models is there.
    EnsureTable,
    /// Ask the server which providers are connected.
    RefreshIntegrations,
    /// Take the focus from whatever has it.
    Blur,
    Toast(Text),
    /// A note that mentions an error, with the wording of the error.
    ErrorToast(Text, Text),
    SuccessToast(Text),
}

/// What a [`ProvidersEffect`] holds.
#[verifier::ext_equal]
pub ghost enum ProvidersEffectView {
    Notify,
    Commit,
    RefreshDetection,
    LoadConfig(u64),
    CommitLater(u64),
    EnsureTable,
    RefreshIntegrations,
    Blur,
    Toast(TextView),
    ErrorToast(TextView, TextView),
    SuccessToast(TextView),
}

impl View for ProvidersEffect {
    type V = ProvidersEffectView;

    open spec fn view(&self) -> ProvidersEffectView {
        match self {
            ProvidersEffect::Notify => ProvidersEffectView::Notify,
            ProvidersEffect::Commit => ProvidersEffectView::Commit,
            ProvidersEffect::RefreshDetection => ProvidersEffectView::RefreshDetection,
            ProvidersEffect::LoadConfig(generation) => ProvidersEffectView::LoadConfig(*generation),
            ProvidersEffect::CommitLater(generation) => ProvidersEffectView::CommitLater(*generation),
            ProvidersEffect::EnsureTable => ProvidersEffectView::EnsureTable,
            ProvidersEffect::RefreshIntegrations => ProvidersEffectView::RefreshIntegrations,
            ProvidersEffect::Blur => ProvidersEffectView::Blur,
            ProvidersEffect::Toast(text) => ProvidersEffectView::Toast(text@),
            ProvidersEffect::ErrorToast(text, error) => ProvidersEffectView::ErrorToast(text@, error@),
            ProvidersEffect::SuccessToast(text) => ProvidersEffectView::SuccessToast(text@),
        }
    }
}

/// What a list of them holds.
pub open spec fn providers_effect_views(s: Seq<ProvidersEffect>) -> Seq<ProvidersEffectView> {
    s.map_values(|e: ProvidersEffect| e@)
}

/// The form for a new provider.
#[derive(Debug)]
pub struct ProviderForm {
    pub name: String,
    pub base_url: String,
    pub api_key: String,
    pub format: ProviderApiFormat,
    pub models: Vec<ProviderFormModelDraft>,
    /// What was learned of models beyond what the rows hold.
    pub catalog: StrMap<CustomProviderModel>,
    pub connectivity: Option<ProviderConnectivityState>,
    pub fetching: bool,
    pub fetch_generation: u64,
    pub probe_generation: u64,
    /// A kind of provider is still to be picked.
    pub picking: bool,
}

/// What a [`ProviderForm`] holds.
pub ghost struct ProviderFormView {
    pub name: Seq<char>,
    pub base_url: Seq<char>,
    pub api_key: Seq<char>,
    pub format: ProviderApiFormat,
    pub models: Seq<ProviderFormModelDraftView>,
    pub catalog: Map<Seq<char>, CustomProviderModelView>,
    pub connectivity: Option<ConnectivityView>,
    pub fetching: bool,
    pub fetch_generation: u64,
    pub probe_generation: u64,
    pub picking: bool,
}

/// What a map of models holds.
pub open spec fn model_map(m: Map<Seq<char>, CustomProviderModel>) -> Map<Seq<char>, CustomProviderModelView> {
    m.map_values(|x: CustomProviderModel| x@)
}

impl View for ProviderForm {
    type V = ProviderFormView;

    open spec fn view(&self) -> ProviderFormView {
        ProviderFormView {
            name: self.name@,
            base_url: self.base_url@,
            api_key: self.api_key@,
            format: self.format,
            models: provider_form_model_draft_views(self.models@),
            catalog: model_map(self.catalog@),
            connectivity: connectivity_opt(self.connectivity),
            fetching: self.fetching,
            fetch_generation: self.fetch_generation,
            probe_generation: self.probe_generation,
            picking: self.picking,
        }
    }
}

/// The page of providers.
#[derive(Debug)]
pub struct Providers {
    pub store: Vec<CustomProvider>,
    pub selected: Option<String>,
    /// The form for a new provider is open.
    pub adding: bool,
    pub form: ProviderForm,
    pub renaming: bool,
    pub rename_input: String,
    pub api_key_revealed: bool,
    /// The provider that goes away at the next press.
    pub delete_arming: Option<String>,
    pub base_url_input: String,
    pub api_key_input: String,
    pub model_editor: Option<ProvidersModelEditor>,
    pub model_editor_modalities: Vec<String>,
    pub model_id_input: String,
    pub model_context_input: String,
    /// Counts the times the configuration was read.
    pub load_generation: u64,
    /// Counts the edits that wait to be written; none waits at zero.
    pub commit_generation: u64,
    pub connectivity: StrMap<ProviderConnectivityState>,
    pub latency: Latencies,
    /// The models of a provider are being asked for.
    pub fetching: bool,
    /// The table of models is being read.
    pub table_loading: bool,
    /// There is a table of models.
    pub has_table: bool,
    pub builtin_loaded: bool,
    pub builtin_loading: bool,
    pub auth_loading: bool,
    /// The providers that are connected.
    pub authorized: StrSet,
    /// The providers that take a key.
    pub key_methods: StrSet,
    pub builtin_connectivity: Option<ProviderConnectivityState>,
    pub builtin_probe_id: Option<String>,
    /// How far the details are scrolled.
    pub detail_scroll: i32,
    /// What the host is asked to do, in order.
    pub effects: Vec<ProvidersEffect>,
}

/// What [`Providers`] hold.
pub ghost struct ProvidersView {
    pub store: Seq<CustomProviderView>,
    pub selected: Option<Seq<char>>,
    pub adding: bool,
    pub form: ProviderFormView,
    pub renaming: bool,
    pub rename_input: Seq<char>,
    pub api_key_revealed: bool,
    pub delete_arming: Option<Seq<char>>,
    pub base_url_input: Seq<char>,
    pub api_key_input: Seq<char>,
    pub model_editor: Option<ProvidersModelEditor>,
    pub model_editor_modalities: Seq<Seq<char>>,
    pub model_id_input: Seq<char>,
    pub model_context_input: Seq<char>,
    pub load_generation: u64,
    pub commit_generation: u64,
    pub connectivity: Map<Seq<char>, ConnectivityView>,
    pub latency: Map<(Seq<char>, Seq<char>), LatencyView>,
    pub fetching: bool,
    pub table_loading: bool,
    pub has_table: bool,
    pub builtin_loaded: bool,
    pub builtin_loading: bool,
    pub auth_loading: bool,
    pub authorized: Set<Seq<char>>,
    pub key_methods: Set<Seq<char>>,
    pub builtin_connectivity: Option<ConnectivityView>,
    pub builtin_probe_id: Option<Seq<char>>,
    pub detail_scroll: i32,
    pub effects: Seq<ProvidersEffectView>,
}

/// What a map of tests holds.
pub open spec fn connectivity_map(m: Map<Seq<char>, ProviderConnectivityState>) -> Map<Seq<char>, ConnectivityView> {
    m.map_values(|x: ProviderConnectivityState| x@)
}

impl View for Providers {
    type V = ProvidersView;

    open spec fn view(&self) -> ProvidersView {
        ProvidersView {
            store: custom_provider_views(self.store@),
            selected: opt(self.selected),
            adding: self.adding,
            form: self.form@,
            renaming: self.renaming,
            rename_input: self.rename_input@,
            api_key_revealed: self.api_key_revealed,
            delete_arming: opt(self.delete_arming),
            base_url_input: self.base_url_input@,
            api_key_input: self.api_key_input@,
            model_editor: self.model_editor,
            model_editor_modalities: texts(self.model_editor_modalities@),
            model_id_input: self.model_id_input@,
            model_context_input: self.model_context_input@,
            load_generation: self.load_generation,
            commit_generation: self.commit_generation,
            connectivity: connectivity_map(self.connectivity@),
            latency: self.latency@,
            fetching: self.fetching,
            table_loading: self.table_loading,
            has_table: self.has_table,
            builtin_loaded: self.builtin_loaded,
            builtin_loading: self.builtin_loading,
            auth_loading: self.auth_loading,
            authorized: self.authorized@,
            key_methods: self.key_methods@,
            builtin_connectivity: connectivity_opt(self.builtin_connectivity),
            builtin_probe_id: opt(self.builtin_probe_id),
            detail_scroll: self.detail_scroll,
            effects: providers_effect_views(self.effects@),
        }
    }
}

} // verus!
