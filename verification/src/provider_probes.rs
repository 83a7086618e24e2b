//! What is asked of providers over the network: their models, whether they answer, and how
//! fast a model is.
use vstd::prelude::*;

use crate::desk::{wording, wording_with, Text, TextView};
use crate::keyed::StrSet;
use crate::lines::{decimal, decimal_of};
use crate::provider_forms::{fetch_note, fetch_text, MergeOutcome};
use crate::provider_types::{
    connectivity_map, custom_provider_model_views, custom_provider_opt, custom_provider_views,
    ApiListError, ApiListErrorView, ConnectivityView, CustomProvider, CustomProviderModel,
    CustomProviderModelView, CustomProviderView, FirstTokenError, FirstTokenErrorView, LatencyView,
    ModelLatencyState, ProviderConnectivityState, Providers, ProvidersEffect, ProvidersEffectView,
    ProvidersView,
};
use crate::providers_page::provider_pos;
use crate::text::{opt, opt_str, same, trim, trimmed};

verus! {

/// What is said where the list of models could not be had.
pub open spec fn list_error_text(error: ApiListErrorView) -> TextView {
    match error {
        ApiListErrorView::InvalidBaseUrl => wording("providers.error_invalid_url"),
        ApiListErrorView::AuthRejected(status) => wording_with("providers.error_auth", "status", decimal(status as nat)),
        ApiListErrorView::ListMissing => wording("providers.error_list_missing"),
        ApiListErrorView::HttpStatus(status) => wording_with("providers.error_status", "status", decimal(status as nat)),
        ApiListErrorView::Unreachable(error) => wording_with("providers.error_unreachable", "error", error),
        ApiListErrorView::NoModelList(error) => wording_with("providers.error_no_list", "error", error),
    }
}

/// What is said where the list of models could not be had.
pub fn api_list_error_text(error: &ApiListError) -> (r: Text)
    ensures
        r@ == list_error_text(error@),
{
    match error {
        ApiListError::InvalidBaseUrl => Text::key("providers.error_invalid_url"),
        ApiListError::AuthRejected(status) => Text::with("providers.error_auth", "status", decimal_of(*status as u64)),
        ApiListError::ListMissing => Text::key("providers.error_list_missing"),
        ApiListError::HttpStatus(status) => Text::with("providers.error_status", "status", decimal_of(*status as u64)),
        ApiListError::Unreachable(error) => Text::with("providers.error_unreachable", "error", error.clone()),
        ApiListError::NoModelList(error) => Text::with("providers.error_no_list", "error", error.clone()),
    }
}

/// What is said where no first token came, without what the provider itself said.
pub open spec fn token_error_text(error: FirstTokenErrorView, timeout: u64) -> TextView {
    match error {
        FirstTokenErrorView::InvalidBaseUrl => wording("providers.error_invalid_url"),
        FirstTokenErrorView::HttpStatus { status, message } => if status == 401 || status == 403 {
            wording_with("providers.ttft_error_auth", "status", decimal(status as nat))
        } else if status == 404 {
            wording("providers.ttft_error_model")
        } else {
            wording_with("providers.error_status", "status", decimal(status as nat))
        },
        FirstTokenErrorView::Unreachable(error) => wording_with("providers.error_unreachable", "error", error),
        FirstTokenErrorView::NoStreamData { message } => wording("providers.ttft_error_no_stream"),
        FirstTokenErrorView::Timeout => wording_with("providers.ttft_error_timeout", "seconds", decimal(timeout as nat)),
    }
}

/// What the provider itself said of it.
pub open spec fn token_error_detail(error: FirstTokenErrorView) -> Option<Seq<char>> {
    match error {
        FirstTokenErrorView::HttpStatus { status, message } => message,
        FirstTokenErrorView::NoStreamData { message } => message,
        _ => None,
    }
}

/// What is said where no first token came within `timeout` seconds, and what the provider
/// itself said of it.
pub fn first_token_error_text(error: &FirstTokenError, timeout: u64) -> (r: (Text, Option<String>))
    ensures
        r.0@ == token_error_text(error@, timeout),
        opt(r.1) == token_error_detail(error@),
{
    match error {
        FirstTokenError::InvalidBaseUrl => (Text::key("providers.error_invalid_url"), None),
        FirstTokenError::HttpStatus { status, message } => {
            let text = if *status == 401 || *status == 403 {
                Text::with("providers.ttft_error_auth", "status", decimal_of(*status as u64))
            } else if *status == 404 {
                Text::key("providers.ttft_error_model")
            } else {
                Text::with("providers.error_status", "status", decimal_of(*status as u64))
            };
            (text, message.clone())
        },
        FirstTokenError::Unreachable(error) => (
            Text::with("providers.error_unreachable", "error", error.clone()),
            None,
        ),
        FirstTokenError::NoStreamData { message } => (Text::key("providers.ttft_error_no_stream"), message.clone()),
        FirstTokenError::Timeout => (
            Text::with("providers.ttft_error_timeout", "seconds", decimal_of(timeout)),
            None,
        ),
    }
}

/// A wording with a detail behind it, where there is one.
pub open spec fn with_detail(wording: Seq<char>, detail: Option<Seq<char>>) -> Seq<char> {
    match detail {
        Some(text) => if text.len() > 0 {
            wording + " · "@ + text
        } else {
            wording
        },
        None => wording,
    }
}

/// Puts a detail behind a wording, where there is one.
pub fn append_detail(wording: &str, detail: Option<&str>) -> (r: String)
    ensures
        r@ == with_detail(wording@, opt_str(detail)),
{
    let mut r = wording.to_owned();
    if let Some(text) = detail {
        if text.unicode_len() > 0 {
            r.append(" · ");
            r.append(text);
        }
    }
    r
}

/// How long something took, for reading: in milliseconds below a second, else in seconds.
/// `seconds` is the time in seconds, with two decimals.
pub fn format_probe_latency(nanos: u64, seconds: &str) -> (r: String)
    ensures
        r@ == (if nanos < 1_000_000_000 {
            decimal((nanos / 1_000_000) as nat) + " ms"@
        } else {
            seconds@ + " s"@
        }),
{
    let millis = nanos / 1_000_000;
    if millis < 1_000 {
        let mut r = decimal_of(millis);
        r.append(" ms");
        r
    } else {
        let mut r = seconds.to_owned();
        r.append(" s");
        r
    }
}

/// What a provider that a server knows of is like.
#[derive(Debug)]
pub struct IntegrationSummary {
    pub id: String,
    pub connected: bool,
    pub supports_key: bool,
}

/// The providers of a list that are connected.
pub open spec fn connected_ids(list: Seq<IntegrationSummary>) -> Set<Seq<char>>
    decreases list.len(),
{
    if list.len() == 0 {
        Set::empty()
    } else {
        let before = connected_ids(list.drop_last());
        if list.last().connected {
            before.insert(list.last().id@)
        } else {
            before
        }
    }
}

/// The providers of a list that take a key.
pub open spec fn key_ids(list: Seq<IntegrationSummary>) -> Set<Seq<char>>
    decreases list.len(),
{
    if list.len() == 0 {
        Set::empty()
    } else {
        let before = key_ids(list.drop_last());
        if list.last().supports_key {
            before.insert(list.last().id@)
        } else {
            before
        }
    }
}

/// Which copy of the table of models is used: the later one.
pub fn newer_table(session: Option<u64>, cached: Option<u64>) -> (r: Option<bool>)
    ensures
        r == (match (session, cached) {
            (Some(s), Some(c)) => Some(s >= c),
            (Some(_), None) => Some(true),
            (None, Some(_)) => Some(false),
            (None, None) => None,
        }),
{
    match (session, cached) {
        (Some(s), Some(c)) => Some(s >= c),
        (Some(_), None) => Some(true),
        (None, Some(_)) => Some(false),
        (None, None) => None,
    }
}

/// How the test of a provider of a server went: it answers only where it exposes models.
pub open spec fn builtin_verdict(probed: Result<(usize, u64), Seq<char>>) -> ConnectivityView {
    match probed {
        Ok(found) => if found.0 > 0 {
            ConnectivityView::Reachable { models: found.0, latency: found.1 }
        } else {
            ConnectivityView::Failed(ApiListErrorView::AuthRejected(401))
        },
        Err(error) => ConnectivityView::Failed(ApiListErrorView::Unreachable(error)),
    }
}

/// How the test of a provider of a server went. `probed` are the models that the server
/// exposes of it and the nanoseconds that it took.
pub fn builtin_outcome(probed: Result<(usize, u64), String>) -> (r: ProviderConnectivityState)
    ensures
        r@ == builtin_verdict(
            match probed {
                Ok(found) => Ok(found),
                Err(error) => Err(error@),
            },
        ),
{
    match probed {
        Ok((models, latency)) => {
            if models > 0 {
                ProviderConnectivityState::Reachable { models, latency }
            } else {
                ProviderConnectivityState::Failed(ApiListError::AuthRejected(401))
            }
        },
        Err(error) => ProviderConnectivityState::Failed(ApiListError::Unreachable(error)),
    }
}

impl ProvidersView {
    /// Asking for a provider's models begins.
    pub open spec fn fetch_begun(self) -> ProvidersView {
        ProvidersView { fetching: true, ..self }.ask(ProvidersEffectView::Notify)
    }

    /// The models of a provider came in. The provider may be gone by now.
    pub open spec fn models_applied(
        self,
        id: Seq<char>,
        models: Seq<CustomProviderModelView>,
        outcome: MergeOutcome,
    ) -> ProvidersView {
        match provider_pos(self.store, id) {
            None => self,
            Some(i) => {
                let merged = self.with_provider(i, CustomProviderView { models, ..self.store[i] });
                if outcome.added == 0 && outcome.filled == 0 {
                    merged.ask(ProvidersEffectView::SuccessToast(wording("providers.fetch_up_to_date")))
                } else {
                    merged.committed().ask(ProvidersEffectView::SuccessToast(fetch_note(outcome)))
                }
            },
        }
    }

    /// Asking for a provider's models is over.
    pub open spec fn fetch_over(
        self,
        id: Seq<char>,
        failed: Option<ApiListErrorView>,
        table: bool,
        models: Seq<CustomProviderModelView>,
        outcome: MergeOutcome,
    ) -> ProvidersView {
        let over = ProvidersView { fetching: false, ..self };
        (match failed {
            Some(error) => over.ask(
                ProvidersEffectView::ErrorToast(wording("providers.fetch_failed"), list_error_text(error)),
            ),
            None => over.table_kept(table).models_applied(id, models, outcome),
        }).ask(ProvidersEffectView::Notify)
    }

    /// How a test of a provider stands.
    pub open spec fn tested(self, id: Seq<char>, state: ConnectivityView) -> ProvidersView {
        ProvidersView { connectivity: self.connectivity.insert(id, state), ..self }.ask(ProvidersEffectView::Notify)
    }

    /// How a test of a model stands.
    pub open spec fn timed(self, provider: Seq<char>, model: Seq<char>, state: LatencyView) -> ProvidersView {
        ProvidersView { latency: self.latency.insert((provider, model), state), ..self }.ask(ProvidersEffectView::Notify)
    }

    /// A provider is being tested.
    pub open spec fn testing(self, id: Seq<char>) -> bool {
        self.connectivity.dom().contains(id) && self.connectivity[id] == ConnectivityView::Testing
    }

    /// A model is being tested.
    pub open spec fn timing(self, provider: Seq<char>, model: Seq<char>) -> bool {
        self.latency.dom().contains((provider, model)) && self.latency[(provider, model)] == LatencyView::Testing
    }

    /// Which providers are connected is known.
    pub open spec fn integrated(self, list: Seq<IntegrationSummary>) -> ProvidersView {
        ProvidersView { authorized: connected_ids(list), key_methods: key_ids(list), ..self }
    }

    /// Asking which providers are connected is over.
    pub open spec fn auth_over(self) -> ProvidersView {
        ProvidersView { auth_loading: false, ..self }
    }

    /// A provider was connected.
    pub open spec fn connected(self, id: Seq<char>, selection: Seq<char>) -> ProvidersView {
        ProvidersView {
            auth_loading: false,
            authorized: self.authorized.insert(id),
            key_methods: self.key_methods.insert(id),
            ..self
        }.form_left().chosen(selection).ask(
            ProvidersEffectView::SuccessToast(wording("providers.authorized_toast")),
        ).ask(ProvidersEffectView::RefreshIntegrations).ask(ProvidersEffectView::Notify)
    }

    /// A provider is no longer connected.
    pub open spec fn disconnected(self, id: Seq<char>) -> ProvidersView {
        ProvidersView {
            auth_loading: false,
            authorized: self.authorized.remove(id),
            builtin_connectivity: if self.builtin_probe_id == Some(id) {
                None
            } else {
                self.builtin_connectivity
            },
            builtin_probe_id: if self.builtin_probe_id == Some(id) {
                None
            } else {
                self.builtin_probe_id
            },
            ..self
        }.ask(ProvidersEffectView::SuccessToast(wording("providers.logged_out_toast"))).ask(
            ProvidersEffectView::RefreshIntegrations,
        ).ask(ProvidersEffectView::Notify)
    }

    /// Connecting or disconnecting failed.
    pub open spec fn auth_failed(self, error: Seq<char>) -> ProvidersView {
        self.auth_over().ask(
            ProvidersEffectView::Toast(wording_with("providers.auth_save_failed", "error", error)),
        ).ask(ProvidersEffectView::Notify)
    }

    /// A provider of the server can be tested now.
    pub open spec fn can_probe_builtin(self, id: Seq<char>, workspace: bool) -> bool {
        &&& !(self.builtin_connectivity == Some(ConnectivityView::Testing) && self.builtin_probe_id == Some(id))
        &&& self.authorized.contains(id)
        &&& workspace
    }

    /// How the test of a provider of the server stands.
    pub open spec fn builtin_tested(self, id: Seq<char>, state: ConnectivityView) -> ProvidersView {
        ProvidersView { builtin_connectivity: Some(state), builtin_probe_id: Some(id), ..self }.ask(
            ProvidersEffectView::Notify,
        )
    }
}

impl Providers {
    fn set_fetching(&mut self, fetching: bool)
        ensures
            final(self)@ == (ProvidersView { fetching, ..old(self)@ }),
            final(self).store == old(self).store,
    {
        self.fetching = fetching;
    }

    /// Has the models of the provider that is chosen be asked for. Returns the provider.
    pub fn fetch_provider_models(&mut self) -> (r: Option<CustomProvider>)
        ensures
            if old(self)@.fetching || old(self)@.custom() is None {
                r is None && final(self)@ == old(self)@
            } else {
                custom_provider_opt(r) == old(self)@.custom() && final(self)@ == old(self)@.fetch_begun()
            },
    {
        if self.fetching {
            return None;
        }
        match self.selected_custom_provider() {
            Some(provider) => {
                self.set_fetching(true);
                self.ask(ProvidersEffect::Notify);
                Some(provider)
            },
            None => None,
        }
    }

    /// Takes in the models of a provider: what became of those it has.
    pub fn finish_fetch(
        &mut self,
        provider_id: &str,
        failed: Option<ApiListError>,
        table: bool,
        models: Vec<CustomProviderModel>,
        outcome: MergeOutcome,
    )
        ensures
            final(self)@ == old(self)@.fetch_over(
                provider_id@,
                match failed {
                    Some(error) => Some(error@),
                    None => None,
                },
                table,
                custom_provider_model_views(models@),
                outcome,
            ),
    {
        self.set_fetching(false);
        match failed {
            Some(error) => {
                self.ask(ProvidersEffect::ErrorToast(Text::key("providers.fetch_failed"), api_list_error_text(&error)));
            },
            None => {
                self.keep_table(table);
                self.apply_fetched_models(provider_id, models, outcome);
            },
        }
        self.ask(ProvidersEffect::Notify);
    }

    fn put_models(&mut self, i: usize, models: Vec<CustomProviderModel>)
        requires
            i < old(self).store@.len(),
        ensures
            final(self)@ == old(self)@.with_provider(
                i as int,
                CustomProviderView {
                    models: custom_provider_model_views(models@),
                    ..old(self)@.store[i as int]
                },
            ),
    {
        let ghost views = self@.store;
        self.store[i].models = models;
        assert(custom_provider_views(self.store@) =~= views.update(
            i as int,
            CustomProviderView { models: custom_provider_model_views(models@), ..views[i as int] },
        ));
    }

    /// Gives a provider the models that it has by now. `models` are its own with those that
    /// it was found to have merged in.
    pub fn apply_fetched_models(&mut self, provider_id: &str, models: Vec<CustomProviderModel>, outcome: MergeOutcome)
        ensures
            final(self)@ == old(self)@.models_applied(provider_id@, custom_provider_model_views(models@), outcome),
    {
        let i = match self.find_provider(provider_id) {
            Some(i) => i,
            None => return,
        };
        self.put_models(i, models);
        if outcome.added == 0 && outcome.filled == 0 {
            self.ask(ProvidersEffect::SuccessToast(Text::key("providers.fetch_up_to_date")));
            return;
        }
        self.commit_custom_providers();
        self.ask(ProvidersEffect::SuccessToast(fetch_text(outcome)));
    }

    /// Sees to it that there is a table of models. `fresh` says whether the one that is
    /// there is recent. Returns whether one is to be read.
    pub fn ensure_models_dev_table(&mut self, fresh: bool) -> (r: bool)
        ensures
            r == !(old(self)@.has_table && fresh || old(self)@.table_loading),
            final(self)@ == (if r {
                ProvidersView { table_loading: true, ..old(self)@ }
            } else {
                old(self)@
            }),
    {
        if self.has_table && fresh || self.table_loading {
            return false;
        }
        self.table_loading = true;
        true
    }

    /// Takes in whether a table of models was read.
    pub fn finish_table(&mut self, loaded: bool)
        ensures
            final(self)@ == (ProvidersView { table_loading: false, ..old(self)@ }).table_kept(loaded).ask(
                ProvidersEffectView::Notify,
            ),
    {
        self.table_loading = false;
        self.keep_table(loaded);
        self.ask(ProvidersEffect::Notify);
    }

    fn put_connectivity(&mut self, id: String, state: ProviderConnectivityState)
        ensures
            final(self)@ == old(self)@.tested(id@, state@),
    {
        let ghost before = self@.connectivity;
        let _ = self.connectivity.insert(id, state);
        assert(connectivity_map(self.connectivity@) =~= before.insert(id@, state@));
        self.ask(ProvidersEffect::Notify);
    }

    fn is_testing(&self, id: &str) -> (r: bool)
        ensures
            r == self@.testing(id@),
    {
        assert(connectivity_map(self.connectivity@).dom() =~= self.connectivity@.dom());
        match self.connectivity.get(id) {
            Some(ProviderConnectivityState::Testing) => true,
            _ => false,
        }
    }

    /// Has the provider that is chosen be tested, unless it is being tested. Returns it.
    pub fn probe_provider_connectivity(&mut self) -> (r: Option<CustomProvider>)
        ensures
            match old(self)@.custom() {
                Some(provider) if !old(self)@.testing(provider.id) => custom_provider_opt(r) == Some(provider)
                    && final(self)@ == old(self)@.tested(provider.id, ConnectivityView::Testing),
                _ => r is None && final(self)@ == old(self)@,
            },
    {
        match self.selected_custom_provider() {
            Some(provider) => {
                if self.is_testing(provider.id.as_str()) {
                    return None;
                }
                self.put_connectivity(provider.id.clone(), ProviderConnectivityState::Testing);
                Some(provider)
            },
            None => None,
        }
    }

    /// Takes in how the test of a provider went.
    pub fn finish_connectivity(&mut self, provider_id: String, outcome: ProviderConnectivityState)
        ensures
            final(self)@ == old(self)@.tested(provider_id@, outcome@),
    {
        self.put_connectivity(provider_id, outcome);
    }

    fn put_latency(&mut self, provider_id: String, model_id: String, state: ModelLatencyState)
        ensures
            final(self)@ == old(self)@.timed(provider_id@, model_id@, state@),
    {
        self.latency.insert(provider_id, model_id, state);
        self.ask(ProvidersEffect::Notify);
    }

    fn is_timing(&self, provider_id: &str, model_id: &str) -> (r: bool)
        ensures
            r == self@.timing(provider_id@, model_id@),
    {
        match self.latency.get(provider_id, model_id) {
            Some(ModelLatencyState::Testing) => true,
            _ => false,
        }
    }

    /// Has a model be tested, unless it is being tested. Returns its provider.
    pub fn test_model_first_token(&mut self, provider_id: String, model_id: String) -> (r: Option<CustomProvider>)
        ensures
            match provider_pos(old(self)@.store, provider_id@) {
                Some(i) if !old(self)@.timing(provider_id@, model_id@) => custom_provider_opt(r) == Some(
                    old(self)@.store[i],
                ) && final(self)@ == old(self)@.timed(provider_id@, model_id@, LatencyView::Testing),
                _ => r is None && final(self)@ == old(self)@,
            },
    {
        if self.is_timing(provider_id.as_str(), model_id.as_str()) {
            return None;
        }
        match self.find_provider(provider_id.as_str()) {
            Some(i) => {
                let provider = self.store[i].clone();
                self.put_latency(provider_id, model_id, ModelLatencyState::Testing);
                Some(provider)
            },
            None => None,
        }
    }

    /// Takes in how the test of a model went: after how many nanoseconds its first token
    /// came.
    pub fn finish_first_token(&mut self, provider_id: String, model_id: String, result: Result<u64, FirstTokenError>)
        ensures
            final(self)@ == old(self)@.timed(
                provider_id@,
                model_id@,
                match result {
                    Ok(latency) => LatencyView::Done(latency),
                    Err(error) => LatencyView::Failed(error@),
                },
            ),
    {
        let state = match result {
            Ok(latency) => ModelLatencyState::Done(latency),
            Err(error) => ModelLatencyState::Failed(error),
        };
        self.put_latency(provider_id, model_id, state);
    }

    /// Sees to it that the providers of the server and which of them are connected are
    /// known. Returns whether the ones and the others are to be asked for.
    pub fn ensure_builtin_providers(&mut self) -> (r: (bool, bool))
        ensures
            r.0 == (!old(self)@.builtin_loaded && !old(self)@.builtin_loading),
            r.1 == !old(self)@.auth_loading,
            final(self)@ == (ProvidersView {
                builtin_loading: old(self)@.builtin_loading || r.0,
                auth_loading: true,
                ..old(self)@.ask(ProvidersEffectView::EnsureTable)
            }),
    {
        let load = !self.builtin_loaded && !self.builtin_loading;
        let auth = !self.auth_loading;
        self.ask(ProvidersEffect::EnsureTable);
        if load {
            self.builtin_loading = true;
        }
        if auth {
            self.auth_loading = true;
        }
        (load, auth)
    }

    /// Takes in whether the providers of the server were read.
    pub fn finish_builtin(&mut self, loaded: bool)
        ensures
            final(self)@ == (ProvidersView {
                builtin_loading: false,
                builtin_loaded: old(self)@.builtin_loaded || loaded,
                ..old(self)@
            }).ask(ProvidersEffectView::Notify),
    {
        self.builtin_loading = false;
        self.builtin_loaded = self.builtin_loaded || loaded;
        self.ask(ProvidersEffect::Notify);
    }

    /// Takes in which providers are connected and which take a key.
    pub fn apply_integrations(&mut self, integrations: &Vec<IntegrationSummary>)
        ensures
            final(self)@ == old(self)@.integrated(integrations@),
    {
        let mut authorized = StrSet::new();
        let mut key_methods = StrSet::new();
        let mut i: usize = 0;
        assert(integrations@.take(0) =~= Seq::empty());
        while i < integrations.len()
            invariant
                i <= integrations@.len(),
                authorized@ == connected_ids(integrations@.take(i as int)),
                key_methods@ == key_ids(integrations@.take(i as int)),
            decreases integrations@.len() - i,
        {
            assert(integrations@.take(i + 1).drop_last() =~= integrations@.take(i as int));
            if integrations[i].connected {
                let _ = authorized.insert(integrations[i].id.clone());
            }
            if integrations[i].supports_key {
                let _ = key_methods.insert(integrations[i].id.clone());
            }
            i = i + 1;
        }
        assert(integrations@.take(i as int) =~= integrations@);
        self.authorized = authorized;
        self.key_methods = key_methods;
    }

    fn end_auth(&mut self)
        ensures
            final(self)@ == old(self)@.auth_over(),
    {
        self.auth_loading = false;
    }

    /// Takes in which providers are connected, as it was asked for with the page.
    pub fn finish_integrations(&mut self, found: Result<Vec<IntegrationSummary>, String>)
        ensures
            final(self)@ == (match found {
                Ok(list) => old(self)@.auth_over().integrated(list@),
                Err(error) => old(self)@.auth_over().ask(
                    ProvidersEffectView::Toast(wording_with("providers.auth_load_failed", "error", error@)),
                ),
            }).ask(ProvidersEffectView::Notify),
    {
        self.end_auth();
        match found {
            Ok(list) => self.apply_integrations(&list),
            Err(error) => {
                self.ask(ProvidersEffect::Toast(Text::with("providers.auth_load_failed", "error", error)));
            },
        }
        self.ask(ProvidersEffect::Notify);
    }

    /// Takes in which providers are connected, as it was asked for again. Where that could
    /// not be had, what was known stands.
    pub fn finish_refresh_integrations(&mut self, found: Option<Vec<IntegrationSummary>>)
        ensures
            final(self)@ == (match found {
                Some(list) => old(self)@.integrated(list@).ask(ProvidersEffectView::Notify),
                None => old(self)@,
            }),
    {
        if let Some(list) = found {
            self.apply_integrations(&list);
            self.ask(ProvidersEffect::Notify);
        }
    }

    /// Whether a provider is connected.
    pub fn provider_is_authorized(&self, id: &str) -> (r: bool)
        ensures
            r == self@.authorized.contains(id@),
    {
        self.authorized.contains(id)
    }

    /// Whether a provider takes a key.
    pub fn provider_supports_key(&self, id: &str) -> (r: bool)
        ensures
            r == self@.key_methods.contains(id@),
    {
        self.key_methods.contains(id)
    }

    /// Has a provider be connected with the key in the form. Returns the key. `workspace`
    /// says whether there is a server to ask.
    pub fn authorize_builtin_provider(&mut self, workspace: bool) -> (r: Option<String>)
        ensures
            ({
                let key = trimmed(old(self)@.form.api_key);
                if key.len() == 0 || !workspace {
                    r is None && final(self)@ == old(self)@
                } else {
                    opt(r) == Some(key) && final(self)@ == (ProvidersView { auth_loading: true, ..old(self)@ })
                }
            }),
    {
        let key = trim(self.form.api_key.as_str()).to_owned();
        if key.as_str().unicode_len() == 0 || !workspace {
            return None;
        }
        self.auth_loading = true;
        Some(key)
    }

    fn mark_connected(&mut self, id: &str)
        ensures
            final(self)@ == (ProvidersView {
                auth_loading: false,
                authorized: old(self)@.authorized.insert(id@),
                key_methods: old(self)@.key_methods.insert(id@),
                ..old(self)@
            }),
    {
        self.auth_loading = false;
        let _ = self.authorized.insert(id.to_owned());
        let _ = self.key_methods.insert(id.to_owned());
    }

    /// Takes in how connecting a provider went. `selection` is what it is chosen by.
    pub fn finish_authorize(&mut self, provider_id: &str, selection: String, error: Option<String>)
        ensures
            final(self)@ == (match error {
                None => old(self)@.connected(provider_id@, selection@),
                Some(text) => old(self)@.auth_failed(text@),
            }),
    {
        match error {
            None => {
                self.mark_connected(provider_id);
                self.exit_provider_form();
                self.select_provider(selection);
                self.ask(ProvidersEffect::SuccessToast(Text::key("providers.authorized_toast")));
                self.ask(ProvidersEffect::RefreshIntegrations);
                self.ask(ProvidersEffect::Notify);
            },
            Some(text) => self.fail_auth(text),
        }
    }

    fn fail_auth(&mut self, error: String)
        ensures
            final(self)@ == old(self)@.auth_failed(error@),
    {
        self.end_auth();
        self.ask(ProvidersEffect::Toast(Text::with("providers.auth_save_failed", "error", error)));
        self.ask(ProvidersEffect::Notify);
    }

    /// Has a provider be disconnected, where there is a server to ask. Says whether it is.
    pub fn logout_builtin_provider(&mut self, workspace: bool) -> (r: bool)
        ensures
            r == workspace,
            final(self)@ == (if workspace {
                ProvidersView { auth_loading: true, delete_arming: None, ..old(self)@ }
            } else {
                old(self)@
            }),
    {
        if workspace {
            self.auth_loading = true;
            self.delete_arming = None;
        }
        workspace
    }

    fn mark_disconnected(&mut self, id: &str)
        ensures
            final(self)@ == (ProvidersView {
                auth_loading: false,
                authorized: old(self)@.authorized.remove(id@),
                builtin_connectivity: if old(self)@.builtin_probe_id == Some(id@) {
                    None
                } else {
                    old(self)@.builtin_connectivity
                },
                builtin_probe_id: if old(self)@.builtin_probe_id == Some(id@) {
                    None
                } else {
                    old(self)@.builtin_probe_id
                },
                ..old(self)@
            }),
    {
        self.auth_loading = false;
        let _ = self.authorized.remove(id);
        let probed = match &self.builtin_probe_id {
            Some(probe) => same(probe.as_str(), id),
            None => false,
        };
        if probed {
            self.builtin_connectivity = None;
            self.builtin_probe_id = None;
        }
    }

    /// Takes in how disconnecting a provider went.
    pub fn finish_logout(&mut self, provider_id: &str, error: Option<String>)
        ensures
            final(self)@ == (match error {
                None => old(self)@.disconnected(provider_id@),
                Some(text) => old(self)@.auth_failed(text@),
            }),
    {
        match error {
            None => {
                self.mark_disconnected(provider_id);
                self.ask(ProvidersEffect::SuccessToast(Text::key("providers.logged_out_toast")));
                self.ask(ProvidersEffect::RefreshIntegrations);
                self.ask(ProvidersEffect::Notify);
            },
            Some(text) => self.fail_auth(text),
        }
    }

    fn put_builtin(&mut self, id: String, state: ProviderConnectivityState)
        ensures
            final(self)@ == old(self)@.builtin_tested(id@, state@),
    {
        self.builtin_connectivity = Some(state);
        self.builtin_probe_id = Some(id);
        self.ask(ProvidersEffect::Notify);
    }

    fn is_probing_builtin(&self, id: &str) -> (r: bool)
        ensures
            r == (self@.builtin_connectivity == Some(ConnectivityView::Testing) && self@.builtin_probe_id == Some(id@)),
    {
        let testing = match &self.builtin_connectivity {
            Some(ProviderConnectivityState::Testing) => true,
            _ => false,
        };
        let same_provider = match &self.builtin_probe_id {
            Some(probe) => same(probe.as_str(), id),
            None => false,
        };
        testing && same_provider
    }

    /// Has the provider of the server that is chosen be tested, where it is connected and
    /// is not being tested. Says whether it is.
    pub fn probe_builtin_provider_connectivity(&mut self, catalog_id: Option<&str>, workspace: bool) -> (r: bool)
        ensures
            match opt_str(catalog_id) {
                Some(id) if old(self)@.can_probe_builtin(id, workspace) => r && final(self)@ == old(self)@.builtin_tested(
                    id,
                    ConnectivityView::Testing,
                ),
                _ => !r && final(self)@ == old(self)@,
            },
    {
        let id = match catalog_id {
            Some(id) => id,
            None => return false,
        };
        if self.is_probing_builtin(id) || !self.provider_is_authorized(id) || !workspace {
            return false;
        }
        self.put_builtin(id.to_owned(), ProviderConnectivityState::Testing);
        true
    }

    /// Takes in how the test of a provider of the server went, unless another is tested by
    /// now.
    pub fn finish_builtin_probe(&mut self, catalog_id: &str, outcome: ProviderConnectivityState)
        ensures
            final(self)@ == (if old(self)@.builtin_probe_id == Some(catalog_id@) {
                old(self)@.builtin_tested(catalog_id@, outcome@)
            } else {
                old(self)@.ask(ProvidersEffectView::Notify)
            }),
    {
        let current = match &self.builtin_probe_id {
            Some(probe) => same(probe.as_str(), catalog_id),
            None => false,
        };
        if current {
            self.put_builtin(catalog_id.to_owned(), outcome);
        } else {
            self.ask(ProvidersEffect::Notify);
        }
    }
}

} // verus!
