//! Changing what a session runs with, and answering what it asks.
use vstd::prelude::*;

use crate::desk::{
    favorite_model_views, lemma_put, Effect, EffectView, FavoriteModel, FavoriteModelView,
    PreferencesView, RuntimeView, StateView,
};
use crate::ids::Uuid;
use crate::live::{Desk, DeskView};
use crate::model::{AgentSessionView, InteractionMode, ProviderKind, RuntimeMode, SessionStatus};
use crate::probes::{Catalog, CatalogView};
use crate::text::same;

verus! {

/// The count after `n`, which starts over at the end.
pub open spec fn next_generation(n: u64) -> u64 {
    if n == u64::MAX {
        0
    } else {
        (n + 1) as u64
    }
}

impl AgentSessionView {
    /// A session that has started stays with its provider.
    pub open spec fn can_choose(self, provider: ProviderKind) -> bool {
        self.provider == provider || !self.started()
    }

    /// The session with another model, and what depends on the model left open.
    pub open spec fn with_model(self, provider: ProviderKind, model: Seq<char>) -> AgentSessionView {
        AgentSessionView {
            provider,
            model: Some(model),
            reasoning_effort: None,
            service_tier: None,
            ..self
        }
    }
}

/// Where a model stands among the favourites.
pub open spec fn favorite_pos(favorites: Seq<FavoriteModelView>, provider: ProviderKind, model: Seq<char>) -> Option<int>
    decreases favorites.len(),
{
    if favorites.len() == 0 {
        None
    } else if favorites[0].provider == provider && favorites[0].model == model {
        Some(0)
    } else {
        match favorite_pos(favorites.drop_first(), provider, model) {
            Some(i) => Some(i + 1),
            None => None,
        }
    }
}

/// The favourites with a model marked, or no longer marked.
pub open spec fn favorites_toggled(favorites: Seq<FavoriteModelView>, provider: ProviderKind, model: Seq<char>) -> Seq<
    FavoriteModelView,
> {
    match favorite_pos(favorites, provider, model) {
        Some(i) => favorites.remove(i),
        None => favorites.push(FavoriteModelView { provider, model }),
    }
}

impl DeskView {
    /// Changed options are handed to the runtime of the session, where there is one.
    pub open spec fn options_applied(self, id: Uuid, catalog: CatalogView) -> DeskView {
        match self.session(id) {
            Some(session) if self.runtimes.dom().contains(id) => {
                let runtime = self.runtimes[id];
                let generation = next_generation(runtime.options_generation);
                DeskView {
                    runtimes: self.runtimes.insert(
                        id,
                        RuntimeView { options_generation: generation, ..runtime },
                    ),
                    ..self
                }.emit(
                    EffectView::ApplyOptions { session_id: id, generation, options: catalog.options_for(session) },
                )
            },
            _ => self,
        }
    }

    /// The session was changed by the user: its options are handed on, it is saved
    /// and drawn.
    pub open spec fn changed(self, id: Uuid, catalog: CatalogView) -> DeskView {
        self.options_applied(id, catalog).emit(EffectView::Save).emit(EffectView::Notify)
    }

    /// The desk with other preferences.
    pub open spec fn preferring(self, prefs: PreferencesView) -> DeskView {
        DeskView { state: StateView { prefs, ..self.state }, ..self }
    }

    /// The user chooses a model for the session on screen.
    pub open spec fn model_chosen(self, provider: ProviderKind, model: Seq<char>, catalog: CatalogView) -> DeskView {
        match self.state.selected_session {
            Some(id) => match self.session(id) {
                Some(session) => if session.can_choose(provider) && (session.provider != provider || session.model
                    != Some(model)) {
                    let chosen = self.put(id, session.with_model(provider, model)).preferring(
                        PreferencesView {
                            last_provider: provider,
                            last_model: Some(model),
                            last_reasoning_effort: None,
                            last_service_tier: None,
                            ..self.state.prefs
                        },
                    ).emit(EffectView::ShowProviderModels(provider));
                    (if session.provider != provider {
                        chosen.runtime_reset(id).emit(EffectView::RefreshComposerSources)
                    } else {
                        chosen.options_applied(id, catalog)
                    }).emit(EffectView::Save).emit(EffectView::Notify)
                } else {
                    self.put(id, session)
                },
                None => self,
            },
            None => self,
        }
    }

    /// The session on screen, changed by the user where the change is one.
    pub open spec fn session_changed(
        self,
        id: Uuid,
        next: AgentSessionView,
        differs: bool,
        prefs: PreferencesView,
        catalog: CatalogView,
    ) -> DeskView {
        if differs {
            self.put(id, next).preferring(prefs).changed(id, catalog)
        } else {
            self.put(id, next)
        }
    }

    /// The user answers a request for permission.
    pub open spec fn permission_answered(self, request_id: Seq<char>, option_id: Seq<char>) -> DeskView {
        match self.state.selected_session {
            Some(id) => {
                let answered = if self.runtimes.dom().contains(id) {
                    DeskView {
                        runtimes: self.runtimes.insert(
                            id,
                            RuntimeView { pending_permission: None, ..self.runtimes[id] },
                        ),
                        ..self
                    }.emit(EffectView::DriverRespond { session_id: id, request_id, option_id })
                } else {
                    self
                };
                (match answered.session(id) {
                    Some(session) => answered.put(
                        id,
                        AgentSessionView { status: SessionStatus::Working, ..session },
                    ),
                    None => answered,
                }).emit(EffectView::Notify)
            },
            None => self,
        }
    }
}

impl Desk {
    /// Hands changed options to the runtime of a session.
    pub fn apply_session_options(&mut self, session_id: Uuid, catalog: &Catalog)
        ensures
            final(self)@ == old(self)@.options_applied(session_id, catalog@),
    {
        let options = match self.state.session_index(session_id) {
            Some(i) => catalog.session_options(&self.state.sessions[i]),
            None => {
                return;
            },
        };
        match self.take_runtime(session_id) {
            Some(mut runtime) => {
                let generation: u64 = if runtime.options_generation == u64::MAX {
                    0
                } else {
                    runtime.options_generation + 1
                };
                runtime.options_generation = generation;
                self.put_runtime(session_id, runtime);
                assert(self@.runtimes =~= old(self)@.runtimes.insert(session_id, runtime@));
                self.emit(Effect::ApplyOptions { session_id, generation, options });
            },
            None => {
                assert(self@.runtimes =~= old(self)@.runtimes);
            },
        }
    }

    /// The host says whether a provider took changed options. One that cannot is let
    /// go, unless the options have changed again.
    pub fn finish_session_options(&mut self, session_id: Uuid, generation: u64, applied: bool)
        ensures
            final(self)@ == (if !applied && old(self)@.runtimes.dom().contains(session_id)
                && old(self)@.runtimes[session_id].options_generation == generation {
                old(self)@.runtime_reset(session_id).emit(EffectView::Notify)
            } else {
                old(self)@
            }),
    {
        assert(crate::live::runtime_views(self.runtimes@).dom() =~= self.runtimes@.dom());
        let current = match self.runtimes.get(session_id) {
            Some(runtime) => runtime.options_generation == generation,
            None => false,
        };
        if current && !applied {
            self.reset_session_runtime(session_id);
            self.emit(Effect::Notify);
        }
    }

    /// Chooses a model for the session on screen. Another provider is another program:
    /// only a change within one provider reaches a running session.
    pub fn choose_model(&mut self, provider: ProviderKind, model: String, catalog: &Catalog)
        ensures
            final(self)@ == old(self)@.model_chosen(provider, model@, catalog@),
    {
        let id = match self.state.selected_session {
            Some(id) => id,
            None => {
                return;
            },
        };
        let i = match self.state.session_mut(id) {
            Some(i) => i,
            None => {
                return;
            },
        };
        let session = &self.state.sessions[i];
        let allowed = session.provider == provider || !session.has_started();
        let provider_changed = session.provider != provider;
        let model_changed = match &session.model {
            Some(current) => !same(current.as_str(), model.as_str()),
            None => true,
        };
        if !(allowed && (provider_changed || model_changed)) {
            proof {
                assert(self.state.sessions@ =~= old(self).state.sessions@.update(
                    i as int,
                    self.state.sessions@[i as int],
                ));
                lemma_put(old(self).state, self.state, id, i as int);
            }
            return;
        }
        self.state.sessions[i].provider = provider;
        self.state.sessions[i].model = Some(model.clone());
        self.state.sessions[i].reasoning_effort = None;
        self.state.sessions[i].service_tier = None;
        proof {
            assert(self.state.sessions@ =~= old(self).state.sessions@.update(i as int, self.state.sessions@[i as int]));
            lemma_put(old(self).state, self.state, id, i as int);
        }
        self.state.prefs.last_provider = provider;
        self.state.prefs.last_model = Some(model);
        self.state.prefs.last_reasoning_effort = None;
        self.state.prefs.last_service_tier = None;
        self.emit(Effect::ShowProviderModels(provider));
        if provider_changed {
            self.reset_session_runtime(id);
            self.emit(Effect::RefreshComposerSources);
        } else {
            self.apply_session_options(id, catalog);
        }
        self.emit(Effect::Save);
        self.emit(Effect::Notify);
    }

    fn session_was_changed(&mut self, session_id: Uuid, catalog: &Catalog)
        ensures
            final(self)@ == old(self)@.changed(session_id, catalog@),
    {
        self.apply_session_options(session_id, catalog);
        self.emit(Effect::Save);
        self.emit(Effect::Notify);
    }

    /// Sets how far the agent of the session on screen may act without asking. Planning
    /// is no such mode: it is chosen elsewhere.
    pub fn set_runtime_mode(&mut self, mode: RuntimeMode, catalog: &Catalog)
        ensures
            final(self)@ == (match old(self)@.state.selected_session {
                Some(id) => match old(self)@.session(id) {
                    Some(session) => if mode == RuntimeMode::Plan {
                        old(self)@
                    } else {
                        old(self)@.session_changed(
                            id,
                            AgentSessionView { runtime_mode: mode, ..session },
                            session.runtime_mode != mode,
                            old(self)@.state.prefs,
                            catalog@,
                        )
                    },
                    None => old(self)@,
                },
                None => old(self)@,
            }),
    {
        if mode == RuntimeMode::Plan {
            return;
        }
        if let Some(id) = self.state.selected_session {
            if let Some(i) = self.state.session_mut(id) {
                let differs = self.state.sessions[i].runtime_mode != mode;
                self.state.sessions[i].runtime_mode = mode;
                proof {
                    lemma_put(old(self).state, self.state, id, i as int);
                }
                if differs {
                    self.session_was_changed(id, catalog);
                }
            }
        }
    }

    /// Sets whether the agent of the session on screen builds or plans.
    pub fn set_interaction_mode(&mut self, mode: InteractionMode, catalog: &Catalog)
        ensures
            final(self)@ == (match old(self)@.state.selected_session {
                Some(id) => match old(self)@.session(id) {
                    Some(session) => old(self)@.session_changed(
                        id,
                        AgentSessionView { interaction_mode: mode, ..session },
                        session.interaction_mode != mode,
                        old(self)@.state.prefs,
                        catalog@,
                    ),
                    None => old(self)@,
                },
                None => old(self)@,
            }),
    {
        if let Some(id) = self.state.selected_session {
            if let Some(i) = self.state.session_mut(id) {
                let differs = self.state.sessions[i].interaction_mode != mode;
                self.state.sessions[i].interaction_mode = mode;
                proof {
                    lemma_put(old(self).state, self.state, id, i as int);
                }
                if differs {
                    self.session_was_changed(id, catalog);
                }
            }
        }
    }

    /// Sets the reasoning effort of the session on screen.
    pub fn set_reasoning_effort(&mut self, effort: String, catalog: &Catalog)
        ensures
            final(self)@ == (match old(self)@.state.selected_session {
                Some(id) => match old(self)@.session(id) {
                    Some(session) => old(self)@.session_changed(
                        id,
                        AgentSessionView { reasoning_effort: Some(effort@), ..session },
                        session.reasoning_effort != Some(effort@),
                        PreferencesView { last_reasoning_effort: Some(effort@), ..old(self)@.state.prefs },
                        catalog@,
                    ),
                    None => old(self)@,
                },
                None => old(self)@,
            }),
    {
        if let Some(id) = self.state.selected_session {
            if let Some(i) = self.state.session_mut(id) {
                let differs = match &self.state.sessions[i].reasoning_effort {
                    Some(current) => !same(current.as_str(), effort.as_str()),
                    None => true,
                };
                self.state.sessions[i].reasoning_effort = Some(effort.clone());
                proof {
                    lemma_put(old(self).state, self.state, id, i as int);
                }
                if differs {
                    self.state.prefs.last_reasoning_effort = Some(effort);
                    self.session_was_changed(id, catalog);
                }
            }
        }
    }

    /// Sets the service tier of the session on screen.
    pub fn set_service_tier(&mut self, tier: String, catalog: &Catalog)
        ensures
            final(self)@ == (match old(self)@.state.selected_session {
                Some(id) => match old(self)@.session(id) {
                    Some(session) => old(self)@.session_changed(
                        id,
                        AgentSessionView { service_tier: Some(tier@), ..session },
                        session.service_tier != Some(tier@),
                        PreferencesView { last_service_tier: Some(tier@), ..old(self)@.state.prefs },
                        catalog@,
                    ),
                    None => old(self)@,
                },
                None => old(self)@,
            }),
    {
        if let Some(id) = self.state.selected_session {
            if let Some(i) = self.state.session_mut(id) {
                let differs = match &self.state.sessions[i].service_tier {
                    Some(current) => !same(current.as_str(), tier.as_str()),
                    None => true,
                };
                self.state.sessions[i].service_tier = Some(tier.clone());
                proof {
                    lemma_put(old(self).state, self.state, id, i as int);
                }
                if differs {
                    self.state.prefs.last_service_tier = Some(tier);
                    self.session_was_changed(id, catalog);
                }
            }
        }
    }

    /// Marks a model as a favourite, or no longer.
    pub fn toggle_favorite_model(&mut self, provider: ProviderKind, model: String)
        ensures
            final(self)@ == old(self)@.preferring(
                PreferencesView {
                    favorite_models: favorites_toggled(old(self)@.state.prefs.favorite_models, provider, model@),
                    ..old(self)@.state.prefs
                },
            ).emit(EffectView::Save).emit(EffectView::Notify),
    {
        let ghost before = self.state.prefs.favorite_models@;
        let ghost views = favorite_model_views(before);
        let found = find_favorite(&self.state.prefs.favorite_models, provider, model.as_str());
        match found {
            Some(i) => {
                let _ = self.state.prefs.favorite_models.remove(i);
                assert(favorite_model_views(self.state.prefs.favorite_models@) =~= views.remove(i as int));
            },
            None => {
                let favorite = FavoriteModel { provider, model };
                self.state.prefs.favorite_models.push(favorite);
                assert(favorite_model_views(self.state.prefs.favorite_models@) =~= views.push(favorite@));
            },
        }
        self.emit(Effect::Save);
        self.emit(Effect::Notify);
    }

    /// Answers a request for permission of the session on screen.
    pub fn respond_permission(&mut self, request_id: String, option_id: String)
        ensures
            final(self)@ == old(self)@.permission_answered(request_id@, option_id@),
    {
        let id = match self.state.selected_session {
            Some(id) => id,
            None => {
                return;
            },
        };
        match self.take_runtime(id) {
            Some(mut runtime) => {
                runtime.pending_permission = None;
                self.put_runtime(id, runtime);
                assert(self@.runtimes =~= old(self)@.runtimes.insert(id, runtime@));
                self.emit(Effect::DriverRespond { session_id: id, request_id, option_id });
            },
            None => {
                assert(self@.runtimes =~= old(self)@.runtimes);
            },
        }
        self.set_status(id, SessionStatus::Working);
        self.emit(Effect::Notify);
    }
}

fn find_favorite(favorites: &Vec<FavoriteModel>, provider: ProviderKind, model: &str) -> (r: Option<usize>)
    ensures
        match r {
            Some(i) => favorite_pos(favorite_model_views(favorites@), provider, model@) == Some(i as int) && i
                < favorites@.len(),
            None => favorite_pos(favorite_model_views(favorites@), provider, model@) is None,
        },
{
    let ghost views = favorite_model_views(favorites@);
    let mut i: usize = 0;
    assert(views.skip(0) =~= views);
    while i < favorites.len()
        invariant
            i <= favorites@.len(),
            views == favorite_model_views(favorites@),
            favorite_pos(views, provider, model@) == (match favorite_pos(views.skip(i as int), provider, model@) {
                Some(k) => Some(k + i),
                None => None,
            }),
        decreases favorites@.len() - i,
    {
        assert(views.skip(i as int)[0] == favorites@[i as int]@);
        assert(views.skip(i as int).drop_first() =~= views.skip(i + 1));
        if favorites[i].provider == provider && same(favorites[i].model.as_str(), model) {
            return Some(i);
        }
        i = i + 1;
    }
    assert(views.skip(i as int).len() == 0);
    None
}

proof fn lemma_favorite_push(favorites: Seq<FavoriteModelView>, provider: ProviderKind, model: Seq<char>)
    requires
        favorite_pos(favorites, provider, model) is None,
    ensures
        favorite_pos(favorites.push(FavoriteModelView { provider, model }), provider, model) == Some(
            favorites.len() as int,
        ),
    decreases favorites.len(),
{
    let added = FavoriteModelView { provider, model };
    if favorites.len() == 0 {
        assert(favorites.push(added)[0] == added);
    } else {
        lemma_favorite_push(favorites.drop_first(), provider, model);
        assert(favorites.push(added).drop_first() =~= favorites.drop_first().push(added));
    }
}

/// Marking a model and taking the mark back leaves the favourites as they were.
pub proof fn favorite_toggles_back(favorites: Seq<FavoriteModelView>, provider: ProviderKind, model: Seq<char>)
    requires
        favorite_pos(favorites, provider, model) is None,
    ensures
        favorites_toggled(favorites_toggled(favorites, provider, model), provider, model) == favorites,
{
    lemma_favorite_push(favorites, provider, model);
    let added = favorites.push(FavoriteModelView { provider, model });
    assert(added.remove(favorites.len() as int) =~= favorites);
}

} // verus!
