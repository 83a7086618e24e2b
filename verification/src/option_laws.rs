//! What choosing a model, answering a question and looking for the provider come to.
use vstd::prelude::*;

use crate::desk::{lemma_put_get, lemma_session_id, EffectView, FavoriteModelView, RuntimeView};
use crate::hosting::{SyncAction, SyncEvent, SyncState};
use crate::ids::{Stamp, Uuid};
use crate::live::DeskView;
use crate::model::{AgentSessionView, ProviderKind, SessionStatus};
use crate::options::{favorite_pos, favorites_toggled};
use crate::probes::{model_named, CatalogView, ProviderModelView, ProviderProbeView, OPENCODE_PROVIDER};

verus! {

/// A model that is chosen is the session's from then on, with its provider, and the choices
/// that belonged to the other model are gone. A new session would take it over. A session in
/// which something was asked keeps its provider.
pub proof fn chosen_models_are_taken(
    desk: DeskView,
    id: Uuid,
    provider: ProviderKind,
    model: Seq<char>,
    catalog: CatalogView,
)
    requires
        desk.state.selected_session == Some(id),
        desk.session(id) is Some,
    ensures
        ({
            let s = desk.session(id)->0;
            let after = desk.model_chosen(provider, model, catalog);
            let open = s.provider == provider || (s.turns.len() == 0 && s.last_reply_at is None);
            let differs = s.provider != provider || s.model != Some(model);
            &&& open && differs ==> {
                &&& after.session(id) == Some(
                    AgentSessionView { provider, model: Some(model), reasoning_effort: None, service_tier: None, ..s },
                )
                &&& after.state.prefs.last_provider == provider && after.state.prefs.last_model == Some(model)
                &&& after.state.prefs.last_reasoning_effort is None && after.state.prefs.last_service_tier is None
                &&& s.provider != provider ==> !after.runtimes.dom().contains(id)
                &&& s.provider == provider ==> after.runtimes.dom() == desk.runtimes.dom()
            }
            &&& !open || !differs ==> after.session(id) == Some(s) && after.state.prefs == desk.state.prefs
                && after.runtimes == desk.runtimes && after.effects == desk.effects
        }),
{
    let s = desk.session(id)->0;
    lemma_session_id(desk.state, id);
    lemma_put_get(desk.state, id, s.with_model(provider, model));
    lemma_put_get(desk.state, id, s);
    let after = desk.model_chosen(provider, model, catalog);
    if s.provider == provider && s.model != Some(model) {
        assert(after.runtimes.dom() =~= desk.runtimes.dom());
    }
}

/// Options that changed reach the provider that runs, under a number of their own; without a
/// provider nothing is sent.
pub proof fn changed_options_are_sent(desk: DeskView, id: Uuid, catalog: CatalogView)
    requires
        desk.session(id) is Some,
    ensures
        ({
            let after = desk.options_applied(id, catalog);
            &&& desk.runtimes.dom().contains(id) ==> {
                &&& after.effects.len() == desk.effects.len() + 1
                &&& after.effects.last() matches EffectView::ApplyOptions { session_id, generation, options } && session_id
                    == id && generation == after.runtimes[id].options_generation && options == catalog.options_for(
                    desk.session(id)->0,
                )
                &&& after.runtimes[id].options_generation != desk.runtimes[id].options_generation
                &&& after.runtimes[id] == (RuntimeView {
                    options_generation: after.runtimes[id].options_generation,
                    ..desk.runtimes[id]
                })
            }
            &&& !desk.runtimes.dom().contains(id) ==> after == desk
            &&& after.state == desk.state
        }),
{
}

/// An answer to a request for permission goes to the provider as it was chosen; nothing is
/// asked any more, and the session is at work again.
pub proof fn answers_reach_the_provider(desk: DeskView, id: Uuid, request_id: Seq<char>, option_id: Seq<char>)
    requires
        desk.state.selected_session == Some(id),
        desk.session(id) is Some,
        desk.runtimes.dom().contains(id),
    ensures
        ({
            let after = desk.permission_answered(request_id, option_id);
            &&& after.effects.contains((EffectView::DriverRespond { session_id: id, request_id, option_id }))
            &&& after.runtimes[id] == (RuntimeView { pending_permission: None, ..desk.runtimes[id] })
            &&& after.session(id) == Some(AgentSessionView { status: SessionStatus::Working, ..desk.session(id)->0 })
            &&& forall|other: Uuid| other != id && desk.runtimes.dom().contains(other) ==> #[trigger] after.runtimes[other]
                == desk.runtimes[other]
        }),
{
    let s = desk.session(id)->0;
    lemma_session_id(desk.state, id);
    lemma_put_get(desk.state, id, AgentSessionView { status: SessionStatus::Working, ..s });
    let after = desk.permission_answered(request_id, option_id);
    assert(after.effects[desk.effects.len() as int] == (EffectView::DriverRespond { session_id: id, request_id, option_id }));
}

/// A model is a favourite.
pub open spec fn favoured(favorites: Seq<FavoriteModelView>, provider: ProviderKind, model: Seq<char>) -> bool {
    exists|i: int| 0 <= i < favorites.len() && (#[trigger] favorites[i]).provider == provider && favorites[i].model == model
}

/// Marking a model makes it a favourite, the last; marking a favourite takes one mark of it
/// away. Every other favourite stays.
pub proof fn marks_make_favourites(favorites: Seq<FavoriteModelView>, provider: ProviderKind, model: Seq<char>)
    ensures
        ({
            let after = favorites_toggled(favorites, provider, model);
            &&& !favoured(favorites, provider, model) ==> after == favorites.push(FavoriteModelView { provider, model })
            &&& favoured(favorites, provider, model) ==> after.len() == favorites.len() - 1
            &&& forall|k: int|
                0 <= k < favorites.len() && ((#[trigger] favorites[k]).provider != provider || favorites[k].model != model)
                    ==> after.contains(favorites[k])
        }),
{
    lemma_favorite_pos(favorites, provider, model);
    let after = favorites_toggled(favorites, provider, model);
    assert forall|k: int|
        0 <= k < favorites.len() && ((#[trigger] favorites[k]).provider != provider || favorites[k].model != model) implies after.contains(
        favorites[k],
    ) by {
        match favorite_pos(favorites, provider, model) {
            Some(i) => {
                if k < i {
                    assert(after[k] == favorites[k]);
                } else {
                    assert(after[k - 1] == favorites[k]);
                }
            },
            None => {
                assert(after[k] == favorites[k]);
            },
        }
    }
}

proof fn lemma_favorite_pos(favorites: Seq<FavoriteModelView>, provider: ProviderKind, model: Seq<char>)
    ensures
        match favorite_pos(favorites, provider, model) {
            Some(i) => 0 <= i < favorites.len() && favorites[i].provider == provider && favorites[i].model == model,
            None => !favoured(favorites, provider, model),
        },
    decreases favorites.len(),
{
    if favorites.len() > 0 && !(favorites[0].provider == provider && favorites[0].model == model) {
        let rest = favorites.drop_first();
        lemma_favorite_pos(rest, provider, model);
        if favorite_pos(rest, provider, model) is None && favoured(favorites, provider, model) {
            let i = choose|i: int|
                0 <= i < favorites.len() && (#[trigger] favorites[i]).provider == provider && favorites[i].model == model;
            assert(rest[i - 1].provider == provider);
        }
    }
}

/// The model that runs in a session is the one that was chosen for it, else the one that the
/// provider prefers.
pub proof fn the_chosen_model_runs(catalog: CatalogView, session: AgentSessionView)
    ensures
        session.model is Some ==> catalog.model_for(session) == session.model,
        session.model is None && catalog.probes.len() == 0 ==> catalog.model_for(session) is None,
        session.model is None && catalog.probes.len() > 0 ==> (match catalog.probes[0].preferred_model {
            Some(i) => i < catalog.probes[0].models.len() ==> catalog.model_for(session) == Some(
                catalog.probes[0].models[i as int].id,
            ),
            None => catalog.model_for(session) is None,
        }),
{
}

/// The effort that is asked for is the one that was chosen, where the model offers it; else
/// the model's own, or the first it offers.
pub proof fn offered_efforts_are_asked_for(catalog: CatalogView, session: AgentSessionView, k: int, e: int)
    requires
        catalog.probes.len() > 0,
        session.model is Some,
        0 <= k < catalog.probes[0].models.len(),
        catalog.probes[0].models[k].id == session.model->0,
        forall|j: int| 0 <= j < k ==> (#[trigger] catalog.probes[0].models[j]).id != session.model->0,
    ensures
        ({
            let model = catalog.probes[0].models[k];
            let asked = catalog.effort_for(session);
            let offered = session.reasoning_effort is Some && exists|i: int|
                0 <= i < model.reasoning_efforts.len() && (#[trigger] model.reasoning_efforts[i]).id
                    == session.reasoning_effort->0;
            &&& catalog.metadata_for(session) == Some(model)
            &&& offered ==> asked == session.reasoning_effort
            &&& !offered && model.default_reasoning_effort is Some ==> asked == model.default_reasoning_effort
            &&& !offered && model.default_reasoning_effort is None && model.reasoning_efforts.len() > 0 ==> asked == Some(
                model.reasoning_efforts[0].id,
            )
            &&& !offered && model.default_reasoning_effort is None && model.reasoning_efforts.len() == 0 ==> asked is None
        }),
{
    lemma_model_named(catalog.probes[0].models, session.model->0, k);
}

proof fn lemma_model_named(models: Seq<ProviderModelView>, id: Seq<char>, k: int)
    requires
        0 <= k < models.len(),
        models[k].id == id,
        forall|j: int| 0 <= j < k ==> (#[trigger] models[j]).id != id,
    ensures
        model_named(models, id) == Some(models[k]),
    decreases models.len(),
{
    if k > 0 {
        assert(models[0].id != id);
        let rest = models.drop_first();
        assert forall|j: int| 0 <= j < k - 1 implies (#[trigger] rest[j]).id != id by {
            assert(models[j + 1].id != id);
        }
        lemma_model_named(rest, id, k - 1);
    }
}

/// A provider is started with what the session was set to, where its command line was found;
/// else it is not started.
pub proof fn providers_start_as_the_session_says(catalog: CatalogView, session: AgentSessionView, cwd: Seq<char>)
    ensures
        ({
            let start = catalog.start_for(session, cwd);
            let found = catalog.probes.len() > 0 && catalog.probes[0].path is Some;
            &&& found == (start is Some)
            &&& start matches Some(options) ==> {
                &&& options.binary == catalog.probes[0].path->0
                &&& options.cwd == cwd
                &&& options.mode == session.runtime_mode && options.interaction_mode == session.interaction_mode
                &&& options.provider_cursor == session.provider_cursor
                &&& session.model is Some ==> options.model == session.model
                &&& session.agent_preset is Some ==> options.agent_preset == session.agent_preset
                &&& session.context_window is None ==> options.context_window is None
                &&& session.service_tier is None ==> options.service_tier is None
            }
        }),
{
}

/// What was found of the provider takes the place of what was known, and its models are no
/// longer awaited.
pub proof fn findings_are_known(catalog: CatalogView, probe: ProviderProbeView)
    ensures
        ({
            let after = catalog.probed(probe);
            &&& after.probes.len() > 0 && after.probes[0] == probe
            &&& !after.provider_model_discoveries_pending.contains(OPENCODE_PROVIDER@)
            &&& after.provider_versions == catalog.provider_versions
        }),
{
}

/// Looking for the provider tells whether it is installed and where; its models stay while
/// they are looked up, and its version is forgotten once it is gone. The moment is noted when
/// the last that was looked for is in.
pub proof fn detections_are_known(catalog: CatalogView, probe: ProviderProbeView, stamp: Stamp)
    ensures
        ({
            let after = catalog.detected(probe, stamp);
            let awaited = catalog.provider_model_discoveries_pending.contains(OPENCODE_PROVIDER@);
            &&& after.probes.len() > 0
            &&& after.probes[0].installed == probe.installed && after.probes[0].path == probe.path
            &&& awaited && catalog.probes.len() > 0 ==> after.probes[0].models == catalog.probes[0].models
            &&& !awaited ==> after.probes[0] == probe
            &&& !probe.installed ==> !after.provider_versions.dom().contains(OPENCODE_PROVIDER@)
            &&& probe.installed ==> after.provider_versions == catalog.provider_versions
            &&& catalog.provider_detection_remaining > 0 ==> after.provider_detection_remaining
                == catalog.provider_detection_remaining - 1
            &&& catalog.provider_detection_remaining <= 1 ==> after.provider_detection_checked_at == Some(stamp.millis)
            &&& catalog.provider_detection_remaining > 1 ==> after.provider_detection_checked_at
                == catalog.provider_detection_checked_at
        }),
{
}

/// The models are asked for once, of a provider that is installed.
pub proof fn models_are_asked_for_once(catalog: CatalogView)
    ensures
        ({
            let after = catalog.models_requested();
            let installed = catalog.probes.len() > 0 && catalog.probes[0].installed;
            let asked = catalog.provider_model_discoveries.contains(OPENCODE_PROVIDER@);
            &&& installed && !asked ==> after.provider_model_discoveries_pending.contains(OPENCODE_PROVIDER@)
                && after.provider_model_discoveries.contains(OPENCODE_PROVIDER@)
            &&& !installed || asked ==> after == catalog
            &&& after.models_requested() == after
        }),
{
}

/// Where tasks are read from the daemon: over a new connection first, then whenever they
/// change; a connection that breaks is waited for, and once nobody gives or takes anything it
/// ends for good.
pub proof fn tasks_are_read_while_connected(state: SyncState, event: SyncEvent)
    ensures
        state.after(event).doing() == SyncAction::LoadFromNewest && state != SyncState::Loading ==> event
            == SyncEvent::Client,
        event == SyncEvent::Client && (state == SyncState::Waiting || state == SyncState::Watching || state
            == SyncState::Broken) ==> state.after(event).doing() == SyncAction::LoadFromNewest,
        state == SyncState::Watching && event == SyncEvent::Revision ==> state.after(event).doing()
            == SyncAction::LoadAgain,
        (state == SyncState::Loading || state == SyncState::Reloading) && event == SyncEvent::Sent ==> state.after(
            event,
        ).doing() == SyncAction::Select,
        (state == SyncState::Loading || state == SyncState::Reloading) && event == SyncEvent::ResultsClosed
            ==> state.after(event).doing() == SyncAction::Stop,
        event == SyncEvent::ClientsClosed && (state == SyncState::Waiting || state == SyncState::Watching || state
            == SyncState::Broken) ==> state.after(event).doing() == SyncAction::Stop,
        state == SyncState::Watching && event == SyncEvent::RevisionsClosed ==> state.after(event).doing()
            == SyncAction::ReceiveClient,
        state.doing() == SyncAction::Stop ==> state.after(event).doing() == SyncAction::Stop,
{
}

} // verus!
