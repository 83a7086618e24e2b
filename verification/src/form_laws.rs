//! What a provider that is being added comes to, and what testing providers tells.
use vstd::prelude::*;

use crate::desk::wording;
use crate::provider_edit_laws::{all_but, stands_for};
use crate::provider_forms::{by_id, drafted, MergeOutcome};
use crate::provider_probes::{builtin_verdict, connected_ids, key_ids, IntegrationSummary};
use crate::provider_types::{
    ApiListErrorView, ConnectivityView, CustomProviderModelView, CustomProviderView, LatencyView,
    ProviderFormModelDraftView, ProvidersEffectView, ProvidersView,
};
use crate::providers_page::provider_pos;
use crate::text::trimmed;

verus! {

/// Every row of the form whose id says something is a model, in the order of the rows, with
/// the window read of it and the inputs chosen in it; other rows are left out.
pub proof fn filled_rows_are_models(
    drafts: Seq<ProviderFormModelDraftView>,
    windows: Seq<Option<u64>>,
    catalog: Map<Seq<char>, CustomProviderModelView>,
) -> (at: Seq<int>)
    requires
        windows.len() == drafts.len(),
    ensures
        ({
            let models = drafted(drafts, windows, catalog);
            &&& at.len() == models.len()
            &&& forall|i: int, j: int| 0 <= i < j < at.len() ==> #[trigger] at[i] < #[trigger] at[j]
            &&& forall|i: int|
                0 <= i < at.len() ==> 0 <= #[trigger] at[i] < drafts.len() && models[i].id == trimmed(drafts[at[i]].id)
                    && models[i].id.len() > 0 && models[i].context_window == windows[at[i]] && models[i].input_modalities
                    == drafts[at[i]].input_modalities
            &&& forall|k: int| 0 <= k < drafts.len() && trimmed((#[trigger] drafts[k]).id).len() > 0 ==> at.contains(k)
        }),
    decreases drafts.len(),
{
    if drafts.len() == 0 {
        Seq::empty()
    } else {
        let n = drafts.len() - 1;
        let rest = drafts.drop_last();
        let cut = windows.take(n);
        let before = filled_rows_are_models(rest, cut, catalog);
        let models = drafted(drafts, windows, catalog);
        let fewer = drafted(rest, cut, catalog);
        let after = if trimmed(drafts.last().id).len() == 0 {
            before
        } else {
            before.push(n)
        };
        assert forall|i: int| 0 <= i < after.len() implies 0 <= #[trigger] after[i] < drafts.len() && models[i].id == trimmed(
            drafts[after[i]].id,
        ) && models[i].id.len() > 0 && models[i].context_window == windows[after[i]] && models[i].input_modalities
            == drafts[after[i]].input_modalities by {
            if i < before.len() {
                assert(after[i] == before[i]);
                assert(models[i] == fewer[i]);
                assert(rest[before[i]] == drafts[before[i]]);
                assert(cut[before[i]] == windows[before[i]]);
            }
        }
        assert forall|k: int| 0 <= k < drafts.len() && trimmed((#[trigger] drafts[k]).id).len() > 0 implies after.contains(k) by {
            if k < n {
                assert(rest[k] == drafts[k]);
                let j = before.index_of(k);
                assert(after[j] == k);
            } else {
                assert(after[before.len() as int] == k);
            }
        }
        after
    }
}

/// A form that is complete adds one provider, the last of the list: named, addressed and keyed
/// as the form says without the spaces round it, in the dialect that was chosen, switched on,
/// with the models of the form. Every other provider stays, and the list is written out.
pub proof fn complete_forms_add_their_provider(
    providers: ProvidersView,
    windows: Seq<Option<u64>>,
    id: Seq<char>,
    slug: Seq<char>,
    k: int,
)
    requires
        providers.adding,
        trimmed(providers.form.name).len() > 0,
        windows.len() == providers.form.models.len(),
        0 <= k < providers.form.models.len(),
        trimmed(providers.form.models[k].id).len() > 0,
    ensures
        ({
            let after = providers.submitted(windows, true, id, slug);
            let made = after.store.last();
            &&& after.store.len() == providers.store.len() + 1
            &&& after.store.drop_last() == providers.store
            &&& made.id == id && made.slug == slug
            &&& made.name == trimmed(providers.form.name)
            &&& made.base_url == trimmed(providers.form.base_url)
            &&& made.api_key == trimmed(providers.form.api_key)
            &&& made.api_format == providers.form.format
            &&& made.enabled && !made.npm_touched
            &&& made.models == drafted(providers.form.models, windows, providers.form.catalog)
            &&& made.models.len() > 0
            &&& after.effects.contains(ProvidersEffectView::Commit)
            &&& !after.adding && after.selected == Some(id)
        }),
{
    let at = filled_rows_are_models(providers.form.models, windows, providers.form.catalog);
    assert(at.contains(k));
    assert(drafted(providers.form.models, windows, providers.form.catalog).len() > 0);
    reveal(ProvidersView::ask);
    reveal(ProvidersView::committed);
    reveal(ProvidersView::provider_added);
    reveal(ProvidersView::form_left);
    reveal(ProvidersView::chosen);
    reveal(ProvidersView::settled);
    reveal(ProvidersView::fields_loaded);
    let after = providers.submitted(windows, true, id, slug);
    assert(after.store.drop_last() =~= providers.store);
    assert(after.effects[providers.effects.len() as int] == ProvidersEffectView::Commit);
}

/// A form without a name, with an address that is none, or without a model adds nothing.
pub proof fn incomplete_forms_stay_open(
    providers: ProvidersView,
    windows: Seq<Option<u64>>,
    url_valid: bool,
    id: Seq<char>,
    slug: Seq<char>,
)
    requires
        windows.len() == providers.form.models.len(),
        trimmed(providers.form.name).len() == 0 || !url_valid || (forall|k: int|
            0 <= k < providers.form.models.len() ==> trimmed((#[trigger] providers.form.models[k]).id).len() == 0),
    ensures
        providers.submitted(windows, url_valid, id, slug).store == providers.store,
        providers.submitted(windows, url_valid, id, slug).adding == providers.adding,
        providers.submitted(windows, url_valid, id, slug).form == providers.form,
{
    reveal(ProvidersView::ask);
    let at = filled_rows_are_models(providers.form.models, windows, providers.form.catalog);
    if forall|k: int|
        0 <= k < providers.form.models.len() ==> trimmed((#[trigger] providers.form.models[k]).id).len() == 0 {
        if at.len() > 0 {
            assert(trimmed(providers.form.models[at[0]].id).len() == 0);
        }
    }
}

/// What a test of the form found is shown exactly where it is the last that was begun.
pub proof fn the_last_test_of_a_form_counts(providers: ProvidersView, generation: u64, outcome: ConnectivityView)
    ensures
        ({
            let begun = providers.form_probe_begun();
            let over = providers.form_probe_over(generation, outcome);
            &&& begun.form.connectivity == Some(ConnectivityView::Testing)
            &&& begun.form.probe_generation != providers.form.probe_generation
            &&& generation == providers.form.probe_generation ==> over.form.connectivity == Some(outcome)
            &&& generation != providers.form.probe_generation ==> over.form == providers.form
            &&& over.store == providers.store
        }),
{
    reveal(ProvidersView::ask);
}

/// Models that were fetched are the provider's, exactly where the fetch succeeded; a list that
/// gained something is written out. Nobody fetches any more.
pub proof fn fetched_models_are_the_providers(
    providers: ProvidersView,
    i: int,
    id: Seq<char>,
    failed: Option<ApiListErrorView>,
    table: bool,
    models: Seq<CustomProviderModelView>,
    outcome: MergeOutcome,
)
    requires
        stands_for(providers.store, i, id),
        provider_pos(providers.store, id) == Some(i),
    ensures
        ({
            let after = providers.fetch_over(id, failed, table, models, outcome);
            &&& !after.fetching
            &&& all_but(providers.store, after.store, i)
            &&& failed is Some ==> after.store == providers.store && after.effects.contains(
                ProvidersEffectView::ErrorToast(
                    wording("providers.fetch_failed"),
                    crate::provider_probes::list_error_text(failed->0),
                ),
            )
            &&& failed is None ==> after.store[i] == (CustomProviderView { models, ..providers.store[i] })
            &&& failed is None && (outcome.added > 0 || outcome.filled > 0) ==> after.effects.contains(
                ProvidersEffectView::Commit,
            )
        }),
{
    reveal(ProvidersView::ask);
    reveal(ProvidersView::committed);
    let after = providers.fetch_over(id, failed, table, models, outcome);
    let n = providers.effects.len() as int;
    if failed is Some {
        assert(after.effects[n] is ErrorToast);
    } else if outcome.added > 0 || outcome.filled > 0 {
        assert(after.effects[n] == ProvidersEffectView::Commit);
    }
}

/// What was found of a provider, or of a model of it, is what is shown of that one, and of no
/// other.
pub proof fn verdicts_are_shown(
    providers: ProvidersView,
    id: Seq<char>,
    other: Seq<char>,
    model: Seq<char>,
    state: ConnectivityView,
    time: LatencyView,
)
    requires
        other != id,
    ensures
        providers.tested(id, state).connectivity[id] == state,
        providers.tested(id, state).connectivity.dom().contains(id),
        providers.tested(id, state).connectivity.dom().contains(other) == providers.connectivity.dom().contains(other),
        providers.connectivity.dom().contains(other) ==> providers.tested(id, state).connectivity[other]
            == providers.connectivity[other],
        providers.timed(id, model, time).latency[(id, model)] == time,
        providers.timed(id, model, time).latency.dom().contains((id, model)),
        providers.timed(id, model, time).latency.dom().contains((other, model)) == providers.latency.dom().contains(
            (other, model),
        ),
        providers.tested(id, state).store == providers.store,
        providers.timed(id, model, time).store == providers.store,
{
    reveal(ProvidersView::ask);
}

/// A provider that is built in is reachable exactly where it serves a model; where it serves
/// none, its key is taken to be refused.
pub proof fn serving_providers_are_reachable(probed: Result<(usize, u64), Seq<char>>)
    ensures
        builtin_verdict(probed) is Reachable <==> probed is Ok && probed->Ok_0.0 > 0,
        probed is Ok && probed->Ok_0.0 > 0 ==> builtin_verdict(probed) == (ConnectivityView::Reachable {
            models: probed->Ok_0.0,
            latency: probed->Ok_0.1,
        }),
        probed is Ok && probed->Ok_0.0 == 0 ==> builtin_verdict(probed) == ConnectivityView::Failed(
            ApiListErrorView::AuthRejected(401),
        ),
        probed is Err ==> builtin_verdict(probed) == ConnectivityView::Failed(
            ApiListErrorView::Unreachable(probed->Err_0),
        ),
{
}

/// A provider counts as connected, or as one that takes a key, exactly where the list says so.
pub proof fn integrations_are_as_listed(list: Seq<IntegrationSummary>, id: Seq<char>)
    ensures
        connected_ids(list).contains(id) <==> exists|k: int|
            0 <= k < list.len() && (#[trigger] list[k]).id@ == id && list[k].connected,
        key_ids(list).contains(id) <==> exists|k: int|
            0 <= k < list.len() && (#[trigger] list[k]).id@ == id && list[k].supports_key,
    decreases list.len(),
{
    if list.len() > 0 {
        let rest = list.drop_last();
        integrations_are_as_listed(rest, id);
        assert(forall|k: int| 0 <= k < rest.len() ==> #[trigger] rest[k] == list[k]);
        assert(list[list.len() - 1] == list.last());
        if connected_ids(rest).contains(id) {
            let k = choose|k: int| 0 <= k < rest.len() && (#[trigger] rest[k]).id@ == id && rest[k].connected;
            assert(list[k].id@ == id);
        }
        if key_ids(rest).contains(id) {
            let k = choose|k: int| 0 <= k < rest.len() && (#[trigger] rest[k]).id@ == id && rest[k].supports_key;
            assert(list[k].id@ == id);
        }
        if exists|k: int| 0 <= k < list.len() && (#[trigger] list[k]).id@ == id && list[k].connected {
            let k = choose|k: int| 0 <= k < list.len() && (#[trigger] list[k]).id@ == id && list[k].connected;
            if k < rest.len() {
                assert(rest[k].id@ == id);
            }
        }
        if exists|k: int| 0 <= k < list.len() && (#[trigger] list[k]).id@ == id && list[k].supports_key {
            let k = choose|k: int| 0 <= k < list.len() && (#[trigger] list[k]).id@ == id && list[k].supports_key;
            if k < rest.len() {
                assert(rest[k].id@ == id);
            }
        }
    }
}

/// Signing in makes a provider one that is authorized and shows it; signing out takes that
/// away, with what was tested of it.
pub proof fn signing_in_and_out(providers: ProvidersView, id: Seq<char>, selection: Seq<char>, other: Seq<char>)
    requires
        other != id,
    ensures
        ({
            let after = providers.connected(id, selection);
            &&& after.authorized == providers.authorized.insert(id)
            &&& after.selected == Some(selection)
            &&& !after.auth_loading && !after.adding
            &&& after.store == providers.store
        }),
        ({
            let after = providers.disconnected(id);
            &&& after.authorized == providers.authorized.remove(id)
            &&& providers.builtin_probe_id == Some(id) ==> after.builtin_connectivity is None && after.builtin_probe_id is None
            &&& providers.builtin_probe_id != Some(id) ==> after.builtin_connectivity == providers.builtin_connectivity
            &&& !after.auth_loading
            &&& after.store == providers.store
        }),
        providers.auth_failed(other).authorized == providers.authorized,
        !providers.auth_failed(other).auth_loading,
{
    reveal(ProvidersView::ask);
    reveal(ProvidersView::form_left);
    reveal(ProvidersView::chosen);
    reveal(ProvidersView::settled);
    reveal(ProvidersView::fields_loaded);
}

/// What was fetched for a form fills its rows, exactly where it is the answer to the last
/// question, the fetch succeeded and brought something; a failure is told and leaves the rows.
/// Nobody fetches for the form any more.
pub proof fn fetched_models_fill_the_form(
    providers: ProvidersView,
    generation: u64,
    failed: Option<ApiListErrorView>,
    known: bool,
    models: Seq<CustomProviderModelView>,
    rows: Seq<ProviderFormModelDraftView>,
    outcome: MergeOutcome,
)
    ensures
        ({
            let begun = providers.form_fetch_begun();
            let after = providers.form_fetch_over(generation, failed, known, models, rows, outcome);
            let current = providers.form.fetch_generation == generation;
            let brought = failed is None && (outcome.added > 0 || outcome.filled > 0);
            &&& begun.form.fetching && begun.form.fetch_generation != providers.form.fetch_generation
            &&& !after.form.fetching
            &&& current && brought ==> after.form.models == rows
            &&& !current || !brought ==> after.form.models == providers.form.models && after.form.catalog
                == providers.form.catalog
            &&& current && failed is Some ==> after.effects[providers.effects.len() as int] is ErrorToast
            &&& after.store == providers.store
        }),
{
    reveal(ProvidersView::ask);
}

/// What was fetched is known by its id, the last of an id where several bear it.
pub proof fn fetched_models_are_known_by_id(
    models: Seq<CustomProviderModelView>,
    model: CustomProviderModelView,
    other: Seq<char>,
)
    requires
        other != model.id,
    ensures
        by_id(models.push(model)).dom().contains(model.id),
        by_id(models.push(model))[model.id] == model,
        by_id(models.push(model)).dom().contains(other) == by_id(models).dom().contains(other),
        by_id(models).dom().contains(other) ==> by_id(models.push(model))[other] == by_id(models)[other],
        by_id(Seq::empty()) == Map::<Seq<char>, CustomProviderModelView>::empty(),
{
    assert(models.push(model).drop_last() =~= models);
}

} // verus!
