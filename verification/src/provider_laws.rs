//! What holds of the page of providers as a whole.
use vstd::prelude::*;

use crate::probes::OPENCODE_PROVIDER;
use crate::provider_types::{
    CustomProviderModelView, CustomProviderView, ProvidersEffectView, ProvidersModelEditor, ProvidersView,
};
use crate::providers_page::{has_model, lemma_provider_pos, provider_pos, without_provider, ProviderField};
use crate::text::trimmed;

verus! {

proof fn lemma_untested(providers: ProvidersView, id: Seq<char>)
    ensures
        !providers.untested(id).connectivity.dom().contains(id),
        forall|model: Seq<char>| !(#[trigger] providers.untested(id).latency.dom().contains((id, model))),
{
    reveal(ProvidersView::untested);
    assert forall|model: Seq<char>| !(#[trigger] providers.untested(id).latency.dom().contains((id, model))) by {
        let m = providers.latency;
        if m.dom().contains((id, model)) {
            assert(m.dom().filter(|key: (Seq<char>, Seq<char>)| key.0 == id).contains((id, model)));
        }
    }
}

/// Once the address or the key of a provider changes, nothing that was tested of it counts
/// any more.
pub proof fn edits_void_verdicts(providers: ProvidersView, field: ProviderField, value: Seq<char>)
    requires
        providers.custom() matches Some(p) && (match field {
            ProviderField::BaseUrl => p.base_url,
            ProviderField::ApiKey => p.api_key,
        }) != value,
    ensures
        ({
            let id = providers.custom()->0.id;
            let after = providers.field_edited(field, value);
            &&& !after.connectivity.dom().contains(id)
            &&& forall|model: Seq<char>| !(#[trigger] after.latency.dom().contains((id, model)))
        }),
{
    let i = providers.chosen_pos()->0;
    let provider = providers.store[i];
    let edited = match field {
        ProviderField::BaseUrl => CustomProviderView { base_url: value, ..provider },
        ProviderField::ApiKey => CustomProviderView { api_key: value, ..provider },
    };
    lemma_untested(providers.with_provider(i, edited), provider.id);
    reveal(ProvidersView::commit_scheduled);
    reveal(ProvidersView::ask);
}

/// Of a burst of edits, only the wait of the last one has the list be written.
pub proof fn bursts_are_written_once(providers: ProvidersView, id: Seq<char>)
    requires
        providers.commit_generation < u64::MAX - 1,
    ensures
        ({
            let once = providers.edit_noticed(id);
            let twice = once.edit_noticed(id);
            &&& twice.commit_due(once.commit_generation) == twice
            &&& twice.commit_due(twice.commit_generation).commit_generation == 0
            &&& twice.commit_due(twice.commit_generation).effects.contains(ProvidersEffectView::Commit)
        }),
{
    reveal(ProvidersView::untested);
    reveal(ProvidersView::commit_scheduled);
    reveal(ProvidersView::committed);
    reveal(ProvidersView::ask);
    let twice = providers.edit_noticed(id).edit_noticed(id);
    let after = twice.commit_due(twice.commit_generation);
    assert(after.effects[twice.effects.len() as int] == ProvidersEffectView::Commit);
}

/// While an edit waits to be written, what the configuration holds does not take its place.
pub proof fn waiting_edits_survive_reading(
    providers: ProvidersView,
    generation: u64,
    found: Result<Seq<CustomProviderView>, Seq<char>>,
)
    requires
        providers.commit_generation != 0,
    ensures
        providers.loaded(generation, found) == providers,
{
}

/// What is shown in the details is always there: the built-in provider, or one in the list.
pub proof fn details_always_resolve(providers: ProvidersView)
    ensures
        providers.effective_id() == OPENCODE_PROVIDER@ || exists|i: int|
            0 <= i < providers.store.len() && (#[trigger] providers.store[i]).id == providers.effective_id(),
{
    match providers.selected {
        Some(id) => {
            lemma_provider_pos(providers.store, id);
            if let Some(i) = provider_pos(providers.store, id) {
                assert(providers.store[i].id == id);
            }
        },
        None => {},
    }
}

proof fn lemma_without(store: Seq<CustomProviderView>, id: Seq<char>)
    ensures
        forall|i: int| 0 <= i < without_provider(store, id).len() ==> (#[trigger] without_provider(store, id)[i]).id != id,
        forall|p: CustomProviderView| store.contains(p) && p.id != id ==> #[trigger] without_provider(store, id).contains(p),
    decreases store.len(),
{
    if store.len() > 0 {
        let head = store.drop_last();
        lemma_without(head, id);
        let rest = without_provider(store, id);
        let before = without_provider(head, id);
        assert forall|p: CustomProviderView| store.contains(p) && p.id != id implies #[trigger] rest.contains(p) by {
            let k = store.index_of(p);
            if k < head.len() {
                assert(head[k] == p);
                assert(head.contains(p));
                assert(before.contains(p));
                let n = before.index_of(p);
                assert(rest[n] == p);
            } else {
                assert(rest[before.len() as int] == p);
            }
        }
    }
}

/// A provider goes away at the second press in a row and not before, and no other goes with
/// it.
pub proof fn deleting_takes_two_presses(providers: ProvidersView, id: Seq<char>)
    requires
        providers.delete_arming != Some(id),
    ensures
        ({
            let once = providers.delete_pressed(id);
            let twice = once.delete_pressed(id);
            &&& once.store == providers.store
            &&& forall|i: int| 0 <= i < twice.store.len() ==> (#[trigger] twice.store[i]).id != id
            &&& forall|p: CustomProviderView|
                providers.store.contains(p) && p.id != id ==> #[trigger] twice.store.contains(p)
            &&& twice.selected != Some(id) || id == OPENCODE_PROVIDER@
        }),
{
    reveal(ProvidersView::ask);
    reveal(ProvidersView::removed);
    reveal(ProvidersView::untested);
    reveal(ProvidersView::committed);
    reveal(ProvidersView::chosen);
    reveal(ProvidersView::form_left);
    reveal(ProvidersView::settled);
    reveal(ProvidersView::fields_loaded);
    lemma_without(providers.store, id);
}

/// Every provider in the list has a model.
pub open spec fn all_have_models(store: Seq<CustomProviderView>) -> bool {
    forall|i: int| 0 <= i < store.len() ==> (#[trigger] store[i]).models.len() > 0
}

/// Whatever is done with models, no provider is left without one.
pub proof fn models_never_run_out(providers: ProvidersView, id: Seq<char>, index: usize, window: Option<u64>)
    requires
        all_have_models(providers.store),
    ensures
        all_have_models(providers.model_deleted(id, index).store),
        all_have_models(providers.editor_confirmed(window).store),
{
    reveal(ProvidersView::ask);
    reveal(ProvidersView::committed);
    reveal(ProvidersView::editor_moved);
    reveal(ProvidersView::editor_closed);
    lemma_provider_pos(providers.store, id);
    if let Some(selected) = providers.selected {
        lemma_provider_pos(providers.store, selected);
    }
}

/// The models of a provider have names of their own.
pub open spec fn distinct(models: Seq<CustomProviderModelView>) -> bool {
    forall|i: int, j: int| 0 <= i < j < models.len() ==> (#[trigger] models[i]).id != (#[trigger] models[j]).id
}

/// Taking over the model in the editor gives no two models of the provider one name.
pub proof fn edited_models_stay_distinct(providers: ProvidersView, window: Option<u64>)
    requires
        providers.custom() matches Some(p) && distinct(p.models),
    ensures
        distinct(providers.editor_confirmed(window).store[providers.chosen_pos()->0].models),
{
    reveal(ProvidersView::ask);
    reveal(ProvidersView::committed);
    reveal(ProvidersView::editor_closed);
    lemma_provider_pos(providers.store, providers.selected->0);
    let i = providers.chosen_pos()->0;
    let models = providers.store[i].models;
    if let Some(editor) = providers.model_editor {
        let after = providers.models_edited(editor, models, window);
        let id = trimmed(providers.model_id_input);
        if !providers.duplicate(editor, models) {
            assert forall|a: int, b: int| 0 <= a < b < after.len() implies (#[trigger] after[a]).id != (#[trigger] after[b]).id by {
                match editor {
                    ProvidersModelEditor::Add => {
                        assert(!has_model(models, id));
                        if b == models.len() {
                            assert(after[a] == models[a]);
                        } else {
                            assert(after[a] == models[a] && after[b] == models[b]);
                        }
                    },
                    ProvidersModelEditor::Edit(index) => {
                        if index < models.len() {
                            if a == index {
                                assert(after[a].id == id);
                                assert(after[b] == models[b]);
                                if models[index as int].id == id {
                                    assert(models[a].id != models[b].id);
                                } else {
                                    assert(!has_model(models, id));
                                }
                            } else if b == index {
                                assert(after[b].id == id);
                                assert(after[a] == models[a]);
                                if models[index as int].id == id {
                                    assert(models[a].id != models[b].id);
                                } else {
                                    assert(!has_model(models, id));
                                }
                            } else {
                                assert(after[a] == models[a] && after[b] == models[b]);
                            }
                        }
                    },
                }
            }
        }
    }
}

/// The editor stays on the model that it was opened on as another of the list goes away.
pub proof fn editors_follow_their_model(providers: ProvidersView, id: Seq<char>, index: usize, edited: usize)
    requires
        providers.selected == Some(id),
        providers.model_editor == Some(ProvidersModelEditor::Edit(edited)),
        providers.custom() matches Some(p) && edited < p.models.len() && index < p.models.len() && p.models.len() > 1,
        edited != index,
    ensures
        ({
            let after = providers.model_deleted(id, index);
            &&& after.model_editor matches Some(ProvidersModelEditor::Edit(now)) && after.custom() matches Some(q) && now
                < q.models.len() && q.models[now as int] == providers.custom()->0.models[edited as int]
        }),
{
    reveal(ProvidersView::ask);
    reveal(ProvidersView::committed);
    reveal(ProvidersView::editor_moved);
    lemma_provider_pos(providers.store, id);
    let i = provider_pos(providers.store, id)->0;
    let p = providers.store[i];
    let q = CustomProviderView { models: p.models.remove(index as int), ..p };
    lemma_pos_kept(providers.store, i, q, id);
}

proof fn lemma_pos_kept(store: Seq<CustomProviderView>, i: int, provider: CustomProviderView, id: Seq<char>)
    requires
        0 <= i < store.len(),
        provider.id == store[i].id,
    ensures
        provider_pos(store.update(i, provider), id) == provider_pos(store, id),
    decreases store.len(),
{
    if i > 0 {
        assert(store.update(i, provider).drop_first() =~= store.drop_first().update(i - 1, provider));
        lemma_pos_kept(store.drop_first(), i - 1, provider, id);
    } else {
        assert(store.update(i, provider).drop_first() =~= store.drop_first());
    }
}

/// Switching a provider twice leaves the list as it was.
pub proof fn switching_twice_changes_nothing(providers: ProvidersView, id: Seq<char>)
    ensures
        providers.toggled(id).toggled(id).store == providers.store,
{
    reveal(ProvidersView::ask);
    reveal(ProvidersView::committed);
    lemma_provider_pos(providers.store, id);
    if let Some(i) = provider_pos(providers.store, id) {
        let p = providers.store[i];
        lemma_pos_kept(providers.store, i, CustomProviderView { enabled: !p.enabled, ..p }, id);
        assert(providers.toggled(id).toggled(id).store =~= providers.store);
    }
}

/// Choosing a provider shows its address and its key, hides the key, and drops whatever was
/// half done.
pub proof fn choosing_starts_over(providers: ProvidersView, id: Seq<char>)
    ensures
        ({
            let after = providers.chosen(id);
            &&& after.selected == Some(id)
            &&& !after.adding && !after.renaming && !after.api_key_revealed
            &&& after.delete_arming is None && after.model_editor is None
            &&& after.store == providers.store
            &&& match provider_pos(providers.store, id) {
                Some(i) => after.base_url_input == providers.store[i].base_url && after.api_key_input
                    == providers.store[i].api_key,
                None => after.base_url_input == providers.base_url_input,
            }
        }),
{
    reveal(ProvidersView::ask);
    reveal(ProvidersView::chosen);
    reveal(ProvidersView::form_left);
    reveal(ProvidersView::settled);
    reveal(ProvidersView::fields_loaded);
}

} // verus!
