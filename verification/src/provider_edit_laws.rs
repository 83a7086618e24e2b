//! What each change on the page of providers does to the providers, and what it leaves.
use vstd::prelude::*;

use crate::provider_types::{
    CustomProviderView, ProviderApiFormat, ProvidersEffectView, ProvidersModelEditor, ProvidersView,
};
use crate::providers_page::{lemma_provider_pos, provider_pos, without_provider, ProviderField};
use crate::text::trimmed;

verus! {

/// The provider at `i` is the one that the id stands for: the first that bears it.
pub open spec fn stands_for(store: Seq<CustomProviderView>, i: int, id: Seq<char>) -> bool {
    &&& 0 <= i < store.len()
    &&& store[i].id == id
    &&& forall|j: int| 0 <= j < i ==> (#[trigger] store[j]).id != id
}

/// Between two lists of providers only the one at `i` may differ.
pub open spec fn all_but(before: Seq<CustomProviderView>, after: Seq<CustomProviderView>, i: int) -> bool {
    &&& after.len() == before.len()
    &&& forall|j: int| 0 <= j < before.len() && j != i ==> #[trigger] after[j] == before[j]
}

/// The list is written out, and what the providers serve is found anew.
pub open spec fn written(before: ProvidersView, after: ProvidersView) -> bool {
    &&& after.effects.len() > before.effects.len()
    &&& after.effects.take(before.effects.len() as int) == before.effects
    &&& after.effects.skip(before.effects.len() as int).contains(ProvidersEffectView::Commit)
    &&& after.effects.skip(before.effects.len() as int).contains(ProvidersEffectView::RefreshDetection)
}

proof fn lemma_stands_for(store: Seq<CustomProviderView>, i: int, id: Seq<char>)
    requires
        stands_for(store, i, id),
    ensures
        provider_pos(store, id) == Some(i),
    decreases store.len(),
{
    if i > 0 {
        assert(store[0].id != id);
        let rest = store.drop_first();
        assert forall|j: int| 0 <= j < i - 1 implies (#[trigger] rest[j]).id != id by {
            assert(store[j + 1].id != id);
        }
        lemma_stands_for(rest, i - 1, id);
    }
}

proof fn lemma_committed(providers: ProvidersView)
    ensures
        providers.committed() == (ProvidersView { effects: providers.committed().effects, ..providers }),
        written(providers, providers.committed()),
        providers.committed().effects.len() == providers.effects.len() + 3,
{
    reveal(ProvidersView::ask);
    reveal(ProvidersView::committed);
    let n = providers.effects.len() as int;
    let after = providers.committed().effects;
    assert(after.take(n) =~= providers.effects);
    let tail = after.skip(n);
    assert(tail[0] == ProvidersEffectView::Commit);
    assert(tail[1] == ProvidersEffectView::RefreshDetection);
}

/// After a dialect is chosen for a provider of the list, the provider speaks that dialect.
/// Every other provider, and all else of this one but the note that the dialect was chosen by
/// hand, is as before. A change is written out, and no repeat.
pub proof fn chosen_dialects_are_spoken(providers: ProvidersView, i: int, id: Seq<char>, format: ProviderApiFormat)
    requires
        stands_for(providers.store, i, id),
    ensures
        ({
            let was = providers.store[i];
            let after = providers.formatted(id, format);
            let now = after.store[i];
            &&& all_but(providers.store, after.store, i)
            &&& now.api_format == format
            &&& now == (CustomProviderView { api_format: format, npm_touched: now.npm_touched, ..was })
            &&& now.npm_touched == (was.npm_touched || was.api_format != format)
            &&& was.api_format != format ==> written(providers, after)
            &&& was.api_format == format ==> after == providers.ask(ProvidersEffectView::Notify)
            &&& after == (ProvidersView { store: after.store, effects: after.effects, ..providers })
        }),
{
    lemma_stands_for(providers.store, i, id);
    reveal(ProvidersView::ask);
    let was = providers.store[i];
    lemma_committed(
        providers.with_provider(i, CustomProviderView { api_format: format, npm_touched: true, ..was }),
    );
    if was.api_format == format {
        assert(providers.formatted(id, format).store == providers.store);
    }
}

/// A dialect that is chosen for a provider that is gone changes nothing.
pub proof fn absent_providers_have_no_dialect(providers: ProvidersView, id: Seq<char>, format: ProviderApiFormat)
    requires
        forall|j: int| 0 <= j < providers.store.len() ==> (#[trigger] providers.store[j]).id != id,
    ensures
        providers.formatted(id, format) == providers,
{
    lemma_provider_pos(providers.store, id);
    if let Some(k) = provider_pos(providers.store, id) {
        assert(providers.store[k].id != id);
    }
}

/// The switch of a provider turns it on where it was off and off where it was on, and nothing
/// else changes in the list. The list is written out.
pub proof fn switches_turn_one_provider(providers: ProvidersView, i: int, id: Seq<char>)
    requires
        stands_for(providers.store, i, id),
    ensures
        ({
            let after = providers.toggled(id);
            &&& all_but(providers.store, after.store, i)
            &&& after.store[i].enabled != providers.store[i].enabled
            &&& after.store[i] == (CustomProviderView { enabled: after.store[i].enabled, ..providers.store[i] })
            &&& written(providers, after)
            &&& after == (ProvidersView { store: after.store, effects: after.effects, ..providers })
        }),
{
    lemma_stands_for(providers.store, i, id);
    let was = providers.store[i];
    lemma_committed(providers.with_provider(i, CustomProviderView { enabled: !was.enabled, ..was }));
}

/// What is typed into the address or the key of the provider on screen is its address or its
/// key from then on, and nothing else of the list changes. It is written out later, once
/// typing rests.
pub proof fn typed_fields_are_kept(providers: ProvidersView, i: int, id: Seq<char>, field: ProviderField, value: Seq<char>)
    requires
        providers.selected == Some(id),
        stands_for(providers.store, i, id),
    ensures
        ({
            let was = providers.store[i];
            let after = providers.field_edited(field, value);
            &&& all_but(providers.store, after.store, i)
            &&& after.store[i] == (match field {
                ProviderField::BaseUrl => CustomProviderView { base_url: value, ..was },
                ProviderField::ApiKey => CustomProviderView { api_key: value, ..was },
            })
            &&& after.store[i] != was ==> after.commit_generation != providers.commit_generation && after.effects.contains(
                ProvidersEffectView::CommitLater(after.commit_generation),
            )
            &&& after.store[i] == was ==> after == providers
        }),
{
    lemma_stands_for(providers.store, i, id);
    reveal(ProvidersView::ask);
    reveal(ProvidersView::untested);
    reveal(ProvidersView::commit_scheduled);
    let after = providers.field_edited(field, value);
    if after.store[i] == providers.store[i] {
        assert(after == providers);
    } else {
        assert(after.effects[providers.effects.len() as int] == ProvidersEffectView::CommitLater(after.commit_generation));
    }
}

/// A new name is taken as it stands without the spaces round it. A name of nothing but spaces,
/// or the name that it has, changes nothing of the list. Either way renaming is over.
pub proof fn confirmed_names_are_taken(providers: ProvidersView, i: int, id: Seq<char>)
    requires
        providers.renaming,
        providers.selected == Some(id),
        stands_for(providers.store, i, id),
    ensures
        ({
            let name = trimmed(providers.rename_input);
            let after = providers.rename_confirmed();
            &&& !after.renaming
            &&& all_but(providers.store, after.store, i)
            &&& name.len() > 0 ==> after.store[i] == (CustomProviderView { name, ..providers.store[i] })
            &&& name.len() == 0 ==> after.store[i] == providers.store[i]
            &&& name.len() > 0 && providers.store[i].name != name ==> written(providers, after)
        }),
{
    lemma_stands_for(providers.store, i, id);
    reveal(ProvidersView::ask);
    let name = trimmed(providers.rename_input);
    let done = ProvidersView { renaming: false, ..providers };
    lemma_committed(done.with_provider(i, CustomProviderView { name, ..providers.store[i] }));
}

/// A provider that is deleted is gone from the list, whoever else bears its id with it; every
/// other provider stays, in its place among the others. The list is written out.
pub proof fn deleted_providers_are_gone(providers: ProvidersView, id: Seq<char>)
    ensures
        ({
            let after = providers.deleted(id);
            &&& forall|j: int| 0 <= j < after.store.len() ==> (#[trigger] after.store[j]).id != id
            &&& forall|k: int|
                0 <= k < providers.store.len() && (#[trigger] providers.store[k]).id != id ==> after.store.contains(
                    providers.store[k],
                )
            &&& forall|j: int|
                0 <= j < after.store.len() ==> providers.store.contains(#[trigger] after.store[j])
            &&& after.delete_arming is None
            &&& after.selected != Some(id) || providers.selected == Some(id)
            &&& providers.selected == Some(id) ==> after.selected == Some(crate::probes::OPENCODE_PROVIDER@)
            &&& providers.selected != Some(id) ==> after.selected == providers.selected
            &&& after.effects.contains(ProvidersEffectView::Commit)
        }),
{
    lemma_without(providers.store, id);
    reveal(ProvidersView::ask);
    reveal(ProvidersView::committed);
    reveal(ProvidersView::untested);
    reveal(ProvidersView::removed);
    reveal(ProvidersView::chosen);
    reveal(ProvidersView::form_left);
    reveal(ProvidersView::settled);
    reveal(ProvidersView::fields_loaded);
    let after = providers.deleted(id);
    assert(after.store == without_provider(providers.store, id));
    assert(after.effects[providers.effects.len() as int] == ProvidersEffectView::Commit);
}

proof fn lemma_without(store: Seq<CustomProviderView>, id: Seq<char>)
    ensures
        forall|j: int|
            0 <= j < without_provider(store, id).len() ==> (#[trigger] without_provider(store, id)[j]).id != id
                && store.contains(without_provider(store, id)[j]),
        forall|k: int|
            0 <= k < store.len() && (#[trigger] store[k]).id != id ==> without_provider(store, id).contains(store[k]),
    decreases store.len(),
{
    if store.len() > 0 {
        let rest = store.drop_last();
        lemma_without(rest, id);
        let before = without_provider(rest, id);
        let after = without_provider(store, id);
        assert forall|j: int| 0 <= j < after.len() implies (#[trigger] after[j]).id != id && store.contains(after[j]) by {
            if j < before.len() {
                assert(after[j] == before[j]);
                let k = rest.index_of(before[j]);
                assert(store[k] == after[j]);
            } else {
                assert(store[store.len() - 1] == after[j]);
            }
        }
        assert forall|k: int| 0 <= k < store.len() && (#[trigger] store[k]).id != id implies after.contains(store[k]) by {
            if k < rest.len() {
                assert(rest[k] == store[k]);
                let j = before.index_of(rest[k]);
                assert(after[j] == store[k]);
            } else {
                assert(after[before.len() as int] == store[k]);
            }
        }
    }
}

/// A model that is deleted is gone from its provider, and the models behind it move up; its
/// last model stays.
pub proof fn deleted_models_are_gone(providers: ProvidersView, i: int, id: Seq<char>, index: usize)
    requires
        stands_for(providers.store, i, id),
    ensures
        ({
            let was = providers.store[i];
            let after = providers.model_deleted(id, index);
            let now = after.store[i];
            &&& all_but(providers.store, after.store, i)
            &&& now == (CustomProviderView { models: now.models, ..was })
            &&& if index < was.models.len() && was.models.len() > 1 {
                &&& now.models.len() == was.models.len() - 1
                &&& forall|k: int| 0 <= k < now.models.len() ==> #[trigger] now.models[k] == was.models[if k < index {
                    k
                } else {
                    k + 1
                }]
                &&& after.effects.contains(ProvidersEffectView::Commit)
            } else {
                now.models == was.models
            }
        }),
{
    lemma_stands_for(providers.store, i, id);
    reveal(ProvidersView::ask);
    reveal(ProvidersView::committed);
    reveal(ProvidersView::editor_moved);
    reveal(ProvidersView::editor_closed);
    let was = providers.store[i];
    let after = providers.model_deleted(id, index);
    if index < was.models.len() && was.models.len() > 1 {
        assert(after.effects[providers.effects.len() as int] == ProvidersEffectView::Commit);
    } else {
        assert(after.store == providers.store);
    }
}

/// What is confirmed in the editor is a model of the provider on screen: the last one, where
/// it was added, or the one that was edited. Its id is what was typed, its window the one
/// read, its inputs those chosen. Nothing else of the list changes, and the editor closes.
pub proof fn confirmed_models_are_listed(
    providers: ProvidersView,
    i: int,
    id: Seq<char>,
    editor: ProvidersModelEditor,
    window: Option<u64>,
)
    requires
        providers.selected == Some(id),
        stands_for(providers.store, i, id),
        providers.model_editor == Some(editor),
        trimmed(providers.model_id_input).len() > 0,
        window is Some || trimmed(providers.model_context_input).len() == 0,
        editor matches ProvidersModelEditor::Edit(index) ==> index < providers.store[i].models.len(),
        forall|k: int|
            0 <= k < providers.store[i].models.len() && (#[trigger] providers.store[i].models[k]).id == trimmed(
                providers.model_id_input,
            ) ==> editor == ProvidersModelEditor::Edit(k as usize) && k <= usize::MAX,
    ensures
        ({
            let was = providers.store[i].models;
            let after = providers.editor_confirmed(window);
            let now = after.store[i].models;
            let at = match editor {
                ProvidersModelEditor::Add => was.len() as int,
                ProvidersModelEditor::Edit(index) => index as int,
            };
            &&& all_but(providers.store, after.store, i)
            &&& after.store[i] == (CustomProviderView { models: now, ..providers.store[i] })
            &&& now.len() == (if editor is Add {
                was.len() + 1
            } else {
                was.len()
            })
            &&& forall|k: int| 0 <= k < was.len() && k != at ==> #[trigger] now[k] == was[k]
            &&& now[at].id == trimmed(providers.model_id_input)
            &&& now[at].context_window == window
            &&& now[at].input_modalities == providers.model_editor_modalities
            &&& editor is Add || was[at].id != now[at].id ==> now[at].name is None && now[at].output_limit is None
            &&& editor is Edit && was[at].id == now[at].id ==> now[at].name == was[at].name && now[at].output_limit
                == was[at].output_limit
            &&& after.model_editor is None
            &&& after.effects.contains(ProvidersEffectView::Commit)
        }),
{
    lemma_stands_for(providers.store, i, id);
    reveal(ProvidersView::ask);
    reveal(ProvidersView::committed);
    reveal(ProvidersView::editor_closed);
    let after = providers.editor_confirmed(window);
    assert(!providers.duplicate(editor, providers.store[i].models));
    assert(after.effects[providers.effects.len() as int] == ProvidersEffectView::Commit);
}

/// A model without an id is not confirmed, nor one whose id another model of the provider
/// bears, nor one whose window cannot be read: the list stays as it is.
pub proof fn refused_models_change_nothing(
    providers: ProvidersView,
    i: int,
    id: Seq<char>,
    editor: ProvidersModelEditor,
    window: Option<u64>,
    k: int,
)
    requires
        providers.selected == Some(id),
        stands_for(providers.store, i, id),
        providers.model_editor == Some(editor),
        trimmed(providers.model_id_input).len() == 0 || (window is None && trimmed(providers.model_context_input).len() > 0)
            || (editor is Add && 0 <= k < providers.store[i].models.len() && providers.store[i].models[k].id == trimmed(
            providers.model_id_input,
        )),
    ensures
        providers.editor_confirmed(window).store == providers.store,
        providers.editor_confirmed(window).model_editor == Some(editor),
        !providers.editor_confirmed(window).effects.skip(providers.effects.len() as int).contains(
            ProvidersEffectView::Commit,
        ),
{
    lemma_stands_for(providers.store, i, id);
    reveal(ProvidersView::ask);
    let after = providers.editor_confirmed(window);
    assert(after.effects.len() <= providers.effects.len() + 1);
    let tail = after.effects.skip(providers.effects.len() as int);
    if tail.contains(ProvidersEffectView::Commit) {
        let j = tail.index_of(ProvidersEffectView::Commit);
        assert(tail[j] == after.effects[providers.effects.len() + j]);
    }
}

/// What is read is the list, exactly where it is the answer to the last question and no edit
/// waits to be written; a failed reading leaves the list.
pub proof fn readings_replace_the_list(
    providers: ProvidersView,
    generation: u64,
    found: Result<Seq<CustomProviderView>, Seq<char>>,
)
    ensures
        ({
            let after = providers.loaded(generation, found);
            let current = providers.load_generation == generation && providers.commit_generation == 0;
            &&& current && found is Ok ==> after.store == found->Ok_0
            &&& !current || found is Err ==> after.store == providers.store
            &&& !current ==> after == providers
        }),
{
    reveal(ProvidersView::ask);
    reveal(ProvidersView::fields_loaded);
}

/// The list is written out for the last edit of a burst, and for no edit before it.
pub proof fn waiting_edits_are_written(providers: ProvidersView, generation: u64)
    ensures
        ({
            let after = providers.commit_due(generation);
            &&& after.store == providers.store
            &&& generation == providers.commit_generation ==> written(providers, after) && after.commit_generation == 0
            &&& generation != providers.commit_generation ==> after == providers
        }),
{
    lemma_committed(ProvidersView { commit_generation: 0, ..providers });
}

} // verus!
