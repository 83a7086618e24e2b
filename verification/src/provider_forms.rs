//! The form for a new provider: its rows of models, its tests, and handing it in.
use vstd::prelude::*;

use crate::desk::{text_args, wording, wording_with, Text, TextArg, TextView};
use crate::modalities::{toggle_modality, toggled};
use crate::provider_probes::{api_list_error_text, list_error_text};
use crate::provider_types::{
    custom_provider_model_views, custom_provider_views, model_map, provider_form_model_draft_views,
    ApiListError, ApiListErrorView, ConnectivityView, CustomProvider, CustomProviderModel,
    CustomProviderModelView, CustomProviderView, ProviderApiFormat, ProviderConnectivityState,
    ProviderFormModelDraft, ProviderFormModelDraftView, ProviderFormView, Providers, ProvidersEffect,
    ProvidersEffectView, ProvidersView,
};
use crate::providers_page::{count_on, next_count};
use crate::keyed::StrMap;
use crate::text::{copy_texts, texts, trim, trimmed};

verus! {

/// The model that a row stands for. What was learned of it besides rides along.
pub open spec fn drafted_model(
    draft: ProviderFormModelDraftView,
    window: Option<u64>,
    catalog: Map<Seq<char>, CustomProviderModelView>,
) -> CustomProviderModelView {
    let id = trimmed(draft.id);
    CustomProviderModelView {
        id,
        name: if catalog.dom().contains(id) {
            catalog[id].name
        } else {
            None
        },
        context_window: window,
        output_limit: if catalog.dom().contains(id) {
            catalog[id].output_limit
        } else {
            None
        },
        input_modalities: draft.input_modalities,
    }
}

/// The models that rows stand for; rows without a name stand for none. `windows` are what
/// the context windows in the rows read as.
pub open spec fn drafted(
    drafts: Seq<ProviderFormModelDraftView>,
    windows: Seq<Option<u64>>,
    catalog: Map<Seq<char>, CustomProviderModelView>,
) -> Seq<CustomProviderModelView>
    decreases drafts.len(),
{
    if drafts.len() == 0 || windows.len() < drafts.len() {
        Seq::empty()
    } else {
        let n = drafts.len() - 1;
        let before = drafted(drafts.drop_last(), windows.take(n), catalog);
        if trimmed(drafts.last().id).len() == 0 {
            before
        } else {
            before.push(drafted_model(drafts.last(), windows[n], catalog))
        }
    }
}

/// A row for a model. `window` is how its context window is written.
pub open spec fn row_for(model: CustomProviderModelView, window: Seq<char>, key: u64) -> ProviderFormModelDraftView {
    ProviderFormModelDraftView {
        key,
        id: model.id,
        context: if model.context_window is Some {
            window
        } else {
            Seq::empty()
        },
        input_modalities: model.input_modalities,
    }
}

/// Where a row stands.
pub open spec fn draft_pos(drafts: Seq<ProviderFormModelDraftView>, key: u64) -> Option<int>
    decreases drafts.len(),
{
    if drafts.len() == 0 {
        None
    } else if drafts[0].key == key {
        Some(0)
    } else {
        match draft_pos(drafts.drop_first(), key) {
            Some(i) => Some(i + 1),
            None => None,
        }
    }
}

/// A map of models by their names; of two with one name the later counts.
pub open spec fn by_id(models: Seq<CustomProviderModelView>) -> Map<Seq<char>, CustomProviderModelView>
    decreases models.len(),
{
    if models.len() == 0 {
        Map::empty()
    } else {
        by_id(models.drop_last()).insert(models.last().id, models.last())
    }
}

/// What asking a provider for its models changed: how many it has, and how many of them
/// were new or were filled in.
#[derive(Clone, Copy, Debug, PartialEq, Eq, Structural)]
pub struct MergeOutcome {
    pub count: usize,
    pub added: usize,
    pub filled: usize,
}

/// What asking a provider for its models says of itself.
pub open spec fn fetch_note(outcome: MergeOutcome) -> TextView {
    TextView::Key(
        "providers.fetch_result"@,
        seq![
            ("count"@, crate::lines::decimal(outcome.count as nat)),
            ("added"@, crate::lines::decimal(outcome.added as nat)),
            ("updated"@, crate::lines::decimal(outcome.filled as nat)),
        ],
    )
}

pub(crate) fn fetch_text(outcome: MergeOutcome) -> (r: Text)
    ensures
        r@ == fetch_note(outcome),
{
    let mut args: Vec<TextArg> = Vec::new();
    args.push(TextArg { name: "count", value: crate::lines::decimal_of(outcome.count as u64) });
    args.push(TextArg { name: "added", value: crate::lines::decimal_of(outcome.added as u64) });
    args.push(TextArg { name: "updated", value: crate::lines::decimal_of(outcome.filled as u64) });
    assert(text_args(args@) =~= seq![
        ("count"@, crate::lines::decimal(outcome.count as nat)),
        ("added"@, crate::lines::decimal(outcome.added as nat)),
        ("updated"@, crate::lines::decimal(outcome.filled as nat)),
    ]);
    Text::Key("providers.fetch_result", args)
}

impl ProvidersView {
    /// The form holds something else.
    pub open spec fn with_form(self, form: ProviderFormView) -> ProvidersView {
        ProvidersView { form, ..self }
    }

    /// The provider that the form describes.
    pub open spec fn described(self, id: Seq<char>, slug: Seq<char>, models: Seq<CustomProviderModelView>) -> CustomProviderView {
        CustomProviderView {
            id,
            slug,
            name: trimmed(self.form.name),
            base_url: trimmed(self.form.base_url),
            api_format: self.form.format,
            api_key: trimmed(self.form.api_key),
            enabled: true,
            npm_touched: false,
            models,
        }
    }

    /// Asking for the models of the provider in the form begins.
    pub open spec fn form_fetch_begun(self) -> ProvidersView {
        self.with_form(
            ProviderFormView { fetching: true, fetch_generation: next_count(self.form.fetch_generation), ..self.form },
        ).ask(ProvidersEffectView::Notify)
    }

    /// The rows are those of models, and what was learned of these is kept.
    pub open spec fn rows_rebuilt(
        self,
        models: Seq<CustomProviderModelView>,
        rows: Seq<ProviderFormModelDraftView>,
    ) -> ProvidersView {
        self.with_form(ProviderFormView { catalog: by_id(models), models: rows, ..self.form }).ask(
            ProvidersEffectView::Notify,
        )
    }

    /// The models of the provider in the form came in.
    pub open spec fn form_models_applied(
        self,
        models: Seq<CustomProviderModelView>,
        rows: Seq<ProviderFormModelDraftView>,
        outcome: MergeOutcome,
    ) -> ProvidersView {
        if outcome.added == 0 && outcome.filled == 0 {
            self.ask(ProvidersEffectView::SuccessToast(wording("providers.fetch_up_to_date")))
        } else {
            self.rows_rebuilt(models, rows).ask(ProvidersEffectView::SuccessToast(fetch_note(outcome)))
        }
    }

    /// Asking for the models of the provider in the form is over; what was asked of a form
    /// that was left since counts for nothing.
    pub open spec fn form_fetch_over(
        self,
        generation: u64,
        failed: Option<ApiListErrorView>,
        table: bool,
        models: Seq<CustomProviderModelView>,
        rows: Seq<ProviderFormModelDraftView>,
        outcome: MergeOutcome,
    ) -> ProvidersView {
        let over = self.with_form(ProviderFormView { fetching: false, ..self.form });
        (if self.form.fetch_generation != generation {
            over
        } else {
            match failed {
                Some(error) => over.ask(
                    ProvidersEffectView::ErrorToast(wording("providers.fetch_failed"), list_error_text(error)),
                ),
                None => over.table_kept(table).form_models_applied(models, rows, outcome),
            }
        }).ask(ProvidersEffectView::Notify)
    }

    /// A table of models that came in is kept.
    pub open spec fn table_kept(self, table: bool) -> ProvidersView {
        ProvidersView { has_table: self.has_table || table, ..self }
    }

    /// The test of the provider in the form begins.
    pub open spec fn form_probe_begun(self) -> ProvidersView {
        self.with_form(
            ProviderFormView {
                probe_generation: next_count(self.form.probe_generation),
                connectivity: Some(ConnectivityView::Testing),
                ..self.form
            },
        ).ask(ProvidersEffectView::Notify)
    }

    /// The test of the provider in the form is over.
    pub open spec fn form_probe_over(self, generation: u64, outcome: ConnectivityView) -> ProvidersView {
        (if self.form.probe_generation == generation {
            self.with_form(ProviderFormView { connectivity: Some(outcome), ..self.form })
        } else {
            self
        }).ask(ProvidersEffectView::Notify)
    }

    /// The form is handed in.
    pub open spec fn submitted(
        self,
        windows: Seq<Option<u64>>,
        url_valid: bool,
        id: Seq<char>,
        slug: Seq<char>,
    ) -> ProvidersView {
        let models = drafted(self.form.models, windows, self.form.catalog);
        if !self.adding || trimmed(self.form.name).len() == 0 {
            self
        } else if !url_valid {
            self.ask(ProvidersEffectView::Toast(wording("providers.hint_invalid_url")))
        } else if models.len() == 0 {
            self.ask(ProvidersEffectView::Toast(wording("providers.hint_need_model")))
        } else {
            self.provider_added(self.described(id, slug, models)).committed().form_left().chosen(id).ask(
                ProvidersEffectView::SuccessToast(
                    wording_with("providers.added_toast", "name", trimmed(self.form.name)),
                ),
            )
        }
    }

    /// One more provider stands in the list.
    #[verifier::opaque]
    pub open spec fn provider_added(self, provider: CustomProviderView) -> ProvidersView {
        ProvidersView { store: self.store.push(provider), ..self }
    }
}

impl Providers {
    fn put_fetch_state(&mut self, fetching: bool, generation: u64)
        ensures
            final(self)@ == old(self)@.with_form(
                ProviderFormView { fetching, fetch_generation: generation, ..old(self)@.form },
            ),
    {
        self.form.fetching = fetching;
        self.form.fetch_generation = generation;
    }

    fn put_probe_state(&mut self, generation: u64, state: ProviderConnectivityState)
        ensures
            final(self)@ == old(self)@.with_form(
                ProviderFormView { probe_generation: generation, connectivity: Some(state@), ..old(self)@.form },
            ),
    {
        self.form.probe_generation = generation;
        self.form.connectivity = Some(state);
    }

    /// The models in the rows of the form. `windows` are what the context windows in the
    /// rows read as.
    pub fn form_draft_models(&self, windows: &Vec<Option<u64>>) -> (r: Vec<CustomProviderModel>)
        requires
            windows@.len() == self.form.models@.len(),
        ensures
            custom_provider_model_views(r@) == drafted(self@.form.models, windows@, Map::empty()),
    {
        let nothing: StrMap<CustomProviderModel> = StrMap::new();
        assert(model_map(nothing@) =~= Map::empty());
        models_of(&self.form.models, windows, &nothing)
    }

    /// The provider that the form describes, under no name of its own: what is asked of the
    /// provider before it exists.
    pub fn form_transient_provider(&self, id: String, windows: &Vec<Option<u64>>) -> (r: CustomProvider)
        requires
            windows@.len() == self.form.models@.len(),
        ensures
            r@ == self@.described(id@, Seq::empty(), drafted(self@.form.models, windows@, Map::empty())),
    {
        let models = self.form_draft_models(windows);
        let slug = "".to_owned();
        proof {
            reveal_strlit("");
            assert(slug@ =~= Seq::empty());
        }
        self.describe(id, slug, models)
    }

    fn describe(&self, id: String, slug: String, models: Vec<CustomProviderModel>) -> (r: CustomProvider)
        ensures
            r@ == self@.described(id@, slug@, custom_provider_model_views(models@)),
    {
        CustomProvider {
            id,
            slug,
            name: trim(self.form.name.as_str()).to_owned(),
            base_url: trim(self.form.base_url.as_str()).to_owned(),
            api_format: self.form.format,
            api_key: trim(self.form.api_key.as_str()).to_owned(),
            enabled: true,
            npm_touched: false,
            models,
        }
    }

    /// Has the models of the provider in the form be asked for. Returns the number that the
    /// answer is to be handed in with. `url_valid` says whether the address can be asked.
    pub fn fetch_form_models(&mut self, url_valid: bool) -> (r: Option<u64>)
        ensures
            if old(self)@.form.fetching {
                r is None && final(self)@ == old(self)@
            } else if !url_valid {
                r is None && final(self)@ == old(self)@.ask(
                    ProvidersEffectView::Toast(wording("providers.error_invalid_url")),
                )
            } else {
                final(self)@ == old(self)@.form_fetch_begun() && r == Some(next_count(old(self)@.form.fetch_generation))
            },
    {
        if self.form.fetching {
            return None;
        }
        if !url_valid {
            self.ask(ProvidersEffect::Toast(Text::key("providers.error_invalid_url")));
            return None;
        }
        let generation = count_on(self.form.fetch_generation);
        self.put_fetch_state(true, generation);
        self.ask(ProvidersEffect::Notify);
        Some(generation)
    }

    /// Takes in the models of the provider in the form: what became of the models in the
    /// rows, how their context windows are written, and the keys of the new rows.
    pub fn finish_form_fetch(
        &mut self,
        generation: u64,
        failed: Option<ApiListError>,
        table: bool,
        models: Vec<CustomProviderModel>,
        windows: &Vec<String>,
        keys: &Vec<u64>,
        outcome: MergeOutcome,
    )
        requires
            windows@.len() == models@.len(),
            keys@.len() == models@.len(),
        ensures
            final(self)@ == old(self)@.form_fetch_over(
                generation,
                match failed {
                    Some(error) => Some(error@),
                    None => None,
                },
                table,
                custom_provider_model_views(models@),
                rows_of(custom_provider_model_views(models@), texts(windows@), keys@),
                outcome,
            ),
    {
        let current = self.form.fetch_generation;
        self.put_fetch_state(false, current);
        if current == generation {
            match failed {
                Some(error) => {
                    self.ask(
                        ProvidersEffect::ErrorToast(Text::key("providers.fetch_failed"), api_list_error_text(&error)),
                    );
                },
                None => {
                    self.keep_table(table);
                    self.apply_fetched_form_models(models, windows, keys, outcome);
                },
            }
        }
        self.ask(ProvidersEffect::Notify);
    }

    pub(crate) fn keep_table(&mut self, table: bool)
        ensures
            final(self)@ == old(self)@.table_kept(table),
    {
        self.has_table = self.has_table || table;
    }

    fn apply_fetched_form_models(
        &mut self,
        models: Vec<CustomProviderModel>,
        windows: &Vec<String>,
        keys: &Vec<u64>,
        outcome: MergeOutcome,
    )
        requires
            windows@.len() == models@.len(),
            keys@.len() == models@.len(),
        ensures
            final(self)@ == old(self)@.form_models_applied(
                custom_provider_model_views(models@),
                rows_of(custom_provider_model_views(models@), texts(windows@), keys@),
                outcome,
            ),
    {
        if outcome.added == 0 && outcome.filled == 0 {
            self.ask(ProvidersEffect::SuccessToast(Text::key("providers.fetch_up_to_date")));
            return;
        }
        self.rebuild_form_model_rows(models, windows, keys);
        self.ask(ProvidersEffect::SuccessToast(fetch_text(outcome)));
    }

    fn rebuild_form_model_rows(&mut self, models: Vec<CustomProviderModel>, windows: &Vec<String>, keys: &Vec<u64>)
        requires
            windows@.len() == models@.len(),
            keys@.len() == models@.len(),
        ensures
            final(self)@ == old(self)@.rows_rebuilt(
                custom_provider_model_views(models@),
                rows_of(custom_provider_model_views(models@), texts(windows@), keys@),
            ),
    {
        let rows = build_rows(&models, windows, keys);
        let catalog = index_models(models);
        self.put_rows(rows, catalog);
        self.ask(ProvidersEffect::Notify);
    }

    fn put_rows(&mut self, rows: Vec<ProviderFormModelDraft>, catalog: StrMap<CustomProviderModel>)
        ensures
            final(self)@ == old(self)@.with_form(
                ProviderFormView {
                    catalog: model_map(catalog@),
                    models: provider_form_model_draft_views(rows@),
                    ..old(self)@.form
                },
            ),
    {
        self.form.models = rows;
        self.form.catalog = catalog;
    }

    /// Has the provider in the form be tested. Returns the number that the answer is to be
    /// handed in with.
    pub fn probe_form_connectivity(&mut self, url_valid: bool) -> (r: Option<u64>)
        ensures
            if old(self)@.form.connectivity == Some(ConnectivityView::Testing) {
                r is None && final(self)@ == old(self)@
            } else if !url_valid {
                r is None && final(self)@ == old(self)@.ask(
                    ProvidersEffectView::Toast(wording("providers.error_invalid_url")),
                )
            } else {
                final(self)@ == old(self)@.form_probe_begun() && r == Some(next_count(old(self)@.form.probe_generation))
            },
    {
        if let Some(ProviderConnectivityState::Testing) = &self.form.connectivity {
            return None;
        }
        if !url_valid {
            self.ask(ProvidersEffect::Toast(Text::key("providers.error_invalid_url")));
            return None;
        }
        let generation = count_on(self.form.probe_generation);
        self.put_probe_state(generation, ProviderConnectivityState::Testing);
        self.ask(ProvidersEffect::Notify);
        Some(generation)
    }

    /// Takes in how the test of the provider in the form went.
    pub fn finish_form_probe(&mut self, generation: u64, outcome: ProviderConnectivityState)
        ensures
            final(self)@ == old(self)@.form_probe_over(generation, outcome@),
    {
        if self.form.probe_generation == generation {
            self.put_probe_state(generation, outcome);
        }
        self.ask(ProvidersEffect::Notify);
    }

    /// Chooses the dialect of the provider in the form. What was tested in another does not
    /// stand.
    pub fn set_form_format(&mut self, format: ProviderApiFormat)
        ensures
            final(self)@ == old(self)@.with_form(
                ProviderFormView { format, connectivity: None, ..old(self)@.form },
            ).ask(ProvidersEffectView::Notify),
    {
        self.form.format = format;
        self.form.connectivity = None;
        self.ask(ProvidersEffect::Notify);
    }

    /// Adds an empty row.
    pub fn add_form_model_draft(&mut self, key: u64)
        ensures
            final(self)@ == old(self)@.with_form(
                ProviderFormView {
                    models: old(self)@.form.models.push(
                        ProviderFormModelDraftView {
                            key,
                            id: Seq::empty(),
                            context: Seq::empty(),
                            input_modalities: Seq::empty(),
                        },
                    ),
                    ..old(self)@.form
                },
            ).ask(ProvidersEffectView::Notify),
    {
        let ghost before = self@.form.models;
        let draft = ProviderFormModelDraft {
            key,
            id: "".to_owned(),
            context: "".to_owned(),
            input_modalities: Vec::new(),
        };
        proof {
            reveal_strlit("");
            assert(draft@ =~= ProviderFormModelDraftView {
                key,
                id: Seq::empty(),
                context: Seq::empty(),
                input_modalities: Seq::empty(),
            });
        }
        self.form.models.push(draft);
        assert(provider_form_model_draft_views(self.form.models@) =~= before.push(draft@));
        self.ask(ProvidersEffect::Notify);
    }

    /// Removes a row, wherever it stands by now.
    pub fn remove_form_model_draft(&mut self, key: u64)
        ensures
            final(self)@ == (match draft_pos(old(self)@.form.models, key) {
                Some(i) => old(self)@.with_form(
                    ProviderFormView { models: old(self)@.form.models.remove(i), ..old(self)@.form },
                ).ask(ProvidersEffectView::Blur).ask(ProvidersEffectView::Notify),
                None => old(self)@,
            }),
    {
        let found = find_draft(&self.form.models, key);
        if let Some(i) = found {
            let ghost before = self@.form.models;
            let _ = self.form.models.remove(i);
            assert(provider_form_model_draft_views(self.form.models@) =~= before.remove(i as int));
            self.ask(ProvidersEffect::Blur);
            self.ask(ProvidersEffect::Notify);
        }
    }

    /// Toggles what the model of a row takes in.
    pub fn toggle_draft_modality(&mut self, index: usize, modality: &str, order: &Vec<String>)
        requires
            order@.len() < usize::MAX,
        ensures
            final(self)@ == (if index < old(self)@.form.models.len() {
                let draft = old(self)@.form.models[index as int];
                old(self)@.with_form(
                    ProviderFormView {
                        models: old(self)@.form.models.update(
                            index as int,
                            ProviderFormModelDraftView {
                                input_modalities: toggled(draft.input_modalities, texts(order@), modality@),
                                ..draft
                            },
                        ),
                        ..old(self)@.form
                    },
                )
            } else {
                old(self)@
            }).ask(ProvidersEffectView::Notify),
    {
        if index < self.form.models.len() {
            let ghost before = self@.form.models;
            assert(before[index as int] == self.form.models@[index as int]@);
            toggle_modality(&mut self.form.models[index].input_modalities, modality, order);
            assert(provider_form_model_draft_views(self.form.models@) =~= before.update(
                index as int,
                ProviderFormModelDraftView {
                    input_modalities: toggled(before[index as int].input_modalities, texts(order@), modality@),
                    ..before[index as int]
                },
            ));
        }
        self.ask(ProvidersEffect::Notify);
    }

    /// Toggles what the model in the editor takes in.
    pub fn toggle_editor_modality(&mut self, modality: &str, order: &Vec<String>)
        requires
            order@.len() < usize::MAX,
        ensures
            final(self)@ == (ProvidersView {
                model_editor_modalities: toggled(old(self)@.model_editor_modalities, texts(order@), modality@),
                ..old(self)@
            }).ask(ProvidersEffectView::Notify),
    {
        toggle_modality(&mut self.model_editor_modalities, modality, order);
        self.ask(ProvidersEffect::Notify);
    }

    /// Hands the form in. `windows` are what the context windows in the rows read as, `id`
    /// and `slug` the names that the provider gets.
    pub fn submit_provider_form(&mut self, windows: &Vec<Option<u64>>, url_valid: bool, id: String, slug: String)
        requires
            windows@.len() == old(self).form.models@.len(),
        ensures
            final(self)@ == old(self)@.submitted(windows@, url_valid, id@, slug@),
    {
        if !self.adding {
            return;
        }
        let name = trim(self.form.name.as_str()).to_owned();
        let models = models_of(&self.form.models, windows, &self.form.catalog);
        if name.as_str().unicode_len() == 0 {
            return;
        }
        if !url_valid {
            self.ask(ProvidersEffect::Toast(Text::key("providers.hint_invalid_url")));
            return;
        }
        let ghost views = custom_provider_model_views(models@);
        assert(views.len() == models@.len());
        if models.len() == 0 {
            self.ask(ProvidersEffect::Toast(Text::key("providers.hint_need_model")));
            return;
        }
        let provider = self.describe(id.clone(), slug, models);
        self.add_provider(provider);
        self.commit_custom_providers();
        self.exit_provider_form();
        self.select_provider(id);
        self.ask(ProvidersEffect::SuccessToast(Text::with("providers.added_toast", "name", name)));
    }

    fn add_provider(&mut self, provider: CustomProvider)
        ensures
            final(self)@ == old(self)@.provider_added(provider@),
    {
        proof {
            reveal(ProvidersView::provider_added);
        }
        let ghost before = self@.store;
        self.store.push(provider);
        assert(custom_provider_views(self.store@) =~= before.push(provider@));
    }
}

fn find_draft(drafts: &Vec<ProviderFormModelDraft>, key: u64) -> (r: Option<usize>)
    ensures
        match r {
            Some(i) => draft_pos(provider_form_model_draft_views(drafts@), key) == Some(i as int) && i < drafts@.len(),
            None => draft_pos(provider_form_model_draft_views(drafts@), key) is None,
        },
{
    let ghost views = provider_form_model_draft_views(drafts@);
    let mut i: usize = 0;
    assert(views.skip(0) =~= views);
    while i < drafts.len()
        invariant
            i <= drafts@.len(),
            views == provider_form_model_draft_views(drafts@),
            draft_pos(views, key) == (match draft_pos(views.skip(i as int), key) {
                Some(k) => Some(k + i),
                None => None,
            }),
        decreases drafts@.len() - i,
    {
        assert(views.skip(i as int)[0] == drafts@[i as int]@);
        assert(views.skip(i as int).drop_first() =~= views.skip(i + 1));
        if drafts[i].key == key {
            return Some(i);
        }
        i = i + 1;
    }
    assert(views.skip(i as int).len() == 0);
    None
}

fn models_of(drafts: &Vec<ProviderFormModelDraft>, windows: &Vec<Option<u64>>, catalog: &StrMap<CustomProviderModel>) -> (r: Vec<
    CustomProviderModel,
>)
    requires
        windows@.len() == drafts@.len(),
    ensures
        custom_provider_model_views(r@) == drafted(
            provider_form_model_draft_views(drafts@),
            windows@,
            model_map(catalog@),
        ),
{
    let ghost views = provider_form_model_draft_views(drafts@);
    let ghost known = model_map(catalog@);
    let mut r: Vec<CustomProviderModel> = Vec::new();
    let mut i: usize = 0;
    assert(custom_provider_model_views(r@) =~= Seq::empty());
    assert(views.take(0) =~= Seq::empty());
    while i < drafts.len()
        invariant
            i <= drafts@.len(),
            windows@.len() == drafts@.len(),
            views == provider_form_model_draft_views(drafts@),
            known == model_map(catalog@),
            custom_provider_model_views(r@) == drafted(views.take(i as int), windows@.take(i as int), known),
        decreases drafts@.len() - i,
    {
        proof {
            assert(views.take(i + 1).drop_last() =~= views.take(i as int));
            assert(views.take(i + 1).last() == drafts@[i as int]@);
            assert(windows@.take(i + 1).take(i as int) =~= windows@.take(i as int));
        }
        let id = trim(drafts[i].id.as_str()).to_owned();
        if id.as_str().unicode_len() > 0 {
            let (name, output_limit) = match catalog.get(id.as_str()) {
                Some(model) => (model.name.clone(), model.output_limit),
                None => (None, None),
            };
            let ghost before = r@;
            let model = CustomProviderModel {
                id,
                name,
                context_window: windows[i],
                output_limit,
                input_modalities: copy_texts(&drafts[i].input_modalities),
            };
            assert(model@ =~= drafted_model(views[i as int], windows@[i as int], known));
            r.push(model);
            assert(custom_provider_model_views(r@) =~= custom_provider_model_views(before).push(model@));
        }
        i = i + 1;
    }
    proof {
        assert(views.take(i as int) =~= views);
        assert(windows@.take(i as int) =~= windows@);
    }
    r
}

/// The rows for models.
pub open spec fn rows_of(
    models: Seq<CustomProviderModelView>,
    windows: Seq<Seq<char>>,
    keys: Seq<u64>,
) -> Seq<ProviderFormModelDraftView> {
    Seq::new(models.len(), |i: int| row_for(models[i], windows[i], keys[i]))
}

fn build_rows(models: &Vec<CustomProviderModel>, windows: &Vec<String>, keys: &Vec<u64>) -> (r: Vec<ProviderFormModelDraft>)
    requires
        windows@.len() == models@.len(),
        keys@.len() == models@.len(),
    ensures
        provider_form_model_draft_views(r@) == rows_of(custom_provider_model_views(models@), texts(windows@), keys@),
{
    let mut r: Vec<ProviderFormModelDraft> = Vec::new();
    let mut i: usize = 0;
    while i < models.len()
        invariant
            i <= models@.len(),
            r@.len() == i,
            windows@.len() == models@.len(),
            keys@.len() == models@.len(),
            forall|j: int| 0 <= j < i ==> (#[trigger] r@[j])@ == row_for(models@[j]@, windows@[j]@, keys@[j]),
        decreases models@.len() - i,
    {
        let context = if models[i].context_window.is_some() {
            windows[i].clone()
        } else {
            "".to_owned()
        };
        proof {
            reveal_strlit("");
            assert(""@ =~= Seq::empty());
        }
        let row = ProviderFormModelDraft {
            key: keys[i],
            id: models[i].id.clone(),
            context,
            input_modalities: copy_texts(&models[i].input_modalities),
        };
        assert(row@ =~= row_for(models@[i as int]@, windows@[i as int]@, keys@[i as int]));
        r.push(row);
        i = i + 1;
    }
    assert(provider_form_model_draft_views(r@) =~= rows_of(
        custom_provider_model_views(models@),
        texts(windows@),
        keys@,
    ));
    r
}

fn index_models(models: Vec<CustomProviderModel>) -> (r: StrMap<CustomProviderModel>)
    ensures
        model_map(r@) == by_id(custom_provider_model_views(models@)),
{
    let ghost whole = custom_provider_model_views(models@);
    let mut models = models;
    let mut r: StrMap<CustomProviderModel> = StrMap::new();
    let ghost mut done: int = 0;
    assert(whole.take(0) =~= Seq::empty());
    assert(custom_provider_model_views(models@) =~= whole.skip(0));
    assert(model_map(r@) =~= Map::empty());
    while models.len() > 0
        invariant
            0 <= done <= whole.len(),
            custom_provider_model_views(models@) == whole.skip(done),
            model_map(r@) == by_id(whole.take(done)),
        decreases models@.len(),
    {
        let ghost before = models@;
        let ghost known = r@;
        let model = models.remove(0);
        proof {
            assert(custom_provider_model_views(before).len() == whole.len() - done);
            assert(custom_provider_model_views(before)[0] == whole.skip(done)[0]);
            assert(models@ =~= before.remove(0));
            assert(custom_provider_model_views(models@) =~= custom_provider_model_views(before).skip(1));
            assert(whole.skip(done).skip(1) =~= whole.skip(done + 1));
            assert(whole.take(done + 1).drop_last() =~= whole.take(done));
        }
        let id = model.id.clone();
        let _ = r.insert(id, model);
        proof {
            assert(model_map(r@) =~= model_map(known).insert(model@.id, model@));
            done = done + 1;
        }
    }
    assert(custom_provider_model_views(models@).len() == 0);
    assert(whole.take(done) =~= whole);
    r
}

/// A form that is handed in without a name, without an address that can be asked, or without
/// models adds no provider.
pub proof fn unfinished_forms_add_nothing(
    providers: ProvidersView,
    windows: Seq<Option<u64>>,
    url_valid: bool,
    id: Seq<char>,
    slug: Seq<char>,
)
    requires
        trimmed(providers.form.name).len() == 0 || !url_valid || drafted(
            providers.form.models,
            windows,
            providers.form.catalog,
        ).len() == 0,
    ensures
        providers.submitted(windows, url_valid, id, slug).store == providers.store,
        providers.submitted(windows, url_valid, id, slug).selected == providers.selected,
{
    reveal(ProvidersView::ask);
}

/// A provider that is added stands last in the list, is the one that is chosen, and has at
/// least one model.
pub proof fn added_providers_are_chosen(
    providers: ProvidersView,
    windows: Seq<Option<u64>>,
    id: Seq<char>,
    slug: Seq<char>,
)
    requires
        providers.adding,
        trimmed(providers.form.name).len() > 0,
        drafted(providers.form.models, windows, providers.form.catalog).len() > 0,
    ensures
        ({
            let after = providers.submitted(windows, true, id, slug);
            &&& after.store == providers.store.push(
                providers.described(id, slug, drafted(providers.form.models, windows, providers.form.catalog)),
            )
            &&& after.selected == Some(id)
            &&& !after.adding
            &&& after.store.last().models.len() > 0
        }),
{
    reveal(ProvidersView::ask);
    reveal(ProvidersView::provider_added);
    reveal(ProvidersView::committed);
    reveal(ProvidersView::form_left);
    reveal(ProvidersView::chosen);
    reveal(ProvidersView::settled);
    reveal(ProvidersView::fields_loaded);
}

/// What was asked for a form that was left since lands nowhere: the rows of the form on
/// screen stay.
pub proof fn late_answers_land_nowhere(
    providers: ProvidersView,
    generation: u64,
    failed: Option<ApiListErrorView>,
    table: bool,
    models: Seq<CustomProviderModelView>,
    rows: Seq<ProviderFormModelDraftView>,
    outcome: MergeOutcome,
    tested: ConnectivityView,
)
    requires
        providers.form.fetch_generation != generation,
        providers.form.probe_generation != generation,
    ensures
        providers.form_fetch_over(generation, failed, table, models, rows, outcome).form == (ProviderFormView {
            fetching: false,
            ..providers.form
        }),
        providers.form_probe_over(generation, tested).form == providers.form,
        providers.form_left().form.fetch_generation != providers.form.fetch_generation,
        providers.form_left().form.probe_generation != providers.form.probe_generation,
{
    reveal(ProvidersView::ask);
    reveal(ProvidersView::form_left);
}

} // verus!
