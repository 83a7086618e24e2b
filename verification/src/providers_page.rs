//! The page of providers: choosing one, editing it, and keeping the list in step with the
//! configuration.
use vstd::prelude::*;

use crate::desk::{wording, wording_with, Text};
use crate::probes::OPENCODE_PROVIDER;
use crate::provider_types::{
    connectivity_map, custom_provider_views, model_map, without_owner, CustomProvider,
    CustomProviderModel, CustomProviderModelView, CustomProviderView, Providers, ProvidersEffect,
    ProvidersEffectView, ProvidersModelEditor, ProvidersView, ProviderApiFormat, ProviderFormView,
};
use crate::text::{copy_texts, opt, same, texts, trim, trimmed, trims_to_nothing};

verus! {

/// A field of the details that is edited key by key.
#[derive(Clone, Copy, Debug, PartialEq, Eq, Structural)]
pub enum ProviderField {
    BaseUrl,
    ApiKey,
}

/// The count after another, which starts over at its end.
pub open spec fn next_count(n: u64) -> u64 {
    if n == u64::MAX {
        0
    } else {
        (n + 1) as u64
    }
}

pub(crate) fn count_on(n: u64) -> (r: u64)
    ensures
        r == next_count(n),
{
    if n == u64::MAX {
        0
    } else {
        n + 1
    }
}

/// Where a provider first stands in a list.
pub open spec fn provider_pos(store: Seq<CustomProviderView>, id: Seq<char>) -> Option<int>
    decreases store.len(),
{
    if store.len() == 0 {
        None
    } else if store[0].id == id {
        Some(0)
    } else {
        match provider_pos(store.drop_first(), id) {
            Some(i) => Some(i + 1),
            None => None,
        }
    }
}

/// What is found is there.
pub proof fn lemma_provider_pos(store: Seq<CustomProviderView>, id: Seq<char>)
    ensures
        match provider_pos(store, id) {
            Some(i) => 0 <= i < store.len() && store[i].id == id,
            None => forall|j: int| 0 <= j < store.len() ==> (#[trigger] store[j]).id != id,
        },
    decreases store.len(),
{
    if store.len() > 0 && store[0].id != id {
        let rest = store.drop_first();
        lemma_provider_pos(rest, id);
        if provider_pos(rest, id) is None {
            assert forall|j: int| 0 <= j < store.len() implies (#[trigger] store[j]).id != id by {
                if j > 0 {
                    assert(rest[j - 1] == store[j]);
                }
            }
        }
    }
}

/// The providers other than one.
pub open spec fn without_provider(store: Seq<CustomProviderView>, id: Seq<char>) -> Seq<CustomProviderView>
    decreases store.len(),
{
    if store.len() == 0 {
        Seq::empty()
    } else {
        let before = without_provider(store.drop_last(), id);
        if store.last().id == id {
            before
        } else {
            before.push(store.last())
        }
    }
}

/// Where a model's name stands among models.
pub open spec fn has_model(models: Seq<CustomProviderModelView>, id: Seq<char>) -> bool {
    exists|i: int| 0 <= i < models.len() && (#[trigger] models[i]).id == id
}

impl ProviderFormView {
    /// The form as it is left: tests under way land nowhere.
    pub open spec fn left(self) -> ProviderFormView {
        ProviderFormView {
            picking: true,
            connectivity: None,
            catalog: Map::empty(),
            fetch_generation: next_count(self.fetch_generation),
            probe_generation: next_count(self.probe_generation),
            ..self
        }
    }

    /// A blank form.
    pub open spec fn blank(self) -> ProviderFormView {
        ProviderFormView {
            format: ProviderApiFormat::OpenAi,
            models: Seq::empty(),
            catalog: Map::empty(),
            connectivity: None,
            fetch_generation: next_count(self.fetch_generation),
            probe_generation: next_count(self.probe_generation),
            name: Seq::empty(),
            base_url: Seq::empty(),
            api_key: Seq::empty(),
            ..self
        }
    }
}

impl ProvidersView {
    /// One more thing is asked of the host.
    #[verifier::opaque]
    pub open spec fn ask(self, effect: ProvidersEffectView) -> ProvidersView {
        ProvidersView { effects: self.effects.push(effect), ..self }
    }

    /// The provider whose details are shown.
    pub open spec fn effective_id(self) -> Seq<char> {
        match self.selected {
            Some(id) => if id == OPENCODE_PROVIDER@ || provider_pos(self.store, id) is Some {
                id
            } else {
                OPENCODE_PROVIDER@
            },
            None => OPENCODE_PROVIDER@,
        }
    }

    /// Where the provider that is chosen stands, if it is one of the user's.
    pub open spec fn chosen_pos(self) -> Option<int> {
        match self.selected {
            Some(id) => provider_pos(self.store, id),
            None => None,
        }
    }

    /// The provider that is chosen, if it is one of the user's.
    pub open spec fn custom(self) -> Option<CustomProviderView> {
        match self.chosen_pos() {
            Some(i) => Some(self.store[i]),
            None => None,
        }
    }

    /// A provider is replaced.
    pub open spec fn with_provider(self, i: int, provider: CustomProviderView) -> ProvidersView {
        ProvidersView { store: self.store.update(i, provider), ..self }
    }

    /// The form is left.
    #[verifier::opaque]
    pub open spec fn form_left(self) -> ProvidersView {
        ProvidersView { adding: false, form: self.form.left(), ..self }.ask(ProvidersEffectView::Notify)
    }

    /// Nothing is edited any more.
    #[verifier::opaque]
    pub open spec fn settled(self) -> ProvidersView {
        ProvidersView {
            renaming: false,
            api_key_revealed: false,
            delete_arming: None,
            model_editor: None,
            model_editor_modalities: Seq::empty(),
            ..self
        }
    }

    /// The fields show a provider.
    #[verifier::opaque]
    pub open spec fn fields_loaded(self, id: Seq<char>) -> ProvidersView {
        match provider_pos(self.store, id) {
            Some(i) => ProvidersView {
                base_url_input: self.store[i].base_url,
                api_key_input: self.store[i].api_key,
                ..self
            },
            None => self,
        }
    }

    /// A provider is chosen.
    #[verifier::opaque]
    pub open spec fn chosen(self, id: Seq<char>) -> ProvidersView {
        let shown = ProvidersView { selected: Some(id), ..self }.form_left().settled().fields_loaded(id);
        ProvidersView { detail_scroll: 0, ..shown }.ask(ProvidersEffectView::Notify)
    }

    /// The configuration is read.
    #[verifier::opaque]
    pub open spec fn loading(self) -> ProvidersView {
        let generation = next_count(self.load_generation);
        ProvidersView { load_generation: generation, ..self }.ask(ProvidersEffectView::LoadConfig(generation))
    }

    /// The page is opened anew.
    pub open spec fn reset(self) -> ProvidersView {
        let left = self.form_left().settled();
        let bare = ProvidersView { form: ProviderFormView { models: Seq::empty(), ..left.form }, ..left };
        (match bare.selected {
            Some(id) => bare.fields_loaded(id),
            None => bare,
        }).loading().ask(ProvidersEffectView::EnsureTable)
    }

    /// The provider that is chosen is not in a list.
    pub open spec fn misses(self, store: Seq<CustomProviderView>) -> bool {
        match self.selected {
            Some(id) => id != OPENCODE_PROVIDER@ && provider_pos(store, id) is None,
            None => false,
        }
    }

    /// The configuration was read. It counts unless it was read again since, or an edit
    /// waits to be written.
    pub open spec fn loaded(self, generation: u64, found: Result<Seq<CustomProviderView>, Seq<char>>) -> ProvidersView {
        if self.load_generation != generation || self.commit_generation != 0 {
            self
        } else {
            match found {
                Err(error) => self.ask(
                    ProvidersEffectView::Toast(wording_with("providers.sync_failed", "error", error)),
                ),
                Ok(store) => {
                    let read = ProvidersView { store, ..self };
                    (if self.misses(store) {
                        ProvidersView {
                            selected: None,
                            adding: false,
                            renaming: false,
                            model_editor: None,
                            model_editor_modalities: Seq::empty(),
                            delete_arming: None,
                            ..read
                        }
                    } else {
                        match self.selected {
                            Some(id) => read.fields_loaded(id),
                            None => read,
                        }
                    }).ask(ProvidersEffectView::Notify)
                },
            }
        }
    }

    /// The list is written, and the models are looked for again.
    #[verifier::opaque]
    pub open spec fn committed(self) -> ProvidersView {
        self.ask(ProvidersEffectView::Commit).ask(ProvidersEffectView::RefreshDetection).ask(ProvidersEffectView::Notify)
    }

    /// The list is written once no more edits come.
    #[verifier::opaque]
    pub open spec fn commit_scheduled(self) -> ProvidersView {
        let generation = next_count(self.commit_generation);
        ProvidersView { commit_generation: generation, ..self }.ask(ProvidersEffectView::CommitLater(generation))
    }

    /// The wait for more edits is over.
    pub open spec fn commit_due(self, generation: u64) -> ProvidersView {
        if self.commit_generation != generation {
            self
        } else {
            ProvidersView { commit_generation: 0, ..self }.committed()
        }
    }

    /// What was tested of a provider no longer counts.
    #[verifier::opaque]
    pub open spec fn untested(self, id: Seq<char>) -> ProvidersView {
        ProvidersView {
            connectivity: self.connectivity.remove(id),
            latency: without_owner(self.latency, id),
            ..self
        }
    }

    /// A field of the provider that is chosen was edited.
    pub open spec fn field_edited(self, field: ProviderField, value: Seq<char>) -> ProvidersView {
        match self.chosen_pos() {
            None => self,
            Some(i) => {
                let provider = self.store[i];
                match field {
                    ProviderField::BaseUrl => if provider.base_url == value {
                        self
                    } else {
                        self.with_provider(i, CustomProviderView { base_url: value, ..provider }).edit_noticed(provider.id)
                    },
                    ProviderField::ApiKey => if provider.api_key == value {
                        self
                    } else {
                        self.with_provider(i, CustomProviderView { api_key: value, ..provider }).edit_noticed(provider.id)
                    },
                }
            },
        }
    }

    /// A provider was edited: what was tested of it no longer counts, and it is written once
    /// no more edits come.
    pub open spec fn edit_noticed(self, id: Seq<char>) -> ProvidersView {
        self.untested(id).commit_scheduled().ask(ProvidersEffectView::Notify)
    }

    /// A blank form is opened.
    pub open spec fn add_begun(self) -> ProvidersView {
        let idle = self.settled();
        ProvidersView { adding: true, form: idle.form.blank(), ..idle }.ask(ProvidersEffectView::Notify)
    }

    /// A provider is taken out of the list.
    #[verifier::opaque]
    pub open spec fn removed(self, id: Seq<char>) -> ProvidersView {
        ProvidersView { store: without_provider(self.store, id), delete_arming: None, ..self }
    }

    /// A provider is deleted.
    pub open spec fn deleted(self, id: Seq<char>) -> ProvidersView {
        let gone = self.removed(id).untested(id).committed();
        let shown = if self.selected == Some(id) {
            gone.chosen(OPENCODE_PROVIDER@)
        } else {
            gone
        };
        match provider_pos(self.store, id) {
            Some(i) => shown.ask(
                ProvidersEffectView::SuccessToast(
                    wording_with("providers.deleted_toast", "name", self.store[i].name),
                ),
            ),
            None => shown,
        }
    }

    /// The button that deletes a provider was pressed: it asks first.
    pub open spec fn delete_pressed(self, id: Seq<char>) -> ProvidersView {
        if self.delete_arming == Some(id) {
            self.deleted(id)
        } else {
            ProvidersView { delete_arming: Some(id), ..self }.ask(ProvidersEffectView::Notify)
        }
    }

    /// A provider is switched on or off.
    pub open spec fn toggled(self, id: Seq<char>) -> ProvidersView {
        (match provider_pos(self.store, id) {
            Some(i) => self.with_provider(i, CustomProviderView { enabled: !self.store[i].enabled, ..self.store[i] }),
            None => self,
        }).committed()
    }

    /// The dialect of a provider is chosen.
    pub open spec fn formatted(self, id: Seq<char>, format: ProviderApiFormat) -> ProvidersView {
        match provider_pos(self.store, id) {
            None => self,
            Some(i) => if self.store[i].api_format == format {
                self.ask(ProvidersEffectView::Notify)
            } else {
                self.with_provider(
                    i,
                    CustomProviderView { api_format: format, npm_touched: true, ..self.store[i] },
                ).committed()
            },
        }
    }

    /// The name of the provider that is chosen can be edited.
    pub open spec fn rename_begun(self) -> ProvidersView {
        match self.custom() {
            Some(provider) => ProvidersView { renaming: true, rename_input: provider.name, ..self }.ask(
                ProvidersEffectView::Notify,
            ),
            None => self,
        }
    }

    /// The name of the provider that is chosen is taken over, where there is one.
    pub open spec fn rename_confirmed(self) -> ProvidersView {
        if !self.renaming {
            self
        } else {
            let name = trimmed(self.rename_input);
            let done = ProvidersView { renaming: false, ..self };
            match self.chosen_pos() {
                Some(i) => if name.len() > 0 && self.store[i].name != name {
                    done.with_provider(i, CustomProviderView { name, ..self.store[i] }).committed()
                } else {
                    done.ask(ProvidersEffectView::Notify)
                },
                None => done.ask(ProvidersEffectView::Notify),
            }
        }
    }

    /// A row of models is opened for editing. `window` is how its context window is written,
    /// `modalities` what it takes in.
    pub open spec fn editor_begun(self, editor: ProvidersModelEditor, window: Seq<char>, modalities: Seq<Seq<char>>) -> ProvidersView {
        match (editor, self.custom()) {
            (ProvidersModelEditor::Edit(index), Some(provider)) => if index < provider.models.len() {
                self.editing(editor, provider.models[index as int].id, window, modalities)
            } else {
                self
            },
            _ => self.editing(editor, Seq::empty(), Seq::empty(), Seq::empty()),
        }
    }

    /// A row of models is open for editing.
    #[verifier::opaque]
    pub open spec fn editing(
        self,
        editor: ProvidersModelEditor,
        id: Seq<char>,
        window: Seq<char>,
        modalities: Seq<Seq<char>>,
    ) -> ProvidersView {
        ProvidersView {
            model_editor: Some(editor),
            model_editor_modalities: modalities,
            model_id_input: id,
            model_context_input: window,
            ..self
        }.ask(ProvidersEffectView::Notify)
    }

    /// No row of models is open.
    #[verifier::opaque]
    pub open spec fn editor_closed(self) -> ProvidersView {
        ProvidersView { model_editor: None, model_editor_modalities: Seq::empty(), ..self }
    }

    /// The name in the editor is another model's.
    pub open spec fn duplicate(self, editor: ProvidersModelEditor, models: Seq<CustomProviderModelView>) -> bool {
        let id = trimmed(self.model_id_input);
        has_model(models, id) && match editor {
            ProvidersModelEditor::Add => true,
            ProvidersModelEditor::Edit(index) => !(index < models.len() && models[index as int].id == id),
        }
    }

    /// The model in the editor.
    pub open spec fn model_edited(self, window: Option<u64>) -> CustomProviderModelView {
        CustomProviderModelView {
            id: trimmed(self.model_id_input),
            name: None,
            context_window: window,
            output_limit: None,
            input_modalities: self.model_editor_modalities,
        }
    }

    /// The models once the one in the editor is taken over. What the catalogue knew of a
    /// model stays with it while it keeps its name.
    pub open spec fn models_edited(
        self,
        editor: ProvidersModelEditor,
        models: Seq<CustomProviderModelView>,
        window: Option<u64>,
    ) -> Seq<CustomProviderModelView> {
        let model = self.model_edited(window);
        match editor {
            ProvidersModelEditor::Add => models.push(model),
            ProvidersModelEditor::Edit(index) => if index < models.len() {
                let slot = models[index as int];
                models.update(
                    index as int,
                    if slot.id == model.id {
                        CustomProviderModelView { name: slot.name, output_limit: slot.output_limit, ..model }
                    } else {
                        model
                    },
                )
            } else {
                models
            },
        }
    }

    /// The model in the editor is taken over. `window` is what its context window reads as.
    pub open spec fn editor_confirmed(self, window: Option<u64>) -> ProvidersView {
        match (self.model_editor, self.chosen_pos()) {
            (Some(editor), Some(i)) => {
                let provider = self.store[i];
                if trimmed(self.model_id_input).len() == 0 {
                    self
                } else if self.duplicate(editor, provider.models) {
                    self.ask(ProvidersEffectView::Toast(wording("providers.duplicate_model")))
                } else if window is None && trimmed(self.model_context_input).len() > 0 {
                    self.ask(ProvidersEffectView::Toast(wording("providers.hint_invalid_window")))
                } else {
                    self.with_provider(
                        i,
                        CustomProviderView { models: self.models_edited(editor, provider.models, window), ..provider },
                    ).editor_closed().committed()
                }
            },
            _ => self,
        }
    }

    /// The editor follows the model it was opened on as another goes away.
    #[verifier::opaque]
    pub open spec fn editor_moved(self, index: usize, removed: bool) -> ProvidersView {
        match self.model_editor {
            Some(ProvidersModelEditor::Edit(edited)) => if edited == index {
                self.editor_closed()
            } else if removed && edited > index {
                ProvidersView { model_editor: Some(ProvidersModelEditor::Edit((edited - 1) as usize)), ..self }
            } else {
                self
            },
            _ => self,
        }
    }

    /// A model is deleted. The last one of a provider stays.
    pub open spec fn model_deleted(self, id: Seq<char>, index: usize) -> ProvidersView {
        match provider_pos(self.store, id) {
            Some(i) => if index < self.store[i].models.len() {
                if self.store[i].models.len() == 1 {
                    self.ask(ProvidersEffectView::Toast(wording("providers.hint_need_model"))).ask(
                        ProvidersEffectView::Notify,
                    )
                } else {
                    self.with_provider(
                        i,
                        CustomProviderView {
                            models: self.store[i].models.remove(index as int),
                            ..self.store[i]
                        },
                    ).editor_moved(index, true).committed()
                }
            } else {
                self.editor_moved(index, false).committed()
            },
            None => self.editor_moved(index, false).committed(),
        }
    }
}

impl Providers {
    pub(crate) fn ask(&mut self, effect: ProvidersEffect)
        ensures
            final(self)@ == old(self)@.ask(effect@),
            *final(self) == (Providers { effects: final(self).effects, ..*old(self) }),
    {
        proof {
            reveal(ProvidersView::ask);
        }
        let ghost before = self.effects@;
        self.effects.push(effect);
        assert(crate::provider_types::providers_effect_views(self.effects@)
            =~= crate::provider_types::providers_effect_views(before).push(effect@));
    }

    pub(crate) fn find_provider(&self, id: &str) -> (r: Option<usize>)
        ensures
            match r {
                Some(i) => provider_pos(self@.store, id@) == Some(i as int) && i < self.store@.len() && self@.store[i as int]
                    == self.store@[i as int]@ && self.store@[i as int]@.id == id@,
                None => provider_pos(self@.store, id@) is None,
            },
    {
        let ghost views = self@.store;
        let mut i: usize = 0;
        assert(views.skip(0) =~= views);
        while i < self.store.len()
            invariant
                i <= self.store@.len(),
                views == self@.store,
                provider_pos(views, id@) == (match provider_pos(views.skip(i as int), id@) {
                    Some(k) => Some(k + i),
                    None => None,
                }),
            decreases self.store@.len() - i,
        {
            assert(views.skip(i as int)[0] == self.store@[i as int]@);
            assert(views.skip(i as int).drop_first() =~= views.skip(i + 1));
            if same(self.store[i].id.as_str(), id) {
                return Some(i);
            }
            i = i + 1;
        }
        assert(views.skip(i as int).len() == 0);
        None
    }

    pub(crate) fn find_chosen(&self) -> (r: Option<usize>)
        ensures
            match r {
                Some(i) => self@.chosen_pos() == Some(i as int) && i < self.store@.len() && self@.store[i as int]
                    == self.store@[i as int]@ && Some(self.store@[i as int]@.id) == self@.selected,
                None => self@.chosen_pos() is None,
            },
    {
        match &self.selected {
            Some(id) => self.find_provider(id.as_str()),
            None => None,
        }
    }

    /// The provider whose details are shown: the one that is chosen while there is one of
    /// that name, else the built-in one.
    pub fn effective_provider_id(&self) -> (r: String)
        ensures
            r@ == self@.effective_id(),
    {
        match &self.selected {
            Some(id) => {
                if same(id.as_str(), OPENCODE_PROVIDER) || self.find_provider(id.as_str()).is_some() {
                    id.clone()
                } else {
                    OPENCODE_PROVIDER.to_owned()
                }
            },
            None => OPENCODE_PROVIDER.to_owned(),
        }
    }

    /// The provider that is chosen, if it is one of the user's.
    pub fn selected_custom_provider(&self) -> (r: Option<CustomProvider>)
        ensures
            crate::provider_types::custom_provider_opt(r) == self@.custom(),
    {
        match self.find_chosen() {
            Some(i) => Some(self.store[i].clone()),
            None => None,
        }
    }

    /// Leaves the form.
    pub fn exit_provider_form(&mut self)
        ensures
            final(self)@ == old(self)@.form_left(),
            final(self).store == old(self).store,
            final(self).selected == old(self).selected,
    {
        proof {
            reveal(ProvidersView::form_left);
        }
        self.adding = false;
        self.form.picking = true;
        self.form.connectivity = None;
        self.form.catalog.clear();
        self.form.fetch_generation = count_on(self.form.fetch_generation);
        self.form.probe_generation = count_on(self.form.probe_generation);
        assert(model_map(self.form.catalog@) =~= Map::empty());
        self.ask(ProvidersEffect::Notify);
    }

    fn settle(&mut self)
        ensures
            final(self)@ == old(self)@.settled(),
            final(self).selected == old(self).selected,
    {
        proof {
            reveal(ProvidersView::settled);
            reveal(ProvidersView::editor_closed);
        }
        self.renaming = false;
        self.api_key_revealed = false;
        self.delete_arming = None;
        self.close_editor();
    }

    fn close_editor(&mut self)
        ensures
            final(self)@ == old(self)@.editor_closed(),
            final(self).selected == old(self).selected,
    {
        proof {
            reveal(ProvidersView::editor_closed);
        }
        self.model_editor = None;
        self.model_editor_modalities = Vec::new();
        assert(texts(self.model_editor_modalities@) =~= Seq::empty());
    }

    fn load_provider_fields(&mut self, id: &str)
        ensures
            final(self)@ == old(self)@.fields_loaded(id@),
    {
        proof {
            reveal(ProvidersView::fields_loaded);
        }
        if let Some(i) = self.find_provider(id) {
            self.base_url_input = self.store[i].base_url.clone();
            self.api_key_input = self.store[i].api_key.clone();
        }
    }

    fn mark_selected(&mut self, id: String)
        ensures
            final(self)@ == (ProvidersView { selected: Some(id@), ..old(self)@ }),
    {
        self.selected = Some(id);
    }

    fn scroll_to_top(&mut self)
        ensures
            final(self)@ == (ProvidersView { detail_scroll: 0, ..old(self)@ }),
    {
        self.detail_scroll = 0;
    }

    /// Chooses a provider.
    pub fn select_provider(&mut self, id: String)
        ensures
            final(self)@ == old(self)@.chosen(id@),
    {
        proof {
            reveal(ProvidersView::chosen);
        }
        let shown = id.clone();
        self.mark_selected(id);
        self.exit_provider_form();
        self.settle();
        self.load_provider_fields(shown.as_str());
        self.scroll_to_top();
        self.ask(ProvidersEffect::Notify);
    }

    /// Has the configuration be read.
    pub fn load_providers_from_config(&mut self)
        ensures
            final(self)@ == old(self)@.loading(),
    {
        proof {
            reveal(ProvidersView::loading);
        }
        self.load_generation = count_on(self.load_generation);
        let generation = self.load_generation;
        self.ask(ProvidersEffect::LoadConfig(generation));
    }

    fn drop_drafts(&mut self)
        ensures
            final(self)@ == (ProvidersView {
                form: ProviderFormView { models: Seq::empty(), ..old(self)@.form },
                ..old(self)@
            }),
    {
        self.form.models = Vec::new();
        assert(crate::provider_types::provider_form_model_draft_views(self.form.models@) =~= Seq::empty());
    }

    /// Opens the page anew: what was half done is dropped, and the configuration is read.
    pub fn reset_providers_page(&mut self)
        ensures
            final(self)@ == old(self)@.reset(),
    {
        self.exit_provider_form();
        self.settle();
        self.drop_drafts();
        let selected = match &self.selected {
            Some(id) => Some(id.clone()),
            None => None,
        };
        if let Some(id) = selected {
            self.load_provider_fields(id.as_str());
        }
        self.load_providers_from_config();
        self.ask(ProvidersEffect::EnsureTable);
    }

    fn misses(&self, providers: &Vec<CustomProvider>) -> (r: bool)
        ensures
            r == self@.misses(custom_provider_views(providers@)),
    {
        match &self.selected {
            Some(id) => {
                if same(id.as_str(), OPENCODE_PROVIDER) {
                    return false;
                }
                let ghost views = custom_provider_views(providers@);
                proof {
                    lemma_provider_pos(views, id@);
                }
                let mut i: usize = 0;
                while i < providers.len()
                    invariant
                        i <= providers@.len(),
                        views == custom_provider_views(providers@),
                        opt(self.selected) == Some(id@),
                        forall|j: int| 0 <= j < i ==> (#[trigger] views[j]).id != id@,
                    decreases providers@.len() - i,
                {
                    assert(views[i as int] == providers@[i as int]@);
                    if same(providers[i].id.as_str(), id.as_str()) {
                        proof {
                            lemma_provider_pos(views, id@);
                            assert(views[i as int].id == id@);
                        }
                        return false;
                    }
                    i = i + 1;
                }
                true
            },
            None => false,
        }
    }

    fn take_store(&mut self, providers: Vec<CustomProvider>)
        ensures
            final(self)@ == (ProvidersView { store: custom_provider_views(providers@), ..old(self)@ }),
    {
        self.store = providers;
    }

    fn choose_nothing(&mut self)
        ensures
            final(self)@ == (ProvidersView {
                selected: None,
                adding: false,
                renaming: false,
                model_editor: None,
                model_editor_modalities: Seq::empty(),
                delete_arming: None,
                ..old(self)@
            }),
    {
        self.selected = None;
        self.adding = false;
        self.renaming = false;
        self.model_editor = None;
        self.model_editor_modalities = Vec::new();
        self.delete_arming = None;
        assert(texts(self.model_editor_modalities@) =~= Seq::empty());
    }

    /// Takes in what the configuration holds.
    pub fn finish_loading(&mut self, generation: u64, found: Result<Vec<CustomProvider>, String>)
        ensures
            final(self)@ == old(self)@.loaded(
                generation,
                match found {
                    Ok(store) => Ok(custom_provider_views(store@)),
                    Err(error) => Err(error@),
                },
            ),
    {
        if self.load_generation != generation || self.commit_generation != 0 {
            return;
        }
        let providers = match found {
            Ok(providers) => providers,
            Err(error) => {
                self.ask(ProvidersEffect::Toast(Text::with("providers.sync_failed", "error", error)));
                return;
            },
        };
        let missing = self.misses(&providers);
        self.take_store(providers);
        if missing {
            self.choose_nothing();
        } else {
            let selected = match &self.selected {
                Some(id) => Some(id.clone()),
                None => None,
            };
            if let Some(id) = selected {
                self.load_provider_fields(id.as_str());
            }
        }
        self.ask(ProvidersEffect::Notify);
    }

    /// Writes the list, and has the models be looked for again.
    pub fn commit_custom_providers(&mut self)
        ensures
            final(self)@ == old(self)@.committed(),
    {
        proof {
            reveal(ProvidersView::committed);
        }
        self.ask(ProvidersEffect::Commit);
        self.ask(ProvidersEffect::RefreshDetection);
        self.ask(ProvidersEffect::Notify);
    }

    fn schedule_custom_providers_commit(&mut self)
        ensures
            final(self)@ == old(self)@.commit_scheduled(),
    {
        proof {
            reveal(ProvidersView::commit_scheduled);
        }
        self.commit_generation = count_on(self.commit_generation);
        let generation = self.commit_generation;
        self.ask(ProvidersEffect::CommitLater(generation));
    }

    /// Takes in that the list could not be written.
    pub fn commit_failed(&mut self, error: String)
        ensures
            final(self)@ == old(self)@.ask(
                ProvidersEffectView::Toast(wording_with("providers.sync_failed", "error", error@)),
            ),
    {
        self.ask(ProvidersEffect::Toast(Text::with("providers.sync_failed", "error", error)));
    }


    /// The wait that came with an edit is over: the list is written unless another edit
    /// came.
    pub fn commit_due(&mut self, generation: u64)
        ensures
            final(self)@ == old(self)@.commit_due(generation),
    {
        if self.commit_generation != generation {
            return;
        }
        self.commit_generation = 0;
        self.commit_custom_providers();
    }

    /// Drops what was tested of a provider.
    pub fn clear_provider_probe_results(&mut self, provider_id: &str)
        ensures
            final(self)@ == old(self)@.untested(provider_id@),
    {
        proof {
            reveal(ProvidersView::untested);
        }
        let _ = self.connectivity.remove(provider_id);
        assert(connectivity_map(self.connectivity@) =~= connectivity_map(old(self).connectivity@).remove(provider_id@));
        self.latency.remove_owner(provider_id);
    }

    fn set_base_url(&mut self, i: usize, value: String)
        requires
            i < old(self).store@.len(),
        ensures
            final(self)@ == old(self)@.with_provider(
                i as int,
                CustomProviderView { base_url: value@, ..old(self)@.store[i as int] },
            ),
    {
        let ghost views = self@.store;
        self.store[i].base_url = value;
        assert(custom_provider_views(self.store@) =~= views.update(
            i as int,
            CustomProviderView { base_url: value@, ..views[i as int] },
        ));
    }

    fn set_api_key(&mut self, i: usize, value: String)
        requires
            i < old(self).store@.len(),
        ensures
            final(self)@ == old(self)@.with_provider(
                i as int,
                CustomProviderView { api_key: value@, ..old(self)@.store[i as int] },
            ),
    {
        let ghost views = self@.store;
        self.store[i].api_key = value;
        assert(custom_provider_views(self.store@) =~= views.update(
            i as int,
            CustomProviderView { api_key: value@, ..views[i as int] },
        ));
    }

    fn notice_edit(&mut self, id: &str)
        ensures
            final(self)@ == old(self)@.edit_noticed(id@),
    {
        self.clear_provider_probe_results(id);
        self.schedule_custom_providers_commit();
        self.ask(ProvidersEffect::Notify);
    }

    /// Takes in the text of a field. The echo of text that is already there changes nothing.
    pub fn provider_field_edited(&mut self, field: ProviderField, value: String)
        ensures
            final(self)@ == old(self)@.field_edited(field, value@),
    {
        let i = match self.find_chosen() {
            Some(i) => i,
            None => return,
        };
        let provider_id = self.store[i].id.clone();
        match field {
            ProviderField::BaseUrl => {
                if same(self.store[i].base_url.as_str(), value.as_str()) {
                    return;
                }
                self.set_base_url(i, value);
            },
            ProviderField::ApiKey => {
                if same(self.store[i].api_key.as_str(), value.as_str()) {
                    return;
                }
                self.set_api_key(i, value);
            },
        }
        self.notice_edit(provider_id.as_str());
    }

    fn blank_form(&mut self)
        ensures
            final(self)@ == (ProvidersView { adding: true, form: old(self)@.form.blank(), ..old(self)@ }),
    {
        self.adding = true;
        self.form.format = ProviderApiFormat::OpenAi;
        self.form.models = Vec::new();
        self.form.catalog.clear();
        self.form.connectivity = None;
        self.form.fetch_generation = count_on(self.form.fetch_generation);
        self.form.probe_generation = count_on(self.form.probe_generation);
        self.form.name = "".to_owned();
        self.form.base_url = "".to_owned();
        self.form.api_key = "".to_owned();
        proof {
            reveal_strlit("");
            assert(""@ =~= Seq::empty());
            assert(crate::provider_types::provider_form_model_draft_views(self.form.models@) =~= Seq::empty());
            assert(model_map(self.form.catalog@) =~= Map::empty());
        }
    }

    /// Opens a blank form.
    pub fn begin_add_provider(&mut self)
        ensures
            final(self)@ == old(self)@.add_begun(),
    {
        self.settle();
        self.blank_form();
        self.ask(ProvidersEffect::Notify);
    }

    /// Deletes a provider.
    pub fn delete_provider(&mut self, id: String)
        ensures
            final(self)@ == old(self)@.deleted(id@),
    {
        let name = match self.find_provider(id.as_str()) {
            Some(i) => Some(self.store[i].name.clone()),
            None => None,
        };
        let chosen = self.is_chosen(id.as_str());
        let ghost named = provider_pos(self@.store, id@);
        let ghost start = self@;
        assert(match name {
            Some(text) => named matches Some(i) && text@ == start.store[i].name,
            None => named is None,
        });
        self.drop_provider(id.as_str());
        self.clear_provider_probe_results(id.as_str());
        self.commit_custom_providers();
        if chosen {
            self.select_provider(OPENCODE_PROVIDER.to_owned());
        }
        if let Some(name) = name {
            self.ask(ProvidersEffect::SuccessToast(Text::with("providers.deleted_toast", "name", name)));
        }
    }

    fn is_chosen(&self, id: &str) -> (r: bool)
        ensures
            r == (self@.selected == Some(id@)),
    {
        match &self.selected {
            Some(selected) => same(selected.as_str(), id),
            None => false,
        }
    }

    fn drop_provider(&mut self, id: &str)
        ensures
            final(self)@ == old(self)@.removed(id@),
    {
        proof {
            reveal(ProvidersView::removed);
        }
        let ghost whole = self@.store;
        let mut all: Vec<CustomProvider> = Vec::new();
        std::mem::swap(&mut all, &mut self.store);
        let mut rest: Vec<CustomProvider> = Vec::new();
        let ghost mut done: int = 0;
        assert(custom_provider_views(all@) =~= whole.skip(0));
        assert(whole.take(0) =~= Seq::empty());
        assert(custom_provider_views(rest@) =~= Seq::empty());
        while all.len() > 0
            invariant
                0 <= done <= whole.len(),
                custom_provider_views(all@) == whole.skip(done),
                custom_provider_views(rest@) == without_provider(whole.take(done), id@),
            decreases all@.len(),
        {
            let ghost before = all@;
            let ghost kept = rest@;
            let provider = all.remove(0);
            proof {
                assert(custom_provider_views(before).len() == whole.len() - done);
                assert(custom_provider_views(before)[0] == whole.skip(done)[0]);
                assert(all@ =~= before.remove(0));
                assert(custom_provider_views(all@) =~= custom_provider_views(before).skip(1));
                assert(whole.skip(done).skip(1) =~= whole.skip(done + 1));
                assert(whole.take(done + 1).drop_last() =~= whole.take(done));
            }
            if !same(provider.id.as_str(), id) {
                rest.push(provider);
                assert(custom_provider_views(rest@) =~= custom_provider_views(kept).push(provider@));
            }
            proof {
                done = done + 1;
            }
        }
        assert(custom_provider_views(all@).len() == 0);
        assert(whole.take(done) =~= whole);
        self.store = rest;
        self.delete_arming = None;
    }

    /// The button that deletes a provider was pressed: it goes away at the second press.
    pub fn press_delete(&mut self, id: String)
        ensures
            final(self)@ == old(self)@.delete_pressed(id@),
    {
        let armed = match &self.delete_arming {
            Some(armed) => same(armed.as_str(), id.as_str()),
            None => false,
        };
        if armed {
            self.delete_provider(id);
        } else {
            self.delete_arming = Some(id);
            self.ask(ProvidersEffect::Notify);
        }
    }

    /// The pointer went down elsewhere: nothing is deleted.
    pub fn disarm_delete(&mut self)
        ensures
            final(self)@ == (if old(self)@.delete_arming is Some {
                (ProvidersView { delete_arming: None, ..old(self)@ }).ask(ProvidersEffectView::Notify)
            } else {
                old(self)@
            }),
    {
        if self.delete_arming.is_some() {
            self.delete_arming = None;
            self.ask(ProvidersEffect::Notify);
        }
    }

    /// Switches a provider on or off.
    pub fn toggle_provider_enabled(&mut self, id: &str)
        ensures
            final(self)@ == old(self)@.toggled(id@),
    {
        if let Some(i) = self.find_provider(id) {
            let ghost views = self@.store;
            self.store[i].enabled = !self.store[i].enabled;
            assert(custom_provider_views(self.store@) =~= views.update(
                i as int,
                CustomProviderView { enabled: !views[i as int].enabled, ..views[i as int] },
            ));
        }
        self.commit_custom_providers();
    }

    /// Chooses the dialect of a provider.
    pub fn set_provider_format(&mut self, id: &str, format: ProviderApiFormat)
        ensures
            final(self)@ == old(self)@.formatted(id@, format),
    {
        if let Some(i) = self.find_provider(id) {
            if self.store[i].api_format == format {
                self.ask(ProvidersEffect::Notify);
                return;
            }
            let ghost views = self@.store;
            self.store[i].api_format = format;
            self.store[i].npm_touched = true;
            assert(custom_provider_views(self.store@) =~= views.update(
                i as int,
                CustomProviderView { api_format: format, npm_touched: true, ..views[i as int] },
            ));
            self.commit_custom_providers();
        }
    }

    /// Has the name of the provider that is chosen be edited.
    pub fn begin_rename(&mut self)
        ensures
            final(self)@ == old(self)@.rename_begun(),
    {
        if let Some(i) = self.find_chosen() {
            self.renaming = true;
            self.rename_input = self.store[i].name.clone();
            self.ask(ProvidersEffect::Notify);
        }
    }

    /// Takes over the name that was edited.
    pub fn confirm_rename(&mut self)
        ensures
            final(self)@ == old(self)@.rename_confirmed(),
    {
        if !self.renaming {
            return;
        }
        let name = trim(self.rename_input.as_str()).to_owned();
        self.renaming = false;
        if let Some(i) = self.find_chosen() {
            if name.as_str().unicode_len() > 0 && !same(self.store[i].name.as_str(), name.as_str()) {
                let ghost views = self@.store;
                self.store[i].name = name;
                assert(custom_provider_views(self.store@) =~= views.update(
                    i as int,
                    CustomProviderView { name: name@, ..views[i as int] },
                ));
                self.commit_custom_providers();
                return;
            }
        }
        self.ask(ProvidersEffect::Notify);
    }

    /// Leaves the name as it was.
    pub fn cancel_rename(&mut self)
        ensures
            final(self)@ == (ProvidersView { renaming: false, ..old(self)@ }).ask(ProvidersEffectView::Notify),
    {
        self.renaming = false;
        self.ask(ProvidersEffect::Notify);
    }

    /// Opens a row of models for editing. `window` is how the context window of the model
    /// is written, `modalities` what it takes in.
    pub fn begin_model_editor(&mut self, editor: ProvidersModelEditor, window: String, modalities: Vec<String>)
        ensures
            final(self)@ == old(self)@.editor_begun(editor, window@, texts(modalities@)),
    {
        match (editor, self.find_chosen()) {
            (ProvidersModelEditor::Edit(index), Some(i)) => {
                if index >= self.store[i].models.len() {
                    return;
                }
                assert(self@.store[i as int].models[index as int] == self.store@[i as int].models@[index as int]@);
                let id = self.store[i].models[index].id.clone();
                self.edit_model(editor, id, window, modalities);
            },
            _ => {
                let nothing: Vec<String> = Vec::new();
                proof {
                    reveal_strlit("");
                    assert(""@ =~= Seq::empty());
                    assert(texts(nothing@) =~= Seq::empty());
                }
                self.edit_model(editor, "".to_owned(), "".to_owned(), nothing);
            },
        }
    }

    fn edit_model(&mut self, editor: ProvidersModelEditor, id: String, window: String, modalities: Vec<String>)
        ensures
            final(self)@ == old(self)@.editing(editor, id@, window@, texts(modalities@)),
    {
        proof {
            reveal(ProvidersView::editing);
        }
        self.model_id_input = id;
        self.model_context_input = window;
        self.model_editor_modalities = modalities;
        self.model_editor = Some(editor);
        self.ask(ProvidersEffect::Notify);
    }

    /// Leaves the models as they were.
    pub fn cancel_model_editor(&mut self)
        ensures
            final(self)@ == old(self)@.editor_closed().ask(ProvidersEffectView::Notify),
    {
        self.close_editor();
        self.ask(ProvidersEffect::Notify);
    }

    /// Takes over the model in the editor. `window` is what its context window reads as.
    pub fn confirm_model_editor(&mut self, window: Option<u64>)
        ensures
            final(self)@ == old(self)@.editor_confirmed(window),
    {
        let editor = match self.model_editor {
            Some(editor) => editor,
            None => return,
        };
        let model_id = trim(self.model_id_input.as_str()).to_owned();
        if model_id.as_str().unicode_len() == 0 {
            return;
        }
        let i = match self.find_chosen() {
            Some(i) => i,
            None => return,
        };
        if duplicates(&self.store[i].models, editor, model_id.as_str()) {
            self.ask(ProvidersEffect::Toast(Text::key("providers.duplicate_model")));
            return;
        }
        if window.is_none() && !trims_to_nothing(self.model_context_input.as_str()) {
            proof {
                crate::text::lemma_trimmed_blank(self.model_context_input@);
            }
            self.ask(ProvidersEffect::Toast(Text::key("providers.hint_invalid_window")));
            return;
        }
        proof {
            crate::text::lemma_trimmed_blank(self.model_context_input@);
        }
        self.put_model(i, editor, model_id, window);
        self.close_editor();
        self.commit_custom_providers();
    }

    fn put_model(&mut self, i: usize, editor: ProvidersModelEditor, model_id: String, window: Option<u64>)
        requires
            i < old(self).store@.len(),
            model_id@ == trimmed(old(self)@.model_id_input),
        ensures
            final(self)@ == old(self)@.with_provider(
                i as int,
                CustomProviderView {
                    models: old(self)@.models_edited(editor, old(self)@.store[i as int].models, window),
                    ..old(self)@.store[i as int]
                },
            ),
    {
        let model = CustomProviderModel {
            id: model_id,
            name: None,
            context_window: window,
            output_limit: None,
            input_modalities: copy_texts(&self.model_editor_modalities),
        };
        assert(model@ =~= self@.model_edited(window));
        let ghost before = self@;
        let ghost views = self@.store;
        let ghost wanted = before.models_edited(editor, views[i as int].models, window);
        edit_models(&mut self.store[i].models, editor, model);
        assert(custom_provider_views(self.store@) =~= views.update(
            i as int,
            CustomProviderView { models: wanted, ..views[i as int] },
        ));
    }

    fn move_editor(&mut self, index: usize, removed: bool)
        ensures
            final(self)@ == old(self)@.editor_moved(index, removed),
    {
        proof {
            reveal(ProvidersView::editor_moved);
        }
        if let Some(ProvidersModelEditor::Edit(edited)) = self.model_editor {
            if edited == index {
                self.close_editor();
            } else if removed && edited > index {
                self.model_editor = Some(ProvidersModelEditor::Edit(edited - 1));
            }
        }
    }

    /// Deletes a model of a provider, but not its last.
    pub fn delete_model(&mut self, id: &str, index: usize)
        ensures
            final(self)@ == old(self)@.model_deleted(id@, index),
    {
        let mut removed = false;
        if let Some(i) = self.find_provider(id) {
            if index < self.store[i].models.len() {
                if self.store[i].models.len() == 1 {
                    self.ask(ProvidersEffect::Toast(Text::key("providers.hint_need_model")));
                    self.ask(ProvidersEffect::Notify);
                    return;
                }
                let ghost views = self@.store;
                let ghost models = self.store@[i as int].models@;
                let _ = self.store[i].models.remove(index);
                removed = true;
                proof {
                    assert(self.store@[i as int].models@ =~= models.remove(index as int));
                    assert(self.store@[i as int]@.models =~= views[i as int].models.remove(index as int));
                    assert(custom_provider_views(self.store@) =~= views.update(
                        i as int,
                        CustomProviderView {
                            models: views[i as int].models.remove(index as int),
                            ..views[i as int]
                        },
                    ));
                }
            }
        }
        self.move_editor(index, removed);
        self.commit_custom_providers();
    }

    /// Shows the key of the provider, or hides it.
    pub fn toggle_key(&mut self)
        ensures
            final(self)@ == (ProvidersView { api_key_revealed: !old(self)@.api_key_revealed, ..old(self)@ }).ask(
                ProvidersEffectView::Notify,
            ),
    {
        self.api_key_revealed = !self.api_key_revealed;
        self.ask(ProvidersEffect::Notify);
    }
}

fn duplicates(models: &Vec<CustomProviderModel>, editor: ProvidersModelEditor, id: &str) -> (r: bool)
    ensures
        ({
            let views = crate::provider_types::custom_provider_model_views(models@);
            r == (has_model(views, id@) && match editor {
                ProvidersModelEditor::Add => true,
                ProvidersModelEditor::Edit(index) => !(index < views.len() && views[index as int].id == id@),
            })
        }),
{
    let ghost views = crate::provider_types::custom_provider_model_views(models@);
    let own = match editor {
        ProvidersModelEditor::Add => false,
        ProvidersModelEditor::Edit(index) => index < models.len() && same(models[index].id.as_str(), id),
    };
    if own {
        return false;
    }
    let mut i: usize = 0;
    while i < models.len()
        invariant
            i <= models@.len(),
            views == crate::provider_types::custom_provider_model_views(models@),
            forall|j: int| 0 <= j < i ==> (#[trigger] views[j]).id != id@,
            !own,
            own == (match editor {
                ProvidersModelEditor::Add => false,
                ProvidersModelEditor::Edit(index) => index < views.len() && views[index as int].id == id@,
            }),
        decreases models@.len() - i,
    {
        assert(views[i as int] == models@[i as int]@);
        if same(models[i].id.as_str(), id) {
            return true;
        }
        i = i + 1;
    }
    false
}

fn edit_models(models: &mut Vec<CustomProviderModel>, editor: ProvidersModelEditor, model: CustomProviderModel)
    ensures
        ({
            let before = crate::provider_types::custom_provider_model_views(old(models)@);
            crate::provider_types::custom_provider_model_views(final(models)@) == (match editor {
                ProvidersModelEditor::Add => before.push(model@),
                ProvidersModelEditor::Edit(index) => if index < before.len() {
                    before.update(
                        index as int,
                        if before[index as int].id == model@.id {
                            CustomProviderModelView {
                                name: before[index as int].name,
                                output_limit: before[index as int].output_limit,
                                ..model@
                            }
                        } else {
                            model@
                        },
                    )
                } else {
                    before
                },
            })
        }),
{
    let ghost before = crate::provider_types::custom_provider_model_views(models@);
    match editor {
        ProvidersModelEditor::Add => {
            models.push(model);
            assert(crate::provider_types::custom_provider_model_views(models@) =~= before.push(model@));
        },
        ProvidersModelEditor::Edit(index) => {
            if index < models.len() {
                let ghost given = model@;
                let ghost slot = before[index as int];
                let mut model = model;
                if same(models[index].id.as_str(), model.id.as_str()) {
                    model.name = models[index].name.clone();
                    model.output_limit = models[index].output_limit;
                }
                assert(model@ =~= if slot.id == given.id {
                    CustomProviderModelView { name: slot.name, output_limit: slot.output_limit, ..given }
                } else {
                    given
                });
                let ghost put = model@;
                models[index] = model;
                assert(crate::provider_types::custom_provider_model_views(models@) =~= before.update(index as int, put));
            }
        },
    }
}

/// What a model takes in: what the user said, else what the table says of it.
pub fn effective_input_modalities(model: &CustomProviderModel, table: Option<Vec<String>>) -> (r: Vec<String>)
    ensures
        texts(r@) == (if model@.input_modalities.len() > 0 {
            model@.input_modalities
        } else {
            match table {
                Some(list) => texts(list@),
                None => Seq::empty(),
            }
        }),
{
    if model.input_modalities.len() > 0 {
        return copy_texts(&model.input_modalities);
    }
    match table {
        Some(list) => list,
        None => {
            let r: Vec<String> = Vec::new();
            assert(texts(r@) =~= Seq::empty());
            r
        },
    }
}

} // verus!
