//! What the page of providers shows.
use vstd::prelude::*;

use crate::desk::{wording, wording_with, Text, TextView};
use crate::file_types::{after_slash, slash_tail};
use crate::keyed::has_text;
use crate::lines::{decimal, decimal_of};
use crate::modalities::{modality_icon, modality_icon_path, modality_labels, modality_word, word_views};
use crate::probes::{Catalog, CatalogView, ProviderModel, ProviderModelView, OPENCODE_NAME, OPENCODE_PROVIDER};
use crate::provider_probes::{
    api_list_error_text, first_token_error_text, format_probe_latency, list_error_text, token_error_detail, token_error_text,
};
use crate::provider_types::{
    connectivity_opt, ConnectivityView, CustomProvider, CustomProviderModel, LatencyView, ModelLatencyState,
    ProviderApiFormat, ProviderConnectivityState, ProviderFormModelDraft, ProviderFormModelDraftView,
    Providers, ProvidersModelEditor, ProvidersView,
};
use crate::text::{opt, opt_str, same, texts, trim, trimmed};

verus! {

/// The wording of a dialect.
pub open spec fn format_label(format: ProviderApiFormat) -> Seq<char> {
    match format {
        ProviderApiFormat::OpenAi => "providers.api_format_openai"@,
        ProviderApiFormat::OpenAiResponses => "providers.api_format_openai_responses"@,
        ProviderApiFormat::Anthropic => "providers.api_format_anthropic"@,
    }
}

/// The wording of a dialect.
pub fn api_format_label(format: ProviderApiFormat) -> (r: &'static str)
    ensures
        r@ == format_label(format),
{
    match format {
        ProviderApiFormat::OpenAi => "providers.api_format_openai",
        ProviderApiFormat::OpenAiResponses => "providers.api_format_openai_responses",
        ProviderApiFormat::Anthropic => "providers.api_format_anthropic",
    }
}

/// The dialects that can be chosen, each under its wording, with the one in use marked.
pub open spec fn is_format_menu(menu: Seq<FormatChoice>, formats: Seq<ProviderApiFormat>, current: ProviderApiFormat) -> bool {
    &&& menu.len() == formats.len()
    &&& forall|i: int|
        0 <= i < menu.len() ==> {
            &&& (#[trigger] menu[i]).format == formats[i]
            &&& menu[i].label@ == format_label(formats[i])
            &&& menu[i].selected == (formats[i] == current)
        }
}

fn format_menu(formats: &Vec<ProviderApiFormat>, current: ProviderApiFormat) -> (r: Vec<FormatChoice>)
    ensures
        is_format_menu(r@, formats@, current),
{
    let mut r: Vec<FormatChoice> = Vec::new();
    let mut i: usize = 0;
    while i < formats.len()
        invariant
            i <= formats@.len(),
            is_format_menu(r@, formats@.take(i as int), current),
        decreases formats@.len() - i,
    {
        let format = formats[i];
        r.push(FormatChoice { format, label: api_format_label(format), selected: format == current });
        i = i + 1;
    }
    assert(formats@.take(i as int) =~= formats@);
    r
}

/// A row of the list of providers.
#[derive(Debug)]
pub struct ProviderRow {
    pub id: String,
    pub label: String,
    pub selected: bool,
    /// Whether its dot is lit.
    pub active: bool,
}

/// What fills the details.
#[derive(Clone, Copy, Debug, PartialEq, Eq, Structural)]
pub enum ProviderDetail {
    Form,
    /// The provider at a place in the list.
    Custom(usize),
    Builtin,
}

/// A model of the built-in provider, as it is listed.
#[derive(Debug)]
pub struct BuiltinModelRow {
    pub name: String,
    pub id: String,
    /// Its name without the providers that it goes through.
    pub bare_id: String,
    pub is_default: bool,
}

/// How the details of the built-in provider are drawn.
#[derive(Debug)]
pub struct BuiltinDetail {
    pub title: &'static str,
    pub version: Option<String>,
    pub installed: bool,
    pub summary: Text,
    pub refresh_label: &'static str,
    pub refresh_enabled: bool,
    /// What stands in place of models.
    pub empty_note: Option<Text>,
    pub models: Vec<BuiltinModelRow>,
}

/// A dialect that can be chosen.
#[derive(Clone, Copy, Debug, PartialEq, Eq)]
pub struct FormatChoice {
    pub format: ProviderApiFormat,
    pub label: &'static str,
    pub selected: bool,
}

/// How the details of a provider of the user's are drawn.
#[derive(Debug)]
pub struct CustomDetail {
    pub renaming: bool,
    pub name: String,
    pub slug: String,
    pub enabled: bool,
    pub badge: &'static str,
    pub toggle_label: &'static str,
    /// The next press deletes it.
    pub armed: bool,
    pub delete_label: &'static str,
    pub format_label: &'static str,
    pub formats: Vec<FormatChoice>,
    /// The button that tests the connection.
    pub test: BusyButton,
    pub verdict: Option<Verdict>,
}

/// How a model of a provider of the user's is drawn.
#[derive(Debug)]
pub struct ModelCells {
    /// What it is called; without a name its id stands in this place.
    pub title: Option<String>,
    pub id: String,
    pub pill: Option<ModalityPill>,
    pub context_window: Option<u64>,
    pub latency: LatencyCluster,
}

/// A row of a provider's models.
#[derive(Clone, Copy, Debug, PartialEq, Eq, Structural)]
pub enum ModelRow {
    /// The fields to edit a model in.
    Editor { separator: bool },
    Model { index: usize, separator: bool },
    /// The button that adds a model.
    AddButton { separator: bool },
}

/// A row of the form, for a model.
#[derive(Debug)]
pub struct FormRow {
    /// A line above it.
    pub separator: bool,
    /// Which of the things that models can take in are picked.
    pub modalities: Vec<bool>,
    /// Whether it says what these are.
    pub hint: bool,
}

/// How the form for a new provider is drawn.
#[derive(Debug)]
pub struct FormDetail {
    /// Whether it can be handed in.
    pub valid: bool,
    /// The wording of what is still missing.
    pub hint: Option<&'static str>,
    pub models_empty: bool,
    pub rows: Vec<FormRow>,
    pub format_label: &'static str,
    pub formats: Vec<FormatChoice>,
    /// The button that asks for models.
    pub fetch: BusyButton,
    /// The button that tests the connection.
    pub test: BusyButton,
    pub verdict: Option<Verdict>,
}

/// A button that can be busy.
#[derive(Clone, Copy, Debug)]
pub struct BusyButton {
    pub label: &'static str,
    pub icon: &'static str,
    pub enabled: bool,
}

/// What a test of the connection says.
#[derive(Debug)]
pub struct Verdict {
    pub good: bool,
    pub text: Text,
    /// The wording of the error that it mentions.
    pub error: Option<Text>,
}

/// What is shown of a test of a model.
#[derive(Debug)]
pub enum LatencyCluster {
    Nothing,
    Spinner,
    Result(String),
    /// The wording of the failure, and what the provider said.
    Failed(Text, Option<String>),
}

/// The icons and words of what a model takes in.
#[derive(Debug)]
pub struct ModalityPill {
    pub icons: Vec<&'static str>,
    pub words: Vec<Text>,
}

/// The icons of what a model takes in, without what has none.
pub open spec fn modality_icons(list: Seq<Seq<char>>) -> Seq<Seq<char>>
    decreases list.len(),
{
    if list.len() == 0 {
        Seq::empty()
    } else {
        let before = modality_icons(list.drop_last());
        match modality_icon(list.last()) {
            Some(icon) => before.push(icon),
            None => before,
        }
    }
}

/// What a list of names holds.
pub open spec fn str_views(s: Seq<&'static str>) -> Seq<Seq<char>> {
    s.map_values(|t: &'static str| t@)
}

/// What of a model's takings is shown: what the user said, else what the table says.
pub open spec fn shown_modalities(recorded: Seq<Seq<char>>, table: Option<Seq<Seq<char>>>) -> Seq<Seq<char>> {
    if recorded.len() > 0 {
        recorded
    } else {
        match table {
            Some(list) => list,
            None => Seq::empty(),
        }
    }
}

/// The icons and words of what is shown of a model's takings.
pub open spec fn is_pill(pill: Option<ModalityPill>, recorded: Seq<Seq<char>>, table: Option<Seq<Seq<char>>>) -> bool {
    let shown = shown_modalities(recorded, table);
    match pill {
        None => shown.len() == 0,
        Some(pill) => {
            &&& shown.len() > 0
            &&& str_views(pill.icons@) == modality_icons(shown)
            &&& word_views(pill.words@) == shown.map_values(|m: Seq<char>| modality_word(m))
        },
    }
}

/// What is shown of what a model takes in; nothing while nothing is known.
pub fn model_modality_pill(recorded: &Vec<String>, table: Option<&Vec<String>>) -> (r: Option<ModalityPill>)
    ensures
        is_pill(
            r,
            texts(recorded@),
            match table {
                Some(list) => Some(texts(list@)),
                None => None,
            },
        ),
{
    if recorded.len() > 0 {
        return Some(pill_of(recorded));
    }
    match table {
        Some(list) => {
            if list.len() > 0 {
                Some(pill_of(list))
            } else {
                None
            }
        },
        None => None,
    }
}

fn pill_of(list: &Vec<String>) -> (r: ModalityPill)
    ensures
        str_views(r.icons@) == modality_icons(texts(list@)),
        word_views(r.words@) == texts(list@).map_values(|m: Seq<char>| modality_word(m)),
{
    let ghost all = texts(list@);
    let words = modality_labels(list);
    let mut icons: Vec<&'static str> = Vec::new();
    let mut i: usize = 0;
    assert(all.take(0) =~= Seq::empty());
    assert(str_views(icons@) =~= Seq::empty());
    while i < list.len()
        invariant
            i <= list@.len(),
            all == texts(list@),
            str_views(icons@) == modality_icons(all.take(i as int)),
        decreases list@.len() - i,
    {
        assert(all.take(i + 1).drop_last() =~= all.take(i as int));
        assert(all.take(i + 1).last() == list@[i as int]@);
        let ghost before = icons@;
        if let Some(path) = modality_icon_path(list[i].as_str()) {
            icons.push(path);
            assert(str_views(icons@) =~= str_views(before).push(path@));
        }
        i = i + 1;
    }
    assert(all.take(i as int) =~= all);
    ModalityPill { icons, words }
}

/// Which of the things that models can take in are picked.
pub fn render_modality_row(order: &Vec<String>, selected: &Vec<String>) -> (r: Vec<bool>)
    ensures
        r@ =~= Seq::new(order@.len(), |i: int| texts(selected@).contains(order@[i]@)),
{
    let mut r: Vec<bool> = Vec::new();
    let mut i: usize = 0;
    while i < order.len()
        invariant
            i <= order@.len(),
            r@ =~= Seq::new(i as nat, |j: int| texts(selected@).contains(order@[j]@)),
        decreases order@.len() - i,
    {
        r.push(has_text(selected, order[i].as_str()));
        i = i + 1;
    }
    r
}

/// A count in a wording.
pub open spec fn counted(key: Seq<char>, count: nat) -> TextView {
    TextView::Key(key, seq![("count"@, decimal(count))])
}

/// How many dots stand in place of a key.
pub open spec fn dots(n: nat) -> Seq<char> {
    Seq::new(
        if n < 36 {
            n
        } else {
            36
        },
        |i: int| '•',
    )
}

impl ProvidersView {
    /// What fills the details.
    pub open spec fn detail(self) -> ProviderDetail {
        if self.adding {
            ProviderDetail::Form
        } else {
            match self.chosen_pos() {
                Some(i) => if self.effective_id() != OPENCODE_PROVIDER@ {
                    ProviderDetail::Custom(i as usize)
                } else {
                    ProviderDetail::Builtin
                },
                None => ProviderDetail::Builtin,
            }
        }
    }

    /// What is shown of the test of a model.
    pub open spec fn is_cluster(
        self,
        cluster: LatencyCluster,
        key: (Seq<char>, Seq<char>),
        seconds: Seq<char>,
        timeout: u64,
    ) -> bool {
        if !self.latency.dom().contains(key) {
            cluster is Nothing
        } else {
            match self.latency[key] {
                LatencyView::Testing => cluster is Spinner,
                LatencyView::Done(nanos) => cluster matches LatencyCluster::Result(text) && text@ == latency_text(
                    nanos,
                    seconds,
                ),
                LatencyView::Failed(error) => cluster matches LatencyCluster::Failed(text, detail) && text@
                    == token_error_text(error, timeout) && opt(detail) == token_error_detail(error),
            }
        }
    }

    /// A row stands for a provider of the list.
    pub open spec fn is_row(self, row: ProviderRow, i: int) -> bool {
        &&& row.id@ == self.store[i].id
        &&& row.label@ == self.store[i].name
        &&& row.selected == (self.effective_id() == self.store[i].id)
        &&& row.active == self.store[i].enabled
    }
}

/// How many rows of the form have a name.
pub open spec fn named_drafts(drafts: Seq<ProviderFormModelDraftView>) -> nat
    decreases drafts.len(),
{
    if drafts.len() == 0 {
        0
    } else {
        let before = named_drafts(drafts.drop_last());
        if trimmed(drafts.last().id).len() > 0 {
            before + 1
        } else {
            before
        }
    }
}

/// The rows of models up to one, each but the first with a line above it.
pub open spec fn model_rows(count: nat, editor: Option<ProvidersModelEditor>) -> Seq<ModelRow>
    decreases count,
{
    if count == 0 {
        Seq::empty()
    } else {
        let index = (count - 1) as usize;
        model_rows((count - 1) as nat, editor).push(
            if editor == Some(ProvidersModelEditor::Edit(index)) {
                ModelRow::Editor { separator: count > 1 }
            } else {
                ModelRow::Model { index, separator: count > 1 }
            },
        )
    }
}

impl Providers {
    /// How many providers the user has, in words.
    pub fn providers_footer_caption(&self) -> (r: Text)
        ensures
            r@ == (if self@.store.len() == 0 {
                wording("providers.custom_count_zero")
            } else if self@.store.len() == 1 {
                counted("providers.custom_count_one"@, 1)
            } else {
                counted("providers.custom_count_many"@, self@.store.len())
            }),
    {
        let count = self.store.len();
        if count == 0 {
            Text::key("providers.custom_count_zero")
        } else if count == 1 {
            Text::with("providers.custom_count_one", "count", decimal_of(1))
        } else {
            Text::with("providers.custom_count_many", "count", decimal_of(count as u64))
        }
    }

    /// The list of providers: the built-in one, then the user's.
    pub fn render_providers_list_pane(&self, installed: bool) -> (r: (ProviderRow, Vec<ProviderRow>))
        ensures
            r.0.id@ == OPENCODE_PROVIDER@,
            r.0.label@ == OPENCODE_NAME@,
            r.0.selected == (self@.effective_id() == OPENCODE_PROVIDER@),
            r.0.active == installed,
            r.1@.len() == self@.store.len(),
            forall|i: int| 0 <= i < r.1@.len() ==> self@.is_row(#[trigger] r.1@[i], i),
    {
        let selected_id = self.effective_provider_id();
        let first = ProviderRow {
            id: OPENCODE_PROVIDER.to_owned(),
            label: OPENCODE_NAME.to_owned(),
            selected: same(selected_id.as_str(), OPENCODE_PROVIDER),
            active: installed,
        };
        let mut rows: Vec<ProviderRow> = Vec::new();
        let mut i: usize = 0;
        while i < self.store.len()
            invariant
                i <= self.store@.len(),
                rows@.len() == i,
                selected_id@ == self@.effective_id(),
                forall|j: int| 0 <= j < i ==> self@.is_row(#[trigger] rows@[j], j),
            decreases self.store@.len() - i,
        {
            assert(self@.store[i as int] == self.store@[i as int]@);
            let provider = &self.store[i];
            rows.push(
                ProviderRow {
                    id: provider.id.clone(),
                    label: provider.name.clone(),
                    selected: same(selected_id.as_str(), provider.id.as_str()),
                    active: provider.enabled,
                },
            );
            i = i + 1;
        }
        (first, rows)
    }

    /// What fills the details.
    pub fn render_providers_detail(&self) -> (r: ProviderDetail)
        ensures
            r == self@.detail(),
    {
        if self.adding {
            return ProviderDetail::Form;
        }
        let shown = self.effective_provider_id();
        if !same(shown.as_str(), OPENCODE_PROVIDER) {
            if let Some(i) = self.find_chosen() {
                return ProviderDetail::Custom(i);
            }
        }
        ProviderDetail::Builtin
    }

    /// How the details of a provider of the user's are drawn. `formats` are the dialects
    /// that can be chosen, and `seconds` is how long the last test took, with two decimals.
    pub fn render_custom_provider_detail(&self, provider: &CustomProvider, formats: &Vec<ProviderApiFormat>, seconds: &str) -> (r:
        CustomDetail)
        ensures
            r.renaming == self@.renaming,
            r.name@ == provider@.name,
            r.slug@ == provider@.slug,
            r.enabled == provider@.enabled,
            r.badge@ == (if provider@.enabled {
                "providers.enabled_badge"@
            } else {
                "providers.disabled_badge"@
            }),
            r.toggle_label@ == (if provider@.enabled {
                "providers.action_disable"@
            } else {
                "providers.action_enable"@
            }),
            r.armed == (self@.delete_arming == Some(provider@.id)),
            r.delete_label@ == (if r.armed {
                "providers.confirm_delete_provider"@
            } else {
                "providers.delete_provider"@
            }),
            r.format_label@ == format_label(provider@.api_format),
            is_format_menu(r.formats@, formats@, provider@.api_format),
            is_test_button(r.test, self@.testing(provider@.id)),
            verdict_is(
                r.verdict,
                if self@.connectivity.dom().contains(provider@.id) {
                    Some(self@.connectivity[provider@.id])
                } else {
                    None
                },
                seconds@,
            ),
    {
        let (test, verdict) = self.render_connectivity_field(provider, seconds);
        let armed = match &self.delete_arming {
            Some(id) => same(id.as_str(), provider.id.as_str()),
            None => false,
        };
        CustomDetail {
            renaming: self.renaming,
            name: provider.name.clone(),
            slug: provider.slug.clone(),
            enabled: provider.enabled,
            badge: if provider.enabled {
                "providers.enabled_badge"
            } else {
                "providers.disabled_badge"
            },
            toggle_label: if provider.enabled {
                "providers.action_disable"
            } else {
                "providers.action_enable"
            },
            armed,
            delete_label: if armed {
                "providers.confirm_delete_provider"
            } else {
                "providers.delete_provider"
            },
            format_label: api_format_label(provider.api_format),
            formats: format_menu(formats, provider.api_format),
            test,
            verdict,
        }
    }

    /// What stands in place of the key while it is hidden: as many dots as it has
    /// characters, but not too many. Without a key, the wording that asks for one.
    pub fn render_api_key_field(&self) -> (r: Option<Text>)
        ensures
            match r {
                None => self@.api_key_revealed,
                Some(text) => !self@.api_key_revealed && text@ == (if self@.api_key_input.len() == 0 {
                    wording("providers.api_key_placeholder")
                } else {
                    TextView::Plain(dots(self@.api_key_input.len()))
                }),
            },
    {
        if self.api_key_revealed {
            return None;
        }
        let count = self.api_key_input.as_str().unicode_len();
        if count == 0 {
            return Some(Text::key("providers.api_key_placeholder"));
        }
        let wanted: usize = if count < 36 {
            count
        } else {
            36
        };
        let mut masked = "".to_owned();
        let mut i: usize = 0;
        proof {
            reveal_strlit("");
        }
        while i < wanted
            invariant
                i <= wanted,
                masked@ =~= Seq::new(i as nat, |j: int| '•'),
            decreases wanted - i,
        {
            masked.push('•');
            i = i + 1;
        }
        assert(masked@ =~= dots(count as nat));
        Some(Text::Plain(masked))
    }

    /// The rows of a provider's models, and whether it has none. Whatever stands after
    /// something has a line above it; without models, a note stands before the last row.
    pub fn render_provider_models(&self, provider: &CustomProvider) -> (r: (Vec<ModelRow>, bool))
        ensures
            r.1 == (provider@.models.len() == 0),
            r.0@ == model_rows(provider@.models.len(), self@.model_editor).push(
                if self@.model_editor == Some(ProvidersModelEditor::Add) {
                    ModelRow::Editor { separator: true }
                } else {
                    ModelRow::AddButton { separator: true }
                },
            ),
    {
        let count = provider.models.len();
        let mut rows: Vec<ModelRow> = Vec::new();
        let mut i: usize = 0;
        while i < count
            invariant
                i <= count,
                rows@ == model_rows(i as nat, self@.model_editor),
            decreases count - i,
        {
            let editing = match self.model_editor {
                Some(ProvidersModelEditor::Edit(edited)) => edited == i,
                _ => false,
            };
            if editing {
                rows.push(ModelRow::Editor { separator: i > 0 });
            } else {
                rows.push(ModelRow::Model { index: i, separator: i > 0 });
            }
            i = i + 1;
        }
        let adding = match self.model_editor {
            Some(ProvidersModelEditor::Add) => true,
            _ => false,
        };
        if adding {
            rows.push(ModelRow::Editor { separator: true });
        } else {
            rows.push(ModelRow::AddButton { separator: true });
        }
        (rows, count == 0)
    }

    /// How a model of a provider is drawn. `table` is what the table of models says it takes
    /// in, `seconds` how long its last test took, with two decimals, and `timeout` how many
    /// seconds that may take.
    pub fn render_model_cells(
        &self,
        provider_id: &str,
        model: &CustomProviderModel,
        table: Option<&Vec<String>>,
        seconds: &str,
        timeout: u64,
    ) -> (r: ModelCells)
        ensures
            opt(r.title) == model@.name,
            r.id@ == model@.id,
            is_pill(
                r.pill,
                model@.input_modalities,
                match table {
                    Some(list) => Some(texts(list@)),
                    None => None,
                },
            ),
            r.context_window == model@.context_window,
            self@.is_cluster(r.latency, (provider_id@, model@.id), seconds@, timeout),
    {
        ModelCells {
            title: model.name.clone(),
            id: model.id.clone(),
            pill: model_modality_pill(&model.input_modalities, table),
            context_window: model.context_window,
            latency: self.render_model_latency_cluster(provider_id, model.id.as_str(), seconds, timeout),
        }
    }

    /// Whether the model in the editor can be taken over. `window` is what its context
    /// window reads as.
    pub fn render_model_editor_row(&self, window: Option<u64>) -> (r: bool)
        ensures
            r == (trimmed(self@.model_id_input).len() > 0 && (trimmed(self@.model_context_input).len() == 0 || window
                is Some)),
    {
        trim(self.model_id_input.as_str()).unicode_len() > 0 && (trim(self.model_context_input.as_str()).unicode_len() == 0
            || window.is_some())
    }

    /// How the form for a new provider is drawn. `url_valid` says whether its address can be
    /// asked, `formats` are the dialects that can be chosen, `order` the things that models
    /// can take in, and `seconds` is how long the last test took, with two decimals.
    pub fn render_provider_form(&self, url_valid: bool, formats: &Vec<ProviderApiFormat>, order: &Vec<String>, seconds: &str) -> (r:
        FormDetail)
        ensures
            ({
                let name = trimmed(self@.form.name);
                let models = named_drafts(self@.form.models);
                &&& r.valid == (name.len() > 0 && url_valid && models > 0)
                &&& r.models_empty == (self@.form.models.len() == 0)
                &&& opt_str(r.hint) == (if trimmed(self@.form.base_url).len() > 0 && !url_valid {
                    Some("providers.hint_invalid_url"@)
                } else if url_valid && models == 0 && name.len() > 0 {
                    Some("providers.hint_need_model"@)
                } else {
                    None
                })
            }),
            is_form_rows(r.rows@, self@.form.models, texts(order@)),
            r.format_label@ == format_label(self@.form.format),
            is_format_menu(r.formats@, formats@, self@.form.format),
            is_fetch_button(r.fetch, self@.form.fetching),
            is_test_button(r.test, self@.form.connectivity == Some(ConnectivityView::Testing)),
            verdict_is(r.verdict, self@.form.connectivity, seconds@),
    {
        let named = trim(self.form.name.as_str()).unicode_len() > 0;
        let addressed = trim(self.form.base_url.as_str()).unicode_len() > 0;
        let models = count_named(&self.form.models);
        let hint = if addressed && !url_valid {
            Some("providers.hint_invalid_url")
        } else if url_valid && models == 0 && named {
            Some("providers.hint_need_model")
        } else {
            None
        };
        let (test, verdict) = self.render_form_connectivity_field(seconds);
        FormDetail {
            valid: named && url_valid && models > 0,
            hint,
            models_empty: self.form.models.len() == 0,
            rows: form_rows(&self.form.models, order),
            format_label: api_format_label(self.form.format),
            formats: format_menu(formats, self.form.format),
            fetch: self.render_form_models_section_header(),
            test,
            verdict,
        }
    }

    /// The button that asks for a provider's models.
    pub fn render_models_section_header(&self) -> (r: BusyButton)
        ensures
            is_fetch_button(r, self@.fetching),
    {
        fetch_button(self.fetching)
    }

    /// The button that asks for the models of the provider in the form.
    pub fn render_form_models_section_header(&self) -> (r: BusyButton)
        ensures
            is_fetch_button(r, self@.form.fetching),
    {
        fetch_button(self.form.fetching)
    }

    /// The button that tests a provider, and what the last test says. `seconds` is how long
    /// it took, with two decimals.
    pub fn render_connectivity_field(&self, provider: &CustomProvider, seconds: &str) -> (r: (BusyButton, Option<Verdict>))
        ensures
            is_test_button(r.0, self@.testing(provider@.id)),
            verdict_is(
                r.1,
                if self@.connectivity.dom().contains(provider@.id) {
                    Some(self@.connectivity[provider@.id])
                } else {
                    None
                },
                seconds@,
            ),
    {
        assert(crate::provider_types::connectivity_map(self.connectivity@).dom() =~= self.connectivity@.dom());
        let state = self.connectivity.get(provider.id.as_str());
        let testing = match state {
            Some(ProviderConnectivityState::Testing) => true,
            _ => false,
        };
        (test_button(testing), connectivity_verdict(state, seconds))
    }

    /// The button that tests the provider in the form, and what the last test says.
    pub fn render_form_connectivity_field(&self, seconds: &str) -> (r: (BusyButton, Option<Verdict>))
        ensures
            is_test_button(r.0, self@.form.connectivity == Some(ConnectivityView::Testing)),
            verdict_is(r.1, self@.form.connectivity, seconds@),
    {
        field_of(&self.form.connectivity, seconds)
    }

    /// The button that tests a provider of the server, and what the last test says; nothing
    /// for one that takes no key.
    pub fn render_builtin_connectivity_field(&self, provider_id: &str, seconds: &str) -> (r: Option<
        (BusyButton, Option<Verdict>),
    >)
        ensures
            match r {
                None => !self@.key_methods.contains(provider_id@),
                Some(field) => self@.key_methods.contains(provider_id@) && is_test_button(
                    field.0,
                    self@.builtin_connectivity == Some(ConnectivityView::Testing),
                ) && verdict_is(field.1, self@.builtin_connectivity, seconds@),
            },
    {
        if !self.provider_supports_key(provider_id) {
            return None;
        }
        Some(field_of(&self.builtin_connectivity, seconds))
    }

    /// What is shown of the test of a model. `seconds` is how long it took, with two
    /// decimals, and `timeout` how many seconds it may take.
    pub fn render_model_latency_cluster(&self, provider_id: &str, model_id: &str, seconds: &str, timeout: u64) -> (r: LatencyCluster)
        ensures
            self@.is_cluster(r, (provider_id@, model_id@), seconds@, timeout),
    {
        match self.latency.get(provider_id, model_id) {
            None => LatencyCluster::Nothing,
            Some(state) => match state {
                ModelLatencyState::Testing => LatencyCluster::Spinner,
                ModelLatencyState::Done(nanos) => LatencyCluster::Result(format_probe_latency(*nanos, seconds)),
                ModelLatencyState::Failed(error) => {
                    let (text, detail) = first_token_error_text(error, timeout);
                    LatencyCluster::Failed(text, detail)
                },
            },
        }
    }
}

/// How long something took, for reading.
pub open spec fn latency_text(nanos: u64, seconds: Seq<char>) -> Seq<char> {
    if nanos < 1_000_000_000 {
        decimal((nanos / 1_000_000) as nat) + " ms"@
    } else {
        seconds + " s"@
    }
}

fn count_named(drafts: &Vec<ProviderFormModelDraft>) -> (r: usize)
    ensures
        r == named_drafts(crate::provider_types::provider_form_model_draft_views(drafts@)),
{
    let ghost views = crate::provider_types::provider_form_model_draft_views(drafts@);
    let mut r: usize = 0;
    let mut i: usize = 0;
    assert(views.take(0) =~= Seq::empty());
    while i < drafts.len()
        invariant
            i <= drafts@.len(),
            r <= i,
            views == crate::provider_types::provider_form_model_draft_views(drafts@),
            r == named_drafts(views.take(i as int)),
        decreases drafts@.len() - i,
    {
        assert(views.take(i + 1).drop_last() =~= views.take(i as int));
        assert(views.take(i + 1).last() == drafts@[i as int]@);
        if trim(drafts[i].id.as_str()).unicode_len() > 0 {
            r = r + 1;
        }
        i = i + 1;
    }
    assert(views.take(i as int) =~= views);
    r
}

/// The rows of the form: each but the first has a line above it, and the first says what can
/// be picked.
pub open spec fn is_form_rows(rows: Seq<FormRow>, drafts: Seq<ProviderFormModelDraftView>, order: Seq<Seq<char>>) -> bool {
    &&& rows.len() == drafts.len()
    &&& forall|i: int|
        0 <= i < rows.len() ==> {
            &&& (#[trigger] rows[i]).separator == (i > 0)
            &&& rows[i].hint == (i == 0)
            &&& rows[i].modalities@ == order.map_values(|m: Seq<char>| drafts[i].input_modalities.contains(m))
        }
}

fn form_rows(drafts: &Vec<ProviderFormModelDraft>, order: &Vec<String>) -> (r: Vec<FormRow>)
    ensures
        is_form_rows(r@, crate::provider_types::provider_form_model_draft_views(drafts@), texts(order@)),
{
    let ghost views = crate::provider_types::provider_form_model_draft_views(drafts@);
    let mut r: Vec<FormRow> = Vec::new();
    let mut i: usize = 0;
    while i < drafts.len()
        invariant
            i <= drafts@.len(),
            views == crate::provider_types::provider_form_model_draft_views(drafts@),
            is_form_rows(r@, views.take(i as int), texts(order@)),
        decreases drafts@.len() - i,
    {
        let modalities = render_modality_row(order, &drafts[i].input_modalities);
        assert(views[i as int] == drafts@[i as int]@);
        assert(modalities@ =~= texts(order@).map_values(
            |m: Seq<char>| views.take(i + 1)[i as int].input_modalities.contains(m),
        ));
        let ghost before = r@;
        r.push(FormRow { separator: i > 0, modalities, hint: i == 0 });
        assert forall|j: int| 0 <= j < before.len() implies (#[trigger] r@[j]).modalities@ == texts(order@).map_values(
            |m: Seq<char>| views.take(i + 1)[j].input_modalities.contains(m),
        ) by {
            assert(r@[j] == before[j]);
            assert(views.take(i + 1)[j] == views.take(i as int)[j]);
        }
        i = i + 1;
    }
    assert(views.take(i as int) =~= views);
    r
}

/// How the button that asks for models is drawn.
pub open spec fn is_fetch_button(button: BusyButton, fetching: bool) -> bool {
    &&& button.label@ == (if fetching {
        "providers.fetching_models"@
    } else {
        "providers.fetch_models"@
    })
    &&& button.icon@ == (if fetching {
        "icons/loader-circle.svg"@
    } else {
        "icons/download.svg"@
    })
    &&& button.enabled == !fetching
}

fn fetch_button(fetching: bool) -> (r: BusyButton)
    ensures
        is_fetch_button(r, fetching),
{
    if fetching {
        BusyButton { label: "providers.fetching_models", icon: "icons/loader-circle.svg", enabled: false }
    } else {
        BusyButton { label: "providers.fetch_models", icon: "icons/download.svg", enabled: true }
    }
}

/// How the button that tests a connection is drawn.
pub open spec fn is_test_button(button: BusyButton, testing: bool) -> bool {
    &&& button.label@ == (if testing {
        "providers.testing_connection"@
    } else {
        "providers.test_connection"@
    })
    &&& button.icon@ == (if testing {
        "icons/loader-circle.svg"@
    } else {
        "icons/globe.svg"@
    })
    &&& button.enabled == !testing
}

fn test_button(testing: bool) -> (r: BusyButton)
    ensures
        is_test_button(r, testing),
{
    if testing {
        BusyButton { label: "providers.testing_connection", icon: "icons/loader-circle.svg", enabled: false }
    } else {
        BusyButton { label: "providers.test_connection", icon: "icons/globe.svg", enabled: true }
    }
}

fn field_of(state: &Option<ProviderConnectivityState>, seconds: &str) -> (r: (BusyButton, Option<Verdict>))
    ensures
        is_test_button(r.0, connectivity_opt(*state) == Some(ConnectivityView::Testing)),
        verdict_is(r.1, connectivity_opt(*state), seconds@),
{
    match state {
        Some(found) => {
            let testing = match found {
                ProviderConnectivityState::Testing => true,
                _ => false,
            };
            (test_button(testing), connectivity_verdict(Some(found), seconds))
        },
        None => (test_button(false), connectivity_verdict(None, seconds)),
    }
}

/// What a test of the connection says: nothing before it is over.
pub open spec fn verdict_is(verdict: Option<Verdict>, state: Option<ConnectivityView>, seconds: Seq<char>) -> bool {
    match state {
        None => verdict is None,
        Some(ConnectivityView::Testing) => verdict is None,
        Some(ConnectivityView::Reachable { models, latency }) => verdict matches Some(v) && v.good && v.text@ == (
        TextView::Key(
            "providers.connection_ok"@,
            seq![("latency"@, latency_text(latency, seconds)), ("count"@, decimal(models as nat))],
        )) && v.error is None,
        Some(ConnectivityView::Failed(error)) => verdict matches Some(v) && !v.good && v.text@ == wording(
            "providers.connection_failed",
        ) && (v.error matches Some(e) && e@ == list_error_text(error)),
    }
}

/// What a test of the connection says. `seconds` is how long it took, with two decimals.
pub fn connectivity_verdict(state: Option<&ProviderConnectivityState>, seconds: &str) -> (r: Option<Verdict>)
    ensures
        verdict_is(
            r,
            match state {
                Some(s) => Some(s@),
                None => None,
            },
            seconds@,
        ),
{
    match state {
        None => None,
        Some(found) => match found {
            ProviderConnectivityState::Testing => None,
            ProviderConnectivityState::Reachable { models, latency } => Some(
                Verdict {
                    good: true,
                    text: Text::with2(
                        "providers.connection_ok",
                        "latency",
                        format_probe_latency(*latency, seconds),
                        "count",
                        decimal_of(*models as u64),
                    ),
                    error: None,
                },
            ),
            ProviderConnectivityState::Failed(error) => Some(
                Verdict {
                    good: false,
                    text: Text::key("providers.connection_failed"),
                    error: Some(api_list_error_text(error)),
                },
            ),
        },
    }
}

/// A row stands for a model of the built-in provider.
pub open spec fn is_builtin_row(row: BuiltinModelRow, model: ProviderModelView) -> bool {
    &&& row.name@ == model.name
    &&& row.id@ == model.id
    &&& row.bare_id@ == after_slash(model.id)
    &&& row.is_default == model.is_default
}

impl CatalogView {
    /// The models of the provider.
    pub open spec fn models(self) -> Seq<ProviderModelView> {
        if self.probes.len() > 0 {
            self.probes[0].models
        } else {
            Seq::empty()
        }
    }

    /// The version of the provider, as far as it is known.
    pub open spec fn version(self) -> Option<Seq<char>> {
        if self.provider_versions.dom().contains(OPENCODE_PROVIDER@) {
            opt(self.provider_versions[OPENCODE_PROVIDER@])
        } else {
            None
        }
    }
}

/// What is said of how many models the built-in provider has.
pub open spec fn builtin_summary(installed: bool, count: nat) -> TextView {
    if !installed {
        wording_with("providers.not_detected_as", "command", "opencode"@)
    } else if count == 1 {
        counted("providers.model_count_one"@, count)
    } else {
        counted("providers.model_count_many"@, count)
    }
}

/// How the details of the built-in provider are drawn.
pub fn render_builtin_provider_detail(catalog: &Catalog) -> (r: BuiltinDetail)
    ensures
        r.title@ == OPENCODE_NAME@,
        opt(r.version) == (match catalog@.version() {
            Some(text) => Some("v"@ + text),
            None => None,
        }),
        r.installed == catalog@.installed(),
        r.summary@ == builtin_summary(catalog@.installed(), catalog@.models().len()),
        r.refresh_label@ == (if catalog@.provider_detection_remaining > 0 {
            "common.checking"@
        } else {
            "common.refresh"@
        }),
        r.refresh_enabled == (catalog@.provider_detection_remaining == 0),
        match r.empty_note {
            Some(note) => catalog@.models().len() == 0 && note@ == wording_with(
                "providers.not_detected_as",
                "command",
                "opencode"@,
            ),
            None => catalog@.models().len() > 0,
        },
        r.models@.len() == catalog@.models().len(),
        forall|i: int| 0 <= i < r.models@.len() ==> is_builtin_row(#[trigger] r.models@[i], catalog@.models()[i]),
{
    let checking = catalog.provider_detection_remaining > 0;
    let (installed, rows) = match catalog.provider_probe() {
        Some(probe) => (probe.installed, builtin_rows(&probe.models)),
        None => (false, Vec::new()),
    };
    let count = rows.len();
    let version = match catalog.provider_versions.get(OPENCODE_PROVIDER) {
        Some(Some(text)) => {
            let mut v = "v".to_owned();
            v.append(text.as_str());
            Some(v)
        },
        _ => None,
    };
    let summary = if !installed {
        Text::with("providers.not_detected_as", "command", "opencode".to_owned())
    } else if count == 1 {
        Text::with("providers.model_count_one", "count", decimal_of(1))
    } else {
        Text::with("providers.model_count_many", "count", decimal_of(count as u64))
    };
    let empty_note = if count == 0 {
        Some(Text::with("providers.not_detected_as", "command", "opencode".to_owned()))
    } else {
        None
    };
    BuiltinDetail {
        title: OPENCODE_NAME,
        version,
        installed,
        summary,
        refresh_label: if checking {
            "common.checking"
        } else {
            "common.refresh"
        },
        refresh_enabled: !checking,
        empty_note,
        models: rows,
    }
}

fn builtin_rows(models: &Vec<ProviderModel>) -> (r: Vec<BuiltinModelRow>)
    ensures
        r@.len() == models@.len(),
        forall|i: int| 0 <= i < r@.len() ==> is_builtin_row(#[trigger] r@[i], models@[i]@),
{
    let mut rows: Vec<BuiltinModelRow> = Vec::new();
    let mut i: usize = 0;
    while i < models.len()
        invariant
            i <= models@.len(),
            rows@.len() == i,
            forall|j: int| 0 <= j < i ==> is_builtin_row(#[trigger] rows@[j], models@[j]@),
        decreases models@.len() - i,
    {
        rows.push(
            BuiltinModelRow {
                name: models[i].name.clone(),
                id: models[i].id.clone(),
                bare_id: slash_tail(models[i].id.as_str()).to_owned(),
                is_default: models[i].is_default,
            },
        );
        i = i + 1;
    }
    rows
}

/// The form can be handed in exactly where handing it in adds a provider: what it counts as
/// a model is one.
pub proof fn valid_forms_have_models(
    drafts: Seq<ProviderFormModelDraftView>,
    windows: Seq<Option<u64>>,
    catalog: Map<Seq<char>, crate::provider_types::CustomProviderModelView>,
)
    requires
        windows.len() == drafts.len(),
    ensures
        named_drafts(drafts) == crate::provider_forms::drafted(drafts, windows, catalog).len(),
    decreases drafts.len(),
{
    if drafts.len() > 0 {
        valid_forms_have_models(drafts.drop_last(), windows.take(drafts.len() - 1), catalog);
    }
}

impl ModelRow {
    /// A line stands above the row.
    pub open spec fn lined(self) -> bool {
        match self {
            ModelRow::Editor { separator } => separator,
            ModelRow::Model { separator, .. } => separator,
            ModelRow::AddButton { separator } => separator,
        }
    }
}

/// Each row of models after the first carries one line above it, and the first none, whether
/// it is a model or the fields to edit one in.
pub proof fn lines_part_the_rows(count: nat, editor: Option<ProvidersModelEditor>)
    ensures
        model_rows(count, editor).len() == count,
        forall|k: int| 0 <= k < count ==> (#[trigger] model_rows(count, editor)[k]).lined() == (k > 0),
    decreases count,
{
    if count > 0 {
        let before = model_rows((count - 1) as nat, editor);
        lines_part_the_rows((count - 1) as nat, editor);
        assert forall|k: int| 0 <= k < count implies (#[trigger] model_rows(count, editor)[k]).lined() == (k > 0) by {
            if k < count - 1 {
                assert(model_rows(count, editor)[k] == before[k]);
            }
        }
    }
}

} // verus!
