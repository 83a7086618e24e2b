use fintwind::desk::Text;
use fintwind::keyed::{StrMap, StrSet};
use fintwind::modalities::{join_labels, modality_icon_path, modality_label, toggle_modality};
use fintwind::probes::{Catalog, ProviderModel, ProviderProbe};
use fintwind::provider_forms::MergeOutcome;
use fintwind::provider_probes::{
    api_list_error_text, append_detail, builtin_outcome, first_token_error_text, format_probe_latency, newer_table,
    IntegrationSummary,
};
use fintwind::provider_types::{
    ApiListError, CustomProvider, CustomProviderModel, FirstTokenError, Latencies, ModelLatencyState, ProviderApiFormat,
    ProviderConnectivityState, ProviderForm, Providers, ProvidersEffect, ProvidersModelEditor,
};
use fintwind::provider_views::{model_modality_pill, render_builtin_provider_detail, LatencyCluster, ModelRow, ProviderDetail};
use fintwind::providers_page::{effective_input_modalities, ProviderField};

fn model(id: &str) -> CustomProviderModel {
    CustomProviderModel {
        id: id.to_owned(),
        name: Some("Nice".to_owned()),
        context_window: Some(1000),
        output_limit: Some(10),
        input_modalities: Vec::new(),
    }
}

fn provider(id: &str) -> CustomProvider {
    CustomProvider {
        id: id.to_owned(),
        slug: id.to_owned(),
        name: id.to_uppercase(),
        base_url: "https://a".to_owned(),
        api_format: ProviderApiFormat::OpenAi,
        api_key: "key".to_owned(),
        enabled: true,
        npm_touched: false,
        models: vec![model("m1"), model("m2")],
    }
}

fn formats() -> Vec<ProviderApiFormat> {
    vec![ProviderApiFormat::OpenAi, ProviderApiFormat::OpenAiResponses, ProviderApiFormat::Anthropic]
}

fn builtin_model(id: &str, is_default: bool) -> ProviderModel {
    ProviderModel {
        id: id.to_owned(),
        name: id.to_uppercase(),
        is_default,
        reasoning_efforts: Vec::new(),
        default_reasoning_effort: None,
        service_tiers: Vec::new(),
        context_windows: Vec::new(),
    }
}

fn catalog() -> Catalog {
    let mut provider_versions = StrMap::new();
    provider_versions.insert("opencode".to_owned(), Some("1.2".to_owned()));
    Catalog {
        probes: Vec::new(),
        provider_model_discoveries: StrSet::new(),
        provider_model_discoveries_pending: StrSet::new(),
        provider_version_probes_pending: StrSet::new(),
        provider_versions,
        provider_detection_remaining: 1,
        provider_detection_checked_at: None,
    }
}

fn page(store: Vec<CustomProvider>) -> Providers {
    Providers {
        store,
        selected: None,
        adding: false,
        form: ProviderForm {
            name: String::new(),
            base_url: String::new(),
            api_key: String::new(),
            format: ProviderApiFormat::OpenAi,
            models: Vec::new(),
            catalog: StrMap::new(),
            connectivity: None,
            fetching: false,
            fetch_generation: 0,
            probe_generation: 0,
            picking: true,
        },
        renaming: false,
        rename_input: String::new(),
        api_key_revealed: false,
        delete_arming: None,
        base_url_input: String::new(),
        api_key_input: String::new(),
        model_editor: None,
        model_editor_modalities: Vec::new(),
        model_id_input: String::new(),
        model_context_input: String::new(),
        load_generation: 0,
        commit_generation: 0,
        connectivity: StrMap::new(),
        latency: Latencies::new(),
        fetching: false,
        table_loading: false,
        has_table: false,
        builtin_loaded: false,
        builtin_loading: false,
        auth_loading: false,
        authorized: StrSet::new(),
        key_methods: StrSet::new(),
        builtin_connectivity: None,
        builtin_probe_id: None,
        detail_scroll: 0,
        effects: Vec::new(),
    }
}

fn order() -> Vec<String> {
    ["text", "image", "audio", "video", "pdf"].iter().map(|m| (*m).to_owned()).collect()
}

fn commits(p: &Providers) -> usize {
    p.effects.iter().filter(|e| matches!(e, ProvidersEffect::Commit)).count()
}

fn last_toast(p: &Providers) -> Option<&'static str> {
    p.effects.iter().rev().find_map(|e| match e {
        ProvidersEffect::Toast(Text::Key(key, _)) => Some(*key),
        ProvidersEffect::SuccessToast(Text::Key(key, _)) => Some(*key),
        ProvidersEffect::ErrorToast(Text::Key(key, _), _) => Some(*key),
        _ => None,
    })
}

#[test]
fn the_selection_falls_back_to_the_built_in_provider() {
    let mut p = page(vec![provider("a")]);
    assert_eq!(p.effective_provider_id(), "opencode");
    p.select_provider("a".to_owned());
    assert_eq!(p.effective_provider_id(), "a");
    assert_eq!((p.base_url_input.as_str(), p.api_key_input.as_str()), ("https://a", "key"));
    assert_eq!(p.render_providers_detail(), ProviderDetail::Custom(0));
    p.load_providers_from_config();
    let generation = p.load_generation;
    p.finish_loading(generation, Ok(vec![provider("b")]));
    assert_eq!(p.selected, None);
    assert_eq!(p.render_providers_detail(), ProviderDetail::Builtin);
    p.finish_loading(generation, Err("no file".to_owned()));
    assert_eq!(last_toast(&p), Some("providers.sync_failed"));
}

#[test]
fn edits_are_written_once_and_void_verdicts() {
    let mut p = page(vec![provider("a")]);
    p.select_provider("a".to_owned());
    assert!(p.probe_provider_connectivity().is_some());
    assert!(p.probe_provider_connectivity().is_none());
    p.finish_connectivity("a".to_owned(), ProviderConnectivityState::Reachable { models: 2, latency: 812_000_000 });
    let (button, verdict) = p.render_connectivity_field(&provider("a"), "0.81");
    assert!(button.enabled && verdict.unwrap().good);
    assert!(p.test_model_first_token("a".to_owned(), "m1".to_owned()).is_some());
    p.provider_field_edited(ProviderField::ApiKey, "key".to_owned());
    assert_eq!(p.commit_generation, 0);
    p.provider_field_edited(ProviderField::ApiKey, "k2".to_owned());
    p.provider_field_edited(ProviderField::BaseUrl, "https://b".to_owned());
    assert!(p.connectivity.get("a").is_none());
    assert!(p.latency.get("a", "m1").is_none());
    p.commit_due(1);
    assert_eq!(commits(&p), 0);
    p.finish_loading(p.load_generation, Ok(Vec::new()));
    assert_eq!(p.store.len(), 1);
    p.commit_due(2);
    assert_eq!((commits(&p), p.commit_generation), (1, 0));
    p.commit_failed("read-only".to_owned());
    assert_eq!(last_toast(&p), Some("providers.sync_failed"));
    assert_eq!(p.store[0].base_url, "https://b");
}

#[test]
fn deleting_takes_a_second_press() {
    let mut p = page(vec![provider("a"), provider("b")]);
    p.select_provider("a".to_owned());
    p.press_delete("a".to_owned());
    assert_eq!(p.store.len(), 2);
    p.disarm_delete();
    p.press_delete("a".to_owned());
    p.press_delete("a".to_owned());
    assert_eq!(p.store.len(), 1);
    assert_eq!(p.selected.as_deref(), Some("opencode"));
    assert_eq!(last_toast(&p), Some("providers.deleted_toast"));
}

#[test]
fn switching_renaming_and_dialects() {
    let mut p = page(vec![provider("a")]);
    p.select_provider("a".to_owned());
    p.toggle_provider_enabled("a");
    assert!(!p.store[0].enabled);
    p.toggle_provider_enabled("a");
    assert!(p.store[0].enabled);
    p.set_provider_format("a", ProviderApiFormat::OpenAi);
    assert!(!p.store[0].npm_touched);
    p.set_provider_format("a", ProviderApiFormat::Anthropic);
    assert!(p.store[0].npm_touched);
    p.begin_rename();
    assert_eq!(p.rename_input, "A");
    p.rename_input = "   ".to_owned();
    p.confirm_rename();
    assert_eq!(p.store[0].name, "A");
    p.begin_rename();
    p.rename_input = " Mine ".to_owned();
    p.confirm_rename();
    assert_eq!(p.store[0].name, "Mine");
    assert!(!p.renaming);
}

#[test]
fn models_are_edited_in_place() {
    let mut p = page(vec![provider("a")]);
    p.select_provider("a".to_owned());
    p.begin_model_editor(ProvidersModelEditor::Edit(1), "1K".to_owned(), Vec::new());
    assert_eq!(p.model_id_input, "m2");
    let (rows, empty) = p.render_provider_models(&provider("a"));
    assert_eq!(rows, vec![
        ModelRow::Model { index: 0, separator: false },
        ModelRow::Editor { separator: true },
        ModelRow::AddButton { separator: true }
    ]);
    assert!(!empty);
    let mut bare = provider("a");
    bare.models.clear();
    let (rows, empty) = p.render_provider_models(&bare);
    assert_eq!(rows, vec![ModelRow::AddButton { separator: true }]);
    assert!(empty);
    p.model_id_input = "m1".to_owned();
    p.confirm_model_editor(Some(5));
    assert_eq!(last_toast(&p), Some("providers.duplicate_model"));
    p.model_id_input = "m2".to_owned();
    p.model_context_input = "lots".to_owned();
    p.confirm_model_editor(None);
    assert_eq!(last_toast(&p), Some("providers.hint_invalid_window"));
    p.confirm_model_editor(Some(5));
    assert_eq!((p.store[0].models[1].context_window, p.store[0].models[1].output_limit), (Some(5), Some(10)));
    assert_eq!(p.model_editor, None);
    p.begin_model_editor(ProvidersModelEditor::Add, String::new(), Vec::new());
    p.model_id_input = " m3 ".to_owned();
    assert!(p.render_model_editor_row(None));
    p.confirm_model_editor(None);
    assert_eq!(p.store[0].models[2].id, "m3");
    assert_eq!(p.store[0].models[2].name, None);
}

#[test]
fn the_editor_follows_its_model_and_the_last_model_stays() {
    let mut p = page(vec![provider("a")]);
    p.select_provider("a".to_owned());
    p.begin_model_editor(ProvidersModelEditor::Edit(1), String::new(), Vec::new());
    p.delete_model("a", 0);
    assert_eq!(p.model_editor, Some(ProvidersModelEditor::Edit(0)));
    assert_eq!(p.store[0].models[0].id, "m2");
    p.delete_model("a", 0);
    assert_eq!(p.store[0].models.len(), 1);
    assert_eq!(last_toast(&p), Some("providers.hint_need_model"));
    p.delete_model("a", 9);
    assert_eq!(p.model_editor, Some(ProvidersModelEditor::Edit(0)));
}

#[test]
fn forms_are_checked_before_they_are_handed_in() {
    let mut p = page(Vec::new());
    p.begin_add_provider();
    assert_eq!(p.render_providers_detail(), ProviderDetail::Form);
    p.form.base_url = "nonsense".to_owned();
    assert_eq!(p.render_provider_form(false, &formats(), &order(), "").hint, Some("providers.hint_invalid_url"));
    p.submit_provider_form(&vec![], false, "id".to_owned(), "slug".to_owned());
    assert!(p.effects.iter().all(|e| !matches!(e, ProvidersEffect::Toast(_))));
    p.form.name = " Mine ".to_owned();
    p.submit_provider_form(&vec![], false, "id".to_owned(), "slug".to_owned());
    assert_eq!(last_toast(&p), Some("providers.hint_invalid_url"));
    p.submit_provider_form(&vec![], true, "id".to_owned(), "slug".to_owned());
    assert_eq!(last_toast(&p), Some("providers.hint_need_model"));
    p.add_form_model_draft(1);
    p.add_form_model_draft(2);
    p.form.models[1].id = " big ".to_owned();
    p.toggle_draft_modality(1, "image", &order());
    let form = p.render_provider_form(true, &formats(), &order(), "");
    assert!(form.valid);
    assert_eq!(form.rows.len(), 2);
    assert_eq!((form.rows[0].separator, form.rows[0].hint), (false, true));
    assert_eq!((form.rows[1].separator, form.rows[1].hint), (true, false));
    let image = order().iter().position(|m| m == "image").unwrap();
    assert!(form.rows[1].modalities[image] && !form.rows[0].modalities[image]);
    assert!(form.fetch.enabled && form.test.enabled && form.verdict.is_none());
    p.submit_provider_form(&vec![None, Some(200)], true, "id".to_owned(), "slug".to_owned());
    assert_eq!(p.store.len(), 1);
    assert_eq!(p.store[0].name, "Mine");
    assert_eq!(p.store[0].models.len(), 1);
    assert_eq!((p.store[0].models[0].id.as_str(), p.store[0].models[0].context_window), ("big", Some(200)));
    assert_eq!(p.store[0].models[0].input_modalities, vec!["image".to_owned()]);
    assert_eq!(p.selected.as_deref(), Some("id"));
    assert!(!p.adding);
    assert_eq!(last_toast(&p), Some("providers.added_toast"));
}

#[test]
fn what_a_fetch_learned_rides_along() {
    let mut p = page(Vec::new());
    p.begin_add_provider();
    assert_eq!(p.fetch_form_models(false), None);
    let generation = p.fetch_form_models(true).unwrap();
    assert_eq!(p.fetch_form_models(true), None);
    let outcome = MergeOutcome { count: 1, added: 1, filled: 0 };
    p.finish_form_fetch(generation, None, true, vec![model("m1")], &vec!["1K".to_owned()], &vec![7], outcome);
    assert_eq!((p.form.models[0].id.as_str(), p.form.models[0].context.as_str()), ("m1", "1K"));
    assert!(p.has_table);
    p.form.name = "Mine".to_owned();
    p.submit_provider_form(&vec![Some(1000)], true, "id".to_owned(), "slug".to_owned());
    assert_eq!(p.store[0].models[0].name.as_deref(), Some("Nice"));
}

#[test]
fn answers_for_a_form_that_was_left_land_nowhere() {
    let mut p = page(Vec::new());
    p.begin_add_provider();
    let fetch = p.fetch_form_models(true).unwrap();
    let probe = p.probe_form_connectivity(true).unwrap();
    p.exit_provider_form();
    let outcome = MergeOutcome { count: 1, added: 1, filled: 0 };
    p.finish_form_fetch(fetch, None, false, vec![model("m1")], &vec![String::new()], &vec![7], outcome);
    p.finish_form_probe(probe, ProviderConnectivityState::Failed(ApiListError::ListMissing));
    assert!(p.form.models.is_empty());
    assert!(p.form.connectivity.is_none());
    assert!(!p.form.fetching);
}

#[test]
fn rows_of_the_form_are_removed_by_what_they_are() {
    let mut p = page(Vec::new());
    p.begin_add_provider();
    p.add_form_model_draft(1);
    p.add_form_model_draft(2);
    p.remove_form_model_draft(1);
    p.remove_form_model_draft(1);
    assert_eq!(p.form.models.iter().map(|d| d.key).collect::<Vec<_>>(), vec![2]);
}

#[test]
fn fetched_models_reach_the_provider_that_was_asked() {
    let mut p = page(vec![provider("a"), provider("b")]);
    p.select_provider("a".to_owned());
    assert_eq!(p.fetch_provider_models().unwrap().id, "a");
    assert!(p.fetch_provider_models().is_none());
    p.select_provider("b".to_owned());
    p.finish_fetch("a", None, true, vec![model("x")], MergeOutcome { count: 1, added: 1, filled: 0 });
    assert_eq!(p.store[0].models[0].id, "x");
    assert_eq!(p.store[1].models[0].id, "m1");
    assert_eq!(last_toast(&p), Some("providers.fetch_result"));
    p.finish_fetch("a", None, true, vec![model("x")], MergeOutcome { count: 1, added: 0, filled: 0 });
    assert_eq!(last_toast(&p), Some("providers.fetch_up_to_date"));
    p.finish_fetch("a", Some(ApiListError::HttpStatus(500)), false, Vec::new(), MergeOutcome { count: 0, added: 0, filled: 0 });
    assert_eq!(last_toast(&p), Some("providers.fetch_failed"));
}

#[test]
fn first_tokens_are_timed() {
    let mut p = page(vec![provider("a")]);
    assert!(p.test_model_first_token("zz".to_owned(), "m1".to_owned()).is_none());
    assert!(p.test_model_first_token("a".to_owned(), "m1".to_owned()).is_some());
    assert!(matches!(p.render_model_latency_cluster("a", "m1", "", 30), LatencyCluster::Spinner));
    assert!(p.test_model_first_token("a".to_owned(), "m1".to_owned()).is_none());
    p.finish_first_token("a".to_owned(), "m1".to_owned(), Ok(2_410_000_000));
    assert!(matches!(p.render_model_latency_cluster("a", "m1", "2.41", 30), LatencyCluster::Result(text) if text == "2.41 s"));
    p.finish_first_token("a".to_owned(), "m1".to_owned(), Err(FirstTokenError::Timeout));
    assert!(matches!(p.latency.get("a", "m1"), Some(ModelLatencyState::Failed(_))));
    assert!(matches!(p.render_model_latency_cluster("a", "m2", "", 30), LatencyCluster::Nothing));
}

#[test]
fn latencies_read_in_two_units() {
    assert_eq!(format_probe_latency(812_900_000, "0.81"), "812 ms");
    assert_eq!(format_probe_latency(999_999_999, "1.00"), "999 ms");
    assert_eq!(format_probe_latency(2_410_000_000, "2.41"), "2.41 s");
}

#[test]
fn errors_have_words() {
    let key = |text: Text| match text {
        Text::Key(key, args) => (key, args.into_iter().map(|a| a.value).collect::<Vec<_>>()),
        Text::Plain(text) => panic!("no key: {text}"),
    };
    assert_eq!(key(api_list_error_text(&ApiListError::InvalidBaseUrl)), ("providers.error_invalid_url", vec![]));
    assert_eq!(key(api_list_error_text(&ApiListError::AuthRejected(401))), ("providers.error_auth", vec!["401".to_owned()]));
    assert_eq!(key(api_list_error_text(&ApiListError::ListMissing)), ("providers.error_list_missing", vec![]));
    assert_eq!(key(api_list_error_text(&ApiListError::HttpStatus(503))), ("providers.error_status", vec!["503".to_owned()]));
    assert_eq!(
        key(api_list_error_text(&ApiListError::Unreachable("dns".to_owned()))),
        ("providers.error_unreachable", vec!["dns".to_owned()])
    );
    assert_eq!(
        key(api_list_error_text(&ApiListError::NoModelList("html".to_owned()))),
        ("providers.error_no_list", vec!["html".to_owned()])
    );
    for (status, expected) in [(401, "providers.ttft_error_auth"), (403, "providers.ttft_error_auth"), (404, "providers.ttft_error_model"), (500, "providers.error_status")] {
        let (text, detail) = first_token_error_text(&FirstTokenError::HttpStatus { status, message: Some("no".to_owned()) }, 30);
        assert_eq!(key(text).0, expected);
        assert_eq!(detail.as_deref(), Some("no"));
    }
    assert_eq!(key(first_token_error_text(&FirstTokenError::InvalidBaseUrl, 30).0).0, "providers.error_invalid_url");
    assert_eq!(key(first_token_error_text(&FirstTokenError::Unreachable("x".to_owned()), 30).0).0, "providers.error_unreachable");
    assert_eq!(key(first_token_error_text(&FirstTokenError::NoStreamData { message: None }, 30).0).0, "providers.ttft_error_no_stream");
    assert_eq!(key(first_token_error_text(&FirstTokenError::Timeout, 30).0), ("providers.ttft_error_timeout", vec!["30".to_owned()]));
    assert_eq!(append_detail("Failed", Some("quota")), "Failed · quota");
    assert_eq!(append_detail("Failed", Some("")), "Failed");
    assert_eq!(append_detail("Failed", None), "Failed");
}

#[test]
fn built_in_providers_connect_and_disconnect() {
    let mut p = page(Vec::new());
    assert_eq!(p.ensure_builtin_providers(), (true, true));
    assert_eq!(p.ensure_builtin_providers(), (false, false));
    p.finish_builtin(true);
    p.finish_integrations(Ok(vec![
        IntegrationSummary { id: "anthropic".to_owned(), connected: true, supports_key: true },
        IntegrationSummary { id: "github".to_owned(), connected: false, supports_key: false },
    ]));
    assert!(p.provider_is_authorized("anthropic") && !p.provider_is_authorized("github"));
    assert!(p.render_builtin_connectivity_field("github", "").is_none());
    assert!(p.probe_builtin_provider_connectivity(Some("anthropic"), true));
    assert!(!p.probe_builtin_provider_connectivity(Some("anthropic"), true));
    assert!(!p.probe_builtin_provider_connectivity(Some("github"), true));
    p.finish_builtin_probe("anthropic", builtin_outcome(Ok((0, 5))));
    assert!(matches!(p.builtin_connectivity, Some(ProviderConnectivityState::Failed(ApiListError::AuthRejected(401)))));
    p.form.api_key = "  ".to_owned();
    assert!(p.authorize_builtin_provider(true).is_none());
    p.form.api_key = " k ".to_owned();
    assert_eq!(p.authorize_builtin_provider(true).as_deref(), Some("k"));
    p.finish_authorize("openai", "builtin:openai".to_owned(), None);
    assert!(p.provider_is_authorized("openai"));
    assert!(p.logout_builtin_provider(true));
    p.finish_logout("anthropic", None);
    assert!(!p.provider_is_authorized("anthropic"));
    assert!(p.builtin_connectivity.is_none());
    p.finish_logout("openai", Some("offline".to_owned()));
    assert!(p.provider_is_authorized("openai"));
    assert!(matches!(builtin_outcome(Ok((3, 9))), ProviderConnectivityState::Reachable { models: 3, latency: 9 }));
    assert!(matches!(builtin_outcome(Err("x".to_owned())), ProviderConnectivityState::Failed(ApiListError::Unreachable(_))));
}

#[test]
fn tables_of_models() {
    let mut p = page(Vec::new());
    assert!(p.ensure_models_dev_table(false));
    assert!(!p.ensure_models_dev_table(false));
    p.finish_table(true);
    assert!(!p.ensure_models_dev_table(true));
    assert!(p.ensure_models_dev_table(false));
    assert_eq!(newer_table(Some(5), Some(5)), Some(true));
    assert_eq!(newer_table(Some(4), Some(5)), Some(false));
    assert_eq!(newer_table(None, None), None);
}

#[test]
fn modalities_keep_the_documented_order() {
    let mut selected: Vec<String> = vec!["text".to_owned(), "video".to_owned()];
    toggle_modality(&mut selected, "image", &order());
    assert_eq!(selected, vec!["text", "image", "video"]);
    toggle_modality(&mut selected, "image", &order());
    assert_eq!(selected, vec!["text", "video"]);
    toggle_modality(&mut selected, "text", &order());
    toggle_modality(&mut selected, "text", &order());
    assert_eq!(selected, vec!["text", "video"]);
    toggle_modality(&mut selected, "smell", &order());
    assert_eq!(selected, vec!["text", "video", "smell"]);
    assert_eq!(modality_icon_path("pdf"), Some("icons/modality-pdf.svg"));
    assert_eq!(modality_icon_path("smell"), None);
    assert!(matches!(modality_label("smell"), Text::Plain(word) if word == "smell"));
    assert_eq!(join_labels(&vec!["Text".to_owned(), "Video".to_owned()]), "Text, Video");
    assert_eq!(join_labels(&Vec::new()), "");
    let pill = model_modality_pill(&selected, None).unwrap();
    assert_eq!(pill.icons, vec!["icons/modality-text.svg", "icons/modality-video.svg"]);
    assert_eq!(pill.words.len(), 3);
    assert!(model_modality_pill(&Vec::new(), None).is_none());
    assert_eq!(effective_input_modalities(&model("m1"), Some(selected.clone())), selected);
}

#[test]
fn keys_are_masked() {
    let mut p = page(vec![provider("a")]);
    p.api_key_input = "é".repeat(50);
    assert!(matches!(p.render_api_key_field(), Some(Text::Plain(dots)) if dots == "•".repeat(36)));
    p.api_key_input = "abc".to_owned();
    assert!(matches!(p.render_api_key_field(), Some(Text::Plain(dots)) if dots == "•••"));
    p.toggle_key();
    assert!(p.render_api_key_field().is_none());
}

#[test]
fn the_list_and_the_built_in_provider() {
    let p = page(vec![provider("a")]);
    let (first, rows) = p.render_providers_list_pane(true);
    assert_eq!((first.label.as_str(), first.selected, first.active), ("OpenCode", true, true));
    assert_eq!((rows[0].id.as_str(), rows[0].selected), ("a", false));
    assert!(matches!(p.providers_footer_caption(), Text::Key("providers.custom_count_one", _)));
    let mut catalog = catalog();
    let detail = render_builtin_provider_detail(&catalog);
    assert_eq!(detail.version.as_deref(), Some("v1.2"));
    assert_eq!((detail.refresh_label, detail.refresh_enabled), ("common.checking", false));
    assert!(detail.empty_note.is_some() && !detail.installed);
    catalog.provider_detection_remaining = 0;
    catalog.probes.push(ProviderProbe {
        installed: true,
        path: None,
        models: vec![builtin_model("a/b/small", false), builtin_model("big", true)],
        preferred_model: None,
        agent_presets: Vec::new(),
        preferred_preset: None,
    });
    let detail = render_builtin_provider_detail(&catalog);
    assert_eq!((detail.refresh_label, detail.refresh_enabled), ("common.refresh", true));
    assert!(matches!(detail.summary, Text::Key("providers.model_count_many", _)));
    assert!(detail.empty_note.is_none());
    assert_eq!((detail.models[0].bare_id.as_str(), detail.models[0].is_default), ("small", false));
    assert_eq!((detail.models[1].bare_id.as_str(), detail.models[1].is_default), ("big", true));
}

#[test]
fn the_details_of_a_provider_offer_its_dialects() {
    let mut p = page(vec![provider("a")]);
    p.select_provider("a".to_owned());
    let detail = p.render_custom_provider_detail(&provider("a"), &formats(), "");
    assert_eq!((detail.name.as_str(), detail.armed, detail.renaming), ("A", false, false));
    assert_eq!(detail.delete_label, "providers.delete_provider");
    let marked: Vec<bool> = detail.formats.iter().map(|choice| choice.selected).collect();
    assert_eq!(marked, vec![true, false, false]);
    assert_eq!(detail.formats[2].label, "providers.api_format_anthropic");
    p.press_delete("a".to_owned());
    let detail = p.render_custom_provider_detail(&provider("a"), &formats(), "");
    assert!(detail.armed);
    assert_eq!(detail.delete_label, "providers.confirm_delete_provider");
}

#[test]
fn models_show_what_is_known_of_them() {
    let p = page(vec![provider("a")]);
    let cells = p.render_model_cells("a", &model("m1"), Some(&vec!["image".to_owned()]), "", 30);
    assert_eq!((cells.id.as_str(), cells.title.as_deref()), ("m1", model("m1").name.as_deref()));
    assert_eq!(cells.pill.unwrap().icons, vec!["icons/modality-image.svg"]);
    assert!(matches!(cells.latency, LatencyCluster::Nothing));
}
