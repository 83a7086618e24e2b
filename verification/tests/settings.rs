use fintwind::desk::Text;
use fintwind::ids::Uuid;
use fintwind::model::{AgentSession, SessionStatus};
use fintwind::settings::{
    next_picker_highlight, visible_settings_pages, DaemonExposureSettings, Settings, SettingsEffect, SettingsPage,
};

fn exposure() -> DaemonExposureSettings {
    DaemonExposureSettings { enabled: false, port: 4100, token: "old".to_owned(), allowed_origins: Vec::new() }
}

fn settings() -> Settings {
    Settings {
        page: None,
        search: String::new(),
        scroll: 0,
        token_revealed: false,
        exposure: exposure(),
        port_input: "4100".to_owned(),
        origins_input: String::new(),
        reconfigure_pending: false,
        remote: false,
        hostname: "box.local".to_owned(),
        theme: "system".to_owned(),
        language: "en".to_owned(),
        header_drag_armed: false,
        toast: None,
        effects: Vec::new(),
    }
}

fn words() -> Vec<String> {
    ["General local", "Appearance THEME", "Providers model", "Skills", "MCP servers", "Daemon port"]
        .iter()
        .map(|w| (*w).to_owned())
        .collect()
}

#[test]
fn the_search_ignores_case_and_wraps() {
    assert_eq!(visible_settings_pages("theme", &words()), vec![SettingsPage::Appearance]);
    assert_eq!(visible_settings_pages("", &words()).len(), 6);
    let mut s = settings();
    s.search = "  MODEL ".to_owned();
    assert_eq!(s.settings_search_query(), "model");
    s.cycle_settings_page("down", &words());
    assert_eq!(s.page, Some(SettingsPage::Providers));
    s.search = String::new();
    s.page = Some(SettingsPage::Daemon);
    s.cycle_settings_page("down", &words());
    assert_eq!(s.page, Some(SettingsPage::General));
    s.cycle_settings_page("up", &words());
    assert_eq!(s.page, Some(SettingsPage::Daemon));
    s.cycle_settings_page("left", &words());
    assert_eq!(s.page, Some(SettingsPage::Daemon));
}

#[test]
fn rows_wrap_at_both_ends() {
    assert_eq!(next_picker_highlight(None, 3, "down"), Some(0));
    assert_eq!(next_picker_highlight(None, 3, "up"), Some(2));
    assert_eq!(next_picker_highlight(Some(2), 3, "down"), Some(0));
    assert_eq!(next_picker_highlight(Some(0), 3, "up"), Some(2));
    assert_eq!(next_picker_highlight(Some(0), 0, "up"), None);
}

#[test]
fn escape_clears_the_search_before_it_closes() {
    let mut s = settings();
    s.search = "x".to_owned();
    assert!(!s.clear_search());
    assert_eq!(s.search, "");
    assert!(s.clear_search());
}

#[test]
fn opening_a_page_hides_the_token() {
    let mut s = settings();
    s.token_revealed = true;
    s.scroll = -900;
    s.open_settings_page(SettingsPage::Providers);
    assert!(!s.token_revealed);
    assert_eq!(s.scroll, 0);
    assert_eq!(s.effects, vec![SettingsEffect::ResetProviders, SettingsEffect::Notify]);
    assert_eq!(s.render_settings_content(), (SettingsPage::Providers, true, false));
}

#[test]
fn the_port_must_make_sense() {
    let mut s = settings();
    for text in ["", "0", "65536", "http"] {
        s.port_input = text.to_owned();
        assert_eq!(s.port_in_field(), None);
        assert!(s.daemon_exposure_fields_dirty(Ok(exposure())));
    }
    s.apply_daemon_exposure_fields(Ok(exposure()), &Vec::new());
    let note = s.toast.as_ref().unwrap();
    assert!(!note.good);
    assert!(matches!(&note.error, Some(Text::Key("daemon.invalid_port", _))));
    assert!(s.exposure_to_check().is_none());
    s.port_input = " 8080 ".to_owned();
    s.origins_input = "https://a".to_owned();
    assert_eq!(s.port_in_field(), Some(8080));
    let (asked, origins) = s.exposure_to_check().unwrap();
    assert_eq!((asked.port, asked.token.as_str(), origins.as_str()), (8080, "old", "https://a"));
    s.apply_daemon_exposure_fields(Err("bad origin".to_owned()), &Vec::new());
    assert!(matches!(&s.toast.as_ref().unwrap().error, Some(Text::Plain(text)) if text == "bad origin"));
}

#[test]
fn the_daemon_restarts_before_settings_count() {
    let mut s = settings();
    let wanted = s.set_daemon_exposure_enabled(true, Ok(exposure()), &Vec::new()).unwrap();
    assert!(wanted.enabled);
    assert!(!s.exposure.enabled);
    assert!(s.reconfigure_pending);
    assert!(s.set_daemon_exposure_enabled(true, Ok(exposure()), &Vec::new()).is_none());
    s.finish_daemon_exposure(wanted, "https://a".to_owned(), None);
    assert!(s.exposure.enabled && !s.reconfigure_pending);
    assert_eq!(s.port_input, "4100");
    assert!(s.effects.contains(&SettingsEffect::ClearRuntimes));
    assert!(s.toast.as_ref().unwrap().good);

    let again = s.regenerate_daemon_token("new".to_owned(), Ok(s.exposure.clone()), &Vec::new()).unwrap();
    s.finish_daemon_exposure(again, String::new(), Some("port taken".to_owned()));
    assert_eq!(s.exposure.token, "old");
    assert!(!s.toast.as_ref().unwrap().good);
}

#[test]
fn running_tasks_and_remote_daemons_stand_against_it() {
    let mut s = settings();
    let mut busy = AgentSession::new(Uuid::from_u128(1));
    busy.status = SessionStatus::Working;
    assert!(s.set_daemon_exposure_enabled(true, Ok(exposure()), &vec![busy]).is_none());
    assert!(matches!(&s.toast.as_ref().unwrap().text, Text::Key("daemon.stop_active_tasks", _)));
    s.remote = true;
    assert!(s.set_daemon_exposure_enabled(true, Ok(exposure()), &Vec::new()).is_none());
    assert!(matches!(&s.toast.as_ref().unwrap().text, Text::Key("daemon.external_description", _)));
    assert!(s.render_daemon_settings(Ok(exposure()), (false, false)).is_none());
}

#[test]
fn changes_of_a_daemon_that_does_not_listen_count_at_once() {
    let mut s = settings();
    let mut other = exposure();
    other.port = 5000;
    s.port_input = "5000".to_owned();
    assert!(s.apply_daemon_exposure_fields(Ok(other), &Vec::new()).is_none());
    assert_eq!(s.exposure.port, 5000);
    assert_eq!(s.effects, vec![SettingsEffect::Save, SettingsEffect::Notify]);
}

#[test]
fn the_page_of_the_daemon() {
    let mut s = settings();
    let page = s.render_daemon_settings(Ok(exposure()), (true, false)).unwrap();
    assert_eq!(page.url, "ws://box.local:4100");
    assert_eq!(page.status, "daemon.status_local");
    assert!(page.apply_disabled);
    assert_eq!(page.token.chars().count(), 32);
    assert_eq!((page.copy_url_label, page.copy_token_label), ("common.copied", "common.copy"));
    s.toggle_daemon_token();
    let page = s.render_daemon_settings(Ok(exposure()), (false, false)).unwrap();
    assert_eq!((page.token.as_str(), page.reveal_icon), ("old", "icons/eye-off.svg"));
}

#[test]
fn the_header_drags_once() {
    let mut s = settings();
    s.drag_header();
    assert!(s.effects.is_empty());
    s.arm_header_drag(true);
    s.drag_header();
    s.drag_header();
    assert_eq!(s.effects, vec![SettingsEffect::StartWindowMove]);
}

#[test]
fn theme_and_language() {
    let mut s = settings();
    s.set_theme_preference("system");
    s.set_language("en");
    assert!(s.effects.is_empty());
    s.set_theme_preference("dark");
    s.set_language("de");
    assert_eq!((s.theme.as_str(), s.language.as_str()), ("dark", "de"));
    assert_eq!(s.effects.len(), 11);
    let names: Vec<String> = ["system", "dark"].iter().map(|n| (*n).to_owned()).collect();
    assert_eq!(s.render_appearance_settings(&names, &names), (vec![false, true], vec![false, false]));
}
