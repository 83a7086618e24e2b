use fintwind::computer_use::{ComputerUse, ComputerUsePreview};
use fintwind::desk::{Effect, PersistedState, Preferences, SessionRuntime};
use fintwind::driver_step::Wordings;
use fintwind::ids::{Stamp, Uuid};
use fintwind::keyed::{IdMap, IdSet, StrMap, StrSet};
use fintwind::live::Desk;
use fintwind::model::{AgentSession, Project, ProviderKind};
use fintwind::navigation::Navigation;
use fintwind::panels::Panels;
use fintwind::right_panel::RightPanel;
use fintwind::settings::{DaemonExposureSettings, Settings, SettingsEffect, SettingsPage};
use fintwind::shell::{CloseOutcome, Fintwind, FocusHandle, NavigationDirection, Screen};
use fintwind::sidebar::Sidebar;
use fintwind::surfaces::{px, RightPanelSurface};

const PROJECT: Uuid = Uuid { bits: 100 };

fn stamp(n: u64) -> Stamp {
    Stamp {
        secs: n,
        millis: n * 1000,
        id: Uuid::from_u128(1000 + u128::from(n)),
        turn: Uuid::from_u128(2000 + u128::from(n)),
    }
}

fn desk() -> Desk {
    let mut project = Project::stamped("/work/app".to_owned(), "app".to_owned(), false, stamp(0));
    project.id = PROJECT;
    let mut first = AgentSession::draft(PROJECT, stamp(1));
    first.begin_turn("one");
    let mut second = AgentSession::draft(PROJECT, stamp(2));
    second.begin_turn("two");
    Desk {
        state: PersistedState {
            sessions: vec![first, second],
            projects: vec![project],
            selected_session: Some(stamp(1).id),
            selected_project: Some(PROJECT),
            prefs: Preferences {
                last_provider: ProviderKind::OpenCode,
                last_model: None,
                last_reasoning_effort: None,
                last_service_tier: None,
                favorite_models: Vec::new(),
            },
            dirty: IdSet::new(),
        },
        runtimes: IdMap::new(),
        provider_retries: IdMap::new(),
        submission_preparations: IdSet::new(),
        response_fork_preparations: IdMap::new(),
        undo_redo_preparations: IdSet::new(),
        pending_queue_drains: Vec::new(),
        pending_checkpoint_captures: Vec::new(),
        checkpoint_captures_in_flight: Vec::new(),
        runtime_attach_pending: IdSet::new(),
        runtime_attach_misses: IdMap::new(),
        message_edit: None,
        navigation: Navigation { back: Vec::new(), forward: Vec::new() },
        composer_sources_stale: false,
        workspace_queries_stale: false,
        stream_state_dirty: false,
        effects: Vec::new(),
    }
}

fn app() -> Fintwind {
    Fintwind {
        composer: FocusHandle { id: 1 },
        settings_focus: FocusHandle { id: 2 },
        focused: None,
        desk: desk(),
        settings: Settings {
            page: None,
            search: String::new(),
            scroll: 0,
            token_revealed: false,
            exposure: DaemonExposureSettings {
                enabled: false,
                port: 4100,
                token: String::new(),
                allowed_origins: Vec::new(),
            },
            port_input: String::new(),
            origins_input: String::new(),
            reconfigure_pending: false,
            remote: false,
            hostname: String::new(),
            theme: String::new(),
            language: String::new(),
            header_drag_armed: false,
            toast: None,
            effects: Vec::new(),
        },
        right_panel: RightPanel {
            panels: Panels {
                sidebar_visible: true,
                right_panel_visible: false,
                sidebar_width: px(280),
                right_panel_width: px(400),
                file_tree_width: px(224),
                drag: None,
            },
            surfaces: Vec::new(),
            active_surface: None,
            pending_tab_reveal: None,
            expanded_paths: StrSet::new(),
            files_selected_path: None,
            file_editors: StrMap::new(),
            diff_files: Vec::new(),
            working_tree: Vec::new(),
            toast: None,
            states: IdMap::new(),
            terminals: IdMap::new(),
            pending_terminal_focus: None,
            effects: Vec::new(),
        },
        computer: IdMap::new(),
        computer_apps: Vec::new(),
        model_picker_tab: 0,
        model_picker_highlight: Some(3),
    }
}

#[test]
fn settings_are_left_before_sessions() {
    let mut a = app();
    a.desk.select_session(stamp(2).id);
    a.open_settings_action();
    assert_eq!(a.render(), Screen::Settings);
    assert_eq!(a.focused, Some(FocusHandle { id: 2 }));
    assert_eq!(a.settings.page, Some(SettingsPage::Appearance));
    a.navigate_forward_action();
    assert_eq!(a.render(), Screen::Settings);
    a.navigate_back_action();
    assert_eq!(a.desk.state.selected_session, Some(stamp(2).id));
    assert_eq!(a.focused, Some(a.composer_focus()));
    assert_eq!(a.settings.effects.last(), Some(&SettingsEffect::Notify));
    a.navigate_back_action();
    assert_eq!(a.desk.state.selected_session, Some(stamp(1).id));
    assert!(a.navigation_mouse_down(Some(NavigationDirection::Forward)));
    assert_eq!(a.desk.state.selected_session, Some(stamp(2).id));
    assert!(!a.navigation_mouse_down(None));
}

#[test]
fn new_sessions_get_the_focus() {
    let mut a = app();
    a.open_settings_action();
    a.new_session_action(stamp(9));
    assert_eq!(a.settings.page, None);
    assert_eq!(a.desk.state.selected_session, Some(stamp(9).id));
    assert_eq!(a.focused, Some(FocusHandle { id: 1 }));
    assert_eq!(a.render(), Screen::Main { sidebar: true, empty: true, composer: true, right_panel: false });
}

#[test]
fn projects_are_added_once() {
    let mut a = app();
    a.desk.add_project("/work/app".to_owned(), "app".to_owned(), false, stamp(20), stamp(21));
    assert_eq!(a.desk.state.projects.len(), 1);
    a.desk.add_project("/work/other".to_owned(), "other".to_owned(), false, stamp(22), stamp(23));
    assert_eq!(a.desk.state.projects.len(), 2);
    assert_eq!(a.desk.state.projects[1].name, "other");
    assert!(!a.desk.state.projects[1].is_projectless());
    a.desk.add_project("/scratch/task".to_owned(), "task".to_owned(), true, stamp(24), stamp(25));
    assert!(a.desk.state.projects[2].is_projectless());
    assert_eq!(a.desk.state.selected_session, Some(stamp(25).id));
}

#[test]
fn closing_takes_a_tab_first() {
    let mut a = app();
    assert_eq!(a.close_window_or_right_panel_tab_action(), CloseOutcome::HideWindow);
    a.right_panel.panels.right_panel_visible = true;
    a.right_panel.open_right_panel_surface(RightPanelSurface::Files, px(400), Some("/work/app"));
    assert_eq!(a.close_window_or_right_panel_tab_action(), CloseOutcome::TabClosed);
    assert!(a.right_panel.surfaces.is_empty());
}

#[test]
fn picking_a_tab_of_models_starts_over() {
    let mut a = app();
    assert!(!a.select_model_picker_tab(0));
    assert_eq!(a.model_picker_highlight, Some(3));
    assert!(a.select_model_picker_tab(1));
    assert_eq!(a.model_picker_tab, 1);
    assert_eq!(a.model_picker_highlight, None);
}

#[test]
fn panels_follow_the_session_on_screen() {
    let mut a = app();
    a.desk.select_session(stamp(2).id);
    let told: Vec<bool> = a
        .desk
        .effects
        .iter()
        .filter_map(|e| match e {
            Effect::StorePanelState(id) => Some(*id == stamp(1).id),
            Effect::RestorePanelState(id) => Some(*id == stamp(2).id),
            _ => None,
        })
        .collect();
    assert_eq!(told, vec![true, true]);
}

#[test]
fn answers_without_a_request_change_nothing() {
    let mut a = app();
    let id = a.desk.state.selected_session.unwrap();
    assert_eq!(a.respond_computer_permission("always"), None);
    assert!(!a.computer.contains_key(id));
    let mut session_grants = StrSet::new();
    session_grants.insert("editor".to_owned());
    let previews = vec![ComputerUsePreview { window_id: Some(1), image: 1 }];
    a.computer.insert(id, ComputerUse { pending: None, session_grants, previews });
    assert_eq!(a.respond_computer_permission("always"), None);
    let kept = a.computer.get(id).unwrap();
    assert!(kept.pending.is_none() && kept.session_grants.contains("editor"));
    assert_eq!(kept.previews.len(), 1);
    assert!(a.computer_apps.is_empty() && a.desk.effects.is_empty());
}

#[test]
fn stopping_puts_the_computer_away() {
    let words = Wordings {
        turn_completed: String::new(),
        stopped_before_response: String::new(),
        exited_before_response: String::new(),
        stopped: "Stopped".to_owned(),
    };
    let id = stamp(1).id;
    for provider in [ProviderKind::OpenCode, ProviderKind::Codex] {
        let mut a = app();
        a.desk.state.sessions[0].provider = provider;
        a.desk.put_runtime(id, SessionRuntime::new(true, stamp(3)));
        a.computer.insert(
            id,
            ComputerUse {
                pending: None,
                session_grants: StrSet::new(),
                previews: vec![ComputerUsePreview { window_id: Some(1), image: 1 }],
            },
        );
        a.cancel_turn_action(true, &words, stamp(9));
        match a.computer.get(id) {
            Some(computer) => assert!(provider == ProviderKind::OpenCode && computer.previews.is_empty()),
            None => assert_eq!(provider, ProviderKind::Codex),
        }
    }
}

#[test]
fn titles_are_changed_in_place() {
    let mut a = app();
    let mut sidebar = Sidebar::new();
    let id = stamp(1).id;
    assert!(sidebar.begin_session_rename(&a.desk, Uuid::nil()).is_none());
    assert!(sidebar.begin_session_rename(&a.desk, id).is_some());
    sidebar.commit_session_rename(&mut a.desk, "  Nice ", stamp(7));
    assert_eq!(a.desk.state.sessions[0].title, "Nice");
    assert!(a.desk.effects.iter().any(|e| matches!(
        e,
        Effect::RenameNativeSession { session_id, new_title } if *session_id == id && new_title == "Nice"
    )));
    a.desk.effects.clear();
    sidebar.commit_session_rename(&mut a.desk, "Other", stamp(8));
    assert!(a.desk.effects.is_empty());
    assert!(sidebar.begin_session_rename(&a.desk, id).is_some());
    assert!(sidebar.cancel_session_rename());
    assert!(!sidebar.cancel_session_rename());
    assert_eq!(a.desk.state.sessions[0].title, "Nice");
}
