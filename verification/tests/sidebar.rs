use fintwind::desk::Text;
use fintwind::ids::Uuid;
use fintwind::model::{AgentSession, Project, ProviderKind};
use fintwind::ranking::{order, Ranked};
use fintwind::sessions::retain_runtime_after_cancel;
use fintwind::sidebar::{
    reveal_sidebar_group_session, sidebar_group_body_height, Sidebar, SidebarRow, SIDEBAR_GROUP_BODY_MAX_HEIGHT,
    SIDEBAR_SESSION_ROW_HEIGHT,
};
use fintwind::sidebar_groups::{sidebar_project_groups, sidebar_session_timestamp};
use fintwind::sidebar_views::{format_time_ago, presses, sidebar_session_selected};

fn session_started_at(project_id: Uuid, replied_at: u64) -> AgentSession {
    let mut session = AgentSession::new(project_id);
    session.begin_turn("Start it");
    session.created_at = replied_at;
    session.last_reply_at = Some(replied_at);
    session
}

#[test]
fn sessions_are_grouped_by_project_with_the_newest_project_first() {
    let project_a = Uuid::new_v4();
    let project_b = Uuid::new_v4();
    let a_old = session_started_at(project_a, 10);
    let a_new = session_started_at(project_a, 100);
    let b_only = session_started_at(project_b, 50);

    let groups = sidebar_project_groups(&[a_old.clone(), b_only.clone(), a_new.clone()], &[]);
    assert_eq!(groups, vec![(project_a, vec![a_new.id, a_old.id]), (project_b, vec![b_only.id])]);
}

#[test]
fn unstarted_sessions_stay_out_of_the_sidebar() {
    let project = Uuid::new_v4();
    let draft = AgentSession::new(project);
    assert!(sidebar_project_groups(&[draft], &[]).is_empty());
}

#[test]
fn projects_without_sessions_keep_a_group() {
    let active = Uuid::new_v4();
    let session = session_started_at(active, 50);
    let mut stale = Project::from_path("C:\\stale".into(), "stale".into(), false);
    stale.created_at = 10;
    let mut fresh = Project::from_path("C:\\fresh".into(), "fresh".into(), false);
    fresh.created_at = 100;

    let groups = sidebar_project_groups(&[session.clone()], &[stale.clone(), fresh.clone()]);
    assert_eq!(groups, vec![(fresh.id, vec![]), (active, vec![session.id]), (stale.id, vec![])]);
}

#[test]
fn projectless_projects_wait_for_a_started_session() {
    let projectless = Project::from_path("/scratch/task".into(), "task".into(), true);
    assert!(projectless.is_projectless());
    let started = session_started_at(projectless.id, 5);
    assert!(sidebar_project_groups(&[], &[projectless.clone()]).is_empty());
    assert_eq!(
        sidebar_project_groups(&[started.clone()], &[projectless.clone()]),
        vec![(projectless.id, vec![started.id])]
    );
}

#[test]
fn an_unfolded_group_caps_its_body_height() {
    assert_eq!(sidebar_group_body_height(0), 0);
    assert_eq!(sidebar_group_body_height(2), SIDEBAR_SESSION_ROW_HEIGHT * 2);
    assert_eq!(sidebar_group_body_height(6), SIDEBAR_GROUP_BODY_MAX_HEIGHT);
    assert_eq!(sidebar_group_body_height(200), SIDEBAR_GROUP_BODY_MAX_HEIGHT);
}

#[test]
fn sidebar_recency_uses_last_reply_with_creation_fallback() {
    let project_id = Uuid::new_v4();
    let mut renamed_old_session = AgentSession::new(project_id);
    renamed_old_session.created_at = 10;
    renamed_old_session.last_reply_at = Some(20);
    renamed_old_session.updated_at = 1_000;

    let mut newer_unanswered_session = AgentSession::new(project_id);
    newer_unanswered_session.created_at = 30;
    newer_unanswered_session.last_reply_at = None;
    newer_unanswered_session.updated_at = 30;

    assert_eq!(sidebar_session_timestamp(&renamed_old_session), 20);
    assert_eq!(sidebar_session_timestamp(&newer_unanswered_session), 30);

    let mut sessions = [&renamed_old_session, &newer_unanswered_session];
    sessions.sort_by_key(|session| std::cmp::Reverse(sidebar_session_timestamp(session)));
    assert_eq!(sessions[0].id, newer_unanswered_session.id);
}

#[test]
fn pending_session_replaces_sidebar_selection_immediately() {
    let current = Uuid::from_u128(1);
    let pending = Uuid::from_u128(2);

    assert!(!sidebar_session_selected(Some(current), Some(pending), current));
    assert!(sidebar_session_selected(Some(current), Some(pending), pending));
    assert!(sidebar_session_selected(Some(current), None, current));
}

#[test]
fn stopping_releases_the_runtimes_that_cannot_be_interrupted_in_place() {
    assert!(!retain_runtime_after_cancel(ProviderKind::Codex));
    assert!(!retain_runtime_after_cancel(ProviderKind::Amp));
    for provider in ProviderKind::all() {
        if !matches!(provider, ProviderKind::Codex | ProviderKind::Amp) {
            assert!(retain_runtime_after_cancel(provider));
        }
    }
}

#[test]
fn rows_separate_their_groups() {
    let a = Uuid::from_u128(1);
    let b = Uuid::from_u128(2);
    let sessions = [session_started_at(a, 10), session_started_at(b, 20)];
    let mut sidebar = Sidebar::new();
    let rows = sidebar.sidebar_rows_cached(&sessions, &[]);
    assert!(matches!(rows[0], SidebarRow::Search));
    let groups = rows.iter().filter(|row| matches!(row, SidebarRow::Group(_))).count();
    let spacers = rows.iter().filter(|row| matches!(row, SidebarRow::GroupSpacer)).count();
    assert_eq!((groups, spacers), (2, 2));
    match &rows[1] {
        SidebarRow::Group(group) => assert_eq!(group.project_id, b),
        _ => panic!("a group comes first"),
    }
}

#[test]
fn groups_fold_and_unfold() {
    let project = Uuid::from_u128(5);
    let mut sidebar = Sidebar::new();
    assert!(sidebar.toggle_sidebar_group(project));
    assert!(sidebar.expanded.contains(project));
    assert!(sidebar.set_sidebar_group_collapsed(project, true));
    assert!(!sidebar.set_sidebar_group_collapsed(project, true));
}

#[test]
fn equal_ranks_keep_their_order() {
    let ranked = order(&vec![
        Ranked { at: 5, index: 0 },
        Ranked { at: 9, index: 1 },
        Ranked { at: 5, index: 2 },
    ]);
    assert_eq!(ranked.iter().map(|r| r.index).collect::<Vec<_>>(), vec![1, 0, 2]);
}

#[test]
fn a_session_out_of_view_is_scrolled_to() {
    assert_eq!(reveal_sidebar_group_session(3, 2, 0), None);
    assert_eq!(reveal_sidebar_group_session(10, 8, 0), Some(3));
    assert_eq!(reveal_sidebar_group_session(10, 0, 200), Some(0));
}

#[test]
fn ages_are_told_in_the_largest_unit() {
    assert!(matches!(format_time_ago(5), Text::Key("sidebar.just_now", args) if args.is_empty()));
    assert!(matches!(format_time_ago(120), Text::Key("sidebar.minutes_ago", args) if args[0].value == "2"));
    assert!(matches!(format_time_ago(7_200), Text::Key("sidebar.hours_ago", args) if args[0].value == "2"));
    assert!(matches!(format_time_ago(172_800), Text::Key("sidebar.days_ago", args) if args[0].value == "2"));
}

#[test]
fn enter_and_space_press() {
    assert!(presses("enter"));
    assert!(presses("space"));
    assert!(!presses("escape"));
}
