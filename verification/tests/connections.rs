use fintwind::attachments::{mark_unloaded, merge_remote_session_catalog, Attachment, RemoteTaskState};
use fintwind::computer_use::{
    ComputerAppGrant, ComputerReply, ComputerUse, ComputerUsePreview, PendingComputerApproval,
};
use fintwind::desk::{Effect, PersistedState, Preferences, SessionRuntime};
use fintwind::file_editors::Query;
use fintwind::hosting::{
    prepare_submission, prepared_workspace, start_directory, SyncAction, SyncEvent, SyncState, WorkspaceStep,
    PROJECTLESS_WORKTREE,
};
use fintwind::ids::{Stamp, Uuid};
use fintwind::keyed::{IdMap, IdSet, StrSet};
use fintwind::live::Desk;
use fintwind::model::{AgentSession, Project, ProviderKind, SessionStatus, SessionWorkspace, TurnStatus};
use fintwind::navigation::Navigation;
use fintwind::visible_state::{VisibleState, WorkspaceEffect, WorkspaceQueries};

const PROJECT: Uuid = Uuid { bits: 100 };

fn stamp(n: u64) -> Stamp {
    Stamp {
        secs: n,
        millis: n * 1000,
        id: Uuid::from_u128(1000 + u128::from(n)),
        turn: Uuid::from_u128(2000 + u128::from(n)),
    }
}

fn task(n: u64, title: &str) -> AgentSession {
    let mut session = AgentSession::draft(PROJECT, stamp(n));
    session.title = title.to_owned();
    session.begin_turn("prompt");
    session
}

fn desk(sessions: Vec<AgentSession>) -> Desk {
    let mut project = Project::stamped("/work/app".to_owned(), "app".to_owned(), false, stamp(0));
    project.id = PROJECT;
    Desk {
        state: PersistedState {
            sessions,
            projects: vec![project],
            selected_session: None,
            selected_project: Some(PROJECT),
            prefs: Preferences {
                last_provider: ProviderKind::OpenCode,
                last_model: None,
                last_reasoning_effort: None,
                last_service_tier: None,
                favorite_models: Vec::new(),
            },
            dirty: IdSet::new(),
        },
        runtimes: IdMap::new(),
        provider_retries: IdMap::new(),
        submission_preparations: IdSet::new(),
        response_fork_preparations: IdMap::new(),
        undo_redo_preparations: IdSet::new(),
        pending_queue_drains: Vec::new(),
        pending_checkpoint_captures: Vec::new(),
        checkpoint_captures_in_flight: Vec::new(),
        runtime_attach_pending: IdSet::new(),
        runtime_attach_misses: IdMap::new(),
        message_edit: None,
        navigation: Navigation { back: Vec::new(), forward: Vec::new() },
        composer_sources_stale: false,
        workspace_queries_stale: false,
        stream_state_dirty: false,
        effects: Vec::new(),
    }
}

#[test]
fn listed_sessions_keep_their_transcripts() {
    let mut local = vec![task(1, "here"), task(2, "gone")];
    let mut listed = AgentSession::draft(PROJECT, stamp(1));
    listed.title = "renamed".to_owned();
    let gone = merge_remote_session_catalog(&mut local, vec![listed, task(3, "new")], &Vec::new());
    assert_eq!(gone, vec![stamp(2).id]);
    assert_eq!(local.iter().map(|s| s.title.as_str()).collect::<Vec<_>>(), vec!["renamed", "new"]);
    assert_eq!(local[0].messages.len(), 1);
}

#[test]
fn merging_the_same_list_again_changes_nothing() {
    let listed = || {
        let mut renamed = AgentSession::draft(PROJECT, stamp(1));
        renamed.title = "renamed".to_owned();
        vec![renamed, task(3, "new")]
    };
    let mut local = vec![task(1, "here"), task(2, "gone"), AgentSession::draft(PROJECT, stamp(4))];
    let _ = merge_remote_session_catalog(&mut local, listed(), &vec![stamp(1).id]);
    let once = format!("{local:?}");
    assert!(merge_remote_session_catalog(&mut local, listed(), &vec![stamp(1).id]).is_empty());
    assert_eq!(format!("{local:?}"), once);
}

#[test]
fn unloaded_sessions_are_marked() {
    let mut listed = vec![task(1, "a"), task(2, "b")];
    mark_unloaded(&mut listed);
    assert!(listed.iter().all(|s| !s.detail_loaded));
}

#[test]
fn missing_runtimes_are_given_up_after_some_tries() {
    let mut busy = task(1, "busy");
    busy.status = SessionStatus::Working;
    let id = busy.id;
    let mut d = desk(vec![busy]);
    let mut tries: u32 = 0;
    while d.state.sessions[0].status == SessionStatus::Working && tries < 20 {
        d.start_runtime_attachment(id);
        d.finish_runtime_attachment(id, Attachment::Missing, stamp(50));
        tries += 1;
    }
    assert!(tries > 1 && tries < 20);
    assert_eq!(d.state.sessions[0].turns[0].status, TurnStatus::Interrupted);
    assert!(!d.has_runtime(id));
}

#[test]
fn attached_runtimes_take_the_session_over() {
    let mut busy = task(1, "busy");
    busy.status = SessionStatus::Working;
    let id = busy.id;
    let mut d = desk(vec![busy]);
    d.finish_runtime_attachment(id, Attachment::Failed, stamp(50));
    assert!(!d.has_runtime(id));
    d.start_runtime_attachment(id);
    d.start_runtime_attachment(id);
    assert_eq!(d.effects.len(), 1);
    let mut fresh = task(1, "fresh");
    fresh.status = SessionStatus::Working;
    d.finish_runtime_attachment(id, Attachment::Attached { session: fresh, supports_steer: true }, stamp(51));
    assert!(d.has_runtime(id));
    assert_eq!(d.state.sessions[0].title, "fresh");
}

#[test]
fn idle_runtimes_are_closed_in_their_time() {
    let mut d = desk(vec![task(1, "a")]);
    let id = stamp(1).id;
    d.put_runtime(id, SessionRuntime::new(false, stamp(2)));
    assert!(!d.reap_idle_sessions(&vec![id], 9, 10));
    assert!(d.has_runtime(id));
    assert!(d.reap_idle_sessions(&vec![id], 10, 10));
    assert!(!d.has_runtime(id));
    assert!(d.effects.iter().any(|e| matches!(e, Effect::DriverClose(closed) if *closed == id)));
}

#[test]
fn the_state_of_the_daemon_is_taken_over() {
    let mut d = desk(vec![task(1, "a")]);
    let remote = RemoteTaskState { projects: Vec::new(), sessions: vec![task(1, "a"), task(2, "b")] };
    assert!(d.drain_task_state_sync_events(vec![Err("late".to_owned()), Ok(remote)], stamp(9)));
    assert_eq!(d.state.sessions.len(), 2);
    assert!(!d.drain_task_state_sync_events(Vec::new(), stamp(9)));
}

#[test]
fn sync_survives_broken_connections() {
    let (state, action) = SyncState::Waiting.restart_task_state_sync(SyncEvent::Client);
    assert_eq!(action, SyncAction::LoadFromNewest);
    let (state, action) = state.restart_task_state_sync(SyncEvent::Sent);
    assert_eq!(action, SyncAction::Select);
    let (state, action) = state.restart_task_state_sync(SyncEvent::Revision);
    assert_eq!(action, SyncAction::LoadAgain);
    let (state, _) = state.restart_task_state_sync(SyncEvent::Sent);
    let (state, action) = state.restart_task_state_sync(SyncEvent::RevisionsClosed);
    assert_eq!((state, action), (SyncState::Broken, SyncAction::ReceiveClient));
    let (state, _) = state.restart_task_state_sync(SyncEvent::Client);
    assert_eq!(state.restart_task_state_sync(SyncEvent::ResultsClosed).1, SyncAction::Stop);
    assert_eq!(SyncState::Watching.restart_task_state_sync(SyncEvent::ClientsClosed).1, SyncAction::Stop);
}

#[test]
fn worktrees_need_a_project() {
    let mut project = Project::stamped("/work/app".to_owned(), "app".to_owned(), false, stamp(0));
    let fresh = SessionWorkspace::NewWorktree { base_branch: "main".to_owned() };
    assert!(matches!(prepare_submission(&project, &SessionWorkspace::Local), Ok(WorkspaceStep::Ready)));
    assert!(matches!(
        prepare_submission(&project, &fresh),
        Ok(WorkspaceStep::CreateWorktree { base_branch }) if base_branch == "main"
    ));
    project.projectless = true;
    assert!(matches!(prepare_submission(&project, &fresh), Err(PROJECTLESS_WORKTREE)));
    let made = prepared_workspace(fresh, Some(("/trees/a".to_owned(), "a".to_owned())));
    assert_eq!(start_directory(&made, &project), "/trees/a");
    assert_eq!(start_directory(&prepared_workspace(SessionWorkspace::Local, None), &project), "/work/app");
}

fn approval(persistable: bool) -> PendingComputerApproval {
    PendingComputerApproval {
        grant_key: "session:app".to_owned(),
        persistable,
        grant: ComputerAppGrant { bundle_id: "app".to_owned(), app_name: "App".to_owned(), key: "app".to_owned() },
    }
}

fn preview(window: u32) -> ComputerUsePreview {
    ComputerUsePreview { window_id: Some(window), image: u64::from(window) }
}

fn computer(persistable: bool) -> ComputerUse {
    ComputerUse {
        pending: Some(approval(persistable)),
        session_grants: StrSet::new(),
        previews: vec![preview(1), preview(2), preview(3)],
    }
}

#[test]
fn apps_are_allowed_as_long_as_was_said() {
    let mut apps = Vec::new();
    let mut c = computer(true);
    assert_eq!(c.respond_computer_permission("deny", &mut apps), Some((ComputerReply::Reject, false)));
    assert_eq!(c.respond_computer_permission("deny", &mut apps), None);
    assert!(!c.session_grants.contains("session:app"));
    let mut c = computer(true);
    assert_eq!(c.respond_computer_permission("session", &mut apps), Some((ComputerReply::Run, false)));
    assert!(c.session_grants.contains("session:app"));
    assert!(apps.is_empty());
    let mut c = computer(false);
    assert_eq!(c.respond_computer_permission("always", &mut apps), Some((ComputerReply::Run, false)));
    let mut c = computer(true);
    assert_eq!(c.respond_computer_permission("always", &mut apps), Some((ComputerReply::Run, true)));
    let mut c = computer(true);
    assert_eq!(c.respond_computer_permission("always", &mut apps), Some((ComputerReply::Run, false)));
    assert_eq!(apps.len(), 1);
}

#[test]
fn windows_come_forward_and_go() {
    let windows = |c: &ComputerUse| c.previews.iter().map(|p| p.window_id.unwrap()).collect::<Vec<_>>();
    let mut c = computer(true);
    c.bring_computer_use_to_front(1);
    assert_eq!(windows(&c), vec![2, 3, 1]);
    c.bring_computer_use_to_front(9);
    assert_eq!(windows(&c), vec![2, 3, 1]);
    c.dismiss_computer_use(3);
    assert_eq!(windows(&c), vec![2, 1]);
}

#[test]
fn layouts_are_kept_up_to_a_limit() {
    let state = |layouts: u128| {
        let mut message_markdown = IdMap::new();
        for n in 0..layouts {
            message_markdown.insert(Uuid::from_u128(n), 100);
        }
        VisibleState {
            reasoning_expanded: IdSet::new(),
            activities_expanded: IdSet::new(),
            expanded_activity_items: IdSet::new(),
            expanded_turns: IdSet::new(),
            selecting: true,
            message_markdown,
            block_markdown: vec![1],
            open_menus: vec![7],
            toast: Some("old".to_owned()),
            rail_scale_enabled: true,
            rail_reset_generation: u64::MAX,
            anchor: Some(Uuid::from_u128(1)),
            anchor_end_space: 5,
            anchor_following: true,
        }
    };
    let mut few = state(1);
    few.reset_visible_state(1_000);
    assert!(few.message_markdown.contains_key(Uuid::from_u128(0)));
    assert!(!few.selecting && few.block_markdown.is_empty() && few.anchor.is_none() && few.toast.is_none());
    assert_eq!(few.rail_reset_generation, 0);
    let mut many = state(20);
    many.reset_visible_state(1_000);
    assert!(!many.message_markdown.contains_key(Uuid::from_u128(0)));
}

#[test]
fn branches_are_looked_up_for_the_project_on_screen() {
    let mut q = WorkspaceQueries { branch: Some("old".to_owned()), effects: Vec::new() };
    q.refresh_branch(true, Query::Missing(4));
    assert_eq!(q.effects, vec![WorkspaceEffect::LookUpBranch(4)]);
    q.finish_branch(true, "/a", Some("/b"), Some("main".to_owned()));
    assert_eq!(q.branch.as_deref(), Some("old"));
    q.finish_branch(true, "/a", Some("/a"), Some("main".to_owned()));
    assert_eq!(q.branch.as_deref(), Some("main"));
    q.refresh_branch(false, Query::Pending);
    assert_eq!(q.branch, None);
}

#[test]
fn new_ids_are_random() {
    let (a, b) = (Uuid::new_v4(), Uuid::new_v4());
    assert_ne!(a, b);
    assert_ne!(a, Uuid::nil());
    assert_eq!((a.bits >> 76) & 0xf, 4);
    let s = Stamp::take();
    assert!(s.millis / 1000 == s.secs && s.secs > 1_600_000_000);
}
