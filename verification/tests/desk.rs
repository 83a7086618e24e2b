use std::collections::VecDeque;

use fintwind::desk::{
    ComposerSubmission, DriverStart, Effect, PersistedState, Preferences, SessionRuntime, Text,
};
use fintwind::driver_step::Wordings;
use fintwind::events::{pop_stream_batch, DriverEvent, PermissionOption, StreamDeltaKind};
use fintwind::forks::{perform_provider_rewind, perform_response_fork, plan_response_fork, ProviderRequest};
use fintwind::ids::{Stamp, Uuid};
use fintwind::keyed::{IdMap, IdSet, StrMap, StrSet};
use fintwind::live::Desk;
use fintwind::model::{
    AgentSession, Attachment, Checkpoint, CheckpointStatus, CompactionState, CompactionStatus, InteractionMode,
    MessageRole, Project, ProviderKind, ProviderResumeCursor, RuntimeMode, SessionStatus, SessionWorkspace, TurnStatus,
};
use fintwind::navigation::Navigation;
use fintwind::preparations::{PreparedDriver, PreparedSubmission};
use fintwind::probes::{Catalog, ModelOption, ProviderModel, ProviderProbe};
use fintwind::stopping::{EventPumpSchedule, Received};
use fintwind::submissions::is_compact_submission;

const PROJECT: Uuid = Uuid { bits: 100 };
const TASK: Uuid = Uuid { bits: 1001 };

fn stamp(n: u64) -> Stamp {
    Stamp {
        secs: n,
        millis: n * 1000,
        id: Uuid::from_u128(1000 + u128::from(n)),
        turn: Uuid::from_u128(2000 + u128::from(n)),
    }
}

fn words() -> Wordings {
    Wordings {
        turn_completed: "Done".to_owned(),
        stopped_before_response: "Stopped early".to_owned(),
        exited_before_response: "Exited".to_owned(),
        stopped: "Stopped".to_owned(),
    }
}

fn model(id: &str) -> ProviderModel {
    ProviderModel {
        id: id.to_owned(),
        name: id.to_uppercase(),
        is_default: false,
        reasoning_efforts: vec![ModelOption { id: "high".to_owned(), label: "High".to_owned() }],
        default_reasoning_effort: None,
        service_tiers: Vec::new(),
        context_windows: Vec::new(),
    }
}

fn catalog() -> Catalog {
    Catalog {
        probes: vec![ProviderProbe {
            installed: true,
            path: Some("/bin/opencode".to_owned()),
            models: vec![model("a/small"), model("a/big")],
            preferred_model: Some(0),
            agent_presets: Vec::new(),
            preferred_preset: None,
        }],
        provider_model_discoveries: StrSet::new(),
        provider_model_discoveries_pending: StrSet::new(),
        provider_version_probes_pending: StrSet::new(),
        provider_versions: StrMap::new(),
        provider_detection_remaining: 0,
        provider_detection_checked_at: None,
    }
}

fn desk() -> Desk {
    let mut project = Project::stamped("/work/app".to_owned(), "app".to_owned(), false, stamp(0));
    project.id = PROJECT;
    let mut session = AgentSession::draft(PROJECT, stamp(1));
    session.provider = ProviderKind::OpenCode;
    Desk {
        state: PersistedState {
            sessions: vec![session],
            projects: vec![project],
            selected_session: Some(TASK),
            selected_project: Some(PROJECT),
            prefs: Preferences {
                last_provider: ProviderKind::OpenCode,
                last_model: None,
                last_reasoning_effort: None,
                last_service_tier: None,
                favorite_models: Vec::new(),
            },
            dirty: IdSet::new(),
        },
        runtimes: IdMap::new(),
        provider_retries: IdMap::new(),
        submission_preparations: IdSet::new(),
        response_fork_preparations: IdMap::new(),
        undo_redo_preparations: IdSet::new(),
        pending_queue_drains: Vec::new(),
        pending_checkpoint_captures: Vec::new(),
        checkpoint_captures_in_flight: Vec::new(),
        runtime_attach_pending: IdSet::new(),
        runtime_attach_misses: IdMap::new(),
        message_edit: None,
        navigation: Navigation { back: Vec::new(), forward: Vec::new() },
        composer_sources_stale: false,
        workspace_queries_stale: false,
        stream_state_dirty: false,
        effects: Vec::new(),
    }
}

fn ask(desk: &mut Desk, prompt: &str, n: u64) {
    desk.submit_composer_submission(ComposerSubmission::plain(prompt.to_owned()), &catalog(), stamp(n));
}

fn start(desk: &mut Desk, prompt: &str, n: u64) {
    ask(desk, prompt, n);
    desk.finish_submission_preparation(
        TASK,
        ComposerSubmission::plain(prompt.to_owned()),
        Ok(PreparedSubmission {
            workspace: SessionWorkspace::Local,
            checkpoint_warning: None,
            driver: PreparedDriver::Started { supports_steer: true },
        }),
        None,
        "gone".to_owned(),
        stamp(n + 1),
    );
}

fn tell(desk: &mut Desk, event: DriverEvent, n: u64) {
    let mut runtime = desk.take_runtime(TASK).unwrap();
    desk.handle_driver_event(TASK, &mut runtime, event, true, true, &words(), stamp(n));
    desk.put_runtime(TASK, runtime);
}

fn text(part: &str, delta: &str) -> DriverEvent {
    DriverEvent::TextDelta { part: part.to_owned(), delta: delta.to_owned() }
}

fn finished(success: bool) -> DriverEvent {
    DriverEvent::TurnFinished { success, summary: None }
}

fn session(desk: &Desk) -> &AgentSession {
    &desk.state.sessions[desk.state.session_index(TASK).unwrap()]
}

fn toasts(desk: &Desk) -> Vec<String> {
    desk.effects
        .iter()
        .filter_map(|e| match e {
            Effect::Toast(Text::Key(key, _)) => Some((*key).to_owned()),
            Effect::Toast(Text::Plain(text)) => Some(text.clone()),
            _ => None,
        })
        .collect()
}

fn checkpoint(turn_count: usize) -> Checkpoint {
    Checkpoint {
        turn_count,
        git_ref: "refs/x".to_owned(),
        status: CheckpointStatus::Ready,
        files: Vec::new(),
        additions: 1,
        deletions: 2,
        created_at: 9,
    }
}

#[test]
fn a_prompt_is_answered() {
    let mut d = desk();
    ask(&mut d, "Fix the bug", 10);
    assert_eq!(session(&d).status, SessionStatus::Connecting);
    assert_eq!(session(&d).messages[0].content, "Fix the bug");
    assert_eq!(session(&d).turns.len(), 1);
    assert!(d.submission_preparations.contains(TASK));
    assert!(d.effects.iter().any(|e| matches!(
        e,
        Effect::PrepareSubmission { turn_count: 1, driver: DriverStart::Start(options), prompt, .. }
            if options.binary == "/bin/opencode" && prompt == "Fix the bug" && options.cwd == "/work/app"
    )));
    let mut d = desk();
    start(&mut d, "Fix the bug", 10);
    assert!(!d.submission_preparations.contains(TASK));
    assert!(d.effects.iter().any(|e| matches!(e, Effect::DriverPrompt { prompt, .. } if prompt == "Fix the bug")));
    tell(&mut d, DriverEvent::TurnStarted, 20);
    assert_eq!(session(&d).status, SessionStatus::Working);
    tell(&mut d, text("p", "Hel"), 21);
    tell(&mut d, text("p", "lo"), 22);
    assert_eq!(session(&d).messages.len(), 2);
    assert_eq!(session(&d).messages[1].content, "Hello");
    assert!(session(&d).messages[1].streaming);
    tell(&mut d, finished(true), 23);
    assert_eq!(session(&d).status, SessionStatus::Idle);
    assert_eq!(session(&d).turns[0].status, TurnStatus::Completed);
    assert!(!session(&d).messages[1].streaming);
    assert_eq!(session(&d).messages.len(), 2);
}

#[test]
fn reports_about_other_sessions_change_nothing_here() {
    let mut d = desk();
    start(&mut d, "one", 10);
    let mut other = AgentSession::draft(PROJECT, stamp(2));
    other.title = "Other".to_owned();
    d.state.sessions.push(other);
    let before = session(&d).messages.len();
    let mut runtime = SessionRuntime::new(true, stamp(5));
    d.handle_driver_event(Uuid::from_u128(1002), &mut runtime, finished(false), true, true, &words(), stamp(6));
    assert_eq!(session(&d).messages.len(), before);
    assert_eq!(session(&d).status, SessionStatus::Connecting);
}

#[test]
fn a_turn_without_words_says_how_it_ended() {
    let mut d = desk();
    start(&mut d, "one", 10);
    tell(&mut d, DriverEvent::TurnStarted, 20);
    tell(&mut d, finished(true), 21);
    assert_eq!(session(&d).messages[1].content, "Done");
    let mut d = desk();
    start(&mut d, "one", 10);
    tell(&mut d, DriverEvent::TurnStarted, 20);
    tell(&mut d, finished(false), 21);
    assert_eq!(session(&d).messages[1].content, "Stopped early");
    assert_eq!(session(&d).status, SessionStatus::Failed);
    let mut d = desk();
    start(&mut d, "one", 10);
    tell(&mut d, DriverEvent::TurnStarted, 20);
    tell(&mut d, DriverEvent::ProcessExited, 21);
    assert_eq!(session(&d).messages[1].content, "Exited");
    assert_eq!(session(&d).status, SessionStatus::Failed);
}

#[test]
fn errors_before_a_turn_runs_fail_it() {
    let mut d = desk();
    start(&mut d, "one", 10);
    tell(&mut d, DriverEvent::Error("no credit".to_owned()), 20);
    assert_eq!(session(&d).status, SessionStatus::Failed);
    assert_eq!(session(&d).messages[1].content, "no credit");
    assert!(toasts(&d).contains(&"no credit".to_owned()));
}

#[test]
fn busy_sessions_queue_what_comes_next() {
    let mut d = desk();
    start(&mut d, "one", 10);
    tell(&mut d, DriverEvent::TurnStarted, 20);
    ask(&mut d, "two", 21);
    ask(&mut d, "three", 22);
    assert_eq!(session(&d).queued_messages.len(), 2);
    let second = session(&d).queued_messages[1].id;
    d.remove_queued_message(TASK, second);
    assert_eq!(session(&d).queued_messages.len(), 1);
    tell(&mut d, text("p", "ok"), 23);
    tell(&mut d, finished(true), 24);
    assert_eq!(session(&d).queued_messages.len(), 1);
    d.start_pending_checkpoint_captures();
    let capture = d.effects.iter().any(|e| matches!(e, Effect::CaptureCheckpoint(c) if c.turn_count == 1));
    assert!(capture);
    d.finish_checkpoint_capture(TASK, 1, Ok(checkpoint(1)), "refs/x".to_owned(), &catalog(), stamp(30));
    assert_eq!(session(&d).turns[0].checkpoint.as_ref().unwrap().git_ref, "refs/x");
    d.drain_queued_message(TASK, &catalog(), stamp(31));
    assert!(session(&d).queued_messages.is_empty());
    assert_eq!(session(&d).messages.last().unwrap().content, "two");
}

#[test]
fn running_turns_can_be_steered() {
    let mut d = desk();
    start(&mut d, "one", 10);
    tell(&mut d, DriverEvent::TurnStarted, 20);
    d.steer_composer_submission(ComposerSubmission::plain("also".to_owned()), &catalog(), stamp(21));
    assert!(d.effects.iter().any(|e| matches!(e, Effect::DriverSteer { prompt, .. } if prompt == "also")));
    tell(&mut d, DriverEvent::SteerAccepted { message: "also".to_owned() }, 22);
    let last = session(&d).messages.last().unwrap();
    assert_eq!((last.content.as_str(), last.role), ("also", MessageRole::User));
}

#[test]
fn compaction_is_asked_for_by_a_command() {
    assert!(is_compact_submission("/compact"));
    assert!(is_compact_submission("  /compact "));
    assert!(is_compact_submission("/compact it"));
    assert!(!is_compact_submission("/compaction"));
    assert!(!is_compact_submission("please /compact"));
    let mut d = desk();
    ask(&mut d, "/compact", 10);
    assert_eq!(toasts(&d), vec!["session.compaction_unavailable"]);
    assert!(session(&d).messages.is_empty());
}

#[test]
fn compaction_requests_are_kept_from_the_model() {
    let mut d = working();
    let turns = session(&d).turns.len();
    let messages = session(&d).messages.len();
    d.undo_redo_preparations.insert(TASK);
    d.effects.clear();
    ask(&mut d, "/compact now", 30);
    assert!(session(&d).queued_messages.is_empty());
    assert_eq!((session(&d).turns.len(), session(&d).messages.len()), (turns, messages));
    assert!(d.effects.iter().any(|e| matches!(e, Effect::DriverCompact(id) if *id == TASK)));
    d.steer_composer_submission(ComposerSubmission::plain("/compact".to_owned()), &catalog(), stamp(31));
    assert!(session(&d).queued_messages.is_empty());
    assert!(d.effects.iter().all(|e| !matches!(e, Effect::DriverSteer { .. } | Effect::DriverPrompt { .. })));
    ask(&mut d, "wait for it", 32);
    assert_eq!(session(&d).queued_messages.len(), 1);
}

#[test]
fn text_of_a_part_whose_message_is_gone_is_kept() {
    let mut d = working();
    tell(&mut d, DriverEvent::TextStarted { part: "p".to_owned() }, 21);
    let i = d.state.session_index(TASK).unwrap();
    d.state.sessions[i].messages.pop();
    let before = session(&d).messages.len();
    tell(&mut d, DriverEvent::TextEnded { part: "p".to_owned(), text: Some(" kept \n".to_owned()) }, 22);
    assert_eq!(session(&d).messages.len(), before + 1);
    let written = session(&d).messages.last().unwrap();
    assert_eq!((written.content.as_str(), written.streaming, written.role), ("kept", false, MessageRole::Assistant));
    tell(&mut d, DriverEvent::TextStarted { part: "q".to_owned() }, 23);
    d.state.sessions[i].messages.pop();
    tell(&mut d, DriverEvent::TextEnded { part: "q".to_owned(), text: Some("  ".to_owned()) }, 24);
    assert_eq!(session(&d).messages.len(), before + 1);
}

#[test]
fn prompts_that_cannot_be_prepared_come_back() {
    let mut d = desk();
    ask(&mut d, "one", 10);
    d.finish_submission_preparation(
        TASK,
        ComposerSubmission::plain("one".to_owned()),
        Err("no branch".to_owned()),
        None,
        "gone".to_owned(),
        stamp(11),
    );
    assert_eq!(session(&d).status, SessionStatus::Idle);
    assert!(session(&d).turns.is_empty());
    assert!(session(&d).messages.is_empty());
    assert!(d.effects.iter().any(|e| matches!(e, Effect::RestoreComposer(s) if s.prompt == "one")));
    assert_eq!(toasts(&d), vec!["errors.create_worktree"]);
}

#[test]
fn drivers_that_do_not_start_fail_the_turn() {
    let mut d = desk();
    ask(&mut d, "one", 10);
    d.finish_submission_preparation(
        TASK,
        ComposerSubmission::plain("one".to_owned()),
        Ok(PreparedSubmission {
            workspace: SessionWorkspace::Local,
            checkpoint_warning: None,
            driver: PreparedDriver::Reused,
        }),
        None,
        "gone".to_owned(),
        stamp(11),
    );
    assert_eq!(session(&d).status, SessionStatus::Failed);
    assert_eq!(session(&d).messages[1].content, "gone");
    assert_eq!(session(&d).turns[0].status, TurnStatus::Failed);
}

#[test]
fn stopping_interrupts_the_turn() {
    let mut d = desk();
    start(&mut d, "one", 10);
    tell(&mut d, DriverEvent::TurnStarted, 20);
    d.collect_runtime_events(TASK, vec![text("p", "half"), DriverEvent::NativeSessionsChanged]);
    d.cancel_turn(true, &words(), stamp(21));
    assert!(d.effects.iter().any(|e| matches!(e, Effect::DriverCancel(id) if *id == TASK)));
    assert_eq!(session(&d).status, SessionStatus::Idle);
    assert_eq!(session(&d).turns[0].status, TurnStatus::Interrupted);
    assert_eq!(session(&d).messages[1].content, "half");
    assert!(!session(&d).messages[1].streaming);
    let mut d = desk();
    start(&mut d, "one", 10);
    tell(&mut d, DriverEvent::TurnStarted, 20);
    d.cancel_turn(true, &words(), stamp(21));
    assert_eq!(session(&d).messages[1].content, "Stopped");
}

fn nothing() -> Received {
    Received { detections: Vec::new(), probes: Vec::new(), versions: Vec::new(), tasks: Vec::new() }
}

#[test]
fn the_pump_hands_events_on() {
    let mut d = desk();
    start(&mut d, "one", 10);
    d.collect_runtime_events(
        TASK,
        vec![DriverEvent::TurnStarted, text("p", "a"), text("p", "b"), text("p", "c"), finished(true)],
    );
    for _ in 0..10 {
        d.drain_driver_events(true, true, &words(), &catalog());
    }
    assert_eq!(session(&d).messages[1].content, "abc");
    assert_eq!(session(&d).status, SessionStatus::Idle);
    d.workspace_queries_stale = true;
    let mut c = catalog();
    let mut received = nothing();
    received.detections = catalog().probes;
    received.versions.push(("opencode".to_owned(), Some("1.2.3".to_owned())));
    let (schedule, requests) = d.drain_event_pump(&mut c, received, true, true, &words(), Some(40), stamp(90));
    assert_eq!(schedule, EventPumpSchedule::BackgroundOutput(40));
    assert!(requests.changed && requests.discover_models && requests.probe_version);
    assert_eq!(c.provider_versions.get("opencode"), Some(&Some("1.2.3".to_owned())));
    assert!(!d.workspace_queries_stale);
    assert!(d.effects.iter().any(|e| matches!(e, Effect::InvalidateWorkspaceQueries)));
    assert!(d.effects.iter().any(|e| matches!(e, Effect::ReconcileNativeSessions)));
    d.finish_checkpoint_capture(TASK, 1, Ok(checkpoint(1)), "refs/x".to_owned(), &catalog(), stamp(90));
    d.effects.clear();
    let (schedule, requests) = d.drain_event_pump(&mut c, nothing(), true, true, &words(), None, stamp(91));
    assert_eq!(schedule, EventPumpSchedule::Idle);
    assert!(!requests.changed);
    assert!(!d.effects.iter().any(|e| matches!(e, Effect::Notify)));
}

#[test]
fn failed_saves_are_reported() {
    let mut d = desk();
    d.stream_state_dirty = true;
    d.save(None, Some("disk full".to_owned()));
    assert!(d.stream_state_dirty);
    assert_eq!(toasts(&d), vec!["errors.save_local_state"]);
    d.save(None, None);
    assert!(!d.stream_state_dirty);
}

#[test]
fn permissions_are_answered_once() {
    let mut d = desk();
    start(&mut d, "one", 10);
    tell(&mut d, DriverEvent::TurnStarted, 20);
    tell(
        &mut d,
        DriverEvent::Permission {
            request_id: "r".to_owned(),
            title: "Run?".to_owned(),
            detail: None,
            options: vec![PermissionOption { id: "yes".to_owned(), label: "Yes".to_owned() }],
        },
        21,
    );
    assert_eq!(session(&d).status, SessionStatus::Waiting);
    d.respond_permission("r".to_owned(), "yes".to_owned());
    assert_eq!(session(&d).status, SessionStatus::Working);
    assert!(d.runtimes.get(TASK).unwrap().pending_permission.is_none());
    assert!(d.effects.iter().any(|e| matches!(e, Effect::DriverRespond { option_id, .. } if option_id == "yes")));
}

fn answered() -> Desk {
    let mut d = desk();
    start(&mut d, "one", 10);
    tell(
        &mut d,
        DriverEvent::Connected { provider_cursor: Some(ProviderResumeCursor::OpenCode { session_id: "n1".to_owned() }) },
        19,
    );
    tell(&mut d, DriverEvent::TurnStarted, 20);
    tell(&mut d, text("p", "first"), 21);
    tell(&mut d, finished(true), 22);
    d.start_pending_checkpoint_captures();
    d.finish_checkpoint_capture(TASK, 1, Ok(checkpoint(1)), "refs/x".to_owned(), &catalog(), stamp(23));
    d.effects.clear();
    d
}

#[test]
fn edited_messages_rewind_the_task() {
    let mut d = answered();
    let message = session(&d).messages[0].id;
    d.begin_message_edit(TASK, Uuid::nil(), 1);
    assert!(d.message_edit.is_none());
    assert_eq!(toasts(&d), vec!["session.message_not_editable"]);
    d.begin_message_edit(TASK, message, 1);
    assert!(d.effects.iter().any(|e| matches!(e, Effect::OpenMessageEditor(text) if text == "one")));
    assert!(d.submit_message_edit_prompt("  ", String::new(), &catalog(), stamp(30)).is_none());
    assert!(toasts(&d).contains(&"session.edited_message_empty".to_owned()));
    let (edit, submission, original, previous) =
        d.submit_message_edit_prompt("uno", "uno".to_owned(), &catalog(), stamp(31)).unwrap();
    assert_eq!(session(&d).messages[0].content, "uno");
    assert_eq!(session(&d).status, SessionStatus::Connecting);
    assert!(d.effects.iter().any(|e| matches!(
        e,
        Effect::RewindProvider { rollback_turns: 1, provider_turn_count: 0, native_session: Some(n), .. } if n == "n1"
    )));
    d.finish_message_rewind(edit, submission, original, previous, Some("busy".to_owned()), &catalog(), stamp(32));
    assert_eq!(session(&d).messages[0].content, "one");
    assert_eq!(session(&d).status, SessionStatus::Idle);
    assert_eq!(session(&d).messages.len(), 2);

    d.message_edit = None;
    d.begin_message_edit(TASK, message, 1);
    let (edit, submission, original, previous) =
        d.submit_message_edit_prompt("uno", "uno".to_owned(), &catalog(), stamp(33)).unwrap();
    d.finish_message_rewind(edit, submission, original, previous, None, &catalog(), stamp(34));
    assert_eq!(session(&d).messages.len(), 1);
    assert_eq!(session(&d).messages[0].content, "uno");
    assert_eq!(session(&d).turns.len(), 1);
    assert_eq!(session(&d).status, SessionStatus::Connecting);
}

#[test]
fn responses_are_forked() {
    let mut d = answered();
    d.fork_session_from_response(TASK, 1, &catalog());
    assert!(d.response_fork_preparations.contains_key(TASK));
    let title = d
        .effects
        .iter()
        .find_map(|e| match e {
            Effect::ForkProvider { fork_title, .. } => Some(fork_title.clone()),
            _ => None,
        })
        .unwrap();
    assert!(title.ends_with(" (2)"));
    let branched = Ok(ProviderResumeCursor::OpenCode { session_id: "n2".to_owned() });
    let fork = perform_response_fork(session(&d), 1, &title, branched, &vec!["refs/y".to_owned()], None, stamp(40));
    d.finish_response_fork(TASK, 1, Ok(fork.unwrap()), &catalog(), stamp(41));
    assert_eq!(d.state.sessions.len(), 2);
    let fork = d.state.sessions.iter().find(|s| s.id != TASK).unwrap();
    assert_eq!(fork.messages.len(), 2);
    assert_eq!(fork.provider_cursor.as_ref().unwrap().native_id(), "n2");
    assert_eq!(fork.turns[0].checkpoint.as_ref().unwrap().git_ref, "refs/y");
    assert_eq!(d.state.selected_session, Some(fork.id));
    assert_eq!(session(&d).provider_cursor.as_ref().unwrap().native_id(), "n1");
}

#[test]
fn forks_that_fail_leave_the_task() {
    let mut d = answered();
    d.fork_session_from_response(TASK, 1, &catalog());
    d.finish_response_fork(TASK, 1, Err("offline".to_owned()), &catalog(), stamp(41));
    assert_eq!(d.state.sessions.len(), 1);
    assert!(!d.response_fork_preparations.contains_key(TASK));
    assert!(toasts(&d).contains(&"offline".to_owned()));
    d.fork_session_from_response(TASK, 7, &catalog());
    assert!(!d.response_fork_preparations.contains_key(TASK));
}

#[test]
fn provider_requests_name_what_is_missing() {
    let key = |t: Text| match t {
        Text::Key(key, _) => key,
        Text::Plain(_) => "plain",
    };
    assert!(matches!(perform_provider_rewind(0, None, None, String::new(), 0), Ok(ProviderRequest::Nothing)));
    assert_eq!(
        key(perform_provider_rewind(1, None, None, String::new(), 0).unwrap_err()),
        "errors.provider_native_cursor_unavailable"
    );
    assert_eq!(
        key(perform_provider_rewind(1, Some("n".to_owned()), None, String::new(), 0).unwrap_err()),
        "errors.provider_not_found"
    );
    assert!(matches!(
        perform_provider_rewind(1, Some("n".to_owned()), Some("b".to_owned()), "/w".to_owned(), 3),
        Ok(ProviderRequest::Revert { turn_count: 3, .. })
    ));
    let d = answered();
    assert!(matches!(
        plan_response_fork(session(&d), Some("b".to_owned()), "/w".to_owned(), 1),
        Ok(ProviderRequest::Branch { native_session, .. }) if native_session == "n1"
    ));
    assert_eq!(
        key(plan_response_fork(session(&d), None, "/w".to_owned(), 1).unwrap_err()),
        "errors.provider_not_installed"
    );
    let bare = desk();
    assert_eq!(
        key(plan_response_fork(session(&bare), None, "/w".to_owned(), 1).unwrap_err()),
        "errors.provider_native_session_unavailable"
    );
    assert_eq!(
        key(perform_response_fork(session(&d), 1, "t", Err("x".to_owned()), &Vec::new(), None, stamp(1)).unwrap_err()),
        "errors.fork_task"
    );
    let branched = Ok(ProviderResumeCursor::OpenCode { session_id: "n2".to_owned() });
    assert_eq!(
        key(perform_response_fork(session(&bare), 1, "t", branched, &Vec::new(), None, stamp(1)).unwrap_err()),
        "session.response_cannot_copy"
    );
}

#[test]
fn sessions_are_created_visited_and_removed() {
    let mut d = answered();
    d.create_session_for(PROJECT, ProviderKind::OpenCode, stamp(50));
    let second = stamp(50).id;
    assert_eq!(d.state.selected_session, Some(second));
    assert_eq!(d.navigation.back, vec![TASK]);
    d.create_session_for(PROJECT, ProviderKind::OpenCode, stamp(51));
    assert_eq!(d.state.sessions.len(), 2);
    d.select_session(TASK);
    assert_eq!(d.state.selected_session, Some(TASK));
    d.select_session(Uuid::nil());
    assert_eq!(d.state.selected_session, Some(TASK));
    d.remove_session(second, Err(String::new()), stamp(52));
    assert_eq!(d.state.sessions.len(), 1);
    assert!(!d.navigation.back.contains(&second));
    d.remove_session(TASK, Err(String::new()), stamp(53));
    assert!(d.state.session_index(TASK).is_none());
    assert!(d.runtimes.get(TASK).is_none());
    assert_ne!(d.state.selected_session, Some(TASK));
}

#[test]
fn back_and_forward_return() {
    let mut n = Navigation { back: Vec::new(), forward: Vec::new() };
    let (a, b) = (Uuid::from_u128(1), Uuid::from_u128(2));
    n.visit(Some(a), b);
    assert_eq!(n.go_back(b), Some(a));
    assert_eq!(n.go_forward(a), Some(b));
    assert_eq!(n.go_forward(b), None);
    n.remove(a);
    assert_eq!(n.go_back(b), None);
}

#[test]
fn options_are_chosen() {
    let mut d = desk();
    d.choose_model(ProviderKind::OpenCode, "a/big".to_owned(), &catalog());
    assert_eq!(session(&d).model.as_deref(), Some("a/big"));
    assert_eq!(d.state.prefs.last_model.as_deref(), Some("a/big"));
    d.set_reasoning_effort("high".to_owned(), &catalog());
    assert_eq!(session(&d).reasoning_effort.as_deref(), Some("high"));
    d.choose_model(ProviderKind::OpenCode, "a/small".to_owned(), &catalog());
    assert_eq!(session(&d).reasoning_effort, None);
    d.set_runtime_mode(RuntimeMode::FullAccess, &catalog());
    d.set_interaction_mode(InteractionMode::Plan, &catalog());
    assert_eq!((session(&d).runtime_mode, session(&d).interaction_mode), (RuntimeMode::FullAccess, InteractionMode::Plan));
    d.set_runtime_mode(RuntimeMode::Plan, &catalog());
    assert_eq!(session(&d).runtime_mode, RuntimeMode::FullAccess);
    d.toggle_favorite_model(ProviderKind::OpenCode, "a/big".to_owned());
    assert_eq!(d.state.prefs.favorite_models.len(), 1);
    d.toggle_favorite_model(ProviderKind::OpenCode, "a/big".to_owned());
    assert!(d.state.prefs.favorite_models.is_empty());
    assert_eq!(catalog().model_display_name(Some("a/big")), "A/BIG");
}

#[test]
fn options_reach_a_running_provider() {
    let mut d = answered();
    d.choose_model(ProviderKind::OpenCode, "a/big".to_owned(), &catalog());
    assert!(d.effects.iter().any(|e| matches!(
        e,
        Effect::ApplyOptions { generation: 1, options, .. } if options.model.as_deref() == Some("a/big")
    )));
    d.finish_session_options(TASK, 0, false);
    assert!(d.has_runtime(TASK));
    d.finish_session_options(TASK, 1, false);
    assert!(!d.has_runtime(TASK));
}

fn working() -> Desk {
    let mut d = desk();
    start(&mut d, "one", 10);
    tell(&mut d, DriverEvent::TurnStarted, 20);
    d
}

fn thoughts(desk: &Desk) -> Vec<String> {
    session(desk)
        .transcript_blocks
        .iter()
        .flat_map(|block| block.activities.iter())
        .filter_map(|item| item.reasoning.as_ref().map(|thought| thought.content.clone()))
        .collect()
}

#[test]
fn text_parts_end_once() {
    let mut d = working();
    let part = || "p".to_owned();
    tell(&mut d, DriverEvent::TextStarted { part: part() }, 21);
    tell(&mut d, text("p", "a"), 22);
    tell(&mut d, DriverEvent::TextStarted { part: part() }, 23);
    tell(&mut d, text("p", "b"), 24);
    assert_eq!(session(&d).messages[1].content, "ab");
    tell(&mut d, DriverEvent::TextEnded { part: part(), text: Some("abc".to_owned()) }, 25);
    tell(&mut d, DriverEvent::TextEnded { part: part(), text: Some("zzz".to_owned()) }, 26);
    tell(&mut d, text("p", "tail"), 27);
    assert_eq!(session(&d).messages.len(), 2);
    assert_eq!(session(&d).messages[1].content, "abc");
}

#[test]
fn reasoning_parts_end_once() {
    let mut d = working();
    let delta = |delta: &str| DriverEvent::ReasoningDelta { part: "r".to_owned(), delta: delta.to_owned() };
    tell(&mut d, delta("thi"), 21);
    tell(&mut d, delta("nk"), 22);
    assert_eq!(thoughts(&d), vec!["think"]);
    tell(&mut d, DriverEvent::ReasoningEnded { part: "r".to_owned(), text: Some("thought".to_owned()) }, 23);
    tell(&mut d, delta("tail"), 24);
    assert_eq!(thoughts(&d), vec!["thought"]);
}

#[test]
fn turns_settle_once_and_take_no_more_output() {
    let mut d = working();
    tell(&mut d, text("p", "ok"), 21);
    tell(&mut d, finished(true), 22);
    tell(&mut d, finished(false), 23);
    tell(&mut d, text("p", "late"), 24);
    assert_eq!(session(&d).status, SessionStatus::Idle);
    assert_eq!(session(&d).turns[0].status, TurnStatus::Completed);
    assert_eq!(session(&d).messages.len(), 2);
    assert_eq!(session(&d).messages[1].content, "ok");
}

#[test]
fn blank_replies_are_dropped() {
    let mut d = working();
    tell(&mut d, text("p", " \n"), 21);
    tell(&mut d, finished(true), 22);
    assert_eq!(session(&d).messages.len(), 2);
    assert_eq!(session(&d).messages[1].content, "Done");
}

#[test]
fn usage_and_compaction_are_told_once() {
    let mut d = working();
    let usage = || DriverEvent::UsageUpdated {
        context_tokens: Some(7),
        context_window: None,
        session_total: Some(9),
        cache_read: None,
        prompt_tokens: None,
    };
    tell(&mut d, usage(), 21);
    let once = session(&d).context_usage.unwrap();
    tell(&mut d, usage(), 22);
    assert_eq!(session(&d).context_usage, Some(once));
    assert_eq!((once.tokens, once.total_tokens, once.window), (7, Some(9), None));
    d.effects.clear();
    let compacted = || {
        DriverEvent::CompactionUpdated(CompactionState {
            status: CompactionStatus::Completed,
            summary: Some("in short".to_owned()),
        })
    };
    tell(&mut d, compacted(), 23);
    tell(&mut d, compacted(), 24);
    let shown = session(&d).messages.iter().filter(|m| m.role == MessageRole::Compaction).count();
    assert_eq!(shown, 1);
    assert_eq!(toasts(&d), vec!["session.compaction_completed"]);
}

#[test]
fn batches_keep_the_text_in_order() {
    let thought = DriverEvent::ReasoningDelta { part: "r".to_owned(), delta: "x".to_owned() };
    let mut queue: VecDeque<DriverEvent> = VecDeque::from(vec![text("p", "a"), text("p", "b"), thought, text("p", "c")]);
    match pop_stream_batch(&mut queue, StreamDeltaKind::Text) {
        Some(DriverEvent::TextDelta { part, delta }) => {
            assert_eq!(part, "p");
            let rest: String = queue
                .iter()
                .filter_map(|e| match e {
                    DriverEvent::TextDelta { delta, .. } => Some(delta.as_str()),
                    _ => None,
                })
                .collect();
            assert_eq!(format!("{delta}{rest}"), "abc");
            assert!(delta.starts_with("ab"));
        }
        other => panic!("no batch: {other:?}"),
    }
    assert!(matches!(
        pop_stream_batch(&mut VecDeque::new(), StreamDeltaKind::Text),
        Some(DriverEvent::TextDelta { delta, .. }) if delta.is_empty()
    ));
}

#[test]
fn backoffs_end_with_output_or_in_time() {
    let mut d = working();
    let retry = || DriverEvent::ProviderRetry { attempt: 1, message: "busy".to_owned(), action: None, next_at_ms: None };
    tell(&mut d, retry(), 21);
    tell(&mut d, retry(), 22);
    assert!(d.provider_retries.contains_key(TASK));
    assert_eq!(d.effects.iter().filter(|e| matches!(e, Effect::ScheduleRetryExpiry(_))).count(), 1);
    assert!(d.schedule_provider_retry_expiry(TASK, true));
    tell(&mut d, text("p", "ok"), 23);
    assert!(!d.provider_retries.contains_key(TASK));
    tell(&mut d, retry(), 24);
    assert!(!d.schedule_provider_retry_expiry(TASK, false));
    assert!(!d.provider_retries.contains_key(TASK));
}

#[test]
fn refused_steers_are_not_lost() {
    let mut d = working();
    d.steer_composer_submission(ComposerSubmission::plain("also".to_owned()), &catalog(), stamp(21));
    let refused = DriverEvent::SteerRejected { message: "also".to_owned(), reason: "no".to_owned() };
    tell(&mut d, refused, 22);
    assert_eq!(session(&d).queued_messages[0].prompt, "also");
    assert!(toasts(&d).contains(&"session.steer_rejected".to_owned()));
}

#[test]
fn follow_ups_come_out_of_the_queue_as_they_went_in() {
    let submission = ComposerSubmission {
        prompt: "look at @a".to_owned(),
        display_content: Some("look".to_owned()),
        attachments: vec![Attachment { mention: "@a".to_owned() }],
    };
    let queued = submission.clone().into_queued_message(Uuid::from_u128(5));
    assert_eq!(queued.id, Uuid::from_u128(5));
    let back = ComposerSubmission::from_queued_message(queued);
    assert_eq!((back.prompt.as_str(), back.display_content.as_deref()), ("look at @a", Some("look")));
    assert_eq!(back.attachments[0].mention, "@a");
}

#[test]
fn providers_are_found_and_asked_once() {
    let mut c = catalog();
    assert!(c.request_provider_model_discovery());
    assert!(!c.request_provider_model_discovery());
    assert!(!c.refresh_provider_model_discovery());
    c.model_discovery_failed();
    assert!(c.refresh_provider_model_discovery());
    assert!(c.request_provider_version_probes());
    assert!(!c.request_provider_version_probes());
    assert!(c.drain_provider_version_events(vec![("opencode".to_owned(), Some("1.2.3".to_owned()))]));
    assert!(!c.drain_provider_version_events(Vec::new()));
    assert_eq!(c.provider_versions.get("opencode"), Some(&Some("1.2.3".to_owned())));
    assert!(c.refresh_provider_detection());
    assert!(!c.refresh_provider_detection());
    c.provider_detection_started(false);
    assert!(c.refresh_provider_detection());
    c.provider_detection_started(true);
    assert!(!c.provider_model_discoveries.contains("opencode"));
    assert!(c.request_provider_version_probes());
    c.version_probe_failed();
    assert!(c.request_provider_version_probes());
    let mut gone = catalog().probes.remove(0);
    gone.installed = false;
    let requests = c.drain_provider_detection_events(vec![gone], stamp(3));
    assert!(requests.changed && !requests.discover_models && !requests.probe_version);
    assert_eq!(c.provider_detection_checked_at, Some(3000));
    assert!(c.provider_versions.get("opencode").is_none());
}

#[test]
fn histories_are_cut_before_a_turn() {
    let mut d = answered();
    start(&mut d, "two", 60);
    tell(&mut d, DriverEvent::TurnStarted, 70);
    tell(&mut d, text("q", "second"), 71);
    tell(&mut d, finished(true), 72);
    let mut task = session(&d).clone();
    assert_eq!((task.messages.len(), task.turns.len()), (4, 2));
    assert_eq!((task.provider_turns_before(1), task.provider_turns_after(1)), (1, 1));
    task.truncate_after_turn(1);
    assert_eq!((task.messages.len(), task.turns.len()), (2, 1));
    assert_eq!(task.messages[1].content, "first");
}

#[test]
fn template_commands_reach_the_provider_expanded() {
    let mut d = desk();
    ask(&mut d, "/review", 10);
    d.finish_submission_preparation(
        TASK,
        ComposerSubmission::plain("/review".to_owned()),
        Ok(PreparedSubmission {
            workspace: SessionWorkspace::Local,
            checkpoint_warning: None,
            driver: PreparedDriver::Started { supports_steer: false },
        }),
        Some("Review the changes".to_owned()),
        "gone".to_owned(),
        stamp(11),
    );
    assert_eq!(session(&d).messages[0].content, "/review");
    assert!(d.effects.iter().any(|e| matches!(e, Effect::DriverPrompt { prompt, .. } if prompt == "Review the changes")));
}

#[test]
fn captures_that_fail_say_so() {
    let mut d = working();
    tell(&mut d, finished(true), 21);
    d.start_pending_checkpoint_captures();
    d.finish_checkpoint_capture(TASK, 1, Err("no git".to_owned()), "refs/one".to_owned(), &catalog(), stamp(30));
    let kept = session(&d).turns[0].checkpoint.as_ref().unwrap();
    assert_eq!((kept.status, kept.git_ref.as_str(), kept.created_at), (CheckpointStatus::Error, "refs/one", 30));
    assert!(toasts(&d).contains(&"errors.capture_turn_checkpoint".to_owned()));
    assert!(d.checkpoint_captures_in_flight.is_empty());
}

#[test]
fn choices_follow_a_session_that_is_read_late() {
    let mut d = answered();
    let i = d.state.session_index(TASK).unwrap();
    d.state.sessions[i].reasoning_effort = Some("high".to_owned());
    d.state.sessions[i].service_tier = Some("fast".to_owned());
    let whole = session(&d).clone();
    d.state.sessions[i].reasoning_effort = None;
    d.state.sessions[i].service_tier = None;
    d.state.sessions[i].detail_loaded = false;
    d.select_session(TASK);
    assert_eq!(d.state.prefs.last_reasoning_effort, None);
    d.hydrate_session(TASK, Ok(whole));
    assert_eq!(d.state.prefs.last_reasoning_effort.as_deref(), Some("high"));
    assert_eq!(d.state.prefs.last_service_tier.as_deref(), Some("fast"));
    assert_eq!(d.state.selected_project, Some(PROJECT));
}

#[test]
fn transcripts_are_read_when_they_are_needed() {
    let mut d = answered();
    let whole = session(&d).clone();
    let i = d.state.session_index(TASK).unwrap();
    d.state.sessions[i].messages.clear();
    d.state.sessions[i].turns.clear();
    d.state.sessions[i].detail_loaded = false;
    let listed = session(&d).clone();
    d.select_session(TASK);
    assert!(d.effects.iter().any(|e| matches!(e, Effect::HydrateSession(id) if *id == TASK)));
    d.hydrate_session(TASK, Err("no file".to_owned()));
    assert_eq!(toasts(&d), vec!["Could not open that session: no file"]);
    d.hydrate_session(TASK, Ok(whole.clone()));
    assert_eq!(session(&d).messages.len(), 2);
    d.hydrate_session(TASK, Ok(listed.clone()));
    assert_eq!(session(&d).messages.len(), 2);
    d.state.sessions[i] = listed;
    d.remove_session(TASK, Ok(whole), stamp(80));
    assert!(d.effects.iter().any(|e| matches!(
        e,
        Effect::DeleteCheckpointRefs { turn_count: 1, project_path, .. } if project_path == "/work/app"
    )));
}
