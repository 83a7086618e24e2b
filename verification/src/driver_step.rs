//! What each report of a provider's driver does to the desk, as a mathematical step.
use vstd::prelude::*;

use crate::activities::activity_reported;
use crate::desk::{
    wording, wording_with, ComposerSubmissionView, EffectView, PendingPermission, PendingUserInput,
    ProviderPhase, ProviderRetry, RuntimeView, TextView,
};
use crate::events::DriverEvent;
use crate::ids::{Stamp, Uuid};
use crate::live::{DeskView, Live};
use crate::model::{
    new_activity, provider_resume_cursor_opt, ActivityItemView, ActivityKind, AgentSessionView, CompactionStateView,
    CompactionStatus, ContextUsage, MessageRole, MessageView, SessionStatus, TurnStats, TurnStatus, TurnView,
    DEFAULT_TITLE,
};
use crate::model::new_message;
use crate::text::{opt, texts};
use crate::text_parts::compaction_shown;
use crate::turns::compacted;

verus! {

/// Texts that enter a transcript, in the user's language.
#[derive(Debug)]
pub struct Wordings {
    pub turn_completed: String,
    pub stopped_before_response: String,
    pub exited_before_response: String,
    pub stopped: String,
}

/// The first steering message with this text.
pub open spec fn first_steer(steers: Seq<ComposerSubmissionView>, message: Seq<char>) -> Option<int>
    decreases steers.len(),
{
    if steers.len() == 0 {
        None
    } else if steers[0].prompt == message {
        Some(0)
    } else {
        match first_steer(steers.drop_first(), message) {
            Some(i) => Some(i + 1),
            None => None,
        }
    }
}

/// The steering message that an echo answers, and those that stay: the first with
/// the very text, else the oldest, else the echo itself.
pub open spec fn steer_taken(steers: Seq<ComposerSubmissionView>, message: Seq<char>) -> (
    ComposerSubmissionView,
    Seq<ComposerSubmissionView>,
) {
    match first_steer(steers, message) {
        Some(i) => (steers[i], steers.remove(i)),
        None => if steers.len() > 0 {
            (steers[0], steers.drop_first())
        } else {
            (ComposerSubmissionView { prompt: message, display_content: None, attachments: Seq::empty() }, steers)
        },
    }
}

/// What is known of the context, with the values that a report gives.
pub open spec fn usage_merged(
    usage: Option<ContextUsage>,
    tokens: Option<u64>,
    window: Option<u64>,
    total: Option<u64>,
    cache_read: Option<u64>,
    prompt: Option<u64>,
) -> ContextUsage {
    let known = match usage {
        Some(known) => known,
        None => ContextUsage { tokens: 0, window: None, total_tokens: None, cache_read: None, prompt_tokens: None },
    };
    ContextUsage {
        tokens: match tokens {
            Some(value) => value,
            None => known.tokens,
        },
        window: if window is Some {
            window
        } else {
            known.window
        },
        total_tokens: if total is Some {
            total
        } else {
            known.total_tokens
        },
        cache_read: if cache_read is Some {
            cache_read
        } else {
            known.cache_read
        },
        prompt_tokens: if prompt is Some {
            prompt
        } else {
            known.prompt_tokens
        },
    }
}

impl AgentSessionView {
    /// The session once the provider is connected.
    pub open spec fn with_connected(self, cursor: Option<Seq<char>>) -> AgentSessionView {
        AgentSessionView {
            provider_cursor: cursor,
            native_session_id: cursor,
            status: if self.status == SessionStatus::Connecting {
                SessionStatus::Working
            } else {
                self.status
            },
            ..self
        }
    }

    /// The session with what its running turn cost. A settled turn keeps what it has.
    pub open spec fn with_turn_stats(self, stats: TurnStats) -> AgentSessionView {
        if self.active_turn() is Some {
            AgentSessionView {
                turns: self.turns.update(
                    self.turns.len() - 1,
                    TurnView { stats: Some(stats), ..self.turns.last() },
                ),
                ..self
            }
        } else {
            self
        }
    }

    /// The session with a user's message folded into the running turn.
    pub open spec fn with_steer(self, message: Seq<char>, submission: ComposerSubmissionView, stamp: Stamp) -> AgentSessionView {
        AgentSessionView {
            messages: self.messages.push(
                MessageView {
                    display_content: submission.display_content,
                    attachments: submission.attachments,
                    ..new_message(stamp.id, MessageRole::User, message, self.active_turn())
                },
            ),
            updated_at: stamp.secs,
            ..self
        }
    }

    /// The session once its turn is over, with a reply where it has none.
    pub open spec fn with_outcome(self, status: SessionStatus, fallback: Option<Seq<char>>, stamp: Stamp) -> AgentSessionView {
        let settled = AgentSessionView { status, ..self };
        match fallback {
            Some(text) => settled.with_message(MessageRole::Assistant, text, stamp),
            None => settled,
        }
    }
}

/// Output of a turn: text, reasoning and activities.
pub open spec fn is_output(event: DriverEvent) -> bool {
    match event {
        DriverEvent::TextStarted { .. } => true,
        DriverEvent::TextDelta { .. } => true,
        DriverEvent::TextEnded { .. } => true,
        DriverEvent::ReasoningStarted { .. } => true,
        DriverEvent::ReasoningDelta { .. } => true,
        DriverEvent::ReasoningEnded { .. } => true,
        DriverEvent::Activity { .. } => true,
        DriverEvent::RichActivity(_) => true,
        _ => false,
    }
}

/// A report about the course of a turn.
pub open spec fn is_course(event: DriverEvent) -> bool {
    match event {
        DriverEvent::Permission { .. } => true,
        DriverEvent::UserInputRequested { .. } => true,
        DriverEvent::SteerAccepted { .. } => true,
        DriverEvent::SteerRejected { .. } => true,
        DriverEvent::CompactionUpdated(_) => true,
        DriverEvent::TurnFinished { .. } => true,
        DriverEvent::Error(_) => true,
        DriverEvent::ProcessExited => true,
        _ => false,
    }
}

impl DeskView {
    /// The desk once the provider of the session no longer backs off.
    pub open spec fn retry_over(self, id: Uuid) -> DeskView {
        DeskView { provider_retries: self.provider_retries.remove(id), ..self }
    }

    /// The desk with the session waiting for the user.
    pub open spec fn waiting(self, id: Uuid) -> DeskView {
        match self.session(id) {
            Some(session) => self.put(id, AgentSessionView { status: SessionStatus::Waiting, ..session }),
            None => self,
        }
    }

    /// The desk once the turn of the session is over, with a reply where it has none.
    pub open spec fn outcome(self, id: Uuid, status: SessionStatus, fallback: Option<Seq<char>>, stamp: Stamp) -> DeskView {
        match self.session(id) {
            Some(session) => self.put(id, session.with_outcome(status, fallback, stamp)),
            None => self,
        }
    }

    /// The desk once the stream of a turn is closed: nothing is streaming, every
    /// activity is complete, and blank replies are gone.
    pub open spec fn closed(self, id: Uuid, stamp: Stamp) -> DeskView {
        self.streams_stopped(id).blocks_completed(id).blanks_dropped(id, stamp)
    }

    /// What is written where a turn brought no reply.
    pub open spec fn fallback(self, id: Uuid, text: Seq<char>) -> Option<Seq<char>> {
        if self.answered(id) {
            None
        } else {
            Some(text)
        }
    }

    /// The desk once a process that is gone has failed the turn it ran.
    pub open spec fn exit_settled(self, id: Uuid, message: Seq<char>, stamp: Stamp) -> DeskView {
        match self.session(id) {
            Some(session) => if session.status.busy() {
                let failed = self.outcome(id, SessionStatus::Failed, self.fallback(id, message), stamp);
                let dated = failed.put(
                    id,
                    AgentSessionView { updated_at: stamp.secs, ..failed.session(id)->0 },
                ).turn_finished(id, TurnStatus::Failed, stamp);
                if session.active_turn() is Some {
                    dated.capture_requested(id)
                } else {
                    dated
                }
            } else {
                self.put(id, session)
            },
            None => self,
        }
    }

    /// The desk once the last turn of the session has been handed over: what it did
    /// to the workspace is to be read again, its checkpoint is to be captured, and
    /// the queue may go on.
    pub open spec fn handed_over(self, id: Uuid, drain: bool) -> DeskView {
        let captured = DeskView {
            workspace_queries_stale: self.workspace_queries_stale || self.selected(id),
            ..self
        }.emit(EffectView::RefreshBackgroundWork(id)).capture_requested(id);
        if drain {
            DeskView { pending_queue_drains: captured.pending_queue_drains.push(id), ..captured }
        } else {
            captured
        }
    }

    /// The desk with the rows of the session brought in line, where it is on screen.
    pub open spec fn spliced(self, id: Uuid) -> DeskView {
        self.emit_if(self.selected(id), EffectView::SpliceTranscriptRows(id))
    }

    /// The title that a notification about the session bears.
    pub open spec fn notice_title(self, id: Uuid) -> Option<TextView> {
        match self.session(id) {
            Some(session) => Some(
                if session.shown_title() == DEFAULT_TITLE@ {
                    wording("session.new_task")
                } else {
                    TextView::Plain(session.shown_title())
                },
            ),
            None => None,
        }
    }
}

impl Live {
    pub open spec fn with_desk(self, desk: DeskView) -> Live {
        Live { desk, ..self }
    }

    pub open spec fn with_runtime(self, runtime: RuntimeView) -> Live {
        Live { runtime, ..self }
    }

    /// A call of the provider has given output: it no longer backs off, and it is
    /// not merely responding.
    pub open spec fn output_begun(self) -> Live {
        self.with_runtime(RuntimeView { provider_phase: None, ..self.runtime })
    }

    /// The provider is connected.
    pub open spec fn connected(self, id: Uuid, cursor: Option<Seq<char>>, stamp: Stamp) -> Live {
        let desk = self.desk.retry_over(id).emit(EffectView::RefreshBackgroundWork(id));
        Live {
            desk: match desk.session(id) {
                Some(session) => desk.put(id, session.with_connected(cursor)),
                None => desk,
            },
            runtime: RuntimeView {
                last_driver_error: None,
                last_background_refresh_at: stamp.millis,
                ..self.runtime
            },
        }
    }

    /// The provider offers these commands.
    pub open spec fn commands_offered(self, id: Uuid, names: Seq<Seq<char>>) -> Live {
        match self.desk.session(id) {
            Some(session) => self.with_desk(
                DeskView {
                    composer_sources_stale: self.desk.composer_sources_stale || session.available_commands != names,
                    ..self.desk.put(id, AgentSessionView { available_commands: names, ..session })
                },
            ),
            None => self,
        }
    }

    /// The provider has taken up the turn.
    pub open spec fn turn_started(self, id: Uuid) -> Live {
        let desk = self.desk.retry_over(id);
        Live {
            desk: match desk.session(id) {
                Some(session) => desk.put(id, session.with_provider_turn()),
                None => desk,
            },
            runtime: RuntimeView { last_driver_error: None, provider_phase: None, ..self.runtime },
        }
    }

    /// The provider backs off. A backoff is the provider's state rather than output
    /// of a turn: it is kept whether or not a turn runs.
    pub open spec fn retrying(self, id: Uuid, retry: ProviderRetry) -> Live {
        Live {
            desk: DeskView { provider_retries: self.desk.provider_retries.insert(id, retry), ..self.desk }.emit_if(
                !self.desk.provider_retries.dom().contains(id),
                EffectView::ScheduleRetryExpiry(id),
            ),
            runtime: RuntimeView { provider_phase: None, ..self.runtime },
        }
    }

    /// An activity is reported.
    pub open spec fn activity(self, id: Uuid, item: ActivityItemView, stamp: Stamp) -> Live {
        let calm = self.with_desk(self.desk.retry_over(id));
        if !calm.desk.accepts_turn_output(id) {
            calm
        } else {
            let refresh = item.complete && (item.kind == ActivityKind::Command || item.kind == ActivityKind::FileChange)
                && calm.desk.selected(id);
            let told = calm.output_begun().with_desk(
                calm.desk.emit(EffectView::ObserveForegroundCommand { session_id: id, activity: item }),
            ).activity_reported(id, item, stamp);
            told.with_desk(
                told.desk.emit_if(item.kind == ActivityKind::Plan, EffectView::RebuildTodoSummary(id)).emit_if(
                    refresh,
                    EffectView::RefreshBranch,
                ),
            )
        }
    }

    /// The agent asks for permission.
    pub open spec fn permission_asked(self, id: Uuid, permission: PendingPermission) -> Live {
        if self.desk.accepts_turn_output(id) {
            Live {
                desk: self.desk.waiting(id),
                runtime: RuntimeView {
                    provider_phase: None,
                    pending_permission: Some(permission),
                    ..self.runtime
                },
            }
        } else {
            self
        }
    }

    /// The agent asks the user something.
    pub open spec fn input_asked(self, id: Uuid, input: PendingUserInput) -> Live {
        if self.desk.accepts_turn_output(id) && input.questions@.len() > 0 {
            Live {
                desk: self.desk.emit_if(self.desk.selected(id), EffectView::ClearUserInputAnswer).waiting(id),
                runtime: RuntimeView { provider_phase: None, pending_user_input: Some(input), ..self.runtime },
            }
        } else {
            self
        }
    }

    /// The provider took a steering message into the running turn.
    pub open spec fn steer_accepted(self, id: Uuid, message: Seq<char>, stamp: Stamp) -> Live {
        let (submission, rest) = steer_taken(self.runtime.pending_steers, message);
        Live {
            desk: match self.desk.session(id) {
                Some(session) => self.desk.put(id, session.with_steer(message, submission, stamp)),
                None => self.desk,
            },
            runtime: RuntimeView { pending_steers: rest, ..self.runtime },
        }
    }

    /// The provider refused a steering message: it waits behind a running turn, goes
    /// first after one that settled cleanly, and else stays in the user's hands.
    pub open spec fn steer_rejected(
        self,
        id: Uuid,
        message: Seq<char>,
        reason: Seq<char>,
        allow_queue_drain: bool,
        stamp: Stamp,
    ) -> Live {
        let (submission, rest) = steer_taken(self.runtime.pending_steers, message);
        let freed = self.with_runtime(RuntimeView { pending_steers: rest, ..self.runtime });
        match self.desk.session(id) {
            Some(session) if !session.status.busy() && session.turns.len() > 0 && session.turns.last().status
                == TurnStatus::Completed => {
                let desk = self.desk.put(
                    id,
                    AgentSessionView {
                        queued_messages: session.queued_messages.insert(0, submission.queued(stamp.id)),
                        ..session
                    },
                );
                freed.with_desk(
                    if allow_queue_drain {
                        DeskView { pending_queue_drains: desk.pending_queue_drains.push(id), ..desk }
                    } else {
                        desk
                    },
                )
            },
            Some(session) => freed.with_desk(
                self.desk.follow_up_queued(id, submission, stamp).emit_if(
                    session.status.busy() && self.desk.selected(id),
                    EffectView::Toast(wording_with("session.steer_rejected", "error", compacted(reason))),
                ),
            ),
            None => freed.with_desk(self.desk.follow_up_queued(id, submission, stamp)),
        }
    }

    /// A compaction moved on. Only a transition is announced.
    pub open spec fn compaction_moved(self, id: Uuid, state: CompactionStateView, stamp: Stamp) -> Live {
        let before = match self.desk.session(id) {
            Some(session) => match session.compaction {
                Some(compaction) => Some(compaction.status),
                None => None,
            },
            None => None,
        };
        let desk = (match self.desk.session(id) {
            Some(session) => {
                let known = AgentSessionView { compaction: Some(state), ..session };
                self.desk.put(
                    id,
                    if state.status == CompactionStatus::Completed {
                        compaction_shown(known, state, stamp)
                    } else {
                        known
                    },
                )
            },
            None => self.desk,
        }).spliced(id);
        let announced = before != Some(state.status) && self.desk.selected(id);
        self.with_desk(
            desk.emit_if(
                announced && state.status == CompactionStatus::Completed,
                EffectView::Toast(wording("session.compaction_completed")),
            ).emit_if(
                announced && state.status == CompactionStatus::Failed,
                EffectView::Toast(wording("session.compaction_failed")),
            ),
        )
    }

    /// The turn is over.
    pub open spec fn turn_over(
        self,
        id: Uuid,
        success: bool,
        summary: Option<Seq<char>>,
        allow_queue_drain: bool,
        window_active: bool,
        words: Wordings,
        stamp: Stamp,
    ) -> Live {
        let begun = self.desk.emit(EffectView::SettleForegroundWork { session_id: id, completed: success });
        let calm = Live { desk: begun, runtime: RuntimeView { last_driver_error: None, ..self.runtime } };
        if begun.state.active_turn(id) is None {
            calm
        } else {
            let closed = begun.closed(id, stamp);
            let text = match summary {
                Some(text) => text,
                None => if success {
                    words.turn_completed@
                } else {
                    words.stopped_before_response@
                },
            };
            let told = closed.outcome(
                id,
                if success {
                    SessionStatus::Idle
                } else {
                    SessionStatus::Failed
                },
                closed.fallback(id, text),
                stamp,
            );
            let settled = told.turn_finished(
                id,
                if success {
                    TurnStatus::Completed
                } else {
                    TurnStatus::Failed
                },
                stamp,
            );
            let shown = settled.handed_over(id, allow_queue_drain && success).spliced(id);
            Live {
                desk: if !window_active {
                    shown.emit(
                        EffectView::TaskNotification {
                            session_id: id,
                            title: begun.notice_title(id)->0,
                            body: wording(
                                if success {
                                    "session.turn_completed"
                                } else {
                                    "session.stopped"
                                },
                            ),
                        },
                    )
                } else {
                    shown
                },
                runtime: RuntimeView {
                    pending_permission: None,
                    pending_user_input: None,
                    ..calm.runtime.stream_cleared()
                },
            }
        }
    }

    /// The driver reports an error.
    pub open spec fn failed(self, id: Uuid, error: Seq<char>, stamp: Stamp) -> Live {
        let text = compacted(error);
        let warned = self.desk.retry_over(id).emit_if(
            self.desk.selected(id),
            EffectView::Toast(TextView::Plain(text)),
        );
        let has_turn = warned.state.active_turn(id) is Some;
        let not_working = match warned.session(id) {
            Some(session) => session.status != SessionStatus::Working,
            None => false,
        };
        let cleared = if not_working {
            warned.blanks_dropped(id, stamp)
        } else {
            warned
        };
        let desk = match cleared.session(id) {
            Some(session) => cleared.put(
                id,
                if !has_turn {
                    session
                } else {
                    session.with_outcome(
                        if session.status != SessionStatus::Working {
                            SessionStatus::Failed
                        } else {
                            session.status
                        },
                        if not_working && !cleared.answered(id) {
                            Some(text)
                        } else {
                            None
                        },
                        stamp,
                    )
                },
            ),
            None => cleared,
        };
        Live {
            desk: desk.spliced(id),
            runtime: RuntimeView { last_driver_error: Some(text), ..self.runtime },
        }
    }

    /// The provider's process is gone.
    pub open spec fn exited(self, id: Uuid, words: Wordings, stamp: Stamp) -> Live {
        let begun = self.desk.emit(EffectView::LoseBackgroundWork(id));
        let message = match self.runtime.last_driver_error {
            Some(error) => error,
            None => words.exited_before_response@,
        };
        Live {
            desk: begun.closed(id, stamp).retry_over(id).exit_settled(id, message, stamp).spliced(id),
            runtime: RuntimeView {
                pending_permission: None,
                pending_user_input: None,
                last_driver_error: None,
                ..self.runtime.stream_cleared()
            },
        }
    }

    /// What a report about the session or its provider does.
    pub open spec fn session_reported(self, id: Uuid, event: DriverEvent, stamp: Stamp) -> Live {
        let calm = self.with_desk(self.desk.retry_over(id));
        let open = calm.desk.accepts_turn_output(id);
        match event {
            DriverEvent::RuntimeEventCursorAdvanced(cursor) => match self.desk.session(id) {
                Some(session) => self.with_desk(
                    self.desk.put(id, AgentSessionView { runtime_event_cursor: Some(cursor), ..session }),
                ),
                None => self,
            },
            DriverEvent::Connected { provider_cursor } => self.connected(
                id,
                provider_resume_cursor_opt(provider_cursor),
                stamp,
            ),
            DriverEvent::NativeSessionsChanged => self.with_desk(self.desk.emit(EffectView::ReconcileNativeSessions)),
            DriverEvent::AgentPresetSelected(preset) => match self.desk.session(id) {
                Some(session) => self.with_desk(
                    self.desk.put(id, AgentSessionView { agent_preset: opt(preset), ..session }),
                ),
                None => self,
            },
            DriverEvent::AutoTitleUpdated(title) => match self.desk.session(id) {
                Some(session) => self.with_desk(
                    self.desk.put(id, AgentSessionView { auto_title: Some(title@), ..session }),
                ),
                None => self,
            },
            DriverEvent::AvailableCommands(names) => self.commands_offered(id, texts(names@)),
            DriverEvent::TurnStarted => self.turn_started(id),
            DriverEvent::ProviderBusy => if open {
                calm.with_runtime(
                    RuntimeView { provider_phase: Some(ProviderPhase { since: stamp.secs }), ..self.runtime },
                )
            } else {
                calm
            },
            DriverEvent::ProviderRetry { attempt, message, action, next_at_ms } => self.retrying(
                id,
                ProviderRetry { attempt, message, action, next_at_ms, received_at_ms: stamp.millis },
            ),
            DriverEvent::BackgroundWork(work) => self.with_desk(
                self.desk.emit(EffectView::BackgroundWork { session_id: id, event: work }),
            ),
            DriverEvent::TurnStatsUpdated(stats) => match self.desk.session(id) {
                Some(session) => self.with_desk(self.desk.put(id, session.with_turn_stats(stats))),
                None => self,
            },
            DriverEvent::PlanUsageUpdated(_) => self,
            DriverEvent::UsageUpdated { context_tokens, context_window, session_total, cache_read, prompt_tokens } =>
                match self.desk.session(id) {
                    Some(session) => self.with_desk(
                        self.desk.put(
                            id,
                            AgentSessionView {
                                context_usage: Some(
                                    usage_merged(
                                        session.context_usage,
                                        context_tokens,
                                        context_window,
                                        session_total,
                                        cache_read,
                                        prompt_tokens,
                                    ),
                                ),
                                ..session
                            },
                        ),
                    ),
                    None => self,
                },
            _ => self,
        }
    }

    /// What output of a turn does.
    pub open spec fn output_reported(self, id: Uuid, event: DriverEvent, stamp: Stamp) -> Live {
        let calm = self.with_desk(self.desk.retry_over(id));
        let open = calm.desk.accepts_turn_output(id);
        match event {
            DriverEvent::TextStarted { part } => if open {
                calm.output_begun().text_opened(id, part@, stamp)
            } else {
                calm
            },
            DriverEvent::TextDelta { part, delta } => if open {
                calm.output_begun().text_delta(id, part@, delta@, stamp)
            } else {
                calm
            },
            DriverEvent::TextEnded { part, text } => if open {
                calm.output_begun().text_ended(id, part@, opt(text), stamp)
            } else {
                calm
            },
            DriverEvent::ReasoningStarted { part } => if open {
                calm.output_begun().reasoning_opened(id, part@, stamp)
            } else {
                calm
            },
            DriverEvent::ReasoningDelta { part, delta } => if open {
                calm.output_begun().reasoning_delta(id, part@, delta@, stamp)
            } else {
                calm
            },
            DriverEvent::ReasoningEnded { part, text } => if open {
                calm.output_begun().reasoning_ended(id, part@, opt(text), stamp)
            } else {
                calm
            },
            DriverEvent::Activity { id: source, kind, title, detail, complete } => self.activity(
                id,
                new_activity(stamp.id, opt(source), kind, title@, opt(detail), complete),
                stamp,
            ),
            DriverEvent::RichActivity(item) => self.activity(id, item@, stamp),
            _ => self,
        }
    }

    /// What a report about the course of a turn does.
    pub open spec fn course_reported(
        self,
        id: Uuid,
        event: DriverEvent,
        allow_queue_drain: bool,
        window_active: bool,
        words: Wordings,
        stamp: Stamp,
    ) -> Live {
        match event {
            DriverEvent::Permission { request_id, title, detail, options } => self.permission_asked(
                id,
                PendingPermission { request_id, title, detail, options },
            ),
            DriverEvent::UserInputRequested { request_id, questions } => self.input_asked(
                id,
                PendingUserInput { request_id, questions },
            ),
            DriverEvent::SteerAccepted { message } => self.steer_accepted(id, message@, stamp),
            DriverEvent::SteerRejected { message, reason } => self.steer_rejected(
                id,
                message@,
                reason@,
                allow_queue_drain,
                stamp,
            ),
            DriverEvent::CompactionUpdated(state) => self.compaction_moved(id, state@, stamp),
            DriverEvent::TurnFinished { success, summary } => self.turn_over(
                id,
                success,
                opt(summary),
                allow_queue_drain,
                window_active,
                words,
                stamp,
            ),
            DriverEvent::Error(error) => self.failed(id, error@, stamp),
            DriverEvent::ProcessExited => self.exited(id, words, stamp),
            _ => self,
        }
    }

    /// What a report does.
    pub open spec fn reported(
        self,
        id: Uuid,
        event: DriverEvent,
        allow_queue_drain: bool,
        window_active: bool,
        words: Wordings,
        stamp: Stamp,
    ) -> Live {
        if is_output(event) {
            self.output_reported(id, event, stamp)
        } else if is_course(event) {
            self.course_reported(id, event, allow_queue_drain, window_active, words, stamp)
        } else {
            self.session_reported(id, event, stamp)
        }
    }

    /// What a report does, the runtime having been active now.
    #[verifier::opaque]
    pub open spec fn handled(
        self,
        id: Uuid,
        event: DriverEvent,
        allow_queue_drain: bool,
        window_active: bool,
        words: Wordings,
        stamp: Stamp,
    ) -> Live {
        self.with_runtime(RuntimeView { last_active_at: stamp.millis, ..self.runtime }).reported(
            id,
            event,
            allow_queue_drain,
            window_active,
            words,
            stamp,
        )
    }
}

} // verus!
