//! Taking in the reports of a provider's driver.
use std::collections::VecDeque;
use vstd::prelude::*;

use crate::activities::should_refresh_branch_after_activity;
use crate::desk::{
    composer_submission_views, lemma_put, lemma_put_get, lemma_session_id, ComposerSubmission, Effect,
    PendingPermission, PendingUserInput, ProviderPhase, ProviderRetry, SessionRuntime, Text,
};
use crate::driver_step::{first_steer, is_course, is_output, steer_taken, usage_merged, Wordings};
use crate::events::DriverEvent;
use crate::ids::{Stamp, Uuid};
use crate::live::{live, Desk, Live};
use crate::model::{
    provider_resume_cursor_opt, queued_message_views, turn_views, ActivityItem, ActivityKind,
    AgentSessionView, CompactionState, CompactionStatus, ContextUsage, MessageRole,
    ProviderResumeCursor, SessionStatus, TurnStats, TurnStatus, DEFAULT_TITLE,
};
use crate::text::{opt, same, same_texts, texts};
use crate::text_parts::upsert_compaction_transcript;
use crate::turns::compact_driver_error;

verus! {

/// Takes the steering message that an echo answers: the first with the very text.
/// A provider may normalise the text; then the oldest one is meant, whose
/// attachments are kept.
pub fn take_steer(steers: &mut VecDeque<ComposerSubmission>, message: &str) -> (r: ComposerSubmission)
    ensures
        (r@, composer_submission_views(final(steers)@)) == steer_taken(
            composer_submission_views(old(steers)@),
            message@,
        ),
{
    let ghost all = steers@;
    let ghost views = composer_submission_views(all);
    let mut i: usize = 0;
    assert(views.skip(0) =~= views);
    while i < steers.len()
        invariant
            i <= steers@.len(),
            *steers == *old(steers),
            all == steers@,
            views == composer_submission_views(all),
            first_steer(views, message@) == (match first_steer(views.skip(i as int), message@) {
                Some(k) => Some(k + i),
                None => None,
            }),
        decreases steers@.len() - i,
    {
        assert(views.skip(i as int)[0] == steers@[i as int]@);
        assert(views.skip(i as int).drop_first() =~= views.skip(i + 1));
        if same(steers[i].provider_prompt(), message) {
            assert(first_steer(views, message@) == Some(i as int));
            let taken = steers.remove(i);
            assert(composer_submission_views(steers@) =~= views.remove(i as int));
            return match taken {
                Some(submission) => submission,
                None => ComposerSubmission::plain(message.to_owned()),
            };
        }
        i = i + 1;
    }
    assert(views.skip(i as int).len() == 0);
    assert(first_steer(views, message@) is None);
    match steers.pop_front() {
        Some(submission) => {
            assert(composer_submission_views(steers@) =~= views.drop_first());
            submission
        },
        None => ComposerSubmission::plain(message.to_owned()),
    }
}

impl Desk {
    fn retry_over(&mut self, session_id: Uuid)
        ensures
            final(self)@ == old(self)@.retry_over(session_id),
            *final(self) == (Desk { provider_retries: final(self).provider_retries, ..*old(self) }),
    {
        let _ = self.provider_retries.remove(session_id);
    }

    /// Sets the status of a session.
    pub fn set_status(&mut self, session_id: Uuid, status: SessionStatus)
        ensures
            final(self)@ == (match old(self)@.session(session_id) {
                Some(session) => old(self)@.put(session_id, AgentSessionView { status, ..session }),
                None => old(self)@,
            }),
    {
        if let Some(i) = self.state.session_mut(session_id) {
            self.state.sessions[i].status = status;
            proof {
                lemma_put(old(self).state, self.state, session_id, i as int);
            }
        }
    }

    fn splice_rows(&mut self, session_id: Uuid)
        ensures
            final(self)@ == old(self)@.spliced(session_id),
    {
        if self.state.selected_session == Some(session_id) {
            self.emit(Effect::SpliceTranscriptRows(session_id));
        }
    }

    fn on_connected(
        &mut self,
        session_id: Uuid,
        runtime: &mut SessionRuntime,
        provider_cursor: Option<ProviderResumeCursor>,
        stamp: Stamp,
    )
        ensures
            live(*final(self), *final(runtime)) == live(*old(self), *old(runtime)).connected(
                session_id,
                provider_resume_cursor_opt(provider_cursor),
                stamp,
            ),
    {
        runtime.last_driver_error = None;
        runtime.last_background_refresh_at = stamp.millis;
        self.retry_over(session_id);
        self.emit(Effect::RefreshBackgroundWork(session_id));
        let ghost before = *self;
        if let Some(i) = self.state.session_mut(session_id) {
            let native = match &provider_cursor {
                Some(cursor) => Some(cursor.native_id().to_owned()),
                None => None,
            };
            self.state.sessions[i].provider_cursor = provider_cursor;
            self.state.sessions[i].native_session_id = native;
            if self.state.sessions[i].status == SessionStatus::Connecting {
                self.state.sessions[i].status = SessionStatus::Working;
            }
            proof {
                assert(self.state.sessions@ =~= before.state.sessions@.update(i as int, self.state.sessions@[i as int]));
                lemma_put(before.state, self.state, session_id, i as int);
            }
        }
    }

    fn on_commands(&mut self, session_id: Uuid, runtime: &SessionRuntime, names: Vec<String>)
        ensures
            live(*final(self), *runtime) == live(*old(self), *runtime).commands_offered(session_id, texts(names@)),
    {
        if let Some(i) = self.state.session_mut(session_id) {
            if !same_texts(&self.state.sessions[i].available_commands, &names) {
                self.state.sessions[i].available_commands = names;
                self.composer_sources_stale = true;
            }
            proof {
                assert(self.state.sessions@ =~= old(self).state.sessions@.update(
                    i as int,
                    self.state.sessions@[i as int],
                ));
                lemma_put(old(self).state, self.state, session_id, i as int);
            }
        }
    }

    fn on_turn_started(&mut self, session_id: Uuid, runtime: &mut SessionRuntime)
        ensures
            live(*final(self), *final(runtime)) == live(*old(self), *old(runtime)).turn_started(session_id),
    {
        runtime.last_driver_error = None;
        runtime.provider_phase = None;
        self.retry_over(session_id);
        let ghost before = *self;
        if let Some(i) = self.state.session_mut(session_id) {
            self.state.sessions[i].resume_provider_turn();
            proof {
                lemma_put(before.state, self.state, session_id, i as int);
            }
        }
    }

    fn on_retry(&mut self, session_id: Uuid, runtime: &mut SessionRuntime, retry: ProviderRetry)
        ensures
            live(*final(self), *final(runtime)) == live(*old(self), *old(runtime)).retrying(session_id, retry),
    {
        runtime.provider_phase = None;
        // One watcher per episode: later reports of the same backoff reuse it.
        let new_episode = self.provider_retries.insert(session_id, retry).is_none();
        if new_episode {
            self.emit(Effect::ScheduleRetryExpiry(session_id));
        }
    }

    fn on_activity(&mut self, session_id: Uuid, runtime: &mut SessionRuntime, item: ActivityItem, stamp: Stamp)
        ensures
            live(*final(self), *final(runtime)) == live(*old(self), *old(runtime)).activity(session_id, item@, stamp),
    {
        self.retry_over(session_id);
        if !self.accepts_turn_output(session_id) {
            return;
        }
        let refresh_branch = should_refresh_branch_after_activity(item.kind, item.complete)
            && self.state.selected_session == Some(session_id);
        let plan = item.kind == ActivityKind::Plan;
        self.emit(Effect::ObserveForegroundCommand { session_id, activity: item.clone() });
        runtime.provider_phase = None;
        self.update_activity(session_id, runtime, item, stamp);
        if plan {
            self.emit(Effect::RebuildTodoSummary(session_id));
        }
        if refresh_branch {
            self.emit(Effect::RefreshBranch);
        }
    }

    fn on_steer_accepted(&mut self, session_id: Uuid, runtime: &mut SessionRuntime, message: String, stamp: Stamp)
        ensures
            live(*final(self), *final(runtime)) == live(*old(self), *old(runtime)).steer_accepted(
                session_id,
                message@,
                stamp,
            ),
    {
        let submission = take_steer(&mut runtime.pending_steers, message.as_str());
        if let Some(i) = self.state.session_mut(session_id) {
            self.state.sessions[i].push_user_message_with_presentation(
                message,
                submission.display_content,
                submission.attachments,
                stamp,
            );
            proof {
                lemma_put(old(self).state, self.state, session_id, i as int);
            }
        }
    }

    fn on_steer_rejected(
        &mut self,
        session_id: Uuid,
        runtime: &mut SessionRuntime,
        message: String,
        reason: String,
        allow_queue_drain: bool,
        stamp: Stamp,
    )
        ensures
            live(*final(self), *final(runtime)) == live(*old(self), *old(runtime)).steer_rejected(
                session_id,
                message@,
                reason@,
                allow_queue_drain,
                stamp,
            ),
    {
        let submission = take_steer(&mut runtime.pending_steers, message.as_str());
        let (busy, settled_cleanly) = match self.state.session_index(session_id) {
            Some(i) => {
                let session = &self.state.sessions[i];
                let n = session.turns.len();
                (session.is_busy(), n > 0 && session.turns[n - 1].status == TurnStatus::Completed)
            },
            None => (false, false),
        };
        if busy {
            self.enqueue_follow_up_submission(session_id, submission, stamp);
            if self.state.selected_session == Some(session_id) {
                self.emit(
                    Effect::Toast(
                        Text::with("session.steer_rejected", "error", compact_driver_error(reason.as_str())),
                    ),
                );
            }
        } else if settled_cleanly {
            if let Some(i) = self.state.session_mut(session_id) {
                let queued = submission.into_queued_message(stamp.id);
                self.state.sessions[i].queued_messages.insert(0, queued);
                proof {
                    let after = self.state.sessions@[i as int];
                    let before = old(self).state.sessions@[i as int];
                    assert(queued_message_views(after.queued_messages@) =~= queued_message_views(
                        before.queued_messages@,
                    ).insert(0, queued@));
                    lemma_put(old(self).state, self.state, session_id, i as int);
                }
            }
            if allow_queue_drain {
                self.pending_queue_drains.push(session_id);
            }
        } else {
            self.enqueue_follow_up_submission(session_id, submission, stamp);
        }
    }

    fn on_turn_stats(&mut self, session_id: Uuid, stats: TurnStats)
        ensures
            final(self)@ == (match old(self)@.session(session_id) {
                Some(session) => old(self)@.put(session_id, session.with_turn_stats(stats)),
                None => old(self)@,
            }),
    {
        if let Some(i) = self.state.session_mut(session_id) {
            let n = self.state.sessions[i].turns.len();
            if n > 0 && self.state.sessions[i].turns[n - 1].status == TurnStatus::Running {
                self.state.sessions[i].turns[n - 1].stats = Some(stats);
            }
            proof {
                let after = self.state.sessions@[i as int];
                let before = old(self).state.sessions@[i as int];
                assert(turn_views(after.turns@) =~= before@.with_turn_stats(stats).turns);
                assert(self.state.sessions@ =~= old(self).state.sessions@.update(i as int, after));
                lemma_put(old(self).state, self.state, session_id, i as int);
            }
        }
    }

    fn on_usage(
        &mut self,
        session_id: Uuid,
        tokens: Option<u64>,
        window: Option<u64>,
        total: Option<u64>,
        cache_read: Option<u64>,
        prompt: Option<u64>,
    )
        ensures
            final(self)@ == (match old(self)@.session(session_id) {
                Some(session) => old(self)@.put(
                    session_id,
                    AgentSessionView {
                        context_usage: Some(
                            usage_merged(session.context_usage, tokens, window, total, cache_read, prompt),
                        ),
                        ..session
                    },
                ),
                None => old(self)@,
            }),
    {
        if let Some(i) = self.state.session_mut(session_id) {
            let mut usage = match self.state.sessions[i].context_usage {
                Some(usage) => usage,
                None => ContextUsage {
                    tokens: 0,
                    window: None,
                    total_tokens: None,
                    cache_read: None,
                    prompt_tokens: None,
                },
            };
            if let Some(value) = tokens {
                usage.tokens = value;
            }
            if window.is_some() {
                usage.window = window;
            }
            if total.is_some() {
                usage.total_tokens = total;
            }
            if cache_read.is_some() {
                usage.cache_read = cache_read;
            }
            if prompt.is_some() {
                usage.prompt_tokens = prompt;
            }
            self.state.sessions[i].context_usage = Some(usage);
            proof {
                lemma_put(old(self).state, self.state, session_id, i as int);
            }
        }
    }

    fn on_compaction(&mut self, session_id: Uuid, runtime: &SessionRuntime, state: CompactionState, stamp: Stamp)
        ensures
            live(*final(self), *runtime) == live(*old(self), *runtime).compaction_moved(session_id, state@, stamp),
    {
        let previous = match self.state.session_index(session_id) {
            Some(i) => match &self.state.sessions[i].compaction {
                Some(compaction) => Some(compaction.status),
                None => None,
            },
            None => None,
        };
        let status = state.status;
        if let Some(i) = self.state.session_mut(session_id) {
            self.state.sessions[i].compaction = Some(state.clone());
            if status == CompactionStatus::Completed {
                upsert_compaction_transcript(&mut self.state.sessions[i], &state, stamp);
            }
            proof {
                assert(self.state.sessions@ =~= old(self).state.sessions@.update(
                    i as int,
                    self.state.sessions@[i as int],
                ));
                lemma_put(old(self).state, self.state, session_id, i as int);
            }
        }
        self.splice_rows(session_id);
        if previous != Some(status) && self.state.selected_session == Some(session_id) {
            match status {
                CompactionStatus::Completed => {
                    self.emit(Effect::Toast(Text::key("session.compaction_completed")));
                },
                CompactionStatus::Failed => {
                    self.emit(Effect::Toast(Text::key("session.compaction_failed")));
                },
                CompactionStatus::Running | CompactionStatus::Cancelled => {},
            }
        }
    }

    /// Ends the turn of the session, with a reply where it has none.
    pub fn settle_outcome(&mut self, session_id: Uuid, status: SessionStatus, fallback: Option<String>, stamp: Stamp)
        ensures
            final(self)@ == old(self)@.outcome(session_id, status, opt(fallback), stamp),
    {
        if let Some(i) = self.state.session_mut(session_id) {
            self.state.sessions[i].status = status;
            if let Some(text) = fallback {
                self.state.sessions[i].push_message(MessageRole::Assistant, text, stamp);
            }
            proof {
                assert(self.state.sessions@ =~= old(self).state.sessions@.update(
                    i as int,
                    self.state.sessions@[i as int],
                ));
                lemma_put(old(self).state, self.state, session_id, i as int);
            }
        }
    }

    fn notice_title(&self, session_id: Uuid) -> (r: Option<Text>)
        ensures
            match r {
                Some(title) => self@.notice_title(session_id) == Some(title@),
                None => self@.notice_title(session_id) is None,
            },
    {
        match self.state.session_index(session_id) {
            Some(i) => {
                let title = self.state.sessions[i].display_title();
                if same(title, DEFAULT_TITLE) {
                    Some(Text::key("session.new_task"))
                } else {
                    Some(Text::Plain(title.to_owned()))
                }
            },
            None => None,
        }
    }

    fn has_active_turn(&self, session_id: Uuid) -> (r: bool)
        ensures
            r == (self@.state.active_turn(session_id) is Some),
    {
        match self.state.session_index(session_id) {
            Some(i) => self.state.sessions[i].active_turn_id().is_some(),
            None => false,
        }
    }

    fn close_stream(&mut self, session_id: Uuid, stamp: Stamp)
        ensures
            final(self)@ == old(self)@.closed(session_id, stamp),
    {
        self.finish_streaming_assistant(session_id);
        self.complete_turn_blocks(session_id);
        self.drop_blank_assistant_messages(session_id, stamp);
    }

    fn fallback(&self, session_id: Uuid, text: String) -> (r: Option<String>)
        ensures
            opt(r) == self@.fallback(session_id, text@),
    {
        if self.turn_has_assistant_message(session_id) {
            None
        } else {
            Some(text)
        }
    }

    fn hand_over(&mut self, session_id: Uuid, drain: bool)
        ensures
            final(self)@ == old(self)@.handed_over(session_id, drain),
    {
        // The agent may have edited files or switched branches.
        if self.state.selected_session == Some(session_id) {
            self.workspace_queries_stale = true;
        }
        self.emit(Effect::RefreshBackgroundWork(session_id));
        self.capture_latest_turn_checkpoint_for(session_id);
        if drain {
            self.pending_queue_drains.push(session_id);
        }
    }

    fn on_turn_finished(
        &mut self,
        session_id: Uuid,
        runtime: &mut SessionRuntime,
        success: bool,
        summary: Option<String>,
        allow_queue_drain: bool,
        window_active: bool,
        words: &Wordings,
        stamp: Stamp,
    )
        ensures
            live(*final(self), *final(runtime)) == live(*old(self), *old(runtime)).turn_over(
                session_id,
                success,
                opt(summary),
                allow_queue_drain,
                window_active,
                *words,
                stamp,
            ),
    {
        self.emit(Effect::SettleForegroundWork { session_id, completed: success });
        runtime.last_driver_error = None;
        if !self.has_active_turn(session_id) {
            return;
        }
        let title = self.notice_title(session_id);
        self.close_stream(session_id, stamp);
        runtime.clear_stream();
        let text = match summary {
            Some(text) => text,
            None => if success {
                words.turn_completed.clone()
            } else {
                words.stopped_before_response.clone()
            },
        };
        let fallback = self.fallback(session_id, text);
        self.settle_outcome(
            session_id,
            if success {
                SessionStatus::Idle
            } else {
                SessionStatus::Failed
            },
            fallback,
            stamp,
        );
        let _ = self.finish_active_turn(
            session_id,
            if success {
                TurnStatus::Completed
            } else {
                TurnStatus::Failed
            },
            stamp,
        );
        runtime.pending_permission = None;
        runtime.pending_user_input = None;
        self.hand_over(session_id, allow_queue_drain && success);
        self.splice_rows(session_id);
        if !window_active {
            if let Some(title) = title {
                let body = Text::key(
                    if success {
                        "session.turn_completed"
                    } else {
                        "session.stopped"
                    },
                );
                self.emit(Effect::TaskNotification { session_id, title, body });
            }
        }
    }

    fn on_error(&mut self, session_id: Uuid, runtime: &mut SessionRuntime, error: String, stamp: Stamp)
        ensures
            live(*final(self), *final(runtime)) == live(*old(self), *old(runtime)).failed(session_id, error@, stamp),
    {
        self.retry_over(session_id);
        let text = compact_driver_error(error.as_str());
        runtime.last_driver_error = Some(text.clone());
        if self.state.selected_session == Some(session_id) {
            self.emit(Effect::Toast(Text::Plain(text.clone())));
        }
        let has_turn = self.has_active_turn(session_id);
        let not_working = match self.state.session_index(session_id) {
            Some(i) => self.state.sessions[i].status != SessionStatus::Working,
            None => false,
        };
        if not_working {
            self.drop_blank_assistant_messages(session_id, stamp);
        }
        let should_append = has_turn && not_working && !self.turn_has_assistant_message(session_id);
        let ghost cleared = *self;
        if let Some(i) = self.state.session_mut(session_id) {
            if has_turn {
                if self.state.sessions[i].status != SessionStatus::Working {
                    self.state.sessions[i].status = SessionStatus::Failed;
                }
                if should_append {
                    self.state.sessions[i].push_message(MessageRole::Assistant, text, stamp);
                }
            }
            proof {
                assert(self.state.sessions@ =~= cleared.state.sessions@.update(
                    i as int,
                    self.state.sessions@[i as int],
                ));
                lemma_put(cleared.state, self.state, session_id, i as int);
            }
        }
        self.splice_rows(session_id);
    }

    fn on_process_exited(&mut self, session_id: Uuid, runtime: &mut SessionRuntime, words: &Wordings, stamp: Stamp)
        ensures
            live(*final(self), *final(runtime)) == live(*old(self), *old(runtime)).exited(session_id, *words, stamp),
    {
        self.emit(Effect::LoseBackgroundWork(session_id));
        self.close_stream(session_id, stamp);
        runtime.clear_stream();
        self.retry_over(session_id);
        runtime.pending_permission = None;
        runtime.pending_user_input = None;
        let message = match runtime.last_driver_error.take() {
            Some(error) => error,
            None => words.exited_before_response.clone(),
        };
        self.settle_exit(session_id, message, stamp);
        self.splice_rows(session_id);
    }

    fn settle_exit(&mut self, session_id: Uuid, message: String, stamp: Stamp)
        ensures
            final(self)@ == old(self)@.exit_settled(session_id, message@, stamp),
    {
        let (busy, running) = match self.state.session_index(session_id) {
            Some(i) => (self.state.sessions[i].is_busy(), self.state.sessions[i].active_turn_id().is_some()),
            None => {
                return;
            },
        };
        if !busy {
            if let Some(i) = self.state.session_mut(session_id) {
                proof {
                    assert(self.state.sessions@ =~= old(self).state.sessions@.update(
                        i as int,
                        self.state.sessions@[i as int],
                    ));
                    lemma_put(old(self).state, self.state, session_id, i as int);
                }
            }
            return;
        }
        let fallback = self.fallback(session_id, message);
        self.settle_outcome(session_id, SessionStatus::Failed, fallback, stamp);
        let ghost failed = *self;
        if let Some(i) = self.state.session_mut(session_id) {
            self.state.sessions[i].updated_at = stamp.secs;
            proof {
                lemma_put(failed.state, self.state, session_id, i as int);
            }
        }
        proof {
            lemma_session_id(old(self)@.state, session_id);
            let told = old(self)@.session(session_id)->0.with_outcome(SessionStatus::Failed, opt(fallback), stamp);
            lemma_put_get(old(self)@.state, session_id, told);
        }
        let _ = self.finish_active_turn(session_id, TurnStatus::Failed, stamp);
        if running {
            self.capture_latest_turn_checkpoint_for(session_id);
        }
    }

    fn on_session_report(
        &mut self,
        session_id: Uuid,
        runtime: &mut SessionRuntime,
        event: DriverEvent,
        stamp: Stamp,
    )
        requires
            !is_output(event),
            !is_course(event),
        ensures
            live(*final(self), *final(runtime)) == live(*old(self), *old(runtime)).session_reported(session_id, event, stamp),
    {
        match event {
            DriverEvent::RuntimeEventCursorAdvanced(cursor) => {
                if let Some(i) = self.state.session_mut(session_id) {
                    self.state.sessions[i].runtime_event_cursor = Some(cursor);
                    proof {
                        lemma_put(old(self).state, self.state, session_id, i as int);
                    }
                }
            },
            DriverEvent::Connected { provider_cursor } => {
                self.on_connected(session_id, runtime, provider_cursor, stamp);
            },
            DriverEvent::NativeSessionsChanged => {
                self.emit(Effect::ReconcileNativeSessions);
            },
            DriverEvent::AgentPresetSelected(preset) => {
                if let Some(i) = self.state.session_mut(session_id) {
                    self.state.sessions[i].agent_preset = preset;
                    proof {
                        lemma_put(old(self).state, self.state, session_id, i as int);
                    }
                }
            },
            DriverEvent::AutoTitleUpdated(title) => {
                if let Some(i) = self.state.session_mut(session_id) {
                    self.state.sessions[i].set_auto_title(title);
                    proof {
                        lemma_put(old(self).state, self.state, session_id, i as int);
                    }
                }
            },
            DriverEvent::AvailableCommands(names) => {
                self.on_commands(session_id, runtime, names);
            },
            DriverEvent::TurnStarted => {
                self.on_turn_started(session_id, runtime);
            },
            DriverEvent::ProviderBusy => {
                self.retry_over(session_id);
                if self.accepts_turn_output(session_id) {
                    runtime.provider_phase = Some(ProviderPhase { since: stamp.secs });
                }
            },
            DriverEvent::ProviderRetry { attempt, message, action, next_at_ms } => {
                self.on_retry(
                    session_id,
                    runtime,
                    ProviderRetry { attempt, message, action, next_at_ms, received_at_ms: stamp.millis },
                );
            },
            DriverEvent::BackgroundWork(work) => {
                // Background work is the session's state, not output of a turn.
                self.emit(Effect::BackgroundWork { session_id, event: work });
            },
            DriverEvent::TurnStatsUpdated(stats) => {
                self.on_turn_stats(session_id, stats);
            },
            DriverEvent::PlanUsageUpdated(_) => {},
            DriverEvent::UsageUpdated { context_tokens, context_window, session_total, cache_read, prompt_tokens } => {
                self.on_usage(session_id, context_tokens, context_window, session_total, cache_read, prompt_tokens);
            },
            _ => {},
        }
    }

    fn on_output(
        &mut self,
        session_id: Uuid,
        runtime: &mut SessionRuntime,
        event: DriverEvent,
        stamp: Stamp,
    )
        requires
            is_output(event),
        ensures
            live(*final(self), *final(runtime)) == live(*old(self), *old(runtime)).output_reported(session_id, event, stamp),
    {
        match event {
            DriverEvent::TextStarted { part } => {
                self.retry_over(session_id);
                if self.accepts_turn_output(session_id) {
                    runtime.provider_phase = None;
                    self.open_text_fragment(session_id, runtime, part, stamp);
                }
            },
            DriverEvent::TextDelta { part, delta } => {
                self.retry_over(session_id);
                if self.accepts_turn_output(session_id) {
                    runtime.provider_phase = None;
                    self.append_keyed_text_delta(session_id, runtime, part, delta, stamp);
                }
            },
            DriverEvent::TextEnded { part, text } => {
                self.retry_over(session_id);
                if self.accepts_turn_output(session_id) {
                    runtime.provider_phase = None;
                    self.complete_text_fragment(session_id, runtime, part, text, stamp);
                }
            },
            DriverEvent::ReasoningStarted { part } => {
                self.retry_over(session_id);
                if self.accepts_turn_output(session_id) {
                    runtime.provider_phase = None;
                    self.open_reasoning_fragment(session_id, runtime, part, stamp);
                }
            },
            DriverEvent::ReasoningDelta { part, delta } => {
                self.retry_over(session_id);
                if self.accepts_turn_output(session_id) {
                    runtime.provider_phase = None;
                    self.append_reasoning_delta(session_id, runtime, part, delta, stamp);
                }
            },
            DriverEvent::ReasoningEnded { part, text } => {
                self.retry_over(session_id);
                if self.accepts_turn_output(session_id) {
                    runtime.provider_phase = None;
                    self.complete_reasoning_fragment(session_id, runtime, part, text, stamp);
                }
            },
            DriverEvent::Activity { id, kind, title, detail, complete } => {
                let item = ActivityItem::new(stamp.id, id, kind, title, detail, complete);
                self.on_activity(session_id, runtime, item, stamp);
            },
            DriverEvent::RichActivity(item) => {
                self.on_activity(session_id, runtime, item, stamp);
            },
            _ => {},
        }
    }

    fn on_course(
        &mut self,
        session_id: Uuid,
        runtime: &mut SessionRuntime,
        event: DriverEvent,
        allow_queue_drain: bool,
        window_active: bool,
        words: &Wordings,
        stamp: Stamp,
    )
        requires
            is_course(event),
        ensures
            live(*final(self), *final(runtime)) == live(*old(self), *old(runtime)).course_reported(
                session_id,
                event,
                allow_queue_drain,
                window_active,
                *words,
                stamp,
            ),
    {
        match event {
            DriverEvent::Permission { request_id, title, detail, options } => {
                if self.accepts_turn_output(session_id) {
                    runtime.provider_phase = None;
                    runtime.pending_permission = Some(PendingPermission { request_id, title, detail, options });
                    self.set_status(session_id, SessionStatus::Waiting);
                }
            },
            DriverEvent::UserInputRequested { request_id, questions } => {
                if self.accepts_turn_output(session_id) && questions.len() > 0 {
                    runtime.provider_phase = None;
                    runtime.pending_user_input = Some(PendingUserInput { request_id, questions });
                    if self.state.selected_session == Some(session_id) {
                        self.emit(Effect::ClearUserInputAnswer);
                    }
                    self.set_status(session_id, SessionStatus::Waiting);
                }
            },
            DriverEvent::SteerAccepted { message } => {
                self.on_steer_accepted(session_id, runtime, message, stamp);
            },
            DriverEvent::SteerRejected { message, reason } => {
                self.on_steer_rejected(session_id, runtime, message, reason, allow_queue_drain, stamp);
            },
            DriverEvent::CompactionUpdated(state) => {
                self.on_compaction(session_id, runtime, state, stamp);
            },
            DriverEvent::TurnFinished { success, summary } => {
                self.on_turn_finished(
                    session_id,
                    runtime,
                    success,
                    summary,
                    allow_queue_drain,
                    window_active,
                    words,
                    stamp,
                );
            },
            DriverEvent::Error(error) => {
                self.on_error(session_id, runtime, error, stamp);
            },
            DriverEvent::ProcessExited => {
                self.on_process_exited(session_id, runtime, words, stamp);
            },
            _ => {},
        }
    }

    /// Takes in one report of a provider's driver; whether the runtime stays attached.
    ///
    /// `allow_queue_drain` is false while the events of a turn that the user has just
    /// stopped are flushed: settling must not start queued follow-ups then.
    pub fn handle_driver_event(
        &mut self,
        session_id: Uuid,
        runtime: &mut SessionRuntime,
        event: DriverEvent,
        allow_queue_drain: bool,
        window_active: bool,
        words: &Wordings,
        stamp: Stamp,
    ) -> (r: bool)
        ensures
            live(*final(self), *final(runtime)) == live(*old(self), *old(runtime)).handled(
                session_id,
                event,
                allow_queue_drain,
                window_active,
                *words,
                stamp,
            ),
            r == (event !is ProcessExited),
    {
        reveal(Live::handled);
        runtime.last_active_at = stamp.millis;
        let exited = matches!(event, DriverEvent::ProcessExited);
        match event {
            DriverEvent::TextStarted { .. }
            | DriverEvent::TextDelta { .. }
            | DriverEvent::TextEnded { .. }
            | DriverEvent::ReasoningStarted { .. }
            | DriverEvent::ReasoningDelta { .. }
            | DriverEvent::ReasoningEnded { .. }
            | DriverEvent::Activity { .. }
            | DriverEvent::RichActivity(_) => {
                self.on_output(session_id, runtime, event, stamp);
            },
            DriverEvent::Permission { .. }
            | DriverEvent::UserInputRequested { .. }
            | DriverEvent::SteerAccepted { .. }
            | DriverEvent::SteerRejected { .. }
            | DriverEvent::CompactionUpdated(_)
            | DriverEvent::TurnFinished { .. }
            | DriverEvent::Error(_)
            | DriverEvent::ProcessExited => {
                self.on_course(session_id, runtime, event, allow_queue_drain, window_active, words, stamp);
            },
            _ => {
                self.on_session_report(session_id, runtime, event, stamp);
            },
        }
        !exited
    }
}

} // verus!
