//! Submitting prompts: queueing, steering, starting a turn, and what follows from it.
use std::collections::VecDeque;
use vstd::prelude::*;
use vstd::string::*;

use crate::desk::{
    lemma_put, lemma_session_id, wording, ComposerSubmission, ComposerSubmissionView, DriverStart,
    DriverStartView, Effect, EffectView, RuntimeView, SessionRuntime, Text, composer_submission_views,
};
use crate::events::DriverEvent;
use crate::ids::{Stamp, Uuid};
use crate::live::{runtime_views, Desk, DeskView};
use crate::model::{
    next_turn_count, queued_message_views, AgentSession, AgentSessionView, CompactionStatus,
    ProjectView, QueuedMessageView, SessionStatus,
};
use crate::probes::{Catalog, CatalogView};
use crate::text::{is_space, same, trim_start, white};

verus! {

/// How many characters stand before the first white space.
pub open spec fn word_len(s: Seq<char>) -> int
    decreases s.len(),
{
    if s.len() == 0 || is_space(s[0]) {
        0
    } else {
        1 + word_len(s.drop_first())
    }
}

/// The first word of a text.
pub open spec fn first_word(s: Seq<char>) -> Seq<char> {
    trim_start(s).take(word_len(trim_start(s)))
}

/// The text asks for a compaction rather than being a prompt: it must never reach
/// the model.
pub open spec fn asks_for_compaction(prompt: Seq<char>) -> bool {
    first_word(prompt) == "/compact"@
}

/// Whether the text of the composer asks for a compaction.
pub fn is_compact_submission(prompt: &str) -> (r: bool)
    ensures
        r == asks_for_compaction(prompt@),
{
    let n: usize = prompt.unicode_len();
    let mut a: usize = 0;
    assert(prompt@.skip(0) =~= prompt@);
    while a < n && white(prompt.get_char(a))
        invariant
            a <= n == prompt@.len(),
            trim_start(prompt@) == trim_start(prompt@.skip(a as int)),
        decreases n - a,
    {
        assert(prompt@.skip(a as int).drop_first() =~= prompt@.skip(a + 1));
        a = a + 1;
    }
    assert(trim_start(prompt@) == prompt@.skip(a as int));
    let mut b: usize = a;
    while b < n && !white(prompt.get_char(b))
        invariant
            a <= b <= n == prompt@.len(),
            word_len(prompt@.skip(a as int)) == (b - a) + word_len(prompt@.skip(b as int)),
        decreases n - b,
    {
        assert(prompt@.skip(b as int).drop_first() =~= prompt@.skip(b + 1));
        b = b + 1;
    }
    let word = prompt.substring_char(a, b);
    assert(word@ =~= first_word(prompt@));
    same(word, "/compact")
}

/// The follow-ups other than one.
pub open spec fn without_queued(queue: Seq<QueuedMessageView>, id: Uuid) -> Seq<QueuedMessageView>
    decreases queue.len(),
{
    if queue.len() == 0 {
        queue
    } else {
        let rest = without_queued(queue.drop_last(), id);
        if queue.last().id != id {
            rest.push(queue.last())
        } else {
            rest
        }
    }
}

/// The ids of the follow-ups.
pub open spec fn queued_ids(queue: Seq<QueuedMessageView>) -> Seq<Uuid> {
    queue.map_values(|m: QueuedMessageView| m.id)
}

/// A follow-up as a submission.
pub open spec fn as_submission(message: QueuedMessageView) -> ComposerSubmissionView {
    ComposerSubmissionView {
        prompt: message.prompt,
        display_content: message.display_content,
        attachments: message.attachments,
    }
}

/// The events that concern work in the background; they outlive a turn.
pub open spec fn background_only(events: Seq<DriverEvent>) -> Seq<DriverEvent>
    decreases events.len(),
{
    if events.len() == 0 {
        events
    } else {
        let rest = background_only(events.drop_last());
        if events.last() is BackgroundWork {
            rest.push(events.last())
        } else {
            rest
        }
    }
}

/// Keeps only the events that concern work in the background.
pub fn retain_background(events: &mut VecDeque<DriverEvent>)
    ensures
        final(events)@ == background_only(old(events)@),
{
    let ghost all = events@;
    let mut rest: VecDeque<DriverEvent> = VecDeque::new();
    let ghost mut done: int = 0;
    assert(all.skip(0) =~= all);
    assert(all.take(0) =~= Seq::empty());
    while events.len() > 0
        invariant
            0 <= done <= all.len(),
            events@ == all.skip(done),
            rest@ == background_only(all.take(done)),
        decreases events@.len(),
    {
        proof {
            crate::seqs::lemma_take_step(all, done);
            assert(all.skip(done).drop_first() =~= all.skip(done + 1));
        }
        if let Some(event) = events.pop_front() {
            assert(event == all[done]);
            if matches!(event, DriverEvent::BackgroundWork(_)) {
                rest.push_back(event);
            }
        }
        proof {
            assert(events@ =~= all.skip(done + 1));
            done = done + 1;
        }
    }
    assert(all.take(done) =~= all);
    *events = rest;
}

impl RuntimeView {
    /// The runtime ready for a new turn.
    pub open spec fn readied(self, stamp: Stamp) -> RuntimeView {
        RuntimeView {
            pending_events: background_only(self.pending_events),
            pending_steers: Seq::empty(),
            stream_remeasure_pending: false,
            stream_phase: None,
            open_reasoning: Map::empty(),
            settled_reasoning: Set::empty(),
            provider_phase: None,
            pending_permission: None,
            pending_user_input: None,
            last_active_at: stamp.millis,
            ..self
        }
    }
}

impl SessionRuntime {
    /// Makes the runtime ready for a new turn.
    pub fn ready(&mut self, stamp: Stamp)
        ensures
            final(self)@ == old(self)@.readied(stamp),
    {
        retain_background(&mut self.pending_events);
        self.pending_steers = VecDeque::new();
        assert(composer_submission_views(self.pending_steers@) =~= Seq::empty());
        self.stream_remeasure_pending = false;
        self.stream_phase = None;
        self.open_reasoning.clear();
        self.settled_reasoning.clear();
        self.provider_phase = None;
        self.pending_permission = None;
        self.pending_user_input = None;
        self.last_active_at = stamp.millis;
    }
}

impl AgentSessionView {
    /// The session once a submission was accepted: it is named after its first
    /// prompt, the turn has begun, and it is busy before anything else happens. How a turn
    /// begins is this library's own model of a session.
    pub open spec fn with_accepted(self, submission: ComposerSubmissionView, stamp: Stamp) -> AgentSessionView {
        let named = if self.title == crate::model::DEFAULT_TITLE@ && !crate::text::blank(submission.human()) {
            AgentSessionView { title: crate::text::trimmed(submission.human()), ..self }
        } else {
            self
        };
        AgentSessionView {
            status: SessionStatus::Connecting,
            ..named.with_turn_begun(submission.prompt, submission.display_content, submission.attachments, stamp)
        }
    }
}

impl DeskView {
    /// The provider is asked to compact the context of the session.
    pub open spec fn compaction_asked(self, id: Uuid) -> DeskView {
        let running = match self.session(id) {
            Some(session) => session.compaction is Some && session.compaction->0.status == CompactionStatus::Running,
            None => false,
        };
        if running {
            self
        } else if self.runtimes.dom().contains(id) {
            self.emit(EffectView::DriverCompact(id)).emit_if(
                self.selected(id),
                EffectView::Toast(wording("session.compaction_requested")),
            ).emit(EffectView::Notify)
        } else {
            self.emit_if(self.selected(id), EffectView::Toast(wording("session.compaction_unavailable"))).emit(
                EffectView::Notify,
            )
        }
    }

    /// How a submission of the session gets its provider.
    pub open spec fn driver_start(self, session: AgentSessionView, catalog: CatalogView) -> DriverStartView {
        if self.runtimes.dom().contains(session.id) {
            DriverStartView::Reuse
        } else {
            let cwd = match self.state.workspace_path(session) {
                Some(path) => path,
                None => Seq::empty(),
            };
            match catalog.start_for(session, cwd) {
                Some(options) => DriverStartView::Start(options),
                None => DriverStartView::Missing,
            }
        }
    }

    /// A submission to the session: refused while a response is forked from it,
    /// queued while its last checkpoint is on its way or it is busy, handed back
    /// where its project is gone, and else accepted.
    pub open spec fn submitted(
        self,
        id: Uuid,
        submission: ComposerSubmissionView,
        catalog: CatalogView,
        stamp: Stamp,
    ) -> DeskView {
        match self.session(id) {
            None => self,
            Some(session) => if self.response_fork_preparations.dom().contains(id) {
                self
            } else if self.ending_checkpoint_pending(id) {
                self.follow_up_queued(id, submission, stamp).drain_deferred(id)
            } else if session.status.busy() {
                self.follow_up_queued(id, submission, stamp)
            } else {
                match self.state.project(session.project_id) {
                    None => (if self.selected(id) {
                        self.emit(EffectView::RestoreComposer(submission)).emit(
                            EffectView::Toast(wording("errors.prepare_task_project_not_found")),
                        )
                    } else {
                        self
                    }).emit(EffectView::Notify),
                    Some(project) => self.accepted(id, session, project, submission, catalog, stamp),
                }
            },
        }
    }

    /// A submission is accepted: its turn begins, and the host prepares it.
    pub open spec fn accepted(
        self,
        id: Uuid,
        session: AgentSessionView,
        project: ProjectView,
        submission: ComposerSubmissionView,
        catalog: CatalogView,
        stamp: Stamp,
    ) -> DeskView {
        let begun = DeskView {
            submission_preparations: self.submission_preparations.insert(id),
            message_edit: if self.selected(id) {
                None
            } else {
                self.message_edit
            },
            ..self.put(id, session.with_accepted(submission, stamp))
        };
        (if self.selected(id) {
            begun.emit(EffectView::ClearExpansions).emit(EffectView::HideToast).emit(
                EffectView::AnchorTurn { session_id: id, turn_id: stamp.turn },
            ).emit(EffectView::SpliceTranscriptRows(id))
        } else {
            begun
        }).emit(EffectView::Notify).emit(
            EffectView::PrepareSubmission {
                session_id: id,
                project,
                workspace: session.workspace,
                prompt: submission.human(),
                turn_count: next_turn_count(session.turns.len()),
                driver: self.driver_start(session, catalog),
            },
        )
    }

    /// A submission from the composer, to the session on screen.
    pub open spec fn composer_submitted(
        self,
        submission: ComposerSubmissionView,
        catalog: CatalogView,
        stamp: Stamp,
    ) -> DeskView {
        match self.state.selected_session {
            Some(id) => match self.session(id) {
                Some(session) => if self.response_fork_preparations.dom().contains(id) {
                    self
                } else if asks_for_compaction(submission.prompt) {
                    self.compaction_asked(id)
                } else if self.undo_redo_preparations.contains(id) {
                    self.follow_up_queued(id, submission, stamp)
                } else if session.status.busy() {
                    self.follow_up_queued(id, submission, stamp)
                } else {
                    self.submitted(id, submission, catalog, stamp)
                },
                None => self,
            },
            None => self,
        }
    }

    /// The next follow-up of the session starts, where nothing stands in its way.
    pub open spec fn queue_drained(self, id: Uuid, catalog: CatalogView, stamp: Stamp) -> DeskView {
        match self.session(id) {
            Some(session) => if self.response_fork_preparations.dom().contains(id) || self.undo_redo_preparations.contains(
                id,
            ) || session.status.busy() || session.queued_messages.len() == 0 || self.ending_checkpoint_pending(id) {
                self
            } else {
                self.put(
                    id,
                    AgentSessionView { queued_messages: session.queued_messages.remove(0), ..session },
                ).submitted(id, as_submission(session.queued_messages[0]), catalog, stamp)
            },
            None => self,
        }
    }
}

impl Desk {
    /// Takes a runtime off the desk.
    pub fn take_runtime(&mut self, session_id: Uuid) -> (r: Option<SessionRuntime>)
        ensures
            final(self)@ == (DeskView { runtimes: old(self)@.runtimes.remove(session_id), ..old(self)@ }),
            match r {
                Some(runtime) => old(self)@.runtimes.dom().contains(session_id) && runtime@
                    == old(self)@.runtimes[session_id],
                None => !old(self)@.runtimes.dom().contains(session_id),
            },
    {
        let r = self.runtimes.remove(session_id);
        assert(runtime_views(self.runtimes@) =~= runtime_views(old(self).runtimes@).remove(session_id));
        r
    }

    /// Puts a runtime on the desk.
    pub fn put_runtime(&mut self, session_id: Uuid, runtime: SessionRuntime)
        ensures
            final(self)@ == (DeskView { runtimes: old(self)@.runtimes.insert(session_id, runtime@), ..old(self)@ }),
    {
        let _ = self.runtimes.insert(session_id, runtime);
        assert(runtime_views(self.runtimes@) =~= runtime_views(old(self).runtimes@).insert(session_id, runtime@));
    }

    /// Whether a runtime is attached to the session.
    pub fn has_runtime(&self, session_id: Uuid) -> (r: bool)
        ensures
            r == self@.runtimes.dom().contains(session_id),
    {
        assert(runtime_views(self.runtimes@).dom() =~= self.runtimes@.dom());
        self.runtimes.contains_key(session_id)
    }

    /// Whether the session is the one on screen.
    pub fn is_selected(&self, session_id: Uuid) -> (r: bool)
        ensures
            r == self@.selected(session_id),
    {
        self.state.selected_session == Some(session_id)
    }

    /// Asks the provider to compact the context of the session. While one is running
    /// the provider coalesces repeats, and nothing is said.
    pub fn request_context_compaction(&mut self, session_id: Uuid)
        ensures
            final(self)@ == old(self)@.compaction_asked(session_id),
    {
        let running = match self.state.session_index(session_id) {
            Some(i) => match &self.state.sessions[i].compaction {
                Some(compaction) => compaction.status == CompactionStatus::Running,
                None => false,
            },
            None => false,
        };
        if running {
            return;
        }
        if self.has_runtime(session_id) {
            self.emit(Effect::DriverCompact(session_id));
            if self.is_selected(session_id) {
                self.emit(Effect::Toast(Text::key("session.compaction_requested")));
            }
        } else if self.is_selected(session_id) {
            self.emit(Effect::Toast(Text::key("session.compaction_unavailable")));
        }
        self.emit(Effect::Notify);
    }

    fn driver_start_for(&self, session: &AgentSession, catalog: &Catalog) -> (r: DriverStart)
        ensures
            r@ == self@.driver_start(session@, catalog@),
    {
        if self.has_runtime(session.id) {
            return DriverStart::Reuse;
        }
        let cwd = match self.state.workspace_path_for_session(session) {
            Some(path) => path.to_owned(),
            None => String::new(),
        };
        assert(self@.state.workspace_path(session@) is None ==> cwd@ =~= Seq::empty());
        match catalog.driver_start_request_for_session(session, cwd) {
            Some(options) => DriverStart::Start(options),
            None => DriverStart::Missing,
        }
    }

    /// Submits to a session. The turn begins at once: what was sent and the sign that
    /// the agent works belong in the transcript the moment it is accepted.
    pub fn submit_submission_for_session(
        &mut self,
        session_id: Uuid,
        submission: ComposerSubmission,
        catalog: &Catalog,
        stamp: Stamp,
    )
        ensures
            final(self)@ == old(self)@.submitted(session_id, submission@, catalog@, stamp),
    {
        let i = match self.state.session_index(session_id) {
            Some(i) => i,
            None => {
                return;
            },
        };
        if self.response_fork_preparations.contains_key(session_id) {
            return;
        }
        if self.ending_checkpoint_pending(session_id) {
            self.enqueue_follow_up_submission(session_id, submission, stamp);
            self.defer_queue_drain(session_id);
            return;
        }
        if self.state.sessions[i].status.is_busy() {
            self.enqueue_follow_up_submission(session_id, submission, stamp);
            return;
        }
        let selected = self.is_selected(session_id);
        let project = match self.state.project_index(self.state.sessions[i].project_id) {
            Some(p) => self.state.projects[p].clone(),
            None => {
                if selected {
                    self.emit(Effect::RestoreComposer(submission));
                    self.emit(Effect::Toast(Text::key("errors.prepare_task_project_not_found")));
                }
                self.emit(Effect::Notify);
                return;
            },
        };
        let driver = self.driver_start_for(&self.state.sessions[i], catalog);
        let workspace = self.state.sessions[i].workspace.clone();
        let turn_count = self.state.sessions[i].turns.len().saturating_add(1);
        proof {
            assert(turn_count == next_turn_count(self@.state.sessions[i as int].turns.len()));
            lemma_session_id(old(self)@.state, session_id);
        }
        let prompt = submission.human_prompt().to_owned();
        self.begin_submission(session_id, submission, selected, stamp);
        self.emit(Effect::Notify);
        self.emit(
            Effect::PrepareSubmission { session_id, project, workspace, prompt, turn_count, driver },
        );
    }

    fn begin_submission(&mut self, session_id: Uuid, submission: ComposerSubmission, selected: bool, stamp: Stamp)
        requires
            old(self)@.session(session_id) is Some,
            selected == old(self)@.selected(session_id),
        ensures
            final(self)@ == ({
                let begun = DeskView {
                    submission_preparations: old(self)@.submission_preparations.insert(session_id),
                    message_edit: if selected {
                        None
                    } else {
                        old(self)@.message_edit
                    },
                    ..old(self)@.put(
                        session_id,
                        old(self)@.session(session_id)->0.with_accepted(submission@, stamp),
                    )
                };
                if selected {
                    begun.emit(EffectView::ClearExpansions).emit(EffectView::HideToast).emit(
                        EffectView::AnchorTurn { session_id, turn_id: stamp.turn },
                    ).emit(EffectView::SpliceTranscriptRows(session_id))
                } else {
                    begun
                }
            }),
    {
        if let Some(i) = self.state.session_mut(session_id) {
            accept_submission(&mut self.state.sessions[i], submission, stamp);
            proof {
                lemma_put(old(self).state, self.state, session_id, i as int);
            }
        }
        let _ = self.submission_preparations.insert(session_id);
        if selected {
            self.message_edit = None;
            self.emit(Effect::ClearExpansions);
            self.emit(Effect::HideToast);
            self.emit(Effect::AnchorTurn { session_id, turn_id: stamp.turn });
            self.emit(Effect::SpliceTranscriptRows(session_id));
        }
    }

    /// Submits from the composer. A text that asks for a compaction is neither sent nor
    /// queued, whatever the session is at. While the agent works any other message is
    /// queued rather than refused, and while an undo is under way it waits for that.
    pub fn submit_composer_submission(&mut self, submission: ComposerSubmission, catalog: &Catalog, stamp: Stamp)
        ensures
            final(self)@ == old(self)@.composer_submitted(submission@, catalog@, stamp),
    {
        let session_id = match self.state.selected_session {
            Some(id) => id,
            None => {
                return;
            },
        };
        let busy = match self.state.session_index(session_id) {
            Some(i) => self.state.sessions[i].is_busy(),
            None => {
                return;
            },
        };
        if self.response_fork_preparations.contains_key(session_id) {
            return;
        }
        if is_compact_submission(submission.prompt.as_str()) {
            self.request_context_compaction(session_id);
            return;
        }
        if self.undo_redo_preparations.contains(session_id) {
            self.enqueue_follow_up_submission(session_id, submission, stamp);
            return;
        }
        if busy {
            self.enqueue_follow_up_submission(session_id, submission, stamp);
            return;
        }
        self.submit_submission_for_session(session_id, submission, catalog, stamp);
    }

    /// Starts the next follow-up of the session as a turn of its own.
    pub fn drain_queued_message(&mut self, session_id: Uuid, catalog: &Catalog, stamp: Stamp)
        ensures
            final(self)@ == old(self)@.queue_drained(session_id, catalog@, stamp),
    {
        if self.response_fork_preparations.contains_key(session_id) || self.undo_redo_preparations.contains(session_id) {
            return;
        }
        match self.state.session_index(session_id) {
            Some(i) => {
                assert(queued_message_views(self.state.sessions@[i as int].queued_messages@).len()
                    == self.state.sessions@[i as int].queued_messages@.len());
                if self.state.sessions[i].is_busy() || self.state.sessions[i].queued_messages.len() == 0 {
                    return;
                }
            },
            None => {
                return;
            },
        }
        if self.ending_checkpoint_pending(session_id) {
            return;
        }
        if let Some(i) = self.state.session_mut(session_id) {
            let message = self.state.sessions[i].queued_messages.remove(0);
            proof {
                let after = self.state.sessions@[i as int];
                let before = old(self).state.sessions@[i as int];
                assert(queued_message_views(after.queued_messages@) =~= queued_message_views(
                    before.queued_messages@,
                ).remove(0));
                lemma_put(old(self).state, self.state, session_id, i as int);
            }
            self.submit_submission_for_session(
                session_id,
                ComposerSubmission::from_queued_message(message),
                catalog,
                stamp,
            );
        }
    }
}

/// Accepts a submission: names the session, begins the turn and makes it busy.
pub fn accept_submission(session: &mut AgentSession, submission: ComposerSubmission, stamp: Stamp)
    ensures
        final(session)@ == old(session)@.with_accepted(submission@, stamp),
{
    session.set_title_from_prompt(submission.human_prompt());
    let _ = session.begin_turn_with_presentation(
        submission.prompt.as_str(),
        submission.display_content,
        submission.attachments,
        stamp,
    );
    session.status = SessionStatus::Connecting;
    session.updated_at = stamp.secs;
}

} // verus!
