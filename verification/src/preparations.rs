//! The queue of follow-ups, steering, and what the host hands back: prepared
//! submissions and captured checkpoints.
use vstd::prelude::*;

use crate::desk::{
    composer_submission_views, lemma_put, pending_checkpoint_capture_views, wording_with,
    ComposerSubmission, ComposerSubmissionView, Effect, EffectView, PendingCheckpointCapture,
    PendingCheckpointCaptureView, RuntimeView, SessionRuntime, Text, TextView,
};
use crate::ids::{Stamp, Uuid};
use crate::live::{runtime_views, Desk, DeskView};
use crate::model::{
    queued_message_views, turn_views, AgentSession, AgentSessionView, Checkpoint, CheckpointStatus,
    CheckpointView, QueuedMessage, QueuedMessageView, SessionStatus, SessionWorkspace, SessionWorkspaceView, Turn,
    TurnStatus, TurnView,
};
use crate::probes::{Catalog, CatalogView};
use crate::seqs::{lemma_pos_none, lemma_pos_some, pos};
use crate::submissions::{as_submission, asks_for_compaction, is_compact_submission, queued_ids, without_queued};
use crate::text::opt;

verus! {

/// The provider that a prepared submission brings.
#[derive(Debug)]
pub enum PreparedDriver {
    /// The one that runs.
    Reused,
    /// A new one; whether a running turn takes further messages.
    Started { supports_steer: bool },
    /// None could be started; the text says why.
    Failed { message: String },
}

/// A submission that the host has prepared.
#[derive(Debug)]
pub struct PreparedSubmission {
    pub workspace: SessionWorkspace,
    pub checkpoint_warning: Option<Text>,
    pub driver: PreparedDriver,
}

/// What an optional wording says.
pub open spec fn text_opt(text: Option<Text>) -> Option<TextView> {
    match text {
        Some(text) => Some(text@),
        None => None,
    }
}

/// Where a turn with this count first stands.
pub open spec fn turn_pos(turns: Seq<TurnView>, turn_count: usize) -> Option<int>
    decreases turns.len(),
{
    if turns.len() == 0 {
        None
    } else if turns[0].turn_count == turn_count {
        Some(0)
    } else {
        match turn_pos(turns.drop_first(), turn_count) {
            Some(i) => Some(i + 1),
            None => None,
        }
    }
}

pub(crate) proof fn lemma_turn_pos(turns: Seq<TurnView>, turn_count: usize)
    ensures
        turn_pos(turns, turn_count) matches Some(i) ==> 0 <= i < turns.len() && turns[i].turn_count == turn_count,
    decreases turns.len(),
{
    if turns.len() > 0 {
        lemma_turn_pos(turns.drop_first(), turn_count);
    }
}

/// Finds the first turn with this count.
pub fn turn_position(turns: &Vec<Turn>, turn_count: usize) -> (r: Option<usize>)
    ensures
        match r {
            Some(i) => turn_pos(turn_views(turns@), turn_count) == Some(i as int) && i < turns@.len(),
            None => turn_pos(turn_views(turns@), turn_count) is None,
        },
{
    let ghost views = turn_views(turns@);
    let mut i: usize = 0;
    assert(views.skip(0) =~= views);
    while i < turns.len()
        invariant
            i <= turns@.len(),
            views == turn_views(turns@),
            turn_pos(views, turn_count) == (match turn_pos(views.skip(i as int), turn_count) {
                Some(k) => Some(k + i),
                None => None,
            }),
        decreases turns@.len() - i,
    {
        assert(views.skip(i as int)[0] == turns@[i as int]@);
        assert(views.skip(i as int).drop_first() =~= views.skip(i + 1));
        if turns[i].turn_count == turn_count {
            return Some(i);
        }
        i = i + 1;
    }
    assert(views.skip(i as int).len() == 0);
    None
}

impl DeskView {
    /// A message steered into the running turn of the session on screen. Where the
    /// turn cannot be steered it is queued, and where none runs it is submitted.
    pub open spec fn steered(self, submission: ComposerSubmissionView, catalog: CatalogView, stamp: Stamp) -> DeskView {
        match self.state.selected_session {
            Some(id) => match self.session(id) {
                Some(session) => if asks_for_compaction(submission.prompt) {
                    self.compaction_asked(id)
                } else if !session.status.busy() {
                    self.composer_submitted(submission, catalog, stamp)
                } else if session.status != SessionStatus::Connecting && self.runtimes.dom().contains(id)
                    && self.runtimes[id].supports_steer {
                    let runtime = self.runtimes[id];
                    DeskView {
                        runtimes: self.runtimes.insert(
                            id,
                            RuntimeView { pending_steers: runtime.pending_steers.push(submission), ..runtime },
                        ),
                        ..self.emit(EffectView::DriverSteer { session_id: id, prompt: submission.prompt })
                    }.emit(EffectView::Notify)
                } else {
                    self.follow_up_queued(id, submission, stamp)
                },
                None => self,
            },
            None => self,
        }
    }

    /// The desk with a follow-up taken out of the queue of a session.
    pub open spec fn unqueued(self, id: Uuid, message_id: Uuid) -> DeskView {
        match self.session(id) {
            Some(session) => self.put(
                id,
                AgentSessionView {
                    queued_messages: match pos(queued_ids(session.queued_messages), message_id) {
                        Some(i) => session.queued_messages.remove(i),
                        None => session.queued_messages,
                    },
                    ..session
                },
            ),
            None => self,
        }
    }

    /// A follow-up in the queue of a session.
    pub open spec fn queued(self, id: Uuid, message_id: Uuid) -> Option<QueuedMessageView> {
        match self.session(id) {
            Some(session) => match pos(queued_ids(session.queued_messages), message_id) {
                Some(i) => Some(session.queued_messages[i]),
                None => None,
            },
            None => None,
        }
    }

    /// Checkpoints that were asked for are being captured, each once.
    pub open spec fn capturing(self, captures: Seq<PendingCheckpointCaptureView>) -> DeskView
        decreases captures.len(),
    {
        if captures.len() == 0 {
            self
        } else {
            let before = self.capturing(captures.drop_last());
            let capture = captures.last();
            let key = (capture.session_id, capture.turn_count);
            if before.checkpoint_captures_in_flight.contains(key) {
                before
            } else {
                DeskView {
                    checkpoint_captures_in_flight: before.checkpoint_captures_in_flight.push(key),
                    ..before
                }.emit(EffectView::CaptureCheckpoint(capture))
            }
        }
    }

    /// Every checkpoint that was asked for is being captured.
    pub open spec fn captures_started(self) -> DeskView {
        DeskView { pending_checkpoint_captures: Seq::empty(), ..self }.capturing(self.pending_checkpoint_captures)
    }

    /// A submission could not be prepared: its turn leaves the transcript, and its
    /// prompt goes back to the composer.
    pub open spec fn preparation_failed(self, id: Uuid, submission: ComposerSubmissionView, error: Seq<char>) -> DeskView {
        let freed = DeskView { submission_preparations: self.submission_preparations.remove(id), ..self };
        let unwound = match freed.session(id) {
            Some(session) => freed.put(
                id,
                if session.status == SessionStatus::Connecting {
                    AgentSessionView {
                        status: SessionStatus::Idle,
                        ..match session.active_turn() {
                            Some(turn) => session.with_turn_unwound(turn),
                            None => session,
                        }
                    }
                } else {
                    session
                },
            ),
            None => freed,
        };
        (if self.selected(id) {
            unwound.emit(EffectView::ReleaseAnchor(id)).emit(EffectView::SpliceTranscriptRows(id)).emit(
                EffectView::RestoreComposer(submission),
            ).emit(EffectView::Toast(wording_with("errors.create_worktree", "error", error)))
        } else {
            unwound
        }).emit(EffectView::Notify)
    }

    /// The turn of a prepared submission is still the untouched one.
    pub open spec fn can_start(self, id: Uuid) -> bool {
        match self.session(id) {
            Some(session) => session.status == SessionStatus::Connecting && session.active_turn() is Some
                && !session.turns.last().provider_turn_started,
            None => false,
        }
    }

    /// The desk with the session in the checkout that was prepared.
    pub open spec fn moved_to(self, id: Uuid, workspace: SessionWorkspaceView) -> DeskView {
        let session = self.session(id)->0;
        let moved = self.put(id, AgentSessionView { workspace, ..session });
        if self.selected(id) && session.workspace != workspace {
            moved.emit(EffectView::InvalidateWorkspaceQueries).emit(EffectView::ReloadPanelFiles).emit(
                EffectView::EnsurePanelTerminals,
            )
        } else {
            moved
        }
    }

    /// The desk with the session's runtime ready for a new turn.
    pub open spec fn runtime_readied(self, id: Uuid, stamp: Stamp) -> DeskView {
        if self.runtimes.dom().contains(id) {
            DeskView {
                runtimes: self.runtimes.insert(id, self.runtimes[id].readied(stamp)),
                provider_retries: self.provider_retries.remove(id),
                ..self
            }
        } else {
            self
        }
    }

    /// The prompt is handed to the provider.
    pub open spec fn prompted(self, id: Uuid, prompt: Seq<char>) -> DeskView {
        let sent = self.emit(EffectView::ClearStagedUndo(id)).emit(EffectView::DriverPrompt { session_id: id, prompt });
        DeskView { submission_preparations: sent.submission_preparations.remove(id), ..sent }.emit(
            EffectView::Notify,
        ).emit(EffectView::SaveNextFrame)
    }

    /// No provider could be started: the turn fails with a reply that says why.
    pub open spec fn start_failed(self, id: Uuid, message: Seq<char>, stamp: Stamp) -> DeskView {
        let settled = self.outcome(id, SessionStatus::Failed, Some(message), stamp).turn_finished(
            id,
            TurnStatus::Failed,
            stamp,
        );
        DeskView {
            submission_preparations: settled.submission_preparations.remove(id),
            ..settled
        }.capture_requested(id).captures_started().emit(EffectView::Notify).emit(EffectView::SaveNextFrame)
    }
}

/// What stands for a checkpoint that could not be captured.
pub open spec fn failed_checkpoint(turn_count: usize, git_ref: Seq<char>, now: u64) -> CheckpointView {
    CheckpointView {
        turn_count,
        git_ref,
        status: CheckpointStatus::Error,
        files: Seq::empty(),
        additions: 0,
        deletions: 0,
        created_at: now,
    }
}

impl DeskView {
    /// The host hands back a submission that it prepared.
    pub open spec fn preparation_settled(
        self,
        id: Uuid,
        submission: ComposerSubmissionView,
        prepared: Result<PreparedSubmission, String>,
        expanded: Option<Seq<char>>,
        runtime_unavailable: Seq<char>,
        stamp: Stamp,
    ) -> DeskView {
        let prompt = match expanded {
            Some(prompt) => prompt,
            None => submission.prompt,
        };
        if !self.submission_preparations.contains(id) {
            self
        } else {
            match prepared {
                Err(error) => self.preparation_failed(id, submission, error@),
                Ok(prepared) => if !self.can_start(id) {
                    DeskView { submission_preparations: self.submission_preparations.remove(id), ..self }.emit(
                        EffectView::Notify,
                    )
                } else {
                    let moved = self.moved_to(id, prepared.workspace@);
                    let installed = match prepared.driver {
                        PreparedDriver::Started { supports_steer } => DeskView {
                            runtimes: moved.runtimes.insert(id, RuntimeView::fresh(supports_steer, stamp)),
                            ..moved
                        },
                        _ => moved,
                    };
                    let ready = installed.emit(EffectView::InvalidateCheckpointRefs).runtime_readied(id, stamp);
                    let warned = match prepared.checkpoint_warning {
                        Some(warning) => ready.emit_if(self.selected(id), EffectView::Toast(warning@)),
                        None => ready,
                    };
                    match prepared.driver {
                        PreparedDriver::Failed { message } => warned.start_failed(id, message@, stamp),
                        PreparedDriver::Reused => if self.runtimes.dom().contains(id) {
                            warned.prompted(id, prompt)
                        } else {
                            warned.start_failed(id, runtime_unavailable, stamp)
                        },
                        PreparedDriver::Started { .. } => warned.prompted(id, prompt),
                    }
                },
            }
        }
    }

    /// The host hands back a checkpoint that it captured, with what went wrong.
    pub open spec fn checkpoint_settled(
        self,
        id: Uuid,
        turn_count: usize,
        checkpoint: CheckpointView,
        error: Option<Seq<char>>,
        catalog: CatalogView,
        stamp: Stamp,
    ) -> DeskView {
        let told = self.capture_landed(id, turn_count, error);
        let attached = told.captured_turn(id, turn_count);
        let kept = told.with_checkpoint(id, turn_count, checkpoint);
        let shown = match attached {
            Some(turn) => if self.selected(id) {
                kept.emit(EffectView::SpliceTranscriptRows(id)).emit(EffectView::RemeasureChangedFiles(turn))
            } else {
                kept
            },
            None => kept,
        };
        shown.drain_resumed(id, catalog, stamp).emit(EffectView::Notify).emit_if(
            attached is Some,
            EffectView::SaveNextFrame,
        )
    }

    /// A capture is no longer under way.
    #[verifier::opaque]
    pub open spec fn capture_landed(self, id: Uuid, turn_count: usize, error: Option<Seq<char>>) -> DeskView {
        let landed = DeskView {
            checkpoint_captures_in_flight: without_capture(self.checkpoint_captures_in_flight, (id, turn_count)),
            ..self
        };
        (match error {
            Some(text) => landed.emit(
                EffectView::Toast(wording_with("errors.capture_turn_checkpoint", "error", text)),
            ),
            None => landed,
        }).emit(EffectView::InvalidateCheckpointRefs)
    }

    /// The turn that a checkpoint belongs to.
    #[verifier::opaque]
    pub open spec fn captured_turn(self, id: Uuid, turn_count: usize) -> Option<Uuid> {
        match self.session(id) {
            Some(session) => match turn_pos(session.turns, turn_count) {
                Some(t) => Some(session.turns[t].id),
                None => None,
            },
            None => None,
        }
    }

    /// A checkpoint is kept with its turn.
    #[verifier::opaque]
    pub open spec fn with_checkpoint(self, id: Uuid, turn_count: usize, checkpoint: CheckpointView) -> DeskView {
        match self.session(id) {
            Some(session) => self.put(
                id,
                match turn_pos(session.turns, turn_count) {
                    Some(t) => AgentSessionView {
                        turns: session.turns.update(
                            t,
                            TurnView { checkpoint: Some(checkpoint), ..session.turns[t] },
                        ),
                        ..session
                    },
                    None => session,
                },
            ),
            None => self,
        }
    }

    /// A queue that waited for a checkpoint goes on.
    #[verifier::opaque]
    pub open spec fn drain_resumed(self, id: Uuid, catalog: CatalogView, stamp: Stamp) -> DeskView {
        if self.pending_queue_drains.contains(id) {
            DeskView { pending_queue_drains: without_id(self.pending_queue_drains, id), ..self }.queue_drained(
                id,
                catalog,
                stamp,
            )
        } else {
            self
        }
    }
}

/// The captures other than one.
pub open spec fn without_capture(captures: Seq<(Uuid, usize)>, key: (Uuid, usize)) -> Seq<(Uuid, usize)>
    decreases captures.len(),
{
    if captures.len() == 0 {
        captures
    } else {
        let rest = without_capture(captures.drop_last(), key);
        if captures.last() != key {
            rest.push(captures.last())
        } else {
            rest
        }
    }
}

/// The ids other than one.
pub open spec fn without_id(ids: Seq<Uuid>, id: Uuid) -> Seq<Uuid>
    decreases ids.len(),
{
    if ids.len() == 0 {
        ids
    } else {
        let rest = without_id(ids.drop_last(), id);
        if ids.last() != id {
            rest.push(ids.last())
        } else {
            rest
        }
    }
}

/// Drops one id wherever it stands.
pub fn drop_id(ids: &Vec<Uuid>, id: Uuid) -> (r: Vec<Uuid>)
    ensures
        r@ == without_id(ids@, id),
{
    let mut r: Vec<Uuid> = Vec::new();
    let mut i: usize = 0;
    assert(ids@.take(0) =~= Seq::empty());
    while i < ids.len()
        invariant
            i <= ids@.len(),
            r@ == without_id(ids@.take(i as int), id),
        decreases ids@.len() - i,
    {
        proof {
            crate::seqs::lemma_take_step(ids@, i as int);
        }
        if ids[i] != id {
            r.push(ids[i]);
        }
        i = i + 1;
    }
    assert(ids@.take(i as int) =~= ids@);
    r
}

fn drop_capture(captures: &Vec<(Uuid, usize)>, id: Uuid, turn_count: usize) -> (r: Vec<(Uuid, usize)>)
    ensures
        r@ == without_capture(captures@, (id, turn_count)),
{
    let mut r: Vec<(Uuid, usize)> = Vec::new();
    let mut i: usize = 0;
    assert(captures@.take(0) =~= Seq::empty());
    while i < captures.len()
        invariant
            i <= captures@.len(),
            r@ == without_capture(captures@.take(i as int), (id, turn_count)),
        decreases captures@.len() - i,
    {
        proof {
            crate::seqs::lemma_take_step(captures@, i as int);
        }
        let (other, count) = captures[i];
        if other != id || count != turn_count {
            r.push((other, count));
        }
        i = i + 1;
    }
    assert(captures@.take(i as int) =~= captures@);
    r
}

/// Where a follow-up stands in the queue.
pub fn queued_position(queue: &Vec<QueuedMessage>, id: Uuid) -> (r: Option<usize>)
    ensures
        match r {
            Some(i) => pos(queued_ids(queued_message_views(queue@)), id) == Some(i as int) && i < queue@.len(),
            None => pos(queued_ids(queued_message_views(queue@)), id) is None,
        },
{
    let ghost ids = queued_ids(queued_message_views(queue@));
    let mut i: usize = 0;
    while i < queue.len()
        invariant
            i <= queue@.len(),
            ids == queued_ids(queued_message_views(queue@)),
            forall|j: int| 0 <= j < i ==> ids[j] != id,
        decreases queue@.len() - i,
    {
        assert(ids[i as int] == queue@[i as int].id);
        if queue[i].id == id {
            proof {
                lemma_pos_some(ids, id, i as int);
            }
            return Some(i);
        }
        i = i + 1;
    }
    proof {
        lemma_pos_none(ids, id);
    }
    None
}

impl Desk {
    /// Steers a message into the running turn of the session on screen.
    pub fn steer_composer_submission(&mut self, submission: ComposerSubmission, catalog: &Catalog, stamp: Stamp)
        ensures
            final(self)@ == old(self)@.steered(submission@, catalog@, stamp),
    {
        let session_id = match self.state.selected_session {
            Some(id) => id,
            None => {
                return;
            },
        };
        let (busy, connecting) = match self.state.session_index(session_id) {
            Some(i) => (
                self.state.sessions[i].is_busy(),
                self.state.sessions[i].status == SessionStatus::Connecting,
            ),
            None => {
                return;
            },
        };
        if is_compact_submission(submission.prompt.as_str()) {
            self.request_context_compaction(session_id);
            return;
        }
        if !busy {
            self.submit_composer_submission(submission, catalog, stamp);
            return;
        }
        let steerable: bool = !connecting && self.supports_steer(session_id);
        if !steerable {
            self.enqueue_follow_up_submission(session_id, submission, stamp);
            return;
        }
        self.emit(Effect::DriverSteer { session_id, prompt: submission.prompt.clone() });
        let ghost told = self@;
        if let Some(mut runtime) = self.take_runtime(session_id) {
            let ghost before = runtime.pending_steers@;
            runtime.pending_steers.push_back(submission);
            assert(composer_submission_views(runtime.pending_steers@) =~= composer_submission_views(before).push(
                submission@,
            ));
            self.put_runtime(session_id, runtime);
            assert(self@.runtimes =~= told.runtimes.insert(session_id, runtime@));
        }
        self.emit(Effect::Notify);
    }

    /// Whether the running turn of the session takes further messages.
    pub fn supports_steer(&self, session_id: Uuid) -> (r: bool)
        ensures
            r == (self@.runtimes.dom().contains(session_id) && self@.runtimes[session_id].supports_steer),
    {
        assert(runtime_views(self.runtimes@).dom() =~= self.runtimes@.dom());
        match self.runtimes.get(session_id) {
            Some(runtime) => runtime.supports_steer,
            None => false,
        }
    }

    fn unqueue(&mut self, session_id: Uuid, message_id: Uuid) -> (r: Option<QueuedMessage>)
        ensures
            final(self)@ == old(self)@.unqueued(session_id, message_id),
            match r {
                Some(message) => old(self)@.queued(session_id, message_id) == Some(message@),
                None => old(self)@.queued(session_id, message_id) is None,
            },
    {
        let mut found: Option<QueuedMessage> = None;
        if let Some(i) = self.state.session_mut(session_id) {
            if let Some(k) = queued_position(&self.state.sessions[i].queued_messages, message_id) {
                found = Some(self.state.sessions[i].queued_messages.remove(k));
                assert(queued_message_views(self.state.sessions@[i as int].queued_messages@) =~= queued_message_views(
                    old(self).state.sessions@[i as int].queued_messages@,
                ).remove(k as int));
            }
            proof {
                assert(self.state.sessions@ =~= old(self).state.sessions@.update(
                    i as int,
                    self.state.sessions@[i as int],
                ));
                lemma_put(old(self).state, self.state, session_id, i as int);
            }
        }
        found
    }

    /// Removes a follow-up from the queue of a session.
    pub fn remove_queued_message(&mut self, session_id: Uuid, message_id: Uuid)
        ensures
            final(self)@ == (match old(self)@.session(session_id) {
                Some(session) => old(self)@.put(
                    session_id,
                    AgentSessionView {
                        queued_messages: without_queued(session.queued_messages, message_id),
                        ..session
                    },
                ),
                None => old(self)@,
            }).emit(EffectView::Save).emit(EffectView::Notify),
    {
        if let Some(i) = self.state.session_mut(session_id) {
            remove_from_queue(&mut self.state.sessions[i], message_id);
            proof {
                lemma_put(old(self).state, self.state, session_id, i as int);
            }
        }
        self.emit(Effect::Save);
        self.emit(Effect::Notify);
    }

    /// Takes a follow-up back into the composer to be edited.
    pub fn edit_queued_message(&mut self, session_id: Uuid, message_id: Uuid)
        ensures
            final(self)@ == (match old(self)@.queued(session_id, message_id) {
                Some(message) => old(self)@.unqueued(session_id, message_id).emit(
                    EffectView::RestoreComposer(as_submission(message)),
                ).emit(EffectView::FocusComposer).emit(EffectView::Save).emit(EffectView::Notify),
                None => old(self)@.unqueued(session_id, message_id),
            }),
    {
        if let Some(message) = self.unqueue(session_id, message_id) {
            self.emit(Effect::RestoreComposer(ComposerSubmission::from_queued_message(message)));
            self.emit(Effect::FocusComposer);
            self.emit(Effect::Save);
            self.emit(Effect::Notify);
        }
    }

    /// Delivers a follow-up into the running turn right away.
    pub fn steer_queued_message(&mut self, session_id: Uuid, message_id: Uuid, catalog: &Catalog, stamp: Stamp)
        ensures
            final(self)@ == (match old(self)@.queued(session_id, message_id) {
                Some(message) => old(self)@.unqueued(session_id, message_id).emit(EffectView::Save).steered(
                    as_submission(message),
                    catalog@,
                    stamp,
                ),
                None => old(self)@.unqueued(session_id, message_id),
            }),
    {
        if let Some(message) = self.unqueue(session_id, message_id) {
            self.emit(Effect::Save);
            self.steer_composer_submission(ComposerSubmission::from_queued_message(message), catalog, stamp);
        }
    }

    /// Has every checkpoint that was asked for captured, each once.
    pub fn start_pending_checkpoint_captures(&mut self)
        ensures
            final(self)@ == old(self)@.captures_started(),
    {
        let mut captures: Vec<PendingCheckpointCapture> = Vec::new();
        std::mem::swap(&mut captures, &mut self.pending_checkpoint_captures);
        let ghost all = captures@;
        let ghost begun = self@;
        let ghost mut done: int = 0;
        proof {
            assert(pending_checkpoint_capture_views(self.pending_checkpoint_captures@) =~= Seq::empty());
            assert(all.skip(0) =~= all);
            assert(pending_checkpoint_capture_views(all.take(0)) =~= Seq::empty());
        }
        while captures.len() > 0
            invariant
                0 <= done <= all.len(),
                captures@ == all.skip(done),
                self@ == begun.capturing(pending_checkpoint_capture_views(all.take(done))),
            decreases captures@.len(),
        {
            let capture = captures.remove(0);
            proof {
                assert(all.skip(done).remove(0) =~= all.skip(done + 1));
                assert(pending_checkpoint_capture_views(all.take(done + 1)).drop_last()
                    =~= pending_checkpoint_capture_views(all.take(done)));
                assert(pending_checkpoint_capture_views(all.take(done + 1)).last() == all[done]@);
            }
            if !self.is_capturing(capture.session_id, capture.turn_count) {
                self.checkpoint_captures_in_flight.push((capture.session_id, capture.turn_count));
                self.emit(Effect::CaptureCheckpoint(capture));
            }
            proof {
                done = done + 1;
            }
        }
        assert(all.take(done) =~= all);
    }

    fn is_capturing(&self, session_id: Uuid, turn_count: usize) -> (r: bool)
        ensures
            r == self@.checkpoint_captures_in_flight.contains((session_id, turn_count)),
    {
        let mut i: usize = 0;
        while i < self.checkpoint_captures_in_flight.len()
            invariant
                i <= self.checkpoint_captures_in_flight@.len(),
                forall|j: int| 0 <= j < i ==> self.checkpoint_captures_in_flight@[j] != (session_id, turn_count),
            decreases self.checkpoint_captures_in_flight@.len() - i,
        {
            let (id, count) = self.checkpoint_captures_in_flight[i];
            if id == session_id && count == turn_count {
                assert(self.checkpoint_captures_in_flight@[i as int] == (session_id, turn_count));
                return true;
            }
            i = i + 1;
        }
        false
    }

    fn fail_preparation(&mut self, session_id: Uuid, submission: ComposerSubmission, error: String)
        ensures
            final(self)@ == old(self)@.preparation_failed(session_id, submission@, error@),
    {
        let selected = self.is_selected(session_id);
        let _ = self.submission_preparations.remove(session_id);
        let ghost freed = *self;
        if let Some(i) = self.state.session_mut(session_id) {
            if self.state.sessions[i].status == SessionStatus::Connecting {
                if let Some(turn) = self.state.sessions[i].active_turn_id() {
                    self.state.sessions[i].unwind_unstarted_turn(turn);
                }
                self.state.sessions[i].status = SessionStatus::Idle;
            }
            proof {
                assert(self.state.sessions@ =~= freed.state.sessions@.update(i as int, self.state.sessions@[i as int]));
                lemma_put(freed.state, self.state, session_id, i as int);
            }
        }
        if selected {
            self.emit(Effect::ReleaseAnchor(session_id));
            self.emit(Effect::SpliceTranscriptRows(session_id));
            self.emit(Effect::RestoreComposer(submission));
            self.emit(Effect::Toast(Text::with("errors.create_worktree", "error", error)));
        }
        self.emit(Effect::Notify);
    }

    fn move_to(&mut self, session_id: Uuid, workspace: SessionWorkspace)
        requires
            old(self)@.session(session_id) is Some,
        ensures
            final(self)@ == old(self)@.moved_to(session_id, workspace@),
    {
        let mut changed: bool = false;
        if let Some(i) = self.state.session_mut(session_id) {
            changed = !self.state.sessions[i].workspace.same_as(&workspace);
            self.state.sessions[i].workspace = workspace;
            proof {
                lemma_put(old(self).state, self.state, session_id, i as int);
            }
        }
        if self.is_selected(session_id) && changed {
            self.emit(Effect::InvalidateWorkspaceQueries);
            self.emit(Effect::ReloadPanelFiles);
            self.emit(Effect::EnsurePanelTerminals);
        }
    }

    fn ready_runtime(&mut self, session_id: Uuid, stamp: Stamp)
        ensures
            final(self)@ == old(self)@.runtime_readied(session_id, stamp),
    {
        if let Some(mut runtime) = self.take_runtime(session_id) {
            runtime.ready(stamp);
            self.put_runtime(session_id, runtime);
            assert(self@.runtimes =~= old(self)@.runtimes.insert(session_id, runtime@));
            let _ = self.provider_retries.remove(session_id);
        } else {
            assert(self@.runtimes =~= old(self)@.runtimes);
        }
    }

    /// Whether the turn of a prepared submission is still the untouched one.
    pub fn can_start(&self, session_id: Uuid) -> (r: bool)
        ensures
            r == self@.can_start(session_id),
    {
        match self.state.session_index(session_id) {
            Some(i) => {
                let session = &self.state.sessions[i];
                let n = session.turns.len();
                session.status == SessionStatus::Connecting && n > 0 && session.turns[n - 1].status
                    == TurnStatus::Running && !session.turns[n - 1].provider_turn_started
            },
            None => false,
        }
    }

    fn prompt_provider(&mut self, session_id: Uuid, prompt: String)
        ensures
            final(self)@ == old(self)@.prompted(session_id, prompt@),
    {
        self.emit(Effect::ClearStagedUndo(session_id));
        self.emit(Effect::DriverPrompt { session_id, prompt });
        let _ = self.submission_preparations.remove(session_id);
        self.emit(Effect::Notify);
        self.emit(Effect::SaveNextFrame);
    }

    fn fail_start(&mut self, session_id: Uuid, message: String, stamp: Stamp)
        ensures
            final(self)@ == old(self)@.start_failed(session_id, message@, stamp),
    {
        self.settle_outcome(session_id, SessionStatus::Failed, Some(message), stamp);
        let _ = self.finish_active_turn(session_id, TurnStatus::Failed, stamp);
        let _ = self.submission_preparations.remove(session_id);
        self.capture_latest_turn_checkpoint_for(session_id);
        self.start_pending_checkpoint_captures();
        self.emit(Effect::Notify);
        self.emit(Effect::SaveNextFrame);
    }

    /// Takes back a submission that the host prepared. `expanded` is what the provider
    /// receives in place of the prompt, where it is a template command.
    pub fn finish_submission_preparation(
        &mut self,
        session_id: Uuid,
        submission: ComposerSubmission,
        prepared: Result<PreparedSubmission, String>,
        expanded: Option<String>,
        runtime_unavailable: String,
        stamp: Stamp,
    )
        ensures
            final(self)@ == old(self)@.preparation_settled(
                session_id,
                submission@,
                prepared,
                opt(expanded),
                runtime_unavailable@,
                stamp,
            ),
    {
        if !self.submission_preparations.contains(session_id) {
            return;
        }
        let prepared = match prepared {
            Ok(prepared) => prepared,
            Err(error) => {
                self.fail_preparation(session_id, submission, error);
                return;
            },
        };
        if !self.can_start(session_id) {
            let _ = self.submission_preparations.remove(session_id);
            self.emit(Effect::Notify);
            return;
        }
        let prompt = match expanded {
            Some(prompt) => prompt,
            None => submission.prompt,
        };
        let selected = self.is_selected(session_id);
        let reusable = self.has_runtime(session_id);
        self.move_to(session_id, prepared.workspace);
        if let PreparedDriver::Started { supports_steer } = &prepared.driver {
            self.put_runtime(session_id, SessionRuntime::new(*supports_steer, stamp));
        }
        self.emit(Effect::InvalidateCheckpointRefs);
        self.ready_runtime(session_id, stamp);
        if let Some(warning) = prepared.checkpoint_warning {
            if selected {
                self.emit(Effect::Toast(warning));
            }
        }
        match prepared.driver {
            PreparedDriver::Failed { message } => {
                self.fail_start(session_id, message, stamp);
            },
            PreparedDriver::Reused => {
                if reusable {
                    self.prompt_provider(session_id, prompt);
                } else {
                    self.fail_start(session_id, runtime_unavailable, stamp);
                }
            },
            PreparedDriver::Started { .. } => {
                self.prompt_provider(session_id, prompt);
            },
        }
    }

    /// Takes back what came of the capture of a checkpoint. One that failed leaves a
    /// checkpoint that says so, with the name `git_ref` that it would have had. The turn
    /// may be gone by now, so it is matched by its count. A queue that waited for the
    /// checkpoint goes on.
    pub fn finish_checkpoint_capture(
        &mut self,
        session_id: Uuid,
        turn_count: usize,
        captured: Result<Checkpoint, String>,
        git_ref: String,
        catalog: &Catalog,
        stamp: Stamp,
    )
        ensures
            final(self)@ == (match captured {
                Ok(checkpoint) => old(self)@.checkpoint_settled(
                    session_id,
                    turn_count,
                    checkpoint@,
                    None,
                    catalog@,
                    stamp,
                ),
                Err(error) => old(self)@.checkpoint_settled(
                    session_id,
                    turn_count,
                    failed_checkpoint(turn_count, git_ref@, stamp.secs),
                    Some(error@),
                    catalog@,
                    stamp,
                ),
            }),
    {
        match captured {
            Ok(checkpoint) => {
                self.settle_capture(session_id, turn_count, checkpoint, None, catalog, stamp);
            },
            Err(error) => {
                let checkpoint = Checkpoint {
                    turn_count,
                    git_ref,
                    status: CheckpointStatus::Error,
                    files: Vec::new(),
                    additions: 0,
                    deletions: 0,
                    created_at: stamp.secs,
                };
                assert(checkpoint@ =~= failed_checkpoint(turn_count, git_ref@, stamp.secs));
                self.settle_capture(session_id, turn_count, checkpoint, Some(error), catalog, stamp);
            },
        }
    }

    fn settle_capture(
        &mut self,
        session_id: Uuid,
        turn_count: usize,
        checkpoint: Checkpoint,
        error: Option<String>,
        catalog: &Catalog,
        stamp: Stamp,
    )
        ensures
            final(self)@ == old(self)@.checkpoint_settled(
                session_id,
                turn_count,
                checkpoint@,
                opt(error),
                catalog@,
                stamp,
            ),
    {
        let selected = self.is_selected(session_id);
        self.land_capture(session_id, turn_count, error);
        let turn = self.attach_checkpoint(session_id, turn_count, checkpoint);
        let attached = turn.is_some();
        if let Some(id) = turn {
            if selected {
                self.emit(Effect::SpliceTranscriptRows(session_id));
                self.emit(Effect::RemeasureChangedFiles(id));
            }
        }
        self.resume_drain(session_id, catalog, stamp);
        self.emit(Effect::Notify);
        if attached {
            self.emit(Effect::SaveNextFrame);
        }
    }

    fn land_capture(&mut self, session_id: Uuid, turn_count: usize, error: Option<String>)
        ensures
            final(self)@ == old(self)@.capture_landed(session_id, turn_count, opt(error)),
    {
        proof {
            reveal(DeskView::capture_landed);
        }
        self.checkpoint_captures_in_flight = drop_capture(&self.checkpoint_captures_in_flight, session_id, turn_count);
        if let Some(text) = error {
            self.emit(Effect::Toast(Text::with("errors.capture_turn_checkpoint", "error", text)));
        }
        self.emit(Effect::InvalidateCheckpointRefs);
    }

    fn resume_drain(&mut self, session_id: Uuid, catalog: &Catalog, stamp: Stamp)
        ensures
            final(self)@ == old(self)@.drain_resumed(session_id, catalog@, stamp),
    {
        proof {
            reveal(DeskView::drain_resumed);
        }
        if self.awaits_drain(session_id) {
            self.pending_queue_drains = drop_id(&self.pending_queue_drains, session_id);
            self.drain_queued_message(session_id, catalog, stamp);
        }
    }

    fn attach_checkpoint(&mut self, session_id: Uuid, turn_count: usize, checkpoint: Checkpoint) -> (r: Option<Uuid>)
        ensures
            final(self)@ == old(self)@.with_checkpoint(session_id, turn_count, checkpoint@),
            r == old(self)@.captured_turn(session_id, turn_count),
    {
        proof {
            reveal(DeskView::with_checkpoint);
            reveal(DeskView::captured_turn);
        }
        let mut turn: Option<Uuid> = None;
        if let Some(i) = self.state.session_mut(session_id) {
            if let Some(t) = turn_position(&self.state.sessions[i].turns, turn_count) {
                self.state.sessions[i].turns[t].checkpoint = Some(checkpoint);
                turn = Some(self.state.sessions[i].turns[t].id);
                let ghost before = old(self).state.sessions@[i as int];
                assert(turn_views(self.state.sessions@[i as int].turns@) =~= turn_views(before.turns@).update(
                    t as int,
                    TurnView { checkpoint: Some(checkpoint@), ..before@.turns[t as int] },
                ));
            }
            proof {
                assert(self.state.sessions@ =~= old(self).state.sessions@.update(
                    i as int,
                    self.state.sessions@[i as int],
                ));
                lemma_put(old(self).state, self.state, session_id, i as int);
            }
        }
        turn
    }

    fn awaits_drain(&self, session_id: Uuid) -> (r: bool)
        ensures
            r == self@.pending_queue_drains.contains(session_id),
    {
        let mut i: usize = 0;
        while i < self.pending_queue_drains.len()
            invariant
                i <= self.pending_queue_drains@.len(),
                forall|j: int| 0 <= j < i ==> self.pending_queue_drains@[j] != session_id,
            decreases self.pending_queue_drains@.len() - i,
        {
            if self.pending_queue_drains[i] == session_id {
                assert(self.pending_queue_drains@.contains(session_id));
                return true;
            }
            i = i + 1;
        }
        false
    }
}

fn remove_from_queue(session: &mut AgentSession, message_id: Uuid)
    ensures
        final(session)@ == (AgentSessionView {
            queued_messages: without_queued(old(session)@.queued_messages, message_id),
            ..old(session)@
        }),
{
    let mut all: Vec<QueuedMessage> = Vec::new();
    std::mem::swap(&mut all, &mut session.queued_messages);
    let ghost whole = all@;
    let mut rest: Vec<QueuedMessage> = Vec::new();
    let ghost mut done: int = 0;
    assert(whole.skip(0) =~= whole);
    assert(queued_message_views(whole.take(0)) =~= Seq::empty());
    while all.len() > 0
        invariant
            0 <= done <= whole.len(),
            all@ == whole.skip(done),
            queued_message_views(rest@) == without_queued(queued_message_views(whole.take(done)), message_id),
        decreases all@.len(),
    {
        let message = all.remove(0);
        proof {
            assert(whole.skip(done).remove(0) =~= whole.skip(done + 1));
            assert(queued_message_views(whole.take(done + 1)).drop_last() =~= queued_message_views(whole.take(done)));
            assert(queued_message_views(whole.take(done + 1)).last() == whole[done]@);
        }
        let other: bool = message.id != message_id;
        if other {
            let ghost kept = rest@;
            rest.push(message);
            assert(queued_message_views(rest@) =~= queued_message_views(kept).push(whole[done]@));
        }
        proof {
            done = done + 1;
        }
    }
    assert(whole.take(done) =~= whole);
    session.queued_messages = rest;
}

/// An effect that asks for a compaction, or only shows something.
pub open spec fn asks_or_shows(effect: EffectView) -> bool {
    effect is DriverCompact || effect is Toast || effect is Notify
}

/// A text that asks for a compaction never reaches the model, whatever the session on
/// screen is at: neither submitting nor steering with it queues it, begins a turn with it or
/// leaves it waiting anywhere, and the host is asked for the compaction at most.
pub proof fn compaction_requests_are_never_sent(
    desk: DeskView,
    submission: ComposerSubmissionView,
    catalog: CatalogView,
    stamp: Stamp,
)
    requires
        asks_for_compaction(submission.prompt),
    ensures
        ({
            let next = desk.composer_submitted(submission, catalog, stamp);
            &&& next == (DeskView { effects: next.effects, ..desk })
            &&& desk.effects.len() <= next.effects.len()
            &&& next.effects.take(desk.effects.len() as int) == desk.effects
            &&& forall|k: int|
                desk.effects.len() <= k < next.effects.len() ==> asks_or_shows(#[trigger] next.effects[k])
        }),
        ({
            let next = desk.steered(submission, catalog, stamp);
            &&& next == (DeskView { effects: next.effects, ..desk })
            &&& desk.effects.len() <= next.effects.len()
            &&& next.effects.take(desk.effects.len() as int) == desk.effects
            &&& forall|k: int|
                desk.effects.len() <= k < next.effects.len() ==> asks_or_shows(#[trigger] next.effects[k])
        }),
{
    let submitted = desk.composer_submitted(submission, catalog, stamp);
    let steered = desk.steered(submission, catalog, stamp);
    assert(submitted.effects.take(desk.effects.len() as int) =~= desk.effects);
    assert(steered.effects.take(desk.effects.len() as int) =~= desk.effects);
}

} // verus!
