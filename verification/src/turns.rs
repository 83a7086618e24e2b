//! Settling turns: queued follow-ups, checkpoints, and errors worth showing.
use vstd::prelude::*;
use vstd::string::*;

use crate::desk::{
    lemma_put, pending_checkpoint_capture_views, ComposerSubmission, ComposerSubmissionView, Effect,
    EffectView, PendingCheckpointCapture, PendingCheckpointCaptureView,
};
use crate::ids::{Stamp, Uuid};
use crate::lines::{join_first, joined, lines, lines_of};
use crate::live::{Desk, DeskView};
use crate::model::{queued_message_views, AgentSessionView, QueuedMessageView, TurnStatus, TurnView};
use crate::text::{texts, trim, trimmed};

verus! {

/// How many lines of an error are shown.
pub const ERROR_LINES: usize = 6;

/// How many characters of an error are shown.
pub const ERROR_CHARS: usize = 800;

/// An error cut down to what can be shown: its first lines, with a mark where
/// there were more, and no more than so many characters.
pub open spec fn compacted(error: Seq<char>) -> Seq<char> {
    let all = lines_of(error);
    let shown = if all.len() > ERROR_LINES {
        joined(all.take(ERROR_LINES as int), "\n"@) + "\n…"@
    } else {
        joined(all, "\n"@)
    };
    if shown.len() > ERROR_CHARS {
        shown.take(ERROR_CHARS - 1).push('…')
    } else {
        shown
    }
}

/// Cuts an error down to what can be shown.
pub fn compact_driver_error(error: &str) -> (r: String)
    ensures
        r@ == compacted(error@),
        r@.len() <= ERROR_CHARS,
{
    let all = lines(error);
    assert(texts(all@).len() == all@.len());
    let count: usize = if all.len() > ERROR_LINES {
        ERROR_LINES
    } else {
        all.len()
    };
    let mut shown = join_first(&all, count, "\n");
    if all.len() > ERROR_LINES {
        shown.append("\n…");
    } else {
        assert(texts(all@).take(count as int) =~= texts(all@));
    }
    if shown.as_str().unicode_len() > ERROR_CHARS {
        let mut cut = shown.as_str().substring_char(0, ERROR_CHARS - 1).to_owned();
        assert(cut@ =~= shown@.take(ERROR_CHARS - 1));
        cut.push('…');
        cut
    } else {
        shown
    }
}

impl AgentSessionView {
    /// The session with one more follow-up in its queue.
    pub open spec fn with_queued(self, message: QueuedMessageView) -> AgentSessionView {
        AgentSessionView { queued_messages: self.queued_messages.push(message), ..self }
    }

    /// The last turn, once it has settled.
    pub open spec fn settled_turn(self) -> Option<TurnView> {
        if self.turns.len() > 0 && self.turns.last().status != TurnStatus::Running {
            Some(self.turns.last())
        } else {
            None
        }
    }
}

impl DeskView {
    /// The desk with a follow-up queued behind the running turn. One that holds
    /// nothing is dropped.
    pub open spec fn follow_up_queued(self, id: Uuid, submission: ComposerSubmissionView, stamp: Stamp) -> DeskView {
        let prompt = trimmed(submission.prompt);
        if prompt.len() == 0 {
            self
        } else {
            (match self.session(id) {
                Some(session) => self.put(
                    id,
                    AgentSessionView {
                        updated_at: stamp.secs,
                        ..session.with_queued(ComposerSubmissionView { prompt, ..submission }.queued(stamp.id))
                    },
                ),
                None => self,
            }).emit(EffectView::Save).emit(EffectView::Notify)
        }
    }

    /// A checkpoint of this turn is on its way.
    pub open spec fn checkpoint_pending(self, id: Uuid, turn_count: usize) -> bool {
        self.checkpoint_captures_in_flight.contains((id, turn_count)) || exists|i: int|
            0 <= i < self.pending_checkpoint_captures.len() && #[trigger] self.pending_checkpoint_captures[i].session_id
                == id && self.pending_checkpoint_captures[i].turn_count == turn_count
    }

    /// The checkpoint that ends the session's last turn is on its way.
    pub open spec fn ending_checkpoint_pending(self, id: Uuid) -> bool {
        match self.session(id) {
            Some(session) => match session.settled_turn() {
                Some(turn) => self.checkpoint_pending(id, turn.turn_count),
                None => false,
            },
            None => false,
        }
    }

    /// The desk with a checkpoint of the session's settled turn asked for.
    pub open spec fn capture_requested(self, id: Uuid) -> DeskView {
        match self.session(id) {
            Some(session) => match (session.settled_turn(), self.state.workspace_path(session)) {
                (Some(turn), Some(project_path)) if !self.checkpoint_pending(id, turn.turn_count) => DeskView {
                    pending_checkpoint_captures: self.pending_checkpoint_captures.push(
                        PendingCheckpointCaptureView { session_id: id, turn_count: turn.turn_count, project_path },
                    ),
                    ..self
                },
                _ => self,
            },
            None => self,
        }
    }

    /// The desk once the running turn of the session has settled.
    pub open spec fn turn_finished(self, id: Uuid, status: TurnStatus, stamp: Stamp) -> DeskView {
        match self.session(id) {
            Some(session) => self.put(id, session.with_turn_finished(status, stamp)),
            None => self,
        }
    }

    /// The desk with the queue of the session to be drained later, once.
    pub open spec fn drain_deferred(self, id: Uuid) -> DeskView {
        if self.pending_queue_drains.contains(id) {
            self
        } else {
            DeskView { pending_queue_drains: self.pending_queue_drains.push(id), ..self }
        }
    }
}

impl Desk {
    /// Queues a follow-up behind the running turn.
    pub fn enqueue_follow_up_submission(&mut self, session_id: Uuid, submission: ComposerSubmission, stamp: Stamp)
        ensures
            final(self)@ == old(self)@.follow_up_queued(session_id, submission@, stamp),
    {
        let mut submission = submission;
        let prompt = trim(submission.prompt.as_str()).to_owned();
        if prompt.as_str().unicode_len() == 0 {
            return;
        }
        submission.prompt = prompt;
        if let Some(i) = self.state.session_mut(session_id) {
            let message = submission.into_queued_message(stamp.id);
            self.state.sessions[i].queued_messages.push(message);
            self.state.sessions[i].updated_at = stamp.secs;
            proof {
                let after = self.state.sessions@[i as int];
                let before = old(self).state.sessions@[i as int];
                assert(queued_message_views(after.queued_messages@) =~= queued_message_views(
                    before.queued_messages@,
                ).push(message@));
                assert(self.state.sessions@ =~= old(self).state.sessions@.update(i as int, after));
                lemma_put(old(self).state, self.state, session_id, i as int);
            }
        }
        self.emit(Effect::Save);
        self.emit(Effect::Notify);
    }

    /// Whether a checkpoint of this turn is on its way.
    pub fn checkpoint_capture_pending(&self, session_id: Uuid, turn_count: usize) -> (r: bool)
        ensures
            r == self@.checkpoint_pending(session_id, turn_count),
    {
        let mut i: usize = 0;
        while i < self.checkpoint_captures_in_flight.len()
            invariant
                i <= self.checkpoint_captures_in_flight@.len(),
                forall|j: int| 0 <= j < i ==> self.checkpoint_captures_in_flight@[j] != (session_id, turn_count),
            decreases self.checkpoint_captures_in_flight@.len() - i,
        {
            let (id, count) = self.checkpoint_captures_in_flight[i];
            if id == session_id && count == turn_count {
                assert(self.checkpoint_captures_in_flight@[i as int] == (session_id, turn_count));
                return true;
            }
            i = i + 1;
        }
        let mut k: usize = 0;
        while k < self.pending_checkpoint_captures.len()
            invariant
                k <= self.pending_checkpoint_captures@.len(),
                forall|j: int|
                    0 <= j < k ==> !(#[trigger] self@.pending_checkpoint_captures[j].session_id == session_id
                        && self@.pending_checkpoint_captures[j].turn_count == turn_count),
            decreases self.pending_checkpoint_captures@.len() - k,
        {
            assert(self@.pending_checkpoint_captures[k as int] == self.pending_checkpoint_captures@[k as int]@);
            if self.pending_checkpoint_captures[k].session_id == session_id
                && self.pending_checkpoint_captures[k].turn_count == turn_count {
                assert(k < self@.pending_checkpoint_captures.len());
                assert(self@.pending_checkpoint_captures[k as int].session_id == session_id);
                return true;
            }
            k = k + 1;
        }
        false
    }

    /// Whether the checkpoint that ends the session's last turn is on its way.
    pub fn ending_checkpoint_pending(&self, session_id: Uuid) -> (r: bool)
        ensures
            r == self@.ending_checkpoint_pending(session_id),
    {
        match self.state.session_index(session_id) {
            Some(i) => {
                let n = self.state.sessions[i].turns.len();
                if n > 0 && self.state.sessions[i].turns[n - 1].status != TurnStatus::Running {
                    self.checkpoint_capture_pending(session_id, self.state.sessions[i].turns[n - 1].turn_count)
                } else {
                    false
                }
            },
            None => false,
        }
    }

    /// Asks for a checkpoint of the session's last turn once it has settled, unless
    /// one is on its way.
    pub fn capture_latest_turn_checkpoint_for(&mut self, session_id: Uuid)
        ensures
            final(self)@ == old(self)@.capture_requested(session_id),
    {
        let (turn_count, project_path) = match self.state.session_index(session_id) {
            Some(i) => {
                let session = &self.state.sessions[i];
                let n = session.turns.len();
                if n == 0 || session.turns[n - 1].status == TurnStatus::Running {
                    return;
                }
                let turn_count = session.turns[n - 1].turn_count;
                if self.checkpoint_capture_pending(session_id, turn_count) {
                    return;
                }
                match self.state.workspace_path_for_session(session) {
                    Some(path) => (turn_count, path.to_owned()),
                    None => {
                        return;
                    },
                }
            },
            None => {
                return;
            },
        };
        let capture = PendingCheckpointCapture { session_id, turn_count, project_path };
        self.pending_checkpoint_captures.push(capture);
        assert(pending_checkpoint_capture_views(self.pending_checkpoint_captures@)
            =~= pending_checkpoint_capture_views(old(self).pending_checkpoint_captures@).push(capture@));
    }

    /// Settles the running turn of the session, exactly once.
    pub fn finish_active_turn(&mut self, session_id: Uuid, status: TurnStatus, stamp: Stamp) -> (r: Option<(Uuid, usize)>)
        ensures
            final(self)@ == old(self)@.turn_finished(session_id, status, stamp),
            r is Some == (old(self)@.state.active_turn(session_id) is Some),
            r is Some ==> old(self)@.session(session_id) is Some && r == Some(
                (
                    old(self)@.session(session_id)->0.turns.last().id,
                    old(self)@.session(session_id)->0.turns.last().turn_count,
                ),
            ),
    {
        match self.state.session_mut(session_id) {
            Some(i) => {
                let r = self.state.sessions[i].finish_active_turn(status, stamp);
                proof {
                    lemma_put(old(self).state, self.state, session_id, i as int);
                }
                r
            },
            None => None,
        }
    }

    /// Has the queue of the session drained later, once.
    pub fn defer_queue_drain(&mut self, session_id: Uuid)
        ensures
            final(self)@ == old(self)@.drain_deferred(session_id),
    {
        let mut i: usize = 0;
        while i < self.pending_queue_drains.len()
            invariant
                i <= self.pending_queue_drains@.len(),
                *self == *old(self),
                forall|j: int| 0 <= j < i ==> self.pending_queue_drains@[j] != session_id,
            decreases self.pending_queue_drains@.len() - i,
        {
            if self.pending_queue_drains[i] == session_id {
                assert(self.pending_queue_drains@.contains(session_id));
                return;
            }
            i = i + 1;
        }
        self.pending_queue_drains.push(session_id);
    }
}

} // verus!
