//! Going back in a transcript: editing a past message, and forking a response.
use vstd::prelude::*;

use crate::desk::{
    lemma_put, wording, wording_with, ComposerSubmission, ComposerSubmissionView, Effect, EffectView,
    MessageEdit, MessageEditView, RuntimeView, SessionRuntime, Text, TextView,
};
use crate::ids::{Stamp, Uuid};
use crate::lines::{decimal, decimal_of};
use crate::live::{Desk, DeskView};
use crate::model::{
    copy_attachments, message_views, AgentSession, AgentSessionView, Message, MessageRole, MessageView,
    SessionStatus,
};
use crate::preparations::{lemma_turn_pos, text_opt, turn_pos, turn_position};
use crate::probes::{Catalog, CatalogView};
use crate::seqs::{lemma_pos, pos};
use crate::submissions::{background_only, retain_background};
use crate::text::{blank, opt, trim, trimmed, trims_to_nothing};
use crate::transcript::{message_ids, message_position};
use crate::truncation::{first_turns, later_turns, provider_turns};

verus! {

/// The message is what the user sent in the turn.
pub open spec fn is_prompt(message: MessageView, id: Uuid, turn_id: Uuid) -> bool {
    message.id == id && message.turn_id == Some(turn_id) && message.role == MessageRole::User
}

/// Where the user's message of a turn first stands.
pub open spec fn prompt_pos(messages: Seq<MessageView>, id: Uuid, turn_id: Uuid) -> Option<int>
    decreases messages.len(),
{
    if messages.len() == 0 {
        None
    } else if is_prompt(messages[0], id, turn_id) {
        Some(0)
    } else {
        match prompt_pos(messages.drop_first(), id, turn_id) {
            Some(i) => Some(i + 1),
            None => None,
        }
    }
}

impl AgentSessionView {
    /// Where the message stands that an edit of a turn is about.
    pub open spec fn edited_at(self, message_id: Uuid, turn_count: usize) -> Option<int> {
        match turn_pos(self.turns, turn_count) {
            Some(t) => prompt_pos(self.messages, message_id, self.turns[t].id),
            None => None,
        }
    }

    /// The session with the words of a message replaced.
    pub open spec fn with_edit(self, i: int, submission: ComposerSubmissionView, stamp: Stamp) -> AgentSessionView {
        AgentSessionView {
            messages: self.messages.update(
                i,
                MessageView {
                    content: submission.prompt,
                    display_content: submission.display_content,
                    attachments: submission.attachments,
                    ..self.messages[i]
                },
            ),
            status: SessionStatus::Connecting,
            updated_at: stamp.secs,
            ..self
        }
    }

    /// The session with a message put back as it was, and at rest again.
    pub open spec fn with_edit_undone(self, original: MessageView, previous: SessionStatus) -> AgentSessionView {
        AgentSessionView {
            messages: match pos(message_ids(self.messages), original.id) {
                Some(i) => self.messages.update(i, original),
                None => self.messages,
            },
            status: if self.status == SessionStatus::Connecting {
                previous
            } else {
                self.status
            },
            ..self
        }
    }
}

impl MessageView {
    /// What the transcript shows of the message.
    pub open spec fn shown(self) -> Seq<char> {
        match self.display_content {
            Some(text) => text,
            None => self.content,
        }
    }
}

/// The turns that stay when a turn's message is edited.
pub open spec fn turns_kept(turn_count: usize) -> usize {
    if turn_count == 0 {
        0
    } else {
        (turn_count - 1) as usize
    }
}

impl RuntimeView {
    /// The runtime with nothing left of the turns that were taken back.
    pub open spec fn rewound(self) -> RuntimeView {
        RuntimeView {
            pending_events: background_only(self.pending_events),
            stream_remeasure_pending: false,
            stream_phase: None,
            open_reasoning: Map::empty(),
            settled_reasoning: Set::empty(),
            pending_permission: None,
            pending_user_input: None,
            ..self
        }
    }
}

impl DeskView {
    /// The user is told why something is not done.
    pub open spec fn refused(self, why: TextView) -> DeskView {
        self.emit(EffectView::Toast(why)).emit(EffectView::Notify)
    }

    /// The user starts to edit a past message: one of their own, in a session that
    /// is at rest.
    pub open spec fn edit_begun(self, id: Uuid, message_id: Uuid, turn_count: usize) -> DeskView {
        match self.session(id) {
            Some(session) if session.status.at_rest() => match session.edited_at(message_id, turn_count) {
                Some(i) => DeskView {
                    message_edit: Some(
                        MessageEditView {
                            session_id: id,
                            message_id,
                            turn_count,
                            attachments: session.messages[i].attachments,
                        },
                    ),
                    ..self
                }.emit(EffectView::OpenMessageEditor(session.messages[i].shown())).emit(EffectView::HideToast).emit(
                    EffectView::RemeasureMessage(i as usize),
                ).emit(EffectView::Notify),
                None => self.refused(wording("session.message_not_editable")),
            },
            _ => self.refused(wording("session.message_not_editable")),
        }
    }

    /// The row of a message of the session on screen is measured again.
    pub open spec fn message_remeasured(self, message_id: Uuid) -> DeskView {
        match self.state.selected_session {
            Some(id) => match self.session(id) {
                Some(session) => match pos(message_ids(session.messages), message_id) {
                    Some(i) => self.emit(EffectView::RemeasureMessage(i as usize)),
                    None => self,
                },
                None => self,
            },
            None => self,
        }
    }

    /// The user gives an edit up, unless it is already under way.
    pub open spec fn edit_cancelled(self) -> DeskView {
        match self.message_edit {
            Some(edit) => if self.submission_preparations.contains(edit.session_id) {
                self
            } else {
                DeskView { message_edit: None, ..self }.message_remeasured(edit.message_id).emit(
                    EffectView::FocusComposer,
                ).emit(EffectView::Notify)
            },
            None => self,
        }
    }

    /// Why a message cannot be sent again, the first reason that holds.
    pub open spec fn rewind_refusal(self, edit: MessageEditView, catalog: CatalogView) -> Option<TextView> {
        match self.session(edit.session_id) {
            None => Some(wording("session.message_unavailable")),
            Some(session) => {
                let rollback = provider_turns(later_turns(session.turns, turns_kept(edit.turn_count)));
                if turn_pos(session.turns, edit.turn_count) is None {
                    Some(wording("session.message_unavailable"))
                } else if !self.selected(edit.session_id) {
                    Some(wording("session.select_before_rewind"))
                } else if !session.status.at_rest() {
                    Some(wording("session.stop_before_rewind"))
                } else if self.undo_redo_preparations.contains(edit.session_id) {
                    Some(wording("session.rewind_during_undo"))
                } else if rollback > 0 && session.provider_cursor is None {
                    Some(wording_with("session.provider_cannot_rewind", "provider", "OpenCode"@))
                } else if self.state.workspace_path(session) is None {
                    Some(wording("errors.task_project_not_found"))
                } else if rollback > 0 && catalog.binary() is None {
                    Some(wording_with("errors.provider_not_found", "provider", "OpenCode"@))
                } else if session.edited_at(edit.message_id, edit.turn_count) is None {
                    Some(wording("session.message_unavailable"))
                } else {
                    None
                }
            },
        }
    }

    /// A past message is sent again: it shows its new words at once, and the provider
    /// is asked to go back to before it.
    pub open spec fn rewind_started(
        self,
        edit: MessageEditView,
        submission: ComposerSubmissionView,
        catalog: CatalogView,
        stamp: Stamp,
    ) -> DeskView {
        match self.rewind_refusal(edit, catalog) {
            Some(why) => self.refused(why),
            None => {
                let id = edit.session_id;
                let session = self.session(id)->0;
                let kept = turns_kept(edit.turn_count);
                let first = pos(message_ids(session.messages), edit.message_id)->0;
                DeskView {
                    message_edit: None,
                    submission_preparations: self.submission_preparations.insert(id),
                    ..self.put(id, session.with_edit(first, submission, stamp))
                }.emit(EffectView::HideToast).emit(
                    EffectView::RemeasureMessage(session.edited_at(edit.message_id, edit.turn_count)->0 as usize),
                ).emit(EffectView::Notify).emit(
                    EffectView::RewindProvider {
                        session_id: id,
                        project_path: self.state.workspace_path(session)->0,
                        rollback_turns: provider_turns(later_turns(session.turns, kept)) as usize,
                        provider_turn_count: provider_turns(first_turns(session.turns, kept)) as usize,
                        native_session: session.provider_cursor,
                        binary: catalog.binary(),
                    },
                )
            },
        }
    }

    /// What the editor of a past message holds is sent. `merged` is the prompt with
    /// what was attached.
    pub open spec fn edit_submitted(
        self,
        prompt: Seq<char>,
        merged: Seq<char>,
        catalog: CatalogView,
        stamp: Stamp,
    ) -> DeskView {
        match self.message_edit {
            Some(edit) => if self.submission_preparations.contains(edit.session_id) {
                self
            } else if blank(prompt) && edit.attachments.len() == 0 {
                self.refused(wording("session.edited_message_empty"))
            } else {
                self.rewind_started(edit, edit_submission(edit, prompt, merged), catalog, stamp)
            },
            None => self,
        }
    }

    /// The provider could not go back: the message, the status and the edit are as
    /// before.
    pub open spec fn rewind_failed(
        self,
        edit: MessageEditView,
        original: MessageView,
        previous: SessionStatus,
        error: Seq<char>,
    ) -> DeskView {
        let id = edit.session_id;
        let undone = match self.session(id) {
            Some(session) => self.put(id, session.with_edit_undone(original, previous)),
            None => self,
        };
        (if self.selected(id) {
            DeskView {
                message_edit: match undone.message_edit {
                    Some(other) => Some(other),
                    None => Some(edit),
                },
                ..undone
            }.message_remeasured(original.id)
        } else {
            undone
        }).refused(TextView::Plain(error))
    }

    /// The provider went back: everything from the message on leaves the transcript.
    pub open spec fn rewound(self, edit: MessageEditView) -> DeskView {
        let id = edit.session_id;
        let session = self.session(id)->0;
        let cut = self.put(
            id,
            AgentSessionView { status: SessionStatus::Idle, ..session.truncated(turns_kept(edit.turn_count)) },
        ).emit(EffectView::ClearStagedUndo(id));
        DeskView {
            runtimes: if cut.runtimes.dom().contains(id) {
                cut.runtimes.insert(id, cut.runtimes[id].rewound())
            } else {
                cut.runtimes
            },
            message_edit: match cut.message_edit {
                Some(current) if current.session_id == id => None,
                other => other,
            },
            ..cut.emit(EffectView::InvalidateCheckpointRefs)
        }
    }

    /// The host says whether the provider went back to before a message.
    pub open spec fn rewind_settled(
        self,
        edit: MessageEditView,
        submission: ComposerSubmissionView,
        original: MessageView,
        previous: SessionStatus,
        error: Option<Seq<char>>,
        catalog: CatalogView,
        stamp: Stamp,
    ) -> DeskView {
        let id = edit.session_id;
        let freed = DeskView { submission_preparations: self.submission_preparations.remove(id), ..self };
        if !self.submission_preparations.contains(id) {
            self
        } else {
            match error {
                Some(error) => freed.rewind_failed(edit, original, previous, error),
                None => match self.session(id) {
                    None => freed,
                    Some(_) => {
                        let back = freed.rewound(edit);
                        (if self.selected(id) {
                            back.emit(EffectView::ClearExpansions).emit(EffectView::SpliceTranscriptRows(id)).emit(
                                EffectView::Toast(
                                    wording_with("session.rewound", "turn", decimal(edit.turn_count as nat)),
                                ),
                            )
                        } else {
                            back
                        }).emit(EffectView::Notify).submitted(id, submission, catalog, stamp)
                    },
                },
            }
        }
    }
}

/// What an edited message is sent as.
pub open spec fn edit_submission(edit: MessageEditView, prompt: Seq<char>, merged: Seq<char>) -> ComposerSubmissionView {
    ComposerSubmissionView {
        prompt: merged,
        display_content: if edit.attachments.len() == 0 {
            None
        } else {
            Some(trimmed(prompt))
        },
        attachments: edit.attachments,
    }
}

pub(crate) proof fn lemma_prompt_pos(messages: Seq<MessageView>, id: Uuid, turn_id: Uuid)
    ensures
        prompt_pos(messages, id, turn_id) matches Some(i) ==> 0 <= i < messages.len() && is_prompt(messages[i], id, turn_id),
    decreases messages.len(),
{
    if messages.len() > 0 {
        lemma_prompt_pos(messages.drop_first(), id, turn_id);
    }
}

fn prompt_position(messages: &Vec<Message>, id: Uuid, turn_id: Uuid) -> (r: Option<usize>)
    ensures
        match r {
            Some(i) => prompt_pos(message_views(messages@), id, turn_id) == Some(i as int) && i < messages@.len(),
            None => prompt_pos(message_views(messages@), id, turn_id) is None,
        },
{
    let ghost views = message_views(messages@);
    let mut i: usize = 0;
    assert(views.skip(0) =~= views);
    while i < messages.len()
        invariant
            i <= messages@.len(),
            views == message_views(messages@),
            prompt_pos(views, id, turn_id) == (match prompt_pos(views.skip(i as int), id, turn_id) {
                Some(k) => Some(k + i),
                None => None,
            }),
        decreases messages@.len() - i,
    {
        assert(views.skip(i as int)[0] == messages@[i as int]@);
        assert(views.skip(i as int).drop_first() =~= views.skip(i + 1));
        let message = &messages[i];
        if message.id == id && message.turn_id == Some(turn_id) && message.role == MessageRole::User {
            return Some(i);
        }
        i = i + 1;
    }
    assert(views.skip(i as int).len() == 0);
    None
}

impl AgentSession {
    /// Finds the message that an edit of a turn is about.
    pub fn edited_position(&self, message_id: Uuid, turn_count: usize) -> (r: Option<usize>)
        ensures
            match r {
                Some(i) => self@.edited_at(message_id, turn_count) == Some(i as int) && i < self.messages@.len(),
                None => self@.edited_at(message_id, turn_count) is None,
            },
    {
        match turn_position(&self.turns, turn_count) {
            Some(t) => prompt_position(&self.messages, message_id, self.turns[t].id),
            None => None,
        }
    }
}

impl Desk {
    /// Tells the user why something is not done.
    pub(crate) fn refuse(&mut self, why: Text)
        ensures
            final(self)@ == old(self)@.refused(why@),
    {
        self.emit(Effect::Toast(why));
        self.emit(Effect::Notify);
    }

    /// Starts to edit a past message.
    pub fn begin_message_edit(&mut self, session_id: Uuid, message_id: Uuid, turn_count: usize)
        ensures
            final(self)@ == old(self)@.edit_begun(session_id, message_id, turn_count),
    {
        let found = match self.state.session_index(session_id) {
            Some(i) => {
                if self.state.sessions[i].status.is_at_rest() {
                    match self.state.sessions[i].edited_position(message_id, turn_count) {
                        Some(m) => Some((i, m)),
                        None => None,
                    }
                } else {
                    None
                }
            },
            None => None,
        };
        match found {
            Some((i, m)) => {
                let message = &self.state.sessions[i].messages[m];
                assert(message@ == self@.session(session_id)->0.messages[m as int]);
                let text = message.visible_content().to_owned();
                let attachments = copy_attachments(&message.attachments);
                self.message_edit = Some(MessageEdit { session_id, message_id, turn_count, attachments });
                self.emit(Effect::OpenMessageEditor(text));
                self.emit(Effect::HideToast);
                self.emit(Effect::RemeasureMessage(m));
                self.emit(Effect::Notify);
            },
            None => {
                self.refuse(Text::key("session.message_not_editable"));
            },
        }
    }

    fn remeasure_message(&mut self, message_id: Uuid)
        ensures
            final(self)@ == old(self)@.message_remeasured(message_id),
    {
        if let Some(id) = self.state.selected_session {
            if let Some(i) = self.state.session_index(id) {
                if let Some(m) = message_position(&self.state.sessions[i].messages, message_id) {
                    self.emit(Effect::RemeasureMessage(m));
                }
            }
        }
    }

    /// Gives the edit of a past message up.
    pub fn cancel_message_edit(&mut self)
        ensures
            final(self)@ == old(self)@.edit_cancelled(),
    {
        let message_id = match &self.message_edit {
            Some(edit) => {
                if self.submission_preparations.contains(edit.session_id) {
                    return;
                }
                edit.message_id
            },
            None => {
                return;
            },
        };
        self.message_edit = None;
        self.remeasure_message(message_id);
        self.emit(Effect::FocusComposer);
        self.emit(Effect::Notify);
    }

    fn find_rewind_refusal(&self, edit: &MessageEdit, catalog: &Catalog) -> (r: Option<Text>)
        ensures
            text_opt(r) == self@.rewind_refusal(edit@, catalog@),
    {
        let i = match self.state.session_index(edit.session_id) {
            Some(i) => i,
            None => {
                return Some(Text::key("session.message_unavailable"));
            },
        };
        let session = &self.state.sessions[i];
        if turn_position(&session.turns, edit.turn_count).is_none() {
            return Some(Text::key("session.message_unavailable"));
        }
        if !self.is_selected(edit.session_id) {
            return Some(Text::key("session.select_before_rewind"));
        }
        if !session.status.is_at_rest() {
            return Some(Text::key("session.stop_before_rewind"));
        }
        if self.undo_redo_preparations.contains(edit.session_id) {
            return Some(Text::key("session.rewind_during_undo"));
        }
        let rollback = session.provider_turns_after(kept_turns(edit.turn_count));
        if rollback > 0 && session.provider_cursor.is_none() {
            return Some(Text::with("session.provider_cannot_rewind", "provider", "OpenCode".to_owned()));
        }
        if self.state.workspace_path_for_session(session).is_none() {
            return Some(Text::key("errors.task_project_not_found"));
        }
        if rollback > 0 && catalog.binary().is_none() {
            return Some(Text::with("errors.provider_not_found", "provider", "OpenCode".to_owned()));
        }
        if session.edited_position(edit.message_id, edit.turn_count).is_none() {
            return Some(Text::key("session.message_unavailable"));
        }
        None
    }

    /// Sends a past message again. Gives back the message as it was and the status
    /// before, for the case that the provider cannot go back.
    pub fn start_message_rewind(
        &mut self,
        edit: &MessageEdit,
        submission: &ComposerSubmission,
        catalog: &Catalog,
        stamp: Stamp,
    ) -> (r: Option<(Message, SessionStatus)>)
        ensures
            final(self)@ == old(self)@.rewind_started(edit@, submission@, catalog@, stamp),
            r is Some == (old(self)@.rewind_refusal(edit@, catalog@) is None),
            r matches Some((original, previous)) ==> {
                let session = old(self)@.session(edit.session_id)->0;
                &&& original@ == session.messages[pos(message_ids(session.messages), edit.message_id)->0]
                &&& previous == session.status
            },
    {
        if let Some(why) = self.find_rewind_refusal(edit, catalog) {
            self.refuse(why);
            return None;
        }
        let id = edit.session_id;
        let kept = kept_turns(edit.turn_count);
        let (index, edited, project_path) = match self.state.session_index(id) {
            Some(i) => {
                let session = &self.state.sessions[i];
                let edited = match session.edited_position(edit.message_id, edit.turn_count) {
                    Some(m) => m,
                    None => 0,
                };
                let path = match self.state.workspace_path_for_session(session) {
                    Some(path) => path.to_owned(),
                    None => String::new(),
                };
                (i, edited, path)
            },
            None => {
                return None;
            },
        };
        let session = &self.state.sessions[index];
        let rollback_turns = session.provider_turns_after(kept);
        let provider_turn_count = session.provider_turns_before(kept);
        let native_session = match &session.provider_cursor {
            Some(cursor) => Some(cursor.native_id().to_owned()),
            None => None,
        };
        let binary = catalog.binary();
        proof {
            let s = self@.session(id)->0;
            lemma_turn_pos(s.turns, edit.turn_count);
            lemma_prompt_pos(s.messages, edit.message_id, s.turns[turn_pos(s.turns, edit.turn_count)->0].id);
            assert(message_ids(s.messages)[edited as int] == edit.message_id);
            lemma_pos(message_ids(s.messages), edit.message_id);
        }
        let first = match message_position(&session.messages, edit.message_id) {
            Some(m) => m,
            None => {
                return None;
            },
        };
        let previous = session.status;
        assert(session.messages@[first as int]@ == session@.messages[first as int]);
        let original = session.messages[first].clone();
        if let Some(i) = self.state.session_mut(id) {
            self.edit_words(i, first, submission, stamp);
            proof {
                lemma_put(old(self).state, self.state, id, i as int);
            }
        }
        self.message_edit = None;
        let _ = self.submission_preparations.insert(id);
        self.emit(Effect::HideToast);
        self.emit(Effect::RemeasureMessage(edited));
        self.emit(Effect::Notify);
        self.emit(
            Effect::RewindProvider {
                session_id: id,
                project_path,
                rollback_turns,
                provider_turn_count,
                native_session,
                binary,
            },
        );
        Some((original, previous))
    }

    fn edit_words(&mut self, i: usize, m: usize, submission: &ComposerSubmission, stamp: Stamp)
        requires
            i < old(self).state.sessions@.len(),
            m < old(self).state.sessions@[i as int].messages@.len(),
        ensures
            *final(self) == (Desk {
                state: crate::desk::PersistedState { sessions: final(self).state.sessions, ..old(self).state },
                ..*old(self)
            }),
            final(self).state.sessions@.len() == old(self).state.sessions@.len(),
            final(self).state.sessions@ == old(self).state.sessions@.update(
                i as int,
                final(self).state.sessions@[i as int],
            ),
            final(self).state.sessions@[i as int]@ == old(self).state.sessions@[i as int]@.with_edit(
                m as int,
                submission@,
                stamp,
            ),
    {
        let copy = submission.clone();
        let session = &mut self.state.sessions[i];
        replace_words(session, m, copy);
        session.status = SessionStatus::Connecting;
        session.updated_at = stamp.secs;
    }

    /// Sends what the editor of a past message holds. `merged` is the prompt with what
    /// was attached. Where the provider is asked to go back, gives back the edit, what
    /// is sent, the message as it was and the status before.
    pub fn submit_message_edit_prompt(&mut self, prompt: &str, merged: String, catalog: &Catalog, stamp: Stamp) -> (r: Option<
        (MessageEdit, ComposerSubmission, Message, SessionStatus),
    >)
        ensures
            final(self)@ == old(self)@.edit_submitted(prompt@, merged@, catalog@, stamp),
            r is Some == (old(self)@.message_edit matches Some(edit) && !old(self)@.submission_preparations.contains(
                edit.session_id,
            ) && !(blank(prompt@) && edit.attachments.len() == 0) && old(self)@.rewind_refusal(edit, catalog@) is None),
            r matches Some((edit, submission, original, previous)) ==> {
                let session = old(self)@.session(edit.session_id)->0;
                &&& Some(edit@) == old(self)@.message_edit
                &&& submission@ == edit_submission(edit@, prompt@, merged@)
                &&& original@ == session.messages[pos(message_ids(session.messages), edit.message_id)->0]
                &&& previous == session.status
            },
    {
        let edit = match &self.message_edit {
            Some(edit) => edit.clone(),
            None => {
                return None;
            },
        };
        if self.submission_preparations.contains(edit.session_id) {
            return None;
        }
        let bare = edit.attachments.len() == 0;
        assert(edit@.attachments.len() == edit.attachments@.len());
        if trims_to_nothing(prompt) && bare {
            self.refuse(Text::key("session.edited_message_empty"));
            return None;
        }
        let submission = ComposerSubmission {
            prompt: merged,
            display_content: if bare {
                None
            } else {
                Some(trim(prompt).to_owned())
            },
            attachments: copy_attachments(&edit.attachments),
        };
        assert(submission@ == edit_submission(edit@, prompt@, merged@));
        match self.start_message_rewind(&edit, &submission, catalog, stamp) {
            Some((original, previous)) => Some((edit, submission, original, previous)),
            None => None,
        }
    }

    fn undo_edit(&mut self, edit: MessageEdit, original: Message, previous: SessionStatus, error: String)
        ensures
            final(self)@ == old(self)@.rewind_failed(edit@, original@, previous, error@),
    {
        let id = edit.session_id;
        let selected = self.is_selected(id);
        let message_id = original.id;
        if let Some(i) = self.state.session_mut(id) {
            let session = &mut self.state.sessions[i];
            restore_message(session, original);
            if session.status == SessionStatus::Connecting {
                session.status = previous;
            }
            proof {
                lemma_put(old(self).state, self.state, id, i as int);
            }
        }
        if selected {
            if self.message_edit.is_none() {
                self.message_edit = Some(edit);
            }
            self.remeasure_message(message_id);
        }
        self.refuse(Text::Plain(error));
    }

    fn rewind_transcript(&mut self, edit: &MessageEdit)
        requires
            old(self)@.session(edit.session_id) is Some,
        ensures
            final(self)@ == old(self)@.rewound(edit@),
    {
        let id = edit.session_id;
        if let Some(i) = self.state.session_mut(id) {
            let session = &mut self.state.sessions[i];
            session.truncate_after_turn(kept_turns(edit.turn_count));
            session.status = SessionStatus::Idle;
            proof {
                lemma_put(old(self).state, self.state, id, i as int);
            }
        }
        self.emit(Effect::ClearStagedUndo(id));
        let ghost cut = self@;
        match self.take_runtime(id) {
            Some(mut runtime) => {
                runtime.rewind();
                self.put_runtime(id, runtime);
                assert(self@.runtimes =~= cut.runtimes.insert(id, runtime@));
            },
            None => {
                assert(self@.runtimes =~= cut.runtimes);
            },
        }
        self.emit(Effect::InvalidateCheckpointRefs);
        let same_session = match &self.message_edit {
            Some(current) => current.session_id == id,
            None => false,
        };
        if same_session {
            self.message_edit = None;
        }
    }

    /// The host says whether the provider went back to before a message; `error` says
    /// why it did not.
    pub fn finish_message_rewind(
        &mut self,
        edit: MessageEdit,
        submission: ComposerSubmission,
        original: Message,
        previous: SessionStatus,
        error: Option<String>,
        catalog: &Catalog,
        stamp: Stamp,
    )
        ensures
            final(self)@ == old(self)@.rewind_settled(
                edit@,
                submission@,
                original@,
                previous,
                opt(error),
                catalog@,
                stamp,
            ),
    {
        let id = edit.session_id;
        if !self.submission_preparations.contains(id) {
            return;
        }
        let _ = self.submission_preparations.remove(id);
        if let Some(error) = error {
            self.undo_edit(edit, original, previous, error);
            return;
        }
        if self.state.session_index(id).is_none() {
            return;
        }
        let selected = self.is_selected(id);
        self.rewind_transcript(&edit);
        if selected {
            self.emit(Effect::ClearExpansions);
            self.emit(Effect::SpliceTranscriptRows(id));
            let turn = decimal_of(edit.turn_count as u64);
            self.emit(Effect::Toast(Text::with("session.rewound", "turn", turn)));
        }
        self.emit(Effect::Notify);
        self.submit_submission_for_session(id, submission, catalog, stamp);
    }
}

fn kept_turns(turn_count: usize) -> (r: usize)
    ensures
        r == turns_kept(turn_count),
{
    if turn_count == 0 {
        0
    } else {
        turn_count - 1
    }
}

fn replace_words(session: &mut AgentSession, m: usize, submission: ComposerSubmission)
    requires
        m < old(session).messages@.len(),
    ensures
        final(session)@ == (AgentSessionView {
            messages: old(session)@.messages.update(
                m as int,
                MessageView {
                    content: submission@.prompt,
                    display_content: submission@.display_content,
                    attachments: submission@.attachments,
                    ..old(session)@.messages[m as int]
                },
            ),
            ..old(session)@
        }),
{
    let ghost before = session.messages@;
    session.messages[m].content = submission.prompt;
    session.messages[m].display_content = submission.display_content;
    session.messages[m].attachments = submission.attachments;
    assert(session.messages@ =~= before.update(m as int, session.messages@[m as int]));
    assert(session@.messages =~= message_views(before).update(m as int, session.messages@[m as int]@));
}

fn restore_message(session: &mut AgentSession, original: Message)
    ensures
        final(session)@ == (AgentSessionView {
            messages: match pos(message_ids(old(session)@.messages), original@.id) {
                Some(i) => old(session)@.messages.update(i, original@),
                None => old(session)@.messages,
            },
            ..old(session)@
        }),
{
    if let Some(m) = message_position(&session.messages, original.id) {
        session.messages[m] = original;
        assert(session@.messages =~= old(session)@.messages.update(m as int, original@));
    }
}

impl SessionRuntime {
    /// Clears what is left of the turns that were taken back.
    pub fn rewind(&mut self)
        ensures
            final(self)@ == old(self)@.rewound(),
    {
        retain_background(&mut self.pending_events);
        self.stream_remeasure_pending = false;
        self.stream_phase = None;
        self.open_reasoning.clear();
        self.settled_reasoning.clear();
        self.pending_permission = None;
        self.pending_user_input = None;
    }
}

} // verus!
