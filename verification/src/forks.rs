//! Forking a task from a response, and what the host asks of the provider for that and
//! for going back.
use vstd::prelude::*;

use crate::desk::{
    lemma_put_get, lemma_session_id, wording, wording_with, ComposerSubmissionView, Effect, EffectView,
    MessageEditView, RuntimeView, SessionRuntime, Text, TextView,
};
use crate::fork_title::{fork_title, next_response_fork_title, strs};
use crate::ids::{Stamp, Uuid};
use crate::live::{Desk, DeskView};
use crate::model::{agent_session_views, AgentSession, AgentSessionView, ProviderResumeCursor, TurnView};
use crate::preparations::{lemma_turn_pos, text_opt, turn_pos};
use crate::probes::{Catalog, CatalogView};
use crate::rewinds::prompt_pos;
use crate::seqs::{lemma_pos, pos};
use crate::text::texts;
use crate::transcript::message_ids;
use crate::truncation::{first_turns, provider_turns};

verus! {

/// A fork that the host has prepared.
#[derive(Debug)]
pub struct PreparedResponseFork {
    pub forked: AgentSession,
    /// The provider that was started for the source session; whether a running turn
    /// takes further messages.
    pub driver: Option<bool>,
    pub checkpoint_warning: Option<String>,
}

/// The titles of the sessions about a project.
pub open spec fn project_titles(sessions: Seq<AgentSessionView>, project_id: Uuid) -> Seq<Seq<char>>
    decreases sessions.len(),
{
    if sessions.len() == 0 {
        Seq::empty()
    } else {
        let rest = project_titles(sessions.drop_last(), project_id);
        if sessions.last().project_id == project_id {
            rest.push(sessions.last().shown_title())
        } else {
            rest
        }
    }
}

/// The response to a turn is there, and the provider took part in it.
pub open spec fn has_response(turns: Seq<TurnView>, turn_count: usize) -> bool {
    let i = if turn_count == 0 {
        0
    } else {
        turn_count - 1
    };
    i < turns.len() && turns[i].turn_count == turn_count && turns[i].provider_turn_started
}

impl DeskView {
    /// Why a response cannot be forked, the first reason that holds.
    pub open spec fn fork_refusal(self, id: Uuid, turn_count: usize, catalog: CatalogView) -> Option<TextView> {
        if self.response_fork_preparations.dom().contains(id) || self.submission_preparations.contains(id) {
            Some(wording("session.response_cannot_fork"))
        } else {
            match self.session(id) {
                None => Some(wording("session.response_unavailable")),
                Some(source) => if !self.selected(id) || !source.status.at_rest() || !has_response(
                    source.turns,
                    turn_count,
                ) {
                    Some(wording("session.response_cannot_fork"))
                } else if self.state.workspace_path(source) is None {
                    Some(wording("errors.task_project_not_found"))
                } else if catalog.binary() is None {
                    Some(wording_with("errors.provider_not_installed", "provider", "OpenCode"@))
                } else {
                    None
                },
            }
        }
    }

    /// A response is being forked: the provider is asked to branch off after it.
    pub open spec fn fork_started(self, id: Uuid, turn_count: usize, catalog: CatalogView) -> DeskView {
        match self.fork_refusal(id, turn_count, catalog) {
            Some(why) => self.refused(why),
            None => {
                let source = self.session(id)->0;
                DeskView {
                    response_fork_preparations: self.response_fork_preparations.insert(id, turn_count),
                    ..self
                }.emit(EffectView::HideToast).emit(EffectView::Notify).emit(
                    EffectView::ForkProvider {
                        source,
                        project_path: self.state.workspace_path(source)->0,
                        fork_title: fork_title(
                            source.shown_title(),
                            project_titles(self.state.sessions, source.project_id),
                        ),
                        turn_count,
                        provider_turn_count: provider_turns(first_turns(source.turns, turn_count)) as usize,
                        provider_binary: catalog.binary()->0,
                    },
                )
            },
        }
    }

    /// A fork is there: it goes on screen, and what waited for it goes on.
    pub open spec fn fork_adopted(
        self,
        id: Uuid,
        fork: PreparedResponseFork,
        catalog: CatalogView,
        stamp: Stamp,
    ) -> DeskView {
        let installed = match fork.driver {
            Some(supports_steer) if !self.runtimes.dom().contains(id) => DeskView {
                runtimes: self.runtimes.insert(id, RuntimeView::fresh(supports_steer, stamp)),
                ..self
            },
            _ => self,
        };
        let shown = installed.emit(EffectView::InvalidateCheckpointRefs).with_session(fork.forked@).session_selected(
            fork.forked.id,
        ).queue_drained(id, catalog, stamp);
        shown.emit(
            match fork.checkpoint_warning {
                Some(error) => EffectView::Toast(
                    wording_with("session.forked_with_checkpoint_warning", "error", error@),
                ),
                None => EffectView::SuccessToast(wording("session.forked_from_response")),
            },
        ).emit(EffectView::Notify)
    }

    /// The host hands back a fork, or says why there is none.
    pub open spec fn fork_settled(
        self,
        id: Uuid,
        turn_count: usize,
        result: Result<PreparedResponseFork, String>,
        catalog: CatalogView,
        stamp: Stamp,
    ) -> DeskView {
        if !(self.response_fork_preparations.dom().contains(id) && self.response_fork_preparations[id] == turn_count) {
            self
        } else {
            let freed = DeskView {
                response_fork_preparations: self.response_fork_preparations.remove(id),
                ..self
            };
            match result {
                Err(error) => freed.queue_drained(id, catalog, stamp).refused(TextView::Plain(error@)),
                Ok(fork) => freed.fork_adopted(id, fork, catalog, stamp),
            }
        }
    }
}

fn titles_of(sessions: &Vec<AgentSession>, project_id: Uuid) -> (r: Vec<&str>)
    ensures
        strs(r@) == project_titles(agent_session_views(sessions@), project_id),
{
    let ghost views = agent_session_views(sessions@);
    let mut r: Vec<&str> = Vec::new();
    let mut i: usize = 0;
    assert(views.take(0) =~= Seq::empty());
    assert(strs(r@) =~= Seq::empty());
    while i < sessions.len()
        invariant
            i <= sessions@.len(),
            views == agent_session_views(sessions@),
            strs(r@) == project_titles(views.take(i as int), project_id),
        decreases sessions@.len() - i,
    {
        assert(views.take(i + 1).drop_last() =~= views.take(i as int));
        assert(views.take(i + 1).last() == sessions@[i as int]@);
        if sessions[i].project_id == project_id {
            let ghost before = r@;
            r.push(sessions[i].display_title());
            assert(strs(r@) =~= strs(before).push(sessions@[i as int]@.shown_title()));
        }
        i = i + 1;
    }
    assert(views.take(i as int) =~= views);
    r
}

impl Desk {
    fn find_fork_refusal(&self, session_id: Uuid, turn_count: usize, catalog: &Catalog) -> (r: Option<Text>)
        ensures
            text_opt(r) == self@.fork_refusal(session_id, turn_count, catalog@),
    {
        if self.response_fork_preparations.contains_key(session_id) || self.submission_preparations.contains(session_id) {
            return Some(Text::key("session.response_cannot_fork"));
        }
        let i = match self.state.session_index(session_id) {
            Some(i) => i,
            None => {
                return Some(Text::key("session.response_unavailable"));
            },
        };
        let source = &self.state.sessions[i];
        let at = turn_count.saturating_sub(1);
        let response = at < source.turns.len() && source.turns[at].turn_count == turn_count
            && source.turns[at].provider_turn_started;
        if !self.is_selected(session_id) || !source.status.is_at_rest() || !response {
            return Some(Text::key("session.response_cannot_fork"));
        }
        if self.state.workspace_path_for_session(source).is_none() {
            return Some(Text::key("errors.task_project_not_found"));
        }
        if catalog.binary().is_none() {
            return Some(Text::with("errors.provider_not_installed", "provider", "OpenCode".to_owned()));
        }
        None
    }

    /// Forks a task of its own from the response to a turn.
    pub fn fork_session_from_response(&mut self, session_id: Uuid, turn_count: usize, catalog: &Catalog)
        ensures
            final(self)@ == old(self)@.fork_started(session_id, turn_count, catalog@),
    {
        if let Some(why) = self.find_fork_refusal(session_id, turn_count, catalog) {
            self.refuse(why);
            return;
        }
        let (source, project_path, title) = match self.state.session_index(session_id) {
            Some(i) => {
                let source = &self.state.sessions[i];
                let path = match self.state.workspace_path_for_session(source) {
                    Some(path) => path.to_owned(),
                    None => String::new(),
                };
                let titles = titles_of(&self.state.sessions, source.project_id);
                (source.clone(), path, next_response_fork_title(source.display_title(), &titles))
            },
            None => {
                return;
            },
        };
        let provider_turn_count = source.provider_turns_before(turn_count);
        let binary = match catalog.binary() {
            Some(binary) => binary,
            None => String::new(),
        };
        self.response_fork_preparations.insert(session_id, turn_count);
        self.emit(Effect::HideToast);
        self.emit(Effect::Notify);
        self.emit(
            Effect::ForkProvider {
                source,
                project_path,
                fork_title: title,
                turn_count,
                provider_turn_count,
                provider_binary: binary,
            },
        );
    }

    /// The host hands back a fork, or says why there is none.
    pub fn finish_response_fork(
        &mut self,
        session_id: Uuid,
        turn_count: usize,
        result: Result<PreparedResponseFork, String>,
        catalog: &Catalog,
        stamp: Stamp,
    )
        ensures
            final(self)@ == old(self)@.fork_settled(session_id, turn_count, result, catalog@, stamp),
    {
        let waiting = match self.response_fork_preparations.get(session_id) {
            Some(count) => *count == turn_count,
            None => false,
        };
        if !waiting {
            return;
        }
        let _ = self.response_fork_preparations.remove(session_id);
        match result {
            Err(error) => {
                self.drain_queued_message(session_id, catalog, stamp);
                self.refuse(Text::Plain(error));
            },
            Ok(fork) => {
                self.adopt_fork(session_id, fork, catalog, stamp);
            },
        }
    }

    fn adopt_fork(&mut self, session_id: Uuid, fork: PreparedResponseFork, catalog: &Catalog, stamp: Stamp)
        ensures
            final(self)@ == old(self)@.fork_adopted(session_id, fork, catalog@, stamp),
    {
        if let Some(supports_steer) = fork.driver {
            if !self.has_runtime(session_id) {
                let runtime = SessionRuntime::new(supports_steer, stamp);
                self.put_runtime(session_id, runtime);
                assert(self@.runtimes =~= old(self)@.runtimes.insert(session_id, runtime@));
            }
        }
        self.emit(Effect::InvalidateCheckpointRefs);
        let fork_id = fork.forked.id;
        self.push_session(fork.forked);
        self.select_session(fork_id);
        self.drain_queued_message(session_id, catalog, stamp);
        match fork.checkpoint_warning {
            Some(error) => {
                self.emit(Effect::Toast(Text::with("session.forked_with_checkpoint_warning", "error", error)));
            },
            None => {
                self.emit(Effect::SuccessToast(Text::key("session.forked_from_response")));
            },
        }
        self.emit(Effect::Notify);
    }

    /// Whether a prompt that was sent while a fork was under way goes back into the
    /// composer: its session is still on screen, and nothing was typed meanwhile.
    pub fn defer_restore_composer_after_fork(&self, session_id: Uuid, composer: &str) -> (r: bool)
        ensures
            r == (self@.selected(session_id) && composer@.len() == 0),
    {
        self.is_selected(session_id) && composer.unicode_len() == 0
    }
}

/// What the host asks of the provider's own record of a session.
#[derive(Debug)]
pub enum ProviderRequest {
    /// Nothing: no turn of the provider is concerned.
    Nothing,
    /// Go back to before a turn, in place.
    Revert { binary: String, cwd: String, native_session: String, turn_count: usize },
    /// Branch off after a turn.
    Branch { binary: String, cwd: String, native_session: String, turn_count: usize },
}

/// What is asked of the provider to go back, or why it cannot be.
pub fn perform_provider_rewind(
    rollback_turns: usize,
    native_session: Option<String>,
    binary: Option<String>,
    cwd: String,
    turn_count: usize,
) -> (r: Result<ProviderRequest, Text>)
    ensures
        rollback_turns == 0 ==> r matches Ok(ProviderRequest::Nothing),
        rollback_turns > 0 && native_session is None ==> (r matches Err(why) && why@ == wording_with(
            "errors.provider_native_cursor_unavailable",
            "provider",
            "OpenCode"@,
        )),
        rollback_turns > 0 && native_session is Some && binary is None ==> (r matches Err(why) && why@ == wording_with(
            "errors.provider_not_found",
            "provider",
            "OpenCode"@,
        )),
        rollback_turns > 0 && native_session is Some && binary is Some ==> r == Ok::<ProviderRequest, Text>(
            ProviderRequest::Revert { binary: binary->0, cwd, native_session: native_session->0, turn_count },
        ),
{
    if rollback_turns == 0 {
        return Ok(ProviderRequest::Nothing);
    }
    let native_session = match native_session {
        Some(native_session) => native_session,
        None => {
            return Err(
                Text::with("errors.provider_native_cursor_unavailable", "provider", "OpenCode".to_owned()),
            );
        },
    };
    match binary {
        Some(binary) => Ok(ProviderRequest::Revert { binary, cwd, native_session, turn_count }),
        None => Err(Text::with("errors.provider_not_found", "provider", "OpenCode".to_owned())),
    }
}

/// What is asked of the provider to branch off after a response, or why it cannot be.
pub fn plan_response_fork(source: &AgentSession, binary: Option<String>, cwd: String, turn_count: usize) -> (r: Result<
    ProviderRequest,
    Text,
>)
    ensures
        source@.provider_cursor is None ==> (r matches Err(why) && why@ == wording_with(
            "errors.provider_native_session_unavailable",
            "provider",
            "OpenCode"@,
        )),
        source@.provider_cursor is Some && binary is None ==> (r matches Err(why) && why@ == wording_with(
            "errors.provider_not_installed",
            "provider",
            "OpenCode"@,
        )),
        source@.provider_cursor is Some && binary is Some ==> (r matches Ok(
            ProviderRequest::Branch { binary: b, cwd: c, native_session: n, turn_count: t },
        ) && b@ == binary->0@ && c@ == cwd@ && Some(n@) == source@.provider_cursor && t == turn_count),
{
    let native_session = match &source.provider_cursor {
        Some(cursor) => cursor.native_id().to_owned(),
        None => {
            return Err(
                Text::with("errors.provider_native_session_unavailable", "provider", "OpenCode".to_owned()),
            );
        },
    };
    match binary {
        Some(binary) => Ok(ProviderRequest::Branch { binary, cwd, native_session, turn_count }),
        None => Err(Text::with("errors.provider_not_installed", "provider", "OpenCode".to_owned())),
    }
}

/// What the host hands back of a fork: `branched` is the provider's record of it, or
/// why there is none, and `refs` names the checkpoints of its turns.
pub fn perform_response_fork(
    source: &AgentSession,
    turn_count: usize,
    title: &str,
    branched: Result<ProviderResumeCursor, String>,
    refs: &Vec<String>,
    checkpoint_warning: Option<String>,
    stamp: Stamp,
) -> (r: Result<PreparedResponseFork, Text>)
    ensures
        match branched {
            Err(error) => r matches Err(why) && why@ == wording_with("errors.fork_task", "error", error@),
            Ok(cursor) => if source@.can_fork_after(turn_count) {
                r matches Ok(fork) && fork.forked@ == source@.forked(turn_count, cursor@, title@, texts(refs@), stamp)
                    && fork.driver is None && fork.checkpoint_warning == checkpoint_warning
            } else {
                r matches Err(why) && why@ == wording("session.response_cannot_copy")
            },
        },
{
    match branched {
        Err(error) => Err(Text::with("errors.fork_task", "error", error)),
        Ok(cursor) => match source.fork_through_turn(turn_count, cursor, title, refs, stamp) {
            Some(forked) => Ok(PreparedResponseFork { forked, driver: None, checkpoint_warning }),
            None => Err(Text::key("session.response_cannot_copy")),
        },
    }
}

/// A rewind that fails leaves no trace: the message, the status and the edit are as
/// they were before it started.
pub proof fn failed_rewind_restores(
    desk: DeskView,
    edit: MessageEditView,
    submission: ComposerSubmissionView,
    error: Seq<char>,
    catalog: CatalogView,
    started: Stamp,
    failed: Stamp,
)
    requires
        desk.rewind_refusal(edit, catalog) is None,
    ensures
        ({
            let session = desk.session(edit.session_id)->0;
            let original = session.messages[pos(message_ids(session.messages), edit.message_id)->0];
            let after = desk.rewind_started(edit, submission, catalog, started).rewind_settled(
                edit,
                submission,
                original,
                session.status,
                Some(error),
                catalog,
                failed,
            );
            &&& after.session(edit.session_id) == Some(AgentSessionView { updated_at: started.secs, ..session })
            &&& after.message_edit == Some(edit)
            &&& after.runtimes == desk.runtimes
            &&& !after.submission_preparations.contains(edit.session_id)
        }),
{
    let id = edit.session_id;
    let session = desk.session(id)->0;
    let turn = session.turns[turn_pos(session.turns, edit.turn_count)->0];
    lemma_turn_pos(session.turns, edit.turn_count);
    crate::rewinds::lemma_prompt_pos(session.messages, edit.message_id, turn.id);
    let at = prompt_pos(session.messages, edit.message_id, turn.id)->0;
    assert(message_ids(session.messages)[at] == edit.message_id);
    lemma_pos(message_ids(session.messages), edit.message_id);
    let first = pos(message_ids(session.messages), edit.message_id)->0;
    let original = session.messages[first];
    assert(message_ids(session.messages)[first] == edit.message_id);
    let edited = session.with_edit(first, submission, started);
    lemma_session_id(desk.state, id);
    lemma_put_get(desk.state, id, edited);
    assert(message_ids(edited.messages) =~= message_ids(session.messages));
    let begun = desk.rewind_started(edit, submission, catalog, started);
    assert(begun.session(id) == Some(edited));
    let restored = edited.with_edit_undone(original, session.status);
    assert(restored.messages =~= session.messages);
    lemma_session_id(begun.state, id);
    lemma_put_get(begun.state, id, restored);
    assert(restored =~= AgentSessionView { updated_at: started.secs, ..session });
}

} // verus!
