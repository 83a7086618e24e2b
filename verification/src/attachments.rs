//! The daemon's list of tasks, and attaching to the runtimes that it keeps.
use vstd::prelude::*;

use crate::activities::{blocks_cut_off, cut_off_blocks};
use crate::desk::{
    lemma_put, pending_checkpoint_capture_views, session_ids, Effect, EffectView, PendingCheckpointCapture,
    PendingCheckpointCaptureView, RuntimeView, SessionRuntime, StateView,
};
use crate::ids::{Stamp, Uuid};
use crate::keyed::has_id;
use crate::live::{Desk, DeskView};
use crate::model::{
    agent_session_views, message_views, project_views, turn_views, AgentSession, AgentSessionView, Message, MessageView,
    Project, ProjectView, SessionStatus, TurnStatus, TurnView,
};
use crate::seqs::{lemma_pos, lemma_pos_none, lemma_pos_some, pos};
use crate::sessions::{find_newest, newest};

verus! {

/// The tasks that the daemon knows, without their transcripts.
#[derive(Debug)]
pub struct RemoteTaskState {
    pub projects: Vec<Project>,
    pub sessions: Vec<AgentSession>,
}

/// What a [`RemoteTaskState`] holds.
#[verifier::ext_equal]
pub ghost struct RemoteTaskStateView {
    pub projects: Seq<ProjectView>,
    pub sessions: Seq<AgentSessionView>,
}

impl View for RemoteTaskState {
    type V = RemoteTaskStateView;

    open spec fn view(&self) -> RemoteTaskStateView {
        RemoteTaskStateView {
            projects: project_views(self.projects@),
            sessions: agent_session_views(self.sessions@),
        }
    }
}

impl AgentSessionView {
    /// The session with what the daemon's list says of it. While a runtime is attached
    /// here, the status and the time of the last change are its own.
    pub open spec fn listed(self, remote: AgentSessionView, attached: bool) -> AgentSessionView {
        AgentSessionView {
            title: remote.title,
            auto_title: remote.auto_title,
            project_id: remote.project_id,
            provider: remote.provider,
            model: remote.model,
            created_at: remote.created_at,
            last_reply_at: remote.last_reply_at,
            status: if attached {
                self.status
            } else {
                remote.status
            },
            updated_at: if attached {
                self.updated_at
            } else {
                remote.updated_at
            },
            ..self
        }
    }

    /// The session is known here alone: a draft, or one that the daemon lists.
    pub open spec fn stays(self, listed: Seq<Uuid>) -> bool {
        !self.started() || listed.contains(self.id)
    }

    /// The session after its runtime was lost in the middle of a turn.
    pub open spec fn orphaned(self, stamp: Stamp) -> AgentSessionView {
        AgentSessionView {
            status: SessionStatus::Idle,
            turns: if self.turns.len() > 0 && self.turns.last().status == TurnStatus::Running {
                self.turns.update(
                    self.turns.len() - 1,
                    TurnView {
                        status: TurnStatus::Interrupted,
                        completed_at: Some(stamp.secs),
                        ..self.turns.last()
                    },
                )
            } else {
                self.turns
            },
            messages: self.messages.map_values(|m: MessageView| MessageView { streaming: false, ..m }),
            transcript_blocks: blocks_cut_off(self.transcript_blocks),
            ..self
        }
    }
}

/// The sessions that the daemon no longer knows.
pub open spec fn unlisted(sessions: Seq<AgentSessionView>, listed: Seq<Uuid>) -> Seq<Uuid>
    decreases sessions.len(),
{
    if sessions.len() == 0 {
        Seq::empty()
    } else {
        let rest = unlisted(sessions.drop_last(), listed);
        if sessions.last().stays(listed) {
            rest
        } else {
            rest.push(sessions.last().id)
        }
    }
}

/// The sessions that stay.
pub open spec fn still_listed(sessions: Seq<AgentSessionView>, listed: Seq<Uuid>) -> Seq<AgentSessionView>
    decreases sessions.len(),
{
    if sessions.len() == 0 {
        Seq::empty()
    } else {
        let rest = still_listed(sessions.drop_last(), listed);
        if sessions.last().stays(listed) {
            rest.push(sessions.last())
        } else {
            rest
        }
    }
}

/// The sessions with one entry of the daemon's list taken in.
pub open spec fn with_listed(sessions: Seq<AgentSessionView>, remote: AgentSessionView, attached: Seq<Uuid>) -> Seq<
    AgentSessionView,
> {
    match pos(session_ids(sessions), remote.id) {
        Some(i) => sessions.update(i, sessions[i].listed(remote, attached.contains(remote.id))),
        None => sessions.push(remote),
    }
}

/// The sessions with every entry of the daemon's list taken in.
pub open spec fn with_list(sessions: Seq<AgentSessionView>, remote: Seq<AgentSessionView>, attached: Seq<Uuid>) -> Seq<
    AgentSessionView,
>
    decreases remote.len(),
{
    if remote.len() == 0 {
        sessions
    } else {
        with_listed(with_list(sessions, remote.drop_last(), attached), remote.last(), attached)
    }
}

/// The sessions merged with the daemon's list.
pub open spec fn merged_catalog(sessions: Seq<AgentSessionView>, remote: Seq<AgentSessionView>, attached: Seq<Uuid>) -> Seq<
    AgentSessionView,
> {
    with_list(still_listed(sessions, session_ids(remote)), remote, attached)
}

fn ids_of(sessions: &Vec<AgentSession>) -> (r: Vec<Uuid>)
    ensures
        r@ == session_ids(agent_session_views(sessions@)),
{
    let mut r: Vec<Uuid> = Vec::new();
    let mut i: usize = 0;
    while i < sessions.len()
        invariant
            i <= sessions@.len(),
            r@ == session_ids(agent_session_views(sessions@)).take(i as int),
        decreases sessions@.len() - i,
    {
        r.push(sessions[i].id);
        assert(r@ =~= session_ids(agent_session_views(sessions@)).take(i + 1));
        i = i + 1;
    }
    assert(r@ =~= session_ids(agent_session_views(sessions@)));
    r
}

fn retain_listed(local: &mut Vec<AgentSession>, listed: &Vec<Uuid>) -> (r: Vec<Uuid>)
    ensures
        agent_session_views(final(local)@) == still_listed(agent_session_views(old(local)@), listed@),
        r@ == unlisted(agent_session_views(old(local)@), listed@),
{
    let mut gone: Vec<Uuid> = Vec::new();
    let mut rest: Vec<AgentSession> = Vec::new();
    let mut all: Vec<AgentSession> = Vec::new();
    std::mem::swap(&mut all, local);
    let ghost whole = all@;
    let ghost mut done: int = 0;
    assert(whole.skip(0) =~= whole);
    assert(agent_session_views(whole.take(0)) =~= Seq::empty());
    assert(agent_session_views(rest@) =~= Seq::empty());
    while all.len() > 0
        invariant
            0 <= done <= whole.len(),
            all@ == whole.skip(done),
            agent_session_views(rest@) == still_listed(agent_session_views(whole.take(done)), listed@),
            gone@ == unlisted(agent_session_views(whole.take(done)), listed@),
        decreases all@.len(),
    {
        let session = all.remove(0);
        proof {
            assert(whole.skip(done).remove(0) =~= whole.skip(done + 1));
            assert(agent_session_views(whole.take(done + 1)).drop_last() =~= agent_session_views(whole.take(done)));
            assert(agent_session_views(whole.take(done + 1)).last() == whole[done]@);
        }
        if !session.has_started() || has_id(listed, session.id) {
            let ghost before = rest@;
            rest.push(session);
            assert(agent_session_views(rest@) =~= agent_session_views(before).push(whole[done]@));
        } else {
            gone.push(session.id);
        }
        proof {
            done = done + 1;
        }
    }
    assert(whole.take(done) =~= whole);
    *local = rest;
    gone
}

fn find_session(sessions: &Vec<AgentSession>, id: Uuid) -> (r: Option<usize>)
    ensures
        match r {
            Some(i) => pos(session_ids(agent_session_views(sessions@)), id) == Some(i as int) && i < sessions@.len(),
            None => pos(session_ids(agent_session_views(sessions@)), id) is None,
        },
{
    let ghost ids = session_ids(agent_session_views(sessions@));
    let mut i: usize = 0;
    while i < sessions.len()
        invariant
            i <= sessions@.len(),
            ids == session_ids(agent_session_views(sessions@)),
            forall|j: int| 0 <= j < i ==> ids[j] != id,
        decreases sessions@.len() - i,
    {
        assert(ids[i as int] == sessions@[i as int].id);
        if sessions[i].id == id {
            proof {
                lemma_pos_some(ids, id, i as int);
            }
            return Some(i);
        }
        i = i + 1;
    }
    proof {
        lemma_pos_none(ids, id);
    }
    None
}

fn take_listed(session: &mut AgentSession, remote: AgentSession, attached: bool)
    ensures
        final(session)@ == old(session)@.listed(remote@, attached),
{
    session.title = remote.title;
    session.auto_title = remote.auto_title;
    session.project_id = remote.project_id;
    session.provider = remote.provider;
    session.model = remote.model;
    session.created_at = remote.created_at;
    session.last_reply_at = remote.last_reply_at;
    if !attached {
        session.status = remote.status;
        session.updated_at = remote.updated_at;
    }
}

/// Merges the daemon's list into the sessions here, and gives back those that the
/// daemon no longer knows. A transcript that was read in stays; only what the list
/// says is taken over, and of a session whose runtime is attached (`attached`) not the
/// status and the time of the last change.
pub fn merge_remote_session_catalog(
    local: &mut Vec<AgentSession>,
    remote: Vec<AgentSession>,
    attached: &Vec<Uuid>,
) -> (r: Vec<Uuid>)
    ensures
        agent_session_views(final(local)@) == merged_catalog(
            agent_session_views(old(local)@),
            agent_session_views(remote@),
            attached@,
        ),
        r@ == unlisted(agent_session_views(old(local)@), session_ids(agent_session_views(remote@))),
{
    let listed = ids_of(&remote);
    let gone = retain_listed(local, &listed);
    let ghost kept = agent_session_views(local@);
    let mut all = remote;
    let ghost whole = all@;
    let ghost mut done: int = 0;
    assert(whole.skip(0) =~= whole);
    assert(agent_session_views(whole.take(0)) =~= Seq::empty());
    while all.len() > 0
        invariant
            0 <= done <= whole.len(),
            all@ == whole.skip(done),
            agent_session_views(local@) == with_list(kept, agent_session_views(whole.take(done)), attached@),
        decreases all@.len(),
    {
        let entry = all.remove(0);
        let ghost before = local@;
        proof {
            assert(whole.skip(done).remove(0) =~= whole.skip(done + 1));
            assert(agent_session_views(whole.take(done + 1)).drop_last() =~= agent_session_views(whole.take(done)));
            assert(agent_session_views(whole.take(done + 1)).last() == whole[done]@);
        }
        match find_session(local, entry.id) {
            Some(i) => {
                let here = has_id(attached, entry.id);
                take_listed(&mut local[i], entry, here);
                assert(agent_session_views(local@) =~= agent_session_views(before).update(i as int, local@[i as int]@));
            },
            None => {
                local.push(entry);
                assert(agent_session_views(local@) =~= agent_session_views(before).push(whole[done]@));
            },
        }
        proof {
            done = done + 1;
        }
    }
    assert(whole.take(done) =~= whole);
    gone
}

/// The newest list of the daemon could be read.
pub open spec fn takes_over(results: Seq<Result<RemoteTaskState, String>>) -> bool {
    results.len() > 0 && results.last() is Ok
}

impl DeskView {
    /// What hangs on sessions that are gone is dropped.
    pub open spec fn forgotten(self, gone: Seq<Uuid>) -> DeskView
        decreases gone.len(),
    {
        if gone.len() == 0 {
            self
        } else {
            let before = self.forgotten(gone.drop_last());
            let id = gone.last();
            DeskView {
                runtime_attach_pending: before.runtime_attach_pending.remove(id),
                runtime_attach_misses: before.runtime_attach_misses.remove(id),
                runtimes: before.runtimes.remove(id),
                ..before
            }.emit(EffectView::ForgetBackgroundWork(id)).emit(EffectView::RemovePanelState(id))
        }
    }

    /// The runtime of a session is being attached to, unless it is or was.
    pub open spec fn attaching(self, id: Uuid) -> DeskView {
        if self.runtimes.dom().contains(id) || self.runtime_attach_pending.contains(id) {
            self
        } else {
            DeskView { runtime_attach_pending: self.runtime_attach_pending.insert(id), ..self }.emit(
                EffectView::AttachRuntime(id),
            )
        }
    }

    /// The runtimes of the sessions that are at work, and of the one on screen once it
    /// has started, are being attached to.
    pub open spec fn attaching_all(self, sessions: Seq<AgentSessionView>) -> DeskView
        decreases sessions.len(),
    {
        if sessions.len() == 0 {
            self
        } else {
            let before = self.attaching_all(sessions.drop_last());
            let session = sessions.last();
            if session.status.busy() || (self.selected(session.id) && session.started()) {
                before.attaching(session.id)
            } else {
                before
            }
        }
    }

    /// Another session takes the place of one that is gone: the newest of the project,
    /// else the newest of all, else a draft.
    pub open spec fn refocused(self, stamp: Stamp) -> DeskView {
        let left = DeskView { state: StateView { selected_session: None, ..self.state }, ..self };
        let next = match newest(self.state.sessions, self.state.selected_project) {
            Some(i) => Some(i),
            None => newest(self.state.sessions, None),
        };
        match next {
            Some(i) => left.session_selected(self.state.sessions[i].id),
            None => match self.fallback_project() {
                Some(project_id) => DeskView {
                    state: StateView { selected_project: Some(project_id), ..left.state },
                    ..left
                }.session_created(project_id, left.state.prefs.last_provider, stamp),
                None => left,
            },
        }
    }

    /// The project on screen where it is still there, else the first.
    pub open spec fn fallback_project(self) -> Option<Uuid> {
        match self.state.selected_project {
            Some(id) if self.state.project(id) is Some => Some(id),
            _ => if self.state.projects.len() > 0 {
                Some(self.state.projects[0].id)
            } else {
                None
            },
        }
    }

    /// The sessions and projects are those of the daemon.
    pub open spec fn catalog_taken(self, remote: RemoteTaskStateView, attached: Seq<Uuid>) -> DeskView {
        let merged = DeskView {
            state: StateView {
                sessions: merged_catalog(self.state.sessions, remote.sessions, attached),
                ..self.state
            },
            ..self
        }.forgotten(unlisted(self.state.sessions, session_ids(remote.sessions)));
        DeskView { state: StateView { projects: remote.projects, ..merged.state }, ..merged }
    }

    /// The daemon's list of tasks is taken over.
    pub open spec fn remote_applied(self, remote: RemoteTaskStateView, attached: Seq<Uuid>, stamp: Stamp) -> DeskView {
        let taken = self.catalog_taken(remote, attached);
        let attaching = taken.attaching_all(taken.state.sessions);
        match attaching.state.selected_session {
            Some(selected) => if attaching.session(selected) is None {
                attaching.refocused(stamp)
            } else {
                attaching.emit(EffectView::RevealSidebarSession(selected))
            },
            None => attaching,
        }
    }

    /// The directory that a session whose runtime was lost worked in.
    pub open spec fn last_directory(self, session: AgentSessionView) -> Option<Seq<char>> {
        match session.workspace.path() {
            Some(path) => Some(path),
            None => match self.state.project(session.project_id) {
                Some(project) => Some(project.path),
                None => None,
            },
        }
    }

    /// The turn of a session whose runtime was lost is over.
    pub open spec fn orphan_settled(self, id: Uuid, stamp: Stamp) -> DeskView {
        match self.session(id) {
            Some(session) => {
                let settled = self.put(id, session.orphaned(stamp));
                if session.turns.len() > 0 && session.turns.last().status == TurnStatus::Running
                    && self.last_directory(session) is Some {
                    DeskView {
                        pending_checkpoint_captures: settled.pending_checkpoint_captures.push(
                            PendingCheckpointCaptureView {
                                session_id: id,
                                turn_count: session.turns.last().turn_count,
                                project_path: self.last_directory(session)->0,
                            },
                        ),
                        ..settled
                    }.captures_started()
                } else {
                    settled
                }
            },
            None => self,
        }
    }

    /// The transcript on screen is drawn from scratch, where it is this session's.
    pub open spec fn reset_if_shown(self, id: Uuid) -> DeskView {
        if self.selected(id) {
            DeskView { message_edit: None, ..self }.emit(EffectView::ResetVisibleState)
        } else {
            self
        }
    }

    /// The runtime of a session that was at work cannot be found any more.
    pub open spec fn orphan_interrupted(self, id: Uuid, stamp: Stamp) -> DeskView {
        match self.session(id) {
            Some(session) if !session.status.busy() => self.put(id, session),
            _ => self.orphan_settled(id, stamp).reset_if_shown(id).emit(EffectView::Save).emit(EffectView::Notify),
        }
    }

    /// The session as the daemon keeps it, with its runtime.
    pub open spec fn attached(self, id: Uuid, session: AgentSessionView, supports_steer: bool, stamp: Stamp) -> DeskView {
        match self.state.at(id) {
            Some(i) => if self.runtimes.dom().contains(id) {
                self
            } else {
                DeskView {
                    state: StateView { sessions: self.state.sessions.update(i, session), ..self.state },
                    runtimes: self.runtimes.insert(id, RuntimeView::fresh(supports_steer, stamp)),
                    ..self
                }.reset_if_shown(id).emit(EffectView::Notify)
            },
            None => self,
        }
    }

    /// The daemon keeps no runtime of the session. One that is at work is looked for
    /// again, four times in all.
    pub open spec fn attachment_missed(self, id: Uuid, stamp: Stamp) -> DeskView {
        let busy = match self.session(id) {
            Some(session) => session.status.busy(),
            None => false,
        };
        let misses: int = if self.runtime_attach_misses.dom().contains(id) {
            self.runtime_attach_misses[id] as int
        } else {
            0
        };
        if !busy {
            DeskView { runtime_attach_misses: self.runtime_attach_misses.remove(id), ..self }
        } else if misses < 3 {
            DeskView {
                runtime_attach_misses: self.runtime_attach_misses.insert(id, (misses + 1) as u8),
                ..self
            }.emit(EffectView::AttachRuntimeSoon(id))
        } else {
            DeskView { runtime_attach_misses: self.runtime_attach_misses.remove(id), ..self }.orphan_interrupted(id, stamp)
        }
    }

    /// Taking over the newest of the lists that the daemon sent leads from here to there;
    /// one that could not be read changes nothing.
    #[verifier::opaque]
    pub open spec fn syncs_to(
        self,
        after: DeskView,
        results: Seq<Result<RemoteTaskState, String>>,
        stamp: Stamp,
    ) -> bool {
        if takes_over(results) {
            exists|attached: Seq<Uuid>|
                (forall|id: Uuid| attached.contains(id) <==> #[trigger] self.runtimes.dom().contains(id)) && after
                    == #[trigger] self.remote_applied(results.last()->Ok_0@, attached, stamp)
        } else {
            after == self
        }
    }

    /// Runtimes that nobody has used for a while are let go.
    pub open spec fn reaped(self, ids: Seq<Uuid>) -> DeskView
        decreases ids.len(),
    {
        if ids.len() == 0 {
            self
        } else {
            let before = self.reaped(ids.drop_last());
            if before.runtimes.dom().contains(ids.last()) {
                DeskView { runtimes: before.runtimes.remove(ids.last()), ..before }.emit(
                    EffectView::DriverClose(ids.last()),
                )
            } else {
                before
            }
        }
    }
}

/// What came of an attempt to attach to a runtime.
#[derive(Debug)]
pub enum Attachment {
    /// The session as the daemon keeps it; whether a running turn takes further
    /// messages.
    Attached { session: AgentSession, supports_steer: bool },
    /// The daemon keeps no runtime of it.
    Missing,
    Failed,
}

impl Desk {
    fn forget_sessions(&mut self, gone: &Vec<Uuid>)
        ensures
            final(self)@ == old(self)@.forgotten(gone@),
    {
        let mut i: usize = 0;
        assert(gone@.take(0) =~= Seq::empty());
        while i < gone.len()
            invariant
                i <= gone@.len(),
                self@ == old(self)@.forgotten(gone@.take(i as int)),
            decreases gone@.len() - i,
        {
            let id = gone[i];
            let ghost before = self@;
            proof {
                assert(gone@.take(i + 1).drop_last() =~= gone@.take(i as int));
            }
            let _ = self.runtime_attach_pending.remove(id);
            let _ = self.runtime_attach_misses.remove(id);
            let _ = self.runtimes.remove(id);
            assert(self@.runtimes =~= before.runtimes.remove(id));
            self.emit(Effect::ForgetBackgroundWork(id));
            self.emit(Effect::RemovePanelState(id));
            i = i + 1;
        }
        assert(gone@.take(i as int) =~= gone@);
    }

    /// Attaches to the runtime of a session in the daemon.
    pub fn start_runtime_attachment(&mut self, session_id: Uuid)
        ensures
            final(self)@ == old(self)@.attaching(session_id),
            final(self).state == old(self).state,
    {
        if self.has_runtime(session_id) || self.runtime_attach_pending.contains(session_id) {
            return;
        }
        let _ = self.runtime_attach_pending.insert(session_id);
        self.emit(Effect::AttachRuntime(session_id));
    }

    fn attach_all(&mut self)
        ensures
            final(self)@ == old(self)@.attaching_all(old(self)@.state.sessions),
    {
        let ghost views = old(self)@.state.sessions;
        let mut i: usize = 0;
        assert(views.take(0) =~= Seq::empty());
        while i < self.state.sessions.len()
            invariant
                i <= self.state.sessions@.len(),
                self.state == old(self).state,
                views == agent_session_views(self.state.sessions@),
                self@ == old(self)@.attaching_all(views.take(i as int)),
            decreases self.state.sessions@.len() - i,
        {
            proof {
                assert(views.take(i + 1).drop_last() =~= views.take(i as int));
                assert(views.take(i + 1).last() == self.state.sessions@[i as int]@);
            }
            let session = &self.state.sessions[i];
            let id = session.id;
            if session.status.is_busy() || (self.is_selected(id) && session.has_started()) {
                self.start_runtime_attachment(id);
            }
            i = i + 1;
        }
        assert(views.take(i as int) =~= views);
    }

    fn take_catalog(&mut self, remote: RemoteTaskState, attached: &Vec<Uuid>)
        ensures
            final(self)@ == old(self)@.catalog_taken(remote@, attached@),
    {
        let gone = merge_remote_session_catalog(&mut self.state.sessions, remote.sessions, attached);
        self.forget_sessions(&gone);
        self.state.projects = remote.projects;
    }

    fn refocus(&mut self, stamp: Stamp)
        ensures
            final(self)@ == old(self)@.refocused(stamp),
    {
        let project = self.state.selected_project;
        self.state.selected_session = None;
        let next = match find_newest(&self.state.sessions, project) {
            Some(i) => Some(i),
            None => find_newest(&self.state.sessions, None),
        };
        if let Some(i) = next {
            let id = self.state.sessions[i].id;
            assert(self@.state.sessions[i as int] == self.state.sessions@[i as int]@);
            self.select_session(id);
            return;
        }
        let known = match project {
            Some(id) => self.state.project_index(id).is_some(),
            None => false,
        };
        let fallback = if known {
            project
        } else if self.state.projects.len() > 0 {
            assert(self@.state.projects[0] == self.state.projects@[0]@);
            Some(self.state.projects[0].id)
        } else {
            None
        };
        if let Some(project_id) = fallback {
            self.state.selected_project = Some(project_id);
            let provider = self.state.prefs.last_provider;
            self.create_session_for(project_id, provider, stamp);
        }
    }

    /// Takes the daemon's list of tasks over.
    pub fn apply_remote_task_state(&mut self, remote: RemoteTaskState, stamp: Stamp)
        ensures
            exists|attached: Seq<Uuid>|
                (forall|id: Uuid| attached.contains(id) <==> #[trigger] old(self)@.runtimes.dom().contains(id))
                    && final(self)@ == #[trigger] old(self)@.remote_applied(remote@, attached, stamp),
    {
        let attached = self.runtimes.keys();
        proof {
            assert forall|id: Uuid| attached@.contains(id) <==> #[trigger] old(self)@.runtimes.dom().contains(id) by {
                assert(old(self)@.runtimes.dom().contains(id) == self.runtimes@.dom().contains(id));
            }
        }
        self.take_catalog(remote, &attached);
        self.attach_all();
        if let Some(selected) = self.state.selected_session {
            if self.state.session_index(selected).is_none() {
                self.refocus(stamp);
            } else {
                self.emit(Effect::RevealSidebarSession(selected));
            }
        }
        assert(self@ == old(self)@.remote_applied(remote@, attached@, stamp));
    }

    /// Takes over the newest of the lists that the daemon sent; whether there was one.
    pub fn drain_task_state_sync_events(&mut self, results: Vec<Result<RemoteTaskState, String>>, stamp: Stamp) -> (r: bool)
        ensures
            r == takes_over(results@),
            old(self)@.syncs_to(final(self)@, results@, stamp),
    {
        proof {
            reveal(DeskView::syncs_to);
        }
        let mut results = results;
        match results.pop() {
            Some(Ok(remote)) => {
                self.apply_remote_task_state(remote, stamp);
                true
            },
            _ => false,
        }
    }

    fn settle_orphan(&mut self, session_id: Uuid, stamp: Stamp)
        ensures
            final(self)@ == old(self)@.orphan_settled(session_id, stamp),
    {
        let (turn_count, path) = match self.state.session_index(session_id) {
            Some(i) => {
                let session = &self.state.sessions[i];
                let n = session.turns.len();
                let turn_count = if n > 0 && session.turns[n - 1].status == TurnStatus::Running {
                    Some(session.turns[n - 1].turn_count)
                } else {
                    None
                };
                let path = match session.workspace.path() {
                    Some(path) => Some(path.to_owned()),
                    None => match self.state.project_index(session.project_id) {
                        Some(p) => Some(self.state.projects[p].path.clone()),
                        None => None,
                    },
                };
                (turn_count, path)
            },
            None => {
                return;
            },
        };
        if let Some(i) = self.state.session_mut(session_id) {
            orphan(&mut self.state.sessions[i], stamp);
            proof {
                lemma_put(old(self).state, self.state, session_id, i as int);
            }
        }
        let ghost settled = *self;
        if let Some(turn_count) = turn_count {
            if let Some(project_path) = path {
                let capture = PendingCheckpointCapture { session_id, turn_count, project_path };
                self.pending_checkpoint_captures.push(capture);
                assert(pending_checkpoint_capture_views(self.pending_checkpoint_captures@)
                    =~= pending_checkpoint_capture_views(settled.pending_checkpoint_captures@).push(capture@));
                self.start_pending_checkpoint_captures();
            }
        }
    }

    fn reset_if_on_screen(&mut self, session_id: Uuid)
        ensures
            final(self)@ == old(self)@.reset_if_shown(session_id),
    {
        if self.is_selected(session_id) {
            self.message_edit = None;
            self.emit(Effect::ResetVisibleState);
        }
    }

    /// Ends the turn of a session that was at work and whose runtime cannot be found.
    pub fn interrupt_orphaned_runtime(&mut self, session_id: Uuid, stamp: Stamp)
        ensures
            final(self)@ == old(self)@.orphan_interrupted(session_id, stamp),
    {
        if let Some(i) = self.state.session_index(session_id) {
            if !self.state.sessions[i].status.is_busy() {
                let _ = self.state.session_mut(session_id);
                proof {
                    assert(self.state.sessions@ =~= old(self).state.sessions@.update(
                        i as int,
                        self.state.sessions@[i as int],
                    ));
                    lemma_put(old(self).state, self.state, session_id, i as int);
                }
                return;
            }
        }
        self.settle_orphan(session_id, stamp);
        self.reset_if_on_screen(session_id);
        self.emit(Effect::Save);
        self.emit(Effect::Notify);
    }

    fn attach(&mut self, session_id: Uuid, session: AgentSession, supports_steer: bool, stamp: Stamp)
        ensures
            final(self)@ == old(self)@.attached(session_id, session@, supports_steer, stamp),
    {
        if let Some(i) = self.state.session_index(session_id) {
            if !self.has_runtime(session_id) {
                self.state.sessions[i] = session;
                assert(agent_session_views(self.state.sessions@) =~= old(self)@.state.sessions.update(
                    i as int,
                    session@,
                ));
                let runtime = SessionRuntime::new(supports_steer, stamp);
                self.put_runtime(session_id, runtime);
                assert(self@.runtimes =~= old(self)@.runtimes.insert(session_id, runtime@));
                self.reset_if_on_screen(session_id);
                self.emit(Effect::Notify);
            }
        }
    }

    fn miss_attachment(&mut self, session_id: Uuid, stamp: Stamp)
        ensures
            final(self)@ == old(self)@.attachment_missed(session_id, stamp),
    {
        let busy = match self.state.session_index(session_id) {
            Some(i) => self.state.sessions[i].status.is_busy(),
            None => false,
        };
        let misses: u8 = match self.runtime_attach_misses.get(session_id) {
            Some(misses) => *misses,
            None => 0,
        };
        if !busy {
            let _ = self.runtime_attach_misses.remove(session_id);
        } else if misses < 3 {
            let _ = self.runtime_attach_misses.insert(session_id, misses + 1);
            self.emit(Effect::AttachRuntimeSoon(session_id));
        } else {
            let _ = self.runtime_attach_misses.remove(session_id);
            self.interrupt_orphaned_runtime(session_id, stamp);
        }
    }

    /// The host says what came of an attempt to attach to a runtime.
    pub fn finish_runtime_attachment(&mut self, session_id: Uuid, attachment: Attachment, stamp: Stamp)
        ensures
            final(self)@ == (if !old(self)@.runtime_attach_pending.contains(session_id) {
                old(self)@
            } else {
                let tried = DeskView {
                    runtime_attach_pending: old(self)@.runtime_attach_pending.remove(session_id),
                    ..old(self)@
                };
                match attachment {
                    Attachment::Attached { session, supports_steer } => DeskView {
                        runtime_attach_misses: tried.runtime_attach_misses.remove(session_id),
                        ..tried
                    }.attached(session_id, session@, supports_steer, stamp),
                    Attachment::Missing => tried.attachment_missed(session_id, stamp),
                    Attachment::Failed => tried,
                }
            }),
    {
        if !self.runtime_attach_pending.contains(session_id) {
            return;
        }
        let _ = self.runtime_attach_pending.remove(session_id);
        match attachment {
            Attachment::Attached { session, supports_steer } => {
                let _ = self.runtime_attach_misses.remove(session_id);
                self.attach(session_id, session, supports_steer, stamp);
            },
            Attachment::Missing => {
                self.miss_attachment(session_id, stamp);
            },
            Attachment::Failed => {},
        }
    }

    /// Lets the runtimes go that nobody has used for a while, once per interval:
    /// `elapsed` has passed since the last sweep. Whether a sweep was made.
    pub fn reap_idle_sessions(&mut self, idle: &Vec<Uuid>, elapsed: u64, interval: u64) -> (r: bool)
        ensures
            r == (elapsed >= interval),
            final(self)@ == (if elapsed < interval {
                old(self)@
            } else {
                old(self)@.reaped(idle@)
            }),
    {
        if elapsed < interval {
            return false;
        }
        let mut i: usize = 0;
        assert(idle@.take(0) =~= Seq::empty());
        while i < idle.len()
            invariant
                i <= idle@.len(),
                self@ == old(self)@.reaped(idle@.take(i as int)),
            decreases idle@.len() - i,
        {
            let id = idle[i];
            let ghost before = self@;
            proof {
                assert(idle@.take(i + 1).drop_last() =~= idle@.take(i as int));
            }
            if self.take_runtime(id).is_some() {
                assert(self@.runtimes =~= before.runtimes.remove(id));
                self.emit(Effect::DriverClose(id));
            } else {
                assert(self@.runtimes =~= before.runtimes);
            }
            i = i + 1;
        }
        assert(idle@.take(i as int) =~= idle@);
        true
    }
}

fn orphan(session: &mut AgentSession, stamp: Stamp)
    ensures
        final(session)@ == old(session)@.orphaned(stamp),
{
    session.status = SessionStatus::Idle;
    let n = session.turns.len();
    let ghost turns = session.turns@;
    if n > 0 && session.turns[n - 1].status == TurnStatus::Running {
        session.turns[n - 1].status = TurnStatus::Interrupted;
        session.turns[n - 1].completed_at = Some(stamp.secs);
        assert(session.turns@ =~= turns.update(n - 1, session.turns@[n - 1]));
    }
    assert(turn_views(session.turns@) =~= old(session)@.orphaned(stamp).turns);
    stop_all(&mut session.messages);
    cut_off_blocks(session);
}

fn stop_all(messages: &mut Vec<Message>)
    ensures
        message_views(final(messages)@) == message_views(old(messages)@).map_values(
            |m: MessageView| MessageView { streaming: false, ..m },
        ),
{
    let ghost before = messages@;
    let mut i: usize = 0;
    while i < messages.len()
        invariant
            i <= messages@.len() == before.len(),
            forall|j: int| 0 <= j < i ==> (#[trigger] messages@[j])@ == (MessageView { streaming: false, ..before[j]@ }),
            forall|j: int| i <= j < before.len() ==> #[trigger] messages@[j] == before[j],
        decreases before.len() - i,
    {
        messages[i].streaming = false;
        i = i + 1;
    }
    assert(message_views(messages@) =~= message_views(before).map_values(
        |m: MessageView| MessageView { streaming: false, ..m },
    ));
}

/// Forgets which of the daemon's sessions have their transcript: a list holds none.
pub fn mark_unloaded(sessions: &mut Vec<AgentSession>)
    ensures
        agent_session_views(final(sessions)@) == agent_session_views(old(sessions)@).map_values(
            |s: AgentSessionView| AgentSessionView { detail_loaded: false, ..s },
        ),
{
    let ghost before = sessions@;
    let mut i: usize = 0;
    while i < sessions.len()
        invariant
            i <= sessions@.len() == before.len(),
            forall|j: int|
                0 <= j < i ==> (#[trigger] sessions@[j])@ == (AgentSessionView { detail_loaded: false, ..before[j]@ }),
            forall|j: int| i <= j < before.len() ==> #[trigger] sessions@[j] == before[j],
        decreases before.len() - i,
    {
        sessions[i].detail_loaded = false;
        i = i + 1;
    }
    assert(agent_session_views(sessions@) =~= agent_session_views(before).map_values(
        |s: AgentSessionView| AgentSessionView { detail_loaded: false, ..s },
    ));
}

/// A list that grew out of another: what stood there stands there still, with its
/// transcript, and what was added has one of the ids.
pub open spec fn grown_from(before: Seq<AgentSessionView>, after: Seq<AgentSessionView>, ids: Seq<Uuid>) -> bool {
    &&& before.len() <= after.len()
    &&& forall|k: int|
        0 <= k < before.len() ==> (#[trigger] after[k]).id == before[k].id && after[k].messages == before[k].messages
            && after[k].turns == before[k].turns && after[k].transcript_blocks == before[k].transcript_blocks
    &&& forall|k: int| before.len() <= k < after.len() ==> ids.contains((#[trigger] after[k]).id)
}

proof fn lemma_with_list(sessions: Seq<AgentSessionView>, remote: Seq<AgentSessionView>, attached: Seq<Uuid>)
    ensures
        grown_from(sessions, with_list(sessions, remote, attached), session_ids(remote)),
        forall|k: int|
            0 <= k < remote.len() ==> session_ids(with_list(sessions, remote, attached)).contains(
                (#[trigger] remote[k]).id,
            ),
    decreases remote.len(),
{
    if remote.len() > 0 {
        let rest = remote.drop_last();
        let last = remote.last();
        let before = with_list(sessions, rest, attached);
        let after = with_list(sessions, remote, attached);
        lemma_with_list(sessions, rest, attached);
        lemma_pos(session_ids(before), last.id);
        let ids = session_ids(remote);
        assert(ids[remote.len() - 1] == last.id);
        assert forall|k: int| sessions.len() <= k < after.len() implies ids.contains((#[trigger] after[k]).id) by {
            if k < before.len() {
                assert(before[k].id == after[k].id);
                let j = session_ids(rest).index_of(before[k].id);
                assert(ids[j] == session_ids(rest)[j]);
            }
        }
        assert forall|k: int| 0 <= k < remote.len() implies session_ids(after).contains((#[trigger] remote[k]).id) by {
            if k < rest.len() {
                assert(rest[k] == remote[k]);
                let j = session_ids(before).index_of(rest[k].id);
                assert(session_ids(after)[j] == session_ids(before)[j]);
            } else if pos(session_ids(before), last.id) is None {
                assert(session_ids(after)[before.len() as int] == last.id);
            } else {
                let i = pos(session_ids(before), last.id)->0;
                assert(session_ids(before)[i] == before[i].id);
                assert(session_ids(after)[i] == after[i].id);
            }
        }
        assert forall|k: int| 0 <= k < sessions.len() implies (#[trigger] after[k]).id == sessions[k].id
            && after[k].messages == sessions[k].messages && after[k].turns == sessions[k].turns
            && after[k].transcript_blocks == sessions[k].transcript_blocks by {
            assert(before[k].id == sessions[k].id);
        }
    }
}

proof fn lemma_still_listed(sessions: Seq<AgentSessionView>, listed: Seq<Uuid>, k: int)
    requires
        0 <= k < still_listed(sessions, listed).len(),
    ensures
        still_listed(sessions, listed)[k].stays(listed),
        sessions.contains(still_listed(sessions, listed)[k]),
    decreases sessions.len(),
{
    if sessions.len() > 0 {
        let rest = still_listed(sessions.drop_last(), listed);
        if k < rest.len() {
            lemma_still_listed(sessions.drop_last(), listed, k);
            let j = sessions.drop_last().index_of(rest[k]);
            assert(sessions[j] == rest[k]);
        } else {
            assert(sessions[sessions.len() - 1] == sessions.last());
        }
    }
}

/// After a merge every session that the daemon lists is there. What stays of the
/// sessions here is listed or a draft, and keeps its transcript.
pub proof fn merging_keeps_transcripts(
    sessions: Seq<AgentSessionView>,
    remote: Seq<AgentSessionView>,
    attached: Seq<Uuid>,
)
    ensures
        grown_from(
            still_listed(sessions, session_ids(remote)),
            merged_catalog(sessions, remote, attached),
            session_ids(remote),
        ),
        forall|k: int|
            0 <= k < remote.len() ==> session_ids(merged_catalog(sessions, remote, attached)).contains(
                (#[trigger] remote[k]).id,
            ),
        forall|k: int|
            0 <= k < still_listed(sessions, session_ids(remote)).len() ==> (#[trigger] still_listed(
                sessions,
                session_ids(remote),
            )[k]).stays(session_ids(remote)) && sessions.contains(still_listed(sessions, session_ids(remote))[k]),
{
    let kept = still_listed(sessions, session_ids(remote));
    lemma_with_list(kept, remote, attached);
    assert forall|k: int| 0 <= k < kept.len() implies (#[trigger] kept[k]).stays(session_ids(remote)) && sessions.contains(
        kept[k],
    ) by {
        lemma_still_listed(sessions, session_ids(remote), k);
    }
}

/// Merging the same list again finds nothing that is gone and changes nothing.
pub proof fn merging_again_changes_nothing(
    sessions: Seq<AgentSessionView>,
    remote: Seq<AgentSessionView>,
    attached: Seq<Uuid>,
)
    ensures
        unlisted(merged_catalog(sessions, remote, attached), session_ids(remote)) == Seq::<Uuid>::empty(),
        merged_catalog(merged_catalog(sessions, remote, attached), remote, attached) == merged_catalog(
            sessions,
            remote,
            attached,
        ),
{
    let ids = session_ids(remote);
    let kept = still_listed(sessions, ids);
    let merged = merged_catalog(sessions, remote, attached);
    lemma_with_list(kept, remote, attached);
    assert forall|k: int| 0 <= k < kept.len() implies (#[trigger] kept[k]).stays(ids) by {
        lemma_still_listed(sessions, ids, k);
    }
    assert forall|k: int| 0 <= k < remote.len() implies ids.contains((#[trigger] remote[k]).id) by {
        assert(ids[k] == remote[k].id);
    }
    lemma_listed_stay(kept, remote, attached, ids);
    lemma_all_stay(merged, ids);
    lemma_list_again(kept, remote, attached);
}

proof fn lemma_all_stay(sessions: Seq<AgentSessionView>, listed: Seq<Uuid>)
    requires
        forall|k: int| 0 <= k < sessions.len() ==> (#[trigger] sessions[k]).stays(listed),
    ensures
        unlisted(sessions, listed) == Seq::<Uuid>::empty(),
        still_listed(sessions, listed) == sessions,
    decreases sessions.len(),
{
    if sessions.len() > 0 {
        let rest = sessions.drop_last();
        assert forall|k: int| 0 <= k < rest.len() implies (#[trigger] rest[k]).stays(listed) by {
            assert(rest[k] == sessions[k]);
        }
        lemma_all_stay(rest, listed);
        assert(sessions[sessions.len() - 1].stays(listed));
        assert(rest.push(sessions.last()) =~= sessions);
    } else {
        assert(still_listed(sessions, listed) =~= sessions);
    }
}

proof fn lemma_listed_stay(
    sessions: Seq<AgentSessionView>,
    remote: Seq<AgentSessionView>,
    attached: Seq<Uuid>,
    listed: Seq<Uuid>,
)
    requires
        forall|k: int| 0 <= k < sessions.len() ==> (#[trigger] sessions[k]).stays(listed),
        forall|k: int| 0 <= k < remote.len() ==> listed.contains((#[trigger] remote[k]).id),
    ensures
        forall|k: int|
            0 <= k < with_list(sessions, remote, attached).len() ==> (#[trigger] with_list(
                sessions,
                remote,
                attached,
            )[k]).stays(listed),
    decreases remote.len(),
{
    if remote.len() > 0 {
        let rest = remote.drop_last();
        let last = remote.last();
        let before = with_list(sessions, rest, attached);
        assert forall|k: int| 0 <= k < rest.len() implies listed.contains((#[trigger] rest[k]).id) by {
            assert(rest[k] == remote[k]);
        }
        lemma_listed_stay(sessions, rest, attached, listed);
        lemma_pos(session_ids(before), last.id);
        assert(listed.contains(remote[remote.len() - 1].id));
        let after = with_list(sessions, remote, attached);
        assert forall|k: int| 0 <= k < after.len() implies (#[trigger] after[k]).stays(listed) by {
            match pos(session_ids(before), last.id) {
                Some(i) => {
                    assert(session_ids(before)[i] == before[i].id);
                    if k != i {
                        assert(after[k] == before[k]);
                    }
                },
                None => {
                    if k < before.len() {
                        assert(after[k] == before[k]);
                    }
                },
            }
        }
    }
}

/// Two lists that agree but for one session, and there in all that a list does not say.
spec fn agree_but(
    a: Seq<AgentSessionView>,
    b: Seq<AgentSessionView>,
    i: int,
    entry: AgentSessionView,
    attached: Seq<Uuid>,
) -> bool {
    &&& a.len() == b.len()
    &&& session_ids(a) == session_ids(b)
    &&& 0 <= i < a.len()
    &&& a[i].id == entry.id
    &&& forall|k: int| 0 <= k < a.len() && k != i ==> #[trigger] a[k] == b[k]
    &&& a[i].listed(entry, attached.contains(entry.id)) == b[i].listed(entry, attached.contains(entry.id))
}

proof fn lemma_agreement_kept(
    a: Seq<AgentSessionView>,
    b: Seq<AgentSessionView>,
    remote: Seq<AgentSessionView>,
    attached: Seq<Uuid>,
    i: int,
    entry: AgentSessionView,
)
    requires
        agree_but(a, b, i, entry, attached),
        forall|k: int| 0 <= k < remote.len() ==> session_ids(a).contains((#[trigger] remote[k]).id),
    ensures
        agree_but(with_list(a, remote, attached), with_list(b, remote, attached), i, entry, attached),
        session_ids(with_list(a, remote, attached)) == session_ids(a),
    decreases remote.len(),
{
    if remote.len() > 0 {
        let rest = remote.drop_last();
        let last = remote.last();
        assert forall|k: int| 0 <= k < rest.len() implies session_ids(a).contains((#[trigger] rest[k]).id) by {
            assert(rest[k] == remote[k]);
        }
        lemma_agreement_kept(a, b, rest, attached, i, entry);
        let x = with_list(a, rest, attached);
        let y = with_list(b, rest, attached);
        let ids = session_ids(a);
        assert(session_ids(a).contains(remote[remote.len() - 1].id));
        lemma_pos(ids, last.id);
        let j = ids.index_of(last.id);
        assert(ids[j] == last.id);
        let p = pos(ids, last.id)->0;
        assert(ids[p] == x[p].id && ids[p] == y[p].id) by {
            assert(session_ids(x)[p] == x[p].id);
            assert(session_ids(y)[p] == y[p].id);
        }
        let after = with_list(a, remote, attached);
        let beside = with_list(b, remote, attached);
        assert(session_ids(after) =~= ids);
        assert(session_ids(beside) =~= ids);
        if p == i {
            let here = attached.contains(entry.id);
            assert(x[i].listed(last, here).listed(entry, here) == x[i].listed(entry, here));
            assert(y[i].listed(last, here).listed(entry, here) == y[i].listed(entry, here));
        }
    }
}

proof fn lemma_list_before_last(
    sessions: Seq<AgentSessionView>,
    entry: AgentSessionView,
    remote: Seq<AgentSessionView>,
    attached: Seq<Uuid>,
)
    requires
        forall|k: int| 0 <= k < remote.len() ==> session_ids(sessions).contains((#[trigger] remote[k]).id),
    ensures
        with_list(sessions.push(entry), remote, attached) == with_list(sessions, remote, attached).push(entry),
        session_ids(with_list(sessions, remote, attached)) == session_ids(sessions),
    decreases remote.len(),
{
    if remote.len() > 0 {
        let rest = remote.drop_last();
        let last = remote.last();
        assert forall|k: int| 0 <= k < rest.len() implies session_ids(sessions).contains((#[trigger] rest[k]).id) by {
            assert(rest[k] == remote[k]);
        }
        lemma_list_before_last(sessions, entry, rest, attached);
        let before = with_list(sessions, rest, attached);
        let ids = session_ids(before);
        assert(session_ids(sessions).contains(remote[remote.len() - 1].id));
        lemma_pos(ids, last.id);
        let j = ids.index_of(last.id);
        assert(ids[j] == last.id);
        let p = pos(ids, last.id)->0;
        let longer = session_ids(before.push(entry));
        assert(longer =~= ids.push(entry.id));
        assert(crate::seqs::first_at(longer, last.id, p));
        lemma_pos_some(longer, last.id, p);
        let said = before[p].listed(last, attached.contains(last.id));
        assert(before[p].id == ids[p]);
        assert(before.push(entry).update(p, said) =~= before.update(p, said).push(entry));
        assert(session_ids(before.update(p, said)) =~= ids);
    }
}

proof fn lemma_list_again(sessions: Seq<AgentSessionView>, remote: Seq<AgentSessionView>, attached: Seq<Uuid>)
    ensures
        with_list(with_list(sessions, remote, attached), remote, attached) == with_list(sessions, remote, attached),
    decreases remote.len(),
{
    if remote.len() > 0 {
        let rest = remote.drop_last();
        let last = remote.last();
        let before = with_list(sessions, rest, attached);
        let after = with_list(sessions, remote, attached);
        let ids = session_ids(before);
        lemma_list_again(sessions, rest, attached);
        lemma_with_list(sessions, rest, attached);
        lemma_pos(ids, last.id);
        match pos(ids, last.id) {
            Some(i) => {
                let here = attached.contains(last.id);
                assert(ids[i] == before[i].id);
                assert(session_ids(after) =~= ids);
                assert(before[i].listed(last, here).listed(last, here) == before[i].listed(last, here));
                lemma_agreement_kept(before, after, rest, attached, i, last);
                let again = with_list(after, rest, attached);
                assert(again.update(i, again[i].listed(last, here)) =~= after);
            },
            None => {
                lemma_list_before_last(before, last, rest, attached);
                let longer = session_ids(after);
                assert(longer =~= ids.push(last.id));
                assert(crate::seqs::first_at(longer, last.id, before.len() as int));
                lemma_pos_some(longer, last.id, before.len() as int);
                assert(last.listed(last, attached.contains(last.id)) == last);
                assert(after.update(before.len() as int, last) =~= after);
            },
        }
    }
}

proof fn lemma_capturing(desk: DeskView, captures: Seq<PendingCheckpointCaptureView>)
    ensures
        desk.capturing(captures).runtime_attach_misses == desk.runtime_attach_misses,
    decreases captures.len(),
{
    if captures.len() > 0 {
        lemma_capturing(desk, captures.drop_last());
    }
}

/// A runtime that cannot be found is given up after the fourth attempt: never more
/// than three misses are on record.
pub proof fn misses_stay_bounded(desk: DeskView, id: Uuid, stamp: Stamp)
    requires
        forall|other: Uuid|
            #[trigger] desk.runtime_attach_misses.dom().contains(other) ==> desk.runtime_attach_misses[other] <= 3,
    ensures
        forall|other: Uuid|
            #[trigger] desk.attachment_missed(id, stamp).runtime_attach_misses.dom().contains(other)
                ==> desk.attachment_missed(id, stamp).runtime_attach_misses[other] <= 3,
{
    let given_up = DeskView { runtime_attach_misses: desk.runtime_attach_misses.remove(id), ..desk };
    if let Some(session) = desk.session(id) {
        let capture = PendingCheckpointCaptureView {
            session_id: id,
            turn_count: session.turns.last().turn_count,
            project_path: desk.last_directory(session)->0,
        };
        let settled = given_up.put(id, session.orphaned(stamp));
        let captures = settled.pending_checkpoint_captures.push(capture);
        lemma_capturing(DeskView { pending_checkpoint_captures: Seq::empty(), ..settled }, captures);
        assert(given_up.orphan_settled(id, stamp).runtime_attach_misses == given_up.runtime_attach_misses);
    }
}

} // verus!
