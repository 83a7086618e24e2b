//! Choosing, creating and removing sessions, and changing what they run with.
use vstd::prelude::*;

use crate::desk::{session_ids, Effect, EffectView, PreferencesView, StateView, Text, TextView};
use crate::ids::{Stamp, Uuid};
use crate::live::{Desk, DeskView};
use crate::model::{agent_session_views, draft_session, AgentSession, AgentSessionView, ProviderKind};

verus! {

/// Codex owns the process tree that controls the computer, and Amp cannot be
/// interrupted on its stream: stopping either ends its process.
pub open spec fn retained_after_cancel(provider: ProviderKind) -> bool {
    provider != ProviderKind::Codex && provider != ProviderKind::Amp
}

/// Whether the runtime of a provider survives being stopped.
pub fn retain_runtime_after_cancel(provider: ProviderKind) -> (r: bool)
    ensures
        r == retained_after_cancel(provider),
{
    !matches!(provider, ProviderKind::Codex | ProviderKind::Amp)
}

impl ProviderKind {
    /// Every provider.
    pub fn all() -> (r: Vec<ProviderKind>)
        ensures
            r@ == seq![
                ProviderKind::Codex,
                ProviderKind::Claude,
                ProviderKind::OpenCode,
                ProviderKind::Cursor,
                ProviderKind::Amp,
                ProviderKind::Pi,
            ],
            forall|provider: ProviderKind| #[trigger] r@.contains(provider),
    {
        let r = vec![
            ProviderKind::Codex,
            ProviderKind::Claude,
            ProviderKind::OpenCode,
            ProviderKind::Cursor,
            ProviderKind::Amp,
            ProviderKind::Pi,
        ];
        proof {
            assert(r@ =~= seq![
                ProviderKind::Codex,
                ProviderKind::Claude,
                ProviderKind::OpenCode,
                ProviderKind::Cursor,
                ProviderKind::Amp,
                ProviderKind::Pi,
            ]);
            assert forall|provider: ProviderKind| #[trigger] r@.contains(provider) by {
                match provider {
                    ProviderKind::Codex => assert(r@[0] == provider),
                    ProviderKind::Claude => assert(r@[1] == provider),
                    ProviderKind::OpenCode => assert(r@[2] == provider),
                    ProviderKind::Cursor => assert(r@[3] == provider),
                    ProviderKind::Amp => assert(r@[4] == provider),
                    ProviderKind::Pi => assert(r@[5] == provider),
                }
            }
        }
        r
    }
}

/// The first session about a project that was never submitted.
pub open spec fn first_draft(sessions: Seq<AgentSessionView>, project_id: Uuid) -> Option<int>
    decreases sessions.len(),
{
    if sessions.len() == 0 {
        None
    } else if sessions[0].project_id == project_id && !sessions[0].started() {
        Some(0)
    } else {
        match first_draft(sessions.drop_first(), project_id) {
            Some(i) => Some(i + 1),
            None => None,
        }
    }
}

/// The session that was changed last, among those of one project or among all; of
/// several changed in the same second, the last.
pub open spec fn newest(sessions: Seq<AgentSessionView>, project: Option<Uuid>) -> Option<int>
    decreases sessions.len(),
{
    if sessions.len() == 0 {
        None
    } else {
        let rest = newest(sessions.drop_last(), project);
        let last = sessions.last();
        let counts = project is None || project == Some(last.project_id);
        if counts && (rest is None || last.updated_at >= sessions[rest->0].updated_at) {
            Some(sessions.len() - 1)
        } else {
            rest
        }
    }
}

/// A draft with what the user chose last. Which choices carry over is this library's own
/// model of a new session.
pub open spec fn fresh_session(project_id: Uuid, provider: ProviderKind, prefs: PreferencesView, stamp: Stamp) -> AgentSessionView {
    AgentSessionView {
        provider,
        model: prefs.last_model,
        reasoning_effort: prefs.last_reasoning_effort,
        service_tier: prefs.last_service_tier,
        ..draft_session(project_id, stamp)
    }
}

impl PreferencesView {
    /// What the user chose last is what this session runs with.
    pub open spec fn following(self, session: AgentSessionView) -> PreferencesView {
        PreferencesView {
            last_provider: session.provider,
            last_model: session.model,
            last_reasoning_effort: session.reasoning_effort,
            last_service_tier: session.service_tier,
            ..self
        }
    }
}

impl DeskView {
    /// The transcript of a session is read in, where only its list entry is there.
    pub open spec fn hydrating(self, id: Uuid) -> DeskView {
        self.emit_if(
            self.session(id) is Some && !self.session(id)->0.detail_loaded,
            EffectView::HydrateSession(id),
        )
    }

    /// The panel of the session that leaves the screen is put away.
    pub open spec fn panel_stored(self, id: Uuid) -> DeskView {
        match self.state.selected_session {
            Some(previous) => self.emit_if(previous != id, EffectView::StorePanelState(previous)),
            None => self,
        }
    }

    /// The project is that of a session, and what the user chose last is what it runs with.
    pub open spec fn followed(self, id: Uuid) -> DeskView {
        match self.session(id) {
            Some(session) => DeskView {
                state: StateView {
                    selected_project: Some(session.project_id),
                    prefs: self.state.prefs.following(session),
                    ..self.state
                },
                ..self
            },
            None => self,
        }
    }

    /// The session on screen, its project, and what the user chose last.
    pub open spec fn focused(self, id: Uuid) -> DeskView {
        let followed = self.followed(id);
        DeskView {
            state: StateView { selected_session: Some(id), ..followed.state },
            message_edit: None,
            ..followed
        }
    }

    /// What is drawn anew once a session is on screen.
    pub open spec fn redrawn(self) -> DeskView {
        self.emit(EffectView::ResetVisibleState).emit(EffectView::RefreshBranch).emit(
            EffectView::RefreshComposerSources,
        ).emit(EffectView::Save).emit(EffectView::Notify)
    }

    /// A session is brought on screen.
    pub open spec fn activated(self, id: Uuid) -> DeskView {
        self.hydrating(id).panel_stored(id).focused(id).emit(
            if self.state.selected_session != Some(id) {
                EffectView::RestorePanelState(id)
            } else {
                EffectView::EnsurePanelTerminals
            },
        ).redrawn()
    }

    /// A session is chosen: the one on screen lies behind it from then on.
    pub open spec fn session_selected(self, id: Uuid) -> DeskView {
        if self.session(id) is None {
            self
        } else {
            DeskView {
                navigation: self.navigation.visited(self.state.selected_session, id),
                ..self
            }.activated(id)
        }
    }

    /// The desk with one more session.
    pub open spec fn with_session(self, session: AgentSessionView) -> DeskView {
        DeskView {
            state: StateView {
                sessions: self.state.sessions.push(session),
                dirty: self.state.dirty.insert(session.id),
                ..self.state
            },
            ..self
        }
    }

    /// A session about the project is chosen: a draft of it where there is one, else
    /// a new one.
    pub open spec fn session_created(self, project_id: Uuid, provider: ProviderKind, stamp: Stamp) -> DeskView {
        match first_draft(self.state.sessions, project_id) {
            Some(i) => self.session_selected(self.state.sessions[i].id),
            None => self.with_session(fresh_session(project_id, provider, self.state.prefs, stamp)).session_selected(
                stamp.id,
            ),
        }
    }

    /// The runtime of the session is let go.
    pub open spec fn runtime_reset(self, id: Uuid) -> DeskView {
        if self.runtimes.dom().contains(id) {
            DeskView { runtimes: self.runtimes.remove(id), ..self }.emit(EffectView::DriverCancel(id))
        } else {
            self
        }
    }

    /// The record of the session at `i` is gone, with what hangs on it.
    pub open spec fn record_removed(self, id: Uuid, i: int) -> DeskView {
        let session = self.state.sessions[i];
        let reset = self.runtime_reset(id).emit(EffectView::RemovePanelState(id));
        let gone = DeskView {
            state: StateView { sessions: reset.state.sessions.remove(i), ..reset.state },
            navigation: reset.navigation.removed(id),
            ..reset
        };
        (match self.state.project(session.project_id) {
            Some(project) => gone.emit(
                EffectView::DeleteCheckpointRefs {
                    session_id: id,
                    project_path: project.path,
                    turn_count: session.turns.len() as usize,
                },
            ),
            None => gone,
        }).emit(EffectView::InvalidateCheckpointRefs)
    }

    /// The session on screen is gone: the newest of its project takes its place, or
    /// a new one.
    pub open spec fn replaced(self, project_id: Uuid, stamp: Stamp) -> DeskView {
        let left = DeskView { state: StateView { selected_session: None, ..self.state }, ..self };
        match newest(left.state.sessions, Some(project_id)) {
            Some(n) => left.session_selected(left.state.sessions[n].id),
            None => left.session_created(project_id, left.state.prefs.last_provider, stamp),
        }
    }

    /// The transcript of a session is taken in, where it is still missing and could be read.
    pub open spec fn read_in(self, id: Uuid, read: Result<AgentSessionView, Seq<char>>) -> DeskView {
        match self.state.at(id) {
            Some(i) => if self.state.sessions[i].detail_loaded {
                self
            } else {
                match read {
                    Ok(session) => DeskView {
                        state: StateView {
                            sessions: self.state.sessions.update(i, AgentSessionView { id, ..session }),
                            ..self.state
                        },
                        ..self
                    },
                    Err(error) => self.emit(
                        EffectView::Toast(TextView::Plain("Could not open that session: "@ + error)),
                    ),
                }
            },
            None => self,
        }
    }

    /// The host has read the transcript of a session, or could not. Of the session on screen
    /// the list entry does not say all that the user chose last, so its project and its
    /// choices are taken over again.
    pub open spec fn hydrated(self, id: Uuid, read: Result<AgentSessionView, Seq<char>>) -> DeskView {
        let next = self.read_in(id, read);
        if self.selected(id) && self.session(id) is Some && !self.session(id)->0.detail_loaded && read is Ok {
            next.followed(id)
        } else {
            next
        }
    }

    /// The session is gone; where it was on screen, another takes its place.
    pub open spec fn session_removed(
        self,
        id: Uuid,
        read: Result<AgentSessionView, Seq<char>>,
        stamp: Stamp,
    ) -> DeskView {
        let loaded = self.read_in(id, read);
        match loaded.state.at(id) {
            None => loaded,
            Some(i) => {
                let gone = loaded.record_removed(id, i);
                (if self.selected(id) {
                    gone.replaced(loaded.state.sessions[i].project_id, stamp)
                } else {
                    gone.emit(EffectView::Save).emit(EffectView::Notify)
                }).emit(EffectView::SweepBlobs)
            },
        }
    }
}

/// What reading a transcript gave.
pub open spec fn read_view(read: Result<AgentSession, String>) -> Result<AgentSessionView, Seq<char>> {
    match read {
        Ok(session) => Ok(session@),
        Err(error) => Err(error@),
    }
}

/// Finds the first session about a project that was never submitted.
pub fn find_draft(sessions: &Vec<AgentSession>, project_id: Uuid) -> (r: Option<usize>)
    ensures
        match r {
            Some(i) => first_draft(agent_session_views(sessions@), project_id) == Some(i as int) && i < sessions@.len(),
            None => first_draft(agent_session_views(sessions@), project_id) is None,
        },
{
    let ghost views = agent_session_views(sessions@);
    let mut i: usize = 0;
    assert(views.skip(0) =~= views);
    while i < sessions.len()
        invariant
            i <= sessions@.len(),
            views == agent_session_views(sessions@),
            first_draft(views, project_id) == (match first_draft(views.skip(i as int), project_id) {
                Some(k) => Some(k + i),
                None => None,
            }),
        decreases sessions@.len() - i,
    {
        assert(views.skip(i as int)[0] == sessions@[i as int]@);
        assert(views.skip(i as int).drop_first() =~= views.skip(i + 1));
        if sessions[i].project_id == project_id && !sessions[i].has_started() {
            return Some(i);
        }
        i = i + 1;
    }
    assert(views.skip(i as int).len() == 0);
    None
}

/// Finds the session that was changed last.
pub fn find_newest(sessions: &Vec<AgentSession>, project: Option<Uuid>) -> (r: Option<usize>)
    ensures
        match r {
            Some(i) => newest(agent_session_views(sessions@), project) == Some(i as int) && i < sessions@.len(),
            None => newest(agent_session_views(sessions@), project) is None,
        },
{
    let ghost views = agent_session_views(sessions@);
    let mut found: Option<usize> = None;
    let mut i: usize = 0;
    assert(views.take(0) =~= Seq::empty());
    while i < sessions.len()
        invariant
            i <= sessions@.len(),
            views == agent_session_views(sessions@),
            match found {
                Some(k) => newest(views.take(i as int), project) == Some(k as int) && k < i,
                None => newest(views.take(i as int), project) is None,
            },
        decreases sessions@.len() - i,
    {
        assert(views.take(i + 1).drop_last() =~= views.take(i as int));
        assert(views.take(i + 1).last() == sessions@[i as int]@);
        let counts: bool = match project {
            Some(project) => sessions[i].project_id == project,
            None => true,
        };
        let later: bool = match found {
            Some(k) => {
                assert(views.take(i + 1)[k as int] == sessions@[k as int]@);
                sessions[i].updated_at >= sessions[k].updated_at
            },
            None => true,
        };
        if counts && later {
            found = Some(i);
        }
        i = i + 1;
    }
    assert(views.take(i as int) =~= views);
    found
}

impl Desk {
    /// Has the transcript of a session read in, where only its list entry is there.
    pub fn ensure_session_loaded(&mut self, session_id: Uuid)
        ensures
            final(self)@ == old(self)@.hydrating(session_id),
    {
        let missing = match self.state.session_index(session_id) {
            Some(i) => !self.state.sessions[i].detail_loaded,
            None => false,
        };
        if missing {
            self.emit(Effect::HydrateSession(session_id));
        }
    }

    /// Takes in the transcript that the host has read, where it is still missing. Nothing
    /// is to be saved on that account.
    fn take_transcript(&mut self, session_id: Uuid, read: Result<AgentSession, String>)
        ensures
            final(self)@ == old(self)@.read_in(session_id, read_view(read)),
    {
        let i = match self.state.session_index(session_id) {
            Some(i) => i,
            None => {
                return;
            },
        };
        if self.state.sessions[i].detail_loaded {
            return;
        }
        match read {
            Ok(session) => {
                let ghost before = self.state.sessions@;
                let mut session = session;
                session.id = session_id;
                self.state.sessions[i] = session;
                assert(agent_session_views(self.state.sessions@) =~= agent_session_views(before).update(
                    i as int,
                    session@,
                ));
            },
            Err(error) => {
                let mut toast = "Could not open that session: ".to_owned();
                toast.append(error.as_str());
                self.emit(Effect::Toast(Text::Plain(toast)));
            },
        }
    }

    /// Takes in the transcript that the host has read, where it is still missing. The session
    /// on screen then says anew what its project is and what the user chose last. The host
    /// reads when it is asked to, before it does what was asked after that.
    pub fn hydrate_session(&mut self, session_id: Uuid, read: Result<AgentSession, String>)
        ensures
            final(self)@ == old(self)@.hydrated(session_id, read_view(read)),
    {
        let missing = match self.state.session_index(session_id) {
            Some(i) => !self.state.sessions[i].detail_loaded,
            None => false,
        };
        let again = missing && self.is_selected(session_id) && read.is_ok();
        self.take_transcript(session_id, read);
        if again {
            self.follow_session(session_id);
        }
    }

    fn store_panel(&mut self, session_id: Uuid)
        ensures
            final(self)@ == old(self)@.panel_stored(session_id),
    {
        if let Some(previous) = self.state.selected_session {
            if previous != session_id {
                self.emit(Effect::StorePanelState(previous));
            }
        }
    }

    fn follow_session(&mut self, session_id: Uuid)
        ensures
            final(self)@ == old(self)@.followed(session_id),
    {
        if let Some(i) = self.state.session_index(session_id) {
            self.state.selected_project = Some(self.state.sessions[i].project_id);
            self.state.prefs.last_provider = self.state.sessions[i].provider;
            self.state.prefs.last_model = self.state.sessions[i].model.clone();
            self.state.prefs.last_reasoning_effort = self.state.sessions[i].reasoning_effort.clone();
            self.state.prefs.last_service_tier = self.state.sessions[i].service_tier.clone();
        }
    }

    fn focus_session(&mut self, session_id: Uuid)
        ensures
            final(self)@ == old(self)@.focused(session_id),
    {
        self.follow_session(session_id);
        self.state.selected_session = Some(session_id);
        self.message_edit = None;
    }

    fn redraw(&mut self)
        ensures
            final(self)@ == old(self)@.redrawn(),
    {
        self.emit(Effect::ResetVisibleState);
        self.emit(Effect::RefreshBranch);
        self.emit(Effect::RefreshComposerSources);
        self.emit(Effect::Save);
        self.emit(Effect::Notify);
    }

    /// Brings a session on screen.
    pub fn activate_session(&mut self, session_id: Uuid)
        ensures
            final(self)@ == old(self)@.activated(session_id),
    {
        let changed = self.state.selected_session != Some(session_id);
        self.ensure_session_loaded(session_id);
        self.store_panel(session_id);
        self.focus_session(session_id);
        if changed {
            self.emit(Effect::RestorePanelState(session_id));
        } else {
            self.emit(Effect::EnsurePanelTerminals);
        }
        self.redraw();
    }

    /// Chooses a session.
    pub fn select_session(&mut self, session_id: Uuid)
        ensures
            final(self)@ == old(self)@.session_selected(session_id),
    {
        if self.state.session_index(session_id).is_none() {
            return;
        }
        self.navigation.visit(self.state.selected_session, session_id);
        self.activate_session(session_id);
    }

    /// Adds a session.
    pub fn push_session(&mut self, session: AgentSession)
        ensures
            final(self)@ == old(self)@.with_session(session@),
    {
        let id = session.id;
        self.state.sessions.push(session);
        self.state.mark_session_dirty(id);
        assert(agent_session_views(self.state.sessions@) =~= agent_session_views(old(self).state.sessions@).push(
            session@,
        ));
    }

    /// A draft with what the user chose last.
    pub fn new_session(&self, project_id: Uuid, provider: ProviderKind, stamp: Stamp) -> (r: AgentSession)
        ensures
            r@ == fresh_session(project_id, provider, self@.state.prefs, stamp),
    {
        let mut session = AgentSession::draft(project_id, stamp);
        session.provider = provider;
        session.model = self.state.prefs.last_model.clone();
        session.reasoning_effort = self.state.prefs.last_reasoning_effort.clone();
        session.service_tier = self.state.prefs.last_service_tier.clone();
        session
    }

    /// Chooses a session about the project; an unsubmitted draft is used again.
    pub fn create_session_for(&mut self, project_id: Uuid, provider: ProviderKind, stamp: Stamp)
        ensures
            final(self)@ == old(self)@.session_created(project_id, provider, stamp),
    {
        if let Some(i) = find_draft(&self.state.sessions, project_id) {
            let id = self.state.sessions[i].id;
            assert(self@.state.sessions[i as int] == self.state.sessions@[i as int]@);
            self.select_session(id);
            return;
        }
        let session = self.new_session(project_id, provider, stamp);
        self.push_session(session);
        self.select_session(stamp.id);
    }

    /// Chooses a project and a session about it.
    pub fn select_project(&mut self, project_id: Uuid, stamp: Stamp)
        ensures
            final(self)@ == (DeskView {
                state: StateView { selected_project: Some(project_id), ..old(self)@.state },
                ..old(self)@
            }).session_created(project_id, old(self)@.state.prefs.last_provider, stamp),
    {
        self.state.selected_project = Some(project_id);
        let provider = self.state.prefs.last_provider;
        self.create_session_for(project_id, provider, stamp);
    }

    /// Lets the runtime of a session go.
    pub fn reset_session_runtime(&mut self, session_id: Uuid)
        ensures
            final(self)@ == old(self)@.runtime_reset(session_id),
    {
        match self.take_runtime(session_id) {
            Some(_) => {
                self.emit(Effect::DriverCancel(session_id));
            },
            None => {
                assert(self@.runtimes =~= old(self)@.runtimes);
            },
        }
    }

    fn remove_record(&mut self, session_id: Uuid, i: usize)
        requires
            i < old(self).state.sessions@.len(),
        ensures
            final(self)@ == old(self)@.record_removed(session_id, i as int),
    {
        let project_id = self.state.sessions[i].project_id;
        let turn_count = self.state.sessions[i].turns.len();
        let project_path = match self.state.project_index(project_id) {
            Some(p) => Some(self.state.projects[p].path.clone()),
            None => None,
        };
        self.reset_session_runtime(session_id);
        self.emit(Effect::RemovePanelState(session_id));
        let ghost reset = *self;
        assert(reset@.state == old(self)@.state);
        assert(agent_session_views(self.state.sessions@).len() == self.state.sessions@.len());
        assert(agent_session_views(old(self).state.sessions@).len() == old(self).state.sessions@.len());
        let _ = self.state.sessions.remove(i);
        assert(agent_session_views(self.state.sessions@) =~= agent_session_views(reset.state.sessions@).remove(i as int));
        self.navigation.remove(session_id);
        if let Some(project_path) = project_path {
            self.emit(Effect::DeleteCheckpointRefs { session_id, project_path, turn_count });
        }
        self.emit(Effect::InvalidateCheckpointRefs);
    }

    fn replace_session(&mut self, project_id: Uuid, stamp: Stamp)
        ensures
            final(self)@ == old(self)@.replaced(project_id, stamp),
    {
        self.state.selected_session = None;
        match find_newest(&self.state.sessions, Some(project_id)) {
            Some(n) => {
                let next = self.state.sessions[n].id;
                assert(self@.state.sessions[n as int] == self.state.sessions@[n as int]@);
                self.select_session(next);
            },
            None => {
                let provider = self.state.prefs.last_provider;
                self.create_session_for(project_id, provider, stamp);
            },
        }
    }

    /// Removes a session. How many turns it has decides what is cleaned up, so its
    /// transcript is taken in first where it is still missing: `read` is what the host read.
    pub fn remove_session(&mut self, session_id: Uuid, read: Result<AgentSession, String>, stamp: Stamp)
        ensures
            final(self)@ == old(self)@.session_removed(session_id, read_view(read), stamp),
    {
        let was_selected = self.is_selected(session_id);
        self.take_transcript(session_id, read);
        let i = match self.state.session_index(session_id) {
            Some(i) => i,
            None => {
                return;
            },
        };
        let project_id = self.state.sessions[i].project_id;
        assert(self@.state.sessions[i as int] == self.state.sessions@[i as int]@);
        self.remove_record(session_id, i);
        if was_selected {
            self.replace_session(project_id, stamp);
        } else {
            self.emit(Effect::Save);
            self.emit(Effect::Notify);
        }
        self.emit(Effect::SweepBlobs);
    }
}

/// Choosing a session and then taking in its transcript leads where taking it in first does:
/// only that it was asked for stands among what is asked of the host.
pub proof fn loading_late_changes_nothing(desk: DeskView, id: Uuid, read: AgentSessionView)
    requires
        desk.session(id) is Some,
        !desk.session(id)->0.detail_loaded,
        read.detail_loaded,
    ensures
        ({
            let late = desk.session_selected(id).hydrated(id, Ok(read));
            let first = desk.read_in(id, Ok(read)).session_selected(id);
            &&& late == (DeskView { effects: late.effects, ..first })
            &&& late.effects == desk.effects.push(EffectView::HydrateSession(id)) + first.effects.skip(
                desk.effects.len() as int,
            )
        }),
{
    let i = desk.state.at(id)->0;
    let loaded = AgentSessionView { id, ..read };
    crate::desk::lemma_session_id(desk.state, id);
    let sessions = desk.state.sessions.update(i, loaded);
    assert(session_ids(sessions) =~= session_ids(desk.state.sessions));
    let late = desk.session_selected(id).hydrated(id, Ok(read));
    let first = desk.read_in(id, Ok(read)).session_selected(id);
    assert(desk.session_selected(id).state.sessions == desk.state.sessions);
    assert(late.state.sessions == sessions);
    assert(first.state.sessions == sessions);
    assert(late.effects =~= desk.effects.push(EffectView::HydrateSession(id)) + first.effects.skip(
        desk.effects.len() as int,
    ));
}

} // verus!
