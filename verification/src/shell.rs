//! The application as a whole: what a key or a button does, depending on what is on screen.
use vstd::prelude::*;

use crate::computer_use::{ComputerAppGrant, ComputerReply, ComputerUse};
use crate::desk::{lemma_put, StateView};
use crate::driver_step::Wordings;
use crate::ids::{Stamp, Uuid};
use crate::keyed::IdMap;
use crate::live::{Desk, DeskView};
use crate::model::{project_views, AgentSessionView, Project, ProjectView, SessionStatus};
use crate::right_panel::{RightPanel, RightPanelView};
use crate::settings::{Settings, SettingsEffect, SettingsPage, SettingsView};
use crate::text::same;

verus! {

/// Where the keyboard's focus can be put.
#[derive(Clone, Copy, Debug, PartialEq, Eq, Structural)]
pub struct FocusHandle {
    pub id: u64,
}

/// A side button of the mouse.
#[derive(Clone, Copy, Debug, PartialEq, Eq, Structural)]
pub enum NavigationDirection {
    Back,
    Forward,
}

/// What closing a tab or the window asks of the host.
#[derive(Clone, Copy, Debug, PartialEq, Eq, Structural)]
pub enum CloseOutcome {
    /// A tab was closed.
    TabClosed,
    /// There was no tab: hide the window.
    HideWindow,
}

/// What is on screen.
#[derive(Clone, Copy, Debug, PartialEq, Eq, Structural)]
pub enum Screen {
    Settings,
    Main {
        sidebar: bool,
        /// The session has no messages yet.
        empty: bool,
        /// There is a project to write to.
        composer: bool,
        right_panel: bool,
    },
}

/// The application.
pub struct Fintwind {
    pub composer: FocusHandle,
    pub settings_focus: FocusHandle,
    /// What has the keyboard's focus.
    pub focused: Option<FocusHandle>,
    pub desk: Desk,
    pub settings: Settings,
    pub right_panel: RightPanel,
    /// The control of other applications, by session.
    pub computer: IdMap<ComputerUse>,
    pub computer_apps: Vec<ComputerAppGrant>,
    pub model_picker_tab: u64,
    pub model_picker_highlight: Option<usize>,
}

/// What a [`Fintwind`] holds.
pub ghost struct FintwindView {
    pub composer: FocusHandle,
    pub settings_focus: FocusHandle,
    pub focused: Option<FocusHandle>,
    pub desk: DeskView,
    pub settings: SettingsView,
    pub right_panel: RightPanelView,
    pub computer: Map<Uuid, ComputerUse>,
    pub computer_apps: Seq<ComputerAppGrant>,
    pub model_picker_tab: u64,
    pub model_picker_highlight: Option<usize>,
}

impl View for Fintwind {
    type V = FintwindView;

    open spec fn view(&self) -> FintwindView {
        FintwindView {
            composer: self.composer,
            settings_focus: self.settings_focus,
            focused: self.focused,
            desk: self.desk@,
            settings: self.settings@,
            right_panel: self.right_panel@,
            computer: self.computer@,
            computer_apps: self.computer_apps@,
            model_picker_tab: self.model_picker_tab,
            model_picker_highlight: self.model_picker_highlight,
        }
    }
}

/// Where a project in a directory first stands.
pub open spec fn path_pos(projects: Seq<ProjectView>, path: Seq<char>) -> Option<int>
    decreases projects.len(),
{
    if projects.len() == 0 {
        None
    } else if projects[0].path == path {
        Some(0)
    } else {
        match path_pos(projects.drop_first(), path) {
            Some(i) => Some(i + 1),
            None => None,
        }
    }
}

impl DeskView {
    /// A project is chosen, with a session about it.
    pub open spec fn project_chosen(self, id: Uuid, stamp: Stamp) -> DeskView {
        DeskView { state: StateView { selected_project: Some(id), ..self.state }, ..self }.session_created(
            id,
            self.state.prefs.last_provider,
            stamp,
        )
    }

    /// One more project.
    pub open spec fn with_project(self, project: ProjectView) -> DeskView {
        DeskView { state: StateView { projects: self.state.projects.push(project), ..self.state }, ..self }
    }

    /// A directory is added as a project. One that is there already is chosen.
    pub open spec fn project_added(
        self,
        path: Seq<char>,
        name: Seq<char>,
        projectless: bool,
        project: Stamp,
        session: Stamp,
    ) -> DeskView {
        match path_pos(self.state.projects, path) {
            Some(i) => self.project_chosen(self.state.projects[i].id, session),
            None => self.with_project(ProjectView::in_directory(path, name, projectless, project)).session_created(
                project.id,
                self.state.prefs.last_provider,
                session,
            ),
        }
    }

    /// The session on screen goes on.
    pub open spec fn resumed(self, id: Uuid) -> DeskView {
        match self.session(id) {
            Some(session) => self.put(id, AgentSessionView { status: SessionStatus::Working, ..session }),
            None => self,
        }
    }
}

impl FintwindView {
    /// The settings are closed, and the composer gets the focus.
    pub open spec fn settings_left(self) -> FintwindView {
        FintwindView {
            settings: SettingsView { page: None, ..self.settings }.ask(SettingsEffect::Notify),
            focused: Some(self.composer),
            ..self
        }
    }

    /// The desk holds something else.
    pub open spec fn with_desk(self, desk: DeskView) -> FintwindView {
        FintwindView { desk, ..self }
    }

    /// One session back.
    pub open spec fn back(self) -> FintwindView {
        if self.settings.page is Some {
            self.settings_left()
        } else {
            match self.desk.state.selected_session {
                None => self,
                Some(current) => {
                    let moved = DeskView { navigation: self.desk.navigation.gone_back(current), ..self.desk };
                    if self.desk.navigation.back.len() > 0 {
                        self.with_desk(moved.activated(self.desk.navigation.back.last()))
                    } else {
                        self.with_desk(moved)
                    }
                },
            }
        }
    }

    /// One session forward.
    pub open spec fn forward(self) -> FintwindView {
        match self.desk.state.selected_session {
            None => self,
            Some(current) => if self.settings.page is Some {
                self
            } else {
                let moved = DeskView { navigation: self.desk.navigation.gone_forward(current), ..self.desk };
                if self.desk.navigation.forward.len() > 0 {
                    self.with_desk(moved.activated(self.desk.navigation.forward.last()))
                } else {
                    self.with_desk(moved)
                }
            },
        }
    }

    /// What is on screen.
    pub open spec fn screen(self) -> Screen {
        if self.settings.page is Some {
            Screen::Settings
        } else {
            Screen::Main {
                sidebar: self.right_panel.panels.sidebar_visible,
                empty: match self.desk.state.selected_session {
                    Some(id) => match self.desk.session(id) {
                        Some(session) => session.messages.len() == 0,
                        None => true,
                    },
                    None => true,
                },
                composer: self.desk.selected_project() is Some,
                right_panel: self.right_panel.panels.right_panel_visible,
            }
        }
    }
}

/// A request to control an application was answered: only its session is touched, which
/// goes on.
pub open spec fn answered(
    before: FintwindView,
    after: FintwindView,
    id: Uuid,
    decision: Seq<char>,
    answer: (ComputerReply, bool),
) -> bool {
    let was = before.computer[id];
    let request = was.pending->0;
    let now = after.computer[id];
    let keeps = decision == "always"@ && request.persistable && !crate::computer_use::grant_keys(
        before.computer_apps,
    ).contains(request.grant.key@);
    &&& after == (FintwindView {
        desk: after.desk,
        computer: after.computer,
        computer_apps: after.computer_apps,
        ..before
    })
    &&& after.desk == before.desk.resumed(id)
    &&& after.computer.dom() == before.computer.dom()
    &&& forall|other: Uuid|
        other != id && before.computer.dom().contains(other) ==> #[trigger] after.computer[other] == before.computer[other]
    &&& now.pending is None
    &&& now.previews == was.previews
    &&& if decision == "deny"@ {
        &&& answer == (ComputerReply::Reject, false)
        &&& now.session_grants@ == was.session_grants@
        &&& after.computer_apps == before.computer_apps
    } else {
        &&& answer == (ComputerReply::Run, keeps)
        &&& now.session_grants@ == was.session_grants@.insert(request.grant_key@)
        &&& after.computer_apps == (if keeps {
            before.computer_apps.push(request.grant)
        } else {
            before.computer_apps
        })
    }
}

/// The runtime of a session was told to stop: what it controlled of the computer is no
/// longer shown and waits for no answer, and is gone with a runtime that is let go.
pub open spec fn computer_put_away(before: FintwindView, after: FintwindView, id: Uuid) -> bool {
    if !before.computer.dom().contains(id) {
        after.computer == before.computer
    } else if after.desk.runtimes.dom().contains(id) {
        &&& after.computer.dom() == before.computer.dom()
        &&& forall|other: Uuid|
            other != id && before.computer.dom().contains(other) ==> #[trigger] after.computer[other]
                == before.computer[other]
        &&& after.computer[id].pending is None
        &&& after.computer[id].previews@.len() == 0
        &&& after.computer[id].session_grants@ == before.computer[id].session_grants@
    } else {
        after.computer == before.computer.remove(id)
    }
}

/// The turn on screen was stopped: only what its runtime controlled is put away.
pub open spec fn computer_stopped(before: FintwindView, after: FintwindView) -> bool {
    match before.desk.state.selected_session {
        Some(id) => if before.desk.runtimes.dom().contains(id) {
            computer_put_away(before, after, id)
        } else {
            after.computer == before.computer
        },
        None => after.computer == before.computer,
    }
}

impl Desk {
    fn path_index(&self, path: &str) -> (r: Option<usize>)
        ensures
            match r {
                Some(i) => path_pos(self@.state.projects, path@) == Some(i as int) && i < self.state.projects@.len()
                    && self@.state.projects[i as int] == self.state.projects@[i as int]@,
                None => path_pos(self@.state.projects, path@) is None,
            },
    {
        let ghost views = self@.state.projects;
        let mut i: usize = 0;
        assert(views.skip(0) =~= views);
        while i < self.state.projects.len()
            invariant
                i <= self.state.projects@.len(),
                views == self@.state.projects,
                views == project_views(self.state.projects@),
                path_pos(views, path@) == (match path_pos(views.skip(i as int), path@) {
                    Some(k) => Some(k + i),
                    None => None,
                }),
            decreases self.state.projects@.len() - i,
        {
            assert(views.skip(i as int)[0] == self.state.projects@[i as int]@);
            assert(views.skip(i as int).drop_first() =~= views.skip(i + 1));
            if same(self.state.projects[i].path.as_str(), path) {
                return Some(i);
            }
            i = i + 1;
        }
        assert(views.skip(i as int).len() == 0);
        None
    }

    fn push_project(&mut self, project: Project)
        ensures
            final(self)@ == old(self)@.with_project(project@),
    {
        let ghost before = self@.state.projects;
        self.state.projects.push(project);
        assert(project_views(self.state.projects@) =~= before.push(project@));
    }

    /// Adds a directory as a project. One that is there already is chosen instead. The host
    /// says what the directory is called, and whether it is a scratch directory.
    pub fn add_project(&mut self, path: String, name: String, projectless: bool, project: Stamp, session: Stamp)
        ensures
            final(self)@ == old(self)@.project_added(path@, name@, projectless, project, session),
    {
        match self.path_index(path.as_str()) {
            Some(i) => {
                let id = self.state.projects[i].id;
                self.select_project(id, session);
            },
            None => {
                let provider = self.state.prefs.last_provider;
                self.push_project(Project::stamped(path, name, projectless, project));
                self.create_session_for(project.id, provider, session);
            },
        }
    }

    /// Has a session go on.
    pub fn resume_session(&mut self, session_id: Uuid)
        ensures
            final(self)@ == old(self)@.resumed(session_id),
    {
        if let Some(i) = self.state.session_mut(session_id) {
            self.state.sessions[i].status = SessionStatus::Working;
            proof {
                lemma_put(old(self).state, self.state, session_id, i as int);
            }
        }
    }
}

impl Fintwind {
    /// The focus of the composer.
    pub fn composer_focus(&self) -> (r: FocusHandle)
        ensures
            r == self.composer,
    {
        self.composer
    }

    fn leave_settings(&mut self)
        ensures
            final(self)@ == old(self)@.settings_left(),
    {
        self.settings.page = None;
        self.settings.effects.push(SettingsEffect::Notify);
        self.focused = Some(self.composer_focus());
    }

    fn close_settings(&mut self)
        ensures
            final(self)@ == (FintwindView {
                settings: SettingsView { page: None, ..old(self)@.settings },
                ..old(self)@
            }),
            final(self).desk == old(self).desk,
    {
        self.settings.page = None;
    }

    fn focus_composer(&mut self)
        ensures
            final(self)@ == (FintwindView { focused: Some(old(self)@.composer), ..old(self)@ }),
    {
        self.focused = Some(self.composer_focus());
    }

    /// Goes back: out of the settings, else to the session that was on screen before.
    pub fn navigate_back_action(&mut self)
        ensures
            final(self)@ == old(self)@.back(),
    {
        if self.settings.page.is_some() {
            self.leave_settings();
            return;
        }
        let current = match self.desk.state.selected_session {
            Some(current) => current,
            None => return,
        };
        let target = self.desk.navigation.go_back(current);
        if let Some(id) = target {
            self.desk.activate_session(id);
        }
    }

    /// Goes forward again, unless the settings are open.
    pub fn navigate_forward_action(&mut self)
        ensures
            final(self)@ == old(self)@.forward(),
    {
        if self.settings.page.is_some() {
            return;
        }
        let current = match self.desk.state.selected_session {
            Some(current) => current,
            None => return,
        };
        let target = self.desk.navigation.go_forward(current);
        if let Some(id) = target {
            self.desk.activate_session(id);
        }
    }

    /// A button of the mouse went down. The side buttons go back and forward, and nothing
    /// else hears of them; the result says so.
    pub fn navigation_mouse_down(&mut self, button: Option<NavigationDirection>) -> (r: bool)
        ensures
            r == (button is Some),
            final(self)@ == (match button {
                Some(NavigationDirection::Back) => old(self)@.back(),
                Some(NavigationDirection::Forward) => old(self)@.forward(),
                None => old(self)@,
            }),
    {
        match button {
            Some(NavigationDirection::Back) => {
                self.navigate_back_action();
                true
            },
            Some(NavigationDirection::Forward) => {
                self.navigate_forward_action();
                true
            },
            None => false,
        }
    }

    /// Begins a session about the project on screen.
    pub fn new_session_action(&mut self, stamp: Stamp)
        ensures
            final(self)@ == (FintwindView {
                settings: SettingsView { page: None, ..old(self)@.settings },
                desk: match old(self)@.desk.state.selected_project {
                    Some(id) => old(self)@.desk.session_created(id, old(self)@.desk.state.prefs.last_provider, stamp),
                    None => old(self)@.desk,
                },
                focused: Some(old(self)@.composer),
                ..old(self)@
            }),
    {
        self.close_settings();
        if let Some(project_id) = self.desk.state.selected_project {
            let provider = self.desk.state.prefs.last_provider;
            self.desk.create_session_for(project_id, provider, stamp);
        }
        self.focus_composer();
    }

    /// Begins a session about a project.
    pub fn start_session_for_project(&mut self, project_id: Uuid, stamp: Stamp)
        ensures
            final(self)@ == (FintwindView {
                settings: SettingsView { page: None, ..old(self)@.settings },
                desk: old(self)@.desk.project_chosen(project_id, stamp),
                focused: Some(old(self)@.composer),
                ..old(self)@
            }),
    {
        self.close_settings();
        self.desk.select_project(project_id, stamp);
        self.focus_composer();
    }

    /// Opens the settings at how the app looks.
    pub fn open_settings_action(&mut self)
        ensures
            final(self)@ == (FintwindView {
                settings: (SettingsView { page: Some(SettingsPage::Appearance), ..old(self)@.settings }).ask(
                    SettingsEffect::Notify,
                ),
                focused: Some(old(self)@.settings_focus),
                ..old(self)@
            }),
    {
        self.settings.page = Some(SettingsPage::Appearance);
        self.focused = Some(self.settings_focus);
        self.settings.effects.push(SettingsEffect::Notify);
    }

    /// Puts the focus on the composer, out of the settings where they are open.
    pub fn focus_composer_action(&mut self)
        ensures
            final(self)@ == old(self)@.settings_left(),
    {
        self.leave_settings();
    }

    /// Takes back what is going on: the settings, else an edit of a past message, else the
    /// running turn.
    pub fn cancel_turn_action(&mut self, window_active: bool, words: &Wordings, stamp: Stamp)
        ensures
            if old(self)@.settings.page is Some {
                final(self)@ == old(self)@.settings_left()
            } else if old(self)@.desk.message_edit is Some {
                final(self)@ == old(self)@.with_desk(old(self)@.desk.edit_cancelled())
            } else {
                &&& computer_stopped(old(self)@, final(self)@)
                &&& exists|stamps: Seq<Stamp>|
                    old(self)@.desk.fits_stop(stamps) && final(self)@ == (FintwindView {
                        computer: final(self)@.computer,
                        ..old(self)@.with_desk(
                            #[trigger] old(self)@.desk.turn_stopped(stamps, window_active, *words, stamp),
                        )
                    })
            },
    {
        if self.settings.page.is_some() {
            self.leave_settings();
            return;
        }
        if self.desk.message_edit.is_some() {
            self.desk.cancel_message_edit();
            return;
        }
        let selected = self.desk.state.selected_session;
        let ran = match selected {
            Some(id) => self.desk.has_runtime(id),
            None => false,
        };
        self.desk.cancel_turn(window_active, words, stamp);
        let ghost stopped = self.desk@;
        if ran {
            if let Some(id) = selected {
                self.stop_computer_use(id);
            }
        }
        proof {
            let before = old(self)@.desk;
            let stamps = choose|stamps: Seq<Stamp>|
                before.fits_stop(stamps) && stopped == #[trigger] before.turn_stopped(stamps, window_active, *words, stamp);
            assert(self.desk@ == before.turn_stopped(stamps, window_active, *words, stamp));
        }
    }

    fn stop_computer_use(&mut self, id: Uuid)
        ensures
            computer_put_away(old(self)@, final(self)@, id),
            final(self)@ == (FintwindView { computer: final(self)@.computer, ..old(self)@ }),
    {
        let kept = self.desk.has_runtime(id);
        let ghost before = self.computer@;
        match self.computer.remove(id) {
            Some(computer) => {
                if kept {
                    let mut computer = computer;
                    computer.pending = None;
                    computer.previews = Vec::new();
                    let _ = self.computer.insert(id, computer);
                    assert(self.computer@.dom() =~= before.dom());
                }
            },
            None => {
                assert(self.computer@ =~= before);
            },
        }
    }

    /// Closes the tab on screen; without one, the window is to be hidden. With the last tab
    /// the focus goes to the composer.
    pub fn close_window_or_right_panel_tab_action(&mut self) -> (r: CloseOutcome)
        ensures
            match old(self)@.right_panel.active_surface {
                Some(active) => {
                    let closed = old(self)@.right_panel.closed(active);
                    &&& r == CloseOutcome::TabClosed
                    &&& final(self)@ == (FintwindView {
                        right_panel: closed,
                        focused: if closed.surfaces.len() == 0 {
                            Some(old(self)@.composer)
                        } else {
                            old(self)@.focused
                        },
                        ..old(self)@
                    })
                },
                None => r == CloseOutcome::HideWindow && final(self)@ == old(self)@,
            },
    {
        match self.right_panel.active_surface {
            Some(active) => {
                self.right_panel.close_right_panel_surface(active);
                if self.right_panel.surfaces.len() == 0 {
                    self.focus_composer();
                }
                CloseOutcome::TabClosed
            },
            None => CloseOutcome::HideWindow,
        }
    }

    /// Shows another list of models. The row that the keyboard was on means nothing there.
    pub fn select_model_picker_tab(&mut self, tab: u64) -> (r: bool)
        ensures
            r == (old(self)@.model_picker_tab != tab),
            final(self)@ == (if r {
                FintwindView { model_picker_tab: tab, model_picker_highlight: None, ..old(self)@ }
            } else {
                old(self)@
            }),
    {
        if self.model_picker_tab == tab {
            return false;
        }
        self.model_picker_tab = tab;
        self.model_picker_highlight = None;
        true
    }

    /// Answers the request of the session on screen to control an application. Returns what
    /// the agent is to be told, and whether the answer is to be written to disk.
    pub fn respond_computer_permission(&mut self, decision: &str) -> (r: Option<(ComputerReply, bool)>)
        ensures
            match old(self)@.desk.state.selected_session {
                Some(id) => if old(self)@.computer.dom().contains(id) && old(self)@.computer[id].pending is Some {
                    match r {
                        Some(answer) => answered(old(self)@, final(self)@, id, decision@, answer),
                        None => false,
                    }
                } else {
                    r is None && final(self)@ == old(self)@
                },
                None => r is None && final(self)@ == old(self)@,
            },
    {
        proof {
            reveal_strlit("deny");
            reveal_strlit("always");
            assert("deny"@.len() != "always"@.len());
        }
        let id = match self.desk.state.selected_session {
            Some(id) => id,
            None => return None,
        };
        let mut computer = match self.computer.remove(id) {
            Some(computer) => computer,
            None => {
                assert(self@.computer =~= old(self)@.computer);
                return None;
            },
        };
        let answer = computer.respond_computer_permission(decision, &mut self.computer_apps);
        let _ = self.computer.insert(id, computer);
        if answer.is_some() {
            self.desk.resume_session(id);
        }
        assert(self@.computer.dom() =~= old(self)@.computer.dom());
        assert(old(self)@.computer[id].pending is None ==> self@.computer =~= old(self)@.computer);
        answer
    }

    /// Whether there is a session to go back to, and one to go forward to.
    pub fn render_sidebar_titlebar(&self) -> (r: (bool, bool))
        ensures
            r.0 == (self@.desk.navigation.back.len() > 0),
            r.1 == (self@.desk.navigation.forward.len() > 0),
    {
        (self.desk.navigation.back.len() > 0, self.desk.navigation.forward.len() > 0)
    }

    /// What is on screen.
    pub fn render(&self) -> (r: Screen)
        ensures
            r == self@.screen(),
    {
        if self.settings.page.is_some() {
            return Screen::Settings;
        }
        let empty = match self.desk.state.selected_session {
            Some(id) => match self.desk.state.session_index(id) {
                Some(i) => self.desk.state.sessions[i].messages.len() == 0,
                None => true,
            },
            None => true,
        };
        let composer = match self.desk.state.selected_project {
            Some(id) => self.desk.state.project_index(id).is_some(),
            None => false,
        };
        Screen::Main {
            sidebar: self.right_panel.panels.sidebar_visible,
            empty,
            composer,
            right_panel: self.right_panel.panels.right_panel_visible,
        }
    }
}

/// Going back out of the settings leaves the session on screen where it was, and the
/// composer has the focus.
pub proof fn settings_are_left_first(app: FintwindView)
    requires
        app.settings.page is Some,
    ensures
        app.back().desk == app.desk,
        app.back().settings.page is None,
        app.back().focused == Some(app.composer),
        app.forward() == app,
{
}

} // verus!
