//! What the sidebar, the header and the empty window show, and what keys do there.
use vstd::prelude::*;

use crate::desk::{lemma_put, wording, wording_with, Effect, EffectView, Text, TextView};
use crate::ids::{Stamp, Uuid};
use crate::lines::{decimal, decimal_of};
use crate::live::{Desk, DeskView};
use crate::model::{
    project_views, AgentSession, AgentSessionView, Project, ProjectView, ProviderKind, SessionStatus, SessionWorkspace,
    SessionWorkspaceView, TurnStatus, DEFAULT_TITLE,
};
use crate::panels::{FpsCounter, FpsGrade, Panels};
use crate::probes::{Catalog, CatalogView, OPENCODE_NAME};
use crate::sidebar::Sidebar;
use crate::text::{blank, opt, opt_str, same, trim, trimmed, trims_to_nothing};

verus! {

/// When a session was last used, or for how long it has been at work.
#[derive(Debug)]
pub enum TimeLabel {
    /// At work for this many seconds.
    Working(u64),
    /// Last used a while ago.
    Ago(Text),
}

/// The seconds from one time to another, none where the first is later.
pub open spec fn seconds_between(from: u64, to: u64) -> u64 {
    if from <= to {
        (to - from) as u64
    } else {
        0
    }
}

/// How long ago something was, in one coarse unit; a day is the coarsest.
pub open spec fn time_ago(seconds: u64) -> TextView {
    if seconds < 60 {
        wording("sidebar.just_now")
    } else if seconds < 3_600 {
        wording_with("sidebar.minutes_ago", "count", decimal((seconds / 60) as nat))
    } else if seconds < 86_400 {
        wording_with("sidebar.hours_ago", "count", decimal((seconds / 3_600) as nat))
    } else {
        wording_with("sidebar.days_ago", "count", decimal((seconds / 86_400) as nat))
    }
}

/// Says how long ago something was.
pub fn format_time_ago(seconds: u64) -> (r: Text)
    ensures
        r@ == time_ago(seconds),
{
    if seconds < 60 {
        Text::key("sidebar.just_now")
    } else if seconds < 3_600 {
        Text::with("sidebar.minutes_ago", "count", decimal_of(seconds / 60))
    } else if seconds < 86_400 {
        Text::with("sidebar.hours_ago", "count", decimal_of(seconds / 3_600))
    } else {
        Text::with("sidebar.days_ago", "count", decimal_of(seconds / 86_400))
    }
}

impl AgentSessionView {
    /// For how long the running turn of the session has been at work.
    pub open spec fn working_for(self, now: u64) -> Option<u64> {
        if self.status.busy() && self.turns.len() > 0 && self.turns.last().status == TurnStatus::Running {
            Some(seconds_between(self.turns.last().started_at, now))
        } else {
            None
        }
    }

    /// The title as it is shown.
    pub open spec fn title_text(self) -> TextView {
        if self.shown_title() == DEFAULT_TITLE@ {
            wording("session.new_task")
        } else {
            TextView::Plain(self.shown_title())
        }
    }
}

/// What a time label says of a session.
pub open spec fn labels(label: Option<TimeLabel>, session: AgentSessionView, now: u64) -> bool {
    match session.working_for(now) {
        Some(seconds) => label matches Some(TimeLabel::Working(s)) && s == seconds,
        None => match session.last_reply_at {
            Some(at) => label matches Some(TimeLabel::Ago(text)) && text@ == time_ago(seconds_between(at, now)),
            None => label is None,
        },
    }
}

/// The time beside a session: for how long it has been at work, or when it last replied.
pub fn session_time_label(session: &AgentSession, now: u64) -> (r: Option<TimeLabel>)
    ensures
        labels(r, session@, now),
{
    let n = session.turns.len();
    if session.is_busy() && n > 0 && session.turns[n - 1].status == TurnStatus::Running {
        assert(session@.turns.last() == session.turns@[n - 1]@);
        return Some(TimeLabel::Working(now.saturating_sub(session.turns[n - 1].started_at)));
    }
    assert(n > 0 ==> session@.turns.last() == session.turns@[n - 1]@);
    match session.last_reply_at {
        Some(at) => Some(TimeLabel::Ago(format_time_ago(now.saturating_sub(at)))),
        None => None,
    }
}

/// The title of a session as it is shown.
pub fn localized_session_title(session: &AgentSession) -> (r: Text)
    ensures
        r@ == session@.title_text(),
{
    let title = session.display_title();
    if same(title, DEFAULT_TITLE) {
        Text::key("session.new_task")
    } else {
        Text::Plain(title.to_owned())
    }
}

/// Whether a session is shown as chosen: the one that is about to come on screen, else
/// the one on screen.
pub fn sidebar_session_selected(selected_session: Option<Uuid>, pending_session: Option<Uuid>, session_id: Uuid) -> (r: bool)
    ensures
        r == (match pending_session {
            Some(pending) => pending == session_id,
            None => selected_session == Some(session_id),
        }),
{
    match pending_session {
        Some(pending) => pending == session_id,
        None => selected_session == Some(session_id),
    }
}

/// A branch that was last seen in a directory.
#[derive(Debug)]
pub struct BranchSnapshot {
    pub path: String,
    pub branch: Option<String>,
}

/// The branch beside a session: that of its worktree, else the one that is known of its
/// directory, else the one last seen there.
pub open spec fn branch_beside(
    workspace: SessionWorkspaceView,
    path: Option<Seq<char>>,
    cached: Option<Seq<char>>,
    snapshot: Option<(Seq<char>, Option<Seq<char>>)>,
) -> Option<Seq<char>> {
    match workspace {
        SessionWorkspaceView::Worktree { branch, .. } => Some(branch),
        _ => match path {
            Some(path) => match cached {
                Some(branch) => Some(branch),
                None => match snapshot {
                    Some((seen, branch)) if seen == path => branch,
                    _ => None,
                },
            },
            None => None,
        },
    }
}

/// What a branch snapshot holds.
pub open spec fn snapshot_view(snapshot: Option<&BranchSnapshot>) -> Option<(Seq<char>, Option<Seq<char>>)> {
    match snapshot {
        Some(snapshot) => Some((snapshot.path@, opt(snapshot.branch))),
        None => None,
    }
}

/// A session in the list, as it is drawn.
#[derive(Debug)]
pub struct SessionItem {
    pub title: Text,
    /// Whether its title is being edited.
    pub renaming: bool,
    pub selected: bool,
    /// Whether its avatar turns.
    pub working: bool,
    pub busy: bool,
    /// Whether it waits for the user.
    pub waiting: bool,
    pub failed: bool,
    pub time: Option<TimeLabel>,
    pub branch: Option<String>,
    /// Whether there is a second line.
    pub has_meta: bool,
    pub model_id: Option<String>,
    pub model_name: String,
    pub provider: ProviderKind,
}

/// The name of a session's model as it is shown.
pub open spec fn model_name(catalog: CatalogView, model: Option<Seq<char>>) -> Seq<char> {
    match model {
        Some(id) => if catalog.probes.len() > 0 && catalog.probes[0].model(id) is Some {
            catalog.probes[0].model(id)->0.name
        } else {
            id
        },
        None => OPENCODE_NAME@,
    }
}

/// What a session in the list looks like; nothing where the session is gone. `cached` is
/// the branch that is known of its directory, `snapshot` the one last seen on screen.
pub fn render_sidebar_session_item(
    desk: &Desk,
    catalog: &Catalog,
    sidebar: &Sidebar,
    session_id: Uuid,
    now: u64,
    cached: Option<&str>,
    snapshot: Option<&BranchSnapshot>,
) -> (r: Option<SessionItem>)
    ensures
        r is Some == (desk@.session(session_id) is Some),
        r matches Some(item) ==> {
            let session = desk@.session(session_id)->0;
            &&& item.title@ == session.title_text()
            &&& item.renaming == (sidebar.rename == Some(session_id))
            &&& item.selected == (match sidebar.pending_session {
                Some(pending) => pending == session_id,
                None => desk@.selected(session_id),
            })
            &&& item.working == (session.status == SessionStatus::Connecting || session.status == SessionStatus::Working)
            &&& item.busy == session.status.busy()
            &&& item.waiting == (session.status == SessionStatus::Waiting)
            &&& item.failed == (session.status == SessionStatus::Failed)
            &&& labels(item.time, session, now)
            &&& opt(item.branch) == branch_beside(
                session.workspace,
                desk@.state.workspace_path(session),
                opt_str(cached),
                snapshot_view(snapshot),
            )
            &&& item.has_meta == (item.time is Some || item.branch is Some)
            &&& opt(item.model_id) == catalog@.model_for(session)
            &&& item.model_name@ == model_name(catalog@, catalog@.model_for(session))
            &&& item.provider == session.provider
        },
{
    let i = match desk.state.session_index(session_id) {
        Some(i) => i,
        None => {
            return None;
        },
    };
    let session = &desk.state.sessions[i];
    let branch = match &session.workspace {
        SessionWorkspace::Worktree { branch, .. } => Some(branch.clone()),
        _ => match desk.state.workspace_path_for_session(session) {
            Some(path) => match cached {
                Some(branch) => Some(branch.to_owned()),
                None => match snapshot {
                    Some(seen) => {
                        if same(seen.path.as_str(), path) {
                            seen.branch.clone()
                        } else {
                            None
                        }
                    },
                    None => None,
                },
            },
            None => None,
        },
    };
    let model_id = catalog.model_for_session(session);
    let model_name = catalog.model_display_name(model_id);
    let model_id = match model_id {
        Some(id) => Some(id.to_owned()),
        None => None,
    };
    let time = session_time_label(session, now);
    let has_meta = time.is_some() || branch.is_some();
    Some(
        SessionItem {
            title: localized_session_title(session),
            renaming: sidebar.rename == Some(session_id),
            selected: sidebar_session_selected(desk.state.selected_session, sidebar.pending_session, session_id),
            working: session.status == SessionStatus::Connecting || session.status == SessionStatus::Working,
            busy: session.status.is_busy(),
            waiting: session.status == SessionStatus::Waiting,
            failed: session.status == SessionStatus::Failed,
            time,
            branch,
            has_meta,
            model_id,
            model_name,
            provider: session.provider,
        },
    )
}

/// What a key does on the header of a group.
#[derive(Clone, Copy, Debug, PartialEq, Eq, Structural)]
pub enum GroupKey {
    Toggle,
    Fold,
    Unfold,
    Menu,
    Nothing,
}

/// What a key does on the header of a group: enter and space turn it over, the arrows fold
/// and unfold it, and Shift+F10 opens its menu.
pub fn group_header_key(key: &str, shift: bool, collapsed: bool) -> (r: GroupKey)
    ensures
        r == (if key@ == "enter"@ || key@ == "space"@ {
            GroupKey::Toggle
        } else if key@ == "left"@ && !collapsed {
            GroupKey::Fold
        } else if key@ == "right"@ && collapsed {
            GroupKey::Unfold
        } else if key@ == "f10"@ && shift {
            GroupKey::Menu
        } else {
            GroupKey::Nothing
        }),
{
    if same(key, "enter") || same(key, "space") {
        GroupKey::Toggle
    } else if same(key, "left") && !collapsed {
        GroupKey::Fold
    } else if same(key, "right") && collapsed {
        GroupKey::Unfold
    } else if same(key, "f10") && shift {
        GroupKey::Menu
    } else {
        GroupKey::Nothing
    }
}

/// Whether a key presses what has the focus.
pub fn presses(key: &str) -> (r: bool)
    ensures
        r == (key@ == "enter"@ || key@ == "space"@),
{
    same(key, "enter") || same(key, "space")
}

/// What a key does on a session in the list: enter and space choose it, and Shift+F10
/// opens its menu.
pub fn session_item_key(key: &str, shift: bool) -> (r: GroupKey)
    ensures
        r == (if key@ == "enter"@ || key@ == "space"@ {
            GroupKey::Toggle
        } else if key@ == "f10"@ && shift {
            GroupKey::Menu
        } else {
            GroupKey::Nothing
        }),
{
    if presses(key) {
        GroupKey::Toggle
    } else if same(key, "f10") && shift {
        GroupKey::Menu
    } else {
        GroupKey::Nothing
    }
}

/// The name on the header of a group.
pub fn render_sidebar_group_header(desk: &Desk, project_id: Uuid) -> (r: Text)
    ensures
        r@ == (match desk@.state.project(project_id) {
            Some(project) => TextView::Plain(project.name),
            None => wording("sidebar.unknown_project"),
        }),
{
    match desk.state.project_index(project_id) {
        Some(i) => Text::Plain(desk.state.projects[i].display_name()),
        None => Text::key("sidebar.unknown_project"),
    }
}

/// The header above the conversation, as it is drawn.
#[derive(Debug)]
pub struct Header {
    pub title: Text,
    /// Whether the controls of the hidden sidebar stand here.
    pub sidebar_controls: bool,
    pub back_enabled: bool,
    pub forward_enabled: bool,
    /// The space at its left, in sixty-fourths of a pixel.
    pub left_inset: i64,
    pub right_inset: i64,
    /// The directory that can be opened on the desktop.
    pub workspace: Option<String>,
    pub fps: Option<FpsGrade>,
    /// Whether the toggle of the hidden right panel stands here.
    pub right_panel_toggle: bool,
}

/// The header above the conversation. The window's own buttons take `clearance` at its
/// left; a sidebar that slides in takes them over as it grows to `sidebar_width`.
/// `window_buttons` says whether the window's buttons stand at its right.
pub fn render_header(
    desk: &Desk,
    panels: &Panels,
    fps: &FpsCounter,
    sidebar_width: i32,
    clearance: i32,
    window_buttons: bool,
) -> (r: Header)
    ensures
        r.title@ == (match desk@.state.selected_session {
            Some(id) => match desk@.session(id) {
                Some(session) => session.title_text(),
                None => wording("session.new_task"),
            },
            None => wording("session.new_task"),
        }),
        r.sidebar_controls == !panels.sidebar_visible,
        r.back_enabled == (desk@.navigation.back.len() > 0),
        r.forward_enabled == (desk@.navigation.forward.len() > 0),
        r.left_inset == (if panels.sidebar_visible {
            896 + crate::panels::greater(clearance - sidebar_width, 0)
        } else {
            0
        }),
        r.right_inset == (if !panels.right_panel_visible && window_buttons {
            0int
        } else {
            896int
        }),
        opt(r.workspace) == desk@.selected_directory(),
        r.fps == (if !panels.right_panel_visible && fps.visible {
            Some(fps_grade(fps.value))
        } else {
            None
        }),
        r.right_panel_toggle == !panels.right_panel_visible,
{
    let title = match desk.state.selected_session {
        Some(id) => match desk.state.session_index(id) {
            Some(i) => localized_session_title(&desk.state.sessions[i]),
            None => Text::key("session.new_task"),
        },
        None => Text::key("session.new_task"),
    };
    let gap: i64 = clearance as i64 - sidebar_width as i64;
    let left_inset: i64 = if panels.sidebar_visible {
        if gap > 0 {
            896 + gap
        } else {
            896
        }
    } else {
        0
    };
    let right_inset: i64 = if !panels.right_panel_visible && window_buttons {
        0
    } else {
        896
    };
    Header {
        title,
        sidebar_controls: !panels.sidebar_visible,
        back_enabled: desk.navigation.back.len() > 0,
        forward_enabled: desk.navigation.forward.len() > 0,
        left_inset,
        right_inset,
        workspace: desk.selected_workspace_path(),
        fps: if !panels.right_panel_visible && fps.visible {
            Some(fps.render_fps_counter())
        } else {
            None
        },
        right_panel_toggle: !panels.right_panel_visible,
    }
}

/// How a frame rate is judged.
pub open spec fn fps_grade(value: u32) -> FpsGrade {
    if value == 0 {
        FpsGrade::Unknown
    } else if value >= 55 {
        FpsGrade::Good
    } else if value >= 30 {
        FpsGrade::Fair
    } else {
        FpsGrade::Poor
    }
}

impl DeskView {
    /// The directory that the session on screen works in.
    pub open spec fn selected_directory(self) -> Option<Seq<char>> {
        match self.state.selected_session {
            Some(id) => match self.session(id) {
                Some(session) => self.state.workspace_path(session),
                None => None,
            },
            None => None,
        }
    }
}

impl Desk {
    /// The directory that the session on screen works in.
    pub fn selected_workspace_path(&self) -> (r: Option<String>)
        ensures
            opt(r) == self@.selected_directory(),
    {
        match self.state.selected_session {
            Some(id) => match self.state.session_index(id) {
                Some(i) => match self.state.workspace_path_for_session(&self.state.sessions[i]) {
                    Some(path) => Some(path.to_owned()),
                    None => None,
                },
                None => None,
            },
            None => None,
        }
    }
}

/// A project that can be chosen in the empty window.
#[derive(Debug)]
pub struct ProjectOption {
    pub id: Uuid,
    pub name: String,
    pub selected: bool,
}

/// What the window shows while a conversation is empty.
#[derive(Debug)]
pub enum EmptyState {
    /// The way to a first project.
    Onboarding,
    Project {
        /// The project that the next task is about.
        name: Text,
        /// Whether it is a scratch directory.
        projectless: bool,
        /// The projects that can be chosen.
        options: Vec<ProjectOption>,
    },
}

/// The projects of the user that are, or are not, the one on screen.
pub open spec fn offered(projects: Seq<ProjectView>, selected: Option<Uuid>, chosen: bool) -> Seq<(Uuid, Seq<char>, bool)>
    decreases projects.len(),
{
    if projects.len() == 0 {
        Seq::empty()
    } else {
        let rest = offered(projects.drop_last(), selected, chosen);
        let last = projects.last();
        if !last.projectless && (Some(last.id) == selected) == chosen {
            rest.push((last.id, last.name, chosen))
        } else {
            rest
        }
    }
}

/// What a list of options holds.
pub open spec fn option_views(options: Seq<ProjectOption>) -> Seq<(Uuid, Seq<char>, bool)> {
    options.map_values(|o: ProjectOption| (o.id, o.name@, o.selected))
}

fn offer(projects: &Vec<Project>, selected: Option<Uuid>, chosen: bool, options: &mut Vec<ProjectOption>)
    ensures
        option_views(final(options)@) == option_views(old(options)@) + offered(project_views(projects@), selected, chosen),
{
    let ghost views = project_views(projects@);
    let ghost start = option_views(options@);
    let mut i: usize = 0;
    assert(views.take(0) =~= Seq::empty());
    assert(option_views(options@) =~= start + Seq::empty());
    while i < projects.len()
        invariant
            i <= projects@.len(),
            views == project_views(projects@),
            option_views(options@) == start + offered(views.take(i as int), selected, chosen),
        decreases projects@.len() - i,
    {
        assert(views.take(i + 1).drop_last() =~= views.take(i as int));
        assert(views.take(i + 1).last() == projects@[i as int]@);
        let project = &projects[i];
        if !project.is_projectless() && (Some(project.id) == selected) == chosen {
            let ghost before = options@;
            let option = ProjectOption { id: project.id, name: project.display_name(), selected: chosen };
            options.push(option);
            assert(option_views(options@) =~= option_views(before).push((option.id, option.name@, option.selected)));
            assert(option_views(options@) =~= start + offered(views.take(i + 1), selected, chosen));
        }
        i = i + 1;
    }
    assert(views.take(i as int) =~= views);
}

/// What the window shows while a conversation is empty: the way to a first project, or
/// the project that the next task is about. Of the projects that can be chosen, the one
/// on screen comes first.
pub fn render_empty_state(desk: &Desk) -> (r: EmptyState)
    ensures
        match desk@.selected_project() {
            None => r is Onboarding,
            Some(project) => r matches EmptyState::Project { name, projectless, options } && projectless
                == project.projectless && name@ == (if project.projectless {
                wording("project.without_a_project")
            } else {
                TextView::Plain(project.name)
            }) && option_views(options@) == offered(desk@.state.projects, desk@.state.selected_project, true) + offered(
                desk@.state.projects,
                desk@.state.selected_project,
                false,
            ),
        },
{
    let selected = desk.state.selected_project;
    let i = match selected {
        Some(id) => match desk.state.project_index(id) {
            Some(i) => i,
            None => {
                return EmptyState::Onboarding;
            },
        },
        None => {
            return EmptyState::Onboarding;
        },
    };
    let project = &desk.state.projects[i];
    let projectless = project.is_projectless();
    let name = if projectless {
        Text::key("project.without_a_project")
    } else {
        Text::Plain(project.display_name())
    };
    let mut options: Vec<ProjectOption> = Vec::new();
    offer(&desk.state.projects, selected, true, &mut options);
    offer(&desk.state.projects, selected, false, &mut options);
    assert(option_views(options@) =~= offered(desk@.state.projects, selected, true) + offered(
        desk@.state.projects,
        selected,
        false,
    ));
    EmptyState::Project { name, projectless, options }
}

impl DeskView {
    /// The project on screen.
    pub open spec fn selected_project(self) -> Option<ProjectView> {
        match self.state.selected_project {
            Some(id) => self.state.project(id),
            None => None,
        }
    }

    /// A session is given a title by the user.
    pub open spec fn retitled(self, id: Uuid, title: Seq<char>, stamp: Stamp) -> DeskView {
        let named = match self.session(id) {
            Some(session) => if !blank(title) && session.title != trimmed(title) {
                self.put(
                    id,
                    AgentSessionView { title: trimmed(title), updated_at: stamp.secs, ..session },
                ).emit(EffectView::Save)
            } else {
                self
            },
            None => self,
        };
        named.emit(EffectView::RenameNativeSession { session_id: id, new_title: trimmed(title) }).emit(EffectView::Notify)
    }
}

impl Desk {
    /// Gives a session a title; the provider's own record follows.
    pub fn rename_session(&mut self, session_id: Uuid, title: &str, stamp: Stamp)
        ensures
            final(self)@ == old(self)@.retitled(session_id, title@, stamp),
    {
        let name = trim(title);
        let changes = match self.state.session_index(session_id) {
            Some(i) => !trims_to_nothing(title) && !same(self.state.sessions[i].title.as_str(), name),
            None => false,
        };
        if changes {
            if let Some(i) = self.state.session_mut(session_id) {
                let _ = self.state.sessions[i].set_title(title, stamp);
                proof {
                    lemma_put(old(self).state, self.state, session_id, i as int);
                }
                self.emit(Effect::Save);
            }
        }
        self.emit(Effect::RenameNativeSession { session_id, new_title: name.to_owned() });
        self.emit(Effect::Notify);
    }
}

impl Sidebar {
    /// Starts to rename a session in place; gives back the title to edit.
    pub fn begin_session_rename(&mut self, desk: &Desk, session_id: Uuid) -> (r: Option<Text>)
        ensures
            match desk@.session(session_id) {
                Some(session) => (r matches Some(title) && title@ == session.title_text()) && *final(self) == (Sidebar {
                    rename: Some(session_id),
                    ..*old(self)
                }),
                None => r is None && *final(self) == *old(self),
            },
    {
        match desk.state.session_index(session_id) {
            Some(i) => {
                self.rename = Some(session_id);
                Some(localized_session_title(&desk.state.sessions[i]))
            },
            None => None,
        }
    }

    /// Gives the session that is being renamed the title that was entered.
    pub fn commit_session_rename(&mut self, desk: &mut Desk, title: &str, stamp: Stamp)
        ensures
            *final(self) == (Sidebar { rename: None, ..*old(self) }),
            final(desk)@ == (match old(self).rename {
                Some(id) => old(desk)@.retitled(id, title@, stamp),
                None => old(desk)@,
            }),
    {
        let renamed = self.rename;
        self.rename = None;
        if let Some(session_id) = renamed {
            desk.rename_session(session_id, title, stamp);
        }
    }

    /// Gives a rename up; whether there was one.
    pub fn cancel_session_rename(&mut self) -> (r: bool)
        ensures
            *final(self) == (Sidebar { rename: None, ..*old(self) }),
            r == (old(self).rename is Some),
    {
        let renamed = self.rename.is_some();
        self.rename = None;
        renamed
    }
}

} // verus!
