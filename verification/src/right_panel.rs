//! The right panel: its tabs, the files that are open in them, and what is kept of them for
//! each session.
use vstd::prelude::*;

use crate::diff_files::{diff_file_views, DiffFile, DiffFileView};
use crate::ids::Uuid;
use crate::keyed::{has_id, IdMap, StrMap, StrSet};
use crate::panels::Panels;
use crate::surfaces::{reusable, reusable_surface_index, surface_views, RightPanelSurface, SurfaceView};
use crate::text::{opt, opt_str, same};
use crate::working_tree::{entry_views, WorkingTreeEntry, WorkingTreeEntryView};

verus! {

/// How wide the file tree is at first, in sixty-fourths of a pixel.
pub const DEFAULT_FILE_TREE_WIDTH: i32 = 14336;

/// A file that is open.
#[derive(Debug)]
pub struct RightPanelFileEditor {
    /// What the editor shows.
    pub content: String,
    /// What the file holds on disk.
    pub disk_content: String,
    pub writable: bool,
    /// Whether it was changed since.
    pub dirty: bool,
}

/// What a [`RightPanelFileEditor`] holds.
#[verifier::ext_equal]
pub ghost struct EditorView {
    pub content: Seq<char>,
    pub disk_content: Seq<char>,
    pub writable: bool,
    pub dirty: bool,
}

impl View for RightPanelFileEditor {
    type V = EditorView;

    open spec fn view(&self) -> EditorView {
        EditorView {
            content: self.content@,
            disk_content: self.disk_content@,
            writable: self.writable,
            dirty: self.dirty,
        }
    }
}

/// What the files that are open hold.
pub open spec fn editor_views(editors: Map<Seq<char>, RightPanelFileEditor>) -> Map<Seq<char>, EditorView> {
    editors.map_values(|e: RightPanelFileEditor| e@)
}

/// What is kept of the panel while another session is on screen.
#[derive(Debug)]
pub struct RightPanelSessionState {
    pub visible: bool,
    pub surfaces: Vec<RightPanelSurface>,
    pub active_surface: Option<usize>,
    /// The tab that is to be scrolled into view.
    pub pending_tab_reveal: Option<usize>,
    /// The directories that are unfolded.
    pub expanded_paths: StrSet,
    /// The file that the tab of files has open.
    pub files_selected_path: Option<String>,
    pub file_tree_width: i32,
    pub file_editors: StrMap<RightPanelFileEditor>,
    pub diff_files: Vec<DiffFile>,
}

/// What a [`RightPanelSessionState`] holds.
#[verifier::ext_equal]
pub ghost struct PanelStateView {
    pub visible: bool,
    pub surfaces: Seq<SurfaceView>,
    pub active_surface: Option<usize>,
    pub pending_tab_reveal: Option<usize>,
    pub expanded_paths: Set<Seq<char>>,
    pub files_selected_path: Option<Seq<char>>,
    pub file_tree_width: i32,
    pub file_editors: Map<Seq<char>, EditorView>,
    pub diff_files: Seq<DiffFileView>,
}

impl View for RightPanelSessionState {
    type V = PanelStateView;

    open spec fn view(&self) -> PanelStateView {
        PanelStateView {
            visible: self.visible,
            surfaces: surface_views(self.surfaces@),
            active_surface: self.active_surface,
            pending_tab_reveal: self.pending_tab_reveal,
            expanded_paths: self.expanded_paths@,
            files_selected_path: opt(self.files_selected_path),
            file_tree_width: self.file_tree_width,
            file_editors: editor_views(self.file_editors@),
            diff_files: diff_file_views(self.diff_files@),
        }
    }
}

/// What several states hold.
pub open spec fn state_views(states: Map<Uuid, RightPanelSessionState>) -> Map<Uuid, PanelStateView> {
    states.map_values(|s: RightPanelSessionState| s@)
}

impl PanelStateView {
    /// A panel without tabs.
    pub open spec fn empty(visible: bool) -> PanelStateView {
        PanelStateView {
            visible,
            surfaces: Seq::empty(),
            active_surface: None,
            pending_tab_reveal: None,
            expanded_paths: Set::empty(),
            files_selected_path: None,
            file_tree_width: DEFAULT_FILE_TREE_WIDTH,
            file_editors: Map::empty(),
            diff_files: Seq::empty(),
        }
    }

    /// The tab on screen is one of the tabs.
    pub open spec fn wf(self) -> bool {
        self.active_surface matches Some(i) ==> i < self.surfaces.len()
    }
}

impl RightPanelSessionState {
    /// A panel without tabs.
    pub fn empty(visible: bool) -> (r: RightPanelSessionState)
        ensures
            r@ == PanelStateView::empty(visible),
    {
        let r = RightPanelSessionState {
            visible,
            surfaces: Vec::new(),
            active_surface: None,
            pending_tab_reveal: None,
            expanded_paths: StrSet::new(),
            files_selected_path: None,
            file_tree_width: DEFAULT_FILE_TREE_WIDTH,
            file_editors: StrMap::new(),
            diff_files: Vec::new(),
        };
        assert(r@.surfaces =~= Seq::empty());
        assert(r@.diff_files =~= Seq::empty());
        assert(r@.file_editors =~= Map::empty());
        r
    }

    /// Takes what was kept for a session; without it, a closed panel.
    pub fn take_or_closed(states: &mut IdMap<RightPanelSessionState>, session_id: Uuid) -> (r: RightPanelSessionState)
        ensures
            r@ == (if state_views(old(states)@).dom().contains(session_id) {
                state_views(old(states)@)[session_id]
            } else {
                PanelStateView::empty(false)
            }),
            state_views(final(states)@) == state_views(old(states)@).remove(session_id),
    {
        let found = states.remove(session_id);
        assert(state_views(states@) =~= state_views(old(states)@).remove(session_id));
        match found {
            Some(state) => state,
            None => RightPanelSessionState::empty(false),
        }
    }
}

/// What a change of the panel asks of the host.
#[derive(Clone, Copy, Debug, PartialEq, Eq, Structural)]
pub enum PanelEffect {
    /// Draw again.
    Notify,
    /// Write the layout to disk.
    PersistLayout,
    /// Ask `git` for the changed files.
    RefreshDiff,
    /// Read the workspace's directories.
    RefreshTree,
    /// Walk the workspace's directories for the list that a token stands for.
    WalkTree(u64),
    /// Run `git` for the list of changes that a token stands for.
    CollectDiff(u64),
    ScrollToTab(usize),
    /// Start a shell in the workspace.
    StartTerminal(Uuid),
}

/// The right panel.
pub struct RightPanel {
    pub panels: Panels,
    pub surfaces: Vec<RightPanelSurface>,
    pub active_surface: Option<usize>,
    pub pending_tab_reveal: Option<usize>,
    pub expanded_paths: StrSet,
    pub files_selected_path: Option<String>,
    pub file_editors: StrMap<RightPanelFileEditor>,
    pub diff_files: Vec<DiffFile>,
    /// The files of the workspace, as they are listed.
    pub working_tree: Vec<WorkingTreeEntry>,
    /// A note that goes away by itself.
    pub toast: Option<String>,
    /// What is kept for the sessions that are not on screen.
    pub states: IdMap<RightPanelSessionState>,
    /// The terminals that run, with their directories.
    pub terminals: IdMap<String>,
    /// The terminal that gets the keyboard's focus once it is drawn.
    pub pending_terminal_focus: Option<Uuid>,
    /// What the host is asked to do, in order.
    pub effects: Vec<PanelEffect>,
}

/// What a [`RightPanel`] holds.
#[verifier::ext_equal]
pub ghost struct RightPanelView {
    pub panels: Panels,
    pub surfaces: Seq<SurfaceView>,
    pub active_surface: Option<usize>,
    pub pending_tab_reveal: Option<usize>,
    pub expanded_paths: Set<Seq<char>>,
    pub files_selected_path: Option<Seq<char>>,
    pub file_editors: Map<Seq<char>, EditorView>,
    pub diff_files: Seq<DiffFileView>,
    pub working_tree: Seq<WorkingTreeEntryView>,
    pub toast: Option<Seq<char>>,
    pub states: Map<Uuid, PanelStateView>,
    pub terminals: Map<Uuid, Seq<char>>,
    pub pending_terminal_focus: Option<Uuid>,
    pub effects: Seq<PanelEffect>,
}

/// The directories of terminals.
pub open spec fn directory_views(terminals: Map<Uuid, String>) -> Map<Uuid, Seq<char>> {
    terminals.map_values(|d: String| d@)
}

impl View for RightPanel {
    type V = RightPanelView;

    open spec fn view(&self) -> RightPanelView {
        RightPanelView {
            panels: self.panels,
            surfaces: surface_views(self.surfaces@),
            active_surface: self.active_surface,
            pending_tab_reveal: self.pending_tab_reveal,
            expanded_paths: self.expanded_paths@,
            files_selected_path: opt(self.files_selected_path),
            file_editors: editor_views(self.file_editors@),
            diff_files: diff_file_views(self.diff_files@),
            working_tree: entry_views(self.working_tree@),
            toast: opt(self.toast),
            states: state_views(self.states@),
            terminals: directory_views(self.terminals@),
            pending_terminal_focus: self.pending_terminal_focus,
            effects: self.effects@,
        }
    }
}

/// The terminals of tabs.
pub open spec fn terminals_of(surfaces: Seq<SurfaceView>) -> Seq<Uuid>
    decreases surfaces.len(),
{
    if surfaces.len() == 0 {
        Seq::empty()
    } else {
        let rest = terminals_of(surfaces.drop_last());
        match surfaces.last().terminal() {
            Some(id) => rest.push(id),
            None => rest,
        }
    }
}

impl RightPanelView {
    /// One more thing is asked of the host.
    pub open spec fn ask(self, effect: PanelEffect) -> RightPanelView {
        RightPanelView { effects: self.effects.push(effect), ..self }
    }

    /// One more thing is asked of the host, where `when` holds.
    pub open spec fn ask_if(self, when: bool, effect: PanelEffect) -> RightPanelView {
        if when {
            self.ask(effect)
        } else {
            self
        }
    }

    /// The tab on screen is one of the tabs, here and in what is kept.
    pub open spec fn wf(self) -> bool {
        &&& self.active_surface matches Some(i) ==> i < self.surfaces.len()
        &&& forall|id: Uuid| #[trigger] self.states.dom().contains(id) ==> self.states[id].wf()
    }

    /// What the tab on screen shows.
    pub open spec fn active(self) -> Option<SurfaceView> {
        match self.active_surface {
            Some(i) if i < self.surfaces.len() => Some(self.surfaces[i as int]),
            _ => None,
        }
    }

    /// The terminal on screen gets the focus.
    pub open spec fn focusing(self) -> RightPanelView {
        RightPanelView {
            pending_terminal_focus: match self.active() {
                Some(surface) => surface.terminal(),
                None => None,
            },
            ..self
        }
    }

    /// The panel is shown or hidden.
    pub open spec fn shown(self, visible: bool) -> RightPanelView {
        let focused = if visible {
            self.focusing()
        } else {
            RightPanelView { pending_terminal_focus: None, ..self }
        };
        if self.panels.right_panel_visible == visible {
            focused
        } else {
            RightPanelView {
                panels: Panels { right_panel_visible: visible, ..focused.panels },
                ..focused
            }.ask(PanelEffect::PersistLayout).ask(PanelEffect::Notify)
        }
    }

    /// A tab is scrolled into view.
    pub open spec fn revealed(self, index: usize) -> RightPanelView {
        RightPanelView { pending_tab_reveal: Some(index), ..self }.ask(PanelEffect::ScrollToTab(index))
    }

    /// The panel is widened for the first file.
    pub open spec fn widened(self, width: i32) -> RightPanelView {
        if self.file_editors.dom() =~= Set::empty() {
            RightPanelView { panels: Panels { right_panel_width: width, ..self.panels }, ..self }
        } else {
            self
        }
    }

    /// A terminal runs in the directory of the project; without a project there is none.
    pub open spec fn terminal_ensured(self, id: Uuid, project: Option<Seq<char>>) -> RightPanelView {
        match project {
            None => RightPanelView { terminals: self.terminals.remove(id), ..self },
            Some(directory) => if self.terminals.dom().contains(id) && self.terminals[id] == directory {
                self
            } else {
                RightPanelView { terminals: self.terminals.insert(id, directory), ..self }.ask(
                    PanelEffect::StartTerminal(id),
                )
            },
        }
    }

    /// What a surface needs before it is shown.
    pub open spec fn readied(self, surface: SurfaceView, width: i32, project: Option<Seq<char>>) -> RightPanelView {
        let wide = if surface is File {
            self.widened(width)
        } else {
            self
        };
        let fresh = wide.ask_if(surface is Diff, PanelEffect::RefreshDiff).ask_if(
            surface.shows_files(),
            PanelEffect::RefreshTree,
        );
        match surface.terminal() {
            Some(id) => fresh.terminal_ensured(id, project),
            None => fresh,
        }
    }

    /// The tab of a surface is on screen: the one there is, where it can be shared, else a
    /// new one.
    pub open spec fn tabbed(self, surface: SurfaceView) -> RightPanelView {
        match reusable(self.surfaces, surface) {
            Some(i) => RightPanelView { active_surface: Some(i as usize), ..self }.revealed(i as usize),
            None => RightPanelView {
                surfaces: self.surfaces.push(surface),
                active_surface: Some(self.surfaces.len() as usize),
                ..self
            }.revealed(self.surfaces.len() as usize),
        }
    }

    /// A surface is opened.
    pub open spec fn opened(self, surface: SurfaceView, width: i32, project: Option<Seq<char>>) -> RightPanelView {
        self.readied(surface, width, project).tabbed(surface).focusing().shown(true).ask(PanelEffect::Notify)
    }

    /// A file that is open was changed.
    pub open spec fn dirty(self, path: Seq<char>) -> bool {
        self.file_editors.dom().contains(path) && self.file_editors[path].dirty
    }

    /// What a tab shows was changed.
    pub open spec fn surface_dirty(self, surface: SurfaceView) -> bool {
        match surface {
            SurfaceView::Files => match self.files_selected_path {
                Some(path) => self.dirty(path),
                None => false,
            },
            SurfaceView::File(path) => self.dirty(path),
            _ => false,
        }
    }

    /// The file on screen is replaced by another, in its tab or in the one that the other
    /// has.
    pub open spec fn file_replaced(self, active: usize, path: Seq<char>) -> RightPanelView {
        let wanted = SurfaceView::File(path);
        (match reusable(self.surfaces, wanted) {
            Some(i) => {
                let left: usize = if i > active {
                    (i - 1) as usize
                } else {
                    i as usize
                };
                RightPanelView {
                    surfaces: self.surfaces.remove(active as int),
                    active_surface: Some(left),
                    ..self
                }.revealed(left)
            },
            None => RightPanelView { surfaces: self.surfaces.update(active as int, wanted), ..self }.revealed(active),
        }).shown(true).ask(PanelEffect::Notify)
    }

    /// A file is opened: in the tab on screen where that shows files, unless it holds
    /// changes, else in a tab of its own.
    pub open spec fn file_opened(self, path: Seq<char>, width: i32, project: Option<Seq<char>>) -> RightPanelView {
        let wide = self.widened(width);
        match wide.active() {
            Some(SurfaceView::Files) => if wide.files_selected_path matches Some(current) && current != path && wide.dirty(
                current,
            ) {
                wide.opened(SurfaceView::File(path), width, project)
            } else {
                RightPanelView { files_selected_path: Some(path), ..wide }.shown(true).ask(PanelEffect::Notify)
            },
            Some(SurfaceView::File(current)) => if current == path {
                wide
            } else if wide.dirty(current) {
                wide.opened(SurfaceView::File(path), width, project)
            } else {
                wide.file_replaced(wide.active_surface->0, path)
            },
            _ => wide.opened(SurfaceView::File(path), width, project),
        }
    }

    /// The tab that is on screen once the one at `index` is closed.
    pub open spec fn next_active(self, index: usize) -> Option<usize> {
        let left = self.surfaces.len() - 1;
        if left == 0 {
            None
        } else {
            Some(
                match self.active_surface {
                    Some(active) => if active > index {
                        (active - 1) as usize
                    } else if active == index {
                        if index == 0 {
                            0
                        } else {
                            (index - 1) as usize
                        }
                    } else if active <= left - 1 {
                        active
                    } else {
                        (left - 1) as usize
                    },
                    None => 0,
                },
            )
        }
    }

    /// A tab is closed, with its terminal.
    pub open spec fn closed(self, index: usize) -> RightPanelView {
        if index >= self.surfaces.len() {
            self
        } else {
            let gone = RightPanelView {
                terminals: match self.surfaces[index as int].terminal() {
                    Some(id) => self.terminals.remove(id),
                    None => self.terminals,
                },
                surfaces: self.surfaces.remove(index as int),
                active_surface: self.next_active(index),
                ..self
            };
            (match gone.active_surface {
                Some(active) => gone.revealed(active).focusing(),
                None => RightPanelView { pending_tab_reveal: None, pending_terminal_focus: None, ..gone },
            }).ask(PanelEffect::Notify)
        }
    }

    /// What is kept of the panel.
    pub open spec fn kept(self) -> PanelStateView {
        PanelStateView {
            visible: self.panels.right_panel_visible,
            surfaces: self.surfaces,
            active_surface: self.active_surface,
            pending_tab_reveal: self.pending_tab_reveal,
            expanded_paths: self.expanded_paths,
            files_selected_path: self.files_selected_path,
            file_tree_width: self.panels.file_tree_width,
            file_editors: self.file_editors,
            diff_files: self.diff_files,
        }
    }

    /// The panel as something that was kept had it.
    pub open spec fn with_kept(self, state: PanelStateView) -> RightPanelView {
        RightPanelView {
            panels: Panels {
                right_panel_visible: state.visible,
                file_tree_width: state.file_tree_width,
                ..self.panels
            },
            surfaces: state.surfaces,
            active_surface: state.active_surface,
            pending_tab_reveal: state.pending_tab_reveal,
            expanded_paths: state.expanded_paths,
            files_selected_path: state.files_selected_path,
            file_editors: state.file_editors,
            diff_files: state.diff_files,
            ..self
        }
    }

    /// The panel with nothing of a session in it. Whether it is shown and how wide the file
    /// tree is stay until another takes its place.
    pub open spec fn vacated(self) -> RightPanelView {
        RightPanelView {
            surfaces: Seq::empty(),
            active_surface: None,
            pending_tab_reveal: None,
            expanded_paths: Set::empty(),
            files_selected_path: None,
            file_editors: Map::empty(),
            diff_files: Seq::empty(),
            ..self
        }
    }

    /// The panel of the session on screen is put away.
    pub open spec fn stored(self, selected: Option<Uuid>) -> RightPanelView {
        match selected {
            Some(id) => RightPanelView { states: self.states.insert(id, self.kept()), ..self.vacated() },
            None => self,
        }
    }

    /// What was kept for a session, or a closed panel.
    pub open spec fn kept_for(self, id: Uuid) -> PanelStateView {
        if self.states.dom().contains(id) {
            self.states[id]
        } else {
            PanelStateView::empty(false)
        }
    }

    /// Terminals run for the tabs on screen; those of no tab at all are gone.
    pub open spec fn terminals_ensured(self, project: Option<Seq<char>>) -> RightPanelView {
        RightPanelView {
            terminals: self.terminals.restrict(Set::new(|id: Uuid| self.uses_terminal(id))),
            ..self
        }.each_terminal_ensured(terminals_of(self.surfaces), project)
    }

    /// A terminal belongs to a tab, here or in what is kept.
    pub open spec fn uses_terminal(self, id: Uuid) -> bool {
        terminals_of(self.surfaces).contains(id) || exists|session: Uuid| #[trigger]
            self.states.dom().contains(session) && terminals_of(self.states[session].surfaces).contains(id)
    }

    /// Each of the terminals runs.
    pub open spec fn each_terminal_ensured(self, ids: Seq<Uuid>, project: Option<Seq<char>>) -> RightPanelView
        decreases ids.len(),
    {
        if ids.len() == 0 {
            self
        } else {
            self.each_terminal_ensured(ids.drop_last(), project).terminal_ensured(ids.last(), project)
        }
    }

    /// What the tab on screen shows is read again.
    pub open spec fn refreshed(self) -> RightPanelView {
        match self.active() {
            Some(SurfaceView::Diff) => self.ask(PanelEffect::RefreshDiff),
            Some(SurfaceView::Files) => self.ask(PanelEffect::RefreshTree),
            Some(SurfaceView::File(_)) => self.ask(PanelEffect::RefreshTree),
            _ => self,
        }
    }

    /// The panel of a session comes back on screen.
    pub open spec fn restored(self, id: Uuid, project: Option<Seq<char>>) -> RightPanelView {
        let back = RightPanelView { states: self.states.remove(id), ..self }.with_kept(self.kept_for(id)).refreshed()
            .terminals_ensured(project);
        if back.panels.right_panel_visible {
            back.focusing()
        } else {
            back
        }
    }

    /// The terminals are gone.
    pub open spec fn without_terminals(self, ids: Seq<Uuid>) -> RightPanelView
        decreases ids.len(),
    {
        if ids.len() == 0 {
            self
        } else {
            let before = self.without_terminals(ids.drop_last());
            RightPanelView { terminals: before.terminals.remove(ids.last()), ..before }
        }
    }

    /// What was kept for a session that is gone is dropped, with its terminals.
    pub open spec fn forgotten(self, id: Uuid, selected: Option<Uuid>) -> RightPanelView {
        if selected == Some(id) {
            self.with_kept(PanelStateView::empty(false)).without_terminals(terminals_of(self.surfaces))
        } else if self.states.dom().contains(id) {
            RightPanelView { states: self.states.remove(id), ..self }.without_terminals(
                terminals_of(self.states[id].surfaces),
            )
        } else {
            self
        }
    }
}

impl RightPanel {
    pub(crate) fn ask(&mut self, effect: PanelEffect)
        ensures
            final(self)@ == old(self)@.ask(effect),
            final(self).surfaces == old(self).surfaces,
            final(self).states == old(self).states,
    {
        self.effects.push(effect);
    }

    /// What the tab on screen shows.
    pub fn active_right_panel_surface(&self) -> (r: Option<&RightPanelSurface>)
        ensures
            match r {
                Some(surface) => self@.active() == Some(surface@),
                None => self@.active() is None,
            },
    {
        match self.active_surface {
            Some(i) => {
                if i < self.surfaces.len() {
                    assert(self@.surfaces[i as int] == self.surfaces@[i as int]@);
                    Some(&self.surfaces[i])
                } else {
                    None
                }
            },
            None => None,
        }
    }

    /// Has the terminal on screen get the focus.
    pub fn request_active_terminal_focus(&mut self)
        ensures
            final(self)@ == old(self)@.focusing(),
    {
        let focus = match self.active_right_panel_surface() {
            Some(surface) => surface.terminal_id(),
            None => None,
        };
        self.pending_terminal_focus = focus;
    }

    /// Shows or hides the panel.
    pub fn set_right_panel_visible(&mut self, visible: bool)
        ensures
            final(self)@ == old(self)@.shown(visible),
    {
        if visible {
            self.request_active_terminal_focus();
        } else {
            self.pending_terminal_focus = None;
        }
        if self.panels.right_panel_visible == visible {
            return;
        }
        self.panels.right_panel_visible = visible;
        self.ask(PanelEffect::PersistLayout);
        self.ask(PanelEffect::Notify);
    }

    /// Shows the panel where it is hidden, and hides it where it is shown.
    pub fn toggle_right_panel_action(&mut self)
        ensures
            final(self)@ == old(self)@.shown(!old(self)@.panels.right_panel_visible),
    {
        let visible = !self.panels.right_panel_visible;
        self.set_right_panel_visible(visible);
    }

    /// Scrolls a tab into view.
    pub fn reveal_right_panel_tab(&mut self, index: usize)
        ensures
            final(self)@ == old(self)@.revealed(index),
    {
        self.pending_tab_reveal = Some(index);
        self.ask(PanelEffect::ScrollToTab(index));
    }

    /// A tab was scrolled into view, unless another is to be by now.
    pub fn tab_scroll_reveal_guard(&mut self, index: usize)
        ensures
            final(self)@ == (if old(self)@.pending_tab_reveal == Some(index) {
                (RightPanelView { pending_tab_reveal: None, ..old(self)@ }).ask(PanelEffect::Notify)
            } else {
                old(self)@
            }),
    {
        let due = match self.pending_tab_reveal {
            Some(pending) => pending == index,
            None => false,
        };
        if due {
            self.pending_tab_reveal = None;
            self.ask(PanelEffect::Notify);
        }
    }

    fn ensure_initial_right_panel_file_editor_width(&mut self, widened: i32)
        ensures
            final(self)@ == old(self)@.widened(widened),
    {
        assert(editor_views(self.file_editors@).dom() =~= self.file_editors@.dom());
        let keys = self.file_editors.keys();
        if keys.len() == 0 {
            proof {
                assert forall|key: Seq<char>| !(#[trigger] self.file_editors@.dom().contains(key)) by {
                    assert(!crate::text::texts(keys@).contains(key));
                }
                assert(self@.file_editors.dom() =~= Set::empty());
            }
            self.panels.right_panel_width = widened;
        } else {
            proof {
                assert(crate::text::texts(keys@)[0] == keys@[0]@);
                assert(crate::text::texts(keys@).contains(keys@[0]@));
                assert(self.file_editors@.dom().contains(keys@[0]@));
            }
        }
    }

    /// Has a terminal run in the directory of the project.
    pub fn ensure_right_panel_terminal(&mut self, terminal_id: Uuid, project: Option<&str>)
        ensures
            final(self)@ == old(self)@.terminal_ensured(terminal_id, opt_str(project)),
            final(self).surfaces == old(self).surfaces,
            final(self).states == old(self).states,
    {
        let directory = match project {
            Some(directory) => directory,
            None => {
                let _ = self.terminals.remove(terminal_id);
                assert(self@.terminals =~= old(self)@.terminals.remove(terminal_id));
                return;
            },
        };
        assert(directory_views(self.terminals@).dom() =~= self.terminals@.dom());
        let runs = match self.terminals.get(terminal_id) {
            Some(current) => same(current.as_str(), directory),
            None => false,
        };
        if !runs {
            let _ = self.terminals.insert(terminal_id, directory.to_owned());
            assert(self@.terminals =~= old(self)@.terminals.insert(terminal_id, directory@));
            self.ask(PanelEffect::StartTerminal(terminal_id));
        }
    }

    fn ready_surface(&mut self, surface: &RightPanelSurface, widened: i32, project: Option<&str>)
        ensures
            final(self)@ == old(self)@.readied(surface@, widened, opt_str(project)),
    {
        match surface {
            RightPanelSurface::File(_) => {
                self.ensure_initial_right_panel_file_editor_width(widened);
                self.ask(PanelEffect::RefreshTree);
            },
            RightPanelSurface::Files => {
                self.ask(PanelEffect::RefreshTree);
            },
            RightPanelSurface::Diff => {
                self.ask(PanelEffect::RefreshDiff);
            },
            RightPanelSurface::Terminal(id) => {
                self.ensure_right_panel_terminal(*id, project);
            },
            RightPanelSurface::Browser(_) => {},
        }
    }

    fn show_tab(&mut self, surface: RightPanelSurface)
        ensures
            final(self)@ == old(self)@.tabbed(surface@),
    {
        let index = match reusable_surface_index(self.surfaces.as_slice(), &surface) {
            Some(index) => index,
            None => {
                let n = self.surfaces.len();
                self.surfaces.push(surface);
                assert(surface_views(self.surfaces@) =~= old(self)@.surfaces.push(surface@));
                n
            },
        };
        self.active_surface = Some(index);
        self.reveal_right_panel_tab(index);
    }

    /// Opens a surface. `widened` is how wide the panel becomes for a first file, `project`
    /// the directory of the project on screen.
    pub fn open_right_panel_surface(&mut self, surface: RightPanelSurface, widened: i32, project: Option<&str>)
        ensures
            final(self)@ == old(self)@.opened(surface@, widened, opt_str(project)),
    {
        self.ready_surface(&surface, widened, project);
        self.show_tab(surface);
        self.request_active_terminal_focus();
        self.set_right_panel_visible(true);
        self.ask(PanelEffect::Notify);
    }

    /// Whether a file that is open was changed.
    pub fn right_panel_file_is_dirty(&self, relative_path: &str) -> (r: bool)
        ensures
            r == self@.dirty(relative_path@),
    {
        assert(editor_views(self.file_editors@).dom() =~= self.file_editors@.dom());
        match self.file_editors.get(relative_path) {
            Some(editor) => editor.dirty,
            None => false,
        }
    }

    /// Whether what a tab shows was changed.
    pub fn right_panel_surface_is_dirty(&self, surface: &RightPanelSurface) -> (r: bool)
        ensures
            r == self@.surface_dirty(surface@),
    {
        match surface {
            RightPanelSurface::Files => match &self.files_selected_path {
                Some(path) => self.right_panel_file_is_dirty(path.as_str()),
                None => false,
            },
            RightPanelSurface::File(path) => self.right_panel_file_is_dirty(path.as_str()),
            _ => false,
        }
    }

    fn replace_file(&mut self, active: usize, relative_path: String)
        requires
            active < old(self).surfaces@.len(),
        ensures
            final(self)@ == old(self)@.file_replaced(active, relative_path@),
    {
        let requested = RightPanelSurface::File(relative_path);
        match reusable_surface_index(self.surfaces.as_slice(), &requested) {
            Some(existing) => {
                let _ = self.surfaces.remove(active);
                assert(surface_views(self.surfaces@) =~= old(self)@.surfaces.remove(active as int));
                let left = if existing > active {
                    existing - 1
                } else {
                    existing
                };
                self.active_surface = Some(left);
                self.reveal_right_panel_tab(left);
            },
            None => {
                self.surfaces[active] = requested;
                assert(surface_views(self.surfaces@) =~= old(self)@.surfaces.update(active as int, requested@));
                self.reveal_right_panel_tab(active);
            },
        }
        self.set_right_panel_visible(true);
        self.ask(PanelEffect::Notify);
    }

    /// Opens a file of the workspace. A file with changes is never replaced.
    pub fn open_right_panel_file(&mut self, relative_path: String, widened: i32, project: Option<&str>)
        ensures
            final(self)@ == old(self)@.file_opened(relative_path@, widened, opt_str(project)),
    {
        self.ensure_initial_right_panel_file_editor_width(widened);
        let active = match self.active_surface {
            Some(active) => active,
            None => {
                self.open_right_panel_surface(RightPanelSurface::File(relative_path), widened, project);
                return;
            },
        };
        let shown = match self.active_right_panel_surface() {
            Some(surface) => Some(surface.clone()),
            None => None,
        };
        match shown {
            Some(RightPanelSurface::Files) => {
                let replaces = match &self.files_selected_path {
                    Some(current) => !same(current.as_str(), relative_path.as_str()) && self.right_panel_file_is_dirty(
                        current.as_str(),
                    ),
                    None => false,
                };
                if replaces {
                    self.open_right_panel_surface(RightPanelSurface::File(relative_path), widened, project);
                    return;
                }
                self.files_selected_path = Some(relative_path);
                self.set_right_panel_visible(true);
                self.ask(PanelEffect::Notify);
            },
            Some(RightPanelSurface::File(current)) => {
                if same(current.as_str(), relative_path.as_str()) {
                    return;
                }
                if self.right_panel_file_is_dirty(current.as_str()) {
                    self.open_right_panel_surface(RightPanelSurface::File(relative_path), widened, project);
                    return;
                }
                self.replace_file(active, relative_path);
            },
            _ => {
                self.open_right_panel_surface(RightPanelSurface::File(relative_path), widened, project);
            },
        }
    }

    /// Closes a tab, with its terminal.
    pub fn close_right_panel_surface(&mut self, index: usize)
        ensures
            final(self)@ == old(self)@.closed(index),
    {
        if index >= self.surfaces.len() {
            return;
        }
        assert(self@.surfaces[index as int] == self.surfaces@[index as int]@);
        if let Some(terminal_id) = self.surfaces[index].terminal_id() {
            let _ = self.terminals.remove(terminal_id);
            assert(self@.terminals =~= old(self)@.terminals.remove(terminal_id));
        }
        let _ = self.surfaces.remove(index);
        assert(surface_views(self.surfaces@) =~= old(self)@.surfaces.remove(index as int));
        let left = self.surfaces.len();
        self.active_surface = if left == 0 {
            None
        } else {
            Some(
                match self.active_surface {
                    Some(active) => {
                        if active > index {
                            active - 1
                        } else if active == index {
                            index.saturating_sub(1)
                        } else if active <= left - 1 {
                            active
                        } else {
                            left - 1
                        }
                    },
                    None => 0,
                },
            )
        };
        match self.active_surface {
            Some(active) => {
                self.reveal_right_panel_tab(active);
                self.request_active_terminal_focus();
            },
            None => {
                self.pending_tab_reveal = None;
                self.pending_terminal_focus = None;
            },
        }
        self.ask(PanelEffect::Notify);
    }

    /// Brings a tab on screen.
    pub fn activate_tab(&mut self, index: usize)
        requires
            index < old(self).surfaces@.len(),
        ensures
            final(self)@ == (RightPanelView { active_surface: Some(index), ..old(self)@ }).revealed(index).focusing().ask(
                PanelEffect::Notify,
            ),
    {
        self.active_surface = Some(index);
        self.reveal_right_panel_tab(index);
        self.request_active_terminal_focus();
        self.ask(PanelEffect::Notify);
    }

    fn take_active_right_panel_state(&mut self) -> (r: RightPanelSessionState)
        ensures
            r@ == old(self)@.kept(),
            final(self)@ == old(self)@.vacated(),
            final(self).states == old(self).states,
    {
        let mut surfaces: Vec<RightPanelSurface> = Vec::new();
        std::mem::swap(&mut surfaces, &mut self.surfaces);
        let mut expanded_paths = StrSet::new();
        std::mem::swap(&mut expanded_paths, &mut self.expanded_paths);
        let mut files_selected_path: Option<String> = None;
        std::mem::swap(&mut files_selected_path, &mut self.files_selected_path);
        let mut file_editors: StrMap<RightPanelFileEditor> = StrMap::new();
        std::mem::swap(&mut file_editors, &mut self.file_editors);
        let mut diff_files: Vec<DiffFile> = Vec::new();
        std::mem::swap(&mut diff_files, &mut self.diff_files);
        let r = RightPanelSessionState {
            visible: self.panels.right_panel_visible,
            surfaces,
            active_surface: self.active_surface,
            pending_tab_reveal: self.pending_tab_reveal,
            expanded_paths,
            files_selected_path,
            file_tree_width: self.panels.file_tree_width,
            file_editors,
            diff_files,
        };
        self.active_surface = None;
        self.pending_tab_reveal = None;
        assert(surface_views(self.surfaces@) =~= Seq::empty());
        assert(diff_file_views(self.diff_files@) =~= Seq::empty());
        assert(editor_views(self.file_editors@) =~= Map::empty());
        r
    }

    fn replace_active_right_panel_state(&mut self, state: RightPanelSessionState)
        ensures
            final(self)@ == old(self)@.with_kept(state@),
            final(self).states == old(self).states,
    {
        self.panels.right_panel_visible = state.visible;
        self.panels.file_tree_width = state.file_tree_width;
        self.surfaces = state.surfaces;
        self.active_surface = state.active_surface;
        self.pending_tab_reveal = state.pending_tab_reveal;
        self.expanded_paths = state.expanded_paths;
        self.files_selected_path = state.files_selected_path;
        self.file_editors = state.file_editors;
        self.diff_files = state.diff_files;
    }

    /// Puts the panel of the session on screen away.
    pub fn store_selected_right_panel_state(&mut self, selected: Option<Uuid>)
        ensures
            final(self)@ == old(self)@.stored(selected),
    {
        if let Some(session_id) = selected {
            let state = self.take_active_right_panel_state();
            let _ = self.states.insert(session_id, state);
            assert(self@.states =~= old(self)@.states.insert(session_id, state@));
        }
    }

    /// Reads what the tab on screen shows again.
    pub fn refresh_workspace_surfaces(&mut self)
        ensures
            final(self)@ == old(self)@.refreshed(),
    {
        let (diff, tree) = match self.active_right_panel_surface() {
            Some(RightPanelSurface::Diff) => (true, false),
            Some(RightPanelSurface::Files) => (false, true),
            Some(RightPanelSurface::File(_)) => (false, true),
            _ => (false, false),
        };
        if diff {
            self.ask(PanelEffect::RefreshDiff);
        }
        if tree {
            self.ask(PanelEffect::RefreshTree);
        }
    }

    fn is_used(&self, ids: &Vec<Uuid>, sessions: &Vec<Uuid>, terminal_id: Uuid) -> (r: bool)
        requires
            ids@ == terminals_of(self@.surfaces),
            forall|key: Uuid| sessions@.contains(key) <==> #[trigger] self.states@.dom().contains(key),
        ensures
            r == self@.uses_terminal(terminal_id),
    {
        if has_id(ids, terminal_id) {
            return true;
        }
        assert(state_views(self.states@).dom() =~= self.states@.dom());
        let mut i: usize = 0;
        while i < sessions.len()
            invariant
                i <= sessions@.len(),
                state_views(self.states@).dom() == self.states@.dom(),
                forall|j: int|
                    0 <= j < i && self@.states.dom().contains(#[trigger] sessions@[j]) ==> !terminals_of(
                        self@.states[sessions@[j]].surfaces,
                    ).contains(terminal_id),
            decreases sessions@.len() - i,
        {
            if let Some(state) = self.states.get(sessions[i]) {
                assert(self@.states[sessions@[i as int]] == state@);
                assert(self@.states.dom().contains(sessions@[i as int]));
                let kept = list_terminals(&state.surfaces);
                if has_id(&kept, terminal_id) {
                    return true;
                }
            }
            i = i + 1;
        }
        proof {
            if exists|session: Uuid| #[trigger]
                self@.states.dom().contains(session) && terminals_of(self@.states[session].surfaces).contains(terminal_id) {
                let session = choose|session: Uuid| #[trigger]
                    self@.states.dom().contains(session) && terminals_of(self@.states[session].surfaces).contains(
                        terminal_id,
                    );
                assert(self.states@.dom().contains(session));
                assert(sessions@.contains(session));
                let k = sessions@.index_of(session);
                assert(sessions@[k] == session);
            }
        }
        false
    }

    /// Has terminals run for the tabs on screen, and drops those of no tab at all.
    pub fn ensure_right_panel_terminals(&mut self, project: Option<&str>)
        ensures
            final(self)@ == old(self)@.terminals_ensured(opt_str(project)),
    {
        let active = list_terminals(&self.surfaces);
        let sessions = self.states.keys();
        let running = self.terminals.keys();
        let ghost wanted = Set::new(|id: Uuid| old(self)@.uses_terminal(id));
        let ghost start = *self;
        let mut i: usize = 0;
        proof {
            assert(directory_views(self.terminals@).dom() =~= self.terminals@.dom());
        }
        while i < running.len()
            invariant
                i <= running@.len(),
                start == *old(self),
                wanted == Set::new(|id: Uuid| old(self)@.uses_terminal(id)),
                *self == (RightPanel { terminals: self.terminals, ..start }),
                active@ == terminals_of(start@.surfaces),
                forall|key: Uuid| sessions@.contains(key) <==> #[trigger] start.states@.dom().contains(key),
                forall|key: Uuid| running@.contains(key) <==> #[trigger] start.terminals@.dom().contains(key),
                forall|key: Uuid| #[trigger]
                    self.terminals@.dom().contains(key) ==> start.terminals@.dom().contains(key) && self.terminals@[key]
                        == start.terminals@[key],
                forall|j: int| i <= j < running@.len() ==> self.terminals@.dom().contains(#[trigger] running@[j]),
                forall|j: int|
                    0 <= j < i ==> (self.terminals@.dom().contains(#[trigger] running@[j]) == wanted.contains(running@[j])),
                running@.no_duplicates(),
            decreases running@.len() - i,
        {
            let id = running[i];
            assert(start.terminals@.dom().contains(id)) by {
                assert(running@.contains(id));
            }
            assert(self@.uses_terminal(id) == start@.uses_terminal(id));
            if !self.is_used(&active, &sessions, id) {
                let _ = self.terminals.remove(id);
            }
            i = i + 1;
        }
        proof {
            assert forall|key: Uuid| self@.terminals.dom().contains(key) == start@.terminals.restrict(wanted).dom().contains(
                key,
            ) by {
                if start.terminals@.dom().contains(key) {
                    assert(running@.contains(key));
                    let k = running@.index_of(key);
                    assert(running@[k] == key);
                }
            }
            assert(self@.terminals =~= start@.terminals.restrict(wanted));
        }
        let ghost begun = self@;
        let mut k: usize = 0;
        assert(active@.take(0) =~= Seq::empty());
        while k < active.len()
            invariant
                k <= active@.len(),
                self@ == begun.each_terminal_ensured(active@.take(k as int), opt_str(project)),
            decreases active@.len() - k,
        {
            assert(active@.take(k + 1).drop_last() =~= active@.take(k as int));
            self.ensure_right_panel_terminal(active[k], project);
            k = k + 1;
        }
        assert(active@.take(k as int) =~= active@);
    }

    /// Brings the panel of a session back on screen.
    pub fn restore_right_panel_state(&mut self, session_id: Uuid, project: Option<&str>)
        ensures
            final(self)@ == old(self)@.restored(session_id, opt_str(project)),
    {
        let state = RightPanelSessionState::take_or_closed(&mut self.states, session_id);
        self.replace_active_right_panel_state(state);
        self.refresh_workspace_surfaces();
        self.ensure_right_panel_terminals(project);
        if self.panels.right_panel_visible {
            self.request_active_terminal_focus();
        }
    }

    fn drop_terminals(&mut self, ids: &Vec<Uuid>)
        ensures
            final(self)@ == old(self)@.without_terminals(ids@),
    {
        let mut i: usize = 0;
        assert(ids@.take(0) =~= Seq::empty());
        while i < ids.len()
            invariant
                i <= ids@.len(),
                self@ == old(self)@.without_terminals(ids@.take(i as int)),
            decreases ids@.len() - i,
        {
            let ghost before = self@;
            assert(ids@.take(i + 1).drop_last() =~= ids@.take(i as int));
            let _ = self.terminals.remove(ids[i]);
            assert(self@.terminals =~= before.terminals.remove(ids@[i as int]));
            i = i + 1;
        }
        assert(ids@.take(i as int) =~= ids@);
    }

    /// Drops what is kept for a session that is gone, with its terminals.
    pub fn remove_right_panel_session_state(&mut self, session_id: Uuid, selected: Option<Uuid>)
        ensures
            final(self)@ == old(self)@.forgotten(session_id, selected),
    {
        if selected == Some(session_id) {
            let ids = list_terminals(&self.surfaces);
            let closed = RightPanelSessionState::empty(false);
            self.replace_active_right_panel_state(closed);
            self.drop_terminals(&ids);
        } else {
            match self.states.remove(session_id) {
                Some(state) => {
                    assert(self@.states =~= old(self)@.states.remove(session_id));
                    let ids = list_terminals(&state.surfaces);
                    self.drop_terminals(&ids);
                },
                None => {
                    assert(self@.states =~= old(self)@.states);
                },
            }
        }
    }
}

fn list_terminals(surfaces: &Vec<RightPanelSurface>) -> (r: Vec<Uuid>)
    ensures
        r@ == terminals_of(surface_views(surfaces@)),
{
    let ghost views = surface_views(surfaces@);
    let mut r: Vec<Uuid> = Vec::new();
    let mut i: usize = 0;
    assert(views.take(0) =~= Seq::empty());
    while i < surfaces.len()
        invariant
            i <= surfaces@.len(),
            views == surface_views(surfaces@),
            r@ == terminals_of(views.take(i as int)),
        decreases surfaces@.len() - i,
    {
        assert(views.take(i + 1).drop_last() =~= views.take(i as int));
        assert(views.take(i + 1).last() == surfaces@[i as int]@);
        if let Some(id) = surfaces[i].terminal_id() {
            r.push(id);
        }
        i = i + 1;
    }
    assert(views.take(i as int) =~= views);
    r
}

} // verus!
