//! What is read from the workspace for the right panel: its files, the list of them, and
//! the list of changes.
use vstd::prelude::*;

use crate::diff_files::{diff_file_views, DiffFile, DiffFileView};
use crate::file_types::{file_highlighter_language, language_for};
use crate::right_panel::{editor_views, EditorView, PanelEffect, RightPanel, RightPanelFileEditor, RightPanelView};
use crate::surfaces::{RightPanelSurface, SurfaceView};
use crate::text::{opt_str, same};
use crate::working_tree::{entry_views, WorkingTreeEntry, WorkingTreeEntryView};

verus! {

/// What a cache answers.
#[derive(Debug)]
pub enum Query<T> {
    Ready(T),
    /// It is being computed.
    Pending,
    /// It is to be computed, and handed in with the token.
    Missing(u64),
}

/// A file as it was read: its text, and whether it can be written.
pub ghost struct ReadView {
    pub content: Seq<char>,
    pub writable: bool,
}

/// What was read of a file.
pub open spec fn read_view(read: Option<(String, bool)>) -> Option<ReadView> {
    match read {
        Some(r) => Some(ReadView { content: r.0@, writable: r.1 }),
        None => None,
    }
}

/// A file to be written.
#[derive(Debug)]
pub struct SaveRequest {
    /// Its path in the workspace.
    pub relative_path: String,
    pub content: String,
}

impl EditorView {
    /// A file that was just read.
    pub open spec fn fresh(content: Seq<char>, writable: bool) -> EditorView {
        EditorView { content, disk_content: content, writable, dirty: false }
    }

    /// The file is marked as changed exactly where it can be written and differs from what
    /// is on disk.
    pub open spec fn wf(self) -> bool {
        self.dirty == (self.writable && self.content != self.disk_content)
    }
}

impl RightPanelView {
    /// Every file that is open knows whether it was changed.
    pub open spec fn editors_wf(self) -> bool {
        forall|path: Seq<char>| #[trigger] self.file_editors.dom().contains(path) ==> self.file_editors[path].wf()
    }

    /// A file is open; one that was not is read.
    pub open spec fn editing(self, path: Seq<char>, read: Option<ReadView>) -> RightPanelView {
        if self.file_editors.dom().contains(path) {
            self
        } else {
            RightPanelView {
                file_editors: self.file_editors.insert(
                    path,
                    match read {
                        Some(r) => EditorView::fresh(r.content, r.writable),
                        None => EditorView::fresh("No project is open."@, false),
                    },
                ),
                ..self
            }
        }
    }

    /// The text of a file was edited.
    pub open spec fn edited(self, path: Seq<char>, value: Seq<char>) -> RightPanelView {
        if !self.file_editors.dom().contains(path) {
            self
        } else {
            let editor = self.file_editors[path];
            let dirty = editor.writable && value != editor.disk_content;
            RightPanelView {
                file_editors: self.file_editors.insert(path, EditorView { content: value, dirty, ..editor }),
                ..self
            }.ask_if(editor.dirty != dirty, PanelEffect::Notify)
        }
    }

    /// A file that was not changed is read again.
    pub open spec fn reloaded(self, path: Seq<char>, read: Option<ReadView>) -> RightPanelView {
        if !self.file_editors.dom().contains(path) || self.file_editors[path].dirty {
            self
        } else {
            match read {
                None => self,
                Some(r) => if self.file_editors[path].disk_content == r.content && self.file_editors[path].writable
                    == r.writable {
                    self
                } else {
                    RightPanelView {
                        file_editors: self.file_editors.insert(path, EditorView::fresh(r.content, r.writable)),
                        ..self
                    }.ask(PanelEffect::Notify)
                },
            }
        }
    }

    /// Files that were not changed are read again.
    pub open spec fn all_reloaded(self, reads: Seq<(Seq<char>, Option<ReadView>)>) -> RightPanelView
        decreases reads.len(),
    {
        if reads.len() == 0 {
            self
        } else {
            self.all_reloaded(reads.drop_last()).reloaded(reads.last().0, reads.last().1)
        }
    }

    /// The file that a request to save is about.
    pub open spec fn shown_path(self) -> Option<Seq<char>> {
        match self.active() {
            Some(SurfaceView::Files) => self.files_selected_path,
            Some(SurfaceView::File(path)) => Some(path),
            _ => None,
        }
    }

    /// The file that is to be written, if one is open in a project.
    pub open spec fn savable(self, project: bool) -> Option<Seq<char>> {
        match self.shown_path() {
            Some(path) => if project && self.file_editors.dom().contains(path) {
                Some(path)
            } else {
                None
            },
            None => None,
        }
    }

    /// A file could not be written.
    pub open spec fn save_failed(self, path: Seq<char>, error: Seq<char>) -> RightPanelView {
        RightPanelView { toast: Some("Could not save "@ + path + ": "@ + error), ..self }.ask(PanelEffect::Notify)
    }

    /// A file was written.
    pub open spec fn save_done(self, path: Seq<char>, content: Seq<char>) -> RightPanelView {
        RightPanelView {
            file_editors: if self.file_editors.dom().contains(path) {
                self.file_editors.insert(
                    path,
                    EditorView { disk_content: content, dirty: false, ..self.file_editors[path] },
                )
            } else {
                self.file_editors
            },
            ..self
        }.ask(PanelEffect::Notify)
    }

    /// What a cache answers about the workspace's files is shown.
    pub open spec fn tree_read(self, project: bool, entries: Query<Seq<WorkingTreeEntryView>>) -> RightPanelView {
        if !project {
            RightPanelView { working_tree: Seq::empty(), ..self }
        } else {
            match entries {
                Query::Ready(list) => RightPanelView { working_tree: list, ..self },
                Query::Pending => self,
                Query::Missing(token) => self.ask(PanelEffect::WalkTree(token)),
            }
        }
    }

    /// What a cache answers about the changes is shown.
    pub open spec fn diff_read(self, project: bool, files: Query<Seq<DiffFileView>>) -> RightPanelView {
        if !project {
            RightPanelView { diff_files: Seq::empty(), ..self }
        } else {
            match files {
                Query::Ready(list) => RightPanelView { diff_files: list, ..self },
                Query::Pending => self,
                Query::Missing(token) => self.ask(PanelEffect::CollectDiff(token)),
            }
        }
    }

    /// A directory is unfolded where it was folded, and folded where it was unfolded.
    pub open spec fn unfolding(self, path: Seq<char>) -> RightPanelView {
        RightPanelView {
            expanded_paths: if self.expanded_paths.contains(path) {
                self.expanded_paths.remove(path)
            } else {
                self.expanded_paths.insert(path)
            },
            ..self
        }.ask(PanelEffect::RefreshTree).ask(PanelEffect::Notify)
    }
}

/// What a cache answers, as views.
pub open spec fn tree_query(query: Query<Vec<WorkingTreeEntry>>) -> Query<Seq<WorkingTreeEntryView>> {
    match query {
        Query::Ready(list) => Query::Ready(entry_views(list@)),
        Query::Pending => Query::Pending,
        Query::Missing(token) => Query::Missing(token),
    }
}

/// What a cache answers, as views.
pub open spec fn diff_query(query: Query<Vec<DiffFile>>) -> Query<Seq<DiffFileView>> {
    match query {
        Query::Ready(list) => Query::Ready(diff_file_views(list@)),
        Query::Pending => Query::Pending,
        Query::Missing(token) => Query::Missing(token),
    }
}

/// The paths of files and what was read of them.
pub open spec fn read_views(reads: Seq<(String, Option<(String, bool)>)>) -> Seq<(Seq<char>, Option<ReadView>)> {
    reads.map_values(|r: (String, Option<(String, bool)>)| (r.0@, read_view(r.1)))
}

proof fn lemma_one_more_key(all: Seq<Seq<char>>, i: int)
    requires
        0 <= i < all.len(),
        all.no_duplicates(),
    ensures
        forall|t: Seq<char>| #[trigger] all.take(i).contains(t) ==> all.take(i + 1).contains(t) && t != all[i],
        all.take(i + 1).contains(all[i]),
{
    assert forall|t: Seq<char>| #[trigger] all.take(i).contains(t) implies all.take(i + 1).contains(t) && t != all[i] by {
        let k = all.take(i).index_of(t);
        assert(all.take(i + 1)[k] == t);
        assert(all[k] == t);
    }
    assert(all.take(i + 1)[i] == all[i]);
}

impl RightPanel {
    fn put_editor(&mut self, path: &str, editor: RightPanelFileEditor)
        ensures
            final(self)@ == (RightPanelView {
                file_editors: old(self)@.file_editors.insert(path@, editor@),
                ..old(self)@
            }),
    {
        let _ = self.file_editors.insert(path.to_owned(), editor);
        assert(self@.file_editors =~= old(self)@.file_editors.insert(path@, editor@));
    }

    /// Opens a file of the workspace, where it is not open yet. `read` is what was read of
    /// it, nothing without a project. Returns its language, whether it can be written, and
    /// whether it was changed.
    pub fn ensure_right_panel_file_editor(&mut self, relative_path: &str, read: Option<(String, bool)>) -> (r: (
        &'static str,
        bool,
        bool,
    ))
        ensures
            final(self)@ == old(self)@.editing(relative_path@, read_view(read)),
            r.0@ == language_for(relative_path@),
            r.1 == final(self)@.file_editors[relative_path@].writable,
            r.2 == final(self)@.file_editors[relative_path@].dirty,
    {
        let language = file_highlighter_language(relative_path);
        assert(editor_views(self.file_editors@).dom() =~= self.file_editors@.dom());
        if let Some(editor) = self.file_editors.get(relative_path) {
            return (language, editor.writable, editor.dirty);
        }
        let (content, writable) = match read {
            Some(read) => read,
            None => ("No project is open.".to_owned(), false),
        };
        let disk_content = content.clone();
        self.put_editor(relative_path, RightPanelFileEditor { content, disk_content, writable, dirty: false });
        (language, writable, false)
    }

    /// Marks a file as changed or unchanged after its text was edited.
    pub fn file_edited(&mut self, relative_path: &str, value: String)
        ensures
            final(self)@ == old(self)@.edited(relative_path@, value@),
    {
        assert(editor_views(self.file_editors@).dom() =~= self.file_editors@.dom());
        let (editor, was) = match self.file_editors.get(relative_path) {
            Some(editor) => {
                let dirty = editor.writable && !same(value.as_str(), editor.disk_content.as_str());
                let disk_content = editor.disk_content.clone();
                (
                    RightPanelFileEditor { content: value, disk_content, writable: editor.writable, dirty },
                    editor.dirty,
                )
            },
            None => return,
        };
        let dirty = editor.dirty;
        self.put_editor(relative_path, editor);
        if was != dirty {
            self.ask(PanelEffect::Notify);
        }
    }

    /// Reads a file again, where it is open and was not changed. `read` is what was read of
    /// it, nothing without a project.
    pub fn reload_right_panel_file_if_clean(&mut self, relative_path: &str, read: Option<(String, bool)>)
        ensures
            final(self)@ == old(self)@.reloaded(relative_path@, read_view(read)),
    {
        assert(editor_views(self.file_editors@).dom() =~= self.file_editors@.dom());
        let (content, writable) = match read {
            Some(read) => read,
            None => return,
        };
        match self.file_editors.get(relative_path) {
            Some(editor) => {
                if editor.dirty {
                    return;
                }
                if same(editor.disk_content.as_str(), content.as_str()) && editor.writable == writable {
                    return;
                }
            },
            None => return,
        }
        let disk_content = content.clone();
        self.put_editor(relative_path, RightPanelFileEditor { content, disk_content, writable, dirty: false });
        self.ask(PanelEffect::Notify);
    }

    /// The files that are open and were not changed: each of them once, in no particular
    /// order.
    pub fn clean_paths(&self) -> (r: Vec<String>)
        ensures
            crate::text::texts(r@).no_duplicates(),
            forall|path: Seq<char>|
                crate::text::texts(r@).contains(path) <==> (#[trigger] self@.file_editors.dom().contains(path)
                    && !self@.file_editors[path].dirty),
    {
        assert(editor_views(self.file_editors@).dom() =~= self.file_editors@.dom());
        let keys = self.file_editors.keys();
        let ghost all = crate::text::texts(keys@);
        let mut r: Vec<String> = Vec::new();
        let mut i: usize = 0;
        while i < keys.len()
            invariant
                i <= keys@.len(),
                all == crate::text::texts(keys@),
                all.no_duplicates(),
                crate::text::texts(r@).no_duplicates(),
                forall|k: int| 0 <= k < r@.len() ==> all.take(i as int).contains(#[trigger] r@[k]@),
                editor_views(self.file_editors@).dom() == self.file_editors@.dom(),
                forall|k: int|
                    0 <= k < r@.len() ==> self@.file_editors.dom().contains(#[trigger] r@[k]@) && !self@.file_editors[r@[k]@].dirty,
                forall|k: int|
                    0 <= k < i && self@.file_editors.dom().contains(#[trigger] keys@[k]@) && !self@.file_editors[keys@[k]@].dirty
                        ==> crate::text::texts(r@).contains(keys@[k]@),
            decreases keys@.len() - i,
        {
            let ghost before = r@;
            proof {
                lemma_one_more_key(all, i as int);
            }
            if let Some(editor) = self.file_editors.get(keys[i].as_str()) {
                if !editor.dirty {
                    r.push(keys[i].clone());
                    assert(crate::text::texts(r@) =~= crate::text::texts(before).push(keys@[i as int]@));
                    assert(crate::text::texts(r@)[before.len() as int] == keys@[i as int]@);
                    assert(all[i as int] == keys@[i as int]@);
                    assert forall|k: int| 0 <= k < before.len() implies #[trigger] crate::text::texts(before)[k]
                        != keys@[i as int]@ by {
                        assert(all.take(i as int).contains(before[k]@));
                    }
                    assert forall|k: int| 0 <= k < r@.len() implies all.take(i + 1).contains(#[trigger] r@[k]@) by {
                        if k < before.len() {
                            assert(r@[k] == before[k]);
                        }
                    }
                    assert forall|k: int|
                        0 <= k < i && crate::text::texts(before).contains(#[trigger] keys@[k]@) implies crate::text::texts(
                        r@,
                    ).contains(keys@[k]@) by {
                        let j = crate::text::texts(before).index_of(keys@[k]@);
                        assert(crate::text::texts(r@)[j] == keys@[k]@);
                    }
                }
            }
            i = i + 1;
        }
        proof {
            let list = crate::text::texts(r@);
            assert forall|path: Seq<char>|
                list.contains(path) <==> (#[trigger] self@.file_editors.dom().contains(path)
                    && !self@.file_editors[path].dirty) by {
                if list.contains(path) {
                    let k = list.index_of(path);
                    assert(r@[k]@ == path);
                }
                if self@.file_editors.dom().contains(path) && !self@.file_editors[path].dirty {
                    assert(self.file_editors@.dom().contains(path));
                    assert(all.contains(path));
                    let k = all.index_of(path);
                    assert(keys@[k]@ == path);
                }
            }
        }
        r
    }

    /// Reads files that were not changed again, one after the other.
    pub fn reload_clean_right_panel_file_editors(&mut self, reads: Vec<(String, Option<(String, bool)>)>)
        ensures
            final(self)@ == old(self)@.all_reloaded(read_views(reads@)),
    {
        let ghost whole = read_views(reads@);
        let mut reads = reads;
        let ghost mut done: int = 0;
        assert(whole.take(0) =~= Seq::empty());
        assert(whole.skip(0) =~= whole);
        while reads.len() > 0
            invariant
                0 <= done <= whole.len(),
                read_views(reads@) == whole.skip(done),
                self@ == old(self)@.all_reloaded(whole.take(done)),
            decreases reads@.len(),
        {
            let ghost rest = reads@;
            let (path, read) = reads.remove(0);
            proof {
                assert(read_views(rest).len() == whole.len() - done);
                assert(read_views(rest)[0] == whole.skip(done)[0]);
                assert(reads@ =~= rest.remove(0));
                assert(read_views(reads@) =~= read_views(rest).skip(1));
                assert(whole.skip(done).skip(1) =~= whole.skip(done + 1));
                assert(whole.take(done + 1).drop_last() =~= whole.take(done));
            }
            self.reload_right_panel_file_if_clean(path.as_str(), read);
            proof {
                done = done + 1;
            }
        }
        proof {
            assert(read_views(reads@).len() == 0);
            assert(whole.take(done) =~= whole);
        }
    }

    /// Has the file on screen be written, where one is open in a project and can be.
    pub fn save_right_panel_file_action(&mut self, project: bool) -> (r: Option<SaveRequest>)
        ensures
            match old(self)@.savable(project) {
                None => r is None && final(self)@ == old(self)@,
                Some(path) => if old(self)@.file_editors[path].writable {
                    &&& final(self)@ == old(self)@
                    &&& match r {
                        Some(request) => request.relative_path@ == path && request.content@
                            == old(self)@.file_editors[path].content,
                        None => false,
                    }
                } else {
                    r is None && final(self)@ == old(self)@.save_failed(path, "file is not editable"@)
                },
            },
    {
        let shown = match self.active_right_panel_surface() {
            Some(RightPanelSurface::Files) => match &self.files_selected_path {
                Some(path) => Some(path.clone()),
                None => None,
            },
            Some(RightPanelSurface::File(path)) => Some(path.clone()),
            _ => None,
        };
        let relative_path = match shown {
            Some(path) => path,
            None => return None,
        };
        if !project {
            return None;
        }
        assert(editor_views(self.file_editors@).dom() =~= self.file_editors@.dom());
        match self.file_editors.get(relative_path.as_str()) {
            Some(editor) => {
                if editor.writable {
                    let content = editor.content.clone();
                    return Some(SaveRequest { relative_path, content });
                }
            },
            None => return None,
        }
        self.fail_to_save(relative_path.as_str(), "file is not editable");
        None
    }

    fn fail_to_save(&mut self, path: &str, error: &str)
        ensures
            final(self)@ == old(self)@.save_failed(path@, error@),
    {
        let mut toast = "Could not save ".to_owned();
        toast.append(path);
        toast.append(": ");
        toast.append(error);
        self.toast = Some(toast);
        self.ask(PanelEffect::Notify);
    }

    /// Takes in how writing a file went.
    pub fn finish_saving(&mut self, request: SaveRequest, error: Option<&str>)
        ensures
            final(self)@ == (match opt_str(error) {
                Some(text) => old(self)@.save_failed(request.relative_path@, text),
                None => old(self)@.save_done(request.relative_path@, request.content@),
            }),
    {
        match error {
            Some(text) => {
                self.fail_to_save(request.relative_path.as_str(), text);
            },
            None => {
                assert(editor_views(self.file_editors@).dom() =~= self.file_editors@.dom());
                let found = match self.file_editors.get(request.relative_path.as_str()) {
                    Some(editor) => Some(
                        RightPanelFileEditor {
                            content: editor.content.clone(),
                            disk_content: request.content,
                            writable: editor.writable,
                            dirty: false,
                        },
                    ),
                    None => None,
                };
                if let Some(editor) = found {
                    self.put_editor(request.relative_path.as_str(), editor);
                }
                self.ask(PanelEffect::Notify);
            },
        }
    }

    /// Shows the workspace's files, as far as the cache has them.
    pub fn refresh_right_panel_working_tree(&mut self, project: bool, cached: Query<Vec<WorkingTreeEntry>>)
        ensures
            final(self)@ == old(self)@.tree_read(project, tree_query(cached)),
    {
        if !project {
            self.working_tree = Vec::new();
            assert(entry_views(self.working_tree@) =~= Seq::empty());
            return;
        }
        match cached {
            Query::Ready(entries) => {
                self.working_tree = entries;
            },
            Query::Pending => {},
            Query::Missing(token) => {
                self.ask(PanelEffect::WalkTree(token));
            },
        }
    }

    /// Takes in the workspace's files. They are shown where the cache still wanted them and
    /// their project is still on screen.
    pub fn finish_working_tree(&mut self, wanted: bool, walked: &str, project: Option<&str>, entries: Vec<WorkingTreeEntry>)
        ensures
            final(self)@ == (if wanted && opt_str(project) == Some(walked@) {
                (RightPanelView { working_tree: entry_views(entries@), ..old(self)@ }).ask(PanelEffect::Notify)
            } else {
                old(self)@
            }),
    {
        let selected = match project {
            Some(path) => same(path, walked),
            None => false,
        };
        if wanted && selected {
            self.working_tree = entries;
            self.ask(PanelEffect::Notify);
        }
    }

    /// Shows the changes, as far as the cache has them.
    pub fn refresh_right_panel_diff(&mut self, project: bool, cached: Query<Vec<DiffFile>>)
        ensures
            final(self)@ == old(self)@.diff_read(project, diff_query(cached)),
    {
        if !project {
            self.diff_files = Vec::new();
            assert(diff_file_views(self.diff_files@) =~= Seq::empty());
            return;
        }
        match cached {
            Query::Ready(files) => {
                self.diff_files = files;
            },
            Query::Pending => {},
            Query::Missing(token) => {
                self.ask(PanelEffect::CollectDiff(token));
            },
        }
    }

    /// Takes in the changes. They are shown where the cache still wanted them and their
    /// project is still on screen.
    pub fn finish_diff(&mut self, wanted: bool, collected: &str, project: Option<&str>, files: Vec<DiffFile>)
        ensures
            final(self)@ == (if wanted && opt_str(project) == Some(collected@) {
                (RightPanelView { diff_files: diff_file_views(files@), ..old(self)@ }).ask(PanelEffect::Notify)
            } else {
                old(self)@
            }),
    {
        let selected = match project {
            Some(path) => same(path, collected),
            None => false,
        };
        if wanted && selected {
            self.diff_files = files;
            self.ask(PanelEffect::Notify);
        }
    }

    /// Unfolds a directory, or folds it.
    pub fn toggle_directory(&mut self, absolute_path: &str)
        ensures
            final(self)@ == old(self)@.unfolding(absolute_path@),
    {
        if !self.expanded_paths.remove(absolute_path) {
            let _ = self.expanded_paths.insert(absolute_path.to_owned());
        }
        self.ask(PanelEffect::RefreshTree);
        self.ask(PanelEffect::Notify);
    }
}

/// Whatever is done with the files that are open, each stays marked as changed exactly where
/// it differs from what is on disk and can be written.
pub proof fn files_know_their_changes(
    panel: RightPanelView,
    path: Seq<char>,
    read: Option<ReadView>,
    value: Seq<char>,
)
    requires
        panel.editors_wf(),
    ensures
        panel.editing(path, read).editors_wf(),
        panel.edited(path, value).editors_wf(),
        panel.reloaded(path, read).editors_wf(),
        panel.save_failed(path, value).editors_wf(),
        panel.file_editors.dom().contains(path) ==> panel.save_done(path, panel.file_editors[path].content).editors_wf(),
{
}

/// What was changed is never lost to what is on disk: reading files again leaves those that
/// were changed as they are.
pub proof fn reading_again_keeps_changes(panel: RightPanelView, reads: Seq<(Seq<char>, Option<ReadView>)>, path: Seq<char>)
    requires
        panel.dirty(path),
    ensures
        panel.all_reloaded(reads).file_editors.dom().contains(path),
        panel.all_reloaded(reads).file_editors[path] == panel.file_editors[path],
    decreases reads.len(),
{
    if reads.len() > 0 {
        reading_again_keeps_changes(panel, reads.drop_last(), path);
    }
}

/// A file that was written is unchanged, and reading it again gives back what was written.
pub proof fn saved_files_are_clean(panel: RightPanelView, path: Seq<char>)
    requires
        panel.file_editors.dom().contains(path),
        panel.file_editors[path].writable,
    ensures
        !panel.save_done(path, panel.file_editors[path].content).dirty(path),
        ({
            let content = panel.file_editors[path].content;
            let saved = panel.save_done(path, content);
            saved.reloaded(path, Some(ReadView { content, writable: true })) == saved
        }),
{
}

/// Unfolding a directory twice changes nothing of what is unfolded.
pub proof fn directories_fold_back(panel: RightPanelView, path: Seq<char>)
    ensures
        panel.unfolding(path).unfolding(path).expanded_paths == panel.expanded_paths,
{
    assert(panel.unfolding(path).unfolding(path).expanded_paths =~= panel.expanded_paths);
}

} // verus!
