//! What the tabs, the files and the tree of the right panel come to.
use vstd::prelude::*;

use crate::diff_files::DiffFileView;
use crate::file_editors::{Query, ReadView};
use crate::ids::Uuid;
use crate::panels::{PanelLimits, PanelResizeDrag, PanelResizeTarget, Panels};
use crate::right_panel::{EditorView, PanelEffect, RightPanelView};
use crate::surfaces::{surface_pos, SurfaceView};
use crate::working_tree::{
    directory_rows, entry_of, ordered_children, upto_unfolded, ChildView, TreeWalkView, WorkingTreeEntryView,
};

verus! {

/// The tab at the front.
pub open spec fn in_front(panel: RightPanelView, surface: SurfaceView) -> bool {
    panel.active_surface matches Some(i) && i < panel.surfaces.len() && panel.surfaces[i as int] == surface
}

proof fn lemma_surface_pos(surfaces: Seq<SurfaceView>, wanted: SurfaceView)
    ensures
        match surface_pos(surfaces, wanted) {
            Some(i) => 0 <= i < surfaces.len() && surfaces[i] == wanted,
            None => !surfaces.contains(wanted),
        },
    decreases surfaces.len(),
{
    if surfaces.len() > 0 && surfaces[0] != wanted {
        let rest = surfaces.drop_first();
        lemma_surface_pos(rest, wanted);
        if surface_pos(rest, wanted) is None && surfaces.contains(wanted) {
            let i = surfaces.index_of(wanted);
            assert(rest[i - 1] == wanted);
        }
    }
}

/// What is opened is in front, in a panel that is shown. A file, the list of files or the
/// changes have one tab at most, which is used again; anything else gets a tab of its own, the
/// last. No tab is lost.
pub proof fn opened_tabs_are_in_front(panel: RightPanelView, surface: SurfaceView, width: i32, project: Option<Seq<char>>)
    requires
        panel.surfaces.len() < usize::MAX,
    ensures
        ({
            let after = panel.opened(surface, width, project);
            let once = surface is Files || surface is Diff || surface is File;
            &&& in_front(after, surface)
            &&& after.panels.right_panel_visible
            &&& once && panel.surfaces.contains(surface) ==> after.surfaces == panel.surfaces
            &&& !(once && panel.surfaces.contains(surface)) ==> after.surfaces == panel.surfaces.push(surface)
                && after.active_surface == Some(panel.surfaces.len() as usize)
            &&& after.pending_tab_reveal == after.active_surface
            &&& after.file_editors == panel.file_editors
            &&& after.files_selected_path == panel.files_selected_path
            &&& surface matches SurfaceView::Terminal(id) ==> after.pending_terminal_focus == Some(id)
            &&& !(surface is Terminal) ==> after.pending_terminal_focus is None
            &&& surface is Diff ==> after.effects.contains(PanelEffect::RefreshDiff)
            &&& surface is Files || surface is File ==> after.effects.contains(PanelEffect::RefreshTree)
        }),
{
    lemma_surface_pos(panel.surfaces, surface);
    let after = panel.opened(surface, width, project);
    let n = panel.effects.len() as int;
    if surface is Diff {
        assert(after.effects[n] == PanelEffect::RefreshDiff);
    }
    if surface is Files || surface is File {
        assert(after.effects[n] == PanelEffect::RefreshTree);
    }
}

/// A tab that is closed is gone, and the others stay in their order. The tab in front stays in
/// front, if it is not the one that was closed; else the one before it comes to the front, or
/// the next where it was the first. A terminal ends with its tab.
pub proof fn closed_tabs_are_gone(panel: RightPanelView, index: usize)
    requires
        index < panel.surfaces.len() <= usize::MAX,
        panel.active_surface matches Some(i) && i < panel.surfaces.len(),
    ensures
        ({
            let after = panel.closed(index);
            let old = panel.surfaces;
            let front = panel.active_surface->0;
            &&& after.surfaces == old.take(index as int) + old.skip(index + 1)
            &&& old.len() == 1 ==> after.active_surface is None
            &&& front != index ==> in_front(after, old[front as int])
            &&& front == index && index > 0 ==> in_front(after, old[index - 1])
            &&& front == index && index == 0 && old.len() > 1 ==> in_front(after, old[1])
            &&& old[index as int] matches SurfaceView::Terminal(id) ==> !after.terminals.dom().contains(id)
            &&& forall|id: Uuid|
                old[index as int] != SurfaceView::Terminal(id) ==> (#[trigger] after.terminals.dom().contains(id)
                    == panel.terminals.dom().contains(id))
            &&& after.file_editors == panel.file_editors
        }),
{
    let old = panel.surfaces;
    assert(old.remove(index as int) =~= old.take(index as int) + old.skip(index + 1));
}

/// A file that is opened is the one that is shown. A file that was changed and not saved
/// keeps its tab, or its place in the list of files: it is not replaced.
pub proof fn opened_files_are_shown(panel: RightPanelView, path: Seq<char>, width: i32, project: Option<Seq<char>>)
    requires
        panel.surfaces.len() < usize::MAX,
        panel.active_surface matches Some(i) ==> i < panel.surfaces.len(),
    ensures
        ({
            let after = panel.file_opened(path, width, project);
            let changed = |p: Seq<char>| panel.file_editors.dom().contains(p) && panel.file_editors[p].dirty;
            &&& in_front(after, SurfaceView::File(path)) || (in_front(after, SurfaceView::Files)
                && after.files_selected_path == Some(path))
            &&& after.file_editors == panel.file_editors
            &&& forall|p: Seq<char>| #[trigger] panel.surfaces.contains(SurfaceView::File(p)) && changed(p)
                ==> after.surfaces.contains(SurfaceView::File(p))
            &&& panel.files_selected_path matches Some(p) ==> (changed(p) ==> after.files_selected_path == Some(p) || !in_front(
                panel,
                SurfaceView::Files,
            ))
        }),
{
    let wide = panel.widened(width);
    let wanted = SurfaceView::File(path);
    lemma_surface_pos(wide.surfaces, wanted);
    opened_tabs_are_in_front(wide, wanted, width, project);
    let after = panel.file_opened(path, width, project);
    let old = panel.surfaces;
    assert forall|p: Seq<char>| #[trigger] old.contains(SurfaceView::File(p)) && panel.file_editors.dom().contains(p)
        && panel.file_editors[p].dirty implies after.surfaces.contains(SurfaceView::File(p)) by {
        let k = old.index_of(SurfaceView::File(p));
        if after.surfaces.len() > old.len() {
            assert(after.surfaces[k] == old[k]);
        } else if let Some(active) = panel.active_surface {
            if after.surfaces.len() < old.len() {
                if k < active {
                    assert(after.surfaces[k] == old[k]);
                } else if k > active {
                    assert(after.surfaces[k - 1] == old[k]);
                }
            } else {
                assert(after.surfaces[k] == old[k]);
            }
        } else {
            assert(after.surfaces[k] == old[k]);
        }
    }
}

/// What is typed into a file is what its editor holds, and the file counts as changed exactly
/// where it can be written and differs from what is on disk. No other file is concerned.
pub proof fn typed_text_is_held(panel: RightPanelView, path: Seq<char>, value: Seq<char>)
    requires
        panel.file_editors.dom().contains(path),
    ensures
        ({
            let was = panel.file_editors[path];
            let after = panel.edited(path, value);
            let now = after.file_editors[path];
            &&& now.content == value
            &&& now.disk_content == was.disk_content && now.writable == was.writable
            &&& now.dirty <==> was.writable && value != was.disk_content
            &&& after.file_editors.dom() == panel.file_editors.dom()
            &&& forall|other: Seq<char>| other != path && panel.file_editors.dom().contains(other)
                ==> #[trigger] after.file_editors[other] == panel.file_editors[other]
            &&& after.surfaces == panel.surfaces && after.active_surface == panel.active_surface
        }),
{
    assert(panel.edited(path, value).file_editors.dom() =~= panel.file_editors.dom());
}

/// A file is read into an editor of its own once: what was read is what it holds and what is
/// on disk. One that is open already is let be.
pub proof fn files_are_read_once(panel: RightPanelView, path: Seq<char>, content: Seq<char>, writable: bool)
    ensures
        ({
            let after = panel.editing(path, Some(ReadView { content, writable }));
            &&& panel.file_editors.dom().contains(path) ==> after == panel
            &&& !panel.file_editors.dom().contains(path) ==> after.file_editors[path] == (EditorView {
                content,
                disk_content: content,
                writable,
                dirty: false,
            }) && after.file_editors.dom() == panel.file_editors.dom().insert(path)
        }),
{
}

/// A file that changed on disk is shown as it is there, unless it was changed here.
pub proof fn changes_on_disk_are_shown(panel: RightPanelView, path: Seq<char>, content: Seq<char>, writable: bool)
    requires
        panel.file_editors.dom().contains(path),
    ensures
        ({
            let was = panel.file_editors[path];
            let after = panel.reloaded(path, Some(ReadView { content, writable })).file_editors[path];
            &&& was.dirty ==> after == was
            &&& !was.dirty ==> after.disk_content == content && after.writable == writable && !after.dirty
            &&& !was.dirty && was.disk_content != content ==> after.content == content
        }),
{
}

/// A file that was saved holds on disk what was saved, and its editor what it held.
pub proof fn saved_text_is_on_disk(panel: RightPanelView, path: Seq<char>, content: Seq<char>)
    requires
        panel.file_editors.dom().contains(path),
    ensures
        ({
            let after = panel.save_done(path, content).file_editors;
            &&& after[path].disk_content == content && !after[path].dirty
            &&& after[path].content == panel.file_editors[path].content
            &&& forall|other: Seq<char>| other != path && panel.file_editors.dom().contains(other) ==> #[trigger] after[other]
                == panel.file_editors[other]
        }),
{
}

/// What can be saved is the file that is shown: that of the tab in front, or the one that the
/// list of files has open; it must be open in an editor, and a project must be there.
pub proof fn the_shown_file_is_saved(panel: RightPanelView, project: bool, path: Seq<char>)
    ensures
        panel.savable(project) == Some(path) <==> project && panel.file_editors.dom().contains(path) && (in_front(
            panel,
            SurfaceView::File(path),
        ) || (in_front(panel, SurfaceView::Files) && panel.files_selected_path == Some(path))),
{
}

/// Unfolding a directory shows what is in it, folding it hides that; no other directory is
/// concerned, and the tree is read again.
pub proof fn directories_unfold(panel: RightPanelView, path: Seq<char>, other: Seq<char>)
    requires
        other != path,
    ensures
        ({
            let after = panel.unfolding(path);
            &&& after.expanded_paths.contains(path) != panel.expanded_paths.contains(path)
            &&& after.expanded_paths.contains(other) == panel.expanded_paths.contains(other)
            &&& after.effects.contains(PanelEffect::RefreshTree)
        }),
{
    let after = panel.unfolding(path);
    assert(after.effects[panel.effects.len() as int] == PanelEffect::RefreshTree);
}

/// The tree and the list of changes are what was read, and are empty without a project; while
/// they are read they stay, and what is to be read is asked for.
pub proof fn lists_are_what_was_read(
    panel: RightPanelView,
    rows: Seq<WorkingTreeEntryView>,
    files: Seq<DiffFileView>,
    token: u64,
)
    ensures
        panel.tree_read(true, Query::Ready(rows)).working_tree == rows,
        panel.diff_read(true, Query::Ready(files)).diff_files == files,
        panel.tree_read(false, Query::Ready(rows)).working_tree.len() == 0,
        panel.diff_read(false, Query::Ready(files)).diff_files.len() == 0,
        panel.tree_read(true, Query::Pending) == panel,
        panel.diff_read(true, Query::Pending) == panel,
        panel.tree_read(true, Query::Missing(token)).effects == panel.effects.push(PanelEffect::WalkTree(token)),
        panel.diff_read(true, Query::Missing(token)).effects == panel.effects.push(PanelEffect::CollectDiff(token)),
        panel.tree_read(true, Query::Missing(token)).working_tree == panel.working_tree,
        panel.diff_read(true, Query::Missing(token)).diff_files == panel.diff_files,
{
}

/// A terminal runs in the directory of the project: it is started where it does not, and not
/// again where it does. Without a project there is none.
pub proof fn terminals_run_in_the_project(panel: RightPanelView, id: Uuid, directory: Seq<char>)
    ensures
        ({
            let after = panel.terminal_ensured(id, Some(directory));
            let runs = panel.terminals.dom().contains(id) && panel.terminals[id] == directory;
            &&& after.terminals.dom().contains(id) && after.terminals[id] == directory
            &&& runs ==> after == panel
            &&& !runs ==> after.effects == panel.effects.push(PanelEffect::StartTerminal(id))
            &&& !panel.terminal_ensured(id, None).terminals.dom().contains(id)
        }),
{
}

/// A row of the tree stands one level below its directory's, under its own name, unfolded
/// where its directory is; a file shows an icon, a directory none.
pub proof fn rows_stand_below_their_directory(child: ChildView, directory: Seq<char>, depth: usize, expanded: Set<Seq<char>>)
    ensures
        ({
            let row = entry_of(child, directory, depth, expanded);
            &&& row.name == child.name && row.absolute_path == child.path && row.is_dir == child.is_dir
            &&& row.depth == depth
            &&& row.relative_path == (if directory.len() == 0 {
                child.name
            } else {
                directory + seq!['/'] + child.name
            })
            &&& row.expanded <==> child.is_dir && expanded.contains(child.path)
            &&& (row.file_icon is Some) == !child.is_dir
        }),
{
}

/// Walking on loses no row and changes none: those reached and those ahead are the same rows in
/// the same order, and the walk stops behind the first directory that is unfolded, or at the
/// end.
pub proof fn walks_lose_no_row(walk: TreeWalkView)
    ensures
        ({
            let after = walk.advanced();
            &&& after.entries + after.ahead == walk.entries + walk.ahead
            &&& after.entries.len() >= walk.entries.len()
            &&& forall|k: int|
                walk.entries.len() <= k < after.entries.len() - 1 ==> !(#[trigger] after.entries[k]).expanded
            &&& after.ahead.len() > 0 ==> after.entries.len() > walk.entries.len() && after.entries.last().expanded
            &&& walk.next_directory() matches Some(row) ==> row.expanded && after.entries.len() > 0 && after.entries.last()
                == row
            &&& walk.next_directory() is None ==> after.ahead.len() == 0
        }),
{
    lemma_upto_unfolded(walk.ahead);
    let n = upto_unfolded(walk.ahead) as int;
    let after = walk.advanced();
    assert(walk.ahead.take(n) + walk.ahead.skip(n) =~= walk.ahead);
    assert(after.entries + after.ahead =~= walk.entries + walk.ahead);
}

proof fn lemma_upto_unfolded(rows: Seq<WorkingTreeEntryView>)
    ensures
        upto_unfolded(rows) <= rows.len(),
        rows.len() > 0 ==> upto_unfolded(rows) > 0,
        forall|k: int| 0 <= k < upto_unfolded(rows) - 1 ==> !(#[trigger] rows[k]).expanded,
        upto_unfolded(rows) < rows.len() ==> rows[upto_unfolded(rows) - 1].expanded,
    decreases rows.len(),
{
    if rows.len() > 0 && !rows[0].expanded {
        let rest = rows.drop_first();
        lemma_upto_unfolded(rest);
        assert(forall|k: int| 0 < k < rows.len() ==> #[trigger] rows[k] == rest[k - 1]);
    }
}

/// The rows of a directory that is entered come next, before those that were ahead.
pub proof fn entered_rows_come_next(
    walk: TreeWalkView,
    children: Seq<ChildView>,
    directory: Seq<char>,
    depth: usize,
    expanded: Set<Seq<char>>,
)
    ensures
        ({
            let after = walk.entered(children, directory, depth, expanded);
            let rows = after.ahead.len() - walk.ahead.len();
            &&& after.entries == walk.entries
            &&& rows == ordered_children(children).len()
            &&& after.ahead.skip(rows) == walk.ahead
            &&& forall|k: int|
                0 <= k < rows ==> (#[trigger] after.ahead[k]).name == ordered_children(children)[k].name
                    && after.ahead[k].depth == depth
        }),
{
    let after = walk.entered(children, directory, depth, expanded);
    let rows = directory_rows(children, directory, depth, expanded);
    assert(after.ahead.skip(rows.len() as int) =~= walk.ahead);
}

/// A border follows the mouse while the width it gives is within the limits and there is room.
pub proof fn borders_follow_the_mouse(
    panels: Panels,
    drag: PanelResizeDrag,
    mouse_x: i32,
    viewport: i32,
    fitted: (i32, i32),
    limits: PanelLimits,
)
    requires
        panels.drag == Some(drag),
    ensures
        ({
            let width = panels.asked_width(mouse_x, viewport, fitted, limits);
            let moved = mouse_x - drag.start_mouse_x;
            let right = drag.start_width + moved;
            let left = drag.start_width - moved;
            &&& drag.target == PanelResizeTarget::Sidebar && limits.sidebar_min <= right <= limits.sidebar_max && right
                <= viewport - limits.main_min - fitted.1 ==> width == right
            &&& drag.target == PanelResizeTarget::RightPanel && limits.right_panel_min <= left <= limits.right_panel_max
                && left <= viewport - limits.main_min - fitted.0 ==> width == left
            &&& drag.target == PanelResizeTarget::FileTree && limits.file_tree_min <= left <= limits.file_tree_max && left
                <= fitted.1 - limits.file_editor_min ==> width == left
        }),
{
}

} // verus!
