//! What is looked up, counted and drawn.
use vstd::prelude::*;

use crate::computer_use::{brought_forward, preview_pos, without_window, ComputerUsePreview};
use crate::desk::{lemma_session_id, project_ids, session_ids, StateView};
use crate::file_types::after_slash;
use crate::ids::Uuid;
use crate::model::{AgentSessionView, SessionWorkspaceView, DEFAULT_TITLE};
use crate::panel_laws::in_front;
use crate::panel_views::{height_of, line_count, line_top, numbers_drawn, row_of, PanelBodyView};
use crate::probes::OPENCODE_PROVIDER;
use crate::provider_types::{ProviderFormModelDraftView, ProvidersModelEditor, ProvidersView};
use crate::provider_views::{dots, latency_text, model_rows, named_drafts, ModelRow, ProviderDetail};
use crate::providers_page::provider_pos;
use crate::right_panel::RightPanelView;
use crate::seqs::{first_at, lemma_pos, lemma_pos_some, pos};
use crate::surfaces::SurfaceView;
use crate::text::trimmed;
use crate::working_tree::WorkingTreeEntryView;

verus! {

/// A session is found by its id exactly where one is there, and it is the first that bears the
/// id.
pub proof fn sessions_are_found_by_id(state: StateView, id: Uuid, i: int)
    ensures
        state.session(id) is Some <==> exists|k: int| 0 <= k < state.sessions.len() && (#[trigger] state.sessions[k]).id == id,
        0 <= i < state.sessions.len() && state.sessions[i].id == id && (forall|j: int|
            0 <= j < i ==> (#[trigger] state.sessions[j]).id != id) ==> state.session(id) == Some(state.sessions[i]),
{
    let ids = session_ids(state.sessions);
    lemma_pos(ids, id);
    assert(forall|k: int| 0 <= k < ids.len() ==> ids[k] == (#[trigger] state.sessions[k]).id);
    if let Some(k) = pos(ids, id) {
        assert(state.sessions[k].id == id);
    }
    if 0 <= i < state.sessions.len() && state.sessions[i].id == id && (forall|j: int|
        0 <= j < i ==> (#[trigger] state.sessions[j]).id != id) {
        assert forall|j: int| 0 <= j < i implies ids[j] != id by {
            assert(ids[j] == state.sessions[j].id);
        }
        assert(ids[i] == state.sessions[i].id);
        assert(first_at(ids, id, i));
        lemma_pos_some(ids, id, i);
    }
}

/// A project is found by its id in the same way.
pub proof fn projects_are_found_by_id(state: StateView, id: Uuid, i: int)
    ensures
        state.project(id) is Some <==> exists|k: int| 0 <= k < state.projects.len() && (#[trigger] state.projects[k]).id == id,
        0 <= i < state.projects.len() && state.projects[i].id == id && (forall|j: int|
            0 <= j < i ==> (#[trigger] state.projects[j]).id != id) ==> state.project(id) == Some(state.projects[i]),
{
    let ids = project_ids(state.projects);
    lemma_pos(ids, id);
    assert(forall|k: int| 0 <= k < ids.len() ==> ids[k] == (#[trigger] state.projects[k]).id);
    if let Some(k) = pos(ids, id) {
        assert(state.projects[k].id == id);
    }
    if 0 <= i < state.projects.len() && state.projects[i].id == id && (forall|j: int|
        0 <= j < i ==> (#[trigger] state.projects[j]).id != id) {
        assert forall|j: int| 0 <= j < i implies ids[j] != id by {
            assert(ids[j] == state.projects[j].id);
        }
        assert(ids[i] == state.projects[i].id);
        assert(first_at(ids, id, i));
        lemma_pos_some(ids, id, i);
    }
}

/// A session that is put takes the place of the one of its id, is saved next, and no other
/// session moves or changes.
pub proof fn put_sessions_replace_one(state: StateView, id: Uuid, session: AgentSessionView, k: int)
    requires
        state.session(id) is Some,
        0 <= k < state.sessions.len(),
    ensures
        ({
            let after = state.put(id, session);
            &&& after.sessions.len() == state.sessions.len()
            &&& state.sessions[k].id != id ==> after.sessions[k] == state.sessions[k]
            &&& after.sessions.contains(session)
            &&& after.dirty == state.dirty.insert(id)
            &&& after.projects == state.projects && after.selected_session == state.selected_session
        }),
{
    lemma_session_id(state, id);
    let i = state.at(id)->0;
    assert(state.put(id, session).sessions[i] == session);
}

/// A session works in its own copy of the project, where it has one, else in the project's
/// directory; without a project it works nowhere.
pub proof fn sessions_work_in_their_copy(state: StateView, session: AgentSessionView)
    ensures
        state.project(session.project_id) is None ==> state.workspace_path(session) is None,
        state.project(session.project_id) matches Some(project) ==> {
            &&& session.workspace matches SessionWorkspaceView::Worktree { path, .. } ==> state.workspace_path(session) == Some(
                path,
            )
            &&& !(session.workspace is Worktree) ==> state.workspace_path(session) == Some(project.path)
        },
{
}

/// The title that is shown is the user's; while the user gave none it is the provider's
/// suggestion, where there is one.
pub proof fn given_titles_are_shown(session: AgentSessionView)
    ensures
        session.title != DEFAULT_TITLE@ ==> session.shown_title() == session.title,
        session.title == DEFAULT_TITLE@ && session.auto_title is Some ==> session.shown_title() == session.auto_title->0,
        session.title == DEFAULT_TITLE@ && session.auto_title is None ==> session.shown_title() == session.title,
{
}

/// Dismissing a window leaves the pictures of every other, in their order.
pub proof fn other_windows_stay(previews: Seq<ComputerUsePreview>, window_id: u32)
    ensures
        without_window(previews, window_id) == previews.filter(|p: ComputerUsePreview| p.window_id != Some(window_id)),
    decreases previews.len(),
{
    reveal(Seq::filter);
    if previews.len() > 0 {
        other_windows_stay(previews.drop_last(), window_id);
    }
}

/// Bringing a window forward makes its first picture the last, and leaves the others in their
/// order; a window without a picture changes nothing.
pub proof fn windows_come_forward(previews: Seq<ComputerUsePreview>, window_id: u32, i: int)
    ensures
        0 <= i < previews.len() && previews[i].window_id == Some(window_id) && (forall|j: int|
            0 <= j < i ==> (#[trigger] previews[j]).window_id != Some(window_id)) ==> brought_forward(previews, window_id)
            == previews.take(i) + previews.skip(i + 1) + seq![previews[i]],
        (forall|j: int| 0 <= j < previews.len() ==> (#[trigger] previews[j]).window_id != Some(window_id)) ==> brought_forward(
            previews,
            window_id,
        ) == previews,
{
    lemma_preview_at(previews, window_id, i);
    if 0 <= i < previews.len() {
        assert(previews.remove(i).push(previews[i]) =~= previews.take(i) + previews.skip(i + 1) + seq![previews[i]]);
    }
}

proof fn lemma_preview_at(previews: Seq<ComputerUsePreview>, window_id: u32, i: int)
    ensures
        0 <= i < previews.len() && previews[i].window_id == Some(window_id) && (forall|j: int|
            0 <= j < i ==> (#[trigger] previews[j]).window_id != Some(window_id)) ==> preview_pos(previews, window_id)
            == Some(i),
        (forall|j: int| 0 <= j < previews.len() ==> (#[trigger] previews[j]).window_id != Some(window_id)) ==> preview_pos(
            previews,
            window_id,
        ) is None,
    decreases previews.len(),
{
    if previews.len() > 0 {
        let rest = previews.drop_first();
        lemma_preview_at(rest, window_id, i - 1);
        assert(forall|j: int| 0 <= j < rest.len() ==> #[trigger] rest[j] == previews[j + 1]);
        assert(previews[0] == previews.first());
    }
}

/// What the panel shows is what the tab in front stands for: its file, the tree or the file
/// that is open in it, the changes, or the terminal where it runs; without a tab, what there
/// is to choose from.
pub proof fn the_tab_in_front_is_shown(panel: RightPanelView, path: Seq<char>, id: Uuid)
    ensures
        panel.active_surface is None ==> panel.body() == PanelBodyView::Chooser,
        in_front(panel, SurfaceView::File(path)) ==> panel.body() == PanelBodyView::File(path),
        in_front(panel, SurfaceView::Files) && panel.files_selected_path == Some(path) ==> panel.body()
            == PanelBodyView::File(path),
        in_front(panel, SurfaceView::Files) && panel.files_selected_path is None ==> panel.body()
            == PanelBodyView::WorkingTree,
        in_front(panel, SurfaceView::Diff) ==> panel.body() == PanelBodyView::Diff,
        in_front(panel, SurfaceView::Terminal(id)) ==> (panel.body() == PanelBodyView::Terminal(id)
            <==> panel.terminals.dom().contains(id)),
{
}

/// A row of the tree is moved in by its depth, shows whether its directory is unfolded, and is
/// marked exactly where its file is the one that is open.
pub proof fn tree_rows_show_their_entry(entry: WorkingTreeEntryView, selected: Option<Seq<char>>)
    ensures
        ({
            let (marked, chevron, indent) = row_of(entry, selected);
            &&& marked <==> selected == Some(entry.relative_path)
            &&& (chevron is Some) == entry.is_dir
            &&& entry.is_dir && entry.expanded ==> chevron == Some("icons/chevron-down.svg"@)
            &&& entry.is_dir && !entry.expanded ==> chevron == Some("icons/chevron-right.svg"@)
            &&& indent == 8 + 16 * entry.depth
        }),
{
}

/// A text has a line more than it has line breaks.
pub proof fn lines_are_counted_by_breaks(s: Seq<char>)
    ensures
        line_count(s) == 1 + s.filter(|c: char| c == '\n').len(),
    decreases s.len(),
{
    reveal(Seq::filter);
    if s.len() > 0 {
        lines_are_counted_by_breaks(s.drop_last());
    }
}

/// Each line stands right below the one before it.
pub proof fn lines_stand_one_below_the_other(top: int, heights: Seq<i64>, number: int)
    requires
        number >= 1,
    ensures
        line_top(top, heights, 1) == top,
        line_top(top, heights, number + 1) == line_top(top, heights, number) + (if number <= heights.len() {
            heights[number - 1] as int
        } else {
            1024int
        }),
{
}

/// A number is drawn only beside its own line, and only where the line is in sight.
pub proof fn numbers_stand_beside_their_line(count: int, top: int, heights: Seq<i64>, seen: (int, int))
    ensures
        forall|k: int|
            0 <= k < numbers_drawn(count, top, heights, seen).len() ==> {
                let (number, y) = #[trigger] numbers_drawn(count, top, heights, seen)[k];
                &&& 1 <= number <= count
                &&& y == line_top(top, heights, number)
                &&& y <= seen.1
                &&& y + height_of(heights, number) >= seen.0
            },
    decreases count,
{
    if count > 0 {
        numbers_stand_beside_their_line(count - 1, top, heights, seen);
        let before = numbers_drawn(count - 1, top, heights, seen);
        let after = numbers_drawn(count, top, heights, seen);
        assert forall|k: int| 0 <= k < after.len() implies {
            let (number, y) = #[trigger] after[k];
            &&& 1 <= number <= count
            &&& y == line_top(top, heights, number)
            &&& y <= seen.1
            &&& y + height_of(heights, number) >= seen.0
        } by {
            if k < before.len() {
                assert(after[k] == before[k]);
            }
        }
    }
}

/// A key that is hidden shows a dot for each of its characters, thirty-six at most.
pub proof fn hidden_keys_show_dots(n: nat, k: int)
    ensures
        n <= 36 ==> dots(n).len() == n,
        n > 36 ==> dots(n).len() == 36,
        0 <= k < dots(n).len() ==> dots(n)[k] == '•',
{
}

/// Every model of a provider has a row in its place; the one that is edited shows the fields
/// instead. All but the first have a line above them.
pub proof fn models_have_their_row(count: nat, editor: Option<ProvidersModelEditor>)
    requires
        count <= usize::MAX,
    ensures
        model_rows(count, editor).len() == count,
        forall|k: int|
            0 <= k < count ==> (#[trigger] model_rows(count, editor)[k]) == (if editor == Some(
                ProvidersModelEditor::Edit(k as usize),
            ) {
                ModelRow::Editor { separator: k > 0 }
            } else {
                ModelRow::Model { index: k as usize, separator: k > 0 }
            }),
    decreases count,
{
    if count > 0 {
        models_have_their_row((count - 1) as nat, editor);
    }
}

/// The rows of a form that name a model are counted.
pub proof fn named_rows_are_counted(drafts: Seq<ProviderFormModelDraftView>)
    ensures
        named_drafts(drafts) == drafts.filter(|d: ProviderFormModelDraftView| trimmed(d.id).len() > 0).len(),
    decreases drafts.len(),
{
    reveal(Seq::filter);
    if drafts.len() > 0 {
        named_rows_are_counted(drafts.drop_last());
    }
}

/// The page of providers shows the form while a provider is added, else the provider that was
/// chosen where it is in the list, else the one that is built in.
pub proof fn the_chosen_provider_is_shown(providers: ProvidersView, id: Seq<char>, i: int)
    ensures
        providers.adding ==> providers.detail() == ProviderDetail::Form,
        !providers.adding && providers.selected is None ==> providers.detail() == ProviderDetail::Builtin,
        !providers.adding && providers.selected == Some(id) && id != OPENCODE_PROVIDER@ && provider_pos(providers.store, id)
            == Some(i) ==> providers.detail() == ProviderDetail::Custom(i as usize),
        !providers.adding && providers.selected == Some(id) && provider_pos(providers.store, id) is None
            ==> providers.detail() == ProviderDetail::Builtin,
        !providers.adding && providers.selected == Some(OPENCODE_PROVIDER@) ==> providers.detail() == ProviderDetail::Builtin,
{
}

/// A time under a second is told in whole milliseconds, a longer one in seconds.
pub proof fn short_times_are_told_in_milliseconds(nanos: u64, ms: u64, seconds: Seq<char>)
    ensures
        ms < 1000 && 1_000_000 * ms <= nanos < 1_000_000 * (ms + 1) ==> latency_text(nanos, seconds) == crate::lines::decimal(
            ms as nat,
        ) + " ms"@,
        nanos >= 1_000_000_000 ==> latency_text(nanos, seconds) == seconds + " s"@,
{
    if ms < 1000 && 1_000_000 * ms <= nanos < 1_000_000 * (ms + 1) {
        assert(nanos / 1_000_000 == ms);
    }
}

/// The name of a path is what stands behind its last slash.
pub proof fn names_stand_behind_the_slash(directory: Seq<char>, name: Seq<char>)
    requires
        !name.contains('/'),
    ensures
        after_slash(name) == name,
        after_slash(directory.push('/') + name) == name,
    decreases name.len(),
{
    let path = directory.push('/') + name;
    if name.len() == 0 {
        assert(path.last() == '/');
        assert(after_slash(path) =~= name);
        assert(after_slash(name) =~= name);
    } else {
        let rest = name.drop_last();
        assert(name.contains(name[name.len() - 1]));
        assert forall|k: int| 0 <= k < rest.len() implies rest[k] != '/' by {
            assert(name.contains(name[k]));
        }
        names_stand_behind_the_slash(directory, rest);
        assert(path.drop_last() =~= directory.push('/') + rest);
        assert(path.last() == name.last());
        assert(rest.push(name.last()) =~= name);
    }
}

} // verus!
