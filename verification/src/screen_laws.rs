//! What stands on the screen: labels, counts, and which thing is shown where.
use vstd::prelude::*;

use crate::desk::{wording, wording_with, TextView};
use crate::diff_files::{total_additions, total_deletions, DiffFileView};
use crate::ids::Uuid;
use crate::lines::{decimal, parsed};
use crate::live::DeskView;
use crate::modalities::{modality_icon, modality_word};
use crate::model::{AgentSessionView, QueuedMessageView, SessionWorkspaceView, DEFAULT_TITLE};
use crate::panel_laws::in_front;
use crate::provider_forms::row_for;
use crate::provider_probes::{token_error_text, with_detail};
use crate::provider_types::{
    ConnectivityView, CustomProviderModelView, FirstTokenErrorView, ProviderApiFormat, ProvidersModelEditor,
    ProvidersView,
};
use crate::provider_views::{builtin_summary, shown_modalities};
use crate::providers_page::provider_pos;
use crate::right_panel::RightPanelView;
use crate::settings::{page_pos, ExposureView, SettingsPage, SettingsView};
use crate::sidebar::{place_in_group, SidebarRowView};
use crate::sidebar_views::{branch_beside, labels, TimeLabel};
use crate::submissions::without_queued;
use crate::surfaces::SurfaceView;
use crate::text::trimmed;
use crate::turn_laws::{engaged, running};

verus! {

/// The lines that were added and deleted in all are those of every file together.
pub proof fn changes_add_up(files: Seq<DiffFileView>, file: DiffFileView)
    ensures
        total_additions(files.push(file)) == total_additions(files) + file.additions,
        total_deletions(files.push(file)) == total_deletions(files) + file.deletions,
        total_additions(Seq::empty()) == 0 && total_deletions(Seq::empty()) == 0,
{
    assert(files.push(file).drop_last() =~= files);
}

/// The provider is looked for in the project that is chosen, else in the first.
pub proof fn the_chosen_project_is_looked_in(desk: DeskView)
    ensures
        desk.selected_project() matches Some(project) ==> desk.provider_directory() == Some(project.path),
        desk.selected_project() is None && desk.state.projects.len() > 0 ==> desk.provider_directory() == Some(
            desk.state.projects[0].path,
        ),
        desk.selected_project() is None && desk.state.projects.len() == 0 ==> desk.provider_directory() is None,
        desk.selected_project() is Some ==> desk.state.selected_project is Some,
{
}

/// The keyboard goes to a terminal exactly where its tab is in front, it runs, and it waits for
/// the keyboard.
pub proof fn waiting_terminals_get_the_keyboard(panel: RightPanelView, id: Uuid)
    ensures
        panel.focus_due() == Some(id) <==> in_front(panel, SurfaceView::Terminal(id)) && panel.pending_terminal_focus
            == Some(id) && panel.terminals.dom().contains(id),
{
}

/// A tab is marked as changed exactly where the file that it shows is.
pub proof fn changed_files_mark_their_tab(panel: RightPanelView, path: Seq<char>)
    ensures
        panel.surface_dirty(SurfaceView::File(path)) <==> panel.file_editors.dom().contains(path)
            && panel.file_editors[path].dirty,
        panel.files_selected_path == Some(path) ==> (panel.surface_dirty(SurfaceView::Files)
            <==> panel.file_editors.dom().contains(path) && panel.file_editors[path].dirty),
        panel.files_selected_path is None ==> !panel.surface_dirty(SurfaceView::Files),
        !panel.surface_dirty(SurfaceView::Diff),
{
}

/// What is timed with an answer that was refused says so: that the key is refused, that the
/// model is not there, or else which answer came.
pub proof fn refusals_are_told_apart(status: u16, message: Option<Seq<char>>, timeout: u64)
    ensures
        ({
            let text = token_error_text(FirstTokenErrorView::HttpStatus { status, message }, timeout);
            &&& status == 401 || status == 403 ==> text == wording_with(
                "providers.ttft_error_auth",
                "status",
                decimal(status as nat),
            )
            &&& status == 404 ==> text == wording("providers.ttft_error_model")
            &&& status != 401 && status != 403 && status != 404 ==> text == wording_with(
                "providers.error_status",
                "status",
                decimal(status as nat),
            )
        }),
{
}

/// What a provider said of an error stands behind its wording, where it said anything.
pub proof fn details_stand_behind_the_wording(text: Seq<char>, detail: Seq<char>)
    ensures
        with_detail(text, None) == text,
        detail.len() == 0 ==> with_detail(text, Some(detail)) == text,
        detail.len() > 0 ==> with_detail(text, Some(detail)) == text + " · "@ + detail,
{
}

/// A provider that is built in is tested where it is authorized and there is a workspace, and
/// not while it is being tested.
pub proof fn authorized_providers_can_be_tested(providers: ProvidersView, id: Seq<char>, workspace: bool, state: ConnectivityView)
    ensures
        providers.can_probe_builtin(id, workspace) ==> providers.authorized.contains(id) && workspace,
        providers.authorized.contains(id) && workspace && providers.builtin_probe_id != Some(id)
            ==> providers.can_probe_builtin(id, workspace),
        providers.authorized.contains(id) && workspace && providers.builtin_connectivity is None
            ==> providers.can_probe_builtin(id, workspace),
        !providers.builtin_tested(id, ConnectivityView::Testing).can_probe_builtin(id, workspace),
        providers.builtin_tested(id, state).builtin_connectivity == Some(state),
        providers.builtin_tested(id, state).builtin_probe_id == Some(id),
{
    reveal(ProvidersView::ask);
}

/// Adding a provider begins with an empty form, and with nothing half done on the page.
pub proof fn forms_begin_empty(providers: ProvidersView)
    ensures
        ({
            let after = providers.add_begun();
            &&& after.adding
            &&& after.form.name.len() == 0 && after.form.base_url.len() == 0 && after.form.api_key.len() == 0
            &&& after.form.models.len() == 0 && after.form.format == ProviderApiFormat::OpenAi
            &&& after.form.connectivity is None
            &&& after.form.fetch_generation != providers.form.fetch_generation && after.form.probe_generation
                != providers.form.probe_generation
            &&& !after.renaming && after.delete_arming is None && after.model_editor is None && !after.api_key_revealed
            &&& after.store == providers.store && after.selected == providers.selected
        }),
{
    reveal(ProvidersView::ask);
    reveal(ProvidersView::settled);
}

/// Renaming begins with the name that the provider on screen has.
pub proof fn renaming_begins_with_the_name(providers: ProvidersView, i: int, id: Seq<char>)
    requires
        providers.selected == Some(id),
        provider_pos(providers.store, id) == Some(i),
    ensures
        providers.rename_begun().renaming,
        providers.rename_begun().rename_input == providers.store[i].name,
        providers.rename_begun().store == providers.store,
{
    reveal(ProvidersView::ask);
}

/// The editor of a model begins with what the model has, that of a new one with nothing.
pub proof fn editors_begin_with_their_model(
    providers: ProvidersView,
    i: int,
    id: Seq<char>,
    index: usize,
    window: Seq<char>,
    inputs: Seq<Seq<char>>,
)
    requires
        providers.selected == Some(id),
        provider_pos(providers.store, id) == Some(i),
    ensures
        ({
            let edit = providers.editor_begun(ProvidersModelEditor::Edit(index), window, inputs);
            let new = providers.editor_begun(ProvidersModelEditor::Add, window, inputs);
            &&& index < providers.store[i].models.len() ==> edit.model_editor == Some(ProvidersModelEditor::Edit(index))
                && edit.model_id_input == providers.store[i].models[index as int].id && edit.model_context_input == window
                && edit.model_editor_modalities == inputs
            &&& index >= providers.store[i].models.len() ==> edit == providers
            &&& new.model_editor == Some(ProvidersModelEditor::Add) && new.model_id_input.len() == 0
                && new.model_context_input.len() == 0 && new.model_editor_modalities.len() == 0
            &&& edit.store == providers.store && new.store == providers.store
        }),
{
    reveal(ProvidersView::ask);
    reveal(ProvidersView::editing);
}

/// A row of the form shows the model it was made for, and its window where it has one.
pub proof fn form_rows_show_their_model(model: CustomProviderModelView, window: Seq<char>, key: u64)
    ensures
        ({
            let row = row_for(model, window, key);
            &&& row.key == key && row.id == model.id && row.input_modalities == model.input_modalities
            &&& model.context_window is Some ==> row.context == window
            &&& model.context_window is None ==> row.context.len() == 0
        }),
{
}

/// What a model takes in is what was recorded of it, else what is known of models of its name.
pub proof fn recorded_inputs_come_first(recorded: Seq<Seq<char>>, known: Option<Seq<Seq<char>>>)
    ensures
        recorded.len() > 0 ==> shown_modalities(recorded, known) == recorded,
        recorded.len() == 0 && known is Some ==> shown_modalities(recorded, known) == known->0,
        recorded.len() == 0 && known is None ==> shown_modalities(recorded, known).len() == 0,
{
}

/// What is not known by an icon is shown by its own name, and without an icon.
pub proof fn unknown_inputs_go_by_their_name(input: Seq<char>)
    ensures
        modality_icon(input) is None <==> modality_word(input) is Plain,
        modality_word(input) is Plain ==> modality_word(input) == TextView::Plain(input),
{
}

/// One model is counted as one, more as many; of a provider that is not there none are.
pub proof fn counts_are_worded(count: nat)
    ensures
        builtin_summary(false, count) == wording_with("providers.not_detected_as", "command", "opencode"@),
        builtin_summary(true, 1) == TextView::Key("providers.model_count_one"@, seq![("count"@, decimal(1))]),
        count != 1 ==> builtin_summary(true, count) == TextView::Key(
            "providers.model_count_many"@,
            seq![("count"@, decimal(count))],
        ),
{
}

/// The fields of the daemon can be used where the port is a number from one to 65535 and the
/// settings they give are valid.
pub proof fn valid_fields_give_settings(settings: SettingsView, checked: Result<ExposureView, Seq<char>>)
    ensures
        ({
            let port = parsed(trimmed(settings.port_input), 65535);
            let valid = port is Some && port->0 > 0;
            &&& !valid ==> settings.from_fields(checked) == Err::<ExposureView, TextView>(wording("daemon.invalid_port"))
            &&& valid && checked is Ok ==> settings.from_fields(checked) == Ok::<ExposureView, TextView>(checked->Ok_0)
            &&& valid && checked is Err ==> settings.from_fields(checked) == Err::<ExposureView, TextView>(
                TextView::Plain(checked->Err_0),
            )
            &&& valid ==> settings.port() is Some && settings.port()->0 == port->0
            &&& settings.fields_dirty(checked) <==> !valid || checked is Err || checked->Ok_0.port != settings.exposure.port
                || checked->Ok_0.allowed_origins != settings.exposure.allowed_origins
        }),
{
}

/// The address of the daemon names its machine and its port.
pub proof fn addresses_name_machine_and_port(settings: SettingsView)
    ensures
        settings.url() == "ws://"@ + settings.hostname + ":"@ + decimal(settings.exposure.port as nat),
{
}

/// The page on screen is found among the pages where it first stands.
pub proof fn pages_are_found(pages: Seq<SettingsPage>, page: SettingsPage)
    requires
        pages.len() <= usize::MAX,
    ensures
        match page_pos(pages, page) {
            Some(i) => i < pages.len() && pages[i as int] == page && forall|j: int|
                0 <= j < i ==> #[trigger] pages[j] != page,
            None => !pages.contains(page),
        },
    decreases pages.len(),
{
    if pages.len() > 0 {
        let rest = pages.drop_last();
        pages_are_found(rest, page);
        assert(forall|j: int| 0 <= j < rest.len() ==> rest[j] == #[trigger] pages[j]);
        if page_pos(pages, page) is None && pages.contains(page) {
            let k = pages.index_of(page);
            assert(k < rest.len());
            assert(rest[k] == page);
        }
        if page_pos(rest, page) is None {
            assert forall|j: int| 0 <= j < rest.len() implies #[trigger] pages[j] != page by {
                assert(rest.contains(rest[j]));
            }
        }
    }
}

/// A session at work is labelled with how long its turn runs, another with when it was last
/// replied in, and one without a reply with nothing.
pub proof fn sessions_are_labelled_by_their_time(label: Option<TimeLabel>, s: AgentSessionView, now: u64)
    requires
        labels(label, s, now),
    ensures
        engaged(s) && running(s) && s.turns.last().started_at <= now ==> label == Some(
            TimeLabel::Working((now - s.turns.last().started_at) as u64),
        ),
        !(engaged(s) && running(s)) && s.last_reply_at is None ==> label is None,
        !(engaged(s) && running(s)) && s.last_reply_at is Some ==> label is Some && label->0 is Ago,
{
}

/// The branch beside a session is that of its own copy, else what is known of its directory; a
/// branch that was seen in another directory is not shown.
pub proof fn branches_belong_to_their_directory(
    workspace: SessionWorkspaceView,
    path: Option<Seq<char>>,
    cached: Option<Seq<char>>,
    seen: Seq<char>,
    branch: Option<Seq<char>>,
)
    ensures
        ({
            let shown = branch_beside(workspace, path, cached, Some((seen, branch)));
            &&& workspace is Worktree ==> shown == Some(workspace->Worktree_branch)
            &&& !(workspace is Worktree) && path is None ==> shown is None
            &&& !(workspace is Worktree) && path is Some && cached is Some ==> shown == cached
            &&& !(workspace is Worktree) && path == Some(seen) && cached is None ==> shown == branch
            &&& !(workspace is Worktree) && path is Some && path != Some(seen) && cached is None ==> shown is None
        }),
{
}

/// A session without a name shows the wording for a new task, any other its title.
pub proof fn unnamed_sessions_are_new_tasks(s: AgentSessionView)
    ensures
        s.shown_title() == DEFAULT_TITLE@ ==> s.title_text() == wording("session.new_task"),
        s.shown_title() != DEFAULT_TITLE@ ==> s.title_text() == TextView::Plain(s.shown_title()),
{
}

/// The directory on screen is that of the session on screen.
pub proof fn the_directory_is_the_sessions(desk: DeskView, id: Uuid)
    requires
        desk.state.selected_session == Some(id),
        desk.session(id) is Some,
    ensures
        desk.selected_directory() == desk.state.workspace_path(desk.session(id)->0),
{
}

/// A message that is taken out of a queue by its id is gone, and the others stay in their
/// order.
pub proof fn queues_lose_one_id(queue: Seq<QueuedMessageView>, id: Uuid)
    ensures
        without_queued(queue, id) == queue.filter(|m: QueuedMessageView| m.id != id),
    decreases queue.len(),
{
    reveal(Seq::filter);
    if queue.len() > 0 {
        queues_lose_one_id(queue.drop_last(), id);
    }
}

/// Where a session stands in a group is where it stands among the sessions of that group.
pub proof fn places_are_those_in_the_group(rows: Seq<SidebarRowView>, project_id: Uuid, session_id: Uuid)
    ensures
        place_in_group(rows, project_id, session_id) matches Some((count, i)) ==> exists|k: int|
            0 <= k < rows.len() && ((#[trigger] rows[k]) matches SidebarRowView::Group { project_id: p, sessions, .. } && p
                == project_id && sessions.len() == count && 0 <= i < count && sessions[i] == session_id),
        place_in_group(rows, project_id, session_id) is None ==> forall|k: int|
            0 <= k < rows.len() ==> !((#[trigger] rows[k]) matches SidebarRowView::Group { project_id: p, sessions, .. } && p
                == project_id && sessions.contains(session_id)),
    decreases rows.len(),
{
    if rows.len() > 0 {
        let rest = rows.drop_first();
        places_are_those_in_the_group(rest, project_id, session_id);
        assert(forall|k: int| 0 <= k < rest.len() ==> #[trigger] rest[k] == rows[k + 1]);
        assert(forall|k: int| 0 < k < rows.len() ==> #[trigger] rows[k] == rest[k - 1]);
        if let SidebarRowView::Group { project_id: p, sessions, .. } = rows[0] {
            crate::seqs::lemma_pos(sessions, session_id);
            if sessions.contains(session_id) {
                let j = sessions.index_of(session_id);
                assert(sessions[j] == session_id);
            }
        }
        if place_in_group(rest, project_id, session_id) is Some {
            let (count, i) = place_in_group(rest, project_id, session_id)->0;
            let k = choose|k: int|
                0 <= k < rest.len() && ((#[trigger] rest[k]) matches SidebarRowView::Group { project_id: p, sessions, .. } && p
                    == project_id && sessions.len() == count && 0 <= i < count && sessions[i] == session_id);
            assert(rows[k + 1] == rest[k]);
        }
    }
}

} // verus!
