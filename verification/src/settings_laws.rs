//! What the settings do, and how one gets from one screen to another.
use vstd::prelude::*;

use crate::desk::{lemma_put_get, lemma_session_id, wording, wording_with, StateView};
use crate::file_types::holds;
use crate::ids::{Stamp, Uuid};
use crate::lines::decimal;
use crate::live::DeskView;
use crate::model::{AgentSessionView, ProjectView, SessionStatus};
use crate::settings::{found, next_row, ExposureView, NoteView, SettingsEffect, SettingsPage, SettingsView};
use crate::shell::{path_pos, FintwindView, Screen};
use crate::working_tree::lowercase;

verus! {

/// A page of the settings that is opened is on screen, from its top, with the token masked; the
/// pages that show what is read are brought up to date.
pub proof fn opened_pages_are_on_screen(settings: SettingsView, page: SettingsPage)
    ensures
        ({
            let after = settings.opened(page);
            let n = settings.effects.len() as int;
            &&& after.page == Some(page) && after.scroll == 0 && !after.token_revealed
            &&& after == (SettingsView { page: Some(page), scroll: 0, token_revealed: false, effects: after.effects, ..settings })
            &&& page == SettingsPage::Skills ==> after.effects[n] == SettingsEffect::EnsureSkills
            &&& page == SettingsPage::Providers ==> after.effects[n] == SettingsEffect::ResetProviders
            &&& page == SettingsPage::McpServers ==> after.effects[n] == SettingsEffect::ResetMcpServers
            &&& after.effects.last() == SettingsEffect::Notify
        }),
{
}

/// A search finds the pages whose words hold what is searched for, in the order of the pages,
/// and no other; without a search all are found.
pub proof fn searches_find_by_words(query: Seq<char>, pages: Seq<SettingsPage>, words: Seq<Seq<char>>) -> (at: Seq<int>)
    requires
        words.len() == pages.len(),
    ensures
        ({
            let shown = found(query, pages, words);
            &&& at.len() == shown.len()
            &&& forall|i: int, j: int| 0 <= i < j < at.len() ==> #[trigger] at[i] < #[trigger] at[j]
            &&& forall|i: int| 0 <= i < at.len() ==> 0 <= #[trigger] at[i] < pages.len() && shown[i] == pages[at[i]]
            &&& forall|k: int|
                0 <= k < pages.len() ==> (#[trigger] at.contains(k) <==> query.len() == 0 || holds(lowercase(words[k]), query))
        }),
    decreases pages.len(),
{
    if pages.len() == 0 {
        Seq::empty()
    } else {
        let n = pages.len() - 1;
        let rest = pages.drop_last();
        let cut = words.take(n);
        let before = searches_find_by_words(query, rest, cut);
        let shown = found(query, pages, words);
        let fewer = found(query, rest, cut);
        let after = if shown.len() > fewer.len() {
            before.push(n)
        } else {
            before
        };
        assert forall|i: int| 0 <= i < after.len() implies 0 <= #[trigger] after[i] < pages.len() && shown[i] == pages[after[i]] by {
            if i < before.len() {
                assert(after[i] == before[i]);
                assert(shown[i] == fewer[i]);
                assert(rest[before[i]] == pages[before[i]]);
            }
        }
        assert forall|k: int| 0 <= k < pages.len() implies (#[trigger] after.contains(k) <==> query.len() == 0
            || holds(lowercase(words[k]), query)) by {
            if k < n {
                assert(cut[k] == words[k]);
                assert(before.contains(k) <==> after.contains(k)) by {
                    if before.contains(k) {
                        let j = before.index_of(k);
                        assert(after[j] == k);
                    }
                    if after.contains(k) {
                        let j = after.index_of(k);
                        assert(before[j] == k);
                    }
                }
            } else {
                if shown.len() > fewer.len() {
                    assert(after[before.len() as int] == k);
                } else if after.contains(k) {
                    let j = after.index_of(k);
                    assert(before[j] < n);
                }
            }
        }
        after
    }
}

/// The keys walk through the rows one by one and round the ends: down leads to the next and
/// from the last to the first, up to the one before and from the first to the last.
pub proof fn keys_walk_round(current: usize, len: nat, key: Seq<char>)
    requires
        current < len,
    ensures
        key == "down"@ && current + 1 < len ==> next_row(Some(current), len, key) == Some(current + 1),
        key == "down"@ && current + 1 == len ==> next_row(Some(current), len, key) == Some(0int),
        key == "up"@ && key != "down"@ && current > 0 ==> next_row(Some(current), len, key) == Some(current - 1),
        key == "up"@ && key != "down"@ && current == 0 ==> next_row(Some(current), len, key) == Some(len - 1),
        key != "up"@ && key != "down"@ ==> next_row(Some(current), len, key) is None,
{
}

/// The fields of the daemon are put to use where nothing hinders: nothing is under way, the
/// settings differ, the daemon is this machine's and no task runs. A daemon that is or was to
/// be reached is started again; else the settings are kept at once.
pub proof fn exposure_is_put_to_use(settings: SettingsView, wanted: ExposureView, stopped: bool)
    ensures
        ({
            let after = settings.applying(wanted, stopped);
            let idle = settings.reconfigure_pending || wanted == settings.exposure;
            let free = !idle && !settings.remote && stopped;
            let n = settings.effects.len() as int;
            &&& idle ==> after == settings
            &&& !idle && !free ==> after.exposure == settings.exposure && !after.reconfigure_pending && after.effects
                == settings.effects && after.toast is Some && !after.toast->0.good
            &&& free && !settings.exposure.enabled && !wanted.enabled ==> after.exposure == wanted
                && !after.reconfigure_pending && after.effects[n] == SettingsEffect::Save
            &&& free && (settings.exposure.enabled || wanted.enabled) ==> after.reconfigure_pending && after.exposure
                == settings.exposure && after.effects[n] == SettingsEffect::Reconfigure
        }),
{
}

/// Once the daemon runs with new settings they are the settings, and the fields show them; a
/// daemon that could not be started leaves them as they were. Either way nothing is under way.
pub proof fn restarts_settle_the_exposure(settings: SettingsView, applied: ExposureView, origins: Seq<char>, error: Seq<char>)
    ensures
        ({
            let done = settings.reconfigured(applied, origins);
            let failed = settings.reconfigure_failed(error);
            &&& !done.reconfigure_pending && done.exposure == applied && done.port_input == decimal(applied.port as nat)
                && done.origins_input == origins
            &&& done.effects[settings.effects.len() as int] == SettingsEffect::ClearRuntimes
            &&& done.effects[settings.effects.len() as int + 1] == SettingsEffect::Save
            &&& done.toast == Some(NoteView { good: true, text: wording("daemon.settings_applied"), error: None })
            &&& !failed.reconfigure_pending && failed.exposure == settings.exposure && failed.port_input
                == settings.port_input
            &&& failed.toast == Some(
                NoteView { good: false, text: wording_with("daemon.restart_failed", "error", error), error: None },
            )
        }),
{
}

/// A language or a theme that is chosen is the one in use, and is saved; choosing the one in
/// use does nothing.
pub proof fn chosen_looks_are_in_use(settings: SettingsView, language: Seq<char>, theme: Seq<char>)
    ensures
        settings.speaking(language).language == language,
        settings.themed(theme).theme == theme,
        settings.language == language ==> settings.speaking(language) == settings,
        settings.theme == theme ==> settings.themed(theme) == settings,
        settings.language != language ==> settings.speaking(language).effects.contains(SettingsEffect::ApplyLanguage)
            && settings.speaking(language).effects.contains(SettingsEffect::Save),
        settings.theme != theme ==> settings.themed(theme).effects.contains(SettingsEffect::ApplyTheme) && settings.themed(
            theme,
        ).effects.contains(SettingsEffect::Save),
        settings.speaking(language).theme == settings.theme,
        settings.themed(theme).language == settings.language,
{
    let n = settings.effects.len() as int;
    if settings.language != language {
        assert(settings.speaking(language).effects[n] == SettingsEffect::ApplyLanguage);
        assert(settings.speaking(language).effects[n + 5] == SettingsEffect::Save);
    }
    if settings.theme != theme {
        assert(settings.themed(theme).effects[n] == SettingsEffect::ApplyTheme);
        assert(settings.themed(theme).effects[n + 1] == SettingsEffect::Save);
    }
}

/// Of a directory that is a project already no project comes to be; another becomes a project,
/// the last, and the other projects stay.
pub proof fn directories_become_projects_once(
    desk: DeskView,
    path: Seq<char>,
    name: Seq<char>,
    projectless: bool,
    project: Stamp,
    session: Stamp,
)
    requires
        desk.session(session.id) is None,
    ensures
        ({
            let after = desk.project_added(path, name, projectless, project, session);
            let old = desk.state.projects;
            let known = exists|k: int| 0 <= k < old.len() && (#[trigger] old[k]).path == path;
            &&& known ==> after.state.projects == old
            &&& !known ==> after.state.projects.len() == old.len() + 1 && after.state.projects.drop_last() == old
                && after.state.projects.last().path == path && after.state.projects.last().name == name
                && after.state.projects.last().id == project.id && after.state.projects.last().projectless == projectless
        }),
{
    let old = desk.state.projects;
    lemma_path_pos(old, path);
    match path_pos(old, path) {
        Some(i) => {
            let chosen = DeskView { state: StateView { selected_project: Some(old[i].id), ..desk.state }, ..desk };
            lemma_created_projects(chosen, old[i].id, desk.state.prefs.last_provider, session);
        },
        None => {
            let grown = desk.with_project(ProjectView::in_directory(path, name, projectless, project));
            lemma_created_projects(grown, project.id, desk.state.prefs.last_provider, session);
            assert(grown.state.projects.drop_last() =~= old);
        },
    }
}

proof fn lemma_created_projects(desk: DeskView, project_id: Uuid, provider: crate::model::ProviderKind, stamp: Stamp)
    ensures
        desk.session_created(project_id, provider, stamp).state.projects == desk.state.projects,
{
}

proof fn lemma_path_pos(projects: Seq<ProjectView>, path: Seq<char>)
    ensures
        match path_pos(projects, path) {
            Some(i) => 0 <= i < projects.len() && projects[i].path == path,
            None => forall|k: int| 0 <= k < projects.len() ==> (#[trigger] projects[k]).path != path,
        },
    decreases projects.len(),
{
    if projects.len() > 0 && projects[0].path != path {
        let rest = projects.drop_first();
        lemma_path_pos(rest, path);
        assert(forall|k: int| 0 < k < projects.len() ==> #[trigger] projects[k] == rest[k - 1]);
    }
}

/// Going back leads to the session that was left last, and going forward to the one that was
/// gone back from last; the session on screen can be returned to either way. The settings are
/// left first, and are not gone forward from.
pub proof fn steps_lead_through_the_history(app: FintwindView, current: Uuid)
    requires
        app.desk.state.selected_session == Some(current),
    ensures
        ({
            let back = app.back();
            let forward = app.forward();
            let nav = app.desk.navigation;
            &&& app.settings.page is Some ==> back.settings.page is None && back.desk == app.desk && back.focused == Some(
                app.composer,
            ) && forward == app
            &&& app.settings.page is None && nav.back.len() > 0 ==> back.desk.state.selected_session == Some(nav.back.last())
                && back.desk.navigation.back == nav.back.drop_last() && back.desk.navigation.forward == nav.forward.push(
                current,
            )
            &&& app.settings.page is None && nav.forward.len() > 0 ==> forward.desk.state.selected_session == Some(
                nav.forward.last(),
            ) && forward.desk.navigation.forward == nav.forward.drop_last() && forward.desk.navigation.back
                == nav.back.push(current)
            &&& app.settings.page is None && nav.back.len() == 0 ==> back == app
            &&& app.settings.page is None && nav.forward.len() == 0 ==> forward == app
        }),
{
}

/// The settings fill the screen while they are open; else it shows the conversation, with the
/// panels that are visible, and the composer where there is a project.
pub proof fn settings_fill_the_screen(app: FintwindView)
    ensures
        app.settings.page is Some <==> app.screen() == Screen::Settings,
        app.settings.page is None ==> app.screen() is Main && app.screen()->sidebar
            == app.right_panel.panels.sidebar_visible && app.screen()->right_panel
            == app.right_panel.panels.right_panel_visible,
        app.settings.page is None && app.desk.state.selected_session is None ==> app.screen()->empty,
        forall|id: Uuid|
            app.settings.page is None && app.desk.state.selected_session == Some(id) && app.desk.session(id) is Some
                ==> app.screen()->empty == ((#[trigger] app.desk.session(id))->0.messages.len() == 0),
{
}

/// A session whose question was answered is at work again, and nothing else of it changes.
pub proof fn answered_sessions_go_on(desk: DeskView, id: Uuid)
    requires
        desk.session(id) is Some,
    ensures
        desk.resumed(id).session(id) == Some(AgentSessionView { status: SessionStatus::Working, ..desk.session(id)->0 }),
        desk.resumed(id).effects == desk.effects,
{
    lemma_session_id(desk.state, id);
    lemma_put_get(desk.state, id, AgentSessionView { status: SessionStatus::Working, ..desk.session(id)->0 });
}

} // verus!
