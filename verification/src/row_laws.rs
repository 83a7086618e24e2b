//! What the sidebar shows of the history, and what is noted of the reports that come in.
use vstd::prelude::*;

use crate::desk::{lemma_put_get, lemma_session_id, wording, wording_with, EffectView};
use crate::events::DriverEvent;
use crate::ids::{Stamp, Uuid};
use crate::lines::decimal;
use crate::live::DeskView;
use crate::model::{AgentSessionView, ProjectView};
use crate::pump::{notes, upto_exit, Totals};
use crate::sidebar::{body_height, history_rows, rows_alike, scroll_target, SidebarRowView};
use crate::sidebar_views::{offered, time_ago};
use crate::submissions::background_only;
use crate::text::{blank, trimmed};
use crate::turn_laws::{engaged, running};

verus! {

/// The sidebar shows the search first, and then every group in its order, each with a space
/// behind it, unfolded exactly where its project is.
pub proof fn every_group_has_its_row(groups: Seq<(Uuid, Seq<Uuid>)>, expanded: Set<Uuid>)
    ensures
        ({
            let rows = history_rows(groups, expanded);
            &&& rows.len() == 1 + 2 * groups.len()
            &&& rows[0] == SidebarRowView::Search
            &&& forall|k: int|
                0 <= k < groups.len() ==> rows[1 + 2 * k] == (SidebarRowView::Group {
                    project_id: (#[trigger] groups[k]).0,
                    sessions: groups[k].1,
                    unfolded: expanded.contains(groups[k].0),
                }) && rows[2 + 2 * k] == SidebarRowView::GroupSpacer
        }),
    decreases groups.len(),
{
    if groups.len() > 0 {
        let rest = groups.drop_last();
        every_group_has_its_row(rest, expanded);
        let before = history_rows(rest, expanded);
        let rows = history_rows(groups, expanded);
        assert forall|k: int| 0 <= k < groups.len() implies rows[1 + 2 * k] == (SidebarRowView::Group {
            project_id: (#[trigger] groups[k]).0,
            sessions: groups[k].1,
            unfolded: expanded.contains(groups[k].0),
        }) && rows[2 + 2 * k] == SidebarRowView::GroupSpacer by {
            if k < rest.len() {
                assert(rest[k] == groups[k]);
                assert(rows[1 + 2 * k] == before[1 + 2 * k]);
                assert(rows[2 + 2 * k] == before[2 + 2 * k]);
            }
        }
    }
}

/// The rows that are alike are the longest common beginning.
pub proof fn alike_rows_are_the_common_beginning(a: Seq<SidebarRowView>, b: Seq<SidebarRowView>)
    ensures
        ({
            let n = rows_alike(a, b) as int;
            &&& n <= a.len() && n <= b.len()
            &&& a.take(n) == b.take(n)
            &&& n < a.len() && n < b.len() ==> a[n] != b[n]
        }),
    decreases a.len(),
{
    if a.len() > 0 && b.len() > 0 && a[0] == b[0] {
        alike_rows_are_the_common_beginning(a.drop_first(), b.drop_first());
        let n = rows_alike(a, b) as int;
        let x = a.drop_first();
        let y = b.drop_first();
        assert forall|k: int| 0 <= k < n implies a[k] == b[k] by {
            if k > 0 {
                assert(x.take(n - 1)[k - 1] == x[k - 1]);
                assert(y.take(n - 1)[k - 1] == y[k - 1]);
            }
        }
        assert(a.take(n) =~= b.take(n));
    }
}

/// The body of a group is as high as its sessions, up to six of them.
pub proof fn groups_show_six_sessions(sessions: nat)
    ensures
        sessions <= 6 ==> body_height(sessions) == 54 * sessions,
        sessions >= 6 ==> body_height(sessions) == 324,
{
}

/// A group scrolls to a session that is out of sight, so that it is in sight, and does not
/// move for one that is.
pub proof fn scrolling_brings_into_sight(sessions: nat, index: nat, scrolled: int)
    requires
        index < sessions,
    ensures
        ({
            let height = body_height(sessions) as int;
            let top = 54 * index;
            let seen = |from: int| from <= top && top + 54 <= from + height;
            match scroll_target(sessions, index, scrolled) {
                None => seen(scrolled),
                Some(to) => !seen(scrolled) && seen(to) && 0 <= to && to + height <= 54 * sessions,
            }
        }),
{
}

/// How long ago something was is told in whole minutes under an hour, whole hours under a day,
/// and whole days from then on.
pub proof fn times_are_told_in_whole_units(seconds: u64, n: u64)
    ensures
        seconds < 60 ==> time_ago(seconds) == wording("sidebar.just_now"),
        1 <= n < 60 && 60 * n <= seconds < 60 * (n + 1) ==> time_ago(seconds) == wording_with(
            "sidebar.minutes_ago",
            "count",
            decimal(n as nat),
        ),
        1 <= n < 24 && 3_600 * n <= seconds < 3_600 * (n + 1) ==> time_ago(seconds) == wording_with(
            "sidebar.hours_ago",
            "count",
            decimal(n as nat),
        ),
        1 <= n && 86_400 * n <= seconds < 86_400 * (n + 1) ==> time_ago(seconds) == wording_with(
            "sidebar.days_ago",
            "count",
            decimal(n as nat),
        ),
{
    if 1 <= n < 60 && 60 * n <= seconds < 60 * (n + 1) {
        assert(seconds / 60 == n);
    }
    if 1 <= n < 24 && 3_600 * n <= seconds < 3_600 * (n + 1) {
        assert(seconds / 3_600 == n);
    }
    if 1 <= n && 86_400 * n <= seconds < 86_400 * (n + 1) {
        assert(seconds / 86_400 == n);
    }
}

/// A session is at work for as long as its turn runs, counted from the start of the turn; a
/// clock that went back counts as no time. A session at rest is not at work.
pub proof fn working_time_counts_from_the_turn(s: AgentSessionView, now: u64)
    ensures
        engaged(s) && running(s) && s.turns.last().started_at <= now ==> s.working_for(now) == Some(
            (now - s.turns.last().started_at) as u64,
        ),
        engaged(s) && running(s) && s.turns.last().started_at > now ==> s.working_for(now) == Some(0u64),
        !engaged(s) || !running(s) ==> s.working_for(now) is None,
{
}

/// The projects that can be chosen are those of their own, each with whether it is the one that
/// is chosen.
pub proof fn own_projects_can_be_chosen(projects: Seq<ProjectView>, selected: Option<Uuid>, chosen: bool)
    ensures
        forall|k: int|
            0 <= k < projects.len() && !(#[trigger] projects[k]).projectless && (selected == Some(projects[k].id)) == chosen
                ==> offered(projects, selected, chosen).contains((projects[k].id, projects[k].name, chosen)),
        forall|j: int|
            0 <= j < offered(projects, selected, chosen).len() ==> ((selected == Some(
                (#[trigger] offered(projects, selected, chosen)[j]).0,
            )) == chosen && offered(projects, selected, chosen)[j].2 == chosen),
    decreases projects.len(),
{
    if projects.len() > 0 {
        let rest = projects.drop_last();
        own_projects_can_be_chosen(rest, selected, chosen);
        let before = offered(rest, selected, chosen);
        let after = offered(projects, selected, chosen);
        assert forall|k: int|
            0 <= k < projects.len() && !(#[trigger] projects[k]).projectless && (selected == Some(projects[k].id)) == chosen implies after.contains(
            (projects[k].id, projects[k].name, chosen),
        ) by {
            if k < rest.len() {
                assert(rest[k] == projects[k]);
                let j = before.index_of((projects[k].id, projects[k].name, chosen));
                assert(after[j] == before[j]);
            } else {
                assert(after[before.len() as int] == (projects[k].id, projects[k].name, chosen));
            }
        }
        assert forall|j: int| 0 <= j < after.len() implies ((selected == Some((#[trigger] after[j]).0)) == chosen
            && after[j].2 == chosen) by {
            if j < before.len() {
                assert(after[j] == before[j]);
            }
        }
    }
}

/// A new title is the session's, without the spaces round it; a title of nothing but spaces
/// leaves the one it has. Nothing else of the session changes but when it was updated.
pub proof fn titles_are_taken(desk: DeskView, id: Uuid, title: Seq<char>, stamp: Stamp)
    requires
        desk.session(id) is Some,
    ensures
        ({
            let s = desk.session(id)->0;
            let after = desk.retitled(id, title, stamp);
            let t = after.session(id)->0;
            &&& after.session(id) is Some
            &&& t.title == (if blank(title) {
                s.title
            } else {
                trimmed(title)
            })
            &&& t == (AgentSessionView { title: t.title, updated_at: t.updated_at, ..s })
            &&& t.title != s.title ==> after.effects.contains(EffectView::Save) && t.updated_at == stamp.secs
            &&& t.title == s.title ==> t == s
        }),
{
    let s = desk.session(id)->0;
    lemma_session_id(desk.state, id);
    lemma_put_get(desk.state, id, AgentSessionView { title: trimmed(title), updated_at: stamp.secs, ..s });
    let after = desk.retitled(id, title, stamp);
    if !blank(title) && s.title != trimmed(title) {
        assert(after.effects[desk.effects.len() as int] == EffectView::Save);
    }
}

/// What is noted of a run of reports: that something changed, where there was a report that was
/// not about work in the background; that it is to be saved at once, where there was one that
/// must not be lost.
pub proof fn runs_are_noted(events: Seq<DriverEvent>)
    ensures
        notes(events).runtime_changed <==> exists|k: int|
            0 <= k < events.len() && !((#[trigger] events[k]) is BackgroundWork),
        notes(events).force_save <==> exists|k: int|
            0 <= k < events.len() && ((#[trigger] events[k]) is Connected || events[k] is AgentPresetSelected
                || events[k] is AutoTitleUpdated || events[k] is Permission || events[k] is SteerAccepted
                || events[k] is SteerRejected || events[k] is TurnFinished || events[k] is Error
                || events[k] is ProcessExited),
        notes(events).markdown_changed <==> exists|k: int|
            0 <= k < events.len() && ((#[trigger] events[k]) is TextDelta || events[k] is ReasoningDelta
                || events[k] is ReasoningEnded),
    decreases events.len(),
{
    if events.len() > 0 {
        let rest = events.drop_last();
        runs_are_noted(rest);
        assert(forall|k: int| 0 <= k < rest.len() ==> rest[k] == #[trigger] events[k]);
        assert(events[events.len() - 1] == events.last());
        let before = notes(rest);
        if before.runtime_changed {
            let k = choose|k: int| 0 <= k < rest.len() && !((#[trigger] rest[k]) is BackgroundWork);
            assert(events[k] == rest[k]);
        }
        if before.force_save {
            let k = choose|k: int|
                0 <= k < rest.len() && ((#[trigger] rest[k]) is Connected || rest[k] is AgentPresetSelected
                    || rest[k] is AutoTitleUpdated || rest[k] is Permission || rest[k] is SteerAccepted
                    || rest[k] is SteerRejected || rest[k] is TurnFinished || rest[k] is Error || rest[k] is ProcessExited);
            assert(events[k] == rest[k]);
        }
        if before.markdown_changed {
            let k = choose|k: int|
                0 <= k < rest.len() && ((#[trigger] rest[k]) is TextDelta || rest[k] is ReasoningDelta
                    || rest[k] is ReasoningEnded);
            assert(events[k] == rest[k]);
        }
    }
}

/// Once a run is over, what changed is saved where it must be or where it is time to; what is
/// not saved yet stays marked.
pub proof fn changes_are_saved_when_due(desk: DeskView, totals: Totals, save_due: bool)
    ensures
        ({
            let after = desk.drain_settled(totals, save_due);
            let dirty = desk.stream_state_dirty || totals.persisted;
            &&& after.stream_state_dirty == dirty
            &&& after.state == desk.state
            &&& dirty && (totals.force_save || save_due) ==> after.effects.len() > 0 && after.effects.last()
                == EffectView::Save
            &&& !dirty || !(totals.force_save || save_due) ==> forall|k: int|
                desk.effects.len() <= k < after.effects.len() ==> #[trigger] after.effects[k] == EffectView::RemeasureTail
        }),
{
}

/// Of the reports that wait, those up to the end of the process are told, and it is the last
/// that is; without one, all are.
pub proof fn nothing_is_told_after_the_exit(queue: Seq<DriverEvent>)
    ensures
        ({
            let told = upto_exit(queue);
            &&& told.len() <= queue.len()
            &&& told == queue.take(told.len() as int)
            &&& forall|k: int| 0 <= k < told.len() - 1 ==> !((#[trigger] told[k]) is ProcessExited)
            &&& told.len() < queue.len() ==> told.len() > 0 && told.last() is ProcessExited
        }),
    decreases queue.len(),
{
    if queue.len() > 0 && !(queue[0] is ProcessExited) {
        let rest = queue.drop_first();
        nothing_is_told_after_the_exit(rest);
        let told = upto_exit(queue);
        let tail = upto_exit(rest);
        assert(told =~= queue.take(told.len() as int)) by {
            assert forall|k: int| 0 <= k < told.len() implies told[k] == queue[k] by {
                if k > 0 {
                    assert(told[k] == tail[k - 1]);
                    assert(tail[k - 1] == rest.take(tail.len() as int)[k - 1]);
                }
            }
        }
        assert forall|k: int| 0 <= k < told.len() - 1 implies !((#[trigger] told[k]) is ProcessExited) by {
            if k > 0 {
                assert(told[k] == tail[k - 1]);
            }
        }
        if told.len() < queue.len() {
            assert(told.last() == tail.last());
        }
    } else {
        assert(upto_exit(queue) =~= queue.take(upto_exit(queue).len() as int));
    }
}

/// What is kept of the reports when a turn begins is what is about work in the background, all
/// of it and in its order.
pub proof fn work_in_the_background_is_kept(events: Seq<DriverEvent>)
    ensures
        background_only(events) == events.filter(|e: DriverEvent| e is BackgroundWork),
    decreases events.len(),
{
    reveal(Seq::filter);
    if events.len() > 0 {
        work_in_the_background_is_kept(events.drop_last());
    }
}

} // verus!
