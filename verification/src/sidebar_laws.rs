//! What holds of the history in the sidebar, whatever the sessions and projects are.
use vstd::prelude::*;

use crate::ids::Uuid;
use crate::model::{AgentSessionView, ProjectView};
use crate::ranking::{newest_first, numbered_up, ordering_is_stable, Ranked};
use crate::seqs::{lemma_pos, pos};
use crate::sidebar_groups::{
    by_recency, entries, entry_ranks, group_ids, group_ranks, grouped, history, homes, with_homes, Entry, Home,
    ProjectGroupView,
};

verus! {

/// The sessions of a project, in the order of the list.
pub open spec fn ids_in(list: Seq<Entry>, project_id: Uuid) -> Seq<Uuid>
    decreases list.len(),
{
    if list.len() == 0 {
        Seq::empty()
    } else if list.last().project_id == project_id {
        ids_in(list.drop_last(), project_id).push(list.last().id)
    } else {
        ids_in(list.drop_last(), project_id)
    }
}

/// Groups as they are built: each project once, with its sessions of the list.
pub open spec fn well_grouped(groups: Seq<ProjectGroupView>, list: Seq<Entry>) -> bool {
    &&& group_ids(groups).no_duplicates()
    &&& forall|k: int| 0 <= k < groups.len() ==> (#[trigger] groups[k]).sessions == ids_in(list, groups[k].project_id)
    &&& forall|k: int| 0 <= k < list.len() ==> group_ids(groups).contains((#[trigger] list[k]).project_id)
}

proof fn lemma_push_ids(groups: Seq<ProjectGroupView>, group: ProjectGroupView)
    requires
        group_ids(groups).no_duplicates(),
        !group_ids(groups).contains(group.project_id),
    ensures
        group_ids(groups.push(group)).no_duplicates(),
        group_ids(groups.push(group)) == group_ids(groups).push(group.project_id),
{
    assert(group_ids(groups.push(group)) =~= group_ids(groups).push(group.project_id));
}

proof fn lemma_ids_in_none(list: Seq<Entry>, project_id: Uuid)
    requires
        forall|k: int| 0 <= k < list.len() ==> (#[trigger] list[k]).project_id != project_id,
    ensures
        ids_in(list, project_id) == Seq::<Uuid>::empty(),
    decreases list.len(),
{
    if list.len() > 0 {
        assert(list[list.len() - 1].project_id != project_id);
        assert forall|k: int| 0 <= k < list.drop_last().len() implies (#[trigger] list.drop_last()[k]).project_id
            != project_id by {
            assert(list.drop_last()[k] == list[k]);
        }
        lemma_ids_in_none(list.drop_last(), project_id);
    }
}

proof fn lemma_grouped(list: Seq<Entry>)
    ensures
        well_grouped(grouped(list), list),
    decreases list.len(),
{
    if list.len() == 0 {
        assert(group_ids(grouped(list)) =~= Seq::empty());
    } else {
        let rest = list.drop_last();
        let entry = list.last();
        lemma_grouped(rest);
        let before = grouped(rest);
        let after = grouped(list);
        lemma_pos(group_ids(before), entry.project_id);
        match pos(group_ids(before), entry.project_id) {
            Some(i) => {
                assert(group_ids(after) =~= group_ids(before));
                assert forall|k: int| 0 <= k < after.len() implies (#[trigger] after[k]).sessions == ids_in(
                    list,
                    after[k].project_id,
                ) by {
                    assert(before[k].sessions == ids_in(rest, before[k].project_id));
                    assert(group_ids(before)[k] == before[k].project_id);
                    if k != i {
                        assert(group_ids(before)[i] == before[i].project_id);
                    }
                }
            },
            None => {
                let group = ProjectGroupView {
                    project_id: entry.project_id,
                    recency: entry.at,
                    sessions: seq![entry.id],
                };
                lemma_push_ids(before, group);
                assert forall|k: int| 0 <= k < rest.len() implies (#[trigger] rest[k]).project_id != entry.project_id by {
                    let j = group_ids(before).index_of(rest[k].project_id);
                    assert(group_ids(before)[j] == rest[k].project_id);
                }
                lemma_ids_in_none(rest, entry.project_id);
                assert forall|k: int| 0 <= k < after.len() implies (#[trigger] after[k]).sessions == ids_in(
                    list,
                    after[k].project_id,
                ) by {
                    if k < before.len() {
                        assert(before[k].sessions == ids_in(rest, before[k].project_id));
                        assert(group_ids(before)[k] == before[k].project_id);
                    } else {
                        assert(ids_in(list, entry.project_id) =~= seq![entry.id]);
                    }
                }
            },
        }
        assert forall|k: int| 0 <= k < list.len() implies group_ids(after).contains((#[trigger] list[k]).project_id) by {
            if k < rest.len() {
                assert(rest[k] == list[k]);
                let j = group_ids(before).index_of(rest[k].project_id);
                assert(group_ids(after)[j] == group_ids(before)[j]);
            } else {
                match pos(group_ids(before), entry.project_id) {
                    Some(i) => {
                        assert(group_ids(after)[i] == entry.project_id);
                    },
                    None => {
                        assert(group_ids(after)[before.len() as int] == entry.project_id);
                    },
                }
            }
        }
    }
}

proof fn lemma_with_homes(groups: Seq<ProjectGroupView>, list: Seq<Entry>, projects: Seq<Home>)
    requires
        well_grouped(groups, list),
    ensures
        well_grouped(with_homes(groups, projects), list),
        forall|k: int|
            0 <= k < projects.len() ==> group_ids(with_homes(groups, projects)).contains((#[trigger] projects[k]).id),
    decreases projects.len(),
{
    if projects.len() > 0 {
        let rest = projects.drop_last();
        let home = projects.last();
        lemma_with_homes(groups, list, rest);
        let before = with_homes(groups, rest);
        let after = with_homes(groups, projects);
        lemma_pos(group_ids(before), home.id);
        if pos(group_ids(before), home.id) is None {
            let group = ProjectGroupView { project_id: home.id, recency: home.created_at, sessions: Seq::empty() };
            lemma_push_ids(before, group);
            assert forall|k: int| 0 <= k < list.len() implies (#[trigger] list[k]).project_id != home.id by {
                let j = group_ids(before).index_of(list[k].project_id);
                assert(group_ids(before)[j] == list[k].project_id);
            }
            lemma_ids_in_none(list, home.id);
            assert forall|k: int| 0 <= k < after.len() implies (#[trigger] after[k]).sessions == ids_in(
                list,
                after[k].project_id,
            ) by {
                if k < before.len() {
                    assert(before[k].sessions == ids_in(list, before[k].project_id));
                }
            }
            assert forall|k: int| 0 <= k < list.len() implies group_ids(after).contains(
                (#[trigger] list[k]).project_id,
            ) by {
                let j = group_ids(before).index_of(list[k].project_id);
                assert(group_ids(after)[j] == group_ids(before)[j]);
            }
        }
        assert forall|k: int| 0 <= k < projects.len() implies group_ids(after).contains((#[trigger] projects[k]).id) by {
            if k < rest.len() {
                assert(rest[k] == projects[k]);
                let j = group_ids(before).index_of(rest[k].id);
                assert(group_ids(after)[j] == group_ids(before)[j]);
            } else if pos(group_ids(before), home.id) is None {
                assert(group_ids(after)[before.len() as int] == home.id);
            } else {
                assert(group_ids(after)[pos(group_ids(before), home.id)->0] == home.id);
            }
        }
    }
}

proof fn lemma_reordered(groups: Seq<ProjectGroupView>, list: Seq<Entry>)
    requires
        well_grouped(groups, list),
        groups.len() <= usize::MAX,
    ensures
        ({
            let after = newest_first(group_ranks(groups)).map_values(|r: Ranked| groups[r.index as int]);
            &&& well_grouped(after, list)
            &&& forall|i: int, j: int|
                0 <= i < j < after.len() ==> (#[trigger] after[i]).recency >= (#[trigger] after[j]).recency
            &&& forall|k: int| 0 <= k < groups.len() ==> group_ids(after).contains((#[trigger] groups[k]).project_id)
        }),
{
    broadcast use vstd::seq_lib::group_to_multiset_ensures;

    let ranks = group_ranks(groups);
    assert(numbered_up(ranks));
    ordering_is_stable(ranks);
    let ordered = newest_first(ranks);
    let after = ordered.map_values(|r: Ranked| groups[r.index as int]);
    assert forall|i: int| 0 <= i < ordered.len() implies (#[trigger] ordered[i]).index < groups.len() && ordered[i].at
        == groups[ordered[i].index as int].recency by {
        assert(ranks.contains(ordered[i]));
        let m = ranks.index_of(ordered[i]);
        assert(ranks[m] == ordered[i]);
    }
    assert forall|i: int, j: int| 0 <= i < j < after.len() implies (#[trigger] after[i]).recency >= (
    #[trigger] after[j]).recency by {
        assert(ordered[i].at >= ordered[j].at);
    }
    assert forall|i: int, j: int| 0 <= i < group_ids(after).len() && 0 <= j < group_ids(after).len() && i != j implies group_ids(
        after,
    )[i] != group_ids(after)[j] by {
        let a = ordered[i].index as int;
        let b = ordered[j].index as int;
        if a == b {
            assert(ordered[i].at == ordered[j].at);
            if i < j {
                assert(ordered[i].index < ordered[j].index);
            } else {
                assert(ordered[j].index < ordered[i].index);
            }
        }
        assert(group_ids(groups)[a] == groups[a].project_id);
        assert(group_ids(groups)[b] == groups[b].project_id);
    }
    assert forall|k: int| 0 <= k < after.len() implies (#[trigger] after[k]).sessions == ids_in(list, after[k].project_id) by {
        let a = ordered[k].index as int;
        assert(groups[a].sessions == ids_in(list, groups[a].project_id));
    }
    assert forall|k: int| 0 <= k < groups.len() implies group_ids(after).contains((#[trigger] groups[k]).project_id) by {
        assert(ranks[k].index == k);
        assert(ranks.contains(ranks[k]));
        assert(ranks.to_multiset().contains(ranks[k]));
        assert(ordered.to_multiset().contains(ranks[k]));
        assert(ordered.contains(ranks[k]));
        let m = ordered.index_of(ranks[k]);
        assert(group_ids(after)[m] == groups[k].project_id);
    }
    assert forall|k: int| 0 <= k < list.len() implies group_ids(after).contains((#[trigger] list[k]).project_id) by {
        let j = group_ids(groups).index_of(list[k].project_id);
        assert(group_ids(groups)[j] == groups[j].project_id);
        assert(group_ids(after).contains(groups[j].project_id));
    }
}

/// The history shows every project once, the one used last first. Each lists its
/// sessions, the one used last first, and no session of another project. Every started
/// session and every project is shown.
pub proof fn history_shows_everything_once(list: Seq<Entry>, projects: Seq<Home>)
    requires
        list.len() + projects.len() <= usize::MAX,
    ensures
        well_grouped(history(list, projects), by_recency(list)),
        forall|i: int, j: int|
            0 <= i < j < history(list, projects).len() ==> (#[trigger] history(list, projects)[i]).recency >= (
            #[trigger] history(list, projects)[j]).recency,
        forall|k: int| 0 <= k < projects.len() ==> group_ids(history(list, projects)).contains((#[trigger] projects[k]).id),
{
    let sorted = by_recency(list);
    let base = grouped(sorted);
    let groups = with_homes(base, projects);
    lemma_grouped(sorted);
    lemma_with_homes(base, sorted, projects);
    assert(numbered_up(entry_ranks(list)));
    ordering_is_stable(entry_ranks(list));
    lemma_count(sorted);
    lemma_count_homes(base, projects);
    lemma_reordered(groups, sorted);
    assert forall|k: int| 0 <= k < projects.len() implies group_ids(history(list, projects)).contains(
        (#[trigger] projects[k]).id,
    ) by {
        let j = group_ids(groups).index_of(projects[k].id);
        assert(group_ids(groups)[j] == groups[j].project_id);
    }
}

proof fn lemma_count(list: Seq<Entry>)
    ensures
        grouped(list).len() <= list.len(),
    decreases list.len(),
{
    if list.len() > 0 {
        lemma_count(list.drop_last());
        lemma_pos(group_ids(grouped(list.drop_last())), list.last().project_id);
    }
}

proof fn lemma_count_homes(groups: Seq<ProjectGroupView>, projects: Seq<Home>)
    ensures
        with_homes(groups, projects).len() <= groups.len() + projects.len(),
    decreases projects.len(),
{
    if projects.len() > 0 {
        lemma_count_homes(groups, projects.drop_last());
    }
}

/// A session that was never submitted is not in the history.
pub proof fn drafts_stay_out(sessions: Seq<AgentSessionView>, i: int)
    requires
        0 <= i < entries(sessions).len(),
    ensures
        exists|k: int|
            0 <= k < sessions.len() && (#[trigger] sessions[k]).started() && sessions[k].id == entries(sessions)[i].id,
    decreases sessions.len(),
{
    if sessions.len() > 0 {
        let rest = entries(sessions.drop_last());
        if i < rest.len() {
            drafts_stay_out(sessions.drop_last(), i);
            let k = choose|k: int|
                0 <= k < sessions.drop_last().len() && (#[trigger] sessions.drop_last()[k]).started()
                    && sessions.drop_last()[k].id == entries(sessions.drop_last())[i].id;
            assert(sessions[k].started());
        } else {
            assert(sessions[sessions.len() - 1].started());
        }
    }
}

/// Every session that has a turn, or was replied in, is listed, under its project and as of
/// its last reply, or of its creation where it has none.
pub proof fn started_sessions_are_listed(sessions: Seq<AgentSessionView>, k: int)
    requires
        0 <= k < sessions.len(),
        sessions[k].turns.len() > 0 || sessions[k].last_reply_at is Some,
    ensures
        exists|i: int|
            0 <= i < entries(sessions).len() && (#[trigger] entries(sessions)[i]).id == sessions[k].id && entries(
                sessions,
            )[i].project_id == sessions[k].project_id && entries(sessions)[i].at == (match sessions[k].last_reply_at {
                Some(at) => at,
                None => sessions[k].created_at,
            }),
    decreases sessions.len(),
{
    let rest = sessions.drop_last();
    if k < rest.len() {
        assert(rest[k] == sessions[k]);
        started_sessions_are_listed(rest, k);
        let i = choose|i: int|
            0 <= i < entries(rest).len() && (#[trigger] entries(rest)[i]).id == rest[k].id && entries(rest)[i].project_id
                == rest[k].project_id && entries(rest)[i].at == (match rest[k].last_reply_at {
                Some(at) => at,
                None => rest[k].created_at,
            });
        assert(entries(sessions)[i] == entries(rest)[i]);
    } else {
        let i = entries(rest).len() as int;
        assert(entries(sessions)[i].id == sessions[k].id);
    }
}

/// Nothing else is listed, and nothing twice: what is listed are started sessions, in the
/// order they are kept in.
pub proof fn listed_sessions_are_started(sessions: Seq<AgentSessionView>) -> (at: Seq<int>)
    ensures
        at.len() == entries(sessions).len(),
        forall|i: int, j: int| 0 <= i < j < at.len() ==> #[trigger] at[i] < #[trigger] at[j],
        forall|i: int|
            0 <= i < at.len() ==> 0 <= #[trigger] at[i] < sessions.len() && entries(sessions)[i].id == sessions[at[i]].id
                && (sessions[at[i]].turns.len() > 0 || sessions[at[i]].last_reply_at is Some),
    decreases sessions.len(),
{
    if sessions.len() == 0 {
        Seq::empty()
    } else {
        let rest = sessions.drop_last();
        let before = listed_sessions_are_started(rest);
        assert forall|i: int| 0 <= i < before.len() implies 0 <= #[trigger] before[i] < sessions.len() && entries(
            sessions,
        )[i].id == sessions[before[i]].id && (sessions[before[i]].turns.len() > 0 || sessions[before[i]].last_reply_at is Some) by {
            assert(rest[before[i]] == sessions[before[i]]);
            assert(entries(sessions)[i] == entries(rest)[i]);
        }
        if sessions.last().started() {
            before.push(sessions.len() - 1)
        } else {
            before
        }
    }
}

/// Every project that is one of its own is listed with its age, and no other.
pub proof fn projects_are_listed(projects: Seq<ProjectView>, k: int)
    requires
        0 <= k < projects.len(),
    ensures
        !projects[k].projectless ==> exists|i: int|
            0 <= i < homes(projects).len() && (#[trigger] homes(projects)[i]).id == projects[k].id && homes(
                projects,
            )[i].created_at == projects[k].created_at,
        forall|i: int|
            0 <= i < homes(projects).len() ==> exists|j: int|
                0 <= j < projects.len() && (#[trigger] projects[j]).id == (#[trigger] homes(projects)[i]).id
                    && !projects[j].projectless && projects[j].created_at == homes(projects)[i].created_at,
    decreases projects.len(),
{
    let rest = projects.drop_last();
    if rest.len() > 0 {
        projects_are_listed(rest, if k < rest.len() { k } else { 0 });
    }
    assert forall|i: int| 0 <= i < homes(projects).len() implies exists|j: int|
        0 <= j < projects.len() && (#[trigger] projects[j]).id == (#[trigger] homes(projects)[i]).id
            && !projects[j].projectless && projects[j].created_at == homes(projects)[i].created_at by {
        if i < homes(rest).len() {
            assert(homes(projects)[i] == homes(rest)[i]);
            let j = choose|j: int|
                0 <= j < rest.len() && (#[trigger] rest[j]).id == homes(rest)[i].id && !rest[j].projectless
                    && rest[j].created_at == homes(rest)[i].created_at;
            assert(projects[j] == rest[j]);
        } else {
            assert(projects[projects.len() - 1].id == homes(projects)[i].id);
        }
    }
    if !projects[k].projectless {
        if k < rest.len() {
            assert(rest[k] == projects[k]);
            let i = choose|i: int|
                0 <= i < homes(rest).len() && (#[trigger] homes(rest)[i]).id == rest[k].id && homes(rest)[i].created_at
                    == rest[k].created_at;
            assert(homes(projects)[i] == homes(rest)[i]);
        } else {
            assert(homes(projects)[homes(rest).len() as int].id == projects[k].id);
        }
    }
}

/// Ordering the sessions by recency keeps every one of them, adds none, and puts none before
/// one that was used later.
pub proof fn sessions_are_ordered_by_recency(list: Seq<Entry>)
    requires
        list.len() <= usize::MAX,
    ensures
        by_recency(list).len() == list.len(),
        forall|i: int, j: int|
            0 <= i < j < list.len() ==> (#[trigger] by_recency(list)[i]).at >= (#[trigger] by_recency(list)[j]).at,
        forall|k: int| 0 <= k < list.len() ==> by_recency(list).contains(#[trigger] list[k]),
        forall|i: int| 0 <= i < list.len() ==> list.contains(#[trigger] by_recency(list)[i]),
{
    let ranks = entry_ranks(list);
    let sorted = newest_first(ranks);
    assert(numbered_up(ranks));
    ordering_is_stable(ranks);
    assert forall|i: int| 0 <= i < sorted.len() implies 0 <= (#[trigger] sorted[i]).index < list.len() && sorted[i].at
        == list[sorted[i].index as int].at by {
        let k = ranks.index_of(sorted[i]);
        assert(ranks[k] == sorted[i]);
    }
    assert forall|i: int| 0 <= i < list.len() implies list.contains(#[trigger] by_recency(list)[i]) by {
        assert(by_recency(list)[i] == list[sorted[i].index as int]);
    }
    assert forall|k: int| 0 <= k < list.len() implies by_recency(list).contains(#[trigger] list[k]) by {
        ranks.to_multiset_ensures();
        sorted.to_multiset_ensures();
        assert(ranks.contains(ranks[k]));
        assert(ranks.to_multiset().count(ranks[k]) > 0);
        assert(sorted.to_multiset().count(ranks[k]) > 0);
        let i = sorted.index_of(ranks[k]);
        assert(by_recency(list)[i] == list[k]);
    }
    assert forall|i: int, j: int| 0 <= i < j < list.len() implies (#[trigger] by_recency(list)[i]).at >= (
    #[trigger] by_recency(list)[j]).at by {
        assert(by_recency(list)[i] == list[sorted[i].index as int]);
        assert(by_recency(list)[j] == list[sorted[j].index as int]);
    }
}

/// A project was used when its newest session of the list was.
pub open spec fn used_with_its_newest(group: ProjectGroupView, list: Seq<Entry>) -> bool {
    &&& exists|j: int|
        0 <= j < list.len() && (#[trigger] list[j]).project_id == group.project_id && list[j].at == group.recency
    &&& forall|j: int|
        0 <= j < list.len() && (#[trigger] list[j]).project_id == group.project_id ==> list[j].at <= group.recency
}

proof fn lemma_grouped_recency(list: Seq<Entry>)
    requires
        forall|i: int, j: int| 0 <= i < j < list.len() ==> (#[trigger] list[i]).at >= (#[trigger] list[j]).at,
    ensures
        forall|k: int| 0 <= k < grouped(list).len() ==> used_with_its_newest(#[trigger] grouped(list)[k], list),
    decreases list.len(),
{
    if list.len() > 0 {
        let rest = list.drop_last();
        let last = list.last();
        assert forall|i: int, j: int| 0 <= i < j < rest.len() implies (#[trigger] rest[i]).at >= (#[trigger] rest[j]).at by {
            assert(rest[i] == list[i] && rest[j] == list[j]);
        }
        lemma_grouped_recency(rest);
        lemma_grouped(rest);
        let before = grouped(rest);
        let after = grouped(list);
        lemma_pos(group_ids(before), last.project_id);
        assert forall|k: int| 0 <= k < after.len() implies used_with_its_newest(#[trigger] after[k], list) by {
            if k < before.len() {
                assert(after[k].project_id == before[k].project_id && after[k].recency == before[k].recency);
                assert(used_with_its_newest(before[k], rest));
                let j = choose|j: int|
                    0 <= j < rest.len() && (#[trigger] rest[j]).project_id == before[k].project_id && rest[j].at
                        == before[k].recency;
                assert(list[j] == rest[j]);
                assert(list[j].at >= list[list.len() - 1].at);
                assert forall|i: int| 0 <= i < list.len() && (#[trigger] list[i]).project_id == after[k].project_id implies list[i].at
                    <= after[k].recency by {
                    if i < rest.len() {
                        assert(rest[i] == list[i]);
                    }
                }
            } else {
                assert(list[list.len() - 1] == last);
                assert forall|i: int| 0 <= i < list.len() && (#[trigger] list[i]).project_id == after[k].project_id implies list[i].at
                    <= after[k].recency by {
                    if i < rest.len() {
                        assert(rest[i] == list[i]);
                        let m = group_ids(before).index_of(rest[i].project_id);
                        assert(group_ids(before)[m] == last.project_id);
                    }
                }
            }
        }
    }
}

proof fn lemma_homes_recency(groups: Seq<ProjectGroupView>, list: Seq<Entry>, projects: Seq<Home>)
    requires
        forall|k: int| 0 <= k < groups.len() ==> used_with_its_newest(#[trigger] groups[k], list),
        forall|k: int| 0 <= k < list.len() ==> group_ids(groups).contains((#[trigger] list[k]).project_id),
    ensures
        forall|k: int|
            0 <= k < with_homes(groups, projects).len() ==> dated(#[trigger] with_homes(groups, projects)[k], list, projects),
        forall|p: Uuid| group_ids(groups).contains(p) ==> #[trigger] group_ids(with_homes(groups, projects)).contains(p),
    decreases projects.len(),
{
    if projects.len() == 0 {
        assert forall|k: int| 0 <= k < groups.len() implies dated(#[trigger] groups[k], list, projects) by {}
    } else {
        let rest = projects.drop_last();
        let home = projects.last();
        lemma_homes_recency(groups, list, rest);
        let before = with_homes(groups, rest);
        let after = with_homes(groups, projects);
        lemma_pos(group_ids(before), home.id);
        assert forall|k: int| 0 <= k < after.len() implies dated(#[trigger] after[k], list, projects) by {
            if k < before.len() {
                assert(after[k] == before[k]);
                assert(dated(before[k], list, rest));
                if !used_with_its_newest(before[k], list) {
                    let h = choose|h: int|
                        0 <= h < rest.len() && (#[trigger] rest[h]).id == before[k].project_id && rest[h].created_at
                            == before[k].recency;
                    assert(projects[h] == rest[h]);
                }
            } else {
                assert(projects[projects.len() - 1] == home);
                assert forall|i: int| 0 <= i < list.len() implies (#[trigger] list[i]).project_id != home.id by {
                    assert(group_ids(before).contains(list[i].project_id));
                    let m = group_ids(before).index_of(list[i].project_id);
                    assert(group_ids(before)[m] == list[i].project_id);
                }
            }
        }
        assert forall|p: Uuid| group_ids(groups).contains(p) implies #[trigger] group_ids(after).contains(p) by {
            assert(group_ids(before).contains(p));
            let m = group_ids(before).index_of(p);
            assert(group_ids(after)[m] == p);
        }
    }
}

/// A project without a session in the list was used when it was created.
pub open spec fn dated(group: ProjectGroupView, list: Seq<Entry>, projects: Seq<Home>) -> bool {
    ||| used_with_its_newest(group, list)
    ||| {
        &&& forall|i: int| 0 <= i < list.len() ==> (#[trigger] list[i]).project_id != group.project_id
        &&& exists|h: int|
            0 <= h < projects.len() && (#[trigger] projects[h]).id == group.project_id && projects[h].created_at
                == group.recency
    }
}

/// Every project of the history counts as used when its newest session was, or, without a
/// session, when it was created.
pub proof fn projects_are_as_recent_as_their_newest(list: Seq<Entry>, projects: Seq<Home>, k: int)
    requires
        list.len() + projects.len() <= usize::MAX,
        0 <= k < history(list, projects).len(),
    ensures
        dated(history(list, projects)[k], by_recency(list), projects),
{
    let sorted = by_recency(list);
    sessions_are_ordered_by_recency(list);
    lemma_grouped_recency(sorted);
    lemma_grouped(sorted);
    let base = grouped(sorted);
    lemma_homes_recency(base, sorted, projects);
    let groups = with_homes(base, projects);
    lemma_count(sorted);
    lemma_count_homes(base, projects);
    let ranks = group_ranks(groups);
    assert(numbered_up(ranks));
    ordering_is_stable(ranks);
    let r = newest_first(ranks)[k];
    let m = ranks.index_of(r);
    assert(ranks[m] == r);
    assert(history(list, projects)[k] == groups[r.index as int]);
}

} // verus!
