//! The history in the sidebar: started sessions, grouped by project.
use vstd::prelude::*;

use crate::ids::Uuid;
use crate::model::{agent_session_views, project_views, AgentSession, AgentSessionView, Project, ProjectView};
use crate::ranking::{newest_first, numbered_up, order, ordering_is_stable, Ranked};
use crate::seqs::{lemma_pos_none, lemma_pos_some, pos};

verus! {

/// A started session as the history sees it.
#[derive(Clone, Copy, Debug, PartialEq, Eq, Structural)]
pub struct Entry {
    pub id: Uuid,
    pub project_id: Uuid,
    /// When it was last used.
    pub at: u64,
}

/// A project as the history sees it.
#[derive(Clone, Copy, Debug, PartialEq, Eq, Structural)]
pub struct Home {
    pub id: Uuid,
    pub created_at: u64,
}

/// A project with its sessions.
#[derive(Debug)]
pub struct ProjectGroup {
    pub project_id: Uuid,
    /// When the project was last used.
    pub recency: u64,
    pub sessions: Vec<Uuid>,
}

/// What a [`ProjectGroup`] holds.
#[verifier::ext_equal]
pub ghost struct ProjectGroupView {
    pub project_id: Uuid,
    pub recency: u64,
    pub sessions: Seq<Uuid>,
}

impl View for ProjectGroup {
    type V = ProjectGroupView;

    open spec fn view(&self) -> ProjectGroupView {
        ProjectGroupView { project_id: self.project_id, recency: self.recency, sessions: self.sessions@ }
    }
}

/// What a list of them holds.
pub open spec fn project_group_views(s: Seq<ProjectGroup>) -> Seq<ProjectGroupView> {
    s.map_values(|x: ProjectGroup| x@)
}

impl AgentSessionView {
    /// When the session was last used: at its last reply, else when it was created.
    /// Changing a title or an option does not count.
    pub open spec fn used_at(self) -> u64 {
        match self.last_reply_at {
            Some(at) => at,
            None => self.created_at,
        }
    }
}

/// The started sessions.
pub open spec fn entries(sessions: Seq<AgentSessionView>) -> Seq<Entry>
    decreases sessions.len(),
{
    if sessions.len() == 0 {
        Seq::empty()
    } else {
        let rest = entries(sessions.drop_last());
        let last = sessions.last();
        if last.started() {
            rest.push(Entry { id: last.id, project_id: last.project_id, at: last.used_at() })
        } else {
            rest
        }
    }
}

/// The projects that are shown even without a session.
pub open spec fn homes(projects: Seq<ProjectView>) -> Seq<Home>
    decreases projects.len(),
{
    if projects.len() == 0 {
        Seq::empty()
    } else {
        let rest = homes(projects.drop_last());
        let last = projects.last();
        if last.projectless {
            rest
        } else {
            rest.push(Home { id: last.id, created_at: last.created_at })
        }
    }
}

/// The places of a list of sessions with their times.
pub open spec fn entry_ranks(list: Seq<Entry>) -> Seq<Ranked> {
    Seq::new(list.len(), |i: int| Ranked { at: list[i].at, index: i as usize })
}

/// The sessions, newest first.
pub open spec fn by_recency(list: Seq<Entry>) -> Seq<Entry> {
    newest_first(entry_ranks(list)).map_values(|r: Ranked| list[r.index as int])
}

/// The projects of groups.
pub open spec fn group_ids(groups: Seq<ProjectGroupView>) -> Seq<Uuid> {
    groups.map_values(|g: ProjectGroupView| g.project_id)
}

/// The groups with one more session, in the group of its project.
pub open spec fn with_entry(groups: Seq<ProjectGroupView>, entry: Entry) -> Seq<ProjectGroupView> {
    match pos(group_ids(groups), entry.project_id) {
        Some(i) => groups.update(
            i,
            ProjectGroupView { sessions: groups[i].sessions.push(entry.id), ..groups[i] },
        ),
        None => groups.push(
            ProjectGroupView { project_id: entry.project_id, recency: entry.at, sessions: seq![entry.id] },
        ),
    }
}

/// Sessions in groups, each behind those before it.
pub open spec fn grouped(list: Seq<Entry>) -> Seq<ProjectGroupView>
    decreases list.len(),
{
    if list.len() == 0 {
        Seq::empty()
    } else {
        with_entry(grouped(list.drop_last()), list.last())
    }
}

/// The groups with one of every project; a project without a session was used when it
/// was created.
pub open spec fn with_homes(groups: Seq<ProjectGroupView>, list: Seq<Home>) -> Seq<ProjectGroupView>
    decreases list.len(),
{
    if list.len() == 0 {
        groups
    } else {
        let before = with_homes(groups, list.drop_last());
        let home = list.last();
        if pos(group_ids(before), home.id) is None {
            before.push(
                ProjectGroupView { project_id: home.id, recency: home.created_at, sessions: Seq::empty() },
            )
        } else {
            before
        }
    }
}

/// The places of groups with their times.
pub open spec fn group_ranks(groups: Seq<ProjectGroupView>) -> Seq<Ranked> {
    Seq::new(groups.len(), |i: int| Ranked { at: groups[i].recency, index: i as usize })
}

/// The history: groups by recency, and in each its sessions by recency.
pub open spec fn history(list: Seq<Entry>, projects: Seq<Home>) -> Seq<ProjectGroupView> {
    let groups = with_homes(grouped(by_recency(list)), projects);
    newest_first(group_ranks(groups)).map_values(|r: Ranked| groups[r.index as int])
}

/// The project and the sessions of each group.
pub open spec fn group_pairs(groups: Seq<ProjectGroupView>) -> Seq<(Uuid, Seq<Uuid>)> {
    groups.map_values(|g: ProjectGroupView| (g.project_id, g.sessions))
}

/// What a list of pairs holds.
pub open spec fn pair_views(pairs: Seq<(Uuid, Vec<Uuid>)>) -> Seq<(Uuid, Seq<Uuid>)> {
    pairs.map_values(|p: (Uuid, Vec<Uuid>)| (p.0, p.1@))
}

/// When a session was last used, as the history orders it.
pub fn sidebar_session_timestamp(session: &AgentSession) -> (r: u64)
    ensures
        r == session@.used_at(),
{
    match session.last_reply_at {
        Some(at) => at,
        None => session.created_at,
    }
}

/// Lists the started sessions.
pub fn entries_of(sessions: &[AgentSession]) -> (r: Vec<Entry>)
    ensures
        r@ == entries(agent_session_views(sessions@)),
{
    let ghost views = agent_session_views(sessions@);
    let mut r: Vec<Entry> = Vec::new();
    let mut i: usize = 0;
    assert(views.take(0) =~= Seq::empty());
    while i < sessions.len()
        invariant
            i <= sessions@.len(),
            views == agent_session_views(sessions@),
            r@ == entries(views.take(i as int)),
        decreases sessions@.len() - i,
    {
        assert(views.take(i + 1).drop_last() =~= views.take(i as int));
        assert(views.take(i + 1).last() == sessions@[i as int]@);
        let session = &sessions[i];
        if session.has_started() {
            r.push(Entry { id: session.id, project_id: session.project_id, at: sidebar_session_timestamp(session) });
        }
        i = i + 1;
    }
    assert(views.take(i as int) =~= views);
    r
}

/// Lists the projects that are shown even without a session.
pub fn homes_of(projects: &[Project]) -> (r: Vec<Home>)
    ensures
        r@ == homes(project_views(projects@)),
{
    let ghost views = project_views(projects@);
    let mut r: Vec<Home> = Vec::new();
    let mut i: usize = 0;
    assert(views.take(0) =~= Seq::empty());
    while i < projects.len()
        invariant
            i <= projects@.len(),
            views == project_views(projects@),
            r@ == homes(views.take(i as int)),
        decreases projects@.len() - i,
    {
        assert(views.take(i + 1).drop_last() =~= views.take(i as int));
        assert(views.take(i + 1).last() == projects@[i as int]@);
        let project = &projects[i];
        if !project.is_projectless() {
            r.push(Home { id: project.id, created_at: project.created_at });
        }
        i = i + 1;
    }
    assert(views.take(i as int) =~= views);
    r
}

fn find_group(groups: &Vec<ProjectGroup>, project_id: Uuid) -> (r: Option<usize>)
    ensures
        match r {
            Some(i) => pos(group_ids(project_group_views(groups@)), project_id) == Some(i as int) && i < groups@.len(),
            None => pos(group_ids(project_group_views(groups@)), project_id) is None,
        },
{
    let ghost ids = group_ids(project_group_views(groups@));
    let mut i: usize = 0;
    while i < groups.len()
        invariant
            i <= groups@.len(),
            ids == group_ids(project_group_views(groups@)),
            forall|j: int| 0 <= j < i ==> ids[j] != project_id,
        decreases groups@.len() - i,
    {
        assert(ids[i as int] == groups@[i as int].project_id);
        if groups[i].project_id == project_id {
            proof {
                lemma_pos_some(ids, project_id, i as int);
            }
            return Some(i);
        }
        i = i + 1;
    }
    proof {
        lemma_pos_none(ids, project_id);
    }
    None
}

fn add_entry(groups: &mut Vec<ProjectGroup>, entry: Entry)
    ensures
        project_group_views(final(groups)@) == with_entry(project_group_views(old(groups)@), entry),
{
    let ghost before = groups@;
    match find_group(groups, entry.project_id) {
        Some(i) => {
            groups[i].sessions.push(entry.id);
            assert(groups@ =~= before.update(i as int, groups@[i as int]));
            assert(project_group_views(groups@) =~= project_group_views(before).update(i as int, groups@[i as int]@));
        },
        None => {
            let mut sessions: Vec<Uuid> = Vec::new();
            sessions.push(entry.id);
            assert(sessions@ =~= seq![entry.id]);
            let group = ProjectGroup { project_id: entry.project_id, recency: entry.at, sessions };
            groups.push(group);
            assert(project_group_views(groups@) =~= project_group_views(before).push(group@));
        },
    }
}

fn order_entries(list: &Vec<Entry>) -> (r: Vec<Entry>)
    ensures
        r@ == by_recency(list@),
{
    let mut ranks: Vec<Ranked> = Vec::new();
    let mut i: usize = 0;
    while i < list.len()
        invariant
            i <= list@.len(),
            ranks@ == entry_ranks(list@).take(i as int),
        decreases list@.len() - i,
    {
        ranks.push(Ranked { at: list[i].at, index: i });
        assert(ranks@ =~= entry_ranks(list@).take(i + 1));
        i = i + 1;
    }
    assert(ranks@ =~= entry_ranks(list@));
    let ordered = order(&ranks);
    proof {
        assert(numbered_up(ranks@));
        ordering_is_stable(ranks@);
    }
    let mut r: Vec<Entry> = Vec::new();
    let mut k: usize = 0;
    while k < ordered.len()
        invariant
            k <= ordered@.len() == ranks@.len() == list@.len(),
            ranks@ == entry_ranks(list@),
            ordered@ == newest_first(entry_ranks(list@)),
            forall|i: int| 0 <= i < ranks@.len() ==> ranks@.contains(#[trigger] ordered@[i]),
            r@ == by_recency(list@).take(k as int),
        decreases ordered@.len() - k,
    {
        let ghost m = ranks@.index_of(ordered@[k as int]);
        assert(ranks@.contains(ordered@[k as int]));
        assert(ranks@[m] == ordered@[k as int]);
        r.push(list[ordered[k].index]);
        assert(r@ =~= by_recency(list@).take(k + 1));
        k = k + 1;
    }
    assert(r@ =~= by_recency(list@));
    r
}

fn group_in_order(list: &Vec<Entry>, projects: &Vec<Home>) -> (r: Vec<ProjectGroup>)
    ensures
        project_group_views(r@) == with_homes(grouped(by_recency(list@)), projects@),
{
    let ordered = order_entries(list);
    let mut groups: Vec<ProjectGroup> = Vec::new();
    let mut i: usize = 0;
    assert(ordered@.take(0) =~= Seq::empty());
    assert(project_group_views(groups@) =~= Seq::empty());
    while i < ordered.len()
        invariant
            i <= ordered@.len(),
            project_group_views(groups@) == grouped(ordered@.take(i as int)),
        decreases ordered@.len() - i,
    {
        assert(ordered@.take(i + 1).drop_last() =~= ordered@.take(i as int));
        add_entry(&mut groups, ordered[i]);
        i = i + 1;
    }
    assert(ordered@.take(i as int) =~= ordered@);
    let ghost base = project_group_views(groups@);
    let mut p: usize = 0;
    assert(projects@.take(0) =~= Seq::empty());
    while p < projects.len()
        invariant
            p <= projects@.len(),
            project_group_views(groups@) == with_homes(base, projects@.take(p as int)),
        decreases projects@.len() - p,
    {
        assert(projects@.take(p + 1).drop_last() =~= projects@.take(p as int));
        let home = projects[p];
        if find_group(&groups, home.id).is_none() {
            let ghost before = groups@;
            let group = ProjectGroup { project_id: home.id, recency: home.created_at, sessions: Vec::new() };
            groups.push(group);
            assert(group@.sessions =~= Seq::empty());
            assert(project_group_views(groups@) =~= project_group_views(before).push(group@));
        }
        p = p + 1;
    }
    assert(projects@.take(p as int) =~= projects@);
    groups
}

/// A second list that holds the same.
pub fn copy_ids(ids: &Vec<Uuid>) -> (r: Vec<Uuid>)
    ensures
        r@ == ids@,
{
    let mut r: Vec<Uuid> = Vec::new();
    let mut i: usize = 0;
    while i < ids.len()
        invariant
            i <= ids@.len(),
            r@ == ids@.take(i as int),
        decreases ids@.len() - i,
    {
        r.push(ids[i]);
        assert(r@ =~= ids@.take(i + 1));
        i = i + 1;
    }
    assert(r@ =~= ids@);
    r
}

/// The history of started sessions: the project used last comes first, and in each the
/// session used last.
pub fn group_entries(list: &Vec<Entry>, projects: &Vec<Home>) -> (r: Vec<(Uuid, Vec<Uuid>)>)
    ensures
        pair_views(r@) == group_pairs(history(list@, projects@)),
{
    let groups = group_in_order(list, projects);
    let ghost views = project_group_views(groups@);
    let mut ranks: Vec<Ranked> = Vec::new();
    let mut i: usize = 0;
    while i < groups.len()
        invariant
            i <= groups@.len(),
            views == project_group_views(groups@),
            ranks@ == group_ranks(views).take(i as int),
        decreases groups@.len() - i,
    {
        ranks.push(Ranked { at: groups[i].recency, index: i });
        assert(ranks@ =~= group_ranks(views).take(i + 1));
        i = i + 1;
    }
    assert(ranks@ =~= group_ranks(views));
    let ordered = order(&ranks);
    proof {
        assert(numbered_up(ranks@));
        ordering_is_stable(ranks@);
    }
    let ghost target = group_pairs(history(list@, projects@));
    let mut r: Vec<(Uuid, Vec<Uuid>)> = Vec::new();
    let mut k: usize = 0;
    assert(pair_views(r@) =~= target.take(0));
    while k < ordered.len()
        invariant
            k <= ordered@.len() == ranks@.len() == groups@.len(),
            views == project_group_views(groups@),
            views == with_homes(grouped(by_recency(list@)), projects@),
            target == group_pairs(history(list@, projects@)),
            ranks@ == group_ranks(views),
            ordered@ == newest_first(group_ranks(views)),
            forall|i: int| 0 <= i < ranks@.len() ==> ranks@.contains(#[trigger] ordered@[i]),
            pair_views(r@) == target.take(k as int),
        decreases ordered@.len() - k,
    {
        let ghost m = ranks@.index_of(ordered@[k as int]);
        assert(ranks@.contains(ordered@[k as int]));
        assert(ranks@[m] == ordered@[k as int]);
        let group = &groups[ordered[k].index];
        let ghost before = r@;
        let sessions = copy_ids(&group.sessions);
        let pair = (group.project_id, sessions);
        r.push(pair);
        assert(pair_views(r@) =~= pair_views(before).push((pair.0, pair.1@)));
        assert(target[k as int] == (pair.0, pair.1@));
        assert(pair_views(r@) =~= target.take(k + 1));
        k = k + 1;
    }
    assert(target.take(k as int) =~= target);
    r
}

/// Started sessions grouped by project: the project used last comes first, and in each
/// the session used last. Every project has a group, even without a session; a scratch
/// directory only with one.
pub fn sidebar_project_groups(sessions: &[AgentSession], projects: &[Project]) -> (r: Vec<(Uuid, Vec<Uuid>)>)
    ensures
        pair_views(r@) == group_pairs(
            history(entries(agent_session_views(sessions@)), homes(project_views(projects@))),
        ),
{
    group_entries(&entries_of(sessions), &homes_of(projects))
}

} // verus!
