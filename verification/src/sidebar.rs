//! The sidebar: its rows, which groups are unfolded, and renaming a session in place.
use vstd::prelude::*;

use crate::ids::Uuid;
use crate::keyed::{IdMap, IdSet};
use crate::live::Desk;
use crate::model::{agent_session_views, project_views, AgentSession, Project};
use crate::seqs::{lemma_pos_none, lemma_pos_some, pos};
use crate::sidebar_groups::{
    copy_ids, entries, entries_of, group_entries, group_pairs, history, homes, homes_of, pair_views, Entry, Home,
};

verus! {

/// The height of a session's row with the gap beneath it, in pixels.
pub const SIDEBAR_SESSION_ROW_HEIGHT: u64 = 54;

/// How tall the body of an unfolded group grows, in pixels: six rows. The rest scrolls
/// inside the group.
pub const SIDEBAR_GROUP_BODY_MAX_HEIGHT: u64 = 324;

/// A project in the list, with its sessions.
#[derive(Debug)]
pub struct SidebarGroup {
    pub project_id: Uuid,
    pub sessions: Vec<Uuid>,
    pub unfolded: bool,
}

/// One row of the list.
#[derive(Debug)]
pub enum SidebarRow {
    /// The way to the search.
    Search,
    Group(SidebarGroup),
    /// The space between groups.
    GroupSpacer,
}

/// What a [`SidebarRow`] holds.
#[verifier::ext_equal]
pub ghost enum SidebarRowView {
    Search,
    Group { project_id: Uuid, sessions: Seq<Uuid>, unfolded: bool },
    GroupSpacer,
}

impl View for SidebarRow {
    type V = SidebarRowView;

    open spec fn view(&self) -> SidebarRowView {
        match self {
            SidebarRow::Search => SidebarRowView::Search,
            SidebarRow::Group(group) => SidebarRowView::Group {
                project_id: group.project_id,
                sessions: group.sessions@,
                unfolded: group.unfolded,
            },
            SidebarRow::GroupSpacer => SidebarRowView::GroupSpacer,
        }
    }
}

/// What a list of rows holds.
pub open spec fn row_views(rows: Seq<SidebarRow>) -> Seq<SidebarRowView> {
    rows.map_values(|r: SidebarRow| r@)
}

/// The rows of a history: the search, then every group with a space behind it.
pub open spec fn history_rows(groups: Seq<(Uuid, Seq<Uuid>)>, expanded: Set<Uuid>) -> Seq<SidebarRowView>
    decreases groups.len(),
{
    if groups.len() == 0 {
        seq![SidebarRowView::Search]
    } else {
        let group = groups.last();
        history_rows(groups.drop_last(), expanded).push(
            SidebarRowView::Group { project_id: group.0, sessions: group.1, unfolded: expanded.contains(group.0) },
        ).push(SidebarRowView::GroupSpacer)
    }
}

/// The rows of the sidebar.
pub open spec fn all_rows(list: Seq<Entry>, projects: Seq<Home>, expanded: Set<Uuid>) -> Seq<SidebarRowView> {
    history_rows(group_pairs(history(list, projects)), expanded)
}

/// How many rows two lists start with alike.
pub open spec fn rows_alike(a: Seq<SidebarRowView>, b: Seq<SidebarRowView>) -> nat
    decreases a.len(),
{
    if a.len() == 0 || b.len() == 0 || a[0] != b[0] {
        0
    } else {
        1 + rows_alike(a.drop_first(), b.drop_first())
    }
}

/// How the list on screen follows its rows.
#[derive(Clone, Copy, Debug, PartialEq, Eq, Structural)]
pub enum ListChange {
    Keep,
    /// Start over with this many rows.
    Reset { count: usize },
    /// Replace the rows from `start` to `old_end` by this many.
    Splice { start: usize, old_end: usize, added: usize },
}

/// The rows with what they were built from.
#[derive(Debug)]
pub struct RowSnapshot {
    pub sessions: Vec<Entry>,
    pub projects: Vec<Home>,
    pub rows: Vec<SidebarRow>,
}

/// The sidebar.
pub struct Sidebar {
    /// The projects whose groups are unfolded.
    pub expanded: IdSet,
    /// The session that is being renamed.
    pub rename: Option<Uuid>,
    /// The session that is about to come on screen.
    pub pending_session: Option<Uuid>,
    /// The rows, while nothing they were built from has changed.
    pub snapshot: Option<RowSnapshot>,
    /// The rows that the list on screen follows.
    pub shown: Vec<SidebarRow>,
    /// How many rows the list of each group has.
    pub group_items: IdMap<usize>,
}

/// How the list inside a group follows its sessions.
#[derive(Clone, Copy, Debug, PartialEq, Eq, Structural)]
pub struct GroupScroll {
    /// Whether its rows are replaced.
    pub splice: bool,
    /// Whether it scrolls back to where it was.
    pub restore: bool,
}

/// How tall the body of an unfolded group is, in pixels.
pub open spec fn body_height(sessions: nat) -> nat {
    if sessions * 54 <= 324 {
        sessions * 54
    } else {
        324
    }
}

/// How tall the body of an unfolded group is, in pixels: its rows, up to six.
pub fn sidebar_group_body_height(sessions: usize) -> (r: u64)
    ensures
        r == body_height(sessions as nat),
        r <= SIDEBAR_GROUP_BODY_MAX_HEIGHT,
{
    if sessions <= 6 {
        sessions as u64 * SIDEBAR_SESSION_ROW_HEIGHT
    } else {
        SIDEBAR_GROUP_BODY_MAX_HEIGHT
    }
}

fn same_ids(a: &Vec<Uuid>, b: &Vec<Uuid>) -> (r: bool)
    ensures
        r == (a@ == b@),
{
    if a.len() != b.len() {
        return false;
    }
    let mut i: usize = 0;
    while i < a.len()
        invariant
            i <= a@.len() == b@.len(),
            forall|j: int| 0 <= j < i ==> a@[j] == b@[j],
        decreases a@.len() - i,
    {
        if a[i] != b[i] {
            return false;
        }
        i = i + 1;
    }
    assert(a@ =~= b@);
    true
}

fn same_row(a: &SidebarRow, b: &SidebarRow) -> (r: bool)
    ensures
        r == (a@ == b@),
{
    match (a, b) {
        (SidebarRow::Search, SidebarRow::Search) => true,
        (SidebarRow::GroupSpacer, SidebarRow::GroupSpacer) => true,
        (SidebarRow::Group(a), SidebarRow::Group(b)) => a.project_id == b.project_id && a.unfolded == b.unfolded
            && same_ids(&a.sessions, &b.sessions),
        _ => false,
    }
}

fn copy_rows(rows: &Vec<SidebarRow>) -> (r: Vec<SidebarRow>)
    ensures
        row_views(r@) == row_views(rows@),
{
    let mut r: Vec<SidebarRow> = Vec::new();
    let mut i: usize = 0;
    assert(row_views(r@) =~= row_views(rows@).take(0));
    while i < rows.len()
        invariant
            i <= rows@.len(),
            row_views(r@) == row_views(rows@).take(i as int),
        decreases rows@.len() - i,
    {
        let ghost before = r@;
        let row = match &rows[i] {
            SidebarRow::Search => SidebarRow::Search,
            SidebarRow::Group(group) => SidebarRow::Group(
                SidebarGroup {
                    project_id: group.project_id,
                    sessions: copy_ids(&group.sessions),
                    unfolded: group.unfolded,
                },
            ),
            SidebarRow::GroupSpacer => SidebarRow::GroupSpacer,
        };
        assert(row@ == rows@[i as int]@);
        r.push(row);
        assert(row_views(r@) =~= row_views(before).push(row@));
        assert(row_views(r@) =~= row_views(rows@).take(i + 1));
        i = i + 1;
    }
    assert(row_views(r@) =~= row_views(rows@));
    r
}

fn same_entries(a: &Vec<Entry>, b: &Vec<Entry>) -> (r: bool)
    ensures
        r == (a@ == b@),
{
    if a.len() != b.len() {
        return false;
    }
    let mut i: usize = 0;
    while i < a.len()
        invariant
            i <= a@.len() == b@.len(),
            forall|j: int| 0 <= j < i ==> a@[j] == b@[j],
        decreases a@.len() - i,
    {
        if a[i] != b[i] {
            return false;
        }
        i = i + 1;
    }
    assert(a@ =~= b@);
    true
}

fn same_homes(a: &Vec<Home>, b: &Vec<Home>) -> (r: bool)
    ensures
        r == (a@ == b@),
{
    if a.len() != b.len() {
        return false;
    }
    let mut i: usize = 0;
    while i < a.len()
        invariant
            i <= a@.len() == b@.len(),
            forall|j: int| 0 <= j < i ==> a@[j] == b@[j],
        decreases a@.len() - i,
    {
        if a[i] != b[i] {
            return false;
        }
        i = i + 1;
    }
    assert(a@ =~= b@);
    true
}

fn id_position(ids: &Vec<Uuid>, id: Uuid) -> (r: Option<usize>)
    ensures
        match r {
            Some(i) => pos(ids@, id) == Some(i as int) && i < ids@.len(),
            None => pos(ids@, id) is None,
        },
{
    let mut i: usize = 0;
    while i < ids.len()
        invariant
            i <= ids@.len(),
            forall|j: int| 0 <= j < i ==> ids@[j] != id,
        decreases ids@.len() - i,
    {
        if ids[i] == id {
            proof {
                lemma_pos_some(ids@, id, i as int);
            }
            return Some(i);
        }
        i = i + 1;
    }
    proof {
        lemma_pos_none(ids@, id);
    }
    None
}

impl Sidebar {
    /// The rows that are kept are those of what they were built from.
    pub open spec fn wf(self) -> bool {
        self.snapshot matches Some(snapshot) ==> row_views(snapshot.rows@) == all_rows(
            snapshot.sessions@,
            snapshot.projects@,
            self.expanded@,
        )
    }

    /// Everything but the rows that are kept is as in another.
    pub open spec fn like(self, other: Sidebar) -> bool {
        self == (Sidebar { snapshot: self.snapshot, ..other })
    }

    /// A sidebar in which everything is folded.
    pub fn new() -> (r: Sidebar)
        ensures
            r.wf(),
            r.expanded@ == Set::<Uuid>::empty(),
            r.rename is None,
            r.pending_session is None,
            r.shown@.len() == 0,
            r.group_items@ == Map::<Uuid, usize>::empty(),
    {
        Sidebar {
            expanded: IdSet::new(),
            rename: None,
            pending_session: None,
            snapshot: None,
            shown: Vec::new(),
            group_items: IdMap::new(),
        }
    }

    fn rows_of(&self, list: &Vec<Entry>, projects: &Vec<Home>) -> (r: Vec<SidebarRow>)
        ensures
            row_views(r@) == all_rows(list@, projects@, self.expanded@),
    {
        let mut groups = group_entries(list, projects);
        let ghost whole = pair_views(groups@);
        let ghost all = groups@;
        let mut rows: Vec<SidebarRow> = Vec::new();
        rows.push(SidebarRow::Search);
        let ghost mut done: int = 0;
        assert(all.skip(0) =~= all);
        assert(whole.take(0) =~= Seq::empty());
        assert(row_views(rows@) =~= seq![SidebarRowView::Search]);
        while groups.len() > 0
            invariant
                0 <= done <= all.len(),
                groups@ == all.skip(done),
                whole == pair_views(all),
                row_views(rows@) == history_rows(whole.take(done), self.expanded@),
            decreases groups@.len(),
        {
            let (project_id, sessions) = groups.remove(0);
            let ghost before = rows@;
            proof {
                assert(all.skip(done).remove(0) =~= all.skip(done + 1));
                assert(whole.take(done + 1).drop_last() =~= whole.take(done));
                assert(whole.take(done + 1).last() == (project_id, sessions@));
            }
            let group = SidebarRow::Group(
                SidebarGroup { project_id, sessions, unfolded: self.expanded.contains(project_id) },
            );
            rows.push(group);
            assert(row_views(rows@) =~= row_views(before).push(group@));
            let ghost middle = rows@;
            rows.push(SidebarRow::GroupSpacer);
            assert(row_views(rows@) =~= row_views(middle).push(SidebarRowView::GroupSpacer));
            proof {
                done = done + 1;
            }
        }
        assert(whole.take(done) =~= whole);
        rows
    }

    /// The rows: the search, then every group of the history.
    pub fn sidebar_rows(&self, sessions: &[AgentSession], projects: &[Project]) -> (r: Vec<SidebarRow>)
        ensures
            row_views(r@) == all_rows(
                entries(agent_session_views(sessions@)),
                homes(project_views(projects@)),
                self.expanded@,
            ),
    {
        let list = entries_of(sessions);
        let projects = homes_of(projects);
        self.rows_of(&list, &projects)
    }

    /// The rows, built anew only where something they show has changed.
    pub fn sidebar_rows_cached(&mut self, sessions: &[AgentSession], projects: &[Project]) -> (r: Vec<SidebarRow>)
        requires
            old(self).wf(),
        ensures
            final(self).wf(),
            final(self).like(*old(self)),
            row_views(r@) == all_rows(
                entries(agent_session_views(sessions@)),
                homes(project_views(projects@)),
                old(self).expanded@,
            ),
    {
        let list = entries_of(sessions);
        let projects = homes_of(projects);
        if let Some(snapshot) = &self.snapshot {
            if same_entries(&snapshot.sessions, &list) && same_homes(&snapshot.projects, &projects) {
                return copy_rows(&snapshot.rows);
            }
        }
        let rows = self.rows_of(&list, &projects);
        let kept = copy_rows(&rows);
        self.snapshot = Some(RowSnapshot { sessions: list, projects, rows: kept });
        rows
    }

    /// Says how the list on screen follows the rows, touching no more than has changed.
    pub fn sync_sidebar_rows(&mut self, rows: &Vec<SidebarRow>) -> (r: ListChange)
        ensures
            r == (if row_views(old(self).shown@) == row_views(rows@) {
                ListChange::Keep
            } else if old(self).shown@.len() == 0 {
                ListChange::Reset { count: rows@.len() as usize }
            } else {
                let start = rows_alike(row_views(old(self).shown@), row_views(rows@));
                ListChange::Splice {
                    start: start as usize,
                    old_end: old(self).shown@.len() as usize,
                    added: (rows@.len() - start) as usize,
                }
            }),
            row_views(final(self).shown@) == row_views(rows@),
            *final(self) == (Sidebar { shown: final(self).shown, ..*old(self) }),
    {
        let ghost a = row_views(self.shown@);
        let ghost b = row_views(rows@);
        let old_end = self.shown.len();
        let count = rows.len();
        let mut start: usize = 0;
        assert(a.skip(0) =~= a);
        assert(b.skip(0) =~= b);
        while start < old_end && start < count && same_row(&self.shown[start], &rows[start])
            invariant
                a == row_views(self.shown@),
                b == row_views(rows@),
                old_end == a.len(),
                count == b.len(),
                start <= old_end,
                start <= count,
                *self == *old(self),
                forall|j: int| 0 <= j < start ==> a[j] == b[j],
                rows_alike(a, b) == start + rows_alike(a.skip(start as int), b.skip(start as int)),
            decreases old_end - start,
        {
            assert(a.skip(start as int)[0] == self.shown@[start as int]@);
            assert(b.skip(start as int)[0] == rows@[start as int]@);
            assert(a.skip(start as int).drop_first() =~= a.skip(start + 1));
            assert(b.skip(start as int).drop_first() =~= b.skip(start + 1));
            start = start + 1;
        }
        proof {
            if start < old_end && start < count {
                assert(a.skip(start as int)[0] == self.shown@[start as int]@);
                assert(b.skip(start as int)[0] == rows@[start as int]@);
            }
            assert(rows_alike(a, b) == start);
        }
        if start == old_end && start == count {
            assert(a =~= b);
            return ListChange::Keep;
        }
        proof {
            if a == b {
                assert(a.skip(start as int)[0] == b.skip(start as int)[0]);
            }
        }
        self.shown = copy_rows(rows);
        if old_end == 0 {
            ListChange::Reset { count }
        } else {
            ListChange::Splice { start, old_end, added: count - start }
        }
    }

    /// Says how the list inside a group follows its sessions. `anchor` is the row at its
    /// top.
    pub fn sidebar_group_scroll(&mut self, project_id: Uuid, sessions: usize, anchor: usize) -> (r: GroupScroll)
        ensures
            ({
                let items: usize = if old(self).group_items@.dom().contains(project_id) {
                    old(self).group_items@[project_id]
                } else {
                    0
                };
                r == (GroupScroll { splice: items != sessions, restore: items != sessions && anchor < sessions })
            }),
            final(self).group_items@ == old(self).group_items@.insert(project_id, sessions),
            *final(self) == (Sidebar { group_items: final(self).group_items, ..*old(self) }),
    {
        let items: usize = match self.group_items.get(project_id) {
            Some(items) => *items,
            None => 0,
        };
        let _ = self.group_items.insert(project_id, sessions);
        GroupScroll { splice: items != sessions, restore: items != sessions && anchor < sessions }
    }

    /// Folds or unfolds a group; whether that changed anything.
    pub fn set_sidebar_group_collapsed(&mut self, project_id: Uuid, collapsed: bool) -> (r: bool)
        requires
            old(self).wf(),
        ensures
            final(self).wf(),
            final(self).expanded@ == (if collapsed {
                old(self).expanded@.remove(project_id)
            } else {
                old(self).expanded@.insert(project_id)
            }),
            r == (old(self).expanded@.contains(project_id) == collapsed),
            *final(self) == (Sidebar {
                expanded: final(self).expanded,
                snapshot: final(self).snapshot,
                ..*old(self)
            }),
    {
        let changed = if collapsed {
            self.expanded.remove(project_id)
        } else {
            self.expanded.insert(project_id)
        };
        self.snapshot = None;
        changed
    }

    /// Folds a group that is unfolded, and unfolds one that is folded.
    pub fn toggle_sidebar_group(&mut self, project_id: Uuid) -> (r: bool)
        requires
            old(self).wf(),
        ensures
            final(self).wf(),
            final(self).expanded@ == (if old(self).expanded@.contains(project_id) {
                old(self).expanded@.remove(project_id)
            } else {
                old(self).expanded@.insert(project_id)
            }),
            r,
            *final(self) == (Sidebar {
                expanded: final(self).expanded,
                snapshot: final(self).snapshot,
                ..*old(self)
            }),
    {
        let collapsed = self.expanded.contains(project_id);
        self.set_sidebar_group_collapsed(project_id, collapsed)
    }
}

/// Where a session stands in the group of its project: how many sessions the group has,
/// and its place.
pub open spec fn place_in_group(rows: Seq<SidebarRowView>, project_id: Uuid, session_id: Uuid) -> Option<(nat, int)>
    decreases rows.len(),
{
    if rows.len() == 0 {
        None
    } else {
        let here = match rows[0] {
            SidebarRowView::Group { project_id: project, sessions, .. } if project == project_id => match pos(
                sessions,
                session_id,
            ) {
                Some(i) => Some((sessions.len(), i)),
                None => None,
            },
            _ => None,
        };
        match here {
            Some(place) => Some(place),
            None => place_in_group(rows.drop_first(), project_id, session_id),
        }
    }
}

fn find_in_group(rows: &Vec<SidebarRow>, project_id: Uuid, session_id: Uuid) -> (r: Option<(usize, usize)>)
    ensures
        match r {
            Some((count, index)) => place_in_group(row_views(rows@), project_id, session_id) == Some(
                (count as nat, index as int),
            ),
            None => place_in_group(row_views(rows@), project_id, session_id) is None,
        },
{
    let ghost views = row_views(rows@);
    let mut i: usize = 0;
    assert(views.skip(0) =~= views);
    while i < rows.len()
        invariant
            i <= rows@.len(),
            views == row_views(rows@),
            place_in_group(views, project_id, session_id) == place_in_group(views.skip(i as int), project_id, session_id),
        decreases rows@.len() - i,
    {
        assert(views.skip(i as int)[0] == rows@[i as int]@);
        assert(views.skip(i as int).drop_first() =~= views.skip(i + 1));
        if let SidebarRow::Group(group) = &rows[i] {
            if group.project_id == project_id {
                if let Some(index) = id_position(&group.sessions, session_id) {
                    return Some((group.sessions.len(), index));
                }
            }
        }
        i = i + 1;
    }
    assert(views.skip(i as int).len() == 0);
    None
}

/// What unfolding the group of a session shows.
#[derive(Clone, Copy, Debug)]
pub struct Revealed {
    pub project_id: Uuid,
    /// Whether the group was folded.
    pub unfolded: bool,
    /// How many sessions the group has and the place of the session in it, where it has
    /// started.
    pub place: Option<(usize, usize)>,
}

impl Sidebar {
    /// Unfolds the group of a session, and says where the session stands in it.
    pub fn reveal_sidebar_session_project(&mut self, desk: &Desk, session_id: Uuid) -> (r: Option<Revealed>)
        requires
            old(self).wf(),
        ensures
            final(self).wf(),
            *final(self) == (Sidebar {
                expanded: final(self).expanded,
                snapshot: final(self).snapshot,
                ..*old(self)
            }),
            match desk@.session(session_id) {
                None => r is None && *final(self) == *old(self),
                Some(session) => {
                    &&& final(self).expanded@ == old(self).expanded@.insert(session.project_id)
                    &&& r matches Some(revealed)
                    &&& revealed.project_id == session.project_id
                    &&& revealed.unfolded == !old(self).expanded@.contains(session.project_id)
                    &&& match revealed.place {
                        Some((count, index)) => place_in_group(
                            all_rows(entries(desk@.state.sessions), homes(desk@.state.projects), final(self).expanded@),
                            session.project_id,
                            session_id,
                        ) == Some((count as nat, index as int)),
                        None => place_in_group(
                            all_rows(entries(desk@.state.sessions), homes(desk@.state.projects), final(self).expanded@),
                            session.project_id,
                            session_id,
                        ) is None,
                    }
                },
            },
    {
        let project_id = match desk.state.session_index(session_id) {
            Some(i) => desk.state.sessions[i].project_id,
            None => {
                return None;
            },
        };
        let unfolded = self.set_sidebar_group_collapsed(project_id, false);
        let rows = self.sidebar_rows_cached(desk.state.sessions.as_slice(), desk.state.projects.as_slice());
        let place = find_in_group(&rows, project_id, session_id);
        Some(Revealed { project_id, unfolded, place })
    }
}

/// Where the list of a group scrolls so that a session comes into view, in pixels from
/// its top, or nothing where the session is in view. `scrolled` is where the list is.
pub open spec fn scroll_target(sessions: nat, index: nat, scrolled: int) -> Option<int> {
    let top = index * 54;
    let height = body_height(sessions) as int;
    if top >= scrolled && top + 54 <= scrolled + height {
        None
    } else if top + 54 >= height {
        Some(top + 54 - height)
    } else {
        Some(0)
    }
}

/// Says which row of a group comes to the top of its list so that the session at `index`
/// comes into view; nothing where it is in view. The session stands at the bottom then:
/// above it are the newer ones. `scrolled` is where the list is, in pixels.
pub fn reveal_sidebar_group_session(sessions: usize, index: usize, scrolled: i64) -> (r: Option<usize>)
    requires
        index < sessions,
    ensures
        match r {
            Some(row) => scroll_target(sessions as nat, index as nat, scrolled as int) == Some(row * 54),
            None => scroll_target(sessions as nat, index as nat, scrolled as int) is None,
        },
{
    let top: i128 = index as i128 * 54;
    let height: i128 = sidebar_group_body_height(sessions) as i128;
    let from: i128 = scrolled as i128;
    if top >= from && top + 54 <= from + height {
        return None;
    }
    let visible: usize = if sessions <= 6 {
        sessions
    } else {
        6
    };
    if index + 1 >= visible {
        Some(index + 1 - visible)
    } else {
        Some(0)
    }
}

/// No row of a group is ever cut off at its bottom: the body ends between rows, and a
/// session that is brought into view is wholly in view.
pub proof fn rows_are_never_cut(sessions: nat, index: nat, scrolled: int)
    requires
        index < sessions,
    ensures
        body_height(sessions) % 54 == 0,
        scroll_target(sessions, index, scrolled) matches Some(target) ==> target % 54 == 0 && target <= index * 54
            && index * 54 + 54 <= target + body_height(sessions),
{
}

proof fn lemma_rows_alike(a: Seq<SidebarRowView>, b: Seq<SidebarRowView>)
    ensures
        rows_alike(a, b) <= a.len(),
        rows_alike(a, b) <= b.len(),
        a.take(rows_alike(a, b) as int) == b.take(rows_alike(a, b) as int),
    decreases a.len(),
{
    if a.len() > 0 && b.len() > 0 && a[0] == b[0] {
        lemma_rows_alike(a.drop_first(), b.drop_first());
        let n = rows_alike(a, b) as int;
        assert(a.take(n) =~= seq![a[0]] + a.drop_first().take(n - 1));
        assert(b.take(n) =~= seq![b[0]] + b.drop_first().take(n - 1));
    } else {
        assert(a.take(0) =~= b.take(0));
    }
}

/// The list on screen shows the new rows after a splice: the rows before it were the same.
pub proof fn splicing_shows_the_rows(shown: Seq<SidebarRowView>, rows: Seq<SidebarRowView>)
    ensures
        rows_alike(shown, rows) <= shown.len(),
        shown.take(rows_alike(shown, rows) as int) + rows.skip(rows_alike(shown, rows) as int) == rows,
{
    lemma_rows_alike(shown, rows);
    assert(rows.take(rows_alike(shown, rows) as int) + rows.skip(rows_alike(shown, rows) as int) =~= rows);
}

} // verus!
