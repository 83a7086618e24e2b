//! The files of the workspace as a list: directories first, by name, and what is in a
//! directory beneath it while it is unfolded.
use vstd::prelude::*;

use crate::file_types::{file_icon_for_name, icon_for};
use crate::keyed::StrSet;
use crate::lexical::{comes_before, lemma_precedes_total, lemma_precedes_transitive, precedes};
use crate::text::same;

verus! {

/// A text in lower case, in every script that has cases.
pub uninterp spec fn lowercase(s: Seq<char>) -> Seq<char>;

/// Calls [`str::to_lowercase`]. Its result is a function of the text alone; which
/// characters it maps to which is Unicode's matter and is not stated.
#[verifier::external_body]
pub(crate) fn lowercase_of(s: &str) -> (r: String)
    ensures
        r@ == lowercase(s@),
{
    s.to_lowercase()
}

/// An entry of a directory on disk.
#[derive(Debug)]
pub struct Child {
    pub path: String,
    pub name: String,
    pub is_dir: bool,
}

/// What a [`Child`] holds.
#[verifier::ext_equal]
pub ghost struct ChildView {
    pub path: Seq<char>,
    pub name: Seq<char>,
    pub is_dir: bool,
}

impl View for Child {
    type V = ChildView;

    open spec fn view(&self) -> ChildView {
        ChildView { path: self.path@, name: self.name@, is_dir: self.is_dir }
    }
}

/// What a list of them holds.
pub open spec fn child_views(s: Seq<Child>) -> Seq<ChildView> {
    s.map_values(|x: Child| x@)
}

/// A row of the list.
#[derive(Debug)]
pub struct WorkingTreeEntry {
    /// Its path in the workspace.
    pub relative_path: String,
    pub absolute_path: String,
    pub name: String,
    pub is_dir: bool,
    pub file_icon: Option<&'static str>,
    /// Whether what is in it is shown.
    pub expanded: bool,
    /// How many directories it stands in.
    pub depth: usize,
}

/// What a [`WorkingTreeEntry`] holds.
#[verifier::ext_equal]
pub ghost struct WorkingTreeEntryView {
    pub relative_path: Seq<char>,
    pub absolute_path: Seq<char>,
    pub name: Seq<char>,
    pub is_dir: bool,
    pub file_icon: Option<Seq<char>>,
    pub expanded: bool,
    pub depth: usize,
}

impl View for WorkingTreeEntry {
    type V = WorkingTreeEntryView;

    open spec fn view(&self) -> WorkingTreeEntryView {
        WorkingTreeEntryView {
            relative_path: self.relative_path@,
            absolute_path: self.absolute_path@,
            name: self.name@,
            is_dir: self.is_dir,
            file_icon: match self.file_icon {
                Some(icon) => Some(icon@),
                None => None,
            },
            expanded: self.expanded,
            depth: self.depth,
        }
    }
}

/// What a list of them holds.
pub open spec fn entry_views(s: Seq<WorkingTreeEntry>) -> Seq<WorkingTreeEntryView> {
    s.map_values(|x: WorkingTreeEntry| x@)
}

/// An entry does not come after another: directories come first, then names count, whatever
/// their case.
pub open spec fn not_after(a: ChildView, b: ChildView) -> bool {
    if a.is_dir != b.is_dir {
        a.is_dir
    } else {
        !precedes(lowercase(b.name), lowercase(a.name))
    }
}

/// An ordered list with an entry put in its place, behind what is alike.
pub open spec fn with_child(children: Seq<ChildView>, child: ChildView) -> Seq<ChildView>
    decreases children.len(),
{
    if children.len() == 0 || not_after(children.last(), child) {
        children.push(child)
    } else {
        with_child(children.drop_last(), child).push(children.last())
    }
}

/// The entries of a directory in order, without the repository's own.
pub open spec fn ordered_children(children: Seq<ChildView>) -> Seq<ChildView>
    decreases children.len(),
{
    if children.len() == 0 {
        Seq::empty()
    } else {
        let before = ordered_children(children.drop_last());
        if children.last().name == ".git"@ {
            before
        } else {
            with_child(before, children.last())
        }
    }
}

/// The path of an entry in the workspace.
pub open spec fn joined_path(directory: Seq<char>, name: Seq<char>) -> Seq<char> {
    if directory.len() == 0 {
        name
    } else {
        directory + seq!['/'] + name
    }
}

/// The row of an entry.
pub open spec fn entry_of(child: ChildView, directory: Seq<char>, depth: usize, expanded: Set<Seq<char>>) -> WorkingTreeEntryView {
    WorkingTreeEntryView {
        relative_path: joined_path(directory, child.name),
        absolute_path: child.path,
        name: child.name,
        is_dir: child.is_dir,
        file_icon: if child.is_dir {
            None
        } else {
            Some(icon_for(child.name))
        },
        expanded: child.is_dir && expanded.contains(child.path),
        depth,
    }
}

/// The rows of a directory.
pub open spec fn directory_rows(children: Seq<ChildView>, directory: Seq<char>, depth: usize, expanded: Set<Seq<char>>) -> Seq<
    WorkingTreeEntryView,
> {
    ordered_children(children).map_values(|child: ChildView| entry_of(child, directory, depth, expanded))
}

fn is_not_after(a: &Child, b: &Child) -> (r: bool)
    ensures
        r == not_after(a@, b@),
{
    if a.is_dir != b.is_dir {
        a.is_dir
    } else {
        let x = lowercase_of(a.name.as_str());
        let y = lowercase_of(b.name.as_str());
        !comes_before(y.as_str(), x.as_str())
    }
}

fn put_child(children: &mut Vec<Child>, child: Child)
    ensures
        child_views(final(children)@) == with_child(child_views(old(children)@), child@),
{
    let ghost before = child_views(children@);
    let ghost all = children@;
    let mut i: usize = children.len();
    assert(before.take(i as int) =~= before);
    assert(with_child(before, child@) =~= with_child(before.take(i as int), child@) + before.skip(i as int));
    while i > 0 && !is_not_after(&children[i - 1], &child)
        invariant
            i <= children@.len() == before.len(),
            children@ == all,
            before == child_views(all),
            with_child(before, child@) == with_child(before.take(i as int), child@) + before.skip(i as int),
        decreases i,
    {
        assert(before.take(i as int).drop_last() =~= before.take(i - 1));
        assert(before.take(i as int).last() == before[i - 1]);
        assert(with_child(before.take(i as int), child@) + before.skip(i as int) =~= with_child(
            before.take(i - 1),
            child@,
        ) + before.skip(i - 1));
        i = i - 1;
    }
    proof {
        if i > 0 {
            assert(before.take(i as int).last() == before[i - 1]);
        }
    }
    children.insert(i, child);
    assert(child_views(children@) =~= before.take(i as int).push(child@) + before.skip(i as int));
}

/// Orders the entries of a directory.
pub fn order_children(children: Vec<Child>) -> (r: Vec<Child>)
    ensures
        child_views(r@) == ordered_children(child_views(children@)),
{
    let mut all = children;
    let ghost whole = all@;
    let ghost views = child_views(whole);
    let mut r: Vec<Child> = Vec::new();
    let ghost mut done: int = 0;
    assert(whole.skip(0) =~= whole);
    assert(views.take(0) =~= Seq::empty());
    assert(child_views(r@) =~= Seq::empty());
    while all.len() > 0
        invariant
            0 <= done <= whole.len(),
            all@ == whole.skip(done),
            views == child_views(whole),
            child_views(r@) == ordered_children(views.take(done)),
        decreases all@.len(),
    {
        let child = all.remove(0);
        proof {
            assert(whole.skip(done).remove(0) =~= whole.skip(done + 1));
            assert(views.take(done + 1).drop_last() =~= views.take(done));
            assert(views.take(done + 1).last() == child@);
        }
        if !same(child.name.as_str(), ".git") {
            put_child(&mut r, child);
        }
        proof {
            done = done + 1;
        }
    }
    assert(views.take(done) =~= views);
    r
}

fn join_path(directory: &str, name: &str) -> (r: String)
    ensures
        r@ == joined_path(directory@, name@),
{
    if directory.unicode_len() == 0 {
        return name.to_owned();
    }
    let mut r = directory.to_owned();
    r.push('/');
    r.append(name);
    assert(r@ =~= joined_path(directory@, name@));
    r
}

/// A directory that is to be read.
#[derive(Debug)]
pub struct Directory {
    pub relative_path: String,
    pub absolute_path: String,
    pub depth: usize,
}

/// A walk through the workspace: the host reads directories one at a time, and the walk
/// says which comes next.
#[derive(Debug)]
pub struct TreeWalk {
    /// The rows that were reached.
    pub entries: Vec<WorkingTreeEntry>,
    /// The rows still ahead, the next one last.
    pub ahead: Vec<WorkingTreeEntry>,
}

/// What a [`TreeWalk`] holds: the rows that were reached, and those ahead in order.
#[verifier::ext_equal]
pub ghost struct TreeWalkView {
    pub entries: Seq<WorkingTreeEntryView>,
    pub ahead: Seq<WorkingTreeEntryView>,
}

impl View for TreeWalk {
    type V = TreeWalkView;

    open spec fn view(&self) -> TreeWalkView {
        TreeWalkView { entries: entry_views(self.entries@), ahead: entry_views(self.ahead@).reverse() }
    }
}

/// How many rows come up to and with the first that is unfolded; all where none is.
pub open spec fn upto_unfolded(rows: Seq<WorkingTreeEntryView>) -> nat
    decreases rows.len(),
{
    if rows.len() == 0 {
        0
    } else if rows[0].expanded {
        1
    } else {
        1 + upto_unfolded(rows.drop_first())
    }
}

impl TreeWalkView {
    /// A row ahead is no deeper than rows were reached.
    pub open spec fn wf(self) -> bool {
        forall|k: int| 0 <= k < self.ahead.len() ==> (#[trigger] self.ahead[k]).depth <= self.entries.len()
    }

    /// The rows of a directory come next.
    pub open spec fn entered(
        self,
        children: Seq<ChildView>,
        directory: Seq<char>,
        depth: usize,
        expanded: Set<Seq<char>>,
    ) -> TreeWalkView {
        TreeWalkView { ahead: directory_rows(children, directory, depth, expanded) + self.ahead, ..self }
    }

    /// Every row up to the next unfolded directory is reached.
    pub open spec fn advanced(self) -> TreeWalkView {
        let n = upto_unfolded(self.ahead) as int;
        TreeWalkView { entries: self.entries + self.ahead.take(n), ahead: self.ahead.skip(n) }
    }

    /// The directory that is to be read next: the next row that is unfolded.
    pub open spec fn next_directory(self) -> Option<WorkingTreeEntryView> {
        let n = upto_unfolded(self.ahead) as int;
        if n > 0 && n <= self.ahead.len() && self.ahead[n - 1].expanded {
            Some(self.ahead[n - 1])
        } else {
            None
        }
    }
}

pub(crate) proof fn lemma_upto_unfolded(rows: Seq<WorkingTreeEntryView>)
    ensures
        upto_unfolded(rows) <= rows.len(),
        forall|k: int| 0 <= k < upto_unfolded(rows) - 1 ==> !(#[trigger] rows[k]).expanded,
        upto_unfolded(rows) < rows.len() ==> upto_unfolded(rows) > 0 && rows[upto_unfolded(rows) - 1].expanded,
        rows.len() > 0 ==> upto_unfolded(rows) > 0,
    decreases rows.len(),
{
    if rows.len() > 0 && !rows[0].expanded {
        let rest = rows.drop_first();
        lemma_upto_unfolded(rest);
        assert forall|k: int| 0 <= k < upto_unfolded(rows) - 1 implies !(#[trigger] rows[k]).expanded by {
            if k > 0 {
                assert(rows[k] == rest[k - 1]);
            }
        }
    }
}

proof fn lemma_entered(
    walk: TreeWalkView,
    children: Seq<ChildView>,
    directory: Seq<char>,
    depth: usize,
    expanded: Set<Seq<char>>,
)
    requires
        depth <= walk.entries.len(),
    ensures
        walk.wf() ==> walk.entered(children, directory, depth, expanded).wf(),
{
    let rows = directory_rows(children, directory, depth, expanded);
    let next = walk.entered(children, directory, depth, expanded);
    if walk.wf() {
        assert forall|k: int| 0 <= k < next.ahead.len() implies (#[trigger] next.ahead[k]).depth <= next.entries.len() by {
            if k < rows.len() {
                assert(next.ahead[k] == rows[k]);
            } else {
                assert(next.ahead[k] == walk.ahead[k - rows.len()]);
            }
        }
    }
}

proof fn lemma_advanced(walk: TreeWalkView)
    ensures
        walk.wf() ==> walk.advanced().wf(),
        walk.wf() ==> (walk.next_directory() matches Some(entry) ==> entry.depth < walk.advanced().entries.len()),
{
    let n = upto_unfolded(walk.ahead) as int;
    let next = walk.advanced();
    lemma_upto_unfolded(walk.ahead);
    if walk.wf() {
        assert forall|k: int| 0 <= k < next.ahead.len() implies (#[trigger] next.ahead[k]).depth <= next.entries.len() by {
            assert(next.ahead[k] == walk.ahead[k + n]);
        }
    }
}

impl TreeWalk {
    /// A walk that has read nothing.
    pub fn new() -> (r: TreeWalk)
        ensures
            r@.entries == Seq::<WorkingTreeEntryView>::empty(),
            r@.ahead == Seq::<WorkingTreeEntryView>::empty(),
            r@.wf(),
    {
        let r = TreeWalk { entries: Vec::new(), ahead: Vec::new() };
        assert(r@.entries =~= Seq::empty());
        assert(r@.ahead =~= Seq::empty());
        r
    }

    /// Takes in what the host read in the workspace itself. Where it cannot be read it is
    /// empty.
    pub fn enter_root(&mut self, children: Vec<Child>, expanded: &StrSet)
        ensures
            final(self)@ == old(self)@.entered(child_views(children@), ""@, 0, expanded@),
            old(self)@.wf() ==> final(self)@.wf(),
    {
        self.enter(children, "", 0, expanded);
        proof {
            lemma_entered(old(self)@, child_views(children@), ""@, 0, expanded@);
        }
    }

    /// Takes in what the host read in a directory that the walk asked for. Its rows stand
    /// one deeper than it does. One that cannot be read is empty.
    pub fn enter_directory(&mut self, children: Vec<Child>, directory: &Directory, expanded: &StrSet)
        requires
            directory.depth < old(self)@.entries.len(),
        ensures
            final(self)@ == old(self)@.entered(
                child_views(children@),
                directory.relative_path@,
                (directory.depth + 1) as usize,
                expanded@,
            ),
            old(self)@.wf() ==> final(self)@.wf(),
    {
        let reached = self.entries.len();
        assert(directory.depth < reached);
        self.enter(children, directory.relative_path.as_str(), directory.depth + 1, expanded);
        proof {
            lemma_entered(
                old(self)@,
                child_views(children@),
                directory.relative_path@,
                (directory.depth + 1) as usize,
                expanded@,
            );
        }
    }

    fn enter(&mut self, children: Vec<Child>, directory: &str, depth: usize, expanded: &StrSet)
        ensures
            final(self)@ == old(self)@.entered(child_views(children@), directory@, depth, expanded@),
    {
        let mut ordered = order_children(children);
        let ghost all = ordered@;
        let ghost rows = directory_rows(child_views(children@), directory@, depth, expanded@);
        let ghost start = entry_views(self.ahead@);
        assert(rows.len() == all.len());
        assert(entry_views(self.ahead@) =~= start + rows.skip(rows.len() as int).reverse());
        while ordered.len() > 0
            invariant
                ordered@.len() <= all.len() == rows.len(),
                ordered@ == all.take(ordered@.len() as int),
                child_views(all) == ordered_children(child_views(children@)),
                rows == directory_rows(child_views(children@), directory@, depth, expanded@),
                self.entries == old(self).entries,
                entry_views(self.ahead@) == start + rows.skip(ordered@.len() as int).reverse(),
            decreases ordered@.len(),
        {
            let ghost n = ordered@.len() as int;
            if let Some(child) = ordered.pop() {
                proof {
                    assert(child == all[n - 1]);
                    assert(ordered@ =~= all.take(n - 1));
                    assert(child_views(all)[n - 1] == child@);
                }
                let relative_path = join_path(directory, child.name.as_str());
                let unfolded = child.is_dir && expanded.contains(child.path.as_str());
                let icon = if child.is_dir {
                    None
                } else {
                    Some(file_icon_for_name(child.name.as_str()))
                };
                let entry = WorkingTreeEntry {
                    relative_path,
                    absolute_path: child.path,
                    name: child.name,
                    is_dir: child.is_dir,
                    file_icon: icon,
                    expanded: unfolded,
                    depth,
                };
                assert(entry@ == rows[n - 1]);
                let ghost before = self.ahead@;
                self.ahead.push(entry);
                assert(entry_views(self.ahead@) =~= entry_views(before).push(entry@));
                assert(rows.skip(n - 1).reverse() =~= rows.skip(n).reverse().push(rows[n - 1]));
                assert(entry_views(self.ahead@) =~= start + rows.skip(n - 1).reverse());
            }
        }
        assert(rows.skip(0) =~= rows);
        assert((start + rows.reverse()).reverse() =~= rows + start.reverse());
    }

    /// Reaches every row up to the next unfolded directory, which the host reads next; at
    /// the end there is none.
    pub fn advance(&mut self) -> (r: Option<Directory>)
        ensures
            final(self)@ == old(self)@.advanced(),
            match r {
                Some(directory) => old(self)@.next_directory() matches Some(entry) && directory.relative_path@
                    == entry.relative_path && directory.absolute_path@ == entry.absolute_path && directory.depth
                    == entry.depth && (old(self)@.wf() ==> directory.depth < final(self)@.entries.len()),
                None => old(self)@.next_directory() is None,
            },
            old(self)@.wf() ==> final(self)@.wf(),
    {
        let ghost start = self@;
        let ghost mut done: int = 0;
        assert(start.ahead.skip(0) =~= start.ahead);
        assert(self@.entries =~= start.entries + start.ahead.take(0));
        proof {
            lemma_upto_unfolded(start.ahead);
            lemma_advanced(start);
        }
        while self.ahead.len() > 0
            invariant
                start == old(self)@,
                0 <= done <= start.ahead.len(),
                self@.ahead == start.ahead.skip(done),
                self@.entries == start.entries + start.ahead.take(done),
                upto_unfolded(start.ahead) == done + upto_unfolded(start.ahead.skip(done)),
                done > 0 ==> !start.ahead[done - 1].expanded,
            decreases self.ahead@.len(),
        {
            let ghost before = self.ahead@;
            let ghost reached = self.entries@;
            proof {
                assert(self@.ahead.len() == before.len());
                assert(start.ahead.skip(done)[0] == before[before.len() - 1]@);
                assert(start.ahead.skip(done).drop_first() =~= start.ahead.skip(done + 1));
            }
            if let Some(entry) = self.ahead.pop() {
                let found = if entry.expanded {
                    Some(
                        Directory {
                            relative_path: entry.relative_path.clone(),
                            absolute_path: entry.absolute_path.clone(),
                            depth: entry.depth,
                        },
                    )
                } else {
                    None
                };
                let unfolded = entry.expanded;
                self.entries.push(entry);
                proof {
                    assert(entry_views(self.entries@) =~= entry_views(reached).push(start.ahead[done]));
                    assert(self@.entries =~= start.entries + start.ahead.take(done + 1));
                    assert(entry_views(self.ahead@).reverse() =~= start.ahead.skip(done + 1)) by {
                        assert(entry_views(before).reverse() =~= start.ahead.skip(done));
                        assert forall|k: int| 0 <= k < self.ahead@.len() implies #[trigger] entry_views(
                            self.ahead@,
                        ).reverse()[k] == start.ahead.skip(done + 1)[k] by {
                            assert(entry_views(before).reverse()[k + 1] == start.ahead.skip(done)[k + 1]);
                        }
                    }
                    done = done + 1;
                }
                if unfolded {
                    assert(upto_unfolded(start.ahead) == done);
                    return found;
                }
            }
        }
        proof {
            assert(start.ahead.skip(done).len() == 0);
            assert(upto_unfolded(start.ahead) == done);
            assert(start.ahead.take(done) =~= start.ahead);
        }
        None
    }
}

/// Only directories that are unfolded are read: whatever the walk asks for is a row that is
/// marked unfolded, and rows are marked so only for directories that the user unfolded.
pub proof fn only_unfolded_directories_are_read(
    walk: TreeWalkView,
    children: Seq<ChildView>,
    directory: Seq<char>,
    depth: usize,
    expanded: Set<Seq<char>>,
)
    ensures
        walk.next_directory() matches Some(entry) ==> entry.expanded,
        forall|k: int|
            0 <= k < directory_rows(children, directory, depth, expanded).len() ==> ((#[trigger] directory_rows(
                children,
                directory,
                depth,
                expanded,
            )[k]).expanded ==> directory_rows(children, directory, depth, expanded)[k].is_dir && expanded.contains(
                directory_rows(children, directory, depth, expanded)[k].absolute_path,
            )),
{
}

/// The entries of a list stand in order.
pub open spec fn in_order(children: Seq<ChildView>) -> bool {
    forall|i: int, j: int| 0 <= i < j < children.len() ==> not_after(#[trigger] children[i], #[trigger] children[j])
}

proof fn lemma_not_after_total(a: ChildView, b: ChildView)
    ensures
        not_after(a, b) || not_after(b, a),
{
    if a.is_dir == b.is_dir && precedes(lowercase(b.name), lowercase(a.name)) && precedes(
        lowercase(a.name),
        lowercase(b.name),
    ) {
        lemma_precedes_transitive(lowercase(a.name), lowercase(b.name), lowercase(a.name));
        crate::lexical::lemma_precedes_irreflexive(lowercase(a.name));
    }
}

proof fn lemma_not_after_transitive(a: ChildView, b: ChildView, c: ChildView)
    requires
        not_after(a, b),
        not_after(b, c),
    ensures
        not_after(a, c),
{
    if a.is_dir == b.is_dir && b.is_dir == c.is_dir {
        let x = lowercase(a.name);
        let y = lowercase(b.name);
        let z = lowercase(c.name);
        if precedes(z, x) {
            lemma_precedes_total(x, y);
            if precedes(x, y) {
                lemma_precedes_transitive(z, x, y);
            }
        }
    }
}

proof fn lemma_with_child(children: Seq<ChildView>, child: ChildView)
    requires
        in_order(children),
    ensures
        in_order(with_child(children, child)),
        forall|k: int|
            0 <= k < with_child(children, child).len() ==> (#[trigger] with_child(children, child)[k] == child
                || children.contains(with_child(children, child)[k])),
    decreases children.len(),
{
    let after = with_child(children, child);
    if children.len() == 0 || not_after(children.last(), child) {
        assert forall|k: int| 0 <= k < after.len() implies (#[trigger] after[k] == child || children.contains(after[k])) by {
            if k < children.len() {
                assert(after[k] == children[k]);
            }
        }
        assert forall|i: int, j: int| 0 <= i < j < after.len() implies not_after(#[trigger] after[i], #[trigger] after[j]) by {
            if j == children.len() && i < children.len() - 1 {
                lemma_not_after_transitive(children[i], children.last(), child);
            }
        }
    } else {
        let front = children.drop_last();
        let last = children.last();
        lemma_with_child(front, child);
        lemma_not_after_total(last, child);
        let inner = with_child(front, child);
        assert forall|k: int| 0 <= k < after.len() implies (#[trigger] after[k] == child || children.contains(after[k])) by {
            if k < inner.len() {
                assert(after[k] == inner[k]);
                if inner[k] != child {
                    let m = front.index_of(inner[k]);
                    assert(children[m] == front[m]);
                }
            } else {
                assert(after[k] == children[children.len() - 1]);
            }
        }
        assert forall|i: int, j: int| 0 <= i < j < after.len() implies not_after(#[trigger] after[i], #[trigger] after[j]) by {
            if j == inner.len() {
                assert(after[i] == inner[i]);
                if inner[i] != child {
                    let m = front.index_of(inner[i]);
                    assert(children[m] == front[m]);
                    assert(not_after(children[m], children[children.len() - 1]));
                }
            } else {
                assert(after[i] == inner[i] && after[j] == inner[j]);
            }
        }
    }
}

/// The rows of a directory stand in order: directories first, then by name.
pub proof fn directories_come_first(children: Seq<ChildView>)
    ensures
        in_order(ordered_children(children)),
    decreases children.len(),
{
    if children.len() > 0 {
        directories_come_first(children.drop_last());
        lemma_with_child(ordered_children(children.drop_last()), children.last());
    }
}

/// The entries of a directory without the repository's own.
pub open spec fn without_repository(children: Seq<ChildView>) -> Seq<ChildView> {
    children.filter(|child: ChildView| child.name != ".git"@)
}

proof fn lemma_with_child_adds(children: Seq<ChildView>, child: ChildView)
    ensures
        with_child(children, child).to_multiset() == children.to_multiset().insert(child),
    decreases children.len(),
{
    children.to_multiset_ensures();
    if children.len() > 0 && !not_after(children.last(), child) {
        let head = children.drop_last();
        lemma_with_child_adds(head, child);
        head.to_multiset_ensures();
        with_child(head, child).to_multiset_ensures();
        assert(head.push(children.last()) =~= children);
        assert(with_child(children, child).to_multiset() =~= children.to_multiset().insert(child));
    }
}

/// Ordering a directory keeps every entry but the repository's own, each as often as it is
/// there, and adds none.
pub proof fn ordering_keeps_every_entry(children: Seq<ChildView>)
    ensures
        ordered_children(children).to_multiset() == without_repository(children).to_multiset(),
    decreases children.len(),
{
    reveal(Seq::filter);
    if children.len() > 0 {
        let head = children.drop_last();
        ordering_keeps_every_entry(head);
        if children.last().name != ".git"@ {
            lemma_with_child_adds(ordered_children(head), children.last());
            without_repository(head).to_multiset_ensures();
            assert(without_repository(children) == without_repository(head).push(children.last()));
        } else {
            assert(without_repository(children) == without_repository(head));
        }
    } else {
        assert(without_repository(children) =~= ordered_children(children));
    }
}

} // verus!
