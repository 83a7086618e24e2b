//! The changed files of a workspace, from what `git` prints of them.
use vstd::prelude::*;

use crate::lexical::{comes_before, lemma_precedes_total, lemma_precedes_transitive, precedes};
use crate::lines::{lines, lines_of, parse_decimal, parsed};
use crate::text::{opt, same, texts};

verus! {

/// A changed file.
#[derive(Debug)]
pub struct DiffFile {
    pub path: String,
    pub additions: u64,
    pub deletions: u64,
}

/// What a [`DiffFile`] holds.
#[verifier::ext_equal]
pub ghost struct DiffFileView {
    pub path: Seq<char>,
    pub additions: u64,
    pub deletions: u64,
}

impl View for DiffFile {
    type V = DiffFileView;

    open spec fn view(&self) -> DiffFileView {
        DiffFileView { path: self.path@, additions: self.additions, deletions: self.deletions }
    }
}

/// What a list of them holds.
pub open spec fn diff_file_views(s: Seq<DiffFile>) -> Seq<DiffFileView> {
    s.map_values(|x: DiffFile| x@)
}

/// How many characters stand before the first tab.
pub open spec fn tab_at(s: Seq<char>) -> nat
    decreases s.len(),
{
    if s.len() == 0 || s[0] == '\t' {
        0
    } else {
        1 + tab_at(s.drop_first())
    }
}

/// What stands before the first tab.
pub open spec fn first_column(s: Seq<char>) -> Seq<char> {
    s.take(tab_at(s) as int)
}

/// What stands behind the first tab, where there is one.
pub open spec fn next_columns(s: Seq<char>) -> Option<Seq<char>> {
    if tab_at(s) < s.len() {
        Some(s.skip(tab_at(s) as int + 1))
    } else {
        None
    }
}

/// A count, or none where it is not a number.
pub open spec fn count_of(s: Seq<char>) -> u64 {
    match parsed(s, u64::MAX as nat) {
        Some(n) => n as u64,
        None => 0,
    }
}

/// A line of the numbers of changes: added and removed lines, and the path.
pub open spec fn numstat(line: Seq<char>) -> Option<DiffFileView> {
    match next_columns(line) {
        Some(rest) => match next_columns(rest) {
            Some(path) => Some(
                DiffFileView { path, additions: count_of(first_column(line)), deletions: count_of(first_column(rest)) },
            ),
            None => None,
        },
        None => None,
    }
}

/// An ordered list with a file put in its place; it takes the place of one with its path.
pub open spec fn with_file(files: Seq<DiffFileView>, file: DiffFileView) -> Seq<DiffFileView>
    decreases files.len(),
{
    if files.len() == 0 || precedes(files.last().path, file.path) {
        files.push(file)
    } else if files.last().path == file.path {
        files.drop_last().push(file)
    } else {
        with_file(files.drop_last(), file).push(files.last())
    }
}

/// The files that lines of numbers tell of.
pub open spec fn tracked_files(lines: Seq<Seq<char>>) -> Seq<DiffFileView>
    decreases lines.len(),
{
    if lines.len() == 0 {
        Seq::empty()
    } else {
        let before = tracked_files(lines.drop_last());
        match numstat(lines.last()) {
            Some(file) => with_file(before, file),
            None => before,
        }
    }
}

/// The paths of files.
pub open spec fn paths(files: Seq<DiffFileView>) -> Seq<Seq<char>> {
    files.map_values(|f: DiffFileView| f.path)
}

/// The paths of a list that are new: neither among the files nor earlier in the list.
pub open spec fn new_paths(files: Seq<DiffFileView>, lines: Seq<Seq<char>>) -> Seq<Seq<char>>
    decreases lines.len(),
{
    if lines.len() == 0 {
        Seq::empty()
    } else {
        let before = new_paths(files, lines.drop_last());
        let path = lines.last();
        if path.len() == 0 || paths(files).contains(path) || before.contains(path) {
            before
        } else {
            before.push(path)
        }
    }
}

/// How many lines a new file adds; none where it cannot be read.
pub open spec fn added_lines(content: Option<Seq<char>>) -> u64 {
    match content {
        Some(text) => lines_of(text).len() as u64,
        None => 0,
    }
}

/// The files with those that are new.
pub open spec fn with_new_files(files: Seq<DiffFileView>, list: Seq<(Seq<char>, Option<Seq<char>>)>) -> Seq<DiffFileView>
    decreases list.len(),
{
    if list.len() == 0 {
        files
    } else {
        with_file(
            with_new_files(files, list.drop_last()),
            DiffFileView { path: list.last().0, additions: added_lines(list.last().1), deletions: 0 },
        )
    }
}

fn find_tab(s: &str) -> (r: usize)
    ensures
        r == tab_at(s@),
        r <= s@.len(),
{
    let n: usize = s.unicode_len();
    let mut i: usize = 0;
    assert(s@.skip(0) =~= s@);
    while i < n && s.get_char(i) != '\t'
        invariant
            i <= n == s@.len(),
            tab_at(s@) == i + tab_at(s@.skip(i as int)),
        decreases n - i,
    {
        assert(s@.skip(i as int).drop_first() =~= s@.skip(i + 1));
        i = i + 1;
    }
    i
}

fn read_count(s: &str) -> (r: u64)
    ensures
        r == count_of(s@),
{
    match parse_decimal(s, u64::MAX) {
        Some(n) => n,
        None => 0,
    }
}

/// Reads a line of the numbers of changes.
pub fn read_numstat(line: &str) -> (r: Option<DiffFile>)
    ensures
        match r {
            Some(file) => numstat(line@) == Some(file@),
            None => numstat(line@) is None,
        },
{
    let n: usize = line.unicode_len();
    let a = find_tab(line);
    if a >= n {
        return None;
    }
    let first = line.substring_char(0, a);
    assert(first@ =~= first_column(line@));
    let rest = line.substring_char(a + 1, n);
    assert(rest@ =~= line@.skip(a + 1));
    let m: usize = rest.unicode_len();
    let b = find_tab(rest);
    if b >= m {
        return None;
    }
    let second = rest.substring_char(0, b);
    assert(second@ =~= first_column(rest@));
    let path = rest.substring_char(b + 1, m);
    assert(path@ =~= rest@.skip(b + 1));
    Some(DiffFile { path: path.to_owned(), additions: read_count(first), deletions: read_count(second) })
}

fn put_file(files: &mut Vec<DiffFile>, file: DiffFile)
    ensures
        diff_file_views(final(files)@) == with_file(diff_file_views(old(files)@), file@),
{
    let ghost before = diff_file_views(files@);
    let ghost all = files@;
    let mut i: usize = files.len();
    assert(before.take(i as int) =~= before);
    assert(with_file(before, file@) =~= with_file(before.take(i as int), file@) + before.skip(i as int));
    while i > 0 && !comes_before(files[i - 1].path.as_str(), file.path.as_str()) && !same(
        files[i - 1].path.as_str(),
        file.path.as_str(),
    )
        invariant
            i <= files@.len() == before.len(),
            files@ == all,
            before == diff_file_views(all),
            with_file(before, file@) == with_file(before.take(i as int), file@) + before.skip(i as int),
        decreases i,
    {
        assert(before.take(i as int).drop_last() =~= before.take(i - 1));
        assert(before.take(i as int).last() == before[i - 1]);
        assert(with_file(before.take(i as int), file@) + before.skip(i as int) =~= with_file(before.take(i - 1), file@)
            + before.skip(i - 1));
        i = i - 1;
    }
    proof {
        if i > 0 {
            assert(before.take(i as int).last() == before[i - 1]);
            assert(before.take(i as int).drop_last() =~= before.take(i - 1));
        }
    }
    if i > 0 && !comes_before(files[i - 1].path.as_str(), file.path.as_str()) {
        files[i - 1] = file;
        assert(diff_file_views(files@) =~= before.take(i - 1).push(file@) + before.skip(i as int));
    } else {
        files.insert(i, file);
        assert(diff_file_views(files@) =~= before.take(i as int).push(file@) + before.skip(i as int));
    }
}

/// Reads what `git diff --numstat` prints: the changed files, by path.
pub fn read_tracked_files(output: &str) -> (r: Vec<DiffFile>)
    ensures
        diff_file_views(r@) == tracked_files(lines_of(output@)),
{
    let all = lines(output);
    let mut r: Vec<DiffFile> = Vec::new();
    let mut i: usize = 0;
    assert(texts(all@).take(0) =~= Seq::empty());
    assert(diff_file_views(r@) =~= Seq::empty());
    while i < all.len()
        invariant
            i <= all@.len(),
            diff_file_views(r@) == tracked_files(texts(all@).take(i as int)),
        decreases all@.len() - i,
    {
        assert(texts(all@).take(i + 1).drop_last() =~= texts(all@).take(i as int));
        assert(texts(all@).take(i + 1).last() == all@[i as int]@);
        if let Some(file) = read_numstat(all[i].as_str()) {
            put_file(&mut r, file);
        }
        i = i + 1;
    }
    assert(texts(all@).take(i as int) =~= texts(all@));
    r
}

fn has_path(files: &Vec<DiffFile>, path: &str) -> (r: bool)
    ensures
        r == paths(diff_file_views(files@)).contains(path@),
{
    let ghost all = paths(diff_file_views(files@));
    let mut i: usize = 0;
    while i < files.len()
        invariant
            i <= files@.len(),
            all == paths(diff_file_views(files@)),
            forall|j: int| 0 <= j < i ==> all[j] != path@,
        decreases files@.len() - i,
    {
        assert(all[i as int] == files@[i as int].path@);
        if same(files[i].path.as_str(), path) {
            return true;
        }
        i = i + 1;
    }
    false
}

/// Reads what `git ls-files --others` prints: the paths that are not among the files yet.
pub fn read_new_paths(files: &Vec<DiffFile>, output: &str) -> (r: Vec<String>)
    ensures
        texts(r@) == new_paths(diff_file_views(files@), lines_of(output@)),
{
    let all = lines(output);
    let mut r: Vec<String> = Vec::new();
    let mut i: usize = 0;
    assert(texts(all@).take(0) =~= Seq::empty());
    assert(texts(r@) =~= Seq::empty());
    while i < all.len()
        invariant
            i <= all@.len(),
            texts(r@) == new_paths(diff_file_views(files@), texts(all@).take(i as int)),
        decreases all@.len() - i,
    {
        assert(texts(all@).take(i + 1).drop_last() =~= texts(all@).take(i as int));
        assert(texts(all@).take(i + 1).last() == all@[i as int]@);
        let path = all[i].as_str();
        if path.unicode_len() > 0 && !has_path(files, path) && !crate::keyed::has_text(&r, path) {
            let ghost before = texts(r@);
            r.push(path.to_owned());
            assert(texts(r@) =~= before.push(path@));
        }
        i = i + 1;
    }
    assert(texts(all@).take(i as int) =~= texts(all@));
    r
}

/// What a list of new files with their content holds.
pub open spec fn new_file_views(s: Seq<(String, Option<String>)>) -> Seq<(Seq<char>, Option<Seq<char>>)> {
    s.map_values(|x: (String, Option<String>)| (x.0@, opt(x.1)))
}

/// The changed files of a workspace by path: those that `git` tracks, and new ones with
/// their content, where it could be read.
pub fn collect_diff_files(known: Vec<DiffFile>, new_files: &Vec<(String, Option<String>)>) -> (r: Vec<DiffFile>)
    ensures
        diff_file_views(r@) == with_new_files(diff_file_views(known@), new_file_views(new_files@)),
{
    let ghost start = diff_file_views(known@);
    let ghost list = new_file_views(new_files@);
    let mut r = known;
    let mut i: usize = 0;
    assert(list.take(0) =~= Seq::empty());
    while i < new_files.len()
        invariant
            i <= new_files@.len(),
            list == new_file_views(new_files@),
            diff_file_views(r@) == with_new_files(start, list.take(i as int)),
        decreases new_files@.len() - i,
    {
        assert(list.take(i + 1).drop_last() =~= list.take(i as int));
        assert(list.take(i + 1).last() == list[i as int]);
        let additions: u64 = match &new_files[i].1 {
            Some(content) => {
                let all = lines(content.as_str());
                assert(texts(all@).len() == all@.len());
                all.len() as u64
            },
            None => 0,
        };
        put_file(&mut r, DiffFile { path: new_files[i].0.clone(), additions, deletions: 0 });
        i = i + 1;
    }
    assert(list.take(i as int) =~= list);
    r
}

/// All lines that were added.
pub open spec fn total_additions(files: Seq<DiffFileView>) -> nat
    decreases files.len(),
{
    if files.len() == 0 {
        0
    } else {
        total_additions(files.drop_last()) + files.last().additions as nat
    }
}

/// All lines that were removed.
pub open spec fn total_deletions(files: Seq<DiffFileView>) -> nat
    decreases files.len(),
{
    if files.len() == 0 {
        0
    } else {
        total_deletions(files.drop_last()) + files.last().deletions as nat
    }
}

/// The head of the list of changed files.
#[derive(Clone, Copy, Debug, PartialEq, Eq, Structural)]
pub struct DiffSummary {
    pub count: usize,
    pub additions: u128,
    pub deletions: u128,
}

/// The head of the list of changed files; nothing where no file has changed.
pub fn render_right_panel_diff(files: &Vec<DiffFile>) -> (r: Option<DiffSummary>)
    ensures
        r is Some == (files@.len() > 0),
        r matches Some(summary) ==> summary.count == files@.len() && summary.additions == total_additions(
            diff_file_views(files@),
        ) && summary.deletions == total_deletions(diff_file_views(files@)),
{
    if files.len() == 0 {
        return None;
    }
    let ghost views = diff_file_views(files@);
    let mut additions: u128 = 0;
    let mut deletions: u128 = 0;
    let mut i: usize = 0;
    assert(views.take(0) =~= Seq::empty());
    while i < files.len()
        invariant
            i <= files@.len(),
            views == diff_file_views(files@),
            additions == total_additions(views.take(i as int)),
            deletions == total_deletions(views.take(i as int)),
            additions <= i * 0xffff_ffff_ffff_ffff,
            deletions <= i * 0xffff_ffff_ffff_ffff,
        decreases files@.len() - i,
    {
        assert(views.take(i + 1).drop_last() =~= views.take(i as int));
        assert(views.take(i + 1).last() == files@[i as int]@);
        assert((i + 1) * 0xffff_ffff_ffff_ffff <= 0x1_0000_0000_0000_0000 * 0xffff_ffff_ffff_ffff) by (nonlinear_arith)
            requires
                i + 1 <= 0x1_0000_0000_0000_0000,
        ;
        additions = additions + files[i].additions as u128;
        deletions = deletions + files[i].deletions as u128;
        i = i + 1;
    }
    assert(views.take(i as int) =~= views);
    Some(DiffSummary { count: files.len(), additions, deletions })
}

/// The paths of a list rise, and so no path stands there twice.
pub open spec fn by_path(files: Seq<DiffFileView>) -> bool {
    forall|i: int, j: int| 0 <= i < j < files.len() ==> precedes((#[trigger] files[i]).path, (#[trigger] files[j]).path)
}

/// The files of a list by their paths.
pub open spec fn file_map(files: Seq<DiffFileView>) -> Map<Seq<char>, DiffFileView>
    decreases files.len(),
{
    if files.len() == 0 {
        Map::empty()
    } else {
        file_map(files.drop_last()).insert(files.last().path, files.last())
    }
}

/// Putting a file in its place keeps the list ordered by path, with each path once, and
/// changes nothing but the entry of that path.
pub proof fn files_stay_ordered(files: Seq<DiffFileView>, file: DiffFileView)
    requires
        by_path(files),
    ensures
        by_path(with_file(files, file)),
        file_map(with_file(files, file)) == file_map(files).insert(file.path, file),
        forall|k: int|
            0 <= k < with_file(files, file).len() ==> (#[trigger] with_file(files, file)[k] == file || files.contains(
                with_file(files, file)[k],
            )),
    decreases files.len(),
{
    let after = with_file(files, file);
    if files.len() == 0 {
        assert(after.drop_last() =~= files);
    } else {
        let front = files.drop_last();
        let last = files.last();
        assert(by_path(front));
        if precedes(last.path, file.path) {
            assert forall|i: int, j: int| 0 <= i < j < after.len() implies precedes(
                (#[trigger] after[i]).path,
                (#[trigger] after[j]).path,
            ) by {
                if j == files.len() && i < files.len() - 1 {
                    lemma_precedes_transitive(files[i].path, last.path, file.path);
                }
            }
            assert(after.drop_last() =~= files);
            assert forall|k: int| 0 <= k < after.len() implies (#[trigger] after[k] == file || files.contains(after[k])) by {
                if k < files.len() {
                    assert(after[k] == files[k]);
                }
            }
        } else if last.path == file.path {
            assert(after.drop_last() =~= front);
            assert(file_map(after) =~= file_map(files).insert(file.path, file));
            assert forall|k: int| 0 <= k < after.len() implies (#[trigger] after[k] == file || files.contains(after[k])) by {
                if k < front.len() {
                    assert(after[k] == files[k]);
                }
            }
        } else {
            lemma_precedes_total(last.path, file.path);
            files_stay_ordered(front, file);
            let inner = with_file(front, file);
            assert(after.drop_last() =~= inner);
            assert forall|k: int| 0 <= k < after.len() implies (#[trigger] after[k] == file || files.contains(after[k])) by {
                if k < inner.len() {
                    assert(after[k] == inner[k]);
                    if inner[k] != file {
                        let m = front.index_of(inner[k]);
                        assert(files[m] == front[m]);
                    }
                } else {
                    assert(after[k] == files[files.len() - 1]);
                }
            }
            assert forall|i: int, j: int| 0 <= i < j < after.len() implies precedes(
                (#[trigger] after[i]).path,
                (#[trigger] after[j]).path,
            ) by {
                if j == inner.len() {
                    assert(after[i] == inner[i]);
                    if inner[i] != file {
                        let m = front.index_of(inner[i]);
                        assert(files[m] == front[m]);
                        assert(precedes(files[m].path, files[files.len() - 1].path));
                    }
                } else {
                    assert(after[i] == inner[i] && after[j] == inner[j]);
                }
            }
            assert(file.path != last.path);
            assert(file_map(after) =~= file_map(files).insert(file.path, file));
        }
    }
}

/// The changed files are always listed by path, each once.
pub proof fn changes_are_listed_by_path(lines: Seq<Seq<char>>)
    ensures
        by_path(tracked_files(lines)),
    decreases lines.len(),
{
    if lines.len() > 0 {
        changes_are_listed_by_path(lines.drop_last());
        if let Some(file) = numstat(lines.last()) {
            files_stay_ordered(tracked_files(lines.drop_last()), file);
        }
    }
}

/// The new paths are the lines of the listing that say something and are no path of a known
/// file: each of them, once, and nothing else.
pub proof fn new_paths_are_the_unknown_ones(files: Seq<DiffFileView>, lines: Seq<Seq<char>>)
    ensures
        new_paths(files, lines).no_duplicates(),
        forall|path: Seq<char>| #[trigger]
            new_paths(files, lines).contains(path) <==> path.len() > 0 && lines.contains(path) && !(exists|k: int|
                0 <= k < files.len() && (#[trigger] files[k]).path == path),
    decreases lines.len(),
{
    if lines.len() > 0 {
        let rest = lines.drop_last();
        let last = lines.last();
        let before = new_paths(files, rest);
        let after = new_paths(files, lines);
        new_paths_are_the_unknown_ones(files, rest);
        assert(paths(files).contains(last) <==> exists|k: int| 0 <= k < files.len() && (#[trigger] files[k]).path == last) by {
            if paths(files).contains(last) {
                let k = paths(files).index_of(last);
                assert(files[k].path == last);
            }
            if exists|k: int| 0 <= k < files.len() && (#[trigger] files[k]).path == last {
                let k = choose|k: int| 0 <= k < files.len() && (#[trigger] files[k]).path == last;
                assert(paths(files)[k] == last);
            }
        }
        assert forall|path: Seq<char>| #[trigger]
            after.contains(path) <==> path.len() > 0 && lines.contains(path) && !(exists|k: int|
                0 <= k < files.len() && (#[trigger] files[k]).path == path) by {
            assert(lines.contains(path) <==> rest.contains(path) || path == last) by {
                if lines.contains(path) {
                    let i = lines.index_of(path);
                    if i < rest.len() {
                        assert(rest[i] == path);
                    }
                }
                if rest.contains(path) {
                    let i = rest.index_of(path);
                    assert(lines[i] == path);
                }
                assert(lines[lines.len() - 1] == last);
            }
            if after.len() > before.len() {
                assert(after.contains(path) <==> before.contains(path) || path == last) by {
                    if before.contains(path) {
                        let i = before.index_of(path);
                        assert(after[i] == path);
                    }
                    assert(after[before.len() as int] == last);
                    if after.contains(path) && path != last {
                        let i = after.index_of(path);
                        assert(before[i] == path);
                    }
                }
            }
        }
    }
}

/// The last line that speaks of a file decides what is listed of it; a file that no line
/// speaks of is not listed.
pub proof fn the_last_line_of_a_file_counts(lines: Seq<Seq<char>>, k: int, file: DiffFileView)
    requires
        0 <= k < lines.len(),
        numstat(lines[k]) == Some(file),
        forall|j: int| k < j < lines.len() ==> (match numstat(#[trigger] lines[j]) {
            Some(other) => other.path != file.path,
            None => true,
        }),
    ensures
        file_map(tracked_files(lines)).dom().contains(file.path),
        file_map(tracked_files(lines))[file.path] == file,
    decreases lines.len(),
{
    let rest = lines.drop_last();
    changes_are_listed_by_path(rest);
    if k == lines.len() - 1 {
        files_stay_ordered(tracked_files(rest), file);
    } else {
        assert(rest[k] == lines[k]);
        assert forall|j: int| k < j < rest.len() implies (match numstat(#[trigger] rest[j]) {
            Some(other) => other.path != file.path,
            None => true,
        }) by {
            assert(rest[j] == lines[j]);
        }
        the_last_line_of_a_file_counts(rest, k, file);
        assert(lines[lines.len() - 1] == lines.last());
        if let Some(other) = numstat(lines.last()) {
            files_stay_ordered(tracked_files(rest), other);
        }
    }
}

/// A new file is listed with a line added for each line it has, and nothing deleted; what is
/// listed of another path stays.
pub proof fn new_files_are_all_additions(
    files: Seq<DiffFileView>,
    list: Seq<(Seq<char>, Option<Seq<char>>)>,
    path: Seq<char>,
    content: Option<Seq<char>>,
)
    requires
        by_path(files),
    ensures
        ({
            let before = file_map(with_new_files(files, list));
            let after = file_map(with_new_files(files, list.push((path, content))));
            &&& by_path(with_new_files(files, list))
            &&& after.dom() == before.dom().insert(path)
            &&& after[path].path == path && after[path].deletions == 0
            &&& content is None ==> after[path].additions == 0
            &&& content matches Some(text) ==> after[path].additions == lines_of(text).len() as u64
            &&& forall|other: Seq<char>| other != path && before.dom().contains(other) ==> #[trigger] after[other] == before[other]
        }),
    decreases list.len(),
{
    let added = DiffFileView { path, additions: added_lines(content), deletions: 0 };
    if list.len() > 0 {
        new_files_are_all_additions(files, list.drop_last(), list.last().0, list.last().1);
        assert(list.drop_last().push(list.last()) =~= list);
        let last = DiffFileView { path: list.last().0, additions: added_lines(list.last().1), deletions: 0 };
        files_stay_ordered(with_new_files(files, list.drop_last()), last);
    }
    assert(list.push((path, content)).drop_last() =~= list);
    files_stay_ordered(with_new_files(files, list), added);
}

/// What a line of counts says: the two numbers before its two first tabs, and the path behind
/// them.
pub proof fn counts_stand_before_the_path(added: Seq<char>, deleted: Seq<char>, path: Seq<char>)
    requires
        !added.contains('\t'),
        !deleted.contains('\t'),
    ensures
        numstat(added.push('\t') + deleted.push('\t') + path) == Some(
            DiffFileView { path, additions: count_of(added), deletions: count_of(deleted) },
        ),
{
    let rest = deleted.push('\t') + path;
    let line = added.push('\t') + deleted.push('\t') + path;
    assert(line =~= added.push('\t') + rest);
    lemma_tab_at(added, rest);
    lemma_tab_at(deleted, path);
    assert(line.take(added.len() as int) =~= added);
    assert(line.skip(added.len() as int + 1) =~= rest);
    assert(rest.take(deleted.len() as int) =~= deleted);
    assert(rest.skip(deleted.len() as int + 1) =~= path);
}

proof fn lemma_tab_at(front: Seq<char>, rest: Seq<char>)
    requires
        !front.contains('\t'),
    ensures
        tab_at(front.push('\t') + rest) == front.len(),
    decreases front.len(),
{
    let s = front.push('\t') + rest;
    if front.len() == 0 {
        assert(s[0] == '\t');
    } else {
        assert(front.contains(front[0]));
        assert(s[0] == front[0]);
        let tail = front.drop_first();
        assert forall|i: int| 0 <= i < tail.len() implies tail[i] != '\t' by {
            assert(front.contains(front[i + 1]));
        }
        lemma_tab_at(tail, rest);
        assert(s.drop_first() =~= tail.push('\t') + rest);
    }
}

} // verus!
