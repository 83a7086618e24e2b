//! What models take in: text, images and more.
use vstd::prelude::*;

use crate::desk::{Text, TextView};
use crate::text::{same, texts};

verus! {

/// The icon of what a model takes in.
pub open spec fn modality_icon(modality: Seq<char>) -> Option<Seq<char>> {
    if modality == "text"@ {
        Some("icons/modality-text.svg"@)
    } else if modality == "image"@ {
        Some("icons/modality-image.svg"@)
    } else if modality == "audio"@ {
        Some("icons/modality-audio.svg"@)
    } else if modality == "video"@ {
        Some("icons/modality-video.svg"@)
    } else if modality == "pdf"@ {
        Some("icons/modality-pdf.svg"@)
    } else {
        None
    }
}

/// The icon of what a model takes in; none for what is not known yet.
pub fn modality_icon_path(modality: &str) -> (r: Option<&'static str>)
    ensures
        match r {
            Some(path) => modality_icon(modality@) == Some(path@),
            None => modality_icon(modality@) is None,
        },
{
    if same(modality, "text") {
        Some("icons/modality-text.svg")
    } else if same(modality, "image") {
        Some("icons/modality-image.svg")
    } else if same(modality, "audio") {
        Some("icons/modality-audio.svg")
    } else if same(modality, "video") {
        Some("icons/modality-video.svg")
    } else if same(modality, "pdf") {
        Some("icons/modality-pdf.svg")
    } else {
        None
    }
}

/// The word for what a model takes in.
pub open spec fn modality_word(modality: Seq<char>) -> TextView {
    if modality == "text"@ {
        TextView::Key("modality.text"@, Seq::empty())
    } else if modality == "image"@ {
        TextView::Key("modality.image"@, Seq::empty())
    } else if modality == "audio"@ {
        TextView::Key("modality.audio"@, Seq::empty())
    } else if modality == "video"@ {
        TextView::Key("modality.video"@, Seq::empty())
    } else if modality == "pdf"@ {
        TextView::Key("modality.pdf"@, Seq::empty())
    } else {
        TextView::Plain(modality)
    }
}

/// The word for what a model takes in.
pub fn modality_label(modality: &str) -> (r: Text)
    ensures
        r@ == modality_word(modality@),
{
    if same(modality, "text") {
        Text::key("modality.text")
    } else if same(modality, "image") {
        Text::key("modality.image")
    } else if same(modality, "audio") {
        Text::key("modality.audio")
    } else if same(modality, "video") {
        Text::key("modality.video")
    } else if same(modality, "pdf") {
        Text::key("modality.pdf")
    } else {
        Text::Plain(modality.to_owned())
    }
}

/// The views of a list of wordings.
pub open spec fn word_views(s: Seq<Text>) -> Seq<TextView> {
    s.map_values(|t: Text| t@)
}

/// The words for what a model takes in, in its order.
pub fn modality_labels(modalities: &Vec<String>) -> (r: Vec<Text>)
    ensures
        word_views(r@) =~= texts(modalities@).map_values(|m: Seq<char>| modality_word(m)),
{
    let mut r: Vec<Text> = Vec::new();
    let mut i: usize = 0;
    while i < modalities.len()
        invariant
            i <= modalities@.len(),
            r@.len() == i,
            forall|j: int| 0 <= j < i ==> (#[trigger] r@[j])@ == modality_word(modalities@[j]@),
        decreases modalities@.len() - i,
    {
        r.push(modality_label(modalities[i].as_str()));
        i = i + 1;
    }
    r
}

/// Texts with commas between them.
pub open spec fn joined(parts: Seq<Seq<char>>) -> Seq<char>
    decreases parts.len(),
{
    if parts.len() == 0 {
        Seq::empty()
    } else if parts.len() == 1 {
        parts[0]
    } else {
        joined(parts.drop_last()) + ", "@ + parts.last()
    }
}

/// Puts words in a row, with commas between them.
pub fn join_labels(parts: &Vec<String>) -> (r: String)
    ensures
        r@ == joined(texts(parts@)),
{
    let ghost all = texts(parts@);
    let mut r = "".to_owned();
    let mut i: usize = 0;
    proof {
        reveal_strlit("");
        assert(all.take(0) =~= Seq::empty());
        assert(r@ =~= Seq::empty());
    }
    while i < parts.len()
        invariant
            i <= parts@.len(),
            all == texts(parts@),
            r@ == joined(all.take(i as int)),
            i == 0 ==> r@.len() == 0,
        decreases parts@.len() - i,
    {
        proof {
            assert(all.take(i + 1).drop_last() =~= all.take(i as int));
            assert(all.take(i + 1).last() == parts@[i as int]@);
        }
        let ghost before = r@;
        if i > 0 {
            r.append(", ");
        }
        r.append(parts[i].as_str());
        proof {
            if i == 0 {
                assert(before + parts@[0]@ =~= parts@[0]@);
            }
        }
        i = i + 1;
    }
    assert(all.take(i as int) =~= all);
    r
}

/// Where something stands in the order of what models take in; behind everything where it
/// is not among it.
pub open spec fn rank(order: Seq<Seq<char>>, modality: Seq<char>) -> int
    decreases order.len(),
{
    if order.len() == 0 {
        usize::MAX as int
    } else {
        let before = rank(order.drop_last(), modality);
        if before == usize::MAX && order.last() == modality {
            order.len() - 1
        } else {
            before
        }
    }
}

fn rank_of(order: &Vec<String>, modality: &str) -> (r: usize)
    requires
        order@.len() < usize::MAX,
    ensures
        r == rank(texts(order@), modality@),
{
    let ghost all = texts(order@);
    let mut r: usize = usize::MAX;
    let mut i: usize = 0;
    assert(all.take(0) =~= Seq::empty());
    while i < order.len()
        invariant
            i <= order@.len(),
            order@.len() < usize::MAX,
            all == texts(order@),
            r == rank(all.take(i as int), modality@),
        decreases order@.len() - i,
    {
        proof {
            assert(all.take(i + 1).drop_last() =~= all.take(i as int));
            assert(all.take(i + 1).last() == order@[i as int]@);
        }
        if r == usize::MAX && same(order[i].as_str(), modality) {
            r = i;
        }
        i = i + 1;
    }
    assert(all.take(i as int) =~= all);
    r
}

/// A list in order, with one more in its place behind those that rank no later.
pub open spec fn with_modality(list: Seq<Seq<char>>, order: Seq<Seq<char>>, modality: Seq<char>) -> Seq<Seq<char>>
    decreases list.len(),
{
    if list.len() == 0 || rank(order, list.last()) <= rank(order, modality) {
        list.push(modality)
    } else {
        with_modality(list.drop_last(), order, modality).push(list.last())
    }
}

/// A list put in order; what ranks alike keeps its order.
pub open spec fn in_rank_order(list: Seq<Seq<char>>, order: Seq<Seq<char>>) -> Seq<Seq<char>>
    decreases list.len(),
{
    if list.len() == 0 {
        list
    } else {
        with_modality(in_rank_order(list.drop_last(), order), order, list.last())
    }
}

/// Where something first stands in a list.
pub open spec fn text_pos(list: Seq<Seq<char>>, wanted: Seq<char>) -> Option<int>
    decreases list.len(),
{
    if list.len() == 0 {
        None
    } else {
        match text_pos(list.drop_last(), wanted) {
            Some(i) => Some(i),
            None => if list.last() == wanted {
                Some(list.len() - 1)
            } else {
                None
            },
        }
    }
}

/// What is found is there, and nothing before it.
pub proof fn lemma_text_pos(list: Seq<Seq<char>>, wanted: Seq<char>)
    ensures
        match text_pos(list, wanted) {
            Some(i) => 0 <= i < list.len() && list[i] == wanted,
            None => forall|j: int| 0 <= j < list.len() ==> #[trigger] list[j] != wanted,
        },
    decreases list.len(),
{
    if list.len() > 0 {
        lemma_text_pos(list.drop_last(), wanted);
        if text_pos(list, wanted) is None {
            assert forall|j: int| 0 <= j < list.len() implies #[trigger] list[j] != wanted by {
                if j < list.len() - 1 {
                    assert(list.drop_last()[j] == list[j]);
                }
            }
        }
    }
}

/// A selection with one thing put in or taken out.
pub open spec fn toggled(selected: Seq<Seq<char>>, order: Seq<Seq<char>>, modality: Seq<char>) -> Seq<Seq<char>> {
    match text_pos(selected, modality) {
        Some(i) => selected.remove(i),
        None => in_rank_order(selected.push(modality), order),
    }
}

/// Puts one thing into a selection, or takes it out. The selection is kept in the order that
/// the configuration documents.
pub fn toggle_modality(selected: &mut Vec<String>, modality: &str, order: &Vec<String>)
    requires
        order@.len() < usize::MAX,
    ensures
        texts(final(selected)@) == toggled(texts(old(selected)@), texts(order@), modality@),
{
    let ghost before = texts(selected@);
    let mut i: usize = 0;
    assert(before.take(0) =~= Seq::empty());
    while i < selected.len()
        invariant
            i <= selected@.len(),
            *selected == *old(selected),
            before == texts(selected@),
            text_pos(before.take(i as int), modality@) is None,
        decreases selected@.len() - i,
    {
        proof {
            assert(before.take(i + 1).drop_last() =~= before.take(i as int));
            assert(before.take(i + 1).last() == selected@[i as int]@);
        }
        if same(selected[i].as_str(), modality) {
            proof {
                assert(text_pos(before.take(i + 1), modality@) == Some(i as int));
                lemma_pos_grows(before, i + 1, modality@);
            }
            let _ = selected.remove(i);
            assert(texts(selected@) =~= before.remove(i as int));
            return;
        }
        i = i + 1;
    }
    assert(before.take(i as int) =~= before);
    selected.push(modality.to_owned());
    assert(texts(selected@) =~= before.push(modality@));
    sort(selected, order);
}

proof fn lemma_pos_grows(list: Seq<Seq<char>>, n: int, wanted: Seq<char>)
    requires
        0 <= n <= list.len(),
        text_pos(list.take(n), wanted) is Some,
    ensures
        text_pos(list, wanted) == text_pos(list.take(n), wanted),
    decreases list.len(),
{
    if n == list.len() {
        assert(list.take(n) =~= list);
    } else {
        assert(list.drop_last().take(n) =~= list.take(n));
        lemma_pos_grows(list.drop_last(), n, wanted);
    }
}

fn sort(list: &mut Vec<String>, order: &Vec<String>)
    requires
        order@.len() < usize::MAX,
    ensures
        texts(final(list)@) == in_rank_order(texts(old(list)@), texts(order@)),
{
    let ghost whole = texts(list@);
    let ghost ranks = texts(order@);
    let mut rest: Vec<String> = Vec::new();
    std::mem::swap(&mut rest, list);
    let ghost mut done: int = 0;
    assert(whole.take(0) =~= Seq::empty());
    assert(texts(rest@) =~= whole.skip(0));
    assert(texts(list@) =~= Seq::empty());
    while rest.len() > 0
        invariant
            0 <= done <= whole.len(),
            ranks == texts(order@),
            order@.len() < usize::MAX,
            texts(rest@) == whole.skip(done),
            texts(list@) == in_rank_order(whole.take(done), ranks),
        decreases rest@.len(),
    {
        let ghost before = rest@;
        let item = rest.remove(0);
        proof {
            assert(texts(before).len() == whole.len() - done);
            assert(texts(before)[0] == whole.skip(done)[0]);
            assert(texts(rest@) =~= texts(before).skip(1));
            assert(whole.skip(done).skip(1) =~= whole.skip(done + 1));
            assert(whole.take(done + 1).drop_last() =~= whole.take(done));
        }
        put_in_order(list, order, item);
        proof {
            done = done + 1;
        }
    }
    assert(texts(rest@).len() == 0);
    assert(whole.take(done) =~= whole);
}

fn put_in_order(list: &mut Vec<String>, order: &Vec<String>, item: String)
    requires
        order@.len() < usize::MAX,
    ensures
        texts(final(list)@) == with_modality(texts(old(list)@), texts(order@), item@),
{
    let ghost before = texts(list@);
    let ghost ranks = texts(order@);
    let place = rank_of(order, item.as_str());
    let mut i: usize = list.len();
    assert(before.take(i as int) =~= before);
    assert(before.skip(i as int) =~= Seq::empty());
    assert(with_modality(before, ranks, item@) =~= with_modality(before, ranks, item@) + before.skip(i as int));
    while i > 0 && rank_of(order, list[i - 1].as_str()) > place
        invariant
            i <= list@.len(),
            *list == *old(list),
            before == texts(list@),
            ranks == texts(order@),
            order@.len() < usize::MAX,
            place == rank(ranks, item@),
            with_modality(before, ranks, item@) == with_modality(before.take(i as int), ranks, item@) + before.skip(i as int),
        decreases i,
    {
        proof {
            let head = before.take(i as int);
            assert(head.last() == list@[i - 1]@);
            assert(head.drop_last() =~= before.take(i - 1));
            assert(with_modality(before.take(i - 1), ranks, item@).push(head.last()) + before.skip(i as int)
                =~= with_modality(before.take(i - 1), ranks, item@) + before.skip(i - 1));
        }
        i = i - 1;
    }
    proof {
        let head = before.take(i as int);
        if i > 0 {
            assert(head.last() == list@[i - 1]@);
        }
        assert(with_modality(head, ranks, item@) == head.push(item@));
        assert(head.push(item@) + before.skip(i as int) =~= before.insert(i as int, item@));
    }
    list.insert(i, item);
    assert(texts(list@) =~= before.insert(i as int, item@));
}

/// A selection is in the documented order.
pub open spec fn ranked(list: Seq<Seq<char>>, order: Seq<Seq<char>>) -> bool {
    forall|i: int, j: int| 0 <= i < j < list.len() ==> rank(order, #[trigger] list[i]) <= rank(order, #[trigger] list[j])
}

proof fn lemma_put_ranked(list: Seq<Seq<char>>, order: Seq<Seq<char>>, item: Seq<char>)
    requires
        ranked(list, order),
    ensures
        ranked(with_modality(list, order, item), order),
        with_modality(list, order, item).len() == list.len() + 1,
        forall|x: int|
            0 <= x < with_modality(list, order, item).len() ==> (#[trigger] with_modality(list, order, item)[x] == item
                || list.contains(with_modality(list, order, item)[x])),
        with_modality(list, order, item).contains(item),
        forall|t: Seq<char>| list.contains(t) ==> with_modality(list, order, item).contains(t),
    decreases list.len(),
{
    let put = with_modality(list, order, item);
    if list.len() == 0 || rank(order, list.last()) <= rank(order, item) {
        assert(put[list.len() as int] == item);
        assert forall|t: Seq<char>| list.contains(t) implies put.contains(t) by {
            let k = list.index_of(t);
            assert(put[k] == t);
        }
        assert forall|i: int, j: int| 0 <= i < j < put.len() implies rank(order, #[trigger] put[i]) <= rank(
            order,
            #[trigger] put[j],
        ) by {
            if j == list.len() {
                assert(i < list.len());
                assert(rank(order, list[i]) <= rank(order, list.last()));
            } else {
                assert(put[i] == list[i] && put[j] == list[j]);
            }
        }
    } else {
        let head = list.drop_last();
        assert(ranked(head, order)) by {
            assert forall|i: int, j: int| 0 <= i < j < head.len() implies rank(order, #[trigger] head[i]) <= rank(
                order,
                #[trigger] head[j],
            ) by {
                assert(head[i] == list[i] && head[j] == list[j]);
            }
        }
        lemma_put_ranked(head, order, item);
        let inner = with_modality(head, order, item);
        assert forall|i: int, j: int| 0 <= i < j < put.len() implies rank(order, #[trigger] put[i]) <= rank(
            order,
            #[trigger] put[j],
        ) by {
            assert(put[i] == inner[i]);
            if j == inner.len() {
                if inner[i] != item {
                    let k = head.index_of(inner[i]);
                    assert(head[k] == list[k]);
                    assert(rank(order, list[k]) <= rank(order, list.last()));
                }
            } else {
                assert(put[j] == inner[j]);
            }
        }
        let k = inner.index_of(item);
        assert(put[k] == item);
        assert(put[inner.len() as int] == list.last());
        assert forall|t: Seq<char>| list.contains(t) implies put.contains(t) by {
            let m = list.index_of(t);
            if m < head.len() {
                assert(head[m] == t);
                assert(head.contains(t));
                assert(inner.contains(t));
                let n = inner.index_of(t);
                assert(put[n] == t);
            } else {
                assert(put[inner.len() as int] == t);
            }
        }
        assert forall|x: int| 0 <= x < put.len() implies (#[trigger] put[x] == item || list.contains(put[x])) by {
            if x < inner.len() {
                assert(put[x] == inner[x]);
                if inner[x] != item {
                    let m = head.index_of(inner[x]);
                    assert(list[m] == inner[x]);
                }
            } else {
                assert(list[list.len() - 1] == put[x]);
            }
        }
    }
}

proof fn lemma_sorted_same(list: Seq<Seq<char>>, order: Seq<Seq<char>>)
    requires
        ranked(list, order),
    ensures
        in_rank_order(list, order) == list,
    decreases list.len(),
{
    if list.len() > 0 {
        let head = list.drop_last();
        assert forall|i: int, j: int| 0 <= i < j < head.len() implies rank(order, #[trigger] head[i]) <= rank(
            order,
            #[trigger] head[j],
        ) by {
            assert(head[i] == list[i] && head[j] == list[j]);
        }
        lemma_sorted_same(head, order);
        if head.len() > 0 {
            assert(list[head.len() - 1] == head.last());
            assert(rank(order, list[head.len() - 1]) <= rank(order, list[list.len() - 1]));
        }
        assert(head.push(list.last()) =~= list);
    }
}

/// A selection in the documented order stays so, whatever is put in or taken out.
pub proof fn toggling_keeps_the_order(selected: Seq<Seq<char>>, order: Seq<Seq<char>>, modality: Seq<char>)
    requires
        ranked(selected, order),
    ensures
        ranked(toggled(selected, order, modality), order),
{
    match text_pos(selected, modality) {
        Some(i) => {
            lemma_text_pos(selected, modality);
            let left = selected.remove(i);
            assert forall|a: int, b: int| 0 <= a < b < left.len() implies rank(order, #[trigger] left[a]) <= rank(
                order,
                #[trigger] left[b],
            ) by {
                let x = if a < i {
                    a
                } else {
                    a + 1
                };
                let y = if b < i {
                    b
                } else {
                    b + 1
                };
                assert(left[a] == selected[x] && left[b] == selected[y]);
            }
        },
        None => {
            lemma_sorted_same(selected, order);
            assert(selected.push(modality).drop_last() =~= selected);
            lemma_put_ranked(selected, order, modality);
        },
    }
}

/// Toggling puts in what was not there and takes out what was there once.
pub proof fn toggling_changes_membership(selected: Seq<Seq<char>>, order: Seq<Seq<char>>, modality: Seq<char>)
    requires
        ranked(selected, order),
        selected.no_duplicates(),
    ensures
        toggled(selected, order, modality).contains(modality) == !selected.contains(modality),
{
    lemma_text_pos(selected, modality);
    match text_pos(selected, modality) {
        Some(i) => {
            let left = selected.remove(i);
            if left.contains(modality) {
                let k = left.index_of(modality);
                let at = if k < i {
                    k
                } else {
                    k + 1
                };
                assert(left[k] == selected[at]);
            }
        },
        None => {
            lemma_sorted_same(selected, order);
            assert(selected.push(modality).drop_last() =~= selected);
            lemma_put_ranked(selected, order, modality);
        },
    }
}

proof fn lemma_put_at(list: Seq<Seq<char>>, order: Seq<Seq<char>>, item: Seq<char>) -> (k: int)
    ensures
        0 <= k <= list.len(),
        with_modality(list, order, item) == list.insert(k, item),
        forall|j: int| k <= j < list.len() ==> rank(order, #[trigger] list[j]) > rank(order, item),
        k > 0 ==> rank(order, list[k - 1]) <= rank(order, item),
    decreases list.len(),
{
    if list.len() == 0 || rank(order, list.last()) <= rank(order, item) {
        assert(list.push(item) =~= list.insert(list.len() as int, item));
        list.len() as int
    } else {
        let head = list.drop_last();
        let k = lemma_put_at(head, order, item);
        assert(head.insert(k, item).push(list.last()) =~= list.insert(k, item));
        assert forall|j: int| k <= j < list.len() implies rank(order, #[trigger] list[j]) > rank(order, item) by {
            if j < head.len() {
                assert(head[j] == list[j]);
            }
        }
        k
    }
}

/// Toggling a thing twice gives back a selection in the documented order, as long as nothing
/// that stands behind that thing ranks as it does. In a selection without repeats only what
/// the order does not name ranks alike.
pub proof fn toggling_twice_changes_nothing(selected: Seq<Seq<char>>, order: Seq<Seq<char>>, modality: Seq<char>)
    requires
        ranked(selected, order),
        forall|i: int, j: int|
            0 <= i < j < selected.len() && #[trigger] selected[i] == modality ==> rank(order, #[trigger] selected[j])
                > rank(order, modality),
    ensures
        toggled(toggled(selected, order, modality), order, modality) == selected,
{
    lemma_text_pos(selected, modality);
    toggling_keeps_the_order(selected, order, modality);
    let once = toggled(selected, order, modality);
    lemma_text_pos(once, modality);
    match text_pos(selected, modality) {
        Some(i) => {
            if let Some(k) = text_pos(once, modality) {
                if k < i {
                    assert(selected[k] == once[k]);
                } else {
                    assert(selected[k + 1] == once[k]);
                }
            }
            lemma_sorted_same(once, order);
            assert(once.push(modality).drop_last() =~= once);
            let k = lemma_put_at(once, order, modality);
            if k < i {
                assert(once[k] == selected[k]);
                assert(rank(order, selected[k]) <= rank(order, selected[i]));
            }
            if k > i {
                assert(once[k - 1] == selected[k]);
            }
            assert(once.insert(i, modality) =~= selected);
        },
        None => {
            lemma_sorted_same(selected, order);
            assert(selected.push(modality).drop_last() =~= selected);
            let k = lemma_put_at(selected, order, modality);
            assert(once[k] == modality);
            let at = text_pos(once, modality)->0;
            if at < k {
                assert(once[at] == selected[at]);
            }
            if at > k {
                assert(once[at] == selected[at - 1]);
            }
            assert(once.remove(k) =~= selected);
        },
    }
}

} // verus!
