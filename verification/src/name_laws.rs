//! What names, versions and the small numbers on screen are.
use vstd::prelude::*;

use crate::file_types::{base_name, extension, language_for, last_dot, lower, lowered, path_icon};
use crate::ids::Uuid;
use crate::model::ActivityItemView;
use crate::panel_views::total;
use crate::panels::FpsCounter;
use crate::surfaces::{tab_label, SurfaceView};
use crate::text::is_space;
use crate::transcript::without_activity;
use crate::version::{digits_ahead, dotted, first_version, is_digit, without_v, words};
use crate::view_laws::names_stand_behind_the_slash;

verus! {

/// Lowering a name lowers its letters from A to Z, one by one, and leaves every other
/// character; a lowered name is lowered already.
pub proof fn lowering_concerns_letters(s: Seq<char>, k: int)
    requires
        0 <= k < s.len(),
    ensures
        lowered(s).len() == s.len(),
        !('A' <= s[k] <= 'Z') ==> lowered(s)[k] == s[k],
        'A' <= s[k] <= 'Z' ==> lowered(s)[k] as int == s[k] as int + 32,
        !('A' <= lowered(s)[k] <= 'Z'),
        lowered(lowered(s)) == lowered(s),
{
    assert forall|j: int| 0 <= j < s.len() implies #[trigger] lower(lower(s[j])) == lower(s[j]) by {}
    assert(lowered(lowered(s)) =~= lowered(s));
}

proof fn lemma_last_dot(stem: Seq<char>, end: Seq<char>)
    requires
        !end.contains('.'),
    ensures
        last_dot(stem.push('.') + end) == Some(stem.len() as int),
        last_dot(end) is None,
    decreases end.len(),
{
    let name = stem.push('.') + end;
    if end.len() == 0 {
        assert(name.last() == '.');
    } else {
        assert(end.contains(end[end.len() - 1]));
        let rest = end.drop_last();
        assert forall|k: int| 0 <= k < rest.len() implies rest[k] != '.' by {
            assert(end.contains(end[k]));
        }
        lemma_last_dot(stem, rest);
        assert(name.drop_last() =~= stem.push('.') + rest);
        assert(name.last() == end.last());
    }
}

/// The extension of a name is what stands behind its last dot; a name that begins with its
/// only dot, or has none, has no extension.
pub proof fn extensions_stand_behind_the_dot(stem: Seq<char>, end: Seq<char>)
    requires
        !end.contains('.'),
    ensures
        stem.len() > 0 ==> extension(stem.push('.') + end) == Some(end),
        stem.len() == 0 ==> extension(stem.push('.') + end) is None,
        extension(end) is None,
{
    lemma_last_dot(stem, end);
    let name = stem.push('.') + end;
    assert(name.skip(stem.len() as int + 1) =~= end);
}

/// The name of a file is the last part of its path.
pub proof fn files_are_named_by_the_last_part(directory: Seq<char>, name: Seq<char>)
    requires
        !name.contains('/'),
        name.len() > 0,
        name != seq!['.'] && name != seq!['.', '.'],
    ensures
        base_name(name) == Some(name),
        base_name(directory.push('/') + name) == Some(name),
        base_name(directory.push('/')) == base_name(directory),
{
    names_stand_behind_the_slash(directory, name);
    assert(name.contains(name[name.len() - 1]));
    let path = directory.push('/') + name;
    assert(path.last() == name.last());
    assert(directory.push('/').drop_last() =~= directory);
}

/// A tab bears the name of its file; the list of files bears the name of the file that is open
/// in it.
pub proof fn tabs_bear_their_file(directory: Seq<char>, name: Seq<char>)
    requires
        !name.contains('/'),
        name.len() > 0,
        name != seq!['.'] && name != seq!['.', '.'],
    ensures
        tab_label(SurfaceView::File(directory.push('/') + name), None) == name,
        tab_label(SurfaceView::Files, Some(directory.push('/') + name)) == name,
        tab_label(SurfaceView::Files, None) == "Files"@,
{
    names_stand_behind_the_slash(directory, name);
    files_are_named_by_the_last_part(directory, name);
}

/// The words of a text are the stretches between its spaces.
pub proof fn words_stand_between_spaces(front: Seq<char>, word: Seq<char>)
    requires
        word.len() > 0,
        forall|k: int| 0 <= k < word.len() ==> !is_space(#[trigger] word[k]),
        front.len() > 0 ==> is_space(front.last()),
    ensures
        words(front + word) == words(front).push(word),
        front.len() > 0 ==> words(front) == words(front.drop_last()),
    decreases word.len(),
{
    let s = front + word;
    let rest = word.drop_last();
    assert(s.drop_last() =~= front + rest);
    assert(s.last() == word.last());
    assert(!is_space(word[word.len() - 1]));
    if word.len() == 1 {
        assert(front + rest =~= front);
        assert(seq![word.last()] =~= word);
        if front.len() > 0 {
            assert(s[s.len() - 2] == front.last());
        }
    } else {
        assert forall|k: int| 0 <= k < rest.len() implies !is_space(#[trigger] rest[k]) by {
            assert(rest[k] == word[k]);
        }
        words_stand_between_spaces(front, rest);
        assert(s[s.len() - 2] == word[word.len() - 2]);
        assert(!is_space(word[word.len() - 2]));
        let before = words(front + rest);
        assert(before == words(front).push(rest));
        assert(before.drop_last() =~= words(front));
        assert(rest.push(word.last()) =~= word);
    }
}

/// The version in a banner is its first word that is one: digits, a dot, and a digit behind it,
/// after a letter v or none.
pub proof fn the_first_dotted_word_is_the_version(list: Seq<Seq<char>>, k: int)
    ensures
        0 <= k < list.len() && dotted(without_v(list[k])) && (forall|j: int|
            0 <= j < k ==> !dotted(without_v(#[trigger] list[j]))) ==> first_version(list) == Some(without_v(list[k])),
        (forall|j: int| 0 <= j < list.len() ==> !dotted(without_v(#[trigger] list[j]))) ==> first_version(list) is None,
    decreases list.len(),
{
    if list.len() > 0 {
        let rest = list.drop_first();
        the_first_dotted_word_is_the_version(rest, k - 1);
        assert(forall|j: int| 0 <= j < rest.len() ==> #[trigger] rest[j] == list[j + 1]);
        assert(list[0] == list.first());
    }
}

/// A number, a dot and a digit make a version, whatever follows.
pub proof fn dotted_numbers_are_versions(number: Seq<char>, digit: char, rest: Seq<char>)
    requires
        number.len() > 0,
        forall|k: int| 0 <= k < number.len() ==> '0' <= #[trigger] number[k] <= '9',
        '0' <= digit <= '9',
    ensures
        dotted(number + seq!['.', digit] + rest),
        dotted(without_v(seq!['v'] + (number + seq!['.', digit] + rest))),
{
    let s = number + seq!['.', digit] + rest;
    lemma_digits(number, seq!['.', digit] + rest);
    assert(s =~= number + (seq!['.', digit] + rest));
    assert((seq!['v'] + s).drop_first() =~= s);
}

proof fn lemma_digits(number: Seq<char>, rest: Seq<char>)
    requires
        forall|k: int| 0 <= k < number.len() ==> '0' <= #[trigger] number[k] <= '9',
        rest.len() > 0 && !is_digit(rest[0]),
    ensures
        digits_ahead(number + rest) == number.len(),
    decreases number.len(),
{
    let s = number + rest;
    if number.len() > 0 {
        assert(s[0] == number[0]);
        let tail = number.drop_first();
        assert(forall|k: int| 0 <= k < tail.len() ==> #[trigger] tail[k] == number[k + 1]);
        lemma_digits(tail, rest);
        assert(s.drop_first() =~= tail + rest);
    } else {
        assert(s =~= rest);
    }
}

/// Removing an activity leaves every other, in their order.
pub proof fn other_activities_stay(activities: Seq<ActivityItemView>, id: Uuid)
    ensures
        without_activity(activities, id) == activities.filter(|a: ActivityItemView| a.id != id),
    decreases activities.len(),
{
    reveal(Seq::filter);
    if activities.len() > 0 {
        other_activities_stay(activities.drop_last(), id);
    }
}

/// Frames are counted over a second: a frame within it counts one more, and the first one after
/// it shows how many there were and starts over.
pub proof fn frames_are_counted_over_a_second(counter: FpsCounter, now: u64)
    requires
        counter.since <= now,
        counter.frames < u32::MAX,
    ensures
        now - counter.since < 1000 ==> counter.ticked(now) == (FpsCounter {
            frames: (counter.frames + 1) as u32,
            ..counter
        }),
        now - counter.since >= 1000 ==> counter.ticked(now) == (FpsCounter {
            value: (counter.frames + 1) as u32,
            frames: 0,
            since: now,
            ..counter
        }),
{
}

/// The height of all lines is that of the first ones and that of the rest.
pub proof fn heights_add_up(a: Seq<i64>, b: Seq<i64>)
    ensures
        total(a + b) == total(a) + total(b),
        total(seq![]) == 0,
        forall|h: i64| #[trigger] total(seq![h]) == h,
    decreases b.len(),
{
    if b.len() == 0 {
        assert(a + b =~= a);
    } else {
        heights_add_up(a, b.drop_last());
        assert((a + b).drop_last() =~= a + b.drop_last());
        assert((a + b).last() == b.last());
    }
    assert forall|h: i64| #[trigger] total(seq![h]) == h by {
        assert(seq![h].drop_last() =~= Seq::<i64>::empty());
        assert(total(Seq::<i64>::empty()) == 0);
    }
}

/// A file is highlighted in the same language, and shows the same icon, wherever it lies.
pub proof fn languages_go_by_the_name(directory: Seq<char>, name: Seq<char>)
    requires
        !name.contains('/'),
        name.len() > 0,
        name != seq!['.'] && name != seq!['.', '.'],
    ensures
        language_for(directory.push('/') + name) == language_for(name),
        path_icon(directory.push('/') + name) == path_icon(name),
{
    files_are_named_by_the_last_part(directory, name);
}

} // verus!
