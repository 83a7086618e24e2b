//! Titles of tasks that are forked from a response: one numbered sequence per title.
use vstd::prelude::*;

use crate::lines::{decimal, decimal_of, decimal_round_trip, parse_decimal, parsed};
use crate::text::same;

verus! {

/// Where the last blank stands that an opening bracket follows.
pub open spec fn bracket_at(title: Seq<char>) -> Option<int>
    decreases title.len(),
{
    if title.len() < 2 {
        None
    } else if title[title.len() - 2] == ' ' && title.last() == '(' {
        Some(title.len() - 2)
    } else {
        bracket_at(title.drop_last())
    }
}

/// A title that ends in a bracketed number, two or more: what stands before the
/// number, and the number.
pub open spec fn numbered(title: Seq<char>) -> Option<(Seq<char>, usize)> {
    match bracket_at(title) {
        Some(i) => {
            let suffix = title.skip(i + 2);
            if i > 0 && suffix.len() > 0 && suffix.last() == ')' {
                match parsed(suffix.drop_last(), usize::MAX as nat) {
                    Some(n) if n >= 2 => Some((title.take(i), n as usize)),
                    _ => None,
                }
            } else {
                None
            }
        },
        None => None,
    }
}

/// The title with a number.
pub open spec fn with_number(base: Seq<char>, n: usize) -> Seq<char> {
    base + seq![' ', '('] + decimal(n as nat) + seq![')']
}

/// The place of a title in the sequence of `base`: the bare title is the first.
pub open spec fn number_in(title: Seq<char>, base: Seq<char>) -> Option<usize> {
    if title == base {
        Some(1)
    } else {
        match numbered(title) {
            Some((candidate, n)) if candidate == base => Some(n),
            _ => None,
        }
    }
}

/// The highest place that is taken in the sequence of `base`, one where none is.
pub open spec fn highest_number(titles: Seq<Seq<char>>, base: Seq<char>) -> usize
    decreases titles.len(),
{
    if titles.len() == 0 {
        1
    } else {
        let rest = highest_number(titles.drop_last(), base);
        match number_in(titles.last(), base) {
            Some(n) if n > rest => n,
            _ => rest,
        }
    }
}

/// The title whose sequence a fork of `source` continues: what stands before its
/// number where a task bears that title, else the title itself.
pub open spec fn fork_base(source: Seq<char>, titles: Seq<Seq<char>>) -> Seq<char> {
    match numbered(source) {
        Some((base, _)) if titles.contains(base) => base,
        _ => source,
    }
}

/// The title of a task that is forked from `source`.
pub open spec fn fork_title(source: Seq<char>, titles: Seq<Seq<char>>) -> Seq<char> {
    let base = fork_base(source, titles);
    let highest = highest_number(titles, base);
    with_number(
        base,
        if highest < usize::MAX {
            (highest + 1) as usize
        } else {
            highest
        },
    )
}

/// What a list of texts says.
pub open spec fn strs(s: Seq<&str>) -> Seq<Seq<char>> {
    s.map_values(|x: &str| x@)
}

/// Splits a title off its bracketed number.
pub fn numbered_title_suffix(title: &str) -> (r: Option<(&str, usize)>)
    ensures
        match r {
            Some((base, n)) => numbered(title@) == Some((base@, n)),
            None => numbered(title@) is None,
        },
{
    let mut n: usize = title.unicode_len();
    let end: usize = n;
    assert(title@.take(n as int) =~= title@);
    while 2 <= n && !(title.get_char(n - 2) == ' ' && title.get_char(n - 1) == '(')
        invariant
            n <= end == title@.len(),
            bracket_at(title@) == bracket_at(title@.take(n as int)),
        decreases n,
    {
        assert(title@.take(n as int).drop_last() =~= title@.take(n - 1));
        n = n - 1;
    }
    if n <= 2 || n == end || title.get_char(end - 1) != ')' {
        return None;
    }
    let digits = title.substring_char(n, end - 1);
    assert(title@.skip(n as int).drop_last() =~= title@.subrange(n as int, end - 1));
    match parse_decimal(digits, usize::MAX as u64) {
        Some(number) => {
            if number >= 2 {
                let base = title.substring_char(0, n - 2);
                assert(title@.subrange(0, n - 2) =~= title@.take(n - 2));
                Some((base, number as usize))
            } else {
                None
            }
        },
        None => None,
    }
}

fn any_same(titles: &Vec<&str>, title: &str) -> (r: bool)
    ensures
        r == strs(titles@).contains(title@),
{
    let mut i: usize = 0;
    while i < titles.len()
        invariant
            i <= titles@.len(),
            forall|j: int| 0 <= j < i ==> strs(titles@)[j] != title@,
        decreases titles@.len() - i,
    {
        assert(strs(titles@)[i as int] == titles@[i as int]@);
        if same(titles[i], title) {
            return true;
        }
        i = i + 1;
    }
    false
}

fn find_highest_number(titles: &Vec<&str>, base: &str) -> (r: usize)
    ensures
        r == highest_number(strs(titles@), base@),
{
    let mut i: usize = 0;
    let mut highest: usize = 1;
    assert(strs(titles@).take(0) =~= Seq::empty());
    while i < titles.len()
        invariant
            i <= titles@.len(),
            highest == highest_number(strs(titles@).take(i as int), base@),
            highest >= 1,
        decreases titles@.len() - i,
    {
        let ghost upto = strs(titles@).take(i + 1);
        assert(upto.drop_last() =~= strs(titles@).take(i as int));
        assert(upto.last() == titles@[i as int]@);
        if !same(titles[i], base) {
            if let Some((candidate, number)) = numbered_title_suffix(titles[i]) {
                if same(candidate, base) && number > highest {
                    highest = number;
                }
            }
        }
        i = i + 1;
    }
    assert(strs(titles@).take(i as int) =~= strs(titles@));
    highest
}

/// Names a task that is forked from a response.
pub fn next_response_fork_title(source_title: &str, existing_titles: &Vec<&str>) -> (r: String)
    ensures
        r@ == fork_title(source_title@, strs(existing_titles@)),
{
    let base = match numbered_title_suffix(source_title) {
        Some((base, _)) => {
            if any_same(existing_titles, base) {
                base
            } else {
                source_title
            }
        },
        None => source_title,
    };
    let highest = find_highest_number(existing_titles, base);
    let number: usize = highest.saturating_add(1);
    let mut r = base.to_owned();
    r.push(' ');
    r.push('(');
    let digits = decimal_of(number as u64);
    r.append(digits.as_str());
    r.push(')');
    assert(r@ =~= with_number(base@, number));
    r
}

proof fn lemma_bracket_at(title: Seq<char>)
    ensures
        bracket_at(title) matches Some(i) ==> 0 <= i <= title.len() - 2 && title[i] == ' ' && title[i + 1] == '(',
    decreases title.len(),
{
    if title.len() >= 2 && !(title[title.len() - 2] == ' ' && title.last() == '(') {
        lemma_bracket_at(title.drop_last());
    }
}

proof fn lemma_bracket_before(title: Seq<char>, i: int)
    requires
        0 <= i <= title.len() - 2,
        title[i] == ' ',
        title[i + 1] == '(',
        forall|j: int| i + 1 < j < title.len() ==> #[trigger] title[j] != '(',
    ensures
        bracket_at(title) == Some(i),
    decreases title.len(),
{
    if i < title.len() - 2 {
        assert(title.last() != '(');
        lemma_bracket_before(title.drop_last(), i);
    }
}

proof fn lemma_decimal_digits(n: nat)
    ensures
        forall|j: int| 0 <= j < decimal(n).len() ==> #[trigger] decimal(n)[j] != '(',
        decimal(n).len() > 0,
    decreases n,
{
    if n >= 10 {
        lemma_decimal_digits(n / 10);
    }
}

/// A numbered title splits into the title and its number again.
pub proof fn numbered_round_trip(base: Seq<char>, n: usize)
    requires
        base.len() > 0,
        n >= 2,
    ensures
        numbered(with_number(base, n)) == Some((base, n)),
{
    let title = with_number(base, n);
    let i = base.len() as int;
    lemma_decimal_digits(n as nat);
    let digits = decimal(n as nat);
    assert(title[i] == ' ' && title[i + 1] == '(');
    assert forall|j: int| i + 1 < j < title.len() implies #[trigger] title[j] != '(' by {
        if j < title.len() - 1 {
            assert(title[j] == digits[j - i - 2]);
        }
    }
    lemma_bracket_before(title, i);
    assert(title.take(i) =~= base);
    assert(title.skip(i + 2).last() == ')');
    assert(title.skip(i + 2).drop_last() =~= digits);
    decimal_round_trip(n as nat, usize::MAX as nat);
}

proof fn lemma_highest(titles: Seq<Seq<char>>, base: Seq<char>, k: int)
    requires
        0 <= k < titles.len(),
    ensures
        number_in(titles[k], base) matches Some(n) ==> n <= highest_number(titles, base),
        highest_number(titles, base) >= 1,
    decreases titles.len(),
{
    if k < titles.len() - 1 {
        lemma_highest(titles.drop_last(), base, k);
    } else if titles.len() > 1 {
        lemma_highest(titles.drop_last(), base, 0);
    }
}

proof fn lemma_highest_least(titles: Seq<Seq<char>>, base: Seq<char>)
    ensures
        highest_number(titles, base) >= 1,
{
    if titles.len() > 0 {
        lemma_highest(titles, base, 0);
    }
}

/// No task bears the title that a fork gets, as long as the numbers last and the
/// title forked from is not empty.
pub proof fn fork_titles_are_new(source: Seq<char>, titles: Seq<Seq<char>>)
    requires
        source.len() > 0,
        highest_number(titles, fork_base(source, titles)) < usize::MAX,
    ensures
        !titles.contains(fork_title(source, titles)),
{
    let base = fork_base(source, titles);
    lemma_bracket_at(source);
    let next = (highest_number(titles, base) + 1) as usize;
    lemma_highest_least(titles, base);
    numbered_round_trip(base, next);
    let title = fork_title(source, titles);
    if titles.contains(title) {
        let k = choose|k: int| 0 <= k < titles.len() && titles[k] == title;
        lemma_highest(titles, base, k);
        assert(title.len() > base.len());
        assert(number_in(title, base) == Some(next));
    }
}

/// A fork of a fork continues the same sequence, while the task with the bare title
/// is there.
pub proof fn forks_share_one_sequence(base: Seq<char>, n: usize, titles: Seq<Seq<char>>)
    requires
        base.len() > 0,
        n >= 2,
        titles.contains(base),
        numbered(base) is None,
    ensures
        fork_title(with_number(base, n), titles) == fork_title(base, titles),
{
    numbered_round_trip(base, n);
}

} // verus!
