//! What the texts are that the library cuts, joins and shortens.
use vstd::prelude::*;

use crate::lines::{joined, line_end, lines_of};
use crate::submissions::{asks_for_compaction, first_word, word_len};
use crate::text::{blank, is_space, trim_end, trim_start, trimmed};
use crate::turns::compacted;

verus! {

proof fn lemma_trim_start(s: Seq<char>) -> (a: int)
    ensures
        0 <= a <= s.len(),
        trim_start(s) == s.skip(a),
        forall|k: int| 0 <= k < a ==> is_space(#[trigger] s[k]),
        a < s.len() ==> !is_space(s[a]),
    decreases s.len(),
{
    if s.len() > 0 && is_space(s[0]) {
        let rest = s.drop_first();
        let b = lemma_trim_start(rest);
        assert(rest.skip(b) =~= s.skip(b + 1));
        assert(forall|k: int| 0 < k < s.len() ==> #[trigger] s[k] == rest[k - 1]);
        b + 1
    } else {
        assert(s.skip(0) =~= s);
        0
    }
}

proof fn lemma_trim_end(s: Seq<char>) -> (b: int)
    ensures
        0 <= b <= s.len(),
        trim_end(s) == s.take(b),
        forall|k: int| b <= k < s.len() ==> is_space(#[trigger] s[k]),
        b > 0 ==> !is_space(s[b - 1]),
    decreases s.len(),
{
    if s.len() > 0 && is_space(s.last()) {
        let rest = s.drop_last();
        let b = lemma_trim_end(rest);
        assert(rest.take(b) =~= s.take(b));
        assert(forall|k: int| 0 <= k < rest.len() ==> #[trigger] s[k] == rest[k]);
        b
    } else {
        assert(s.take(s.len() as int) =~= s);
        s.len() as int
    }
}

/// A text without the spaces round it is the part of the text between them: it begins and ends
/// with something else, and nothing but spaces is left off. Of a text of spaces nothing is
/// left.
pub proof fn trimming_takes_the_spaces_round(s: Seq<char>) -> (at: (int, int))
    ensures
        0 <= at.0 <= at.1 <= s.len(),
        trimmed(s) == s.subrange(at.0, at.1),
        forall|k: int| 0 <= k < at.0 || at.1 <= k < s.len() ==> is_space(#[trigger] s[k]),
        trimmed(s).len() > 0 ==> !is_space(trimmed(s)[0]) && !is_space(trimmed(s).last()),
        trimmed(s).len() == 0 <==> blank(s),
{
    let a = lemma_trim_start(s);
    let rest = s.skip(a);
    let b = lemma_trim_end(rest);
    assert(rest.take(b) =~= s.subrange(a, a + b));
    assert forall|k: int| 0 <= k < a || a + b <= k < s.len() implies is_space(#[trigger] s[k]) by {
        if k >= a + b {
            assert(rest[k - a] == s[k]);
        }
    }
    if trimmed(s).len() > 0 {
        assert(rest[b - 1] == s[a + b - 1]);
        assert(trimmed(s)[0] == s[a]);
        assert(trimmed(s).last() == s[a + b - 1]);
        assert(!blank(s));
    } else {
        assert forall|k: int| 0 <= k < s.len() implies is_space(#[trigger] s[k]) by {}
    }
    (a, a + b)
}

proof fn lemma_line_end(line: Seq<char>, rest: Seq<char>)
    requires
        !line.contains('\n'),
    ensures
        line_end(line.push('\n') + rest) == line.len(),
        line_end(line) == line.len(),
    decreases line.len(),
{
    let s = line.push('\n') + rest;
    if line.len() == 0 {
        assert(s[0] == '\n');
    } else {
        assert(line.contains(line[0]));
        assert(s[0] == line[0]);
        let tail = line.drop_first();
        assert forall|k: int| 0 <= k < tail.len() implies tail[k] != '\n' by {
            assert(line.contains(line[k + 1]));
        }
        lemma_line_end(tail, rest);
        assert(s.drop_first() =~= tail.push('\n') + rest);
    }
}

/// The lines of a text are what stands before each line break, and what stands behind the last
/// one, where something does; a carriage return before a line break belongs to the break.
pub proof fn lines_end_at_breaks(line: Seq<char>, rest: Seq<char>)
    requires
        !line.contains('\n'),
    ensures
        ({
            let bare = if line.len() > 0 && line.last() == '\r' {
                line.drop_last()
            } else {
                line
            };
            &&& lines_of(line.push('\n') + rest) == seq![bare] + lines_of(rest)
            &&& lines_of(line) == (if line.len() > 0 {
                seq![line]
            } else {
                Seq::<Seq<char>>::empty()
            })
        }),
{
    lemma_line_end(line, rest);
    let s = line.push('\n') + rest;
    assert(s.take(line.len() as int) =~= line);
    assert(s.skip(line.len() as int + 1) =~= rest);
}

/// Texts are joined with the separator between any two of them, and nowhere else.
pub proof fn joining_separates(parts: Seq<Seq<char>>, last: Seq<char>, separator: Seq<char>)
    ensures
        joined(Seq::<Seq<char>>::empty(), separator) == Seq::<char>::empty(),
        joined(seq![last], separator) == last,
        parts.len() > 0 ==> joined(parts.push(last), separator) == joined(parts, separator) + separator + last,
{
    if parts.len() > 0 {
        assert(parts.push(last).drop_last() =~= parts);
    }
}

/// An error is shown in full where it is short: of six lines and eight hundred characters at
/// most. Of a longer one the first six lines are shown, with a mark behind them, and never more
/// than eight hundred characters.
pub proof fn short_errors_are_shown_in_full(error: Seq<char>)
    ensures
        ({
            let all = lines_of(error);
            let head = joined(all.take(6), "\n"@) + "\n…"@;
            &&& compacted(error).len() <= 800
            &&& all.len() <= 6 && joined(all, "\n"@).len() <= 800 ==> compacted(error) == joined(all, "\n"@)
            &&& all.len() > 6 && head.len() <= 800 ==> compacted(error) == head
            &&& all.len() <= 6 && joined(all, "\n"@).len() > 800 ==> compacted(error) == joined(all, "\n"@).take(799).push('…')
            &&& all.len() > 6 && head.len() > 800 ==> compacted(error) == head.take(799).push('…')
        }),
{
}

proof fn lemma_word_len(word: Seq<char>, rest: Seq<char>)
    requires
        forall|k: int| 0 <= k < word.len() ==> !is_space(#[trigger] word[k]),
        rest.len() > 0 ==> is_space(rest[0]),
    ensures
        word_len(word + rest) == word.len(),
    decreases word.len(),
{
    let s = word + rest;
    if word.len() > 0 {
        assert(s[0] == word[0]);
        let tail = word.drop_first();
        assert(forall|k: int| 0 <= k < tail.len() ==> #[trigger] tail[k] == word[k + 1]);
        lemma_word_len(tail, rest);
        assert(s.drop_first() =~= tail + rest);
    }
}

/// What the user wrote asks for a compaction exactly where its first word is the command for
/// it, whatever stands round it.
pub proof fn the_first_word_is_the_command(spaces: Seq<char>, word: Seq<char>, rest: Seq<char>)
    requires
        blank(spaces),
        word.len() > 0,
        forall|k: int| 0 <= k < word.len() ==> !is_space(#[trigger] word[k]),
        rest.len() > 0 ==> is_space(rest[0]),
    ensures
        first_word(spaces + word + rest) == word,
        asks_for_compaction(spaces + word + rest) <==> word == "/compact"@,
{
    let s = spaces + word + rest;
    let a = lemma_trim_start(s);
    let n = spaces.len() as int;
    assert(s[n] == word[0]);
    if a > n {
        assert(is_space(s[n]));
    } else if a < n {
        assert(s[a] == spaces[a]);
    }
    assert(s.skip(n) =~= word + rest);
    lemma_word_len(word, rest);
    assert((word + rest).take(word.len() as int) =~= word);
}

} // verus!
