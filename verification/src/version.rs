//! Reading the version out of what a command line program says of itself.
use vstd::prelude::*;

use crate::lines::chars_of;
use crate::text::{is_space, texts, white};

verus! {

/// The words of a text, which white space parts.
pub open spec fn words(s: Seq<char>) -> Seq<Seq<char>>
    decreases s.len(),
{
    if s.len() == 0 {
        Seq::empty()
    } else {
        let before = words(s.drop_last());
        if is_space(s.last()) {
            before
        } else if s.len() == 1 || is_space(s[s.len() - 2]) {
            before.push(seq![s.last()])
        } else {
            before.drop_last().push(before.last().push(s.last()))
        }
    }
}

/// A digit.
pub open spec fn is_digit(c: char) -> bool {
    '0' <= c <= '9'
}

/// How many digits a text starts with.
pub open spec fn digits_ahead(s: Seq<char>) -> int
    decreases s.len(),
{
    if s.len() > 0 && is_digit(s[0]) {
        1 + digits_ahead(s.drop_first())
    } else {
        0
    }
}

/// A text that starts with a dotted number.
pub open spec fn dotted(s: Seq<char>) -> bool {
    let n = digits_ahead(s);
    0 < n < s.len() - 1 && s[n] == '.' && is_digit(s[n + 1])
}

/// A word without the `v` that may stand before a version.
pub open spec fn without_v(word: Seq<char>) -> Seq<char> {
    if word.len() > 0 && word[0] == 'v' {
        word.drop_first()
    } else {
        word
    }
}

/// The first of the words that is a version.
pub open spec fn first_version(words: Seq<Seq<char>>) -> Option<Seq<char>>
    decreases words.len(),
{
    if words.len() == 0 {
        None
    } else if dotted(without_v(words[0])) {
        Some(without_v(words[0]))
    } else {
        first_version(words.drop_first())
    }
}

proof fn lemma_words(s: Seq<char>)
    ensures
        s.len() > 0 && !is_space(s.last()) ==> words(s).len() > 0,
    decreases s.len(),
{
    if s.len() > 0 {
        lemma_words(s.drop_last());
    }
}

/// The words of a text.
pub fn words_of(s: &str) -> (r: Vec<String>)
    ensures
        texts(r@) == words(s@),
{
    let chars = chars_of(s);
    let mut r: Vec<String> = Vec::new();
    let mut i: usize = 0;
    assert(s@.take(0) =~= Seq::empty());
    assert(texts(r@) =~= words(s@.take(0)));
    while i < chars.len()
        invariant
            i <= chars@.len(),
            chars@ == s@,
            texts(r@) == words(s@.take(i as int)),
        decreases chars@.len() - i,
    {
        let ghost upto = s@.take(i + 1);
        let ghost before = r@;
        proof {
            assert(upto.drop_last() =~= s@.take(i as int));
            lemma_words(s@.take(i as int));
        }
        let c = chars[i];
        if !white(c) {
            if i == 0 || white(chars[i - 1]) {
                let mut word = String::new();
                word.push(c);
                assert(word@ =~= seq![c]);
                r.push(word);
                assert(texts(r@) =~= texts(before).push(seq![c]));
            } else {
                assert(texts(before).last() == before.last()@);
                if let Some(mut word) = r.pop() {
                    word.push(c);
                    r.push(word);
                    assert(texts(r@) =~= texts(before).drop_last().push(texts(before).last().push(c)));
                }
            }
        }
        i = i + 1;
    }
    assert(s@.take(i as int) =~= s@);
    r
}

fn starts_dotted(s: &str) -> (r: bool)
    ensures
        r == dotted(s@),
{
    let end: usize = s.unicode_len();
    let mut n: usize = 0;
    assert(s@.skip(0) =~= s@);
    while n < end && '0' <= s.get_char(n) && s.get_char(n) <= '9'
        invariant
            n <= end == s@.len(),
            digits_ahead(s@) == n + digits_ahead(s@.skip(n as int)),
        decreases end - n,
    {
        assert(s@.skip(n as int).drop_first() =~= s@.skip(n + 1));
        n = n + 1;
    }
    0 < n && n < end && n + 1 < end && s.get_char(n) == '.' && '0' <= s.get_char(n + 1) && s.get_char(n + 1) <= '9'
}

/// Finds the version in a program's banner: the first word that starts with a dotted
/// number, without a `v` before it.
pub fn parse_cli_version(banner: &str) -> (r: Option<String>)
    ensures
        crate::text::opt(r) == first_version(words(banner@)),
{
    let all = words_of(banner);
    let mut i: usize = 0;
    assert(texts(all@).skip(0) =~= texts(all@));
    while i < all.len()
        invariant
            i <= all@.len(),
            texts(all@) == words(banner@),
            first_version(words(banner@)) == first_version(texts(all@).skip(i as int)),
        decreases all@.len() - i,
    {
        let word = all[i].as_str();
        assert(texts(all@).skip(i as int)[0] == word@);
        assert(texts(all@).skip(i as int).drop_first() =~= texts(all@).skip(i + 1));
        let n: usize = word.unicode_len();
        if n > 0 && word.get_char(0) == 'v' {
            let bare = word.substring_char(1, n);
            assert(bare@ =~= without_v(word@));
            if starts_dotted(bare) {
                return Some(bare.to_owned());
            }
        } else if starts_dotted(word) {
            return Some(word.to_owned());
        }
        i = i + 1;
    }
    None
}

proof fn lemma_first_version(words: Seq<Seq<char>>)
    ensures
        first_version(words) matches Some(v) ==> dotted(v),
    decreases words.len(),
{
    if words.len() > 0 {
        lemma_first_version(words.drop_first());
    }
}

/// A version is a dotted number, never a bare one.
pub proof fn versions_are_dotted(banner: Seq<char>)
    ensures
        first_version(words(banner)) matches Some(v) ==> dotted(v),
{
    lemma_first_version(words(banner));
}

} // verus!
