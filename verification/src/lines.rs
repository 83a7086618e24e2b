//! Text by the line, and numbers as text.
use vstd::prelude::*;
use vstd::string::*;

use crate::text::texts;

verus! {

/// The characters of a string.
pub fn chars_of(s: &str) -> (r: Vec<char>)
    ensures
        r@ == s@,
{
    let mut r: Vec<char> = Vec::new();
    for c in it: s.chars()
        invariant
            r@ == it.seq().take(it.index() as int),
            it.seq() == s@,
    {
        r.push(c);
        assert(r@ =~= it.seq().take(it.index() + 1));
    }
    assert(s@.take(s@.len() as int) =~= s@);
    r
}

/// How many characters stand before the first line feed.
pub open spec fn line_end(s: Seq<char>) -> int
    decreases s.len(),
{
    if s.len() == 0 || s[0] == '\n' {
        0
    } else {
        1 + line_end(s.drop_first())
    }
}

/// A line without the carriage return before its line feed.
pub open spec fn without_return(line: Seq<char>) -> Seq<char> {
    if line.len() > 0 && line.last() == '\r' {
        line.drop_last()
    } else {
        line
    }
}

pub proof fn lemma_line_end(s: Seq<char>)
    ensures
        0 <= line_end(s) <= s.len(),
        line_end(s) < s.len() ==> s[line_end(s)] == '\n',
        forall|i: int| 0 <= i < line_end(s) ==> #[trigger] s[i] != '\n',
    decreases s.len(),
{
    if s.len() > 0 && s[0] != '\n' {
        let rest = s.drop_first();
        lemma_line_end(rest);
        assert forall|i: int| 0 <= i < line_end(s) implies #[trigger] s[i] != '\n' by {
            if i > 0 {
                assert(s[i] == rest[i - 1]);
            }
        }
    }
}

/// The lines of a text. A line feed ends a line, with a carriage return before
/// it; the last line need not be ended.
pub open spec fn lines_of(s: Seq<char>) -> Seq<Seq<char>>
    decreases s.len(),
{
    if s.len() == 0 {
        Seq::empty()
    } else if line_end(s) >= s.len() || line_end(s) < 0 {
        seq![s]
    } else {
        seq![without_return(s.take(line_end(s)))] + lines_of(s.skip(line_end(s) + 1))
    }
}

/// Splits a text into its lines.
pub fn lines(s: &str) -> (r: Vec<String>)
    ensures
        texts(r@) == lines_of(s@),
{
    let chars = chars_of(s);
    let n = chars.len();
    let mut out: Vec<String> = Vec::new();
    let mut a: usize = 0;
    assert(s@.skip(0) =~= s@);
    assert(texts(out@) + lines_of(s@) =~= lines_of(s@));
    while a < n
        invariant
            a <= n == s@.len(),
            chars@ == s@,
            texts(out@) + lines_of(s@.skip(a as int)) == lines_of(s@),
        decreases n - a,
    {
        let mut k: usize = a;
        while k < n && chars[k] != '\n'
            invariant
                a <= k <= n == s@.len(),
                chars@ == s@,
                line_end(s@.skip(a as int)) == (k - a) + line_end(s@.skip(k as int)),
            decreases n - k,
        {
            assert(s@.skip(k as int).drop_first() =~= s@.skip(k + 1));
            k = k + 1;
        }
        let ghost rest = s@.skip(a as int);
        let ghost before = out@;
        assert(line_end(rest) == k - a);
        if k == n {
            let line = s.substring_char(a, n).to_owned();
            assert(line@ =~= rest);
            out.push(line);
            proof {
                assert(texts(out@) =~= texts(before).push(rest));
                assert(s@.skip(n as int).len() == 0);
                assert(texts(before) + seq![rest] =~= texts(out@) + lines_of(s@.skip(n as int)));
            }
            a = n;
        } else {
            let ended: bool = k > a && chars[k - 1] == '\r';
            let e: usize = if ended {
                k - 1
            } else {
                k
            };
            let line = s.substring_char(a, e).to_owned();
            proof {
                assert(rest.take(k - a) =~= s@.subrange(a as int, k as int));
                assert(line@ =~= without_return(rest.take(k - a)));
                assert(rest.skip(k - a + 1) =~= s@.skip(k + 1));
            }
            out.push(line);
            proof {
                assert(texts(out@) =~= texts(before).push(line@));
                assert(texts(before) + (seq![line@] + lines_of(s@.skip(k + 1))) =~= texts(out@) + lines_of(
                    s@.skip(k + 1),
                ));
            }
            a = k + 1;
        }
    }
    assert(s@.skip(a as int).len() == 0);
    assert(texts(out@) + lines_of(s@.skip(a as int)) =~= texts(out@));
    out
}

/// Lines put together with a separator between them.
pub open spec fn joined(parts: Seq<Seq<char>>, separator: Seq<char>) -> Seq<char>
    decreases parts.len(),
{
    if parts.len() == 0 {
        Seq::empty()
    } else if parts.len() == 1 {
        parts[0]
    } else {
        joined(parts.drop_last(), separator) + separator + parts.last()
    }
}

/// Puts the first `count` lines together with a separator between them.
pub fn join_first(parts: &Vec<String>, count: usize, separator: &str) -> (r: String)
    requires
        count <= parts@.len(),
    ensures
        r@ == joined(texts(parts@).take(count as int), separator@),
{
    let mut r = String::new();
    let mut i: usize = 0;
    assert(texts(parts@).take(0) =~= Seq::empty());
    assert(r@ =~= Seq::empty());
    while i < count
        invariant
            i <= count <= parts@.len(),
            r@ == joined(texts(parts@).take(i as int), separator@),
        decreases count - i,
    {
        let ghost t = texts(parts@);
        assert(t.take(i + 1).drop_last() =~= t.take(i as int));
        assert(t.take(i + 1).last() == parts@[i as int]@);
        if i > 0 {
            r.append(separator);
        }
        let ghost mid = r@;
        r.append(parts[i].as_str());
        if i == 0 {
            assert(r@ =~= parts@[0]@);
            assert(t.take(1)[0] == parts@[0]@);
        }
        i = i + 1;
    }
    r
}

/// The decimal digit of a number below ten.
pub open spec fn digit(n: int) -> char {
    if n == 0 {
        '0'
    } else if n == 1 {
        '1'
    } else if n == 2 {
        '2'
    } else if n == 3 {
        '3'
    } else if n == 4 {
        '4'
    } else if n == 5 {
        '5'
    } else if n == 6 {
        '6'
    } else if n == 7 {
        '7'
    } else if n == 8 {
        '8'
    } else {
        '9'
    }
}

/// A number in decimal, without leading zeros.
pub open spec fn decimal(n: nat) -> Seq<char>
    decreases n,
{
    if n < 10 {
        seq![digit(n as int)]
    } else {
        decimal(n / 10).push(digit((n % 10) as int))
    }
}

fn digit_of(n: u64) -> (r: char)
    requires
        n < 10,
    ensures
        r == digit(n as int),
{
    match n {
        0 => '0',
        1 => '1',
        2 => '2',
        3 => '3',
        4 => '4',
        5 => '5',
        6 => '6',
        7 => '7',
        8 => '8',
        _ => '9',
    }
}

/// Writes a number in decimal.
pub fn decimal_of(n: u64) -> (r: String)
    ensures
        r@ == decimal(n as nat),
    decreases n,
{
    if n < 10 {
        let mut r = String::new();
        r.push(digit_of(n));
        assert(r@ =~= seq![digit(n as int)]);
        r
    } else {
        let mut r = decimal_of(n / 10);
        r.push(digit_of(n % 10));
        r
    }
}

/// What a decimal digit counts.
pub open spec fn digit_value(c: char) -> Option<nat> {
    if '0' <= c <= '9' {
        Some((c as int - '0' as int) as nat)
    } else {
        None
    }
}

/// What a run of digits counts; nothing where something else stands among them.
pub open spec fn digits_value(s: Seq<char>) -> Option<nat>
    decreases s.len(),
{
    if s.len() == 0 {
        Some(0)
    } else {
        match (digits_value(s.drop_last()), digit_value(s.last())) {
            (Some(high), Some(low)) => Some(high * 10 + low),
            _ => None,
        }
    }
}

/// The number that a text stands for: digits, with a plus sign before them or
/// not, that count no more than `max`.
pub open spec fn parsed(s: Seq<char>, max: nat) -> Option<nat> {
    let body = if s.len() > 0 && s[0] == '+' {
        s.drop_first()
    } else {
        s
    };
    if body.len() == 0 {
        None
    } else {
        match digits_value(body) {
            Some(value) if value <= max => Some(value),
            _ => None,
        }
    }
}

/// Reads an unsigned number that is at most `max`.
pub fn parse_decimal(s: &str, max: u64) -> (r: Option<u64>)
    ensures
        match r {
            Some(value) => parsed(s@, max as nat) == Some(value as nat),
            None => parsed(s@, max as nat) is None,
        },
{
    let chars = chars_of(s);
    let n = chars.len();
    let start: usize = if n > 0 && chars[0] == '+' {
        1
    } else {
        0
    };
    let ghost body = s@.skip(start as int);
    proof {
        if start == 1 {
            assert(body =~= s@.drop_first());
        } else {
            assert(body =~= s@);
        }
    }
    if start == n {
        return None;
    }
    let mut i: usize = start;
    let mut value: u64 = 0;
    let mut over: bool = false;
    assert(body.take(0) =~= Seq::empty());
    while i < n
        invariant
            start <= i <= n == chars@.len(),
            chars@ == s@,
            body == s@.skip(start as int),
            start < n,
            body.len() == n - start,
            parsed(s@, max as nat) == (match digits_value(body) {
                Some(total) if total <= max => Some(total),
                _ => None,
            }),
            digits_value(body.take(i - start)) is Some,
            over ==> digits_value(body.take(i - start))->0 > max,
            !over ==> digits_value(body.take(i - start))->0 == value && value <= max,
        decreases n - i,
    {
        let c = chars[i];
        assert(body.take(i - start + 1).drop_last() =~= body.take(i - start));
        assert(body.take(i - start + 1).last() == c);
        if c < '0' || '9' < c {
            proof {
                lemma_not_digits(body, i - start);
            }
            return None;
        }
        let low: u64 = (c as u32 - '0' as u32) as u64;
        if !over {
            if low > max || value > (max - low) / 10 {
                over = true;
            } else {
                value = value * 10 + low;
            }
        }
        i = i + 1;
    }
    assert(body.take(i - start) =~= body);
    if over {
        None
    } else {
        Some(value)
    }
}

proof fn lemma_not_digits(s: Seq<char>, i: int)
    requires
        0 <= i < s.len(),
        digit_value(s[i]) is None,
    ensures
        digits_value(s) is None,
    decreases s.len(),
{
    if i < s.len() - 1 {
        lemma_not_digits(s.drop_last(), i);
    }
}

proof fn lemma_decimal_value(n: nat)
    ensures
        digits_value(decimal(n)) == Some(n),
        decimal(n).len() > 0,
        digit_value(decimal(n)[0]) is Some,
    decreases n,
{
    if n < 10 {
        assert(decimal(n).drop_last() =~= Seq::empty());
        assert(decimal(n).last() == digit(n as int));
        assert(digits_value(Seq::<char>::empty()) == Some(0nat));
        assert(digit_value(digit(n as int)) == Some(n));
    } else {
        lemma_decimal_value(n / 10);
        assert(decimal(n).drop_last() =~= decimal(n / 10));
        assert(digit_value(digit((n % 10) as int)) == Some(n % 10));
    }
}

/// Reading a number that was written in decimal gives the number back.
pub proof fn decimal_round_trip(n: nat, max: nat)
    requires
        n <= max,
    ensures
        parsed(decimal(n), max) == Some(n),
{
    lemma_decimal_value(n);
}

} // verus!
