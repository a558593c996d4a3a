//! Character-level helpers shared by the parsers of this crate: searching,
//! trimming and reading decimal numbers.

use vstd::prelude::*;
use vstd::std_specs::iter::IteratorSpec;
use vstd::string::{StrSliceExecFns, StringExecFns};

verus! {

/// Whether `c` is white space: a character with the Unicode property
/// `White_Space`.
pub open spec fn is_space(c: char) -> bool {
    let n = c as u32;
    ||| 0x09 <= n <= 0x0D
    ||| n == 0x20
    ||| n == 0x85
    ||| n == 0xA0
    ||| n == 0x1680
    ||| 0x2000 <= n <= 0x200A
    ||| n == 0x2028
    ||| n == 0x2029
    ||| n == 0x202F
    ||| n == 0x205F
    ||| n == 0x3000
}

/// Whether `c` is one of the digits `0` to `9`.
pub open spec fn is_digit(c: char) -> bool {
    0x30 <= c as u32 <= 0x39
}

/// The position of the first `c` in `s`, or the length of `s` if there is
/// none.
pub open spec fn index_of(s: Seq<char>, c: char) -> int
    decreases s.len(),
{
    if s.len() == 0 || s[0] == c {
        0
    } else {
        1 + index_of(s.drop_first(), c)
    }
}

/// How many white-space characters `s` starts with.
pub open spec fn leading_spaces(s: Seq<char>) -> nat
    decreases s.len(),
{
    if s.len() > 0 && is_space(s[0]) {
        1 + leading_spaces(s.drop_first())
    } else {
        0
    }
}

/// How many white-space characters `s` ends with.
pub open spec fn trailing_spaces(s: Seq<char>) -> nat
    decreases s.len(),
{
    if s.len() > 0 && is_space(s.last()) {
        1 + trailing_spaces(s.drop_last())
    } else {
        0
    }
}

/// `s` without the white space at its start and at its end.
pub open spec fn trimmed(s: Seq<char>) -> Seq<char> {
    let rest = s.skip(leading_spaces(s) as int);
    rest.take(rest.len() - trailing_spaces(rest))
}

/// `s` without the run of `c` at its end.
pub open spec fn without_trailing(s: Seq<char>, c: char) -> Seq<char>
    decreases s.len(),
{
    if s.len() > 0 && s.last() == c {
        without_trailing(s.drop_last(), c)
    } else {
        s
    }
}

/// The number that the digits `s` write in base ten.
pub open spec fn digits_value(s: Seq<char>) -> nat
    decreases s.len(),
{
    if s.len() == 0 {
        0
    } else {
        digits_value(s.drop_last()) * 10 + (s.last() as u32 - 0x30) as nat
    }
}

/// Whether `s` holds digits only.
pub open spec fn all_digits(s: Seq<char>) -> bool {
    forall|i: int| 0 <= i < s.len() ==> is_digit(#[trigger] s[i])
}

/// The number that `s` writes: one or more digits, with or without a `+`
/// before them. Anything else writes no number.
pub open spec fn decimal_value(s: Seq<char>) -> Option<nat> {
    let digits = if s.len() > 0 && s[0] == '+' {
        s.drop_first()
    } else {
        s
    };
    if digits.len() > 0 && all_digits(digits) {
        Some(digits_value(digits))
    } else {
        None
    }
}

/// The number that `s` writes, where it writes one that is no larger than
/// `max`.
pub open spec fn decimal_within(s: Seq<char>, max: nat) -> Option<nat> {
    match decimal_value(s) {
        Some(v) if v <= max => Some(v),
        _ => None,
    }
}

/// A position is that of the first `c` when no `c` stands before it and it
/// is the end or holds a `c`.
pub proof fn lemma_index_of(s: Seq<char>, c: char, i: int)
    requires
        0 <= i <= s.len(),
        forall|j: int| 0 <= j < i ==> s[j] != c,
        i < s.len() ==> s[i] == c,
    ensures
        index_of(s, c) == i,
    decreases s.len(),
{
    if s.len() > 0 && s[0] != c {
        let rest = s.drop_first();
        assert forall|j: int| 0 <= j < i - 1 implies rest[j] != c by {
            assert(rest[j] == s[j + 1]);
        }
        lemma_index_of(rest, c, i - 1);
    }
}

/// The digits of a prefix write no larger a number than all the digits.
pub proof fn lemma_digits_value_prefix(s: Seq<char>, k: int)
    requires
        0 <= k <= s.len(),
    ensures
        digits_value(s.take(k)) <= digits_value(s),
    decreases s.len() - k,
{
    if k < s.len() {
        lemma_digits_value_prefix(s.drop_last(), k);
        assert(s.drop_last().take(k) == s.take(k));
    } else {
        assert(s.take(k) == s);
    }
}

/// The characters of `s`, in order.
pub fn chars_of(s: &str) -> (out: Vec<char>)
    ensures
        out@ == s@,
{
    let mut out: Vec<char> = Vec::new();
    let chars = s.chars();
    assert(chars.remaining() == s@);
    for c in it: chars
        invariant
            it.seq() == s@,
            out@ == s@.take(it.index() as int),
    {
        out.push(c);
    }
    out
}

/// The text that the characters of `s` from `from` up to `to` make.
pub fn text_between(s: &str, from: usize, to: usize) -> (out: String)
    requires
        from <= to <= s@.len(),
    ensures
        out@ == s@.subrange(from as int, to as int),
{
    String::from_str(s.substring_char(from, to))
}

/// Whether `a` and `b` hold the same characters.
pub fn same_chars(a: &Vec<char>, b: &Vec<char>) -> (same: bool)
    ensures
        same == (a@ == b@),
{
    if a.len() != b.len() {
        return false;
    }
    let mut i: usize = 0;
    while i < a.len()
        invariant
            i <= a.len(),
            a.len() == b.len(),
            a@.take(i as int) == b@.take(i as int),
        decreases a.len() - i,
    {
        if a[i] != b[i] {
            return false;
        }
        assert(a@.take(i + 1) == a@.take(i as int).push(a@[i as int]));
        assert(b@.take(i + 1) == b@.take(i as int).push(b@[i as int]));
        i = i + 1;
    }
    assert(a@.take(i as int) == a@);
    assert(b@.take(i as int) == b@);
    true
}

/// Whether `s` starts with `prefix`.
pub open spec fn starts_with(s: Seq<char>, prefix: Seq<char>) -> bool {
    prefix.len() <= s.len() && s.take(prefix.len() as int) == prefix
}

/// Whether `s` starts with the characters of `prefix`.
pub fn has_prefix(s: &Vec<char>, prefix: &Vec<char>) -> (r: bool)
    ensures
        r == starts_with(s@, prefix@),
{
    if prefix.len() > s.len() {
        return false;
    }
    let mut i: usize = 0;
    while i < prefix.len()
        invariant
            i <= prefix.len() <= s.len(),
            s@.take(i as int) == prefix@.take(i as int),
        decreases prefix.len() - i,
    {
        if s[i] != prefix[i] {
            assert(s@.take(prefix.len() as int)[i as int] != prefix@[i as int]);
            return false;
        }
        assert(s@.take(i + 1) == s@.take(i as int).push(s@[i as int]));
        assert(prefix@.take(i + 1) == prefix@.take(i as int).push(prefix@[i as int]));
        i = i + 1;
    }
    assert(prefix@.take(i as int) == prefix@);
    true
}

/// Whether `a` and `b` are the same text.
pub fn same_text(a: &str, b: &str) -> (same: bool)
    ensures
        same == (a@ == b@),
{
    let left = chars_of(a);
    let right = chars_of(b);
    same_chars(&left, &right)
}

/// Whether `c` is white space.
pub fn is_whitespace(c: char) -> (r: bool)
    ensures
        r == is_space(c),
{
    let n: u32 = c as u32;
    (0x09 <= n && n <= 0x0D) || n == 0x20 || n == 0x85 || n == 0xA0 || n == 0x1680 || (0x2000
        <= n && n <= 0x200A) || n == 0x2028 || n == 0x2029 || n == 0x202F || n == 0x205F || n
        == 0x3000
}

/// The position of the first `c` in `cs` at or after `from` and before `to`,
/// or `to` if there is none.
pub fn find_char(cs: &Vec<char>, c: char, from: usize, to: usize) -> (at: usize)
    requires
        from <= to <= cs@.len(),
    ensures
        from <= at <= to,
        at == from + index_of(cs@.subrange(from as int, to as int), c),
{
    let mut at: usize = from;
    while at < to && cs[at] != c
        invariant
            from <= at <= to <= cs@.len(),
            forall|j: int| from <= j < at ==> cs@[j] != c,
        decreases to - at,
    {
        at = at + 1;
    }
    proof {
        lemma_index_of(cs@.subrange(from as int, to as int), c, at - from);
    }
    at
}

/// Where `cs`, trimmed of white space, starts and ends.
pub fn trim_bounds(cs: &Vec<char>) -> (r: (usize, usize))
    ensures
        r.0 <= r.1 <= cs@.len(),
        cs@.subrange(r.0 as int, r.1 as int) == trimmed(cs@),
{
    let n: usize = cs.len();
    let mut start: usize = 0;
    assert(cs@.skip(0) == cs@);
    while start < n && is_whitespace(cs[start])
        invariant
            start <= n == cs@.len(),
            leading_spaces(cs@) == start + leading_spaces(cs@.skip(start as int)),
        decreases n - start,
    {
        assert(cs@.skip(start as int).drop_first() == cs@.skip(start + 1));
        start = start + 1;
    }
    let ghost rest = cs@.skip(start as int);
    let mut end: usize = n;
    assert(rest.take(n - start) == rest);
    while end > start && is_whitespace(cs[end - 1])
        invariant
            start <= end <= n == cs@.len(),
            rest == cs@.skip(start as int),
            trailing_spaces(rest) == (n - end) + trailing_spaces(rest.take(end - start)),
        decreases end,
    {
        assert(rest.take(end - start).drop_last() == rest.take(end - start - 1));
        end = end - 1;
    }
    assert(cs@.subrange(start as int, end as int) == rest.take(end - start));
    (start, end)
}

/// Where `cs` ends once the run of `c` at its end is left out.
pub fn end_without_trailing(cs: &Vec<char>, c: char) -> (end: usize)
    ensures
        end <= cs@.len(),
        cs@.take(end as int) == without_trailing(cs@, c),
{
    let mut end: usize = cs.len();
    assert(cs@.take(end as int) == cs@);
    while end > 0 && cs[end - 1] == c
        invariant
            end <= cs@.len(),
            without_trailing(cs@, c) == without_trailing(cs@.take(end as int), c),
        decreases end,
    {
        assert(cs@.take(end as int).drop_last() == cs@.take(end - 1));
        end = end - 1;
    }
    end
}

/// Whether the characters of `cs` from `from` up to `to` are digits, all of
/// them.
pub fn only_digits(cs: &Vec<char>, from: usize, to: usize) -> (r: bool)
    requires
        from <= to <= cs@.len(),
    ensures
        r == all_digits(cs@.subrange(from as int, to as int)),
{
    let mut i: usize = from;
    while i < to
        invariant
            from <= i <= to <= cs@.len(),
            forall|j: int| from <= j < i ==> is_digit(cs@[j]),
        decreases to - i,
    {
        let n: u32 = cs[i] as u32;
        if n < 0x30 || n > 0x39 {
            assert(!is_digit(cs@.subrange(from as int, to as int)[i - from]));
            return false;
        }
        i = i + 1;
    }
    assert forall|j: int| 0 <= j < to - from implies is_digit(
        #[trigger] cs@.subrange(from as int, to as int)[j],
    ) by {
        assert(cs@.subrange(from as int, to as int)[j] == cs@[from + j]);
    }
    true
}

/// Reads the characters of `cs` from `from` up to `to` as a decimal number:
/// one or more digits, with or without a `+` before them. Returns the number
/// where there is one and it is no larger than `max`.
pub fn parse_decimal(cs: &Vec<char>, from: usize, to: usize, max: u64) -> (value: Option<u64>)
    requires
        from <= to <= cs@.len(),
    ensures
        value matches Some(v) ==> decimal_within(cs@.subrange(from as int, to as int), max as nat)
            == Some(v as nat),
        value is None ==> decimal_within(cs@.subrange(from as int, to as int), max as nat)
            is None,
{
    let ghost text = cs@.subrange(from as int, to as int);
    let first: usize = if from < to && cs[from] == '+' {
        from + 1
    } else {
        from
    };
    let ghost digits = cs@.subrange(first as int, to as int);
    assert(digits == if text.len() > 0 && text[0] == '+' {
        text.drop_first()
    } else {
        text
    });
    if first == to {
        return None;
    }
    let mut acc: u64 = 0;
    let mut i: usize = first;
    while i < to
        invariant
            from <= first <= i <= to <= cs@.len(),
            first < to,
            text == cs@.subrange(from as int, to as int),
            digits == cs@.subrange(first as int, to as int),
            decimal_value(text) == if all_digits(digits) {
                Some(digits_value(digits))
            } else {
                None
            },
            all_digits(digits.take(i - first)),
            acc == digits_value(digits.take(i - first)),
            acc <= max,
        decreases to - i,
    {
        let n: u32 = cs[i] as u32;
        if n < 0x30 || n > 0x39 {
            assert(!is_digit(digits[i - first]));
            return None;
        }
        let digit: u64 = (n - 0x30) as u64;
        proof {
            let next = digits.take(i - first + 1);
            assert(next.drop_last() == digits.take(i - first));
            assert(next.last() == cs@[i as int]);
            assert forall|j: int| 0 <= j < next.len() implies is_digit(#[trigger] next[j]) by {
                if j < i - first {
                    assert(next[j] == digits.take(i - first)[j]);
                }
            }
            lemma_digits_value_prefix(digits, i - first + 1);
        }
        if digit > max || acc > (max - digit) / 10 {
            return None;
        }
        acc = acc * 10 + digit;
        i = i + 1;
    }
    assert(digits.take(digits.len() as int) == digits);
    Some(acc)
}

} // verus!
