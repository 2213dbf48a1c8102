//! Cutting and measuring text: prefixes, separators, trimming, ASCII case,
//! replacement and UTF-16 length.

use vstd::prelude::*;
use vstd::string::*;

use crate::text::{chars_of, string_of};

verus! {

// ---------------------------------------------------------------------------
// Prefixes
// ---------------------------------------------------------------------------

pub open spec fn has_prefix(s: Seq<char>, prefix: Seq<char>) -> bool {
    prefix.len() <= s.len() && s.take(prefix.len() as int) == prefix
}

/// What follows `prefix` in `s`, if `s` begins with it.
pub open spec fn stripped(s: Seq<char>, prefix: Seq<char>) -> Option<Seq<char>> {
    if has_prefix(s, prefix) {
        Some(s.skip(prefix.len() as int))
    } else {
        None
    }
}

/// Whether the characters of `prefix` stand in `chars` from position `at` on.
pub fn stands_at(chars: &[char], at: usize, prefix: &[char]) -> (found: bool)
    requires
        at <= chars@.len(),
    ensures
        found == has_prefix(chars@.skip(at as int), prefix@),
{
    let ghost rest = chars@.skip(at as int);
    if prefix.len() > chars.len() - at {
        return false;
    }
    let total: usize = chars.len();
    let mut i: usize = 0;
    while i < prefix.len()
        invariant
            i <= prefix@.len(),
            total == chars@.len(),
            at <= chars@.len(),
            prefix@.len() <= chars@.len() - at,
            rest == chars@.skip(at as int),
            forall|j: int| 0 <= j < i ==> rest[j] == prefix@[j],
        decreases prefix@.len() - i,
    {
        if chars[at + i] != prefix[i] {
            assert(rest[i as int] != prefix@[i as int]);
            assert(rest.take(prefix@.len() as int)[i as int] == rest[i as int]);
            return false;
        }
        i = i + 1;
    }
    assert(rest.take(prefix@.len() as int) == prefix@);
    true
}

/// Whether `s` begins with `prefix`.
pub fn begins_with(s: &str, prefix: &str) -> (found: bool)
    ensures
        found == has_prefix(s@, prefix@),
{
    let chars = chars_of(s);
    let wanted = chars_of(prefix);
    assert(chars@.skip(0) == chars@);
    stands_at(&chars, 0, &wanted)
}

/// What follows `prefix` in `s`, if `s` begins with it.
pub fn strip(s: &str, prefix: &str) -> (rest: Option<String>)
    ensures
        crate::text::opt_text(rest) == stripped(s@, prefix@),
{
    let chars = chars_of(s);
    let wanted = chars_of(prefix);
    assert(chars@.skip(0) == chars@);
    if stands_at(&chars, 0, &wanted) {
        let rest = string_of(&chars, wanted.len(), chars.len());
        assert(rest@ == s@.skip(prefix@.len() as int));
        Some(rest)
    } else {
        None
    }
}

/// Text put behind a prefix is what is left when the prefix is taken off.
pub proof fn prefix_comes_off(prefix: Seq<char>, rest: Seq<char>)
    ensures
        has_prefix(prefix + rest, prefix),
        stripped(prefix + rest, prefix) == Some(rest),
{
    assert((prefix + rest).take(prefix.len() as int) == prefix);
    assert((prefix + rest).skip(prefix.len() as int) == rest);
}

// ---------------------------------------------------------------------------
// Separators
// ---------------------------------------------------------------------------

/// The part of `s` before its first `a` or `b`; all of `s` if it has neither.
pub open spec fn before_either(s: Seq<char>, a: char, b: char) -> Seq<char>
    decreases s.len(),
{
    if s.len() == 0 || s[0] == a || s[0] == b {
        Seq::empty()
    } else {
        seq![s[0]] + before_either(s.skip(1), a, b)
    }
}

/// The part of `s` after its last `c`; all of `s` if it has none.
pub open spec fn after_last(s: Seq<char>, c: char) -> Seq<char>
    decreases s.len(),
{
    if s.len() == 0 || s.last() == c {
        Seq::empty()
    } else {
        after_last(s.drop_last(), c).push(s.last())
    }
}

/// `s` without the run of `c` at its end.
pub open spec fn trimmed_end(s: Seq<char>, c: char) -> Seq<char>
    decreases s.len(),
{
    if s.len() > 0 && s.last() == c {
        trimmed_end(s.drop_last(), c)
    } else {
        s
    }
}

/// The pieces between the separators `c` of `s`, empty ones kept. There is one
/// piece more than there are separators.
pub open spec fn split_at_each(s: Seq<char>, c: char) -> Seq<Seq<char>>
    decreases s.len(),
{
    if s.len() == 0 {
        seq![Seq::empty()]
    } else {
        let before = split_at_each(s.drop_last(), c);
        if s.last() == c {
            before.push(Seq::empty())
        } else {
            before.drop_last().push(before.last().push(s.last()))
        }
    }
}

/// How many characters come before the first `a` or `b`.
pub fn length_before_either(chars: &[char], a: char, b: char) -> (n: usize)
    ensures
        n <= chars@.len(),
        chars@.take(n as int) == before_either(chars@, a, b),
{
    let mut n: usize = 0;
    assert(chars@.skip(0) == chars@);
    assert(chars@.take(0) + before_either(chars@.skip(0), a, b) == before_either(chars@, a, b));
    while n < chars.len()
        invariant
            n <= chars@.len(),
            chars@.take(n as int) + before_either(chars@.skip(n as int), a, b) == before_either(
                chars@,
                a,
                b,
            ),
        decreases chars@.len() - n,
    {
        let ghost rest = chars@.skip(n as int);
        assert(rest[0] == chars@[n as int]);
        if chars[n] == a || chars[n] == b {
            assert(chars@.take(n as int) + Seq::<char>::empty() == chars@.take(n as int));
            return n;
        }
        n = n + 1;
        assert(rest.skip(1) == chars@.skip(n as int));
        assert(chars@.take(n as int) + before_either(chars@.skip(n as int), a, b) == chars@.take(
            n - 1,
        ) + (seq![rest[0]] + before_either(rest.skip(1), a, b)));
    }
    assert(chars@.take(n as int) + Seq::<char>::empty() == chars@.take(n as int));
    n
}

/// How many characters are left when the run of `c` at the end is dropped.
pub fn length_without_trailing(chars: &[char], c: char) -> (n: usize)
    ensures
        n <= chars@.len(),
        chars@.take(n as int) == trimmed_end(chars@, c),
{
    let mut n: usize = chars.len();
    assert(chars@.take(n as int) == chars@);
    while n > 0
        invariant
            n <= chars@.len(),
            trimmed_end(chars@.take(n as int), c) == trimmed_end(chars@, c),
        decreases n,
    {
        let ghost head = chars@.take(n as int);
        assert(head.last() == chars@[n - 1]);
        if chars[n - 1] != c {
            return n;
        }
        n = n - 1;
        assert(head.drop_last() == chars@.take(n as int));
    }
    n
}

/// Where the last piece of `chars[..end]` begins, when `c` separates.
pub fn start_of_last_piece(chars: &[char], end: usize, c: char) -> (start: usize)
    requires
        end <= chars@.len(),
    ensures
        start <= end,
        chars@.subrange(start as int, end as int) == after_last(chars@.take(end as int), c),
{
    let mut start: usize = end;
    assert(after_last(chars@.take(end as int), c) == after_last(chars@.take(start as int), c)
        + chars@.subrange(start as int, end as int));
    while start > 0
        invariant
            start <= end <= chars@.len(),
            after_last(chars@.take(end as int), c) == after_last(chars@.take(start as int), c)
                + chars@.subrange(start as int, end as int),
        decreases start,
    {
        let ghost head = chars@.take(start as int);
        assert(head.last() == chars@[start - 1]);
        if chars[start - 1] == c {
            assert(Seq::<char>::empty() + chars@.subrange(start as int, end as int)
                == chars@.subrange(start as int, end as int));
            return start;
        }
        start = start - 1;
        assert(head.drop_last() == chars@.take(start as int));
        assert(after_last(chars@.take(start as int), c) + chars@.subrange(start as int, end as int)
            == after_last(head, c) + chars@.subrange(start + 1, end as int));
    }
    assert(Seq::<char>::empty() + chars@.subrange(start as int, end as int) == chars@.subrange(
        start as int,
        end as int,
    ));
    start
}

/// The pieces between the separators `c`, empty ones kept.
pub fn pieces(chars: &[char], c: char) -> (out: Vec<Vec<char>>)
    ensures
        out@.len() > 0,
        Seq::new(out@.len(), |i: int| out@[i]@) == split_at_each(chars@, c),
{
    let mut done: Vec<Vec<char>> = Vec::new();
    let mut piece: Vec<char> = Vec::new();
    let mut i: usize = 0;
    assert(Seq::new(done@.len(), |i: int| done@[i]@).push(piece@) == split_at_each(
        chars@.take(0),
        c,
    ));
    while i < chars.len()
        invariant
            i <= chars@.len(),
            Seq::new(done@.len(), |i: int| done@[i]@).push(piece@) == split_at_each(
                chars@.take(i as int),
                c,
            ),
        decreases chars@.len() - i,
    {
        let ghost before = Seq::new(done@.len(), |i: int| done@[i]@);
        let ghost last = piece@;
        let ghost head = chars@.take(i + 1);
        assert(head.drop_last() == chars@.take(i as int));
        assert(head.last() == chars@[i as int]);
        assert(before.push(last).drop_last() == before);
        if chars[i] == c {
            done.push(piece);
            piece = Vec::new();
            assert(Seq::new(done@.len(), |i: int| done@[i]@) == before.push(last));
        } else {
            piece.push(chars[i]);
        }
        i = i + 1;
    }
    assert(chars@.take(i as int) == chars@);
    let ghost before = Seq::new(done@.len(), |i: int| done@[i]@);
    let ghost last = piece@;
    done.push(piece);
    assert(Seq::new(done@.len(), |i: int| done@[i]@) == before.push(last));
    done
}

/// Whether `c` occurs in `s`.
pub open spec fn occurs(s: Seq<char>, c: char) -> bool {
    exists|i: int| 0 <= i < s.len() && s[i] == c
}

/// Text without the separator is one piece.
pub proof fn unbroken_is_one_piece(s: Seq<char>, c: char)
    requires
        !occurs(s, c),
    ensures
        split_at_each(s, c) == seq![s],
    decreases s.len(),
{
    if s.len() > 0 {
        assert(s[s.len() - 1] != c);
        assert forall|i: int| 0 <= i < s.drop_last().len() implies s.drop_last()[i] != c by {
            assert(s[i] != c);
        }
        unbroken_is_one_piece(s.drop_last(), c);
        assert(s.drop_last().push(s.last()) == s);
        assert(split_at_each(s, c) == seq![s]);
    } else {
        assert(s == Seq::<char>::empty());
    }
}

/// A separator and an unbroken text behind it add that text as one piece.
pub proof fn one_more_piece(s: Seq<char>, c: char, t: Seq<char>)
    requires
        !occurs(t, c),
    ensures
        split_at_each(s.push(c) + t, c) == split_at_each(s, c).push(t),
    decreases t.len(),
{
    let whole = s.push(c) + t;
    if t.len() == 0 {
        assert(whole.drop_last() == s);
        assert(t == Seq::<char>::empty());
    } else {
        assert(t[t.len() - 1] != c);
        assert forall|i: int| 0 <= i < t.drop_last().len() implies t.drop_last()[i] != c by {
            assert(t[i] != c);
        }
        one_more_piece(s, c, t.drop_last());
        assert(whole.drop_last() == s.push(c) + t.drop_last());
        let before = split_at_each(whole.drop_last(), c);
        assert(before.drop_last() == split_at_each(s, c));
        assert(before.last().push(t.last()) == t);
    }
}

/// Text without either separator comes before them whole.
pub proof fn unbroken_comes_before(s: Seq<char>, a: char, b: char)
    requires
        !occurs(s, a),
        !occurs(s, b),
    ensures
        before_either(s, a, b) == s,
    decreases s.len(),
{
    if s.len() > 0 {
        assert(s[0] != a && s[0] != b);
        assert forall|i: int| 0 <= i < s.skip(1).len() implies s.skip(1)[i] != a && s.skip(1)[i]
            != b by {
            assert(s[i + 1] != a && s[i + 1] != b);
        }
        unbroken_comes_before(s.skip(1), a, b);
        assert(seq![s[0]] + s.skip(1) == s);
    }
}

/// Unbroken text behind a separator is what comes after the last one.
pub proof fn unbroken_comes_after(s: Seq<char>, c: char, t: Seq<char>)
    requires
        !occurs(t, c),
    ensures
        after_last(s.push(c) + t, c) == t,
    decreases t.len(),
{
    let whole = s.push(c) + t;
    if t.len() > 0 {
        assert(t[t.len() - 1] != c);
        assert forall|i: int| 0 <= i < t.drop_last().len() implies t.drop_last()[i] != c by {
            assert(t[i] != c);
        }
        unbroken_comes_after(s, c, t.drop_last());
        assert(whole.drop_last() == s.push(c) + t.drop_last());
        assert(whole.last() == t.last());
        assert(t.drop_last().push(t.last()) == t);
    }
}

// ---------------------------------------------------------------------------
// White space and ASCII case
// ---------------------------------------------------------------------------

/// The characters with the Unicode property White_Space.
pub open spec fn is_white_space(c: char) -> bool {
    let n = c as u32;
    ||| 0x9 <= n <= 0xd
    ||| n == 0x20
    ||| n == 0x85
    ||| n == 0xa0
    ||| n == 0x1680
    ||| 0x2000 <= n <= 0x200a
    ||| n == 0x2028
    ||| n == 0x2029
    ||| n == 0x202f
    ||| n == 0x205f
    ||| n == 0x3000
}

fn white_space(c: char) -> (yes: bool)
    ensures
        yes == is_white_space(c),
{
    let n: u32 = c as u32;
    (0x9 <= n && n <= 0xd) || n == 0x20 || n == 0x85 || n == 0xa0 || n == 0x1680 || (0x2000 <= n
        && n <= 0x200a) || n == 0x2028 || n == 0x2029 || n == 0x202f || n == 0x205f || n == 0x3000
}

/// `s` without the white space at its start.
pub open spec fn without_leading_space(s: Seq<char>) -> Seq<char>
    decreases s.len(),
{
    if s.len() > 0 && is_white_space(s[0]) {
        without_leading_space(s.skip(1))
    } else {
        s
    }
}

/// `s` without the white space at its end.
pub open spec fn without_trailing_space(s: Seq<char>) -> Seq<char>
    decreases s.len(),
{
    if s.len() > 0 && is_white_space(s.last()) {
        without_trailing_space(s.drop_last())
    } else {
        s
    }
}

/// `s` without the white space at either end.
pub open spec fn trimmed(s: Seq<char>) -> Seq<char> {
    without_trailing_space(without_leading_space(s))
}

/// `s` without the white space at either end.
pub fn trim(s: &str) -> (out: String)
    ensures
        out@ == trimmed(s@),
{
    let chars = chars_of(s);
    let mut from: usize = 0;
    assert(chars@.skip(0) == chars@);
    while from < chars.len() && white_space(chars[from])
        invariant
            from <= chars@.len(),
            chars@ == s@,
            without_leading_space(chars@.skip(from as int)) == without_leading_space(s@),
        decreases chars@.len() - from,
    {
        let ghost rest = chars@.skip(from as int);
        assert(rest[0] == chars@[from as int]);
        assert(rest.skip(1) == chars@.skip(from + 1));
        from = from + 1;
    }
    let ghost body = chars@.skip(from as int);
    assert(body.len() > 0 ==> body[0] == chars@[from as int]);
    assert(body == without_leading_space(s@));
    let mut to: usize = chars.len();
    assert(chars@.subrange(from as int, to as int) == body);
    while from < to && white_space(chars[to - 1])
        invariant
            from <= to <= chars@.len(),
            without_trailing_space(chars@.subrange(from as int, to as int)) == trimmed(s@),
        decreases to - from,
    {
        let ghost part = chars@.subrange(from as int, to as int);
        assert(part.last() == chars@[to - 1]);
        assert(part.drop_last() == chars@.subrange(from as int, to - 1));
        to = to - 1;
    }
    let ghost part = chars@.subrange(from as int, to as int);
    assert(part.len() > 0 ==> part.last() == chars@[to - 1]);
    string_of(&chars, from, to)
}

pub open spec fn lower_char(c: char) -> char {
    if 'A' <= c <= 'Z' {
        (c as u32 + 32) as char
    } else {
        c
    }
}

/// `s` with its ASCII capitals replaced by small letters.
pub open spec fn lowered(s: Seq<char>) -> Seq<char> {
    Seq::new(s.len(), |i: int| lower_char(s[i]))
}

/// `s` with its ASCII capitals replaced by small letters.
pub fn to_lower(s: &str) -> (out: String)
    ensures
        out@ == lowered(s@),
{
    let chars = chars_of(s);
    let mut out = String::new();
    let mut i: usize = 0;
    while i < chars.len()
        invariant
            i <= chars@.len(),
            chars@ == s@,
            out@ == lowered(s@).take(i as int),
        decreases chars@.len() - i,
    {
        let c = chars[i];
        if 'A' <= c && c <= 'Z' {
            let small = (c as u8 + 32) as char;
            assert(small == lower_char(c));
            out.push(small);
        } else {
            out.push(c);
        }
        i = i + 1;
        assert(lowered(s@).take(i as int) == lowered(s@).take(i - 1).push(lower_char(c)));
    }
    assert(lowered(s@).take(i as int) == lowered(s@));
    out
}

// ---------------------------------------------------------------------------
// Replacing, joining and measuring
// ---------------------------------------------------------------------------

/// `s` with every occurrence of `from` replaced by `to`, left to right and
/// without overlaps.
pub open spec fn replaced(s: Seq<char>, from: Seq<char>, to: Seq<char>) -> Seq<char>
    decreases s.len(),
{
    if s.len() == 0 || from.len() == 0 {
        s
    } else if has_prefix(s, from) {
        to + replaced(s.skip(from.len() as int), from, to)
    } else {
        seq![s[0]] + replaced(s.skip(1), from, to)
    }
}

/// `s` with every occurrence of `from` replaced by `to`.
pub fn replace_all(s: &str, from: &str, to: &str) -> (out: String)
    requires
        from@.len() > 0,
    ensures
        out@ == replaced(s@, from@, to@),
{
    let chars = chars_of(s);
    let wanted = chars_of(from);
    let mut out = String::new();
    let mut i: usize = 0;
    assert(chars@.skip(0) == chars@);
    assert(out@ + replaced(chars@.skip(0), from@, to@) == replaced(s@, from@, to@));
    while i < chars.len()
        invariant
            i <= chars@.len(),
            chars@ == s@,
            wanted@ == from@,
            from@.len() > 0,
            out@ + replaced(chars@.skip(i as int), from@, to@) == replaced(s@, from@, to@),
        decreases chars@.len() - i,
    {
        let ghost rest = chars@.skip(i as int);
        let ghost before = out@;
        if stands_at(&chars, i, &wanted) {
            out.append(to);
            i = i + wanted.len();
            assert(rest.skip(from@.len() as int) == chars@.skip(i as int));
            assert(before + (to@ + replaced(rest.skip(from@.len() as int), from@, to@)) == out@
                + replaced(chars@.skip(i as int), from@, to@));
        } else {
            assert(rest[0] == chars@[i as int]);
            out.push(chars[i]);
            i = i + 1;
            assert(rest.skip(1) == chars@.skip(i as int));
            assert(before + (seq![rest[0]] + replaced(rest.skip(1), from@, to@)) == out@ + replaced(
                chars@.skip(i as int),
                from@,
                to@,
            ));
        }
    }
    assert(out@ + Seq::<char>::empty() == out@);
    assert(chars@.skip(i as int) == Seq::<char>::empty());
    out
}

/// The lines of `lines` below one another, with a newline between two of them.
pub open spec fn stacked(lines: Seq<Seq<char>>) -> Seq<char>
    decreases lines.len(),
{
    if lines.len() == 0 {
        Seq::empty()
    } else if lines.len() == 1 {
        lines[0]
    } else {
        stacked(lines.drop_last()).push('\n') + lines.last()
    }
}

/// The first `keep` lines below one another.
pub fn stack(lines: &[String], keep: usize) -> (out: String)
    requires
        keep <= lines@.len(),
    ensures
        out@ == stacked(crate::text::texts(lines@).take(keep as int)),
{
    let ghost all = crate::text::texts(lines@);
    let mut out = String::new();
    let mut i: usize = 0;
    while i < keep
        invariant
            i <= keep <= lines@.len(),
            all == crate::text::texts(lines@),
            out@ == stacked(all.take(i as int)),
        decreases keep - i,
    {
        let ghost before = all.take(i as int);
        let ghost after = all.take(i + 1);
        assert(after.drop_last() == before);
        assert(after.last() == lines@[i as int]@);
        if i > 0 {
            out.push('\n');
        }
        out.append(lines[i].as_str());
        assert(i == 0 ==> out@ == lines@[0]@);
        i = i + 1;
    }
    out
}

/// How many UTF-16 units a character takes.
pub open spec fn utf16_units(c: char) -> nat {
    if c as u32 >= 0x10000 {
        2
    } else {
        1
    }
}

/// How many UTF-16 units a text takes.
pub open spec fn utf16_size(s: Seq<char>) -> nat
    decreases s.len(),
{
    if s.len() == 0 {
        0
    } else {
        utf16_size(s.drop_last()) + utf16_units(s.last())
    }
}

/// A text takes at least one and at most two units per character.
pub proof fn utf16_size_bounds(s: Seq<char>)
    ensures
        s.len() <= utf16_size(s) <= 2 * s.len(),
    decreases s.len(),
{
    if s.len() > 0 {
        utf16_size_bounds(s.drop_last());
    }
}

/// Whether a text takes at most `budget` UTF-16 units.
pub fn fits_utf16(text: &str, budget: usize) -> (fits: bool)
    ensures
        fits == (utf16_size(text@) <= budget),
{
    let chars = chars_of(text);
    let mut left: usize = budget;
    let mut i: usize = 0;
    assert(chars@.take(0) == Seq::<char>::empty());
    while i < chars.len()
        invariant
            i <= chars@.len(),
            chars@ == text@,
            utf16_size(chars@.take(i as int)) == budget - left,
            left <= budget,
        decreases chars@.len() - i,
    {
        proof {
            assert(chars@.take(i + 1).drop_last() == chars@.take(i as int));
            utf16_size_grows(chars@, i + 1);
        }
        let units: usize = if chars[i] as u32 >= 0x10000 { 2 } else { 1 };
        if units > left {
            return false;
        }
        left = left - units;
        i = i + 1;
    }
    assert(chars@.take(i as int) == chars@);
    true
}

/// A text takes no fewer units than one of its prefixes.
proof fn utf16_size_grows(s: Seq<char>, k: int)
    requires
        0 <= k <= s.len(),
    ensures
        utf16_size(s.take(k)) <= utf16_size(s),
    decreases s.len() - k,
{
    if k == s.len() {
        assert(s.take(k) == s);
    } else {
        utf16_size_grows(s, k + 1);
        assert(s.take(k + 1).drop_last() == s.take(k));
    }
}

/// How many UTF-16 units a text takes.
pub fn utf16_len(text: &str) -> (units: usize)
    requires
        utf16_size(text@) <= usize::MAX,
    ensures
        units == utf16_size(text@),
{
    let chars = chars_of(text);
    let mut units: usize = 0;
    let mut i: usize = 0;
    assert(chars@.take(0) == Seq::<char>::empty());
    while i < chars.len()
        invariant
            i <= chars@.len(),
            chars@ == text@,
            units == utf16_size(chars@.take(i as int)),
            utf16_size(text@) <= usize::MAX,
        decreases chars@.len() - i,
    {
        proof {
            assert(chars@.take(i + 1).drop_last() == chars@.take(i as int));
            utf16_size_grows(chars@, i + 1);
        }
        units = units + if chars[i] as u32 >= 0x10000 { 2 } else { 1 };
        i = i + 1;
    }
    assert(chars@.take(i as int) == chars@);
    units
}

// ---------------------------------------------------------------------------
// What the operations on text amount to
// ---------------------------------------------------------------------------

/// Lines that are put below one another come apart again at the newlines.
pub proof fn stacks_come_apart(lines: Seq<Seq<char>>)
    requires
        lines.len() > 0,
        forall|i: int| 0 <= i < lines.len() ==> !occurs(#[trigger] lines[i], '\n'),
    ensures
        split_at_each(stacked(lines), '\n') == lines,
    decreases lines.len(),
{
    if lines.len() == 1 {
        unbroken_is_one_piece(lines[0], '\n');
        assert(lines == seq![lines[0]]);
    } else {
        let head = lines.drop_last();
        assert forall|i: int| 0 <= i < head.len() implies !occurs(#[trigger] head[i], '\n') by {
            assert(head[i] == lines[i]);
        }
        assert(lines.last() == lines[lines.len() - 1]);
        stacks_come_apart(head);
        one_more_piece(stacked(head), '\n', lines.last());
        assert(head.push(lines.last()) == lines);
    }
}

/// A text that holds the first character of another only where that other stands
/// has it replaced there, and nothing else.
pub proof fn one_occurrence_is_replaced(
    before: Seq<char>,
    from: Seq<char>,
    after: Seq<char>,
    to: Seq<char>,
)
    requires
        from.len() > 0,
        !occurs(before, from[0]),
        !occurs(after, from[0]),
    ensures
        replaced(before + from + after, from, to) == before + to + after,
    decreases before.len(),
{
    let whole = before + from + after;
    if before.len() == 0 {
        assert(whole.take(from.len() as int) == from);
        assert(whole.skip(from.len() as int) == after);
        nothing_is_replaced(after, from, to);
        assert(to + after == before + to + after);
    } else {
        assert(before[0] != from[0]);
        if has_prefix(whole, from) {
            assert(whole.take(from.len() as int)[0] == before[0]);
        }
        let rest = before.skip(1);
        assert forall|i: int| 0 <= i < rest.len() implies rest[i] != from[0] by {
            assert(before[i + 1] != from[0]);
        }
        one_occurrence_is_replaced(rest, from, after, to);
        assert(whole.skip(1) == rest + from + after);
        assert(seq![whole[0]] + (rest + to + after) == before + to + after);
    }
}

/// A text that does not hold the first character of another stays as it is.
pub proof fn nothing_is_replaced(s: Seq<char>, from: Seq<char>, to: Seq<char>)
    requires
        from.len() > 0,
        !occurs(s, from[0]),
    ensures
        replaced(s, from, to) == s,
    decreases s.len(),
{
    if s.len() > 0 {
        assert(s[0] != from[0]);
        if has_prefix(s, from) {
            assert(s.take(from.len() as int)[0] == s[0]);
        }
        let rest = s.skip(1);
        assert forall|i: int| 0 <= i < rest.len() implies rest[i] != from[0] by {
            assert(s[i + 1] != from[0]);
        }
        nothing_is_replaced(rest, from, to);
        assert(seq![s[0]] + rest == s);
    }
}

/// What is left behind a prefix makes the text again with the prefix before it.
pub proof fn prefixes_go_on_again(s: Seq<char>, prefix: Seq<char>)
    ensures
        stripped(s, prefix) matches Some(rest) ==> s == prefix + rest,
        stripped(s, prefix) is None <==> !exists|rest: Seq<char>| s == #[trigger] (prefix + rest),
        has_prefix(s, prefix) <==> stripped(s, prefix) is Some,
{
    if has_prefix(s, prefix) {
        assert(s == prefix + s.skip(prefix.len() as int));
    }
    if exists|rest: Seq<char>| s == #[trigger] (prefix + rest) {
        let rest = choose|rest: Seq<char>| s == #[trigger] (prefix + rest);
        prefix_comes_off(prefix, rest);
    }
}

/// The part before either of two separators is the longest piece at the start that
/// has neither.
pub proof fn the_part_before_ends_at_the_first(s: Seq<char>, a: char, b: char)
    ensures
        ({
            let part = before_either(s, a, b);
            let n = part.len() as int;
            &&& n <= s.len() && part == s.take(n)
            &&& !occurs(part, a) && !occurs(part, b)
            &&& n < s.len() ==> s[n] == a || s[n] == b
        }),
    decreases s.len(),
{
    if s.len() > 0 && s[0] != a && s[0] != b {
        the_part_before_ends_at_the_first(s.skip(1), a, b);
        let part = before_either(s, a, b);
        let rest = before_either(s.skip(1), a, b);
        assert(part == s.take(part.len() as int));
        assert forall|i: int| 0 <= i < part.len() implies part[i] != a && part[i] != b by {
            if i > 0 {
                assert(part[i] == rest[i - 1]);
            }
        }
        if part.len() < s.len() {
            assert(s[part.len() as int] == s.skip(1)[rest.len() as int]);
        }
    }
}

/// The part after the last separator is the longest piece at the end that has none.
pub proof fn the_part_after_begins_at_the_last(s: Seq<char>, c: char)
    ensures
        ({
            let part = after_last(s, c);
            let n = s.len() - part.len();
            &&& n >= 0 && part == s.skip(n)
            &&& !occurs(part, c)
            &&& n > 0 ==> s[n - 1] == c
        }),
    decreases s.len(),
{
    if s.len() > 0 && s.last() != c {
        the_part_after_begins_at_the_last(s.drop_last(), c);
        let part = after_last(s, c);
        let before = after_last(s.drop_last(), c);
        assert(part == s.skip(s.len() - part.len()));
        assert forall|i: int| 0 <= i < part.len() implies part[i] != c by {
            if i < before.len() {
                assert(part[i] == before[i]);
            }
        }
    }
}

/// Trimming the end takes off every one of the character that stands there, and
/// nothing else.
pub proof fn trimming_takes_the_run_at_the_end(s: Seq<char>, c: char)
    ensures
        ({
            let rest = trimmed_end(s, c);
            let n = rest.len() as int;
            &&& n <= s.len() && rest == s.take(n)
            &&& forall|i: int| n <= i < s.len() ==> #[trigger] s[i] == c
            &&& n > 0 ==> s[n - 1] != c
        }),
    decreases s.len(),
{
    if s.len() > 0 && s.last() == c {
        trimming_takes_the_run_at_the_end(s.drop_last(), c);
        let rest = trimmed_end(s, c);
        let head = s.drop_last();
        assert(rest == s.take(rest.len() as int));
        assert forall|i: int| rest.len() <= i < s.len() implies #[trigger] s[i] == c by {
            if i < head.len() {
                assert(head[i] == s[i]);
            }
        }
        if rest.len() > 0 {
            assert(head[rest.len() - 1] == s[rest.len() - 1]);
        }
    } else {
        assert(s == s.take(s.len() as int));
    }
}

/// Trimming white space takes all of it off at both ends, and nothing else: what is
/// left stands in the text between white space, and neither begins nor ends with
/// any.
pub proof fn trimming_takes_the_white_space(s: Seq<char>)
    ensures
        exists|from: int, to: int|
            #![trigger s.subrange(from, to)]
            {
                &&& 0 <= from <= to <= s.len()
                &&& trimmed(s) == s.subrange(from, to)
                &&& forall|i: int| 0 <= i < from ==> is_white_space(#[trigger] s[i])
                &&& forall|i: int| to <= i < s.len() ==> is_white_space(#[trigger] s[i])
                &&& from < to ==> !is_white_space(s[from]) && !is_white_space(s[to - 1])
            },
{
    leading_space_is_taken(s);
    let rest = without_leading_space(s);
    trailing_space_is_taken(rest);
    let from = s.len() - rest.len();
    let to = from + trimmed(s).len();
    assert(trimmed(s) == s.subrange(from, to));
    assert forall|i: int| to <= i < s.len() implies is_white_space(#[trigger] s[i]) by {
        assert(s[i] == rest[i - from]);
    }
    if from < to {
        assert(s[from] == rest[0]);
        assert(s[to - 1] == rest[to - 1 - from]);
    }
}

proof fn leading_space_is_taken(s: Seq<char>)
    ensures
        ({
            let rest = without_leading_space(s);
            let n = s.len() - rest.len();
            &&& n >= 0 && rest == s.skip(n)
            &&& forall|i: int| 0 <= i < n ==> is_white_space(#[trigger] s[i])
            &&& rest.len() > 0 ==> !is_white_space(rest[0])
        }),
    decreases s.len(),
{
    if s.len() > 0 && is_white_space(s[0]) {
        let tail = s.skip(1);
        leading_space_is_taken(tail);
        let rest = without_leading_space(s);
        let n = s.len() - rest.len();
        assert(rest == s.skip(n));
        assert forall|i: int| 0 <= i < n implies is_white_space(#[trigger] s[i]) by {
            if i > 0 {
                assert(tail[i - 1] == s[i]);
            }
        }
    } else {
        assert(s == s.skip(0));
    }
}

proof fn trailing_space_is_taken(s: Seq<char>)
    ensures
        ({
            let rest = without_trailing_space(s);
            let n = rest.len() as int;
            &&& n <= s.len() && rest == s.take(n)
            &&& forall|i: int| n <= i < s.len() ==> is_white_space(#[trigger] s[i])
            &&& n > 0 ==> !is_white_space(s[n - 1])
        }),
    decreases s.len(),
{
    if s.len() > 0 && is_white_space(s.last()) {
        let head = s.drop_last();
        trailing_space_is_taken(head);
        let rest = without_trailing_space(s);
        assert(rest == s.take(rest.len() as int));
        assert forall|i: int| rest.len() <= i < s.len() implies is_white_space(#[trigger] s[i]) by {
            if i < head.len() {
                assert(head[i] == s[i]);
            }
        }
        if rest.len() > 0 {
            assert(head[rest.len() - 1] == s[rest.len() - 1]);
        }
    } else {
        assert(s == s.take(s.len() as int));
    }
}

/// Blanks, tabs and the ends of lines are white space; no letter, digit or other
/// printable ASCII character is.
pub proof fn white_space_is_blank(c: char)
    ensures
        c == ' ' || c == '\t' || c == '\n' || c == '\r' ==> is_white_space(c),
        '!' <= c <= '~' ==> !is_white_space(c),
{
}

/// Letters are made small one by one: a capital becomes the small letter at the
/// same place of the alphabet, and everything else stays.
pub proof fn capitals_become_small(s: Seq<char>, i: int)
    requires
        0 <= i < s.len(),
    ensures
        lowered(s).len() == s.len(),
        'A' <= s[i] <= 'Z' ==> 'a' <= lowered(s)[i] <= 'z' && lowered(s)[i] as int - 'a' as int
            == s[i] as int - 'A' as int,
        !('A' <= s[i] <= 'Z') ==> lowered(s)[i] == s[i],
{
}

/// The units of a text are those of its parts together; a character takes one, or
/// two if it lies beyond the first 65536.
pub proof fn units_add_up(a: Seq<char>, b: Seq<char>, c: char)
    ensures
        utf16_size(a + b) == utf16_size(a) + utf16_size(b),
        c as u32 <= 0xffff ==> utf16_size(seq![c]) == 1,
        c as u32 > 0xffff ==> utf16_size(seq![c]) == 2,
    decreases b.len(),
{
    assert(seq![c].drop_last() == Seq::<char>::empty());
    assert(utf16_size(seq![c].drop_last()) == 0);
    assert(seq![c].last() == c);
    if b.len() == 0 {
        assert(a + b == a);
    } else {
        units_add_up(a, b.drop_last(), c);
        assert((a + b).drop_last() == a + b.drop_last());
        assert((a + b).last() == b.last());
    }
}

} // verus!
