//! Text: character sequences, numerals and the few string operations that the
//! rest of the crate is built on.

use vstd::prelude::*;
use vstd::string::*;

verus! {

/// `String::push` appends one character and leaves the rest of the string alone.
pub assume_specification[ String::push ](s: &mut String, c: char)
    ensures
        final(s)@ == old(s)@.push(c),
;

/// The characters of `s`, in order.
pub fn chars_of(s: &str) -> (out: Vec<char>)
    ensures
        out@ == s@,
{
    let mut out: Vec<char> = Vec::new();
    for c in it: s.chars()
        invariant
            out@ == it.seq().take(it.index() as int),
            it.seq() == s@,
    {
        out.push(c);
    }
    assert(out@ == s@);
    out
}

/// The string whose characters are `chars[from..to]`.
pub fn string_of(chars: &[char], from: usize, to: usize) -> (out: String)
    requires
        from <= to <= chars@.len(),
    ensures
        out@ == chars@.subrange(from as int, to as int),
{
    let mut out = String::new();
    let mut i: usize = from;
    while i < to
        invariant
            from <= i <= to <= chars@.len(),
            out@ == chars@.subrange(from as int, i as int),
        decreases to - i,
    {
        out.push(chars[i]);
        i = i + 1;
        assert(chars@.subrange(from as int, i as int) == chars@.subrange(
            from as int,
            i - 1,
        ).push(chars@[i - 1]));
    }
    out
}

/// Whether two texts hold the same characters.
pub fn same_text(a: &str, b: &str) -> (same: bool)
    ensures
        same == (a@ == b@),
{
    a.to_string() == b.to_string()
}

/// An optional text, seen as an optional character sequence.
pub open spec fn opt_text(text: Option<String>) -> Option<Seq<char>> {
    match text {
        Some(t) => Some(t@),
        None => None,
    }
}

/// A list of texts, seen as a sequence of character sequences.
pub open spec fn texts(list: Seq<String>) -> Seq<Seq<char>> {
    Seq::new(list.len(), |i: int| list[i]@)
}

// ---------------------------------------------------------------------------
// Numerals
// ---------------------------------------------------------------------------

pub open spec fn is_digit(c: char) -> bool {
    '0' <= c <= '9'
}

/// What a decimal digit counts for; anything else counts for nothing.
pub open spec fn digit_value(c: char) -> nat {
    if is_digit(c) {
        (c as nat - 48) as nat
    } else {
        0
    }
}

pub open spec fn digit_char(d: nat) -> char {
    (48 + d) as char
}

/// The decimal numeral of `n`, without leading zeros.
pub open spec fn decimal(n: nat) -> Seq<char>
    decreases n,
{
    if n < 10 {
        seq![digit_char(n)]
    } else {
        decimal(n / 10).push(digit_char(n % 10))
    }
}

/// A non-empty run of decimal digits.
pub open spec fn is_numeral(s: Seq<char>) -> bool {
    s.len() > 0 && forall|i: int| 0 <= i < s.len() ==> is_digit(#[trigger] s[i])
}

/// The number that a run of decimal digits stands for.
pub open spec fn numeral_value(s: Seq<char>) -> nat
    decreases s.len(),
{
    if s.len() == 0 {
        0
    } else {
        numeral_value(s.drop_last()) * 10 + digit_value(s.last())
    }
}

/// `s` without one leading plus sign, which an unsigned number may carry.
pub open spec fn without_plus(s: Seq<char>) -> Seq<char> {
    if s.len() > 0 && s[0] == '+' {
        s.skip(1)
    } else {
        s
    }
}

/// The unsigned number written in `s`, if there is one and it is at most `max`.
pub open spec fn parsed_number(s: Seq<char>, max: nat) -> Option<nat> {
    let body = without_plus(s);
    if is_numeral(body) && numeral_value(body) <= max {
        Some(numeral_value(body))
    } else {
        None
    }
}

/// A longer run of digits never stands for less than one of its prefixes.
proof fn numeral_value_grows(s: Seq<char>, k: int)
    requires
        0 <= k <= s.len(),
    ensures
        numeral_value(s.take(k)) <= numeral_value(s),
    decreases s.len() - k,
{
    if k == s.len() {
        assert(s.take(k) == s);
    } else {
        numeral_value_grows(s, k + 1);
        assert(s.take(k + 1).drop_last() == s.take(k));
    }
}

/// The decimal numeral of a number is a numeral, stands for that number, and is
/// read back as it.
pub proof fn decimal_reads_back(n: nat)
    ensures
        is_numeral(decimal(n)),
        numeral_value(decimal(n)) == n,
        forall|max: nat| n <= max ==> #[trigger] parsed_number(decimal(n), max) == Some(n),
    decreases n,
{
    if n < 10 {
        let s = decimal(n);
        assert(s == seq![digit_char(n)]);
        assert(s.drop_last() == Seq::<char>::empty());
        assert(numeral_value(s.drop_last()) == 0);
        assert(s.last() == digit_char(n));
        assert(is_digit(digit_char(n)));
        assert(digit_value(digit_char(n)) == n);
    } else {
        decimal_reads_back(n / 10);
        let s = decimal(n);
        assert(s.drop_last() == decimal(n / 10));
        assert(is_digit(digit_char(n % 10)));
        assert(digit_value(digit_char(n % 10)) == n % 10);
    }
    assert(decimal(n)[0] != '+') by {
        assert(is_digit(decimal(n)[0]));
    }
}

/// Appends the decimal numeral of `n`.
pub fn push_decimal(out: &mut String, n: u64)
    ensures
        final(out)@ == old(out)@ + decimal(n as nat),
    decreases n,
{
    if n >= 10 {
        push_decimal(out, n / 10);
    }
    let d: u8 = (n % 10) as u8;
    let c = (48 + d) as char;
    assert(c == digit_char((n % 10) as nat));
    out.push(c);
}

/// The decimal numeral of `n`.
pub fn decimal_string(n: u64) -> (out: String)
    ensures
        out@ == decimal(n as nat),
{
    let mut out = String::new();
    push_decimal(&mut out, n);
    assert(out@ == decimal(n as nat));
    out
}

/// Reads an unsigned number of at most `max`: an optional plus sign, then
/// nothing but decimal digits, at least one.
pub fn parse_number(chars: &[char], max: u64) -> (n: Option<u64>)
    ensures
        match n {
            Some(v) => parsed_number(chars@, max as nat) == Some(v as nat),
            None => parsed_number(chars@, max as nat) is None,
        },
{
    let start: usize = if chars.len() > 0 && chars[0] == '+' { 1 } else { 0 };
    let ghost body = without_plus(chars@);
    assert(start == 1 ==> body == chars@.skip(1));
    if start == chars.len() {
        return None;
    }
    let mut acc: u64 = 0;
    let mut i: usize = start;
    assert(body.take(0) == Seq::<char>::empty());
    while i < chars.len()
        invariant
            start <= i <= chars@.len(),
            start <= 1,
            body.len() == chars@.len() - start,
            body.len() > 0,
            forall|j: int| 0 <= j < body.len() ==> body[j] == #[trigger] chars@[j + start],
            body == without_plus(chars@),
            forall|j: int| 0 <= j < i - start ==> is_digit(#[trigger] body[j]),
            acc == numeral_value(body.take(i - start)),
            acc <= max,
        decreases chars@.len() - i,
    {
        let c = chars[i];
        assert(c == body[i - start]);
        if !('0' <= c && c <= '9') {
            assert(!is_digit(body[i - start]));
            return None;
        }
        let d: u64 = (c as u32 - 48) as u64;
        proof {
            assert(body.take(i - start + 1).drop_last() == body.take(i - start));
            numeral_value_grows(body, i - start + 1);
        }
        if d > max || acc > (max - d) / 10 {
            return None;
        }
        acc = acc * 10 + d;
        i = i + 1;
    }
    assert(body.take(body.len() as int) == body);
    Some(acc)
}

// ---------------------------------------------------------------------------
// Hexadecimal
// ---------------------------------------------------------------------------

pub open spec fn hex_char(d: nat, upper: bool) -> char {
    if d < 10 {
        digit_char(d)
    } else if upper {
        (55 + d) as char
    } else {
        (87 + d) as char
    }
}

/// Four hexadecimal digits.
pub open spec fn hex4(n: u16, upper: bool) -> Seq<char> {
    seq![
        hex_char((n / 4096) as nat, upper),
        hex_char((n / 256 % 16) as nat, upper),
        hex_char((n / 16 % 16) as nat, upper),
        hex_char((n % 16) as nat, upper),
    ]
}

/// Two upper-case hexadecimal digits.
pub open spec fn hex2(n: u8) -> Seq<char> {
    seq![hex_char((n / 16) as nat, true), hex_char((n % 16) as nat, true)]
}

fn hex_digit(d: u8, upper: bool) -> (c: char)
    requires
        d < 16,
    ensures
        c == hex_char(d as nat, upper),
{
    if d < 10 {
        (48 + d) as char
    } else if upper {
        (55 + d) as char
    } else {
        (87 + d) as char
    }
}

/// Appends `n` as four hexadecimal digits.
pub fn push_hex4(out: &mut String, n: u16, upper: bool)
    ensures
        final(out)@ == old(out)@ + hex4(n, upper),
{
    out.push(hex_digit((n / 4096) as u8, upper));
    out.push(hex_digit((n / 256 % 16) as u8, upper));
    out.push(hex_digit((n / 16 % 16) as u8, upper));
    out.push(hex_digit((n % 16) as u8, upper));
    assert(out@ == old(out)@ + hex4(n, upper));
}

/// Appends `n` as two upper-case hexadecimal digits.
pub fn push_hex2(out: &mut String, n: u8)
    ensures
        final(out)@ == old(out)@ + hex2(n),
{
    out.push(hex_digit(n / 16, true));
    out.push(hex_digit(n % 16, true));
    assert(out@ == old(out)@ + hex2(n));
}

/// Different numbers have different hexadecimal forms.
pub proof fn hex4_is_injective(a: u16, b: u16, upper: bool)
    ensures
        hex4(a, upper) == hex4(b, upper) ==> a == b,
{
    if hex4(a, upper) == hex4(b, upper) {
        let x = hex4(a, upper);
        let y = hex4(b, upper);
        assert(x[0] == y[0] && x[1] == y[1] && x[2] == y[2] && x[3] == y[3]);
        assert(a / 4096 == b / 4096);
        assert(a / 256 % 16 == b / 256 % 16);
        assert(a / 16 % 16 == b / 16 % 16);
        assert(a % 16 == b % 16);
        assert(a == b) by (bit_vector)
            requires
                a / 4096 == b / 4096,
                a / 256 % 16 == b / 256 % 16,
                a / 16 % 16 == b / 16 % 16,
                a % 16 == b % 16,
        ;
    }
}

// ---------------------------------------------------------------------------
// What numerals stand for
// ---------------------------------------------------------------------------

/// Ten to the power of `n`.
pub open spec fn power_of_ten(n: nat) -> nat
    decreases n,
{
    if n == 0 {
        1
    } else {
        10 * power_of_ten((n - 1) as nat)
    }
}

/// Digits count by their place: those in front count ten times as much for every
/// digit behind them, and a digit by itself for its distance from zero.
pub proof fn digits_count_by_place(front: Seq<char>, back: Seq<char>, c: char)
    ensures
        numeral_value(front + back) == numeral_value(front) * power_of_ten(back.len())
            + numeral_value(back),
        '0' <= c <= '9' ==> numeral_value(seq![c]) == c as nat - '0' as nat,
    decreases back.len(),
{
    assert(seq![c].drop_last() == Seq::<char>::empty());
    assert(numeral_value(seq![c].drop_last()) == 0);
    assert(seq![c].last() == c);
    if back.len() == 0 {
        assert(front + back == front);
        assert(numeral_value(front) * power_of_ten(0) == numeral_value(front)) by (nonlinear_arith)
            requires
                power_of_ten(0) == 1,
        ;
    } else {
        let head = back.drop_last();
        digits_count_by_place(front, head, c);
        assert((front + back).drop_last() == front + head);
        assert((front + back).last() == back.last());
        let v = numeral_value(front);
        let p = power_of_ten(head.len());
        let h = numeral_value(head);
        let d = digit_value(back.last());
        assert((v * p + h) * 10 + d == v * (10 * p) + (h * 10 + d)) by (nonlinear_arith);
    }
}

/// Numerals have no needless zeros in front.
pub proof fn numerals_have_no_leading_zero(n: nat)
    ensures
        decimal(n).len() > 0,
        decimal(n)[0] == '0' <==> n == 0,
        n < 10 ==> decimal(n).len() == 1,
    decreases n,
{
    if n >= 10 {
        numerals_have_no_leading_zero(n / 10);
        assert(decimal(n)[0] == decimal(n / 10)[0]);
    } else {
        assert(decimal(n)[0] == digit_char(n));
    }
}

/// A number is read if and only if the text consists of digits, at least one, with
/// or without one plus sign in front, and what they stand for is not too much.
pub proof fn numbers_are_read_exactly(s: Seq<char>, max: nat)
    ensures
        ({
            let digits = s.len() > 0 && forall|i: int|
                0 <= i < s.len() ==> '0' <= #[trigger] s[i] <= '9';
            &&& digits && numeral_value(s) <= max ==> parsed_number(s, max) == Some(
                numeral_value(s),
            )
            &&& digits && numeral_value(s) > max ==> parsed_number(s, max) is None
            &&& s.len() > 0 && s[0] != '+' && !digits ==> parsed_number(s, max) is None
            &&& parsed_number(seq!['+'] + s, max) == (if digits && numeral_value(s) <= max {
                Some(numeral_value(s))
            } else {
                None
            })
            &&& s.len() == 0 ==> parsed_number(s, max) is None
        }),
{
    let plus = seq!['+'] + s;
    assert(plus.skip(1) == s);
    if s.len() > 0 {
        assert(is_digit(s[0]) ==> s[0] != '+');
    }
    assert(is_numeral(s) <==> s.len() > 0 && forall|i: int|
        0 <= i < s.len() ==> '0' <= #[trigger] s[i] <= '9');
}

/// What is read is never more than is asked for.
pub proof fn parsed_numbers_fit(s: Seq<char>, max: nat)
    ensures
        parsed_number(s, max) matches Some(n) ==> n <= max,
{
}

/// The digits of hexadecimal numbers.
pub proof fn hexadecimal_digits(d: nat)
    requires
        d < 16,
    ensures
        hex_char(d, true) == "0123456789ABCDEF"@[d as int],
        hex_char(d, false) == "0123456789abcdef"@[d as int],
{
    reveal_strlit("0123456789ABCDEF");
    reveal_strlit("0123456789abcdef");
}

/// Hexadecimal numbers have their digits in place: each counts sixteen times as
/// much as the next.
pub proof fn hexadecimal_digits_count_by_place(n: u16, upper: bool, a: nat, b: nat, c: nat, d: nat)
    requires
        a < 16 && b < 16 && c < 16 && d < 16,
        n == a * 4096 + b * 256 + c * 16 + d,
    ensures
        hex4(n, upper) == seq![
            hex_char(a, upper),
            hex_char(b, upper),
            hex_char(c, upper),
            hex_char(d, upper),
        ],
        n < 256 ==> hex2(n as u8) == seq![hex_char(c, true), hex_char(d, true)],
{
    let m = n as int;
    assert(m == 16 * (a * 256 + b * 16 + c) + d);
    assert(m % 16 == d && m / 16 == a * 256 + b * 16 + c);
    let m = m / 16;
    assert(m == 16 * (a * 16 + b) + c);
    assert(m % 16 == c && m / 16 == a * 16 + b);
    let m = m / 16;
    assert(m == 16 * a + b);
    assert(m % 16 == b && m / 16 == a);
    assert((n as int) / 256 == a * 16 + b);
    assert((n as int) / 4096 == a);
}

} // verus!
