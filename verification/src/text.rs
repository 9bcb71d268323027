//! Text as a sequence of characters: rendering numbers, cutting lines and
//! fields, and reading numbers back.

use vstd::prelude::*;

verus! {

/// `String::push` appends one character to the end of the text.
pub assume_specification[ String::push ](s: &mut String, c: char)
    ensures
        final(s)@ == old(s)@.push(c),
;

// ---------------------------------------------------------------------
// Rendering numbers
// ---------------------------------------------------------------------

/// The character of one decimal digit.
pub open spec fn digit_char(d: nat) -> char
    recommends
        d < 10,
{
    (48 + d) as char
}

/// The decimal rendering of a number, without leading zeros.
pub open spec fn decimal(n: nat) -> Seq<char>
    decreases n,
{
    if n < 10 {
        seq![digit_char(n)]
    } else {
        decimal(n / 10).push(digit_char(n % 10))
    }
}

/// The character of one lower-case hexadecimal digit.
pub open spec fn hex_char(d: nat) -> char
    recommends
        d < 16,
{
    if d < 10 {
        (48 + d) as char
    } else {
        (87 + d) as char
    }
}

/// The lower-case hexadecimal rendering of a number, without leading zeros.
pub open spec fn hex(n: nat) -> Seq<char>
    decreases n,
{
    if n < 16 {
        seq![hex_char(n)]
    } else {
        hex(n / 16).push(hex_char(n % 16))
    }
}

/// A 32-bit code as `0x` and its hexadecimal digits.
pub open spec fn hex_code(code: u32) -> Seq<char> {
    "0x"@ + hex(code as nat)
}

/// A byte as `0x` and exactly two hexadecimal digits.
pub open spec fn hex_byte(b: u8) -> Seq<char> {
    "0x"@.push(hex_char(b as nat / 16)).push(hex_char(b as nat % 16))
}

/// Append the decimal rendering of `n`.
pub fn push_decimal(out: &mut String, n: u64)
    ensures
        final(out)@ == old(out)@ + decimal(n as nat),
    decreases n,
{
    if n >= 10 {
        push_decimal(out, n / 10);
    }
    let low: u8 = (n % 10) as u8;
    out.push((48 + low) as char);
    proof {
        assert(((48 + low) as u8) as char == digit_char((n % 10) as nat));
        assert(out@ =~= old(out)@ + decimal(n as nat));
    }
}

/// One lower-case hexadecimal digit.
pub fn hex_digit(d: u8) -> (c: char)
    requires
        d < 16,
    ensures
        c == hex_char(d as nat),
{
    if d < 10 {
        (48 + d) as char
    } else {
        (87 + d) as char
    }
}

/// Append the hexadecimal digits of `n`.
pub fn push_hex(out: &mut String, n: u32)
    ensures
        final(out)@ == old(out)@ + hex(n as nat),
    decreases n,
{
    if n >= 16 {
        push_hex(out, n / 16);
    }
    out.push(hex_digit((n % 16) as u8));
    assert(out@ =~= old(out)@ + hex(n as nat));
}

/// Append `code` as `0x` and its hexadecimal digits.
pub fn push_hex_code(out: &mut String, code: u32)
    ensures
        final(out)@ == old(out)@ + hex_code(code),
{
    out.append("0x");
    push_hex(out, code);
    assert(out@ =~= old(out)@ + hex_code(code));
}

/// Append `b` as `0x` and two hexadecimal digits.
pub fn push_hex_byte(out: &mut String, b: u8)
    ensures
        final(out)@ == old(out)@ + hex_byte(b),
{
    out.append("0x");
    out.push(hex_digit(b / 16));
    out.push(hex_digit(b % 16));
    assert(out@ =~= old(out)@ + hex_byte(b));
}

// ---------------------------------------------------------------------
// Characters of a text
// ---------------------------------------------------------------------

/// The characters of a text, in order.
pub fn characters(s: &str) -> (out: Vec<char>)
    ensures
        out@ == s@,
{
    let mut out: Vec<char> = Vec::new();
    for c in it: s.chars()
        invariant
            it.seq() == s@,
            out@ == s@.take(it.index() as int),
    {
        out.push(c);
        assert(out@ =~= s@.take(it.index() + 1));
    }
    assert(s@.take(s@.len() as int) =~= s@);
    out
}

/// The text made of the characters from `from` up to `to`.
pub fn text_between(chars: &Vec<char>, from: usize, to: usize) -> (out: String)
    requires
        from <= to <= chars.len(),
    ensures
        out@ == chars@.subrange(from as int, to as int),
{
    let mut out: String = String::new();
    let mut i: usize = from;
    while i < to
        invariant
            from <= i <= to <= chars.len(),
            out@ == chars@.subrange(from as int, i as int),
        decreases to - i,
    {
        out.push(chars[i]);
        i = i + 1;
        assert(out@ =~= chars@.subrange(from as int, i as int));
    }
    assert(out@ =~= chars@.subrange(from as int, to as int));
    out
}

// ---------------------------------------------------------------------
// Characters one by one
// ---------------------------------------------------------------------

/// An ASCII letter in upper case; any other character as it is.
pub open spec fn upper(c: char) -> char {
    if 'a' <= c && c <= 'z' {
        (c as u8 - 32) as char
    } else {
        c
    }
}

/// A text with its ASCII letters in upper case.
pub open spec fn uppercase(s: Seq<char>) -> Seq<char> {
    s.map_values(|c: char| upper(c))
}

/// An ASCII letter in upper case; any other character as it is.
pub fn to_upper(c: char) -> (r: char)
    ensures
        r == upper(c),
{
    if 'a' <= c && c <= 'z' {
        (c as u8 - 32) as char
    } else {
        c
    }
}

/// Whether a character is an ASCII hexadecimal digit.
pub open spec fn hex_digit_char(c: char) -> bool {
    ('0' <= c && c <= '9') || ('a' <= c && c <= 'f') || ('A' <= c && c <= 'F')
}

/// Whether a character is an ASCII hexadecimal digit.
pub fn is_hex_digit(c: char) -> (r: bool)
    ensures
        r == hex_digit_char(c),
{
    ('0' <= c && c <= '9') || ('a' <= c && c <= 'f') || ('A' <= c && c <= 'F')
}

/// Whether a character is white space in the sense of Unicode.
pub open spec fn white(c: char) -> bool {
    ||| '\u{9}' <= c && c <= '\u{d}'
    ||| c == ' '
    ||| c == '\u{85}'
    ||| c == '\u{a0}'
    ||| c == '\u{1680}'
    ||| '\u{2000}' <= c && c <= '\u{200a}'
    ||| c == '\u{2028}'
    ||| c == '\u{2029}'
    ||| c == '\u{202f}'
    ||| c == '\u{205f}'
    ||| c == '\u{3000}'
}

/// Whether a character is white space in the sense of Unicode.
pub fn is_white(c: char) -> (r: bool)
    ensures
        r == white(c),
{
    ('\u{9}' <= c && c <= '\u{d}') || c == ' ' || c == '\u{85}' || c == '\u{a0}' || c
        == '\u{1680}' || ('\u{2000}' <= c && c <= '\u{200a}') || c == '\u{2028}' || c
        == '\u{2029}' || c == '\u{202f}' || c == '\u{205f}' || c == '\u{3000}'
}

/// Whether `text` reads exactly `other`.
pub fn reads(text: &String, other: &str) -> (r: bool)
    ensures
        r == (text@ == other@),
{
    *text == other.to_string()
}

/// Whether `text` starts with `prefix`, letter case of ASCII set aside in `text`.
pub fn uppercase_starts_with(text: &str, prefix: &str) -> (r: bool)
    ensures
        r == prefix@.is_prefix_of(uppercase(text@)),
{
    let chars: Vec<char> = characters(text);
    let start: Vec<char> = characters(prefix);
    if start.len() > chars.len() {
        return false;
    }
    let mut i: usize = 0;
    while i < start.len()
        invariant
            i <= start.len() <= chars.len(),
            chars@ == text@,
            start@ == prefix@,
            forall|k: int| 0 <= k < i ==> start@[k] == uppercase(text@)[k],
        decreases start.len() - i,
    {
        if to_upper(chars[i]) != start[i] {
            assert(uppercase(text@)[i as int] != prefix@[i as int]);
            assert(!prefix@.is_prefix_of(uppercase(text@)));
            return false;
        }
        i = i + 1;
    }
    assert(prefix@ =~= uppercase(text@).subrange(0, prefix@.len() as int));
    true
}

// ---------------------------------------------------------------------
// Trimming
// ---------------------------------------------------------------------

/// A text without its trailing white space.
pub open spec fn trimmed_end(s: Seq<char>) -> Seq<char>
    decreases s.len(),
{
    if s.len() > 0 && white(s.last()) {
        trimmed_end(s.drop_last())
    } else {
        s
    }
}

/// A text without its leading white space.
pub open spec fn trimmed_start(s: Seq<char>) -> Seq<char>
    decreases s.len(),
{
    if s.len() > 0 && white(s[0]) {
        trimmed_start(s.drop_first())
    } else {
        s
    }
}

/// A text without white space at either end.
pub open spec fn trimmed(s: Seq<char>) -> Seq<char> {
    trimmed_start(trimmed_end(s))
}

/// Where the trailing white space of `chars` begins.
pub fn content_end(chars: &Vec<char>) -> (end: usize)
    ensures
        end <= chars.len(),
        chars@.take(end as int) == trimmed_end(chars@),
{
    let mut end: usize = chars.len();
    assert(chars@.take(end as int) =~= chars@);
    while end > 0 && is_white(chars[end - 1])
        invariant
            end <= chars.len(),
            trimmed_end(chars@) == trimmed_end(chars@.take(end as int)),
        decreases end,
    {
        assert(chars@.take(end as int).drop_last() =~= chars@.take(end - 1));
        end = end - 1;
    }
    end
}

/// A text without white space at either end.
pub fn trim(text: &str) -> (out: String)
    ensures
        out@ == trimmed(text@),
{
    let chars: Vec<char> = characters(text);
    let end: usize = content_end(&chars);
    let mut start: usize = 0;
    assert(chars@.subrange(0, end as int) =~= chars@.take(end as int));
    while start < end && is_white(chars[start])
        invariant
            start <= end <= chars.len(),
            trimmed(chars@) == trimmed_start(chars@.subrange(start as int, end as int)),
        decreases end - start,
    {
        assert(chars@.subrange(start as int, end as int).drop_first() =~= chars@.subrange(
            start + 1,
            end as int,
        ));
        start = start + 1;
    }
    text_between(&chars, start, end)
}

// ---------------------------------------------------------------------
// Cutting at a separator
// ---------------------------------------------------------------------

/// The position of the first `c` in `s`, or the length of `s` without one.
pub open spec fn first_at(s: Seq<char>, c: char) -> nat
    decreases s.len(),
{
    if s.len() == 0 || s[0] == c {
        0
    } else {
        1 + first_at(s.drop_first(), c)
    }
}

/// The parts of `s` between the separators, one more than there are of these.
pub open spec fn split(s: Seq<char>, c: char) -> Seq<Seq<char>>
    decreases s.len(),
{
    let i = first_at(s, c) as int;
    if i >= s.len() {
        seq![s]
    } else {
        seq![s.take(i)] + split(s.skip(i + 1), c)
    }
}

/// What stands before and after the first separator.
pub open spec fn split_once(s: Seq<char>, c: char) -> Option<(Seq<char>, Seq<char>)> {
    let i = first_at(s, c) as int;
    if i >= s.len() {
        None
    } else {
        Some((s.take(i), s.skip(i + 1)))
    }
}

/// The lines of a text: each ends in a line feed or with the text, and a
/// carriage return just before the line feed belongs to the ending.
pub open spec fn lines(s: Seq<char>) -> Seq<Seq<char>>
    decreases s.len(),
{
    let i = first_at(s, '\n') as int;
    if s.len() == 0 {
        Seq::empty()
    } else if i >= s.len() {
        seq![s]
    } else {
        seq![without_return(s.take(i))] + lines(s.skip(i + 1))
    }
}

/// A line without one trailing carriage return.
pub open spec fn without_return(s: Seq<char>) -> Seq<char> {
    if s.len() > 0 && s.last() == '\r' {
        s.drop_last()
    } else {
        s
    }
}

/// [`first_at`] is the one position before which there is no `c` and at which
/// there is one, or the text ends.
pub proof fn lemma_first_at(s: Seq<char>, c: char, i: int)
    requires
        0 <= i <= s.len(),
        forall|k: int| 0 <= k < i ==> s[k] != c,
        i < s.len() ==> s[i] == c,
    ensures
        first_at(s, c) == i,
    decreases s.len(),
{
    if s.len() > 0 && s[0] != c {
        assert forall|k: int| 0 <= k < i - 1 implies s.drop_first()[k] != c by {
            assert(s.drop_first()[k] == s[k + 1]);
        }
        lemma_first_at(s.drop_first(), c, i - 1);
    }
}

/// What [`first_at`] says.
pub proof fn lemma_first_at_bounds(s: Seq<char>, c: char)
    ensures
        first_at(s, c) <= s.len(),
        first_at(s, c) < s.len() ==> s[first_at(s, c) as int] == c,
        forall|k: int| 0 <= k < first_at(s, c) ==> s[k] != c,
    decreases s.len(),
{
    if s.len() > 0 && s[0] != c {
        let rest = s.drop_first();
        lemma_first_at_bounds(rest, c);
        assert forall|k: int| 0 <= k < first_at(s, c) implies s[k] != c by {
            if k > 0 {
                assert(rest[k - 1] == s[k]);
            }
        }
    }
}

/// The position of the first `c` at or after `from`, or the number of characters.
pub fn find_from(chars: &Vec<char>, from: usize, c: char) -> (at: usize)
    requires
        from <= chars.len(),
    ensures
        from <= at <= chars.len(),
        at - from == first_at(chars@.skip(from as int), c),
{
    let mut at: usize = from;
    while at < chars.len() && chars[at] != c
        invariant
            from <= at <= chars.len(),
            forall|k: int| 0 <= k < at - from ==> chars@.skip(from as int)[k] != c,
        decreases chars.len() - at,
    {
        assert(chars@.skip(from as int)[at - from] == chars@[at as int]);
        at = at + 1;
    }
    proof {
        lemma_first_at(chars@.skip(from as int), c, at - from);
    }
    at
}

/// The texts of a list of strings.
pub open spec fn texts(list: Seq<String>) -> Seq<Seq<char>> {
    list.map_values(|t: String| t@)
}

/// The parts of the first `end` characters between the separators.
pub fn split_parts(chars: &Vec<char>, end: usize, c: char) -> (out: Vec<String>)
    requires
        end <= chars.len(),
    ensures
        texts(out@) == split(chars@.take(end as int), c),
{
    let mut out: Vec<String> = Vec::new();
    let mut from: usize = 0;
    let ghost whole = chars@.take(end as int);
    assert(whole.skip(0) =~= whole);
    assert(texts(out@) + split(whole, c) =~= split(whole, c));
    loop
        invariant
            from <= end <= chars.len(),
            whole == chars@.take(end as int),
            texts(out@) + split(whole.skip(from as int), c) == split(whole, c),
        decreases end - from,
    {
        let mut at: usize = from;
        while at < end && chars[at] != c
            invariant
                from <= at <= end <= chars.len(),
                whole == chars@.take(end as int),
                forall|k: int| 0 <= k < at - from ==> whole.skip(from as int)[k] != c,
            decreases end - at,
        {
            assert(whole.skip(from as int)[at - from] == chars@[at as int]);
            at = at + 1;
        }
        let ghost rest = whole.skip(from as int);
        let ghost before = texts(out@);
        proof {
            lemma_first_at(rest, c, at - from);
            assert(chars@.subrange(from as int, at as int) =~= rest.take(at - from));
        }
        let part: String = text_between(chars, from, at);
        out.push(part);
        assert(texts(out@) =~= before.push(part@));
        if at >= end {
            assert(rest.take(at - from) =~= rest);
            assert(texts(out@) =~= before + split(rest, c));
            return out;
        }
        proof {
            assert(rest.skip(at - from + 1) =~= whole.skip(at + 1));
            assert(before + split(rest, c) =~= texts(out@) + split(whole.skip(at + 1), c));
        }
        from = at + 1;
    }
}

/// The parts of a text between the separators.
pub fn split_text(text: &str, c: char) -> (out: Vec<String>)
    ensures
        texts(out@) == split(text@, c),
{
    let chars: Vec<char> = characters(text);
    assert(chars@.take(chars@.len() as int) =~= chars@);
    split_parts(&chars, chars.len(), c)
}

/// The lines of a text.
pub fn text_lines(text: &str) -> (out: Vec<String>)
    ensures
        texts(out@) == lines(text@),
{
    let chars: Vec<char> = characters(text);
    let mut out: Vec<String> = Vec::new();
    let mut from: usize = 0;
    assert(chars@.skip(0) =~= chars@);
    assert(texts(out@) + lines(chars@) =~= lines(chars@));
    while from < chars.len()
        invariant
            from <= chars.len(),
            texts(out@) + lines(chars@.skip(from as int)) == lines(chars@),
        decreases chars.len() - from,
    {
        let at: usize = find_from(&chars, from, '\n');
        let ghost rest = chars@.skip(from as int);
        let ghost before = texts(out@);
        let mut end: usize = at;
        proof {
            assert(chars@.subrange(from as int, at as int) =~= rest.take(at - from));
            if at > from {
                assert(rest.take(at - from).last() == chars@[at - 1]);
                assert(chars@.subrange(from as int, at - 1) =~= rest.take(at - from).drop_last());
            }
        }
        if at < chars.len() && at > from && chars[at - 1] == '\r' {
            end = at - 1;
        }
        let line: String = text_between(&chars, from, end);
        out.push(line);
        assert(texts(out@) =~= before.push(line@));
        proof {
            if at < chars.len() {
                assert(rest.skip(at - from + 1) =~= chars@.skip(at + 1));
                assert(before + lines(rest) =~= texts(out@) + lines(chars@.skip(at + 1)));
            } else {
                assert(rest.take(at - from) =~= rest);
                assert(chars@.skip(at as int) =~= Seq::<char>::empty());
                assert(before + lines(rest) =~= texts(out@) + lines(chars@.skip(at as int)));
            }
        }
        from = if at < chars.len() {
            at + 1
        } else {
            at
        };
    }
    assert(chars@.skip(from as int) =~= Seq::<char>::empty());
    assert(texts(out@) + lines(chars@.skip(from as int)) =~= texts(out@));
    out
}

// ---------------------------------------------------------------------
// Reading numbers
// ---------------------------------------------------------------------

/// Whether a character is an ASCII decimal digit.
pub open spec fn decimal_digit(c: char) -> bool {
    '0' <= c && c <= '9'
}

/// The number that decimal digits spell out.
pub open spec fn value(digits: Seq<char>) -> nat
    decreases digits.len(),
{
    if digits.len() == 0 {
        0
    } else {
        (value(digits.drop_last()) * 10 + (digits.last() as int - '0' as int)) as nat
    }
}

/// The digits of a number: what follows an optional plus sign.
pub open spec fn unsigned_digits(s: Seq<char>) -> Seq<char> {
    if s.len() > 0 && s[0] == '+' {
        s.drop_first()
    } else {
        s
    }
}

/// The number that `s` spells out, if it does and the number is at most `max`.
pub open spec fn number(s: Seq<char>, max: nat) -> Option<nat> {
    let digits = unsigned_digits(s);
    if digits.len() > 0 && (forall|k: int|
        0 <= k < digits.len() ==> decimal_digit(#[trigger] digits[k])) && value(digits) <= max {
        Some(value(digits))
    } else {
        None
    }
}

proof fn lemma_value_grows(digits: Seq<char>, n: int)
    requires
        0 <= n <= digits.len(),
        forall|k: int| 0 <= k < digits.len() ==> decimal_digit(#[trigger] digits[k]),
    ensures
        value(digits.take(n)) <= value(digits),
    decreases digits.len(),
{
    if n < digits.len() {
        let shorter = digits.drop_last();
        assert(shorter.take(n) =~= digits.take(n));
        lemma_value_grows(shorter, n);
    } else {
        assert(digits.take(n) =~= digits);
    }
}

/// Read an unsigned number of at most `max`.
pub fn read_number(text: &str, max: u32) -> (r: Option<u32>)
    ensures
        match r {
            Some(n) => number(text@, max as nat) == Some(n as nat),
            None => number(text@, max as nat) is None,
        },
{
    let chars: Vec<char> = characters(text);
    let start: usize = if chars.len() > 0 && chars[0] == '+' {
        1
    } else {
        0
    };
    let ghost digits = unsigned_digits(text@);
    assert(digits =~= chars@.skip(start as int));
    if start >= chars.len() {
        return None;
    }
    let mut total: u64 = 0;
    let mut i: usize = start;
    while i < chars.len()
        invariant
            start <= i <= chars.len(),
            digits == chars@.skip(start as int),
            total <= max,
            total == value(digits.take(i - start)),
            forall|k: int| 0 <= k < i - start ==> decimal_digit(#[trigger] digits[k]),
            digits == unsigned_digits(text@),
        decreases chars.len() - i,
    {
        let c: char = chars[i];
        assert(digits[i - start] == c);
        if !('0' <= c && c <= '9') {
            assert(!decimal_digit(digits[i - start]));
            return None;
        }
        assert(digits.take(i - start + 1).drop_last() =~= digits.take(i - start));
        let digit: u64 = (c as u8 - 48) as u64;
        total = total * 10 + digit;
        i = i + 1;
        if total > max as u64 {
            proof {
                if forall|k: int| 0 <= k < digits.len() ==> decimal_digit(#[trigger] digits[k]) {
                    lemma_value_grows(digits, i - start);
                }
            }
            return None;
        }
    }
    assert(digits.take(i - start) =~= digits);
    Some(total as u32)
}

/// The decimal rendering of a number is digits that spell it out.
pub proof fn lemma_decimal_is_read_back(n: nat)
    ensures
        decimal(n).len() > 0,
        forall|k: int| 0 <= k < decimal(n).len() ==> decimal_digit(#[trigger] decimal(n)[k]),
        value(decimal(n)) == n,
    decreases n,
{
    if n < 10 {
        reveal_with_fuel(value, 2);
        assert(decimal(n).drop_last() =~= Seq::<char>::empty());
    } else {
        lemma_decimal_is_read_back(n / 10);
        assert(decimal(n).drop_last() =~= decimal(n / 10));
        assert forall|k: int| 0 <= k < decimal(n).len() implies decimal_digit(
            #[trigger] decimal(n)[k],
        ) by {
            if k < decimal(n / 10).len() {
                assert(decimal(n)[k] == decimal(n / 10)[k]);
            }
        }
    }
}

/// A number survives being written in decimal and read back.
pub proof fn law_number_round_trip(n: nat, max: nat)
    requires
        n <= max,
    ensures
        number(decimal(n), max) == Some(n),
{
    lemma_decimal_is_read_back(n);
    assert(decimal_digit(decimal(n)[0]));
}

// ---------------------------------------------------------------------
// What texts mean
// ---------------------------------------------------------------------

/// Decimal digits count by their place: one more digit on the right makes ten
/// times the number and the digit.
pub proof fn law_digits_count_by_place(digits: Seq<char>, d: nat)
    requires
        d < 10,
    ensures
        value(Seq::empty()) == 0,
        value(digits.push((48 + d) as char)) == 10 * value(digits) + d,
{
    assert(digits.push((48 + d) as char).drop_last() =~= digits);
}

/// A rendered number has no leading zero and no sign.
pub proof fn law_decimal_is_canonical(n: nat)
    ensures
        forall|k: int|
            0 <= k < decimal(n).len() ==> '0' <= #[trigger] decimal(n)[k] && decimal(n)[k] <= '9',
        n > 0 ==> decimal(n)[0] != '0',
        n < 10 ==> decimal(n).len() == 1,
        value(decimal(n)) == n,
    decreases n,
{
    lemma_decimal_is_read_back(n);
    assert forall|k: int| 0 <= k < decimal(n).len() implies '0' <= #[trigger] decimal(n)[k]
        && decimal(n)[k] <= '9' by {
        assert(decimal_digit(decimal(n)[k]));
    }
    if n >= 10 {
        law_decimal_is_canonical(n / 10);
        assert(decimal(n)[0] == decimal(n / 10)[0]);
    }
}

/// What can be read as a number: digits, with or without a plus sign in front,
/// that do not come to more than the limit.
pub proof fn law_readable_numbers(digits: Seq<char>, max: nat)
    requires
        digits.len() > 0,
        forall|k: int|
            0 <= k < digits.len() ==> '0' <= #[trigger] digits[k] && digits[k] <= '9',
    ensures
        number(digits, max) == if value(digits) <= max {
            Some(value(digits))
        } else {
            None
        },
        number(seq!['+'] + digits, max) == number(digits, max),
{
    assert(digits[0] != '+');
    assert((seq!['+'] + digits).drop_first() =~= digits);
    assert forall|k: int| 0 <= k < digits.len() implies decimal_digit(#[trigger] digits[k]) by {}
}

/// What cannot be read as a number: nothing, a sign alone, and anything with
/// another character than a digit behind the sign.
pub proof fn law_unreadable_numbers(s: Seq<char>, max: nat, k: int)
    requires
        s.len() == 0 || s == seq!['+'] || (0 <= k < s.len() && !('0' <= s[k] && s[k] <= '9') && (k
            > 0 || s[k] != '+')),
    ensures
        number(s, max) is None,
{
    if s.len() > 0 && s != seq!['+'] {
        let digits = unsigned_digits(s);
        if s[0] == '+' {
            assert(digits[k - 1] == s[k]);
            assert(!decimal_digit(digits[k - 1]));
        } else {
            assert(!decimal_digit(digits[k]));
        }
    }
}

/// The number that a hexadecimal digit stands for.
pub open spec fn hex_digit_value(c: char) -> int {
    if '0' <= c && c <= '9' {
        c as int - '0' as int
    } else {
        c as int - 'a' as int + 10
    }
}

/// The number that hexadecimal digits spell out.
pub open spec fn hex_value(digits: Seq<char>) -> int
    decreases digits.len(),
{
    if digits.len() == 0 {
        0
    } else {
        16 * hex_value(digits.drop_last()) + hex_digit_value(digits.last())
    }
}

/// Whether a character is a hexadecimal digit in lower case.
pub open spec fn lower_hex_digit(c: char) -> bool {
    ('0' <= c && c <= '9') || ('a' <= c && c <= 'f')
}

/// A number in hexadecimal is lower-case digits without a leading zero, and they
/// spell the number out.
pub proof fn law_hex_is_read_back(n: nat)
    ensures
        hex(n).len() > 0,
        forall|k: int| 0 <= k < hex(n).len() ==> lower_hex_digit(#[trigger] hex(n)[k]),
        n > 0 ==> hex(n)[0] != '0',
        n < 16 ==> hex(n).len() == 1,
        hex_value(hex(n)) == n,
    decreases n,
{
    if n < 16 {
        assert(hex(n).drop_last() =~= Seq::<char>::empty());
        assert(hex_value(hex(n).drop_last()) == 0);
    } else {
        law_hex_is_read_back(n / 16);
        assert(hex(n).drop_last() =~= hex(n / 16));
        assert(hex(n)[0] == hex(n / 16)[0]);
        assert(hex_digit_value(hex_char(n % 16)) == n % 16);
        assert forall|k: int| 0 <= k < hex(n).len() implies lower_hex_digit(
            #[trigger] hex(n)[k],
        ) by {
            if k < hex(n / 16).len() {
                assert(hex(n)[k] == hex(n / 16)[k]);
            }
        }
    }
}

/// A code is written as `0x` and its digits; a byte always has two of them.
pub proof fn law_hex_codes_are_read_back(code: u32, b: u8)
    ensures
        hex_code(code).take(2) == seq!['0', 'x'],
        hex_value(hex_code(code).skip(2)) == code,
        hex_byte(b).len() == 4,
        hex_byte(b).take(2) == seq!['0', 'x'],
        lower_hex_digit(hex_byte(b)[2]),
        lower_hex_digit(hex_byte(b)[3]),
        16 * hex_digit_value(hex_byte(b)[2]) + hex_digit_value(hex_byte(b)[3]) == b,
{
    reveal_strlit("0x");
    law_hex_is_read_back(code as nat);
    assert(hex_code(code).take(2) =~= seq!['0', 'x']);
    assert(hex_code(code).skip(2) =~= hex(code as nat));
    assert(hex_byte(b).take(2) =~= seq!['0', 'x']);
}

/// Upper case differs from lower case by 32, for the 26 letters of ASCII only.
pub proof fn law_upper_case(c: char)
    ensures
        97 <= c as int <= 122 ==> upper(c) as int == c as int - 32,
        !(97 <= c as int <= 122) ==> upper(c) == c,
        upper(upper(c)) == upper(c),
{
}

/// White space, by code points.
pub proof fn law_white_space(c: char)
    ensures
        white(c) <==> (9 <= c as int <= 13 || c as int == 0x20 || c as int == 0x85 || c as int
            == 0xa0 || c as int == 0x1680 || 0x2000 <= c as int <= 0x200a || c as int == 0x2028
            || c as int == 0x2029 || c as int == 0x202f || c as int == 0x205f || c as int
            == 0x3000),
{
}

/// The hexadecimal digits, by code points.
pub proof fn law_hex_digits(c: char)
    ensures
        hex_digit_char(c) <==> (48 <= c as int <= 57 || 65 <= c as int <= 70 || 97 <= c as int
            <= 102),
{
}

proof fn lemma_trimmed_end(s: Seq<char>)
    ensures
        ({
            let t = trimmed_end(s);
            &&& t.len() <= s.len()
            &&& t == s.take(t.len() as int)
            &&& t.len() > 0 ==> !white(t.last())
            &&& forall|k: int| t.len() <= k < s.len() ==> white(#[trigger] s[k])
        }),
    decreases s.len(),
{
    if s.len() > 0 && white(s.last()) {
        let shorter = s.drop_last();
        lemma_trimmed_end(shorter);
        let t = trimmed_end(s);
        assert(shorter.take(t.len() as int) =~= s.take(t.len() as int));
        assert forall|k: int| t.len() <= k < s.len() implies white(#[trigger] s[k]) by {
            if k < shorter.len() {
                assert(shorter[k] == s[k]);
            }
        }
    } else {
        assert(s.take(s.len() as int) =~= s);
    }
}

proof fn lemma_trimmed_start(s: Seq<char>)
    ensures
        ({
            let t = trimmed_start(s);
            let n = s.len() - t.len();
            &&& t.len() <= s.len()
            &&& t == s.skip(n)
            &&& t.len() > 0 ==> !white(t[0])
            &&& forall|k: int| 0 <= k < n ==> white(#[trigger] s[k])
        }),
    decreases s.len(),
{
    if s.len() > 0 && white(s[0]) {
        let shorter = s.drop_first();
        lemma_trimmed_start(shorter);
        let n = s.len() - trimmed_start(s).len();
        assert(shorter.skip(n - 1) =~= s.skip(n));
        assert forall|k: int| 0 <= k < n implies white(#[trigger] s[k]) by {
            if k > 0 {
                assert(shorter[k - 1] == s[k]);
            }
        }
    } else {
        assert(s.skip(0) =~= s);
    }
}

/// Trimming takes off white space and nothing else, and leaves none at the ends:
/// what is left stands in the text between white space on both sides.
pub proof fn law_trimming_takes_white_space_off(s: Seq<char>)
    ensures
        exists|a: int, b: int|
            0 <= a <= b <= s.len() && trimmed(s) == #[trigger] s.subrange(a, b) && (forall|k: int|
                0 <= k < a || b <= k < s.len() ==> white(#[trigger] s[k])),
        trimmed(s).len() > 0 ==> !white(trimmed(s)[0]) && !white(trimmed(s).last()),
        exists|b: int|
            0 <= b <= s.len() && trimmed_end(s) == #[trigger] s.take(b) && (forall|k: int|
                b <= k < s.len() ==> white(#[trigger] s[k])),
        trimmed_end(s).len() > 0 ==> !white(trimmed_end(s).last()),
{
    let t = trimmed_end(s);
    lemma_trimmed_end(s);
    lemma_trimmed_start(t);
    let b = t.len() as int;
    let a = b - trimmed(s).len();
    assert(t == s.take(b));
    assert(t.skip(a) =~= s.subrange(a, b));
    assert forall|k: int| 0 <= k < a || b <= k < s.len() implies white(#[trigger] s[k]) by {
        if k < a {
            assert(t[k] == s[k]);
        }
    }
    if trimmed(s).len() > 0 {
        assert(trimmed(s).last() == t.last());
    }
}

/// Parts with a separator between them.
pub open spec fn joined_by(parts: Seq<Seq<char>>, c: char) -> Seq<char>
    decreases parts.len(),
{
    if parts.len() == 0 {
        Seq::empty()
    } else if parts.len() == 1 {
        parts[0]
    } else {
        parts[0] + seq![c] + joined_by(parts.drop_first(), c)
    }
}

/// Splitting a text loses nothing: joined again, the parts are the text. No part
/// holds a separator.
pub proof fn law_split_is_undone_by_joining(s: Seq<char>, c: char)
    ensures
        split(s, c).len() > 0,
        joined_by(split(s, c), c) == s,
        forall|i: int| 0 <= i < split(s, c).len() ==> !(#[trigger] split(s, c)[i]).contains(c),
    decreases s.len(),
{
    lemma_first_at_bounds(s, c);
    let i = first_at(s, c) as int;
    if i >= s.len() {
        assert forall|j: int| 0 <= j < split(s, c).len() implies !(#[trigger] split(
            s,
            c,
        )[j]).contains(c) by {
            assert(split(s, c)[j] == s);
        }
    } else {
        let rest = s.skip(i + 1);
        law_split_is_undone_by_joining(rest, c);
        assert(split(s, c).drop_first() =~= split(rest, c));
        assert(split(s, c)[0] == s.take(i));
        assert(joined_by(split(s, c), c) =~= s);
        assert forall|j: int| 0 <= j < split(s, c).len() implies !(#[trigger] split(
            s,
            c,
        )[j]).contains(c) by {
            if j > 0 {
                assert(split(s, c)[j] == split(rest, c)[j - 1]);
            }
        }
    }
}

/// Splitting a text once cuts it at the first separator, if there is one.
pub proof fn law_split_once_is_at_first_separator(s: Seq<char>, c: char)
    ensures
        match split_once(s, c) {
            Some((before, after)) => s == before + seq![c] + after && !before.contains(c),
            None => !s.contains(c),
        },
{
    lemma_first_at_bounds(s, c);
    if let Some((before, after)) = split_once(s, c) {
        assert(s =~= before + seq![c] + after);
    }
}

/// A text is lines behind each other: each ends in a line feed, and the last one
/// may end with the text. Of a line that ends in a line feed, one carriage return
/// before it is not part.
pub proof fn law_lines_of_a_text(line: Seq<char>, rest: Seq<char>)
    requires
        !line.contains('\n'),
    ensures
        lines(Seq::empty()) == Seq::<Seq<char>>::empty(),
        line.len() > 0 ==> lines(line) == seq![line],
        lines(line + seq!['\n'] + rest) == seq![
            if line.len() > 0 && line.last() == '\r' {
                line.drop_last()
            } else {
                line
            },
        ] + lines(rest),
{
    let whole = line + seq!['\n'] + rest;
    assert forall|k: int| 0 <= k < line.len() implies line[k] != '\n' by {
        assert(line.contains(line[k]));
    }
    lemma_first_at(line, '\n', line.len() as int);
    assert forall|k: int| 0 <= k < line.len() implies whole[k] != '\n' by {
        assert(whole[k] == line[k]);
    }
    lemma_first_at(whole, '\n', line.len() as int);
    assert(whole.take(line.len() as int) =~= line);
    assert(whole.skip(line.len() as int + 1) =~= rest);
}

} // verus!
