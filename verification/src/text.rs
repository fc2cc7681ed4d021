//! Characters and lines: white space, prefixes, digits and decimal numbers.

use vstd::prelude::*;

verus! {

/// Whether `c` is white space: one of the code points with the Unicode
/// property White_Space.
pub open spec fn is_whitespace(c: char) -> bool {
    let n = c as u32;
    ||| 0x09 <= n <= 0x0D
    ||| n == 0x20
    ||| n == 0x85
    ||| n == 0xA0
    ||| n == 0x1680
    ||| 0x2000 <= n <= 0x200A
    ||| n == 0x2028
    ||| n == 0x2029
    ||| n == 0x202F
    ||| n == 0x205F
    ||| n == 0x3000
}

/// `s` without the white space at its start and at its end.
pub open spec fn trimmed(s: Seq<char>) -> Seq<char>
    decreases s.len(),
{
    if s.len() > 0 && is_whitespace(s[0]) {
        trimmed(s.drop_first())
    } else if s.len() > 0 && is_whitespace(s.last()) {
        trimmed(s.drop_last())
    } else {
        s
    }
}

/// Whether `c` is one of the digits `0` to `9`.
pub open spec fn is_digit(c: char) -> bool {
    '0' <= c <= '9'
}

/// The number that the digit `c` stands for.
pub open spec fn digit_value(c: char) -> int {
    c as u32 - '0' as u32
}

/// Whether `s` holds digits only.
pub open spec fn all_digits(s: Seq<char>) -> bool {
    forall|i: int| 0 <= i < s.len() ==> is_digit(#[trigger] s[i])
}

/// The numbers that the digits of `s` stand for, one for each.
pub open spec fn digit_values(s: Seq<char>) -> Seq<u8> {
    Seq::new(s.len(), |i: int| digit_value(s[i]) as u8)
}

/// The number that the digits of `s` write in base ten; 0 for no digit.
pub open spec fn decimal_value(s: Seq<char>) -> int
    decreases s.len(),
{
    if s.len() == 0 {
        0
    } else {
        10 * decimal_value(s.drop_last()) + digit_value(s.last())
    }
}

/// The number that `s` writes: digits, at least one, after at most one sign
/// `+` or `-`. `None` where `s` is not of that form.
pub open spec fn signed_decimal(s: Seq<char>) -> Option<int> {
    let signed = s.len() > 0 && (s[0] == '-' || s[0] == '+');
    let digits = if signed {
        s.drop_first()
    } else {
        s
    };
    if digits.len() == 0 || !all_digits(digits) {
        None
    } else if signed && s[0] == '-' {
        Some(-decimal_value(digits))
    } else {
        Some(decimal_value(digits))
    }
}

/// The number that `s` writes, where it writes one that fits into 16 bits
/// with sign.
pub open spec fn i16_of(s: Seq<char>) -> Option<i16> {
    match signed_decimal(s) {
        Some(n) => if i16::MIN <= n <= i16::MAX {
            Some(n as i16)
        } else {
            None
        },
        None => None,
    }
}

/// What trimming leaves neither begins nor ends with white space, is no
/// longer than what was trimmed, and is left as it is by trimming again.
pub proof fn trimmed_is_trim(s: Seq<char>)
    ensures
        trimmed(s).len() <= s.len(),
        trimmed(s).len() > 0 ==> !is_whitespace(trimmed(s)[0]) && !is_whitespace(
            trimmed(s).last(),
        ),
        trimmed(trimmed(s)) == trimmed(s),
    decreases s.len(),
{
    if s.len() > 0 && is_whitespace(s[0]) {
        trimmed_is_trim(s.drop_first());
    } else if s.len() > 0 && is_whitespace(s.last()) {
        trimmed_is_trim(s.drop_last());
    }
}

/// Where the characters before `from` and from `to` on are white space, and
/// those at `from` and before `to` are not, trimming leaves what lies
/// between.
pub proof fn trimmed_is_between(s: Seq<char>, from: int, to: int)
    requires
        0 <= from <= to <= s.len(),
        forall|i: int| 0 <= i < from ==> is_whitespace(#[trigger] s[i]),
        forall|i: int| to <= i < s.len() ==> is_whitespace(#[trigger] s[i]),
        from < to ==> !is_whitespace(s[from]) && !is_whitespace(s[to - 1]),
    ensures
        trimmed(s) == s.subrange(from, to),
    decreases s.len(),
{
    if s.len() == 0 {
        assert(s.subrange(from, to) =~= s);
    } else if is_whitespace(s[0]) {
        let rest = s.drop_first();
        if from == 0 {
            // nothing but white space: `from < to` would make `s[0]` none
            assert(to == 0);
            assert forall|i: int| 0 <= i < rest.len() implies is_whitespace(
                #[trigger] rest[i],
            ) by {
                assert(rest[i] == s[i + 1]);
            }
            trimmed_is_between(rest, 0, 0);
            assert(rest.subrange(0, 0) =~= s.subrange(0, 0));
        } else {
            assert forall|i: int| 0 <= i < from - 1 implies is_whitespace(
                #[trigger] rest[i],
            ) by {
                assert(rest[i] == s[i + 1]);
            }
            assert forall|i: int| to - 1 <= i < rest.len() implies is_whitespace(
                #[trigger] rest[i],
            ) by {
                assert(rest[i] == s[i + 1]);
            }
            trimmed_is_between(rest, from - 1, to - 1);
            assert(rest.subrange(from - 1, to - 1) =~= s.subrange(from, to));
        }
    } else if is_whitespace(s.last()) {
        let rest = s.drop_last();
        assert(from == 0);
        assert(to < s.len());
        assert forall|i: int| to <= i < rest.len() implies is_whitespace(#[trigger] rest[i]) by {
            assert(rest[i] == s[i]);
        }
        trimmed_is_between(rest, from, to);
        assert(rest.subrange(from, to) =~= s.subrange(from, to));
    } else {
        assert(from == 0);
        assert(to == s.len());
        assert(s.subrange(from, to) =~= s);
    }
}

/// Tests whether `c` is white space.
pub fn is_space(c: char) -> (r: bool)
    ensures
        r == is_whitespace(c),
{
    let n: u32 = c as u32;
    (0x09 <= n && n <= 0x0D) || n == 0x20 || n == 0x85 || n == 0xA0 || n == 0x1680 || (0x2000 <= n
        && n <= 0x200A) || n == 0x2028 || n == 0x2029 || n == 0x202F || n == 0x205F || n == 0x3000
}

/// The characters of `s`.
pub fn chars_of(s: &str) -> (v: Vec<char>)
    ensures
        v@ == s@,
{
    let mut v: Vec<char> = Vec::new();
    for c in it: s.chars()
        invariant
            v@ == it.seq().take(it.index() as int),
            it.seq() == s@,
    {
        v.push(c);
    }
    v
}

/// `s` without the white space at its start and at its end.
pub fn trim(s: &str) -> (t: &str)
    ensures
        t@ == trimmed(s@),
{
    let chars = chars_of(s);
    let mut from: usize = 0;
    while from < chars.len() && is_space(chars[from])
        invariant
            0 <= from <= chars.len(),
            forall|i: int| 0 <= i < from ==> is_whitespace(#[trigger] chars@[i]),
        decreases chars.len() - from,
    {
        from += 1;
    }
    let mut to: usize = chars.len();
    while to > from && is_space(chars[to - 1])
        invariant
            from <= to <= chars.len(),
            forall|i: int| to <= i < chars.len() ==> is_whitespace(#[trigger] chars@[i]),
        decreases to,
    {
        to -= 1;
    }
    proof {
        trimmed_is_between(s@, from as int, to as int);
    }
    s.substring_char(from, to)
}

/// Tests whether `s` begins with `prefix`.
pub fn starts_with(s: &str, prefix: &str) -> (r: bool)
    ensures
        r == prefix@.is_prefix_of(s@),
{
    let chars = chars_of(s);
    let head = chars_of(prefix);
    if head.len() > chars.len() {
        return false;
    }
    let mut i: usize = 0;
    while i < head.len()
        invariant
            0 <= i <= head.len() <= chars.len(),
            chars@ == s@,
            head@ == prefix@,
            head@.take(i as int) == chars@.take(i as int),
        decreases head.len() - i,
    {
        if head[i] != chars[i] {
            assert(head@[i as int] != chars@.subrange(0, head@.len() as int)[i as int]);
            return false;
        }
        assert(head@.take(i + 1) == head@.take(i as int).push(head@[i as int]));
        assert(chars@.take(i + 1) == chars@.take(i as int).push(chars@[i as int]));
        i += 1;
    }
    assert(head@.take(i as int) == head@);
    true
}

/// The number that `c` stands for, where it is a digit.
pub fn to_digit(c: char) -> (d: Option<u8>)
    ensures
        d is Some == is_digit(c),
        d is Some ==> d->0 == digit_value(c),
{
    if c >= '0' && c <= '9' {
        Some((c as u32 - '0' as u32) as u8)
    } else {
        None
    }
}

/// The numbers that the digits of `s` stand for; `None` where a character
/// of `s` is no digit.
pub fn digits(s: &str) -> (r: Option<Vec<u8>>)
    ensures
        r is Some == all_digits(s@),
        r is Some ==> r->0@ == digit_values(s@),
{
    let chars = chars_of(s);
    let mut values: Vec<u8> = Vec::new();
    let mut i: usize = 0;
    while i < chars.len()
        invariant
            0 <= i <= chars.len(),
            chars@ == s@,
            all_digits(s@.take(i as int)),
            values@ == digit_values(s@.take(i as int)),
        decreases chars.len() - i,
    {
        match to_digit(chars[i]) {
            Some(d) => {
                values.push(d);
                assert(values@ =~= digit_values(s@.take(i + 1)));
            },
            None => {
                return None;
            },
        }
        i += 1;
    }
    assert(s@.take(i as int) == s@);
    Some(values)
}

/// Reads `s` as a number of 16 bits with sign: digits, at least one, after
/// at most one sign. `None` where `s` is not of that form or the number
/// does not fit.
pub fn parse_i16(s: &str) -> (r: Option<i16>)
    ensures
        r == i16_of(s@),
{
    let chars = chars_of(s);
    let signed = chars.len() > 0 && (chars[0] == '-' || chars[0] == '+');
    let start: usize = if signed {
        1
    } else {
        0
    };
    let ghost body = if signed {
        s@.drop_first()
    } else {
        s@
    };
    assert(body == s@.skip(start as int));
    if chars.len() == start {
        return None;
    }
    let mut acc: i32 = 0;
    let mut i: usize = start;
    while i < chars.len()
        invariant
            start <= i <= chars.len(),
            chars@ == s@,
            signed == (s@.len() > 0 && (s@[0] == '-' || s@[0] == '+')),
            start == if signed { 1int } else { 0int },
            body == if signed { s@.drop_first() } else { s@ },
            body == s@.skip(start as int),
            all_digits(body.take(i - start)),
            0 <= acc <= 400000,
            acc <= 32768 ==> acc == decimal_value(body.take(i - start)),
            acc > 32768 ==> decimal_value(body.take(i - start)) > 32768,
        decreases chars.len() - i,
    {
        assert(body[i - start] == chars@[i as int]);
        assert(body.take(i - start + 1).drop_last() == body.take(i - start));
        match to_digit(chars[i]) {
            Some(d) => {
                if acc <= 32768 {
                    acc = acc * 10 + d as i32;
                }
            },
            None => {
                assert(!is_digit(body[i - start]));
                return None;
            },
        }
        i += 1;
    }
    assert(body.take(i - start) == body);
    if signed && chars[0] == '-' {
        if acc <= 32768 {
            Some((-acc) as i16)
        } else {
            None
        }
    } else {
        if acc <= 32767 {
            Some(acc as i16)
        } else {
            None
        }
    }
}

} // verus!
