//! Strings as sequences of characters: conversion, decimal numbers, and the
//! few character-level operations that the rest of the crate needs.

use vstd::prelude::*;
use vstd::string::StringExecFns;

verus! {

/// The characters of `s`, in order.
pub fn chars_of(s: &str) -> (chars: Vec<char>)
    ensures
        chars@ == s@,
{
    let mut chars: Vec<char> = Vec::new();
    for c in it: s.chars()
        invariant
            it.seq() == s@,
            chars@ =~= it.seq().take(it.index()),
    {
        chars.push(c);
    }
    assert(chars@ =~= s@);
    chars
}

/// `String::push` of the standard library: `c` is appended to `out`, and
/// nothing else of `out` changes.
#[verifier::external_body]
pub(crate) fn push_char(out: &mut String, c: char)
    ensures
        final(out)@ == old(out)@.push(c),
{
    out.push(c)
}

/// Appends the characters `chars[from..to]` to `out`.
pub(crate) fn push_chars(out: &mut String, chars: &Vec<char>, from: usize, to: usize)
    requires
        from <= to <= chars.len(),
    ensures
        final(out)@ == old(out)@ + chars@.subrange(from as int, to as int),
{
    let mut i: usize = from;
    while i < to
        invariant
            from <= i <= to <= chars.len(),
            out@ =~= old(out)@ + chars@.subrange(from as int, i as int),
        decreases to - i,
    {
        push_char(out, chars[i]);
        i += 1;
    }
}

/// The string made of `chars`.
pub fn string_of(chars: &Vec<char>) -> (s: String)
    ensures
        s@ == chars@,
{
    let mut s = String::new();
    push_chars(&mut s, chars, 0, chars.len());
    assert(chars@.subrange(0, chars.len() as int) =~= chars@);
    assert(s@ =~= chars@);
    s
}

/// Whether two strings hold the same characters.
pub fn str_eq(a: &str, b: &str) -> (same: bool)
    ensures
        same == (a@ == b@),
{
    let a_owned = a.to_owned();
    let b_owned = b.to_owned();
    a_owned == b_owned
}

/// Whether `c` is one of the ten ASCII digits.
pub open spec fn is_digit(c: char) -> bool {
    '0' <= c && c <= '9'
}

/// The value of the ASCII digit `c`.
pub open spec fn digit_value(c: char) -> int {
    c as int - '0' as int
}

/// The ASCII digit that stands for `d`, for `d` below ten.
pub open spec fn digit_char(d: int) -> char {
    (d + '0' as int) as char
}

/// The decimal numeral of `n`: no sign, no leading zero (but "0" itself).
pub open spec fn decimal(n: nat) -> Seq<char>
    decreases n,
{
    if n < 10 {
        seq![digit_char(n as int)]
    } else {
        decimal(n / 10).push(digit_char((n % 10) as int))
    }
}

/// The decimal numeral of `n`, with a minus sign in front where `n` is
/// negative.
pub open spec fn signed_decimal(n: int) -> Seq<char> {
    if n < 0 {
        seq!['-'] + decimal((-n) as nat)
    } else {
        decimal(n as nat)
    }
}

/// The ASCII digit for a value below ten.
pub(crate) fn digit_to_char(d: u8) -> (c: char)
    requires
        d < 10,
    ensures
        c == digit_char(d as int),
        is_digit(c),
        digit_value(c) == d,
{
    (d + 48u8) as char
}

/// Appends the decimal numeral of `n` to `out`.
pub fn push_decimal(out: &mut String, n: u64)
    ensures
        final(out)@ == old(out)@ + decimal(n as nat),
    decreases n,
{
    if n >= 10 {
        push_decimal(out, n / 10);
    }
    push_char(out, digit_to_char((n % 10) as u8));
    assert(out@ =~= old(out)@ + decimal(n as nat));
}

/// Appends the decimal numeral of `n` to `out`, after a minus sign where `n`
/// is negative.
pub fn push_signed_decimal(out: &mut String, n: i64)
    ensures
        final(out)@ == old(out)@ + signed_decimal(n as int),
{
    if n < 0 {
        push_char(out, '-');
        let magnitude: u64 = if n == i64::MIN {
            0x8000_0000_0000_0000u64
        } else {
            (-n) as u64
        };
        push_decimal(out, magnitude);
        assert(out@ =~= old(out)@ + signed_decimal(n as int));
    } else {
        push_decimal(out, n as u64);
    }
}

/// Why a string is not the numeral of a number that the target type holds.
#[derive(Debug, Clone, Copy, PartialEq, Eq, Structural)]
pub enum NumberError {
    /// The string is empty.
    Empty,
    /// There is no digit, or a character that is no digit.
    InvalidDigit,
    /// The number is above the largest value of the type.
    PosOverflow,
    /// The number is below the smallest value of the type.
    NegOverflow,
}

impl NumberError {
    /// What the fault is, in words.
    pub open spec fn message(self) -> Seq<char> {
        match self {
            NumberError::Empty => "cannot parse integer from empty string"@,
            NumberError::InvalidDigit => "invalid digit found in string"@,
            NumberError::PosOverflow => "number too large to fit in target type"@,
            NumberError::NegOverflow => "number too small to fit in target type"@,
        }
    }

    /// What the fault is, in words.
    pub fn to_string(&self) -> (text: String)
        ensures
            text@ == self.message(),
    {
        match self {
            NumberError::Empty => String::from_str("cannot parse integer from empty string"),
            NumberError::InvalidDigit => String::from_str("invalid digit found in string"),
            NumberError::PosOverflow => String::from_str(
                "number too large to fit in target type",
            ),
            NumberError::NegOverflow => String::from_str(
                "number too small to fit in target type",
            ),
        }
    }
}

/// Whether every character of `s` is an ASCII digit.
pub open spec fn all_digits(s: Seq<char>) -> bool {
    forall|i: int| 0 <= i < s.len() ==> is_digit(#[trigger] s[i])
}

/// The number that the digits `s` stand for, read as a decimal numeral;
/// leading zeros are allowed and the empty sequence stands for 0.
pub open spec fn digits_value(s: Seq<char>) -> nat
    decreases s.len(),
{
    if s.len() == 0 {
        0
    } else {
        (digits_value(s.drop_last()) * 10 + digit_value(s.last())) as nat
    }
}

/// What an unsigned numeral without sign stands for: at least one digit,
/// nothing but digits, and a value that a `u64` holds.
pub open spec fn parse_digits_spec(s: Seq<char>) -> Result<u64, NumberError> {
    if s.len() == 0 || !all_digits(s) {
        Err(NumberError::InvalidDigit)
    } else if digits_value(s) > u64::MAX {
        Err(NumberError::PosOverflow)
    } else {
        Ok(digits_value(s) as u64)
    }
}

/// What `s` stands for as a `u64`: an optional `+`, then the digits.
pub open spec fn parse_u64_spec(s: Seq<char>) -> Result<u64, NumberError> {
    if s.len() == 0 {
        Err(NumberError::Empty)
    } else if s[0] == '+' {
        parse_digits_spec(s.subrange(1, s.len() as int))
    } else {
        parse_digits_spec(s)
    }
}

/// What `s` stands for as an `i64`: an optional `+` or `-`, then the digits.
pub open spec fn parse_i64_spec(s: Seq<char>) -> Result<i64, NumberError> {
    if s.len() == 0 {
        Err(NumberError::Empty)
    } else {
        let negative = s[0] == '-';
        let digits = if s[0] == '+' || s[0] == '-' {
            s.subrange(1, s.len() as int)
        } else {
            s
        };
        if digits.len() == 0 || !all_digits(digits) {
            Err(NumberError::InvalidDigit)
        } else if negative {
            if digits_value(digits) > -(i64::MIN as int) {
                Err(NumberError::NegOverflow)
            } else {
                Ok((-(digits_value(digits) as int)) as i64)
            }
        } else {
            if digits_value(digits) > i64::MAX {
                Err(NumberError::PosOverflow)
            } else {
                Ok(digits_value(digits) as i64)
            }
        }
    }
}

/// A longer prefix of a run of digits never stands for a smaller number.
pub proof fn lemma_digits_value_grows(s: Seq<char>, shorter: int, longer: int)
    requires
        all_digits(s),
        0 <= shorter <= longer <= s.len(),
    ensures
        digits_value(s.take(shorter)) <= digits_value(s.take(longer)),
    decreases longer - shorter,
{
    if shorter < longer {
        lemma_digits_value_grows(s, shorter, longer - 1);
        assert(s.take(longer).drop_last() =~= s.take(longer - 1));
        assert(is_digit(s[longer - 1]));
        assert(s.take(longer).last() == s[longer - 1]);
    }
}

/// The decimal numeral of a number is made of digits, does not start with a
/// sign, and stands for the number.
pub proof fn lemma_decimal_parses(n: nat)
    ensures
        decimal(n).len() > 0,
        all_digits(decimal(n)),
        digits_value(decimal(n)) == n,
        n <= u64::MAX ==> parse_u64_spec(decimal(n)) == Ok::<u64, NumberError>(n as u64),
    decreases n,
{
    let numeral = decimal(n);
    let digit = (n % 10) as int;
    assert(digit_value(digit_char(digit)) == digit && is_digit(digit_char(digit)));
    assert(numeral.last() == digit_char(digit));
    if n >= 10 {
        lemma_decimal_parses(n / 10);
        assert(numeral.drop_last() =~= decimal(n / 10));
        assert(numeral[0] == decimal(n / 10)[0]);
        assert forall|i: int| 0 <= i < numeral.len() implies is_digit(#[trigger] numeral[i]) by {
            if i < numeral.len() - 1 {
                assert(numeral[i] == decimal(n / 10)[i]);
            }
        }
    } else {
        assert(numeral.drop_last() =~= Seq::<char>::empty());
        assert(digits_value(numeral.drop_last()) == 0);
    }
    assert(is_digit(numeral[0]));
    assert(digits_value(numeral) == digits_value(numeral.drop_last()) * 10 + digit);
}

/// Whether `chars[from..]` are all digits.
fn digits_only(chars: &Vec<char>, from: usize) -> (yes: bool)
    requires
        from <= chars.len(),
    ensures
        yes == all_digits(chars@.subrange(from as int, chars.len() as int)),
{
    let ghost tail = chars@.subrange(from as int, chars.len() as int);
    let mut i: usize = from;
    while i < chars.len()
        invariant
            from <= i <= chars.len(),
            tail == chars@.subrange(from as int, chars.len() as int),
            forall|j: int| 0 <= j < i - from ==> is_digit(#[trigger] tail[j]),
        decreases chars.len() - i,
    {
        let c = chars[i];
        if c < '0' || c > '9' {
            assert(!is_digit(tail[i - from]));
            return false;
        }
        i += 1;
    }
    true
}

/// Reads `chars[from..]` as an unsigned numeral without sign.
pub(crate) fn parse_digits(chars: &Vec<char>, from: usize) -> (parsed: Result<u64, NumberError>)
    requires
        from <= chars.len(),
    ensures
        parsed == parse_digits_spec(chars@.subrange(from as int, chars.len() as int)),
{
    let ghost tail = chars@.subrange(from as int, chars.len() as int);
    if from == chars.len() || !digits_only(chars, from) {
        return Err(NumberError::InvalidDigit);
    }
    let mut value: u64 = 0;
    let mut i: usize = from;
    assert(tail.take(0) =~= Seq::<char>::empty());
    while i < chars.len()
        invariant
            from <= i <= chars.len(),
            tail == chars@.subrange(from as int, chars.len() as int),
            all_digits(tail),
            value == digits_value(tail.take(i - from)),
        decreases chars.len() - i,
    {
        let c = chars[i];
        assert(c == tail[i - from] && is_digit(tail[i - from]));
        let digit: u64 = (c as u32 - '0' as u32) as u64;
        proof {
            assert(tail.take(i - from + 1).drop_last() =~= tail.take(i - from));
            assert(tail.take(i - from + 1).last() == c);
            assert(digits_value(tail.take(i - from + 1)) == value * 10 + digit);
            lemma_digits_value_grows(tail, i - from + 1, tail.len() as int);
            assert(tail.take(tail.len() as int) =~= tail);
        }
        if value > (u64::MAX - digit) / 10 {
            return Err(NumberError::PosOverflow);
        }
        value = value * 10 + digit;
        i += 1;
    }
    assert(tail.take(tail.len() as int) =~= tail);
    Ok(value)
}

/// Reads a `u64` from its decimal numeral, which may start with `+`.
pub fn parse_u64(s: &str) -> (parsed: Result<u64, NumberError>)
    ensures
        parsed == parse_u64_spec(s@),
{
    let chars = chars_of(s);
    if chars.len() == 0 {
        return Err(NumberError::Empty);
    }
    if chars[0] == '+' {
        parse_digits(&chars, 1)
    } else {
        assert(chars@.subrange(0, chars.len() as int) =~= chars@);
        parse_digits(&chars, 0)
    }
}

/// Reads an `i64` from its decimal numeral, which may start with `+` or `-`.
pub fn parse_i64(s: &str) -> (parsed: Result<i64, NumberError>)
    ensures
        parsed == parse_i64_spec(s@),
{
    let chars = chars_of(s);
    if chars.len() == 0 {
        return Err(NumberError::Empty);
    }
    let negative = chars[0] == '-';
    let from: usize = if chars[0] == '+' || chars[0] == '-' {
        1
    } else {
        0
    };
    assert(chars@.subrange(0, chars.len() as int) =~= chars@);
    match parse_digits(&chars, from) {
        Err(NumberError::PosOverflow) => {
            if negative {
                Err(NumberError::NegOverflow)
            } else {
                Err(NumberError::PosOverflow)
            }
        },
        Err(other) => Err(other),
        Ok(magnitude) => {
            if negative {
                if magnitude > 0x8000_0000_0000_0000u64 {
                    Err(NumberError::NegOverflow)
                } else if magnitude == 0x8000_0000_0000_0000u64 {
                    Ok(i64::MIN)
                } else {
                    Ok(-(magnitude as i64))
                }
            } else {
                if magnitude > 0x7fff_ffff_ffff_ffffu64 {
                    Err(NumberError::PosOverflow)
                } else {
                    Ok(magnitude as i64)
                }
            }
        },
    }
}

/// The lowercase form of a string as the standard library computes it, by
/// the case mapping of Unicode.
pub uninterp spec fn lowercase_of(s: Seq<char>) -> Seq<char>;

/// `str::to_lowercase` of the standard library. What it returns depends on
/// the characters of `s` alone; it is known here only by the name
/// `lowercase_of`.
#[verifier::external_body]
pub(crate) fn to_lowercase(s: &str) -> (lower: String)
    ensures
        lower@ == lowercase_of(s@),
{
    s.to_lowercase()
}

/// The strings of `parts` in a row, with `separator` between each two.
pub open spec fn joined(parts: Seq<Seq<char>>, separator: Seq<char>) -> Seq<char>
    decreases parts.len(),
{
    if parts.len() == 0 {
        Seq::empty()
    } else if parts.len() == 1 {
        parts[0]
    } else {
        joined(parts.drop_last(), separator) + separator + parts.last()
    }
}

/// The strings of `parts`, each as a sequence of characters.
pub open spec fn text_views(parts: Seq<String>) -> Seq<Seq<char>> {
    parts.map_values(|part: String| part@)
}

/// Puts the strings of `parts` in a row, with `separator` between each two.
pub fn join(parts: &Vec<String>, separator: &str) -> (out: String)
    ensures
        out@ == joined(text_views(parts@), separator@),
{
    let ghost views = text_views(parts@);
    let mut out = String::new();
    let mut i: usize = 0;
    assert(views.take(0) =~= Seq::empty());
    while i < parts.len()
        invariant
            i <= parts.len(),
            views == text_views(parts@),
            out@ == joined(views.take(i as int), separator@),
        decreases parts.len() - i,
    {
        proof {
            assert(views.take(i + 1).drop_last() =~= views.take(i as int));
            assert(views.take(i + 1).last() == parts@[i as int]@);
            if i == 0 {
                assert(views.take(1)[0] == parts@[0]@);
                assert(Seq::<char>::empty() + parts@[0]@ =~= parts@[0]@);
            }
        }
        if i > 0 {
            out.append(separator);
        }
        out.append(parts[i].as_str());
        i += 1;
    }
    assert(views.take(parts.len() as int) =~= views);
    out
}

/// `s` with `to` in place of every `from`.
pub open spec fn replaced(s: Seq<char>, from: char, to: char) -> Seq<char> {
    s.map_values(
        |c: char|
            if c == from {
                to
            } else {
                c
            },
    )
}

/// Puts `to` in place of every `from` in `s`.
pub fn replace_char(s: &str, from: char, to: char) -> (out: String)
    ensures
        out@ == replaced(s@, from, to),
{
    let chars = chars_of(s);
    let mut out = String::new();
    let mut i: usize = 0;
    while i < chars.len()
        invariant
            i <= chars.len(),
            chars@ == s@,
            out@ =~= replaced(s@.take(i as int), from, to),
        decreases chars.len() - i,
    {
        let c = chars[i];
        push_char(
            &mut out,
            if c == from {
                to
            } else {
                c
            },
        );
        i += 1;
    }
    assert(s@.take(chars.len() as int) =~= s@);
    out
}

/// The index of the last `c` in `s`, or -1 where it has none.
pub open spec fn last_index(s: Seq<char>, c: char) -> int
    decreases s.len(),
{
    if s.len() == 0 {
        -1
    } else if s.last() == c {
        s.len() - 1
    } else {
        last_index(s.drop_last(), c)
    }
}

/// Finds the last `c` among the first `end` characters.
pub(crate) fn find_last(chars: &Vec<char>, end: usize, c: char) -> (found: Option<usize>)
    requires
        end <= chars.len(),
    ensures
        match found {
            Some(i) => i < end && i == last_index(chars@.take(end as int), c) && chars@[i as int]
                == c,
            None => last_index(chars@.take(end as int), c) == -1,
        },
{
    let mut i: usize = end;
    while i > 0 && chars[i - 1] != c
        invariant
            i <= end <= chars.len(),
            last_index(chars@.take(end as int), c) == last_index(chars@.take(i as int), c),
        decreases i,
    {
        proof {
            assert(chars@.take(i as int).drop_last() =~= chars@.take(i - 1));
        }
        i -= 1;
    }
    if i == 0 {
        None
    } else {
        Some(i - 1)
    }
}

/// The extension of a file name: what follows its last `.`. A name without
/// `.`, and one whose only `.` is its first character, has no extension.
pub open spec fn extension_of(name: Seq<char>) -> Option<Seq<char>> {
    if last_index(name, '.') <= 0 {
        None
    } else {
        Some(name.skip(last_index(name, '.') + 1))
    }
}

/// The extension of the file name `name`.
pub fn extension(name: &str) -> (ext: Option<String>)
    ensures
        ext is Some <==> extension_of(name@) is Some,
        ext is Some ==> ext->0@ == extension_of(name@)->0,
{
    let chars = chars_of(name);
    assert(chars@.take(chars.len() as int) =~= chars@);
    match find_last(&chars, chars.len(), '.') {
        None => None,
        Some(dot) => {
            if dot == 0 {
                None
            } else {
                let mut ext = String::new();
                push_chars(&mut ext, &chars, dot + 1, chars.len());
                assert(ext@ =~= name@.skip(dot + 1));
                Some(ext)
            }
        },
    }
}

/// Whether `a` comes before `b` in the order of strings: at the first place
/// where the two differ `a` has the smaller character, or `a` ends there and
/// `b` goes on.
pub open spec fn precedes(a: Seq<char>, b: Seq<char>) -> bool
    decreases a.len(),
{
    if b.len() == 0 {
        false
    } else if a.len() == 0 {
        true
    } else if a[0] != b[0] {
        a[0] < b[0]
    } else {
        precedes(a.drop_first(), b.drop_first())
    }
}

/// No string comes before itself, and of two strings that come one before
/// the other only one does.
pub proof fn lemma_precedes_asymmetric(a: Seq<char>, b: Seq<char>)
    ensures
        !(precedes(a, b) && precedes(b, a)),
        !precedes(a, a),
    decreases a.len(),
{
    if a.len() > 0 {
        lemma_precedes_asymmetric(a.drop_first(), a.drop_first());
        if b.len() > 0 && a[0] == b[0] {
            lemma_precedes_asymmetric(a.drop_first(), b.drop_first());
        }
    }
}

/// What comes before a string that comes before a third comes before the
/// third.
pub proof fn lemma_precedes_transitive(a: Seq<char>, b: Seq<char>, c: Seq<char>)
    requires
        precedes(a, b),
        precedes(b, c),
    ensures
        precedes(a, c),
    decreases a.len(),
{
    if a.len() > 0 && a[0] == b[0] && b[0] == c[0] {
        lemma_precedes_transitive(a.drop_first(), b.drop_first(), c.drop_first());
    }
}

/// How two strings stand in the order of strings.
#[derive(Debug, Clone, Copy, PartialEq, Eq, Structural)]
pub enum Order {
    /// The first comes before the second.
    Before,
    /// The two are the same string.
    Same,
    /// The first comes after the second.
    After,
}

/// Strings that agree on their first `n` characters stand to each other as
/// what is left of them does.
proof fn lemma_precedes_skip(a: Seq<char>, b: Seq<char>, n: int)
    requires
        0 <= n <= a.len(),
        n <= b.len(),
        a.take(n) == b.take(n),
    ensures
        precedes(a, b) == precedes(a.skip(n), b.skip(n)),
        (a == b) == (a.skip(n) == b.skip(n)),
    decreases n,
{
    if n > 0 {
        assert(a[0] == a.take(n)[0] && b[0] == b.take(n)[0]);
        let a1 = a.drop_first();
        let b1 = b.drop_first();
        assert(a1.take(n - 1) =~= a.take(n).drop_first());
        assert(b1.take(n - 1) =~= b.take(n).drop_first());
        lemma_precedes_skip(a1, b1, n - 1);
        assert(a1.skip(n - 1) =~= a.skip(n));
        assert(b1.skip(n - 1) =~= b.skip(n));
        if a1 == b1 {
            assert(a =~= seq![a[0]] + a1);
            assert(b =~= seq![b[0]] + b1);
        }
    } else {
        assert(a.skip(0) =~= a);
        assert(b.skip(0) =~= b);
    }
}

/// Compares two strings in the order of strings.
pub fn compare(a: &Vec<char>, b: &Vec<char>) -> (order: Order)
    ensures
        order == Order::Before <==> precedes(a@, b@),
        order == Order::Same <==> a@ == b@,
        order == Order::After <==> precedes(b@, a@),
{
    proof {
        lemma_precedes_asymmetric(a@, b@);
        lemma_precedes_asymmetric(a@, a@);
    }
    let mut i: usize = 0;
    while i < a.len() && i < b.len()
        invariant
            i <= a.len(),
            i <= b.len(),
            a@.take(i as int) =~= b@.take(i as int),
        decreases a.len() - i,
    {
        if a[i] != b[i] {
            proof {
                lemma_precedes_skip(a@, b@, i as int);
                lemma_precedes_skip(b@, a@, i as int);
                assert(a@.skip(i as int)[0] == a@[i as int]);
                assert(b@.skip(i as int)[0] == b@[i as int]);
            }
            return if a[i] < b[i] {
                Order::Before
            } else {
                Order::After
            };
        }
        i += 1;
    }
    proof {
        lemma_precedes_skip(a@, b@, i as int);
        lemma_precedes_skip(b@, a@, i as int);
    }
    if i < b.len() {
        Order::Before
    } else if i < a.len() {
        Order::After
    } else {
        assert(a@.skip(i as int) =~= b@.skip(i as int));
        Order::Same
    }
}

} // verus!
