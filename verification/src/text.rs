//! Text primitives: comparison, trimming, splitting and decimal rendering, each
//! stated over the characters of the string.

use vstd::prelude::*;
use vstd::string::StrSliceExecFns;
use vstd::string::StringExecFns;

verus! {

/// `std`'s equality of two string slices: true exactly when they hold the same
/// characters.
#[verifier::external_body]
pub(crate) fn same(a: &str, b: &str) -> (equal: bool)
    ensures
        equal == (a@ == b@),
{
    a == b
}

/// `std`'s `String::push`: appends one character.
pub assume_specification[ String::push ](s: &mut String, c: char)
    ensures
        final(s)@ == old(s)@.push(c),
;

/// The characters of an optional string.
pub open spec fn optional(s: Option<String>) -> Option<Seq<char>> {
    match s {
        Some(s) => Some(s@),
        None => None,
    }
}

/// The characters of an optional string slice.
pub open spec fn optional_str(s: Option<&str>) -> Option<Seq<char>> {
    match s {
        Some(s) => Some(s@),
        None => None,
    }
}

/// The characters of each string of a list.
pub open spec fn list(s: Seq<String>) -> Seq<Seq<char>> {
    s.map_values(|t: String| t@)
}

/// Copy an optional string.
pub fn copy_optional(s: &Option<String>) -> (copy: Option<String>)
    ensures
        copy == *s,
{
    match s {
        Some(s) => Some(s.clone()),
        None => None,
    }
}

/// Copy a list of strings.
pub fn copy_list(s: &Vec<String>) -> (copy: Vec<String>)
    ensures
        copy@ == s@,
{
    let mut copy: Vec<String> = Vec::new();
    let mut i: usize = 0;
    while i < s.len()
        invariant
            i <= s@.len(),
            copy@ == s@.take(i as int),
        decreases s@.len() - i,
    {
        copy.push(s[i].clone());
        i += 1;
    }
    copy
}

/// The characters Unicode gives the `White_Space` property.
pub open spec fn is_white_space(c: char) -> bool {
    ||| '\u{9}' <= c <= '\u{d}'
    ||| c == ' '
    ||| c == '\u{85}'
    ||| c == '\u{a0}'
    ||| c == '\u{1680}'
    ||| '\u{2000}' <= c <= '\u{200a}'
    ||| c == '\u{2028}'
    ||| c == '\u{2029}'
    ||| c == '\u{202f}'
    ||| c == '\u{205f}'
    ||| c == '\u{3000}'
}

/// Whether Unicode gives `c` the `White_Space` property.
pub fn white_space(c: char) -> (white: bool)
    ensures
        white == is_white_space(c),
{
    ('\u{9}' <= c && c <= '\u{d}') || c == ' ' || c == '\u{85}' || c == '\u{a0}' || c == '\u{1680}'
        || ('\u{2000}' <= c && c <= '\u{200a}') || c == '\u{2028}' || c == '\u{2029}' || c
        == '\u{202f}' || c == '\u{205f}' || c == '\u{3000}'
}

/// `s` without the white space it begins with.
pub open spec fn trimmed_start(s: Seq<char>) -> Seq<char>
    decreases s.len(),
{
    if s.len() > 0 && is_white_space(s[0]) {
        trimmed_start(s.skip(1))
    } else {
        s
    }
}

/// `s` without the white space it ends with.
pub open spec fn trimmed_end(s: Seq<char>) -> Seq<char>
    decreases s.len(),
{
    if s.len() > 0 && is_white_space(s.last()) {
        trimmed_end(s.drop_last())
    } else {
        s
    }
}

/// `s` without the white space around it.
pub open spec fn trimmed(s: Seq<char>) -> Seq<char> {
    trimmed_end(trimmed_start(s))
}

/// Cut the white space off both ends of `s`.
pub fn trim(s: &str) -> (rest: &str)
    ensures
        rest@ == trimmed(s@),
{
    let len: usize = s.unicode_len();
    let mut start: usize = 0;
    assert(s@.skip(0) =~= s@);
    while start < len && white_space(s.get_char(start))
        invariant
            start <= len == s@.len(),
            trimmed_start(s@) == trimmed_start(s@.skip(start as int)),
        decreases len - start,
    {
        assert(s@.skip(start as int).skip(1) =~= s@.skip(start + 1));
        assert(s@.skip(start as int)[0] == s@[start as int]);
        start += 1;
    }
    assert(start < len ==> s@.skip(start as int)[0] == s@[start as int]);
    let mut end: usize = len;
    assert(s@.skip(start as int) =~= s@.subrange(start as int, len as int));
    while start < end && white_space(s.get_char(end - 1))
        invariant
            start <= end <= len == s@.len(),
            trimmed(s@) == trimmed_end(s@.subrange(start as int, end as int)),
        decreases end - start,
    {
        let ghost part = s@.subrange(start as int, end as int);
        assert(part.last() == s@[end - 1]);
        assert(part.drop_last() =~= s@.subrange(start as int, end - 1));
        end -= 1;
    }
    assert(start < end ==> s@.subrange(start as int, end as int).last() == s@[end - 1]);
    s.substring_char(start, end)
}

/// Cut the white space off the end of `s`.
pub fn trim_end(s: &str) -> (rest: &str)
    ensures
        rest@ == trimmed_end(s@),
{
    let mut end: usize = s.unicode_len();
    assert(s@.take(end as int) =~= s@);
    while 0 < end && white_space(s.get_char(end - 1))
        invariant
            end <= s@.len(),
            trimmed_end(s@) == trimmed_end(s@.take(end as int)),
        decreases end,
    {
        assert(s@.take(end as int).last() == s@[end - 1]);
        assert(s@.take(end as int).drop_last() =~= s@.take(end - 1));
        end -= 1;
    }
    assert(0 < end ==> s@.take(end as int).last() == s@[end - 1]);
    s.substring_char(0, end)
}

/// The rest of `s` behind `prefix`, if `s` begins with it.
pub fn strip_prefix<'a>(s: &'a str, prefix: &str) -> (rest: Option<&'a str>)
    ensures
        rest is Some <==> prefix@.is_prefix_of(s@),
        rest is Some ==> rest->0@ == s@.skip(prefix@.len() as int),
{
    let n: usize = prefix.unicode_len();
    let len: usize = s.unicode_len();
    if n <= len && same(s.substring_char(0, n), prefix) {
        assert(prefix@.is_prefix_of(s@));
        Some(s.substring_char(n, len))
    } else {
        assert(prefix@.is_prefix_of(s@) ==> s@.subrange(0, n as int) =~= prefix@);
        None
    }
}

/// The rest of `s` before `suffix`, if `s` ends with it.
pub fn strip_suffix<'a>(s: &'a str, suffix: &str) -> (rest: Option<&'a str>)
    ensures
        rest is Some <==> suffix@.is_suffix_of(s@),
        rest is Some ==> rest->0@ == s@.take(s@.len() - suffix@.len()),
{
    let n: usize = suffix.unicode_len();
    let len: usize = s.unicode_len();
    if n <= len && same(s.substring_char(len - n, len), suffix) {
        assert(suffix@.is_suffix_of(s@));
        Some(s.substring_char(0, len - n))
    } else {
        assert(suffix@.is_suffix_of(s@) ==> s@.subrange(len - n, len as int) =~= suffix@);
        None
    }
}

/// Where the first `c` of `s` stands, counted in characters.
pub fn find(s: &str, c: char) -> (place: Option<usize>)
    ensures
        match place {
            Some(i) => i < s@.len() && s@[i as int] == c && !s@.take(i as int).contains(c),
            None => !s@.contains(c),
        },
{
    let len: usize = s.unicode_len();
    let mut i: usize = 0;
    while i < len
        invariant
            i <= len == s@.len(),
            !s@.take(i as int).contains(c),
        decreases len - i,
    {
        if s.get_char(i) == c {
            return Some(i);
        }
        assert(s@.take(i + 1) =~= s@.take(i as int).push(s@[i as int]));
        i += 1;
    }
    assert(s@.take(len as int) =~= s@);
    None
}

/// Whether `c` occurs in `s`.
pub fn contains_char(s: &str, c: char) -> (found: bool)
    ensures
        found == s@.contains(c),
{
    match find(s, c) {
        Some(i) => {
            assert(s@[i as int] == c);
            true
        },
        None => false,
    }
}

/// Whether `needle` occurs in `s` as it stands.
pub open spec fn occurs_in(needle: Seq<char>, s: Seq<char>) -> bool {
    exists|i: int| 0 <= i <= s.len() - needle.len() && #[trigger] s.subrange(i, i + needle.len())
        == needle
}

/// Whether `needle` occurs in `s` as it stands.
pub fn contains(s: &str, needle: &str) -> (found: bool)
    ensures
        found == occurs_in(needle@, s@),
{
    let len: usize = s.unicode_len();
    let n: usize = needle.unicode_len();
    if n > len {
        return false;
    }
    let mut i: usize = 0;
    while i <= len - n
        invariant
            n == needle@.len(),
            n <= len == s@.len(),
            i <= len - n + 1,
            forall|j: int|
                0 <= j < i ==> #[trigger] s@.subrange(j, j + needle@.len()) != needle@,
        decreases len - n + 1 - i,
    {
        if same(s.substring_char(i, i + n), needle) {
            return true;
        }
        if i == len - n {
            return false;
        }
        i += 1;
    }
    false
}

/// How many characters stand before the first white space of `s`.
pub open spec fn word_len(s: Seq<char>) -> nat
    decreases s.len(),
{
    if s.len() == 0 || is_white_space(s[0]) {
        0
    } else {
        1 + word_len(s.skip(1))
    }
}

proof fn lemma_word_len(s: Seq<char>)
    ensures
        word_len(s) <= s.len(),
    decreases s.len(),
{
    if s.len() > 0 && !is_white_space(s[0]) {
        lemma_word_len(s.skip(1));
    }
}

/// The parts of `s` that white space separates, in order and without empty ones.
pub open spec fn words_of(s: Seq<char>) -> Seq<Seq<char>>
    decreases s.len(),
    via words_of_decreases
{
    if s.len() == 0 {
        seq![]
    } else if is_white_space(s[0]) {
        words_of(s.skip(1))
    } else {
        seq![s.take(word_len(s) as int)] + words_of(s.skip(word_len(s) as int))
    }
}

#[via_fn]
proof fn words_of_decreases(s: Seq<char>) {
    lemma_word_len(s);
}

/// Split `s` at its white space.
pub fn words(s: &str) -> (parts: Vec<String>)
    ensures
        list(parts@) == words_of(s@),
{
    let len: usize = s.unicode_len();
    let mut parts: Vec<String> = Vec::new();
    let mut i: usize = 0;
    assert(s@.skip(0) =~= s@);
    assert(list(parts@) + words_of(s@) =~= words_of(s@));
    while i < len
        invariant
            i <= len == s@.len(),
            list(parts@) + words_of(s@.skip(i as int)) == words_of(s@),
        decreases len - i,
    {
        let ghost rest = s@.skip(i as int);
        if white_space(s.get_char(i)) {
            assert(rest[0] == s@[i as int]);
            assert(rest.skip(1) =~= s@.skip(i + 1));
            i += 1;
        } else {
            let mut end: usize = i + 1;
            assert(rest.skip(1) =~= s@.skip(i + 1));
            while end < len && !white_space(s.get_char(end))
                invariant
                    i < end <= len == s@.len(),
                    rest == s@.skip(i as int),
                    word_len(rest) == (end - i) + word_len(s@.skip(end as int)),
                decreases len - end,
            {
                assert(s@.skip(end as int)[0] == s@[end as int]);
                assert(s@.skip(end as int).skip(1) =~= s@.skip(end + 1));
                end += 1;
            }
            assert(end < len ==> s@.skip(end as int)[0] == s@[end as int]);
            let ghost before = list(parts@);
            let part: &str = s.substring_char(i, end);
            parts.push(part.to_owned());
            proof {
                assert(rest.take(word_len(rest) as int) =~= part@);
                assert(rest.skip(word_len(rest) as int) =~= s@.skip(end as int));
                assert(list(parts@) =~= before.push(part@));
                assert(before.push(part@) + words_of(s@.skip(end as int)) =~= before + words_of(
                    rest,
                ));
            }
            i = end;
        }
    }
    assert(s@.skip(i as int) =~= seq![]);
    assert(list(parts@) + words_of(seq![]) =~= list(parts@));
    parts
}

/// The decimal digit `d`.
pub open spec fn digit(d: nat) -> char {
    if d == 0 {
        '0'
    } else if d == 1 {
        '1'
    } else if d == 2 {
        '2'
    } else if d == 3 {
        '3'
    } else if d == 4 {
        '4'
    } else if d == 5 {
        '5'
    } else if d == 6 {
        '6'
    } else if d == 7 {
        '7'
    } else if d == 8 {
        '8'
    } else {
        '9'
    }
}

/// `n` in decimal, without leading zeros.
pub open spec fn decimal_of(n: nat) -> Seq<char>
    decreases n,
{
    if n < 10 {
        seq![digit(n)]
    } else {
        decimal_of(n / 10).push(digit(n % 10))
    }
}

/// `n` in decimal, with a minus sign when it is negative.
pub open spec fn signed_decimal_of(n: int) -> Seq<char> {
    if n < 0 {
        seq!['-'] + decimal_of((-n) as nat)
    } else {
        decimal_of(n as nat)
    }
}

fn digit_char(d: u64) -> (c: char)
    requires
        d < 10,
    ensures
        c == digit(d as nat),
{
    if d == 0 {
        '0'
    } else if d == 1 {
        '1'
    } else if d == 2 {
        '2'
    } else if d == 3 {
        '3'
    } else if d == 4 {
        '4'
    } else if d == 5 {
        '5'
    } else if d == 6 {
        '6'
    } else if d == 7 {
        '7'
    } else if d == 8 {
        '8'
    } else {
        '9'
    }
}

/// Render `n` in decimal.
pub fn decimal(n: u64) -> (s: String)
    ensures
        s@ == decimal_of(n as nat),
    decreases n,
{
    if n < 10 {
        let mut s: String = String::new();
        s.push(digit_char(n));
        assert(s@ =~= seq![digit(n as nat)]);
        s
    } else {
        let mut s: String = decimal(n / 10);
        s.push(digit_char(n % 10));
        s
    }
}

/// Render `n` in decimal, with a minus sign when it is negative.
pub fn signed_decimal(n: i64) -> (s: String)
    ensures
        s@ == signed_decimal_of(n as int),
{
    if n >= 0 {
        decimal(n as u64)
    } else {
        let magnitude: u64 = (-(n as i128)) as u64;
        let mut s: String = String::new();
        s.push('-');
        s.append(decimal(magnitude).as_str());
        assert(s@ =~= seq!['-'] + decimal_of(magnitude as nat));
        s
    }
}

/// The value of a decimal digit.
pub open spec fn digit_value(c: char) -> nat {
    if '0' <= c <= '9' {
        (c as nat - '0' as nat) as nat
    } else {
        0
    }
}

/// Whether `s` is made of decimal digits.
pub open spec fn all_digits(s: Seq<char>) -> bool {
    forall|i: int| 0 <= i < s.len() ==> '0' <= #[trigger] s[i] <= '9'
}

/// The value of a row of decimal digits.
pub open spec fn digits_value(s: Seq<char>) -> nat
    decreases s.len(),
{
    if s.len() == 0 {
        0
    } else {
        10 * digits_value(s.drop_last()) + digit_value(s.last())
    }
}

/// Whether `s` begins with a sign.
pub open spec fn is_signed(s: Seq<char>) -> bool {
    s.len() > 0 && (s[0] == '+' || s[0] == '-')
}

/// The whole number that `s` denotes: an optional sign, then digits.
pub open spec fn integer_of(s: Seq<char>) -> Option<int> {
    let digits = if is_signed(s) {
        s.skip(1)
    } else {
        s
    };
    if digits.len() > 0 && all_digits(digits) {
        Some(
            if s[0] == '-' {
                -digits_value(digits)
            } else {
                digits_value(digits) as int
            },
        )
    } else {
        None
    }
}

proof fn lemma_digits_value_grows(s: Seq<char>, k: int)
    requires
        0 <= k <= s.len(),
    ensures
        digits_value(s.take(k)) <= digits_value(s),
    decreases s.len(),
{
    if k < s.len() {
        lemma_digits_value_grows(s.drop_last(), k);
        assert(s.drop_last().take(k) =~= s.take(k));
    } else {
        assert(s.take(k) =~= s);
    }
}

/// Parse a whole number that fits in an `i32`.
pub fn parse_i32(s: &str) -> (number: Option<i32>)
    ensures
        match number {
            Some(n) => integer_of(s@) == Some(n as int),
            None => integer_of(s@) is None || !(i32::MIN <= integer_of(s@)->0 <= i32::MAX),
        },
{
    let len: usize = s.unicode_len();
    let negative: bool = len > 0 && s.get_char(0) == '-';
    let start: usize = if negative || (len > 0 && s.get_char(0) == '+') {
        1
    } else {
        0
    };
    let ghost digits = s@.skip(start as int);
    proof {
        assert(!is_signed(s@) ==> digits =~= s@);
    }
    if start == len {
        return None;
    }
    let mut value: i64 = 0;
    let mut i: usize = start;
    while i < len
        invariant
            start <= i <= len == s@.len(),
            start <= 1,
            digits == s@.skip(start as int),
            0 <= value <= 0x8000_0000,
            value == digits_value(digits.take(i - start)),
            forall|k: int| 0 <= k < i - start ==> '0' <= #[trigger] digits[k] <= '9',
            start < len,
            is_signed(s@) <==> start == 1,
            negative == (s@.len() > 0 && s@[0] == '-'),
            !is_signed(s@) ==> digits == s@,
        decreases len - i,
    {
        let c: char = s.get_char(i);
        let ghost place = i - start;
        assert(digits[place] == c);
        if !('0' <= c && c <= '9') {
            assert(!all_digits(digits));
            return None;
        }
        proof {
            assert(digits.take(place + 1).drop_last() =~= digits.take(place));
            assert(digits.take(place + 1).last() == c);
        }
        value = 10 * value + (c as u32 - '0' as u32) as i64;
        i += 1;
        if value > 0x8000_0000 {
            proof {
                lemma_digits_value_grows(digits, i - start);
            }
            return None;
        }
    }
    proof {
        assert(digits.take(i - start) =~= digits);
        assert(all_digits(digits));
    }
    if negative {
        Some((-value) as i32)
    } else if value <= 0x7FFF_FFFF {
        Some(value as i32)
    } else {
        None
    }
}

/// `a` followed by `b`.
pub fn joined(a: &str, b: &str) -> (s: String)
    ensures
        s@ == a@ + b@,
{
    let mut s: String = a.to_owned();
    s.append(b);
    s
}

/// Cut the white space off the start of `s`.
pub fn trim_start(s: &str) -> (rest: &str)
    ensures
        rest@ == trimmed_start(s@),
{
    let len: usize = s.unicode_len();
    let mut start: usize = 0;
    assert(s@.skip(0) =~= s@);
    while start < len && white_space(s.get_char(start))
        invariant
            start <= len == s@.len(),
            trimmed_start(s@) == trimmed_start(s@.skip(start as int)),
        decreases len - start,
    {
        assert(s@.skip(start as int).skip(1) =~= s@.skip(start + 1));
        assert(s@.skip(start as int)[0] == s@[start as int]);
        start += 1;
    }
    assert(start < len ==> s@.skip(start as int)[0] == s@[start as int]);
    let rest: &str = s.substring_char(start, len);
    assert(rest@ =~= s@.skip(start as int));
    rest
}

/// The part of `s` before its first `c`.
pub open spec fn before_first(s: Seq<char>, c: char) -> Option<Seq<char>>
    decreases s.len(),
{
    if s.len() == 0 {
        None
    } else if s[0] == c {
        Some(seq![])
    } else {
        match before_first(s.skip(1), c) {
            Some(rest) => Some(seq![s[0]] + rest),
            None => None,
        }
    }
}

/// The part of `s` behind its first `c`.
pub open spec fn after_first(s: Seq<char>, c: char) -> Option<Seq<char>>
    decreases s.len(),
{
    if s.len() == 0 {
        None
    } else if s[0] == c {
        Some(s.skip(1))
    } else {
        after_first(s.skip(1), c)
    }
}

/// What stands around the first `c` of `s`.
pub proof fn lemma_around_first(s: Seq<char>, c: char, i: int)
    requires
        0 <= i < s.len(),
        s[i] == c,
        !s.take(i).contains(c),
    ensures
        before_first(s, c) == Some(s.take(i)),
        after_first(s, c) == Some(s.skip(i + 1)),
    decreases i,
{
    if i == 0 {
        assert(s.take(0) =~= seq![]);
    } else {
        assert(s.take(i)[0] == s[0]);
        assert(s[0] != c);
        let rest = s.skip(1);
        let head = rest.take(i - 1);
        assert forall|k: int| 0 <= k < head.len() implies head[k] != c by {
            assert(s.take(i)[k + 1] == head[k]);
        }
        lemma_around_first(rest, c, i - 1);
        assert(seq![s[0]] + rest.take(i - 1) =~= s.take(i));
        assert(rest.skip(i) =~= s.skip(i + 1));
    }
}

/// What stands before the first `c` of `s` is shorter than `s`.
pub proof fn lemma_before_first(s: Seq<char>, c: char)
    ensures
        before_first(s, c) matches Some(before) ==> before.len() < s.len(),
    decreases s.len(),
{
    if s.len() > 0 {
        lemma_before_first(s.skip(1), c);
    }
}

/// What stands behind the first `c` of `s` is shorter than `s`, and there is something
/// behind one exactly where there is something before it.
pub proof fn lemma_after_first(s: Seq<char>, c: char)
    ensures
        after_first(s, c) matches Some(after) ==> after.len() < s.len(),
        after_first(s, c) is Some == before_first(s, c) is Some,
        after_first(s, c) is Some == s.contains(c),
    decreases s.len(),
{
    if s.len() > 0 {
        lemma_after_first(s.skip(1), c);
        if s.skip(1).contains(c) {
            let i = choose|i: int| 0 <= i < s.skip(1).len() && s.skip(1)[i] == c;
            assert(s[i + 1] == c);
        }
        if s.contains(c) && s[0] != c {
            let i = choose|i: int| 0 <= i < s.len() && s[i] == c;
            assert(s.skip(1)[i - 1] == c);
        }
        if s[0] == c {
            assert(s.contains(c));
        }
    }
}

proof fn lemma_no_first(s: Seq<char>, c: char)
    requires
        !s.contains(c),
    ensures
        before_first(s, c) is None,
        after_first(s, c) is None,
    decreases s.len(),
{
    if s.len() > 0 {
        assert(s[0] != c);
        let rest = s.skip(1);
        assert forall|k: int| 0 <= k < rest.len() implies rest[k] != c by {
            assert(rest[k] == s[k + 1]);
        }
        lemma_no_first(s.skip(1), c);
    }
}

/// The parts of `s` before and behind its first `c`.
pub fn split_at_first(s: &str, c: char) -> (parts: Option<(&str, &str)>)
    ensures
        match parts {
            Some((before, after)) => before_first(s@, c) == Some(before@) && after_first(s@, c)
                == Some(after@),
            None => before_first(s@, c) is None && after_first(s@, c) is None,
        },
{
    let len: usize = s.unicode_len();
    match find(s, c) {
        Some(i) => {
            proof {
                lemma_around_first(s@, c, i as int);
            }
            let before: &str = s.substring_char(0, i);
            let after: &str = s.substring_char(i + 1, len);
            assert(before@ =~= s@.take(i as int));
            assert(after@ =~= s@.skip(i + 1));
            Some((before, after))
        },
        None => {
            proof {
                lemma_no_first(s@, c);
            }
            None
        },
    }
}

/// The part of `s` behind the first place where `needle` stands in it.
pub open spec fn after_text(s: Seq<char>, needle: Seq<char>) -> Option<Seq<char>>
    decreases s.len(),
{
    if needle.is_prefix_of(s) {
        Some(s.skip(needle.len() as int))
    } else if s.len() == 0 {
        None
    } else {
        after_text(s.skip(1), needle)
    }
}

proof fn lemma_no_text(s: Seq<char>, needle: Seq<char>)
    requires
        s.len() < needle.len(),
    ensures
        after_text(s, needle) is None,
    decreases s.len(),
{
    if s.len() > 0 {
        lemma_no_text(s.skip(1), needle);
    }
}

/// The part of `s` behind the first place where `needle` stands in it.
pub fn behind<'a>(s: &'a str, needle: &str) -> (rest: Option<&'a str>)
    ensures
        optional_str(rest) == after_text(s@, needle@),
{
    let len: usize = s.unicode_len();
    let n: usize = needle.unicode_len();
    let mut i: usize = 0;
    assert(s@.skip(0) =~= s@);
    while n <= len && i <= len - n
        invariant
            n == needle@.len(),
            len == s@.len(),
            i <= len,
            i > 0 ==> n <= len && i <= len - n + 1,
            after_text(s@, needle@) == after_text(s@.skip(i as int), needle@),
        decreases len + 1 - i,
    {
        let ghost here = s@.skip(i as int);
        if same(s.substring_char(i, i + n), needle) {
            assert(here.take(n as int) =~= s@.subrange(i as int, i + n));
            assert(needle@.is_prefix_of(here));
            let rest: &str = s.substring_char(i + n, len);
            assert(rest@ =~= here.skip(n as int));
            return Some(rest);
        }
        proof {
            if needle@.is_prefix_of(here) {
                assert(s@.subrange(i as int, i + n) =~= needle@);
            }
        }
        if i == len {
            proof {
                assert(here.len() == 0);
            }
            return None;
        }
        assert(here.skip(1) =~= s@.skip(i + 1));
        i += 1;
    }
    proof {
        lemma_no_text(s@.skip(i as int), needle@);
    }
    None
}

/// Whether `a` stands before `b` in the order of their characters.
pub open spec fn precedes(a: Seq<char>, b: Seq<char>) -> bool
    decreases b.len(),
{
    if b.len() == 0 {
        false
    } else if a.len() == 0 {
        true
    } else if a[0] != b[0] {
        a[0] < b[0]
    } else {
        precedes(a.skip(1), b.skip(1))
    }
}

/// The order of texts is transitive.
pub proof fn lemma_precedes_transitive(a: Seq<char>, b: Seq<char>, c: Seq<char>)
    requires
        precedes(a, b),
        precedes(b, c),
    ensures
        precedes(a, c),
    decreases b.len(),
{
    if a.len() > 0 && a[0] == b[0] && b[0] == c[0] {
        lemma_precedes_transitive(a.skip(1), b.skip(1), c.skip(1));
    }
}

/// No text stands before itself.
pub proof fn lemma_precedes_irreflexive(a: Seq<char>)
    ensures
        !precedes(a, a),
    decreases a.len(),
{
    if a.len() > 0 {
        lemma_precedes_irreflexive(a.skip(1));
    }
}

/// Of two different texts one stands before the other.
pub proof fn lemma_precedes_total(a: Seq<char>, b: Seq<char>)
    ensures
        precedes(a, b) || precedes(b, a) || a == b,
    decreases a.len(),
{
    if a.len() > 0 && b.len() > 0 {
        if a[0] == b[0] {
            lemma_precedes_total(a.skip(1), b.skip(1));
            if a.skip(1) == b.skip(1) {
                assert(a =~= seq![a[0]] + a.skip(1));
                assert(b =~= seq![b[0]] + b.skip(1));
            }
        }
    } else if a.len() == 0 && b.len() == 0 {
        assert(a =~= b);
    }
}

/// Whether `a` stands before `b` in the order of their characters.
pub fn is_before(a: &str, b: &str) -> (before: bool)
    ensures
        before == precedes(a@, b@),
{
    let a_len: usize = a.unicode_len();
    let b_len: usize = b.unicode_len();
    let mut i: usize = 0;
    assert(a@.skip(0) =~= a@);
    assert(b@.skip(0) =~= b@);
    while i < b_len
        invariant
            i <= a_len == a@.len(),
            i <= b_len == b@.len(),
            precedes(a@, b@) == precedes(a@.skip(i as int), b@.skip(i as int)),
        decreases b_len - i,
    {
        let ghost a_rest = a@.skip(i as int);
        let ghost b_rest = b@.skip(i as int);
        if i == a_len {
            return true;
        }
        let x: char = a.get_char(i);
        let y: char = b.get_char(i);
        assert(a_rest[0] == x && b_rest[0] == y);
        if x != y {
            return x < y;
        }
        assert(a_rest.skip(1) =~= a@.skip(i + 1));
        assert(b_rest.skip(1) =~= b@.skip(i + 1));
        i += 1;
    }
    false
}

/// A line without the carriage return it ends with.
pub open spec fn without_return(line: Seq<char>) -> Seq<char> {
    if line.len() > 0 && line.last() == '\r' {
        line.drop_last()
    } else {
        line
    }
}

/// The lines of `s`: each ends with a newline, or a carriage return and a newline,
/// which are not part of it; the last one may end with nothing.
pub open spec fn lines_of(s: Seq<char>) -> Seq<Seq<char>>
    decreases s.len(),
    via lines_of_decreases
{
    if s.len() == 0 {
        seq![]
    } else {
        match before_first(s, '\n') {
            Some(line) => seq![without_return(line)] + lines_of(s.skip(line.len() as int + 1)),
            None => seq![s],
        }
    }
}

#[via_fn]
proof fn lines_of_decreases(s: Seq<char>) {
    lemma_before_first(s, '\n');
}

/// Split `s` into its lines.
pub fn lines(s: &str) -> (parts: Vec<String>)
    ensures
        list(parts@) == lines_of(s@),
{
    let len: usize = s.unicode_len();
    let mut parts: Vec<String> = Vec::new();
    let mut start: usize = 0;
    assert(s@.skip(0) =~= s@);
    assert(list(parts@) + lines_of(s@) =~= lines_of(s@));
    while start < len
        invariant
            start <= len == s@.len(),
            list(parts@) + lines_of(s@.skip(start as int)) == lines_of(s@),
        decreases len - start,
    {
        let ghost rest = s@.skip(start as int);
        let ghost before = list(parts@);
        let tail: &str = s.substring_char(start, len);
        assert(tail@ =~= rest);
        match find(tail, '\n') {
            Some(n) => {
                proof {
                    lemma_around_first(rest, '\n', n as int);
                }
                let with_return: bool = n > 0 && tail.get_char(n - 1) == '\r';
                let end: usize = if with_return {
                    n - 1
                } else {
                    n
                };
                let line: &str = tail.substring_char(0, end);
                proof {
                    let whole = rest.take(n as int);
                    if n > 0 {
                        assert(whole.last() == rest[n - 1]);
                    }
                    assert(line@ =~= without_return(whole));
                    assert(rest.skip(n + 1) =~= s@.skip(start + n + 1));
                }
                parts.push(line.to_owned());
                assert(list(parts@) =~= before.push(line@));
                assert(before.push(line@) + lines_of(s@.skip(start + n + 1)) =~= before + lines_of(
                    rest,
                ));
                start = start + n + 1;
            },
            None => {
                proof {
                    lemma_no_first(rest, '\n');
                }
                parts.push(tail.to_owned());
                assert(list(parts@) =~= before + lines_of(rest));
                return parts;
            },
        }
    }
    assert(s@.skip(start as int) =~= seq![]);
    assert(list(parts@) + lines_of(seq![]) =~= list(parts@));
    parts
}

/// Trimming cuts white space off both ends and nothing else: what is left begins and ends
/// with another character, and stands in the text as it was.
pub proof fn lemma_trimming_cuts_white_space_alone(s: &str, rest: &str, i: int, j: int)
    requires
        call_ensures(trim, (s,), rest),
        0 <= i <= j <= s@.len(),
        forall|k: int| 0 <= k < i ==> is_white_space(#[trigger] s@[k]),
        forall|k: int| j <= k < s@.len() ==> is_white_space(#[trigger] s@[k]),
        i < j ==> !is_white_space(s@[i]) && !is_white_space(s@[j - 1]),
        i == j ==> j == s@.len(),
    ensures
        rest@ == s@.subrange(i, j),
{
    lemma_start_trimmed(s@, i);
    let tail = s@.skip(i);
    assert forall|k: int| j - i <= k < tail.len() implies is_white_space(#[trigger] tail[k]) by {
        assert(tail[k] == s@[k + i]);
    }
    if i < j {
        assert(tail[j - i - 1] == s@[j - 1]);
    }
    lemma_end_trimmed(tail, j - i);
    assert(tail.take(j - i) =~= s@.subrange(i, j));
}

proof fn lemma_start_trimmed(s: Seq<char>, i: int)
    requires
        0 <= i <= s.len(),
        forall|k: int| 0 <= k < i ==> is_white_space(#[trigger] s[k]),
        i < s.len() ==> !is_white_space(s[i]),
    ensures
        trimmed_start(s) == s.skip(i),
    decreases i,
{
    if i > 0 {
        assert(is_white_space(s[0]));
        let rest = s.skip(1);
        assert forall|k: int| 0 <= k < i - 1 implies is_white_space(#[trigger] rest[k]) by {
            assert(rest[k] == s[k + 1]);
        }
        if i < s.len() {
            assert(rest[i - 1] == s[i]);
        }
        lemma_start_trimmed(rest, i - 1);
        assert(rest.skip(i - 1) =~= s.skip(i));
    } else {
        assert(s.skip(0) =~= s);
    }
}

proof fn lemma_end_trimmed(s: Seq<char>, j: int)
    requires
        0 <= j <= s.len(),
        forall|k: int| j <= k < s.len() ==> is_white_space(#[trigger] s[k]),
        j > 0 ==> !is_white_space(s[j - 1]),
    ensures
        trimmed_end(s) == s.take(j),
    decreases s.len(),
{
    if j < s.len() {
        assert(is_white_space(s[s.len() - 1]));
        let init = s.drop_last();
        assert forall|k: int| j <= k < init.len() implies is_white_space(#[trigger] init[k]) by {
            assert(init[k] == s[k]);
        }
        lemma_end_trimmed(init, j);
        assert(init.take(j) =~= s.take(j));
    } else {
        assert(s.take(j) =~= s);
    }
}

/// Blanks, tabs and line ends are white space; letters, digits and signs are not.
pub proof fn lemma_blanks_are_white_space(c: char, white: bool)
    requires
        call_ensures(white_space, (c,), white),
    ensures
        c == ' ' || c == '\t' || c == '\n' || c == '\r' ==> white,
        '!' <= c <= '~' ==> !white,
{
}

/// Numbers are read back as they are written.
pub proof fn lemma_numbers_are_read_as_they_are_written(
    n: u64,
    written: String,
    m: i64,
    signed: String,
)
    requires
        call_ensures(decimal, (n,), written),
        call_ensures(signed_decimal, (m,), signed),
    ensures
        integer_of(written@) == Some(n as int),
        integer_of(signed@) == Some(m as int),
        written@.len() > 1 ==> written@[0] != '0',
        forall|i: int| 0 <= i < written@.len() ==> '0' <= #[trigger] written@[i] <= '9',
{
    lemma_decimal(n as nat);
    if m < 0 {
        lemma_decimal((-m) as nat);
        let digits = decimal_of((-m) as nat);
        assert(signed@ == seq!['-'] + digits);
        assert(signed@.skip(1) =~= digits);
        assert(signed@[0] == '-');
    } else {
        lemma_decimal(m as nat);
    }
}

proof fn lemma_decimal(n: nat)
    ensures
        decimal_of(n).len() > 0,
        all_digits(decimal_of(n)),
        digits_value(decimal_of(n)) == n,
        '0' <= decimal_of(n)[0] <= '9',
        n > 0 ==> decimal_of(n)[0] != '0',
        n >= 10 ==> decimal_of(n).len() > 1,
        decimal_of(n).len() > 1 ==> n >= 10,
    decreases n,
{
    if n < 10 {
        let s = decimal_of(n);
        assert(s.len() == 1);
        assert(s.drop_last().len() == 0);
        assert(s.last() == digit(n));
        assert(digits_value(s.drop_last()) == 0);
        assert(digit_value(digit(n)) == n);
    } else {
        lemma_decimal(n / 10);
        let s = decimal_of(n);
        let init = decimal_of(n / 10);
        assert(s.drop_last() =~= init);
        assert(s.last() == digit(n % 10));
        assert(digit_value(digit(n % 10)) == n % 10);
        assert(s[0] == init[0]);
        assert forall|i: int| 0 <= i < s.len() implies '0' <= #[trigger] s[i] <= '9' by {
            if i < init.len() {
                assert(s[i] == init[i]);
            }
        }
    }
}

/// A row of digits has the value that place notation gives it, and what is no number has
/// none. A sign before it counts.
pub proof fn lemma_digits_count_by_their_place(s: &str, number: Option<i32>, c: char)
    requires
        call_ensures(parse_i32, (s,), number),
    ensures
        s@.len() == 0 ==> number is None,
        s@ == seq![c] && '0' <= c <= '9' ==> number == Some((c as int - '0' as int) as i32),
        s@ == seq![c] && !('0' <= c <= '9') ==> number is None,
        s@.contains(' ') ==> number is None,
        number is Some && s@[0] == '-' ==> number->0 <= 0,
        number is Some && s@[0] != '-' ==> number->0 >= 0,
{
    if s@ == seq![c] {
        assert(s@.len() == 1);
        assert(s@.drop_last().len() == 0);
        assert(digits_value(s@.drop_last()) == 0);
        assert(s@.last() == c);
        if '0' <= c <= '9' {
            assert(all_digits(s@));
            assert(integer_of(s@) == Some(digits_value(s@) as int));
        } else if is_signed(s@) {
            assert(s@.skip(1).len() == 0);
        } else {
            assert(!('0' <= s@[0] <= '9'));
        }
    }
    if s@.contains(' ') {
        let k = choose|k: int| 0 <= k < s@.len() && s@[k] == ' ';
        let digits = if is_signed(s@) {
            s@.skip(1)
        } else {
            s@
        };
        if is_signed(s@) {
            assert(k >= 1);
            assert(digits[k - 1] == ' ');
        } else {
            assert(digits[k] == ' ');
        }
        assert(!all_digits(digits));
    }
}

/// A text stands before another exactly where it is a beginning of it, or where it has
/// the smaller character at the first place where they differ.
pub proof fn lemma_texts_are_ordered_by_their_first_difference(
    a: &str,
    b: &str,
    before: bool,
    i: int,
)
    requires
        call_ensures(is_before, (a, b), before),
        0 <= i <= a@.len(),
        i <= b@.len(),
        a@.take(i) == b@.take(i),
    ensures
        i < a@.len() && i < b@.len() && a@[i] != b@[i] ==> (before <==> a@[i] < b@[i]),
        i == a@.len() && i < b@.len() ==> before,
        i == b@.len() ==> !before,
{
    lemma_first_difference(a@, b@, i);
}

proof fn lemma_first_difference(a: Seq<char>, b: Seq<char>, i: int)
    requires
        0 <= i <= a.len(),
        i <= b.len(),
        a.take(i) == b.take(i),
    ensures
        i < a.len() && i < b.len() && a[i] != b[i] ==> (precedes(a, b) <==> a[i] < b[i]),
        i == a.len() && i < b.len() ==> precedes(a, b),
        i == b.len() ==> !precedes(a, b),
    decreases i,
{
    if i > 0 {
        assert(a.take(i)[0] == b.take(i)[0]);
        assert(a.take(i)[0] == a[0] && b.take(i)[0] == b[0]);
        assert(a.skip(1).take(i - 1) =~= a.take(i).skip(1));
        assert(b.skip(1).take(i - 1) =~= b.take(i).skip(1));
        lemma_first_difference(a.skip(1), b.skip(1), i - 1);
    }
}

/// A text is split at its first such character, and put together again is what it was.
pub proof fn lemma_a_split_text_is_the_text(
    s: &str,
    c: char,
    before: &str,
    after: &str,
)
    requires
        call_ensures(split_at_first, (s, c), Some((before, after))),
    ensures
        s@ == before@ + seq![c] + after@,
        !before@.contains(c),
{
    lemma_put_together(s@, c);
}

proof fn lemma_put_together(s: Seq<char>, c: char)
    ensures
        before_first(s, c) is Some <==> after_first(s, c) is Some,
        before_first(s, c) is Some ==> s == before_first(s, c)->0 + seq![c] + after_first(s, c)->0
            && !before_first(s, c)->0.contains(c),
    decreases s.len(),
{
    if s.len() > 0 {
        if s[0] == c {
            assert(s =~= seq![c] + s.skip(1));
            assert(Seq::<char>::empty() + seq![c] =~= seq![c]);
        } else {
            lemma_put_together(s.skip(1), c);
            if before_first(s.skip(1), c) is Some {
                let rest = before_first(s.skip(1), c)->0;
                let after = after_first(s, c)->0;
                assert(s =~= seq![s[0]] + s.skip(1));
                assert(seq![s[0]] + rest + seq![c] + after =~= seq![s[0]] + (rest + seq![c]
                    + after));
                let whole = seq![s[0]] + rest;
                assert forall|k: int| 0 <= k < whole.len() implies whole[k] != c by {
                    if k > 0 {
                        assert(whole[k] == rest[k - 1]);
                        assert(rest.contains(rest[k - 1]));
                    }
                }
            }
        }
    }
}

/// A text that does not hold the character is not split, and one that does is.
pub proof fn lemma_a_text_is_split_where_it_can_be(
    s: &str,
    c: char,
    parts: Option<(&str, &str)>,
    place: Option<usize>,
)
    requires
        call_ensures(split_at_first, (s, c), parts),
        call_ensures(find, (s, c), place),
    ensures
        parts is Some <==> s@.contains(c),
        place is Some <==> s@.contains(c),
        parts matches Some((before, after)) ==> before@.len() == place->0,
{
    lemma_after_first(s@, c);
    if place is Some {
        lemma_around_first(s@, c, place->0 as int);
        assert(s@.contains(s@[place->0 as int]));
    }
}

/// What stands behind a text is the rest after a place where it stands, and there is such
/// a rest exactly where the text stands somewhere.
pub proof fn lemma_the_rest_stands_behind(s: &str, needle: &str, rest: Option<&str>, found: bool)
    requires
        call_ensures(behind, (s, needle), rest),
        call_ensures(contains, (s, needle), found),
    ensures
        rest is Some <==> found,
        rest is Some ==> (needle@ + rest->0@).is_suffix_of(s@),
{
    lemma_text_behind(s@, needle@);
}

proof fn lemma_text_behind(s: Seq<char>, needle: Seq<char>)
    ensures
        after_text(s, needle) is Some <==> occurs_in(needle, s),
        after_text(s, needle) is Some ==> (needle + after_text(s, needle)->0).is_suffix_of(s),
    decreases s.len(),
{
    if needle.is_prefix_of(s) {
        assert(s.subrange(0, 0int + needle.len()) =~= needle);
        assert(needle + s.skip(needle.len() as int) =~= s);
        assert(s.subrange(s.len() - s.len(), s.len() as int) =~= s);
    } else if s.len() > 0 {
        let tail = s.skip(1);
        lemma_text_behind(tail, needle);
        if occurs_in(needle, tail) {
            let i = choose|i: int|
                0 <= i <= tail.len() - needle.len() && #[trigger] tail.subrange(
                    i,
                    i + needle.len(),
                ) == needle;
            assert(s.subrange(i + 1, i + 1 + needle.len()) =~= tail.subrange(i, i + needle.len()));
            let found = needle + after_text(s, needle)->0;
            assert(s.subrange(s.len() - found.len(), s.len() as int) =~= tail.subrange(
                tail.len() - found.len(),
                tail.len() as int,
            ));
        }
        if occurs_in(needle, s) {
            let i = choose|i: int|
                0 <= i <= s.len() - needle.len() && #[trigger] s.subrange(i, i + needle.len())
                    == needle;
            if i == 0 {
                assert(needle.is_prefix_of(s));
            }
            assert(tail.subrange(i - 1, i - 1 + needle.len()) =~= s.subrange(
                i,
                i + needle.len(),
            ));
        }
    } else {
        if occurs_in(needle, s) {
            let i = choose|i: int|
                0 <= i <= s.len() - needle.len() && #[trigger] s.subrange(i, i + needle.len())
                    == needle;
            assert(needle =~= s);
        }
    }
}

/// No word holds white space, none is empty, and a text without any is its own only word.
pub proof fn lemma_words_hold_no_white_space(s: &str, parts: Vec<String>, i: int, k: int)
    requires
        call_ensures(words, (s,), parts),
    ensures
        0 <= i < parts@.len() ==> parts@[i]@.len() > 0,
        0 <= i < parts@.len() && 0 <= k < parts@[i]@.len() ==> !is_white_space(parts@[i]@[k]),
        s@.len() > 0 && (forall|j: int| 0 <= j < s@.len() ==> !is_white_space(#[trigger] s@[j]))
            ==> parts@.len() == 1 && parts@[0]@ == s@,
{
    let shown = list(parts@);
    assert(shown.len() == parts@.len());
    if 0 <= i < parts@.len() {
        assert(shown[i] == parts@[i]@);
        lemma_word_at(s@, i);
    }
    if s@.len() > 0 && (forall|j: int| 0 <= j < s@.len() ==> !is_white_space(#[trigger] s@[j])) {
        lemma_whole_word(s@);
        assert(!is_white_space(s@[0]));
        assert(s@.take(s@.len() as int) =~= s@);
        assert(s@.skip(s@.len() as int).len() == 0);
        assert(words_of(s@.skip(s@.len() as int)) =~= seq![]);
        assert(words_of(s@) =~= seq![s@]);
        assert(shown[0] == parts@[0]@);
    }
}

proof fn lemma_whole_word(s: Seq<char>)
    requires
        forall|j: int| 0 <= j < s.len() ==> !is_white_space(#[trigger] s[j]),
    ensures
        word_len(s) == s.len(),
    decreases s.len(),
{
    if s.len() > 0 {
        let rest = s.skip(1);
        assert(!is_white_space(s[0]));
        assert forall|j: int| 0 <= j < rest.len() implies !is_white_space(#[trigger] rest[j]) by {
            assert(rest[j] == s[j + 1]);
        }
        lemma_whole_word(rest);
    }
}

proof fn lemma_word_at(s: Seq<char>, i: int)
    requires
        0 <= i < words_of(s).len(),
    ensures
        words_of(s)[i].len() > 0,
        forall|k: int| 0 <= k < words_of(s)[i].len() ==> !is_white_space(#[trigger] words_of(s)[i][k]),
    decreases s.len(),
{
    if s.len() > 0 {
        if is_white_space(s[0]) {
            lemma_word_at(s.skip(1), i);
        } else {
            lemma_word_len(s);
            lemma_word_chars(s);
            if i > 0 {
                lemma_word_at(s.skip(word_len(s) as int), i - 1);
            } else {
                let word = s.take(word_len(s) as int);
                assert(words_of(s)[0] == word);
                assert forall|k: int| 0 <= k < word.len() implies !is_white_space(
                    #[trigger] word[k],
                ) by {
                    assert(word[k] == s[k]);
                }
            }
        }
    }
}

proof fn lemma_word_chars(s: Seq<char>)
    ensures
        word_len(s) <= s.len(),
        forall|k: int| 0 <= k < word_len(s) ==> !is_white_space(#[trigger] s[k]),
        s.len() > 0 && !is_white_space(s[0]) ==> word_len(s) > 0,
    decreases s.len(),
{
    if s.len() > 0 && !is_white_space(s[0]) {
        let rest = s.skip(1);
        lemma_word_chars(rest);
        assert forall|k: int| 0 <= k < word_len(s) implies !is_white_space(#[trigger] s[k]) by {
            if k > 0 {
                assert(rest[k - 1] == s[k]);
            }
        }
    }
}

/// No line holds a newline, and a text without one is its own only line.
pub proof fn lemma_lines_hold_no_newline(s: &str, parts: Vec<String>, i: int)
    requires
        call_ensures(lines, (s,), parts),
    ensures
        0 <= i < parts@.len() ==> !parts@[i]@.contains('\n'),
        s@.len() > 0 && !s@.contains('\n') ==> parts@.len() == 1 && parts@[0]@ == s@,
        s@.len() == 0 ==> parts@.len() == 0,
{
    let shown = list(parts@);
    assert(shown.len() == parts@.len());
    if 0 <= i < parts@.len() {
        assert(shown[i] == parts@[i]@);
        lemma_line_at(s@, i);
    }
    if s@.len() > 0 && !s@.contains('\n') {
        lemma_no_first(s@, '\n');
        assert(shown[0] == parts@[0]@);
    }
}

proof fn lemma_line_at(s: Seq<char>, i: int)
    requires
        0 <= i < lines_of(s).len(),
    ensures
        !lines_of(s)[i].contains('\n'),
    decreases s.len(),
{
    lemma_put_together(s, '\n');
    lemma_after_first(s, '\n');
    if s.len() > 0 && before_first(s, '\n') is Some {
        let line = before_first(s, '\n')->0;
        if i == 0 {
            let cut = without_return(line);
            assert forall|k: int| 0 <= k < cut.len() implies cut[k] != '\n' by {
                assert(cut[k] == line[k]);
                assert(line.contains(line[k]));
            }
        } else {
            lemma_before_first(s, '\n');
            lemma_line_at(s.skip(line.len() as int + 1), i - 1);
        }
    } else if s.len() > 0 {
        assert(lines_of(s)[0] == s);
    }
}

/// A prefix and a suffix are cut off where they stand, and what is left is the rest.
pub proof fn lemma_what_is_cut_off_and_the_rest_are_the_whole(
    s: &str,
    prefix: &str,
    suffix: &str,
    behind_it: Option<&str>,
    before_it: Option<&str>,
)
    requires
        call_ensures(strip_prefix, (s, prefix), behind_it),
        call_ensures(strip_suffix, (s, suffix), before_it),
    ensures
        behind_it is Some ==> s@ == prefix@ + behind_it->0@,
        before_it is Some ==> s@ == before_it->0@ + suffix@,
{
    if behind_it is Some {
        assert(s@ =~= prefix@ + behind_it->0@);
    }
    if before_it is Some {
        assert(s@ =~= before_it->0@ + suffix@);
    }
}

/// The words of a text come in the order in which they stand in it.
pub proof fn lemma_words_come_in_order(
    s: &str,
    parts: Vec<String>,
    rest: &str,
    behind_it: Vec<String>,
    word: Seq<char>,
    blank: char,
    i: int,
)
    requires
        call_ensures(words, (s,), parts),
        call_ensures(words, (rest,), behind_it),
        s@ == word + seq![blank] + rest@,
        is_white_space(blank),
        word.len() > 0,
        forall|k: int| 0 <= k < word.len() ==> !is_white_space(#[trigger] word[k]),
    ensures
        parts@.len() == behind_it@.len() + 1,
        parts@[0]@ == word,
        0 <= i < behind_it@.len() ==> parts@[i + 1]@ == behind_it@[i]@,
{
    let n = word.len() as int;
    lemma_word_ends(s@, n);
    let tail = s@.skip(n);
    assert(s@[0] == word[0]);
    assert(s@.take(n) =~= word);
    assert(tail[0] == blank);
    assert(tail.skip(1) =~= rest@);
    assert(words_of(tail) == words_of(rest@));
    assert(words_of(s@) == seq![word] + words_of(tail));
    let shown = list(parts@);
    let later = list(behind_it@);
    assert(shown.len() == parts@.len() && later.len() == behind_it@.len());
    assert(shown[0] == parts@[0]@);
    if 0 <= i < behind_it@.len() {
        assert(shown[i + 1] == parts@[i + 1]@);
        assert(later[i] == behind_it@[i]@);
    }
}

proof fn lemma_word_ends(s: Seq<char>, n: int)
    requires
        0 <= n < s.len(),
        is_white_space(s[n]),
        forall|k: int| 0 <= k < n ==> !is_white_space(#[trigger] s[k]),
    ensures
        word_len(s) == n,
    decreases n,
{
    if n > 0 {
        assert(!is_white_space(s[0]));
        let rest = s.skip(1);
        assert forall|k: int| 0 <= k < n - 1 implies !is_white_space(#[trigger] rest[k]) by {
            assert(rest[k] == s[k + 1]);
        }
        assert(rest[n - 1] == s[n]);
        lemma_word_ends(rest, n - 1);
    }
}

/// The lines of a text come in the order in which they stand in it, each without the
/// carriage return it ends with.
pub proof fn lemma_lines_come_in_order(
    s: &str,
    parts: Vec<String>,
    rest: &str,
    behind_it: Vec<String>,
    line: Seq<char>,
    i: int,
)
    requires
        call_ensures(lines, (s,), parts),
        call_ensures(lines, (rest,), behind_it),
        s@ == line + seq!['\n'] + rest@,
        !line.contains('\n'),
    ensures
        parts@.len() == behind_it@.len() + 1,
        line.len() == 0 || line.last() != '\r' ==> parts@[0]@ == line,
        line.len() > 0 && line.last() == '\r' ==> parts@[0]@ == line.drop_last(),
        0 <= i < behind_it@.len() ==> parts@[i + 1]@ == behind_it@[i]@,
{
    let n = line.len() as int;
    assert(s@[n] == '\n');
    assert(s@.take(n) =~= line);
    lemma_around_first(s@, '\n', n);
    assert(s@.skip(n + 1) =~= rest@);
    assert(lines_of(s@) == seq![without_return(line)] + lines_of(rest@));
    let shown = list(parts@);
    let later = list(behind_it@);
    assert(shown.len() == parts@.len() && later.len() == behind_it@.len());
    assert(shown[0] == parts@[0]@);
    if 0 <= i < behind_it@.len() {
        assert(shown[i + 1] == parts@[i + 1]@);
        assert(later[i] == behind_it@[i]@);
    }
}

} // verus!
