//! Text as sequences of characters, and as the bytes that encode them.

use vstd::prelude::*;
use vstd::string::*;
use vstd::utf8::*;

verus! {

/// Whether two string slices hold the same text.
pub fn str_eq(a: &str, b: &str) -> (r: bool)
    ensures
        r == (a@ == b@),
{
    let x = a.to_owned();
    let y = b.to_owned();
    x == y
}

/// The characters of `s`.
pub fn chars_of(s: &str) -> (v: Vec<char>)
    ensures
        v@ == s@,
{
    let mut v: Vec<char> = Vec::new();
    for c in it: s.chars()
        invariant
            it.seq() == s@,
            v@ == s@.take(it.index() as int),
    {
        v.push(c);
        assert(s@.take(it.index() + 1) == s@.take(it.index() as int).push(s@[it.index() as int]));
    }
    assert(s@.take(s@.len() as int) == s@);
    v
}

/// Appends the characters of `v` from `from` up to `to` to `out`.
pub fn push_chars(out: &mut String, v: &Vec<char>, from: usize, to: usize)
    requires
        from <= to <= v@.len(),
    ensures
        final(out)@ == old(out)@ + v@.subrange(from as int, to as int),
{
    let mut i: usize = from;
    assert(out@ == old(out)@ + v@.subrange(from as int, from as int));
    while i < to
        invariant
            from <= i <= to,
            to <= v@.len(),
            out@ == old(out)@ + v@.subrange(from as int, i as int),
        decreases to - i,
    {
        out.push(v[i]);
        assert(v@.subrange(from as int, i + 1) == v@.subrange(from as int, i as int).push(
            v@[i as int],
        ));
        i += 1;
    }
}

/// The text that the characters of `v` make.
pub fn string_of(v: &Vec<char>) -> (s: String)
    ensures
        s@ == v@,
{
    let mut s = String::new();
    push_chars(&mut s, v, 0, v.len());
    assert(v@.subrange(0, v@.len() as int) == v@);
    s
}

/// `a` followed by `b`.
pub fn concat(a: &str, b: &str) -> (s: String)
    ensures
        s@ == a@ + b@,
{
    let mut s = a.to_owned();
    s.append(b);
    s
}

/// `a`, `b` and `c`, one after the other.
pub fn concat3(a: &str, b: &str, c: &str) -> (s: String)
    ensures
        s@ == a@ + b@ + c@,
{
    let mut s = a.to_owned();
    s.append(b);
    s.append(c);
    s
}

/// Whether `needle` stands in `hay` at offset `at`.
pub open spec fn occurs_at(hay: Seq<char>, needle: Seq<char>, at: int) -> bool {
    0 <= at && at + needle.len() <= hay.len() && hay.subrange(at, at + needle.len()) == needle
}

/// Whether `s` begins with `prefix`.
pub open spec fn begins_with(s: Seq<char>, prefix: Seq<char>) -> bool {
    occurs_at(s, prefix, 0)
}

/// Whether `s` ends with `suffix`.
pub open spec fn finishes_with(s: Seq<char>, suffix: Seq<char>) -> bool {
    occurs_at(s, suffix, s.len() - suffix.len())
}

/// Whether `needle` stands in `hay` at offset `at`.
pub fn matches_at(hay: &Vec<char>, needle: &Vec<char>, at: usize) -> (r: bool)
    ensures
        r == occurs_at(hay@, needle@, at as int),
{
    if needle.len() > hay.len() || at > hay.len() - needle.len() {
        return false;
    }
    let mut i: usize = 0;
    while i < needle.len()
        invariant
            i <= needle@.len(),
            at + needle@.len() <= hay@.len(),
            hay@.len() <= usize::MAX,
            hay@.subrange(at as int, at + i) == needle@.take(i as int),
        decreases needle.len() - i,
    {
        if hay[at + i] != needle[i] {
            assert(hay@.subrange(at as int, at + needle@.len())[i as int] != needle@[i as int]);
            return false;
        }
        assert(hay@.subrange(at as int, at + i + 1) == hay@.subrange(at as int, at + i).push(
            hay@[at + i],
        ));
        assert(needle@.take(i + 1) == needle@.take(i as int).push(needle@[i as int]));
        i += 1;
    }
    assert(needle@.take(needle@.len() as int) == needle@);
    true
}

/// Whether `s` begins with `prefix`.
pub fn starts_with(s: &str, prefix: &str) -> (r: bool)
    ensures
        r == begins_with(s@, prefix@),
{
    let hay = chars_of(s);
    let needle = chars_of(prefix);
    matches_at(&hay, &needle, 0)
}

/// Whether `s` ends with `suffix`.
pub fn ends_with(s: &str, suffix: &str) -> (r: bool)
    ensures
        r == finishes_with(s@, suffix@),
{
    let hay = chars_of(s);
    let needle = chars_of(suffix);
    if needle.len() > hay.len() {
        return false;
    }
    matches_at(&hay, &needle, hay.len() - needle.len())
}

/// The first offset at or behind `from` at which `needle` stands in `hay`.
pub open spec fn first_occurrence(hay: Seq<char>, needle: Seq<char>, from: int) -> Option<int>
    decreases hay.len() - from,
{
    if from < 0 || from + needle.len() > hay.len() {
        None
    } else if occurs_at(hay, needle, from) {
        Some(from)
    } else if from >= hay.len() {
        None
    } else {
        first_occurrence(hay, needle, from + 1)
    }
}

/// The first offset at or behind `from` at which `needle` stands in `hay`.
pub fn find_from(hay: &Vec<char>, needle: &Vec<char>, from: usize) -> (r: Option<usize>)
    ensures
        match r {
            Some(at) => first_occurrence(hay@, needle@, from as int) == Some(at as int),
            None => first_occurrence(hay@, needle@, from as int) is None,
        },
{
    if needle.len() > hay.len() {
        return None;
    }
    let last = hay.len() - needle.len();
    let mut i: usize = from;
    while i <= last
        invariant
            from <= i,
            last == hay@.len() - needle@.len(),
            first_occurrence(hay@, needle@, from as int) == first_occurrence(
                hay@,
                needle@,
                i as int,
            ),
        decreases last + 1 - i,
    {
        if matches_at(hay, needle, i) {
            return Some(i);
        }
        if i == last {
            reveal_with_fuel(first_occurrence, 2);
            return None;
        }
        i += 1;
    }
    None
}

/// The last offset at which `needle` stands in `hay`, looking no further than `upto`.
pub open spec fn last_occurrence(hay: Seq<char>, needle: Seq<char>, upto: int) -> Option<int>
    decreases upto + 1,
{
    if upto < 0 {
        None
    } else if occurs_at(hay, needle, upto) {
        Some(upto)
    } else {
        last_occurrence(hay, needle, upto - 1)
    }
}

/// The last occurrence of `needle` in `hay` lies inside `hay`, and `needle` stands there.
pub proof fn lemma_last_occurrence_bounds(hay: Seq<char>, needle: Seq<char>, upto: int)
    ensures
        last_occurrence(hay, needle, upto) matches Some(at) ==> 0 <= at <= upto && occurs_at(
            hay,
            needle,
            at,
        ),
    decreases upto + 1,
{
    if upto < 0 {
    } else if occurs_at(hay, needle, upto) {
    } else {
        lemma_last_occurrence_bounds(hay, needle, upto - 1);
    }
}

/// The last offset at which `needle` stands in `hay`.
pub fn find_last(hay: &Vec<char>, needle: &Vec<char>) -> (r: Option<usize>)
    ensures
        match r {
            Some(at) => last_occurrence(hay@, needle@, hay@.len() as int) == Some(at as int),
            None => last_occurrence(hay@, needle@, hay@.len() as int) is None,
        },
{
    let mut i: usize = hay.len();
    loop
        invariant
            i <= hay@.len(),
            last_occurrence(hay@, needle@, hay@.len() as int) == last_occurrence(
                hay@,
                needle@,
                i as int,
            ),
        decreases i,
    {
        if matches_at(hay, needle, i) {
            return Some(i);
        }
        if i == 0 {
            reveal_with_fuel(last_occurrence, 2);
            return None;
        }
        i -= 1;
    }
}

/// `hay` from offset `from` on, with every occurrence of `needle` replaced by `with`:
/// the occurrences are taken from the left, and none reaches into one before it.
pub open spec fn replaced_from(hay: Seq<char>, needle: Seq<char>, with: Seq<char>, from: int) -> Seq<
    char,
>
    decreases hay.len() - from,
{
    if needle.len() == 0 || from < 0 || from > hay.len() {
        hay.subrange(from, hay.len() as int)
    } else {
        match first_occurrence(hay, needle, from) {
            Some(at) => if from <= at && at + needle.len() <= hay.len() {
                hay.subrange(from, at) + with + replaced_from(hay, needle, with, at + needle.len())
            } else {
                hay.subrange(from, hay.len() as int)
            },
            None => hay.subrange(from, hay.len() as int),
        }
    }
}

/// `hay` with every occurrence of `needle` replaced by `with`; an empty `needle` occurs
/// nowhere.
pub open spec fn replaced(hay: Seq<char>, needle: Seq<char>, with: Seq<char>) -> Seq<char> {
    replaced_from(hay, needle, with, 0)
}

/// The first occurrence of `needle` in `hay` from `from` on lies inside `hay`, and
/// `needle` stands there.
pub proof fn lemma_first_occurrence_bounds(hay: Seq<char>, needle: Seq<char>, from: int)
    ensures
        first_occurrence(hay, needle, from) matches Some(at) ==> from <= at && occurs_at(
            hay,
            needle,
            at,
        ),
    decreases hay.len() - from,
{
    if from < 0 || from + needle.len() > hay.len() {
    } else if occurs_at(hay, needle, from) {
    } else if from >= hay.len() {
    } else {
        lemma_first_occurrence_bounds(hay, needle, from + 1);
    }
}

/// `hay` with every occurrence of `needle` replaced by `with`.
pub fn replace_all(hay: &str, needle: &str, with: &str) -> (r: String)
    ensures
        r@ == replaced(hay@, needle@, with@),
{
    let h = chars_of(hay);
    let n = chars_of(needle);
    let mut out = String::new();
    if n.len() == 0 {
        push_chars(&mut out, &h, 0, h.len());
        return out;
    }
    let mut from: usize = 0;
    let total = h.len();
    loop
        invariant
            from <= h@.len(),
            total == h@.len(),
            h@ == hay@,
            n@ == needle@,
            n@.len() > 0,
            out@ + replaced_from(hay@, needle@, with@, from as int) == replaced(
                hay@,
                needle@,
                with@,
            ),
        decreases h@.len() - from,
    {
        proof {
            lemma_first_occurrence_bounds(hay@, needle@, from as int);
        }
        match find_from(&h, &n, from) {
            Some(at) => {
                let ghost before = out@;
                push_chars(&mut out, &h, from, at);
                out.append(with);
                assert(out@ + replaced_from(hay@, needle@, with@, at + n@.len()) =~= before
                    + replaced_from(hay@, needle@, with@, from as int));
                from = at + n.len();
            },
            None => {
                let ghost before = out@;
                push_chars(&mut out, &h, from, h.len());
                assert(out@ =~= before + replaced_from(hay@, needle@, with@, from as int));
                return out;
            },
        }
    }
}

/// The parts of `parts`, with `sep` between each two.
pub open spec fn joined(parts: Seq<Seq<char>>, sep: Seq<char>) -> Seq<char>
    decreases parts.len(),
{
    if parts.len() == 0 {
        Seq::empty()
    } else if parts.len() == 1 {
        parts[0]
    } else {
        joined(parts.drop_last(), sep) + sep + parts.last()
    }
}

/// The texts that `v` holds.
pub open spec fn string_views(v: Seq<String>) -> Seq<Seq<char>> {
    Seq::new(v.len(), |i: int| v[i]@)
}

/// The parts of `parts`, with `sep` between each two.
pub fn join(parts: &Vec<String>, sep: &str) -> (r: String)
    ensures
        r@ == joined(string_views(parts@), sep@),
{
    let mut out = String::new();
    let mut i: usize = 0;
    let ghost views = string_views(parts@);
    while i < parts.len()
        invariant
            i <= parts@.len(),
            views == string_views(parts@),
            out@ == joined(views.take(i as int), sep@),
        decreases parts.len() - i,
    {
        assert(views.take(i + 1).drop_last() == views.take(i as int));
        assert(views.take(i + 1).last() == parts@[i as int]@);
        if i > 0 {
            out.append(sep);
        }
        out.append(parts[i].as_str());
        assert(out@ =~= joined(views.take(i + 1), sep@));
        i += 1;
    }
    assert(views.take(parts@.len() as int) == views);
    out
}

/// The decimal digit that stands for `d`.
pub open spec fn digit(d: nat) -> char {
    if d == 0 {
        '0'
    } else if d == 1 {
        '1'
    } else if d == 2 {
        '2'
    } else if d == 3 {
        '3'
    } else if d == 4 {
        '4'
    } else if d == 5 {
        '5'
    } else if d == 6 {
        '6'
    } else if d == 7 {
        '7'
    } else if d == 8 {
        '8'
    } else {
        '9'
    }
}

/// `n` in decimal digits, without leading zeros.
pub open spec fn decimal(n: nat) -> Seq<char>
    decreases n,
{
    if n < 10 {
        seq![digit(n)]
    } else {
        decimal(n / 10).push(digit(n % 10))
    }
}

/// `n` in decimal digits, behind `-` where it is negative.
pub open spec fn signed_decimal(n: int) -> Seq<char> {
    if n < 0 {
        seq!['-'] + decimal((-n) as nat)
    } else {
        decimal(n as nat)
    }
}

fn digit_char(d: u64) -> (c: char)
    requires
        d < 10,
    ensures
        c == digit(d as nat),
{
    if d == 0 {
        '0'
    } else if d == 1 {
        '1'
    } else if d == 2 {
        '2'
    } else if d == 3 {
        '3'
    } else if d == 4 {
        '4'
    } else if d == 5 {
        '5'
    } else if d == 6 {
        '6'
    } else if d == 7 {
        '7'
    } else if d == 8 {
        '8'
    } else {
        '9'
    }
}

/// Appends `n` in decimal digits to `out`.
pub fn push_decimal(out: &mut String, n: u64)
    ensures
        final(out)@ == old(out)@ + decimal(n as nat),
    decreases n,
{
    if n >= 10 {
        push_decimal(out, n / 10);
    }
    out.push(digit_char(n % 10));
    assert(out@ =~= old(out)@ + decimal(n as nat));
}

/// `n` in decimal digits.
pub fn decimal_string(n: u64) -> (s: String)
    ensures
        s@ == decimal(n as nat),
{
    let mut s = String::new();
    push_decimal(&mut s, n);
    assert(s@ =~= decimal(n as nat));
    s
}

/// Appends `n` in decimal digits to `out`, behind `-` where it is negative.
pub fn push_signed_decimal(out: &mut String, n: i64)
    ensures
        final(out)@ == old(out)@ + signed_decimal(n as int),
{
    if n < 0 {
        out.push('-');
        let magnitude: u64 = if n == i64::MIN {
            9223372036854775808u64
        } else {
            (-n) as u64
        };
        push_decimal(out, magnitude);
        assert(out@ =~= old(out)@ + signed_decimal(n as int));
    } else {
        push_decimal(out, n as u64);
    }
}

/// `n` in decimal digits, behind `-` where it is negative.
pub fn signed_decimal_string(n: i64) -> (s: String)
    ensures
        s@ == signed_decimal(n as int),
{
    let mut s = String::new();
    push_signed_decimal(&mut s, n);
    assert(s@ =~= signed_decimal(n as int));
    s
}

/// Whether `c` is one of the ten decimal digits.
pub open spec fn is_digit(c: char) -> bool {
    '0' <= c && c <= '9'
}

/// The number that the decimal digits of `s` stand for.
pub open spec fn digits_value(s: Seq<char>) -> nat
    decreases s.len(),
{
    if s.len() == 0 {
        0
    } else {
        digits_value(s.drop_last()) * 10 + ((s.last() as u32 - '0' as u32) as nat)
    }
}

/// Whether `s` holds decimal digits and nothing else.
pub open spec fn all_digits(s: Seq<char>) -> bool {
    forall|i: int| 0 <= i < s.len() ==> is_digit(#[trigger] s[i])
}

/// The number that `s` stands for, where it is a number without a sign.
pub open spec fn parse_digits(s: Seq<char>) -> Option<nat> {
    if s.len() > 0 && all_digits(s) {
        Some(digits_value(s))
    } else {
        None
    }
}

/// The `u32` that `s` stands for: decimal digits, behind `+` or not, whose number a
/// `u32` can hold.
pub open spec fn parse_u32_spec(s: Seq<char>) -> Option<u32> {
    let digits = if s.len() > 0 && s[0] == '+' {
        s.drop_first()
    } else {
        s
    };
    match parse_digits(digits) {
        Some(n) => if n <= u32::MAX {
            Some(n as u32)
        } else {
            None
        },
        None => None,
    }
}

/// The `i64` that `s` stands for: decimal digits, behind `+` or `-` or neither, whose
/// number an `i64` can hold.
pub open spec fn parse_i64_spec(s: Seq<char>) -> Option<i64> {
    let negative = s.len() > 0 && s[0] == '-';
    let digits = if s.len() > 0 && (s[0] == '+' || s[0] == '-') {
        s.drop_first()
    } else {
        s
    };
    match parse_digits(digits) {
        Some(n) => if negative {
            if n <= 9223372036854775808 {
                Some((-(n as int)) as i64)
            } else {
                None
            }
        } else if n <= i64::MAX {
            Some(n as i64)
        } else {
            None
        },
        None => None,
    }
}

/// The value of the first `i` digits of `s` is at most the value of all of them.
pub proof fn lemma_digits_value_grows(s: Seq<char>, i: int)
    requires
        0 <= i <= s.len(),
    ensures
        digits_value(s.take(i)) <= digits_value(s),
    decreases s.len() - i,
{
    if i == s.len() {
        assert(s.take(i) == s);
    } else {
        lemma_digits_value_grows(s, i + 1);
        assert(s.take(i + 1).drop_last() == s.take(i));
    }
}

/// The number that the characters of `v` from `from` on stand for, where they are
/// decimal digits and their number is at most `limit`.
fn parse_bounded(v: &Vec<char>, from: usize, limit: u64) -> (r: Option<u64>)
    requires
        from <= v@.len(),
        9 <= limit,
    ensures
        r == match parse_digits(v@.subrange(from as int, v@.len() as int)) {
            Some(n) => if n <= limit {
                Some(n as u64)
            } else {
                None
            },
            None => None,
        },
{
    let ghost digits = v@.subrange(from as int, v@.len() as int);
    if from == v.len() {
        return None;
    }
    let mut acc: u64 = 0;
    let mut i: usize = from;
    assert(digits.take(0) =~= Seq::<char>::empty());
    while i < v.len()
        invariant
            from <= i <= v@.len(),
            from < v@.len(),
            digits == v@.subrange(from as int, v@.len() as int),
            all_digits(digits.take(i - from)),
            acc == digits_value(digits.take(i - from)),
            acc <= limit,
            9 <= limit,
        decreases v.len() - i,
    {
        let c = v[i];
        assert(digits[i - from] == c);
        if c < '0' || c > '9' {
            assert(!is_digit(digits[i - from]));
            return None;
        }
        let d: u64 = (c as u32 - '0' as u32) as u64;
        proof {
            assert(digits.take(i - from + 1).drop_last() == digits.take(i - from));
            assert(digits.take(i - from + 1).last() == c);
            lemma_digits_value_grows(digits, i - from + 1);
            assert forall|k: int| 0 <= k < digits.take(i - from + 1).len() implies is_digit(
                #[trigger] digits.take(i - from + 1)[k],
            ) by {
                if k < i - from {
                    assert(digits.take(i - from)[k] == digits.take(i - from + 1)[k]);
                }
            }
        }
        if acc > (limit - d) / 10 {
            assert(digits_value(digits.take(i - from + 1)) == acc * 10 + d);
            assert(acc * 10 + d > limit);
            return None;
        }
        acc = acc * 10 + d;
        i += 1;
    }
    assert(digits.take(digits.len() as int) == digits);
    Some(acc)
}

/// The `u32` that `s` stands for.
pub fn parse_u32(s: &str) -> (r: Option<u32>)
    ensures
        r == parse_u32_spec(s@),
{
    let v = chars_of(s);
    let from: usize = if v.len() > 0 && v[0] == '+' {
        1
    } else {
        0
    };
    assert(v@.subrange(from as int, v@.len() as int) =~= if from == 1 {
        v@.drop_first()
    } else {
        v@
    });
    match parse_bounded(&v, from, 4294967295) {
        Some(n) => Some(n as u32),
        None => None,
    }
}

/// The `i64` that `s` stands for.
pub fn parse_i64(s: &str) -> (r: Option<i64>)
    ensures
        r == parse_i64_spec(s@),
{
    let v = chars_of(s);
    let negative = v.len() > 0 && v[0] == '-';
    let from: usize = if v.len() > 0 && (v[0] == '+' || v[0] == '-') {
        1
    } else {
        0
    };
    assert(v@.subrange(from as int, v@.len() as int) =~= if from == 1 {
        v@.drop_first()
    } else {
        v@
    });
    if negative {
        match parse_bounded(&v, from, 9223372036854775808) {
            Some(n) => if n == 9223372036854775808 {
                Some(i64::MIN)
            } else {
                Some(-(n as i64))
            },
            None => None,
        }
    } else {
        match parse_bounded(&v, from, 9223372036854775807) {
            Some(n) => Some(n as i64),
            None => None,
        }
    }
}

/// The parts of `s` from offset `from` on that stand between the occurrences of `sep`,
/// the occurrences taken from the left.
pub open spec fn split_from(s: Seq<char>, sep: Seq<char>, from: int) -> Seq<Seq<char>>
    decreases s.len() - from,
{
    if sep.len() == 0 || from < 0 || from > s.len() {
        seq![s.subrange(from, s.len() as int)]
    } else {
        match first_occurrence(s, sep, from) {
            Some(at) => if from <= at && at + sep.len() <= s.len() {
                seq![s.subrange(from, at)] + split_from(s, sep, at + sep.len())
            } else {
                seq![s.subrange(from, s.len() as int)]
            },
            None => seq![s.subrange(from, s.len() as int)],
        }
    }
}

/// The parts of `s` from offset `from` on that stand between the occurrences of `sep`.
pub fn split(s: &Vec<char>, sep: &Vec<char>, from: usize) -> (parts: Vec<String>)
    requires
        from <= s@.len(),
        sep@.len() > 0,
    ensures
        string_views(parts@) == split_from(s@, sep@, from as int),
{
    let mut parts: Vec<String> = Vec::new();
    let mut at: usize = from;
    let total = s.len();
    loop
        invariant
            at <= s@.len(),
            total == s@.len(),
            sep@.len() > 0,
            string_views(parts@) + split_from(s@, sep@, at as int) == split_from(
                s@,
                sep@,
                from as int,
            ),
        decreases s@.len() - at,
    {
        proof {
            lemma_first_occurrence_bounds(s@, sep@, at as int);
        }
        let ghost before = string_views(parts@);
        match find_from(s, sep, at) {
            Some(next) => {
                let mut part = String::new();
                push_chars(&mut part, s, at, next);
                parts.push(part);
                assert(string_views(parts@) =~= before + seq![s@.subrange(at as int, next as int)]);
                assert(string_views(parts@) + split_from(s@, sep@, next + sep@.len()) =~= before
                    + split_from(s@, sep@, at as int));
                at = next + sep.len();
            },
            None => {
                let mut part = String::new();
                push_chars(&mut part, s, at, s.len());
                parts.push(part);
                assert(string_views(parts@) =~= before + split_from(s@, sep@, at as int));
                return parts;
            },
        }
    }
}

/// The part of `text` between the byte offsets `start` and `end`; nothing where an
/// offset lies outside `text` or inside a character, or where `end` comes before
/// `start`.
pub open spec fn text_between(text: Seq<char>, start: usize, end: usize) -> Option<Seq<char>> {
    if crate::outside::sliceable(encode_utf8(text), start, end) {
        Some(decode_utf8(encode_utf8(text).subrange(start as int, end as int)))
    } else {
        None
    }
}

/// The part of `text` between the byte offsets `start` and `end`.
pub fn slice(text: &str, start: usize, end: usize) -> (r: Option<&str>)
    ensures
        match r {
            Some(part) => text_between(text@, start, end) == Some(part@),
            None => text_between(text@, start, end) is None,
        },
{
    match crate::outside::slice_between(text, start, end) {
        Some(part) => {
            proof {
                encode_utf8_decode_utf8(part@);
            }
            Some(part)
        },
        None => None,
    }
}

} // verus!
