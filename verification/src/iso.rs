//! Decomposition of ISO 8601 date and time strings into ISO dates and times.

use crate::error::{FormatterError, FormatterErrorView};
use crate::options::chars_of;
use crate::utf8::{char_byte_width, char_width};
use crate::values::{IsoDate, IsoTime};
use vstd::prelude::*;

verus! {

/// Whether the character is an ASCII decimal digit.
pub open spec fn is_digit(c: char) -> bool {
    '0' <= c && c <= '9'
}

/// The value of a string of decimal digits.
pub open spec fn digits_value(s: Seq<char>) -> int
    decreases s.len(),
{
    if s.len() == 0 {
        0
    } else {
        digits_value(s.drop_last()) * 10 + (s.last() as int - '0' as int)
    }
}

/// A non-empty string of decimal digits.
pub open spec fn all_digits(s: Seq<char>) -> bool {
    s.len() > 0 && forall|i: int| 0 <= i < s.len() ==> is_digit(#[trigger] s[i])
}

/// The integer that std's `from_str` reads from the string: an optional `+` sign (or `-`, for a signed type)
/// followed by decimal digits only. The range of the type is checked apart.
pub open spec fn spec_parse_int(s: Seq<char>, signed: bool) -> Option<int> {
    if s.len() > 0 && s[0] == '+' {
        if all_digits(s.drop_first()) {
            Some(digits_value(s.drop_first()))
        } else {
            None
        }
    } else if signed && s.len() > 0 && s[0] == '-' {
        if all_digits(s.drop_first()) {
            Some(-digits_value(s.drop_first()))
        } else {
            None
        }
    } else if all_digits(s) {
        Some(digits_value(s))
    } else {
        None
    }
}

/// The `i32` that the string spells, if any.
pub open spec fn spec_parse_i32(s: Seq<char>) -> Option<i32> {
    match spec_parse_int(s, true) {
        Some(v) => if i32::MIN <= v <= i32::MAX {
            Some(v as i32)
        } else {
            None
        },
        None => None,
    }
}

/// The unsigned integer at most `max` that the string spells, if any.
pub open spec fn spec_parse_unsigned(s: Seq<char>, max: int) -> Option<int> {
    match spec_parse_int(s, false) {
        Some(v) => if v <= max {
            Some(v)
        } else {
            None
        },
        None => None,
    }
}

/// Calls `i32::from_str`: the integer that the string spells, within the range of `i32`.
#[verifier::external_body]
fn parse_i32(s: &str) -> (result: Result<i32, FormatterError>)
    ensures
        match spec_parse_i32(s@) {
            Some(v) => result matches Ok(r) && r == v,
            None => result matches Err(e) && e@ == FormatterErrorView::ParseInt,
        },
{
    s.parse::<i32>().map_err(FormatterError::ParseInt)
}

/// Calls `u8::from_str`: the integer that the string spells, within the range of `u8`.
#[verifier::external_body]
fn parse_u8(s: &str) -> (result: Result<u8, FormatterError>)
    ensures
        match spec_parse_unsigned(s@, u8::MAX as int) {
            Some(v) => result matches Ok(r) && r == v,
            None => result matches Err(e) && e@ == FormatterErrorView::ParseInt,
        },
{
    s.parse::<u8>().map_err(FormatterError::ParseInt)
}

/// Calls `IsoHour::from_str` of `icu_calendar`, which reads a `u8` and checks that it is at most 24.
#[verifier::external_body]
fn parse_hour(s: &str) -> (result: Result<u8, FormatterError>)
    ensures
        match spec_parse_unsigned(s@, 24) {
            Some(v) => result matches Ok(r) && r == v,
            None => result matches Err(e) && e@ == FormatterErrorView::Calendar,
        },
{
    s.parse::<icu_calendar::types::IsoHour>().map(|h| h.number()).map_err(FormatterError::Calendar)
}

/// Calls `IsoMinute::from_str` of `icu_calendar`, which reads a `u8` and checks that it is at most 60.
#[verifier::external_body]
fn parse_minute(s: &str) -> (result: Result<u8, FormatterError>)
    ensures
        match spec_parse_unsigned(s@, 60) {
            Some(v) => result matches Ok(r) && r == v,
            None => result matches Err(e) && e@ == FormatterErrorView::Calendar,
        },
{
    s.parse::<icu_calendar::types::IsoMinute>().map(|m| m.number()).map_err(FormatterError::Calendar)
}

/// Calls `IsoSecond::from_str` of `icu_calendar`, which reads a `u8` and checks that it is at most 61.
#[verifier::external_body]
fn parse_second(s: &str) -> (result: Result<u8, FormatterError>)
    ensures
        match spec_parse_unsigned(s@, 61) {
            Some(v) => result matches Ok(r) && r == v,
            None => result matches Err(e) && e@ == FormatterErrorView::Calendar,
        },
{
    s.parse::<icu_calendar::types::IsoSecond>().map(|x| x.number()).map_err(FormatterError::Calendar)
}

/// Calls `NanoSecond::from_str` of `icu_calendar`, which reads a `u32` and checks that it is at most
/// 999 999 999.
#[verifier::external_body]
fn parse_nanosecond(s: &str) -> (result: Result<u32, FormatterError>)
    ensures
        match spec_parse_unsigned(s@, 999_999_999) {
            Some(v) => result matches Ok(r) && r == v,
            None => result matches Err(e) && e@ == FormatterErrorView::Calendar,
        },
{
    s.parse::<icu_calendar::types::NanoSecond>().map(|n| n.number()).map_err(FormatterError::Calendar)
}

/// The number of days of the month in the ISO calendar: 0 for a month that does not exist.
pub open spec fn iso_month_days(year: int, month: int) -> int {
    if month == 4 || month == 6 || month == 9 || month == 11 {
        30
    } else if month == 2 {
        if year % 4 == 0 && (year % 400 == 0 || year % 100 != 0) {
            29
        } else {
            28
        }
    } else if 1 <= month <= 12 {
        31
    } else {
        0
    }
}

/// Whether `Date::try_new_iso_date` of `icu_calendar` accepts the date: the month is at most 12 and the day at
/// most the days of the month.
pub open spec fn iso_date_accepted(year: int, month: int, day: int) -> bool {
    month <= 12 && day <= iso_month_days(year, month)
}

/// Calls `Date::try_new_iso_date` of `icu_calendar`, which checks that the month is at most 12 and the day at
/// most the days of the month, and drops the date.
#[verifier::external_body]
fn check_iso_date(year: i32, month: u8, day: u8) -> (result: Result<(), FormatterError>)
    ensures
        result is Ok <==> iso_date_accepted(year as int, month as int, day as int),
        result matches Err(e) ==> e@ == FormatterErrorView::Calendar,
{
    icu_calendar::Date::try_new_iso_date(year, month, day).map(|_| ()).map_err(FormatterError::Calendar)
}

/// The string without its leading characters `c`.
pub open spec fn trim_start(s: Seq<char>, c: char) -> Seq<char>
    decreases s.len(),
{
    if s.len() > 0 && s[0] == c {
        trim_start(s.drop_first(), c)
    } else {
        s
    }
}

/// The parts of the string between the characters `c` (as `str::split`): one more part than occurrences of `c`.
pub open spec fn split_at_char(s: Seq<char>, c: char) -> Seq<Seq<char>>
    decreases s.len(),
{
    if s.len() == 0 {
        seq![Seq::empty()]
    } else {
        let rest = split_at_char(s.drop_last(), c);
        if s.last() == c {
            rest.push(Seq::empty())
        } else {
            rest.update(rest.len() - 1, rest.last().push(s.last()))
        }
    }
}

pub(crate) proof fn lemma_split_nonempty(s: Seq<char>, c: char)
    ensures
        split_at_char(s, c).len() >= 1,
    decreases s.len(),
{
    if s.len() > 0 {
        lemma_split_nonempty(s.drop_last(), c);
    }
}

/// The characters before the first `c` (the whole string if there is none).
pub open spec fn before_char(s: Seq<char>, c: char) -> Seq<char>
    decreases s.len(),
{
    if s.len() == 0 || s[0] == c {
        Seq::empty()
    } else {
        seq![s[0]] + before_char(s.drop_first(), c)
    }
}

/// The number of characters of `s` whose UTF-8 encoding takes the first `n` bytes of `s`, if byte `n` is a
/// character boundary.
pub open spec fn char_boundary(s: Seq<char>, n: int) -> Option<int>
    decreases s.len(),
{
    if n == 0 {
        Some(0)
    } else if n < 0 || s.len() == 0 {
        None
    } else {
        match char_boundary(s.drop_first(), n - char_width(s[0])) {
            Some(k) => Some(k + 1),
            None => None,
        }
    }
}

/// The substring of the bytes `from..to` (as `str::get`), if both are character boundaries and `from <= to`.
pub open spec fn byte_slice(s: Seq<char>, from: int, to: int) -> Option<Seq<char>> {
    match (char_boundary(s, from), char_boundary(s, to)) {
        (Some(a), Some(b)) => if a <= b {
            Some(s.subrange(a, b))
        } else {
            None
        },
        _ => None,
    }
}

proof fn lemma_char_boundary_bound(s: Seq<char>, n: int)
    ensures
        char_boundary(s, n) matches Some(k) ==> 0 <= k <= s.len(),
    decreases s.len(),
{
    if n != 0 && n >= 0 && s.len() > 0 {
        lemma_char_boundary_bound(s.drop_first(), n - char_width(s[0]));
    }
}

proof fn lemma_char_boundary_monotone(s: Seq<char>, m: int, n: int)
    requires
        m <= n,
        char_boundary(s, m) is Some,
        char_boundary(s, n) is Some,
    ensures
        char_boundary(s, m).unwrap() <= char_boundary(s, n).unwrap(),
    decreases s.len(),
{
    lemma_char_boundary_bound(s, n);
    if m != 0 && s.len() > 0 {
        lemma_char_boundary_monotone(s.drop_first(), m - char_width(s[0]), n - char_width(s[0]));
    }
}

/// The number of characters of `s` in its first `n` bytes, as [`char_boundary`].
fn boundary(s: &Vec<char>, n: usize) -> (result: Option<usize>)
    ensures
        match char_boundary(s@, n as int) {
            Some(k) => result matches Some(r) && r as int == k,
            None => result is None,
        },
{
    let mut i: usize = 0;
    let mut bytes: usize = 0;
    proof {
        assert(s@.skip(0) =~= s@);
    }
    while i < s.len() && bytes < n
        invariant
            0 <= i <= s@.len(),
            bytes <= n,
            match char_boundary(s@, n as int) {
                Some(k) => char_boundary(s@.skip(i as int), n - bytes) == Some(k - i),
                None => char_boundary(s@.skip(i as int), n - bytes) is None,
            },
        decreases s.len() - i,
    {
        let w = char_byte_width(s[i]);
        proof {
            assert(s@.skip(i as int).drop_first() =~= s@.skip(i + 1));
            assert(s@.skip(i as int)[0] == s@[i as int]);
        }
        if w > n - bytes {
            proof {
                lemma_char_boundary_neg(s@.skip(i + 1), n - bytes - w);
            }
            return None;
        }
        bytes = bytes + w;
        i = i + 1;
    }
    proof {
        lemma_char_boundary_bound(s@, n as int);
    }
    if bytes == n {
        Some(i)
    } else {
        None
    }
}

proof fn lemma_char_boundary_neg(s: Seq<char>, n: int)
    requires
        n < 0,
    ensures
        char_boundary(s, n) is None,
{
}

/// The substring of the bytes `from..to`, as [`byte_slice`].
fn get_bytes(s: &Vec<char>, from: usize, to: usize) -> (result: Option<String>)
    ensures
        match byte_slice(s@, from as int, to as int) {
            Some(t) => result matches Some(r) && r@ == t,
            None => result is None,
        },
{
    match (boundary(s, from), boundary(s, to)) {
        (Some(a), Some(b)) => {
            proof {
                lemma_char_boundary_bound(s@, from as int);
                lemma_char_boundary_bound(s@, to as int);
            }
            if a <= b {
                let mut r = String::new();
                crate::options::push_chars(&mut r, s, a, b);
                assert(Seq::<char>::empty() + s@.subrange(a as int, b as int) =~= s@.subrange(a as int, b as int));
                Some(r)
            } else {
                None
            }
        },
        _ => None,
    }
}

/// The string of the characters.
pub(crate) fn string_of(chars: &Vec<char>) -> (result: String)
    ensures
        result@ == chars@,
{
    let mut r = String::new();
    crate::options::push_chars(&mut r, chars, 0, chars.len());
    assert(Seq::<char>::empty() + chars@.subrange(0, chars@.len() as int) =~= chars@);
    r
}

/// The characters without the leading characters `c`, as [`trim_start`].
fn trim_start_chars(s: &Vec<char>, c: char) -> (result: Vec<char>)
    ensures
        result@ == trim_start(s@, c),
{
    let mut i: usize = 0;
    assert(s@.skip(0) =~= s@);
    while i < s.len() && s[i] == c
        invariant
            0 <= i <= s@.len(),
            trim_start(s@, c) == trim_start(s@.skip(i as int), c),
        decreases s.len() - i,
    {
        assert(s@.skip(i as int).drop_first() =~= s@.skip(i + 1));
        i = i + 1;
    }
    let mut r: Vec<char> = Vec::new();
    let mut j = i;
    while j < s.len()
        invariant
            i <= j <= s@.len(),
            r@ == s@.subrange(i as int, j as int),
        decreases s.len() - j,
    {
        r.push(s[j]);
        assert(s@.subrange(i as int, j + 1) =~= s@.subrange(i as int, j as int).push(s@[j as int]));
        j = j + 1;
    }
    assert(s@.subrange(i as int, s@.len() as int) =~= s@.skip(i as int));
    r
}

/// The characters before the first `c`, as [`before_char`].
fn before_char_chars(s: &Vec<char>, c: char) -> (result: Vec<char>)
    ensures
        result@ == before_char(s@, c),
{
    let mut r: Vec<char> = Vec::new();
    let mut i: usize = 0;
    assert(s@.skip(0) =~= s@);
    while i < s.len() && s[i] != c
        invariant
            0 <= i <= s@.len(),
            before_char(s@, c) == r@ + before_char(s@.skip(i as int), c),
        decreases s.len() - i,
    {
        assert(s@.skip(i as int).drop_first() =~= s@.skip(i + 1));
        let ghost before = r@;
        r.push(s[i]);
        assert(before + (seq![s@[i as int]] + before_char(s@.skip(i + 1), c)) =~= r@ + before_char(
            s@.skip(i + 1),
            c,
        ));
        i = i + 1;
    }
    assert(r@ + Seq::<char>::empty() =~= r@);
    r
}

/// The characters after the first `n` bytes, where byte `n` is a character boundary.
fn skip_bytes(s: &Vec<char>, n: usize) -> (result: Vec<char>)
    requires
        char_boundary(s@, n as int) is Some,
    ensures
        result@ == s@.skip(char_boundary(s@, n as int).unwrap()),
{
    proof {
        lemma_char_boundary_bound(s@, n as int);
    }
    let k = boundary(s, n).unwrap();
    let mut r: Vec<char> = Vec::new();
    let mut j = k;
    while j < s.len()
        invariant
            k <= j <= s@.len(),
            r@ == s@.subrange(k as int, j as int),
        decreases s.len() - j,
    {
        r.push(s[j]);
        assert(s@.subrange(k as int, j + 1) =~= s@.subrange(k as int, j as int).push(s@[j as int]));
        j = j + 1;
    }
    assert(s@.subrange(k as int, s@.len() as int) =~= s@.skip(k as int));
    r
}

/// The parts of the characters between the characters `c`, as [`split_at_char`].
pub(crate) fn split_chars(s: &Vec<char>, c: char) -> (result: Vec<Vec<char>>)
    ensures
        result@.len() == split_at_char(s@, c).len(),
        forall|i: int| 0 <= i < result@.len() ==> #[trigger] result@[i]@ == split_at_char(s@, c)[i],
{
    let mut parts: Vec<Vec<char>> = Vec::new();
    let mut current: Vec<char> = Vec::new();
    let mut i: usize = 0;
    assert(s@.take(0) =~= Seq::<char>::empty());
    while i < s.len()
        invariant
            0 <= i <= s@.len(),
            parts@.len() + 1 == split_at_char(s@.take(i as int), c).len(),
            forall|k: int| 0 <= k < parts@.len() ==> #[trigger] parts@[k]@ == split_at_char(s@.take(i as int), c)[k],
            current@ == split_at_char(s@.take(i as int), c).last(),
        decreases s.len() - i,
    {
        let ghost prev = split_at_char(s@.take(i as int), c);
        assert(s@.take(i + 1).drop_last() =~= s@.take(i as int));
        assert(s@.take(i + 1).last() == s@[i as int]);
        if s[i] == c {
            parts.push(current);
            current = Vec::new();
        } else {
            current.push(s[i]);
        }
        i = i + 1;
    }
    assert(s@.take(s@.len() as int) =~= s@);
    parts.push(current);
    parts
}

/// The ISO date that an ISO 8601 date string gives, as `decompose_iso_date` reads it: the year, month and day
/// from the string (month and day 1 where absent), then checked by the calendar.
pub open spec fn spec_iso_date(s: Seq<char>) -> Result<IsoDate, FormatterErrorView> {
    match spec_date_fields(s) {
        Err(e) => Err(e),
        Ok((year, month, day)) => if iso_date_accepted(year as int, month as int, day as int) {
            Ok(IsoDate { year, month, day })
        } else {
            Err(FormatterErrorView::Calendar)
        },
    }
}

/// The value of a decimal digit character.
pub open spec fn digit_value(c: char) -> int {
    c as int - '0' as int
}

/// The year of a basic date `YYYYMMDD`: the number that its first four characters spell.
pub open spec fn basic_year(s: Seq<char>) -> int {
    1000 * digit_value(s[0]) + 100 * digit_value(s[1]) + 10 * digit_value(s[2]) + digit_value(s[3])
}

/// The month of a basic date `YYYYMMDD`: the number that its fifth and sixth characters spell.
pub open spec fn basic_month(s: Seq<char>) -> int {
    10 * digit_value(s[4]) + digit_value(s[5])
}

/// The day of a basic date `YYYYMMDD`: the number that its seventh and eighth characters spell.
pub open spec fn basic_day(s: Seq<char>) -> int {
    10 * digit_value(s[6]) + digit_value(s[7])
}

proof fn lemma_split_without(s: Seq<char>, c: char)
    requires
        forall|k: int| 0 <= k < s.len() ==> s[k] != c,
    ensures
        split_at_char(s, c) == seq![s],
    decreases s.len(),
{
    if s.len() > 0 {
        lemma_split_without(s.drop_last(), c);
        assert(s.drop_last().push(s.last()) =~= s);
        assert(seq![s.drop_last()].update(0, s.drop_last().push(s.last())) =~= seq![s]);
    } else {
        assert(s =~= Seq::<char>::empty());
    }
}

/// Whether the character is ASCII, one byte in UTF-8.
pub open spec fn is_ascii(c: char) -> bool {
    (c as u32) <= 0x7F
}

proof fn lemma_ascii_boundary(s: Seq<char>, n: int)
    requires
        0 <= n <= s.len(),
        forall|k: int| 0 <= k < s.len() ==> is_ascii(#[trigger] s[k]),
    ensures
        char_boundary(s, n) == Some(n),
    decreases n,
{
    if n > 0 {
        assert(is_ascii(s[0]));
        assert(char_width(s[0]) == 1);
        let t = s.drop_first();
        assert forall|k: int| 0 <= k < t.len() implies is_ascii(#[trigger] t[k]) by {
            assert(t[k] == s[k + 1]);
        }
        lemma_ascii_boundary(t, n - 1);
    }
}

proof fn lemma_digits_ascii(s: Seq<char>)
    requires
        forall|k: int| 0 <= k < s.len() ==> is_digit(#[trigger] s[k]),
    ensures
        forall|k: int| 0 <= k < s.len() ==> is_ascii(#[trigger] s[k]),
{
    assert forall|k: int| 0 <= k < s.len() implies is_ascii(#[trigger] s[k]) by {
        assert(is_digit(s[k]));
    }
}

proof fn lemma_digits_two(s: Seq<char>)
    requires
        s.len() == 2,
    ensures
        digits_value(s) == 10 * digit_value(s[0]) + digit_value(s[1]),
{
    assert(s.drop_last().drop_last() =~= Seq::<char>::empty());
    assert(s.drop_last()[0] == s[0]);
    assert(digits_value(s.drop_last().drop_last()) == 0);
    assert(digits_value(s.drop_last()) == digit_value(s[0]));
}

proof fn lemma_digits_four(s: Seq<char>)
    requires
        s.len() == 4,
    ensures
        digits_value(s) == 1000 * digit_value(s[0]) + 100 * digit_value(s[1]) + 10 * digit_value(s[2]) + digit_value(s[3]),
{
    let t = s.drop_last();
    let u = t.drop_last();
    lemma_digits_two(u);
    assert(u[0] == s[0] && u[1] == s[1] && t[2] == s[2]);
    assert(t.drop_last() == u);
    assert(digits_value(t) == digits_value(u) * 10 + digit_value(t[2]));
}

/// A basic ISO 8601 date of eight digits, `YYYYMMDD`, is the date whose year, month and day are the numbers
/// spelt by its characters 0 to 4, 4 to 6 and 6 to 8; it is decomposed exactly when the ISO calendar accepts
/// that date, and otherwise fails with `Calendar`.
pub proof fn lemma_basic_date(s: Seq<char>)
    requires
        s.len() == 8,
        forall|k: int| 0 <= k < 8 ==> is_digit(#[trigger] s[k]),
    ensures
        iso_date_accepted(basic_year(s), basic_month(s), basic_day(s)) ==> (spec_iso_date(s) matches Ok(d) && d.year
            == basic_year(s) && d.month == basic_month(s) && d.day == basic_day(s)),
        !iso_date_accepted(basic_year(s), basic_month(s), basic_day(s)) ==> spec_iso_date(s) == Err::<
            IsoDate,
            FormatterErrorView,
        >(FormatterErrorView::Calendar),
{
    assert(s[0] != '+');
    assert(trim_start(s, '+') == s);
    assert forall|k: int| 0 <= k < s.len() implies s[k] != '-' by {
        assert(is_digit(s[k]));
    }
    lemma_split_without(s, '-');
    lemma_digits_ascii(s);
    lemma_ascii_boundary(s, 0);
    lemma_ascii_boundary(s, 4);
    lemma_ascii_boundary(s, 6);
    lemma_ascii_boundary(s, 8);
    let y = s.subrange(0, 4);
    let m = s.subrange(4, 6);
    let d = s.subrange(6, 8);
    assert(byte_slice(s, 0, 4) == Some(y));
    assert(byte_slice(s, 4, 6) == Some(m));
    assert(byte_slice(s, 6, 8) == Some(d));
    assert(all_digits(y));
    assert(all_digits(m));
    assert(all_digits(d));
    lemma_digits_four(y);
    lemma_digits_two(m);
    lemma_digits_two(d);
    assert(y[0] != '+' && m[0] != '+' && d[0] != '+');
    assert(spec_parse_i32(y) == Some(basic_year(s) as i32));
    assert(spec_parse_unsigned(m, 255) == Some(basic_month(s)));
    assert(spec_parse_unsigned(d, 255) == Some(basic_day(s)));
    assert(spec_date_fields(s) == Ok::<(i32, u8, u8), FormatterErrorView>(
        (basic_year(s) as i32, basic_month(s) as u8, basic_day(s) as u8),
    ));
}

proof fn lemma_split_after(a: Seq<char>, b: Seq<char>, c: char)
    requires
        forall|k: int| 0 <= k < b.len() ==> b[k] != c,
    ensures
        split_at_char(a + seq![c] + b, c) == split_at_char(a, c).push(b),
    decreases b.len(),
{
    let s = a + seq![c] + b;
    if b.len() == 0 {
        assert(s.drop_last() =~= a);
        assert(s.last() == c);
        assert(b =~= Seq::<char>::empty());
    } else {
        lemma_split_after(a, b.drop_last(), c);
        assert(s.drop_last() =~= a + seq![c] + b.drop_last());
        assert(s.last() == b.last());
        lemma_split_nonempty(a, c);
        let rest = split_at_char(a, c).push(b.drop_last());
        assert(b.drop_last().push(b.last()) =~= b);
        assert(rest.last() == b.drop_last());
        assert(rest.update(rest.len() - 1, rest.last().push(b.last())) =~= split_at_char(a, c).push(b));
    }
}

/// The year, month and day of an extended date `YYYY-MM-DD`: the numbers that its characters 0 to 4, 5 to 7 and
/// 8 to 10 spell.
pub open spec fn extended_year(s: Seq<char>) -> int {
    1000 * digit_value(s[0]) + 100 * digit_value(s[1]) + 10 * digit_value(s[2]) + digit_value(s[3])
}

/// The month of an extended date `YYYY-MM-DD`.
pub open spec fn extended_month(s: Seq<char>) -> int {
    10 * digit_value(s[5]) + digit_value(s[6])
}

/// The day of an extended date `YYYY-MM-DD`.
pub open spec fn extended_day(s: Seq<char>) -> int {
    10 * digit_value(s[8]) + digit_value(s[9])
}

/// An extended ISO 8601 date `YYYY-MM-DD` is the date whose year, month and day are the numbers spelt by its
/// characters 0 to 4, 5 to 7 and 8 to 10; it is decomposed exactly when the ISO calendar accepts that date,
/// and otherwise fails with `Calendar`.
pub proof fn lemma_extended_date(s: Seq<char>)
    requires
        s.len() == 10,
        s[4] == '-',
        s[7] == '-',
        forall|k: int| 0 <= k < 10 && k != 4 && k != 7 ==> is_digit(#[trigger] s[k]),
    ensures
        iso_date_accepted(extended_year(s), extended_month(s), extended_day(s)) ==> (spec_iso_date(s) matches Ok(d)
            && d.year == extended_year(s) && d.month == extended_month(s) && d.day == extended_day(s)),
        !iso_date_accepted(extended_year(s), extended_month(s), extended_day(s)) ==> spec_iso_date(s) == Err::<
            IsoDate,
            FormatterErrorView,
        >(FormatterErrorView::Calendar),
{
    let y = s.subrange(0, 4);
    let m = s.subrange(5, 7);
    let d = s.subrange(8, 10);
    assert(is_digit(s[0]) && is_digit(s[1]) && is_digit(s[2]) && is_digit(s[3]));
    assert(is_digit(s[5]) && is_digit(s[6]) && is_digit(s[8]) && is_digit(s[9]));
    assert(s[0] != '+');
    assert(trim_start(s, '+') == s);
    assert(s =~= y + seq!['-'] + m + seq!['-'] + d);
    lemma_split_without(y, '-');
    lemma_split_after(y, m, '-');
    lemma_split_after(y + seq!['-'] + m, d, '-');
    let parts = split_at_char(s, '-');
    assert(parts =~= seq![y, m, d]);
    assert(all_digits(y));
    assert(all_digits(m));
    assert(all_digits(d));
    lemma_digits_four(y);
    lemma_digits_two(m);
    lemma_digits_two(d);
    assert(y[0] != '+' && m[0] != '+' && d[0] != '+');
    assert(parts[0].len() != 0);
    assert(spec_parse_i32(y) == Some(extended_year(s) as i32));
    assert(spec_parse_unsigned(m, 255) == Some(extended_month(s)));
    assert(spec_parse_unsigned(d, 255) == Some(extended_day(s)));
    assert(spec_month_day(parts, 1, extended_year(s) as i32) == Ok::<(i32, u8, u8), FormatterErrorView>(
        (extended_year(s) as i32, extended_month(s) as u8, extended_day(s) as u8),
    ));
    assert(spec_date_fields(s) == Ok::<(i32, u8, u8), FormatterErrorView>(
        (extended_year(s) as i32, extended_month(s) as u8, extended_day(s) as u8),
    ));
}

/// The month and day from the parts of an extended date after its year (1 where absent).
pub open spec fn spec_month_day(parts: Seq<Seq<char>>, index: int, year: i32) -> Result<(i32, u8, u8), FormatterErrorView> {
    if index < parts.len() {
        match spec_parse_unsigned(parts[index], 255) {
            None => Err(FormatterErrorView::ParseInt),
            Some(month) => if index + 1 < parts.len() {
                match spec_parse_unsigned(parts[index + 1], 255) {
                    None => Err(FormatterErrorView::ParseInt),
                    Some(day) => Ok((year, month as u8, day as u8)),
                }
            } else {
                Ok((year, month as u8, 1u8))
            },
        }
    } else {
        Ok((year, 1u8, 1u8))
    }
}

/// The year, month and day of an ISO 8601 date string, before the calendar checks them.
pub open spec fn spec_date_fields(s: Seq<char>) -> Result<(i32, u8, u8), FormatterErrorView> {
    let no_plus = trim_start(s, '+');
    let parts = split_at_char(no_plus, '-');
    if no_plus.len() == 0 {
        Ok((0i32, 1u8, 1u8))
    } else if parts.len() == 1 {
        let p = parts[0];
        match byte_slice(p, 0, 4) {
            None => Ok((0i32, 1u8, 1u8)),
            Some(y) => match spec_parse_i32(y) {
                None => Err(FormatterErrorView::ParseInt),
                Some(year) => match byte_slice(p, 4, 6) {
                    None => Ok((year, 1u8, 1u8)),
                    Some(m) => match spec_parse_unsigned(m, 255) {
                        None => Err(FormatterErrorView::ParseInt),
                        Some(month) => match byte_slice(p, 6, 8) {
                            None => Ok((year, month as u8, 1u8)),
                            Some(d) => match spec_parse_unsigned(d, 255) {
                                None => Err(FormatterErrorView::ParseInt),
                                Some(day) => Ok((year, month as u8, day as u8)),
                            },
                        },
                    },
                },
            },
        }
    } else {
        let negative = parts[0].len() == 0;
        let year_string = if negative {
            seq!['-'] + parts[1]
        } else {
            parts[0]
        };
        let index = if negative {
            2int
        } else {
            1int
        };
        match spec_parse_i32(year_string) {
            None => Err(FormatterErrorView::ParseInt),
            Some(year) => spec_month_day(parts, index, year),
        }
    }
}

/// Decomposes an ISO 8601 date string into an ISO date.
///
/// Supported formats: `YYYY-MM-DD` or `YYYYMMDD`, `YYYY-MM`, `YYYY`, and the expanded `-YYYY-MM-DD`, `-YYYY-MM`,
/// `-YYYY`, `±YYYYY-MM-DD`, `±YYYYY-MM`, `±YYYYY`; month and day default to 1. Leading `+` signs are ignored.
/// Fails with `ParseInt` for a component that is not a number of its type, and with `Calendar` for a date
/// that the ISO calendar refuses.
pub fn decompose_iso_date(string: &str) -> (result: Result<IsoDate, FormatterError>)
    ensures
        match spec_iso_date(string@) {
            Ok(d) => result matches Ok(r) && r == d,
            Err(e) => result matches Err(err) && err@ == e,
        },
{
    let chars = chars_of(string);
    let no_plus = trim_start_chars(&chars, '+');
    let parts = split_chars(&no_plus, '-');
    proof {
        lemma_split_nonempty(no_plus@, '-');
    }
    let mut year: i32 = 0;
    let mut month: u8 = 1;
    let mut day: u8 = 1;
    if no_plus.len() == 0 {
    } else if parts.len() == 1 {
        let p = &parts[0];
        if let Some(y) = get_bytes(p, 0, 4) {
            year = parse_i32(y.as_str())?;
            if let Some(m) = get_bytes(p, 4, 6) {
                month = parse_u8(m.as_str())?;
                if let Some(d) = get_bytes(p, 6, 8) {
                    day = parse_u8(d.as_str())?;
                }
            }
        }
    } else {
        let mut index: usize = 1;
        let mut year_string = String::new();
        if parts[0].len() == 0 {
            crate::lexer::push_char(&mut year_string, '-');
            let y = string_of(&parts[1]);
            year_string.append(y.as_str());
            index = 2;
        } else {
            year_string = string_of(&parts[0]);
        }
        year = parse_i32(year_string.as_str())?;
        if index < parts.len() {
            let m = string_of(&parts[index]);
            month = parse_u8(m.as_str())?;
            if index + 1 < parts.len() {
                let d = string_of(&parts[index + 1]);
                day = parse_u8(d.as_str())?;
            }
        }
    }
    check_iso_date(year, month, day)?;
    Ok(IsoDate { year, month, day })
}

/// The characters after the first `n` bytes, where byte `n` is a character boundary.
pub open spec fn after_bytes(s: Seq<char>, n: int) -> Seq<char> {
    s.skip(char_boundary(s, n).unwrap())
}

/// The time of an ISO 8601 time string, as `decompose_iso_time` reads it: a leading `T` and a time zone (from
/// `+`, `-` or `Z` on) are dropped, then two-digit hour, minute and second, separated by optional colons, and a
/// fraction after an optional full stop, read as nanoseconds. Missing components are zero.
pub open spec fn spec_iso_time(s: Seq<char>) -> Result<IsoTime, FormatterErrorView> {
    let trimmed = before_char(before_char(before_char(trim_start(s, 'T'), '+'), '-'), 'Z');
    let zero = IsoTime { hour: 0, minute: 0, second: 0, nanosecond: 0 };
    match byte_slice(trimmed, 0, 2) {
        None => Ok(zero),
        Some(h) => match spec_parse_unsigned(h, 24) {
            None => Err(FormatterErrorView::Calendar),
            Some(hour) => {
                let no_hour = trim_start(after_bytes(trimmed, 2), ':');
                match byte_slice(no_hour, 0, 2) {
                    None => Ok(IsoTime { hour: hour as u8, ..zero }),
                    Some(m) => match spec_parse_unsigned(m, 60) {
                        None => Err(FormatterErrorView::Calendar),
                        Some(minute) => {
                            let no_minute = trim_start(after_bytes(no_hour, 2), ':');
                            match byte_slice(no_minute, 0, 2) {
                                None => Ok(IsoTime { hour: hour as u8, minute: minute as u8, ..zero }),
                                Some(sec) => match spec_parse_unsigned(sec, 61) {
                                    None => Err(FormatterErrorView::Calendar),
                                    Some(second) => {
                                        let fraction = trim_start(after_bytes(no_minute, 2), '.');
                                        if fraction.len() == 0 {
                                            Ok(IsoTime { hour: hour as u8, minute: minute as u8, second: second as u8, ..zero })
                                        } else {
                                            match spec_parse_unsigned(fraction, 999_999_999) {
                                                None => Err(FormatterErrorView::Calendar),
                                                Some(nanosecond) => Ok(
                                                    IsoTime {
                                                        hour: hour as u8,
                                                        minute: minute as u8,
                                                        second: second as u8,
                                                        nanosecond: nanosecond as u32,
                                                    },
                                                ),
                                            }
                                        }
                                    },
                                },
                            }
                        },
                    },
                }
            },
        },
    }
}

proof fn lemma_before_char_none(s: Seq<char>, c: char)
    requires
        forall|k: int| 0 <= k < s.len() ==> s[k] != c,
    ensures
        before_char(s, c) == s,
    decreases s.len(),
{
    if s.len() > 0 {
        let t = s.drop_first();
        assert forall|k: int| 0 <= k < t.len() implies t[k] != c by {
            assert(t[k] == s[k + 1]);
        }
        lemma_before_char_none(t, c);
        assert(seq![s[0]] + t =~= s);
    } else {
        assert(s =~= Seq::<char>::empty());
    }
}

/// The hour, minute and second of an extended time `Thh:mm:ss`: the numbers that its characters 1 to 3, 4 to 6
/// and 7 to 9 spell.
pub open spec fn extended_hour(s: Seq<char>) -> int {
    10 * digit_value(s[1]) + digit_value(s[2])
}

/// The minute of an extended time `Thh:mm:ss`.
pub open spec fn extended_minute(s: Seq<char>) -> int {
    10 * digit_value(s[4]) + digit_value(s[5])
}

/// The second of an extended time `Thh:mm:ss`.
pub open spec fn extended_second(s: Seq<char>) -> int {
    10 * digit_value(s[7]) + digit_value(s[8])
}

/// An extended ISO 8601 time `Thh:mm:ss` of a valid time of day is the time whose hour, minute and second are
/// the numbers spelt by its characters 1 to 3, 4 to 6 and 7 to 9, with no nanoseconds.
pub proof fn lemma_extended_time(s: Seq<char>)
    requires
        s.len() == 9,
        s[0] == 'T',
        s[3] == ':',
        s[6] == ':',
        forall|k: int| 1 <= k < 9 && k != 3 && k != 6 ==> is_digit(#[trigger] s[k]),
        extended_hour(s) <= 23,
        extended_minute(s) <= 59,
        extended_second(s) <= 59,
    ensures
        spec_iso_time(s) == Ok::<IsoTime, FormatterErrorView>(
            IsoTime {
                hour: extended_hour(s) as u8,
                minute: extended_minute(s) as u8,
                second: extended_second(s) as u8,
                nanosecond: 0,
            },
        ),
{
    let t = s.drop_first();
    assert(is_digit(s[1]) && is_digit(s[2]) && is_digit(s[4]) && is_digit(s[5]) && is_digit(s[7]) && is_digit(s[8]));
    assert(t[0] == s[1]);
    assert(trim_start(t, 'T') == t);
    assert(trim_start(s, 'T') == t);
    assert forall|k: int| 0 <= k < t.len() implies t[k] != '+' && t[k] != '-' && t[k] != 'Z' && is_ascii(#[trigger] t[k]) by {
        assert(t[k] == s[k + 1]);
        if k != 2 && k != 5 {
            assert(is_digit(s[k + 1]));
        }
    }
    lemma_before_char_none(t, '+');
    lemma_before_char_none(t, '-');
    lemma_before_char_none(t, 'Z');
    let trimmed = before_char(before_char(before_char(trim_start(s, 'T'), '+'), '-'), 'Z');
    assert(trimmed == t);
    lemma_ascii_boundary(t, 0);
    lemma_ascii_boundary(t, 2);
    let h = t.subrange(0, 2);
    assert(byte_slice(t, 0, 2) == Some(h));
    lemma_digits_two(h);
    assert(all_digits(h));
    assert(spec_parse_unsigned(h, 24) == Some(extended_hour(s)));
    let a1 = after_bytes(t, 2);
    assert(a1 =~= t.skip(2));
    assert(a1[0] == ':');
    let n1 = trim_start(a1, ':');
    assert(a1.drop_first()[0] == t[3]);
    assert(trim_start(a1.drop_first(), ':') == a1.drop_first());
    assert(n1 == a1.drop_first());
    assert forall|k: int| 0 <= k < n1.len() implies is_ascii(#[trigger] n1[k]) by {
        assert(n1[k] == t[k + 3]);
    }
    lemma_ascii_boundary(n1, 0);
    lemma_ascii_boundary(n1, 2);
    let m = n1.subrange(0, 2);
    assert(m[0] == s[4] && m[1] == s[5]);
    assert(byte_slice(n1, 0, 2) == Some(m));
    lemma_digits_two(m);
    assert(all_digits(m));
    assert(spec_parse_unsigned(m, 60) == Some(extended_minute(s)));
    let a2 = after_bytes(n1, 2);
    assert(a2 =~= n1.skip(2));
    assert(a2[0] == ':');
    let n2 = trim_start(a2, ':');
    assert(a2.drop_first()[0] == s[7]);
    assert(trim_start(a2.drop_first(), ':') == a2.drop_first());
    assert(n2 == a2.drop_first());
    assert(n2.len() == 2);
    assert forall|k: int| 0 <= k < n2.len() implies is_ascii(#[trigger] n2[k]) by {
        assert(n2[k] == s[k + 7]);
    }
    lemma_ascii_boundary(n2, 0);
    lemma_ascii_boundary(n2, 2);
    let sec = n2.subrange(0, 2);
    assert(sec =~= n2);
    assert(sec[0] == s[7] && sec[1] == s[8]);
    assert(byte_slice(n2, 0, 2) == Some(sec));
    lemma_digits_two(sec);
    assert(all_digits(sec));
    assert(spec_parse_unsigned(sec, 61) == Some(extended_second(s)));
    let a3 = after_bytes(n2, 2);
    assert(a3.len() == 0);
    assert(trim_start(a3, '.').len() == 0);
}

/// A basic ISO 8601 time `hhmmss` of a valid time of day is the time whose hour, minute and second are the
/// numbers spelt by its characters 0 to 2, 2 to 4 and 4 to 6, with no nanoseconds.
pub proof fn lemma_basic_time(s: Seq<char>)
    requires
        s.len() == 6,
        forall|k: int| 0 <= k < 6 ==> is_digit(#[trigger] s[k]),
        10 * digit_value(s[0]) + digit_value(s[1]) <= 23,
        10 * digit_value(s[2]) + digit_value(s[3]) <= 59,
        10 * digit_value(s[4]) + digit_value(s[5]) <= 59,
    ensures
        spec_iso_time(s) == Ok::<IsoTime, FormatterErrorView>(
            IsoTime {
                hour: (10 * digit_value(s[0]) + digit_value(s[1])) as u8,
                minute: (10 * digit_value(s[2]) + digit_value(s[3])) as u8,
                second: (10 * digit_value(s[4]) + digit_value(s[5])) as u8,
                nanosecond: 0,
            },
        ),
{
    assert(is_digit(s[0]) && is_digit(s[1]) && is_digit(s[2]) && is_digit(s[3]) && is_digit(s[4]) && is_digit(s[5]));
    assert(trim_start(s, 'T') == s);
    assert forall|k: int| 0 <= k < s.len() implies s[k] != '+' && s[k] != '-' && s[k] != 'Z' && is_ascii(#[trigger] s[k]) by {
        assert(is_digit(s[k]));
    }
    lemma_before_char_none(s, '+');
    lemma_before_char_none(s, '-');
    lemma_before_char_none(s, 'Z');
    lemma_ascii_boundary(s, 0);
    lemma_ascii_boundary(s, 2);
    let h = s.subrange(0, 2);
    assert(byte_slice(s, 0, 2) == Some(h));
    lemma_digits_two(h);
    assert(all_digits(h));
    let n1 = after_bytes(s, 2);
    assert(n1 =~= s.skip(2));
    assert(n1[0] == s[2]);
    assert(trim_start(n1, ':') == n1);
    assert forall|k: int| 0 <= k < n1.len() implies is_ascii(#[trigger] n1[k]) by {
        assert(n1[k] == s[k + 2]);
    }
    lemma_ascii_boundary(n1, 0);
    lemma_ascii_boundary(n1, 2);
    let m = n1.subrange(0, 2);
    assert(m[0] == s[2] && m[1] == s[3]);
    assert(byte_slice(n1, 0, 2) == Some(m));
    lemma_digits_two(m);
    assert(all_digits(m));
    let n2 = after_bytes(n1, 2);
    assert(n2 =~= n1.skip(2));
    assert(n2[0] == s[4]);
    assert(trim_start(n2, ':') == n2);
    assert(n2.len() == 2);
    assert forall|k: int| 0 <= k < n2.len() implies is_ascii(#[trigger] n2[k]) by {
        assert(n2[k] == s[k + 4]);
    }
    lemma_ascii_boundary(n2, 0);
    lemma_ascii_boundary(n2, 2);
    let sec = n2.subrange(0, 2);
    assert(sec =~= n2);
    assert(sec[0] == s[4] && sec[1] == s[5]);
    assert(byte_slice(n2, 0, 2) == Some(sec));
    lemma_digits_two(sec);
    assert(all_digits(sec));
    let a3 = after_bytes(n2, 2);
    assert(a3.len() == 0);
    assert(trim_start(a3, '.').len() == 0);
}

proof fn lemma_byte_slice_prefix(s: Seq<char>, n: int)
    requires
        byte_slice(s, 0, n) is Some,
    ensures
        char_boundary(s, n) is Some,
{
}

/// Decomposes an ISO 8601 time string into a time.
///
/// Supported formats: `Thh:mm:ss.nnn` or `Thhmmss.nnn`, `Thh:mm:ss` or `Thhmmss`, `Thh:mm` or `Thhmm`, `Thh`
/// and `T`, where the `T` is optional and `nnn` is read as nanoseconds. Missing components are zero. A time
/// zone (`Z`, `+hh:mm`, `-hh:mm`, `+hhmm`, `-hhmm`) is ignored. Fails with `Calendar` for a
/// component that is not a number in its range.
pub fn decompose_iso_time(string: &str) -> (result: Result<IsoTime, FormatterError>)
    ensures
        match spec_iso_time(string@) {
            Ok(t) => result matches Ok(r) && r == t,
            Err(e) => result matches Err(err) && err@ == e,
        },
{
    let chars = chars_of(string);
    let no_t = trim_start_chars(&chars, 'T');
    let no_plus = before_char_chars(&no_t, '+');
    let no_minus = before_char_chars(&no_plus, '-');
    let trimmed = before_char_chars(&no_minus, 'Z');
    let mut time = IsoTime { hour: 0, minute: 0, second: 0, nanosecond: 0 };
    if let Some(h) = get_bytes(&trimmed, 0, 2) {
        time.hour = parse_hour(h.as_str())?;
        proof {
            lemma_byte_slice_prefix(trimmed@, 2);
        }
        let no_hour = trim_start_chars(&skip_bytes(&trimmed, 2), ':');
        if let Some(m) = get_bytes(&no_hour, 0, 2) {
            time.minute = parse_minute(m.as_str())?;
            proof {
                lemma_byte_slice_prefix(no_hour@, 2);
            }
            let no_minute = trim_start_chars(&skip_bytes(&no_hour, 2), ':');
            if let Some(sec) = get_bytes(&no_minute, 0, 2) {
                time.second = parse_second(sec.as_str())?;
                proof {
                    lemma_byte_slice_prefix(no_minute@, 2);
                }
                let fraction = trim_start_chars(&skip_bytes(&no_minute, 2), '.');
                if fraction.len() > 0 {
                    let f = string_of(&fraction);
                    time.nanosecond = parse_nanosecond(f.as_str())?;
                }
            }
        }
    }
    Ok(time)
}

} // verus!
