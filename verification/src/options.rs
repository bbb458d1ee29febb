//! The options of the pattern keywords: the sign display and grouping of decimals, the lengths of dates and
//! times, the plural categories, and the calendar of a locale.

use crate::error::{FormatterError, FormatterErrorView};
use crate::values::str_eq;
use vstd::prelude::*;

verus! {

/// When to display the sign of a number.
#[derive(Debug, Clone, Copy, PartialEq, Eq, Structural)]
pub enum SignOption {
    Auto,
    Never,
    Always,
    ExceptZero,
    Negative,
}

/// When to render grouping separators of a number.
#[derive(Debug, Clone, Copy, PartialEq, Eq, Structural)]
pub enum GroupingStrategy {
    Auto,
    Never,
    Always,
    Min2,
}

/// The length of a formatted date.
#[derive(Debug, Clone, Copy, PartialEq, Eq, Structural)]
pub enum DateLength {
    Full,
    Long,
    Medium,
    Short,
}

/// The length of a formatted time.
#[derive(Debug, Clone, Copy, PartialEq, Eq, Structural)]
pub enum TimeLength {
    Full,
    Long,
    Medium,
    Short,
}

/// The plural categories.
#[derive(Debug, Clone, Copy, PartialEq, Eq, Structural)]
pub enum PluralForm {
    Zero,
    One,
    Two,
    Few,
    Many,
    Other,
}

/// The sign display named by the option value.
pub open spec fn spec_sign_display(s: Seq<char>) -> Option<SignOption> {
    if s == "auto"@ {
        Some(SignOption::Auto)
    } else if s == "never"@ {
        Some(SignOption::Never)
    } else if s == "always"@ {
        Some(SignOption::Always)
    } else if s == "except_zero"@ {
        Some(SignOption::ExceptZero)
    } else if s == "negative"@ {
        Some(SignOption::Negative)
    } else {
        None
    }
}

/// The option values of the `sign` option of `decimal` with the sign displays that they name: `auto`, `never`
/// (no sign is shown), `always`, `except_zero` and `negative`.
pub open spec fn sign_option_table() -> Seq<(Seq<char>, SignOption)> {
    seq![
        (seq!['a', 'u', 't', 'o'], SignOption::Auto),
        (seq!['n', 'e', 'v', 'e', 'r'], SignOption::Never),
        (seq!['a', 'l', 'w', 'a', 'y', 's'], SignOption::Always),
        (seq!['e', 'x', 'c', 'e', 'p', 't', '_', 'z', 'e', 'r', 'o'], SignOption::ExceptZero),
        (seq!['n', 'e', 'g', 'a', 't', 'i', 'v', 'e'], SignOption::Negative),
    ]
}

/// Each option value of the table names its sign display, and a value outside the table names none.
pub proof fn lemma_sign_option_table(s: Seq<char>)
    ensures
        forall|k: int| 0 <= k < 5 ==> spec_sign_display(#[trigger] sign_option_table()[k].0) == Some(sign_option_table()[k].1),
        (forall|k: int| 0 <= k < 5 ==> s != #[trigger] sign_option_table()[k].0) ==> spec_sign_display(s) is None,
{
    reveal_strlit("auto");
    reveal_strlit("never");
    reveal_strlit("always");
    reveal_strlit("except_zero");
    reveal_strlit("negative");
    let t = sign_option_table();
    assert(t[0].0 =~= "auto"@);
    assert(t[1].0 =~= "never"@);
    assert(t[2].0 =~= "always"@);
    assert(t[3].0 =~= "except_zero"@);
    assert(t[4].0 =~= "negative"@);
    assert(t[1].0 != "auto"@ && t[1].0[0] != 'a');
    assert(t[3].0 != "auto"@ && t[3].0 != "never"@ && t[3].0 != "always"@);
    assert(t[4].0 != "auto"@ && t[4].0 != "never"@ && t[4].0 != "always"@ && t[4].0 != "except_zero"@);
    assert(t[2].0 != "auto"@ && t[2].0 != "never"@);
}

/// The grouping strategy named by the option value.
pub open spec fn spec_grouping(s: Seq<char>) -> Option<GroupingStrategy> {
    if s == "auto"@ {
        Some(GroupingStrategy::Auto)
    } else if s == "never"@ {
        Some(GroupingStrategy::Never)
    } else if s == "always"@ {
        Some(GroupingStrategy::Always)
    } else if s == "min2"@ {
        Some(GroupingStrategy::Min2)
    } else {
        None
    }
}

/// The date length named by the option value.
pub open spec fn spec_date_length(s: Seq<char>) -> Option<DateLength> {
    if s == "full"@ {
        Some(DateLength::Full)
    } else if s == "long"@ {
        Some(DateLength::Long)
    } else if s == "medium"@ {
        Some(DateLength::Medium)
    } else if s == "short"@ {
        Some(DateLength::Short)
    } else {
        None
    }
}

/// The time length named by the option value.
pub open spec fn spec_time_length(s: Seq<char>) -> Option<TimeLength> {
    if s == "full"@ {
        Some(TimeLength::Full)
    } else if s == "long"@ {
        Some(TimeLength::Long)
    } else if s == "medium"@ {
        Some(TimeLength::Medium)
    } else if s == "short"@ {
        Some(TimeLength::Short)
    } else {
        None
    }
}

/// The name of a plural category.
pub open spec fn spec_plural_category(c: PluralForm) -> Seq<char> {
    match c {
        PluralForm::Zero => "zero"@,
        PluralForm::One => "one"@,
        PluralForm::Two => "two"@,
        PluralForm::Few => "few"@,
        PluralForm::Many => "many"@,
        PluralForm::Other => "other"@,
    }
}

/// Whether the selector is the name of a plural category.
pub open spec fn is_plural_selector(s: Seq<char>) -> bool {
    s == "zero"@ || s == "one"@ || s == "two"@ || s == "few"@ || s == "many"@ || s == "other"@
}

/// Whether the calendar is one of the supported calendars.
pub open spec fn is_calendar(s: Seq<char>) -> bool {
    s == "gregorian"@ || s == "buddhist"@ || s == "japanese"@ || s == "ethiopian"@ || s == "indian"@ || s
        == "coptic"@ || s == "iso"@
}

/// The values of the `group` option of `decimal` name these grouping strategies: `auto`, `never` (no
/// grouping separators), `always` and `min2`; no other value names one.
pub proof fn lemma_grouping_table(s: Seq<char>)
    ensures
        spec_grouping(seq!['a', 'u', 't', 'o']) == Some(GroupingStrategy::Auto),
        spec_grouping(seq!['n', 'e', 'v', 'e', 'r']) == Some(GroupingStrategy::Never),
        spec_grouping(seq!['a', 'l', 'w', 'a', 'y', 's']) == Some(GroupingStrategy::Always),
        spec_grouping(seq!['m', 'i', 'n', '2']) == Some(GroupingStrategy::Min2),
        s != seq!['a', 'u', 't', 'o'] && s != seq!['n', 'e', 'v', 'e', 'r'] && s != seq!['a', 'l', 'w', 'a', 'y', 's'] && s != seq!['m', 'i', 'n', '2'] ==> spec_grouping(s) is None,
{
    reveal_strlit("auto");
    reveal_strlit("never");
    reveal_strlit("always");
    reveal_strlit("min2");
    assert(seq!['a', 'u', 't', 'o'] =~= "auto"@);
    assert(seq!['n', 'e', 'v', 'e', 'r'] =~= "never"@);
    assert(seq!['a', 'l', 'w', 'a', 'y', 's'] =~= "always"@);
    assert(seq!['m', 'i', 'n', '2'] =~= "min2"@);
}

/// The values of the `date` option of `date_time` name these lengths: `full`, `long`, `medium` and `short`;
/// no other value names one.
pub proof fn lemma_date_length_table(s: Seq<char>)
    ensures
        spec_date_length(seq!['f', 'u', 'l', 'l']) == Some(DateLength::Full),
        spec_date_length(seq!['l', 'o', 'n', 'g']) == Some(DateLength::Long),
        spec_date_length(seq!['m', 'e', 'd', 'i', 'u', 'm']) == Some(DateLength::Medium),
        spec_date_length(seq!['s', 'h', 'o', 'r', 't']) == Some(DateLength::Short),
        s != seq!['f', 'u', 'l', 'l'] && s != seq!['l', 'o', 'n', 'g'] && s != seq!['m', 'e', 'd', 'i', 'u', 'm'] && s != seq!['s', 'h', 'o', 'r', 't'] ==> spec_date_length(s) is None,
{
    reveal_strlit("full");
    reveal_strlit("long");
    reveal_strlit("medium");
    reveal_strlit("short");
    assert(seq!['f', 'u', 'l', 'l'] =~= "full"@);
    assert(seq!['l', 'o', 'n', 'g'] =~= "long"@);
    assert(seq!['m', 'e', 'd', 'i', 'u', 'm'] =~= "medium"@);
    assert(seq!['s', 'h', 'o', 'r', 't'] =~= "short"@);
}

/// The values of the `time` option of `date_time` name these lengths: `full`, `long`, `medium` and `short`;
/// no other value names one.
pub proof fn lemma_time_length_table(s: Seq<char>)
    ensures
        spec_time_length(seq!['f', 'u', 'l', 'l']) == Some(TimeLength::Full),
        spec_time_length(seq!['l', 'o', 'n', 'g']) == Some(TimeLength::Long),
        spec_time_length(seq!['m', 'e', 'd', 'i', 'u', 'm']) == Some(TimeLength::Medium),
        spec_time_length(seq!['s', 'h', 'o', 'r', 't']) == Some(TimeLength::Short),
        s != seq!['f', 'u', 'l', 'l'] && s != seq!['l', 'o', 'n', 'g'] && s != seq!['m', 'e', 'd', 'i', 'u', 'm'] && s != seq!['s', 'h', 'o', 'r', 't'] ==> spec_time_length(s) is None,
{
    reveal_strlit("full");
    reveal_strlit("long");
    reveal_strlit("medium");
    reveal_strlit("short");
    assert(seq!['f', 'u', 'l', 'l'] =~= "full"@);
    assert(seq!['l', 'o', 'n', 'g'] =~= "long"@);
    assert(seq!['m', 'e', 'd', 'i', 'u', 'm'] =~= "medium"@);
    assert(seq!['s', 'h', 'o', 'r', 't'] =~= "short"@);
}

/// The plural categories are named `zero`, `one`, `two`, `few`, `many` and `other`, and these are the plural
/// selectors.
pub proof fn lemma_plural_category_names(s: Seq<char>)
    ensures
        spec_plural_category(PluralForm::Zero) == seq!['z', 'e', 'r', 'o'],
        spec_plural_category(PluralForm::One) == seq!['o', 'n', 'e'],
        spec_plural_category(PluralForm::Two) == seq!['t', 'w', 'o'],
        spec_plural_category(PluralForm::Few) == seq!['f', 'e', 'w'],
        spec_plural_category(PluralForm::Many) == seq!['m', 'a', 'n', 'y'],
        spec_plural_category(PluralForm::Other) == seq!['o', 't', 'h', 'e', 'r'],
        is_plural_selector(s) <==> (s == seq!['z', 'e', 'r', 'o'] || s == seq!['o', 'n', 'e'] || s == seq!['t', 'w', 'o'] || s == seq!['f', 'e', 'w'] || s == seq!['m', 'a', 'n', 'y'] || s == seq!['o', 't', 'h', 'e', 'r']),
{
    reveal_strlit("zero");
    reveal_strlit("one");
    reveal_strlit("two");
    reveal_strlit("few");
    reveal_strlit("many");
    reveal_strlit("other");
    assert(seq!['z', 'e', 'r', 'o'] =~= "zero"@);
    assert(seq!['o', 'n', 'e'] =~= "one"@);
    assert(seq!['t', 'w', 'o'] =~= "two"@);
    assert(seq!['f', 'e', 'w'] =~= "few"@);
    assert(seq!['m', 'a', 'n', 'y'] =~= "many"@);
    assert(seq!['o', 't', 'h', 'e', 'r'] =~= "other"@);
}

/// The error for an invalid option value.
pub open spec fn invalid_option_value(value: Seq<char>, option: Seq<char>, keyword: Seq<char>) -> FormatterErrorView {
    FormatterErrorView::InvalidOptionValue(value, option, keyword)
}

/// The sign display of the `sign` option of `decimal`; fails with `InvalidOptionValue` for an unknown value.
pub fn sign_display(sign: &str) -> (result: Result<SignOption, FormatterError>)
    ensures
        match spec_sign_display(sign@) {
            Some(d) => result == Ok::<SignOption, FormatterError>(d),
            None => result matches Err(e) && e@ == invalid_option_value(sign@, "sign"@, "decimal"@),
        },
{
    if str_eq(sign, "auto") {
        Ok(SignOption::Auto)
    } else if str_eq(sign, "never") {
        Ok(SignOption::Never)
    } else if str_eq(sign, "always") {
        Ok(SignOption::Always)
    } else if str_eq(sign, "except_zero") {
        Ok(SignOption::ExceptZero)
    } else if str_eq(sign, "negative") {
        Ok(SignOption::Negative)
    } else {
        Err(FormatterError::InvalidOptionValue(sign.to_owned(), "sign".to_owned(), "decimal".to_owned()))
    }
}

/// The grouping strategy of the `group` option of `decimal`; fails with `InvalidOptionValue` for an unknown
/// value.
pub fn decimal_grouping_display(group: &str) -> (result: Result<GroupingStrategy, FormatterError>)
    ensures
        match spec_grouping(group@) {
            Some(g) => result == Ok::<GroupingStrategy, FormatterError>(g),
            None => result matches Err(e) && e@ == invalid_option_value(group@, "group"@, "decimal"@),
        },
{
    if str_eq(group, "auto") {
        Ok(GroupingStrategy::Auto)
    } else if str_eq(group, "never") {
        Ok(GroupingStrategy::Never)
    } else if str_eq(group, "always") {
        Ok(GroupingStrategy::Always)
    } else if str_eq(group, "min2") {
        Ok(GroupingStrategy::Min2)
    } else {
        Err(FormatterError::InvalidOptionValue(group.to_owned(), "group".to_owned(), "decimal".to_owned()))
    }
}

/// The date length of the `date` option of `date_time`; fails with `InvalidOptionValue` for an unknown value.
pub fn date_length(len: &str) -> (result: Result<DateLength, FormatterError>)
    ensures
        match spec_date_length(len@) {
            Some(d) => result == Ok::<DateLength, FormatterError>(d),
            None => result matches Err(e) && e@ == invalid_option_value(len@, "date"@, "date_time"@),
        },
{
    if str_eq(len, "full") {
        Ok(DateLength::Full)
    } else if str_eq(len, "long") {
        Ok(DateLength::Long)
    } else if str_eq(len, "medium") {
        Ok(DateLength::Medium)
    } else if str_eq(len, "short") {
        Ok(DateLength::Short)
    } else {
        Err(FormatterError::InvalidOptionValue(len.to_owned(), "date".to_owned(), "date_time".to_owned()))
    }
}

/// The time length of the `time` option of `date_time`; fails with `InvalidOptionValue` for an unknown value.
pub fn time_length(len: &str) -> (result: Result<TimeLength, FormatterError>)
    ensures
        match spec_time_length(len@) {
            Some(t) => result == Ok::<TimeLength, FormatterError>(t),
            None => result matches Err(e) && e@ == invalid_option_value(len@, "time"@, "date_time"@),
        },
{
    if str_eq(len, "full") {
        Ok(TimeLength::Full)
    } else if str_eq(len, "long") {
        Ok(TimeLength::Long)
    } else if str_eq(len, "medium") {
        Ok(TimeLength::Medium)
    } else if str_eq(len, "short") {
        Ok(TimeLength::Short)
    } else {
        Err(FormatterError::InvalidOptionValue(len.to_owned(), "time".to_owned(), "date_time".to_owned()))
    }
}

/// The name of the plural category, as the selectors of `plural` and `ordinal` patterns use it.
pub fn plural_category(category: PluralForm) -> (result: &'static str)
    ensures
        result@ == spec_plural_category(category),
{
    match category {
        PluralForm::Zero => "zero",
        PluralForm::One => "one",
        PluralForm::Two => "two",
        PluralForm::Few => "few",
        PluralForm::Many => "many",
        PluralForm::Other => "other",
    }
}

/// Whether the selector is the name of a plural category.
pub fn plural_selector(s: &str) -> (result: bool)
    ensures
        result == is_plural_selector(s@),
{
    str_eq(s, "zero") || str_eq(s, "one") || str_eq(s, "two") || str_eq(s, "few") || str_eq(s, "many")
        || str_eq(s, "other")
}

/// Whether the calendar is one of the supported calendars.
pub fn calendar(s: &str) -> (result: bool)
    ensures
        result == is_calendar(s@),
{
    str_eq(s, "gregorian") || str_eq(s, "buddhist") || str_eq(s, "japanese") || str_eq(s, "ethiopian")
        || str_eq(s, "indian") || str_eq(s, "coptic") || str_eq(s, "iso")
}

/// The position of the first occurrence of `pattern` in `s` at or after `from`.
pub open spec fn find_from(s: Seq<char>, pattern: Seq<char>, from: int) -> Option<int>
    decreases s.len() - from,
{
    if from < 0 || from >= s.len() || from + pattern.len() > s.len() {
        None
    } else if s.subrange(from, from + pattern.len()) == pattern {
        Some(from)
    } else {
        find_from(s, pattern, from + 1)
    }
}

/// The position of the first hyphen of `s` at or after `from`.
pub open spec fn hyphen_from(s: Seq<char>, from: int) -> Option<int>
    decreases s.len() - from,
{
    if from < 0 || from >= s.len() {
        None
    } else if s[from] == '-' {
        Some(from)
    } else {
        hyphen_from(s, from + 1)
    }
}

/// The locale string with the calendar: the Unicode extension `-u-ca-` and the calendar are appended, or, where
/// the locale already has a calendar extension, its calendar is replaced.
pub open spec fn spec_calendar_locale(locale: Seq<char>, calendar: Seq<char>) -> Seq<char> {
    let tag = "-u-ca-"@;
    match find_from(locale, tag, 0) {
        None => locale + tag + calendar,
        Some(p) => match hyphen_from(locale, p + 6) {
            None => locale.take(p) + tag + calendar,
            Some(e) => locale.take(p) + tag + calendar + "-"@ + locale.skip(e + 1),
        },
    }
}

/// Whether `pattern` occurs in `s` at position `at`.
fn occurs_at(s: &Vec<char>, pattern: &Vec<char>, at: usize) -> (result: bool)
    requires
        at + pattern@.len() <= s@.len(),
    ensures
        result == (s@.subrange(at as int, at + pattern@.len()) == pattern@),
{
    let mut k: usize = 0;
    while k < pattern.len()
        invariant
            at + pattern@.len() <= s.len(),
            0 <= k <= pattern@.len(),
            forall|j: int| 0 <= j < k ==> s@[at + j] == pattern@[j],
        decreases pattern.len() - k,
    {
        if s[at + k] != pattern[k] {
            assert(s@.subrange(at as int, at + pattern@.len())[k as int] != pattern@[k as int]);
            return false;
        }
        k = k + 1;
    }
    assert(s@.subrange(at as int, at + pattern@.len()) =~= pattern@);
    true
}

/// The characters of a string slice, in order.
pub fn chars_of(s: &str) -> (result: Vec<char>)
    ensures
        result@ == s@,
{
    let n = s.unicode_len();
    let mut result: Vec<char> = Vec::new();
    let mut i: usize = 0;
    while i < n
        invariant
            n == s@.len(),
            0 <= i <= n,
            result@ == s@.take(i as int),
        decreases n - i,
    {
        let c = s.get_char(i);
        result.push(c);
        assert(s@.take(i + 1) == s@.take(i as int).push(c));
        i = i + 1;
    }
    assert(s@.take(n as int) == s@);
    result
}

/// Appends the characters `chars[from..to]` to the string.
pub fn push_chars(string: &mut String, chars: &Vec<char>, from: usize, to: usize)
    requires
        from <= to <= chars@.len(),
    ensures
        final(string)@ == old(string)@ + chars@.subrange(from as int, to as int),
{
    let mut i = from;
    while i < to
        invariant
            from <= i <= to <= chars@.len(),
            string@ == old(string)@ + chars@.subrange(from as int, i as int),
        decreases to - i,
    {
        crate::lexer::push_char(string, chars[i]);
        assert(chars@.subrange(from as int, i + 1) == chars@.subrange(from as int, i as int).push(chars@[i as int]));
        i = i + 1;
    }
}

/// The locale string with the calendar, as [`spec_calendar_locale`] states.
pub fn calendar_locale(locale: &str, calendar: &str) -> (result: String)
    ensures
        result@ == spec_calendar_locale(locale@, calendar@),
{
    let s = chars_of(locale);
    let tag = chars_of("-u-ca-");
    proof {
        reveal_strlit("-u-ca-");
        reveal_strlit("-");
    }
    let n = s.len();
    let mut p: usize = 0;
    let mut found = false;
    while n >= 6 && p <= n - 6
        invariant_except_break
            !found,
        invariant
            n == s@.len(),
            tag@ == "-u-ca-"@,
            tag@.len() == 6,
            p <= n,
            find_from(s@, tag@, 0) == find_from(s@, tag@, p as int),
        ensures
            found ==> p + 6 <= n && find_from(s@, tag@, 0) == Some(p as int),
            !found ==> find_from(s@, tag@, 0) is None,
        decreases n - p,
    {
        if occurs_at(&s, &tag, p) {
            found = true;
            break;
        }
        p = p + 1;
    }
    let mut result = String::new();
    if !found {
        result.append(locale);
        result.append("-u-ca-");
        result.append(calendar);
        return result;
    }
    let mut e = p + 6;
    while e < n
        invariant
            n == s@.len(),
            p + 6 <= e <= n,
            hyphen_from(s@, p + 6) == hyphen_from(s@, e as int),
        ensures
            e < n ==> hyphen_from(s@, p + 6) == Some(e as int),
            e >= n ==> hyphen_from(s@, p + 6) is None,
        decreases n - e,
    {
        if s[e] == '-' {
            break;
        }
        e = e + 1;
    }
    push_chars(&mut result, &s, 0, p);
    result.append("-u-ca-");
    result.append(calendar);
    if e < n {
        result.append("-");
        push_chars(&mut result, &s, e + 1, n);
        assert(s@.subrange(0, p as int) == s@.take(p as int));
        assert(s@.subrange(e + 1, n as int) == s@.skip(e + 1));
    } else {
        assert(s@.subrange(0, p as int) == s@.take(p as int));
    }
    result
}

} // verus!
