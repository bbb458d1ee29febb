//! The calls into ICU4X and into std's integer parsing that the formatter makes.
//!
//! Locales are held as strings: the canonical form of a parsed language identifier. The results of the ICU4X
//! components with their compiled data are functions of their arguments and are named below; what they are
//! on given values is the business of ICU4X and CLDR.

use crate::error::{FormatterError, FormatterErrorView};
use crate::options::{DateLength, GroupingStrategy, PluralForm, SignOption, TimeLength};
use crate::iso::iso_date_accepted;
use crate::values::{Decimal, DecimalSign, IsoDate, IsoDateTime, IsoTime};
use fixed_decimal::FixedDecimal;
use icu_provider::DataLocale;
use vstd::prelude::*;

verus! {

/// The data locale of an ICU4X data request.
#[verifier::external_type_specification]
#[verifier::external_body]
pub struct ExDataLocale(icu_provider::DataLocale);

/// The sign display of `fixed_decimal`.
#[verifier::external_type_specification]
#[verifier::external_body]
pub struct ExSignDisplay(fixed_decimal::SignDisplay);

/// The options of the decimal formatter of `icu_decimal`.
#[verifier::external_type_specification]
#[verifier::external_body]
pub struct ExFixedDecimalFormatterOptions(icu_decimal::options::FixedDecimalFormatterOptions);

/// The plural category of `icu_plurals`.
#[verifier::external_type_specification]
#[verifier::external_body]
pub struct ExPluralCategory(icu_plurals::PluralCategory);

/// The plural rules of `icu_plurals`.
#[verifier::external_type_specification]
#[verifier::external_body]
pub struct ExPluralRules(icu_plurals::PluralRules);

/// The date length of `icu_datetime`.
#[verifier::external_type_specification]
#[verifier::external_body]
pub struct ExDateLength(icu_datetime::options::length::Date);

/// The time length of `icu_datetime`.
#[verifier::external_type_specification]
#[verifier::external_body]
pub struct ExTimeLength(icu_datetime::options::length::Time);

/// The time of day of `icu_calendar`.
#[verifier::external_type_specification]
#[verifier::external_body]
pub struct ExTime(icu_calendar::Time);

/// An arbitrary-precision decimal number of the `fixed_decimal` crate.
#[verifier::external_type_specification]
#[verifier::external_body]
pub struct ExFixedDecimal(fixed_decimal::FixedDecimal);

/// The canonical form of the language identifier that `icu_locid` parses from the string, or `None` where it
/// does not parse.
pub uninterp spec fn spec_locale(s: Seq<char>) -> Option<Seq<char>>;

/// The text that the compiled-data `FixedDecimalFormatter` of `icu_decimal` makes, for the locale, of the
/// `FixedDecimal::from(digits).multiplied_pow10(exponent)` with the sign `number_sign`, with the
/// sign display and the grouping strategy (the defaults where `None`); `None` where the formatter cannot be
/// created.
pub uninterp spec fn spec_decimal_text(
    locale: Seq<char>,
    sign: Option<SignOption>,
    group: Option<GroupingStrategy>,
    number_sign: DecimalSign,
    digits: int,
    exponent: int,
) -> Option<Seq<char>>;

/// The plural category that the compiled-data `PluralRules` of `icu_plurals` (ordinal or cardinal) give, for
/// the locale, the `FixedDecimal::from(digits).multiplied_pow10(exponent)` with the sign `number_sign`; `None`
/// where the rules cannot be created.
pub uninterp spec fn spec_plural(
    locale: Seq<char>,
    ordinal: bool,
    number_sign: DecimalSign,
    digits: int,
    exponent: int,
) -> Option<PluralForm>;

/// The sign of the `FixedDecimal` of an integer: negative below zero, else none.
pub open spec fn integer_sign(value: int) -> DecimalSign {
    if value < 0 {
        DecimalSign::Negative
    } else {
        DecimalSign::Unsigned
    }
}

/// The digits of the `FixedDecimal` of an integer: its absolute value.
pub open spec fn integer_digits(value: int) -> int {
    if value < 0 {
        -value
    } else {
        value
    }
}

/// The text of the integer, as [`spec_decimal_text`] names it for its `FixedDecimal`.
pub open spec fn integer_text(locale: Seq<char>, sign: Option<SignOption>, group: Option<GroupingStrategy>, value: int) -> Option<
    Seq<char>,
> {
    spec_decimal_text(locale, sign, group, integer_sign(value), integer_digits(value), 0)
}

/// The plural category of the integer, as [`spec_plural`] names it for its `FixedDecimal`.
pub open spec fn integer_plural(locale: Seq<char>, ordinal: bool, value: int) -> Option<PluralForm> {
    spec_plural(locale, ordinal, integer_sign(value), integer_digits(value), 0)
}

/// The text of the decimal number, as [`spec_decimal_text`] names it.
pub open spec fn decimal_text(locale: Seq<char>, sign: Option<SignOption>, group: Option<GroupingStrategy>, value: Decimal) -> Option<
    Seq<char>,
> {
    spec_decimal_text(locale, sign, group, value.sign, value.digits as int, value.exponent as int)
}

/// The plural category of the decimal number, as [`spec_plural`] names it.
pub open spec fn decimal_plural(locale: Seq<char>, ordinal: bool, value: Decimal) -> Option<PluralForm> {
    spec_plural(locale, ordinal, value.sign, value.digits as int, value.exponent as int)
}

/// The text that the compiled-data `DateFormatter` of `icu_datetime` makes of the ISO date for the locale and
/// length; `None` where the formatter fails.
pub uninterp spec fn spec_date_text(locale: Seq<char>, length: DateLength, date: IsoDate) -> Option<Seq<char>>;

/// The text that the compiled-data `TimeFormatter` of `icu_datetime` makes of the time for the locale and
/// length; `None` where the formatter cannot be created.
pub uninterp spec fn spec_time_text(locale: Seq<char>, length: TimeLength, time: IsoTime) -> Option<Seq<char>>;

/// The text that the compiled-data `DateTimeFormatter` of `icu_datetime` makes of the ISO date and time for the
/// locale and lengths; `None` where the formatter fails.
pub uninterp spec fn spec_date_time_text(
    locale: Seq<char>,
    date_length: DateLength,
    time_length: TimeLength,
    date_time: IsoDateTime,
) -> Option<Seq<char>>;

/// Whether `Date::try_new_iso_date` of `icu_calendar` accepts the date.
pub open spec fn spec_date_ok(date: IsoDate) -> bool {
    iso_date_accepted(date.year as int, date.month as int, date.day as int)
}

/// Whether `Time::try_new` of `icu_calendar` accepts the time: each component at most its maximum.
pub open spec fn spec_time_ok(time: IsoTime) -> bool {
    time.hour <= 24 && time.minute <= 60 && time.second <= 61 && time.nanosecond <= 999_999_999
}

/// The outcome of formatting a date or time: a `Calendar` error where the calendar refuses it, a `DateTime`
/// error where the formatter fails, and otherwise the text.
pub open spec fn date_outcome(valid: bool, text: Option<Seq<char>>) -> Result<Seq<char>, FormatterErrorView> {
    if !valid {
        Err(FormatterErrorView::Calendar)
    } else {
        match text {
            Some(t) => Ok(t),
            None => Err(FormatterErrorView::DateTime),
        }
    }
}

/// The result agrees with the outcome, its text or error taken by view.
pub open spec fn outcome_agrees(result: Result<String, FormatterError>, outcome: Result<Seq<char>, FormatterErrorView>) -> bool {
    match outcome {
        Ok(t) => result matches Ok(r) && r@ == t,
        Err(e) => result matches Err(err) && err@ == e,
    }
}

/// A locale string is valid when it is the canonical form of a language identifier.
pub open spec fn valid_locale(locale: Seq<char>) -> bool {
    spec_locale(locale) == Some(locale)
}

/// Calls `str::parse::<icu_locid::LanguageIdentifier>` and converts the identifier to its string: the
/// canonical form, named `spec_locale`. Re-parsing the canonical form gives it back, as the ICU4X
/// documentation of `LanguageIdentifier` states for its normalised string form.
#[verifier::external_body]
pub(crate) fn parse_locale(s: &str) -> (result: Result<String, FormatterError>)
    ensures
        match spec_locale(s@) {
            Some(t) => result matches Ok(r) && r@ == t && valid_locale(t),
            None => result matches Err(e) && e@ == FormatterErrorView::Locale,
        },
{
    match s.parse::<icu_locid::LanguageIdentifier>() {
        Ok(language) => Ok(language.to_string()),
        Err(error) => Err(FormatterError::Locale(error)),
    }
}

/// Parses the locale string with `str::parse::<icu_locid::LanguageIdentifier>` and converts the identifier
/// into a data locale; the error is the parser's.
#[verifier::external_body]
fn data_locale(locale: &str) -> (result: Result<DataLocale, FormatterError>)
    ensures
        result is Ok <==> spec_locale(locale@) is Some,
        result matches Err(e) ==> e@ == FormatterErrorView::Locale,
{
    match locale.parse::<icu_locid::LanguageIdentifier>() {
        Ok(language) => Ok(DataLocale::from(&language)),
        Err(error) => Err(FormatterError::Locale(error)),
    }
}

/// The outcome of an ICU4X call for a locale string: a `Locale` error where the string does not parse, and
/// otherwise the outcome of the call.
pub open spec fn with_locale<T>(locale: Seq<char>, outcome: Result<T, FormatterErrorView>) -> Result<T, FormatterErrorView> {
    if spec_locale(locale) is None {
        Err(FormatterErrorView::Locale)
    } else {
        outcome
    }
}

/// An ICU4X result, or the error where it is `None`.
pub open spec fn icu_result<T>(value: Option<T>, error: FormatterErrorView) -> Result<T, FormatterErrorView> {
    match value {
        Some(v) => Ok(v),
        None => Err(error),
    }
}

/// Converts the sign display to that of `fixed_decimal`.
#[verifier::external_body]
fn icu_sign(sign: SignOption) -> (result: fixed_decimal::SignDisplay) {
    match sign {
        SignOption::Auto => fixed_decimal::SignDisplay::Auto,
        SignOption::Never => fixed_decimal::SignDisplay::Never,
        SignOption::Always => fixed_decimal::SignDisplay::Always,
        SignOption::ExceptZero => fixed_decimal::SignDisplay::ExceptZero,
        SignOption::Negative => fixed_decimal::SignDisplay::Negative,
    }
}

/// Converts the grouping strategy (the default where `None`) to the options of `icu_decimal`.
#[verifier::external_body]
fn icu_grouping(group: Option<GroupingStrategy>) -> (result: icu_decimal::options::FixedDecimalFormatterOptions) {
    let mut options = icu_decimal::options::FixedDecimalFormatterOptions::default();
    options.grouping_strategy = match group {
        None => options.grouping_strategy,
        Some(GroupingStrategy::Auto) => icu_decimal::options::GroupingStrategy::Auto,
        Some(GroupingStrategy::Never) => icu_decimal::options::GroupingStrategy::Never,
        Some(GroupingStrategy::Always) => icu_decimal::options::GroupingStrategy::Always,
        Some(GroupingStrategy::Min2) => icu_decimal::options::GroupingStrategy::Min2,
    };
    options
}

/// Calls `FixedDecimalFormatter::try_new` for the locale and grouping, applies the sign display to
/// `FixedDecimal::from(value)`, and formats it: the text named `spec_decimal_text`, for the sign, absolute
/// value and power of ten zero that `FixedDecimal::from` gives an integer.
#[verifier::external_body]
pub(crate) fn format_integer(
    locale: &str,
    sign: Option<SignOption>,
    group: Option<GroupingStrategy>,
    value: i128,
) -> (result: Result<String, FormatterError>)
    ensures
        outcome_agrees(
            result,
            with_locale(locale@, icu_result(spec_decimal_text(locale@, sign, group, integer_sign(value as int), integer_digits(value as int), 0), FormatterErrorView::Decimal)),
        ),
{
    let formatter = icu_decimal::FixedDecimalFormatter::try_new(&data_locale(locale)?, icu_grouping(group))
        .map_err(FormatterError::Decimal)?;
    let mut number = FixedDecimal::from(value);
    if let Some(sign) = sign {
        number.apply_sign_display(icu_sign(sign));
    }
    Ok(formatter.format(&number).to_string())
}

/// As [`format_integer`], for an unsigned integer: `FixedDecimal::from` gives the same decimal for the same
/// integer value, so the text is named `spec_decimal_text` too.
#[verifier::external_body]
pub(crate) fn format_unsigned(
    locale: &str,
    sign: Option<SignOption>,
    group: Option<GroupingStrategy>,
    value: u128,
) -> (result: Result<String, FormatterError>)
    ensures
        outcome_agrees(
            result,
            with_locale(locale@, icu_result(spec_decimal_text(locale@, sign, group, integer_sign(value as int), integer_digits(value as int), 0), FormatterErrorView::Decimal)),
        ),
{
    let formatter = icu_decimal::FixedDecimalFormatter::try_new(&data_locale(locale)?, icu_grouping(group))
        .map_err(FormatterError::Decimal)?;
    let mut number = FixedDecimal::from(value);
    if let Some(sign) = sign {
        number.apply_sign_display(icu_sign(sign));
    }
    Ok(formatter.format(&number).to_string())
}

/// Builds the `FixedDecimal` of the decimal number: `FixedDecimal::from(digits)`, multiplied by ten to the
/// power `exponent` with `multiplied_pow10`, with the sign set by `with_sign`. The number is opaque here.
#[verifier::external_body]
fn fixed_decimal_of(value: Decimal) -> (result: FixedDecimal) {
    let sign = match value.sign {
        DecimalSign::Unsigned => fixed_decimal::Sign::None,
        DecimalSign::Negative => fixed_decimal::Sign::Negative,
        DecimalSign::Positive => fixed_decimal::Sign::Positive,
    };
    FixedDecimal::from(value.digits).multiplied_pow10(value.exponent).with_sign(sign)
}

/// As [`format_integer`], for the `FixedDecimal` of a decimal number: the text named `spec_decimal_text` for
/// its sign, digits and exponent.
#[verifier::external_body]
pub(crate) fn format_decimal(
    locale: &str,
    sign: Option<SignOption>,
    group: Option<GroupingStrategy>,
    value: Decimal,
) -> (result: Result<String, FormatterError>)
    ensures
        outcome_agrees(
            result,
            with_locale(locale@, icu_result(spec_decimal_text(locale@, sign, group, value.sign, value.digits as int, value.exponent as int), FormatterErrorView::Decimal)),
        ),
{
    let formatter = icu_decimal::FixedDecimalFormatter::try_new(&data_locale(locale)?, icu_grouping(group))
        .map_err(FormatterError::Decimal)?;
    let mut number = fixed_decimal_of(value);
    if let Some(sign) = sign {
        number.apply_sign_display(icu_sign(sign));
    }
    Ok(formatter.format(&number).to_string())
}

/// Converts the plural category of `icu_plurals` to this library's.
#[verifier::external_body]
fn plural_category_from(category: icu_plurals::PluralCategory) -> (result: PluralForm) {
    match category {
        icu_plurals::PluralCategory::Zero => PluralForm::Zero,
        icu_plurals::PluralCategory::One => PluralForm::One,
        icu_plurals::PluralCategory::Two => PluralForm::Two,
        icu_plurals::PluralCategory::Few => PluralForm::Few,
        icu_plurals::PluralCategory::Many => PluralForm::Many,
        icu_plurals::PluralCategory::Other => PluralForm::Other,
    }
}

/// Creates the cardinal or ordinal plural rules of `icu_plurals` for the data locale.
#[verifier::external_body]
fn plural_rules(locale: &DataLocale, ordinal: bool) -> (result: Result<icu_plurals::PluralRules, FormatterError>) {
    if ordinal {
        icu_plurals::PluralRules::try_new_ordinal(locale).map_err(FormatterError::PluralRules)
    } else {
        icu_plurals::PluralRules::try_new_cardinal(locale).map_err(FormatterError::PluralRules)
    }
}

/// Calls `PluralRules::category_for` with `FixedDecimal::from(value)`, the rules created for the locale: the
/// category named `spec_plural`, for the sign, absolute value and power of ten zero that `FixedDecimal::from`
/// gives an integer.
#[verifier::external_body]
pub(crate) fn plural_of_integer(locale: &str, ordinal: bool, value: i128) -> (result: Result<
    PluralForm,
    FormatterError,
>)
    ensures
        match with_locale(locale@, icu_result(spec_plural(locale@, ordinal, integer_sign(value as int), integer_digits(value as int), 0), FormatterErrorView::PluralRules)) {
            Ok(c) => result matches Ok(r) && r == c,
            Err(e) => result matches Err(err) && err@ == e,
        },
{
    let rules = plural_rules(&data_locale(locale)?, ordinal)?;
    Ok(plural_category_from(rules.category_for(&FixedDecimal::from(value))))
}

/// As [`plural_of_integer`], for an unsigned integer; named `spec_plural` too.
#[verifier::external_body]
pub(crate) fn plural_of_unsigned(locale: &str, ordinal: bool, value: u128) -> (result: Result<
    PluralForm,
    FormatterError,
>)
    ensures
        match with_locale(locale@, icu_result(spec_plural(locale@, ordinal, integer_sign(value as int), integer_digits(value as int), 0), FormatterErrorView::PluralRules)) {
            Ok(c) => result matches Ok(r) && r == c,
            Err(e) => result matches Err(err) && err@ == e,
        },
{
    let rules = plural_rules(&data_locale(locale)?, ordinal)?;
    Ok(plural_category_from(rules.category_for(&FixedDecimal::from(value))))
}

/// As [`plural_of_integer`], for the `FixedDecimal` of a decimal number: the category named `spec_plural` for
/// its sign, digits and exponent.
#[verifier::external_body]
pub(crate) fn plural_of_decimal(locale: &str, ordinal: bool, value: Decimal) -> (result: Result<
    PluralForm,
    FormatterError,
>)
    ensures
        match with_locale(locale@, icu_result(spec_plural(locale@, ordinal, value.sign, value.digits as int, value.exponent as int), FormatterErrorView::PluralRules)) {
            Ok(c) => result matches Ok(r) && r == c,
            Err(e) => result matches Err(err) && err@ == e,
        },
{
    let rules = plural_rules(&data_locale(locale)?, ordinal)?;
    Ok(plural_category_from(rules.category_for(&fixed_decimal_of(value))))
}

/// Converts the date length to that of `icu_datetime`.
#[verifier::external_body]
fn icu_date_length(length: DateLength) -> (result: icu_datetime::options::length::Date) {
    match length {
        DateLength::Full => icu_datetime::options::length::Date::Full,
        DateLength::Long => icu_datetime::options::length::Date::Long,
        DateLength::Medium => icu_datetime::options::length::Date::Medium,
        DateLength::Short => icu_datetime::options::length::Date::Short,
    }
}

/// Converts the time length to that of `icu_datetime`.
#[verifier::external_body]
fn icu_time_length(length: TimeLength) -> (result: icu_datetime::options::length::Time) {
    match length {
        TimeLength::Full => icu_datetime::options::length::Time::Full,
        TimeLength::Long => icu_datetime::options::length::Time::Long,
        TimeLength::Medium => icu_datetime::options::length::Time::Medium,
        TimeLength::Short => icu_datetime::options::length::Time::Short,
    }
}

/// Creates the time with `Time::try_new` of `icu_calendar`.
#[verifier::external_body]
fn icu_time(time: IsoTime) -> (result: Result<icu_calendar::Time, FormatterError>) {
    icu_calendar::Time::try_new(time.hour, time.minute, time.second, time.nanosecond).map_err(
        FormatterError::Calendar,
    )
}

/// Creates the ISO date with `Date::try_new_iso_date`, then calls `DateFormatter::try_new_with_length` and
/// `format_to_string` with the date in the `AnyCalendar` form: the text named `spec_date_text`. The calendar
/// refuses a date as [`iso_date_accepted`] states.
#[verifier::external_body]
pub(crate) fn format_date(locale: &str, length: DateLength, date: IsoDate) -> (result: Result<
    String,
    FormatterError,
>)
    ensures
        outcome_agrees(result, with_locale(locale@, date_outcome(spec_date_ok(date), spec_date_text(locale@, length, date)))),
{
    let data_locale = data_locale(locale)?;
    let value = icu_calendar::Date::try_new_iso_date(date.year, date.month, date.day).map_err(FormatterError::Calendar)?;
    let formatter = icu_datetime::DateFormatter::try_new_with_length(&data_locale, icu_date_length(length))
        .map_err(FormatterError::DateTime)?;
    formatter.format_to_string(&value.to_any()).map_err(FormatterError::DateTime)
}

/// Creates the time with `Time::try_new`, which checks each component against its maximum, then calls
/// `TimeFormatter::try_new_with_length` and `format_to_string`: the text named `spec_time_text`.
#[verifier::external_body]
pub(crate) fn format_time(locale: &str, length: TimeLength, time: IsoTime) -> (result: Result<
    String,
    FormatterError,
>)
    ensures
        outcome_agrees(result, with_locale(locale@, date_outcome(spec_time_ok(time), spec_time_text(locale@, length, time)))),
{
    let data_locale = data_locale(locale)?;
    let value = icu_time(time)?;
    let formatter = icu_datetime::TimeFormatter::try_new_with_length(&data_locale, icu_time_length(length))
        .map_err(FormatterError::DateTime)?;
    Ok(formatter.format_to_string(&value))
}

/// Creates the ISO date and the time as [`format_date`] and [`format_time`] do, then calls
/// `DateTimeFormatter::try_new` with the date and time lengths and `format_to_string` with the date and time
/// in the `AnyCalendar` form: the text named `spec_date_time_text`.
#[verifier::external_body]
pub(crate) fn format_date_time(
    locale: &str,
    date_length: DateLength,
    time_length: TimeLength,
    date_time: IsoDateTime,
) -> (result: Result<String, FormatterError>)
    ensures
        outcome_agrees(
            result,
            with_locale(
                locale@,
                date_outcome(
                    spec_date_ok(date_time.date) && spec_time_ok(date_time.time),
                    spec_date_time_text(locale@, date_length, time_length, date_time),
                ),
            ),
        ),
{
    let data_locale = data_locale(locale)?;
    let d = date_time.date;
    let date = icu_calendar::Date::try_new_iso_date(d.year, d.month, d.day).map_err(FormatterError::Calendar)?;
    let value = icu_calendar::DateTime::new(date, icu_time(date_time.time)?);
    let options = icu_datetime::options::length::Bag::from_date_time_style(
        icu_date_length(date_length),
        icu_time_length(time_length),
    );
    let formatter = icu_datetime::DateTimeFormatter::try_new(&data_locale, options.into())
        .map_err(FormatterError::DateTime)?;
    formatter.format_to_string(&value.to_any()).map_err(FormatterError::DateTime)
}

} // verus!
