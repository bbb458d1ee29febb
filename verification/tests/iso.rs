use i18n_localiser::error::FormatterError;
use i18n_localiser::iso::{decompose_iso_date, decompose_iso_time};
use i18n_localiser::options::{calendar, calendar_locale, date_length, decimal_grouping_display, plural_selector, sign_display, time_length, DateLength, GroupingStrategy, SignOption, TimeLength};
use i18n_localiser::values::{IsoDate, IsoTime};

#[test]
fn iso_dates() {
    assert_eq!(decompose_iso_date("2024-02-29").unwrap(), IsoDate { year: 2024, month: 2, day: 29 });
    assert_eq!(decompose_iso_date("+248624-10-06").unwrap(), IsoDate { year: 248624, month: 10, day: 6 });
    assert_eq!(decompose_iso_date("-0044-03-15").unwrap(), IsoDate { year: -44, month: 3, day: 15 });
    assert_eq!(decompose_iso_date("1999-12").unwrap(), IsoDate { year: 1999, month: 12, day: 1 });
    assert_eq!(decompose_iso_date("1999").unwrap(), IsoDate { year: 1999, month: 1, day: 1 });
    assert!(matches!(decompose_iso_date("2023-02-29"), Err(FormatterError::Calendar(_))));
    assert!(matches!(decompose_iso_date("20x3-02-01"), Err(FormatterError::ParseInt(_))));
}

#[test]
fn iso_times() {
    assert_eq!(decompose_iso_time("T05:47:23.254").unwrap(), IsoTime { hour: 5, minute: 47, second: 23, nanosecond: 254 });
    assert_eq!(decompose_iso_time("054723").unwrap(), IsoTime { hour: 5, minute: 47, second: 23, nanosecond: 0 });
    assert_eq!(decompose_iso_time("T12:30").unwrap(), IsoTime { hour: 12, minute: 30, second: 0, nanosecond: 0 });
    assert_eq!(decompose_iso_time("T").unwrap(), IsoTime { hour: 0, minute: 0, second: 0, nanosecond: 0 });
    assert_eq!(decompose_iso_time("T10:00:00+02:00").unwrap(), IsoTime { hour: 10, minute: 0, second: 0, nanosecond: 0 });
    assert_eq!(decompose_iso_time("T05:47:23.254Z").unwrap(), IsoTime { hour: 5, minute: 47, second: 23, nanosecond: 254 });
    assert_eq!(decompose_iso_time("T10:15Z").unwrap(), IsoTime { hour: 10, minute: 15, second: 0, nanosecond: 0 });
    assert!(matches!(decompose_iso_time("T25:00"), Err(FormatterError::Calendar(_))));
}

#[test]
fn option_values() {
    assert_eq!(sign_display("always").unwrap(), SignOption::Always);
    assert_eq!(sign_display("negative").unwrap(), SignOption::Negative);
    assert!(matches!(sign_display("sometimes"), Err(FormatterError::InvalidOptionValue(ref v, ref o, ref k)) if v == "sometimes" && o == "sign" && k == "decimal"));
    assert_eq!(decimal_grouping_display("min2").unwrap(), GroupingStrategy::Min2);
    assert!(matches!(decimal_grouping_display("x"), Err(FormatterError::InvalidOptionValue(_, ref o, _)) if o == "group"));
    assert_eq!(date_length("medium").unwrap(), DateLength::Medium);
    assert!(matches!(date_length("tiny"), Err(FormatterError::InvalidOptionValue(_, ref o, ref k)) if o == "date" && k == "date_time"));
    assert_eq!(time_length("short").unwrap(), TimeLength::Short);
    assert!(matches!(time_length("tiny"), Err(FormatterError::InvalidOptionValue(_, ref o, _)) if o == "time"));
    assert!(plural_selector("few"));
    assert!(!plural_selector("several"));
    assert!(calendar("japanese"));
    assert!(!calendar("martian"));
}

#[test]
fn calendar_locales() {
    assert_eq!(calendar_locale("en-ZA", "japanese"), "en-ZA-u-ca-japanese");
    assert_eq!(calendar_locale("th-u-ca-buddhist", "gregorian"), "th-u-ca-gregorian");
    assert_eq!(calendar_locale("th-u-ca-buddhist-nu-thai", "iso"), "th-u-ca-iso-nu-thai");
}
