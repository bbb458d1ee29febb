use i18n_localiser::command::{BuiltinCommand, CommandRegistry};
use i18n_localiser::error::FormatterError;
use i18n_localiser::formatter::Formatter;
use i18n_localiser::lexer::{DataProvider, IcuDataProvider};
use i18n_localiser::values::{Decimal, DecimalSign, IsoDate, IsoDateTime, IsoTime, PlaceholderValue};
use std::rc::Rc;

fn format_with(
    string: &str,
    registry: &CommandRegistry<BuiltinCommand>,
    values: &Vec<(String, PlaceholderValue)>,
) -> Result<String, FormatterError> {
    let icu_data_provider = Rc::new(IcuDataProvider::try_new(DataProvider::Internal).unwrap());
    let language_tag = Rc::new("en-ZA".to_string());
    let mut formatter =
        Formatter::try_new(string, "{}`#", &icu_data_provider, registry, &language_tag).unwrap()?;
    let (text, tag) = formatter.format(values, registry)?;
    assert_eq!(tag.as_str(), "en-ZA");
    Ok(text)
}

fn format(string: &str, values: &Vec<(String, PlaceholderValue)>) -> Result<String, FormatterError> {
    let registry = CommandRegistry::<BuiltinCommand>::new();
    format_with(string, &registry, values)
}

#[test]
fn formatter_plain_text_has_no_grammar() {
    let icu_data_provider = Rc::new(IcuDataProvider::try_new(DataProvider::Internal).unwrap());
    let registry = CommandRegistry::<BuiltinCommand>::new();
    let language_tag = Rc::new("en-ZA".to_string());
    let result = Formatter::try_new("A simple plain text string.", "{}`#", &icu_data_provider, &registry, &language_tag);
    assert!(matches!(result, Some(Err(FormatterError::NoGrammar))), "Strings must be the same.");
}

#[test]
fn formatter_pattern_string() {
    let values = vec![("string".to_string(), PlaceholderValue::String("This is a string.".to_string()))];
    let result = format("Expecting a string for placeholder: {string}", &values).unwrap();
    assert_eq!(result.as_str(), "Expecting a string for placeholder: This is a string.", "Strings must be the same.");
}

#[test]
fn formatter_pattern_plural() {
    let values = vec![("dogs_number".to_string(), PlaceholderValue::Unsigned(3))];
    let result = format(
        "There {dogs_number plural one#one_dog other#dogs} in the park.#{dogs are # dogs}{one_dog is 1 dog}",
        &values,
    )
    .unwrap();
    assert_eq!(result.as_str(), "There are 3 dogs in the park.", "Strings must be the same.");
}

#[test]
fn formatter_pattern_plural_one() {
    let values = vec![("dogs_number".to_string(), PlaceholderValue::Unsigned(1))];
    let result = format(
        "There {dogs_number plural one#one_dog other#dogs} in the park.#{dogs are # dogs}{one_dog is 1 dog}",
        &values,
    )
    .unwrap();
    assert_eq!(result.as_str(), "There is 1 dog in the park.");
}

#[test]
fn formatter_pattern_decimal() {
    let amount = Decimal { sign: DecimalSign::Unsigned, digits: 3678, exponent: -3 };
    let values = vec![("amount".to_string(), PlaceholderValue::FixedDecimal(amount))];
    let result = format("There is {amount decimal} kg of rice in the container.", &values).unwrap();
    assert_eq!(result.as_str(), "There is 3,678 kg of rice in the container.", "Strings must be the same.");
}

#[test]
fn formatter_pattern_decimal_with_option() {
    let amount = Decimal { sign: DecimalSign::Unsigned, digits: 3678, exponent: -3 };
    let values = vec![("amount".to_string(), PlaceholderValue::FixedDecimal(amount))];
    let result = format("There is {amount decimal sign#always} kg of rice in the container.", &values).unwrap();
    assert_eq!(result.as_str(), "There is +3,678 kg of rice in the container.", "Strings must be the same.");
}

#[test]
fn formatter_pattern_integer_decimal() {
    let values = vec![("amount".to_string(), PlaceholderValue::Integer(-1234567))];
    let result = format("{amount decimal}", &values).unwrap();
    assert_eq!(result.as_str(), "-1\u{a0}234\u{a0}567");
}

#[test]
fn pattern_dateime() {
    let date_time = IsoDateTime {
        date: IsoDate { year: 248624, month: 10, day: 6 },
        time: IsoTime { hour: 5, minute: 47, second: 23, nanosecond: 254 },
    };
    let values = vec![("time".to_string(), PlaceholderValue::DateTime(date_time))];
    let result = format("At this point in time {time date_time} the moon winked out.", &values).unwrap();
    assert_eq!(
        result.as_str(),
        "At this point in time 06 Oct 248624, 05:47:23 the moon winked out.",
        "Strings must be the same."
    );
}

#[test]
fn pattern_dateime_string() {
    let values = vec![("time".to_string(), PlaceholderValue::String("+248624-10-06T05:47:23.254".to_string()))];
    let result = format("At this point in time {time date_time} the moon winked out.", &values).unwrap();
    assert_eq!(
        result.as_str(),
        "At this point in time 06 Oct 248624, 05:47:23 the moon winked out.",
        "Strings must be the same."
    );
}

#[test]
fn formatter_missing_value() {
    let values: Vec<(String, PlaceholderValue)> = Vec::new();
    let result = format("Expecting a string for placeholder: {string}", &values);
    assert!(matches!(result, Err(FormatterError::PlaceholderValue(_, ref p)) if p == "string"));
}

#[test]
fn formatter_invalid_keyword() {
    let values = vec![("x".to_string(), PlaceholderValue::Unsigned(1))];
    let result = format("{x colour}", &values);
    assert!(matches!(result, Err(FormatterError::InvalidKeyword(ref k, ref p)) if k == "colour" && p == "x"));
}

#[test]
fn formatter_command_static() {
    let mut registry = CommandRegistry::<BuiltinCommand>::new();
    registry.insert("file_path", BuiltinCommand::FilePath).unwrap();
    let values: Vec<(String, PlaceholderValue)> = Vec::new();
    let result =
        format_with("The file \u{2018}{#file_path `tests/formatter.rs`}\u{2019} failed to open.", &registry, &values)
            .unwrap();
    if std::path::MAIN_SEPARATOR == '\\' {
        assert_eq!(result.as_str(), "The file \u{2018}tests\\formatter.rs\u{2019} failed to open.", "Should be Windows path.");
    } else {
        assert_eq!(result.as_str(), "The file \u{2018}tests/formatter.rs\u{2019} failed to open.", "Should be non-Windows path.");
    }
    let unknown = format_with("{#missing x}", &registry, &values);
    assert!(matches!(unknown, Err(FormatterError::Command(i18n_localiser::error::CommandError::NotFound(ref c))) if c == "missing"));
}

#[test]
fn formatter_command_delayed() {
    let mut registry = CommandRegistry::<BuiltinCommand>::new();
    registry.insert("english_a_or_an", BuiltinCommand::EnglishAOrAn).unwrap();
    let values = vec![
        ("hunter".to_string(), PlaceholderValue::String("owl".to_string())),
        ("prey".to_string(), PlaceholderValue::String("mouse".to_string())),
    ];
    let result = format_with(
        "At night {#english_a_or_an# hunter} {hunter} stalked {#english_a_or_an # prey} {prey}.",
        &registry,
        &values,
    )
    .unwrap();
    assert_eq!(result.as_str(), "At night an owl stalked a mouse.");
}

#[test]
fn formatter_number_sign_kept_between_calls() {
    let icu_data_provider = Rc::new(IcuDataProvider::try_new(DataProvider::Internal).unwrap());
    let registry = CommandRegistry::<BuiltinCommand>::new();
    let language_tag = Rc::new("en-ZA".to_string());
    let string = "There {dogs_number plural one#one_dog other#dogs} in the park.#{dogs are # dogs}{one_dog is 1 dog}";
    let mut formatter = Formatter::try_new(string, "{}`#", &icu_data_provider, &registry, &language_tag).unwrap().unwrap();
    let first = formatter.format(&vec![("dogs_number".to_string(), PlaceholderValue::Unsigned(3))], &registry).unwrap();
    let second = formatter.format(&vec![("dogs_number".to_string(), PlaceholderValue::Unsigned(5))], &registry).unwrap();
    assert_eq!(first.0.as_str(), "There are 3 dogs in the park.");
    assert_eq!(second.0.as_str(), "There are 5 dogs in the park.");
}

#[test]
fn formatter_ordinal() {
    let values = vec![("n".to_string(), PlaceholderValue::Unsigned(2))];
    let result = format("{n ordinal one#st two#nd few#rd other#th}#{st #st}{nd #nd}{rd #rd}{th #th}", &values).unwrap();
    assert_eq!(result.as_str(), "2nd");
}

#[test]
fn formatter_select() {
    let string = "{kind select cat#c dog#d other#o}#{c a cat}{d a dog}{o something}";
    let cat = format(string, &vec![("kind".to_string(), PlaceholderValue::String("cat".to_string()))]).unwrap();
    let other = format(string, &vec![("kind".to_string(), PlaceholderValue::String("other".to_string()))]).unwrap();
    assert_eq!(cat.as_str(), "a cat");
    assert_eq!(other.as_str(), "something");
    let missing = format(string, &vec![("kind".to_string(), PlaceholderValue::String("bird".to_string()))]);
    assert!(matches!(missing, Err(FormatterError::SelectorsIndexNamed(ref s, 0)) if s == "bird"));
}

#[test]
fn formatter_plural_needs_other() {
    let values = vec![("kind".to_string(), PlaceholderValue::String("cat".to_string()))];
    let select = format("{kind select cat#c}#{c a cat}", &values).unwrap();
    assert_eq!(select.as_str(), "a cat");
    let numbers = vec![("n".to_string(), PlaceholderValue::Unsigned(1))];
    let plural = format("{n plural one#c}#{c one cat}", &numbers);
    assert!(matches!(plural, Err(FormatterError::SelectorOther(ref k, ref p)) if k == "plural" && p == "n"));
}

#[test]
fn formatter_date_only() {
    let values = vec![("d".to_string(), PlaceholderValue::Date(IsoDate { year: 2024, month: 2, day: 29 }))];
    let result = format("{d date_time date#short}", &values).unwrap();
    assert_eq!(result.as_str(), "2024/02/29");
    let invalid = vec![("d".to_string(), PlaceholderValue::Date(IsoDate { year: 2023, month: 2, day: 29 }))];
    assert!(matches!(format("{d date_time}", &invalid), Err(FormatterError::Calendar(_))));
    let bad_option = format("{d date_time date#tiny}", &values);
    assert!(matches!(bad_option, Err(FormatterError::InvalidOptionValue(ref v, ref o, ref k)) if v == "tiny" && o == "date" && k == "date_time"));
}

#[test]
fn formatter_decimal_grouping() {
    let values = vec![("n".to_string(), PlaceholderValue::Unsigned(1234567))];
    let never = format("{n decimal group#never}", &values).unwrap();
    assert_eq!(never.as_str(), "1234567");
}

#[test]
fn formatter_literal_pattern() {
    let values: Vec<(String, PlaceholderValue)> = Vec::new();
    let result = format("a {`b`} c", &values).unwrap();
    assert_eq!(result.as_str(), "a b c");
    let escaped = format("Tick {`a``b`} done", &values).unwrap();
    assert_eq!(escaped.as_str(), "Tick a`b done");
}

#[test]
fn formatter_decimal_model() {
    let negative = Decimal { sign: DecimalSign::Negative, digits: 150, exponent: -2 };
    let values = vec![("x".to_string(), PlaceholderValue::FixedDecimal(negative))];
    assert_eq!(format("{x decimal}", &values).unwrap().as_str(), "-1,50");
    let thousands = Decimal { sign: DecimalSign::Unsigned, digits: 1234567, exponent: 0 };
    let values = vec![("x".to_string(), PlaceholderValue::FixedDecimal(thousands))];
    assert_eq!(format("{x decimal}", &values).unwrap().as_str(), "1\u{a0}234\u{a0}567");
    let one = Decimal { sign: DecimalSign::Unsigned, digits: 1, exponent: 0 };
    let values = vec![("n".to_string(), PlaceholderValue::FixedDecimal(one))];
    let result = format("{n plural one#one other#many}#{one # item}{many # items}", &values).unwrap();
    assert_eq!(result.as_str(), "1 item");
    let fraction = Decimal { sign: DecimalSign::Unsigned, digits: 15, exponent: -1 };
    let values = vec![("n".to_string(), PlaceholderValue::FixedDecimal(fraction))];
    let result = format("{n plural one#one other#many}#{one # item}{many # items}", &values).unwrap();
    assert_eq!(result.as_str(), "1,5 items");
}

#[test]
fn formatter_number_strings_persist() {
    let icu_data_provider = Rc::new(IcuDataProvider::try_new(DataProvider::Internal).unwrap());
    let registry = CommandRegistry::<BuiltinCommand>::new();
    let language_tag = Rc::new("en-ZA".to_string());
    let string = "{x select s#a other#b}{n plural one#a other#a}#{a #}{b b}";
    let first_values =
        vec![("x".to_string(), PlaceholderValue::String("s".to_string())), ("n".to_string(), PlaceholderValue::Unsigned(3))];
    let second_values =
        vec![("x".to_string(), PlaceholderValue::String("s".to_string())), ("n".to_string(), PlaceholderValue::Unsigned(5))];
    let mut reused = Formatter::try_new(string, "{}`#", &icu_data_provider, &registry, &language_tag).unwrap().unwrap();
    assert_eq!(reused.format(&first_values, &registry).unwrap().0, "3");
    assert_eq!(reused.format(&second_values, &registry).unwrap().0, "35");
    let mut fresh = Formatter::try_new(string, "{}`#", &icu_data_provider, &registry, &language_tag).unwrap().unwrap();
    assert_eq!(fresh.format(&second_values, &registry).unwrap().0, "5");
    let mut twin = Formatter::try_new(string, "{}`#", &icu_data_provider, &registry, &language_tag).unwrap().unwrap();
    assert_eq!(twin.format(&second_values, &registry).unwrap().0, "5");
}
