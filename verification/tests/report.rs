use i18n_localiser::error::{CommandError, FormatterError, LocaliserError};
use i18n_localiser::report::LocalisationTrait;
use i18n_localiser::tree::{NodeType, ParserState, TreeError};
use i18n_localiser::values::{LocalisationData, PlaceholderValue};

fn text_of(value: &PlaceholderValue) -> &str {
    match value {
        PlaceholderValue::String(s) => s.as_str(),
        _ => panic!("not a string"),
    }
}

#[test]
fn tree_error_messages() {
    let error = TreeError::InvalidToken(ParserState::Pattern, 12, "}".to_string());
    assert_eq!(
        error.message(),
        "TreeError::InvalidToken: In the parser state \u{2018}Pattern\u{2019} an invalid token \u{2018}}\u{2019} was found at the position 12 of the string."
    );
    assert_eq!(
        TreeError::MultiNumberSign(0).message(),
        "TreeError::MultiNumberSign: Found sequential number signs at the position 0 of the string."
    );
}

#[test]
fn tree_error_data() {
    let data = TreeError::InvalidToken(ParserState::Pattern, 12, "}".to_string()).localisation_data();
    assert_eq!(data.component, "i18n_localiser");
    assert_eq!(data.identifier, "error_format_enum");
    let values = data.values.unwrap();
    assert_eq!(values.len(), 3);
    assert_eq!(values[0].0, "type");
    assert_eq!(text_of(&values[0].1), "TreeError");
    assert_eq!(text_of(&values[1].1), "InvalidToken");
    match &values[2].1 {
        PlaceholderValue::LocalisationData(message) => {
            assert_eq!(message.component, "i18n_pattern");
            assert_eq!(message.identifier, "invalid_token");
            let inner = message.values.as_ref().unwrap();
            assert_eq!(text_of(&inner[0].1), "Pattern");
            assert!(matches!(inner[1].1, PlaceholderValue::Unsigned(12)));
            assert_eq!(text_of(&inner[2].1), "}");
        },
        _ => panic!("no message"),
    }
}

#[test]
fn command_error_reports() {
    let error = CommandError::ParameterMissing("english_a_or_an".to_string(), 1);
    assert_eq!(
        error.message(),
        "CommandError::ParameterMissing: The parameter number 1 is missing for the command \u{2018}english_a_or_an\u{2019}."
    );
    let custom = CommandError::Custom(LocalisationData { component: "app".to_string(), identifier: "oops".to_string(), values: None });
    let data = custom.localisation_data();
    assert_eq!(data.identifier, "error_format_enum_embedded");
    let values = data.values.unwrap();
    assert!(matches!(&values[1].1, PlaceholderValue::String(v) if v == "Custom"));
    match &values[2].1 {
        PlaceholderValue::LocalisationData(inner) => assert_eq!(inner.identifier, "oops"),
        _ => panic!("no embedded error"),
    }
}

#[test]
fn formatter_error_reports() {
    let error = FormatterError::PatternPart("dogs".to_string(), 3);
    assert_eq!(
        error.message(),
        "FormatterError::PatternPart: Failed to retrieve the part \u{2018}3\u{2019} of the pattern for the named string \u{2018}dogs\u{2019}."
    );
    let node = FormatterError::FirstChild(NodeType::Pattern);
    assert_eq!(node.message(), "FormatterError::FirstChild: The first child of the \u{2018}Pattern\u{2019} node was not found.");
    let data = FormatterError::NeverReached.localisation_data();
    match &data.values.unwrap()[2].1 {
        PlaceholderValue::LocalisationData(message) => assert_eq!(message.identifier, "never_reach"),
        _ => panic!("no message"),
    }
    let tree = FormatterError::Tree(TreeError::EndedAbruptly);
    assert_eq!(tree.message(), "FormatterError::Tree: [TreeError::EndedAbruptly: The string ended abruptly.].");
}

#[test]
fn localiser_error_reports() {
    let error = LocaliserError::StringNotFound("c".to_string(), "i".to_string(), "en".to_string(), true);
    assert_eq!(
        error.message(),
        "LocaliserError::StringNotFound: No string was found for the component \u{2018}c\u{2019} with identifier \u{2018}i\u{2019} for the language tag \u{2018}en\u{2019}. Fallback was used: True."
    );
    let data = error.localisation_data();
    match &data.values.unwrap()[2].1 {
        PlaceholderValue::LocalisationData(message) => {
            assert_eq!(message.identifier, "string_not_found");
            assert_eq!(text_of(&message.values.as_ref().unwrap()[3].1), "true");
        },
        _ => panic!("no message"),
    }
    let wrapped = LocaliserError::Formatter(FormatterError::NoGrammar);
    assert!(wrapped.message().starts_with("LocaliserError::Formatter: [FormatterError::NoGrammar: "));
}

#[test]
fn error_conversions() {
    let tree: TreeError = i18n_localiser::lexer::LexerError::EmptyString.into();
    assert!(matches!(tree, TreeError::Lexer(i18n_localiser::lexer::LexerError::EmptyString)));
    let formatter: FormatterError = TreeError::EndedAbruptly.into();
    assert!(matches!(formatter, FormatterError::Tree(TreeError::EndedAbruptly)));
    let command: FormatterError = CommandError::NotFound("x".to_string()).into();
    assert!(matches!(command, FormatterError::Command(CommandError::NotFound(_))));
    let localiser: LocaliserError = FormatterError::NoGrammar.into();
    assert!(matches!(localiser, LocaliserError::Formatter(FormatterError::NoGrammar)));
    let lexer_data = i18n_localiser::lexer::LexerError::NoGrammar.localisation_data();
    assert_eq!(lexer_data.identifier, "error_format_enum");
    let icu = i18n_localiser::lexer::IcuError::Syntax;
    assert_eq!(icu.message(), "No data provider is available for the \u{2018}Pattern_Syntax\u{2019}.");
    let icu_values = icu.localisation_data().values.unwrap();
    assert!(matches!(&icu_values[1].1, PlaceholderValue::String(v) if v == "Syntax"));
    let white_space = i18n_localiser::lexer::IcuError::WhiteSpace.localisation_data().values.unwrap();
    assert!(matches!(&white_space[1].1, PlaceholderValue::String(v) if v == "WhiteSpace"));
}

#[test]
fn wrapped_error_texts() {
    let locale = "not a tag!".parse::<icu_locid::LanguageIdentifier>().unwrap_err();
    let shown = locale.to_string();
    assert!(!shown.is_empty());
    let error = FormatterError::Locale(locale);
    assert_eq!(error.message(), format!("FormatterError::Locale: [{}].", shown));
    let data = error.localisation_data();
    assert_eq!(data.identifier, "error_format_enum_embedded");
    let values = data.values.unwrap();
    assert_eq!(text_of(&values[1].1), "Locale");
    assert_eq!(text_of(&values[2].1), shown.as_str());
    let parse = "x".parse::<u8>().unwrap_err();
    let parse_shown = parse.to_string();
    let error = FormatterError::ParseInt(parse);
    assert_eq!(error.message(), format!("FormatterError::ParseInt: [{}].", parse_shown));
    let registry = "!!".parse::<icu_locid::LanguageIdentifier>().unwrap_err();
    let registry_shown = registry.to_string();
    let error = LocaliserError::Registry(registry);
    assert_eq!(error.message(), format!("LocaliserError::Registry: [{}].", registry_shown));
    let values = error.localisation_data().values.unwrap();
    assert_eq!(text_of(&values[2].1), registry_shown.as_str());
}
