use i18n_localiser::command::{BuiltinCommand, CommandRegistry};
use i18n_localiser::error::FormatterError;
use i18n_localiser::formatter::Formatter;
use i18n_localiser::lexer::{DataProvider, IcuDataProvider, LexerError};
use i18n_localiser::tree::{ParserState, Tree, TreeError};
use i18n_localiser::values::PlaceholderValue;
use std::rc::Rc;

fn icu() -> Rc<IcuDataProvider> {
    Rc::new(IcuDataProvider::try_new(DataProvider::Internal).unwrap())
}

fn tree_error(string: &str) -> TreeError {
    match Tree::try_new(string, "{}`#", &icu()) {
        Some(Err(e)) => e,
        _ => panic!("no error for {}", string),
    }
}

fn formatter_error(string: &str, tag: &str, values: &Vec<(String, PlaceholderValue)>) -> FormatterError {
    let registry = CommandRegistry::<BuiltinCommand>::new();
    match Formatter::try_new(string, "{}`#", &icu(), &registry, &Rc::new(tag.to_string())) {
        Some(Err(e)) => e,
        Some(Ok(mut f)) => match f.format(values, &registry) {
            Err(e) => e,
            Ok(_) => panic!("no error for {}", string),
        },
        None => panic!("no transition for {}", string),
    }
}

#[test]
fn tree_error_variants() {
    assert!(matches!(tree_error("}"), TreeError::InvalidToken(ParserState::String, 0, ref t) if t == "}"));
    assert!(matches!(tree_error("{a}{a}"), TreeError::UniquePattern(ref a) if a == "a"));
    assert!(matches!(tree_error("x #{a one}{a two}"), TreeError::UniqueNamed(ref a) if a == "a"));
    assert!(matches!(tree_error("{a"), TreeError::EndedAbruptly));
    assert!(matches!(
        Tree::try_new("", "{}`#", &icu()),
        Some(Err(TreeError::Lexer(LexerError::EmptyString)))
    ));
}

#[test]
fn formatter_error_variants() {
    let none: Vec<(String, PlaceholderValue)> = Vec::new();
    assert!(matches!(formatter_error("{x}", "not a tag!", &none), FormatterError::Locale(_)));
    assert!(matches!(
        formatter_error("{x decimal colour#red}", "en", &none),
        FormatterError::InvalidOption(ref v, ref k, ref p) if v == "red" && k == "decimal" && p == "x"
    ));
    assert!(matches!(
        formatter_error("{n plural lots#a other#b}#{a x}{b y}", "en", &none),
        FormatterError::InvalidSelector(ref s, ref k, ref p) if s == "lots" && k == "plural" && p == "n"
    ));
    assert!(matches!(
        formatter_error("{n plural one#zz other#b}#{b y}", "en", &none),
        FormatterError::SelectorNamed(ref named, ref s, ref p) if named == "zz" && s == "one" && p == "n"
    ));
    let number = vec![("x".to_string(), PlaceholderValue::Unsigned(1))];
    assert!(matches!(
        formatter_error("{x}", "en", &number),
        FormatterError::InvalidValue(ref k) if k == "PatternString"
    ));
    let text = vec![("x".to_string(), PlaceholderValue::String("many".to_string()))];
    assert!(matches!(formatter_error("{x decimal}", "en", &text), FormatterError::InvalidValue(_)));
}
