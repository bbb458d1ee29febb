use i18n_localiser::command::{english_a_or_an, file_path, BuiltinCommand, Command, CommandRegistry};
use i18n_localiser::error::CommandError;
use i18n_localiser::values::PlaceholderValue;

fn parameters(command: &str, value: &str) -> Vec<PlaceholderValue> {
    vec![PlaceholderValue::String(command.to_string()), PlaceholderValue::String(value.to_string())]
}

#[test]
fn test_file_path() {
    let string = file_path(parameters("file_path", "tests/command.rs")).unwrap();
    if std::path::MAIN_SEPARATOR == '\\' {
        assert_eq!(string.as_str(), "tests\\command.rs", "Should be Windows path.");
    } else {
        assert_eq!(string.as_str(), "tests/command.rs", "Should be non-Windows path.");
    }
}

#[test]
fn command_registry() {
    let mut registry = CommandRegistry::<BuiltinCommand>::new();
    registry.insert("file_path", BuiltinCommand::FilePath).unwrap();
    let function = registry.command("file_path").unwrap();
    let string = function.call(parameters("file_path", "tests/command.rs")).unwrap();
    assert_eq!(string.as_str(), "tests/command.rs", "Strings must be the same.");
    let run = registry.run("file_path", parameters("file_path", "tests/command.rs")).unwrap();
    assert_eq!(run.as_str(), "tests/command.rs");
}

#[test]
fn command_registry_errors() {
    let mut registry = CommandRegistry::<BuiltinCommand>::new();
    registry.insert("file_path", BuiltinCommand::FilePath).unwrap();
    assert!(matches!(
        registry.insert("file_path", BuiltinCommand::EnglishAOrAn),
        Err(CommandError::AlreadyExists(ref c)) if c == "file_path"
    ));
    assert_eq!(registry.command("file_path").unwrap(), &BuiltinCommand::FilePath);
    assert!(matches!(registry.command("missing"), Err(CommandError::NotFound(ref c)) if c == "missing"));
    assert!(matches!(
        registry.run("missing", parameters("missing", "x")),
        Err(CommandError::NotFound(ref c)) if c == "missing"
    ));
    assert!(registry.contains("file_path"));
    assert!(!registry.contains("missing"));
    assert_eq!(registry.list(), vec!["file_path".to_string()]);
}

#[test]
fn english_articles() {
    assert_eq!(english_a_or_an(parameters("english_a_or_an", "owl")).unwrap(), "an");
    assert_eq!(english_a_or_an(parameters("english_a_or_an", "mouse")).unwrap(), "a");
    assert!(matches!(
        english_a_or_an(vec![PlaceholderValue::String("english_a_or_an".to_string())]),
        Err(CommandError::ParameterMissing(ref c, 1)) if c == "english_a_or_an"
    ));
    assert!(matches!(
        english_a_or_an(vec![PlaceholderValue::Unsigned(1)]),
        Err(CommandError::InvalidType(_, 0))
    ));
    assert!(matches!(
        english_a_or_an(vec![PlaceholderValue::String("english_a_or_an".to_string()), PlaceholderValue::Unsigned(1)]),
        Err(CommandError::InvalidType(ref c, 1)) if c == "english_a_or_an"
    ));
}

#[test]
fn builtin_command_with_empty_word() {
    let mut registry = CommandRegistry::<BuiltinCommand>::new();
    registry.insert("english_a_or_an", BuiltinCommand::EnglishAOrAn).unwrap();
    assert!(matches!(
        registry.run("english_a_or_an", parameters("english_a_or_an", "")),
        Err(CommandError::ParameterMissing(ref c, 1)) if c == "english_a_or_an"
    ));
}
