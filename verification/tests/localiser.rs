use i18n_localiser::command::{BuiltinCommand, CommandRegistry};
use i18n_localiser::error::{FormatterError, LocaliserError, ProviderError};
use i18n_localiser::lexer::{DataProvider, IcuDataProvider};
use i18n_localiser::localiser::{decide_default, decide_requested, LocalisationProvider, Localiser};
use i18n_localiser::registry::LanguageTagRegistry;
use i18n_localiser::values::{Decimal, DecimalSign, LocalisationData, PlaceholderValue, TaggedString};
use std::cell::Cell;
use std::rc::Rc;

const NOT_FOUND: &str = "No string was found for the component \u{2018}{component}\u{2019} with identifier \
    \u{2018}{identifier}\u{2019} for the language tag \u{2018}{language_tag}\u{2019}. Fallback was used: \
    {fallback select true#yes false#no other#no}.#{yes True}{no False}";
const CACHE_ENTRY: &str = "Unable to get the string for the component \u{2018}{component}\u{2019} with the \
    identifier \u{2018}{identifier}\u{2019} as the cache entry requires values for formatting.";

struct MemoryProvider {
    strings: Vec<(&'static str, &'static str, &'static str, &'static str)>,
    lookups: Cell<usize>,
}

impl MemoryProvider {
    fn new() -> MemoryProvider {
        MemoryProvider {
            strings: vec![
                ("i18n_localiser", "string_not_found", "en-ZA", NOT_FOUND),
                ("i18n_localiser", "cache_entry", "en-ZA", CACHE_ENTRY),
                ("application", "plain", "en-ZA", "A simple plain text string."),
                ("application", "empty", "en-ZA", ""),
                ("application", "greeting", "en", "Hello {name}."),
                ("i18n_localiser", "error_format_enum", "en-ZA", "{type}::{variant}: \u{2018}{message}\u{2019}."),
                ("i18n_localiser", "no_grammar", "en-ZA", "No grammar syntax characters."),
                ("application", "amount", "en-ZA", "{amount decimal} kg"),
                ("application", "persist", "en-ZA", "{x select s#a other#b}{n plural one#a other#a}#{a #}{b b}"),
                ("application", "farewell", "en", "Goodbye."),
            ],
            lookups: Cell::new(0),
        }
    }
}

impl LocalisationProvider for MemoryProvider {
    fn string(
        &self,
        component: &str,
        identifier: &str,
        language_tag: &Rc<String>,
    ) -> Result<Option<TaggedString>, ProviderError> {
        self.lookups.set(self.lookups.get() + 1);
        for (c, i, t, s) in self.strings.iter() {
            if *c == component && *i == identifier && *t == language_tag.as_str() {
                return Ok(Some(TaggedString::new(s, &Rc::new(t.to_string()))));
            }
        }
        Ok(None)
    }

    fn default_language(&self, component: &str) -> Result<Rc<String>, ProviderError> {
        if component == "broken" {
            let data = LocalisationData { component: "provider".to_string(), identifier: "broken".to_string(), values: None };
            return Err(ProviderError { data });
        }
        Ok(Rc::new("en".to_string()))
    }
}

fn localiser() -> Localiser<MemoryProvider, BuiltinCommand> {
    let icu_data_provider = Rc::new(IcuDataProvider::try_new(DataProvider::Internal).unwrap());
    let command_registry = Rc::new(CommandRegistry::<BuiltinCommand>::new());
    let mut language_tag_registry = LanguageTagRegistry::new();
    Localiser::try_new(&icu_data_provider, &mut language_tag_registry, MemoryProvider::new(), &command_registry, true, true, "en-ZA")
        .unwrap()
}

fn text(name: &str, value: &str) -> (String, PlaceholderValue) {
    (name.to_string(), PlaceholderValue::String(value.to_string()))
}

#[test]
fn format() {
    let mut localiser = localiser();
    let values = vec![
        text("component", "i18n_localiser"),
        text("identifier", "string_not_found"),
        text("language_tag", "en-ZA"),
        text("fallback", "true"),
    ];
    let tag = Rc::new("en-ZA".to_string());
    let lstring = localiser.format("i18n_localiser", "string_not_found", &values, &tag, None, None).unwrap();
    assert_eq!(
        lstring.as_str(),
        "No string was found for the component \u{2018}i18n_localiser\u{2019} with identifier \
        \u{2018}string_not_found\u{2019} for the language tag \u{2018}en-ZA\u{2019}. Fallback was used: True.",
        "Check placeholder values."
    );
    assert_eq!(lstring.language_tag().as_str(), "en-ZA");
}

#[test]
fn format_with_defaults() {
    let mut localiser = localiser();
    let values = vec![text("component", "i18n_localiser"), text("identifier", "cache_entry")];
    let lstring = localiser.format_with_defaults("i18n_localiser", "cache_entry", &values).unwrap();
    assert_eq!(
        lstring.as_str(),
        "Unable to get the string for the component \u{2018}i18n_localiser\u{2019} with the identifier \
        \u{2018}cache_entry\u{2019} as the cache entry requires values for formatting.",
        "Check placeholder values."
    );
}

#[test]
fn literal() {
    let mut localiser = localiser();
    let tag = Rc::new("en-ZA".to_string());
    let lstring = localiser.literal("i18n_localiser", "cache_entry", &tag, None, None).unwrap();
    assert_eq!(lstring.as_str(), CACHE_ENTRY, "Check placeholder values.");
}

#[test]
fn literal_with_defaults() {
    let mut localiser = localiser();
    let lstring = localiser.literal_with_defaults("i18n_localiser", "cache_entry").unwrap();
    assert_eq!(lstring.as_str(), CACHE_ENTRY, "Check placeholder values.");
}

#[test]
fn formatter_plain_text() {
    let mut localiser = localiser();
    let values: Vec<(String, PlaceholderValue)> = Vec::new();
    let lstring = localiser.format_with_defaults("application", "plain", &values).unwrap();
    assert_eq!(lstring.as_str(), "A simple plain text string.", "Strings must be the same.");
    let empty = localiser.format_with_defaults("application", "empty", &values).unwrap();
    assert_eq!(empty.as_str(), "");
}

#[test]
fn cached_literal_is_served_without_the_provider() {
    let mut localiser = localiser();
    let tag = Rc::new("en-ZA".to_string());
    let first = localiser.literal("application", "plain", &tag, None, Some(true)).unwrap();
    let lookups = localiser.localisation_provider().lookups.get();
    let second = localiser.literal("application", "plain", &tag, None, None).unwrap();
    let third = localiser.format("application", "plain", &Vec::new(), &tag, None, None).unwrap();
    assert_eq!(localiser.localisation_provider().lookups.get(), lookups);
    assert_eq!(first.as_str(), second.as_str());
    assert_eq!(first.as_str(), third.as_str());
}

#[test]
fn cached_formatter_gives_the_literal_error() {
    let mut localiser = localiser();
    let tag = Rc::new("en-ZA".to_string());
    let values = vec![text("component", "c"), text("identifier", "i")];
    localiser.format("i18n_localiser", "cache_entry", &values, &tag, None, Some(true)).unwrap();
    let result = localiser.literal("i18n_localiser", "cache_entry", &tag, None, None);
    assert!(matches!(result, Err(LocaliserError::CacheEntry(ref c, ref i)) if c == "i18n_localiser" && i == "cache_entry"));
    let again = localiser.format("i18n_localiser", "cache_entry", &vec![text("component", "x"), text("identifier", "y")], &tag, None, None).unwrap();
    assert!(again.as_str().contains("\u{2018}x\u{2019}"));
}

#[test]
fn without_caching_the_provider_is_asked_again() {
    let mut localiser = localiser();
    let tag = Rc::new("en-ZA".to_string());
    localiser.literal("application", "plain", &tag, None, Some(false)).unwrap();
    let lookups = localiser.localisation_provider().lookups.get();
    localiser.literal("application", "plain", &tag, None, Some(false)).unwrap();
    assert_eq!(localiser.localisation_provider().lookups.get(), lookups + 1);
}

#[test]
fn fallback_to_the_default_language() {
    let mut localiser = localiser();
    let tag = Rc::new("en-ZA".to_string());
    let values = vec![text("name", "world")];
    let lstring = localiser.format("application", "greeting", &values, &tag, Some(true), Some(false)).unwrap();
    assert_eq!(lstring.as_str(), "Hello world.");
    assert_eq!(lstring.language_tag().as_str(), "en-ZA");
    let result = localiser.format("application", "greeting", &values, &tag, Some(false), None);
    assert!(matches!(
        result,
        Err(LocaliserError::StringNotFound(ref c, ref i, ref t, false)) if c == "application" && i == "greeting" && t == "en-ZA"
    ));
    let missing = localiser.literal("application", "missing", &tag, Some(true), None);
    assert!(matches!(missing, Err(LocaliserError::StringNotFound(_, _, _, true))));
    let broken = localiser.literal("broken", "missing", &tag, Some(true), None);
    assert!(matches!(broken, Err(LocaliserError::Provider(_))));
}

#[test]
fn invalid_default_language() {
    let icu_data_provider = Rc::new(IcuDataProvider::try_new(DataProvider::Internal).unwrap());
    let command_registry = Rc::new(CommandRegistry::<BuiltinCommand>::new());
    let mut registry = LanguageTagRegistry::new();
    let result =
        Localiser::try_new(&icu_data_provider, &mut registry, MemoryProvider::new(), &command_registry, true, true, "not a tag!");
    assert!(matches!(result, Err(LocaliserError::Registry(_))));
    let canonical =
        Localiser::try_new(&icu_data_provider, &mut registry, MemoryProvider::new(), &command_registry, true, true, "EN-za")
            .unwrap();
    assert_eq!(canonical.default_language().as_str(), "en-ZA");
    let shared = registry.tag("en-za").unwrap();
    assert!(Rc::ptr_eq(&shared, &canonical.default_language()));
}

#[test]
fn defaults_change() {
    let mut localiser = localiser();
    localiser.defaults(Some(Rc::new("en".to_string())), Some(false), None).unwrap();
    assert_eq!(localiser.default_language().as_str(), "en");
    let values = vec![text("name", "there")];
    let lstring = localiser.format_with_defaults("application", "greeting", &values).unwrap();
    assert_eq!(lstring.as_str(), "Hello there.");
    assert_eq!(localiser.grammar(), "{}`#");
}

#[test]
fn format_localisation_data() {
    let mut localiser = localiser();
    let data = LocalisationData {
        component: "i18n_localiser".to_string(),
        identifier: "string_not_found".to_string(),
        values: Some(vec![
            text("component", "i18n_localiser"),
            text("identifier", "string_not_found"),
            text("language_tag", "en-ZA"),
            text("fallback", "true"),
        ]),
    };
    let tag = Rc::new("en-ZA".to_string());
    let lstring = localiser.format_localisation_data(&data, &tag, None, None).unwrap();
    assert_eq!(
        lstring.as_str(),
        "No string was found for the component \u{2018}i18n_localiser\u{2019} with identifier \
        \u{2018}string_not_found\u{2019} for the language tag \u{2018}en-ZA\u{2019}. Fallback was used: True.",
        "Check placeholder values."
    );
}

#[test]
fn format_localisation_data_with_defaults() {
    let mut localiser = localiser();
    let data = LocalisationData {
        component: "i18n_localiser".to_string(),
        identifier: "string_not_found".to_string(),
        values: Some(vec![
            text("component", "i18n_localiser"),
            text("identifier", "string_not_found"),
            text("language_tag", "en-ZA"),
            text("fallback", "true"),
        ]),
    };
    let lstring = localiser.format_localisation_data_with_defaults(&data).unwrap();
    assert_eq!(
        lstring.as_str(),
        "No string was found for the component \u{2018}i18n_localiser\u{2019} with identifier \
        \u{2018}string_not_found\u{2019} for the language tag \u{2018}en-ZA\u{2019}. Fallback was used: True.",
        "Check placeholder values."
    );
}

#[test]
fn nested_localisation_data() {
    let mut localiser = localiser();
    let inner = LocalisationData { component: "application".to_string(), identifier: "plain".to_string(), values: None };
    let data = LocalisationData {
        component: "application".to_string(),
        identifier: "greeting".to_string(),
        values: Some(vec![("name".to_string(), PlaceholderValue::LocalisationData(inner))]),
    };
    let lstring = localiser.format_localisation_data_with_defaults(&data).unwrap();
    assert_eq!(lstring.as_str(), "Hello A simple plain text string..");
}

fn not_exists() -> LocaliserError {
    LocaliserError::StringNotFound("application".to_string(), "not_exists".to_string(), "en-ZA".to_string(), false)
}

#[test]
fn format_error() {
    let mut localiser = localiser();
    let tag = Rc::new("en-ZA".to_string());
    let lstring = localiser.format_error(&not_exists(), &tag, None, None).unwrap();
    assert_eq!(
        lstring.as_str(),
        "LocaliserError::StringNotFound: \u{2018}No string was found for the component \u{2018}application\u{2019} with \
        identifier \u{2018}not_exists\u{2019} for the language tag \u{2018}en-ZA\u{2019}. Fallback was used: False.\u{2019}.",
        "Check placeholder values."
    );
}

#[test]
fn format_error_with_defaults() {
    let mut localiser = localiser();
    let lstring = localiser.format_error_with_defaults(&not_exists()).unwrap();
    assert_eq!(
        lstring.as_str(),
        "LocaliserError::StringNotFound: \u{2018}No string was found for the component \u{2018}application\u{2019} with \
        identifier \u{2018}not_exists\u{2019} for the language tag \u{2018}en-ZA\u{2019}. Fallback was used: False.\u{2019}.",
        "Check placeholder values."
    );
}

#[test]
fn format_error_of_other_errors() {
    let mut localiser = localiser();
    let tag = Rc::new("en-ZA".to_string());
    let missing = i18n_localiser::error::CommandError::NotFound("not_exists".to_string());
    let result = localiser.format_error(&missing, &tag, None, None);
    assert!(matches!(result, Err(LocaliserError::StringNotFound(ref c, ref i, ref t, true)) if c == "i18n_pattern" && i == "command_not_found" && t == "en-ZA"));
    let no_grammar = localiser.format_error_with_defaults(&FormatterError::NoGrammar).unwrap();
    assert_eq!(no_grammar.as_str(), "FormatterError::NoGrammar: \u{2018}No grammar syntax characters.\u{2019}.");
}

#[test]
fn format_found_pattern() {
    let mut localiser = localiser();
    let tag = Rc::new("en-ZA".to_string());
    let found = TaggedString::new("Hello {name}.", &Rc::new("en".to_string()));
    let values = vec![text("name", "you")];
    let lstring = localiser.format_found(found, "application", "greeting", &values, &tag, true).unwrap();
    assert_eq!(lstring.as_str(), "Hello you.");
    assert_eq!(lstring.language_tag().as_str(), "en-ZA");
    let again = localiser.format("application", "greeting", &vec![text("name", "again")], &tag, Some(false), None).unwrap();
    assert_eq!(again.as_str(), "Hello again.");
}

#[test]
fn localisation_data_with_a_decimal() {
    let mut localiser = localiser();
    let amount = Decimal { sign: DecimalSign::Unsigned, digits: 3678, exponent: -3 };
    let data = LocalisationData {
        component: "application".to_string(),
        identifier: "amount".to_string(),
        values: Some(vec![("amount".to_string(), PlaceholderValue::FixedDecimal(amount))]),
    };
    let lstring = localiser.format_localisation_data_with_defaults(&data).unwrap();
    assert_eq!(lstring.as_str(), "3,678 kg");
}

#[test]
fn search_without_fallback_asks_only_for_the_requested_tag() {
    let mut localiser = localiser();
    let tag = Rc::new("en-ZA".to_string());
    let lookups = localiser.localisation_provider().lookups.get();
    let result = localiser.literal("application", "greeting", &tag, Some(false), None);
    assert!(matches!(result, Err(LocaliserError::StringNotFound(_, _, _, false))));
    assert_eq!(localiser.localisation_provider().lookups.get(), lookups + 1);
    let found = localiser.literal("application", "greeting", &tag, Some(true), None).unwrap();
    assert_eq!(found.as_str(), "Hello {name}.");
    assert_eq!(found.language_tag().as_str(), "en");
    assert_eq!(localiser.localisation_provider().lookups.get(), lookups + 3);
}

#[test]
fn search_decisions() {
    let tag = Rc::new("en-ZA".to_string());
    let found = TaggedString::new("text", &Rc::new("en".to_string()));
    let decided = decide_requested("c", "i", &tag, false, Ok(Some(found))).unwrap().unwrap();
    assert_eq!(decided.as_str(), "text");
    assert!(decide_requested("c", "i", &tag, true, Ok(None)).is_none());
    assert!(matches!(
        decide_requested("c", "i", &tag, false, Ok(None)),
        Some(Err(LocaliserError::StringNotFound(ref c, ref i, ref t, false))) if c == "c" && i == "i" && t == "en-ZA"
    ));
    let error = ProviderError { data: LocalisationData { component: "p".to_string(), identifier: "e".to_string(), values: None } };
    assert!(matches!(decide_requested("c", "i", &tag, true, Err(error)), Some(Err(LocaliserError::Provider(_)))));
    assert!(matches!(
        decide_default("c", "i", &tag, Ok(None)),
        Err(LocaliserError::StringNotFound(ref c, ref i, ref t, true)) if c == "c" && i == "i" && t == "en-ZA"
    ));
    let second = TaggedString::new("default", &Rc::new("en".to_string()));
    assert_eq!(decide_default("c", "i", &tag, Ok(Some(second))).unwrap().as_str(), "default");
}

#[test]
fn nested_localisation_data_error() {
    let mut localiser = localiser();
    let inner = LocalisationData { component: "application".to_string(), identifier: "missing".to_string(), values: None };
    let data = LocalisationData {
        component: "application".to_string(),
        identifier: "greeting".to_string(),
        values: Some(vec![("name".to_string(), PlaceholderValue::LocalisationData(inner))]),
    };
    let tag = Rc::new("en-ZA".to_string());
    let result = localiser.format_localisation_data(&data, &tag, Some(false), None);
    assert!(matches!(
        result,
        Err(LocaliserError::StringNotFound(ref c, ref i, ref t, false)) if c == "application" && i == "missing" && t == "en-ZA"
    ));
}

#[test]
fn cached_formatter_keeps_number_strings() {
    let tag = Rc::new("en-ZA".to_string());
    let first = vec![text("x", "s"), ("n".to_string(), PlaceholderValue::Unsigned(3))];
    let second = vec![text("x", "s"), ("n".to_string(), PlaceholderValue::Unsigned(5))];
    let mut cached = localiser();
    assert_eq!(cached.format("application", "persist", &first, &tag, None, Some(true)).unwrap().as_str(), "3");
    let lookups = cached.localisation_provider().lookups.get();
    assert_eq!(cached.format("application", "persist", &second, &tag, None, None).unwrap().as_str(), "35");
    assert_eq!(cached.localisation_provider().lookups.get(), lookups);
    let mut uncached = localiser();
    assert_eq!(uncached.format("application", "persist", &second, &tag, None, Some(false)).unwrap().as_str(), "5");
}

#[test]
fn fallback_string_cached_under_its_own_tag() {
    let mut localiser = localiser();
    let tag = Rc::new("en-ZA".to_string());
    let plain = localiser.literal("application", "plain", &tag, None, Some(true)).unwrap();
    assert_eq!(plain.language_tag().as_str(), "en-ZA");
    let found = localiser.literal("application", "farewell", &tag, Some(true), Some(true)).unwrap();
    assert_eq!(found.as_str(), "Goodbye.");
    assert_eq!(found.language_tag().as_str(), "en");
    let lookups = localiser.localisation_provider().lookups.get();
    let again = localiser.literal("application", "farewell", &tag, Some(true), Some(true)).unwrap();
    assert_eq!(again.as_str(), "Goodbye.");
    assert_eq!(localiser.localisation_provider().lookups.get(), lookups + 2);
    let en = Rc::new("en".to_string());
    let from_cache = localiser.literal("application", "farewell", &en, Some(false), None).unwrap();
    assert_eq!(from_cache.as_str(), "Goodbye.");
    assert_eq!(localiser.localisation_provider().lookups.get(), lookups + 2);
}
