//! What the errors say: their display messages and the localisation data to localise them.
//!
//! An error localises with the pattern string `error_format_enum` of `i18n_localiser` (its type, its variant
//! and the localisation data of its message) or, where it wraps another error, `error_format_enum_embedded`
//! (its type, its variant and the wrapped error).

use crate::error::{CommandError, FormatterError, LocaliserError};
use crate::lexer::{IcuError, LexerError};
use crate::tree::TreeError;
use crate::values::{clone_data, data_view, lemma_data_view, named_views, value_view, DataView, LocalisationData, PlaceholderValue, ValueView};
use vstd::prelude::*;

verus! {

/// The concatenation of the pieces.
pub open spec fn join_all(pieces: Seq<Seq<char>>) -> Seq<char>
    decreases pieces.len(),
{
    if pieces.len() == 0 {
        Seq::empty()
    } else {
        join_all(pieces.drop_last()) + pieces.last()
    }
}

/// The decimal digit of a number below ten.
pub open spec fn digit(n: nat) -> char {
    if n == 0 { '0' } else if n == 1 { '1' } else if n == 2 { '2' } else if n == 3 { '3' } else if n == 4 {
        '4'
    } else if n == 5 { '5' } else if n == 6 { '6' } else if n == 7 { '7' } else if n == 8 { '8' } else { '9' }
}

/// The decimal text of a number, without leading zeros.
pub open spec fn decimal_text(n: nat) -> Seq<char>
    decreases n,
{
    if n < 10 {
        seq![digit(n)]
    } else {
        decimal_text(n / 10).push(digit(n % 10))
    }
}

/// The concatenation of the strings.
fn concat(pieces: Vec<String>) -> (result: String)
    ensures
        result@ == join_all(pieces@.map_values(|s: String| s@)),
{
    let mut result = String::new();
    let mut i: usize = 0;
    while i < pieces.len()
        invariant
            0 <= i <= pieces@.len(),
            result@ == join_all(pieces@.take(i as int).map_values(|s: String| s@)),
        decreases pieces.len() - i,
    {
        let ghost before = pieces@.take(i as int).map_values(|s: String| s@);
        assert(pieces@.take(i + 1).map_values(|s: String| s@).drop_last() =~= before);
        result.append(pieces[i].as_str());
        i = i + 1;
    }
    assert(pieces@.take(pieces@.len() as int) =~= pieces@);
    result
}

/// The decimal digit of a number below ten.
fn digit_char(n: usize) -> (result: char)
    requires
        n < 10,
    ensures
        result == digit(n as nat),
{
    if n == 0 { '0' } else if n == 1 { '1' } else if n == 2 { '2' } else if n == 3 { '3' } else if n == 4 {
        '4'
    } else if n == 5 { '5' } else if n == 6 { '6' } else if n == 7 { '7' } else if n == 8 { '8' } else { '9' }
}

/// The decimal text of a number.
fn decimal(n: usize) -> (result: String)
    ensures
        result@ == decimal_text(n as nat),
    decreases n,
{
    if n < 10 {
        let mut result = String::new();
        crate::lexer::push_char(&mut result, digit_char(n));
        assert(result@ =~= seq![digit(n as nat)]);
        result
    } else {
        let mut result = decimal(n / 10);
        crate::lexer::push_char(&mut result, digit_char(n % 10));
        result
    }
}

/// A string of the string slice.
fn text(s: &str) -> (result: String)
    ensures
        result@ == s@,
{
    s.to_owned()
}

/// The concatenation of a prefix, an inner message and `].`.
pub open spec fn wrapped(prefix: Seq<char>, inner: Seq<char>) -> Seq<char> {
    prefix + inner + "]."@
}

/// The prefix, the inner message and `].`.
fn wrap(prefix: &str, inner: String) -> (result: String)
    ensures
        result@ == wrapped(prefix@, inner@),
{
    let mut result = prefix.to_owned();
    result.append(inner.as_str());
    result.append("].");
    result
}

/// The message that the `Display` of `icu_locid::ParserError` writes for the error: its `displaydoc` message for
/// the variant, a function of the error's value alone.
pub uninterp spec fn spec_locale_error_text(error: icu_locid::ParserError) -> Seq<char>;

/// Calls the `Display` of `icu_locid::ParserError`: the message named `spec_locale_error_text`.
#[verifier::external_body]
fn locale_error_text(error: &icu_locid::ParserError) -> (result: String)
    ensures
        result@ == spec_locale_error_text(*error),
{
    error.to_string()
}

/// The message that the `Display` of `icu_calendar::CalendarError` writes for the error: its `displaydoc` message
/// for the variant and its fields, a function of the error's value alone.
pub uninterp spec fn spec_calendar_error_text(error: icu_calendar::CalendarError) -> Seq<char>;

/// Calls the `Display` of `icu_calendar::CalendarError`: the message named `spec_calendar_error_text`.
#[verifier::external_body]
fn calendar_error_text(error: &icu_calendar::CalendarError) -> (result: String)
    ensures
        result@ == spec_calendar_error_text(*error),
{
    error.to_string()
}

/// The message that the `Display` of `std::num::ParseIntError` writes for the error: its message for the kind of
/// the error, a function of the error's value alone.
pub uninterp spec fn spec_parse_int_error_text(error: std::num::ParseIntError) -> Seq<char>;

/// Calls the `Display` of `std::num::ParseIntError`: the message named `spec_parse_int_error_text`.
#[verifier::external_body]
fn parse_int_error_text(error: &std::num::ParseIntError) -> (result: String)
    ensures
        result@ == spec_parse_int_error_text(*error),
{
    error.to_string()
}

/// The message that the `Display` of `icu_decimal::DecimalError` writes for the error: its `displaydoc` message
/// for the variant, a function of the error's value alone.
pub uninterp spec fn spec_decimal_error_text(error: icu_decimal::DecimalError) -> Seq<char>;

/// Calls the `Display` of `icu_decimal::DecimalError`: the message named `spec_decimal_error_text`.
#[verifier::external_body]
fn decimal_error_text(error: &icu_decimal::DecimalError) -> (result: String)
    ensures
        result@ == spec_decimal_error_text(*error),
{
    error.to_string()
}

/// The message that the `Display` of `icu_datetime::DateTimeError` writes for the error: its `displaydoc` message
/// for the variant and its fields, a function of the error's value alone.
pub uninterp spec fn spec_date_time_error_text(error: icu_datetime::DateTimeError) -> Seq<char>;

/// Calls the `Display` of `icu_datetime::DateTimeError`: the message named `spec_date_time_error_text`.
#[verifier::external_body]
fn date_time_error_text(error: &icu_datetime::DateTimeError) -> (result: String)
    ensures
        result@ == spec_date_time_error_text(*error),
{
    error.to_string()
}

/// The message that the `Display` of `icu_plurals::PluralsError` writes for the error: its `displaydoc` message
/// for the variant, a function of the error's value alone.
pub uninterp spec fn spec_plurals_error_text(error: icu_plurals::PluralsError) -> Seq<char>;

/// Calls the `Display` of `icu_plurals::PluralsError`: the message named `spec_plurals_error_text`.
#[verifier::external_body]
fn plurals_error_text(error: &icu_plurals::PluralsError) -> (result: String)
    ensures
        result@ == spec_plurals_error_text(*error),
{
    error.to_string()
}

/// The display message of a lexer error.
pub open spec fn lexer_error_text(e: LexerError) -> Seq<char> {
    match e {
        LexerError::NoGrammar => "LexerError::NoGrammar: No grammar syntax characters were provided."@,
        LexerError::EmptyString => "LexerError::EmptyString: The string is empty."@,
    }
}

/// The display message of a lexer error.
fn lexer_message(e: &LexerError) -> (result: String)
    ensures
        result@ == lexer_error_text(*e),
{
    match e {
        LexerError::NoGrammar => text("LexerError::NoGrammar: No grammar syntax characters were provided."),
        LexerError::EmptyString => text("LexerError::EmptyString: The string is empty."),
    }
}

/// The display message of a tree error.
pub open spec fn tree_error_text(e: TreeError) -> Seq<char> {
    match e {
        TreeError::Lexer(error) => join_all(seq!["TreeError::LexerError: ["@, lexer_error_text(error), "]."@]),
        TreeError::EndedAbruptly => join_all(seq!["TreeError::EndedAbruptly: The string ended abruptly."@]),
        TreeError::InvalidToken(state, position, token) => join_all(seq!["TreeError::InvalidToken: In the parser state ‘"@, state.spec_name(), "’ an invalid token ‘"@, token@, "’ was found at the position "@, decimal_text(position as nat), " of the string."@]),
        TreeError::UniquePattern(identifier) => join_all(seq!["TreeError::UniquePattern: Pattern identifiers must be unique. The identifier ‘"@, identifier@, "’ already exists."@]),
        TreeError::MultiNumberSign(position) => join_all(seq!["TreeError::MultiNumberSign: Found sequential number signs at the position "@, decimal_text(position as nat), " of the string."@]),
        TreeError::UniqueNamed(identifier) => join_all(seq!["TreeError::UniqueNamed: Named substrings must have unique identifiers. The identifier ‘"@, identifier@, "’ already exists."@]),
    }
}

/// The display message of a command error; a custom error shows the component and identifier of its data.
pub open spec fn command_error_text(e: CommandError) -> Seq<char> {
    match e {
        CommandError::Custom(data) => join_all(seq!["CommandError::Custom: ["@, data.component@, "/"@, data.identifier@, "]."@]),
        CommandError::AlreadyExists(command) => join_all(seq!["CommandError::AlreadyExists: The command ‘"@, command@, "’ already exists in the CommandRegistry."@]),
        CommandError::NotFound(command) => join_all(seq!["CommandError::NotFound: The command ‘"@, command@, "’ was not found in the CommandRegistry."@]),
        CommandError::ParameterMissing(command, index) => join_all(seq!["CommandError::ParameterMissing: The parameter number "@, decimal_text(index as nat), " is missing for the command ‘"@, command@, "’."@]),
        CommandError::InvalidType(command, index) => join_all(seq!["CommandError::InvalidType: The parameter number "@, decimal_text(index as nat), " has invalid type for the command ‘"@, command@, "’."@]),
    }
}

/// Whether `text` is the display message of the formatter error; a wrapped error of ICU4X or std shows the
/// message that its `Display` writes, a wrapped localiser error its own display message.
pub open spec fn formatter_text_agrees(e: FormatterError, text: Seq<char>) -> bool
    decreases e,
{
    match e {
        FormatterError::Localiser(error) => exists|inner: Seq<char>|
            #![trigger wrapped("FormatterError::Localiser: ["@, inner)]
            localiser_text_agrees(*error, inner) && text == wrapped("FormatterError::Localiser: ["@, inner),
        FormatterError::Tree(error) => text == wrapped("FormatterError::Tree: ["@, tree_error_text(error)),
        FormatterError::Command(error) => text == wrapped("FormatterError::Command: ["@, command_error_text(error)),
        FormatterError::Locale(error) => text == wrapped("FormatterError::Locale: ["@, spec_locale_error_text(error)),
        FormatterError::Calendar(error) => text == wrapped("FormatterError::Calendar: ["@, spec_calendar_error_text(error)),
        FormatterError::ParseInt(error) => text == wrapped("FormatterError::ParseInt: ["@, spec_parse_int_error_text(error)),
        FormatterError::Decimal(error) => text == wrapped("FormatterError::Decimal: ["@, spec_decimal_error_text(error)),
        FormatterError::DateTime(error) => text == wrapped("FormatterError::DateTime: ["@, spec_date_time_error_text(error)),
        FormatterError::PluralRules(error) => text == wrapped("FormatterError::PluralRules: ["@, spec_plurals_error_text(error)),
        FormatterError::InvalidRoot => text == join_all(seq!["FormatterError::InvalidRoot: The tree root must be a ‘Root’ node."@]),
        FormatterError::NoGrammar => text == join_all(seq!["FormatterError::NoGrammar: No grammar syntax characters was found in the provided localisation string."@]),
        FormatterError::RetrieveChildren(node_type) => text == join_all(seq!["FormatterError::RetrieveChildren: Failed to retrieve the children for the ‘"@, node_type.spec_name(), "’ node."@]),
        FormatterError::NodeNotFound(node_type) => text == join_all(seq!["FormatterError::NodeNotFound: The expected node ‘"@, node_type.spec_name(), "’ was not found."@]),
        FormatterError::FirstChild(node_type) => text == join_all(seq!["FormatterError::FirstChild: The first child of the ‘"@, node_type.spec_name(), "’ node was not found."@]),
        FormatterError::RetrieveNodeData(node_type) => text == join_all(seq!["FormatterError::RetrieveNodeData: Failed to retrieve the data for the ‘"@, node_type.spec_name(), "’ node."@]),
        FormatterError::RetrieveNodeToken(node_type) => text == join_all(seq!["FormatterError::RetrieveNodeToken: Failed to retrieve the token for the ‘"@, node_type.spec_name(), "’ node."@]),
        FormatterError::LastChild(node_type) => text == join_all(seq!["FormatterError::LastChild: The last child of the ‘"@, node_type.spec_name(), "’ node was not found."@]),
        FormatterError::InvalidNode(node_type) => text == join_all(seq!["FormatterError::InvalidNode: Invalid child node found in the ‘"@, node_type.spec_name(), "’ node."@]),
        FormatterError::PatternNamed(identifier) => text == join_all(seq!["FormatterError::PatternNamed: Failed to retrieve the pattern for the named string ‘"@, identifier@, "’."@]),
        FormatterError::PatternPart(identifier, index) => text == join_all(seq!["FormatterError::PatternPart: Failed to retrieve the part ‘"@, decimal_text(index as nat), "’ of the pattern for the named string ‘"@, identifier@, "’."@]),
        FormatterError::InvalidOptionValue(value, option, keyword) => text == join_all(seq!["FormatterError::InvalidOptionValue: The value ‘"@, value@, "’ is invalid for the option ‘"@, option@, "’ for the keyword ‘"@, keyword@, "’."@]),
        FormatterError::InvalidKeyword(keyword, placeholder) => text == join_all(seq!["FormatterError::InvalidKeyword: Invalid keyword ‘"@, keyword@, "’ for the placeholder ‘"@, placeholder@, "’."@]),
        FormatterError::SelectorNamed(named, selector, identifier) => text == join_all(seq!["FormatterError::SelectorNamed: The named string identifier ‘"@, named@, "’ was not found for the selector ‘"@, selector@, "’ of the placeholder ‘"@, identifier@, "’."@]),
        FormatterError::SelectorOther(keyword, placeholder) => text == join_all(seq!["FormatterError::SelectorOther: The required ‘other’ selector was not found for the keyword ‘"@, keyword@, "’ of the placeholder ‘"@, placeholder@, "’."@]),
        FormatterError::NoChildren(node_type) => text == join_all(seq!["FormatterError::NoChildren: No children nodes was found for ‘"@, node_type.spec_name(), "’ node."@]),
        FormatterError::InvalidOption(option, keyword, placeholder) => text == join_all(seq!["FormatterError::InvalidOption: Invalid option ‘"@, option@, "’ for the keyword ‘"@, keyword@, "’ of the placeholder ‘"@, placeholder@, "’."@]),
        FormatterError::InvalidSelector(option, keyword, placeholder) => text == join_all(seq!["FormatterError::InvalidSelector: Invalid selector ‘"@, option@, "’ for the keyword ‘"@, keyword@, "’ of the placeholder ‘"@, placeholder@, "’."@]),
        FormatterError::NumberSignString(index) => text == join_all(seq!["FormatterError::NumberSignString: Unable to retrieve the formatted string for the NumberSign index "@, decimal_text(index as nat), "."@]),
        FormatterError::SelectorsIndex(index) => text == join_all(seq!["FormatterError::SelectorsIndex: The index "@, decimal_text(index as nat), " is not found in the collected selectors."@]),
        FormatterError::SelectorsIndexNamed(identifier, index) => text == join_all(seq!["FormatterError::SelectorsIndexNamed: Failed to retrieve the string for the named string ‘"@, identifier@, "’ of the selectors index "@, decimal_text(index as nat), "."@]),
        FormatterError::PlaceholderValue(part, placeholder) => text == join_all(seq!["FormatterError::PlaceholderValue: The placeholder value was not found for the pattern part ‘"@, part@, "’ of the placeholder ‘"@, placeholder@, "’."@]),
        FormatterError::InvalidValue(part) => text == join_all(seq!["FormatterError::InvalidValue: Invalid value type was provided for the pattern part ‘"@, part@, "’."@]),
        FormatterError::NamedStringIdentifier(identifier) => text == join_all(seq!["FormatterError::NamedStringIdentifier: The named string identifier ‘"@, identifier@, "’ already exists. The identifiers must be unique and not ‘_’."@]),
        FormatterError::NoIcuProvider => text == join_all(seq!["FormatterError::NoIcuProvider: Build error: At least one ICU4X data provider must be specified for the crate ‘i18n_icu’ using the crate's features."@]),
        FormatterError::NeverReached => text == join_all(seq!["FormatterError::NeverReached: Build error: Should never have reached this match branch."@]),
    }
}

/// Whether `text` is the display message of the localiser error: a wrapped language tag parser error shows
/// the message that its `Display` writes, a wrapped formatter error its message as [`formatter_text_agrees`]
/// states; a provider's error shows the component and identifier of its data.
pub open spec fn localiser_text_agrees(e: LocaliserError, text: Seq<char>) -> bool
    decreases e,
{
    match e {
        LocaliserError::Registry(error) => text == wrapped("LocaliserError::Registry: ["@, spec_locale_error_text(error)),
        LocaliserError::Formatter(error) => exists|inner: Seq<char>|
            #![trigger wrapped("LocaliserError::Formatter: ["@, inner)]
            formatter_text_agrees(error, inner) && text == wrapped("LocaliserError::Formatter: ["@, inner),
        LocaliserError::StringNotFound(component, identifier, language_tag, fallback) => text == join_all(seq!["LocaliserError::StringNotFound: No string was found for the component ‘"@, component@, "’ with identifier ‘"@, identifier@, "’ for the language tag ‘"@, language_tag@, "’. Fallback was used: "@, (if fallback { "True"@ } else { "False"@ }), "."@]),
        LocaliserError::CacheEntry(component, identifier) => text == join_all(seq!["LocaliserError::CacheEntry: Unable to get the string for the component ‘"@, component@, "’ with the identifier ‘"@, identifier@, "’ as the cache entry requires values for formatting."@]),
        LocaliserError::Provider(error) => text == join_all(seq!["LocaliserError::Provider: ["@, error.data.component@, "/"@, error.data.identifier@, "]."@]),
    }
}

impl TreeError {
    /// The display message of the error.
    pub fn message(&self) -> (result: String)
        ensures
            result@ == tree_error_text(*self),
    {
        match self {
            TreeError::Lexer(e) => {
                let mut pieces: Vec<String> = Vec::new();
                pieces.push(text("TreeError::LexerError: ["));
                pieces.push(lexer_message(e));
                pieces.push(text("]."));
                assert(pieces@.map_values(|s: String| s@) =~= seq!["TreeError::LexerError: ["@, lexer_error_text(*e), "]."@]);
                concat(pieces)
            },
            TreeError::EndedAbruptly => {
                let mut pieces: Vec<String> = Vec::new();
                pieces.push(text("TreeError::EndedAbruptly: The string ended abruptly."));
                assert(pieces@.map_values(|s: String| s@) =~= seq!["TreeError::EndedAbruptly: The string ended abruptly."@]);
                concat(pieces)
            },
            TreeError::InvalidToken(state, position, token) => {
                let mut pieces: Vec<String> = Vec::new();
                pieces.push(text("TreeError::InvalidToken: In the parser state ‘"));
                pieces.push(text(state.name()));
                pieces.push(text("’ an invalid token ‘"));
                pieces.push(token.clone());
                pieces.push(text("’ was found at the position "));
                pieces.push(decimal(*position));
                pieces.push(text(" of the string."));
                assert(pieces@.map_values(|s: String| s@) =~= seq!["TreeError::InvalidToken: In the parser state ‘"@, state.spec_name(), "’ an invalid token ‘"@, token@, "’ was found at the position "@, decimal_text(*position as nat), " of the string."@]);
                concat(pieces)
            },
            TreeError::UniquePattern(identifier) => {
                let mut pieces: Vec<String> = Vec::new();
                pieces.push(text("TreeError::UniquePattern: Pattern identifiers must be unique. The identifier ‘"));
                pieces.push(identifier.clone());
                pieces.push(text("’ already exists."));
                assert(pieces@.map_values(|s: String| s@) =~= seq!["TreeError::UniquePattern: Pattern identifiers must be unique. The identifier ‘"@, identifier@, "’ already exists."@]);
                concat(pieces)
            },
            TreeError::MultiNumberSign(position) => {
                let mut pieces: Vec<String> = Vec::new();
                pieces.push(text("TreeError::MultiNumberSign: Found sequential number signs at the position "));
                pieces.push(decimal(*position));
                pieces.push(text(" of the string."));
                assert(pieces@.map_values(|s: String| s@) =~= seq!["TreeError::MultiNumberSign: Found sequential number signs at the position "@, decimal_text(*position as nat), " of the string."@]);
                concat(pieces)
            },
            TreeError::UniqueNamed(identifier) => {
                let mut pieces: Vec<String> = Vec::new();
                pieces.push(text("TreeError::UniqueNamed: Named substrings must have unique identifiers. The identifier ‘"));
                pieces.push(identifier.clone());
                pieces.push(text("’ already exists."));
                assert(pieces@.map_values(|s: String| s@) =~= seq!["TreeError::UniqueNamed: Named substrings must have unique identifiers. The identifier ‘"@, identifier@, "’ already exists."@]);
                concat(pieces)
            },
        }
    }
}

impl CommandError {
    /// The display message of the error.
    pub fn message(&self) -> (result: String)
        ensures
            result@ == command_error_text(*self),
    {
        match self {
            CommandError::Custom(data) => {
                let mut pieces: Vec<String> = Vec::new();
                pieces.push(text("CommandError::Custom: ["));
                pieces.push(data.component.clone());
                pieces.push(text("/"));
                pieces.push(data.identifier.clone());
                pieces.push(text("]."));
                assert(pieces@.map_values(|s: String| s@) =~= seq!["CommandError::Custom: ["@, data.component@, "/"@, data.identifier@, "]."@]);
                concat(pieces)
            },
            CommandError::AlreadyExists(command) => {
                let mut pieces: Vec<String> = Vec::new();
                pieces.push(text("CommandError::AlreadyExists: The command ‘"));
                pieces.push(command.clone());
                pieces.push(text("’ already exists in the CommandRegistry."));
                assert(pieces@.map_values(|s: String| s@) =~= seq!["CommandError::AlreadyExists: The command ‘"@, command@, "’ already exists in the CommandRegistry."@]);
                concat(pieces)
            },
            CommandError::NotFound(command) => {
                let mut pieces: Vec<String> = Vec::new();
                pieces.push(text("CommandError::NotFound: The command ‘"));
                pieces.push(command.clone());
                pieces.push(text("’ was not found in the CommandRegistry."));
                assert(pieces@.map_values(|s: String| s@) =~= seq!["CommandError::NotFound: The command ‘"@, command@, "’ was not found in the CommandRegistry."@]);
                concat(pieces)
            },
            CommandError::ParameterMissing(command, index) => {
                let mut pieces: Vec<String> = Vec::new();
                pieces.push(text("CommandError::ParameterMissing: The parameter number "));
                pieces.push(decimal(*index));
                pieces.push(text(" is missing for the command ‘"));
                pieces.push(command.clone());
                pieces.push(text("’."));
                assert(pieces@.map_values(|s: String| s@) =~= seq!["CommandError::ParameterMissing: The parameter number "@, decimal_text(*index as nat), " is missing for the command ‘"@, command@, "’."@]);
                concat(pieces)
            },
            CommandError::InvalidType(command, index) => {
                let mut pieces: Vec<String> = Vec::new();
                pieces.push(text("CommandError::InvalidType: The parameter number "));
                pieces.push(decimal(*index));
                pieces.push(text(" has invalid type for the command ‘"));
                pieces.push(command.clone());
                pieces.push(text("’."));
                assert(pieces@.map_values(|s: String| s@) =~= seq!["CommandError::InvalidType: The parameter number "@, decimal_text(*index as nat), " has invalid type for the command ‘"@, command@, "’."@]);
                concat(pieces)
            },
        }
    }
}

impl FormatterError {
    /// The display message of the error, as [`formatter_text_agrees`] states.
    pub fn message(&self) -> (result: String)
        ensures
            formatter_text_agrees(*self, result@),
        decreases self,
    {
        match self {
            FormatterError::Localiser(error) => {
                let inner = error.message();
                let ghost t = inner@;
                let result = wrap("FormatterError::Localiser: [", inner);
                assert(localiser_text_agrees(**error, t) && result@ == wrapped("FormatterError::Localiser: ["@, t));
                result
            },
            FormatterError::Tree(error) => wrap("FormatterError::Tree: [", error.message()),
            FormatterError::Command(error) => wrap("FormatterError::Command: [", error.message()),
            FormatterError::Locale(error) => {
                let inner = locale_error_text(error);
                let ghost t = inner@;
                let result = wrap("FormatterError::Locale: [", inner);
                assert(result@ == wrapped("FormatterError::Locale: ["@, t));
                result
            },
            FormatterError::Calendar(error) => {
                let inner = calendar_error_text(error);
                let ghost t = inner@;
                let result = wrap("FormatterError::Calendar: [", inner);
                assert(result@ == wrapped("FormatterError::Calendar: ["@, t));
                result
            },
            FormatterError::ParseInt(error) => {
                let inner = parse_int_error_text(error);
                let ghost t = inner@;
                let result = wrap("FormatterError::ParseInt: [", inner);
                assert(result@ == wrapped("FormatterError::ParseInt: ["@, t));
                result
            },
            FormatterError::Decimal(error) => {
                let inner = decimal_error_text(error);
                let ghost t = inner@;
                let result = wrap("FormatterError::Decimal: [", inner);
                assert(result@ == wrapped("FormatterError::Decimal: ["@, t));
                result
            },
            FormatterError::DateTime(error) => {
                let inner = date_time_error_text(error);
                let ghost t = inner@;
                let result = wrap("FormatterError::DateTime: [", inner);
                assert(result@ == wrapped("FormatterError::DateTime: ["@, t));
                result
            },
            FormatterError::PluralRules(error) => {
                let inner = plurals_error_text(error);
                let ghost t = inner@;
                let result = wrap("FormatterError::PluralRules: [", inner);
                assert(result@ == wrapped("FormatterError::PluralRules: ["@, t));
                result
            },
            FormatterError::InvalidRoot => {
                let mut pieces: Vec<String> = Vec::new();
                pieces.push(text("FormatterError::InvalidRoot: The tree root must be a ‘Root’ node."));
                assert(pieces@.map_values(|s: String| s@) =~= seq!["FormatterError::InvalidRoot: The tree root must be a ‘Root’ node."@]);
                concat(pieces)
            },
            FormatterError::NoGrammar => {
                let mut pieces: Vec<String> = Vec::new();
                pieces.push(text("FormatterError::NoGrammar: No grammar syntax characters was found in the provided localisation string."));
                assert(pieces@.map_values(|s: String| s@) =~= seq!["FormatterError::NoGrammar: No grammar syntax characters was found in the provided localisation string."@]);
                concat(pieces)
            },
            FormatterError::RetrieveChildren(node_type) => {
                let mut pieces: Vec<String> = Vec::new();
                pieces.push(text("FormatterError::RetrieveChildren: Failed to retrieve the children for the ‘"));
                pieces.push(text(node_type.name()));
                pieces.push(text("’ node."));
                assert(pieces@.map_values(|s: String| s@) =~= seq!["FormatterError::RetrieveChildren: Failed to retrieve the children for the ‘"@, node_type.spec_name(), "’ node."@]);
                concat(pieces)
            },
            FormatterError::NodeNotFound(node_type) => {
                let mut pieces: Vec<String> = Vec::new();
                pieces.push(text("FormatterError::NodeNotFound: The expected node ‘"));
                pieces.push(text(node_type.name()));
                pieces.push(text("’ was not found."));
                assert(pieces@.map_values(|s: String| s@) =~= seq!["FormatterError::NodeNotFound: The expected node ‘"@, node_type.spec_name(), "’ was not found."@]);
                concat(pieces)
            },
            FormatterError::FirstChild(node_type) => {
                let mut pieces: Vec<String> = Vec::new();
                pieces.push(text("FormatterError::FirstChild: The first child of the ‘"));
                pieces.push(text(node_type.name()));
                pieces.push(text("’ node was not found."));
                assert(pieces@.map_values(|s: String| s@) =~= seq!["FormatterError::FirstChild: The first child of the ‘"@, node_type.spec_name(), "’ node was not found."@]);
                concat(pieces)
            },
            FormatterError::RetrieveNodeData(node_type) => {
                let mut pieces: Vec<String> = Vec::new();
                pieces.push(text("FormatterError::RetrieveNodeData: Failed to retrieve the data for the ‘"));
                pieces.push(text(node_type.name()));
                pieces.push(text("’ node."));
                assert(pieces@.map_values(|s: String| s@) =~= seq!["FormatterError::RetrieveNodeData: Failed to retrieve the data for the ‘"@, node_type.spec_name(), "’ node."@]);
                concat(pieces)
            },
            FormatterError::RetrieveNodeToken(node_type) => {
                let mut pieces: Vec<String> = Vec::new();
                pieces.push(text("FormatterError::RetrieveNodeToken: Failed to retrieve the token for the ‘"));
                pieces.push(text(node_type.name()));
                pieces.push(text("’ node."));
                assert(pieces@.map_values(|s: String| s@) =~= seq!["FormatterError::RetrieveNodeToken: Failed to retrieve the token for the ‘"@, node_type.spec_name(), "’ node."@]);
                concat(pieces)
            },
            FormatterError::LastChild(node_type) => {
                let mut pieces: Vec<String> = Vec::new();
                pieces.push(text("FormatterError::LastChild: The last child of the ‘"));
                pieces.push(text(node_type.name()));
                pieces.push(text("’ node was not found."));
                assert(pieces@.map_values(|s: String| s@) =~= seq!["FormatterError::LastChild: The last child of the ‘"@, node_type.spec_name(), "’ node was not found."@]);
                concat(pieces)
            },
            FormatterError::InvalidNode(node_type) => {
                let mut pieces: Vec<String> = Vec::new();
                pieces.push(text("FormatterError::InvalidNode: Invalid child node found in the ‘"));
                pieces.push(text(node_type.name()));
                pieces.push(text("’ node."));
                assert(pieces@.map_values(|s: String| s@) =~= seq!["FormatterError::InvalidNode: Invalid child node found in the ‘"@, node_type.spec_name(), "’ node."@]);
                concat(pieces)
            },
            FormatterError::PatternNamed(identifier) => {
                let mut pieces: Vec<String> = Vec::new();
                pieces.push(text("FormatterError::PatternNamed: Failed to retrieve the pattern for the named string ‘"));
                pieces.push(identifier.clone());
                pieces.push(text("’."));
                assert(pieces@.map_values(|s: String| s@) =~= seq!["FormatterError::PatternNamed: Failed to retrieve the pattern for the named string ‘"@, identifier@, "’."@]);
                concat(pieces)
            },
            FormatterError::PatternPart(identifier, index) => {
                let mut pieces: Vec<String> = Vec::new();
                pieces.push(text("FormatterError::PatternPart: Failed to retrieve the part ‘"));
                pieces.push(decimal(*index));
                pieces.push(text("’ of the pattern for the named string ‘"));
                pieces.push(identifier.clone());
                pieces.push(text("’."));
                assert(pieces@.map_values(|s: String| s@) =~= seq!["FormatterError::PatternPart: Failed to retrieve the part ‘"@, decimal_text(*index as nat), "’ of the pattern for the named string ‘"@, identifier@, "’."@]);
                concat(pieces)
            },
            FormatterError::InvalidOptionValue(value, option, keyword) => {
                let mut pieces: Vec<String> = Vec::new();
                pieces.push(text("FormatterError::InvalidOptionValue: The value ‘"));
                pieces.push(value.clone());
                pieces.push(text("’ is invalid for the option ‘"));
                pieces.push(option.clone());
                pieces.push(text("’ for the keyword ‘"));
                pieces.push(keyword.clone());
                pieces.push(text("’."));
                assert(pieces@.map_values(|s: String| s@) =~= seq!["FormatterError::InvalidOptionValue: The value ‘"@, value@, "’ is invalid for the option ‘"@, option@, "’ for the keyword ‘"@, keyword@, "’."@]);
                concat(pieces)
            },
            FormatterError::InvalidKeyword(keyword, placeholder) => {
                let mut pieces: Vec<String> = Vec::new();
                pieces.push(text("FormatterError::InvalidKeyword: Invalid keyword ‘"));
                pieces.push(keyword.clone());
                pieces.push(text("’ for the placeholder ‘"));
                pieces.push(placeholder.clone());
                pieces.push(text("’."));
                assert(pieces@.map_values(|s: String| s@) =~= seq!["FormatterError::InvalidKeyword: Invalid keyword ‘"@, keyword@, "’ for the placeholder ‘"@, placeholder@, "’."@]);
                concat(pieces)
            },
            FormatterError::SelectorNamed(named, selector, identifier) => {
                let mut pieces: Vec<String> = Vec::new();
                pieces.push(text("FormatterError::SelectorNamed: The named string identifier ‘"));
                pieces.push(named.clone());
                pieces.push(text("’ was not found for the selector ‘"));
                pieces.push(selector.clone());
                pieces.push(text("’ of the placeholder ‘"));
                pieces.push(identifier.clone());
                pieces.push(text("’."));
                assert(pieces@.map_values(|s: String| s@) =~= seq!["FormatterError::SelectorNamed: The named string identifier ‘"@, named@, "’ was not found for the selector ‘"@, selector@, "’ of the placeholder ‘"@, identifier@, "’."@]);
                concat(pieces)
            },
            FormatterError::SelectorOther(keyword, placeholder) => {
                let mut pieces: Vec<String> = Vec::new();
                pieces.push(text("FormatterError::SelectorOther: The required ‘other’ selector was not found for the keyword ‘"));
                pieces.push(keyword.clone());
                pieces.push(text("’ of the placeholder ‘"));
                pieces.push(placeholder.clone());
                pieces.push(text("’."));
                assert(pieces@.map_values(|s: String| s@) =~= seq!["FormatterError::SelectorOther: The required ‘other’ selector was not found for the keyword ‘"@, keyword@, "’ of the placeholder ‘"@, placeholder@, "’."@]);
                concat(pieces)
            },
            FormatterError::NoChildren(node_type) => {
                let mut pieces: Vec<String> = Vec::new();
                pieces.push(text("FormatterError::NoChildren: No children nodes was found for ‘"));
                pieces.push(text(node_type.name()));
                pieces.push(text("’ node."));
                assert(pieces@.map_values(|s: String| s@) =~= seq!["FormatterError::NoChildren: No children nodes was found for ‘"@, node_type.spec_name(), "’ node."@]);
                concat(pieces)
            },
            FormatterError::InvalidOption(option, keyword, placeholder) => {
                let mut pieces: Vec<String> = Vec::new();
                pieces.push(text("FormatterError::InvalidOption: Invalid option ‘"));
                pieces.push(option.clone());
                pieces.push(text("’ for the keyword ‘"));
                pieces.push(keyword.clone());
                pieces.push(text("’ of the placeholder ‘"));
                pieces.push(placeholder.clone());
                pieces.push(text("’."));
                assert(pieces@.map_values(|s: String| s@) =~= seq!["FormatterError::InvalidOption: Invalid option ‘"@, option@, "’ for the keyword ‘"@, keyword@, "’ of the placeholder ‘"@, placeholder@, "’."@]);
                concat(pieces)
            },
            FormatterError::InvalidSelector(option, keyword, placeholder) => {
                let mut pieces: Vec<String> = Vec::new();
                pieces.push(text("FormatterError::InvalidSelector: Invalid selector ‘"));
                pieces.push(option.clone());
                pieces.push(text("’ for the keyword ‘"));
                pieces.push(keyword.clone());
                pieces.push(text("’ of the placeholder ‘"));
                pieces.push(placeholder.clone());
                pieces.push(text("’."));
                assert(pieces@.map_values(|s: String| s@) =~= seq!["FormatterError::InvalidSelector: Invalid selector ‘"@, option@, "’ for the keyword ‘"@, keyword@, "’ of the placeholder ‘"@, placeholder@, "’."@]);
                concat(pieces)
            },
            FormatterError::NumberSignString(index) => {
                let mut pieces: Vec<String> = Vec::new();
                pieces.push(text("FormatterError::NumberSignString: Unable to retrieve the formatted string for the NumberSign index "));
                pieces.push(decimal(*index));
                pieces.push(text("."));
                assert(pieces@.map_values(|s: String| s@) =~= seq!["FormatterError::NumberSignString: Unable to retrieve the formatted string for the NumberSign index "@, decimal_text(*index as nat), "."@]);
                concat(pieces)
            },
            FormatterError::SelectorsIndex(index) => {
                let mut pieces: Vec<String> = Vec::new();
                pieces.push(text("FormatterError::SelectorsIndex: The index "));
                pieces.push(decimal(*index));
                pieces.push(text(" is not found in the collected selectors."));
                assert(pieces@.map_values(|s: String| s@) =~= seq!["FormatterError::SelectorsIndex: The index "@, decimal_text(*index as nat), " is not found in the collected selectors."@]);
                concat(pieces)
            },
            FormatterError::SelectorsIndexNamed(identifier, index) => {
                let mut pieces: Vec<String> = Vec::new();
                pieces.push(text("FormatterError::SelectorsIndexNamed: Failed to retrieve the string for the named string ‘"));
                pieces.push(identifier.clone());
                pieces.push(text("’ of the selectors index "));
                pieces.push(decimal(*index));
                pieces.push(text("."));
                assert(pieces@.map_values(|s: String| s@) =~= seq!["FormatterError::SelectorsIndexNamed: Failed to retrieve the string for the named string ‘"@, identifier@, "’ of the selectors index "@, decimal_text(*index as nat), "."@]);
                concat(pieces)
            },
            FormatterError::PlaceholderValue(part, placeholder) => {
                let mut pieces: Vec<String> = Vec::new();
                pieces.push(text("FormatterError::PlaceholderValue: The placeholder value was not found for the pattern part ‘"));
                pieces.push(part.clone());
                pieces.push(text("’ of the placeholder ‘"));
                pieces.push(placeholder.clone());
                pieces.push(text("’."));
                assert(pieces@.map_values(|s: String| s@) =~= seq!["FormatterError::PlaceholderValue: The placeholder value was not found for the pattern part ‘"@, part@, "’ of the placeholder ‘"@, placeholder@, "’."@]);
                concat(pieces)
            },
            FormatterError::InvalidValue(part) => {
                let mut pieces: Vec<String> = Vec::new();
                pieces.push(text("FormatterError::InvalidValue: Invalid value type was provided for the pattern part ‘"));
                pieces.push(part.clone());
                pieces.push(text("’."));
                assert(pieces@.map_values(|s: String| s@) =~= seq!["FormatterError::InvalidValue: Invalid value type was provided for the pattern part ‘"@, part@, "’."@]);
                concat(pieces)
            },
            FormatterError::NamedStringIdentifier(identifier) => {
                let mut pieces: Vec<String> = Vec::new();
                pieces.push(text("FormatterError::NamedStringIdentifier: The named string identifier ‘"));
                pieces.push(identifier.clone());
                pieces.push(text("’ already exists. The identifiers must be unique and not ‘_’."));
                assert(pieces@.map_values(|s: String| s@) =~= seq!["FormatterError::NamedStringIdentifier: The named string identifier ‘"@, identifier@, "’ already exists. The identifiers must be unique and not ‘_’."@]);
                concat(pieces)
            },
            FormatterError::NoIcuProvider => {
                let mut pieces: Vec<String> = Vec::new();
                pieces.push(text("FormatterError::NoIcuProvider: Build error: At least one ICU4X data provider must be specified for the crate ‘i18n_icu’ using the crate's features."));
                assert(pieces@.map_values(|s: String| s@) =~= seq!["FormatterError::NoIcuProvider: Build error: At least one ICU4X data provider must be specified for the crate ‘i18n_icu’ using the crate's features."@]);
                concat(pieces)
            },
            FormatterError::NeverReached => {
                let mut pieces: Vec<String> = Vec::new();
                pieces.push(text("FormatterError::NeverReached: Build error: Should never have reached this match branch."));
                assert(pieces@.map_values(|s: String| s@) =~= seq!["FormatterError::NeverReached: Build error: Should never have reached this match branch."@]);
                concat(pieces)
            },
        }
    }
}

impl LocaliserError {
    /// The display message of the error, as [`localiser_text_agrees`] states.
    pub fn message(&self) -> (result: String)
        ensures
            localiser_text_agrees(*self, result@),
        decreases self,
    {
        match self {
            LocaliserError::Registry(error) => {
                let inner = locale_error_text(error);
                let ghost t = inner@;
                let result = wrap("LocaliserError::Registry: [", inner);
                assert(result@ == wrapped("LocaliserError::Registry: ["@, t));
                result
            },
            LocaliserError::Formatter(error) => {
                let inner = error.message();
                let ghost t = inner@;
                let result = wrap("LocaliserError::Formatter: [", inner);
                assert(formatter_text_agrees(*error, t) && result@ == wrapped("LocaliserError::Formatter: ["@, t));
                result
            },
            LocaliserError::StringNotFound(component, identifier, language_tag, fallback) => {
                let mut pieces: Vec<String> = Vec::new();
                pieces.push(text("LocaliserError::StringNotFound: No string was found for the component ‘"));
                pieces.push(component.clone());
                pieces.push(text("’ with identifier ‘"));
                pieces.push(identifier.clone());
                pieces.push(text("’ for the language tag ‘"));
                pieces.push(language_tag.clone());
                pieces.push(text("’. Fallback was used: "));
                pieces.push(text(if *fallback { "True" } else { "False" }));
                pieces.push(text("."));
                assert(pieces@.map_values(|s: String| s@) =~= seq!["LocaliserError::StringNotFound: No string was found for the component ‘"@, component@, "’ with identifier ‘"@, identifier@, "’ for the language tag ‘"@, language_tag@, "’. Fallback was used: "@, (if *fallback { "True"@ } else { "False"@ }), "."@]);
                concat(pieces)
            },
            LocaliserError::CacheEntry(component, identifier) => {
                let mut pieces: Vec<String> = Vec::new();
                pieces.push(text("LocaliserError::CacheEntry: Unable to get the string for the component ‘"));
                pieces.push(component.clone());
                pieces.push(text("’ with the identifier ‘"));
                pieces.push(identifier.clone());
                pieces.push(text("’ as the cache entry requires values for formatting."));
                assert(pieces@.map_values(|s: String| s@) =~= seq!["LocaliserError::CacheEntry: Unable to get the string for the component ‘"@, component@, "’ with the identifier ‘"@, identifier@, "’ as the cache entry requires values for formatting."@]);
                concat(pieces)
            },
            LocaliserError::Provider(error) => {
                let mut pieces: Vec<String> = Vec::new();
                pieces.push(text("LocaliserError::Provider: ["));
                pieces.push(error.data.component.clone());
                pieces.push(text("/"));
                pieces.push(error.data.identifier.clone());
                pieces.push(text("]."));
                assert(pieces@.map_values(|s: String| s@) =~= seq!["LocaliserError::Provider: ["@, error.data.component@, "/"@, error.data.identifier@, "]."@]);
                concat(pieces)
            },
        }
    }
}

/// A value that localises: the localisation data of its message.
pub trait LocalisationTrait {
    /// Whether `data` is the localisation data of the value.
    spec fn data_agrees(&self, data: DataView) -> bool;

    /// The localisation data of the value.
    fn localisation_data(&self) -> (result: LocalisationData)
        ensures
            self.data_agrees(data_view(result)),
    ;
}

/// A named text value.
pub open spec fn text_value(name: Seq<char>, text: Seq<char>) -> (Seq<char>, ValueView) {
    (name, ValueView::String(text))
}

/// A named count.
pub open spec fn count_value(name: Seq<char>, count: usize) -> (Seq<char>, ValueView) {
    (name, ValueView::Unsigned(count as u128))
}

/// The localisation data of a message with placeholder values.
pub open spec fn message_of(component: Seq<char>, identifier: Seq<char>, values: Seq<(Seq<char>, ValueView)>) -> DataView {
    DataView { component, identifier, values: Some(values) }
}

/// The localisation data of a message without placeholders.
pub open spec fn plain_message(component: Seq<char>, identifier: Seq<char>) -> DataView {
    DataView { component, identifier, values: None }
}

/// The localisation data of an error: its type, its variant and its message.
pub open spec fn enum_data(kind: Seq<char>, variant: Seq<char>, message: DataView) -> DataView {
    message_of(
        "i18n_localiser"@,
        "error_format_enum"@,
        seq![text_value("type"@, kind), text_value("variant"@, variant), ("message"@, ValueView::LocalisationData(message))],
    )
}

/// The localisation data of an error that wraps another: its type, its variant and the wrapped error.
pub open spec fn embedded_data(kind: Seq<char>, variant: Seq<char>, error: ValueView) -> DataView {
    message_of(
        "i18n_localiser"@,
        "error_format_enum_embedded"@,
        seq![text_value("type"@, kind), text_value("variant"@, variant), ("error"@, error)],
    )
}

/// A named text value.
fn text_pair(name: &str, text: String) -> (result: (String, PlaceholderValue))
    ensures
        (result.0@, value_view(result.1)) == text_value(name@, text@),
{
    (name.to_owned(), PlaceholderValue::String(text))
}

/// A named count.
fn count_pair(name: &str, count: usize) -> (result: (String, PlaceholderValue))
    ensures
        (result.0@, value_view(result.1)) == count_value(name@, count),
{
    (name.to_owned(), PlaceholderValue::Unsigned(count as u128))
}

/// The localisation data of a message with the placeholder values.
fn data_of(component: &str, identifier: &str, values: Vec<(String, PlaceholderValue)>) -> (result: LocalisationData)
    ensures
        data_view(result) == message_of(component@, identifier@, named_views(values@)),
{
    let result = LocalisationData { component: component.to_owned(), identifier: identifier.to_owned(), values: Some(values) };
    proof {
        lemma_data_view(result);
    }
    result
}

/// The localisation data of a message without placeholders.
fn plain_data(component: &str, identifier: &str) -> (result: LocalisationData)
    ensures
        data_view(result) == plain_message(component@, identifier@),
{
    LocalisationData { component: component.to_owned(), identifier: identifier.to_owned(), values: None }
}

/// The localisation data of an error with its message.
fn enum_message(kind: &str, variant: &str, message: LocalisationData) -> (result: LocalisationData)
    ensures
        data_view(result) == enum_data(kind@, variant@, data_view(message)),
{
    let mut values: Vec<(String, PlaceholderValue)> = Vec::new();
    values.push(text_pair("type", text(kind)));
    values.push(text_pair("variant", text(variant)));
    values.push(("message".to_owned(), PlaceholderValue::LocalisationData(message)));
    assert(named_views(values@) =~= seq![text_value("type"@, kind@), text_value("variant"@, variant@), ("message"@, ValueView::LocalisationData(data_view(message)))]);
    data_of("i18n_localiser", "error_format_enum", values)
}

/// The localisation data of an error with the error it wraps.
fn enum_embedded(kind: &str, variant: &str, error: PlaceholderValue) -> (result: LocalisationData)
    ensures
        data_view(result) == embedded_data(kind@, variant@, value_view(error)),
{
    let mut values: Vec<(String, PlaceholderValue)> = Vec::new();
    values.push(text_pair("type", text(kind)));
    values.push(text_pair("variant", text(variant)));
    values.push(("error".to_owned(), error));
    assert(named_views(values@) =~= seq![text_value("type"@, kind@), text_value("variant"@, variant@), ("error"@, value_view(error))]);
    data_of("i18n_localiser", "error_format_enum_embedded", values)
}

/// The localisation data of a lexer error.
pub open spec fn lexer_error_data(e: LexerError) -> DataView {
    match e {
        LexerError::NoGrammar => enum_data("LexerError"@, "NoGrammar"@, plain_message("i18n_lexer"@, "no_grammar"@)),
        LexerError::EmptyString => enum_data("LexerError"@, "EmptyString"@, plain_message("i18n_lexer"@, "empty_string"@)),
    }
}

/// The localisation data of a tree error.
pub open spec fn tree_error_data(e: TreeError) -> DataView {
    match e {
        TreeError::Lexer(error) => embedded_data("TreeError"@, "LexerError"@, ValueView::LocalisationData(lexer_error_data(error))),
        TreeError::EndedAbruptly => enum_data("TreeError"@, "EndedAbruptly"@, plain_message("i18n_pattern"@, "string_ended_abruptly"@)),
        TreeError::InvalidToken(state, position, token) => enum_data("TreeError"@, "InvalidToken"@, message_of("i18n_pattern"@, "invalid_token"@, seq![text_value("state"@, state.spec_name()), count_value("position"@, position), text_value("token"@, token@)])),
        TreeError::UniquePattern(identifier) => enum_data("TreeError"@, "UniquePattern"@, message_of("i18n_pattern"@, "unique_pattern"@, seq![text_value("identifier"@, identifier@)])),
        TreeError::MultiNumberSign(position) => enum_data("TreeError"@, "MultiNumberSign"@, message_of("i18n_pattern"@, "multi_number_sign"@, seq![count_value("position"@, position)])),
        TreeError::UniqueNamed(identifier) => enum_data("TreeError"@, "UniqueNamed"@, message_of("i18n_pattern"@, "unique_named"@, seq![text_value("identifier"@, identifier@)])),
    }
}

/// The localisation data of a command error; a custom error wraps its own data.
pub open spec fn command_error_data(e: CommandError) -> DataView {
    match e {
        CommandError::Custom(data) => embedded_data("CommandError"@, "Custom"@, ValueView::LocalisationData(data_view(data))),
        CommandError::AlreadyExists(command) => enum_data("CommandError"@, "AlreadyExists"@, message_of("i18n_pattern"@, "already_exists"@, seq![text_value("command"@, command@)])),
        CommandError::NotFound(command) => enum_data("CommandError"@, "NotFound"@, message_of("i18n_pattern"@, "command_not_found"@, seq![text_value("command"@, command@)])),
        CommandError::ParameterMissing(command, index) => enum_data("CommandError"@, "ParameterMissing"@, message_of("i18n_pattern"@, "parameter_missing"@, seq![text_value("command"@, command@), count_value("index"@, index)])),
        CommandError::InvalidType(command, index) => enum_data("CommandError"@, "InvalidType"@, message_of("i18n_pattern"@, "invalid_type"@, seq![text_value("command"@, command@), count_value("index"@, index)])),
    }
}

/// Whether `data` is the localisation data of the formatter error; a wrapped error of ICU4X, std or the
/// localiser is given by its display message.
pub open spec fn formatter_data_agrees(e: FormatterError, data: DataView) -> bool {
    match e {
        FormatterError::Localiser(error) => exists|inner: Seq<char>|
            #![trigger embedded_data("FormatterError"@, "Localiser"@, ValueView::String(inner))]
            localiser_text_agrees(*error, inner) && data == embedded_data("FormatterError"@, "Localiser"@, ValueView::String(inner)),
        FormatterError::Tree(error) => data == embedded_data("FormatterError"@, "Tree"@, ValueView::String(tree_error_text(error))),
        FormatterError::Command(error) => data == embedded_data("FormatterError"@, "Command"@, ValueView::LocalisationData(command_error_data(error))),
        FormatterError::Locale(error) => data == embedded_data("FormatterError"@, "Locale"@, ValueView::String(spec_locale_error_text(error))),
        FormatterError::Calendar(error) => data == embedded_data("FormatterError"@, "Calendar"@, ValueView::String(spec_calendar_error_text(error))),
        FormatterError::ParseInt(error) => data == embedded_data("FormatterError"@, "ParseInt"@, ValueView::String(spec_parse_int_error_text(error))),
        FormatterError::Decimal(error) => data == embedded_data("FormatterError"@, "Decimal"@, ValueView::String(spec_decimal_error_text(error))),
        FormatterError::DateTime(error) => data == embedded_data("FormatterError"@, "DateTime"@, ValueView::String(spec_date_time_error_text(error))),
        FormatterError::PluralRules(error) => data == embedded_data("FormatterError"@, "PluralRules"@, ValueView::String(spec_plurals_error_text(error))),
        FormatterError::InvalidRoot => data == enum_data("FormatterError"@, "InvalidRoot"@, plain_message("i18n_localiser"@, "invalid_root"@)),
        FormatterError::NoGrammar => data == enum_data("FormatterError"@, "NoGrammar"@, plain_message("i18n_localiser"@, "no_grammar"@)),
        FormatterError::RetrieveChildren(node_type) => data == enum_data("FormatterError"@, "RetrieveChildren"@, message_of("i18n_localiser"@, "retrieve_children"@, seq![text_value("node_type"@, node_type.spec_name())])),
        FormatterError::NodeNotFound(node_type) => data == enum_data("FormatterError"@, "NodeNotFound"@, message_of("i18n_localiser"@, "node_not_found"@, seq![text_value("node_type"@, node_type.spec_name())])),
        FormatterError::FirstChild(node_type) => data == enum_data("FormatterError"@, "FirstChild"@, message_of("i18n_localiser"@, "first_child"@, seq![text_value("node_type"@, node_type.spec_name())])),
        FormatterError::RetrieveNodeData(node_type) => data == enum_data("FormatterError"@, "RetrieveNodeData"@, message_of("i18n_localiser"@, "retrieve_node_data"@, seq![text_value("node_type"@, node_type.spec_name())])),
        FormatterError::RetrieveNodeToken(node_type) => data == enum_data("FormatterError"@, "RetrieveNodeToken"@, message_of("i18n_localiser"@, "retrieve_node_token"@, seq![text_value("node_type"@, node_type.spec_name())])),
        FormatterError::LastChild(node_type) => data == enum_data("FormatterError"@, "LastChild"@, message_of("i18n_localiser"@, "last_child"@, seq![text_value("node_type"@, node_type.spec_name())])),
        FormatterError::InvalidNode(node_type) => data == enum_data("FormatterError"@, "InvalidNode"@, message_of("i18n_localiser"@, "invalid_node"@, seq![text_value("node_type"@, node_type.spec_name())])),
        FormatterError::PatternNamed(identifier) => data == enum_data("FormatterError"@, "PatternNamed"@, message_of("i18n_localiser"@, "pattern_named"@, seq![text_value("identifier"@, identifier@)])),
        FormatterError::PatternPart(identifier, index) => data == enum_data("FormatterError"@, "PatternPart"@, message_of("i18n_localiser"@, "pattern_part"@, seq![text_value("identifier"@, identifier@), count_value("index"@, index)])),
        FormatterError::InvalidOptionValue(value, option, keyword) => data == enum_data("FormatterError"@, "InvalidOptionValue"@, message_of("i18n_localiser"@, "invalid_option_value"@, seq![text_value("value"@, value@), text_value("option"@, option@), text_value("keyword"@, keyword@)])),
        FormatterError::InvalidKeyword(keyword, placeholder) => data == enum_data("FormatterError"@, "InvalidKeyword"@, message_of("i18n_localiser"@, "invalid_keyword"@, seq![text_value("keyword"@, keyword@), text_value("placeholder"@, placeholder@)])),
        FormatterError::SelectorNamed(named, selector, identifier) => data == enum_data("FormatterError"@, "SelectorNamed"@, message_of("i18n_localiser"@, "selector_named"@, seq![text_value("named"@, named@), text_value("selector"@, selector@), text_value("identifier"@, identifier@)])),
        FormatterError::SelectorOther(keyword, placeholder) => data == enum_data("FormatterError"@, "SelectorOther"@, message_of("i18n_localiser"@, "selector_other"@, seq![text_value("keyword"@, keyword@), text_value("placeholder"@, placeholder@)])),
        FormatterError::NoChildren(node_type) => data == enum_data("FormatterError"@, "NoChildren"@, message_of("i18n_localiser"@, "no_children"@, seq![text_value("node_type"@, node_type.spec_name())])),
        FormatterError::InvalidOption(option, keyword, placeholder) => data == enum_data("FormatterError"@, "InvalidOption"@, message_of("i18n_localiser"@, "invalid_option"@, seq![text_value("option"@, option@), text_value("keyword"@, keyword@), text_value("placeholder"@, placeholder@)])),
        FormatterError::InvalidSelector(option, keyword, placeholder) => data == enum_data("FormatterError"@, "InvalidSelector"@, message_of("i18n_localiser"@, "invalid_selector"@, seq![text_value("option"@, option@), text_value("keyword"@, keyword@), text_value("placeholder"@, placeholder@)])),
        FormatterError::NumberSignString(index) => data == enum_data("FormatterError"@, "NumberSignString"@, message_of("i18n_localiser"@, "number_sign_string"@, seq![count_value("index"@, index)])),
        FormatterError::SelectorsIndex(index) => data == enum_data("FormatterError"@, "SelectorsIndex"@, message_of("i18n_localiser"@, "selectors_index"@, seq![count_value("index"@, index)])),
        FormatterError::SelectorsIndexNamed(identifier, index) => data == enum_data("FormatterError"@, "SelectorsIndexNamed"@, message_of("i18n_localiser"@, "selectors_index_named"@, seq![text_value("identifier"@, identifier@), count_value("index"@, index)])),
        FormatterError::PlaceholderValue(part, placeholder) => data == enum_data("FormatterError"@, "PlaceholderValue"@, message_of("i18n_localiser"@, "placeholder_value"@, seq![text_value("part"@, part@), text_value("placeholder"@, placeholder@)])),
        FormatterError::InvalidValue(part) => data == enum_data("FormatterError"@, "InvalidValue"@, message_of("i18n_localiser"@, "invalid_value"@, seq![text_value("part"@, part@)])),
        FormatterError::NamedStringIdentifier(identifier) => data == enum_data("FormatterError"@, "NamedStringIdentifier"@, message_of("i18n_localiser"@, "named_string_identifier"@, seq![text_value("identifier"@, identifier@)])),
        FormatterError::NoIcuProvider => data == enum_data("FormatterError"@, "NoIcuProvider"@, plain_message("i18n_localiser"@, "no_icu_provider"@)),
        FormatterError::NeverReached => data == enum_data("FormatterError"@, "NeverReached"@, plain_message("i18n_localiser"@, "never_reach"@)),
    }
}

/// Whether `data` is the localisation data of the localiser error: a wrapped language tag parser error is given
/// by its display message, a wrapped formatter error by its data as [`formatter_data_agrees`] states; a
/// provider's error wraps its own data.
pub open spec fn localiser_data_agrees(e: LocaliserError, data: DataView) -> bool {
    match e {
        LocaliserError::Registry(error) => data == embedded_data("LocaliserError"@, "Registry"@, ValueView::String(spec_locale_error_text(error))),
        LocaliserError::Formatter(error) => exists|inner: DataView|
            #![trigger embedded_data("LocaliserError"@, "Formatter"@, ValueView::LocalisationData(inner))]
            formatter_data_agrees(error, inner) && data == embedded_data("LocaliserError"@, "Formatter"@, ValueView::LocalisationData(inner)),
        LocaliserError::Provider(error) => data == embedded_data("LocaliserError"@, "Provider"@, ValueView::LocalisationData(data_view(error.data))),
        LocaliserError::StringNotFound(component, identifier, language_tag, fallback) => data == enum_data("LocaliserError"@, "StringNotFound"@, message_of("i18n_localiser"@, "string_not_found"@, seq![text_value("component"@, component@), text_value("identifier"@, identifier@), text_value("language_tag"@, language_tag@), text_value("fallback"@, (if fallback { "true"@ } else { "false"@ }))])),
        LocaliserError::CacheEntry(component, identifier) => data == enum_data("LocaliserError"@, "CacheEntry"@, message_of("i18n_localiser"@, "cache_entry"@, seq![text_value("component"@, component@), text_value("identifier"@, identifier@)])),
    }
}

impl LocalisationTrait for LexerError {
    /// The localisation data of the error.
    open spec fn data_agrees(&self, data: DataView) -> bool {
        data == lexer_error_data(*self)
    }

    /// The localisation data of the error.
    fn localisation_data(&self) -> (result: LocalisationData) {
        match self {
            LexerError::NoGrammar => enum_message("LexerError", "NoGrammar", plain_data("i18n_lexer", "no_grammar")),
            LexerError::EmptyString => enum_message("LexerError", "EmptyString", plain_data("i18n_lexer", "empty_string")),
        }
    }
}

impl LocalisationTrait for TreeError {
    /// The localisation data of the error.
    open spec fn data_agrees(&self, data: DataView) -> bool {
        data == tree_error_data(*self)
    }

    /// The localisation data of the error.
    fn localisation_data(&self) -> (result: LocalisationData) {
        match self {
            TreeError::Lexer(error) => enum_embedded(
                "TreeError",
                "LexerError",
                PlaceholderValue::LocalisationData(error.localisation_data()),
            ),
            TreeError::EndedAbruptly => enum_message("TreeError", "EndedAbruptly", plain_data("i18n_pattern", "string_ended_abruptly")),
            TreeError::InvalidToken(state, position, token) => {
                let mut values: Vec<(String, PlaceholderValue)> = Vec::new();
                values.push(text_pair("state", text(state.name())));
                values.push(count_pair("position", *position));
                values.push(text_pair("token", token.clone()));
                assert(named_views(values@) =~= seq![text_value("state"@, state.spec_name()), count_value("position"@, *position), text_value("token"@, token@)]);
                enum_message("TreeError", "InvalidToken", data_of("i18n_pattern", "invalid_token", values))
            },
            TreeError::UniquePattern(identifier) => {
                let mut values: Vec<(String, PlaceholderValue)> = Vec::new();
                values.push(text_pair("identifier", identifier.clone()));
                assert(named_views(values@) =~= seq![text_value("identifier"@, identifier@)]);
                enum_message("TreeError", "UniquePattern", data_of("i18n_pattern", "unique_pattern", values))
            },
            TreeError::MultiNumberSign(position) => {
                let mut values: Vec<(String, PlaceholderValue)> = Vec::new();
                values.push(count_pair("position", *position));
                assert(named_views(values@) =~= seq![count_value("position"@, *position)]);
                enum_message("TreeError", "MultiNumberSign", data_of("i18n_pattern", "multi_number_sign", values))
            },
            TreeError::UniqueNamed(identifier) => {
                let mut values: Vec<(String, PlaceholderValue)> = Vec::new();
                values.push(text_pair("identifier", identifier.clone()));
                assert(named_views(values@) =~= seq![text_value("identifier"@, identifier@)]);
                enum_message("TreeError", "UniqueNamed", data_of("i18n_pattern", "unique_named", values))
            },
        }
    }
}

impl LocalisationTrait for CommandError {
    /// The localisation data of the error.
    open spec fn data_agrees(&self, data: DataView) -> bool {
        data == command_error_data(*self)
    }

    /// The localisation data of the error.
    fn localisation_data(&self) -> (result: LocalisationData) {
        match self {
            CommandError::Custom(data) => enum_embedded("CommandError", "Custom", PlaceholderValue::LocalisationData(clone_data(data))),
            CommandError::AlreadyExists(command) => {
                let mut values: Vec<(String, PlaceholderValue)> = Vec::new();
                values.push(text_pair("command", command.clone()));
                assert(named_views(values@) =~= seq![text_value("command"@, command@)]);
                enum_message("CommandError", "AlreadyExists", data_of("i18n_pattern", "already_exists", values))
            },
            CommandError::NotFound(command) => {
                let mut values: Vec<(String, PlaceholderValue)> = Vec::new();
                values.push(text_pair("command", command.clone()));
                assert(named_views(values@) =~= seq![text_value("command"@, command@)]);
                enum_message("CommandError", "NotFound", data_of("i18n_pattern", "command_not_found", values))
            },
            CommandError::ParameterMissing(command, index) => {
                let mut values: Vec<(String, PlaceholderValue)> = Vec::new();
                values.push(text_pair("command", command.clone()));
                values.push(count_pair("index", *index));
                assert(named_views(values@) =~= seq![text_value("command"@, command@), count_value("index"@, *index)]);
                enum_message("CommandError", "ParameterMissing", data_of("i18n_pattern", "parameter_missing", values))
            },
            CommandError::InvalidType(command, index) => {
                let mut values: Vec<(String, PlaceholderValue)> = Vec::new();
                values.push(text_pair("command", command.clone()));
                values.push(count_pair("index", *index));
                assert(named_views(values@) =~= seq![text_value("command"@, command@), count_value("index"@, *index)]);
                enum_message("CommandError", "InvalidType", data_of("i18n_pattern", "invalid_type", values))
            },
        }
    }
}

impl LocalisationTrait for FormatterError {
    /// The localisation data of the error.
    open spec fn data_agrees(&self, data: DataView) -> bool {
        formatter_data_agrees(*self, data)
    }

    /// The localisation data of the error.
    fn localisation_data(&self) -> (result: LocalisationData) {
        match self {
            FormatterError::Localiser(error) => {
                let inner = error.message();
                let ghost t = inner@;
                let result = enum_embedded("FormatterError", "Localiser", PlaceholderValue::String(inner));
                assert(data_view(result) == embedded_data("FormatterError"@, "Localiser"@, ValueView::String(t)));
                result
            },
            FormatterError::Tree(error) => enum_embedded("FormatterError", "Tree", PlaceholderValue::String(error.message())),
            FormatterError::Command(error) => enum_embedded(
                "FormatterError",
                "Command",
                PlaceholderValue::LocalisationData(error.localisation_data()),
            ),
            FormatterError::Locale(error) => {
                let inner = locale_error_text(error);
                let ghost t = inner@;
                let result = enum_embedded("FormatterError", "Locale", PlaceholderValue::String(inner));
                assert(data_view(result) == embedded_data("FormatterError"@, "Locale"@, ValueView::String(t)));
                result
            },
            FormatterError::Calendar(error) => {
                let inner = calendar_error_text(error);
                let ghost t = inner@;
                let result = enum_embedded("FormatterError", "Calendar", PlaceholderValue::String(inner));
                assert(data_view(result) == embedded_data("FormatterError"@, "Calendar"@, ValueView::String(t)));
                result
            },
            FormatterError::ParseInt(error) => {
                let inner = parse_int_error_text(error);
                let ghost t = inner@;
                let result = enum_embedded("FormatterError", "ParseInt", PlaceholderValue::String(inner));
                assert(data_view(result) == embedded_data("FormatterError"@, "ParseInt"@, ValueView::String(t)));
                result
            },
            FormatterError::Decimal(error) => {
                let inner = decimal_error_text(error);
                let ghost t = inner@;
                let result = enum_embedded("FormatterError", "Decimal", PlaceholderValue::String(inner));
                assert(data_view(result) == embedded_data("FormatterError"@, "Decimal"@, ValueView::String(t)));
                result
            },
            FormatterError::DateTime(error) => {
                let inner = date_time_error_text(error);
                let ghost t = inner@;
                let result = enum_embedded("FormatterError", "DateTime", PlaceholderValue::String(inner));
                assert(data_view(result) == embedded_data("FormatterError"@, "DateTime"@, ValueView::String(t)));
                result
            },
            FormatterError::PluralRules(error) => {
                let inner = plurals_error_text(error);
                let ghost t = inner@;
                let result = enum_embedded("FormatterError", "PluralRules", PlaceholderValue::String(inner));
                assert(data_view(result) == embedded_data("FormatterError"@, "PluralRules"@, ValueView::String(t)));
                result
            },
            FormatterError::InvalidRoot => enum_message("FormatterError", "InvalidRoot", plain_data("i18n_localiser", "invalid_root")),
            FormatterError::NoGrammar => enum_message("FormatterError", "NoGrammar", plain_data("i18n_localiser", "no_grammar")),
            FormatterError::RetrieveChildren(node_type) => {
                let mut values: Vec<(String, PlaceholderValue)> = Vec::new();
                values.push(text_pair("node_type", text(node_type.name())));
                assert(named_views(values@) =~= seq![text_value("node_type"@, node_type.spec_name())]);
                enum_message("FormatterError", "RetrieveChildren", data_of("i18n_localiser", "retrieve_children", values))
            },
            FormatterError::NodeNotFound(node_type) => {
                let mut values: Vec<(String, PlaceholderValue)> = Vec::new();
                values.push(text_pair("node_type", text(node_type.name())));
                assert(named_views(values@) =~= seq![text_value("node_type"@, node_type.spec_name())]);
                enum_message("FormatterError", "NodeNotFound", data_of("i18n_localiser", "node_not_found", values))
            },
            FormatterError::FirstChild(node_type) => {
                let mut values: Vec<(String, PlaceholderValue)> = Vec::new();
                values.push(text_pair("node_type", text(node_type.name())));
                assert(named_views(values@) =~= seq![text_value("node_type"@, node_type.spec_name())]);
                enum_message("FormatterError", "FirstChild", data_of("i18n_localiser", "first_child", values))
            },
            FormatterError::RetrieveNodeData(node_type) => {
                let mut values: Vec<(String, PlaceholderValue)> = Vec::new();
                values.push(text_pair("node_type", text(node_type.name())));
                assert(named_views(values@) =~= seq![text_value("node_type"@, node_type.spec_name())]);
                enum_message("FormatterError", "RetrieveNodeData", data_of("i18n_localiser", "retrieve_node_data", values))
            },
            FormatterError::RetrieveNodeToken(node_type) => {
                let mut values: Vec<(String, PlaceholderValue)> = Vec::new();
                values.push(text_pair("node_type", text(node_type.name())));
                assert(named_views(values@) =~= seq![text_value("node_type"@, node_type.spec_name())]);
                enum_message("FormatterError", "RetrieveNodeToken", data_of("i18n_localiser", "retrieve_node_token", values))
            },
            FormatterError::LastChild(node_type) => {
                let mut values: Vec<(String, PlaceholderValue)> = Vec::new();
                values.push(text_pair("node_type", text(node_type.name())));
                assert(named_views(values@) =~= seq![text_value("node_type"@, node_type.spec_name())]);
                enum_message("FormatterError", "LastChild", data_of("i18n_localiser", "last_child", values))
            },
            FormatterError::InvalidNode(node_type) => {
                let mut values: Vec<(String, PlaceholderValue)> = Vec::new();
                values.push(text_pair("node_type", text(node_type.name())));
                assert(named_views(values@) =~= seq![text_value("node_type"@, node_type.spec_name())]);
                enum_message("FormatterError", "InvalidNode", data_of("i18n_localiser", "invalid_node", values))
            },
            FormatterError::PatternNamed(identifier) => {
                let mut values: Vec<(String, PlaceholderValue)> = Vec::new();
                values.push(text_pair("identifier", identifier.clone()));
                assert(named_views(values@) =~= seq![text_value("identifier"@, identifier@)]);
                enum_message("FormatterError", "PatternNamed", data_of("i18n_localiser", "pattern_named", values))
            },
            FormatterError::PatternPart(identifier, index) => {
                let mut values: Vec<(String, PlaceholderValue)> = Vec::new();
                values.push(text_pair("identifier", identifier.clone()));
                values.push(count_pair("index", *index));
                assert(named_views(values@) =~= seq![text_value("identifier"@, identifier@), count_value("index"@, *index)]);
                enum_message("FormatterError", "PatternPart", data_of("i18n_localiser", "pattern_part", values))
            },
            FormatterError::InvalidOptionValue(value, option, keyword) => {
                let mut values: Vec<(String, PlaceholderValue)> = Vec::new();
                values.push(text_pair("value", value.clone()));
                values.push(text_pair("option", option.clone()));
                values.push(text_pair("keyword", keyword.clone()));
                assert(named_views(values@) =~= seq![text_value("value"@, value@), text_value("option"@, option@), text_value("keyword"@, keyword@)]);
                enum_message("FormatterError", "InvalidOptionValue", data_of("i18n_localiser", "invalid_option_value", values))
            },
            FormatterError::InvalidKeyword(keyword, placeholder) => {
                let mut values: Vec<(String, PlaceholderValue)> = Vec::new();
                values.push(text_pair("keyword", keyword.clone()));
                values.push(text_pair("placeholder", placeholder.clone()));
                assert(named_views(values@) =~= seq![text_value("keyword"@, keyword@), text_value("placeholder"@, placeholder@)]);
                enum_message("FormatterError", "InvalidKeyword", data_of("i18n_localiser", "invalid_keyword", values))
            },
            FormatterError::SelectorNamed(named, selector, identifier) => {
                let mut values: Vec<(String, PlaceholderValue)> = Vec::new();
                values.push(text_pair("named", named.clone()));
                values.push(text_pair("selector", selector.clone()));
                values.push(text_pair("identifier", identifier.clone()));
                assert(named_views(values@) =~= seq![text_value("named"@, named@), text_value("selector"@, selector@), text_value("identifier"@, identifier@)]);
                enum_message("FormatterError", "SelectorNamed", data_of("i18n_localiser", "selector_named", values))
            },
            FormatterError::SelectorOther(keyword, placeholder) => {
                let mut values: Vec<(String, PlaceholderValue)> = Vec::new();
                values.push(text_pair("keyword", keyword.clone()));
                values.push(text_pair("placeholder", placeholder.clone()));
                assert(named_views(values@) =~= seq![text_value("keyword"@, keyword@), text_value("placeholder"@, placeholder@)]);
                enum_message("FormatterError", "SelectorOther", data_of("i18n_localiser", "selector_other", values))
            },
            FormatterError::NoChildren(node_type) => {
                let mut values: Vec<(String, PlaceholderValue)> = Vec::new();
                values.push(text_pair("node_type", text(node_type.name())));
                assert(named_views(values@) =~= seq![text_value("node_type"@, node_type.spec_name())]);
                enum_message("FormatterError", "NoChildren", data_of("i18n_localiser", "no_children", values))
            },
            FormatterError::InvalidOption(option, keyword, placeholder) => {
                let mut values: Vec<(String, PlaceholderValue)> = Vec::new();
                values.push(text_pair("option", option.clone()));
                values.push(text_pair("keyword", keyword.clone()));
                values.push(text_pair("placeholder", placeholder.clone()));
                assert(named_views(values@) =~= seq![text_value("option"@, option@), text_value("keyword"@, keyword@), text_value("placeholder"@, placeholder@)]);
                enum_message("FormatterError", "InvalidOption", data_of("i18n_localiser", "invalid_option", values))
            },
            FormatterError::InvalidSelector(option, keyword, placeholder) => {
                let mut values: Vec<(String, PlaceholderValue)> = Vec::new();
                values.push(text_pair("option", option.clone()));
                values.push(text_pair("keyword", keyword.clone()));
                values.push(text_pair("placeholder", placeholder.clone()));
                assert(named_views(values@) =~= seq![text_value("option"@, option@), text_value("keyword"@, keyword@), text_value("placeholder"@, placeholder@)]);
                enum_message("FormatterError", "InvalidSelector", data_of("i18n_localiser", "invalid_selector", values))
            },
            FormatterError::NumberSignString(index) => {
                let mut values: Vec<(String, PlaceholderValue)> = Vec::new();
                values.push(count_pair("index", *index));
                assert(named_views(values@) =~= seq![count_value("index"@, *index)]);
                enum_message("FormatterError", "NumberSignString", data_of("i18n_localiser", "number_sign_string", values))
            },
            FormatterError::SelectorsIndex(index) => {
                let mut values: Vec<(String, PlaceholderValue)> = Vec::new();
                values.push(count_pair("index", *index));
                assert(named_views(values@) =~= seq![count_value("index"@, *index)]);
                enum_message("FormatterError", "SelectorsIndex", data_of("i18n_localiser", "selectors_index", values))
            },
            FormatterError::SelectorsIndexNamed(identifier, index) => {
                let mut values: Vec<(String, PlaceholderValue)> = Vec::new();
                values.push(text_pair("identifier", identifier.clone()));
                values.push(count_pair("index", *index));
                assert(named_views(values@) =~= seq![text_value("identifier"@, identifier@), count_value("index"@, *index)]);
                enum_message("FormatterError", "SelectorsIndexNamed", data_of("i18n_localiser", "selectors_index_named", values))
            },
            FormatterError::PlaceholderValue(part, placeholder) => {
                let mut values: Vec<(String, PlaceholderValue)> = Vec::new();
                values.push(text_pair("part", part.clone()));
                values.push(text_pair("placeholder", placeholder.clone()));
                assert(named_views(values@) =~= seq![text_value("part"@, part@), text_value("placeholder"@, placeholder@)]);
                enum_message("FormatterError", "PlaceholderValue", data_of("i18n_localiser", "placeholder_value", values))
            },
            FormatterError::InvalidValue(part) => {
                let mut values: Vec<(String, PlaceholderValue)> = Vec::new();
                values.push(text_pair("part", part.clone()));
                assert(named_views(values@) =~= seq![text_value("part"@, part@)]);
                enum_message("FormatterError", "InvalidValue", data_of("i18n_localiser", "invalid_value", values))
            },
            FormatterError::NamedStringIdentifier(identifier) => {
                let mut values: Vec<(String, PlaceholderValue)> = Vec::new();
                values.push(text_pair("identifier", identifier.clone()));
                assert(named_views(values@) =~= seq![text_value("identifier"@, identifier@)]);
                enum_message("FormatterError", "NamedStringIdentifier", data_of("i18n_localiser", "named_string_identifier", values))
            },
            FormatterError::NoIcuProvider => enum_message("FormatterError", "NoIcuProvider", plain_data("i18n_localiser", "no_icu_provider")),
            FormatterError::NeverReached => enum_message("FormatterError", "NeverReached", plain_data("i18n_localiser", "never_reach")),
        }
    }
}

impl LocalisationTrait for LocaliserError {
    /// The localisation data of the error.
    open spec fn data_agrees(&self, data: DataView) -> bool {
        localiser_data_agrees(*self, data)
    }

    /// The localisation data of the error.
    fn localisation_data(&self) -> (result: LocalisationData) {
        match self {
            LocaliserError::Registry(error) => {
                let inner = locale_error_text(error);
                let ghost t = inner@;
                let result = enum_embedded("LocaliserError", "Registry", PlaceholderValue::String(inner));
                assert(data_view(result) == embedded_data("LocaliserError"@, "Registry"@, ValueView::String(t)));
                result
            },
            LocaliserError::Formatter(error) => {
                let inner = error.localisation_data();
                let ghost d = data_view(inner);
                let result = enum_embedded("LocaliserError", "Formatter", PlaceholderValue::LocalisationData(inner));
                assert(data_view(result) == embedded_data("LocaliserError"@, "Formatter"@, ValueView::LocalisationData(d)));
                result
            },
            LocaliserError::Provider(error) => enum_embedded(
                "LocaliserError",
                "Provider",
                PlaceholderValue::LocalisationData(clone_data(&error.data)),
            ),
            LocaliserError::StringNotFound(component, identifier, language_tag, fallback) => {
                let mut values: Vec<(String, PlaceholderValue)> = Vec::new();
                values.push(text_pair("component", component.clone()));
                values.push(text_pair("identifier", identifier.clone()));
                values.push(text_pair("language_tag", language_tag.clone()));
                values.push(text_pair("fallback", text(if *fallback { "true" } else { "false" })));
                assert(named_views(values@) =~= seq![text_value("component"@, component@), text_value("identifier"@, identifier@), text_value("language_tag"@, language_tag@), text_value("fallback"@, (if *fallback { "true"@ } else { "false"@ }))]);
                enum_message("LocaliserError", "StringNotFound", data_of("i18n_localiser", "string_not_found", values))
            },
            LocaliserError::CacheEntry(component, identifier) => {
                let mut values: Vec<(String, PlaceholderValue)> = Vec::new();
                values.push(text_pair("component", component.clone()));
                values.push(text_pair("identifier", identifier.clone()));
                assert(named_views(values@) =~= seq![text_value("component"@, component@), text_value("identifier"@, identifier@)]);
                enum_message("LocaliserError", "CacheEntry", data_of("i18n_localiser", "cache_entry", values))
            },
        }
    }
}

/// The display message of an ICU4X data error.
pub open spec fn icu_error_text(e: IcuError) -> Seq<char> {
    match e {
        IcuError::Grapheme => "No data provider is available for the ‘GraphemeClusterSegmenter’."@,
        IcuError::Syntax => "No data provider is available for the ‘Pattern_Syntax’."@,
        IcuError::WhiteSpace => "No data provider is available for the ‘Pattern_White_Space’."@,
    }
}

impl IcuError {
    /// The display message of the error.
    pub fn message(&self) -> (result: String)
        ensures
            result@ == icu_error_text(*self),
    {
        match self {
            IcuError::Grapheme => text("No data provider is available for the ‘GraphemeClusterSegmenter’."),
            IcuError::Syntax => text("No data provider is available for the ‘Pattern_Syntax’."),
            IcuError::WhiteSpace => text("No data provider is available for the ‘Pattern_White_Space’."),
        }
    }
}

/// The localisation data of an ICU4X data error.
pub open spec fn icu_error_data(e: IcuError) -> DataView {
    match e {
        IcuError::Grapheme => enum_data("IcuError"@, "Grapheme"@, plain_message("i18n_icu"@, "grapheme"@)),
        IcuError::Syntax => enum_data("IcuError"@, "Syntax"@, plain_message("i18n_icu"@, "syntax"@)),
        IcuError::WhiteSpace => enum_data("IcuError"@, "WhiteSpace"@, plain_message("i18n_icu"@, "white_space"@)),
    }
}

impl LocalisationTrait for IcuError {
    /// The localisation data of the error.
    open spec fn data_agrees(&self, data: DataView) -> bool {
        data == icu_error_data(*self)
    }

    /// The localisation data of the error.
    fn localisation_data(&self) -> (result: LocalisationData) {
        match self {
            IcuError::Grapheme => enum_message("IcuError", "Grapheme", plain_data("i18n_icu", "grapheme")),
            IcuError::Syntax => enum_message("IcuError", "Syntax", plain_data("i18n_icu", "syntax")),
            IcuError::WhiteSpace => enum_message("IcuError", "WhiteSpace", plain_data("i18n_icu", "white_space")),
        }
    }
}

} // verus!
