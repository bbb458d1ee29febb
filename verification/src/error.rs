//! The errors of the commands, the formatter and the localiser.

use crate::lexer::LexerError;
use crate::tree::{NodeType, TreeError, TreeErrorView};
use crate::values::{data_view, DataView, LocalisationData};
use vstd::prelude::*;

verus! {

/// The error of parsing a locale (`icu_locid`).
#[verifier::external_type_specification]
#[verifier::external_body]
pub struct ExLocaleParserError(icu_locid::ParserError);

/// The error of the ISO calendar (`icu_calendar`).
#[verifier::external_type_specification]
#[verifier::external_body]
pub struct ExCalendarError(icu_calendar::CalendarError);

/// The error of parsing an integer (`std`).
#[verifier::external_type_specification]
#[verifier::external_body]
pub struct ExParseIntError(std::num::ParseIntError);

/// The error of creating a decimal formatter (`icu_decimal`).
#[verifier::external_type_specification]
#[verifier::external_body]
pub struct ExDecimalError(icu_decimal::DecimalError);

/// The error of creating or using a date and time formatter (`icu_datetime`).
#[verifier::external_type_specification]
#[verifier::external_body]
pub struct ExDateTimeError(icu_datetime::DateTimeError);

/// The error of creating plural rules (`icu_plurals`).
#[verifier::external_type_specification]
#[verifier::external_body]
pub struct ExPluralsError(icu_plurals::PluralsError);

/// The errors of the commands:
///
/// * `Custom`: an error of a command of the application, given by its localisation data,
/// * `AlreadyExists`: the command is already in the command registry,
/// * `NotFound`: the command is not in the command registry,
/// * `ParameterMissing`: a parameter of the command is missing (command, parameter index),
/// * `InvalidType`: a parameter of the command has the wrong type (command, parameter index).
#[derive(Debug)]
pub enum CommandError {
    Custom(LocalisationData),
    AlreadyExists(String),
    NotFound(String),
    ParameterMissing(String, usize),
    InvalidType(String, usize),
}

/// A [`CommandError`] with its strings as character sequences.
pub enum CommandErrorView {
    Custom(DataView),
    AlreadyExists(Seq<char>),
    NotFound(Seq<char>),
    ParameterMissing(Seq<char>, usize),
    InvalidType(Seq<char>, usize),
}

impl View for CommandError {
    type V = CommandErrorView;

    open spec fn view(&self) -> CommandErrorView {
        match self {
            CommandError::Custom(d) => CommandErrorView::Custom(data_view(*d)),
            CommandError::AlreadyExists(c) => CommandErrorView::AlreadyExists(c@),
            CommandError::NotFound(c) => CommandErrorView::NotFound(c@),
            CommandError::ParameterMissing(c, i) => CommandErrorView::ParameterMissing(c@, *i),
            CommandError::InvalidType(c, i) => CommandErrorView::InvalidType(c@, *i),
        }
    }
}

/// The errors of the formatter:
///
/// * `Localiser`, `Tree`, `Locale`, `Calendar`, `ParseInt`, `Decimal`, `DateTime`, `PluralRules`, `Command`: wrap
///   the errors of the localiser, the tree, the ICU4X components, integer parsing and the commands,
/// * `NoGrammar`: the string has no grammar syntax character, so it is returned as it is,
/// * `InvalidRoot`, `RetrieveChildren`, `NodeNotFound`, `FirstChild`, `RetrieveNodeData`, `RetrieveNodeToken`,
///   `LastChild`, `InvalidNode`, `NoChildren`: the tree does not have the expected shape,
/// * `PatternNamed`, `PatternPart`: a named pattern or a part of it was not found,
/// * `InvalidOptionValue`: invalid option value (value, option, keyword),
/// * `InvalidKeyword`: invalid pattern keyword (keyword, placeholder),
/// * `SelectorNamed`: the named string of a selector was not found (named string, selector, placeholder),
/// * `SelectorOther`: the required `other` selector is missing (keyword, placeholder),
/// * `InvalidOption`: invalid option (option value, keyword, placeholder),
/// * `InvalidSelector`: invalid selector (selector, keyword, placeholder),
/// * `NumberSignString`: no number string for the number sign index,
/// * `SelectorsIndex`, `SelectorsIndexNamed`: the selectors or the selected named string were not found,
/// * `PlaceholderValue`: no value for the placeholder (pattern kind, placeholder),
/// * `InvalidValue`: the value has the wrong type for the pattern kind,
/// * `NamedStringIdentifier`: a named string identifier is not unique,
/// * `NoIcuProvider`: no ICU4X data provider,
/// * `NeverReached`: a branch that is never reached.
#[derive(Debug)]
pub enum FormatterError {
    Localiser(Box<LocaliserError>),
    Tree(TreeError),
    Locale(icu_locid::ParserError),
    Calendar(icu_calendar::CalendarError),
    ParseInt(std::num::ParseIntError),
    Decimal(icu_decimal::DecimalError),
    DateTime(icu_datetime::DateTimeError),
    PluralRules(icu_plurals::PluralsError),
    Command(CommandError),
    NoGrammar,
    InvalidRoot,
    RetrieveChildren(NodeType),
    NodeNotFound(NodeType),
    FirstChild(NodeType),
    RetrieveNodeData(NodeType),
    RetrieveNodeToken(NodeType),
    LastChild(NodeType),
    InvalidNode(NodeType),
    PatternNamed(String),
    PatternPart(String, usize),
    InvalidOptionValue(String, String, String),
    InvalidKeyword(String, String),
    SelectorNamed(String, String, String),
    SelectorOther(String, String),
    NoChildren(NodeType),
    InvalidOption(String, String, String),
    InvalidSelector(String, String, String),
    NumberSignString(usize),
    SelectorsIndex(usize),
    SelectorsIndexNamed(String, usize),
    PlaceholderValue(String, String),
    InvalidValue(String),
    NamedStringIdentifier(String),
    NoIcuProvider,
    NeverReached,
}

/// A [`FormatterError`] with its strings as character sequences; the wrapped errors of the localiser and of
/// the outside crates are left out (their messages are stated in `report`). One more variant, `Unanswered`,
/// is no view of an error: the formatting specifications give it where they are not handed the outcome of a
/// command, so that no formatter error agrees with such a specification.
pub enum FormatterErrorView {
    Localiser,
    Tree(TreeErrorView),
    Locale,
    Calendar,
    ParseInt,
    Decimal,
    DateTime,
    PluralRules,
    Command(CommandErrorView),
    NoGrammar,
    InvalidRoot,
    RetrieveChildren(NodeType),
    NodeNotFound(NodeType),
    FirstChild(NodeType),
    RetrieveNodeData(NodeType),
    RetrieveNodeToken(NodeType),
    LastChild(NodeType),
    InvalidNode(NodeType),
    PatternNamed(Seq<char>),
    PatternPart(Seq<char>, usize),
    InvalidOptionValue(Seq<char>, Seq<char>, Seq<char>),
    InvalidKeyword(Seq<char>, Seq<char>),
    SelectorNamed(Seq<char>, Seq<char>, Seq<char>),
    SelectorOther(Seq<char>, Seq<char>),
    NoChildren(NodeType),
    InvalidOption(Seq<char>, Seq<char>, Seq<char>),
    InvalidSelector(Seq<char>, Seq<char>, Seq<char>),
    NumberSignString(usize),
    SelectorsIndex(usize),
    SelectorsIndexNamed(Seq<char>, usize),
    PlaceholderValue(Seq<char>, Seq<char>),
    InvalidValue(Seq<char>),
    NamedStringIdentifier(Seq<char>),
    NoIcuProvider,
    NeverReached,
    Unanswered,
}

impl View for FormatterError {
    type V = FormatterErrorView;

    open spec fn view(&self) -> FormatterErrorView {
        match self {
            FormatterError::Localiser(_) => FormatterErrorView::Localiser,
            FormatterError::Tree(e) => FormatterErrorView::Tree(e@),
            FormatterError::Locale(_) => FormatterErrorView::Locale,
            FormatterError::Calendar(_) => FormatterErrorView::Calendar,
            FormatterError::ParseInt(_) => FormatterErrorView::ParseInt,
            FormatterError::Decimal(_) => FormatterErrorView::Decimal,
            FormatterError::DateTime(_) => FormatterErrorView::DateTime,
            FormatterError::PluralRules(_) => FormatterErrorView::PluralRules,
            FormatterError::Command(e) => FormatterErrorView::Command(e@),
            FormatterError::NoGrammar => FormatterErrorView::NoGrammar,
            FormatterError::InvalidRoot => FormatterErrorView::InvalidRoot,
            FormatterError::RetrieveChildren(t) => FormatterErrorView::RetrieveChildren(*t),
            FormatterError::NodeNotFound(t) => FormatterErrorView::NodeNotFound(*t),
            FormatterError::FirstChild(t) => FormatterErrorView::FirstChild(*t),
            FormatterError::RetrieveNodeData(t) => FormatterErrorView::RetrieveNodeData(*t),
            FormatterError::RetrieveNodeToken(t) => FormatterErrorView::RetrieveNodeToken(*t),
            FormatterError::LastChild(t) => FormatterErrorView::LastChild(*t),
            FormatterError::InvalidNode(t) => FormatterErrorView::InvalidNode(*t),
            FormatterError::PatternNamed(s) => FormatterErrorView::PatternNamed(s@),
            FormatterError::PatternPart(s, i) => FormatterErrorView::PatternPart(s@, *i),
            FormatterError::InvalidOptionValue(a, b, c) => FormatterErrorView::InvalidOptionValue(a@, b@, c@),
            FormatterError::InvalidKeyword(a, b) => FormatterErrorView::InvalidKeyword(a@, b@),
            FormatterError::SelectorNamed(a, b, c) => FormatterErrorView::SelectorNamed(a@, b@, c@),
            FormatterError::SelectorOther(a, b) => FormatterErrorView::SelectorOther(a@, b@),
            FormatterError::NoChildren(t) => FormatterErrorView::NoChildren(*t),
            FormatterError::InvalidOption(a, b, c) => FormatterErrorView::InvalidOption(a@, b@, c@),
            FormatterError::InvalidSelector(a, b, c) => FormatterErrorView::InvalidSelector(a@, b@, c@),
            FormatterError::NumberSignString(i) => FormatterErrorView::NumberSignString(*i),
            FormatterError::SelectorsIndex(i) => FormatterErrorView::SelectorsIndex(*i),
            FormatterError::SelectorsIndexNamed(s, i) => FormatterErrorView::SelectorsIndexNamed(s@, *i),
            FormatterError::PlaceholderValue(a, b) => FormatterErrorView::PlaceholderValue(a@, b@),
            FormatterError::InvalidValue(s) => FormatterErrorView::InvalidValue(s@),
            FormatterError::NamedStringIdentifier(s) => FormatterErrorView::NamedStringIdentifier(s@),
            FormatterError::NoIcuProvider => FormatterErrorView::NoIcuProvider,
            FormatterError::NeverReached => FormatterErrorView::NeverReached,
        }
    }
}

/// The error of a localisation provider, given by the localisation data of its message.
#[derive(Debug)]
pub struct ProviderError {
    pub data: LocalisationData,
}

/// The errors of the localiser:
///
/// * `Registry`: the language tag is not a language identifier,
/// * `Formatter`: wraps the formatter's error,
/// * `Provider`: wraps the localisation provider's error,
/// * `StringNotFound`: the pattern string was not found (component, identifier, language tag, whether the
///   default language was tried too),
/// * `CacheEntry`: the cache entry was not found (component, identifier).
#[derive(Debug)]
pub enum LocaliserError {
    Registry(icu_locid::ParserError),
    Formatter(FormatterError),
    Provider(ProviderError),
    StringNotFound(String, String, String, bool),
    CacheEntry(String, String),
}

/// A [`LocaliserError`] with its strings as character sequences and the provider's error by its localisation
/// data; the language tag parser's error is left out.
pub enum LocaliserErrorView {
    Registry,
    Formatter(FormatterErrorView),
    Provider(DataView),
    StringNotFound(Seq<char>, Seq<char>, Seq<char>, bool),
    CacheEntry(Seq<char>, Seq<char>),
}

impl View for LocaliserError {
    type V = LocaliserErrorView;

    open spec fn view(&self) -> LocaliserErrorView {
        match self {
            LocaliserError::Registry(_) => LocaliserErrorView::Registry,
            LocaliserError::Formatter(e) => LocaliserErrorView::Formatter(e@),
            LocaliserError::Provider(e) => LocaliserErrorView::Provider(data_view(e.data)),
            LocaliserError::StringNotFound(c, i, t, f) => LocaliserErrorView::StringNotFound(c@, i@, t@, *f),
            LocaliserError::CacheEntry(c, i) => LocaliserErrorView::CacheEntry(c@, i@),
        }
    }
}

impl From<LexerError> for TreeError {
    /// The tree error of the lexer's error.
    fn from(error: LexerError) -> (result: TreeError) {
        TreeError::Lexer(error)
    }
}

impl vstd::std_specs::convert::FromSpecImpl<LexerError> for TreeError {
    open spec fn obeys_from_spec() -> bool {
        true
    }

    open spec fn from_spec(error: LexerError) -> TreeError {
        TreeError::Lexer(error)
    }
}

impl From<TreeError> for FormatterError {
    /// The formatter error of the tree's error.
    fn from(error: TreeError) -> (result: FormatterError) {
        FormatterError::Tree(error)
    }
}

impl vstd::std_specs::convert::FromSpecImpl<TreeError> for FormatterError {
    open spec fn obeys_from_spec() -> bool {
        true
    }

    open spec fn from_spec(error: TreeError) -> FormatterError {
        FormatterError::Tree(error)
    }
}

impl From<CommandError> for FormatterError {
    /// The formatter error of a command's error.
    fn from(error: CommandError) -> (result: FormatterError) {
        FormatterError::Command(error)
    }
}

impl vstd::std_specs::convert::FromSpecImpl<CommandError> for FormatterError {
    open spec fn obeys_from_spec() -> bool {
        true
    }

    open spec fn from_spec(error: CommandError) -> FormatterError {
        FormatterError::Command(error)
    }
}

impl From<FormatterError> for LocaliserError {
    /// The localiser error of the formatter's error.
    fn from(error: FormatterError) -> (result: LocaliserError) {
        LocaliserError::Formatter(error)
    }
}

impl vstd::std_specs::convert::FromSpecImpl<FormatterError> for LocaliserError {
    open spec fn obeys_from_spec() -> bool {
        true
    }

    open spec fn from_spec(error: FormatterError) -> LocaliserError {
        LocaliserError::Formatter(error)
    }
}

impl From<ProviderError> for LocaliserError {
    /// The localiser error of the provider's error.
    fn from(error: ProviderError) -> (result: LocaliserError) {
        LocaliserError::Provider(error)
    }
}

impl vstd::std_specs::convert::FromSpecImpl<ProviderError> for LocaliserError {
    open spec fn obeys_from_spec() -> bool {
        true
    }

    open spec fn from_spec(error: ProviderError) -> LocaliserError {
        LocaliserError::Provider(error)
    }
}

} // verus!
