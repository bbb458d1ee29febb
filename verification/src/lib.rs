//! Internationalisation (i18n) support: a lexer that splits strings into tokens, a parser that turns
//! localisation pattern strings into a syntax tree, a formatter that substitutes placeholder values into
//! parsed patterns, and a localiser that fetches, caches and formats localisation strings.
//!
//! * `lstring`, `values`: language-tagged strings, placeholder values and localisation data,
//! * `utf8`, `lexer`: UTF-8 lengths and the tokens of a string,
//! * `tree`: the parser of pattern strings,
//! * `options`, `iso`, `icu`: the options of patterns, ISO 8601 dates and times, and the calls into ICU4X,
//! * `command`: the commands that pattern strings call,
//! * `formatter`: the analysis of a tree into patterns and their formatting,
//! * `registry`, `localiser`: the language tags, and the localiser with its provider of pattern strings and its
//!   cache,
//! * `error`, `report`: the errors, their display messages and their localisation data,
//! * `script`: the writing systems of the ISO 15924 scripts.

pub mod lstring;
pub mod utf8;
pub mod lexer;
pub mod tree;
pub mod values;
pub mod error;
pub mod command;
pub mod options;
pub mod icu;
pub mod iso;
pub mod formatter;
pub mod localiser;
pub mod report;
pub mod script;
pub mod registry;
