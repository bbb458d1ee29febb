//! The localiser: finds the pattern strings of components with a localisation provider, formats them with
//! placeholder values, and caches the strings and the formatters for reuse.

use crate::command::{Command, CommandRegistry};
use crate::error::{FormatterError, FormatterErrorView, LocaliserError, LocaliserErrorView, ProviderError};
use crate::formatter::{creation_agrees, formatting_registered, Formatter, FormatterView};
use crate::icu::spec_locale;
use crate::registry::{registered, LanguageTagRegistry};
use crate::lexer::IcuDataProvider;
use crate::lexer::{is_tokenisation, lemma_no_grammar_tokens, push_char, Token};
use crate::tree::{initial_view, lemma_parse_plain, parse_tokens, spec_has_grammar, RunView};
use crate::report::LocalisationTrait;
use crate::values::{
    clone_value, data_view, named_views, pair_count, str_eq, value_view, DataView, LocalisationData, PlaceholderValue,
    TaggedString, ValueView,
};
use std::rc::Rc;
use vstd::prelude::*;

verus! {

/// A store of pattern strings by component, identifier and language tag, implemented by the application.
///
/// Each implementation may say, by `answers` and `default_answers`, which answers it gives to which request
/// (by default, any); the localiser's contracts state that every answer it used is one the provider may give
/// to the request that the localiser made.
pub trait LocalisationProvider {
    /// Whether the provider may answer `answer` (the text and language tag of a string, none, or the data of
    /// an error) to a request for the pattern string of the component's identifier for the language tag.
    open spec fn answers(
        &self,
        component: Seq<char>,
        identifier: Seq<char>,
        language_tag: Seq<char>,
        answer: Result<Option<(Seq<char>, Seq<char>)>, DataView>,
    ) -> bool {
        true
    }

    /// Whether the provider may answer `answer` (a language tag, or the data of an error) to a request for the
    /// default language of the component.
    open spec fn default_answers(&self, component: Seq<char>, answer: Result<Seq<char>, DataView>) -> bool {
        true
    }

    /// The pattern string of the component's identifier for the language tag, or `None` where there is none;
    /// the tagged string may be of another language.
    fn string(&self, component: &str, identifier: &str, language_tag: &Rc<String>) -> (result: Result<
        Option<TaggedString>,
        ProviderError,
    >)
        ensures
            self.answers(component@, identifier@, language_tag@, string_answer(result)),
    ;

    /// The default language of the component.
    fn default_language(&self, component: &str) -> (result: Result<Rc<String>, ProviderError>)
        ensures
            self.default_answers(component@, default_answer(result)),
    ;
}

/// The provider's answer to a request for a default language, by its views.
pub open spec fn default_answer(answer: Result<Rc<String>, ProviderError>) -> Result<Seq<char>, DataView> {
    match answer {
        Ok(tag) => Ok(tag@),
        Err(e) => Err(data_view(e.data)),
    }
}

/// Every exchange of the log is a request with an answer that the provider may give to it.
pub open spec fn log_answered<P: LocalisationProvider>(provider: P, log: Seq<Exchange>) -> bool {
    forall|k: int|
        0 <= k < log.len() ==> match #[trigger] log[k] {
            Exchange::String(c, i, t, answer) => provider.answers(c, i, t, answer),
            Exchange::DefaultLanguage(c, answer) => provider.default_answers(c, answer),
        }
}

/// The grammar syntax characters of pattern strings: `{`, `}`, `` ` `` and `#`.
pub open spec fn grammar_chars() -> Seq<char> {
    seq!['{', '}', '`', '#']
}

/// The cache key of a component's identifier: `component/identifier`.
pub open spec fn cache_key(component: Seq<char>, identifier: Seq<char>) -> Seq<char> {
    component + seq!['/'] + identifier
}

/// What the cache holds for a language tag and a cache key: a literal string (its text and language tag),
/// or a formatter (its patterns, number strings and language tag).
pub enum CacheView {
    Literal(Seq<char>, Seq<char>),
    Pattern(FormatterView, Seq<Seq<char>>, Seq<char>),
}

/// The cache, by language tag and cache key.
pub type Cache = Map<(Seq<char>, Seq<char>), CacheView>;

enum CacheData {
    Literal(TaggedString),
    Pattern(Formatter),
}

struct CacheEntry {
    language_tag: Rc<String>,
    key: String,
    data: CacheData,
}

spec fn entry_key(entry: CacheEntry) -> (Seq<char>, Seq<char>) {
    (entry.language_tag@, entry.key@)
}

spec fn entry_data(entry: CacheEntry) -> CacheView {
    match entry.data {
        CacheData::Literal(s) => CacheView::Literal(s.text(), s.tag()),
        CacheData::Pattern(f) => CacheView::Pattern(f.patterns(), f.number_strings(), f.tag()),
    }
}

/// The cache that the entries hold: a later entry replaces an earlier one of the same key.
spec fn entries_map(entries: Seq<CacheEntry>) -> Cache
    decreases entries.len(),
{
    if entries.len() == 0 {
        Map::empty()
    } else {
        entries_map(entries.drop_last()).insert(entry_key(entries.last()), entry_data(entries.last()))
    }
}

proof fn lemma_entries_last(entries: Seq<CacheEntry>, key: (Seq<char>, Seq<char>), i: int)
    requires
        0 <= i < entries.len(),
        entry_key(entries[i]) == key,
        forall|j: int| i < j < entries.len() ==> entry_key(#[trigger] entries[j]) != key,
    ensures
        entries_map(entries).contains_key(key),
        entries_map(entries)[key] == entry_data(entries[i]),
    decreases entries.len(),
{
    if i < entries.len() - 1 {
        lemma_entries_last(entries.drop_last(), key, i);
    }
}

proof fn lemma_entries_none(entries: Seq<CacheEntry>, key: (Seq<char>, Seq<char>))
    requires
        forall|j: int| 0 <= j < entries.len() ==> entry_key(#[trigger] entries[j]) != key,
    ensures
        !entries_map(entries).contains_key(key),
    decreases entries.len(),
{
    if entries.len() > 0 {
        lemma_entries_none(entries.drop_last(), key);
    }
}

proof fn lemma_entries_update(entries: Seq<CacheEntry>, i: int, entry: CacheEntry)
    requires
        0 <= i < entries.len(),
        entry_key(entries[i]) == entry_key(entry),
        forall|j: int| i < j < entries.len() ==> entry_key(#[trigger] entries[j]) != entry_key(entry),
    ensures
        entries_map(entries.update(i, entry)) == entries_map(entries).insert(entry_key(entry), entry_data(entry)),
    decreases entries.len(),
{
    let updated = entries.update(i, entry);
    if i == entries.len() - 1 {
        assert(updated.drop_last() =~= entries.drop_last());
        assert(entries_map(updated) =~= entries_map(entries).insert(entry_key(entry), entry_data(entry)));
    } else {
        assert(updated.drop_last() =~= entries.drop_last().update(i, entry));
        lemma_entries_update(entries.drop_last(), i, entry);
        assert(entries_map(updated) =~= entries_map(entries).insert(entry_key(entry), entry_data(entry)));
    }
}

proof fn lemma_entries_push(entries: Seq<CacheEntry>, entry: CacheEntry)
    ensures
        entries_map(entries.push(entry)) == entries_map(entries).insert(entry_key(entry), entry_data(entry)),
{
    assert(entries.push(entry).drop_last() =~= entries);
}

/// The last entry of the cache for the language tag and the cache key, if any.
fn find_entry(entries: &Vec<CacheEntry>, language_tag: &str, key: &str) -> (result: Option<usize>)
    ensures
        match result {
            Some(i) => i < entries@.len() && entry_key(entries@[i as int]) == (language_tag@, key@) && forall|j: int|
                i < j < entries@.len() ==> entry_key(#[trigger] entries@[j]) != (language_tag@, key@),
            None => forall|j: int| 0 <= j < entries@.len() ==> entry_key(#[trigger] entries@[j]) != (language_tag@, key@),
        },
{
    let mut i: usize = entries.len();
    while i > 0
        invariant
            i <= entries@.len(),
            forall|j: int| i <= j < entries@.len() ==> entry_key(#[trigger] entries@[j]) != (language_tag@, key@),
        decreases i,
    {
        let k = i - 1;
        if str_eq(entries[k].language_tag.as_str(), language_tag) && str_eq(entries[k].key.as_str(), key) {
            return Some(k);
        }
        i = k;
    }
    None
}

/// A literal string stored in the cache under its own language tag and the cache key, where caching.
pub open spec fn literal_stored(before: Cache, after: Cache, text: Seq<char>, text_tag: Seq<char>, key: Seq<char>, caching: bool) -> bool {
    after == if caching {
        before.insert((text_tag, key), CacheView::Literal(text, text_tag))
    } else {
        before
    }
}

/// The result is the tagged string of the text and the language tag.
pub open spec fn tagged_is(result: Result<TaggedString, LocaliserError>, text: Seq<char>, text_tag: Seq<char>) -> bool {
    result matches Ok(s) && s.text() == text && s.tag() == text_tag
}

/// The result is what the formatter gave: its text and language tag, or its error.
pub open spec fn formatted_is(
    result: Result<TaggedString, LocaliserError>,
    formatted: Result<(String, Rc<String>), FormatterError>,
) -> bool {
    match formatted {
        Ok(pair) => tagged_is(result, pair.0@, pair.1@),
        Err(e) => result matches Err(err) && err@ == LocaliserErrorView::Formatter(e@),
    }
}

/// What the localiser gives for the pattern string `text` (of language `text_tag`) with the outcome `created`
/// of creating its formatter for the requested language tag: a string with no grammar syntax character is
/// returned as it is and cached as a literal where caching; a stuck parser gives `NeverReached`, another
/// error is returned; a formatter formats the values and is cached where caching.
pub open spec fn created_agrees<C: Command>(
    before: Cache,
    after: Cache,
    language_tag: Seq<char>,
    key: Seq<char>,
    text: Seq<char>,
    text_tag: Seq<char>,
    values: Seq<(String, PlaceholderValue)>,
    names: Seq<Seq<char>>,
    commands: Seq<C>,
    caching: bool,
    created: Option<Result<Formatter, FormatterError>>,
    result: Result<TaggedString, LocaliserError>,
) -> bool {
    match created {
        None => result matches Err(e) && e@ == LocaliserErrorView::Formatter(FormatterErrorView::NeverReached)
            && after == before,
        Some(Err(e)) => if e@ == FormatterErrorView::NoGrammar {
            tagged_is(result, text, text_tag) && literal_stored(before, after, text, text_tag, key, caching)
        } else {
            result matches Err(err) && err@ == LocaliserErrorView::Formatter(e@) && after == before
        },
        Some(Ok(f)) => exists|formatted: Result<(String, Rc<String>), FormatterError>, numbers: Seq<Seq<char>>|
            #![trigger formatting_registered(f.patterns(), f.number_strings(), f.tag(), values, names, commands, formatted, numbers)]
            formatting_registered(f.patterns(), f.number_strings(), f.tag(), values, names, commands, formatted, numbers)
                && formatted_is(result, formatted) && after == if caching {
                before.insert((language_tag, key), CacheView::Pattern(f.patterns(), numbers, f.tag()))
            } else {
                before
            },
    }
}

/// What the localiser gives for the pattern string `text` of language `text_tag`, found for the requested
/// language tag and cache key: an empty string is returned as it is and cached as a literal where caching;
/// otherwise its formatter is created for the requested language tag, as [`created_agrees`] states.
pub open spec fn found_agrees<C: Command>(
    before: Cache,
    after: Cache,
    language_tag: Seq<char>,
    key: Seq<char>,
    text: Seq<char>,
    text_tag: Seq<char>,
    values: Seq<(String, PlaceholderValue)>,
    names: Seq<Seq<char>>,
    commands: Seq<C>,
    caching: bool,
    result: Result<TaggedString, LocaliserError>,
) -> bool {
    if text.len() == 0 {
        tagged_is(result, text, text_tag) && literal_stored(before, after, text, text_tag, key, caching)
    } else {
        exists|created: Option<Result<Formatter, FormatterError>>|
            #![trigger creation_agrees(text, grammar_chars(), language_tag, names, commands, created)]
            creation_agrees(text, grammar_chars(), language_tag, names, commands, created) && created_agrees(
                before,
                after,
                language_tag,
                key,
                text,
                text_tag,
                values,
                names,
                commands,
                caching,
                created,
                result,
            )
    }
}

/// What the localiser gives from the cache: a literal string as it is; a formatter formats the values and is
/// kept with its new number strings.
pub open spec fn cached_agrees<C: Command>(
    before: Cache,
    after: Cache,
    language_tag: Seq<char>,
    key: Seq<char>,
    values: Seq<(String, PlaceholderValue)>,
    names: Seq<Seq<char>>,
    commands: Seq<C>,
    result: Result<TaggedString, LocaliserError>,
) -> bool {
    match before[(language_tag, key)] {
        CacheView::Literal(text, text_tag) => tagged_is(result, text, text_tag) && after == before,
        CacheView::Pattern(patterns, numbers, tag) => pattern_formats(before, after, language_tag, key, patterns, numbers, tag, values, names, commands, result),
    }
}

/// What a cached formatter (patterns, number strings, language tag) gives: it formats the values and is kept
/// with its new number strings.
pub open spec fn pattern_formats<C: Command>(
    before: Cache,
    after: Cache,
    language_tag: Seq<char>,
    key: Seq<char>,
    patterns: FormatterView,
    numbers: Seq<Seq<char>>,
    tag: Seq<char>,
    values: Seq<(String, PlaceholderValue)>,
    names: Seq<Seq<char>>,
    commands: Seq<C>,
    result: Result<TaggedString, LocaliserError>,
) -> bool {
    exists|formatted: Result<(String, Rc<String>), FormatterError>, numbers_after: Seq<Seq<char>>|
        #![trigger formatting_registered(patterns, numbers, tag, values, names, commands, formatted, numbers_after)]
        formatting_registered(patterns, numbers, tag, values, names, commands, formatted, numbers_after) && formatted_is(result, formatted)
            && after == before.insert((language_tag, key), CacheView::Pattern(patterns, numbers_after, tag))
}

/// A request to the localisation provider with its answer: the pattern string of a component's identifier
/// for a language tag (component, identifier, language tag; the text and language tag of the string, none,
/// or the provider's error by its localisation data), or the default language of a component (component;
/// the language tag or the provider's error).
pub enum Exchange {
    String(Seq<char>, Seq<char>, Seq<char>, Result<Option<(Seq<char>, Seq<char>)>, DataView>),
    DefaultLanguage(Seq<char>, Result<Seq<char>, DataView>),
}

/// The provider's answer to a request for a pattern string, by its views.
pub open spec fn string_answer(answer: Result<Option<TaggedString>, ProviderError>) -> Result<
    Option<(Seq<char>, Seq<char>)>,
    DataView,
> {
    match answer {
        Ok(Some(s)) => Ok(Some((s.text(), s.tag()))),
        Ok(None) => Ok(None),
        Err(e) => Err(data_view(e.data)),
    }
}

/// The outcome of a search for a pattern string: its text and language tag, or the error.
pub type Found = Result<(Seq<char>, Seq<char>), LocaliserErrorView>;

/// A found string, or the error, by its views.
pub open spec fn found_view(result: Result<TaggedString, LocaliserError>) -> Found {
    match result {
        Ok(s) => Ok((s.text(), s.tag())),
        Err(e) => Err(e@),
    }
}

/// What the provider's answer for the requested language tag decides: its string, its error, or without
/// fallback `StringNotFound`; `None` where the component's default language is to be tried.
pub open spec fn requested_decision(
    component: Seq<char>,
    identifier: Seq<char>,
    language_tag: Seq<char>,
    fallback: bool,
    answer: Result<Option<(Seq<char>, Seq<char>)>, DataView>,
) -> Option<Found> {
    match answer {
        Err(e) => Some(Err(LocaliserErrorView::Provider(e))),
        Ok(Some(s)) => Some(Ok(s)),
        Ok(None) => if fallback {
            None
        } else {
            Some(Err(LocaliserErrorView::StringNotFound(component, identifier, language_tag, false)))
        },
    }
}

/// What the provider's answer for the component's default language decides: its string, its error, or
/// `StringNotFound` for the requested language tag with fallback tried.
pub open spec fn default_decision(
    component: Seq<char>,
    identifier: Seq<char>,
    language_tag: Seq<char>,
    answer: Result<Option<(Seq<char>, Seq<char>)>, DataView>,
) -> Found {
    match answer {
        Err(e) => Err(LocaliserErrorView::Provider(e)),
        Ok(Some(s)) => Ok(s),
        Ok(None) => Err(LocaliserErrorView::StringNotFound(component, identifier, language_tag, true)),
    }
}

/// The search after the requested language tag had no string: the component's default language is asked,
/// then the string for it; `None` where the exchanges are not these.
pub open spec fn default_search(
    component: Seq<char>,
    identifier: Seq<char>,
    language_tag: Seq<char>,
    log: Seq<Exchange>,
) -> Option<Found> {
    if log.len() == 0 {
        None
    } else {
        match log[0] {
            Exchange::DefaultLanguage(c, answer) => if c != component {
                None
            } else {
                match answer {
                    Err(e) => if log.len() == 1 {
                        Some(Err(LocaliserErrorView::Provider(e)))
                    } else {
                        None
                    },
                    Ok(default_tag) => if log.len() != 2 {
                        None
                    } else {
                        match log[1] {
                            Exchange::String(c2, i2, t2, a2) => if c2 == component && i2 == identifier && t2
                                == default_tag {
                                Some(default_decision(component, identifier, language_tag, a2))
                            } else {
                                None
                            },
                            _ => None,
                        }
                    },
                }
            },
            _ => None,
        }
    }
}

/// The search for the pattern string of the component's identifier for the language tag, as the exchanges
/// with the provider show it: first the string for the language tag; where there is none and with fallback,
/// the component's default language and the string for it. The outcome is what the answers decide; `None`
/// where the exchanges are not these requests in this order.
pub open spec fn search_outcome(
    component: Seq<char>,
    identifier: Seq<char>,
    language_tag: Seq<char>,
    fallback: bool,
    log: Seq<Exchange>,
) -> Option<Found> {
    if log.len() == 0 {
        None
    } else {
        match log[0] {
            Exchange::String(c, i, t, answer) => if c == component && i == identifier && t == language_tag {
                match requested_decision(component, identifier, language_tag, fallback, answer) {
                    Some(found) => if log.len() == 1 {
                        Some(found)
                    } else {
                        None
                    },
                    None => default_search(component, identifier, language_tag, log.drop_first()),
                }
            } else {
                None
            },
            _ => None,
        }
    }
}

/// Nothing added: no new exchanges.
pub proof fn lemma_logged_none(log: Seq<Exchange>)
    ensures
        logged(log, log),
        new_exchanges(log, log).len() == 0,
{
    assert(log + log.skip(log.len() as int) =~= log);
}

/// Exchanges added in two steps are added in one, and the second step's are the last of them.
pub proof fn lemma_logged_trans(a: Seq<Exchange>, b: Seq<Exchange>, c: Seq<Exchange>)
    requires
        logged(a, b),
        logged(b, c),
    ensures
        logged(a, c),
        b.len() >= a.len(),
        new_exchanges(a, c).skip(b.len() - a.len()) == new_exchanges(b, c),
        new_exchanges(a, c).take(b.len() - a.len()) == new_exchanges(a, b),
        new_exchanges(a, c) == new_exchanges(a, b) + new_exchanges(b, c),
        0 <= b.len() - a.len() <= new_exchanges(a, c).len(),
{
    assert(c.skip(a.len() as int).skip(b.len() - a.len()) =~= c.skip(b.len() as int));
    assert(c.skip(a.len() as int).take(b.len() - a.len()) =~= b.skip(a.len() as int));
    assert(c.skip(a.len() as int) =~= b.skip(a.len() as int) + c.skip(b.len() as int));
    assert(a + c.skip(a.len() as int) =~= c);
}

/// After a localisation of the values failed, the localisation of more of them fails with the same error,
/// asking nothing more.
pub proof fn lemma_values_error<C: Command>(
    before: Cache,
    after: Cache,
    data: LocalisationData,
    j: nat,
    n: nat,
    language_tag: Seq<char>,
    names: Seq<Seq<char>>,
    commands: Seq<C>,
    fallback: bool,
    caching: bool,
    log: Seq<Exchange>,
    error: LocaliserErrorView,
)
    requires
        values_localised(before, after, data, j, language_tag, names, commands, fallback, caching, log, Err(error)),
        j <= n <= pair_count(data),
    ensures
        values_localised(before, after, data, n, language_tag, names, commands, fallback, caching, log, Err(error)),
    decreases n - j,
{
    if j < n {
        assert(data.values is Some);
        lemma_values_error(before, after, data, j, (n - 1) as nat, language_tag, names, commands, fallback, caching, log, error);
        assert(log.take(log.len() as int) =~= log);
        let prior = Err::<Seq<(Seq<char>, ValueView)>, LocaliserErrorView>(error);
        assert(values_localised(before, after, data, (n - 1) as nat, language_tag, names, commands, fallback, caching, log.take(log.len() as int), prior));
        let pairs = data.values->Some_0;
        assert(n <= pairs@.len());
        assert(localisation_step(after, log.len() as int, prior));
    }
}

/// A string that the search finds is the provider's answer to the last request, a request for the component's
/// identifier: for the requested language tag, or for the component's default language.
pub proof fn lemma_found_is_answer(
    component: Seq<char>,
    identifier: Seq<char>,
    language_tag: Seq<char>,
    fallback: bool,
    log: Seq<Exchange>,
    found: (Seq<char>, Seq<char>),
)
    requires
        search_outcome(component, identifier, language_tag, fallback, log) == Some(Ok::<(Seq<char>, Seq<char>), LocaliserErrorView>(found)),
    ensures
        log.len() >= 1,
        log.last() matches Exchange::String(c, i, t, answer) && c == component && i == identifier && answer == Ok::<
            Option<(Seq<char>, Seq<char>)>,
            DataView,
        >(Some(found)),
        log.len() == 1 ==> log[0] == Exchange::String(component, identifier, language_tag, Ok(Some(found))),
{
    if let Exchange::String(c, i, t, answer) = log[0] {
        if requested_decision(component, identifier, language_tag, fallback, answer) is None {
            let rest = log.drop_first();
            assert(rest[0] == log[1]);
            assert(rest[1] == log[2]);
        }
    }
}

/// Exchanges that the provider answered, one log after another, are answered.
pub proof fn lemma_answered_concat<P: LocalisationProvider>(provider: P, first: Seq<Exchange>, second: Seq<Exchange>)
    requires
        log_answered(provider, first),
        log_answered(provider, second),
    ensures
        log_answered(provider, first + second),
{
    assert forall|k: int| 0 <= k < (first + second).len() implies match #[trigger] (first + second)[k] {
        Exchange::String(c, i, t, answer) => provider.answers(c, i, t, answer),
        Exchange::DefaultLanguage(c, answer) => provider.default_answers(c, answer),
    } by {
        if k < first.len() {
            assert((first + second)[k] == first[k]);
        } else {
            assert((first + second)[k] == second[k - first.len()]);
        }
    }
}

/// The exchanges with the provider that `after` holds past `before`.
pub open spec fn new_exchanges(before: Seq<Exchange>, after: Seq<Exchange>) -> Seq<Exchange> {
    after.skip(before.len() as int)
}

/// `after` is `before` with exchanges added.
pub open spec fn logged(before: Seq<Exchange>, after: Seq<Exchange>) -> bool {
    after == before + new_exchanges(before, after)
}

/// What formatting a component's identifier for a language tag gives, with the exchanges `log` with the
/// provider: from the cache where it holds the key, asking the provider nothing; otherwise the search for
/// the pattern string, then for a found string what [`found_agrees`] states, and for an error that error
/// with the cache unchanged.
pub open spec fn format_agrees<C: Command>(
    before: Cache,
    after: Cache,
    component: Seq<char>,
    identifier: Seq<char>,
    language_tag: Seq<char>,
    values: Seq<(String, PlaceholderValue)>,
    names: Seq<Seq<char>>,
    commands: Seq<C>,
    fallback: bool,
    caching: bool,
    log: Seq<Exchange>,
    result: Result<TaggedString, LocaliserError>,
) -> bool {
    let key = cache_key(component, identifier);
    if before.contains_key((language_tag, key)) {
        log.len() == 0 && cached_agrees(before, after, language_tag, key, values, names, commands, result)
    } else {
        match search_outcome(component, identifier, language_tag, fallback, log) {
            Some(Ok((text, text_tag))) => found_agrees(
                before,
                after,
                language_tag,
                key,
                text,
                text_tag,
                values,
                names,
                commands,
                caching,
                result,
            ),
            Some(Err(e)) => result matches Err(err) && err@ == e && after == before,
            None => false,
        }
    }
}

/// What getting a component's identifier as a literal string for a language tag gives, with the exchanges
/// `log` with the provider: from the cache, asking the provider nothing, a cached literal as it is and
/// `CacheEntry` for a cached formatter; otherwise the search for the pattern string, then a found string as
/// it is, cached as a literal where caching, and for an error that error with the cache unchanged.
pub open spec fn literal_agrees(
    before: Cache,
    after: Cache,
    component: Seq<char>,
    identifier: Seq<char>,
    language_tag: Seq<char>,
    fallback: bool,
    caching: bool,
    log: Seq<Exchange>,
    result: Result<TaggedString, LocaliserError>,
) -> bool {
    let key = cache_key(component, identifier);
    if before.contains_key((language_tag, key)) {
        log.len() == 0 && after == before && match before[(language_tag, key)] {
            CacheView::Literal(text, text_tag) => tagged_is(result, text, text_tag),
            CacheView::Pattern(..) => result matches Err(e) && e@ == LocaliserErrorView::CacheEntry(component, identifier),
        }
    } else {
        match search_outcome(component, identifier, language_tag, fallback, log) {
            Some(Ok((text, text_tag))) => tagged_is(result, text, text_tag) && literal_stored(
                before,
                after,
                text,
                text_tag,
                key,
                caching,
            ),
            Some(Err(e)) => result matches Err(err) && err@ == e && after == before,
            None => false,
        }
    }
}

/// The flag, or the default where `None`.
pub open spec fn flag_or(flag: Option<bool>, default: bool) -> bool {
    match flag {
        Some(b) => b,
        None => default,
    }
}

/// The grammar syntax characters of pattern strings.
pub fn grammar_syntax() -> (result: &'static str)
    ensures
        result@ == grammar_chars(),
{
    proof {
        reveal_strlit("{}`#");
    }
    "{}`#"
}

/// The cache key of a component's identifier.
fn key_of(component: &str, identifier: &str) -> (result: String)
    ensures
        result@ == cache_key(component@, identifier@),
{
    let mut key = component.to_owned();
    push_char(&mut key, '/');
    key.append(identifier);
    key
}

/// The values with each localisation data replaced by a tagged string (its localisation), names and other
/// values kept.
pub open spec fn substituted(values: Seq<(String, PlaceholderValue)>, substitutes: Seq<(String, PlaceholderValue)>) -> bool {
    &&& substitutes.len() == values.len()
    &&& forall|i: int|
        0 <= i < values.len() ==> #[trigger] substitutes[i].0@ == values[i].0@ && match values[i].1 {
            PlaceholderValue::LocalisationData(_) => substitutes[i].1 is TaggedString,
            _ => value_view(substitutes[i].1) == value_view(values[i].1),
        }
}

/// What localising the data gives, with the exchanges `log` with the provider: without values, its literal
/// string; with values, each localisation data among them localised first, in order, and then, unless one
/// of them failed with its error, the formatting of its pattern string with each localisation data replaced
/// by its localisation (the views of the values as [`values_localised`] states).
pub open spec fn data_agrees<C: Command>(
    before: Cache,
    after: Cache,
    data: LocalisationData,
    language_tag: Seq<char>,
    names: Seq<Seq<char>>,
    commands: Seq<C>,
    fallback: bool,
    caching: bool,
    log: Seq<Exchange>,
    result: Result<TaggedString, LocaliserError>,
) -> bool
    decreases data, pair_count(data) + 1,
{
    match data.values {
        None => literal_agrees(before, after, data.component@, data.identifier@, language_tag, fallback, caching, log, result),
        Some(values) => exists|middle: Cache, k: int, localised: Result<Seq<(Seq<char>, ValueView)>, LocaliserErrorView>|
            #![trigger localisation_step(middle, k, localised)]
            localisation_step(middle, k, localised) && 0 <= k <= log.len() && values_localised(
                before,
                middle,
                data,
                values@.len(),
                language_tag,
                names,
                commands,
                fallback,
                caching,
                log.take(k),
                localised,
            ) && match localised {
                Err(e) => result matches Err(err) && err@ == e && after == middle && k == log.len(),
                Ok(views) => exists|substitutes: Seq<(String, PlaceholderValue)>|
                    #![trigger format_agrees(middle, after, data.component@, data.identifier@, language_tag, substitutes, names, commands, fallback, caching, log.skip(k), result)]
                    named_views(substitutes) == views && format_agrees(
                        middle,
                        after,
                        data.component@,
                        data.identifier@,
                        language_tag,
                        substitutes,
                        names,
                        commands,
                        fallback,
                        caching,
                        log.skip(k),
                        result,
                    ),
            },
    }
}

/// A step of the localisation of values: the cache after the values before it, the number of exchanges
/// they made and their outcome. It holds of every step; the quantifiers over steps are instantiated by it.
pub open spec fn localisation_step(
    middle: Cache,
    k: int,
    prior: Result<Seq<(Seq<char>, ValueView)>, LocaliserErrorView>,
) -> bool {
    true
}

/// A localisation of a value: its tagged string or its error. It holds of every one; the quantifiers over
/// them are instantiated by it.
pub open spec fn localised_value(r: Result<TaggedString, LocaliserError>) -> bool {
    true
}

/// What localising the first `n` values of the data gives, with the exchanges `log`: the views of the values
/// with each localisation data replaced by its localisation (a tagged string), or the error of the first
/// localisation that failed, after which nothing more is asked.
pub open spec fn values_localised<C: Command>(
    before: Cache,
    after: Cache,
    data: LocalisationData,
    n: nat,
    language_tag: Seq<char>,
    names: Seq<Seq<char>>,
    commands: Seq<C>,
    fallback: bool,
    caching: bool,
    log: Seq<Exchange>,
    outcome: Result<Seq<(Seq<char>, ValueView)>, LocaliserErrorView>,
) -> bool
    decreases data, n,
{
    match data.values {
        Some(pairs) => if n > pairs@.len() {
            false
        } else if n == 0 {
            outcome == Ok::<Seq<(Seq<char>, ValueView)>, LocaliserErrorView>(Seq::empty()) && after == before && log.len() == 0
        } else {
            let e = pairs@[n - 1];
            proof {
                let v = data.values;
                let w = pairs;
                assert(decreases_to!(data => v));
                assert(decreases_to!(v => v->0));
                assert(decreases_to!(w => w@));
                assert(decreases_to!(w@ => e));
                assert(decreases_to!(e => e.1));
            }
            exists|middle: Cache, k: int, prior: Result<Seq<(Seq<char>, ValueView)>, LocaliserErrorView>|
                #![trigger localisation_step(middle, k, prior)]
                localisation_step(middle, k, prior) && 0 <= k <= log.len() && values_localised(
                    before,
                    middle,
                    data,
                    (n - 1) as nat,
                    language_tag,
                    names,
                    commands,
                    fallback,
                    caching,
                    log.take(k),
                    prior,
                ) && match prior {
                    Err(err) => outcome == prior && after == middle && k == log.len(),
                    Ok(views) => match e.1 {
                        PlaceholderValue::LocalisationData(inner) => exists|r: Result<TaggedString, LocaliserError>|
                            #![trigger localised_value(r)]
                            localised_value(r) && data_agrees(middle, after, inner, language_tag, names, commands, fallback, caching, log.skip(k), r)
                                && outcome == match r {
                                Ok(s) => Ok(views.push((e.0@, ValueView::TaggedString(s.text(), s.tag())))),
                                Err(err) => Err(err@),
                            },
                        _ => outcome == Ok::<Seq<(Seq<char>, ValueView)>, LocaliserErrorView>(
                            views.push((e.0@, value_view(e.1))),
                        ) && after == middle && k == log.len(),
                    },
                }
        },
        None => false,
    }
}

/// Localising data without values is getting its component's identifier as a literal string.
pub proof fn lemma_data_literal<C: Command>(
    before: Cache,
    after: Cache,
    data: LocalisationData,
    language_tag: Seq<char>,
    names: Seq<Seq<char>>,
    commands: Seq<C>,
    fallback: bool,
    caching: bool,
    log: Seq<Exchange>,
    result: Result<TaggedString, LocaliserError>,
)
    requires
        data.values is None,
    ensures
        data_agrees(before, after, data, language_tag, names, commands, fallback, caching, log, result)
            == literal_agrees(before, after, data.component@, data.identifier@, language_tag, fallback, caching, log, result),
{
}

/// Localising the first `n` values of data none of which is localisation data changes nothing and asks the
/// provider nothing: it gives the views of those values.
proof fn lemma_values_plain<C: Command>(
    before: Cache,
    after: Cache,
    data: LocalisationData,
    n: nat,
    language_tag: Seq<char>,
    names: Seq<Seq<char>>,
    commands: Seq<C>,
    fallback: bool,
    caching: bool,
    log: Seq<Exchange>,
    outcome: Result<Seq<(Seq<char>, ValueView)>, LocaliserErrorView>,
)
    requires
        data.values matches Some(v) && n <= v@.len() && forall|j: int|
            0 <= j < n ==> !(#[trigger] v@[j].1 is LocalisationData),
        values_localised(before, after, data, n, language_tag, names, commands, fallback, caching, log, outcome),
    ensures
        outcome == Ok::<Seq<(Seq<char>, ValueView)>, LocaliserErrorView>(named_views(data.values->Some_0@.take(n as int))),
        after == before,
        log.len() == 0,
    decreases n,
{
    let v = data.values->Some_0;
    if n == 0 {
        assert(named_views(v@.take(0)) =~= Seq::<(Seq<char>, ValueView)>::empty());
    } else {
        let (middle, k, prior) = choose|middle: Cache, k: int, prior: Result<Seq<(Seq<char>, ValueView)>, LocaliserErrorView>|
            localisation_step(middle, k, prior) && 0 <= k <= log.len() && values_localised(
                before,
                middle,
                data,
                (n - 1) as nat,
                language_tag,
                names,
                commands,
                fallback,
                caching,
                log.take(k),
                prior,
            ) && match prior {
                Err(err) => outcome == prior && after == middle && k == log.len(),
                Ok(views) => match v@[n - 1].1 {
                    PlaceholderValue::LocalisationData(inner) => exists|r: Result<TaggedString, LocaliserError>|
                        localised_value(r) && data_agrees(middle, after, inner, language_tag, names, commands, fallback, caching, log.skip(k), r)
                            && outcome == match r {
                            Ok(s) => Ok(views.push((v@[n - 1].0@, ValueView::TaggedString(s.text(), s.tag())))),
                            Err(err) => Err(err@),
                        },
                    _ => outcome == Ok::<Seq<(Seq<char>, ValueView)>, LocaliserErrorView>(
                        views.push((v@[n - 1].0@, value_view(v@[n - 1].1))),
                    ) && after == middle && k == log.len(),
                },
            };
        lemma_values_plain(before, middle, data, (n - 1) as nat, language_tag, names, commands, fallback, caching, log.take(k), prior);
        assert(!(v@[n - 1].1 is LocalisationData));
        assert(v@.take(n as int) =~= v@.take(n - 1).push(v@[n - 1]));
        assert(named_views(v@.take(n as int)) =~= named_views(v@.take(n - 1)).push((v@[n - 1].0@, value_view(v@[n - 1].1))));
    }
}

/// Localising data whose values hold no localisation data is formatting its component's identifier with those
/// values (by their views), from the same cache and with the same exchanges with the provider.
pub proof fn lemma_data_values<C: Command>(
    before: Cache,
    after: Cache,
    data: LocalisationData,
    language_tag: Seq<char>,
    names: Seq<Seq<char>>,
    commands: Seq<C>,
    fallback: bool,
    caching: bool,
    log: Seq<Exchange>,
    result: Result<TaggedString, LocaliserError>,
)
    requires
        data.values matches Some(v) && forall|j: int| 0 <= j < v@.len() ==> !(#[trigger] v@[j].1 is LocalisationData),
        data_agrees(before, after, data, language_tag, names, commands, fallback, caching, log, result),
    ensures
        exists|substitutes: Seq<(String, PlaceholderValue)>|
            #![trigger format_agrees(before, after, data.component@, data.identifier@, language_tag, substitutes, names, commands, fallback, caching, log, result)]
            named_views(substitutes) == named_views(data.values->Some_0@) && format_agrees(
                before,
                after,
                data.component@,
                data.identifier@,
                language_tag,
                substitutes,
                names,
                commands,
                fallback,
                caching,
                log,
                result,
            ),
{
    let v = data.values->Some_0;
    let (middle, k, localised) = choose|middle: Cache, k: int, localised: Result<Seq<(Seq<char>, ValueView)>, LocaliserErrorView>|
        localisation_step(middle, k, localised) && 0 <= k <= log.len() && values_localised(
            before,
            middle,
            data,
            v@.len(),
            language_tag,
            names,
            commands,
            fallback,
            caching,
            log.take(k),
            localised,
        ) && match localised {
            Err(e) => result matches Err(err) && err@ == e && after == middle && k == log.len(),
            Ok(views) => exists|substitutes: Seq<(String, PlaceholderValue)>|
                named_views(substitutes) == views && format_agrees(
                    middle,
                    after,
                    data.component@,
                    data.identifier@,
                    language_tag,
                    substitutes,
                    names,
                    commands,
                    fallback,
                    caching,
                    log.skip(k),
                    result,
                ),
        };
    lemma_values_plain(before, middle, data, v@.len(), language_tag, names, commands, fallback, caching, log.take(k), localised);
    assert(v@.take(v@.len() as int) =~= v@);
    assert(k == 0);
    assert(log.skip(0) =~= log);
}

/// A pattern string without grammar syntax characters is given back as it is, and cached as a literal where
/// caching: it needs no formatting.
pub proof fn lemma_plain_text<C: Command>(
    before: Cache,
    after: Cache,
    language_tag: Seq<char>,
    key: Seq<char>,
    text: Seq<char>,
    text_tag: Seq<char>,
    values: Seq<(String, PlaceholderValue)>,
    names: Seq<Seq<char>>,
    commands: Seq<C>,
    caching: bool,
    result: Result<TaggedString, LocaliserError>,
)
    requires
        found_agrees(before, after, language_tag, key, text, text_tag, values, names, commands, caching, result),
        forall|k: int| 0 <= k < text.len() ==> !grammar_chars().contains(#[trigger] text[k]),
    ensures
        tagged_is(result, text, text_tag),
        literal_stored(before, after, text, text_tag, key, caching),
{
    if text.len() > 0 {
        let created = choose|created: Option<Result<Formatter, FormatterError>>|
                creation_agrees(text, grammar_chars(), language_tag, names, commands, created) && created_agrees(
                    before,
                    after,
                    language_tag,
                    key,
                    text,
                    text_tag,
                    values,
                    names,
                    commands,
                    caching,
                    created,
                    result,
                );
        assert(grammar_chars().len() > 0);
        let tokens = choose|tokens: Seq<Token>|
            is_tokenisation(text, grammar_chars(), tokens) && match parse_tokens(tokens) {
                RunView::Done(q) => created matches Some(r) && (!spec_has_grammar(tokens) ==> (r matches Err(e) && e@
                    == FormatterErrorView::NoGrammar)) && (spec_has_grammar(tokens) ==> match spec_locale(language_tag) {
                    None => r matches Err(e) && e@ == FormatterErrorView::Locale,
                    Some(l) => exists|calls: Seq<crate::formatter::CommandCall>|
                        crate::formatter::calls_registered(calls, names, commands) && crate::formatter::analysis_agrees(
                            r,
                            crate::formatter::analyse(tokens, q.nodes, l, names, calls),
                            l,
                            language_tag,
                        ),
                }),
                RunView::Fail(e) => created matches Some(Err(err)) && err@ == FormatterErrorView::Tree(e),
                RunView::Stuck => created is None,
            };
        lemma_no_grammar_tokens(text, grammar_chars(), tokens);
        lemma_parse_plain(initial_view(), tokens, 0);
        assert(!spec_has_grammar(tokens));
    }
}

/// A literal string that `literal` got with caching, in the language tag asked for, is what the next
/// `literal` of the same component's identifier and language tag gets, from the cache, which it leaves as
/// it is, asking the provider nothing.
pub proof fn lemma_literal_cached(
    before: Cache,
    middle: Cache,
    after: Cache,
    component: Seq<char>,
    identifier: Seq<char>,
    language_tag: Seq<char>,
    fallback: bool,
    next_fallback: bool,
    next_caching: bool,
    first_log: Seq<Exchange>,
    next_log: Seq<Exchange>,
    first: Result<TaggedString, LocaliserError>,
    next: Result<TaggedString, LocaliserError>,
)
    requires
        literal_agrees(before, middle, component, identifier, language_tag, fallback, true, first_log, first),
        first matches Ok(s) && s.tag() == language_tag,
        literal_agrees(middle, after, component, identifier, language_tag, next_fallback, next_caching, next_log, next),
    ensures
        next matches Ok(s) && s.text() == first->Ok_0.text() && s.tag() == language_tag,
        after == middle,
        next_log.len() == 0,
{
    let key = cache_key(component, identifier);
    if !before.contains_key((language_tag, key)) {
        let found = search_outcome(component, identifier, language_tag, fallback, first_log);
        if let Some(Ok((text, text_tag))) = found {
            assert(middle == before.insert((language_tag, key), CacheView::Literal(text, language_tag)));
        }
    }
}

/// A literal string that `literal` got with caching, in the language tag asked for, is what the next
/// `format` of the same component's identifier and language tag gives, whatever the values, from the
/// cache, which it leaves as it is, asking the provider nothing.
pub proof fn lemma_format_after_literal<C: Command>(
    before: Cache,
    middle: Cache,
    after: Cache,
    component: Seq<char>,
    identifier: Seq<char>,
    language_tag: Seq<char>,
    values: Seq<(String, PlaceholderValue)>,
    names: Seq<Seq<char>>,
    commands: Seq<C>,
    fallback: bool,
    next_fallback: bool,
    next_caching: bool,
    first_log: Seq<Exchange>,
    next_log: Seq<Exchange>,
    first: Result<TaggedString, LocaliserError>,
    next: Result<TaggedString, LocaliserError>,
)
    requires
        literal_agrees(before, middle, component, identifier, language_tag, fallback, true, first_log, first),
        first matches Ok(s) && s.tag() == language_tag,
        format_agrees(middle, after, component, identifier, language_tag, values, names, commands, next_fallback, next_caching, next_log, next),
    ensures
        next matches Ok(s) && s.text() == first->Ok_0.text() && s.tag() == language_tag,
        after == middle,
        next_log.len() == 0,
{
    let key = cache_key(component, identifier);
    if !before.contains_key((language_tag, key)) {
        let found = search_outcome(component, identifier, language_tag, fallback, first_log);
        if let Some(Ok((text, text_tag))) = found {
            assert(middle == before.insert((language_tag, key), CacheView::Literal(text, language_tag)));
        }
    }
}

/// Without a cache entry, `literal` gives the string that the search finds, with its own language tag (that
/// of the component's default language where it was found by fallback), and where caching stores it as a
/// literal under that language tag; a failed search gives its error and leaves the cache as it is.
pub proof fn lemma_literal_found(
    before: Cache,
    after: Cache,
    component: Seq<char>,
    identifier: Seq<char>,
    language_tag: Seq<char>,
    fallback: bool,
    caching: bool,
    log: Seq<Exchange>,
    result: Result<TaggedString, LocaliserError>,
)
    requires
        !before.contains_key((language_tag, cache_key(component, identifier))),
        literal_agrees(before, after, component, identifier, language_tag, fallback, caching, log, result),
    ensures
        search_outcome(component, identifier, language_tag, fallback, log) matches Some(found),
        search_outcome(component, identifier, language_tag, fallback, log) matches Some(Ok((text, text_tag))) ==> (
        result matches Ok(s) && s.text() == text && s.tag() == text_tag && after == if caching {
            before.insert((text_tag, cache_key(component, identifier)), CacheView::Literal(text, text_tag))
        } else {
            before
        }),
        search_outcome(component, identifier, language_tag, fallback, log) matches Some(Err(e)) ==> (result matches Err(
            err,
        ) && err@ == e && after == before),
{
}

/// After `format` of a component's identifier succeeded with caching, without a cache entry before, the next
/// `literal` of the same identifier and language tag asks the provider nothing and leaves the cache as it is:
/// where `format` cached a formatter (the pattern string needed formatting), it gives `CacheEntry`; otherwise
/// `format` cached the string as a literal, under the key for its own language tag.
pub proof fn lemma_literal_after_format<C: Command>(
    before: Cache,
    middle: Cache,
    after: Cache,
    component: Seq<char>,
    identifier: Seq<char>,
    language_tag: Seq<char>,
    values: Seq<(String, PlaceholderValue)>,
    names: Seq<Seq<char>>,
    commands: Seq<C>,
    fallback: bool,
    next_fallback: bool,
    next_caching: bool,
    first_log: Seq<Exchange>,
    next_log: Seq<Exchange>,
    first: Result<TaggedString, LocaliserError>,
    next: Result<TaggedString, LocaliserError>,
)
    requires
        !before.contains_key((language_tag, cache_key(component, identifier))),
        format_agrees(before, middle, component, identifier, language_tag, values, names, commands, fallback, true, first_log, first),
        first is Ok,
        middle.contains_key((language_tag, cache_key(component, identifier))),
        literal_agrees(middle, after, component, identifier, language_tag, next_fallback, next_caching, next_log, next),
    ensures
        next_log.len() == 0,
        after == middle,
        middle[(language_tag, cache_key(component, identifier))] is Pattern ==> (next matches Err(e) && e@
            == LocaliserErrorView::CacheEntry(component, identifier)),
        middle[(language_tag, cache_key(component, identifier))] is Literal ==> (next matches Ok(s)
            && first matches Ok(f) && s.text() == f.text() && s.tag() == f.tag()),
{
    let key = cache_key(component, identifier);
    let found = search_outcome(component, identifier, language_tag, fallback, first_log);
    if let Some(Ok((text, text_tag))) = found {
        if text.len() > 0 {
            let created = choose|created: Option<Result<Formatter, FormatterError>>|
                creation_agrees(text, grammar_chars(), language_tag, names, commands, created) && created_agrees(
                    before,
                    middle,
                    language_tag,
                    key,
                    text,
                    text_tag,
                    values,
                    names,
                    commands,
                    true,
                    created,
                    first,
                );
            if let Some(Ok(f)) = created {
                let (formatted, numbers) = choose|
                    formatted: Result<(String, Rc<String>), FormatterError>,
                    numbers: Seq<Seq<char>>,
                |
                    formatting_registered(f.patterns(), f.number_strings(), f.tag(), values, names, commands, formatted, numbers)
                        && formatted_is(first, formatted) && middle == before.insert(
                        (language_tag, key),
                        CacheView::Pattern(f.patterns(), numbers, f.tag()),
                    );
                assert(middle[(language_tag, key)] is Pattern);
            } else {
                assert(middle == before.insert((text_tag, key), CacheView::Literal(text, text_tag)));
                assert(text_tag == language_tag);
            }
        } else {
            assert(middle == before.insert((text_tag, key), CacheView::Literal(text, text_tag)));
            assert(text_tag == language_tag);
        }
    }
}

/// A `format` served by a cached formatter asks the provider nothing and gives what any formatter with the
/// cached patterns, number strings and language tag gives for the values, and keeps the number strings that
/// this formatting leaves.
pub proof fn lemma_cached_formatter<C: Command>(
    before: Cache,
    after: Cache,
    component: Seq<char>,
    identifier: Seq<char>,
    language_tag: Seq<char>,
    values: Seq<(String, PlaceholderValue)>,
    names: Seq<Seq<char>>,
    commands: Seq<C>,
    fallback: bool,
    caching: bool,
    log: Seq<Exchange>,
    result: Result<TaggedString, LocaliserError>,
    patterns: FormatterView,
    numbers: Seq<Seq<char>>,
    tag: Seq<char>,
    formatted: Result<(String, Rc<String>), FormatterError>,
    numbers_after: Seq<Seq<char>>,
)
    requires
        before.contains_key((language_tag, cache_key(component, identifier))),
        before[(language_tag, cache_key(component, identifier))] == CacheView::Pattern(patterns, numbers, tag),
        format_agrees(before, after, component, identifier, language_tag, values, names, commands, fallback, caching, log, result),
        formatting_registered(patterns, numbers, tag, values, names, commands, formatted, numbers_after),
    ensures
        log.len() == 0,
        formatted_is(result, formatted),
        formatted is Ok ==> after == before.insert(
            (language_tag, cache_key(component, identifier)),
            CacheView::Pattern(patterns, numbers_after, tag),
        ),
{
    let key = cache_key(component, identifier);
    let (other, other_after) = choose|other: Result<(String, Rc<String>), FormatterError>, other_after: Seq<Seq<char>>|
        formatting_registered(patterns, numbers, tag, values, names, commands, other, other_after) && formatted_is(result, other)
            && after == before.insert((language_tag, key), CacheView::Pattern(patterns, other_after, tag));
    crate::formatter::lemma_formatting_determined(patterns, numbers, tag, values, names, commands, formatted, numbers_after, other, other_after);
}

/// A pattern string that `format` formatted with caching, into the language tag asked for, is in the cache
/// afterwards (as a literal or as a formatter), so the next `format` or `literal` of the same component's
/// identifier and language tag is served from the cache.
pub proof fn lemma_format_cached<C: Command>(
    before: Cache,
    after: Cache,
    component: Seq<char>,
    identifier: Seq<char>,
    language_tag: Seq<char>,
    values: Seq<(String, PlaceholderValue)>,
    names: Seq<Seq<char>>,
    commands: Seq<C>,
    fallback: bool,
    log: Seq<Exchange>,
    result: Result<TaggedString, LocaliserError>,
)
    requires
        format_agrees(before, after, component, identifier, language_tag, values, names, commands, fallback, true, log, result),
        result matches Ok(s) && s.tag() == language_tag,
    ensures
        after.contains_key((language_tag, cache_key(component, identifier))),
{
    let key = cache_key(component, identifier);
    if !before.contains_key((language_tag, key)) {
        let found = search_outcome(component, identifier, language_tag, fallback, log);
        if let Some(Ok((text, text_tag))) = found {
            if text.len() > 0 {
                let created = choose|created: Option<Result<Formatter, FormatterError>>|
                    creation_agrees(text, grammar_chars(), language_tag, names, commands, created) && created_agrees(
                        before,
                        after,
                        language_tag,
                        key,
                        text,
                        text_tag,
                        values,
                        names,
                        commands,
                        true,
                        created,
                        result,
                    );
                if let Some(Ok(f)) = created {
                    let (formatted, numbers) = choose|
                        formatted: Result<(String, Rc<String>), FormatterError>,
                        numbers: Seq<Seq<char>>,
                    |
                        formatting_registered(f.patterns(), f.number_strings(), f.tag(), values, names, commands, formatted, numbers)
                            && formatted_is(result, formatted) && after == before.insert(
                            (language_tag, key),
                            CacheView::Pattern(f.patterns(), numbers, f.tag()),
                        );
                    assert(after.contains_key((language_tag, key)));
                }
            }
        }
    }
}

/// A localiser: a localisation provider, the ICU4X data and the registered commands, the defaults (language
/// tag, fallback to the component's default language, caching), and the cache.
pub struct Localiser<P, C> {
    icu_data_provider: Rc<IcuDataProvider>,
    localisation_provider: P,
    command_registry: Rc<CommandRegistry<C>>,
    fallback: bool,
    caching: bool,
    cache: Vec<CacheEntry>,
    language_tag: Rc<String>,
    exchanges: Ghost<Seq<Exchange>>,
}

/// Decides the search on the provider's answer for the requested language tag, as [`requested_decision`]
/// states: `None` where the component's default language is to be tried.
pub fn decide_requested(
    component: &str,
    identifier: &str,
    language_tag: &Rc<String>,
    fallback: bool,
    answer: Result<Option<TaggedString>, ProviderError>,
) -> (result: Option<Result<TaggedString, LocaliserError>>)
    ensures
        match requested_decision(component@, identifier@, language_tag@, fallback, string_answer(answer)) {
            Some(found) => result matches Some(r) && found_view(r) == found,
            None => result is None,
        },
{
    match answer {
        Err(e) => Some(Err(LocaliserError::Provider(e))),
        Ok(Some(s)) => Some(Ok(s)),
        Ok(None) => if fallback {
            None
        } else {
            Some(
                Err(
                    LocaliserError::StringNotFound(
                        component.to_owned(),
                        identifier.to_owned(),
                        language_tag.as_str().to_owned(),
                        false,
                    ),
                ),
            )
        },
    }
}

/// Decides the search on the provider's answer for the component's default language, as
/// [`default_decision`] states.
pub fn decide_default(
    component: &str,
    identifier: &str,
    language_tag: &Rc<String>,
    answer: Result<Option<TaggedString>, ProviderError>,
) -> (result: Result<TaggedString, LocaliserError>)
    ensures
        found_view(result) == default_decision(component@, identifier@, language_tag@, string_answer(answer)),
{
    match answer {
        Err(e) => Err(LocaliserError::Provider(e)),
        Ok(Some(s)) => Ok(s),
        Ok(None) => Err(
            LocaliserError::StringNotFound(
                component.to_owned(),
                identifier.to_owned(),
                language_tag.as_str().to_owned(),
                true,
            ),
        ),
    }
}

impl<P: LocalisationProvider, C: Command> Localiser<P, C> {
    /// The default language tag.
    pub closed spec fn default_tag(&self) -> Seq<char> {
        self.language_tag@
    }

    /// Whether to fall back to the component's default language by default.
    pub closed spec fn default_fallback(&self) -> bool {
        self.fallback
    }

    /// Whether to cache by default.
    pub closed spec fn default_caching(&self) -> bool {
        self.caching
    }

    /// The cache.
    pub closed spec fn cache(&self) -> Cache {
        entries_map(self.cache@)
    }

    /// The names of the registered commands.
    pub closed spec fn command_names(&self) -> Seq<Seq<char>> {
        self.command_registry.names()
    }

    /// The registered commands.
    pub closed spec fn commands(&self) -> Seq<C> {
        self.command_registry.commands()
    }

    /// The localisation provider.
    pub closed spec fn provider(&self) -> P {
        self.localisation_provider
    }

    /// The ICU4X data.
    pub closed spec fn icu_data(&self) -> Rc<IcuDataProvider> {
        self.icu_data_provider
    }

    /// The requests made to the localisation provider, with its answers, in order.
    pub closed spec fn exchanges(&self) -> Seq<Exchange> {
        self.exchanges@
    }

    /// Creates a localiser with its provider, the ICU4X data, the registered commands and the defaults; the
    /// default language tag is the registry's, in its canonical form. Fails with `Registry` where the language
    /// tag is not a language identifier.
    pub fn try_new(
        icu_data_provider: &Rc<IcuDataProvider>,
        language_tag_registry: &mut LanguageTagRegistry,
        localisation_provider: P,
        command_registry: &Rc<CommandRegistry<C>>,
        fallback: bool,
        caching: bool,
        language_tag: &str,
    ) -> (result: Result<Self, LocaliserError>)
        ensures
            match spec_locale(language_tag@) {
                Some(tag) => result matches Ok(l) && l.default_tag() == tag && l.default_fallback() == fallback
                    && l.default_caching() == caching && l.cache() == Cache::empty() && l.exchanges() == Seq::<
                    Exchange,
                >::empty() && l.command_names()
                    == command_registry.names() && l.provider() == localisation_provider && l.icu_data()
                    == *icu_data_provider && registered(
                    old(language_tag_registry).tags(),
                    final(language_tag_registry).tags(),
                    tag,
                ),
                None => result matches Err(e) && e@ == LocaliserErrorView::Registry && final(language_tag_registry).tags()
                    == old(language_tag_registry).tags(),
            },
    {
        let tag = language_tag_registry.tag(language_tag)?;
        let result = Localiser {
            icu_data_provider: Rc::clone(icu_data_provider),
            localisation_provider,
            command_registry: Rc::clone(command_registry),
            fallback,
            caching,
            cache: Vec::new(),
            language_tag: tag,
            exchanges: Ghost(Seq::empty()),
        };
        assert(result.cache() =~= Cache::empty());
        Ok(result)
    }

    /// Stores the entry in the cache, in place of the entry of its key if there is one.
    fn store(&mut self, entry: CacheEntry)
        ensures
            final(self).cache() == old(self).cache().insert(entry_key(entry), entry_data(entry)),
            final(self).default_tag() == old(self).default_tag(),
            final(self).default_fallback() == old(self).default_fallback(),
            final(self).default_caching() == old(self).default_caching(),
            final(self).command_names() == old(self).command_names(),
            final(self).commands() == old(self).commands(),
            final(self).provider() == old(self).provider(),
            final(self).exchanges() == old(self).exchanges(),
    {
        match find_entry(&self.cache, entry.language_tag.as_str(), entry.key.as_str()) {
            Some(i) => {
                proof {
                    lemma_entries_update(self.cache@, i as int, entry);
                }
                let ghost before = self.cache@;
                let _ = self.cache.remove(i);
                self.cache.insert(i, entry);
                assert(self.cache@ =~= before.update(i as int, entry));
            },
            None => {
                proof {
                    lemma_entries_push(self.cache@, entry);
                }
                self.cache.push(entry);
            },
        }
    }

    /// Formats with the cache entry `i` of the language tag and the cache key.
    #[verifier::spinoff_prover]
    fn format_cached(
        &mut self,
        i: usize,
        values: &Vec<(String, PlaceholderValue)>,
        Ghost(language_tag): Ghost<Seq<char>>,
        Ghost(key): Ghost<Seq<char>>,
    ) -> (result: Result<TaggedString, LocaliserError>)
        requires
            i < old(self).cache@.len(),
            entry_key(old(self).cache@[i as int]) == (language_tag, key),
            forall|j: int| i < j < old(self).cache@.len() ==> entry_key(#[trigger] old(self).cache@[j]) != (language_tag, key),
        ensures
            old(self).cache().contains_key((language_tag, key)),
            cached_agrees(old(self).cache(), final(self).cache(), language_tag, key, values@, old(self).command_names(), old(self).commands(), result),
            final(self).default_tag() == old(self).default_tag(),
            final(self).default_fallback() == old(self).default_fallback(),
            final(self).default_caching() == old(self).default_caching(),
            final(self).command_names() == old(self).command_names(),
            final(self).commands() == old(self).commands(),
            final(self).provider() == old(self).provider(),
            final(self).exchanges() == old(self).exchanges(),
    {
        proof {
            lemma_entries_last(self.cache@, (language_tag, key), i as int);
        }
        let ghost before = self.cache@;
        let CacheEntry { language_tag: tag, key: k, data } = self.cache.remove(i);
        match data {
            CacheData::Literal(s) => {
                let copy = s.duplicate();
                let entry = CacheEntry { language_tag: tag, key: k, data: CacheData::Literal(s) };
                self.cache.insert(i, entry);
                assert(self.cache@ =~= before);
                assert(old(self).cache()[(language_tag, key)] == CacheView::Literal(copy.text(), copy.tag()));
                assert(self.cache() == old(self).cache());
                Ok(copy)
            },
            CacheData::Pattern(f) => {
                let mut f = f;
                let ghost patterns = f.patterns();
                let ghost numbers = f.number_strings();
                let ghost ftag = f.tag();
                let formatted = f.format(values, &self.command_registry);
                let result = match formatted {
                    Ok(pair) => Ok(TaggedString::new(pair.0.as_str(), &pair.1)),
                    Err(e) => Err(LocaliserError::Formatter(e)),
                };
                let entry = CacheEntry { language_tag: tag, key: k, data: CacheData::Pattern(f) };
                proof {
                    lemma_entries_update(before, i as int, entry);
                }
                self.cache.insert(i, entry);
                assert(self.cache@ =~= before.update(i as int, entry));
                assert(formatted_is(result, formatted));
                assert(formatting_registered(patterns, numbers, ftag, values@, old(self).command_names(), old(self).commands(), formatted, entry_data(entry)->Pattern_1));
                result
            },
        }
    }
}

impl<P: LocalisationProvider, C: Command> Localiser<P, C> {
    /// Asks the provider for the pattern string of the component's identifier for the language tag, records
    /// the request and the answer, and decides on it.
    fn ask_string(
        &mut self,
        component: &str,
        identifier: &str,
        language_tag: &Rc<String>,
    ) -> (result: Result<Option<TaggedString>, ProviderError>)
        ensures
            final(self).exchanges() == old(self).exchanges().push(
                Exchange::String(component@, identifier@, language_tag@, string_answer(result)),
            ),
            old(self).provider().answers(component@, identifier@, language_tag@, string_answer(result)),
            final(self).cache() == old(self).cache(),
            final(self).default_tag() == old(self).default_tag(),
            final(self).default_fallback() == old(self).default_fallback(),
            final(self).default_caching() == old(self).default_caching(),
            final(self).command_names() == old(self).command_names(),
            final(self).commands() == old(self).commands(),
            final(self).provider() == old(self).provider(),
    {
        let answer = self.localisation_provider.string(component, identifier, language_tag);
        let ghost exchange = Exchange::String(component@, identifier@, language_tag@, string_answer(answer));
        self.exchanges = Ghost(self.exchanges@.push(exchange));
        answer
    }

    /// Searches the provider for the pattern string of the component's identifier for the language tag and,
    /// where it has none and with fallback, for the component's default language, as [`search_outcome`]
    /// states of the exchanges that it adds.
    fn find_string(&mut self, component: &str, identifier: &str, language_tag: &Rc<String>, fallback: bool) -> (result:
        Result<TaggedString, LocaliserError>)
        ensures
            logged(old(self).exchanges(), final(self).exchanges()),
            log_answered(old(self).provider(), new_exchanges(old(self).exchanges(), final(self).exchanges())),
            search_outcome(
                component@,
                identifier@,
                language_tag@,
                fallback,
                new_exchanges(old(self).exchanges(), final(self).exchanges()),
            ) == Some(found_view(result)),
            final(self).cache() == old(self).cache(),
            final(self).default_tag() == old(self).default_tag(),
            final(self).default_fallback() == old(self).default_fallback(),
            final(self).default_caching() == old(self).default_caching(),
            final(self).command_names() == old(self).command_names(),
            final(self).commands() == old(self).commands(),
            final(self).provider() == old(self).provider(),
    {
        let ghost log0 = self.exchanges();
        let answer = self.ask_string(component, identifier, language_tag);
        let ghost first = Exchange::String(component@, identifier@, language_tag@, string_answer(answer));
        let ghost log1 = self.exchanges();
        assert(new_exchanges(log0, log1) =~= seq![first]);
        assert(log1 =~= log0 + seq![first]);
        assert(log_answered(self.provider(), seq![first]));
        if let Some(decided) = decide_requested(component, identifier, language_tag, fallback, answer) {
            return decided;
        }
        let asked = self.localisation_provider.default_language(component);
        let ghost second = Exchange::DefaultLanguage(component@, default_answer(asked));
        assert(self.provider().default_answers(component@, default_answer(asked)));
        let default_language = match asked {
            Ok(tag) => tag,
            Err(e) => {
                self.exchanges = Ghost(self.exchanges@.push(second));
                assert(new_exchanges(log0, self.exchanges()) =~= seq![first, second]);
                assert(log_answered(self.provider(), seq![first, second]));
                assert(seq![first, second].drop_first() =~= seq![second]);
                assert(self.exchanges() =~= log0 + seq![first, second]);
                return Err(LocaliserError::Provider(e));
            },
        };
        self.exchanges = Ghost(self.exchanges@.push(second));
        let answer = self.ask_string(component, identifier, &default_language);
        let ghost third = Exchange::String(component@, identifier@, default_language@, string_answer(answer));
        let result = decide_default(component, identifier, language_tag, answer);
        assert(new_exchanges(log0, self.exchanges()) =~= seq![first, second, third]);
        assert(seq![first, second, third].drop_first() =~= seq![second, third]);
        assert(self.exchanges() =~= log0 + seq![first, second, third]);
        assert(log_answered(self.provider(), seq![first, second, third]));
        result
    }

    /// Formats the pattern string `found`, found for the component's identifier and the language tag, with the
    /// values: an empty string, or one with no grammar syntax character, is returned as it is (and cached as a
    /// literal where caching); otherwise its formatter for the language tag formats the values (and is cached
    /// where caching).
    pub fn format_found(
        &mut self,
        found: TaggedString,
        component: &str,
        identifier: &str,
        values: &Vec<(String, PlaceholderValue)>,
        language_tag: &Rc<String>,
        caching: bool,
    ) -> (result: Result<TaggedString, LocaliserError>)
        ensures
            found_agrees(
                old(self).cache(),
                final(self).cache(),
                language_tag@,
                cache_key(component@, identifier@),
                found.text(),
                found.tag(),
                values@,
                old(self).command_names(),
                old(self).commands(),
                caching,
                result,
            ),
            final(self).default_tag() == old(self).default_tag(),
            final(self).default_fallback() == old(self).default_fallback(),
            final(self).default_caching() == old(self).default_caching(),
            final(self).command_names() == old(self).command_names(),
            final(self).commands() == old(self).commands(),
            final(self).provider() == old(self).provider(),
            final(self).exchanges() == old(self).exchanges(),
    {
        let key = key_of(component, identifier);
        let ghost before = self.cache();
        if found.as_str().unicode_len() == 0 {
            if caching {
                let entry = CacheEntry {
                    language_tag: Rc::clone(found.language_tag()),
                    key,
                    data: CacheData::Literal(found.duplicate()),
                };
                self.store(entry);
            }
            return Ok(found);
        }
        let created = Formatter::try_new(
            found.as_str(),
            grammar_syntax(),
            &self.icu_data_provider,
            &self.command_registry,
            language_tag,
        );
        let ghost created_view = created;
        let ghost names = self.command_names();
        let ghost commands = self.commands();
        assert(creation_agrees(found.text(), grammar_chars(), language_tag@, names, commands, created_view));
        match created {
            None => Err(LocaliserError::Formatter(FormatterError::NeverReached)),
            Some(Err(FormatterError::NoGrammar)) => {
                if caching {
                    let entry = CacheEntry {
                        language_tag: Rc::clone(found.language_tag()),
                        key,
                        data: CacheData::Literal(found.duplicate()),
                    };
                    self.store(entry);
                }
                Ok(found)
            },
            Some(Err(e)) => Err(LocaliserError::Formatter(e)),
            Some(Ok(f)) => {
                let mut f = f;
                let ghost patterns = f.patterns();
                let ghost numbers = f.number_strings();
                let ghost ftag = f.tag();
                let formatted = f.format(values, &self.command_registry);
                let result = match formatted {
                    Ok(pair) => Ok(TaggedString::new(pair.0.as_str(), &pair.1)),
                    Err(e) => Err(LocaliserError::Formatter(e)),
                };
                assert(formatted_is(result, formatted));
                let ghost numbers_after = f.number_strings();
                assert(formatting_registered(patterns, numbers, ftag, values@, names, commands, formatted, numbers_after));
                if caching {
                    let entry = CacheEntry { language_tag: Rc::clone(language_tag), key, data: CacheData::Pattern(f) };
                    self.store(entry);
                }
                assert(self.cache() == if caching {
                    before.insert((language_tag@, cache_key(component@, identifier@)), CacheView::Pattern(patterns, numbers_after, ftag))
                } else {
                    before
                });
                result
            },
        }
    }

    /// Formats the component's identifier for the language tag with the values, as [`format_agrees`] states.
    fn actual_format(
        &mut self,
        component: &str,
        identifier: &str,
        values: &Vec<(String, PlaceholderValue)>,
        language_tag: &Rc<String>,
        fallback: bool,
        caching: bool,
    ) -> (result: Result<TaggedString, LocaliserError>)
        ensures
            format_agrees(
                old(self).cache(),
                final(self).cache(),
                component@,
                identifier@,
                language_tag@,
                values@,
                old(self).command_names(),
                old(self).commands(),
                fallback,
                caching,
                new_exchanges(old(self).exchanges(), final(self).exchanges()),
                result,
            ),
            logged(old(self).exchanges(), final(self).exchanges()),
            log_answered(old(self).provider(), new_exchanges(old(self).exchanges(), final(self).exchanges())),
            final(self).default_tag() == old(self).default_tag(),
            final(self).default_fallback() == old(self).default_fallback(),
            final(self).default_caching() == old(self).default_caching(),
            final(self).command_names() == old(self).command_names(),
            final(self).commands() == old(self).commands(),
            final(self).provider() == old(self).provider(),
    {
        let key = key_of(component, identifier);
        let ghost log0 = self.exchanges();
        if let Some(i) = find_entry(&self.cache, language_tag.as_str(), key.as_str()) {
            let result = self.format_cached(i, values, Ghost(language_tag@), Ghost(key@));
            proof {
                lemma_logged_none(log0);
            }
            return result;
        }
        proof {
            lemma_entries_none(self.cache@, (language_tag@, key@));
        }
        let found = match self.find_string(component, identifier, language_tag, fallback) {
            Ok(s) => s,
            Err(e) => return Err(e),
        };
        let ghost text = found.text();
        let ghost text_tag = found.tag();
        let result = self.format_found(found, component, identifier, values, language_tag, caching);
        assert(found_agrees(
            old(self).cache(),
            self.cache(),
            language_tag@,
            key@,
            text,
            text_tag,
            values@,
            old(self).command_names(),
            old(self).commands(),
            caching,
            result,
        ));
        result
    }

    /// Gets the component's identifier for the language tag as a literal string, as [`literal_agrees`] states.
    fn actual_literal(
        &mut self,
        component: &str,
        identifier: &str,
        language_tag: &Rc<String>,
        fallback: bool,
        caching: bool,
    ) -> (result: Result<TaggedString, LocaliserError>)
        ensures
            literal_agrees(
                old(self).cache(),
                final(self).cache(),
                component@,
                identifier@,
                language_tag@,
                fallback,
                caching,
                new_exchanges(old(self).exchanges(), final(self).exchanges()),
                result,
            ),
            logged(old(self).exchanges(), final(self).exchanges()),
            log_answered(old(self).provider(), new_exchanges(old(self).exchanges(), final(self).exchanges())),
            final(self).default_tag() == old(self).default_tag(),
            final(self).default_fallback() == old(self).default_fallback(),
            final(self).default_caching() == old(self).default_caching(),
            final(self).command_names() == old(self).command_names(),
            final(self).commands() == old(self).commands(),
            final(self).provider() == old(self).provider(),
    {
        let key = key_of(component, identifier);
        let ghost log0 = self.exchanges();
        if let Some(i) = find_entry(&self.cache, language_tag.as_str(), key.as_str()) {
            proof {
                lemma_entries_last(self.cache@, (language_tag@, key@), i as int);
                lemma_logged_none(log0);
            }
            return match &self.cache[i].data {
                CacheData::Literal(s) => Ok(s.duplicate()),
                CacheData::Pattern(_) => Err(LocaliserError::CacheEntry(component.to_owned(), identifier.to_owned())),
            };
        }
        proof {
            lemma_entries_none(self.cache@, (language_tag@, key@));
        }
        let found = match self.find_string(component, identifier, language_tag, fallback) {
            Ok(s) => s,
            Err(e) => return Err(e),
        };
        let ghost before = self.cache();
        if caching {
            let entry = CacheEntry {
                language_tag: Rc::clone(found.language_tag()),
                key,
                data: CacheData::Literal(found.duplicate()),
            };
            self.store(entry);
        }
        assert(literal_stored(before, self.cache(), found.text(), found.tag(), key@, caching));
        Ok(found)
    }

    /// Formats the component's identifier for the language tag with the values; where `fallback` or
    /// `caching` is `None`, the localiser's default is taken.
    pub fn format(
        &mut self,
        component: &str,
        identifier: &str,
        values: &Vec<(String, PlaceholderValue)>,
        language_tag: &Rc<String>,
        fallback: Option<bool>,
        caching: Option<bool>,
    ) -> (result: Result<TaggedString, LocaliserError>)
        ensures
            format_agrees(
                old(self).cache(),
                final(self).cache(),
                component@,
                identifier@,
                language_tag@,
                values@,
                old(self).command_names(),
                old(self).commands(),
                flag_or(fallback, old(self).default_fallback()),
                flag_or(caching, old(self).default_caching()),
                new_exchanges(old(self).exchanges(), final(self).exchanges()),
                result,
            ),
            logged(old(self).exchanges(), final(self).exchanges()),
            log_answered(old(self).provider(), new_exchanges(old(self).exchanges(), final(self).exchanges())),
            final(self).default_tag() == old(self).default_tag(),
            final(self).default_fallback() == old(self).default_fallback(),
            final(self).default_caching() == old(self).default_caching(),
            final(self).command_names() == old(self).command_names(),
            final(self).commands() == old(self).commands(),
            final(self).provider() == old(self).provider(),
    {
        let fallback = match fallback {
            Some(b) => b,
            None => self.fallback,
        };
        let caching = match caching {
            Some(b) => b,
            None => self.caching,
        };
        self.actual_format(component, identifier, values, language_tag, fallback, caching)
    }

    /// Formats the component's identifier with the values, with the localiser's defaults.
    pub fn format_with_defaults(
        &mut self,
        component: &str,
        identifier: &str,
        values: &Vec<(String, PlaceholderValue)>,
    ) -> (result: Result<TaggedString, LocaliserError>)
        ensures
            format_agrees(
                old(self).cache(),
                final(self).cache(),
                component@,
                identifier@,
                old(self).default_tag(),
                values@,
                old(self).command_names(),
                old(self).commands(),
                old(self).default_fallback(),
                old(self).default_caching(),
                new_exchanges(old(self).exchanges(), final(self).exchanges()),
                result,
            ),
            logged(old(self).exchanges(), final(self).exchanges()),
            log_answered(old(self).provider(), new_exchanges(old(self).exchanges(), final(self).exchanges())),
            final(self).default_tag() == old(self).default_tag(),
            final(self).default_fallback() == old(self).default_fallback(),
            final(self).default_caching() == old(self).default_caching(),
            final(self).command_names() == old(self).command_names(),
            final(self).commands() == old(self).commands(),
            final(self).provider() == old(self).provider(),
    {
        let tag = Rc::clone(&self.language_tag);
        let fallback = self.fallback;
        let caching = self.caching;
        self.actual_format(component, identifier, values, &tag, fallback, caching)
    }

    /// Gets the component's identifier for the language tag as a literal string, without formatting; where
    /// `fallback` or `caching` is `None`, the localiser's default is taken.
    pub fn literal(
        &mut self,
        component: &str,
        identifier: &str,
        language_tag: &Rc<String>,
        fallback: Option<bool>,
        caching: Option<bool>,
    ) -> (result: Result<TaggedString, LocaliserError>)
        ensures
            literal_agrees(
                old(self).cache(),
                final(self).cache(),
                component@,
                identifier@,
                language_tag@,
                flag_or(fallback, old(self).default_fallback()),
                flag_or(caching, old(self).default_caching()),
                new_exchanges(old(self).exchanges(), final(self).exchanges()),
                result,
            ),
            logged(old(self).exchanges(), final(self).exchanges()),
            log_answered(old(self).provider(), new_exchanges(old(self).exchanges(), final(self).exchanges())),
            final(self).default_tag() == old(self).default_tag(),
            final(self).default_fallback() == old(self).default_fallback(),
            final(self).default_caching() == old(self).default_caching(),
            final(self).command_names() == old(self).command_names(),
            final(self).commands() == old(self).commands(),
            final(self).provider() == old(self).provider(),
    {
        let fallback = match fallback {
            Some(b) => b,
            None => self.fallback,
        };
        let caching = match caching {
            Some(b) => b,
            None => self.caching,
        };
        self.actual_literal(component, identifier, language_tag, fallback, caching)
    }

    /// Gets the component's identifier as a literal string, with the localiser's defaults.
    pub fn literal_with_defaults(&mut self, component: &str, identifier: &str) -> (result: Result<
        TaggedString,
        LocaliserError,
    >)
        ensures
            literal_agrees(
                old(self).cache(),
                final(self).cache(),
                component@,
                identifier@,
                old(self).default_tag(),
                old(self).default_fallback(),
                old(self).default_caching(),
                new_exchanges(old(self).exchanges(), final(self).exchanges()),
                result,
            ),
            logged(old(self).exchanges(), final(self).exchanges()),
            log_answered(old(self).provider(), new_exchanges(old(self).exchanges(), final(self).exchanges())),
            final(self).default_tag() == old(self).default_tag(),
            final(self).default_fallback() == old(self).default_fallback(),
            final(self).default_caching() == old(self).default_caching(),
            final(self).command_names() == old(self).command_names(),
            final(self).commands() == old(self).commands(),
            final(self).provider() == old(self).provider(),
    {
        let tag = Rc::clone(&self.language_tag);
        let fallback = self.fallback;
        let caching = self.caching;
        self.actual_literal(component, identifier, &tag, fallback, caching)
    }

    /// Changes the defaults of the localiser; `None` leaves a default as it is.
    pub fn defaults(&mut self, language_tag: Option<Rc<String>>, fallback: Option<bool>, caching: Option<bool>) -> (result:
        Result<(), LocaliserError>)
        ensures
            result is Ok,
            final(self).default_tag() == match language_tag {
                Some(t) => t@,
                None => old(self).default_tag(),
            },
            final(self).default_fallback() == flag_or(fallback, old(self).default_fallback()),
            final(self).default_caching() == flag_or(caching, old(self).default_caching()),
            final(self).cache() == old(self).cache(),
            final(self).command_names() == old(self).command_names(),
            final(self).commands() == old(self).commands(),
            final(self).provider() == old(self).provider(),
            final(self).exchanges() == old(self).exchanges(),
    {
        if let Some(tag) = language_tag {
            self.language_tag = tag;
        }
        if let Some(b) = fallback {
            self.fallback = b;
        }
        if let Some(b) = caching {
            self.caching = b;
        }
        Ok(())
    }

    /// The default language tag of the localiser.
    pub fn default_language(&self) -> (result: Rc<String>)
        ensures
            result@ == self.default_tag(),
    {
        Rc::clone(&self.language_tag)
    }

    /// The localisation provider of the localiser.
    pub fn localisation_provider(&self) -> (result: &P)
        ensures
            *result == self.provider(),
    {
        &self.localisation_provider
    }

    /// The command registry of the localiser.
    pub fn command_registry(&self) -> (result: &Rc<CommandRegistry<C>>)
        ensures
            result.names() == self.command_names(),
    {
        &self.command_registry
    }

    /// The ICU4X data of the localiser.
    pub fn icu_data_provider(&self) -> (result: &Rc<IcuDataProvider>)
        ensures
            *result == self.icu_data(),
    {
        &self.icu_data_provider
    }

    /// The grammar syntax characters of pattern strings.
    pub fn grammar(&self) -> (result: &str)
        ensures
            result@ == grammar_chars(),
    {
        grammar_syntax()
    }
}

impl<P: LocalisationProvider, C: Command> Localiser<P, C> {
    /// Localises the data, as [`data_agrees`] states.
    fn actual_format_localisation_data(
        &mut self,
        data: &LocalisationData,
        language_tag: &Rc<String>,
        fallback: bool,
        caching: bool,
    ) -> (result: Result<TaggedString, LocaliserError>)
        ensures
            data_agrees(old(self).cache(), final(self).cache(), *data, language_tag@, old(self).command_names(), old(self).commands(), fallback, caching, new_exchanges(old(self).exchanges(), final(self).exchanges()), result),
            logged(old(self).exchanges(), final(self).exchanges()),
            log_answered(old(self).provider(), new_exchanges(old(self).exchanges(), final(self).exchanges())),
            final(self).default_tag() == old(self).default_tag(),
            final(self).default_fallback() == old(self).default_fallback(),
            final(self).default_caching() == old(self).default_caching(),
            final(self).command_names() == old(self).command_names(),
            final(self).commands() == old(self).commands(),
            final(self).provider() == old(self).provider(),
        decreases data,
    {
        let values = match &data.values {
            None => {
                return self.actual_literal(data.component.as_str(), data.identifier.as_str(), language_tag, fallback, caching);
            },
            Some(values) => values,
        };
        let ghost tag0 = self.default_tag();
        let ghost fallback0 = self.default_fallback();
        let ghost caching0 = self.default_caching();
        let ghost names0 = self.command_names();
        let ghost commands0 = self.commands();
        let ghost provider0 = self.provider();
        let ghost log0 = self.exchanges();
        let ghost before0 = self.cache();
        let ghost tag = language_tag@;
        proof {
            lemma_logged_none(log0);
            assert(named_views(Seq::<(String, PlaceholderValue)>::empty()) =~= Seq::<(Seq<char>, ValueView)>::empty());
        }
        let mut substitutes: Vec<(String, PlaceholderValue)> = Vec::new();
        let mut i: usize = 0;
        while i < values.len()
            invariant
                0 <= i <= values@.len(),
                old(self).exchanges() == log0,
                old(self).cache() == before0,
                tag == language_tag@,
                logged(log0, self.exchanges()),
                data.values == Some(*values),
                substitutes@.len() == i,
                values_localised(
                    before0,
                    self.cache(),
                    *data,
                    i as nat,
                    tag,
                    names0,
                    commands0,
                    fallback,
                    caching,
                    new_exchanges(log0, self.exchanges()),
                    Ok(named_views(substitutes@)),
                ),
                self.default_tag() == tag0,
                self.default_fallback() == fallback0,
                self.default_caching() == caching0,
                self.command_names() == names0,
                self.commands() == commands0,
                old(self).commands() == commands0,
                self.provider() == provider0,
                old(self).provider() == provider0,
                log_answered(provider0, new_exchanges(log0, self.exchanges())),
                old(self).default_tag() == tag0,
                old(self).default_fallback() == fallback0,
                old(self).default_caching() == caching0,
                old(self).command_names() == names0,
            decreases values.len() - i,
        {
            let ghost mid = self.cache();
            let ghost log_mid = self.exchanges();
            let ghost views = named_views(substitutes@);
            let ghost e = values@[i as int];
            let ghost subs_before = substitutes@;
            match &values[i].1 {
                PlaceholderValue::LocalisationData(inner) => {
                    proof {
                        let v = data.values;
                        let w = *values;
                        assert(decreases_to!(*data => v));
                        assert(decreases_to!(v => v->0));
                        assert(v->0 == w);
                        assert(decreases_to!(w => w@));
                        assert(decreases_to!(w@ => e));
                        assert(decreases_to!(e => e.1));
                        assert(decreases_to!(e.1 => e.1->LocalisationData_0));
                    }
                    let localised = self.actual_format_localisation_data(inner, language_tag, fallback, caching);
                    let ghost r = localised;
                    proof {
                        lemma_logged_trans(log0, log_mid, self.exchanges());
                        lemma_answered_concat(provider0, new_exchanges(log0, log_mid), new_exchanges(log_mid, self.exchanges()));
                        let log = new_exchanges(log0, self.exchanges());
                        let k = log_mid.len() - log0.len();
                        assert(log.skip(k) == new_exchanges(log_mid, self.exchanges()));
                        assert(e.1 == PlaceholderValue::LocalisationData(*inner));
                        assert(data_agrees(mid, self.cache(), *inner, tag, names0, commands0, fallback, caching, new_exchanges(log_mid, self.exchanges()), r));
                        assert(data_agrees(mid, self.cache(), *inner, tag, names0, commands0, fallback, caching, log.skip(k), r));
                        assert(values_localised(before0, mid, *data, i as nat, tag, names0, commands0, fallback, caching, log.take(k), Ok(views)));
                        assert(localisation_step(mid, k, Ok(views)));
                        assert(localised_value(r));
                        assert((((i + 1) as nat) - 1) as nat == i as nat);
                    }
                    let localised = match localised {
                        Ok(s) => s,
                        Err(err) => {
                            proof {
                                assert(r == Err::<TaggedString, LocaliserError>(err));
                                let log = new_exchanges(log0, self.exchanges());
                                assert(values_localised(before0, self.cache(), *data, (i + 1) as nat, tag, names0, commands0, fallback, caching, log, Err(err@)));
                                lemma_values_error(before0, self.cache(), *data, (i + 1) as nat, values@.len(), tag, names0, commands0, fallback, caching, log, err@);
                                assert(log.take(log.len() as int) =~= log);
                                assert(values_localised(before0, self.cache(), *data, values@.len(), tag, names0, commands0, fallback, caching, log.take(log.len() as int), Err(err@)));
                                assert(localisation_step(self.cache(), log.len() as int, Err(err@)));
                            }
                            return Err(err);
                        },
                    };
                    let ghost s = localised;
                    substitutes.push((values[i].0.clone(), PlaceholderValue::TaggedString(localised)));
                    proof {
                        assert(named_views(substitutes@) =~= views.push((e.0@, ValueView::TaggedString(s.text(), s.tag()))));
                    }
                },
                _ => {
                    substitutes.push((values[i].0.clone(), clone_value(&values[i].1)));
                    proof {
                        let log = new_exchanges(log0, self.exchanges());
                        assert(named_views(substitutes@) =~= views.push((e.0@, value_view(e.1))));
                        assert(log.take(log.len() as int) =~= log);
                        assert(values_localised(before0, mid, *data, i as nat, tag, names0, commands0, fallback, caching, log.take(log.len() as int), Ok(views)));
                        assert(localisation_step(mid, log.len() as int, Ok(views)));
                        assert((((i + 1) as nat) - 1) as nat == i as nat);
                    }
                },
            }
            i = i + 1;
        }
        let ghost middle = self.cache();
        let ghost log_middle = self.exchanges();
        let ghost subs = substitutes@;
        let result = self.actual_format(
            data.component.as_str(),
            data.identifier.as_str(),
            &substitutes,
            language_tag,
            fallback,
            caching,
        );
        proof {
            lemma_logged_trans(log0, log_middle, self.exchanges());
            lemma_answered_concat(provider0, new_exchanges(log0, log_middle), new_exchanges(log_middle, self.exchanges()));
            let log = new_exchanges(log0, self.exchanges());
            let k = log_middle.len() - log0.len();
            assert(format_agrees(
                middle,
                self.cache(),
                data.component@,
                data.identifier@,
                tag,
                subs,
                names0,
                commands0,
                fallback,
                caching,
                log.skip(k),
                result,
            ));
            assert(values_localised(before0, middle, *data, values@.len(), tag, names0, commands0, fallback, caching, log.take(k), Ok(named_views(subs))));
            assert(localisation_step(middle, k, Ok(named_views(subs))));
        }
        result
    }

    /// Localises the localisation data for the language tag: without values, its literal string; with
    /// values, its pattern string formatted with the values, each localisation data among them localised
    /// first. Where `fallback` or `caching` is `None`, the localiser's default is taken.
    pub fn format_localisation_data(
        &mut self,
        data: &LocalisationData,
        language_tag: &Rc<String>,
        fallback: Option<bool>,
        caching: Option<bool>,
    ) -> (result: Result<TaggedString, LocaliserError>)
        ensures
            data_agrees(
                old(self).cache(),
                final(self).cache(),
                *data,
                language_tag@,
                old(self).command_names(),
                old(self).commands(),
                flag_or(fallback, old(self).default_fallback()),
                flag_or(caching, old(self).default_caching()),
                new_exchanges(old(self).exchanges(), final(self).exchanges()),
                result,
            ),
            logged(old(self).exchanges(), final(self).exchanges()),
            log_answered(old(self).provider(), new_exchanges(old(self).exchanges(), final(self).exchanges())),
            final(self).default_tag() == old(self).default_tag(),
            final(self).default_fallback() == old(self).default_fallback(),
            final(self).default_caching() == old(self).default_caching(),
            final(self).command_names() == old(self).command_names(),
            final(self).commands() == old(self).commands(),
            final(self).provider() == old(self).provider(),
    {
        let fallback = match fallback {
            Some(b) => b,
            None => self.fallback,
        };
        let caching = match caching {
            Some(b) => b,
            None => self.caching,
        };
        self.actual_format_localisation_data(data, language_tag, fallback, caching)
    }

    /// Localises the localisation data with the localiser's defaults.
    pub fn format_localisation_data_with_defaults(&mut self, data: &LocalisationData) -> (result: Result<
        TaggedString,
        LocaliserError,
    >)
        ensures
            data_agrees(
                old(self).cache(),
                final(self).cache(),
                *data,
                old(self).default_tag(),
                old(self).command_names(),
                old(self).commands(),
                old(self).default_fallback(),
                old(self).default_caching(),
                new_exchanges(old(self).exchanges(), final(self).exchanges()),
                result,
            ),
            logged(old(self).exchanges(), final(self).exchanges()),
            log_answered(old(self).provider(), new_exchanges(old(self).exchanges(), final(self).exchanges())),
            final(self).default_tag() == old(self).default_tag(),
            final(self).default_fallback() == old(self).default_fallback(),
            final(self).default_caching() == old(self).default_caching(),
            final(self).command_names() == old(self).command_names(),
            final(self).commands() == old(self).commands(),
            final(self).provider() == old(self).provider(),
    {
        let tag = Rc::clone(&self.language_tag);
        let fallback = self.fallback;
        let caching = self.caching;
        self.actual_format_localisation_data(data, &tag, fallback, caching)
    }

    /// Localises the error by its localisation data for the language tag; where `fallback` or `caching` is
    /// `None`, the localiser's default is taken.
    pub fn format_error<E: LocalisationTrait>(
        &mut self,
        error: &E,
        language_tag: &Rc<String>,
        fallback: Option<bool>,
        caching: Option<bool>,
    ) -> (result: Result<TaggedString, LocaliserError>)
        ensures
            exists|data: LocalisationData|
                #![trigger error.data_agrees(data_view(data))]
                error.data_agrees(data_view(data)) && data_agrees(
                    old(self).cache(),
                    final(self).cache(),
                    data,
                    language_tag@,
                    old(self).command_names(),
                    old(self).commands(),
                    flag_or(fallback, old(self).default_fallback()),
                    flag_or(caching, old(self).default_caching()),
                    new_exchanges(old(self).exchanges(), final(self).exchanges()),
                    result,
                ),
            logged(old(self).exchanges(), final(self).exchanges()),
            log_answered(old(self).provider(), new_exchanges(old(self).exchanges(), final(self).exchanges())),
            final(self).default_tag() == old(self).default_tag(),
            final(self).default_fallback() == old(self).default_fallback(),
            final(self).default_caching() == old(self).default_caching(),
            final(self).command_names() == old(self).command_names(),
            final(self).commands() == old(self).commands(),
            final(self).provider() == old(self).provider(),
    {
        let data = error.localisation_data();
        self.format_localisation_data(&data, language_tag, fallback, caching)
    }

    /// Localises the error by its localisation data with the localiser's defaults.
    pub fn format_error_with_defaults<E: LocalisationTrait>(&mut self, error: &E) -> (result: Result<
        TaggedString,
        LocaliserError,
    >)
        ensures
            exists|data: LocalisationData|
                #![trigger error.data_agrees(data_view(data))]
                error.data_agrees(data_view(data)) && data_agrees(
                    old(self).cache(),
                    final(self).cache(),
                    data,
                    old(self).default_tag(),
                    old(self).command_names(),
                    old(self).commands(),
                    old(self).default_fallback(),
                    old(self).default_caching(),
                    new_exchanges(old(self).exchanges(), final(self).exchanges()),
                    result,
                ),
            logged(old(self).exchanges(), final(self).exchanges()),
            log_answered(old(self).provider(), new_exchanges(old(self).exchanges(), final(self).exchanges())),
            final(self).default_tag() == old(self).default_tag(),
            final(self).default_fallback() == old(self).default_fallback(),
            final(self).default_caching() == old(self).default_caching(),
            final(self).command_names() == old(self).command_names(),
            final(self).commands() == old(self).commands(),
            final(self).provider() == old(self).provider(),
    {
        let data = error.localisation_data();
        self.format_localisation_data_with_defaults(&data)
    }
}

} // verus!
